//! The list of saved worlds: their names, their folders and their order.
//!
//! Every world lives in a folder of its own below the saves folder, with a
//! `meta.bin` beside one file per changed chunk.
use crate::text::{
    decimal, law_decimal_is_injective, law_signed_decimal_is_injective, lemma_decimal_chars,
    push_decimal, push_signed, same_text, signed_decimal,
};
use vstd::prelude::*;
use vstd::string::StrSliceExecFns;
use vstd::string::StringExecFns;

verus! {

/// Whether a character is a letter or a digit in the sense of Unicode.
pub uninterp spec fn unicode_alphanumeric(c: char) -> bool;

pub open spec fn ascii_alphanumeric(c: char) -> bool {
    'a' <= c <= 'z' || 'A' <= c <= 'Z' || '0' <= c <= '9'
}

/// `char::is_alphanumeric` tells letters and digits by their Unicode
/// properties. Among the ASCII characters these are exactly the letters A to Z,
/// small and capital, and the digits.
pub assume_specification[ char::is_alphanumeric ](c: char) -> (r: bool)
    ensures
        r == unicode_alphanumeric(c),
        c as u32 <= 127 ==> r == ascii_alphanumeric(c),
;

/// Where the player stood and looked when the world was saved. The numbers are
/// the bit patterns of single precision floats.
#[derive(Clone, Copy, Debug, PartialEq, Eq)]
pub struct PlayerState {
    pub feet_x: u32,
    pub feet_y: u32,
    pub feet_z: u32,
    pub yaw: u32,
    pub pitch: u32,
}

/// What `meta.bin` says of a world.
#[derive(Debug)]
pub struct WorldMeta {
    pub name: String,
    pub seed: u32,
    /// Seconds since the epoch.
    pub created_at: u64,
    pub player_state: Option<PlayerState>,
}

/// Letters and digits: the ASCII ones, and beyond ASCII those of Unicode.
pub open spec fn letter_or_digit(c: char) -> bool {
    if c as u32 <= 127 {
        ascii_alphanumeric(c)
    } else {
        unicode_alphanumeric(c)
    }
}

/// Characters that a folder name keeps.
pub open spec fn keeps(c: char) -> bool {
    letter_or_digit(c) || c == '_' || c == '-'
}

pub open spec fn cleaned(name: Seq<char>) -> Seq<char> {
    name.map_values(
        |c: char|
            if keeps(c) {
                c
            } else {
                '_'
            },
    )
}

/// The folder name of a world: its name with everything but letters, digits,
/// underscores and hyphens replaced, and never empty.
pub open spec fn folder_name(name: Seq<char>) -> Seq<char> {
    if name.len() == 0 {
        "mundo"@
    } else {
        cleaned(name)
    }
}

/// A path below a folder.
pub open spec fn below(root: Seq<char>, name: Seq<char>) -> Seq<char> {
    if root.len() == 0 {
        name
    } else if root.last() == '/' {
        root + name
    } else {
        root.push('/') + name
    }
}

/// Remembers the saves folder. Only the first folder that is set counts.
pub fn set_saves_root(configured: Option<String>, dir: String) -> (r: Option<String>)
    ensures
        r is Some,
        r->0@ == if configured is Some {
            configured->0@
        } else {
            dir@
        },
{
    match configured {
        Some(root) => Some(root),
        None => Some(dir),
    }
}

/// The saves folder: the one that was set, else `saves` beside the program.
pub fn saves_root(configured: &Option<String>) -> (r: String)
    ensures
        r@ == match *configured {
            Some(root) => root@,
            None => "saves"@,
        },
{
    match configured {
        Some(root) => root.clone(),
        None => String::from_str("saves"),
    }
}

/// The folder name of a world.
pub fn sanitize(name: &str) -> (r: String)
    ensures
        r@ == folder_name(name@),
{
    let n: usize = name.unicode_len();
    if n == 0 {
        return String::from_str("mundo");
    }
    let mut out: String = String::new();
    let mut i: usize = 0;
    while i < n
        invariant
            n == name@.len(),
            i <= n,
            out@ == cleaned(name@).take(i as int),
        decreases n - i,
    {
        let c: char = name.get_char(i);
        if c.is_alphanumeric() || c == '_' || c == '-' {
            out.push(c);
        } else {
            out.push('_');
        }
        assert(out@ =~= cleaned(name@).take(i + 1));
        i = i + 1;
    }
    assert(out@ =~= cleaned(name@));
    out
}

pub(crate) fn join(root: &str, name: &str) -> (r: String)
    ensures
        r@ == below(root@, name@),
{
    let mut out: String = String::from_str(root);
    let n: usize = root.unicode_len();
    if n > 0 {
        if root.get_char(n - 1) != '/' {
            out.push('/');
        }
    }
    out.append(name);
    assert(out@ =~= below(root@, name@));
    out
}

/// The folder that a world is saved in.
pub fn world_dir(root: &str, name: &str) -> (r: String)
    ensures
        r@ == below(root@, folder_name(name@)),
{
    let folder = sanitize(name);
    join(root, folder.as_str())
}

/// The file that describes a world.
pub fn meta_path(root: &str, name: &str) -> (r: String)
    ensures
        r@ == below(below(root@, folder_name(name@)), "meta.bin"@),
{
    let dir = world_dir(root, name);
    join(dir.as_str(), "meta.bin")
}

/// The name of the file that holds a chunk.
pub open spec fn chunk_file(cx: int, cz: int) -> Seq<char> {
    "chunk_"@ + signed_decimal(cx) + "_"@ + signed_decimal(cz) + ".bin"@
}

/// The file that a chunk is saved in.
pub fn chunk_file_path(save_dir: &str, cx: i32, cz: i32) -> (r: String)
    ensures
        r@ == below(save_dir@, chunk_file(cx as int, cz as int)),
{
    let mut out: String = String::from_str("chunk_");
    push_signed(&mut out, cx);
    out.append("_");
    push_signed(&mut out, cz);
    out.append(".bin");
    join(save_dir, out.as_str())
}

/// Seconds since the epoch, or zero where the clock is before it.
pub fn now_secs(since_epoch: Option<u64>) -> (r: u64)
    ensures
        r == match since_epoch {
            Some(s) => s,
            None => 0,
        },
{
    match since_epoch {
        Some(s) => s,
        None => 0,
    }
}

/// The seed of a new world, from the clock.
pub fn clock_seed(nanos: Option<u32>) -> (r: u32)
    ensures
        r == match nanos {
            Some(n) => n,
            None => 1337,
        },
{
    match nanos {
        Some(n) => n,
        None => 1337,
    }
}

/// Some world has the name.
pub open spec fn has_name(worlds: Seq<WorldMeta>, name: Seq<char>) -> bool {
    exists|i: int| 0 <= i < worlds.len() && (#[trigger] worlds[i]).name@ == name
}

fn name_in_use(worlds: &Vec<WorldMeta>, name: &str) -> (r: bool)
    ensures
        r == has_name(worlds@, name@),
{
    let mut i: usize = 0;
    while i < worlds.len()
        invariant
            i <= worlds@.len(),
            forall|j: int| 0 <= j < i ==> (#[trigger] worlds@[j]).name@ != name@,
        decreases worlds@.len() - i,
    {
        if same_text(worlds[i].name.as_str(), name) {
            return true;
        }
        i = i + 1;
    }
    false
}

pub open spec fn numbered_name(k: int) -> Seq<char> {
    "Mundo "@ + decimal(k as nat)
}

/// `k` is the first number from one on whose name is free.
pub open spec fn is_first_free_number(worlds: Seq<WorldMeta>, k: int) -> bool {
    &&& 1 <= k
    &&& !has_name(worlds, numbered_name(k))
    &&& forall|j: int| 1 <= j < k ==> has_name(worlds, #[trigger] numbered_name(j))
}

/// The name is the first free one of the numbered names.
pub open spec fn is_next_free_name(worlds: Seq<WorldMeta>, name: Seq<char>) -> bool {
    exists|k: int| is_first_free_number(worlds, k) && name == #[trigger] numbered_name(k)
}

proof fn lemma_numbered_name_is_injective(a: int, b: int)
    requires
        0 <= a,
        0 <= b,
        numbered_name(a) == numbered_name(b),
    ensures
        a == b,
{
    let p = "Mundo "@;
    let n = p.len() as int;
    assert(numbered_name(a).subrange(n, numbered_name(a).len() as int) =~= decimal(a as nat));
    assert(numbered_name(b).subrange(n, numbered_name(b).len() as int) =~= decimal(b as nat));
    law_decimal_is_injective(a as nat, b as nat);
}

/// Distinct numbers below `n` are at most `n` many.
proof fn lemma_distinct_below(s: Seq<int>, n: int)
    requires
        0 <= n,
        s.no_duplicates(),
        forall|i: int| 0 <= i < s.len() ==> 0 <= #[trigger] s[i] < n,
    ensures
        s.len() <= n,
{
    let range = vstd::set_lib::set_int_range(0, n);
    vstd::set_lib::lemma_int_range(0, n);
    s.unique_seq_to_set();
    assert(s.to_set().subset_of(range)) by {
        assert forall|x: int| s.to_set().contains(x) implies range.contains(x) by {
            let i = choose|i: int| 0 <= i < s.len() && s[i] == x;
        }
    }
    vstd::set_lib::lemma_len_subset(s.to_set(), range);
}

/// The first free name of the form "Mundo N".
pub fn next_free_name(existing: &Vec<WorldMeta>) -> (r: String)
    requires
        existing@.len() < usize::MAX,
    ensures
        is_next_free_name(existing@, r@),
{
    let mut i: u64 = 1;
    let ghost mut used: Seq<int> = Seq::empty();
    loop
        invariant
            existing@.len() < usize::MAX,
            1 <= i <= existing@.len() + 1,
            used.len() == i - 1,
            used.no_duplicates(),
            forall|n: int|
                0 <= n < used.len() ==> 0 <= #[trigger] used[n] < existing@.len()
                    && existing@[used[n]].name@ == numbered_name(1 + n),
        decreases existing@.len() + 2 - i,
    {
        let mut candidate: String = String::from_str("Mundo ");
        push_decimal(&mut candidate, i);
        if !name_in_use(existing, candidate.as_str()) {
            proof {
                assert forall|j: int| 1 <= j < i implies has_name(
                    existing@,
                    #[trigger] numbered_name(j),
                ) by {
                    let n = j - 1;
                    assert(existing@[used[n]].name@ == numbered_name(1 + n));
                }
                assert(is_first_free_number(existing@, i as int));
            }
            return candidate;
        }
        proof {
            let at = choose|n: int|
                0 <= n < existing@.len() && (#[trigger] existing@[n]).name@ == candidate@;
            let before = used;
            used = used.push(at);
            assert forall|n: int| 0 <= n < used.len() implies 0 <= #[trigger] used[n]
                < existing@.len() && existing@[used[n]].name@ == numbered_name(1 + n) by {
                if n < before.len() {
                    assert(used[n] == before[n]);
                }
            }
            assert forall|a: int, b: int| 0 <= a < used.len() && 0 <= b < used.len() && a
                != b implies used[a] != used[b] by {
                if used[a] == used[b] {
                    assert(existing@[used[a]].name@ == numbered_name(1 + a));
                    assert(existing@[used[b]].name@ == numbered_name(1 + b));
                    lemma_numbered_name_is_injective(1 + a, 1 + b);
                }
            }
            lemma_distinct_below(used, existing@.len() as int);
        }
        i = i + 1;
    }
}

/// The names tried for a world: the wanted one, then with " (2)", " (3)" and so
/// on behind it.
pub open spec fn candidate_name(name: Seq<char>, k: int) -> Seq<char> {
    if k <= 0 {
        name
    } else {
        name + " ("@ + decimal((k + 1) as nat) + ")"@
    }
}

/// A candidate is free when no world has the name and its folder does not exist.
pub open spec fn candidate_free(
    worlds: Seq<WorldMeta>,
    name: Seq<char>,
    folder_exists: Seq<bool>,
    k: int,
) -> bool {
    !has_name(worlds, candidate_name(name, k)) && !folder_exists[k]
}

/// The first free candidate among those whose folders were looked up.
pub open spec fn first_free_candidate(
    worlds: Seq<WorldMeta>,
    name: Seq<char>,
    folder_exists: Seq<bool>,
    k: int,
) -> bool {
    &&& 0 <= k < folder_exists.len()
    &&& candidate_free(worlds, name, folder_exists, k)
    &&& forall|j: int|
        0 <= j < k ==> !#[trigger] candidate_free(worlds, name, folder_exists, j)
}

/// The name is the first free candidate.
pub open spec fn is_unique_name(
    worlds: Seq<WorldMeta>,
    name: Seq<char>,
    folder_exists: Seq<bool>,
    r: Seq<char>,
) -> bool {
    exists|k: int|
        first_free_candidate(worlds, name, folder_exists, k) && r == #[trigger] candidate_name(
            name,
            k,
        )
}

/// The name tried at attempt `k`.
pub fn name_candidate(name: &str, k: u32) -> (r: String)
    ensures
        r@ == candidate_name(name@, k as int),
{
    let mut out: String = String::from_str(name);
    if k > 0 {
        out.append(" (");
        push_decimal(&mut out, k as u64 + 1);
        out.append(")");
    }
    out
}

/// The name that a new world gets. `folder_exists` says of each candidate, in
/// order, whether its folder exists already. Nothing is returned where all of
/// these candidates are taken; then more folders have to be looked up.
pub fn unique_name(name: &str, existing: &Vec<WorldMeta>, folder_exists: &Vec<bool>) -> (r: Option<
    String,
>)
    requires
        folder_exists@.len() < 0x1_0000_0000,
    ensures
        r matches Some(chosen) ==> is_unique_name(existing@, name@, folder_exists@, chosen@),
        r is None <==> forall|k: int|
            0 <= k < folder_exists@.len() ==> !#[trigger] candidate_free(
                existing@,
                name@,
                folder_exists@,
                k,
            ),
{
    let mut k: usize = 0;
    while k < folder_exists.len()
        invariant
            folder_exists@.len() < 0x1_0000_0000,
            k <= folder_exists@.len(),
            forall|j: int|
                0 <= j < k ==> !#[trigger] candidate_free(existing@, name@, folder_exists@, j),
        decreases folder_exists@.len() - k,
    {
        let candidate = name_candidate(name, k as u32);
        if !name_in_use(existing, candidate.as_str()) && !folder_exists[k] {
            proof {
                assert(candidate_free(existing@, name@, folder_exists@, k as int));
                assert(first_free_candidate(existing@, name@, folder_exists@, k as int));
            }
            return Some(candidate);
        }
        assert(!candidate_free(existing@, name@, folder_exists@, k as int));
        k = k + 1;
    }
    None
}

/// Describes a new world. The player has no place in it yet.
pub fn create_world(name: String, seed: u32, created_at: u64) -> (r: WorldMeta)
    ensures
        r.name@ == name@,
        r.seed == seed,
        r.created_at == created_at,
        r.player_state is None,
{
    WorldMeta { name, seed, created_at, player_state: None }
}

/// The description of a world with the player's place noted, to be written
/// back. Where no description could be read nothing is to be written.
pub fn save_player_state(meta: Option<WorldMeta>, state: PlayerState) -> (r: Option<WorldMeta>)
    ensures
        r is Some <==> meta is Some,
        r matches Some(m) ==> {
            &&& m.player_state == Some(state)
            &&& m.name@ == meta->0.name@
            &&& m.seed == meta->0.seed
            &&& m.created_at == meta->0.created_at
        },
{
    match meta {
        Some(m) => Some(
            WorldMeta {
                name: m.name,
                seed: m.seed,
                created_at: m.created_at,
                player_state: Some(state),
            },
        ),
        None => None,
    }
}

/// Newest worlds come first.
pub open spec fn newest_first(worlds: Seq<WorldMeta>) -> bool {
    forall|i: int, j: int|
        0 <= i < j < worlds.len() ==> (#[trigger] worlds[i]).created_at >= (
        #[trigger] worlds[j]).created_at
}

/// The worlds of one moment, in the order of the list.
pub open spec fn created_at(worlds: Seq<WorldMeta>, t: u64) -> Seq<WorldMeta> {
    worlds.filter(|m: WorldMeta| m.created_at == t)
}

/// Both lists hold the same worlds, and worlds of one moment in the same order.
pub open spec fn same_worlds(a: Seq<WorldMeta>, b: Seq<WorldMeta>) -> bool {
    forall|t: u64| #[trigger] created_at(a, t) == created_at(b, t)
}

proof fn lemma_created_at_insert(sorted: Seq<WorldMeta>, pos: int, m: WorldMeta, t: u64)
    requires
        0 <= pos <= sorted.len(),
        forall|i: int| pos <= i < sorted.len() ==> (#[trigger] sorted[i]).created_at < m.created_at,
    ensures
        created_at(sorted.insert(pos, m), t) == created_at(sorted.push(m), t),
{
    let f = |x: WorldMeta| x.created_at == t;
    let a = sorted.take(pos);
    let b = sorted.skip(pos);
    let one = seq![m];
    assert(sorted.insert(pos, m) =~= a + one + b);
    assert(sorted.push(m) =~= a + b + one);
    Seq::filter_distributes_over_add(a + one, b, f);
    Seq::filter_distributes_over_add(a, one, f);
    Seq::filter_distributes_over_add(a + b, one, f);
    Seq::filter_distributes_over_add(a, b, f);
    reveal(Seq::filter);
    if m.created_at == t {
        assert forall|i: int| 0 <= i < b.len() implies !f(#[trigger] b[i]) by {
            assert(b[i] == sorted[pos + i]);
        }
        lemma_filter_nothing(b, f);
        assert(b.filter(f) =~= Seq::<WorldMeta>::empty());
        assert(one.filter(f) =~= one) by {
            reveal_with_fuel(Seq::filter, 2);
            assert(one.last() == m);
            assert(one.drop_last() =~= Seq::<WorldMeta>::empty());
        }
        assert(a.filter(f) + one + b.filter(f) =~= a.filter(f) + b.filter(f) + one);
    } else {
        lemma_filter_nothing(one, f);
        assert(a.filter(f) + one.filter(f) + b.filter(f) =~= a.filter(f) + b.filter(f) + one.filter(
            f,
        ));
    }
}

proof fn lemma_filter_nothing(s: Seq<WorldMeta>, f: spec_fn(WorldMeta) -> bool)
    requires
        forall|i: int| 0 <= i < s.len() ==> !f(#[trigger] s[i]),
    ensures
        s.filter(f).len() == 0,
    decreases s.len(),
{
    reveal(Seq::filter);
    if s.len() > 0 {
        lemma_filter_nothing(s.drop_last(), f);
    }
}

proof fn lemma_created_at_push(a: Seq<WorldMeta>, b: Seq<WorldMeta>, m: WorldMeta, t: u64)
    requires
        created_at(a, t) == created_at(b, t),
    ensures
        created_at(a.push(m), t) == created_at(b.push(m), t),
{
    reveal(Seq::filter);
    assert(a.push(m).drop_last() =~= a);
    assert(b.push(m).drop_last() =~= b);
}

/// Orders the worlds that were found, newest first; worlds of the same moment
/// keep their order.
pub fn list_worlds(found: Vec<WorldMeta>) -> (r: Vec<WorldMeta>)
    ensures
        newest_first(r@),
        same_worlds(r@, found@),
{
    let ghost all = found@;
    let mut left: Vec<WorldMeta> = found;
    let mut out: Vec<WorldMeta> = Vec::new();
    let ghost mut n: int = 0;
    assert(all.take(0) =~= out@);
    while left.len() > 0
        invariant
            0 <= n <= all.len(),
            left@ == all.skip(n),
            newest_first(out@),
            same_worlds(out@, all.take(n)),
        decreases left@.len(),
    {
        let m: WorldMeta = left.remove(0);
        let mut pos: usize = out.len();
        while pos > 0 && out[pos - 1].created_at < m.created_at
            invariant
                pos <= out@.len(),
                newest_first(out@),
                forall|i: int|
                    pos <= i < out@.len() ==> (#[trigger] out@[i]).created_at < m.created_at,
            decreases pos,
        {
            pos = pos - 1;
        }
        let ghost before = out@;
        out.insert(pos, m);
        proof {
            assert(m == all[n]);
            assert(all.take(n + 1) =~= all.take(n).push(m));
            assert(left@ =~= all.skip(n + 1));
            assert forall|t: u64| #[trigger] created_at(out@, t) == created_at(
                all.take(n + 1),
                t,
            ) by {
                lemma_created_at_insert(before, pos as int, m, t);
                assert(created_at(before, t) == created_at(all.take(n), t));
                lemma_created_at_push(before, all.take(n), m, t);
            }
            assert(newest_first(out@)) by {
                assert forall|i: int, j: int| 0 <= i < j < out@.len() implies (
                #[trigger] out@[i]).created_at >= (#[trigger] out@[j]).created_at by {
                    if j < pos {
                        assert(out@[j] == before[j]);
                    } else if j > pos {
                        assert(out@[j] == before[j - 1]);
                    }
                    if i < pos {
                        assert(out@[i] == before[i]);
                    } else if i > pos {
                        assert(out@[i] == before[i - 1]);
                    }
                    if pos > 0 {
                        assert(before[pos - 1].created_at >= m.created_at);
                    }
                }
            }
            n = n + 1;
        }
    }
    assert(all.take(n) =~= all);
    out
}

/// A folder name is never empty and holds nothing that could lead elsewhere: of
/// the ASCII characters only letters, digits, underscores and hyphens.
pub proof fn law_folder_names_are_plain(name: Seq<char>, i: int)
    requires
        0 <= i < folder_name(name).len(),
    ensures
        folder_name(name).len() > 0,
        folder_name(name)[i] as u32 <= 127 ==> ascii_alphanumeric(folder_name(name)[i])
            || folder_name(name)[i] == '_' || folder_name(name)[i] == '-',
        folder_name(name)[i] != '/' && folder_name(name)[i] != '.' && folder_name(name)[i] != ' ',
{
    reveal_strlit("mundo");
}

/// Making a folder name of a folder name changes nothing.
pub proof fn law_folder_name_is_stable(name: Seq<char>)
    ensures
        folder_name(folder_name(name)) == folder_name(name),
{
    reveal_strlit("mundo");
    let f = folder_name(name);
    assert(f.len() > 0);
    assert forall|i: int| 0 <= i < f.len() implies keeps(#[trigger] f[i]) by {}
    assert(cleaned(f) =~= f);
}

proof fn lemma_signed_decimal_has_no_underscore(n: int, i: int)
    requires
        0 <= i < signed_decimal(n).len(),
    ensures
        signed_decimal(n)[i] != '_',
{
    if n < 0 {
        lemma_decimal_chars((-n) as nat);
        if i > 0 {
            assert(signed_decimal(n)[i] == decimal((-n) as nat)[i - 1]);
        }
    } else {
        lemma_decimal_chars(n as nat);
    }
}

/// No two chunks share a file.
pub proof fn law_chunk_files_are_distinct(ax: int, az: int, bx: int, bz: int)
    requires
        chunk_file(ax, az) == chunk_file(bx, bz),
    ensures
        ax == bx,
        az == bz,
{
    reveal_strlit("chunk_");
    reveal_strlit("_");
    reveal_strlit(".bin");
    let f = chunk_file(ax, az);
    let g = chunk_file(bx, bz);
    let a = signed_decimal(ax);
    let b = signed_decimal(bx);
    let c = signed_decimal(az);
    let d = signed_decimal(bz);
    assert(f[6 + a.len() as int] == '_');
    assert(g[6 + b.len() as int] == '_');
    assert forall|i: int| 0 <= i < a.len() implies f[6 + i] == #[trigger] a[i] by {}
    assert forall|i: int| 0 <= i < b.len() implies g[6 + i] == #[trigger] b[i] by {}
    if a.len() < b.len() {
        lemma_signed_decimal_has_no_underscore(bx, a.len() as int);
        assert(g[6 + a.len() as int] == b[a.len() as int]);
    }
    if b.len() < a.len() {
        lemma_signed_decimal_has_no_underscore(ax, b.len() as int);
        assert(f[6 + b.len() as int] == a[b.len() as int]);
    }
    assert(a =~= b) by {
        assert forall|i: int| 0 <= i < a.len() implies a[i] == b[i] by {
            assert(f[6 + i] == a[i]);
            assert(g[6 + i] == b[i]);
        }
    }
    let n = 7 + a.len() as int;
    assert(f.len() == n + c.len() + 4);
    assert(g.len() == n + d.len() + 4);
    assert(c =~= d) by {
        assert forall|i: int| 0 <= i < c.len() implies c[i] == d[i] by {
            assert(f[n + i] == c[i]);
            assert(g[n + i] == d[i]);
        }
    }
    law_signed_decimal_is_injective(ax, bx);
    law_signed_decimal_is_injective(az, bz);
}

/// A new world's name is used by no other world.
pub proof fn law_chosen_names_are_free(
    worlds: Seq<WorldMeta>,
    name: Seq<char>,
    folder_exists: Seq<bool>,
    r: Seq<char>,
)
    requires
        is_next_free_name(worlds, r) || is_unique_name(worlds, name, folder_exists, r),
    ensures
        !has_name(worlds, r),
{
    if is_unique_name(worlds, name, folder_exists, r) {
        let k = choose|k: int|
            first_free_candidate(worlds, name, folder_exists, k) && r == #[trigger] candidate_name(
                name,
                k,
            );
        assert(candidate_free(worlds, name, folder_exists, k));
    }
}

/// A name that nobody uses yet is taken as it is.
pub proof fn law_free_names_are_kept(
    worlds: Seq<WorldMeta>,
    name: Seq<char>,
    folder_exists: Seq<bool>,
    r: Seq<char>,
)
    requires
        is_unique_name(worlds, name, folder_exists, r),
        folder_exists.len() > 0,
        !has_name(worlds, name),
        !folder_exists[0],
    ensures
        r == name,
{
    let k = choose|k: int|
        first_free_candidate(worlds, name, folder_exists, k) && r == #[trigger] candidate_name(
            name,
            k,
        );
    assert(candidate_free(worlds, name, folder_exists, 0));
}

/// A new world has the wanted name or one with a number from two on behind it,
/// and the folder that was looked up for it did not exist.
pub proof fn law_new_worlds_take_a_free_folder(
    worlds: Seq<WorldMeta>,
    name: Seq<char>,
    folder_exists: Seq<bool>,
    r: Seq<char>,
)
    requires
        is_unique_name(worlds, name, folder_exists, r),
    ensures
        exists|k: int|
            0 <= k < folder_exists.len() && !folder_exists[k] && r == #[trigger] candidate_name(
                name,
                k,
            ),
        r == name || exists|n: nat| n >= 2 && r == name + " ("@ + #[trigger] decimal(n) + ")"@,
{
    let k = choose|k: int|
        first_free_candidate(worlds, name, folder_exists, k) && r == #[trigger] candidate_name(
            name,
            k,
        );
    assert(candidate_free(worlds, name, folder_exists, k));
    if k > 0 {
        let n = (k + 1) as nat;
        assert(r == name + " ("@ + decimal(n) + ")"@);
    }
}

proof fn lemma_created_at_contains(worlds: Seq<WorldMeta>, m: WorldMeta)
    ensures
        created_at(worlds, m.created_at).contains(m) <==> worlds.contains(m),
    decreases worlds.len(),
{
    reveal(Seq::filter);
    if worlds.len() > 0 {
        let init = worlds.drop_last();
        let before = created_at(init, m.created_at);
        lemma_created_at_contains(init, m);
        assert(worlds =~= init.push(worlds.last()));
        lemma_push_contains(init, worlds.last(), m);
        lemma_push_contains(before, worlds.last(), m);
    }
}

proof fn lemma_push_contains(s: Seq<WorldMeta>, x: WorldMeta, m: WorldMeta)
    ensures
        s.push(x).contains(m) <==> s.contains(m) || x == m,
{
    if s.contains(m) {
        let i = choose|i: int| 0 <= i < s.len() && s[i] == m;
        assert(s.push(x)[i] == m);
    }
    if x == m {
        assert(s.push(x)[s.len() as int] == m);
    }
    if s.push(x).contains(m) {
        let i = choose|i: int| 0 <= i < s.push(x).len() && s.push(x)[i] == m;
        if i < s.len() {
            assert(s[i] == m);
        }
    }
}

/// Listing loses no world and invents none.
pub proof fn law_every_world_is_listed(listed: Seq<WorldMeta>, found: Seq<WorldMeta>, m: WorldMeta)
    requires
        same_worlds(listed, found),
    ensures
        listed.contains(m) <==> found.contains(m),
{
    assert(created_at(listed, m.created_at) == created_at(found, m.created_at));
    lemma_created_at_contains(listed, m);
    lemma_created_at_contains(found, m);
}

/// A folder name is the world's name letter for letter: letters, digits,
/// underscores and hyphens stay where they are, and everything else becomes an
/// underscore.
pub proof fn law_folder_names_follow_the_name(name: Seq<char>, i: int)
    requires
        0 <= i < name.len(),
    ensures
        folder_name(name).len() == name.len(),
        'a' <= name[i] <= 'z' || 'A' <= name[i] <= 'Z' || '0' <= name[i] <= '9' || name[i] == '_'
            || name[i] == '-' ==> folder_name(name)[i] == name[i],
        name[i] as u32 > 127 && unicode_alphanumeric(name[i]) ==> folder_name(name)[i] == name[i],
        folder_name(name)[i] == name[i] || folder_name(name)[i] == '_',
{
}

/// A path below a folder is the folder, one slash, and the name; a slash that the
/// folder ends with is not doubled, and no folder leaves the name alone.
pub proof fn law_paths_have_one_slash(root: Seq<char>, name: Seq<char>)
    ensures
        root.len() == 0 ==> below(root, name) == name,
        root.len() > 0 && root.last() != '/' ==> below(root, name) == root + seq!['/'] + name,
        root.len() > 0 && root.last() == '/' ==> below(root, name) == root + name,
        root.len() > 0 ==> root.is_prefix_of(below(root, name)),
{
    if root.len() > 0 {
        assert(root.push('/') + name =~= root + seq!['/'] + name);
        assert(below(root, name).take(root.len() as int) =~= root);
    }
}

/// Proposed names count up from one without leaving out a free number: with
/// worlds one to `n` and no other the next is number `n + 1`.
pub proof fn law_proposed_names_count_up(worlds: Seq<WorldMeta>, n: int, r: Seq<char>)
    requires
        0 <= n,
        forall|j: int| 1 <= j <= n ==> has_name(worlds, #[trigger] numbered_name(j)),
        !has_name(worlds, numbered_name(n + 1)),
        is_next_free_name(worlds, r),
    ensures
        r == "Mundo "@ + decimal((n + 1) as nat),
{
    let k = choose|k: int| is_first_free_number(worlds, k) && r == #[trigger] numbered_name(k);
    if k <= n {
        assert(has_name(worlds, numbered_name(k)));
    }
    if k > n + 1 {
        assert(has_name(worlds, numbered_name(n + 1)));
    }
}

/// A taken name gets the first number from two on that makes it free.
pub proof fn law_taken_names_get_the_next_number(
    worlds: Seq<WorldMeta>,
    name: Seq<char>,
    folder_exists: Seq<bool>,
    r: Seq<char>,
)
    requires
        is_unique_name(worlds, name, folder_exists, r),
        folder_exists.len() > 1,
        has_name(worlds, name) || folder_exists[0],
        !has_name(worlds, name + " ("@ + decimal(2) + ")"@),
        !folder_exists[1],
    ensures
        r == name + " ("@ + decimal(2) + ")"@,
{
    let k = choose|k: int|
        first_free_candidate(worlds, name, folder_exists, k) && r == #[trigger] candidate_name(
            name,
            k,
        );
    assert(candidate_free(worlds, name, folder_exists, 1));
    assert(!candidate_free(worlds, name, folder_exists, 0));
    if k > 1 {
        assert(!candidate_free(worlds, name, folder_exists, 1));
    }
}

} // verus!
