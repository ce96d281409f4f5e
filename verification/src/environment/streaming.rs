//! Keeps the chunks around the player loaded: which chunks leave memory, which
//! are asked for, and which are meshed again when one arrives.
use crate::environment::chunk::Chunk;
use crate::environment::world::{
    chunk_key, chunks_around, has_sides, in_square, law_square_lists_each_chunk_once,
    lemma_chunk_key_round_trip, pack, sides, square, square_fits, with_chunk, ChunkPos, World, WorldState,
};
use std::collections::HashSet;
use vstd::prelude::*;

verus! {

broadcast use vstd::std_specs::hash::group_hash_axioms;

/// How many arrived chunks are put in place per frame.
pub const MAX_FINALIZED_CHUNKS_PER_FRAME: usize = 2;

/// Whether another arrived chunk may be put in place in this frame.
pub fn may_finalize(done: usize) -> (r: bool)
    ensures
        r == (done < MAX_FINALIZED_CHUNKS_PER_FRAME),
        r <==> done < 2,
{
    done < MAX_FINALIZED_CHUNKS_PER_FRAME
}

/// What to do after the player moved to another chunk.
pub struct StreamPlan {
    /// Chunks that left memory; their meshes go too.
    pub unloaded: Vec<ChunkPos>,
    /// Those of them that hold unsaved changes, to be written to disk.
    pub to_write: Vec<(ChunkPos, Chunk)>,
    /// Chunks to load or generate in the background.
    pub requested: Vec<ChunkPos>,
}

/// Where the player was when the loaded chunks were last worked out, and which
/// chunks are on their way.
pub struct ChunkStreaming {
    current: ChunkPos,
    last_radius: i32,
    pending: HashSet<u64>,
}

fn same_chunk(a: ChunkPos, b: ChunkPos) -> (r: bool)
    ensures
        r == (a == b),
{
    a.0 == b.0 && a.1 == b.1
}

/// The chunks of the square that are neither loaded nor on their way.
pub open spec fn missing_chunks(
    w: WorldState,
    in_flight: Set<ChunkPos>,
    center: ChunkPos,
    radius: int,
) -> Seq<ChunkPos> {
    square(center, radius).filter(
        |c: ChunkPos| !w.chunks.contains_key(c) && !in_flight.contains(c),
    )
}

/// The sides of a chunk that are loaded and not on their way: their meshes
/// depend on the chunk that has just arrived.
pub open spec fn sides_to_remesh(
    w: WorldState,
    in_flight: Set<ChunkPos>,
    cx: i32,
    cz: i32,
) -> Seq<ChunkPos> {
    sides(cx, cz).filter(|c: ChunkPos| w.chunks.contains_key(c) && !in_flight.contains(c))
}

/// The list holds exactly the loaded chunks outside the square, each once.
pub open spec fn leaves_square(
    w: WorldState,
    center: ChunkPos,
    radius: int,
    list: Seq<ChunkPos>,
) -> bool {
    &&& list.no_duplicates()
    &&& forall|c: ChunkPos| #[trigger]
        list.contains(c) <==> w.chunks.contains_key(c) && !in_square(center, radius, c)
}

/// The world without the chunks of the list.
pub open spec fn without_chunks(w: WorldState, list: Seq<ChunkPos>) -> WorldState {
    WorldState {
        chunks: w.chunks.remove_keys(list.to_set()),
        unsaved: w.unsaved.difference(list.to_set()),
    }
}

/// The list pairs each unsaved chunk that left memory with its blocks, once.
pub open spec fn writes_back(
    w: WorldState,
    unloaded: Seq<ChunkPos>,
    writes: Seq<(ChunkPos, Chunk)>,
) -> bool {
    &&& forall|i: int, j: int|
        0 <= i < writes.len() && 0 <= j < writes.len() && i != j ==> (#[trigger] writes[i]).0 != (
        #[trigger] writes[j]).0
    &&& forall|i: int|
        0 <= i < writes.len() ==> {
            &&& unloaded.contains((#[trigger] writes[i]).0)
            &&& w.unsaved.contains(writes[i].0)
            &&& w.chunks.contains_key(writes[i].0)
            &&& writes[i].1.blocks@ == w.chunks[writes[i].0]
        }
    &&& forall|c: ChunkPos| #[trigger]
        unloaded.contains(c) && w.unsaved.contains(c) ==> exists|i: int|
            0 <= i < writes.len() && (#[trigger] writes[i]).0 == c
}

impl ChunkStreaming {
    /// The chunk that the loaded area was last centered on.
    pub closed spec fn center(&self) -> ChunkPos {
        self.current
    }

    /// The radius that the loaded area was last worked out with.
    pub closed spec fn radius(&self) -> int {
        self.last_radius as int
    }

    /// The chunks that were asked for and have not arrived yet.
    pub closed spec fn in_flight(&self) -> Set<ChunkPos> {
        Set::new(|c: ChunkPos| self.pending@.contains(chunk_key(c)))
    }

    /// The loaded area has to be worked out anew: the player is in another
    /// chunk, the radius changed, or nothing is drawn yet.
    pub open spec fn due(&self, player_chunk: ChunkPos, radius: int, nothing_drawn: bool) -> bool {
        player_chunk != self.center() || radius != self.radius() || nothing_drawn
    }

    /// Nothing on its way.
    pub fn new(current: ChunkPos, radius: i32) -> (r: Self)
        ensures
            r.center() == current,
            r.radius() == radius,
            r.in_flight() == Set::<ChunkPos>::empty(),
    {
        let r = ChunkStreaming { current, last_radius: radius, pending: HashSet::new() };
        assert(r.in_flight() =~= Set::<ChunkPos>::empty());
        r
    }

    /// How many chunks are on their way is forgotten: what still arrives is stale.
    pub fn forget_pending(&mut self)
        ensures
            final(self).center() == old(self).center(),
            final(self).radius() == old(self).radius(),
            final(self).in_flight() == Set::<ChunkPos>::empty(),
    {
        self.pending.clear();
        assert(self.in_flight() =~= Set::<ChunkPos>::empty());
    }

    /// Whether a chunk is on its way.
    pub fn is_pending(&self, c: ChunkPos) -> (r: bool)
        ensures
            r == self.in_flight().contains(c),
    {
        self.pending.contains(&pack(c))
    }

    fn unload_outside(
        world: &mut World,
        center: ChunkPos,
        radius: i32,
    ) -> (r: (Vec<ChunkPos>, Vec<(ChunkPos, Chunk)>))
        requires
            old(world)@.wf(),
            square_fits(center, radius as int),
        ensures
            final(world)@.wf(),
            final(world).terrain_seed() == old(world).terrain_seed(),
            final(world).directory() == old(world).directory(),
            leaves_square(old(world)@, center, radius as int, r.0@),
            writes_back(old(world)@, r.0@, r.1@),
            final(world)@ == without_chunks(old(world)@, r.0@),
    {
        let loaded = world.loaded_chunks();
        let mut gone: Vec<ChunkPos> = Vec::new();
        let mut writes: Vec<(ChunkPos, Chunk)> = Vec::new();
        let ghost w = world@;
        proof {
            assert(without_chunks(w, gone@) =~= w) by {
                assert(gone@.to_set() =~= Set::<ChunkPos>::empty());
            }
        }
        let mut i: usize = 0;
        while i < loaded.len()
            invariant
                i <= loaded@.len(),
                w == old(world)@,
                square_fits(center, radius as int),
                loaded@.no_duplicates(),
                forall|c: ChunkPos| #[trigger] loaded@.contains(c) <==> w.chunks.contains_key(c),
                world@.wf(),
                world.terrain_seed() == old(world).terrain_seed(),
                world.directory() == old(world).directory(),
                world@ == without_chunks(w, gone@),
                gone@.no_duplicates(),
                forall|c: ChunkPos| #[trigger]
                    gone@.contains(c) <==> !in_square(center, radius as int, c) && exists|j: int|
                        0 <= j < i && #[trigger] loaded@[j] == c,
                writes_back(w, gone@, writes@),
            decreases loaded@.len() - i,
        {
            let c: ChunkPos = loaded[i];
            let ghost before = gone@;
            let ghost written = writes@;
            proof {
                assert(loaded@.contains(c));
                assert(!before.contains(c));
                assert(!before.to_set().contains(c));
            }
            if c.0 < center.0 - radius || c.0 > center.0 + radius || c.1 < center.1 - radius || c.1
                > center.1 + radius {
                match world.unload_chunk(c.0, c.1) {
                    Some(chunk) => {
                        writes.push((c, chunk));
                    },
                    None => {},
                }
                gone.push(c);
                proof {
                    assert(gone@.to_set() =~= before.to_set().insert(c)) by {
                        lemma_push_set(before, c);
                    }
                    assert(world@ =~= without_chunks(w, gone@));
                    lemma_push_no_duplicates(before, c);
                    if w.unsaved.contains(c) {
                        assert(writes@.drop_last() =~= written);
                    }
                    lemma_writes_push(w, before, written, c, writes@);
                }
            }
            proof {
                assert forall|d: ChunkPos| #[trigger] gone@.contains(d) <==> !in_square(
                    center,
                    radius as int,
                    d,
                ) && exists|j: int| 0 <= j < i + 1 && #[trigger] loaded@[j] == d by {
                    assert(before.contains(d) <==> !in_square(center, radius as int, d) && exists|
                        j: int,
                    |
                        0 <= j < i && #[trigger] loaded@[j] == d);
                    lemma_push_set(before, c);
                    assert(before.push(c).contains(d) <==> before.push(c).to_set().contains(d));
                    assert(before.contains(d) <==> before.to_set().contains(d));
                    assert(loaded@[i as int] == c);
                }
            }
            i = i + 1;
        }
        proof {
            assert forall|c: ChunkPos| #[trigger] gone@.contains(c) <==> w.chunks.contains_key(c)
                && !in_square(center, radius as int, c) by {
                assert(loaded@.contains(c) <==> w.chunks.contains_key(c));
            }
        }
        (gone, writes)
    }

    /// Brings the loaded area up to date with the player's chunk and the
    /// radius: chunks outside leave memory, missing ones are asked for.
    pub fn update(
        &mut self,
        world: &mut World,
        player_chunk: ChunkPos,
        radius: i32,
        nothing_drawn: bool,
    ) -> (plan: StreamPlan)
        requires
            old(world)@.wf(),
            square_fits(player_chunk, radius as int),
        ensures
            final(world)@.wf(),
            final(world).terrain_seed() == old(world).terrain_seed(),
            final(world).directory() == old(world).directory(),
            !old(self).due(player_chunk, radius as int, nothing_drawn) ==> {
                &&& final(self).center() == old(self).center()
                &&& final(self).radius() == old(self).radius()
                &&& final(self).in_flight() == old(self).in_flight()
                &&& final(world)@ == old(world)@
                &&& plan.unloaded@ == Seq::<ChunkPos>::empty()
                &&& plan.to_write@ == Seq::<(ChunkPos, Chunk)>::empty()
                &&& plan.requested@ == Seq::<ChunkPos>::empty()
            },
            old(self).due(player_chunk, radius as int, nothing_drawn) ==> {
                &&& final(self).center() == player_chunk
                &&& final(self).radius() == radius
                &&& leaves_square(old(world)@, player_chunk, radius as int, plan.unloaded@)
                &&& writes_back(old(world)@, plan.unloaded@, plan.to_write@)
                &&& final(world)@ == without_chunks(old(world)@, plan.unloaded@)
                &&& plan.requested@ == missing_chunks(
                    final(world)@,
                    old(self).in_flight(),
                    player_chunk,
                    radius as int,
                )
                &&& final(self).in_flight() == old(self).in_flight().union(plan.requested@.to_set())
            },
    {
        if same_chunk(player_chunk, self.current) && radius == self.last_radius && !nothing_drawn {
            return StreamPlan {
                unloaded: Vec::new(),
                to_write: Vec::new(),
                requested: Vec::new(),
            };
        }
        self.current = player_chunk;
        self.last_radius = radius;
        let (unloaded, to_write) = Self::unload_outside(world, player_chunk, radius);
        let wanted = chunks_around(player_chunk, radius);
        let mut requested: Vec<ChunkPos> = Vec::new();
        let ghost in_flight = self.in_flight();
        let ghost missing = |c: ChunkPos|
            !world@.chunks.contains_key(c) && !in_flight.contains(c);
        let mut i: usize = 0;
        assert(wanted@.take(0) =~= Seq::<ChunkPos>::empty());
        assert(Seq::<ChunkPos>::empty().filter(missing) =~= Seq::<ChunkPos>::empty()) by {
            reveal(Seq::filter);
        }
        while i < wanted.len()
            invariant
                i <= wanted@.len(),
                in_flight == self.in_flight(),
                missing == (|c: ChunkPos|
                    !world@.chunks.contains_key(c) && !in_flight.contains(c)),
                requested@ == wanted@.take(i as int).filter(missing),
            decreases wanted@.len() - i,
        {
            let c: ChunkPos = wanted[i];
            proof {
                reveal(Seq::filter);
                assert(wanted@.take(i + 1).drop_last() =~= wanted@.take(i as int));
            }
            if !world.has_chunk(c.0, c.1) && !self.is_pending(c) {
                requested.push(c);
            }
            i = i + 1;
        }
        assert(wanted@.take(i as int) =~= wanted@);
        let mut j: usize = 0;
        proof {
            assert(requested@.take(0).to_set() =~= Set::<ChunkPos>::empty());
            assert(self.in_flight() =~= in_flight.union(requested@.take(0).to_set()));
        }
        while j < requested.len()
            invariant
                j <= requested@.len(),
                self.current == player_chunk,
                self.last_radius == radius,
                self.in_flight() == in_flight.union(requested@.take(j as int).to_set()),
            decreases requested@.len() - j,
        {
            let ghost before = self.in_flight();
            self.pending.insert(pack(requested[j]));
            proof {
                broadcast use lemma_chunk_key_round_trip;

                assert(requested@.take(j + 1) =~= requested@.take(j as int).push(
                    requested@[j as int],
                ));
                lemma_push_set(requested@.take(j as int), requested@[j as int]);
                assert(self.in_flight() =~= before.insert(requested@[j as int]));
                assert(self.in_flight() =~= in_flight.union(requested@.take(j + 1).to_set()));
            }
            j = j + 1;
        }
        assert(requested@.take(j as int) =~= requested@);
        StreamPlan { unloaded, to_write, requested }
    }

    /// Puts an arrived chunk in place and returns its neighbours to mesh again.
    pub fn chunk_arrived(&mut self, world: &mut World, cx: i32, cz: i32, chunk: Chunk) -> (remesh: Vec<
        ChunkPos,
    >)
        requires
            old(world)@.wf(),
            chunk.wf(),
            has_sides(cx, cz),
        ensures
            final(world)@.wf(),
            final(world)@ == with_chunk(old(world)@, (cx, cz), chunk.blocks@),
            final(world).terrain_seed() == old(world).terrain_seed(),
            final(world).directory() == old(world).directory(),
            final(self).center() == old(self).center(),
            final(self).radius() == old(self).radius(),
            final(self).in_flight() == old(self).in_flight().remove((cx, cz)),
            remesh@ == sides_to_remesh(final(world)@, final(self).in_flight(), cx, cz),
    {
        self.pending.remove(&pack((cx, cz)));
        proof {
            broadcast use lemma_chunk_key_round_trip;

            assert(self.in_flight() =~= old(self).in_flight().remove((cx, cz)));
        }
        world.insert_loaded_chunk(cx, cz, chunk);
        let around = World::direct_neighbors(cx, cz);
        let mut remesh: Vec<ChunkPos> = Vec::new();
        let ghost wanted = |c: ChunkPos|
            world@.chunks.contains_key(c) && !self.in_flight().contains(c);
        let mut i: usize = 0;
        assert(around@.take(0) =~= Seq::<ChunkPos>::empty());
        assert(Seq::<ChunkPos>::empty().filter(wanted) =~= Seq::<ChunkPos>::empty()) by {
            reveal(Seq::filter);
        }
        while i < 4
            invariant
                i <= 4,
                around@.len() == 4,
                wanted == (|c: ChunkPos|
                    world@.chunks.contains_key(c) && !self.in_flight().contains(c)),
                remesh@ == around@.take(i as int).filter(wanted),
            decreases 4 - i,
        {
            let c: ChunkPos = around[i];
            proof {
                reveal(Seq::filter);
                assert(around@.take(i + 1).drop_last() =~= around@.take(i as int));
            }
            if world.has_chunk(c.0, c.1) && !self.is_pending(c) {
                remesh.push(c);
            }
            i = i + 1;
        }
        assert(around@.take(4) =~= around@);
        remesh
    }
}

proof fn lemma_push_set(s: Seq<ChunkPos>, x: ChunkPos)
    ensures
        s.push(x).to_set() == s.to_set().insert(x),
{
    let t = s.push(x);
    assert forall|c: ChunkPos| s.to_set().insert(x).contains(c) implies t.to_set().contains(c) by {
        if c == x {
            assert(t[s.len() as int] == x);
        } else {
            let i = choose|i: int| 0 <= i < s.len() && s[i] == c;
            assert(t[i] == c);
        }
    }
    assert forall|c: ChunkPos| t.to_set().contains(c) implies s.to_set().insert(x).contains(c) by {
        let i = choose|i: int| 0 <= i < t.len() && t[i] == c;
        if i < s.len() {
            assert(s[i] == c);
        }
    }
    assert(t.to_set() =~= s.to_set().insert(x));
}

proof fn lemma_push_no_duplicates(s: Seq<ChunkPos>, x: ChunkPos)
    requires
        s.no_duplicates(),
        !s.contains(x),
    ensures
        s.push(x).no_duplicates(),
{
    let t = s.push(x);
    assert forall|i: int, j: int| 0 <= i < t.len() && 0 <= j < t.len() && i != j implies t[i]
        != t[j] by {
        if i < s.len() {
            assert(s.contains(s[i]));
        }
        if j < s.len() {
            assert(s.contains(s[j]));
        }
    }
}

proof fn lemma_writes_push(
    w: WorldState,
    gone: Seq<ChunkPos>,
    writes: Seq<(ChunkPos, Chunk)>,
    c: ChunkPos,
    after: Seq<(ChunkPos, Chunk)>,
)
    requires
        writes_back(w, gone, writes),
        !gone.contains(c),
        w.chunks.contains_key(c),
        w.unsaved.contains(c) ==> after.len() == writes.len() + 1 && after.drop_last() == writes
            && after.last().0 == c && after.last().1.blocks@ == w.chunks[c],
        !w.unsaved.contains(c) ==> after == writes,
    ensures
        writes_back(w, gone.push(c), after),
{
    let more = gone.push(c);
    lemma_push_set(gone, c);
    assert forall|d: ChunkPos| #[trigger] more.contains(d) <==> gone.contains(d) || d == c by {
        assert(more.to_set().contains(d) <==> gone.to_set().insert(c).contains(d));
    }
    if w.unsaved.contains(c) {
        let n = writes.len() as int;
        assert forall|i: int| 0 <= i < n implies after[i] == #[trigger] writes[i] by {
            assert(after.drop_last()[i] == writes[i]);
        }
        assert(after[n] == after.last());
        assert forall|i: int| 0 <= i < after.len() implies {
            &&& more.contains((#[trigger] after[i]).0)
            &&& w.unsaved.contains(after[i].0)
            &&& w.chunks.contains_key(after[i].0)
            &&& after[i].1.blocks@ == w.chunks[after[i].0]
        } by {
            if i < n {
                assert(after[i] == writes[i]);
            }
        }
        assert forall|i: int, j: int| 0 <= i < after.len() && 0 <= j < after.len() && i
            != j implies (#[trigger] after[i]).0 != (#[trigger] after[j]).0 by {
            if i < n {
                assert(gone.contains(writes[i].0));
            }
            if j < n {
                assert(gone.contains(writes[j].0));
            }
        }
        assert forall|d: ChunkPos| #[trigger]
            more.contains(d) && w.unsaved.contains(d) implies exists|i: int|
            0 <= i < after.len() && (#[trigger] after[i]).0 == d by {
            if d == c {
                assert(after[n].0 == d);
            } else {
                assert(gone.contains(d));
                let i = choose|i: int| 0 <= i < writes.len() && (#[trigger] writes[i]).0 == d;
                assert(after[i].0 == d);
            }
        }
    } else {
        assert forall|d: ChunkPos| #[trigger]
            more.contains(d) && w.unsaved.contains(d) implies exists|i: int|
            0 <= i < after.len() && (#[trigger] after[i]).0 == d by {
            assert(gone.contains(d));
        }
    }
}

/// After an update every chunk of the square is loaded or on its way, and no
/// chunk outside the square is loaded.
pub proof fn law_square_is_loaded_or_requested(
    w: WorldState,
    in_flight: Set<ChunkPos>,
    center: ChunkPos,
    radius: int,
    unloaded: Seq<ChunkPos>,
    c: ChunkPos,
)
    requires
        square_fits(center, radius),
        leaves_square(w, center, radius, unloaded),
    ensures
        ({
            let after = without_chunks(w, unloaded);
            let coming = in_flight.union(
                missing_chunks(after, in_flight, center, radius).to_set(),
            );
            &&& in_square(center, radius, c) ==> after.chunks.contains_key(c) || coming.contains(c)
            &&& !in_square(center, radius, c) ==> !after.chunks.contains_key(c)
        }),
{
    let after = without_chunks(w, unloaded);
    let list = square(center, radius);
    let missing = |c: ChunkPos| !after.chunks.contains_key(c) && !in_flight.contains(c);
    law_square_lists_each_chunk_once(center, radius);
    assert(list.contains(c) <==> in_square(center, radius, c));
    assert(unloaded.contains(c) <==> w.chunks.contains_key(c) && !in_square(center, radius, c));
    if in_square(center, radius, c) && missing(c) {
        let i = choose|i: int| 0 <= i < list.len() && list[i] == c;
        list.lemma_filter_contains(missing, i);
        assert(missing_chunks(after, in_flight, center, radius) == list.filter(missing));
    }
}

/// Exactly the chunks of the square that are neither in memory nor on their way
/// are asked for, each once.
pub proof fn law_missing_chunks_are_requested_once(
    w: WorldState,
    in_flight: Set<ChunkPos>,
    center: ChunkPos,
    radius: int,
    c: ChunkPos,
)
    requires
        square_fits(center, radius),
    ensures
        ({
            let list = missing_chunks(w, in_flight, center, radius);
            &&& list.no_duplicates()
            &&& list.contains(c) <==> {
                &&& center.0 - radius <= c.0 <= center.0 + radius
                &&& center.1 - radius <= c.1 <= center.1 + radius
                &&& !w.chunks.contains_key(c)
                &&& !in_flight.contains(c)
            }
        }),
{
    let all = square(center, radius);
    let p = |d: ChunkPos| !w.chunks.contains_key(d) && !in_flight.contains(d);
    law_square_lists_each_chunk_once(center, radius);
    lemma_filter_keeps_distinct(all, p);
    lemma_filter_elements(all, p, c);
}

proof fn lemma_filter_elements(s: Seq<ChunkPos>, p: spec_fn(ChunkPos) -> bool, c: ChunkPos)
    ensures
        s.filter(p).contains(c) <==> s.contains(c) && p(c),
    decreases s.len(),
{
    reveal(Seq::filter);
    if s.len() > 0 {
        let init = s.drop_last();
        lemma_filter_elements(init, p, c);
        assert(s =~= init.push(s.last()));
        lemma_push_elements(init, s.last(), c);
        lemma_push_elements(init.filter(p), s.last(), c);
    }
}

proof fn lemma_push_elements(s: Seq<ChunkPos>, x: ChunkPos, c: ChunkPos)
    ensures
        s.push(x).contains(c) <==> s.contains(c) || x == c,
{
    if s.contains(c) {
        let i = choose|i: int| 0 <= i < s.len() && s[i] == c;
        assert(s.push(x)[i] == c);
    }
    if x == c {
        assert(s.push(x)[s.len() as int] == c);
    }
    if s.push(x).contains(c) {
        let i = choose|i: int| 0 <= i < s.push(x).len() && s.push(x)[i] == c;
        if i < s.len() {
            assert(s[i] == c);
        }
    }
}

proof fn lemma_filter_keeps_distinct(s: Seq<ChunkPos>, p: spec_fn(ChunkPos) -> bool)
    requires
        s.no_duplicates(),
    ensures
        s.filter(p).no_duplicates(),
    decreases s.len(),
{
    reveal(Seq::filter);
    if s.len() > 0 {
        let init = s.drop_last();
        assert(init.no_duplicates());
        lemma_filter_keeps_distinct(init, p);
        lemma_filter_elements(init, p, s.last());
        let front = init.filter(p);
        assert(!init.contains(s.last())) by {
            if init.contains(s.last()) {
                let i = choose|i: int| 0 <= i < init.len() && init[i] == s.last();
                assert(s[i] == s[s.len() - 1]);
            }
        }
        let all = front.push(s.last());
        assert forall|i: int, j: int| 0 <= i < all.len() && 0 <= j < all.len() && i != j implies all[i]
            != all[j] by {
            if i < front.len() {
                assert(front.contains(front[i]));
            }
            if j < front.len() {
                assert(front.contains(front[j]));
            }
        }
    }
}

/// What leaves memory is what lies outside the square; everything inside it
/// stays as it is, and what left is no longer counted as unsaved.
pub proof fn law_unloading_keeps_the_square(
    w: WorldState,
    center: ChunkPos,
    radius: int,
    unloaded: Seq<ChunkPos>,
    c: ChunkPos,
)
    requires
        leaves_square(w, center, radius, unloaded),
    ensures
        ({
            let after = without_chunks(w, unloaded);
            let inside = center.0 - radius <= c.0 <= center.0 + radius && center.1 - radius <= c.1
                <= center.1 + radius;
            &&& after.chunks.contains_key(c) <==> w.chunks.contains_key(c) && inside
            &&& after.chunks.contains_key(c) ==> after.chunks[c] == w.chunks[c]
            &&& after.unsaved.contains(c) ==> w.unsaved.contains(c)
            &&& inside ==> (after.unsaved.contains(c) <==> w.unsaved.contains(c))
            &&& w.chunks.contains_key(c) && !inside ==> !after.unsaved.contains(c)
        }),
{
}

/// When a chunk arrives, exactly the chunks beside it that are in memory and not
/// awaited themselves are meshed again.
pub proof fn law_arrival_remeshes_the_sides(
    w: WorldState,
    in_flight: Set<ChunkPos>,
    cx: i32,
    cz: i32,
    c: ChunkPos,
)
    requires
        has_sides(cx, cz),
    ensures
        sides_to_remesh(w, in_flight, cx, cz).contains(c) <==> {
            &&& (c.0 == cx && (c.1 == cz - 1 || c.1 == cz + 1)) || (c.1 == cz && (c.0 == cx - 1
                || c.0 == cx + 1))
            &&& w.chunks.contains_key(c)
            &&& !in_flight.contains(c)
        },
{
    let all = sides(cx, cz);
    lemma_filter_elements(
        all,
        |d: ChunkPos| w.chunks.contains_key(d) && !in_flight.contains(d),
        c,
    );
    assert(all[0] == ((cx - 1) as i32, cz) && all[1] == ((cx + 1) as i32, cz));
    assert(all[2] == (cx, (cz - 1) as i32) && all[3] == (cx, (cz + 1) as i32));
    if all.contains(c) {
        let k = choose|k: int| 0 <= k < all.len() && all[k] == c;
        assert(0 <= k < 4);
    }
}

/// The loaded area is worked out anew as soon as the player enters another chunk,
/// the radius changes or nothing is drawn, and otherwise left alone.
pub proof fn law_streaming_follows_the_player(
    s: &ChunkStreaming,
    player: ChunkPos,
    radius: int,
    nothing_drawn: bool,
)
    ensures
        nothing_drawn ==> s.due(player, radius, nothing_drawn),
        player.0 != s.center().0 || player.1 != s.center().1 ==> s.due(
            player,
            radius,
            nothing_drawn,
        ),
        radius != s.radius() ==> s.due(player, radius, nothing_drawn),
        !s.due(s.center(), s.radius(), false),
{
}

} // verus!
