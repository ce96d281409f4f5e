//! Crash reports: what they say, where they go, and what a crashed program
//! still answers.
use crate::environment::save_manager::{below, join};
use crate::text::{
    decimal, end_of_line, is_space, law_blank_text_is_all_space, lemma_decimal_chars,
    lemma_line_end, line_at, line_end, line_from, push_decimal, push_signed, push_signed_long,
    signed_decimal, starts_with, trim, trimmed,
};
use vstd::prelude::*;
use vstd::string::StrSliceExecFns;
use vstd::string::StringExecFns;

verus! {

/// A crash as it is remembered.
#[derive(Debug)]
pub struct CrashReport {
    pub full_text: String,
    pub short_message: String,
    /// Where the report was saved, if it was.
    pub file_path: Option<String>,
}

/// What a panic said: its text, whichever way it was carried.
pub open spec fn panic_text(literal: Option<&str>, owned: Option<&str>) -> Seq<char> {
    match literal {
        Some(t) => t@,
        None => match owned {
            Some(t) => t@,
            None => "(panic sin mensaje de texto)"@,
        },
    }
}

/// Where a panic happened: file, line and column.
pub open spec fn location_text(location: Option<(&str, u32, u32)>) -> Seq<char> {
    match location {
        Some((file, line, column)) => file@ + ":"@ + decimal(line as nat) + ":"@ + decimal(
            column as nat,
        ),
        None => "(ubicación desconocida)"@,
    }
}

/// The report of a panic.
pub open spec fn report_text(
    timestamp: u64,
    os: Seq<char>,
    arch: Seq<char>,
    message: Seq<char>,
    location: Seq<char>,
    backtrace: Seq<char>,
) -> Seq<char> {
    "=== Voxel Engine: reporte de crash ===\nUnix time: "@ + decimal(timestamp as nat)
        + "\nPlataforma: "@ + os + " ("@ + arch + ")\nMensaje: "@ + message + "\nUbicación: "@
        + location + "\n\n--- Backtrace ---\n"@ + backtrace + "\n"@
}

fn message_of(literal: Option<&str>, owned: Option<&str>) -> (r: String)
    ensures
        r@ == panic_text(literal, owned),
{
    match literal {
        Some(t) => String::from_str(t),
        None => match owned {
            Some(t) => String::from_str(t),
            None => String::from_str("(panic sin mensaje de texto)"),
        },
    }
}

fn location_of(location: Option<(&str, u32, u32)>) -> (r: String)
    ensures
        r@ == location_text(location),
{
    match location {
        Some((file, line, column)) => {
            let mut out: String = String::from_str(file);
            out.append(":");
            push_decimal(&mut out, line as u64);
            out.append(":");
            push_decimal(&mut out, column as u64);
            out
        },
        None => String::from_str("(ubicación desconocida)"),
    }
}

/// The report of a panic and the message that stands for it.
pub fn build_report(
    timestamp: u64,
    os: &str,
    arch: &str,
    literal: Option<&str>,
    owned: Option<&str>,
    location: Option<(&str, u32, u32)>,
    backtrace: &str,
) -> (r: (String, String))
    ensures
        r.1@ == panic_text(literal, owned),
        r.0@ == report_text(
            timestamp,
            os@,
            arch@,
            panic_text(literal, owned),
            location_text(location),
            backtrace@,
        ),
{
    let message = message_of(literal, owned);
    let place = location_of(location);
    let mut out: String = String::from_str("=== Voxel Engine: reporte de crash ===\nUnix time: ");
    push_decimal(&mut out, timestamp);
    out.append("\nPlataforma: ");
    out.append(os);
    out.append(" (");
    out.append(arch);
    out.append(")\nMensaje: ");
    out.append(message.as_str());
    out.append("\nUbicación: ");
    out.append(place.as_str());
    out.append("\n\n--- Backtrace ---\n");
    out.append(backtrace);
    out.append("\n");
    (out, message)
}

/// The file of a report, named after the time of the crash.
pub fn report_path(dir: &str, timestamp: u64) -> (r: String)
    ensures
        r@ == below(dir@, "crash_"@ + decimal(timestamp as nat) + ".txt"@),
{
    let mut name: String = String::from_str("crash_");
    push_decimal(&mut name, timestamp);
    name.append(".txt");
    join(dir, name.as_str())
}

/// The file that always holds the newest report.
pub fn last_crash_path(dir: &str) -> (r: String)
    ensures
        r@ == below(dir@, "last_crash.txt"@),
{
    join(dir, "last_crash.txt")
}

/// The message, the report and the file of the last crash, if there was one.
pub fn last_crash(slot: &Option<CrashReport>) -> (r: Option<(String, String, Option<String>)>)
    ensures
        match (*slot, r) {
            (Some(report), Some((message, text, path))) => message@ == report.short_message@
                && text@ == report.full_text@ && path == report.file_path,
            (None, None) => true,
            _ => false,
        },
{
    match slot {
        Some(report) => {
            let path: Option<String> = match &report.file_path {
                Some(p) => Some(p.clone()),
                None => None,
            };
            Some((report.short_message.clone(), report.full_text.clone(), path))
        },
        None => None,
    }
}

/// The text that goes to the clipboard: the report of the last crash. Without
/// one nothing is copied.
pub fn copy_last_crash_to_clipboard(slot: &Option<CrashReport>) -> (r: Option<String>)
    ensures
        r is Some <==> *slot is Some,
        r is Some ==> r->0@ == slot->0.full_text@,
{
    match slot {
        Some(report) => Some(report.full_text.clone()),
        None => None,
    }
}

/// What the crash dialog says.
pub open spec fn dialog_text(message: Seq<char>, saved: Option<Seq<char>>) -> Seq<char> {
    "El motor encontró un error interno y no pudo seguir con lo que estaba haciendo.\n\n"@ + message
        + (match saved {
        Some(path) => "\n\nLog completo guardado en:\n"@ + path,
        None => "\n\n(No se pudo guardar el log a un archivo; revisá la consola.)"@,
    })
        + "\n\nLa app va a seguir abierta, en una pantalla roja de emergencia. Apretá C ahí para volver a copiar el log completo al portapapeles."@
}

/// What the crash dialog says: the message, and where the report was saved.
pub fn crash_dialog_text(message: &str, saved: Option<&str>) -> (r: String)
    ensures
        r@ == dialog_text(
            message@,
            match saved {
                Some(path) => Some(path@),
                None => None,
            },
        ),
{
    let mut out: String = String::from_str(
        "El motor encontró un error interno y no pudo seguir con lo que estaba haciendo.\n\n",
    );
    out.append(message);
    let mut place: String = String::new();
    match saved {
        Some(path) => {
            place.append("\n\nLog completo guardado en:\n");
            place.append(path);
            assert(place@ =~= "\n\nLog completo guardado en:\n"@ + path@);
        },
        None => {
            place.append("\n\n(No se pudo guardar el log a un archivo; revisá la consola.)");
            assert(place@
                =~= "\n\n(No se pudo guardar el log a un archivo; revisá la consola.)"@);
        },
    }
    out.append(place.as_str());
    out.append(
        "\n\nLa app va a seguir abierta, en una pantalla roja de emergencia. Apretá C ahí para volver a copiar el log completo al portapapeles.",
    );
    out
}

/// The bytes of `=== CRASH NATIVO: senal `.
pub const SIGNAL_PREFIX: [u8; 24] = [
    61, 61, 61, 32, 67, 82, 65, 83, 72, 32, 78, 65, 84, 73, 86, 79, 58, 32, 115, 101, 110, 97, 108,
    32,
];

/// The bytes of ` ===` and a line break.
pub const SIGNAL_SUFFIX: [u8; 5] = [32, 61, 61, 61, 10];

/// Digits that a signal number is cut to.
pub const SIGNAL_DIGITS: usize = 8;

/// The last digits of a number, at most so many, in ASCII.
pub open spec fn low_digits(n: nat, k: nat) -> Seq<u8>
    decreases k,
{
    if n == 0 || k == 0 {
        Seq::empty()
    } else {
        low_digits(n / 10, (k - 1) as nat).push((48 + n % 10) as u8)
    }
}

/// How a signal number is written. One below zero is left out.
pub open spec fn signal_digits(sig: int) -> Seq<u8> {
    if sig == 0 {
        seq![48u8]
    } else if sig < 0 {
        Seq::empty()
    } else {
        low_digits(sig as nat, SIGNAL_DIGITS as nat)
    }
}

/// The line that tells of a fatal signal.
pub open spec fn signal_line(sig: int) -> Seq<u8> {
    SIGNAL_PREFIX@ + signal_digits(sig) + SIGNAL_SUFFIX@
}

/// The line that tells of a fatal signal, in a buffer on the stack, and its
/// length. Nothing is allocated: the heap may be what is broken.
pub fn signal_message(sig: i32) -> (r: ([u8; 64], usize))
    ensures
        r.1 == signal_line(sig as int).len(),
        r.0@.take(r.1 as int) == signal_line(sig as int),
{
    let mut buf: [u8; 64] = [0; 64];
    let mut pos: usize = 0;
    while pos < 24
        invariant
            pos <= 24,
            buf@.len() == 64,
            buf@.take(pos as int) == SIGNAL_PREFIX@.take(pos as int),
        decreases 24 - pos,
    {
        let ghost before = buf@;
        buf[pos] = SIGNAL_PREFIX[pos];
        assert(buf@.take(pos + 1) =~= before.take(pos as int).push(SIGNAL_PREFIX@[pos as int]));
        assert(SIGNAL_PREFIX@.take(pos + 1) =~= SIGNAL_PREFIX@.take(pos as int).push(
            SIGNAL_PREFIX@[pos as int],
        ));
        pos = pos + 1;
    }
    assert(SIGNAL_PREFIX@.take(24) =~= SIGNAL_PREFIX@);
    let mut digits: [u8; 8] = [0; 8];
    let mut count: usize = 0;
    let mut n: i32 = sig;
    if n == 0 {
        digits[0] = 48;
        count = 1;
        assert(digits@.take(1).reverse() =~= seq![48u8]);
    } else {
        assert(digits@.take(0).reverse() =~= Seq::<u8>::empty());
        while n > 0 && count < 8
            invariant
                count <= 8,
                digits@.len() == 8,
                sig < 0 ==> n < 0 && count == 0,
                sig > 0 ==> n >= 0,
                sig != 0,
                sig > 0 ==> signal_digits(sig as int) == low_digits(n as nat, (8 - count) as nat)
                    + digits@.take(count as int).reverse(),
            decreases n,
        {
            let ghost before = digits@;
            digits[count] = 48 + (n % 10) as u8;
            let ghost d = digits@[count as int];
            assert(digits@.take(count + 1).reverse() =~= seq![d] + before.take(
                count as int,
            ).reverse());
            assert(low_digits(n as nat, (8 - count) as nat) == low_digits(
                n as nat / 10,
                (8 - count - 1) as nat,
            ).push(d));
            assert(low_digits(n as nat / 10, (8 - count - 1) as nat).push(d) + before.take(
                count as int,
            ).reverse() =~= low_digits(n as nat / 10, (8 - count - 1) as nat) + digits@.take(
                count + 1,
            ).reverse());
            n = n / 10;
            count = count + 1;
        }
        assert(signal_digits(sig as int) =~= digits@.take(count as int).reverse());
    }
    assert(signal_digits(sig as int) == digits@.take(count as int).reverse());
    let ghost all = signal_digits(sig as int);
    let mut i: usize = 0;
    assert(SIGNAL_PREFIX@ + all.take(0) =~= SIGNAL_PREFIX@);
    while i < count
        invariant
            i <= count <= 8,
            pos == 24 + i,
            buf@.len() == 64,
            digits@.len() == 8,
            all == digits@.take(count as int).reverse(),
            buf@.take(pos as int) == SIGNAL_PREFIX@ + all.take(i as int),
        decreases count - i,
    {
        let ghost before = buf@;
        buf[pos] = digits[count - 1 - i];
        assert(buf@.take(pos + 1) =~= before.take(pos as int).push(all[i as int]));
        assert(SIGNAL_PREFIX@ + all.take(i + 1) =~= (SIGNAL_PREFIX@ + all.take(i as int)).push(
            all[i as int],
        ));
        pos = pos + 1;
        i = i + 1;
    }
    assert(all.take(count as int) =~= all);
    let ghost front = SIGNAL_PREFIX@ + all;
    let mut j: usize = 0;
    assert(front + SIGNAL_SUFFIX@.take(0) =~= front);
    while j < 5
        invariant
            j <= 5,
            count <= 8,
            pos == 24 + count + j,
            front.len() == 24 + count,
            buf@.len() == 64,
            buf@.take(pos as int) == front + SIGNAL_SUFFIX@.take(j as int),
        decreases 5 - j,
    {
        let ghost before = buf@;
        buf[pos] = SIGNAL_SUFFIX[j];
        assert(buf@.take(pos + 1) =~= before.take(pos as int).push(SIGNAL_SUFFIX@[j as int]));
        assert(front + SIGNAL_SUFFIX@.take(j + 1) =~= (front + SIGNAL_SUFFIX@.take(j as int)).push(
            SIGNAL_SUFFIX@[j as int],
        ));
        pos = pos + 1;
        j = j + 1;
    }
    assert(SIGNAL_SUFFIX@.take(5) =~= SIGNAL_SUFFIX@);
    (buf, pos)
}

/// Lines that name a crash.
pub open spec fn names_a_crash(line: Seq<char>) -> bool {
    "Mensaje:"@.is_prefix_of(line) || "=== CRASH NATIVO"@.is_prefix_of(line)
}

/// The first line from a position on that names a crash.
pub open spec fn crash_line(s: Seq<char>, a: int) -> Option<Seq<char>>
    decreases s.len() + 1 - a,
{
    if 0 <= a < s.len() {
        proof {
            lemma_line_end(s, a);
        }
        if names_a_crash(line_at(s, a)) {
            Some(line_at(s, a))
        } else {
            crash_line(s, line_end(s, a) + 1)
        }
    } else {
        None
    }
}

/// What a crash file says in one line.
pub open spec fn file_message(s: Seq<char>) -> Seq<char> {
    match crash_line(s, 0) {
        Some(line) => line,
        None => "(crash detectado en la corrida anterior)"@,
    }
}

/// What a crash file says in one line: the first line that names the crash.
pub fn crash_file_message(text: &str) -> (r: String)
    ensures
        r@ == file_message(text@),
{
    let n: usize = text.unicode_len();
    let mut a: usize = 0;
    while a < n
        invariant
            n == text@.len(),
            a <= n,
            crash_line(text@, 0) == crash_line(text@, a as int),
        decreases n - a,
    {
        let b: usize = end_of_line(text, a);
        let line = line_from(text, a, b);
        if starts_with(line.as_str(), "Mensaje:") || starts_with(
            line.as_str(),
            "=== CRASH NATIVO",
        ) {
            return line;
        }
        if b == n {
            assert(crash_line(text@, b + 1) is None);
            return String::from_str("(crash detectado en la corrida anterior)");
        }
        a = b + 1;
    }
    String::from_str("(crash detectado en la corrida anterior)")
}

/// The characters of a text that is plain ASCII.
pub open spec fn ascii_text(bytes: Seq<u8>) -> Seq<char> {
    bytes.map_values(|b: u8| b as char)
}

proof fn lemma_low_digits(n: nat, k: nat)
    ensures
        low_digits(n, k).len() <= k,
        forall|i: int| 0 <= i < low_digits(n, k).len() ==> 48 <= #[trigger] low_digits(n, k)[i] <= 57,
    decreases k,
{
    if n != 0 && k != 0 {
        lemma_low_digits(n / 10, (k - 1) as nat);
        let front = low_digits(n / 10, (k - 1) as nat);
        assert forall|i: int| 0 <= i < low_digits(n, k).len() implies 48 <= #[trigger] low_digits(
            n,
            k,
        )[i] <= 57 by {
            if i < front.len() {
                assert(low_digits(n, k)[i] == front[i]);
            }
        }
    }
}

/// The line that is written when a signal kills the program is the message that
/// the next start finds in the file.
pub proof fn law_signal_line_is_reported(sig: int)
    ensures
        file_message(ascii_text(signal_line(sig))) == ascii_text(signal_line(sig).drop_last()),
{
    let bytes = signal_line(sig);
    let s = ascii_text(bytes);
    lemma_low_digits(sig as nat, SIGNAL_DIGITS as nat);
    let digits = signal_digits(sig);
    let n = bytes.len() as int;
    assert(n == 29 + digits.len());
    assert forall|i: int| 0 <= i < n - 1 implies bytes[i] != 10 && bytes[i] != 13 by {
        if i < 24 {
            assert(bytes[i] == SIGNAL_PREFIX@[i]);
        } else if i < 24 + digits.len() {
            assert(bytes[i] == digits[i - 24]);
        } else {
            assert(bytes[i] == SIGNAL_SUFFIX@[i - 24 - digits.len()]);
        }
    }
    assert(bytes[n - 1] == SIGNAL_SUFFIX@[4]);
    assert(s[n - 1] == '\n');
    lemma_line_end(s, 0);
    let e = line_end(s, 0);
    assert(e == n - 1) by {
        if e < n - 1 {
            assert(s[e] == bytes[e] as char);
        }
        if e > n - 1 {
            assert(s[n - 1] != '\n');
        }
    }
    assert(s[n - 2] == bytes[n - 2] as char);
    let line = line_at(s, 0);
    assert(line =~= ascii_text(bytes.drop_last()));
    reveal_strlit("=== CRASH NATIVO");
    let p = "=== CRASH NATIVO"@;
    assert(p.is_prefix_of(line)) by {
        assert forall|i: int| 0 <= i < 16 implies p[i] == #[trigger] line[i] by {
            assert(line[i] == bytes[i] as char);
            assert(bytes[i] == SIGNAL_PREFIX@[i]);
        }
        assert(p =~= line.subrange(0, p.len() as int));
    }
}

/// A text without a line break.
pub open spec fn one_line(s: Seq<char>) -> bool {
    forall|i: int| 0 <= i < s.len() ==> s[i] != '\n' && s[i] != '\r'
}

/// A line between other text.
proof fn lemma_line_in(front: Seq<char>, line: Seq<char>, back: Seq<char>)
    requires
        one_line(line),
    ensures
        ({
            let s = front + line + seq!['\n'] + back;
            &&& line_end(s, front.len() as int) == front.len() + line.len()
            &&& line_at(s, front.len() as int) == line
        }),
{
    let s = front + line + seq!['\n'] + back;
    let a = front.len() as int;
    let b = a + line.len();
    lemma_line_end(s, a);
    let e = line_end(s, a);
    assert(s[b] == '\n');
    if e < b {
        assert(line[e - a] == s[e]);
    }
    if b > a {
        assert(line[b - 1 - a] == s[b - 1]);
    }
    assert(s.subrange(a, b) =~= line);
}

proof fn lemma_skips_line(front: Seq<char>, line: Seq<char>, back: Seq<char>)
    requires
        one_line(line),
        !names_a_crash(line),
    ensures
        ({
            let s = front + line + seq!['\n'] + back;
            crash_line(s, front.len() as int) == crash_line(s, (front.len() + line.len() + 1) as int)
        }),
{
    lemma_line_in(front, line, back);
}

/// The lines of a panic report.
proof fn lemma_report_lines(
    timestamp: u64,
    os: Seq<char>,
    arch: Seq<char>,
    message: Seq<char>,
    location: Seq<char>,
    backtrace: Seq<char>,
) -> (tail: Seq<char>)
    ensures
        ({
            let nl = seq!['\n'];
            report_text(timestamp, os, arch, message, location, backtrace)
                == "=== Voxel Engine: reporte de crash ==="@ + nl + ("Unix time: "@ + decimal(
                timestamp as nat,
            )) + nl + ("Plataforma: "@ + os + " ("@ + arch + ")"@) + nl + ("Mensaje: "@ + message) + nl
                + tail
        }),
{
    let nl = seq!['\n'];
    let time = decimal(timestamp as nat);
    reveal_strlit("=== Voxel Engine: reporte de crash ===\nUnix time: ");
    reveal_strlit("=== Voxel Engine: reporte de crash ===");
    reveal_strlit("Unix time: ");
    reveal_strlit("\nPlataforma: ");
    reveal_strlit("Plataforma: ");
    reveal_strlit(")\nMensaje: ");
    reveal_strlit(")");
    reveal_strlit("Mensaje: ");
    reveal_strlit("\nUbicación: ");
    reveal_strlit("Ubicación: ");
    let head = "=== Voxel Engine: reporte de crash ==="@;
    assert("=== Voxel Engine: reporte de crash ===\nUnix time: "@ =~= head + nl + "Unix time: "@);
    assert("\nPlataforma: "@ =~= nl + "Plataforma: "@);
    assert(")\nMensaje: "@ =~= ")"@ + nl + "Mensaje: "@);
    assert("\nUbicación: "@ =~= nl + "Ubicación: "@);
    let tail = "Ubicación: "@ + location + "\n\n--- Backtrace ---\n"@ + backtrace + "\n"@;
    let s1 = head + nl + "Unix time: "@ + time;
    assert(s1 =~= head + nl + ("Unix time: "@ + time));
    let s2 = s1 + (nl + "Plataforma: "@) + os + " ("@ + arch;
    let l3 = "Plataforma: "@ + os + " ("@ + arch + ")"@;
    let s3 = s2 + (")"@ + nl + "Mensaje: "@) + message;
    assert(s2 + ")"@ =~= s1 + nl + l3);
    assert(s3 =~= s2 + ")"@ + nl + ("Mensaje: "@ + message));
    let s4 = s3 + (nl + "Ubicación: "@) + location + "\n\n--- Backtrace ---\n"@ + backtrace + "\n"@;
    assert(s4 =~= s3 + nl + tail);
    tail
}

/// The line that names the crash is found behind three that do not.
proof fn lemma_fourth_line(
    l1: Seq<char>,
    l2: Seq<char>,
    l3: Seq<char>,
    l4: Seq<char>,
    tail: Seq<char>,
)
    requires
        one_line(l1) && one_line(l2) && one_line(l3) && one_line(l4),
        !names_a_crash(l1) && !names_a_crash(l2) && !names_a_crash(l3) && names_a_crash(l4),
    ensures
        file_message(
            l1 + seq!['\n'] + l2 + seq!['\n'] + l3 + seq!['\n'] + l4 + seq!['\n'] + tail,
        ) == l4,
{
    let nl = seq!['\n'];
    let s = l1 + nl + l2 + nl + l3 + nl + l4 + nl + tail;
    let none = Seq::<char>::empty();
    let back1 = l2 + nl + l3 + nl + l4 + nl + tail;
    assert(s =~= none + l1 + nl + back1);
    lemma_skips_line(none, l1, back1);
    let front2 = l1 + nl;
    let back2 = l3 + nl + l4 + nl + tail;
    assert(s =~= front2 + l2 + nl + back2);
    lemma_skips_line(front2, l2, back2);
    let front3 = front2 + l2 + nl;
    let back3 = l4 + nl + tail;
    assert(s =~= front3 + l3 + nl + back3);
    lemma_skips_line(front3, l3, back3);
    let front4 = front3 + l3 + nl;
    assert(s =~= front4 + l4 + nl + tail);
    lemma_line_in(front4, l4, tail);
}

/// The heading of a report names no crash.
proof fn lemma_heading()
    ensures
        one_line("=== Voxel Engine: reporte de crash ==="@),
        !names_a_crash("=== Voxel Engine: reporte de crash ==="@),
{
    reveal_strlit("=== Voxel Engine: reporte de crash ===");
    reveal_strlit("Mensaje:");
    reveal_strlit("=== CRASH NATIVO");
    let l1 = "=== Voxel Engine: reporte de crash ==="@;
    assert(l1.subrange(0, 16)[4] == 'V');
    assert(l1.subrange(0, 8)[0] == '=');
}

/// The lines of the time and the platform name no crash.
proof fn lemma_plain_line(line: Seq<char>)
    requires
        line.len() > 0,
        line[0] == 'U' || line[0] == 'P',
    ensures
        !names_a_crash(line),
{
    reveal_strlit("Mensaje:");
    reveal_strlit("=== CRASH NATIVO");
    assert(line.len() >= 16 ==> line.subrange(0, 16)[0] == line[0]);
    assert(line.len() >= 8 ==> line.subrange(0, 8)[0] == line[0]);
}

/// The line of the message names a crash.
proof fn lemma_message_line(message: Seq<char>)
    requires
        one_line(message),
    ensures
        one_line("Mensaje: "@ + message),
        names_a_crash("Mensaje: "@ + message),
{
    reveal_strlit("Mensaje:");
    reveal_strlit("Mensaje: ");
    assert(("Mensaje: "@ + message).subrange(0, 8) =~= "Mensaje:"@);
}

/// A panic report that is left in a file is reported by its message.
pub proof fn law_panic_report_is_reported(
    timestamp: u64,
    os: Seq<char>,
    arch: Seq<char>,
    message: Seq<char>,
    location: Seq<char>,
    backtrace: Seq<char>,
)
    requires
        one_line(os),
        one_line(arch),
        one_line(message),
    ensures
        file_message(report_text(timestamp, os, arch, message, location, backtrace))
            == "Mensaje: "@ + message,
{
    let tail = lemma_report_lines(timestamp, os, arch, message, location, backtrace);
    let l1 = "=== Voxel Engine: reporte de crash ==="@;
    let l2 = "Unix time: "@ + decimal(timestamp as nat);
    let l3 = "Plataforma: "@ + os + " ("@ + arch + ")"@;
    let l4 = "Mensaje: "@ + message;
    lemma_heading();
    assert(one_line(l2) && !names_a_crash(l2)) by {
        reveal_strlit("Unix time: ");
        lemma_decimal_chars(timestamp as nat);
        lemma_plain_line(l2);
    }
    assert(one_line(l3) && !names_a_crash(l3)) by {
        reveal_strlit("Plataforma: ");
        reveal_strlit(" (");
        reveal_strlit(")");
        lemma_plain_line(l3);
    }
    lemma_message_line(message);
    lemma_fourth_line(l1, l2, l3, l4, tail);
}

/// A crash of an earlier run, found in a file, and the name that the file gets
/// so that it is not found again.
#[derive(Debug)]
pub struct FoundCrash {
    pub report: CrashReport,
    pub handled_path: String,
}

/// Whether a file holds something to report.
pub open spec fn has_report(text: Option<String>) -> bool {
    text is Some && trimmed(text->0@).len() > 0
}

/// What is found in a crash file of a folder.
pub open spec fn found_in(found: FoundCrash, dir: Seq<char>, name: Seq<char>, text: Seq<char>) -> bool {
    &&& found.report.full_text@ == text
    &&& found.report.short_message@ == file_message(text)
    &&& found.report.file_path is Some
    &&& found.report.file_path->0@ == below(dir, name)
    &&& found.handled_path@ == below(dir, name + ".handled"@)
}

fn is_blank(text: &str) -> (r: bool)
    ensures
        r == (trimmed(text@).len() == 0),
{
    let inner = trim(text);
    inner.as_str().unicode_len() == 0
}

fn found(dir: &str, name: &str, text: String) -> (r: FoundCrash)
    ensures
        found_in(r, dir@, name@, text@),
{
    let mut handled: String = String::from_str(name);
    handled.append(".handled");
    FoundCrash {
        report: CrashReport {
            short_message: crash_file_message(text.as_str()),
            file_path: Some(join(dir, name)),
            full_text: text,
        },
        handled_path: join(dir, handled.as_str()),
    }
}

/// Looks through the crash files of an earlier run, as far as they could be
/// read: the one that a signal left, then the one that a panic left. Blank
/// files count for nothing.
pub fn check_crash_file(dir: &str, native: Option<String>, last: Option<String>) -> (r: Option<
    FoundCrash,
>)
    ensures
        r is Some <==> has_report(native) || has_report(last),
        has_report(native) ==> found_in(r->0, dir@, "native_crash.txt"@, native->0@),
        !has_report(native) && has_report(last) ==> found_in(
            r->0,
            dir@,
            "last_crash.txt"@,
            last->0@,
        ),
{
    if let Some(text) = native {
        if !is_blank(text.as_str()) {
            return Some(found(dir, "native_crash.txt", text));
        }
    }
    if let Some(text) = last {
        if !is_blank(text.as_str()) {
            return Some(found(dir, "last_crash.txt", text));
        }
    }
    None
}

/// The numbers by which the system tells why a process ended.
#[derive(Clone, Copy, Debug, PartialEq, Eq, Structural)]
pub struct ExitReasons {
    pub crash: i32,
    pub crash_native: i32,
    pub anr: i32,
}

/// The name of a reason that is a crash. Other reasons are no crashes.
pub open spec fn reason_name(reason: i32, known: ExitReasons) -> Option<Seq<char>> {
    if reason == known.crash_native {
        Some("CRASH_NATIVO"@)
    } else if reason == known.anr {
        Some("ANR"@)
    } else if reason == known.crash {
        Some("CRASH"@)
    } else {
        None
    }
}

/// The system keeps exit records from this version on.
pub const EXIT_INFO_SDK: i32 = 30;

/// Whether the system can be asked how the last run ended.
pub fn has_exit_info(sdk_int: i32) -> (r: bool)
    ensures
        r == (sdk_int >= EXIT_INFO_SDK),
        r <==> sdk_int >= 30,
{
    sdk_int >= EXIT_INFO_SDK
}

/// What the system recorded of the end of the last run.
#[derive(Debug)]
pub struct ExitRecord {
    pub reason: i32,
    pub timestamp: Option<i64>,
    pub description: Option<String>,
    pub trace: Option<String>,
}

pub open spec fn or_else_text(text: Option<String>, other: Seq<char>) -> Seq<char> {
    match text {
        Some(t) => t@,
        None => other,
    }
}

/// The report of an exit record.
pub open spec fn exit_text(name: Seq<char>, record: ExitRecord) -> Seq<char> {
    "=== Voxel Engine: reporte de ApplicationExitInfo (corrida anterior) ===\nMotivo: "@ + name
        + " (código "@ + signed_decimal(record.reason as int) + ")\nTimestamp (ms): "@ + signed_decimal(
        match record.timestamp {
            Some(t) => t as int,
            None => 0,
        },
    ) + "\nDescripción: "@ + or_else_text(record.description, "(sin descripción)"@)
        + "\n\n--- Trace ---\n"@ + or_else_text(record.trace, Seq::empty()) + "\n"@
}

/// Reports the end of the last run, if it was a crash. Nothing is reported
/// where the system keeps no records or has none.
pub fn check_application_exit_info(
    sdk_int: i32,
    newest: Option<ExitRecord>,
    known: ExitReasons,
) -> (r: Option<CrashReport>)
    ensures
        r is Some <==> sdk_int >= EXIT_INFO_SDK && newest is Some && reason_name(
            newest->0.reason,
            known,
        ) is Some,
        r is Some ==> {
            let name = reason_name(newest->0.reason, known)->0;
            &&& r->0.full_text@ == exit_text(name, newest->0)
            &&& r->0.short_message@ == name + ": "@ + or_else_text(
                newest->0.description,
                "(sin descripción)"@,
            )
            &&& r->0.file_path is None
        },
{
    if !has_exit_info(sdk_int) {
        return None;
    }
    match newest {
        Some(record) => {
            let name: &str = if record.reason == known.crash_native {
                "CRASH_NATIVO"
            } else if record.reason == known.anr {
                "ANR"
            } else if record.reason == known.crash {
                "CRASH"
            } else {
                return None;
            };
            let description: String = match &record.description {
                Some(t) => t.clone(),
                None => String::from_str("(sin descripción)"),
            };
            let trace: String = match &record.trace {
                Some(t) => t.clone(),
                None => String::new(),
            };
            let mut out: String = String::from_str(
                "=== Voxel Engine: reporte de ApplicationExitInfo (corrida anterior) ===\nMotivo: ",
            );
            out.append(name);
            out.append(" (código ");
            push_signed(&mut out, record.reason);
            out.append(")\nTimestamp (ms): ");
            push_signed_long(
                &mut out,
                match record.timestamp {
                    Some(t) => t,
                    None => 0,
                },
            );
            out.append("\nDescripción: ");
            out.append(description.as_str());
            out.append("\n\n--- Trace ---\n");
            out.append(trace.as_str());
            out.append("\n");
            let mut short: String = String::from_str(name);
            short.append(": ");
            short.append(description.as_str());
            Some(CrashReport { full_text: out, short_message: short, file_path: None })
        },
        None => None,
    }
}

/// The crash of the last run: what the system recorded, else what a crash file
/// holds. A file that was used gets the second name of the result; one that was
/// not needed stays as it is.
pub fn check_previous_run_crash(
    exit_info: Option<CrashReport>,
    in_file: Option<FoundCrash>,
) -> (r: (Option<CrashReport>, Option<String>))
    ensures
        exit_info is Some ==> r.0 == exit_info && r.1 is None,
        exit_info is None && in_file is Some ==> r.0 == Some(in_file->0.report) && r.1 == Some(
            in_file->0.handled_path,
        ),
        exit_info is None && in_file is None ==> r.0 is None && r.1 is None,
{
    match exit_info {
        Some(report) => (Some(report), None),
        None => match in_file {
            Some(found) => (Some(found.report), Some(found.handled_path)),
            None => (None, None),
        },
    }
}

/// How long the crash screen shows that the report was copied.
pub const COPY_FLASH_MS: u64 = 700;

/// What is left of the program after a panic: a screen that tells of it.
#[derive(Debug)]
pub struct CrashScreen {
    pub crashed: bool,
    /// The crash screen itself failed: nothing is drawn any more.
    pub double_crashed: bool,
    pub short_message: Option<String>,
    /// Time, in milliseconds, up to which the screen shows that it copied.
    pub flash_until: Option<u64>,
}

/// An event that reaches the crash screen.
#[derive(Clone, Copy, Debug, PartialEq, Eq, Structural)]
pub enum CrashEvent {
    CloseRequested,
    Resized,
    /// A key; whether it went down and whether it is the copy key.
    Key { pressed: bool, copy_key: bool },
    /// A finger; whether it just touched.
    Touch { started: bool },
    Redraw,
    Other,
}

/// What the crash screen does about an event.
#[derive(Clone, Copy, Debug, PartialEq, Eq, Structural)]
pub enum CrashReaction {
    Exit,
    Resize,
    Copy,
    /// Draw the screen, in the colour of a copy or not.
    Draw { flash: bool },
    Nothing,
}

impl CrashScreen {
    /// The reaction to an event at a time.
    pub open spec fn reaction(&self, event: CrashEvent, now: u64) -> CrashReaction {
        if self.double_crashed {
            CrashReaction::Nothing
        } else {
            match event {
                CrashEvent::CloseRequested => CrashReaction::Exit,
                CrashEvent::Resized => CrashReaction::Resize,
                CrashEvent::Key { pressed, copy_key } => if pressed && copy_key {
                    CrashReaction::Copy
                } else {
                    CrashReaction::Nothing
                },
                CrashEvent::Touch { started } => if started {
                    CrashReaction::Copy
                } else {
                    CrashReaction::Nothing
                },
                CrashEvent::Redraw => CrashReaction::Draw {
                    flash: match self.flash_until {
                        Some(t) => now < t,
                        None => false,
                    },
                },
                CrashEvent::Other => CrashReaction::Nothing,
            }
        }
    }

    /// The state at the start: crashed only if the last run left a crash.
    pub fn new(startup_crash: Option<String>) -> (r: Self)
        ensures
            r.crashed == (startup_crash is Some),
            r.short_message == startup_crash,
            !r.double_crashed,
            r.flash_until is None,
    {
        CrashScreen {
            crashed: startup_crash.is_some(),
            double_crashed: false,
            short_message: startup_crash,
            flash_until: None,
        }
    }

    /// Takes note of a panic. Only the first one counts: the result says
    /// whether this one did and there is a report to show.
    pub fn mark_crashed(&mut self, report: &Option<CrashReport>) -> (show: bool)
        ensures
            final(self).crashed,
            final(self).double_crashed == old(self).double_crashed,
            final(self).flash_until == old(self).flash_until,
            old(self).crashed ==> *final(self) == *old(self) && !show,
            !old(self).crashed ==> show == (*report is Some) && final(self).short_message is Some
                && final(self).short_message->0@ == match *report {
                Some(r) => r.short_message@,
                None => "(no se pudo leer el mensaje del panic)"@,
            },
    {
        if self.crashed {
            return false;
        }
        self.crashed = true;
        match report {
            Some(r) => {
                self.short_message = Some(r.short_message.clone());
                true
            },
            None => {
                self.short_message = Some(
                    String::from_str("(no se pudo leer el mensaje del panic)"),
                );
                false
            },
        }
    }

    /// What to do about an event that comes in after a crash.
    pub fn on_event(&self, event: CrashEvent, now: u64) -> (r: CrashReaction)
        ensures
            r == self.reaction(event, now),
    {
        if self.double_crashed {
            return CrashReaction::Nothing;
        }
        match event {
            CrashEvent::CloseRequested => CrashReaction::Exit,
            CrashEvent::Resized => CrashReaction::Resize,
            CrashEvent::Key { pressed, copy_key } => if pressed && copy_key {
                CrashReaction::Copy
            } else {
                CrashReaction::Nothing
            },
            CrashEvent::Touch { started } => if started {
                CrashReaction::Copy
            } else {
                CrashReaction::Nothing
            },
            CrashEvent::Redraw => CrashReaction::Draw {
                flash: match self.flash_until {
                    Some(t) => now < t,
                    None => false,
                },
            },
            CrashEvent::Other => CrashReaction::Nothing,
        }
    }

    /// Takes note that the report was copied.
    pub fn copied(&mut self, now: u64)
        requires
            now <= u64::MAX - COPY_FLASH_MS,
        ensures
            *final(self) == (CrashScreen { flash_until: Some((now + COPY_FLASH_MS) as u64), ..*old(self) }),
    {
        self.flash_until = Some(now + COPY_FLASH_MS);
    }

    /// Takes note that the crash screen itself failed.
    pub fn failed_again(&mut self)
        ensures
            *final(self) == (CrashScreen { double_crashed: true, ..*old(self) }),
    {
        self.double_crashed = true;
    }

    /// The window title of the crash screen.
    pub fn title(&self) -> (r: Option<String>)
        ensures
            r is Some <==> self.short_message is Some,
            r is Some ==> r->0@ == "Voxel Engine — CRASHEADO: "@ + self.short_message->0@
                + " (C / tocar pantalla: copiar log)"@,
    {
        match &self.short_message {
            Some(message) => {
                let mut out: String = String::from_str("Voxel Engine — CRASHEADO: ");
                out.append(message.as_str());
                out.append(" (C / tocar pantalla: copiar log)");
                Some(out)
            },
            None => None,
        }
    }
}

/// After a copy the screen shows it for the time that is set, and no longer.
pub proof fn law_copy_flash_ends(before: CrashScreen, after: CrashScreen, copied_at: u64, now: u64)
    requires
        !before.double_crashed,
        copied_at <= u64::MAX - COPY_FLASH_MS,
        after == (CrashScreen { flash_until: Some((copied_at + COPY_FLASH_MS) as u64), ..before }),
    ensures
        after.reaction(CrashEvent::Redraw, now) == (CrashReaction::Draw {
            flash: now < copied_at + COPY_FLASH_MS,
        }),
{
}

/// Once the crash screen itself has failed, no event has an effect.
pub proof fn law_a_failed_crash_screen_stays_quiet(screen: CrashScreen, event: CrashEvent, now: u64)
    requires
        screen.double_crashed,
    ensures
        screen.reaction(event, now) == CrashReaction::Nothing,
{
}

/// The crash screen closes with the window, follows its size, and copies the
/// report at the copy key or a touch, but not when these are let go.
pub proof fn law_crash_screen_answers(screen: CrashScreen, now: u64, copy_key: bool)
    requires
        !screen.double_crashed,
    ensures
        screen.reaction(CrashEvent::CloseRequested, now) == CrashReaction::Exit,
        screen.reaction(CrashEvent::Resized, now) == CrashReaction::Resize,
        screen.reaction(CrashEvent::Key { pressed: true, copy_key: true }, now)
            == CrashReaction::Copy,
        screen.reaction(CrashEvent::Key { pressed: true, copy_key: false }, now)
            == CrashReaction::Nothing,
        screen.reaction(CrashEvent::Key { pressed: false, copy_key }, now)
            == CrashReaction::Nothing,
        screen.reaction(CrashEvent::Touch { started: true }, now) == CrashReaction::Copy,
        screen.reaction(CrashEvent::Touch { started: false }, now) == CrashReaction::Nothing,
        screen.flash_until is None ==> screen.reaction(CrashEvent::Redraw, now)
            == (CrashReaction::Draw { flash: false }),
        screen.flash_until matches Some(t) ==> screen.reaction(CrashEvent::Redraw, now) == (
        CrashReaction::Draw { flash: now < t }),
        screen.reaction(CrashEvent::Other, now) == CrashReaction::Nothing,
{
}

/// Only the three kinds of crash are named, each by its own name where the
/// system numbers them apart.
pub proof fn law_reasons_are_told_apart(reason: i32, known: ExitReasons)
    requires
        known.crash != known.crash_native,
        known.crash != known.anr,
        known.crash_native != known.anr,
    ensures
        reason_name(reason, known) is Some <==> reason == known.crash || reason
            == known.crash_native || reason == known.anr,
        reason == known.crash ==> reason_name(reason, known) == Some("CRASH"@),
        reason == known.crash_native ==> reason_name(reason, known) == Some("CRASH_NATIVO"@),
        reason == known.anr ==> reason_name(reason, known) == Some("ANR"@),
{
}

/// The value of ASCII digits.
pub open spec fn digits_value(s: Seq<u8>) -> int
    decreases s.len(),
{
    if s.len() == 0 {
        0
    } else {
        10 * digits_value(s.drop_last()) + (s.last() - 48)
    }
}

proof fn lemma_low_digits_value(n: nat, k: nat, limit: nat)
    requires
        n < limit,
        limit == vstd::arithmetic::power::pow(10, k),
    ensures
        digits_value(low_digits(n, k)) == n,
        forall|i: int| 0 <= i < low_digits(n, k).len() ==> 48 <= #[trigger] low_digits(n, k)[i] <= 57,
    decreases k,
{
    vstd::arithmetic::power::lemma_pow0(10);
    if n > 0 && k > 0 {
        let m = (k - 1) as nat;
        let below = vstd::arithmetic::power::pow(10, m);
        assert(limit == 10 * below) by {
            reveal(vstd::arithmetic::power::pow);
        }
        lemma_low_digits_value(n / 10, m, below as nat);
        let front = low_digits(n / 10, m);
        let all = low_digits(n, k);
        assert(all.drop_last() =~= front);
        assert forall|i: int| 0 <= i < all.len() implies 48 <= #[trigger] all[i] <= 57 by {
            if i < front.len() {
                assert(all[i] == front[i]);
            }
        }
    }
}

/// The line about a fatal signal names it: between its fixed beginning and end
/// stand the decimal digits of the signal's number, none for a number below zero.
pub proof fn law_signal_line_names_the_signal(sig: int)
    requires
        sig < 100_000_000,
    ensures
        sig >= 0 ==> digits_value(signal_digits(sig)) == sig && signal_digits(sig).len() > 0,
        sig < 0 ==> signal_digits(sig).len() == 0,
        forall|i: int| 0 <= i < signal_digits(sig).len() ==> 48 <= #[trigger] signal_digits(sig)[i]
            <= 57,
        signal_line(sig) == SIGNAL_PREFIX@ + signal_digits(sig) + SIGNAL_SUFFIX@,
{
    if sig == 0 {
        let s = signal_digits(sig);
        assert(s.drop_last() =~= Seq::<u8>::empty());
        assert(s.last() == 48);
        reveal_with_fuel(digits_value, 2);
    } else if sig > 0 {
        assert(vstd::arithmetic::power::pow(10, 8) == 100_000_000) by {
            reveal_with_fuel(vstd::arithmetic::power::pow, 9);
        }
        lemma_low_digits_value(sig as nat, 8, 100_000_000);
    }
}

/// The message of a crash file is its first line that names a crash, from the
/// top; lines before it do not count, nor do those behind it.
pub proof fn law_first_crash_line_counts(s: Seq<char>, a: int)
    requires
        0 <= a < s.len(),
    ensures
        "Mensaje:"@.is_prefix_of(line_at(s, a)) || "=== CRASH NATIVO"@.is_prefix_of(line_at(s, a))
            ==> crash_line(s, a) == Some(line_at(s, a)),
        !("Mensaje:"@.is_prefix_of(line_at(s, a)) || "=== CRASH NATIVO"@.is_prefix_of(
            line_at(s, a),
        )) ==> crash_line(s, a) == crash_line(s, line_end(s, a) + 1),
        crash_line(s, s.len() as int) is None,
        crash_line(s, 0) is None ==> file_message(s) == "(crash detectado en la corrida anterior)"@,
        crash_line(s, 0) matches Some(line) ==> file_message(s) == line,
{
}

/// A panic's text is the one that it carries, in whichever form.
pub proof fn law_panics_keep_their_text(literal: Option<&str>, owned: Option<&str>)
    ensures
        literal matches Some(t) ==> panic_text(literal, owned) == t@,
        literal is None ==> (owned matches Some(t) ==> panic_text(literal, owned) == t@),
        literal is None && owned is None ==> panic_text(literal, owned)
            == "(panic sin mensaje de texto)"@,
{
}

/// A copy is shown for seven tenths of a second.
pub proof fn law_copies_flash_briefly(screen: CrashScreen, copied_at: u64, now: u64)
    requires
        !screen.double_crashed,
        copied_at <= u64::MAX - 700,
        screen.flash_until == Some((copied_at + COPY_FLASH_MS) as u64),
    ensures
        screen.reaction(CrashEvent::Redraw, now) == (CrashReaction::Draw {
            flash: now < copied_at + 700,
        }),
{
}

/// A file holds a report exactly if it could be read and something other than
/// white space is in it.
pub proof fn law_blank_files_hold_no_report(text: String)
    ensures
        !has_report(None),
        has_report(Some(text)) <==> exists|i: int|
            0 <= i < text@.len() && !is_space(#[trigger] text@[i]),
{
    law_blank_text_is_all_space(text@);
}

/// A report holds all that is known of a panic: it is as much longer than a bare
/// one as its parts are long, and the backtrace stands at its end.
pub proof fn law_reports_hold_every_part(
    timestamp: u64,
    os: Seq<char>,
    arch: Seq<char>,
    message: Seq<char>,
    location: Seq<char>,
    backtrace: Seq<char>,
)
    ensures
        ({
            let none = Seq::<char>::empty();
            let bare = report_text(timestamp, none, none, none, none, none);
            let full = report_text(timestamp, os, arch, message, location, backtrace);
            &&& full.len() == bare.len() + os.len() + arch.len() + message.len() + location.len()
                + backtrace.len()
            &&& full.skip(full.len() - 1 - backtrace.len()) == backtrace + "\n"@
        }),
{
    reveal_strlit("\n");
    let none = Seq::<char>::empty();
    let full = report_text(timestamp, os, arch, message, location, backtrace);
    let bare = report_text(timestamp, none, none, none, none, none);
    assert("\n"@.len() == 1);
    assert(full.skip(full.len() - 1 - backtrace.len()) =~= backtrace + "\n"@);
}

/// The dialog says what happened and, if the report was saved, where.
pub proof fn law_dialog_tells_message_and_place(message: Seq<char>, path: Seq<char>)
    ensures
        ({
            let none = Seq::<char>::empty();
            &&& dialog_text(message, Some(path)).len() == dialog_text(none, Some(none)).len()
                + message.len() + path.len()
            &&& dialog_text(message, None).len() == dialog_text(none, None).len() + message.len()
        }),
{
}

/// A record of the system is told with its description and its trace.
pub proof fn law_exit_records_are_told_whole(name: Seq<char>, a: ExitRecord, b: ExitRecord)
    requires
        a.reason == b.reason,
        a.timestamp == b.timestamp,
        a.description == b.description,
        a.trace is Some,
        b.trace is None,
    ensures
        exit_text(name, a).len() == exit_text(name, b).len() + a.trace->0@.len(),
        exit_text(name, a).skip(exit_text(name, a).len() - 1 - a.trace->0@.len())
            == a.trace->0@ + "\n"@,
        exit_text(name, a).len() == exit_text(Seq::empty(), a).len() + name.len(),
{
    reveal_strlit("\n");
    let full = exit_text(name, a);
    let trace = a.trace->0@;
    assert("\n"@.len() == 1);
    assert(full.skip(full.len() - 1 - trace.len()) =~= trace + "\n"@);
}

} // verus!
