use voxel_engine::text::{
    end_of_line, line_from, push_decimal, push_signed, push_signed_long, same_text, starts_with, trim,
};

#[test]
fn numbers_are_written_in_decimal() {
    let mut out = String::from("n=");
    push_decimal(&mut out, 0);
    push_decimal(&mut out, 907);
    assert_eq!(out, "n=0907");
    let mut big = String::new();
    push_decimal(&mut big, u64::MAX);
    assert_eq!(big, "18446744073709551615");
}

#[test]
fn signed_numbers_carry_their_sign() {
    let mut out = String::new();
    push_signed(&mut out, -30);
    push_signed(&mut out, 4);
    assert_eq!(out, "-304");
    let mut low = String::new();
    push_signed(&mut low, i32::MIN);
    assert_eq!(low, "-2147483648");
    let mut lowest = String::new();
    push_signed_long(&mut lowest, i64::MIN);
    assert_eq!(lowest, "-9223372036854775808");
}

#[test]
fn different_numbers_look_different() {
    let mut seen: Vec<String> = Vec::new();
    for n in -120i32..=120 {
        let mut out = String::new();
        push_signed(&mut out, n);
        assert!(!seen.contains(&out));
        seen.push(out);
    }
}

#[test]
fn trimming_takes_white_space_off_both_ends() {
    assert_eq!(trim("  \t mi mundo \r\n"), "mi mundo");
    assert_eq!(trim("\u{a0}\u{2003}ñ\u{3000}"), "ñ");
    assert_eq!(trim(" \n "), "");
    assert_eq!(trim(""), "");
    assert_eq!(trim("x"), "x");
}

#[test]
fn texts_are_compared_by_their_characters() {
    assert!(same_text("añil", "añil"));
    assert!(!same_text("añil", "anil"));
    assert!(!same_text("abc", "ab"));
    assert!(same_text("", ""));
    assert!(starts_with("Mensaje: hola", "Mensaje:"));
    assert!(starts_with("ab", ""));
    assert!(!starts_with("ab", "abc"));
    assert!(!starts_with("ab", "b"));
}

#[test]
fn lines_end_at_breaks() {
    let text = "uno\r\ndos\n\ntres\r";
    assert_eq!(end_of_line(text, 0), 4);
    assert_eq!(line_from(text, 0, 4), "uno");
    assert_eq!(end_of_line(text, 5), 8);
    assert_eq!(line_from(text, 5, 8), "dos");
    assert_eq!(line_from(text, 9, end_of_line(text, 9)), "");
    // Without a line break a carriage return belongs to the line.
    assert_eq!(line_from(text, 10, end_of_line(text, 10)), "tres\r");
}

#[test]
fn exactly_the_white_space_characters_are_trimmed() {
    let ranges: [(u32, u32); 10] = [
        (0x9, 0xd),
        (0x20, 0x20),
        (0x85, 0x85),
        (0xa0, 0xa0),
        (0x1680, 0x1680),
        (0x2000, 0x200a),
        (0x2028, 0x2029),
        (0x202f, 0x202f),
        (0x205f, 0x205f),
        (0x3000, 0x3000),
    ];
    for c in '\0'..=char::MAX {
        let space = ranges.iter().any(|(low, high)| *low <= c as u32 && c as u32 <= *high);
        assert_eq!(trim(&c.to_string()).is_empty(), space);
    }
}
