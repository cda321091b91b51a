use nmm::read_charset;
use nmm::Error;
use nmm::IoFailure;
use nmm::SourceFile;
use std::collections::BTreeMap;
use std::num::IntErrorKind;

fn file(name: &str, lines: &[&str]) -> SourceFile {
    SourceFile::new(String::from(name), lines.iter().map(|l| String::from(*l)).collect())
}

fn charset_of(lines: &[&str]) -> BTreeMap<u8, char> {
    read_charset(&file("chars.txt", lines)).unwrap()
}

fn located(result: Result<BTreeMap<u8, char>, Error>) -> (String, usize, Error) {
    match result {
        Err(Error::Located { filename, line, source }) => (filename, line, *source),
        other => panic!("{:?}", other),
    }
}

#[test]
fn one_line_maps_one_byte() {
    let charset = charset_of(&["41=A"]);
    assert_eq!(charset.len(), 1);
    assert_eq!(charset.get(&0x41), Some(&'A'));
}

#[test]
fn later_line_replaces_an_earlier_one() {
    let charset = charset_of(&["41=A", "41=B"]);
    assert_eq!(charset.len(), 1);
    assert_eq!(charset.get(&0x41), Some(&'B'));
}

#[test]
fn last_of_many_lines_for_a_byte_wins() {
    let charset = charset_of(&["41=A", "42=X", "41=B", "43=Y", "41=C", "42=Z"]);
    assert_eq!(charset.len(), 3);
    assert_eq!(charset.get(&0x41), Some(&'C'));
    assert_eq!(charset.get(&0x42), Some(&'Z'));
    assert_eq!(charset.get(&0x43), Some(&'Y'));
}

#[test]
fn codes_are_hexadecimal_whatever_they_begin_with() {
    let charset = charset_of(&["010=a", "0A=b", "ff=c", "7=d", "+8=e"]);
    assert_eq!(charset.get(&0x10), Some(&'a'));
    assert_eq!(charset.get(&0x0A), Some(&'b'));
    assert_eq!(charset.get(&0xFF), Some(&'c'));
    assert_eq!(charset.get(&7), Some(&'d'));
    assert_eq!(charset.get(&8), Some(&'e'));
    assert_eq!(charset.len(), 5);
}

#[test]
fn hexadecimal_prefix_is_no_part_of_a_code() {
    let (_, line, source) = located(read_charset(&file("chars.txt", &["0x41=A"])));
    assert_eq!(line, 1);
    match source {
        Error::ParseInt { source } => assert_eq!(source.kind(), &IntErrorKind::InvalidDigit),
        other => panic!("{:?}", other),
    }
}

#[test]
fn only_the_low_eight_bits_of_a_code_count() {
    let charset = charset_of(&["141=A", "FFFFFF42=B", "100=C"]);
    assert_eq!(charset.get(&0x41), Some(&'A'));
    assert_eq!(charset.get(&0x42), Some(&'B'));
    assert_eq!(charset.get(&0x00), Some(&'C'));
    assert_eq!(charset.len(), 3);
}

#[test]
fn empty_right_side_is_the_null_character() {
    let charset = charset_of(&["41=", "42=   "]);
    assert_eq!(charset.get(&0x41), Some(&'\0'));
    assert_eq!(charset.get(&0x42), Some(&'\0'));
}

#[test]
fn first_character_of_the_right_side_is_shown() {
    let charset = charset_of(&["41=ABC", "42=  é x", " 43 = \t# "]);
    assert_eq!(charset.get(&0x41), Some(&'A'));
    assert_eq!(charset.get(&0x42), Some(&'é'));
    assert_eq!(charset.get(&0x43), Some(&'#'));
}

#[test]
fn line_without_equals_sign_is_malformed() {
    let (filename, line, source) = located(read_charset(&file("d/chars.txt", &["41=A", "42 B"])));
    assert_eq!(filename, "d/chars.txt");
    assert_eq!(line, 2);
    assert_eq!(source, Error::InvalidCharset);
}

#[test]
fn line_is_split_at_its_first_equals_sign() {
    let charset = charset_of(&["3D==", "41=A=B", "42= =", "43==="]);
    assert_eq!(charset.get(&0x3D), Some(&'='));
    assert_eq!(charset.get(&0x41), Some(&'A'));
    assert_eq!(charset.get(&0x42), Some(&'='));
    assert_eq!(charset.get(&0x43), Some(&'='));
    assert_eq!(charset.len(), 4);
}

#[test]
fn what_stands_before_the_first_equals_sign_is_the_code() {
    let (_, line, source) = located(read_charset(&file("chars.txt", &["==A"])));
    assert_eq!(line, 1);
    match source {
        Error::ParseInt { source } => assert_eq!(source.kind(), &IntErrorKind::Empty),
        other => panic!("{:?}", other),
    }
    let (_, _, source) = located(read_charset(&file("chars.txt", &["4 1=A"])));
    assert!(matches!(source, Error::ParseInt { .. }));
}

#[test]
fn blank_lines_and_comments_are_lines_like_any_other() {
    let (_, line, source) = located(read_charset(&file("chars.txt", &["41=A", "", "42=B"])));
    assert_eq!(line, 2);
    assert_eq!(source, Error::InvalidCharset);
    let (_, line, source) = located(read_charset(&file("chars.txt", &["# codes", "42=B"])));
    assert_eq!(line, 1);
    assert_eq!(source, Error::InvalidCharset);
    let (_, line, source) = located(read_charset(&file("chars.txt", &["#41=A"])));
    assert_eq!(line, 1);
    assert!(matches!(source, Error::ParseInt { .. }));
}

#[test]
fn missing_code_is_a_wrong_number() {
    let (_, line, source) = located(read_charset(&file("chars.txt", &["41=A", "42=B", "=C"])));
    assert_eq!(line, 3);
    match source {
        Error::ParseInt { source } => assert_eq!(source.kind(), &IntErrorKind::Empty),
        other => panic!("{:?}", other),
    }
}

#[test]
fn code_beyond_32_bits_is_a_wrong_number() {
    let (_, _, source) = located(read_charset(&file("chars.txt", &["100000041=A"])));
    match source {
        Error::ParseInt { source } => assert_eq!(source.kind(), &IntErrorKind::PosOverflow),
        other => panic!("{:?}", other),
    }
}

#[test]
fn empty_charset_file_gives_an_empty_charset() {
    assert_eq!(charset_of(&[]), BTreeMap::new());
}

#[test]
fn failure_of_the_charset_file_comes_after_its_lines() {
    let mut f = file("chars.txt", &["41=A"]);
    f.failure = Some(IoFailure::InvalidData);
    assert_eq!(read_charset(&f), Err(Error::Io { source: IoFailure::InvalidData }));
    let mut f = file("chars.txt", &["41"]);
    f.failure = Some(IoFailure::InvalidData);
    let (_, line, source) = located(read_charset(&f));
    assert_eq!(line, 1);
    assert_eq!(source, Error::InvalidCharset);
    assert_eq!(
        read_charset(&SourceFile::missing("chars.txt")),
        Err(Error::Io { source: IoFailure::NotFound })
    );
}

#[test]
fn every_white_space_character_is_trimmed() {
    let blanks = [
        '\u{9}', '\u{a}', '\u{b}', '\u{c}', '\u{d}', ' ', '\u{85}', '\u{a0}', '\u{1680}', '\u{2000}',
        '\u{2001}', '\u{2002}', '\u{2003}', '\u{2004}', '\u{2005}', '\u{2006}', '\u{2007}',
        '\u{2008}', '\u{2009}', '\u{200a}', '\u{2028}', '\u{2029}', '\u{202f}', '\u{205f}',
        '\u{3000}',
    ];
    for blank in blanks {
        let line = format!("{b}{b}41{b}={b}A{b}", b = blank);
        let charset = charset_of(&[line.as_str()]);
        assert_eq!(charset.get(&0x41), Some(&'A'), "{:?}", blank);
    }
}

#[test]
fn characters_beside_the_white_space_are_kept() {
    let others = [
        '\u{8}', '\u{e}', '\u{1c}', '\u{1f}', '\u{84}', '\u{86}', '\u{9f}', '\u{a1}', '\u{180e}',
        '\u{1fff}', '\u{200b}', '\u{200c}', '\u{2027}', '\u{202a}', '\u{2060}', '\u{2fff}',
        '\u{3001}', '\u{feff}', '_',
    ];
    for other in others {
        let line = format!("{o}41=A", o = other);
        let (_, _, source) = located(read_charset(&file("chars.txt", &[line.as_str()])));
        assert!(matches!(source, Error::ParseInt { .. }), "{:?}", other);
        let line = format!("41={o} A", o = other);
        let charset = charset_of(&[line.as_str()]);
        assert_eq!(charset.get(&0x41), Some(&other), "{:?}", other);
    }
}

fn white_space(c: char) -> bool {
    matches!(
        c as u32,
        0x09..=0x0D
            | 0x20
            | 0x85
            | 0xA0
            | 0x1680
            | 0x2000..=0x200A
            | 0x2028
            | 0x2029
            | 0x202F
            | 0x205F
            | 0x3000
    )
}

fn trimmed_away(c: char) -> bool {
    let before = format!("{}41=A", c);
    let after = format!("41{}=A", c);
    let at_start = read_charset(&file("chars.txt", &[before.as_str()])).is_ok();
    let at_end = read_charset(&file("chars.txt", &[after.as_str()])).is_ok();
    assert_eq!(at_start, at_end, "{:?}", c);
    at_start
}

#[test]
fn trimming_in_the_basic_plane() {
    for code in 0u32..=0xFFFF {
        if let Some(c) = char::from_u32(code) {
            if c.is_ascii_hexdigit() || c == '+' || c == '=' {
                continue;
            }
            assert_eq!(trimmed_away(c), white_space(c), "{:?}", c);
        }
    }
}

#[test]
fn trimming_beyond_the_basic_plane() {
    for code in [0x10000u32, 0x1D7D8, 0x1F600, 0x20000, 0xE0020, 0xE0001, 0xF0000, 0x10FFFF] {
        let c = char::from_u32(code).unwrap();
        assert!(!trimmed_away(c), "{:?}", c);
    }
}

#[test]
fn characters_of_several_bytes_are_shown_whole() {
    let charset = charset_of(&["81=あ", "82 = 日本", "83=\u{1F600}!"]);
    assert_eq!(charset.get(&0x81), Some(&'あ'));
    assert_eq!(charset.get(&0x82), Some(&'日'));
    assert_eq!(charset.get(&0x83), Some(&'\u{1F600}'));
}

#[test]
fn equals_sign_is_found_behind_characters_of_several_bytes() {
    let (_, line, source) = located(read_charset(&file("chars.txt", &["é=A"])));
    assert_eq!(line, 1);
    assert!(matches!(source, Error::ParseInt { .. }));
    let charset = charset_of(&["41=é=é"]);
    assert_eq!(charset.get(&0x41), Some(&'é'));
}
