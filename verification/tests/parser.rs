use nmm::ComponentKind;
use nmm::Error;
use nmm::IoFailure;
use nmm::NumberFormat;
use nmm::Parser;
use nmm::ReadState;
use nmm::SourceFile;

fn file(name: &str, lines: &[&str]) -> SourceFile {
    SourceFile::new(String::from(name), lines.iter().map(|l| String::from(*l)).collect())
}

fn fed(name: &str, lines: &[&str]) -> Parser {
    let mut parser = Parser::new(name);
    for (i, line) in lines.iter().enumerate() {
        assert_eq!(parser.wanted_file(line), None);
        parser = parser.feed(i + 1, line, None).unwrap();
    }
    parser
}

#[test]
fn reader_begins_with_the_version() {
    let parser = Parser::new("dat/m.nmm");
    assert_eq!(parser.state, ReadState::ReadVersion);
    assert_eq!(parser.filename, "dat/m.nmm");
    assert_eq!(parser.parent_dir, "dat");
    assert_eq!(parser.module.components.len(), 0);
}

#[test]
fn states_follow_each_other_in_order() {
    let lines = ["1", "T", "1", "2", "3", "NULL", "NULL", "A", "4", "5", "TEXT", "NULL", "B"];
    let order = [
        ReadState::ReadVersion,
        ReadState::ReadDescription,
        ReadState::ReadRootOffset,
        ReadState::ReadEntryCount,
        ReadState::ReadEntryLength,
        ReadState::ReadEntryNames,
        ReadState::ReadCharset,
        ReadState::ReadNextComponentDescription,
        ReadState::ReadComponentOffset,
        ReadState::ReadComponentLength,
        ReadState::ReadComponentKind,
        ReadState::ReadComponentDropboxEntriesAndEnd,
        ReadState::ReadNextComponentDescription,
        ReadState::ReadComponentOffset,
    ];
    for read in 0..=lines.len() {
        assert_eq!(fed("m.nmm", &lines[..read]).state, order[read]);
    }
}

#[test]
fn lines_that_do_not_count_change_nothing() {
    let lines = ["1", "T", "1"];
    for skipped in ["", "   ", "\t", "#", "# 5", "  #NULL", "\u{3000}"] {
        let before = fed("m.nmm", &lines);
        assert_eq!(before.wanted_file(skipped), None);
        let after = fed("m.nmm", &lines).feed(4, skipped, None).unwrap();
        assert_eq!(after, before);
    }
}

#[test]
fn end_is_expected_only_between_components() {
    let lines = ["1", "T", "1", "2", "3", "NULL", "NULL", "A", "4", "5", "TEXT", "NULL", "B"];
    for read in 0..=lines.len() {
        let result = fed("m.nmm", &lines[..read]).finish();
        if read == 7 || read == 12 {
            assert_eq!(result.unwrap().components.len(), (read - 7) / 5);
        } else {
            assert_eq!(result, Err(Error::UnexpectedEof));
        }
    }
}

#[test]
fn reader_asks_for_the_files_that_lines_name() {
    let header = ["1", "T", "1", "2", "3"];
    let parser = fed("dat/m.nmm", &header);
    assert_eq!(parser.wanted_file(" names.txt "), Some(String::from("dat/names.txt")));
    assert_eq!(parser.wanted_file("NULL"), None);
    assert_eq!(parser.wanted_file(" NULL "), None);
    let parser = parser.feed(6, "NULL", None).unwrap();
    assert_eq!(parser.state, ReadState::ReadCharset);
    assert_eq!(parser.wanted_file("chars.txt"), Some(String::from("dat/chars.txt")));
    assert_eq!(parser.wanted_file("NULL"), None);
}

#[test]
fn reader_asks_for_entries_of_a_dropbox_only() {
    let upto_kind = ["1", "T", "1", "2", "3", "NULL", "NULL", "A", "4", "5"];
    for (token, wanted) in [
        ("TEXT", false),
        ("HEXA", false),
        ("NEHU", false),
        ("NEDU", false),
        ("NEDS", false),
        ("ABCD", false),
        ("NDHU", true),
        (" NDDU ", true),
    ] {
        let parser = fed("dat/m.nmm", &upto_kind).feed(11, token, None).unwrap();
        assert_eq!(parser.state, ReadState::ReadComponentDropboxEntriesAndEnd);
        let expected = if wanted { Some(String::from("dat/e.txt")) } else { None };
        assert_eq!(parser.wanted_file("e.txt"), expected, "{:?}", token);
        assert_eq!(parser.wanted_file("NULL"), None);
    }
}

#[test]
fn reader_asks_for_nothing_in_the_other_states() {
    let lines = ["1", "T", "1", "2", "3", "NULL", "NULL", "A", "4", "5", "NDHU"];
    for read in [0usize, 1, 2, 3, 4, 7, 8, 9, 10] {
        assert_eq!(fed("m.nmm", &lines[..read]).wanted_file("names.txt"), None);
    }
}

#[test]
fn file_that_is_handed_in_is_read() {
    let names = file("dat/names.txt", &["One", "Two"]);
    let parser = fed("dat/m.nmm", &["1", "T", "1", "2", "3"]);
    let parser = parser.feed(6, "names.txt", Some(&names)).unwrap();
    assert_eq!(parser.module.entry_names, Some(vec![String::from("One"), String::from("Two")]));
    let chars = file("dat/chars.txt", &["41=A"]);
    let parser = parser.feed(7, "chars.txt", Some(&chars)).unwrap();
    assert_eq!(parser.module.charset.as_ref().unwrap().get(&0x41), Some(&'A'));
    let entries = file("dat/e.txt", &["1", "9 Nine"]);
    let mut parser = parser;
    for (i, line) in ["A", "4", "5", "NDDU"].iter().enumerate() {
        parser = parser.feed(8 + i, line, None).unwrap();
    }
    let parser = parser.feed(12, "e.txt", Some(&entries)).unwrap();
    assert_eq!(parser.state, ReadState::ReadNextComponentDescription);
    assert_eq!(
        parser.module.components[0].kind,
        ComponentKind::Dropbox(NumberFormat::Dec, vec![(9, String::from("Nine"))])
    );
    assert_eq!(parser.component_description, "");
    assert_eq!(parser.component_kind, "");
}

#[test]
fn file_that_is_wanted_and_not_handed_in_is_not_there() {
    let parser = fed("dat/m.nmm", &["1", "T", "1", "2", "3"]);
    assert_eq!(
        parser.feed(6, "names.txt", None),
        Err(Error::Io { source: IoFailure::NotFound })
    );
}

#[test]
fn file_that_is_not_wanted_is_not_looked_at() {
    let odd = file("odd.txt", &["1", "7"]);
    let parser = fed("m.nmm", &["1", "T"]);
    let with = parser.feed(3, "5", Some(&odd)).unwrap();
    assert_eq!(with, fed("m.nmm", &["1", "T", "5"]));
    let parser = fed("m.nmm", &["1", "T", "1", "2", "3"]);
    let with = parser.feed(6, "NULL", Some(&odd)).unwrap();
    assert_eq!(with.module.entry_names, None);
    let parser = fed("m.nmm", &["1", "T", "1", "2", "3", "NULL", "NULL", "A", "4", "5", "TEXT"]);
    let with = parser.feed(12, "odd.txt", Some(&odd)).unwrap();
    assert_eq!(with.module.components[0].kind, ComponentKind::Text);
}

#[test]
fn place_of_an_error_is_the_line_number_that_was_given() {
    let parser = fed("some/m.nmm", &["1", "T"]);
    assert_eq!(
        parser.feed(40, "zero", None).map_err(|e| match e {
            Error::Located { filename, line, .. } => (filename, line),
            other => panic!("{:?}", other),
        }),
        Err((String::from("some/m.nmm"), 40))
    );
}

#[test]
fn errors_of_a_file_carry_the_name_of_that_file() {
    let chars = file("elsewhere/c.txt", &["41"]);
    let parser = fed("dat/m.nmm", &["1", "T", "1", "2", "3", "NULL"]);
    assert_eq!(
        parser.feed(7, "chars.txt", Some(&chars)),
        Err(Error::Located {
            filename: String::from("elsewhere/c.txt"),
            line: 1,
            source: Box::new(Error::InvalidCharset),
        })
    );
}

#[test]
fn line_can_be_fed_unless_its_entries_cannot_be_split() {
    let odd = file("odd.txt", &["1", "7"]);
    let fine = file("fine.txt", &["1", "7 Seven"]);
    let upto_kind = ["1", "T", "1", "2", "3", "NULL", "NULL", "A", "4", "5"];
    let dropbox = fed("m.nmm", &upto_kind).feed(11, "NDHU", None).unwrap();
    assert!(!dropbox.can_feed("odd.txt", Some(&odd)));
    assert!(dropbox.can_feed("fine.txt", Some(&fine)));
    assert!(dropbox.can_feed("odd.txt", None));
    assert!(dropbox.can_feed("NULL", Some(&odd)));
    assert!(dropbox.can_feed("# odd.txt", Some(&odd)));
    assert!(dropbox.can_feed("", Some(&odd)));
    let plain = fed("m.nmm", &upto_kind).feed(11, "TEXT", None).unwrap();
    assert!(plain.can_feed("odd.txt", Some(&odd)));
    let unknown = fed("m.nmm", &upto_kind).feed(11, "ABCD", None).unwrap();
    assert!(unknown.can_feed("odd.txt", Some(&odd)));
    for read in 0..upto_kind.len() {
        assert!(fed("m.nmm", &upto_kind[..read]).can_feed("odd.txt", Some(&odd)));
    }
}

#[test]
fn unknown_kind_is_an_error_on_the_line_that_is_fed() {
    let parser = fed("some/m.nmm", &["1", "T", "1", "2", "3", "NULL", "NULL", "A", "4", "5", "ABCD"]);
    assert_eq!(
        parser.feed(77, "NULL", None),
        Err(Error::Located {
            filename: String::from("some/m.nmm"),
            line: 77,
            source: Box::new(Error::InvalidComponentKind),
        })
    );
}
