use nmm::build_component;
use nmm::Component;
use nmm::ComponentKind;
use nmm::Error;
use nmm::IoFailure;
use nmm::NumberFormat;
use nmm::SourceFile;

fn file(name: &str, lines: &[&str]) -> SourceFile {
    SourceFile::new(String::from(name), lines.iter().map(|l| String::from(*l)).collect())
}

fn kind_of(token: &str, entries: Option<&SourceFile>) -> Result<ComponentKind, Error> {
    build_component(String::from("d"), 1, 2, token, entries).map(|c| c.kind)
}

#[test]
fn plain_tokens() {
    assert_eq!(kind_of("TEXT", None), Ok(ComponentKind::Text));
    assert_eq!(kind_of("HEXA", None), Ok(ComponentKind::HexArray));
    assert_eq!(kind_of("NEHU", None), Ok(ComponentKind::Number(NumberFormat::Hex)));
    assert_eq!(kind_of("NEDU", None), Ok(ComponentKind::Number(NumberFormat::Dec)));
    assert_eq!(kind_of("NEDS", None), Ok(ComponentKind::Number(NumberFormat::DecSigned)));
}

#[test]
fn dropbox_tokens_read_their_entries() {
    let entries = file("e.txt", &["2", "1 One", "2 Two"]);
    let read = vec![(1, String::from("One")), (2, String::from("Two"))];
    assert_eq!(
        kind_of("NDHU", Some(&entries)),
        Ok(ComponentKind::Dropbox(NumberFormat::Hex, read.clone()))
    );
    assert_eq!(kind_of("NDDU", Some(&entries)), Ok(ComponentKind::Dropbox(NumberFormat::Dec, read)));
}

#[test]
fn dropbox_without_a_file_has_no_entries() {
    assert_eq!(kind_of("NDHU", None), Ok(ComponentKind::Dropbox(NumberFormat::Hex, vec![])));
    assert_eq!(kind_of("NDDU", None), Ok(ComponentKind::Dropbox(NumberFormat::Dec, vec![])));
}

#[test]
fn unknown_token() {
    assert_eq!(kind_of("ABCD", None), Err(Error::InvalidComponentKind));
}

#[test]
fn tokens_are_matched_exactly() {
    for token in ["", "text", "Text", "TEXTS", "TEX", "NDHS", "NDDS", "NEHS", "HEX", "T E X T"] {
        assert_eq!(kind_of(token, None), Err(Error::InvalidComponentKind), "{:?}", token);
    }
}

#[test]
fn unknown_token_reads_no_entries() {
    let entries = file("e.txt", &["1", "7"]);
    assert_eq!(kind_of("ABCD", Some(&entries)), Err(Error::InvalidComponentKind));
    assert_eq!(kind_of("ABCD", Some(&SourceFile::missing("e.txt"))), Err(Error::InvalidComponentKind));
}

#[test]
fn plain_kind_reads_no_entries() {
    let entries = file("e.txt", &["1", "7"]);
    assert_eq!(kind_of("TEXT", Some(&entries)), Ok(ComponentKind::Text));
    assert_eq!(kind_of("NEDS", Some(&SourceFile::missing("e.txt"))), Ok(ComponentKind::Number(NumberFormat::DecSigned)));
}

#[test]
fn token_is_trimmed() {
    assert_eq!(kind_of("  HEXA\t", None), Ok(ComponentKind::HexArray));
    assert_eq!(kind_of("\u{3000}NDDU ", None), Ok(ComponentKind::Dropbox(NumberFormat::Dec, vec![])));
}

#[test]
fn fields_are_taken_as_given() {
    assert_eq!(
        build_component(String::from("  A field "), 0x10, u32::MAX, "TEXT", None),
        Ok(Component {
            description: String::from("  A field "),
            offset: 16,
            length: u32::MAX,
            kind: ComponentKind::Text,
        })
    );
}

#[test]
fn errors_of_the_entries_are_passed_on() {
    let entries = file("e.txt", &["1", "1 One", "2 Two"]);
    assert_eq!(
        kind_of("NDHU", Some(&entries)),
        Err(Error::Located {
            filename: String::from("e.txt"),
            line: 3,
            source: Box::new(Error::TooManyComponentEntries),
        })
    );
    let entries = file("dir/e.txt", &["1", "z One"]);
    match kind_of("NDDU", Some(&entries)) {
        Err(Error::Located { filename, line, source }) => {
            assert_eq!(filename, "dir/e.txt");
            assert_eq!(line, 2);
            assert!(matches!(*source, Error::ParseInt { .. }));
        }
        other => panic!("{:?}", other),
    }
    assert_eq!(
        kind_of("NDDU", Some(&SourceFile::missing("e.txt"))),
        Err(Error::Io { source: IoFailure::NotFound })
    );
}
