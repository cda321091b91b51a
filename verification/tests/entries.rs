use nmm::read_module_entries;
use nmm::Error;
use nmm::IoFailure;
use nmm::SourceFile;

fn file(name: &str, lines: &[&str]) -> SourceFile {
    SourceFile::new(String::from(name), lines.iter().map(|l| String::from(*l)).collect())
}

#[test]
fn no_file_gives_no_names() {
    assert_eq!(read_module_entries(None), Ok(None));
}

#[test]
fn every_line_is_a_name() {
    let names = file("names.txt", &["Alpha", "", "  Beta  ", "# Gamma", "Delta=4"]);
    assert_eq!(
        read_module_entries(Some(&names)),
        Ok(Some(vec![
            String::from("Alpha"),
            String::from(""),
            String::from("  Beta  "),
            String::from("# Gamma"),
            String::from("Delta=4"),
        ]))
    );
}

#[test]
fn empty_file_gives_an_empty_list_of_names() {
    assert_eq!(read_module_entries(Some(&file("names.txt", &[]))), Ok(Some(vec![])));
}

#[test]
fn names_of_a_file_that_fails_are_lost() {
    let mut names = file("names.txt", &["Alpha"]);
    names.failure = Some(IoFailure::InvalidData);
    assert_eq!(read_module_entries(Some(&names)), Err(Error::Io { source: IoFailure::InvalidData }));
    assert_eq!(
        read_module_entries(Some(&SourceFile::missing("names.txt"))),
        Err(Error::Io { source: IoFailure::NotFound })
    );
}
