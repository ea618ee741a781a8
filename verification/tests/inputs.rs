use wcrust::{resolve, sources, Failure, Resolution, Source};

#[test]
fn no_files_means_standard_input() {
    assert_eq!(sources(Vec::new()), vec![Source::Stdin]);
}

#[test]
fn files_keep_their_order() {
    let files = vec![String::from("b"), String::from("a"), String::from("b")];
    assert_eq!(
        sources(files),
        vec![
            Source::Path(String::from("b")),
            Source::Path(String::from("a")),
            Source::Path(String::from("b")),
        ]
    );
}

#[test]
fn labels_of_sources() {
    assert_eq!(Source::Stdin.label(), "");
    assert_eq!(Source::Path(String::from("dir/file.txt")).label(), "dir/file.txt");
}

#[test]
fn missing_path_is_not_found() {
    assert_eq!(resolve(false, false, false), Resolution::Fail(Failure::NotFound));
    assert_eq!(resolve(false, false, true), Resolution::Fail(Failure::NotFound));
    assert_eq!(resolve(false, true, true), Resolution::Fail(Failure::NotFound));
    assert_eq!(resolve(false, true, false), Resolution::Fail(Failure::NotFound));
}

#[test]
fn directory_is_reported_or_left_out() {
    assert_eq!(resolve(true, true, false), Resolution::Fail(Failure::IsDirectory));
    assert_eq!(resolve(true, true, true), Resolution::Omit);
}

#[test]
fn file_is_read() {
    assert_eq!(resolve(true, false, false), Resolution::Read);
    assert_eq!(resolve(true, false, true), Resolution::Read);
}
