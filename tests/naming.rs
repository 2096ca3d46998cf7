use stdout_rotator::{archive_file_name, match_archive_name, NameMatch};

fn number_of(m: NameMatch) -> Option<u64> {
    match m {
        NameMatch::Archive(n) => Some(n),
        _ => None,
    }
}

#[test]
fn plain_archive_name_is_matched() {
    assert_eq!(number_of(match_archive_name("output.log", false, "output.log.1")), Some(1));
    assert_eq!(number_of(match_archive_name("output.log", false, "output.log.42")), Some(42));
}

#[test]
fn compressed_archive_name_is_matched() {
    assert_eq!(number_of(match_archive_name("output.log", true, "output.log.7.gz")), Some(7));
    assert!(matches!(match_archive_name("output.log", true, "output.log.7"), NameMatch::NotArchive));
    assert!(matches!(match_archive_name("output.log", false, "output.log.7.gz"), NameMatch::NotArchive));
}

#[test]
fn leading_zeros_are_read_as_decimal() {
    assert_eq!(number_of(match_archive_name("output.log", false, "output.log.007")), Some(7));
}

#[test]
fn non_archive_names_are_rejected() {
    for name in [
        "output.log",
        "output.log.",
        "output.log.x",
        "output.log.1x",
        "output.log.gz",
        "output.log..gz",
        "outputXlog.1",
        "other.log.1",
        "xoutput.log.1",
        "",
    ] {
        assert!(
            matches!(match_archive_name("output.log", false, name), NameMatch::NotArchive),
            "{name}"
        );
    }
    assert!(matches!(match_archive_name("output.log", true, "output.log..gz"), NameMatch::NotArchive));
    assert!(matches!(match_archive_name("output.log", true, "output.log.1.gzz"), NameMatch::NotArchive));
}

#[test]
fn numbers_past_u64_are_too_large() {
    assert!(matches!(
        match_archive_name("output.log", false, "output.log.18446744073709551616"),
        NameMatch::TooLarge
    ));
    assert_eq!(
        number_of(match_archive_name("output.log", false, "output.log.18446744073709551615")),
        Some(u64::MAX)
    );
}

#[test]
fn non_ascii_base_names_are_matched() {
    assert_eq!(number_of(match_archive_name("журнал", false, "журнал.3")), Some(3));
}

#[test]
fn archive_file_names_are_spelled_in_decimal() {
    assert_eq!(archive_file_name("output.log", 1, false), "output.log.1");
    assert_eq!(archive_file_name("output.log", 0, false), "output.log.0");
    assert_eq!(archive_file_name("output.log", 120, true), "output.log.120.gz");
    assert_eq!(
        archive_file_name("a", u64::MAX, false),
        "a.18446744073709551615"
    );
}

#[test]
fn archive_file_names_match_their_grammar() {
    for n in [1u64, 9, 10, 99, 100, 123456789] {
        for compress in [false, true] {
            let name = archive_file_name("output.log", n, compress);
            assert_eq!(number_of(match_archive_name("output.log", compress, &name)), Some(n));
        }
    }
}
