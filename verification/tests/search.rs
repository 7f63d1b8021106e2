use random_page_server::bytes::{append_bytes, same_bytes};
use random_page_server::search::{find_first, matches_at, splice_before};

#[test]
fn find_first_gives_the_leftmost_occurrence() {
    assert_eq!(find_first(b"abcabc", b"bc"), Some(1));
    assert_eq!(find_first(b"aaaa", b"aa"), Some(0));
    assert_eq!(find_first(b"xxab", b"ab"), Some(2));
    assert_eq!(find_first(b"ab", b"ab"), Some(0));
}

#[test]
fn find_first_reports_absence() {
    assert_eq!(find_first(b"abcabc", b"cb"), None);
    assert_eq!(find_first(b"", b"a"), None);
    assert_eq!(find_first(b"ab", b"abc"), None);
    assert_eq!(find_first(b"<body>", b"</body>"), None);
}

#[test]
fn find_first_of_the_empty_needle_is_the_start() {
    assert_eq!(find_first(b"abc", b""), Some(0));
    assert_eq!(find_first(b"", b""), Some(0));
}

#[test]
fn find_first_agrees_with_std() {
    let hays = ["", "a", "ab", "aab", "abab", "</body></body>", "<body>\n</body>\n</html>"];
    let needles = ["", "a", "b", "ab", "ba", "</body>", "</html>", "abc"];
    for hay in hays.iter() {
        for needle in needles.iter() {
            assert_eq!(find_first(hay.as_bytes(), needle.as_bytes()), hay.find(needle));
        }
    }
}

#[test]
fn splice_goes_before_the_marker() {
    assert_eq!(splice_before(b"<b>x</b>", b"</b>", b"INS"), b"<b>xINS</b>".to_vec());
}

#[test]
fn splice_goes_before_the_leftmost_marker() {
    assert_eq!(splice_before(b"a|b|c", b"|", b"--"), b"a--|b|c".to_vec());
}

#[test]
fn splice_without_marker_appends() {
    assert_eq!(splice_before(b"no marker", b"</body>", b"INS"), b"no markerINS".to_vec());
    assert_eq!(splice_before(b"", b"</body>", b"INS"), b"INS".to_vec());
}

#[test]
fn splice_of_nothing_changes_nothing() {
    assert_eq!(splice_before(b"a</body>b", b"</body>", b""), b"a</body>b".to_vec());
}

#[test]
fn append_bytes_extends_at_the_end() {
    let mut out = b"ab".to_vec();
    append_bytes(&mut out, b"cd");
    assert_eq!(out, b"abcd".to_vec());
    append_bytes(&mut out, b"");
    assert_eq!(out, b"abcd".to_vec());
}

#[test]
fn same_bytes_compares_byte_for_byte() {
    assert!(same_bytes(b"GET", b"GET"));
    assert!(same_bytes(b"", b""));
    assert!(!same_bytes(b"GET", b"get"));
    assert!(!same_bytes(b"GET", b"GE"));
    assert!(!same_bytes(b"GE", b"GET"));
}

#[test]
fn matches_at_looks_at_one_position() {
    assert!(matches_at(b"abcabc", b"bc", 1));
    assert!(matches_at(b"abcabc", b"bc", 4));
    assert!(!matches_at(b"abcabc", b"bc", 0));
    assert!(!matches_at(b"abcabc", b"bc", 5));
    assert!(!matches_at(b"abcabc", b"bc", 6));
    assert!(!matches_at(b"abcabc", b"bc", 7));
    assert!(matches_at(b"abc", b"", 3));
    assert!(!matches_at(b"abc", b"", 4));
    assert!(!matches_at(b"abc", b"a", usize::MAX));
}
