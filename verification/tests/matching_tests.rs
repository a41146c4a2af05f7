use vanity_search::matching::matches_target;

#[test]
fn suffix_match_scenarios() {
    assert!(matches_target("xyzab", "ab"));
    assert!(!matches_target("xyzabc", "ab"));
}

#[test]
fn empty_suffix_matches_everything() {
    assert!(matches_target("", ""));
    assert!(matches_target("anything", ""));
}

#[test]
fn whole_string_as_suffix() {
    assert!(matches_target("abc", "abc"));
    assert!(!matches_target("abc", "zabc"));
}

#[test]
fn match_is_case_sensitive() {
    assert!(!matches_target("xyzAB", "ab"));
    assert!(matches_target("xyzAB", "AB"));
}

#[test]
fn suffix_longer_than_identifier() {
    assert!(!matches_target("ab", "xyzab"));
    assert!(!matches_target("", "a"));
}
