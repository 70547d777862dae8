use game_of_life::Pattern;

#[test]
fn glider_parses_ignoring_case() {
    assert_eq!(Pattern::from_name("GLIDER"), Some(Pattern::Glider));
    assert_eq!(Pattern::from_name("glider"), Some(Pattern::Glider));
    assert_eq!(Pattern::from_name("GlIdEr"), Some(Pattern::Glider));
}

#[test]
fn pulsar_parses_ignoring_case() {
    assert_eq!(Pattern::from_name("PULSAR"), Some(Pattern::Pulsar));
    assert_eq!(Pattern::from_name("pulsar"), Some(Pattern::Pulsar));
}

#[test]
fn names_fold_by_unicode_uppercase() {
    // U+0131 (dotless i) and U+017F (long s) uppercase to 'I' and 'S'.
    assert_eq!(Pattern::from_name("gl\u{131}der"), Some(Pattern::Glider));
    assert_eq!(Pattern::from_name("pul\u{17f}ar"), Some(Pattern::Pulsar));
}

#[test]
fn unknown_names_do_not_parse() {
    assert_eq!(Pattern::from_name(""), None);
    assert_eq!(Pattern::from_name("glide"), None);
    assert_eq!(Pattern::from_name("gliders"), None);
    assert_eq!(Pattern::from_name("pulsar "), None);
    assert_eq!(Pattern::from_name("blinker"), None);
}

#[test]
fn upper_name_lookup_is_exact() {
    assert_eq!(Pattern::from_upper_name("GLIDER"), Some(Pattern::Glider));
    assert_eq!(Pattern::from_upper_name("PULSAR"), Some(Pattern::Pulsar));
    assert_eq!(Pattern::from_upper_name("glider"), None);
    assert_eq!(Pattern::from_upper_name("BLINKER"), None);
}

#[test]
fn offset_lists_have_the_catalog_sizes() {
    assert_eq!(Pattern::Glider.offset_list().len(), 5);
    assert_eq!(Pattern::Pulsar.offset_list().len(), 48);
}
