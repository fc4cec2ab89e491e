use rugby_stats::export::{match_file_name, sanitize};

#[test]
fn sanitize_replaces_unsafe_characters() {
    assert_eq!(sanitize("Storm FC!"), "Storm_FC_");
    assert_eq!(sanitize("West-Tigers_2"), "West-Tigers_2");
    assert_eq!(sanitize("a/b\\c.d"), "a_b_c_d");
    assert_eq!(sanitize(""), "");
}

#[test]
fn sanitize_keeps_unicode_letters_and_digits() {
    assert_eq!(sanitize("Café Ü"), "Café_Ü");
    assert_eq!(sanitize("٣x"), "٣x");
    assert_eq!(sanitize("a😀b"), "a_b");
}

#[test]
fn sanitize_keeps_the_number_of_characters() {
    for s in ["", "a b c", "ß-ö!", "😀😀"].iter() {
        assert_eq!(sanitize(s).chars().count(), s.chars().count());
    }
}

#[test]
fn file_name_follows_the_pattern() {
    assert_eq!(
        match_file_name("Storm", "Sea Eagles", "20240301_193000"),
        "match_Storm_v_Sea_Eagles_20240301_193000.json"
    );
    assert_eq!(match_file_name("", "", "t"), "match__v__t.json");
}
