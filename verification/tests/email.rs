use inscriber::email::extract_main_email;

#[test]
fn label_is_removed() {
    assert_eq!(extract_main_email("alice+shop@example.com"), "alice@example.com");
}

#[test]
fn address_without_label_is_unchanged() {
    assert_eq!(extract_main_email("alice@example.com"), "alice@example.com");
}

#[test]
fn plus_without_at_is_unchanged() {
    assert_eq!(extract_main_email("alice+shop"), "alice+shop");
}

#[test]
fn empty_text_is_unchanged() {
    assert_eq!(extract_main_email(""), "");
}

#[test]
fn only_first_plus_and_first_at_count() {
    assert_eq!(extract_main_email("a+b+c@d@e"), "a@d@e");
}

#[test]
fn at_before_plus_repeats_the_middle() {
    // The slice up to the first `+` is joined to the text from the first `@`.
    assert_eq!(extract_main_email("a@b+c"), "a@b@b+c");
}

#[test]
fn non_ascii_text_is_cut_on_characters() {
    assert_eq!(extract_main_email("jösé+très@exämple.org"), "jösé@exämple.org");
}
