use hotdog::is_valid_dog_url;

#[test]
fn http_and_https_urls_are_accepted() {
    assert!(is_valid_dog_url("http://example.com/dog.jpg"));
    assert!(is_valid_dog_url("https://images.dog.ceo/a.jpg"));
    assert!(is_valid_dog_url(
        "https://images.dog.ceo/breeds/pitbull/dog-3981540_1280.jpg"
    ));
}

#[test]
fn bare_scheme_is_accepted() {
    assert!(is_valid_dog_url("http://"));
    assert!(is_valid_dog_url("https://"));
}

#[test]
fn nothing_beyond_the_scheme_is_looked_at() {
    assert!(is_valid_dog_url("http://not a url at all"));
    assert!(is_valid_dog_url("https://\u{1F436}"));
    assert!(is_valid_dog_url("http://\n"));
}

#[test]
fn other_schemes_are_refused() {
    assert!(!is_valid_dog_url("ftp://example.com/dog.jpg"));
    assert!(!is_valid_dog_url("file:///etc/passwd"));
    assert!(!is_valid_dog_url("javascript:alert(1)"));
    assert!(!is_valid_dog_url("httpx://example.com"));
}

#[test]
fn empty_and_short_strings_are_refused() {
    assert!(!is_valid_dog_url(""));
    assert!(!is_valid_dog_url("h"));
    assert!(!is_valid_dog_url("http:/"));
    assert!(!is_valid_dog_url("https:/"));
    assert!(!is_valid_dog_url("http:"));
}

#[test]
fn scheme_must_stand_at_the_very_start() {
    assert!(!is_valid_dog_url(" http://example.com"));
    assert!(!is_valid_dog_url("see http://example.com"));
    assert!(!is_valid_dog_url("\u{feff}https://example.com"));
}

#[test]
fn scheme_is_matched_in_lower_case_only() {
    assert!(!is_valid_dog_url("HTTP://example.com"));
    assert!(!is_valid_dog_url("Https://example.com"));
    assert!(!is_valid_dog_url("hTTps://example.com"));
}
