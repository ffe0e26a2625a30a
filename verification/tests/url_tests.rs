use qwant::SearchType;
use qwant::errors::QwantError;
use qwant::url::percent_encode;
use qwant::url::search_url;
use qwant::url::next_page_url;
use qwant::url::u32_to_decimal;

#[test]
fn percent_encode_keeps_unreserved() {
    assert_eq!(percent_encode("AZaz09-._~"), "AZaz09-._~");
}

#[test]
fn percent_encode_escapes_reserved() {
    assert_eq!(percent_encode("a b/c&d=e?f"), "a%20b%2Fc%26d%3De%3Ff");
}

#[test]
fn percent_encode_escapes_multibyte() {
    assert_eq!(percent_encode("caf\u{e9}"), "caf%C3%A9");
}

#[test]
fn percent_encode_empty() {
    assert_eq!(percent_encode(""), "");
}

#[test]
fn decimal_of_zero() {
    assert_eq!(u32_to_decimal(0), "0");
}

#[test]
fn decimal_of_ten() {
    assert_eq!(u32_to_decimal(10), "10");
}

#[test]
fn decimal_of_max() {
    assert_eq!(u32_to_decimal(u32::MAX), "4294967295");
}

#[test]
fn path_segments_are_fixed() {
    assert_eq!(SearchType::Web.path_segment(), "web");
    assert_eq!(SearchType::News.path_segment(), "news");
    assert_eq!(SearchType::Images.path_segment(), "images");
    assert_eq!(SearchType::Videos.path_segment(), "videos");
    assert_eq!(SearchType::Shopping.path_segment(), "shopping");
    assert_eq!(SearchType::Music.path_segment(), "music");
}

#[test]
fn search_url_safe_on() {
    let url = search_url("rust lang", &SearchType::Web, true, "en_US", "myapp").unwrap();
    assert_eq!(
        url,
        "https://api.qwant.com/api/search/web?count=10&device=desktop&extensionDisabled=true&safesearch=1&locale=en_US&q=rust%20lang&t=myapp"
    );
}

#[test]
fn search_url_safe_off() {
    let url = search_url("x", &SearchType::Music, false, "fr_FR", "id").unwrap();
    assert_eq!(
        url,
        "https://api.qwant.com/api/search/music?count=10&device=desktop&extensionDisabled=true&safesearch=0&locale=fr_FR&q=x&t=id"
    );
}

#[test]
fn search_url_escapes_every_parameter() {
    let url = search_url("a&b", &SearchType::News, true, "en US", "i&d").unwrap();
    assert_eq!(
        url,
        "https://api.qwant.com/api/search/news?count=10&device=desktop&extensionDisabled=true&safesearch=1&locale=en%20US&q=a%26b&t=i%26d"
    );
}

#[test]
fn search_url_rejects_empty_term() {
    let r = search_url("", &SearchType::Web, true, "en_US", "myapp");
    assert_eq!(r, Err(QwantError::InvalidArgument));
}

#[test]
fn next_page_url_appends_offset() {
    let (url, off) = next_page_url("https://example.org/search?q=x", 0).unwrap();
    assert_eq!(off, 10);
    assert_eq!(url, "https://example.org/search?q=x&offset=10");
}

#[test]
fn next_page_url_rejects_offset_overflow() {
    let r = next_page_url("https://example.org/s", u32::MAX - 5);
    assert_eq!(r, Err(QwantError::InvalidArgument));
}
