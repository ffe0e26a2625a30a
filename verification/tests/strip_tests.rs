use qwant::Item;
use qwant::strip::strip_tags;

fn plain_item(title: &str, desc: &str, desc_short: Option<&str>) -> Item {
    Item {
        title: title.to_string(),
        _id: "id".to_string(),
        type_: None,
        favicon: None,
        url: "https://example.org".to_string(),
        source: None,
        desc: desc.to_string(),
        desc_short: desc_short.map(|s| s.to_string()),
        position: None,
        duration: None,
        thumbnail: None,
        thumb_height: None,
        thumb_width: None,
        thumb_type: None,
        width: None,
        height: None,
        size: None,
        b_id: None,
        media_fullsize: None,
        count: None,
        domain: None,
        date: None,
        media: None,
        media_: None,
    }
}

#[test]
fn strip_removes_bold_tags() {
    assert_eq!(strip_tags("<b>Paris</b> is great"), "Paris is great");
}

#[test]
fn strip_is_shortest_match() {
    assert_eq!(strip_tags("<a<b>"), "");
}

#[test]
fn strip_keeps_unclosed_tag() {
    assert_eq!(strip_tags("<ab"), "<ab");
}

#[test]
fn strip_crosses_line_boundaries() {
    assert_eq!(strip_tags("a<b\nc>d"), "ad");
}

#[test]
fn strip_keeps_plain_text() {
    assert_eq!(strip_tags("no tags > here"), "no tags > here");
}

#[test]
fn strip_empty_text() {
    assert_eq!(strip_tags(""), "");
}

#[test]
fn strip_html_cleans_text_fields() {
    let mut item = plain_item("<b>Rust</b>", "a <i>fast</i> language", Some("<i>short</i>"));
    item.strip_html();
    assert_eq!(item.title, "Rust");
    assert_eq!(item.desc, "a fast language");
    assert_eq!(item.desc_short, Some("short".to_string()));
}

#[test]
fn strip_html_keeps_absent_short_description() {
    let mut item = plain_item("<b>t</b>", "d", None);
    item.strip_html();
    assert_eq!(item.title, "t");
    assert_eq!(item.desc, "d");
    assert_eq!(item.desc_short, None);
    assert_eq!(item.url, "https://example.org");
    assert_eq!(item._id, "id");
}
