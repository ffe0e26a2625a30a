use qwant::APIResponse;
use qwant::Data;
use qwant::Query;
use qwant::QwantResult;
use qwant::Filters;
use qwant::Freshness;
use qwant::errors::QwantError;

fn page(offset: u32, url: Option<&str>) -> APIResponse {
    APIResponse {
        status: "success".to_string(),
        data: Some(Data {
            query: Some(Query {
                locale: "en_US".to_string(),
                query: "rust".to_string(),
                offset,
            }),
            cache: None,
            result: QwantResult {
                items: vec![],
                filters: Filters {
                    freshness: Freshness {
                        label: "Freshness".to_string(),
                        name: "freshness".to_string(),
                        type_: "dropdown".to_string(),
                        selected: "all".to_string(),
                        values: vec![],
                    },
                    size: None,
                    license: None,
                },
                version: "2.8".to_string(),
                domain: None,
                last: None,
            },
            error_code: None,
        }),
        search_str: url.map(|u| u.to_string()),
    }
}

#[test]
fn next_page_advances_offset_by_ten() {
    let first = page(0, Some("https://api.example/search?q=rust"));
    let (url, off) = first.next_page_request().unwrap();
    assert_eq!(off, 10);
    assert_eq!(url, "https://api.example/search?q=rust&offset=10");
}

#[test]
fn next_page_twice_reaches_twenty() {
    let first = page(0, Some("https://api.example/search?q=rust"));
    let (url1, off1) = first.next_page_request().unwrap();
    let second = page(0, None).with_page_context(off1, url1);
    let (url2, off2) = second.next_page_request().unwrap();
    assert_eq!(off2, 20);
    assert_eq!(url2, "https://api.example/search?q=rust&offset=10&offset=20");
}

#[test]
fn next_page_needs_a_retained_url() {
    let first = page(0, None);
    assert_eq!(first.next_page_request(), Err(QwantError::InvalidArgument));
}

#[test]
fn next_page_rejects_offset_overflow() {
    let first = page(u32::MAX - 5, Some("https://api.example/s"));
    assert_eq!(first.next_page_request(), Err(QwantError::InvalidArgument));
}

#[test]
fn last_offset_defaults_to_zero() {
    let none = APIResponse { status: "error".to_string(), data: None, search_str: None };
    assert_eq!(none.last_offset(), 0);
    let with_query = page(30, None);
    assert_eq!(with_query.last_offset(), 30);
}

#[test]
fn with_page_context_overrides_offset_and_url() {
    let fresh = page(0, None);
    let merged = fresh.with_page_context(10, "https://api.example/s&offset=10".to_string());
    assert_eq!(merged.search_str, Some("https://api.example/s&offset=10".to_string()));
    let q = merged.data.unwrap().query.unwrap();
    assert_eq!(q.offset, 10);
    assert_eq!(q.locale, "en_US");
    assert_eq!(q.query, "rust");
}

#[test]
fn with_page_context_keeps_absent_data() {
    let fresh = APIResponse { status: "error".to_string(), data: None, search_str: None };
    let merged = fresh.with_page_context(10, "u".to_string());
    assert!(merged.data.is_none());
    assert_eq!(merged.status, "error");
}

#[test]
fn application_error_reads_error_code() {
    let mut p = page(0, None);
    assert_eq!(p.application_error(), None);
    if let Some(d) = &mut p.data {
        d.error_code = Some(24);
    }
    assert_eq!(p.application_error(), Some(24));
    let none = APIResponse { status: "error".to_string(), data: None, search_str: None };
    assert_eq!(none.application_error(), None);
}
