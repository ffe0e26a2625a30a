use qwant::APIResponse;
use qwant::Data;
use qwant::Cache;
use qwant::Query;
use qwant::QwantResult;
use qwant::Item;
use qwant::Filters;
use qwant::Freshness;
use qwant::Size;
use qwant::Values;
use qwant::types::media::Media;
use qwant::errors::QwantError;
use qwant::json::Json;
use qwant::codec::decode_envelope;
use qwant::codec::encode_envelope;

fn j_str(v: &str) -> Json {
    Json::Str(v.to_string())
}

fn pair(k: &str, v: Json) -> (String, Json) {
    (k.to_string(), v)
}

fn freshness_json() -> Json {
    Json::Obj(vec![
        pair("label", j_str("Freshness")),
        pair("name", j_str("freshness")),
        pair("type", j_str("dropdown")),
        pair("selected", j_str("all")),
        pair(
            "values",
            Json::Arr(vec![Json::Obj(vec![
                pair("value", j_str("all")),
                pair("label", j_str("All")),
                pair("translate", Json::Bool(true)),
            ])]),
        ),
    ])
}

fn size_json() -> Json {
    Json::Obj(vec![
        pair("label", j_str("Size")),
        pair("name", j_str("size")),
        pair("type", j_str("dropdown")),
        pair("selected", j_str("any")),
        pair("values", Json::Arr(vec![])),
    ])
}

fn web_item_json() -> Json {
    Json::Obj(vec![
        pair("title", j_str("<b>Rust</b>")),
        pair("_id", j_str("abc123")),
        pair("url", j_str("https://example.org")),
        pair("desc", j_str("a systems language")),
        pair("favicon", j_str("https://example.org/favicon.ico")),
    ])
}

fn envelope_json(items: Vec<Json>, filters: Json, offset: u32) -> Json {
    Json::Obj(vec![
        pair("status", j_str("success")),
        pair(
            "data",
            Json::Obj(vec![
                pair(
                    "query",
                    Json::Obj(vec![
                        pair("locale", j_str("en_US")),
                        pair("query", j_str("rust")),
                        pair("offset", Json::UInt(offset as u64)),
                    ]),
                ),
                pair(
                    "cache",
                    Json::Obj(vec![
                        pair("key", j_str("cache-key")),
                        pair("created", Json::UInt(1500000000)),
                        pair("expiration", Json::UInt(3600)),
                        pair("status", j_str("hit")),
                        pair("age", Json::UInt(42)),
                    ]),
                ),
                pair(
                    "result",
                    Json::Obj(vec![
                        pair("items", Json::Arr(items)),
                        pair("filters", filters),
                        pair("version", j_str("2.8")),
                    ]),
                ),
            ]),
        ),
    ])
}

#[test]
fn decode_web_envelope() {
    let j = envelope_json(vec![web_item_json()], Json::Obj(vec![pair("freshness", freshness_json())]), 0);
    let e = decode_envelope(&j).unwrap();
    assert_eq!(e.status, "success");
    assert_eq!(e.search_str, None);
    let d = e.data.unwrap();
    assert_eq!(d.error_code, None);
    let q = d.query.unwrap();
    assert_eq!(q.locale, "en_US");
    assert_eq!(q.query, "rust");
    assert_eq!(q.offset, 0);
    let c = d.cache.unwrap();
    assert_eq!(c.key, "cache-key");
    assert_eq!(c.created, 1500000000);
    assert_eq!(c.expiration, 3600);
    assert_eq!(c.status, "hit");
    assert_eq!(c.age, 42);
    assert_eq!(d.result.version, "2.8");
    assert_eq!(d.result.domain, None);
    assert_eq!(d.result.last, None);
    assert_eq!(d.result.items.len(), 1);
    let it = &d.result.items[0];
    assert_eq!(it.title, "<b>Rust</b>");
    assert_eq!(it._id, "abc123");
    assert_eq!(it.url, "https://example.org");
    assert_eq!(it.desc, "a systems language");
    assert_eq!(it.favicon, Some("https://example.org/favicon.ico".to_string()));
    assert_eq!(it.desc_short, None);
    assert_eq!(it.media_, None);
    let f = &d.result.filters;
    assert_eq!(f.freshness.label, "Freshness");
    assert_eq!(f.freshness.values.len(), 1);
    assert_eq!(f.freshness.values[0].value, "all");
    assert_eq!(f.freshness.values[0].translate, true);
    assert!(f.size.is_none());
    assert!(f.license.is_none());
}

#[test]
fn decode_news_item_fields() {
    let item = Json::Obj(vec![
        pair("title", j_str("Headline")),
        pair("_id", j_str("n1")),
        pair("url", j_str("https://news.example")),
        pair("desc", j_str("news body")),
        pair("domain", j_str("news.example")),
        pair("date", Json::UInt(1600000000)),
        pair("source", j_str("Example Wire")),
    ]);
    let j = envelope_json(vec![item], Json::Obj(vec![pair("freshness", freshness_json())]), 0);
    let e = decode_envelope(&j).unwrap();
    let it = &e.data.unwrap().result.items[0];
    assert_eq!(it.domain, Some("news.example".to_string()));
    assert_eq!(it.date, Some(1600000000));
    assert_eq!(it.source, Some("Example Wire".to_string()));
}

#[test]
fn decode_image_item_fields() {
    let item = Json::Obj(vec![
        pair("title", j_str("Picture")),
        pair("_id", j_str("i1")),
        pair("url", j_str("https://img.example/p")),
        pair("desc", j_str("an image")),
        pair("thumbnail", j_str("https://img.example/t.jpg")),
        pair("thumb_width", Json::UInt(160)),
        pair("thumb_height", Json::UInt(90)),
        pair("thumb_type", j_str("jpeg")),
        pair("width", j_str("1920")),
        pair("height", j_str("1080")),
        pair("size", j_str("1.2MB")),
        pair("b_id", j_str("b9")),
        pair("media_fullsize", j_str("https://img.example/full.jpg")),
        pair("count", Json::UInt(3)),
        pair(
            "media_",
            Json::Arr(vec![Json::Obj(vec![
                pair("url", j_str("https://img.example/m.jpg")),
                pair("width", Json::UInt(640)),
                pair("height", Json::UInt(480)),
                pair("type_", j_str("image/jpeg")),
            ])]),
        ),
    ]);
    let filters = Json::Obj(vec![pair("freshness", freshness_json()), pair("size", size_json())]);
    let j = envelope_json(vec![item], filters, 0);
    let e = decode_envelope(&j).unwrap();
    let d = e.data.unwrap();
    let it = &d.result.items[0];
    assert_eq!(it.thumbnail, Some("https://img.example/t.jpg".to_string()));
    assert_eq!(it.thumb_width, Some(160));
    assert_eq!(it.thumb_height, Some(90));
    assert_eq!(it.thumb_type, Some("jpeg".to_string()));
    assert_eq!(it.width, Some("1920".to_string()));
    assert_eq!(it.height, Some("1080".to_string()));
    assert_eq!(it.size, Some("1.2MB".to_string()));
    assert_eq!(it.b_id, Some("b9".to_string()));
    assert_eq!(it.media_fullsize, Some("https://img.example/full.jpg".to_string()));
    assert_eq!(it.count, Some(3));
    let media = it.media_.as_ref().unwrap();
    assert_eq!(media.len(), 1);
    assert_eq!(media[0].url, "https://img.example/m.jpg");
    assert_eq!(media[0].width, 640);
    assert_eq!(media[0].height, 480);
    assert_eq!(media[0].type_, "image/jpeg");
    let size = d.result.filters.size.unwrap();
    assert_eq!(size.label, "Size");
    assert_eq!(size.values.len(), 0);
}

#[test]
fn decode_video_item_fields() {
    let item = Json::Obj(vec![
        pair("title", j_str("Clip")),
        pair("_id", j_str("v1")),
        pair("url", j_str("https://video.example/v")),
        pair("desc", j_str("a clip")),
        pair("duration", Json::UInt(125)),
        pair("thumbnail", j_str("https://video.example/t.jpg")),
        pair("date", Json::UInt(1580000000)),
        pair("type", j_str("video")),
    ]);
    let j = envelope_json(vec![item], Json::Obj(vec![pair("freshness", freshness_json())]), 0);
    let e = decode_envelope(&j).unwrap();
    let it = &e.data.unwrap().result.items[0];
    assert_eq!(it.duration, Some(125));
    assert_eq!(it.type_, Some("video".to_string()));
    assert_eq!(it.date, Some(1580000000));
}

#[test]
fn decode_music_item_fields() {
    let item = Json::Obj(vec![
        pair("title", j_str("Song")),
        pair("_id", j_str("m1")),
        pair("url", j_str("https://music.example/s")),
        pair("desc", j_str("a song")),
        pair("duration", Json::UInt(240)),
        pair("position", Json::UInt(2)),
    ]);
    let j = envelope_json(vec![item], Json::Obj(vec![pair("freshness", freshness_json())]), 0);
    let e = decode_envelope(&j).unwrap();
    let it = &e.data.unwrap().result.items[0];
    assert_eq!(it.duration, Some(240));
    assert_eq!(it.position, Some(2));
}

#[test]
fn decode_shopping_item_fields() {
    let item = Json::Obj(vec![
        pair("title", j_str("Gadget")),
        pair("_id", j_str("s1")),
        pair("url", j_str("https://shop.example/g")),
        pair("desc", j_str("a gadget")),
        pair("source", j_str("shop.example")),
        pair("position", Json::UInt(1)),
        pair("media", j_str("https://shop.example/g.jpg")),
    ]);
    let j = envelope_json(vec![item], Json::Obj(vec![pair("freshness", freshness_json())]), 0);
    let e = decode_envelope(&j).unwrap();
    let it = &e.data.unwrap().result.items[0];
    assert_eq!(it.source, Some("shop.example".to_string()));
    assert_eq!(it.position, Some(1));
    assert_eq!(it.media, Some("https://shop.example/g.jpg".to_string()));
}

#[test]
fn decode_null_optional_equals_absent() {
    let item = Json::Obj(vec![
        pair("title", j_str("t")),
        pair("_id", j_str("i")),
        pair("url", j_str("u")),
        pair("desc", j_str("d")),
        pair("desc_short", Json::Null),
    ]);
    let j = envelope_json(vec![item], Json::Obj(vec![pair("freshness", freshness_json())]), 0);
    let e = decode_envelope(&j).unwrap();
    let it = &e.data.unwrap().result.items[0];
    assert_eq!(it.desc_short, None);
}

#[test]
fn decode_envelope_with_null_data() {
    let j = Json::Obj(vec![pair("status", j_str("error")), pair("data", Json::Null)]);
    let e = decode_envelope(&j).unwrap();
    assert_eq!(e.status, "error");
    assert!(e.data.is_none());
}

#[test]
fn decode_envelope_with_absent_data() {
    let j = Json::Obj(vec![pair("status", j_str("error"))]);
    let e = decode_envelope(&j).unwrap();
    assert_eq!(e.status, "error");
    assert!(e.data.is_none());
}

#[test]
fn decode_envelope_with_error_code() {
    let j = Json::Obj(vec![
        pair("status", j_str("error")),
        pair(
            "data",
            Json::Obj(vec![
                pair(
                    "result",
                    Json::Obj(vec![
                        pair("items", Json::Arr(vec![])),
                        pair("filters", Json::Obj(vec![pair("freshness", freshness_json())])),
                        pair("version", j_str("2.8")),
                    ]),
                ),
                pair("error_code", Json::UInt(24)),
            ]),
        ),
    ]);
    let e = decode_envelope(&j).unwrap();
    let d = e.data.unwrap();
    assert_eq!(d.error_code, Some(24));
    assert!(d.query.is_none());
    assert!(d.cache.is_none());
    assert_eq!(d.result.items.len(), 0);
}

#[test]
fn decode_rejects_non_object() {
    let r = decode_envelope(&Json::Str("nope".to_string()));
    assert!(matches!(r, Err(QwantError::DecodeError)));
}

#[test]
fn decode_rejects_missing_status() {
    let r = decode_envelope(&Json::Obj(vec![pair("data", Json::Null)]));
    assert!(matches!(r, Err(QwantError::DecodeError)));
}

#[test]
fn decode_rejects_wrongly_typed_field() {
    let j = Json::Obj(vec![pair("status", Json::UInt(1)), pair("data", Json::Null)]);
    assert!(matches!(decode_envelope(&j), Err(QwantError::DecodeError)));
}

#[test]
fn decode_rejects_error_code_beyond_u32() {
    let j = Json::Obj(vec![
        pair("status", j_str("error")),
        pair(
            "data",
            Json::Obj(vec![
                pair(
                    "result",
                    Json::Obj(vec![
                        pair("items", Json::Arr(vec![])),
                        pair("filters", Json::Obj(vec![pair("freshness", freshness_json())])),
                        pair("version", j_str("2.8")),
                    ]),
                ),
                pair("error_code", Json::UInt(5_000_000_000)),
            ]),
        ),
    ]);
    assert!(matches!(decode_envelope(&j), Err(QwantError::DecodeError)));
}

fn sample_envelope() -> APIResponse {
    APIResponse {
        status: "success".to_string(),
        data: Some(Data {
            query: Some(Query {
                locale: "en_US".to_string(),
                query: "rust".to_string(),
                offset: 10,
            }),
            cache: Some(Cache {
                key: "k".to_string(),
                created: 7,
                expiration: 8,
                status: "hit".to_string(),
                age: 9,
            }),
            result: QwantResult {
                items: vec![Item {
                    title: "t".to_string(),
                    _id: "i".to_string(),
                    type_: Some("web".to_string()),
                    favicon: None,
                    url: "u".to_string(),
                    source: None,
                    desc: "d".to_string(),
                    desc_short: Some("ds".to_string()),
                    position: Some(1),
                    duration: None,
                    thumbnail: None,
                    thumb_height: Some(90),
                    thumb_width: None,
                    thumb_type: None,
                    width: None,
                    height: Some("1080".to_string()),
                    size: None,
                    b_id: None,
                    media_fullsize: None,
                    count: None,
                    domain: Some("example.org".to_string()),
                    date: None,
                    media: None,
                    media_: Some(vec![Media {
                        url: "mu".to_string(),
                        width: 1,
                        height: 2,
                        type_: "mt".to_string(),
                    }]),
                }],
                filters: Filters {
                    freshness: Freshness {
                        label: "Freshness".to_string(),
                        name: "freshness".to_string(),
                        type_: "dropdown".to_string(),
                        selected: "all".to_string(),
                        values: vec![Values {
                            value: "all".to_string(),
                            label: "All".to_string(),
                            translate: false,
                        }],
                    },
                    size: Some(Size {
                        label: "Size".to_string(),
                        name: "size".to_string(),
                        type_: "dropdown".to_string(),
                        selected: "any".to_string(),
                        values: vec![],
                    }),
                    license: None,
                },
                version: "2.8".to_string(),
                domain: Some("qwant.com".to_string()),
                last: Some(false),
            },
            error_code: None,
        }),
        search_str: None,
    }
}

#[test]
fn envelope_round_trip() {
    let e = sample_envelope();
    let j = encode_envelope(&e);
    let e2 = decode_envelope(&j).unwrap();
    assert_eq!(e2, e);
}

#[test]
fn envelope_round_trip_with_null_data() {
    let e = APIResponse { status: "error".to_string(), data: None, search_str: None };
    let j = encode_envelope(&e);
    let e2 = decode_envelope(&j).unwrap();
    assert_eq!(e2, e);
}

#[test]
fn envelope_double_round_trip_is_stable() {
    let e = sample_envelope();
    let once = decode_envelope(&encode_envelope(&e)).unwrap();
    let twice = decode_envelope(&encode_envelope(&once)).unwrap();
    assert_eq!(twice, once);
}
