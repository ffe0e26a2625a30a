//! The codec between the response records and the JSON tree.
//!
//! For each record type `T` a spec predicate `t_matches(v, j)` says that
//! the tree `j` carries the record `v`: every required field looks up to
//! a value of the right shape with `v`'s content, and every optional
//! field is absent or `null` exactly when `v` leaves it out. Decoding
//! returns the record a tree carries, and fails exactly when the tree
//! carries none; encoding returns a tree that carries the record (with
//! left-out optional fields written as `null`). Unknown keys are ignored
//! throughout, so the schema is forward-compatible.

use vstd::prelude::*;
use vstd::string::StringExecFns;
use crate::errors::QwantError;
use crate::json::Json;
use crate::json::obj_get;
use crate::json::obj_lookup;
use crate::json::lemma_obj_lookup_at;
use crate::types::media::Media;
use crate::Values;
use crate::QwantResult;
use crate::Data;
use crate::APIResponse;
use crate::Filters;
use crate::Item;
use crate::Cache;
use crate::Query;
use crate::Size;
use crate::License;
use crate::Freshness;

verus! {

// ---------------------------------------------------------------------
// What one field of an object carries.
// ---------------------------------------------------------------------

/// A required string field: its characters, or nothing when the key is
/// absent or holds another shape.
pub open spec fn str_req(fs: Seq<(String, Json)>, k: Seq<char>) -> Option<Seq<char>> {
    match obj_lookup(fs, k) {
        Some(Json::Str(s)) => Some(s@),
        _ => None,
    }
}

/// A required unsigned-integer field.
pub open spec fn u64_req(fs: Seq<(String, Json)>, k: Seq<char>) -> Option<u64> {
    match obj_lookup(fs, k) {
        Some(Json::UInt(n)) => Some(n),
        _ => None,
    }
}

/// A required unsigned-integer field that must fit in 32 bits.
pub open spec fn u32_req(fs: Seq<(String, Json)>, k: Seq<char>) -> Option<u32> {
    match obj_lookup(fs, k) {
        Some(Json::UInt(n)) => if n <= u32::MAX { Some(n as u32) } else { None },
        _ => None,
    }
}

/// A required boolean field.
pub open spec fn bool_req(fs: Seq<(String, Json)>, k: Seq<char>) -> Option<bool> {
    match obj_lookup(fs, k) {
        Some(Json::Bool(b)) => Some(b),
        _ => None,
    }
}

/// An optional string field: `Some(None)` when absent or null,
/// `Some(Some(chars))` when present, `None` when another shape stands
/// there.
pub open spec fn opt_str(fs: Seq<(String, Json)>, k: Seq<char>) -> Option<Option<Seq<char>>> {
    match obj_lookup(fs, k) {
        None => Some(None),
        Some(Json::Null) => Some(None),
        Some(Json::Str(s)) => Some(Some(s@)),
        Some(_) => None,
    }
}

/// An optional unsigned-integer field.
pub open spec fn opt_u64(fs: Seq<(String, Json)>, k: Seq<char>) -> Option<Option<u64>> {
    match obj_lookup(fs, k) {
        None => Some(None),
        Some(Json::Null) => Some(None),
        Some(Json::UInt(n)) => Some(Some(n)),
        Some(_) => None,
    }
}

/// An optional unsigned-integer field that must fit in 32 bits.
pub open spec fn opt_u32(fs: Seq<(String, Json)>, k: Seq<char>) -> Option<Option<u32>> {
    match obj_lookup(fs, k) {
        None => Some(None),
        Some(Json::Null) => Some(None),
        Some(Json::UInt(n)) => if n <= u32::MAX {
            Some(Some(n as u32))
        } else {
            None
        },
        Some(_) => None,
    }
}

/// An optional boolean field.
pub open spec fn opt_bool(fs: Seq<(String, Json)>, k: Seq<char>) -> Option<Option<bool>> {
    match obj_lookup(fs, k) {
        None => Some(None),
        Some(Json::Null) => Some(None),
        Some(Json::Bool(b)) => Some(Some(b)),
        Some(_) => None,
    }
}

/// The characters of an optional string, when one is there.
pub open spec fn opt_str_view(v: Option<String>) -> Option<Seq<char>> {
    match v {
        Some(s) => Some(s@),
        None => None,
    }
}

// ---------------------------------------------------------------------
// Reading one field of a decoded object.
// ---------------------------------------------------------------------

fn get_str(fields: &Vec<(String, Json)>, key: &str) -> (r: Result<String, QwantError>)
    ensures
        r matches Ok(s) ==> str_req(fields@, key@) == Some(s@),
        r is Err ==> str_req(fields@, key@) is None,
{
    match obj_get(fields, key) {
        Some(j) => match j {
            Json::Str(s) => Ok(s.clone()),
            _ => Err(QwantError::DecodeError),
        },
        None => Err(QwantError::DecodeError),
    }
}

fn get_u64(fields: &Vec<(String, Json)>, key: &str) -> (r: Result<u64, QwantError>)
    ensures
        r matches Ok(n) ==> u64_req(fields@, key@) == Some(n),
        r is Err ==> u64_req(fields@, key@) is None,
{
    match obj_get(fields, key) {
        Some(j) => match j {
            Json::UInt(n) => Ok(*n),
            _ => Err(QwantError::DecodeError),
        },
        None => Err(QwantError::DecodeError),
    }
}

fn get_u32(fields: &Vec<(String, Json)>, key: &str) -> (r: Result<u32, QwantError>)
    ensures
        r matches Ok(n) ==> u32_req(fields@, key@) == Some(n),
        r is Err ==> u32_req(fields@, key@) is None,
{
    match obj_get(fields, key) {
        Some(j) => match j {
            Json::UInt(n) => if *n <= u32::MAX as u64 {
                Ok(*n as u32)
            } else {
                Err(QwantError::DecodeError)
            },
            _ => Err(QwantError::DecodeError),
        },
        None => Err(QwantError::DecodeError),
    }
}

fn get_bool(fields: &Vec<(String, Json)>, key: &str) -> (r: Result<bool, QwantError>)
    ensures
        r matches Ok(b) ==> bool_req(fields@, key@) == Some(b),
        r is Err ==> bool_req(fields@, key@) is None,
{
    match obj_get(fields, key) {
        Some(j) => match j {
            Json::Bool(b) => Ok(*b),
            _ => Err(QwantError::DecodeError),
        },
        None => Err(QwantError::DecodeError),
    }
}

fn get_opt_str(fields: &Vec<(String, Json)>, key: &str) -> (r: Result<Option<String>, QwantError>)
    ensures
        r matches Ok(v) ==> opt_str(fields@, key@) == Some(opt_str_view(v)),
        r is Err ==> opt_str(fields@, key@) is None,
{
    match obj_get(fields, key) {
        Some(j) => match j {
            Json::Null => Ok(None),
            Json::Str(s) => Ok(Some(s.clone())),
            _ => Err(QwantError::DecodeError),
        },
        None => Ok(None),
    }
}

fn get_opt_u64(fields: &Vec<(String, Json)>, key: &str) -> (r: Result<Option<u64>, QwantError>)
    ensures
        r matches Ok(v) ==> opt_u64(fields@, key@) == Some(v),
        r is Err ==> opt_u64(fields@, key@) is None,
{
    match obj_get(fields, key) {
        Some(j) => match j {
            Json::Null => Ok(None),
            Json::UInt(n) => Ok(Some(*n)),
            _ => Err(QwantError::DecodeError),
        },
        None => Ok(None),
    }
}

fn get_opt_u32(fields: &Vec<(String, Json)>, key: &str) -> (r: Result<Option<u32>, QwantError>)
    ensures
        r matches Ok(v) ==> opt_u32(fields@, key@) == Some(v),
        r is Err ==> opt_u32(fields@, key@) is None,
{
    match obj_get(fields, key) {
        Some(j) => match j {
            Json::Null => Ok(None),
            Json::UInt(n) => if *n <= u32::MAX as u64 {
                Ok(Some(*n as u32))
            } else {
                Err(QwantError::DecodeError)
            },
            _ => Err(QwantError::DecodeError),
        },
        None => Ok(None),
    }
}

fn get_opt_bool(fields: &Vec<(String, Json)>, key: &str) -> (r: Result<Option<bool>, QwantError>)
    ensures
        r matches Ok(v) ==> opt_bool(fields@, key@) == Some(v),
        r is Err ==> opt_bool(fields@, key@) is None,
{
    match obj_get(fields, key) {
        Some(j) => match j {
            Json::Null => Ok(None),
            Json::Bool(b) => Ok(Some(*b)),
            _ => Err(QwantError::DecodeError),
        },
        None => Ok(None),
    }
}

// ---------------------------------------------------------------------
// Building one field of an encoded object.
// ---------------------------------------------------------------------

fn push_field(fs: &mut Vec<(String, Json)>, key: &str, v: Json)
    ensures
        final(fs)@.len() == old(fs)@.len() + 1,
        final(fs)@[old(fs)@.len() as int].0@ == key@,
        final(fs)@[old(fs)@.len() as int].1 == v,
        forall|m: int| 0 <= m < old(fs)@.len() ==> final(fs)@[m] == old(fs)@[m],
{
    fs.push((String::from_str(key), v));
}

fn opt_str_json(v: &Option<String>) -> (r: Json)
    ensures
        match v {
            Some(s) => r matches Json::Str(s2) && s2@ == s@,
            None => r is Null,
        },
{
    match v {
        Some(s) => Json::Str(s.clone()),
        None => Json::Null,
    }
}

fn opt_u64_json(v: &Option<u64>) -> (r: Json)
    ensures
        match v {
            Some(n) => r == Json::UInt(*n),
            None => r is Null,
        },
{
    match v {
        Some(n) => Json::UInt(*n),
        None => Json::Null,
    }
}

fn opt_bool_json(v: &Option<bool>) -> (r: Json)
    ensures
        match v {
            Some(b) => r == Json::Bool(*b),
            None => r is Null,
        },
{
    match v {
        Some(b) => Json::Bool(*b),
        None => Json::Null,
    }
}

// ---------------------------------------------------------------------
// Facet values.
// ---------------------------------------------------------------------

/// The tree `j` carries the facet value `v`.
pub open spec fn values_matches(v: Values, j: Json) -> bool {
    match j {
        Json::Obj(fs) => {
            &&& str_req(fs@, "value"@) == Some(v.value@)
            &&& str_req(fs@, "label"@) == Some(v.label@)
            &&& bool_req(fs@, "translate"@) == Some(v.translate)
        },
        _ => false,
    }
}

/// The two facet values carry the same content.
pub open spec fn values_eq(a: Values, b: Values) -> bool {
    a.value@ == b.value@ && a.label@ == b.label@ && a.translate == b.translate
}

/// A tree carries at most one facet value.
pub proof fn lemma_values_unique(a: Values, b: Values, j: Json)
    requires
        values_matches(a, j),
        values_matches(b, j),
    ensures
        values_eq(a, b),
{
}

/// Decodes one facet value; fails exactly when the tree carries none.
pub fn decode_values(j: &Json) -> (r: Result<Values, QwantError>)
    ensures
        r matches Ok(v) ==> values_matches(v, *j),
        r is Err ==> forall|v: Values| !values_matches(v, *j),
{
    let fs = match j {
        Json::Obj(fs) => fs,
        _ => {
            return Err(QwantError::DecodeError);
        },
    };
    let value = match get_str(fs, "value") {
        Ok(v) => v,
        Err(e) => {
            return Err(e);
        },
    };
    let label = match get_str(fs, "label") {
        Ok(v) => v,
        Err(e) => {
            return Err(e);
        },
    };
    let translate = match get_bool(fs, "translate") {
        Ok(v) => v,
        Err(e) => {
            return Err(e);
        },
    };
    Ok(Values { value, label, translate })
}

/// Encodes one facet value.
pub fn encode_values(v: &Values) -> (r: Json)
    ensures
        values_matches(*v, r),
{
    let mut fs: Vec<(String, Json)> = Vec::new();
    push_field(&mut fs, "value", Json::Str(v.value.clone()));
    push_field(&mut fs, "label", Json::Str(v.label.clone()));
    push_field(&mut fs, "translate", Json::Bool(v.translate));
    proof {
        reveal_strlit("value");
        reveal_strlit("label");
        reveal_strlit("translate");
        assert("value"@[0] == 'v' && "label"@[0] == 'l' && "translate"@[0] == 't');
        lemma_obj_lookup_at(fs@, "value"@, 0);
        lemma_obj_lookup_at(fs@, "label"@, 1);
        lemma_obj_lookup_at(fs@, "translate"@, 2);
    }
    Json::Obj(fs)
}

// ---------------------------------------------------------------------
// Embedded media.
// ---------------------------------------------------------------------

/// The tree `j` carries the media record `m`.
pub open spec fn media_matches(m: Media, j: Json) -> bool {
    match j {
        Json::Obj(fs) => {
            &&& str_req(fs@, "url"@) == Some(m.url@)
            &&& u64_req(fs@, "width"@) == Some(m.width)
            &&& u64_req(fs@, "height"@) == Some(m.height)
            &&& str_req(fs@, "type_"@) == Some(m.type_@)
        },
        _ => false,
    }
}

/// The two media records carry the same content.
pub open spec fn media_eq(a: Media, b: Media) -> bool {
    a.url@ == b.url@ && a.width == b.width && a.height == b.height && a.type_@ == b.type_@
}

/// A tree carries at most one media record.
pub proof fn lemma_media_unique(a: Media, b: Media, j: Json)
    requires
        media_matches(a, j),
        media_matches(b, j),
    ensures
        media_eq(a, b),
{
}

/// Decodes one media record; fails exactly when the tree carries none.
pub fn decode_media(j: &Json) -> (r: Result<Media, QwantError>)
    ensures
        r matches Ok(m) ==> media_matches(m, *j),
        r is Err ==> forall|m: Media| !media_matches(m, *j),
{
    let fs = match j {
        Json::Obj(fs) => fs,
        _ => {
            return Err(QwantError::DecodeError);
        },
    };
    let url = match get_str(fs, "url") {
        Ok(v) => v,
        Err(e) => {
            return Err(e);
        },
    };
    let width = match get_u64(fs, "width") {
        Ok(v) => v,
        Err(e) => {
            return Err(e);
        },
    };
    let height = match get_u64(fs, "height") {
        Ok(v) => v,
        Err(e) => {
            return Err(e);
        },
    };
    let type_ = match get_str(fs, "type_") {
        Ok(v) => v,
        Err(e) => {
            return Err(e);
        },
    };
    Ok(Media { url, width, height, type_ })
}

/// Encodes one media record.
pub fn encode_media(m: &Media) -> (r: Json)
    ensures
        media_matches(*m, r),
{
    let mut fs: Vec<(String, Json)> = Vec::new();
    push_field(&mut fs, "url", Json::Str(m.url.clone()));
    push_field(&mut fs, "width", Json::UInt(m.width));
    push_field(&mut fs, "height", Json::UInt(m.height));
    push_field(&mut fs, "type_", Json::Str(m.type_.clone()));
    proof {
        reveal_strlit("url");
        reveal_strlit("width");
        reveal_strlit("height");
        reveal_strlit("type_");
        assert("url"@[0] == 'u' && "width"@[0] == 'w' && "height"@[0] == 'h' && "type_"@[0] == 't');
        lemma_obj_lookup_at(fs@, "url"@, 0);
        lemma_obj_lookup_at(fs@, "width"@, 1);
        lemma_obj_lookup_at(fs@, "height"@, 2);
        lemma_obj_lookup_at(fs@, "type_"@, 3);
    }
    Json::Obj(fs)
}

} // verus!

// ---------------------------------------------------------------------
// Lists of facet values.
// ---------------------------------------------------------------------

verus! {

/// The trees of `arr` carry the facet values of `vs`, item by item.
pub open spec fn values_list_matches(vs: Seq<Values>, arr: Seq<Json>) -> bool {
    vs.len() == arr.len() && (forall|i: int|
        0 <= i < vs.len() ==> values_matches(#[trigger] vs[i], arr[i]))
}

/// The two lists carry the same facet values.
pub open spec fn values_list_eq(a: Seq<Values>, b: Seq<Values>) -> bool {
    a.len() == b.len() && (forall|i: int| 0 <= i < a.len() ==> values_eq(#[trigger] a[i], b[i]))
}

/// A list of trees carries at most one list of facet values.
pub proof fn lemma_values_list_unique(a: Seq<Values>, b: Seq<Values>, arr: Seq<Json>)
    requires
        values_list_matches(a, arr),
        values_list_matches(b, arr),
    ensures
        values_list_eq(a, b),
{
    assert forall|i: int| 0 <= i < a.len() implies values_eq(#[trigger] a[i], b[i]) by {
        lemma_values_unique(a[i], b[i], arr[i]);
    }
}

/// Decodes a list of facet values; fails exactly when some element tree
/// carries none.
pub fn decode_values_list(arr: &Vec<Json>) -> (r: Result<Vec<Values>, QwantError>)
    ensures
        r matches Ok(vs) ==> values_list_matches(vs@, arr@),
        r is Err ==> forall|vs: Seq<Values>| !values_list_matches(vs, arr@),
{
    let mut out: Vec<Values> = Vec::new();
    let mut i: usize = 0;
    while i < arr.len()
        invariant
            i <= arr@.len(),
            out@.len() == i,
            forall|m: int| 0 <= m < i ==> values_matches(#[trigger] out@[m], arr@[m]),
        decreases arr@.len() - i,
    {
        match decode_values(&arr[i]) {
            Ok(v) => out.push(v),
            Err(e) => {
                proof {
                    let gi = i as int;
                    assert forall|vs: Seq<Values>| !values_list_matches(vs, arr@) by {
                        if values_list_matches(vs, arr@) {
                            assert(values_matches(vs[gi], arr@[gi]));
                        }
                    }
                }
                return Err(e);
            },
        }
        i = i + 1;
    }
    Ok(out)
}

/// Encodes a list of facet values.
pub fn encode_values_list(vs: &Vec<Values>) -> (r: Vec<Json>)
    ensures
        values_list_matches(vs@, r@),
{
    let mut out: Vec<Json> = Vec::new();
    let mut i: usize = 0;
    while i < vs.len()
        invariant
            i <= vs@.len(),
            out@.len() == i,
            forall|m: int| 0 <= m < i ==> values_matches(#[trigger] vs@[m], out@[m]),
        decreases vs@.len() - i,
    {
        let j = encode_values(&vs[i]);
        out.push(j);
        i = i + 1;
    }
    out
}

} // verus!

// ---------------------------------------------------------------------
// The size facet.
// ---------------------------------------------------------------------

verus! {

/// The tree `j` carries the size facet `f`.
pub open spec fn size_matches(f: Size, j: Json) -> bool {
    match j {
        Json::Obj(fs) => {
            &&& str_req(fs@, "label"@) == Some(f.label@)
            &&& str_req(fs@, "name"@) == Some(f.name@)
            &&& str_req(fs@, "type"@) == Some(f.type_@)
            &&& str_req(fs@, "selected"@) == Some(f.selected@)
            &&& match obj_lookup(fs@, "values"@) {
                Some(Json::Arr(a)) => values_list_matches(f.values@, a@),
                _ => false,
            }
        },
        _ => false,
    }
}

/// The two facets carry the same content.
pub open spec fn size_eq(a: Size, b: Size) -> bool {
    a.label@ == b.label@ && a.name@ == b.name@ && a.type_@ == b.type_@ && a.selected@
        == b.selected@ && values_list_eq(a.values@, b.values@)
}

/// A tree carries at most one size facet.
pub proof fn lemma_size_unique(a: Size, b: Size, j: Json)
    requires
        size_matches(a, j),
        size_matches(b, j),
    ensures
        size_eq(a, b),
{
    match j {
        Json::Obj(fs) => match obj_lookup(fs@, "values"@) {
            Some(Json::Arr(arr)) => {
                lemma_values_list_unique(a.values@, b.values@, arr@);
            },
            _ => {},
        },
        _ => {},
    }
}

/// Decodes one size facet; fails exactly when the tree carries
/// none.
pub fn decode_size(j: &Json) -> (r: Result<Size, QwantError>)
    ensures
        r matches Ok(f) ==> size_matches(f, *j),
        r is Err ==> forall|f: Size| !size_matches(f, *j),
{
    let fs = match j {
        Json::Obj(fs) => fs,
        _ => {
            return Err(QwantError::DecodeError);
        },
    };
    let label = get_str(fs, "label")?;
    let name = get_str(fs, "name")?;
    let type_ = get_str(fs, "type")?;
    let selected = get_str(fs, "selected")?;
    let arr = match obj_get(fs, "values") {
        Some(jv) => match jv {
            Json::Arr(a) => a,
            _ => {
                return Err(QwantError::DecodeError);
            },
        },
        None => {
            return Err(QwantError::DecodeError);
        },
    };
    match decode_values_list(arr) {
        Ok(values) => Ok(Size { label, name, type_, selected, values }),
        Err(e) => {
            proof {
                assert forall|f: Size| !size_matches(f, *j) by {
                    if size_matches(f, *j) {
                        assert(values_list_matches(f.values@, arr@));
                    }
                }
            }
            Err(e)
        },
    }
}

/// Encodes one size facet.
pub fn encode_size(f: &Size) -> (r: Json)
    ensures
        size_matches(*f, r),
{
    let values = encode_values_list(&f.values);
    let mut fs: Vec<(String, Json)> = Vec::new();
    push_field(&mut fs, "label", Json::Str(f.label.clone()));
    push_field(&mut fs, "name", Json::Str(f.name.clone()));
    push_field(&mut fs, "type", Json::Str(f.type_.clone()));
    push_field(&mut fs, "selected", Json::Str(f.selected.clone()));
    push_field(&mut fs, "values", Json::Arr(values));
    proof {
        reveal_strlit("label");
        reveal_strlit("name");
        reveal_strlit("type");
        reveal_strlit("selected");
        reveal_strlit("values");
        assert("label"@[0] == 'l' && "name"@[0] == 'n' && "type"@[0] == 't' && "selected"@[0]
            == 's' && "values"@[0] == 'v');
        lemma_obj_lookup_at(fs@, "label"@, 0);
        lemma_obj_lookup_at(fs@, "name"@, 1);
        lemma_obj_lookup_at(fs@, "type"@, 2);
        lemma_obj_lookup_at(fs@, "selected"@, 3);
        lemma_obj_lookup_at(fs@, "values"@, 4);
    }
    Json::Obj(fs)
}

} // verus!

// ---------------------------------------------------------------------
// The license facet.
// ---------------------------------------------------------------------

verus! {

/// The tree `j` carries the license facet `f`.
pub open spec fn license_matches(f: License, j: Json) -> bool {
    match j {
        Json::Obj(fs) => {
            &&& str_req(fs@, "label"@) == Some(f.label@)
            &&& str_req(fs@, "name"@) == Some(f.name@)
            &&& str_req(fs@, "type"@) == Some(f.type_@)
            &&& str_req(fs@, "selected"@) == Some(f.selected@)
            &&& match obj_lookup(fs@, "values"@) {
                Some(Json::Arr(a)) => values_list_matches(f.values@, a@),
                _ => false,
            }
        },
        _ => false,
    }
}

/// The two facets carry the same content.
pub open spec fn license_eq(a: License, b: License) -> bool {
    a.label@ == b.label@ && a.name@ == b.name@ && a.type_@ == b.type_@ && a.selected@
        == b.selected@ && values_list_eq(a.values@, b.values@)
}

/// A tree carries at most one license facet.
pub proof fn lemma_license_unique(a: License, b: License, j: Json)
    requires
        license_matches(a, j),
        license_matches(b, j),
    ensures
        license_eq(a, b),
{
    match j {
        Json::Obj(fs) => match obj_lookup(fs@, "values"@) {
            Some(Json::Arr(arr)) => {
                lemma_values_list_unique(a.values@, b.values@, arr@);
            },
            _ => {},
        },
        _ => {},
    }
}

/// Decodes one license facet; fails exactly when the tree carries
/// none.
pub fn decode_license(j: &Json) -> (r: Result<License, QwantError>)
    ensures
        r matches Ok(f) ==> license_matches(f, *j),
        r is Err ==> forall|f: License| !license_matches(f, *j),
{
    let fs = match j {
        Json::Obj(fs) => fs,
        _ => {
            return Err(QwantError::DecodeError);
        },
    };
    let label = get_str(fs, "label")?;
    let name = get_str(fs, "name")?;
    let type_ = get_str(fs, "type")?;
    let selected = get_str(fs, "selected")?;
    let arr = match obj_get(fs, "values") {
        Some(jv) => match jv {
            Json::Arr(a) => a,
            _ => {
                return Err(QwantError::DecodeError);
            },
        },
        None => {
            return Err(QwantError::DecodeError);
        },
    };
    match decode_values_list(arr) {
        Ok(values) => Ok(License { label, name, type_, selected, values }),
        Err(e) => {
            proof {
                assert forall|f: License| !license_matches(f, *j) by {
                    if license_matches(f, *j) {
                        assert(values_list_matches(f.values@, arr@));
                    }
                }
            }
            Err(e)
        },
    }
}

/// Encodes one license facet.
pub fn encode_license(f: &License) -> (r: Json)
    ensures
        license_matches(*f, r),
{
    let values = encode_values_list(&f.values);
    let mut fs: Vec<(String, Json)> = Vec::new();
    push_field(&mut fs, "label", Json::Str(f.label.clone()));
    push_field(&mut fs, "name", Json::Str(f.name.clone()));
    push_field(&mut fs, "type", Json::Str(f.type_.clone()));
    push_field(&mut fs, "selected", Json::Str(f.selected.clone()));
    push_field(&mut fs, "values", Json::Arr(values));
    proof {
        reveal_strlit("label");
        reveal_strlit("name");
        reveal_strlit("type");
        reveal_strlit("selected");
        reveal_strlit("values");
        assert("label"@[0] == 'l' && "name"@[0] == 'n' && "type"@[0] == 't' && "selected"@[0]
            == 's' && "values"@[0] == 'v');
        lemma_obj_lookup_at(fs@, "label"@, 0);
        lemma_obj_lookup_at(fs@, "name"@, 1);
        lemma_obj_lookup_at(fs@, "type"@, 2);
        lemma_obj_lookup_at(fs@, "selected"@, 3);
        lemma_obj_lookup_at(fs@, "values"@, 4);
    }
    Json::Obj(fs)
}

} // verus!

// ---------------------------------------------------------------------
// The freshness facet.
// ---------------------------------------------------------------------

verus! {

/// The tree `j` carries the freshness facet `f`.
pub open spec fn freshness_matches(f: Freshness, j: Json) -> bool {
    match j {
        Json::Obj(fs) => {
            &&& str_req(fs@, "label"@) == Some(f.label@)
            &&& str_req(fs@, "name"@) == Some(f.name@)
            &&& str_req(fs@, "type"@) == Some(f.type_@)
            &&& str_req(fs@, "selected"@) == Some(f.selected@)
            &&& match obj_lookup(fs@, "values"@) {
                Some(Json::Arr(a)) => values_list_matches(f.values@, a@),
                _ => false,
            }
        },
        _ => false,
    }
}

/// The two facets carry the same content.
pub open spec fn freshness_eq(a: Freshness, b: Freshness) -> bool {
    a.label@ == b.label@ && a.name@ == b.name@ && a.type_@ == b.type_@ && a.selected@
        == b.selected@ && values_list_eq(a.values@, b.values@)
}

/// A tree carries at most one freshness facet.
pub proof fn lemma_freshness_unique(a: Freshness, b: Freshness, j: Json)
    requires
        freshness_matches(a, j),
        freshness_matches(b, j),
    ensures
        freshness_eq(a, b),
{
    match j {
        Json::Obj(fs) => match obj_lookup(fs@, "values"@) {
            Some(Json::Arr(arr)) => {
                lemma_values_list_unique(a.values@, b.values@, arr@);
            },
            _ => {},
        },
        _ => {},
    }
}

/// Decodes one freshness facet; fails exactly when the tree carries
/// none.
pub fn decode_freshness(j: &Json) -> (r: Result<Freshness, QwantError>)
    ensures
        r matches Ok(f) ==> freshness_matches(f, *j),
        r is Err ==> forall|f: Freshness| !freshness_matches(f, *j),
{
    let fs = match j {
        Json::Obj(fs) => fs,
        _ => {
            return Err(QwantError::DecodeError);
        },
    };
    let label = get_str(fs, "label")?;
    let name = get_str(fs, "name")?;
    let type_ = get_str(fs, "type")?;
    let selected = get_str(fs, "selected")?;
    let arr = match obj_get(fs, "values") {
        Some(jv) => match jv {
            Json::Arr(a) => a,
            _ => {
                return Err(QwantError::DecodeError);
            },
        },
        None => {
            return Err(QwantError::DecodeError);
        },
    };
    match decode_values_list(arr) {
        Ok(values) => Ok(Freshness { label, name, type_, selected, values }),
        Err(e) => {
            proof {
                assert forall|f: Freshness| !freshness_matches(f, *j) by {
                    if freshness_matches(f, *j) {
                        assert(values_list_matches(f.values@, arr@));
                    }
                }
            }
            Err(e)
        },
    }
}

/// Encodes one freshness facet.
pub fn encode_freshness(f: &Freshness) -> (r: Json)
    ensures
        freshness_matches(*f, r),
{
    let values = encode_values_list(&f.values);
    let mut fs: Vec<(String, Json)> = Vec::new();
    push_field(&mut fs, "label", Json::Str(f.label.clone()));
    push_field(&mut fs, "name", Json::Str(f.name.clone()));
    push_field(&mut fs, "type", Json::Str(f.type_.clone()));
    push_field(&mut fs, "selected", Json::Str(f.selected.clone()));
    push_field(&mut fs, "values", Json::Arr(values));
    proof {
        reveal_strlit("label");
        reveal_strlit("name");
        reveal_strlit("type");
        reveal_strlit("selected");
        reveal_strlit("values");
        assert("label"@[0] == 'l' && "name"@[0] == 'n' && "type"@[0] == 't' && "selected"@[0]
            == 's' && "values"@[0] == 'v');
        lemma_obj_lookup_at(fs@, "label"@, 0);
        lemma_obj_lookup_at(fs@, "name"@, 1);
        lemma_obj_lookup_at(fs@, "type"@, 2);
        lemma_obj_lookup_at(fs@, "selected"@, 3);
        lemma_obj_lookup_at(fs@, "values"@, 4);
    }
    Json::Obj(fs)
}

} // verus!

// ---------------------------------------------------------------------
// Cache metadata and the echoed query.
// ---------------------------------------------------------------------

verus! {

/// The tree `j` carries the cache record `c`.
pub open spec fn cache_matches(c: Cache, j: Json) -> bool {
    match j {
        Json::Obj(fs) => {
            &&& str_req(fs@, "key"@) == Some(c.key@)
            &&& u64_req(fs@, "created"@) == Some(c.created)
            &&& u64_req(fs@, "expiration"@) == Some(c.expiration)
            &&& str_req(fs@, "status"@) == Some(c.status@)
            &&& u64_req(fs@, "age"@) == Some(c.age)
        },
        _ => false,
    }
}

/// The two cache records carry the same content.
pub open spec fn cache_eq(a: Cache, b: Cache) -> bool {
    a.key@ == b.key@ && a.created == b.created && a.expiration == b.expiration && a.status@
        == b.status@ && a.age == b.age
}

/// A tree carries at most one cache record.
pub proof fn lemma_cache_unique(a: Cache, b: Cache, j: Json)
    requires
        cache_matches(a, j),
        cache_matches(b, j),
    ensures
        cache_eq(a, b),
{
}

/// Decodes one cache record; fails exactly when the tree carries none.
pub fn decode_cache(j: &Json) -> (r: Result<Cache, QwantError>)
    ensures
        r matches Ok(c) ==> cache_matches(c, *j),
        r is Err ==> forall|c: Cache| !cache_matches(c, *j),
{
    let fs = match j {
        Json::Obj(fs) => fs,
        _ => {
            return Err(QwantError::DecodeError);
        },
    };
    let key = get_str(fs, "key")?;
    let created = get_u64(fs, "created")?;
    let expiration = get_u64(fs, "expiration")?;
    let status = get_str(fs, "status")?;
    let age = get_u64(fs, "age")?;
    Ok(Cache { key, created, expiration, status, age })
}

/// Encodes one cache record.
pub fn encode_cache(c: &Cache) -> (r: Json)
    ensures
        cache_matches(*c, r),
{
    let mut fs: Vec<(String, Json)> = Vec::new();
    push_field(&mut fs, "key", Json::Str(c.key.clone()));
    push_field(&mut fs, "created", Json::UInt(c.created));
    push_field(&mut fs, "expiration", Json::UInt(c.expiration));
    push_field(&mut fs, "status", Json::Str(c.status.clone()));
    push_field(&mut fs, "age", Json::UInt(c.age));
    proof {
        reveal_strlit("key");
        reveal_strlit("created");
        reveal_strlit("expiration");
        reveal_strlit("status");
        reveal_strlit("age");
        assert("key"@[0] == 'k' && "created"@[0] == 'c' && "expiration"@[0] == 'e' && "status"@[0]
            == 's' && "age"@[0] == 'a');
        lemma_obj_lookup_at(fs@, "key"@, 0);
        lemma_obj_lookup_at(fs@, "created"@, 1);
        lemma_obj_lookup_at(fs@, "expiration"@, 2);
        lemma_obj_lookup_at(fs@, "status"@, 3);
        lemma_obj_lookup_at(fs@, "age"@, 4);
    }
    Json::Obj(fs)
}

/// The tree `j` carries the echoed query `q`.
pub open spec fn query_matches(q: Query, j: Json) -> bool {
    match j {
        Json::Obj(fs) => {
            &&& str_req(fs@, "locale"@) == Some(q.locale@)
            &&& str_req(fs@, "query"@) == Some(q.query@)
            &&& u32_req(fs@, "offset"@) == Some(q.offset)
        },
        _ => false,
    }
}

/// The two echoed queries carry the same content.
pub open spec fn query_eq(a: Query, b: Query) -> bool {
    a.locale@ == b.locale@ && a.query@ == b.query@ && a.offset == b.offset
}

/// A tree carries at most one echoed query.
pub proof fn lemma_query_unique(a: Query, b: Query, j: Json)
    requires
        query_matches(a, j),
        query_matches(b, j),
    ensures
        query_eq(a, b),
{
}

/// Decodes one echoed query; fails exactly when the tree carries none.
pub fn decode_query(j: &Json) -> (r: Result<Query, QwantError>)
    ensures
        r matches Ok(q) ==> query_matches(q, *j),
        r is Err ==> forall|q: Query| !query_matches(q, *j),
{
    let fs = match j {
        Json::Obj(fs) => fs,
        _ => {
            return Err(QwantError::DecodeError);
        },
    };
    let locale = get_str(fs, "locale")?;
    let query = get_str(fs, "query")?;
    let offset = get_u32(fs, "offset")?;
    Ok(Query { locale, query, offset })
}

/// Encodes one echoed query.
pub fn encode_query(q: &Query) -> (r: Json)
    ensures
        query_matches(*q, r),
{
    let mut fs: Vec<(String, Json)> = Vec::new();
    push_field(&mut fs, "locale", Json::Str(q.locale.clone()));
    push_field(&mut fs, "query", Json::Str(q.query.clone()));
    push_field(&mut fs, "offset", Json::UInt(q.offset as u64));
    proof {
        reveal_strlit("locale");
        reveal_strlit("query");
        reveal_strlit("offset");
        assert("locale"@[0] == 'l' && "query"@[0] == 'q' && "offset"@[0] == 'o');
        lemma_obj_lookup_at(fs@, "locale"@, 0);
        lemma_obj_lookup_at(fs@, "query"@, 1);
        lemma_obj_lookup_at(fs@, "offset"@, 2);
    }
    Json::Obj(fs)
}

} // verus!

// ---------------------------------------------------------------------
// Items and their embedded media lists.
// ---------------------------------------------------------------------

verus! {

/// The trees of `arr` carry the media records of `ms`, item by item.
pub open spec fn media_list_matches(ms: Seq<Media>, arr: Seq<Json>) -> bool {
    ms.len() == arr.len() && (forall|i: int|
        0 <= i < ms.len() ==> media_matches(#[trigger] ms[i], arr[i]))
}

/// The two lists carry the same media records.
pub open spec fn media_list_eq(a: Seq<Media>, b: Seq<Media>) -> bool {
    a.len() == b.len() && (forall|i: int| 0 <= i < a.len() ==> media_eq(#[trigger] a[i], b[i]))
}

/// A list of trees carries at most one list of media records.
pub proof fn lemma_media_list_unique(a: Seq<Media>, b: Seq<Media>, arr: Seq<Json>)
    requires
        media_list_matches(a, arr),
        media_list_matches(b, arr),
    ensures
        media_list_eq(a, b),
{
    assert forall|i: int| 0 <= i < a.len() implies media_eq(#[trigger] a[i], b[i]) by {
        lemma_media_unique(a[i], b[i], arr[i]);
    }
}

/// Decodes a list of media records; fails exactly when some element tree
/// carries none.
pub fn decode_media_list(arr: &Vec<Json>) -> (r: Result<Vec<Media>, QwantError>)
    ensures
        r matches Ok(ms) ==> media_list_matches(ms@, arr@),
        r is Err ==> forall|ms: Seq<Media>| !media_list_matches(ms, arr@),
{
    let mut out: Vec<Media> = Vec::new();
    let mut i: usize = 0;
    while i < arr.len()
        invariant
            i <= arr@.len(),
            out@.len() == i,
            forall|m: int| 0 <= m < i ==> media_matches(#[trigger] out@[m], arr@[m]),
        decreases arr@.len() - i,
    {
        match decode_media(&arr[i]) {
            Ok(v) => out.push(v),
            Err(e) => {
                proof {
                    let gi = i as int;
                    assert forall|ms: Seq<Media>| !media_list_matches(ms, arr@) by {
                        if media_list_matches(ms, arr@) {
                            assert(media_matches(ms[gi], arr@[gi]));
                        }
                    }
                }
                return Err(e);
            },
        }
        i = i + 1;
    }
    Ok(out)
}

/// Encodes a list of media records.
pub fn encode_media_list(ms: &Vec<Media>) -> (r: Vec<Json>)
    ensures
        media_list_matches(ms@, r@),
{
    let mut out: Vec<Json> = Vec::new();
    let mut i: usize = 0;
    while i < ms.len()
        invariant
            i <= ms@.len(),
            out@.len() == i,
            forall|m: int| 0 <= m < i ==> media_matches(#[trigger] ms@[m], out@[m]),
        decreases ms@.len() - i,
    {
        let j = encode_media(&ms[i]);
        out.push(j);
        i = i + 1;
    }
    out
}

/// The tree `j` carries the item `it`.
pub open spec fn item_matches(it: Item, j: Json) -> bool {
    match j {
        Json::Obj(fs) => {
            &&& str_req(fs@, "title"@) == Some(it.title@)
            &&& str_req(fs@, "_id"@) == Some(it._id@)
            &&& opt_str(fs@, "type"@) == Some(opt_str_view(it.type_))
            &&& opt_str(fs@, "favicon"@) == Some(opt_str_view(it.favicon))
            &&& str_req(fs@, "url"@) == Some(it.url@)
            &&& opt_str(fs@, "source"@) == Some(opt_str_view(it.source))
            &&& str_req(fs@, "desc"@) == Some(it.desc@)
            &&& opt_str(fs@, "desc_short"@) == Some(opt_str_view(it.desc_short))
            &&& opt_u64(fs@, "position"@) == Some(it.position)
            &&& opt_u64(fs@, "duration"@) == Some(it.duration)
            &&& opt_str(fs@, "thumbnail"@) == Some(opt_str_view(it.thumbnail))
            &&& opt_u64(fs@, "thumb_height"@) == Some(it.thumb_height)
            &&& opt_u64(fs@, "thumb_width"@) == Some(it.thumb_width)
            &&& opt_str(fs@, "thumb_type"@) == Some(opt_str_view(it.thumb_type))
            &&& opt_str(fs@, "width"@) == Some(opt_str_view(it.width))
            &&& opt_str(fs@, "height"@) == Some(opt_str_view(it.height))
            &&& opt_str(fs@, "size"@) == Some(opt_str_view(it.size))
            &&& opt_str(fs@, "b_id"@) == Some(opt_str_view(it.b_id))
            &&& opt_str(fs@, "media_fullsize"@) == Some(opt_str_view(it.media_fullsize))
            &&& opt_u64(fs@, "count"@) == Some(it.count)
            &&& opt_str(fs@, "domain"@) == Some(opt_str_view(it.domain))
            &&& opt_u64(fs@, "date"@) == Some(it.date)
            &&& opt_str(fs@, "media"@) == Some(opt_str_view(it.media))
            &&& match obj_lookup(fs@, "media_"@) {
                None => it.media_ is None,
                Some(Json::Null) => it.media_ is None,
                Some(Json::Arr(a)) => it.media_ matches Some(ms) && media_list_matches(ms@, a@),
                Some(_) => false,
            }
        },
        _ => false,
    }
}

/// The two items carry the same content.
pub open spec fn item_eq(a: Item, b: Item) -> bool {
    &&& a.title@ == b.title@
    &&& a._id@ == b._id@
    &&& opt_str_view(a.type_) == opt_str_view(b.type_)
    &&& opt_str_view(a.favicon) == opt_str_view(b.favicon)
    &&& a.url@ == b.url@
    &&& opt_str_view(a.source) == opt_str_view(b.source)
    &&& a.desc@ == b.desc@
    &&& opt_str_view(a.desc_short) == opt_str_view(b.desc_short)
    &&& a.position == b.position
    &&& a.duration == b.duration
    &&& opt_str_view(a.thumbnail) == opt_str_view(b.thumbnail)
    &&& a.thumb_height == b.thumb_height
    &&& a.thumb_width == b.thumb_width
    &&& opt_str_view(a.thumb_type) == opt_str_view(b.thumb_type)
    &&& opt_str_view(a.width) == opt_str_view(b.width)
    &&& opt_str_view(a.height) == opt_str_view(b.height)
    &&& opt_str_view(a.size) == opt_str_view(b.size)
    &&& opt_str_view(a.b_id) == opt_str_view(b.b_id)
    &&& opt_str_view(a.media_fullsize) == opt_str_view(b.media_fullsize)
    &&& a.count == b.count
    &&& opt_str_view(a.domain) == opt_str_view(b.domain)
    &&& a.date == b.date
    &&& opt_str_view(a.media) == opt_str_view(b.media)
    &&& match (a.media_, b.media_) {
        (None, None) => true,
        (Some(x), Some(y)) => media_list_eq(x@, y@),
        _ => false,
    }
}

/// A tree carries at most one item.
pub proof fn lemma_item_unique(a: Item, b: Item, j: Json)
    requires
        item_matches(a, j),
        item_matches(b, j),
    ensures
        item_eq(a, b),
{
    match j {
        Json::Obj(fs) => match obj_lookup(fs@, "media_"@) {
            Some(Json::Arr(arr)) => {
                let x = a.media_.unwrap();
                let y = b.media_.unwrap();
                lemma_media_list_unique(x@, y@, arr@);
            },
            _ => {},
        },
        _ => {},
    }
}

/// Decodes one item; fails exactly when the tree carries none.
pub fn decode_item(j: &Json) -> (r: Result<Item, QwantError>)
    ensures
        r matches Ok(it) ==> item_matches(it, *j),
        r is Err ==> forall|it: Item| !item_matches(it, *j),
{
    let fs = match j {
        Json::Obj(fs) => fs,
        _ => {
            return Err(QwantError::DecodeError);
        },
    };
    let title = get_str(fs, "title")?;
    let _id = get_str(fs, "_id")?;
    let type_ = get_opt_str(fs, "type")?;
    let favicon = get_opt_str(fs, "favicon")?;
    let url = get_str(fs, "url")?;
    let source = get_opt_str(fs, "source")?;
    let desc = get_str(fs, "desc")?;
    let desc_short = get_opt_str(fs, "desc_short")?;
    let position = get_opt_u64(fs, "position")?;
    let duration = get_opt_u64(fs, "duration")?;
    let thumbnail = get_opt_str(fs, "thumbnail")?;
    let thumb_height = get_opt_u64(fs, "thumb_height")?;
    let thumb_width = get_opt_u64(fs, "thumb_width")?;
    let thumb_type = get_opt_str(fs, "thumb_type")?;
    let width = get_opt_str(fs, "width")?;
    let height = get_opt_str(fs, "height")?;
    let size = get_opt_str(fs, "size")?;
    let b_id = get_opt_str(fs, "b_id")?;
    let media_fullsize = get_opt_str(fs, "media_fullsize")?;
    let count = get_opt_u64(fs, "count")?;
    let domain = get_opt_str(fs, "domain")?;
    let date = get_opt_u64(fs, "date")?;
    let media = get_opt_str(fs, "media")?;
    let media_ = match obj_get(fs, "media_") {
        None => None,
        Some(jm) => match jm {
            Json::Null => None,
            Json::Arr(a) => match decode_media_list(a) {
                Ok(ms) => Some(ms),
                Err(e) => {
                    proof {
                        assert forall|it: Item| !item_matches(it, *j) by {
                            if item_matches(it, *j) {
                                let ms = it.media_.unwrap();
                                assert(media_list_matches(ms@, a@));
                            }
                        }
                    }
                    return Err(e);
                },
            },
            _ => {
                return Err(QwantError::DecodeError);
            },
        },
    };
    Ok(Item {
        title,
        _id,
        type_,
        favicon,
        url,
        source,
        desc,
        desc_short,
        position,
        duration,
        thumbnail,
        thumb_height,
        thumb_width,
        thumb_type,
        width,
        height,
        size,
        b_id,
        media_fullsize,
        count,
        domain,
        date,
        media,
        media_,
    })
}

/// Encodes one item; optional fields an item leaves out are written as
/// `null`.
#[verifier::rlimit(100)]
pub fn encode_item(it: &Item) -> (r: Json)
    ensures
        item_matches(*it, r),
{
    let media_ = match &it.media_ {
        None => Json::Null,
        Some(ms) => Json::Arr(encode_media_list(ms)),
    };
    let mut fs: Vec<(String, Json)> = Vec::new();
    push_field(&mut fs, "title", Json::Str(it.title.clone()));
    push_field(&mut fs, "_id", Json::Str(it._id.clone()));
    push_field(&mut fs, "type", opt_str_json(&it.type_));
    push_field(&mut fs, "favicon", opt_str_json(&it.favicon));
    push_field(&mut fs, "url", Json::Str(it.url.clone()));
    push_field(&mut fs, "source", opt_str_json(&it.source));
    push_field(&mut fs, "desc", Json::Str(it.desc.clone()));
    push_field(&mut fs, "desc_short", opt_str_json(&it.desc_short));
    push_field(&mut fs, "position", opt_u64_json(&it.position));
    push_field(&mut fs, "duration", opt_u64_json(&it.duration));
    push_field(&mut fs, "thumbnail", opt_str_json(&it.thumbnail));
    push_field(&mut fs, "thumb_height", opt_u64_json(&it.thumb_height));
    push_field(&mut fs, "thumb_width", opt_u64_json(&it.thumb_width));
    push_field(&mut fs, "thumb_type", opt_str_json(&it.thumb_type));
    push_field(&mut fs, "width", opt_str_json(&it.width));
    push_field(&mut fs, "height", opt_str_json(&it.height));
    push_field(&mut fs, "size", opt_str_json(&it.size));
    push_field(&mut fs, "b_id", opt_str_json(&it.b_id));
    push_field(&mut fs, "media_fullsize", opt_str_json(&it.media_fullsize));
    push_field(&mut fs, "count", opt_u64_json(&it.count));
    push_field(&mut fs, "domain", opt_str_json(&it.domain));
    push_field(&mut fs, "date", opt_u64_json(&it.date));
    push_field(&mut fs, "media", opt_str_json(&it.media));
    push_field(&mut fs, "media_", media_);
    proof {
        reveal_strlit("title");
        reveal_strlit("_id");
        reveal_strlit("type");
        reveal_strlit("favicon");
        reveal_strlit("url");
        reveal_strlit("source");
        reveal_strlit("desc");
        reveal_strlit("desc_short");
        reveal_strlit("position");
        reveal_strlit("duration");
        reveal_strlit("thumbnail");
        reveal_strlit("thumb_height");
        reveal_strlit("thumb_width");
        reveal_strlit("thumb_type");
        reveal_strlit("width");
        reveal_strlit("height");
        reveal_strlit("size");
        reveal_strlit("b_id");
        reveal_strlit("media_fullsize");
        reveal_strlit("count");
        reveal_strlit("domain");
        reveal_strlit("date");
        reveal_strlit("media");
        reveal_strlit("media_");
        assert("title"@[0] == 't' && "_id"@[0] == '_' && "type"@[0] == 't' && "favicon"@[0] == 'f'
            && "url"@[0] == 'u' && "source"@[0] == 's' && "desc"@[0] == 'd' && "desc_short"@[0]
            == 'd' && "position"@[0] == 'p' && "duration"@[0] == 'd' && "thumbnail"@[0] == 't'
            && "thumb_height"@[0] == 't' && "thumb_width"@[0] == 't' && "thumb_type"@[0] == 't'
            && "width"@[0] == 'w' && "height"@[0] == 'h' && "size"@[0] == 's' && "b_id"@[0] == 'b'
            && "media_fullsize"@[0] == 'm' && "count"@[0] == 'c' && "domain"@[0] == 'd'
            && "date"@[0] == 'd' && "media"@[0] == 'm' && "media_"@[0] == 'm');
        assert("title"@[1] == 'i' && "type"@[1] == 'y' && "thumbnail"@[1] == 'h'
            && "thumb_height"@[1] == 'h' && "thumb_width"@[1] == 'h' && "thumb_type"@[1] == 'h');
        assert("thumbnail"@[5] == 'n' && "thumb_height"@[5] == '_' && "thumb_width"@[5] == '_'
            && "thumb_type"@[5] == '_');
        assert("thumb_height"@[6] == 'h' && "thumb_width"@[6] == 'w' && "thumb_type"@[6] == 't');
        assert("desc"@.len() == 4 && "desc_short"@.len() == 10);
        assert("desc"@[1] == 'e' && "desc_short"@[1] == 'e' && "duration"@[1] == 'u'
            && "domain"@[1] == 'o' && "date"@[1] == 'a');
        assert("source"@[1] == 'o' && "size"@[1] == 'i');
        assert("media"@.len() == 5 && "media_"@.len() == 6 && "media_fullsize"@.len() == 14);
        lemma_obj_lookup_at(fs@, "title"@, 0);
        lemma_obj_lookup_at(fs@, "_id"@, 1);
        lemma_obj_lookup_at(fs@, "type"@, 2);
        lemma_obj_lookup_at(fs@, "favicon"@, 3);
        lemma_obj_lookup_at(fs@, "url"@, 4);
        lemma_obj_lookup_at(fs@, "source"@, 5);
        lemma_obj_lookup_at(fs@, "desc"@, 6);
        lemma_obj_lookup_at(fs@, "desc_short"@, 7);
        lemma_obj_lookup_at(fs@, "position"@, 8);
        lemma_obj_lookup_at(fs@, "duration"@, 9);
        lemma_obj_lookup_at(fs@, "thumbnail"@, 10);
        lemma_obj_lookup_at(fs@, "thumb_height"@, 11);
        lemma_obj_lookup_at(fs@, "thumb_width"@, 12);
        lemma_obj_lookup_at(fs@, "thumb_type"@, 13);
        lemma_obj_lookup_at(fs@, "width"@, 14);
        lemma_obj_lookup_at(fs@, "height"@, 15);
        lemma_obj_lookup_at(fs@, "size"@, 16);
        lemma_obj_lookup_at(fs@, "b_id"@, 17);
        lemma_obj_lookup_at(fs@, "media_fullsize"@, 18);
        lemma_obj_lookup_at(fs@, "count"@, 19);
        lemma_obj_lookup_at(fs@, "domain"@, 20);
        lemma_obj_lookup_at(fs@, "date"@, 21);
        lemma_obj_lookup_at(fs@, "media"@, 22);
        lemma_obj_lookup_at(fs@, "media_"@, 23);
    }
    Json::Obj(fs)
}

} // verus!

// ---------------------------------------------------------------------
// Result pages, filters, data and the envelope.
// ---------------------------------------------------------------------

verus! {

/// The trees of `arr` carry the items of `its`, item by item.
pub open spec fn item_list_matches(its: Seq<Item>, arr: Seq<Json>) -> bool {
    its.len() == arr.len() && (forall|i: int|
        0 <= i < its.len() ==> item_matches(#[trigger] its[i], arr[i]))
}

/// The two lists carry the same items.
pub open spec fn item_list_eq(a: Seq<Item>, b: Seq<Item>) -> bool {
    a.len() == b.len() && (forall|i: int| 0 <= i < a.len() ==> item_eq(#[trigger] a[i], b[i]))
}

/// A list of trees carries at most one list of items.
pub proof fn lemma_item_list_unique(a: Seq<Item>, b: Seq<Item>, arr: Seq<Json>)
    requires
        item_list_matches(a, arr),
        item_list_matches(b, arr),
    ensures
        item_list_eq(a, b),
{
    assert forall|i: int| 0 <= i < a.len() implies item_eq(#[trigger] a[i], b[i]) by {
        lemma_item_unique(a[i], b[i], arr[i]);
    }
}

/// Decodes a list of items; fails exactly when some element tree carries
/// none.
pub fn decode_item_list(arr: &Vec<Json>) -> (r: Result<Vec<Item>, QwantError>)
    ensures
        r matches Ok(its) ==> item_list_matches(its@, arr@),
        r is Err ==> forall|its: Seq<Item>| !item_list_matches(its, arr@),
{
    let mut out: Vec<Item> = Vec::new();
    let mut i: usize = 0;
    while i < arr.len()
        invariant
            i <= arr@.len(),
            out@.len() == i,
            forall|m: int| 0 <= m < i ==> item_matches(#[trigger] out@[m], arr@[m]),
        decreases arr@.len() - i,
    {
        match decode_item(&arr[i]) {
            Ok(v) => out.push(v),
            Err(e) => {
                proof {
                    let gi = i as int;
                    assert forall|its: Seq<Item>| !item_list_matches(its, arr@) by {
                        if item_list_matches(its, arr@) {
                            assert(item_matches(its[gi], arr@[gi]));
                        }
                    }
                }
                return Err(e);
            },
        }
        i = i + 1;
    }
    Ok(out)
}

/// Encodes a list of items.
pub fn encode_item_list(its: &Vec<Item>) -> (r: Vec<Json>)
    ensures
        item_list_matches(its@, r@),
{
    let mut out: Vec<Json> = Vec::new();
    let mut i: usize = 0;
    while i < its.len()
        invariant
            i <= its@.len(),
            out@.len() == i,
            forall|m: int| 0 <= m < i ==> item_matches(#[trigger] its@[m], out@[m]),
        decreases its@.len() - i,
    {
        let j = encode_item(&its[i]);
        out.push(j);
        i = i + 1;
    }
    out
}

/// The tree `j` carries the filters record `f`.
pub open spec fn filters_matches(f: Filters, j: Json) -> bool {
    match j {
        Json::Obj(fs) => {
            &&& match obj_lookup(fs@, "freshness"@) {
                Some(jf) => freshness_matches(f.freshness, jf),
                None => false,
            }
            &&& match obj_lookup(fs@, "size"@) {
                None => f.size is None,
                Some(Json::Null) => f.size is None,
                Some(js) => f.size matches Some(s) && size_matches(s, js),
            }
            &&& match obj_lookup(fs@, "license"@) {
                None => f.license is None,
                Some(Json::Null) => f.license is None,
                Some(jl) => f.license matches Some(l) && license_matches(l, jl),
            }
        },
        _ => false,
    }
}

/// The two filters records carry the same content.
pub open spec fn filters_eq(a: Filters, b: Filters) -> bool {
    &&& freshness_eq(a.freshness, b.freshness)
    &&& match (a.size, b.size) {
        (None, None) => true,
        (Some(x), Some(y)) => size_eq(x, y),
        _ => false,
    }
    &&& match (a.license, b.license) {
        (None, None) => true,
        (Some(x), Some(y)) => license_eq(x, y),
        _ => false,
    }
}

/// A tree carries at most one filters record.
pub proof fn lemma_filters_unique(a: Filters, b: Filters, j: Json)
    requires
        filters_matches(a, j),
        filters_matches(b, j),
    ensures
        filters_eq(a, b),
{
    match j {
        Json::Obj(fs) => {
            match obj_lookup(fs@, "freshness"@) {
                Some(jf) => {
                    lemma_freshness_unique(a.freshness, b.freshness, jf);
                },
                None => {},
            }
            match obj_lookup(fs@, "size"@) {
                Some(js) => {
                    if !(js is Null) {
                        lemma_size_unique(a.size.unwrap(), b.size.unwrap(), js);
                    }
                },
                None => {},
            }
            match obj_lookup(fs@, "license"@) {
                Some(jl) => {
                    if !(jl is Null) {
                        lemma_license_unique(a.license.unwrap(), b.license.unwrap(), jl);
                    }
                },
                None => {},
            }
        },
        _ => {},
    }
}

/// Decodes one filters record; fails exactly when the tree carries none.
pub fn decode_filters(j: &Json) -> (r: Result<Filters, QwantError>)
    ensures
        r matches Ok(f) ==> filters_matches(f, *j),
        r is Err ==> forall|f: Filters| !filters_matches(f, *j),
{
    let fs = match j {
        Json::Obj(fs) => fs,
        _ => {
            return Err(QwantError::DecodeError);
        },
    };
    let freshness = match obj_get(fs, "freshness") {
        Some(jf) => match decode_freshness(jf) {
            Ok(f) => f,
            Err(e) => {
                proof {
                    assert forall|x: Filters| !filters_matches(x, *j) by {
                        if filters_matches(x, *j) {
                            assert(freshness_matches(x.freshness, *jf));
                        }
                    }
                }
                return Err(e);
            },
        },
        None => {
            return Err(QwantError::DecodeError);
        },
    };
    let size = match obj_get(fs, "size") {
        None => None,
        Some(js) => match js {
            Json::Null => None,
            _ => match decode_size(js) {
                Ok(s) => Some(s),
                Err(e) => {
                    proof {
                        assert forall|x: Filters| !filters_matches(x, *j) by {
                            if filters_matches(x, *j) {
                                assert(size_matches(x.size.unwrap(), *js));
                            }
                        }
                    }
                    return Err(e);
                },
            },
        },
    };
    let license = match obj_get(fs, "license") {
        None => None,
        Some(jl) => match jl {
            Json::Null => None,
            _ => match decode_license(jl) {
                Ok(l) => Some(l),
                Err(e) => {
                    proof {
                        assert forall|x: Filters| !filters_matches(x, *j) by {
                            if filters_matches(x, *j) {
                                assert(license_matches(x.license.unwrap(), *jl));
                            }
                        }
                    }
                    return Err(e);
                },
            },
        },
    };
    Ok(Filters { freshness, size, license })
}

/// Encodes one filters record; facets it leaves out are written as
/// `null`.
pub fn encode_filters(f: &Filters) -> (r: Json)
    ensures
        filters_matches(*f, r),
{
    let freshness = encode_freshness(&f.freshness);
    let size = match &f.size {
        Some(s) => encode_size(s),
        None => Json::Null,
    };
    let license = match &f.license {
        Some(l) => encode_license(l),
        None => Json::Null,
    };
    let mut fs: Vec<(String, Json)> = Vec::new();
    push_field(&mut fs, "freshness", freshness);
    push_field(&mut fs, "size", size);
    push_field(&mut fs, "license", license);
    proof {
        reveal_strlit("freshness");
        reveal_strlit("size");
        reveal_strlit("license");
        assert("freshness"@[0] == 'f' && "size"@[0] == 's' && "license"@[0] == 'l');
        lemma_obj_lookup_at(fs@, "freshness"@, 0);
        lemma_obj_lookup_at(fs@, "size"@, 1);
        lemma_obj_lookup_at(fs@, "license"@, 2);
    }
    Json::Obj(fs)
}

} // verus!

// ---------------------------------------------------------------------
// The data body and the envelope.
// ---------------------------------------------------------------------

verus! {

/// The tree `j` carries the result page `res`.
pub open spec fn result_matches(res: QwantResult, j: Json) -> bool {
    match j {
        Json::Obj(fs) => {
            &&& match obj_lookup(fs@, "items"@) {
                Some(Json::Arr(a)) => item_list_matches(res.items@, a@),
                _ => false,
            }
            &&& match obj_lookup(fs@, "filters"@) {
                Some(jf) => filters_matches(res.filters, jf),
                None => false,
            }
            &&& str_req(fs@, "version"@) == Some(res.version@)
            &&& opt_str(fs@, "domain"@) == Some(opt_str_view(res.domain))
            &&& opt_bool(fs@, "last"@) == Some(res.last)
        },
        _ => false,
    }
}

/// The two result pages carry the same content.
pub open spec fn result_eq(a: QwantResult, b: QwantResult) -> bool {
    &&& item_list_eq(a.items@, b.items@)
    &&& filters_eq(a.filters, b.filters)
    &&& a.version@ == b.version@
    &&& opt_str_view(a.domain) == opt_str_view(b.domain)
    &&& a.last == b.last
}

/// A tree carries at most one result page.
pub proof fn lemma_result_unique(a: QwantResult, b: QwantResult, j: Json)
    requires
        result_matches(a, j),
        result_matches(b, j),
    ensures
        result_eq(a, b),
{
    match j {
        Json::Obj(fs) => {
            match obj_lookup(fs@, "items"@) {
                Some(Json::Arr(arr)) => {
                    lemma_item_list_unique(a.items@, b.items@, arr@);
                },
                _ => {},
            }
            match obj_lookup(fs@, "filters"@) {
                Some(jf) => {
                    lemma_filters_unique(a.filters, b.filters, jf);
                },
                None => {},
            }
        },
        _ => {},
    }
}

/// Decodes one result page; fails exactly when the tree carries none.
pub fn decode_result(j: &Json) -> (r: Result<QwantResult, QwantError>)
    ensures
        r matches Ok(res) ==> result_matches(res, *j),
        r is Err ==> forall|res: QwantResult| !result_matches(res, *j),
{
    let fs = match j {
        Json::Obj(fs) => fs,
        _ => {
            return Err(QwantError::DecodeError);
        },
    };
    let items = match obj_get(fs, "items") {
        Some(ji) => match ji {
            Json::Arr(a) => match decode_item_list(a) {
                Ok(its) => its,
                Err(e) => {
                    proof {
                        assert forall|res: QwantResult| !result_matches(res, *j) by {
                            if result_matches(res, *j) {
                                assert(item_list_matches(res.items@, a@));
                            }
                        }
                    }
                    return Err(e);
                },
            },
            _ => {
                return Err(QwantError::DecodeError);
            },
        },
        None => {
            return Err(QwantError::DecodeError);
        },
    };
    let filters = match obj_get(fs, "filters") {
        Some(jf) => match decode_filters(jf) {
            Ok(f) => f,
            Err(e) => {
                proof {
                    assert forall|res: QwantResult| !result_matches(res, *j) by {
                        if result_matches(res, *j) {
                            assert(filters_matches(res.filters, *jf));
                        }
                    }
                }
                return Err(e);
            },
        },
        None => {
            return Err(QwantError::DecodeError);
        },
    };
    let version = get_str(fs, "version")?;
    let domain = get_opt_str(fs, "domain")?;
    let last = get_opt_bool(fs, "last")?;
    Ok(QwantResult { items, filters, version, domain, last })
}

/// Encodes one result page.
pub fn encode_result(res: &QwantResult) -> (r: Json)
    ensures
        result_matches(*res, r),
{
    let items = encode_item_list(&res.items);
    let filters = encode_filters(&res.filters);
    let mut fs: Vec<(String, Json)> = Vec::new();
    push_field(&mut fs, "items", Json::Arr(items));
    push_field(&mut fs, "filters", filters);
    push_field(&mut fs, "version", Json::Str(res.version.clone()));
    push_field(&mut fs, "domain", opt_str_json(&res.domain));
    push_field(&mut fs, "last", opt_bool_json(&res.last));
    proof {
        reveal_strlit("items");
        reveal_strlit("filters");
        reveal_strlit("version");
        reveal_strlit("domain");
        reveal_strlit("last");
        assert("items"@[0] == 'i' && "filters"@[0] == 'f' && "version"@[0] == 'v' && "domain"@[0]
            == 'd' && "last"@[0] == 'l');
        lemma_obj_lookup_at(fs@, "items"@, 0);
        lemma_obj_lookup_at(fs@, "filters"@, 1);
        lemma_obj_lookup_at(fs@, "version"@, 2);
        lemma_obj_lookup_at(fs@, "domain"@, 3);
        lemma_obj_lookup_at(fs@, "last"@, 4);
    }
    Json::Obj(fs)
}

/// The tree `j` carries the data body `d`.
pub open spec fn data_matches(d: Data, j: Json) -> bool {
    match j {
        Json::Obj(fs) => {
            &&& match obj_lookup(fs@, "query"@) {
                None => d.query is None,
                Some(Json::Null) => d.query is None,
                Some(jq) => d.query matches Some(q) && query_matches(q, jq),
            }
            &&& match obj_lookup(fs@, "cache"@) {
                None => d.cache is None,
                Some(Json::Null) => d.cache is None,
                Some(jc) => d.cache matches Some(c) && cache_matches(c, jc),
            }
            &&& match obj_lookup(fs@, "result"@) {
                Some(jr) => result_matches(d.result, jr),
                None => false,
            }
            &&& opt_u32(fs@, "error_code"@) == Some(d.error_code)
        },
        _ => false,
    }
}

/// The two data bodies carry the same content.
pub open spec fn data_eq(a: Data, b: Data) -> bool {
    &&& match (a.query, b.query) {
        (None, None) => true,
        (Some(x), Some(y)) => query_eq(x, y),
        _ => false,
    }
    &&& match (a.cache, b.cache) {
        (None, None) => true,
        (Some(x), Some(y)) => cache_eq(x, y),
        _ => false,
    }
    &&& result_eq(a.result, b.result)
    &&& a.error_code == b.error_code
}

/// A tree carries at most one data body.
pub proof fn lemma_data_unique(a: Data, b: Data, j: Json)
    requires
        data_matches(a, j),
        data_matches(b, j),
    ensures
        data_eq(a, b),
{
    match j {
        Json::Obj(fs) => {
            match obj_lookup(fs@, "query"@) {
                Some(jq) => {
                    if !(jq is Null) {
                        lemma_query_unique(a.query.unwrap(), b.query.unwrap(), jq);
                    }
                },
                None => {},
            }
            match obj_lookup(fs@, "cache"@) {
                Some(jc) => {
                    if !(jc is Null) {
                        lemma_cache_unique(a.cache.unwrap(), b.cache.unwrap(), jc);
                    }
                },
                None => {},
            }
            match obj_lookup(fs@, "result"@) {
                Some(jr) => {
                    lemma_result_unique(a.result, b.result, jr);
                },
                None => {},
            }
        },
        _ => {},
    }
}

/// Decodes one data body; fails exactly when the tree carries none.
pub fn decode_data(j: &Json) -> (r: Result<Data, QwantError>)
    ensures
        r matches Ok(d) ==> data_matches(d, *j),
        r is Err ==> forall|d: Data| !data_matches(d, *j),
{
    let fs = match j {
        Json::Obj(fs) => fs,
        _ => {
            return Err(QwantError::DecodeError);
        },
    };
    let query = match obj_get(fs, "query") {
        None => None,
        Some(jq) => match jq {
            Json::Null => None,
            _ => match decode_query(jq) {
                Ok(q) => Some(q),
                Err(e) => {
                    proof {
                        assert forall|d: Data| !data_matches(d, *j) by {
                            if data_matches(d, *j) {
                                assert(query_matches(d.query.unwrap(), *jq));
                            }
                        }
                    }
                    return Err(e);
                },
            },
        },
    };
    let cache = match obj_get(fs, "cache") {
        None => None,
        Some(jc) => match jc {
            Json::Null => None,
            _ => match decode_cache(jc) {
                Ok(c) => Some(c),
                Err(e) => {
                    proof {
                        assert forall|d: Data| !data_matches(d, *j) by {
                            if data_matches(d, *j) {
                                assert(cache_matches(d.cache.unwrap(), *jc));
                            }
                        }
                    }
                    return Err(e);
                },
            },
        },
    };
    let result = match obj_get(fs, "result") {
        Some(jr) => match decode_result(jr) {
            Ok(res) => res,
            Err(e) => {
                proof {
                    assert forall|d: Data| !data_matches(d, *j) by {
                        if data_matches(d, *j) {
                            assert(result_matches(d.result, *jr));
                        }
                    }
                }
                return Err(e);
            },
        },
        None => {
            return Err(QwantError::DecodeError);
        },
    };
    let error_code = get_opt_u32(fs, "error_code")?;
    Ok(Data { query, cache, result, error_code })
}

/// Encodes one data body; parts it leaves out are written as `null`.
pub fn encode_data(d: &Data) -> (r: Json)
    ensures
        data_matches(*d, r),
{
    let query = match &d.query {
        Some(q) => encode_query(q),
        None => Json::Null,
    };
    let cache = match &d.cache {
        Some(c) => encode_cache(c),
        None => Json::Null,
    };
    let result = encode_result(&d.result);
    let error_code = match d.error_code {
        Some(n) => Json::UInt(n as u64),
        None => Json::Null,
    };
    let mut fs: Vec<(String, Json)> = Vec::new();
    push_field(&mut fs, "query", query);
    push_field(&mut fs, "cache", cache);
    push_field(&mut fs, "result", result);
    push_field(&mut fs, "error_code", error_code);
    proof {
        reveal_strlit("query");
        reveal_strlit("cache");
        reveal_strlit("result");
        reveal_strlit("error_code");
        assert("query"@[0] == 'q' && "cache"@[0] == 'c' && "result"@[0] == 'r'
            && "error_code"@[0] == 'e');
        lemma_obj_lookup_at(fs@, "query"@, 0);
        lemma_obj_lookup_at(fs@, "cache"@, 1);
        lemma_obj_lookup_at(fs@, "result"@, 2);
        lemma_obj_lookup_at(fs@, "error_code"@, 3);
    }
    Json::Obj(fs)
}

/// The tree `j` carries the envelope `e`'s wire content: its status and
/// its data. The retained request URL is request context, not wire
/// content, and plays no part here.
pub open spec fn envelope_matches(e: APIResponse, j: Json) -> bool {
    match j {
        Json::Obj(fs) => {
            &&& str_req(fs@, "status"@) == Some(e.status@)
            &&& match obj_lookup(fs@, "data"@) {
                None => e.data is None,
                Some(Json::Null) => e.data is None,
                Some(jd) => e.data matches Some(d) && data_matches(d, jd),
            }
        },
        _ => false,
    }
}

/// The two envelopes carry the same wire content (the retained request
/// URL is not compared).
pub open spec fn envelope_eq(a: APIResponse, b: APIResponse) -> bool {
    &&& a.status@ == b.status@
    &&& match (a.data, b.data) {
        (None, None) => true,
        (Some(x), Some(y)) => data_eq(x, y),
        _ => false,
    }
}

/// The round-trip law: a tree carries at most one envelope, so decoding
/// what an envelope was encoded to — or re-encoding a decoded envelope
/// and decoding again — always gives the same wire content back.
pub proof fn lemma_envelope_unique(a: APIResponse, b: APIResponse, j: Json)
    requires
        envelope_matches(a, j),
        envelope_matches(b, j),
    ensures
        envelope_eq(a, b),
{
    match j {
        Json::Obj(fs) => {
            match obj_lookup(fs@, "data"@) {
                Some(jd) => {
                    if !(jd is Null) {
                        lemma_data_unique(a.data.unwrap(), b.data.unwrap(), jd);
                    }
                },
                None => {},
            }
        },
        _ => {},
    }
}

/// Decodes one envelope; fails exactly when the tree carries none. A
/// decoded envelope retains no request URL.
pub fn decode_envelope(j: &Json) -> (r: Result<APIResponse, QwantError>)
    ensures
        r matches Ok(e) ==> envelope_matches(e, *j) && e.search_str is None,
        r is Err ==> forall|e: APIResponse| !envelope_matches(e, *j),
{
    let fs = match j {
        Json::Obj(fs) => fs,
        _ => {
            return Err(QwantError::DecodeError);
        },
    };
    let status = get_str(fs, "status")?;
    let data = match obj_get(fs, "data") {
        None => None,
        Some(jd) => match jd {
            Json::Null => None,
            _ => match decode_data(jd) {
                Ok(d) => Some(d),
                Err(e) => {
                    proof {
                        assert forall|x: APIResponse| !envelope_matches(x, *j) by {
                            if envelope_matches(x, *j) {
                                assert(data_matches(x.data.unwrap(), *jd));
                            }
                        }
                    }
                    return Err(e);
                },
            },
        },
    };
    Ok(APIResponse { status, data, search_str: None })
}

/// Encodes one envelope's wire content; an absent data body is written
/// as `null`, and the retained request URL is not written at all.
pub fn encode_envelope(e: &APIResponse) -> (r: Json)
    ensures
        envelope_matches(*e, r),
{
    let data = match &e.data {
        Some(d) => encode_data(d),
        None => Json::Null,
    };
    let mut fs: Vec<(String, Json)> = Vec::new();
    push_field(&mut fs, "status", Json::Str(e.status.clone()));
    push_field(&mut fs, "data", data);
    proof {
        reveal_strlit("status");
        reveal_strlit("data");
        assert("status"@[0] == 's' && "data"@[0] == 'd');
        lemma_obj_lookup_at(fs@, "status"@, 0);
        lemma_obj_lookup_at(fs@, "data"@, 1);
    }
    Json::Obj(fs)
}

} // verus!
