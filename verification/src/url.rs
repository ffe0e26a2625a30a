//! Request-URL construction: query-string percent-encoding, the search
//! URL template, and the pagination URL derived from it.

use vstd::prelude::*;
use vstd::string::StringExecFns;
use vstd::string::StringSliceAdditionalSpecFns;
use crate::SearchType;
use crate::errors::QwantError;

verus! {

/// Bytes that percent-encoding leaves as they are: ASCII letters and
/// digits and `- . _ ~` (the unreserved set of URLs).
pub open spec fn unreserved(b: u8) -> bool {
    (65 <= b && b <= 90)  // 'A'..='Z'
    || (97 <= b && b <= 122)  // 'a'..='z'
    || (48 <= b && b <= 57)  // '0'..='9'
    || b == 45  // '-'
    || b == 46  // '.'
    || b == 95  // '_'
    || b == 126  // '~'
}

/// The uppercase hexadecimal digit for a value below 16.
pub open spec fn hex_digit(d: u8) -> char
    recommends
        d < 16,
{
    if d < 10 {
        ((48 + d) as char)  // '0' + d
    } else {
        ((55 + d) as char)  // 'A' + (d - 10)
    }
}

/// How one byte appears in a percent-encoded string: itself when
/// unreserved, `%XY` with uppercase hex digits otherwise.
pub open spec fn enc_byte(b: u8) -> Seq<char> {
    if unreserved(b) {
        seq![b as char]
    } else {
        seq!['%', hex_digit(b / 16), hex_digit(b % 16)]
    }
}

/// Percent-encoding of a byte sequence, byte by byte.
pub open spec fn enc_bytes(bs: Seq<u8>) -> Seq<char>
    decreases bs.len(),
{
    if bs.len() == 0 {
        Seq::empty()
    } else {
        enc_byte(bs[0]) + enc_bytes(bs.drop_first())
    }
}

/// Percent-encoding distributes over concatenation.
pub proof fn lemma_enc_bytes_append(xs: Seq<u8>, ys: Seq<u8>)
    ensures
        enc_bytes(xs + ys) == enc_bytes(xs) + enc_bytes(ys),
    decreases xs.len(),
{
    if xs.len() == 0 {
        assert(xs + ys =~= ys);
        assert(enc_bytes(xs) + enc_bytes(ys) =~= enc_bytes(ys));
    } else {
        assert((xs + ys).drop_first() =~= xs.drop_first() + ys);
        lemma_enc_bytes_append(xs.drop_first(), ys);
        assert(enc_bytes(xs) + enc_bytes(ys) =~= enc_byte(xs[0]) + (enc_bytes(xs.drop_first()) + enc_bytes(ys)));
    }
}

/// Relies on std's String::push: appends the one character at the end.
#[verifier::external_body]
fn push_char(s: &mut String, c: char)
    ensures
        final(s)@ == old(s)@.push(c),
{
    s.push(c);
}

/// The uppercase hexadecimal digit for a value below 16.
fn hex_digit_char(d: u8) -> (c: char)
    requires
        d < 16,
    ensures
        c == hex_digit(d),
{
    if d < 10 {
        (48 + d) as char
    } else {
        (55 + d) as char
    }
}

/// Percent-encodes the UTF-8 bytes of `s` for use inside a URL query
/// string.
pub fn percent_encode(s: &str) -> (r: String)
    ensures
        r@ == enc_bytes(s.spec_bytes()),
{
    let bytes: &[u8] = s.as_bytes();
    let mut out: String = String::new();
    let mut i: usize = 0;
    while i < bytes.len()
        invariant
            i <= bytes@.len(),
            bytes@ == s.spec_bytes(),
            out@ == enc_bytes(bytes@.take(i as int)),
        decreases bytes@.len() - i,
    {
        let b = bytes[i];
        if (65 <= b && b <= 90) || (97 <= b && b <= 122) || (48 <= b && b <= 57)
            || b == 45 || b == 46 || b == 95 || b == 126 {
            push_char(&mut out, b as char);
        } else {
            push_char(&mut out, '%');
            push_char(&mut out, hex_digit_char(b / 16));
            push_char(&mut out, hex_digit_char(b % 16));
        }
        proof {
            let pre = bytes@.take(i as int);
            assert(bytes@.take(i + 1 as int) =~= pre + seq![bytes@[i as int]]);
            lemma_enc_bytes_append(pre, seq![bytes@[i as int]]);
            assert(enc_bytes(seq![bytes@[i as int]].drop_first()) =~= Seq::empty());
            assert(enc_bytes(seq![bytes@[i as int]]) =~= enc_byte(bytes@[i as int]));
            assert(out@ =~= enc_bytes(bytes@.take(i + 1 as int)));
        }
        i = i + 1;
    }
    proof {
        assert(bytes@.take(bytes@.len() as int) =~= bytes@);
    }
    out
}

/// Decimal digits of `n`, most significant first, with no leading zeros
/// (a lone `0` for zero).
pub open spec fn dec_spec(n: nat) -> Seq<char>
    decreases n,
{
    if n < 10 {
        seq![((48 + n) as char)]
    } else {
        dec_spec(n / 10).push(((48 + n % 10) as char))
    }
}

/// Appends the decimal digits of `n` to `out`.
fn append_decimal(n: u32, out: &mut String)
    ensures
        final(out)@ == old(out)@ + dec_spec(n as nat),
    decreases n,
{
    if n < 10 {
        push_char(out, (48 + n as u8) as char);
        assert(final(out)@ =~= old(out)@ + dec_spec(n as nat));
    } else {
        append_decimal(n / 10, out);
        push_char(out, (48 + (n % 10) as u8) as char);
        assert(final(out)@ =~= old(out)@ + dec_spec(n as nat));
    }
}

/// Renders `n` in decimal.
pub fn u32_to_decimal(n: u32) -> (r: String)
    ensures
        r@ == dec_spec(n as nat),
{
    let mut out: String = String::new();
    append_decimal(n, &mut out);
    proof {
        assert(Seq::<char>::empty() + dec_spec(n as nat) =~= dec_spec(n as nat));
    }
    out
}

/// The fixed path segment the API uses for each kind of search.
pub open spec fn path_segment_spec(t: SearchType) -> Seq<char> {
    match t {
        SearchType::Web => "web"@,
        SearchType::News => "news"@,
        SearchType::Images => "images"@,
        SearchType::Videos => "videos"@,
        SearchType::Shopping => "shopping"@,
        SearchType::Music => "music"@,
    }
}

impl SearchType {
    /// The fixed lowercase path segment for this kind of search.
    pub fn path_segment(&self) -> (r: &'static str)
        ensures
            r@ == path_segment_spec(*self),
    {
        match *self {
            SearchType::Web => "web",
            SearchType::News => "news",
            SearchType::Images => "images",
            SearchType::Videos => "videos",
            SearchType::Shopping => "shopping",
            SearchType::Music => "music",
        }
    }
}

/// The full search URL for the given parameters: the fixed host and path,
/// the kind's segment, the fixed `count`/`device`/`extensionDisabled`
/// parameters, `safesearch` rendered `1` when `safe` holds and `0`
/// otherwise, and the percent-encoded locale, term and application id.
pub open spec fn search_url_spec(
    term: Seq<u8>,
    t: SearchType,
    safe: bool,
    locale: Seq<u8>,
    id: Seq<u8>,
) -> Seq<char> {
    "https://api.qwant.com/api/search/"@ + path_segment_spec(t)
        + "?count=10&device=desktop&extensionDisabled=true&safesearch="@
        + (if safe { "1"@ } else { "0"@ })
        + "&locale="@ + enc_bytes(locale)
        + "&q="@ + enc_bytes(term)
        + "&t="@ + enc_bytes(id)
}

/// Builds the request URL for one search. An empty search term is
/// rejected with [`QwantError::InvalidArgument`] rather than forwarded;
/// every other input yields exactly [`search_url_spec`].
pub fn search_url(term: &str, type_: &SearchType, safe: bool, locale: &str, id: &str) -> (r: Result<
    String,
    QwantError,
>)
    ensures
        term@.len() == 0 ==> (r matches Err(e) && e matches QwantError::InvalidArgument),
        term@.len() != 0 ==> (r matches Ok(u) && u@ == search_url_spec(
            term.spec_bytes(),
            *type_,
            safe,
            locale.spec_bytes(),
            id.spec_bytes(),
        )),
{
    if term.is_empty() {
        return Err(QwantError::InvalidArgument);
    }
    let mut url: String = String::from_str("https://api.qwant.com/api/search/");
    url.append(type_.path_segment());
    url.append("?count=10&device=desktop&extensionDisabled=true&safesearch=");
    url.append(if safe { "1" } else { "0" });
    url.append("&locale=");
    let enc_locale = percent_encode(locale);
    url.append(enc_locale.as_str());
    url.append("&q=");
    let enc_term = percent_encode(term);
    url.append(enc_term.as_str());
    url.append("&t=");
    let enc_id = percent_encode(id);
    url.append(enc_id.as_str());
    proof {
        assert(url@ =~= search_url_spec(
            term.spec_bytes(),
            *type_,
            safe,
            locale.spec_bytes(),
            id.spec_bytes(),
        ));
    }
    Ok(url)
}

/// The URL of the following page: the previous request URL with
/// `&offset=<new_offset>` appended.
pub open spec fn next_page_url_spec(prev: Seq<char>, new_offset: u32) -> Seq<char> {
    prev + "&offset="@ + dec_spec(new_offset as nat)
}

/// Builds the URL that requests the page after `prev_url`, advancing the
/// page offset by the fixed page size of 10.
pub fn next_page_url(prev_url: &str, last_offset: u32) -> (r: Result<(String, u32), QwantError>)
    ensures
        last_offset + 10 > u32::MAX ==> (r matches Err(e) && e matches QwantError::InvalidArgument),
        last_offset + 10 <= u32::MAX ==> (r matches Ok(p) && p.1 == last_offset + 10 && p.0@
            == next_page_url_spec(prev_url@, p.1)),
{
    if last_offset > u32::MAX - 10 {
        return Err(QwantError::InvalidArgument);
    }
    let new_offset = last_offset + 10;
    let mut url: String = String::from_str(prev_url);
    url.append("&offset=");
    let dec = u32_to_decimal(new_offset);
    url.append(dec.as_str());
    proof {
        assert(url@ =~= next_page_url_spec(prev_url@, new_offset));
    }
    Ok((url, new_offset))
}

} // verus!

// ---------------------------------------------------------------------
// What the safesearch parameter carries.
// ---------------------------------------------------------------------

verus! {

/// The safesearch digit of a search URL is `'1'` exactly when the safe
/// flag was set, and `'0'` otherwise; it stands right after the fixed
/// parameters, whatever the other inputs are.
pub proof fn lemma_safesearch_digit(
    term: Seq<u8>,
    t: SearchType,
    safe: bool,
    locale: Seq<u8>,
    id: Seq<u8>,
)
    ensures
        ({
            let u = search_url_spec(term, t, safe, locale, id);
            let k = 33 + path_segment_spec(t).len() + 59;
            &&& k < u.len()
            &&& u[k as int] == (if safe {
                '1'
            } else {
                '0'
            })
        }),
{
    reveal_strlit("https://api.qwant.com/api/search/");
    reveal_strlit("?count=10&device=desktop&extensionDisabled=true&safesearch=");
    reveal_strlit("1");
    reveal_strlit("0");
    assert("https://api.qwant.com/api/search/"@.len() == 33);
    assert("?count=10&device=desktop&extensionDisabled=true&safesearch="@.len() == 59);
}

} // verus!
