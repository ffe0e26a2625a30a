//! Removal of inline HTML markup from the highlighted text fields of an
//! [`Item`].
//!
//! The rule: any substring bounded by `<` and the nearest following `>`
//! is removed, across line boundaries (a shortest-match rule). A `<`
//! with no `>` anywhere after it opens no tag, and the text from it on
//! is kept. The stripped text is returned as it is, with no further
//! escaping.

use vstd::prelude::*;
use vstd::string::StrSliceExecFns;
use vstd::string::StringExecFns;
use crate::Item;

verus! {

/// Whether some position of `s` holds a `>`.
pub open spec fn has_gt(s: Seq<char>) -> bool {
    exists|i: int| 0 <= i < s.len() && (#[trigger] s[i]) == '>'
}

/// The text with every shortest `<`…`>` span removed. A `<` whose
/// remainder holds no `>` opens no span, so the rest is kept whole.
pub open spec fn strip_spec(s: Seq<char>) -> Seq<char>
    decreases s.len(), 1int,
{
    if s.len() == 0 {
        Seq::empty()
    } else if s[0] == '<' && has_gt(s.drop_first()) {
        strip_tag(s.drop_first())
    } else if s[0] == '<' {
        s
    } else {
        seq![s[0]] + strip_spec(s.drop_first())
    }
}

/// Inside an open span: consume up to and including the nearest `>`,
/// then strip the rest.
pub open spec fn strip_tag(s: Seq<char>) -> Seq<char>
    recommends
        has_gt(s),
    decreases s.len(), 0int,
{
    if s.len() == 0 {
        Seq::empty()
    } else if s[0] == '>' {
        strip_spec(s.drop_first())
    } else {
        strip_tag(s.drop_first())
    }
}

/// Consuming a span ends exactly after its nearest `>`.
proof fn lemma_strip_tag_consumes(t: Seq<char>, k: int)
    requires
        0 <= k < t.len(),
        t[k] == '>',
        forall|m: int| 0 <= m < k ==> (#[trigger] t[m]) != '>',
    ensures
        strip_tag(t) == strip_spec(t.skip(k + 1)),
    decreases k,
{
    if k == 0 {
        assert(t.drop_first() =~= t.skip(1));
    } else {
        assert(t.drop_first()[k - 1] == '>');
        lemma_strip_tag_consumes(t.drop_first(), k - 1);
        assert(t.drop_first().skip(k) =~= t.skip(k + 1));
    }
}

/// Strips every shortest `<`…`>` span out of `s`.
pub fn strip_tags(s: &str) -> (r: String)
    ensures
        r@ == strip_spec(s@),
{
    let n = s.unicode_len();
    let mut out: String = String::new();
    let mut i: usize = 0;
    proof {
        assert(s@.skip(0) =~= s@);
        assert(Seq::<char>::empty() + strip_spec(s@) =~= strip_spec(s@));
    }
    while i < n
        invariant
            i <= n,
            n == s@.len(),
            out@ + strip_spec(s@.skip(i as int)) == strip_spec(s@),
        decreases n - i,
    {
        let c = s.get_char(i);
        if c != '<' {
            let piece = s.substring_char(i, i + 1);
            out.append(piece);
            proof {
                let t = s@.skip(i as int);
                assert(t[0] == c);
                assert(t.drop_first() =~= s@.skip(i + 1 as int));
                assert(out@ + strip_spec(s@.skip(i + 1 as int)) =~= strip_spec(s@));
            }
            i = i + 1;
        } else {
            // look for the nearest '>' after this '<'
            let mut j: usize = i + 1;
            let mut found = false;
            while j < n && !found
                invariant
                    i + 1 <= j <= n,
                    n == s@.len(),
                    forall|m: int| i + 1 <= m < j ==> (#[trigger] s@[m]) != '>',
                    found ==> (j < n && s@[j as int] == '>'),
                decreases n - j + (if found { 0int } else { 1int }),
            {
                if s.get_char(j) == '>' {
                    found = true;
                } else {
                    j = j + 1;
                }
            }
            if found {
                proof {
                    let t = s@.skip(i as int);
                    let u = t.drop_first();
                    assert(u =~= s@.skip(i + 1 as int));
                    assert(u[j - i - 1] == '>');
                    assert(has_gt(u));
                    assert(forall|m: int| 0 <= m < j - i - 1 ==> (#[trigger] u[m]) != '>');
                    lemma_strip_tag_consumes(u, j - i - 1);
                    assert(u.skip(j - i) =~= s@.skip(j + 1 as int));
                    assert(strip_spec(t) == strip_spec(s@.skip(j + 1 as int)));
                }
                i = j + 1;
            } else {
                // no closing '>': the rest of the text is kept whole
                let rest = s.substring_char(i, n);
                out.append(rest);
                proof {
                    let t = s@.skip(i as int);
                    assert(t.drop_first() =~= s@.skip(i + 1 as int));
                    assert(forall|m: int| 0 <= m < t.drop_first().len() ==> (#[trigger] t.drop_first()[m])
                        != '>');
                    assert(!has_gt(t.drop_first()));
                    assert(strip_spec(t) == t);
                    assert(s@.subrange(i as int, n as int) =~= t);
                    assert(out@ + strip_spec(s@.skip(n as int)) =~= strip_spec(s@));
                }
                i = n;
            }
        }
    }
    proof {
        assert(s@.skip(n as int) =~= Seq::<char>::empty());
        assert(out@ =~= strip_spec(s@));
    }
    out
}

impl Item {
    /// Strips the shortest `<`…`>` spans out of this item's title,
    /// description and short description; every other field is kept as
    /// it was. The text is only stripped, not escaped.
    pub fn strip_html(&mut self)
        ensures
            final(self).title@ == strip_spec(old(self).title@),
            final(self).desc@ == strip_spec(old(self).desc@),
            old(self).desc_short is None ==> final(self).desc_short is None,
            old(self).desc_short matches Some(d) ==> (final(self).desc_short matches Some(d2)
                && d2@ == strip_spec(d@)),
            final(self)._id == old(self)._id,
            final(self).type_ == old(self).type_,
            final(self).favicon == old(self).favicon,
            final(self).url == old(self).url,
            final(self).source == old(self).source,
            final(self).position == old(self).position,
            final(self).duration == old(self).duration,
            final(self).thumbnail == old(self).thumbnail,
            final(self).thumb_height == old(self).thumb_height,
            final(self).thumb_width == old(self).thumb_width,
            final(self).thumb_type == old(self).thumb_type,
            final(self).width == old(self).width,
            final(self).height == old(self).height,
            final(self).size == old(self).size,
            final(self).b_id == old(self).b_id,
            final(self).media_fullsize == old(self).media_fullsize,
            final(self).count == old(self).count,
            final(self).domain == old(self).domain,
            final(self).date == old(self).date,
            final(self).media == old(self).media,
            final(self).media_ == old(self).media_,
    {
        self.title = strip_tags(self.title.as_str());
        self.desc = strip_tags(self.desc.as_str());
        let short = match &self.desc_short {
            Some(d) => Some(strip_tags(d.as_str())),
            None => None,
        };
        self.desc_short = short;
    }
}

} // verus!
