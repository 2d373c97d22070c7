//! HTML escaping at the boundary: the escaping primitives of
//! `pulldown_cmark_escape` do the work; their effect on attribute and
//! body text is stated exactly, character by character, and the href
//! escaping is named as a function of the input alone.

use vstd::prelude::*;

verus! {

/// What `pulldown_cmark_escape::escape_html` makes of one character:
/// the five HTML-special characters become entities, the rest stay.
pub open spec fn attr_escape_char(c: char) -> Seq<char> {
    if c == '&' {
        "&amp;"@
    } else if c == '<' {
        "&lt;"@
    } else if c == '>' {
        "&gt;"@
    } else if c == '"' {
        "&quot;"@
    } else if c == '\'' {
        "&#39;"@
    } else {
        seq![c]
    }
}

/// Attribute-context HTML escaping of a whole string.
pub open spec fn attr_escaped(s: Seq<char>) -> Seq<char>
    decreases s.len(),
{
    if s.len() == 0 {
        Seq::<char>::empty()
    } else {
        attr_escape_char(s[0]) + attr_escaped(s.drop_first())
    }
}

/// What `pulldown_cmark_escape::escape_html_body_text` makes of one
/// character: only `&`, `<` and `>` become entities.
pub open spec fn body_escape_char(c: char) -> Seq<char> {
    if c == '&' {
        "&amp;"@
    } else if c == '<' {
        "&lt;"@
    } else if c == '>' {
        "&gt;"@
    } else {
        seq![c]
    }
}

/// Body-text HTML escaping of a whole string.
pub open spec fn body_escaped(s: Seq<char>) -> Seq<char>
    decreases s.len(),
{
    if s.len() == 0 {
        Seq::<char>::empty()
    } else {
        body_escape_char(s[0]) + body_escaped(s.drop_first())
    }
}

/// The result of `pulldown_cmark_escape::escape_href` on a string: a
/// percent-encoding over the UTF-8 bytes, a function of the input alone.
pub uninterp spec fn href_escaped(s: Seq<char>) -> Seq<char>;

/// Relies on `pulldown_cmark_escape::escape_html`: replaces each of the
/// five special characters `&`, `<`, `>`, `"`, `'` by its HTML entity
/// and keeps every other character; writing into a `String` never fails.
#[verifier::external_body]
pub(crate) fn escape_attr(s: &str) -> (r: String)
    ensures
        r@ == attr_escaped(s@),
{
    let mut out = String::new();
    let _ = pulldown_cmark_escape::escape_html(&mut out, s);
    out
}

/// Relies on `pulldown_cmark_escape::escape_html_body_text`: replaces
/// each of `&`, `<`, `>` by its HTML entity and keeps every other
/// character; writing into a `String` never fails.
#[verifier::external_body]
pub(crate) fn escape_body(s: &str) -> (r: String)
    ensures
        r@ == body_escaped(s@),
{
    let mut out = String::new();
    let _ = pulldown_cmark_escape::escape_html_body_text(&mut out, s);
    out
}

/// Relies on `pulldown_cmark_escape::escape_href`: percent-encodes the
/// bytes unsafe in an href and rewrites `&` and `'` as entities; the
/// result depends on the input characters alone, and writing into a
/// `String` never fails.
#[verifier::external_body]
pub(crate) fn escape_href_part(s: &str) -> (r: String)
    ensures
        r@ == href_escaped(s@),
{
    let mut out = String::new();
    let _ = pulldown_cmark_escape::escape_href(&mut out, s);
    out
}

/// Escaped attribute text never holds a raw `"` or `<`: the escaping
/// maps those characters to entities, and every entity it emits is made
/// of characters other than `"` and `<`.
pub proof fn lemma_attr_escaped_no_quote_no_lt(s: Seq<char>)
    ensures
        forall|i: int|
            0 <= i < attr_escaped(s).len() ==> attr_escaped(s)[i] != '"' && attr_escaped(s)[i]
                != '<',
    decreases s.len(),
{
    reveal_strlit("&amp;");
    reveal_strlit("&lt;");
    reveal_strlit("&gt;");
    reveal_strlit("&quot;");
    reveal_strlit("&#39;");
    if s.len() > 0 {
        lemma_attr_escaped_no_quote_no_lt(s.drop_first());
        let head = attr_escape_char(s[0]);
        let tail = attr_escaped(s.drop_first());
        assert(attr_escaped(s) == head + tail);
        assert(forall|i: int| 0 <= i < head.len() ==> head[i] != '"' && head[i] != '<');
        assert forall|i: int|
            0 <= i < attr_escaped(s).len() implies attr_escaped(s)[i] != '"' && attr_escaped(s)[i]
            != '<' by {
            if i < head.len() {
                assert(attr_escaped(s)[i] == head[i]);
            } else {
                assert(attr_escaped(s)[i] == tail[i - head.len()]);
            }
        }
    }
}

/// Escaped body text never holds a raw `<`: no tag can begin inside it.
pub proof fn lemma_body_escaped_no_lt(s: Seq<char>)
    ensures
        forall|i: int| 0 <= i < body_escaped(s).len() ==> body_escaped(s)[i] != '<',
    decreases s.len(),
{
    reveal_strlit("&amp;");
    reveal_strlit("&lt;");
    reveal_strlit("&gt;");
    if s.len() > 0 {
        lemma_body_escaped_no_lt(s.drop_first());
        let head = body_escape_char(s[0]);
        let tail = body_escaped(s.drop_first());
        assert(body_escaped(s) == head + tail);
        assert(forall|i: int| 0 <= i < head.len() ==> head[i] != '<');
        assert forall|i: int| 0 <= i < body_escaped(s).len() implies body_escaped(s)[i] != '<' by {
            if i < head.len() {
                assert(body_escaped(s)[i] == head[i]);
            } else {
                assert(body_escaped(s)[i] == tail[i - head.len()]);
            }
        }
    }
}

} // verus!
