//! Anchor-tag assembly: classification of a destination URL as external,
//! and construction of the opening and closing anchor markup, escaped
//! and decorated with the configured attributes.

use vstd::prelude::*;
use vstd::string::StrSliceExecFns;
use vstd::string::StringExecFns;

use crate::escape::{attr_escaped, escape_attr, escape_href_part, href_escaped};
use crate::options::{attrs_view, MarkdownRenderOptions, OptionsView};

verus! {

/// A destination is external iff it begins with the literal `http`
/// (which covers both `http://` and `https://`).
pub open spec fn is_external_url(u: Seq<char>) -> bool {
    u.len() >= 4 && u[0] == 'h' && u[1] == 't' && u[2] == 't' && u[3] == 'p'
}

/// Classifies a destination URL: external iff it starts with the
/// literal substring `http`. This one predicate governs explicit links
/// and detected autolinks alike.
pub fn classify_external(url: &str) -> (r: bool)
    ensures
        r == is_external_url(url@),
        r <==> (url@.len() >= 4 && url@.subrange(0, 4) == "http"@),
{
    proof {
        reveal_strlit("http");
    }
    let n = url.unicode_len();
    let r = n >= 4 && url.get_char(0) == 'h' && url.get_char(1) == 't' && url.get_char(2) == 't'
        && url.get_char(3) == 'p';
    proof {
        if r {
            assert(url@.subrange(0, 4) =~= "http"@);
        }
        if url@.len() >= 4 && url@.subrange(0, 4) == "http"@ {
            assert(url@[0] == url@.subrange(0, 4)[0]);
            assert(url@[1] == url@.subrange(0, 4)[1]);
            assert(url@[2] == url@.subrange(0, 4)[2]);
            assert(url@[3] == url@.subrange(0, 4)[3]);
        }
    }
    r
}

/// One rendered attribute: a space, the escaped name, `="`, the escaped
/// value, and a closing quote.
pub open spec fn attr_fragment(k: Seq<char>, v: Seq<char>) -> Seq<char> {
    " "@ + attr_escaped(k) + "=\""@ + attr_escaped(v) + "\""@
}

/// A whole attribute list, rendered in list order.
pub open spec fn attrs_fragment(attrs: Seq<(Seq<char>, Seq<char>)>) -> Seq<char>
    decreases attrs.len(),
{
    if attrs.len() == 0 {
        Seq::<char>::empty()
    } else {
        attr_fragment(attrs[0].0, attrs[0].1) + attrs_fragment(attrs.drop_first())
    }
}

proof fn lemma_attrs_fragment_push(attrs: Seq<(Seq<char>, Seq<char>)>, p: (Seq<char>, Seq<char>))
    ensures
        attrs_fragment(attrs.push(p)) == attrs_fragment(attrs) + attr_fragment(p.0, p.1),
    decreases attrs.len(),
{
    let s1 = attrs.push(p);
    assert(s1[0] == if attrs.len() == 0 {
        p
    } else {
        attrs[0]
    });
    if attrs.len() == 0 {
        assert(s1.drop_first() =~= Seq::<(Seq<char>, Seq<char>)>::empty());
        assert(attrs_fragment(s1.drop_first()) =~= Seq::<char>::empty());
        assert(attrs_fragment(s1) =~= attrs_fragment(attrs) + attr_fragment(p.0, p.1));
    } else {
        assert(s1.drop_first() =~= attrs.drop_first().push(p));
        lemma_attrs_fragment_push(attrs.drop_first(), p);
        assert(attrs_fragment(s1) == attr_fragment(attrs[0].0, attrs[0].1) + (attrs_fragment(
            attrs.drop_first(),
        ) + attr_fragment(p.0, p.1)));
        assert(attrs_fragment(s1) =~= attrs_fragment(attrs) + attr_fragment(p.0, p.1));
    }
}

/// A rendered attribute is injection-safe: the name and the value are
/// escaped alike, so no `<` occurs anywhere in the fragment, and the
/// only `"` characters are the two delimiters around the value — every
/// `"` or `<` inside the name or the value appears only as its entity.
pub proof fn lemma_attr_fragment_safe(k: Seq<char>, v: Seq<char>)
    ensures
        forall|i: int| 0 <= i < attr_fragment(k, v).len() ==> attr_fragment(k, v)[i] != '<',
        forall|i: int|
            0 <= i < attr_fragment(k, v).len() ==> (attr_fragment(k, v)[i] == '"' <==> (i == 2
                + attr_escaped(k).len() || i == attr_fragment(k, v).len() - 1)),
{
    reveal_strlit(" ");
    reveal_strlit("=\"");
    reveal_strlit("\"");
    crate::escape::lemma_attr_escaped_no_quote_no_lt(k);
    crate::escape::lemma_attr_escaped_no_quote_no_lt(v);
    let f = attr_fragment(k, v);
    let ek = attr_escaped(k);
    let ev = attr_escaped(v);
    assert(f.len() == 4 + ek.len() + ev.len());
    assert forall|i: int|
        0 <= i < f.len() implies (f[i] != '<' && (f[i] == '"' <==> (i == 2 + ek.len() || i
        == f.len() - 1))) by {
        if i < 1 {
            assert(f[i] == ' ');
        } else if i < 1 + ek.len() {
            assert(f[i] == ek[i - 1]);
        } else if i < 3 + ek.len() {
            assert(f[i] == "=\""@[i - 1 - ek.len()]);
        } else if i < 3 + ek.len() + ev.len() {
            assert(f[i] == ev[i - 3 - ek.len()]);
        } else {
            assert(f[i] == "\""@[0]);
        }
    }
}

/// The complete opening anchor tag for a destination and title under a
/// configuration: `<a href="`, the href-escaped destination, a `title`
/// attribute when the title is non-empty, the configured attributes for
/// every link, additionally those for external links when the
/// destination is external, then `>`.
pub open spec fn link_start_fragment(opts: OptionsView, dest: Seq<char>, title: Seq<char>) -> Seq<
    char,
> {
    "<a href=\""@ + href_escaped(dest) + (if title.len() > 0 {
        "\" title=\""@ + attr_escaped(title)
    } else {
        Seq::<char>::empty()
    }) + "\""@ + attrs_fragment(opts.link_attributes) + (if is_external_url(dest) {
        attrs_fragment(opts.external_link_attributes)
    } else {
        Seq::<char>::empty()
    }) + ">"@
}

/// The closing anchor markup: the trusted icon fragment verbatim before
/// `</a>` when the link was external and an icon is configured,
/// otherwise `</a>` alone.
pub open spec fn link_end_fragment(opts: OptionsView, link_was_external: bool) -> Seq<char> {
    if link_was_external && opts.external_link_icon_html is Some {
        opts.external_link_icon_html->0 + "</a>"@
    } else {
        "</a>"@
    }
}

/// Appends one escaped attribute to the output.
fn push_attr(out: &mut String, k: &str, v: &str)
    ensures
        final (out)@ == old(out)@ + attr_fragment(k@, v@),
{
    out.append(" ");
    let ek = escape_attr(k);
    out.append(ek.as_str());
    out.append("=\"");
    let ev = escape_attr(v);
    out.append(ev.as_str());
    out.append("\"");
    proof {
        assert(out@ =~= old(out)@ + attr_fragment(k@, v@));
    }
}

/// Appends a whole attribute list, in list order.
fn push_attrs(out: &mut String, attrs: &Vec<(String, String)>)
    ensures
        final (out)@ == old(out)@ + attrs_fragment(attrs_view(attrs@)),
{
    let ghost avs = attrs_view(attrs@);
    let mut j: usize = 0;
    while j < attrs.len()
        invariant
            j <= attrs.len(),
            avs == attrs_view(attrs@),
            avs.len() == attrs@.len(),
            out@ == old(out)@ + attrs_fragment(avs.take(j as int)),
        decreases attrs.len() - j,
    {
        push_attr(out, attrs[j].0.as_str(), attrs[j].1.as_str());
        proof {
            assert(avs[j as int] == (attrs@[j as int].0@, attrs@[j as int].1@));
            assert(avs.take(j as int).push(avs[j as int]) =~= avs.take(j as int + 1));
            lemma_attrs_fragment_push(avs.take(j as int), avs[j as int]);
        }
        j += 1;
    }
    proof {
        assert(avs.take(attrs@.len() as int) =~= avs);
    }
}

/// Builds the opening anchor tag for a destination and title under the
/// given configuration, and reports the external classification, which
/// the caller must retain for the matching closing tag.
pub fn assemble_link_start(opts: &MarkdownRenderOptions, dest_url: &str, title: &str) -> (r: (
    String,
    bool,
))
    ensures
        r.0@ == link_start_fragment(opts@, dest_url@, title@),
        r.1 == is_external_url(dest_url@),
{
    let is_external = classify_external(dest_url);
    let mut out = String::new();
    out.append("<a href=\"");
    let h = escape_href_part(dest_url);
    out.append(h.as_str());
    if !title.is_empty() {
        out.append("\" title=\"");
        let t = escape_attr(title);
        out.append(t.as_str());
    }
    out.append("\"");
    push_attrs(&mut out, &opts.link_attributes);
    if is_external {
        push_attrs(&mut out, &opts.external_link_attributes);
    }
    out.append(">");
    proof {
        assert(out@ =~= link_start_fragment(opts@, dest_url@, title@));
    }
    (out, is_external)
}

/// Builds the closing anchor markup for a link whose external
/// classification was retained from its opening tag.
pub fn assemble_link_end(opts: &MarkdownRenderOptions, link_was_external: bool) -> (r: String)
    ensures
        r@ == link_end_fragment(opts@, link_was_external),
{
    let mut out = String::new();
    if link_was_external {
        if let Option::Some(icon) = &opts.external_link_icon_html {
            out.append(icon.as_str());
        }
    }
    out.append("</a>");
    proof {
        assert(out@ =~= link_end_fragment(opts@, link_was_external));
    }
    out
}

} // verus!

