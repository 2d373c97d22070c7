//! Bare-URL promotion inside plain text runs: a fixed, heuristic
//! bare-URL pattern is matched by `regex_lite`, and the run is rebuilt
//! as escaped text interleaved with synthesized anchor markup around
//! every match.

use vstd::prelude::*;
use vstd::string::StringExecFns;

use crate::escape::{body_escaped, escape_body};
use crate::links::{
    assemble_link_end, assemble_link_start, is_external_url, link_end_fragment,
    link_start_fragment,
};
use crate::options::{MarkdownRenderOptions, OptionsView};

verus! {

/// How the bare-URL pattern splits a text run: an alternation of
/// `(gap, matched)` pairs, the gaps being the text between matches and
/// the matches the bare URLs themselves, left to right; the final pair
/// carries the trailing text with an empty match. A function of the
/// input text alone.
pub uninterp spec fn autolink_segments(s: Seq<char>) -> Seq<(Seq<char>, Seq<char>)>;

/// The gaps and matches of a segment list, concatenated back in order.
pub open spec fn segs_concat(segs: Seq<(Seq<char>, Seq<char>)>) -> Seq<char>
    decreases segs.len(),
{
    if segs.len() == 0 {
        Seq::<char>::empty()
    } else {
        (segs[0].0 + segs[0].1) + segs_concat(segs.drop_first())
    }
}

/// Relies on `regex_lite::Regex::find_iter` with the bare-URL pattern:
/// the matches are non-overlapping, never empty, begin with the pattern's
/// literal `http`, and are found left to right; the returned pairs
/// alternate the text before each match with the match itself and end on
/// the trailing text paired with an empty match, so together they cover
/// the text exactly once, and a text with no match comes back whole as
/// the one gap.
#[verifier::external_body]
fn split_autolinks(text: &str) -> (r: Vec<(String, String)>)
    ensures
        r@.map_values(|p: (String, String)| (p.0@, p.1@)) == autolink_segments(text@),
        r@.len() >= 1,
        r@[r@.len() - 1].1@.len() == 0,
        forall|i: int| 0 <= i < r@.len() - 1 ==> (#[trigger] r@[i].1@).len() > 0,
        forall|i: int| 0 <= i < r@.len() - 1 ==> is_external_url((#[trigger] r@[i].1)@),
        segs_concat(r@.map_values(|p: (String, String)| (p.0@, p.1@))) == text@,
        r@.len() == 1 ==> r@[0].0@ == text@,
{
    let pattern = r#"https?:\/\/(www\.)?[-a-zA-Z0-9@:%._\+~#=]{1,256}\.[a-zA-Z0-9()]{1,6}\b([-a-zA-Z0-9()@:%_\+.~#?&//=]*)"#;
    let re = regex_lite::Regex::new(pattern).unwrap();
    let mut segs: Vec<(String, String)> = Vec::new();
    let mut last: usize = 0;
    for m in re.find_iter(text) {
        segs.push((text[last..m.start()].to_string(), m.as_str().to_string()));
        last = m.end();
    }
    segs.push((text[last..].to_string(), String::new()));
    segs
}

/// One segment's contribution to the rebuilt run: the escaped gap, then,
/// for a non-empty match, an anchor around the escaped match text, with
/// the match itself as destination and an empty title.
pub open spec fn autolink_piece(opts: OptionsView, gap: Seq<char>, m: Seq<char>) -> Seq<char> {
    body_escaped(gap) + if m.len() > 0 {
        link_start_fragment(opts, m, Seq::<char>::empty()) + body_escaped(m) + link_end_fragment(
            opts,
            is_external_url(m),
        )
    } else {
        Seq::<char>::empty()
    }
}

/// The whole rebuilt run, segment by segment.
pub open spec fn autolinked_fragment(
    opts: OptionsView,
    segs: Seq<(Seq<char>, Seq<char>)>,
) -> Seq<char>
    decreases segs.len(),
{
    if segs.len() == 0 {
        Seq::<char>::empty()
    } else {
        autolink_piece(opts, segs[0].0, segs[0].1) + autolinked_fragment(opts, segs.drop_first())
    }
}

/// The external-link flag left behind after a run: each synthesized
/// anchor overwrites it with its own classification, so it ends on the
/// last match's classification, or keeps its old value when the run
/// held no match.
pub open spec fn ext_after_segs(segs: Seq<(Seq<char>, Seq<char>)>, ext0: bool) -> bool
    decreases segs.len(),
{
    if segs.len() == 0 {
        ext0
    } else {
        ext_after_segs(
            segs.drop_first(),
            if segs[0].1.len() > 0 {
                is_external_url(segs[0].1)
            } else {
                ext0
            },
        )
    }
}

proof fn lemma_autolinked_fragment_push(
    opts: OptionsView,
    segs: Seq<(Seq<char>, Seq<char>)>,
    p: (Seq<char>, Seq<char>),
)
    ensures
        autolinked_fragment(opts, segs.push(p)) == autolinked_fragment(opts, segs)
            + autolink_piece(opts, p.0, p.1),
    decreases segs.len(),
{
    let s1 = segs.push(p);
    assert(s1[0] == if segs.len() == 0 {
        p
    } else {
        segs[0]
    });
    if segs.len() == 0 {
        assert(s1.drop_first() =~= Seq::<(Seq<char>, Seq<char>)>::empty());
        assert(autolinked_fragment(opts, s1.drop_first()) =~= Seq::<char>::empty());
        assert(autolinked_fragment(opts, s1) =~= autolinked_fragment(opts, segs) + autolink_piece(
            opts,
            p.0,
            p.1,
        ));
    } else {
        assert(s1.drop_first() =~= segs.drop_first().push(p));
        lemma_autolinked_fragment_push(opts, segs.drop_first(), p);
        assert(autolinked_fragment(opts, s1) == autolink_piece(opts, segs[0].0, segs[0].1) + (
        autolinked_fragment(opts, segs.drop_first()) + autolink_piece(opts, p.0, p.1)));
        assert(autolinked_fragment(opts, s1) =~= autolinked_fragment(opts, segs) + autolink_piece(
            opts,
            p.0,
            p.1,
        ));
    }
}

proof fn lemma_ext_after_segs_push(
    segs: Seq<(Seq<char>, Seq<char>)>,
    p: (Seq<char>, Seq<char>),
    ext0: bool,
)
    ensures
        ext_after_segs(segs.push(p), ext0) == if p.1.len() > 0 {
            is_external_url(p.1)
        } else {
            ext_after_segs(segs, ext0)
        },
    decreases segs.len(),
{
    let s1 = segs.push(p);
    assert(s1[0] == if segs.len() == 0 {
        p
    } else {
        segs[0]
    });
    if segs.len() == 0 {
        let e = if p.1.len() > 0 {
            is_external_url(p.1)
        } else {
            ext0
        };
        assert(s1.drop_first() =~= Seq::<(Seq<char>, Seq<char>)>::empty());
        assert(ext_after_segs(s1.drop_first(), e) == e);
        assert(ext_after_segs(s1, ext0) == e);
    } else {
        assert(s1.drop_first() =~= segs.drop_first().push(p));
        let e1 = if segs[0].1.len() > 0 {
            is_external_url(segs[0].1)
        } else {
            ext0
        };
        lemma_ext_after_segs_push(segs.drop_first(), p, e1);
    }
}

/// Rebuilds one text run. When the run holds no bare URL it is handed
/// back as plain text, to be escaped downstream like any other text
/// event; otherwise the rebuilt, already-escaped markup is returned.
/// The second result is the external-link flag the run leaves behind.
/// The run's segments cover it exactly once, and every detected
/// autolink begins with `http`, so every one is classified external.
pub fn autolink_text(opts: &MarkdownRenderOptions, text: &str, ext0: bool) -> (r: (
    Option<String>,
    bool,
))
    ensures
        ({
            let segs = autolink_segments(text@);
            &&& (r.0 is None <==> segs.len() <= 1)
            &&& (r.0 is Some ==> r.0->0@ == autolinked_fragment(opts@, segs))
            &&& r.1 == ext_after_segs(segs, ext0)
            &&& segs_concat(segs) == text@
            &&& forall|i: int|
                0 <= i < segs.len() - 1 ==> is_external_url((#[trigger] segs[i]).1)
        }),
{
    let segs = split_autolinks(text);
    let ghost segv = autolink_segments(text@);
    proof {
        assert(segv.len() == segs@.len());
        assert(forall|i: int|
            0 <= i < segs@.len() ==> segv[i] == ((#[trigger] segs@[i]).0@, segs@[i].1@));
    }
    if segs.len() == 1 {
        proof {
            assert(segv[0].1.len() == 0);
            assert(segv.drop_first() =~= Seq::<(Seq<char>, Seq<char>)>::empty());
            assert(ext_after_segs(segv.drop_first(), ext0) == ext0);
            assert(ext_after_segs(segv, ext0) == ext0);
        }
        return (Option::None, ext0);
    }
    let mut out = String::new();
    let mut ext = ext0;
    let mut j: usize = 0;
    while j < segs.len()
        invariant
            j <= segs.len(),
            segv == autolink_segments(text@),
            segv.len() == segs@.len(),
            forall|i: int|
                0 <= i < segs@.len() ==> segv[i] == ((#[trigger] segs@[i]).0@, segs@[i].1@),
            out@ == autolinked_fragment(opts@, segv.take(j as int)),
            ext == ext_after_segs(segv.take(j as int), ext0),
        decreases segs.len() - j,
    {
        proof {
            assert(autolinked_fragment(opts@, segv.take(0int)) =~= Seq::<char>::empty());
            assert(segv.take(j as int).push(segv[j as int]) =~= segv.take(j as int + 1));
            lemma_autolinked_fragment_push(opts@, segv.take(j as int), segv[j as int]);
            lemma_ext_after_segs_push(segv.take(j as int), segv[j as int], ext0);
        }
        let gap = escape_body(segs[j].0.as_str());
        out.append(gap.as_str());
        if !segs[j].1.as_str().is_empty() {
            let (anchor, is_ext) = assemble_link_start(opts, segs[j].1.as_str(), "");
            out.append(anchor.as_str());
            let body = escape_body(segs[j].1.as_str());
            out.append(body.as_str());
            let closing = assemble_link_end(opts, is_ext);
            out.append(closing.as_str());
            ext = is_ext;
            proof {
                reveal_strlit("");
                assert(""@ =~= Seq::<char>::empty());
                assert(out@ =~= autolinked_fragment(opts@, segv.take(j as int + 1)));
            }
        } else {
            proof {
                assert(out@ =~= autolinked_fragment(opts@, segv.take(j as int + 1)));
            }
        }
        j += 1;
    }
    proof {
        assert(segv.take(segv.len() as int) =~= segv);
    }
    (Option::Some(out), ext)
}

} // verus!
