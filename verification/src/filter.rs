//! The policy filter: a single pass over the document events that
//! forwards benign events, replaces links and autolinkable text runs by
//! synthesized markup, and aborts the whole render on any construct the
//! policy rejects. Bare-URL detection applies only to text runs that do
//! not stand inside an open link, so a link's body is never rescanned
//! and its retained external classification reaches its closing tag
//! untouched. Abortion is all-or-nothing: an aborted render exposes no
//! output at all.

use vstd::prelude::*;

use crate::autolink::{autolink_segments, autolink_text, autolinked_fragment, ext_after_segs};
use crate::events::{abort_event, MdEvent, MdEventView, OutEvent, OutEventView};
use crate::links::{
    assemble_link_end, assemble_link_start, is_external_url, link_end_fragment,
    link_start_fragment,
};
use crate::options::{MarkdownRenderOptions, OptionsView};

verus! {

/// The filter's per-render state: the external classification retained
/// from the last opened link or synthesized autolink, and whether an
/// explicit link is currently open.
pub ghost struct FilterState {
    pub ext: bool,
    pub in_link: bool,
}

/// The state at the start of a render.
pub open spec fn initial_state() -> FilterState {
    FilterState { ext: false, in_link: false }
}

/// What one accepted event contributes to the output, given the state
/// in force when it arrives. A text run inside an open link is not
/// scanned for bare URLs and passes through as plain text.
pub open spec fn step_out(opts: OptionsView, e: MdEventView, st: FilterState) -> Seq<
    OutEventView,
> {
    match e {
        MdEventView::LinkStart { dest_url, title } => seq![
            OutEventView::HtmlLiteral(link_start_fragment(opts, dest_url, title)),
        ],
        MdEventView::LinkEnd => seq![OutEventView::HtmlLiteral(link_end_fragment(opts, st.ext))],
        MdEventView::TextRun(t) => {
            if st.in_link || autolink_segments(t).len() <= 1 {
                seq![OutEventView::PlainText(t)]
            } else {
                seq![OutEventView::HtmlLiteral(autolinked_fragment(opts, autolink_segments(t)))]
            }
        },
        MdEventView::Forwarded(ev) => seq![OutEventView::Forwarded(ev)],
        _ => Seq::<OutEventView>::empty(),
    }
}

/// The state after one accepted event: a link opening stores its own
/// classification and marks the link open, its closing marks it shut, a
/// scanned text run leaves behind its last autolink's classification,
/// and every other event changes nothing.
pub open spec fn step_state(e: MdEventView, st: FilterState) -> FilterState {
    match e {
        MdEventView::LinkStart { dest_url, .. } => FilterState {
            ext: is_external_url(dest_url),
            in_link: true,
        },
        MdEventView::LinkEnd => FilterState { ext: st.ext, in_link: false },
        MdEventView::TextRun(t) => {
            if st.in_link {
                st
            } else {
                FilterState { ext: ext_after_segs(autolink_segments(t), st.ext), in_link: false }
            }
        },
        _ => st,
    }
}

/// The filtered output for an event stream, starting from a given
/// state: `None` exactly when some event aborts the render.
pub open spec fn filter_from(opts: OptionsView, evs: Seq<MdEventView>, st: FilterState) -> Option<
    Seq<OutEventView>,
>
    decreases evs.len(),
{
    if evs.len() == 0 {
        Option::Some(Seq::<OutEventView>::empty())
    } else if abort_event(evs[0]) {
        Option::None
    } else {
        match filter_from(opts, evs.drop_first(), step_state(evs[0], st)) {
            Option::Some(rest) => Option::Some(step_out(opts, evs[0], st) + rest),
            Option::None => Option::None,
        }
    }
}

/// The filtered output for a whole render, from the initial state.
pub open spec fn filter_spec(opts: OptionsView, evs: Seq<MdEventView>) -> Option<
    Seq<OutEventView>,
> {
    filter_from(opts, evs, initial_state())
}

/// The filter aborts exactly when the stream holds a rejected event,
/// wherever it stands and whatever else the stream holds.
pub proof fn lemma_filter_none_iff_abort(opts: OptionsView, evs: Seq<MdEventView>, st: FilterState)
    ensures
        (filter_from(opts, evs, st) is None) <==> (exists|i: int|
            0 <= i < evs.len() && abort_event(evs[i])),
    decreases evs.len(),
{
    if evs.len() == 0 {
    } else if abort_event(evs[0]) {
        assert(abort_event(evs[0]));
    } else {
        lemma_filter_none_iff_abort(opts, evs.drop_first(), step_state(evs[0], st));
        if exists|i: int| 0 <= i < evs.len() && abort_event(evs[i]) {
            let i = choose|i: int| 0 <= i < evs.len() && abort_event(evs[i]);
            assert(i != 0);
            assert(abort_event(evs.drop_first()[i - 1]));
        }
        if exists|i: int| 0 <= i < evs.drop_first().len() && abort_event(evs.drop_first()[i]) {
            let i = choose|i: int|
                0 <= i < evs.drop_first().len() && abort_event(evs.drop_first()[i]);
            assert(abort_event(evs[i + 1]));
        }
    }
}

/// The outcome of one render's filtering: either the complete filtered
/// event stream, or an abort that exposes no output at all.
pub enum FilterOutcome {
    Aborted,
    Rendered(Vec<OutEvent>),
}

/// The model of an event stream.
pub open spec fn events_view(evs: Seq<MdEvent>) -> Seq<MdEventView> {
    evs.map_values(|e: MdEvent| e@)
}

/// The model of an output stream.
pub open spec fn out_view(out: Seq<OutEvent>) -> Seq<OutEventView> {
    out.map_values(|o: OutEvent| o@)
}

/// An already-produced output prefix in front of a pending result.
pub open spec fn prepend_out(prefix: Seq<OutEventView>, rest: Option<Seq<OutEventView>>) -> Option<
    Seq<OutEventView>,
> {
    match rest {
        Option::Some(r) => Option::Some(prefix + r),
        Option::None => Option::None,
    }
}

/// Runs the policy filter over a whole event stream: the outcome is the
/// filtered stream exactly as `filter_spec` gives it, or `Aborted`
/// exactly when `filter_spec` gives none.
pub fn filter_events(opts: &MarkdownRenderOptions, events: Vec<MdEvent>) -> (r: FilterOutcome)
    requires
        opts@.wf(),
    ensures
        ({
            let res = filter_spec(opts@, events_view(events@));
            match r {
                FilterOutcome::Aborted => res is None,
                FilterOutcome::Rendered(out) => res == Option::Some(out_view(out@)),
            }
        }),
{
    let ghost all = events_view(events@);
    let mut pending = events;
    let mut out: Vec<OutEvent> = Vec::new();
    let mut ext = false;
    let mut in_link = false;
    let ghost mut st = initial_state();
    proof {
        assert(prepend_out(out_view(out@), filter_from(opts@, all, st)) == filter_from(
            opts@,
            all,
            st,
        )) by {
            assert(out_view(out@) =~= Seq::<OutEventView>::empty());
            if filter_from(opts@, all, st) is Some {
                assert(out_view(out@) + filter_from(opts@, all, st)->0 =~= filter_from(
                    opts@,
                    all,
                    st,
                )->0);
            }
        }
    }
    while pending.len() > 0
        invariant
            opts@.wf(),
            all == events_view(events@),
            st == (FilterState { ext, in_link }),
            filter_spec(opts@, all) == prepend_out(
                out_view(out@),
                filter_from(opts@, events_view(pending@), st),
            ),
        decreases pending.len(),
    {
        let ghost s = events_view(pending@);
        let e = pending.remove(0);
        proof {
            assert(s[0] == e@);
            assert(events_view(pending@) =~= s.drop_first());
        }
        let ghost rest = filter_from(opts@, s.drop_first(), step_state(e@, st));
        match e {
            MdEvent::EmailAutolinkStart => {
                return FilterOutcome::Aborted;
            },
            MdEvent::ImageStart => {
                return FilterOutcome::Aborted;
            },
            MdEvent::CodeMarkup => {
                return FilterOutcome::Aborted;
            },
            MdEvent::MathMarkup => {
                return FilterOutcome::Aborted;
            },
            MdEvent::RawHtmlMarkup => {
                return FilterOutcome::Aborted;
            },
            MdEvent::FootnoteMark => {
                return FilterOutcome::Aborted;
            },
            MdEvent::LinkStart { dest_url, title } => {
                let (anchor, is_ext) = assemble_link_start(
                    opts,
                    dest_url.as_str(),
                    title.as_str(),
                );
                proof {
                    lemma_step(out_view(out@), step_out(opts@, s[0], st), rest);
                }
                out.push(OutEvent::HtmlLiteral(anchor));
                ext = is_ext;
                in_link = true;
            },
            MdEvent::LinkEnd => {
                let closing = assemble_link_end(opts, ext);
                proof {
                    lemma_step(out_view(out@), step_out(opts@, s[0], st), rest);
                }
                out.push(OutEvent::HtmlLiteral(closing));
                in_link = false;
            },
            MdEvent::TextRun(t) => {
                proof {
                    lemma_step(out_view(out@), step_out(opts@, s[0], st), rest);
                }
                if in_link {
                    out.push(OutEvent::PlainText(t));
                } else {
                    let (rebuilt, ext2) = autolink_text(opts, t.as_str(), ext);
                    match rebuilt {
                        Option::Some(html) => {
                            out.push(OutEvent::HtmlLiteral(html));
                        },
                        Option::None => {
                            out.push(OutEvent::PlainText(t));
                        },
                    }
                    ext = ext2;
                }
            },
            MdEvent::Forwarded(ev) => {
                proof {
                    lemma_step(out_view(out@), step_out(opts@, s[0], st), rest);
                }
                out.push(OutEvent::Forwarded(ev));
            },
        }
        proof {
            st = step_state(s[0], st);
        }
    }
    proof {
        assert(events_view(pending@) =~= Seq::<MdEventView>::empty());
        assert(filter_from(opts@, events_view(pending@), st) == Option::Some(
            Seq::<OutEventView>::empty(),
        ));
        assert(out_view(out@) + Seq::<OutEventView>::empty() =~= out_view(out@));
    }
    FilterOutcome::Rendered(out)
}

/// An event that neither aborts the render nor carries any link or
/// bare URL: a text run the bare-URL pattern leaves whole, or a benign
/// structural event.
pub open spec fn plain_event(e: MdEventView) -> bool {
    match e {
        MdEventView::TextRun(t) => autolink_segments(t).len() <= 1,
        MdEventView::Forwarded(_) => true,
        _ => false,
    }
}

/// A document with no links, no rejected constructs and no bare URLs
/// renders successfully, and renders the same whatever the
/// configuration and whatever state is in force: no attribute or icon
/// injection is observable on it.
pub proof fn lemma_plain_stream_ignores_options(
    opts1: OptionsView,
    opts2: OptionsView,
    evs: Seq<MdEventView>,
    st1: FilterState,
    st2: FilterState,
)
    requires
        forall|i: int| 0 <= i < evs.len() ==> plain_event(#[trigger] evs[i]),
    ensures
        filter_from(opts1, evs, st1) is Some,
        filter_from(opts1, evs, st1) == filter_from(opts2, evs, st2),
    decreases evs.len(),
{
    if evs.len() > 0 {
        assert(plain_event(evs[0]));
        assert(forall|i: int|
            0 <= i < evs.drop_first().len() ==> plain_event(#[trigger] evs.drop_first()[i]));
        lemma_plain_stream_ignores_options(
            opts1,
            opts2,
            evs.drop_first(),
            step_state(evs[0], st1),
            step_state(evs[0], st2),
        );
        assert(step_out(opts1, evs[0], st1) == step_out(opts2, evs[0], st2));
    }
}

/// For one configuration and one event stream there is exactly one
/// filtered output: the filter's contract pins each render to this
/// value, so repeated renders of a fixed input cannot differ at the
/// filtering stage.
pub proof fn lemma_filter_outcome_unique(
    opts: OptionsView,
    evs: Seq<MdEventView>,
    out1: Seq<OutEventView>,
    out2: Seq<OutEventView>,
)
    requires
        filter_spec(opts, evs) == Option::Some(out1),
        filter_spec(opts, evs) == Option::Some(out2),
    ensures
        out1 == out2,
{
}

/// One step of the production: pushing the event's single output event
/// onto the prefix commutes with prepending.
proof fn lemma_step(prefix: Seq<OutEventView>, step: Seq<OutEventView>, rest: Option<
    Seq<OutEventView>,
>)
    requires
        step.len() == 1,
    ensures
        prepend_out(prefix, prepend_out(step, rest)) == prepend_out(prefix.push(step[0]), rest),
{
    match rest {
        Option::Some(r) => {
            assert(prefix + (step + r) =~= prefix.push(step[0]) + r);
        },
        Option::None => {
        },
    }
}

} // verus!
