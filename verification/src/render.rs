//! The render entry point and its boundary: the tokenizer turns source
//! text into events, the verified filter applies the policy, and the
//! HTML writer serializes what the filter let through. Success and
//! failure are decided entirely by the policy: the render returns
//! `None` exactly when the event stream holds a rejected construct, and
//! on success the returned string is the writer's serialization of the
//! complete filtered stream — never a prefix of it.

use pulldown_cmark::html::push_html;
use pulldown_cmark::Event::{Code, DisplayMath, End, FootnoteReference, Html, InlineHtml, InlineMath, Start, Text};
use pulldown_cmark::{LinkType, Options, Parser, Tag, TagEnd};
use vstd::prelude::*;

use crate::events::{any_abort_event, MdEvent, MdEventView, OutEvent, OutEventView};
use crate::filter::{
    events_view, filter_events, filter_spec, initial_state, lemma_filter_none_iff_abort,
    lemma_plain_stream_ignores_options, out_view, plain_event, FilterOutcome,
};
use crate::options::{default_options_view, MarkdownRenderOptions, OptionsView};

verus! {

/// The document events that the tokenizer derives from a source text,
/// with tables, task lists, strikethrough and math enabled: a function
/// of the source text alone.
pub uninterp spec fn source_events(source: Seq<char>) -> Seq<MdEventView>;

/// What the HTML writer makes of a filtered event stream: a function of
/// the events alone.
pub uninterp spec fn rendered_html(events: Seq<OutEventView>) -> Seq<char>;

/// Relies on `pulldown_cmark::Parser::new_ext` with the tables, task
/// lists, strikethrough and math extensions: yields the document's
/// events in order, deterministically from the source text alone — an
/// empty source yields no events; each event is converted to the
/// library's event type by `convert_event`.
#[verifier::external_body]
fn tokenize(source: &str) -> (r: Vec<MdEvent>)
    ensures
        events_view(r@) == source_events(source@),
        source@.len() == 0 ==> r@.len() == 0,
{
    let flags = Options::ENABLE_TABLES | Options::ENABLE_TASKLISTS | Options::ENABLE_STRIKETHROUGH
        | Options::ENABLE_MATH;
    Parser::new_ext(source, flags).map(convert_event).collect()
}

/// Converts one tokenizer event to the library's event type, one
/// variant arm each: the constructs the policy reads get their plain
/// payloads, every other event rides along unchanged.
#[verifier::external_body]
fn convert_event(e: pulldown_cmark::Event<'_>) -> (r: MdEvent)
{
    match e {
        Start(Tag::Link { link_type: LinkType::Email, .. }) => MdEvent::EmailAutolinkStart,
        Start(Tag::Link { dest_url, title, .. }) => MdEvent::LinkStart {
            dest_url: dest_url.into_string(),
            title: title.into_string(),
        },
        End(TagEnd::Link) => MdEvent::LinkEnd,
        Text(t) => MdEvent::TextRun(t.into_string()),
        Start(Tag::Image { .. }) => MdEvent::ImageStart,
        Start(Tag::CodeBlock(_)) | Code(_) => MdEvent::CodeMarkup,
        InlineMath(_) | DisplayMath(_) => MdEvent::MathMarkup,
        Start(Tag::HtmlBlock) | Html(_) | InlineHtml(_) => MdEvent::RawHtmlMarkup,
        FootnoteReference(_) => MdEvent::FootnoteMark,
        other => MdEvent::Forwarded(other.into_static()),
    }
}

/// Relies on `pulldown_cmark::html::push_html`: serializes the event
/// stream to HTML in order, writing literal HTML events verbatim, text
/// events body-escaped, and structural events as their tags; an empty
/// stream yields the empty string, the result depends on the events
/// alone, and writing into a `String` never fails.
#[verifier::external_body]
fn write_html(events: Vec<OutEvent>) -> (r: String)
    ensures
        r@ == rendered_html(out_view(events@)),
        events@.len() == 0 ==> r@.len() == 0,
{
    let mut out = String::new();
    let iter = events.into_iter().map(|e| match e {
        OutEvent::HtmlLiteral(s) => pulldown_cmark::Event::InlineHtml(s.into()),
        OutEvent::PlainText(s) => pulldown_cmark::Event::Text(s.into()),
        OutEvent::Forwarded(ev) => ev,
    });
    push_html(&mut out, iter);
    out
}

/// A document whose events hold no link, no rejected construct and no
/// bare URL renders to the same HTML string under any configuration as
/// under the default one: no attribute or icon injection is observable.
pub proof fn lemma_plain_render_same_html(opts: OptionsView, evs: Seq<MdEventView>)
    requires
        forall|i: int| 0 <= i < evs.len() ==> plain_event(#[trigger] evs[i]),
    ensures
        filter_spec(opts, evs) is Some,
        rendered_html(filter_spec(opts, evs)->0) == rendered_html(
            filter_spec(default_options_view(), evs)->0,
        ),
{
    lemma_plain_stream_ignores_options(
        opts,
        default_options_view(),
        evs,
        initial_state(),
        initial_state(),
    );
}

/// The configuration a render call works under: the one supplied, or
/// the default when none is.
pub open spec fn chosen_options(options: Option<MarkdownRenderOptions>) -> OptionsView {
    match options {
        Option::Some(o) => o@,
        Option::None => default_options_view(),
    }
}

/// Renders a Markdown source text to a sanitized HTML fragment under
/// the given configuration (the default when none is given). Fails
/// closed: the result is `None` exactly when the document's event
/// stream holds a construct the policy rejects — an email autolink, an
/// image, code, math, raw HTML or a footnote reference — and on no
/// other input. On success the result is the serialization of the
/// complete filtered event stream, so fixed inputs render to one fixed
/// string; an empty document succeeds with an empty fragment.
pub fn markdown_to_html(markdown: &str, options: Option<MarkdownRenderOptions>) -> (r: Option<
    String,
>)
    requires
        chosen_options(options).wf(),
    ensures
        r is None <==> any_abort_event(source_events(markdown@)),
        r matches Option::Some(s) ==> filter_spec(chosen_options(options), source_events(markdown@))
            is Some && s@ == rendered_html(
            filter_spec(chosen_options(options), source_events(markdown@))->0,
        ),
        markdown@.len() == 0 ==> (r matches Option::Some(s) && s@ == Seq::<char>::empty()),
{
    let ghost ov = chosen_options(options);
    let opts = match options {
        Option::Some(o) => o,
        Option::None => MarkdownRenderOptions::default(),
    };
    let events = tokenize(markdown);
    proof {
        assert(opts@ == ov);
        lemma_filter_none_iff_abort(ov, events_view(events@), initial_state());
        if markdown@.len() == 0 {
            assert(events_view(events@) =~= Seq::<MdEventView>::empty());
            assert(source_events(markdown@).len() == 0);
        }
    }
    match filter_events(&opts, events) {
        FilterOutcome::Aborted => Option::None,
        FilterOutcome::Rendered(out) => {
            proof {
                if out@.len() == 0 {
                    assert(out_view(out@) =~= Seq::<OutEventView>::empty());
                }
                if markdown@.len() == 0 {
                    assert(out_view(out@).len() == 0);
                    assert(out@.len() == 0);
                }
            }
            let html = write_html(out);
            proof {
                if markdown@.len() == 0 {
                    assert(html@ =~= Seq::<char>::empty());
                }
            }
            Option::Some(html)
        },
    }
}

} // verus!
