//! The library's view of the tokenizer's document events. Events the
//! policy must read carry plain values; every other event is carried
//! through opaquely, to be handed back to the HTML writer untouched.

use vstd::prelude::*;

verus! {

/// The tokenizer's own event type, carried through the filter opaquely.
#[verifier::external_type_specification]
#[verifier::external_body]
pub struct ExEvent<'a>(pulldown_cmark::Event<'a>);

/// One document event, as the policy sees it. Constructs the policy
/// rejects are collapsed to marker variants; benign structural events
/// ride along in `Forwarded`.
pub enum MdEvent {
    /// A link opened by email-autolink syntax.
    EmailAutolinkStart,
    /// Any other link opening, with its destination and title.
    LinkStart { dest_url: String, title: String },
    /// A link closing.
    LinkEnd,
    /// A plain text run.
    TextRun(String),
    /// An image opening.
    ImageStart,
    /// A code block opening, or an inline code span.
    CodeMarkup,
    /// An inline or display math span.
    MathMarkup,
    /// A raw HTML block opening, or a raw HTML run (block or inline).
    RawHtmlMarkup,
    /// A footnote reference.
    FootnoteMark,
    /// Any other, benign structural event.
    Forwarded(pulldown_cmark::Event<'static>),
}

/// The mathematical model of one event.
pub ghost enum MdEventView {
    EmailAutolinkStart,
    LinkStart { dest_url: Seq<char>, title: Seq<char> },
    LinkEnd,
    TextRun(Seq<char>),
    ImageStart,
    CodeMarkup,
    MathMarkup,
    RawHtmlMarkup,
    FootnoteMark,
    Forwarded(pulldown_cmark::Event<'static>),
}

impl View for MdEvent {
    type V = MdEventView;

    open spec fn view(&self) -> MdEventView {
        match self {
            MdEvent::EmailAutolinkStart => MdEventView::EmailAutolinkStart,
            MdEvent::LinkStart { dest_url, title } => MdEventView::LinkStart {
                dest_url: dest_url@,
                title: title@,
            },
            MdEvent::LinkEnd => MdEventView::LinkEnd,
            MdEvent::TextRun(t) => MdEventView::TextRun(t@),
            MdEvent::ImageStart => MdEventView::ImageStart,
            MdEvent::CodeMarkup => MdEventView::CodeMarkup,
            MdEvent::MathMarkup => MdEventView::MathMarkup,
            MdEvent::RawHtmlMarkup => MdEventView::RawHtmlMarkup,
            MdEvent::FootnoteMark => MdEventView::FootnoteMark,
            MdEvent::Forwarded(ev) => MdEventView::Forwarded(*ev),
        }
    }
}

/// Whether an event (by model) makes the whole render abort.
pub open spec fn abort_event(e: MdEventView) -> bool {
    match e {
        MdEventView::EmailAutolinkStart => true,
        MdEventView::ImageStart => true,
        MdEventView::CodeMarkup => true,
        MdEventView::MathMarkup => true,
        MdEventView::RawHtmlMarkup => true,
        MdEventView::FootnoteMark => true,
        _ => false,
    }
}

/// Whether any event of a stream makes the render abort.
pub open spec fn any_abort_event(evs: Seq<MdEventView>) -> bool {
    exists|i: int| 0 <= i < evs.len() && abort_event(evs[i])
}

/// One event of the filter's output: synthesized literal HTML emitted
/// verbatim, a plain text run escaped downstream, or a benign event
/// handed back to the writer unchanged.
pub enum OutEvent {
    HtmlLiteral(String),
    PlainText(String),
    Forwarded(pulldown_cmark::Event<'static>),
}

/// The mathematical model of one output event.
pub ghost enum OutEventView {
    HtmlLiteral(Seq<char>),
    PlainText(Seq<char>),
    Forwarded(pulldown_cmark::Event<'static>),
}

impl View for OutEvent {
    type V = OutEventView;

    open spec fn view(&self) -> OutEventView {
        match self {
            OutEvent::HtmlLiteral(s) => OutEventView::HtmlLiteral(s@),
            OutEvent::PlainText(s) => OutEventView::PlainText(s@),
            OutEvent::Forwarded(ev) => OutEventView::Forwarded(*ev),
        }
    }
}

} // verus!
