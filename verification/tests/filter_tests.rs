use md_sanitize::events::{MdEvent, OutEvent};
use md_sanitize::filter::{filter_events, FilterOutcome};
use md_sanitize::links::classify_external;
use md_sanitize::MarkdownRenderOptions;

fn no_options() -> MarkdownRenderOptions {
    MarkdownRenderOptions {
        link_attributes: Vec::new(),
        external_link_attributes: Vec::new(),
        external_link_icon_html: None,
    }
}

#[test]
fn external_iff_http_prefix() {
    assert!(classify_external("http://a.example/"));
    assert!(classify_external("https://a.example/"));
    assert!(classify_external("httpanything"));
    assert!(classify_external("http"));
    assert!(!classify_external("htt"));
    assert!(!classify_external(""));
    assert!(!classify_external("/local/path"));
    assert!(!classify_external("ftp://a.example/"));
    assert!(!classify_external("Http://a.example/"));
}

#[test]
fn footnote_reference_event_aborts_filtering() {
    let events = vec![
        MdEvent::Forwarded(pulldown_cmark::Event::Rule),
        MdEvent::FootnoteMark,
        MdEvent::TextRun("after".to_string()),
    ];
    assert!(matches!(
        filter_events(&no_options(), events),
        FilterOutcome::Aborted
    ));
}

#[test]
fn empty_stream_renders_to_nothing() {
    match filter_events(&no_options(), Vec::new()) {
        FilterOutcome::Rendered(out) => assert!(out.is_empty()),
        FilterOutcome::Aborted => panic!("empty stream must not abort"),
    }
}

#[test]
fn benign_events_pass_through_unchanged() {
    let events = vec![
        MdEvent::Forwarded(pulldown_cmark::Event::Rule),
        MdEvent::TextRun("no urls here".to_string()),
    ];
    match filter_events(&no_options(), events) {
        FilterOutcome::Rendered(out) => {
            assert_eq!(out.len(), 2);
            assert!(matches!(&out[0], OutEvent::Forwarded(pulldown_cmark::Event::Rule)));
            match &out[1] {
                OutEvent::PlainText(t) => assert_eq!(t, "no urls here"),
                _ => panic!("text run without a bare URL must stay plain text"),
            }
        },
        FilterOutcome::Aborted => panic!("benign stream must not abort"),
    }
}

#[test]
fn explicit_link_events_become_literal_markup() {
    let mut opts = no_options();
    opts.external_link_attributes
        .push(("target".to_string(), "_blank".to_string()));
    opts.external_link_icon_html = Some("<i></i>".to_string());
    let events = vec![
        MdEvent::LinkStart {
            dest_url: "https://a.example/x".to_string(),
            title: String::new(),
        },
        MdEvent::TextRun("label".to_string()),
        MdEvent::LinkEnd,
    ];
    match filter_events(&opts, events) {
        FilterOutcome::Rendered(out) => {
            assert_eq!(out.len(), 3);
            match &out[0] {
                OutEvent::HtmlLiteral(s) => {
                    assert_eq!(s, "<a href=\"https://a.example/x\" target=\"_blank\">")
                },
                _ => panic!("link start must become literal markup"),
            }
            match &out[2] {
                OutEvent::HtmlLiteral(s) => assert_eq!(s, "<i></i></a>"),
                _ => panic!("link end must become literal markup"),
            }
        },
        FilterOutcome::Aborted => panic!("links must not abort"),
    }
}

#[test]
fn text_run_with_bare_url_becomes_one_literal() {
    let events = vec![MdEvent::TextRun("go https://e.dev/p now".to_string())];
    match filter_events(&no_options(), events) {
        FilterOutcome::Rendered(out) => {
            assert_eq!(out.len(), 1);
            match &out[0] {
                OutEvent::HtmlLiteral(s) => assert_eq!(
                    s,
                    "go <a href=\"https://e.dev/p\">https://e.dev/p</a> now"
                ),
                _ => panic!("a run with a bare URL must be rebuilt as literal markup"),
            }
        },
        FilterOutcome::Aborted => panic!("bare URLs must not abort"),
    }
}

#[test]
fn text_inside_link_is_not_scanned_for_bare_urls() {
    let mut opts = no_options();
    opts.external_link_icon_html = Some("<i/>".to_string());
    let events = vec![
        MdEvent::LinkStart {
            dest_url: "/local".to_string(),
            title: String::new(),
        },
        MdEvent::TextRun("see https://i.dev/y".to_string()),
        MdEvent::LinkEnd,
    ];
    match filter_events(&opts, events) {
        FilterOutcome::Rendered(out) => {
            assert_eq!(out.len(), 3);
            // Inside an open link the run passes through unscanned: no
            // nested anchor is synthesized around the bare URL.
            match &out[1] {
                OutEvent::PlainText(t) => assert_eq!(t, "see https://i.dev/y"),
                _ => panic!("a run inside a link must stay plain text"),
            }
            // The local link's own classification reaches its closing
            // tag untouched: no icon on a non-external link.
            match &out[2] {
                OutEvent::HtmlLiteral(s) => assert_eq!(s, "</a>"),
                _ => panic!("link end must become literal markup"),
            }
        },
        FilterOutcome::Aborted => panic!("links must not abort"),
    }
}
