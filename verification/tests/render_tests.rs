use md_sanitize::markdown_to_html;
use md_sanitize::MarkdownRenderOptions;

fn default_options() -> MarkdownRenderOptions {
    MarkdownRenderOptions {
        link_attributes: Vec::new(),
        external_link_attributes: Vec::new(),
        external_link_icon_html: None,
    }
}

fn attrs(pairs: &[(&str, &str)]) -> Vec<(String, String)> {
    let mut v = Vec::new();
    for (k, val) in pairs {
        v.push((k.to_string(), val.to_string()));
    }
    v
}

#[test]
fn empty_input_is_empty_success() {
    assert_eq!(markdown_to_html("", None), Some(String::new()));
}

#[test]
fn plain_paragraph_renders() {
    let out = markdown_to_html("Hello *world*.", None).unwrap();
    assert_eq!(out, "<p>Hello <em>world</em>.</p>\n");
}

#[test]
fn plain_text_ignores_options() {
    let source = "Just some *plain* prose with no links at all.\n\n# And a heading";
    let mut opts = default_options();
    opts.link_attributes = attrs(&[("rel", "nofollow")]);
    opts.external_link_attributes = attrs(&[("target", "_blank")]);
    opts.external_link_icon_html = Some("<i></i>".to_string());
    let with_opts = markdown_to_html(source, Some(opts)).unwrap();
    let with_default = markdown_to_html(source, None).unwrap();
    assert_eq!(with_opts, with_default);
}

#[test]
fn repeated_renders_are_identical() {
    let source = "See https://example.com/page and [x](/local).";
    let mk = || {
        let mut o = default_options();
        o.link_attributes = attrs(&[("rel", "nofollow")]);
        o.external_link_icon_html = Some("<i></i>".to_string());
        o
    };
    let first = markdown_to_html(source, Some(mk()));
    let second = markdown_to_html(source, Some(mk()));
    assert_eq!(first, second);
    assert!(first.is_some());
}

#[test]
fn email_autolink_aborts() {
    assert_eq!(markdown_to_html("Contact <user@example.com> please.", None), None);
}

#[test]
fn fenced_code_block_aborts() {
    assert_eq!(markdown_to_html("before\n\n```\ncode\n```\n\nafter", None), None);
}

#[test]
fn indented_code_block_aborts() {
    assert_eq!(markdown_to_html("text\n\n    indented code\n", None), None);
}

#[test]
fn inline_code_aborts() {
    assert_eq!(markdown_to_html("a `b` c", None), None);
}

#[test]
fn image_aborts() {
    assert_eq!(markdown_to_html("![alt](image.png)", None), None);
}

#[test]
fn inline_math_aborts() {
    assert_eq!(markdown_to_html("value $x + y$ here", None), None);
}

#[test]
fn display_math_aborts() {
    assert_eq!(markdown_to_html("$$\\sum_i x_i$$", None), None);
}

#[test]
fn html_block_aborts() {
    assert_eq!(markdown_to_html("<div>\nhello\n</div>", None), None);
}

#[test]
fn inline_html_aborts() {
    assert_eq!(markdown_to_html("hello <b>world</b>", None), None);
}

#[test]
fn bare_url_is_autolinked() {
    let out = markdown_to_html("See https://example.com/page for info.", None).unwrap();
    assert_eq!(
        out,
        "<p>See <a href=\"https://example.com/page\">https://example.com/page</a> for info.</p>\n"
    );
}

#[test]
fn local_link_gets_link_attributes_only() {
    let mut opts = default_options();
    opts.link_attributes = attrs(&[("rel", "nofollow")]);
    let out = markdown_to_html("[text](/local)", Some(opts)).unwrap();
    assert_eq!(out, "<p><a href=\"/local\" rel=\"nofollow\">text</a></p>\n");

    let mut opts2 = default_options();
    opts2.external_link_attributes = attrs(&[("target", "_blank")]);
    let out2 = markdown_to_html("[text](/local)", Some(opts2)).unwrap();
    assert_eq!(out2, "<p><a href=\"/local\">text</a></p>\n");
}

#[test]
fn external_link_gets_external_attributes_and_icon() {
    let mut opts = default_options();
    opts.external_link_attributes = attrs(&[("target", "_blank")]);
    opts.external_link_icon_html = Some("<i></i>".to_string());
    let out = markdown_to_html("[text](https://ext.example/x)", Some(opts)).unwrap();
    assert_eq!(
        out,
        "<p><a href=\"https://ext.example/x\" target=\"_blank\">text<i></i></a></p>\n"
    );
}

#[test]
fn link_attributes_come_before_external_ones_in_list_order() {
    let mut opts = default_options();
    opts.link_attributes = attrs(&[("rel", "nofollow"), ("class", "md")]);
    opts.external_link_attributes = attrs(&[("target", "_blank")]);
    let out = markdown_to_html("[t](https://e.example/)", Some(opts)).unwrap();
    assert_eq!(
        out,
        "<p><a href=\"https://e.example/\" rel=\"nofollow\" class=\"md\" target=\"_blank\">t</a></p>\n"
    );
}

#[test]
fn trailing_punctuation_stays_outside_the_autolink() {
    let out = markdown_to_html("Visit https://example.com/a,b.", None).unwrap();
    assert_eq!(
        out,
        "<p>Visit <a href=\"https://example.com/a\">https://example.com/a</a>,b.</p>\n"
    );
}

#[test]
fn autolink_counts_as_external_for_attributes_and_icon() {
    let mut opts = default_options();
    opts.external_link_attributes = attrs(&[("target", "_blank")]);
    opts.external_link_icon_html = Some("<svg/>".to_string());
    let out = markdown_to_html("go to https://www.example.org/dir now", Some(opts)).unwrap();
    assert_eq!(
        out,
        "<p>go to <a href=\"https://www.example.org/dir\" target=\"_blank\">https://www.example.org/dir<svg/></a> now</p>\n"
    );
}

#[test]
fn attribute_values_are_html_escaped() {
    let mut opts = default_options();
    opts.link_attributes = attrs(&[("data-note", "a\"b<c")]);
    let out = markdown_to_html("[t](/x)", Some(opts)).unwrap();
    assert_eq!(out, "<p><a href=\"/x\" data-note=\"a&quot;b&lt;c\">t</a></p>\n");
    assert!(!out.contains("a\"b<c"));
}

#[test]
fn link_title_is_escaped() {
    let out = markdown_to_html("[t](/x \"a\\\"b\")", None).unwrap();
    assert_eq!(out, "<p><a href=\"/x\" title=\"a&quot;b\">t</a></p>\n");
}

#[test]
fn tables_tasklists_and_strikethrough_pass_through() {
    let table = "| a | b |\n|---|---|\n| 1 | 2 |";
    assert!(markdown_to_html(table, None).is_some());
    let tasks = "- [x] done\n- [ ] open";
    assert!(markdown_to_html(tasks, None).is_some());
    let strike = "~~gone~~";
    let out = markdown_to_html(strike, None).unwrap();
    assert_eq!(out, "<p><del>gone</del></p>\n");
}

#[test]
fn surrounding_text_of_autolink_is_escaped() {
    let out = markdown_to_html("1 < 2 & https://a.dev/x & 3 > 2", None).unwrap();
    assert_eq!(
        out,
        "<p>1 &lt; 2 &amp; <a href=\"https://a.dev/x\">https://a.dev/x</a> &amp; 3 &gt; 2</p>\n"
    );
}

#[test]
fn href_unsafe_characters_are_percent_escaped() {
    let out = markdown_to_html("[t](</x y\"z>)", None).unwrap();
    assert_eq!(out, "<p><a href=\"/x%20y%22z\">t</a></p>\n");
}

#[test]
fn bare_url_in_link_text_is_not_autolinked() {
    let mut opts = default_options();
    opts.external_link_icon_html = Some("<i/>".to_string());
    let out = markdown_to_html("[see https://i.dev/y](/local)", Some(opts)).unwrap();
    assert_eq!(out, "<p><a href=\"/local\">see https://i.dev/y</a></p>\n");
}
