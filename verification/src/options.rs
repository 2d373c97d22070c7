//! Caller-supplied render configuration: attributes added to every
//! link, attributes added only to external links, and an optional
//! trusted HTML fragment placed before the closing tag of external
//! links. The attribute lists keep their order, so output is stable.

use vstd::prelude::*;

verus! {

/// Configuration for one render call. The attribute lists are ordered
/// `(name, value)` pairs; names and values are escaped before emission.
/// `external_link_icon_html` is deliberately trusted, pre-formed markup
/// from the caller and is emitted verbatim, unlike every other field.
pub struct MarkdownRenderOptions {
    pub link_attributes: Vec<(String, String)>,
    pub external_link_attributes: Vec<(String, String)>,
    pub external_link_icon_html: Option<String>,
}

/// The mathematical model of the configuration: attribute lists as
/// sequences of character-sequence pairs.
pub ghost struct OptionsView {
    pub link_attributes: Seq<(Seq<char>, Seq<char>)>,
    pub external_link_attributes: Seq<(Seq<char>, Seq<char>)>,
    pub external_link_icon_html: Option<Seq<char>>,
}

/// The view of one ordered attribute list.
pub open spec fn attrs_view(v: Seq<(String, String)>) -> Seq<(Seq<char>, Seq<char>)> {
    v.map_values(|p: (String, String)| (p.0@, p.1@))
}

impl View for MarkdownRenderOptions {
    type V = OptionsView;

    open spec fn view(&self) -> OptionsView {
        OptionsView {
            link_attributes: attrs_view(self.link_attributes@),
            external_link_attributes: attrs_view(self.external_link_attributes@),
            external_link_icon_html: match self.external_link_icon_html {
                Option::Some(s) => Option::Some(s@),
                Option::None => Option::None,
            },
        }
    }
}

impl OptionsView {
    /// Well-formed configuration: within each attribute list the
    /// attribute names are distinct, as they are for any configuration
    /// marshalled from a map keyed by attribute name.
    pub open spec fn wf(self) -> bool {
        (forall|i: int, j: int|
            0 <= i < j < self.link_attributes.len() ==> (#[trigger] self.link_attributes[i]).0 != (
            #[trigger] self.link_attributes[j]).0) && (forall|i: int, j: int|
            0 <= i < j < self.external_link_attributes.len() ==> (
            #[trigger] self.external_link_attributes[i]).0 != (
            #[trigger] self.external_link_attributes[j]).0)
    }
}

/// The model of the default configuration: empty attribute lists and no
/// external-link icon.
pub open spec fn default_options_view() -> OptionsView {
    OptionsView {
        link_attributes: Seq::<(Seq<char>, Seq<char>)>::empty(),
        external_link_attributes: Seq::<(Seq<char>, Seq<char>)>::empty(),
        external_link_icon_html: Option::None,
    }
}

impl Default for MarkdownRenderOptions {
    /// The default configuration adds no attributes and no icon.
    fn default() -> (r: Self)
        ensures
            r@ == default_options_view(),
    {
        let r = MarkdownRenderOptions {
            link_attributes: Vec::new(),
            external_link_attributes: Vec::new(),
            external_link_icon_html: Option::None,
        };
        proof {
            assert(attrs_view(Seq::<(String, String)>::empty()) =~= Seq::<(
                Seq<char>,
                Seq<char>,
            )>::empty());
            assert(r@ == default_options_view());
        }
        r
    }
}

} // verus!
