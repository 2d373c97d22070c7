//! A policy-constrained Markdown renderer: turns a restricted Markdown
//! dialect into a sanitized HTML fragment, and rejects the whole render
//! (returns `None`) whenever the document holds a construct the policy
//! does not support (raw HTML, images, code, math, footnote references,
//! email autolinks), so a caller can fall back to a richer renderer.

pub mod autolink;
pub mod escape;
pub mod events;
pub mod filter;
pub mod links;
pub mod options;
pub mod render;

pub use crate::options::MarkdownRenderOptions;
pub use crate::render::markdown_to_html;
