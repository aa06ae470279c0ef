//! HTML templates with escaped holes and a compile-time structural check.
//!
//! A template source is literal HTML with `{ expression }` holes; `{{` and
//! `}}` stand for literal braces. [`compile::compile`] splits a source into
//! segments and holes, checks that each hole is one identifier, literal or
//! expression and that the HTML skeleton is valid, and gives the compiled
//! form. [`compile::CompiledTemplate::resolve`] binds rendered values to the
//! holes, and [`template::Template::build`] flattens the result into text.
//! Values are HTML-escaped when rendered, unless wrapped in
//! [`template::Unescaped`].

pub mod compile;
pub mod escape;
pub mod expr;
pub mod html;
pub mod input;
pub mod lexer;
pub mod template;
pub mod text;

pub use html::compile_check_html;
pub use template::{Render, Template, TemplateGroup, Unescaped};
