//! Compiles component style sheets into scoped CSS and a runtime style
//! factory.
//!
//! A style sheet goes through three stages. The rewrite pass (`selector`,
//! `token`, `convert_css`) scopes selectors, marks lengths given in `rpx` and
//! imports, and sets the rules for the host element aside. Bundling
//! (`compile_css`) keeps the record of the files read and the imports
//! resolved. The code generator (`escape`, `expand`, `css_to_code`) turns the
//! marked CSS text into the text of a module that builds the style sheet at
//! run time; `lengths` states what becomes of the lengths on the way.
//! `markers` holds the texts on which the stages agree.

pub mod compile_css;
pub mod convert_css;
pub mod css_to_code;
pub mod digest;
pub mod engine;
pub mod error;
pub mod escape;
pub mod expand;
pub mod js_compile_css;
pub mod js_transform_css;
pub mod lengths;
pub mod markers;
pub mod node_path;
pub mod options;
pub mod printer_options;
pub mod selector;
pub mod text;
pub mod token;
pub mod transform_css;
