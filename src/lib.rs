//! Reading and writing HTML ruby markup (`<ruby>KANJI<rt>READING</ruby>TRAILING`)
//! in Japanese text.
//!
//! `classify` decides which codepoints count as Japanese script; `grammar` states
//! the grammar over character sequences; `parse` holds the verified rules and the
//! document scanner; `element` holds the values they produce and the renderer;
//! `laws` proves how these fit together.
use vstd::prelude::*;

pub mod classify;
pub mod element;
pub mod grammar;
pub mod laws;
pub mod parse;

pub use classify::is_japanese;
pub use element::{NoMatch, RubyElement};
pub use parse::{alphanumeric, parser, rt, ruby};

verus! {

} // verus!
