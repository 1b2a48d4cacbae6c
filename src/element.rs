use vstd::prelude::*;

use crate::grammar::{ruby_close, ruby_open, rt_tag};

verus! {

/// The failure of a grammar rule: a literal or a run did not match where it had to.
#[derive(PartialEq, Eq, Structural, Debug, Clone, Copy)]
pub struct NoMatch;

/// A piece of ruby markup.
///
/// `RubyText(kanji, reading)` is an annotation, `KANJI<rt>READING`.
/// `Ruby(annotation, trailing)` is a whole span, `<ruby>ANNOTATION</ruby>TRAILING`,
/// bound to the plain text that follows it.
#[derive(PartialEq, Eq, Debug)]
pub enum RubyElement {
    Ruby(Box<RubyElement>, String),
    RubyText(String, String),
}

/// `e` is the annotation of `kanji` with `reading`.
pub open spec fn is_annotation(e: RubyElement, kanji: Seq<char>, reading: Seq<char>) -> bool {
    match e {
        RubyElement::RubyText(k, a) => k@ == kanji && a@ == reading,
        RubyElement::Ruby(_, _) => false,
    }
}

/// `e` is the span that annotates `kanji` with `reading`, followed by `trailing`.
pub open spec fn is_span(
    e: RubyElement,
    kanji: Seq<char>,
    reading: Seq<char>,
    trailing: Seq<char>,
) -> bool {
    match e {
        RubyElement::Ruby(inner, t) => is_annotation(*inner, kanji, reading) && t@ == trailing,
        RubyElement::RubyText(_, _) => false,
    }
}

/// The textual form of an element.
pub open spec fn text_of(e: RubyElement) -> Seq<char>
    decreases e,
{
    match e {
        RubyElement::RubyText(k, a) => k@ + rt_tag() + a@,
        RubyElement::Ruby(inner, t) => ruby_open() + text_of(*inner) + ruby_close() + t@,
    }
}

impl RubyElement {
    /// The span made of the annotation `rt` and the text `base_text` that follows it.
    pub fn new(rt: RubyElement, base_text: String) -> (r: Self)
        ensures
            r == RubyElement::Ruby(Box::new(rt), base_text),
    {
        RubyElement::Ruby(Box::new(rt), base_text)
    }

    /// Renders the element in its textual form.
    pub fn to_string(&self) -> (r: String)
        ensures
            r@ == text_of(*self),
        decreases self,
    {
        match self {
            RubyElement::RubyText(kanji, reading) => {
                let mut out = String::from_str(kanji.as_str());
                out.append("<rt>");
                out.append(reading.as_str());
                proof {
                    reveal_strlit("<rt>");
                    assert("<rt>"@ =~= rt_tag());
                }
                out
            },
            RubyElement::Ruby(inner, trailing) => {
                let body = inner.to_string();
                let mut out = String::from_str("<ruby>");
                out.append(body.as_str());
                out.append("</ruby>");
                out.append(trailing.as_str());
                proof {
                    reveal_strlit("<ruby>");
                    reveal_strlit("</ruby>");
                    assert("<ruby>"@ =~= ruby_open());
                    assert("</ruby>"@ =~= ruby_close());
                }
                out
            },
        }
    }
}

} // verus!
