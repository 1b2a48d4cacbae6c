use vstd::prelude::*;

verus! {

/// The codepoint ranges that count as Japanese script.
pub open spec fn is_japanese_char(c: char) -> bool {
    ||| '\u{3000}' <= c <= '\u{303F}'
    ||| '\u{4E00}' <= c <= '\u{9FCB}'
    ||| '\u{F900}' <= c <= '\u{FAFA}'
    ||| '\u{3400}' <= c <= '\u{4DB5}'
    ||| '\u{2E80}' <= c <= '\u{2FD5}'
    ||| '\u{3041}' <= c <= '\u{3096}'
    ||| '\u{30A0}' <= c <= '\u{30FF}'
}

/// Every character of `s` is Japanese script.
pub open spec fn all_japanese(s: Seq<char>) -> bool {
    forall|i: int| 0 <= i < s.len() ==> #[trigger] is_japanese_char(s[i])
}

/// Decides whether a codepoint belongs to the recognized Japanese script ranges.
pub fn is_japanese(data: char) -> (r: bool)
    ensures
        r == is_japanese_char(data),
{
    ('\u{3000}' <= data && data <= '\u{303F}')
        || ('\u{4E00}' <= data && data <= '\u{9FCB}')
        || ('\u{F900}' <= data && data <= '\u{FAFA}')
        || ('\u{3400}' <= data && data <= '\u{4DB5}')
        || ('\u{2E80}' <= data && data <= '\u{2FD5}')
        || ('\u{3041}' <= data && data <= '\u{3096}')
        || ('\u{30A0}' <= data && data <= '\u{30FF}')
}

/// The characters of `s`, in order.
pub(crate) fn chars_of(s: &str) -> (r: Vec<char>)
    ensures
        r@ == s@,
{
    let mut out: Vec<char> = Vec::new();
    for c in it: s.chars()
        invariant
            out@ == it.seq().take(it.index() as int),
    {
        out.push(c);
    }
    out
}

} // verus!
