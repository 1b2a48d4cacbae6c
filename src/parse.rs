use vstd::prelude::*;

use crate::classify::chars_of;
use crate::element::{is_annotation, is_span, NoMatch, RubyElement};
use crate::grammar::{
    ruby_close, ruby_open, rt_tag, run_end, spec_annotation, spec_document, spec_ruby, spec_run,
    spec_tag, tag_at,
};

verus! {

/// The text of `s` between two character positions, as an owned string.
fn slice_string(s: &str, from: usize, to: usize) -> (r: String)
    requires
        from <= to <= s@.len(),
    ensures
        r@ == s@.subrange(from as int, to as int),
{
    String::from_str(s.substring_char(from, to))
}

/// The run of Japanese script that starts at `from` in `s` (whose characters are
/// `chars`): its end, or `None` when it is empty.
fn run_at(s: &str, chars: &Vec<char>, from: usize) -> (r: Option<usize>)
    requires
        chars@ == s@,
        from <= chars.len(),
    ensures
        match (spec_run(chars@.skip(from as int)), r) {
            (None, None) => true,
            (Some((run, rest)), Some(end)) => {
                &&& from < end <= chars.len()
                &&& run == chars@.subrange(from as int, end as int)
                &&& rest == chars@.skip(end as int)
            },
            _ => false,
        },
{
    let end = run_end(chars, from);
    if end == from {
        None
    } else {
        proof {
            let t = chars@.skip(from as int);
            assert(t.take(end - from) =~= chars@.subrange(from as int, end as int));
            assert(t.skip(end - from) =~= chars@.skip(end as int));
        }
        Some(end)
    }
}

/// The literal `tag` at `from` in `chars`: the position after it, or `None`.
fn literal_at(chars: &Vec<char>, from: usize, tag: &str, Ghost(t): Ghost<Seq<char>>) -> (r: Option<usize>)
    requires
        from <= chars.len(),
        tag@ == t,
    ensures
        match (spec_tag(chars@.skip(from as int), t), r) {
            (None, None) => true,
            (Some(rest), Some(end)) => {
                &&& from + t.len() == end <= chars.len()
                &&& rest == chars@.skip(end as int)
            },
            _ => false,
        },
{
    if tag_at(chars, from, tag) {
        let end = from + tag.unicode_len();
        assert(chars@.skip(from as int).skip(t.len() as int) =~= chars@.skip(end as int));
        Some(end)
    } else {
        None
    }
}

/// The annotation rule at position `from`: the annotation and the position after it.
fn annotation_at(s: &str, chars: &Vec<char>, from: usize) -> (r: Option<(RubyElement, usize)>)
    requires
        chars@ == s@,
        from <= chars.len(),
    ensures
        match (spec_annotation(chars@.skip(from as int)), r) {
            (None, None) => true,
            (Some((kanji, reading, rest)), Some((e, end))) => {
                &&& is_annotation(e, kanji, reading)
                &&& from < end <= chars.len()
                &&& rest == chars@.skip(end as int)
            },
            _ => false,
        },
{
    proof {
        reveal_strlit("<rt>");
        assert("<rt>"@ =~= rt_tag());
    }
    let kanji_end = match run_at(s, chars, from) {
        None => return None,
        Some(end) => end,
    };
    let reading_start = match literal_at(chars, kanji_end, "<rt>", Ghost(rt_tag())) {
        None => return None,
        Some(end) => end,
    };
    let reading_end = match run_at(s, chars, reading_start) {
        None => return None,
        Some(end) => end,
    };
    let kanji = slice_string(s, from, kanji_end);
    let reading = slice_string(s, reading_start, reading_end);
    Some((RubyElement::RubyText(kanji, reading), reading_end))
}

/// The ruby rule at position `from`: the span and the position after it.
fn ruby_at(s: &str, chars: &Vec<char>, from: usize) -> (r: Option<(RubyElement, usize)>)
    requires
        chars@ == s@,
        from <= chars.len(),
    ensures
        match (spec_ruby(chars@.skip(from as int)), r) {
            (None, None) => true,
            (Some((kanji, reading, trailing, rest)), Some((e, end))) => {
                &&& is_span(e, kanji, reading, trailing)
                &&& from < end <= chars.len()
                &&& rest == chars@.skip(end as int)
            },
            _ => false,
        },
{
    proof {
        reveal_strlit("<ruby>");
        reveal_strlit("</ruby>");
        assert("<ruby>"@ =~= ruby_open());
        assert("</ruby>"@ =~= ruby_close());
    }
    let body_start = match literal_at(chars, from, "<ruby>", Ghost(ruby_open())) {
        None => return None,
        Some(end) => end,
    };
    let (annotation, body_end) = match annotation_at(s, chars, body_start) {
        None => return None,
        Some(found) => found,
    };
    let trailing_start = match literal_at(chars, body_end, "</ruby>", Ghost(ruby_close())) {
        None => return None,
        Some(end) => end,
    };
    let trailing_end = match run_at(s, chars, trailing_start) {
        None => return None,
        Some(end) => end,
    };
    let trailing = slice_string(s, trailing_start, trailing_end);
    Some((RubyElement::new(annotation, trailing), trailing_end))
}

/// The run scanner: the longest non-empty prefix of `i` made of Japanese script.
/// Returns what remains and the run.
pub fn alphanumeric(i: &str) -> (r: Result<(&str, &str), NoMatch>)
    ensures
        match (spec_run(i@), r) {
            (None, Err(_)) => true,
            (Some((run, rest)), Ok((remaining, got))) => got@ == run && remaining@ == rest,
            _ => false,
        },
{
    let chars = chars_of(i);
    assert(chars@.skip(0) =~= chars@);
    match run_at(i, &chars, 0) {
        None => Err(NoMatch),
        Some(end) => {
            assert(chars@.subrange(0, end as int) =~= i@.subrange(0, end as int));
            assert(chars@.skip(end as int) =~= i@.subrange(end as int, i@.len() as int));
            Ok((i.substring_char(end, chars.len()), i.substring_char(0, end)))
        },
    }
}

/// The annotation rule: `KANJI<rt>READING` at the start of `i`.
/// Returns what remains and the annotation.
pub fn rt(i: &str) -> (r: Result<(&str, RubyElement), NoMatch>)
    ensures
        match (spec_annotation(i@), r) {
            (None, Err(_)) => true,
            (Some((kanji, reading, rest)), Ok((remaining, e))) => {
                is_annotation(e, kanji, reading) && remaining@ == rest
            },
            _ => false,
        },
{
    let chars = chars_of(i);
    assert(chars@.skip(0) =~= chars@);
    match annotation_at(i, &chars, 0) {
        None => Err(NoMatch),
        Some((e, end)) => {
            assert(chars@.skip(end as int) =~= i@.subrange(end as int, i@.len() as int));
            Ok((i.substring_char(end, chars.len()), e))
        },
    }
}

/// The ruby rule: `<ruby>KANJI<rt>READING</ruby>TRAILING` at the start of `i`.
/// Returns what remains and the span.
pub fn ruby(i: &str) -> (r: Result<(&str, RubyElement), NoMatch>)
    ensures
        match (spec_ruby(i@), r) {
            (None, Err(_)) => true,
            (Some((kanji, reading, trailing, rest)), Ok((remaining, e))) => {
                is_span(e, kanji, reading, trailing) && remaining@ == rest
            },
            _ => false,
        },
{
    let chars = chars_of(i);
    assert(chars@.skip(0) =~= chars@);
    match ruby_at(i, &chars, 0) {
        None => Err(NoMatch),
        Some((e, end)) => {
            assert(chars@.skip(end as int) =~= i@.subrange(end as int, i@.len() as int));
            Ok((i.substring_char(end, chars.len()), e))
        },
    }
}

/// The document scanner: the spans read one after another from the start of `data`,
/// stopping silently at the first place where no span starts.
pub fn parser(data: &str) -> (r: Vec<RubyElement>)
    ensures
        r.len() == spec_document(data@).len(),
        forall|j: int|
            0 <= j < r.len() ==> #[trigger] is_span(
                r[j],
                spec_document(data@)[j].0,
                spec_document(data@)[j].1,
                spec_document(data@)[j].2,
            ),
{
    let chars = chars_of(data);
    let mut results: Vec<RubyElement> = Vec::new();
    let mut pos: usize = 0;
    let ghost done: Seq<(Seq<char>, Seq<char>, Seq<char>)> = seq![];
    assert(chars@.skip(0) =~= chars@);
    loop
        invariant_except_break
            pos <= chars.len(),
            chars@ == data@,
            spec_document(data@) == done + spec_document(chars@.skip(pos as int)),
        invariant
            results.len() == done.len(),
            forall|j: int|
                0 <= j < results.len() ==> #[trigger] is_span(
                    results[j],
                    done[j].0,
                    done[j].1,
                    done[j].2,
                ),
        ensures
            spec_document(data@) == done,
        decreases chars.len() - pos,
    {
        match ruby_at(data, &chars, pos) {
            None => {
                assert(spec_document(chars@.skip(pos as int)) =~= seq![]);
                assert(done + seq![] =~= done);
                break;
            },
            Some((e, end)) => {
                let ghost rest = spec_document(chars@.skip(pos as int));
                let ghost head = spec_ruby(chars@.skip(pos as int))->0;
                proof {
                    assert(rest == seq![(head.0, head.1, head.2)] + spec_document(chars@.skip(end as int)));
                    assert(done + rest =~= done.push((head.0, head.1, head.2)) + spec_document(chars@.skip(end as int)));
                    done = done.push((head.0, head.1, head.2));
                }
                results.push(e);
                pos = end;
            },
        }
    }
    results
}

} // verus!
