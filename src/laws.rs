use vstd::prelude::*;

use crate::classify::{all_japanese, is_japanese_char};
use crate::element::{is_span, text_of, RubyElement};
use crate::grammar::{
    lemma_run_len, lemma_run_len_bounds, ruby_close, ruby_open, rt_tag, run_len, span_text, spec_annotation,
    spec_document, spec_ruby, spec_run, spec_tag,
};

verus! {

/// A span model whose three parts are non-empty runs of Japanese script.
pub open spec fn well_formed_span(x: (Seq<char>, Seq<char>, Seq<char>)) -> bool {
    &&& x.0.len() > 0 && all_japanese(x.0)
    &&& x.1.len() > 0 && all_japanese(x.1)
    &&& x.2.len() > 0 && all_japanese(x.2)
}

/// The textual forms of `spans`, one after another with nothing between them.
pub open spec fn join_spans(spans: Seq<(Seq<char>, Seq<char>, Seq<char>)>) -> Seq<char>
    decreases spans.len(),
{
    if spans.len() == 0 {
        seq![]
    } else {
        span_text(spans[0].0, spans[0].1, spans[0].2) + join_spans(spans.drop_first())
    }
}

/// `s` is empty or starts with a character outside Japanese script, so a run
/// before it stops where it starts.
pub open spec fn stops_run(s: Seq<char>) -> bool {
    s.len() == 0 || !is_japanese_char(s[0])
}

/// Each range of the classifier holds both of its ends, and the codepoints just
/// outside each end are rejected.
pub proof fn lemma_range_boundaries()
    ensures
        is_japanese_char('\u{3000}') && is_japanese_char('\u{303F}'),
        !is_japanese_char('\u{2FFF}') && !is_japanese_char('\u{3040}'),
        is_japanese_char('\u{4E00}') && is_japanese_char('\u{9FCB}'),
        !is_japanese_char('\u{4DFF}') && !is_japanese_char('\u{9FCC}'),
        is_japanese_char('\u{F900}') && is_japanese_char('\u{FAFA}'),
        !is_japanese_char('\u{F8FF}') && !is_japanese_char('\u{FAFB}'),
        is_japanese_char('\u{3400}') && is_japanese_char('\u{4DB5}'),
        !is_japanese_char('\u{33FF}') && !is_japanese_char('\u{4DB6}'),
        is_japanese_char('\u{2E80}') && is_japanese_char('\u{2FD5}'),
        !is_japanese_char('\u{2E7F}') && !is_japanese_char('\u{2FD6}'),
        is_japanese_char('\u{3041}') && is_japanese_char('\u{3096}'),
        !is_japanese_char('\u{3040}') && !is_japanese_char('\u{3097}'),
        is_japanese_char('\u{30A0}') && is_japanese_char('\u{30FF}'),
        !is_japanese_char('\u{309F}') && !is_japanese_char('\u{3100}'),
{
}

/// The run scanner takes exactly a non-empty Japanese prefix that is followed by
/// the end of input or by another character, and leaves exactly the rest.
pub proof fn lemma_run_split(p: Seq<char>, q: Seq<char>)
    requires
        p.len() > 0,
        all_japanese(p),
        stops_run(q),
    ensures
        spec_run(p + q) == Some((p, q)),
{
    let s = p + q;
    assert(s.take(p.len() as int) =~= p);
    assert(s.skip(p.len() as int) =~= q);
    if q.len() > 0 {
        assert(s[p.len() as int] == q[0]);
    }
    lemma_run_len(s, p.len() as int);
}

/// The run scanner fails on empty input and on input that starts outside
/// Japanese script.
pub proof fn lemma_run_fails(s: Seq<char>)
    requires
        stops_run(s),
    ensures
        spec_run(s) is None,
{
}

/// A literal at the start of the input is consumed exactly.
pub proof fn lemma_tag_split(t: Seq<char>, rest: Seq<char>)
    ensures
        spec_tag(t + rest, t) == Some(rest),
{
    assert((t + rest).subrange(0, t.len() as int) =~= t);
    assert((t + rest).skip(t.len() as int) =~= rest);
}

/// The annotation rule reads `KANJI<rt>READING` and leaves what follows when that
/// cannot extend the reading.
pub proof fn lemma_annotation_then(kanji: Seq<char>, reading: Seq<char>, rest: Seq<char>)
    requires
        kanji.len() > 0 && all_japanese(kanji),
        reading.len() > 0 && all_japanese(reading),
        stops_run(rest),
    ensures
        spec_annotation(kanji + rt_tag() + reading + rest) == Some((kanji, reading, rest)),
{
    let s1 = rt_tag() + reading + rest;
    assert(kanji + rt_tag() + reading + rest =~= kanji + s1);
    lemma_run_split(kanji, s1);
    assert(s1 =~= rt_tag() + (reading + rest));
    lemma_tag_split(rt_tag(), reading + rest);
    lemma_run_split(reading, rest);
}

/// Round trip of the annotation rule: `KANJI<rt>READING` is read whole, as that
/// annotation.
pub proof fn lemma_annotation_round_trip(kanji: Seq<char>, reading: Seq<char>)
    requires
        kanji.len() > 0 && all_japanese(kanji),
        reading.len() > 0 && all_japanese(reading),
    ensures
        spec_annotation(kanji + rt_tag() + reading) == Some((kanji, reading, Seq::<char>::empty())),
{
    let e = Seq::<char>::empty();
    assert(kanji + rt_tag() + reading + e =~= kanji + rt_tag() + reading);
    lemma_annotation_then(kanji, reading, e);
}

/// The ruby rule reads one span and leaves what follows when that cannot extend
/// the trailing text.
pub proof fn lemma_ruby_then(
    kanji: Seq<char>,
    reading: Seq<char>,
    trailing: Seq<char>,
    rest: Seq<char>,
)
    requires
        well_formed_span((kanji, reading, trailing)),
        stops_run(rest),
    ensures
        spec_ruby(span_text(kanji, reading, trailing) + rest) == Some(
            (kanji, reading, trailing, rest),
        ),
{
    let after_close = trailing + rest;
    let after_open = kanji + rt_tag() + reading + (ruby_close() + after_close);
    assert(span_text(kanji, reading, trailing) + rest =~= ruby_open() + after_open);
    lemma_tag_split(ruby_open(), after_open);
    lemma_annotation_then(kanji, reading, ruby_close() + after_close);
    lemma_tag_split(ruby_close(), after_close);
    lemma_run_split(trailing, rest);
}

/// Round trip of the ruby rule and the renderer: a span's textual form is read
/// whole, as that span, and rendering such a span gives back the same text.
pub proof fn lemma_ruby_round_trip(kanji: Seq<char>, reading: Seq<char>, trailing: Seq<char>)
    requires
        well_formed_span((kanji, reading, trailing)),
    ensures
        spec_ruby(span_text(kanji, reading, trailing)) == Some(
            (kanji, reading, trailing, Seq::<char>::empty()),
        ),
        forall|e: RubyElement|
            #[trigger] is_span(e, kanji, reading, trailing) ==> text_of(e) == span_text(
                kanji,
                reading,
                trailing,
            ),
{
    let e = Seq::<char>::empty();
    assert(span_text(kanji, reading, trailing) + e =~= span_text(kanji, reading, trailing));
    lemma_ruby_then(kanji, reading, trailing, e);
    assert forall|el: RubyElement| #[trigger] is_span(el, kanji, reading, trailing) implies text_of(
        el,
    ) == span_text(kanji, reading, trailing) by {
        lemma_render_span(el, kanji, reading, trailing);
    }
}

/// A span renders as its textual form.
pub proof fn lemma_render_span(
    e: RubyElement,
    kanji: Seq<char>,
    reading: Seq<char>,
    trailing: Seq<char>,
)
    requires
        is_span(e, kanji, reading, trailing),
    ensures
        text_of(e) == span_text(kanji, reading, trailing),
{
    let inner = *e->Ruby_0;
    assert(text_of(inner) == kanji + rt_tag() + reading);
    assert(text_of(e) =~= span_text(kanji, reading, trailing));
}

/// The renderer is a left inverse of a ruby rule that consumes its whole input:
/// the span that the rule reads renders back to that input.
pub proof fn lemma_render_left_inverse(
    s: Seq<char>,
    kanji: Seq<char>,
    reading: Seq<char>,
    trailing: Seq<char>,
    e: RubyElement,
)
    requires
        spec_ruby(s) == Some((kanji, reading, trailing, Seq::<char>::empty())),
        is_span(e, kanji, reading, trailing),
    ensures
        text_of(e) == s,
{
    let rest = Seq::<char>::empty();
    let s1 = s.skip(ruby_open().len() as int);
    let (_, _, s2) = spec_annotation(s1)->0;
    let s1b = s1.skip(run_len(s1) as int);
    let s1c = s1b.skip(rt_tag().len() as int);
    let s3 = s2.skip(ruby_close().len() as int);
    lemma_run_len_bounds(s1);
    lemma_run_len_bounds(s1c);
    lemma_run_len_bounds(s3);
    assert(s1 =~= kanji + s1b);
    assert(s1b =~= rt_tag() + s1c);
    assert(s1c =~= reading + s2);
    assert(s2 =~= ruby_close() + s3);
    assert(s3 =~= trailing + rest);
    assert(s =~= ruby_open() + s1);
    assert(s =~= span_text(kanji, reading, trailing));
    lemma_render_span(e, kanji, reading, trailing);
}

/// The textual form of a run of spans starts with the opening tag, so it stops a
/// trailing text before it.
pub proof fn lemma_join_stops_run(spans: Seq<(Seq<char>, Seq<char>, Seq<char>)>)
    ensures
        stops_run(join_spans(spans)),
{
    if spans.len() > 0 {
        let x = spans[0];
        let j = join_spans(spans);
        assert(j[0] == span_text(x.0, x.1, x.2)[0]);
        assert(span_text(x.0, x.1, x.2)[0] == ruby_open()[0]);
    }
}

/// Well-formed spans written one after another with nothing between them are
/// read back by the document scanner as exactly those spans, in order.
pub proof fn lemma_concatenation(spans: Seq<(Seq<char>, Seq<char>, Seq<char>)>)
    requires
        forall|i: int| 0 <= i < spans.len() ==> well_formed_span(#[trigger] spans[i]),
    ensures
        spec_document(join_spans(spans)) == spans,
    decreases spans.len(),
{
    if spans.len() == 0 {
        assert(spec_ruby(seq![]) is None);
        assert(spec_document(join_spans(spans)) =~= spans);
    } else {
        let x = spans[0];
        let tail = spans.drop_first();
        assert(well_formed_span(spans[0]));
        assert forall|i: int| 0 <= i < tail.len() implies well_formed_span(#[trigger] tail[i]) by {
            assert(well_formed_span(spans[i + 1]));
        }
        lemma_concatenation(tail);
        lemma_join_stops_run(tail);
        lemma_ruby_then(x.0, x.1, x.2, join_spans(tail));
        assert(spec_document(join_spans(spans)) =~= seq![(x.0, x.1, x.2)] + tail);
        assert(seq![(x.0, x.1, x.2)] + tail =~= spans);
    }
}

/// A span followed by text that neither extends its trailing text nor starts
/// another span is read as that one span, and the text after it is dropped.
pub proof fn lemma_truncation(
    kanji: Seq<char>,
    reading: Seq<char>,
    trailing: Seq<char>,
    garbage: Seq<char>,
)
    requires
        well_formed_span((kanji, reading, trailing)),
        stops_run(garbage),
        spec_ruby(garbage) is None,
    ensures
        spec_document(span_text(kanji, reading, trailing) + garbage) == seq![
            (kanji, reading, trailing),
        ],
{
    lemma_ruby_then(kanji, reading, trailing, garbage);
    assert(spec_document(garbage) =~= seq![]);
    assert(seq![(kanji, reading, trailing)] + seq![] =~= seq![(kanji, reading, trailing)]);
}

} // verus!
