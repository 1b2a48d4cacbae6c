use vstd::prelude::*;

use crate::classify::{all_japanese, is_japanese, is_japanese_char};

verus! {

/// The opening tag of a ruby span.
pub open spec fn ruby_open() -> Seq<char> {
    seq!['<', 'r', 'u', 'b', 'y', '>']
}

/// The tag that separates the base text from its reading.
pub open spec fn rt_tag() -> Seq<char> {
    seq!['<', 'r', 't', '>']
}

/// The closing tag of a ruby span.
pub open spec fn ruby_close() -> Seq<char> {
    seq!['<', '/', 'r', 'u', 'b', 'y', '>']
}

/// Length of the longest prefix of `s` made of Japanese script.
pub open spec fn run_len(s: Seq<char>) -> nat
    decreases s.len(),
{
    if s.len() > 0 && is_japanese_char(s[0]) {
        1 + run_len(s.drop_first())
    } else {
        0
    }
}

/// A maximal non-empty run of Japanese script at the start of `s`, and what follows it.
pub open spec fn spec_run(s: Seq<char>) -> Option<(Seq<char>, Seq<char>)> {
    let n = run_len(s) as int;
    if n == 0 {
        None
    } else {
        Some((s.take(n), s.skip(n)))
    }
}

/// What follows the literal `t` at the start of `s`, if `s` starts with it.
pub open spec fn spec_tag(s: Seq<char>, t: Seq<char>) -> Option<Seq<char>> {
    if t.is_prefix_of(s) {
        Some(s.skip(t.len() as int))
    } else {
        None
    }
}

/// `KANJI<rt>READING` at the start of `s`: the base text, the reading and the rest.
pub open spec fn spec_annotation(s: Seq<char>) -> Option<(Seq<char>, Seq<char>, Seq<char>)> {
    match spec_run(s) {
        None => None,
        Some((kanji, s1)) => match spec_tag(s1, rt_tag()) {
            None => None,
            Some(s2) => match spec_run(s2) {
                None => None,
                Some((reading, rest)) => Some((kanji, reading, rest)),
            },
        },
    }
}

/// One span `<ruby>KANJI<rt>READING</ruby>TRAILING` at the start of `s`:
/// the base text, the reading, the trailing text and the rest.
pub open spec fn spec_ruby(s: Seq<char>) -> Option<(Seq<char>, Seq<char>, Seq<char>, Seq<char>)> {
    match spec_tag(s, ruby_open()) {
        None => None,
        Some(s1) => match spec_annotation(s1) {
            None => None,
            Some((kanji, reading, s2)) => match spec_tag(s2, ruby_close()) {
                None => None,
                Some(s3) => match spec_run(s3) {
                    None => None,
                    Some((trailing, rest)) => Some((kanji, reading, trailing, rest)),
                },
            },
        },
    }
}

/// The spans read from the start of `s` one after another, up to the first place
/// where no span starts. The length test always holds (see `lemma_ruby_consumes`);
/// it makes the recursion well-founded.
pub open spec fn spec_document(s: Seq<char>) -> Seq<(Seq<char>, Seq<char>, Seq<char>)>
    decreases s.len(),
{
    match spec_ruby(s) {
        None => seq![],
        Some((kanji, reading, trailing, rest)) => if rest.len() < s.len() {
            seq![(kanji, reading, trailing)] + spec_document(rest)
        } else {
            seq![]
        },
    }
}

/// The textual form of one span.
pub open spec fn span_text(kanji: Seq<char>, reading: Seq<char>, trailing: Seq<char>) -> Seq<char> {
    ruby_open() + kanji + rt_tag() + reading + ruby_close() + trailing
}

/// A run's length is fixed by where the Japanese script stops.
pub proof fn lemma_run_len(s: Seq<char>, n: int)
    requires
        0 <= n <= s.len(),
        all_japanese(s.take(n)),
        n == s.len() || !is_japanese_char(s[n]),
    ensures
        run_len(s) == n,
    decreases n,
{
    if n > 0 {
        assert(is_japanese_char(s.take(n)[0]));
        let t = s.drop_first();
        assert forall|i: int| 0 <= i < n - 1 implies #[trigger] is_japanese_char(t.take(n - 1)[i]) by {
            assert(is_japanese_char(s.take(n)[i + 1]));
        }
        lemma_run_len(t, n - 1);
    }
}

/// The run of `s` is all Japanese script and stops where Japanese script stops.
pub proof fn lemma_run_len_bounds(s: Seq<char>)
    ensures
        run_len(s) <= s.len(),
        all_japanese(s.take(run_len(s) as int)),
        run_len(s) == s.len() || !is_japanese_char(s[run_len(s) as int]),
    decreases s.len(),
{
    if s.len() > 0 && is_japanese_char(s[0]) {
        let t = s.drop_first();
        lemma_run_len_bounds(t);
        let n = run_len(s) as int;
        assert forall|i: int| 0 <= i < n implies #[trigger] is_japanese_char(s.take(n)[i]) by {
            if i > 0 {
                assert(is_japanese_char(t.take(n - 1)[i - 1]));
            }
        }
    }
}

/// The ruby rule consumes at least its opening tag.
pub proof fn lemma_ruby_consumes(
    s: Seq<char>,
    kanji: Seq<char>,
    reading: Seq<char>,
    trailing: Seq<char>,
    rest: Seq<char>,
)
    requires
        spec_ruby(s) == Some((kanji, reading, trailing, rest)),
    ensures
        rest.len() < s.len(),
{
    let s1 = s.skip(ruby_open().len() as int);
    let s1b = s1.skip(run_len(s1) as int);
    let s1c = s1b.skip(rt_tag().len() as int);
    let s2 = s1c.skip(run_len(s1c) as int);
    let s3 = s2.skip(ruby_close().len() as int);
    lemma_run_len_bounds(s1);
    lemma_run_len_bounds(s1c);
    lemma_run_len_bounds(s3);
    assert(s1.len() < s.len());
    assert(s1b.len() <= s1.len());
    assert(s1c.len() <= s1b.len());
    assert(s2.len() <= s1c.len());
    assert(s3.len() <= s2.len());
}

/// End of the maximal run of Japanese script in `chars` that starts at `from`.
pub(crate) fn run_end(chars: &Vec<char>, from: usize) -> (r: usize)
    requires
        from <= chars.len(),
    ensures
        from <= r <= chars.len(),
        r - from == run_len(chars@.skip(from as int)),
{
    let mut i: usize = from;
    while i < chars.len() && is_japanese(chars[i])
        invariant
            from <= i <= chars.len(),
            forall|j: int| from <= j < i ==> #[trigger] is_japanese_char(chars@[j]),
        decreases chars.len() - i,
    {
        i = i + 1;
    }
    let ghost s = chars@.skip(from as int);
    proof {
        assert forall|j: int| 0 <= j < i - from implies #[trigger] is_japanese_char(
            s.take(i - from)[j],
        ) by {
            assert(is_japanese_char(chars@[from + j]));
        }
        lemma_run_len(s, i - from);
    }
    i
}

/// Whether the literal `tag` occurs in `chars` at `at`.
pub(crate) fn tag_at(chars: &Vec<char>, at: usize, tag: &str) -> (r: bool)
    requires
        at <= chars.len(),
    ensures
        r == tag@.is_prefix_of(chars@.skip(at as int)),
{
    let n = tag.unicode_len();
    if n > chars.len() - at {
        return false;
    }
    let mut j: usize = 0;
    while j < n
        invariant
            n == tag@.len(),
            at + n <= chars.len(),
            j <= n,
            forall|k: int| 0 <= k < j ==> chars@[at + k] == tag@[k],
        decreases n - j,
    {
        if chars[at + j] != tag.get_char(j) {
            assert(chars@.skip(at as int)[j as int] != tag@[j as int]);
            return false;
        }
        j = j + 1;
    }
    assert(tag@ =~= chars@.skip(at as int).take(n as int));
    true
}

} // verus!
