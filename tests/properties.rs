use furigana::{alphanumeric, is_japanese, parser, rt, ruby, NoMatch, RubyElement};

fn span(kanji: &str, reading: &str, trailing: &str) -> RubyElement {
    RubyElement::new(
        RubyElement::RubyText(kanji.to_string(), reading.to_string()),
        trailing.to_string(),
    )
}

#[test]
fn classifier_range_boundaries() {
    let ranges: [(u32, u32); 7] = [
        (0x3000, 0x303F),
        (0x4E00, 0x9FCB),
        (0xF900, 0xFAFA),
        (0x3400, 0x4DB5),
        (0x2E80, 0x2FD5),
        (0x3041, 0x3096),
        (0x30A0, 0x30FF),
    ];
    for (lo, hi) in ranges {
        assert!(is_japanese(char::from_u32(lo).unwrap()), "{:x}", lo);
        assert!(is_japanese(char::from_u32(hi).unwrap()), "{:x}", hi);
        assert!(!is_japanese(char::from_u32(lo - 1).unwrap()), "{:x}", lo - 1);
        assert!(!is_japanese(char::from_u32(hi + 1).unwrap()), "{:x}", hi + 1);
    }
}

#[test]
fn classifier_rejects_ascii() {
    assert!(!is_japanese('a'));
    assert!(!is_japanese('<'));
    assert!(!is_japanese(' '));
}

#[test]
fn run_stops_at_first_other_character() {
    assert_eq!(alphanumeric("ぜず。<ruby>"), Ok(("<ruby>", "ぜず。")));
}

#[test]
fn run_takes_whole_input() {
    assert_eq!(alphanumeric("和して"), Ok(("", "和して")));
}

#[test]
fn run_fails_on_empty_input() {
    assert_eq!(alphanumeric(""), Err(NoMatch));
}

#[test]
fn run_fails_on_other_first_character() {
    assert_eq!(alphanumeric("a同"), Err(NoMatch));
}

#[test]
fn annotation_round_trip() {
    assert_eq!(
        rt("和風<rt>わふう"),
        Ok(("", RubyElement::RubyText("和風".to_string(), "わふう".to_string())))
    );
}

#[test]
fn annotation_leaves_rest() {
    assert_eq!(
        rt("同<rt>どう</ruby>"),
        Ok(("</ruby>", RubyElement::RubyText("同".to_string(), "どう".to_string())))
    );
}

#[test]
fn annotation_fails_without_separator() {
    assert_eq!(rt("同どう"), Err(NoMatch));
    assert_eq!(rt("同<RT>どう"), Err(NoMatch));
}

#[test]
fn annotation_fails_on_empty_parts() {
    assert_eq!(rt("<rt>どう"), Err(NoMatch));
    assert_eq!(rt("同<rt>"), Err(NoMatch));
}

#[test]
fn ruby_round_trip_and_render() {
    let text = "<ruby>漢字<rt>かんじ</ruby>です";
    let (rest, e) = ruby(text).unwrap();
    assert_eq!(rest, "");
    assert_eq!(e, span("漢字", "かんじ", "です"));
    assert_eq!(e.to_string(), text);
}

#[test]
fn ruby_fails_on_each_missing_part() {
    assert_eq!(ruby("同<rt>どう</ruby>ぜず。"), Err(NoMatch));
    assert_eq!(ruby("<ruby>同</ruby>ぜず。"), Err(NoMatch));
    assert_eq!(ruby("<ruby>同<rt>どう<ruby>ぜず。"), Err(NoMatch));
    assert_eq!(ruby("<ruby>同<rt>どう</ruby>"), Err(NoMatch));
    assert_eq!(ruby("<ruby> 同<rt>どう</ruby>ぜず。"), Err(NoMatch));
}

fn three_spans() -> Vec<RubyElement> {
    vec![
        span("和", "わ", "して"),
        span("同", "どう", "ぜず。"),
        span("漢字", "かんじ", "です"),
    ]
}

#[test]
fn document_reads_concatenated_spans_in_order() {
    let mut text = String::new();
    for e in three_spans().iter() {
        text.push_str(&e.to_string());
    }
    assert_eq!(parser(&text), three_spans());
}

#[test]
fn document_drops_text_that_starts_no_span() {
    let data = "<ruby>同<rt>どう</ruby>ぜず。<b>不可解な後続文字列";
    assert_eq!(parser(data), vec![span("同", "どう", "ぜず。")]);
}

#[test]
fn document_trailing_text_absorbs_following_japanese() {
    let data = "<ruby>同<rt>どう</ruby>ぜず。不可解な後続文字列";
    assert_eq!(parser(data), vec![span("同", "どう", "ぜず。不可解な後続文字列")]);
}

#[test]
fn document_two_spans() {
    let data = "<ruby>和<rt>わ</ruby>して<ruby>同<rt>どう</ruby>ぜず。";
    assert_eq!(
        parser(data),
        vec![span("和", "わ", "して"), span("同", "どう", "ぜず。")]
    );
}

#[test]
fn render_scenario() {
    assert_eq!(span("同", "どう", "ぜず。").to_string(), "<ruby>同<rt>どう</ruby>ぜず。");
}

#[test]
fn render_annotation_alone() {
    let e = RubyElement::RubyText("同".to_string(), "どう".to_string());
    assert_eq!(e.to_string(), "同<rt>どう");
}

#[test]
fn document_empty_input() {
    assert_eq!(parser(""), Vec::<RubyElement>::new());
}

#[test]
fn document_plain_ascii() {
    assert_eq!(parser("hello"), Vec::<RubyElement>::new());
    assert_eq!(parser("<ruby>hello"), Vec::<RubyElement>::new());
}

#[test]
fn document_leading_plain_text_stops_the_scan() {
    assert_eq!(parser("あ<ruby>同<rt>どう</ruby>ぜず。"), Vec::<RubyElement>::new());
}

#[test]
fn document_is_repeatable() {
    let data = "<ruby>和<rt>わ</ruby>して<ruby>同<rt>どう</ruby>ぜず。";
    assert_eq!(parser(data), parser(data));
}
