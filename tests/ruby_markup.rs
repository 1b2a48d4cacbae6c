use furigana::{is_japanese, parser, rt, ruby, RubyElement};

#[test]
fn is_japanese_test() {
    let mut chars = "同".chars();
    assert_eq!(is_japanese(chars.next().unwrap()), true);
}

#[test]
fn rt_test() {
    let text = "同<rt>どう";
    assert_eq!(
        rt(text),
        Ok((
            "",
            RubyElement::RubyText("同".to_string(), "どう".to_string())
        ))
    )
}

#[test]
fn ruby_test() {
    let text = "<ruby>同<rt>どう</ruby>ぜず。";

    assert_eq!(
        ruby(text),
        Ok((
            "",
            RubyElement::new(
                RubyElement::RubyText("同".to_string(), "どう".to_string()),
                String::from("ぜず。")
            ),
        ))
    )
}

#[test]
fn parser_test() {
    let data = "<ruby>和<rt>わ</ruby>して<ruby>同<rt>どう</ruby>ぜず。";
    assert_eq!(
        parser(data),
        vec![
            RubyElement::new(
                RubyElement::RubyText("和".to_string(), "わ".to_string()),
                String::from("して")
            ),
            RubyElement::new(
                RubyElement::RubyText("同".to_string(), "どう".to_string()),
                String::from("ぜず。")
            )
        ]
    )
}

#[test]
fn serialization_test() {
    let expected = "<ruby>同<rt>どう</ruby>ぜず。";
    let ruby = RubyElement::new(
        RubyElement::RubyText("同".to_string(), "どう".to_string()),
        "ぜず。".to_string(),
    );
    assert_eq!(expected, ruby.to_string())
}
