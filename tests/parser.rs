use ssml_parser::elements::{
    Decibels, Decimal, LangAttributes, OnLanguageFailure, ParsedElement, Sign, SpeakAttributes,
    SsmlElement,
};
use ssml_parser::parser::{parse_ssml, SsmlParserBuilder, Span};
use ssml_parser::values::{parse_decibel, parse_unsigned_percentage};
use ssml_parser::ParserLogEvent;

fn speak_span(start: usize, end: usize) -> Span {
    Span {
        start,
        end,
        element: ParsedElement::Speak(SpeakAttributes::default()),
    }
}

#[test]
fn span_ordering() {
    let a = speak_span(0, 10);
    let b = speak_span(0, 5);
    let c = speak_span(4, 5);
    let d = speak_span(11, 15);

    assert!(a < b);
    assert!(b < c);
    assert!(a < c);
    assert!(a < d);
    assert!(a == a);
}

#[test]
fn char_position_not_byte() {
    let unicode = parse_ssml(r#"<speak version="1.1">Let’s review a complex structure. Please note how threshold of control is calculated in this example.</speak>"#).unwrap();
    let ascii = parse_ssml(r#"<speak version="1.1">Let's review a complex structure. Please note how threshold of control is calculated in this example.</speak>"#).unwrap();

    let master_span_unicode = unicode.tags().iter().next().unwrap();
    let master_span_ascii = ascii.tags().iter().next().unwrap();

    assert_eq!(master_span_ascii.end, master_span_unicode.end);
    assert_eq!(master_span_ascii.end, ascii.get_text().chars().count());
}

#[test]
fn span_contains() {
    let empty = parse_ssml(r#"<speak version="1.1"><break/><break/></speak>"#).unwrap();
    let tags = empty.tags();
    assert!(tags[0].maybe_contains(&tags[1]));
    assert!(tags[0].maybe_contains(&tags[2]));
    assert!(!tags[1].maybe_contains(&tags[2]));

    let hello =
        parse_ssml(r#"<speak version="1.1">Hello <s><w>hello</w></s> world <break/></speak>"#)
            .unwrap();
    let tags = hello.tags();
    assert!(tags[0].maybe_contains(&tags[1]));
    assert!(tags[0].maybe_contains(&tags[2]));
    assert!(tags[0].maybe_contains(&tags[3]));
    assert!(tags[1].maybe_contains(&tags[2]));
    assert!(!tags[1].maybe_contains(&tags[3]));
    assert!(!tags[2].maybe_contains(&tags[3]));

    let empty = parse_ssml(r#"<speak version="1.1">Hello <p></p><p></p></speak>"#).unwrap();
    assert!(!empty.tags()[1].maybe_contains(&empty.tags()[2]));

    let break_inside_custom = parse_ssml(r#"<speak version="1.1"><mstts:express-as style="string" styledegree="value" role="string">hello<break/> world</mstts:express-as></speak>"#).unwrap();
    assert!(break_inside_custom.tags()[1].maybe_contains(&break_inside_custom.tags()[2]));
}

#[test]
fn reject_invalid_combos() {
    assert!(parse_ssml("<speak><speak>hello</speak></speak>").is_err());
    assert!(parse_ssml("<speak><p>hello<p>world</p></p></speak>").is_err());
}

#[test]
fn skip_description_text() {
    let text = r#"<?xml version="1.0"?>
<speak xmlns="http://www.w3.org/2001/10/synthesis"
       xmlns:xsi="http://www.w3.org/2001/XMLSchema-instance"
       xsi:schemaLocation="http://www.w3.org/2001/10/synthesis
                 http://www.w3.org/TR/speech-synthesis11/synthesis.xsd"
       xml:lang="en-US">
                 
  <!-- Normal use of <desc> -->
  Heads of State often make mistakes when speaking in a foreign language.
  One of the most well-known examples is that of John F. Kennedy:
  <audio src="ichbineinberliner.wav">If you could hear it, this would be
  a recording of John F. Kennedy speaking in Berlin.
    <desc>Kennedy's famous German language gaffe</desc>
  </audio>
</speak>"#;

    let res = parse_ssml(text).unwrap();

    assert_eq!(res.get_text().trim(),
               "Heads of State often make mistakes when speaking in a foreign language. One of the most well-known examples is that of John F. Kennedy: If you could hear it, this would be a recording of John F. Kennedy speaking in Berlin.");
}

#[test]
fn handle_language_elements() {
    let lang = r#"<speak version="1.1"><lang xml:lang="ja"></lang><lang xml:lang="en" onlangfailure="ignoretext"></lang></speak>"#;

    let res = parse_ssml(lang).unwrap();

    assert_eq!(res.tags().len(), 3);
    assert_eq!(
        res.tags()[1].element,
        ParsedElement::Lang(LangAttributes {
            lang: "ja".to_string(),
            on_lang_failure: None
        })
    );
    assert_eq!(
        res.tags()[2].element,
        ParsedElement::Lang(LangAttributes {
            lang: "en".to_string(),
            on_lang_failure: Some(OnLanguageFailure::IgnoreText)
        })
    );

    let lang = r#"<speak version="1.1"><lang lang="ja"></lang></speak>"#;

    assert!(parse_ssml(lang).is_err());
}

#[test]
fn filter_out_elems() {
    let mut parser = SsmlParserBuilder::default().build().unwrap();

    assert!(parser.text_should_enter_buffer(Some(&SsmlElement::Sub)));
    assert!(!parser.text_should_enter_buffer(Some(&SsmlElement::Description)));

    parser.expand_sub = true;

    assert!(!parser.text_should_enter_buffer(Some(&SsmlElement::Sub)));
    assert!(!parser.text_should_enter_buffer(Some(&SsmlElement::Description)));
}

#[test]
fn expand_sub() {
    let parser = SsmlParserBuilder::default()
        .expand_sub(true)
        .build()
        .unwrap();
    let sub =
        r#"<speak version="1.1"><sub alias="World wide web consortium">W3C</sub></speak>"#;

    let res = parser.parse(sub).unwrap();
    assert_eq!(res.get_text().trim(), "World wide web consortium");
    assert_eq!(res.event_log().len(), 3);
    assert!(matches!(res.event_log()[1], ParserLogEvent::Text(_, _)));

    let parser = SsmlParserBuilder::default().build().unwrap();

    let res = parser.parse(sub).unwrap();
    assert_eq!(res.get_text().trim(), "W3C");

    assert_eq!(res.event_log().len(), 5);
}

fn decibels_value(d: Decibels) -> f64 {
    let magnitude = d.magnitude.mantissa as f64 / 10f64.powi(d.magnitude.scale as i32);
    match d.sign {
        Sign::Plus => magnitude,
        Sign::Minus => -magnitude,
    }
}

fn decimal_value(d: Decimal) -> f64 {
    d.mantissa as f64 / 10f64.powi(d.scale as i32)
}

#[test]
fn decibels() {
    assert!(parse_decibel("56").is_err());
    assert!(parse_decibel("hello").is_err());
    assert!(parse_decibel("64.5DB").is_err());
    assert!(parse_decibel("64.5dBs").is_err());

    assert_eq!(decibels_value(parse_decibel("-10dB").unwrap()) as i32, -10);
    assert_eq!(decibels_value(parse_decibel("15dB").unwrap()) as i32, 15);
    assert_eq!(decibels_value(parse_decibel(".5dB").unwrap()), 0.5);
}

#[test]
fn unsigned_percentages() {
    assert!(parse_unsigned_percentage("56").is_err());
    assert!(parse_unsigned_percentage("64pc").is_err());
    assert!(parse_unsigned_percentage("74%%").is_err());

    assert_eq!(decimal_value(parse_unsigned_percentage("10%").unwrap()) as i32, 10);
    assert_eq!(decimal_value(parse_unsigned_percentage("110%").unwrap()) as i32, 110);
    assert_eq!(decimal_value(parse_unsigned_percentage(".5%").unwrap()), 0.5);
}
