use ssml_parser::elements::{
    Attribute, ContourElement, Decimal, FetchHint, LanguageAccentPair, ParsedElement,
    PitchContour, PitchRange, PitchStrength, PositiveNumber, RateRange, Sign, SsmlElement,
    Strength, TimeDesignation, Unit, VolumeRange, VolumeStrength,
};
use ssml_parser::parser::{parse_ssml, SsmlParser, SsmlParserBuilder, XmlEvent, XmlTag};
use ssml_parser::{ParserEvent, ParserLogEvent, Ssml, SsmlError};

fn kinds(doc: &Ssml) -> Vec<SsmlElement> {
    doc.tags().iter().map(|s| s.element.kind()).collect()
}

fn check_invariants(doc: &Ssml) {
    let n = doc.get_text().chars().count();
    for s in doc.tags() {
        assert!(s.start <= s.end && s.end <= n);
    }
    for w in doc.tags().windows(2) {
        assert!(w[0].start < w[1].start || (w[0].start == w[1].start && w[0].end >= w[1].end));
    }
    let chars: Vec<char> = doc.get_text().chars().collect();
    let mut joined = String::new();
    let mut stack: Vec<SsmlElement> = Vec::new();
    for ev in doc.event_log() {
        match ev {
            ParserLogEvent::Text(s, e) => joined.extend(&chars[*s..*e]),
            ParserLogEvent::Open(e) => stack.push(e.kind()),
            ParserLogEvent::Close(e) => assert_eq!(stack.pop(), Some(e.kind())),
            ParserLogEvent::Empty(_) => {}
        }
    }
    assert!(stack.is_empty());
    assert_eq!(joined, doc.get_text());
}

const MESSAGES: &str = r#"<speak version="1.1"><p><s>You have 4 new messages.</s><s>The first is from Stephanie Williams and arrived at <break/> 3:45pm.</s><s>The subject is <prosody rate="20%">ski trip</prosody></s></p></speak>"#;

#[test]
fn document_invariants_hold() {
    for doc in [
        MESSAGES,
        r#"<speak version="1.1">Hello <s><w>hello</w></s> world <break/></speak>"#,
        "<speak>a\n\n  b <p>c</p><p>d</p> <audio>x<desc>y</desc></audio></speak>",
        "plain text",
    ] {
        check_invariants(&parse_ssml(doc).unwrap());
    }
}

#[test]
fn messages_scenario() {
    let doc = parse_ssml(MESSAGES).unwrap();
    assert_eq!(
        doc.get_text().trim(),
        "You have 4 new messages. The first is from Stephanie Williams and arrived at 3:45pm. The subject is ski trip"
    );
    assert_eq!(
        kinds(&doc),
        vec![
            SsmlElement::Speak,
            SsmlElement::Paragraph,
            SsmlElement::Sentence,
            SsmlElement::Sentence,
            SsmlElement::Break,
            SsmlElement::Sentence,
            SsmlElement::Prosody,
        ]
    );
    match &doc.tags()[6].element {
        ParsedElement::Prosody(p) => {
            assert_eq!(p.rate, Some(RateRange::Percentage(PositiveNumber::RoundNumber(20))))
        }
        other => panic!("unexpected {:?}", other),
    }
}

#[test]
fn text_runs_collapse_line_breaks() {
    let doc = parse_ssml("<speak>\n   first line   \n\n   second line\n   third  </speak>").unwrap();
    assert_eq!(doc.get_text(), " first line second line third ");
}

#[test]
fn sibling_paragraphs_and_sentences() {
    for src in ["<speak><p><s>a</s><s>b</s></p></speak>", "<speak><p>a</p><p>b</p></speak>"] {
        let doc = parse_ssml(src).unwrap();
        let n = doc.tags().len();
        let (x, y) = (&doc.tags()[n - 2], &doc.tags()[n - 1]);
        assert!(!x.maybe_contains(y));
        assert!(!y.maybe_contains(x));
    }
    let doc = parse_ssml("<speak><p><s>a</s><s>b</s></p></speak>").unwrap();
    assert_eq!(doc.get_text(), "a b");
}

#[test]
fn pitch_contours() {
    assert_eq!(PitchContour::from_str("   ").unwrap(), PitchContour::Elements(vec![]));
    assert_eq!(PitchContour::from_str("").unwrap(), PitchContour::Elements(vec![]));
    let c = PitchContour::from_str("(20%,+30Hz) (60%,-10Hz)").unwrap();
    assert_eq!(
        c,
        PitchContour::Elements(vec![
            ContourElement::Element((
                Decimal { mantissa: 20, scale: 0 },
                PitchRange::RelativeChange((Decimal { mantissa: 30, scale: 0 }, Sign::Plus, Unit::Hz))
            )),
            ContourElement::Element((
                Decimal { mantissa: 60, scale: 0 },
                PitchRange::RelativeChange((Decimal { mantissa: 10, scale: 0 }, Sign::Minus, Unit::Hz))
            )),
        ])
    );
    assert_eq!(c.to_string(), "(20%,+30Hz) (60%,-10Hz)");
    assert!(PitchContour::from_str("(20%,+30Hz) nonsense").is_err());
}

#[test]
fn value_round_trips() {
    for s in ["250ms", "+1.5s", ".5s", "0.25ms"] {
        let t = TimeDesignation::from_str(s).unwrap();
        assert_eq!(TimeDesignation::from_str(&t.to_string()).unwrap(), t);
    }
    assert_eq!(TimeDesignation::from_str("+1.50s").unwrap().to_string(), "1.50s");
    for s in ["x-high", "120Hz", "+120Hz", "-2st", "+10%", "2.2Hz"] {
        let p = PitchRange::from_str(s).unwrap();
        assert_eq!(PitchRange::from_str(&p.to_string()).unwrap(), p);
    }
    assert_eq!(PitchRange::from_str("-2Hz").unwrap().to_string(), "-2Hz");
    for s in ["loud", "-6dB", "+1.5dB", "2dB"] {
        let v = VolumeRange::from_str(s).unwrap();
        assert_eq!(VolumeRange::from_str(&v.to_string()).unwrap(), v);
    }
    for s in ["fast", "120%", "+5.5%"] {
        let r = RateRange::from_str(s).unwrap();
        assert_eq!(RateRange::from_str(&r.to_string()).unwrap(), r);
    }
    for s in ["en", "en:pt", ":x"] {
        let l = LanguageAccentPair::from_str(s).unwrap();
        assert_eq!(l.to_string(), s);
    }
    assert_eq!(Strength::from_str(Strength::ExtraWeak.as_str()).unwrap(), Strength::ExtraWeak);
    assert_eq!(PitchStrength::from_str("x-low").unwrap().to_string(), "x-low");
}

#[test]
fn value_grammar_exact_results() {
    assert_eq!(
        TimeDesignation::from_str("250ms").unwrap(),
        TimeDesignation::Milliseconds(Decimal { mantissa: 250, scale: 0 })
    );
    assert_eq!(
        TimeDesignation::from_str("+2.50s").unwrap(),
        TimeDesignation::Seconds(Decimal { mantissa: 250, scale: 2 })
    );
    assert!(TimeDesignation::from_str("5").is_err());
    assert_eq!(
        PitchRange::from_str("+2.5st").unwrap(),
        PitchRange::RelativeChange((Decimal { mantissa: 25, scale: 1 }, Sign::Plus, Unit::St))
    );
    assert_eq!(PitchRange::from_str("120Hz").unwrap(), PitchRange::Frequency(Decimal { mantissa: 120, scale: 0 }));
    assert!(PitchRange::from_str("10%").is_err());
    assert!(PitchRange::from_str("5st").is_err());
    assert_eq!(VolumeRange::from_str("silent").unwrap(), VolumeRange::Strength(VolumeStrength::Silent));
    assert!(RateRange::from_str("-10%").is_err());
    assert_eq!(PositiveNumber::from_str("+7").unwrap(), PositiveNumber::RoundNumber(7));
    assert_eq!(PositiveNumber::from_str("7.25").unwrap(), PositiveNumber::FloatNumber(Decimal { mantissa: 725, scale: 2 }));
    assert!(PositiveNumber::from_str("-1").is_err());
    assert!(LanguageAccentPair::from_str("und").is_err());
    assert!(LanguageAccentPair::from_str("zxx").is_err());
    assert!(LanguageAccentPair::from_str("").is_err());
    assert!(LanguageAccentPair::from_str("a:b:c").is_err());
    assert_eq!(Decimal { mantissa: 5, scale: 3 }, match TimeDesignation::from_str("0.005s").unwrap() {
        TimeDesignation::Seconds(d) => d,
        _ => panic!(),
    });
}

#[test]
fn strength_ignores_case() {
    assert_eq!(Strength::from_str("X-WEAK").unwrap(), Strength::ExtraWeak);
    assert_eq!(Strength::from_str("Medium").unwrap(), Strength::Medium);
    assert!(Strength::from_str("loud").is_err());
}

#[test]
fn writing_is_deterministic_and_reparses() {
    let doc = parse_ssml(MESSAGES).unwrap();
    let once = doc.write_ssml();
    assert_eq!(once, doc.write_ssml());
    let again = parse_ssml(&once).unwrap();
    assert_eq!(again.get_text(), doc.get_text());
    assert_eq!(kinds(&again), kinds(&doc));
    assert_eq!(again.write_ssml(), once);
}

#[test]
fn writing_escapes_text_and_attributes() {
    let doc = parse_ssml(r#"<speak version="1.1">fish &amp; chips <sub alias="a &lt; b">x</sub></speak>"#).unwrap();
    assert_eq!(doc.get_text(), "fish & chips x");
    assert_eq!(
        doc.write_ssml(),
        r#"<speak version="1.1">fish &amp; chips <sub alias="a &lt; b">x</sub></speak>"#
    );
}

#[test]
fn identity_transform_writes_the_document() {
    let doc = parse_ssml(MESSAGES).unwrap();
    let t = doc.write_ssml_with_transform(Some);
    assert_eq!(t.ssml_string, doc.write_ssml());
    assert_eq!(t.synthesisable_text, doc.get_text());
}

#[test]
fn expanded_sub_scenario() {
    let src = r#"<speak version="1.1"><sub alias="World Wide Web Consortium">W3C</sub></speak>"#;
    let doc = parse_ssml(src).unwrap();
    assert_eq!(doc.get_text(), "W3C");
    assert_eq!(doc.event_log().len(), 5);
    let parser = SsmlParserBuilder::default().expand_sub(true).build().unwrap();
    let doc = parser.parse(src).unwrap();
    assert_eq!(doc.get_text(), " World Wide Web Consortium ");
    assert_eq!(doc.event_log().len(), 3);
}

#[test]
fn custom_tags_round_trip() {
    let src = r#"<speak version="1.1" xmlns:mstts="https://www.w3.org/2001/mstts"><mstts:express-as style="cheerful" styledegree="2">Hi <break time="1s"/><mstts:silence type="Leading" value="200ms"/></mstts:express-as></speak>"#;
    let doc = parse_ssml(src).unwrap();
    let custom: Vec<_> = doc
        .tags()
        .iter()
        .filter_map(|s| match &s.element {
            ParsedElement::Custom(c) => Some(c.clone()),
            _ => None,
        })
        .collect();
    assert_eq!(custom.len(), 2);
    assert_eq!(custom[0].name, "mstts:express-as");
    assert_eq!(
        custom[0].attributes,
        vec![
            Attribute { name: "style".to_string(), value: "cheerful".to_string() },
            Attribute { name: "styledegree".to_string(), value: "2".to_string() },
        ]
    );
    assert_eq!(custom[1].name, "mstts:silence");
    let again = parse_ssml(&doc.write_ssml()).unwrap();
    assert_eq!(again.tags(), doc.tags());
    assert_eq!(again.event_log(), doc.event_log());
}

#[test]
fn invalid_documents() {
    assert_eq!(parse_ssml("<speak><speak>hello</speak></speak>").err(), Some(SsmlError::NestedSpeak));
    assert_eq!(
        parse_ssml("<speak><p>hello<p>world</p></p></speak>").err(),
        Some(SsmlError::InvalidNesting(SsmlElement::Paragraph, SsmlElement::Paragraph))
    );
    assert_eq!(
        parse_ssml(r#"<speak><lang lang="ja"></lang></speak>"#).err(),
        Some(SsmlError::MissingRequiredAttribute(SsmlElement::Lang, "xml:lang".to_string()))
    );
    assert!(matches!(
        parse_ssml(r#"<speak><prosody rate="-10%">x</prosody></speak>"#),
        Err(SsmlError::InvalidAttributeValue(SsmlElement::Prosody, _, _))
    ));
    assert!(matches!(
        parse_ssml(r#"<speak><break time="5"/></speak>"#),
        Err(SsmlError::InvalidAttributeValue(SsmlElement::Break, _, _))
    ));
    assert_eq!(
        parse_ssml(r#"<speak version="2.0"></speak>"#).err(),
        Some(SsmlError::UnsupportedSsmlVersion("2.0".to_string()))
    );
    assert_eq!(
        parse_ssml(r#"<speak><meta content="x" name="a" http-equiv="b"/></speak>"#).err(),
        Some(SsmlError::AmbiguousMetaAttributes)
    );
    assert_eq!(
        parse_ssml("<speak><p>open").err(),
        Some(SsmlError::UnclosedTag(SsmlElement::Paragraph))
    );
    assert_eq!(parse_ssml("<speak><p></s></speak>").err(), Some(SsmlError::XmlMalformed));
    assert!(matches!(
        parse_ssml(r#"<speak><lexicon uri="http://[" xml:id="x"/></speak>"#),
        Err(SsmlError::InvalidAttributeValue(SsmlElement::Lexicon, _, _))
    ));
    assert!(matches!(
        parse_ssml(r#"<speak><lexicon uri="a.pls" xml:id="x" type="nonsense"/></speak>"#),
        Err(SsmlError::InvalidAttributeValue(SsmlElement::Lexicon, _, _))
    ));
}

#[test]
fn mismatched_close_from_events() {
    let parser = SsmlParser::new();
    let tag = |name: &str| XmlTag { name: name.to_string(), attributes: vec![] };
    let events = vec![XmlEvent::Start(tag("speak")), XmlEvent::Start(tag("p")), XmlEvent::End("s".to_string())];
    assert_eq!(parser.parse_events(events).err(), Some(SsmlError::MismatchedClose("s".to_string())));
    let events = vec![XmlEvent::End("p".to_string())];
    assert_eq!(parser.parse_events(events).err(), Some(SsmlError::MismatchedClose("p".to_string())));
    let events = vec![
        XmlEvent::Start(tag("speak")),
        XmlEvent::Text("  hello\n  world ".to_string()),
        XmlEvent::End("speak".to_string()),
    ];
    let doc = parser.parse_events(events).unwrap();
    assert_eq!(doc.get_text(), " hello world ");
}

#[test]
fn description_text_is_kept_out_of_speech() {
    let src = "<speak><audio src=\"a.wav\">Heard <desc>Kennedy's famous German language gaffe</desc></audio></speak>";
    let doc = parse_ssml(src).unwrap();
    assert_eq!(doc.get_text(), "Heard ");
    assert!(doc.write_ssml().contains("<desc>Kennedy&apos;s famous German language gaffe</desc>"));
    let desc = doc.tags().iter().find(|s| s.element.kind() == SsmlElement::Description).unwrap();
    assert_eq!(desc.element, ParsedElement::Description("Kennedy's famous German language gaffe".to_string()));
}

#[test]
fn audio_defaults_and_values() {
    let doc = parse_ssml(r#"<speak><audio src="a.wav" soundLevel="-6dB" speed="50%" clipEnd="2s" repeatCount="3" maxstale="7"/></speak>"#).unwrap();
    match &doc.tags()[1].element {
        ParsedElement::Audio(a) => {
            assert_eq!(a.fetch_hint, FetchHint::Prefetch);
            assert_eq!(a.speed, Decimal { mantissa: 50, scale: 2 });
            assert_eq!(a.clip_end, Some(TimeDesignation::Seconds(Decimal { mantissa: 2, scale: 0 })));
            assert_eq!(a.clip_begin, TimeDesignation::Seconds(Decimal { mantissa: 0, scale: 0 }));
            assert_eq!(a.repeat_count, 3);
            assert_eq!(a.max_stale, Some(7));
            assert_eq!(a.max_age, None);
        }
        other => panic!("unexpected {:?}", other),
    }
    assert!(doc.write_ssml().contains(r#"soundLevel="-6dB" speed="50%""#));
}

#[test]
fn events_carry_text() {
    let doc = parse_ssml("<speak>Hi <break/>there</speak>").unwrap();
    let evs = doc.event_iter();
    assert_eq!(evs.len(), doc.event_log().len());
    assert!(matches!(&evs[1], ParserEvent::Text(t) if t == "Hi "));
    assert_eq!(doc.get_text_from_span(&doc.tags()[0]), "Hi there");
}

#[test]
fn empty_and_plain_documents() {
    let doc = parse_ssml("").unwrap();
    assert_eq!(doc.get_text(), "");
    assert!(doc.tags().is_empty());
    let doc = parse_ssml("<speak/>").unwrap();
    assert_eq!(doc.tags().len(), 1);
}
