use quick_xml::events::Event;
use quick_xml::reader::Reader;
use ssml_parser::attributes::{parse_element, XmlTag};
use ssml_parser::elements::{
    Attribute, AudioAttributes, BreakAttributes, ContourElement, Decibels, Decimal,
    EmphasisAttributes, EmphasisLevel, FetchHint, Gender, LangAttributes, LanguageAccentPair,
    LexiconAttributes, LookupAttributes, MarkAttributes, MetaAttributes, OnLanguageFailure,
    ParsedElement, PhonemeAlphabet, PhonemeAttributes, PitchContour, PitchRange, PitchStrength,
    PositiveNumber, ProsodyAttributes, RateRange, SayAsAttributes, Sign, SpeakAttributes,
    SsmlElement, Strength, SubAttributes, TimeDesignation, TokenAttributes, Unit,
    VoiceAttributes, VolumeRange, VolumeStrength,
};

fn dec(mantissa: u64, scale: u32) -> Decimal {
    Decimal { mantissa, scale }
}

/// Writes the element's start tag as `<name attrs></name>`, reads the start tag back with the
/// XML tokeniser, and parses it as an element.
fn reparse(element: &ParsedElement) -> ParsedElement {
    let name = element.kind().to_string();
    let xml = format!("<{}{}></{}>", name, element.attribute_string(), name);
    println!("{}", xml);
    let mut reader = Reader::from_str(&xml);
    let event = reader.read_event().unwrap();
    if let Event::Start(bs) = event {
        let tag_name = std::str::from_utf8(bs.name().as_ref()).unwrap().to_string();
        let attributes = bs
            .attributes()
            .map(|a| {
                let a = a.unwrap();
                Attribute {
                    name: std::str::from_utf8(a.key.as_ref()).unwrap().to_string(),
                    value: a.unescape_value().unwrap().into_owned(),
                }
            })
            .collect();
        let parsed = parse_element(&XmlTag { name: tag_name, attributes }).unwrap();
        assert_eq!(parsed.kind(), element.kind());
        parsed
    } else {
        panic!("Didn't get expected event");
    }
}

fn s(v: &str) -> String {
    v.to_string()
}

#[test]
fn speak_conversions() {
    let values = vec![
        SpeakAttributes {
            lang: Some(s("en-GB")),
            base: Some(s("http://example.com/a&b")),
            on_lang_failure: Some(OnLanguageFailure::ChangeVoice),
            version: s("1.1"),
            xml_root_attrs: vec![Attribute { name: s("xmlns"), value: s("http://www.w3.org/2001/10/synthesis") }],
        },
        SpeakAttributes { lang: None, base: None, on_lang_failure: None, version: s("1.0"), xml_root_attrs: vec![] },
    ];
    for speak in values {
        assert_eq!(reparse(&ParsedElement::Speak(speak.clone())), ParsedElement::Speak(speak));
    }
}

#[test]
fn lang_conversions() {
    for lang in [
        LangAttributes { lang: s("ja"), on_lang_failure: None },
        LangAttributes { lang: s("en \"quoted\""), on_lang_failure: Some(OnLanguageFailure::IgnoreLang) },
    ] {
        assert_eq!(reparse(&ParsedElement::Lang(lang.clone())), ParsedElement::Lang(lang));
    }
}

#[test]
fn lookup_conversions() {
    let look = LookupAttributes { lookup_ref: s("dict<1>") };
    assert_eq!(reparse(&ParsedElement::Lookup(look.clone())), ParsedElement::Lookup(look));
}

#[test]
fn meta_conversions() {
    for meta in [
        MetaAttributes { name: Some(s("seeAlso")), http_equiv: None, content: s("http://example.com") },
        MetaAttributes { name: None, http_equiv: Some(s("Cache-Control")), content: s("no-cache") },
    ] {
        assert_eq!(reparse(&ParsedElement::Meta(meta.clone())), ParsedElement::Meta(meta));
    }
}

#[test]
fn token_conversions() {
    for token in [TokenAttributes { role: Some(s("ja:noun")) }, TokenAttributes { role: None }] {
        assert_eq!(reparse(&ParsedElement::Token(token.clone())), ParsedElement::Token(token.clone()));
        assert_eq!(reparse(&ParsedElement::Word(token.clone())), ParsedElement::Word(token));
    }
}

#[test]
fn say_as_conversions() {
    let say_as = SayAsAttributes { interpret_as: s("date"), format: Some(s("mdy")), detail: Some(s("2")) };
    assert_eq!(reparse(&ParsedElement::SayAs(say_as.clone())), ParsedElement::SayAs(say_as));
}

#[test]
fn phoneme_conversions() {
    for attr in [
        PhonemeAttributes { ph: s("təmei̥ɾou̥"), alphabet: Some(PhonemeAlphabet::Ipa) },
        PhonemeAttributes { ph: s("t&m"), alphabet: Some(PhonemeAlphabet::Other(s("x-sampa"))) },
        PhonemeAttributes { ph: s("x"), alphabet: None },
    ] {
        assert_eq!(reparse(&ParsedElement::Phoneme(attr.clone())), ParsedElement::Phoneme(attr));
    }
}

#[test]
fn break_conversions() {
    for attr in [
        BreakAttributes { strength: Some(Strength::ExtraStrong), time: Some(TimeDesignation::Milliseconds(dec(250, 0))) },
        BreakAttributes { strength: None, time: Some(TimeDesignation::Seconds(dec(15, 1))) },
        BreakAttributes { strength: Some(Strength::No), time: None },
    ] {
        assert_eq!(reparse(&ParsedElement::Break(attr)), ParsedElement::Break(attr));
    }
}

#[test]
fn prosody_conversions() {
    let attr = ProsodyAttributes {
        pitch: Some(PitchRange::RelativeChange((dec(25, 1), Sign::Minus, Unit::St))),
        contour: Some(PitchContour::Elements(vec![
            ContourElement::Element((dec(0, 0), PitchRange::RelativeChange((dec(20, 0), Sign::Plus, Unit::Hz)))),
            ContourElement::Element((dec(40, 0), PitchRange::Strength(PitchStrength::High))),
        ])),
        range: Some(PitchRange::Frequency(dec(22, 1))),
        rate: Some(RateRange::Percentage(PositiveNumber::FloatNumber(dec(1205, 1)))),
        duration: Some(TimeDesignation::Seconds(dec(3, 0))),
        volume: Some(VolumeRange::Decibel(Decibels { sign: Sign::Minus, magnitude: dec(6, 0) })),
    };
    assert_eq!(reparse(&ParsedElement::Prosody(attr.clone())), ParsedElement::Prosody(attr));
    let attr = ProsodyAttributes {
        pitch: Some(PitchRange::Strength(PitchStrength::XLow)),
        contour: None,
        range: None,
        rate: Some(RateRange::Percentage(PositiveNumber::RoundNumber(50))),
        duration: None,
        volume: Some(VolumeRange::Strength(VolumeStrength::XLoud)),
    };
    assert_eq!(reparse(&ParsedElement::Prosody(attr.clone())), ParsedElement::Prosody(attr));
}

#[test]
fn mark_conversions() {
    let attr = MarkAttributes { name: s("here & there") };
    assert_eq!(reparse(&ParsedElement::Mark(attr.clone())), ParsedElement::Mark(attr));
}

#[test]
fn emphasis_conversions() {
    for attr in [
        EmphasisAttributes { level: Some(EmphasisLevel::Reduced) },
        EmphasisAttributes { level: Some(EmphasisLevel::NoEmphasis) },
        EmphasisAttributes { level: None },
    ] {
        assert_eq!(reparse(&ParsedElement::Emphasis(attr)), ParsedElement::Emphasis(attr));
    }
}

#[test]
fn sub_conversions() {
    let attr = SubAttributes { alias: s("World Wide Web Consortium") };
    assert_eq!(reparse(&ParsedElement::Sub(attr.clone())), ParsedElement::Sub(attr));
}

#[test]
fn lexicon_conversions() {
    for attr in [
        LexiconAttributes {
            uri: s("http://www.example.com/lexicon.file"),
            xml_id: s("pls"),
            ty: Some(s("application/pls+xml")),
            fetch_timeout: Some(TimeDesignation::Seconds(dec(5, 0))),
        },
        LexiconAttributes { uri: s("string"), xml_id: s("some_id"), ty: None, fetch_timeout: None },
    ] {
        assert_eq!(reparse(&ParsedElement::Lexicon(attr.clone())), ParsedElement::Lexicon(attr));
    }
}

#[test]
fn voice_conversions() {
    let attr = VoiceAttributes {
        gender: Some(Gender::Female),
        age: Some(30),
        variant: Some(2),
        name: vec![s("Mary"), s("Anna")],
        languages: vec![
            LanguageAccentPair { lang: s("en"), accent: None },
            LanguageAccentPair { lang: s("fr"), accent: Some(s("ja")) },
        ],
    };
    assert_eq!(reparse(&ParsedElement::Voice(attr.clone())), ParsedElement::Voice(attr));
    let attr = VoiceAttributes { gender: None, age: None, variant: None, name: vec![], languages: vec![] };
    assert_eq!(reparse(&ParsedElement::Voice(attr.clone())), ParsedElement::Voice(attr));
}

#[test]
fn audio_conversions() {
    for attr in [
        AudioAttributes {
            src: Some(s("http://www.example.com/music.wav")),
            fetch_timeout: Some(TimeDesignation::Seconds(dec(2, 0))),
            fetch_hint: FetchHint::Safe,
            max_age: Some(10),
            max_stale: Some(20),
            clip_begin: TimeDesignation::Milliseconds(dec(500, 0)),
            clip_end: Some(TimeDesignation::Seconds(dec(4, 0))),
            repeat_count: 3,
            repeat_dur: Some(TimeDesignation::Seconds(dec(10, 0))),
            sound_level: Decibels { sign: Sign::Minus, magnitude: dec(35, 1) },
            speed: dec(150, 2),
        },
        AudioAttributes {
            src: None,
            fetch_timeout: None,
            fetch_hint: FetchHint::Prefetch,
            max_age: None,
            max_stale: None,
            clip_begin: TimeDesignation::Seconds(dec(0, 0)),
            clip_end: None,
            repeat_count: 1,
            repeat_dur: None,
            sound_level: Decibels { sign: Sign::Plus, magnitude: dec(0, 0) },
            speed: dec(100, 2),
        },
    ] {
        let parsed = reparse(&ParsedElement::Audio(attr.clone()));
        if let ParsedElement::Audio(parsed) = parsed {
            assert_eq!(parsed.src, attr.src);
            assert_eq!(parsed.fetch_timeout, attr.fetch_timeout);
            assert_eq!(parsed.fetch_hint, attr.fetch_hint);
            assert_eq!(parsed.max_age, attr.max_age);
            assert_eq!(parsed.max_stale, attr.max_stale);
            assert_eq!(parsed.clip_begin, attr.clip_begin);
            assert_eq!(parsed.clip_end, attr.clip_end);
            assert_eq!(parsed.repeat_count, attr.repeat_count);
            assert_eq!(parsed.repeat_dur, attr.repeat_dur);
            assert_eq!(parsed.sound_level, attr.sound_level);
            assert_eq!(parsed.speed, attr.speed);
        } else {
            panic!("SSML Element type doesn't match actual parsed value: {:?}", parsed);
        }
    }
}

#[test]
fn element_names_round_trip() {
    for name in ["speak", "p", "s", "w", "say-as", "desc", "mstts:express-as"] {
        assert_eq!(SsmlElement::from_str(name).to_string(), name);
    }
    assert_eq!(SsmlElement::from_str("p"), SsmlElement::Paragraph);
    assert_eq!(SsmlElement::from_str("bookmark"), SsmlElement::Custom(s("bookmark")));
}
