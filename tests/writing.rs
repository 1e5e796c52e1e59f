use ssml_parser::elements::ParsedElement;
use ssml_parser::{parse_ssml, ParserEvent};

#[test]
fn ssml_transformation() {
    let ssml = r#"
        <speak>
            <mstts:backgroundaudio fadein="string" fadeout="string" src="string" volume="string"/>
            <voice name="string">
                <break strength="medium" time="5s"/>
                <emphasis level="reduced"/>
                <lang xml:lang="string"/>
                <lexicon uri="string" xml:id="some_id"/>
                <mstts:express-as role="string" style="string" styledegree="value"/>
                <p>Some speech! &amp; With correct escaping on text, hopefully. </p>
                <phoneme ph="string" alphabet="string"/>
                <prosody pitch="2.2Hz" contour="(0%,+20Hz) (10%,+30Hz) (40%,+10Hz)" range="-2Hz" rate="20%" volume="2dB"/>
            </voice>
        </speak>        
        "#;

    let ssml = parse_ssml(ssml).unwrap();

    let transform = |elem| match &elem {
        ParserEvent::Open(element) | ParserEvent::Close(element) | ParserEvent::Empty(element) => {
            if matches!(element, ParsedElement::Custom(_)) {
                None
            } else {
                Some(elem)
            }
        }
        ParserEvent::Text(txt) => {
            let txt = txt.replace("hopefully", "definitely");
            Some(ParserEvent::Text(txt))
        }
    };

    let transformed = ssml.write_ssml_with_transform(transform);
    assert_eq!(
        transformed.synthesisable_text.trim(),
        "Some speech! & With correct escaping on text, definitely."
    );
    assert!(!transformed.ssml_string.contains("mstts:backgroundaudio"));
    assert!(!transformed.ssml_string.contains("mstts:express-as"));
    assert!(transformed.ssml_string.contains("prosody"));

    parse_ssml(&transformed.ssml_string).unwrap();
}
