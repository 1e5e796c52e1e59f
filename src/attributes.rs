//! Reading the attributes of each SSML element from a start tag.
use vstd::prelude::*;
use crate::elements::{
    element_name, kind_of, standard_kind, Attribute, AudioAttributes, BreakAttributes,
    CustomElement, EmphasisAttributes, LangAttributes, LexiconAttributes, LookupAttributes,
    MarkAttributes, MetaAttributes, ParsedElement, PhonemeAttributes, ProsodyAttributes,
    SayAsAttributes, SpeakAttributes, SsmlElement, SubAttributes, TokenAttributes,
    VoiceAttributes,
};
use crate::error::SsmlError;
use crate::labels::{
    spec_parse_emphasis_level, spec_parse_fetch_hint, spec_parse_gender,
    spec_parse_on_language_failure, spec_parse_strength, EmphasisLevel, FetchHint, Gender,
    OnLanguageFailure, Strength,
};
use crate::numbers::{parse_unsigned_chars, spec_parse_unsigned, Decimal};
use crate::text::{chars_of, string_of};
use crate::values::{
    invalid, lower_of, spec_parse_contour, spec_parse_decibel, spec_parse_language_accent,
    spec_parse_percentage, spec_parse_pitch_range, spec_parse_rate_range, spec_parse_time,
    spec_parse_volume_range, split_whitespace, views, ws_tokens, Decibels, Grammar,
    InvalidValue, LanguageAccentPair, PhonemeAlphabet, PitchContour, PitchRange, RateRange,
    Sign, TimeDesignation, VolumeRange,
};

verus! {

/// A start tag or empty-element tag: the element name and its attributes in document order,
/// values with entities already replaced.
#[derive(Clone, Debug, PartialEq, Eq)]
pub struct XmlTag {
    pub name: String,
    pub attributes: Vec<Attribute>,
}

/// Value of the first attribute called `name`.
pub open spec fn attr_value(attrs: Seq<Attribute>, name: Seq<char>) -> Option<Seq<char>>
    decreases attrs.len(),
{
    if attrs.len() == 0 {
        None
    } else if attrs[0].name@ == name {
        Some(attrs[0].value@)
    } else {
        attr_value(attrs.drop_first(), name)
    }
}

/// The first attribute called `name`.
pub fn get_attr<'a>(attrs: &'a Vec<Attribute>, name: &str) -> (r: Option<&'a String>)
    ensures
        match r {
            Some(v) => attr_value(attrs@, name@) == Some(v@),
            None => attr_value(attrs@, name@) is None,
        },
{
    let mut i: usize = 0;
    assert(attrs@.skip(0) =~= attrs@);
    while i < attrs.len()
        invariant
            i <= attrs.len(),
            attr_value(attrs@, name@) == attr_value(attrs@.skip(i as int), name@),
        decreases attrs.len() - i,
    {
        assert(attrs@.skip(i as int).drop_first() =~= attrs@.skip(i + 1));
        if attrs[i].name == String::from_str(name) {
            return Some(&attrs[i].value);
        }
        i += 1;
    }
    None
}

/// `e` is `InvalidAttributeValue(k, name, v)` for the value `attrs` give `name`, read
/// against `g`.
pub open spec fn is_invalid(e: SsmlError, k: SsmlElement, name: Seq<char>, g: Grammar, attrs: Seq<Attribute>) -> bool {
    match e {
        SsmlError::InvalidAttributeValue(k2, n, v) => k2 == k && n@ == name && v.expected == g
            && attr_value(attrs, name) == Some(v.actual@),
        _ => false,
    }
}

/// `e` is `MissingRequiredAttribute(k, name)`.
pub open spec fn is_missing(e: SsmlError, k: SsmlElement, name: Seq<char>) -> bool {
    match e {
        SsmlError::MissingRequiredAttribute(k2, n) => k2 == k && n@ == name,
        _ => false,
    }
}

fn bad_value(kind: &SsmlElement, name: &str, e: InvalidValue) -> (r: SsmlError)
    ensures
        r is InvalidAttributeValue,
        match r {
            SsmlError::InvalidAttributeValue(k, n, v) => k == *kind && n@ == name@ && v == e,
            _ => false,
        },
{
    SsmlError::InvalidAttributeValue(kind.copy(), String::from_str(name), e)
}

fn missing(kind: &SsmlElement, name: &str) -> (r: SsmlError)
    ensures
        r is MissingRequiredAttribute,
        is_missing(r, *kind, name@),
{
    SsmlError::MissingRequiredAttribute(kind.copy(), String::from_str(name))
}

pub open spec fn view_opt(o: Option<String>) -> Option<Seq<char>> {
    match o {
        Some(s) => Some(s@),
        None => None,
    }
}

/// The text attribute `name`, if present.
fn opt_text(attrs: &Vec<Attribute>, name: &str) -> (r: Option<String>)
    ensures
        view_opt(r) == attr_value(attrs@, name@),
{
    match get_attr(attrs, name) {
        Some(v) => Some(v.clone()),
        None => None,
    }
}

/// The required text attribute `name`.
fn req_text(attrs: &Vec<Attribute>, kind: &SsmlElement, name: &str) -> (r: Result<String, SsmlError>)
    ensures
        match r {
            Ok(v) => attr_value(attrs@, name@) == Some(v@),
            Err(e) => attr_value(attrs@, name@) is None && e is MissingRequiredAttribute
                && is_missing(e, *kind, name@),
        },
{
    match get_attr(attrs, name) {
        Some(v) => Ok(v.clone()),
        None => Err(missing(kind, name)),
    }
}

/// Whether `s` is a URI, as the `http` crate parses URIs.
pub uninterp spec fn is_valid_uri(s: Seq<char>) -> bool;

/// Relies on `http::Uri`'s `FromStr`: whether the text parses as a URI; the answer depends on
/// the text alone.
#[verifier::external_body]
fn uri_is_valid(s: &str) -> (r: bool)
    ensures
        r == is_valid_uri(s@),
{
    s.parse::<http::Uri>().is_ok()
}

/// Whether `s` is a media type, as the `mediatype` crate parses them.
pub uninterp spec fn is_valid_media_type(s: Seq<char>) -> bool;

/// Relies on `mediatype::MediaType::parse`: whether the text parses as a media type; the answer
/// depends on the text alone.
#[verifier::external_body]
fn media_type_is_valid(s: &str) -> (r: bool)
    ensures
        r == is_valid_media_type(s@),
{
    mediatype::MediaType::parse(s).is_ok()
}

/// An unsigned integer attribute no larger than `max`; blank values count as absent when
/// `blank_absent`, and zero is refused when `positive`.
pub open spec fn uint_field(attrs: Seq<Attribute>, name: Seq<char>, max: u64, blank_absent: bool, positive: bool) -> Option<Option<u64>> {
    match attr_value(attrs, name) {
        None => Some(None),
        Some(v) => if blank_absent && v.len() == 0 {
            Some(None)
        } else {
            match spec_parse_unsigned(v, max) {
                Some(n) => if positive && n == 0 { None } else { Some(Some(n)) },
                None => None,
            }
        },
    }
}

fn opt_uint(attrs: &Vec<Attribute>, kind: &SsmlElement, name: &str, max: u64, blank_absent: bool, positive: bool) -> (r: Result<Option<u64>, SsmlError>)
    ensures
        match r {
            Ok(x) => uint_field(attrs@, name@, max, blank_absent, positive) == Some(x),
            Err(e) => uint_field(attrs@, name@, max, blank_absent, positive) is None && e is InvalidAttributeValue
                && is_invalid(e, *kind, name@, Grammar::Integer, attrs@),
        },
{
    match get_attr(attrs, name) {
        None => Ok(None),
        Some(v) => {
            let cs = chars_of(v.as_str());
            if blank_absent && cs.len() == 0 {
                return Ok(None);
            }
            match parse_unsigned_chars(&cs, max) {
                Some(n) => if positive && n == 0 {
                    Err(bad_value(kind, name, invalid(Grammar::Integer, v.as_str())))
                } else {
                    Ok(Some(n))
                },
                None => Err(bad_value(kind, name, invalid(Grammar::Integer, v.as_str()))),
            }
        },
    }
}

/// The `TimeDesignation` attribute `name`: `Some(None)` when absent, `None` when it does not parse.
pub open spec fn time_field(attrs: Seq<Attribute>, name: Seq<char>) -> Option<Option<TimeDesignation>> {
    match attr_value(attrs, name) {
        None => Some(None),
        Some(v) => match spec_parse_time(v) {
            Some(x) => Some(Some(x)),
            None => None,
        },
    }
}

fn opt_time(attrs: &Vec<Attribute>, kind: &SsmlElement, name: &str) -> (r: Result<Option<TimeDesignation>, SsmlError>)
    ensures
        match r {
            Ok(x) => time_field(attrs@, name@) == Some(x),
            Err(e) => time_field(attrs@, name@) is None && e is InvalidAttributeValue
                && is_invalid(e, *kind, name@, Grammar::TimeDesignation, attrs@),
        },
{
    match get_attr(attrs, name) {
        None => Ok(None),
        Some(v) => match TimeDesignation::from_str(v.as_str()) {
            Ok(x) => Ok(Some(x)),
            Err(e) => Err(bad_value(kind, name, e)),
        },
    }
}

/// The `OnLanguageFailure` attribute `name`: `Some(None)` when absent, `None` when it does not parse.
pub open spec fn olf_field(attrs: Seq<Attribute>, name: Seq<char>) -> Option<Option<OnLanguageFailure>> {
    match attr_value(attrs, name) {
        None => Some(None),
        Some(v) => match spec_parse_on_language_failure(v) {
            Some(x) => Some(Some(x)),
            None => None,
        },
    }
}

fn opt_olf(attrs: &Vec<Attribute>, kind: &SsmlElement, name: &str) -> (r: Result<Option<OnLanguageFailure>, SsmlError>)
    ensures
        match r {
            Ok(x) => olf_field(attrs@, name@) == Some(x),
            Err(e) => olf_field(attrs@, name@) is None && e is InvalidAttributeValue
                && is_invalid(e, *kind, name@, Grammar::OnLanguageFailure, attrs@),
        },
{
    match get_attr(attrs, name) {
        None => Ok(None),
        Some(v) => match OnLanguageFailure::from_str(v.as_str()) {
            Ok(x) => Ok(Some(x)),
            Err(e) => Err(bad_value(kind, name, e)),
        },
    }
}

/// The `Strength` attribute `name`: `Some(None)` when absent, `None` when it does not parse.
pub open spec fn strength_field(attrs: Seq<Attribute>, name: Seq<char>) -> Option<Option<Strength>> {
    match attr_value(attrs, name) {
        None => Some(None),
        Some(v) => match spec_parse_strength(lower_of(v)) {
            Some(x) => Some(Some(x)),
            None => None,
        },
    }
}

fn opt_strength(attrs: &Vec<Attribute>, kind: &SsmlElement, name: &str) -> (r: Result<Option<Strength>, SsmlError>)
    ensures
        match r {
            Ok(x) => strength_field(attrs@, name@) == Some(x),
            Err(e) => strength_field(attrs@, name@) is None && e is InvalidAttributeValue
                && is_invalid(e, *kind, name@, Grammar::Strength, attrs@),
        },
{
    match get_attr(attrs, name) {
        None => Ok(None),
        Some(v) => match Strength::from_str(v.as_str()) {
            Ok(x) => Ok(Some(x)),
            Err(e) => Err(bad_value(kind, name, e)),
        },
    }
}

/// The `EmphasisLevel` attribute `name`: `Some(None)` when absent, `None` when it does not parse.
pub open spec fn emphasis_field(attrs: Seq<Attribute>, name: Seq<char>) -> Option<Option<EmphasisLevel>> {
    match attr_value(attrs, name) {
        None => Some(None),
        Some(v) => match spec_parse_emphasis_level(v) {
            Some(x) => Some(Some(x)),
            None => None,
        },
    }
}

fn opt_emphasis(attrs: &Vec<Attribute>, kind: &SsmlElement, name: &str) -> (r: Result<Option<EmphasisLevel>, SsmlError>)
    ensures
        match r {
            Ok(x) => emphasis_field(attrs@, name@) == Some(x),
            Err(e) => emphasis_field(attrs@, name@) is None && e is InvalidAttributeValue
                && is_invalid(e, *kind, name@, Grammar::EmphasisLevel, attrs@),
        },
{
    match get_attr(attrs, name) {
        None => Ok(None),
        Some(v) => match EmphasisLevel::from_str(v.as_str()) {
            Ok(x) => Ok(Some(x)),
            Err(e) => Err(bad_value(kind, name, e)),
        },
    }
}

/// The `PitchRange` attribute `name`: `Some(None)` when absent, `None` when it does not parse.
pub open spec fn pitch_field(attrs: Seq<Attribute>, name: Seq<char>) -> Option<Option<PitchRange>> {
    match attr_value(attrs, name) {
        None => Some(None),
        Some(v) => match spec_parse_pitch_range(v) {
            Some(x) => Some(Some(x)),
            None => None,
        },
    }
}

fn opt_pitch(attrs: &Vec<Attribute>, kind: &SsmlElement, name: &str) -> (r: Result<Option<PitchRange>, SsmlError>)
    ensures
        match r {
            Ok(x) => pitch_field(attrs@, name@) == Some(x),
            Err(e) => pitch_field(attrs@, name@) is None && e is InvalidAttributeValue
                && is_invalid(e, *kind, name@, Grammar::PitchRange, attrs@),
        },
{
    match get_attr(attrs, name) {
        None => Ok(None),
        Some(v) => match PitchRange::from_str(v.as_str()) {
            Ok(x) => Ok(Some(x)),
            Err(e) => Err(bad_value(kind, name, e)),
        },
    }
}

/// The `RateRange` attribute `name`: `Some(None)` when absent, `None` when it does not parse.
pub open spec fn rate_field(attrs: Seq<Attribute>, name: Seq<char>) -> Option<Option<RateRange>> {
    match attr_value(attrs, name) {
        None => Some(None),
        Some(v) => match spec_parse_rate_range(v) {
            Some(x) => Some(Some(x)),
            None => None,
        },
    }
}

fn opt_rate(attrs: &Vec<Attribute>, kind: &SsmlElement, name: &str) -> (r: Result<Option<RateRange>, SsmlError>)
    ensures
        match r {
            Ok(x) => rate_field(attrs@, name@) == Some(x),
            Err(e) => rate_field(attrs@, name@) is None && e is InvalidAttributeValue
                && is_invalid(e, *kind, name@, Grammar::RateRange, attrs@),
        },
{
    match get_attr(attrs, name) {
        None => Ok(None),
        Some(v) => match RateRange::from_str(v.as_str()) {
            Ok(x) => Ok(Some(x)),
            Err(e) => Err(bad_value(kind, name, e)),
        },
    }
}

/// The `VolumeRange` attribute `name`: `Some(None)` when absent, `None` when it does not parse.
pub open spec fn volume_field(attrs: Seq<Attribute>, name: Seq<char>) -> Option<Option<VolumeRange>> {
    match attr_value(attrs, name) {
        None => Some(None),
        Some(v) => match spec_parse_volume_range(v) {
            Some(x) => Some(Some(x)),
            None => None,
        },
    }
}

fn opt_volume(attrs: &Vec<Attribute>, kind: &SsmlElement, name: &str) -> (r: Result<Option<VolumeRange>, SsmlError>)
    ensures
        match r {
            Ok(x) => volume_field(attrs@, name@) == Some(x),
            Err(e) => volume_field(attrs@, name@) is None && e is InvalidAttributeValue
                && is_invalid(e, *kind, name@, Grammar::VolumeRange, attrs@),
        },
{
    match get_attr(attrs, name) {
        None => Ok(None),
        Some(v) => match VolumeRange::from_str(v.as_str()) {
            Ok(x) => Ok(Some(x)),
            Err(e) => Err(bad_value(kind, name, e)),
        },
    }
}

/// The `FetchHint` attribute `name`: `Some(None)` when absent, `None` when it does not parse.
pub open spec fn fetch_hint_field(attrs: Seq<Attribute>, name: Seq<char>) -> Option<Option<FetchHint>> {
    match attr_value(attrs, name) {
        None => Some(None),
        Some(v) => match spec_parse_fetch_hint(v) {
            Some(x) => Some(Some(x)),
            None => None,
        },
    }
}

fn opt_fetch_hint(attrs: &Vec<Attribute>, kind: &SsmlElement, name: &str) -> (r: Result<Option<FetchHint>, SsmlError>)
    ensures
        match r {
            Ok(x) => fetch_hint_field(attrs@, name@) == Some(x),
            Err(e) => fetch_hint_field(attrs@, name@) is None && e is InvalidAttributeValue
                && is_invalid(e, *kind, name@, Grammar::FetchHint, attrs@),
        },
{
    match get_attr(attrs, name) {
        None => Ok(None),
        Some(v) => match FetchHint::from_str(v.as_str()) {
            Ok(x) => Ok(Some(x)),
            Err(e) => Err(bad_value(kind, name, e)),
        },
    }
}

/// The `Decibels` attribute `name`: `Some(None)` when absent, `None` when it does not parse.
pub open spec fn decibel_field(attrs: Seq<Attribute>, name: Seq<char>) -> Option<Option<Decibels>> {
    match attr_value(attrs, name) {
        None => Some(None),
        Some(v) => match spec_parse_decibel(v) {
            Some(x) => Some(Some(x)),
            None => None,
        },
    }
}

fn opt_decibel(attrs: &Vec<Attribute>, kind: &SsmlElement, name: &str) -> (r: Result<Option<Decibels>, SsmlError>)
    ensures
        match r {
            Ok(x) => decibel_field(attrs@, name@) == Some(x),
            Err(e) => decibel_field(attrs@, name@) is None && e is InvalidAttributeValue
                && is_invalid(e, *kind, name@, Grammar::Decibel, attrs@),
        },
{
    match get_attr(attrs, name) {
        None => Ok(None),
        Some(v) => match crate::values::parse_decibel(v.as_str()) {
            Ok(x) => Ok(Some(x)),
            Err(e) => Err(bad_value(kind, name, e)),
        },
    }
}

/// The `Decimal` attribute `name`: `Some(None)` when absent, `None` when it does not parse.
pub open spec fn percentage_field(attrs: Seq<Attribute>, name: Seq<char>) -> Option<Option<Decimal>> {
    match attr_value(attrs, name) {
        None => Some(None),
        Some(v) => match spec_parse_percentage(v) {
            Some(x) => Some(Some(x)),
            None => None,
        },
    }
}

fn opt_percentage(attrs: &Vec<Attribute>, kind: &SsmlElement, name: &str) -> (r: Result<Option<Decimal>, SsmlError>)
    ensures
        match r {
            Ok(x) => percentage_field(attrs@, name@) == Some(x),
            Err(e) => percentage_field(attrs@, name@) is None && e is InvalidAttributeValue
                && is_invalid(e, *kind, name@, Grammar::Percentage, attrs@),
        },
{
    match get_attr(attrs, name) {
        None => Ok(None),
        Some(v) => match crate::values::parse_unsigned_percentage(v.as_str()) {
            Ok(x) => Ok(Some(x)),
            Err(e) => Err(bad_value(kind, name, e)),
        },
    }
}

/// The errors that reading attributes can give.
pub open spec fn attr_error(e: SsmlError) -> bool {
    e is MissingRequiredAttribute || e is InvalidAttributeValue || e is UnsupportedSsmlVersion
        || e is AmbiguousMetaAttributes
}

/// Attributes `speak` reads itself; the others are kept as they are.
pub open spec fn is_speak_attr(n: Seq<char>) -> bool {
    n == "xml:base"@ || n == "xml:lang"@ || n == "onlangfailure"@ || n == "version"@
}

/// The version of a `speak` element: `1.1` when absent, `None` when unsupported.
pub open spec fn speak_version(attrs: Seq<Attribute>) -> Option<Seq<char>> {
    match attr_value(attrs, "version"@) {
        None => Some("1.1"@),
        Some(v) => if v == "1.0"@ || v == "1.1"@ { Some(v) } else { None },
    }
}

pub fn parse_speak(attrs: &Vec<Attribute>) -> (r: Result<SpeakAttributes, SsmlError>)
    ensures
        match r {
            Ok(a) => reads_speak(attrs@, a),
            Err(e) => attr_error(e) && (speak_version(attrs@) is None || olf_field(attrs@, "onlangfailure"@) is None),
        },
            r is Err && !(speak_version(attrs@) is Some)
                ==> match r->Err_0 { SsmlError::UnsupportedSsmlVersion(v) => attr_value(attrs@, "version"@) == Some(v@), _ => false },
            r is Err && speak_version(attrs@) is Some && !(olf_field(attrs@, "onlangfailure"@) is Some)
                ==> is_invalid(r->Err_0, SsmlElement::Speak, "onlangfailure"@, Grammar::OnLanguageFailure, attrs@),
{
    let kind = SsmlElement::Speak;
    let version = match get_attr(attrs, "version") {
        Some(v) => {
            if *v == String::from_str("1.0") || *v == String::from_str("1.1") {
                v.clone()
            } else {
                return Err(SsmlError::UnsupportedSsmlVersion(v.clone()));
            }
        },
        None => String::from_str("1.1"),
    };
    let lang = opt_text(attrs, "xml:lang");
    let base = opt_text(attrs, "xml:base");
    let on_lang_failure = opt_olf(attrs, &kind, "onlangfailure")?;
    let mut rest: Vec<Attribute> = Vec::new();
    let mut i: usize = 0;
    while i < attrs.len()
        invariant
            i <= attrs.len(),
            rest@ == attrs@.take(i as int).filter(|x: Attribute| !is_speak_attr(x.name@)),
        decreases attrs.len() - i,
    {
        let n = &attrs[i].name;
        let own = *n == String::from_str("xml:base") || *n == String::from_str("xml:lang")
            || *n == String::from_str("onlangfailure") || *n == String::from_str("version");
        if !own {
            rest.push(Attribute { name: n.clone(), value: attrs[i].value.clone() });
        }
        proof {
            assert(attrs@.take(i + 1).drop_last() =~= attrs@.take(i as int));
            reveal_with_fuel(Seq::filter, 1);
        }
        i += 1;
    }
    assert(attrs@.take(i as int) =~= attrs@);
    Ok(SpeakAttributes { lang, base, on_lang_failure, version, xml_root_attrs: rest })
}

pub fn parse_lexicon(attrs: &Vec<Attribute>) -> (r: Result<LexiconAttributes, SsmlError>)
    ensures
        match r {
            Ok(a) => reads_lexicon(attrs@, a),
            Err(e) => attr_error(e) && (attr_value(attrs@, "uri"@) is None || !is_valid_uri(attr_value(attrs@, "uri"@)->0)
                || attr_value(attrs@, "xml:id"@) is None
                || (attr_value(attrs@, "type"@) is Some && !is_valid_media_type(attr_value(attrs@, "type"@)->0))
                || time_field(attrs@, "fetchtimeout"@) is None),
        },
            r is Err && !(attr_value(attrs@, "xml:id"@) is Some)
                ==> is_missing(r->Err_0, SsmlElement::Lexicon, "xml:id"@),
            r is Err && attr_value(attrs@, "xml:id"@) is Some && !(attr_value(attrs@, "uri"@) is Some)
                ==> is_missing(r->Err_0, SsmlElement::Lexicon, "uri"@),
            r is Err && attr_value(attrs@, "xml:id"@) is Some && attr_value(attrs@, "uri"@) is Some && !(is_valid_uri(attr_value(attrs@, "uri"@)->0))
                ==> is_invalid(r->Err_0, SsmlElement::Lexicon, "uri"@, Grammar::Uri, attrs@),
            r is Err && attr_value(attrs@, "xml:id"@) is Some && attr_value(attrs@, "uri"@) is Some && is_valid_uri(attr_value(attrs@, "uri"@)->0) && !(time_field(attrs@, "fetchtimeout"@) is Some)
                ==> is_invalid(r->Err_0, SsmlElement::Lexicon, "fetchtimeout"@, Grammar::TimeDesignation, attrs@),
            r is Err && attr_value(attrs@, "xml:id"@) is Some && attr_value(attrs@, "uri"@) is Some && is_valid_uri(attr_value(attrs@, "uri"@)->0) && time_field(attrs@, "fetchtimeout"@) is Some && !((attr_value(attrs@, "type"@) is Some ==> is_valid_media_type(attr_value(attrs@, "type"@)->0)))
                ==> is_invalid(r->Err_0, SsmlElement::Lexicon, "type"@, Grammar::MediaType, attrs@),
{
    let kind = SsmlElement::Lexicon;
    let xml_id = req_text(attrs, &kind, "xml:id")?;
    let uri = req_text(attrs, &kind, "uri")?;
    if !uri_is_valid(uri.as_str()) {
        return Err(bad_value(&kind, "uri", invalid(Grammar::Uri, uri.as_str())));
    }
    let fetch_timeout = opt_time(attrs, &kind, "fetchtimeout")?;
    let ty = opt_text(attrs, "type");
    match &ty {
        Some(t) => {
            if !media_type_is_valid(t.as_str()) {
                return Err(bad_value(&kind, "type", invalid(Grammar::MediaType, t.as_str())));
            }
        },
        None => {},
    }
    Ok(LexiconAttributes { uri, xml_id, ty, fetch_timeout })
}

pub fn parse_meta(attrs: &Vec<Attribute>) -> (r: Result<MetaAttributes, SsmlError>)
    ensures
        match r {
            Ok(a) => reads_meta(attrs@, a),
            Err(e) => attr_error(e) && (attr_value(attrs@, "content"@) is None
                || (attr_value(attrs@, "name"@) is Some) == (attr_value(attrs@, "http-equiv"@) is Some)),
        },
            r is Err && !(attr_value(attrs@, "content"@) is Some)
                ==> is_missing(r->Err_0, SsmlElement::Meta, "content"@),
            r is Err && attr_value(attrs@, "content"@) is Some && !((attr_value(attrs@, "name"@) is Some) != (attr_value(attrs@, "http-equiv"@) is Some))
                ==> r->Err_0 == SsmlError::AmbiguousMetaAttributes,
{
    let kind = SsmlElement::Meta;
    let content = req_text(attrs, &kind, "content")?;
    let name = opt_text(attrs, "name");
    let http_equiv = opt_text(attrs, "http-equiv");
    if name.is_some() == http_equiv.is_some() {
        return Err(SsmlError::AmbiguousMetaAttributes);
    }
    Ok(MetaAttributes { name, http_equiv, content })
}

pub fn parse_say_as(attrs: &Vec<Attribute>) -> (r: Result<SayAsAttributes, SsmlError>)
    ensures
        match r {
            Ok(a) => reads_say_as(attrs@, a),
            Err(e) => attr_error(e) && (attr_value(attrs@, "interpret-as"@) is None && e is MissingRequiredAttribute),
        },
{
    let kind = SsmlElement::SayAs;
    let interpret_as = req_text(attrs, &kind, "interpret-as")?;
    Ok(SayAsAttributes { interpret_as, format: opt_text(attrs, "format"), detail: opt_text(attrs, "detail") })
}

pub fn parse_phoneme(attrs: &Vec<Attribute>) -> (r: Result<PhonemeAttributes, SsmlError>)
    ensures
        match r {
            Ok(a) => reads_phoneme(attrs@, a),
            Err(e) => attr_error(e) && (attr_value(attrs@, "ph"@) is None && e is MissingRequiredAttribute),
        },
{
    let kind = SsmlElement::Phoneme;
    let ph = req_text(attrs, &kind, "ph")?;
    let alphabet = match get_attr(attrs, "alphabet") {
        Some(v) => Some(PhonemeAlphabet::from_str(v.as_str())),
        None => None,
    };
    Ok(PhonemeAttributes { ph, alphabet })
}

pub fn parse_lang(attrs: &Vec<Attribute>) -> (r: Result<LangAttributes, SsmlError>)
    ensures
        match r {
            Ok(a) => reads_lang(attrs@, a),
            Err(e) => attr_error(e) && (attr_value(attrs@, "xml:lang"@) is None || olf_field(attrs@, "onlangfailure"@) is None),
        },
            r is Err && !(attr_value(attrs@, "xml:lang"@) is Some)
                ==> is_missing(r->Err_0, SsmlElement::Lang, "xml:lang"@),
            r is Err && attr_value(attrs@, "xml:lang"@) is Some && !(olf_field(attrs@, "onlangfailure"@) is Some)
                ==> is_invalid(r->Err_0, SsmlElement::Lang, "onlangfailure"@, Grammar::OnLanguageFailure, attrs@),
{
    let kind = SsmlElement::Lang;
    let lang = req_text(attrs, &kind, "xml:lang")?;
    let on_lang_failure = opt_olf(attrs, &kind, "onlangfailure")?;
    Ok(LangAttributes { lang, on_lang_failure })
}

/// The `gender` of a voice: blank counts as absent.
pub open spec fn gender_field(attrs: Seq<Attribute>) -> Option<Option<Gender>> {
    match attr_value(attrs, "gender"@) {
        None => Some(None),
        Some(v) => if v.len() == 0 {
            Some(None)
        } else {
            match spec_parse_gender(v) {
                Some(g) => Some(Some(g)),
                None => None,
            }
        },
    }
}

/// Whitespace-separated tokens of the attribute `name`; none when absent.
pub open spec fn tokens_field(attrs: Seq<Attribute>, name: Seq<char>) -> Seq<Seq<char>> {
    match attr_value(attrs, name) {
        None => Seq::empty(),
        Some(v) => ws_tokens(v),
    }
}

/// Every token is a language-accent pair.
pub open spec fn languages_ok(ts: Seq<Seq<char>>) -> bool {
    forall|i: int| 0 <= i < ts.len() ==> (#[trigger] spec_parse_language_accent(ts[i])) is Some
}

pub fn parse_voice(attrs: &Vec<Attribute>) -> (r: Result<VoiceAttributes, SsmlError>)
    ensures
        match r {
            Ok(a) => reads_voice(attrs@, a),
            Err(e) => attr_error(e) && (gender_field(attrs@) is None
                || uint_field(attrs@, "age"@, 255, true, false) is None
                || uint_field(attrs@, "variant"@, usize::MAX as u64, true, true) is None
                || !languages_ok(tokens_field(attrs@, "languages"@))),
        },
            r is Err && !(gender_field(attrs@) is Some)
                ==> is_invalid(r->Err_0, SsmlElement::Voice, "gender"@, Grammar::Gender, attrs@),
            r is Err && gender_field(attrs@) is Some && !(uint_field(attrs@, "age"@, 255, true, false) is Some)
                ==> is_invalid(r->Err_0, SsmlElement::Voice, "age"@, Grammar::Integer, attrs@),
            r is Err && gender_field(attrs@) is Some && uint_field(attrs@, "age"@, 255, true, false) is Some && !(uint_field(attrs@, "variant"@, usize::MAX as u64, true, true) is Some)
                ==> is_invalid(r->Err_0, SsmlElement::Voice, "variant"@, Grammar::Integer, attrs@),
            r is Err && gender_field(attrs@) is Some && uint_field(attrs@, "age"@, 255, true, false) is Some && uint_field(attrs@, "variant"@, usize::MAX as u64, true, true) is Some && !(languages_ok(tokens_field(attrs@, "languages"@)))
                ==> match r->Err_0 { SsmlError::InvalidAttributeValue(k, n, v) => k == SsmlElement::Voice && n@ == "languages"@ && v.expected == Grammar::LanguageAccentPair && spec_parse_language_accent(v.actual@) is None, _ => false },
{
    let kind = SsmlElement::Voice;
    let gender = match get_attr(attrs, "gender") {
        Some(v) => {
            if v.as_str().unicode_len() == 0 {
                None
            } else {
                match Gender::from_str(v.as_str()) {
                    Ok(g) => Some(g),
                    Err(e) => return Err(bad_value(&kind, "gender", e)),
                }
            }
        },
        None => None,
    };
    let age = match opt_uint(attrs, &kind, "age", 255, true, false)? {
        Some(n) => Some(n as u8),
        None => None,
    };
    let variant = match opt_uint(attrs, &kind, "variant", usize::MAX as u64, true, true)? {
        Some(n) => Some(n as usize),
        None => None,
    };
    let mut name: Vec<String> = Vec::new();
    match get_attr(attrs, "name") {
        Some(v) => {
            let ts = split_whitespace(&chars_of(v.as_str()));
            let mut i: usize = 0;
            while i < ts.len()
                invariant
                    kind == SsmlElement::Voice,
                    gender_field(attrs@) is Some,
                    uint_field(attrs@, "age"@, 255, true, false) is Some,
                    uint_field(attrs@, "variant"@, usize::MAX as u64, true, true) is Some,
                    i <= ts.len(),
                    name@.len() == i,
                    forall|j: int| 0 <= j < i ==> (#[trigger] name@[j])@ == ts@[j]@,
                decreases ts.len() - i,
            {
                name.push(string_of(&ts[i]));
                i += 1;
            }
            assert(name@.map_values(|n: String| n@) =~= views(ts@));
        },
        None => {
            assert(name@.map_values(|n: String| n@) =~= Seq::<Seq<char>>::empty());
        },
    }
    let mut languages: Vec<LanguageAccentPair> = Vec::new();
    match get_attr(attrs, "languages") {
        Some(v) => {
            let ts = split_whitespace(&chars_of(v.as_str()));
            let ghost tv = views(ts@);
            let mut i: usize = 0;
            while i < ts.len()
                invariant
                    kind == SsmlElement::Voice,
                    gender_field(attrs@) is Some,
                    uint_field(attrs@, "age"@, 255, true, false) is Some,
                    uint_field(attrs@, "variant"@, usize::MAX as u64, true, true) is Some,
                    i <= ts.len(),
                    tv == views(ts@),
                    tv == tokens_field(attrs@, "languages"@),
                    languages@.len() == i,
                    forall|j: int| 0 <= j < i ==> spec_parse_language_accent(tv[j]) == Some(#[trigger] languages@[j].view()),
                    forall|j: int| 0 <= j < i ==> (#[trigger] spec_parse_language_accent(tv[j])) is Some,
                decreases ts.len() - i,
            {
                assert(tv[i as int] == ts@[i as int]@);
                let t = string_of(&ts[i]);
                match LanguageAccentPair::from_str(t.as_str()) {
                    Ok(l) => languages.push(l),
                    Err(e) => return Err(bad_value(&kind, "languages", e)),
                }
                i += 1;
            }
        },
        None => {},
    }
    Ok(VoiceAttributes { gender, age, variant, name, languages })
}

pub fn parse_break(attrs: &Vec<Attribute>) -> (r: Result<BreakAttributes, SsmlError>)
    ensures
        match r {
            Ok(a) => reads_break(attrs@, a),
            Err(e) => attr_error(e) && (strength_field(attrs@, "strength"@) is None || time_field(attrs@, "time"@) is None),
        },
            r is Err && !(strength_field(attrs@, "strength"@) is Some)
                ==> is_invalid(r->Err_0, SsmlElement::Break, "strength"@, Grammar::Strength, attrs@),
            r is Err && strength_field(attrs@, "strength"@) is Some && !(time_field(attrs@, "time"@) is Some)
                ==> is_invalid(r->Err_0, SsmlElement::Break, "time"@, Grammar::TimeDesignation, attrs@),
{
    let kind = SsmlElement::Break;
    let strength = opt_strength(attrs, &kind, "strength")?;
    let time = opt_time(attrs, &kind, "time")?;
    Ok(BreakAttributes { strength, time })
}

/// The `contour` attribute: `Some(None)` when absent, `None` when it does not parse.
pub open spec fn contour_field(attrs: Seq<Attribute>) -> Option<Option<Seq<crate::values::ContourElement>>> {
    match attr_value(attrs, "contour"@) {
        None => Some(None),
        Some(v) => match spec_parse_contour(v) {
            Some(c) => Some(Some(c)),
            None => None,
        },
    }
}

pub fn parse_prosody(attrs: &Vec<Attribute>) -> (r: Result<ProsodyAttributes, SsmlError>)
    ensures
        match r {
            Ok(a) => reads_prosody(attrs@, a),
            Err(e) => attr_error(e) && (pitch_field(attrs@, "pitch"@) is None || contour_field(attrs@) is None
                || pitch_field(attrs@, "range"@) is None || rate_field(attrs@, "rate"@) is None
                || time_field(attrs@, "duration"@) is None || volume_field(attrs@, "volume"@) is None),
        },
            r is Err && !(pitch_field(attrs@, "pitch"@) is Some)
                ==> is_invalid(r->Err_0, SsmlElement::Prosody, "pitch"@, Grammar::PitchRange, attrs@),
            r is Err && pitch_field(attrs@, "pitch"@) is Some && !(contour_field(attrs@) is Some)
                ==> is_invalid(r->Err_0, SsmlElement::Prosody, "contour"@, Grammar::PitchContour, attrs@),
            r is Err && pitch_field(attrs@, "pitch"@) is Some && contour_field(attrs@) is Some && !(pitch_field(attrs@, "range"@) is Some)
                ==> is_invalid(r->Err_0, SsmlElement::Prosody, "range"@, Grammar::PitchRange, attrs@),
            r is Err && pitch_field(attrs@, "pitch"@) is Some && contour_field(attrs@) is Some && pitch_field(attrs@, "range"@) is Some && !(rate_field(attrs@, "rate"@) is Some)
                ==> is_invalid(r->Err_0, SsmlElement::Prosody, "rate"@, Grammar::RateRange, attrs@),
            r is Err && pitch_field(attrs@, "pitch"@) is Some && contour_field(attrs@) is Some && pitch_field(attrs@, "range"@) is Some && rate_field(attrs@, "rate"@) is Some && !(time_field(attrs@, "duration"@) is Some)
                ==> is_invalid(r->Err_0, SsmlElement::Prosody, "duration"@, Grammar::TimeDesignation, attrs@),
            r is Err && pitch_field(attrs@, "pitch"@) is Some && contour_field(attrs@) is Some && pitch_field(attrs@, "range"@) is Some && rate_field(attrs@, "rate"@) is Some && time_field(attrs@, "duration"@) is Some && !(volume_field(attrs@, "volume"@) is Some)
                ==> is_invalid(r->Err_0, SsmlElement::Prosody, "volume"@, Grammar::VolumeRange, attrs@),
{
    let kind = SsmlElement::Prosody;
    let pitch = opt_pitch(attrs, &kind, "pitch")?;
    let contour = match get_attr(attrs, "contour") {
        Some(v) => match PitchContour::from_str(v.as_str()) {
            Ok(c) => Some(c),
            Err(e) => return Err(bad_value(&kind, "contour", e)),
        },
        None => None,
    };
    let range = opt_pitch(attrs, &kind, "range")?;
    let rate = opt_rate(attrs, &kind, "rate")?;
    let duration = opt_time(attrs, &kind, "duration")?;
    let volume = opt_volume(attrs, &kind, "volume")?;
    Ok(ProsodyAttributes { pitch, contour, range, rate, duration, volume })
}

/// The `speed` of audio: the percentage written, divided by 100.
pub open spec fn speed_field(attrs: Seq<Attribute>) -> Option<Decimal> {
    match percentage_field(attrs, "speed"@) {
        None => None,
        Some(None) => Some(Decimal { mantissa: 100, scale: 2 }),
        Some(Some(d)) => if d.scale <= u32::MAX - 2 {
            Some(Decimal { mantissa: d.mantissa, scale: (d.scale + 2) as u32 })
        } else {
            None
        },
    }
}

pub fn parse_audio(attrs: &Vec<Attribute>) -> (r: Result<AudioAttributes, SsmlError>)
    ensures
        match r {
            Ok(a) => reads_audio(attrs@, a),
            Err(e) => attr_error(e) && ((attr_value(attrs@, "src"@) is Some && !is_valid_uri(attr_value(attrs@, "src"@)->0))
                || time_field(attrs@, "fetchtimeout"@) is None || fetch_hint_field(attrs@, "fetchhint"@) is None
                || uint_field(attrs@, "maxage"@, usize::MAX as u64, false, false) is None
                || uint_field(attrs@, "maxstale"@, usize::MAX as u64, false, false) is None
                || time_field(attrs@, "clipBegin"@) is None || time_field(attrs@, "clipEnd"@) is None
                || uint_field(attrs@, "repeatCount"@, usize::MAX as u64, false, true) is None
                || time_field(attrs@, "repeatDur"@) is None || decibel_field(attrs@, "soundLevel"@) is None
                || speed_field(attrs@) is None),
        },
            r is Err && !(!(attr_value(attrs@, "src"@) is Some && !is_valid_uri(attr_value(attrs@, "src"@)->0)))
                ==> is_invalid(r->Err_0, SsmlElement::Audio, "src"@, Grammar::Uri, attrs@),
            r is Err && !(attr_value(attrs@, "src"@) is Some && !is_valid_uri(attr_value(attrs@, "src"@)->0)) && !(time_field(attrs@, "fetchtimeout"@) is Some)
                ==> is_invalid(r->Err_0, SsmlElement::Audio, "fetchtimeout"@, Grammar::TimeDesignation, attrs@),
            r is Err && !(attr_value(attrs@, "src"@) is Some && !is_valid_uri(attr_value(attrs@, "src"@)->0)) && time_field(attrs@, "fetchtimeout"@) is Some && !(fetch_hint_field(attrs@, "fetchhint"@) is Some)
                ==> is_invalid(r->Err_0, SsmlElement::Audio, "fetchhint"@, Grammar::FetchHint, attrs@),
            r is Err && !(attr_value(attrs@, "src"@) is Some && !is_valid_uri(attr_value(attrs@, "src"@)->0)) && time_field(attrs@, "fetchtimeout"@) is Some && fetch_hint_field(attrs@, "fetchhint"@) is Some && !(uint_field(attrs@, "maxage"@, usize::MAX as u64, false, false) is Some)
                ==> is_invalid(r->Err_0, SsmlElement::Audio, "maxage"@, Grammar::Integer, attrs@),
            r is Err && !(attr_value(attrs@, "src"@) is Some && !is_valid_uri(attr_value(attrs@, "src"@)->0)) && time_field(attrs@, "fetchtimeout"@) is Some && fetch_hint_field(attrs@, "fetchhint"@) is Some && uint_field(attrs@, "maxage"@, usize::MAX as u64, false, false) is Some && !(uint_field(attrs@, "maxstale"@, usize::MAX as u64, false, false) is Some)
                ==> is_invalid(r->Err_0, SsmlElement::Audio, "maxstale"@, Grammar::Integer, attrs@),
            r is Err && !(attr_value(attrs@, "src"@) is Some && !is_valid_uri(attr_value(attrs@, "src"@)->0)) && time_field(attrs@, "fetchtimeout"@) is Some && fetch_hint_field(attrs@, "fetchhint"@) is Some && uint_field(attrs@, "maxage"@, usize::MAX as u64, false, false) is Some && uint_field(attrs@, "maxstale"@, usize::MAX as u64, false, false) is Some && !(time_field(attrs@, "clipBegin"@) is Some)
                ==> is_invalid(r->Err_0, SsmlElement::Audio, "clipBegin"@, Grammar::TimeDesignation, attrs@),
            r is Err && !(attr_value(attrs@, "src"@) is Some && !is_valid_uri(attr_value(attrs@, "src"@)->0)) && time_field(attrs@, "fetchtimeout"@) is Some && fetch_hint_field(attrs@, "fetchhint"@) is Some && uint_field(attrs@, "maxage"@, usize::MAX as u64, false, false) is Some && uint_field(attrs@, "maxstale"@, usize::MAX as u64, false, false) is Some && time_field(attrs@, "clipBegin"@) is Some && !(time_field(attrs@, "clipEnd"@) is Some)
                ==> is_invalid(r->Err_0, SsmlElement::Audio, "clipEnd"@, Grammar::TimeDesignation, attrs@),
            r is Err && !(attr_value(attrs@, "src"@) is Some && !is_valid_uri(attr_value(attrs@, "src"@)->0)) && time_field(attrs@, "fetchtimeout"@) is Some && fetch_hint_field(attrs@, "fetchhint"@) is Some && uint_field(attrs@, "maxage"@, usize::MAX as u64, false, false) is Some && uint_field(attrs@, "maxstale"@, usize::MAX as u64, false, false) is Some && time_field(attrs@, "clipBegin"@) is Some && time_field(attrs@, "clipEnd"@) is Some && !(uint_field(attrs@, "repeatCount"@, usize::MAX as u64, false, true) is Some)
                ==> is_invalid(r->Err_0, SsmlElement::Audio, "repeatCount"@, Grammar::Integer, attrs@),
            r is Err && !(attr_value(attrs@, "src"@) is Some && !is_valid_uri(attr_value(attrs@, "src"@)->0)) && time_field(attrs@, "fetchtimeout"@) is Some && fetch_hint_field(attrs@, "fetchhint"@) is Some && uint_field(attrs@, "maxage"@, usize::MAX as u64, false, false) is Some && uint_field(attrs@, "maxstale"@, usize::MAX as u64, false, false) is Some && time_field(attrs@, "clipBegin"@) is Some && time_field(attrs@, "clipEnd"@) is Some && uint_field(attrs@, "repeatCount"@, usize::MAX as u64, false, true) is Some && !(time_field(attrs@, "repeatDur"@) is Some)
                ==> is_invalid(r->Err_0, SsmlElement::Audio, "repeatDur"@, Grammar::TimeDesignation, attrs@),
            r is Err && !(attr_value(attrs@, "src"@) is Some && !is_valid_uri(attr_value(attrs@, "src"@)->0)) && time_field(attrs@, "fetchtimeout"@) is Some && fetch_hint_field(attrs@, "fetchhint"@) is Some && uint_field(attrs@, "maxage"@, usize::MAX as u64, false, false) is Some && uint_field(attrs@, "maxstale"@, usize::MAX as u64, false, false) is Some && time_field(attrs@, "clipBegin"@) is Some && time_field(attrs@, "clipEnd"@) is Some && uint_field(attrs@, "repeatCount"@, usize::MAX as u64, false, true) is Some && time_field(attrs@, "repeatDur"@) is Some && !(decibel_field(attrs@, "soundLevel"@) is Some)
                ==> is_invalid(r->Err_0, SsmlElement::Audio, "soundLevel"@, Grammar::Decibel, attrs@),
            r is Err && !(attr_value(attrs@, "src"@) is Some && !is_valid_uri(attr_value(attrs@, "src"@)->0)) && time_field(attrs@, "fetchtimeout"@) is Some && fetch_hint_field(attrs@, "fetchhint"@) is Some && uint_field(attrs@, "maxage"@, usize::MAX as u64, false, false) is Some && uint_field(attrs@, "maxstale"@, usize::MAX as u64, false, false) is Some && time_field(attrs@, "clipBegin"@) is Some && time_field(attrs@, "clipEnd"@) is Some && uint_field(attrs@, "repeatCount"@, usize::MAX as u64, false, true) is Some && time_field(attrs@, "repeatDur"@) is Some && decibel_field(attrs@, "soundLevel"@) is Some && !(speed_field(attrs@) is Some)
                ==> is_invalid(r->Err_0, SsmlElement::Audio, "speed"@, Grammar::Percentage, attrs@),
{
    let kind = SsmlElement::Audio;
    let src = opt_text(attrs, "src");
    match &src {
        Some(s) => {
            if !uri_is_valid(s.as_str()) {
                return Err(bad_value(&kind, "src", invalid(Grammar::Uri, s.as_str())));
            }
        },
        None => {},
    }
    let fetch_timeout = opt_time(attrs, &kind, "fetchtimeout")?;
    let fetch_hint = match opt_fetch_hint(attrs, &kind, "fetchhint")? {
        Some(h) => h,
        None => FetchHint::Prefetch,
    };
    let max_age = match opt_uint(attrs, &kind, "maxage", usize::MAX as u64, false, false)? {
        Some(n) => Some(n as usize),
        None => None,
    };
    let max_stale = match opt_uint(attrs, &kind, "maxstale", usize::MAX as u64, false, false)? {
        Some(n) => Some(n as usize),
        None => None,
    };
    let clip_begin = match opt_time(attrs, &kind, "clipBegin")? {
        Some(t) => t,
        None => TimeDesignation::Seconds(Decimal { mantissa: 0, scale: 0 }),
    };
    let clip_end = opt_time(attrs, &kind, "clipEnd")?;
    let repeat_count = match opt_uint(attrs, &kind, "repeatCount", usize::MAX as u64, false, true)? {
        Some(n) => n as usize,
        None => 1,
    };
    let repeat_dur = opt_time(attrs, &kind, "repeatDur")?;
    let sound_level = match opt_decibel(attrs, &kind, "soundLevel")? {
        Some(d) => d,
        None => Decibels { sign: Sign::Plus, magnitude: Decimal { mantissa: 0, scale: 0 } },
    };
    let speed = match opt_percentage(attrs, &kind, "speed")? {
        Some(d) => {
            if d.scale > u32::MAX - 2 {
                let v = get_attr(attrs, "speed");
                return Err(bad_value(&kind, "speed", invalid(Grammar::Percentage, v.unwrap().as_str())));
            }
            Decimal { mantissa: d.mantissa, scale: d.scale + 2 }
        },
        None => Decimal { mantissa: 100, scale: 2 },
    };
    Ok(AudioAttributes {
        src,
        fetch_timeout,
        fetch_hint,
        max_age,
        max_stale,
        clip_begin,
        clip_end,
        repeat_count,
        repeat_dur,
        sound_level,
        speed,
    })
}

/// `a` is what the attributes `attrs` give.
pub open spec fn reads_speak(attrs: Seq<Attribute>, a: SpeakAttributes) -> bool {
    speak_version(attrs) == Some(a.version@)
    && view_opt(a.lang) == attr_value(attrs, "xml:lang"@)
    && view_opt(a.base) == attr_value(attrs, "xml:base"@)
    && olf_field(attrs, "onlangfailure"@) == Some(a.on_lang_failure)
    && a.xml_root_attrs@ == attrs.filter(|x: Attribute| !is_speak_attr(x.name@))
}

/// `a` is what the attributes `attrs` give.
pub open spec fn reads_lexicon(attrs: Seq<Attribute>, a: LexiconAttributes) -> bool {
    attr_value(attrs, "uri"@) == Some(a.uri@) && is_valid_uri(a.uri@)
    && attr_value(attrs, "xml:id"@) == Some(a.xml_id@)
    && view_opt(a.ty) == attr_value(attrs, "type"@)
    && (a.ty is Some ==> is_valid_media_type(a.ty->0@))
    && time_field(attrs, "fetchtimeout"@) == Some(a.fetch_timeout)
}

/// `a` is what the attributes `attrs` give.
pub open spec fn reads_meta(attrs: Seq<Attribute>, a: MetaAttributes) -> bool {
    attr_value(attrs, "content"@) == Some(a.content@)
    && view_opt(a.name) == attr_value(attrs, "name"@)
    && view_opt(a.http_equiv) == attr_value(attrs, "http-equiv"@)
    && (a.name is Some) != (a.http_equiv is Some)
}

/// `a` is what the attributes `attrs` give.
pub open spec fn reads_say_as(attrs: Seq<Attribute>, a: SayAsAttributes) -> bool {
    attr_value(attrs, "interpret-as"@) == Some(a.interpret_as@)
    && view_opt(a.format) == attr_value(attrs, "format"@)
    && view_opt(a.detail) == attr_value(attrs, "detail"@)
}

/// `a` is what the attributes `attrs` give.
pub open spec fn reads_phoneme(attrs: Seq<Attribute>, a: PhonemeAttributes) -> bool {
    attr_value(attrs, "ph"@) == Some(a.ph@)
    && match attr_value(attrs, "alphabet"@) {
    Some(v) => a.alphabet is Some && a.alphabet->0.view() == v && ((a.alphabet->0 is Ipa) == (v == "ipa"@)),
    None => a.alphabet is None,
    }
}

/// `a` is what the attributes `attrs` give.
pub open spec fn reads_lang(attrs: Seq<Attribute>, a: LangAttributes) -> bool {
    attr_value(attrs, "xml:lang"@) == Some(a.lang@)
    && olf_field(attrs, "onlangfailure"@) == Some(a.on_lang_failure)
}

/// `a` is what the attributes `attrs` give.
pub open spec fn reads_voice(attrs: Seq<Attribute>, a: VoiceAttributes) -> bool {
    gender_field(attrs) == Some(a.gender)
    && uint_field(attrs, "age"@, 255, true, false) == Some(match a.age { Some(n) => Some(n as u64), None => None })
    && uint_field(attrs, "variant"@, usize::MAX as u64, true, true) == Some(match a.variant { Some(n) => Some(n as u64), None => None })
    && a.name@.map_values(|n: String| n@) == tokens_field(attrs, "name"@)
    && languages_ok(tokens_field(attrs, "languages"@))
    && a.languages@.len() == tokens_field(attrs, "languages"@).len()
    && (forall|i: int| 0 <= i < a.languages@.len() ==> spec_parse_language_accent(tokens_field(attrs, "languages"@)[i]) == Some(#[trigger] a.languages@[i].view()))
}

/// `a` is what the attributes `attrs` give.
pub open spec fn reads_break(attrs: Seq<Attribute>, a: BreakAttributes) -> bool {
    strength_field(attrs, "strength"@) == Some(a.strength)
    && time_field(attrs, "time"@) == Some(a.time)
}

/// `a` is what the attributes `attrs` give.
pub open spec fn reads_prosody(attrs: Seq<Attribute>, a: ProsodyAttributes) -> bool {
    pitch_field(attrs, "pitch"@) == Some(a.pitch)
    && contour_field(attrs) == Some(match a.contour { Some(c) => Some(c.view_elements()), None => None })
    && pitch_field(attrs, "range"@) == Some(a.range)
    && rate_field(attrs, "rate"@) == Some(a.rate)
    && time_field(attrs, "duration"@) == Some(a.duration)
    && volume_field(attrs, "volume"@) == Some(a.volume)
}

/// `a` is what the attributes `attrs` give.
pub open spec fn reads_audio(attrs: Seq<Attribute>, a: AudioAttributes) -> bool {
    view_opt(a.src) == attr_value(attrs, "src"@)
    && (a.src is Some ==> is_valid_uri(a.src->0@))
    && time_field(attrs, "fetchtimeout"@) == Some(a.fetch_timeout)
    && fetch_hint_field(attrs, "fetchhint"@) is Some
    && a.fetch_hint == match fetch_hint_field(attrs, "fetchhint"@)->0 { Some(h) => h, None => FetchHint::Prefetch }
    && uint_field(attrs, "maxage"@, usize::MAX as u64, false, false) == Some(match a.max_age { Some(n) => Some(n as u64), None => None })
    && uint_field(attrs, "maxstale"@, usize::MAX as u64, false, false) == Some(match a.max_stale { Some(n) => Some(n as u64), None => None })
    && time_field(attrs, "clipBegin"@) is Some
    && a.clip_begin == match time_field(attrs, "clipBegin"@)->0 { Some(t) => t, None => TimeDesignation::Seconds(Decimal { mantissa: 0, scale: 0 }) }
    && time_field(attrs, "clipEnd"@) == Some(a.clip_end)
    && uint_field(attrs, "repeatCount"@, usize::MAX as u64, false, true) is Some
    && a.repeat_count as u64 == match uint_field(attrs, "repeatCount"@, usize::MAX as u64, false, true)->0 { Some(n) => n, None => 1 }
    && time_field(attrs, "repeatDur"@) == Some(a.repeat_dur)
    && decibel_field(attrs, "soundLevel"@) is Some
    && a.sound_level == match decibel_field(attrs, "soundLevel"@)->0 { Some(d) => d, None => Decibels { sign: Sign::Plus, magnitude: Decimal { mantissa: 0, scale: 0 } } }
    && speed_field(attrs) == Some(a.speed)
}

/// The attribute record of `e` is what the attributes `attrs` give.
pub open spec fn reads_element(attrs: Seq<Attribute>, e: ParsedElement) -> bool {
    match e {
        ParsedElement::Speak(a) => reads_speak(attrs, a),
        ParsedElement::Lexicon(a) => reads_lexicon(attrs, a),
        ParsedElement::Lookup(a) => attr_value(attrs, "ref"@) == Some(a.lookup_ref@),
        ParsedElement::Meta(a) => reads_meta(attrs, a),
        ParsedElement::Token(a) => view_opt(a.role) == attr_value(attrs, "role"@),
        ParsedElement::Word(a) => view_opt(a.role) == attr_value(attrs, "role"@),
        ParsedElement::SayAs(a) => reads_say_as(attrs, a),
        ParsedElement::Phoneme(a) => reads_phoneme(attrs, a),
        ParsedElement::Sub(a) => attr_value(attrs, "alias"@) == Some(a.alias@),
        ParsedElement::Lang(a) => reads_lang(attrs, a),
        ParsedElement::Voice(a) => reads_voice(attrs, a),
        ParsedElement::Emphasis(a) => emphasis_field(attrs, "level"@) == Some(a.level),
        ParsedElement::Break(a) => reads_break(attrs, a),
        ParsedElement::Prosody(a) => reads_prosody(attrs, a),
        ParsedElement::Audio(a) => reads_audio(attrs, a),
        ParsedElement::Mark(a) => attr_value(attrs, "name"@) == Some(a.name@),
        ParsedElement::Description(t) => t@.len() == 0,
        ParsedElement::Custom(c) => c.attributes@ == attrs,
        _ => true,
    }
}

/// Whether the attributes of a tag that names the standard kind `k` (or a custom element, for
/// `None`) can be read.
pub open spec fn element_ok(k: Option<SsmlElement>, attrs: Seq<Attribute>) -> bool {
    match k {
        None => true,
        Some(SsmlElement::Speak) => speak_version(attrs) is Some && olf_field(attrs, "onlangfailure"@) is Some,
        Some(SsmlElement::Lexicon) => attr_value(attrs, "uri"@) is Some && is_valid_uri(attr_value(attrs, "uri"@)->0)
            && attr_value(attrs, "xml:id"@) is Some
            && (attr_value(attrs, "type"@) is Some ==> is_valid_media_type(attr_value(attrs, "type"@)->0))
            && time_field(attrs, "fetchtimeout"@) is Some,
        Some(SsmlElement::Lookup) => attr_value(attrs, "ref"@) is Some,
        Some(SsmlElement::Meta) => attr_value(attrs, "content"@) is Some
            && (attr_value(attrs, "name"@) is Some) != (attr_value(attrs, "http-equiv"@) is Some),
        Some(SsmlElement::SayAs) => attr_value(attrs, "interpret-as"@) is Some,
        Some(SsmlElement::Phoneme) => attr_value(attrs, "ph"@) is Some,
        Some(SsmlElement::Sub) => attr_value(attrs, "alias"@) is Some,
        Some(SsmlElement::Lang) => attr_value(attrs, "xml:lang"@) is Some && olf_field(attrs, "onlangfailure"@) is Some,
        Some(SsmlElement::Voice) => gender_field(attrs) is Some
            && uint_field(attrs, "age"@, 255, true, false) is Some
            && uint_field(attrs, "variant"@, usize::MAX as u64, true, true) is Some
            && languages_ok(tokens_field(attrs, "languages"@)),
        Some(SsmlElement::Emphasis) => emphasis_field(attrs, "level"@) is Some,
        Some(SsmlElement::Break) => strength_field(attrs, "strength"@) is Some && time_field(attrs, "time"@) is Some,
        Some(SsmlElement::Prosody) => pitch_field(attrs, "pitch"@) is Some && contour_field(attrs) is Some
            && pitch_field(attrs, "range"@) is Some && rate_field(attrs, "rate"@) is Some
            && time_field(attrs, "duration"@) is Some && volume_field(attrs, "volume"@) is Some,
        Some(SsmlElement::Audio) => !(attr_value(attrs, "src"@) is Some && !is_valid_uri(attr_value(attrs, "src"@)->0))
            && time_field(attrs, "fetchtimeout"@) is Some && fetch_hint_field(attrs, "fetchhint"@) is Some
            && uint_field(attrs, "maxage"@, usize::MAX as u64, false, false) is Some
            && uint_field(attrs, "maxstale"@, usize::MAX as u64, false, false) is Some
            && time_field(attrs, "clipBegin"@) is Some && time_field(attrs, "clipEnd"@) is Some
            && uint_field(attrs, "repeatCount"@, usize::MAX as u64, false, true) is Some
            && time_field(attrs, "repeatDur"@) is Some && decibel_field(attrs, "soundLevel"@) is Some
            && speed_field(attrs) is Some,
        Some(SsmlElement::Mark) => attr_value(attrs, "name"@) is Some,
        Some(_) => true,
    }
}

/// Reads the element a tag names, with its attributes.
pub fn parse_element(tag: &XmlTag) -> (r: Result<ParsedElement, SsmlError>)
    ensures
        match r {
            Ok(e) => element_name(kind_of(e)) == tag.name@ && match standard_kind(tag.name@) {
                Some(k) => kind_of(e) == k,
                None => kind_of(e) is Custom,
            } && (e is Description ==> desc_text_empty(e))
              && (e is Sub ==> attr_value(tag.attributes@, "alias"@) == Some(e->Sub_0.alias@)),
            Err(e) => attr_error(e),
        },
        r is Ok ==> reads_element(tag.attributes@, r->Ok_0),
        r is Ok <==> element_ok(standard_kind(tag.name@), tag.attributes@),
{
    let kind = SsmlElement::from_str(tag.name.as_str());
    let attrs = &tag.attributes;
    match kind {
        SsmlElement::Speak => Ok(ParsedElement::Speak(parse_speak(attrs)?)),
        SsmlElement::Lexicon => Ok(ParsedElement::Lexicon(parse_lexicon(attrs)?)),
        SsmlElement::Lookup => Ok(ParsedElement::Lookup(LookupAttributes { lookup_ref: req_text(attrs, &kind, "ref")? })),
        SsmlElement::Meta => Ok(ParsedElement::Meta(parse_meta(attrs)?)),
        SsmlElement::Metadata => Ok(ParsedElement::Metadata),
        SsmlElement::Paragraph => Ok(ParsedElement::Paragraph),
        SsmlElement::Sentence => Ok(ParsedElement::Sentence),
        SsmlElement::Token => Ok(ParsedElement::Token(TokenAttributes { role: opt_text(attrs, "role") })),
        SsmlElement::Word => Ok(ParsedElement::Word(TokenAttributes { role: opt_text(attrs, "role") })),
        SsmlElement::SayAs => Ok(ParsedElement::SayAs(parse_say_as(attrs)?)),
        SsmlElement::Phoneme => Ok(ParsedElement::Phoneme(parse_phoneme(attrs)?)),
        SsmlElement::Sub => Ok(ParsedElement::Sub(SubAttributes { alias: req_text(attrs, &kind, "alias")? })),
        SsmlElement::Lang => Ok(ParsedElement::Lang(parse_lang(attrs)?)),
        SsmlElement::Voice => Ok(ParsedElement::Voice(parse_voice(attrs)?)),
        SsmlElement::Emphasis => Ok(ParsedElement::Emphasis(EmphasisAttributes { level: opt_emphasis(attrs, &kind, "level")? })),
        SsmlElement::Break => Ok(ParsedElement::Break(parse_break(attrs)?)),
        SsmlElement::Prosody => Ok(ParsedElement::Prosody(parse_prosody(attrs)?)),
        SsmlElement::Audio => Ok(ParsedElement::Audio(parse_audio(attrs)?)),
        SsmlElement::Mark => Ok(ParsedElement::Mark(MarkAttributes { name: req_text(attrs, &kind, "name")? })),
        SsmlElement::Description => Ok(ParsedElement::Description(String::new())),
        SsmlElement::Custom(name) => Ok(ParsedElement::Custom(CustomElement { name, attributes: dup_attrs(attrs) })),
    }
}

pub open spec fn desc_text_empty(e: ParsedElement) -> bool {
    match e {
        ParsedElement::Description(t) => t@.len() == 0,
        _ => true,
    }
}

fn dup_attrs(v: &Vec<Attribute>) -> (r: Vec<Attribute>)
    ensures
        r@ == v@,
{
    let mut r: Vec<Attribute> = Vec::new();
    let mut i: usize = 0;
    while i < v.len()
        invariant
            i <= v.len(),
            r@ == v@.take(i as int),
        decreases v.len() - i,
    {
        r.push(Attribute { name: v[i].name.clone(), value: v[i].value.clone() });
        i += 1;
        assert(r@ =~= v@.take(i as int));
    }
    assert(v@.take(i as int) =~= v@);
    r
}

} // verus!
