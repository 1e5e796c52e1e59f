//! The SSML element model: tag kinds, parsed elements with their attribute records, and the
//! containment rules between tag kinds.
use vstd::prelude::*;
use crate::labels::{
    emphasis_level_chars, fetch_hint_chars, gender_chars, on_language_failure_chars,
    strength_chars,
};
use crate::numbers::{decimal_chars, format_decimal, format_unsigned, nat_digits};
use crate::text::{append_chars, append_str, chars_eq, chars_of, string_of};
use crate::values::{
    contour_chars, decibel_chars, format_decibel, format_pitch_range, format_time,
    language_accent_chars, opt_view, pitch_range_chars, rate_range_chars, time_chars,
    volume_range_chars,
};
use crate::xml::{escape, escaped};

pub use crate::labels::{
    EmphasisLevel, FetchHint, Gender, OnLanguageFailure, PitchStrength, RateStrength, Strength,
    VolumeStrength,
};
pub use crate::numbers::Decimal;
pub use crate::values::{
    ContourElement, Decibels, Grammar, InvalidValue, LanguageAccentPair, PhonemeAlphabet,
    PitchContour, PitchRange, PositiveNumber, RateRange, Sign, TimeDesignation, Unit, VolumeRange,
};

verus! {

/// Type of an SSML element, independent of its attributes.
#[derive(Debug, Clone, Hash)]
pub enum SsmlElement {
    /// The `<speak></speak>` element.
    Speak,
    /// The `<lexicon/>` element.
    Lexicon,
    /// The `<lookup></lookup>` element.
    Lookup,
    /// The `<meta/>` element.
    Meta,
    /// The `<metadata></metadata>` element.
    Metadata,
    /// The `<p></p>` element.
    Paragraph,
    /// The `<s></s>` element.
    Sentence,
    /// The `<token></token>` element.
    Token,
    /// The `<w></w>` element.
    Word,
    /// The `<say-as></say-as>` element.
    SayAs,
    /// The `<phoneme></phoneme>` element.
    Phoneme,
    /// The `<sub></sub>` element.
    Sub,
    /// The `<lang></lang>` element.
    Lang,
    /// The `<voice></voice>` element.
    Voice,
    /// The `<emphasis></emphasis>` element.
    Emphasis,
    /// The `<break/>` element.
    Break,
    /// The `<prosody></prosody>` element.
    Prosody,
    /// The `<audio></audio>` element.
    Audio,
    /// The `<mark/>` element.
    Mark,
    /// The `<desc></desc>` element.
    Description,
    /// Elements outside the SSML vocabulary, carrying the raw element name.
    Custom(String),
}

impl PartialEq for SsmlElement {
    fn eq(&self, other: &SsmlElement) -> (r: bool) {
        match (self, other) {
            (SsmlElement::Custom(a), SsmlElement::Custom(b)) => *a == *b,
            (SsmlElement::Custom(_), _) => false,
            (_, SsmlElement::Custom(_)) => false,
            _ => self.ordinal() == other.ordinal(),
        }
    }
}

impl vstd::std_specs::cmp::PartialEqSpecImpl for SsmlElement {
    open spec fn obeys_eq_spec() -> bool {
        true
    }

    open spec fn eq_spec(&self, other: &SsmlElement) -> bool {
        match (self, other) {
            (SsmlElement::Custom(a), SsmlElement::Custom(b)) => a@ == b@,
            (SsmlElement::Custom(_), _) => false,
            (_, SsmlElement::Custom(_)) => false,
            _ => self.spec_ordinal() == other.spec_ordinal(),
        }
    }
}

impl Eq for SsmlElement {
}

impl SsmlElement {
    /// Position of a standard element in the vocabulary; custom elements come last.
    pub open spec fn spec_ordinal(&self) -> nat {
        match self {
            SsmlElement::Speak => 0,
            SsmlElement::Lexicon => 1,
            SsmlElement::Lookup => 2,
            SsmlElement::Meta => 3,
            SsmlElement::Metadata => 4,
            SsmlElement::Paragraph => 5,
            SsmlElement::Sentence => 6,
            SsmlElement::Token => 7,
            SsmlElement::Word => 8,
            SsmlElement::SayAs => 9,
            SsmlElement::Phoneme => 10,
            SsmlElement::Sub => 11,
            SsmlElement::Lang => 12,
            SsmlElement::Voice => 13,
            SsmlElement::Emphasis => 14,
            SsmlElement::Break => 15,
            SsmlElement::Prosody => 16,
            SsmlElement::Audio => 17,
            SsmlElement::Mark => 18,
            SsmlElement::Description => 19,
            SsmlElement::Custom(_) => 20,
        }
    }

    fn ordinal(&self) -> (r: u8)
        ensures
            r as nat == self.spec_ordinal(),
    {
        match self {
            SsmlElement::Speak => 0,
            SsmlElement::Lexicon => 1,
            SsmlElement::Lookup => 2,
            SsmlElement::Meta => 3,
            SsmlElement::Metadata => 4,
            SsmlElement::Paragraph => 5,
            SsmlElement::Sentence => 6,
            SsmlElement::Token => 7,
            SsmlElement::Word => 8,
            SsmlElement::SayAs => 9,
            SsmlElement::Phoneme => 10,
            SsmlElement::Sub => 11,
            SsmlElement::Lang => 12,
            SsmlElement::Voice => 13,
            SsmlElement::Emphasis => 14,
            SsmlElement::Break => 15,
            SsmlElement::Prosody => 16,
            SsmlElement::Audio => 17,
            SsmlElement::Mark => 18,
            SsmlElement::Description => 19,
            SsmlElement::Custom(_) => 20,
        }
    }

    /// A copy of the kind.
    pub fn copy(&self) -> (r: SsmlElement)
        ensures
            r == *self,
    {
        match self {
            SsmlElement::Custom(n) => SsmlElement::Custom(n.clone()),
            SsmlElement::Speak => SsmlElement::Speak,
            SsmlElement::Lexicon => SsmlElement::Lexicon,
            SsmlElement::Lookup => SsmlElement::Lookup,
            SsmlElement::Meta => SsmlElement::Meta,
            SsmlElement::Metadata => SsmlElement::Metadata,
            SsmlElement::Paragraph => SsmlElement::Paragraph,
            SsmlElement::Sentence => SsmlElement::Sentence,
            SsmlElement::Token => SsmlElement::Token,
            SsmlElement::Word => SsmlElement::Word,
            SsmlElement::SayAs => SsmlElement::SayAs,
            SsmlElement::Phoneme => SsmlElement::Phoneme,
            SsmlElement::Sub => SsmlElement::Sub,
            SsmlElement::Lang => SsmlElement::Lang,
            SsmlElement::Voice => SsmlElement::Voice,
            SsmlElement::Emphasis => SsmlElement::Emphasis,
            SsmlElement::Break => SsmlElement::Break,
            SsmlElement::Prosody => SsmlElement::Prosody,
            SsmlElement::Audio => SsmlElement::Audio,
            SsmlElement::Mark => SsmlElement::Mark,
            SsmlElement::Description => SsmlElement::Description,
        }
    }

    /// Elements whose content may hold nested elements at all.
    pub open spec fn spec_can_contain_tags(&self) -> bool {
        self is Speak || self is Paragraph || self is Sentence || self is Voice
            || self is Emphasis || self is Token || self is Word || self is Lang
            || self is Prosody || self is Audio || self is Custom
    }

    /// The elements a sentence (and an emphasis) may contain.
    pub open spec fn spec_allowed_in_sentence(&self) -> bool {
        self is Custom || self is Audio || self is Break || self is Emphasis || self is Lang
            || self is Lookup || self is Mark || self is Phoneme || self is Prosody
            || self is SayAs || self is Sub || self is Token || self is Voice || self is Word
    }

    /// The elements a paragraph may contain: sentences and what a sentence may contain.
    pub open spec fn spec_allowed_in_paragraph(&self) -> bool {
        self is Sentence || self.spec_allowed_in_sentence()
    }

    /// The elements `speak` (and the other permissive containers) may contain: all but `speak`.
    pub open spec fn spec_allowed_in_speak(&self) -> bool {
        !(self is Speak)
    }

    /// The elements a token or word may contain.
    pub open spec fn spec_allowed_in_token(&self) -> bool {
        self is Audio || self is Break || self is Emphasis || self is Mark || self is Phoneme
            || self is Prosody || self is SayAs || self is Sub || self is Custom
    }

    /// Whether an element of kind `self` may directly contain one of kind `other`.
    pub open spec fn spec_can_contain(&self, other: &SsmlElement) -> bool {
        if other is Custom && self.spec_can_contain_tags() {
            true
        } else if !self.spec_can_contain_tags() {
            false
        } else if other is Speak {
            false
        } else {
            match self {
                SsmlElement::Speak => true,
                SsmlElement::Paragraph => other.spec_allowed_in_paragraph(),
                SsmlElement::Sentence => other.spec_allowed_in_sentence(),
                SsmlElement::Emphasis => other.spec_allowed_in_sentence(),
                SsmlElement::Token | SsmlElement::Word => other.spec_allowed_in_token(),
                SsmlElement::Voice | SsmlElement::Lang | SsmlElement::Prosody
                | SsmlElement::Audio => other.spec_allowed_in_speak(),
                SsmlElement::Custom(_) => true,
                _ => false,
            }
        }
    }

    /// Whether text inside an element of this kind is meant to be spoken.
    pub open spec fn spec_contains_synthesisable_text(&self) -> bool {
        !(self is Description || self is Metadata || self is Mark || self is Break
            || self is Lexicon || self is Meta)
    }

    /// Returns whether a tag can contain other tags; always true for custom tags.
    pub fn can_contain_tags(&self) -> (r: bool)
        ensures
            r == self.spec_can_contain_tags(),
    {
        matches!(
            self,
            SsmlElement::Speak | SsmlElement::Paragraph | SsmlElement::Sentence
                | SsmlElement::Voice | SsmlElement::Emphasis | SsmlElement::Token
                | SsmlElement::Word | SsmlElement::Lang | SsmlElement::Prosody
                | SsmlElement::Audio | SsmlElement::Custom(_)
        )
    }

    /// Checks whether this element can directly contain an element of kind `other`. A custom
    /// element may be placed in any element that can contain tags.
    pub fn can_contain(&self, other: &SsmlElement) -> (r: bool)
        ensures
            r == self.spec_can_contain(other),
    {
        if matches!(other, SsmlElement::Custom(_)) && self.can_contain_tags() {
            true
        } else if !self.can_contain_tags() {
            false
        } else if matches!(other, SsmlElement::Speak) {
            false
        } else {
            match self {
                SsmlElement::Speak => true,
                SsmlElement::Paragraph => other.allowed_in_paragraph(),
                SsmlElement::Sentence => other.allowed_in_sentence(),
                SsmlElement::Emphasis => other.allowed_in_sentence(),
                SsmlElement::Token | SsmlElement::Word => other.allowed_in_token(),
                SsmlElement::Voice | SsmlElement::Lang | SsmlElement::Prosody
                | SsmlElement::Audio => other.allowed_in_speak(),
                SsmlElement::Custom(_) => true,
                _ => false,
            }
        }
    }

    /// Returns true if the element is allowed within a paragraph `<p>...</p>`.
    fn allowed_in_paragraph(&self) -> (r: bool)
        ensures
            r == self.spec_allowed_in_paragraph(),
    {
        matches!(self, SsmlElement::Sentence) || self.allowed_in_sentence()
    }

    /// Returns true if the element is allowed within a sentence `<s>...</s>`.
    fn allowed_in_sentence(&self) -> (r: bool)
        ensures
            r == self.spec_allowed_in_sentence(),
    {
        matches!(
            self,
            SsmlElement::Custom(_) | SsmlElement::Audio | SsmlElement::Break
                | SsmlElement::Emphasis | SsmlElement::Lang | SsmlElement::Lookup
                | SsmlElement::Mark | SsmlElement::Phoneme | SsmlElement::Prosody
                | SsmlElement::SayAs | SsmlElement::Sub | SsmlElement::Token
                | SsmlElement::Voice | SsmlElement::Word
        )
    }

    /// Returns true if the element is allowed within `<speak></speak>`.
    fn allowed_in_speak(&self) -> (r: bool)
        ensures
            r == self.spec_allowed_in_speak(),
    {
        !matches!(self, SsmlElement::Speak)
    }

    /// Returns true if the element is allowed within `<token>` or `<w>`.
    fn allowed_in_token(&self) -> (r: bool)
        ensures
            r == self.spec_allowed_in_token(),
    {
        matches!(
            self,
            SsmlElement::Audio | SsmlElement::Break | SsmlElement::Emphasis
                | SsmlElement::Mark | SsmlElement::Phoneme | SsmlElement::Prosody
                | SsmlElement::SayAs | SsmlElement::Sub | SsmlElement::Custom(_)
        )
    }

    /// Returns true if the text inside should be processed by the speech synthesiser.
    pub fn contains_synthesisable_text(&self) -> (r: bool)
        ensures
            r == self.spec_contains_synthesisable_text(),
    {
        !matches!(
            self,
            SsmlElement::Description | SsmlElement::Metadata | SsmlElement::Mark
                | SsmlElement::Break | SsmlElement::Lexicon | SsmlElement::Meta
        )
    }
}


/// The name of an element kind as written in markup.
pub open spec fn element_name(k: SsmlElement) -> Seq<char> {
    match k {
        SsmlElement::Speak => "speak"@,
        SsmlElement::Lexicon => "lexicon"@,
        SsmlElement::Lookup => "lookup"@,
        SsmlElement::Meta => "meta"@,
        SsmlElement::Metadata => "metadata"@,
        SsmlElement::Paragraph => "p"@,
        SsmlElement::Sentence => "s"@,
        SsmlElement::Token => "token"@,
        SsmlElement::Word => "w"@,
        SsmlElement::SayAs => "say-as"@,
        SsmlElement::Phoneme => "phoneme"@,
        SsmlElement::Sub => "sub"@,
        SsmlElement::Lang => "lang"@,
        SsmlElement::Voice => "voice"@,
        SsmlElement::Emphasis => "emphasis"@,
        SsmlElement::Break => "break"@,
        SsmlElement::Prosody => "prosody"@,
        SsmlElement::Audio => "audio"@,
        SsmlElement::Mark => "mark"@,
        SsmlElement::Description => "desc"@,
        SsmlElement::Custom(n) => n@,
    }
}

/// The standard element kind a markup name denotes, if any.
pub open spec fn standard_kind(s: Seq<char>) -> Option<SsmlElement> {
    if s == "speak"@ {
        Some(SsmlElement::Speak)
    } else if s == "lexicon"@ {
        Some(SsmlElement::Lexicon)
    } else if s == "lookup"@ {
        Some(SsmlElement::Lookup)
    } else if s == "meta"@ {
        Some(SsmlElement::Meta)
    } else if s == "metadata"@ {
        Some(SsmlElement::Metadata)
    } else if s == "p"@ {
        Some(SsmlElement::Paragraph)
    } else if s == "s"@ {
        Some(SsmlElement::Sentence)
    } else if s == "token"@ {
        Some(SsmlElement::Token)
    } else if s == "w"@ {
        Some(SsmlElement::Word)
    } else if s == "say-as"@ {
        Some(SsmlElement::SayAs)
    } else if s == "phoneme"@ {
        Some(SsmlElement::Phoneme)
    } else if s == "sub"@ {
        Some(SsmlElement::Sub)
    } else if s == "lang"@ {
        Some(SsmlElement::Lang)
    } else if s == "voice"@ {
        Some(SsmlElement::Voice)
    } else if s == "emphasis"@ {
        Some(SsmlElement::Emphasis)
    } else if s == "break"@ {
        Some(SsmlElement::Break)
    } else if s == "prosody"@ {
        Some(SsmlElement::Prosody)
    } else if s == "audio"@ {
        Some(SsmlElement::Audio)
    } else if s == "mark"@ {
        Some(SsmlElement::Mark)
    } else if s == "desc"@ {
        Some(SsmlElement::Description)
    } else {
        None
    }
}

impl SsmlElement {
    /// The element kind named `s`; names outside the SSML vocabulary give a custom element.
    pub fn from_str(s: &str) -> (r: SsmlElement)
        ensures
            element_name(r) == s@,
            match standard_kind(s@) {
                Some(k) => r == k,
                None => r is Custom,
            },
    {
        let cs = chars_of(s);
        if chars_eq(&cs, "speak") {
            SsmlElement::Speak
        } else if chars_eq(&cs, "lexicon") {
            SsmlElement::Lexicon
        } else if chars_eq(&cs, "lookup") {
            SsmlElement::Lookup
        } else if chars_eq(&cs, "meta") {
            SsmlElement::Meta
        } else if chars_eq(&cs, "metadata") {
            SsmlElement::Metadata
        } else if chars_eq(&cs, "p") {
            SsmlElement::Paragraph
        } else if chars_eq(&cs, "s") {
            SsmlElement::Sentence
        } else if chars_eq(&cs, "token") {
            SsmlElement::Token
        } else if chars_eq(&cs, "w") {
            SsmlElement::Word
        } else if chars_eq(&cs, "say-as") {
            SsmlElement::SayAs
        } else if chars_eq(&cs, "phoneme") {
            SsmlElement::Phoneme
        } else if chars_eq(&cs, "sub") {
            SsmlElement::Sub
        } else if chars_eq(&cs, "lang") {
            SsmlElement::Lang
        } else if chars_eq(&cs, "voice") {
            SsmlElement::Voice
        } else if chars_eq(&cs, "emphasis") {
            SsmlElement::Emphasis
        } else if chars_eq(&cs, "break") {
            SsmlElement::Break
        } else if chars_eq(&cs, "prosody") {
            SsmlElement::Prosody
        } else if chars_eq(&cs, "audio") {
            SsmlElement::Audio
        } else if chars_eq(&cs, "mark") {
            SsmlElement::Mark
        } else if chars_eq(&cs, "desc") {
            SsmlElement::Description
        } else {
            SsmlElement::Custom(String::from_str(s))
        }
    }

    /// The element's name as written in markup, such as `"p"` for a paragraph.
    pub fn to_string(&self) -> (r: String)
        ensures
            r@ == element_name(*self),
    {
        match self {
            SsmlElement::Speak => String::from_str("speak"),
            SsmlElement::Lexicon => String::from_str("lexicon"),
            SsmlElement::Lookup => String::from_str("lookup"),
            SsmlElement::Meta => String::from_str("meta"),
            SsmlElement::Metadata => String::from_str("metadata"),
            SsmlElement::Paragraph => String::from_str("p"),
            SsmlElement::Sentence => String::from_str("s"),
            SsmlElement::Token => String::from_str("token"),
            SsmlElement::Word => String::from_str("w"),
            SsmlElement::SayAs => String::from_str("say-as"),
            SsmlElement::Phoneme => String::from_str("phoneme"),
            SsmlElement::Sub => String::from_str("sub"),
            SsmlElement::Lang => String::from_str("lang"),
            SsmlElement::Voice => String::from_str("voice"),
            SsmlElement::Emphasis => String::from_str("emphasis"),
            SsmlElement::Break => String::from_str("break"),
            SsmlElement::Prosody => String::from_str("prosody"),
            SsmlElement::Audio => String::from_str("audio"),
            SsmlElement::Mark => String::from_str("mark"),
            SsmlElement::Description => String::from_str("desc"),
            SsmlElement::Custom(n) => n.clone(),
        }
    }
}

// ---------------------------------------------------------------- attribute records

/// Attributes of `<speak>`.
#[derive(Clone, Debug, PartialEq, Eq)]
pub struct SpeakAttributes {
    pub lang: Option<String>,
    pub base: Option<String>,
    pub on_lang_failure: Option<OnLanguageFailure>,
    pub version: String,
    /// Other root attributes (namespace declarations and the like), in document order.
    pub xml_root_attrs: Vec<Attribute>,
}

impl Default for SpeakAttributes {
    fn default() -> (r: SpeakAttributes)
        ensures
            r.lang is None,
            r.base is None,
            r.on_lang_failure is None,
            r.version@.len() == 0,
            r.xml_root_attrs@.len() == 0,
    {
        SpeakAttributes {
            lang: None,
            base: None,
            on_lang_failure: None,
            version: String::new(),
            xml_root_attrs: Vec::new(),
        }
    }
}

/// Attributes of `<lexicon>`.
#[derive(Clone, Debug, PartialEq, Eq)]
pub struct LexiconAttributes {
    /// The lexicon's URI, as written; it has been checked to be a valid URI.
    pub uri: String,
    pub xml_id: String,
    /// The media type, as written; it has been checked to be a valid media type.
    pub ty: Option<String>,
    pub fetch_timeout: Option<TimeDesignation>,
}

/// Attributes of `<lookup>`.
#[derive(Clone, Debug, PartialEq, Eq)]
pub struct LookupAttributes {
    pub lookup_ref: String,
}

/// Attributes of `<meta>`: exactly one of `name` and `http_equiv` is present.
#[derive(Clone, Debug, PartialEq, Eq)]
pub struct MetaAttributes {
    pub name: Option<String>,
    pub http_equiv: Option<String>,
    pub content: String,
}

/// Attributes of `<token>` and `<w>`.
#[derive(Clone, Debug, PartialEq, Eq)]
pub struct TokenAttributes {
    pub role: Option<String>,
}

/// Attributes of `<say-as>`.
#[derive(Clone, Debug, PartialEq, Eq)]
pub struct SayAsAttributes {
    pub interpret_as: String,
    pub format: Option<String>,
    pub detail: Option<String>,
}

/// Attributes of `<phoneme>`.
#[derive(Clone, Debug, PartialEq, Eq)]
pub struct PhonemeAttributes {
    pub ph: String,
    pub alphabet: Option<PhonemeAlphabet>,
}

/// Attributes of `<sub>`.
#[derive(Clone, Debug, PartialEq, Eq)]
pub struct SubAttributes {
    pub alias: String,
}

/// Attributes of `<lang>`.
#[derive(Clone, Debug, PartialEq, Eq)]
pub struct LangAttributes {
    pub lang: String,
    pub on_lang_failure: Option<OnLanguageFailure>,
}

/// Attributes of `<voice>`.
#[derive(Clone, Debug, PartialEq, Eq)]
pub struct VoiceAttributes {
    pub gender: Option<Gender>,
    pub age: Option<u8>,
    /// A positive variant number.
    pub variant: Option<usize>,
    pub name: Vec<String>,
    pub languages: Vec<LanguageAccentPair>,
}

/// Attributes of `<emphasis>`.
#[derive(Clone, Copy, Debug, PartialEq, Eq)]
pub struct EmphasisAttributes {
    pub level: Option<EmphasisLevel>,
}

/// Attributes of `<break>`.
#[derive(Clone, Copy, Debug, PartialEq, Eq)]
pub struct BreakAttributes {
    pub strength: Option<Strength>,
    pub time: Option<TimeDesignation>,
}

/// Attributes of `<prosody>`.
#[derive(Clone, Debug, PartialEq, Eq)]
pub struct ProsodyAttributes {
    pub pitch: Option<PitchRange>,
    pub contour: Option<PitchContour>,
    pub range: Option<PitchRange>,
    pub rate: Option<RateRange>,
    pub duration: Option<TimeDesignation>,
    pub volume: Option<VolumeRange>,
}

/// Attributes of `<mark>`.
#[derive(Clone, Debug, PartialEq, Eq)]
pub struct MarkAttributes {
    pub name: String,
}

/// Attributes of `<audio>`.
#[derive(Clone, Debug, PartialEq, Eq)]
pub struct AudioAttributes {
    /// The audio source, as written; it has been checked to be a valid URI.
    pub src: Option<String>,
    pub fetch_timeout: Option<TimeDesignation>,
    pub fetch_hint: FetchHint,
    pub max_age: Option<usize>,
    pub max_stale: Option<usize>,
    pub clip_begin: TimeDesignation,
    pub clip_end: Option<TimeDesignation>,
    /// A positive repetition count.
    pub repeat_count: usize,
    pub repeat_dur: Option<TimeDesignation>,
    /// Change in volume, in decibels.
    pub sound_level: Decibels,
    /// Playback speed as a factor: the percentage written, divided by 100.
    pub speed: Decimal,
}

/// An element together with its attributes.
#[derive(Clone, Debug, PartialEq, Eq)]
pub enum ParsedElement {
    Speak(SpeakAttributes),
    Lexicon(LexiconAttributes),
    Lookup(LookupAttributes),
    Meta(MetaAttributes),
    Metadata,
    Paragraph,
    Sentence,
    Token(TokenAttributes),
    Word(TokenAttributes),
    SayAs(SayAsAttributes),
    Phoneme(PhonemeAttributes),
    Sub(SubAttributes),
    Lang(LangAttributes),
    Voice(VoiceAttributes),
    Emphasis(EmphasisAttributes),
    Break(BreakAttributes),
    Prosody(ProsodyAttributes),
    Audio(AudioAttributes),
    Mark(MarkAttributes),
    /// The `<desc>` element with its text.
    Description(String),
    /// An element outside the SSML vocabulary.
    Custom(CustomElement),
}

/// An attribute: its name and its value.
#[derive(Clone, Debug, PartialEq, Eq)]
pub struct Attribute {
    pub name: String,
    pub value: String,
}

/// An element outside the SSML vocabulary: its name and its attributes in document order.
#[derive(Clone, Debug, PartialEq, Eq)]
pub struct CustomElement {
    pub name: String,
    pub attributes: Vec<Attribute>,
}

/// The tag kind of a parsed element.
pub open spec fn kind_of(e: ParsedElement) -> SsmlElement {
    match e {
        ParsedElement::Speak(_) => SsmlElement::Speak,
        ParsedElement::Lexicon(_) => SsmlElement::Lexicon,
        ParsedElement::Lookup(_) => SsmlElement::Lookup,
        ParsedElement::Meta(_) => SsmlElement::Meta,
        ParsedElement::Metadata => SsmlElement::Metadata,
        ParsedElement::Paragraph => SsmlElement::Paragraph,
        ParsedElement::Sentence => SsmlElement::Sentence,
        ParsedElement::Token(_) => SsmlElement::Token,
        ParsedElement::Word(_) => SsmlElement::Word,
        ParsedElement::SayAs(_) => SsmlElement::SayAs,
        ParsedElement::Phoneme(_) => SsmlElement::Phoneme,
        ParsedElement::Sub(_) => SsmlElement::Sub,
        ParsedElement::Lang(_) => SsmlElement::Lang,
        ParsedElement::Voice(_) => SsmlElement::Voice,
        ParsedElement::Emphasis(_) => SsmlElement::Emphasis,
        ParsedElement::Break(_) => SsmlElement::Break,
        ParsedElement::Prosody(_) => SsmlElement::Prosody,
        ParsedElement::Audio(_) => SsmlElement::Audio,
        ParsedElement::Mark(_) => SsmlElement::Mark,
        ParsedElement::Description(_) => SsmlElement::Description,
        ParsedElement::Custom(c) => SsmlElement::Custom(c.name),
    }
}

// ---------------------------------------------------------------- attribute spelling

/// ` name="value"`.
pub open spec fn attr_chars(name: Seq<char>, value: Seq<char>) -> Seq<char> {
    seq![' '] + name + seq!['=', '"'] + value + seq!['"']
}

/// ` name="escaped value"` when the value is present.
pub open spec fn opt_text_attr(name: Seq<char>, value: Option<String>) -> Seq<char> {
    match value {
        Some(v) => attr_chars(name, escaped(v@)),
        None => Seq::empty(),
    }
}

pub open spec fn opt_time_attr(name: Seq<char>, value: Option<TimeDesignation>) -> Seq<char> {
    match value {
        Some(t) => attr_chars(name, time_chars(t)),
        None => Seq::empty(),
    }
}

pub open spec fn opt_olf_attr(value: Option<OnLanguageFailure>) -> Seq<char> {
    match value {
        Some(v) => attr_chars("onlangfailure"@, on_language_failure_chars(v)),
        None => Seq::empty(),
    }
}

/// ` name="value"` for each pair, values escaped.
pub open spec fn pairs_chars(pairs: Seq<Attribute>) -> Seq<char>
    decreases pairs.len(),
{
    if pairs.len() == 0 {
        Seq::empty()
    } else {
        pairs_chars(pairs.drop_last()) + attr_chars(pairs.last().name@, escaped(pairs.last().value@))
    }
}

/// Strings joined by single spaces.
pub open spec fn joined(items: Seq<Seq<char>>) -> Seq<char>
    decreases items.len(),
{
    if items.len() == 0 {
        Seq::empty()
    } else if items.len() == 1 {
        items[0]
    } else {
        joined(items.drop_last()) + seq![' '] + items.last()
    }
}

pub open spec fn speak_attrs_chars(a: SpeakAttributes) -> Seq<char> {
    attr_chars("version"@, escaped(a.version@)) + opt_text_attr("xml:lang"@, a.lang)
        + opt_text_attr("xml:base"@, a.base) + opt_olf_attr(a.on_lang_failure)
        + pairs_chars(a.xml_root_attrs@)
}

pub open spec fn lexicon_attrs_chars(a: LexiconAttributes) -> Seq<char> {
    attr_chars("uri"@, escaped(a.uri@)) + attr_chars("xml:id"@, escaped(a.xml_id@))
        + opt_text_attr("type"@, a.ty) + opt_time_attr("fetchtimeout"@, a.fetch_timeout)
}

pub open spec fn meta_attrs_chars(a: MetaAttributes) -> Seq<char> {
    attr_chars("content"@, escaped(a.content@)) + opt_text_attr("http-equiv"@, a.http_equiv)
        + opt_text_attr("name"@, a.name)
}

pub open spec fn say_as_attrs_chars(a: SayAsAttributes) -> Seq<char> {
    attr_chars("interpret-as"@, escaped(a.interpret_as@)) + opt_text_attr("format"@, a.format)
        + opt_text_attr("detail"@, a.detail)
}

pub open spec fn phoneme_attrs_chars(a: PhonemeAttributes) -> Seq<char> {
    attr_chars("ph"@, escaped(a.ph@)) + match a.alphabet {
        Some(al) => attr_chars("alphabet"@, escaped(al.view())),
        None => Seq::empty(),
    }
}

pub open spec fn lang_attrs_chars(a: LangAttributes) -> Seq<char> {
    attr_chars("xml:lang"@, escaped(a.lang@)) + opt_olf_attr(a.on_lang_failure)
}

pub open spec fn voice_attrs_chars(a: VoiceAttributes) -> Seq<char> {
    (match a.gender {
        Some(g) => attr_chars("gender"@, gender_chars(g)),
        None => Seq::empty(),
    }) + (match a.age {
        Some(n) => attr_chars("age"@, nat_digits(n as nat)),
        None => Seq::empty(),
    }) + (match a.variant {
        Some(n) => attr_chars("variant"@, nat_digits(n as nat)),
        None => Seq::empty(),
    }) + (if a.name@.len() > 0 {
        attr_chars("name"@, escaped(joined(a.name@.map_values(|n: String| n@))))
    } else {
        Seq::empty()
    }) + (if a.languages@.len() > 0 {
        attr_chars("languages"@, escaped(joined(a.languages@.map_values(|l: LanguageAccentPair| language_accent_chars(l.lang@, opt_view(l.accent))))))
    } else {
        Seq::empty()
    })
}

pub open spec fn break_attrs_chars(a: BreakAttributes) -> Seq<char> {
    (match a.strength {
        Some(st) => attr_chars("strength"@, strength_chars(st)),
        None => Seq::empty(),
    }) + opt_time_attr("time"@, a.time)
}

pub open spec fn prosody_attrs_chars(a: ProsodyAttributes) -> Seq<char> {
    (match a.pitch {
        Some(p) => attr_chars("pitch"@, pitch_range_chars(p)),
        None => Seq::empty(),
    }) + (match a.contour {
        Some(c) => attr_chars("contour"@, contour_chars(c.view_elements())),
        None => Seq::empty(),
    }) + (match a.range {
        Some(p) => attr_chars("range"@, pitch_range_chars(p)),
        None => Seq::empty(),
    }) + (match a.rate {
        Some(r) => attr_chars("rate"@, rate_range_chars(r)),
        None => Seq::empty(),
    }) + opt_time_attr("duration"@, a.duration) + (match a.volume {
        Some(v) => attr_chars("volume"@, volume_range_chars(v)),
        None => Seq::empty(),
    })
}

/// The speed factor written as a percentage: the point moves two places to the right.
pub open spec fn speed_percent_chars(d: Decimal) -> Seq<char> {
    if d.scale >= 2 {
        decimal_chars(Decimal { mantissa: d.mantissa, scale: (d.scale - 2) as u32 })
    } else {
        decimal_chars(d).filter(|c: char| c != '.') + crate::numbers::zeros((2 - d.scale) as nat)
    }
}

pub open spec fn audio_attrs_chars(a: AudioAttributes) -> Seq<char> {
    attr_chars("fetchhint"@, fetch_hint_chars(a.fetch_hint)) + attr_chars("clipBegin"@, time_chars(a.clip_begin))
        + attr_chars("repeatCount"@, nat_digits(a.repeat_count as nat))
        + attr_chars("soundLevel"@, decibel_chars(a.sound_level))
        + attr_chars("speed"@, speed_percent_chars(a.speed) + seq!['%'])
        + opt_text_attr("src"@, a.src) + opt_time_attr("fetchtimeout"@, a.fetch_timeout)
        + (match a.max_age {
        Some(n) => attr_chars("maxage"@, nat_digits(n as nat)),
        None => Seq::empty(),
    }) + (match a.max_stale {
        Some(n) => attr_chars("maxstale"@, nat_digits(n as nat)),
        None => Seq::empty(),
    }) + opt_time_attr("clipEnd"@, a.clip_end) + opt_time_attr("repeatDur"@, a.repeat_dur)
}

/// The attributes of an element as written in its start tag, each preceded by a space.
pub open spec fn attribute_chars(e: ParsedElement) -> Seq<char> {
    match e {
        ParsedElement::Speak(a) => speak_attrs_chars(a),
        ParsedElement::Lexicon(a) => lexicon_attrs_chars(a),
        ParsedElement::Lookup(a) => attr_chars("ref"@, escaped(a.lookup_ref@)),
        ParsedElement::Meta(a) => meta_attrs_chars(a),
        ParsedElement::Token(a) => opt_text_attr("role"@, a.role),
        ParsedElement::Word(a) => opt_text_attr("role"@, a.role),
        ParsedElement::SayAs(a) => say_as_attrs_chars(a),
        ParsedElement::Phoneme(a) => phoneme_attrs_chars(a),
        ParsedElement::Sub(a) => attr_chars("alias"@, escaped(a.alias@)),
        ParsedElement::Lang(a) => lang_attrs_chars(a),
        ParsedElement::Voice(a) => voice_attrs_chars(a),
        ParsedElement::Emphasis(a) => match a.level {
            Some(l) => attr_chars("level"@, emphasis_level_chars(l)),
            None => Seq::empty(),
        },
        ParsedElement::Break(a) => break_attrs_chars(a),
        ParsedElement::Prosody(a) => prosody_attrs_chars(a),
        ParsedElement::Audio(a) => audio_attrs_chars(a),
        ParsedElement::Mark(a) => attr_chars("name"@, escaped(a.name@)),
        ParsedElement::Custom(c) => pairs_chars(c.attributes@),
        _ => Seq::empty(),
    }
}

fn push_attr(out: &mut Vec<char>, name: &str, value: &Vec<char>)
    ensures
        final(out)@ == old(out)@ + attr_chars(name@, value@),
{
    out.push(' ');
    append_str(out, name);
    out.push('=');
    out.push('"');
    append_chars(out, value);
    out.push('"');
    assert(final(out)@ =~= old(out)@ + attr_chars(name@, value@));
}

fn push_text_attr(out: &mut Vec<char>, name: &str, value: &String)
    ensures
        final(out)@ == old(out)@ + attr_chars(name@, escaped(value@)),
{
    let e = escape(value.as_str());
    push_attr(out, name, &chars_of(e.as_str()));
}

fn push_opt_text_attr(out: &mut Vec<char>, name: &str, value: &Option<String>)
    ensures
        final(out)@ == old(out)@ + opt_text_attr(name@, *value),
{
    match value {
        Some(v) => push_text_attr(out, name, v),
        None => {
            assert(old(out)@ + Seq::<char>::empty() =~= old(out)@);
        },
    }
}

fn push_opt_time_attr(out: &mut Vec<char>, name: &str, value: &Option<TimeDesignation>)
    ensures
        final(out)@ == old(out)@ + opt_time_attr(name@, *value),
{
    match value {
        Some(t) => push_attr(out, name, &format_time(t)),
        None => {
            assert(old(out)@ + Seq::<char>::empty() =~= old(out)@);
        },
    }
}

fn push_opt_olf_attr(out: &mut Vec<char>, value: &Option<OnLanguageFailure>)
    ensures
        final(out)@ == old(out)@ + opt_olf_attr(*value),
{
    match value {
        Some(v) => push_attr(out, "onlangfailure", &chars_of(v.as_str())),
        None => {
            assert(old(out)@ + Seq::<char>::empty() =~= old(out)@);
        },
    }
}

fn push_opt_number_attr(out: &mut Vec<char>, name: &str, value: Option<u64>)
    ensures
        final(out)@ == old(out)@ + match value {
            Some(n) => attr_chars(name@, nat_digits(n as nat)),
            None => Seq::empty(),
        },
{
    match value {
        Some(n) => push_attr(out, name, &format_unsigned(n)),
        None => {
            assert(old(out)@ + Seq::<char>::empty() =~= old(out)@);
        },
    }
}

fn push_pairs(out: &mut Vec<char>, pairs: &Vec<Attribute>)
    ensures
        final(out)@ == old(out)@ + pairs_chars(pairs@),
{
    let mut i: usize = 0;
    while i < pairs.len()
        invariant
            i <= pairs.len(),
            out@ == old(out)@ + pairs_chars(pairs@.take(i as int)),
        decreases pairs.len() - i,
    {
        push_text_attr(out, pairs[i].name.as_str(), &pairs[i].value);
        i += 1;
        assert(pairs@.take(i as int).drop_last() =~= pairs@.take(i - 1));
        assert(out@ =~= old(out)@ + pairs_chars(pairs@.take(i as int)));
    }
    assert(pairs@.take(i as int) =~= pairs@);
}

/// The strings joined by single spaces.
fn join_strings(items: &Vec<String>) -> (r: Vec<char>)
    ensures
        r@ == joined(items@.map_values(|n: String| n@)),
{
    let ghost all = items@.map_values(|n: String| n@);
    let mut v: Vec<char> = Vec::new();
    let mut i: usize = 0;
    while i < items.len()
        invariant
            i <= items.len(),
            all == items@.map_values(|n: String| n@),
            v@ == joined(all.take(i as int)),
        decreases items.len() - i,
    {
        if i > 0 {
            v.push(' ');
        }
        append_str(&mut v, items[i].as_str());
        i += 1;
        assert(all.take(i as int).drop_last() =~= all.take(i - 1));
        assert(all.take(i as int).last() == items@[i - 1]@);
        if i == 1 {
            assert(v@ =~= joined(all.take(i as int)));
        }
    }
    assert(all.take(i as int) =~= all);
    v
}

/// The language-accent pairs' spellings joined by single spaces.
fn join_languages(items: &Vec<LanguageAccentPair>) -> (r: Vec<char>)
    ensures
        r@ == joined(items@.map_values(|l: LanguageAccentPair| language_accent_chars(l.lang@, opt_view(l.accent)))),
{
    let ghost all = items@.map_values(|l: LanguageAccentPair| language_accent_chars(l.lang@, opt_view(l.accent)));
    let mut v: Vec<char> = Vec::new();
    let mut i: usize = 0;
    while i < items.len()
        invariant
            i <= items.len(),
            all == items@.map_values(|l: LanguageAccentPair| language_accent_chars(l.lang@, opt_view(l.accent))),
            v@ == joined(all.take(i as int)),
        decreases items.len() - i,
    {
        if i > 0 {
            v.push(' ');
        }
        let s = items[i].to_string();
        append_str(&mut v, s.as_str());
        i += 1;
        assert(all.take(i as int).drop_last() =~= all.take(i - 1));
        if i == 1 {
            assert(v@ =~= joined(all.take(i as int)));
        }
    }
    assert(all.take(i as int) =~= all);
    v
}

fn speed_percent(d: &Decimal) -> (r: Vec<char>)
    ensures
        r@ == speed_percent_chars(*d),
{
    if d.scale >= 2 {
        format_decimal(&Decimal { mantissa: d.mantissa, scale: d.scale - 2 })
    } else {
        let f = format_decimal(d);
        let mut v: Vec<char> = Vec::new();
        let mut i: usize = 0;
        while i < f.len()
            invariant
                i <= f.len(),
                v@ == f@.take(i as int).filter(|c: char| c != '.'),
            decreases f.len() - i,
        {
            if f[i] != '.' {
                v.push(f[i]);
            }
            proof {
                assert(f@.take(i + 1).drop_last() =~= f@.take(i as int));
                reveal_with_fuel(Seq::filter, 1);
            }
            i += 1;
        }
        assert(f@.take(i as int) =~= f@);
        let pad = 2 - d.scale;
        let mut k: u32 = 0;
        let ghost base = v@;
        while k < pad
            invariant
                k <= pad,
                pad == 2 - d.scale,
                v@ == base + crate::numbers::zeros(k as nat),
            decreases pad - k,
        {
            v.push('0');
            k += 1;
            assert(v@ =~= base + crate::numbers::zeros(k as nat));
        }
        v
    }
}

fn speak_attrs(a: &SpeakAttributes) -> (r: Vec<char>)
    ensures
        r@ == speak_attrs_chars(*a),
{
    let mut out: Vec<char> = Vec::new();
        push_text_attr(&mut out, "version", &a.version);
        push_opt_text_attr(&mut out, "xml:lang", &a.lang);
        push_opt_text_attr(&mut out, "xml:base", &a.base);
        push_opt_olf_attr(&mut out, &a.on_lang_failure);
        push_pairs(&mut out, &a.xml_root_attrs);
    assert(out@ =~= speak_attrs_chars(*a));
    out
}

fn lexicon_attrs(a: &LexiconAttributes) -> (r: Vec<char>)
    ensures
        r@ == lexicon_attrs_chars(*a),
{
    let mut out: Vec<char> = Vec::new();
        push_text_attr(&mut out, "uri", &a.uri);
        push_text_attr(&mut out, "xml:id", &a.xml_id);
        push_opt_text_attr(&mut out, "type", &a.ty);
        push_opt_time_attr(&mut out, "fetchtimeout", &a.fetch_timeout);
    assert(out@ =~= lexicon_attrs_chars(*a));
    out
}

fn meta_attrs(a: &MetaAttributes) -> (r: Vec<char>)
    ensures
        r@ == meta_attrs_chars(*a),
{
    let mut out: Vec<char> = Vec::new();
        push_text_attr(&mut out, "content", &a.content);
        push_opt_text_attr(&mut out, "http-equiv", &a.http_equiv);
        push_opt_text_attr(&mut out, "name", &a.name);
    assert(out@ =~= meta_attrs_chars(*a));
    out
}

fn say_as_attrs(a: &SayAsAttributes) -> (r: Vec<char>)
    ensures
        r@ == say_as_attrs_chars(*a),
{
    let mut out: Vec<char> = Vec::new();
        push_text_attr(&mut out, "interpret-as", &a.interpret_as);
        push_opt_text_attr(&mut out, "format", &a.format);
        push_opt_text_attr(&mut out, "detail", &a.detail);
    assert(out@ =~= say_as_attrs_chars(*a));
    out
}

fn phoneme_attrs(a: &PhonemeAttributes) -> (r: Vec<char>)
    ensures
        r@ == phoneme_attrs_chars(*a),
{
    let mut out: Vec<char> = Vec::new();
        push_text_attr(&mut out, "ph", &a.ph);
        match &a.alphabet {
            Some(al) => push_text_attr(&mut out, "alphabet", &al.to_string()),
            None => {},
        }
    assert(out@ =~= phoneme_attrs_chars(*a));
    out
}

fn lang_attrs(a: &LangAttributes) -> (r: Vec<char>)
    ensures
        r@ == lang_attrs_chars(*a),
{
    let mut out: Vec<char> = Vec::new();
        push_text_attr(&mut out, "xml:lang", &a.lang);
        push_opt_olf_attr(&mut out, &a.on_lang_failure);
    assert(out@ =~= lang_attrs_chars(*a));
    out
}

fn voice_attrs(a: &VoiceAttributes) -> (r: Vec<char>)
    ensures
        r@ == voice_attrs_chars(*a),
{
    let mut out: Vec<char> = Vec::new();
        match a.gender {
            Some(g) => push_attr(&mut out, "gender", &chars_of(g.as_str())),
            None => {},
        }
        push_opt_number_attr(&mut out, "age", match a.age { Some(n) => Some(n as u64), None => None });
        push_opt_number_attr(&mut out, "variant", match a.variant { Some(n) => Some(n as u64), None => None });
        if a.name.len() > 0 {
            let e = escape(string_of(&join_strings(&a.name)).as_str());
            push_attr(&mut out, "name", &chars_of(e.as_str()));
        }
        if a.languages.len() > 0 {
            let e = escape(string_of(&join_languages(&a.languages)).as_str());
            push_attr(&mut out, "languages", &chars_of(e.as_str()));
        }
    assert(out@ =~= voice_attrs_chars(*a));
    out
}

fn break_attrs(a: &BreakAttributes) -> (r: Vec<char>)
    ensures
        r@ == break_attrs_chars(*a),
{
    let mut out: Vec<char> = Vec::new();
        match a.strength {
            Some(st) => push_attr(&mut out, "strength", &chars_of(st.as_str())),
            None => {},
        }
        push_opt_time_attr(&mut out, "time", &a.time);
    assert(out@ =~= break_attrs_chars(*a));
    out
}

fn prosody_attrs(a: &ProsodyAttributes) -> (r: Vec<char>)
    ensures
        r@ == prosody_attrs_chars(*a),
{
    let mut out: Vec<char> = Vec::new();
        match &a.pitch {
            Some(p) => push_attr(&mut out, "pitch", &format_pitch_range(p)),
            None => {},
        }
        match &a.contour {
            Some(c) => push_attr(&mut out, "contour", &c.format()),
            None => {},
        }
        match &a.range {
            Some(p) => push_attr(&mut out, "range", &format_pitch_range(p)),
            None => {},
        }
        match &a.rate {
            Some(r) => push_attr(&mut out, "rate", &r.format()),
            None => {},
        }
        push_opt_time_attr(&mut out, "duration", &a.duration);
        match &a.volume {
            Some(v) => push_attr(&mut out, "volume", &v.format()),
            None => {},
        }
    assert(out@ =~= prosody_attrs_chars(*a));
    out
}

fn audio_attrs(a: &AudioAttributes) -> (r: Vec<char>)
    ensures
        r@ == audio_attrs_chars(*a),
{
    let mut out: Vec<char> = Vec::new();
        push_attr(&mut out, "fetchhint", &chars_of(a.fetch_hint.as_str()));
        push_attr(&mut out, "clipBegin", &format_time(&a.clip_begin));
        push_attr(&mut out, "repeatCount", &format_unsigned(a.repeat_count as u64));
        push_attr(&mut out, "soundLevel", &format_decibel(&a.sound_level));
        let mut speed = speed_percent(&a.speed);
        speed.push('%');
        push_attr(&mut out, "speed", &speed);
        push_opt_text_attr(&mut out, "src", &a.src);
        push_opt_time_attr(&mut out, "fetchtimeout", &a.fetch_timeout);
        push_opt_number_attr(&mut out, "maxage", match a.max_age { Some(n) => Some(n as u64), None => None });
        push_opt_number_attr(&mut out, "maxstale", match a.max_stale { Some(n) => Some(n as u64), None => None });
        push_opt_time_attr(&mut out, "clipEnd", &a.clip_end);
        push_opt_time_attr(&mut out, "repeatDur", &a.repeat_dur);
    assert(out@ =~= audio_attrs_chars(*a));
    out
}

impl ParsedElement {
    /// The element's tag kind, without its attributes.
    pub fn kind(&self) -> (r: SsmlElement)
        ensures
            r == kind_of(*self),
    {
        match self {
            ParsedElement::Speak(_) => SsmlElement::Speak,
            ParsedElement::Lexicon(_) => SsmlElement::Lexicon,
            ParsedElement::Lookup(_) => SsmlElement::Lookup,
            ParsedElement::Meta(_) => SsmlElement::Meta,
            ParsedElement::Metadata => SsmlElement::Metadata,
            ParsedElement::Paragraph => SsmlElement::Paragraph,
            ParsedElement::Sentence => SsmlElement::Sentence,
            ParsedElement::Token(_) => SsmlElement::Token,
            ParsedElement::Word(_) => SsmlElement::Word,
            ParsedElement::SayAs(_) => SsmlElement::SayAs,
            ParsedElement::Phoneme(_) => SsmlElement::Phoneme,
            ParsedElement::Sub(_) => SsmlElement::Sub,
            ParsedElement::Lang(_) => SsmlElement::Lang,
            ParsedElement::Voice(_) => SsmlElement::Voice,
            ParsedElement::Emphasis(_) => SsmlElement::Emphasis,
            ParsedElement::Break(_) => SsmlElement::Break,
            ParsedElement::Prosody(_) => SsmlElement::Prosody,
            ParsedElement::Audio(_) => SsmlElement::Audio,
            ParsedElement::Mark(_) => SsmlElement::Mark,
            ParsedElement::Description(_) => SsmlElement::Description,
            ParsedElement::Custom(c) => SsmlElement::Custom(c.name.clone()),
        }
    }

    /// Returns true if the element can contain other elements.
    pub fn can_contain_tags(&self) -> (r: bool)
        ensures
            r == kind_of(*self).spec_can_contain_tags(),
    {
        self.kind().can_contain_tags()
    }

    /// Returns true if the element can directly contain `other`.
    pub fn can_contain(&self, other: &ParsedElement) -> (r: bool)
        ensures
            r == kind_of(*self).spec_can_contain(&kind_of(*other)),
    {
        self.kind().can_contain(&other.kind())
    }

    /// The attributes as written in the element's start tag, each preceded by a space.
    pub fn attribute_chars(&self) -> (r: Vec<char>)
        ensures
            r@ == attribute_chars(*self),
    {
        let mut out: Vec<char> = Vec::new();
        match self {
            ParsedElement::Speak(a) => {
                out = speak_attrs(a);
            },
            ParsedElement::Lexicon(a) => {
                out = lexicon_attrs(a);
            },
            ParsedElement::Lookup(a) => {
                push_text_attr(&mut out, "ref", &a.lookup_ref);
            },
            ParsedElement::Meta(a) => {
                out = meta_attrs(a);
            },
            ParsedElement::Token(a) => {
                push_opt_text_attr(&mut out, "role", &a.role);
            },
            ParsedElement::Word(a) => {
                push_opt_text_attr(&mut out, "role", &a.role);
            },
            ParsedElement::SayAs(a) => {
                out = say_as_attrs(a);
            },
            ParsedElement::Phoneme(a) => {
                out = phoneme_attrs(a);
            },
            ParsedElement::Sub(a) => {
                push_text_attr(&mut out, "alias", &a.alias);
            },
            ParsedElement::Lang(a) => {
                out = lang_attrs(a);
            },
            ParsedElement::Voice(a) => {
                out = voice_attrs(a);
            },
            ParsedElement::Emphasis(a) => {
                match a.level {
                    Some(l) => push_attr(&mut out, "level", &chars_of(l.as_str())),
                    None => {},
                }
            },
            ParsedElement::Break(a) => {
                out = break_attrs(a);
            },
            ParsedElement::Prosody(a) => {
                out = prosody_attrs(a);
            },
            ParsedElement::Audio(a) => {
                out = audio_attrs(a);
            },
            ParsedElement::Mark(a) => {
                push_text_attr(&mut out, "name", &a.name);
            },
            ParsedElement::Custom(c) => {
                push_pairs(&mut out, &c.attributes);
            },
            _ => {},
        }
        assert(out@ =~= attribute_chars(*self));
        out
    }

    /// The attributes as written in the element's start tag, each preceded by a space.
    pub fn attribute_string(&self) -> (r: String)
        ensures
            r@ == attribute_chars(*self),
    {
        string_of(&self.attribute_chars())
    }
}

/// The text of a `desc` element; empty for other elements.
pub open spec fn desc_text(e: ParsedElement) -> Seq<char> {
    match e {
        ParsedElement::Description(t) => t@,
        _ => Seq::empty(),
    }
}

fn dup_opt(o: &Option<String>) -> (r: Option<String>)
    ensures
        r == *o,
{
    match o {
        Some(s) => Some(s.clone()),
        None => None,
    }
}

fn dup_attributes(v: &Vec<Attribute>) -> (r: Vec<Attribute>)
    ensures
        r@ == v@,
{
    let mut r: Vec<Attribute> = Vec::new();
    let mut i: usize = 0;
    while i < v.len()
        invariant
            i <= v.len(),
            r@ == v@.take(i as int),
        decreases v.len() - i,
    {
        r.push(Attribute { name: v[i].name.clone(), value: v[i].value.clone() });
        i += 1;
        assert(r@ =~= v@.take(i as int));
    }
    assert(v@.take(i as int) =~= v@);
    r
}

fn dup_strings(v: &Vec<String>) -> (r: Vec<String>)
    ensures
        r@ == v@,
{
    let mut r: Vec<String> = Vec::new();
    let mut i: usize = 0;
    while i < v.len()
        invariant
            i <= v.len(),
            r@ == v@.take(i as int),
        decreases v.len() - i,
    {
        r.push(v[i].clone());
        i += 1;
        assert(r@ =~= v@.take(i as int));
    }
    assert(v@.take(i as int) =~= v@);
    r
}

fn dup_languages(v: &Vec<LanguageAccentPair>) -> (r: Vec<LanguageAccentPair>)
    ensures
        r@ == v@,
{
    let mut r: Vec<LanguageAccentPair> = Vec::new();
    let mut i: usize = 0;
    while i < v.len()
        invariant
            i <= v.len(),
            r@ == v@.take(i as int),
        decreases v.len() - i,
    {
        r.push(LanguageAccentPair { lang: v[i].lang.clone(), accent: dup_opt(&v[i].accent) });
        i += 1;
        assert(r@ =~= v@.take(i as int));
    }
    assert(v@.take(i as int) =~= v@);
    r
}

fn dup_contour(c: &PitchContour) -> (r: PitchContour)
    ensures
        r.view_elements() == c.view_elements(),
{
    match c {
        PitchContour::Elements(v) => {
            let mut r: Vec<crate::values::ContourElement> = Vec::new();
            let mut i: usize = 0;
            while i < v.len()
                invariant
                    i <= v.len(),
                    r@ == v@.take(i as int),
                decreases v.len() - i,
            {
                r.push(v[i]);
                i += 1;
                assert(r@ =~= v@.take(i as int));
            }
            assert(v@.take(i as int) =~= v@);
            PitchContour::Elements(r)
        },
    }
}

fn dup_alphabet(a: &Option<PhonemeAlphabet>) -> (r: Option<PhonemeAlphabet>)
    ensures
        r == *a,
{
    match a {
        Some(PhonemeAlphabet::Ipa) => Some(PhonemeAlphabet::Ipa),
        Some(PhonemeAlphabet::Other(s)) => Some(PhonemeAlphabet::Other(s.clone())),
        None => None,
    }
}

impl ParsedElement {
    /// A copy of the element, with the same kind, attributes and text.
    pub fn duplicate(&self) -> (r: ParsedElement)
        ensures
            kind_of(r) == kind_of(*self),
            attribute_chars(r) == attribute_chars(*self),
            desc_text(r) == desc_text(*self),
    {
        match self {
            ParsedElement::Speak(a) => ParsedElement::Speak(SpeakAttributes {
                lang: dup_opt(&a.lang),
                base: dup_opt(&a.base),
                on_lang_failure: a.on_lang_failure,
                version: a.version.clone(),
                xml_root_attrs: dup_attributes(&a.xml_root_attrs),
            }),
            ParsedElement::Lexicon(a) => ParsedElement::Lexicon(LexiconAttributes {
                uri: a.uri.clone(),
                xml_id: a.xml_id.clone(),
                ty: dup_opt(&a.ty),
                fetch_timeout: a.fetch_timeout,
            }),
            ParsedElement::Lookup(a) => ParsedElement::Lookup(LookupAttributes { lookup_ref: a.lookup_ref.clone() }),
            ParsedElement::Meta(a) => ParsedElement::Meta(MetaAttributes {
                name: dup_opt(&a.name),
                http_equiv: dup_opt(&a.http_equiv),
                content: a.content.clone(),
            }),
            ParsedElement::Metadata => ParsedElement::Metadata,
            ParsedElement::Paragraph => ParsedElement::Paragraph,
            ParsedElement::Sentence => ParsedElement::Sentence,
            ParsedElement::Token(a) => ParsedElement::Token(TokenAttributes { role: dup_opt(&a.role) }),
            ParsedElement::Word(a) => ParsedElement::Word(TokenAttributes { role: dup_opt(&a.role) }),
            ParsedElement::SayAs(a) => ParsedElement::SayAs(SayAsAttributes {
                interpret_as: a.interpret_as.clone(),
                format: dup_opt(&a.format),
                detail: dup_opt(&a.detail),
            }),
            ParsedElement::Phoneme(a) => ParsedElement::Phoneme(PhonemeAttributes {
                ph: a.ph.clone(),
                alphabet: dup_alphabet(&a.alphabet),
            }),
            ParsedElement::Sub(a) => ParsedElement::Sub(SubAttributes { alias: a.alias.clone() }),
            ParsedElement::Lang(a) => ParsedElement::Lang(LangAttributes {
                lang: a.lang.clone(),
                on_lang_failure: a.on_lang_failure,
            }),
            ParsedElement::Voice(a) => ParsedElement::Voice(VoiceAttributes {
                gender: a.gender,
                age: a.age,
                variant: a.variant,
                name: dup_strings(&a.name),
                languages: dup_languages(&a.languages),
            }),
            ParsedElement::Emphasis(a) => ParsedElement::Emphasis(*a),
            ParsedElement::Break(a) => ParsedElement::Break(*a),
            ParsedElement::Prosody(a) => ParsedElement::Prosody(ProsodyAttributes {
                pitch: a.pitch,
                contour: match &a.contour {
                    Some(c) => Some(dup_contour(c)),
                    None => None,
                },
                range: a.range,
                rate: a.rate,
                duration: a.duration,
                volume: a.volume,
            }),
            ParsedElement::Audio(a) => ParsedElement::Audio(AudioAttributes {
                src: dup_opt(&a.src),
                fetch_timeout: a.fetch_timeout,
                fetch_hint: a.fetch_hint,
                max_age: a.max_age,
                max_stale: a.max_stale,
                clip_begin: a.clip_begin,
                clip_end: a.clip_end,
                repeat_count: a.repeat_count,
                repeat_dur: a.repeat_dur,
                sound_level: a.sound_level,
                speed: a.speed,
            }),
            ParsedElement::Mark(a) => ParsedElement::Mark(MarkAttributes { name: a.name.clone() }),
            ParsedElement::Description(t) => ParsedElement::Description(t.clone()),
            ParsedElement::Custom(c) => ParsedElement::Custom(CustomElement {
                name: c.name.clone(),
                attributes: dup_attributes(&c.attributes),
            }),
        }
    }
}

} // verus!
