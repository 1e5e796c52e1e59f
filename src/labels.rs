//! The closed label vocabularies of SSML attribute values.
use vstd::prelude::*;
use crate::text::{chars_eq, chars_of};
use crate::values::{invalid, parsed_as, Grammar, InvalidValue};

verus! {

/// Strength of a prosodic break.
#[derive(Clone, Copy, Debug, PartialEq, Eq, Hash, Structural)]
pub enum Strength {
    No,
    ExtraWeak,
    Weak,
    Medium,
    Strong,
    ExtraStrong,
}

/// The canonical spelling of each Strength.
pub open spec fn strength_chars(v: Strength) -> Seq<char> {
    match v {
        Strength::No => "none"@,
        Strength::ExtraWeak => "x-weak"@,
        Strength::Weak => "weak"@,
        Strength::Medium => "medium"@,
        Strength::Strong => "strong"@,
        Strength::ExtraStrong => "x-strong"@,
    }
}

/// The Strength spelled `s`, if any.
pub open spec fn spec_parse_strength(s: Seq<char>) -> Option<Strength> {
    if s == "none"@ {
        Some(Strength::No)
    } else if s == "x-weak"@ {
        Some(Strength::ExtraWeak)
    } else if s == "weak"@ {
        Some(Strength::Weak)
    } else if s == "medium"@ {
        Some(Strength::Medium)
    } else if s == "strong"@ {
        Some(Strength::Strong)
    } else if s == "x-strong"@ {
        Some(Strength::ExtraStrong)
    } else {
        None
    }
}

pub fn parse_strength_chars(s: &Vec<char>) -> (r: Option<Strength>)
    ensures
        r == spec_parse_strength(s@),
{
    if chars_eq(s, "none") {
        Some(Strength::No)
    } else if chars_eq(s, "x-weak") {
        Some(Strength::ExtraWeak)
    } else if chars_eq(s, "weak") {
        Some(Strength::Weak)
    } else if chars_eq(s, "medium") {
        Some(Strength::Medium)
    } else if chars_eq(s, "strong") {
        Some(Strength::Strong)
    } else if chars_eq(s, "x-strong") {
        Some(Strength::ExtraStrong)
    } else {
        None
    }
}

/// Every Strength reads back from its spelling.
pub proof fn lemma_strength_round_trip(v: Strength)
    ensures
        spec_parse_strength(strength_chars(v)) == Some(v),
{
    reveal_strlit("none");
    reveal_strlit("x-weak");
    reveal_strlit("weak");
    reveal_strlit("medium");
    reveal_strlit("strong");
    reveal_strlit("x-strong");
    match v {
        Strength::No => {
        },
        Strength::ExtraWeak => {
            assert("x-weak"@.len() != "none"@.len());
        },
        Strength::Weak => {
            assert("weak"@[0] != "none"@[0]);
            assert("weak"@.len() != "x-weak"@.len());
        },
        Strength::Medium => {
            assert("medium"@.len() != "none"@.len());
            assert("medium"@[0] != "x-weak"@[0]);
            assert("medium"@.len() != "weak"@.len());
        },
        Strength::Strong => {
            assert("strong"@.len() != "none"@.len());
            assert("strong"@[0] != "x-weak"@[0]);
            assert("strong"@.len() != "weak"@.len());
            assert("strong"@[0] != "medium"@[0]);
        },
        Strength::ExtraStrong => {
            assert("x-strong"@.len() != "none"@.len());
            assert("x-strong"@.len() != "x-weak"@.len());
            assert("x-strong"@.len() != "weak"@.len());
            assert("x-strong"@.len() != "medium"@.len());
            assert("x-strong"@.len() != "strong"@.len());
        },
    }
}

impl Strength {
    /// The canonical spelling.
    pub fn as_str(&self) -> (r: &'static str)
        ensures
            r@ == strength_chars(*self),
    {
        match self {
            Strength::No => "none",
            Strength::ExtraWeak => "x-weak",
            Strength::Weak => "weak",
            Strength::Medium => "medium",
            Strength::Strong => "strong",
            Strength::ExtraStrong => "x-strong",
        }
    }

    /// The canonical spelling.
    pub fn to_string(&self) -> (r: String)
        ensures
            r@ == strength_chars(*self),
    {
        String::from_str(self.as_str())
    }

}

/// Named pitch levels.
#[derive(Clone, Copy, Debug, PartialEq, Eq, Hash, Structural)]
pub enum PitchStrength {
    XLow,
    Low,
    Medium,
    High,
    XHigh,
    Default,
}

/// The canonical spelling of each PitchStrength.
pub open spec fn pitch_strength_chars(v: PitchStrength) -> Seq<char> {
    match v {
        PitchStrength::XLow => "x-low"@,
        PitchStrength::Low => "low"@,
        PitchStrength::Medium => "medium"@,
        PitchStrength::High => "high"@,
        PitchStrength::XHigh => "x-high"@,
        PitchStrength::Default => "default"@,
    }
}

/// The PitchStrength spelled `s`, if any.
pub open spec fn spec_parse_pitch_strength(s: Seq<char>) -> Option<PitchStrength> {
    if s == "x-low"@ {
        Some(PitchStrength::XLow)
    } else if s == "low"@ {
        Some(PitchStrength::Low)
    } else if s == "medium"@ {
        Some(PitchStrength::Medium)
    } else if s == "high"@ {
        Some(PitchStrength::High)
    } else if s == "x-high"@ {
        Some(PitchStrength::XHigh)
    } else if s == "default"@ {
        Some(PitchStrength::Default)
    } else {
        None
    }
}

pub fn parse_pitch_strength_chars(s: &Vec<char>) -> (r: Option<PitchStrength>)
    ensures
        r == spec_parse_pitch_strength(s@),
{
    if chars_eq(s, "x-low") {
        Some(PitchStrength::XLow)
    } else if chars_eq(s, "low") {
        Some(PitchStrength::Low)
    } else if chars_eq(s, "medium") {
        Some(PitchStrength::Medium)
    } else if chars_eq(s, "high") {
        Some(PitchStrength::High)
    } else if chars_eq(s, "x-high") {
        Some(PitchStrength::XHigh)
    } else if chars_eq(s, "default") {
        Some(PitchStrength::Default)
    } else {
        None
    }
}

/// Every PitchStrength reads back from its spelling.
pub proof fn lemma_pitch_strength_round_trip(v: PitchStrength)
    ensures
        spec_parse_pitch_strength(pitch_strength_chars(v)) == Some(v),
{
    reveal_strlit("x-low");
    reveal_strlit("low");
    reveal_strlit("medium");
    reveal_strlit("high");
    reveal_strlit("x-high");
    reveal_strlit("default");
    match v {
        PitchStrength::XLow => {
        },
        PitchStrength::Low => {
            assert("low"@.len() != "x-low"@.len());
        },
        PitchStrength::Medium => {
            assert("medium"@.len() != "x-low"@.len());
            assert("medium"@.len() != "low"@.len());
        },
        PitchStrength::High => {
            assert("high"@.len() != "x-low"@.len());
            assert("high"@.len() != "low"@.len());
            assert("high"@.len() != "medium"@.len());
        },
        PitchStrength::XHigh => {
            assert("x-high"@.len() != "x-low"@.len());
            assert("x-high"@.len() != "low"@.len());
            assert("x-high"@[0] != "medium"@[0]);
            assert("x-high"@.len() != "high"@.len());
        },
        PitchStrength::Default => {
            assert("default"@.len() != "x-low"@.len());
            assert("default"@.len() != "low"@.len());
            assert("default"@.len() != "medium"@.len());
            assert("default"@.len() != "high"@.len());
            assert("default"@.len() != "x-high"@.len());
        },
    }
}

impl PitchStrength {
    /// The canonical spelling.
    pub fn as_str(&self) -> (r: &'static str)
        ensures
            r@ == pitch_strength_chars(*self),
    {
        match self {
            PitchStrength::XLow => "x-low",
            PitchStrength::Low => "low",
            PitchStrength::Medium => "medium",
            PitchStrength::High => "high",
            PitchStrength::XHigh => "x-high",
            PitchStrength::Default => "default",
        }
    }

    /// The canonical spelling.
    pub fn to_string(&self) -> (r: String)
        ensures
            r@ == pitch_strength_chars(*self),
    {
        String::from_str(self.as_str())
    }

    /// Reads one of the labels.
    pub fn from_str(s: &str) -> (r: Result<PitchStrength, InvalidValue>)
        ensures
            parsed_as(r, spec_parse_pitch_strength(s@), Grammar::PitchStrength, s@),
    {
        match parse_pitch_strength_chars(&chars_of(s)) {
            Some(v) => Ok(v),
            None => Err(invalid(Grammar::PitchStrength, s)),
        }
    }
}

/// Named volume levels.
#[derive(Clone, Copy, Debug, PartialEq, Eq, Hash, Structural)]
pub enum VolumeStrength {
    Silent,
    XSoft,
    Soft,
    Medium,
    Loud,
    XLoud,
    Default,
}

/// The canonical spelling of each VolumeStrength.
pub open spec fn volume_strength_chars(v: VolumeStrength) -> Seq<char> {
    match v {
        VolumeStrength::Silent => "silent"@,
        VolumeStrength::XSoft => "x-soft"@,
        VolumeStrength::Soft => "soft"@,
        VolumeStrength::Medium => "medium"@,
        VolumeStrength::Loud => "loud"@,
        VolumeStrength::XLoud => "x-loud"@,
        VolumeStrength::Default => "default"@,
    }
}

/// The VolumeStrength spelled `s`, if any.
pub open spec fn spec_parse_volume_strength(s: Seq<char>) -> Option<VolumeStrength> {
    if s == "silent"@ {
        Some(VolumeStrength::Silent)
    } else if s == "x-soft"@ {
        Some(VolumeStrength::XSoft)
    } else if s == "soft"@ {
        Some(VolumeStrength::Soft)
    } else if s == "medium"@ {
        Some(VolumeStrength::Medium)
    } else if s == "loud"@ {
        Some(VolumeStrength::Loud)
    } else if s == "x-loud"@ {
        Some(VolumeStrength::XLoud)
    } else if s == "default"@ {
        Some(VolumeStrength::Default)
    } else {
        None
    }
}

pub fn parse_volume_strength_chars(s: &Vec<char>) -> (r: Option<VolumeStrength>)
    ensures
        r == spec_parse_volume_strength(s@),
{
    if chars_eq(s, "silent") {
        Some(VolumeStrength::Silent)
    } else if chars_eq(s, "x-soft") {
        Some(VolumeStrength::XSoft)
    } else if chars_eq(s, "soft") {
        Some(VolumeStrength::Soft)
    } else if chars_eq(s, "medium") {
        Some(VolumeStrength::Medium)
    } else if chars_eq(s, "loud") {
        Some(VolumeStrength::Loud)
    } else if chars_eq(s, "x-loud") {
        Some(VolumeStrength::XLoud)
    } else if chars_eq(s, "default") {
        Some(VolumeStrength::Default)
    } else {
        None
    }
}

/// Every VolumeStrength reads back from its spelling.
pub proof fn lemma_volume_strength_round_trip(v: VolumeStrength)
    ensures
        spec_parse_volume_strength(volume_strength_chars(v)) == Some(v),
{
    reveal_strlit("silent");
    reveal_strlit("x-soft");
    reveal_strlit("soft");
    reveal_strlit("medium");
    reveal_strlit("loud");
    reveal_strlit("x-loud");
    reveal_strlit("default");
    match v {
        VolumeStrength::Silent => {
        },
        VolumeStrength::XSoft => {
            assert("x-soft"@[0] != "silent"@[0]);
        },
        VolumeStrength::Soft => {
            assert("soft"@.len() != "silent"@.len());
            assert("soft"@.len() != "x-soft"@.len());
        },
        VolumeStrength::Medium => {
            assert("medium"@[0] != "silent"@[0]);
            assert("medium"@[0] != "x-soft"@[0]);
            assert("medium"@.len() != "soft"@.len());
        },
        VolumeStrength::Loud => {
            assert("loud"@.len() != "silent"@.len());
            assert("loud"@.len() != "x-soft"@.len());
            assert("loud"@[0] != "soft"@[0]);
            assert("loud"@.len() != "medium"@.len());
        },
        VolumeStrength::XLoud => {
            assert("x-loud"@[0] != "silent"@[0]);
            assert("x-loud"@[2] != "x-soft"@[2]);
            assert("x-loud"@.len() != "soft"@.len());
            assert("x-loud"@[0] != "medium"@[0]);
            assert("x-loud"@.len() != "loud"@.len());
        },
        VolumeStrength::Default => {
            assert("default"@.len() != "silent"@.len());
            assert("default"@.len() != "x-soft"@.len());
            assert("default"@.len() != "soft"@.len());
            assert("default"@.len() != "medium"@.len());
            assert("default"@.len() != "loud"@.len());
            assert("default"@.len() != "x-loud"@.len());
        },
    }
}

impl VolumeStrength {
    /// The canonical spelling.
    pub fn as_str(&self) -> (r: &'static str)
        ensures
            r@ == volume_strength_chars(*self),
    {
        match self {
            VolumeStrength::Silent => "silent",
            VolumeStrength::XSoft => "x-soft",
            VolumeStrength::Soft => "soft",
            VolumeStrength::Medium => "medium",
            VolumeStrength::Loud => "loud",
            VolumeStrength::XLoud => "x-loud",
            VolumeStrength::Default => "default",
        }
    }

    /// The canonical spelling.
    pub fn to_string(&self) -> (r: String)
        ensures
            r@ == volume_strength_chars(*self),
    {
        String::from_str(self.as_str())
    }

    /// Reads one of the labels.
    pub fn from_str(s: &str) -> (r: Result<VolumeStrength, InvalidValue>)
        ensures
            parsed_as(r, spec_parse_volume_strength(s@), Grammar::VolumeStrength, s@),
    {
        match parse_volume_strength_chars(&chars_of(s)) {
            Some(v) => Ok(v),
            None => Err(invalid(Grammar::VolumeStrength, s)),
        }
    }
}

/// Named speaking rates.
#[derive(Clone, Copy, Debug, PartialEq, Eq, Hash, Structural)]
pub enum RateStrength {
    XSlow,
    Slow,
    Medium,
    Fast,
    XFast,
    Default,
}

/// The canonical spelling of each RateStrength.
pub open spec fn rate_strength_chars(v: RateStrength) -> Seq<char> {
    match v {
        RateStrength::XSlow => "x-slow"@,
        RateStrength::Slow => "slow"@,
        RateStrength::Medium => "medium"@,
        RateStrength::Fast => "fast"@,
        RateStrength::XFast => "x-fast"@,
        RateStrength::Default => "default"@,
    }
}

/// The RateStrength spelled `s`, if any.
pub open spec fn spec_parse_rate_strength(s: Seq<char>) -> Option<RateStrength> {
    if s == "x-slow"@ {
        Some(RateStrength::XSlow)
    } else if s == "slow"@ {
        Some(RateStrength::Slow)
    } else if s == "medium"@ {
        Some(RateStrength::Medium)
    } else if s == "fast"@ {
        Some(RateStrength::Fast)
    } else if s == "x-fast"@ {
        Some(RateStrength::XFast)
    } else if s == "default"@ {
        Some(RateStrength::Default)
    } else {
        None
    }
}

pub fn parse_rate_strength_chars(s: &Vec<char>) -> (r: Option<RateStrength>)
    ensures
        r == spec_parse_rate_strength(s@),
{
    if chars_eq(s, "x-slow") {
        Some(RateStrength::XSlow)
    } else if chars_eq(s, "slow") {
        Some(RateStrength::Slow)
    } else if chars_eq(s, "medium") {
        Some(RateStrength::Medium)
    } else if chars_eq(s, "fast") {
        Some(RateStrength::Fast)
    } else if chars_eq(s, "x-fast") {
        Some(RateStrength::XFast)
    } else if chars_eq(s, "default") {
        Some(RateStrength::Default)
    } else {
        None
    }
}

/// Every RateStrength reads back from its spelling.
pub proof fn lemma_rate_strength_round_trip(v: RateStrength)
    ensures
        spec_parse_rate_strength(rate_strength_chars(v)) == Some(v),
{
    reveal_strlit("x-slow");
    reveal_strlit("slow");
    reveal_strlit("medium");
    reveal_strlit("fast");
    reveal_strlit("x-fast");
    reveal_strlit("default");
    match v {
        RateStrength::XSlow => {
        },
        RateStrength::Slow => {
            assert("slow"@.len() != "x-slow"@.len());
        },
        RateStrength::Medium => {
            assert("medium"@[0] != "x-slow"@[0]);
            assert("medium"@.len() != "slow"@.len());
        },
        RateStrength::Fast => {
            assert("fast"@.len() != "x-slow"@.len());
            assert("fast"@[0] != "slow"@[0]);
            assert("fast"@.len() != "medium"@.len());
        },
        RateStrength::XFast => {
            assert("x-fast"@[2] != "x-slow"@[2]);
            assert("x-fast"@.len() != "slow"@.len());
            assert("x-fast"@[0] != "medium"@[0]);
            assert("x-fast"@.len() != "fast"@.len());
        },
        RateStrength::Default => {
            assert("default"@.len() != "x-slow"@.len());
            assert("default"@.len() != "slow"@.len());
            assert("default"@.len() != "medium"@.len());
            assert("default"@.len() != "fast"@.len());
            assert("default"@.len() != "x-fast"@.len());
        },
    }
}

impl RateStrength {
    /// The canonical spelling.
    pub fn as_str(&self) -> (r: &'static str)
        ensures
            r@ == rate_strength_chars(*self),
    {
        match self {
            RateStrength::XSlow => "x-slow",
            RateStrength::Slow => "slow",
            RateStrength::Medium => "medium",
            RateStrength::Fast => "fast",
            RateStrength::XFast => "x-fast",
            RateStrength::Default => "default",
        }
    }

    /// The canonical spelling.
    pub fn to_string(&self) -> (r: String)
        ensures
            r@ == rate_strength_chars(*self),
    {
        String::from_str(self.as_str())
    }

    /// Reads one of the labels.
    pub fn from_str(s: &str) -> (r: Result<RateStrength, InvalidValue>)
        ensures
            parsed_as(r, spec_parse_rate_strength(s@), Grammar::RateStrength, s@),
    {
        match parse_rate_strength_chars(&chars_of(s)) {
            Some(v) => Ok(v),
            None => Err(invalid(Grammar::RateStrength, s)),
        }
    }
}

/// Strength of an emphasis.
#[derive(Clone, Copy, Debug, PartialEq, Eq, Hash, Structural)]
pub enum EmphasisLevel {
    Strong,
    Moderate,
    NoEmphasis,
    Reduced,
}

/// The canonical spelling of each EmphasisLevel.
pub open spec fn emphasis_level_chars(v: EmphasisLevel) -> Seq<char> {
    match v {
        EmphasisLevel::Strong => "strong"@,
        EmphasisLevel::Moderate => "moderate"@,
        EmphasisLevel::NoEmphasis => "none"@,
        EmphasisLevel::Reduced => "reduced"@,
    }
}

/// The EmphasisLevel spelled `s`, if any.
pub open spec fn spec_parse_emphasis_level(s: Seq<char>) -> Option<EmphasisLevel> {
    if s == "strong"@ {
        Some(EmphasisLevel::Strong)
    } else if s == "moderate"@ {
        Some(EmphasisLevel::Moderate)
    } else if s == "none"@ {
        Some(EmphasisLevel::NoEmphasis)
    } else if s == "reduced"@ {
        Some(EmphasisLevel::Reduced)
    } else {
        None
    }
}

pub fn parse_emphasis_level_chars(s: &Vec<char>) -> (r: Option<EmphasisLevel>)
    ensures
        r == spec_parse_emphasis_level(s@),
{
    if chars_eq(s, "strong") {
        Some(EmphasisLevel::Strong)
    } else if chars_eq(s, "moderate") {
        Some(EmphasisLevel::Moderate)
    } else if chars_eq(s, "none") {
        Some(EmphasisLevel::NoEmphasis)
    } else if chars_eq(s, "reduced") {
        Some(EmphasisLevel::Reduced)
    } else {
        None
    }
}

/// Every EmphasisLevel reads back from its spelling.
pub proof fn lemma_emphasis_level_round_trip(v: EmphasisLevel)
    ensures
        spec_parse_emphasis_level(emphasis_level_chars(v)) == Some(v),
{
    reveal_strlit("strong");
    reveal_strlit("moderate");
    reveal_strlit("none");
    reveal_strlit("reduced");
    match v {
        EmphasisLevel::Strong => {
        },
        EmphasisLevel::Moderate => {
            assert("moderate"@.len() != "strong"@.len());
        },
        EmphasisLevel::NoEmphasis => {
            assert("none"@.len() != "strong"@.len());
            assert("none"@.len() != "moderate"@.len());
        },
        EmphasisLevel::Reduced => {
            assert("reduced"@.len() != "strong"@.len());
            assert("reduced"@.len() != "moderate"@.len());
            assert("reduced"@.len() != "none"@.len());
        },
    }
}

impl EmphasisLevel {
    /// The canonical spelling.
    pub fn as_str(&self) -> (r: &'static str)
        ensures
            r@ == emphasis_level_chars(*self),
    {
        match self {
            EmphasisLevel::Strong => "strong",
            EmphasisLevel::Moderate => "moderate",
            EmphasisLevel::NoEmphasis => "none",
            EmphasisLevel::Reduced => "reduced",
        }
    }

    /// The canonical spelling.
    pub fn to_string(&self) -> (r: String)
        ensures
            r@ == emphasis_level_chars(*self),
    {
        String::from_str(self.as_str())
    }

    /// Reads one of the labels.
    pub fn from_str(s: &str) -> (r: Result<EmphasisLevel, InvalidValue>)
        ensures
            parsed_as(r, spec_parse_emphasis_level(s@), Grammar::EmphasisLevel, s@),
    {
        match parse_emphasis_level_chars(&chars_of(s)) {
            Some(v) => Ok(v),
            None => Err(invalid(Grammar::EmphasisLevel, s)),
        }
    }
}

/// Preferred gender of a voice.
#[derive(Clone, Copy, Debug, PartialEq, Eq, Hash, Structural)]
pub enum Gender {
    Male,
    Female,
    Neutral,
}

/// The canonical spelling of each Gender.
pub open spec fn gender_chars(v: Gender) -> Seq<char> {
    match v {
        Gender::Male => "male"@,
        Gender::Female => "female"@,
        Gender::Neutral => "neutral"@,
    }
}

/// The Gender spelled `s`, if any.
pub open spec fn spec_parse_gender(s: Seq<char>) -> Option<Gender> {
    if s == "male"@ {
        Some(Gender::Male)
    } else if s == "female"@ {
        Some(Gender::Female)
    } else if s == "neutral"@ {
        Some(Gender::Neutral)
    } else {
        None
    }
}

pub fn parse_gender_chars(s: &Vec<char>) -> (r: Option<Gender>)
    ensures
        r == spec_parse_gender(s@),
{
    if chars_eq(s, "male") {
        Some(Gender::Male)
    } else if chars_eq(s, "female") {
        Some(Gender::Female)
    } else if chars_eq(s, "neutral") {
        Some(Gender::Neutral)
    } else {
        None
    }
}

/// Every Gender reads back from its spelling.
pub proof fn lemma_gender_round_trip(v: Gender)
    ensures
        spec_parse_gender(gender_chars(v)) == Some(v),
{
    reveal_strlit("male");
    reveal_strlit("female");
    reveal_strlit("neutral");
    match v {
        Gender::Male => {
        },
        Gender::Female => {
            assert("female"@.len() != "male"@.len());
        },
        Gender::Neutral => {
            assert("neutral"@.len() != "male"@.len());
            assert("neutral"@.len() != "female"@.len());
        },
    }
}

impl Gender {
    /// The canonical spelling.
    pub fn as_str(&self) -> (r: &'static str)
        ensures
            r@ == gender_chars(*self),
    {
        match self {
            Gender::Male => "male",
            Gender::Female => "female",
            Gender::Neutral => "neutral",
        }
    }

    /// The canonical spelling.
    pub fn to_string(&self) -> (r: String)
        ensures
            r@ == gender_chars(*self),
    {
        String::from_str(self.as_str())
    }

    /// Reads one of the labels.
    pub fn from_str(s: &str) -> (r: Result<Gender, InvalidValue>)
        ensures
            parsed_as(r, spec_parse_gender(s@), Grammar::Gender, s@),
    {
        match parse_gender_chars(&chars_of(s)) {
            Some(v) => Ok(v),
            None => Err(invalid(Grammar::Gender, s)),
        }
    }
}

/// What a processor does when it cannot speak a language.
#[derive(Clone, Copy, Debug, PartialEq, Eq, Hash, Structural)]
pub enum OnLanguageFailure {
    ChangeVoice,
    IgnoreText,
    IgnoreLang,
    ProcessorChoice,
}

/// The canonical spelling of each OnLanguageFailure.
pub open spec fn on_language_failure_chars(v: OnLanguageFailure) -> Seq<char> {
    match v {
        OnLanguageFailure::ChangeVoice => "changevoice"@,
        OnLanguageFailure::IgnoreText => "ignoretext"@,
        OnLanguageFailure::IgnoreLang => "ignorelang"@,
        OnLanguageFailure::ProcessorChoice => "processorchoice"@,
    }
}

/// The OnLanguageFailure spelled `s`, if any.
pub open spec fn spec_parse_on_language_failure(s: Seq<char>) -> Option<OnLanguageFailure> {
    if s == "changevoice"@ {
        Some(OnLanguageFailure::ChangeVoice)
    } else if s == "ignoretext"@ {
        Some(OnLanguageFailure::IgnoreText)
    } else if s == "ignorelang"@ {
        Some(OnLanguageFailure::IgnoreLang)
    } else if s == "processorchoice"@ {
        Some(OnLanguageFailure::ProcessorChoice)
    } else {
        None
    }
}

pub fn parse_on_language_failure_chars(s: &Vec<char>) -> (r: Option<OnLanguageFailure>)
    ensures
        r == spec_parse_on_language_failure(s@),
{
    if chars_eq(s, "changevoice") {
        Some(OnLanguageFailure::ChangeVoice)
    } else if chars_eq(s, "ignoretext") {
        Some(OnLanguageFailure::IgnoreText)
    } else if chars_eq(s, "ignorelang") {
        Some(OnLanguageFailure::IgnoreLang)
    } else if chars_eq(s, "processorchoice") {
        Some(OnLanguageFailure::ProcessorChoice)
    } else {
        None
    }
}

/// Every OnLanguageFailure reads back from its spelling.
pub proof fn lemma_on_language_failure_round_trip(v: OnLanguageFailure)
    ensures
        spec_parse_on_language_failure(on_language_failure_chars(v)) == Some(v),
{
    reveal_strlit("changevoice");
    reveal_strlit("ignoretext");
    reveal_strlit("ignorelang");
    reveal_strlit("processorchoice");
    match v {
        OnLanguageFailure::ChangeVoice => {
        },
        OnLanguageFailure::IgnoreText => {
            assert("ignoretext"@.len() != "changevoice"@.len());
        },
        OnLanguageFailure::IgnoreLang => {
            assert("ignorelang"@.len() != "changevoice"@.len());
            assert("ignorelang"@[6] != "ignoretext"@[6]);
        },
        OnLanguageFailure::ProcessorChoice => {
            assert("processorchoice"@.len() != "changevoice"@.len());
            assert("processorchoice"@.len() != "ignoretext"@.len());
            assert("processorchoice"@.len() != "ignorelang"@.len());
        },
    }
}

impl OnLanguageFailure {
    /// The canonical spelling.
    pub fn as_str(&self) -> (r: &'static str)
        ensures
            r@ == on_language_failure_chars(*self),
    {
        match self {
            OnLanguageFailure::ChangeVoice => "changevoice",
            OnLanguageFailure::IgnoreText => "ignoretext",
            OnLanguageFailure::IgnoreLang => "ignorelang",
            OnLanguageFailure::ProcessorChoice => "processorchoice",
        }
    }

    /// The canonical spelling.
    pub fn to_string(&self) -> (r: String)
        ensures
            r@ == on_language_failure_chars(*self),
    {
        String::from_str(self.as_str())
    }

    /// Reads one of the labels.
    pub fn from_str(s: &str) -> (r: Result<OnLanguageFailure, InvalidValue>)
        ensures
            parsed_as(r, spec_parse_on_language_failure(s@), Grammar::OnLanguageFailure, s@),
    {
        match parse_on_language_failure_chars(&chars_of(s)) {
            Some(v) => Ok(v),
            None => Err(invalid(Grammar::OnLanguageFailure, s)),
        }
    }
}

/// When an audio source is fetched.
#[derive(Clone, Copy, Debug, PartialEq, Eq, Hash, Structural)]
pub enum FetchHint {
    Prefetch,
    Safe,
}

/// The canonical spelling of each FetchHint.
pub open spec fn fetch_hint_chars(v: FetchHint) -> Seq<char> {
    match v {
        FetchHint::Prefetch => "prefetch"@,
        FetchHint::Safe => "safe"@,
    }
}

/// The FetchHint spelled `s`, if any.
pub open spec fn spec_parse_fetch_hint(s: Seq<char>) -> Option<FetchHint> {
    if s == "prefetch"@ {
        Some(FetchHint::Prefetch)
    } else if s == "safe"@ {
        Some(FetchHint::Safe)
    } else {
        None
    }
}

pub fn parse_fetch_hint_chars(s: &Vec<char>) -> (r: Option<FetchHint>)
    ensures
        r == spec_parse_fetch_hint(s@),
{
    if chars_eq(s, "prefetch") {
        Some(FetchHint::Prefetch)
    } else if chars_eq(s, "safe") {
        Some(FetchHint::Safe)
    } else {
        None
    }
}

/// Every FetchHint reads back from its spelling.
pub proof fn lemma_fetch_hint_round_trip(v: FetchHint)
    ensures
        spec_parse_fetch_hint(fetch_hint_chars(v)) == Some(v),
{
    reveal_strlit("prefetch");
    reveal_strlit("safe");
    match v {
        FetchHint::Prefetch => {
        },
        FetchHint::Safe => {
            assert("safe"@.len() != "prefetch"@.len());
        },
    }
}

impl FetchHint {
    /// The canonical spelling.
    pub fn as_str(&self) -> (r: &'static str)
        ensures
            r@ == fetch_hint_chars(*self),
    {
        match self {
            FetchHint::Prefetch => "prefetch",
            FetchHint::Safe => "safe",
        }
    }

    /// The canonical spelling.
    pub fn to_string(&self) -> (r: String)
        ensures
            r@ == fetch_hint_chars(*self),
    {
        String::from_str(self.as_str())
    }

    /// Reads one of the labels.
    pub fn from_str(s: &str) -> (r: Result<FetchHint, InvalidValue>)
        ensures
            parsed_as(r, spec_parse_fetch_hint(s@), Grammar::FetchHint, s@),
    {
        match parse_fetch_hint_chars(&chars_of(s)) {
            Some(v) => Ok(v),
            None => Err(invalid(Grammar::FetchHint, s)),
        }
    }
}

} // verus!
