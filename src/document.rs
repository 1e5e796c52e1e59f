//! The parsed document: its text, its spans and its event log, with the invariants that tie
//! them together.
use vstd::prelude::*;
use crate::elements::{kind_of, ParsedElement, SsmlElement};

verus! {

/// A region of the document's text that an element applies to.
#[derive(Clone, Debug, PartialEq, Eq)]
pub struct Span {
    /// Index of the first character, counted in Unicode scalar values.
    pub start: usize,
    /// Index one past the last character, counted in Unicode scalar values.
    pub end: usize,
    /// The element.
    pub element: ParsedElement,
}

/// Span order: by start ascending, then by end descending.
pub open spec fn span_ordering(a: Span, b: Span) -> core::cmp::Ordering {
    if a.start < b.start {
        core::cmp::Ordering::Less
    } else if a.start > b.start {
        core::cmp::Ordering::Greater
    } else if a.end > b.end {
        core::cmp::Ordering::Less
    } else if a.end < b.end {
        core::cmp::Ordering::Greater
    } else {
        core::cmp::Ordering::Equal
    }
}

impl PartialOrd for Span {
    fn partial_cmp(&self, other: &Span) -> (r: Option<core::cmp::Ordering>) {
        if self.start < other.start {
            Some(core::cmp::Ordering::Less)
        } else if self.start > other.start {
            Some(core::cmp::Ordering::Greater)
        } else if self.end > other.end {
            Some(core::cmp::Ordering::Less)
        } else if self.end < other.end {
            Some(core::cmp::Ordering::Greater)
        } else {
            Some(core::cmp::Ordering::Equal)
        }
    }
}

impl vstd::std_specs::cmp::PartialOrdSpecImpl for Span {
    open spec fn obeys_partial_cmp_spec() -> bool {
        true
    }

    open spec fn partial_cmp_spec(&self, other: &Span) -> Option<core::cmp::Ordering> {
        Some(span_ordering(*self, *other))
    }
}

impl Span {
    /// Whether this span may contain `other`: this element may contain the other's kind and
    /// its range covers the other's. The parser's ordering of spans decides the rest.
    pub fn maybe_contains(&self, other: &Span) -> (r: bool)
        ensures
            r == (kind_of(self.element).spec_can_contain(&kind_of(other.element))
                && self.start <= other.start && self.end >= other.end),
    {
        self.element.can_contain(&other.element) && (self.start <= other.start && self.end >= other.end)
    }
}

/// One entry of the event log, in document order.
#[derive(Clone, Debug, PartialEq, Eq)]
pub enum ParserLogEvent {
    /// A run of the document's text, as character indices `[start, end)`.
    Text(usize, usize),
    /// An open tag.
    Open(ParsedElement),
    /// A close tag, carrying the element it closes.
    Close(ParsedElement),
    /// An empty-element tag such as `<break/>`.
    Empty(ParsedElement),
}

/// Where the text runs of `log` end, when they tile the text from index 0 without gaps.
pub open spec fn text_cursor(log: Seq<ParserLogEvent>) -> Option<int>
    decreases log.len(),
{
    if log.len() == 0 {
        Some(0)
    } else {
        match text_cursor(log.drop_last()) {
            None => None,
            Some(c) => match log.last() {
                ParserLogEvent::Text(s, e) => if s == c && s <= e { Some(e as int) } else { None },
                _ => Some(c),
            },
        }
    }
}

/// The kinds left open after the events of `log`, when every close matches the innermost
/// open element.
pub open spec fn open_kinds(log: Seq<ParserLogEvent>) -> Option<Seq<SsmlElement>>
    decreases log.len(),
{
    if log.len() == 0 {
        Some(Seq::empty())
    } else {
        match open_kinds(log.drop_last()) {
            None => None,
            Some(st) => match log.last() {
                ParserLogEvent::Open(e) => Some(st.push(kind_of(e))),
                ParserLogEvent::Close(e) => if st.len() > 0 && st.last() == kind_of(e) {
                    Some(st.drop_last())
                } else {
                    None
                },
                _ => Some(st),
            },
        }
    }
}

/// The text runs of `log`, read from `text` and concatenated.
pub open spec fn logged_text(log: Seq<ParserLogEvent>, text: Seq<char>) -> Seq<char>
    decreases log.len(),
{
    if log.len() == 0 {
        Seq::empty()
    } else {
        logged_text(log.drop_last(), text) + match log.last() {
            ParserLogEvent::Text(s, e) => text.subrange(s as int, e as int),
            _ => Seq::empty(),
        }
    }
}

/// Spans ordered by start, and by end descending when they start together.
pub open spec fn span_le(a: Span, b: Span) -> bool {
    a.start < b.start || (a.start == b.start && a.end >= b.end)
}

pub open spec fn spans_sorted(s: Seq<Span>) -> bool {
    forall|i: int, j: int| 0 <= i < j < s.len() ==> span_le(#[trigger] s[i], #[trigger] s[j])
}

pub open spec fn spans_within(s: Seq<Span>, n: int) -> bool {
    forall|i: int| 0 <= i < s.len() ==> (#[trigger] s[i]).start <= s[i].end && s[i].end <= n
}

/// When the text runs tile `text` up to `n`, they spell its first `n` characters.
pub proof fn lemma_logged_text(log: Seq<ParserLogEvent>, text: Seq<char>)
    requires
        text_cursor(log) is Some,
        text_cursor(log)->0 <= text.len(),
    ensures
        logged_text(log, text) == text.take(text_cursor(log)->0),
    decreases log.len(),
{
    if log.len() > 0 {
        let prev = log.drop_last();
        lemma_text_cursor_monotone(log);
        lemma_logged_text(prev, text);
        match log.last() {
            ParserLogEvent::Text(s, e) => {
                assert(text.take(s as int) + text.subrange(s as int, e as int) =~= text.take(e as int));
            },
            _ => {
                assert(logged_text(log, text) =~= logged_text(prev, text));
            },
        }
    }
}

pub proof fn lemma_text_cursor_monotone(log: Seq<ParserLogEvent>)
    requires
        log.len() > 0,
        text_cursor(log) is Some,
    ensures
        text_cursor(log.drop_last()) is Some,
        text_cursor(log.drop_last())->0 <= text_cursor(log)->0,
        text_cursor(log)->0 >= 0,
    decreases log.len(),
{
    if log.len() > 1 {
        lemma_text_cursor_monotone(log.drop_last());
    }
}

/// A parsed SSML document: the synthesisable text with all markup removed, the spans of the
/// elements over that text, and the log of markup events in document order.
#[derive(Debug)]
pub struct Ssml {
    pub(crate) text: String,
    pub(crate) tags: Vec<Span>,
    pub(crate) event_log: Vec<ParserLogEvent>,
}

impl Ssml {
    #[verifier::type_invariant]
    closed spec fn inv(&self) -> bool {
        self.wf()
    }

    /// The document's text.
    pub closed spec fn text_view(&self) -> Seq<char> {
        self.text@
    }

    /// The document's spans.
    pub closed spec fn tags_view(&self) -> Seq<Span> {
        self.tags@
    }

    /// The document's event log.
    pub closed spec fn log_view(&self) -> Seq<ParserLogEvent> {
        self.event_log@
    }

    /// The invariants of a parsed document: the text runs of the log tile the text, every
    /// open tag is closed by a later close of the same kind with proper nesting, and the spans
    /// lie within the text in `(start ascending, end descending)` order.
    pub open spec fn wf(&self) -> bool {
        &&& text_cursor(self.log_view()) == Some(self.text_view().len() as int)
        &&& open_kinds(self.log_view()) == Some(Seq::<SsmlElement>::empty())
        &&& spans_within(self.tags_view(), self.text_view().len() as int)
        &&& spans_sorted(self.tags_view())
    }

    pub(crate) fn new(text: String, tags: Vec<Span>, event_log: Vec<ParserLogEvent>) -> (r: Ssml)
        requires
            text_cursor(event_log@) == Some(text@.len() as int),
            open_kinds(event_log@) == Some(Seq::<SsmlElement>::empty()),
            spans_within(tags@, text@.len() as int),
            spans_sorted(tags@),
        ensures
            r.text_view() == text@,
            r.tags_view() == tags@,
            r.log_view() == event_log@,
    {
        Ssml { text, tags, event_log }
    }

    /// Every document satisfies the invariants.
    pub(crate) fn well_formed(&self)
        ensures
            self.wf(),
    {
        proof { use_type_invariant(self); }
    }

    /// Gets the text with all the SSML tags stripped.
    pub fn get_text(&self) -> (r: &str)
        ensures
            r@ == self.text_view(),
    {
        self.text.as_str()
    }

    /// The text within a span.
    pub fn get_text_from_span(&self, span: &Span) -> (r: &str)
        requires
            span.start <= span.end <= self.text_view().len(),
        ensures
            r@ == self.text_view().subrange(span.start as int, span.end as int),
    {
        self.text.as_str().substring_char(span.start, span.end)
    }

    /// The spans of the document's elements, ordered by start and, for equal starts, outer
    /// before inner.
    pub fn tags(&self) -> (r: &Vec<Span>)
        ensures
            r@ == self.tags_view(),
    {
        &self.tags
    }

    /// The event log in document order.
    pub fn event_log(&self) -> (r: &Vec<ParserLogEvent>)
        ensures
            r@ == self.log_view(),
    {
        &self.event_log
    }
}

impl Clone for Ssml {
    fn clone(&self) -> (r: Ssml) {
        proof { use_type_invariant(self); }
        let mut tags: Vec<Span> = Vec::new();
        let mut i: usize = 0;
        while i < self.tags.len()
            invariant
                i <= self.tags@.len(),
                tags@.len() == i,
                forall|j: int| 0 <= j < i ==> (#[trigger] tags@[j]).start == self.tags@[j].start && tags@[j].end == self.tags@[j].end,
            decreases self.tags@.len() - i,
        {
            let t = &self.tags[i];
            tags.push(Span { start: t.start, end: t.end, element: t.element.duplicate() });
            i += 1;
        }
        let mut log: Vec<ParserLogEvent> = Vec::new();
        let mut k: usize = 0;
        while k < self.event_log.len()
            invariant
                k <= self.event_log@.len(),
                log@.len() == k,
                forall|j: int| 0 <= j < k ==> same_shape(#[trigger] log@[j], self.event_log@[j]),
            decreases self.event_log@.len() - k,
        {
            let ev = match &self.event_log[k] {
                ParserLogEvent::Text(a, b) => ParserLogEvent::Text(*a, *b),
                ParserLogEvent::Open(e) => ParserLogEvent::Open(e.duplicate()),
                ParserLogEvent::Close(e) => ParserLogEvent::Close(e.duplicate()),
                ParserLogEvent::Empty(e) => ParserLogEvent::Empty(e.duplicate()),
            };
            log.push(ev);
            k += 1;
        }
        proof {
            lemma_same_shape_logs(log@, self.event_log@);
            assert(spans_sorted(tags@)) by {
                assert forall|a: int, b: int| 0 <= a < b < tags@.len() implies span_le(#[trigger] tags@[a], #[trigger] tags@[b]) by {
                    assert(span_le(self.tags@[a], self.tags@[b]));
                }
            }
        }
        Ssml { text: self.text.clone(), tags, event_log: log }
    }
}

/// Two log events with the same text range, or elements of the same kind.
pub open spec fn same_shape(a: ParserLogEvent, b: ParserLogEvent) -> bool {
    match (a, b) {
        (ParserLogEvent::Text(s1, e1), ParserLogEvent::Text(s2, e2)) => s1 == s2 && e1 == e2,
        (ParserLogEvent::Open(x), ParserLogEvent::Open(y)) => kind_of(x) == kind_of(y),
        (ParserLogEvent::Close(x), ParserLogEvent::Close(y)) => kind_of(x) == kind_of(y),
        (ParserLogEvent::Empty(_), ParserLogEvent::Empty(_)) => true,
        _ => false,
    }
}

proof fn lemma_same_shape_logs(a: Seq<ParserLogEvent>, b: Seq<ParserLogEvent>)
    requires
        a.len() == b.len(),
        forall|j: int| 0 <= j < a.len() ==> same_shape(#[trigger] a[j], b[j]),
    ensures
        text_cursor(a) == text_cursor(b),
        open_kinds(a) == open_kinds(b),
    decreases a.len(),
{
    if a.len() > 0 {
        lemma_same_shape_logs(a.drop_last(), b.drop_last());
        assert(same_shape(a[a.len() - 1], b[b.len() - 1]));
    }
}

/// Every span of a parsed document satisfies `0 <= start <= end <= len(text)`, counted in
/// characters.
pub proof fn lemma_spans_within_text(doc: &Ssml, i: int)
    requires
        doc.wf(),
        0 <= i < doc.tags_view().len(),
    ensures
        0 <= doc.tags_view()[i].start <= doc.tags_view()[i].end <= doc.text_view().len(),
{
}

/// The spans of a parsed document are sorted by start ascending and, for equal starts, by end
/// descending.
pub proof fn lemma_spans_sorted(doc: &Ssml, i: int, j: int)
    requires
        doc.wf(),
        0 <= i < j < doc.tags_view().len(),
    ensures
        doc.tags_view()[i].start < doc.tags_view()[j].start
            || (doc.tags_view()[i].start == doc.tags_view()[j].start
                && doc.tags_view()[i].end >= doc.tags_view()[j].end),
{
}

/// In a parsed document every open event is matched by exactly one later close event of the
/// same kind, and the events between them nest properly: reading the log with a stack of open
/// kinds never meets a close that differs from the innermost open kind, and ends with no kind
/// left open.
pub proof fn lemma_events_nest(doc: &Ssml)
    requires
        doc.wf(),
    ensures
        open_kinds(doc.log_view()) == Some(Seq::<SsmlElement>::empty()),
{
}

/// The text runs of a parsed document's event log, concatenated, are its text.
pub proof fn lemma_text_runs_concatenate(doc: &Ssml)
    requires
        doc.wf(),
    ensures
        logged_text(doc.log_view(), doc.text_view()) == doc.text_view(),
{
    lemma_logged_text(doc.log_view(), doc.text_view());
    assert(doc.text_view().take(doc.text_view().len() as int) =~= doc.text_view());
}

} // verus!
