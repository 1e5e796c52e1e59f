//! The containment-validating parser: it consumes a stream of XML events, enforces SSML's
//! nesting rules, normalises text, and builds a document.
use vstd::prelude::*;
use crate::attributes::{attr_error, attr_value, element_ok, parse_element};
pub use crate::attributes::XmlTag;
pub use crate::document::Span;
use crate::document::{
    open_kinds, span_le, spans_sorted, spans_within, text_cursor, ParserLogEvent, Ssml,
};
use crate::elements::{element_name, kind_of, standard_kind, ParsedElement, SsmlElement};
use crate::error::SsmlError;
use crate::xml::{next_token, open_reader, reader_position, reader_source, xml_token_at, XmlToken};
use crate::text::{append_chars, chars_of, is_whitespace, push_text, string_of};

verus! {

/// A markup event of an XML document, entities already replaced.
#[derive(Clone, Debug, PartialEq, Eq)]
pub enum XmlEvent {
    /// A start tag.
    Start(XmlTag),
    /// An end tag, with its name.
    End(String),
    /// An empty-element tag.
    Empty(XmlTag),
    /// Character data.
    Text(String),
    /// A comment, CDATA section, declaration, processing instruction or doctype.
    Other,
}

/// Options that decide how certain elements are handled while parsing.
#[derive(Clone, Copy, Debug, PartialEq, Eq, Structural)]
pub struct SsmlParser {
    /// Replace `sub` elements by the text of their `alias` attribute.
    pub expand_sub: bool,
}

/// An element whose end tag has not been seen yet.
struct OpenTag {
    kind: SsmlElement,
    element: ParsedElement,
    /// Text length when the element opened.
    start: usize,
    /// Where its span goes in the span list, which is kept in document order.
    pos: usize,
    /// A `sub` replaced by its alias: it has no events of its own.
    expanded: bool,
}

/// The standard kind of an element kind, `None` for custom elements.
pub open spec fn std_kind(k: SsmlElement) -> Option<SsmlElement> {
    if k is Custom { None } else { Some(k) }
}

/// The kind named by a markup name, as a standard kind or `None` for custom elements.
pub open spec fn named_kind(name: Seq<char>) -> Option<SsmlElement> {
    standard_kind(name)
}

/// Whether text directly inside an element enters the document's text.
pub open spec fn enters_text(k: Option<SsmlElement>, expanded: bool, expand_sub: bool) -> bool {
    match k {
        None => true,
        Some(k) => !expanded && !(expand_sub && k is Sub) && k.spec_contains_synthesisable_text(),
    }
}

/// An event of the log, with its element reduced to its standard kind (`None` for custom
/// elements).
pub enum EventShape {
    Text,
    Open(Option<SsmlElement>),
    Close(Option<SsmlElement>),
    Empty(Option<SsmlElement>),
}

pub open spec fn shape_of(ev: ParserLogEvent) -> EventShape {
    match ev {
        ParserLogEvent::Text(_, _) => EventShape::Text,
        ParserLogEvent::Open(e) => EventShape::Open(std_kind(kind_of(e))),
        ParserLogEvent::Close(e) => EventShape::Close(std_kind(kind_of(e))),
        ParserLogEvent::Empty(e) => EventShape::Empty(std_kind(kind_of(e))),
    }
}

/// What a document depends on while it is read: whether `speak` has opened, the text so far,
/// the open elements (standard kind, and whether it is a replaced `sub`), whether the root has
/// closed, the shapes of the events logged, and the number of spans.
pub struct ReadState {
    pub started: bool,
    pub text: Seq<char>,
    pub open: Seq<(Option<SsmlElement>, bool)>,
    /// Names of the open elements.
    pub names: Seq<Seq<char>>,
    pub done: bool,
    pub events: Seq<EventShape>,
    /// The spans of the elements closed so far, in document order of their start tags.
    pub spans: Seq<SpanShape>,
    /// For each open element: the text length when it opened, and where its span goes.
    pub starts: Seq<(nat, nat)>,
}

pub open spec fn read_start() -> ReadState {
    ReadState {
        started: false,
        text: Seq::empty(),
        open: Seq::empty(),
        names: Seq::empty(),
        done: false,
        events: Seq::empty(),
        spans: Seq::empty(),
        starts: Seq::empty(),
    }
}

/// Whether a sentence or paragraph tag adds a space to `text`.
pub open spec fn needs_boundary(text: Seq<char>) -> bool {
    text.len() > 0 && !crate::text::is_ws(text.last())
}

/// `text` with one space added when it is non-empty and does not end in whitespace.
pub open spec fn with_boundary(text: Seq<char>) -> Seq<char> {
    if needs_boundary(text) { text.push(' ') } else { text }
}

/// How one event changes what the document depends on, when the document is accepted.
pub open spec fn read_step(st: ReadState, ev: XmlEvent, expand_sub: bool) -> ReadState {
    match ev {
        XmlEvent::Start(tag) => {
            let k = named_kind(tag.name@);
            if k == Some(SsmlElement::Speak) {
                ReadState {
                    started: true,
                    text: Seq::empty(),
                    open: seq![(k, false)],
                    names: seq![tag.name@],
                    done: false,
                    events: seq![EventShape::Open(k)],
                    spans: Seq::empty(),
                    starts: seq![(0nat, 0nat)],
                }
            } else if !st.started {
                st
            } else {
                let boundary = (k == Some(SsmlElement::Sentence) || k == Some(SsmlElement::Paragraph))
                    && needs_boundary(st.text);
                let t = if boundary { st.text.push(' ') } else { st.text };
                let evs = if boundary { st.events.push(EventShape::Text) } else { st.events };
                if expand_sub && k == Some(SsmlElement::Sub) {
                    let alias = match attr_value(tag.attributes@, "alias"@) {
                        Some(a) => a,
                        None => Seq::empty(),
                    };
                    let text = t + seq![' '] + alias + seq![' '];
                    ReadState {
                        text,
                        open: st.open.push((k, true)),
                        names: st.names.push(tag.name@),
                        events: evs.push(EventShape::Text),
                        starts: st.starts.push((text.len(), st.spans.len())),
                        ..st
                    }
                } else {
                    ReadState {
                        text: t,
                        open: st.open.push((k, false)),
                        names: st.names.push(tag.name@),
                        events: evs.push(EventShape::Open(k)),
                        starts: st.starts.push((t.len(), st.spans.len())),
                        ..st
                    }
                }
            }
        },
        XmlEvent::End(_) => {
            let top = st.open.last();
            let open = st.open.drop_last();
            ReadState {
                open,
                names: st.names.drop_last(),
                done: top.0 == Some(SsmlElement::Speak) && open.len() == 0,
                events: if top.1 { st.events } else { st.events.push(EventShape::Close(top.0)) },
                spans: if top.1 {
                    st.spans
                } else {
                    st.spans.insert(st.starts.last().1 as int, (st.starts.last().0, st.text.len(), top.0))
                },
                starts: st.starts.drop_last(),
                ..st
            }
        },
        XmlEvent::Empty(tag) => ReadState {
            events: st.events.push(EventShape::Empty(named_kind(tag.name@))),
            spans: st.spans.push((st.text.len(), st.text.len(), named_kind(tag.name@))),
            ..st
        },
        XmlEvent::Text(t) => {
            let enter = if st.open.len() == 0 {
                true
            } else {
                enters_text(st.open.last().0, st.open.last().1, expand_sub)
            };
            if enter {
                ReadState { text: st.text + crate::text::text_piece(st.text, t@), events: st.events.push(EventShape::Text), ..st }
            } else {
                st
            }
        },
        XmlEvent::Other => st,
    }
}

/// Whether an element of standard kind `p` (`None`: a custom element) may contain one of
/// kind `c`.
pub open spec fn kind_contains(p: Option<SsmlElement>, c: Option<SsmlElement>) -> bool {
    match p {
        None => c != Some(SsmlElement::Speak),
        Some(pk) => match c {
            None => pk.spec_can_contain_tags(),
            Some(ck) => pk.spec_can_contain(&ck),
        },
    }
}

/// Whether an event is accepted in a state: no second `speak`, attributes that can be read,
/// children the parent may contain, and close tags that match the innermost open element.
pub open spec fn step_ok(st: ReadState, ev: XmlEvent) -> bool {
    match ev {
        XmlEvent::Start(tag) => {
            let k = named_kind(tag.name@);
            if k == Some(SsmlElement::Speak) {
                !st.started && element_ok(k, tag.attributes@)
            } else if !st.started {
                true
            } else {
                element_ok(k, tag.attributes@) && (st.open.len() == 0 || kind_contains(st.open.last().0, k))
            }
        },
        XmlEvent::End(name) => st.open.len() > 0 && named_kind(name@) == st.open.last().0
            && (st.open.last().0 is None ==> name@ == st.names.last()),
        XmlEvent::Empty(tag) => element_ok(named_kind(tag.name@), tag.attributes@),
        _ => true,
    }
}

/// Whether the events `evs` read from `st` make a document: every event is accepted until the
/// root closes or the events end, and no element is left open.
pub open spec fn accepted_from(st: ReadState, evs: Seq<XmlEvent>, expand_sub: bool) -> bool
    decreases evs.len(),
{
    if evs.len() == 0 || st.done {
        st.open.len() == 0
    } else {
        step_ok(st, evs[0]) && accepted_from(read_step(st, evs[0], expand_sub), evs.drop_first(), expand_sub)
    }
}

/// Whether the events `evs` make a document.
pub open spec fn accepted(evs: Seq<XmlEvent>, expand_sub: bool) -> bool {
    accepted_from(read_start(), evs, expand_sub)
}

/// How reading a document ends: with the final state, or with the kind of failure.
pub enum ParseOutcome {
    Done(ReadState),
    /// The tokeniser reported malformed markup before the root closed.
    Malformed,
    /// An event was not accepted (`step_ok` failed) in the state given.
    Rejected(ReadState, XmlEvent),
    /// The document ended with elements still open.
    Unclosed,
}

pub open spec fn finish_outcome(st: ReadState) -> ParseOutcome {
    if st.open.len() == 0 { ParseOutcome::Done(st) } else { ParseOutcome::Unclosed }
}

/// Reading the tokeniser's reports over `s` from the `i`-th on, in state `st`, with at most
/// `fuel` more reports.
pub open spec fn outcome_from(st: ReadState, s: Seq<char>, i: nat, fuel: nat, expand_sub: bool) -> ParseOutcome
    decreases fuel,
{
    if st.done {
        finish_outcome(st)
    } else if fuel == 0 {
        ParseOutcome::Malformed
    } else {
        match xml_token_at(s, i) {
            XmlToken::Eof => finish_outcome(st),
            XmlToken::Malformed => ParseOutcome::Malformed,
            XmlToken::Event(ev) => if step_ok(st, ev) {
                outcome_from(read_step(st, ev, expand_sub), s, i + 1, (fuel - 1) as nat, expand_sub)
            } else {
                ParseOutcome::Rejected(st, ev)
            },
        }
    }
}

/// How reading the events `evs` in state `st` ends.
pub open spec fn events_outcome(st: ReadState, evs: Seq<XmlEvent>, expand_sub: bool) -> ParseOutcome
    decreases evs.len(),
{
    if st.done || evs.len() == 0 {
        finish_outcome(st)
    } else if step_ok(st, evs[0]) {
        events_outcome(read_step(st, evs[0], expand_sub), evs.drop_first(), expand_sub)
    } else {
        ParseOutcome::Rejected(st, evs[0])
    }
}

/// The error for an event that is not accepted: a second `speak`, an attribute that cannot be
/// read, a child its parent may not contain (with both kinds), or a close tag that does not
/// match the innermost open element (with its name).
pub open spec fn step_error(st: ReadState, ev: XmlEvent, e: SsmlError) -> bool {
    match ev {
        XmlEvent::Start(tag) => {
            let k = named_kind(tag.name@);
            if k == Some(SsmlElement::Speak) {
                if st.started { e == SsmlError::NestedSpeak } else { attr_error(e) }
            } else if !element_ok(k, tag.attributes@) {
                attr_error(e)
            } else {
                match e {
                    SsmlError::InvalidNesting(p, c) => std_kind(p) == st.open.last().0
                        && element_name(p) == st.names.last() && std_kind(c) == k
                        && element_name(c) == tag.name@,
                    _ => false,
                }
            }
        },
        XmlEvent::End(name) => match e {
            SsmlError::MismatchedClose(n) => n@ == name@,
            _ => false,
        },
        XmlEvent::Empty(_) => attr_error(e),
        _ => false,
    }
}

/// How parsing the document `s` ends. Every report of the tokeniser but the end covers at
/// least one character, so `s.len() + 1` reports reach the end.
pub open spec fn parse_outcome(s: Seq<char>, expand_sub: bool) -> ParseOutcome {
    outcome_from(read_start(), s, 0, s.len() + 1, expand_sub)
}

/// The state after reading `evs`, stopping once the root closes.
pub open spec fn read_run(st: ReadState, evs: Seq<XmlEvent>, expand_sub: bool) -> ReadState
    decreases evs.len(),
{
    if evs.len() == 0 || st.done {
        st
    } else {
        read_run(read_step(st, evs[0], expand_sub), evs.drop_first(), expand_sub)
    }
}

/// The text of an accepted document made of the events `evs`.
pub open spec fn document_text(evs: Seq<XmlEvent>, expand_sub: bool) -> Seq<char> {
    read_run(read_start(), evs, expand_sub).text
}

/// The shapes of the logged events of an accepted document made of the events `evs`.
pub open spec fn document_events(evs: Seq<XmlEvent>, expand_sub: bool) -> Seq<EventShape> {
    read_run(read_start(), evs, expand_sub).events
}

/// The spans of an accepted document made of the events `evs`, in span order: each with the
/// text length when its element opened and when it closed (both the same for an empty
/// element), and its element's standard kind.
pub open spec fn document_spans(evs: Seq<XmlEvent>, expand_sub: bool) -> Seq<SpanShape> {
    stable_sort(read_run(read_start(), evs, expand_sub).spans)
}

/// Kinds of the open elements that have an open event in the log.
spec fn logged_kinds(st: Seq<OpenTag>) -> Seq<SsmlElement>
    decreases st.len(),
{
    if st.len() == 0 {
        Seq::empty()
    } else if st.last().expanded {
        logged_kinds(st.drop_last())
    } else {
        logged_kinds(st.drop_last()).push(st.last().kind)
    }
}

struct ParseState {
    started: bool,
    done: bool,
    buffer: Vec<char>,
    stack: Vec<OpenTag>,
    spans: Vec<Span>,
    log: Vec<ParserLogEvent>,
    /// Text of the open `desc` element, which holds no elements.
    desc_body: Vec<char>,
}

impl ParseState {
    /// What the document's text depends on in this state.
    spec fn abs(&self) -> ReadState {
        ReadState {
            started: self.started,
            text: self.buffer@,
            open: self.stack@.map_values(|o: OpenTag| (std_kind(o.kind), o.expanded)),
            names: self.stack@.map_values(|o: OpenTag| element_name(o.kind)),
            done: self.done,
            events: self.log@.map_values(|e: ParserLogEvent| shape_of(e)),
            spans: shapes(self.spans@),
            starts: self.stack@.map_values(|o: OpenTag| (o.start as nat, o.pos as nat)),
        }
    }

    spec fn inv(&self) -> bool {
        &&& text_cursor(self.log@) == Some(self.buffer@.len() as int)
        &&& open_kinds(self.log@) == Some(logged_kinds(self.stack@))
        &&& spans_within(self.spans@, self.buffer@.len() as int)
        &&& forall|i: int| 0 <= i < self.stack@.len() ==> {
            &&& (#[trigger] self.stack@[i]).start <= self.buffer@.len()
            &&& self.stack@[i].pos <= self.spans@.len()
            &&& self.stack@[i].kind == kind_of(self.stack@[i].element)
            &&& self.stack@[i].expanded ==> self.stack@[i].kind is Sub
            &&& std_kind(self.stack@[i].kind) == standard_kind(element_name(self.stack@[i].kind))
        }
        &&& !self.started ==> self.stack@.len() == 0
        &&& self.done ==> self.stack@.len() == 0
    }

    fn new() -> (r: ParseState)
        ensures
            r.inv(),
            !r.started,
            !r.done,
            r.abs() == read_start(),
    {
        let r = ParseState {
            started: false,
            done: false,
            buffer: Vec::new(),
            stack: Vec::new(),
            spans: Vec::new(),
            log: Vec::new(),
            desc_body: Vec::new(),
        };
        assert(r.log@ =~= Seq::<ParserLogEvent>::empty());
        assert(r.abs().open =~= Seq::<(Option<SsmlElement>, bool)>::empty());
        assert(r.abs().text =~= Seq::<char>::empty());
        assert(r.abs().events =~= Seq::<EventShape>::empty());
        assert(r.abs().names =~= Seq::<Seq<char>>::empty());
        assert(r.abs().spans =~= Seq::<SpanShape>::empty());
        assert(r.abs().starts =~= Seq::<(nat, nat)>::empty());
        r
    }

    /// Appends `piece` grown text to the log as one text run.
    proof fn lemma_push_text_event(log: Seq<ParserLogEvent>, s: usize, e: usize)
        requires
            text_cursor(log) == Some(s as int),
            s <= e,
        ensures
            text_cursor(log.push(ParserLogEvent::Text(s, e))) == Some(e as int),
            open_kinds(log.push(ParserLogEvent::Text(s, e))) == open_kinds(log),
    {
        assert(log.push(ParserLogEvent::Text(s, e)).drop_last() =~= log);
    }

    /// Adds one space to the text, as the boundary a sentence or paragraph tag implies, when
    /// the text does not already end in whitespace.
    fn word_boundary(&mut self)
        requires
            old(self).inv(),
        ensures
            final(self).inv(),
            final(self).started == old(self).started,
            final(self).done == old(self).done,
            final(self).stack@ == old(self).stack@,
            final(self).spans@ == old(self).spans@,
            final(self).buffer@.len() >= old(self).buffer@.len(),
            final(self).buffer@ == with_boundary(old(self).buffer@),
            final(self).log@.map_values(|e: ParserLogEvent| shape_of(e)) == if needs_boundary(old(self).buffer@) {
                old(self).log@.map_values(|e: ParserLogEvent| shape_of(e)).push(EventShape::Text)
            } else {
                old(self).log@.map_values(|e: ParserLogEvent| shape_of(e))
            },
    {
        let ghost old_log = self.log@;
        if self.buffer.len() > 0 && !is_whitespace(self.buffer[self.buffer.len() - 1]) {
            let start = self.buffer.len();
            self.buffer.push(' ');
            let end = self.buffer.len();
            proof { ParseState::lemma_push_text_event(self.log@, start, end); }
            self.log.push(ParserLogEvent::Text(start, end));
            assert(self.log@.map_values(|e: ParserLogEvent| shape_of(e)) =~= old_log.map_values(|e: ParserLogEvent| shape_of(e)).push(EventShape::Text));
        }
    }

    #[verifier::rlimit(60)]
    fn handle_start(&mut self, parser: &SsmlParser, tag: XmlTag) -> (r: Result<(), SsmlError>)
        requires
            old(self).inv(),
            !old(self).done,
        ensures
            r is Ok ==> final(self).inv(),
            r is Ok ==> final(self).abs() == read_step(old(self).abs(), XmlEvent::Start(tag), parser.expand_sub),
            r is Err ==> step_error(old(self).abs(), XmlEvent::Start(tag), r->Err_0),
            r is Ok <==> step_ok(old(self).abs(), XmlEvent::Start(tag)),
            (old(self).started && standard_kind(tag.name@) == Some(SsmlElement::Speak)) ==> r == Err::<(), SsmlError>(SsmlError::NestedSpeak),
    {
        let ghost old_abs = self.abs();
        let ghost ev0 = XmlEvent::Start(tag);
        let kind = SsmlElement::from_str(tag.name.as_str());
        if let SsmlElement::Speak = kind {
            if self.started {
                return Err(SsmlError::NestedSpeak);
            }
            let element = parse_element(&tag)?;
            self.started = true;
            self.buffer = Vec::new();
            self.spans = Vec::new();
            self.log = Vec::new();
            let k = element.kind();
            self.log.push(ParserLogEvent::Open(element.duplicate()));
            self.stack.push(OpenTag { kind: k, element, start: 0, pos: 0, expanded: false });
            proof {
                assert(self.log@.drop_last() =~= Seq::<ParserLogEvent>::empty());
                assert(self.stack@.drop_last() =~= Seq::<OpenTag>::empty());
                assert(text_cursor(Seq::<ParserLogEvent>::empty()) == Some(0int));
                assert(open_kinds(Seq::<ParserLogEvent>::empty()) == Some(Seq::<SsmlElement>::empty()));
                assert(logged_kinds(Seq::<OpenTag>::empty()) == Seq::<SsmlElement>::empty());
                assert(text_cursor(self.log@) == Some(0int));
                assert(open_kinds(self.log@) == Some(logged_kinds(self.stack@)));
                assert(spans_within(self.spans@, 0));
                assert(standard_kind(tag.name@) == Some(SsmlElement::Speak));
                assert(self.abs().open =~= seq![(Some(SsmlElement::Speak), false)]);
                assert(self.abs().text =~= Seq::<char>::empty());
                assert(self.abs().events =~= seq![EventShape::Open(Some(SsmlElement::Speak))]);
                assert(self.abs().names =~= seq![tag.name@]);
                assert(self.abs().spans =~= Seq::<SpanShape>::empty());
                assert(self.abs().starts =~= seq![(0nat, 0nat)]);
            }
            return Ok(());
        }
        if !self.started {
            return Ok(());
        }
        let element = parse_element(&tag)?;
        let k = element.kind();
        if self.stack.len() > 0 {
            let top = &self.stack[self.stack.len() - 1];
            if !top.kind.can_contain(&k) {
                return Err(SsmlError::InvalidNesting(top.kind.copy(), k));
            }
        }
        if matches!(k, SsmlElement::Sentence | SsmlElement::Paragraph) {
            self.word_boundary();
        }
        let expand = parser.expand_sub && matches!(k, SsmlElement::Sub);
        let ghost log_b = self.log@;
        if expand {
            let start = self.buffer.len();
            if let ParsedElement::Sub(a) = &element {
                self.buffer.push(' ');
                append_chars(&mut self.buffer, &chars_of(a.alias.as_str()));
                self.buffer.push(' ');
            }
            let end = self.buffer.len();
            proof { ParseState::lemma_push_text_event(self.log@, start, end); }
            self.log.push(ParserLogEvent::Text(start, end));
            assert(self.log@.map_values(|e: ParserLogEvent| shape_of(e)) =~= log_b.map_values(|e: ParserLogEvent| shape_of(e)).push(EventShape::Text));
        } else {
            let d = element.duplicate();
            proof { assert(self.log@.push(ParserLogEvent::Open(d)).drop_last() =~= self.log@); }
            self.log.push(ParserLogEvent::Open(d));
            assert(self.log@.map_values(|e: ParserLogEvent| shape_of(e)) =~= log_b.map_values(|e: ParserLogEvent| shape_of(e)).push(EventShape::Open(std_kind(k))));
        }
        let ghost old_stack = self.stack@;
        let pos = self.spans.len();
        let start = self.buffer.len();
        let entry = OpenTag { kind: k, element, start, pos, expanded: expand };
        self.stack.push(entry);
        proof {
            let nk = named_kind(tag.name@);
            assert(std_kind(k) == nk);
            assert(self.abs().open =~= old_abs.open.push((nk, expand)));
            assert(self.abs().names =~= old_abs.names.push(tag.name@));
            assert(self.abs().starts =~= old_abs.starts.push((start as nat, pos as nat)));
            assert(self.abs().spans == old_abs.spans);
            assert(self.abs().started == old_abs.started && self.abs().done == old_abs.done);
            assert(self.abs().text == read_step(old_abs, ev0, parser.expand_sub).text);
            assert(self.abs().events == read_step(old_abs, ev0, parser.expand_sub).events);
            assert(self.abs().spans == old_abs.spans);
            assert(self.stack@.drop_last() =~= old_stack);
            assert(self.stack@.last() == entry);
            assert forall|i: int| 0 <= i < self.stack@.len() implies {
                &&& (#[trigger] self.stack@[i]).start <= self.buffer@.len()
                &&& self.stack@[i].pos <= self.spans@.len()
                &&& self.stack@[i].kind == kind_of(self.stack@[i].element)
            } by {
                if i < old_stack.len() {
                    assert(self.stack@[i] == old_stack[i]);
                }
            }
        }
        Ok(())
    }

    fn handle_end(&mut self, parser: &SsmlParser, name: String) -> (r: Result<(), SsmlError>)
        requires
            old(self).inv(),
            !old(self).done,
        ensures
            r is Ok ==> final(self).inv(),
            r is Ok ==> final(self).abs() == read_step(old(self).abs(), XmlEvent::End(name), parser.expand_sub),
            r is Err ==> step_error(old(self).abs(), XmlEvent::End(name), r->Err_0),
            r is Ok <==> step_ok(old(self).abs(), XmlEvent::End(name)),
            old(self).stack@.len() == 0 ==> r is Err && r->Err_0 is MismatchedClose,
    {
        let ghost old_abs = self.abs();
        let ghost ev0 = XmlEvent::End(name);
        if self.stack.len() == 0 {
            return Err(SsmlError::MismatchedClose(name));
        }
        let kind = SsmlElement::from_str(name.as_str());
        let n = self.stack.len() - 1;
        if !(kind == self.stack[n].kind) {
            return Err(SsmlError::MismatchedClose(name));
        }
        let ghost old_stack = self.stack@;
        let ghost old_log = self.log@;
        let top = self.stack.pop().unwrap();
        proof {
            assert(old_stack.drop_last() =~= self.stack@);
            assert(top == old_stack.last());
            if !top.expanded {
                assert(logged_kinds(old_stack) == logged_kinds(self.stack@).push(top.kind));
            } else {
                assert(logged_kinds(old_stack) == logged_kinds(self.stack@));
            }
            assert(top.kind == kind_of(top.element));
            assert forall|i: int| 0 <= i < self.stack@.len() implies self.stack@[i] == old_stack[i] by {}
        }
        let ghost old_spans = self.spans@;
        let ghost log0 = self.log@;
        if !top.expanded {
            let element = match &top.element {
                ParsedElement::Description(_) => ParsedElement::Description(string_of(&self.desc_body)),
                other => other.duplicate(),
            };
            self.log.push(ParserLogEvent::Close(element));
            proof { assert(self.log@.drop_last() =~= old_log); }
            let end = self.buffer.len();
            let span_element = match top.element {
                ParsedElement::Description(_) => {
                    let body = string_of(&self.desc_body);
                    self.desc_body = Vec::new();
                    ParsedElement::Description(body)
                },
                other => other,
            };
            let span = Span { start: top.start, end, element: span_element };
            self.spans.insert(top.pos, span);
            proof {
                assert forall|k: int| 0 <= k < self.spans@.len() implies (#[trigger] self.spans@[k]).start <= self.spans@[k].end && self.spans@[k].end <= self.buffer@.len() by {
                    if k < top.pos {
                        assert(self.spans@[k] == old_spans[k]);
                    } else if k > top.pos {
                        assert(self.spans@[k] == old_spans[k - 1]);
                    }
                }
            }
        }
        if matches!(top.kind, SsmlElement::Speak) && self.stack.len() == 0 {
            self.done = true;
        }
        proof {
            assert(self.abs().open =~= old_abs.open.drop_last());
            assert(self.abs().names =~= old_abs.names.drop_last());
            assert(self.abs().starts =~= old_abs.starts.drop_last());
            assert(old_abs.starts.last() == (top.start as nat, top.pos as nat));
            if !top.expanded {
                assert(self.abs().spans =~= old_abs.spans.insert(top.pos as int, (top.start as nat, self.buffer@.len(), std_kind(top.kind))));
            } else {
                assert(self.abs().spans == old_abs.spans);
            }
            assert(old_abs.open.last() == (std_kind(top.kind), top.expanded));
            if !top.expanded {
                assert(self.log@ == log0.push(self.log@.last()));
                assert(shape_of(self.log@.last()) == EventShape::Close(std_kind(top.kind)));
                assert(self.log@.map_values(|e: ParserLogEvent| shape_of(e)) =~= log0.map_values(|e: ParserLogEvent| shape_of(e)).push(EventShape::Close(std_kind(top.kind))));
            } else {
                assert(self.log@ == log0);
                assert(self.spans@ == old_spans);
            }
            assert(self.abs() == read_step(old_abs, ev0, parser.expand_sub));
        }
        assert(text_cursor(self.log@) == Some(self.buffer@.len() as int));
        assert(open_kinds(self.log@) == Some(logged_kinds(self.stack@)));
        assert(spans_within(self.spans@, self.buffer@.len() as int));
        assert(self.inv());
        Ok(())
    }

    fn handle_empty(&mut self, parser: &SsmlParser, tag: XmlTag) -> (r: Result<(), SsmlError>)
        requires
            old(self).inv(),
            !old(self).done,
        ensures
            r is Ok ==> final(self).inv(),
            r is Ok ==> final(self).abs() == read_step(old(self).abs(), XmlEvent::Empty(tag), parser.expand_sub),
            r is Err ==> step_error(old(self).abs(), XmlEvent::Empty(tag), r->Err_0),
            r is Ok <==> step_ok(old(self).abs(), XmlEvent::Empty(tag)),
    {
        let ghost old_abs = self.abs();
        let element = parse_element(&tag)?;
        let d = element.duplicate();
        proof { assert(self.log@.push(ParserLogEvent::Empty(d)).drop_last() =~= self.log@); }
        let ghost log0 = self.log@;
        self.log.push(ParserLogEvent::Empty(d));
        let at = self.buffer.len();
        self.spans.push(Span { start: at, end: at, element });
        proof {
            assert(self.log@.map_values(|e: ParserLogEvent| shape_of(e)) =~= log0.map_values(|e: ParserLogEvent| shape_of(e)).push(EventShape::Empty(named_kind(tag.name@))));
            assert(self.abs().open =~= old_abs.open);
            assert(self.abs().spans =~= old_abs.spans.push((self.buffer@.len(), self.buffer@.len(), named_kind(tag.name@))));
            assert(self.abs().starts =~= old_abs.starts);
            assert(self.abs().names =~= old_abs.names);
        }
        assert(self.inv());
        Ok(())
    }

    fn handle_text(&mut self, parser: &SsmlParser, t: String) -> (r: Result<(), SsmlError>)
        requires
            old(self).inv(),
            !old(self).done,
        ensures
            r is Ok ==> final(self).inv(),
            r is Ok ==> final(self).abs() == read_step(old(self).abs(), XmlEvent::Text(t), parser.expand_sub),
            r is Err ==> step_error(old(self).abs(), XmlEvent::Text(t), r->Err_0),
            r is Ok <==> step_ok(old(self).abs(), XmlEvent::Text(t)),
    {
        let ghost old_abs = self.abs();
        let n = self.stack.len();
        let enter = if n == 0 {
            parser.text_should_enter_buffer(None)
        } else {
            !self.stack[n - 1].expanded && parser.text_should_enter_buffer(Some(&self.stack[n - 1].kind))
        };
        let cs = chars_of(t.as_str());
        if n > 0 && matches!(self.stack[n - 1].kind, SsmlElement::Description) {
            append_chars(&mut self.desc_body, &cs);
        }
        proof {
            if n > 0 {
                assert(old_abs.open.last() == (std_kind(self.stack@[n - 1].kind), self.stack@[n - 1].expanded));
            }
        }
        if enter {
            let start = self.buffer.len();
            push_text(&mut self.buffer, &cs);
            let end = self.buffer.len();
            proof { ParseState::lemma_push_text_event(self.log@, start, end); }
            let ghost log_t = self.log@;
            self.log.push(ParserLogEvent::Text(start, end));
            assert(self.log@.map_values(|e: ParserLogEvent| shape_of(e)) =~= log_t.map_values(|e: ParserLogEvent| shape_of(e)).push(EventShape::Text));
        }
        assert(self.inv());
        Ok(())
    }

    /// Handles one event; `Ok(())` when the document may go on.
    fn handle(&mut self, parser: &SsmlParser, ev: XmlEvent) -> (r: Result<(), SsmlError>)
        requires
            old(self).inv(),
            !old(self).done,
        ensures
            r is Ok ==> final(self).inv(),
            (ev is Start && old(self).started && standard_kind(ev->Start_0.name@) == Some(SsmlElement::Speak)) ==> r == Err::<(), SsmlError>(SsmlError::NestedSpeak),
            (ev is End && old(self).stack@.len() == 0) ==> r is Err && r->Err_0 is MismatchedClose,
            r is Ok ==> final(self).abs() == read_step(old(self).abs(), ev, parser.expand_sub),
            r is Ok <==> step_ok(old(self).abs(), ev),
            r is Err ==> step_error(old(self).abs(), ev, r->Err_0),
    {
        match ev {
            XmlEvent::Start(tag) => self.handle_start(parser, tag),
            XmlEvent::End(name) => self.handle_end(parser, name),
            XmlEvent::Empty(tag) => self.handle_empty(parser, tag),
            XmlEvent::Text(t) => self.handle_text(parser, t),
            XmlEvent::Other => Ok(()),
        }
    }
}

/// Strictly before in span order.
spec fn span_lt(a: Span, b: Span) -> bool {
    a.start < b.start || (a.start == b.start && a.end > b.end)
}

/// A span reduced to its offsets and its element's standard kind (`None`: custom).
pub type SpanShape = (nat, nat, Option<SsmlElement>);

pub open spec fn span_shape(sp: Span) -> SpanShape {
    (sp.start as nat, sp.end as nat, std_kind(kind_of(sp.element)))
}

pub open spec fn shapes(s: Seq<Span>) -> Seq<SpanShape> {
    s.map_values(|sp: Span| span_shape(sp))
}

/// Strictly before in span order: an earlier start, or the same start and a later end.
pub open spec fn shape_lt(a: SpanShape, b: SpanShape) -> bool {
    a.0 < b.0 || (a.0 == b.0 && a.1 > b.1)
}

/// `x` inserted into `s` after every entry that is not strictly after it.
pub open spec fn insert_stable(s: Seq<SpanShape>, x: SpanShape) -> Seq<SpanShape>
    decreases s.len(),
{
    if s.len() == 0 {
        seq![x]
    } else if shape_lt(x, s.last()) {
        insert_stable(s.drop_last(), x).push(s.last())
    } else {
        s.push(x)
    }
}

/// `s` sorted by start ascending and end descending; entries that compare equal keep their
/// order.
pub open spec fn stable_sort(s: Seq<SpanShape>) -> Seq<SpanShape>
    decreases s.len(),
{
    if s.len() == 0 {
        s
    } else {
        insert_stable(stable_sort(s.drop_last()), s.last())
    }
}

proof fn lemma_insert_suffix(p: Seq<SpanShape>, x: SpanShape, j: int)
    requires
        0 <= j <= p.len(),
        forall|k: int| j <= k < p.len() ==> shape_lt(x, #[trigger] p[k]),
    ensures
        insert_stable(p, x) == insert_stable(p.take(j), x) + p.skip(j),
    decreases p.len() - j,
{
    if j < p.len() {
        assert(p.drop_last().take(j) =~= p.take(j));
        lemma_insert_suffix(p.drop_last(), x, j);
        assert(p.drop_last().skip(j).push(p.last()) =~= p.skip(j));
    } else {
        assert(p.take(j) =~= p);
        assert(p.skip(j) =~= Seq::<SpanShape>::empty());
        assert(insert_stable(p, x) + Seq::<SpanShape>::empty() =~= insert_stable(p, x));
    }
}

/// Sorts spans by start ascending and end descending; spans that compare equal keep their
/// order.
fn sort_spans(v: &mut Vec<Span>, n: Ghost<int>)
    requires
        spans_within(old(v)@, n@),
    ensures
        spans_sorted(final(v)@),
        spans_within(final(v)@, n@),
        final(v)@.len() == old(v)@.len(),
        shapes(final(v)@) == stable_sort(shapes(old(v)@)),
{
    let mut i: usize = 1;
    if v.len() == 0 {
        assert(shapes(old(v)@) =~= Seq::<SpanShape>::empty());
        return;
    }
    proof {
        let o = shapes(old(v)@);
        assert(o.take(1).drop_last() =~= Seq::<SpanShape>::empty());
        assert(stable_sort(Seq::<SpanShape>::empty()) == Seq::<SpanShape>::empty());
        assert(insert_stable(Seq::<SpanShape>::empty(), o[0]) == seq![o[0]]);
        assert(stable_sort(o.take(1)) == insert_stable(stable_sort(o.take(1).drop_last()), o.take(1).last()));
        assert(shapes(v@.take(1)) =~= seq![o[0]]);
    }
    while i < v.len()
        invariant
            1 <= i <= v.len(),
            v@.len() == old(v)@.len(),
            spans_within(v@, n@),
            spans_sorted(v@.take(i as int)),
            shapes(v@.take(i as int)) == stable_sort(shapes(old(v)@).take(i as int)),
            v@.skip(i as int) == old(v)@.skip(i as int),
        decreases v.len() - i,
    {
        let ghost vb = v@;
        proof { assert(vb[i as int] == vb.skip(i as int)[0]); }
        let x = v.remove(i);
        let mut j = i;
        while j > 0 && (x.start < v[j - 1].start || (x.start == v[j - 1].start && x.end > v[j - 1].end))
            invariant
                0 <= j <= i,
                i < old(v)@.len(),
                v@.len() == old(v)@.len() - 1,
                spans_within(v@, n@),
                x.start <= x.end <= n@,
                spans_sorted(v@.take(i as int)),
                forall|k: int| j <= k < i ==> span_lt(x, #[trigger] v@[k]),
                v@ == vb.remove(i as int),
            decreases j,
        {
            j -= 1;
        }
        let ghost before = v@;
        v.insert(j, x);
        proof {
            let p = shapes(vb.take(i as int));
            let xs = span_shape(x);
            assert(x == old(v)@[i as int]) by {
                assert(old(v)@.skip(i as int)[0] == vb.skip(i as int)[0]);
            }
            assert forall|k: int| j <= k < p.len() implies shape_lt(xs, #[trigger] p[k]) by {
                assert(p[k] == span_shape(before[k]));
                assert(span_lt(x, before[k]));
            }
            lemma_insert_suffix(p, xs, j as int);
            if j > 0 {
                assert(p.take(j as int).last() == span_shape(before[j - 1]));
                assert(!span_lt(x, before[j - 1]));
                assert(p.take(j as int).drop_last() =~= p.take(j - 1));
            } else {
                assert(p.take(0) =~= Seq::<SpanShape>::empty());
            }
            assert(insert_stable(p.take(j as int), xs) =~= p.take(j as int).push(xs));
            assert(shapes(v@.take(i + 1)) =~= p.take(j as int).push(xs) + p.skip(j as int)) by {
                assert forall|k: int| 0 <= k < i + 1 implies shapes(v@.take(i + 1))[k] == (p.take(j as int).push(xs) + p.skip(j as int))[k] by {
                    if k < j {
                        assert(v@[k] == before[k]);
                    } else if k > j {
                        assert(v@[k] == before[k - 1]);
                    }
                }
            }
            let o = shapes(old(v)@);
            assert(o.take(i + 1).drop_last() =~= o.take(i as int));
            assert(o.take(i + 1).last() == xs);
            assert(p == stable_sort(o.take(i as int)));
            assert(v@.skip(i + 1) =~= old(v)@.skip(i + 1)) by {
                assert forall|k: int| 0 <= k < v@.len() - (i + 1) implies #[trigger] v@.skip(i + 1)[k] == old(v)@.skip(i + 1)[k] by {
                    assert(v@[i + 1 + k] == before[i + k]);
                    assert(before[i + k] == vb[i + 1 + k]);
                    assert(vb.skip(i as int)[k + 1] == old(v)@.skip(i as int)[k + 1]);
                }
            }
            assert forall|a: int, b: int| 0 <= a < b < i + 1 implies span_le(#[trigger] v@.take(i + 1)[a], #[trigger] v@.take(i + 1)[b]) by {
                let s = v@.take(i + 1);
                if b < j {
                    assert(s[a] == before.take(i as int)[a]);
                    assert(s[b] == before.take(i as int)[b]);
                } else if b == j {
                    assert(s[a] == before.take(i as int)[a]);
                    if j > 0 {
                        assert(before.take(i as int)[j - 1] == before[j - 1]);
                        if a < j - 1 {
                            assert(span_le(before.take(i as int)[a], before.take(i as int)[j - 1]));
                        }
                    }
                } else if a == j {
                    assert(s[b] == before[b - 1]);
                } else if a > j {
                    assert(s[a] == before.take(i as int)[a - 1]);
                    assert(s[b] == before.take(i as int)[b - 1]);
                } else {
                    assert(s[a] == before.take(i as int)[a]);
                    assert(s[b] == before.take(i as int)[b - 1]);
                    assert(span_lt(x, before[j as int]));
                    assert(span_le(before.take(i as int)[a], before.take(i as int)[j as int]));
                    if j > 0 {
                        assert(span_le(before.take(i as int)[a], before.take(i as int)[b - 1]));
                    }
                }
            }
            assert forall|k: int| 0 <= k < v@.len() implies (#[trigger] v@[k]).start <= v@[k].end && v@[k].end <= n@ by {
                if k < j {
                    assert(v@[k] == before[k]);
                } else if k > j {
                    assert(v@[k] == before[k - 1]);
                }
            }
        }
        i += 1;
    }
    assert(v@.take(i as int) =~= v@);
    assert(shapes(old(v)@).take(i as int) =~= shapes(old(v)@));
}

impl SsmlParser {
    /// A parser that leaves `sub` elements as they are.
    pub fn new() -> (r: SsmlParser)
        ensures
            !r.expand_sub,
    {
        SsmlParser { expand_sub: false }
    }

    /// Whether text directly inside an element of the given kind (or outside any element)
    /// enters the document's text: not inside non-synthesisable elements, nor inside a `sub`
    /// that is replaced by its alias.
    pub fn text_should_enter_buffer(&self, element: Option<&SsmlElement>) -> (r: bool)
        ensures
            r == match element {
                None => true,
                Some(k) => !(self.expand_sub && *k is Sub) && k.spec_contains_synthesisable_text(),
            },
    {
        match element {
            None => true,
            Some(k) => !(self.expand_sub && matches!(k, SsmlElement::Sub)) && k.contains_synthesisable_text(),
        }
    }

    /// Builds the document from its markup events, stopping after the root `speak` closes.
    pub fn parse_events(&self, events: Vec<XmlEvent>) -> (r: Result<Ssml, SsmlError>)
        ensures
            r is Ok ==> {
                &&& r->Ok_0.wf()
                &&& r->Ok_0.text_view() == document_text(events@, self.expand_sub)
                &&& r->Ok_0.log_view().map_values(|e: ParserLogEvent| shape_of(e)) == document_events(events@, self.expand_sub)
                &&& shapes(r->Ok_0.tags_view()) == document_spans(events@, self.expand_sub)
            },
            r is Ok <==> accepted(events@, self.expand_sub),
            parsed_as_outcome(r, events_outcome(read_start(), events@, self.expand_sub)),
    {
        let ghost all = events@;
        let mut st = ParseState::new();
        let mut pending = events;
        while pending.len() > 0 && !st.done
            invariant
                st.inv(),
                read_run(st.abs(), pending@, self.expand_sub) == read_run(read_start(), all, self.expand_sub),
                accepted_from(st.abs(), pending@, self.expand_sub) == accepted(all, self.expand_sub),
                events_outcome(st.abs(), pending@, self.expand_sub) == events_outcome(read_start(), all, self.expand_sub),
                all == events@,
            decreases pending.len(),
        {
            let ghost evs = pending@;
            let ghost before = st.abs();
            let ev = pending.remove(0);
            proof { assert(evs.drop_first() =~= pending@); }
            let ghost ev_g = ev;
            match st.handle(self, ev) {
                Ok(()) => {},
                Err(e) => {
                    proof {
                        assert(evs[0] == ev_g);
                        assert(!step_ok(before, ev_g));
                        assert(!accepted_from(before, evs, self.expand_sub));
                        assert(!accepted(all, self.expand_sub));
                    }
                    return Err(e);
                },
            }
        }
        st.finish()
    }
}

impl ParseState {
    fn finish(self) -> (r: Result<Ssml, SsmlError>)
        requires
            self.inv(),
        ensures
            r is Ok ==> r->Ok_0.wf() && r->Ok_0.text_view() == self.abs().text
                && r->Ok_0.log_view().map_values(|e: ParserLogEvent| shape_of(e)) == self.abs().events
                && shapes(r->Ok_0.tags_view()) == stable_sort(self.abs().spans),
            r is Ok <==> self.abs().open.len() == 0,
            parsed_as_outcome(r, finish_outcome(self.abs())),
            r is Err ==> r->Err_0 is UnclosedTag,
    {
        let ParseState { started, done, buffer, stack, spans, log, desc_body } = self;
        if stack.len() > 0 {
            return Err(SsmlError::UnclosedTag(stack[stack.len() - 1].kind.clone()));
        }
        let mut spans = spans;
        sort_spans(&mut spans, Ghost(buffer@.len() as int));
        let text = string_of(&buffer);
        let doc = Ssml::new(text, spans, log);
        assert(logged_kinds(stack@) =~= Seq::<SsmlElement>::empty());
        Ok(doc)
    }
}

impl SsmlParser {
    /// Parses an SSML document. Tokenising stops once the root `speak` element closes.
    pub fn parse(&self, ssml: &str) -> (r: Result<Ssml, SsmlError>)
        ensures
            parsed_as_outcome(r, parse_outcome(ssml@, self.expand_sub)),
    {
        let mut reader = open_reader(ssml);
        let mut st = ParseState::new();
        let limit: u128 = ssml.unicode_len() as u128 + 1;
        let mut count: u128 = 0;
        while !st.done
            invariant
                st.inv(),
                count <= limit,
                limit == ssml@.len() + 1,
                reader_source(reader) == ssml@,
                reader_position(reader) == count,
                outcome_from(st.abs(), ssml@, count as nat, (limit - count) as nat, self.expand_sub)
                    == parse_outcome(ssml@, self.expand_sub),
            decreases limit - count,
        {
            if count == limit {
                return Err(SsmlError::XmlMalformed);
            }
            let ghost before = st.abs();
            let ghost at = count as nat;
            let token = next_token(&mut reader);
            count += 1;
            proof {
                assert(token == xml_token_at(ssml@, at));
                assert(outcome_from(before, ssml@, at, (limit - at) as nat, self.expand_sub) == match token {
                    XmlToken::Eof => finish_outcome(before),
                    XmlToken::Malformed => ParseOutcome::Malformed,
                    XmlToken::Event(ev) => if step_ok(before, ev) {
                        outcome_from(read_step(before, ev, self.expand_sub), ssml@, at + 1, (limit - at - 1) as nat, self.expand_sub)
                    } else {
                        ParseOutcome::Rejected(before, ev)
                    },
                });
            }
            match token {
                XmlToken::Event(ev) => {
                    st.handle(self, ev)?;
                },
                XmlToken::Eof => {
                    return st.finish();
                },
                XmlToken::Malformed => {
                    return Err(SsmlError::XmlMalformed);
                },
            }
        }
        st.finish()
    }
}

/// The result of parsing stated against how reading ends: the document of the final state,
/// or the error of the failure.
pub open spec fn parsed_as_outcome(r: Result<Ssml, SsmlError>, o: ParseOutcome) -> bool {
    match o {
        ParseOutcome::Done(fin) => r is Ok && {
            let d = r->Ok_0;
            &&& d.wf()
            &&& d.text_view() == fin.text
            &&& d.log_view().map_values(|e: ParserLogEvent| shape_of(e)) == fin.events
            &&& shapes(d.tags_view()) == stable_sort(fin.spans)
        },
        ParseOutcome::Malformed => r == Err::<Ssml, SsmlError>(SsmlError::XmlMalformed),
        ParseOutcome::Rejected(st, ev) => r is Err && step_error(st, ev, r->Err_0),
        ParseOutcome::Unclosed => r is Err && r->Err_0 is UnclosedTag,
    }
}

/// Parses an SSML document with the default options.
pub fn parse_ssml(ssml: &str) -> (r: Result<Ssml, SsmlError>)
    ensures
        parsed_as_outcome(r, parse_outcome(ssml@, false)),
{
    SsmlParser::new().parse(ssml)
}

/// Builds an `SsmlParser`; options not set keep their defaults.
#[derive(Clone, Copy, Debug)]
pub struct SsmlParserBuilder {
    pub expand_sub: Option<bool>,
}

impl SsmlParserBuilder {
    /// A builder with no option set.
    pub fn default() -> (r: SsmlParserBuilder)
        ensures
            r.expand_sub is None,
    {
        SsmlParserBuilder { expand_sub: None }
    }

    /// Sets whether `sub` elements are replaced by their alias.
    pub fn expand_sub(self, value: bool) -> (r: SsmlParserBuilder)
        ensures
            r.expand_sub == Some(value),
    {
        SsmlParserBuilder { expand_sub: Some(value) }
    }

    /// The parser with the options set, and defaults for the others.
    pub fn build(&self) -> (r: Result<SsmlParser, SsmlError>)
        ensures
            r is Ok,
            r->Ok_0.expand_sub == match self.expand_sub {
                Some(v) => v,
                None => false,
            },
    {
        Ok(SsmlParser { expand_sub: match self.expand_sub { Some(v) => v, None => false } })
    }
}

} // verus!
