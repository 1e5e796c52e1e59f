//! Writing a document back out as SSML, and rewriting it event by event.
use vstd::prelude::*;
use crate::document::{logged_text, text_cursor, ParserLogEvent, Ssml};
use crate::elements::{attribute_chars, desc_text, element_name, kind_of, ParsedElement};
use crate::text::{append_chars, append_str, chars_of, string_of};
use crate::xml::{escape, escaped};

verus! {

/// An owned event of a document, handed to transformations: text runs carry their text.
#[derive(Clone, Debug)]
pub enum ParserEvent {
    /// Some text within a pair of tags.
    Text(String),
    /// An open tag.
    Open(ParsedElement),
    /// A close tag.
    Close(ParsedElement),
    /// An empty-element tag such as `<break/>`.
    Empty(ParsedElement),
}

/// The result of writing out a document after a transformation.
#[derive(Clone, Debug)]
pub struct TransformedSsml {
    /// The SSML written.
    pub ssml_string: String,
    /// The text of all text events written, the text to be synthesised.
    pub synthesisable_text: String,
}

pub open spec fn open_tag_chars(e: ParsedElement) -> Seq<char> {
    seq!['<'] + element_name(kind_of(e)) + attribute_chars(e) + seq!['>']
}

/// A close tag; a `desc` element's text is written just before it.
pub open spec fn close_tag_chars(e: ParsedElement) -> Seq<char> {
    escaped(desc_text(e)) + seq!['<', '/'] + element_name(kind_of(e)) + seq!['>']
}

pub open spec fn empty_tag_chars(e: ParsedElement) -> Seq<char> {
    seq!['<'] + element_name(kind_of(e)) + attribute_chars(e) + seq!['/', '>']
}

/// The SSML of one log event of a document with text `text`.
pub open spec fn log_event_chars(ev: ParserLogEvent, text: Seq<char>) -> Seq<char> {
    match ev {
        ParserLogEvent::Text(s, e) => escaped(text.subrange(s as int, e as int)),
        ParserLogEvent::Open(e) => open_tag_chars(e),
        ParserLogEvent::Close(e) => close_tag_chars(e),
        ParserLogEvent::Empty(e) => empty_tag_chars(e),
    }
}

/// The SSML of a whole event log.
pub open spec fn written(log: Seq<ParserLogEvent>, text: Seq<char>) -> Seq<char>
    decreases log.len(),
{
    if log.len() == 0 {
        Seq::empty()
    } else {
        written(log.drop_last(), text) + log_event_chars(log.last(), text)
    }
}

/// The SSML of one owned event.
pub open spec fn event_chars(ev: ParserEvent) -> Seq<char> {
    match ev {
        ParserEvent::Text(t) => escaped(t@),
        ParserEvent::Open(e) => open_tag_chars(e),
        ParserEvent::Close(e) => close_tag_chars(e),
        ParserEvent::Empty(e) => empty_tag_chars(e),
    }
}

/// The text an owned event contributes to the synthesisable text.
pub open spec fn event_text(ev: ParserEvent) -> Seq<char> {
    match ev {
        ParserEvent::Text(t) => t@,
        _ => Seq::empty(),
    }
}

pub open spec fn rendered(evs: Seq<ParserEvent>) -> Seq<char>
    decreases evs.len(),
{
    if evs.len() == 0 {
        Seq::empty()
    } else {
        rendered(evs.drop_last()) + event_chars(evs.last())
    }
}

pub open spec fn spoken(evs: Seq<ParserEvent>) -> Seq<char>
    decreases evs.len(),
{
    if evs.len() == 0 {
        Seq::empty()
    } else {
        spoken(evs.drop_last()) + event_text(evs.last())
    }
}

/// The text a log event contributes.
pub open spec fn log_event_text(ev: ParserLogEvent, text: Seq<char>) -> Seq<char> {
    match ev {
        ParserLogEvent::Text(s, e) => text.subrange(s as int, e as int),
        _ => Seq::empty(),
    }
}

/// Every text run of a log whose runs tile the text up to `n` lies within `[0, n]`.
pub proof fn lemma_text_events_in_range(log: Seq<ParserLogEvent>, i: int)
    requires
        text_cursor(log) is Some,
        0 <= i < log.len(),
    ensures
        match log[i] {
            ParserLogEvent::Text(s, e) => s <= e && e <= text_cursor(log)->0,
            _ => true,
        },
    decreases log.len(),
{
    crate::document::lemma_text_cursor_monotone(log);
    if i < log.len() - 1 {
        lemma_text_events_in_range(log.drop_last(), i);
        assert(log.drop_last()[i] == log[i]);
    }
}

fn element_name_chars(e: &ParsedElement) -> (r: Vec<char>)
    ensures
        r@ == element_name(kind_of(*e)),
{
    let k = e.kind();
    chars_of(k.to_string().as_str())
}

fn push_open_tag(out: &mut Vec<char>, e: &ParsedElement, empty: bool)
    ensures
        final(out)@ == old(out)@ + if empty { empty_tag_chars(*e) } else { open_tag_chars(*e) },
{
    out.push('<');
    append_chars(out, &element_name_chars(e));
    append_chars(out, &e.attribute_chars());
    if empty {
        out.push('/');
    }
    out.push('>');
    proof {
        if empty {
            assert(final(out)@ =~= old(out)@ + empty_tag_chars(*e));
        } else {
            assert(final(out)@ =~= old(out)@ + open_tag_chars(*e));
        }
    }
}

fn push_close_tag(out: &mut Vec<char>, e: &ParsedElement)
    ensures
        final(out)@ == old(out)@ + close_tag_chars(*e),
{
    if let ParsedElement::Description(t) = e {
        let esc = escape(t.as_str());
        append_str(out, esc.as_str());
    } else {
        assert(escaped(desc_text(*e)) =~= Seq::<char>::empty());
    }
    out.push('<');
    out.push('/');
    append_chars(out, &element_name_chars(e));
    out.push('>');
    assert(final(out)@ =~= old(out)@ + close_tag_chars(*e));
}

fn push_event(out: &mut Vec<char>, ev: &ParserEvent)
    ensures
        final(out)@ == old(out)@ + event_chars(*ev),
{
    match ev {
        ParserEvent::Text(t) => {
            let esc = escape(t.as_str());
            append_str(out, esc.as_str());
        },
        ParserEvent::Open(e) => push_open_tag(out, e, false),
        ParserEvent::Close(e) => push_close_tag(out, e),
        ParserEvent::Empty(e) => push_open_tag(out, e, true),
    }
}

impl ParserEvent {
    /// The event's SSML.
    pub fn to_string(&self) -> (r: String)
        ensures
            r@ == event_chars(*self),
    {
        let mut out: Vec<char> = Vec::new();
        push_event(&mut out, self);
        assert(out@ =~= event_chars(*self));
        string_of(&out)
    }
}

/// Writes events out: their SSML, and the text of their text events.
pub fn write_events(events: &Vec<ParserEvent>) -> (r: TransformedSsml)
    ensures
        r.ssml_string@ == rendered(events@),
        r.synthesisable_text@ == spoken(events@),
{
    let mut ssml: Vec<char> = Vec::new();
    let mut spoken_text: Vec<char> = Vec::new();
    let mut i: usize = 0;
    while i < events.len()
        invariant
            i <= events.len(),
            ssml@ == rendered(events@.take(i as int)),
            spoken_text@ == spoken(events@.take(i as int)),
        decreases events.len() - i,
    {
        push_event(&mut ssml, &events[i]);
        if let ParserEvent::Text(t) = &events[i] {
            append_str(&mut spoken_text, t.as_str());
        }
        i += 1;
        assert(events@.take(i as int).drop_last() =~= events@.take(i - 1));
        assert(spoken_text@ =~= spoken(events@.take(i as int)));
    }
    assert(events@.take(i as int) =~= events@);
    TransformedSsml { ssml_string: string_of(&ssml), synthesisable_text: string_of(&spoken_text) }
}

impl Ssml {
    /// Writes the document out as SSML.
    pub fn write_ssml(&self) -> (r: String)
        ensures
            r@ == written(self.log_view(), self.text_view()),
    {
        self.well_formed();
        let log = self.event_log();
        let text = self.get_text();
        let mut out: Vec<char> = Vec::new();
        let mut i: usize = 0;
        while i < log.len()
            invariant
                self.wf(),
                log@ == self.log_view(),
                text@ == self.text_view(),
                i <= log.len(),
                out@ == written(log@.take(i as int), text@),
            decreases log.len() - i,
        {
            proof { lemma_text_events_in_range(log@, i as int); }
            match &log[i] {
                ParserLogEvent::Text(s, e) => {
                    let piece = text.substring_char(*s, *e);
                    let esc = escape(piece);
                    append_str(&mut out, esc.as_str());
                },
                ParserLogEvent::Open(e) => push_open_tag(&mut out, e, false),
                ParserLogEvent::Close(e) => push_close_tag(&mut out, e),
                ParserLogEvent::Empty(e) => push_open_tag(&mut out, e, true),
            }
            i += 1;
            assert(log@.take(i as int).drop_last() =~= log@.take(i - 1));
        }
        assert(log@.take(i as int) =~= log@);
        string_of(&out)
    }

    /// The document's events in order, with each text run carrying its text.
    pub fn event_iter(&self) -> (r: Vec<ParserEvent>)
        ensures
            r@.len() == self.log_view().len(),
            forall|i: int| 0 <= i < r@.len() ==> event_chars(#[trigger] r@[i]) == log_event_chars(self.log_view()[i], self.text_view())
                && event_text(r@[i]) == log_event_text(self.log_view()[i], self.text_view()),
    {
        self.well_formed();
        let log = self.event_log();
        let text = self.get_text();
        let mut out: Vec<ParserEvent> = Vec::new();
        let mut i: usize = 0;
        while i < log.len()
            invariant
                self.wf(),
                log@ == self.log_view(),
                text@ == self.text_view(),
                i <= log.len(),
                out@.len() == i,
                forall|j: int| 0 <= j < i ==> event_chars(#[trigger] out@[j]) == log_event_chars(log@[j], text@)
                    && event_text(out@[j]) == log_event_text(log@[j], text@),
            decreases log.len() - i,
        {
            proof { lemma_text_events_in_range(log@, i as int); }
            let ev = match &log[i] {
                ParserLogEvent::Text(s, e) => ParserEvent::Text(String::from_str(text.substring_char(*s, *e))),
                ParserLogEvent::Open(e) => ParserEvent::Open(e.duplicate()),
                ParserLogEvent::Close(e) => ParserEvent::Close(e.duplicate()),
                ParserLogEvent::Empty(e) => ParserEvent::Empty(e.duplicate()),
            };
            out.push(ev);
            i += 1;
        }
        out
    }

    /// Writes the document out after passing each event through `f`, which may replace it or
    /// drop it (`None`). Dropping an open tag without its close tag is the caller's concern.
    pub fn write_ssml_with_transform<F: Fn(ParserEvent) -> Option<ParserEvent>>(&self, f: F) -> (r: TransformedSsml)
        requires
            forall|ev: ParserEvent| call_requires(f, (ev,)),
        ensures
            exists|ins: Seq<ParserEvent>, outs: Seq<Option<ParserEvent>>| #![trigger ins.len(), somes(outs)] {
                &&& ins.len() == self.log_view().len()
                &&& outs.len() == ins.len()
                &&& forall|i: int| 0 <= i < ins.len() ==> event_chars(#[trigger] ins[i]) == log_event_chars(self.log_view()[i], self.text_view())
                    && event_text(ins[i]) == log_event_text(self.log_view()[i], self.text_view())
                &&& forall|i: int| 0 <= i < ins.len() ==> call_ensures(f, (#[trigger] ins[i],), outs[i])
                &&& r.ssml_string@ == rendered(somes(outs))
                &&& r.synthesisable_text@ == spoken(somes(outs))
            },
    {
        let events = self.event_iter();
        let ghost ins = events@;
        let mut kept: Vec<ParserEvent> = Vec::new();
        let ghost mut outs: Seq<Option<ParserEvent>> = Seq::empty();
        let mut pending = events;
        while pending.len() > 0
            invariant
                forall|ev: ParserEvent| call_requires(f, (ev,)),
                outs.len() + pending@.len() == ins.len(),
                pending@ == ins.skip(outs.len() as int),
                kept@ == somes(outs),
                forall|i: int| 0 <= i < outs.len() ==> call_ensures(f, (#[trigger] ins[i],), outs[i]),
            decreases pending.len(),
        {
            let ghost done_n = outs.len();
            let ev = pending.remove(0);
            proof { assert(ins[done_n as int] == ev); }
            let out = f(ev);
            proof {
                assert(outs.push(out).drop_last() =~= outs);
            }
            match out {
                Some(x) => kept.push(x),
                None => {},
            }
            proof {
                outs = outs.push(out);
                assert(pending@ =~= ins.skip(outs.len() as int));
            }
        }
        let r = write_events(&kept);
        assert(r.ssml_string@ == rendered(somes(outs)) && ins.len() == self.log_view().len());
        r
    }
}

/// The events kept: the `Some` entries of `outs`, in order.
pub open spec fn somes(outs: Seq<Option<ParserEvent>>) -> Seq<ParserEvent>
    decreases outs.len(),
{
    if outs.len() == 0 {
        Seq::empty()
    } else {
        match outs.last() {
            Some(e) => somes(outs.drop_last()).push(e),
            None => somes(outs.drop_last()),
        }
    }
}

/// Writing is a function of the document alone: two documents with the same text and the same
/// events are written the same way.
pub proof fn lemma_write_deterministic(a: &Ssml, b: &Ssml)
    requires
        a.text_view() == b.text_view(),
        a.log_view() == b.log_view(),
    ensures
        written(a.log_view(), a.text_view()) == written(b.log_view(), b.text_view()),
{
}

/// Writing the events of a document, each kept as it is, gives the document's own SSML and
/// its text: the identity transformation changes nothing.
pub proof fn lemma_identity_transform(doc: &Ssml, evs: Seq<ParserEvent>)
    requires
        doc.wf(),
        evs.len() == doc.log_view().len(),
        forall|i: int| 0 <= i < evs.len() ==> event_chars(#[trigger] evs[i]) == log_event_chars(doc.log_view()[i], doc.text_view())
            && event_text(evs[i]) == log_event_text(doc.log_view()[i], doc.text_view()),
    ensures
        rendered(evs) == written(doc.log_view(), doc.text_view()),
        spoken(evs) == doc.text_view(),
{
    lemma_rendered_prefix(doc, evs, evs.len() as int);
    crate::document::lemma_text_runs_concatenate(doc);
    assert(evs.take(evs.len() as int) =~= evs);
    assert(doc.log_view().take(evs.len() as int) =~= doc.log_view());
}

proof fn lemma_rendered_prefix(doc: &Ssml, evs: Seq<ParserEvent>, n: int)
    requires
        doc.wf(),
        evs.len() == doc.log_view().len(),
        0 <= n <= evs.len(),
        forall|i: int| 0 <= i < evs.len() ==> event_chars(#[trigger] evs[i]) == log_event_chars(doc.log_view()[i], doc.text_view())
            && event_text(evs[i]) == log_event_text(doc.log_view()[i], doc.text_view()),
    ensures
        rendered(evs.take(n)) == written(doc.log_view().take(n), doc.text_view()),
        spoken(evs.take(n)) == logged_text(doc.log_view().take(n), doc.text_view()),
    decreases n,
{
    if n > 0 {
        lemma_rendered_prefix(doc, evs, n - 1);
        assert(evs.take(n).drop_last() =~= evs.take(n - 1));
        assert(doc.log_view().take(n).drop_last() =~= doc.log_view().take(n - 1));
        assert(evs.take(n).last() == evs[n - 1]);
        assert(doc.log_view().take(n).last() == doc.log_view()[n - 1]);
    } else {
        assert(evs.take(n) =~= Seq::<ParserEvent>::empty());
        assert(doc.log_view().take(n) =~= Seq::<ParserLogEvent>::empty());
    }
}

} // verus!
