//! The event-source boundary.  The underlying XML tokenizer turns the raw
//! document text into a stream of namespaced structural events; the
//! deserializer consumes only that stream.  The tokenizer is trusted, the
//! driver that collects the stream into a vector is verified.

use vstd::prelude::*;

verus! {

/// One structural token of the document: a namespaced start, end or empty
/// element, a piece of text, a general reference, an event kind the
/// dispatcher has no case for, the end of input, or a tokenizer failure.
pub enum XmlEvent {
    Start { ns: Option<String>, name: String },
    End { ns: Option<String>, name: String },
    Empty { ns: Option<String>, name: String },
    Text { content: String },
    Ref { name: String },
    Other,
    Eof,
    Fail { message: String },
}

/// Spec-level mirror of [`XmlEvent`].
pub enum EventV {
    Start { ns: Option<Seq<char>>, name: Seq<char> },
    End { ns: Option<Seq<char>>, name: Seq<char> },
    Empty { ns: Option<Seq<char>>, name: Seq<char> },
    Text { content: Seq<char> },
    Ref { name: Seq<char> },
    Other,
    Eof,
    Fail { message: Seq<char> },
}

/// The view of an optional namespace.
pub open spec fn sp_opt_str(o: Option<String>) -> Option<Seq<char>> {
    match o {
        Some(s) => Some(s@),
        None => None,
    }
}

impl View for XmlEvent {
    type V = EventV;

    open spec fn view(&self) -> EventV {
        match self {
            XmlEvent::Start { ns, name } => EventV::Start { ns: sp_opt_str(*ns), name: name@ },
            XmlEvent::End { ns, name } => EventV::End { ns: sp_opt_str(*ns), name: name@ },
            XmlEvent::Empty { ns, name } => EventV::Empty { ns: sp_opt_str(*ns), name: name@ },
            XmlEvent::Text { content } => EventV::Text { content: content@ },
            XmlEvent::Ref { name } => EventV::Ref { name: name@ },
            XmlEvent::Other => EventV::Other,
            XmlEvent::Eof => EventV::Eof,
            XmlEvent::Fail { message } => EventV::Fail { message: message@ },
        }
    }
}

impl DeepView for XmlEvent {
    type V = EventV;

    open spec fn deep_view(&self) -> EventV {
        self.view()
    }
}

/// An event after which the tokenizer delivers nothing further.
pub open spec fn sp_is_terminal(e: EventV) -> bool {
    e is Eof || e is Fail
}

/// A well-formed event stream: non-empty, closed by exactly one terminal
/// event, which stands last.
pub open spec fn sp_terminated(s: Seq<EventV>) -> bool {
    &&& s.len() > 0
    &&& sp_is_terminal(s.last())
    &&& forall|i: int| 0 <= i < s.len() - 1 ==> !sp_is_terminal(s[i])
}


/// Constructors used by the tokenizer boundary to assemble events from
/// plain values.
pub(crate) fn start_of(ns: Option<String>, name: String) -> (r: XmlEvent)
    ensures
        r == (XmlEvent::Start { ns, name }),
{
    XmlEvent::Start { ns, name }
}

pub(crate) fn end_of(ns: Option<String>, name: String) -> (r: XmlEvent)
    ensures
        r == (XmlEvent::End { ns, name }),
{
    XmlEvent::End { ns, name }
}

pub(crate) fn empty_of(ns: Option<String>, name: String) -> (r: XmlEvent)
    ensures
        r == (XmlEvent::Empty { ns, name }),
{
    XmlEvent::Empty { ns, name }
}

pub(crate) fn text_of(content: String) -> (r: XmlEvent)
    ensures
        r == (XmlEvent::Text { content }),
{
    XmlEvent::Text { content }
}

pub(crate) fn ref_of(name: String) -> (r: XmlEvent)
    ensures
        r == (XmlEvent::Ref { name }),
{
    XmlEvent::Ref { name }
}

pub(crate) fn fail_of(message: String) -> (r: XmlEvent)
    ensures
        r == (XmlEvent::Fail { message }),
{
    XmlEvent::Fail { message }
}

#[verifier::external_type_specification]
#[verifier::external_body]
#[verifier::reject_recursive_types(R)]
pub struct ExNsReader<R>(quick_xml::reader::NsReader<R>);

/// The events the tokenizer has yet to deliver, up to and including the
/// first end-of-input or failure.
pub uninterp spec fn remaining(r: quick_xml::reader::NsReader<&[u8]>) -> Seq<EventV>;

/// The full event stream of a document: what a fresh tokenizer delivers
/// for it, a function of the text alone.
pub uninterp spec fn doc_events(s: Seq<char>) -> Seq<EventV>;

/// Relies on `quick_xml::reader::NsReader::from_str`: a fresh reader over
/// `s` delivers the token stream of `s`, which is a function of the text
/// alone and always ends with exactly one end-of-input or failure event.
#[verifier::external_body]
fn reader_from_str<'a>(s: &'a str) -> (r: quick_xml::reader::NsReader<&'a [u8]>)
    ensures
        remaining(r) == doc_events(s@),
        sp_terminated(remaining(r)),
{
    quick_xml::reader::NsReader::from_str(s)
}

/// Relies on `quick_xml::reader::NsReader::read_resolved_event`: each call
/// delivers the next event of the stream together with the resolved
/// namespace of its element; the accessors used here merely convert the
/// pieces to plain values.
#[verifier::external_body]
fn next_event(r: &mut quick_xml::reader::NsReader<&[u8]>) -> (e: XmlEvent)
    requires
        remaining(*old(r)).len() > 0,
    ensures
        e@ == remaining(*old(r))[0],
        remaining(*old(r)).len() > 1 ==> remaining(*final(r)) == remaining(*old(r)).drop_first(),
{
    let (rr, ev) = match r.read_resolved_event() {
        Ok(x) => x,
        Err(e) => return fail_of(e.to_string()),
    };
    let ns = if let Bound(b) = rr { Some(b.0.to_string()) } else { None };
    match ev {
        Start(e) => start_of(ns, e.local_name().into_inner().to_string()),
        End(e) => end_of(ns, e.local_name().into_inner().to_string()),
        Empty(e) => empty_of(ns, e.local_name().into_inner().to_string()),
        Text(t) => text_of(t.xml10_content().into_owned()),
        GeneralRef(t) => ref_of(t.into_inner().into_owned()),
        Eof => XmlEvent::Eof,
        _ => XmlEvent::Other,
    }
}

fn is_terminal_event(e: &XmlEvent) -> (r: bool)
    ensures
        r == sp_is_terminal(e@),
{
    match e {
        XmlEvent::Eof => true,
        XmlEvent::Fail { .. } => true,
        _ => false,
    }
}

/// Tokenizes a whole document: the returned vector is exactly the
/// document's event stream, which always ends with its single terminal
/// event.
pub fn read_events(s: &str) -> (r: Vec<XmlEvent>)
    ensures
        r.deep_view() == doc_events(s@),
        sp_terminated(doc_events(s@)),
{
    let mut reader = reader_from_str(s);
    let ghost evs = doc_events(s@);
    let mut out: Vec<XmlEvent> = Vec::new();
    let mut done: bool = false;
    proof {
        assert(out.deep_view() =~= evs.take(0));
    }
    while !done
        invariant
            sp_terminated(evs),
            out.deep_view() == evs.take(out@.len() as int),
            !done ==> out@.len() < evs.len() && remaining(reader) == evs.skip(out@.len() as int),
            done ==> out.deep_view() == evs,
        decreases evs.len() - out@.len(),
    {
        proof {
            assert(remaining(reader).len() == evs.len() - out@.len());
        }
        let e = next_event(&mut reader);
        let t = is_terminal_event(&e);
        proof {
            assert(e@ == evs[out@.len() as int]);
        }
        let ghost old_out = out.deep_view();
        let ghost k = out@.len() as int;
        out.push(e);
        proof {
            assert(out.deep_view() =~= old_out.push(e@));
            assert(out.deep_view() =~= evs.take(k + 1));
        }
        if t {
            done = true;
            proof {
                assert(sp_is_terminal(evs[k]));
                if k < evs.len() - 1 {
                    assert(!sp_is_terminal(evs[k]));
                }
                assert(k == evs.len() - 1);
                assert(evs.take(k + 1) =~= evs);
            }
        } else {
            proof {
                if k == evs.len() - 1 {
                    assert(sp_is_terminal(evs.last()));
                }
                assert(k < evs.len() - 1);
            }
        }
    }
    out
}


/// A short name of an event's kind, used by the unknown-event error.
pub open spec fn sp_describe(e: EventV) -> Seq<char> {
    match e {
        EventV::Start { .. } => "Start"@,
        EventV::End { .. } => "End"@,
        EventV::Empty { .. } => "Empty"@,
        EventV::Text { .. } => "Text"@,
        EventV::Ref { .. } => "Ref"@,
        EventV::Other => "Other"@,
        EventV::Eof => "Eof"@,
        EventV::Fail { .. } => "Fail"@,
    }
}

/// The short kind name of an event.
pub fn describe(e: &XmlEvent) -> (r: String)
    ensures
        r@ == sp_describe(e@),
{
    match e {
        XmlEvent::Start { .. } => "Start".to_owned(),
        XmlEvent::End { .. } => "End".to_owned(),
        XmlEvent::Empty { .. } => "Empty".to_owned(),
        XmlEvent::Text { .. } => "Text".to_owned(),
        XmlEvent::Ref { .. } => "Ref".to_owned(),
        XmlEvent::Other => "Other".to_owned(),
        XmlEvent::Eof => "Eof".to_owned(),
        XmlEvent::Fail { .. } => "Fail".to_owned(),
    }
}

} // verus!


use quick_xml::events::Event::{CData, Comment, DocType, Decl, Empty, End, Eof, GeneralRef, PI, Start, Text};
use quick_xml::name::ResolveResult::Bound;
