//! The `eventCode` element: a system-specific code classifying the event
//! of an info block.

use vstd::prelude::*;
use crate::deserialise_error::{DeserialiseError, DeserialiseErrorV};
use crate::utilities::{parse_name_value_pair, sp_nvp, sp_step};
use crate::xml_events::{EventV, XmlEvent};

verus! {

pub const EVENT_CODE_TAG: &'static str = "eventCode";

/// A name/value code classifying the event.
#[derive(Debug, Clone, PartialEq)]
pub struct EventCode {
    pub name: Option<String>,
    pub value: Option<String>,
}

/// Spec-level mirror of [`EventCode`].
pub struct EventCodeV {
    pub name: Option<Seq<char>>,
    pub value: Option<Seq<char>>,
}

impl View for EventCode {
    type V = EventCodeV;

    open spec fn view(&self) -> EventCodeV {
        EventCodeV { name: self.name.deep_view(), value: self.value.deep_view() }
    }
}

impl DeepView for EventCode {
    type V = EventCodeV;

    open spec fn deep_view(&self) -> EventCodeV {
        self.view()
    }
}

/// What reading an `eventCode` element yields: the pair, either half
/// absent when its element was empty, with the index after the end tag.
pub open spec fn sp_event_code(ns: Seq<char>, evs: Seq<EventV>, i: int) -> Result<
    (EventCodeV, int),
    DeserialiseErrorV,
> {
    match sp_nvp(ns, evs, i, EVENT_CODE_TAG@, None, None) {
        Ok(((n, v), j)) => Ok((EventCodeV { name: n, value: v }, j)),
        Err(e) => Err(e),
    }
}

impl EventCode {
    /// An empty event code, for programmatic construction.
    pub fn initialise() -> (r: EventCode)
        ensures
            r@ == (EventCodeV { name: None, value: None }),
    {
        EventCode { name: None, value: None }
    }

    /// Reads one `eventCode` element; empty halves are kept as absent
    /// fields.
    pub fn deserialize_from_xml(namespace: &str, events: &Vec<XmlEvent>, pos: usize) -> (r: Result<
        (EventCode, usize),
        DeserialiseError,
    >)
        ensures
            sp_step(r) == sp_event_code(namespace@, events.deep_view(), pos as int),
            r matches Ok((_, j)) ==> pos < j <= events@.len(),
    {
        let ((name, value), j) = match parse_name_value_pair(events, pos, namespace, EVENT_CODE_TAG) {
            Ok(x) => x,
            Err(e) => return Err(e),
        };
        Ok((EventCode { name, value }, j))
    }
}


/// A successful event-code read always makes progress and stays in bounds.
pub proof fn lemma_event_code_progress(ns: Seq<char>, evs: Seq<EventV>, i: int)
    requires
        0 <= i,
    ensures
        sp_event_code(ns, evs, i) matches Ok((_, j)) ==> i < j <= evs.len(),
{
    crate::utilities::lemma_nvp_progress(ns, evs, i, EVENT_CODE_TAG@, None, None);
}

} // verus!
