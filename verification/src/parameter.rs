//! The `parameter` element: a system-specific name/value datum of an info
//! block.

use vstd::prelude::*;
use crate::deserialise_error::{DeserialiseError, DeserialiseErrorV};
use crate::utilities::{parse_name_value_pair, sp_nvp, sp_step};
use crate::xml_events::{EventV, XmlEvent};

verus! {

pub const PARAMETER_TAG: &'static str = "parameter";

/// A name/value datum attached to an info block.
#[derive(Debug, Clone, PartialEq)]
pub struct Parameter {
    pub name: Option<String>,
    pub value: Option<String>,
}

/// Spec-level mirror of [`Parameter`].
pub struct ParameterV {
    pub name: Option<Seq<char>>,
    pub value: Option<Seq<char>>,
}

impl View for Parameter {
    type V = ParameterV;

    open spec fn view(&self) -> ParameterV {
        ParameterV { name: self.name.deep_view(), value: self.value.deep_view() }
    }
}

impl DeepView for Parameter {
    type V = ParameterV;

    open spec fn deep_view(&self) -> ParameterV {
        self.view()
    }
}

/// What reading a `parameter` element yields: the pair, either half absent
/// when its element was empty, with the index after the end tag.
pub open spec fn sp_parameter(ns: Seq<char>, evs: Seq<EventV>, i: int) -> Result<
    (ParameterV, int),
    DeserialiseErrorV,
> {
    match sp_nvp(ns, evs, i, PARAMETER_TAG@, None, None) {
        Ok(((n, v), j)) => Ok((ParameterV { name: n, value: v }, j)),
        Err(e) => Err(e),
    }
}

impl Parameter {
    /// An empty parameter, for programmatic construction.
    pub fn initialise() -> (r: Parameter)
        ensures
            r@ == (ParameterV { name: None, value: None }),
    {
        Parameter { name: None, value: None }
    }

    /// Reads one `parameter` element; empty halves are kept as absent
    /// fields.
    pub fn deserialize_from_xml(namespace: &str, events: &Vec<XmlEvent>, pos: usize) -> (r: Result<
        (Parameter, usize),
        DeserialiseError,
    >)
        ensures
            sp_step(r) == sp_parameter(namespace@, events.deep_view(), pos as int),
            r matches Ok((_, j)) ==> pos < j <= events@.len(),
    {
        let ((name, value), j) = match parse_name_value_pair(events, pos, namespace, PARAMETER_TAG) {
            Ok(x) => x,
            Err(e) => return Err(e),
        };
        Ok((Parameter { name, value }, j))
    }
}


/// A successful parameter read always makes progress and stays in bounds.
pub proof fn lemma_parameter_progress(ns: Seq<char>, evs: Seq<EventV>, i: int)
    requires
        0 <= i,
    ensures
        sp_parameter(ns, evs, i) matches Ok((_, j)) ==> i < j <= evs.len(),
{
    crate::utilities::lemma_nvp_progress(ns, evs, i, PARAMETER_TAG@, None, None);
}

} // verus!
