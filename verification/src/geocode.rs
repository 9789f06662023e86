//! The `geocode` element: an administrative code identifying an area
//! through an external coding scheme.

use vstd::prelude::*;
use crate::deserialise_error::{DeserialiseError, DeserialiseErrorV};
use crate::utilities::{parse_name_value_pair, sp_nvp, sp_step};
use crate::xml_events::{EventV, XmlEvent};

verus! {

pub const GEOCODE_TAG: &'static str = "geocode";

/// A name/value pair naming an area in an external coding scheme.
#[derive(Debug, Clone, PartialEq)]
pub struct Geocode {
    pub name: Option<String>,
    pub value: Option<String>,
}

/// Spec-level mirror of [`Geocode`].
pub struct GeocodeV {
    pub name: Option<Seq<char>>,
    pub value: Option<Seq<char>>,
}

impl View for Geocode {
    type V = GeocodeV;

    open spec fn view(&self) -> GeocodeV {
        GeocodeV { name: self.name.deep_view(), value: self.value.deep_view() }
    }
}

impl DeepView for Geocode {
    type V = GeocodeV;

    open spec fn deep_view(&self) -> GeocodeV {
        self.view()
    }
}

/// What reading a `geocode` element yields: the pair, or nothing at all
/// when the element closed without either child, with the index after the
/// end tag.
pub open spec fn sp_geocode(ns: Seq<char>, evs: Seq<EventV>, i: int) -> Result<
    (Option<GeocodeV>, int),
    DeserialiseErrorV,
> {
    match sp_nvp(ns, evs, i, GEOCODE_TAG@, None, None) {
        Ok(((n, v), j)) => {
            if n is None && v is None {
                Ok((None, j))
            } else {
                Ok((Some(GeocodeV { name: n, value: v }), j))
            }
        },
        Err(e) => Err(e),
    }
}

impl Geocode {
    /// An empty geocode, for programmatic construction.
    pub fn initialise() -> (r: Geocode)
        ensures
            r@ == (GeocodeV { name: None, value: None }),
    {
        Geocode { name: None, value: None }
    }

    /// Reads one `geocode` element; an entry whose both halves are missing
    /// is discarded by the caller, so it is returned as `None`.
    pub fn deserialize_from_xml(namespace: &str, events: &Vec<XmlEvent>, pos: usize) -> (r: Result<
        (Option<Geocode>, usize),
        DeserialiseError,
    >)
        ensures
            sp_step(r) == sp_geocode(namespace@, events.deep_view(), pos as int),
            r matches Ok((_, j)) ==> pos < j <= events@.len(),
    {
        let ((name, value), j) = match parse_name_value_pair(events, pos, namespace, GEOCODE_TAG) {
            Ok(x) => x,
            Err(e) => return Err(e),
        };
        if name.is_none() && value.is_none() {
            Ok((None, j))
        } else {
            Ok((Some(Geocode { name, value }), j))
        }
    }
}


/// A successful geocode read always makes progress and stays in bounds.
pub proof fn lemma_geocode_progress(ns: Seq<char>, evs: Seq<EventV>, i: int)
    requires
        0 <= i,
    ensures
        sp_geocode(ns, evs, i) matches Ok((_, j)) ==> i < j <= evs.len(),
{
    crate::utilities::lemma_nvp_progress(ns, evs, i, GEOCODE_TAG@, None, None);
}

} // verus!
