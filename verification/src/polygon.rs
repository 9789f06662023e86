//! The `polygon` element: an ordered ring of points parsed from a single
//! whitespace-separated string of `latitude,longitude` pairs.

use vstd::prelude::*;
use crate::deserialise_error::{DeserialiseError, DeserialiseErrorV};
use crate::point::{parse_points_string, sp_points, Point, PointV};
use crate::utilities::{read_string, sp_read_string, sp_step};
use crate::xml_events::{EventV, XmlEvent};

verus! {

pub const POLYGON_TAG: &'static str = "polygon";

/// An ordered ring of points; the closing of the ring is a convention of
/// the document, not enforced by the decoder.
#[derive(Debug, Clone, PartialEq)]
pub struct Polygon {
    pub points: Vec<Point>,
}

/// Spec-level mirror of [`Polygon`].
pub struct PolygonV {
    pub points: Seq<PointV>,
}

impl View for Polygon {
    type V = PolygonV;

    open spec fn view(&self) -> PolygonV {
        PolygonV { points: self.points.deep_view() }
    }
}

impl DeepView for Polygon {
    type V = PolygonV;

    open spec fn deep_view(&self) -> PolygonV {
        self.view()
    }
}

/// What reading a `polygon` element yields: the decoded ring, or nothing
/// when the element holds no text or no decodable point, with the index
/// after the end tag; a float-parse failure aborts.
pub open spec fn sp_polygon(ns: Seq<char>, evs: Seq<EventV>, i: int) -> Result<
    (Option<PolygonV>, int),
    DeserialiseErrorV,
> {
    match sp_read_string(ns, evs, i, POLYGON_TAG@, Seq::<char>::empty()) {
        Ok((Some(t), j)) => match sp_points(t) {
            Ok(Some(ps)) => Ok((Some(PolygonV { points: ps }), j)),
            Ok(None) => Ok((None, j)),
            Err(e) => Err(e),
        },
        Ok((None, j)) => Ok((None, j)),
        Err(e) => Err(e),
    }
}

/// Reads one `polygon` element.
pub fn deserialize_from_xml(namespace: &str, events: &Vec<XmlEvent>, pos: usize) -> (r: Result<
    (Option<Polygon>, usize),
    DeserialiseError,
>)
    ensures
        sp_step(r) == sp_polygon(namespace@, events.deep_view(), pos as int),
        r matches Ok((_, j)) ==> pos < j <= events@.len(),
{
    proof {
        crate::utilities::lemma_read_string_progress(
            namespace@,
            events.deep_view(),
            pos as int,
            POLYGON_TAG@,
            Seq::<char>::empty(),
        );
    }
    let (text, j) = match read_string(namespace, events, pos, POLYGON_TAG) {
        Ok(x) => x,
        Err(e) => return Err(e),
    };
    match text {
        Some(t) => {
            match parse_points_string(t.as_str()) {
                Ok(Some(points)) => Ok((Some(Polygon { points }), j)),
                Ok(None) => Ok((None, j)),
                Err(e) => Err(e),
            }
        },
        None => Ok((None, j)),
    }
}


/// A successful polygon read always makes progress and stays in bounds.
pub proof fn lemma_polygon_progress(ns: Seq<char>, evs: Seq<EventV>, i: int)
    requires
        0 <= i,
    ensures
        sp_polygon(ns, evs, i) matches Ok((_, j)) ==> i < j <= evs.len(),
{
    crate::utilities::lemma_read_string_progress(ns, evs, i, POLYGON_TAG@, Seq::<char>::empty());
}

} // verus!
