//! The `circle` element: a center point plus a radius, parsed from a
//! single `latitude,longitude radius` string.

use vstd::prelude::*;
use crate::deserialise_error::{DeserialiseError, DeserialiseErrorV};
use crate::point::{Point, PointV};
use crate::text::{is_float_text, sp_is_float, sp_split_char, split_char};
use crate::utilities::{read_string, sp_read_string, sp_step};
use crate::xml_events::{EventV, XmlEvent};

verus! {

pub const CIRCLE_TAG: &'static str = "circle";

/// A circular area: a center location and a radius, both kept as their
/// validated floating-point texts.
#[derive(Debug, Clone, PartialEq)]
pub struct Circle {
    pub location: Option<Point>,
    pub radius: Option<String>,
}

/// Spec-level mirror of [`Circle`].
pub struct CircleV {
    pub location: Option<PointV>,
    pub radius: Option<Seq<char>>,
}

impl View for Circle {
    type V = CircleV;

    open spec fn view(&self) -> CircleV {
        CircleV { location: self.location.deep_view(), radius: self.radius.deep_view() }
    }
}

impl DeepView for Circle {
    type V = CircleV;

    open spec fn deep_view(&self) -> CircleV {
        self.view()
    }
}

/// The message of the malformed-circle error.
pub open spec fn sp_bad_circle_msg(s: Seq<char>) -> Seq<char> {
    "Could not split points and radius "@ + s
}

/// The message of the malformed-center error.
pub open spec fn sp_bad_center_msg(s: Seq<char>) -> Seq<char> {
    "Could not parse "@ + s
}

/// What splitting a circle string yields: the `(latitude, longitude,
/// radius)` texts of a `lat,lon radius` string whose three parts are valid
/// floats.
pub open spec fn sp_circle_parts(s: Seq<char>) -> Result<
    (Seq<char>, Seq<char>, Seq<char>),
    DeserialiseErrorV,
> {
    let pr = sp_split_char(s, ' ');
    if pr.len() < 2 {
        Err(DeserialiseErrorV::Error(sp_bad_circle_msg(s)))
    } else {
        let coords = sp_split_char(pr[0], ',');
        if coords.len() < 2 {
            Err(DeserialiseErrorV::Error(sp_bad_center_msg(pr[0])))
        } else if !sp_is_float(coords[0]) {
            Err(DeserialiseErrorV::ParseFloatError(coords[0]))
        } else if !sp_is_float(coords[1]) {
            Err(DeserialiseErrorV::ParseFloatError(coords[1]))
        } else if !sp_is_float(pr[1]) {
            Err(DeserialiseErrorV::ParseFloatError(pr[1]))
        } else {
            Ok((coords[0], coords[1], pr[1]))
        }
    }
}

/// Splits a `latitude,longitude radius` string into its three validated
/// float texts.
pub fn split_circle_string(circle_string: &str) -> (r: Result<
    (String, String, String),
    DeserialiseError,
>)
    ensures
        match r {
            Ok((lat, lon, rad)) => sp_circle_parts(circle_string@) == Ok::<
                _,
                DeserialiseErrorV,
            >((lat@, lon@, rad@)),
            Err(e) => sp_circle_parts(circle_string@) == Err::<
                (Seq<char>, Seq<char>, Seq<char>),
                _,
            >(e@),
        },
{
    let pr = split_char(circle_string, ' ');
    proof {
        assert(pr.deep_view() == sp_split_char(circle_string@, ' '));
    }
    if pr.len() < 2 {
        return Err(
            DeserialiseError::error(
                "Could not split points and radius ".to_owned().concat(circle_string).as_str(),
            ),
        );
    }
    proof {
        assert(pr.deep_view()[0] == pr@[0]@);
        assert(pr.deep_view()[1] == pr@[1]@);
    }
    let coords = split_char(pr[0].as_str(), ',');
    proof {
        assert(coords.deep_view() == sp_split_char(pr@[0]@, ','));
    }
    if coords.len() < 2 {
        return Err(
            DeserialiseError::error("Could not parse ".to_owned().concat(pr[0].as_str()).as_str()),
        );
    }
    proof {
        assert(coords.deep_view()[0] == coords@[0]@);
        assert(coords.deep_view()[1] == coords@[1]@);
    }
    if !is_float_text(coords[0].as_str()) {
        return Err(DeserialiseError::ParseFloatError(coords[0].clone()));
    }
    if !is_float_text(coords[1].as_str()) {
        return Err(DeserialiseError::ParseFloatError(coords[1].clone()));
    }
    if !is_float_text(pr[1].as_str()) {
        return Err(DeserialiseError::ParseFloatError(pr[1].clone()));
    }
    Ok((coords[0].clone(), coords[1].clone(), pr[1].clone()))
}

/// What reading a `circle` element yields: the circle of its text, with
/// the axis swap `(x, y) = (longitude, latitude)`, and the index after the
/// end tag; an element without text is treated as an empty circle string.
pub open spec fn sp_circle(ns: Seq<char>, evs: Seq<EventV>, i: int) -> Result<
    (CircleV, int),
    DeserialiseErrorV,
> {
    match sp_read_string(ns, evs, i, CIRCLE_TAG@, Seq::<char>::empty()) {
        Ok((txt, j)) => {
            let t = match txt {
                Some(t) => t,
                None => Seq::<char>::empty(),
            };
            match sp_circle_parts(t) {
                Ok((lat, lon, rad)) => Ok(
                    (
                        CircleV {
                            location: Some(PointV { x: lon, y: lat }),
                            radius: Some(rad),
                        },
                        j,
                    ),
                ),
                Err(e) => Err(e),
            }
        },
        Err(e) => Err(e),
    }
}

impl Circle {
    /// An empty circle, for programmatic construction.
    pub fn initialise() -> (r: Circle)
        ensures
            r@ == (CircleV { location: None, radius: None }),
    {
        Circle { location: None, radius: None }
    }

    /// Reads one `circle` element.
    pub fn deserialize_from_xml(namespace: &str, events: &Vec<XmlEvent>, pos: usize) -> (r: Result<
        (Circle, usize),
        DeserialiseError,
    >)
        ensures
            sp_step(r) == sp_circle(namespace@, events.deep_view(), pos as int),
            r matches Ok((_, j)) ==> pos < j <= events@.len(),
    {
        proof {
            crate::utilities::lemma_read_string_progress(
                namespace@,
                events.deep_view(),
                pos as int,
                CIRCLE_TAG@,
                Seq::<char>::empty(),
            );
        }
        let (text, j) = match read_string(namespace, events, pos, CIRCLE_TAG) {
            Ok(x) => x,
            Err(e) => return Err(e),
        };
        let t = match text {
            Some(t) => t,
            None => String::new(),
        };
        let (latitude, longitude, radius) = match split_circle_string(t.as_str()) {
            Ok(x) => x,
            Err(e) => return Err(e),
        };
        Ok(
            (
                Circle {
                    location: Some(Point { x: longitude, y: latitude }),
                    radius: Some(radius),
                },
                j,
            ),
        )
    }
}


/// A successful circle read always makes progress and stays in bounds.
pub proof fn lemma_circle_progress(ns: Seq<char>, evs: Seq<EventV>, i: int)
    requires
        0 <= i,
    ensures
        sp_circle(ns, evs, i) matches Ok((_, j)) ==> i < j <= evs.len(),
{
    crate::utilities::lemma_read_string_progress(ns, evs, i, CIRCLE_TAG@, Seq::<char>::empty());
}

} // verus!
