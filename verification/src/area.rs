//! The `area` element: a geographic region affected by an info block,
//! described by free text, altitude bounds and geometry.

use vstd::prelude::*;
use crate::circle::{lemma_circle_progress, sp_circle, Circle, CircleV, CIRCLE_TAG};
use crate::deserialise_error::{sp_tag_not_expected_msg, DeserialiseError, DeserialiseErrorV};
use crate::geocode::{lemma_geocode_progress, sp_geocode, Geocode, GeocodeV, GEOCODE_TAG};
use crate::polygon;
use crate::polygon::{lemma_polygon_progress, sp_polygon, Polygon, PolygonV, POLYGON_TAG};
use crate::text::{is_float_text, sp_is_float, str_eq};
use crate::utilities::{lemma_read_string_progress, read_string, sp_read_string, sp_step};
use crate::xml_events::{EventV, XmlEvent};

verus! {

pub const AREA_TAG: &'static str = "area";

/// A geographic region of an info block.  Altitude and ceiling are kept as
/// their validated floating-point texts; the ceiling is meaningful only
/// when an altitude is present.
#[derive(Debug, Clone, PartialEq)]
pub struct Area {
    pub area_desc: Option<String>,
    pub altitude: Option<String>,
    pub ceiling: Option<String>,
    pub circles: Vec<Circle>,
    pub geocodes: Vec<Geocode>,
    pub polygons: Vec<Polygon>,
}

/// Spec-level mirror of [`Area`].
#[verifier::ext_equal]
pub struct AreaV {
    pub area_desc: Option<Seq<char>>,
    pub altitude: Option<Seq<char>>,
    pub ceiling: Option<Seq<char>>,
    pub circles: Seq<CircleV>,
    pub geocodes: Seq<GeocodeV>,
    pub polygons: Seq<PolygonV>,
}

impl View for Area {
    type V = AreaV;

    open spec fn view(&self) -> AreaV {
        AreaV {
            area_desc: self.area_desc.deep_view(),
            altitude: self.altitude.deep_view(),
            ceiling: self.ceiling.deep_view(),
            circles: self.circles.deep_view(),
            geocodes: self.geocodes.deep_view(),
            polygons: self.polygons.deep_view(),
        }
    }
}

impl DeepView for Area {
    type V = AreaV;

    open spec fn deep_view(&self) -> AreaV {
        self.view()
    }
}

/// The empty area every read starts from.
pub open spec fn sp_area_init() -> AreaV {
    AreaV {
        area_desc: None,
        altitude: None,
        ceiling: None,
        circles: Seq::empty(),
        geocodes: Seq::empty(),
        polygons: Seq::empty(),
    }
}

/// The area dispatch: scalar children overwrite, geometry children append
/// in encountered order, an unknown child or end tag under the matching
/// namespace is unexpected, and events under any other namespace are
/// skipped.  Altitude and ceiling must hold floating-point text.
pub open spec fn sp_area(ns: Seq<char>, evs: Seq<EventV>, i: int, acc: AreaV) -> Result<
    (AreaV, int),
    DeserialiseErrorV,
>
    decreases evs.len() - i,
    when 0 <= i
{
    if i >= evs.len() {
        Err(DeserialiseErrorV::EofReached)
    } else {
        match evs[i] {
            EventV::Eof => Err(DeserialiseErrorV::EofReached),
            EventV::Fail { message } => Err(DeserialiseErrorV::QuickXMLError(message)),
            EventV::Start { ns: ens, name: tag } => {
                if ens == Some(ns) {
                    if tag == "areaDesc"@ {
                        match sp_read_string(ns, evs, i + 1, "areaDesc"@, Seq::<char>::empty()) {
                            Ok((t, j)) => {
                                proof {
                                    lemma_read_string_progress(
                                        ns,
                                        evs,
                                        i + 1,
                                        "areaDesc"@,
                                        Seq::<char>::empty(),
                                    );
                                }
                                sp_area(ns, evs, j, AreaV { area_desc: t, ..acc })
                            },
                            Err(e) => Err(e),
                        }
                    } else if tag == "altitude"@ {
                        match sp_read_string(ns, evs, i + 1, "altitude"@, Seq::<char>::empty()) {
                            Ok((t, j)) => {
                                proof {
                                    lemma_read_string_progress(
                                        ns,
                                        evs,
                                        i + 1,
                                        "altitude"@,
                                        Seq::<char>::empty(),
                                    );
                                }
                                let txt = match t {
                                    Some(x) => x,
                                    None => Seq::<char>::empty(),
                                };
                                if sp_is_float(txt) {
                                    sp_area(ns, evs, j, AreaV { altitude: Some(txt), ..acc })
                                } else {
                                    Err(DeserialiseErrorV::ParseFloatError(txt))
                                }
                            },
                            Err(e) => Err(e),
                        }
                    } else if tag == "ceiling"@ {
                        match sp_read_string(ns, evs, i + 1, "ceiling"@, Seq::<char>::empty()) {
                            Ok((t, j)) => {
                                proof {
                                    lemma_read_string_progress(
                                        ns,
                                        evs,
                                        i + 1,
                                        "ceiling"@,
                                        Seq::<char>::empty(),
                                    );
                                }
                                let txt = match t {
                                    Some(x) => x,
                                    None => Seq::<char>::empty(),
                                };
                                if sp_is_float(txt) {
                                    sp_area(ns, evs, j, AreaV { ceiling: Some(txt), ..acc })
                                } else {
                                    Err(DeserialiseErrorV::ParseFloatError(txt))
                                }
                            },
                            Err(e) => Err(e),
                        }
                    } else if tag == POLYGON_TAG@ {
                        match sp_polygon(ns, evs, i + 1) {
                            Ok((p, j)) => {
                                proof {
                                    lemma_polygon_progress(ns, evs, i + 1);
                                }
                                match p {
                                    Some(pg) => sp_area(
                                        ns,
                                        evs,
                                        j,
                                        AreaV { polygons: acc.polygons.push(pg), ..acc },
                                    ),
                                    None => sp_area(ns, evs, j, acc),
                                }
                            },
                            Err(e) => Err(e),
                        }
                    } else if tag == GEOCODE_TAG@ {
                        match sp_geocode(ns, evs, i + 1) {
                            Ok((g, j)) => {
                                proof {
                                    lemma_geocode_progress(ns, evs, i + 1);
                                }
                                match g {
                                    Some(gc) => sp_area(
                                        ns,
                                        evs,
                                        j,
                                        AreaV { geocodes: acc.geocodes.push(gc), ..acc },
                                    ),
                                    None => sp_area(ns, evs, j, acc),
                                }
                            },
                            Err(e) => Err(e),
                        }
                    } else if tag == CIRCLE_TAG@ {
                        match sp_circle(ns, evs, i + 1) {
                            Ok((c, j)) => {
                                proof {
                                    lemma_circle_progress(ns, evs, i + 1);
                                }
                                sp_area(ns, evs, j, AreaV { circles: acc.circles.push(c), ..acc })
                            },
                            Err(e) => Err(e),
                        }
                    } else {
                        Err(DeserialiseErrorV::TagNotExpected(sp_tag_not_expected_msg(tag)))
                    }
                } else {
                    sp_area(ns, evs, i + 1, acc)
                }
            },
            EventV::End { ns: ens, name: tag } => {
                if ens == Some(ns) {
                    if tag == AREA_TAG@ {
                        Ok((acc, i + 1))
                    } else {
                        Err(DeserialiseErrorV::TagNotExpected(sp_tag_not_expected_msg(tag)))
                    }
                } else {
                    sp_area(ns, evs, i + 1, acc)
                }
            },
            _ => sp_area(ns, evs, i + 1, acc),
        }
    }
}

/// A successful area read always makes progress and stays in bounds.
pub proof fn lemma_area_progress(ns: Seq<char>, evs: Seq<EventV>, i: int, acc: AreaV)
    requires
        0 <= i,
    ensures
        sp_area(ns, evs, i, acc) matches Ok((_, j)) ==> i < j <= evs.len(),
    decreases evs.len() - i,
{
    if i >= evs.len() {
    } else {
        match evs[i] {
            EventV::Start { ns: ens, name: tag } => {
                if ens == Some(ns) {
                    if tag == "areaDesc"@ || tag == "altitude"@ || tag == "ceiling"@ {
                        let close = if tag == "areaDesc"@ {
                            "areaDesc"@
                        } else if tag == "altitude"@ {
                            "altitude"@
                        } else {
                            "ceiling"@
                        };
                        lemma_read_string_progress(ns, evs, i + 1, close, Seq::<char>::empty());
                        match sp_read_string(ns, evs, i + 1, close, Seq::<char>::empty()) {
                            Ok((t, j)) => {
                                lemma_area_progress(ns, evs, j, AreaV { area_desc: t, ..acc });
                                let txt = match t {
                                    Some(x) => x,
                                    None => Seq::<char>::empty(),
                                };
                                lemma_area_progress(
                                    ns,
                                    evs,
                                    j,
                                    AreaV { altitude: Some(txt), ..acc },
                                );
                                lemma_area_progress(ns, evs, j, AreaV { ceiling: Some(txt), ..acc });
                            },
                            Err(_) => {},
                        }
                    } else if tag == POLYGON_TAG@ {
                        lemma_polygon_progress(ns, evs, i + 1);
                        match sp_polygon(ns, evs, i + 1) {
                            Ok((p, j)) => {
                                match p {
                                    Some(pg) => lemma_area_progress(
                                        ns,
                                        evs,
                                        j,
                                        AreaV { polygons: acc.polygons.push(pg), ..acc },
                                    ),
                                    None => lemma_area_progress(ns, evs, j, acc),
                                }
                            },
                            Err(_) => {},
                        }
                    } else if tag == GEOCODE_TAG@ {
                        lemma_geocode_progress(ns, evs, i + 1);
                        match sp_geocode(ns, evs, i + 1) {
                            Ok((g, j)) => {
                                match g {
                                    Some(gc) => lemma_area_progress(
                                        ns,
                                        evs,
                                        j,
                                        AreaV { geocodes: acc.geocodes.push(gc), ..acc },
                                    ),
                                    None => lemma_area_progress(ns, evs, j, acc),
                                }
                            },
                            Err(_) => {},
                        }
                    } else if tag == CIRCLE_TAG@ {
                        lemma_circle_progress(ns, evs, i + 1);
                        match sp_circle(ns, evs, i + 1) {
                            Ok((c, j)) => {
                                lemma_area_progress(
                                    ns,
                                    evs,
                                    j,
                                    AreaV { circles: acc.circles.push(c), ..acc },
                                );
                            },
                            Err(_) => {},
                        }
                    }
                } else {
                    lemma_area_progress(ns, evs, i + 1, acc);
                }
            },
            EventV::End { ns: ens, name: tag } => {
                if !(ens == Some(ns)) {
                    lemma_area_progress(ns, evs, i + 1, acc);
                }
            },
            EventV::Eof => {},
            EventV::Fail { .. } => {},
            _ => {
                lemma_area_progress(ns, evs, i + 1, acc);
            },
        }
    }
}

impl Area {
    /// An empty area, for programmatic construction.
    pub fn initialise() -> (r: Area)
        ensures
            r@ == sp_area_init(),
    {
        let r = Area {
            area_desc: None,
            altitude: None,
            ceiling: None,
            circles: Vec::new(),
            geocodes: Vec::new(),
            polygons: Vec::new(),
        };
        proof {
            assert(r@ =~= sp_area_init());
        }
        r
    }

    /// Appends a circle, for programmatic construction.
    pub fn add_circle(&mut self, circle: Circle)
        ensures
            final(self)@ == (AreaV { circles: old(self)@.circles.push(circle@), ..old(self)@ }),
    {
        self.circles.push(circle);
        proof {
            assert(final(self)@ =~= (AreaV {
                circles: old(self)@.circles.push(circle@),
                ..old(self)@
            }));
        }
    }

    /// Appends a geocode, for programmatic construction.
    pub fn add_geocode(&mut self, geocode: Geocode)
        ensures
            final(self)@ == (AreaV { geocodes: old(self)@.geocodes.push(geocode@), ..old(self)@ }),
    {
        self.geocodes.push(geocode);
        proof {
            assert(final(self)@ =~= (AreaV {
                geocodes: old(self)@.geocodes.push(geocode@),
                ..old(self)@
            }));
        }
    }

    /// Reads one `area` element.
    pub fn deserialize_from_xml(namespace: &str, events: &Vec<XmlEvent>, pos: usize) -> (r: Result<
        (Area, usize),
        DeserialiseError,
    >)
        ensures
            sp_step(r) == sp_area(namespace@, events.deep_view(), pos as int, sp_area_init()),
            r matches Ok((_, j)) ==> pos < j <= events@.len(),
    {
        let ghost evs = events.deep_view();
        let n: usize = events.len();
        proof {
            assert(evs.len() == n);
            lemma_area_progress(namespace@, evs, pos as int, sp_area_init());
        }
        let mut area = Area::initialise();
        let mut i: usize = pos;
        loop
            invariant
                evs == events.deep_view(),
                n == evs.len(),
                pos <= i,
                sp_area(namespace@, evs, pos as int, sp_area_init()) == sp_area(
                    namespace@,
                    evs,
                    i as int,
                    area@,
                ),
                sp_area(namespace@, evs, pos as int, sp_area_init()) matches Ok((_, j)) ==> pos < j
                    <= evs.len(),
            decreases n - i,
        {
            if i >= n {
                return Err(DeserialiseError::EofReached);
            }
            proof {
                assert(evs[i as int] == events@[i as int]@);
            }
            match &events[i] {
                XmlEvent::Eof => {
                    return Err(DeserialiseError::EofReached);
                },
                XmlEvent::Fail { message } => {
                    return Err(DeserialiseError::QuickXMLError(message.clone()));
                },
                XmlEvent::Start { ns, name: tag } => {
                    let matching = match ns {
                        Some(ens) => str_eq(ens.as_str(), namespace),
                        None => false,
                    };
                    if matching {
                        if str_eq(tag.as_str(), "areaDesc") {
                            let (t, j) = match read_string(namespace, events, i + 1, "areaDesc") {
                                Ok(x) => x,
                                Err(e) => return Err(e),
                            };
                            proof {
                                lemma_read_string_progress(
                                    namespace@,
                                    evs,
                                    i + 1 as int,
                                    "areaDesc"@,
                                    Seq::<char>::empty(),
                                );
                            }
                            area.area_desc = t;
                            i = j;
                        } else if str_eq(tag.as_str(), "altitude") {
                            let (t, j) = match read_string(namespace, events, i + 1, "altitude") {
                                Ok(x) => x,
                                Err(e) => return Err(e),
                            };
                            proof {
                                lemma_read_string_progress(
                                    namespace@,
                                    evs,
                                    i + 1 as int,
                                    "altitude"@,
                                    Seq::<char>::empty(),
                                );
                            }
                            let txt = match t {
                                Some(x) => x,
                                None => String::new(),
                            };
                            if is_float_text(txt.as_str()) {
                                area.altitude = Some(txt);
                                i = j;
                            } else {
                                return Err(DeserialiseError::ParseFloatError(txt));
                            }
                        } else if str_eq(tag.as_str(), "ceiling") {
                            let (t, j) = match read_string(namespace, events, i + 1, "ceiling") {
                                Ok(x) => x,
                                Err(e) => return Err(e),
                            };
                            proof {
                                lemma_read_string_progress(
                                    namespace@,
                                    evs,
                                    i + 1 as int,
                                    "ceiling"@,
                                    Seq::<char>::empty(),
                                );
                            }
                            let txt = match t {
                                Some(x) => x,
                                None => String::new(),
                            };
                            if is_float_text(txt.as_str()) {
                                area.ceiling = Some(txt);
                                i = j;
                            } else {
                                return Err(DeserialiseError::ParseFloatError(txt));
                            }
                        } else if str_eq(tag.as_str(), POLYGON_TAG) {
                            let (p, j) = match polygon::deserialize_from_xml(
                                namespace,
                                events,
                                i + 1,
                            ) {
                                Ok(x) => x,
                                Err(e) => return Err(e),
                            };
                            let ghost old_area = area@;
                            match p {
                                Some(pg) => {
                                    let ghost pgv = pg@;
                                    area.polygons.push(pg);
                                    proof {
                                        assert(area@ =~= (AreaV {
                                            polygons: old_area.polygons.push(pgv),
                                            ..old_area
                                        }));
                                    }
                                },
                                None => {},
                            }
                            i = j;
                        } else if str_eq(tag.as_str(), GEOCODE_TAG) {
                            let (g, j) = match Geocode::deserialize_from_xml(
                                namespace,
                                events,
                                i + 1,
                            ) {
                                Ok(x) => x,
                                Err(e) => return Err(e),
                            };
                            let ghost old_area = area@;
                            match g {
                                Some(gc) => {
                                    let ghost gcv = gc@;
                                    area.geocodes.push(gc);
                                    proof {
                                        assert(area@ =~= (AreaV {
                                            geocodes: old_area.geocodes.push(gcv),
                                            ..old_area
                                        }));
                                    }
                                },
                                None => {},
                            }
                            i = j;
                        } else if str_eq(tag.as_str(), CIRCLE_TAG) {
                            let (c, j) = match Circle::deserialize_from_xml(
                                namespace,
                                events,
                                i + 1,
                            ) {
                                Ok(x) => x,
                                Err(e) => return Err(e),
                            };
                            let ghost old_area = area@;
                            let ghost cv = c@;
                            area.circles.push(c);
                            proof {
                                assert(area@ =~= (AreaV {
                                    circles: old_area.circles.push(cv),
                                    ..old_area
                                }));
                            }
                            i = j;
                        } else {
                            return Err(DeserialiseError::tag_not_expected(tag.as_str()));
                        }
                    } else {
                        i += 1;
                    }
                },
                XmlEvent::End { ns, name: tag } => {
                    let matching = match ns {
                        Some(ens) => str_eq(ens.as_str(), namespace),
                        None => false,
                    };
                    if matching {
                        if str_eq(tag.as_str(), AREA_TAG) {
                            return Ok((area, i + 1));
                        } else {
                            return Err(DeserialiseError::tag_not_expected(tag.as_str()));
                        }
                    } else {
                        i += 1;
                    }
                },
                _ => {
                    i += 1;
                },
            }
        }
    }
}

} // verus!

verus! {

/// The known child vocabulary of the `area` element.
pub open spec fn sp_area_child(tag: Seq<char>) -> bool {
    tag == "areaDesc"@ || tag == "altitude"@ || tag == "ceiling"@ || tag == POLYGON_TAG@ || tag
        == GEOCODE_TAG@ || tag == CIRCLE_TAG@
}

/// An unrecognized child start tag under the matching namespace is fatal
/// to the area dispatch, whatever has been accumulated and at any point of
/// the element.
pub proof fn lemma_area_unknown_child_fails(
    ns: Seq<char>,
    evs: Seq<EventV>,
    i: int,
    acc: AreaV,
    tag: Seq<char>,
)
    requires
        0 <= i < evs.len(),
        evs[i] == (EventV::Start { ns: Some(ns), name: tag }),
        !sp_area_child(tag),
    ensures
        sp_area(ns, evs, i, acc) == Err::<(AreaV, int), _>(
            DeserialiseErrorV::TagNotExpected(sp_tag_not_expected_msg(tag)),
        ),
{
}

} // verus!
