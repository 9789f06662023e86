//! The `resource` element: an additional file or medium attached to an
//! info block.

use vstd::prelude::*;
use crate::deserialise_error::{
    sp_tag_not_recognised_msg, DeserialiseError, DeserialiseErrorV,
};
use crate::text::{parse_u64, sp_parse_u64, sp_trim, str_eq, trim_ws};
use crate::utilities::{lemma_read_string_progress, read_string, sp_read_string, sp_step};
use crate::xml_events::{describe, sp_describe, EventV, XmlEvent};

verus! {

pub const RESOURCE_TAG: &'static str = "resource";

/// An additional file attached to an info block.
#[derive(Debug, Clone, PartialEq)]
pub struct Resource {
    pub resource_desc: Option<String>,
    pub mime_type: Option<String>,
    pub size: Option<u64>,
    pub uri: Option<String>,
    pub deref_uri: Option<String>,
    pub digest: Option<String>,
}

/// Spec-level mirror of [`Resource`].
pub struct ResourceV {
    pub resource_desc: Option<Seq<char>>,
    pub mime_type: Option<Seq<char>>,
    pub size: Option<u64>,
    pub uri: Option<Seq<char>>,
    pub deref_uri: Option<Seq<char>>,
    pub digest: Option<Seq<char>>,
}

impl View for Resource {
    type V = ResourceV;

    open spec fn view(&self) -> ResourceV {
        ResourceV {
            resource_desc: self.resource_desc.deep_view(),
            mime_type: self.mime_type.deep_view(),
            size: self.size,
            uri: self.uri.deep_view(),
            deref_uri: self.deref_uri.deep_view(),
            digest: self.digest.deep_view(),
        }
    }
}

impl DeepView for Resource {
    type V = ResourceV;

    open spec fn deep_view(&self) -> ResourceV {
        self.view()
    }
}

/// The empty resource every read starts from.
pub open spec fn sp_resource_init() -> ResourceV {
    ResourceV {
        resource_desc: None,
        mime_type: None,
        size: None,
        uri: None,
        deref_uri: None,
        digest: None,
    }
}

/// The resource dispatch: scalar children under the matching namespace
/// overwrite their fields, an unknown child or end tag under the matching
/// namespace is not recognised, and any other event has no case here.
pub open spec fn sp_resource(ns: Seq<char>, evs: Seq<EventV>, i: int, acc: ResourceV) -> Result<
    (ResourceV, int),
    DeserialiseErrorV,
>
    decreases evs.len() - i,
    when 0 <= i
{
    if i >= evs.len() {
        Err(DeserialiseErrorV::EofReached)
    } else {
        match evs[i] {
            EventV::Fail { message } => Err(DeserialiseErrorV::QuickXMLError(message)),
            EventV::Start { ns: ens, name: tag } => {
                if ens == Some(ns) {
                    if tag == "resourceDesc"@ {
                        match sp_read_string(ns, evs, i + 1, "resourceDesc"@, Seq::<char>::empty()) {
                            Ok((t, j)) => {
                                proof {
                                    lemma_read_string_progress(
                                        ns,
                                        evs,
                                        i + 1,
                                        "resourceDesc"@,
                                        Seq::<char>::empty(),
                                    );
                                }
                                sp_resource(ns, evs, j, ResourceV { resource_desc: t, ..acc })
                            },
                            Err(e) => Err(e),
                        }
                    } else if tag == "mimeType"@ {
                        match sp_read_string(ns, evs, i + 1, "mimeType"@, Seq::<char>::empty()) {
                            Ok((t, j)) => {
                                proof {
                                    lemma_read_string_progress(
                                        ns,
                                        evs,
                                        i + 1,
                                        "mimeType"@,
                                        Seq::<char>::empty(),
                                    );
                                }
                                sp_resource(ns, evs, j, ResourceV { mime_type: t, ..acc })
                            },
                            Err(e) => Err(e),
                        }
                    } else if tag == "size"@ {
                        match sp_read_string(ns, evs, i + 1, "size"@, Seq::<char>::empty()) {
                            Ok((t, j)) => {
                                proof {
                                    lemma_read_string_progress(
                                        ns,
                                        evs,
                                        i + 1,
                                        "size"@,
                                        Seq::<char>::empty(),
                                    );
                                }
                                let txt = match t {
                                    Some(x) => x,
                                    None => Seq::<char>::empty(),
                                };
                                match sp_parse_u64(txt) {
                                    Some(u) => sp_resource(
                                        ns,
                                        evs,
                                        j,
                                        ResourceV { size: Some(u), ..acc },
                                    ),
                                    None => Err(DeserialiseErrorV::ParseIntError(txt)),
                                }
                            },
                            Err(e) => Err(e),
                        }
                    } else if tag == "uri"@ {
                        match sp_read_string(ns, evs, i + 1, "uri"@, Seq::<char>::empty()) {
                            Ok((t, j)) => {
                                proof {
                                    lemma_read_string_progress(
                                        ns,
                                        evs,
                                        i + 1,
                                        "uri"@,
                                        Seq::<char>::empty(),
                                    );
                                }
                                sp_resource(ns, evs, j, ResourceV { uri: t, ..acc })
                            },
                            Err(e) => Err(e),
                        }
                    } else if tag == "derefUri"@ {
                        match sp_read_string(ns, evs, i + 1, "derefUri"@, Seq::<char>::empty()) {
                            Ok((t, j)) => {
                                proof {
                                    lemma_read_string_progress(
                                        ns,
                                        evs,
                                        i + 1,
                                        "derefUri"@,
                                        Seq::<char>::empty(),
                                    );
                                }
                                sp_resource(ns, evs, j, ResourceV { deref_uri: t, ..acc })
                            },
                            Err(e) => Err(e),
                        }
                    } else if tag == "digest"@ {
                        match sp_read_string(ns, evs, i + 1, "digest"@, Seq::<char>::empty()) {
                            Ok((t, j)) => {
                                proof {
                                    lemma_read_string_progress(
                                        ns,
                                        evs,
                                        i + 1,
                                        "digest"@,
                                        Seq::<char>::empty(),
                                    );
                                }
                                sp_resource(ns, evs, j, ResourceV { digest: t, ..acc })
                            },
                            Err(e) => Err(e),
                        }
                    } else {
                        Err(DeserialiseErrorV::TagNotRecognised(sp_tag_not_recognised_msg(tag)))
                    }
                } else {
                    Err(DeserialiseErrorV::UnknownEvent(sp_describe(evs[i])))
                }
            },
            EventV::End { ns: ens, name: tag } => {
                if ens == Some(ns) {
                    if tag == RESOURCE_TAG@ {
                        Ok((acc, i + 1))
                    } else {
                        Err(DeserialiseErrorV::TagNotRecognised(sp_tag_not_recognised_msg(tag)))
                    }
                } else {
                    Err(DeserialiseErrorV::UnknownEvent(sp_describe(evs[i])))
                }
            },
            EventV::Text { content } => {
                if sp_trim(content).len() == 0 {
                    sp_resource(ns, evs, i + 1, acc)
                } else {
                    Err(DeserialiseErrorV::UnknownEvent(sp_describe(evs[i])))
                }
            },
            _ => Err(DeserialiseErrorV::UnknownEvent(sp_describe(evs[i]))),
        }
    }
}

/// A successful resource read always makes progress and stays in bounds.
pub proof fn lemma_resource_progress(ns: Seq<char>, evs: Seq<EventV>, i: int, acc: ResourceV)
    requires
        0 <= i,
    ensures
        sp_resource(ns, evs, i, acc) matches Ok((_, j)) ==> i < j <= evs.len(),
    decreases evs.len() - i,
{
    if i >= evs.len() {
    } else {
        match evs[i] {
            EventV::Start { ns: ens, name: tag } => {
                if ens == Some(ns) {
                    if tag == "resourceDesc"@ || tag == "mimeType"@ || tag == "size"@ || tag
                        == "uri"@ || tag == "derefUri"@ || tag == "digest"@ {
                        let close = if tag == "resourceDesc"@ {
                            "resourceDesc"@
                        } else if tag == "mimeType"@ {
                            "mimeType"@
                        } else if tag == "size"@ {
                            "size"@
                        } else if tag == "uri"@ {
                            "uri"@
                        } else if tag == "derefUri"@ {
                            "derefUri"@
                        } else {
                            "digest"@
                        };
                        lemma_read_string_progress(ns, evs, i + 1, close, Seq::<char>::empty());
                        match sp_read_string(ns, evs, i + 1, close, Seq::<char>::empty()) {
                            Ok((t, j)) => {
                                lemma_resource_progress(
                                    ns,
                                    evs,
                                    j,
                                    ResourceV { resource_desc: t, ..acc },
                                );
                                lemma_resource_progress(ns, evs, j, ResourceV { mime_type: t, ..acc });
                                lemma_resource_progress(ns, evs, j, ResourceV { uri: t, ..acc });
                                lemma_resource_progress(ns, evs, j, ResourceV { deref_uri: t, ..acc });
                                lemma_resource_progress(ns, evs, j, ResourceV { digest: t, ..acc });
                                let txt = match t {
                                    Some(x) => x,
                                    None => Seq::<char>::empty(),
                                };
                                match sp_parse_u64(txt) {
                                    Some(u) => lemma_resource_progress(
                                        ns,
                                        evs,
                                        j,
                                        ResourceV { size: Some(u), ..acc },
                                    ),
                                    None => {},
                                }
                            },
                            Err(_) => {},
                        }
                    }
                }
            },
            EventV::Text { content } => {
                if sp_trim(content).len() == 0 {
                    lemma_resource_progress(ns, evs, i + 1, acc);
                }
            },
            _ => {},
        }
    }
}

impl Resource {
    /// An empty resource, for programmatic construction.
    pub fn initialise() -> (r: Resource)
        ensures
            r@ == sp_resource_init(),
    {
        Resource {
            resource_desc: None,
            mime_type: None,
            size: None,
            uri: None,
            deref_uri: None,
            digest: None,
        }
    }

    /// Reads one `resource` element.
    pub fn deserialize_from_xml(namespace: &str, events: &Vec<XmlEvent>, pos: usize) -> (r: Result<
        (Resource, usize),
        DeserialiseError,
    >)
        ensures
            sp_step(r) == sp_resource(
                namespace@,
                events.deep_view(),
                pos as int,
                sp_resource_init(),
            ),
            r matches Ok((_, j)) ==> pos < j <= events@.len(),
    {
        let ghost evs = events.deep_view();
        let n: usize = events.len();
        proof {
            assert(evs.len() == n);
            lemma_resource_progress(namespace@, evs, pos as int, sp_resource_init());
        }
        let mut resource = Resource::initialise();
        let mut i: usize = pos;
        loop
            invariant
                evs == events.deep_view(),
                n == evs.len(),
                pos <= i,
                sp_resource(namespace@, evs, pos as int, sp_resource_init()) == sp_resource(
                    namespace@,
                    evs,
                    i as int,
                    resource@,
                ),
                sp_resource(namespace@, evs, pos as int, sp_resource_init()) matches Ok((_, j))
                    ==> pos < j <= evs.len(),
            decreases n - i,
        {
            if i >= n {
                return Err(DeserialiseError::EofReached);
            }
            proof {
                assert(evs[i as int] == events@[i as int]@);
            }
            match &events[i] {
                XmlEvent::Fail { message } => {
                    return Err(DeserialiseError::QuickXMLError(message.clone()));
                },
                XmlEvent::Start { ns, name: tag } => {
                    let matching = match ns {
                        Some(ens) => str_eq(ens.as_str(), namespace),
                        None => false,
                    };
                    if matching {
                        if str_eq(tag.as_str(), "resourceDesc") {
                            let (t, j) = match read_string(namespace, events, i + 1, "resourceDesc") {
                                Ok(x) => x,
                                Err(e) => return Err(e),
                            };
                            proof {
                                lemma_read_string_progress(
                                    namespace@,
                                    evs,
                                    i + 1 as int,
                                    "resourceDesc"@,
                                    Seq::<char>::empty(),
                                );
                            }
                            resource.resource_desc = t;
                            i = j;
                        } else if str_eq(tag.as_str(), "mimeType") {
                            let (t, j) = match read_string(namespace, events, i + 1, "mimeType") {
                                Ok(x) => x,
                                Err(e) => return Err(e),
                            };
                            proof {
                                lemma_read_string_progress(
                                    namespace@,
                                    evs,
                                    i + 1 as int,
                                    "mimeType"@,
                                    Seq::<char>::empty(),
                                );
                            }
                            resource.mime_type = t;
                            i = j;
                        } else if str_eq(tag.as_str(), "size") {
                            let (t, j) = match read_string(namespace, events, i + 1, "size") {
                                Ok(x) => x,
                                Err(e) => return Err(e),
                            };
                            proof {
                                lemma_read_string_progress(
                                    namespace@,
                                    evs,
                                    i + 1 as int,
                                    "size"@,
                                    Seq::<char>::empty(),
                                );
                            }
                            let txt = match t {
                                Some(x) => x,
                                None => String::new(),
                            };
                            match parse_u64(txt.as_str()) {
                                Some(u) => {
                                    resource.size = Some(u);
                                    i = j;
                                },
                                None => {
                                    return Err(DeserialiseError::ParseIntError(txt));
                                },
                            }
                        } else if str_eq(tag.as_str(), "uri") {
                            let (t, j) = match read_string(namespace, events, i + 1, "uri") {
                                Ok(x) => x,
                                Err(e) => return Err(e),
                            };
                            proof {
                                lemma_read_string_progress(
                                    namespace@,
                                    evs,
                                    i + 1 as int,
                                    "uri"@,
                                    Seq::<char>::empty(),
                                );
                            }
                            resource.uri = t;
                            i = j;
                        } else if str_eq(tag.as_str(), "derefUri") {
                            let (t, j) = match read_string(namespace, events, i + 1, "derefUri") {
                                Ok(x) => x,
                                Err(e) => return Err(e),
                            };
                            proof {
                                lemma_read_string_progress(
                                    namespace@,
                                    evs,
                                    i + 1 as int,
                                    "derefUri"@,
                                    Seq::<char>::empty(),
                                );
                            }
                            resource.deref_uri = t;
                            i = j;
                        } else if str_eq(tag.as_str(), "digest") {
                            let (t, j) = match read_string(namespace, events, i + 1, "digest") {
                                Ok(x) => x,
                                Err(e) => return Err(e),
                            };
                            proof {
                                lemma_read_string_progress(
                                    namespace@,
                                    evs,
                                    i + 1 as int,
                                    "digest"@,
                                    Seq::<char>::empty(),
                                );
                            }
                            resource.digest = t;
                            i = j;
                        } else {
                            return Err(DeserialiseError::tag_not_recognised(tag.as_str()));
                        }
                    } else {
                        return Err(DeserialiseError::UnknownEvent(describe(&events[i])));
                    }
                },
                XmlEvent::End { ns, name: tag } => {
                    let matching = match ns {
                        Some(ens) => str_eq(ens.as_str(), namespace),
                        None => false,
                    };
                    if matching {
                        if str_eq(tag.as_str(), RESOURCE_TAG) {
                            return Ok((resource, i + 1));
                        } else {
                            return Err(DeserialiseError::tag_not_recognised(tag.as_str()));
                        }
                    } else {
                        return Err(DeserialiseError::UnknownEvent(describe(&events[i])));
                    }
                },
                XmlEvent::Text { content } => {
                    let trimmed = trim_ws(content.as_str());
                    if trimmed.as_str().is_empty() {
                        i += 1;
                    } else {
                        return Err(DeserialiseError::UnknownEvent(describe(&events[i])));
                    }
                },
                _ => {
                    return Err(DeserialiseError::UnknownEvent(describe(&events[i])));
                },
            }
        }
    }
}

} // verus!
