//! A verified deserializer for Common Alerting Protocol (CAP) emergency-alert
//! XML documents.  The recursive-descent dispatch core, the enumerated-value
//! resolvers, the geometry decoder and the error taxonomy are all verified;
//! the underlying XML tokenizer is consumed through a small trusted boundary.

pub mod alert;
pub mod area;
pub mod circle;
pub mod deserialise_error;
pub mod event_code;
pub mod geocode;
pub mod info;
pub mod parameter;
pub mod point;
pub mod polygon;
pub mod reference;
pub mod resource;
pub mod text;
pub mod timestamp;
pub mod utilities;
pub mod xml_events;
