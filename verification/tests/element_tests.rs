use rs_cap::alert::VERSION_1_2;
use rs_cap::area::Area;
use rs_cap::circle::Circle;
use rs_cap::event_code::EventCode;
use rs_cap::geocode::Geocode;
use rs_cap::parameter::Parameter;
use rs_cap::point::parse_points_string;
use rs_cap::polygon;
use rs_cap::resource::Resource;
use rs_cap::xml_events::read_events;

fn f(s: &str) -> f64 {
    s.parse::<f64>().unwrap()
}

#[test]
fn area_deserialize_from_xml() {
    let xml = r#"<area xmlns="urn:oasis:names:tc:emergency:cap:1.2">
      <areaDesc>City of Thunder Bay</areaDesc>
      <altitude>100</altitude>
      <ceiling>200</ceiling>
      <polygon>
        48.5448,-89.0388 48.5001,-89.0231 48.4482,-89.0071 48.3079,-89.1102
        48.3096,-89.1933 48.3065,-89.2028 48.3101,-89.2143 48.3119,-89.271
        48.334,-89.3597 48.3528,-89.3957 48.3838,-89.4298 48.4198,-89.4449
        48.484,-89.432 48.519,-89.4061 48.551,-89.3458 48.59,-89.1847
        48.5859,-89.1228 48.568,-89.0639 48.5448,-89.0388
      </polygon>
      <geocode>
        <valueName>layer:EC-MSC-SMC:1.0:CLC</valueName>
        <value>048100</value>
      </geocode>
      <geocode>
        <valueName>profile:CAP-CP:Location:0.3</valueName>
        <value>3558003</value>
      </geocode>
      <geocode>
        <valueName>profile:CAP-CP:Location:0.3</valueName>
        <value>3558004</value>
      </geocode>
      <geocode>
        <valueName>profile:CAP-CP:Location:0.3</valueName>
        <value>3558011</value>
      </geocode>
      <geocode>
        <valueName>profile:CAP-CP:Location:0.3</valueName>
        <value>3558028</value>
      </geocode>
      <geocode>
        <valueName>profile:CAP-CP:Location:0.3</valueName>
        <value>3558090</value>
      </geocode>
    </area>"#;

    let events = read_events(xml);
    let (area, _) = Area::deserialize_from_xml(VERSION_1_2, &events, 1).unwrap();

    assert_eq!(Some(String::from("City of Thunder Bay")), area.area_desc);
    assert_eq!(1, area.polygons.len());
    let point = &area.polygons[0].points[0];
    assert_eq!(48.5448, f(point.latitude()));
    assert_eq!(-89.0388, f(point.longitude()));
    assert_eq!(6, area.geocodes.len());
    assert_eq!(100.0, f(area.altitude.as_ref().unwrap()));
    assert_eq!(200.0, f(area.ceiling.as_ref().unwrap()));
}

#[test]
fn circle_deserialize_from_xml() {
    let xml = r#"<circle xmlns="urn:oasis:names:tc:emergency:cap:1.2">80,20.7 10.5</circle>"#;
    let events = read_events(xml);
    let (circle, _) = Circle::deserialize_from_xml(VERSION_1_2, &events, 1).unwrap();

    let location = circle.location.unwrap();
    assert_eq!(80.0, f(location.latitude()));
    assert_eq!(20.7, f(location.longitude()));
    assert_eq!(10.5, f(circle.radius.as_ref().unwrap()));
}

#[test]
fn event_code_test_deserialize_from_xml() {
    let xml = r#"<eventCode xmlns="urn:oasis:names:tc:emergency:cap:1.2"><valueName>Name</valueName><value>Value</value></eventCode>"#;
    let events = read_events(xml);
    let (event_code, _) = EventCode::deserialize_from_xml(VERSION_1_2, &events, 1).unwrap();

    assert_eq!(Some(String::from("Name")), event_code.name);
    assert_eq!(Some(String::from("Value")), event_code.value);
}

#[test]
fn test_deserialize_from_xml_wrong_ns() {
    let xml = r#"<eventCode xmlns="urn:oasis:names:tc:emergency:cap:1.1"><valueName>Name</valueName><value>Value</value></eventCode>"#;
    let events = read_events(xml);
    match EventCode::deserialize_from_xml(VERSION_1_2, &events, 1) {
        Ok(_event_code) => panic!("Should not return Ok"),
        Err(_error) => (),
    }
}

#[test]
fn geocode_test_deserialize_from_xml() {
    let xml = r#"<geocode xmlns="urn:oasis:names:tc:emergency:cap:1.2">
                     <valueName>Name</valueName>
                     <value>Value</value>
                 </geocode>"#;
    let events = read_events(xml);
    let (geocode, _) = Geocode::deserialize_from_xml(VERSION_1_2, &events, 1).unwrap();
    let geocode = geocode.unwrap();
    assert_eq!("Name", geocode.name.unwrap());
    assert_eq!("Value", geocode.value.unwrap());

    let xml = r#"<geocode xmlns="urn:oasis:names:tc:emergency:cap:1.2">
                 </geocode>"#;
    let events = read_events(xml);
    let (geocode, _) = Geocode::deserialize_from_xml(VERSION_1_2, &events, 1).unwrap();
    assert!(geocode.is_none());
}

#[test]
fn parameter_test_deserialize_from_xml() {
    let xml = r#"<parameter xmlns="urn:oasis:names:tc:emergency:cap:1.2">
                     <valueName>Name</valueName>
                     <value>Value</value>
                 </parameter>"#;
    let events = read_events(xml);
    let (parameter, _) = Parameter::deserialize_from_xml(VERSION_1_2, &events, 1).unwrap();

    assert_eq!("Name", parameter.name.unwrap());
    assert_eq!("Value", parameter.value.unwrap());
}

#[test]
fn test_parse_points_string() {
    let mut points = parse_points_string("48.0,-89.0 48,-89").unwrap().unwrap();
    assert_eq!(2, points.len());

    if let Some(point) = points.pop() {
        assert_eq!((48.0, -89.0), (f(point.latitude()), f(point.longitude())));
    } else {
        panic!("No points parsed");
    }

    if let Some(point) = points.pop() {
        assert_eq!((48.0, -89.0), (f(point.latitude()), f(point.longitude())));
    } else {
        panic!("No points parsed");
    }
}

#[test]
fn polygon_test_deserialise_from_xml() {
    let xml = r#"<polygon xmlns="urn:oasis:names:tc:emergency:cap:1.2">48.5448,-89.0388 48.5001,-89.0231 48.4482,-89.0071 48.3079,-89.1102
        48.3096,-89.1933 48.3065,-89.2028 48.3101,-89.2143 48.3119,-89.271
        48.334,-89.3597 48.3528,-89.3957 48.3838,-89.4298 48.4198,-89.4449
        48.484,-89.432 48.519,-89.4061 48.551,-89.3458 48.59,-89.1847
        48.5859,-89.1228 48.568,-89.0639 48.5448,-89.0388
      </polygon>"#;
    let events = read_events(xml);
    let (polygon, _) = polygon::deserialize_from_xml(VERSION_1_2, &events, 1).unwrap();
    assert_eq!(19, polygon.unwrap().points.len());
}

#[test]
fn test_deserialise_from_namespaced_xml() {
    let xml = r#"<cap:polygon xmlns:cap="urn:oasis:names:tc:emergency:cap:1.2">-27.77,-64.50 -27.86,-64.06 -28.47,-63.38 -28.86,-63.85 -28.14,-64.57 -27.77,-64.50</cap:polygon>"#;
    let events = read_events(xml);
    let (polygon, _) = polygon::deserialize_from_xml(VERSION_1_2, &events, 1).unwrap();
    assert_eq!(6, polygon.unwrap().points.len());
}

#[test]
fn resource_test_deserialize_from_xml() {
    let xml = r#"<resource  xmlns="urn:oasis:names:tc:emergency:cap:1.2">
                   <resourceDesc>map</resourceDesc>
                   <size>100</size>
                   <mimeType>text/html</mimeType>
                   <uri>http://www.rfs.nsw.gov.au/dsp_content.cfm?CAT_ID=683</uri>
                 </resource>"#;
    let events = read_events(xml);
    let (resource, _) = Resource::deserialize_from_xml(VERSION_1_2, &events, 1).unwrap();
    assert_eq!("map", resource.resource_desc.unwrap());
    assert_eq!(100, resource.size.unwrap());
    assert_eq!("text/html", resource.mime_type.unwrap());
    assert_eq!(
        "http://www.rfs.nsw.gov.au/dsp_content.cfm?CAT_ID=683",
        resource.uri.unwrap()
    );
}

#[test]
fn resource_bad_size_is_integer_error() {
    let xml = r#"<resource xmlns="urn:oasis:names:tc:emergency:cap:1.2">
                   <size>ten</size>
                 </resource>"#;
    let events = read_events(xml);
    match Resource::deserialize_from_xml(VERSION_1_2, &events, 1) {
        Err(rs_cap::deserialise_error::DeserialiseError::ParseIntError(t)) => {
            assert_eq!("ten", t)
        },
        other => panic!("Expected an integer parse error, got {:?}", other),
    }
}

#[test]
fn resource_size_overflow_is_integer_error() {
    let xml = r#"<resource xmlns="urn:oasis:names:tc:emergency:cap:1.2">
                   <size>99999999999999999999999</size>
                 </resource>"#;
    let events = read_events(xml);
    assert!(matches!(
        Resource::deserialize_from_xml(VERSION_1_2, &events, 1),
        Err(rs_cap::deserialise_error::DeserialiseError::ParseIntError(_))
    ));
}

#[test]
fn polygon_bad_float_is_float_error() {
    let xml = r#"<polygon xmlns="urn:oasis:names:tc:emergency:cap:1.2">48.5448,-89.0388 asdf,-89.0231</polygon>"#;
    let events = read_events(xml);
    match polygon::deserialize_from_xml(VERSION_1_2, &events, 1) {
        Err(rs_cap::deserialise_error::DeserialiseError::ParseFloatError(t)) => {
            assert_eq!("asdf", t)
        },
        other => panic!("Expected a float parse error, got {:?}", other),
    }
}

#[test]
fn geocode_unknown_child_is_not_recognised() {
    let xml = r#"<geocode xmlns="urn:oasis:names:tc:emergency:cap:1.2"><surprise>x</surprise></geocode>"#;
    let events = read_events(xml);
    assert!(matches!(
        Geocode::deserialize_from_xml(VERSION_1_2, &events, 1),
        Err(rs_cap::deserialise_error::DeserialiseError::TagNotRecognised(_))
    ));
}

#[test]
fn circle_exponent_and_signs_parse() {
    let xml =
        r#"<circle xmlns="urn:oasis:names:tc:emergency:cap:1.2">-12.5,+1e2 0.25</circle>"#;
    let events = read_events(xml);
    let (circle, _) = Circle::deserialize_from_xml(VERSION_1_2, &events, 1).unwrap();
    let location = circle.location.unwrap();
    assert_eq!(-12.5, f(location.latitude()));
    assert_eq!(100.0, f(location.longitude()));
    assert_eq!(0.25, f(circle.radius.as_ref().unwrap()));
}

#[test]
fn area_truncated_document_reaches_eof() {
    let xml = r#"<area xmlns="urn:oasis:names:tc:emergency:cap:1.2"><areaDesc>x</areaDesc>"#;
    let events = read_events(xml);
    assert!(matches!(
        Area::deserialize_from_xml(VERSION_1_2, &events, 1),
        Err(rs_cap::deserialise_error::DeserialiseError::EofReached)
    ));
}

#[test]
fn malformed_document_is_tokenizer_error() {
    let xml = r#"<alert xmlns="urn:oasis:names:tc:emergency:cap:1.2"><identifier"#;
    assert!(matches!(
        rs_cap::alert::parse(xml),
        Err(rs_cap::deserialise_error::DeserialiseError::QuickXMLError(_))
    ));
}

#[test]
fn stray_text_in_pair_is_unknown_event() {
    let xml = r#"<geocode xmlns="urn:oasis:names:tc:emergency:cap:1.2">stray</geocode>"#;
    let events = read_events(xml);
    assert!(matches!(
        Geocode::deserialize_from_xml(VERSION_1_2, &events, 1),
        Err(rs_cap::deserialise_error::DeserialiseError::UnknownEvent(_))
    ));
}
