use rs_cap::alert::{parse, Alert, MsgType, Scope, Status, Version, VERSION_1_2};
use rs_cap::deserialise_error::DeserialiseError;
use rs_cap::event_code::EventCode;
use rs_cap::info::{Category, Certainty, Info};
use rs_cap::parameter::Parameter;
use rs_cap::reference::Reference;
use rs_cap::resource::Resource;
use rs_cap::timestamp::Timestamp;
use rs_cap::utilities::look_for_cap_namespace;
use rs_cap::xml_events::read_events;

const INFO_XML_1: &str = r#"<info xmlns="urn:oasis:names:tc:emergency:cap:1.2">
     <category>Geo</category>
     <event>Earthquake</event>
     <urgency>Past</urgency>
     <severity>Minor</severity>
     <certainty>Observed</certainty>
     <senderName>Southern California Seismic Network (TriNet) operated by Caltech and USGS</senderName>
     <headline>EQ 3.4 Imperial County CA</headline>
     <description>A minor earthquake measuring 3.4 on the Richter scale occurred near Brawley, California at 8:30 PM Pacific Daylight Time on Wednesday, June 11, 2003. (This event has now been reviewed by a seismologist)</description>
     <web>http://www.trinet.org/scsn/scsn.html</web>
     <parameter>
       <valueName>EventID</valueName>
       <value>13970876</value>
     </parameter>
     <parameter>
       <valueName>Version</valueName>
       <value>1</value>
     </parameter>
     <parameter>
       <valueName>Magnitude</valueName>
       <value>3.4 Ml</value>
     </parameter>
     <parameter>
       <valueName>Depth</valueName>
       <value>11.8 mi.</value>
     </parameter>
     <parameter>
       <valueName>Quality</valueName>
       <value>Excellent</value>
     </parameter>
     <area>
       <areaDesc>1 mi. WSW of Brawley, CA; 11 mi. N of El Centro, CA; 30 mi. E of OCOTILLO (quarry); 1 mi. N of the Imperial Fault</areaDesc>
       <circle>32.9525,-115.5527 0</circle>
     </area>
   </info>"#;

#[test]
fn text_parse_from_xml_1() {
    let events = read_events(INFO_XML_1);
    let (info, _) = Info::deserialize_from_xml(VERSION_1_2, &events, 1).unwrap();

    assert_eq!(Some(String::from("Earthquake")), info.event);
    assert_eq!(Some(String::from("EQ 3.4 Imperial County CA")), info.headline);

    assert_eq!(5, info.parameters.len());
    assert_eq!(1, info.areas.len());
}

#[test]
fn test_parse_xml_2() {
    let xml = r#"<info xmlns="urn:oasis:names:tc:emergency:cap:1.2">
     <category>Met</category>
     <event>SEVERE THUNDERSTORM</event>
     <responseType>Shelter</responseType>
     <urgency>Immediate</urgency>
     <severity>Severe</severity>
     <certainty>Observed</certainty>
     <eventCode>
       <valueName>SAME</valueName>
       <value>SVR</value>
     </eventCode>
     <expires>2003-06-17T16:00:00-07:00</expires>
     <senderName>NATIONAL WEATHER SERVICE SACRAMENTO CA</senderName>
     <headline>SEVERE THUNDERSTORM WARNING</headline>
     <description> AT 254 PM PDT...NATIONAL WEATHER SERVICE DOPPLER RADAR INDICATED A SEVERE THUNDERSTORM OVER SOUTH CENTRAL ALPINE COUNTY...OR ABOUT 18 MILES SOUTHEAST OF KIRKWOOD...MOVING SOUTHWEST AT 5 MPH. HAIL...INTENSE RAIN AND STRONG DAMAGING WINDS ARE LIKELY WITH THIS STORM.</description>
     <instruction>TAKE COVER IN A SUBSTANTIAL SHELTER UNTIL THE STORM PASSES.</instruction>
     <contact>BARUFFALDI/JUSKIE</contact>
     <area>
       <areaDesc>EXTREME NORTH CENTRAL TUOLUMNE COUNTY IN CALIFORNIA, EXTREME NORTHEASTERN CALAVERAS COUNTY IN CALIFORNIA, SOUTHWESTERN ALPINE COUNTY IN CALIFORNIA</areaDesc>
       <polygon>38.47,-120.14 38.34,-119.95 38.52,-119.74 38.62,-119.89 38.47,-120.14</polygon>
       <geocode>
         <valueName>SAME</valueName>
         <value>006109</value>
       </geocode>
       <geocode>
         <valueName>SAME</valueName>
         <value>006009</value>
       </geocode>
       <geocode>
         <valueName>SAME</valueName>
         <value>006003</value>
       </geocode>
     </area>
   </info>"#;

    let events = read_events(xml);
    Info::deserialize_from_xml(VERSION_1_2, &events, 1).unwrap();
}

fn test_parse_reference_error(reference_string: &str) {
    match Reference::parse_string(reference_string) {
        Ok(_) => assert!(false, "Expected an error"),
        Err(error) => match error {
            DeserialiseError::ParseReference(string) => {
                assert_eq!(String::from(reference_string), string)
            },
            error => assert!(false, "Expected a parse-reference error, got {:?}", error),
        },
    }
}

#[test]
fn test_parse_reference() {
    assert!(Reference::parse_string(
        "kundtjanst@smhi.se,2.49.0.0.752.0.SE.230129125019.2956.26828,2023-01-29T12:50:19+00:00"
    )
    .is_ok());
    test_parse_reference_error(
        "kundtjanst@smhi.se,2.49.0.0.752.0.SE.230129125019.2956.26828,202301291250190000",
    );
    test_parse_reference_error(
        "kundtjanst@smhi.se2.49.0.0.752.0.SE.230129125019.2956.268282023-01-29T12:50:19+00:00",
    );
    test_parse_reference_error(",,");
}

#[test]
fn test_builder() {
    let mut alert = Alert::initialise();
    assert_eq!(36, alert.identifier.as_ref().unwrap().len());

    let mut info = Info::initialise();
    info.audience = Some(String::from("Test"));
    info.certainty = Some(Certainty::Observed);

    let mut event_code = EventCode::initialise();
    event_code.name = Some(String::from("Name1"));
    event_code.value = Some(String::from("Value1"));
    info.add_event_code(event_code);

    let mut parameter = Parameter::initialise();
    parameter.name = Some(String::from("Name2"));
    parameter.value = Some(String::from("Value2"));
    info.add_parameter(parameter);

    info.categories.push(Category::Geological);

    let mut resource = Resource::initialise();
    resource.resource_desc = Some(String::from("resource_desc"));
    resource.size = Some(256);
    info.add_resource(resource);

    info.add_area(rs_cap::area::Area::initialise());

    alert.add_info(info);

    let info = alert.infos.last().unwrap();

    assert_eq!(Some(Certainty::Observed), info.certainty);
    assert_eq!(1, info.event_codes.len());
    assert_eq!(1, info.parameters.len());
    assert_eq!(1, info.categories.len());
    assert_eq!(1, info.resources.len());
    assert_eq!(1, info.areas.len());
}

fn wrap_alert(body: &str) -> String {
    let mut s = String::from(r#"<alert xmlns="urn:oasis:names:tc:emergency:cap:1.2">"#);
    s.push_str(body);
    s.push_str("</alert>");
    s
}

#[test]
fn parse_full_alert() {
    let xml = wrap_alert(&format!(
        r#"<identifier>KSTO1055887203</identifier>
           <sender>KSTO@NWS.NOAA.GOV</sender>
           <sent>2003-06-17T14:57:00-07:00</sent>
           <status>Actual</status>
           <msgType>Alert</msgType>
           <scope>Public</scope>
           <code>IPAWSv1.0</code>
           <note>A note</note>
           {}"#,
        INFO_XML_1.replace(r#" xmlns="urn:oasis:names:tc:emergency:cap:1.2""#, "")
    ));
    let alert = parse(&xml).unwrap();
    assert_eq!(Some(Version::V1_2), alert.version);
    assert_eq!("KSTO1055887203", alert.identifier.unwrap());
    assert_eq!("KSTO@NWS.NOAA.GOV", alert.sender.unwrap());
    assert_eq!(Some(Status::Actual), alert.status);
    assert_eq!(Some(MsgType::Alert), alert.msg_type);
    assert_eq!(Some(Scope::Public), alert.scope);
    assert_eq!(vec![String::from("IPAWSv1.0")], alert.codes);
    assert_eq!(Some(String::from("A note")), alert.note);
    assert_eq!(
        "2003-06-17T14:57:00-07:00",
        alert.sent.as_ref().unwrap().as_str()
    );
    assert_eq!(1, alert.infos.len());
    assert_eq!(Some(String::from("Earthquake")), alert.infos[0].event);
}

#[test]
fn parse_same_document_twice_is_equal() {
    let xml = wrap_alert(
        r#"<identifier>X1</identifier>
           <sender>a@b.com</sender>
           <references>a@b.com,urn:id:1,2023-01-29T12:50:19+00:00</references>"#,
    );
    let first = parse(&xml).unwrap();
    let second = parse(&xml).unwrap();
    assert_eq!(first, second);
}

#[test]
fn parse_without_namespace_fails() {
    let xml = r#"<alert xmlns="urn:example:other"><identifier>X</identifier></alert>"#;
    assert!(matches!(
        parse(xml),
        Err(DeserialiseError::NameSpaceNotFound)
    ));
}

#[test]
fn unknown_child_fails_at_any_depth() {
    let xml = wrap_alert("<surprise>boo</surprise>");
    assert!(matches!(
        parse(&xml),
        Err(DeserialiseError::TagNotExpected(_))
    ));

    let nested = wrap_alert("<info><area><surprise>boo</surprise></area></info>");
    assert!(matches!(
        parse(&nested),
        Err(DeserialiseError::TagNotExpected(_))
    ));
}

#[test]
fn unrecognized_urgency_is_dropped() {
    let xml = wrap_alert("<info><urgency>NotARealValue</urgency><event>Quake</event></info>");
    let alert = parse(&xml).unwrap();
    assert_eq!(1, alert.infos.len());
    assert!(alert.infos[0].urgency.is_none());
    assert_eq!(Some(String::from("Quake")), alert.infos[0].event);
}

#[test]
fn references_decode_and_drop_malformed_groups() {
    let xml = wrap_alert(
        r#"<references>a@b.com,urn:id:1,2023-01-29T12:50:19+00:00 bad,group c@d.org,urn:id:2,2024-02-01T00:00:00+00:00</references>"#,
    );
    let alert = parse(&xml).unwrap();
    assert_eq!(2, alert.references.len());
    assert_eq!("a@b.com", alert.references[0].sender);
    assert_eq!("urn:id:1", alert.references[0].identifier);
    assert_eq!(
        "2023-01-29T12:50:19+00:00",
        alert.references[0].sent.as_str()
    );
    assert_eq!("c@d.org", alert.references[1].sender);
}

#[test]
fn bad_timestamp_in_info_is_date_error() {
    let xml = wrap_alert("<info><effective>not-a-date</effective></info>");
    assert!(matches!(
        parse(&xml),
        Err(DeserialiseError::ParseDateError(_))
    ));
}

#[test]
fn lenient_sent_timestamp_is_dropped() {
    let xml = wrap_alert("<sent>not-a-date</sent>");
    let alert = parse(&xml).unwrap();
    assert!(alert.sent.is_none());
}

#[test]
fn timestamp_parse_checks_format() {
    assert!(Timestamp::parse("2023-01-29T12:50:19+00:00").is_some());
    assert!(Timestamp::parse("202301291250190000").is_none());
}

#[test]
fn namespace_sniff_takes_first_version_in_order() {
    assert_eq!(
        Some("urn:oasis:names:tc:emergency:cap:1.2"),
        look_for_cap_namespace(r#"<alert xmlns="urn:oasis:names:tc:emergency:cap:1.2"/>"#)
    );
    assert_eq!(
        Some("urn:oasis:names:tc:emergency:cap:1.0"),
        look_for_cap_namespace(
            "text urn:oasis:names:tc:emergency:cap:1.2 then urn:oasis:names:tc:emergency:cap:1.0"
        )
    );
    assert_eq!(None, look_for_cap_namespace("no namespace here"));
}

#[test]
fn entities_in_text_are_resolved() {
    let xml = wrap_alert("<note>Tom &amp; Jerry &lt;3</note>");
    let alert = parse(&xml).unwrap();
    assert_eq!(Some(String::from("Tom & Jerry <3")), alert.note);
}

#[test]
fn enum_tokens_round_trip() {
    assert_eq!(Ok(Status::Actual), Status::from_str("Actual").map_err(|_| ()));
    assert_eq!("Actual", Status::Actual.as_str());
    assert_eq!("Shelter", rs_cap::info::ResponseType::Shelter.as_str());
    assert!(rs_cap::info::Category::from_str("NotACategory").is_err());
}
