use indi::types::{AttrName, EventKind};
use indi::{Command, CommandIter, DeError, Kind, Timestamp, Value, Verb};

const NOW: Timestamp = Timestamp { secs: 1_700_000_000, nanos: 5 };

fn failure(xml: &[u8]) -> DeError {
    let mut iter = CommandIter::new(xml, true, true).unwrap();
    match iter.next_command(NOW) {
        Err(e) => e,
        other => panic!("no failure: {:?}", other),
    }
}

#[test]
fn end_of_document_is_no_failure() {
    let mut iter = CommandIter::new(b"", true, true).unwrap();
    assert!(matches!(iter.next_command(NOW), Ok(None)));
    assert!(matches!(iter.next_command(NOW), Ok(None)));
    let mut iter = CommandIter::new(b"  \n  ", true, true).unwrap();
    assert!(matches!(iter.next_command(NOW), Ok(None)));
    let mut iter = CommandIter::new(b"<delProperty device=\"X\"/>\n", true, true).unwrap();
    assert!(matches!(iter.next_command(NOW), Ok(Some(Command::DelProperty(_)))));
    assert!(matches!(iter.next_command(NOW), Ok(None)));
}

#[test]
fn end_of_document_inside_a_vector_is_a_failure() {
    let head = "<defTextVector device=\"D\" name=\"N\" state=\"Ok\" perm=\"ro\">";
    assert!(matches!(
        failure(head.as_bytes()),
        DeError::UnexpectedEvent(EventKind::Eof)
    ));
    let one_child = format!("{}<defText name=\"a\">x</defText>", head);
    assert!(matches!(
        failure(one_child.as_bytes()),
        DeError::UnexpectedEvent(EventKind::Eof)
    ));
    let open_child = format!("{}<defText name=\"a\">x", head);
    assert!(matches!(
        failure(open_child.as_bytes()),
        DeError::UnexpectedEvent(EventKind::Eof)
    ));
    let cut_tag = format!("{}<defText name=\"a\"", head);
    assert!(matches!(failure(cut_tag.as_bytes()), DeError::UnexpectedEvent(EventKind::Eof)));
}

#[test]
fn unexpected_attribute_on_a_vector() {
    let xml = b"<setNumberVector device=\"D\" name=\"N\" state=\"Ok\" colour=\"red\"></setNumberVector>";
    match failure(xml) {
        DeError::UnexpectedAttr(name) => assert_eq!(name, "colour"),
        e => panic!("Unexpected: {:?}", e),
    }
    let xml = b"<newNumberVector device=\"D\" name=\"N\" state=\"Ok\"></newNumberVector>";
    match failure(xml) {
        DeError::UnexpectedAttr(name) => assert_eq!(name, "state"),
        e => panic!("Unexpected: {:?}", e),
    }
    let xml = b"<setTextVector device=\"D\" name=\"N\" state=\"Ok\" label=\"L\"></setTextVector>";
    match failure(xml) {
        DeError::UnexpectedAttr(name) => assert_eq!(name, "label"),
        e => panic!("Unexpected: {:?}", e),
    }
    let xml = b"<defNumberVector device=\"D\" name=\"N\" state=\"Ok\" perm=\"rw\" rule=\"AnyOfMany\"></defNumberVector>";
    match failure(xml) {
        DeError::UnexpectedAttr(name) => assert_eq!(name, "rule"),
        e => panic!("Unexpected: {:?}", e),
    }
}

#[test]
fn unexpected_attribute_on_an_element() {
    let xml = b"<setNumberVector device=\"D\" name=\"N\" state=\"Ok\"><oneNumber name=\"a\" unit=\"m\">1</oneNumber></setNumberVector>";
    match failure(xml) {
        DeError::UnexpectedAttr(name) => assert_eq!(name, "unit"),
        e => panic!("Unexpected: {:?}", e),
    }
    let xml = b"<setNumberVector device=\"D\" name=\"N\" state=\"Ok\"><oneNumber name=\"a\" label=\"A\">1</oneNumber></setNumberVector>";
    match failure(xml) {
        DeError::UnexpectedAttr(name) => assert_eq!(name, "label"),
        e => panic!("Unexpected: {:?}", e),
    }
    let xml = b"<message device=\"D\" name=\"N\"/>";
    match failure(xml) {
        DeError::UnexpectedAttr(name) => assert_eq!(name, "name"),
        e => panic!("Unexpected: {:?}", e),
    }
}

#[test]
fn missing_attributes() {
    let cases: [(&str, AttrName); 9] = [
        ("<defNumberVector name=\"N\" state=\"Ok\" perm=\"rw\"/>", AttrName::Device),
        ("<defNumberVector device=\"D\" state=\"Ok\" perm=\"rw\"/>", AttrName::Name),
        ("<defNumberVector device=\"D\" name=\"N\" perm=\"rw\"/>", AttrName::State),
        ("<defNumberVector device=\"D\" name=\"N\" state=\"Ok\"/>", AttrName::Perm),
        ("<defSwitchVector device=\"D\" name=\"N\" state=\"Ok\" perm=\"rw\"/>", AttrName::Rule),
        ("<setLightVector device=\"D\" name=\"N\"/>", AttrName::State),
        ("<delProperty name=\"N\"/>", AttrName::Device),
        ("<getProperties device=\"D\"/>", AttrName::Version),
        ("<newTextVector device=\"D\"><oneText>x</oneText></newTextVector>", AttrName::Name),
    ];
    for (xml, expected) in cases {
        match failure(xml.as_bytes()) {
            DeError::MissingAttr(a) => assert_eq!(a, expected, "{}", xml),
            e => panic!("Unexpected: {:?} for {}", e, xml),
        }
    }
}

#[test]
fn missing_attributes_of_elements() {
    let cases: [(&str, AttrName); 6] = [
        ("<defNumber name=\"a\" min=\"1\" max=\"2\" step=\"1\">1</defNumber>", AttrName::Format),
        ("<defNumber name=\"a\" format=\"%f\" max=\"2\" step=\"1\">1</defNumber>", AttrName::Min),
        ("<defNumber name=\"a\" format=\"%f\" min=\"1\" step=\"1\">1</defNumber>", AttrName::Max),
        ("<defNumber name=\"a\" format=\"%f\" min=\"1\" max=\"2\">1</defNumber>", AttrName::Step),
        ("<defNumber format=\"%f\" min=\"1\" max=\"2\" step=\"1\">1</defNumber>", AttrName::Name),
        ("<defNumber name=\"a\" format=\"%f\" min=\"1\" max=\"2\" step=\"1\"></defNumber>", AttrName::Value),
    ];
    for (xml, expected) in cases {
        let mut iter = CommandIter::new(xml.as_bytes(), true, true).unwrap();
        match iter.next_element(Kind::Number, Verb::Define) {
            Err(DeError::MissingAttr(a)) => assert_eq!(a, expected, "{}", xml),
            other => panic!("Unexpected: {:?} for {}", other, xml),
        }
    }
    let mut iter = CommandIter::new(b"<oneBLOB name=\"a\" format=\".fits\">AA==</oneBLOB>", true, true).unwrap();
    assert!(matches!(
        iter.next_element(Kind::Blob, Verb::Update),
        Err(DeError::MissingAttr(AttrName::Size))
    ));
    let mut iter = CommandIter::new(b"<oneSwitch name=\"a\"/>", true, true).unwrap();
    assert!(matches!(
        iter.next_element(Kind::Switch, Verb::Request),
        Err(DeError::MissingAttr(AttrName::Value))
    ));
}

#[test]
fn bad_attribute_values() {
    match failure(b"<setNumberVector device=\"D\" name=\"N\" state=\"Fine\"/>") {
        DeError::BadAttr(AttrName::State, raw) => assert_eq!(raw, b"Fine".to_vec()),
        e => panic!("Unexpected: {:?}", e),
    }
    match failure(b"<defTextVector device=\"D\" name=\"N\" state=\"Ok\" perm=\"rx\"/>") {
        DeError::BadAttr(AttrName::Perm, raw) => assert_eq!(raw, b"rx".to_vec()),
        e => panic!("Unexpected: {:?}", e),
    }
    match failure(b"<defSwitchVector device=\"D\" name=\"N\" state=\"Ok\" perm=\"rw\" rule=\"&lt;any&gt;\"/>") {
        DeError::BadAttr(AttrName::Rule, raw) => assert_eq!(raw, b"<any>".to_vec()),
        e => panic!("Unexpected: {:?}", e),
    }
    match failure(b"<setNumberVector device=\"D\" name=\"N\" state=\"Ok\" timeout=\"soon\"/>") {
        DeError::ParseIntError(text) => assert_eq!(text, "soon"),
        e => panic!("Unexpected: {:?}", e),
    }
    match failure(b"<setNumberVector device=\"D\" name=\"N\" state=\"Ok\" timeout=\"-1\"/>") {
        DeError::ParseIntError(text) => assert_eq!(text, "-1"),
        e => panic!("Unexpected: {:?}", e),
    }
    match failure(b"<setNumberVector device=\"D\" name=\"N\" state=\"Ok\" timeout=\"4294967296\"/>") {
        DeError::ParseIntError(text) => assert_eq!(text, "4294967296"),
        e => panic!("Unexpected: {:?}", e),
    }
    assert!(matches!(
        failure(b"<setNumberVector device=\"D\" name=\"N\" state=\"Ok\" timestamp=\"yesterday\"/>"),
        DeError::ParseDateTimeError(_)
    ));
    assert!(matches!(
        failure(b"<setNumberVector device=\"D\" name=\"N\" state=\"Ok\" timestamp=\"2022-13-40T05:52:27\"/>"),
        DeError::ParseDateTimeError(_)
    ));
    assert!(matches!(
        failure(b"<setNumberVector device=\"D\xff\" name=\"N\" state=\"Ok\"/>"),
        DeError::DecodeUtf8(_)
    ));
    assert!(matches!(
        failure(b"<setNumberVector device=\"D&unknown;\" name=\"N\" state=\"Ok\"/>"),
        DeError::XmlError(_)
    ));
}

#[test]
fn bad_element_values() {
    let vector = |kind: &str, text: &[u8]| {
        let mut xml = format!(
            "<set{k}Vector device=\"D\" name=\"N\" state=\"Ok\"><one{k} name=\"a\">",
            k = kind
        )
        .into_bytes();
        xml.extend_from_slice(text);
        xml.extend_from_slice(format!("</one{k}></set{k}Vector>", k = kind).as_bytes());
        xml
    };
    match failure(&vector("Switch", b"Maybe")) {
        DeError::BadValue(raw) => assert_eq!(raw, b"Maybe".to_vec()),
        e => panic!("Unexpected: {:?}", e),
    }
    match failure(&vector("Light", b"On")) {
        DeError::BadValue(raw) => assert_eq!(raw, b"On".to_vec()),
        e => panic!("Unexpected: {:?}", e),
    }
    match failure(&vector("Number", b"12 parsecs")) {
        DeError::ParseFloatError(text) => assert_eq!(text, "12 parsecs"),
        e => panic!("Unexpected: {:?}", e),
    }
    assert!(matches!(failure(&vector("Text", b"caf\xe9")), DeError::DecodeUtf8(_)));
    assert!(matches!(failure(&vector("Text", b"a &bogus; b")), DeError::XmlError(_)));
}

#[test]
fn numbers_are_read_as_latin_1() {
    let mut xml = b"<oneNumber name=\"a\">".to_vec();
    xml.extend_from_slice(b"5\xe9");
    xml.extend_from_slice(b"</oneNumber>");
    let mut iter = CommandIter::new(&xml, true, true).unwrap();
    match iter.next_element(Kind::Number, Verb::Update) {
        Err(DeError::ParseFloatError(text)) => assert_eq!(text, "5\u{e9}"),
        other => panic!("Unexpected: {:?}", other),
    }
    let mut xml = b"<oneNumber name=\"a\">".to_vec();
    xml.extend_from_slice(b"\xc2\xb5");
    xml.extend_from_slice(b"</oneNumber>");
    let mut iter = CommandIter::new(&xml, true, true).unwrap();
    match iter.next_element(Kind::Number, Verb::Update) {
        Err(DeError::ParseFloatError(text)) => assert_eq!(text, "\u{c2}\u{b5}"),
        other => panic!("Unexpected: {:?}", other),
    }
}

#[test]
fn entities_are_replaced() {
    let xml = b"<defText name=\"a &amp; b\" label=\"&lt;L&gt; &#65;\">x &quot;y&quot; &apos;z&apos;</defText>";
    let mut iter = CommandIter::new(xml, true, true).unwrap();
    let e = iter.next_element(Kind::Text, Verb::Define).unwrap();
    assert_eq!(e.name, "a & b");
    assert_eq!(e.label, Some("<L> A".to_string()));
    assert_eq!(e.value, Value::Text("x \"y\" 'z'".to_string()));
}

#[test]
fn unexpected_events() {
    assert!(matches!(failure(b"hello"), DeError::UnexpectedEvent(EventKind::Text)));
    assert!(matches!(failure(b"<!-- note -->"), DeError::UnexpectedEvent(EventKind::Other)));
    assert!(matches!(
        failure(b"<?xml version=\"1.0\"?>"),
        DeError::UnexpectedEvent(EventKind::Other)
    ));
    let xml = b"<setTextVector device=\"D\" name=\"N\" state=\"Ok\">stray<oneText name=\"a\">x</oneText></setTextVector>";
    assert!(matches!(failure(xml), DeError::UnexpectedEvent(EventKind::Text)));
    let xml = b"<setTextVector device=\"D\" name=\"N\" state=\"Ok\"><oneText name=\"a\"><b/></oneText></setTextVector>";
    assert!(matches!(failure(xml), DeError::UnexpectedEvent(EventKind::Start)));
    let xml = b"<message device=\"D\">text</message>";
    assert!(matches!(failure(xml), DeError::UnexpectedEvent(EventKind::Text)));
    let xml = b"<defBLOBVector device=\"D\" name=\"N\" state=\"Ok\" perm=\"ro\"><defBLOB name=\"a\">AA==</defBLOB></defBLOBVector>";
    assert!(matches!(failure(xml), DeError::UnexpectedEvent(EventKind::Text)));
    let mut iter = CommandIter::new(b"<getProperties version=\"1.7\"/>", true, false).unwrap();
    assert!(matches!(
        iter.next_command(NOW),
        Err(DeError::UnexpectedEvent(EventKind::Other))
    ));
}

#[test]
fn a_stray_end_tag_is_a_failure() {
    let mut iter = CommandIter::new(b"<delProperty device=\"X\"></delProperty></delProperty>", true, true).unwrap();
    assert!(matches!(iter.next_command(NOW), Ok(Some(_))));
    assert!(iter.next_command(NOW).is_err());
}

#[test]
fn unexpected_tags() {
    match failure(b"<enableBLOB device=\"D\">Also</enableBLOB>") {
        DeError::UnexpectedTag(name) => assert_eq!(name, "enableBLOB"),
        e => panic!("Unexpected: {:?}", e),
    }
    match failure(b"<defnumbervector device=\"D\"/>") {
        DeError::UnexpectedTag(name) => assert_eq!(name, "defnumbervector"),
        e => panic!("Unexpected: {:?}", e),
    }
    let xml = b"<setTextVector device=\"D\" name=\"N\" state=\"Ok\"><oneNumber name=\"a\">1</oneNumber></setTextVector>";
    match failure(xml) {
        DeError::UnexpectedTag(name) => assert_eq!(name, "oneNumber"),
        e => panic!("Unexpected: {:?}", e),
    }
    let xml = b"<setTextVector device=\"D\" name=\"N\" state=\"Ok\"><defText name=\"a\">1</defText></setTextVector>";
    match failure(xml) {
        DeError::UnexpectedTag(name) => assert_eq!(name, "defText"),
        e => panic!("Unexpected: {:?}", e),
    }
    assert!(matches!(failure(b"<def\xffVector/>"), DeError::DecodeUtf8(_)));
}

#[test]
fn malformed_xml() {
    assert!(matches!(
        failure(b"<setTextVector device=\"D\" name=\"N\" state=\"Ok\"></setNumberVector>"),
        DeError::XmlError(_)
    ));
    assert!(matches!(
        failure(b"<setTextVector device=\"D\" name=N state=\"Ok\"></setTextVector>"),
        DeError::XmlError(_)
    ));
    assert!(matches!(
        failure(b"<setTextVector device=\"D\" device=\"E\" name=\"N\" state=\"Ok\"></setTextVector>"),
        DeError::XmlError(_)
    ));
    let mut iter = CommandIter::new(b"<setTextVector device=\"D\" name=\"N\" state=\"Ok\"></x><a/>", true, true).unwrap();
    assert!(matches!(iter.next_command(NOW), Err(DeError::XmlError(_))));
    assert!(matches!(iter.next_command(NOW), Ok(None)));
}

#[test]
fn an_earlier_failure_comes_first() {
    let xml = b"<setTextVector colour=\"red\" name=N></setTextVector>";
    match failure(xml) {
        DeError::UnexpectedAttr(name) => assert_eq!(name, "colour"),
        e => panic!("Unexpected: {:?}", e),
    }
    let xml = b"<setTextVector colour=\"&bogus;\" state=\"Nope\"></setTextVector>";
    match failure(xml) {
        DeError::UnexpectedAttr(name) => assert_eq!(name, "colour"),
        e => panic!("Unexpected: {:?}", e),
    }
}

#[test]
fn elements_keep_the_order_of_the_document() {
    let xml = b"<setTextVector device=\"D\" name=\"N\" state=\"Ok\"><oneText name=\"c\">3</oneText><oneText name=\"a\">1</oneText><oneText name=\"b\">2</oneText><oneText name=\"a\">4</oneText></setTextVector>";
    let mut iter = CommandIter::new(xml, true, true).unwrap();
    match iter.next_command(NOW).unwrap().unwrap() {
        Command::SetParameter(p) => {
            let names: Vec<&str> = p.elements.iter().map(|e| e.name.as_str()).collect();
            assert_eq!(names, vec!["c", "a", "b", "a"]);
            let values: Vec<&Value> = p.elements.iter().map(|e| &e.value).collect();
            assert_eq!(
                values,
                vec![
                    &Value::Text("3".to_string()),
                    &Value::Text("1".to_string()),
                    &Value::Text("2".to_string()),
                    &Value::Text("4".to_string())
                ]
            );
        }
        e => panic!("Unexpected: {:?}", e),
    }
}

#[test]
fn timestamps_are_utc() {
    let at = |stamp: &str| {
        let xml = format!("<message timestamp=\"{}\"/>", stamp);
        let mut iter = CommandIter::new(xml.as_bytes(), true, true).unwrap();
        match iter.next_command(NOW).unwrap().unwrap() {
            Command::Message(m) => m.timestamp.unwrap(),
            e => panic!("Unexpected: {:?}", e),
        }
    };
    let expected = Timestamp { secs: 1660283547, nanos: 0 };
    assert_eq!(at("2022-08-12T05:52:27"), expected);
    assert_eq!(at("2022-08-12T05:52:27Z"), expected);
    assert_eq!(at("2022-08-12T07:52:27+02:00"), expected);
    assert_eq!(at("2022-08-12T05:52:27.25"), Timestamp { secs: 1660283547, nanos: 250_000_000 });
}

#[test]
fn an_update_without_timestamp_gets_the_time_of_decoding() {
    let mut iter = CommandIter::new(
        b"<setTextVector device=\"D\" name=\"N\" state=\"Ok\"/><defTextVector device=\"D\" name=\"N\" state=\"Ok\" perm=\"ro\"/><newTextVector device=\"D\" name=\"N\"/><setTextVector device=\"D\" name=\"N\" state=\"Ok\" timestamp=\"2022-08-12T05:52:27\"/>",
        true,
        true,
    ).unwrap();
    match iter.next_command(NOW).unwrap().unwrap() {
        Command::SetParameter(p) => assert_eq!(p.timestamp, Some(NOW)),
        e => panic!("Unexpected: {:?}", e),
    }
    match iter.next_command(NOW).unwrap().unwrap() {
        Command::DefParameter(p) => assert_eq!(p.timestamp, None),
        e => panic!("Unexpected: {:?}", e),
    }
    match iter.next_command(NOW).unwrap().unwrap() {
        Command::NewParameter(p) => assert_eq!(p.timestamp, None),
        e => panic!("Unexpected: {:?}", e),
    }
    match iter.next_command(NOW).unwrap().unwrap() {
        Command::SetParameter(p) => {
            assert_eq!(p.timestamp, Some(Timestamp { secs: 1660283547, nanos: 0 }))
        }
        e => panic!("Unexpected: {:?}", e),
    }
}

#[test]
fn light_and_blob_requests_are_decoded() {
    let xml = b"<newLightVector device=\"D\" name=\"N\"><oneLight name=\"a\">Alert</oneLight></newLightVector><newBLOBVector device=\"D\" name=\"B\"><oneBLOB name=\"b\" size=\"3\" format=\".bin\">AAEC</oneBLOB></newBLOBVector>";
    let mut iter = CommandIter::new(xml, true, true).unwrap();
    match iter.next_command(NOW).unwrap().unwrap() {
        Command::NewParameter(p) => {
            assert_eq!(p.kind, Kind::Light);
            assert_eq!(p.elements.len(), 1);
        }
        e => panic!("Unexpected: {:?}", e),
    }
    match iter.next_command(NOW).unwrap().unwrap() {
        Command::NewParameter(p) => {
            assert_eq!(p.kind, Kind::Blob);
            assert_eq!(p.elements[0].value, Value::Blob(b"AAEC".to_vec()));
            assert_eq!(p.elements[0].size, Some(3));
        }
        e => panic!("Unexpected: {:?}", e),
    }
}

#[test]
fn empty_texts() {
    let xml = b"<oneText name=\"a\"></oneText>";
    let mut iter = CommandIter::new(xml, true, true).unwrap();
    assert_eq!(iter.next_element(Kind::Text, Verb::Update).unwrap().value, Value::Text(String::new()));
    let xml = b"<oneBLOB name=\"a\" size=\"0\" format=\"\"/>";
    let mut iter = CommandIter::new(xml, true, true).unwrap();
    assert_eq!(iter.next_element(Kind::Blob, Verb::Update).unwrap().value, Value::Blob(Vec::new()));
}

#[test]
fn a_document_type_declaration_is_refused() {
    let refused: [&[u8]; 6] = [
        b"<!DOCTYPE>",
        b"<!DOCTYPE  >",
        b"<!doctype indi>",
        b"<message/><!DOCTYPE x><message/>",
        b"<!-- <!D -->",
        b"<message message=\"<!d\"/>",
    ];
    for xml in refused {
        assert!(indi::decoder::declares_document_type(xml));
        assert!(matches!(
            CommandIter::new(xml, true, true),
            Err(DeError::UnexpectedEvent(EventKind::DocType))
        ));
        assert!(matches!(
            indi::Client::new().command_iter(xml),
            Err(DeError::UnexpectedEvent(EventKind::DocType))
        ));
    }
    let taken: [&[u8]; 6] = [b"", b"<!", b"<!-", b"<!-- D -->", b"< !D>", b"<!x>"];
    for xml in taken {
        assert!(!indi::decoder::declares_document_type(xml));
        assert!(CommandIter::new(xml, true, true).is_ok());
    }
}

#[test]
fn the_name_of_a_device_is_not_empty() {
    for xml in [
        "<setNumberVector device=\"\" name=\"N\" state=\"Ok\"/>",
        "<delProperty device=\"\"/>",
        "<message device=\"\" message=\"m\"/>",
        "<getProperties version=\"1.7\" device=\"\"/>",
    ] {
        match failure(xml.as_bytes()) {
            DeError::BadAttr(AttrName::Device, raw) => assert_eq!(raw, Vec::<u8>::new(), "{}", xml),
            e => panic!("Unexpected: {:?} for {}", e, xml),
        }
    }
    let mut iter = CommandIter::new(b"<message device=\" \" message=\"\"/>", true, true).unwrap();
    assert!(matches!(iter.next_command(NOW), Ok(Some(_))));
}

#[test]
fn zone_designators_of_every_form_are_kept() {
    let at = |stamp: &str| {
        let xml = format!("<message timestamp=\"{}\"/>", stamp);
        let mut iter = CommandIter::new(xml.as_bytes(), true, true).unwrap();
        match iter.next_command(NOW) {
            Ok(Some(Command::Message(m))) => m.timestamp.unwrap(),
            other => panic!("Unexpected: {:?} for {}", other, stamp),
        }
    };
    let expected = Timestamp { secs: 1660283547, nanos: 0 };
    for stamp in [
        "2022-08-12T05:52:27",
        "2022-08-12 05:52:27",
        "2022-08-12T05:52:27 ",
        "2022-08-12T05:52:27Z",
        "2022-08-12T05:52:27z",
        "2022-08-12T05:52:27 Z ",
        "2022-08-12T05:52:27UTC",
        "2022-08-12T05:52:27 utc",
        "2022-08-12T05:52:27 Utc  ",
        "2022-08-12T07:52:27+02:00",
        "2022-08-12T07:52:27+0200",
        "2022-08-12T07:52:27 +02 00",
        "2022-08-12T07:52:27+02: 00 ",
        "2022-08-12T04:22:27-01:30",
        "2022-08-12T04:22:27-0130",
        "2022-08-12T04:22:27\u{2212}01:30",
        "2022-8-12T5:52:27",
        "2022-08-12T05:52:27.000",
    ] {
        assert_eq!(at(stamp), expected, "{:?}", stamp);
    }
}
