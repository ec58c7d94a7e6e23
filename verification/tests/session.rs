use indi::types::EventKind;
use indi::{
    Client, CommandIter, DeError, Failure, Framer, PropertyState, Timestamp, UpdateError, Value,
};

const NOW: Timestamp = Timestamp { secs: 42, nanos: 0 };

#[test]
fn a_document_is_followed_to_its_end() {
    let xml = br#"
<defTextVector device="D" name="T" state="Idle" perm="rw">
    <defText name="a">1</defText>
    <defText name="b">2</defText>
</defTextVector>
<setTextVector device="D" name="T" state="Ok">
    <oneText name="b">two</oneText>
</setTextVector>
<setTextVector device="D" name="U" state="Ok">
    <oneText name="b">x</oneText>
</setTextVector>
<enableBLOB device="D">Also</enableBLOB>
<message device="D" message="hello"/>
<defNumberVector device="E" name="N" state="Ok" perm="ro">
    <defNumber name="n" format="%f" min="0" max="9" step="1">4.5</defNumber>
</defNumberVector>
<delProperty device="D" name="Q"/>
"#;
    let mut iter = CommandIter::new(xml, true, true).unwrap();
    let mut client = Client::new();
    let failures = client.listen_for_updates(&mut iter, NOW);
    assert!(matches!(iter.next_command(NOW), Ok(None)));

    let t = client.get("D", "T").unwrap();
    assert_eq!(t.state, Some(PropertyState::Okay));
    assert_eq!(t.timestamp, Some(NOW));
    assert_eq!(t.elements[0].value, Value::Text("1".to_string()));
    assert_eq!(t.elements[1].value, Value::Text("two".to_string()));
    assert!(client.get("D", "U").is_none());
    assert_eq!(client.get("E", "N").unwrap().elements[0].value, Value::Number("4.5".to_string()));

    assert_eq!(failures.len(), 5);
    assert!(matches!(&failures[0], Failure::Update(UpdateError::UndefinedProperty(n)) if n == "U"));
    assert!(matches!(&failures[1], Failure::Decode(DeError::UnexpectedTag(n)) if n == "enableBLOB"));
    assert!(matches!(&failures[2], Failure::Decode(DeError::UnexpectedEvent(EventKind::Text))));
    assert!(matches!(&failures[3], Failure::Decode(DeError::UnexpectedEvent(EventKind::End))));
    assert!(matches!(&failures[4], Failure::Update(UpdateError::UndefinedProperty(n)) if n == "Q"));
}

#[test]
fn an_empty_document_changes_nothing() {
    let mut client = Client::new();
    let mut iter = client.command_iter(b"").unwrap();
    assert_eq!(client.listen_for_updates(&mut iter, NOW).len(), 0);
    assert_eq!(client.devices().len(), 0);
}

#[test]
fn a_document_that_breaks_off_is_followed_up_to_there() {
    let xml = b"<defTextVector device=\"D\" name=\"T\" state=\"Idle\" perm=\"rw\"><defText name=\"a\">1</defText></defTextVector><defTextVector device=\"D\" name=\"V\" state=\"Idle\" perm=\"rw\"><defText name=\"a\">";
    let mut iter = CommandIter::new(xml, true, true).unwrap();
    let mut client = Client::new();
    let failures = client.listen_for_updates(&mut iter, NOW);
    assert_eq!(failures.len(), 1);
    assert!(matches!(&failures[0], Failure::Decode(DeError::UnexpectedEvent(EventKind::Eof))));
    assert!(client.get("D", "T").is_some());
    assert!(client.get("D", "V").is_none());
}

#[test]
fn rejected_attributes_do_not_stop_the_tokenizer() {
    let xml = b"<setTextVector a b c=d e=\"1\" e=\"2\" f= ></setTextVector><message/>";
    let mut iter = CommandIter::new(xml, true, true).unwrap();
    let mut client = Client::new();
    let failures = client.listen_for_updates(&mut iter, NOW);
    assert_eq!(failures.len(), 2);
    assert!(matches!(&failures[0], Failure::Decode(DeError::XmlError(_))));
    assert!(matches!(&failures[1], Failure::Decode(DeError::UnexpectedEvent(EventKind::End))));
}

#[test]
fn the_client_reads_empty_elements_and_trims_texts() {
    let mut client = Client::new();
    let mut iter = client.command_iter(
        b"<defSwitchVector device=\"D\" name=\"S\" state=\"Ok\" perm=\"rw\" rule=\"AnyOfMany\">\n  <defSwitch name=\"a\">\n On \n</defSwitch>\n</defSwitchVector>\n<delProperty device=\"D\" name=\"none\"/>",
    ).unwrap();
    let failures = client.listen_for_updates(&mut iter, NOW);
    assert_eq!(failures.len(), 1);
    assert!(matches!(&failures[0], Failure::Update(UpdateError::UndefinedProperty(n)) if n == "none"));
    assert_eq!(
        client.get("D", "S").unwrap().elements[0].value,
        Value::Switch(indi::SwitchState::On)
    );
    let mut untrimmed = CommandIter::new(b"\n<message/>", false, true).unwrap();
    assert!(matches!(
        untrimmed.next_command(NOW),
        Err(DeError::UnexpectedEvent(EventKind::Text))
    ));
}

#[test]
fn the_position_counts_the_bytes_read() {
    let xml = b"<message/><delProperty device=\"D\"/>";
    let mut iter = CommandIter::new(xml, true, true).unwrap();
    assert_eq!(iter.buffer_position(), 0);
    assert!(matches!(iter.next_command(NOW), Ok(Some(_))));
    assert_eq!(iter.buffer_position(), 10);
    assert_eq!(iter.buffer_position(), 10);
    assert!(matches!(iter.next_command(NOW), Ok(Some(_))));
    assert_eq!(iter.buffer_position(), xml.len());
    assert_eq!(Client::new().command_iter(b"   ").unwrap().buffer_position(), 0);
}

#[test]
fn top_level_items_are_framed() {
    use_framer(
        &[
            (EventKind::Start, false),
            (EventKind::Start, false),
            (EventKind::Text, false),
            (EventKind::End, false),
            (EventKind::Other, false),
            (EventKind::End, true),
            (EventKind::Text, true),
            (EventKind::Other, true),
            (EventKind::DocType, true),
            (EventKind::End, true),
            (EventKind::Start, false),
            (EventKind::End, true),
            (EventKind::Start, false),
            (EventKind::Start, false),
            (EventKind::Eof, true),
            (EventKind::Start, false),
            (EventKind::End, true),
            (EventKind::Eof, true),
        ],
    );
}

fn use_framer(steps: &[(EventKind, bool)]) {
    let mut framer = Framer::new();
    for (i, (kind, complete)) in steps.iter().enumerate() {
        assert_eq!(framer.accept(*kind), *complete, "step {}", i);
    }
}
