use chrono::{DateTime, Utc};
use indi::{
    Command, CommandIter, DeError, Element, Kind, Parameter, PropertyPerm, PropertyState,
    SwitchRule, SwitchState, Timestamp, Value, Verb,
};
use std::str::FromStr;

const EPOCH: Timestamp = Timestamp { secs: 0, nanos: 0 };

fn instant(text: &str) -> Timestamp {
    let t = DateTime::<Utc>::from_str(text).unwrap();
    Timestamp { secs: t.timestamp(), nanos: t.timestamp_subsec_nanos() }
}

fn number(e: &Element) -> f64 {
    match &e.value {
        Value::Number(text) => text.parse::<f64>().unwrap(),
        other => panic!("no number: {:?}", other),
    }
}

const DEF_NUMBER_VECTOR: &str = r#"
    <defNumberVector device="CCD Simulator" name="SIMULATOR_SETTINGS" label="Settings" group="Simulator Config" state="Idle" perm="rw" timeout="60" timestamp="2022-08-12T05:52:27">
        <defNumber name="SIM_XRES" label="CCD X resolution" format="%4.0f" min="512" max="8192" step="512">
    1280
        </defNumber>
        <defNumber name="SIM_YRES" label="CCD Y resolution" format="%4.0f" min="512" max="8192" step="512">
    1024
        </defNumber>
        <defNumber name="SIM_XSIZE" label="CCD X Pixel Size" format="%4.2f" min="1" max="30" step="5">
    5.2000000000000001776
        </defNumber>
    </defNumberVector>
                    "#;

#[test]
fn test_listen_for_updates() {
    let mut iter = CommandIter::new(DEF_NUMBER_VECTOR.as_bytes(), true, false).unwrap();
    match iter.next_command(EPOCH).unwrap().unwrap() {
        Command::DefParameter(param) => {
            assert_eq!(param.kind, Kind::Number);
            assert_eq!(param.device, "CCD Simulator");
        }
        e => panic!("Unexpected: {:?}", e),
    }
}

#[test]
fn test_parse_number() {
    let xml = r#"
    <defNumber name="SIM_XRES" label="CCD X resolution" format="%4.0f" min="512" max="8192" step="512">
1280
    </defNumber>
"#;
    let mut iter = CommandIter::new(xml.as_bytes(), true, false).unwrap();
    let result = iter.next_element(Kind::Number, Verb::Define).unwrap();
    assert_eq!(result.name, "SIM_XRES".to_string());
    assert_eq!(result.label, Some("CCD X resolution".to_string()));
    assert_eq!(result.format, Some("%4.0f".to_string()));
    assert_eq!(result.min, Some(512));
    assert_eq!(result.max, Some(8192));
    assert_eq!(result.step, Some(512));
    assert_eq!(number(&result), 1280.0);

    let xml = r#"
    <defNumber name="SIM_XSIZE" label="CCD X Pixel Size" format="%4.2f" min="1" max="30" step="5">
5.2000000000000001776
    </defNumber>
"#;
    let mut iter = CommandIter::new(xml.as_bytes(), true, false).unwrap();
    let result = iter.next_element(Kind::Number, Verb::Define).unwrap();
    assert_eq!(
        result,
        Element {
            name: "SIM_XSIZE".to_string(),
            label: Some("CCD X Pixel Size".to_string()),
            format: Some("%4.2f".to_string()),
            min: Some(1),
            max: Some(30),
            step: Some(5),
            size: None,
            value: Value::Number("5.2000000000000001776".to_string()),
        }
    );
    assert_eq!(number(&result), 5.2000000000000001776);
}

#[test]
fn test_parse_numbervector() {
    let xml = r#"
<defNumberVector device="CCD Simulator" name="SIMULATOR_SETTINGS" label="Settings" group="Simulator Config" state="Idle" perm="rw" timeout="60" timestamp="2022-08-12T05:52:27">
    <defNumber name="SIM_XRES" label="CCD X resolution" format="%4.0f" min="512" max="8192" step="512">
1280
    </defNumber>
    <defNumber name="SIM_YRES" label="CCD Y resolution" format="%4.0f" min="512" max="8192" step="512">
1024
    </defNumber>
    <defNumber name="SIM_XSIZE" label="CCD X Pixel Size" format="%4.2f" min="1" max="30" step="5">
5.2000000000000001776
    </defNumber>
</defNumberVector>
"#;
    let mut iter = CommandIter::new(xml.as_bytes(), true, false).unwrap();
    let result = match iter.next_command(EPOCH).unwrap().unwrap() {
        Command::DefParameter(param) => param,
        _ => panic!("wrong element type"),
    };
    assert_eq!(result.name, "SIMULATOR_SETTINGS".to_string());
    assert_eq!(result.device, "CCD Simulator".to_string());
    assert_eq!(result.label, Some("Settings".to_string()));
    assert_eq!(result.group, Some("Simulator Config".to_string()));
    assert_eq!(result.state, Some(PropertyState::Idle));
    assert_eq!(result.perm, Some(PropertyPerm::RW));
    assert_eq!(result.timeout, Some(60));
    assert_eq!(result.timestamp, Some(instant("2022-08-12T05:52:27Z")));
}

#[test]
fn test_def_number_vector() {
    let mut iter = CommandIter::new(DEF_NUMBER_VECTOR.as_bytes(), true, false).unwrap();
    match iter.next_command(EPOCH).unwrap().unwrap() {
        Command::DefParameter(param) => {
            assert_eq!(param.kind, Kind::Number);
            assert_eq!(param.device, "CCD Simulator");
            assert_eq!(param.name, "SIMULATOR_SETTINGS");
            assert_eq!(param.elements.len(), 3)
        }
        e => panic!("Unexpected: {:?}", e),
    }
}

const ONE_NUMBERS: &str = r#"
    <oneNumber name="SIM_FOCUS_POSITION">
7340
    </oneNumber>
    <oneNumber name="SIM_FOCUS_MAX">
100000
    </oneNumber>
    <oneNumber name="SIM_SEEING">
3.5
    </oneNumber>
"#;

#[test]
fn test_set_number_vector() {
    let xml = format!(
        "\n<setNumberVector device=\"CCD Simulator\" name=\"SIM_FOCUSING\" state=\"Ok\" timeout=\"60\" timestamp=\"2022-10-01T21:21:10\">{}</setNumberVector>\n",
        ONE_NUMBERS
    );
    let mut iter = CommandIter::new(xml.as_bytes(), true, false).unwrap();
    match iter.next_command(EPOCH).unwrap().unwrap() {
        Command::SetParameter(param) => {
            assert_eq!(param.kind, Kind::Number);
            assert_eq!(param.device, "CCD Simulator");
            assert_eq!(param.name, "SIM_FOCUSING");
            assert_eq!(param.elements.len(), 3)
        }
        e => panic!("Unexpected: {:?}", e),
    }
}

#[test]
fn test_new_number_vector() {
    let xml = format!(
        "\n<newNumberVector device=\"CCD Simulator\" name=\"SIM_FOCUSING\" timestamp=\"2022-10-01T21:21:10\">{}</newNumberVector>\n",
        ONE_NUMBERS
    );
    let mut iter = CommandIter::new(xml.as_bytes(), true, false).unwrap();
    match iter.next_command(EPOCH).unwrap().unwrap() {
        Command::NewParameter(param) => {
            assert_eq!(param.kind, Kind::Number);
            assert_eq!(param.device, "CCD Simulator");
            assert_eq!(param.name, "SIM_FOCUSING");
            assert_eq!(param.elements.len(), 3)
        }
        e => panic!("Unexpected: {:?}", e),
    }
}

#[test]
fn test_def_text_vector() {
    let xml = r#"
<defTextVector device="CCD Simulator" name="ACTIVE_DEVICES" label="Snoop devices" group="Options" state="Idle" perm="rw" timeout="60" timestamp="2022-09-05T21:07:22">
    <defText name="ACTIVE_TELESCOPE" label="Telescope">
Telescope Simulator
    </defText>
    <defText name="ACTIVE_ROTATOR" label="Rotator">
Rotator Simulator
    </defText>
    <defText name="ACTIVE_FOCUSER" label="Focuser">
Focuser Simulator
    </defText>
    <defText name="ACTIVE_FILTER" label="Filter">
CCD Simulator
    </defText>
    <defText name="ACTIVE_SKYQUALITY" label="Sky Quality">
SQM
    </defText>
</defTextVector>
                    "#;
    let mut iter = CommandIter::new(xml.as_bytes(), true, false).unwrap();
    match iter.next_command(EPOCH).unwrap().unwrap() {
        Command::DefParameter(param) => {
            assert_eq!(param.kind, Kind::Text);
            assert_eq!(param.device, "CCD Simulator");
            assert_eq!(param.name, "ACTIVE_DEVICES");
            assert_eq!(param.elements.len(), 5)
        }
        e => panic!("Unexpected: {:?}", e),
    }
}

const ONE_TEXTS: &str = r#"
    <oneText name="ACTIVE_TELESCOPE">
Simulator changed
    </oneText>
    <oneText name="ACTIVE_ROTATOR">
Rotator Simulator
    </oneText>
    <oneText name="ACTIVE_FOCUSER">
Focuser Simulator
    </oneText>
    <oneText name="ACTIVE_FILTER">
CCD Simulator
    </oneText>
    <oneText name="ACTIVE_SKYQUALITY">
SQM
    </oneText>
"#;

#[test]
fn test_set_text_vector() {
    let xml = format!(
        "\n<setTextVector device=\"CCD Simulator\" name=\"ACTIVE_DEVICES\" state=\"Ok\" timeout=\"60\" timestamp=\"2022-10-01T17:06:14\">{}</setTextVector>\n",
        ONE_TEXTS
    );
    let mut iter = CommandIter::new(xml.as_bytes(), true, false).unwrap();
    match iter.next_command(EPOCH).unwrap().unwrap() {
        Command::SetParameter(param) => {
            assert_eq!(param.kind, Kind::Text);
            assert_eq!(param.device, "CCD Simulator");
            assert_eq!(param.name, "ACTIVE_DEVICES");
            assert_eq!(param.elements.len(), 5)
        }
        e => panic!("Unexpected: {:?}", e),
    }
}

#[test]
fn test_new_text_vector() {
    let xml = format!(
        "\n<newTextVector device=\"CCD Simulator\" name=\"ACTIVE_DEVICES\" timestamp=\"2022-10-01T17:06:14\">{}</newTextVector>\n",
        ONE_TEXTS
    );
    let mut iter = CommandIter::new(xml.as_bytes(), true, false).unwrap();
    match iter.next_command(EPOCH).unwrap().unwrap() {
        Command::NewParameter(param) => {
            assert_eq!(param.kind, Kind::Text);
            assert_eq!(param.device, "CCD Simulator");
            assert_eq!(param.name, "ACTIVE_DEVICES");
            assert_eq!(param.elements.len(), 5)
        }
        e => panic!("Unexpected: {:?}", e),
    }
}

#[test]
fn test_def_switch_vector() {
    let xml = r#"
<defSwitchVector device="CCD Simulator" name="SIMULATE_BAYER" label="Bayer" group="Simulator Config" state="Idle" perm="rw" rule="OneOfMany" timeout="60" timestamp="2022-09-06T01:41:22">
    <defSwitch name="INDI_ENABLED" label="Enabled">
Off
    </defSwitch>
    <defSwitch name="INDI_DISABLED" label="Disabled">
On
    </defSwitch>
</defSwitchVector>
                    "#;
    let mut iter = CommandIter::new(xml.as_bytes(), true, false).unwrap();
    match iter.next_command(EPOCH).unwrap().unwrap() {
        Command::DefParameter(param) => {
            assert_eq!(param.kind, Kind::Switch);
            assert_eq!(param.device, "CCD Simulator");
            assert_eq!(param.name, "SIMULATE_BAYER");
            assert_eq!(param.rule, Some(SwitchRule::OneOfMany));
            assert_eq!(param.elements.len(), 2);
            assert_eq!(param.elements[0].value, Value::Switch(SwitchState::Off));
            assert_eq!(param.elements[1].value, Value::Switch(SwitchState::On));
        }
        e => panic!("Unexpected: {:?}", e),
    }
}

const ONE_SWITCHES: &str = r#"
    <oneSwitch name="ENABLE">
On
    </oneSwitch>
    <oneSwitch name="DISABLE">
Off
    </oneSwitch>
"#;

#[test]
fn test_set_switch_vector() {
    let xml = format!(
        "\n<setSwitchVector device=\"CCD Simulator\" name=\"DEBUG\" state=\"Ok\" timeout=\"0\" timestamp=\"2022-10-01T22:07:22\">{}</setSwitchVector>\n",
        ONE_SWITCHES
    );
    let mut iter = CommandIter::new(xml.as_bytes(), true, false).unwrap();
    match iter.next_command(EPOCH).unwrap().unwrap() {
        Command::SetParameter(param) => {
            assert_eq!(param.kind, Kind::Switch);
            assert_eq!(param.device, "CCD Simulator");
            assert_eq!(param.name, "DEBUG");
            assert_eq!(param.elements.len(), 2)
        }
        e => panic!("Unexpected: {:?}", e),
    }
}

#[test]
fn test_new_switch_vector() {
    let xml = format!(
        "\n<newSwitchVector device=\"CCD Simulator\" name=\"DEBUG\" timestamp=\"2022-10-01T22:07:22\">{}</newSwitchVector>\n",
        ONE_SWITCHES
    );
    let mut iter = CommandIter::new(xml.as_bytes(), true, false).unwrap();
    match iter.next_command(EPOCH).unwrap().unwrap() {
        Command::NewParameter(param) => {
            assert_eq!(param.kind, Kind::Switch);
            assert_eq!(param.device, "CCD Simulator");
            assert_eq!(param.name, "DEBUG");
            assert_eq!(param.elements.len(), 2)
        }
        e => panic!("Unexpected: {:?}", e),
    }
}

#[test]
fn test_def_light_vector() {
    let xml = r#"
<defLightVector device="CCD Simulator" name="SIMULATE_BAYER" label="Bayer" group="Simulator Config" state="Idle" timestamp="2022-09-06T01:41:22">
    <defLight name="INDI_ENABLED" label="Enabled">
Busy
    </defLight>
    <defLight name="INDI_DISABLED" label="Disabled">
Ok
    </defLight>
</defLightVector>
                    "#;
    let mut iter = CommandIter::new(xml.as_bytes(), true, false).unwrap();
    match iter.next_command(EPOCH).unwrap().unwrap() {
        Command::DefParameter(param) => {
            assert_eq!(param.kind, Kind::Light);
            assert_eq!(param.device, "CCD Simulator");
            assert_eq!(param.name, "SIMULATE_BAYER");
            assert_eq!(param.elements.len(), 2);
            assert_eq!(param.elements[0].value, Value::Light(PropertyState::Busy));
            assert_eq!(param.elements[1].value, Value::Light(PropertyState::Okay));
        }
        e => panic!("Unexpected: {:?}", e),
    }
}

#[test]
fn test_set_light_vector() {
    let xml = r#"
<setLightVector device="CCD Simulator" name="SIMULATE_BAYER" state="Idle" timestamp="2022-09-06T01:41:22">
    <oneLight name="INDI_ENABLED">
Busy
    </oneLight>
    <oneLight name="INDI_DISABLED">
Ok
    </oneLight>
</setLightVector>
                    "#;
    let mut iter = CommandIter::new(xml.as_bytes(), true, false).unwrap();
    match iter.next_command(EPOCH).unwrap().unwrap() {
        Command::SetParameter(param) => {
            assert_eq!(param.kind, Kind::Light);
            assert_eq!(param.device, "CCD Simulator");
            assert_eq!(param.name, "SIMULATE_BAYER");
            assert_eq!(param.elements.len(), 2)
        }
        e => panic!("Unexpected: {:?}", e),
    }
}

#[test]
fn test_blob_vector() {
    let xml = r#"
<defBLOBVector device="CCD Simulator" name="SIMULATE_BAYER" label="Bayer" group="Simulator Config" perm="rw"  state="Idle" timestamp="2022-09-06T01:41:22">
    <defBLOB name="INDI_ENABLED" label="Enabled"/>
    <defBLOB name="INDI_DISABLED" label="Disabled"/>
</defBLOBVector>
                    "#;
    let mut iter = CommandIter::new(xml.as_bytes(), true, true).unwrap();
    match iter.next_command(EPOCH).unwrap().unwrap() {
        Command::DefParameter(param) => {
            assert_eq!(param.kind, Kind::Blob);
            assert_eq!(param.device, "CCD Simulator");
            assert_eq!(param.name, "SIMULATE_BAYER");
            assert_eq!(param.elements.len(), 2);
            assert_eq!(param.elements[0].value, Value::Absent);
        }
        e => panic!("Unexpected: {:?}", e),
    }
}

#[test]
fn test_set_blob_vector() {
    let xml = r#"
<setBLOBVector device="CCD Simulator" name="CCD1" state="Ok" timeout="60" timestamp="2022-10-02T00:37:07">
    <oneBLOB name="CCD1" size="23" format=".fits">
U0lNUExFICA9IFQgLyBGSVRTIGhlYWRlcg==
    </oneBLOB>
</setBLOBVector>
"#;
    let mut iter = CommandIter::new(xml.as_bytes(), true, true).unwrap();
    match iter.next_command(EPOCH).unwrap().unwrap() {
        Command::SetParameter(param) => {
            assert_eq!(param.kind, Kind::Blob);
            assert_eq!(param.device, "CCD Simulator");
            assert_eq!(param.name, "CCD1");
            assert_eq!(param.state, Some(PropertyState::Okay));
            assert_eq!(param.elements.len(), 1);
            assert_eq!(param.elements[0].size, Some(23));
            assert_eq!(param.elements[0].format, Some(".fits".to_string()));
            assert_eq!(
                param.elements[0].value,
                Value::Blob(b"U0lNUExFICA9IFQgLyBGSVRTIGhlYWRlcg==".to_vec())
            );
        }
        e => panic!("Unexpected: {:?}", e),
    }
}

#[test]
fn test_message() {
    let xml = r#"
<message device="Telescope Simulator" timestamp="2022-10-02T00:37:07" message="[INFO] update mount and pier side: Pier Side On, mount type 2"/>
                    "#;
    let mut iter = CommandIter::new(xml.as_bytes(), true, true).unwrap();
    match iter.next_command(EPOCH).unwrap().unwrap() {
        Command::Message(param) => {
            assert_eq!(param.device, Some(String::from("Telescope Simulator")));
            assert_eq!(
                param.message,
                Some(String::from(
                    "[INFO] update mount and pier side: Pier Side On, mount type 2"
                ))
            );
            assert_eq!(param.timestamp, Some(instant("2022-10-02T00:37:07Z")));
        }
        e => panic!("Unexpected: {:?}", e),
    }
}

#[test]
fn test_get_properties() {
    let xml = r#"
<getProperties version="1.7" device="Telescope Simulator" name="foothing"/>
                    "#;
    let mut iter = CommandIter::new(xml.as_bytes(), true, true).unwrap();
    match iter.next_command(EPOCH).unwrap().unwrap() {
        Command::GetProperties(param) => {
            assert_eq!(param.device, Some(String::from("Telescope Simulator")));
            assert_eq!(param.name, Some(String::from("foothing")));
            assert_eq!(param.version, String::from("1.7"));
        }
        e => panic!("Unexpected: {:?}", e),
    }
}

#[test]
fn test_set_simulator_log() {
    let xml = format!(
        r#"
<getProperties version="1.7"/>
{}
<defSwitchVector device="CCD Simulator" name="CONNECTION" label="Connection" group="Main Control" state="Idle" perm="rw" rule="OneOfMany" timeout="60" timestamp="2022-10-02T00:36:02">
    <defSwitch name="CONNECT" label="Connect">
Off
    </defSwitch>
    <defSwitch name="DISCONNECT" label="Disconnect">
On
    </defSwitch>
</defSwitchVector>
<setSwitchVector device="CCD Simulator" name="CONNECTION" state="Ok" timeout="60" timestamp="2022-10-02T00:36:03">
    <oneSwitch name="CONNECT">
On
    </oneSwitch>
    <oneSwitch name="DISCONNECT">
Off
    </oneSwitch>
</setSwitchVector>
<message device="CCD Simulator" timestamp="2022-10-02T00:36:03" message="[INFO] CCD Simulator is online."/>
<setNumberVector device="CCD Simulator" name="CCD_EXPOSURE" state="Busy" timeout="60" timestamp="2022-10-02T00:36:04">
    <oneNumber name="CCD_EXPOSURE_VALUE">
0.5
    </oneNumber>
</setNumberVector>
<delProperty device="CCD Simulator" name="CCD_EXPOSURE"/>
"#,
        DEF_NUMBER_VECTOR
    );
    let mut iter = CommandIter::new(xml.as_bytes(), true, true).unwrap();
    let mut count = 0;
    loop {
        match iter.next_command(EPOCH) {
            Ok(Some(_)) => count += 1,
            Ok(None) => break,
            Err(e) => {
                println!("position: {}", iter.buffer_position());
                panic!("{:?}", e);
            }
        }
    }
    assert_eq!(count, 7);
    assert_eq!(iter.buffer_position(), xml.len());
}

#[test]
fn the_vector_parser_keeps_count_and_order() {
    let mut iter = CommandIter::new(DEF_NUMBER_VECTOR.as_bytes(), true, false).unwrap();
    let v = Parameter::parse(&mut iter, Verb::Define, Kind::Number, EPOCH).unwrap();
    assert_eq!(v.device, "CCD Simulator");
    assert_eq!(v.name, "SIMULATOR_SETTINGS");
    let names: Vec<&str> = v.elements.iter().map(|e| e.name.as_str()).collect();
    assert_eq!(names, vec!["SIM_XRES", "SIM_YRES", "SIM_XSIZE"]);
    let values: Vec<f64> = v.elements.iter().map(number).collect();
    assert_eq!(values, vec![1280.0, 1024.0, 5.2]);
    assert!(matches!(iter.next_command(EPOCH), Ok(None)));

    let xml = b"<defNumberVector device=\"D\" name=\"N\" state=\"Ok\" perm=\"rw\"><defNumber name=\"a\" format=\"%f\" min=\"0\" max=\"9\" step=\"1\">1</defNumber><defNumber name=\"b\" format=\"%f\" min=\"0\" max=\"9\" step=\"1\">2</defNumber><defNumber name=\"a\" format=\"%g\" min=\"0\" max=\"9\" step=\"1\">3</defNumber></defNumberVector>";
    let mut iter = CommandIter::new(xml, true, false).unwrap();
    let v = Parameter::parse(&mut iter, Verb::Define, Kind::Number, EPOCH).unwrap();
    let held: Vec<(&str, f64)> = v.elements.iter().map(|e| (e.name.as_str(), number(e))).collect();
    assert_eq!(held, vec![("a", 1.0), ("b", 2.0), ("a", 3.0)]);
}

#[test]
fn the_vector_parser_takes_its_own_tag_only() {
    let mut iter = CommandIter::new(DEF_NUMBER_VECTOR.as_bytes(), true, false).unwrap();
    match Parameter::parse(&mut iter, Verb::Update, Kind::Number, EPOCH) {
        Err(DeError::UnexpectedTag(name)) => assert_eq!(name, "defNumberVector"),
        other => panic!("Unexpected: {:?}", other),
    }
    let mut iter = CommandIter::new(DEF_NUMBER_VECTOR.as_bytes(), true, false).unwrap();
    match Parameter::parse(&mut iter, Verb::Define, Kind::Text, EPOCH) {
        Err(DeError::UnexpectedTag(name)) => assert_eq!(name, "defNumberVector"),
        other => panic!("Unexpected: {:?}", other),
    }
    let mut iter = CommandIter::new(b"", true, false).unwrap();
    assert!(Parameter::parse(&mut iter, Verb::Define, Kind::Text, EPOCH).is_err());
}
