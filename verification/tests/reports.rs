use scanbro::error::AppError;
use scanbro::report::{
    local_name, parse_battery_percent, parse_scanner_status, status_from_events,
};
use scanbro::xml::{read_document, XmlAttribute, XmlEvent};

const REPORT: &str = r#"<?xml version="1.0" encoding="UTF-8"?>
<scan:ScannerStatus xmlns:scan="http://schemas.hp.com/imaging/escl/2011/05/03" xmlns:pwg="http://www.pwg.org/schemas/2010/12/sm">
  <pwg:Version>2.0</pwg:Version>
  <pwg:State>  Idle </pwg:State>
  <scan:AdfState>ScannerAdfLoaded</scan:AdfState>
  <pwg:StateReasons>
    <pwg:StateReason>None &amp; more</pwg:StateReason>
    <pwg:StateReason>CoverOpen</pwg:StateReason>
  </pwg:StateReasons>
  <scan:BatteryLevel>73%</scan:BatteryLevel>
</scan:ScannerStatus>"#;

#[test]
fn a_report_is_read() {
    let s = parse_scanner_status(REPORT).unwrap();
    assert_eq!(s.state, "Idle");
    assert_eq!(s.adf_state, "ScannerAdfLoaded");
    assert_eq!(s.reasons, vec!["None & more", "CoverOpen"]);
    assert_eq!(s.battery_percent, Some(73));
    assert_eq!(parse_battery_percent(REPORT), Some(73));
}

#[test]
fn a_charge_may_stand_in_an_attribute() {
    let s = parse_scanner_status("<x:Info><Power batteryCharge=\"41\" level=\"9\"/></x:Info>");
    assert_eq!(s.unwrap().battery_percent, Some(41));
    let s = parse_scanner_status("<Battery a=\"12\" b=\"34\"/>");
    assert_eq!(s.unwrap().battery_percent, Some(34));
    let s = parse_scanner_status("<Battery a=\"12\" b=\"full\"/><State>Idle</State>");
    assert_eq!(s.unwrap().battery_percent, None);
}

#[test]
fn the_first_charge_of_a_loose_name_counts() {
    let doc = "<r><DeviceBattery>30</DeviceBattery><OtherBattery>60</OtherBattery></r>";
    assert_eq!(parse_battery_percent(doc), Some(30));
    let doc = "<r><DeviceBattery>30</DeviceBattery><Charge>250</Charge></r>";
    assert_eq!(parse_battery_percent(doc), Some(100));
}

#[test]
fn a_report_without_news_is_refused() {
    match parse_scanner_status("<a><b>text</b></a>") {
        Err(e) => assert_eq!(
            e.message(),
            "XML parse error: ScannerStatus missing expected elements"
        ),
        Ok(s) => panic!("{s:?}"),
    }
    assert_eq!(parse_battery_percent("<a/>"), None);
    assert!(parse_scanner_status("").is_err());
}

#[test]
fn a_broken_document_is_refused() {
    for doc in ["<State>Idle</Wrong>", "<State>&nope;</State>", "<State>Idle</State><"] {
        match parse_scanner_status(doc) {
            Err(AppError::Xml(e)) => assert!(!e.is_empty()),
            other => panic!("{doc}: {other:?}"),
        }
    }
}

#[test]
fn names_lose_their_namespace() {
    assert_eq!(local_name(b"State"), "State");
    assert_eq!(local_name(b"pwg:State"), "State");
    assert_eq!(local_name(b"a:b:c"), "c");
    assert_eq!(local_name(b"{http://x:y}State"), "State");
    assert_eq!(local_name(b"bad\xFF:n\xFF"), "n\u{FFFD}");
}

#[test]
fn documents_become_events() {
    let events = read_document("<a k=\"v&amp;w\"> hi &lt; </a><!-- c --><b/>");
    assert_eq!(events.len(), 5);
    match &events[0] {
        XmlEvent::Tag(name, attributes) => {
            assert_eq!(name, b"a");
            assert_eq!(attributes.len(), 1);
            let a: &XmlAttribute = attributes[0].as_ref().unwrap();
            assert_eq!(a.key, b"k");
            assert_eq!(a.value.as_deref(), Some("v&w"));
        }
        other => panic!("{other:?}"),
    }
    match &events[1] {
        XmlEvent::Text(Ok(t)) => assert_eq!(t, "hi <"),
        other => panic!("{other:?}"),
    }
    assert!(matches!(events[2], XmlEvent::End));
    assert!(matches!(events[3], XmlEvent::Other));
    assert!(matches!(events[4], XmlEvent::Tag(..)));
}

#[test]
fn events_make_a_report() {
    let tag = |n: &str| XmlEvent::Tag(n.as_bytes().to_vec(), Vec::new());
    let text = |t: &str| XmlEvent::Text(Ok(t.to_string()));
    let s = status_from_events(&vec![
        tag("pwg:State"),
        text("Processing"),
        XmlEvent::End,
        text("stray"),
        tag("scan:AdfState"),
        text("ScannerAdfEmpty"),
        XmlEvent::End,
        tag("Battery"),
        text("full"),
        XmlEvent::End,
    ])
    .unwrap();
    assert_eq!(s.state, "Processing");
    assert_eq!(s.adf_state, "ScannerAdfEmpty");
    assert_eq!(s.battery_percent, None);
    let failed = status_from_events(&vec![
        tag("State"),
        text("Idle"),
        XmlEvent::Failed("broken".to_string()),
        text("more"),
    ]);
    assert_eq!(failed.unwrap_err().message(), "XML parse error: broken");
    let unknown = status_from_events(&vec![tag("State"), XmlEvent::Text(Err("entity".to_string()))]);
    assert_eq!(unknown.unwrap_err().message(), "XML parse error: entity");
}
