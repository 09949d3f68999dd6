//! The status report that a scanner serves as XML.

use vstd::prelude::*;

use crate::error::{AppError, AppResult, ErrorModel};
use crate::percent;
use crate::status;
use crate::status::{ScannerStatus, StatusModel};
use crate::text;
use crate::xml;
use crate::xml::{AttributeModel, EventModel, XmlAttribute, XmlEvent};

verus! {

/// The name of a tag or an attribute without its namespace.
pub open spec fn local(full: Seq<char>) -> Seq<char> {
    match text::after_last(full, '}') {
        Some(n) => n,
        None => match text::after_last(full, ':') {
            Some(n) => n,
            None => full,
        },
    }
}

/// The name of a tag or an attribute without its namespace.
pub fn local_name(raw: &[u8]) -> (r: String)
    ensures
        r@ == local(text::lossy(raw@)),
{
    let full = text::text_lossy(raw);
    match text::tail_after(full.as_str(), '}') {
        Some(n) => n,
        None => match text::tail_after(full.as_str(), ':') {
            Some(n) => n,
            None => full,
        },
    }
}

/// A report as far as it is read: what it says, and the tag in which the reading stands.
#[verifier::ext_equal]
pub struct Reading {
    pub status: StatusModel,
    pub current: Seq<char>,
}

/// The battery charge that a text gives.
pub open spec fn charge(t: Seq<char>) -> Option<u8> {
    match percent::percent(t) {
        Some(p) => Some(p as u8),
        None => None,
    }
}

/// An attribute that speaks of the battery, by its own name or by that of its tag.
pub open spec fn of_battery(a: AttributeModel, tag: Seq<char>) -> bool {
    status::says(local(text::lossy(a.key)), "battery"@) || status::says(tag, "battery"@)
}

/// The charge after the attributes of a tag: what the last one that speaks of the battery and can
/// be read says.
pub open spec fn attribute_charge(
    attributes: Seq<Option<AttributeModel>>,
    tag: Seq<char>,
    before: Option<u8>,
) -> Option<u8>
    decreases attributes.len(),
{
    if attributes.len() == 0 {
        before
    } else {
        let rest = attribute_charge(attributes.drop_last(), tag, before);
        match attributes.last() {
            Some(a) => match a.value {
                Some(v) => if of_battery(a, tag) {
                    charge(v)
                } else {
                    rest
                },
                None => rest,
            },
            None => rest,
        }
    }
}

/// The tags whose text is a battery charge.
pub open spec fn battery_tag(tag: Seq<char>) -> bool {
    tag == "Battery"@ || tag == "BatteryLevel"@ || tag == "BatteryPercent"@ || tag == "Charge"@
}

/// The report after the text of a tag.
pub open spec fn with_text(s: StatusModel, tag: Seq<char>, t: Seq<char>) -> StatusModel {
    if tag == "State"@ {
        StatusModel { state: t, ..s }
    } else if tag == "AdfState"@ {
        StatusModel { adf_state: t, ..s }
    } else if tag == "StateReason"@ {
        StatusModel { reasons: s.reasons.push(t), ..s }
    } else if battery_tag(tag) || (s.battery_percent is None && status::says(tag, "battery"@)) {
        StatusModel { battery_percent: charge(t), ..s }
    } else {
        s
    }
}

/// The reading after one more event, or what is wrong.
pub open spec fn read_on(r: Reading, e: EventModel) -> Result<Reading, Seq<char>> {
    match e {
        EventModel::Tag(name, attributes) => {
            let tag = local(text::lossy(name));
            Ok(
                Reading {
                    status: if r.status.battery_percent is None {
                        StatusModel {
                            battery_percent: attribute_charge(attributes, tag, None),
                            ..r.status
                        }
                    } else {
                        r.status
                    },
                    current: tag,
                },
            )
        },
        EventModel::Text(Ok(t)) => Ok(Reading { status: with_text(r.status, r.current, t), ..r }),
        EventModel::Text(Err(e)) => Err(e),
        EventModel::Failed(e) => Err(e),
        EventModel::End => Ok(Reading { current: Seq::empty(), ..r }),
        EventModel::Other => Ok(r),
        EventModel::Eof => Ok(r),
    }
}

/// The reading after a sequence of events, or what is wrong first.
pub open spec fn reading(events: Seq<EventModel>) -> Result<Reading, Seq<char>>
    decreases events.len(),
{
    if events.len() == 0 {
        Ok(Reading { status: status::no_report(), current: Seq::empty() })
    } else {
        match reading(events.drop_last()) {
            Ok(r) => read_on(r, events.last()),
            Err(e) => Err(e),
        }
    }
}

/// A report that says nothing of the scanner, its feeder or its battery.
pub open spec fn is_blank(s: StatusModel) -> bool {
    s.state.len() == 0 && s.adf_state.len() == 0 && s.battery_percent is None
}

/// The report that a sequence of events makes.
pub open spec fn report(events: Seq<EventModel>) -> Result<StatusModel, ErrorModel> {
    match reading(events) {
        Ok(r) => if is_blank(r.status) {
            Err(ErrorModel::Xml("ScannerStatus missing expected elements"@))
        } else {
            Ok(r.status)
        },
        Err(e) => Err(ErrorModel::Xml(e)),
    }
}

/// The view of a report or a failure.
pub open spec fn report_of(r: AppResult<ScannerStatus>) -> Result<StatusModel, ErrorModel> {
    match r {
        Ok(s) => Ok(s@),
        Err(e) => Err(e@),
    }
}

fn speaks_of_battery(name: &str) -> (r: bool)
    ensures
        r == status::says(name@, "battery"@),
{
    text::contains(text::to_lower(name).as_str(), "battery")
}

fn read_charge(t: &str) -> (r: Option<u8>)
    ensures
        r == charge(t@),
{
    percent::parse_percent(t)
}

fn read_attributes(attributes: &Vec<Option<XmlAttribute>>, tag: &str) -> (r: Option<u8>)
    ensures
        r == attribute_charge(xml::attributes_of(attributes@), tag@, None),
{
    let ghost all = xml::attributes_of(attributes@);
    let mut found: Option<u8> = None;
    let mut i: usize = 0;
    while i < attributes.len()
        invariant
            i <= attributes@.len(),
            all == xml::attributes_of(attributes@),
            found == attribute_charge(all.take(i as int), tag@, None),
        decreases attributes@.len() - i,
    {
        assert(all.take(i + 1).drop_last() =~= all.take(i as int));
        assert(all.take(i + 1).last() == xml::attribute_of(attributes@[i as int]));
        if let Some(a) = &attributes[i] {
            let key = local_name(a.key.as_slice());
            if speaks_of_battery(key.as_str()) || speaks_of_battery(tag) {
                if let Some(v) = &a.value {
                    found = read_charge(v.as_str());
                }
            }
        }
        i += 1;
    }
    assert(all.take(i as int) =~= all);
    found
}

fn take_text(status: &mut ScannerStatus, tag: &str, t: String)
    ensures
        final(status)@ == with_text(old(status)@, tag@, t@),
{
    if text::same(tag, "State") {
        status.state = t;
    } else if text::same(tag, "AdfState") {
        status.adf_state = t;
    } else if text::same(tag, "StateReason") {
        proof {
            text::lemma_texts_push(status.reasons@, t);
        }
        status.reasons.push(t);
    } else if text::same(tag, "Battery") || text::same(tag, "BatteryLevel") || text::same(
        tag,
        "BatteryPercent",
    ) || text::same(tag, "Charge") || (status.battery_percent.is_none() && speaks_of_battery(
        tag,
    )) {
        status.battery_percent = read_charge(t.as_str());
    }
}

/// The report that a sequence of events makes.
pub fn status_from_events(events: &Vec<XmlEvent>) -> (r: AppResult<ScannerStatus>)
    ensures
        report_of(r) == report(xml::events_of(events@)),
{
    let ghost all = xml::events_of(events@);
    let mut status = ScannerStatus::default();
    let mut current = String::new();
    let mut i: usize = 0;
    while i < events.len()
        invariant
            i <= events@.len(),
            all == xml::events_of(events@),
            reading(all.take(i as int)) == Ok::<Reading, Seq<char>>(
                Reading { status: status@, current: current@ },
            ),
        decreases events@.len() - i,
    {
        assert(all.take(i + 1).drop_last() =~= all.take(i as int));
        assert(all.take(i + 1).last() == events@[i as int]@);
        match &events[i] {
            XmlEvent::Tag(name, attributes) => {
                current = local_name(name.as_slice());
                if status.battery_percent.is_none() {
                    status.battery_percent = read_attributes(attributes, current.as_str());
                }
            },
            XmlEvent::Text(Ok(t)) => {
                take_text(&mut status, current.as_str(), t.clone());
            },
            XmlEvent::Text(Err(e)) => {
                proof {
                    lemma_error_stays(all, i + 1);
                }
                return Err(AppError::Xml(e.clone()));
            },
            XmlEvent::Failed(e) => {
                proof {
                    lemma_error_stays(all, i + 1);
                }
                return Err(AppError::Xml(e.clone()));
            },
            XmlEvent::End => {
                current = String::new();
            },
            XmlEvent::Other => {},
            XmlEvent::Eof => {},
        }
        i += 1;
    }
    assert(all.take(i as int) =~= all);
    if status.state.as_str().is_empty() && status.adf_state.as_str().is_empty()
        && status.battery_percent.is_none() {
        return Err(AppError::Xml("ScannerStatus missing expected elements".to_owned()));
    }
    Ok(status)
}

proof fn lemma_error_stays(events: Seq<EventModel>, n: int)
    requires
        0 <= n <= events.len(),
        reading(events.take(n)) is Err,
    ensures
        reading(events) == reading(events.take(n)),
    decreases events.len() - n,
{
    if n == events.len() {
        assert(events.take(n) =~= events);
    } else {
        assert(events.take(n + 1).drop_last() =~= events.take(n));
        lemma_error_stays(events, n + 1);
    }
}

/// The report that an XML document makes.
pub fn parse_scanner_status(xml: &str) -> (r: AppResult<ScannerStatus>)
    ensures
        report_of(r) == report(xml::document_events(xml@)),
{
    let events = xml::read_document(xml);
    status_from_events(&events)
}

/// The battery charge that a report gives.
pub open spec fn charge_of(r: Result<StatusModel, ErrorModel>) -> Option<u8> {
    match r {
        Ok(s) => s.battery_percent,
        Err(_) => None,
    }
}

/// The battery charge that an XML document reports.
pub fn parse_battery_percent(xml: &str) -> (r: Option<u8>)
    ensures
        r == charge_of(report(xml::document_events(xml@))),
{
    match parse_scanner_status(xml) {
        Ok(s) => s.battery_percent,
        Err(_) => None,
    }
}

/// A report never gives a charge above 100.
pub proof fn charges_are_percentages(events: Seq<EventModel>)
    ensures
        charge_of(report(events)) matches Some(p) ==> p <= 100,
{
    lemma_reading_charge(events);
}

proof fn lemma_charge_bound(t: Seq<char>)
    ensures
        charge(t) matches Some(p) ==> p <= 100,
{
    percent::percent_is_within_range(t);
}

proof fn lemma_attribute_charge_bound(
    attributes: Seq<Option<AttributeModel>>,
    tag: Seq<char>,
    before: Option<u8>,
)
    requires
        before matches Some(p) ==> p <= 100,
    ensures
        attribute_charge(attributes, tag, before) matches Some(p) ==> p <= 100,
    decreases attributes.len(),
{
    if attributes.len() > 0 {
        lemma_attribute_charge_bound(attributes.drop_last(), tag, before);
        if let Some(a) = attributes.last() {
            if let Some(v) = a.value {
                lemma_charge_bound(v);
            }
        }
    }
}

proof fn lemma_reading_charge(events: Seq<EventModel>)
    ensures
        reading(events) matches Ok(r) ==> (r.status.battery_percent matches Some(p) ==> p <= 100),
    decreases events.len(),
{
    if events.len() > 0 {
        lemma_reading_charge(events.drop_last());
        match events.last() {
            EventModel::Tag(name, attributes) => {
                lemma_attribute_charge_bound(attributes, local(text::lossy(name)), None);
            },
            EventModel::Text(Ok(t)) => {
                lemma_charge_bound(t);
            },
            _ => {},
        }
    }
}

/// A document that is wrong somewhere makes no report, whatever stands before and after.
pub proof fn a_wrong_document_makes_no_report(events: Seq<EventModel>, i: int)
    requires
        0 <= i < events.len(),
        events[i] is Failed || events[i] matches EventModel::Text(Err(_)),
    ensures
        report(events) is Err,
{
    assert(events.take(i + 1).last() == events[i]);
    assert(reading(events.take(i + 1)) is Err);
    lemma_error_stays(events, i + 1);
}

/// The text of a tag is kept under the name of that tag, without its namespace: as the state of
/// the scanner, as that of the feeder, or as one more reason after those before. Nothing else that
/// was read changes with it.
pub proof fn a_text_is_kept_for_its_tag(
    events: Seq<EventModel>,
    name: Seq<u8>,
    attributes: Seq<Option<AttributeModel>>,
    t: Seq<char>,
)
    requires
        reading(events) is Ok,
    ensures
        ({
            let before = reading(events)->Ok_0.status;
            let next = reading(
                events.push(EventModel::Tag(name, attributes)).push(EventModel::Text(Ok(t))),
            );
            let tag = local(text::lossy(name));
            &&& next is Ok
            &&& tag == "State"@ ==> next->Ok_0.status.state == t
            &&& tag != "State"@ ==> next->Ok_0.status.state == before.state
            &&& tag == "AdfState"@ ==> next->Ok_0.status.adf_state == t
            &&& tag != "AdfState"@ ==> next->Ok_0.status.adf_state == before.adf_state
            &&& tag == "StateReason"@ ==> next->Ok_0.status.reasons == before.reasons.push(t)
            &&& tag != "StateReason"@ ==> next->Ok_0.status.reasons == before.reasons
            &&& tag == "Battery"@ || tag == "BatteryLevel"@ || tag == "BatteryPercent"@ || tag
                == "Charge"@ ==> next->Ok_0.status.battery_percent == charge(t)
        }),
{
    let one = events.push(EventModel::Tag(name, attributes));
    let two = one.push(EventModel::Text(Ok(t)));
    assert(one.drop_last() =~= events);
    assert(two.drop_last() =~= one);
    assert(reading(one) == read_on(reading(events)->Ok_0, one.last()));
    assert(reading(two) == read_on(reading(one)->Ok_0, two.last()));
    reveal_strlit("State");
    reveal_strlit("AdfState");
    reveal_strlit("StateReason");
    reveal_strlit("Battery");
    reveal_strlit("BatteryLevel");
    reveal_strlit("BatteryPercent");
    reveal_strlit("Charge");
    assert("State"@.len() == 5 && "AdfState"@.len() == 8 && "StateReason"@.len() == 11);
    assert("Battery"@.len() == 7 && "BatteryLevel"@.len() == 12 && "BatteryPercent"@.len() == 14
        && "Charge"@.len() == 6);
}

/// Closing tags, comments and the like change nothing of what was read, and after a closing tag no
/// text is taken for a state or a reason.
pub proof fn other_events_change_nothing(events: Seq<EventModel>, t: Seq<char>)
    requires
        reading(events) is Ok,
    ensures
        reading(events.push(EventModel::Other)) == reading(events),
        reading(events.push(EventModel::Eof)) == reading(events),
        reading(events.push(EventModel::End)) is Ok,
        reading(events.push(EventModel::End))->Ok_0.status == reading(events)->Ok_0.status,
        ({
            let after = reading(events.push(EventModel::End).push(EventModel::Text(Ok(t))));
            let before = reading(events)->Ok_0.status;
            &&& after is Ok
            &&& after->Ok_0.status.state == before.state
            &&& after->Ok_0.status.adf_state == before.adf_state
            &&& after->Ok_0.status.reasons == before.reasons
        }),
{
    assert(events.push(EventModel::Other).drop_last() =~= events);
    assert(events.push(EventModel::Eof).drop_last() =~= events);
    let one = events.push(EventModel::End);
    assert(one.drop_last() =~= events);
    assert(one.push(EventModel::Text(Ok(t))).drop_last() =~= one);
    reveal_strlit("State");
    reveal_strlit("AdfState");
    reveal_strlit("StateReason");
}

/// A report is made of what was read wherever it tells a state, that of the feeder or a charge, and
/// fails with what is wrong where the document is.
pub proof fn a_report_is_what_was_read(events: Seq<EventModel>)
    ensures
        reading(events) matches Ok(r) ==> (r.status.state.len() > 0 || r.status.adf_state.len() > 0
            || r.status.battery_percent is Some) ==> report(events) == Ok::<
            StatusModel,
            ErrorModel,
        >(r.status),
        reading(events) matches Ok(r) ==> (r.status.state.len() == 0 && r.status.adf_state.len()
            == 0 && r.status.battery_percent is None) ==> report(events) is Err,
        reading(events) matches Err(e) ==> report(events) == Err::<StatusModel, ErrorModel>(
            ErrorModel::Xml(e),
        ),
{
}

/// A name is told without its namespace, whichever way that is written.
pub proof fn names_are_told_without_namespace(prefix: Seq<char>, name: Seq<char>)
    requires
        !name.contains(':'),
        !name.contains('}'),
        !prefix.contains('}'),
    ensures
        local(name) == name,
        local(prefix + seq![':'] + name) == name,
        local(prefix + seq!['}'] + name) == name,
{
    text::lemma_last_of_none(name, ':');
    text::lemma_last_of_none(name, '}');
    text::what_comes_last_is_found(prefix, ':', name);
    text::what_comes_last_is_found(prefix, '}', name);
    let a = prefix + seq![':'] + name;
    assert(!a.contains('}')) by {
        if a.contains('}') {
            let i = choose|i: int| 0 <= i < a.len() && a[i] == '}';
            if i < prefix.len() {
                assert(prefix[i] == '}');
            } else if i > prefix.len() {
                assert(name[i - prefix.len() - 1] == '}');
            }
        }
    }
    text::lemma_last_of_none(a, '}');
}

/// A charge in an attribute of a battery counts while none is known.
pub proof fn a_charge_in_an_attribute_counts(
    events: Seq<EventModel>,
    name: Seq<u8>,
    key: Seq<u8>,
    value: Seq<char>,
)
    requires
        reading(events) is Ok,
        status::says(local(text::lossy(key)), "battery"@) || status::says(
            local(text::lossy(name)),
            "battery"@,
        ),
    ensures
        ({
            let a = Some(AttributeModel { key, value: Some(value) });
            let before = reading(events)->Ok_0.status;
            let next = reading(events.push(EventModel::Tag(name, seq![a])));
            &&& next is Ok
            &&& before.battery_percent is None ==> next->Ok_0.status.battery_percent == charge(value)
            &&& before.battery_percent is Some ==> next->Ok_0.status == before
        }),
{
    let a = Some(AttributeModel { key, value: Some(value) });
    let list = seq![a];
    assert(events.push(EventModel::Tag(name, list)).drop_last() =~= events);
    assert(list.last() == a);
    assert(list.drop_last().len() == 0);
    reveal_with_fuel(attribute_charge, 2);
}

} // verus!
