//! Scanners on USB: those that answer as network scanners on this machine, and those that SANE
//! drives.

use std::sync::Arc;

use vstd::prelude::*;

use crate::discovery::DEFAULT_NAME;
use crate::error::{AppError, AppResult, ErrorModel};
use crate::job;
use crate::laws;
use crate::number;
use crate::scan;
use crate::scanner;
use crate::scanner::{AddrModel, HostAddr, ScannerInfo, ScannerModel, Transport, TransportPref};
use crate::state;
use crate::state::{AppState, ScanProgress, StateModel};
use crate::text;
use crate::text::Strip;

verus! {

/// A device on the USB bus: the vendor number and the product name that it tells.
#[derive(Debug)]
pub struct UsbDevice {
    pub vendor: String,
    pub product: String,
}

/// What a `UsbDevice` says.
#[verifier::ext_equal]
pub struct DeviceModel {
    pub vendor: Seq<char>,
    pub product: Seq<char>,
}

impl View for UsbDevice {
    type V = DeviceModel;

    open spec fn view(&self) -> DeviceModel {
        DeviceModel { vendor: self.vendor@, product: self.product@ }
    }
}

/// The views of a list of devices.
pub open spec fn devices_of(v: Seq<UsbDevice>) -> Seq<DeviceModel> {
    v.map_values(|d: UsbDevice| d@)
}

/// A device of Brother.
pub open spec fn is_brother(d: DeviceModel) -> bool {
    text::trimmed(d.vendor) == "04f9"@
}

/// The name of a device of Brother.
pub open spec fn device_name(d: DeviceModel) -> Seq<char> {
    if text::trimmed(d.product).len() == 0 {
        DEFAULT_NAME@
    } else {
        text::trimmed(d.product)
    }
}

/// The name of the first device of Brother on the bus.
pub open spec fn plugged_name(list: Seq<DeviceModel>) -> Option<Seq<char>>
    decreases list.len(),
{
    if list.len() == 0 {
        None
    } else if is_brother(list[0]) {
        Some(device_name(list[0]))
    } else {
        plugged_name(list.skip(1))
    }
}

/// The name of the first device of Brother on the bus.
pub fn brother_usb(devices: &Vec<UsbDevice>) -> (r: Option<String>)
    ensures
        text::text_of(r) == plugged_name(devices_of(devices@)),
{
    let ghost all = devices_of(devices@);
    let mut i: usize = 0;
    assert(all.skip(0) =~= all);
    while i < devices.len()
        invariant
            i <= devices@.len(),
            all == devices_of(devices@),
            plugged_name(all) == plugged_name(all.skip(i as int)),
        decreases devices@.len() - i,
    {
        let d = &devices[i];
        assert(all.skip(i as int)[0] == d@);
        assert(all.skip(i as int).skip(1) =~= all.skip(i + 1));
        if text::same(text::trim(d.vendor.as_str()).as_str(), "04f9") {
            let name = text::trim(d.product.as_str());
            return Some(
                if name.as_str().is_empty() {
                    DEFAULT_NAME.to_owned()
                } else {
                    name
                },
            );
        }
        i += 1;
    }
    None
}

/// A device of Brother is on the bus.
pub fn brother_usb_present(devices: &Vec<UsbDevice>) -> (r: bool)
    ensures
        r == (plugged_name(devices_of(devices@)) is Some),
{
    brother_usb(devices).is_some()
}

/// The ports on which a USB scanner answers as a network scanner.
pub open spec fn ipp_ports() -> Seq<u16> {
    seq![60000u16, 60001u16, 60002u16, 60003u16, 631u16]
}

/// A USB scanner that answers on a port of this machine.
pub open spec fn ipp_scanner(port: u16, plugged: Option<Seq<char>>) -> ScannerModel {
    ScannerModel {
        name: match plugged {
            Some(n) => n,
            None => "Brother"@,
        },
        hostname: "usb"@,
        ip: AddrModel::V4(127, 0, 0, 1),
        port,
        escl_root: "eSCL"@,
        service_type: "usb"@,
        via: Transport::Usb,
        sane_device: None,
    }
}

fn ipp_scanner_on(port: u16, plugged: &Option<String>) -> (r: ScannerInfo)
    ensures
        r@ == ipp_scanner(port, text::text_of(*plugged)),
{
    ScannerInfo {
        name: match plugged {
            Some(n) => n.clone(),
            None => "Brother".to_owned(),
        },
        hostname: "usb".to_owned(),
        ip: HostAddr::V4(127, 0, 0, 1),
        port,
        escl_root: "eSCL".to_owned(),
        service_type: "usb".to_owned(),
        via: Transport::Usb,
        sane_device: None,
    }
}

/// The USB scanners that may answer on this machine, to be asked at `escl::status_url`; the first
/// that answers is the one.
pub fn ipp_candidates(plugged: &Option<String>) -> (r: Vec<ScannerInfo>)
    ensures
        state::scanners_of(r@) == ipp_ports().map_values(
            |p: u16| ipp_scanner(p, text::text_of(*plugged)),
        ),
{
    let r = vec![
        ipp_scanner_on(60000, plugged),
        ipp_scanner_on(60001, plugged),
        ipp_scanner_on(60002, plugged),
        ipp_scanner_on(60003, plugged),
        ipp_scanner_on(631, plugged),
    ];
    assert(state::scanners_of(r@) =~= ipp_ports().map_values(
        |p: u16| ipp_scanner(p, text::text_of(*plugged)),
    ));
    r
}

/// A SANE device that is driven over USB by a Brother driver, not one that reaches over the
/// network.
pub open spec fn on_usb(device: Seq<char>) -> bool {
    let d = text::lower(text::trimmed(device));
    &&& !text::begins(d, "escl:"@)
    &&& !text::begins(d, "airscan:"@)
    &&& !text::begins(d, "v4l:"@)
    &&& !text::has(d, "://"@)
    &&& !text::has(d, "https:"@)
    &&& !text::has(d, "http:"@)
    &&& text::begins(d, "brother"@)
}

/// A SANE device that is driven over USB by a Brother driver.
pub fn is_usb_sane_device(device: &str) -> (r: bool)
    ensures
        r == on_usb(device@),
{
    let d = text::to_lower(text::trim(device).as_str());
    if text::starts_with(d.as_str(), "escl:") || text::starts_with(d.as_str(), "airscan:")
        || text::starts_with(d.as_str(), "v4l:") || text::contains(d.as_str(), "://")
        || text::contains(d.as_str(), "https:") || text::contains(d.as_str(), "http:") {
        return false;
    }
    text::starts_with(d.as_str(), "brother")
}

/// The name of a SANE device by its description.
pub open spec fn described(desc: Seq<char>, plugged: Seq<char>) -> Seq<char> {
    let t = text::trimmed(desc);
    if t.len() == 0 || text::has(text::lower(t), "uscan"@) {
        if plugged.len() == 0 {
            DEFAULT_NAME@
        } else {
            plugged
        }
    } else {
        t
    }
}

/// The scanner that SANE drives as `device`.
pub open spec fn sane_scanner(device: Seq<char>, name: Seq<char>) -> ScannerModel {
    ScannerModel {
        name,
        hostname: "usb"@,
        ip: AddrModel::V4(127, 0, 0, 1),
        port: 0,
        escl_root: Seq::empty(),
        service_type: "sane"@,
        via: Transport::Usb,
        sane_device: Some(device),
    }
}

/// The scanner of one line of a device list, where it is a Brother scanner on USB.
pub open spec fn listed(line: Seq<char>, plugged: Seq<char>) -> Option<ScannerModel> {
    match text::without_prefix(line, "device `"@) {
        Some(rest) => match text::cut(rest, "' is a "@) {
            Some((dev, desc)) => {
                let device = text::trimmed(dev);
                if on_usb(device) && (text::has(text::lower(device), "brother"@) || text::has(
                    text::lower(desc),
                    "brother"@,
                )) {
                    Some(sane_scanner(device, described(desc, plugged)))
                } else {
                    None
                }
            },
            None => None,
        },
        None => None,
    }
}

/// The first scanner of the lines of a device list.
pub open spec fn first_listed(lines: Seq<Seq<char>>, plugged: Seq<char>) -> Option<ScannerModel>
    decreases lines.len(),
{
    if lines.len() == 0 {
        None
    } else {
        match listed(lines[0], plugged) {
            Some(s) => Some(s),
            None => first_listed(lines.skip(1), plugged),
        }
    }
}

fn listed_scanner(line: &str, plugged: &str) -> (r: Option<ScannerInfo>)
    ensures
        scanner::scanner_of(r) == listed(line@, plugged@),
{
    let rest = match text::strip_prefix(line, "device `") {
        Some(rest) => rest,
        None => {
            return None;
        },
    };
    let (dev, desc) = match text::split_once(rest.as_str(), "' is a ") {
        Some(pair) => pair,
        None => {
            return None;
        },
    };
    let device = text::trim(dev.as_str());
    if !is_usb_sane_device(device.as_str()) {
        return None;
    }
    if !(text::contains(text::to_lower(device.as_str()).as_str(), "brother") || text::contains(
        text::to_lower(desc.as_str()).as_str(),
        "brother",
    )) {
        return None;
    }
    let trimmed = text::trim(desc.as_str());
    let name = if trimmed.as_str().is_empty() || text::contains(
        text::to_lower(trimmed.as_str()).as_str(),
        "uscan",
    ) {
        if plugged.is_empty() {
            DEFAULT_NAME.to_owned()
        } else {
            plugged.to_owned()
        }
    } else {
        trimmed
    };
    let s = ScannerInfo {
        name,
        hostname: "usb".to_owned(),
        ip: HostAddr::V4(127, 0, 0, 1),
        port: 0,
        escl_root: String::new(),
        service_type: "sane".to_owned(),
        via: Transport::Usb,
        sane_device: Some(device),
    };
    assert(s@ =~= sane_scanner(device@, described(desc@, plugged@)));
    Some(s)
}

/// The first Brother scanner on USB in the text of a device list.
pub fn sane_in_list(list: &str, plugged: &str) -> (r: Option<ScannerInfo>)
    ensures
        scanner::scanner_of(r) == first_listed(text::lines(list@), plugged@),
{
    let lines = text::lines_of(list);
    let ghost all = text::texts_of(lines@);
    let mut i: usize = 0;
    assert(all.skip(0) =~= all);
    while i < lines.len()
        invariant
            i <= lines@.len(),
            all == text::texts_of(lines@),
            all == text::lines(list@),
            first_listed(all, plugged@) == first_listed(all.skip(i as int), plugged@),
        decreases lines@.len() - i,
    {
        assert(all.skip(i as int)[0] == lines@[i as int]@);
        assert(all.skip(i as int).skip(1) =~= all.skip(i + 1));
        if let Some(s) = listed_scanner(lines[i].as_str(), plugged) {
            return Some(s);
        }
        i += 1;
    }
    None
}

/// The first Brother scanner on USB in the output of `scanimage -L`; none where no device of
/// Brother is plugged in.
pub fn list_brother_sane(output: &[u8], plugged: &Option<String>) -> (r: Option<ScannerInfo>)
    ensures
        scanner::scanner_of(r) == (match text::text_of(*plugged) {
            Some(name) => first_listed(text::lines(text::lossy(output@)), name),
            None => None,
        }),
{
    match plugged {
        Some(name) => {
            let list = text::text_lossy(output);
            sane_in_list(list.as_str(), name.as_str())
        },
        None => None,
    }
}

/// A scanner out of a device list is always one that SANE drives over USB.
pub proof fn listed_scanners_are_on_usb(lines: Seq<Seq<char>>, plugged: Seq<char>)
    ensures
        first_listed(lines, plugged) matches Some(s) ==> s.via == Transport::Usb
            && s.sane_device is Some && on_usb(s.sane_device->0) && s.name.len() > 0,
    decreases lines.len(),
{
    reveal_strlit("Brother DS-940DW");
    if lines.len() > 0 {
        listed_scanners_are_on_usb(lines.skip(1), plugged);
    }
}

/// A scanner out of a device list is scanned with SANE, and its choice outlasts a restart.
pub proof fn listed_scanners_are_scanned_with_sane(lines: Seq<Seq<char>>, plugged: Seq<char>)
    ensures
        first_listed(lines, plugged) matches Some(s) ==> scan::sane_route(s) == s.sane_device
            && state::remembered(Some(scanner::key(s))) == Some(scanner::key(s)),
    decreases lines.len(),
{
    if lines.len() > 0 {
        listed_scanners_are_scanned_with_sane(lines.skip(1), plugged);
        if let Some(rest) = text::without_prefix(lines[0], "device `"@) {
            if let Some((dev, desc)) = text::cut(rest, "' is a "@) {
                text::stripping_settles(dev, Strip::White);
                reveal_strlit("brother");
                if let Some(s) = listed(lines[0], plugged) {
                    laws::a_chosen_scanner_is_remembered(s);
                }
            }
        }
    }
}

/// A scanner found on USB counts: such scanners are wanted, and one that SANE lists counts only
/// while a device is plugged in.
pub open spec fn counts_on_usb(m: StateModel, s: ScannerModel, plugged: bool) -> bool {
    scanner::wanted(m.transport_pref, Transport::Usb) && (s.sane_device is None || plugged)
}

/// The state after a scanner was found on USB.
pub open spec fn registered(m: StateModel, s: ScannerModel, plugged: bool) -> StateModel {
    if counts_on_usb(m, s, plugged) {
        state::offered(m, s)
    } else {
        m
    }
}

/// A scanner was found on USB.
pub fn register(state: &mut AppState, scanner: ScannerInfo, plugged: bool)
    ensures
        final(state)@ == registered(old(state)@, scanner@, plugged),
        !(counts_on_usb(old(state)@, scanner@, plugged) && state::takes(old(state)@, scanner@))
            ==> final(state).last_seen == old(state).last_seen,
{
    if !state.transport_pref.allows_usb() {
        return ;
    }
    if scanner.sane_device.is_some() && !plugged {
        return ;
    }
    state.offer_scanner(scanner);
}

/// A USB scanner is in use.
pub open spec fn holds_usb(m: StateModel) -> bool {
    m.scanner is Some && m.scanner->0.via == Transport::Usb
}

/// A USB scanner is known.
pub open spec fn knows_usb(list: Seq<ScannerModel>) -> bool {
    exists|i: int| 0 <= i < list.len() && (#[trigger] list[i]).via == Transport::Usb
}

/// A USB scanner is in use or known, and no device is plugged in any longer.
pub open spec fn unplugged(m: StateModel, plugged: bool) -> bool {
    !plugged && (holds_usb(m) || knows_usb(m.discovered))
}

/// The state after no scanner was found on USB, where the user wanted `pref` when the search
/// began.
pub open spec fn not_found(m: StateModel, pref: TransportPref, plugged: bool) -> StateModel {
    if unplugged(m, plugged) {
        state::without_via(m, Transport::Usb, "USB scanner unplugged. Looking again…"@)
    } else if pref == TransportPref::Usb && !holds_usb(m) {
        StateModel {
            status_line: if plugged {
                "USB scanner plugged in. Getting it ready…"@
            } else {
                "No USB scanner plugged in. Power it on and use a data cable."@
            },
            ..m
        }
    } else {
        m
    }
}

/// A USB scanner is in use.
pub fn holding_usb(state: &AppState) -> (r: bool)
    ensures
        r == holds_usb(state@),
{
    match &state.scanner {
        Some(s) => s.via == Transport::Usb,
        None => false,
    }
}

fn any_usb(list: &Vec<ScannerInfo>) -> (r: bool)
    ensures
        r == knows_usb(state::scanners_of(list@)),
{
    let ghost all = state::scanners_of(list@);
    let mut i: usize = 0;
    while i < list.len()
        invariant
            i <= list@.len(),
            all == state::scanners_of(list@),
            forall|j: int| 0 <= j < i ==> (#[trigger] all[j]).via != Transport::Usb,
        decreases list@.len() - i,
    {
        assert(all[i as int] == list@[i as int]@);
        if list[i].via == Transport::Usb {
            return true;
        }
        i += 1;
    }
    false
}

/// No scanner was found on USB.
pub fn handle_absence(state: &mut AppState, pref: TransportPref, plugged: bool)
    ensures
        final(state)@ == not_found(old(state)@, pref, plugged),
        !(unplugged(old(state)@, plugged) && holds_usb(old(state)@)
            && final(state)@.scanner is Some) ==> final(state).last_seen == old(state).last_seen,
{
    let holding = holding_usb(state);
    if !plugged && (holding || any_usb(&state.discovered)) {
        state.forget_via(Transport::Usb, "USB scanner unplugged. Looking again…");
    } else if pref == TransportPref::Usb && !holding {
        state.status_line =
        if plugged {
            "USB scanner plugged in. Getting it ready…".to_owned()
        } else {
            "No USB scanner plugged in. Power it on and use a data cable.".to_owned()
        };
    }
}

/// News of USB keeps the state tidy.
pub proof fn usb_news_keeps_the_state_tidy(
    m: StateModel,
    s: ScannerModel,
    pref: TransportPref,
    plugged: bool,
)
    requires
        laws::tidy(m),
    ensures
        laws::tidy(registered(m, s, plugged)),
        laws::tidy(not_found(m, pref, plugged)),
{
    laws::news_keeps_the_state_tidy(
        m,
        s,
        Seq::empty(),
        1,
        Transport::Usb,
        pref,
        "USB scanner unplugged. Looking again…"@,
    );
}

/// A scanner that is unplugged is given up at once: none over USB is left.
pub proof fn an_unplugged_scanner_is_gone(m: StateModel, pref: TransportPref)
    ensures
        !knows_usb(not_found(m, pref, false).discovered),
        !holds_usb(not_found(m, pref, false)),
{
    let gone = not_found(m, pref, false);
    if holds_usb(m) || knows_usb(m.discovered) {
        laws::a_lost_transport_is_gone(
            m,
            Transport::Usb,
            "USB scanner unplugged. Looking again…"@,
        );
    }
}

/// The sources that are tried for two sides, the best first.
pub open spec fn duplex_sources() -> Seq<Seq<char>> {
    seq![
        "Automatic Document Feeder(left aligned,Duplex)"@,
        "Automatic Document Feeder(Duplex)"@,
        "ADF Duplex"@,
        "Automatic Document Feeder(left aligned)"@,
        "Automatic Document Feeder"@,
        "ADF"@,
    ]
}

/// The sources that are tried for one side, the best first.
pub open spec fn simplex_sources() -> Seq<Seq<char>> {
    seq![
        "Automatic Document Feeder(left aligned)"@,
        "Automatic Document Feeder"@,
        "ADF"@,
        "Automatic Document Feeder(simplex)"@,
    ]
}

/// The sources that are tried for a scan.
pub open spec fn sources(long_receipt: bool) -> Seq<Seq<char>> {
    if long_receipt {
        simplex_sources()
    } else {
        duplex_sources()
    }
}

/// The source that is tried after `n` others; none where all were.
pub fn source_at(long_receipt: bool, n: usize) -> (r: Option<&'static str>)
    ensures
        match r {
            Some(s) => n < sources(long_receipt).len() && s@ == sources(long_receipt)[n as int],
            None => n >= sources(long_receipt).len(),
        },
{
    if long_receipt {
        match n {
            0 => Some("Automatic Document Feeder(left aligned)"),
            1 => Some("Automatic Document Feeder"),
            2 => Some("ADF"),
            3 => Some("Automatic Document Feeder(simplex)"),
            _ => None,
        }
    } else {
        match n {
            0 => Some("Automatic Document Feeder(left aligned,Duplex)"),
            1 => Some("Automatic Document Feeder(Duplex)"),
            2 => Some("ADF Duplex"),
            3 => Some("Automatic Document Feeder(left aligned)"),
            4 => Some("Automatic Document Feeder"),
            5 => Some("ADF"),
            _ => None,
        }
    }
}

/// The arguments of `scanimage` for a scan: a long receipt is one page of 800 mm.
pub open spec fn scan_arguments(
    device: Seq<char>,
    source: Seq<char>,
    pattern: Seq<char>,
    long_receipt: bool,
    dpi: nat,
) -> Seq<Seq<char>> {
    let common = seq![
        "-d"@,
        device,
        "--format=jpeg"@,
        "--resolution="@ + number::decimal(dpi),
        "--source="@ + source,
        "--batch="@ + pattern,
        "--batch-count="@ + if long_receipt {
            "1"@
        } else {
            "2"@
        },
    ];
    if long_receipt {
        common + seq!["-y"@, "800"@]
    } else {
        common
    }
}

/// The arguments of `scanimage` for a scan whose pages go to the files of `pattern`.
pub fn scan_args(
    device: &str,
    source: &str,
    pattern: &str,
    long_receipt: bool,
    dpi: u16,
) -> (r: Vec<String>)
    ensures
        text::texts_of(r@) == scan_arguments(
            device@,
            source@,
            pattern@,
            long_receipt,
            dpi as nat,
        ),
{
    let mut args = vec![
        "-d".to_owned(),
        device.to_owned(),
        "--format=jpeg".to_owned(),
        text::joined("--resolution=", number::decimal_text(dpi as u128).as_str()),
        text::joined("--source=", source),
        text::joined("--batch=", pattern),
        text::joined(
            "--batch-count=",
            if long_receipt {
                "1"
            } else {
                "2"
            },
        ),
    ];
    if long_receipt {
        args.push("-y".to_owned());
        args.push("800".to_owned());
    }
    assert(text::texts_of(args@) =~= scan_arguments(
        device@,
        source@,
        pattern@,
        long_receipt,
        dpi as nat,
    ));
    args
}

/// The sentence for what a USB scan told of its failure.
pub open spec fn sane_text(raw: Seq<char>) -> Seq<char> {
    let l = text::lower(raw);
    if text::has(l, "document feeder out of documents"@) || text::has(l, "no documents"@) {
        "Load a page into the feeder, then scan."@
    } else if text::has(l, "busy"@) {
        "Scanner is busy. Try again in a moment."@
    } else if text::has(l, "permission"@) || text::has(l, "access"@) {
        "No permission to use the USB scanner."@
    } else if text::has(l, "invalid argument"@) || text::has(l, "unknown"@) {
        "USB scan settings weren't accepted. Try Scan again."@
    } else {
        "Couldn't scan over USB."@
    }
}

/// The sentence for what a USB scan told of its failure.
pub fn friendly_sane_error(raw: &str) -> (r: String)
    ensures
        r@ == sane_text(raw@),
{
    let l = text::to_lower(raw);
    if text::contains(l.as_str(), "document feeder out of documents") || text::contains(
        l.as_str(),
        "no documents",
    ) {
        "Load a page into the feeder, then scan.".to_owned()
    } else if text::contains(l.as_str(), "busy") {
        "Scanner is busy. Try again in a moment.".to_owned()
    } else if text::contains(l.as_str(), "permission") || text::contains(l.as_str(), "access") {
        "No permission to use the USB scanner.".to_owned()
    } else if text::contains(l.as_str(), "invalid argument") || text::contains(
        l.as_str(),
        "unknown",
    ) {
        "USB scan settings weren't accepted. Try Scan again.".to_owned()
    } else {
        "Couldn't scan over USB.".to_owned()
    }
}

/// A scan of a SANE device: its sources are tried in turn until one gives a page.
#[derive(Debug)]
pub struct UsbJob {
    pub device: String,
    pub long_receipt: bool,
    pub dpi: u16,
    /// The sources that were tried in vain.
    pub tried: usize,
    /// What the last of them told.
    pub last_err: String,
}

/// What a `UsbJob` says.
#[verifier::ext_equal]
pub struct UsbJobModel {
    pub device: Seq<char>,
    pub long_receipt: bool,
    pub dpi: u16,
    pub tried: usize,
    pub last_err: Seq<char>,
}

impl View for UsbJob {
    type V = UsbJobModel;

    open spec fn view(&self) -> UsbJobModel {
        UsbJobModel {
            device: self.device@,
            long_receipt: self.long_receipt,
            dpi: self.dpi,
            tried: self.tried,
            last_err: self.last_err@,
        }
    }
}

/// How a run of `scanimage` ended.
#[derive(Debug)]
pub struct ScanOutput {
    /// It reported success.
    pub success: bool,
    /// The first page is there.
    pub got_page: bool,
    /// A signal ended it.
    pub killed: bool,
    pub stderr: Vec<u8>,
    pub stdout: Vec<u8>,
}

/// What follows from a run of `scanimage`.
#[derive(Debug, Clone, Copy, PartialEq, Eq, Structural)]
pub enum UsbStep {
    /// The pages are there.
    Scanned,
    /// The next source is to be tried.
    TryNext,
}

/// What a run in vain told: what stands on its error stream, else on its output.
pub open spec fn complaint(stderr: Seq<char>, stdout: Seq<char>) -> Seq<char> {
    if text::trimmed(stderr).len() > 0 {
        text::trimmed(stderr)
    } else {
        text::trimmed(stdout)
    }
}

/// The state while a source is tried.
pub open spec fn source_begun(m: StateModel, long_receipt: bool) -> StateModel {
    StateModel {
        status_line: if long_receipt {
            "Starting USB receipt scan…"@
        } else {
            "Starting USB scan…"@
        },
        progress: ScanProgress {
            job_posted: true,
            one_sided: long_receipt,
            back_done: long_receipt || m.progress.back_done,
            ..m.progress
        },
        ..m
    }
}

/// The text that tells of a crash.
pub open spec fn crash_text() -> Seq<char> {
    "USB scan crashed. Use Wi-Fi Scan instead if the scanner is on the network."@
}

/// What follows from a run of `scanimage`: the step, and the job after it.
pub open spec fn run_ended(
    j: UsbJobModel,
    success: bool,
    got_page: bool,
    killed: bool,
    stderr: Seq<char>,
    stdout: Seq<char>,
) -> (Result<UsbStep, ErrorModel>, UsbJobModel) {
    if success || got_page {
        (Ok(UsbStep::Scanned), j)
    } else if killed {
        (Err(ErrorModel::Escl(crash_text())), j)
    } else {
        (
            Ok(UsbStep::TryNext),
            UsbJobModel {
                tried: (j.tried + 1) as usize,
                last_err: complaint(stderr, stdout),
                ..j
            },
        )
    }
}

/// The view of a step or a failure.
pub open spec fn step_of(r: AppResult<UsbStep>) -> Result<UsbStep, ErrorModel> {
    match r {
        Ok(s) => Ok(s),
        Err(e) => Err(e@),
    }
}

impl UsbJob {
    /// A scan of `device` that has tried no source.
    pub fn start(device: &str, long_receipt: bool, dpi: u16) -> (r: UsbJob)
        ensures
            r@ == (UsbJobModel {
                device: device@,
                long_receipt,
                dpi,
                tried: 0,
                last_err: "Couldn't scan over USB."@,
            }),
    {
        UsbJob {
            device: device.to_owned(),
            long_receipt,
            dpi,
            tried: 0,
            last_err: "Couldn't scan over USB.".to_owned(),
        }
    }

    /// The arguments of `scanimage` for the next source; none where every source was tried.
    pub fn next_args(&self, state: &mut AppState, pattern: &str) -> (r: Option<Vec<String>>)
        ensures
            match r {
                Some(args) => self@.tried < sources(self@.long_receipt).len() && text::texts_of(
                    args@,
                ) == scan_arguments(
                    self@.device,
                    sources(self@.long_receipt)[self@.tried as int],
                    pattern@,
                    self@.long_receipt,
                    self@.dpi as nat,
                ) && final(state)@ == source_begun(old(state)@, self@.long_receipt),
                None => self@.tried >= sources(self@.long_receipt).len() && final(state)@
                    == old(state)@,
            },
            final(state).last_seen == old(state).last_seen,
    {
        match source_at(self.long_receipt, self.tried) {
            Some(source) => {
                state.status_line =
                if self.long_receipt {
                    "Starting USB receipt scan…".to_owned()
                } else {
                    "Starting USB scan…".to_owned()
                };
                state.progress.job_posted = true;
                state.progress.one_sided = self.long_receipt;
                if self.long_receipt {
                    state.progress.back_done = true;
                }
                Some(
                    scan_args(
                        self.device.as_str(),
                        source,
                        pattern,
                        self.long_receipt,
                        self.dpi,
                    ),
                )
            },
            None => None,
        }
    }

    /// A run of `scanimage` ended.
    pub fn answered(&mut self, output: &ScanOutput) -> (r: AppResult<UsbStep>)
        requires
            old(self)@.tried < sources(old(self)@.long_receipt).len(),
        ensures
            if output.success || output.got_page {
                r matches Ok(step) && step == UsbStep::Scanned && final(self)@ == old(self)@
            } else if output.killed {
                r matches Err(e) && e@ == ErrorModel::Escl(crash_text()) && final(self)@
                    == old(self)@
            } else {
                r matches Ok(step) && step == UsbStep::TryNext && final(self)@ == (UsbJobModel {
                    tried: (old(self)@.tried + 1) as usize,
                    last_err: complaint(
                        text::lossy(output.stderr@),
                        text::lossy(output.stdout@),
                    ),
                    ..old(self)@
                })
            },
            (step_of(r), final(self)@) == run_ended(
                old(self)@,
                output.success,
                output.got_page,
                output.killed,
                text::lossy(output.stderr@),
                text::lossy(output.stdout@),
            ),
    {
        if output.success || output.got_page {
            return Ok(UsbStep::Scanned);
        }
        if output.killed {
            return Err(
                AppError::escl(
                    "USB scan crashed. Use Wi-Fi Scan instead if the scanner is on the network.",
                ),
            );
        }
        self.last_err =
        text::trim(text::text_lossy(output.stderr.as_slice()).as_str());
        if self.last_err.as_str().is_empty() {
            self.last_err =
            text::trim(text::text_lossy(output.stdout.as_slice()).as_str());
        }
        self.tried = self.tried + 1;
        Ok(UsbStep::TryNext)
    }

    /// The failure of a scan for which every source was tried.
    pub fn failure(&self) -> (r: AppError)
        ensures
            r@ == ErrorModel::Escl(sane_text(self@.last_err)),
    {
        AppError::Escl(friendly_sane_error(self.last_err.as_str()))
    }
}

/// A scan for two sides falls back on one side only after every source for two, and no source is
/// tried twice.
pub proof fn duplex_is_tried_first(i: int, j: int)
    requires
        0 <= i < j < sources(false).len(),
    ensures
        sources(false)[i] != sources(false)[j],
        text::has(sources(false)[j], "Duplex"@) ==> text::has(sources(false)[i], "Duplex"@),
{
    reveal_strlit("Duplex");
    reveal_strlit("Automatic Document Feeder(left aligned,Duplex)");
    reveal_strlit("Automatic Document Feeder(Duplex)");
    reveal_strlit("ADF Duplex");
    reveal_strlit("Automatic Document Feeder(left aligned)");
    reveal_strlit("Automatic Document Feeder");
    reveal_strlit("ADF");
    let s = sources(false);
    let d = "Duplex"@;
    assert(s[0].subrange(39, 45) =~= d);
    assert(text::matches_at(s[0], d, 39));
    assert(s[1].subrange(26, 32) =~= d);
    assert(text::matches_at(s[1], d, 26));
    assert(s[2].subrange(4, 10) =~= d);
    assert(text::matches_at(s[2], d, 4));
    assert(s[0].len() == 46 && s[1].len() == 33 && s[2].len() == 10 && s[3].len() == 39
        && s[4].len() == 25 && s[5].len() == 3);
    if j >= 3 && text::has(s[j], d) {
        let k = choose|k: int| text::matches_at(s[j], d, k);
        assert(s[j].subrange(k, k + 6)[0] == d[0]);
        assert(s[j].subrange(k, k + 6)[5] == d[5]);
        assert(s[j][k] == 'D' && s[j][k + 5] == 'x');
        if j == 3 {
            assert(forall|q: int| 0 <= q < 39 ==> s[3][q] != 'x');
        } else if j == 4 {
            assert(forall|q: int| 0 <= q < 25 ==> s[4][q] != 'x');
        } else {
            assert(forall|q: int| 0 <= q < 3 ==> s[5][q] != 'x');
        }
    }
}

/// The names under which page `n` of a USB scan may lie, in the order of the looking.
pub open spec fn page_names(n: nat) -> Seq<Seq<char>> {
    let stem = "page"@ + number::decimal(n);
    seq![
        stem + ".jpg"@,
        stem + ".jpeg"@,
        stem + ".pnm"@,
        stem + ".png"@,
        stem + ".tiff"@,
        stem + ".tif"@,
    ]
}

/// The names under which page `n` of a USB scan may lie, in the order of the looking.
pub fn page_files(n: u32) -> (r: Vec<String>)
    ensures
        text::texts_of(r@) == page_names(n as nat),
{
    let stem = text::joined("page", number::decimal_text(n as u128).as_str());
    let r = vec![
        text::joined(stem.as_str(), ".jpg"),
        text::joined(stem.as_str(), ".jpeg"),
        text::joined(stem.as_str(), ".pnm"),
        text::joined(stem.as_str(), ".png"),
        text::joined(stem.as_str(), ".tiff"),
        text::joined(stem.as_str(), ".tif"),
    ];
    assert(text::texts_of(r@) =~= page_names(n as nat));
    r
}

/// The failure to find page `n` of a USB scan.
pub fn missing_page(n: u32) -> (r: AppError)
    ensures
        r@ == ErrorModel::Escl("missing USB page "@ + number::decimal(n as nat)),
{
    AppError::Escl(text::joined("missing USB page ", number::decimal_text(n as u128).as_str()))
}

/// The name of the directory to which a USB scan writes.
pub fn work_dir_name(process: u32, millis: u128) -> (r: String)
    ensures
        r@ == "scanbro-"@ + number::decimal(process as nat) + "-"@ + number::decimal(millis as nat),
{
    let mut s = text::joined("scanbro-", number::decimal_text(process as u128).as_str());
    s.append("-");
    s.append(number::decimal_text(millis).as_str());
    s
}

/// The state after the pages of a USB scan were read.
pub open spec fn pages_read(m: StateModel, front: Seq<u8>, back: Seq<u8>) -> StateModel {
    StateModel {
        progress: ScanProgress {
            front_done: true,
            front_bytes: front.len() as usize,
            back_done: true,
            back_bytes: if back.len() > 0 {
                back.len() as usize
            } else {
                m.progress.back_bytes
            },
            current_bytes: 0,
            ..m.progress
        },
        ..m
    }
}

/// The sheet that comes of the two pages of a USB scan, where each was read or not.
pub open spec fn usb_sheet(
    front: Result<Seq<u8>, ErrorModel>,
    back: Result<Seq<u8>, ErrorModel>,
) -> Result<(Seq<u8>, Seq<u8>), ErrorModel> {
    match front {
        Ok(f) => if f.len() == 0 {
            Err(ErrorModel::Escl("USB scan produced no pages."@))
        } else {
            Ok(
                (
                    f,
                    match back {
                        Ok(b) => b,
                        Err(_) => Seq::empty(),
                    },
                ),
            )
        },
        Err(e) => Err(e),
    }
}

/// The view of a page that was read or not.
pub open spec fn page_of(r: AppResult<Arc<Vec<u8>>>) -> Result<Seq<u8>, ErrorModel> {
    match r {
        Ok(b) => Ok(b@),
        Err(e) => Err(e@),
    }
}

/// The sheet of a USB scan: a front that could not be read fails it, a back that could not is
/// empty.
#[verifier::rlimit(40)]
pub fn load_pages(
    state: &mut AppState,
    front: AppResult<Arc<Vec<u8>>>,
    back: AppResult<Arc<Vec<u8>>>,
) -> (r: AppResult<(Arc<Vec<u8>>, Arc<Vec<u8>>)>)
    ensures
        match front {
            Ok(front) => {
                let reverse = match back {
                    Ok(b) => b@,
                    Err(_) => Seq::empty(),
                };
                final(state)@ == pages_read(old(state)@, front@, reverse) && if front@.len() == 0 {
                    job::sheet_of(r) == Err::<(Seq<u8>, Seq<u8>), ErrorModel>(
                        ErrorModel::Escl("USB scan produced no pages."@),
                    )
                } else {
                    job::sheet_of(r) == Ok::<(Seq<u8>, Seq<u8>), ErrorModel>((front@, reverse))
                }
            },
            Err(e) => r == Err::<(Arc<Vec<u8>>, Arc<Vec<u8>>), AppError>(e) && final(state)@
                == old(state)@,
        },
        job::sheet_of(r) == usb_sheet(page_of(front), page_of(back)),
        final(state).last_seen == old(state).last_seen,
{
    let front = match front {
        Ok(front) => front,
        Err(e) => {
            return Err(e);
        },
    };
    let back = match back {
        Ok(back) => back,
        Err(_) => {
            let none: Vec<u8> = Vec::new();
            assert(none@ =~= Seq::empty());
            Arc::new(none)
        },
    };
    state.progress.front_done = true;
    state.progress.front_bytes = front.len();
    if back.len() > 0 {
        state.progress.back_bytes = back.len();
    }
    state.progress.back_done = true;
    state.progress.current_bytes = 0;
    if front.len() == 0 {
        return Err(AppError::escl("USB scan produced no pages."));
    }
    Ok((front, back))
}

/// A USB scan gives its two pages as front and back, in that order; without a back it gives the
/// front alone, and without a front it fails.
pub proof fn a_usb_sheet_is_front_and_back(
    front: Seq<u8>,
    back: Result<Seq<u8>, ErrorModel>,
    e: ErrorModel,
)
    ensures
        front.len() > 0 ==> usb_sheet(Ok(front), back) is Ok && usb_sheet(Ok(front), back)->Ok_0.0
            == front,
        front.len() > 0 && back is Ok ==> usb_sheet(Ok(front), back)->Ok_0.1 == back->Ok_0,
        front.len() > 0 && back is Err ==> usb_sheet(Ok(front), back)->Ok_0.1.len() == 0,
        front.len() == 0 ==> usb_sheet(Ok(front), back) is Err,
        usb_sheet(Err(e), back) == Err::<(Seq<u8>, Seq<u8>), ErrorModel>(e),
{
}

/// The pages that were read are counted, and both sides are done.
pub proof fn read_pages_are_counted(m: StateModel, front: Seq<u8>, back: Seq<u8>)
    requires
        front.len() <= usize::MAX,
        back.len() <= usize::MAX,
    ensures
        ({
            let n = pages_read(m, front, back);
            &&& n.progress.front_done && n.progress.back_done
            &&& n.progress.front_bytes == front.len()
            &&& back.len() > 0 ==> n.progress.back_bytes == back.len()
            &&& n.progress.current_bytes == 0
            &&& n == (StateModel { progress: n.progress, ..m })
        }),
{
}

/// A run that gave a page or reported success ends the search; one that was killed ends it with a
/// failure; after any other the next source is tried, and what the run told is remembered.
pub proof fn a_run_ends_the_search_or_not(
    j: UsbJobModel,
    success: bool,
    got_page: bool,
    killed: bool,
    stderr: Seq<char>,
    stdout: Seq<char>,
)
    requires
        j.tried < 100,
    ensures
        ({
            let (step, n) = run_ended(j, success, got_page, killed, stderr, stdout);
            &&& success || got_page ==> step == Ok::<UsbStep, ErrorModel>(UsbStep::Scanned) && n == j
            &&& !success && !got_page && killed ==> step is Err && n == j
            &&& !success && !got_page && !killed ==> step == Ok::<UsbStep, ErrorModel>(
                UsbStep::TryNext,
            ) && n.tried == j.tried + 1 && n.device == j.device && n.dpi == j.dpi && n.long_receipt
                == j.long_receipt
            &&& !success && !got_page && !killed && text::trimmed(stderr).len() > 0 ==> n.last_err
                == text::trimmed(stderr)
            &&& !success && !got_page && !killed && text::trimmed(stderr).len() == 0 ==> n.last_err
                == text::trimmed(stdout)
        }),
{
}

/// A run of `scanimage` is told the device, the source, the resolution and where the pages go; it
/// scans two pages, or one of a receipt, for which it is told a long page.
pub proof fn a_run_is_told_what_to_scan(
    device: Seq<char>,
    source: Seq<char>,
    pattern: Seq<char>,
    long_receipt: bool,
    dpi: nat,
)
    ensures
        ({
            let args = scan_arguments(device, source, pattern, long_receipt, dpi);
            &&& args.len() == (if long_receipt {
                9int
            } else {
                7
            })
            &&& args[0] == "-d"@ && args[1] == device
            &&& args.contains("--format=jpeg"@)
            &&& args.contains("--resolution="@ + number::decimal(dpi))
            &&& args.contains("--source="@ + source)
            &&& args.contains("--batch="@ + pattern)
            &&& !long_receipt ==> args.contains("--batch-count="@ + "2"@)
            &&& long_receipt ==> args.contains("--batch-count="@ + "1"@) && args[7] == "-y"@
                && args[8] == "800"@
        }),
{
    let args = scan_arguments(device, source, pattern, long_receipt, dpi);
    assert(args[2] == "--format=jpeg"@);
    assert(args[3] == "--resolution="@ + number::decimal(dpi));
    assert(args[4] == "--source="@ + source);
    assert(args[5] == "--batch="@ + pattern);
    assert(args[6] == "--batch-count="@ + if long_receipt {
        "1"@
    } else {
        "2"@
    });
}

/// The first Brother device on the bus is found, whatever else is plugged in, under the name that
/// it tells.
pub proof fn the_first_brother_device_is_found(
    before: Seq<DeviceModel>,
    d: DeviceModel,
    after: Seq<DeviceModel>,
)
    requires
        forall|i: int|
            0 <= i < before.len() ==> text::trimmed((#[trigger] before[i]).vendor) != "04f9"@,
        text::trimmed(d.vendor) == "04f9"@,
    ensures
        plugged_name(before) is None,
        text::trimmed(d.product).len() > 0 ==> plugged_name(before + seq![d] + after) == Some(
            text::trimmed(d.product),
        ),
        text::trimmed(d.product).len() == 0 ==> plugged_name(before + seq![d] + after) == Some(
            "Brother DS-940DW"@,
        ),
    decreases before.len(),
{
    let all = before + seq![d] + after;
    if before.len() > 0 {
        let t = before.skip(1);
        assert forall|i: int| 0 <= i < t.len() implies text::trimmed((#[trigger] t[i]).vendor)
            != "04f9"@ by {
            assert(t[i] == before[i + 1]);
        }
        the_first_brother_device_is_found(t, d, after);
        assert(all[0] == before[0]);
        assert(all.skip(1) =~= t + seq![d] + after);
    } else {
        assert(all[0] == d);
    }
}

/// The first line of a device list that tells of a usable scanner is taken, whatever the lines
/// before and after tell.
pub proof fn the_first_usable_line_is_taken(
    before: Seq<Seq<char>>,
    line: Seq<char>,
    after: Seq<Seq<char>>,
    plugged: Seq<char>,
)
    requires
        forall|i: int| 0 <= i < before.len() ==> listed(#[trigger] before[i], plugged) is None,
        listed(line, plugged) is Some,
    ensures
        first_listed(before, plugged) is None,
        first_listed(before + seq![line] + after, plugged) == listed(line, plugged),
    decreases before.len(),
{
    let all = before + seq![line] + after;
    if before.len() > 0 {
        let t = before.skip(1);
        assert forall|i: int| 0 <= i < t.len() implies listed(#[trigger] t[i], plugged) is None by {
            assert(t[i] == before[i + 1]);
        }
        the_first_usable_line_is_taken(t, line, after, plugged);
        assert(all[0] == before[0]);
        assert(all.skip(1) =~= t + seq![line] + after);
    } else {
        assert(all[0] == line);
    }
}

/// A line of a device list tells the device between its quotes, and a name after them.
pub proof fn a_line_tells_its_device(device: Seq<char>, desc: Seq<char>, plugged: Seq<char>)
    requires
        device.len() > 0,
        !text::is_white(device[0]),
        !text::is_white(device.last()),
        !device.contains('\''),
        on_usb(device),
    ensures
        ({
            let line = "device `"@ + device + "' is a "@ + desc;
            &&& listed(line, plugged) matches Some(s) && s.sane_device == Some(device) && s.via
                == Transport::Usb && s.service_type == "sane"@
            &&& text::trimmed(desc).len() > 0 && !text::has(
                text::lower(text::trimmed(desc)),
                "uscan"@,
            ) ==> listed(line, plugged)->0.name == text::trimmed(desc)
        }),
{
    reveal_strlit("device `");
    reveal_strlit("' is a ");
    reveal_strlit("brother");
    let line = "device `"@ + device + "' is a "@ + desc;
    let rest = device + "' is a "@ + desc;
    assert(line.subrange(0, 8) =~= "device `"@);
    assert(line.skip(8) =~= rest);
    let n = device.len() as int;
    assert(rest.subrange(n, n + 7) =~= "' is a "@);
    assert(text::matches_at(rest, "' is a "@, n));
    text::lemma_find_from(rest, "' is a "@, 0);
    let i = text::find(rest, "' is a "@)->0;
    if i < n {
        assert(rest.subrange(i, i + 7)[0] == rest[i]);
        assert(device[i] == '\'');
    }
    assert(rest.take(n) =~= device);
    assert(rest.skip(n + 7) =~= desc);
    assert(text::trimmed(device) == device);
    assert(text::matches_at(text::lower(device), "brother"@, 0));
}

/// A scanner found on USB is offered like any other where USB is wanted, except one that SANE
/// lists while nothing is plugged in.
pub proof fn usb_scanners_are_offered(m: StateModel, s: ScannerModel, plugged: bool)
    ensures
        scanner::wanted(m.transport_pref, Transport::Usb) && (plugged || s.sane_device is None)
            ==> registered(m, s, plugged) == state::offered(m, s),
        !scanner::wanted(m.transport_pref, Transport::Usb) ==> registered(m, s, plugged) == m,
        s.sane_device is Some && !plugged ==> registered(m, s, plugged) == m,
{
}

/// While a device is plugged in, or while none over USB is known, a search that found nothing
/// changes at most the line.
pub proof fn a_search_in_vain_changes_little(m: StateModel, pref: TransportPref, plugged: bool)
    requires
        plugged || (!holds_usb(m) && !knows_usb(m.discovered)),
    ensures
        not_found(m, pref, plugged) == (StateModel {
            status_line: not_found(m, pref, plugged).status_line,
            ..m
        }),
        pref != TransportPref::Usb || holds_usb(m) ==> not_found(m, pref, plugged) == m,
        pref == TransportPref::Usb && !holds_usb(m) && plugged ==> not_found(
            m,
            pref,
            plugged,
        ).status_line == "USB scanner plugged in. Getting it ready…"@,
        pref == TransportPref::Usb && !plugged ==> not_found(m, pref, plugged).status_line
            == "No USB scanner plugged in. Power it on and use a data cable."@,
{
}

/// A page is looked for under its number with each of the usual endings, and different pages under
/// different names.
pub proof fn pages_are_looked_for_by_number(n: nat, m: nat, i: int)
    requires
        0 <= i < 6,
    ensures
        page_names(n).len() == 6,
        text::begins(page_names(n)[i], "page"@ + number::decimal(n) + "."@),
        n != m ==> page_names(n)[i] != page_names(m)[i],
        page_names(n)[0] == "page"@ + number::decimal(n) + ".jpg"@,
{
    reveal_strlit(".");
    reveal_strlit(".jpg");
    reveal_strlit(".jpeg");
    reveal_strlit(".pnm");
    reveal_strlit(".png");
    reveal_strlit(".tiff");
    reveal_strlit(".tif");
    let a = page_names(n)[i];
    let b = page_names(m)[i];
    let stem = "page"@ + number::decimal(n);
    assert(a.subrange(0, stem.len() as int + 1) =~= stem + "."@);
    if a == b {
        let end = if i == 0 {
            ".jpg"@
        } else if i == 1 {
            ".jpeg"@
        } else if i == 2 {
            ".pnm"@
        } else if i == 3 {
            ".png"@
        } else if i == 4 {
            ".tiff"@
        } else {
            ".tif"@
        };
        assert(a == stem + end);
        assert(b == "page"@ + number::decimal(m) + end);
        assert((stem + end).len() == "page"@.len() + number::decimal(n).len() + end.len());
        assert(("page"@ + number::decimal(m) + end).len() == "page"@.len() + number::decimal(
            m,
        ).len() + end.len());
        assert(number::decimal(n).len() == number::decimal(m).len());
        let k = "page"@.len() as int;
        assert(number::decimal(n) =~= a.subrange(k, k + number::decimal(n).len()));
        assert(number::decimal(m) =~= b.subrange(k, k + number::decimal(m).len()));
        number::decimal_reads_back(n);
        number::decimal_reads_back(m);
    }
}

/// The scanner on a local port is asked on each of the usual ports, under the name of the device
/// that is plugged in.
pub proof fn local_ports_are_asked(i: int, name: Seq<char>)
    requires
        0 <= i < 5,
    ensures
        ipp_ports() == seq![60000u16, 60001u16, 60002u16, 60003u16, 631u16],
        ipp_scanner(ipp_ports()[i], Some(name)).name == name,
        ipp_scanner(ipp_ports()[i], Some(name)).port == ipp_ports()[i],
        ipp_scanner(ipp_ports()[i], Some(name)).ip == AddrModel::V4(127, 0, 0, 1),
        ipp_scanner(ipp_ports()[i], Some(name)).via == Transport::Usb,
        ipp_scanner(ipp_ports()[i], Some(name)).sane_device is None,
        ipp_scanner(ipp_ports()[i], Some(name)).escl_root == "eSCL"@,
{
}

/// The beginning of a run marks the job as posted, and a receipt as one-sided.
pub proof fn a_run_is_told_to_the_user(m: StateModel, long_receipt: bool)
    ensures
        ({
            let n = source_begun(m, long_receipt);
            &&& n.progress.job_posted && n.progress.one_sided == long_receipt
            &&& long_receipt ==> n.progress.back_done
            &&& n == (StateModel { progress: n.progress, status_line: n.status_line, ..m })
            &&& n.progress.front_done == m.progress.front_done
            &&& !long_receipt ==> n.progress.back_done == m.progress.back_done
            &&& long_receipt ==> n.status_line == "Starting USB receipt scan…"@
            &&& !long_receipt ==> n.status_line == "Starting USB scan…"@
        }),
{
}

/// What the scanning program complains of is told in words, by what its message says in either
/// case; what it writes about errors counts before what else it writes.
pub proof fn complaints_are_told_in_words(raw: Seq<char>, out: Seq<char>)
    ensures
        ({
            let l = text::lower(raw);
            let empty = text::has(l, "document feeder out of documents"@) || text::has(
                l,
                "no documents"@,
            );
            let busy = text::has(l, "busy"@);
            let denied = text::has(l, "permission"@) || text::has(l, "access"@);
            let settings = text::has(l, "invalid argument"@) || text::has(l, "unknown"@);
            &&& empty ==> sane_text(raw) == "Load a page into the feeder, then scan."@
            &&& !empty && busy ==> sane_text(raw) == "Scanner is busy. Try again in a moment."@
            &&& !empty && !busy && denied ==> sane_text(raw)
                == "No permission to use the USB scanner."@
            &&& !empty && !busy && !denied && settings ==> sane_text(raw)
                == "USB scan settings weren't accepted. Try Scan again."@
            &&& !empty && !busy && !denied && !settings ==> sane_text(raw)
                == "Couldn't scan over USB."@
        }),
        text::trimmed(raw).len() > 0 ==> complaint(raw, out) == text::trimmed(raw),
        text::trimmed(raw).len() == 0 ==> complaint(raw, out) == text::trimmed(out),
        crash_text()
            == "USB scan crashed. Use Wi-Fi Scan instead if the scanner is on the network."@,
{
}

/// A scanner that answers on a local port is on USB, under the name of the device that is plugged
/// in, or under the maker's where none is known.
pub proof fn a_local_scanner_is_on_usb(port: u16, plugged: Option<Seq<char>>)
    ensures
        ipp_scanner(port, plugged) == (ScannerModel {
            name: match plugged {
                Some(n) => n,
                None => "Brother"@,
            },
            hostname: "usb"@,
            ip: AddrModel::V4(127, 0, 0, 1),
            port: port,
            escl_root: "eSCL"@,
            service_type: "usb"@,
            via: Transport::Usb,
            sane_device: None,
        }),
{
}

} // verus!
