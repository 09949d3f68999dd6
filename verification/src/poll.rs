//! The watch over the scanner in use: it is asked for its status again and again, and given up
//! when it stays silent.

use std::time::Instant;

use vstd::prelude::*;

use crate::laws;
use crate::scanner;
use crate::scanner::{ScannerInfo, ScannerModel};
use crate::state;
use crate::state::{AppState, ConnectionState, StateModel};
use crate::status::{ScannerStatus, StatusModel};

verus! {

/// The time between two questions, in seconds.
pub const POLL_SECONDS: u64 = 2;

/// The watch: how many questions in a row went without an answer.
#[derive(Debug)]
pub struct Poller {
    pub misses: u8,
}

/// A watch counts up to three; the fourth miss ends it.
pub open spec fn counts(misses: u8) -> bool {
    misses <= 3
}

/// The scanner to ask: the one in use, unless SANE drives it.
pub open spec fn target(m: StateModel) -> Option<ScannerModel> {
    match m.scanner {
        Some(s) => if s.sane_device is None {
            Some(s)
        } else {
            None
        },
        None => None,
    }
}

/// A report with a battery charge where one is known: its own, the one just fetched, or the one
/// before.
pub open spec fn with_charge(
    s: StatusModel,
    fetched: Option<u8>,
    previous: Option<u8>,
) -> StatusModel {
    if s.battery_percent is Some {
        s
    } else {
        StatusModel {
            battery_percent: if fetched is Some {
                fetched
            } else {
                previous
            },
            ..s
        }
    }
}

/// The state after scanner `s` gave a report.
pub open spec fn answered(m: StateModel, s: ScannerModel, report: StatusModel) -> StateModel {
    let line = if m.connection == ConnectionState::AwaitingConnection || m.connection
        == ConnectionState::Degraded {
        "Connected over "@ + scanner::transport_name(s.via) + "."@
    } else {
        m.status_line
    };
    StateModel {
        status: Some(report),
        seen: true,
        connection: state::connected(m.connection),
        status_line: line,
        ..m
    }
}

/// The state after the scanner answered over another route.
pub open spec fn rerouted(m: StateModel, s: ScannerModel, report: StatusModel) -> StateModel {
    StateModel {
        status: Some(report),
        scanner: Some(s),
        seen: true,
        connection: ConnectionState::Connected,
        status_line: "Connected over Wi-Fi."@,
        ..m
    }
}

/// A running scan keeps the scanner too busy to answer: its silence does not count.
pub open spec fn excused(m: StateModel) -> bool {
    m.connection == ConnectionState::Scanning || m.connection == ConnectionState::RunningOcr
}

/// The miss ends the watch of the scanner.
pub open spec fn lost(misses: u8, m: StateModel) -> bool {
    !excused(m) && misses >= 3
}

/// The watch and the state after the scanner did not answer.
pub open spec fn missed(misses: u8, m: StateModel) -> (u8, StateModel) {
    if excused(m) {
        (misses, m)
    } else if misses == 0 {
        (
            1,
            StateModel {
                connection: ConnectionState::Degraded,
                status_line: "Checking the scanner again…"@,
                ..m
            },
        )
    } else if misses < 3 {
        ((misses + 1) as u8, m)
    } else {
        (0, state::disconnected(m, "Scanner went offline. Looking again…"@))
    }
}

/// The report with a battery charge where one is known.
pub fn battery_filled(
    report: ScannerStatus,
    fetched: Option<u8>,
    previous: Option<u8>,
) -> (r: ScannerStatus)
    ensures
        r@ == with_charge(report@, fetched, previous),
{
    let mut r = report;
    if r.battery_percent.is_none() {
        r.battery_percent = if fetched.is_some() {
            fetched
        } else {
            previous
        };
    }
    r
}

/// The battery charge of the last report.
pub fn known_charge(state: &AppState) -> (r: Option<u8>)
    ensures
        r == (match state@.status {
            Some(s) => s.battery_percent,
            None => None,
        }),
{
    match &state.status {
        Some(s) => s.battery_percent,
        None => None,
    }
}

impl Poller {
    /// A watch that has missed nothing.
    pub fn new() -> (r: Poller)
        ensures
            r.misses == 0,
            counts(r.misses),
    {
        Poller { misses: 0 }
    }

    /// The scanner to ask.
    pub fn target(state: &AppState) -> (r: Option<ScannerInfo>)
        ensures
            scanner::scanner_of(r) == target(state@),
    {
        match &state.scanner {
            Some(s) => {
                if s.sane_device.is_none() {
                    Some(s.clone())
                } else {
                    None
                }
            },
            None => None,
        }
    }

    /// Scanner `s` gave a report.
    pub fn on_status(&mut self, state: &mut AppState, s: &ScannerInfo, report: ScannerStatus)
        ensures
            final(self).misses == 0,
            final(state)@ == answered(old(state)@, s@, report@),
    {
        self.misses = 0;
        state.status = Some(report);
        state.last_seen = Some(Instant::now());
        if state.connection == ConnectionState::AwaitingConnection || state.connection
            == ConnectionState::Degraded {
            state.connection = ConnectionState::Connected;
            let mut line = "Connected over ".to_owned();
            line.append(s.via.label());
            line.append(".");
            state.status_line = line;
        }
    }

    /// The scanner answered over another route.
    pub fn on_alt_route(&mut self, state: &mut AppState, s: ScannerInfo, report: ScannerStatus)
        ensures
            final(self).misses == 0,
            final(state)@ == rerouted(old(state)@, s@, report@),
    {
        self.misses = 0;
        state.status = Some(report);
        state.scanner = Some(s);
        state.last_seen = Some(Instant::now());
        state.connection = ConnectionState::Connected;
        state.status_line = "Connected over Wi-Fi.".to_owned();
    }

    /// The scanner did not answer.
    pub fn on_miss(&mut self, state: &mut AppState)
        requires
            counts(old(self).misses),
        ensures
            (final(self).misses, final(state)@) == missed(old(self).misses, old(state)@),
            counts(final(self).misses),
            !(lost(old(self).misses, old(state)@) && final(state)@.scanner is Some)
                ==> final(state).last_seen == old(state).last_seen,
    {
        if state.connection == ConnectionState::Scanning || state.connection
            == ConnectionState::RunningOcr {
            return ;
        }
        self.misses = self.misses + 1;
        if self.misses == 1 {
            state.connection = ConnectionState::Degraded;
            state.status_line = "Checking the scanner again…".to_owned();
        } else if self.misses >= 4 {
            state.mark_disconnected("Scanner went offline. Looking again…");
            self.misses = 0;
        }
    }
}

/// A scanner that misses one question is in doubt; one that misses four in a row is given up, and
/// not before.
pub proof fn four_misses_lose_a_scanner(m: StateModel)
    requires
        !excused(m),
    ensures
        ({
            let (n1, m1) = missed(0, m);
            let (n2, m2) = missed(n1, m1);
            let (n3, m3) = missed(n2, m2);
            let (n4, m4) = missed(n3, m3);
            &&& m1.connection == ConnectionState::Degraded
            &&& m3.scanner == m.scanner
            &&& m3.discovered == m.discovered
            &&& n4 == 0
            &&& m4 == state::disconnected(m3, "Scanner went offline. Looking again…"@)
        }),
{
}

/// A silent scanner is never given up while it scans.
pub proof fn silence_in_a_scan_is_excused(misses: u8, m: StateModel)
    requires
        excused(m),
    ensures
        missed(misses, m) == (misses, m),
{
}

/// An answer ends every doubt.
pub proof fn an_answer_ends_the_doubt(m: StateModel, s: ScannerModel, report: StatusModel)
    ensures
        answered(m, s, report).connection != ConnectionState::Degraded,
        answered(m, s, report).connection != ConnectionState::AwaitingConnection,
        excused(m) ==> answered(m, s, report).connection == m.connection,
        answered(m, s, report).scanner == m.scanner,
{
}

/// The watch keeps the state tidy.
pub proof fn watching_keeps_the_state_tidy(
    misses: u8,
    m: StateModel,
    s: ScannerModel,
    report: StatusModel,
)
    requires
        laws::tidy(m),
    ensures
        laws::tidy(missed(misses, m).1),
        laws::tidy(answered(m, s, report)),
        laws::tidy(rerouted(m, s, report)),
{
    laws::a_loss_keeps_the_state_tidy(m, "Scanner went offline. Looking again…"@);
}

/// The report of every answer is kept, whatever was known before, and an answer over another route
/// puts that route in use. Nothing else changes but the connection and the line.
pub proof fn every_answer_is_kept(m: StateModel, s: ScannerModel, report: StatusModel)
    ensures
        answered(m, s, report).status == Some(report),
        rerouted(m, s, report).status == Some(report),
        rerouted(m, s, report).scanner == Some(s),
        rerouted(m, s, report).connection == ConnectionState::Connected,
        answered(m, s, report) == (StateModel {
            status: Some(report),
            seen: true,
            connection: answered(m, s, report).connection,
            status_line: answered(m, s, report).status_line,
            ..m
        }),
        rerouted(m, s, report) == (StateModel {
            status: Some(report),
            scanner: Some(s),
            seen: true,
            connection: ConnectionState::Connected,
            status_line: rerouted(m, s, report).status_line,
            ..m
        }),
{
}

/// An answer is told where the scanner was not sure to be there, and only there: a line that tells
/// of something else stays.
pub proof fn an_answer_is_told_once(m: StateModel, s: ScannerModel, report: StatusModel)
    ensures
        m.connection == ConnectionState::AwaitingConnection || m.connection
            == ConnectionState::Degraded ==> answered(m, s, report).connection
            == ConnectionState::Connected && answered(m, s, report).status_line
            == "Connected over "@ + scanner::transport_name(s.via) + "."@,
        m.connection != ConnectionState::AwaitingConnection && m.connection
            != ConnectionState::Degraded ==> answered(m, s, report).connection == m.connection
            && answered(m, s, report).status_line == m.status_line,
{
}

/// The first miss in a row puts the scanner in doubt, the next two change nothing, and what is
/// known of scanners, pages and settings stays through all three.
pub proof fn doubt_changes_nothing_else(m: StateModel)
    requires
        m.connection != ConnectionState::Scanning,
        m.connection != ConnectionState::RunningOcr,
    ensures
        missed(0, m).0 == 1,
        missed(0, m).1 == (StateModel {
            connection: ConnectionState::Degraded,
            status_line: "Checking the scanner again…"@,
            ..m
        }),
        missed(1, m) == (2u8, m),
        missed(2, m) == (3u8, m),
        missed(3, m).0 == 0,
        missed(3, m).1.scanner matches Some(s) ==> (m.scanner matches Some(cur) ==> scanner::key(s)
            != scanner::key(cur)),
        missed(3, m).1.pages == m.pages,
{
    if m.scanner is Some {
        laws::a_lost_scanner_is_gone(m, "Scanner went offline. Looking again…"@);
    }
}

/// A charge that the report tells is kept; else the one just fetched counts, and else the one
/// before. The rest of the report stays.
pub proof fn the_newest_charge_counts(s: StatusModel, fetched: Option<u8>, previous: Option<u8>)
    ensures
        s.battery_percent is Some ==> with_charge(s, fetched, previous) == s,
        s.battery_percent is None && fetched is Some ==> with_charge(
            s,
            fetched,
            previous,
        ).battery_percent == fetched,
        s.battery_percent is None && fetched is None ==> with_charge(
            s,
            fetched,
            previous,
        ).battery_percent == previous,
        with_charge(s, fetched, previous).adf_state == s.adf_state,
        with_charge(s, fetched, previous).state == s.state,
        with_charge(s, fetched, previous).reasons == s.reasons,
{
}

/// The scanner in use is asked, unless SANE drives it.
pub proof fn the_scanner_in_use_is_asked(m: StateModel)
    ensures
        (m.scanner matches Some(s) && s.sane_device is None) ==> target(m) == m.scanner,
        (m.scanner matches Some(s) && s.sane_device is Some) ==> target(m) is None,
        m.scanner is None ==> target(m) is None,
{
}

/// A scanner that answers on another route is used there from then on, and the user is told; a
/// first answer that stays away puts the scanner in doubt, and the user is told of that too.
pub proof fn a_new_route_is_told(m: StateModel, s: ScannerModel, report: StatusModel)
    ensures
        rerouted(m, s, report) == (StateModel {
            status: Some(report),
            scanner: Some(s),
            seen: true,
            connection: ConnectionState::Connected,
            status_line: "Connected over Wi-Fi."@,
            ..m
        }),
        !excused(m) ==> missed(0, m) == (
            1u8,
            (StateModel {
                connection: ConnectionState::Degraded,
                status_line: "Checking the scanner again…"@,
                ..m
            }),
        ),
        !excused(m) ==> missed(1, m) == (2u8, m) && missed(2, m) == (3u8, m),
        excused(m) ==> forall|n: u8| #[trigger] missed(n, m) == (n, m),
{
}

} // verus!
