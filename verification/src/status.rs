//! The status that a scanner reports, and what follows from it.

use vstd::prelude::*;

use crate::text;

verus! {

/// What a scanner reports of itself.
#[derive(Debug)]
pub struct ScannerStatus {
    pub state: String,
    pub adf_state: String,
    pub battery_percent: Option<u8>,
    pub reasons: Vec<String>,
}

/// What a `ScannerStatus` says.
#[verifier::ext_equal]
pub struct StatusModel {
    pub state: Seq<char>,
    pub adf_state: Seq<char>,
    pub battery_percent: Option<u8>,
    pub reasons: Seq<Seq<char>>,
}

impl View for ScannerStatus {
    type V = StatusModel;

    open spec fn view(&self) -> StatusModel {
        StatusModel {
            state: self.state@,
            adf_state: self.adf_state@,
            battery_percent: self.battery_percent,
            reasons: text::texts_of(self.reasons@),
        }
    }
}

/// The view of an optional status.
pub open spec fn status_of(s: Option<ScannerStatus>) -> Option<StatusModel> {
    match s {
        Some(s) => Some(s@),
        None => None,
    }
}

/// The report of a scanner that has said nothing.
pub open spec fn no_report() -> StatusModel {
    StatusModel {
        state: Seq::empty(),
        adf_state: Seq::empty(),
        battery_percent: None,
        reasons: Seq::empty(),
    }
}

impl Default for ScannerStatus {
    fn default() -> (r: Self)
        ensures
            r@ == no_report(),
    {
        let r = ScannerStatus {
            state: String::new(),
            adf_state: String::new(),
            battery_percent: None,
            reasons: Vec::new(),
        };
        assert(r@ =~= no_report());
        r
    }
}

/// A copy of a list of texts.
pub fn copy_texts(v: &Vec<String>) -> (r: Vec<String>)
    ensures
        text::texts_of(r@) == text::texts_of(v@),
{
    let mut out: Vec<String> = Vec::new();
    let mut i: usize = 0;
    while i < v.len()
        invariant
            i <= v@.len(),
            text::texts_of(out@) == text::texts_of(v@).take(i as int),
        decreases v@.len() - i,
    {
        let t = v[i].clone();
        proof {
            text::lemma_texts_push(out@, t);
        }
        out.push(t);
        i += 1;
        assert(text::texts_of(out@) =~= text::texts_of(v@).take(i as int));
    }
    assert(text::texts_of(v@).take(i as int) =~= text::texts_of(v@));
    out
}

impl Clone for ScannerStatus {
    fn clone(&self) -> (r: Self)
        ensures
            r@ == self@,
    {
        ScannerStatus {
            state: self.state.clone(),
            adf_state: self.adf_state.clone(),
            battery_percent: self.battery_percent,
            reasons: copy_texts(&self.reasons),
        }
    }
}

/// The state of the feeder.
#[derive(Debug, Clone, Copy, PartialEq, Eq, Structural)]
pub enum FeederKind {
    Empty,
    Loaded,
    Pulling,
    Jam,
    Mispick,
    Unknown,
}

/// The name of a feeder state.
pub open spec fn feeder_name(k: FeederKind) -> Seq<char> {
    match k {
        FeederKind::Empty => "Empty"@,
        FeederKind::Loaded => "Sheet loaded"@,
        FeederKind::Pulling => "Pulling through"@,
        FeederKind::Jam => "Jam"@,
        FeederKind::Mispick => "Mispick"@,
        FeederKind::Unknown => "Feeder"@,
    }
}

impl FeederKind {
    /// The name of this feeder state.
    pub fn label(self) -> (r: &'static str)
        ensures
            r@ == feeder_name(self),
    {
        match self {
            FeederKind::Empty => "Empty",
            FeederKind::Loaded => "Sheet loaded",
            FeederKind::Pulling => "Pulling through",
            FeederKind::Jam => "Jam",
            FeederKind::Mispick => "Mispick",
            FeederKind::Unknown => "Feeder",
        }
    }
}

/// `word` stands in `s`, the case of ASCII letters in `s` apart.
pub open spec fn says(s: Seq<char>, word: Seq<char>) -> bool {
    text::has(text::lower(s), word)
}

/// The feeder reports a sheet that can be pulled.
pub open spec fn sheet_ready(s: StatusModel) -> bool {
    &&& !says(s.adf_state, "jam"@)
    &&& !says(s.adf_state, "process"@)
    &&& says(s.adf_state, "loaded"@) || says(s.adf_state, "ready"@)
}

/// The state of the feeder that a report speaks of.
pub open spec fn feeder(s: StatusModel) -> FeederKind {
    let adf = s.adf_state;
    if says(adf, "jam"@) {
        FeederKind::Jam
    } else if says(adf, "mispick"@) || says(adf, "double"@) || says(adf, "multi"@) {
        FeederKind::Mispick
    } else if says(adf, "process"@) {
        FeederKind::Pulling
    } else if says(adf, "loaded"@) || says(adf, "ready"@) {
        FeederKind::Loaded
    } else if says(adf, "empty"@) {
        FeederKind::Empty
    } else {
        FeederKind::Unknown
    }
}

/// A reason that tells of no fault, whatever else it says.
pub open spec fn harmless(r: Seq<char>) -> bool {
    says(r, "success"@) || says(r, "none"@) || says(r, "jobcompleted"@) || says(
        r,
        "attentionrequired"@,
    )
}

/// The fault that one reported reason tells of.
pub open spec fn reason_fault(r: Seq<char>) -> Option<Seq<char>> {
    if harmless(r) {
        None
    } else if says(r, "jam"@) {
        Some("Paper jam. Clear the feeder."@)
    } else if says(r, "cover"@) || says(r, "door"@) {
        Some("Close the scanner cover."@)
    } else if says(r, "error"@) || says(r, "fail"@) || says(r, "stopped"@) {
        Some(r)
    } else {
        None
    }
}

/// The fault of the first reason that tells of one.
pub open spec fn first_fault(reasons: Seq<Seq<char>>) -> Option<Seq<char>>
    decreases reasons.len(),
{
    if reasons.len() == 0 {
        None
    } else if reason_fault(reasons[0]) is Some {
        reason_fault(reasons[0])
    } else {
        first_fault(reasons.drop_first())
    }
}

/// The fault that a report tells of: the feeder's first, then the reported reasons', then the
/// scanner's own.
pub open spec fn fault(s: StatusModel) -> Option<Seq<char>> {
    if feeder(s) == FeederKind::Jam {
        Some("Paper jam. Clear the feeder."@)
    } else if feeder(s) == FeederKind::Mispick {
        Some("Feeder mispick. Reload the sheet."@)
    } else if first_fault(s.reasons) is Some {
        first_fault(s.reasons)
    } else if says(s.state, "stopped"@) {
        Some("Scanner stopped."@)
    } else if says(s.state, "down"@) {
        Some("Scanner reported an error."@)
    } else {
        None
    }
}

fn reason_fault_text(reason: &String) -> (r: Option<String>)
    ensures
        text::text_of(r) == reason_fault(reason@),
{
    let lower = text::to_lower(reason.as_str());
    let l = lower.as_str();
    if text::contains(l, "success") || text::contains(l, "none") || text::contains(
        l,
        "jobcompleted",
    ) || text::contains(l, "attentionrequired") {
        None
    } else if text::contains(l, "jam") {
        Some("Paper jam. Clear the feeder.".to_owned())
    } else if text::contains(l, "cover") || text::contains(l, "door") {
        Some("Close the scanner cover.".to_owned())
    } else if text::contains(l, "error") || text::contains(l, "fail") || text::contains(
        l,
        "stopped",
    ) {
        Some(reason.clone())
    } else {
        None
    }
}

impl ScannerStatus {
    /// The feeder reports a sheet that can be pulled.
    pub fn paper_ready(&self) -> (r: bool)
        ensures
            r == sheet_ready(self@),
    {
        let adf = text::to_lower(self.adf_state.as_str());
        let a = adf.as_str();
        if text::contains(a, "jam") || text::contains(a, "process") {
            return false;
        }
        text::contains(a, "loaded") || text::contains(a, "ready")
    }

    /// The state of the feeder.
    pub fn feeder_kind(&self) -> (r: FeederKind)
        ensures
            r == feeder(self@),
    {
        let adf = text::to_lower(self.adf_state.as_str());
        let a = adf.as_str();
        if text::contains(a, "jam") {
            FeederKind::Jam
        } else if text::contains(a, "mispick") || text::contains(a, "double") || text::contains(
            a,
            "multi",
        ) {
            FeederKind::Mispick
        } else if text::contains(a, "process") {
            FeederKind::Pulling
        } else if text::contains(a, "loaded") || text::contains(a, "ready") {
            FeederKind::Loaded
        } else if text::contains(a, "empty") {
            FeederKind::Empty
        } else {
            FeederKind::Unknown
        }
    }

    /// The fault that this report tells of.
    pub fn fault_message(&self) -> (r: Option<String>)
        ensures
            text::text_of(r) == fault(self@),
    {
        match self.feeder_kind() {
            FeederKind::Jam => {
                return Some("Paper jam. Clear the feeder.".to_owned());
            },
            FeederKind::Mispick => {
                return Some("Feeder mispick. Reload the sheet.".to_owned());
            },
            _ => {},
        }
        let ghost all = text::texts_of(self.reasons@);
        assert(all.skip(0) =~= all);
        let mut i: usize = 0;
        while i < self.reasons.len()
            invariant
                i <= self.reasons@.len(),
                all == text::texts_of(self.reasons@),
                self@.reasons == all,
                feeder(self@) != FeederKind::Jam,
                feeder(self@) != FeederKind::Mispick,
                first_fault(all.skip(i as int)) == first_fault(all),
            decreases self.reasons@.len() - i,
        {
            assert(all.skip(i as int)[0] == self.reasons@[i as int]@);
            assert(all.skip(i as int).drop_first() =~= all.skip(i + 1));
            let found = reason_fault_text(&self.reasons[i]);
            if found.is_some() {
                return found;
            }
            i += 1;
        }
        let state = text::to_lower(self.state.as_str());
        if text::contains(state.as_str(), "stopped") {
            return Some("Scanner stopped.".to_owned());
        }
        if text::contains(state.as_str(), "down") {
            return Some("Scanner reported an error.".to_owned());
        }
        None
    }
}

/// A sheet can be pulled exactly where the feeder is loaded, or where it reports a mispick
/// together with a loaded sheet and nothing in motion.
pub proof fn ready_means_loaded(s: StatusModel)
    ensures
        feeder(s) == FeederKind::Loaded ==> sheet_ready(s),
        sheet_ready(s) ==> feeder(s) == FeederKind::Loaded || feeder(s) == FeederKind::Mispick,
        feeder(s) == FeederKind::Empty ==> !sheet_ready(s),
{
}

/// A jam or a mispick in the feeder is always told, whatever the reasons say.
pub proof fn feeder_faults_are_told(s: StatusModel)
    ensures
        feeder(s) == FeederKind::Jam ==> fault(s) == Some("Paper jam. Clear the feeder."@),
        feeder(s) == FeederKind::Mispick ==> fault(s) == Some(
            "Feeder mispick. Reload the sheet."@,
        ),
{
}

/// Reasons that are all harmless never make a fault.
pub proof fn harmless_reasons_make_no_fault(reasons: Seq<Seq<char>>)
    requires
        forall|i: int| 0 <= i < reasons.len() ==> harmless(#[trigger] reasons[i]),
    ensures
        first_fault(reasons) is None,
    decreases reasons.len(),
{
    if reasons.len() > 0 {
        let rest = reasons.drop_first();
        assert forall|i: int| 0 <= i < rest.len() implies harmless(#[trigger] rest[i]) by {
            assert(rest[i] == reasons[i + 1]);
        }
        harmless_reasons_make_no_fault(rest);
    }
}

/// What the feeder says is heard in whatever case and company it stands.
pub proof fn words_are_heard_anywhere(a: Seq<char>, spoken: Seq<char>, b: Seq<char>)
    ensures
        says(a + spoken + b, text::lower(spoken)),
{
    let whole = text::lower(a + spoken + b);
    let n = a.len() as int;
    assert(whole.subrange(n, n + spoken.len()) =~= text::lower(spoken));
    assert(text::matches_at(whole, text::lower(spoken), n));
}

/// A jam outweighs everything that a feeder says, then a mispick, then motion, then a loaded
/// sheet; only a feeder that says nothing of these is empty.
pub proof fn the_feeder_is_believed(s: StatusModel)
    ensures
        feeder(s) == FeederKind::Jam <==> says(s.adf_state, "jam"@),
        feeder(s) == FeederKind::Mispick <==> !says(s.adf_state, "jam"@) && (says(
            s.adf_state,
            "mispick"@,
        ) || says(s.adf_state, "double"@) || says(s.adf_state, "multi"@)),
        feeder(s) == FeederKind::Empty ==> says(s.adf_state, "empty"@) && !says(
            s.adf_state,
            "loaded"@,
        ) && !says(s.adf_state, "ready"@) && !says(s.adf_state, "process"@),
        feeder(s) == FeederKind::Loaded ==> says(s.adf_state, "loaded"@) || says(
            s.adf_state,
            "ready"@,
        ),
        feeder(s) == FeederKind::Pulling ==> says(s.adf_state, "process"@),
        says(s.adf_state, "process"@) ==> !sheet_ready(s),
        says(s.adf_state, "jam"@) ==> !sheet_ready(s),
        says(s.adf_state, "loaded"@) && feeder(s) != FeederKind::Jam && !says(
            s.adf_state,
            "process"@,
        ) ==> sheet_ready(s),
        says(s.adf_state, "ready"@) && feeder(s) != FeederKind::Jam && !says(
            s.adf_state,
            "process"@,
        ) ==> sheet_ready(s),
        feeder(s) == FeederKind::Unknown ==> !says(s.adf_state, "empty"@) && !sheet_ready(s),
{
}

/// The first of the reasons that tells of a fault is told, however many come before and after.
pub proof fn the_first_fault_is_told(
    before: Seq<Seq<char>>,
    reason: Seq<char>,
    after: Seq<Seq<char>>,
)
    requires
        forall|i: int| 0 <= i < before.len() ==> reason_fault(#[trigger] before[i]) is None,
        reason_fault(reason) is Some,
    ensures
        first_fault(before + seq![reason] + after) == reason_fault(reason),
        first_fault(before) is None,
    decreases before.len(),
{
    let all = before + seq![reason] + after;
    if before.len() > 0 {
        let t = before.drop_first();
        assert forall|i: int| 0 <= i < t.len() implies reason_fault(#[trigger] t[i]) is None by {
            assert(t[i] == before[i + 1]);
        }
        the_first_fault_is_told(t, reason, after);
        assert(all[0] == before[0]);
        assert(all.drop_first() =~= t + seq![reason] + after);
    } else {
        assert(all[0] == reason);
    }
}

/// A reason that is not harmless is a fault where it tells of a jam, an open cover or an error, and
/// an error is told in the words of the scanner.
pub proof fn reasons_are_told(r: Seq<char>)
    requires
        !harmless(r),
    ensures
        says(r, "jam"@) ==> reason_fault(r) == Some("Paper jam. Clear the feeder."@),
        !says(r, "jam"@) && (says(r, "cover"@) || says(r, "door"@)) ==> reason_fault(r) == Some(
            "Close the scanner cover."@,
        ),
        !says(r, "jam"@) && !says(r, "cover"@) && !says(r, "door"@) && (says(r, "error"@) || says(
            r,
            "fail"@,
        ) || says(r, "stopped"@)) ==> reason_fault(r) == Some(r),
        !says(r, "jam"@) && !says(r, "cover"@) && !says(r, "door"@) && !says(r, "error"@) && !says(
            r,
            "fail"@,
        ) && !says(r, "stopped"@) ==> reason_fault(r) is None,
{
}

/// Where the feeder is in order, the reasons are told, and where they tell of nothing, a scanner
/// that stopped or is down.
pub proof fn faults_are_told_in_order(s: StatusModel)
    requires
        feeder(s) != FeederKind::Jam,
        feeder(s) != FeederKind::Mispick,
    ensures
        first_fault(s.reasons) is Some ==> fault(s) == first_fault(s.reasons),
        first_fault(s.reasons) is None && says(s.state, "stopped"@) ==> fault(s) == Some(
            "Scanner stopped."@,
        ),
        first_fault(s.reasons) is None && !says(s.state, "stopped"@) && says(s.state, "down"@)
            ==> fault(s) == Some("Scanner reported an error."@),
        first_fault(s.reasons) is None && !says(s.state, "stopped"@) && !says(s.state, "down"@)
            ==> fault(s) is None,
{
}

/// A reason that tells of success, or of nothing, makes no fault, whatever else it tells.
pub proof fn good_news_is_no_fault(r: Seq<char>)
    ensures
        says(r, "success"@) || says(r, "none"@) || says(r, "jobcompleted"@) || says(
            r,
            "attentionrequired"@,
        ) ==> reason_fault(r) is None && harmless(r),
{
}

/// What the feeder does is told in words.
pub proof fn feeders_are_told_in_words(k: FeederKind)
    ensures
        k == FeederKind::Empty ==> feeder_name(k) == "Empty"@,
        k == FeederKind::Loaded ==> feeder_name(k) == "Sheet loaded"@,
        k == FeederKind::Pulling ==> feeder_name(k) == "Pulling through"@,
        k == FeederKind::Jam ==> feeder_name(k) == "Jam"@,
        k == FeederKind::Mispick ==> feeder_name(k) == "Mispick"@,
        k == FeederKind::Unknown ==> feeder_name(k) == "Feeder"@,
{
}

} // verus!
