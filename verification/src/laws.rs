//! What holds of the state whatever news comes in.

use vstd::prelude::*;

use crate::number;
use crate::scanner;
use crate::scanner::{AddrModel, ScannerModel, Transport, TransportPref};
use crate::state;
use crate::state::{ConnectionState, StateModel};
use crate::text;

verus! {

/// No two scanners of a list have the same key.
pub open spec fn distinct(list: Seq<ScannerModel>) -> bool {
    forall|i: int, j: int|
        #![trigger list[i], list[j]]
        0 <= i < j < list.len() ==> scanner::key(list[i]) != scanner::key(list[j])
}

/// No scanner is listed twice, and every page has its text.
pub open spec fn tidy(m: StateModel) -> bool {
    &&& distinct(m.discovered)
    &&& m.pages.len() == m.page_texts.len()
}

/// Some scanner of a list has key `k`.
pub open spec fn lists(list: Seq<ScannerModel>, k: Seq<char>) -> bool {
    exists|i: int| 0 <= i < list.len() && scanner::key(#[trigger] list[i]) == k
}

proof fn lemma_place(list: Seq<ScannerModel>, k: Seq<char>)
    ensures
        match state::place_of(list, k) {
            Some(i) => 0 <= i < list.len() && scanner::key(list[i]) == k,
            None => forall|j: int|
                0 <= j < list.len() ==> scanner::key(#[trigger] list[j]) != k,
        },
    decreases list.len(),
{
    if list.len() > 0 {
        let t = list.drop_last();
        lemma_place(t, k);
        assert forall|j: int| 0 <= j < t.len() implies #[trigger] list[j] == t[j] by {}
    }
}

proof fn lemma_members(list: Seq<ScannerModel>, p: spec_fn(ScannerModel) -> bool)
    ensures
        forall|x: ScannerModel| #[trigger]
            list.filter(p).contains(x) <==> list.contains(x) && p(x),
    decreases list.len(),
{
    reveal(Seq::filter);
    let f = list.filter(p);
    if list.len() > 0 {
        let t = list.drop_last();
        lemma_members(t, p);
        let ft = t.filter(p);
        assert forall|x: ScannerModel| #[trigger] f.contains(x) <==> list.contains(x) && p(x) by {
            if f.contains(x) {
                let i = choose|i: int| 0 <= i < f.len() && f[i] == x;
                if i < ft.len() {
                    assert(ft[i] == x);
                    assert(ft.contains(x));
                    let j = choose|j: int| 0 <= j < t.len() && t[j] == x;
                    assert(list[j] == x);
                } else {
                    assert(list[list.len() - 1] == x);
                }
            }
            if list.contains(x) && p(x) {
                let j = choose|j: int| 0 <= j < list.len() && list[j] == x;
                if j < t.len() {
                    assert(t[j] == x);
                    assert(ft.contains(x));
                    let i = choose|i: int| 0 <= i < ft.len() && ft[i] == x;
                    assert(f[i] == x);
                } else {
                    assert(f[f.len() - 1] == x);
                }
            }
        }
    } else {
        assert(f =~= Seq::empty());
    }
}

proof fn lemma_filter_distinct(list: Seq<ScannerModel>, p: spec_fn(ScannerModel) -> bool)
    requires
        distinct(list),
    ensures
        distinct(list.filter(p)),
    decreases list.len(),
{
    reveal(Seq::filter);
    if list.len() > 0 {
        let t = list.drop_last();
        assert forall|i: int, j: int|
            #![trigger t[i], t[j]]
            0 <= i < j < t.len() implies scanner::key(t[i]) != scanner::key(t[j]) by {
            assert(t[i] == list[i] && t[j] == list[j]);
        }
        lemma_filter_distinct(t, p);
        lemma_members(t, p);
        let ft = t.filter(p);
        let f = list.filter(p);
        assert forall|i: int, j: int|
            #![trigger f[i], f[j]]
            0 <= i < j < f.len() implies scanner::key(f[i]) != scanner::key(f[j]) by {
            assert(f[i] == ft[i]);
            if j < ft.len() {
                assert(f[j] == ft[j]);
            } else {
                assert(ft.contains(ft[i]));
                let k = choose|k: int| 0 <= k < t.len() && t[k] == ft[i];
                assert(list[k] == f[i]);
                assert(list[list.len() - 1] == f[j]);
            }
        }
    }
}

/// The state in which the application starts is tidy.
pub proof fn start_is_tidy(preferred: Option<Seq<char>>)
    ensures
        tidy(state::start_state(preferred)),
{
}

proof fn lemma_with_scanner_distinct(list: Seq<ScannerModel>, s: ScannerModel)
    requires
        distinct(list),
    ensures
        distinct(state::with_scanner(list, s)),
        lists(state::with_scanner(list, s), scanner::key(s)),
{
    let k = scanner::key(s);
    lemma_place(list, k);
    let r = state::with_scanner(list, s);
    match state::place_of(list, k) {
        Some(i) => {
            assert(scanner::key(r[i]) == k);
            assert forall|a: int, b: int|
                #![trigger r[a], r[b]]
                0 <= a < b < r.len() implies scanner::key(r[a]) != scanner::key(r[b]) by {
                assert(scanner::key(r[a]) == scanner::key(list[a]));
                assert(scanner::key(r[b]) == scanner::key(list[b]));
            }
        },
        None => {
            assert(r[r.len() - 1] == s);
        },
    }
}

/// The loss of the scanner in use keeps the state tidy.
pub proof fn a_loss_keeps_the_state_tidy(m: StateModel, reason: Seq<char>)
    requires
        tidy(m),
    ensures
        tidy(state::disconnected(m, reason)),
{
    if m.scanner is Some {
        let cur = scanner::key(m.scanner->0);
        lemma_filter_distinct(m.discovered, |x: ScannerModel| scanner::key(x) != cur);
    }
}

/// A choice of the user keeps the state tidy.
pub proof fn a_choice_keeps_the_state_tidy(m: StateModel, k: Seq<char>, pref: TransportPref)
    requires
        tidy(m),
    ensures
        tidy(state::selected(m, k)),
        tidy(state::with_transport(m, pref)),
{
}

/// Whatever news of scanners comes in, no scanner is listed twice and every page keeps its text.
pub proof fn news_keeps_the_state_tidy(
    m: StateModel,
    s: ScannerModel,
    k: Seq<char>,
    dir: int,
    via: Transport,
    pref: TransportPref,
    reason: Seq<char>,
)
    requires
        tidy(m),
    ensures
        tidy(state::offered(m, s)),
        tidy(state::selected(m, k)),
        tidy(state::cycled(m, dir)),
        tidy(state::without_via(m, via, reason)),
        tidy(state::disconnected(m, reason)),
        tidy(state::with_transport(m, pref)),
{
    lemma_with_scanner_distinct(m.discovered, s);
    lemma_filter_distinct(m.discovered, |x: ScannerModel| x.via != via);
    a_loss_keeps_the_state_tidy(m, reason);
    a_choice_keeps_the_state_tidy(m, k, pref);
}

/// A scanner over a wanted transport is in reach once it was offered; one over another transport
/// changes nothing.
pub proof fn an_offer_is_noted(m: StateModel, s: ScannerModel)
    requires
        tidy(m),
    ensures
        scanner::wanted(m.transport_pref, s.via) ==> lists(
            state::offered(m, s).discovered,
            scanner::key(s),
        ),
        !scanner::wanted(m.transport_pref, s.via) ==> state::offered(m, s) == m,
{
    lemma_with_scanner_distinct(m.discovered, s);
}

/// While a scan is running, no news of a scanner and no choice changes which scanner is in use;
/// news of another scanner changes the list alone, and no scanner is put in use.
pub proof fn a_running_scan_keeps_its_scanner(
    m: StateModel,
    s: ScannerModel,
    k: Seq<char>,
    dir: int,
)
    requires
        state::busy(m),
    ensures
        match (m.scanner, state::offered(m, s).scanner) {
            (Some(a), Some(b)) => scanner::key(a) == scanner::key(b),
            (None, None) => true,
            _ => false,
        },
        !(m.scanner is Some && scanner::key(m.scanner->0) == scanner::key(s)) ==> state::offered(
            m,
            s,
        ) == (StateModel { discovered: state::offered(m, s).discovered, ..m }),
        !state::takes(m, s),
        state::selected(m, k) == m,
        !state::selects(m, k),
        state::cycled(m, dir) == m,
        !state::cycles(m, dir),
{
}

proof fn lemma_chosen(list: Seq<ScannerModel>, pref: TransportPref, k: Seq<char>)
    ensures
        match state::chosen(list, pref, k) {
            Some(s) => scanner::key(s) == k && scanner::wanted(pref, s.via) && exists|i: int|
                0 <= i < list.len() && list[i] == s,
            None => forall|i: int|
                0 <= i < list.len() ==> !(scanner::key(#[trigger] list[i]) == k
                    && scanner::wanted(pref, list[i].via)),
        },
    decreases list.len(),
{
    if list.len() > 0 {
        let t = list.drop_last();
        lemma_chosen(t, pref, k);
        assert forall|i: int| 0 <= i < t.len() implies #[trigger] list[i] == t[i] by {}
        match state::chosen(t, pref, k) {
            Some(s) => {
                let i = choose|i: int| 0 <= i < t.len() && t[i] == s;
                assert(list[i] == s);
            },
            None => {
                assert(list[list.len() - 1] == list.last());
            },
        }
    }
}

/// The scanner that the user chose stays in use, whatever other scanner is discovered.
pub proof fn a_choice_outlasts_offers(m: StateModel, k: Seq<char>, s: ScannerModel)
    requires
        state::selects(m, k),
        scanner::key(s) != k,
    ensures
        state::selected(m, k).scanner is Some,
        scanner::key(state::selected(m, k).scanner->0) == k,
        state::offered(state::selected(m, k), s).scanner == state::selected(m, k).scanner,
{
    lemma_chosen(m.discovered, m.transport_pref, k);
    let m1 = state::selected(m, k);
    let known = StateModel { discovered: state::with_scanner(m1.discovered, s), ..m1 };
    let got = state::chosen(m.discovered, m.transport_pref, k)->0;
    let i = choose|i: int| 0 <= i < m.discovered.len() && m.discovered[i] == got;
    lemma_place(m1.discovered, scanner::key(s));
    assert(known.discovered[i] == got);
    assert(state::preferred_live(known));
}

/// After the user chose transports, the scanner in use is reached over one of them.
pub proof fn transports_are_kept_to(m: StateModel, pref: TransportPref)
    ensures
        state::with_transport(m, pref).scanner matches Some(s) ==> scanner::wanted(pref, s.via),
{
    let m1 = state::released(StateModel { transport_pref: pref, ..m });
    let list = state::visible(m1);
    lemma_visible(m1);
    if list.len() > 0 {
        lemma_best(list);
        if m1.preferred_id is Some {
            lemma_place(list, m1.preferred_id->0);
        }
    }
}

proof fn lemma_best(list: Seq<ScannerModel>)
    requires
        list.len() > 0,
    ensures
        list.contains(state::best(list)),
        forall|i: int|
            0 <= i < list.len() ==> scanner::score(#[trigger] list[i]) <= scanner::score(
                state::best(list),
            ),
    decreases list.len(),
{
    if list.len() == 1 {
        assert(list[0] == state::best(list));
    } else {
        let t = list.drop_last();
        lemma_best(t);
        let b = state::best(t);
        let j = choose|j: int| 0 <= j < t.len() && t[j] == b;
        assert(list[j] == b);
        assert(list[list.len() - 1] == list.last());
        assert forall|i: int| 0 <= i < list.len() implies scanner::score(#[trigger] list[i])
            <= scanner::score(state::best(list)) by {
            if i < t.len() {
                assert(list[i] == t[i]);
            }
        }
    }
}

/// A scanner found without a choice of the user is in reach, wanted, and none has a better score;
/// where one is in reach, one is found.
pub proof fn the_best_scanner_is_found(m: StateModel)
    requires
        m.scanner is None,
        m.preferred_id is None,
    ensures
        state::auto_connected(m).scanner is Some <==> state::visible(m).len() > 0,
        state::auto_connected(m).scanner matches Some(b) ==> {
            &&& scanner::wanted(m.transport_pref, b.via)
            &&& m.discovered.contains(b)
            &&& forall|i: int|
                0 <= i < m.discovered.len() && scanner::wanted(
                    m.transport_pref,
                    (#[trigger] m.discovered[i]).via,
                ) ==> scanner::score(m.discovered[i]) <= scanner::score(b)
        },
{
    let list = state::visible(m);
    lemma_visible(m);
    if list.len() > 0 {
        lemma_best(list);
        let b = state::best(list);
        assert forall|i: int|
            0 <= i < m.discovered.len() && scanner::wanted(
                m.transport_pref,
                (#[trigger] m.discovered[i]).via,
            ) implies scanner::score(m.discovered[i]) <= scanner::score(b) by {
            assert(m.discovered.contains(m.discovered[i]));
            assert(list.contains(m.discovered[i]));
        }
    }
}

/// A USB scanner has a better score than any Wi-Fi scanner.
pub proof fn usb_is_better_than_wifi(u: ScannerModel, w: ScannerModel)
    requires
        u.via == Transport::Usb,
        w.via == Transport::Wifi,
    ensures
        scanner::score(u) > scanner::score(w),
{
}

/// A scanner that was lost is no longer in reach. Where no scan waits, another scanner in reach
/// takes its place; else none is in use and the reason is shown.
pub proof fn a_lost_scanner_is_gone(m: StateModel, reason: Seq<char>)
    requires
        m.scanner is Some,
    ensures
        !lists(state::disconnected(m, reason).discovered, scanner::key(m.scanner->0)),
        state::disconnected(m, reason).scanner is None ==> {
            &&& state::disconnected(m, reason).connection == ConnectionState::AwaitingConnection
            &&& state::disconnected(m, reason).status_line == reason
        },
        state::disconnected(m, reason).scanner matches Some(s) ==> scanner::key(s) != scanner::key(
            m.scanner->0,
        ),
        !state::busy(m) && state::visible(state::disconnected(m, reason)).len() > 0
            ==> state::disconnected(m, reason).scanner is Some,
{
    let cur = scanner::key(m.scanner->0);
    let left = StateModel { discovered: state::not_keyed(m.discovered, cur), ..m };
    lemma_members(m.discovered, |s: ScannerModel| scanner::key(s) != cur);
    assert forall|i: int| 0 <= i < left.discovered.len() implies scanner::key(
        #[trigger] left.discovered[i],
    ) != cur by {
        assert(left.discovered.contains(left.discovered[i]));
    }
    let free = state::released(left);
    let list = state::visible(free);
    lemma_visible(free);
    assert forall|x: ScannerModel| #[trigger] list.contains(x) implies scanner::key(x) != cur by {
        let q = choose|q: int| 0 <= q < free.discovered.len() && free.discovered[q] == x;
        assert(scanner::key(left.discovered[q]) != cur);
    }
    if list.len() > 0 {
        lemma_best(list);
        if free.preferred_id is Some {
            lemma_place(list, free.preferred_id->0);
            match state::place_of(list, free.preferred_id->0) {
                Some(p) => {
                    assert(list.contains(list[p]));
                },
                None => {},
            }
        }
    }
}

/// When a transport is lost, no scanner over it is in reach or in use.
pub proof fn a_lost_transport_is_gone(m: StateModel, via: Transport, reason: Seq<char>)
    ensures
        ({
            let end = state::without_via(m, via, reason);
            &&& forall|i: int|
                0 <= i < end.discovered.len() ==> (#[trigger] end.discovered[i]).via != via
            &&& end.scanner matches Some(s) ==> s.via != via
        }),
{
    let left = StateModel { discovered: state::not_over(m.discovered, via), ..m };
    lemma_members(m.discovered, |s: ScannerModel| s.via != via);
    assert forall|i: int| 0 <= i < left.discovered.len() implies (
    #[trigger] left.discovered[i]).via != via by {
        assert(left.discovered.contains(left.discovered[i]));
    }
    let free = state::released(left);
    let list = state::visible(free);
    lemma_visible(free);
    assert forall|x: ScannerModel| #[trigger] list.contains(x) implies x.via != via by {
        let q = choose|q: int| 0 <= q < free.discovered.len() && free.discovered[q] == x;
        assert(left.discovered[q].via != via);
    }
    if list.len() > 0 {
        lemma_best(list);
        if free.preferred_id is Some {
            lemma_place(list, free.preferred_id->0);
            match state::place_of(list, free.preferred_id->0) {
                Some(p) => {
                    assert(list.contains(list[p]));
                },
                None => {},
            }
        }
    }
}

proof fn lemma_place_unique(list: Seq<ScannerModel>, i: int)
    requires
        distinct(list),
        0 <= i < list.len(),
    ensures
        state::place_of(list, scanner::key(list[i])) == Some(i),
{
    lemma_place(list, scanner::key(list[i]));
}

proof fn lemma_turn(at: int, n: int, dir: int)
    requires
        2 <= n,
        0 <= at < n,
    ensures
        0 <= state::cycle_next(at, n, dir) < n,
        state::cycle_next(state::cycle_next(at, n, 1), n, -1) == at,
        state::cycle_next(state::cycle_next(at, n, -1), n, 1) == at,
{
    broadcast use vstd::arithmetic::div_mod::group_mod_properties;

    vstd::arithmetic::div_mod::lemma_small_mod(at as nat, n as nat);
    if at + 1 < n {
        vstd::arithmetic::div_mod::lemma_small_mod((at + 1) as nat, n as nat);
    }
    if at > 0 {
        vstd::arithmetic::div_mod::lemma_small_mod((at - 1) as nat, n as nat);
        vstd::arithmetic::div_mod::lemma_mod_add_multiples_vanish(at - 1, n);
    } else {
        vstd::arithmetic::div_mod::lemma_small_mod((n - 1) as nat, n as nat);
    }
    vstd::arithmetic::div_mod::lemma_mod_add_multiples_vanish(at, n);
    vstd::arithmetic::div_mod::lemma_mod_self_0(n);
}

proof fn lemma_cycled(m: StateModel, dir: int)
    requires
        distinct(state::visible(m)),
        !state::busy(m),
        state::visible(m).len() >= 2,
        0 <= state::cycle_start(m) < state::visible(m).len(),
    ensures
        ({
            let m1 = state::cycled(m, dir);
            let n = state::visible(m).len() as int;
            &&& !state::busy(m1)
            &&& state::visible(m1) == state::visible(m)
            &&& state::cycle_start(m1) == state::cycle_next(state::cycle_start(m), n, dir)
            &&& m1.scanner is Some
            &&& scanner::key(m1.scanner->0) == scanner::key(
                state::visible(m)[state::cycle_next(state::cycle_start(m), n, dir)],
            )
        }),
{
    let list = state::visible(m);
    let n = list.len() as int;
    lemma_visible(m);
    lemma_turn(state::cycle_start(m), n, dir);
    let next = state::cycle_next(state::cycle_start(m), n, dir);
    let k = scanner::key(list[next]);
    lemma_chosen(m.discovered, m.transport_pref, k);
    assert(list.contains(list[next]));
    let q = choose|q: int| 0 <= q < m.discovered.len() && m.discovered[q] == list[next];
    assert(scanner::wanted(m.transport_pref, m.discovered[q].via));
    assert(state::chosen(m.discovered, m.transport_pref, k) is Some);
    lemma_place_unique(list, next);
}

/// Moving the choice on and then back, or back and then on, comes to the scanner in use again,
/// where that one is among the scanners shown.
pub proof fn cycling_there_and_back(m: StateModel)
    requires
        distinct(state::visible(m)),
        m.scanner is Some,
        lists(state::visible(m), scanner::key(m.scanner->0)),
    ensures
        ({
            let there = state::cycled(state::cycled(m, 1), -1).scanner;
            let back = state::cycled(state::cycled(m, -1), 1).scanner;
            &&& there is Some && scanner::key(there->0) == scanner::key(m.scanner->0)
            &&& back is Some && scanner::key(back->0) == scanner::key(m.scanner->0)
        }),
{
    let list = state::visible(m);
    lemma_place(list, scanner::key(m.scanner->0));
    if !state::busy(m) && list.len() >= 2 {
        lemma_cycled(m, 1);
        lemma_cycled(state::cycled(m, 1), -1);
        lemma_cycled(m, -1);
        lemma_cycled(state::cycled(m, -1), 1);
        lemma_turn(state::cycle_start(m), list.len() as int, 1);
    }
}

/// The state after the choice moved on `n` times.
pub open spec fn cycled_times(m: StateModel, n: nat) -> StateModel
    decreases n,
{
    if n == 0 {
        m
    } else {
        state::cycled(cycled_times(m, (n - 1) as nat), 1)
    }
}

proof fn lemma_cycled_times(m: StateModel, n: nat)
    requires
        distinct(state::visible(m)),
        !state::busy(m),
        state::visible(m).len() >= 2,
    ensures
        ({
            let end = cycled_times(m, n);
            let list = state::visible(m);
            let at = (state::cycle_start(m) + n) % (list.len() as int);
            &&& !state::busy(end)
            &&& state::visible(end) == list
            &&& 0 <= at < list.len()
            &&& state::cycle_start(end) == at
            &&& n > 0 ==> end.scanner is Some && scanner::key(end.scanner->0) == scanner::key(
                list[at],
            )
        }),
    decreases n,
{
    let list = state::visible(m);
    let len = list.len() as int;
    if m.scanner is Some {
        lemma_place(list, scanner::key(m.scanner->0));
    }
    let start = state::cycle_start(m);
    if n == 0 {
        vstd::arithmetic::div_mod::lemma_small_mod(start as nat, len as nat);
    } else {
        let before = (n - 1) as nat;
        lemma_cycled_times(m, before);
        lemma_cycled(cycled_times(m, before), 1);
        vstd::arithmetic::div_mod::lemma_add_mod_noop(start + before, 1, len);
        vstd::arithmetic::div_mod::lemma_small_mod(1, len as nat);
        vstd::arithmetic::div_mod::lemma_mod_bound(start + n, len);
    }
}

/// Moving the choice on comes to every scanner shown, in at most one turn.
pub proof fn every_scanner_can_be_cycled_to(m: StateModel, i: int) -> (n: nat)
    requires
        distinct(state::visible(m)),
        !state::busy(m),
        state::visible(m).len() >= 2,
        0 <= i < state::visible(m).len(),
    ensures
        1 <= n <= state::visible(m).len(),
        cycled_times(m, n).scanner is Some,
        scanner::key(cycled_times(m, n).scanner->0) == scanner::key(state::visible(m)[i]),
{
    let list = state::visible(m);
    let len = list.len() as int;
    if m.scanner is Some {
        lemma_place(list, scanner::key(m.scanner->0));
    }
    let start = state::cycle_start(m);
    let n: nat = (if i > start {
        i - start
    } else {
        i - start + len
    }) as nat;
    lemma_cycled_times(m, n);
    if i > start {
        vstd::arithmetic::div_mod::lemma_small_mod(i as nat, len as nat);
    } else {
        vstd::arithmetic::div_mod::lemma_mod_add_multiples_vanish(i, len);
        vstd::arithmetic::div_mod::lemma_small_mod(i as nat, len as nat);
    }
    n
}

/// No scanner comes twice while the choice moves on by one turn.
pub proof fn a_turn_comes_to_none_twice(m: StateModel, a: nat, b: nat)
    requires
        distinct(state::visible(m)),
        !state::busy(m),
        state::visible(m).len() >= 2,
        1 <= a < b <= state::visible(m).len(),
    ensures
        cycled_times(m, a).scanner is Some,
        cycled_times(m, b).scanner is Some,
        scanner::key(cycled_times(m, a).scanner->0) != scanner::key(
            cycled_times(m, b).scanner->0,
        ),
{
    let list = state::visible(m);
    let len = list.len() as int;
    if m.scanner is Some {
        lemma_place(list, scanner::key(m.scanner->0));
    }
    let start = state::cycle_start(m);
    lemma_cycled_times(m, a);
    lemma_cycled_times(m, b);
    let i = (start + a) % len;
    let j = (start + b) % len;
    assert(i != j) by {
        if i == j {
            vstd::arithmetic::div_mod::lemma_mod_equivalence(start + b, start + a, len);
            vstd::arithmetic::div_mod::lemma_small_mod((b - a) as nat, len as nat);
        }
    }
    if i < j {
        assert(scanner::key(list[i]) != scanner::key(list[j]));
    } else {
        assert(scanner::key(list[j]) != scanner::key(list[i]));
    }
}

proof fn lemma_stays(m: StateModel, n: nat)
    requires
        state::busy(m) || state::visible(m).len() < 2,
    ensures
        cycled_times(m, n) == m,
    decreases n,
{
    if n > 0 {
        lemma_stays(m, (n - 1) as nat);
    }
}

/// A full turn ends at the scanner at which it began, where that one is among the scanners shown.
pub proof fn a_full_turn_ends_where_it_began(m: StateModel)
    requires
        distinct(state::visible(m)),
        m.scanner is Some,
        lists(state::visible(m), scanner::key(m.scanner->0)),
    ensures
        ({
            let end = cycled_times(m, state::visible(m).len()).scanner;
            end is Some && scanner::key(end->0) == scanner::key(m.scanner->0)
        }),
{
    let list = state::visible(m);
    lemma_place(list, scanner::key(m.scanner->0));
    if state::busy(m) || list.len() < 2 {
        lemma_stays(m, list.len());
    } else {
        let start = state::cycle_start(m);
        lemma_cycled_times(m, list.len());
        vstd::arithmetic::div_mod::lemma_mod_add_multiples_vanish(start, list.len() as int);
        vstd::arithmetic::div_mod::lemma_small_mod(start as nat, list.len());
    }
}

/// A tidy state shows no scanner twice.
pub proof fn a_tidy_state_shows_none_twice(m: StateModel)
    requires
        tidy(m),
    ensures
        distinct(state::visible(m)),
{
    lemma_filter_distinct(
        m.discovered,
        |s: ScannerModel| scanner::wanted(m.transport_pref, s.via),
    );
}

proof fn lemma_visible(m: StateModel)
    ensures
        forall|x: ScannerModel| #[trigger]
            state::visible(m).contains(x) <==> m.discovered.contains(x) && scanner::wanted(
                m.transport_pref,
                x.via,
            ),
        forall|i: int|
            0 <= i < state::visible(m).len() ==> scanner::wanted(
                m.transport_pref,
                (#[trigger] state::visible(m)[i]).via,
            ),
{
    lemma_members(m.discovered, |s: ScannerModel| scanner::wanted(m.transport_pref, s.via));
    let list = state::visible(m);
    assert forall|i: int| 0 <= i < list.len() implies scanner::wanted(
        m.transport_pref,
        (#[trigger] list[i]).via,
    ) by {
        assert(list.contains(list[i]));
    }
}

proof fn lemma_nothing_to_trim(s: Seq<char>)
    requires
        s.len() > 0,
        !text::is_white(s[0]),
        !text::is_white(s.last()),
    ensures
        text::trimmed(s) == s,
{
}

/// A choice that is written to a file is read back as it was, where white space does not stand at
/// its ends.
pub proof fn a_choice_is_remembered(k: Seq<char>)
    requires
        k.len() > 0,
        !text::is_white(k[0]),
        !text::is_white(k.last()),
    ensures
        state::remembered(Some(k)) == Some(k),
{
    lemma_nothing_to_trim(k);
}

proof fn lemma_decimal_ends(n: nat)
    ensures
        number::decimal(n).len() > 0,
        !text::is_white(number::decimal(n).last()),
{
    assert(number::decimal(n).last() == number::digit_char((n % 10) as int));
}

/// The choice of a network scanner, of one on a local port or of a SANE device outlasts a restart.
pub proof fn a_chosen_scanner_is_remembered(s: ScannerModel)
    requires
        s.via == Transport::Wifi ==> s.ip is V4,
        s.via == Transport::Usb ==> (s.sane_device matches Some(d) ==> d.len() > 0
            && !text::is_white(d.last())),
    ensures
        state::remembered(Some(scanner::key(s))) == Some(scanner::key(s)),
{
    reveal_strlit("wifi:");
    reveal_strlit("usb:");
    reveal_strlit("usb:ipp:");
    let k = scanner::key(s);
    match s.via {
        Transport::Wifi => {
            if let AddrModel::V4(a, b, c, d) = s.ip {
                lemma_decimal_ends(d as nat);
                assert(k.last() == number::decimal(d as nat).last());
                assert(k[0] == 'w');
            }
        },
        Transport::Usb => {
            lemma_decimal_ends(s.port as nat);
            assert(k[0] == 'u');
            match s.sane_device {
                Some(d) => {
                    assert(k.last() == d.last());
                },
                None => {
                    assert(k.last() == number::decimal(s.port as nat).last());
                },
            }
        },
    }
    a_choice_is_remembered(k);
}

/// A choice of transports takes another scanner exactly where the one in use does not fit it and
/// one that fits is in reach; that one is then used.
pub proof fn another_transport_takes_another_scanner(m: StateModel, pref: TransportPref)
    ensures
        state::switches(m, pref) ==> (m.scanner matches Some(s) && !scanner::wanted(pref, s.via)),
        (m.scanner matches Some(s) && !scanner::wanted(pref, s.via)) ==> {
            let n = state::with_transport(m, pref);
            let list = state::visible_in(m.discovered, pref);
            &&& state::switches(m, pref) <==> list.len() > 0
            &&& n.scanner is Some <==> list.len() > 0
            &&& n.scanner matches Some(t) ==> list.contains(t)
            &&& n.scanner is None ==> n.status is None && n.connection
                == ConnectionState::AwaitingConnection
        },
{
    let next = state::released(StateModel { transport_pref: pref, ..m });
    let list = state::visible(next);
    if list.len() > 0 {
        lemma_best(list);
        if next.preferred_id is Some {
            lemma_place(list, next.preferred_id->0);
        }
    }
}

/// Where the chosen scanner is not in reach, the best that is shown is used.
pub proof fn the_best_scanner_stands_in(m: StateModel, k: Seq<char>)
    requires
        state::visible(m).len() > 0,
        m.preferred_id == Some(k),
        forall|i: int|
            0 <= i < state::visible(m).len() ==> scanner::key(#[trigger] state::visible(m)[i]) != k,
    ensures
        state::auto_connected(m).scanner matches Some(s) && state::visible(m).contains(s)
            && forall|i: int|
            0 <= i < state::visible(m).len() ==> scanner::score(#[trigger] state::visible(m)[i])
                <= scanner::score(s),
{
    lemma_best(state::visible(m));
    lemma_place(state::visible(m), k);
}

/// The user is told which transports are used, or on which a scanner is looked for.
pub proof fn the_transports_are_told(pref: TransportPref)
    ensures
        pref == TransportPref::Usb ==> state::using_line(pref) == "Using USB."@
            && state::looking_line(pref) == "Looking for your scanner on USB…"@,
        pref == TransportPref::Wifi ==> state::using_line(pref) == "Using Wi-Fi."@
            && state::looking_line(pref) == "Looking for your scanner on Wi-Fi…"@,
        pref == TransportPref::Auto ==> state::using_line(pref) == "Using Wi-Fi or USB."@
            && state::looking_line(pref) == "Looking for your scanner…"@,
{
}

} // verus!
