//! The search for scanners on the network: by the services that announce themselves, and by asking
//! the addresses of the local network.

use std::time::Instant;

use vstd::prelude::*;

use crate::laws;
use crate::number;
use crate::scanner;
use crate::scanner::{AddrModel, HostAddr, ScannerInfo, ScannerModel, Transport};
use crate::state;
use crate::state::{AppState, ConnectionState, StateModel};
use crate::text;
use crate::text::Strip;

verus! {

/// The service type under which scanners announce themselves.
pub const USCAN: &'static str = "_uscan._tcp.local.";

/// The name of a scanner that does not tell its own.
pub const DEFAULT_NAME: &'static str = "Brother DS-940DW";

/// A service that announced itself, with the two properties of a scanner that are read: its model
/// (`ty`) and the root of its URLs (`rs`).
#[derive(Debug)]
pub struct ServiceRecord {
    pub fullname: String,
    pub hostname: String,
    pub service_type: String,
    pub port: u16,
    pub addresses: Vec<HostAddr>,
    pub ty: Option<String>,
    pub rs: Option<String>,
}

/// What a `ServiceRecord` says.
#[verifier::ext_equal]
pub struct RecordModel {
    pub fullname: Seq<char>,
    pub hostname: Seq<char>,
    pub service_type: Seq<char>,
    pub port: u16,
    pub addresses: Seq<AddrModel>,
    pub ty: Option<Seq<char>>,
    pub rs: Option<Seq<char>>,
}

/// The views of a list of addresses.
pub open spec fn addresses_of(v: Seq<HostAddr>) -> Seq<AddrModel> {
    v.map_values(|a: HostAddr| a@)
}

impl View for ServiceRecord {
    type V = RecordModel;

    open spec fn view(&self) -> RecordModel {
        RecordModel {
            fullname: self.fullname@,
            hostname: self.hostname@,
            service_type: self.service_type@,
            port: self.port,
            addresses: addresses_of(self.addresses@),
            ty: text::text_of(self.ty),
            rs: text::text_of(self.rs),
        }
    }
}

/// The first IPv4 address of a list.
pub open spec fn first_v4(list: Seq<AddrModel>) -> Option<AddrModel>
    decreases list.len(),
{
    if list.len() == 0 {
        None
    } else if list[0] is V4 {
        Some(list[0])
    } else {
        first_v4(list.skip(1))
    }
}

/// The address at which a service is used: its first IPv4 address, unless that is `0.0.0.0`.
pub open spec fn usable(list: Seq<AddrModel>) -> Option<AddrModel> {
    if first_v4(list) == Some(AddrModel::V4(0, 0, 0, 0)) {
        None
    } else {
        first_v4(list)
    }
}

/// The view of an optional address.
pub open spec fn address_of(a: Option<HostAddr>) -> Option<AddrModel> {
    match a {
        Some(a) => Some(a@),
        None => None,
    }
}

/// The address at which a service is used.
pub fn pick_ipv4(list: &Vec<HostAddr>) -> (r: Option<HostAddr>)
    ensures
        address_of(r) == usable(addresses_of(list@)),
{
    let ghost all = addresses_of(list@);
    let mut i: usize = 0;
    assert(all.skip(0) =~= all);
    while i < list.len()
        invariant
            i <= list@.len(),
            all == addresses_of(list@),
            first_v4(all) == first_v4(all.skip(i as int)),
        decreases list@.len() - i,
    {
        assert(all.skip(i as int)[0] == list@[i as int]@);
        assert(all.skip(i as int).skip(1) =~= all.skip(i + 1));
        if let HostAddr::V4(a, b, c, d) = &list[i] {
            if *a == 0 && *b == 0 && *c == 0 && *d == 0 {
                return None;
            }
            return Some(HostAddr::V4(*a, *b, *c, *d));
        }
        i += 1;
    }
    None
}

/// A service name without its escapes: an escaped space becomes a space, other backslashes go.
pub open spec fn unescaped(s: Seq<char>) -> Seq<char> {
    text::replaced(text::replaced(s, "\\032"@, " "@), "\\"@, ""@)
}

fn unescape(s: &str) -> (r: String)
    ensures
        r@ == unescaped(s@),
{
    proof {
        reveal_strlit("\\032");
        reveal_strlit("\\");
    }
    let spaced = text::replace(s, "\\032", " ");
    text::replace(spaced.as_str(), "\\", "")
}

/// The instance name of a service: what stands before its type.
pub open spec fn instance_name(fullname: Seq<char>) -> Seq<char> {
    let name = unescaped(fullname);
    match text::cut(name, "._"@) {
        Some((instance, _)) => text::trimmed(instance),
        None => text::trimmed(name),
    }
}

/// The instance name of a service.
pub fn display_name(fullname: &str) -> (r: String)
    ensures
        r@ == instance_name(fullname@),
{
    let name = unescape(fullname);
    match text::split_once(name.as_str(), "._") {
        Some((instance, _)) => text::trim(instance.as_str()),
        None => text::trim(name.as_str()),
    }
}

/// The name under which a device is shown. One that is empty or names a service type gives way to
/// the name of the model that the application knows best.
pub open spec fn friendly_name(raw: Seq<char>) -> Seq<char> {
    let name = unescaped(raw);
    if name.len() == 0 || text::has(text::lower(name), "uscan"@) || text::begins(
        text::lower(name),
        "_"@,
    ) {
        DEFAULT_NAME@
    } else {
        text::trimmed(name)
    }
}

/// The name under which a device is shown.
pub fn friendly_device_name(raw: &str) -> (r: String)
    ensures
        r@ == friendly_name(raw@),
{
    let name = unescape(raw);
    let lower = text::to_lower(name.as_str());
    if name.as_str().is_empty() || text::contains(lower.as_str(), "uscan") || text::starts_with(
        lower.as_str(),
        "_",
    ) {
        DEFAULT_NAME.to_owned()
    } else {
        text::trim(name.as_str())
    }
}

/// The name of the scanner behind a service: its model where it tells one, else its instance name.
pub open spec fn record_name(r: RecordModel) -> Seq<char> {
    let model = match r.ty {
        Some(ty) => if ty.len() > 0 {
            friendly_name(ty)
        } else {
            Seq::empty()
        },
        None => Seq::empty(),
    };
    if model.len() > 0 {
        model
    } else {
        friendly_name(instance_name(r.fullname))
    }
}

/// The root of the URLs of the scanner behind a service.
pub open spec fn record_root(r: RecordModel) -> Seq<char> {
    let root = match r.rs {
        Some(rs) => text::strip_ends(rs, Strip::Only('/')),
        None => Seq::empty(),
    };
    if root.len() > 0 {
        root
    } else {
        "eSCL"@
    }
}

/// The scanner behind a service; none where the service has no usable address.
pub open spec fn record_scanner(r: RecordModel) -> Option<ScannerModel> {
    match usable(r.addresses) {
        Some(ip) => Some(
            ScannerModel {
                name: record_name(r),
                hostname: text::strip_back(r.hostname, Strip::Only('.')),
                ip,
                port: r.port,
                escl_root: record_root(r),
                service_type: r.service_type,
                via: Transport::Wifi,
                sane_device: None,
            },
        ),
        None => None,
    }
}

fn name_of(r: &ServiceRecord) -> (n: String)
    ensures
        n@ == record_name(r@),
{
    if let Some(ty) = &r.ty {
        if !ty.as_str().is_empty() {
            let model = friendly_device_name(ty.as_str());
            if !model.as_str().is_empty() {
                return model;
            }
        }
    }
    friendly_device_name(display_name(r.fullname.as_str()).as_str())
}

fn root_of(r: &ServiceRecord) -> (n: String)
    ensures
        n@ == record_root(r@),
{
    if let Some(rs) = &r.rs {
        let root = text::strip(rs.as_str(), Strip::Only('/'));
        if !root.as_str().is_empty() {
            return root;
        }
    }
    "eSCL".to_owned()
}

/// The scanner behind a service; none where the service has no usable address.
pub fn scanner_from_info(info: &ServiceRecord) -> (r: Option<ScannerInfo>)
    ensures
        scanner::scanner_of(r) == record_scanner(info@),
{
    match pick_ipv4(&info.addresses) {
        Some(ip) => Some(
            ScannerInfo {
                name: name_of(info),
                hostname: text::strip_end(info.hostname.as_str(), Strip::Only('.')),
                ip,
                port: info.port,
                escl_root: root_of(info),
                service_type: info.service_type.clone(),
                via: Transport::Wifi,
                sane_device: None,
            },
        ),
        None => None,
    }
}

/// A scanner that the application knows well.
pub open spec fn known_model(name: Seq<char>) -> bool {
    ||| text::has(text::upper(name), "DS-940DW"@)
    ||| text::has(text::upper(name), "DS940DW"@)
    ||| text::has(text::upper(name), "DS-940"@)
}

/// A scanner that the application knows well.
pub fn is_target(name: &str) -> (r: bool)
    ensures
        r == known_model(name@),
{
    let upper = text::to_upper(name);
    text::contains(upper.as_str(), "DS-940DW") || text::contains(upper.as_str(), "DS940DW")
        || text::contains(upper.as_str(), "DS-940")
}

/// The state with a Wi-Fi scanner in use.
pub open spec fn over_wifi(m: StateModel, s: ScannerModel) -> StateModel {
    StateModel {
        status_line: "Found "@ + s.name + " on Wi-Fi."@,
        connection: state::connected(m.connection),
        scanner: Some(s),
        seen: true,
        ..m
    }
}

/// News of Wi-Fi scanners counts: they are wanted, and no USB scanner is in use.
pub open spec fn listens(m: StateModel) -> bool {
    scanner::wanted(m.transport_pref, Transport::Wifi) && !(m.scanner is Some
        && m.scanner->0.via == Transport::Usb)
}

/// A scanner that announced itself is taken: none is in use, its route is better, or it is a model
/// that the application knows better.
pub open spec fn announcement_counts(m: StateModel, s: ScannerModel) -> bool {
    listens(m) && (m.scanner is None || scanner::quality(s) > scanner::quality(m.scanner->0) || (
    known_model(s.name) && !known_model(m.scanner->0.name)))
}

/// The state after a scanner announced itself.
pub open spec fn announced(m: StateModel, s: ScannerModel) -> StateModel {
    if announcement_counts(m, s) {
        over_wifi(m, s)
    } else {
        m
    }
}

/// A scanner that answered at an address of the local network is taken: none is in use, or its
/// route is better.
pub open spec fn find_counts(m: StateModel, s: ScannerModel) -> bool {
    listens(m) && (m.scanner is None || scanner::quality(s) > scanner::quality(m.scanner->0))
}

/// The state after a scanner answered at an address of the local network.
pub open spec fn lan_found(m: StateModel, s: ScannerModel) -> StateModel {
    if find_counts(m, s) {
        over_wifi(m, s)
    } else {
        m
    }
}

/// The local network is worth asking: Wi-Fi scanners are wanted, and none is in use.
pub open spec fn searches(m: StateModel) -> bool {
    scanner::wanted(m.transport_pref, Transport::Wifi) && !(m.scanner is Some
        && m.scanner->0.via == Transport::Wifi)
}

fn use_over_wifi(state: &mut AppState, scanner: ScannerInfo)
    ensures
        final(state)@ == over_wifi(old(state)@, scanner@),
{
    let mut line = "Found ".to_owned();
    line.append(scanner.name.as_str());
    line.append(" on Wi-Fi.");
    state.status_line = line;
    if state.connection == ConnectionState::AwaitingConnection || state.connection
        == ConnectionState::Degraded {
        state.connection = ConnectionState::Connected;
    }
    state.scanner = Some(scanner);
    state.last_seen = Some(Instant::now());
}

/// A scanner announced itself.
pub fn handle_resolved(state: &mut AppState, scanner: ScannerInfo)
    ensures
        final(state)@ == announced(old(state)@, scanner@),
        !announcement_counts(old(state)@, scanner@) ==> final(state).last_seen
            == old(state).last_seen,
{
    if !state.transport_pref.allows_wifi() {
        return ;
    }
    let take = match &state.scanner {
        None => true,
        Some(existing) => existing.via == Transport::Wifi && (scanner.wifi_quality()
            > existing.wifi_quality() || (is_target(scanner.name.as_str()) && !is_target(
            existing.name.as_str(),
        ))),
    };
    if take {
        use_over_wifi(state, scanner);
    }
}

/// The local network is worth asking.
pub fn wants_lan_probe(state: &AppState) -> (r: bool)
    ensures
        r == searches(state@),
{
    let mut on_wifi = false;
    if let Some(s) = &state.scanner {
        on_wifi = s.via == Transport::Wifi;
    }
    state.transport_pref.allows_wifi() && !on_wifi
}

/// A scanner answered at an address of the local network.
pub fn handle_lan_find(state: &mut AppState, scanner: ScannerInfo)
    ensures
        final(state)@ == lan_found(old(state)@, scanner@),
        !find_counts(old(state)@, scanner@) ==> final(state).last_seen == old(state).last_seen,
{
    if !state.transport_pref.allows_wifi() {
        return ;
    }
    let take = match &state.scanner {
        None => true,
        Some(existing) => existing.via == Transport::Wifi && scanner.wifi_quality()
            > existing.wifi_quality(),
    };
    if take {
        use_over_wifi(state, scanner);
    }
}

/// A USB scanner in use is never given up for a Wi-Fi one, nor is a Wi-Fi scanner taken that the
/// user does not want.
pub proof fn wifi_news_respects_usb(m: StateModel, s: ScannerModel)
    requires
        m.scanner is Some && m.scanner->0.via == Transport::Usb || !scanner::wanted(
            m.transport_pref,
            Transport::Wifi,
        ),
    ensures
        announced(m, s) == m,
        lan_found(m, s) == m,
{
}

/// Wi-Fi news never makes the route to the scanner in use worse, but for a better known model.
pub proof fn routes_get_better(m: StateModel, s: ScannerModel)
    requires
        m.scanner is Some,
    ensures
        scanner::quality(lan_found(m, s).scanner->0) >= scanner::quality(m.scanner->0),
        scanner::quality(announced(m, s).scanner->0) >= scanner::quality(m.scanner->0) || (
        known_model(s.name) && !known_model(m.scanner->0.name)),
{
}

/// Wi-Fi news keeps the state tidy.
pub proof fn wifi_news_keeps_the_state_tidy(m: StateModel, s: ScannerModel)
    requires
        laws::tidy(m),
    ensures
        laws::tidy(announced(m, s)),
        laws::tidy(lan_found(m, s)),
{
}

/// An interface of this machine, with its IPv4 address and netmask where it has one.
#[derive(Debug, Clone, Copy)]
pub struct Interface {
    pub loopback: bool,
    pub v4: Option<(u32, u32)>,
}

/// The bits of `n` that are set.
pub open spec fn ones(n: nat) -> nat
    decreases n,
{
    if n == 0 {
        0
    } else {
        n % 2 + ones(n / 2)
    }
}

fn count_ones(n: u32) -> (r: u32)
    ensures
        r == ones(n as nat),
        r <= 32,
{
    let mut left: u32 = n;
    let mut count: u32 = 0;
    let mut bits: u32 = 0;
    let ghost mut room: int = 0x1_0000_0000;
    proof {
        vstd::arithmetic::power2::lemma2_to64();
    }
    while left > 0
        invariant
            bits <= 32,
            count <= bits,
            left < room,
            room == vstd::arithmetic::power2::pow2((32 - bits) as nat),
            count + ones(left as nat) == ones(n as nat),
        decreases left,
    {
        proof {
            if bits == 32 {
                vstd::arithmetic::power2::lemma2_to64();
            }
            vstd::arithmetic::power2::lemma_pow2_unfold((32 - bits) as nat);
            room = room / 2;
        }
        count = count + left % 2;
        left = left / 2;
        bits = bits + 1;
    }
    count
}

/// The addresses of a network with `prefix` leading bits: small networks alone are asked.
pub open spec fn network_size(prefix: nat) -> Option<nat> {
    if prefix == 24 {
        Some(256)
    } else if prefix == 25 {
        Some(128)
    } else if prefix == 26 {
        Some(64)
    } else if prefix == 27 {
        Some(32)
    } else if prefix == 28 {
        Some(16)
    } else if prefix == 29 {
        Some(8)
    } else if prefix == 30 {
        Some(4)
    } else {
        None
    }
}

/// The first `n` addresses after `base` but `own`, in order.
pub open spec fn addresses_after(base: int, own: int, n: nat) -> Seq<u32>
    decreases n,
{
    if n == 0 {
        Seq::empty()
    } else {
        let before = addresses_after(base, own, (n - 1) as nat);
        if base + n == own {
            before
        } else {
            before.push((base + n) as u32)
        }
    }
}

/// The other hosts of the network of an address.
pub open spec fn neighbours(ip: u32, mask: u32) -> Seq<u32> {
    match network_size(ones(mask as nat)) {
        Some(size) => addresses_after(ip - ip % (size as u32), ip as int, (size - 2) as nat),
        None => Seq::empty(),
    }
}

/// The hosts to ask behind a list of interfaces.
pub open spec fn hosts(list: Seq<Interface>) -> Seq<u32>
    decreases list.len(),
{
    if list.len() == 0 {
        Seq::empty()
    } else {
        hosts(list.drop_last()) + match list.last() {
            Interface { loopback: false, v4: Some((ip, mask)) } => neighbours(ip, mask),
            _ => Seq::empty(),
        }
    }
}

fn size_of_network(prefix: u32) -> (r: Option<u32>)
    ensures
        match r {
            Some(size) => network_size(prefix as nat) == Some(size as nat) && 4 <= size <= 256,
            None => network_size(prefix as nat) is None,
        },
{
    match prefix {
        24 => Some(256),
        25 => Some(128),
        26 => Some(64),
        27 => Some(32),
        28 => Some(16),
        29 => Some(8),
        30 => Some(4),
        _ => None,
    }
}

/// The size divides the address space, so a whole network fits in it.
proof fn lemma_network_fits(ip: u32, size: u32)
    requires
        exists|p: nat| network_size(p) == Some(size as nat),
    ensures
        0 <= ip - ip % size,
        ip - ip % size + size <= 0x1_0000_0000,
        (ip - ip % size) % (size as int) == 0,
{
    let p = choose|p: nat| network_size(p) == Some(size as nat);
    let base = ip - ip % size;
    if size == 256 {
        assert(base % 256 == 0);
    } else if size == 128 {
        assert(base % 128 == 0);
    } else if size == 64 {
        assert(base % 64 == 0);
    } else if size == 32 {
        assert(base % 32 == 0);
    } else if size == 16 {
        assert(base % 16 == 0);
    } else if size == 8 {
        assert(base % 8 == 0);
    } else {
        assert(base % 4 == 0);
    }
}

fn add_neighbours(out: &mut Vec<u32>, ip: u32, mask: u32)
    ensures
        final(out)@ == old(out)@ + neighbours(ip, mask),
{
    let prefix: u32 = count_ones(mask);
    if let Some(size) = size_of_network(prefix) {
        proof {
            assert(network_size(prefix as nat) == Some(size as nat));
            lemma_network_fits(ip, size);
        }
        let base: u32 = ip - ip % size;
        let ghost start = out@;
        let mut i: u32 = 0;
        assert(start + addresses_after(base as int, ip as int, 0) =~= start);
        while i < size - 2
            invariant
                4 <= size <= 256,
                i <= size - 2,
                base + size <= 0x1_0000_0000,
                out@ == start + addresses_after(base as int, ip as int, i as nat),
            decreases size - i,
        {
            i = i + 1;
            let host: u32 = base + i;
            let ghost before = addresses_after(base as int, ip as int, (i - 1) as nat);
            if host != ip {
                out.push(host);
                assert(out@ =~= start + before.push(host));
            }
        }
    } else {
        assert(out@ + neighbours(ip, mask) =~= out@);
    }
}

/// The hosts to ask behind a list of interfaces.
pub fn lan_hosts(list: &Vec<Interface>) -> (r: Vec<u32>)
    ensures
        r@ == hosts(list@),
{
    let mut out: Vec<u32> = Vec::new();
    let mut i: usize = 0;
    assert(list@.take(0) =~= Seq::empty());
    while i < list.len()
        invariant
            i <= list@.len(),
            out@ == hosts(list@.take(i as int)),
        decreases list@.len() - i,
    {
        proof {
            assert(list@.take(i + 1).drop_last() =~= list@.take(i as int));
            assert(list@.take(i + 1).last() == list@[i as int]);
            assert(out@ + Seq::<u32>::empty() =~= out@);
        }
        let face = list[i];
        if !face.loopback {
            if let Some((ip, mask)) = face.v4 {
                add_neighbours(&mut out, ip, mask);
            }
        }
        i += 1;
    }
    assert(list@.take(i as int) =~= list@);
    out
}

proof fn lemma_after(base: int, own: int, n: nat, h: u32)
    requires
        0 <= base,
        base + n < 0x1_0000_0000,
    ensures
        addresses_after(base, own, n).contains(h) <==> base < h <= base + n && h != own,
    decreases n,
{
    if n > 0 {
        let before = addresses_after(base, own, (n - 1) as nat);
        let all = addresses_after(base, own, n);
        lemma_after(base, own, (n - 1) as nat, h);
        if base + n != own {
            if before.contains(h) {
                let i = choose|i: int| 0 <= i < before.len() && before[i] == h;
                assert(all[i] == h);
            }
            if h == base + n {
                assert(all[all.len() - 1] == h);
            }
            if all.contains(h) {
                let i = choose|i: int| 0 <= i < all.len() && all[i] == h;
                if i < before.len() {
                    assert(before[i] == h);
                }
            }
        }
    }
}

proof fn lemma_same_network(ip: int, h: int, size: int)
    requires
        0 <= ip,
        0 <= h,
        4 <= size,
    ensures
        ip - ip % size < h <= ip - ip % size + size - 2 <==> h / size == ip / size && h % size != 0
            && h % size != size - 1,
{
    let base = ip - ip % size;
    vstd::arithmetic::div_mod::lemma_fundamental_div_mod(ip, size);
    vstd::arithmetic::div_mod::lemma_fundamental_div_mod(h, size);
    vstd::arithmetic::div_mod::lemma_mod_bound(h, size);
    if base < h <= base + size - 2 {
        assert(h == (ip / size) * size + (h - base)) by (nonlinear_arith)
            requires
                ip == size * (ip / size) + ip % size,
                base == ip - ip % size,
        ;
        vstd::arithmetic::div_mod::lemma_fundamental_div_mod_converse(h, size, ip / size, h - base);
    }
}

/// The neighbours of an address are the other addresses of its network, without the first and the
/// last, which belong to no host.
pub proof fn neighbours_share_the_network(ip: u32, mask: u32, h: u32)
    ensures
        neighbours(ip, mask).contains(h) <==> match network_size(ones(mask as nat)) {
            Some(size) => h as nat / size == ip as nat / size && h != ip && h as nat % size != 0
                && h as nat % size != size - 1,
            None => false,
        },
{
    if let Some(size) = network_size(ones(mask as nat)) {
        let s = size as u32;
        assert(network_size(ones(mask as nat)) == Some(s as nat));
        lemma_network_fits(ip, s);
        let base = ip - ip % s;
        lemma_after(base, ip as int, (size - 2) as nat, h);
        lemma_same_network(ip as int, h as int, size as int);
    }
}

/// The address of a host by its number.
pub open spec fn octets(h: u32) -> AddrModel {
    AddrModel::V4(
        (h / 0x100_0000) as u8,
        (h / 0x1_0000 % 0x100) as u8,
        (h / 0x100 % 0x100) as u8,
        (h % 0x100) as u8,
    )
}

/// A scanner that may answer on `port` of a host.
pub open spec fn candidate(h: u32, port: u16) -> ScannerModel {
    ScannerModel {
        name: DEFAULT_NAME@,
        hostname: scanner::addr_text(octets(h)),
        ip: octets(h),
        port,
        escl_root: "eSCL"@,
        service_type: USCAN@,
        via: Transport::Wifi,
        sane_device: None,
    }
}

/// A scanner that may answer on `port` of a host.
pub fn lan_scanner(host: u32, port: u16) -> (r: ScannerInfo)
    ensures
        r@ == candidate(host, port),
{
    let ip = HostAddr::V4(
        (host / 0x100_0000) as u8,
        (host / 0x1_0000 % 0x100) as u8,
        (host / 0x100 % 0x100) as u8,
        (host % 0x100) as u8,
    );
    ScannerInfo {
        name: DEFAULT_NAME.to_owned(),
        hostname: ip.to_text(),
        ip,
        port,
        escl_root: "eSCL".to_owned(),
        service_type: USCAN.to_owned(),
        via: Transport::Wifi,
        sane_device: None,
    }
}

/// A host of the local network is asked under `/eSCL`.
pub proof fn candidates_are_asked_at_escl(h: u32, port: u16)
    ensures
        scanner::base_url_text(candidate(h, port)) == "http://"@ + scanner::addr_text(octets(h))
            + ":"@ + number::decimal(port as nat) + "/"@ + "eSCL"@,
{
    reveal_strlit("eSCL");
    reveal_with_fuel(text::strip_front, 2);
    reveal_with_fuel(text::strip_back, 2);
}

/// The scanners that may answer on a list of hosts: on two ports of each.
pub open spec fn candidates(hosts: Seq<u32>) -> Seq<ScannerModel>
    decreases hosts.len(),
{
    if hosts.len() == 0 {
        Seq::empty()
    } else {
        candidates(hosts.drop_last()).push(candidate(hosts.last(), 8080)).push(
            candidate(hosts.last(), 80),
        )
    }
}

/// The scanners that may answer behind a list of interfaces, to be asked at `escl::status_url`.
pub fn lan_candidates(list: &Vec<Interface>) -> (r: Vec<ScannerInfo>)
    ensures
        state::scanners_of(r@) == candidates(hosts(list@)),
{
    let found = lan_hosts(list);
    let mut out: Vec<ScannerInfo> = Vec::new();
    let mut i: usize = 0;
    assert(found@.take(0) =~= Seq::empty());
    assert(state::scanners_of(out@) =~= Seq::empty());
    while i < found.len()
        invariant
            i <= found@.len(),
            state::scanners_of(out@) == candidates(found@.take(i as int)),
        decreases found@.len() - i,
    {
        proof {
            assert(found@.take(i + 1).drop_last() =~= found@.take(i as int));
            assert(found@.take(i + 1).last() == found@[i as int]);
        }
        let ghost before = out@;
        let first = lan_scanner(found[i], 8080);
        let second = lan_scanner(found[i], 80);
        out.push(first);
        out.push(second);
        assert(state::scanners_of(out@) =~= state::scanners_of(before).push(first@).push(second@));
        i += 1;
    }
    assert(found@.take(i as int) =~= found@);
    out
}

/// The line that tells of a scanner that was found.
pub open spec fn found_line(s: ScannerModel) -> Seq<char> {
    "resolved  "@ + s.name + "  "@ + scanner::addr_text(s.ip) + ":"@ + number::decimal(
        s.port as nat,
    ) + "/"@ + s.escl_root + "  ("@ + s.hostname + ")"@
}

/// The line that tells of a scanner that was found.
pub fn resolved_line(s: &ScannerInfo) -> (r: String)
    ensures
        r@ == found_line(s@),
{
    let mut line = "resolved  ".to_owned();
    line.append(s.name.as_str());
    line.append("  ");
    line.append(s.ip.to_text().as_str());
    line.append(":");
    line.append(number::decimal_text(s.port as u128).as_str());
    line.append("/");
    line.append(s.escl_root.as_str());
    line.append("  (");
    line.append(s.hostname.as_str());
    line.append(")");
    line
}

/// The four numbers of an address are its bytes, the highest first.
pub proof fn octets_spell_the_address(h: u32)
    ensures
        octets(h) matches AddrModel::V4(a, b, c, d) && a * 0x100_0000 + b * 0x1_0000 + c * 0x100 + d
            == h,
{
    let a = h / 0x100_0000;
    let b = h / 0x1_0000 % 0x100;
    let c = h / 0x100 % 0x100;
    let d = h % 0x100;
    assert(a < 0x100 && b < 0x100 && c < 0x100 && d < 0x100);
    assert(a * 0x100_0000 + b * 0x1_0000 + c * 0x100 + d == h);
}

/// Every host of the list is asked on port 8080 and then on port 80, and no other is asked.
pub proof fn every_host_is_asked(hosts: Seq<u32>, i: int)
    requires
        0 <= i < hosts.len(),
    ensures
        ({
            let all = candidates(hosts);
            &&& all.len() == 2 * hosts.len()
            &&& all[2 * i].ip == octets(hosts[i]) && all[2 * i].port == 8080
            &&& all[2 * i + 1].ip == octets(hosts[i]) && all[2 * i + 1].port == 80
            &&& all[2 * i].via == Transport::Wifi && all[2 * i + 1].via == Transport::Wifi
            &&& all[2 * i].sane_device is None && all[2 * i + 1].sane_device is None
            &&& all[2 * i].escl_root == "eSCL"@ && all[2 * i + 1].escl_root == "eSCL"@
        }),
    decreases hosts.len(),
{
    let t = hosts.drop_last();
    if i < t.len() {
        every_host_is_asked(t, i);
        assert(t[i] == hosts[i]);
    } else if t.len() > 0 {
        every_host_is_asked(t, 0);
    }
}

/// No host makes no candidate.
pub proof fn no_host_is_made_up(hosts: Seq<u32>)
    ensures
        candidates(hosts).len() == 2 * hosts.len(),
        forall|k: int|
            0 <= k < candidates(hosts).len() ==> (#[trigger] candidates(hosts)[k]).ip == octets(
                hosts[k / 2],
            ),
{
    if hosts.len() > 0 {
        every_host_is_asked(hosts, 0);
    }
    assert forall|k: int| 0 <= k < candidates(hosts).len() implies (#[trigger] candidates(
        hosts,
    )[k]).ip == octets(hosts[k / 2]) by {
        every_host_is_asked(hosts, k / 2);
        assert(k == 2 * (k / 2) || k == 2 * (k / 2) + 1);
    }
}

/// The hosts of two lists of interfaces are those of the one and then those of the other; an
/// interface that leads back to this machine, or has no address, has none.
pub proof fn every_interface_is_searched(a: Seq<Interface>, b: Seq<Interface>, ip: u32, mask: u32)
    ensures
        hosts(a + b) == hosts(a) + hosts(b),
        hosts(seq![Interface { loopback: false, v4: Some((ip, mask)) }]) == neighbours(ip, mask),
        hosts(seq![Interface { loopback: true, v4: Some((ip, mask)) }]).len() == 0,
        hosts(seq![Interface { loopback: false, v4: None }]).len() == 0,
    decreases b.len(),
{
    let one = |x: Interface| seq![x];
    assert forall|x: Interface| #[trigger] one(x).drop_last() =~= Seq::<Interface>::empty() by {}
    let p = Interface { loopback: false, v4: Some((ip, mask)) };
    let q = Interface { loopback: true, v4: Some((ip, mask)) };
    let r = Interface { loopback: false, v4: None };
    assert(one(p).drop_last().len() == 0 && one(q).drop_last().len() == 0 && one(
        r,
    ).drop_last().len() == 0);
    assert(hosts(one(p).drop_last()) =~= Seq::<u32>::empty());
    assert(hosts(one(q).drop_last()) =~= Seq::<u32>::empty());
    assert(hosts(one(r).drop_last()) =~= Seq::<u32>::empty());
    assert(one(p).last() == p && one(q).last() == q && one(r).last() == r);
    assert(hosts(one(p)) =~= neighbours(ip, mask));
    assert(hosts(one(q)) =~= Seq::<u32>::empty());
    assert(hosts(one(r)) =~= Seq::<u32>::empty());
    if b.len() == 0 {
        assert(a + b =~= a);
        assert(hosts(a) + hosts(b) =~= hosts(a));
    } else {
        every_interface_is_searched(a, b.drop_last(), ip, mask);
        assert((a + b).drop_last() =~= a + b.drop_last());
        assert((a + b).last() == b.last());
        assert(hosts(a + b) =~= hosts(a) + hosts(b));
    }
}

proof fn lemma_rising(base: int, own: int, n: nat)
    requires
        0 <= base,
        base + n <= u32::MAX,
    ensures
        forall|i: int, j: int|
            #![trigger addresses_after(base, own, n)[i], addresses_after(base, own, n)[j]]
            0 <= i < j < addresses_after(base, own, n).len() ==> addresses_after(base, own, n)[i]
                < addresses_after(base, own, n)[j],
        forall|i: int|
            0 <= i < addresses_after(base, own, n).len() ==> base < (#[trigger] addresses_after(
                base,
                own,
                n,
            )[i]) <= base + n,
        base < own <= base + n ==> addresses_after(base, own, n).len() == n - 1,
        !(base < own <= base + n) ==> addresses_after(base, own, n).len() == n,
    decreases n,
{
    if n > 0 {
        lemma_rising(base, own, (n - 1) as nat);
    }
}

/// The hosts of a network are asked in rising order, so none twice.
pub proof fn no_host_is_asked_twice(ip: u32, mask: u32, i: int, j: int)
    requires
        0 <= i < j < neighbours(ip, mask).len(),
    ensures
        neighbours(ip, mask)[i] < neighbours(ip, mask)[j],
{
    let size = network_size(ones(mask as nat))->0;
    let base = ip - ip % (size as u32);
    assert(0 <= base && base + size <= 0x1_0000_0000) by (nonlinear_arith)
        requires
            base == ip - ip % (size as u32),
            ip <= u32::MAX,
            size == 256 || size == 128 || size == 64 || size == 32 || size == 16 || size == 8
                || size == 4,
    ;
    lemma_rising(base, ip as int, (size - 2) as nat);
}

/// A network whose mask leaves two to eight bits to its hosts has as many addresses as those bits
/// can spell, and is searched; a larger or smaller one is not.
pub proof fn networks_have_their_size(prefix: nat)
    ensures
        prefix == 24 ==> network_size(prefix) == Some(256nat),
        24 <= prefix < 30 ==> network_size(prefix)->0 == 2 * network_size(prefix + 1)->0,
        24 <= prefix <= 30 <==> network_size(prefix) is Some,
{
}

/// A number of `n` bits that are all set.
spec fn all_set(n: nat) -> nat
    decreases n,
{
    if n == 0 {
        0
    } else {
        2 * all_set((n - 1) as nat) + 1
    }
}

/// A number with `n` bits appended that are not set.
spec fn padded(x: nat, n: nat) -> nat
    decreases n,
{
    if n == 0 {
        x
    } else {
        2 * padded(x, (n - 1) as nat)
    }
}

proof fn lemma_ones(set: nat, clear: nat)
    ensures
        ones(padded(all_set(set), clear)) == set,
    decreases set + clear,
{
    let x = padded(all_set(set), clear);
    if clear > 0 {
        lemma_ones(set, (clear - 1) as nat);
        assert(x % 2 == 0 && x / 2 == padded(all_set(set), (clear - 1) as nat));
    } else if set > 0 {
        lemma_ones((set - 1) as nat, 0);
        assert(x % 2 == 1 && x / 2 == all_set((set - 1) as nat));
    }
}

/// The mask of a network of eight to two bits is counted right.
pub proof fn masks_are_counted(mask: u32)
    ensures
        mask == 0xFFFF_FF00 ==> ones(mask as nat) == 24,
        mask == 0xFFFF_FF80 ==> ones(mask as nat) == 25,
        mask == 0xFFFF_FFC0 ==> ones(mask as nat) == 26,
        mask == 0xFFFF_FFE0 ==> ones(mask as nat) == 27,
        mask == 0xFFFF_FFF0 ==> ones(mask as nat) == 28,
        mask == 0xFFFF_FFF8 ==> ones(mask as nat) == 29,
        mask == 0xFFFF_FFFC ==> ones(mask as nat) == 30,
{
    assert(all_set(8) == 255) by {
        reveal_with_fuel(all_set, 9);
    }
    assert(all_set(16) == 65535) by {
        reveal_with_fuel(all_set, 9);
    }
    assert(all_set(24) == 16777215) by {
        reveal_with_fuel(all_set, 9);
    }
    assert(all_set(25) == 33554431);
    assert(all_set(26) == 67108863);
    assert(all_set(27) == 134217727);
    assert(all_set(28) == 268435455);
    assert(all_set(29) == 536870911);
    assert(all_set(30) == 1073741823);
    assert(padded(16777215, 8) == 0xFFFFFF00) by {
        reveal_with_fuel(padded, 9);
    }
    assert(padded(33554431, 7) == 0xFFFFFF80) by {
        reveal_with_fuel(padded, 9);
    }
    assert(padded(67108863, 6) == 0xFFFFFFC0) by {
        reveal_with_fuel(padded, 9);
    }
    assert(padded(134217727, 5) == 0xFFFFFFE0) by {
        reveal_with_fuel(padded, 9);
    }
    assert(padded(268435455, 4) == 0xFFFFFFF0) by {
        reveal_with_fuel(padded, 9);
    }
    assert(padded(536870911, 3) == 0xFFFFFFF8) by {
        reveal_with_fuel(padded, 9);
    }
    assert(padded(1073741823, 2) == 0xFFFFFFFC) by {
        reveal_with_fuel(padded, 9);
    }
    lemma_ones(24, 8);
    lemma_ones(25, 7);
    lemma_ones(26, 6);
    lemma_ones(27, 5);
    lemma_ones(28, 4);
    lemma_ones(29, 3);
    lemma_ones(30, 2);
}

/// A scanner is asked at the first of its addresses that has four numbers.
pub proof fn the_first_v4_address_is_used(before: Seq<AddrModel>, a: AddrModel, rest: Seq<AddrModel>)
    requires
        forall|i: int| 0 <= i < before.len() ==> !((#[trigger] before[i]) is V4),
        a is V4,
    ensures
        a != AddrModel::V4(0, 0, 0, 0) ==> usable(before + seq![a] + rest) == Some(a),
        a == AddrModel::V4(0, 0, 0, 0) ==> usable(before + seq![a] + rest) is None,
        usable(before) is None,
    decreases before.len(),
{
    let list = before + seq![a] + rest;
    if before.len() > 0 {
        let t = before.skip(1);
        assert forall|i: int| 0 <= i < t.len() implies !((#[trigger] t[i]) is V4) by {
            assert(t[i] == before[i + 1]);
        }
        the_first_v4_address_is_used(t, a, rest);
        assert(list[0] == before[0]);
        assert(list.skip(1) =~= t + seq![a] + rest);
    } else {
        assert(list[0] == a);
    }
}

/// A scanner that announced itself is reached at its address and port over Wi-Fi, under the path
/// that it gave, or `eSCL` where it gave none.
pub proof fn an_announced_scanner_is_reached_as_it_says(r: RecordModel)
    ensures
        record_scanner(r) is Some <==> usable(r.addresses) is Some,
        record_scanner(r) matches Some(s) ==> {
            &&& Some(s.ip) == usable(r.addresses)
            &&& s.port == r.port
            &&& s.via == Transport::Wifi
            &&& s.sane_device is None
            &&& s.service_type == r.service_type
            &&& r.rs is None ==> s.escl_root == "eSCL"@
            &&& r.rs == Some(Seq::<char>::empty()) ==> s.escl_root == "eSCL"@
            &&& (r.rs matches Some(p) ==> p.len() > 0 && p[0] != '/' && p.last() != '/'
                ==> s.escl_root == p)
        },
{
    if r.rs is Some {
        let p = r.rs->0;
        if p.len() > 0 && p[0] != '/' && p.last() != '/' {
            assert(text::strip_front(p, Strip::Only('/')) == p);
            assert(text::strip_back(p, Strip::Only('/')) == p);
        }
    }
}

/// A Wi-Fi scanner is taken at once where none is in use: it is then in use as it came, the
/// connection is made unless a scan runs, and nothing else but the line changes.
pub proof fn the_first_wifi_scanner_is_taken(m: StateModel, s: ScannerModel)
    requires
        scanner::wanted(m.transport_pref, Transport::Wifi),
        m.scanner is None,
    ensures
        announced(m, s) == lan_found(m, s),
        announced(m, s).scanner == Some(s),
        m.connection == ConnectionState::AwaitingConnection || m.connection
            == ConnectionState::Degraded ==> announced(m, s).connection
            == ConnectionState::Connected,
        m.connection != ConnectionState::AwaitingConnection && m.connection
            != ConnectionState::Degraded ==> announced(m, s).connection == m.connection,
        announced(m, s) == (StateModel {
            scanner: announced(m, s).scanner,
            connection: announced(m, s).connection,
            status_line: announced(m, s).status_line,
            seen: true,
            ..m
        }),
        announced(m, s).status_line == "Found "@ + s.name + " on Wi-Fi."@,
{
}

/// News of a Wi-Fi scanner either changes nothing or puts that scanner in use; a better route is
/// always taken from a Wi-Fi scanner, a worse one never by a find at an address.
pub proof fn wifi_news_is_all_or_nothing(m: StateModel, s: ScannerModel)
    ensures
        announced(m, s) == m || announced(m, s).scanner == Some(s),
        lan_found(m, s) == m || lan_found(m, s).scanner == Some(s),
        announced(m, s).discovered == m.discovered && announced(m, s).pages == m.pages,
        lan_found(m, s).discovered == m.discovered && lan_found(m, s).pages == m.pages,
        scanner::wanted(m.transport_pref, Transport::Wifi) && (m.scanner matches Some(cur)
            ==> cur.via == Transport::Wifi && scanner::quality(s) > scanner::quality(cur))
            ==> announced(m, s).scanner == Some(s) && lan_found(m, s).scanner == Some(s),
        (m.scanner matches Some(cur) && scanner::quality(s) <= scanner::quality(cur))
            ==> lan_found(m, s) == m,
{
}

/// The local network is asked exactly while Wi-Fi scanners are wanted and none is in use.
pub proof fn the_network_is_asked_while_needed(m: StateModel)
    ensures
        m.transport_pref == scanner::TransportPref::Usb ==> !searches(m),
        m.transport_pref != scanner::TransportPref::Usb && m.scanner is None ==> searches(m),
        (m.scanner matches Some(s) && s.via == Transport::Wifi) ==> !searches(m),
        m.transport_pref != scanner::TransportPref::Usb && (m.scanner matches Some(s) && s.via
            == Transport::Usb) ==> searches(m),
{
}

/// The well known models are told by their number, in whatever case and company it stands.
pub proof fn well_known_models_are_told(a: Seq<char>, name: Seq<char>, b: Seq<char>)
    requires
        text::upper(name) == "DS-940"@ || text::upper(name) == "DS940DW"@,
    ensures
        known_model(a + name + b),
{
    let whole = text::upper(a + name + b);
    let n = a.len() as int;
    assert(whole.subrange(n, n + name.len()) =~= text::upper(name));
    assert(text::upper(name).len() == name.len());
    assert(text::matches_at(whole, text::upper(name), n));
}

proof fn lemma_no_escape(s: Seq<char>)
    requires
        !s.contains('\\'),
    ensures
        unescaped(s) == s,
{
    reveal_strlit("\\032");
    reveal_strlit("\\");
    let a = "\\032"@;
    let b = "\\"@;
    text::lemma_find_from(s, a, 0);
    text::lemma_find_from(s, b, 0);
    if text::find(s, a) is Some {
        let i = text::find(s, a)->0;
        assert(s.subrange(i, i + a.len())[0] == s[i]);
        assert(s[i] == '\\');
    }
    if text::find(s, b) is Some {
        let i = text::find(s, b)->0;
        assert(s.subrange(i, i + b.len())[0] == s[i]);
        assert(s[i] == '\\');
    }
}

/// The name of a scanner is what stands before the service in the name that it announces.
pub proof fn the_instance_is_the_name(name: Seq<char>, service: Seq<char>)
    requires
        name.len() > 0,
        !text::is_white(name[0]),
        !text::is_white(name.last()),
        !name.contains('.'),
        !(name + "._"@ + service).contains('\\'),
    ensures
        instance_name(name + "._"@ + service) == name,
{
    reveal_strlit("._");
    let full = name + "._"@ + service;
    let n = name.len() as int;
    lemma_no_escape(full);
    text::lemma_find_from(full, "._"@, 0);
    assert(full.subrange(n, n + 2) =~= "._"@);
    assert(text::matches_at(full, "._"@, n));
    let i = text::find(full, "._"@)->0;
    if i < n {
        assert(full.subrange(i, i + 2)[0] == full[i]);
        assert(name[i] == '.');
    }
    assert(full.take(n) =~= name);
    assert(text::trimmed(name) == name);
}

/// A scanner that was found is told by its name and where it is reached.
pub proof fn a_found_scanner_is_told(s: ScannerModel)
    ensures
        found_line(s) == "resolved  "@ + s.name + "  "@ + scanner::addr_text(s.ip) + ":"@
            + number::decimal(s.port as nat) + "/"@ + s.escl_root + "  ("@ + s.hostname + ")"@,
{
}

} // verus!
