//! Scanners: how they are reached, named, addressed and preferred.

use vstd::prelude::*;

use crate::number;
use crate::text;
use crate::text::Strip;

verus! {

/// How a scanner is reached.
#[derive(Debug, Clone, Copy, PartialEq, Eq, Structural)]
pub enum Transport {
    Wifi,
    Usb,
}

impl Default for Transport {
    fn default() -> (r: Self)
        ensures
            r == Transport::Wifi,
    {
        Transport::Wifi
    }
}

/// The name of a transport.
pub open spec fn transport_name(t: Transport) -> Seq<char> {
    match t {
        Transport::Wifi => "Wi-Fi"@,
        Transport::Usb => "USB"@,
    }
}

impl Transport {
    /// The name of this transport.
    pub fn label(self) -> (r: &'static str)
        ensures
            r@ == transport_name(self),
    {
        match self {
            Transport::Wifi => "Wi-Fi",
            Transport::Usb => "USB",
        }
    }
}

/// The transports that the user wants.
#[derive(Debug, Clone, Copy, PartialEq, Eq, Structural)]
pub enum TransportPref {
    Auto,
    Wifi,
    Usb,
}

impl Default for TransportPref {
    fn default() -> (r: Self)
        ensures
            r == TransportPref::Auto,
    {
        TransportPref::Auto
    }
}

/// The user wants scanners reached over `via`.
pub open spec fn wanted(pref: TransportPref, via: Transport) -> bool {
    match pref {
        TransportPref::Auto => true,
        TransportPref::Wifi => via == Transport::Wifi,
        TransportPref::Usb => via == Transport::Usb,
    }
}

impl TransportPref {
    /// Wi-Fi scanners are wanted.
    pub fn allows_wifi(self) -> (r: bool)
        ensures
            r == wanted(self, Transport::Wifi),
    {
        self == TransportPref::Auto || self == TransportPref::Wifi
    }

    /// USB scanners are wanted.
    pub fn allows_usb(self) -> (r: bool)
        ensures
            r == wanted(self, Transport::Usb),
    {
        self == TransportPref::Auto || self == TransportPref::Usb
    }

    /// Scanners reached over `via` are wanted.
    pub fn matches(self, via: Transport) -> (r: bool)
        ensures
            r == wanted(self, via),
    {
        match self {
            TransportPref::Auto => true,
            TransportPref::Wifi => via == Transport::Wifi,
            TransportPref::Usb => via == Transport::Usb,
        }
    }
}

/// The address of a scanner: four octets, or the text of an IPv6 address.
#[derive(Debug)]
pub enum HostAddr {
    V4(u8, u8, u8, u8),
    V6(String),
}

/// What a `HostAddr` says.
pub enum AddrModel {
    V4(u8, u8, u8, u8),
    V6(Seq<char>),
}

impl View for HostAddr {
    type V = AddrModel;

    open spec fn view(&self) -> AddrModel {
        match *self {
            HostAddr::V4(a, b, c, d) => AddrModel::V4(a, b, c, d),
            HostAddr::V6(t) => AddrModel::V6(t@),
        }
    }
}

impl Clone for HostAddr {
    fn clone(&self) -> (r: Self)
        ensures
            r@ == self@,
    {
        match self {
            HostAddr::V4(a, b, c, d) => HostAddr::V4(*a, *b, *c, *d),
            HostAddr::V6(t) => HostAddr::V6(t.clone()),
        }
    }
}

/// The text of an address: dotted decimals for IPv4.
pub open spec fn addr_text(a: AddrModel) -> Seq<char> {
    match a {
        AddrModel::V4(a, b, c, d) => number::decimal(a as nat) + "."@ + number::decimal(b as nat)
            + "."@ + number::decimal(c as nat) + "."@ + number::decimal(d as nat),
        AddrModel::V6(t) => t,
    }
}

/// The text of an address where a URL names a host: IPv6 in brackets.
pub open spec fn host_text(a: AddrModel) -> Seq<char> {
    match a {
        AddrModel::V4(..) => addr_text(a),
        AddrModel::V6(t) => "["@ + t + "]"@,
    }
}

impl HostAddr {
    /// The text of this address.
    pub fn to_text(&self) -> (r: String)
        ensures
            r@ == addr_text(self@),
    {
        match self {
            HostAddr::V4(a, b, c, d) => {
                let mut s = number::decimal_text(*a as u128);
                s.append(".");
                s.append(number::decimal_text(*b as u128).as_str());
                s.append(".");
                s.append(number::decimal_text(*c as u128).as_str());
                s.append(".");
                s.append(number::decimal_text(*d as u128).as_str());
                s
            },
            HostAddr::V6(t) => t.clone(),
        }
    }

    /// The text of this address where a URL names a host.
    pub fn to_host(&self) -> (r: String)
        ensures
            r@ == host_text(self@),
    {
        match self {
            HostAddr::V4(..) => self.to_text(),
            HostAddr::V6(t) => {
                let mut s = "[".to_owned();
                s.append(t.as_str());
                s.append("]");
                s
            },
        }
    }
}

/// A scanner in reach.
#[derive(Debug)]
pub struct ScannerInfo {
    pub name: String,
    pub hostname: String,
    pub ip: HostAddr,
    pub port: u16,
    pub escl_root: String,
    pub service_type: String,
    pub via: Transport,
    pub sane_device: Option<String>,
}

/// What a `ScannerInfo` says.
#[verifier::ext_equal]
pub struct ScannerModel {
    pub name: Seq<char>,
    pub hostname: Seq<char>,
    pub ip: AddrModel,
    pub port: u16,
    pub escl_root: Seq<char>,
    pub service_type: Seq<char>,
    pub via: Transport,
    pub sane_device: Option<Seq<char>>,
}

impl View for ScannerInfo {
    type V = ScannerModel;

    open spec fn view(&self) -> ScannerModel {
        ScannerModel {
            name: self.name@,
            hostname: self.hostname@,
            ip: self.ip@,
            port: self.port,
            escl_root: self.escl_root@,
            service_type: self.service_type@,
            via: self.via,
            sane_device: text::text_of(self.sane_device),
        }
    }
}

impl Clone for ScannerInfo {
    fn clone(&self) -> (r: Self)
        ensures
            r@ == self@,
    {
        ScannerInfo {
            name: self.name.clone(),
            hostname: self.hostname.clone(),
            ip: self.ip.clone(),
            port: self.port,
            escl_root: self.escl_root.clone(),
            service_type: self.service_type.clone(),
            via: self.via,
            sane_device: match &self.sane_device {
                Some(d) => Some(d.clone()),
                None => None,
            },
        }
    }
}

/// The view of an optional scanner.
pub open spec fn scanner_of(s: Option<ScannerInfo>) -> Option<ScannerModel> {
    match s {
        Some(s) => Some(s@),
        None => None,
    }
}

/// The root of a scanner's URLs, `http://host:port`.
pub open spec fn origin(s: ScannerModel) -> Seq<char> {
    "http://"@ + host_text(s.ip) + ":"@ + number::decimal(s.port as nat)
}

/// The URL under which a scanner serves its protocol.
pub open spec fn base_url_text(s: ScannerModel) -> Seq<char> {
    origin(s) + "/"@ + text::strip_ends(s.escl_root, Strip::Only('/'))
}

/// How good a Wi-Fi route to a scanner is.
pub open spec fn quality(s: ScannerModel) -> int {
    (if s.ip is V4 {
        20int
    } else {
        0
    }) + (if s.port != 443 {
        30int
    } else {
        0
    }) + (if s.port == 8080 {
        10int
    } else {
        0
    }) + (if !text::has(s.service_type, "uscans"@) {
        10int
    } else {
        0
    })
}

/// The key by which a scanner is told from others.
pub open spec fn key(s: ScannerModel) -> Seq<char> {
    match s.via {
        Transport::Usb => match s.sane_device {
            Some(dev) => "usb:"@ + dev,
            None => "usb:ipp:"@ + number::decimal(s.port as nat),
        },
        Transport::Wifi => "wifi:"@ + addr_text(s.ip),
    }
}

/// How much a scanner is preferred where the user named none: USB over Wi-Fi, a good Wi-Fi
/// route over a bad one, and the DS-940 over other models.
pub open spec fn score(s: ScannerModel) -> int {
    (match s.via {
        Transport::Usb => 1_000int,
        Transport::Wifi => quality(s),
    }) + (if text::has(text::upper(s.name), "DS-940"@) {
        50int
    } else {
        0
    })
}

/// The line under which a scanner is offered for choice.
pub open spec fn picker_text(s: ScannerModel) -> Seq<char> {
    match s.via {
        Transport::Usb => s.name + "  USB"@,
        Transport::Wifi => s.name + "  Wi-Fi  "@ + addr_text(s.ip),
    }
}

impl ScannerInfo {
    /// The root of this scanner's URLs.
    pub fn origin_url(&self) -> (r: String)
        ensures
            r@ == origin(self@),
    {
        let mut s = "http://".to_owned();
        s.append(self.ip.to_host().as_str());
        s.append(":");
        s.append(number::decimal_text(self.port as u128).as_str());
        s
    }

    /// The URL under which this scanner serves its protocol.
    pub fn base_url(&self) -> (r: String)
        ensures
            r@ == base_url_text(self@),
    {
        let mut s = self.origin_url();
        s.append("/");
        s.append(text::strip(self.escl_root.as_str(), Strip::Only('/')).as_str());
        s
    }

    /// How good the Wi-Fi route to this scanner is.
    pub fn wifi_quality(&self) -> (r: i32)
        ensures
            r == quality(self@),
            0 <= r <= 70,
    {
        let mut score: i32 = 0;
        if let HostAddr::V4(..) = &self.ip {
            score += 20;
        }
        if self.port != 443 {
            score += 30;
        }
        if self.port == 8080 {
            score += 10;
        }
        if !text::contains(self.service_type.as_str(), "uscans") {
            score += 10;
        }
        score
    }

    /// The key by which this scanner is told from others.
    pub fn device_key(&self) -> (r: String)
        ensures
            r@ == key(self@),
    {
        match self.via {
            Transport::Usb => match &self.sane_device {
                Some(dev) => {
                    let mut s = "usb:".to_owned();
                    s.append(dev.as_str());
                    s
                },
                None => {
                    let mut s = "usb:ipp:".to_owned();
                    s.append(number::decimal_text(self.port as u128).as_str());
                    s
                },
            },
            Transport::Wifi => {
                let mut s = "wifi:".to_owned();
                s.append(self.ip.to_text().as_str());
                s
            },
        }
    }

    /// How much this scanner is preferred where the user named none.
    pub fn auto_score(&self) -> (r: i32)
        ensures
            r == score(self@),
            0 <= r <= 1_050,
    {
        let mut score: i32 = match self.via {
            Transport::Usb => 1_000,
            Transport::Wifi => self.wifi_quality(),
        };
        let name = text::to_upper(self.name.as_str());
        if text::contains(name.as_str(), "DS-940") {
            score += 50;
        }
        score
    }

    /// The line under which this scanner is offered for choice.
    pub fn picker_line(&self) -> (r: String)
        ensures
            r@ == picker_text(self@),
    {
        let mut s = self.name.clone();
        match self.via {
            Transport::Usb => {
                s.append("  USB");
            },
            Transport::Wifi => {
                s.append("  Wi-Fi  ");
                s.append(self.ip.to_text().as_str());
            },
        }
        s
    }
}

proof fn lemma_digits(n: nat)
    ensures
        forall|i: int| 0 <= i < number::decimal(n).len() ==> '0' <= #[trigger] number::decimal(n)[i]
            && number::decimal(n)[i] <= '9',
        number::decimal(n).len() > 0,
    decreases n,
{
    if n >= 10 {
        lemma_digits(n / 10);
    }
}

/// What stands before and after the first of a separator that the beginning does not hold.
proof fn lemma_split_apart(a: Seq<char>, b: Seq<char>, c: Seq<char>, d: Seq<char>, sep: char)
    requires
        a + seq![sep] + b == c + seq![sep] + d,
        forall|i: int| 0 <= i < a.len() ==> #[trigger] a[i] != sep,
        forall|i: int| 0 <= i < c.len() ==> #[trigger] c[i] != sep,
    ensures
        a == c,
        b == d,
{
    let x = a + seq![sep] + b;
    let y = c + seq![sep] + d;
    assert(x[a.len() as int] == sep);
    assert(y[c.len() as int] == sep);
    if a.len() < c.len() {
        assert(y[a.len() as int] == c[a.len() as int]);
    }
    if c.len() < a.len() {
        assert(x[c.len() as int] == a[c.len() as int]);
    }
    assert(a =~= x.take(a.len() as int));
    assert(c =~= y.take(c.len() as int));
    assert(b =~= x.skip(a.len() as int + 1));
    assert(d =~= y.skip(c.len() as int + 1));
}

/// Different addresses of four numbers have different texts.
pub proof fn addresses_are_told_apart(x: AddrModel, y: AddrModel)
    requires
        x is V4,
        y is V4,
        addr_text(x) == addr_text(y),
    ensures
        x == y,
{
    reveal_strlit(".");
    if let AddrModel::V4(a, b, c, d) = x {
        if let AddrModel::V4(e, f, g, h) = y {
            let dot = seq!['.'];
            assert("."@ =~= dot);
            let (da, db, dc, dd) = (
                number::decimal(a as nat),
                number::decimal(b as nat),
                number::decimal(c as nat),
                number::decimal(d as nat),
            );
            let (de, df, dg, dh) = (
                number::decimal(e as nat),
                number::decimal(f as nat),
                number::decimal(g as nat),
                number::decimal(h as nat),
            );
            lemma_digits(a as nat);
            lemma_digits(b as nat);
            lemma_digits(c as nat);
            lemma_digits(e as nat);
            lemma_digits(f as nat);
            lemma_digits(g as nat);
            assert(addr_text(x) =~= da + dot + (db + dot + (dc + dot + dd)));
            assert(addr_text(y) =~= de + dot + (df + dot + (dg + dot + dh)));
            lemma_split_apart(da, db + dot + (dc + dot + dd), de, df + dot + (dg + dot + dh), '.');
            lemma_split_apart(db, dc + dot + dd, df, dg + dot + dh, '.');
            lemma_split_apart(dc, dd, dg, dh, '.');
            number::decimal_reads_back(a as nat);
            number::decimal_reads_back(b as nat);
            number::decimal_reads_back(c as nat);
            number::decimal_reads_back(d as nat);
            number::decimal_reads_back(e as nat);
            number::decimal_reads_back(f as nat);
            number::decimal_reads_back(g as nat);
            number::decimal_reads_back(h as nat);
        }
    }
}

/// Devices have different keys: network scanners by their address, USB scanners by their device
/// or, without one, by their port.
pub proof fn devices_have_their_own_keys(s: ScannerModel, t: ScannerModel)
    requires
        key(s) == key(t),
        s.via == t.via,
    ensures
        s.via == Transport::Wifi && s.ip is V4 && t.ip is V4 ==> s.ip == t.ip,
        s.via == Transport::Usb && s.sane_device is Some && t.sane_device is Some
            ==> s.sane_device == t.sane_device,
        s.via == Transport::Usb && s.sane_device is None && t.sane_device is None ==> s.port
            == t.port,
{
    reveal_strlit("usb:");
    reveal_strlit("usb:ipp:");
    reveal_strlit("wifi:");
    if s.via == Transport::Wifi {
        assert(addr_text(s.ip) =~= key(s).skip(5));
        assert(addr_text(t.ip) =~= key(t).skip(5));
        if s.ip is V4 && t.ip is V4 {
            addresses_are_told_apart(s.ip, t.ip);
        }
    } else if s.sane_device is Some && t.sane_device is Some {
        assert(s.sane_device->0 =~= key(s).skip(4));
        assert(t.sane_device->0 =~= key(t).skip(4));
    } else if s.sane_device is None && t.sane_device is None {
        assert(number::decimal(s.port as nat) =~= key(s).skip(8));
        assert(number::decimal(t.port as nat) =~= key(t).skip(8));
        number::decimal_reads_back(s.port as nat);
        number::decimal_reads_back(t.port as nat);
    }
}

/// A key does not depend on the name of a scanner, nor on its path or service, so a scanner that
/// announces itself anew is the same device.
pub proof fn a_device_keeps_its_key(s: ScannerModel, name: Seq<char>, root: Seq<char>, port: u16)
    ensures
        key(ScannerModel { name, escl_root: root, hostname: name, service_type: root, ..s }) == key(s),
        s.via == Transport::Wifi ==> key(ScannerModel { port, ..s }) == key(s),
{
}

/// Of two routes to a scanner that differ in one point, the one with an address of four numbers is
/// better than one with another, a plain port better than the encrypted one, port 8080 better than
/// any other, and the plain service better than the encrypted one.
pub proof fn better_routes_are_known(s: ScannerModel, v4: AddrModel, v6: AddrModel, port: u16)
    requires
        v4 is V4,
        v6 is V6,
        port != 8080,
    ensures
        quality(ScannerModel { ip: v4, ..s }) == quality(ScannerModel { ip: v6, ..s }) + 20,
        port != 443 ==> quality(ScannerModel { port, ..s }) == quality(
            ScannerModel { port: 443, ..s },
        ) + 30,
        port != 443 ==> quality(ScannerModel { port: 8080, ..s }) == quality(
            ScannerModel { port, ..s },
        ) + 10,
        quality(ScannerModel { service_type: "_uscan._tcp.local."@, ..s }) == quality(
            ScannerModel { service_type: "_uscans._tcp.local."@, ..s },
        ) + 10,
{
    reveal_strlit("_uscan._tcp.local.");
    reveal_strlit("_uscans._tcp.local.");
    reveal_strlit("uscans");
    let a = "_uscan._tcp.local."@;
    let b = "_uscans._tcp.local."@;
    let n = "uscans"@;
    assert(b.subrange(1, 7) =~= n);
    assert(text::matches_at(b, n, 1));
    assert forall|i: int| !text::matches_at(a, n, i) by {
        if text::matches_at(a, n, i) {
            assert(a.subrange(i, i + 6)[0] == a[i]);
            assert(a.subrange(i, i + 6)[5] == a[i + 5]);
            assert(a[i] == 'u' && a[i + 5] == 's');
        }
    }
}

/// The score of a Wi-Fi scanner is the quality of its route, every USB scanner has more, and the
/// well known models have fifty more than others that are reached alike.
pub proof fn scores_rank_scanners(s: ScannerModel, name: Seq<char>)
    requires
        !text::has(text::upper(name), "DS-940"@),
    ensures
        s.via == Transport::Wifi ==> score(ScannerModel { name, ..s }) == quality(s),
        s.via == Transport::Usb ==> score(ScannerModel { name, ..s }) == 1000,
        text::has(text::upper(s.name), "DS-940"@) ==> score(s) == score(ScannerModel { name, ..s }) + 50,
        !text::has(text::upper(s.name), "DS-940"@) ==> score(s) == score(ScannerModel { name, ..s }),
{
}

/// The address of a scanner on the network is its host and port under HTTP, and slashes around its
/// path do not count.
pub proof fn urls_lead_to_the_scanner(s: ScannerModel, root: Seq<char>)
    requires
        root.len() > 0,
        root[0] != '/',
        root.last() != '/',
    ensures
        base_url_text(ScannerModel { escl_root: root, ..s }) == "http://"@ + host_text(s.ip) + ":"@
            + number::decimal(s.port as nat) + "/"@ + root,
        base_url_text(ScannerModel { escl_root: "/"@ + root, ..s }) == base_url_text(
            ScannerModel { escl_root: root, ..s },
        ),
        s.ip is V4 ==> host_text(s.ip) == addr_text(s.ip),
        s.ip matches AddrModel::V6(t) ==> host_text(s.ip) == "["@ + t + "]"@,
{
    reveal_strlit("/");
    let slash = Strip::Only('/');
    assert(text::strip_front(root, slash) == root);
    assert(text::strip_back(root, slash) == root);
    let led = "/"@ + root;
    assert(led[0] == '/');
    assert(led.drop_first() =~= root);
    assert(text::strip_front(led, slash) == text::strip_front(root, slash));
}

/// The line of a scanner in the list begins with its name and tells how it is reached.
pub proof fn the_list_tells_scanners_apart(s: ScannerModel)
    ensures
        text::begins(picker_text(s), s.name),
        s.via == Transport::Usb ==> picker_text(s) == s.name + "  USB"@,
        s.via == Transport::Wifi ==> picker_text(s) == s.name + "  Wi-Fi  "@ + addr_text(s.ip),
{
    assert(picker_text(s).subrange(0, s.name.len() as int) =~= s.name);
}

/// A transport goes by its usual name.
pub proof fn transports_are_named(t: Transport)
    ensures
        t == Transport::Wifi ==> transport_name(t) == "Wi-Fi"@,
        t == Transport::Usb ==> transport_name(t) == "USB"@,
{
}

} // verus!
