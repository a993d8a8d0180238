//! A device browser: fetching a tailnet's devices, listing and ordering them.

use vstd::prelude::*;

use crate::net::calendar::{age_text, parse_rfc3339_to_unix, tell_age, timestamp};
use crate::net::http::{headers_of, HttpRequest, HttpRequestV};
use crate::text::{
    before, cat, char_count, decimal, decimal_of, lemma_before_irreflexive, lemma_before_total,
    lemma_before_transitive, range_string, str_before, texts, to_chars, trim, trim_of,
};
use crate::utf8::{decode_lossy, lossy_text};

verus! {

/// A device seen within this many seconds counts as online.
pub const ONLINE_WINDOW_SECS: i64 = 300;

/// What is kept between runs.
pub struct Settings {
    pub api_key: String,
    /// Tailnet name, e.g. `example.com`. Blank means `-` (the key's default tailnet).
    pub tailnet: String,
    pub ssh_user: String,
}

/// One device of the tailnet.
pub struct Device {
    pub name: String,
    pub hostname: String,
    pub os: String,
    pub addresses: Vec<String>,
    pub last_seen: String,
}

/// Model of a device.
#[verifier::ext_equal]
pub struct DeviceV {
    pub name: Seq<char>,
    pub hostname: Seq<char>,
    pub os: Seq<char>,
    pub addresses: Seq<Seq<char>>,
    pub last_seen: Seq<char>,
}

impl View for Device {
    type V = DeviceV;

    open spec fn view(&self) -> DeviceV {
        DeviceV {
            name: self.name@,
            hostname: self.hostname@,
            os: self.os@,
            addresses: texts(self.addresses@),
            last_seen: self.last_seen@,
        }
    }
}

pub open spec fn devices_of(s: Seq<Device>) -> Seq<DeviceV> {
    Seq::new(s.len(), |i: int| s[i]@)
}

/// An address of the tailnet's own range.
pub open spec fn in_tailnet(a: Seq<char>) -> bool {
    a.len() >= 4 && a[0] == '1' && a[1] == '0' && a[2] == '0' && a[3] == '.'
}

/// The first address of the tailnet's own range at or after `i`.
pub open spec fn tailnet_address(a: Seq<Seq<char>>, i: int) -> Option<Seq<char>>
    decreases a.len() - i,
{
    if i < 0 || i >= a.len() {
        None
    } else if in_tailnet(a[i]) {
        Some(a[i])
    } else {
        tailnet_address(a, i + 1)
    }
}

/// What comes before the first dot at or after `i`.
pub open spec fn dot_from(s: Seq<char>, i: int) -> int
    decreases s.len() - i,
{
    if 0 <= i < s.len() && s[i] != '.' {
        dot_from(s, i + 1)
    } else {
        i
    }
}

impl DeviceV {
    /// Short display name: the name, or else the host name, up to its first dot.
    pub open spec fn short(self) -> Seq<char> {
        let base = if self.name.len() > 0 {
            self.name
        } else {
            self.hostname
        };
        base.take(dot_from(base, 0))
    }
}

impl Device {
    /// The tailnet (100.x) IPv4 address, if any.
    pub fn tailscale_ip(&self) -> (r: Option<&str>)
        ensures
            match r {
                Some(a) => tailnet_address(self@.addresses, 0) == Some(a@),
                None => tailnet_address(self@.addresses, 0) is None,
            },
    {
        let ghost all = self@.addresses;
        let mut i: usize = 0;
        while i < self.addresses.len()
            invariant
                all == texts(self.addresses@),
                i <= self.addresses@.len(),
                tailnet_address(all, 0) == tailnet_address(all, i as int),
            decreases self.addresses@.len() - i,
        {
            let a = to_chars(self.addresses[i].as_str());
            assert(all[i as int] == a@);
            if a.len() >= 4 && a[0] == '1' && a[1] == '0' && a[2] == '0' && a[3] == '.' {
                return Some(self.addresses[i].as_str());
            }
            i = i + 1;
        }
        None
    }

    /// Short display name (strip the MagicDNS suffix).
    pub fn short_name(&self) -> (r: String)
        ensures
            r@ == self@.short(),
    {
        let v = if char_count(self.name.as_str()) > 0 {
            to_chars(self.name.as_str())
        } else {
            to_chars(self.hostname.as_str())
        };
        let mut i: usize = 0;
        while i < v.len() && v[i] != '.'
            invariant
                i <= v@.len(),
                dot_from(v@, 0) == dot_from(v@, i as int),
            ensures
                i <= v@.len(),
                i == dot_from(v@, 0),
            decreases v@.len() - i,
        {
            i = i + 1;
        }
        let s = range_string(v.as_slice(), 0, i);
        assert(s@ =~= v@.take(i as int));
        s
    }

    /// Whether the device was seen lately; unknown without a time it was seen.
    pub fn online(&self, now: i64) -> (r: Option<bool>)
        ensures
            r == (match timestamp(vstd::utf8::encode_utf8(self.last_seen@)) {
                Some(seen) => Some(now - seen <= ONLINE_WINDOW_SECS),
                None => None,
            }),
    {
        match parse_rfc3339_to_unix(self.last_seen.as_str()) {
            Some(seen) => {
                let age: i128 = now as i128 - seen as i128;
                Some(age <= ONLINE_WINDOW_SECS as i128)
            },
            None => None,
        }
    }

    /// How long ago the device was seen, in words; nothing without a time it was seen.
    pub fn seen(&self, now: i64) -> (r: Option<String>)
        ensures
            match timestamp(vstd::utf8::encode_utf8(self.last_seen@)) {
                Some(seen) => r is Some && (r->0)@ == "seen "@ + age_text(now - seen),
                None => r is None,
            },
    {
        match parse_rfc3339_to_unix(self.last_seen.as_str()) {
            Some(seen) => {
                let age = tell_age(now as i128 - seen as i128);
                Some(cat("seen ", age.as_str()))
            },
            None => None,
        }
    }
}

/// Where among the first `n` devices one with a name goes: after those that do not come after
/// it.
pub open spec fn rank(s: Seq<DeviceV>, name: Seq<char>, n: int) -> int
    decreases n,
{
    if n <= 0 {
        0
    } else if before(name, s[n - 1].short()) {
        rank(s, name, n - 1)
    } else {
        n
    }
}

/// The devices `[0, n)` by short name, those of one name in the order they came.
pub open spec fn ordered(s: Seq<DeviceV>, n: int) -> Seq<DeviceV>
    decreases n,
{
    if n <= 0 {
        Seq::empty()
    } else {
        let r = ordered(s, n - 1);
        r.insert(rank(r, s[n - 1].short(), r.len() as int), s[n - 1])
    }
}

/// Names never go down from one device to the next.
pub open spec fn in_name_order(s: Seq<DeviceV>) -> bool {
    forall|i: int, j: int|
        0 <= i < j < s.len() ==> !before((#[trigger] s[j]).short(), (#[trigger] s[i]).short())
}

proof fn lemma_rank(s: Seq<DeviceV>, name: Seq<char>, n: int)
    requires
        0 <= n <= s.len(),
    ensures
        0 <= rank(s, name, n) <= n,
        forall|k: int| rank(s, name, n) <= k < n ==> before(name, (#[trigger] s[k]).short()),
        rank(s, name, n) > 0 ==> !before(name, s[rank(s, name, n) - 1].short()),
    decreases n,
{
    if n > 0 && before(name, s[n - 1].short()) {
        lemma_rank(s, name, n - 1);
    }
}

/// The list is in name order, and holds exactly the devices there are.
pub proof fn law_devices_ordered(s: Seq<DeviceV>, n: int)
    requires
        0 <= n <= s.len(),
    ensures
        in_name_order(ordered(s, n)),
        ordered(s, n).to_multiset() == s.take(n).to_multiset(),
        ordered(s, n).len() == n,
    decreases n,
{
    broadcast use vstd::seq_lib::group_to_multiset_ensures;

    if n <= 0 {
        assert(s.take(0) =~= Seq::empty());
    } else {
        law_devices_ordered(s, n - 1);
        let r = ordered(s, n - 1);
        let d = s[n - 1];
        let name = d.short();
        let at = rank(r, name, r.len() as int);
        lemma_rank(r, name, r.len() as int);
        let w = r.insert(at, d);
        assert forall|i: int, j: int| 0 <= i < j < w.len() implies !before(
            (#[trigger] w[j]).short(),
            (#[trigger] w[i]).short(),
        ) by {
            let bi = if i < at {
                i
            } else {
                i - 1
            };
            let bj = if j < at {
                j
            } else {
                j - 1
            };
            if i == at {
                assert(w[j] == r[j - 1]);
                assert(before(name, r[j - 1].short()));
                if before(r[j - 1].short(), name) {
                    lemma_before_transitive(name, r[j - 1].short(), name);
                    lemma_before_irreflexive(name);
                }
            } else if j == at {
                assert(w[i] == r[i]);
                if before(name, r[i].short()) {
                    if i < at - 1 {
                        assert(!before(r[at - 1].short(), r[i].short()));
                        lemma_before_total(r[at - 1].short(), r[i].short());
                        if r[i].short() == r[at - 1].short() {
                        } else {
                            lemma_before_transitive(name, r[i].short(), r[at - 1].short());
                        }
                    }
                }
            } else {
                assert(w[i] == r[bi] && w[j] == r[bj]);
            }
        }
        assert(s.take(n) =~= s.take(n - 1).push(d));
        assert(s.take(n).to_multiset() =~= s.take(n - 1).to_multiset().insert(d));
        assert(w.to_multiset() =~= r.to_multiset().insert(d));
    }
}

/// Where a fetch stands.
pub enum Fetch {
    Idle,
    Pending(u64),
    Failed(String),
}

pub struct Devices {
    pub settings: Settings,
    pub devices: Vec<Device>,
    pub fetch: Fetch,
    pub show_settings: bool,
    pub loaded: bool,
}

/// The request for a tailnet's devices.
pub open spec fn fetch_request(key: Seq<char>, tailnet: Seq<char>) -> HttpRequestV {
    let net = if trim_of(tailnet).len() == 0 {
        "-"@
    } else {
        trim_of(tailnet)
    };
    HttpRequestV {
        method: "GET"@,
        url: "https://api.tailscale.com/api/v2/tailnet/"@ + net + "/devices"@,
        headers: seq![
            ("Authorization"@, "Bearer "@ + trim_of(key)),
            ("Accept"@, "application/json"@),
        ],
        body: Seq::empty(),
        timeout_ms: 20000,
    }
}

/// Why a status is refused; nothing for a success.
pub open spec fn refusal(status: int, body: Seq<u8>) -> Option<Seq<char>> {
    if status == 401 || status == 403 {
        Some("auth rejected (HTTP "@ + decimal_of(status as nat) + "); check the API key"@)
    } else if 200 <= status <= 299 {
        None
    } else {
        let text = lossy_text(body);
        Some(
            "HTTP "@ + decimal_of(status as nat) + ": "@ + if text.len() > 120 {
                text.take(120)
            } else {
                text
            },
        )
    }
}

/// Why a response is refused by its status, if it is.
fn judge(status: u16, body: &[u8]) -> (r: Option<String>)
    ensures
        match r {
            Some(s) => refusal(status as int, body@) == Some(s@),
            None => refusal(status as int, body@) is None,
        },
{
    if status == 401 || status == 403 {
        let head = cat("auth rejected (HTTP ", decimal(status as usize).as_str());
        return Some(cat(head.as_str(), "); check the API key"));
    }
    if 200 <= status && status <= 299 {
        return None;
    }
    let text = to_chars(decode_lossy(body).as_str());
    let n: usize = if text.len() > 120 {
        120
    } else {
        text.len()
    };
    let shown = range_string(text.as_slice(), 0, n);
    proof {
        let t = lossy_text(body@);
        assert(shown@ =~= (if t.len() > 120 {
            t.take(120)
        } else {
            t
        }));
    }
    let head = cat(cat("HTTP ", decimal(status as usize).as_str()).as_str(), ": ");
    Some(cat(head.as_str(), shown.as_str()))
}

impl Devices {
    pub fn new() -> (r: Self)
        ensures
            r.fetch is Idle,
            r.devices@.len() == 0,
            !r.show_settings,
            !r.loaded,
            r.settings.api_key@.len() == 0,
            r.settings.tailnet@.len() == 0,
            r.settings.ssh_user@.len() == 0,
    {
        Devices {
            settings: Settings {
                api_key: String::new(),
                tailnet: String::new(),
                ssh_user: String::new(),
            },
            devices: Vec::new(),
            fetch: Fetch::Idle,
            show_settings: false,
            loaded: false,
        }
    }

    /// Take the stored settings, once; without a key the settings open, so that one can be
    /// pasted.
    pub fn take_settings(&mut self, stored: Option<Settings>)
        ensures
            old(self).loaded ==> *final(self) == *old(self),
            !old(self).loaded ==> final(self).loaded && final(self).settings == (match stored {
                Some(s) => s,
                None => old(self).settings,
            }) && final(self).show_settings == (trim_of(final(self).settings.api_key@).len() == 0)
                && final(self).devices == old(self).devices && final(self).fetch == old(
                self,
            ).fetch,
    {
        if self.loaded {
            return ;
        }
        self.loaded = true;
        if let Some(s) = stored {
            self.settings = s;
        }
        self.show_settings = char_count(trim(self.settings.api_key.as_str()).as_str()) == 0;
    }

    /// The request that fetches the devices; without a key there is none, and the fetch fails.
    pub fn refresh(&mut self) -> (r: Option<HttpRequest>)
        ensures
            final(self).settings == old(self).settings,
            final(self).devices == old(self).devices,
            final(self).show_settings == old(self).show_settings,
            final(self).loaded == old(self).loaded,
            match r {
                Some(q) => trim_of(old(self).settings.api_key@).len() > 0 && q@ == fetch_request(
                    old(self).settings.api_key@,
                    old(self).settings.tailnet@,
                ) && final(self).fetch == old(self).fetch,
                None => trim_of(old(self).settings.api_key@).len() == 0
                    && (final(self).fetch matches Fetch::Failed(e) && e@
                    == "set a Tailscale API key in settings"@),
            },
    {
        let key = trim(self.settings.api_key.as_str());
        if char_count(key.as_str()) == 0 {
            self.fetch = Fetch::Failed("set a Tailscale API key in settings".to_string());
            return None;
        }
        let named = trim(self.settings.tailnet.as_str());
        let net = if char_count(named.as_str()) == 0 {
            "-".to_string()
        } else {
            named
        };
        let head = cat("https://api.tailscale.com/api/v2/tailnet/", net.as_str());
        let mut headers: Vec<(String, String)> = Vec::new();
        headers.push(("Authorization".to_string(), cat("Bearer ", key.as_str())));
        headers.push(("Accept".to_string(), "application/json".to_string()));
        let q = HttpRequest {
            method: "GET".to_string(),
            url: cat(head.as_str(), "/devices"),
            headers,
            body: Vec::new(),
            timeout_ms: 20000,
        };
        proof {
            let want = fetch_request(self.settings.api_key@, self.settings.tailnet@);
            assert(headers_of(q.headers@) =~= want.headers);
            assert(q.body@ =~= Seq::<u8>::empty());
        }
        Some(q)
    }

    /// A fetch is under way, or why it is not.
    pub fn started(&mut self, id: Result<Option<u64>, String>)
        ensures
            final(self).settings == old(self).settings,
            final(self).devices == old(self).devices,
            final(self).show_settings == old(self).show_settings,
            final(self).loaded == old(self).loaded,
            match id {
                Ok(Some(id)) => final(self).fetch == Fetch::Pending(id),
                Ok(None) => final(self).fetch matches Fetch::Failed(e) && e@
                    == "host returned a bad request id"@,
                Err(e) => final(self).fetch == Fetch::Failed(e),
            },
    {
        self.fetch = match id {
            Ok(Some(id)) => Fetch::Pending(id),
            Ok(None) => Fetch::Failed("host returned a bad request id".to_string()),
            Err(e) => Fetch::Failed(e),
        };
    }

    /// The fetch failed.
    pub fn fail(&mut self, why: String)
        ensures
            final(self).fetch == Fetch::Failed(why),
            final(self).settings == old(self).settings,
            final(self).devices == old(self).devices,
            final(self).show_settings == old(self).show_settings,
            final(self).loaded == old(self).loaded,
    {
        self.fetch = Fetch::Failed(why);
    }

    /// Take a response, with the devices read from its body or why they could not be: a
    /// refused one fails the fetch, else the devices are listed in name order.
    pub fn apply_response(&mut self, status: u16, body: &[u8], read: Result<Vec<Device>, String>)
        ensures
            final(self).settings == old(self).settings,
            final(self).show_settings == old(self).show_settings,
            final(self).loaded == old(self).loaded,
            match refusal(status as int, body@) {
                Some(why) => (final(self).fetch matches Fetch::Failed(e) && e@ == why)
                    && final(self).devices == old(self).devices,
                None => match read {
                    Ok(found) => final(self).fetch is Idle && devices_of(final(self).devices@)
                        == ordered(devices_of(found@), found@.len() as int),
                    Err(why) => (final(self).fetch matches Fetch::Failed(e) && e@
                        == "parsing devices: "@ + why@) && final(self).devices == old(
                        self,
                    ).devices,
                },
            },
    {
        if let Some(why) = judge(status, body) {
            self.fetch = Fetch::Failed(why);
            return ;
        }
        match read {
            Ok(found) => {
                self.devices = sort_devices(found);
                self.fetch = Fetch::Idle;
            },
            Err(why) => {
                self.fetch = Fetch::Failed(cat("parsing devices: ", why.as_str()));
            },
        }
    }
}

/// Put devices in name order.
pub fn sort_devices(found: Vec<Device>) -> (r: Vec<Device>)
    ensures
        devices_of(r@) == ordered(devices_of(found@), found@.len() as int),
{
    let ghost all = devices_of(found@);
    let mut rest = found;
    let mut stack: Vec<Device> = Vec::new();
    let n: usize = rest.len();
    while rest.len() > 0
        invariant
            n == all.len(),
            rest@.len() + stack@.len() == n,
            devices_of(rest@) =~= all.take(rest@.len() as int),
            forall|k: int|
                0 <= k < stack@.len() ==> (#[trigger] stack@[k])@ == all[n - 1 - k],
        decreases rest@.len(),
    {
        let ghost before_pop = rest@;
        match rest.pop() {
            Some(d) => {
                assert(devices_of(before_pop)[before_pop.len() - 1] == d@);
                assert(devices_of(rest@) =~= devices_of(before_pop).drop_last());
                stack.push(d);
            },
            None => {},
        }
    }
    let mut out: Vec<Device> = Vec::new();
    assert(devices_of(out@) =~= ordered(all, 0));
    while stack.len() > 0
        invariant
            n == all.len(),
            out@.len() + stack@.len() == n,
            devices_of(out@) == ordered(all, out@.len() as int),
            forall|k: int|
                0 <= k < stack@.len() ==> (#[trigger] stack@[k])@ == all[n - 1 - k],
        decreases stack@.len(),
    {
        let ghost s0 = stack@;
        match stack.pop() {
            Some(d) => {
                assert(s0[s0.len() - 1]@ == all[n - s0.len()]);
                insert_device(&mut out, d);
            },
            None => {},
        }
    }
    out
}

fn insert_device(out: &mut Vec<Device>, d: Device)
    ensures
        devices_of(final(out)@) == devices_of(old(out)@).insert(
            rank(devices_of(old(out)@), d@.short(), old(out)@.len() as int),
            d@,
        ),
        final(out)@.len() == old(out)@.len() + 1,
{
    let ghost s = devices_of(out@);
    let name = d.short_name();
    let mut at: usize = out.len();
    while at > 0 && str_before(name.as_str(), out[at - 1].short_name().as_str())
        invariant
            s == devices_of(out@),
            *out == *old(out),
            at <= out@.len(),
            name@ == d@.short(),
            rank(s, name@, out@.len() as int) == rank(s, name@, at as int),
        ensures
            *out == *old(out),
            at <= out@.len(),
            at == rank(s, name@, out@.len() as int),
        decreases at,
    {
        at = at - 1;
    }
    out.insert(at, d);
    assert(devices_of(out@) =~= s.insert(at as int, d@));
}

/// The user to log in as; `root` where none is set.
pub fn default_user(configured: &str) -> (r: String)
    ensures
        r@ == (if trim_of(configured@).len() == 0 {
            "root"@
        } else {
            trim_of(configured@)
        }),
{
    let u = trim(configured);
    if char_count(u.as_str()) == 0 {
        "root".to_string()
    } else {
        u
    }
}

/// The address shown is the first of the tailnet's own; without one there is none.
pub proof fn law_address_is_first(a: Seq<Seq<char>>, i: int)
    requires
        0 <= i,
    ensures
        match tailnet_address(a, i) {
            Some(x) => exists|k: int|
                i <= k < a.len() && #[trigger] a[k] == x && in_tailnet(x) && forall|j: int|
                    i <= j < k ==> !in_tailnet(#[trigger] a[j]),
            None => forall|j: int| i <= j < a.len() ==> !in_tailnet(#[trigger] a[j]),
        },
    decreases a.len() - i,
{
    if i < a.len() && !in_tailnet(a[i]) {
        law_address_is_first(a, i + 1);
        if let Some(x) = tailnet_address(a, i + 1) {
            let k = choose|k: int|
                i + 1 <= k < a.len() && #[trigger] a[k] == x && in_tailnet(x) && forall|j: int|
                    i + 1 <= j < k ==> !in_tailnet(#[trigger] a[j]);
            assert(a[k] == x);
        }
    }
}

/// A short name is all of the name, or else of the host name, up to its first dot.
pub proof fn law_short_name(d: DeviceV)
    ensures
        ({
            let base = if d.name.len() > 0 {
                d.name
            } else {
                d.hostname
            };
            let n = d.short().len() as int;
            &&& n <= base.len() && d.short() == base.take(n)
            &&& forall|k: int| 0 <= k < n ==> #[trigger] base[k] != '.'
            &&& n == base.len() || base[n] == '.'
        }),
{
    let base = if d.name.len() > 0 {
        d.name
    } else {
        d.hostname
    };
    lemma_dot_from(base, 0);
}

proof fn lemma_dot_from(s: Seq<char>, i: int)
    requires
        0 <= i <= s.len(),
    ensures
        i <= dot_from(s, i) <= s.len(),
        forall|k: int| i <= k < dot_from(s, i) ==> #[trigger] s[k] != '.',
        dot_from(s, i) == s.len() || s[dot_from(s, i)] == '.',
    decreases s.len() - i,
{
    if i < s.len() && s[i] != '.' {
        lemma_dot_from(s, i + 1);
    }
}

} // verus!
