use vstd::prelude::*;

use crate::helpers::mime::{ascii_lowercase, ascii_lowercase_exec};
use crate::helpers::steam_command::copy_strings;
use crate::text::{chars_of, decimal, decimal_chars, push_all, push_str, string_of, trim, trim_exec};
use crate::tools::fs::grep::string_views;

verus! {

/// The mDNS service type WLED lights announce.
pub const MDNS_SERVICE: &'static str = "_wled._tcp.local.";

/// A light found on the local network.
#[derive(Debug)]
pub struct LedDevice {
    pub id: String,
    pub name: String,
    pub hostname: String,
    pub addresses: Vec<String>,
    pub port: u16,
}

/// A light as the contracts see it.
pub struct DeviceView {
    pub id: Seq<char>,
    pub name: Seq<char>,
    pub hostname: Seq<char>,
    pub addresses: Seq<Seq<char>>,
    pub port: u16,
}

impl View for LedDevice {
    type V = DeviceView;

    open spec fn view(&self) -> DeviceView {
        DeviceView {
            id: self.id@,
            name: self.name@,
            hostname: self.hostname@,
            addresses: string_views(self.addresses@),
            port: self.port,
        }
    }
}

/// Whether `s` holds the character `c`.
pub open spec fn contains_char(s: Seq<char>, c: char) -> bool {
    exists|i: int| 0 <= i < s.len() && s[i] == c
}

fn contains_char_exec(s: &str, c: char) -> (r: bool)
    ensures
        r == contains_char(s@, c),
{
    let v = chars_of(s);
    let mut i: usize = 0;
    while i < v.len()
        invariant
            i <= v@.len(),
            v@ == s@,
            forall|j: int| 0 <= j < i ==> v@[j] != c,
        decreases v@.len() - i,
    {
        if v[i] == c {
            return true;
        }
        i = i + 1;
    }
    false
}

/// The host a light is reached at: its first address, else its host name.
pub open spec fn device_host(d: DeviceView) -> Seq<char> {
    if d.addresses.len() > 0 {
        d.addresses[0]
    } else {
        d.hostname
    }
}

/// `host:port`, with an IPv6 literal (a host holding `:`) in brackets.
pub open spec fn authority(host: Seq<char>, port: u16) -> Seq<char> {
    if contains_char(host, ':') {
        "["@ + host + "]:"@ + decimal(port as nat)
    } else {
        host + ":"@ + decimal(port as nat)
    }
}

/// Builds `authority(host, port)`.
pub fn authority_exec(host: &str, port: u16) -> (r: Vec<char>)
    ensures
        r@ == authority(host@, port),
{
    let mut out: Vec<char> = Vec::new();
    let d = decimal_chars(port as u64);
    if contains_char_exec(host, ':') {
        push_str(&mut out, "[");
        push_str(&mut out, host);
        push_str(&mut out, "]:");
        push_all(&mut out, &d);
    } else {
        push_str(&mut out, host);
        push_str(&mut out, ":");
        push_all(&mut out, &d);
    }
    out
}

impl LedDevice {
    /// The host the light is reached at, as `device_host` states.
    pub fn choose_hostname(&self) -> (r: &str)
        ensures
            r@ == device_host(self@),
    {
        if self.addresses.len() > 0 {
            self.addresses[0].as_str()
        } else {
            self.hostname.as_str()
        }
    }

    /// The light's base URL: `http://` and its authority.
    pub fn prepare_base_url(&self) -> (r: String)
        ensures
            r@ == "http://"@ + authority(device_host(self@), self.port),
    {
        let host = self.choose_hostname();
        let a = authority_exec(host, self.port);
        let mut out: Vec<char> = Vec::new();
        push_str(&mut out, "http://");
        push_all(&mut out, &a);
        string_of(&out)
    }

    /// A copy of this light.
    pub fn duplicate(&self) -> (r: LedDevice)
        ensures
            r@ == self@,
    {
        LedDevice {
            id: self.id.clone(),
            name: self.name.clone(),
            hostname: self.hostname.clone(),
            addresses: copy_strings(&self.addresses),
            port: self.port,
        }
    }
}

/// `s` without its trailing `.` characters (`str::trim_end_matches('.')`).
pub open spec fn trim_trailing_dots(s: Seq<char>) -> Seq<char>
    decreases s.len(),
{
    if s.len() > 0 && s.last() == '.' {
        trim_trailing_dots(s.drop_last())
    } else {
        s
    }
}

fn trim_trailing_dots_exec(s: &str) -> (r: String)
    ensures
        r@ == trim_trailing_dots(s@),
{
    let v = chars_of(s);
    let mut k: usize = v.len();
    assert(v@.take(k as int) =~= v@);
    while k > 0 && v[k - 1] == '.'
        invariant
            k <= v@.len(),
            trim_trailing_dots(v@) == trim_trailing_dots(v@.take(k as int)),
        decreases k,
    {
        assert(v@.take(k as int).drop_last() =~= v@.take(k - 1));
        k = k - 1;
    }
    let mut out: Vec<char> = Vec::new();
    let mut i: usize = 0;
    while i < k
        invariant
            i <= k <= v@.len(),
            out@ == v@.take(i as int),
        decreases k - i,
    {
        out.push(v[i]);
        assert(v@.take(i + 1) =~= v@.take(i as int).push(v@[i as int]));
        i = i + 1;
    }
    string_of(&out)
}

/// `s` without the suffix `suffix` when it ends with it (`str::strip_suffix`),
/// otherwise `s` itself.
pub open spec fn strip_suffix_or_keep(s: Seq<char>, suffix: Seq<char>) -> Seq<char> {
    if suffix.len() <= s.len() && s.skip(s.len() - suffix.len()) == suffix {
        s.take(s.len() - suffix.len())
    } else {
        s
    }
}

fn strip_suffix_or_keep_exec(s: &Vec<char>, suffix: &Vec<char>) -> (r: Vec<char>)
    ensures
        r@ == strip_suffix_or_keep(s@, suffix@),
{
    if suffix.len() > s.len() {
        return s.clone();
    }
    let base = s.len() - suffix.len();
    let mut i: usize = 0;
    while i < suffix.len()
        invariant
            i <= suffix@.len(),
            base + suffix@.len() == s@.len(),
            s@.len() <= usize::MAX,
            forall|j: int| 0 <= j < i ==> s@[base + j] == suffix@[j],
        decreases suffix@.len() - i,
    {
        if s[base + i] != suffix[i] {
            proof {
                if s@.skip(base as int) == suffix@ {
                    assert(s@.skip(base as int)[i as int] == s@[base + i]);
                }
            }
            return s.clone();
        }
        i = i + 1;
    }
    assert(s@.skip(base as int) =~= suffix@);
    let mut out: Vec<char> = Vec::new();
    let mut k: usize = 0;
    while k < base
        invariant
            k <= base <= s@.len(),
            out@ == s@.take(k as int),
        decreases base - k,
    {
        out.push(s[k]);
        assert(s@.take(k + 1) =~= s@.take(k as int).push(s@[k as int]));
        k = k + 1;
    }
    out
}

/// The name a light is first listed under: its mDNS instance label, i.e. the
/// full name without `.` and the service type (the full name itself otherwise).
pub open spec fn instance_label(full_name: Seq<char>) -> Seq<char> {
    strip_suffix_or_keep(full_name, "."@ + MDNS_SERVICE@)
}

/// The index of the last light with the given id, or -1.
pub open spec fn index_of(s: Seq<DeviceView>, id: Seq<char>) -> int
    decreases s.len(),
{
    if s.len() == 0 {
        -1
    } else if s.last().id == id {
        s.len() - 1
    } else {
        index_of(s.drop_last(), id)
    }
}

/// The light with the given id, if any.
pub open spec fn lookup(s: Seq<DeviceView>, id: Seq<char>) -> Option<DeviceView> {
    let i = index_of(s, id);
    if i >= 0 {
        Some(s[i])
    } else {
        None
    }
}

proof fn lemma_index_of(s: Seq<DeviceView>, id: Seq<char>)
    ensures
        -1 <= index_of(s, id) < s.len(),
        index_of(s, id) >= 0 ==> s[index_of(s, id)].id == id,
        index_of(s, id) == -1 <==> forall|j: int| 0 <= j < s.len() ==> s[j].id != id,
        forall|j: int| index_of(s, id) < j < s.len() ==> s[j].id != id,
    decreases s.len(),
{
    if s.len() > 0 {
        lemma_index_of(s.drop_last(), id);
        assert forall|j: int| 0 <= j < s.len() - 1 implies s[j] == s.drop_last()[j] by {}
    }
}

/// No two lights share an id.
pub open spec fn ids_unique(s: Seq<DeviceView>) -> bool {
    forall|i: int, j: int| 0 <= i < j < s.len() ==> s[i].id != s[j].id
}

/// The views of a list of lights.
pub open spec fn device_views(v: Seq<LedDevice>) -> Seq<DeviceView> {
    v.map_values(|d: LedDevice| d@)
}

/// The lights discovered on the network, by id (their full mDNS name).
#[derive(Debug)]
pub struct DeviceRegistry {
    devices: Vec<LedDevice>,
}

impl View for DeviceRegistry {
    type V = Seq<DeviceView>;

    closed spec fn view(&self) -> Seq<DeviceView> {
        device_views(self.devices@)
    }
}

/// The light registered from a resolved announcement: its id and first name
/// are kept when it was known, its host name (trailing dots trimmed),
/// addresses and port are those announced.
pub open spec fn registered(
    known: Option<DeviceView>,
    full_name: Seq<char>,
    hostname: Seq<char>,
    addresses: Seq<Seq<char>>,
    port: u16,
) -> DeviceView {
    DeviceView {
        id: full_name,
        name: match known {
            Some(d) => d.name,
            None => instance_label(full_name),
        },
        hostname: trim_trailing_dots(hostname),
        addresses: addresses,
        port: port,
    }
}

impl DeviceRegistry {
    #[verifier::type_invariant]
    closed spec fn unique(&self) -> bool {
        ids_unique(device_views(self.devices@))
    }

    pub fn new() -> (r: DeviceRegistry)
        ensures
            r@.len() == 0,
    {
        let r = DeviceRegistry { devices: Vec::new() };
        assert(device_views(r.devices@) =~= Seq::<DeviceView>::empty());
        r
    }

    /// The lights, in discovery order.
    pub fn devices(&self) -> (r: &Vec<LedDevice>)
        ensures
            device_views(r@) == self@,
    {
        &self.devices
    }

    fn find(&self, id: &str) -> (r: Option<usize>)
        ensures
            match r {
                Some(i) => i as int == index_of(self@, id@) && i >= 0,
                None => index_of(self@, id@) == -1,
            },
    {
        proof {
            lemma_index_of(self@, id@);
        }
        let mut k: usize = self.devices.len();
        while k > 0
            invariant
                k <= self.devices@.len(),
                self@ == device_views(self.devices@),
                index_of(self@, id@) < k,
                forall|j: int| k <= j < self@.len() ==> self@[j].id != id@,
                -1 <= index_of(self@, id@) < self@.len(),
                index_of(self@, id@) >= 0 ==> self@[index_of(self@, id@)].id == id@,
                forall|j: int| index_of(self@, id@) < j < self@.len() ==> self@[j].id != id@,
            decreases k,
        {
            if self.devices[k - 1].id == String::from_str(id) {
                assert(self@[k - 1].id == id@);
                return Some(k - 1);
            }
            k = k - 1;
        }
        None
    }

    /// The light with the given id, as `lookup` states.
    pub fn get(&self, id: &str) -> (r: Option<&LedDevice>)
        ensures
            match r {
                Some(d) => lookup(self@, id@) == Some(d@),
                None => lookup(self@, id@) is None,
            },
    {
        proof {
            lemma_index_of(self@, id@);
        }
        match self.find(id) {
            Some(i) => Some(&self.devices[i]),
            None => None,
        }
    }

    /// The base URL of the light with the given id, if any.
    pub fn get_device_url(&self, id: &str) -> (r: Option<String>)
        ensures
            match r {
                Some(u) => lookup(self@, id@) matches Some(d) && u@ == "http://"@ + authority(
                    device_host(d),
                    d.port,
                ),
                None => lookup(self@, id@) is None,
            },
    {
        match self.get(id) {
            Some(d) => Some(d.prepare_base_url()),
            None => None,
        }
    }

    /// Records a resolved announcement, as `registered` states; returns
    /// whether the light is new (its name refresher is then started).
    pub fn register(&mut self, full_name: &str, hostname: &str, addresses: Vec<String>, port: u16) -> (r: bool)
        ensures
            r <==> lookup(old(self)@, full_name@) is None,
            lookup(final(self)@, full_name@) == Some(
                registered(lookup(old(self)@, full_name@), full_name@, hostname@, string_views(addresses@), port),
            ),
            forall|other: Seq<char>| other != full_name@ ==> #[trigger] lookup(final(self)@, other) == lookup(old(self)@, other),
            r ==> final(self)@ == old(self)@.push(
                registered(None, full_name@, hostname@, string_views(addresses@), port),
            ),
            !r ==> final(self)@ == old(self)@.update(
                index_of(old(self)@, full_name@),
                registered(lookup(old(self)@, full_name@), full_name@, hostname@, string_views(addresses@), port),
            ),
    {
        proof {
            use_type_invariant(&*self);
            lemma_index_of(self@, full_name@);
        }
        let ghost old_view = self@;
        let host = trim_trailing_dots_exec(hostname);
        match self.find(full_name) {
            Some(i) => {
                let name = self.devices[i].name.clone();
                let d = LedDevice { id: String::from_str(full_name), name, hostname: host, addresses, port };
                let mut devices: Vec<LedDevice> = Vec::new();
                std::mem::swap(&mut devices, &mut self.devices);
                devices.set(i, d);
                proof {
                    let nv = device_views(devices@);
                    assert(nv =~= old_view.update(i as int, d@));
                    assert(old_view[i as int].id == full_name@);
                    assert forall|a: int, b: int| 0 <= a < b < nv.len() implies nv[a].id != nv[b].id by {
                        assert(nv[a].id == old_view[a].id);
                        assert(nv[b].id == old_view[b].id);
                    }
                }
                std::mem::swap(&mut devices, &mut self.devices);
                proof {
                    let nv = self@;
                    assert(nv =~= old_view.update(i as int, d@));
                    lemma_index_of(nv, full_name@);
                    assert forall|other: Seq<char>| other != full_name@ implies #[trigger] lookup(nv, other)
                        == lookup(old_view, other) by {
                        lemma_index_of(nv, other);
                        lemma_index_of(old_view, other);
                        assert forall|j: int| 0 <= j < nv.len() implies nv[j].id == old_view[j].id by {}
                        if index_of(nv, other) != index_of(old_view, other) {
                            if index_of(nv, other) > index_of(old_view, other) {
                                assert(old_view[index_of(nv, other)].id == other);
                            } else {
                                assert(nv[index_of(old_view, other)].id == other);
                            }
                        }
                    }
                    if index_of(nv, full_name@) != i {
                        if index_of(nv, full_name@) < i as int {
                            assert(nv[i as int].id == full_name@);
                        }
                    }
                }
                false
            },
            None => {
                let suffix_text = {
                    let mut t: Vec<char> = Vec::new();
                    push_str(&mut t, ".");
                    push_str(&mut t, MDNS_SERVICE);
                    t
                };
                let full = chars_of(full_name);
                let label = strip_suffix_or_keep_exec(&full, &suffix_text);
                let d = LedDevice {
                    id: String::from_str(full_name),
                    name: string_of(&label),
                    hostname: host,
                    addresses,
                    port,
                };
                let ghost dv = d@;
                let mut devices: Vec<LedDevice> = Vec::new();
                std::mem::swap(&mut devices, &mut self.devices);
                devices.push(d);
                proof {
                    let nv = device_views(devices@);
                    assert(nv =~= old_view.push(dv));
                    assert forall|a: int, b: int| 0 <= a < b < nv.len() implies nv[a].id != nv[b].id by {
                        if b == nv.len() - 1 {
                            assert(nv[a] == old_view[a]);
                        } else {
                            assert(nv[a] == old_view[a]);
                            assert(nv[b] == old_view[b]);
                        }
                    }
                }
                std::mem::swap(&mut devices, &mut self.devices);
                proof {
                    let nv = self@;
                    assert(nv =~= old_view.push(dv));
                    assert(nv.drop_last() =~= old_view);
                    assert forall|other: Seq<char>| other != full_name@ implies #[trigger] lookup(nv, other)
                        == lookup(old_view, other) by {
                        lemma_index_of(old_view, other);
                        if index_of(old_view, other) >= 0 {
                            assert(nv[index_of(old_view, other)] == old_view[index_of(old_view, other)]);
                        }
                    }
                }
                true
            },
        }
    }

    /// Forgets the light with the given id; returns whether there was one.
    pub fn remove(&mut self, full_name: &str) -> (r: bool)
        ensures
            r <==> lookup(old(self)@, full_name@) is Some,
            lookup(final(self)@, full_name@) is None,
            forall|other: Seq<char>| other != full_name@ ==> #[trigger] lookup(final(self)@, other) == lookup(old(self)@, other),
            r ==> final(self)@ == old(self)@.remove(index_of(old(self)@, full_name@)),
            !r ==> final(self)@ == old(self)@,
    {
        proof {
            use_type_invariant(&*self);
            lemma_index_of(self@, full_name@);
        }
        let ghost old_view = self@;
        match self.find(full_name) {
            Some(i) => {
                let mut devices: Vec<LedDevice> = Vec::new();
                std::mem::swap(&mut devices, &mut self.devices);
                let _gone = devices.remove(i);
                proof {
                    let nv = device_views(devices@);
                    assert(nv =~= old_view.remove(i as int));
                    assert forall|a: int, b: int| 0 <= a < b < nv.len() implies nv[a].id != nv[b].id by {
                        let a2 = if a < i { a } else { a + 1 };
                        let b2 = if b < i { b } else { b + 1 };
                        assert(nv[a] == old_view[a2]);
                        assert(nv[b] == old_view[b2]);
                    }
                }
                std::mem::swap(&mut devices, &mut self.devices);
                proof {
                    let nv = self@;
                    assert(nv =~= old_view.remove(i as int));
                    lemma_index_of(nv, full_name@);
                    if index_of(nv, full_name@) >= 0 {
                        let j = index_of(nv, full_name@);
                        if j < i {
                            assert(nv[j] == old_view[j]);
                        } else {
                            assert(nv[j] == old_view[j + 1]);
                        }
                    }
                    assert forall|other: Seq<char>| other != full_name@ implies #[trigger] lookup(nv, other)
                        == lookup(old_view, other) by {
                        lemma_index_of(nv, other);
                        lemma_index_of(old_view, other);
                        let a = index_of(nv, other);
                        let b = index_of(old_view, other);
                        if b >= 0 {
                            assert(b != i);
                            if b < i {
                                assert(nv[b] == old_view[b]);
                            } else {
                                assert(nv[b - 1] == old_view[b]);
                            }
                        }
                        if a >= 0 {
                            if a < i {
                                assert(nv[a] == old_view[a]);
                            } else {
                                assert(nv[a] == old_view[a + 1]);
                            }
                        }
                    }
                }
                true
            },
            None => false,
        }
    }

    /// Takes the name a light reports about itself: it replaces the current
    /// name when one was reported and differs. Returns whether it changed.
    pub fn update_name(&mut self, id: &str, reported: Option<String>) -> (r: bool)
        ensures
            r <==> (lookup(old(self)@, id@) is Some && reported is Some && reported->0@ != lookup(
                old(self)@,
                id@,
            )->0.name),
            r ==> lookup(final(self)@, id@) == Some(
                DeviceView { name: reported->0@, ..lookup(old(self)@, id@)->0 },
            ),
            !r ==> final(self)@ == old(self)@,
            r ==> final(self)@ == old(self)@.update(
                index_of(old(self)@, id@),
                DeviceView { name: reported->0@, ..old(self)@[index_of(old(self)@, id@)] },
            ),
            forall|other: Seq<char>| other != id@ ==> #[trigger] lookup(final(self)@, other) == lookup(old(self)@, other),
    {
        proof {
            use_type_invariant(&*self);
            lemma_index_of(self@, id@);
        }
        let ghost old_view = self@;
        let i = match self.find(id) {
            Some(i) => i,
            None => return false,
        };
        let name = match reported {
            Some(n) => n,
            None => return false,
        };
        if name == self.devices[i].name {
            return false;
        }
        let old_d = self.devices[i].duplicate();
        let d = LedDevice { id: old_d.id, name, hostname: old_d.hostname, addresses: old_d.addresses, port: old_d.port };
        let mut devices: Vec<LedDevice> = Vec::new();
        std::mem::swap(&mut devices, &mut self.devices);
        devices.set(i, d);
        proof {
            let nv = device_views(devices@);
            assert(nv =~= old_view.update(i as int, d@));
            assert forall|a: int, b: int| 0 <= a < b < nv.len() implies nv[a].id != nv[b].id by {
                assert(nv[a].id == old_view[a].id);
                assert(nv[b].id == old_view[b].id);
            }
        }
        std::mem::swap(&mut devices, &mut self.devices);
        proof {
            let nv = self@;
            assert(nv =~= old_view.update(i as int, d@));
            lemma_index_of(nv, id@);
            assert forall|j: int| 0 <= j < nv.len() implies nv[j].id == old_view[j].id by {}
            assert forall|other: Seq<char>| other != id@ implies #[trigger] lookup(nv, other)
                == lookup(old_view, other) by {
                lemma_index_of(nv, other);
                lemma_index_of(old_view, other);
                if index_of(nv, other) != index_of(old_view, other) {
                    if index_of(nv, other) > index_of(old_view, other) {
                        assert(old_view[index_of(nv, other)].id == other);
                    } else {
                        assert(nv[index_of(old_view, other)].id == other);
                    }
                }
                if index_of(nv, other) >= 0 {
                    assert(index_of(nv, other) != i);
                }
            }
            if index_of(nv, id@) != i {
                if index_of(nv, id@) < i as int {
                    assert(nv[i as int].id == id@);
                }
            }
        }
        true
    }
}


/// The index of the last light whose id equals `id` ignoring ASCII case, or -1.
pub open spec fn index_of_ignoring_case(s: Seq<DeviceView>, id: Seq<char>) -> int
    decreases s.len(),
{
    if s.len() == 0 {
        -1
    } else if ascii_lowercase(s.last().id) == ascii_lowercase(id) {
        s.len() - 1
    } else {
        index_of_ignoring_case(s.drop_last(), id)
    }
}

proof fn lemma_index_of_ignoring_case(s: Seq<DeviceView>, id: Seq<char>)
    ensures
        -1 <= index_of_ignoring_case(s, id) < s.len(),
    decreases s.len(),
{
    if s.len() > 0 {
        lemma_index_of_ignoring_case(s.drop_last(), id);
    }
}

fn same_chars(a: &Vec<char>, b: &Vec<char>) -> (r: bool)
    ensures
        r == (a@ == b@),
{
    if a.len() != b.len() {
        return false;
    }
    let mut i: usize = 0;
    while i < a.len()
        invariant
            i <= a@.len(),
            a@.len() == b@.len(),
            forall|j: int| 0 <= j < i ==> a@[j] == b@[j],
        decreases a@.len() - i,
    {
        if a[i] != b[i] {
            return false;
        }
        i = i + 1;
    }
    assert(a@ =~= b@);
    true
}

impl DeviceRegistry {
    /// The light a request names: the requested id without surrounding white
    /// space, compared with the ids ignoring ASCII case.
    pub fn find_requested(&self, requested: &str) -> (r: Option<&LedDevice>)
        ensures
            match r {
                Some(d) => index_of_ignoring_case(self@, trim(requested@)) >= 0 && d@ == self@[index_of_ignoring_case(
                    self@,
                    trim(requested@),
                )],
                None => index_of_ignoring_case(self@, trim(requested@)) == -1,
            },
    {
        let t = trim_exec(requested);
        let want = ascii_lowercase_exec(&t);
        let ghost id = trim(requested@);
        proof {
            lemma_index_of_ignoring_case(self@, id);
        }
        let mut k: usize = self.devices.len();
        assert(self@.take(k as int) =~= self@);
        while k > 0
            invariant
                k <= self.devices@.len(),
                self@ == device_views(self.devices@),
                want@ == ascii_lowercase(id),
                id == trim(requested@),
                index_of_ignoring_case(self@, id) == index_of_ignoring_case(self@.take(k as int), id),
            decreases k,
        {
            let dv = chars_of(self.devices[k - 1].id.as_str());
            let lowered = ascii_lowercase_exec(&dv);
            let ghost pre = self@.take(k as int);
            assert(pre.last() == self@[k - 1]);
            if same_chars(&lowered, &want) {
                assert(index_of_ignoring_case(pre, id) == k - 1);
                return Some(&self.devices[k - 1]);
            }
            assert(pre.drop_last() =~= self@.take(k - 1));
            k = k - 1;
        }
        None
    }
}

} // verus!
