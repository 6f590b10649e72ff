//! The node's identity and the monitors it knows, fixed once the node has
//! registered.

use vstd::prelude::*;
use vstd::std_specs::cmp::PartialEqSpecImpl;
use crypto::digest::Digest;
use crypto::sha1::Sha1;
use crate::text::{clone_strings, views};

verus! {

/// A monitor: its address and the regions it is bound to, the primary
/// region first.
pub struct Monitor {
    pub addr: String,
    pub bound: Vec<String>,
}

/// What a [`Monitor`] holds.
pub struct MonitorView {
    pub addr: Seq<char>,
    pub bound: Seq<Seq<char>>,
}

impl View for Monitor {
    type V = MonitorView;

    open spec fn view(&self) -> MonitorView {
        MonitorView { addr: self.addr@, bound: views(self.bound@) }
    }
}

impl Clone for Monitor {
    fn clone(&self) -> (r: Monitor)
        ensures
            r@ == self@,
    {
        Monitor { addr: self.addr.clone(), bound: clone_strings(&self.bound) }
    }
}

impl PartialEq for Monitor {
    /// Two monitors are equal when their addresses are.
    fn eq(&self, other: &Monitor) -> (r: bool) {
        self.addr == other.addr
    }
}

impl PartialEqSpecImpl for Monitor {
    open spec fn obeys_eq_spec() -> bool {
        true
    }

    open spec fn eq_spec(&self, other: &Monitor) -> bool {
        self.addr@ == other.addr@
    }
}

/// The contents of a list of monitors.
pub open spec fn monitor_views(v: Seq<Monitor>) -> Seq<MonitorView> {
    Seq::new(v.len(), |i: int| v[i]@)
}

/// A copy of a list of monitors, with the same contents in the same order.
pub fn clone_monitors(v: &Vec<Monitor>) -> (r: Vec<Monitor>)
    ensures
        monitor_views(r@) == monitor_views(v@),
{
    let mut out: Vec<Monitor> = Vec::new();
    let mut i: usize = 0;
    while i < v.len()
        invariant
            i <= v.len(),
            out@.len() == i,
            forall|k: int| 0 <= k < i ==> out@[k]@ == v@[k]@,
        decreases v.len() - i,
    {
        out.push(v[i].clone());
        i += 1;
    }
    assert(monitor_views(out@) =~= monitor_views(v@));
    out
}

/// The SHA-1 digest of a byte string, written as lower-case hexadecimal
/// digits.
pub uninterp spec fn sha1_hex(content: Seq<u8>) -> Seq<char>;

/// The longest input, in bytes, whose length in bits the digest can count.
pub const MAX_CONTENT_LEN: u64 = 0x1fff_ffff_ffff_ffff;

/// Feeds the bytes to a fresh `crypto::sha1::Sha1` with `Digest::input` and
/// reads `Digest::result_str`. The result is named, not computed here: the
/// same bytes give the same digest. Longer inputs than `MAX_CONTENT_LEN`
/// are left out, since the digest panics when its bit count overflows.
#[verifier::external_body]
fn sha1_digest(content: &[u8]) -> (digest: String)
    requires
        content@.len() <= MAX_CONTENT_LEN,
    ensures
        digest@ == sha1_hex(content@),
{
    let mut hasher = Sha1::new();
    hasher.input(content);
    hasher.result_str()
}

/// The node's settings after registration.
pub struct ConfigStore {
    manager_addr: String,
    own_monitor: Monitor,
    monitors: Vec<Monitor>,
    port: u16,
    fingerprint: String,
    ipv6: Option<String>,
}

/// What a [`ConfigStore`] holds.
pub struct ConfigStoreView {
    /// The address of the manager.
    pub manager_addr: Seq<char>,
    /// The monitor that this node reports to.
    pub own_monitor: MonitorView,
    /// All monitors of the network, the own one among them.
    pub monitors: Seq<MonitorView>,
    /// The port that the node's server listens on.
    pub port: u16,
    /// The node's identifier.
    pub fingerprint: Seq<char>,
    /// The IPv6 address that the node advertises, if any.
    pub ipv6: Option<Seq<char>>,
}

/// What an optional string holds.
pub open spec fn option_view(s: Option<String>) -> Option<Seq<char>> {
    match s {
        Some(t) => Some(t@),
        None => None,
    }
}

/// A copy of an optional string.
pub fn clone_option(s: &Option<String>) -> (r: Option<String>)
    ensures
        option_view(r) == option_view(*s),
{
    match s {
        Some(t) => Some(t.clone()),
        None => None,
    }
}

impl View for ConfigStore {
    type V = ConfigStoreView;

    closed spec fn view(&self) -> ConfigStoreView {
        ConfigStoreView {
            manager_addr: self.manager_addr@,
            own_monitor: self.own_monitor@,
            monitors: monitor_views(self.monitors@),
            port: self.port,
            fingerprint: self.fingerprint@,
            ipv6: option_view(self.ipv6),
        }
    }
}

/// The operations of the settings store.
pub trait ConfigStoreFunc: Sized + View<V = ConfigStoreView> {
    /// The settings made of the given parts.
    fn new(
        manager_addr: &str,
        own_monitor: Monitor,
        monitors: Vec<Monitor>,
        port: u16,
        fingerprint: &str,
        ipv6: Option<String>,
    ) -> (store: ConfigStore)
        ensures
            store@ == (ConfigStoreView {
                manager_addr: manager_addr@,
                own_monitor: own_monitor@,
                monitors: monitor_views(monitors@),
                port,
                fingerprint: fingerprint@,
                ipv6: option_view(ipv6),
            }),
    ;

    /// The monitor that this node reports to.
    fn monitor(&self) -> (monitor: Monitor)
        ensures
            monitor@ == self@.own_monitor,
    ;

    /// All monitors of the network.
    fn monitors(&self) -> (monitors: Vec<Monitor>)
        ensures
            monitor_views(monitors@) == self@.monitors,
    ;

    /// The address of the manager.
    fn manager(&self) -> (addr: String)
        ensures
            addr@ == self@.manager_addr,
    ;

    /// The port that the node's server listens on.
    fn port(&self) -> (port: u16)
        ensures
            port == self@.port,
    ;

    /// The node's identifier.
    fn fingerprint(&self) -> (fingerprint: String)
        ensures
            fingerprint@ == self@.fingerprint,
    ;

    /// The IPv6 address that the node advertises, if any.
    fn ipv6(&self) -> (ipv6: Option<String>)
        ensures
            option_view(ipv6) == self@.ipv6,
    ;

    /// The content address of a file: the SHA-1 digest of its bytes in
    /// hexadecimal. The settings stay as they are.
    fn hash_content(&mut self, content: &[u8]) -> (hash: String)
        requires
            content@.len() <= MAX_CONTENT_LEN,
        ensures
            hash@ == sha1_hex(content@),
            final(self)@ == old(self)@,
    ;
}

impl ConfigStoreFunc for ConfigStore {
    fn new(
        manager_addr: &str,
        own_monitor: Monitor,
        monitors: Vec<Monitor>,
        port: u16,
        fingerprint: &str,
        ipv6: Option<String>,
    ) -> (store: ConfigStore) {
        ConfigStore {
            manager_addr: String::from_str(manager_addr),
            own_monitor,
            monitors,
            port,
            fingerprint: String::from_str(fingerprint),
            ipv6,
        }
    }

    fn monitor(&self) -> (monitor: Monitor) {
        self.own_monitor.clone()
    }

    fn monitors(&self) -> (monitors: Vec<Monitor>) {
        clone_monitors(&self.monitors)
    }

    fn manager(&self) -> (addr: String) {
        self.manager_addr.clone()
    }

    fn port(&self) -> (port: u16) {
        self.port
    }

    fn fingerprint(&self) -> (fingerprint: String) {
        self.fingerprint.clone()
    }

    fn ipv6(&self) -> (ipv6: Option<String>) {
        clone_option(&self.ipv6)
    }

    fn hash_content(&mut self, content: &[u8]) -> (hash: String) {
        sha1_digest(content)
    }
}

} // verus!
