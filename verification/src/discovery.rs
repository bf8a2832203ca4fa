//! Finding servers on the local network (mDNS service discovery).
//!
//! A server advertises the service `_subspace._tcp.local.` under its device
//! name. Browsing reports resolved services by their full name, e.g.
//! `office-pc._subspace._tcp.local.`, whose first label is the instance name.
use vstd::prelude::*;

use crate::text::{decimal, spec_decimal};

verus! {

/// The mDNS service type that servers advertise.
pub fn service_type() -> (s: String)
    ensures
        s@ == "_subspace._tcp.local."@,
{
    "_subspace._tcp.local.".to_owned()
}

/// A server found on the network.
#[derive(Debug, Clone, PartialEq, Eq)]
pub struct DiscoveredServer {
    /// The full service name.
    pub name: String,
    /// Its first address.
    pub addr: String,
    pub port: u16,
}

/// The instance name within a full service name: the text before the first dot.
pub fn instance_name(fullname: &str) -> (r: String)
    ensures
        r@.len() <= fullname@.len(),
        r@ == fullname@.take(r@.len() as int),
        forall|j: int| 0 <= j < r@.len() ==> fullname@[j] != '.',
        r@.len() == fullname@.len() || fullname@[r@.len() as int] == '.',
{
    let len = fullname.unicode_len();
    let mut i: usize = 0;
    while i < len
        invariant
            len == fullname@.len(),
            i <= len,
            forall|j: int| 0 <= j < i ==> fullname@[j] != '.',
        ensures
            i <= len,
            forall|j: int| 0 <= j < i ==> fullname@[j] != '.',
            i == len || fullname@[i as int] == '.',
        decreases len - i,
    {
        if fullname.get_char(i) == '.' {
            break;
        }
        i = i + 1;
    }
    let r = fullname.substring_char(0, i).to_owned();
    assert(r@ =~= fullname@.take(i as int));
    r
}

/// The host name a server advertises for its device name.
pub fn advertised_host_name(device_name: &str) -> (r: String)
    ensures
        r@ == device_name@ + ".local."@,
{
    let mut r = device_name.to_owned();
    r.append(".local.");
    r
}

/// An address and port written as `addr:port`, ready to connect to.
pub fn endpoint(addr: &str, port: u16) -> (r: String)
    ensures
        r@ == addr@ + ":"@ + spec_decimal(port as nat),
{
    let mut r = addr.to_owned();
    r.append(":");
    let p = decimal(port as u64);
    r.append(p.as_str());
    r
}

/// The entry for a resolved service, if it has an address (the first one is taken).
pub fn resolved_entry(fullname: &str, first_addr: Option<String>, port: u16) -> (r: Option<DiscoveredServer>)
    ensures
        match first_addr {
            Some(a) => r matches Some(s) && s.name@ == fullname@ && s.addr == a && s.port == port,
            None => r is None,
        },
{
    match first_addr {
        Some(addr) => Some(DiscoveredServer { name: fullname.to_owned(), addr, port }),
        None => None,
    }
}

/// What a search for one server by name does with a resolved service.
#[derive(Debug, Clone, PartialEq, Eq)]
pub enum SearchStep {
    /// Another server: keep listening.
    Continue,
    /// The server searched for: stop, with its entry if it has an address.
    Done(Option<DiscoveredServer>),
}

/// A resolved service seen while searching for the server named `wanted`.
pub fn search_step(wanted: &str, fullname: &str, first_addr: Option<String>, port: u16) -> (s: SearchStep)
    ensures
        ({
            let n = instance_name_of(fullname@);
            if n == wanted@ {
                s matches SearchStep::Done(r) && match first_addr {
                    Some(a) => r matches Some(e) && e.name@ == fullname@ && e.addr == a && e.port == port,
                    None => r is None,
                }
            } else {
                s == SearchStep::Continue
            }
        }),
{
    let instance = instance_name(fullname);
    proof {
        lemma_instance_name_unique(fullname@, instance@);
    }
    let wanted_owned = wanted.to_owned();
    if instance == wanted_owned {
        SearchStep::Done(resolved_entry(fullname, first_addr, port))
    } else {
        SearchStep::Continue
    }
}

/// The text of `s` before its first dot.
pub open spec fn instance_name_of(s: Seq<char>) -> Seq<char>
    decreases s.len(),
{
    if s.len() == 0 || s[0] == '.' {
        seq![]
    } else {
        seq![s[0]] + instance_name_of(s.drop_first())
    }
}

proof fn lemma_instance_name_unique(s: Seq<char>, r: Seq<char>)
    requires
        r.len() <= s.len(),
        r == s.take(r.len() as int),
        forall|j: int| 0 <= j < r.len() ==> s[j] != '.',
        r.len() == s.len() || s[r.len() as int] == '.',
    ensures
        instance_name_of(s) == r,
    decreases s.len(),
{
    if r.len() > 0 {
        let r1 = r.drop_first();
        let s1 = s.drop_first();
        assert(r1 =~= s1.take(r1.len() as int));
        assert forall|j: int| 0 <= j < r1.len() implies s1[j] != '.' by {
            assert(s1[j] == s[j + 1]);
        }
        lemma_instance_name_unique(s1, r1);
        assert(r =~= seq![s[0]] + r1);
    }
}

/// The line that lists a found server.
pub fn server_line(server: &DiscoveredServer) -> (r: String)
    ensures
        r@ == server.name@ + "  "@ + server.addr@ + ":"@ + spec_decimal(server.port as nat),
{
    let mut r = server.name.clone();
    r.append("  ");
    let e = endpoint(server.addr.as_str(), server.port);
    r.append(e.as_str());
    r
}

} // verus!
