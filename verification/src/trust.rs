//! Trust on first use: the table of known servers and what it decides.
//!
//! A server is known by a host key; the table records the certificate
//! fingerprint that was accepted for it. A later connection is trusted only
//! if the server presents the same fingerprint.
use vstd::prelude::*;
use std::collections::BTreeMap;

verus! {

#[verifier::external_type_specification]
#[verifier::external_body]
pub struct ExJsonError(serde_json::Error);

// -------- the table as a map --------

/// The map that a list of (host key, fingerprint) pairs records; a later
/// pair for the same host key replaces an earlier one.
pub open spec fn table_map(s: Seq<(Seq<char>, Seq<char>)>) -> Map<Seq<char>, Seq<char>>
    decreases s.len(),
{
    if s.len() == 0 {
        Map::empty()
    } else {
        table_map(s.drop_last()).insert(s.last().0, s.last().1)
    }
}

/// No host key occurs twice.
pub open spec fn distinct_keys(s: Seq<(Seq<char>, Seq<char>)>) -> bool {
    forall|i: int, j: int| 0 <= i < j < s.len() ==> s[i].0 != s[j].0
}

proof fn lemma_table_has(s: Seq<(Seq<char>, Seq<char>)>, i: int)
    requires
        distinct_keys(s),
        0 <= i < s.len(),
    ensures
        table_map(s).contains_key(s[i].0),
        table_map(s)[s[i].0] == s[i].1,
    decreases s.len(),
{
    if i < s.len() - 1 {
        lemma_table_has(s.drop_last(), i);
    }
}

proof fn lemma_table_lacks(s: Seq<(Seq<char>, Seq<char>)>, k: Seq<char>)
    requires
        forall|i: int| 0 <= i < s.len() ==> s[i].0 != k,
    ensures
        !table_map(s).contains_key(k),
    decreases s.len(),
{
    if s.len() > 0 {
        lemma_table_lacks(s.drop_last(), k);
    }
}

proof fn lemma_table_update(s: Seq<(Seq<char>, Seq<char>)>, i: int, v: Seq<char>)
    requires
        distinct_keys(s),
        0 <= i < s.len(),
    ensures
        table_map(s.update(i, (s[i].0, v))) == table_map(s).insert(s[i].0, v),
        distinct_keys(s.update(i, (s[i].0, v))),
    decreases s.len(),
{
    let t = s.update(i, (s[i].0, v));
    if i == s.len() - 1 {
        assert(t.drop_last() =~= s.drop_last());
        assert(table_map(t) =~= table_map(s).insert(s[i].0, v));
    } else {
        assert(t.drop_last() =~= s.drop_last().update(i, (s[i].0, v)));
        lemma_table_update(s.drop_last(), i, v);
        assert(s.last().0 != s[i].0);
        assert(table_map(t) =~= table_map(s).insert(s[i].0, v));
    }
}

// -------- serialisation of the table --------

/// The pretty-printed JSON object that `serde_json` writes for `pairs`:
/// host keys to fingerprints, in the order of the pairs.
pub uninterp spec fn host_table_text(pairs: Seq<(Seq<char>, Seq<char>)>) -> Seq<char>;

/// What `serde_json::from_str` reads from `raw` as a JSON object of strings:
/// its (host key, fingerprint) pairs, or `None` where `raw` is not such an object.
pub uninterp spec fn host_table_parse(raw: Seq<char>) -> Option<Seq<(Seq<char>, Seq<char>)>>;

/// Writes the pairs, in order, as one JSON object with `serde_json`'s pretty
/// printer (`Serializer::collect_map`), as `to_string_pretty` writes a map.
/// Writing strings into memory cannot fail. JSON strings carry any Rust
/// string exactly, so where no key occurs twice, `serde_json` reads the text
/// back as an object with the same pairs.
#[verifier::external_body]
fn host_table_to_json(pairs: &Vec<(String, String)>) -> (res: Result<String, serde_json::Error>)
    ensures
        res is Ok,
        res matches Ok(text) ==> text@ == host_table_text(pairs.deep_view()),
        res matches Ok(text) ==> (distinct_keys(pairs.deep_view()) ==> (host_table_parse(text@) matches Some(q)
            && table_map(q) == table_map(pairs.deep_view()))),
{
    let mut out: Vec<u8> = Vec::new();
    let mut ser = serde_json::Serializer::pretty(&mut out);
    match serde::Serializer::collect_map(&mut ser, pairs.iter().map(|(k, v)| (k, v))) {
        Ok(()) => Ok(String::from_utf8_lossy(&out).into_owned()),
        Err(e) => Err(e),
    }
}

/// `serde_json::from_str` into a `BTreeMap<String, String>`, whose pairs are
/// handed back in a `Vec`.
#[verifier::external_body]
fn host_table_from_json(raw: &str) -> (res: Result<Vec<(String, String)>, serde_json::Error>)
    ensures
        match res {
            Ok(pairs) => host_table_parse(raw@) == Some(pairs.deep_view()),
            Err(_) => host_table_parse(raw@) is None,
        },
{
    match serde_json::from_str::<BTreeMap<String, String>>(raw) {
        Ok(map) => Ok(map.into_iter().collect()),
        Err(e) => Err(e),
    }
}

/// The pairs after `key` is trusted with `value`: the pair for `key` is
/// replaced where it stands, or a new pair is added at the end.
pub open spec fn put_pair(p: Seq<(Seq<char>, Seq<char>)>, key: Seq<char>, value: Seq<char>) -> Seq<(Seq<char>, Seq<char>)>
    decreases p.len(),
{
    if p.len() == 0 {
        seq![(key, value)]
    } else if p[0].0 == key {
        seq![(key, value)] + p.drop_first()
    } else {
        seq![p[0]] + put_pair(p.drop_first(), key, value)
    }
}

proof fn lemma_put_replaces(p: Seq<(Seq<char>, Seq<char>)>, i: int, value: Seq<char>)
    requires
        distinct_keys(p),
        0 <= i < p.len(),
    ensures
        put_pair(p, p[i].0, value) == p.update(i, (p[i].0, value)),
    decreases p.len(),
{
    let key = p[i].0;
    if i == 0 {
        assert(seq![(key, value)] + p.drop_first() =~= p.update(0, (key, value)));
    } else {
        assert(p[0].0 != key);
        let q = p.drop_first();
        assert(q[i - 1] == p[i]);
        assert(distinct_keys(q)) by {
            assert forall|a: int, b: int| 0 <= a < b < q.len() implies q[a].0 != q[b].0 by {
                assert(q[a] == p[a + 1] && q[b] == p[b + 1]);
            }
        }
        lemma_put_replaces(q, i - 1, value);
        assert(seq![p[0]] + q.update(i - 1, (key, value)) =~= p.update(i, (key, value)));
    }
}

proof fn lemma_put_appends(p: Seq<(Seq<char>, Seq<char>)>, key: Seq<char>, value: Seq<char>)
    requires
        forall|i: int| 0 <= i < p.len() ==> p[i].0 != key,
    ensures
        put_pair(p, key, value) == p.push((key, value)),
    decreases p.len(),
{
    if p.len() == 0 {
        assert(seq![(key, value)] =~= p.push((key, value)));
    } else {
        let q = p.drop_first();
        assert(p[0].0 != key);
        assert forall|i: int| 0 <= i < q.len() implies q[i].0 != key by {
            assert(q[i] == p[i + 1]);
        }
        lemma_put_appends(q, key, value);
        assert(seq![p[0]] + q.push((key, value)) =~= p.push((key, value)));
    }
}

/// Why the table could not be read or written as JSON.
#[derive(Debug, Clone, Copy, PartialEq, Eq)]
pub enum StoreError {
    /// The stored text is not a JSON object of strings.
    Unreadable,
    /// The table could not be written as JSON.
    Unwritable,
}

// -------- the store --------

/// The table of known servers: host key to the fingerprint that was trusted.
#[derive(Debug)]
pub struct KnownHostsStore {
    entries: Vec<(String, String)>,
}

impl View for KnownHostsStore {
    type V = Map<Seq<char>, Seq<char>>;

    open spec fn view(&self) -> Map<Seq<char>, Seq<char>> {
        table_map(self.pairs())
    }
}

impl KnownHostsStore {
    /// The recorded (host key, fingerprint) pairs, in the order they are kept.
    pub closed spec fn pairs(&self) -> Seq<(Seq<char>, Seq<char>)> {
        self.entries.deep_view()
    }

    #[verifier::type_invariant]
    spec fn no_duplicate_hosts(self) -> bool {
        distinct_keys(self.entries.deep_view())
    }

    /// An empty table.
    pub fn new() -> (s: Self)
        ensures
            s@ == Map::<Seq<char>, Seq<char>>::empty(),
    {
        let s = KnownHostsStore { entries: Vec::new() };
        assert(s.entries.deep_view() =~= Seq::<(Seq<char>, Seq<char>)>::empty());
        s
    }

    fn position(&self, key: &String) -> (r: Option<usize>)
        ensures
            match r {
                Some(i) => i < self.entries@.len() && self.entries.deep_view()[i as int].0 == key@,
                None => forall|i: int| 0 <= i < self.entries@.len() ==> self.entries.deep_view()[i].0 != key@,
            },
    {
        let mut i: usize = 0;
        while i < self.entries.len()
            invariant
                i <= self.entries@.len(),
                forall|j: int| 0 <= j < i ==> self.entries.deep_view()[j].0 != key@,
            decreases self.entries@.len() - i,
        {
            if self.entries[i].0 == *key {
                return Some(i);
            }
            i = i + 1;
        }
        None
    }

    /// The fingerprint trusted for `host_key`, if there is one.
    pub fn known_fingerprint(&self, host_key: &str) -> (r: Option<String>)
        ensures
            match r {
                Some(f) => self@.contains_key(host_key@) && f@ == self@[host_key@],
                None => !self@.contains_key(host_key@),
            },
    {
        proof {
            use_type_invariant(self);
        }
        let key = host_key.to_owned();
        match self.position(&key) {
            Some(i) => {
                proof {
                    lemma_table_has(self.entries.deep_view(), i as int);
                }
                Some(self.entries[i].1.clone())
            },
            None => {
                proof {
                    lemma_table_lacks(self.entries.deep_view(), key@);
                }
                None
            },
        }
    }

    fn record(&mut self, key: String, fingerprint: String)
        ensures
            final(self)@ == old(self)@.insert(key@, fingerprint@),
            final(self).pairs() == put_pair(old(self).pairs(), key@, fingerprint@),
    {
        proof {
            use_type_invariant(&*self);
        }
        let ghost before = self.entries.deep_view();
        let found = self.position(&key);
        let mut entries: Vec<(String, String)> = Vec::new();
        std::mem::swap(&mut entries, &mut self.entries);
        assert(entries.deep_view() == before);
        match found {
            Some(i) => {
                proof {
                    lemma_table_update(before, i as int, fingerprint@);
                    lemma_put_replaces(before, i as int, fingerprint@);
                }
                entries.set(i, (key, fingerprint));
                assert(entries.deep_view() =~= before.update(i as int, (before[i as int].0, fingerprint@)));
            },
            None => {
                proof {
                    lemma_put_appends(before, key@, fingerprint@);
                }
                entries.push((key, fingerprint));
                assert(entries.deep_view() =~= before.push((key@, fingerprint@)));
                assert(entries.deep_view().drop_last() =~= before);
                assert(distinct_keys(entries.deep_view()));
            },
        }
        self.entries = entries;
    }

    /// The table as the JSON text that is kept on disk.
    pub fn to_json(&self) -> (res: Result<String, StoreError>)
        ensures
            res matches Ok(text) ==> text@ == host_table_text(self.pairs()),
            res is Ok,
            res matches Ok(text) ==> (host_table_parse(text@) matches Some(q) && table_map(q) == self@),
    {
        proof {
            use_type_invariant(self);
        }
        match host_table_to_json(&self.entries) {
            Ok(text) => Ok(text),
            Err(_) => Err(StoreError::Unwritable),
        }
    }

    /// The table that the JSON text `raw` holds.
    pub fn from_json(raw: &str) -> (res: Result<Self, StoreError>)
        ensures
            match res {
                Ok(s) => host_table_parse(raw@) matches Some(p) && s@ == table_map(p),
                Err(e) => host_table_parse(raw@) is None && e == StoreError::Unreadable,
            },
    {
        let pairs = match host_table_from_json(raw) {
            Ok(p) => p,
            Err(_) => return Err(StoreError::Unreadable),
        };
        let ghost p = pairs.deep_view();
        let mut store = KnownHostsStore::new();
        let mut rest = pairs;
        let mut taken: Vec<(String, String)> = Vec::new();
        // the pairs are recorded in order, so a later one wins as in `table_map`
        let n = rest.len();
        let mut i: usize = 0;
        while i < n
            invariant
                n == p.len(),
                i <= n,
                rest.deep_view() == p.skip(i as int),
                store@ == table_map(p.take(i as int)),
            decreases n - i,
        {
            assert(rest.deep_view().len() == n - i);
            let (k, f) = rest.remove(0);
            proof {
                assert(p.skip(i as int)[0] == (k@, f@));
                assert(p.take(i + 1 as int).drop_last() =~= p.take(i as int));
                assert(p.take(i + 1 as int).last() == p[i as int]);
                assert(p.skip(i + 1 as int) =~= p.skip(i as int).drop_first());
            }
            store.record(k, f);
            i = i + 1;
        }
        assert(p.take(n as int) =~= p);
        Ok(store)
    }

    /// Trusts `fingerprint` for `host_key`, replacing any earlier one, and
    /// gives the JSON text of the new table, to be saved.
    pub fn trust(&mut self, host_key: &str, fingerprint: &str) -> (res: Result<String, StoreError>)
        ensures
            final(self)@ == old(self)@.insert(host_key@, fingerprint@),
            final(self).pairs() == put_pair(old(self).pairs(), host_key@, fingerprint@),
            res matches Ok(text) ==> text@ == host_table_text(final(self).pairs()),
            res is Ok,
            res matches Ok(text) ==> (host_table_parse(text@) matches Some(q) && table_map(q) == final(self)@),
    {
        self.record(host_key.to_owned(), fingerprint.to_owned());
        self.to_json()
    }
}

} // verus!

verus! {

/// The fingerprint that `m` records for `host_key`, if any.
pub open spec fn recorded(m: Map<Seq<char>, Seq<char>>, host_key: Seq<char>) -> Option<Seq<char>> {
    if m.contains_key(host_key) {
        Some(m[host_key])
    } else {
        None
    }
}

/// How a presented fingerprint compares with what the table knows of a host.
#[derive(Debug, Clone, PartialEq, Eq)]
pub enum TrustStatus {
    /// The host is not in the table.
    Unknown,
    /// The host is in the table with this very fingerprint.
    Trusted,
    /// The host is in the table with another fingerprint, `expected`.
    Mismatch { expected: String },
}

/// `status` is what a fingerprint `fingerprint` gets against the recorded `known`.
pub open spec fn status_for(known: Option<Seq<char>>, fingerprint: Seq<char>, status: TrustStatus) -> bool {
    match known {
        None => status == TrustStatus::Unknown,
        Some(k) => if k == fingerprint {
            status == TrustStatus::Trusted
        } else {
            status matches TrustStatus::Mismatch { expected } && expected@ == k
        },
    }
}

/// What a probe of a server reports: where it was found, the fingerprint of
/// its certificate, and how that compares with the table.
#[derive(Debug, Clone, PartialEq, Eq)]
pub struct ProbeResult {
    pub host_key: String,
    pub fingerprint: String,
    pub status: TrustStatus,
}

/// Compares a presented fingerprint with the one trusted for `host_key`.
pub fn trust_status(store: &KnownHostsStore, host_key: &str, fingerprint: &String) -> (s: TrustStatus)
    ensures
        status_for(recorded(store@, host_key@), fingerprint@, s),
{
    match store.known_fingerprint(host_key) {
        Some(known) => if known == *fingerprint {
            TrustStatus::Trusted
        } else {
            TrustStatus::Mismatch { expected: known }
        },
        None => TrustStatus::Unknown,
    }
}

/// The report of a probe that saw `fingerprint` at `host_key`.
pub fn probe_result(store: &KnownHostsStore, host_key: String, fingerprint: String) -> (r: ProbeResult)
    ensures
        r.host_key == host_key,
        r.fingerprint == fingerprint,
        status_for(recorded(store@, host_key@), fingerprint@, r.status),
{
    let status = trust_status(store, host_key.as_str(), &fingerprint);
    ProbeResult { host_key, fingerprint, status }
}

/// Trusts `fingerprint` for `host_key` after the user confirmed it, and gives
/// the JSON text of the new table, to be saved.
pub fn trust_server(store: &mut KnownHostsStore, host_key: &str, fingerprint: &str) -> (res: Result<String, StoreError>)
    ensures
        final(store)@ == old(store)@.insert(host_key@, fingerprint@),
        final(store).pairs() == put_pair(old(store).pairs(), host_key@, fingerprint@),
        res matches Ok(text) ==> text@ == host_table_text(final(store).pairs()),
        res is Ok,
        res matches Ok(text) ==> (host_table_parse(text@) matches Some(q) && table_map(q) == final(store)@),
{
    store.trust(host_key, fingerprint)
}

/// Why a connection that requires a known server is refused.
#[derive(Debug, Clone, Copy, PartialEq, Eq)]
pub enum StrictRejection {
    /// The server presents another certificate than the one trusted.
    FingerprintMismatch,
    /// The server was never trusted.
    NotTrusted,
}

/// The check for a real connection: the server must present exactly the
/// certificate that was trusted for it.
pub fn strict_check(store: &KnownHostsStore, host_key: &str, fingerprint: &String) -> (res: Result<(), StrictRejection>)
    ensures
        match recorded(store@, host_key@) {
            Some(k) => if k == fingerprint@ {
                res is Ok
            } else {
                res == Err::<(), _>(StrictRejection::FingerprintMismatch)
            },
            None => res == Err::<(), _>(StrictRejection::NotTrusted),
        },
{
    match store.known_fingerprint(host_key) {
        Some(known) => if known == *fingerprint {
            Ok(())
        } else {
            Err(StrictRejection::FingerprintMismatch)
        },
        None => Err(StrictRejection::NotTrusted),
    }
}

/// What the interactive trust-on-first-use check does with a certificate.
#[derive(Debug, Clone, PartialEq, Eq)]
pub enum TofuDecision {
    /// The certificate is the one trusted before.
    Accept,
    /// The host was trusted with another certificate, `expected`.
    Reject { expected: String },
    /// The host is new: the user is asked, and a yes trusts it.
    AskUser,
}

/// The interactive check of the command-line client.
pub fn tofu_check(store: &KnownHostsStore, host_key: &str, fingerprint: &String) -> (d: TofuDecision)
    ensures
        match recorded(store@, host_key@) {
            Some(k) => if k == fingerprint@ {
                d == TofuDecision::Accept
            } else {
                d matches TofuDecision::Reject { expected } && expected@ == k
            },
            None => d == TofuDecision::AskUser,
        },
{
    match store.known_fingerprint(host_key) {
        Some(known) => if known == *fingerprint {
            TofuDecision::Accept
        } else {
            TofuDecision::Reject { expected: known }
        },
        None => TofuDecision::AskUser,
    }
}

// -------- laws --------

/// Once a fingerprint is trusted for a host, a probe that sees it reports the
/// host as trusted.
pub proof fn law_trusted_is_recognised(m: Map<Seq<char>, Seq<char>>, host_key: Seq<char>, fingerprint: Seq<char>)
    ensures
        recorded(m.insert(host_key, fingerprint), host_key) == Some(fingerprint),
        status_for(recorded(m.insert(host_key, fingerprint), host_key), fingerprint, TrustStatus::Trusted),
{
}

/// What is saved is what is loaded: the text that `to_json` (or `trust`)
/// gives reads back, through `from_json`, as a table with the same entries.
pub proof fn law_saved_table_loads_back(
    saved: Map<Seq<char>, Seq<char>>,
    text: Seq<char>,
    loaded: Map<Seq<char>, Seq<char>>,
)
    requires
        host_table_parse(text) matches Some(q) && table_map(q) == saved,
        host_table_parse(text) matches Some(p) && loaded == table_map(p),
    ensures
        loaded == saved,
{
}

/// `trust_server` is `KnownHostsStore::trust`: from the same table, host
/// key and fingerprint, two outcomes that each meet their contract keep the
/// same pairs and give the same text to save.
pub proof fn law_trust_server_is_trust(
    before: Seq<(Seq<char>, Seq<char>)>,
    host_key: Seq<char>,
    fingerprint: Seq<char>,
    after1: Seq<(Seq<char>, Seq<char>)>,
    text1: Seq<char>,
    after2: Seq<(Seq<char>, Seq<char>)>,
    text2: Seq<char>,
)
    requires
        after1 == put_pair(before, host_key, fingerprint),
        text1 == host_table_text(after1),
        after2 == put_pair(before, host_key, fingerprint),
        text2 == host_table_text(after2),
    ensures
        after1 == after2,
        text1 == text2,
        table_map(after1) == table_map(after2),
{
}

/// Trusting one host changes nothing that is known of another.
pub proof fn law_trust_is_local(m: Map<Seq<char>, Seq<char>>, host_key: Seq<char>, fingerprint: Seq<char>, other: Seq<char>)
    requires
        other != host_key,
    ensures
        recorded(m.insert(host_key, fingerprint), other) == recorded(m, other),
{
}

/// A host that was trusted with one certificate is never reported trusted
/// for another: the probe reports the mismatch with the trusted fingerprint.
pub proof fn law_changed_certificate_is_flagged(
    m: Map<Seq<char>, Seq<char>>,
    host_key: Seq<char>,
    fingerprint: Seq<char>,
    status: TrustStatus,
)
    requires
        recorded(m, host_key) matches Some(k) && k != fingerprint,
        status_for(recorded(m, host_key), fingerprint, status),
    ensures
        status matches TrustStatus::Mismatch { expected } && Some(expected@) == recorded(m, host_key),
{
}

/// The three answers of a probe sort every host and fingerprint: a host with
/// no recorded fingerprint is unknown, whatever it presents; one recorded
/// with the presented fingerprint is trusted; one recorded with another is a
/// mismatch, naming the recorded one.
pub proof fn law_status_sorts_hosts(
    m: Map<Seq<char>, Seq<char>>,
    host_key: Seq<char>,
    fingerprint: Seq<char>,
    status: TrustStatus,
)
    requires
        status_for(recorded(m, host_key), fingerprint, status),
    ensures
        status is Unknown <==> !m.contains_key(host_key),
        status is Trusted <==> (m.contains_key(host_key) && m[host_key] == fingerprint),
        status is Mismatch <==> (m.contains_key(host_key) && m[host_key] != fingerprint),
        status matches TrustStatus::Mismatch { expected } ==> expected@ == m[host_key],
{
}

/// Two probes of the same host against the same table that present the same
/// fingerprint get the same answer.
pub proof fn law_status_is_determined(
    m: Map<Seq<char>, Seq<char>>,
    host_key: Seq<char>,
    fingerprint: Seq<char>,
    s1: TrustStatus,
    s2: TrustStatus,
)
    requires
        status_for(recorded(m, host_key), fingerprint, s1),
        status_for(recorded(m, host_key), fingerprint, s2),
    ensures
        s1 is Unknown <==> s2 is Unknown,
        s1 is Trusted <==> s2 is Trusted,
        s1 is Mismatch <==> s2 is Mismatch,
        (s1 is Mismatch && s2 is Mismatch) ==> s1->expected@ == s2->expected@,
{
}

} // verus!
