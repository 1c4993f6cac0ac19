//! Data contracts for the handshake: protocol version, client and server
//! descriptions, capability sets, and the request/response pair.
use vstd::prelude::*;

verus! {

/// The fixed protocol revision this server speaks, as a character sequence.
pub open spec fn spec_protocol_version() -> Seq<char> {
    "2024-11-05"@
}

/// Protocol version supported by this implementation.
pub fn protocol_version() -> (s: &'static str)
    ensures
        s@ == spec_protocol_version(),
{
    "2024-11-05"
}

/// Descriptive identification a client supplies about itself.
#[derive(Clone)]
pub struct ClientInfo {
    pub name: String,
    pub version: String,
}

impl Default for ClientInfo {
    fn default() -> (r: Self)
        ensures
            r.name@ == Seq::<char>::empty(),
            r.version@ == Seq::<char>::empty(),
    {
        ClientInfo { name: String::new(), version: String::new() }
    }
}

/// Descriptive identification the server supplies about itself.
#[derive(Clone)]
pub struct ServerInfo {
    pub name: String,
    pub version: String,
}

impl Default for ServerInfo {
    fn default() -> (r: Self)
        ensures
            r.name@ == Seq::<char>::empty(),
            r.version@ == Seq::<char>::empty(),
    {
        ServerInfo { name: String::new(), version: String::new() }
    }
}

/// First value bound to `k` in `s`, scanning left to right.
pub open spec fn lookup(s: Seq<(Seq<char>, Seq<char>)>, k: Seq<char>) -> Option<Seq<char>>
    decreases s.len(),
{
    if s.len() == 0 {
        None
    } else if s[0].0 == k {
        Some(s[0].1)
    } else {
        lookup(s.skip(1), k)
    }
}

/// No two entries share a key.
pub open spec fn unique_keys(s: Seq<(Seq<char>, Seq<char>)>) -> bool {
    forall|i: int, j: int| 0 <= i < j < s.len() ==> s[i].0 != s[j].0
}

/// If the first `n` entries all miss `k`, the scan is decided by the rest.
proof fn lemma_lookup_past_misses(s: Seq<(Seq<char>, Seq<char>)>, k: Seq<char>, n: int)
    requires
        0 <= n <= s.len(),
        forall|j: int| 0 <= j < n ==> s[j].0 != k,
    ensures
        lookup(s, k) == lookup(s.skip(n), k),
    decreases n,
{
    if n > 0 {
        assert(s[0].0 != k);
        assert(forall|j: int| 0 <= j < n - 1 ==> s.skip(1)[j].0 != k) by {
            assert(forall|j: int| 0 <= j < n - 1 ==> s.skip(1)[j] == s[j + 1]);
        }
        lemma_lookup_past_misses(s.skip(1), k, n - 1);
        assert(s.skip(1).skip(n - 1) =~= s.skip(n));
    } else {
        assert(s.skip(0) =~= s);
    }
}

/// A named-feature advertisement: a mapping from capability name to a
/// string-valued descriptor, with unique keys; order carries no meaning.
pub struct CapabilitySet {
    entries: Vec<(String, String)>,
}

impl View for CapabilitySet {
    type V = Seq<(Seq<char>, Seq<char>)>;

    closed spec fn view(&self) -> Seq<(Seq<char>, Seq<char>)> {
        self.entries@.map_values(|p: (String, String)| (p.0@, p.1@))
    }
}

impl CapabilitySet {
    /// Keys are pairwise distinct.
    pub open spec fn wf(&self) -> bool {
        unique_keys(self@)
    }

    /// The empty capability set: the one this server advertises.
    pub fn new() -> (r: Self)
        ensures
            r@ == Seq::<(Seq<char>, Seq<char>)>::empty(),
            r.wf(),
    {
        let r = CapabilitySet { entries: Vec::new() };
        proof {
            assert(r@ =~= Seq::<(Seq<char>, Seq<char>)>::empty());
        }
        r
    }

    /// Number of advertised capabilities.
    pub fn len(&self) -> (n: usize)
        ensures
            n == self@.len(),
    {
        self.entries.len()
    }

    /// Whether no capability is advertised.
    pub fn is_empty(&self) -> (b: bool)
        ensures
            b == (self@.len() == 0),
    {
        self.entries.len() == 0
    }

    /// Whether `key` names an advertised capability.
    pub fn contains_key(&self, key: &String) -> (b: bool)
        ensures
            b == (lookup(self@, key@) is Some),
    {
        let n = self.entries.len();
        for i in 0..n
            invariant
                n == self.entries.len(),
                forall|j: int| 0 <= j < i ==> self@[j].0 != key@,
        {
            if self.entries[i].0 == *key {
                proof {
                    lemma_lookup_past_misses(self@, key@, i as int);
                    assert(self@.skip(i as int)[0] == self@[i as int]);
                }
                return true;
            }
        }
        proof {
            lemma_lookup_past_misses(self@, key@, n as int);
            assert(self@.skip(n as int) =~= Seq::<(Seq<char>, Seq<char>)>::empty());
        }
        false
    }

    /// The descriptor advertised under `key`, if any.
    pub fn get(&self, key: &String) -> (r: Option<&String>)
        ensures
            match r {
                Some(v) => lookup(self@, key@) == Some(v@),
                None => lookup(self@, key@) is None,
            },
    {
        let n = self.entries.len();
        for i in 0..n
            invariant
                n == self.entries.len(),
                forall|j: int| 0 <= j < i ==> self@[j].0 != key@,
        {
            if self.entries[i].0 == *key {
                proof {
                    lemma_lookup_past_misses(self@, key@, i as int);
                    assert(self@.skip(i as int)[0] == self@[i as int]);
                }
                return Some(&self.entries[i].1);
            }
        }
        proof {
            lemma_lookup_past_misses(self@, key@, n as int);
            assert(self@.skip(n as int) =~= Seq::<(Seq<char>, Seq<char>)>::empty());
        }
        None
    }

    /// The advertised pairs, in insertion order.
    pub fn pairs(&self) -> (v: &Vec<(String, String)>)
        ensures
            v@.map_values(|p: (String, String)| (p.0@, p.1@)) == self@,
    {
        &self.entries
    }

    /// Advertise `value` under the fresh key `key`.
    pub fn insert(&mut self, key: String, value: String)
        requires
            old(self).wf(),
            lookup(old(self)@, key@) is None,
        ensures
            final(self)@ == old(self)@.push((key@, value@)),
            final(self).wf(),
            lookup(final(self)@, key@) == Some::<Seq<char>>(value@),
    {
        proof {
            lemma_lookup_none_misses_all(old(self)@, key@);
        }
        let ghost pre = self@;
        self.entries.push((key, value));
        proof {
            assert(self@ =~= pre.push((key@, value@)));
            assert(forall|j: int| 0 <= j < pre.len() ==> self@[j] == pre[j]);
            lemma_lookup_past_misses(self@, key@, pre.len() as int);
            assert(self@.skip(pre.len() as int) =~= seq![(key@, value@)]);
        }
    }
}

/// What can go wrong in the server: a listener could not be bound (fatal
/// at start-up), a request payload was malformed, or a connection failed
/// mid-exchange.
#[derive(Clone, Copy, PartialEq, Eq, Structural, Debug)]
pub enum ServerError {
    Bind,
    Protocol,
    Connection,
}

/// An `initialize` call: the client's half of the handshake.
pub struct InitializeRequest {
    pub protocol_version: String,
    pub capabilities: CapabilitySet,
    pub session_id: Option<String>,
    pub authentication: Option<String>,
    pub client_info: ClientInfo,
}

impl Default for InitializeRequest {
    fn default() -> (r: Self)
        ensures
            r.protocol_version@ == spec_protocol_version(),
            r.capabilities@.len() == 0,
            r.capabilities.wf(),
            r.session_id is None,
            r.authentication is None,
            r.client_info.name@ == Seq::<char>::empty(),
            r.client_info.version@ == Seq::<char>::empty(),
    {
        InitializeRequest {
            protocol_version: String::from_str(protocol_version()),
            capabilities: CapabilitySet::new(),
            session_id: None,
            authentication: None,
            client_info: ClientInfo::default(),
        }
    }
}

/// The server's answer to `initialize`.
pub struct InitializeResponse {
    pub protocol_version: String,
    pub capabilities: CapabilitySet,
    pub session_id: Option<String>,
    pub authentication: Option<String>,
    pub server_info: ServerInfo,
}

/// The one answer this server ever gives to `initialize`: its own fixed
/// protocol version, no capabilities, no session, no authentication, and
/// its static self-description.
pub open spec fn is_server_response(r: InitializeResponse) -> bool {
    &&& r.protocol_version@ == spec_protocol_version()
    &&& r.capabilities@.len() == 0
    &&& r.capabilities.wf()
    &&& r.session_id is None
    &&& r.authentication is None
    &&& r.server_info.name@ == Seq::<char>::empty()
    &&& r.server_info.version@ == Seq::<char>::empty()
}

impl Default for InitializeResponse {
    fn default() -> (r: Self)
        ensures
            is_server_response(r),
    {
        InitializeResponse {
            protocol_version: String::from_str(protocol_version()),
            capabilities: CapabilitySet::new(),
            session_id: None,
            authentication: None,
            server_info: ServerInfo::default(),
        }
    }
}

/// A scan that misses decides every position against the key.
proof fn lemma_lookup_none_misses_all(s: Seq<(Seq<char>, Seq<char>)>, k: Seq<char>)
    requires
        lookup(s, k) is None,
    ensures
        forall|i: int| 0 <= i < s.len() ==> s[i].0 != k,
    decreases s.len(),
{
    if s.len() > 0 {
        lemma_lookup_none_misses_all(s.skip(1), k);
        assert(forall|i: int| 1 <= i < s.len() ==> s[i] == s.skip(1)[i - 1]);
    }
}

} // verus!
