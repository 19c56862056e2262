//! How HTTP consumers share listeners: one server per listen address, reused by every
//! consumer with the same settings and refused to one with others; and how a server binds
//! and which protocols it offers.
use crate::models::TlsConfig;
use crate::router::opt_text;
use crate::text::{concat2, str_eq, to_ascii_lowercase, trim, lower_seq, trim_seq};
use vstd::prelude::*;
use vstd::string::*;

verus! {

/// The HTTP versions a server speaks.
#[derive(Debug, Clone, Copy, PartialEq, Eq, Structural)]
pub enum HttpServerProtocol {
    /// HTTP/1.1 and HTTP/2, as the client picks.
    Auto,
    Http1Only,
    Http2Only,
}

/// What identifies a shared server: where it listens and how it serves.
#[derive(Debug)]
pub struct ServerKey {
    pub listen_addr: String,
    pub tls: TlsConfig,
    pub workers: usize,
    pub server_protocol: HttpServerProtocol,
}

/// TLS settings as plain values.
pub open spec fn tls_view(t: TlsConfig) -> (bool, Option<Seq<char>>, Option<Seq<char>>, Option<Seq<char>>, bool) {
    (t.required, opt_text(t.ca_file), opt_text(t.cert_file), opt_text(t.key_file), t.accept_invalid_certs)
}

/// A server key as plain values.
pub open spec fn key_view(k: ServerKey) -> (Seq<char>, (bool, Option<Seq<char>>, Option<Seq<char>>, Option<Seq<char>>, bool), usize, HttpServerProtocol) {
    (k.listen_addr@, tls_view(k.tls), k.workers, k.server_protocol)
}

fn opt_eq(a: &Option<String>, b: &Option<String>) -> (r: bool)
    ensures
        r == (opt_text(*a) == opt_text(*b)),
{
    match (a, b) {
        (Some(x), Some(y)) => str_eq(x.as_str(), y.as_str()),
        (None, None) => true,
        _ => false,
    }
}

/// Whether two keys are the same settings.
pub fn same_key(a: &ServerKey, b: &ServerKey) -> (r: bool)
    ensures
        r == (key_view(*a) == key_view(*b)),
{
    str_eq(a.listen_addr.as_str(), b.listen_addr.as_str()) && a.tls.required == b.tls.required
        && opt_eq(&a.tls.ca_file, &b.tls.ca_file) && opt_eq(&a.tls.cert_file, &b.tls.cert_file)
        && opt_eq(&a.tls.key_file, &b.tls.key_file) && a.tls.accept_invalid_certs == b.tls.accept_invalid_certs
        && a.workers == b.workers && a.server_protocol == b.server_protocol
}

/// What the shared servers hold for a key.
#[derive(Debug, PartialEq, Eq)]
pub enum ServerLookup {
    /// The server at this position serves the key's address with its settings.
    Reuse(usize),
    /// A server serves the key's address with other settings.
    Conflict,
    /// No server serves the key's address.
    Absent,
}

/// The shared servers, at most one per listen address.
#[derive(Debug)]
pub struct ServerRegistry {
    keys: Vec<ServerKey>,
}

/// No two keys listen on the same address.
pub open spec fn one_per_address(s: Seq<ServerKey>) -> bool {
    forall|i: int, j: int| 0 <= i < j < s.len() ==> (#[trigger] s[i]).listen_addr@ != (#[trigger] s[j]).listen_addr@
}

impl View for ServerRegistry {
    type V = Seq<ServerKey>;

    closed spec fn view(&self) -> Seq<ServerKey> {
        self.keys@
    }
}

impl ServerRegistry {
    #[verifier::type_invariant]
    closed spec fn wf(&self) -> bool {
        one_per_address(self.keys@)
    }

    /// No servers.
    pub fn new() -> (r: Self)
        ensures
            r@.len() == 0,
    {
        ServerRegistry { keys: Vec::new() }
    }

    /// What the registry holds for `key`: the server on its address where the settings
    /// are the same, a conflict where they differ, nothing where none listens there.
    pub fn lookup(&self, key: &ServerKey) -> (r: ServerLookup)
        ensures
            one_per_address(self@),
            match r {
                ServerLookup::Reuse(i) => i < self@.len() && key_view(self@[i as int]) == key_view(*key),
                ServerLookup::Conflict => exists|i: int| 0 <= i < self@.len() && (#[trigger] self@[i]).listen_addr@ == key.listen_addr@
                    && key_view(self@[i]) != key_view(*key),
                ServerLookup::Absent => forall|i: int| 0 <= i < self@.len() ==> (#[trigger] self@[i]).listen_addr@ != key.listen_addr@,
            },
    {
        proof {
            use_type_invariant(self);
        }
        let mut i: usize = 0;
        while i < self.keys.len()
            invariant
                i <= self.keys@.len(),
                one_per_address(self.keys@),
                forall|k: int| 0 <= k < i ==> (#[trigger] self.keys@[k]).listen_addr@ != key.listen_addr@,
            decreases self.keys@.len() - i,
        {
            if str_eq(self.keys[i].listen_addr.as_str(), key.listen_addr.as_str()) {
                if same_key(&self.keys[i], key) {
                    return ServerLookup::Reuse(i);
                }
                return ServerLookup::Conflict;
            }
            i = i + 1;
        }
        ServerLookup::Absent
    }

    /// Adds the server for a key whose address no server listens on; it takes the last
    /// position.
    pub fn insert(&mut self, key: ServerKey) -> (r: Result<usize, ServerKey>)
        ensures
            match r {
                Ok(i) => i == old(self)@.len() && final(self)@ == old(self)@.push(key)
                    && forall|k: int| 0 <= k < old(self)@.len() ==> (#[trigger] old(self)@[k]).listen_addr@ != key.listen_addr@,
                Err(back) => back == key && final(self)@ == old(self)@
                    && exists|k: int| 0 <= k < old(self)@.len() && (#[trigger] old(self)@[k]).listen_addr@ == key.listen_addr@,
            },
    {
        proof {
            use_type_invariant(&*self);
        }
        match self.lookup(&key) {
            ServerLookup::Absent => {
                let ghost before = self.keys@;
                let mut keys: Vec<ServerKey> = Vec::new();
                std::mem::swap(&mut keys, &mut self.keys);
                let n = keys.len();
                keys.push(key);
                assert forall|i: int, j: int| 0 <= i < j < keys@.len() implies (#[trigger] keys@[i]).listen_addr@ != (#[trigger] keys@[j]).listen_addr@ by {
                    if j < n {
                        assert(keys@[i] == before[i] && keys@[j] == before[j]);
                    } else {
                        assert(keys@[i] == before[i]);
                    }
                }
                self.keys = keys;
                Ok(n)
            },
            _ => Err(key),
        }
    }
}

/// The error a consumer gets whose address is served with other settings.
pub fn conflict_message(listen_addr: &str) -> (r: String)
    ensures
        r@ == "HTTP consumer "@ + listen_addr@ + " is already registered with different TLS or worker settings"@,
{
    let mut s = concat2("HTTP consumer ", listen_addr);
    s.append(" is already registered with different TLS or worker settings");
    proof {
        reveal_strlit("HTTP consumer ");
        reveal_strlit(" is already registered with different TLS or worker settings");
    }
    s
}

/// Whether per-worker `SO_REUSEPORT` listeners are wanted, given the override's value where
/// it is set: yes unless it says `0`, `false`, `off` or `no` (trimmed, in any case).
pub fn reuseport_setting(value: Option<&str>) -> (r: bool)
    ensures
        r == match value {
            Some(v) => {
                let t = lower_seq(trim_seq(v@));
                !(t == "0"@ || t == "false"@ || t == "off"@ || t == "no"@)
            },
            None => true,
        },
{
    match value {
        Some(v) => {
            let t = to_ascii_lowercase(trim(v));
            !(str_eq(t.as_str(), "0") || str_eq(t.as_str(), "false") || str_eq(t.as_str(), "off") || str_eq(t.as_str(), "no"))
        },
        None => true,
    }
}

/// Whether each worker binds a listener of its own: with more than one worker, where
/// `SO_REUSEPORT` listeners are wanted.
pub fn binds_per_worker(workers: usize, reuseport: bool) -> (r: bool)
    ensures
        r == (workers > 1 && reuseport),
{
    workers > 1 && reuseport
}

/// The protocols a TLS server offers in ALPN: only those it serves, `h2` first.
pub fn alpn_protocols(protocol: HttpServerProtocol) -> (r: Vec<Vec<u8>>)
    ensures
        r@.len() == match protocol {
            HttpServerProtocol::Auto => 2int,
            _ => 1int,
        },
        match protocol {
            HttpServerProtocol::Auto => r@[0]@ == "h2"@.map_values(|c: char| c as u8) && r@[1]@ == "http/1.1"@.map_values(|c: char| c as u8),
            HttpServerProtocol::Http1Only => r@[0]@ == "http/1.1"@.map_values(|c: char| c as u8),
            HttpServerProtocol::Http2Only => r@[0]@ == "h2"@.map_values(|c: char| c as u8),
        },
{
    let h2: Vec<u8> = vec![104u8, 50u8];
    let http11: Vec<u8> = vec![104u8, 116u8, 116u8, 112u8, 47u8, 49u8, 46u8, 49u8];
    proof {
        reveal_strlit("h2");
        reveal_strlit("http/1.1");
        assert(h2@ =~= "h2"@.map_values(|c: char| c as u8));
        assert(http11@ =~= "http/1.1"@.map_values(|c: char| c as u8));
    }
    match protocol {
        HttpServerProtocol::Auto => vec![h2, http11],
        HttpServerProtocol::Http1Only => vec![http11],
        HttpServerProtocol::Http2Only => vec![h2],
    }
}

/// Why accepting a connection failed, as the listener tells the cases apart.
#[derive(Debug, Clone, Copy, PartialEq, Eq, Structural)]
pub enum AcceptFailure {
    /// The accept would block, was interrupted or timed out.
    Transient,
    /// The process has no file descriptor left (`EMFILE`).
    TooManyOpenFiles,
    /// Anything else.
    Other,
}

/// How many milliseconds a listener worker waits after a failed accept before it accepts
/// again: 1 after a transient failure, 100 when file descriptors have run out, 10
/// otherwise.
pub fn accept_cooldown_ms(failure: AcceptFailure) -> (r: u64)
    ensures
        r == match failure {
            AcceptFailure::Transient => 1u64,
            AcceptFailure::TooManyOpenFiles => 100u64,
            AcceptFailure::Other => 10u64,
        },
{
    match failure {
        AcceptFailure::Transient => 1,
        AcceptFailure::TooManyOpenFiles => 100,
        AcceptFailure::Other => 10,
    }
}

/// Whether a consumer may share a server already running: only where it asks for a fixed
/// port; one that asks for port 0 always gets a server of its own, registered under the
/// address it was given.
pub fn shares_existing_server(port: u16) -> (r: bool)
    ensures
        r == (port != 0),
{
    port != 0
}

/// Whether TLS settings give a server what it serves TLS with: a certificate and a key.
pub open spec fn tls_server_configured(t: TlsConfig) -> bool {
    t.cert_file is Some && t.key_file is Some
}

/// Whether a new server serves TLS: where its settings require TLS; refused where they
/// require it without a certificate and key.
pub fn serves_tls(tls: &TlsConfig) -> (r: Result<bool, String>)
    ensures
        !tls.required ==> r == Ok::<bool, String>(false),
        tls.required && tls_server_configured(*tls) ==> r == Ok::<bool, String>(true),
        tls.required && !tls_server_configured(*tls) ==> (r matches Err(e)
            && e@ == "HTTP server TLS enabled but no cert/key provided in HttpConfig"@),
{
    if !tls.required {
        return Ok(false);
    }
    if tls.cert_file.is_some() && tls.key_file.is_some() {
        Ok(true)
    } else {
        Err(String::from_str("HTTP server TLS enabled but no cert/key provided in HttpConfig"))
    }
}

} // verus!
