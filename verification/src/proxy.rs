//! Proxy handling: probe candidate lists, proxy settings validation and
//! URL building, probe-outcome classification, and ordering of detection
//! results.
//!
//! The network probes themselves run in the surrounding application; the
//! candidate set, the meaning of a probe response, and the order of the
//! results are decided here.

use vstd::prelude::*;
use vstd::seq_lib::to_multiset_build;
use vstd::seq_lib::to_multiset_insert;
use vstd::string::StringExecFns;

use crate::strutil::dec_digits;
use crate::strutil::str_eq;
use crate::strutil::trim_str;
use crate::strutil::trimmed;
use crate::strutil::u64_to_dec;

verus! {

/// The protocol a proxy candidate speaks.
#[derive(Clone, Copy, Debug, PartialEq, Eq, Structural)]
pub enum ProxyKind {
    /// An HTTP proxy.
    Http,
    /// A SOCKS5 proxy.
    Socks5,
}

/// A proxy found listening on a local port.
#[derive(Debug, PartialEq)]
pub struct DetectedProxy {
    /// The proxy host.
    pub host: String,
    /// The proxy port.
    pub port: u16,
    /// The proxy protocol, `"http"` or `"socks5"`.
    pub proxy_type: String,
    /// The probe's round-trip time in milliseconds, when measured.
    pub response_time_ms: Option<u64>,
}

impl Clone for DetectedProxy {
    /// Cloning keeps every field.
    fn clone(&self) -> (r: Self)
        ensures
            r == *self,
    {
        DetectedProxy {
            host: self.host.clone(),
            port: self.port,
            proxy_type: self.proxy_type.clone(),
            response_time_ms: self.response_time_ms,
        }
    }
}

/// Proxy settings for outbound requests: protocol, address, and optional
/// credentials.
#[derive(Debug)]
pub struct ProxySettings {
    /// `"http"`, `"https"` or `"socks5"`.
    pub proxy_type: String,
    /// The proxy host.
    pub host: String,
    /// The proxy port.
    pub port: u16,
    /// The proxy user name, when the proxy needs authentication.
    pub username: Option<String>,
    /// The proxy password.
    pub password: Option<String>,
}

/// The proxy protocols this system supports.
pub open spec fn is_supported_proxy_type(t: Seq<char>) -> bool {
    t == "http"@ || t == "https"@ || t == "socks5"@
}

/// Tests whether a proxy type is one of the supported protocols.
pub fn is_valid_proxy_type(t: &str) -> (r: bool)
    ensures
        r == is_supported_proxy_type(t@),
{
    str_eq(t, "http") || str_eq(t, "https") || str_eq(t, "socks5")
}

/// The URL of a proxy: `type://host:port`.
pub open spec fn proxy_url_spec(t: Seq<char>, host: Seq<char>, port: u16) -> Seq<char> {
    t + "://"@ + host + ":"@ + dec_digits(port as nat)
}

impl ProxySettings {
    /// Builds the proxy URL from the settings: the type must be a
    /// supported protocol and the host must not be blank, else the
    /// configuration is rejected.
    pub fn proxy_url(&self) -> (r: Result<String, String>)
        ensures
            r is Ok <==> is_supported_proxy_type(self.proxy_type@) && trimmed(self.host@).len()
                > 0,
            r matches Ok(u) ==> u@ == proxy_url_spec(
                self.proxy_type@,
                trimmed(self.host@),
                self.port,
            ),
            r matches Err(e) ==> (if !is_supported_proxy_type(self.proxy_type@) {
                e@ == "unsupported proxy type: only http, https and socks5 are accepted"@
            } else {
                e@ == "proxy host must not be empty"@
            }),
    {
        if !is_valid_proxy_type(self.proxy_type.as_str()) {
            return Err(
                "unsupported proxy type: only http, https and socks5 are accepted".to_owned(),
            );
        }
        let host: String = trim_str(self.host.as_str());
        if host.as_str().is_empty() {
            return Err("proxy host must not be empty".to_owned());
        }
        let mut url: String = self.proxy_type.clone();
        url.append("://");
        url.append(host.as_str());
        url.append(":");
        let port_dec: String = u64_to_dec(self.port as u64);
        url.append(port_dec.as_str());
        proof {
            assert(url@ =~= proxy_url_spec(self.proxy_type@, trimmed(self.host@), self.port));
        }
        Ok(url)
    }

    /// The credentials to put on the proxy, when a non-blank user name is
    /// configured: the trimmed user name and the password (blank when
    /// none is set).
    pub fn auth_credentials(&self) -> (r: Option<(String, String)>)
        ensures
            r is Some <==> (self.username matches Some(u) && trimmed(u@).len() > 0),
            r matches Some(c) ==> {
                &&& self.username matches Some(u) && c.0@ == trimmed(u@)
                &&& c.1@ == (match self.password {
                    Some(p) => p@,
                    None => Seq::<char>::empty(),
                })
            },
    {
        match &self.username {
            Some(u) => {
                let name: String = trim_str(u.as_str());
                if name.as_str().is_empty() {
                    None
                } else {
                    let pass: String = match &self.password {
                        Some(p) => p.clone(),
                        None => String::new(),
                    };
                    Some((name, pass))
                }
            },
            None => None,
        }
    }
}

/// A probe response proves the path is alive when it is any success, or
/// 404: a 404 still shows live connectivity to an HTTP endpoint.
pub fn is_reachable_status(status: u16) -> (r: bool)
    ensures
        r == (200 <= status < 300 || status == 404),
{
    (200 <= status && status < 300) || status == 404
}

/// The fixed list of commonly used local proxy ports to probe.
pub open spec fn default_candidates_spec() -> Seq<(u16, ProxyKind)> {
    seq![
        (7890u16, ProxyKind::Http),
        (7891u16, ProxyKind::Http),
        (10808u16, ProxyKind::Http),
        (10809u16, ProxyKind::Socks5),
        (1080u16, ProxyKind::Socks5),
        (8080u16, ProxyKind::Http),
    ]
}

/// A candidate appended only when it is not already listed.
pub open spec fn add_candidate(acc: Seq<(u16, ProxyKind)>, c: (u16, ProxyKind)) -> Seq<
    (u16, ProxyKind),
> {
    if acc.contains(c) {
        acc
    } else {
        acc.push(c)
    }
}

/// The candidate list extended with the user's extra ports: each nonzero
/// port is tried both as HTTP and as SOCKS5, without duplicates.
pub open spec fn extend_candidates_spec(acc: Seq<(u16, ProxyKind)>, extra: Seq<u16>) -> Seq<
    (u16, ProxyKind),
>
    decreases extra.len(),
{
    if extra.len() == 0 {
        acc
    } else {
        let p = extra[0];
        let acc1 = if p == 0 {
            acc
        } else {
            add_candidate(add_candidate(acc, (p, ProxyKind::Http)), (p, ProxyKind::Socks5))
        };
        extend_candidates_spec(acc1, extra.drop_first())
    }
}

/// Tests whether a candidate is already in the list.
fn candidates_contain(acc: &Vec<(u16, ProxyKind)>, port: u16, kind: ProxyKind) -> (r: bool)
    ensures
        r == acc@.contains((port, kind)),
{
    let mut i: usize = 0;
    while i < acc.len()
        invariant
            i <= acc@.len(),
            forall|j: int| 0 <= j < i ==> (#[trigger] acc@[j]) != (port, kind),
        decreases acc@.len() - i,
    {
        if acc[i].0 == port && acc[i].1 == kind {
            assert(acc@.contains((port, kind)));
            return true;
        }
        i = i + 1;
    }
    false
}

/// Builds the list of (port, protocol) pairs to probe: the fixed common
/// ports, then each user-supplied nonzero port as both HTTP and SOCKS5,
/// with duplicates dropped.
pub fn build_probe_candidates(extra_ports: &Option<Vec<u16>>) -> (r: Vec<(u16, ProxyKind)>)
    ensures
        r@ == (match extra_ports {
            Some(extra) => extend_candidates_spec(default_candidates_spec(), extra@),
            None => default_candidates_spec(),
        }),
{
    let mut out: Vec<(u16, ProxyKind)> = Vec::new();
    out.push((7890, ProxyKind::Http));
    out.push((7891, ProxyKind::Http));
    out.push((10808, ProxyKind::Http));
    out.push((10809, ProxyKind::Socks5));
    out.push((1080, ProxyKind::Socks5));
    out.push((8080, ProxyKind::Http));
    proof {
        assert(out@ =~= default_candidates_spec());
    }
    match extra_ports {
        None => out,
        Some(extra) => {
            let mut i: usize = 0;
            proof {
                assert(extra@.skip(0) =~= extra@);
            }
            while i < extra.len()
                invariant
                    i <= extra@.len(),
                    extend_candidates_spec(out@, extra@.skip(i as int)) == extend_candidates_spec(
                        default_candidates_spec(),
                        extra@,
                    ),
                decreases extra@.len() - i,
            {
                let p: u16 = extra[i];
                let ghost before = out@;
                if p != 0 {
                    if !candidates_contain(&out, p, ProxyKind::Http) {
                        out.push((p, ProxyKind::Http));
                    }
                    if !candidates_contain(&out, p, ProxyKind::Socks5) {
                        out.push((p, ProxyKind::Socks5));
                    }
                    proof {
                        assert(out@ == add_candidate(
                            add_candidate(before, (p, ProxyKind::Http)),
                            (p, ProxyKind::Socks5),
                        ));
                    }
                }
                proof {
                    assert(extra@.skip(i as int).drop_first() =~= extra@.skip(i + 1 as int));
                    assert(extra@.skip(i as int)[0] == extra@[i as int]);
                }
                i = i + 1;
            }
            proof {
                assert(extra@.skip(extra@.len() as int) =~= Seq::<u16>::empty());
            }
            out
        },
    }
}

/// The ordering key of a detection result: its measured time, with
/// unmeasured results sorting last.
pub open spec fn proxy_sort_key(p: DetectedProxy) -> int {
    match p.response_time_ms {
        Some(t) => t as int,
        None => u64::MAX as int,
    }
}

/// Whether a detection list is sorted ascending by response time.
pub open spec fn sorted_by_time(s: Seq<DetectedProxy>) -> bool {
    forall|i: int, j: int|
        0 <= i < j < s.len() ==> proxy_sort_key(#[trigger] s[i]) <= proxy_sort_key(
            #[trigger] s[j],
        )
}

/// The ordering key of a detection result.
fn proxy_key(p: &DetectedProxy) -> (r: u64)
    ensures
        r == proxy_sort_key(*p),
{
    match p.response_time_ms {
        Some(t) => t,
        None => u64::MAX,
    }
}

/// Sorts detection results ascending by response time; results with no
/// measured time go last.  The results themselves are exactly those
/// given, reordered.
pub fn sort_detected_proxies(v: Vec<DetectedProxy>) -> (r: Vec<DetectedProxy>)
    ensures
        sorted_by_time(r@),
        r@.to_multiset() == v@.to_multiset(),
{
    let mut out: Vec<DetectedProxy> = Vec::new();
    let mut i: usize = 0;
    proof {
        assert(v@.subrange(0, 0) =~= Seq::<DetectedProxy>::empty());
        assert(out@.to_multiset() =~= v@.subrange(0, 0).to_multiset());
    }
    while i < v.len()
        invariant
            i <= v@.len(),
            sorted_by_time(out@),
            out@.to_multiset() == v@.subrange(0, i as int).to_multiset(),
        decreases v@.len() - i,
    {
        let x: DetectedProxy = v[i].clone();
        let kx: u64 = proxy_key(&x);
        let mut idx: usize = 0;
        while idx < out.len() && proxy_key(&out[idx]) <= kx
            invariant
                idx <= out@.len(),
                forall|j: int| 0 <= j < idx ==> proxy_sort_key(#[trigger] out@[j]) <= kx,
                kx == proxy_sort_key(x),
                sorted_by_time(out@),
            decreases out@.len() - idx,
        {
            idx = idx + 1;
        }
        let ghost before = out@;
        out.insert(idx, x);
        proof {
            to_multiset_insert(before, idx as int, x);
            assert(forall|j: int| 0 <= j < idx ==> out@[j] == before[j]);
            assert(out@[idx as int] == x);
            assert(forall|j: int| idx < j < out@.len() ==> out@[j] == before[j - 1]);
            assert forall|a: int, b: int| 0 <= a < b < out@.len() implies proxy_sort_key(
                out@[a],
            ) <= proxy_sort_key(out@[b]) by {
                if a < idx && b < idx {
                } else if b == idx {
                    assert(proxy_sort_key(before[a]) <= kx);
                } else if a == idx {
                    assert(proxy_sort_key(before[idx as int]) > kx);
                    assert(proxy_sort_key(before[b - 1]) >= proxy_sort_key(before[idx as int]));
                } else if a < idx && b > idx {
                    if b - 1 == idx - 1 {
                    } else {
                    }
                }
            }
            assert(v@.subrange(0, i + 1 as int) =~= v@.subrange(0, i as int).push(v@[i as int]));
            to_multiset_build(v@.subrange(0, i as int), v@[i as int]);
        }
        i = i + 1;
    }
    proof {
        assert(v@.subrange(0, v@.len() as int) =~= v@);
    }
    out
}

} // verus!
