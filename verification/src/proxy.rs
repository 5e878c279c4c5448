//! The reverse proxy in front of several apps: the registry of domains and
//! their local ports, how an app registers itself, and where a request is
//! forwarded.

use crate::text::{decimal_chars, decimal_string, parse_unsigned, parsed_unsigned, str_eq};
use vstd::prelude::*;
use vstd::string::*;

verus! {

/// The domains served, each with the local port of its app; a later entry
/// for a domain overrides an earlier one.
pub open spec fn registry_map(apps: Seq<(String, u16)>) -> Map<Seq<char>, u16>
    decreases apps.len(),
{
    if apps.len() == 0 {
        Map::empty()
    } else {
        registry_map(apps.drop_last()).insert(apps.last().0@, apps.last().1)
    }
}

/// No domain is listed twice.
pub open spec fn distinct_domains(apps: Seq<(String, u16)>) -> bool {
    forall|i: int, j: int| 0 <= i < j < apps.len() ==> apps[i].0@ != apps[j].0@
}

proof fn lemma_registry_lookup(apps: Seq<(String, u16)>, i: int)
    requires
        distinct_domains(apps),
        0 <= i < apps.len(),
    ensures
        registry_map(apps).contains_key(apps[i].0@),
        registry_map(apps)[apps[i].0@] == apps[i].1,
    decreases apps.len(),
{
    if i < apps.len() - 1 {
        lemma_registry_lookup(apps.drop_last(), i);
        assert(apps.drop_last()[i] == apps[i]);
    }
}

proof fn lemma_registry_absent(apps: Seq<(String, u16)>, d: Seq<char>)
    requires
        forall|i: int| 0 <= i < apps.len() ==> apps[i].0@ != d,
    ensures
        !registry_map(apps).contains_key(d),
    decreases apps.len(),
{
    if apps.len() > 0 {
        lemma_registry_absent(apps.drop_last(), d);
    }
}

proof fn lemma_registry_update(apps: Seq<(String, u16)>, i: int, e: (String, u16))
    requires
        distinct_domains(apps),
        0 <= i < apps.len(),
        apps[i].0@ == e.0@,
    ensures
        registry_map(apps.update(i, e)) == registry_map(apps).insert(e.0@, e.1),
    decreases apps.len(),
{
    let u = apps.update(i, e);
    if i == apps.len() - 1 {
        assert(u.drop_last() =~= apps.drop_last());
        assert(registry_map(u) =~= registry_map(apps).insert(e.0@, e.1));
    } else {
        assert(u.drop_last() =~= apps.drop_last().update(i, e));
        lemma_registry_update(apps.drop_last(), i, e);
        assert(apps.last().0@ != e.0@);
        assert(registry_map(u) =~= registry_map(apps).insert(e.0@, e.1));
    }
}

/// The apps the proxy forwards to, by domain.
pub struct AppRegistry {
    apps: Vec<(String, u16)>,
}

impl View for AppRegistry {
    type V = Map<Seq<char>, u16>;

    closed spec fn view(&self) -> Map<Seq<char>, u16> {
        registry_map(self.apps@)
    }
}

impl AppRegistry {
    #[verifier::type_invariant]
    spec fn inv(self) -> bool {
        distinct_domains(self.apps@)
    }

    pub fn new() -> (r: Self)
        ensures
            r@ == Map::<Seq<char>, u16>::empty(),
    {
        AppRegistry { apps: Vec::new() }
    }

    /// Serves `domain` from local port `port`, replacing its earlier port.
    pub fn insert(&mut self, domain: String, port: u16)
        ensures
            final(self)@ == old(self)@.insert(domain@, port),
    {
        proof {
            use_type_invariant(&*self);
        }
        let mut i: usize = 0;
        while i < self.apps.len()
            invariant
                i <= self.apps@.len(),
                distinct_domains(self.apps@),
                self.apps@ == old(self).apps@,
                forall|k: int| 0 <= k < i ==> self.apps@[k].0@ != domain@,
            decreases self.apps.len() - i,
        {
            if str_eq(self.apps[i].0.as_str(), domain.as_str()) {
                let ghost before = self.apps@;
                let mut apps: Vec<(String, u16)> = Vec::new();
                std::mem::swap(&mut apps, &mut self.apps);
                apps.set(i, (domain, port));
                proof {
                    lemma_registry_update(before, i as int, (domain, port));
                    assert forall|a: int, b: int| 0 <= a < b < apps@.len() implies apps@[a].0@
                        != apps@[b].0@ by {
                        assert(before[a].0@ != before[b].0@);
                    }
                }
                self.apps = apps;
                return;
            }
            i = i + 1;
        }
        let ghost before = self.apps@;
        let mut apps: Vec<(String, u16)> = Vec::new();
        std::mem::swap(&mut apps, &mut self.apps);
        apps.push((domain, port));
        proof {
            assert(apps@.drop_last() =~= before);
            assert forall|a: int, b: int| 0 <= a < b < apps@.len() implies apps@[a].0@
                != apps@[b].0@ by {
                if b < before.len() {
                    assert(before[a].0@ != before[b].0@);
                }
            }
        }
        self.apps = apps;
    }

    /// The local port serving `domain`, if it is registered.
    pub fn get(&self, domain: &str) -> (r: Option<u16>)
        ensures
            r == (if self@.contains_key(domain@) { Some(self@[domain@]) } else { None::<u16> }),
    {
        proof {
            use_type_invariant(self);
        }
        let mut i: usize = 0;
        while i < self.apps.len()
            invariant
                i <= self.apps@.len(),
                distinct_domains(self.apps@),
                forall|k: int| 0 <= k < i ==> self.apps@[k].0@ != domain@,
            decreases self.apps.len() - i,
        {
            if str_eq(self.apps[i].0.as_str(), domain) {
                proof {
                    lemma_registry_lookup(self.apps@, i as int);
                }
                return Some(self.apps[i].1);
            }
            i = i + 1;
        }
        proof {
            lemma_registry_absent(self.apps@, domain@);
        }
        None
    }
}

/// A registered domain is forwarded to the port it was registered with, and
/// registering one domain leaves every other domain as it was.
pub proof fn lemma_registry_read_after_write(m: Map<Seq<char>, u16>, domain: Seq<char>, port: u16, other: Seq<char>)
    requires
        other != domain,
    ensures
        m.insert(domain, port).contains_key(domain),
        m.insert(domain, port)[domain] == port,
        m.insert(domain, port).contains_key(other) == m.contains_key(other),
        m.contains_key(other) ==> m.insert(domain, port)[other] == m[other],
{
}

/// What the proxy does with a request that may be an app registering itself.
#[derive(Clone, Debug)]
pub enum AddAppDecision {
    /// Not a registration (another path, or no password given): forward it.
    NotForUs,
    /// A malformed or unauthorized registration: refuse it with this message.
    Reject(&'static str),
    /// Register the app, answer 202, and log that it is served at `addr`.
    Register { domain: String, port: u16, name: String, addr: String },
}

/// Reads a request to the proxy: on its registration path, a request with the
/// right password must give a port, a domain and a name.
pub fn add_app_decision(
    path: &str,
    password: Option<&str>,
    expected_password: &str,
    port: Option<&str>,
    domain: Option<&str>,
    name: Option<&str>,
    tls: bool,
) -> (r: AddAppDecision)
    ensures
        path@ != "/prest-proxy-add-app"@ ==> r is NotForUs,
        path@ == "/prest-proxy-add-app"@ ==> match password {
            None => r is NotForUs,
            Some(pw) => if pw@ != expected_password@ {
                r matches AddAppDecision::Reject(m) && m@ == "no host header"@
            } else if port is None || parsed_unsigned(port.unwrap()@, u16::MAX as nat) is None {
                r matches AddAppDecision::Reject(m) && m@ == "should include port"@
            } else if domain is None {
                r matches AddAppDecision::Reject(m) && m@ == "should include domain"@
            } else if name is None {
                r matches AddAppDecision::Reject(m) && m@ == "should include name"@
            } else {
                r matches AddAppDecision::Register { domain: d, port: p, name: n, addr } && d@
                    == domain.unwrap()@ && p as nat == parsed_unsigned(port.unwrap()@, u16::MAX as nat).unwrap()
                    && n@ == name.unwrap()@ && addr@ == (if tls { "https"@ } else { "http"@ }) + "://"@
                    + domain.unwrap()@
            },
        },
{
    if !str_eq(path, "/prest-proxy-add-app") {
        return AddAppDecision::NotForUs;
    }
    let pw = match password {
        Some(pw) => pw,
        None => {
            return AddAppDecision::NotForUs;
        },
    };
    if !str_eq(pw, expected_password) {
        return AddAppDecision::Reject("no host header");
    }
    let port = match port {
        Some(p) => match parse_unsigned(p, u16::MAX as u64) {
            Some(n) => n as u16,
            None => {
                return AddAppDecision::Reject("should include port");
            },
        },
        None => {
            return AddAppDecision::Reject("should include port");
        },
    };
    let domain = match domain {
        Some(d) => d,
        None => {
            return AddAppDecision::Reject("should include domain");
        },
    };
    let name = match name {
        Some(n) => n,
        None => {
            return AddAppDecision::Reject("should include name");
        },
    };
    let mut addr = if tls {
        String::from_str("https")
    } else {
        String::from_str("http")
    };
    addr.append("://");
    addr.append(domain);
    AddAppDecision::Register {
        domain: String::from_str(domain),
        port,
        name: String::from_str(name),
        addr,
    }
}

/// Where the proxy sends a request.
#[derive(Clone, Copy, Debug, PartialEq, Eq)]
pub enum Upstream {
    /// No `host` header: answer 400.
    MissingHost,
    /// A `host` header that is not text: answer 400.
    InvalidHost,
    /// A host no app serves: answer 404.
    UnknownApp,
    /// The local port of the app serving the host.
    Peer(u16),
}

/// Chooses where to forward a request, from its `host` header (absent, not
/// text, or text).
pub fn choose_upstream(host: Option<Option<&str>>, apps: &AppRegistry) -> (r: Upstream)
    ensures
        match host {
            None => r is MissingHost,
            Some(None) => r is InvalidHost,
            Some(Some(h)) => if apps@.contains_key(h@) {
                r == Upstream::Peer(apps@[h@])
            } else {
                r is UnknownApp
            },
        },
{
    match host {
        None => Upstream::MissingHost,
        Some(None) => Upstream::InvalidHost,
        Some(Some(h)) => match apps.get(h) {
            Some(p) => Upstream::Peer(p),
            None => Upstream::UnknownApp,
        },
    }
}

/// The local address of the app on `port`.
pub fn upstream_addr(port: u16) -> (r: String)
    ensures
        r@ == "127.0.0.1:"@ + decimal_chars(port as nat),
{
    let mut r = String::from_str("127.0.0.1:");
    let digits = decimal_string(port as u64);
    r.append(digits.as_str());
    r
}

/// The proxy accepted an app's registration when it answered 202.
pub fn registration_accepted(status: u16) -> (r: bool)
    ensures
        r == (status == 202),
{
    status == 202
}

} // verus!
