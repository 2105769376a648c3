//! Which endpoints the agent may talk to: HTTPS anywhere, plain HTTP only on
//! private-network hosts.
use crate::agent_error::{AgentConfigError, AgentError, UrlSetting};
use crate::text::{
    all_digits, chars_of, contains, contains_seq, digits_value, eq_seq, parse_unsigned, split_char,
    split_on, unsigned_value, views,
};
use crate::address::{ipv6, ipv6_of};
use vstd::prelude::*;

verus! {

/// The parts of a parsed URL that the agent checks.
pub struct UrlParts {
    pub scheme: String,
    pub username: String,
    pub password: Option<String>,
    pub host: Option<String>,
    pub query: Option<String>,
    pub fragment: Option<String>,
}

pub struct UrlView {
    pub scheme: Seq<char>,
    pub username: Seq<char>,
    pub password: Option<Seq<char>>,
    pub host: Option<Seq<char>>,
    pub query: Option<Seq<char>>,
    pub fragment: Option<Seq<char>>,
}

pub open spec fn opt(o: Option<String>) -> Option<Seq<char>> {
    match o {
        Some(s) => Some(s@),
        None => None,
    }
}

impl View for UrlParts {
    type V = UrlView;

    open spec fn view(&self) -> UrlView {
        UrlView {
            scheme: self.scheme@,
            username: self.username@,
            password: opt(self.password),
            host: opt(self.host),
            query: opt(self.query),
            fragment: opt(self.fragment),
        }
    }
}

/// The parts of `value` as the `url` crate parses it (WHATWG URL parsing), or
/// `None` when it is not a valid URL.
pub uninterp spec fn parsed_url(value: Seq<char>) -> Option<UrlView>;

/// `reqwest::Url::parse` (the `url` crate's `Url::parse`) with the scheme,
/// username, password, host, query and fragment it reports. The contract only
/// names the result: the parse is the same for the same text.
#[verifier::external_body]
fn parse_url(value: &str) -> (r: Option<UrlParts>)
    ensures
        match r {
            Some(p) => parsed_url(value@) == Some(p@),
            None => parsed_url(value@) is None,
        },
{
    match reqwest::Url::parse(value) {
        Ok(url) => Some(
            UrlParts {
                scheme: url.scheme().to_string(),
                username: url.username().to_string(),
                password: url.password().map(String::from),
                host: url.host_str().map(String::from),
                query: url.query().map(String::from),
                fragment: url.fragment().map(String::from),
            },
        ),
        Err(_) => None,
    }
}

/// One part of a dotted-decimal IPv4 address: one to three ASCII digits, no
/// leading zero, at most 255 (the grammar of `Ipv4Addr::from_str`).
pub open spec fn ipv4_part(p: Seq<char>) -> Option<nat> {
    if 1 <= p.len() <= 3 && all_digits(p) && !(p.len() > 1 && p[0] == '0') && digits_value(p)
        <= 255 {
        Some(digits_value(p))
    } else {
        None
    }
}

/// The four parts of a dotted-decimal IPv4 address.
pub open spec fn ipv4(s: Seq<char>) -> Option<Seq<nat>> {
    let ps = split_on(s, '.');
    if ps.len() == 4 && ipv4_part(ps[0]) is Some && ipv4_part(ps[1]) is Some && ipv4_part(
        ps[2],
    ) is Some && ipv4_part(ps[3]) is Some {
        Some(
            seq![
                ipv4_part(ps[0])->0,
                ipv4_part(ps[1])->0,
                ipv4_part(ps[2])->0,
                ipv4_part(ps[3])->0,
            ],
        )
    } else {
        None
    }
}

/// Private (10/8, 172.16/12, 192.168/16), loopback (127/8) or link-local
/// (169.254/16) IPv4 addresses.
pub open spec fn private_ipv4(a: Seq<nat>) -> bool {
    a[0] == 10 || (a[0] == 172 && 16 <= a[1] <= 31) || (a[0] == 192 && a[1] == 168) || a[0] == 127
        || (a[0] == 169 && a[1] == 254)
}

/// Loopback (`::1`), unique-local (`fc00::/7`, a first group from `fc00` to
/// `fdff`) or unicast link-local (`fe80::/10`, a first group from `fe80` to
/// `febf`) IPv6 addresses, given their eight groups.
pub open spec fn private_ipv6(g: Seq<nat>) -> bool {
    (g[0] == 0 && g[1] == 0 && g[2] == 0 && g[3] == 0 && g[4] == 0 && g[5] == 0 && g[6] == 0
        && g[7] == 1) || (0xfc00 <= g[0] <= 0xfdff) || (0xfe80 <= g[0] <= 0xfebf)
}

/// A host that plain HTTP may reach: `localhost`, the loopback literals, a name
/// without a dot, or a private, loopback or link-local IP address.
pub open spec fn private_host(h: Seq<char>) -> bool {
    h == "localhost"@ || h == "127.0.0.1"@ || h == "::1"@ || !contains(h, seq!['.']) || match ipv4(
        h,
    ) {
        Some(a) => private_ipv4(a),
        None => match ipv6(h) {
            Some(g) => private_ipv6(g),
            None => false,
        },
    }
}

/// Each part of an IPv4 address fits in a byte.
pub proof fn lemma_ipv4_parts_small(s: Seq<char>)
    ensures
        ipv4(s) matches Some(a) ==> a.len() == 4 && a[0] <= 255 && a[1] <= 255 && a[2] <= 255
            && a[3] <= 255,
{
}

fn ipv4_part_of(p: &Vec<char>) -> (r: Option<u64>)
    ensures
        match r {
            Some(v) => ipv4_part(p@) == Some(v as nat),
            None => ipv4_part(p@) is None,
        },
{
    if p.len() < 1 || p.len() > 3 || p[0] == '+' || (p.len() > 1 && p[0] == '0') {
        return None;
    }
    assert(!(p@.len() > 0 && p@[0] == '+'));
    parse_unsigned(p, 255)
}

/// The four parts of a dotted-decimal IPv4 address, if `s` is one.
pub fn ipv4_of(s: &Vec<char>) -> (r: Option<Vec<u64>>)
    ensures
        match r {
            Some(v) => ipv4(s@) == Some(v@.map_values(|x: u64| x as nat)) && v@.len() == 4,
            None => ipv4(s@) is None,
        },
{
    let ps = split_char(s, '.');
    let ghost pv = views(ps@);
    if ps.len() != 4 {
        return None;
    }
    assert(pv[0] == ps@[0]@ && pv[1] == ps@[1]@ && pv[2] == ps@[2]@ && pv[3] == ps@[3]@);
    let a = ipv4_part_of(&ps[0]);
    let b = ipv4_part_of(&ps[1]);
    let c = ipv4_part_of(&ps[2]);
    let d = ipv4_part_of(&ps[3]);
    match (a, b, c, d) {
        (Some(a), Some(b), Some(c), Some(d)) => {
            let v = vec![a, b, c, d];
            assert(v@.map_values(|x: u64| x as nat) =~= seq![
                a as nat,
                b as nat,
                c as nat,
                d as nat,
            ]);
            Some(v)
        },
        _ => None,
    }
}

/// Whether plain HTTP may reach `host`.
pub fn is_private_host(host: &Vec<char>) -> (b: bool)
    ensures
        b == private_host(host@),
{
    let localhost = chars_of("localhost");
    let loopback = chars_of("127.0.0.1");
    let loopback6 = chars_of("::1");
    let dot = vec!['.'];
    assert(dot@ =~= seq!['.']);
    if eq_seq(host, &localhost) || eq_seq(host, &loopback) || eq_seq(host, &loopback6)
        || !contains_seq(host, &dot) {
        return true;
    }
    match ipv4_of(host) {
        Some(a) => {
            let ghost av = a@.map_values(|x: u64| x as nat);
            assert(av[0] == a@[0] && av[1] == a@[1]);
            a[0] == 10 || (a[0] == 172 && 16 <= a[1] && a[1] <= 31) || (a[0] == 192 && a[1] == 168)
                || a[0] == 127 || (a[0] == 169 && a[1] == 254)
        },
        None => match ipv6_of(host) {
            Some(g) => {
                let ghost gv = g@.map_values(|x: u64| x as nat);
                assert(gv[0] == g@[0] && gv[1] == g@[1] && gv[2] == g@[2] && gv[3] == g@[3]
                    && gv[4] == g@[4] && gv[5] == g@[5] && gv[6] == g@[6] && gv[7] == g@[7]);
                (g[0] == 0 && g[1] == 0 && g[2] == 0 && g[3] == 0 && g[4] == 0 && g[5] == 0
                    && g[6] == 0 && g[7] == 1) || (0xfc00 <= g[0] && g[0] <= 0xfdff) || (0xfe80
                    <= g[0] && g[0] <= 0xfebf)
            },
            None => false,
        },
    }
}

/// What the URL check says of parsed parts: no credentials, query or fragment, a
/// host, and either HTTPS or HTTP to a private host.
pub open spec fn url_parts_check(u: UrlView, setting: UrlSetting) -> Result<(), AgentError> {
    if u.username.len() > 0 || u.password is Some {
        Err(AgentError::UrlHasCredentials { setting })
    } else if u.query is Some || u.fragment is Some {
        Err(AgentError::UrlHasQueryOrFragment { setting })
    } else {
        match u.host {
            None => Err(AgentError::UrlWithoutHost { setting }),
            Some(h) => if u.scheme == "https"@ {
                Ok(())
            } else if u.scheme != "http"@ || !private_host(h) {
                Err(AgentError::UrlNotPrivate { setting })
            } else {
                Ok(())
            },
        }
    }
}

/// What the URL check says of a value.
pub open spec fn url_check(value: Seq<char>, setting: UrlSetting) -> Result<(), AgentError> {
    match parsed_url(value) {
        None => Err(AgentError::InvalidUrl { setting }),
        Some(u) => url_parts_check(u, setting),
    }
}

/// Checks the parts of a parsed URL.
pub fn check_url_parts(u: &UrlParts, setting: UrlSetting) -> (r: Result<(), AgentConfigError>)
    ensures
        match r {
            Ok(()) => url_parts_check(u@, setting) == Ok::<(), AgentError>(()),
            Err(e) => url_parts_check(u@, setting) == Err::<(), _>(e@),
        },
{
    if !u.username.as_str().is_empty() || u.password.is_some() {
        return Err(AgentConfigError::UrlHasCredentials { setting });
    }
    if u.query.is_some() || u.fragment.is_some() {
        return Err(AgentConfigError::UrlHasQueryOrFragment { setting });
    }
    let host = match &u.host {
        Some(h) => h,
        None => {
            return Err(AgentConfigError::UrlWithoutHost { setting });
        },
    };
    let scheme = chars_of(u.scheme.as_str());
    if eq_seq(&scheme, &chars_of("https")) {
        return Ok(());
    }
    if !eq_seq(&scheme, &chars_of("http")) || !is_private_host(&chars_of(host.as_str())) {
        return Err(AgentConfigError::UrlNotPrivate { setting });
    }
    Ok(())
}

/// Checks that a URL setting uses HTTPS, or plain HTTP to a private host.
pub fn validate_private_or_https_url(value: &str, setting: UrlSetting) -> (r: Result<
    (),
    AgentConfigError,
>)
    ensures
        match r {
            Ok(()) => url_check(value@, setting) == Ok::<(), AgentError>(()),
            Err(e) => url_check(value@, setting) == Err::<(), _>(e@),
        },
{
    match parse_url(value) {
        None => Err(AgentConfigError::InvalidUrl { setting }),
        Some(u) => check_url_parts(&u, setting),
    }
}

} // verus!
