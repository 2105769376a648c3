//! Telegram authorization: which infraBot endpoints are accepted, the PKCE-style
//! verifier and challenge, the decisions of the pairing poll, and where the
//! credentials are stored.
use crate::config::join;
use crate::text::{chars_of, eq_seq, has_prefix, push_str, starts_with, string_of, trim, trimmed};
use vstd::prelude::*;
use vstd::string::StringSliceAdditionalSpecFns;

verus! {

/// The options of `infra auth telegram`.
pub struct TelegramAuthOptions {
    pub endpoint: String,
    pub no_open: bool,
}

/// Why authorization cannot go on.
#[derive(Debug, Clone, Copy, PartialEq, Eq)]
pub enum AuthError {
    EndpointRequired,
    InsecureEndpoint,
    InvalidToken,
    Expired,
    Rejected,
    NoCredentialsPath,
}

/// The text without its trailing slashes.
pub open spec fn drop_trailing_slashes(s: Seq<char>) -> Seq<char>
    decreases s.len(),
{
    if s.len() > 0 && s.last() == '/' {
        drop_trailing_slashes(s.drop_last())
    } else {
        s
    }
}

/// `e` is `origin` followed by nothing, or by a port, path, query or fragment:
/// the host of `e` is exactly the host of `origin`.
pub open spec fn exact_origin(e: Seq<char>, origin: Seq<char>) -> bool {
    has_prefix(e, origin) && (e.len() == origin.len() || e[origin.len() as int] == ':'
        || e[origin.len() as int] == '/' || e[origin.len() as int] == '?' || e[
        origin.len() as int] == '#')
}

/// Plain HTTP to exactly one of the local hosts.
pub open spec fn local_http(e: Seq<char>) -> bool {
    exact_origin(e, "http://127.0.0.1"@) || exact_origin(e, "http://localhost"@) || exact_origin(
        e,
        "http://[::1]"@,
    )
}

/// The endpoint as `infra` uses it: trimmed, without trailing slashes, and either
/// HTTPS or HTTP to exactly a local host.
pub open spec fn endpoint_of(value: Seq<char>) -> Result<Seq<char>, AuthError> {
    let e = drop_trailing_slashes(trim(value));
    let secure = has_prefix(e, "https://"@);
    let local = local_http(e);
    if e.len() == 0 {
        Err(AuthError::EndpointRequired)
    } else if !secure && !local {
        Err(AuthError::InsecureEndpoint)
    } else {
        Ok(e)
    }
}

fn has_origin(e: &Vec<char>, origin: &Vec<char>) -> (b: bool)
    ensures
        b == exact_origin(e@, origin@),
{
    if !starts_with(e, origin) {
        return false;
    }
    if e.len() == origin.len() {
        return true;
    }
    let c = e[origin.len()];
    c == ':' || c == '/' || c == '?' || c == '#'
}

/// Normalizes the infraBot endpoint given on the command line.
pub fn normalize_endpoint(value: &str) -> (r: Result<String, AuthError>)
    ensures
        match r {
            Ok(e) => endpoint_of(value@) == Ok::<_, AuthError>(e@),
            Err(err) => endpoint_of(value@) == Err::<Seq<char>, _>(err),
        },
{
    let t = trimmed(&chars_of(value));
    let mut end = t.len();
    assert(t@.subrange(0, end as int) =~= t@);
    while end > 0 && t[end - 1] == '/'
        invariant
            end <= t.len(),
            drop_trailing_slashes(t@) == drop_trailing_slashes(t@.subrange(0, end as int)),
        decreases end,
    {
        assert(t@.subrange(0, end as int).drop_last() =~= t@.subrange(0, end - 1));
        end = end - 1;
    }
    let e = crate::text::slice_of(&t, 0, end);
    let secure = starts_with(&e, &chars_of("https://"));
    let local = has_origin(&e, &chars_of("http://127.0.0.1")) || has_origin(
        &e,
        &chars_of("http://localhost"),
    ) || has_origin(&e, &chars_of("http://[::1]"));
    if e.len() == 0 {
        return Err(AuthError::EndpointRequired);
    }
    if !secure && !local {
        return Err(AuthError::InsecureEndpoint);
    }
    Ok(string_of(&e))
}

/// The SHA-256 digest of `data`.
pub uninterp spec fn sha256(data: Seq<u8>) -> Seq<u8>;

/// `sha2::Sha256::digest`: the 32-byte SHA-256 digest of the data.
#[verifier::external_body]
fn sha256_digest(data: &[u8]) -> (r: Vec<u8>)
    ensures
        r@ == sha256(data@),
        r@.len() == 32,
{
    <sha2::Sha256 as sha2::Digest>::digest(data).to_vec()
}

/// The character of the URL-safe Base64 alphabet for a 6-bit value:
/// `A`-`Z`, `a`-`z`, `0`-`9`, `-`, `_`.
pub open spec fn b64_char(v: nat) -> char {
    if v < 26 {
        (65 + v) as char
    } else if v < 52 {
        (71 + v) as char
    } else if v < 62 {
        (v - 4) as char
    } else if v == 62 {
        '-'
    } else {
        '_'
    }
}

/// The unpadded URL-safe Base64 encoding of `data`: each group of three bytes
/// gives four characters, six bits each, and a last group of one or two bytes
/// gives two or three characters.
pub open spec fn base64_url(data: Seq<u8>) -> Seq<char>
    decreases data.len(),
{
    if data.len() == 0 {
        seq![]
    } else {
        let d0 = data[0] as nat;
        if data.len() == 1 {
            seq![b64_char(d0 / 4), b64_char((d0 % 4) * 16)]
        } else {
            let d1 = data[1] as nat;
            if data.len() == 2 {
                seq![b64_char(d0 / 4), b64_char((d0 % 4) * 16 + d1 / 16), b64_char((d1 % 16) * 4)]
            } else {
                let d2 = data[2] as nat;
                seq![
                    b64_char(d0 / 4),
                    b64_char((d0 % 4) * 16 + d1 / 16),
                    b64_char((d1 % 16) * 4 + d2 / 64),
                    b64_char(d2 % 64),
                ] + base64_url(data.subrange(3, data.len() as int))
            }
        }
    }
}

/// The length of the unpadded Base64 encoding of `n` bytes.
pub open spec fn base64_len(n: nat) -> nat {
    4 * (n / 3) + if n % 3 == 0 {
        0
    } else {
        n % 3 + 1
    }
}

/// A character of the URL-safe Base64 alphabet.
pub open spec fn url_safe_char(c: char) -> bool {
    (65 <= c as u32 && c as u32 <= 90) || (97 <= c as u32 && c as u32 <= 122) || (48 <= c as u32
        && c as u32 <= 57) || c == '-' || c == '_'
}

/// Every 6-bit value has a character of the URL-safe alphabet.
proof fn lemma_b64_char(v: nat)
    requires
        v < 64,
    ensures
        url_safe_char(b64_char(v)),
{
    if v < 26 {
        assert(((65 + v) as char) as u32 == 65 + v);
    } else if v < 52 {
        assert(((71 + v) as char) as u32 == 71 + v);
    } else if v < 62 {
        assert(((v - 4) as char) as u32 == v - 4);
    }
}

/// The encoding has `base64_len` characters, all from the URL-safe alphabet.
pub proof fn lemma_base64_url(data: Seq<u8>)
    ensures
        base64_url(data).len() == base64_len(data.len()),
        forall|i: int|
            0 <= i < base64_url(data).len() ==> url_safe_char(#[trigger] base64_url(data)[i]),
    decreases data.len(),
{
    if data.len() > 0 {
        let d0 = data[0] as nat;
        lemma_b64_char(d0 / 4);
        lemma_b64_char((d0 % 4) * 16);
        if data.len() >= 2 {
            let d1 = data[1] as nat;
            lemma_b64_char((d0 % 4) * 16 + d1 / 16);
            lemma_b64_char((d1 % 16) * 4);
            if data.len() >= 3 {
                let d2 = data[2] as nat;
                lemma_b64_char((d1 % 16) * 4 + d2 / 64);
                lemma_b64_char(d2 % 64);
                let rest = data.subrange(3, data.len() as int);
                lemma_base64_url(rest);
                let head = seq![
                    b64_char(d0 / 4),
                    b64_char((d0 % 4) * 16 + d1 / 16),
                    b64_char((d1 % 16) * 4 + d2 / 64),
                    b64_char(d2 % 64),
                ];
                assert(base64_url(data) == head + base64_url(rest));
                assert forall|i: int| 0 <= i < base64_url(data).len() implies url_safe_char(
                    #[trigger] base64_url(data)[i],
                ) by {
                    if i >= 4 {
                        assert(base64_url(data)[i] == base64_url(rest)[i - 4]);
                    }
                }
            }
        }
    }
}

/// `base64::engine::general_purpose::URL_SAFE_NO_PAD.encode`: standard Base64
/// over the URL-safe alphabet, without padding. The engine panics only when
/// the encoded length overflows `usize`, which the bound on the input rules out.
#[verifier::external_body]
fn base64_url_encode(data: &[u8]) -> (r: String)
    requires
        data@.len() <= 0x1000_0000,
    ensures
        r@ == base64_url(data@),
{
    base64::Engine::encode(&base64::engine::general_purpose::URL_SAFE_NO_PAD, data)
}

/// `rand::rngs::OsRng.try_fill_bytes`: `n` bytes from the operating system's
/// random source, or `None` when that source fails. Nothing is promised of the
/// values of the bytes.
#[verifier::external_body]
fn random_bytes(n: usize) -> (r: Option<Vec<u8>>)
    requires
        n <= 0x1000_0000,
    ensures
        r matches Some(v) ==> v@.len() == n,
{
    let mut value = vec![0_u8; n];
    match rand::RngCore::try_fill_bytes(&mut rand::rngs::OsRng, &mut value) {
        Ok(()) => Some(value),
        Err(_) => None,
    }
}

/// A fresh random token: `bytes` random bytes in unpadded URL-safe Base64, or
/// `None` when the operating system's random source fails.
pub fn random_token(bytes: usize) -> (r: Option<String>)
    requires
        bytes <= 0x1000_0000,
    ensures
        r matches Some(t) ==> {
            &&& exists|drawn: Seq<u8>| drawn.len() == bytes && t@ == base64_url(drawn)
            &&& t@.len() == base64_len(bytes as nat)
            &&& forall|i: int| 0 <= i < t@.len() ==> url_safe_char(#[trigger] t@[i])
        },
{
    match random_bytes(bytes) {
        Some(value) => {
            let t = base64_url_encode(value.as_slice());
            proof {
                lemma_base64_url(value@);
            }
            assert(value@.len() == bytes && t@ == base64_url(value@));
            Some(t)
        },
        None => None,
    }
}

/// The number of random bytes in a verifier.
pub const VERIFIER_BYTES: usize = 32;

/// The challenge sent for a verifier: its SHA-256 digest in unpadded URL-safe
/// Base64 (43 characters).
pub fn code_challenge(verifier: &str) -> (r: String)
    ensures
        r@ == base64_url(sha256(verifier.spec_bytes())),
        r@.len() == 43,
        forall|i: int| 0 <= i < r@.len() ==> url_safe_char(#[trigger] r@[i]),
{
    let digest = sha256_digest(verifier.as_bytes());
    let r = base64_url_encode(digest.as_slice());
    proof {
        lemma_base64_url(digest@);
    }
    r
}

/// The poll interval to start with: what the server asked for, at least one second.
pub fn initial_interval(requested: u64) -> (r: u64)
    ensures
        r == if requested < 1 {
            1
        } else {
            requested
        },
{
    if requested < 1 {
        1
    } else {
        requested
    }
}

/// The largest poll interval, in seconds.
pub const MAX_POLL_INTERVAL: u64 = 10;

/// What to do after an exchange attempt answered with an HTTP status.
#[derive(Debug, Clone, Copy, PartialEq, Eq)]
pub enum ExchangeDecision {
    /// 200: read the token from the response.
    ReadToken,
    /// Keep polling with this interval.
    Wait { interval: u64 },
    /// Stop with this error.
    Fail(AuthError),
}

/// The decision for an exchange response: 200 reads the token, 202 waits,
/// 429 slows down by two seconds up to the maximum, 410 means the pairing
/// expired, and anything else is a rejection.
pub open spec fn exchange_decision(status: u16, interval: u64) -> ExchangeDecision {
    if status == 200 {
        ExchangeDecision::ReadToken
    } else if status == 202 {
        ExchangeDecision::Wait { interval }
    } else if status == 429 {
        ExchangeDecision::Wait {
            interval: if interval + 2 < 10 {
                (interval + 2) as u64
            } else {
                10
            },
        }
    } else if status == 410 {
        ExchangeDecision::Fail(AuthError::Expired)
    } else {
        ExchangeDecision::Fail(AuthError::Rejected)
    }
}

/// Decides how the pairing poll goes on after a response.
pub fn next_exchange_step(status: u16, interval: u64) -> (r: ExchangeDecision)
    ensures
        r == exchange_decision(status, interval),
{
    if status == 200 {
        ExchangeDecision::ReadToken
    } else if status == 202 {
        ExchangeDecision::Wait { interval }
    } else if status == 429 {
        let next = interval.saturating_add(2);
        ExchangeDecision::Wait {
            interval: if next < MAX_POLL_INTERVAL {
                next
            } else {
                MAX_POLL_INTERVAL
            },
        }
    } else if status == 410 {
        ExchangeDecision::Fail(AuthError::Expired)
    } else {
        ExchangeDecision::Fail(AuthError::Rejected)
    }
}

/// Checks the token that infraBot returned: a non-empty bearer token.
pub fn validate_token(token_type: &str, access_token: &str) -> (r: Result<(), AuthError>)
    ensures
        r is Ok <==> (token_type@ == "Bearer"@ && access_token@.len() > 0),
        r is Err ==> r == Err::<(), AuthError>(AuthError::InvalidToken),
{
    if !eq_seq(&chars_of(token_type), &chars_of("Bearer")) || access_token.is_empty() {
        return Err(AuthError::InvalidToken);
    }
    Ok(())
}

/// Where the credentials are stored: `INFRA_CREDENTIALS_FILE`, else
/// `$XDG_CONFIG_HOME/infra/credentials.json`, else
/// `$HOME/.config/infra/credentials.json`.
pub open spec fn credentials_location(
    file: Option<Seq<char>>,
    xdg: Option<Seq<char>>,
    home: Option<Seq<char>>,
) -> Result<Seq<char>, AuthError> {
    match file {
        Some(f) => Ok(f),
        None => match xdg {
            Some(root) => Ok(join(root, "infra/credentials.json"@)),
            None => match home {
                Some(h) => Ok(join(h, ".config/infra/credentials.json"@)),
                None => Err(AuthError::NoCredentialsPath),
            },
        },
    }
}

fn join_path(root: &String, rel: &str) -> (r: String)
    ensures
        r@ == join(root@, rel@),
{
    let mut out = root.clone();
    let v = chars_of(root.as_str());
    if v.len() > 0 && v[v.len() - 1] != '/' {
        crate::text::push_char(&mut out, '/');
    }
    push_str(&mut out, rel);
    out
}

/// Chooses the credentials path from the values of `INFRA_CREDENTIALS_FILE`,
/// `XDG_CONFIG_HOME` and `HOME`.
pub fn credentials_path(file: Option<String>, xdg: Option<String>, home: Option<String>) -> (r: Result<
    String,
    AuthError,
>)
    ensures
        match r {
            Ok(p) => credentials_location(
                crate::config::opt_view(file),
                crate::config::opt_view(xdg),
                crate::config::opt_view(home),
            ) == Ok::<_, AuthError>(p@),
            Err(e) => credentials_location(
                crate::config::opt_view(file),
                crate::config::opt_view(xdg),
                crate::config::opt_view(home),
            ) == Err::<Seq<char>, _>(e),
        },
{
    match file {
        Some(f) => Ok(f),
        None => match xdg {
            Some(root) => Ok(join_path(&root, "infra/credentials.json")),
            None => match home {
                Some(h) => Ok(join_path(&h, ".config/infra/credentials.json")),
                None => Err(AuthError::NoCredentialsPath),
            },
        },
    }
}

} // verus!
