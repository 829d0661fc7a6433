//! Settings of the release API clients: the proxy, the request headers, and
//! the `--proxy` command-line override.
use crate::text::{chars_of, has_prefix, push_str_chars, str_eq, string_of, sub_chars, starts_with_chars};
use vstd::prelude::*;

verus! {

broadcast use vstd::string::group_string_axioms;

/// Why a client cannot be built.
#[derive(Clone, Copy, Debug, PartialEq, Eq, Structural)]
pub enum ApiError {
    /// The proxy type is none of `http`, `https`, `socks5`.
    UnknownProxy,
}

/// The proxy URL for a proxy type and `host:port` address.
pub open spec fn spec_proxy_url(proxy_type: Seq<char>, address: Seq<char>) -> Result<
    Seq<char>,
    ApiError,
> {
    if proxy_type == "http"@ || proxy_type == "https"@ {
        Ok("http://"@ + address)
    } else if proxy_type == "socks5"@ {
        Ok("socks5://"@ + address)
    } else {
        Err(ApiError::UnknownProxy)
    }
}

/// The views of a string result.
pub open spec fn string_result_view<E>(r: Result<String, E>) -> Result<Seq<char>, E> {
    match r {
        Ok(s) => Ok(s@),
        Err(e) => Err(e),
    }
}

/// `prefix` followed by `rest`.
fn concat_str(prefix: &str, rest: &str) -> (r: String)
    ensures
        r@ == prefix@ + rest@,
{
    let mut out: Vec<char> = Vec::new();
    push_str_chars(&mut out, prefix);
    push_str_chars(&mut out, rest);
    assert(out@ =~= Seq::<char>::empty() + prefix@ + rest@);
    string_of(&out)
}

/// The proxy URL of a proxy type: `http://<address>` for `http` and
/// `https`, `socks5://<address>` for `socks5`; other types are refused.
pub fn proxy_url(proxy_type: &str, address: &str) -> (r: Result<String, ApiError>)
    ensures
        string_result_view(r) == spec_proxy_url(proxy_type@, address@),
{
    if str_eq(proxy_type, "http") || str_eq(proxy_type, "https") {
        Ok(concat_str("http://", address))
    } else if str_eq(proxy_type, "socks5") {
        Ok(concat_str("socks5://", address))
    } else {
        Err(ApiError::UnknownProxy)
    }
}

/// The proxy a client uses: none unless enabled, else the proxy URL.
pub fn proxy_setting(enabled: bool, proxy_type: &str, address: &str) -> (r: Result<
    Option<String>,
    ApiError,
>)
    ensures
        !enabled ==> r == Ok::<Option<String>, ApiError>(None),
        enabled ==> match r {
            Ok(Some(u)) => spec_proxy_url(proxy_type@, address@) == Ok::<Seq<char>, ApiError>(u@),
            Ok(None) => false,
            Err(e) => spec_proxy_url(proxy_type@, address@) == Err::<Seq<char>, ApiError>(e),
        },
{
    if !enabled {
        return Ok(None);
    }
    match proxy_url(proxy_type, address) {
        Ok(u) => Ok(Some(u)),
        Err(e) => Err(e),
    }
}

/// A request header the clients set.
#[derive(Clone, Copy, Debug, PartialEq, Eq, Structural)]
pub enum HeaderKind {
    Accept,
    Authorization,
}

/// The views of a header list.
pub open spec fn headers_view(h: Seq<(HeaderKind, String)>) -> Seq<(HeaderKind, Seq<char>)> {
    h.map_values(|p: (HeaderKind, String)| (p.0, p.1@))
}

/// The authorization header for a token, if there is a token.
pub open spec fn auth_headers(token: Seq<char>) -> Seq<(HeaderKind, Seq<char>)> {
    if token.len() > 0 {
        seq![(HeaderKind::Authorization, "Bearer "@ + token)]
    } else {
        seq![]
    }
}

/// Headers of GitHub API requests: `Authorization: Bearer <token>` when a
/// token is set.
pub fn github_headers(token: &str) -> (r: Vec<(HeaderKind, String)>)
    ensures
        headers_view(r@) == auth_headers(token@),
{
    let mut h: Vec<(HeaderKind, String)> = Vec::new();
    let t = chars_of(token);
    if t.len() > 0 {
        h.push((HeaderKind::Authorization, concat_str("Bearer ", token)));
    }
    assert(headers_view(h@) =~= auth_headers(token@));
    h
}

/// Headers of CNB mirror requests: `Accept: application/vnd.cnb.web+json`,
/// then `Authorization: Bearer <token>` when a token is set.
pub fn cnb_headers(token: &str) -> (r: Vec<(HeaderKind, String)>)
    ensures
        headers_view(r@) == seq![(HeaderKind::Accept, "application/vnd.cnb.web+json"@)] + auth_headers(
            token@,
        ),
{
    let mut h: Vec<(HeaderKind, String)> = Vec::new();
    h.push((HeaderKind::Accept, "application/vnd.cnb.web+json".to_string()));
    let t = chars_of(token);
    if t.len() > 0 {
        h.push((HeaderKind::Authorization, concat_str("Bearer ", token)));
    }
    assert(headers_view(h@) =~= seq![(HeaderKind::Accept, "application/vnd.cnb.web+json"@)]
        + auth_headers(token@));
    h
}

/// `str::trim_start_matches(p)`: every leading repetition of `p` removed.
pub open spec fn strip_all_prefix(s: Seq<char>, p: Seq<char>) -> Seq<char>
    decreases s.len(),
{
    if p.len() > 0 && has_prefix(s, p) {
        strip_all_prefix(s.skip(p.len() as int), p)
    } else {
        s
    }
}

/// What `--proxy <arg>` sets: the proxy type (unchanged when `None`) and
/// the address.
pub struct ProxyOverride {
    pub proxy_type: Option<String>,
    pub address: String,
}

/// What `--proxy` sets: `http://...` sets type `http`, `socks5://...` sets
/// type `socks5`, each with every leading repetition of the scheme removed
/// from the address; any other text is the address as it is.
pub open spec fn spec_proxy_override(arg: Seq<char>) -> (Option<Seq<char>>, Seq<char>) {
    if has_prefix(arg, "http://"@) {
        (Some("http"@), strip_all_prefix(arg, "http://"@))
    } else if has_prefix(arg, "socks5://"@) {
        (Some("socks5"@), strip_all_prefix(arg, "socks5://"@))
    } else {
        (None, arg)
    }
}

/// Removes every leading repetition of `p`.
fn strip_prefix_all(s: &Vec<char>, p: &Vec<char>) -> (r: Vec<char>)
    requires
        p.len() > 0,
    ensures
        r@ == strip_all_prefix(s@, p@),
{
    let mut start: usize = 0;
    assert(s@.skip(0) =~= s@);
    while start <= s.len()
        invariant
            p.len() > 0,
            0 <= start <= s.len(),
            strip_all_prefix(s@, p@) == strip_all_prefix(s@.skip(start as int), p@),
        decreases s.len() - start,
    {
        let rest = sub_chars(s, start, s.len());
        assert(rest@ =~= s@.skip(start as int));
        if starts_with_chars(&rest, p) {
            assert(s@.skip(start as int).skip(p.len() as int) =~= s@.skip(start + p.len()));
            start = start + p.len();
        } else {
            return rest;
        }
    }
    Vec::new()
}

/// The `--proxy` override (see `spec_proxy_override`).
pub fn proxy_override(arg: &str) -> (r: ProxyOverride)
    ensures
        ({
            let (t, a) = spec_proxy_override(arg@);
            &&& r.address@ == a
            &&& match r.proxy_type {
                Some(x) => t == Some(x@),
                None => t is None,
            }
        }),
{
    let cs = chars_of(arg);
    let http = chars_of("http://");
    let socks = chars_of("socks5://");
    proof {
        reveal_strlit("http://");
        reveal_strlit("socks5://");
    }
    if starts_with_chars(&cs, &http) {
        let a = strip_prefix_all(&cs, &http);
        ProxyOverride { proxy_type: Some("http".to_string()), address: string_of(&a) }
    } else if starts_with_chars(&cs, &socks) {
        let a = strip_prefix_all(&cs, &socks);
        ProxyOverride { proxy_type: Some("socks5".to_string()), address: string_of(&a) }
    } else {
        ProxyOverride { proxy_type: None, address: arg.to_string() }
    }
}


/// The proxy URL: exactly the types `http`, `https` and `socks5` are
/// accepted; `http` and `https` give the same URL; the URL's scheme is
/// `socks5://` exactly for `socks5` and `http://` for the other two; and the
/// address follows the scheme unchanged.
pub proof fn law_proxy_url(t: Seq<char>, a: Seq<char>)
    ensures
        spec_proxy_url(t, a) is Ok <==> (t == "http"@ || t == "https"@ || t == "socks5"@),
        spec_proxy_url("http"@, a) == spec_proxy_url("https"@, a),
        spec_proxy_url(t, a) matches Ok(u) ==> {
            &&& (t == "socks5"@ <==> u == "socks5://"@ + a)
            &&& (t != "socks5"@ <==> u == "http://"@ + a)
            &&& u.skip(u.len() - a.len()) == a
        },
{
    reveal_strlit("http");
    reveal_strlit("https");
    reveal_strlit("socks5");
    reveal_strlit("http://");
    reveal_strlit("socks5://");
    assert("socks5"@[0] == 's' && "http"@[0] == 'h' && "https"@[0] == 'h');
    assert("socks5"@ != "http"@ && "socks5"@ != "https"@);
    if spec_proxy_url(t, a) is Ok {
        let u = spec_proxy_url(t, a)->Ok_0;
        if t == "socks5"@ {
            assert(u.skip(u.len() - a.len()) =~= a);
            assert(u != "http://"@ + a) by {
                assert("socks5://"@[0] == 's');
                assert(("socks5://"@ + a)[0] == "socks5://"@[0]);
                assert("http://"@[0] == 'h');
                assert(("http://"@ + a)[0] == "http://"@[0]);
            }
        } else {
            assert(u.skip(u.len() - a.len()) =~= a);
            assert(u != "socks5://"@ + a) by {
                assert("socks5://"@[0] == 's');
                assert(("socks5://"@ + a)[0] == "socks5://"@[0]);
                assert("http://"@[0] == 'h');
                assert(("http://"@ + a)[0] == "http://"@[0]);
            }
        }
    }
}

} // verus!
