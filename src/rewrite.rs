//! The rewriting strategy's decision for one request: refuse a scheme other
//! than `http`, else forward, to the replacement authority where a rule
//! names the request's `host[:port]`.
use vstd::prelude::*;
use vstd::string::*;
use crate::rules::RuleTable;
use crate::text::same_text;

verus! {

/// The decimal digit of `d`, for `d < 10`.
pub open spec fn digit_char(d: nat) -> char {
    seq!['0', '1', '2', '3', '4', '5', '6', '7', '8', '9'][d as int]
}

/// The decimal notation of `n`, without sign or leading zero.
pub open spec fn decimal(n: nat) -> Seq<char>
    decreases n,
{
    if n < 10 {
        seq![digit_char(n)]
    } else {
        decimal(n / 10).push(digit_char(n % 10))
    }
}

/// The scheme that this proxy serves.
pub open spec fn http_scheme() -> Seq<char> {
    seq!['h', 't', 't', 'p']
}

/// Whether a request's scheme is `http`.
pub open spec fn is_http(scheme: Option<Seq<char>>) -> bool {
    scheme == Some(http_scheme())
}

/// The authority a request is looked up by: the host, and `:port` where the
/// request names a port.
pub open spec fn authority_key(host: Seq<char>, port: Option<u16>) -> Seq<char> {
    match port {
        Some(p) => host + seq![':'] + decimal(p as nat),
        None => host,
    }
}

/// The views of an optional string slice.
pub open spec fn opt_view(s: Option<&str>) -> Option<Seq<char>> {
    match s {
        Some(t) => Some(t@),
        None => None,
    }
}

/// The host of a request, the empty text where it names none.
pub open spec fn host_or_empty(host: Option<&str>) -> Seq<char> {
    match host {
        Some(h) => h@,
        None => Seq::empty(),
    }
}

fn append_decimal(out: &mut String, n: u16)
    ensures
        final(out)@ == old(out)@ + decimal(n as nat),
    decreases n,
{
    let digits = "0123456789";
    proof {
        reveal_strlit("0123456789");
        assert(digits@ =~= seq!['0', '1', '2', '3', '4', '5', '6', '7', '8', '9']);
    }
    let d: usize = (n % 10) as usize;
    if n >= 10 {
        append_decimal(out, n / 10);
    }
    let s = digits.substring_char(d, d + 1);
    proof {
        assert(s@ =~= seq![digit_char(d as nat)]);
    }
    out.append(s);
    proof {
        if n >= 10 {
            assert(decimal(n as nat) == decimal((n / 10) as nat).push(digit_char(d as nat)));
        }
        assert(final(out)@ =~= old(out)@ + decimal(n as nat));
    }
}

/// The `host[:port]` text a request is looked up by.
pub fn host_port(host: &str, port: Option<u16>) -> (r: String)
    ensures
        r@ == authority_key(host@, port),
{
    let mut r = String::from_str(host);
    match port {
        Some(p) => {
            let colon = ":";
            proof {
                reveal_strlit(":");
            }
            r.append(colon);
            append_decimal(&mut r, p);
            proof {
                assert(r@ =~= host@ + seq![':'] + decimal(p as nat));
            }
        },
        None => {},
    }
    r
}

/// Whether a scheme is `http`.
pub fn scheme_is_http(scheme: Option<&str>) -> (r: bool)
    ensures
        r == is_http(opt_view(scheme)),
{
    let http = "http";
    proof {
        reveal_strlit("http");
        assert(http@ =~= http_scheme());
    }
    match scheme {
        Some(s) => same_text(s, http),
        None => false,
    }
}

/// What the rewriting strategy does with a request.
pub enum RewriteAction {
    /// Answer `404 Not Found` without contacting any origin.
    NotFound,
    /// Forward the request; with `Some(a)`, under the authority `a` in place
    /// of its own, and otherwise unchanged.
    Forward(Option<String>),
}

/// Decides what to do with a request of the given scheme, host and port:
/// a scheme other than `http` is refused whatever the table holds; else the
/// request is forwarded, to the replacement of its exact `host[:port]`
/// where the table has one.
pub fn route_request(
    table: &RuleTable,
    scheme: Option<&str>,
    host: Option<&str>,
    port: Option<u16>,
) -> (r: RewriteAction)
    ensures
        !is_http(opt_view(scheme)) ==> r is NotFound,
        is_http(opt_view(scheme)) ==> r is Forward,
        r matches RewriteAction::Forward(a) ==> (a is Some <==> table@.contains_key(
            authority_key(host_or_empty(host), port),
        )),
        r matches RewriteAction::Forward(Some(a)) ==> a@ == table@[authority_key(
            host_or_empty(host),
            port,
        )],
{
    if !scheme_is_http(scheme) {
        return RewriteAction::NotFound;
    }
    let no_host = String::new();
    let key = match host {
        Some(h) => host_port(h, port),
        None => host_port(no_host.as_str(), port),
    };
    RewriteAction::Forward(table.lookup(key.as_str()))
}

} // verus!
