//! Routing of `/portforward/<port>/<path>` requests to a local port: which
//! requests are forwarded, where they go, and how the answer's redirections
//! are written back under the forwarding prefix.
use vstd::prelude::*;
use crate::pattern::{regex_compiles, regex_captures_of, regex_captures, group, group_text};

verus! {

/// The pattern of a forwarded address: anything, `/portforward/`, the port,
/// and an optional path.
pub const PORTFORWARD_PATTERN: &'static str = "(.*)/portforward/(\\d+)(/.*)?";

/// Where a request goes.
#[derive(Debug, PartialEq, Eq)]
pub enum ForwardPlan {
    /// Answer with a `301` redirection to `location`.
    Redirect { location: String },
    /// Send the request to `localhost:port`, with these `host` and `referer`
    /// headers, at `uri`.
    Forward { port: String, host: String, referer: String, uri: String },
}

/// Why a request cannot be forwarded.
#[derive(Debug, Clone, Copy, PartialEq, Eq)]
pub enum ForwardError {
    /// The address names a port but no path after it.
    NoPath,
    /// The address is not a forwarded one, and the request has no `referer`
    /// header to tell the port.
    MissingReferer,
    /// The `referer` header is not a forwarded address.
    RefererNotForwarded,
    /// The forwarding pattern does not compile.
    PatternInvalid,
}

/// The mathematical content of a `ForwardPlan`.
pub enum ForwardPlanView {
    Redirect { location: Seq<char> },
    Forward { port: Seq<char>, host: Seq<char>, referer: Seq<char>, uri: Seq<char> },
}

impl View for ForwardPlan {
    type V = ForwardPlanView;

    open spec fn view(&self) -> ForwardPlanView {
        match self {
            ForwardPlan::Redirect { location } => ForwardPlanView::Redirect { location: location@ },
            ForwardPlan::Forward { port, host, referer, uri } => ForwardPlanView::Forward {
                port: port@,
                host: host@,
                referer: referer@,
                uri: uri@,
            },
        }
    }
}

impl DeepView for ForwardPlan {
    type V = ForwardPlanView;

    open spec fn deep_view(&self) -> ForwardPlanView {
        self@
    }
}

/// The address under the forwarding prefix of `path` on `port`.
pub open spec fn forwarded_location(port: Seq<char>, path: Seq<char>) -> Seq<char> {
    "/portforward/"@ + port + path
}

/// The forwarding of a request for `path` on `port`, whose page came from
/// `base`.
pub open spec fn forward_to(port: Seq<char>, base: Seq<char>, path: Seq<char>) -> ForwardPlanView {
    ForwardPlanView::Forward {
        port,
        host: "localhost:"@ + port,
        referer: base + ":"@ + port + path,
        uri: "http://localhost:"@ + port + path,
    }
}

/// Where a request goes, from the groups that the forwarding pattern finds
/// in its address (`url_caps`) and in its `referer` header (`referer_caps`:
/// `None` when the request has no such header).
///
/// An address that matches gives the port and the path; the page it came
/// from is the part of the referer before its own forwarding prefix, or
/// `http://localhost` without a referer.  An address that does not match is
/// a resource of a forwarded page: its port comes from the referer, and a
/// `GET` is redirected under the forwarding prefix.  A match without a path,
/// a missing referer where the port must come from it, and a referer that
/// does not match are errors.
pub open spec fn plan_spec(
    url: Seq<char>,
    url_caps: Option<Seq<Option<Seq<char>>>>,
    referer_caps: Option<Option<Seq<Option<Seq<char>>>>>,
    is_get: bool,
) -> Result<ForwardPlanView, ForwardError> {
    match url_caps {
        Some(c) => match (group(c, 2), group(c, 3)) {
            (Some(port), Some(path)) => match referer_caps {
                None => Ok(forward_to(port, "http://localhost"@, path)),
                Some(Some(rc)) => match group(rc, 1) {
                    Some(base) => Ok(forward_to(port, base, path)),
                    None => Err(ForwardError::RefererNotForwarded),
                },
                Some(None) => Err(ForwardError::RefererNotForwarded),
            },
            _ => Err(ForwardError::NoPath),
        },
        None => match referer_caps {
            Some(Some(rc)) => match (group(rc, 2), group(rc, 1)) {
                (Some(port), Some(base)) => if is_get {
                    Ok(ForwardPlanView::Redirect { location: forwarded_location(port, url) })
                } else {
                    Ok(forward_to(port, base, url))
                },
                _ => Err(ForwardError::RefererNotForwarded),
            },
            Some(None) => Err(ForwardError::RefererNotForwarded),
            None => Err(ForwardError::MissingReferer),
        },
    }
}

/// The view of the outcome of a planning.
pub open spec fn plan_view(r: Result<ForwardPlan, ForwardError>) -> Result<ForwardPlanView, ForwardError> {
    match r {
        Ok(p) => Ok(p@),
        Err(e) => Err(e),
    }
}

/// `a` followed by `b`.
fn concat2(a: &str, b: &str) -> (r: String)
    ensures
        r@ == a@ + b@,
{
    let mut r = String::from_str(a);
    r.append(b);
    r
}

/// `prefix` followed by `a` and `b`.
fn concat3(prefix: &str, a: &str, b: &str) -> (r: String)
    ensures
        r@ == prefix@ + a@ + b@,
{
    let mut r = String::from_str(prefix);
    r.append(a);
    r.append(b);
    r
}

/// The forwarding of a request for `path` on `port`, whose page came from
/// `base`.
fn make_forward(port: String, base: &str, path: &str) -> (r: ForwardPlan)
    ensures
        r@ == forward_to(port@, base@, path@),
{
    let host = concat2("localhost:", port.as_str());
    let referer = concat3(base, ":", port.as_str());
    let referer = concat2(referer.as_str(), path);
    let uri = concat3("http://localhost:", port.as_str(), path);
    assert(host@ =~= "localhost:"@ + port@);
    assert(referer@ =~= base@ + ":"@ + port@ + path@);
    ForwardPlan::Forward { port, host, referer, uri }
}

/// The address under the forwarding prefix of `path` on `port`; it is also
/// how the `location` and `uri` headers of a forwarded answer are rewritten.
pub fn portforward_location(port: &str, path: &str) -> (r: String)
    ensures
        r@ == forwarded_location(port@, path@),
{
    concat3("/portforward/", port, path)
}

/// Where a request goes, from what the forwarding pattern found in its
/// address and in its `referer` header.
pub fn plan_from_captures(
    url: &str,
    url_caps: &Option<Vec<Option<String>>>,
    referer_caps: &Option<Option<Vec<Option<String>>>>,
    is_get: bool,
) -> (r: Result<ForwardPlan, ForwardError>)
    ensures
        plan_view(r) == plan_spec(url@, url_caps.deep_view(), referer_caps.deep_view(), is_get),
{
    match url_caps {
        Some(c) => {
            match (group_text(c, 2), group_text(c, 3)) {
                (Some(port), Some(path)) => match referer_caps {
                    None => Ok(make_forward(port, "http://localhost", path.as_str())),
                    Some(Some(rc)) => match group_text(rc, 1) {
                        Some(base) => Ok(make_forward(port, base.as_str(), path.as_str())),
                        None => Err(ForwardError::RefererNotForwarded),
                    },
                    Some(None) => Err(ForwardError::RefererNotForwarded),
                },
                _ => Err(ForwardError::NoPath),
            }
        },
        None => match referer_caps {
            Some(Some(rc)) => match (group_text(rc, 2), group_text(rc, 1)) {
                (Some(port), Some(base)) => if is_get {
                    Ok(ForwardPlan::Redirect { location: portforward_location(port.as_str(), url) })
                } else {
                    Ok(make_forward(port, base.as_str(), url))
                },
                _ => Err(ForwardError::RefererNotForwarded),
            },
            Some(None) => Err(ForwardError::RefererNotForwarded),
            None => Err(ForwardError::MissingReferer),
        },
    }
}

/// Whether the address `url` is a forwarded one; `None` when the forwarding
/// pattern does not compile.
pub fn is_portforward(url: &str) -> (r: Option<bool>)
    ensures
        r is Some <==> regex_compiles(PORTFORWARD_PATTERN@),
        r matches Some(b) ==> b == regex_captures_of(PORTFORWARD_PATTERN@, url@) is Some,
{
    match regex_captures(PORTFORWARD_PATTERN, url) {
        Some(c) => Some(c.is_some()),
        None => None,
    }
}

/// Where a request for `url`, with the `referer` header if it has one, goes,
/// or why it cannot be forwarded.
pub fn plan_forward(url: &str, referer: Option<&str>, is_get: bool) -> (r: Result<ForwardPlan, ForwardError>)
    ensures
        plan_view(r) == (if regex_compiles(PORTFORWARD_PATTERN@) {
            plan_spec(
                url@,
                regex_captures_of(PORTFORWARD_PATTERN@, url@),
                match referer {
                    Some(h) => Some(regex_captures_of(PORTFORWARD_PATTERN@, h@)),
                    None => None,
                },
                is_get,
            )
        } else {
            Err(ForwardError::PatternInvalid)
        }),
{
    let url_caps = match regex_captures(PORTFORWARD_PATTERN, url) {
        Some(c) => c,
        None => return Err(ForwardError::PatternInvalid),
    };
    let referer_caps = match referer {
        Some(h) => match regex_captures(PORTFORWARD_PATTERN, h) {
            Some(c) => Some(c),
            None => return Err(ForwardError::PatternInvalid),
        },
        None => None,
    };
    plan_from_captures(url, &url_caps, &referer_caps, is_get)
}

/// Law: an address that matches the forwarding pattern with a port and a
/// path is forwarded to `localhost:<port><path>`, with the host
/// `localhost:<port>` and a referer made of the page's base (the referer's
/// part before its prefix, `http://localhost` without a referer), the port
/// and the path, whatever the method; a redirection is only ever the answer
/// to a `GET` of an address that does not match, and it points under the
/// forwarding prefix, at the port of the referer.
pub proof fn lemma_matched_address_is_forwarded(
    url: Seq<char>,
    url_caps: Option<Seq<Option<Seq<char>>>>,
    referer_caps: Option<Option<Seq<Option<Seq<char>>>>>,
    is_get: bool,
)
    ensures
        plan_spec(url, url_caps, referer_caps, true) == plan_spec(url, url_caps, referer_caps, false)
            || url_caps is None,
        (url_caps matches Some(c) && group(c, 2) is Some && group(c, 3) is Some
            && plan_spec(url, url_caps, referer_caps, is_get) is Ok) ==> {
            let c = url_caps->0;
            let port = group(c, 2)->0;
            let path = group(c, 3)->0;
            let base = match referer_caps {
                Some(Some(rc)) => group(rc, 1)->0,
                _ => "http://localhost"@,
            };
            plan_spec(url, url_caps, referer_caps, is_get)->Ok_0 == (ForwardPlanView::Forward {
                port,
                host: "localhost:"@ + port,
                referer: base + ":"@ + port + path,
                uri: "http://localhost:"@ + port + path,
            })
        },
        plan_spec(url, url_caps, referer_caps, is_get) matches Ok(ForwardPlanView::Redirect { location }) ==> {
            &&& url_caps is None
            &&& is_get
            &&& referer_caps matches Some(Some(rc))
            &&& group(rc, 2) is Some
            &&& location == "/portforward/"@ + group(rc, 2)->0 + url
        },
{
}

} // verus!
