//! Classification of failed probes into a closed set of causes.
use vstd::prelude::*;

verus! {

/// Cause of a failed probe.
#[derive(Clone, Copy, Debug, PartialEq, Eq, Structural)]
pub enum ErrorCategory {
    /// The monitoring host's network could not carry the request.
    NetworkConnection,
    /// The host name could not be resolved.
    DnsResolution,
    /// The request did not complete in time.
    Timeout,
    /// The TLS handshake or certificate was rejected.
    SslCertificate,
    /// The remote host refused the connection.
    ConnectionRefused,
    /// The server answered with a 5xx status.
    ServerError,
    /// The server answered with a 4xx status.
    ClientError,
    /// The redirect limit was exceeded.
    TooManyRedirects,
    /// The request could not be built or was cancelled.
    RequestCanceled,
    /// No other category applies.
    Unknown,
}

/// Whether a category points at the monitoring host rather than the remote side.
pub open spec fn local_issue(c: ErrorCategory) -> bool {
    match c {
        ErrorCategory::NetworkConnection => true,
        ErrorCategory::DnsResolution => true,
        ErrorCategory::Timeout => true,
        ErrorCategory::RequestCanceled => true,
        _ => false,
    }
}

/// The name under which a category is stored.
pub open spec fn category_name(c: ErrorCategory) -> Seq<char> {
    match c {
        ErrorCategory::NetworkConnection => "NetworkConnection"@,
        ErrorCategory::DnsResolution => "DnsResolution"@,
        ErrorCategory::Timeout => "Timeout"@,
        ErrorCategory::SslCertificate => "SslCertificate"@,
        ErrorCategory::ConnectionRefused => "ConnectionRefused"@,
        ErrorCategory::ServerError => "ServerError"@,
        ErrorCategory::ClientError => "ClientError"@,
        ErrorCategory::TooManyRedirects => "TooManyRedirects"@,
        ErrorCategory::RequestCanceled => "RequestCanceled"@,
        ErrorCategory::Unknown => "Unknown"@,
    }
}

impl ErrorCategory {
    /// True for the categories caused by the monitoring host's own network.
    pub fn is_likely_local_issue(&self) -> (r: bool)
        ensures
            r == local_issue(*self),
    {
        match self {
            ErrorCategory::NetworkConnection => true,
            ErrorCategory::DnsResolution => true,
            ErrorCategory::Timeout => true,
            ErrorCategory::RequestCanceled => true,
            _ => false,
        }
    }

    /// The category's name, as stored in the health table.
    pub fn name(&self) -> (r: String)
        ensures
            r@ == category_name(*self),
    {
        let s = match self {
            ErrorCategory::NetworkConnection => "NetworkConnection",
            ErrorCategory::DnsResolution => "DnsResolution",
            ErrorCategory::Timeout => "Timeout",
            ErrorCategory::SslCertificate => "SslCertificate",
            ErrorCategory::ConnectionRefused => "ConnectionRefused",
            ErrorCategory::ServerError => "ServerError",
            ErrorCategory::ClientError => "ClientError",
            ErrorCategory::TooManyRedirects => "TooManyRedirects",
            ErrorCategory::RequestCanceled => "RequestCanceled",
            ErrorCategory::Unknown => "Unknown",
        };
        String::from_str(s)
    }
}

/// `needle` occurs in `hay` as a contiguous run.
pub open spec fn seq_contains(hay: Seq<char>, needle: Seq<char>) -> bool {
    exists|i: int|
        0 <= i && i + needle.len() <= hay.len() && #[trigger] hay.subrange(i, i + needle.len())
            == needle
}

/// Lower-case form of a text, as std's `str::to_lowercase` computes it.
pub uninterp spec fn lower_of(s: Seq<char>) -> Seq<char>;

/// Relies on `str::to_lowercase`: the result depends on the characters alone.
#[verifier::external_body]
fn lowercase(s: &str) -> (r: String)
    ensures
        r@ == lower_of(s@),
{
    s.to_lowercase()
}

/// The characters of a text, in order.
pub(crate) fn chars_of(s: &str) -> (r: Vec<char>)
    ensures
        r@ == s@,
{
    let mut r: Vec<char> = Vec::new();
    for c in it: s.chars()
        invariant
            it.seq() == s@,
            r@ == it.seq().take(it.index() as int),
    {
        r.push(c);
        assert(r@ =~= it.seq().take(it.index() + 1));
    }
    assert(r@ =~= s@);
    r
}

/// Whether `needle` occurs in `hay`.
pub fn text_contains(hay: &str, needle: &str) -> (r: bool)
    ensures
        r == seq_contains(hay@, needle@),
{
    let h = chars_of(hay);
    let nd = chars_of(needle);
    let n = nd.len();
    if n > h.len() {
        return false;
    }
    let mut i: usize = 0;
    while i <= h.len() - n
        invariant
            n == needle@.len(),
            h@ == hay@,
            nd@ == needle@,
            n <= h.len(),
            i <= h.len() - n + 1,
            forall|k: int| 0 <= k < i ==> #[trigger] hay@.subrange(k, k + n) != needle@,
        decreases h.len() - i,
    {
        let mut j: usize = 0;
        let mut same = true;
        while j < n
            invariant
                i + n <= h.len(),
                n == nd.len(),
                h@ == hay@,
                nd@ == needle@,
                j <= n,
                same == (forall|m: int| 0 <= m < j ==> h@[i + m] == nd@[m]),
            decreases n - j,
        {
            if h[i + j] != nd[j] {
                same = false;
            }
            j += 1;
        }
        if same {
            assert(hay@.subrange(i as int, i + n) =~= needle@);
            return true;
        }
        assert(hay@.subrange(i as int, i + n) != needle@) by {
            if hay@.subrange(i as int, i + n) == needle@ {
                assert forall|m: int| 0 <= m < n implies #[trigger] h@[i + m] == nd@[m] by {
                    assert(hay@.subrange(i as int, i + n)[m] == hay@[i + m]);
                }
            }
        }
        i += 1;
    }
    false
}

/// What a failed request reported about itself, as plain values.
#[derive(Clone, Debug)]
pub struct TransportFailure {
    /// The request ran out of time.
    pub timeout: bool,
    /// The connection could not be established.
    pub connect: bool,
    /// The redirect policy stopped the request.
    pub redirect: bool,
    /// The request could not be built or was cancelled.
    pub request: bool,
    /// Lower-case text of the underlying cause, when there is one.
    pub cause: Option<String>,
}

/// The lower-case cause text of a failure, if any.
pub open spec fn cause_text(f: TransportFailure) -> Option<Seq<char>> {
    match f.cause {
        Some(t) => Some(t@),
        None => None,
    }
}

/// Category of a failed connection attempt, from its cause text.
///
/// "network unreachable" and "no route to host" fall to the default,
/// `NetworkConnection`.
pub open spec fn connect_category(cause: Option<Seq<char>>) -> ErrorCategory {
    match cause {
        Some(t) => if seq_contains(t, "connection refused"@) {
            ErrorCategory::ConnectionRefused
        } else if seq_contains(t, "dns"@) || seq_contains(t, "resolve"@) {
            ErrorCategory::DnsResolution
        } else {
            ErrorCategory::NetworkConnection
        },
        None => ErrorCategory::NetworkConnection,
    }
}

/// Category of a transport-level failure from what it reported, checked in
/// a fixed order: timeout, connection, redirect, request, then the cause text.
pub open spec fn failure_category(
    timeout: bool,
    connect: bool,
    redirect: bool,
    request: bool,
    cause: Option<Seq<char>>,
) -> ErrorCategory {
    if timeout {
        ErrorCategory::Timeout
    } else if connect {
        connect_category(cause)
    } else if redirect {
        ErrorCategory::TooManyRedirects
    } else if request {
        ErrorCategory::RequestCanceled
    } else {
        match cause {
            Some(t) => if seq_contains(t, "ssl"@) || seq_contains(t, "tls"@) || seq_contains(
                t,
                "certificate"@,
            ) {
                ErrorCategory::SslCertificate
            } else {
                ErrorCategory::Unknown
            },
            None => ErrorCategory::Unknown,
        }
    }
}

/// Category of a transport-level failure.
pub open spec fn transport_category(f: TransportFailure) -> ErrorCategory {
    failure_category(f.timeout, f.connect, f.redirect, f.request, cause_text(f))
}

/// Category of an HTTP status, or `None` where the status is no failure.
pub open spec fn status_category(code: u16) -> Option<ErrorCategory> {
    if 500 <= code <= 599 {
        Some(ErrorCategory::ServerError)
    } else if 400 <= code <= 499 {
        Some(ErrorCategory::ClientError)
    } else {
        None
    }
}

impl TransportFailure {
    /// Builds a failure record; the cause text is stored in lower case.
    pub fn new(
        timeout: bool,
        connect: bool,
        redirect: bool,
        request: bool,
        cause: Option<&str>,
    ) -> (r: TransportFailure)
        ensures
            r.timeout == timeout,
            r.connect == connect,
            r.redirect == redirect,
            r.request == request,
            match cause {
                Some(c) => cause_text(r) == Some(lower_of(c@)),
                None => cause_text(r) is None,
            },
    {
        let lowered = match cause {
            Some(c) => Some(lowercase(c)),
            None => None,
        };
        TransportFailure { timeout, connect, redirect, request, cause: lowered }
    }
}

fn connect_cause_category(cause: &Option<String>) -> (r: ErrorCategory)
    ensures
        r == connect_category(
            match cause {
                Some(t) => Some(t@),
                None => None,
            },
        ),
{
    match cause {
        Some(t) => {
            if text_contains(t.as_str(), "connection refused") {
                ErrorCategory::ConnectionRefused
            } else if text_contains(t.as_str(), "dns") || text_contains(t.as_str(), "resolve") {
                ErrorCategory::DnsResolution
            } else if text_contains(t.as_str(), "network unreachable") || text_contains(
                t.as_str(),
                "no route to host",
            ) {
                ErrorCategory::NetworkConnection
            } else {
                ErrorCategory::NetworkConnection
            }
        },
        None => ErrorCategory::NetworkConnection,
    }
}

/// Classifies a transport-level failure. Total: falls back to `Unknown`.
pub fn classify_transport(f: &TransportFailure) -> (r: ErrorCategory)
    ensures
        r == transport_category(*f),
{
    if f.timeout {
        ErrorCategory::Timeout
    } else if f.connect {
        connect_cause_category(&f.cause)
    } else if f.redirect {
        ErrorCategory::TooManyRedirects
    } else if f.request {
        ErrorCategory::RequestCanceled
    } else {
        match &f.cause {
            Some(t) => {
                if text_contains(t.as_str(), "ssl") || text_contains(t.as_str(), "tls")
                    || text_contains(t.as_str(), "certificate") {
                    ErrorCategory::SslCertificate
                } else {
                    ErrorCategory::Unknown
                }
            },
            None => ErrorCategory::Unknown,
        }
    }
}

/// Classifies an HTTP status: 5xx and 4xx are failures, anything else is not.
pub fn classify_status(code: u16) -> (r: Option<ErrorCategory>)
    ensures
        r == status_category(code),
{
    if 500 <= code && code <= 599 {
        Some(ErrorCategory::ServerError)
    } else if 400 <= code && code <= 499 {
        Some(ErrorCategory::ClientError)
    } else {
        None
    }
}

#[verifier::external_type_specification]
#[verifier::external_body]
pub struct ExRequestError(reqwest::Error);

/// Whether a request error of the HTTP client is a timeout.
pub uninterp spec fn timeout_flag(e: reqwest::Error) -> bool;

/// Whether a request error of the HTTP client arose while connecting.
pub uninterp spec fn connect_flag(e: reqwest::Error) -> bool;

/// Whether a request error of the HTTP client came from the redirect policy.
pub uninterp spec fn redirect_flag(e: reqwest::Error) -> bool;

/// Whether a request error of the HTTP client is about the request itself.
pub uninterp spec fn request_flag(e: reqwest::Error) -> bool;

/// The text of a request error's underlying cause, if it has one.
pub uninterp spec fn cause_of(e: reqwest::Error) -> Option<Seq<char>>;

/// Relies on reqwest's `Error::is_timeout`, which reads the error alone.
pub assume_specification[ reqwest::Error::is_timeout ](e: &reqwest::Error) -> (r: bool)
    ensures
        r == timeout_flag(*e),
;

/// Relies on reqwest's `Error::is_connect`, which reads the error alone.
pub assume_specification[ reqwest::Error::is_connect ](e: &reqwest::Error) -> (r: bool)
    ensures
        r == connect_flag(*e),
;

/// Relies on reqwest's `Error::is_redirect`, which reads the error alone.
pub assume_specification[ reqwest::Error::is_redirect ](e: &reqwest::Error) -> (r: bool)
    ensures
        r == redirect_flag(*e),
;

/// Relies on reqwest's `Error::is_request`, which reads the error alone.
pub assume_specification[ reqwest::Error::is_request ](e: &reqwest::Error) -> (r: bool)
    ensures
        r == request_flag(*e),
;

/// Relies on std's `Error::source` and `ToString` on reqwest's error: the text
/// of the underlying cause, if the error has one.
#[verifier::external_body]
fn source_text(e: &reqwest::Error) -> (r: Option<String>)
    ensures
        match r {
            Some(t) => cause_of(*e) == Some(t@),
            None => cause_of(*e) is None,
        },
{
    std::error::Error::source(e).map(|s| s.to_string())
}

/// A cause text in lower case.
pub open spec fn lowered(cause: Option<Seq<char>>) -> Option<Seq<char>> {
    match cause {
        Some(t) => Some(lower_of(t)),
        None => None,
    }
}

impl ErrorCategory {
    /// Classifies a request error of the HTTP client.
    ///
    /// Such an error never carries an HTTP status category.
    pub fn from_request_error(e: &reqwest::Error) -> (r: ErrorCategory)
        ensures
            r == failure_category(
                timeout_flag(*e),
                connect_flag(*e),
                redirect_flag(*e),
                request_flag(*e),
                lowered(cause_of(*e)),
            ),
            r != ErrorCategory::ServerError,
            r != ErrorCategory::ClientError,
    {
        let cause = source_text(e);
        let failure = match &cause {
            Some(c) => TransportFailure::new(
                e.is_timeout(),
                e.is_connect(),
                e.is_redirect(),
                e.is_request(),
                Some(c.as_str()),
            ),
            None => TransportFailure::new(
                e.is_timeout(),
                e.is_connect(),
                e.is_redirect(),
                e.is_request(),
                None,
            ),
        };
        classify_transport(&failure)
    }
}

} // verus!
