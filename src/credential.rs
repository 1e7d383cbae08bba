//! Per-provider access tickets and the cache that keeps them until expiry.
use vstd::prelude::*;
use crate::json::{is_json, json_text, json_view, member, member_at, parse_json, text_at, text_member, JsonView};

verus! {

/// Seconds taken off a ticket's lifetime, so that a ticket is never used
/// right at its expiry.
pub const EXPIRY_MARGIN_SECS: i64 = 300;

/// The ticket part of a ticket endpoint's answer.
#[derive(Clone, Debug)]
pub struct Ticket {
    /// Lifetime of the token, in seconds.
    pub expires: i64,
    pub token: String,
}

/// One named service endpoint of a provider.
#[derive(Clone, Debug)]
pub struct Service {
    pub name: String,
    pub version: String,
    pub url: String,
}

/// A ticket endpoint's answer.
#[derive(Clone, Debug)]
pub struct AuthResponse {
    pub ticket: Ticket,
    pub service_list: Vec<Service>,
}

/// Why an answer could not be read.
#[derive(Clone, Copy, Debug, PartialEq, Eq, Structural)]
pub enum ParseError {
    /// The text is not one JSON document.
    NotJson,
    /// The document lacks a member that is required, or has it of another kind.
    Shape,
}

/// A service name with its URL, as kept in a credential.
#[derive(Debug)]
pub struct ServiceInfo {
    pub name: String,
    pub url: String,
}

/// A cached credential: token, protocol version, service directory and the
/// second (Unix time) at which it stops being used.
#[derive(Debug)]
pub struct TokenInfo {
    pub token: String,
    pub version: String,
    pub services: Vec<ServiceInfo>,
    pub expires_at: i64,
}

/// What a credential holds, as mathematical values.
pub struct TokenView {
    pub token: Seq<char>,
    pub version: Seq<char>,
    pub services: Seq<(Seq<char>, Seq<char>)>,
    pub expires_at: i64,
}

impl View for ServiceInfo {
    type V = (Seq<char>, Seq<char>);

    open spec fn view(&self) -> (Seq<char>, Seq<char>) {
        (self.name@, self.url@)
    }
}

impl View for TokenInfo {
    type V = TokenView;

    open spec fn view(&self) -> TokenView {
        TokenView {
            token: self.token@,
            version: self.version@,
            services: self.services@.map_values(|s: ServiceInfo| s@),
            expires_at: self.expires_at,
        }
    }
}

impl Clone for ServiceInfo {
    fn clone(&self) -> (r: Self)
        ensures
            r == *self,
    {
        ServiceInfo { name: self.name.clone(), url: self.url.clone() }
    }
}

impl Clone for TokenInfo {
    fn clone(&self) -> (r: Self)
        ensures
            r@ == self@,
    {
        let mut services: Vec<ServiceInfo> = Vec::new();
        let mut i: usize = 0;
        while i < self.services.len()
            invariant
                i <= self.services.len(),
                services@.len() == i,
                forall|k: int| 0 <= k < i ==> #[trigger] services@[k] == self.services@[k],
            decreases self.services.len() - i,
        {
            services.push(self.services[i].clone());
            i += 1;
        }
        assert(services@ =~= self.services@);
        TokenInfo {
            token: self.token.clone(),
            version: self.version.clone(),
            services,
            expires_at: self.expires_at,
        }
    }
}

/// The second at which a ticket issued at `now` with lifetime `ttl` stops
/// being used: `now + ttl - margin`, held within `i64`.
pub open spec fn expiry_at(now: i64, ttl: i64) -> i64 {
    let e = now + ttl - EXPIRY_MARGIN_SECS;
    if e > i64::MAX {
        i64::MAX
    } else if e < i64::MIN {
        i64::MIN
    } else {
        e as i64
    }
}

/// The protocol version of an answer: that of its first service, else "1.0".
pub open spec fn version_of(services: Seq<Service>) -> Seq<char> {
    if services.len() > 0 {
        services[0].version@
    } else {
        "1.0"@
    }
}

/// The credential that an answer received at `now` gives.
pub open spec fn token_of(resp: AuthResponse, now: i64) -> TokenView {
    TokenView {
        token: resp.ticket.token@,
        version: version_of(resp.service_list@),
        services: resp.service_list@.map_values(|s: Service| (s.name@, s.url@)),
        expires_at: expiry_at(now, resp.ticket.expires),
    }
}

fn expiry_from(now: i64, ttl: i64) -> (r: i64)
    ensures
        r == expiry_at(now, ttl),
{
    let e: i128 = now as i128 + ttl as i128 - EXPIRY_MARGIN_SECS as i128;
    if e > i64::MAX as i128 {
        i64::MAX
    } else if e < i64::MIN as i128 {
        i64::MIN
    } else {
        e as i64
    }
}

impl TokenInfo {
    /// The credential that a ticket answer received at second `now` gives.
    pub fn from_auth(resp: &AuthResponse, now: i64) -> (r: TokenInfo)
        ensures
            r@ == token_of(*resp, now),
    {
        let version = if resp.service_list.len() > 0 {
            resp.service_list[0].version.clone()
        } else {
            String::from_str("1.0")
        };
        let mut services: Vec<ServiceInfo> = Vec::new();
        let mut i: usize = 0;
        while i < resp.service_list.len()
            invariant
                i <= resp.service_list.len(),
                services@.len() == i,
                forall|k: int|
                    0 <= k < i ==> #[trigger] services@[k]@ == (
                        resp.service_list@[k].name@,
                        resp.service_list@[k].url@,
                    ),
            decreases resp.service_list.len() - i,
        {
            let s = &resp.service_list[i];
            services.push(ServiceInfo { name: s.name.clone(), url: s.url.clone() });
            i += 1;
        }
        let r = TokenInfo {
            token: resp.ticket.token.clone(),
            version,
            services,
            expires_at: expiry_from(now, resp.ticket.expires),
        };
        assert(r@.services =~= token_of(*resp, now).services);
        r
    }

    /// The URL of the first service called `name`.
    pub fn service_url(&self, name: &str) -> (r: Option<String>)
        ensures
            match r {
                Some(u) => exists|k: int|
                    0 <= k < self.services.len() && self.services@[k].name@ == name@
                        && u@ == self.services@[k].url@ && (forall|j: int|
                        0 <= j < k ==> self.services@[j].name@ != name@),
                None => forall|k: int|
                    0 <= k < self.services.len() ==> self.services@[k].name@ != name@,
            },
    {
        let wanted = String::from_str(name);
        let mut i: usize = 0;
        while i < self.services.len()
            invariant
                i <= self.services.len(),
                wanted@ == name@,
                forall|j: int| 0 <= j < i ==> self.services@[j].name@ != name@,
            decreases self.services.len() - i,
        {
            if self.services[i].name == wanted {
                return Some(self.services[i].url.clone());
            }
            i += 1;
        }
        None
    }
}

/// Member `key` of `j` as an integer within `i64`.
pub open spec fn int_at(j: JsonView, key: Seq<char>) -> Option<i64> {
    match member_at(j, key) {
        Some(JsonView::Number(n)) => n,
        _ => None,
    }
}

/// A service entry with string `name`, `version` and `url`.
pub open spec fn service_valid(j: JsonView) -> bool {
    &&& text_at(j, "name"@) is Some
    &&& text_at(j, "version"@) is Some
    &&& text_at(j, "url"@) is Some
}

/// A ticket answer: a `ticket` with a string `token` and an integer
/// `expires`, and a `serviceList` array of valid service entries.
pub open spec fn auth_valid(j: JsonView) -> bool {
    &&& match member_at(j, "ticket"@) {
        Some(t) => text_at(t, "token"@) is Some && int_at(t, "expires"@) is Some,
        None => false,
    }
    &&& match member_at(j, "serviceList"@) {
        Some(JsonView::Array(items)) => forall|i: int|
            0 <= i < items.len() ==> service_valid(#[trigger] items[i]),
        _ => false,
    }
}

/// `s` holds exactly the fields of service entry `j`.
pub open spec fn service_matches(s: Service, j: JsonView) -> bool {
    &&& text_at(j, "name"@) == Some(s.name@)
    &&& text_at(j, "version"@) == Some(s.version@)
    &&& text_at(j, "url"@) == Some(s.url@)
}

/// `resp` holds exactly the values of the valid ticket answer `j`, services in order.
pub open spec fn auth_matches(resp: AuthResponse, j: JsonView) -> bool {
    let t = member_at(j, "ticket"@)->Some_0;
    let items = member_at(j, "serviceList"@)->Some_0->Array_0;
    &&& text_at(t, "token"@) == Some(resp.ticket.token@)
    &&& int_at(t, "expires"@) == Some(resp.ticket.expires)
    &&& resp.service_list@.len() == items.len()
    &&& forall|i: int|
        0 <= i < items.len() ==> service_matches(#[trigger] resp.service_list@[i], items[i])
}

/// Why a ticket could not be had.
#[derive(Clone, Debug)]
pub enum AuthError {
    /// The ticket endpoint answered with a status outside 2xx; the body is kept.
    Status(u16, String),
    /// The answer is no ticket answer.
    Parse(ParseError),
}

impl AuthResponse {
    /// Reads a ticket endpoint's answer:
    /// `{ ticket: { token, expires }, serviceList: [ { name, version, url }, ... ] }`.
    pub fn from_json(text: &str) -> (r: Result<AuthResponse, ParseError>)
        ensures
            r == Err::<AuthResponse, ParseError>(ParseError::NotJson) <==> !is_json(text@),
            r is Ok <==> is_json(text@) && auth_valid(json_text(text@)),
            r is Ok ==> auth_matches(r->Ok_0, json_text(text@)),
    {
        let v = match parse_json(text) {
            Ok(v) => v,
            Err(_) => return Err(ParseError::NotJson),
        };
        let ghost j = json_text(text@);
        let ticket = match member(&v, "ticket") {
            Some(t) => t,
            None => return Err(ParseError::Shape),
        };
        let token = match text_member(ticket, "token") {
            Some(t) => t,
            None => return Err(ParseError::Shape),
        };
        let expires = match member(ticket, "expires") {
            Some(e) => match e.as_i64() {
                Some(n) => n,
                None => return Err(ParseError::Shape),
            },
            None => return Err(ParseError::Shape),
        };
        let list = match member(&v, "serviceList") {
            Some(l) => match l.as_array() {
                Some(a) => a,
                None => return Err(ParseError::Shape),
            },
            None => return Err(ParseError::Shape),
        };
        let ghost items = member_at(j, "serviceList"@)->Some_0->Array_0;
        let mut service_list: Vec<Service> = Vec::new();
        let mut i: usize = 0;
        while i < list.len()
            invariant
                i <= list.len(),
                is_json(text@),
                j == json_text(text@),
                member_at(j, "serviceList"@) is Some,
                member_at(j, "serviceList"@)->Some_0 is Array,
                items == member_at(j, "serviceList"@)->Some_0->Array_0,
                list@.len() == items.len(),
                forall|k: int| 0 <= k < list@.len() ==> json_view(#[trigger] list@[k]) == items[k],
                service_list@.len() == i,
                forall|k: int| 0 <= k < i ==> service_valid(#[trigger] items[k]),
                forall|k: int|
                    0 <= k < i ==> service_matches(#[trigger] service_list@[k], items[k]),
            decreases list.len() - i,
        {
            let item = &list[i];
            let name = text_member(item, "name");
            let version = text_member(item, "version");
            let url = text_member(item, "url");
            match (name, version, url) {
                (Some(name), Some(version), Some(url)) => {
                    service_list.push(Service { name, version, url });
                },
                _ => {
                    assert(!service_valid(items[i as int]));
                    return Err(ParseError::Shape);
                },
            }
            i += 1;
        }
        let r = AuthResponse { ticket: Ticket { expires, token }, service_list };
        assert(auth_matches(r, j));
        Ok(r)
    }

    /// Reads a ticket endpoint's response with HTTP status `status`: a
    /// status outside 2xx fails with the body kept.
    pub fn from_response(status: u16, body: &str) -> (r: Result<AuthResponse, AuthError>)
        ensures
            !(200 <= status <= 299) ==> (match r {
                Err(AuthError::Status(s, b)) => s == status && b@ == body@,
                _ => false,
            }),
            (200 <= status <= 299) ==> (match r {
                Ok(resp) => is_json(body@) && auth_valid(json_text(body@)) && auth_matches(
                    resp,
                    json_text(body@),
                ),
                Err(AuthError::Parse(e)) => !(is_json(body@) && auth_valid(json_text(body@))) && (e
                    == ParseError::NotJson <==> !is_json(body@)),
                _ => false,
            }),
    {
        if !(200 <= status && status <= 299) {
            return Err(AuthError::Status(status, String::from_str(body)));
        }
        match AuthResponse::from_json(body) {
            Ok(resp) => Ok(resp),
            Err(e) => Err(AuthError::Parse(e)),
        }
    }
}

#[verifier::external_type_specification]
#[verifier::external_body]
#[verifier::reject_recursive_types(K)]
#[verifier::reject_recursive_types(V)]
#[verifier::reject_recursive_types(S)]
pub struct ExDashMap<K, V, S>(dashmap::DashMap<K, V, S>);

/// The credentials that a concurrent map holds, by provider name.
pub uninterp spec fn cached_tokens(m: dashmap::DashMap<String, TokenInfo>) -> Map<
    Seq<char>,
    TokenView,
>;

/// Relies on `DashMap::new`: the map starts empty.
#[verifier::external_body]
fn empty_token_map() -> (r: dashmap::DashMap<String, TokenInfo>)
    ensures
        cached_tokens(r).dom() =~= Set::empty(),
{
    dashmap::DashMap::new()
}

/// Relies on `DashMap::get`: the entry under `name`, if there is one; it is
/// handed out as a copy.
#[verifier::external_body]
fn lookup_token(m: &dashmap::DashMap<String, TokenInfo>, name: &str) -> (r: Option<TokenInfo>)
    ensures
        r is Some <==> cached_tokens(*m).contains_key(name@),
        r is Some ==> r->0@ == cached_tokens(*m)[name@],
{
    m.get(name).map(|entry| entry.value().clone())
}

/// Relies on `DashMap::insert`: the entry under `name` is replaced, the others stay.
#[verifier::external_body]
fn store_token(m: &mut dashmap::DashMap<String, TokenInfo>, name: String, t: TokenInfo)
    ensures
        cached_tokens(*final(m)) == cached_tokens(*old(m)).insert(name@, t@),
{
    m.insert(name, t);
}

/// The cached credential for `name` that may still be used at second `now`.
pub open spec fn usable_token(m: Map<Seq<char>, TokenView>, name: Seq<char>, now: i64) -> Option<
    TokenView,
> {
    if m.contains_key(name) && m[name].expires_at > now {
        Some(m[name])
    } else {
        None
    }
}

/// Credentials by provider name, each kept until its expiry.
pub struct CredentialCache {
    tokens: dashmap::DashMap<String, TokenInfo>,
}

impl View for CredentialCache {
    type V = Map<Seq<char>, TokenView>;

    closed spec fn view(&self) -> Map<Seq<char>, TokenView> {
        cached_tokens(self.tokens)
    }
}

impl CredentialCache {
    /// An empty cache.
    pub fn new() -> (r: CredentialCache)
        ensures
            r@ == Map::<Seq<char>, TokenView>::empty(),
    {
        let r = CredentialCache { tokens: empty_token_map() };
        assert(r@ =~= Map::<Seq<char>, TokenView>::empty());
        r
    }

    /// The cached credential of a provider, if it has not expired at second
    /// `now`. `None` means that the ticket endpoint must be asked.
    pub fn valid_token(&self, name: &str, now: i64) -> (r: Option<TokenInfo>)
        ensures
            match r {
                Some(t) => usable_token(self@, name@, now) == Some(t@),
                None => usable_token(self@, name@, now) is None,
            },
    {
        match lookup_token(&self.tokens, name) {
            Some(t) => {
                if t.expires_at > now {
                    Some(t)
                } else {
                    None
                }
            },
            None => None,
        }
    }

    /// Stores the credential that a ticket answer received at second `now`
    /// gives, in place of the provider's earlier one, and returns it.
    pub fn refresh(&mut self, name: &str, resp: &AuthResponse, now: i64) -> (r: TokenInfo)
        ensures
            r@ == token_of(*resp, now),
            final(self)@ == old(self)@.insert(name@, r@),
    {
        let t = TokenInfo::from_auth(resp, now);
        store_token(&mut self.tokens, String::from_str(name), t.clone());
        t
    }

    /// Handles the ticket endpoint's response for `name`, received at second
    /// `now` with HTTP status `status`: a 2xx ticket answer replaces the
    /// provider's credential, which is returned; any other response fails and
    /// leaves the cache as it was.
    pub fn refresh_from_response(&mut self, name: &str, status: u16, body: &str, now: i64) -> (r:
        Result<TokenInfo, AuthError>)
        ensures
            !(200 <= status <= 299) ==> (match r {
                Err(AuthError::Status(s, b)) => s == status && b@ == body@,
                _ => false,
            }),
            (200 <= status <= 299) ==> (r is Ok <==> is_json(body@) && auth_valid(json_text(body@))),
            (200 <= status <= 299 && !is_json(body@)) ==> (match r {
                Err(AuthError::Parse(e)) => e == ParseError::NotJson,
                _ => false,
            }),
            r is Err ==> final(self)@ == old(self)@,
            r is Ok ==> exists|resp: AuthResponse|
                auth_matches(resp, json_text(body@)) && #[trigger] token_of(resp, now) == r->Ok_0@
                    && final(self)@ == old(self)@.insert(name@, r->Ok_0@),
    {
        match AuthResponse::from_response(status, body) {
            Ok(resp) => {
                let t = self.refresh(name, &resp, now);
                Ok(t)
            },
            Err(e) => Err(e),
        }
    }
}

/// Within a credential's lifetime every lookup returns that same credential,
/// so no second ticket request is made; once it has expired a lookup finds
/// nothing, and after one refresh whose ticket outlives the margin the next
/// lookup at the same second finds the fresh credential.
pub proof fn lemma_cache_reuse_and_expiry(
    m: Map<Seq<char>, TokenView>,
    name: Seq<char>,
    resp: AuthResponse,
    issued: i64,
    t1: i64,
    t2: i64,
    later: i64,
)
    requires
        resp.ticket.expires > EXPIRY_MARGIN_SECS,
        issued <= t1 <= t2,
        t2 < token_of(resp, issued).expires_at,
        later >= token_of(resp, issued).expires_at,
        later + resp.ticket.expires - EXPIRY_MARGIN_SECS <= i64::MAX,
    ensures
        usable_token(m.insert(name, token_of(resp, issued)), name, issued) == Some(
            token_of(resp, issued),
        ),
        usable_token(m.insert(name, token_of(resp, issued)), name, t1) == Some(
            token_of(resp, issued),
        ),
        usable_token(m.insert(name, token_of(resp, issued)), name, t2) == usable_token(
            m.insert(name, token_of(resp, issued)),
            name,
            t1,
        ),
        usable_token(m.insert(name, token_of(resp, issued)), name, later) is None,
        usable_token(
            m.insert(name, token_of(resp, issued)).insert(name, token_of(resp, later)),
            name,
            later,
        ) == Some(token_of(resp, later)),
{
}

} // verus!
