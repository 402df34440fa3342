//! The OAuth2 device-code flow against Microsoft's identity platform: the
//! addresses it talks to, and what each answer means.
use vstd::prelude::*;
use crate::outreach::time::{now, Timestamp};
use crate::text::{owned, push_str};

verus! {

broadcast use vstd::string::group_string_axioms;

/// The permissions requested.
pub fn scopes() -> (r: &'static str)
    ensures
        r@ == "offline_access Mail.Read Mail.ReadWrite Mail.Send User.Read"@,
{
    "offline_access Mail.Read Mail.ReadWrite Mail.Send User.Read"
}

/// Persisted token stored on disk at ~/.config/outreach/token.json
#[derive(Debug, Clone)]
pub struct TokenCache {
    pub access_token: String,
    pub refresh_token: String,
    pub expires_at: Timestamp,
}

/// Whether a token expiring at `expires_at` counts as expired at `now`:
/// it does from one minute before it expires.
pub open spec fn expired_at(expires_at: Timestamp, now: Timestamp) -> bool {
    !now.before(Timestamp { secs: (expires_at.secs - 60) as i64, ..expires_at })
}

/// Once a token counts as expired it stays expired at every later instant.
pub proof fn lemma_expiry_monotone(expires_at: Timestamp, t1: Timestamp, t2: Timestamp)
    requires
        expired_at(expires_at, t1),
        !t2.before(t1),
    ensures
        expired_at(expires_at, t2),
{
}

impl TokenCache {
    /// Whether the token counts as expired at `now`.
    pub fn is_expired_at(&self, now: Timestamp) -> (r: bool)
        requires
            self.expires_at.wf(),
            self.expires_at.can_add(-60),
        ensures
            r == expired_at(self.expires_at, now),
    {
        let limit = self.expires_at.plus_seconds(-60);
        now.at_or_after(&limit)
    }

    /// Whether the token counts as expired now: the answer `is_expired_at`
    /// gives for the instant the clock reads, which is never before the
    /// epoch (so a token that expires within the epoch's first minute always
    /// counts as expired). A clock that cannot be read as an instant (set
    /// before the epoch or past the last representable second) makes the
    /// token count as expired, so that it is refreshed. Which instant the
    /// clock reads is not stated.
    pub fn is_expired(&self) -> (r: bool)
        requires
            self.expires_at.wf(),
            self.expires_at.can_add(-60),
        ensures
            exists|t: Timestamp| t.wf() && t.secs >= 0 && r == expired_at(self.expires_at, t),
            self.expires_at.secs < 60 ==> r,
    {
        match now() {
            Some(t) => self.is_expired_at(t),
            None => {
                let ghost last = Timestamp { secs: 8210266876799, nanos: 0 };
                assert(last.wf() && expired_at(self.expires_at, last));
                true
            },
        }
    }
}

/// Response from the device code endpoint
pub struct DeviceCodeResponse {
    pub device_code: String,
    pub user_code: String,
    pub verification_uri: String,
    pub expires_in: u64,
    pub interval: u64,
    pub message: String,
}

/// Response from the token endpoint
pub struct TokenResponse {
    pub access_token: Option<String>,
    pub refresh_token: Option<String>,
    pub expires_in: Option<u64>,
    pub error: Option<String>,
    pub error_description: Option<String>,
}

/// The lifetime a token answer gives, in seconds (an hour when it gives
/// none), as the signed count `chrono` adds.
pub open spec fn lifetime(resp: TokenResponse) -> int {
    match resp.expires_in {
        Some(n) => (n as i64) as int,
        None => 3600,
    }
}

/// What one poll of the token endpoint leads to.
pub enum PollStep {
    /// Signed in.
    Done(TokenCache),
    /// The user has not finished yet; poll again.
    Pending,
    /// Asked to slow down: wait five seconds more, then poll again.
    SlowDown,
    /// The flow failed with this message.
    Failed(String),
}

/// The view of an optional string.
pub open spec fn opt_text(o: Option<String>) -> Option<Seq<char>> {
    match o {
        Some(s) => Some(s@),
        None => None,
    }
}

/// The error named in a token answer, if any.
pub open spec fn error_of(resp: TokenResponse) -> Option<Seq<char>> {
    opt_text(resp.error)
}

/// Whether adding the answer's lifetime to `now` stays representable,
/// wherever the flow adds it.
pub open spec fn poll_in_range(resp: TokenResponse, now: Timestamp) -> bool {
    (resp.error is None && resp.access_token is Some && resp.refresh_token is Some) ==> now.can_add(
        lifetime(resp),
    )
}

/// What an answer of the token endpoint means while polling (`now` is when
/// it arrived): without an error it must carry both tokens, and the token
/// then expires `lifetime` seconds after `now`; `authorization_pending`
/// and `slow_down` keep the flow going; any other error ends it.
pub open spec fn poll_step_ok(resp: TokenResponse, now: Timestamp, step: PollStep) -> bool {
    match error_of(resp) {
        None => match (resp.access_token, resp.refresh_token) {
            (Some(a), Some(r)) => step matches PollStep::Done(c) && c.access_token@ == a@
                && c.refresh_token@ == r@ && c.expires_at.secs == now.secs + lifetime(resp)
                && c.expires_at.nanos == now.nanos && c.expires_at.wf(),
            (None, _) => step matches PollStep::Failed(m) && m@ == "No access token"@,
            (Some(_), None) => step matches PollStep::Failed(m) && m@ == "No refresh token"@,
        },
        Some(e) => if e == "authorization_pending"@ {
            step is Pending
        } else if e == "slow_down"@ {
            step is SlowDown
        } else {
            step matches PollStep::Failed(m) && m@ == "Auth error: "@ + e + " — "@ + match opt_text(
                resp.error_description,
            ) {
                Some(d) => d,
                None => Seq::empty(),
            }
        },
    }
}

/// The message when the device code runs out.
pub fn expired_code_message() -> (r: String)
    ensures
        r@ == "Device code expired. Please try logging in again."@,
{
    owned("Device code expired. Please try logging in again.")
}

/// Interprets one answer of the token endpoint while polling.
pub fn poll_step(resp: TokenResponse, now: Timestamp) -> (r: PollStep)
    requires
        now.wf(),
        poll_in_range(resp, now),
    ensures
        poll_step_ok(resp, now, r),
{
    let ghost old_resp = resp;
    match resp.error {
        None => {
            let access = match resp.access_token {
                Some(a) => a,
                None => return PollStep::Failed(owned("No access token")),
            };
            let refresh = match resp.refresh_token {
                Some(r) => r,
                None => return PollStep::Failed(owned("No refresh token")),
            };
            let secs: i64 = match resp.expires_in {
                Some(n) => n as i64,
                None => 3600,
            };
            PollStep::Done(
                TokenCache {
                    access_token: access,
                    refresh_token: refresh,
                    expires_at: now.plus_seconds(secs),
                },
            )
        },
        Some(err) => {
            let e = crate::text::chars_of(err.as_str());
            if crate::text::str_is(e.as_slice(), "authorization_pending") {
                PollStep::Pending
            } else if crate::text::str_is(e.as_slice(), "slow_down") {
                PollStep::SlowDown
            } else {
                let mut m = owned("Auth error: ");
                push_str(&mut m, err.as_str());
                push_str(&mut m, " — ");
                match &resp.error_description {
                    Some(d) => push_str(&mut m, d.as_str()),
                    None => {},
                }
                assert(m@ =~= "Auth error: "@ + err@ + " — "@ + match opt_text(
                    old_resp.error_description,
                ) {
                    Some(d) => d,
                    None => Seq::<char>::empty(),
                });
                PollStep::Failed(m)
            }
        },
    }
}

/// Whether the refreshed token's lifetime can be added to `now`.
pub open spec fn refresh_in_range(resp: TokenResponse, now: Timestamp) -> bool {
    (resp.error is None && resp.access_token is Some) ==> now.can_add(lifetime(resp))
}

/// What a refresh answer means: an error fails the refresh; otherwise the
/// new access token, the new refresh token (or the old one when none came)
/// and an expiry `lifetime` seconds after `now`.
pub open spec fn refresh_ok(
    resp: TokenResponse,
    cache: TokenCache,
    now: Timestamp,
    r: Result<TokenCache, String>,
) -> bool {
    match error_of(resp) {
        Some(e) => r matches Err(m) && m@ == "Token refresh failed: "@ + e,
        None => match resp.access_token {
            None => r matches Err(m) && m@ == "No access token"@,
            Some(a) => r matches Ok(c) && c.access_token@ == a@ && c.refresh_token@ == match opt_text(
                resp.refresh_token,
            ) {
                Some(t) => t,
                None => cache.refresh_token@,
            } && c.expires_at.secs == now.secs + lifetime(resp) && c.expires_at.nanos == now.nanos
                && c.expires_at.wf(),
        },
    }
}

/// Interprets the answer to a refresh of `cache`.
pub fn refresh_outcome(resp: TokenResponse, cache: &TokenCache, now: Timestamp) -> (r: Result<
    TokenCache,
    String,
>)
    requires
        now.wf(),
        refresh_in_range(resp, now),
    ensures
        refresh_ok(resp, *cache, now, r),
{
    if let Some(err) = resp.error {
        let mut m = owned("Token refresh failed: ");
        push_str(&mut m, err.as_str());
        return Err(m);
    }
    let access = match resp.access_token {
        Some(a) => a,
        None => return Err(owned("No access token")),
    };
    let refresh = match resp.refresh_token {
        Some(r) => r,
        None => cache.refresh_token.clone(),
    };
    let secs: i64 = match resp.expires_in {
        Some(n) => n as i64,
        None => 3600,
    };
    Ok(TokenCache { access_token: access, refresh_token: refresh, expires_at: now.plus_seconds(secs) })
}

/// Whether a device code issued at `now` with `expires_in` seconds to live
/// has a representable deadline.
pub open spec fn deadline_in_range(now: Timestamp, expires_in: u64) -> bool {
    now.can_add((expires_in as i64) as int)
}

/// The instant a device code stops working.
pub fn device_deadline(now: Timestamp, expires_in: u64) -> (r: Timestamp)
    requires
        now.wf(),
        deadline_in_range(now, expires_in),
    ensures
        r.wf(),
        r.secs == now.secs + (expires_in as i64),
        r.nanos == now.nanos,
{
    now.plus_seconds(expires_in as i64)
}

pub struct AuthClient {
    pub client_id: String,
    pub tenant_id: String,
}

/// `https://login.microsoftonline.com/<tenant>/oauth2/v2.0/<endpoint>`.
pub open spec fn login_url(tenant: Seq<char>, endpoint: Seq<char>) -> Seq<char> {
    "https://login.microsoftonline.com/"@ + tenant + "/oauth2/v2.0/"@ + endpoint
}

impl AuthClient {
    pub fn new(client_id: String, tenant_id: String) -> (r: Self)
        ensures
            r.client_id == client_id,
            r.tenant_id == tenant_id,
    {
        AuthClient { client_id, tenant_id }
    }

    pub fn token_url(&self) -> (r: String)
        ensures
            r@ == login_url(self.tenant_id@, "token"@),
    {
        let mut s = owned("https://login.microsoftonline.com/");
        push_str(&mut s, self.tenant_id.as_str());
        push_str(&mut s, "/oauth2/v2.0/token");
        assert(s@ =~= login_url(self.tenant_id@, "token"@)) by {
            reveal_strlit("/oauth2/v2.0/token");
            reveal_strlit("/oauth2/v2.0/");
            reveal_strlit("token");
        }
        s
    }

    pub fn device_code_url(&self) -> (r: String)
        ensures
            r@ == login_url(self.tenant_id@, "devicecode"@),
    {
        let mut s = owned("https://login.microsoftonline.com/");
        push_str(&mut s, self.tenant_id.as_str());
        push_str(&mut s, "/oauth2/v2.0/devicecode");
        assert(s@ =~= login_url(self.tenant_id@, "devicecode"@)) by {
            reveal_strlit("/oauth2/v2.0/devicecode");
            reveal_strlit("/oauth2/v2.0/");
            reveal_strlit("devicecode");
        }
        s
    }
}

/// The views of a list of form fields.
pub open spec fn form_views(v: Seq<(String, String)>) -> Seq<(Seq<char>, Seq<char>)> {
    v.map_values(|p: (String, String)| (p.0@, p.1@))
}

/// The fields that start the device-code flow.
pub open spec fn device_code_form_spec(client_id: Seq<char>) -> Seq<(Seq<char>, Seq<char>)> {
    seq![
        ("client_id"@, client_id),
        ("scope"@, "offline_access Mail.Read Mail.ReadWrite Mail.Send User.Read"@),
    ]
}

/// The fields of one poll for the token.
pub open spec fn poll_form_spec(client_id: Seq<char>, device_code: Seq<char>) -> Seq<
    (Seq<char>, Seq<char>),
> {
    seq![
        ("client_id"@, client_id),
        ("grant_type"@, "urn:ietf:params:oauth:grant-type:device_code"@),
        ("device_code"@, device_code),
    ]
}

/// The fields that trade a refresh token for a new token.
pub open spec fn refresh_form_spec(client_id: Seq<char>, refresh_token: Seq<char>) -> Seq<
    (Seq<char>, Seq<char>),
> {
    seq![
        ("client_id"@, client_id),
        ("grant_type"@, "refresh_token"@),
        ("refresh_token"@, refresh_token),
        ("scope"@, "offline_access Mail.Read Mail.ReadWrite Mail.Send User.Read"@),
    ]
}

fn field(k: &str, v: &str) -> (r: (String, String))
    ensures
        r.0@ == k@,
        r.1@ == v@,
{
    (owned(k), owned(v))
}

impl AuthClient {
    pub fn device_code_form(&self) -> (r: Vec<(String, String)>)
        ensures
            form_views(r@) == device_code_form_spec(self.client_id@),
    {
        let mut v: Vec<(String, String)> = Vec::new();
        v.push(field("client_id", self.client_id.as_str()));
        v.push(field("scope", scopes()));
        assert(form_views(v@) =~= device_code_form_spec(self.client_id@));
        v
    }

    pub fn poll_form(&self, device_code: &str) -> (r: Vec<(String, String)>)
        ensures
            form_views(r@) == poll_form_spec(self.client_id@, device_code@),
    {
        let mut v: Vec<(String, String)> = Vec::new();
        v.push(field("client_id", self.client_id.as_str()));
        v.push(field("grant_type", "urn:ietf:params:oauth:grant-type:device_code"));
        v.push(field("device_code", device_code));
        assert(form_views(v@) =~= poll_form_spec(self.client_id@, device_code@));
        v
    }

    pub fn refresh_form(&self, cache: &TokenCache) -> (r: Vec<(String, String)>)
        ensures
            form_views(r@) == refresh_form_spec(self.client_id@, cache.refresh_token@),
    {
        let mut v: Vec<(String, String)> = Vec::new();
        v.push(field("client_id", self.client_id.as_str()));
        v.push(field("grant_type", "refresh_token"));
        v.push(field("refresh_token", cache.refresh_token.as_str()));
        v.push(field("scope", scopes()));
        assert(form_views(v@) =~= refresh_form_spec(self.client_id@, cache.refresh_token@));
        v
    }
}

/// What to do for a token: use the cached one, refresh it, or log in.
#[derive(Clone, Copy, Debug, PartialEq, Eq, Structural)]
pub enum TokenPlan {
    UseCached,
    Refresh,
    Login,
}

/// A cached token is used while it is fresh and refreshed once it counts
/// as expired; without one the user logs in.
pub fn token_plan(cached: Option<&TokenCache>, now: Timestamp) -> (r: TokenPlan)
    requires
        cached matches Some(c) ==> c.expires_at.wf() && c.expires_at.can_add(-60),
    ensures
        r == match cached {
            Some(c) => if expired_at(c.expires_at, now) {
                TokenPlan::Refresh
            } else {
                TokenPlan::UseCached
            },
            None => TokenPlan::Login,
        },
{
    match cached {
        Some(c) => if c.is_expired_at(now) {
            TokenPlan::Refresh
        } else {
            TokenPlan::UseCached
        },
        None => TokenPlan::Login,
    }
}

} // verus!
