use termsuite::json::Json;
use termsuite::outreach::api::{
    to_email, Email, EmailAddress, GraphBody, GraphClient, GraphEmailAddress, GraphMessage,
    GraphRecipient, GraphStatus,
};
use termsuite::outreach::auth::{
    expired_code_message, poll_step, refresh_outcome, scopes, token_plan, AuthClient, PollStep,
    TokenCache, TokenPlan, TokenResponse,
};
use termsuite::outreach::config::{app_dir_in, AuthConfig, Config};
use termsuite::outreach::db::email_row;
use termsuite::outreach::time::{instant_since_epoch, now, Timestamp};

fn at(secs: i64) -> Timestamp {
    Timestamp { secs, nanos: 0 }
}

fn answer(
    access: Option<&str>,
    refresh: Option<&str>,
    expires_in: Option<u64>,
    error: Option<&str>,
    description: Option<&str>,
) -> TokenResponse {
    TokenResponse {
        access_token: access.map(String::from),
        refresh_token: refresh.map(String::from),
        expires_in,
        error: error.map(String::from),
        error_description: description.map(String::from),
    }
}

#[test]
fn default_configuration_needs_a_client_id() {
    let c = Config::default();
    assert_eq!(c.auth.client_id, "YOUR_CLIENT_ID");
    assert_eq!(c.auth.tenant_id, "common");
    assert!(c.auth.needs_client_id());
    let mine = AuthConfig { client_id: "abc".to_string(), tenant_id: "common".to_string() };
    assert!(!mine.needs_client_id());
    assert_eq!(app_dir_in("/home/me/.config"), "/home/me/.config/outreach");
    assert_eq!(Config::load(None).unwrap().auth.client_id, "YOUR_CLIENT_ID");
    assert_eq!(Config::load(Some(Err("bad".to_string()))).err().unwrap(), "bad");
}

#[test]
fn login_addresses_and_forms() {
    let a = AuthClient::new("cid".to_string(), "common".to_string());
    assert_eq!(a.token_url(), "https://login.microsoftonline.com/common/oauth2/v2.0/token");
    assert_eq!(
        a.device_code_url(),
        "https://login.microsoftonline.com/common/oauth2/v2.0/devicecode"
    );
    assert_eq!(
        a.device_code_form(),
        vec![
            ("client_id".to_string(), "cid".to_string()),
            ("scope".to_string(), scopes().to_string()),
        ]
    );
    assert_eq!(scopes(), "offline_access Mail.Read Mail.ReadWrite Mail.Send User.Read");
    let poll = a.poll_form("dev");
    assert_eq!(poll[1].1, "urn:ietf:params:oauth:grant-type:device_code");
    assert_eq!(poll[2], ("device_code".to_string(), "dev".to_string()));
    let cache = TokenCache {
        access_token: "a".to_string(),
        refresh_token: "r".to_string(),
        expires_at: at(1000),
    };
    let refresh = a.refresh_form(&cache);
    assert_eq!(refresh.len(), 4);
    assert_eq!(refresh[1].1, "refresh_token");
    assert_eq!(refresh[2].1, "r");
}

#[test]
fn token_expires_a_minute_early() {
    let cache = TokenCache {
        access_token: "a".to_string(),
        refresh_token: "r".to_string(),
        expires_at: at(1000),
    };
    assert!(!cache.is_expired_at(at(939)));
    assert!(!cache.is_expired_at(Timestamp { secs: 939, nanos: 999_999_999 }));
    assert!(cache.is_expired_at(at(940)));
    assert!(cache.is_expired_at(at(5000)));
    assert_eq!(token_plan(Some(&cache), at(100)), TokenPlan::UseCached);
    assert_eq!(token_plan(Some(&cache), at(940)), TokenPlan::Refresh);
    assert_eq!(token_plan(None, at(100)), TokenPlan::Login);
    let old = TokenCache { expires_at: at(0), ..cache };
    assert!(old.is_expired());
}

#[test]
fn polling_answers() {
    let now = Timestamp { secs: 1_700_000_000, nanos: 5 };
    match poll_step(answer(Some("A"), Some("R"), Some(120), None, None), now) {
        PollStep::Done(c) => {
            assert_eq!(c.access_token, "A");
            assert_eq!(c.refresh_token, "R");
            assert_eq!(c.expires_at.secs, 1_700_000_120);
            assert_eq!(c.expires_at.nanos, 5);
        }
        _ => panic!("expected a token"),
    }
    match poll_step(answer(Some("A"), Some("R"), None, None, None), now) {
        PollStep::Done(c) => assert_eq!(c.expires_at.secs, 1_700_003_600),
        _ => panic!("expected a token"),
    }
    assert!(matches!(
        poll_step(answer(None, None, None, Some("authorization_pending"), None), now),
        PollStep::Pending
    ));
    assert!(matches!(
        poll_step(answer(None, None, None, Some("slow_down"), None), now),
        PollStep::SlowDown
    ));
    match poll_step(answer(None, None, None, Some("expired_token"), Some("too late")), now) {
        PollStep::Failed(m) => assert_eq!(m, "Auth error: expired_token — too late"),
        _ => panic!("expected a failure"),
    }
    match poll_step(answer(None, None, None, Some("access_denied"), None), now) {
        PollStep::Failed(m) => assert_eq!(m, "Auth error: access_denied — "),
        _ => panic!("expected a failure"),
    }
    match poll_step(answer(None, Some("R"), None, None, None), now) {
        PollStep::Failed(m) => assert_eq!(m, "No access token"),
        _ => panic!("expected a failure"),
    }
    match poll_step(answer(Some("A"), None, None, None, None), now) {
        PollStep::Failed(m) => assert_eq!(m, "No refresh token"),
        _ => panic!("expected a failure"),
    }
    assert_eq!(expired_code_message(), "Device code expired. Please try logging in again.");
}

#[test]
fn refreshing_answers() {
    let now = at(2000);
    let cache = TokenCache {
        access_token: "old".to_string(),
        refresh_token: "keep".to_string(),
        expires_at: at(1000),
    };
    let c = refresh_outcome(answer(Some("new"), None, Some(60), None, None), &cache, now).unwrap();
    assert_eq!(c.access_token, "new");
    assert_eq!(c.refresh_token, "keep");
    assert_eq!(c.expires_at.secs, 2060);
    let c = refresh_outcome(answer(Some("new"), Some("r2"), None, None, None), &cache, now).unwrap();
    assert_eq!(c.refresh_token, "r2");
    assert_eq!(c.expires_at.secs, 5600);
    let e = refresh_outcome(answer(None, None, None, Some("invalid_grant"), None), &cache, now);
    assert_eq!(e.err().unwrap(), "Token refresh failed: invalid_grant");
    let e = refresh_outcome(answer(None, None, None, None, None), &cache, now);
    assert_eq!(e.err().unwrap(), "No access token");
}

#[test]
fn graph_addresses_and_payloads() {
    let g = GraphClient::new("tok".to_string());
    assert_eq!(
        g.inbox_url(50),
        "https://graph.microsoft.com/v1.0/me/mailFolders/inbox/messages?$top=50&$orderby=receivedDateTime desc&$select=id,subject,bodyPreview,receivedDateTime,isRead,from"
    );
    assert_eq!(
        g.message_url("M1"),
        "https://graph.microsoft.com/v1.0/me/messages/M1?$select=id,subject,body,receivedDateTime,isRead,from"
    );
    assert_eq!(g.message_resource("M1"), "https://graph.microsoft.com/v1.0/me/messages/M1");
    assert_eq!(g.reply_url("M1"), "https://graph.microsoft.com/v1.0/me/messages/M1/reply");
    assert_eq!(g.judge_status(200), GraphStatus::Success);
    assert_eq!(g.judge_status(204), GraphStatus::Success);
    assert_eq!(g.judge_status(401), GraphStatus::Unauthorized);
    assert_eq!(g.judge_status(404), GraphStatus::Failure);
    match g.mark_read_payload() {
        Json::Object(members) => {
            assert_eq!(members.len(), 1);
            assert_eq!(members[0].0, "isRead");
            assert!(matches!(members[0].1, Json::Bool(true)));
        }
        _ => panic!("expected an object"),
    }
    match g.reply_payload("thanks") {
        Json::Object(members) => {
            assert_eq!(members[0].0, "message");
            assert_eq!(members[1].0, "comment");
            assert!(matches!(&members[1].1, Json::String(c) if c == "thanks"));
        }
        _ => panic!("expected an object"),
    }
}

fn message() -> GraphMessage {
    GraphMessage {
        id: "M1".to_string(),
        subject: Some("Hi".to_string()),
        body_preview: Some("pre".to_string()),
        received_date_time: Some(at(1_700_000_000)),
        is_read: false,
        from: Some(GraphRecipient {
            email_address: Some(GraphEmailAddress {
                name: Some("Ann".to_string()),
                address: Some("ann@x.org".to_string()),
            }),
        }),
        body: Some(GraphBody { content_type: "html".to_string(), content: "<p>x</p>".to_string() }),
    }
}

#[test]
fn graph_message_becomes_email_and_row() {
    let e: Email = to_email(message());
    assert_eq!(e.id, "M1");
    let from: &EmailAddress = e.from.as_ref().unwrap();
    assert_eq!(from.name.as_deref(), Some("Ann"));
    assert_eq!(e.body.as_ref().unwrap().content, "<p>x</p>");
    let row = email_row(&e);
    assert_eq!(row.from_addr.as_deref(), Some("ann@x.org"));
    assert_eq!(row.received_at.as_deref(), Some("2023-11-14T22:13:20+00:00"));
    assert_eq!(row.content_type.as_deref(), Some("html"));
    assert_eq!(row.is_read, 0);
    let mut m = message();
    m.from = Some(GraphRecipient { email_address: None });
    m.body = None;
    m.is_read = true;
    let e = to_email(m);
    assert!(e.from.is_none());
    let row = email_row(&e);
    assert!(row.from_name.is_none() && row.body.is_none() && row.content_type.is_none());
    assert_eq!(row.is_read, 1);
}

#[test]
fn files_live_in_the_application_directory() {
    assert!(Config::config_dir().ends_with("/outreach"));
    assert!(Config::config_path().ends_with("/outreach/config.toml"));
    assert!(Config::token_path().ends_with("/outreach/token.json"));
    assert!(Config::db_path().ends_with("/outreach/outreach.db"));
}

#[test]
fn expiry_never_comes_back() {
    let cache = TokenCache {
        access_token: "a".to_string(),
        refresh_token: "r".to_string(),
        expires_at: at(10_000),
    };
    let mut seen_expired = false;
    for t in (9_000..11_000).step_by(7) {
        let e = cache.is_expired_at(at(t));
        assert!(!seen_expired || e);
        seen_expired |= e;
    }
    assert!(seen_expired);
}

#[test]
fn application_files_for_a_given_directory() {
    assert_eq!(Config::config_dir_for(Some("/home/me/.config")), "/home/me/.config/outreach");
    assert_eq!(Config::config_dir_for(None), "./outreach");
    assert_eq!(Config::config_path_for(Some("/c")), "/c/outreach/config.toml");
    assert_eq!(Config::token_path_for(None), "./outreach/token.json");
    assert_eq!(Config::db_path_for(Some("/c/")), "/c/outreach/outreach.db");
}

#[test]
fn clock_instants() {
    assert_eq!(instant_since_epoch(5, 7), Some(Timestamp { secs: 5, nanos: 7 }));
    assert_eq!(instant_since_epoch(8210266876799, 0).map(|t| t.secs), Some(8210266876799));
    assert_eq!(instant_since_epoch(8210266876800, 0), None);
    assert_eq!(instant_since_epoch(1, 1_000_000_000), None);
    let t = now().unwrap();
    assert!(t.secs > 1_600_000_000);
}
