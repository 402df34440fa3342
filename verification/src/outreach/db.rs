//! The local mail cache: the row stored for an email, and the email as read
//! back.
use vstd::prelude::*;
use crate::outreach::api::Email;
use crate::outreach::auth::opt_text;
use crate::outreach::time::Timestamp;

verus! {

/// Flattened email row from SQLite cache
#[derive(Debug, Clone)]
pub struct CachedEmail {
    pub id: String,
    pub subject: Option<String>,
    pub from_name: Option<String>,
    pub from_addr: Option<String>,
    pub preview: Option<String>,
    pub body: Option<String>,
    pub content_type: Option<String>,
    pub received_at: Option<String>,
    pub is_read: bool,
}

/// The values an upsert stores for one email.
pub struct EmailRow {
    pub id: String,
    pub subject: Option<String>,
    pub from_name: Option<String>,
    pub from_addr: Option<String>,
    pub preview: Option<String>,
    pub body: Option<String>,
    pub content_type: Option<String>,
    pub received_at: Option<String>,
    pub is_read: i32,
}

/// The RFC 3339 text `chrono` writes for the instant `secs` seconds and
/// `nanos` nanoseconds after the epoch (`DateTime::to_rfc3339`).
pub uninterp spec fn rfc3339_text(secs: i64, nanos: u32) -> Seq<char>;

/// `DateTime::to_rfc3339` of a valid instant (every valid instant is a
/// `DateTime`). The calendar arithmetic and the choice of fraction digits
/// are not restated here; the text is named by `rfc3339_text`.
#[verifier::external_body]
fn rfc3339(t: Timestamp) -> (r: String)
    requires
        t.wf(),
    ensures
        r@ == rfc3339_text(t.secs, t.nanos),
{
    chrono::DateTime::from_timestamp(t.secs, t.nanos).map(|d| d.to_rfc3339()).unwrap_or_default()
}

fn copy_opt(o: &Option<String>) -> (r: Option<String>)
    ensures
        opt_text(r) == opt_text(*o),
{
    match o {
        Some(s) => Some(s.clone()),
        None => None,
    }
}

/// The row stored for an email: the sender's name and address, the body's
/// content and type (absent when there is no sender or body), the time it
/// arrived as RFC 3339 text, and the read flag as 0 or 1.
pub fn email_row(email: &Email) -> (r: EmailRow)
    requires
        email.received_at matches Some(t) ==> t.wf(),
    ensures
        r.id@ == email.id@,
        opt_text(r.subject) == opt_text(email.subject),
        opt_text(r.preview) == opt_text(email.body_preview),
        opt_text(r.from_name) == match email.from {
            Some(f) => opt_text(f.name),
            None => None,
        },
        opt_text(r.from_addr) == match email.from {
            Some(f) => opt_text(f.address),
            None => None,
        },
        opt_text(r.body) == match email.body {
            Some(b) => Some(b.content@),
            None => None,
        },
        opt_text(r.content_type) == match email.body {
            Some(b) => Some(b.content_type@),
            None => None,
        },
        opt_text(r.received_at) == match email.received_at {
            Some(t) => Some(rfc3339_text(t.secs, t.nanos)),
            None => None,
        },
        r.is_read == if email.is_read {
            1i32
        } else {
            0i32
        },
{
    let (from_name, from_addr) = match &email.from {
        Some(f) => (copy_opt(&f.name), copy_opt(&f.address)),
        None => (None, None),
    };
    let (body, content_type) = match &email.body {
        Some(b) => (Some(b.content.clone()), Some(b.content_type.clone())),
        None => (None, None),
    };
    EmailRow {
        id: email.id.clone(),
        subject: copy_opt(&email.subject),
        from_name,
        from_addr,
        preview: copy_opt(&email.body_preview),
        body,
        content_type,
        received_at: match email.received_at {
            Some(t) => Some(rfc3339(t)),
            None => None,
        },
        is_read: if email.is_read {
            1
        } else {
            0
        },
    }
}

} // verus!
