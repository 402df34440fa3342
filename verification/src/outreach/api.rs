//! Microsoft Graph: the addresses asked, the payloads sent, how answers are
//! judged, and how a Graph message becomes an [`Email`].
use vstd::prelude::*;
use crate::json::Json;
use crate::outreach::time::Timestamp;
use crate::text::{decimal, owned, push_str, push_u64};

verus! {

broadcast use vstd::string::group_string_axioms;

/// Minimal email representation from Graph API
#[derive(Debug, Clone)]
pub struct Email {
    pub id: String,
    pub subject: Option<String>,
    pub body_preview: Option<String>,
    pub received_at: Option<Timestamp>,
    pub is_read: bool,
    pub from: Option<EmailAddress>,
    pub body: Option<EmailBody>,
}

#[derive(Debug, Clone)]
pub struct EmailAddress {
    pub name: Option<String>,
    pub address: Option<String>,
}

#[derive(Debug, Clone)]
pub struct EmailBody {
    pub content_type: String,
    pub content: String,
}

/// A message as Graph sends it.
pub struct GraphMessage {
    pub id: String,
    pub subject: Option<String>,
    pub body_preview: Option<String>,
    pub received_date_time: Option<Timestamp>,
    pub is_read: bool,
    pub from: Option<GraphRecipient>,
    pub body: Option<GraphBody>,
}

pub struct GraphRecipient {
    pub email_address: Option<GraphEmailAddress>,
}

pub struct GraphEmailAddress {
    pub name: Option<String>,
    pub address: Option<String>,
}

pub struct GraphBody {
    pub content_type: String,
    pub content: String,
}

/// The email a Graph message becomes: the same fields, the sender's address
/// lifted out of its recipient wrapper (no address, no sender).
pub open spec fn email_of(msg: GraphMessage) -> Email {
    Email {
        id: msg.id,
        subject: msg.subject,
        body_preview: msg.body_preview,
        received_at: msg.received_date_time,
        is_read: msg.is_read,
        from: match msg.from {
            Some(r) => match r.email_address {
                Some(a) => Some(EmailAddress { name: a.name, address: a.address }),
                None => None,
            },
            None => None,
        },
        body: match msg.body {
            Some(b) => Some(EmailBody { content_type: b.content_type, content: b.content }),
            None => None,
        },
    }
}

/// What an email keeps of the Graph message it comes from: its id, subject,
/// preview, receipt time and read flag unchanged; a sender exactly when the
/// message names a sender's address, with that name and address; and the body,
/// with its content type and content, exactly when the message has one.
pub open spec fn email_keeps_fields(msg: GraphMessage, r: Email) -> bool {
    &&& r.id == msg.id
    &&& r.subject == msg.subject
    &&& r.body_preview == msg.body_preview
    &&& r.received_at == msg.received_date_time
    &&& r.is_read == msg.is_read
    &&& (r.from is Some <==> (msg.from is Some && msg.from->0.email_address is Some))
    &&& (r.from is Some ==> r.from->0.name == msg.from->0.email_address->0.name
        && r.from->0.address == msg.from->0.email_address->0.address)
    &&& (r.body is Some <==> msg.body is Some)
    &&& (r.body is Some ==> r.body->0.content_type == msg.body->0.content_type
        && r.body->0.content == msg.body->0.content)
}

/// The email built from any Graph message carries every field of the message
/// unchanged: the subject is the message's subject, and likewise the id, the
/// preview, the receipt time, the read flag, the sender and the body.
pub proof fn lemma_email_fields(msg: GraphMessage)
    ensures
        email_keeps_fields(msg, email_of(msg)),
        email_of(msg).subject == msg.subject,
{
}

pub fn to_email(msg: GraphMessage) -> (r: Email)
    ensures
        r == email_of(msg),
        email_keeps_fields(msg, r),
{
    let from = match msg.from {
        Some(r) => match r.email_address {
            Some(a) => Some(EmailAddress { name: a.name, address: a.address }),
            None => None,
        },
        None => None,
    };
    let body = match msg.body {
        Some(b) => Some(EmailBody { content_type: b.content_type, content: b.content }),
        None => None,
    };
    Email {
        id: msg.id,
        subject: msg.subject,
        body_preview: msg.body_preview,
        received_at: msg.received_date_time,
        is_read: msg.is_read,
        from,
        body,
    }
}

/// The Graph endpoint all addresses start with.
pub open spec fn graph_base() -> Seq<char> {
    "https://graph.microsoft.com/v1.0"@
}

/// The inbox listing: newest first, at most `limit`, with the summary fields.
pub open spec fn inbox_url(limit: nat) -> Seq<char> {
    graph_base() + "/me/mailFolders/inbox/messages?$top="@ + decimal(limit)
        + "&$orderby=receivedDateTime desc&$select=id,subject,bodyPreview,receivedDateTime,isRead,from"@
}

/// One message with its full body.
pub open spec fn message_url(id: Seq<char>) -> Seq<char> {
    graph_base() + "/me/messages/"@ + id + "?$select=id,subject,body,receivedDateTime,isRead,from"@
}

/// The resource of one message (to mark it read or delete it).
pub open spec fn message_resource(id: Seq<char>) -> Seq<char> {
    graph_base() + "/me/messages/"@ + id
}

/// The reply action of one message.
pub open spec fn reply_url(id: Seq<char>) -> Seq<char> {
    graph_base() + "/me/messages/"@ + id + "/reply"@
}

/// How an answer's status is judged.
#[derive(Clone, Copy, Debug, PartialEq, Eq, Structural)]
pub enum GraphStatus {
    Success,
    Unauthorized,
    Failure,
}

pub open spec fn judge(status: u16) -> GraphStatus {
    if status == 401 {
        GraphStatus::Unauthorized
    } else if 200 <= status <= 299 {
        GraphStatus::Success
    } else {
        GraphStatus::Failure
    }
}

pub struct GraphClient {
    pub access_token: String,
}

impl GraphClient {
    pub fn new(access_token: String) -> (r: Self)
        ensures
            r.access_token == access_token,
    {
        GraphClient { access_token }
    }

    /// Where to fetch the latest emails from the inbox (up to `limit`).
    pub fn inbox_url(&self, limit: usize) -> (r: String)
        ensures
            r@ == inbox_url(limit as nat),
    {
        let mut s = owned("https://graph.microsoft.com/v1.0/me/mailFolders/inbox/messages?$top=");
        push_u64(&mut s, limit as u64);
        push_str(
            &mut s,
            "&$orderby=receivedDateTime desc&$select=id,subject,bodyPreview,receivedDateTime,isRead,from",
        );
        assert(s@ =~= inbox_url(limit as nat)) by {
            reveal_strlit("https://graph.microsoft.com/v1.0/me/mailFolders/inbox/messages?$top=");
            reveal_strlit("https://graph.microsoft.com/v1.0");
            reveal_strlit("/me/mailFolders/inbox/messages?$top=");
        }
        s
    }

    /// Where to fetch a single email with full body.
    pub fn message_url(&self, id: &str) -> (r: String)
        ensures
            r@ == message_url(id@),
    {
        let mut s = owned("https://graph.microsoft.com/v1.0/me/messages/");
        push_str(&mut s, id);
        push_str(&mut s, "?$select=id,subject,body,receivedDateTime,isRead,from");
        assert(s@ =~= message_url(id@)) by {
            reveal_strlit("https://graph.microsoft.com/v1.0/me/messages/");
            reveal_strlit("https://graph.microsoft.com/v1.0");
            reveal_strlit("/me/messages/");
        }
        s
    }

    /// The resource of one message.
    pub fn message_resource(&self, id: &str) -> (r: String)
        ensures
            r@ == message_resource(id@),
    {
        let mut s = owned("https://graph.microsoft.com/v1.0/me/messages/");
        push_str(&mut s, id);
        assert(s@ =~= message_resource(id@)) by {
            reveal_strlit("https://graph.microsoft.com/v1.0/me/messages/");
            reveal_strlit("https://graph.microsoft.com/v1.0");
            reveal_strlit("/me/messages/");
        }
        s
    }

    /// Where to send a reply to a message.
    pub fn reply_url(&self, id: &str) -> (r: String)
        ensures
            r@ == reply_url(id@),
    {
        let mut s = owned("https://graph.microsoft.com/v1.0/me/messages/");
        push_str(&mut s, id);
        push_str(&mut s, "/reply");
        assert(s@ =~= reply_url(id@)) by {
            reveal_strlit("https://graph.microsoft.com/v1.0/me/messages/");
            reveal_strlit("https://graph.microsoft.com/v1.0");
            reveal_strlit("/me/messages/");
        }
        s
    }

    /// Judges an answer's status: 401 means the token is no longer accepted.
    pub fn judge_status(&self, status: u16) -> (r: GraphStatus)
        ensures
            r == judge(status),
    {
        if status == 401 {
            GraphStatus::Unauthorized
        } else if 200 <= status && status <= 299 {
            GraphStatus::Success
        } else {
            GraphStatus::Failure
        }
    }

    /// The error for an answer that was not accepted; `status_text` is the
    /// status as displayed (`404 Not Found`) and `body` the answer's text.
    pub fn status_error(&self, status: GraphStatus, status_text: &str, body: &str) -> (r: String)
        ensures
            status == GraphStatus::Unauthorized ==> r@ == "Unauthorized — token may be expired"@,
            status != GraphStatus::Unauthorized ==> r@ == "Graph API error "@ + status_text@ + ": "@
                + body@,
    {
        match status {
            GraphStatus::Unauthorized => owned("Unauthorized — token may be expired"),
            _ => {
                let mut s = owned("Graph API error ");
                push_str(&mut s, status_text);
                push_str(&mut s, ": ");
                push_str(&mut s, body);
                s
            },
        }
    }

    /// The payload that marks a message read: `{"isRead": true}`.
    pub fn mark_read_payload(&self) -> (r: Json)
        ensures
            r matches Json::Object(m) && m@.len() == 1 && m@[0].0@ == "isRead"@ && m@[0].1 == Json::Bool(
                true,
            ),
    {
        let mut m: Vec<(String, Json)> = Vec::new();
        m.push((owned("isRead"), Json::Bool(true)));
        Json::Object(m)
    }

    /// The payload of a reply: `{"message": {}, "comment": <body>}`.
    pub fn reply_payload(&self, body: &str) -> (r: Json)
        ensures
            r matches Json::Object(m) && m@.len() == 2 && m@[0].0@ == "message"@ && (m@[0].1 matches Json::Object(
                e,
            ) && e@.len() == 0) && m@[1].0@ == "comment"@ && (m@[1].1 matches Json::String(c)
                && c@ == body@),
    {
        let mut m: Vec<(String, Json)> = Vec::new();
        m.push((owned("message"), Json::Object(Vec::new())));
        m.push((owned("comment"), Json::String(owned(body))));
        Json::Object(m)
    }
}

} // verus!
