use vstd::prelude::*;

verus! {

/// Relies on uuid's `Uuid::new_v4` and its `Display`: a random identifier in
/// the hyphenated form, 36 characters long.
#[verifier::external_body]
fn new_identifier() -> (r: String)
    ensures
        r@.len() == 36,
{
    uuid::Uuid::new_v4().to_string()
}

/// Relies on chrono's `Utc::now` and `DateTime::to_rfc3339`: the current time
/// as RFC 3339 text, which always holds at least the date.
#[verifier::external_body]
fn now_rfc3339() -> (r: String)
    ensures
        r@.len() > 0,
{
    chrono::Utc::now().to_rfc3339()
}

/// An e-mail to be sent: which template, to whom, and the variables to render
/// it with. Once built, a record is not changed.
#[derive(Debug)]
pub struct EmailNotification {
    pub id: String,
    pub template_id: String,
    pub recipient: String,
    pub created_at: String,
    pub metadata: serde_json::Value,
}

impl EmailNotification {
    /// A record made of the given values, each in its field.
    pub fn from_parts(
        id: String,
        created_at: String,
        template_id: String,
        recipient: String,
        metadata: serde_json::Value,
    ) -> (r: Self)
        ensures
            r.id == id,
            r.created_at == created_at,
            r.template_id == template_id,
            r.recipient == recipient,
            r.metadata == metadata,
    {
        Self { id, template_id, recipient, created_at, metadata }
    }

    /// A new record with a fresh random id and the current time.
    pub fn new(template_id: String, recipient: String, metadata: serde_json::Value) -> (r: Self)
        ensures
            r.id@.len() == 36,
            r.created_at@.len() > 0,
            r.template_id == template_id,
            r.recipient == recipient,
            r.metadata == metadata,
    {
        let id = new_identifier();
        let created_at = now_rfc3339();
        Self::from_parts(id, created_at, template_id, recipient, metadata)
    }
}

/// A text message to a phone number.
#[derive(Clone, Debug, PartialEq, Eq)]
pub struct SMSNotification {
    pub phone_number: String,
    pub message: String,
}

/// A push notification to one device.
#[derive(Clone, Debug, PartialEq, Eq)]
pub struct PushNotification {
    pub device_token: String,
    pub module: Option<String>,
    pub title: String,
    pub description: Option<String>,
}

} // verus!
