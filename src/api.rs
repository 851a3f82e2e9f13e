use vstd::prelude::*;
use vstd::string::*;

use crate::notification::EmailNotification;
use crate::routing::{key_of, routing_key};

verus! {

pub uninterp spec fn email_address_valid(s: Seq<char>) -> bool;

/// Relies on validator's `ValidateEmail` for `&str`: whether the text is an
/// e-mail address by that crate's rules. Empty text, and text without `@`,
/// never is.
#[verifier::external_body]
fn is_email(s: &str) -> (r: bool)
    ensures
        r == email_address_valid(s@),
        (s@.len() == 0 || !s@.contains('@')) ==> !r,
{
    validator::ValidateEmail::validate_email(&s)
}

/// The channel kind of e-mail notifications.
pub const EMAIL_KIND: &'static str = "email";

/// A request for an e-mail notification, as a producer hands it over.
#[derive(Debug)]
pub struct CreateEmailNotificationRequest {
    pub organization_id: String,
    pub recipient: String,
    pub template_id: String,
    pub subject: Option<String>,
    pub metadata: serde_json::Value,
}

/// What a producer is told once its notification was accepted.
#[derive(Clone, Debug, PartialEq, Eq)]
pub struct CreateNotificationResponse {
    pub id: String,
}

/// A field of a request that is not acceptable.
#[derive(Clone, Copy, Debug, PartialEq, Eq, Structural)]
pub enum ValidationError {
    /// The organization id is empty.
    MissingOrganization,
    /// The recipient is not an e-mail address.
    InvalidRecipient,
    /// The template id is empty.
    MissingTemplate,
}

/// The fields that fail validation, in the order of the request's fields,
/// given whether the recipient is an e-mail address.
pub open spec fn errors_of(org: Seq<char>, recipient_is_email: bool, template_id: Seq<char>) -> Seq<
    ValidationError,
> {
    (if org.len() == 0 {
        seq![ValidationError::MissingOrganization]
    } else {
        Seq::empty()
    }) + (if !recipient_is_email {
        seq![ValidationError::InvalidRecipient]
    } else {
        Seq::empty()
    }) + (if template_id.len() == 0 {
        seq![ValidationError::MissingTemplate]
    } else {
        Seq::empty()
    })
}

/// The fields of a request that fail validation, in their order.
pub open spec fn validation_errors(org: Seq<char>, recipient: Seq<char>, template_id: Seq<char>) -> Seq<
    ValidationError,
> {
    errors_of(org, email_address_valid(recipient), template_id)
}

/// The validation errors of a request whose recipient was found to be, or
/// not to be, an e-mail address: an empty organization id, a recipient
/// that is not an address, an empty template id, in that order.
pub fn field_errors(organization_id: &str, recipient_is_email: bool, template_id: &str) -> (r: Vec<
    ValidationError,
>)
    ensures
        r@ == errors_of(organization_id@, recipient_is_email, template_id@),
{
    let mut errors: Vec<ValidationError> = Vec::new();
    if organization_id.unicode_len() == 0 {
        errors.push(ValidationError::MissingOrganization);
    }
    if !recipient_is_email {
        errors.push(ValidationError::InvalidRecipient);
    }
    if template_id.unicode_len() == 0 {
        errors.push(ValidationError::MissingTemplate);
    }
    assert(errors@ =~= errors_of(organization_id@, recipient_is_email, template_id@));
    errors
}

/// An accepted request: the record to publish and the key to publish it under.
#[derive(Debug)]
pub struct EmailPublication {
    pub notification: EmailNotification,
    pub routing_key: String,
}

impl CreateEmailNotificationRequest {
    /// Checks the request: an organization id and a template id that are not
    /// empty, and a recipient that is an e-mail address.
    pub fn validate(&self) -> (r: Result<(), Vec<ValidationError>>)
        ensures
            validation_errors(self.organization_id@, self.recipient@, self.template_id@).len() == 0
                ==> r is Ok,
            validation_errors(self.organization_id@, self.recipient@, self.template_id@).len() > 0
                ==> (r matches Err(es) && es@ == validation_errors(
                self.organization_id@,
                self.recipient@,
                self.template_id@,
            )),
    {
        let errors = field_errors(
            self.organization_id.as_str(),
            is_email(self.recipient.as_str()),
            self.template_id.as_str(),
        );
        if errors.len() == 0 {
            Ok(())
        } else {
            Err(errors)
        }
    }

    /// Turns a valid request into a new record, published under
    /// `<organization_id>.email`; an invalid one is refused with its errors and
    /// never reaches the broker.
    pub fn into_publication(self) -> (r: Result<EmailPublication, Vec<ValidationError>>)
        ensures
            validation_errors(self.organization_id@, self.recipient@, self.template_id@).len() == 0
                ==> (r matches Ok(p) && p.routing_key@ == key_of(self.organization_id@, EMAIL_KIND@)
                && p.notification.id@.len() == 36 && p.notification.created_at@.len() > 0
                && p.notification.template_id == self.template_id && p.notification.recipient
                == self.recipient && p.notification.metadata == self.metadata),
            validation_errors(self.organization_id@, self.recipient@, self.template_id@).len() > 0
                ==> (r matches Err(es) && es@ == validation_errors(
                self.organization_id@,
                self.recipient@,
                self.template_id@,
            )),
    {
        match self.validate() {
            Err(es) => Err(es),
            Ok(()) => {
                let key = routing_key(self.organization_id.as_str(), EMAIL_KIND);
                let notification = EmailNotification::new(
                    self.template_id,
                    self.recipient,
                    self.metadata,
                );
                Ok(EmailPublication { notification, routing_key: key })
            },
        }
    }
}

impl CreateNotificationResponse {
    /// The answer for a published record: its id.
    pub fn for_notification(notification: &EmailNotification) -> (r: Self)
        ensures
            r.id == notification.id,
    {
        CreateNotificationResponse { id: notification.id.clone() }
    }
}

} // verus!
