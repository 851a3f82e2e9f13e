use vstd::prelude::*;
use vstd::utf8::{decode_utf8, valid_utf8};

use crate::consumer::ConsumerError;
use crate::notification::EmailNotification;
use crate::templates::{rendered_of, EmailTemplate, EmailTemplateEngine, TemplateError};

verus! {

/// The address that e-mails are sent from.
pub const SENDER: &'static str = "Crab <onboarding@resend.dev>";

/// Relies on std's `String::from_utf8`: it succeeds exactly on valid UTF-8,
/// with the text that the bytes encode.
#[verifier::external_body]
fn text_of(bytes: Vec<u8>) -> (r: Option<String>)
    ensures
        r is Some <==> valid_utf8(bytes@),
        r matches Some(s) ==> s@ == decode_utf8(bytes@),
{
    String::from_utf8(bytes).ok()
}

/// An e-mail ready for the delivery provider.
#[derive(Clone, Debug, PartialEq, Eq)]
pub struct OutgoingEmail {
    pub from: String,
    pub to: String,
    pub subject: String,
    pub html: String,
}

/// What the worker asks for next while it handles one message.
#[derive(Debug)]
pub enum Step {
    /// Read this text as a notification record and report it to `on_parsed`.
    Parse(String),
    /// Look up the record's template and report it to `on_template`.
    FindTemplate(EmailNotification),
    /// Hand this e-mail to the delivery provider and report to `on_sent`.
    Send(OutgoingEmail),
    /// Handling is over, with this outcome.
    Finish(Result<(), ConsumerError>),
}

/// Handles e-mail notifications: decode, read the record, find its template,
/// render, deliver. Each stage that fails ends the handling with its own
/// error and runs none of the later stages.
pub struct EmailWorker {
    pub sender: String,
    pub engine: EmailTemplateEngine,
}

/// The step after a template lookup has failed.
pub open spec fn lookup_failed_step(e: TemplateError) -> Step {
    match e {
        TemplateError::NotFound(id) => Step::Finish(Err(ConsumerError::TemplateNotFound(id))),
        TemplateError::RenderError(m) => Step::Finish(Err(ConsumerError::RepositoryError(m))),
    }
}

/// The step after rendering: the e-mail to send, from `from` to the record's
/// recipient under the template's subject, or the render error.
pub open spec fn rendered_step(
    from: String,
    record: EmailNotification,
    template: EmailTemplate,
    rendered: Result<String, TemplateError>,
) -> Step {
    match rendered {
        Ok(html) => Step::Send(
            OutgoingEmail { from, to: record.recipient, subject: template.subject, html },
        ),
        Err(TemplateError::RenderError(m)) => Step::Finish(Err(ConsumerError::RenderError(m))),
        Err(TemplateError::NotFound(id)) => Step::Finish(Err(ConsumerError::TemplateNotFound(id))),
    }
}

impl EmailWorker {
    pub fn new() -> (r: Self)
        ensures
            r.sender@ == SENDER@,
    {
        EmailWorker { sender: String::from_str(SENDER), engine: EmailTemplateEngine::new() }
    }

    /// First stage: the message body must be UTF-8 text. Bytes that are not
    /// end the handling with a decode error, before any template is looked up.
    pub fn on_message(&self, content: Vec<u8>) -> (r: Step)
        ensures
            valid_utf8(content@) ==> (r matches Step::Parse(s) && s@ == decode_utf8(content@)),
            !valid_utf8(content@) ==> r matches Step::Finish(Err(ConsumerError::DecodeError)),
    {
        match text_of(content) {
            Some(s) => Step::Parse(s),
            None => Step::Finish(Err(ConsumerError::DecodeError)),
        }
    }

    /// Second stage: text that is not a record ends the handling with a parse
    /// error; a record has its template looked up.
    pub fn on_parsed(&self, parsed: Option<EmailNotification>) -> (r: Step)
        ensures
            parsed matches Some(rec) ==> r == Step::FindTemplate(rec),
            parsed is None ==> r matches Step::Finish(Err(ConsumerError::ParseError)),
    {
        match parsed {
            Some(rec) => Step::FindTemplate(rec),
            None => Step::Finish(Err(ConsumerError::ParseError)),
        }
    }

    /// Fourth stage, given the render result: the e-mail to send, or the
    /// render error.
    pub fn on_rendered(
        &self,
        record: EmailNotification,
        template: EmailTemplate,
        rendered: Result<String, TemplateError>,
    ) -> (r: Step)
        ensures
            r == rendered_step(self.sender, record, template, rendered),
    {
        match rendered {
            Ok(html) => Step::Send(
                OutgoingEmail {
                    from: self.sender.clone(),
                    to: record.recipient,
                    subject: template.subject,
                    html,
                },
            ),
            Err(TemplateError::RenderError(m)) => Step::Finish(Err(ConsumerError::RenderError(m))),
            Err(TemplateError::NotFound(id)) => Step::Finish(Err(ConsumerError::TemplateNotFound(id))),
        }
    }

    /// Third stage: an unknown template ends the handling with
    /// `TemplateNotFound`, and another lookup failure with a repository
    /// error, before anything is rendered or sent. A template that was found
    /// is rendered with the record's metadata.
    pub fn on_template(&self, record: EmailNotification, found: Result<EmailTemplate, TemplateError>) -> (r: Step)
        ensures
            found matches Err(e) ==> r == lookup_failed_step(e),
            found matches Ok(t) ==> match rendered_of(t.body@, record.metadata) {
                Ok(h) => r matches Step::Send(e) && e.html@ == h && e.to == record.recipient
                    && e.subject == t.subject && e.from == self.sender,
                Err(m) => r matches Step::Finish(Err(ConsumerError::RenderError(e))) && e@ == m,
            },
    {
        match found {
            Err(TemplateError::NotFound(id)) => Step::Finish(Err(ConsumerError::TemplateNotFound(id))),
            Err(TemplateError::RenderError(m)) => Step::Finish(Err(ConsumerError::RepositoryError(m))),
            Ok(t) => {
                let rendered = self.engine.render(&t, &record.metadata);
                self.on_rendered(record, t, rendered)
            },
        }
    }

    /// Last stage: the provider's answer decides the outcome.
    pub fn on_sent(&self, sent: Result<(), String>) -> (r: Step)
        ensures
            sent is Ok ==> r matches Step::Finish(Ok(())),
            sent matches Err(m) ==> r == Step::Finish(Err(ConsumerError::DeliveryError(m))),
    {
        match sent {
            Ok(()) => Step::Finish(Ok(())),
            Err(m) => Step::Finish(Err(ConsumerError::DeliveryError(m))),
        }
    }
}

} // verus!
