use notifier::consumer::{settle, ConsumerError, MemoryQueue, Settlement};
use notifier::notification::EmailNotification;
use notifier::templates::{EmailTemplate, TemplateError};
use notifier::worker::{EmailWorker, OutgoingEmail, Step, SENDER};

fn record(metadata: &str) -> EmailNotification {
    EmailNotification::new(
        "welcome".to_string(),
        "a@b.com".to_string(),
        serde_json::from_str(metadata).unwrap(),
    )
}

fn welcome() -> EmailTemplate {
    EmailTemplate {
        id: "welcome".to_string(),
        subject: "Welcome".to_string(),
        body: "Hi {{name}}".to_string(),
    }
}

#[test]
fn malformed_bytes_end_with_decode_error() {
    let w = EmailWorker::new();
    match w.on_message(vec![0xff, 0xfe, 0x41]) {
        Step::Finish(Err(ConsumerError::DecodeError)) => {}
        other => panic!("unexpected step {:?}", other),
    }
}

#[test]
fn text_is_handed_on_for_parsing() {
    let w = EmailWorker::new();
    match w.on_message("{\"a\":1}".as_bytes().to_vec()) {
        Step::Parse(s) => assert_eq!(s, "{\"a\":1}"),
        other => panic!("unexpected step {:?}", other),
    }
}

#[test]
fn unparsable_text_ends_with_parse_error() {
    let w = EmailWorker::new();
    assert!(matches!(w.on_parsed(None), Step::Finish(Err(ConsumerError::ParseError))));
    match w.on_parsed(Some(record("{}"))) {
        Step::FindTemplate(r) => assert_eq!(r.template_id, "welcome"),
        other => panic!("unexpected step {:?}", other),
    }
}

#[test]
fn welcome_email_is_rendered_and_sent() {
    let w = EmailWorker::new();
    let step = w.on_template(record("{\"name\":\"Ann\"}"), Ok(welcome()));
    match step {
        Step::Send(email) => assert_eq!(
            email,
            OutgoingEmail {
                from: SENDER.to_string(),
                to: "a@b.com".to_string(),
                subject: "Welcome".to_string(),
                html: "Hi Ann".to_string(),
            }
        ),
        other => panic!("unexpected step {:?}", other),
    }
    match w.on_sent(Ok(())) {
        Step::Finish(Ok(())) => {}
        other => panic!("unexpected step {:?}", other),
    }
    assert_eq!(settle(1, &Ok(())), Settlement::Ack { delivery_tag: 1 });
}

#[test]
fn missing_template_requeues_and_reruns_from_decode() {
    let w = EmailWorker::new();
    let body = "{\"template_id\":\"welcome\"}".as_bytes().to_vec();
    let mut q = MemoryQueue::new();
    q.push(body.clone());
    let d = q.deliver().unwrap();
    assert!(matches!(w.on_message(d.body.clone()), Step::Parse(_)));
    let outcome = match w.on_template(record("{\"name\":\"Ann\"}"), Err(TemplateError::NotFound("welcome".to_string()))) {
        Step::Finish(r) => r,
        other => panic!("unexpected step {:?}", other),
    };
    assert_eq!(outcome, Err(ConsumerError::TemplateNotFound("welcome".to_string())));
    let s = settle(d.delivery_tag, &outcome);
    assert_eq!(s, Settlement::Nack { delivery_tag: d.delivery_tag, requeue: true });
    assert!(q.apply(s));
    let again = q.deliver().unwrap();
    assert_eq!(again.body, body);
    assert!(matches!(w.on_message(again.body), Step::Parse(_)));
}

#[test]
fn repository_failure_is_its_own_error() {
    let w = EmailWorker::new();
    match w.on_template(record("{}"), Err(TemplateError::RenderError("bad json".to_string()))) {
        Step::Finish(Err(ConsumerError::RepositoryError(m))) => assert_eq!(m, "bad json"),
        other => panic!("unexpected step {:?}", other),
    }
}

#[test]
fn malformed_template_ends_with_render_error() {
    let w = EmailWorker::new();
    let t = EmailTemplate {
        id: "broken".to_string(),
        subject: "S".to_string(),
        body: "Hi {{#if}}".to_string(),
    };
    assert!(matches!(
        w.on_template(record("{}"), Ok(t)),
        Step::Finish(Err(ConsumerError::RenderError(_)))
    ));
}

#[test]
fn rendered_result_decides_the_step() {
    let w = EmailWorker::new();
    match w.on_rendered(record("{}"), welcome(), Ok("<p>x</p>".to_string())) {
        Step::Send(e) => {
            assert_eq!(e.html, "<p>x</p>");
            assert_eq!(e.to, "a@b.com");
            assert_eq!(e.subject, "Welcome");
        }
        other => panic!("unexpected step {:?}", other),
    }
    match w.on_rendered(record("{}"), welcome(), Err(TemplateError::RenderError("m".to_string()))) {
        Step::Finish(Err(ConsumerError::RenderError(m))) => assert_eq!(m, "m"),
        other => panic!("unexpected step {:?}", other),
    }
}

#[test]
fn provider_failure_ends_with_delivery_error() {
    let w = EmailWorker::new();
    match w.on_sent(Err("rejected".to_string())) {
        Step::Finish(Err(ConsumerError::DeliveryError(m))) => assert_eq!(m, "rejected"),
        other => panic!("unexpected step {:?}", other),
    }
}
