use notifier::api::{CreateEmailNotificationRequest, CreateNotificationResponse, ValidationError};
use notifier::config::{get_config, parse_port, ConfigError};
use notifier::notification::{EmailNotification, PushNotification, SMSNotification};
use notifier::templates::{EmailTemplate, EmailTemplateEngine, FileEmailTemplateRepository, TemplateError};

fn request(org: &str, recipient: &str, template: &str) -> CreateEmailNotificationRequest {
    CreateEmailNotificationRequest {
        organization_id: org.to_string(),
        recipient: recipient.to_string(),
        template_id: template.to_string(),
        subject: None,
        metadata: serde_json::from_str("{\"name\":\"Ann\"}").unwrap(),
    }
}

#[test]
fn valid_request_becomes_a_publication() {
    let p = request("org-1", "a@b.com", "welcome").into_publication().unwrap();
    assert_eq!(p.routing_key, "org-1.email");
    assert_eq!(p.notification.template_id, "welcome");
    assert_eq!(p.notification.recipient, "a@b.com");
    assert_eq!(p.notification.metadata["name"], "Ann");
    assert_eq!(p.notification.id.len(), 36);
    let r = CreateNotificationResponse::for_notification(&p.notification);
    assert_eq!(r.id, p.notification.id);
}

#[test]
fn invalid_fields_are_all_reported() {
    assert_eq!(
        request("", "not-an-address", "").validate(),
        Err(vec![
            ValidationError::MissingOrganization,
            ValidationError::InvalidRecipient,
            ValidationError::MissingTemplate,
        ])
    );
    assert_eq!(request("org-1", "a@b.com", "").validate(), Err(vec![ValidationError::MissingTemplate]));
    assert_eq!(request("org-1", "", "welcome").validate(), Err(vec![ValidationError::InvalidRecipient]));
    assert!(request("org-1", "a@b.com", "welcome").validate().is_ok());
    assert!(request("org-1", "a@", "welcome").into_publication().is_err());
}

#[test]
fn new_records_get_distinct_ids() {
    let a = EmailNotification::new("t".to_string(), "a@b.com".to_string(), serde_json::Value::Null);
    let b = EmailNotification::new("t".to_string(), "a@b.com".to_string(), serde_json::Value::Null);
    assert_eq!(a.id.len(), 36);
    assert_ne!(a.id, b.id);
    assert!(!a.created_at.is_empty());
}

#[test]
fn config_reads_the_broker_port() {
    let c = get_config(
        "8080".to_string(),
        "localhost".to_string(),
        "5672",
        "guest".to_string(),
        "guest".to_string(),
    )
    .unwrap();
    assert_eq!(c.rabbitmq_port, 5672);
    assert_eq!(c.port, "8080");
    assert_eq!(c.rabbitmq_host, "localhost");
    let plus = get_config(String::new(), String::new(), "+80", String::new(), String::new()).unwrap();
    assert_eq!(plus.rabbitmq_port, 80);
}

#[test]
fn config_refuses_a_bad_port() {
    for bad in ["", "abc", "70000", "-1", " 5672", "+"] {
        assert_eq!(
            get_config(String::new(), String::new(), bad, String::new(), String::new()),
            Err(ConfigError::InvalidBrokerPort)
        );
    }
}

#[test]
fn template_file_is_named_after_its_id() {
    let repo = FileEmailTemplateRepository::new("templates".to_string());
    assert_eq!(repo.templates_path, "templates");
    assert_eq!(repo.template_path("welcome"), "templates/welcome.json");
}

#[test]
fn engine_fills_placeholders() {
    let engine = EmailTemplateEngine::new();
    let t = EmailTemplate { id: "w".to_string(), subject: "s".to_string(), body: "Hi {{name}}!".to_string() };
    let data = serde_json::from_str("{\"name\":\"Ann\"}").unwrap();
    assert_eq!(engine.render(&t, &data), Ok("Hi Ann!".to_string()));
    let broken = EmailTemplate { id: "b".to_string(), subject: "s".to_string(), body: "{{#each}}".to_string() };
    assert!(matches!(engine.render(&broken, &data), Err(TemplateError::RenderError(_))));
}

#[test]
fn other_channel_records_hold_their_fields() {
    let s = SMSNotification { phone_number: "+100".to_string(), message: "hi".to_string() };
    assert_eq!(s.clone(), s);
    let p = PushNotification {
        device_token: "tok".to_string(),
        module: None,
        title: "t".to_string(),
        description: Some("d".to_string()),
    };
    assert_eq!(p.clone().title, "t");
}

#[test]
fn missing_placeholder_is_a_render_error() {
    let engine = EmailTemplateEngine::new();
    let t = EmailTemplate { id: "w".to_string(), subject: "s".to_string(), body: "Hi {{surname}}".to_string() };
    let data = serde_json::from_str("{\"name\":\"Ann\"}").unwrap();
    assert!(matches!(engine.render(&t, &data), Err(TemplateError::RenderError(_))));
}

#[test]
fn record_from_parts_keeps_every_field() {
    let n = EmailNotification::from_parts(
        "id-1".to_string(),
        "2024-01-01T00:00:00+00:00".to_string(),
        "welcome".to_string(),
        "a@b.com".to_string(),
        serde_json::from_str("{\"name\":\"Ann\"}").unwrap(),
    );
    assert_eq!(n.id, "id-1");
    assert_eq!(n.created_at, "2024-01-01T00:00:00+00:00");
    assert_eq!(n.template_id, "welcome");
    assert_eq!(n.recipient, "a@b.com");
    assert_eq!(n.metadata["name"], "Ann");
}

#[test]
fn port_text_is_read_exactly() {
    assert_eq!(parse_port("5672"), Some(5672));
    assert_eq!(parse_port("+443"), Some(443));
    assert_eq!(parse_port("0065535"), Some(65535));
    assert_eq!(parse_port("65536"), None);
    assert_eq!(parse_port("99999999999"), None);
    assert_eq!(parse_port("12a"), None);
    assert_eq!(parse_port("++1"), None);
    assert_eq!(parse_port(""), None);
}

#[test]
fn field_errors_follow_the_given_address_check() {
    assert_eq!(notifier::api::field_errors("org-1", true, "welcome"), vec![]);
    assert_eq!(notifier::api::field_errors("org-1", false, "welcome"), vec![ValidationError::InvalidRecipient]);
    assert_eq!(
        notifier::api::field_errors("", false, ""),
        vec![ValidationError::MissingOrganization, ValidationError::InvalidRecipient, ValidationError::MissingTemplate]
    );
    assert_eq!(notifier::api::field_errors("", true, "x"), vec![ValidationError::MissingOrganization]);
}

#[test]
fn publication_record_has_a_timestamp() {
    let p = request("org-1", "a@b.com", "welcome").into_publication().unwrap();
    assert!(!p.notification.created_at.is_empty());
}

#[test]
fn new_queue_starts_its_tags_at_one() {
    let q = notifier::consumer::MemoryQueue::new();
    assert_eq!(q.next_tag, 1);
}
