//! Tests of the smaller boundary pieces: configuration defaults, email
//! payload builders, response helpers and the permission provider.
use auth_core::config::app_config;
use auth_core::mailer::{
    confirm_email_link_query, confirm_email_subject, confirm_email_title,
    recover_password_link_query, recover_password_subject, ConfirmEmailRecipientType,
};
use auth_core::permissions::root_permissions;
use auth_core::responses::SimpleError;

#[test]
fn app_config_defaults_match_the_documented_values() {
    let cfg = app_config();
    assert!(!cfg.app_debug);
    assert_eq!(cfg.tracer_service_name, "mailer");
    assert_eq!(cfg.rmq_uri, "amqp://localhost:5672");
    assert_eq!(cfg.rmq_queue, "mailer");
    assert_eq!(cfg.rmq_consumer_tag, "mailer_service_consumer");
    assert_eq!(cfg.rmq_email_events_exchange, "email_events");
    assert_eq!(cfg.aws_region, "us-east-1");
    assert_eq!(cfg.aws_ses_tracking_config_set, "email-events");
    assert_eq!(cfg.aws_sns_tracking_subscription_arn, None);
    assert_eq!(cfg.aws_ses_max_emails_per_second, 1);
    assert_eq!(cfg.http_port, 3005);
    assert_eq!(cfg.app_default_email_sender, "rastercar.tests.001@gmail.com");
}

#[test]
fn recover_password_link_carries_the_token() {
    assert_eq!(recover_password_link_query("abc123"), "token=abc123");
    assert_eq!(recover_password_subject(), "Rastercar: recover password");
}

#[test]
fn confirm_email_link_marks_the_recipient_kind() {
    assert_eq!(
        confirm_email_link_query("t0", &ConfirmEmailRecipientType::User),
        "token=t0"
    );
    assert_eq!(
        confirm_email_link_query("t0", &ConfirmEmailRecipientType::Organization),
        "token=t0&confirmingFor=organization"
    );
    assert_eq!(
        confirm_email_title(&ConfirmEmailRecipientType::User),
        "Thanks for registering a Rastercar account"
    );
    assert_eq!(
        confirm_email_title(&ConfirmEmailRecipientType::Organization),
        "Thanks for creating your rastercar organization"
    );
    assert_eq!(confirm_email_subject(), "Rastercar: confirm email");
}

#[test]
fn simple_error_messages_are_fixed() {
    assert_eq!(SimpleError::internal().error, "internal server error");
    assert_eq!(SimpleError::entity_not_found().error, "entity not found");
}

#[test]
fn root_permissions_are_the_full_canonical_set() {
    let p = root_permissions();
    assert_eq!(
        p,
        vec![
            "CREATE_USER".to_string(),
            "UPDATE_USER".to_string(),
            "DELETE_USER".to_string(),
            "MANAGE_VEHICLES".to_string(),
            "MANAGE_ORGANIZATION".to_string(),
        ]
    );
}

#[test]
fn session_duration_constants_agree() {
    assert_eq!(
        auth_core::session_token::SESSION_SECONDS,
        auth_core::session_token::SESSION_DAYS_DURATION * 24 * 60 * 60
    );
}
