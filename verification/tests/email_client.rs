//! Tests of the email client's request construction and response
//! classification.

use zero2prod::domain::SubscriberEmail;
use zero2prod::email_client::{
    delivery_result, DeliveryError, EmailClient, SendFailure, SendOutcome, REQUEST_TIMEOUT_SECS,
};

fn email(raw: &str) -> SubscriberEmail {
    SubscriberEmail::parse(raw.to_string()).unwrap()
}

fn client(base_url: &str) -> EmailClient {
    EmailClient::new(base_url, email("sender@example.com"), "secret-token")
}

#[test]
fn send_email_sends_the_expected_request() {
    let client = client("http://localhost:9000");
    let request = client.send_email_request(
        email("recipient@example.com"),
        "A subject",
        "<p>Body</p>",
        "Body",
    );

    assert_eq!(request.url, "http://localhost:9000/email");
    assert_eq!(request.header_name, "X-Postmark-Server-Token");
    assert_eq!(request.header_value, "secret-token");

    // All five mandatory fields are populated, under the provider's names.
    let body: serde_json::Value = serde_json::from_str(&request.body).unwrap();
    assert_eq!(body.get("From").unwrap(), "sender@example.com");
    assert_eq!(body.get("To").unwrap(), "recipient@example.com");
    assert_eq!(body.get("Subject").unwrap(), "A subject");
    assert_eq!(body.get("HtmlBody").unwrap(), "<p>Body</p>");
    assert_eq!(body.get("TextBody").unwrap(), "Body");
}

#[test]
fn request_body_escapes_its_fields() {
    let client = client("http://localhost:9000");
    let subject = "He said \"hi\" \\ bye\nline\ttab\rret";
    let html = "contr\u{1}ol and unicode: émoji 🦀";
    let request = client.send_email_request(email("to@example.com"), subject, html, "plain");

    let body: serde_json::Value = serde_json::from_str(&request.body).unwrap();
    assert_eq!(body.get("Subject").unwrap(), subject);
    assert_eq!(body.get("HtmlBody").unwrap(), html);
}

#[test]
fn endpoint_joins_a_trailing_slash() {
    let with_slash = client("http://localhost:9000/")
        .send_email_request(email("to@example.com"), "s", "h", "t");
    assert_eq!(with_slash.url, "http://localhost:9000/email");

    let bare = client("https://api.example.com")
        .send_email_request(email("to@example.com"), "s", "h", "t");
    assert_eq!(bare.url, "https://api.example.com/email");
}

#[test]
fn send_email_succeeds_if_the_server_returns_200() {
    assert!(delivery_result(SendOutcome::Responded(200)).is_ok());
    assert!(delivery_result(SendOutcome::Responded(204)).is_ok());
    assert!(delivery_result(SendOutcome::Responded(299)).is_ok());
}

#[test]
fn send_email_fails_if_the_server_returns_500() {
    assert_eq!(
        delivery_result(SendOutcome::Responded(500)),
        Err(DeliveryError { failure: SendFailure::Status(500) })
    );
    assert_eq!(
        delivery_result(SendOutcome::Responded(199)),
        Err(DeliveryError { failure: SendFailure::Status(199) })
    );
    assert_eq!(
        delivery_result(SendOutcome::Responded(300)),
        Err(DeliveryError { failure: SendFailure::Status(300) })
    );
}

#[test]
fn send_email_times_out_if_the_server_takes_too_long() {
    // A send abandoned at the fixed ceiling reports a timeout, never a
    // successful late response.
    assert_eq!(REQUEST_TIMEOUT_SECS, 10);
    assert_eq!(
        delivery_result(SendOutcome::TimedOut),
        Err(DeliveryError { failure: SendFailure::Timeout })
    );
}

#[test]
fn transport_failure_is_a_delivery_error() {
    assert_eq!(
        delivery_result(SendOutcome::TransportFailed),
        Err(DeliveryError { failure: SendFailure::Transport })
    );
}
