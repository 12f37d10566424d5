use std::cell::Cell;
use webhook_sender::sender::{PostRequest, WebhookSender, JSON_CONTENT_TYPE};

const HELLO_WORLD: &str = r#"
{
  "type": "message",
  "attachments": [{
    "contentType": "application/vnd.microsoft.card.adaptive",
    "contentUrl": "",
    "content": {
      "$schema": "http://adaptivecards.io/schemas/adaptive-card.json",
      "type": "AdaptiveCard",
      "version": "1,2",
      "body": [{
        "type": "TextBlock",
        "text": "hello world"
      }]
    }
  }]
}
"#;

fn parsed(document: &str) -> serde_json::Value {
    serde_json::from_str(document).unwrap()
}

#[test]
fn new_keeps_the_url_as_given() {
    for url in [
        "https://example.invalid/webhook/abc?x=1",
        "",
        "not a url at all",
        "  spaces  ",
        "HTTP://UPPER.example.invalid/%zz",
        "\u{1f600}://\n",
    ] {
        let sender = WebhookSender::new(String::from(url));
        assert_eq!(sender.url(), url);
    }
}

#[test]
fn request_goes_to_the_url_with_a_json_content_type() {
    let sender = WebhookSender::new(String::from("https://example.invalid/hook"));
    let request = sender.request("hi");
    assert_eq!(request.url, "https://example.invalid/hook");
    assert_eq!(request.content_type, "application/json");
    assert_eq!(JSON_CONTENT_TYPE, "application/json");
}

#[test]
fn request_body_is_the_document_of_the_message() {
    let sender = WebhookSender::new(String::from("https://example.invalid/hook"));
    let body = parsed(&sender.request("hello world").body);
    assert_eq!(body, parsed(HELLO_WORLD));
}

#[test]
fn request_body_has_one_attachment_and_one_block() {
    let sender = WebhookSender::new(String::from("https://example.invalid/hook"));
    for text in ["", "x", "[{},{}]", "\"},{\"", "a,b", "\u{0}"] {
        let body = parsed(&sender.request(text).body);
        let attachments = body["attachments"].as_array().unwrap();
        assert_eq!(attachments.len(), 1);
        let blocks = attachments[0]["content"]["body"].as_array().unwrap();
        assert_eq!(blocks.len(), 1);
        assert_eq!(blocks[0]["text"].as_str().unwrap(), text);
        assert_eq!(blocks[0]["type"].as_str().unwrap(), "TextBlock");
        assert_eq!(body.as_object().unwrap().len(), 2);
        assert_eq!(attachments[0].as_object().unwrap().len(), 3);
        assert_eq!(attachments[0]["content"].as_object().unwrap().len(), 4);
        assert_eq!(blocks[0].as_object().unwrap().len(), 2);
    }
}

#[test]
fn request_body_carries_text_that_needs_escapes() {
    let sender = WebhookSender::new(String::from("https://example.invalid/hook"));
    let text = "say \"hi\"\n\ttab \\ back\u{0}\u{1}\u{1f}\u{7f} \u{1f600}";
    let body = parsed(&sender.request(text).body);
    assert_eq!(body["attachments"][0]["content"]["body"][0]["text"].as_str().unwrap(), text);
    assert_eq!(body["type"].as_str().unwrap(), "message");
    assert_eq!(
        body["attachments"][0]["contentType"].as_str().unwrap(),
        "application/vnd.microsoft.card.adaptive"
    );
    assert_eq!(body["attachments"][0]["contentUrl"].as_str().unwrap(), "");
    assert_eq!(
        body["attachments"][0]["content"]["$schema"].as_str().unwrap(),
        "http://adaptivecards.io/schemas/adaptive-card.json"
    );
    assert_eq!(body["attachments"][0]["content"]["type"].as_str().unwrap(), "AdaptiveCard");
    assert_eq!(body["attachments"][0]["content"]["version"].as_str().unwrap(), "1,2");
}

#[test]
fn post_returns_what_the_transport_returned() {
    let sender = WebhookSender::new(String::from("https://example.invalid/hook"));
    for status in [200u16, 204, 302, 400, 404, 500, 503] {
        let outcome: Result<(u16, String), String> =
            sender.post("ping", |_request: PostRequest| Ok((status, format!("body {}", status))));
        assert_eq!(outcome, Ok((status, format!("body {}", status))));
    }
}

#[test]
fn post_hands_the_transport_the_request() {
    let sender = WebhookSender::new(String::from("https://example.invalid/hook"));
    let seen = sender.post("ping", |request: PostRequest| {
        (request.url, request.content_type, request.body)
    });
    let expected = sender.request("ping");
    assert_eq!(seen, (expected.url, expected.content_type, expected.body));
}

#[test]
fn post_reports_a_failed_connection_and_does_not_try_again() {
    let sender = WebhookSender::new(String::from("https://example.invalid/hook"));
    let attempts = Cell::new(0u32);
    let outcome: Result<u16, &str> = sender.post("ping", |_request: PostRequest| {
        attempts.set(attempts.get() + 1);
        Err("connection refused")
    });
    assert_eq!(outcome, Err("connection refused"));
    assert_eq!(attempts.get(), 1);
}

#[test]
fn post_to_an_echo_server_yields_the_document() {
    let sender = WebhookSender::new(String::from("https://example.invalid/hook"));
    let outcome: Result<(u16, String), String> =
        sender.post("hello world", |request: PostRequest| Ok((200, request.body)));
    let (status, body) = outcome.unwrap();
    assert_eq!(status, 200);
    assert_eq!(parsed(&body), parsed(HELLO_WORLD));
    assert_eq!(
        body,
        "{\"type\":\"message\",\"attachments\":[{\"contentType\":\
\"application/vnd.microsoft.card.adaptive\",\"contentUrl\":\"\",\"content\":{\"$schema\":\
\"http://adaptivecards.io/schemas/adaptive-card.json\",\"type\":\"AdaptiveCard\",\
\"version\":\"1,2\",\"body\":[{\"type\":\"TextBlock\",\"text\":\"hello world\"}]}}]}"
    );
}

#[test]
fn posting_twice_makes_two_requests_with_the_same_bytes() {
    let sender = WebhookSender::new(String::from("https://example.invalid/hook"));
    let attempts = Cell::new(0u32);
    let transport = |request: PostRequest| {
        attempts.set(attempts.get() + 1);
        request.body.into_bytes()
    };
    let first = sender.post("same \"message\"\n", transport);
    let second = sender.post("same \"message\"\n", transport);
    assert_eq!(attempts.get(), 2);
    assert_eq!(first, second);
    assert_eq!(sender.url(), "https://example.invalid/hook");
}

#[test]
fn post_through_a_malformed_url_still_builds_the_request() {
    let sender = WebhookSender::new(String::from("::not a url::"));
    let outcome: Result<u16, String> = sender.post("x", |request: PostRequest| {
        Err(format!("cannot reach {}", request.url))
    });
    assert_eq!(outcome, Err(String::from("cannot reach ::not a url::")));
}

#[test]
fn post_carries_a_very_long_message() {
    let sender = WebhookSender::new(String::from("https://example.invalid/hook"));
    let text = "long \"text\" ".repeat(100000);
    let body = sender.post(&text, |request: PostRequest| request.body);
    let document = parsed(&body);
    assert_eq!(
        document["attachments"][0]["content"]["body"][0]["text"].as_str().unwrap(),
        text
    );
}

fn shared_between_threads<T: Send + Sync>(_value: &T) -> bool {
    true
}

#[test]
fn sender_can_be_shared_between_threads() {
    let sender = WebhookSender::new(String::from("https://example.invalid/hook"));
    assert!(shared_between_threads(&sender));
    let first = &sender;
    let second = &sender;
    assert_eq!(first.request("a").body, second.request("a").body);
    assert_eq!(first.url(), second.url());
}

#[test]
fn post_returns_any_kind_of_outcome() {
    let sender = WebhookSender::new(String::from("https://example.invalid/hook"));
    let length: usize = sender.post("abc", |request: PostRequest| request.body.len());
    assert_eq!(length, sender.request("abc").body.len());
    let later = sender.post("abc", |request: PostRequest| move || request.url);
    assert_eq!(later(), "https://example.invalid/hook");
}

#[test]
fn requests_for_different_messages_differ_in_the_body_only() {
    let sender = WebhookSender::new(String::from("https://example.invalid/hook"));
    let first = sender.request("one");
    let second = sender.request("two");
    assert_eq!(first.url, second.url);
    assert_eq!(first.content_type, second.content_type);
    assert_ne!(first.body, second.body);
}
