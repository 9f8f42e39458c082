use workers_connect::greet::{GreetReply, Greeter, Reverser};
use workers_connect::middleware::{RequestId, HEADER_NAME};

fn greet(name: &str) -> GreetReply {
    Greeter.greet(name, None)
}

fn reverse(text: &str) -> String {
    Reverser.reverse(text)
}

#[test]
fn greet_named_user() {
    assert_eq!(greet("Ada").greeting, "Hello, Ada!");
}

#[test]
fn greet_empty_name_falls_back_to_world() {
    assert_eq!(greet("").greeting, "Hello, world!");
}

#[test]
fn greet_preserves_unicode_name() {
    assert_eq!(greet("世界").greeting, "Hello, 世界!");
}

#[test]
fn reverse_ascii() {
    assert_eq!(reverse("hello"), "olleh");
}

#[test]
fn reverse_empty_string() {
    assert_eq!(reverse(""), "");
}

#[test]
fn reverse_is_involutive_on_ascii() {
    let once = reverse("ConnectRPC");
    let twice = reverse(&once);
    assert_eq!(twice, "ConnectRPC");
}

#[test]
fn reverse_handles_multibyte_codepoints() {
    assert_eq!(reverse("héllo"), "olléh");
    assert_eq!(reverse("日本語"), "語本日");
}

#[test]
fn greet_echoes_request_id_trailer_when_present() {
    let id = RequestId(b"trace-xyz".to_vec());
    let resp = Greeter.greet("Ada", Some(&id));
    assert_eq!(HEADER_NAME, "x-request-id");
    assert_eq!(
        std::str::from_utf8(&resp.request_id_trailer.expect("trailer must be set")).unwrap(),
        "trace-xyz"
    );
}

#[test]
fn greet_omits_trailer_when_no_request_id_in_extensions() {
    let resp = Greeter.greet("", None);
    assert!(resp.request_id_trailer.is_none());
}

#[test]
fn reverse_splits_combining_marks() {
    // "e" followed by a combining acute accent: the accent moves in front.
    assert_eq!(reverse("e\u{301}x"), "x\u{301}e");
}

#[test]
fn reverse_is_involutive_on_multibyte_text() {
    let text = "Grüße, 世界 🌍";
    assert_eq!(reverse(&reverse(text)), text);
}
