use transcoder_core::gemini::normalized_model;
use transcoder_core::ids::{new_message_id, new_trace_id, tagged_id};

fn is_hex(s: &str) -> bool {
    s.len() == 32 && s.chars().all(|c| c.is_ascii_digit() || ('a'..='f').contains(&c))
}

#[test]
fn an_identifier_is_a_uuid_without_hyphens() {
    assert_eq!(
        tagged_id("tr-", "67e55044-10b1-426f-9247-bb680e5fe0c8"),
        "tr-67e5504410b1426f9247bb680e5fe0c8"
    );
    assert_eq!(tagged_id("-", "-"), "-");
}

#[test]
fn identifiers_are_new() {
    let (a, b) = (new_trace_id(), new_trace_id());
    assert!(a.starts_with("tr-") && is_hex(&a[3..]));
    assert_ne!(a, b);
    let m = new_message_id();
    assert!(m.starts_with("msg_") && is_hex(&m[4..]));
}

#[test]
fn the_method_is_no_part_of_the_model() {
    assert_eq!(normalized_model("gemini-3-flash-agent:streamGenerateContent"), "gemini-3-flash-agent");
    assert_eq!(normalized_model("gemini"), "gemini");
    assert_eq!(normalized_model("a:b:c"), "a");
    assert_eq!(normalized_model(":x"), "");
    assert_eq!(normalized_model(""), "");
    assert_eq!(normalized_model(&normalized_model("a:b")), "a");
}
