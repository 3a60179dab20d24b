use podcheck::diag::{node_value_key, Error, Namespace, TagName};
use podcheck::messages::{error_extra_info, error_message};

#[test]
fn missing_value_message() {
    let e = Error::MissingAttribute(node_value_key());
    assert_eq!(error_message(&e), "Missing value");
}

#[test]
fn missing_attribute_message() {
    let e = Error::MissingAttribute("url".to_string());
    assert_eq!(error_message(&e), "Missing attribute «url»");
}

#[test]
fn invalid_value_message() {
    let e = Error::InvalidAttribute(node_value_key(), "oops".to_string());
    assert_eq!(error_message(&e), "Invalid value «oops»");
}

#[test]
fn invalid_attribute_message() {
    let e = Error::InvalidAttribute("type".to_string(), "text/bogus".to_string());
    assert_eq!(error_message(&e), "Attribute «type» has invalid value «text/bogus»");
}

#[test]
fn invalid_attribute_with_reason_message() {
    let e = Error::InvalidAttributeWithReason(
        "geo".to_string(),
        "geo:x".to_string(),
        "should have at most 2 commas".to_string(),
    );
    assert_eq!(
        error_message(&e),
        "Attribute «geo» has invalid value «geo:x»: should have at most 2 commas"
    );
}

#[test]
fn invalid_value_with_reason_message() {
    let e = Error::InvalidAttributeWithReason(
        node_value_key(),
        "maybe".to_string(),
        "should be a boolean".to_string(),
    );
    assert_eq!(error_message(&e), "Invalid value «maybe»: should be a boolean");
}

#[test]
fn missing_child_message() {
    let e = Error::MissingChild(TagName(None, "channel".to_string()));
    assert_eq!(error_message(&e), "Missing child «channel»");
}

#[test]
fn multiple_children_message_with_namespace() {
    let e = Error::MultipleChildren(TagName(Some(Namespace::Podcast), "locked".to_string()));
    assert_eq!(error_message(&e), "Only one child «podcast:locked» is allowed");
}

#[test]
fn value_exceeds_max_length_message() {
    let e = Error::AttributeExceedsMaxLength(node_value_key(), "long".to_string(), 128);
    assert_eq!(error_message(&e), "Value «long» exceeds maximum length of 128 characters");
}

#[test]
fn attribute_exceeds_max_length_message() {
    let e = Error::AttributeExceedsMaxLength("rel".to_string(), "long".to_string(), 32);
    assert_eq!(error_message(&e), "Attribute «rel» exceeds maximum length of 32 characters");
}

#[test]
fn custom_message_is_verbatim() {
    let e = Error::Custom("Something one-off".to_string());
    assert_eq!(error_message(&e), "Something one-off");
    assert_eq!(error_extra_info(&e), None);
}

#[test]
fn custom_with_extra_info_keeps_both_parts() {
    let e = Error::CustomWithExtraInfo("Main text".to_string(), "More details".to_string());
    assert_eq!(error_message(&e), "Main text");
    assert_eq!(error_extra_info(&e), Some("More details".to_string()));
}

#[test]
fn sentinel_key_never_echoed_in_sentinel_messages() {
    let cases = vec![
        Error::MissingAttribute(node_value_key()),
        Error::InvalidAttribute(node_value_key(), "raw".to_string()),
        Error::InvalidAttributeWithReason(
            node_value_key(),
            "raw".to_string(),
            "why".to_string(),
        ),
        Error::AttributeExceedsMaxLength(node_value_key(), "raw".to_string(), 128),
    ];
    for e in cases {
        assert!(!error_message(&e).contains("node value"));
    }
}

#[test]
fn tag_display_uses_namespace_prefix() {
    assert_eq!(TagName(Some(Namespace::Podcast), "guid".to_string()).display(), "podcast:guid");
    assert_eq!(TagName(None, "title".to_string()).display(), "title");
}
