use podcheck::analyzer::{
    analyze_podcast_block, analyze_podcast_funding, analyze_podcast_guid,
    analyze_podcast_license, analyze_podcast_location, analyze_podcast_medium,
    analyze_podcast_transcript, analyze_podcast_value_recipient, analyze_title,
};
use podcheck::containers::{analyze_channel, analyze_item, analyze_podcast_value, analyze_rss};
use podcheck::diag::{node_value_key, Error, Namespace, Node, TagName, Value};
use podcheck::feed::{
    Block, Channel, Decoded, Funding, GeoData, ImageSource, Images, Item, License, LicenseValue,
    Location, Locked, OsmData, OsmType, Rss, Transcript, TranscriptType, ValueBlock,
    ValueRecipient,
};

fn plain(local: &str) -> TagName {
    TagName(None, local.to_string())
}

fn podcast(local: &str) -> TagName {
    TagName(Some(Namespace::Podcast), local.to_string())
}

#[test]
fn title_node_holds_text() {
    let n = analyze_title(&"My Show".to_string());
    assert_eq!(n.name, plain("title"));
    assert!(n.children.is_empty());
    assert!(n.errors.is_empty());
    assert_eq!(
        n.attributes,
        vec![(node_value_key(), Value::Text("My Show".to_string()))]
    );
}

#[test]
fn funding_message_at_limit_is_text() {
    let message = "x".repeat(128);
    let f = Funding {
        value: Some(message.clone()),
        url: Some(Decoded::Valid("https://example.com/donate".to_string())),
    };
    let n = analyze_podcast_funding(&f);
    assert!(n.errors.is_empty());
    assert_eq!(
        n.attributes,
        vec![
            (node_value_key(), Value::Text(message)),
            ("url".to_string(), Value::Url("https://example.com/donate".to_string())),
        ]
    );
}

#[test]
fn funding_message_over_limit_is_flagged_not_attached() {
    let message = "x".repeat(129);
    let f = Funding {
        value: Some(message.clone()),
        url: Some(Decoded::Valid("https://example.com/donate".to_string())),
    };
    let n = analyze_podcast_funding(&f);
    assert_eq!(
        n.errors,
        vec![Error::AttributeExceedsMaxLength(node_value_key(), message, 128)]
    );
    // The over-length value is not attached as a Text attribute.
    assert_eq!(
        n.attributes,
        vec![("url".to_string(), Value::Url("https://example.com/donate".to_string()))]
    );
}

#[test]
fn funding_missing_parts_are_reported() {
    let f = Funding { value: None, url: None };
    let n = analyze_podcast_funding(&f);
    assert_eq!(
        n.errors,
        vec![
            Error::MissingAttribute(node_value_key()),
            Error::MissingAttribute("url".to_string()),
        ]
    );
    assert!(n.attributes.is_empty());
}

#[test]
fn zero_channels_yields_missing_child_at_root() {
    let doc = Rss { channel: vec![] };
    let n = analyze_rss(&doc);
    assert_eq!(n.name, plain("rss"));
    assert!(n.children.is_empty());
    assert_eq!(n.errors, vec![Error::MissingChild(plain("channel"))]);
}

#[test]
fn two_channels_are_both_analyzed_and_flagged_once() {
    let c1 = Channel { title: vec!["One".to_string()], ..Default::default() };
    let c2 = Channel { title: vec!["Two".to_string()], ..Default::default() };
    let doc = Rss { channel: vec![c1.clone(), c2.clone()] };
    let n = analyze_rss(&doc);
    assert_eq!(n.children.len(), 2);
    assert_eq!(n.children[0], analyze_channel(&c1));
    assert_eq!(n.children[1], analyze_channel(&c2));
    assert_eq!(n.errors, vec![Error::MultipleChildren(plain("channel"))]);
}

#[test]
fn analysis_is_deterministic() {
    let doc = Rss {
        channel: vec![Channel {
            title: vec!["A show".to_string()],
            guid: vec![Decoded::Other(
                "not-a-guid".to_string(),
                Some("should be a UUID".to_string()),
            )],
            funding: vec![Funding {
                value: Some("Support us!".to_string()),
                url: Some(Decoded::Valid("https://example.com".to_string())),
            }],
            item: vec![Item { title: vec![], ..Default::default() }],
            ..Default::default()
        }],
    };
    assert_eq!(analyze_rss(&doc), analyze_rss(&doc));
}

#[test]
fn recipient_custom_key_without_value_names_the_other_field() {
    let r = ValueRecipient {
        address: Some("addr".to_string()),
        custom_key: Some("foo".to_string()),
        ..Default::default()
    };
    let n = analyze_podcast_value_recipient(&r);
    assert_eq!(n.errors, vec![Error::MissingAttribute("customValue".to_string())]);
}

#[test]
fn recipient_custom_value_without_key_names_the_other_field() {
    let r = ValueRecipient {
        address: Some("addr".to_string()),
        custom_value: Some("bar".to_string()),
        ..Default::default()
    };
    let n = analyze_podcast_value_recipient(&r);
    assert_eq!(n.errors, vec![Error::MissingAttribute("customKey".to_string())]);
}

#[test]
fn recipient_all_attributes_in_order() {
    let r = ValueRecipient {
        recipient_type: Some(Decoded::Valid("node".to_string())),
        address: Some("02abc".to_string()),
        split: Some(Decoded::Valid(95)),
        name: Some("Host".to_string()),
        custom_key: Some("k".to_string()),
        custom_value: Some("v".to_string()),
        fee: Some(Decoded::Valid(false)),
    };
    let n = analyze_podcast_value_recipient(&r);
    assert!(n.errors.is_empty());
    assert_eq!(
        n.attributes,
        vec![
            ("type".to_string(), Value::Object("node".to_string())),
            ("address".to_string(), Value::Text("02abc".to_string())),
            ("split".to_string(), Value::Object("95".to_string())),
            ("name".to_string(), Value::Text("Host".to_string())),
            ("customKey".to_string(), Value::Text("k".to_string())),
            ("customValue".to_string(), Value::Text("v".to_string())),
            ("fee".to_string(), Value::Object("false".to_string())),
        ]
    );
}

#[test]
fn transcript_legacy_srt_gets_dated_explanation() {
    let t = Transcript {
        url: Some(Decoded::Valid("https://example.com/t.srt".to_string())),
        mime_type: Some(TranscriptType::LegacySrt),
        language: None,
        rel: None,
    };
    let n = analyze_podcast_transcript(&t);
    let customs = n
        .errors
        .iter()
        .filter(|e| matches!(e, Error::CustomWithExtraInfo(_, _)))
        .count();
    let invalids = n
        .errors
        .iter()
        .filter(|e| {
            matches!(e, Error::InvalidAttribute(_, _))
                || matches!(e, Error::InvalidAttributeWithReason(_, _, _))
        })
        .count();
    assert_eq!(customs, 1);
    assert_eq!(invalids, 0);
    // No `type` attribute is attached.
    assert!(n.attributes.iter().all(|(k, _)| k != "type"));
}

#[test]
fn transcript_unknown_mime_type_is_invalid_without_reason() {
    let t = Transcript {
        url: Some(Decoded::Valid("https://example.com/t.vtt".to_string())),
        mime_type: Some(TranscriptType::Other("text/bogus".to_string())),
        language: None,
        rel: None,
    };
    let n = analyze_podcast_transcript(&t);
    assert_eq!(
        n.errors,
        vec![Error::InvalidAttribute("type".to_string(), "text/bogus".to_string())]
    );
}

#[test]
fn guid_rejection_carries_reason() {
    let g = Decoded::Other("xyz".to_string(), Some("should be a UUID".to_string()));
    let n = analyze_podcast_guid(&g);
    assert_eq!(
        n.errors,
        vec![Error::InvalidAttributeWithReason(
            node_value_key(),
            "xyz".to_string(),
            "should be a UUID".to_string(),
        )]
    );
    assert!(n.attributes.is_empty());
}

#[test]
fn medium_valid_value_is_object() {
    let n = analyze_podcast_medium(&Decoded::Valid("podcast".to_string()));
    assert_eq!(
        n.attributes,
        vec![(node_value_key(), Value::Object("podcast".to_string()))]
    );
    assert!(n.errors.is_empty());
}

#[test]
fn block_renders_boolean_canonically() {
    let b = Block { value: Some(Decoded::Valid(true)), id: None };
    let n = analyze_podcast_block(&b);
    assert_eq!(n.attributes, vec![(node_value_key(), Value::Object("true".to_string()))]);
}

#[test]
fn location_geo_and_osm_render_canonically() {
    let l = Location {
        value: Some("Lisbon".to_string()),
        geo: Some(Decoded::Valid(GeoData {
            latitude: "38.7".to_string(),
            longitude: "-9.1".to_string(),
            altitude: Some("10".to_string()),
            uncertainty: None,
        })),
        osm: Some(Decoded::Valid(OsmData {
            osm_type: OsmType::Relation,
            id: 5400890,
            revision: Some(12),
        })),
    };
    let n = analyze_podcast_location(&l);
    assert!(n.errors.is_empty());
    assert_eq!(
        n.attributes,
        vec![
            (node_value_key(), Value::Text("Lisbon".to_string())),
            (
                "geo".to_string(),
                Value::Object("{ latitude: 38.7, longitude: -9.1, altitude: 10 }".to_string())
            ),
            (
                "osm".to_string(),
                Value::Object("{ type: Relation, id: 5400890, revision: 12 }".to_string())
            ),
        ]
    );
}

#[test]
fn images_srcset_renders_each_entry() {
    let im = Images {
        srcset: Decoded::Valid(vec![
            ImageSource { url: "https://example.com/a.jpg".to_string(), width: 500 },
            ImageSource { url: "https://example.com/b.jpg".to_string(), width: 1000 },
        ]),
    };
    let n = podcheck::analyzer::analyze_podcast_images(&im);
    assert_eq!(
        n.attributes,
        vec![(
            "srcset".to_string(),
            Value::Object(
                "[ { url: \"https://example.com/a.jpg\", width: 500 }, { url: \"https://example.com/b.jpg\", width: 1000 } ]"
                    .to_string()
            )
        )]
    );
}

#[test]
fn license_free_form_without_url_requires_url() {
    let l = License {
        url: None,
        value: Some(LicenseValue::FreeForm("my-special-license".to_string())),
    };
    let n = analyze_podcast_license(&l);
    assert_eq!(
        n.attributes,
        vec![(node_value_key(), Value::Text("my-special-license".to_string()))]
    );
    assert_eq!(n.errors, vec![Error::MissingAttribute("url".to_string())]);
}

#[test]
fn license_free_form_over_limit_is_flagged() {
    let text = "L".repeat(129);
    let l = License { url: None, value: Some(LicenseValue::FreeForm(text.clone())) };
    let n = analyze_podcast_license(&l);
    assert_eq!(
        n.errors,
        vec![
            Error::AttributeExceedsMaxLength(node_value_key(), text, 128),
            Error::MissingAttribute("url".to_string()),
        ]
    );
    assert!(n.attributes.is_empty());
}

#[test]
fn value_block_requires_recipient_type_and_method() {
    let v = ValueBlock { value_type: None, method: None, suggested: None, recipient: vec![] };
    let n = analyze_podcast_value(&v);
    assert_eq!(
        n.errors,
        vec![
            Error::MissingChild(podcast("valueRecipient")),
            Error::MissingAttribute("type".to_string()),
            Error::MissingAttribute("method".to_string()),
        ]
    );
}

#[test]
fn item_missing_title_is_reported() {
    let it = Item::default();
    let n = analyze_item(&it);
    assert_eq!(n.name, plain("item"));
    assert_eq!(n.errors, vec![Error::MissingChild(plain("title"))]);
}

#[test]
fn channel_duplicate_locked_is_flagged_but_both_kept() {
    let locked = Locked { value: Some(Decoded::Valid(true)), owner: None };
    let c = Channel {
        title: vec!["T".to_string()],
        locked: vec![locked.clone(), locked.clone()],
        ..Default::default()
    };
    let n = analyze_channel(&c);
    // Both instances appear as children (title first).
    let locked_children = n
        .children
        .iter()
        .filter(|ch| ch.name == podcast("locked"))
        .count();
    assert_eq!(locked_children, 2);
    assert_eq!(n.errors, vec![Error::MultipleChildren(podcast("locked"))]);
}

#[test]
fn rollup_sees_errors_anywhere_in_the_subtree() {
    let doc = Rss {
        channel: vec![Channel {
            title: vec!["T".to_string()],
            funding: vec![Funding { value: None, url: None }],
            ..Default::default()
        }],
    };
    let n = analyze_rss(&doc);
    // The root and the channel have no errors of their own, yet the
    // rollup reports the funding problems below.
    assert!(n.errors.is_empty());
    assert!(n.descendants_have_errors());
}

#[test]
fn rollup_base_case_is_false_for_a_clean_leaf() {
    let n = analyze_title(&"ok".to_string());
    assert!(!n.descendants_have_errors());
    assert!(!n.descendants_have_podcast_tags());
}

#[test]
fn namespace_rollup_spots_a_deep_podcast_tag() {
    let doc = Rss {
        channel: vec![Channel {
            title: vec!["T".to_string()],
            medium: vec![Decoded::Valid("podcast".to_string())],
            ..Default::default()
        }],
    };
    let n = analyze_rss(&doc);
    assert!(n.descendants_have_podcast_tags());

    let clean = Rss { channel: vec![Channel { title: vec!["T".to_string()], ..Default::default() }] };
    let m = analyze_rss(&clean);
    assert!(!m.descendants_have_podcast_tags());
}

#[test]
fn clean_feed_has_no_errors_anywhere() {
    let doc = Rss { channel: vec![Channel { title: vec!["T".to_string()], ..Default::default() }] };
    let n = analyze_rss(&doc);
    assert!(!n.descendants_have_errors());
}

#[test]
fn node_tree_mirrors_document_order() {
    let c = Channel {
        title: vec!["T".to_string()],
        guid: vec![Decoded::Valid("g".to_string())],
        medium: vec![Decoded::Valid("podcast".to_string())],
        ..Default::default()
    };
    let n = analyze_channel(&c);
    assert_eq!(n.children.len(), 3);
    assert_eq!(n.children[0].name, plain("title"));
    assert_eq!(n.children[1].name, podcast("guid"));
    assert_eq!(n.children[2].name, podcast("medium"));
}
