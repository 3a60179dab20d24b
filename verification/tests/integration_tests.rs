use podcheck::containers::analyze_rss;
use podcheck::diag::{node_value_key, Error, Namespace, TagName, Value};
use podcheck::feed::{
    AlternateEnclosure, Channel, Decoded, Funding, Item, Rss, Soundbite, Source, Transcript,
    TranscriptType, ValueBlock, ValueRecipient,
};

fn podcast(local: &str) -> TagName {
    TagName(Some(Namespace::Podcast), local.to_string())
}

fn plain(local: &str) -> TagName {
    TagName(None, local.to_string())
}

/// One document exercising several levels of nesting at once: the tree
/// mirrors the document 1:1 and every diagnostic sits on the node whose
/// own rule failed.
#[test]
fn full_document_tree_shape_and_error_placement() {
    let recipient = ValueRecipient {
        recipient_type: Some(Decoded::Valid("node".to_string())),
        address: Some("02aaa".to_string()),
        split: Some(Decoded::Valid(100)),
        ..Default::default()
    };
    let value_block = ValueBlock {
        value_type: Some(Decoded::Valid("lightning".to_string())),
        method: Some(Decoded::Valid("keysend".to_string())),
        suggested: Some(Decoded::Valid("0.00000015".to_string())),
        recipient: vec![recipient],
    };
    let enclosure = AlternateEnclosure {
        mime_type: Some(Decoded::Valid("audio/mpeg".to_string())),
        length: Some(Decoded::Valid(43200000)),
        source: vec![
            Source {
                uri: Some(Decoded::Valid("https://example.com/ep1.mp3".to_string())),
                mime_type: None,
            },
            Source {
                uri: Some(Decoded::Other(
                    "ftp:/bad".to_string(),
                    Some("should be a URL".to_string()),
                )),
                mime_type: None,
            },
        ],
        ..Default::default()
    };
    let item = Item {
        title: vec!["Episode 1".to_string()],
        value: vec![value_block],
        transcript: vec![Transcript {
            url: Some(Decoded::Valid("https://example.com/t.srt".to_string())),
            mime_type: Some(TranscriptType::LegacySrt),
            language: None,
            rel: None,
        }],
        soundbite: vec![Soundbite { start_time: None, duration: None }],
        alternate_enclosure: vec![enclosure],
        ..Default::default()
    };
    let doc = Rss {
        channel: vec![Channel {
            title: vec!["My Show".to_string()],
            funding: vec![Funding {
                value: Some("Support the show".to_string()),
                url: Some(Decoded::Valid("https://example.com/donate".to_string())),
            }],
            item: vec![item],
            ..Default::default()
        }],
    };

    let root = analyze_rss(&doc);
    assert_eq!(root.name, plain("rss"));
    assert!(root.errors.is_empty());
    assert_eq!(root.children.len(), 1);

    let channel = &root.children[0];
    assert_eq!(channel.name, plain("channel"));
    assert!(channel.errors.is_empty());
    // title, funding, item — in document order.
    assert_eq!(channel.children.len(), 3);
    assert_eq!(channel.children[0].name, plain("title"));
    assert_eq!(channel.children[1].name, podcast("funding"));
    assert_eq!(channel.children[2].name, plain("item"));

    let item_node = &channel.children[2];
    assert!(item_node.errors.is_empty());
    // title, value, transcript, soundbite, alternateEnclosure.
    assert_eq!(item_node.children.len(), 5);
    assert_eq!(item_node.children[0].name, plain("title"));
    assert_eq!(item_node.children[1].name, podcast("value"));
    assert_eq!(item_node.children[2].name, podcast("transcript"));
    assert_eq!(item_node.children[3].name, podcast("soundbite"));
    assert_eq!(item_node.children[4].name, podcast("alternateEnclosure"));

    // The monetization block nests its recipient and carries no errors.
    let value_node = &item_node.children[1];
    assert!(value_node.errors.is_empty());
    assert_eq!(value_node.children.len(), 1);
    assert_eq!(value_node.children[0].name, podcast("valueRecipient"));
    assert!(value_node.children[0].errors.is_empty());
    assert_eq!(
        value_node.attributes,
        vec![
            ("type".to_string(), Value::Object("lightning".to_string())),
            ("method".to_string(), Value::Object("keysend".to_string())),
            ("suggested".to_string(), Value::Object("0.00000015".to_string())),
        ]
    );

    // The soundbite's problems stay on the soundbite node.
    let soundbite_node = &item_node.children[3];
    assert_eq!(soundbite_node.errors.len(), 2);

    // Both sources are analyzed; the bad URI is flagged on the second.
    let enclosure_node = &item_node.children[4];
    assert!(enclosure_node.errors.is_empty());
    assert_eq!(enclosure_node.children.len(), 2);
    assert!(enclosure_node.children[0].errors.is_empty());
    assert_eq!(
        enclosure_node.children[1].errors,
        vec![Error::InvalidAttributeWithReason(
            "uri".to_string(),
            "ftp:/bad".to_string(),
            "should be a URL".to_string(),
        )]
    );

    // Rollups: errors exist below the root, and the namespace is in use.
    assert!(root.descendants_have_errors());
    assert!(root.descendants_have_podcast_tags());
    // The funding subtree alone is clean.
    assert!(!channel.children[1].descendants_have_errors());
    assert_eq!(
        channel.children[1].attributes,
        vec![
            (node_value_key(), Value::Text("Support the show".to_string())),
            ("url".to_string(), Value::Url("https://example.com/donate".to_string())),
        ]
    );
}
