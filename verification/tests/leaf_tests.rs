use podcheck::analyzer::{
    analyze_podcast_chapters, analyze_podcast_episode, analyze_podcast_location,
    analyze_podcast_locked, analyze_podcast_person, analyze_podcast_season,
    analyze_podcast_social_interact, analyze_podcast_soundbite, analyze_podcast_trailer,
    analyze_podcast_txt, analyze_podcast_value_recipient,
};
use podcheck::containers::{analyze_channel, analyze_podcast_alternate_enclosure,
    analyze_podcast_live_item};
use podcheck::diag::{node_value_key, Error, Namespace, TagName, Value};
use podcheck::feed::{
    AlternateEnclosure, Channel, Chapters, Decoded, Episode, Integrity, LiveItem, Location,
    Locked, Person, Season, SocialInteract, Soundbite, Source, Trailer, Txt, ValueRecipient,
};

fn podcast(local: &str) -> TagName {
    TagName(Some(Namespace::Podcast), local.to_string())
}

#[test]
fn soundbite_requires_both_times() {
    let s = Soundbite { start_time: None, duration: None };
    let n = analyze_podcast_soundbite(&s);
    assert_eq!(
        n.errors,
        vec![
            Error::MissingAttribute("startTime".to_string()),
            Error::MissingAttribute("duration".to_string()),
        ]
    );
}

#[test]
fn soundbite_keeps_decoded_times() {
    let s = Soundbite {
        start_time: Some(Decoded::Valid("73.5".to_string())),
        duration: Some(Decoded::Valid("60".to_string())),
    };
    let n = analyze_podcast_soundbite(&s);
    assert!(n.errors.is_empty());
    assert_eq!(
        n.attributes,
        vec![
            ("startTime".to_string(), Value::Object("73.5".to_string())),
            ("duration".to_string(), Value::Object("60".to_string())),
        ]
    );
}

#[test]
fn season_renders_number_and_name() {
    let s = Season { value: Some(Decoded::Valid(3)), name: Some("Egypt".to_string()) };
    let n = analyze_podcast_season(&s);
    assert_eq!(
        n.attributes,
        vec![
            (node_value_key(), Value::Object("3".to_string())),
            ("name".to_string(), Value::Text("Egypt".to_string())),
        ]
    );
}

#[test]
fn negative_numbers_render_with_sign() {
    let r = ValueRecipient {
        address: Some("a".to_string()),
        split: Some(Decoded::Valid(-7)),
        ..Default::default()
    };
    let n = analyze_podcast_value_recipient(&r);
    assert!(n.attributes.contains(&("split".to_string(), Value::Object("-7".to_string()))));
}

#[test]
fn episode_keeps_display_override() {
    let e = Episode {
        value: Some(Decoded::Valid("17.5".to_string())),
        display: Some("Ch.3".to_string()),
    };
    let n = analyze_podcast_episode(&e);
    assert_eq!(
        n.attributes,
        vec![
            (node_value_key(), Value::Object("17.5".to_string())),
            ("display".to_string(), Value::Text("Ch.3".to_string())),
        ]
    );
}

#[test]
fn txt_purpose_is_optional() {
    let t = Txt { value: Some("hello".to_string()), purpose: None };
    let n = analyze_podcast_txt(&t);
    assert!(n.errors.is_empty());
    assert_eq!(n.attributes, vec![(node_value_key(), Value::Text("hello".to_string()))]);

    let t2 = Txt {
        value: Some("abc".to_string()),
        purpose: Some(Decoded::Valid("verify".to_string())),
    };
    let n2 = analyze_podcast_txt(&t2);
    assert_eq!(
        n2.attributes,
        vec![
            (node_value_key(), Value::Text("abc".to_string())),
            ("purpose".to_string(), Value::Object("verify".to_string())),
        ]
    );
}

#[test]
fn locked_rejected_flag_carries_reason() {
    let l = Locked {
        value: Some(Decoded::Other("maybe".to_string(), Some("should be yes or no".to_string()))),
        owner: Some("me@example.com".to_string()),
    };
    let n = analyze_podcast_locked(&l);
    assert_eq!(
        n.errors,
        vec![Error::InvalidAttributeWithReason(
            node_value_key(),
            "maybe".to_string(),
            "should be yes or no".to_string(),
        )]
    );
    assert_eq!(
        n.attributes,
        vec![("owner".to_string(), Value::Text("me@example.com".to_string()))]
    );
}

#[test]
fn person_name_over_limit_is_flagged() {
    let name = "p".repeat(129);
    let p = Person { value: Some(name.clone()), ..Default::default() };
    let n = analyze_podcast_person(&p);
    assert_eq!(
        n.errors,
        vec![Error::AttributeExceedsMaxLength(node_value_key(), name, 128)]
    );
    assert!(n.attributes.is_empty());
}

#[test]
fn person_keeps_urls_and_roles() {
    let p = Person {
        value: Some("Alice".to_string()),
        group: Some(Decoded::Valid("cast".to_string())),
        role: Some(Decoded::Valid("host".to_string())),
        img: Some(Decoded::Valid("https://example.com/a.png".to_string())),
        href: Some(Decoded::Valid("https://example.com/".to_string())),
    };
    let n = analyze_podcast_person(&p);
    assert!(n.errors.is_empty());
    assert_eq!(
        n.attributes,
        vec![
            (node_value_key(), Value::Text("Alice".to_string())),
            ("group".to_string(), Value::Object("cast".to_string())),
            ("role".to_string(), Value::Object("host".to_string())),
            ("img".to_string(), Value::Url("https://example.com/a.png".to_string())),
            ("href".to_string(), Value::Url("https://example.com/".to_string())),
        ]
    );
}

#[test]
fn trailer_mime_type_is_quoted_text() {
    let t = Trailer {
        value: Some("Coming soon".to_string()),
        url: Some(Decoded::Valid("https://example.com/t.mp3".to_string())),
        pub_date: Some(Decoded::Valid("2021-04-01 08:00:00 +00:00".to_string())),
        length: Some(Decoded::Valid(4096)),
        mime_type: Some(Decoded::Valid("audio/mpeg".to_string())),
        season: Some(Decoded::Valid(2)),
    };
    let n = analyze_podcast_trailer(&t);
    assert!(n.errors.is_empty());
    assert_eq!(
        n.attributes,
        vec![
            (node_value_key(), Value::Text("Coming soon".to_string())),
            ("url".to_string(), Value::Url("https://example.com/t.mp3".to_string())),
            ("pubDate".to_string(), Value::Object("2021-04-01 08:00:00 +00:00".to_string())),
            ("length".to_string(), Value::Object("4096".to_string())),
            ("type".to_string(), Value::Text("audio/mpeg".to_string())),
            ("season".to_string(), Value::Object("2".to_string())),
        ]
    );
}

#[test]
fn trailer_bad_mime_type_has_no_reason() {
    let t = Trailer {
        value: Some("T".to_string()),
        url: Some(Decoded::Valid("https://example.com/t.mp3".to_string())),
        pub_date: None,
        length: None,
        mime_type: Some(Decoded::Other("audio/bogus".to_string(), None)),
        season: None,
    };
    let n = analyze_podcast_trailer(&t);
    assert_eq!(
        n.errors,
        vec![Error::InvalidAttribute("type".to_string(), "audio/bogus".to_string())]
    );
}

#[test]
fn chapters_requires_url_and_type() {
    let c = Chapters { url: None, mime_type: None };
    let n = analyze_podcast_chapters(&c);
    assert_eq!(
        n.errors,
        vec![
            Error::MissingAttribute("url".to_string()),
            Error::MissingAttribute("type".to_string()),
        ]
    );
}

#[test]
fn alternate_enclosure_rel_over_limit() {
    let rel = "r".repeat(33);
    let a = AlternateEnclosure {
        mime_type: Some(Decoded::Valid("audio/mpeg".to_string())),
        rel: Some(rel.clone()),
        source: vec![Source {
            uri: Some(Decoded::Valid("https://example.com/x.mp3".to_string())),
            mime_type: None,
        }],
        ..Default::default()
    };
    let n = analyze_podcast_alternate_enclosure(&a);
    assert_eq!(
        n.errors,
        vec![Error::AttributeExceedsMaxLength("rel".to_string(), rel, 32)]
    );
    assert_eq!(n.children.len(), 1);
    assert_eq!(n.children[0].name, podcast("source"));
}

#[test]
fn alternate_enclosure_needs_a_source_and_one_integrity() {
    let integrity = Integrity {
        integrity_type: Some(Decoded::Valid("sri".to_string())),
        value: Some("sha384-abc".to_string()),
    };
    let a = AlternateEnclosure {
        mime_type: Some(Decoded::Valid("audio/mpeg".to_string())),
        integrity: vec![integrity.clone(), integrity.clone()],
        ..Default::default()
    };
    let n = analyze_podcast_alternate_enclosure(&a);
    assert_eq!(
        n.errors,
        vec![
            Error::MissingChild(podcast("source")),
            Error::MultipleChildren(podcast("integrity")),
        ]
    );
    // Both integrity instances are still analyzed.
    assert_eq!(n.children.len(), 2);
}

#[test]
fn live_item_requires_status_start_end_and_content_link() {
    let li = LiveItem::default();
    let n = analyze_podcast_live_item(&li);
    assert_eq!(
        n.errors,
        vec![
            Error::MissingAttribute("status".to_string()),
            Error::MissingAttribute("start".to_string()),
            Error::MissingAttribute("end".to_string()),
            Error::MissingChild(TagName(None, "title".to_string())),
            Error::MissingChild(podcast("contentLink")),
        ]
    );
}

#[test]
fn live_item_valid_attributes_in_order() {
    let li = LiveItem {
        status: Some(Decoded::Valid("live".to_string())),
        start: Some(Decoded::Valid("2021-09-26 07:30:00 -06:00".to_string())),
        end: Some(Decoded::Valid("2021-09-26 09:30:00 -06:00".to_string())),
        title: vec!["Live!".to_string()],
        content_link: vec![podcheck::feed::ContentLink {
            value: Some("Listen here".to_string()),
            href: Some(Decoded::Valid("https://example.com/live".to_string())),
        }],
        ..Default::default()
    };
    let n = analyze_podcast_live_item(&li);
    assert!(n.errors.is_empty());
    assert_eq!(
        n.attributes,
        vec![
            ("status".to_string(), Value::Object("live".to_string())),
            ("start".to_string(), Value::Object("2021-09-26 07:30:00 -06:00".to_string())),
            ("end".to_string(), Value::Object("2021-09-26 09:30:00 -06:00".to_string())),
        ]
    );
    assert_eq!(n.children.len(), 2);
}

#[test]
fn social_interact_full_attribute_order() {
    let s = SocialInteract {
        uri: Some(Decoded::Valid("https://pod.example/@show/1".to_string())),
        protocol: Some(Decoded::Valid("activitypub".to_string())),
        account_id: Some("@show".to_string()),
        account_url: Some(Decoded::Valid("https://pod.example/@show".to_string())),
        priority: Some(Decoded::Valid(1)),
    };
    let n = analyze_podcast_social_interact(&s);
    assert!(n.errors.is_empty());
    assert_eq!(
        n.attributes,
        vec![
            ("uri".to_string(), Value::Url("https://pod.example/@show/1".to_string())),
            ("protocol".to_string(), Value::Object("activitypub".to_string())),
            ("accountId".to_string(), Value::Text("@show".to_string())),
            ("accountUrl".to_string(), Value::Url("https://pod.example/@show".to_string())),
            ("priority".to_string(), Value::Object("1".to_string())),
        ]
    );
}

#[test]
fn location_rejected_composites_carry_reasons() {
    let l = Location {
        value: None,
        geo: Some(Decoded::Other(
            "geo:bad".to_string(),
            Some("should have at most 2 commas".to_string()),
        )),
        osm: Some(Decoded::Other("X99".to_string(), Some("unknown object type".to_string()))),
    };
    let n = analyze_podcast_location(&l);
    assert_eq!(
        n.errors,
        vec![
            Error::MissingAttribute(node_value_key()),
            Error::InvalidAttributeWithReason(
                "geo".to_string(),
                "geo:bad".to_string(),
                "should have at most 2 commas".to_string(),
            ),
            Error::InvalidAttributeWithReason(
                "osm".to_string(),
                "X99".to_string(),
                "unknown object type".to_string(),
            ),
        ]
    );
    assert!(n.attributes.is_empty());
}

#[test]
fn channel_duplicate_location_keeps_both_instances() {
    let loc = Location { value: Some("Here".to_string()), geo: None, osm: None };
    let c = Channel {
        title: vec!["T".to_string()],
        location: vec![loc.clone(), loc.clone()],
        ..Default::default()
    };
    let n = analyze_channel(&c);
    let locations = n.children.iter().filter(|ch| ch.name == podcast("location")).count();
    assert_eq!(locations, 2);
    assert_eq!(n.errors, vec![Error::MultipleChildren(podcast("location"))]);
}
