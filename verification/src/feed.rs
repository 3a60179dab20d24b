//! The typed document model that the validator consumes.
//!
//! A permissive decoder (outside this crate) turns raw feed markup into
//! these types: every optional field is a collection (possibly empty), and
//! every scalar field is either a successfully decoded value or a
//! [`Decoded::Other`] carrying the raw text and, when the decoder supplied
//! one, a human-readable rejection reason.  Values whose native form the
//! model cannot carry (floating-point numbers, dates, URLs, recognized
//! enumerations) appear as their canonical renderings, already produced by
//! the decoder layer.

use vstd::prelude::*;

verus! {

/// A decoded scalar: either the typed value or the rejected raw text with
/// an optional rejection reason.
#[derive(Clone, Debug, PartialEq, Eq)]
pub enum Decoded<T> {
    Valid(T),
    Other(String, Option<String>),
}

/// Geographic coordinates, each component as its canonical decimal
/// rendering.
#[derive(Clone, Debug, PartialEq, Eq)]
pub struct GeoData {
    pub latitude: String,
    pub longitude: String,
    pub altitude: Option<String>,
    pub uncertainty: Option<String>,
}

/// The kind of an OpenStreetMap object.
#[derive(Clone, Copy, Debug, PartialEq, Eq, Structural)]
pub enum OsmType {
    Node,
    Way,
    Relation,
}

/// A reference into the OpenStreetMap database.
#[derive(Clone, Debug, PartialEq, Eq)]
pub struct OsmData {
    pub osm_type: OsmType,
    pub id: u64,
    pub revision: Option<u64>,
}

/// One entry of an image source set: a URL and a pixel width.
#[derive(Clone, Debug, PartialEq, Eq)]
pub struct ImageSource {
    pub url: String,
    pub width: i64,
}

/// The decoded value of a license tag: either a recognized license
/// identifier (canonically rendered) or free-form license text.
#[derive(Clone, Debug, PartialEq, Eq)]
pub enum LicenseValue {
    Known(String),
    FreeForm(String),
}

/// The decoded MIME type of a transcript tag.  The legacy SubRip value is
/// kept apart from both the recognized and the rejected types, since it is
/// flagged with a dedicated explanation.
#[derive(Clone, Debug, PartialEq, Eq)]
pub enum TranscriptType {
    LegacySrt,
    Known(String),
    Other(String),
}

/// Free-form text tag (`podcast:txt`).
#[derive(Clone, Debug, Default, PartialEq, Eq)]
pub struct Txt {
    pub value: Option<String>,
    pub purpose: Option<Decoded<String>>,
}

/// Platform allow/deny tag (`podcast:block`).
#[derive(Clone, Debug, Default, PartialEq, Eq)]
pub struct Block {
    pub value: Option<Decoded<bool>>,
    pub id: Option<Decoded<String>>,
}

/// Feed-import lock tag (`podcast:locked`).
#[derive(Clone, Debug, Default, PartialEq, Eq)]
pub struct Locked {
    pub value: Option<Decoded<bool>>,
    pub owner: Option<String>,
}

/// Donation link tag (`podcast:funding`).
#[derive(Clone, Debug, Default, PartialEq, Eq)]
pub struct Funding {
    pub value: Option<String>,
    pub url: Option<Decoded<String>>,
}

/// Editorial-focus location tag (`podcast:location`).
#[derive(Clone, Debug, Default, PartialEq, Eq)]
pub struct Location {
    pub value: Option<String>,
    pub geo: Option<Decoded<GeoData>>,
    pub osm: Option<Decoded<OsmData>>,
}

/// People credit tag (`podcast:person`).
#[derive(Clone, Debug, Default, PartialEq, Eq)]
pub struct Person {
    pub value: Option<String>,
    pub group: Option<Decoded<String>>,
    pub role: Option<Decoded<String>>,
    pub img: Option<Decoded<String>>,
    pub href: Option<Decoded<String>>,
}

/// Trailer tag (`podcast:trailer`).
#[derive(Clone, Debug, Default, PartialEq, Eq)]
pub struct Trailer {
    pub value: Option<String>,
    pub url: Option<Decoded<String>>,
    pub pub_date: Option<Decoded<String>>,
    pub length: Option<Decoded<i64>>,
    pub mime_type: Option<Decoded<String>>,
    pub season: Option<Decoded<i64>>,
}

/// License tag (`podcast:license`).
#[derive(Clone, Debug, Default, PartialEq, Eq)]
pub struct License {
    pub url: Option<Decoded<String>>,
    pub value: Option<LicenseValue>,
}

/// Image source-set tag (`podcast:images`).
#[derive(Clone, Debug, PartialEq, Eq)]
pub struct Images {
    pub srcset: Decoded<Vec<ImageSource>>,
}

/// Transcript tag (`podcast:transcript`).
#[derive(Clone, Debug, Default, PartialEq, Eq)]
pub struct Transcript {
    pub url: Option<Decoded<String>>,
    pub mime_type: Option<TranscriptType>,
    pub language: Option<Decoded<String>>,
    pub rel: Option<Decoded<String>>,
}

/// Chapters-metadata tag (`podcast:chapters`).
#[derive(Clone, Debug, Default, PartialEq, Eq)]
pub struct Chapters {
    pub url: Option<Decoded<String>>,
    pub mime_type: Option<Decoded<String>>,
}

/// Soundbite tag (`podcast:soundbite`); the times are canonical decimal
/// renderings of seconds.
#[derive(Clone, Debug, Default, PartialEq, Eq)]
pub struct Soundbite {
    pub start_time: Option<Decoded<String>>,
    pub duration: Option<Decoded<String>>,
}

/// Season-number tag (`podcast:season`).
#[derive(Clone, Debug, Default, PartialEq, Eq)]
pub struct Season {
    pub value: Option<Decoded<i64>>,
    pub name: Option<String>,
}

/// Episode-number tag (`podcast:episode`); the number keeps its canonical
/// rendering since it may be fractional.
#[derive(Clone, Debug, Default, PartialEq, Eq)]
pub struct Episode {
    pub value: Option<Decoded<String>>,
    pub display: Option<String>,
}

/// Media source tag (`podcast:source`) inside an alternate enclosure.
#[derive(Clone, Debug, Default, PartialEq, Eq)]
pub struct Source {
    pub uri: Option<Decoded<String>>,
    pub mime_type: Option<Decoded<String>>,
}

/// Integrity tag (`podcast:integrity`) inside an alternate enclosure.
#[derive(Clone, Debug, Default, PartialEq, Eq)]
pub struct Integrity {
    pub integrity_type: Option<Decoded<String>>,
    pub value: Option<String>,
}

/// Alternate media enclosure tag (`podcast:alternateEnclosure`).
#[derive(Clone, Debug, Default, PartialEq, Eq)]
pub struct AlternateEnclosure {
    pub mime_type: Option<Decoded<String>>,
    pub length: Option<Decoded<i64>>,
    pub bit_rate: Option<Decoded<String>>,
    pub height: Option<Decoded<i64>>,
    pub language: Option<String>,
    pub title: Option<String>,
    pub rel: Option<String>,
    pub default: Option<Decoded<bool>>,
    pub source: Vec<Source>,
    pub integrity: Vec<Integrity>,
}

/// Social-interaction link tag (`podcast:socialInteract`).
#[derive(Clone, Debug, Default, PartialEq, Eq)]
pub struct SocialInteract {
    pub uri: Option<Decoded<String>>,
    pub protocol: Option<Decoded<String>>,
    pub account_id: Option<String>,
    pub account_url: Option<Decoded<String>>,
    pub priority: Option<Decoded<i64>>,
}

/// Stream location tag (`podcast:contentLink`) inside a live item.
#[derive(Clone, Debug, Default, PartialEq, Eq)]
pub struct ContentLink {
    pub value: Option<String>,
    pub href: Option<Decoded<String>>,
}

/// Monetization recipient tag (`podcast:valueRecipient`).
#[derive(Clone, Debug, Default, PartialEq, Eq)]
pub struct ValueRecipient {
    pub recipient_type: Option<Decoded<String>>,
    pub address: Option<String>,
    pub split: Option<Decoded<i64>>,
    pub name: Option<String>,
    pub custom_key: Option<String>,
    pub custom_value: Option<String>,
    pub fee: Option<Decoded<bool>>,
}

/// Monetization block tag (`podcast:value`); `suggested` keeps its
/// canonical rendering since it is fractional.
#[derive(Clone, Debug, Default, PartialEq, Eq)]
pub struct ValueBlock {
    pub value_type: Option<Decoded<String>>,
    pub method: Option<Decoded<String>>,
    pub suggested: Option<Decoded<String>>,
    pub recipient: Vec<ValueRecipient>,
}

/// Live episode tag (`podcast:liveItem`).
#[derive(Clone, Debug, Default, PartialEq, Eq)]
pub struct LiveItem {
    pub status: Option<Decoded<String>>,
    pub start: Option<Decoded<String>>,
    pub end: Option<Decoded<String>>,
    pub title: Vec<String>,
    pub content_link: Vec<ContentLink>,
    pub value: Vec<ValueBlock>,
    pub person: Vec<Person>,
    pub location: Vec<Location>,
    pub images: Vec<Images>,
    pub txt: Vec<Txt>,
    pub transcript: Vec<Transcript>,
    pub chapters: Vec<Chapters>,
    pub soundbite: Vec<Soundbite>,
    pub season: Vec<Season>,
    pub episode: Vec<Episode>,
    pub license: Vec<License>,
    pub alternate_enclosure: Vec<AlternateEnclosure>,
    pub social_interact: Vec<SocialInteract>,
}

/// Episode container (`item`).
#[derive(Clone, Debug, Default, PartialEq, Eq)]
pub struct Item {
    pub title: Vec<String>,
    pub value: Vec<ValueBlock>,
    pub person: Vec<Person>,
    pub location: Vec<Location>,
    pub images: Vec<Images>,
    pub txt: Vec<Txt>,
    pub transcript: Vec<Transcript>,
    pub chapters: Vec<Chapters>,
    pub soundbite: Vec<Soundbite>,
    pub season: Vec<Season>,
    pub episode: Vec<Episode>,
    pub license: Vec<License>,
    pub alternate_enclosure: Vec<AlternateEnclosure>,
    pub social_interact: Vec<SocialInteract>,
}

/// Feed container (`channel`).
#[derive(Clone, Debug, Default, PartialEq, Eq)]
pub struct Channel {
    pub title: Vec<String>,
    pub guid: Vec<Decoded<String>>,
    pub medium: Vec<Decoded<String>>,
    pub txt: Vec<Txt>,
    pub block: Vec<Block>,
    pub locked: Vec<Locked>,
    pub funding: Vec<Funding>,
    pub location: Vec<Location>,
    pub person: Vec<Person>,
    pub trailer: Vec<Trailer>,
    pub license: Vec<License>,
    pub value: Vec<ValueBlock>,
    pub images: Vec<Images>,
    pub item: Vec<Item>,
    pub live_item: Vec<LiveItem>,
}

/// The decoded document: the top-level `rss` element.
#[derive(Clone, Debug, Default, PartialEq, Eq)]
pub struct Rss {
    pub channel: Vec<Channel>,
}

} // verus!
