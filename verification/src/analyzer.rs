//! The analyzer: one pure function per tag type, each consuming one
//! instance of the typed document model and producing one diagnostic
//! [`Node`].  Container analyzers recursively invoke child analyzers;
//! every analyzer returns a (possibly error-laden) node and never aborts.
//!
//! Each executable analyzer has a spec twin (`spec_analyze_*`) that states
//! the exact node it returns; the `ensures` clauses tie the two together.

use vstd::prelude::*;

use crate::diag::{
    attrs_view, errs_view, lemma_attrs_view_push, lemma_errs_view_push, nodes_view,
    spec_node_value_key, Error, ErrorS, Namespace, Node, NodeS, TagName, TagNameS, Value, ValueS,
};
use vstd::string::StrSliceExecFns;
use crate::feed::{
    Block, Chapters, ContentLink, Decoded, Episode, Funding, Integrity, License, LicenseValue,
    Locked, Person, Season, SocialInteract, Soundbite, Source, Trailer, Transcript,
    TranscriptType, Txt, ValueRecipient,
};
use crate::feed::{GeoData, ImageSource, Images, Location, OsmData, OsmType};
use crate::numfmt::{spec_bool_str, spec_dec_int, spec_dec_nat, bool_to_str, i64_to_dec, u64_to_dec};

verus! {

// ---------------------------------------------------------------------------
// Tag names
// ---------------------------------------------------------------------------
/// A tag of the validated namespace.
pub open spec fn spec_podcast_tag(local: Seq<char>) -> TagNameS {
    TagNameS { ns: Some(Namespace::Podcast), local }
}

/// A plain RSS tag.
pub open spec fn spec_plain_tag(local: Seq<char>) -> TagNameS {
    TagNameS { ns: None, local }
}

pub(crate) fn podcast_tag(local: &str) -> (t: TagName)
    ensures
        t@ == spec_podcast_tag(local@),
{
    TagName(Some(Namespace::Podcast), String::from_str(local))
}

pub(crate) fn plain_tag(local: &str) -> (t: TagName)
    ensures
        t@ == spec_plain_tag(local@),
{
    TagName(None, String::from_str(local))
}

pub(crate) fn key_str(s: &str) -> (k: String)
    ensures
        k@ == s@,
{
    String::from_str(s)
}

// ---------------------------------------------------------------------------
// Attribute helpers
// ---------------------------------------------------------------------------
/// Which [`Value`] constructor an attribute uses when its value is
/// accepted.
#[derive(Clone, Copy, Debug, PartialEq, Eq, Structural)]
pub enum AttrKind {
    Text,
    Object,
    Url,
}

/// The attribute value of the given kind.
pub open spec fn spec_mk_value(kind: AttrKind, s: Seq<char>) -> ValueS {
    match kind {
        AttrKind::Text => ValueS::Text(s),
        AttrKind::Object => ValueS::Object(s),
        AttrKind::Url => ValueS::Url(s),
    }
}

pub(crate) fn mk_value(kind: AttrKind, s: String) -> (v: Value)
    ensures
        v@ == spec_mk_value(kind, s@),
{
    match kind {
        AttrKind::Text => Value::Text(s),
        AttrKind::Object => Value::Object(s),
        AttrKind::Url => Value::Url(s),
    }
}

/// The error for a rejected attribute value: with the decoder's reason
/// when one was supplied, without it otherwise.
pub open spec fn spec_invalid_err(key: Seq<char>, raw: Seq<char>, reason: Option<String>) -> ErrorS {
    match reason {
        Some(r) => ErrorS::InvalidAttributeWithReason(key, raw, r@),
        None => ErrorS::InvalidAttribute(key, raw),
    }
}

pub(crate) fn push_invalid(errors: &mut Vec<Error>, key: String, raw: &String, reason: &Option<String>)
    ensures
        errs_view(final(errors)@) == errs_view(old(errors)@) + seq![
            spec_invalid_err(key@, raw@, *reason),
        ],
{
    let e = match reason {
        Some(r) => Error::InvalidAttributeWithReason(key, raw.clone(), r.clone()),
        None => Error::InvalidAttribute(key, raw.clone()),
    };
    let ghost prev = errors@;
    errors.push(e);
    proof {
        lemma_errs_view_push(prev, e);
        assert(errs_view(errors@) =~= errs_view(prev) + seq![spec_invalid_err(key@, raw@, *reason)]);
    }
}

/// What a decoded string-valued attribute contributes: the rendered
/// attribute on success, a rejection diagnostic on failure, and a missing
/// diagnostic when a required attribute is absent.
pub open spec fn spec_decoded_attr(
    key: Seq<char>,
    d: Option<Decoded<String>>,
    kind: AttrKind,
    required: bool,
) -> (Seq<(Seq<char>, ValueS)>, Seq<ErrorS>) {
    match d {
        Some(Decoded::Valid(s)) => (seq![(key, spec_mk_value(kind, s@))], seq![]),
        Some(Decoded::Other(raw, reason)) => (seq![], seq![spec_invalid_err(key, raw@, reason)]),
        None => {
            if required {
                (seq![], seq![ErrorS::MissingAttribute(key)])
            } else {
                (seq![], seq![])
            }
        },
    }
}

pub(crate) fn decoded_attr(
    attrs: &mut Vec<(String, Value)>,
    errors: &mut Vec<Error>,
    key: String,
    d: &Option<Decoded<String>>,
    kind: AttrKind,
    required: bool,
)
    ensures
        attrs_view(final(attrs)@) == attrs_view(old(attrs)@) + spec_decoded_attr(
            key@,
            *d,
            kind,
            required,
        ).0,
        errs_view(final(errors)@) == errs_view(old(errors)@) + spec_decoded_attr(
            key@,
            *d,
            kind,
            required,
        ).1,
{
    let ghost prev_attrs = attrs@;
    let ghost prev_errors = errors@;
    match d {
        Some(Decoded::Valid(s)) => {
            let ghost gkey = key@;
            let a = (key, mk_value(kind, s.clone()));
            attrs.push(a);
            proof {
                lemma_attrs_view_push(prev_attrs, a);
                assert(attrs_view(attrs@) =~= attrs_view(prev_attrs) + spec_decoded_attr(
                    gkey,
                    *d,
                    kind,
                    required,
                ).0);
                assert(errs_view(errors@) =~= errs_view(prev_errors) + Seq::<ErrorS>::empty());
            }
        },
        Some(Decoded::Other(raw, reason)) => {
            push_invalid(errors, key, raw, reason);
            proof {
                assert(attrs_view(attrs@) =~= attrs_view(prev_attrs) + Seq::<
                    (Seq<char>, ValueS),
                >::empty());
            }
        },
        None => {
            if required {
                let ghost gkey = key@;
                let e = Error::MissingAttribute(key);
                errors.push(e);
                proof {
                    lemma_errs_view_push(prev_errors, e);
                    assert(errs_view(errors@) =~= errs_view(prev_errors) + seq![
                        ErrorS::MissingAttribute(gkey),
                    ]);
                }
            }
            proof {
                assert(attrs_view(attrs@) =~= attrs_view(prev_attrs) + Seq::<
                    (Seq<char>, ValueS),
                >::empty());
                if !required {
                    assert(errs_view(errors@) =~= errs_view(prev_errors) + Seq::<ErrorS>::empty());
                }
            }
        },
    }
}

/// What a decoded boolean attribute contributes.
pub open spec fn spec_bool_attr(key: Seq<char>, d: Option<Decoded<bool>>, required: bool) -> (
    Seq<(Seq<char>, ValueS)>,
    Seq<ErrorS>,
) {
    match d {
        Some(Decoded::Valid(b)) => (seq![(key, ValueS::Object(spec_bool_str(b)))], seq![]),
        Some(Decoded::Other(raw, reason)) => (seq![], seq![spec_invalid_err(key, raw@, reason)]),
        None => {
            if required {
                (seq![], seq![ErrorS::MissingAttribute(key)])
            } else {
                (seq![], seq![])
            }
        },
    }
}

pub(crate) fn bool_attr(
    attrs: &mut Vec<(String, Value)>,
    errors: &mut Vec<Error>,
    key: String,
    d: &Option<Decoded<bool>>,
    required: bool,
)
    ensures
        attrs_view(final(attrs)@) == attrs_view(old(attrs)@) + spec_bool_attr(key@, *d, required).0,
        errs_view(final(errors)@) == errs_view(old(errors)@) + spec_bool_attr(key@, *d, required).1,
{
    let ghost prev_attrs = attrs@;
    let ghost prev_errors = errors@;
    match d {
        Some(Decoded::Valid(b)) => {
            let ghost gkey = key@;
            let a = (key, Value::Object(bool_to_str(*b)));
            attrs.push(a);
            proof {
                lemma_attrs_view_push(prev_attrs, a);
                assert(attrs_view(attrs@) =~= attrs_view(prev_attrs) + spec_bool_attr(
                    gkey,
                    *d,
                    required,
                ).0);
                assert(errs_view(errors@) =~= errs_view(prev_errors) + Seq::<ErrorS>::empty());
            }
        },
        Some(Decoded::Other(raw, reason)) => {
            push_invalid(errors, key, raw, reason);
            proof {
                assert(attrs_view(attrs@) =~= attrs_view(prev_attrs) + Seq::<
                    (Seq<char>, ValueS),
                >::empty());
            }
        },
        None => {
            if required {
                let ghost gkey = key@;
                let e = Error::MissingAttribute(key);
                errors.push(e);
                proof {
                    lemma_errs_view_push(prev_errors, e);
                    assert(errs_view(errors@) =~= errs_view(prev_errors) + spec_bool_attr(
                        gkey,
                        *d,
                        required,
                    ).1);
                }
            }
            proof {
                assert(attrs_view(attrs@) =~= attrs_view(prev_attrs) + Seq::<
                    (Seq<char>, ValueS),
                >::empty());
                if !required {
                    assert(errs_view(errors@) =~= errs_view(prev_errors) + Seq::<ErrorS>::empty());
                }
            }
        },
    }
}

/// What a decoded integer attribute contributes.
pub open spec fn spec_int_attr(key: Seq<char>, d: Option<Decoded<i64>>, required: bool) -> (
    Seq<(Seq<char>, ValueS)>,
    Seq<ErrorS>,
) {
    match d {
        Some(Decoded::Valid(i)) => (seq![(key, ValueS::Object(spec_dec_int(i as int)))], seq![]),
        Some(Decoded::Other(raw, reason)) => (seq![], seq![spec_invalid_err(key, raw@, reason)]),
        None => {
            if required {
                (seq![], seq![ErrorS::MissingAttribute(key)])
            } else {
                (seq![], seq![])
            }
        },
    }
}

pub(crate) fn int_attr(
    attrs: &mut Vec<(String, Value)>,
    errors: &mut Vec<Error>,
    key: String,
    d: &Option<Decoded<i64>>,
    required: bool,
)
    ensures
        attrs_view(final(attrs)@) == attrs_view(old(attrs)@) + spec_int_attr(key@, *d, required).0,
        errs_view(final(errors)@) == errs_view(old(errors)@) + spec_int_attr(key@, *d, required).1,
{
    let ghost prev_attrs = attrs@;
    let ghost prev_errors = errors@;
    match d {
        Some(Decoded::Valid(i)) => {
            let ghost gkey = key@;
            let a = (key, Value::Object(i64_to_dec(*i)));
            attrs.push(a);
            proof {
                lemma_attrs_view_push(prev_attrs, a);
                assert(attrs_view(attrs@) =~= attrs_view(prev_attrs) + spec_int_attr(
                    gkey,
                    *d,
                    required,
                ).0);
                assert(errs_view(errors@) =~= errs_view(prev_errors) + Seq::<ErrorS>::empty());
            }
        },
        Some(Decoded::Other(raw, reason)) => {
            push_invalid(errors, key, raw, reason);
            proof {
                assert(attrs_view(attrs@) =~= attrs_view(prev_attrs) + Seq::<
                    (Seq<char>, ValueS),
                >::empty());
            }
        },
        None => {
            if required {
                let ghost gkey = key@;
                let e = Error::MissingAttribute(key);
                errors.push(e);
                proof {
                    lemma_errs_view_push(prev_errors, e);
                    assert(errs_view(errors@) =~= errs_view(prev_errors) + spec_int_attr(
                        gkey,
                        *d,
                        required,
                    ).1);
                }
            }
            proof {
                assert(attrs_view(attrs@) =~= attrs_view(prev_attrs) + Seq::<
                    (Seq<char>, ValueS),
                >::empty());
                if !required {
                    assert(errs_view(errors@) =~= errs_view(prev_errors) + Seq::<ErrorS>::empty());
                }
            }
        },
    }
}

/// What a plain text attribute contributes.
pub open spec fn spec_text_attr(key: Seq<char>, v: Option<String>, required: bool) -> (
    Seq<(Seq<char>, ValueS)>,
    Seq<ErrorS>,
) {
    match v {
        Some(s) => (seq![(key, ValueS::Text(s@))], seq![]),
        None => {
            if required {
                (seq![], seq![ErrorS::MissingAttribute(key)])
            } else {
                (seq![], seq![])
            }
        },
    }
}

pub(crate) fn text_attr(
    attrs: &mut Vec<(String, Value)>,
    errors: &mut Vec<Error>,
    key: String,
    v: &Option<String>,
    required: bool,
)
    ensures
        attrs_view(final(attrs)@) == attrs_view(old(attrs)@) + spec_text_attr(key@, *v, required).0,
        errs_view(final(errors)@) == errs_view(old(errors)@) + spec_text_attr(key@, *v, required).1,
{
    let ghost prev_attrs = attrs@;
    let ghost prev_errors = errors@;
    match v {
        Some(s) => {
            let ghost gkey = key@;
            let a = (key, Value::Text(s.clone()));
            attrs.push(a);
            proof {
                lemma_attrs_view_push(prev_attrs, a);
                assert(attrs_view(attrs@) =~= attrs_view(prev_attrs) + spec_text_attr(
                    gkey,
                    *v,
                    required,
                ).0);
                assert(errs_view(errors@) =~= errs_view(prev_errors) + Seq::<ErrorS>::empty());
            }
        },
        None => {
            if required {
                let ghost gkey = key@;
                let e = Error::MissingAttribute(key);
                errors.push(e);
                proof {
                    lemma_errs_view_push(prev_errors, e);
                    assert(errs_view(errors@) =~= errs_view(prev_errors) + spec_text_attr(
                        gkey,
                        *v,
                        required,
                    ).1);
                }
            }
            proof {
                assert(attrs_view(attrs@) =~= attrs_view(prev_attrs) + Seq::<
                    (Seq<char>, ValueS),
                >::empty());
                if !required {
                    assert(errs_view(errors@) =~= errs_view(prev_errors) + Seq::<ErrorS>::empty());
                }
            }
        },
    }
}

/// What a length-limited free-text attribute contributes: an over-length
/// value yields a diagnostic instead of being attached as an attribute.
pub open spec fn spec_text_attr_max(
    key: Seq<char>,
    v: Option<String>,
    required: bool,
    max: int,
) -> (Seq<(Seq<char>, ValueS)>, Seq<ErrorS>) {
    match v {
        Some(s) => {
            if s@.len() > max {
                (seq![], seq![ErrorS::AttributeExceedsMaxLength(key, s@, max)])
            } else {
                (seq![(key, ValueS::Text(s@))], seq![])
            }
        },
        None => {
            if required {
                (seq![], seq![ErrorS::MissingAttribute(key)])
            } else {
                (seq![], seq![])
            }
        },
    }
}

pub(crate) fn text_attr_max(
    attrs: &mut Vec<(String, Value)>,
    errors: &mut Vec<Error>,
    key: String,
    v: &Option<String>,
    required: bool,
    max: usize,
)
    ensures
        attrs_view(final(attrs)@) == attrs_view(old(attrs)@) + spec_text_attr_max(
            key@,
            *v,
            required,
            max as int,
        ).0,
        errs_view(final(errors)@) == errs_view(old(errors)@) + spec_text_attr_max(
            key@,
            *v,
            required,
            max as int,
        ).1,
{
    let ghost prev_attrs = attrs@;
    let ghost prev_errors = errors@;
    match v {
        Some(s) => {
            if s.as_str().unicode_len() > max {
                let ghost gkey = key@;
                let e = Error::AttributeExceedsMaxLength(key, s.clone(), max);
                errors.push(e);
                proof {
                    lemma_errs_view_push(prev_errors, e);
                    assert(errs_view(errors@) =~= errs_view(prev_errors) + spec_text_attr_max(
                        gkey,
                        *v,
                        required,
                        max as int,
                    ).1);
                    assert(attrs_view(attrs@) =~= attrs_view(prev_attrs) + Seq::<
                        (Seq<char>, ValueS),
                    >::empty());
                }
            } else {
                let ghost gkey = key@;
                let a = (key, Value::Text(s.clone()));
                attrs.push(a);
                proof {
                    lemma_attrs_view_push(prev_attrs, a);
                    assert(attrs_view(attrs@) =~= attrs_view(prev_attrs) + spec_text_attr_max(
                        gkey,
                        *v,
                        required,
                        max as int,
                    ).0);
                    assert(errs_view(errors@) =~= errs_view(prev_errors) + Seq::<ErrorS>::empty());
                }
            }
        },
        None => {
            if required {
                let ghost gkey = key@;
                let e = Error::MissingAttribute(key);
                errors.push(e);
                proof {
                    lemma_errs_view_push(prev_errors, e);
                    assert(errs_view(errors@) =~= errs_view(prev_errors) + spec_text_attr_max(
                        gkey,
                        *v,
                        required,
                        max as int,
                    ).1);
                }
            }
            proof {
                assert(attrs_view(attrs@) =~= attrs_view(prev_attrs) + Seq::<
                    (Seq<char>, ValueS),
                >::empty());
                if !required {
                    assert(errs_view(errors@) =~= errs_view(prev_errors) + Seq::<ErrorS>::empty());
                }
            }
        },
    }
}

// ---------------------------------------------------------------------------
// Cardinality checks
// ---------------------------------------------------------------------------
/// The diagnostics for a child tag required exactly once.
pub open spec fn spec_exactly_one_errs(count: nat, t: TagNameS) -> Seq<ErrorS> {
    if count == 0 {
        seq![ErrorS::MissingChild(t)]
    } else if count > 1 {
        seq![ErrorS::MultipleChildren(t)]
    } else {
        seq![]
    }
}

/// The diagnostics for a child tag allowed at most once.
pub open spec fn spec_at_most_one_errs(count: nat, t: TagNameS) -> Seq<ErrorS> {
    if count > 1 {
        seq![ErrorS::MultipleChildren(t)]
    } else {
        seq![]
    }
}

/// The diagnostics for a child tag required at least once.
pub open spec fn spec_at_least_one_errs(count: nat, t: TagNameS) -> Seq<ErrorS> {
    if count == 0 {
        seq![ErrorS::MissingChild(t)]
    } else {
        seq![]
    }
}

pub(crate) fn check_exactly_one(errors: &mut Vec<Error>, count: usize, tag: TagName)
    ensures
        errs_view(final(errors)@) == errs_view(old(errors)@) + spec_exactly_one_errs(
            count as nat,
            tag@,
        ),
{
    let ghost prev = errors@;
    let ghost gtag = tag@;
    if count == 0 {
        let e = Error::MissingChild(tag);
        errors.push(e);
        proof {
            lemma_errs_view_push(prev, e);
            assert(errs_view(errors@) =~= errs_view(prev) + spec_exactly_one_errs(
                count as nat,
                gtag,
            ));
        }
    } else if count > 1 {
        let e = Error::MultipleChildren(tag);
        errors.push(e);
        proof {
            lemma_errs_view_push(prev, e);
            assert(errs_view(errors@) =~= errs_view(prev) + spec_exactly_one_errs(
                count as nat,
                gtag,
            ));
        }
    } else {
        proof {
            assert(errs_view(errors@) =~= errs_view(prev) + Seq::<ErrorS>::empty());
        }
    }
}

pub(crate) fn check_at_most_one(errors: &mut Vec<Error>, count: usize, tag: TagName)
    ensures
        errs_view(final(errors)@) == errs_view(old(errors)@) + spec_at_most_one_errs(
            count as nat,
            tag@,
        ),
{
    let ghost prev = errors@;
    let ghost gtag = tag@;
    if count > 1 {
        let e = Error::MultipleChildren(tag);
        errors.push(e);
        proof {
            lemma_errs_view_push(prev, e);
            assert(errs_view(errors@) =~= errs_view(prev) + spec_at_most_one_errs(
                count as nat,
                gtag,
            ));
        }
    } else {
        proof {
            assert(errs_view(errors@) =~= errs_view(prev) + Seq::<ErrorS>::empty());
        }
    }
}

pub(crate) fn check_at_least_one(errors: &mut Vec<Error>, count: usize, tag: TagName)
    ensures
        errs_view(final(errors)@) == errs_view(old(errors)@) + spec_at_least_one_errs(
            count as nat,
            tag@,
        ),
{
    let ghost prev = errors@;
    let ghost gtag = tag@;
    if count == 0 {
        let e = Error::MissingChild(tag);
        errors.push(e);
        proof {
            lemma_errs_view_push(prev, e);
            assert(errs_view(errors@) =~= errs_view(prev) + spec_at_least_one_errs(
                count as nat,
                gtag,
            ));
        }
    } else {
        proof {
            assert(errs_view(errors@) =~= errs_view(prev) + Seq::<ErrorS>::empty());
        }
    }
}

// ---------------------------------------------------------------------------
// Leaf analyzers
// ---------------------------------------------------------------------------
/// The node for a `title` tag: only the text content, never a diagnostic.
pub open spec fn spec_analyze_title(title: Seq<char>) -> NodeS {
    NodeS {
        name: spec_plain_tag("title"@),
        children: seq![],
        attributes: seq![(spec_node_value_key(), ValueS::Text(title))],
        errors: seq![],
    }
}

/// Analyzes a `title` tag.
pub fn analyze_title(title: &String) -> (n: Node)
    ensures
        n@ == spec_analyze_title(title@),
{
    let mut attributes: Vec<(String, Value)> = Vec::new();
    attributes.push((crate::diag::node_value_key(), Value::Text(title.clone())));
    let n = Node { name: plain_tag("title"), children: Vec::new(), attributes, errors: Vec::new() };
    proof {
        assert(n@.name =~= spec_analyze_title(title@).name);
        assert(n@.children =~~= spec_analyze_title(title@).children);
        assert(n@.attributes =~~= spec_analyze_title(title@).attributes);
        assert(n@.errors =~~= spec_analyze_title(title@).errors);
        assert(n@ =~~= spec_analyze_title(title@));
    }
    n
}

/// The node for a `podcast:funding` tag: the message is limited to 128
/// characters, and the URL is required.
pub open spec fn spec_analyze_funding(f: Funding) -> NodeS {
    let value_part = spec_text_attr_max(spec_node_value_key(), f.value, true, 128);
    let url_part = spec_decoded_attr("url"@, f.url, AttrKind::Url, true);
    NodeS {
        name: spec_podcast_tag("funding"@),
        children: seq![],
        attributes: value_part.0 + url_part.0,
        errors: value_part.1 + url_part.1,
    }
}

/// Analyzes a `podcast:funding` tag.
pub fn analyze_podcast_funding(f: &Funding) -> (n: Node)
    ensures
        n@ == spec_analyze_funding(*f),
{
    let mut attributes: Vec<(String, Value)> = Vec::new();
    let mut errors: Vec<Error> = Vec::new();
    text_attr_max(&mut attributes, &mut errors, crate::diag::node_value_key(), &f.value, true, 128);
    decoded_attr(&mut attributes, &mut errors, key_str("url"), &f.url, AttrKind::Url, true);
    let n = Node { name: podcast_tag("funding"), children: Vec::new(), attributes, errors };
    proof {
        assert(n@.name =~= spec_analyze_funding(*f).name);
        assert(n@.children =~~= spec_analyze_funding(*f).children);
        assert(n@.attributes =~~= spec_analyze_funding(*f).attributes);
        assert(n@.errors =~~= spec_analyze_funding(*f).errors);
        assert(n@ =~~= spec_analyze_funding(*f));
    }
    n
}

/// The node for a `podcast:txt` tag: free-form text with an optional purpose.
pub open spec fn spec_analyze_txt(t: Txt) -> NodeS {
    let p0 = spec_text_attr(spec_node_value_key(), t.value, true);
    let p1 = spec_decoded_attr("purpose"@, t.purpose, AttrKind::Object, false);
    NodeS {
        name: spec_podcast_tag("txt"@),
        children: seq![],
        attributes: p0.0 + p1.0,
        errors: p0.1 + p1.1,
    }
}

/// Analyzes a `podcast:txt` tag.
pub fn analyze_podcast_txt(t: &Txt) -> (n: Node)
    ensures
        n@ == spec_analyze_txt(*t),
{
    let mut attributes: Vec<(String, Value)> = Vec::new();
    let mut errors: Vec<Error> = Vec::new();
    text_attr(&mut attributes, &mut errors, crate::diag::node_value_key(), &t.value, true);
    decoded_attr(&mut attributes, &mut errors, key_str("purpose"), &t.purpose, AttrKind::Object, false);
    let n = Node { name: podcast_tag("txt"), children: Vec::new(), attributes, errors };
    proof {
        assert(n@.name =~= spec_analyze_txt(*t).name);
        assert(n@.children =~~= spec_analyze_txt(*t).children);
        assert(n@.attributes =~~= spec_analyze_txt(*t).attributes);
        assert(n@.errors =~~= spec_analyze_txt(*t).errors);
        assert(n@ =~~= spec_analyze_txt(*t));
    }
    n
}

/// The node for a `podcast:block` tag: a block flag with an optional platform id.
pub open spec fn spec_analyze_block(t: Block) -> NodeS {
    let p0 = spec_bool_attr(spec_node_value_key(), t.value, true);
    let p1 = spec_decoded_attr("id"@, t.id, AttrKind::Object, false);
    NodeS {
        name: spec_podcast_tag("block"@),
        children: seq![],
        attributes: p0.0 + p1.0,
        errors: p0.1 + p1.1,
    }
}

/// Analyzes a `podcast:block` tag.
pub fn analyze_podcast_block(t: &Block) -> (n: Node)
    ensures
        n@ == spec_analyze_block(*t),
{
    let mut attributes: Vec<(String, Value)> = Vec::new();
    let mut errors: Vec<Error> = Vec::new();
    bool_attr(&mut attributes, &mut errors, crate::diag::node_value_key(), &t.value, true);
    decoded_attr(&mut attributes, &mut errors, key_str("id"), &t.id, AttrKind::Object, false);
    let n = Node { name: podcast_tag("block"), children: Vec::new(), attributes, errors };
    proof {
        assert(n@.name =~= spec_analyze_block(*t).name);
        assert(n@.children =~~= spec_analyze_block(*t).children);
        assert(n@.attributes =~~= spec_analyze_block(*t).attributes);
        assert(n@.errors =~~= spec_analyze_block(*t).errors);
        assert(n@ =~~= spec_analyze_block(*t));
    }
    n
}

/// The node for a `podcast:locked` tag: a lock flag with an optional owner contact.
pub open spec fn spec_analyze_locked(t: Locked) -> NodeS {
    let p0 = spec_bool_attr(spec_node_value_key(), t.value, true);
    let p1 = spec_text_attr("owner"@, t.owner, false);
    NodeS {
        name: spec_podcast_tag("locked"@),
        children: seq![],
        attributes: p0.0 + p1.0,
        errors: p0.1 + p1.1,
    }
}

/// Analyzes a `podcast:locked` tag.
pub fn analyze_podcast_locked(t: &Locked) -> (n: Node)
    ensures
        n@ == spec_analyze_locked(*t),
{
    let mut attributes: Vec<(String, Value)> = Vec::new();
    let mut errors: Vec<Error> = Vec::new();
    bool_attr(&mut attributes, &mut errors, crate::diag::node_value_key(), &t.value, true);
    text_attr(&mut attributes, &mut errors, key_str("owner"), &t.owner, false);
    let n = Node { name: podcast_tag("locked"), children: Vec::new(), attributes, errors };
    proof {
        assert(n@.name =~= spec_analyze_locked(*t).name);
        assert(n@.children =~~= spec_analyze_locked(*t).children);
        assert(n@.attributes =~~= spec_analyze_locked(*t).attributes);
        assert(n@.errors =~~= spec_analyze_locked(*t).errors);
        assert(n@ =~~= spec_analyze_locked(*t));
    }
    n
}

/// The node for a `podcast:person` tag: a person credit: the name is limited to 128 characters.
pub open spec fn spec_analyze_person(t: Person) -> NodeS {
    let p0 = spec_text_attr_max(spec_node_value_key(), t.value, true, 128);
    let p1 = spec_decoded_attr("group"@, t.group, AttrKind::Object, false);
    let p2 = spec_decoded_attr("role"@, t.role, AttrKind::Object, false);
    let p3 = spec_decoded_attr("img"@, t.img, AttrKind::Url, false);
    let p4 = spec_decoded_attr("href"@, t.href, AttrKind::Url, false);
    NodeS {
        name: spec_podcast_tag("person"@),
        children: seq![],
        attributes: p0.0 + p1.0 + p2.0 + p3.0 + p4.0,
        errors: p0.1 + p1.1 + p2.1 + p3.1 + p4.1,
    }
}

/// Analyzes a `podcast:person` tag.
pub fn analyze_podcast_person(t: &Person) -> (n: Node)
    ensures
        n@ == spec_analyze_person(*t),
{
    let mut attributes: Vec<(String, Value)> = Vec::new();
    let mut errors: Vec<Error> = Vec::new();
    text_attr_max(&mut attributes, &mut errors, crate::diag::node_value_key(), &t.value, true, 128);
    decoded_attr(&mut attributes, &mut errors, key_str("group"), &t.group, AttrKind::Object, false);
    decoded_attr(&mut attributes, &mut errors, key_str("role"), &t.role, AttrKind::Object, false);
    decoded_attr(&mut attributes, &mut errors, key_str("img"), &t.img, AttrKind::Url, false);
    decoded_attr(&mut attributes, &mut errors, key_str("href"), &t.href, AttrKind::Url, false);
    let n = Node { name: podcast_tag("person"), children: Vec::new(), attributes, errors };
    proof {
        assert(n@.name =~= spec_analyze_person(*t).name);
        assert(n@.children =~~= spec_analyze_person(*t).children);
        assert(n@.attributes =~~= spec_analyze_person(*t).attributes);
        assert(n@.errors =~~= spec_analyze_person(*t).errors);
        assert(n@ =~~= spec_analyze_person(*t));
    }
    n
}

/// The node for a `podcast:trailer` tag: a trailer: the title is limited to 128 characters and the URL is required.
pub open spec fn spec_analyze_trailer(t: Trailer) -> NodeS {
    let p0 = spec_text_attr_max(spec_node_value_key(), t.value, true, 128);
    let p1 = spec_decoded_attr("url"@, t.url, AttrKind::Url, true);
    let p2 = spec_decoded_attr("pubDate"@, t.pub_date, AttrKind::Object, false);
    let p3 = spec_int_attr("length"@, t.length, false);
    let p4 = spec_decoded_attr("type"@, t.mime_type, AttrKind::Text, false);
    let p5 = spec_int_attr("season"@, t.season, false);
    NodeS {
        name: spec_podcast_tag("trailer"@),
        children: seq![],
        attributes: p0.0 + p1.0 + p2.0 + p3.0 + p4.0 + p5.0,
        errors: p0.1 + p1.1 + p2.1 + p3.1 + p4.1 + p5.1,
    }
}

/// Analyzes a `podcast:trailer` tag.
pub fn analyze_podcast_trailer(t: &Trailer) -> (n: Node)
    ensures
        n@ == spec_analyze_trailer(*t),
{
    let mut attributes: Vec<(String, Value)> = Vec::new();
    let mut errors: Vec<Error> = Vec::new();
    text_attr_max(&mut attributes, &mut errors, crate::diag::node_value_key(), &t.value, true, 128);
    decoded_attr(&mut attributes, &mut errors, key_str("url"), &t.url, AttrKind::Url, true);
    decoded_attr(&mut attributes, &mut errors, key_str("pubDate"), &t.pub_date, AttrKind::Object, false);
    int_attr(&mut attributes, &mut errors, key_str("length"), &t.length, false);
    decoded_attr(&mut attributes, &mut errors, key_str("type"), &t.mime_type, AttrKind::Text, false);
    int_attr(&mut attributes, &mut errors, key_str("season"), &t.season, false);
    let n = Node { name: podcast_tag("trailer"), children: Vec::new(), attributes, errors };
    proof {
        assert(n@.name =~= spec_analyze_trailer(*t).name);
        assert(n@.children =~~= spec_analyze_trailer(*t).children);
        assert(n@.attributes =~~= spec_analyze_trailer(*t).attributes);
        assert(n@.errors =~~= spec_analyze_trailer(*t).errors);
        assert(n@ =~~= spec_analyze_trailer(*t));
    }
    n
}

/// The node for a `podcast:season` tag: a season number with an optional display name.
pub open spec fn spec_analyze_season(t: Season) -> NodeS {
    let p0 = spec_int_attr(spec_node_value_key(), t.value, true);
    let p1 = spec_text_attr("name"@, t.name, false);
    NodeS {
        name: spec_podcast_tag("season"@),
        children: seq![],
        attributes: p0.0 + p1.0,
        errors: p0.1 + p1.1,
    }
}

/// Analyzes a `podcast:season` tag.
pub fn analyze_podcast_season(t: &Season) -> (n: Node)
    ensures
        n@ == spec_analyze_season(*t),
{
    let mut attributes: Vec<(String, Value)> = Vec::new();
    let mut errors: Vec<Error> = Vec::new();
    int_attr(&mut attributes, &mut errors, crate::diag::node_value_key(), &t.value, true);
    text_attr(&mut attributes, &mut errors, key_str("name"), &t.name, false);
    let n = Node { name: podcast_tag("season"), children: Vec::new(), attributes, errors };
    proof {
        assert(n@.name =~= spec_analyze_season(*t).name);
        assert(n@.children =~~= spec_analyze_season(*t).children);
        assert(n@.attributes =~~= spec_analyze_season(*t).attributes);
        assert(n@.errors =~~= spec_analyze_season(*t).errors);
        assert(n@ =~~= spec_analyze_season(*t));
    }
    n
}

/// The node for a `podcast:episode` tag: an episode number with an optional display override.
pub open spec fn spec_analyze_episode(t: Episode) -> NodeS {
    let p0 = spec_decoded_attr(spec_node_value_key(), t.value, AttrKind::Object, true);
    let p1 = spec_text_attr("display"@, t.display, false);
    NodeS {
        name: spec_podcast_tag("episode"@),
        children: seq![],
        attributes: p0.0 + p1.0,
        errors: p0.1 + p1.1,
    }
}

/// Analyzes a `podcast:episode` tag.
pub fn analyze_podcast_episode(t: &Episode) -> (n: Node)
    ensures
        n@ == spec_analyze_episode(*t),
{
    let mut attributes: Vec<(String, Value)> = Vec::new();
    let mut errors: Vec<Error> = Vec::new();
    decoded_attr(&mut attributes, &mut errors, crate::diag::node_value_key(), &t.value, AttrKind::Object, true);
    text_attr(&mut attributes, &mut errors, key_str("display"), &t.display, false);
    let n = Node { name: podcast_tag("episode"), children: Vec::new(), attributes, errors };
    proof {
        assert(n@.name =~= spec_analyze_episode(*t).name);
        assert(n@.children =~~= spec_analyze_episode(*t).children);
        assert(n@.attributes =~~= spec_analyze_episode(*t).attributes);
        assert(n@.errors =~~= spec_analyze_episode(*t).errors);
        assert(n@ =~~= spec_analyze_episode(*t));
    }
    n
}

/// The node for a `podcast:soundbite` tag: a soundbite: start time and duration are both required.
pub open spec fn spec_analyze_soundbite(t: Soundbite) -> NodeS {
    let p0 = spec_decoded_attr("startTime"@, t.start_time, AttrKind::Object, true);
    let p1 = spec_decoded_attr("duration"@, t.duration, AttrKind::Object, true);
    NodeS {
        name: spec_podcast_tag("soundbite"@),
        children: seq![],
        attributes: p0.0 + p1.0,
        errors: p0.1 + p1.1,
    }
}

/// Analyzes a `podcast:soundbite` tag.
pub fn analyze_podcast_soundbite(t: &Soundbite) -> (n: Node)
    ensures
        n@ == spec_analyze_soundbite(*t),
{
    let mut attributes: Vec<(String, Value)> = Vec::new();
    let mut errors: Vec<Error> = Vec::new();
    decoded_attr(&mut attributes, &mut errors, key_str("startTime"), &t.start_time, AttrKind::Object, true);
    decoded_attr(&mut attributes, &mut errors, key_str("duration"), &t.duration, AttrKind::Object, true);
    let n = Node { name: podcast_tag("soundbite"), children: Vec::new(), attributes, errors };
    proof {
        assert(n@.name =~= spec_analyze_soundbite(*t).name);
        assert(n@.children =~~= spec_analyze_soundbite(*t).children);
        assert(n@.attributes =~~= spec_analyze_soundbite(*t).attributes);
        assert(n@.errors =~~= spec_analyze_soundbite(*t).errors);
        assert(n@ =~~= spec_analyze_soundbite(*t));
    }
    n
}

/// The node for a `podcast:chapters` tag: chapter metadata: URL and MIME type are both required.
pub open spec fn spec_analyze_chapters(t: Chapters) -> NodeS {
    let p0 = spec_decoded_attr("url"@, t.url, AttrKind::Url, true);
    let p1 = spec_decoded_attr("type"@, t.mime_type, AttrKind::Object, true);
    NodeS {
        name: spec_podcast_tag("chapters"@),
        children: seq![],
        attributes: p0.0 + p1.0,
        errors: p0.1 + p1.1,
    }
}

/// Analyzes a `podcast:chapters` tag.
pub fn analyze_podcast_chapters(t: &Chapters) -> (n: Node)
    ensures
        n@ == spec_analyze_chapters(*t),
{
    let mut attributes: Vec<(String, Value)> = Vec::new();
    let mut errors: Vec<Error> = Vec::new();
    decoded_attr(&mut attributes, &mut errors, key_str("url"), &t.url, AttrKind::Url, true);
    decoded_attr(&mut attributes, &mut errors, key_str("type"), &t.mime_type, AttrKind::Object, true);
    let n = Node { name: podcast_tag("chapters"), children: Vec::new(), attributes, errors };
    proof {
        assert(n@.name =~= spec_analyze_chapters(*t).name);
        assert(n@.children =~~= spec_analyze_chapters(*t).children);
        assert(n@.attributes =~~= spec_analyze_chapters(*t).attributes);
        assert(n@.errors =~~= spec_analyze_chapters(*t).errors);
        assert(n@ =~~= spec_analyze_chapters(*t));
    }
    n
}

/// The node for a `podcast:source` tag: a media source inside an alternate enclosure.
pub open spec fn spec_analyze_source(t: Source) -> NodeS {
    let p0 = spec_decoded_attr("uri"@, t.uri, AttrKind::Url, true);
    let p1 = spec_decoded_attr("contentType"@, t.mime_type, AttrKind::Object, false);
    NodeS {
        name: spec_podcast_tag("source"@),
        children: seq![],
        attributes: p0.0 + p1.0,
        errors: p0.1 + p1.1,
    }
}

/// Analyzes a `podcast:source` tag.
pub fn analyze_podcast_source(t: &Source) -> (n: Node)
    ensures
        n@ == spec_analyze_source(*t),
{
    let mut attributes: Vec<(String, Value)> = Vec::new();
    let mut errors: Vec<Error> = Vec::new();
    decoded_attr(&mut attributes, &mut errors, key_str("uri"), &t.uri, AttrKind::Url, true);
    decoded_attr(&mut attributes, &mut errors, key_str("contentType"), &t.mime_type, AttrKind::Object, false);
    let n = Node { name: podcast_tag("source"), children: Vec::new(), attributes, errors };
    proof {
        assert(n@.name =~= spec_analyze_source(*t).name);
        assert(n@.children =~~= spec_analyze_source(*t).children);
        assert(n@.attributes =~~= spec_analyze_source(*t).attributes);
        assert(n@.errors =~~= spec_analyze_source(*t).errors);
        assert(n@ =~~= spec_analyze_source(*t));
    }
    n
}

/// The node for a `podcast:integrity` tag: an integrity check inside an alternate enclosure.
pub open spec fn spec_analyze_integrity(t: Integrity) -> NodeS {
    let p0 = spec_decoded_attr("type"@, t.integrity_type, AttrKind::Object, true);
    let p1 = spec_text_attr("value"@, t.value, true);
    NodeS {
        name: spec_podcast_tag("integrity"@),
        children: seq![],
        attributes: p0.0 + p1.0,
        errors: p0.1 + p1.1,
    }
}

/// Analyzes a `podcast:integrity` tag.
pub fn analyze_podcast_integrity(t: &Integrity) -> (n: Node)
    ensures
        n@ == spec_analyze_integrity(*t),
{
    let mut attributes: Vec<(String, Value)> = Vec::new();
    let mut errors: Vec<Error> = Vec::new();
    decoded_attr(&mut attributes, &mut errors, key_str("type"), &t.integrity_type, AttrKind::Object, true);
    text_attr(&mut attributes, &mut errors, key_str("value"), &t.value, true);
    let n = Node { name: podcast_tag("integrity"), children: Vec::new(), attributes, errors };
    proof {
        assert(n@.name =~= spec_analyze_integrity(*t).name);
        assert(n@.children =~~= spec_analyze_integrity(*t).children);
        assert(n@.attributes =~~= spec_analyze_integrity(*t).attributes);
        assert(n@.errors =~~= spec_analyze_integrity(*t).errors);
        assert(n@ =~~= spec_analyze_integrity(*t));
    }
    n
}

/// The node for a `podcast:contentLink` tag: a stream location for a live item.
pub open spec fn spec_analyze_content_link(t: ContentLink) -> NodeS {
    let p0 = spec_text_attr(spec_node_value_key(), t.value, true);
    let p1 = spec_decoded_attr("href"@, t.href, AttrKind::Url, true);
    NodeS {
        name: spec_podcast_tag("contentLink"@),
        children: seq![],
        attributes: p0.0 + p1.0,
        errors: p0.1 + p1.1,
    }
}

/// Analyzes a `podcast:contentLink` tag.
pub fn analyze_podcast_content_link(t: &ContentLink) -> (n: Node)
    ensures
        n@ == spec_analyze_content_link(*t),
{
    let mut attributes: Vec<(String, Value)> = Vec::new();
    let mut errors: Vec<Error> = Vec::new();
    text_attr(&mut attributes, &mut errors, crate::diag::node_value_key(), &t.value, true);
    decoded_attr(&mut attributes, &mut errors, key_str("href"), &t.href, AttrKind::Url, true);
    let n = Node { name: podcast_tag("contentLink"), children: Vec::new(), attributes, errors };
    proof {
        assert(n@.name =~= spec_analyze_content_link(*t).name);
        assert(n@.children =~~= spec_analyze_content_link(*t).children);
        assert(n@.attributes =~~= spec_analyze_content_link(*t).attributes);
        assert(n@.errors =~~= spec_analyze_content_link(*t).errors);
        assert(n@ =~~= spec_analyze_content_link(*t));
    }
    n
}

/// The node for a `podcast:socialInteract` tag: a social-interaction link.
pub open spec fn spec_analyze_social_interact(t: SocialInteract) -> NodeS {
    let p0 = spec_decoded_attr("uri"@, t.uri, AttrKind::Url, true);
    let p1 = spec_decoded_attr("protocol"@, t.protocol, AttrKind::Object, true);
    let p2 = spec_text_attr("accountId"@, t.account_id, false);
    let p3 = spec_decoded_attr("accountUrl"@, t.account_url, AttrKind::Url, false);
    let p4 = spec_int_attr("priority"@, t.priority, false);
    NodeS {
        name: spec_podcast_tag("socialInteract"@),
        children: seq![],
        attributes: p0.0 + p1.0 + p2.0 + p3.0 + p4.0,
        errors: p0.1 + p1.1 + p2.1 + p3.1 + p4.1,
    }
}

/// Analyzes a `podcast:socialInteract` tag.
pub fn analyze_podcast_social_interact(t: &SocialInteract) -> (n: Node)
    ensures
        n@ == spec_analyze_social_interact(*t),
{
    let mut attributes: Vec<(String, Value)> = Vec::new();
    let mut errors: Vec<Error> = Vec::new();
    decoded_attr(&mut attributes, &mut errors, key_str("uri"), &t.uri, AttrKind::Url, true);
    decoded_attr(&mut attributes, &mut errors, key_str("protocol"), &t.protocol, AttrKind::Object, true);
    text_attr(&mut attributes, &mut errors, key_str("accountId"), &t.account_id, false);
    decoded_attr(&mut attributes, &mut errors, key_str("accountUrl"), &t.account_url, AttrKind::Url, false);
    int_attr(&mut attributes, &mut errors, key_str("priority"), &t.priority, false);
    let n = Node { name: podcast_tag("socialInteract"), children: Vec::new(), attributes, errors };
    proof {
        assert(n@.name =~= spec_analyze_social_interact(*t).name);
        assert(n@.children =~~= spec_analyze_social_interact(*t).children);
        assert(n@.attributes =~~= spec_analyze_social_interact(*t).attributes);
        assert(n@.errors =~~= spec_analyze_social_interact(*t).errors);
        assert(n@ =~~= spec_analyze_social_interact(*t));
    }
    n
}


// ---------------------------------------------------------------------------
// Special leaf analyzers
// ---------------------------------------------------------------------------
/// The node for a `podcast:guid` tag: the decoded identifier is the node
/// value.
pub open spec fn spec_analyze_guid(g: Decoded<String>) -> NodeS {
    let p = match g {
        Decoded::Valid(s) => (
            seq![(spec_node_value_key(), ValueS::Text(s@))],
            Seq::<ErrorS>::empty(),
        ),
        Decoded::Other(raw, reason) => (
            Seq::<(Seq<char>, ValueS)>::empty(),
            seq![spec_invalid_err(spec_node_value_key(), raw@, reason)],
        ),
    };
    NodeS {
        name: spec_podcast_tag("guid"@),
        children: seq![],
        attributes: p.0,
        errors: p.1,
    }
}

/// Analyzes a `podcast:guid` tag.
pub fn analyze_podcast_guid(g: &Decoded<String>) -> (n: Node)
    ensures
        n@ == spec_analyze_guid(*g),
{
    let mut attributes: Vec<(String, Value)> = Vec::new();
    let mut errors: Vec<Error> = Vec::new();
    match g {
        Decoded::Valid(s) => {
            attributes.push((crate::diag::node_value_key(), Value::Text(s.clone())));
        },
        Decoded::Other(raw, reason) => {
            push_invalid(&mut errors, crate::diag::node_value_key(), raw, reason);
        },
    }
    let n = Node { name: podcast_tag("guid"), children: Vec::new(), attributes, errors };
    proof {
        assert(n@.name =~= spec_analyze_guid(*g).name);
        assert(n@.children =~~= spec_analyze_guid(*g).children);
        assert(n@.attributes =~~= spec_analyze_guid(*g).attributes);
        assert(n@.errors =~~= spec_analyze_guid(*g).errors);
        assert(n@ =~~= spec_analyze_guid(*g));
    }
    n
}

/// The node for a `podcast:medium` tag: the recognized medium is the node
/// value.
pub open spec fn spec_analyze_medium(m: Decoded<String>) -> NodeS {
    let p = match m {
        Decoded::Valid(s) => (
            seq![(spec_node_value_key(), ValueS::Object(s@))],
            Seq::<ErrorS>::empty(),
        ),
        Decoded::Other(raw, reason) => (
            Seq::<(Seq<char>, ValueS)>::empty(),
            seq![spec_invalid_err(spec_node_value_key(), raw@, reason)],
        ),
    };
    NodeS {
        name: spec_podcast_tag("medium"@),
        children: seq![],
        attributes: p.0,
        errors: p.1,
    }
}

/// Analyzes a `podcast:medium` tag.
pub fn analyze_podcast_medium(m: &Decoded<String>) -> (n: Node)
    ensures
        n@ == spec_analyze_medium(*m),
{
    let mut attributes: Vec<(String, Value)> = Vec::new();
    let mut errors: Vec<Error> = Vec::new();
    match m {
        Decoded::Valid(s) => {
            attributes.push((crate::diag::node_value_key(), Value::Object(s.clone())));
        },
        Decoded::Other(raw, reason) => {
            push_invalid(&mut errors, crate::diag::node_value_key(), raw, reason);
        },
    }
    let n = Node { name: podcast_tag("medium"), children: Vec::new(), attributes, errors };
    proof {
        assert(n@.name =~= spec_analyze_medium(*m).name);
        assert(n@.children =~~= spec_analyze_medium(*m).children);
        assert(n@.attributes =~~= spec_analyze_medium(*m).attributes);
        assert(n@.errors =~~= spec_analyze_medium(*m).errors);
        assert(n@ =~~= spec_analyze_medium(*m));
    }
    n
}

/// The cross-field rule for a monetization recipient: a custom key and a
/// custom value must appear together, and the diagnostic names the absent
/// field.
pub open spec fn spec_custom_pair_errs(ck: Option<String>, cv: Option<String>) -> Seq<ErrorS> {
    match (ck, cv) {
        (Some(_), None) => seq![ErrorS::MissingAttribute("customValue"@)],
        (None, Some(_)) => seq![ErrorS::MissingAttribute("customKey"@)],
        _ => seq![],
    }
}

pub(crate) fn custom_pair_check(errors: &mut Vec<Error>, ck: &Option<String>, cv: &Option<String>)
    ensures
        errs_view(final(errors)@) == errs_view(old(errors)@) + spec_custom_pair_errs(*ck, *cv),
{
    let ghost prev = errors@;
    match (ck, cv) {
        (Some(_), None) => {
            let e = Error::MissingAttribute(key_str("customValue"));
            errors.push(e);
            proof {
                lemma_errs_view_push(prev, e);
                assert(errs_view(errors@) =~= errs_view(prev) + spec_custom_pair_errs(*ck, *cv));
            }
        },
        (None, Some(_)) => {
            let e = Error::MissingAttribute(key_str("customKey"));
            errors.push(e);
            proof {
                lemma_errs_view_push(prev, e);
                assert(errs_view(errors@) =~= errs_view(prev) + spec_custom_pair_errs(*ck, *cv));
            }
        },
        _ => {
            proof {
                assert(errs_view(errors@) =~= errs_view(prev) + Seq::<ErrorS>::empty());
            }
        },
    }
}

/// The node for a `podcast:valueRecipient` tag: the address is required,
/// and custom key and custom value must appear together.
pub open spec fn spec_analyze_value_recipient(r: ValueRecipient) -> NodeS {
    let p0 = spec_decoded_attr("type"@, r.recipient_type, AttrKind::Object, false);
    let p1 = spec_text_attr("address"@, r.address, true);
    let p2 = spec_int_attr("split"@, r.split, false);
    let p3 = spec_text_attr("name"@, r.name, false);
    let p4 = spec_text_attr("customKey"@, r.custom_key, false);
    let p5 = spec_text_attr("customValue"@, r.custom_value, false);
    let pair = spec_custom_pair_errs(r.custom_key, r.custom_value);
    let p6 = spec_bool_attr("fee"@, r.fee, false);
    NodeS {
        name: spec_podcast_tag("valueRecipient"@),
        children: seq![],
        attributes: p0.0 + p1.0 + p2.0 + p3.0 + p4.0 + p5.0 + p6.0,
        errors: p0.1 + p1.1 + p2.1 + p3.1 + p4.1 + p5.1 + pair + p6.1,
    }
}

/// Analyzes a `podcast:valueRecipient` tag.
pub fn analyze_podcast_value_recipient(r: &ValueRecipient) -> (n: Node)
    ensures
        n@ == spec_analyze_value_recipient(*r),
{
    let mut attributes: Vec<(String, Value)> = Vec::new();
    let mut errors: Vec<Error> = Vec::new();
    decoded_attr(&mut attributes, &mut errors, key_str("type"), &r.recipient_type, AttrKind::Object, false);
    text_attr(&mut attributes, &mut errors, key_str("address"), &r.address, true);
    int_attr(&mut attributes, &mut errors, key_str("split"), &r.split, false);
    text_attr(&mut attributes, &mut errors, key_str("name"), &r.name, false);
    text_attr(&mut attributes, &mut errors, key_str("customKey"), &r.custom_key, false);
    text_attr(&mut attributes, &mut errors, key_str("customValue"), &r.custom_value, false);
    custom_pair_check(&mut errors, &r.custom_key, &r.custom_value);
    bool_attr(&mut attributes, &mut errors, key_str("fee"), &r.fee, false);
    let n = Node { name: podcast_tag("valueRecipient"), children: Vec::new(), attributes, errors };
    proof {
        assert(n@.name =~= spec_analyze_value_recipient(*r).name);
        assert(n@.children =~~= spec_analyze_value_recipient(*r).children);
        assert(n@.attributes =~~= spec_analyze_value_recipient(*r).attributes);
        assert(n@.errors =~~= spec_analyze_value_recipient(*r).errors);
        assert(n@ =~~= spec_analyze_value_recipient(*r));
    }
    n
}

/// The node for a `podcast:license` tag.  A recognized license identifier
/// is attached as a canonical value; free-form license text is limited to
/// 128 characters and additionally requires a URL.
pub open spec fn spec_analyze_license(l: License) -> NodeS {
    let url_part = spec_decoded_attr("url"@, l.url, AttrKind::Url, false);
    let value_part = match l.value {
        Some(LicenseValue::Known(s)) => (
            seq![(spec_node_value_key(), ValueS::Object(s@))],
            Seq::<ErrorS>::empty(),
        ),
        Some(LicenseValue::FreeForm(s)) => {
            let text_part: (Seq<(Seq<char>, ValueS)>, Seq<ErrorS>) = if s@.len() > 128 {
                (
                    Seq::<(Seq<char>, ValueS)>::empty(),
                    seq![ErrorS::AttributeExceedsMaxLength(spec_node_value_key(), s@, 128)],
                )
            } else {
                (seq![(spec_node_value_key(), ValueS::Text(s@))], Seq::<ErrorS>::empty())
            };
            let url_missing: Seq<ErrorS> = if l.url is None {
                seq![ErrorS::MissingAttribute("url"@)]
            } else {
                seq![]
            };
            (text_part.0, text_part.1 + url_missing)
        },
        None => (
            Seq::<(Seq<char>, ValueS)>::empty(),
            seq![ErrorS::MissingAttribute(spec_node_value_key())],
        ),
    };
    NodeS {
        name: spec_podcast_tag("license"@),
        children: seq![],
        attributes: url_part.0 + value_part.0,
        errors: url_part.1 + value_part.1,
    }
}

/// Analyzes a `podcast:license` tag.
pub fn analyze_podcast_license(l: &License) -> (n: Node)
    ensures
        n@ == spec_analyze_license(*l),
{
    let mut attributes: Vec<(String, Value)> = Vec::new();
    let mut errors: Vec<Error> = Vec::new();
    decoded_attr(&mut attributes, &mut errors, key_str("url"), &l.url, AttrKind::Url, false);
    match &l.value {
        Some(LicenseValue::Known(s)) => {
            attributes.push((crate::diag::node_value_key(), Value::Object(s.clone())));
        },
        Some(LicenseValue::FreeForm(s)) => {
            if s.as_str().unicode_len() > 128 {
                let e = Error::AttributeExceedsMaxLength(
                    crate::diag::node_value_key(),
                    s.clone(),
                    128,
                );
                errors.push(e);
            } else {
                attributes.push((crate::diag::node_value_key(), Value::Text(s.clone())));
            }
            if l.url.is_none() {
                let e = Error::MissingAttribute(key_str("url"));
                errors.push(e);
            }
        },
        None => {
            let e = Error::MissingAttribute(crate::diag::node_value_key());
            errors.push(e);
        },
    }
    let n = Node { name: podcast_tag("license"), children: Vec::new(), attributes, errors };
    proof {
        assert(n@.name =~= spec_analyze_license(*l).name);
        assert(n@.children =~~= spec_analyze_license(*l).children);
        assert(n@.attributes =~~= spec_analyze_license(*l).attributes);
        assert(n@.errors =~~= spec_analyze_license(*l).errors);
        assert(n@ =~~= spec_analyze_license(*l));
    }
    n
}

/// The wording that flags the legacy SubRip MIME type.
pub open spec fn spec_srt_message() -> Seq<char> {
    "\"application/srt\" in attribute «type» is not a valid MIME type"@
}

/// The dated explanation attached to the legacy SubRip diagnostic.
pub open spec fn spec_srt_extra_info() -> Seq<char> {
    "On February 3, 2022, the recognized alternative for SubRip files in the podcast namespace specification became \"application/x-subrip\". However, keep in mind that although podcast players like Podverse and Podcast Addict have updated their codebases, some other apps may still only recognize \"application/srt\" at this time."@
}

/// The node for a `podcast:transcript` tag.  The legacy SubRip MIME type
/// is flagged with a dedicated dated explanation rather than as a generic
/// rejection.
pub open spec fn spec_analyze_transcript(t: Transcript) -> NodeS {
    let url_part = spec_decoded_attr("url"@, t.url, AttrKind::Url, true);
    let type_part: (Seq<(Seq<char>, ValueS)>, Seq<ErrorS>) = match t.mime_type {
        Some(TranscriptType::LegacySrt) => (
            Seq::<(Seq<char>, ValueS)>::empty(),
            seq![ErrorS::CustomWithExtraInfo(spec_srt_message(), spec_srt_extra_info())],
        ),
        Some(TranscriptType::Known(s)) => (
            seq![("type"@, ValueS::Object(s@))],
            Seq::<ErrorS>::empty(),
        ),
        Some(TranscriptType::Other(raw)) => (
            Seq::<(Seq<char>, ValueS)>::empty(),
            seq![ErrorS::InvalidAttribute("type"@, raw@)],
        ),
        None => (
            Seq::<(Seq<char>, ValueS)>::empty(),
            seq![ErrorS::MissingAttribute("type"@)],
        ),
    };
    let lang_part = spec_decoded_attr("language"@, t.language, AttrKind::Object, false);
    let rel_part = spec_decoded_attr("rel"@, t.rel, AttrKind::Object, false);
    NodeS {
        name: spec_podcast_tag("transcript"@),
        children: seq![],
        attributes: url_part.0 + type_part.0 + lang_part.0 + rel_part.0,
        errors: url_part.1 + type_part.1 + lang_part.1 + rel_part.1,
    }
}

/// Analyzes a `podcast:transcript` tag.
pub fn analyze_podcast_transcript(t: &Transcript) -> (n: Node)
    ensures
        n@ == spec_analyze_transcript(*t),
{
    let mut attributes: Vec<(String, Value)> = Vec::new();
    let mut errors: Vec<Error> = Vec::new();
    decoded_attr(&mut attributes, &mut errors, key_str("url"), &t.url, AttrKind::Url, true);
    match &t.mime_type {
        Some(TranscriptType::LegacySrt) => {
            let e = Error::CustomWithExtraInfo(
                String::from_str(
                    "\"application/srt\" in attribute «type» is not a valid MIME type",
                ),
                String::from_str(
                    "On February 3, 2022, the recognized alternative for SubRip files in the podcast namespace specification became \"application/x-subrip\". However, keep in mind that although podcast players like Podverse and Podcast Addict have updated their codebases, some other apps may still only recognize \"application/srt\" at this time.",
                ),
            );
            errors.push(e);
        },
        Some(TranscriptType::Known(s)) => {
            attributes.push((key_str("type"), Value::Object(s.clone())));
        },
        Some(TranscriptType::Other(raw)) => {
            let e = Error::InvalidAttribute(key_str("type"), raw.clone());
            errors.push(e);
        },
        None => {
            let e = Error::MissingAttribute(key_str("type"));
            errors.push(e);
        },
    }
    decoded_attr(&mut attributes, &mut errors, key_str("language"), &t.language, AttrKind::Object, false);
    decoded_attr(&mut attributes, &mut errors, key_str("rel"), &t.rel, AttrKind::Object, false);
    let n = Node { name: podcast_tag("transcript"), children: Vec::new(), attributes, errors };
    proof {
        assert(n@.name =~= spec_analyze_transcript(*t).name);
        assert(n@.children =~~= spec_analyze_transcript(*t).children);
        assert(n@.attributes =~~= spec_analyze_transcript(*t).attributes);
        assert(n@.errors =~~= spec_analyze_transcript(*t).errors);
        assert(n@ =~~= spec_analyze_transcript(*t));
    }
    n
}


// ---------------------------------------------------------------------------
// Composite attributes: geographic coordinates, map references, source sets
// ---------------------------------------------------------------------------
/// The canonical rendering of decoded geographic coordinates.
pub open spec fn spec_geo_object(g: GeoData) -> Seq<char> {
    "{ latitude: "@ + g.latitude@ + ", longitude: "@ + g.longitude@ + (match g.altitude {
        Some(a) => ", altitude: "@ + a@,
        None => Seq::<char>::empty(),
    }) + (match g.uncertainty {
        Some(u) => ", uncertainty: "@ + u@,
        None => Seq::<char>::empty(),
    }) + " }"@
}

pub(crate) fn render_geo(g: &GeoData) -> (s: String)
    ensures
        s@ == spec_geo_object(*g),
{
    let mut s = String::from_str("{ latitude: ");
    s.append(g.latitude.as_str());
    s.append(", longitude: ");
    s.append(g.longitude.as_str());
    if let Some(a) = &g.altitude {
        s.append(", altitude: ");
        s.append(a.as_str());
    }
    if let Some(u) = &g.uncertainty {
        s.append(", uncertainty: ");
        s.append(u.as_str());
    }
    s.append(" }");
    proof {
        assert(s@ =~= spec_geo_object(*g));
    }
    s
}

/// The canonical rendering of an OpenStreetMap object kind.
pub open spec fn spec_osm_type(t: OsmType) -> Seq<char> {
    match t {
        OsmType::Node => "Node"@,
        OsmType::Way => "Way"@,
        OsmType::Relation => "Relation"@,
    }
}

/// The canonical rendering of a decoded OpenStreetMap reference.
pub open spec fn spec_osm_object(o: OsmData) -> Seq<char> {
    "{ type: "@ + spec_osm_type(o.osm_type) + ", id: "@ + spec_dec_nat(o.id as nat) + (
    match o.revision {
        Some(r) => ", revision: "@ + spec_dec_nat(r as nat),
        None => Seq::<char>::empty(),
    }) + " }"@
}

pub(crate) fn render_osm(o: &OsmData) -> (s: String)
    ensures
        s@ == spec_osm_object(*o),
{
    let mut s = String::from_str("{ type: ");
    match o.osm_type {
        OsmType::Node => s.append("Node"),
        OsmType::Way => s.append("Way"),
        OsmType::Relation => s.append("Relation"),
    }
    s.append(", id: ");
    let id = u64_to_dec(o.id);
    s.append(id.as_str());
    if let Some(r) = &o.revision {
        s.append(", revision: ");
        let rev = u64_to_dec(*r);
        s.append(rev.as_str());
    }
    s.append(" }");
    proof {
        assert(s@ =~= spec_osm_object(*o));
    }
    s
}

/// The node for a `podcast:location` tag: the name is limited to 128
/// characters, and each composite attribute is atomic (rendered whole on
/// success, rejected whole on failure).
pub open spec fn spec_analyze_location(l: Location) -> NodeS {
    let value_part = spec_text_attr_max(spec_node_value_key(), l.value, true, 128);
    let geo_part: (Seq<(Seq<char>, ValueS)>, Seq<ErrorS>) = match l.geo {
        Some(Decoded::Valid(g)) => (
            seq![("geo"@, ValueS::Object(spec_geo_object(g)))],
            Seq::<ErrorS>::empty(),
        ),
        Some(Decoded::Other(raw, reason)) => (
            Seq::<(Seq<char>, ValueS)>::empty(),
            seq![spec_invalid_err("geo"@, raw@, reason)],
        ),
        None => (Seq::<(Seq<char>, ValueS)>::empty(), Seq::<ErrorS>::empty()),
    };
    let osm_part: (Seq<(Seq<char>, ValueS)>, Seq<ErrorS>) = match l.osm {
        Some(Decoded::Valid(o)) => (
            seq![("osm"@, ValueS::Object(spec_osm_object(o)))],
            Seq::<ErrorS>::empty(),
        ),
        Some(Decoded::Other(raw, reason)) => (
            Seq::<(Seq<char>, ValueS)>::empty(),
            seq![spec_invalid_err("osm"@, raw@, reason)],
        ),
        None => (Seq::<(Seq<char>, ValueS)>::empty(), Seq::<ErrorS>::empty()),
    };
    NodeS {
        name: spec_podcast_tag("location"@),
        children: seq![],
        attributes: value_part.0 + geo_part.0 + osm_part.0,
        errors: value_part.1 + geo_part.1 + osm_part.1,
    }
}

/// Analyzes a `podcast:location` tag.
pub fn analyze_podcast_location(l: &Location) -> (n: Node)
    ensures
        n@ == spec_analyze_location(*l),
{
    let mut attributes: Vec<(String, Value)> = Vec::new();
    let mut errors: Vec<Error> = Vec::new();
    text_attr_max(&mut attributes, &mut errors, crate::diag::node_value_key(), &l.value, true, 128);
    match &l.geo {
        Some(Decoded::Valid(g)) => {
            attributes.push((key_str("geo"), Value::Object(render_geo(g))));
        },
        Some(Decoded::Other(raw, reason)) => {
            push_invalid(&mut errors, key_str("geo"), raw, reason);
        },
        None => {},
    }
    match &l.osm {
        Some(Decoded::Valid(o)) => {
            attributes.push((key_str("osm"), Value::Object(render_osm(o))));
        },
        Some(Decoded::Other(raw, reason)) => {
            push_invalid(&mut errors, key_str("osm"), raw, reason);
        },
        None => {},
    }
    let n = Node { name: podcast_tag("location"), children: Vec::new(), attributes, errors };
    proof {
        assert(n@.name =~= spec_analyze_location(*l).name);
        assert(n@.children =~~= spec_analyze_location(*l).children);
        assert(n@.attributes =~~= spec_analyze_location(*l).attributes);
        assert(n@.errors =~~= spec_analyze_location(*l).errors);
        assert(n@ =~~= spec_analyze_location(*l));
    }
    n
}

/// The canonical rendering of one source-set entry.
pub open spec fn spec_image_item(im: ImageSource) -> Seq<char> {
    "{ url: \""@ + im.url@ + "\", width: "@ + spec_dec_int(im.width as int) + " }"@
}

/// The canonical rendering of the entries of a source set, separated by
/// commas.
pub open spec fn spec_srcset_items(l: Seq<ImageSource>) -> Seq<char>
    decreases l.len(),
{
    if l.len() == 0 {
        Seq::<char>::empty()
    } else if l.len() == 1 {
        spec_image_item(l[0])
    } else {
        spec_srcset_items(l.drop_last()) + ", "@ + spec_image_item(l.last())
    }
}

/// The canonical rendering of a whole source set.
pub open spec fn spec_srcset_object(l: Seq<ImageSource>) -> Seq<char> {
    "[ "@ + spec_srcset_items(l) + " ]"@
}

pub(crate) fn render_srcset(list: &Vec<ImageSource>) -> (s: String)
    ensures
        s@ == spec_srcset_object(list@),
{
    let mut s = String::from_str("[ ");
    proof {
        assert(list@.subrange(0, 0) =~= Seq::<ImageSource>::empty());
        assert(s@ =~= "[ "@ + spec_srcset_items(list@.subrange(0, 0)));
    }
    let mut i: usize = 0;
    while i < list.len()
        invariant
            i <= list.len(),
            s@ == "[ "@ + spec_srcset_items(list@.subrange(0, i as int)),
        decreases list.len() - i,
    {
        if i > 0 {
            s.append(", ");
        }
        s.append("{ url: \"");
        s.append(list[i].url.as_str());
        s.append("\", width: ");
        let w = i64_to_dec(list[i].width);
        s.append(w.as_str());
        s.append(" }");
        proof {
            assert(list@.subrange(0, i as int + 1).drop_last() =~= list@.subrange(0, i as int));
            assert(list@.subrange(0, i as int + 1).last() == list@[i as int]);
            assert(s@ =~= "[ "@ + spec_srcset_items(list@.subrange(0, i as int + 1)));
        }
        i += 1;
    }
    s.append(" ]");
    proof {
        assert(list@.subrange(0, list@.len() as int) =~= list@);
        assert(s@ =~= spec_srcset_object(list@));
    }
    s
}

/// The node for a `podcast:images` tag: the whole source set is rendered
/// as one canonical value, or rejected as a whole.
pub open spec fn spec_analyze_images(im: Images) -> NodeS {
    let p: (Seq<(Seq<char>, ValueS)>, Seq<ErrorS>) = match im.srcset {
        Decoded::Valid(list) => (
            seq![("srcset"@, ValueS::Object(spec_srcset_object(list@)))],
            Seq::<ErrorS>::empty(),
        ),
        Decoded::Other(raw, reason) => (
            Seq::<(Seq<char>, ValueS)>::empty(),
            seq![spec_invalid_err("srcset"@, raw@, reason)],
        ),
    };
    NodeS {
        name: spec_podcast_tag("images"@),
        children: seq![],
        attributes: p.0,
        errors: p.1,
    }
}

/// Analyzes a `podcast:images` tag.
pub fn analyze_podcast_images(im: &Images) -> (n: Node)
    ensures
        n@ == spec_analyze_images(*im),
{
    let mut attributes: Vec<(String, Value)> = Vec::new();
    let mut errors: Vec<Error> = Vec::new();
    match &im.srcset {
        Decoded::Valid(list) => {
            attributes.push((key_str("srcset"), Value::Object(render_srcset(list))));
        },
        Decoded::Other(raw, reason) => {
            push_invalid(&mut errors, key_str("srcset"), raw, reason);
        },
    }
    let n = Node { name: podcast_tag("images"), children: Vec::new(), attributes, errors };
    proof {
        assert(n@.name =~= spec_analyze_images(*im).name);
        assert(n@.children =~~= spec_analyze_images(*im).children);
        assert(n@.attributes =~~= spec_analyze_images(*im).attributes);
        assert(n@.errors =~~= spec_analyze_images(*im).errors);
        assert(n@ =~~= spec_analyze_images(*im));
    }
    n
}

} // verus!
