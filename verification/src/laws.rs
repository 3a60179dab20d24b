//! Crate-wide guarantees that relate several functions, stated and proved
//! once so that callers can rely on them by name.

use vstd::prelude::*;

use crate::analyzer::{spec_analyze_location, spec_plain_tag, spec_podcast_tag};
use crate::containers::{spec_analyze_channel, spec_analyze_rss, spec_channel_list, spec_location_list};
use crate::diag::{ErrorS, Node};
use crate::feed::{Channel, Rss};

verus! {

/// Determinism: analysis is a pure function of the document model.  Any
/// two nodes produced for the same decoded document have equal models, so
/// two runs of [`crate::containers::analyze_rss`] on one document agree on
/// every tag, attribute, child and diagnostic.
pub proof fn lemma_analyze_deterministic(doc: Rss, n1: Node, n2: Node)
    requires
        n1@ == spec_analyze_rss(doc),
        n2@ == spec_analyze_rss(doc),
    ensures
        n1@ == n2@,
{
}

/// Completeness over short-circuit: when the one-allowed `channel`
/// container occurs several times, every instance is still fully analyzed
/// — the tree has one child per instance, in document order — and the
/// cardinality problem is reported separately, as exactly one
/// `MultipleChildren` diagnostic at the root.
pub proof fn lemma_completeness_over_short_circuit(doc: Rss)
    requires
        doc.channel@.len() >= 2,
    ensures
        spec_analyze_rss(doc).children.len() == doc.channel@.len(),
        forall|i: int|
            0 <= i < doc.channel@.len() ==> spec_analyze_rss(doc).children[i]
                == spec_analyze_channel(#[trigger] doc.channel@[i]),
        spec_analyze_rss(doc).errors == seq![
            ErrorS::MultipleChildren(spec_plain_tag("channel"@)),
        ],
{
    assert(spec_analyze_rss(doc).children =~= spec_channel_list(doc.channel@));
    assert(spec_analyze_rss(doc).errors =~= seq![
        ErrorS::MultipleChildren(spec_plain_tag("channel"@)),
    ]);
}

/// The dual cardinality rule: with no `channel` container at all, the root
/// has no children and exactly one `MissingChild` diagnostic.
pub proof fn lemma_missing_container_reported(doc: Rss)
    requires
        doc.channel@.len() == 0,
    ensures
        spec_analyze_rss(doc).children.len() == 0,
        spec_analyze_rss(doc).errors == seq![ErrorS::MissingChild(spec_plain_tag("channel"@))],
{
    assert(spec_analyze_rss(doc).children =~= spec_channel_list(doc.channel@));
    assert(spec_analyze_rss(doc).errors =~= seq![
        ErrorS::MissingChild(spec_plain_tag("channel"@)),
    ]);
}


/// Completeness over short-circuit inside a feed: in a channel that is
/// otherwise within its cardinality rules, a duplicated at-most-once
/// `podcast:location` child leaves exactly one `MultipleChildren`
/// diagnostic on the channel, while every location instance is still
/// analyzed, in document order, among the channel's children.
pub proof fn lemma_channel_duplicate_location_kept(c: Channel)
    requires
        c.title@.len() == 1,
        c.guid@.len() <= 1,
        c.medium@.len() <= 1,
        c.locked@.len() <= 1,
        c.license@.len() <= 1,
        c.images@.len() <= 1,
        c.location@.len() >= 2,
    ensures
        spec_analyze_channel(c).errors == seq![
            ErrorS::MultipleChildren(spec_podcast_tag("location"@)),
        ],
        forall|i: int|
            0 <= i < c.location@.len() ==> spec_analyze_channel(c).children[c.title@.len()
                + c.guid@.len() + c.medium@.len() + c.txt@.len() + c.block@.len()
                + c.locked@.len() + c.funding@.len() + i] == spec_analyze_location(
                #[trigger] c.location@[i],
            ),
{
    assert(spec_analyze_channel(c).errors =~= seq![
        ErrorS::MultipleChildren(spec_podcast_tag("location"@)),
    ]);
    let off = c.title@.len() + c.guid@.len() + c.medium@.len() + c.txt@.len() + c.block@.len()
        + c.locked@.len() + c.funding@.len();
    assert forall|i: int|
        0 <= i < c.location@.len() implies spec_analyze_channel(c).children[off + i]
        == spec_analyze_location(#[trigger] c.location@[i]) by {
        assert(spec_location_list(c.location@)[i] == spec_analyze_location(c.location@[i]));
    }
}

} // verus!
