//! Container analysis: the per-collection loops that turn each child tag
//! collection into a run of child nodes, and the container analyzers for
//! monetization blocks, alternate enclosures, episodes, live episodes, the
//! channel and the document root.

use vstd::prelude::*;

use crate::analyzer::{
    spec_analyze_block, spec_analyze_chapters,
    spec_analyze_content_link, spec_analyze_episode, spec_analyze_funding, spec_analyze_guid,
    spec_analyze_images, spec_analyze_integrity, spec_analyze_license, spec_analyze_location,
    spec_analyze_locked, spec_analyze_medium, spec_analyze_person, spec_analyze_season,
    spec_analyze_social_interact, spec_analyze_soundbite, spec_analyze_source,
    spec_analyze_title, spec_analyze_trailer, spec_analyze_transcript, spec_analyze_txt,
    spec_analyze_value_recipient,
};
use crate::analyzer::{
    analyze_podcast_block, analyze_podcast_chapters, analyze_podcast_content_link,
    analyze_podcast_episode, analyze_podcast_funding, analyze_podcast_guid,
    analyze_podcast_images, analyze_podcast_integrity, analyze_podcast_license,
    analyze_podcast_location, analyze_podcast_locked, analyze_podcast_medium,
    analyze_podcast_person, analyze_podcast_season, analyze_podcast_social_interact,
    analyze_podcast_soundbite, analyze_podcast_source, analyze_podcast_trailer,
    analyze_podcast_transcript, analyze_podcast_txt, analyze_podcast_value_recipient,
    analyze_title,
};
use crate::analyzer::{
    check_at_least_one, check_at_most_one, check_exactly_one, decoded_attr, key_str,
    plain_tag, podcast_tag, spec_at_least_one_errs, spec_at_most_one_errs, spec_bool_attr,
    spec_decoded_attr, spec_exactly_one_errs, spec_int_attr, spec_plain_tag, spec_podcast_tag,
    spec_text_attr, spec_text_attr_max, AttrKind,
};
use crate::analyzer::{bool_attr, int_attr, text_attr, text_attr_max};
use crate::diag::{nodes_view, Error, Node, NodeS, Value};
use crate::feed::{
    AlternateEnclosure, Block, Channel, Chapters, ContentLink, Decoded, Episode, Funding,
    Images, Integrity, Item, License, LiveItem, Location, Locked, Person, Rss, Season,
    SocialInteract, Soundbite, Source, Trailer, Transcript, Txt, ValueBlock, ValueRecipient,
};

verus! {

/// The nodes for a collection of `title` children, in document order.
pub open spec fn spec_title_list(l: Seq<String>) -> Seq<NodeS> {
    Seq::new(l.len(), |i: int| spec_analyze_title(l[i]@))
}

fn analyze_title_list(children: &mut Vec<Node>, list: &Vec<String>)
    ensures
        nodes_view(final(children)@) == nodes_view(old(children)@) + spec_title_list(list@),
{
    let ghost base = children@;
    proof {
        assert(list@.subrange(0, 0) =~= Seq::<String>::empty());
        assert(nodes_view(children@) =~= nodes_view(base) + spec_title_list(list@.subrange(0, 0)));
    }
    let mut i: usize = 0;
    while i < list.len()
        invariant
            i <= list.len(),
            nodes_view(children@) == nodes_view(base) + spec_title_list(
                list@.subrange(0, i as int),
            ),
        decreases list.len() - i,
    {
        let ghost prev = children@;
        let node = analyze_title(&list[i]);
        let ghost gn = node@;
        children.push(node);
        proof {
            assert(list@.subrange(0, i as int + 1) =~= list@.subrange(0, i as int).push(
                list@[i as int],
            ));
            assert(spec_title_list(list@.subrange(0, i as int).push(list@[i as int])) =~=
                spec_title_list(list@.subrange(0, i as int)).push(gn));
            assert(nodes_view(children@) =~= nodes_view(prev).push(gn));
            assert(nodes_view(base) + spec_title_list(list@.subrange(0, i as int)).push(gn) =~= (
            nodes_view(base) + spec_title_list(list@.subrange(0, i as int))).push(gn));
            assert(nodes_view(children@) =~= nodes_view(base) + spec_title_list(
                list@.subrange(0, i as int + 1),
            ));
        }
        i += 1;
    }
    proof {
        assert(list@.subrange(0, list@.len() as int) =~= list@);
    }
}

/// The nodes for a collection of `guid` children, in document order.
pub open spec fn spec_guid_list(l: Seq<Decoded<String>>) -> Seq<NodeS> {
    Seq::new(l.len(), |i: int| spec_analyze_guid(l[i]))
}

fn analyze_guid_list(children: &mut Vec<Node>, list: &Vec<Decoded<String>>)
    ensures
        nodes_view(final(children)@) == nodes_view(old(children)@) + spec_guid_list(list@),
{
    let ghost base = children@;
    proof {
        assert(list@.subrange(0, 0) =~= Seq::<Decoded<String>>::empty());
        assert(nodes_view(children@) =~= nodes_view(base) + spec_guid_list(list@.subrange(0, 0)));
    }
    let mut i: usize = 0;
    while i < list.len()
        invariant
            i <= list.len(),
            nodes_view(children@) == nodes_view(base) + spec_guid_list(
                list@.subrange(0, i as int),
            ),
        decreases list.len() - i,
    {
        let ghost prev = children@;
        let node = analyze_podcast_guid(&list[i]);
        let ghost gn = node@;
        children.push(node);
        proof {
            assert(list@.subrange(0, i as int + 1) =~= list@.subrange(0, i as int).push(
                list@[i as int],
            ));
            assert(spec_guid_list(list@.subrange(0, i as int).push(list@[i as int])) =~= spec_guid_list(
                list@.subrange(0, i as int),
            ).push(gn));
            assert(nodes_view(children@) =~= nodes_view(prev).push(gn));
            assert(nodes_view(base) + spec_guid_list(list@.subrange(0, i as int)).push(gn) =~= (
            nodes_view(base) + spec_guid_list(list@.subrange(0, i as int))).push(gn));
            assert(nodes_view(children@) =~= nodes_view(base) + spec_guid_list(
                list@.subrange(0, i as int + 1),
            ));
        }
        i += 1;
    }
    proof {
        assert(list@.subrange(0, list@.len() as int) =~= list@);
    }
}

/// The nodes for a collection of `medium` children, in document order.
pub open spec fn spec_medium_list(l: Seq<Decoded<String>>) -> Seq<NodeS> {
    Seq::new(l.len(), |i: int| spec_analyze_medium(l[i]))
}

fn analyze_medium_list(children: &mut Vec<Node>, list: &Vec<Decoded<String>>)
    ensures
        nodes_view(final(children)@) == nodes_view(old(children)@) + spec_medium_list(list@),
{
    let ghost base = children@;
    proof {
        assert(list@.subrange(0, 0) =~= Seq::<Decoded<String>>::empty());
        assert(nodes_view(children@) =~= nodes_view(base) + spec_medium_list(list@.subrange(0, 0)));
    }
    let mut i: usize = 0;
    while i < list.len()
        invariant
            i <= list.len(),
            nodes_view(children@) == nodes_view(base) + spec_medium_list(
                list@.subrange(0, i as int),
            ),
        decreases list.len() - i,
    {
        let ghost prev = children@;
        let node = analyze_podcast_medium(&list[i]);
        let ghost gn = node@;
        children.push(node);
        proof {
            assert(list@.subrange(0, i as int + 1) =~= list@.subrange(0, i as int).push(
                list@[i as int],
            ));
            assert(spec_medium_list(list@.subrange(0, i as int).push(list@[i as int])) =~= spec_medium_list(
                list@.subrange(0, i as int),
            ).push(gn));
            assert(nodes_view(children@) =~= nodes_view(prev).push(gn));
            assert(nodes_view(base) + spec_medium_list(list@.subrange(0, i as int)).push(gn) =~= (
            nodes_view(base) + spec_medium_list(list@.subrange(0, i as int))).push(gn));
            assert(nodes_view(children@) =~= nodes_view(base) + spec_medium_list(
                list@.subrange(0, i as int + 1),
            ));
        }
        i += 1;
    }
    proof {
        assert(list@.subrange(0, list@.len() as int) =~= list@);
    }
}

/// The nodes for a collection of `txt` children, in document order.
pub open spec fn spec_txt_list(l: Seq<Txt>) -> Seq<NodeS> {
    Seq::new(l.len(), |i: int| spec_analyze_txt(l[i]))
}

fn analyze_txt_list(children: &mut Vec<Node>, list: &Vec<Txt>)
    ensures
        nodes_view(final(children)@) == nodes_view(old(children)@) + spec_txt_list(list@),
{
    let ghost base = children@;
    proof {
        assert(list@.subrange(0, 0) =~= Seq::<Txt>::empty());
        assert(nodes_view(children@) =~= nodes_view(base) + spec_txt_list(list@.subrange(0, 0)));
    }
    let mut i: usize = 0;
    while i < list.len()
        invariant
            i <= list.len(),
            nodes_view(children@) == nodes_view(base) + spec_txt_list(
                list@.subrange(0, i as int),
            ),
        decreases list.len() - i,
    {
        let ghost prev = children@;
        let node = analyze_podcast_txt(&list[i]);
        let ghost gn = node@;
        children.push(node);
        proof {
            assert(list@.subrange(0, i as int + 1) =~= list@.subrange(0, i as int).push(
                list@[i as int],
            ));
            assert(spec_txt_list(list@.subrange(0, i as int).push(list@[i as int])) =~= spec_txt_list(
                list@.subrange(0, i as int),
            ).push(gn));
            assert(nodes_view(children@) =~= nodes_view(prev).push(gn));
            assert(nodes_view(base) + spec_txt_list(list@.subrange(0, i as int)).push(gn) =~= (
            nodes_view(base) + spec_txt_list(list@.subrange(0, i as int))).push(gn));
            assert(nodes_view(children@) =~= nodes_view(base) + spec_txt_list(
                list@.subrange(0, i as int + 1),
            ));
        }
        i += 1;
    }
    proof {
        assert(list@.subrange(0, list@.len() as int) =~= list@);
    }
}

/// The nodes for a collection of `block` children, in document order.
pub open spec fn spec_block_list(l: Seq<Block>) -> Seq<NodeS> {
    Seq::new(l.len(), |i: int| spec_analyze_block(l[i]))
}

fn analyze_block_list(children: &mut Vec<Node>, list: &Vec<Block>)
    ensures
        nodes_view(final(children)@) == nodes_view(old(children)@) + spec_block_list(list@),
{
    let ghost base = children@;
    proof {
        assert(list@.subrange(0, 0) =~= Seq::<Block>::empty());
        assert(nodes_view(children@) =~= nodes_view(base) + spec_block_list(list@.subrange(0, 0)));
    }
    let mut i: usize = 0;
    while i < list.len()
        invariant
            i <= list.len(),
            nodes_view(children@) == nodes_view(base) + spec_block_list(
                list@.subrange(0, i as int),
            ),
        decreases list.len() - i,
    {
        let ghost prev = children@;
        let node = analyze_podcast_block(&list[i]);
        let ghost gn = node@;
        children.push(node);
        proof {
            assert(list@.subrange(0, i as int + 1) =~= list@.subrange(0, i as int).push(
                list@[i as int],
            ));
            assert(spec_block_list(list@.subrange(0, i as int).push(list@[i as int])) =~= spec_block_list(
                list@.subrange(0, i as int),
            ).push(gn));
            assert(nodes_view(children@) =~= nodes_view(prev).push(gn));
            assert(nodes_view(base) + spec_block_list(list@.subrange(0, i as int)).push(gn) =~= (
            nodes_view(base) + spec_block_list(list@.subrange(0, i as int))).push(gn));
            assert(nodes_view(children@) =~= nodes_view(base) + spec_block_list(
                list@.subrange(0, i as int + 1),
            ));
        }
        i += 1;
    }
    proof {
        assert(list@.subrange(0, list@.len() as int) =~= list@);
    }
}

/// The nodes for a collection of `locked` children, in document order.
pub open spec fn spec_locked_list(l: Seq<Locked>) -> Seq<NodeS> {
    Seq::new(l.len(), |i: int| spec_analyze_locked(l[i]))
}

fn analyze_locked_list(children: &mut Vec<Node>, list: &Vec<Locked>)
    ensures
        nodes_view(final(children)@) == nodes_view(old(children)@) + spec_locked_list(list@),
{
    let ghost base = children@;
    proof {
        assert(list@.subrange(0, 0) =~= Seq::<Locked>::empty());
        assert(nodes_view(children@) =~= nodes_view(base) + spec_locked_list(list@.subrange(0, 0)));
    }
    let mut i: usize = 0;
    while i < list.len()
        invariant
            i <= list.len(),
            nodes_view(children@) == nodes_view(base) + spec_locked_list(
                list@.subrange(0, i as int),
            ),
        decreases list.len() - i,
    {
        let ghost prev = children@;
        let node = analyze_podcast_locked(&list[i]);
        let ghost gn = node@;
        children.push(node);
        proof {
            assert(list@.subrange(0, i as int + 1) =~= list@.subrange(0, i as int).push(
                list@[i as int],
            ));
            assert(spec_locked_list(list@.subrange(0, i as int).push(list@[i as int])) =~= spec_locked_list(
                list@.subrange(0, i as int),
            ).push(gn));
            assert(nodes_view(children@) =~= nodes_view(prev).push(gn));
            assert(nodes_view(base) + spec_locked_list(list@.subrange(0, i as int)).push(gn) =~= (
            nodes_view(base) + spec_locked_list(list@.subrange(0, i as int))).push(gn));
            assert(nodes_view(children@) =~= nodes_view(base) + spec_locked_list(
                list@.subrange(0, i as int + 1),
            ));
        }
        i += 1;
    }
    proof {
        assert(list@.subrange(0, list@.len() as int) =~= list@);
    }
}

/// The nodes for a collection of `funding` children, in document order.
pub open spec fn spec_funding_list(l: Seq<Funding>) -> Seq<NodeS> {
    Seq::new(l.len(), |i: int| spec_analyze_funding(l[i]))
}

fn analyze_funding_list(children: &mut Vec<Node>, list: &Vec<Funding>)
    ensures
        nodes_view(final(children)@) == nodes_view(old(children)@) + spec_funding_list(list@),
{
    let ghost base = children@;
    proof {
        assert(list@.subrange(0, 0) =~= Seq::<Funding>::empty());
        assert(nodes_view(children@) =~= nodes_view(base) + spec_funding_list(list@.subrange(0, 0)));
    }
    let mut i: usize = 0;
    while i < list.len()
        invariant
            i <= list.len(),
            nodes_view(children@) == nodes_view(base) + spec_funding_list(
                list@.subrange(0, i as int),
            ),
        decreases list.len() - i,
    {
        let ghost prev = children@;
        let node = analyze_podcast_funding(&list[i]);
        let ghost gn = node@;
        children.push(node);
        proof {
            assert(list@.subrange(0, i as int + 1) =~= list@.subrange(0, i as int).push(
                list@[i as int],
            ));
            assert(spec_funding_list(list@.subrange(0, i as int).push(list@[i as int])) =~= spec_funding_list(
                list@.subrange(0, i as int),
            ).push(gn));
            assert(nodes_view(children@) =~= nodes_view(prev).push(gn));
            assert(nodes_view(base) + spec_funding_list(list@.subrange(0, i as int)).push(gn) =~= (
            nodes_view(base) + spec_funding_list(list@.subrange(0, i as int))).push(gn));
            assert(nodes_view(children@) =~= nodes_view(base) + spec_funding_list(
                list@.subrange(0, i as int + 1),
            ));
        }
        i += 1;
    }
    proof {
        assert(list@.subrange(0, list@.len() as int) =~= list@);
    }
}

/// The nodes for a collection of `location` children, in document order.
pub open spec fn spec_location_list(l: Seq<Location>) -> Seq<NodeS> {
    Seq::new(l.len(), |i: int| spec_analyze_location(l[i]))
}

fn analyze_location_list(children: &mut Vec<Node>, list: &Vec<Location>)
    ensures
        nodes_view(final(children)@) == nodes_view(old(children)@) + spec_location_list(list@),
{
    let ghost base = children@;
    proof {
        assert(list@.subrange(0, 0) =~= Seq::<Location>::empty());
        assert(nodes_view(children@) =~= nodes_view(base) + spec_location_list(list@.subrange(0, 0)));
    }
    let mut i: usize = 0;
    while i < list.len()
        invariant
            i <= list.len(),
            nodes_view(children@) == nodes_view(base) + spec_location_list(
                list@.subrange(0, i as int),
            ),
        decreases list.len() - i,
    {
        let ghost prev = children@;
        let node = analyze_podcast_location(&list[i]);
        let ghost gn = node@;
        children.push(node);
        proof {
            assert(list@.subrange(0, i as int + 1) =~= list@.subrange(0, i as int).push(
                list@[i as int],
            ));
            assert(spec_location_list(list@.subrange(0, i as int).push(list@[i as int])) =~= spec_location_list(
                list@.subrange(0, i as int),
            ).push(gn));
            assert(nodes_view(children@) =~= nodes_view(prev).push(gn));
            assert(nodes_view(base) + spec_location_list(list@.subrange(0, i as int)).push(gn) =~= (
            nodes_view(base) + spec_location_list(list@.subrange(0, i as int))).push(gn));
            assert(nodes_view(children@) =~= nodes_view(base) + spec_location_list(
                list@.subrange(0, i as int + 1),
            ));
        }
        i += 1;
    }
    proof {
        assert(list@.subrange(0, list@.len() as int) =~= list@);
    }
}

/// The nodes for a collection of `person` children, in document order.
pub open spec fn spec_person_list(l: Seq<Person>) -> Seq<NodeS> {
    Seq::new(l.len(), |i: int| spec_analyze_person(l[i]))
}

fn analyze_person_list(children: &mut Vec<Node>, list: &Vec<Person>)
    ensures
        nodes_view(final(children)@) == nodes_view(old(children)@) + spec_person_list(list@),
{
    let ghost base = children@;
    proof {
        assert(list@.subrange(0, 0) =~= Seq::<Person>::empty());
        assert(nodes_view(children@) =~= nodes_view(base) + spec_person_list(list@.subrange(0, 0)));
    }
    let mut i: usize = 0;
    while i < list.len()
        invariant
            i <= list.len(),
            nodes_view(children@) == nodes_view(base) + spec_person_list(
                list@.subrange(0, i as int),
            ),
        decreases list.len() - i,
    {
        let ghost prev = children@;
        let node = analyze_podcast_person(&list[i]);
        let ghost gn = node@;
        children.push(node);
        proof {
            assert(list@.subrange(0, i as int + 1) =~= list@.subrange(0, i as int).push(
                list@[i as int],
            ));
            assert(spec_person_list(list@.subrange(0, i as int).push(list@[i as int])) =~= spec_person_list(
                list@.subrange(0, i as int),
            ).push(gn));
            assert(nodes_view(children@) =~= nodes_view(prev).push(gn));
            assert(nodes_view(base) + spec_person_list(list@.subrange(0, i as int)).push(gn) =~= (
            nodes_view(base) + spec_person_list(list@.subrange(0, i as int))).push(gn));
            assert(nodes_view(children@) =~= nodes_view(base) + spec_person_list(
                list@.subrange(0, i as int + 1),
            ));
        }
        i += 1;
    }
    proof {
        assert(list@.subrange(0, list@.len() as int) =~= list@);
    }
}

/// The nodes for a collection of `trailer` children, in document order.
pub open spec fn spec_trailer_list(l: Seq<Trailer>) -> Seq<NodeS> {
    Seq::new(l.len(), |i: int| spec_analyze_trailer(l[i]))
}

fn analyze_trailer_list(children: &mut Vec<Node>, list: &Vec<Trailer>)
    ensures
        nodes_view(final(children)@) == nodes_view(old(children)@) + spec_trailer_list(list@),
{
    let ghost base = children@;
    proof {
        assert(list@.subrange(0, 0) =~= Seq::<Trailer>::empty());
        assert(nodes_view(children@) =~= nodes_view(base) + spec_trailer_list(list@.subrange(0, 0)));
    }
    let mut i: usize = 0;
    while i < list.len()
        invariant
            i <= list.len(),
            nodes_view(children@) == nodes_view(base) + spec_trailer_list(
                list@.subrange(0, i as int),
            ),
        decreases list.len() - i,
    {
        let ghost prev = children@;
        let node = analyze_podcast_trailer(&list[i]);
        let ghost gn = node@;
        children.push(node);
        proof {
            assert(list@.subrange(0, i as int + 1) =~= list@.subrange(0, i as int).push(
                list@[i as int],
            ));
            assert(spec_trailer_list(list@.subrange(0, i as int).push(list@[i as int])) =~= spec_trailer_list(
                list@.subrange(0, i as int),
            ).push(gn));
            assert(nodes_view(children@) =~= nodes_view(prev).push(gn));
            assert(nodes_view(base) + spec_trailer_list(list@.subrange(0, i as int)).push(gn) =~= (
            nodes_view(base) + spec_trailer_list(list@.subrange(0, i as int))).push(gn));
            assert(nodes_view(children@) =~= nodes_view(base) + spec_trailer_list(
                list@.subrange(0, i as int + 1),
            ));
        }
        i += 1;
    }
    proof {
        assert(list@.subrange(0, list@.len() as int) =~= list@);
    }
}

/// The nodes for a collection of `license` children, in document order.
pub open spec fn spec_license_list(l: Seq<License>) -> Seq<NodeS> {
    Seq::new(l.len(), |i: int| spec_analyze_license(l[i]))
}

fn analyze_license_list(children: &mut Vec<Node>, list: &Vec<License>)
    ensures
        nodes_view(final(children)@) == nodes_view(old(children)@) + spec_license_list(list@),
{
    let ghost base = children@;
    proof {
        assert(list@.subrange(0, 0) =~= Seq::<License>::empty());
        assert(nodes_view(children@) =~= nodes_view(base) + spec_license_list(list@.subrange(0, 0)));
    }
    let mut i: usize = 0;
    while i < list.len()
        invariant
            i <= list.len(),
            nodes_view(children@) == nodes_view(base) + spec_license_list(
                list@.subrange(0, i as int),
            ),
        decreases list.len() - i,
    {
        let ghost prev = children@;
        let node = analyze_podcast_license(&list[i]);
        let ghost gn = node@;
        children.push(node);
        proof {
            assert(list@.subrange(0, i as int + 1) =~= list@.subrange(0, i as int).push(
                list@[i as int],
            ));
            assert(spec_license_list(list@.subrange(0, i as int).push(list@[i as int])) =~= spec_license_list(
                list@.subrange(0, i as int),
            ).push(gn));
            assert(nodes_view(children@) =~= nodes_view(prev).push(gn));
            assert(nodes_view(base) + spec_license_list(list@.subrange(0, i as int)).push(gn) =~= (
            nodes_view(base) + spec_license_list(list@.subrange(0, i as int))).push(gn));
            assert(nodes_view(children@) =~= nodes_view(base) + spec_license_list(
                list@.subrange(0, i as int + 1),
            ));
        }
        i += 1;
    }
    proof {
        assert(list@.subrange(0, list@.len() as int) =~= list@);
    }
}

/// The nodes for a collection of `value_block` children, in document order.
pub open spec fn spec_value_block_list(l: Seq<ValueBlock>) -> Seq<NodeS> {
    Seq::new(l.len(), |i: int| spec_analyze_value(l[i]))
}

fn analyze_value_block_list(children: &mut Vec<Node>, list: &Vec<ValueBlock>)
    ensures
        nodes_view(final(children)@) == nodes_view(old(children)@) + spec_value_block_list(list@),
{
    let ghost base = children@;
    proof {
        assert(list@.subrange(0, 0) =~= Seq::<ValueBlock>::empty());
        assert(nodes_view(children@) =~= nodes_view(base) + spec_value_block_list(list@.subrange(0, 0)));
    }
    let mut i: usize = 0;
    while i < list.len()
        invariant
            i <= list.len(),
            nodes_view(children@) == nodes_view(base) + spec_value_block_list(
                list@.subrange(0, i as int),
            ),
        decreases list.len() - i,
    {
        let ghost prev = children@;
        let node = analyze_podcast_value(&list[i]);
        let ghost gn = node@;
        children.push(node);
        proof {
            assert(list@.subrange(0, i as int + 1) =~= list@.subrange(0, i as int).push(
                list@[i as int],
            ));
            assert(spec_value_block_list(list@.subrange(0, i as int).push(list@[i as int])) =~= spec_value_block_list(
                list@.subrange(0, i as int),
            ).push(gn));
            assert(nodes_view(children@) =~= nodes_view(prev).push(gn));
            assert(nodes_view(base) + spec_value_block_list(list@.subrange(0, i as int)).push(gn) =~= (
            nodes_view(base) + spec_value_block_list(list@.subrange(0, i as int))).push(gn));
            assert(nodes_view(children@) =~= nodes_view(base) + spec_value_block_list(
                list@.subrange(0, i as int + 1),
            ));
        }
        i += 1;
    }
    proof {
        assert(list@.subrange(0, list@.len() as int) =~= list@);
    }
}

/// The nodes for a collection of `images` children, in document order.
pub open spec fn spec_images_list(l: Seq<Images>) -> Seq<NodeS> {
    Seq::new(l.len(), |i: int| spec_analyze_images(l[i]))
}

fn analyze_images_list(children: &mut Vec<Node>, list: &Vec<Images>)
    ensures
        nodes_view(final(children)@) == nodes_view(old(children)@) + spec_images_list(list@),
{
    let ghost base = children@;
    proof {
        assert(list@.subrange(0, 0) =~= Seq::<Images>::empty());
        assert(nodes_view(children@) =~= nodes_view(base) + spec_images_list(list@.subrange(0, 0)));
    }
    let mut i: usize = 0;
    while i < list.len()
        invariant
            i <= list.len(),
            nodes_view(children@) == nodes_view(base) + spec_images_list(
                list@.subrange(0, i as int),
            ),
        decreases list.len() - i,
    {
        let ghost prev = children@;
        let node = analyze_podcast_images(&list[i]);
        let ghost gn = node@;
        children.push(node);
        proof {
            assert(list@.subrange(0, i as int + 1) =~= list@.subrange(0, i as int).push(
                list@[i as int],
            ));
            assert(spec_images_list(list@.subrange(0, i as int).push(list@[i as int])) =~= spec_images_list(
                list@.subrange(0, i as int),
            ).push(gn));
            assert(nodes_view(children@) =~= nodes_view(prev).push(gn));
            assert(nodes_view(base) + spec_images_list(list@.subrange(0, i as int)).push(gn) =~= (
            nodes_view(base) + spec_images_list(list@.subrange(0, i as int))).push(gn));
            assert(nodes_view(children@) =~= nodes_view(base) + spec_images_list(
                list@.subrange(0, i as int + 1),
            ));
        }
        i += 1;
    }
    proof {
        assert(list@.subrange(0, list@.len() as int) =~= list@);
    }
}

/// The nodes for a collection of `transcript` children, in document order.
pub open spec fn spec_transcript_list(l: Seq<Transcript>) -> Seq<NodeS> {
    Seq::new(l.len(), |i: int| spec_analyze_transcript(l[i]))
}

fn analyze_transcript_list(children: &mut Vec<Node>, list: &Vec<Transcript>)
    ensures
        nodes_view(final(children)@) == nodes_view(old(children)@) + spec_transcript_list(list@),
{
    let ghost base = children@;
    proof {
        assert(list@.subrange(0, 0) =~= Seq::<Transcript>::empty());
        assert(nodes_view(children@) =~= nodes_view(base) + spec_transcript_list(list@.subrange(0, 0)));
    }
    let mut i: usize = 0;
    while i < list.len()
        invariant
            i <= list.len(),
            nodes_view(children@) == nodes_view(base) + spec_transcript_list(
                list@.subrange(0, i as int),
            ),
        decreases list.len() - i,
    {
        let ghost prev = children@;
        let node = analyze_podcast_transcript(&list[i]);
        let ghost gn = node@;
        children.push(node);
        proof {
            assert(list@.subrange(0, i as int + 1) =~= list@.subrange(0, i as int).push(
                list@[i as int],
            ));
            assert(spec_transcript_list(list@.subrange(0, i as int).push(list@[i as int])) =~= spec_transcript_list(
                list@.subrange(0, i as int),
            ).push(gn));
            assert(nodes_view(children@) =~= nodes_view(prev).push(gn));
            assert(nodes_view(base) + spec_transcript_list(list@.subrange(0, i as int)).push(gn) =~= (
            nodes_view(base) + spec_transcript_list(list@.subrange(0, i as int))).push(gn));
            assert(nodes_view(children@) =~= nodes_view(base) + spec_transcript_list(
                list@.subrange(0, i as int + 1),
            ));
        }
        i += 1;
    }
    proof {
        assert(list@.subrange(0, list@.len() as int) =~= list@);
    }
}

/// The nodes for a collection of `chapters` children, in document order.
pub open spec fn spec_chapters_list(l: Seq<Chapters>) -> Seq<NodeS> {
    Seq::new(l.len(), |i: int| spec_analyze_chapters(l[i]))
}

fn analyze_chapters_list(children: &mut Vec<Node>, list: &Vec<Chapters>)
    ensures
        nodes_view(final(children)@) == nodes_view(old(children)@) + spec_chapters_list(list@),
{
    let ghost base = children@;
    proof {
        assert(list@.subrange(0, 0) =~= Seq::<Chapters>::empty());
        assert(nodes_view(children@) =~= nodes_view(base) + spec_chapters_list(list@.subrange(0, 0)));
    }
    let mut i: usize = 0;
    while i < list.len()
        invariant
            i <= list.len(),
            nodes_view(children@) == nodes_view(base) + spec_chapters_list(
                list@.subrange(0, i as int),
            ),
        decreases list.len() - i,
    {
        let ghost prev = children@;
        let node = analyze_podcast_chapters(&list[i]);
        let ghost gn = node@;
        children.push(node);
        proof {
            assert(list@.subrange(0, i as int + 1) =~= list@.subrange(0, i as int).push(
                list@[i as int],
            ));
            assert(spec_chapters_list(list@.subrange(0, i as int).push(list@[i as int])) =~= spec_chapters_list(
                list@.subrange(0, i as int),
            ).push(gn));
            assert(nodes_view(children@) =~= nodes_view(prev).push(gn));
            assert(nodes_view(base) + spec_chapters_list(list@.subrange(0, i as int)).push(gn) =~= (
            nodes_view(base) + spec_chapters_list(list@.subrange(0, i as int))).push(gn));
            assert(nodes_view(children@) =~= nodes_view(base) + spec_chapters_list(
                list@.subrange(0, i as int + 1),
            ));
        }
        i += 1;
    }
    proof {
        assert(list@.subrange(0, list@.len() as int) =~= list@);
    }
}

/// The nodes for a collection of `soundbite` children, in document order.
pub open spec fn spec_soundbite_list(l: Seq<Soundbite>) -> Seq<NodeS> {
    Seq::new(l.len(), |i: int| spec_analyze_soundbite(l[i]))
}

fn analyze_soundbite_list(children: &mut Vec<Node>, list: &Vec<Soundbite>)
    ensures
        nodes_view(final(children)@) == nodes_view(old(children)@) + spec_soundbite_list(list@),
{
    let ghost base = children@;
    proof {
        assert(list@.subrange(0, 0) =~= Seq::<Soundbite>::empty());
        assert(nodes_view(children@) =~= nodes_view(base) + spec_soundbite_list(list@.subrange(0, 0)));
    }
    let mut i: usize = 0;
    while i < list.len()
        invariant
            i <= list.len(),
            nodes_view(children@) == nodes_view(base) + spec_soundbite_list(
                list@.subrange(0, i as int),
            ),
        decreases list.len() - i,
    {
        let ghost prev = children@;
        let node = analyze_podcast_soundbite(&list[i]);
        let ghost gn = node@;
        children.push(node);
        proof {
            assert(list@.subrange(0, i as int + 1) =~= list@.subrange(0, i as int).push(
                list@[i as int],
            ));
            assert(spec_soundbite_list(list@.subrange(0, i as int).push(list@[i as int])) =~= spec_soundbite_list(
                list@.subrange(0, i as int),
            ).push(gn));
            assert(nodes_view(children@) =~= nodes_view(prev).push(gn));
            assert(nodes_view(base) + spec_soundbite_list(list@.subrange(0, i as int)).push(gn) =~= (
            nodes_view(base) + spec_soundbite_list(list@.subrange(0, i as int))).push(gn));
            assert(nodes_view(children@) =~= nodes_view(base) + spec_soundbite_list(
                list@.subrange(0, i as int + 1),
            ));
        }
        i += 1;
    }
    proof {
        assert(list@.subrange(0, list@.len() as int) =~= list@);
    }
}

/// The nodes for a collection of `season` children, in document order.
pub open spec fn spec_season_list(l: Seq<Season>) -> Seq<NodeS> {
    Seq::new(l.len(), |i: int| spec_analyze_season(l[i]))
}

fn analyze_season_list(children: &mut Vec<Node>, list: &Vec<Season>)
    ensures
        nodes_view(final(children)@) == nodes_view(old(children)@) + spec_season_list(list@),
{
    let ghost base = children@;
    proof {
        assert(list@.subrange(0, 0) =~= Seq::<Season>::empty());
        assert(nodes_view(children@) =~= nodes_view(base) + spec_season_list(list@.subrange(0, 0)));
    }
    let mut i: usize = 0;
    while i < list.len()
        invariant
            i <= list.len(),
            nodes_view(children@) == nodes_view(base) + spec_season_list(
                list@.subrange(0, i as int),
            ),
        decreases list.len() - i,
    {
        let ghost prev = children@;
        let node = analyze_podcast_season(&list[i]);
        let ghost gn = node@;
        children.push(node);
        proof {
            assert(list@.subrange(0, i as int + 1) =~= list@.subrange(0, i as int).push(
                list@[i as int],
            ));
            assert(spec_season_list(list@.subrange(0, i as int).push(list@[i as int])) =~= spec_season_list(
                list@.subrange(0, i as int),
            ).push(gn));
            assert(nodes_view(children@) =~= nodes_view(prev).push(gn));
            assert(nodes_view(base) + spec_season_list(list@.subrange(0, i as int)).push(gn) =~= (
            nodes_view(base) + spec_season_list(list@.subrange(0, i as int))).push(gn));
            assert(nodes_view(children@) =~= nodes_view(base) + spec_season_list(
                list@.subrange(0, i as int + 1),
            ));
        }
        i += 1;
    }
    proof {
        assert(list@.subrange(0, list@.len() as int) =~= list@);
    }
}

/// The nodes for a collection of `episode` children, in document order.
pub open spec fn spec_episode_list(l: Seq<Episode>) -> Seq<NodeS> {
    Seq::new(l.len(), |i: int| spec_analyze_episode(l[i]))
}

fn analyze_episode_list(children: &mut Vec<Node>, list: &Vec<Episode>)
    ensures
        nodes_view(final(children)@) == nodes_view(old(children)@) + spec_episode_list(list@),
{
    let ghost base = children@;
    proof {
        assert(list@.subrange(0, 0) =~= Seq::<Episode>::empty());
        assert(nodes_view(children@) =~= nodes_view(base) + spec_episode_list(list@.subrange(0, 0)));
    }
    let mut i: usize = 0;
    while i < list.len()
        invariant
            i <= list.len(),
            nodes_view(children@) == nodes_view(base) + spec_episode_list(
                list@.subrange(0, i as int),
            ),
        decreases list.len() - i,
    {
        let ghost prev = children@;
        let node = analyze_podcast_episode(&list[i]);
        let ghost gn = node@;
        children.push(node);
        proof {
            assert(list@.subrange(0, i as int + 1) =~= list@.subrange(0, i as int).push(
                list@[i as int],
            ));
            assert(spec_episode_list(list@.subrange(0, i as int).push(list@[i as int])) =~= spec_episode_list(
                list@.subrange(0, i as int),
            ).push(gn));
            assert(nodes_view(children@) =~= nodes_view(prev).push(gn));
            assert(nodes_view(base) + spec_episode_list(list@.subrange(0, i as int)).push(gn) =~= (
            nodes_view(base) + spec_episode_list(list@.subrange(0, i as int))).push(gn));
            assert(nodes_view(children@) =~= nodes_view(base) + spec_episode_list(
                list@.subrange(0, i as int + 1),
            ));
        }
        i += 1;
    }
    proof {
        assert(list@.subrange(0, list@.len() as int) =~= list@);
    }
}

/// The nodes for a collection of `alternate_enclosure` children, in document order.
pub open spec fn spec_alternate_enclosure_list(l: Seq<AlternateEnclosure>) -> Seq<NodeS> {
    Seq::new(l.len(), |i: int| spec_analyze_alternate_enclosure(l[i]))
}

fn analyze_alternate_enclosure_list(children: &mut Vec<Node>, list: &Vec<AlternateEnclosure>)
    ensures
        nodes_view(final(children)@) == nodes_view(old(children)@) + spec_alternate_enclosure_list(list@),
{
    let ghost base = children@;
    proof {
        assert(list@.subrange(0, 0) =~= Seq::<AlternateEnclosure>::empty());
        assert(nodes_view(children@) =~= nodes_view(base) + spec_alternate_enclosure_list(list@.subrange(0, 0)));
    }
    let mut i: usize = 0;
    while i < list.len()
        invariant
            i <= list.len(),
            nodes_view(children@) == nodes_view(base) + spec_alternate_enclosure_list(
                list@.subrange(0, i as int),
            ),
        decreases list.len() - i,
    {
        let ghost prev = children@;
        let node = analyze_podcast_alternate_enclosure(&list[i]);
        let ghost gn = node@;
        children.push(node);
        proof {
            assert(list@.subrange(0, i as int + 1) =~= list@.subrange(0, i as int).push(
                list@[i as int],
            ));
            assert(spec_alternate_enclosure_list(list@.subrange(0, i as int).push(list@[i as int])) =~= spec_alternate_enclosure_list(
                list@.subrange(0, i as int),
            ).push(gn));
            assert(nodes_view(children@) =~= nodes_view(prev).push(gn));
            assert(nodes_view(base) + spec_alternate_enclosure_list(list@.subrange(0, i as int)).push(gn) =~= (
            nodes_view(base) + spec_alternate_enclosure_list(list@.subrange(0, i as int))).push(gn));
            assert(nodes_view(children@) =~= nodes_view(base) + spec_alternate_enclosure_list(
                list@.subrange(0, i as int + 1),
            ));
        }
        i += 1;
    }
    proof {
        assert(list@.subrange(0, list@.len() as int) =~= list@);
    }
}

/// The nodes for a collection of `social_interact` children, in document order.
pub open spec fn spec_social_interact_list(l: Seq<SocialInteract>) -> Seq<NodeS> {
    Seq::new(l.len(), |i: int| spec_analyze_social_interact(l[i]))
}

fn analyze_social_interact_list(children: &mut Vec<Node>, list: &Vec<SocialInteract>)
    ensures
        nodes_view(final(children)@) == nodes_view(old(children)@) + spec_social_interact_list(list@),
{
    let ghost base = children@;
    proof {
        assert(list@.subrange(0, 0) =~= Seq::<SocialInteract>::empty());
        assert(nodes_view(children@) =~= nodes_view(base) + spec_social_interact_list(list@.subrange(0, 0)));
    }
    let mut i: usize = 0;
    while i < list.len()
        invariant
            i <= list.len(),
            nodes_view(children@) == nodes_view(base) + spec_social_interact_list(
                list@.subrange(0, i as int),
            ),
        decreases list.len() - i,
    {
        let ghost prev = children@;
        let node = analyze_podcast_social_interact(&list[i]);
        let ghost gn = node@;
        children.push(node);
        proof {
            assert(list@.subrange(0, i as int + 1) =~= list@.subrange(0, i as int).push(
                list@[i as int],
            ));
            assert(spec_social_interact_list(list@.subrange(0, i as int).push(list@[i as int])) =~= spec_social_interact_list(
                list@.subrange(0, i as int),
            ).push(gn));
            assert(nodes_view(children@) =~= nodes_view(prev).push(gn));
            assert(nodes_view(base) + spec_social_interact_list(list@.subrange(0, i as int)).push(gn) =~= (
            nodes_view(base) + spec_social_interact_list(list@.subrange(0, i as int))).push(gn));
            assert(nodes_view(children@) =~= nodes_view(base) + spec_social_interact_list(
                list@.subrange(0, i as int + 1),
            ));
        }
        i += 1;
    }
    proof {
        assert(list@.subrange(0, list@.len() as int) =~= list@);
    }
}

/// The nodes for a collection of `content_link` children, in document order.
pub open spec fn spec_content_link_list(l: Seq<ContentLink>) -> Seq<NodeS> {
    Seq::new(l.len(), |i: int| spec_analyze_content_link(l[i]))
}

fn analyze_content_link_list(children: &mut Vec<Node>, list: &Vec<ContentLink>)
    ensures
        nodes_view(final(children)@) == nodes_view(old(children)@) + spec_content_link_list(list@),
{
    let ghost base = children@;
    proof {
        assert(list@.subrange(0, 0) =~= Seq::<ContentLink>::empty());
        assert(nodes_view(children@) =~= nodes_view(base) + spec_content_link_list(list@.subrange(0, 0)));
    }
    let mut i: usize = 0;
    while i < list.len()
        invariant
            i <= list.len(),
            nodes_view(children@) == nodes_view(base) + spec_content_link_list(
                list@.subrange(0, i as int),
            ),
        decreases list.len() - i,
    {
        let ghost prev = children@;
        let node = analyze_podcast_content_link(&list[i]);
        let ghost gn = node@;
        children.push(node);
        proof {
            assert(list@.subrange(0, i as int + 1) =~= list@.subrange(0, i as int).push(
                list@[i as int],
            ));
            assert(spec_content_link_list(list@.subrange(0, i as int).push(list@[i as int])) =~= spec_content_link_list(
                list@.subrange(0, i as int),
            ).push(gn));
            assert(nodes_view(children@) =~= nodes_view(prev).push(gn));
            assert(nodes_view(base) + spec_content_link_list(list@.subrange(0, i as int)).push(gn) =~= (
            nodes_view(base) + spec_content_link_list(list@.subrange(0, i as int))).push(gn));
            assert(nodes_view(children@) =~= nodes_view(base) + spec_content_link_list(
                list@.subrange(0, i as int + 1),
            ));
        }
        i += 1;
    }
    proof {
        assert(list@.subrange(0, list@.len() as int) =~= list@);
    }
}

/// The nodes for a collection of `source` children, in document order.
pub open spec fn spec_source_list(l: Seq<Source>) -> Seq<NodeS> {
    Seq::new(l.len(), |i: int| spec_analyze_source(l[i]))
}

fn analyze_source_list(children: &mut Vec<Node>, list: &Vec<Source>)
    ensures
        nodes_view(final(children)@) == nodes_view(old(children)@) + spec_source_list(list@),
{
    let ghost base = children@;
    proof {
        assert(list@.subrange(0, 0) =~= Seq::<Source>::empty());
        assert(nodes_view(children@) =~= nodes_view(base) + spec_source_list(list@.subrange(0, 0)));
    }
    let mut i: usize = 0;
    while i < list.len()
        invariant
            i <= list.len(),
            nodes_view(children@) == nodes_view(base) + spec_source_list(
                list@.subrange(0, i as int),
            ),
        decreases list.len() - i,
    {
        let ghost prev = children@;
        let node = analyze_podcast_source(&list[i]);
        let ghost gn = node@;
        children.push(node);
        proof {
            assert(list@.subrange(0, i as int + 1) =~= list@.subrange(0, i as int).push(
                list@[i as int],
            ));
            assert(spec_source_list(list@.subrange(0, i as int).push(list@[i as int])) =~= spec_source_list(
                list@.subrange(0, i as int),
            ).push(gn));
            assert(nodes_view(children@) =~= nodes_view(prev).push(gn));
            assert(nodes_view(base) + spec_source_list(list@.subrange(0, i as int)).push(gn) =~= (
            nodes_view(base) + spec_source_list(list@.subrange(0, i as int))).push(gn));
            assert(nodes_view(children@) =~= nodes_view(base) + spec_source_list(
                list@.subrange(0, i as int + 1),
            ));
        }
        i += 1;
    }
    proof {
        assert(list@.subrange(0, list@.len() as int) =~= list@);
    }
}

/// The nodes for a collection of `integrity` children, in document order.
pub open spec fn spec_integrity_list(l: Seq<Integrity>) -> Seq<NodeS> {
    Seq::new(l.len(), |i: int| spec_analyze_integrity(l[i]))
}

fn analyze_integrity_list(children: &mut Vec<Node>, list: &Vec<Integrity>)
    ensures
        nodes_view(final(children)@) == nodes_view(old(children)@) + spec_integrity_list(list@),
{
    let ghost base = children@;
    proof {
        assert(list@.subrange(0, 0) =~= Seq::<Integrity>::empty());
        assert(nodes_view(children@) =~= nodes_view(base) + spec_integrity_list(list@.subrange(0, 0)));
    }
    let mut i: usize = 0;
    while i < list.len()
        invariant
            i <= list.len(),
            nodes_view(children@) == nodes_view(base) + spec_integrity_list(
                list@.subrange(0, i as int),
            ),
        decreases list.len() - i,
    {
        let ghost prev = children@;
        let node = analyze_podcast_integrity(&list[i]);
        let ghost gn = node@;
        children.push(node);
        proof {
            assert(list@.subrange(0, i as int + 1) =~= list@.subrange(0, i as int).push(
                list@[i as int],
            ));
            assert(spec_integrity_list(list@.subrange(0, i as int).push(list@[i as int])) =~= spec_integrity_list(
                list@.subrange(0, i as int),
            ).push(gn));
            assert(nodes_view(children@) =~= nodes_view(prev).push(gn));
            assert(nodes_view(base) + spec_integrity_list(list@.subrange(0, i as int)).push(gn) =~= (
            nodes_view(base) + spec_integrity_list(list@.subrange(0, i as int))).push(gn));
            assert(nodes_view(children@) =~= nodes_view(base) + spec_integrity_list(
                list@.subrange(0, i as int + 1),
            ));
        }
        i += 1;
    }
    proof {
        assert(list@.subrange(0, list@.len() as int) =~= list@);
    }
}

/// The nodes for a collection of `value_recipient` children, in document order.
pub open spec fn spec_value_recipient_list(l: Seq<ValueRecipient>) -> Seq<NodeS> {
    Seq::new(l.len(), |i: int| spec_analyze_value_recipient(l[i]))
}

fn analyze_value_recipient_list(children: &mut Vec<Node>, list: &Vec<ValueRecipient>)
    ensures
        nodes_view(final(children)@) == nodes_view(old(children)@) + spec_value_recipient_list(list@),
{
    let ghost base = children@;
    proof {
        assert(list@.subrange(0, 0) =~= Seq::<ValueRecipient>::empty());
        assert(nodes_view(children@) =~= nodes_view(base) + spec_value_recipient_list(list@.subrange(0, 0)));
    }
    let mut i: usize = 0;
    while i < list.len()
        invariant
            i <= list.len(),
            nodes_view(children@) == nodes_view(base) + spec_value_recipient_list(
                list@.subrange(0, i as int),
            ),
        decreases list.len() - i,
    {
        let ghost prev = children@;
        let node = analyze_podcast_value_recipient(&list[i]);
        let ghost gn = node@;
        children.push(node);
        proof {
            assert(list@.subrange(0, i as int + 1) =~= list@.subrange(0, i as int).push(
                list@[i as int],
            ));
            assert(spec_value_recipient_list(list@.subrange(0, i as int).push(list@[i as int])) =~= spec_value_recipient_list(
                list@.subrange(0, i as int),
            ).push(gn));
            assert(nodes_view(children@) =~= nodes_view(prev).push(gn));
            assert(nodes_view(base) + spec_value_recipient_list(list@.subrange(0, i as int)).push(gn) =~= (
            nodes_view(base) + spec_value_recipient_list(list@.subrange(0, i as int))).push(gn));
            assert(nodes_view(children@) =~= nodes_view(base) + spec_value_recipient_list(
                list@.subrange(0, i as int + 1),
            ));
        }
        i += 1;
    }
    proof {
        assert(list@.subrange(0, list@.len() as int) =~= list@);
    }
}

/// The nodes for a collection of `item` children, in document order.
pub open spec fn spec_item_list(l: Seq<Item>) -> Seq<NodeS> {
    Seq::new(l.len(), |i: int| spec_analyze_item(l[i]))
}

fn analyze_item_list(children: &mut Vec<Node>, list: &Vec<Item>)
    ensures
        nodes_view(final(children)@) == nodes_view(old(children)@) + spec_item_list(list@),
{
    let ghost base = children@;
    proof {
        assert(list@.subrange(0, 0) =~= Seq::<Item>::empty());
        assert(nodes_view(children@) =~= nodes_view(base) + spec_item_list(list@.subrange(0, 0)));
    }
    let mut i: usize = 0;
    while i < list.len()
        invariant
            i <= list.len(),
            nodes_view(children@) == nodes_view(base) + spec_item_list(
                list@.subrange(0, i as int),
            ),
        decreases list.len() - i,
    {
        let ghost prev = children@;
        let node = analyze_item(&list[i]);
        let ghost gn = node@;
        children.push(node);
        proof {
            assert(list@.subrange(0, i as int + 1) =~= list@.subrange(0, i as int).push(
                list@[i as int],
            ));
            assert(spec_item_list(list@.subrange(0, i as int).push(list@[i as int])) =~= spec_item_list(
                list@.subrange(0, i as int),
            ).push(gn));
            assert(nodes_view(children@) =~= nodes_view(prev).push(gn));
            assert(nodes_view(base) + spec_item_list(list@.subrange(0, i as int)).push(gn) =~= (
            nodes_view(base) + spec_item_list(list@.subrange(0, i as int))).push(gn));
            assert(nodes_view(children@) =~= nodes_view(base) + spec_item_list(
                list@.subrange(0, i as int + 1),
            ));
        }
        i += 1;
    }
    proof {
        assert(list@.subrange(0, list@.len() as int) =~= list@);
    }
}

/// The nodes for a collection of `live_item` children, in document order.
pub open spec fn spec_live_item_list(l: Seq<LiveItem>) -> Seq<NodeS> {
    Seq::new(l.len(), |i: int| spec_analyze_live_item(l[i]))
}

fn analyze_live_item_list(children: &mut Vec<Node>, list: &Vec<LiveItem>)
    ensures
        nodes_view(final(children)@) == nodes_view(old(children)@) + spec_live_item_list(list@),
{
    let ghost base = children@;
    proof {
        assert(list@.subrange(0, 0) =~= Seq::<LiveItem>::empty());
        assert(nodes_view(children@) =~= nodes_view(base) + spec_live_item_list(list@.subrange(0, 0)));
    }
    let mut i: usize = 0;
    while i < list.len()
        invariant
            i <= list.len(),
            nodes_view(children@) == nodes_view(base) + spec_live_item_list(
                list@.subrange(0, i as int),
            ),
        decreases list.len() - i,
    {
        let ghost prev = children@;
        let node = analyze_podcast_live_item(&list[i]);
        let ghost gn = node@;
        children.push(node);
        proof {
            assert(list@.subrange(0, i as int + 1) =~= list@.subrange(0, i as int).push(
                list@[i as int],
            ));
            assert(spec_live_item_list(list@.subrange(0, i as int).push(list@[i as int])) =~= spec_live_item_list(
                list@.subrange(0, i as int),
            ).push(gn));
            assert(nodes_view(children@) =~= nodes_view(prev).push(gn));
            assert(nodes_view(base) + spec_live_item_list(list@.subrange(0, i as int)).push(gn) =~= (
            nodes_view(base) + spec_live_item_list(list@.subrange(0, i as int))).push(gn));
            assert(nodes_view(children@) =~= nodes_view(base) + spec_live_item_list(
                list@.subrange(0, i as int + 1),
            ));
        }
        i += 1;
    }
    proof {
        assert(list@.subrange(0, list@.len() as int) =~= list@);
    }
}

/// The nodes for a collection of `channel` children, in document order.
pub open spec fn spec_channel_list(l: Seq<Channel>) -> Seq<NodeS> {
    Seq::new(l.len(), |i: int| spec_analyze_channel(l[i]))
}

fn analyze_channel_list(children: &mut Vec<Node>, list: &Vec<Channel>)
    ensures
        nodes_view(final(children)@) == nodes_view(old(children)@) + spec_channel_list(list@),
{
    let ghost base = children@;
    proof {
        assert(list@.subrange(0, 0) =~= Seq::<Channel>::empty());
        assert(nodes_view(children@) =~= nodes_view(base) + spec_channel_list(list@.subrange(0, 0)));
    }
    let mut i: usize = 0;
    while i < list.len()
        invariant
            i <= list.len(),
            nodes_view(children@) == nodes_view(base) + spec_channel_list(
                list@.subrange(0, i as int),
            ),
        decreases list.len() - i,
    {
        let ghost prev = children@;
        let node = analyze_channel(&list[i]);
        let ghost gn = node@;
        children.push(node);
        proof {
            assert(list@.subrange(0, i as int + 1) =~= list@.subrange(0, i as int).push(
                list@[i as int],
            ));
            assert(spec_channel_list(list@.subrange(0, i as int).push(list@[i as int])) =~= spec_channel_list(
                list@.subrange(0, i as int),
            ).push(gn));
            assert(nodes_view(children@) =~= nodes_view(prev).push(gn));
            assert(nodes_view(base) + spec_channel_list(list@.subrange(0, i as int)).push(gn) =~= (
            nodes_view(base) + spec_channel_list(list@.subrange(0, i as int))).push(gn));
            assert(nodes_view(children@) =~= nodes_view(base) + spec_channel_list(
                list@.subrange(0, i as int + 1),
            ));
        }
        i += 1;
    }
    proof {
        assert(list@.subrange(0, list@.len() as int) =~= list@);
    }
}


// ---------------------------------------------------------------------------
// Container analyzers
// ---------------------------------------------------------------------------
/// The node for a `podcast:value` (monetization) tag: type and method are
/// required, and at least one recipient must be present; every recipient
/// is still analyzed even when the cardinality rule fails.
pub open spec fn spec_analyze_value(v: ValueBlock) -> NodeS {
    let missing = spec_at_least_one_errs(v.recipient@.len(), spec_podcast_tag("valueRecipient"@));
    let p_type = spec_decoded_attr("type"@, v.value_type, AttrKind::Object, true);
    let p_method = spec_decoded_attr("method"@, v.method, AttrKind::Object, true);
    let p_suggested = spec_decoded_attr("suggested"@, v.suggested, AttrKind::Object, false);
    NodeS {
        name: spec_podcast_tag("value"@),
        children: spec_value_recipient_list(v.recipient@),
        attributes: p_type.0 + p_method.0 + p_suggested.0,
        errors: missing + p_type.1 + p_method.1 + p_suggested.1,
    }
}

/// Analyzes a `podcast:value` tag.
pub fn analyze_podcast_value(v: &ValueBlock) -> (n: Node)
    ensures
        n@ == spec_analyze_value(*v),
{
    let mut children: Vec<Node> = Vec::new();
    let mut attributes: Vec<(String, Value)> = Vec::new();
    let mut errors: Vec<Error> = Vec::new();
    analyze_value_recipient_list(&mut children, &v.recipient);
    check_at_least_one(&mut errors, v.recipient.len(), podcast_tag("valueRecipient"));
    decoded_attr(&mut attributes, &mut errors, key_str("type"), &v.value_type, AttrKind::Object, true);
    decoded_attr(&mut attributes, &mut errors, key_str("method"), &v.method, AttrKind::Object, true);
    decoded_attr(&mut attributes, &mut errors, key_str("suggested"), &v.suggested, AttrKind::Object, false);
    let n = Node { name: podcast_tag("value"), children, attributes, errors };
    proof {
        assert(n@.name =~= spec_analyze_value(*v).name);
        assert(n@.children =~~= spec_analyze_value(*v).children);
        assert(n@.attributes =~~= spec_analyze_value(*v).attributes);
        assert(n@.errors =~~= spec_analyze_value(*v).errors);
        assert(n@ =~~= spec_analyze_value(*v));
    }
    n
}

/// The node for a `podcast:alternateEnclosure` tag: the MIME type is
/// required, the relation label is limited to 32 characters, at least one
/// source is required and at most one integrity check is allowed.
pub open spec fn spec_analyze_alternate_enclosure(a: AlternateEnclosure) -> NodeS {
    let p_type = spec_decoded_attr("type"@, a.mime_type, AttrKind::Object, true);
    let p_length = spec_int_attr("length"@, a.length, false);
    let p_bitrate = spec_decoded_attr("bitrate"@, a.bit_rate, AttrKind::Object, false);
    let p_height = spec_int_attr("height"@, a.height, false);
    let p_lang = spec_text_attr("lang"@, a.language, false);
    let p_title = spec_text_attr("title"@, a.title, false);
    let p_rel = spec_text_attr_max("rel"@, a.rel, false, 32);
    let p_default = spec_bool_attr("default"@, a.default, false);
    let missing_source = spec_at_least_one_errs(a.source@.len(), spec_podcast_tag("source"@));
    let mult_integrity = spec_at_most_one_errs(a.integrity@.len(), spec_podcast_tag("integrity"@));
    NodeS {
        name: spec_podcast_tag("alternateEnclosure"@),
        children: spec_source_list(a.source@) + spec_integrity_list(a.integrity@),
        attributes: p_type.0 + p_length.0 + p_bitrate.0 + p_height.0 + p_lang.0 + p_title.0
            + p_rel.0 + p_default.0,
        errors: p_type.1 + p_length.1 + p_bitrate.1 + p_height.1 + p_lang.1 + p_title.1 + p_rel.1
            + p_default.1 + missing_source + mult_integrity,
    }
}

/// Analyzes a `podcast:alternateEnclosure` tag.
pub fn analyze_podcast_alternate_enclosure(a: &AlternateEnclosure) -> (n: Node)
    ensures
        n@ == spec_analyze_alternate_enclosure(*a),
{
    let mut children: Vec<Node> = Vec::new();
    let mut attributes: Vec<(String, Value)> = Vec::new();
    let mut errors: Vec<Error> = Vec::new();
    decoded_attr(&mut attributes, &mut errors, key_str("type"), &a.mime_type, AttrKind::Object, true);
    int_attr(&mut attributes, &mut errors, key_str("length"), &a.length, false);
    decoded_attr(&mut attributes, &mut errors, key_str("bitrate"), &a.bit_rate, AttrKind::Object, false);
    int_attr(&mut attributes, &mut errors, key_str("height"), &a.height, false);
    text_attr(&mut attributes, &mut errors, key_str("lang"), &a.language, false);
    text_attr(&mut attributes, &mut errors, key_str("title"), &a.title, false);
    text_attr_max(&mut attributes, &mut errors, key_str("rel"), &a.rel, false, 32);
    bool_attr(&mut attributes, &mut errors, key_str("default"), &a.default, false);
    analyze_source_list(&mut children, &a.source);
    check_at_least_one(&mut errors, a.source.len(), podcast_tag("source"));
    analyze_integrity_list(&mut children, &a.integrity);
    check_at_most_one(&mut errors, a.integrity.len(), podcast_tag("integrity"));
    let n = Node { name: podcast_tag("alternateEnclosure"), children, attributes, errors };
    proof {
        assert(n@.name =~= spec_analyze_alternate_enclosure(*a).name);
        assert(n@.children =~~= spec_analyze_alternate_enclosure(*a).children);
        assert(n@.attributes =~~= spec_analyze_alternate_enclosure(*a).attributes);
        assert(n@.errors =~~= spec_analyze_alternate_enclosure(*a).errors);
        assert(n@ =~~= spec_analyze_alternate_enclosure(*a));
    }
    n
}

/// The node for an `item` (episode) container: the title is required
/// exactly once, and each at-most-once child collection still has every
/// instance analyzed.
pub open spec fn spec_analyze_item(it: Item) -> NodeS {
    NodeS {
        name: spec_plain_tag("item"@),
        children: spec_title_list(it.title@) + spec_value_block_list(it.value@)
            + spec_person_list(it.person@) + spec_location_list(it.location@) + spec_images_list(
            it.images@,
        ) + spec_txt_list(it.txt@) + spec_transcript_list(it.transcript@) + spec_chapters_list(
            it.chapters@,
        ) + spec_soundbite_list(it.soundbite@) + spec_season_list(it.season@) + spec_episode_list(
            it.episode@,
        ) + spec_license_list(it.license@) + spec_alternate_enclosure_list(
            it.alternate_enclosure@,
        ) + spec_social_interact_list(it.social_interact@),
        attributes: seq![],
        errors: spec_exactly_one_errs(it.title@.len(), spec_plain_tag("title"@))
            + spec_at_most_one_errs(it.location@.len(), spec_podcast_tag("location"@))
            + spec_at_most_one_errs(it.images@.len(), spec_podcast_tag("images"@))
            + spec_at_most_one_errs(it.chapters@.len(), spec_podcast_tag("chapters"@))
            + spec_at_most_one_errs(it.season@.len(), spec_podcast_tag("season"@))
            + spec_at_most_one_errs(it.episode@.len(), spec_podcast_tag("episode"@))
            + spec_at_most_one_errs(it.license@.len(), spec_podcast_tag("license"@)),
    }
}

/// Analyzes an `item` container.
pub fn analyze_item(it: &Item) -> (n: Node)
    ensures
        n@ == spec_analyze_item(*it),
{
    let mut children: Vec<Node> = Vec::new();
    let mut errors: Vec<Error> = Vec::new();
    analyze_title_list(&mut children, &it.title);
    check_exactly_one(&mut errors, it.title.len(), plain_tag("title"));
    analyze_value_block_list(&mut children, &it.value);
    analyze_person_list(&mut children, &it.person);
    analyze_location_list(&mut children, &it.location);
    check_at_most_one(&mut errors, it.location.len(), podcast_tag("location"));
    analyze_images_list(&mut children, &it.images);
    check_at_most_one(&mut errors, it.images.len(), podcast_tag("images"));
    analyze_txt_list(&mut children, &it.txt);
    analyze_transcript_list(&mut children, &it.transcript);
    analyze_chapters_list(&mut children, &it.chapters);
    check_at_most_one(&mut errors, it.chapters.len(), podcast_tag("chapters"));
    analyze_soundbite_list(&mut children, &it.soundbite);
    analyze_season_list(&mut children, &it.season);
    check_at_most_one(&mut errors, it.season.len(), podcast_tag("season"));
    analyze_episode_list(&mut children, &it.episode);
    check_at_most_one(&mut errors, it.episode.len(), podcast_tag("episode"));
    analyze_license_list(&mut children, &it.license);
    check_at_most_one(&mut errors, it.license.len(), podcast_tag("license"));
    analyze_alternate_enclosure_list(&mut children, &it.alternate_enclosure);
    analyze_social_interact_list(&mut children, &it.social_interact);
    let n = Node { name: plain_tag("item"), children, attributes: Vec::new(), errors };
    proof {
        assert(n@.name =~= spec_analyze_item(*it).name);
        assert(n@.children =~~= spec_analyze_item(*it).children);
        assert(n@.attributes =~~= spec_analyze_item(*it).attributes);
        assert(n@.errors =~~= spec_analyze_item(*it).errors);
        assert(n@ =~~= spec_analyze_item(*it));
    }
    n
}

/// The node for a `podcast:liveItem` container: status, start and end are
/// required attributes, the title is required exactly once, and at least
/// one stream location must be present.
pub open spec fn spec_analyze_live_item(li: LiveItem) -> NodeS {
    let p_status = spec_decoded_attr("status"@, li.status, AttrKind::Object, true);
    let p_start = spec_decoded_attr("start"@, li.start, AttrKind::Object, true);
    let p_end = spec_decoded_attr("end"@, li.end, AttrKind::Object, true);
    NodeS {
        name: spec_podcast_tag("liveItem"@),
        children: spec_title_list(li.title@) + spec_content_link_list(li.content_link@)
            + spec_value_block_list(li.value@) + spec_person_list(li.person@)
            + spec_location_list(li.location@) + spec_images_list(li.images@) + spec_txt_list(
            li.txt@,
        ) + spec_transcript_list(li.transcript@) + spec_chapters_list(li.chapters@)
            + spec_soundbite_list(li.soundbite@) + spec_season_list(li.season@)
            + spec_episode_list(li.episode@) + spec_license_list(li.license@)
            + spec_alternate_enclosure_list(li.alternate_enclosure@) + spec_social_interact_list(
            li.social_interact@,
        ),
        attributes: p_status.0 + p_start.0 + p_end.0,
        errors: p_status.1 + p_start.1 + p_end.1 + spec_exactly_one_errs(
            li.title@.len(),
            spec_plain_tag("title"@),
        ) + spec_at_least_one_errs(li.content_link@.len(), spec_podcast_tag("contentLink"@))
            + spec_at_most_one_errs(li.location@.len(), spec_podcast_tag("location"@))
            + spec_at_most_one_errs(li.images@.len(), spec_podcast_tag("images"@))
            + spec_at_most_one_errs(li.chapters@.len(), spec_podcast_tag("chapters"@))
            + spec_at_most_one_errs(li.season@.len(), spec_podcast_tag("season"@))
            + spec_at_most_one_errs(li.episode@.len(), spec_podcast_tag("episode"@))
            + spec_at_most_one_errs(li.license@.len(), spec_podcast_tag("license"@)),
    }
}

/// Analyzes a `podcast:liveItem` container.
pub fn analyze_podcast_live_item(li: &LiveItem) -> (n: Node)
    ensures
        n@ == spec_analyze_live_item(*li),
{
    let mut children: Vec<Node> = Vec::new();
    let mut attributes: Vec<(String, Value)> = Vec::new();
    let mut errors: Vec<Error> = Vec::new();
    decoded_attr(&mut attributes, &mut errors, key_str("status"), &li.status, AttrKind::Object, true);
    decoded_attr(&mut attributes, &mut errors, key_str("start"), &li.start, AttrKind::Object, true);
    decoded_attr(&mut attributes, &mut errors, key_str("end"), &li.end, AttrKind::Object, true);
    analyze_title_list(&mut children, &li.title);
    check_exactly_one(&mut errors, li.title.len(), plain_tag("title"));
    analyze_content_link_list(&mut children, &li.content_link);
    check_at_least_one(&mut errors, li.content_link.len(), podcast_tag("contentLink"));
    analyze_value_block_list(&mut children, &li.value);
    analyze_person_list(&mut children, &li.person);
    analyze_location_list(&mut children, &li.location);
    check_at_most_one(&mut errors, li.location.len(), podcast_tag("location"));
    analyze_images_list(&mut children, &li.images);
    check_at_most_one(&mut errors, li.images.len(), podcast_tag("images"));
    analyze_txt_list(&mut children, &li.txt);
    analyze_transcript_list(&mut children, &li.transcript);
    analyze_chapters_list(&mut children, &li.chapters);
    check_at_most_one(&mut errors, li.chapters.len(), podcast_tag("chapters"));
    analyze_soundbite_list(&mut children, &li.soundbite);
    analyze_season_list(&mut children, &li.season);
    check_at_most_one(&mut errors, li.season.len(), podcast_tag("season"));
    analyze_episode_list(&mut children, &li.episode);
    check_at_most_one(&mut errors, li.episode.len(), podcast_tag("episode"));
    analyze_license_list(&mut children, &li.license);
    check_at_most_one(&mut errors, li.license.len(), podcast_tag("license"));
    analyze_alternate_enclosure_list(&mut children, &li.alternate_enclosure);
    analyze_social_interact_list(&mut children, &li.social_interact);
    let n = Node { name: podcast_tag("liveItem"), children, attributes, errors };
    proof {
        assert(n@.name =~= spec_analyze_live_item(*li).name);
        assert(n@.children =~~= spec_analyze_live_item(*li).children);
        assert(n@.attributes =~~= spec_analyze_live_item(*li).attributes);
        assert(n@.errors =~~= spec_analyze_live_item(*li).errors);
        assert(n@ =~~= spec_analyze_live_item(*li));
    }
    n
}

/// The node for the `channel` container: the title is required exactly
/// once, and several namespaced children are allowed at most once.
pub open spec fn spec_analyze_channel(c: Channel) -> NodeS {
    NodeS {
        name: spec_plain_tag("channel"@),
        children: spec_title_list(c.title@) + spec_guid_list(c.guid@) + spec_medium_list(
            c.medium@,
        ) + spec_txt_list(c.txt@) + spec_block_list(c.block@) + spec_locked_list(c.locked@)
            + spec_funding_list(c.funding@) + spec_location_list(c.location@) + spec_person_list(
            c.person@,
        ) + spec_trailer_list(c.trailer@) + spec_license_list(c.license@) + spec_value_block_list(
            c.value@,
        ) + spec_images_list(c.images@) + spec_item_list(c.item@) + spec_live_item_list(
            c.live_item@,
        ),
        attributes: seq![],
        errors: spec_exactly_one_errs(c.title@.len(), spec_plain_tag("title"@))
            + spec_at_most_one_errs(c.guid@.len(), spec_podcast_tag("guid"@))
            + spec_at_most_one_errs(c.medium@.len(), spec_podcast_tag("medium"@))
            + spec_at_most_one_errs(c.locked@.len(), spec_podcast_tag("locked"@))
            + spec_at_most_one_errs(c.location@.len(), spec_podcast_tag("location"@))
            + spec_at_most_one_errs(c.license@.len(), spec_podcast_tag("license"@))
            + spec_at_most_one_errs(c.images@.len(), spec_podcast_tag("images"@)),
    }
}

/// Analyzes a `channel` container.
pub fn analyze_channel(c: &Channel) -> (n: Node)
    ensures
        n@ == spec_analyze_channel(*c),
{
    let mut children: Vec<Node> = Vec::new();
    let mut errors: Vec<Error> = Vec::new();
    analyze_title_list(&mut children, &c.title);
    check_exactly_one(&mut errors, c.title.len(), plain_tag("title"));
    analyze_guid_list(&mut children, &c.guid);
    check_at_most_one(&mut errors, c.guid.len(), podcast_tag("guid"));
    analyze_medium_list(&mut children, &c.medium);
    check_at_most_one(&mut errors, c.medium.len(), podcast_tag("medium"));
    analyze_txt_list(&mut children, &c.txt);
    analyze_block_list(&mut children, &c.block);
    analyze_locked_list(&mut children, &c.locked);
    check_at_most_one(&mut errors, c.locked.len(), podcast_tag("locked"));
    analyze_funding_list(&mut children, &c.funding);
    analyze_location_list(&mut children, &c.location);
    check_at_most_one(&mut errors, c.location.len(), podcast_tag("location"));
    analyze_person_list(&mut children, &c.person);
    analyze_trailer_list(&mut children, &c.trailer);
    analyze_license_list(&mut children, &c.license);
    check_at_most_one(&mut errors, c.license.len(), podcast_tag("license"));
    analyze_value_block_list(&mut children, &c.value);
    analyze_images_list(&mut children, &c.images);
    check_at_most_one(&mut errors, c.images.len(), podcast_tag("images"));
    analyze_item_list(&mut children, &c.item);
    analyze_live_item_list(&mut children, &c.live_item);
    let n = Node { name: plain_tag("channel"), children, attributes: Vec::new(), errors };
    proof {
        assert(n@.name =~= spec_analyze_channel(*c).name);
        assert(n@.children =~~= spec_analyze_channel(*c).children);
        assert(n@.attributes =~~= spec_analyze_channel(*c).attributes);
        assert(n@.errors =~~= spec_analyze_channel(*c).errors);
        assert(n@ =~~= spec_analyze_channel(*c));
    }
    n
}

/// The node for the document root: exactly one `channel` container is
/// expected; every container found is still fully analyzed, and the
/// cardinality problem is flagged separately at the root.
pub open spec fn spec_analyze_rss(r: Rss) -> NodeS {
    NodeS {
        name: spec_plain_tag("rss"@),
        children: spec_channel_list(r.channel@),
        attributes: seq![],
        errors: spec_exactly_one_errs(r.channel@.len(), spec_plain_tag("channel"@)),
    }
}

/// Analyzes a decoded document.
pub fn analyze_rss(r: &Rss) -> (n: Node)
    ensures
        n@ == spec_analyze_rss(*r),
{
    let mut children: Vec<Node> = Vec::new();
    let mut errors: Vec<Error> = Vec::new();
    analyze_channel_list(&mut children, &r.channel);
    check_exactly_one(&mut errors, r.channel.len(), plain_tag("channel"));
    let n = Node { name: plain_tag("rss"), children, attributes: Vec::new(), errors };
    proof {
        assert(n@.name =~= spec_analyze_rss(*r).name);
        assert(n@.children =~~= spec_analyze_rss(*r).children);
        assert(n@.attributes =~~= spec_analyze_rss(*r).attributes);
        assert(n@.errors =~~= spec_analyze_rss(*r).errors);
        assert(n@ =~~= spec_analyze_rss(*r));
    }
    n
}

} // verus!
