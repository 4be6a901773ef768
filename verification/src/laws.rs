//! The guarantees that hold across the embed, link and read steps.
//!
//! `linker::link` and `Image::read` each carry their own contract; the
//! proof functions here state the laws that follow when the two are put
//! together, over the same spec functions those contracts use.

use crate::image::Image;
use crate::linker::{
    all_reads_resolve, dup_at, embedded_data, has_dup, image_matches, is_embedded,
    lemma_embedded_data_is, Directive,
};
use crate::symbols::embed_symbol_spec;
use vstd::prelude::*;

verus! {

/// Embedding one region twice, from any two call sites, binds the very
/// same symbol name and makes the program a duplicate, which `link`
/// refuses: no image is produced at all, neither one with two entries
/// for the region nor one that silently kept a single producer.
pub proof fn lemma_duplicate_region_never_links(embeds: Seq<Directive>, i: int, j: int)
    requires
        0 <= i < j < embeds.len(),
        embeds[i].region@ == embeds[j].region@,
    ensures
        embed_symbol_spec(embeds[i].region@) == embed_symbol_spec(embeds[j].region@),
        has_dup(embeds),
{
    assert(dup_at(embeds, j));
}

/// A read of a region that no directive embeds leaves its region symbol
/// undefined, which `link` refuses: no run of the program can ever see
/// an empty or garbage view for that region.
pub proof fn lemma_unresolved_read_never_links(
    embeds: Seq<Directive>,
    reads: Seq<Vec<u8>>,
    k: int,
)
    requires
        0 <= k < reads.len(),
        !is_embedded(embeds, reads[k]@),
    ensures
        !all_reads_resolve(embeds, reads),
{
}

/// Round trip: embed a buffer at a region and link; the image then holds
/// the region, and the bytes between its boundary pair — what the reader
/// returns — are exactly the embedded buffer. This holds for every
/// buffer, the empty one included.
pub proof fn lemma_embed_then_read(embeds: Seq<Directive>, image: Image, i: int)
    requires
        !has_dup(embeds),
        image.wf(),
        image_matches(image, embeds),
        0 <= i < embeds.len(),
    ensures
        image.has_region(embeds[i].region@),
        image.region_bytes(embeds[i].region@) == embeds[i].data@,
{
    assert(image.regions@[i].name@ == embeds[i].region@);
    assert(image.has_region(embeds[i].region@));
    image.lemma_region_index_is(embeds[i].region@, i);
}

/// The view length computed for a region — the unsigned difference of its
/// boundary pair — equals the byte length supplied at embedding time,
/// zero included.
pub proof fn lemma_view_length(embeds: Seq<Directive>, image: Image, i: int)
    requires
        !has_dup(embeds),
        image.wf(),
        image_matches(image, embeds),
        0 <= i < embeds.len(),
    ensures
        image.region_bytes(embeds[i].region@).len() == embeds[i].data@.len(),
{
    lemma_embed_then_read(embeds, image, i);
}

/// A read that survived the link step never comes up empty-handed: the
/// image holds its region, and what it reads is the embedded buffer.
pub proof fn lemma_declared_read_resolves(
    embeds: Seq<Directive>,
    reads: Seq<Vec<u8>>,
    image: Image,
    k: int,
)
    requires
        !has_dup(embeds),
        all_reads_resolve(embeds, reads),
        image.wf(),
        image_matches(image, embeds),
        0 <= k < reads.len(),
    ensures
        image.has_region(reads[k]@),
        image.region_bytes(reads[k]@) == embedded_data(embeds, reads[k]@),
{
    assert(is_embedded(embeds, reads[k]@));
    let i = choose|i: int| 0 <= i < embeds.len() && (#[trigger] embeds[i]).region@ == reads[k]@;
    lemma_embed_then_read(embeds, image, i);
    lemma_embedded_data_is(embeds, i);
}

/// Distinct regions are independent: whatever two linked programs embed
/// elsewhere, if each embeds the same buffer at `region`, their images
/// agree on `region`'s bytes. The content or presence of any other
/// region never leaks into a read of this one.
pub proof fn lemma_region_independence(
    e1: Seq<Directive>,
    image1: Image,
    e2: Seq<Directive>,
    image2: Image,
    region: Seq<u8>,
    i: int,
    j: int,
)
    requires
        !has_dup(e1),
        !has_dup(e2),
        image1.wf(),
        image2.wf(),
        image_matches(image1, e1),
        image_matches(image2, e2),
        0 <= i < e1.len(),
        0 <= j < e2.len(),
        e1[i].region@ == region,
        e2[j].region@ == region,
        e1[i].data@ == e2[j].data@,
    ensures
        image1.has_region(region),
        image2.has_region(region),
        image1.region_bytes(region) == image2.region_bytes(region),
        embedded_data(e1, region) == embedded_data(e2, region),
{
    lemma_embed_then_read(e1, image1, i);
    lemma_embed_then_read(e2, image2, j);
    lemma_embedded_data_is(e1, i);
    lemma_embedded_data_is(e2, j);
}

} // verus!
