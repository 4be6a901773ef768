//! Embed directives and the link step.
//!
//! A [`Program`] gathers what the link step sees of a whole build: every
//! embedding call, in order of appearance, and the region names that
//! readers reference. Linking rejects a second producer for one region
//! (both bind the same symbol name, a pure function of the region name, so
//! they collide whatever their call sites) and rejects a reader whose
//! region was never embedded (its symbol stays undefined). A successful
//! link lays the buffers out back to back in image memory and records each
//! region's boundary pair in the image metadata.

use crate::bytes::bytes_eq;
use crate::image::{Image, RegionEntry};
use crate::symbols::{embed_symbol, embed_symbol_spec};
use vstd::prelude::*;
use vstd::slice::slice_to_vec;

verus! {

/// One embedding call: the byte buffer `data`, pinned verbatim to the
/// region named `region`.
pub struct Directive {
    pub region: Vec<u8>,
    pub data: Vec<u8>,
}

/// Everything the link step sees of one program: its embed directives and
/// the region names its readers reference.
pub struct Program {
    pub embeds: Vec<Directive>,
    pub reads: Vec<Vec<u8>>,
}

/// Why a link step failed. Both conditions are surfaced here, before any
/// image exists, never as a runtime code path of the reader.
#[derive(Debug)]
pub enum LinkError {
    /// Two directives bound the same symbol name: the named region was
    /// embedded twice. `symbol` is the colliding region symbol name.
    DuplicateSymbol { symbol: Vec<u8> },
    /// A reader references a region that no directive embeds, so the
    /// named region symbol resolves to nothing.
    UndefinedSymbol { symbol: Vec<u8> },
}

/// Directive `j` targets a region that an earlier directive already
/// targets.
pub open spec fn dup_at(embeds: Seq<Directive>, j: int) -> bool {
    exists|i: int| 0 <= i < j && (#[trigger] embeds[i]).region@ == embeds[j].region@
}

/// Some region is targeted by two directives.
pub open spec fn has_dup(embeds: Seq<Directive>) -> bool {
    exists|j: int| 0 <= j < embeds.len() && dup_at(embeds, j)
}

/// `j` is the first directive to re-target an already-targeted region.
pub open spec fn first_dup(embeds: Seq<Directive>, j: int) -> bool {
    &&& 0 <= j < embeds.len()
    &&& dup_at(embeds, j)
    &&& forall|k: int| 0 <= k < j ==> !dup_at(embeds, k)
}

/// Some directive embeds region `region`.
pub open spec fn is_embedded(embeds: Seq<Directive>, region: Seq<u8>) -> bool {
    exists|i: int| 0 <= i < embeds.len() && (#[trigger] embeds[i]).region@ == region
}

/// The bytes embedded at `region`: meaningful when `region` is embedded,
/// and, with no duplicate regions, independent of every other directive.
pub open spec fn embedded_data(embeds: Seq<Directive>, region: Seq<u8>) -> Seq<u8> {
    embeds[choose|i: int|
        0 <= i < embeds.len() && (#[trigger] embeds[i]).region@ == region].data@
}

/// Every referenced region is embedded.
pub open spec fn all_reads_resolve(embeds: Seq<Directive>, reads: Seq<Vec<u8>>) -> bool {
    forall|k: int| 0 <= k < reads.len() ==> is_embedded(embeds, (#[trigger] reads[k])@)
}

/// Read reference `k` is the first whose region symbol stays undefined.
pub open spec fn first_unresolved(embeds: Seq<Directive>, reads: Seq<Vec<u8>>, k: int) -> bool {
    &&& 0 <= k < reads.len()
    &&& !is_embedded(embeds, reads[k]@)
    &&& forall|t: int| 0 <= t < k ==> is_embedded(embeds, (#[trigger] reads[t])@)
}

/// The image `link` owes for `embeds`: one metadata entry per directive,
/// in order, each region's bytes verbatim between its boundary pair, and
/// the regions laid out back to back over all of image memory.
pub open spec fn image_matches(image: Image, embeds: Seq<Directive>) -> bool {
    &&& image.regions@.len() == embeds.len()
    &&& (forall|i: int|
        0 <= i < embeds.len() ==> {
            let entry = #[trigger] image.regions@[i];
            &&& entry.name@ == embeds[i].region@
            &&& entry.start <= entry.end <= image.memory@.len()
            &&& entry.end - entry.start == embeds[i].data@.len()
            &&& image.memory@.subrange(entry.start as int, entry.end as int) == embeds[i].data@
        })
    &&& (forall|i: int|
        0 <= i < embeds.len() - 1 ==> (#[trigger] image.regions@[i]).end
            == image.regions@[i + 1].start)
    &&& (embeds.len() > 0 ==> image.regions@[0].start == 0 && image.regions@[embeds.len()
        - 1].end == image.memory@.len())
    &&& (embeds.len() == 0 ==> image.memory@.len() == 0)
}

/// With no duplicate regions, the bytes recorded for a directive's region
/// are that directive's bytes.
pub proof fn lemma_embedded_data_is(embeds: Seq<Directive>, i: int)
    requires
        !has_dup(embeds),
        0 <= i < embeds.len(),
    ensures
        is_embedded(embeds, embeds[i].region@),
        embedded_data(embeds, embeds[i].region@) == embeds[i].data@,
{
    assert(is_embedded(embeds, embeds[i].region@));
    let j = choose|j: int|
        0 <= j < embeds.len() && (#[trigger] embeds[j]).region@ == embeds[i].region@;
    if j < i {
        assert(dup_at(embeds, i));
        assert(has_dup(embeds));
    } else if i < j {
        assert(dup_at(embeds, j));
        assert(has_dup(embeds));
    }
}

impl Program {
    /// A program with no directives and no readers.
    pub fn new() -> (p: Program)
        ensures
            p.embeds@.len() == 0,
            p.reads@.len() == 0,
    {
        Program { embeds: Vec::new(), reads: Vec::new() }
    }

    /// One embedding call: pins `data` to the region named `region`.
    pub fn embed(&mut self, region: Vec<u8>, data: Vec<u8>)
        ensures
            final(self).embeds@ == old(self).embeds@.push((Directive { region, data })),
            final(self).reads@ == old(self).reads@,
    {
        self.embeds.push(Directive { region, data });
    }

    /// One reader call site: references the region named `region`, whose
    /// symbol the link step must resolve.
    pub fn declare_read(&mut self, region: Vec<u8>)
        ensures
            final(self).reads@ == old(self).reads@.push(region),
            final(self).embeds@ == old(self).embeds@,
    {
        self.reads.push(region);
    }
}

/// Looks up a directive that embeds `region`, if any exists.
fn find_region(embeds: &Vec<Directive>, region: &[u8]) -> (r: Option<usize>)
    ensures
        match r {
            Some(i) => 0 <= i < embeds@.len() && embeds@[i as int].region@ == region@,
            None => !is_embedded(embeds@, region@),
        },
{
    let mut i: usize = 0;
    while i < embeds.len()
        invariant
            i <= embeds@.len(),
            forall|t: int| 0 <= t < i ==> (#[trigger] embeds@[t]).region@ != region@,
        decreases embeds@.len() - i,
    {
        if bytes_eq(embeds[i].region.as_slice(), region) {
            return Some(i);
        }
        i += 1;
    }
    None
}

/// The link step. Fails on the first region embedded twice (naming the
/// colliding region symbol), then on the first reader whose region symbol
/// stays undefined; otherwise produces the linked image, whose contents
/// are exactly the embedded buffers.
#[verifier::loop_isolation(false)]
pub fn link(program: &Program) -> (result: Result<Image, LinkError>)
    ensures
        match result {
            Ok(image) => {
                &&& !has_dup(program.embeds@)
                &&& all_reads_resolve(program.embeds@, program.reads@)
                &&& image.wf()
                &&& image_matches(image, program.embeds@)
            },
            Err(LinkError::DuplicateSymbol { symbol }) => {
                &&& has_dup(program.embeds@)
                &&& exists|j: int|
                    #[trigger] first_dup(program.embeds@, j) && symbol@ == embed_symbol_spec(
                        program.embeds@[j].region@,
                    )
            },
            Err(LinkError::UndefinedSymbol { symbol }) => {
                &&& !has_dup(program.embeds@)
                &&& !all_reads_resolve(program.embeds@, program.reads@)
                &&& exists|k: int|
                    #[trigger] first_unresolved(program.embeds@, program.reads@, k) && symbol@
                        == embed_symbol_spec(program.reads@[k]@)
            },
        },
{
    let n = program.embeds.len();

    // A second producer for one region binds the very same symbol name:
    // reject the first such collision.
    let mut j: usize = 0;
    while j < n
        invariant
            j <= n,
            forall|k: int| 0 <= k < j ==> !dup_at(program.embeds@, k),
        decreases n - j,
    {
        let mut i: usize = 0;
        while i < j
            invariant
                i <= j,
                forall|t: int|
                    0 <= t < i ==> (#[trigger] program.embeds@[t]).region@
                        != program.embeds@[j as int].region@,
            decreases j - i,
        {
            if bytes_eq(
                program.embeds[i].region.as_slice(),
                program.embeds[j].region.as_slice(),
            ) {
                proof {
                    assert(dup_at(program.embeds@, j as int));
                    assert(has_dup(program.embeds@));
                    assert(first_dup(program.embeds@, j as int));
                }
                let symbol = embed_symbol(program.embeds[j].region.as_slice());
                return Err(LinkError::DuplicateSymbol { symbol });
            }
            i += 1;
        }
        proof {
            assert(!dup_at(program.embeds@, j as int));
        }
        j += 1;
    }
    proof {
        assert(!has_dup(program.embeds@));
    }

    // Every reader's region symbol must be defined somewhere.
    let m = program.reads.len();
    let mut k: usize = 0;
    while k < m
        invariant
            k <= m,
            forall|t: int|
                0 <= t < k ==> is_embedded(program.embeds@, (#[trigger] program.reads@[t])@),
        decreases m - k,
    {
        match find_region(&program.embeds, program.reads[k].as_slice()) {
            Some(_) => {},
            None => {
                proof {
                    assert(first_unresolved(program.embeds@, program.reads@, k as int));
                    assert(!all_reads_resolve(program.embeds@, program.reads@));
                }
                let symbol = embed_symbol(program.reads[k].as_slice());
                return Err(LinkError::UndefinedSymbol { symbol });
            },
        }
        k += 1;
    }
    proof {
        assert(all_reads_resolve(program.embeds@, program.reads@));
    }

    // Layout: each buffer verbatim, the regions back to back, and each
    // region's boundary pair recorded in the metadata.
    let mut regions: Vec<RegionEntry> = Vec::new();
    let mut memory: Vec<u8> = Vec::new();
    let mut idx: usize = 0;
    while idx < n
        invariant
            idx <= n,
            regions@.len() == idx,
            forall|i: int|
                0 <= i < idx ==> {
                    let entry = #[trigger] regions@[i];
                    &&& entry.name@ == program.embeds@[i].region@
                    &&& entry.start <= entry.end <= memory@.len()
                    &&& entry.end - entry.start == program.embeds@[i].data@.len()
                    &&& memory@.subrange(entry.start as int, entry.end as int)
                        == program.embeds@[i].data@
                },
            forall|i: int|
                0 <= i < idx - 1 ==> (#[trigger] regions@[i]).end == regions@[i + 1].start,
            idx > 0 ==> regions@[0].start == 0 && regions@[idx - 1].end == memory@.len(),
            idx == 0 ==> memory@.len() == 0,
        decreases n - idx,
    {
        let ghost mem0 = memory@;
        let ghost regs0 = regions@;
        let start = memory.len();
        let mut chunk = slice_to_vec(program.embeds[idx].data.as_slice());
        memory.append(&mut chunk);
        let end = memory.len();
        let name = slice_to_vec(program.embeds[idx].region.as_slice());
        regions.push(RegionEntry { name, start, end });
        proof {
            assert(memory@ == mem0 + program.embeds@[idx as int].data@);
            assert(memory@.subrange(start as int, end as int) =~= program.embeds@[idx
                as int].data@);
            assert forall|i: int| 0 <= i < idx implies memory@.subrange(
                (#[trigger] regions@[i]).start as int,
                regions@[i].end as int,
            ) == program.embeds@[i].data@ by {
                assert(regions@[i] == regs0[i]);
                assert(memory@.subrange(regions@[i].start as int, regions@[i].end as int)
                    =~= mem0.subrange(regions@[i].start as int, regions@[i].end as int));
            }
        }
        idx += 1;
    }

    proof {
        assert forall|a: int, b: int|
            0 <= a < b < regions@.len() implies (#[trigger] regions@[a]).name@
            != (#[trigger] regions@[b]).name@ by {
            if regions@[a].name@ == regions@[b].name@ {
                assert((program.embeds@[a]).region@ == program.embeds@[b].region@);
                assert(dup_at(program.embeds@, b));
            }
        }
    }
    let image = Image { regions, memory };
    proof {
        assert(image.wf());
        assert(image_matches(image, program.embeds@));
    }
    Ok(image)
}

} // verus!
