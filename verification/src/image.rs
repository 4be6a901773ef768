//! The linked image and the region reader.
//!
//! An [`Image`] is what a successful link step produces: the process
//! memory that holds every embedded buffer, and the structural metadata
//! recording, per region, its name and the boundary pair bracketing its
//! bytes. The reader never consults the metadata by region name directly:
//! it derives the region symbol name and the end-marker name from the
//! region name, resolves each to an address, takes the unsigned pointer
//! difference, and hands back the byte span in between.

use crate::bytes::{bytes_eq, span_len};
use crate::symbols::{
    embed_symbol, embed_symbol_spec, end_marker, end_marker_spec, lemma_embed_symbol_injective,
    lemma_end_marker_injective,
};
use vstd::prelude::*;
use vstd::slice::slice_subrange;

verus! {

/// One region's record in the image metadata: the region's name, the
/// address of its first byte (where the region symbol points) and the
/// first address past its last byte (where the end marker points).
pub struct RegionEntry {
    pub name: Vec<u8>,
    pub start: usize,
    pub end: usize,
}

/// A linked program image: the loaded memory and the per-region metadata.
/// Both are fixed at link time and only ever read afterwards.
pub struct Image {
    pub regions: Vec<RegionEntry>,
    pub memory: Vec<u8>,
}

impl Image {
    /// Well-formedness, established by the link step: region names are
    /// unique, and every boundary pair is ordered and lies inside memory.
    pub open spec fn wf(self) -> bool {
        &&& (forall|i: int, j: int|
            0 <= i < j < self.regions@.len() ==> self.regions@[i].name@
                != self.regions@[j].name@)
        &&& (forall|i: int|
            0 <= i < self.regions@.len() ==> (#[trigger] self.regions@[i]).start
                <= self.regions@[i].end <= self.memory@.len())
    }

    /// Some entry of the metadata carries `region`.
    pub open spec fn has_region(self, region: Seq<u8>) -> bool {
        exists|i: int| 0 <= i < self.regions@.len() && self.regions@[i].name@ == region
    }

    /// The index of the entry carrying `region` (unique whenever the
    /// names are unique).
    pub open spec fn region_index(self, region: Seq<u8>) -> int {
        choose|i: int| 0 <= i < self.regions@.len() && self.regions@[i].name@ == region
    }

    /// The bytes between `region`'s boundary pair.
    pub open spec fn region_bytes(self, region: Seq<u8>) -> Seq<u8> {
        let entry = self.regions@[self.region_index(region)];
        self.memory@.subrange(entry.start as int, entry.end as int)
    }

    /// In a well-formed image, any index whose entry carries `region` is
    /// the index of `region`.
    pub proof fn lemma_region_index_is(self, region: Seq<u8>, i: int)
        requires
            self.wf(),
            0 <= i < self.regions@.len(),
            self.regions@[i].name@ == region,
        ensures
            self.region_index(region) == i,
    {
        assert(self.has_region(region));
        let j = self.region_index(region);
        assert(0 <= j < self.regions@.len() && self.regions@[j].name@ == region);
        if i < j {
            assert(self.regions@[i].name@ != self.regions@[j].name@);
        } else if j < i {
            assert(self.regions@[j].name@ != self.regions@[i].name@);
        }
    }

    /// Resolves a region symbol name to the start address it is bound to.
    fn resolve_start(&self, symbol: &[u8]) -> (r: Option<usize>)
        ensures
            match r {
                Some(addr) => exists|i: int|
                    0 <= i < self.regions@.len() && #[trigger] embed_symbol_spec(
                        self.regions@[i].name@,
                    ) == symbol@ && addr == self.regions@[i].start,
                None => forall|i: int|
                    0 <= i < self.regions@.len() ==> #[trigger] embed_symbol_spec(
                        self.regions@[i].name@,
                    ) != symbol@,
            },
    {
        let n = self.regions.len();
        let mut i: usize = 0;
        while i < n
            invariant
                n == self.regions@.len(),
                i <= n,
                forall|k: int|
                    0 <= k < i ==> #[trigger] embed_symbol_spec(self.regions@[k].name@)
                        != symbol@,
            decreases n - i,
        {
            let entry_symbol = embed_symbol(self.regions[i].name.as_slice());
            if bytes_eq(entry_symbol.as_slice(), symbol) {
                return Some(self.regions[i].start);
            }
            i += 1;
        }
        None
    }

    /// Resolves an end-marker name to the address it is bound to.
    fn resolve_end(&self, marker: &[u8]) -> (r: Option<usize>)
        ensures
            match r {
                Some(addr) => exists|i: int|
                    0 <= i < self.regions@.len() && #[trigger] end_marker_spec(
                        self.regions@[i].name@,
                    ) == marker@ && addr == self.regions@[i].end,
                None => forall|i: int|
                    0 <= i < self.regions@.len() ==> #[trigger] end_marker_spec(
                        self.regions@[i].name@,
                    ) != marker@,
            },
    {
        let n = self.regions.len();
        let mut i: usize = 0;
        while i < n
            invariant
                n == self.regions@.len(),
                i <= n,
                forall|k: int|
                    0 <= k < i ==> #[trigger] end_marker_spec(self.regions@[k].name@) != marker@,
            decreases n - i,
        {
            let entry_marker = end_marker(self.regions[i].name.as_slice());
            if bytes_eq(entry_marker.as_slice(), marker) {
                return Some(self.regions[i].end);
            }
            i += 1;
        }
        None
    }

    /// Reads the bytes embedded at `region`: derives the region symbol and
    /// end-marker names, resolves both addresses, and returns the span of
    /// `end - start` bytes starting at `start`. Returns `None` exactly
    /// when the image holds no such region.
    pub fn read<'a>(&'a self, region: &[u8]) -> (r: Option<&'a [u8]>)
        requires
            self.wf(),
        ensures
            match r {
                Some(view) => self.has_region(region@) && view@ == self.region_bytes(region@),
                None => !self.has_region(region@),
            },
    {
        let symbol = embed_symbol(region);
        let marker = end_marker(region);
        let start_addr = self.resolve_start(symbol.as_slice());
        let end_addr = self.resolve_end(marker.as_slice());
        match (start_addr, end_addr) {
            (Some(start), Some(end)) => {
                proof {
                    let i = choose|i: int|
                        0 <= i < self.regions@.len() && #[trigger] embed_symbol_spec(
                            self.regions@[i].name@,
                        ) == symbol@ && start == self.regions@[i].start;
                    let j = choose|j: int|
                        0 <= j < self.regions@.len() && #[trigger] end_marker_spec(
                            self.regions@[j].name@,
                        ) == marker@ && end == self.regions@[j].end;
                    lemma_embed_symbol_injective(self.regions@[i].name@, region@);
                    lemma_end_marker_injective(self.regions@[j].name@, region@);
                    if i < j {
                        assert(self.regions@[i].name@ != self.regions@[j].name@);
                    } else if j < i {
                        assert(self.regions@[j].name@ != self.regions@[i].name@);
                    }
                    self.lemma_region_index_is(region@, i);
                }
                let len = span_len(start, end);
                Some(slice_subrange(self.memory.as_slice(), start, start + len))
            },
            (Some(start), None) => {
                proof {
                    let i = choose|i: int|
                        0 <= i < self.regions@.len() && #[trigger] embed_symbol_spec(
                            self.regions@[i].name@,
                        ) == symbol@ && start == self.regions@[i].start;
                    lemma_embed_symbol_injective(self.regions@[i].name@, region@);
                    assert(end_marker_spec(self.regions@[i].name@) != marker@);
                    assert(false);
                }
                None
            },
            (None, Some(end)) => {
                proof {
                    let j = choose|j: int|
                        0 <= j < self.regions@.len() && #[trigger] end_marker_spec(
                            self.regions@[j].name@,
                        ) == marker@ && end == self.regions@[j].end;
                    lemma_end_marker_injective(self.regions@[j].name@, region@);
                    assert(embed_symbol_spec(self.regions@[j].name@) != symbol@);
                    assert(false);
                }
                None
            },
            (None, None) => {
                proof {
                    if self.has_region(region@) {
                        let i = choose|i: int|
                            0 <= i < self.regions@.len() && self.regions@[i].name@ == region@;
                        assert(embed_symbol_spec(self.regions@[i].name@) != symbol@);
                        assert(false);
                    }
                }
                None
            },
        }
    }
}

} // verus!
