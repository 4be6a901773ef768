//! Symbol names derived from region names.
//!
//! The embedder binds a region's data to a symbol whose name is a pure
//! function of the region name alone, never of the call site. Two embeds
//! into one region therefore produce the same symbol name and collide at
//! link time, while embeds into distinct regions can never collide. The
//! link step also synthesizes an end marker per region; its name lives in a
//! separate family that no region symbol can ever equal, so the two
//! boundary lookups of the reader can never be confused with one another.

use vstd::prelude::*;

verus! {

/// Prefix of every region symbol name: the ASCII bytes of `_EMBED_`.
pub open spec fn embed_symbol_prefix() -> Seq<u8> {
    seq![95u8, 69u8, 77u8, 66u8, 69u8, 68u8, 95u8]
}

/// Prefix of every end-marker name: a leading 0x01 byte (which keeps the
/// name out of any source-level namespace) followed by the ASCII bytes of
/// `section$end$`.
pub open spec fn end_marker_prefix() -> Seq<u8> {
    seq![1u8, 115u8, 101u8, 99u8, 116u8, 105u8, 111u8, 110u8, 36u8, 101u8, 110u8, 100u8, 36u8]
}

/// The name of the symbol bound to the start of `region`'s embedded data.
pub open spec fn embed_symbol_spec(region: Seq<u8>) -> Seq<u8> {
    embed_symbol_prefix() + region
}

/// The name of the synthesized marker for the first address past
/// `region`'s last byte.
pub open spec fn end_marker_spec(region: Seq<u8>) -> Seq<u8> {
    end_marker_prefix() + region
}

/// Builds the region symbol name for `region`.
pub fn embed_symbol(region: &[u8]) -> (name: Vec<u8>)
    ensures
        name@ == embed_symbol_spec(region@),
{
    let mut name: Vec<u8> = Vec::new();
    name.push(95);
    name.push(69);
    name.push(77);
    name.push(66);
    name.push(69);
    name.push(68);
    name.push(95);
    proof {
        assert(name@ =~= embed_symbol_prefix() + region@.subrange(0, 0));
    }
    let mut i: usize = 0;
    while i < region.len()
        invariant
            i <= region@.len(),
            name@ == embed_symbol_prefix() + region@.subrange(0, i as int),
        decreases region@.len() - i,
    {
        name.push(region[i]);
        proof {
            assert(name@ =~= embed_symbol_prefix() + region@.subrange(0, i + 1));
        }
        i += 1;
    }
    proof {
        assert(region@.subrange(0, region@.len() as int) =~= region@);
    }
    name
}

/// Builds the end-marker name for `region`.
pub fn end_marker(region: &[u8]) -> (name: Vec<u8>)
    ensures
        name@ == end_marker_spec(region@),
{
    let mut name: Vec<u8> = Vec::new();
    name.push(1);
    name.push(115);
    name.push(101);
    name.push(99);
    name.push(116);
    name.push(105);
    name.push(111);
    name.push(110);
    name.push(36);
    name.push(101);
    name.push(110);
    name.push(100);
    name.push(36);
    proof {
        assert(name@ =~= end_marker_prefix() + region@.subrange(0, 0));
    }
    let mut i: usize = 0;
    while i < region.len()
        invariant
            i <= region@.len(),
            name@ == end_marker_prefix() + region@.subrange(0, i as int),
        decreases region@.len() - i,
    {
        name.push(region[i]);
        proof {
            assert(name@ =~= end_marker_prefix() + region@.subrange(0, i + 1));
        }
        i += 1;
    }
    proof {
        assert(region@.subrange(0, region@.len() as int) =~= region@);
    }
    name
}

/// Appending two sequences to one prefix yields equal results exactly when
/// the appended sequences are equal.
proof fn lemma_prefixed_injective(p: Seq<u8>, a: Seq<u8>, b: Seq<u8>)
    ensures
        (p + a == p + b) <==> (a == b),
{
    if p + a == p + b {
        assert((p + a).len() == (p + b).len());
        assert(a.len() == b.len());
        assert forall|k: int| 0 <= k < a.len() implies a[k] == b[k] by {
            assert((p + a)[p.len() + k] == a[k]);
            assert((p + b)[p.len() + k] == b[k]);
        }
        assert(a =~= b);
    }
    if a == b {
        assert(p + a == p + b);
    }
}

/// Two region symbol names are equal exactly when their region names are:
/// embedding one region twice, from any two call sites, collides on the
/// very same symbol, and embeds into distinct regions never collide.
pub proof fn lemma_embed_symbol_injective(r1: Seq<u8>, r2: Seq<u8>)
    ensures
        (embed_symbol_spec(r1) == embed_symbol_spec(r2)) <==> (r1 == r2),
{
    lemma_prefixed_injective(embed_symbol_prefix(), r1, r2);
}

/// Two end-marker names are equal exactly when their region names are.
pub proof fn lemma_end_marker_injective(r1: Seq<u8>, r2: Seq<u8>)
    ensures
        (end_marker_spec(r1) == end_marker_spec(r2)) <==> (r1 == r2),
{
    lemma_prefixed_injective(end_marker_prefix(), r1, r2);
}

/// A region symbol name never equals an end-marker name, whatever the two
/// region names: the families differ in their first byte.
pub proof fn lemma_symbol_families_disjoint(r1: Seq<u8>, r2: Seq<u8>)
    ensures
        embed_symbol_spec(r1) != end_marker_spec(r2),
{
    assert(embed_symbol_spec(r1)[0] == 95u8);
    assert(end_marker_spec(r2)[0] == 1u8);
}

} // verus!
