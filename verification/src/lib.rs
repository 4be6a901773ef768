//! Embed opaque byte buffers at named regions of a program image and read
//! them back through boundary symbols.
//!
//! The library models the whole mechanism: an embed directive pins a byte
//! buffer to a region name; a link step rejects duplicate producers for one
//! region (by deriving a colliding symbol name from the region name alone)
//! and unresolved readers; a successful link lays every region out in the
//! image, bracketed by a start symbol and an end marker; and the reader
//! recovers the exact bytes by taking the unsigned pointer difference of the
//! boundary pair.

use vstd::prelude::*;

pub mod bytes;
pub mod image;
pub mod laws;
pub mod linker;
pub mod symbols;

use crate::image::Image;
use crate::linker::Program;

verus! {

/// The region name reserved for an application property list:
/// `info_plist` in ASCII.
pub open spec fn info_plist_region_spec() -> Seq<u8> {
    seq![105u8, 110u8, 102u8, 111u8, 95u8, 112u8, 108u8, 105u8, 115u8, 116u8]
}

/// The region name reserved for a daemon property list: `launchd_plist`
/// in ASCII.
pub open spec fn launchd_plist_region_spec() -> Seq<u8> {
    seq![108u8, 97u8, 117u8, 110u8, 99u8, 104u8, 100u8, 95u8, 112u8, 108u8, 105u8, 115u8, 116u8]
}

/// Builds the `info_plist` region name.
pub fn info_plist_region() -> (name: Vec<u8>)
    ensures
        name@ == info_plist_region_spec(),
{
    let mut name: Vec<u8> = Vec::new();
    name.push(105);
    name.push(110);
    name.push(102);
    name.push(111);
    name.push(95);
    name.push(112);
    name.push(108);
    name.push(105);
    name.push(115);
    name.push(116);
    proof {
        assert(name@ =~= info_plist_region_spec());
    }
    name
}

/// Builds the `launchd_plist` region name.
pub fn launchd_plist_region() -> (name: Vec<u8>)
    ensures
        name@ == launchd_plist_region_spec(),
{
    let mut name: Vec<u8> = Vec::new();
    name.push(108);
    name.push(97);
    name.push(117);
    name.push(110);
    name.push(99);
    name.push(104);
    name.push(100);
    name.push(95);
    name.push(112);
    name.push(108);
    name.push(105);
    name.push(115);
    name.push(116);
    proof {
        assert(name@ =~= launchd_plist_region_spec());
    }
    name
}

/// Adds the directive that embeds `data` at the `info_plist` region. A
/// program may carry this directive at most once: a second one makes
/// `linker::link` fail with the colliding region symbol.
pub fn embed_info_plist_bytes(program: &mut Program, data: Vec<u8>)
    ensures
        final(program).reads@ == old(program).reads@,
        final(program).embeds@.len() == old(program).embeds@.len() + 1,
        forall|i: int|
            0 <= i < old(program).embeds@.len() ==> #[trigger] final(program).embeds@[i]
                == old(program).embeds@[i],
        final(program).embeds@[old(program).embeds@.len() as int].region@
            == info_plist_region_spec(),
        final(program).embeds@[old(program).embeds@.len() as int].data@ == data@,
{
    let region = info_plist_region();
    program.embed(region, data);
}

/// Adds the directive that embeds `data` at the `launchd_plist` region.
pub fn embed_launchd_plist_bytes(program: &mut Program, data: Vec<u8>)
    ensures
        final(program).reads@ == old(program).reads@,
        final(program).embeds@.len() == old(program).embeds@.len() + 1,
        forall|i: int|
            0 <= i < old(program).embeds@.len() ==> #[trigger] final(program).embeds@[i]
                == old(program).embeds@[i],
        final(program).embeds@[old(program).embeds@.len() as int].region@
            == launchd_plist_region_spec(),
        final(program).embeds@[old(program).embeds@.len() as int].data@ == data@,
{
    let region = launchd_plist_region();
    program.embed(region, data);
}

/// Returns the contents of the embedded `info_plist` region of `image`:
/// exactly the bytes handed to `embed_info_plist_bytes`. The region must
/// be present — which the link step guarantees for every program that
/// declared this read — so retrieval has no failure path of its own.
pub fn get_info_plist<'a>(image: &'a Image) -> (view: &'a [u8])
    requires
        image.wf(),
        image.has_region(info_plist_region_spec()),
    ensures
        view@ == image.region_bytes(info_plist_region_spec()),
{
    let region = info_plist_region();
    match image.read(region.as_slice()) {
        Some(view) => view,
        None => vstd::pervasive::unreached(),
    }
}

/// Returns the contents of the embedded `launchd_plist` region of
/// `image`: exactly the bytes handed to `embed_launchd_plist_bytes`.
pub fn get_launchd_plist<'a>(image: &'a Image) -> (view: &'a [u8])
    requires
        image.wf(),
        image.has_region(launchd_plist_region_spec()),
    ensures
        view@ == image.region_bytes(launchd_plist_region_spec()),
{
    let region = launchd_plist_region();
    match image.read(region.as_slice()) {
        Some(view) => view,
        None => vstd::pervasive::unreached(),
    }
}

} // verus!
