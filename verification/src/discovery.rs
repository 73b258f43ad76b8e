//! Hardware discovery: queries against the firmware-supplied device-tree
//! blob. The blob itself is parsed by the `fdt` crate behind trusted
//! wrappers that hand back plain values; the structural validation that
//! admits a blob to the parser, the selection of the usable memory range,
//! and the treatment of regions without a reported size, are verified here.

use vstd::prelude::*;
use crate::boot;
use crate::dtb;
use crate::dtb::blob_ok;

verus! {

/// What the device-tree parser extracts from a blob as memory regions:
/// `(base address, reported size)` pairs of the `/memory` node, in order,
/// or `None` when the blob or its `/memory` node cannot be read.
pub uninterp spec fn fdt_memory_regions_of(blob: Seq<u8>) -> Option<Seq<(usize, Option<usize>)>>;

/// What the device-tree parser extracts from a blob as platform identity:
/// the root `model` string and the number of `cpu` nodes under `/cpus`,
/// or `None` when the blob cannot be read, carries no model string, or has
/// no `/cpus` node.
pub uninterp spec fn fdt_platform_of(blob: Seq<u8>) -> Option<(Seq<char>, usize)>;

/// The base address of the first register range of the first node of a blob
/// that advertises the given `compatible` string, or `None` when no such
/// node (or no readable register range) exists.
pub uninterp spec fn fdt_compatible_reg_of(blob: Seq<u8>, compat: Seq<char>) -> Option<usize>;

/// The device nodes of a blob that advertise a `compatible` property, in
/// walk order, each as the node's name with its list of compatible
/// strings; `None` when the blob cannot be read.
pub uninterp spec fn fdt_compatible_nodes_of(blob: Seq<u8>) -> Option<
    Seq<(Seq<char>, Seq<Seq<char>>)>,
>;

/// Relies on `fdt::Fdt::new`, `fdt::Fdt::find_node` and
/// `fdt::node::FdtNode::reg`: parse the blob and list the `/memory` node's
/// regions as `(base, reported size)` pairs. The result is a function of
/// the blob's bytes alone. The precondition admits only structurally
/// well-formed blobs ([`dtb::blob_ok`]), which keeps the parser clear of
/// its internal panic paths; a well-formed blob without a readable
/// `/memory` node yields `None`.
#[verifier::external_body]
fn parse_memory_regions(blob: &[u8]) -> (r: Option<Vec<(usize, Option<usize>)>>)
    requires
        blob_ok(blob@),
    ensures
        (r is Some) == (fdt_memory_regions_of(blob@) is Some),
        r matches Some(v) ==> fdt_memory_regions_of(blob@) == Some(v@),
{
    let fdt = fdt::Fdt::new(blob).ok()?;
    let node = fdt.find_node("/memory")?;
    let regs = node.reg()?;
    Some(regs.map(|region| (region.starting_address as usize, region.size)).collect())
}

/// Relies on `fdt::Fdt::new`, `fdt::Fdt::find_node`,
/// `fdt::node::FdtNode::property`, `fdt::node::NodeProperty::as_str` and
/// `fdt::Fdt::cpus`: parse the blob and report the root `model` string and
/// the hart count. The result is a function of the blob's bytes alone. The
/// precondition admits only structurally well-formed blobs
/// ([`dtb::blob_ok`]), and the `/cpus` node is looked up first, so that
/// `Fdt::cpus` is only reached when the node it requires exists; a blob
/// without a model string or without `/cpus` yields `None`.
#[verifier::external_body]
fn parse_platform(blob: &[u8]) -> (r: Option<(String, usize)>)
    requires
        blob_ok(blob@),
    ensures
        (r is Some) == (fdt_platform_of(blob@) is Some),
        r matches Some(p) ==> fdt_platform_of(blob@) == Some((p.0@, p.1)),
{
    let fdt = fdt::Fdt::new(blob).ok()?;
    let model = fdt.find_node("/")?.property("model")?.as_str()?.to_string();
    fdt.find_node("/cpus")?;
    let cpus = fdt.cpus().count();
    Some((model, cpus))
}

/// Relies on `fdt::Fdt::new`, `fdt::Fdt::find_compatible` and
/// `fdt::node::FdtNode::reg`: the base address of the first register range
/// of the first node compatible with `compat`. The result is a function of
/// the blob's bytes and the string alone. The precondition admits only
/// structurally well-formed blobs ([`dtb::blob_ok`]); a blob with no
/// matching node, or no readable register range on it, yields `None`.
#[verifier::external_body]
fn parse_compatible_reg(blob: &[u8], compat: &str) -> (r: Option<usize>)
    requires
        blob_ok(blob@),
    ensures
        r == fdt_compatible_reg_of(blob@, compat@),
{
    let fdt = fdt::Fdt::new(blob).ok()?;
    let node = fdt.find_compatible(&[compat])?;
    let mut regs = node.reg()?;
    Some(regs.next()?.starting_address as usize)
}

/// Relies on `fdt::Fdt::new`, `fdt::Fdt::all_nodes`,
/// `fdt::node::FdtNode::compatible` and `fdt::standard_nodes::Compatible::all`:
/// list every node that has a `compatible` property, as its name with its
/// compatible strings. The result is a function of the blob's bytes alone.
/// The precondition admits only structurally well-formed blobs
/// ([`dtb::blob_ok`]), which keeps the node walk clear of the parser's
/// internal panic paths.
#[verifier::external_body]
fn parse_compatible_nodes(blob: &[u8]) -> (r: Option<Vec<(String, Vec<String>)>>)
    requires
        blob_ok(blob@),
    ensures
        (r is Some) == (fdt_compatible_nodes_of(blob@) is Some),
        r matches Some(v) ==> {
            let m = fdt_compatible_nodes_of(blob@)->Some_0;
            &&& v@.len() == m.len()
            &&& forall|i: int|
                0 <= i < m.len() ==> v@[i].0@ == m[i].0 && v@[i].1.deep_view() == m[i].1
        },
{
    let fdt = fdt::Fdt::new(blob).ok()?;
    let mut out: Vec<(String, Vec<String>)> = Vec::new();
    for node in fdt.all_nodes() {
        if let Some(c) = node.compatible() {
            out.push((node.name.to_string(), c.all().map(|s| s.to_string()).collect()));
        }
    }
    Some(out)
}

/// The device nodes advertising a `compatible` property, each as its name
/// with its compatible strings — the enumeration the boot log reports.
/// `None` when the blob is not structurally well-formed or cannot be read.
pub fn compatible_nodes(blob: &[u8]) -> (r: Option<Vec<(String, Vec<String>)>>)
    ensures
        !blob_ok(blob@) ==> r is None,
        blob_ok(blob@) ==> (r is Some) == (fdt_compatible_nodes_of(blob@) is Some),
        blob_ok(blob@) ==> (r matches Some(v) ==> {
            let m = fdt_compatible_nodes_of(blob@)->Some_0;
            &&& v@.len() == m.len()
            &&& forall|i: int|
                0 <= i < m.len() ==> v@[i].0@ == m[i].0 && v@[i].1.deep_view() == m[i].1
        }),
{
    if !dtb::check_blob(blob) {
        return None;
    }
    parse_compatible_nodes(blob)
}

/// The memory regions a blob reports, each as `(base, size)`: a region
/// whose size the firmware left unreported is kept with size `0`, so it
/// contributes no frames. A blob that is not structurally well-formed, or
/// whose `/memory` node cannot be read, yields `None`.
pub fn memory_regions(blob: &[u8]) -> (r: Option<Vec<(usize, usize)>>)
    ensures
        !blob_ok(blob@) ==> r is None,
        blob_ok(blob@) ==> (r is Some) == (fdt_memory_regions_of(blob@) is Some),
        blob_ok(blob@) ==> (r matches Some(v) ==> {
            let m = fdt_memory_regions_of(blob@)->Some_0;
            &&& v@.len() == m.len()
            &&& forall|i: int|
                0 <= i < m.len() ==> v@[i].0 == m[i].0 && v@[i].1 == (match m[i].1 {
                    Some(s) => s,
                    None => 0usize,
                })
        }),
{
    if !dtb::check_blob(blob) {
        return None;
    }
    let raw = parse_memory_regions(blob);
    match raw {
        None => None,
        Some(raw) => {
            let mut out: Vec<(usize, usize)> = Vec::new();
            let mut i: usize = 0;
            while i < raw.len()
                invariant
                    0 <= i <= raw.len(),
                    out@.len() == i,
                    forall|j: int|
                        0 <= j < i ==> out@[j].0 == raw@[j].0 && out@[j].1 == (match raw@[j].1 {
                            Some(s) => s,
                            None => 0usize,
                        }),
                decreases raw.len() - i,
            {
                let (base, size) = raw[i];
                let size: usize = match size {
                    Some(s) => s,
                    None => 0,
                };
                out.push((base, size));
                i = i + 1;
            }
            Some(out)
        },
    }
}

/// Platform identity from the blob: the model string and the hart count.
/// `None` when the blob is not structurally well-formed, has no model
/// string, or has no `/cpus` node.
pub fn platform_info(blob: &[u8]) -> (r: Option<(String, usize)>)
    ensures
        !blob_ok(blob@) ==> r is None,
        blob_ok(blob@) ==> (r is Some) == (fdt_platform_of(blob@) is Some),
        blob_ok(blob@) ==> (r matches Some(p) ==> fdt_platform_of(blob@) == Some((p.0@, p.1))),
{
    if !dtb::check_blob(blob) {
        return None;
    }
    parse_platform(blob)
}

/// Base address of the memory-mapped real-time-clock device, found by its
/// `compatible` string, if the blob is structurally well-formed and
/// advertises one.
pub fn rtc_base(blob: &[u8]) -> (r: Option<usize>)
    ensures
        !blob_ok(blob@) ==> r is None,
        blob_ok(blob@) ==> r == fdt_compatible_reg_of(blob@, "google,goldfish-rtc"@),
{
    if !dtb::check_blob(blob) {
        return None;
    }
    parse_compatible_reg(blob, "google,goldfish-rtc")
}

/// The usable range that a region list seeds the frame allocator with:
/// taken from the first reported region `[base, base + size)`, at whose
/// start the kernel image is loaded, it is `[kernel_end, base + size)` —
/// the region minus the prefix the image occupies. `None` when no region
/// was reported, when the kernel image does not sit inside the region, or
/// when the region's end overflows the address space.
pub open spec fn spec_usable_range(regions: Seq<(usize, usize)>, kernel_end: usize) -> Option<
    (usize, usize),
> {
    if regions.len() == 0 {
        None
    } else {
        let first = regions[0];
        if first.0 <= kernel_end && kernel_end <= first.0 + first.1 && first.0 + first.1
            <= usize::MAX {
            Some((kernel_end, (first.0 + first.1 - kernel_end) as usize))
        } else {
            None
        }
    }
}

/// Compute the range usable for frame allocation from the reported memory
/// regions and the end of the loaded kernel image, as `(start, size)`.
pub fn usable_range(regions: &Vec<(usize, usize)>, kernel_end: usize) -> (r: Option<
    (usize, usize),
>)
    ensures
        r == spec_usable_range(regions@, kernel_end),
        r matches Some(u) ==> u.0 == kernel_end,
{
    if regions.len() == 0 {
        return None;
    }
    let (base, size) = regions[0];
    if base > kernel_end {
        return None;
    }
    if size > usize::MAX - base {
        return None;
    }
    if kernel_end > base + size {
        return None;
    }
    Some(boot::usable_region(base, size, kernel_end))
}

} // verus!
