use bootmem::discovery::{memory_regions, platform_info, rtc_base, usable_range};

const FDT_BEGIN_NODE: u32 = 1;
const FDT_END_NODE: u32 = 2;
const FDT_PROP: u32 = 3;
const FDT_END: u32 = 9;

fn push_u32(out: &mut Vec<u8>, v: u32) {
    out.extend_from_slice(&v.to_be_bytes());
}

fn push_name(out: &mut Vec<u8>, name: &str) {
    out.extend_from_slice(name.as_bytes());
    out.push(0);
    while out.len() % 4 != 0 {
        out.push(0);
    }
}

fn push_prop(out: &mut Vec<u8>, name_off: u32, value: &[u8]) {
    push_u32(out, FDT_PROP);
    push_u32(out, value.len() as u32);
    push_u32(out, name_off);
    out.extend_from_slice(value);
    while out.len() % 4 != 0 {
        out.push(0);
    }
}

// Offsets of the property names inside the strings block built below.
const OFF_MODEL: u32 = 0;
const OFF_ADDRESS_CELLS: u32 = 6;
const OFF_SIZE_CELLS: u32 = 21;
const OFF_REG: u32 = 33;
const OFF_COMPATIBLE: u32 = 37;

fn strings_block() -> Vec<u8> {
    let mut s: Vec<u8> = Vec::new();
    s.extend_from_slice(b"model\0");
    s.extend_from_slice(b"#address-cells\0");
    s.extend_from_slice(b"#size-cells\0");
    s.extend_from_slice(b"reg\0");
    s.extend_from_slice(b"compatible\0");
    s
}

/// A minimal flattened device tree: a root with a model string and 32-bit
/// address/size cells, a /memory node with one region, two cpus, and a
/// goldfish RTC device node.
fn sample_blob() -> Vec<u8> {
    let mut structs: Vec<u8> = Vec::new();
    push_u32(&mut structs, FDT_BEGIN_NODE);
    push_name(&mut structs, "");
    push_prop(&mut structs, OFF_MODEL, b"test-platform\0");
    push_prop(&mut structs, OFF_ADDRESS_CELLS, &1u32.to_be_bytes());
    push_prop(&mut structs, OFF_SIZE_CELLS, &1u32.to_be_bytes());

    push_u32(&mut structs, FDT_BEGIN_NODE);
    push_name(&mut structs, "memory");
    let mut reg: Vec<u8> = Vec::new();
    reg.extend_from_slice(&0x8000_0000u32.to_be_bytes());
    reg.extend_from_slice(&0x0800_0000u32.to_be_bytes());
    push_prop(&mut structs, OFF_REG, &reg);
    push_u32(&mut structs, FDT_END_NODE);

    push_u32(&mut structs, FDT_BEGIN_NODE);
    push_name(&mut structs, "cpus");
    push_u32(&mut structs, FDT_BEGIN_NODE);
    push_name(&mut structs, "cpu@0");
    push_u32(&mut structs, FDT_END_NODE);
    push_u32(&mut structs, FDT_BEGIN_NODE);
    push_name(&mut structs, "cpu@1");
    push_u32(&mut structs, FDT_END_NODE);
    push_u32(&mut structs, FDT_END_NODE);

    push_u32(&mut structs, FDT_BEGIN_NODE);
    push_name(&mut structs, "rtc@101000");
    push_prop(&mut structs, OFF_COMPATIBLE, b"google,goldfish-rtc\0");
    let mut rtc_reg: Vec<u8> = Vec::new();
    rtc_reg.extend_from_slice(&0x0010_1000u32.to_be_bytes());
    rtc_reg.extend_from_slice(&0x0000_1000u32.to_be_bytes());
    push_prop(&mut structs, OFF_REG, &rtc_reg);
    push_u32(&mut structs, FDT_END_NODE);

    push_u32(&mut structs, FDT_END_NODE);
    push_u32(&mut structs, FDT_END);

    let strings = strings_block();
    let header_len: u32 = 40;
    let rsvmap_len: u32 = 16;
    let off_struct: u32 = header_len + rsvmap_len;
    let off_strings: u32 = off_struct + structs.len() as u32;
    let total: u32 = off_strings + strings.len() as u32;

    let mut blob: Vec<u8> = Vec::new();
    push_u32(&mut blob, 0xd00d_feed); // magic
    push_u32(&mut blob, total);
    push_u32(&mut blob, off_struct);
    push_u32(&mut blob, off_strings);
    push_u32(&mut blob, header_len); // memory reservation map
    push_u32(&mut blob, 17); // version
    push_u32(&mut blob, 16); // last compatible version
    push_u32(&mut blob, 0); // boot cpu
    push_u32(&mut blob, strings.len() as u32);
    push_u32(&mut blob, structs.len() as u32);
    blob.extend_from_slice(&[0u8; 16]); // empty reservation map
    blob.extend_from_slice(&structs);
    blob.extend_from_slice(&strings);
    blob
}

#[test]
fn memory_regions_from_blob() {
    let blob = sample_blob();
    let regions = memory_regions(&blob).expect("blob is well formed");
    assert_eq!(regions, vec![(0x8000_0000usize, 0x0800_0000usize)]);
}

#[test]
fn platform_info_from_blob() {
    let blob = sample_blob();
    let (model, cpus) = platform_info(&blob).expect("blob is well formed");
    assert_eq!(model, "test-platform");
    assert_eq!(cpus, 2);
}

#[test]
fn rtc_base_found_by_compatible_string() {
    let blob = sample_blob();
    assert_eq!(rtc_base(&blob), Some(0x0010_1000));
}

#[test]
fn malformed_blob_is_rejected() {
    let mut blob = sample_blob();
    blob[0] = 0; // break the magic number
    assert!(memory_regions(&blob).is_none());
    assert!(platform_info(&blob).is_none());
    assert!(rtc_base(&blob).is_none());
    assert!(memory_regions(&[0u8; 8]).is_none());
}

#[test]
fn usable_range_excludes_kernel_image() {
    // The region [0x80000000, 0x88000000) with the kernel image ending at
    // 0x80210000 leaves [0x80210000, 0x88000000) for the frame allocator.
    let regions: Vec<(usize, usize)> = vec![(0x8000_0000, 0x0800_0000)];
    let (start, size) = usable_range(&regions, 0x8021_0000).unwrap();
    assert_eq!(start, 0x8021_0000);
    assert_eq!(size, 0x8800_0000 - 0x8021_0000);
}

#[test]
fn usable_range_takes_the_first_region() {
    // The kernel image is loaded at the start of the first reported region,
    // so that region is the one the usable range is carved from.
    let regions: Vec<(usize, usize)> = vec![(0x4000_0000, 0x2000), (0x8000_0000, 0x1000)];
    let (start, size) = usable_range(&regions, 0x4000_1000).unwrap();
    assert_eq!(start, 0x4000_1000);
    assert_eq!(size, 0x1000);
}

#[test]
fn usable_range_rejects_misplaced_kernel() {
    let regions: Vec<(usize, usize)> = vec![(0x8000_0000, 0x1000)];
    assert!(usable_range(&regions, 0x7000_0000).is_none());
    assert!(usable_range(&regions, 0x8000_2000).is_none());
    assert!(usable_range(&Vec::new(), 0x8000_0000).is_none());
}

#[test]
fn discovery_feeds_frame_allocator() {
    // The full flow: parse the blob, compute the usable range, seed the
    // allocator, and take the first frame.
    let blob = sample_blob();
    let regions = memory_regions(&blob).unwrap();
    let kernel_end: usize = 0x8020_0000;
    let (start, size) = usable_range(&regions, kernel_end).unwrap();
    let mut fa = bootmem::frame::FrameAllocator::new();
    fa.add_memory(start, size);
    assert_eq!(fa.total_frames(), (0x8800_0000 - 0x8020_0000) / 0x1000);
    assert_eq!(fa.allocate().unwrap().0, 0x8020_0000);
}

/// Wrap a structure block and the standard strings block into a full blob.
fn assemble(structs: &[u8]) -> Vec<u8> {
    let strings = strings_block();
    let off_struct: u32 = 56;
    let off_strings: u32 = off_struct + structs.len() as u32;
    let total: u32 = off_strings + strings.len() as u32;
    let mut blob: Vec<u8> = Vec::new();
    push_u32(&mut blob, 0xd00d_feed);
    push_u32(&mut blob, total);
    push_u32(&mut blob, off_struct);
    push_u32(&mut blob, off_strings);
    push_u32(&mut blob, 40);
    push_u32(&mut blob, 17);
    push_u32(&mut blob, 16);
    push_u32(&mut blob, 0);
    push_u32(&mut blob, strings.len() as u32);
    push_u32(&mut blob, structs.len() as u32);
    blob.extend_from_slice(&[0u8; 16]);
    blob.extend_from_slice(structs);
    blob.extend_from_slice(&strings);
    blob
}

#[test]
fn well_formed_blob_passes_the_structural_check() {
    assert!(bootmem::dtb::check_blob(&sample_blob()));
    let mut broken = sample_blob();
    broken[0] = 0;
    assert!(!bootmem::dtb::check_blob(&broken));
}

#[test]
fn blob_without_cpus_has_no_platform_info() {
    // Structurally valid, with memory but no /cpus node: the memory query
    // still answers, the platform query reports absence instead of failing.
    let mut structs: Vec<u8> = Vec::new();
    push_u32(&mut structs, FDT_BEGIN_NODE);
    push_name(&mut structs, "");
    push_prop(&mut structs, OFF_MODEL, b"test-platform\0");
    push_prop(&mut structs, OFF_ADDRESS_CELLS, &1u32.to_be_bytes());
    push_prop(&mut structs, OFF_SIZE_CELLS, &1u32.to_be_bytes());
    push_u32(&mut structs, FDT_BEGIN_NODE);
    push_name(&mut structs, "memory");
    let mut reg: Vec<u8> = Vec::new();
    reg.extend_from_slice(&0x8000_0000u32.to_be_bytes());
    reg.extend_from_slice(&0x0001_0000u32.to_be_bytes());
    push_prop(&mut structs, OFF_REG, &reg);
    push_u32(&mut structs, FDT_END_NODE);
    push_u32(&mut structs, FDT_END_NODE);
    push_u32(&mut structs, FDT_END);
    let blob = assemble(&structs);
    assert!(bootmem::dtb::check_blob(&blob));
    assert_eq!(memory_regions(&blob), Some(vec![(0x8000_0000usize, 0x0001_0000usize)]));
    assert!(platform_info(&blob).is_none());
}

#[test]
fn out_of_range_block_offset_is_rejected() {
    // Valid magic and total size, but a structure-block offset pointing far
    // outside the buffer: the structural check must refuse it.
    let mut blob = sample_blob();
    blob[8..12].copy_from_slice(&0x0fff_fff0u32.to_be_bytes());
    assert!(memory_regions(&blob).is_none());
    assert!(platform_info(&blob).is_none());
    assert!(rtc_base(&blob).is_none());
}

#[test]
fn truncated_property_is_rejected() {
    // A property that declares more value bytes than the block holds.
    let mut structs: Vec<u8> = Vec::new();
    push_u32(&mut structs, FDT_BEGIN_NODE);
    push_name(&mut structs, "");
    push_u32(&mut structs, FDT_PROP);
    push_u32(&mut structs, 0x100); // declared length, nothing behind it
    push_u32(&mut structs, OFF_MODEL);
    push_u32(&mut structs, FDT_END_NODE);
    push_u32(&mut structs, FDT_END);
    let blob = assemble(&structs);
    assert!(!bootmem::dtb::check_blob(&blob));
    assert!(memory_regions(&blob).is_none());
}

#[test]
fn unbalanced_structure_is_rejected() {
    // An end-of-node token with no matching begin: refused by the check.
    let mut structs: Vec<u8> = Vec::new();
    push_u32(&mut structs, FDT_END_NODE);
    push_u32(&mut structs, FDT_END);
    let blob = assemble(&structs);
    assert!(!bootmem::dtb::check_blob(&blob));
    assert!(rtc_base(&blob).is_none());
}

#[test]
fn compatible_nodes_are_enumerated() {
    let blob = sample_blob();
    let nodes = bootmem::discovery::compatible_nodes(&blob).expect("blob is well formed");
    assert_eq!(nodes.len(), 1);
    assert_eq!(nodes[0].0, "rtc@101000");
    assert_eq!(nodes[0].1, vec!["google,goldfish-rtc".to_string()]);
}

#[test]
fn nop_after_root_is_rejected() {
    // A well-formed root followed by a NOP token and a begin-node token
    // over garbage: a node walk would skip the NOP and read the garbage as
    // a node name, so the structural check must refuse the blob.
    let mut structs: Vec<u8> = Vec::new();
    push_u32(&mut structs, FDT_BEGIN_NODE);
    push_name(&mut structs, "");
    push_u32(&mut structs, FDT_END_NODE);
    push_u32(&mut structs, 4); // NOP
    push_u32(&mut structs, FDT_BEGIN_NODE);
    push_u32(&mut structs, 0xffff_ffff); // not a NUL-terminated name
    let blob = assemble(&structs);
    assert!(!bootmem::dtb::check_blob(&blob));
    assert!(rtc_base(&blob).is_none());
    assert!(bootmem::discovery::compatible_nodes(&blob).is_none());
}
