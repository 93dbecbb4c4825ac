use drcov_rs::{ConstructionError, Module, RecordError, Trace, Version};

fn module(name: &'static str, base: u64, end: u64) -> Module {
    Module::new(name, base, end).unwrap()
}

/// Position of the first occurrence of `needle` in `haystack`.
fn find(haystack: &[u8], needle: &[u8]) -> Option<usize> {
    if needle.is_empty() || haystack.len() < needle.len() {
        return None;
    }
    (0..=haystack.len() - needle.len()).find(|&i| &haystack[i..i + needle.len()] == needle)
}

fn serialized(trace: &Trace) -> Vec<u8> {
    let mut out = Vec::new();
    trace.write(&mut out);
    out
}

#[test]
fn smoke_test() {
    let modules = [module("abcd.so", 0x1000, 0x2000)];
    let mut trace = Trace::new(&modules);

    trace.add(0x1234, 1).unwrap();

    let mut out = Vec::new();
    trace.write(&mut out);

    assert!(!out.is_empty());
}

#[test]
#[should_panic]
fn add_out_of_bounds() {
    let modules = [module("abcd.so", 0x1000, 0x2000)];
    let mut trace = Trace::new(&modules);

    trace.add(0xdead, 10).unwrap();
}

#[test]
fn module_construction_bounds() {
    assert!(Module::new("a", 0x1000, 0x2000).is_ok());
    // The largest representable span: u32::MAX bytes.
    assert!(Module::new("a", 0, u32::MAX as u64).is_ok());
    assert!(Module::new("a", 5, 6).is_ok());

    // An empty or inverted range is rejected.
    assert_eq!(Module::new("a", 5, 5), Err(ConstructionError::BadBounds));
    assert_eq!(Module::new("a", 6, 5), Err(ConstructionError::BadBounds));
    // One byte past the largest representable span is rejected.
    assert_eq!(
        Module::new("a", 0, u32::MAX as u64 + 1),
        Err(ConstructionError::TooLarge)
    );
    // Bad bounds win over an oversized span: both start with `base >= end`.
    assert_eq!(
        Module::new("a", u64::MAX, 0),
        Err(ConstructionError::BadBounds)
    );
}

#[test]
fn contains_is_half_open() {
    let m = module("m", 0x1000, 0x2000);
    assert!(m.contains(0x1000));
    assert!(m.contains(0x1fff));
    assert!(m.contains(0x1234));
    assert!(!m.contains(0x2000));
    assert!(!m.contains(0xfff));
    assert!(!m.contains(0));
    assert!(!m.contains(u64::MAX));
}

#[test]
fn resolve_prefers_lowest_id_of_overlapping_modules() {
    // The two ranges overlap on 0x1800..0x2000; the first by id must win.
    let modules = [
        module("first", 0x1000, 0x2000),
        module("second", 0x1800, 0x2800),
    ];
    let trace = Trace::new(&modules);

    assert_eq!(trace.get_module(0x1900), Some(&modules[0]));
    assert_eq!(trace.get_module(0x2400), Some(&modules[1]));
    assert_eq!(trace.get_module(0x0fff), None);
    assert_eq!(trace.get_module(0x2800), None);
}

#[test]
fn version_defaults_to_v2() {
    assert_eq!(Version::default(), Version::V2);
}

#[test]
fn concrete_scenario_two_records() {
    let modules = [
        module("abcd", 0x1000, 0x2000),
        module("libc.so", 0x555000, 0x556000),
    ];
    let mut trace = Trace::new(&modules);

    assert_eq!(trace.get_module(0x1204), Some(&modules[0]));

    trace.add(0x1204, 3).unwrap();
    trace.add(0x1207, 12).unwrap();

    let out = serialized(&trace);
    let marker = b"BB Table: 2 bbs\n";
    let at = find(&out, marker).expect("bb table header missing");
    let blob = &out[at + marker.len()..];
    assert_eq!(
        blob,
        [
            0x04, 0x02, 0x00, 0x00, // start = 0x204, little-endian
            0x03, 0x00, // size = 3
            0x00, 0x00, // mod_id = 0
            0x07, 0x02, 0x00, 0x00, // start = 0x207
            0x0c, 0x00, // size = 12
            0x00, 0x00, // mod_id = 0
        ]
    );
}

#[test]
fn unmapped_address_is_rejected_and_changes_nothing() {
    let modules = [
        module("abcd", 0x1000, 0x2000),
        module("libc.so", 0x555000, 0x556000),
    ];
    let mut trace = Trace::new(&modules);
    let before = serialized(&trace);

    assert_eq!(trace.add(0xdead, 10), Err(RecordError::AddressNotMapped));

    let after = serialized(&trace);
    assert_eq!(before, after);
    assert!(find(&after, b"BB Table: 0 bbs\n").is_some());
}

#[test]
fn oversized_block_is_rejected_and_changes_nothing() {
    let modules = [module("big", 0x1000, 0x2000)];
    let mut trace = Trace::new(&modules);
    let before = serialized(&trace);

    assert_eq!(trace.add(0x1000, 0x10000), Err(RecordError::SizeOverflow));
    assert_eq!(serialized(&trace), before);

    // The largest representable size is accepted.
    assert_eq!(trace.add(0x1000, 0xffff), Ok(()));
    assert!(find(&serialized(&trace), b"BB Table: 1 bbs\n").is_some());
}

#[test]
fn exact_output_for_one_module_one_entry() {
    let modules = [module("mod.bin", 0x400000, 0x401000)];
    let mut trace = Trace::new(&modules);
    trace.add(0x400010, 5).unwrap();

    let out = serialized(&trace);
    let mut expected = Vec::new();
    expected.extend_from_slice(
        b"DRCOV VERSION: 2\n\
          DRCOV FLAVOR: drcov\n\
          Module Table: version 4, count 1\n\
          Columns: id, containing_id, start, end, entry, offset, path\n\
          0, 0, 0x400000, 0x401000, 0, 0, mod.bin\n\
          BB Table: 1 bbs\n",
    );
    expected.extend_from_slice(&[0x10, 0x00, 0x00, 0x00, 0x05, 0x00, 0x00, 0x00]);
    assert_eq!(out, expected);
}

#[test]
fn serialized_shape_matches_counts() {
    let modules = [
        module("one", 0x1000, 0x2000),
        module("two", 0x3000, 0x4000),
    ];
    let mut trace = Trace::new(&modules);
    trace.add(0x1100, 1).unwrap();
    trace.add(0x3100, 2).unwrap();
    trace.add(0x1100, 1).unwrap(); // duplicates are kept, never coalesced

    let out = serialized(&trace);

    // The trailing binary blob is exactly 8 bytes per entry.
    let marker = b"BB Table: 3 bbs\n";
    let at = find(&out, marker).expect("bb table header missing");
    assert_eq!(out[at + marker.len()..].len(), 8 * 3);

    // The module table holds one line per module between the column-name
    // line and the basic-block header.
    let columns = b"Columns: id, containing_id, start, end, entry, offset, path\n";
    let rows_start = find(&out, columns).expect("columns line missing") + columns.len();
    let rows = &out[rows_start..at];
    assert_eq!(rows.iter().filter(|&&b| b == b'\n').count(), 2);
}

#[test]
fn empty_trace_serializes_empty_tables() {
    let trace = Trace::new(&[]);
    let out = serialized(&trace);
    let mut expected = Vec::new();
    expected.extend_from_slice(
        b"DRCOV VERSION: 2\n\
          DRCOV FLAVOR: drcov\n\
          Module Table: version 4, count 0\n\
          Columns: id, containing_id, start, end, entry, offset, path\n\
          BB Table: 0 bbs\n",
    );
    assert_eq!(out, expected);
}

#[test]
fn hex_and_decimal_formatting_in_module_rows() {
    let modules = [
        module("zero.so", 0x0, 0xdeadbeef),
        module("high.so", 0xffff_ffff_0000_0000, 0xffff_ffff_0000_1000),
    ];
    let mut trace = Trace::new(&modules);
    trace.add(0xffff_ffff_0000_0abc, 2).unwrap();

    let out = serialized(&trace);
    assert!(find(&out, b"0, 0, 0x0, 0xdeadbeef, 0, 0, zero.so\n").is_some());
    assert!(find(&out, b"1, 0, 0xffffffff00000000, 0xffffffff00001000, 0, 0, high.so\n").is_some());

    // The entry is attributed to module 1 at its offset from that base.
    let marker = b"BB Table: 1 bbs\n";
    let at = find(&out, marker).unwrap();
    assert_eq!(
        &out[at + marker.len()..],
        [0xbc, 0x0a, 0x00, 0x00, 0x02, 0x00, 0x01, 0x00]
    );
}

#[test]
fn record_offsets_are_relative_to_owning_module() {
    let modules = [
        module("a", 0x1000, 0x2000),
        module("b", 0x555000, 0x556000),
    ];
    let mut trace = Trace::new(&modules);
    trace.add(0x555123, 7).unwrap();

    let out = serialized(&trace);
    let marker = b"BB Table: 1 bbs\n";
    let at = find(&out, marker).unwrap();
    assert_eq!(
        &out[at + marker.len()..],
        [0x23, 0x01, 0x00, 0x00, 0x07, 0x00, 0x01, 0x00]
    );
}
