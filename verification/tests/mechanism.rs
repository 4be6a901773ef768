use embed_plist::bytes::{bytes_eq, span_len};
use embed_plist::linker::{link, LinkError, Program};
use embed_plist::symbols::{embed_symbol, end_marker};

fn program_with(embeds: &[(&[u8], &[u8])], reads: &[&[u8]]) -> Program {
    let mut program = Program::new();
    for (region, data) in embeds {
        program.embed(region.to_vec(), data.to_vec());
    }
    for region in reads {
        program.declare_read(region.to_vec());
    }
    program
}

#[test]
fn round_trip_forty_two_bytes() {
    let data: Vec<u8> = (0..42u8).map(|b| b.wrapping_mul(37).wrapping_add(5)).collect();
    let program = program_with(&[(b"cfg", &data)], &[b"cfg"]);
    let image = link(&program).unwrap();
    let view = image.read(b"cfg").unwrap();
    assert_eq!(view.len(), 42);
    assert_eq!(view, data.as_slice());
}

#[test]
fn round_trip_empty_buffer() {
    let program = program_with(&[(b"empty", b"")], &[b"empty"]);
    let image = link(&program).unwrap();
    let view = image.read(b"empty").unwrap();
    assert_eq!(view.len(), 0);
    assert_eq!(view, b"");
}

#[test]
fn duplicate_region_fails_to_link() {
    let program = program_with(&[(b"cfg", b"first"), (b"cfg", b"second")], &[]);
    match link(&program) {
        Err(LinkError::DuplicateSymbol { symbol }) => {
            assert_eq!(symbol, b"_EMBED_cfg".to_vec());
        }
        _ => panic!("a duplicated region must fail the link step"),
    }
}

#[test]
fn duplicate_reported_before_undefined() {
    let program = program_with(&[(b"cfg", b"x"), (b"cfg", b"y")], &[b"missing"]);
    match link(&program) {
        Err(LinkError::DuplicateSymbol { symbol }) => {
            assert_eq!(symbol, b"_EMBED_cfg".to_vec());
        }
        _ => panic!("the duplicate must be reported first"),
    }
}

#[test]
fn unresolved_read_fails_to_link() {
    let program = program_with(&[], &[b"x"]);
    match link(&program) {
        Err(LinkError::UndefinedSymbol { symbol }) => {
            assert_eq!(symbol, b"_EMBED_x".to_vec());
        }
        _ => panic!("a read of a never-embedded region must fail the link step"),
    }
}

#[test]
fn distinct_regions_read_their_own_content() {
    let program = program_with(&[(b"a", b"alpha"), (b"b", b"beta")], &[b"a", b"b"]);
    let image = link(&program).unwrap();
    assert_eq!(image.read(b"a").unwrap(), b"alpha");
    assert_eq!(image.read(b"b").unwrap(), b"beta");
}

#[test]
fn other_regions_leave_a_read_unchanged() {
    let alone = program_with(&[(b"r1", b"payload")], &[b"r1"]);
    let beside = program_with(&[(b"r1", b"payload"), (b"r2", b"other bytes")], &[b"r1"]);
    let image_alone = link(&alone).unwrap();
    let image_beside = link(&beside).unwrap();
    assert_eq!(image_alone.read(b"r1").unwrap(), image_beside.read(b"r1").unwrap());
    assert_eq!(image_beside.read(b"r1").unwrap(), b"payload");
}

#[test]
fn view_length_matches_embedded_length() {
    let program = program_with(&[(b"five", b"12345"), (b"none", b"")], &[]);
    let image = link(&program).unwrap();
    assert_eq!(image.read(b"five").unwrap().len(), 5);
    assert_eq!(image.read(b"none").unwrap().len(), 0);
}

#[test]
fn image_lays_regions_back_to_back() {
    let program = program_with(&[(b"one", b"abc"), (b"two", b"de")], &[]);
    let image = link(&program).unwrap();
    assert_eq!(image.regions.len(), 2);
    assert_eq!(image.regions[0].start, 0);
    assert_eq!(image.regions[0].end, 3);
    assert_eq!(image.regions[1].start, 3);
    assert_eq!(image.regions[1].end, 5);
    assert_eq!(image.memory, b"abcde".to_vec());
}

#[test]
fn empty_program_links_to_empty_image() {
    let program = Program::new();
    let image = link(&program).unwrap();
    assert_eq!(image.regions.len(), 0);
    assert_eq!(image.memory.len(), 0);
    assert!(image.read(b"anything").is_none());
}

#[test]
fn region_symbol_depends_on_region_alone() {
    assert_eq!(embed_symbol(b"cfg"), b"_EMBED_cfg".to_vec());
    assert_eq!(embed_symbol(b"cfg"), embed_symbol(b"cfg"));
    assert_ne!(embed_symbol(b"a"), embed_symbol(b"b"));
}

#[test]
fn end_marker_name_is_its_own_family() {
    let mut expected = vec![1u8];
    expected.extend_from_slice(b"section$end$cfg");
    assert_eq!(end_marker(b"cfg"), expected);
    assert_ne!(end_marker(b"cfg"), embed_symbol(b"cfg"));
}

#[test]
fn span_len_is_the_pointer_difference() {
    assert_eq!(span_len(3, 10), 7);
    assert_eq!(span_len(5, 5), 0);
    assert_eq!(span_len(0, usize::MAX), usize::MAX);
}

#[test]
fn bytes_eq_compares_contents() {
    assert!(bytes_eq(b"abc", b"abc"));
    assert!(bytes_eq(b"", b""));
    assert!(!bytes_eq(b"abc", b"abd"));
    assert!(!bytes_eq(b"abc", b"abcd"));
}
