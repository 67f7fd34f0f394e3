use crustty::memory::heap::Heap;
use crustty::parser::ast::{BaseType, Field, StructDef, Type};
use crustty::ui::panes::heap::{render_heap_pane, HeapRenderData, HeapTone, PaneLine};
use std::collections::HashMap;

fn piece(text: &str, tone: HeapTone) -> (String, HeapTone) {
    (text.to_string(), tone)
}

fn pane_with(
    heap: &Heap,
    types: &HashMap<u64, Type>,
    defs: &[StructDef],
    error_address: Option<u64>,
    width: u16,
) -> Vec<PaneLine> {
    render_heap_pane(HeapRenderData { heap, pointer_types: types, struct_defs: defs, error_address }, width)
}

fn pane(heap: &Heap, types: &HashMap<u64, Type>, defs: &[StructDef], width: u16) -> Vec<PaneLine> {
    pane_with(heap, types, defs, None, width)
}

#[test]
fn heap_pane_empty_heap() {
    let heap = Heap::new(64);
    let lines = pane(&heap, &HashMap::new(), &[], 80);
    assert_eq!(lines, vec![vec![piece("(no allocations)", HeapTone::Muted)]]);
}

#[test]
fn heap_pane_only_freed_blocks() {
    let mut heap = Heap::new(64);
    let a = heap.allocate(4).unwrap();
    heap.free(a).unwrap();
    let lines = pane(&heap, &HashMap::new(), &[], 80);
    assert_eq!(lines, vec![vec![piece("(no active allocations)", HeapTone::Muted)]]);
}

#[test]
fn heap_pane_untyped_block_is_dumped() {
    let mut heap = Heap::new(64);
    let a = heap.allocate(4).unwrap();
    heap.write_bytes_at(a, &[0xab]).unwrap();
    let lines = pane_with(&heap, &HashMap::new(), &[], Some(a), 100);
    assert_eq!(
        lines,
        vec![
            vec![
                piece("0x7fff0000", HeapTone::Highlighted),
                piece(" | ", HeapTone::Plain),
                piece("4 bytes", HeapTone::Size),
            ],
            vec![piece("  0x7fff0000: ab ?? ?? ?? ", HeapTone::Muted)],
        ]
    );
}

#[test]
fn heap_pane_raw_dump_wraps_by_width() {
    let mut heap = Heap::new(64);
    heap.allocate(5).unwrap();
    // 46 columns leave 6 past 40: two bytes a line.
    let lines = pane(&heap, &HashMap::new(), &[], 46);
    assert_eq!(lines.len(), 4);
    assert_eq!(lines[1], vec![piece("  0x7fff0000: ?? ?? ", HeapTone::Muted)]);
    assert_eq!(lines[3], vec![piece("  0x7fff0004: ?? ", HeapTone::Muted)]);
}

#[test]
fn heap_pane_int_array() {
    let mut heap = Heap::new(64);
    let a = heap.allocate(9).unwrap();
    heap.write_bytes_at(a, &[1, 0, 0, 0, 0xff, 0xff, 0xff, 0xff]).unwrap();
    let mut types = HashMap::new();
    types.insert(a, Type::new(BaseType::Int));
    let lines = pane(&heap, &types, &[], 40);
    assert_eq!(
        lines[0],
        vec![
            piece("0x7fff0000", HeapTone::Muted),
            piece(" | ", HeapTone::Plain),
            piece("9 bytes", HeapTone::Size),
            piece("               ", HeapTone::Plain),
            piece("int", HeapTone::TypeName),
        ]
    );
    assert_eq!(
        lines[1],
        vec![
            piece("  0x7fff0000: 01 00 00 00 ", HeapTone::Muted),
            piece("  => ", HeapTone::Muted),
            piece("1", HeapTone::Value),
        ]
    );
    assert_eq!(
        lines[2],
        vec![
            piece("  0x7fff0004: ff ff ff ff ", HeapTone::Muted),
            piece("  => ", HeapTone::Muted),
            piece("-1", HeapTone::Value),
        ]
    );
    assert_eq!(lines[3], vec![piece("  0x7fff0008: ?? ", HeapTone::Muted)]);
    assert_eq!(lines.len(), 4);
}

fn point_defs() -> Vec<StructDef> {
    vec![StructDef {
        name: "Point".to_string(),
        fields: vec![
            Field { name: "tag".to_string(), field_type: Type::new(BaseType::Char) },
            Field { name: "x".to_string(), field_type: Type::new(BaseType::Int) },
        ],
    }]
}

#[test]
fn heap_pane_struct_fields() {
    let mut heap = Heap::new(64);
    let a = heap.allocate(5).unwrap();
    heap.write_bytes_at(a, &[b'A', 2, 0, 0, 0]).unwrap();
    let mut types = HashMap::new();
    types.insert(a, Type::new(BaseType::Struct("Point".to_string())));
    let defs = point_defs();
    let lines = pane(&heap, &types, &defs, 80);
    assert_eq!(lines.len(), 3);
    assert_eq!(
        lines[1],
        vec![
            piece("  0x7fff0000: 41          ", HeapTone::Muted),
            piece("  ", HeapTone::Plain),
            piece("=> ", HeapTone::Muted),
            piece(".", HeapTone::Text),
            piece("tag : ", HeapTone::Text),
            piece("'A'", HeapTone::Value),
        ]
    );
    assert_eq!(
        lines[2],
        vec![
            piece("  0x7fff0001: 02 00 00 00 ", HeapTone::Muted),
            piece("  ", HeapTone::Plain),
            piece("=> ", HeapTone::Muted),
            piece(".", HeapTone::Text),
            piece("x   : ", HeapTone::Text),
            piece("2", HeapTone::Value),
        ]
    );
    // On a narrow pane the annotation goes to a line of its own.
    let narrow = pane(&heap, &types, &defs, 30);
    assert_eq!(narrow.len(), 5);
    assert_eq!(narrow[1], vec![piece("  0x7fff0000: 41          ", HeapTone::Muted)]);
    assert_eq!(
        narrow[2],
        vec![
            piece("          ", HeapTone::Plain),
            piece("=> ", HeapTone::Muted),
            piece(".", HeapTone::Text),
            piece("tag : ", HeapTone::Text),
            piece("'A'", HeapTone::Value),
        ]
    );
}

#[test]
fn heap_pane_blocks_in_address_order_with_separators() {
    let mut heap = Heap::new(64);
    let a = heap.allocate(1).unwrap();
    let b = heap.allocate(2).unwrap();
    let c = heap.allocate(1).unwrap();
    heap.free(b).unwrap();
    let lines = pane(&heap, &HashMap::new(), &[], 80);
    assert_eq!(lines.len(), 5);
    assert_eq!(lines[0][0], piece(&format!("0x{:08x}", a), HeapTone::Muted));
    assert_eq!(lines[2], vec![piece("", HeapTone::Muted)]);
    assert_eq!(lines[3][0], piece(&format!("0x{:08x}", c), HeapTone::Muted));
}

#[test]
fn heap_pane_uninitialized_value_is_a_failure() {
    let mut heap = Heap::new(64);
    let a = heap.allocate(8).unwrap();
    let mut types = HashMap::new();
    types.insert(a, Type::new(BaseType::Int).with_pointer());
    let lines = pane(&heap, &types, &[], 80);
    assert_eq!(lines[1][2], piece("[uninit]", HeapTone::Failure));
}
