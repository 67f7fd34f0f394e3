use crustty::interpreter::constants::HEAP_ADDRESS_START;
use crustty::memory::heap::{BlockState, Heap, HeapBlock, DEFAULT_HEAP_SIZE};
use crustty::memory::{pointer_add, pointer_diff, pointer_sub, sizeof_type};
use crustty::parser::ast::{BaseType, Field, StructDef, Type};

fn point_def() -> StructDef {
    StructDef {
        name: "Point".to_string(),
        fields: vec![
            Field { name: "x".to_string(), field_type: Type::new(BaseType::Int) },
            Field { name: "y".to_string(), field_type: Type::new(BaseType::Int) },
            Field { name: "tag".to_string(), field_type: Type::new(BaseType::Char) },
        ],
    }
}

#[test]
fn heap_allocate_gives_consecutive_addresses() {
    let mut heap = Heap::new(1024);
    let a = heap.allocate(16).unwrap();
    let b = heap.allocate(8).unwrap();
    assert_eq!(a, HEAP_ADDRESS_START);
    assert_eq!(b, HEAP_ADDRESS_START + 16);
    assert_eq!(heap.total_allocated(), 24);
    assert_eq!(heap.max_size(), 1024);
}

#[test]
fn heap_out_of_memory_message() {
    let mut heap = Heap::new(10);
    heap.allocate(8).unwrap();
    let err = heap.allocate(4).unwrap_err();
    assert_eq!(err, "Out of memory: requested 4 bytes, 8 already allocated, limit is 10");
    assert_eq!(heap.total_allocated(), 8);
}

#[test]
fn heap_default_limit_is_ten_megabytes() {
    let heap = Heap::default();
    assert_eq!(heap.max_size(), 10 * 1024 * 1024);
    assert_eq!(DEFAULT_HEAP_SIZE, 10 * 1024 * 1024);
    assert_eq!(heap.total_allocated(), 0);
}

#[test]
fn heap_read_after_write() {
    let mut heap = Heap::new(1024);
    let a = heap.allocate(4).unwrap();
    heap.write_byte(a + 2, 0xAB).unwrap();
    assert_eq!(heap.read_byte(a + 2), Ok(0xAB));
    heap.write_bytes_at(a, &[1, 2, 3, 4]).unwrap();
    assert_eq!(heap.read_bytes_at(a, 4), Ok(vec![1, 2, 3, 4]));
}

#[test]
fn heap_write_leaves_other_bytes() {
    let mut heap = Heap::new(1024);
    let a = heap.allocate(4).unwrap();
    heap.write_bytes_at(a, &[9, 9, 9, 9]).unwrap();
    heap.write_byte(a + 1, 5).unwrap();
    assert_eq!(heap.read_bytes_at(a, 4), Ok(vec![9, 5, 9, 9]));
}

#[test]
fn heap_uninitialized_read() {
    let mut heap = Heap::new(1024);
    let a = heap.allocate(4).unwrap();
    assert_eq!(heap.read_byte(a + 1), Err(format!("Uninitialized read at address 0x{:x}", a + 1)));
}

#[test]
fn heap_invalid_read_and_write() {
    let mut heap = Heap::new(1024);
    heap.allocate(4).unwrap();
    assert_eq!(heap.read_byte(16), Err("Invalid read: address 0x10 not in any allocated block".to_string()));
    assert_eq!(heap.write_byte(16, 1), Err("Invalid write: address 0x10 not in any allocated block".to_string()));
}

#[test]
fn heap_use_after_free_and_double_free() {
    let mut heap = Heap::new(1024);
    let a = heap.allocate(4).unwrap();
    heap.write_byte(a, 1).unwrap();
    heap.free(a).unwrap();
    assert_eq!(heap.read_byte(a), Err(format!("Use-after-free: address 0x{:x} has been freed", a)));
    assert_eq!(heap.write_byte(a + 3, 1), Err(format!("Use-after-free: address 0x{:x} has been freed", a)));
    assert_eq!(heap.free(a), Err(format!("Double free detected at address 0x{:x}", a)));
    assert_eq!(heap.free(12), Err("Invalid free: address 0xc was never allocated".to_string()));
    // freed blocks stay as tombstones and still count as allocated
    assert_eq!(heap.total_allocated(), 4);
    assert_eq!(heap.allocations().get(&a).unwrap().state, BlockState::Tombstone);
}

#[test]
fn heap_get_block_errors() {
    let mut heap = Heap::new(1024);
    let a = heap.allocate(2).unwrap();
    assert_eq!(heap.get_block(a).unwrap().size, 2);
    assert_eq!(heap.get_block(a + 1).unwrap_err(), format!("Invalid pointer: address 0x{:x} not allocated", a + 1));
    heap.get_block_mut(a).unwrap().mark_initialized(0, 2);
    assert!(heap.get_block(a).unwrap().is_initialized(0, 2));
    heap.free(a).unwrap();
    assert_eq!(heap.get_block(a).unwrap_err(), format!("Use-after-free: address 0x{:x} has been freed", a));
    assert!(heap.get_block_mut(a).is_err());
}

#[test]
fn heap_write_bytes_stops_at_first_failure() {
    let mut heap = Heap::new(1024);
    let a = heap.allocate(2).unwrap();
    let err = heap.write_bytes_at(a, &[1, 2, 3]).unwrap_err();
    assert_eq!(err, format!("Invalid write: address 0x{:x} not in any allocated block", a + 2));
    assert_eq!(heap.read_bytes_at(a, 2), Ok(vec![1, 2]));
    assert!(heap.read_bytes_at(a, 3).is_err());
}

#[test]
fn heap_block_operations() {
    let mut block = HeapBlock::new(4);
    assert_eq!(block.data, vec![0, 0, 0, 0]);
    assert!(!block.is_initialized(0, 1));
    block.write_bytes(1, &[7, 8]).unwrap();
    assert_eq!(block.data, vec![0, 7, 8, 0]);
    assert!(block.is_initialized(1, 2));
    assert!(!block.is_initialized(0, 2));
    assert_eq!(block.read_bytes(1, 2), Some(&[7u8, 8][..]));
    assert_eq!(block.read_bytes(3, 2), None);
    assert_eq!(
        block.write_bytes(3, &[1, 2]),
        Err("Buffer overrun: attempted to write 2 bytes at offset 3 in block of size 4".to_string())
    );
    block.mark_uninitialized(1, 1);
    assert_eq!(block.init_map, vec![false, false, true, false]);
    block.mark_initialized(0, 4);
    assert!(block.is_initialized(0, 4));
    assert!(!block.is_initialized(2, 3));
}

#[test]
fn sizeof_basic_types() {
    let defs: Vec<StructDef> = vec![];
    assert_eq!(sizeof_type(&Type::new(BaseType::Int), &defs), 4);
    assert_eq!(sizeof_type(&Type::new(BaseType::Char), &defs), 1);
    assert_eq!(sizeof_type(&Type::new(BaseType::Void), &defs), 0);
    assert_eq!(sizeof_type(&Type::new(BaseType::Char).with_pointer(), &defs), 8);
    assert_eq!(sizeof_type(&Type::new(BaseType::Int).with_array(Some(10)), &defs), 40);
    assert_eq!(
        sizeof_type(&Type::new(BaseType::Int).with_array(Some(2)).with_array(Some(3)), &defs),
        24
    );
    assert_eq!(sizeof_type(&Type::new(BaseType::Int).with_pointer().with_array(Some(3)), &defs), 8);
}

#[test]
fn sizeof_structs_without_padding() {
    let defs = vec![
        point_def(),
        StructDef {
            name: "Line".to_string(),
            fields: vec![
                Field { name: "a".to_string(), field_type: Type::new(BaseType::Struct("Point".to_string())) },
                Field { name: "b".to_string(), field_type: Type::new(BaseType::Struct("Point".to_string())) },
            ],
        },
    ];
    assert_eq!(sizeof_type(&Type::new(BaseType::Struct("Point".to_string())), &defs), 9);
    assert_eq!(sizeof_type(&Type::new(BaseType::Struct("Line".to_string())), &defs), 18);
    assert_eq!(
        sizeof_type(&Type::new(BaseType::Struct("Point".to_string())).with_array(Some(2)), &defs),
        18
    );
}

#[test]
fn pointer_arithmetic_scales_by_pointee() {
    let defs = vec![point_def()];
    let int_t = Type::new(BaseType::Int);
    let point_t = Type::new(BaseType::Struct("Point".to_string()));
    assert_eq!(pointer_add(1000, 3, &int_t, &defs), 1012);
    assert_eq!(pointer_add(1000, -2, &point_t, &defs), 982);
    assert_eq!(pointer_sub(1000, 3, &int_t, &defs), 988);
    assert_eq!(pointer_diff(1012, 1000, &int_t, &defs), 3);
    assert_eq!(pointer_diff(1000, 1012, &int_t, &defs), -3);
    assert_eq!(pointer_diff(1010, 1000, &int_t, &defs), 2);
    assert_eq!(pointer_diff(1000, 1010, &int_t, &defs), -2);
    // moving back past address zero wraps around as a 64-bit address
    assert_eq!(pointer_add(4, -2, &int_t, &defs), (-4i64) as u64);
}

#[test]
fn pointer_diff_undoes_add() {
    let defs = vec![point_def()];
    let point_t = Type::new(BaseType::Struct("Point".to_string()));
    let p = pointer_add(HEAP_ADDRESS_START, 7, &point_t, &defs);
    assert_eq!(pointer_diff(p, HEAP_ADDRESS_START, &point_t, &defs), 7);
    assert_eq!(pointer_sub(p, 7, &point_t, &defs), HEAP_ADDRESS_START);
}

#[test]
fn later_struct_definition_replaces_earlier() {
    let field = |name: &str, base: BaseType| Field { name: name.to_string(), field_type: Type::new(base) };
    let defs = vec![
        StructDef { name: "P".to_string(), fields: vec![field("x", BaseType::Char)] },
        StructDef { name: "P".to_string(), fields: vec![field("x", BaseType::Int), field("y", BaseType::Int)] },
    ];
    assert_eq!(sizeof_type(&Type::new(BaseType::Struct("P".to_string())), &defs), 8);
}
