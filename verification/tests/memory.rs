use copper::memory::{
    contains_properties, find_memorytype_index, find_memorytype_index_f, same_properties,
    MemoryRequirements, MemoryType, PhysicalDeviceMemoryProperties,
};

const DEVICE_LOCAL: u32 = 0x1;
const HOST_VISIBLE: u32 = 0x2;
const HOST_COHERENT: u32 = 0x4;
const HOST_CACHED: u32 = 0x8;

fn device(flags: &[u32]) -> PhysicalDeviceMemoryProperties {
    let mut memory_types = [MemoryType { property_flags: 0, heap_index: 0 }; 32];
    for (i, &property_flags) in flags.iter().enumerate() {
        memory_types[i] = MemoryType { property_flags, heap_index: i as u32 };
    }
    PhysicalDeviceMemoryProperties { memory_types }
}

fn wanting(memory_type_bits: u32) -> MemoryRequirements {
    MemoryRequirements { size: 1024, alignment: 256, memory_type_bits }
}

#[test]
fn properties_are_compared_exactly_or_by_inclusion() {
    assert!(same_properties(6, 6));
    assert!(!same_properties(7, 6));
    assert!(contains_properties(7, 6));
    assert!(contains_properties(6, 6));
    assert!(!contains_properties(4, 6));
    assert!(contains_properties(4, 0));
}

#[test]
fn exact_match_is_preferred_to_an_earlier_superset() {
    let prop = device(&[
        DEVICE_LOCAL,
        HOST_VISIBLE | HOST_COHERENT | HOST_CACHED,
        HOST_VISIBLE | HOST_COHERENT,
    ]);
    let found = find_memorytype_index(&wanting(0b111), &prop, HOST_VISIBLE | HOST_COHERENT);
    assert_eq!(found, Some(2));
}

#[test]
fn superset_is_taken_when_nothing_matches_exactly() {
    let prop = device(&[DEVICE_LOCAL, HOST_VISIBLE | HOST_COHERENT | HOST_CACHED]);
    let found = find_memorytype_index(&wanting(0b11), &prop, HOST_VISIBLE | HOST_COHERENT);
    assert_eq!(found, Some(1));
}

#[test]
fn first_of_several_matches_is_taken() {
    let prop = device(&[DEVICE_LOCAL, HOST_VISIBLE, DEVICE_LOCAL, DEVICE_LOCAL]);
    assert_eq!(find_memorytype_index(&wanting(0b1111), &prop, DEVICE_LOCAL), Some(0));
    assert_eq!(find_memorytype_index(&wanting(0b1100), &prop, DEVICE_LOCAL), Some(2));
    assert_eq!(find_memorytype_index(&wanting(0b1000), &prop, DEVICE_LOCAL), Some(3));
}

#[test]
fn type_that_the_resource_does_not_allow_is_skipped() {
    let prop = device(&[HOST_VISIBLE, HOST_VISIBLE | HOST_CACHED]);
    assert_eq!(find_memorytype_index(&wanting(0b10), &prop, HOST_VISIBLE), Some(1));
    assert_eq!(find_memorytype_index(&wanting(0b00), &prop, HOST_VISIBLE), None);
}

#[test]
fn nothing_is_found_when_no_type_suits() {
    let prop = device(&[DEVICE_LOCAL, HOST_VISIBLE]);
    assert_eq!(find_memorytype_index(&wanting(0b11), &prop, HOST_COHERENT), None);
    assert_eq!(find_memorytype_index(&wanting(0xffff_ffff), &prop, DEVICE_LOCAL | HOST_VISIBLE), None);
}

#[test]
fn last_memory_type_can_be_found() {
    let mut prop = device(&[]);
    prop.memory_types[31] = MemoryType { property_flags: HOST_CACHED, heap_index: 1 };
    assert_eq!(find_memorytype_index(&wanting(0x8000_0000), &prop, HOST_CACHED), Some(31));
    assert_eq!(find_memorytype_index(&wanting(0x7fff_ffff), &prop, HOST_CACHED), None);
}

#[test]
fn flags_of_zero_match_the_first_allowed_empty_type() {
    let prop = device(&[DEVICE_LOCAL, 0, HOST_VISIBLE]);
    // Exactly no properties: type 1. It is allowed, so it wins over type 0,
    // which only contains the empty set.
    assert_eq!(find_memorytype_index(&wanting(0b111), &prop, 0), Some(1));
    // Without type 1, inclusion decides: the first allowed type.
    assert_eq!(find_memorytype_index(&wanting(0b101), &prop, 0), Some(0));
}

#[test]
fn search_with_a_predicate_of_the_caller() {
    let prop = device(&[DEVICE_LOCAL, HOST_VISIBLE, HOST_VISIBLE | HOST_CACHED]);
    let overlaps = |property_flags: u32, flags: u32| property_flags & flags != 0;
    assert_eq!(
        find_memorytype_index_f(&wanting(0b111), &prop, HOST_CACHED | HOST_VISIBLE, overlaps),
        Some(1)
    );
    assert_eq!(find_memorytype_index_f(&wanting(0b101), &prop, HOST_CACHED, overlaps), Some(2));
    assert_eq!(find_memorytype_index_f(&wanting(0b001), &prop, HOST_CACHED, overlaps), None);
    assert_eq!(find_memorytype_index_f(&wanting(0b111), &prop, 0, |_, _| false), None);
}
