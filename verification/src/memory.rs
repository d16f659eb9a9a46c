//! Choosing a memory type of the device for a resource: the first type that
//! the resource allows and whose properties suit.

use vstd::prelude::*;

verus! {

/// The number of memory types that a device reports.
pub const MAX_MEMORY_TYPES: usize = 32;

/// One memory type of a device: its property bits and the heap it lies in.
#[derive(Clone, Copy, Debug, PartialEq, Eq, Structural)]
pub struct MemoryType {
    pub property_flags: u32,
    pub heap_index: u32,
}

/// What a resource asks of its memory. Bit `i` of `memory_type_bits` is set
/// where memory type `i` is allowed.
#[derive(Clone, Copy, Debug, PartialEq, Eq, Structural)]
pub struct MemoryRequirements {
    pub size: u64,
    pub alignment: u64,
    pub memory_type_bits: u32,
}

/// The memory types of a device.
#[derive(Clone, Copy, Debug, PartialEq, Eq)]
pub struct PhysicalDeviceMemoryProperties {
    pub memory_types: [MemoryType; 32],
}

/// Whether the requirements allow the memory type at `index`.
pub open spec fn type_allowed(memory_type_bits: u32, index: int) -> bool {
    (memory_type_bits >> (index as u32)) & 1 == 1
}

/// Whether properties suit the wanted ones: equal to them where `exact`,
/// otherwise holding at least their bits.
pub open spec fn suits(property_flags: u32, flags: u32, exact: bool) -> bool {
    if exact {
        property_flags == flags
    } else {
        property_flags & flags == flags
    }
}

/// The first index from `from` on whose memory type is allowed and suits.
pub open spec fn first_suitable(
    memory_type_bits: u32,
    memory_types: Seq<MemoryType>,
    flags: u32,
    exact: bool,
    from: int,
) -> Option<u32>
    decreases 32 - from,
{
    if from < 0 || from >= 32 {
        None
    } else if type_allowed(memory_type_bits, from) && suits(
        memory_types[from].property_flags,
        flags,
        exact,
    ) {
        Some(from as u32)
    } else {
        first_suitable(memory_type_bits, memory_types, flags, exact, from + 1)
    }
}

/// The memory type chosen for a resource: the first allowed type whose
/// properties are exactly the wanted ones; if there is none, the first
/// allowed type whose properties hold at least the wanted bits.
pub open spec fn chosen_memory_type(
    memory_type_bits: u32,
    memory_types: Seq<MemoryType>,
    flags: u32,
) -> Option<u32> {
    match first_suitable(memory_type_bits, memory_types, flags, true, 0) {
        Some(index) => Some(index),
        None => first_suitable(memory_type_bits, memory_types, flags, false, 0),
    }
}

/// An index before which nothing suits, and at which either something suits
/// or the types end, is what `first_suitable` finds.
pub proof fn lemma_first_suitable(
    memory_type_bits: u32,
    memory_types: Seq<MemoryType>,
    flags: u32,
    exact: bool,
    from: int,
    stop: int,
)
    requires
        0 <= from <= stop <= 32,
        forall|j: int|
            from <= j < stop ==> !(type_allowed(memory_type_bits, j) && suits(
                #[trigger] memory_types[j].property_flags,
                flags,
                exact,
            )),
    ensures
        first_suitable(memory_type_bits, memory_types, flags, exact, from) == first_suitable(
            memory_type_bits,
            memory_types,
            flags,
            exact,
            stop,
        ),
    decreases stop - from,
{
    if from < stop {
        lemma_first_suitable(memory_type_bits, memory_types, flags, exact, from + 1, stop);
    }
}

/// Finds the first memory type that the requirements allow and for which
/// `f`, called with the properties of the type and with `flags`, returns
/// true.
pub fn find_memorytype_index_f<F: Fn(u32, u32) -> bool>(
    memory_req: &MemoryRequirements,
    memory_prop: &PhysicalDeviceMemoryProperties,
    flags: u32,
    f: F,
) -> (found: Option<u32>)
    requires
        forall|property_flags: u32| call_requires(f, (property_flags, flags)),
    ensures
        match found {
            Some(index) => {
                &&& index < 32
                &&& type_allowed(memory_req.memory_type_bits, index as int)
                &&& call_ensures(
                    f,
                    (memory_prop.memory_types@[index as int].property_flags, flags),
                    true,
                )
                &&& forall|j: int|
                    0 <= j < index && type_allowed(memory_req.memory_type_bits, j)
                        ==> call_ensures(
                        f,
                        (#[trigger] memory_prop.memory_types@[j].property_flags, flags),
                        false,
                    )
            },
            None => forall|j: int|
                0 <= j < 32 && type_allowed(memory_req.memory_type_bits, j) ==> call_ensures(
                    f,
                    (#[trigger] memory_prop.memory_types@[j].property_flags, flags),
                    false,
                ),
        },
{
    let mut memory_type_bits: u32 = memory_req.memory_type_bits;
    let mut index: usize = 0;
    assert(memory_type_bits >> 0u32 == memory_type_bits) by (bit_vector);
    while index < MAX_MEMORY_TYPES
        invariant
            index <= 32,
            forall|property_flags: u32| call_requires(f, (property_flags, flags)),
            index < 32 ==> memory_type_bits == memory_req.memory_type_bits >> (index as u32),
            forall|j: int|
                0 <= j < index && type_allowed(memory_req.memory_type_bits, j) ==> call_ensures(
                    f,
                    (#[trigger] memory_prop.memory_types@[j].property_flags, flags),
                    false,
                ),
        decreases 32 - index,
    {
        if memory_type_bits & 1 == 1 {
            if f(memory_prop.memory_types[index].property_flags, flags) {
                return Some(index as u32);
            }
        }
        proof {
            let bits = memory_req.memory_type_bits;
            let shift = index as u32;
            assert(shift < 31 ==> (bits >> shift) >> 1 == bits >> ((shift + 1) as u32))
                by (bit_vector);
        }
        memory_type_bits = memory_type_bits >> 1;
        index += 1;
    }
    None
}

/// Whether the two sets of property bits are the same.
pub fn same_properties(property_flags: u32, flags: u32) -> (b: bool)
    ensures
        b == suits(property_flags, flags, true),
{
    property_flags == flags
}

/// Whether `property_flags` holds every bit of `flags`.
pub fn contains_properties(property_flags: u32, flags: u32) -> (b: bool)
    ensures
        b == suits(property_flags, flags, false),
{
    property_flags & flags == flags
}

/// Chooses the memory type for a resource: the first allowed type with
/// exactly the wanted properties, or else the first allowed type with at
/// least those properties.
pub fn find_memorytype_index(
    memory_req: &MemoryRequirements,
    memory_prop: &PhysicalDeviceMemoryProperties,
    flags: u32,
) -> (found: Option<u32>)
    ensures
        found == chosen_memory_type(memory_req.memory_type_bits, memory_prop.memory_types@, flags),
{
    let bits = memory_req.memory_type_bits;
    let best_suitable_index = find_memorytype_index_f(
        memory_req,
        memory_prop,
        flags,
        same_properties,
    );
    proof {
        let stop: int = match best_suitable_index {
            Some(index) => index as int,
            None => 32,
        };
        lemma_first_suitable(bits, memory_prop.memory_types@, flags, true, 0, stop);
    }
    if best_suitable_index.is_some() {
        return best_suitable_index;
    }
    let found = find_memorytype_index_f(memory_req, memory_prop, flags, contains_properties);
    proof {
        let stop: int = match found {
            Some(index) => index as int,
            None => 32,
        };
        lemma_first_suitable(bits, memory_prop.memory_types@, flags, false, 0, stop);
    }
    found
}

/// Whether `n` is a power of two.
pub open spec fn is_power_of_two(n: u64) -> bool {
    n > 0 && n & ((n - 1) as u64) == 0
}

/// The stride of the elements of a dynamic uniform buffer: `stride` rounded
/// up to a multiple of the least alignment that the device asks for. An
/// alignment of 0 asks for nothing.
pub open spec fn aligned_stride(stride: u64, min_ub_alignment: u64) -> u64 {
    if min_ub_alignment > 0 {
        ((stride + min_ub_alignment - 1) as u64) & !((min_ub_alignment - 1) as u64)
    } else {
        stride
    }
}

/// For an alignment that is a power of two, the aligned stride has no bit
/// set below the alignment, is not less than the stride, and exceeds it by
/// less than the alignment: it is the least such multiple of the alignment.
pub proof fn law_aligned_stride(stride: u64, min_ub_alignment: u64)
    requires
        is_power_of_two(min_ub_alignment),
        stride + min_ub_alignment - 1 <= u64::MAX,
    ensures
        aligned_stride(stride, min_ub_alignment) & ((min_ub_alignment - 1) as u64) == 0,
        stride <= aligned_stride(stride, min_ub_alignment) < stride + min_ub_alignment,
{
    let a = min_ub_alignment;
    let s = stride;
    let r = aligned_stride(stride, min_ub_alignment);
    assert(r & ((a - 1) as u64) == 0) by (bit_vector)
        requires
            a > 0,
            r == ((s + a - 1) as u64) & !((a - 1) as u64),
    ;
    assert(s <= r && r - s < a) by (bit_vector)
        requires
            a > 0,
            a & ((a - 1) as u64) == 0,
            s + a - 1 <= 0xffff_ffff_ffff_ffff,
            r == ((s + a - 1) as u64) & !((a - 1) as u64),
    ;
}

/// Rounds the stride of the elements of a dynamic uniform buffer up to the
/// least alignment that the device asks for.
pub fn dynamic_alignment(stride: u64, min_ub_alignment: u64) -> (aligned: u64)
    requires
        stride + min_ub_alignment <= u64::MAX + 1,
    ensures
        aligned == aligned_stride(stride, min_ub_alignment),
{
    let mut dynamic_alignment: u64 = stride;
    if min_ub_alignment > 0 {
        dynamic_alignment = (dynamic_alignment + (min_ub_alignment - 1)) & !(min_ub_alignment - 1);
    }
    dynamic_alignment
}

} // verus!
