//! How JSON values lie in memory, and when a description of that is sound.

use vstd::prelude::*;

use crate::json_stage::FormatStatus;

verus! {

/// What the machine and its runtime fix.
#[derive(Clone, Copy, Debug, PartialEq, Eq, Structural)]
pub struct JsonAbi {
    /// The version that a description must have.
    pub version: u32,
    pub pointer_size: u64,
    pub pointer_alignment: u64,
    pub number_size: u64,
    pub number_alignment: u64,
    /// The size of the counts in the headers of objects.
    pub header_size: u64,
    pub header_alignment: u64,
    pub max_object_bytes: u64,
    pub max_object_alignment: u64,
    /// The size of the header of a text.
    pub text_header_size: u64,
}

/// How a JSON value, and the lists and maps that it refers to, lie in memory.
#[derive(Clone, Copy, Debug, PartialEq, Eq, Structural)]
pub struct LoomTypedJsonLayout {
    pub abi_version: u32,
    pub flags: u32,
    pub json_size: u64,
    pub json_alignment: u64,
    pub tag_offset: u64,
    pub tag_size: u64,
    pub bool_payload_offset: u64,
    pub number_payload_offset: u64,
    pub text_payload_offset: u64,
    pub array_payload_offset: u64,
    pub object_payload_offset: u64,
    pub list_length_offset: u64,
    pub list_capacity_offset: u64,
    pub list_data_offset: u64,
    pub list_element_stride: u64,
    pub map_length_offset: u64,
    pub map_data_offset: u64,
    pub map_entry_stride: u64,
    pub map_key_offset: u64,
    pub map_value_offset: u64,
}

/// The stretch of `size` bytes at `offset` ends within `limit`.
pub open spec fn within(offset: u64, size: u64, limit: u64) -> bool {
    offset + size <= limit
}

/// Whether the stretch of `size` bytes at `offset` ends within `limit`.
pub fn checked_span(offset: u64, size: u64, limit: u64) -> (result: bool)
    ensures
        result == within(offset, size, limit),
{
    match offset.checked_add(size) {
        Some(end) => end <= limit,
        None => false,
    }
}

/// The end of a stretch, or the greatest offset.
pub open spec fn span_end(offset: u64, size: u64) -> int {
    if offset + size <= u64::MAX {
        offset + size
    } else {
        u64::MAX as int
    }
}

/// Each of two stretches begins before the end of the other.
pub open spec fn overlap(
    left_offset: u64,
    left_size: u64,
    right_offset: u64,
    right_size: u64,
) -> bool {
    left_offset < span_end(right_offset, right_size) && right_offset < span_end(
        left_offset,
        left_size,
    )
}

/// Whether each of two stretches begins before the end of the other.
pub fn spans_overlap(
    left_offset: u64,
    left_size: u64,
    right_offset: u64,
    right_size: u64,
) -> (result:
    bool)
    ensures
        result == overlap(left_offset, left_size, right_offset, right_size),
{
    left_offset < right_offset.saturating_add(right_size) && right_offset
        < left_offset.saturating_add(left_size)
}

/// A byte lies in a stretch.
pub open spec fn in_span(byte: int, offset: u64, size: u64) -> bool {
    offset <= byte < offset + size
}

/// Two stretches that are not empty and end within the address space overlap
/// exactly when they share a byte.
pub proof fn law_overlap_shares_byte(
    left_offset: u64,
    left_size: u64,
    right_offset: u64,
    right_size: u64,
)
    requires
        left_size > 0,
        right_size > 0,
        left_offset + left_size <= u64::MAX,
        right_offset + right_size <= u64::MAX,
    ensures
        overlap(left_offset, left_size, right_offset, right_size) <==> exists|byte: int| #[trigger]
            in_span(byte, left_offset, left_size) && in_span(byte, right_offset, right_size),
{
    if overlap(left_offset, left_size, right_offset, right_size) {
        let byte = if left_offset <= right_offset {
            right_offset as int
        } else {
            left_offset as int
        };
        assert(in_span(byte, left_offset, left_size) && in_span(byte, right_offset, right_size));
    }
}

/// The offset is a multiple of the alignment.
pub open spec fn aligned(offset: u64, alignment: u64) -> bool {
    alignment != 0 && offset % alignment == 0
}

/// Whether the offset is a multiple of the alignment.
pub fn offset_is_aligned(offset: u64, alignment: u64) -> (result: bool)
    ensures
        result == aligned(offset, alignment),
{
    alignment != 0 && offset % alignment == 0
}

/// The value is a power of two.
pub open spec fn is_power(value: u64) -> bool
    decreases value,
{
    if value == 0 {
        false
    } else if value == 1 {
        true
    } else {
        value % 2 == 0 && is_power(value / 2)
    }
}

fn check_power(value: u64) -> (result: bool)
    ensures
        result == is_power(value),
    decreases value,
{
    if value == 0 {
        false
    } else if value == 1 {
        true
    } else {
        value % 2 == 0 && check_power(value / 2)
    }
}

pub open spec fn greater(left: u64, right: u64) -> u64 {
    if left > right {
        left
    } else {
        right
    }
}

pub(crate) fn max_of(left: u64, right: u64) -> (result: u64)
    ensures
        result == greater(left, right),
{
    if left > right {
        left
    } else {
        right
    }
}

/// The value can be a size or an offset in an object.
pub open spec fn in_object(abi: JsonAbi, value: u64) -> bool {
    value <= abi.max_object_bytes && value <= usize::MAX
}

fn check_in_object(abi: &JsonAbi, value: u64) -> (result: bool)
    ensures
        result == in_object(*abi, value),
{
    value <= abi.max_object_bytes && value <= usize::MAX as u64
}

impl LoomTypedJsonLayout {
    /// The sizes and offsets fit in an object.
    #[verifier::opaque]
    pub open spec fn values_fit(self, abi: JsonAbi) -> bool {
        &&& in_object(abi, self.json_size)
        &&& in_object(abi, self.tag_offset)
        &&& in_object(abi, self.bool_payload_offset)
        &&& in_object(abi, self.number_payload_offset)
        &&& in_object(abi, self.text_payload_offset)
        &&& in_object(abi, self.array_payload_offset)
        &&& in_object(abi, self.object_payload_offset)
        &&& in_object(abi, self.list_length_offset)
        &&& in_object(abi, self.list_capacity_offset)
        &&& in_object(abi, self.list_data_offset)
        &&& in_object(abi, self.list_element_stride)
        &&& in_object(abi, self.map_length_offset)
        &&& in_object(abi, self.map_data_offset)
        &&& in_object(abi, self.map_entry_stride)
        &&& in_object(abi, self.map_key_offset)
        &&& in_object(abi, self.map_value_offset)
    }

    fn descriptor_value_limit(&self, abi: &JsonAbi) -> (result: bool)
        ensures
            result == self.values_fit(*abi),
    {
        proof {
            reveal(LoomTypedJsonLayout::values_fit);
        }
        check_in_object(abi, self.json_size) && check_in_object(abi, self.tag_offset)
            && check_in_object(abi, self.bool_payload_offset) && check_in_object(
            abi,
            self.number_payload_offset,
        ) && check_in_object(abi, self.text_payload_offset) && check_in_object(
            abi,
            self.array_payload_offset,
        ) && check_in_object(abi, self.object_payload_offset) && check_in_object(
            abi,
            self.list_length_offset,
        ) && check_in_object(abi, self.list_capacity_offset) && check_in_object(
            abi,
            self.list_data_offset,
        ) && check_in_object(abi, self.list_element_stride) && check_in_object(
            abi,
            self.map_length_offset,
        ) && check_in_object(abi, self.map_data_offset) && check_in_object(
            abi,
            self.map_entry_stride,
        ) && check_in_object(abi, self.map_key_offset) && check_in_object(
            abi,
            self.map_value_offset,
        )
    }

    /// The value itself, its tag and its scalars are well placed.
    #[verifier::opaque]
    pub open spec fn value_sound(self, abi: JsonAbi) -> bool {
        &&& abi.pointer_size == 8
        &&& self.flags == 0
        &&& self.json_size != 0
        &&& self.json_alignment >= greater(abi.pointer_alignment, abi.number_alignment)
        &&& is_power(self.json_alignment)
        &&& self.json_alignment <= abi.max_object_alignment
        &&& aligned(self.json_size, self.json_alignment)
        &&& (self.tag_size == 1 || self.tag_size == 2 || self.tag_size == 4)
        &&& aligned(self.tag_offset, self.tag_size)
        &&& within(self.tag_offset, self.tag_size, self.json_size)
        &&& within(self.bool_payload_offset, 1, self.json_size)
        &&& aligned(self.number_payload_offset, abi.number_alignment)
        &&& within(self.number_payload_offset, abi.number_size, self.json_size)
    }

    fn check_value(&self, abi: &JsonAbi) -> (result: bool)
        ensures
            result == self.value_sound(*abi),
    {
        proof {
            reveal(LoomTypedJsonLayout::value_sound);
        }
        abi.pointer_size == 8 && self.flags == 0 && self.json_size != 0 && self.json_alignment
            >= max_of(abi.pointer_alignment, abi.number_alignment) && check_power(
            self.json_alignment,
        ) && self.json_alignment <= abi.max_object_alignment && offset_is_aligned(
            self.json_size,
            self.json_alignment,
        ) && (self.tag_size == 1 || self.tag_size == 2 || self.tag_size == 4)
            && offset_is_aligned(self.tag_offset, self.tag_size) && checked_span(
            self.tag_offset,
            self.tag_size,
            self.json_size,
        ) && checked_span(self.bool_payload_offset, 1, self.json_size) && offset_is_aligned(
            self.number_payload_offset,
            abi.number_alignment,
        ) && checked_span(self.number_payload_offset, abi.number_size, self.json_size)
    }

    /// A pointer at the offset is well placed in the value.
    pub open spec fn pointer_sound(self, abi: JsonAbi, offset: u64) -> bool {
        aligned(offset, abi.pointer_alignment) && within(offset, abi.pointer_size, self.json_size)
    }

    fn check_pointer(&self, abi: &JsonAbi, offset: u64) -> (result: bool)
        ensures
            result == self.pointer_sound(*abi, offset),
    {
        offset_is_aligned(offset, abi.pointer_alignment) && checked_span(
            offset,
            abi.pointer_size,
            self.json_size,
        )
    }

    /// What lies at the offset does not touch the tag.
    pub open spec fn clear_of_tag(self, offset: u64, size: u64) -> bool {
        !overlap(self.tag_offset, self.tag_size, offset, size)
    }

    fn check_clear_of_tag(&self, offset: u64, size: u64) -> (result: bool)
        ensures
            result == self.clear_of_tag(offset, size),
    {
        !spans_overlap(self.tag_offset, self.tag_size, offset, size)
    }

    /// The payloads are well placed and do not touch the tag.
    #[verifier::opaque]
    pub open spec fn payloads_sound(self, abi: JsonAbi) -> bool {
        &&& self.pointer_sound(abi, self.text_payload_offset)
        &&& self.pointer_sound(abi, self.array_payload_offset)
        &&& self.pointer_sound(abi, self.object_payload_offset)
        &&& self.clear_of_tag(self.bool_payload_offset, 1)
        &&& self.clear_of_tag(self.number_payload_offset, abi.number_size)
        &&& self.clear_of_tag(self.text_payload_offset, abi.pointer_size)
        &&& self.clear_of_tag(self.array_payload_offset, abi.pointer_size)
        &&& self.clear_of_tag(self.object_payload_offset, abi.pointer_size)
    }

    fn check_payloads(&self, abi: &JsonAbi) -> (result: bool)
        ensures
            result == self.payloads_sound(*abi),
    {
        proof {
            reveal(LoomTypedJsonLayout::payloads_sound);
        }
        self.check_pointer(abi, self.text_payload_offset) && self.check_pointer(
            abi,
            self.array_payload_offset,
        ) && self.check_pointer(abi, self.object_payload_offset) && self.check_clear_of_tag(
            self.bool_payload_offset,
            1,
        ) && self.check_clear_of_tag(self.number_payload_offset, abi.number_size)
            && self.check_clear_of_tag(self.text_payload_offset, abi.pointer_size)
            && self.check_clear_of_tag(self.array_payload_offset, abi.pointer_size)
            && self.check_clear_of_tag(self.object_payload_offset, abi.pointer_size)
    }

    /// The header and the elements of a list are well placed.
    #[verifier::opaque]
    pub open spec fn list_sound(self, abi: JsonAbi) -> bool {
        &&& aligned(self.list_length_offset, abi.header_alignment)
        &&& aligned(self.list_capacity_offset, abi.header_alignment)
        &&& within(self.list_length_offset, abi.header_size, self.list_data_offset)
        &&& within(self.list_capacity_offset, abi.header_size, self.list_data_offset)
        &&& !overlap(
            self.list_length_offset,
            abi.header_size,
            self.list_capacity_offset,
            abi.header_size,
        )
        &&& aligned(self.list_data_offset, self.json_alignment)
        &&& self.list_element_stride >= self.json_size
        &&& aligned(self.list_element_stride, self.json_alignment)
        &&& within(self.list_data_offset, self.list_element_stride, abi.max_object_bytes)
    }

    fn check_list(&self, abi: &JsonAbi) -> (result: bool)
        ensures
            result == self.list_sound(*abi),
    {
        proof {
            reveal(LoomTypedJsonLayout::list_sound);
        }
        offset_is_aligned(self.list_length_offset, abi.header_alignment) && offset_is_aligned(
            self.list_capacity_offset,
            abi.header_alignment,
        ) && checked_span(self.list_length_offset, abi.header_size, self.list_data_offset)
            && checked_span(self.list_capacity_offset, abi.header_size, self.list_data_offset)
            && !spans_overlap(
            self.list_length_offset,
            abi.header_size,
            self.list_capacity_offset,
            abi.header_size,
        ) && offset_is_aligned(self.list_data_offset, self.json_alignment)
            && self.list_element_stride >= self.json_size && offset_is_aligned(
            self.list_element_stride,
            self.json_alignment,
        ) && checked_span(self.list_data_offset, self.list_element_stride, abi.max_object_bytes)
    }

    /// The header and the entries of a map are well placed.
    #[verifier::opaque]
    pub open spec fn map_sound(self, abi: JsonAbi) -> bool {
        let entry_alignment = greater(abi.pointer_alignment, self.json_alignment);
        &&& aligned(self.map_length_offset, abi.header_alignment)
        &&& within(self.map_length_offset, abi.header_size, self.map_data_offset)
        &&& aligned(self.map_data_offset, entry_alignment)
        &&& aligned(self.map_key_offset, abi.pointer_alignment)
        &&& within(self.map_key_offset, abi.pointer_size, self.map_entry_stride)
        &&& aligned(self.map_value_offset, self.json_alignment)
        &&& within(self.map_value_offset, self.json_size, self.map_entry_stride)
        &&& !overlap(
            self.map_key_offset,
            abi.pointer_size,
            self.map_value_offset,
            self.json_size,
        )
        &&& self.map_entry_stride != 0
        &&& aligned(self.map_entry_stride, entry_alignment)
        &&& within(self.map_data_offset, self.map_entry_stride, abi.max_object_bytes)
    }

    fn check_map(&self, abi: &JsonAbi) -> (result: bool)
        ensures
            result == self.map_sound(*abi),
    {
        proof {
            reveal(LoomTypedJsonLayout::map_sound);
        }
        let entry_alignment: u64 = max_of(abi.pointer_alignment, self.json_alignment);
        offset_is_aligned(self.map_length_offset, abi.header_alignment) && checked_span(
            self.map_length_offset,
            abi.header_size,
            self.map_data_offset,
        ) && offset_is_aligned(self.map_data_offset, entry_alignment) && offset_is_aligned(
            self.map_key_offset,
            abi.pointer_alignment,
        ) && checked_span(self.map_key_offset, abi.pointer_size, self.map_entry_stride)
            && offset_is_aligned(self.map_value_offset, self.json_alignment) && checked_span(
            self.map_value_offset,
            self.json_size,
            self.map_entry_stride,
        ) && !spans_overlap(
            self.map_key_offset,
            abi.pointer_size,
            self.map_value_offset,
            self.json_size,
        ) && self.map_entry_stride != 0 && offset_is_aligned(
            self.map_entry_stride,
            entry_alignment,
        ) && checked_span(self.map_data_offset, self.map_entry_stride, abi.max_object_bytes)
    }

    /// Every part of the description is well placed.
    pub open spec fn sound(self, abi: JsonAbi) -> bool {
        self.value_sound(abi) && self.payloads_sound(abi) && self.list_sound(abi)
            && self.map_sound(abi)
    }

    /// What is wrong with the description.
    pub open spec fn fault(self, abi: JsonAbi) -> Option<FormatStatus> {
        if self.abi_version != abi.version {
            Some(FormatStatus::AbiMismatch)
        } else if !self.values_fit(abi) {
            Some(FormatStatus::ResourceLimit)
        } else if !self.sound(abi) {
            Some(FormatStatus::DescriptorInvalid)
        } else {
            None
        }
    }
}

/// A description that was found sound.
#[derive(Clone, Copy, Debug, PartialEq, Eq, Structural)]
pub struct ValidatedLayout {
    pub abi: JsonAbi,
    pub raw: LoomTypedJsonLayout,
}

impl ValidatedLayout {
    pub open spec fn wf(self) -> bool {
        self.raw.fault(self.abi) is None
    }
}

/// Accepts a description if every part of it is well placed.
pub fn validate_layout(abi: &JsonAbi, layout: &LoomTypedJsonLayout) -> (result: Result<
    ValidatedLayout,
    FormatStatus,
>)
    ensures
        match result {
            Ok(validated) => validated.wf() && validated.abi == *abi && validated.raw == *layout,
            Err(status) => layout.fault(*abi) == Some(status),
        },
{
    if layout.abi_version != abi.version {
        return Err(FormatStatus::AbiMismatch);
    }
    if !layout.descriptor_value_limit(abi) {
        return Err(FormatStatus::ResourceLimit);
    }
    if layout.check_value(abi) && layout.check_payloads(abi) && layout.check_list(abi)
        && layout.check_map(abi) {
        Ok(ValidatedLayout { abi: *abi, raw: *layout })
    } else {
        Err(FormatStatus::DescriptorInvalid)
    }
}

/// In a sound description the tag shares no byte with the payloads, the counts
/// of a list share none with each other, and a key none with its value.
pub proof fn law_sound_parts_are_apart(layout: LoomTypedJsonLayout, abi: JsonAbi, byte: int)
    requires
        layout.fault(abi) is None,
        abi.number_size > 0,
        abi.header_size > 0,
    ensures
        in_span(byte, layout.tag_offset, layout.tag_size) ==> !in_span(
            byte,
            layout.number_payload_offset,
            abi.number_size,
        ) && !in_span(byte, layout.bool_payload_offset, 1) && !in_span(
            byte,
            layout.text_payload_offset,
            abi.pointer_size,
        ) && !in_span(byte, layout.array_payload_offset, abi.pointer_size) && !in_span(
            byte,
            layout.object_payload_offset,
            abi.pointer_size,
        ),
        in_span(byte, layout.list_length_offset, abi.header_size) ==> !in_span(
            byte,
            layout.list_capacity_offset,
            abi.header_size,
        ),
        in_span(byte, layout.map_key_offset, abi.pointer_size) ==> !in_span(
            byte,
            layout.map_value_offset,
            layout.json_size,
        ),
{
    reveal(LoomTypedJsonLayout::value_sound);
    reveal(LoomTypedJsonLayout::payloads_sound);
    reveal(LoomTypedJsonLayout::list_sound);
    reveal(LoomTypedJsonLayout::map_sound);
}

} // verus!
