//! The JSON value that lies in memory is the one that is written.

use vstd::prelude::*;
use vstd::utf8::{decode_utf8, valid_utf8};

use crate::chain::{lemma_len, Chain};
use crate::constants::{magnitude, INFINITY_BITS};
use crate::json_layout::{aligned, ValidatedLayout};
use crate::json_stage::quoted;
use crate::typed_json::{bytes_less, item_place, number_text, place, says, Memory, Stop};

verus! {

/// A JSON value. The keys of an object are held as their bytes.
pub enum Json {
    Null,
    Bool(bool),
    Number(Seq<char>),
    Text(Seq<char>),
    Array(Chain<Json>),
    Object(Chain<(Seq<u8>, Json)>),
}

/// The text of a value: `null`, `true`, `false`, a number, a quoted text, a
/// list in square brackets or an object in braces, with commas between items
/// and a colon behind each key.
pub open spec fn json_text(value: Json) -> Seq<char>
    decreases value,
{
    match value {
        Json::Null => "null"@,
        Json::Bool(b) => if b {
            "true"@
        } else {
            "false"@
        },
        Json::Number(text) => text,
        Json::Text(text) => quoted(text),
        Json::Array(items) => "["@ + items_text(items) + "]"@,
        Json::Object(entries) => "{"@ + entries_text(entries) + "}"@,
    }
}

pub open spec fn items_text(items: Chain<Json>) -> Seq<char>
    decreases items,
{
    match items {
        Chain::Empty => Seq::empty(),
        Chain::Link(link) => items_text(link.rest) + (if link.rest is Empty {
            Seq::empty()
        } else {
            ","@
        }) + json_text(link.item),
    }
}

pub open spec fn entries_text(entries: Chain<(Seq<u8>, Json)>) -> Seq<char>
    decreases entries,
{
    match entries {
        Chain::Empty => Seq::empty(),
        Chain::Link(link) => entries_text(link.rest) + (if link.rest is Empty {
            Seq::empty()
        } else {
            ","@
        }) + quoted(decode_utf8(link.item.0)) + ":"@ + json_text(link.item.1),
    }
}

/// The word at an offset of an object is known to be `value`.
pub open spec fn reads(memory: Memory, object: u64, offset: u64, size: u64, value: int) -> bool {
    match memory.word(object, offset, size) {
        Ok(found) => found == value,
        Err(_) => false,
    }
}

/// The memory holds the value at the address: its tag, and behind it what the
/// value is made of.
pub open spec fn holds(
    layout: ValidatedLayout,
    memory: Memory,
    address: u64,
    value: Json,
    depth: usize,
) -> bool
    decreases value,
{
    &&& address != 0
    &&& aligned(address, layout.raw.json_alignment)
    &&& match value {
        Json::Null => reads(memory, address, layout.raw.tag_offset, layout.raw.tag_size, 0),
        Json::Bool(b) => {
            &&& reads(memory, address, layout.raw.tag_offset, layout.raw.tag_size, 1)
            &&& reads(
                memory,
                address,
                layout.raw.bool_payload_offset,
                1,
                if b {
                    1
                } else {
                    0
                },
            )
        },
        Json::Number(text) => {
            &&& reads(memory, address, layout.raw.tag_offset, layout.raw.tag_size, 2)
            &&& match memory.word(
                address,
                layout.raw.number_payload_offset,
                layout.abi.number_size,
            ) {
                Ok(bits) => magnitude(bits) < INFINITY_BITS && number_text(memory.numbers, bits)
                    == Some(text),
                Err(_) => false,
            }
        },
        Json::Text(text) => {
            &&& reads(memory, address, layout.raw.tag_offset, layout.raw.tag_size, 3)
            &&& match memory.word(
                address,
                layout.raw.text_payload_offset,
                layout.abi.pointer_size,
            ) {
                Ok(pointer) => match memory.text(pointer) {
                    Ok(bytes) => decode_utf8(bytes) == text,
                    Err(_) => false,
                },
                Err(_) => false,
            }
        },
        Json::Array(items) => {
            &&& depth < 128
            &&& reads(memory, address, layout.raw.tag_offset, layout.raw.tag_size, 4)
            &&& match memory.word(
                address,
                layout.raw.array_payload_offset,
                layout.abi.pointer_size,
            ) {
                Ok(object) => if items is Empty {
                    object == 0
                } else {
                    &&& object != 0
                    &&& layout.list_length(memory, object) == Ok::<u64, Stop>(
                        items.spec_len() as u64,
                    )
                    &&& items.spec_len() <= u64::MAX
                    &&& items_hold(layout, memory, object, items, depth)
                },
                Err(_) => false,
            }
        },
        Json::Object(entries) => {
            &&& depth < 128
            &&& reads(memory, address, layout.raw.tag_offset, layout.raw.tag_size, 5)
            &&& match memory.word(
                address,
                layout.raw.object_payload_offset,
                layout.abi.pointer_size,
            ) {
                Ok(object) => if entries is Empty {
                    object == 0
                } else {
                    &&& object != 0
                    &&& layout.map_length(memory, object) == Ok::<u64, Stop>(
                        entries.spec_len() as u64,
                    )
                    &&& entries.spec_len() <= u64::MAX
                    &&& entries_hold(layout, memory, object, entries, depth)
                },
                Err(_) => false,
            }
        },
    }
}

/// The items of a list lie behind each other, each at its index.
pub open spec fn items_hold(
    layout: ValidatedLayout,
    memory: Memory,
    object: u64,
    items: Chain<Json>,
    depth: usize,
) -> bool
    decreases items,
{
    match items {
        Chain::Empty => true,
        Chain::Link(link) => {
            &&& items_hold(layout, memory, object, link.rest, depth)
            &&& match item_place(
                object,
                layout.raw.list_data_offset,
                layout.raw.list_element_stride,
                link.rest.spec_len() as u64,
            ) {
                Some(address) => holds(layout, memory, address, link.item, (depth + 1) as usize),
                None => false,
            }
        },
    }
}

/// The last key of a list of entries.
pub open spec fn last_key(entries: Chain<(Seq<u8>, Json)>) -> Option<Seq<u8>> {
    match entries {
        Chain::Empty => None,
        Chain::Link(link) => Some(link.item.0),
    }
}

/// The entries of a map lie behind each other, each at its index, in the order
/// of their keys.
pub open spec fn entries_hold(
    layout: ValidatedLayout,
    memory: Memory,
    object: u64,
    entries: Chain<(Seq<u8>, Json)>,
    depth: usize,
) -> bool
    decreases entries,
{
    match entries {
        Chain::Empty => true,
        Chain::Link(link) => {
            &&& entries_hold(layout, memory, object, link.rest, depth)
            &&& match last_key(link.rest) {
                Some(before) => bytes_less(before, link.item.0),
                None => true,
            }
            &&& match item_place(
                object,
                layout.raw.map_data_offset,
                layout.raw.map_entry_stride,
                link.rest.spec_len() as u64,
            ) {
                Some(entry) => {
                    &&& layout.key_of(memory, entry) == Ok::<Seq<u8>, Stop>(link.item.0)
                    &&& match place(entry, layout.raw.map_value_offset) {
                        Some(address) => holds(
                            layout,
                            memory,
                            address,
                            link.item.1,
                            (depth + 1) as usize,
                        ),
                        None => false,
                    }
                },
                None => false,
            }
        },
    }
}

/// The value that the memory holds is written as its text, whatever it is.
pub proof fn law_values_are_written(
    layout: ValidatedLayout,
    memory: Memory,
    address: u64,
    value: Json,
    depth: usize,
)
    requires
        holds(layout, memory, address, value, depth),
    ensures
        layout.value_written(memory, address, depth) == says(json_text(value)),
    decreases value,
{
    match value {
        Json::Array(items) => {
            let word = memory.word(
                address,
                layout.raw.array_payload_offset,
                layout.abi.pointer_size,
            );
            let object = word->Ok_0;
            if items is Link {
                lemma_items(layout, memory, object, items, depth);
            }
            assert("["@ + items_text(items) + "]"@ =~= "["@ + (items_text(items) + "]"@));
            assert("["@ + "]"@ =~= "["@ + Seq::<char>::empty() + "]"@);
        },
        Json::Object(entries) => {
            let word = memory.word(
                address,
                layout.raw.object_payload_offset,
                layout.abi.pointer_size,
            );
            let object = word->Ok_0;
            if entries is Link {
                lemma_entries(layout, memory, object, entries, depth);
            }
            assert("{"@ + entries_text(entries) + "}"@ =~= "{"@ + (entries_text(entries) + "}"@));
            assert("{"@ + "}"@ =~= "{"@ + Seq::<char>::empty() + "}"@);
        },
        _ => {},
    }
}

proof fn lemma_items(
    layout: ValidatedLayout,
    memory: Memory,
    object: u64,
    items: Chain<Json>,
    depth: usize,
)
    requires
        depth < 128,
        items.spec_len() <= u64::MAX,
        items_hold(layout, memory, object, items, depth),
    ensures
        layout.elements_written(memory, object, items.spec_len(), depth) == says(
            items_text(items),
        ),
    decreases items,
{
    if items is Link {
        let rest = items.without_last();
        let last = items->0.item;
        let index = rest.spec_len() as u64;
        lemma_items(layout, memory, object, rest, depth);
        match item_place(
            object,
            layout.raw.list_data_offset,
            layout.raw.list_element_stride,
            index,
        ) {
            Some(address) => {
                law_values_are_written(layout, memory, address, last, (depth + 1) as usize);
            },
            None => {},
        }
        lemma_len(rest);
        assert((items.spec_len() - 1) as u64 == index);
        assert((items.spec_len() - 1) as nat == rest.spec_len());
        assert(rest is Empty <==> index == 0);
    }
}

proof fn lemma_entries(
    layout: ValidatedLayout,
    memory: Memory,
    object: u64,
    entries: Chain<(Seq<u8>, Json)>,
    depth: usize,
)
    requires
        depth < 128,
        entries.spec_len() <= u64::MAX,
        entries_hold(layout, memory, object, entries, depth),
    ensures
        layout.entries_written(memory, object, entries.spec_len(), depth) == says(
            entries_text(entries),
        ),
        entries is Link ==> layout.previous_key(
            memory,
            object,
            entries.spec_len() as u64,
        ) == last_key(entries) || entries.spec_len() == 0,
    decreases entries,
{
    if entries is Link {
        let rest = entries.without_last();
        let last = entries->0.item;
        let index = rest.spec_len() as u64;
        lemma_entries(layout, memory, object, rest, depth);
        lemma_len(rest);
        assert((entries.spec_len() - 1) as u64 == index);
        assert((entries.spec_len() - 1) as nat == rest.spec_len());
        assert(rest is Empty <==> index == 0);
        let place_of = item_place(
            object,
            layout.raw.map_data_offset,
            layout.raw.map_entry_stride,
            index,
        );
        match place_of {
            Some(entry) => {
                match place(entry, layout.raw.map_value_offset) {
                    Some(address) => {
                        law_values_are_written(
                            layout,
                            memory,
                            address,
                            last.1,
                            (depth + 1) as usize,
                        );
                    },
                    None => {},
                }
                assert(layout.previous_key(memory, object, index) == last_key(rest));
                let comma = if rest is Empty {
                    Seq::<char>::empty()
                } else {
                    ","@
                };
                let key = quoted(decode_utf8(last.0));
                assert(layout.entry_written(memory, object, entry, index, depth) == says(
                    key + ":"@ + json_text(last.1),
                ));
                assert(ValidatedLayout::separator(index) == says(comma));
                assert(layout.entries_written(memory, object, rest.spec_len(), depth) == says(
                    entries_text(rest),
                ));
                assert(layout.entries_written(memory, object, entries.spec_len(), depth) == says(
                    entries_text(rest) + comma + (key + ":"@ + json_text(last.1)),
                ));
                assert(entries_text(rest) + comma + (key + ":"@ + json_text(last.1))
                    =~= entries_text(rest) + comma + key + ":"@ + json_text(last.1));
            },
            None => {},
        }
    }
}

} // verus!
