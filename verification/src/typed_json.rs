//! The text of JSON values that lie in memory.
//!
//! Memory is not read here. A format is given what is known of it, and names
//! what it needs to know next.

use vstd::prelude::*;
#[allow(unused_imports)]
use vstd::utf8::{decode_utf8, valid_utf8};

use crate::chain::Chain;
use crate::constants::INFINITY_BITS;
#[allow(unused_imports)]
use crate::constants::magnitude;
use crate::json_layout::{max_of, validate_layout, JsonAbi, LoomTypedJsonLayout, ValidatedLayout};
#[allow(unused_imports)]
use crate::json_layout::{aligned, greater};
use crate::json_layout::offset_is_aligned;
use crate::json_stage::{FormatFailure, FormatStatus, JsonStage};
#[allow(unused_imports)]
use crate::json_stage::{byte_len, law_byte_len_concat, quoted, Stage};
use crate::literals::text_chars;

verus! {

/// How deep lists and maps may nest.
pub const JSON_DEPTH_LIMIT: usize = 128;

/// An unsigned number of `size` bytes that lies at an address.
#[derive(Clone, Copy, Debug, PartialEq, Eq, Structural)]
pub struct Word {
    pub address: u64,
    pub size: u64,
    pub value: u64,
}

/// What lies at the address of a text.
pub struct TextFact {
    pub address: u64,
    /// The bytes of the text, if there is one at the address.
    pub bytes: Option<Vec<u8>>,
    /// How many characters the header of the text tells.
    pub scalar_length: Option<u64>,
}

/// How a double is written in decimal, as short as it can be told apart.
pub struct NumberFact {
    pub bits: u64,
    pub text: String,
}

/// What is known of memory and of numbers.
pub struct Memory {
    pub words: Chain<Word>,
    pub texts: Chain<TextFact>,
    pub numbers: Chain<NumberFact>,
}

/// What must be known before a format can go on.
#[derive(Clone, Copy, Debug, PartialEq, Eq, Structural)]
pub enum Need {
    Word { address: u64, size: u64 },
    Text(u64),
    Number(u64),
}

/// Why a format stops.
#[derive(Clone, Copy, Debug, PartialEq, Eq, Structural)]
pub enum Stop {
    Failure(FormatFailure),
    Needs(Need),
}

pub open spec fn word_at(words: Chain<Word>, address: u64, size: u64) -> Option<u64>
    decreases words,
{
    match words {
        Chain::Empty => None,
        Chain::Link(link) => if link.item.address == address && link.item.size == size {
            Some(link.item.value)
        } else {
            word_at(link.rest, address, size)
        },
    }
}

fn find_word(words: &Chain<Word>, address: u64, size: u64) -> (value: Option<u64>)
    ensures
        value == word_at(*words, address, size),
{
    let mut current: &Chain<Word> = words;
    loop
        invariant
            word_at(*current, address, size) == word_at(*words, address, size),
        decreases current,
    {
        match current {
            Chain::Empty => {
                return None;
            },
            Chain::Link(link) => {
                if link.item.address == address && link.item.size == size {
                    return Some(link.item.value);
                }
                current = &link.rest;
            },
        }
    }
}

pub open spec fn text_at(texts: Chain<TextFact>, address: u64) -> Option<TextFact>
    decreases texts,
{
    match texts {
        Chain::Empty => None,
        Chain::Link(link) => if link.item.address == address {
            Some(link.item)
        } else {
            text_at(link.rest, address)
        },
    }
}

fn find_text(texts: &Chain<TextFact>, address: u64) -> (fact: Option<&TextFact>)
    ensures
        match fact {
            Some(found) => text_at(*texts, address) == Some(*found),
            None => text_at(*texts, address) is None,
        },
{
    let mut current: &Chain<TextFact> = texts;
    loop
        invariant
            text_at(*current, address) == text_at(*texts, address),
        decreases current,
    {
        match current {
            Chain::Empty => {
                return None;
            },
            Chain::Link(link) => {
                if link.item.address == address {
                    return Some(&link.item);
                }
                current = &link.rest;
            },
        }
    }
}

pub open spec fn number_text(numbers: Chain<NumberFact>, bits: u64) -> Option<Seq<char>>
    decreases numbers,
{
    match numbers {
        Chain::Empty => None,
        Chain::Link(link) => if link.item.bits == bits {
            Some(link.item.text@)
        } else {
            number_text(link.rest, bits)
        },
    }
}

fn find_number(numbers: &Chain<NumberFact>, bits: u64) -> (text: Option<&String>)
    ensures
        match text {
            Some(found) => number_text(*numbers, bits) == Some(found@),
            None => number_text(*numbers, bits) is None,
        },
{
    let mut current: &Chain<NumberFact> = numbers;
    loop
        invariant
            number_text(*current, bits) == number_text(*numbers, bits),
        decreases current,
    {
        match current {
            Chain::Empty => {
                return None;
            },
            Chain::Link(link) => {
                if link.item.bits == bits {
                    return Some(&link.item.text);
                }
                current = &link.rest;
            },
        }
    }
}

/// What is written before a format stops or ends.
pub struct Trace {
    pub text: Seq<char>,
    pub stop: Option<Stop>,
}

pub open spec fn says(text: Seq<char>) -> Trace {
    Trace { text, stop: None }
}

pub open spec fn stops(stop: Stop) -> Trace {
    Trace { text: Seq::empty(), stop: Some(stop) }
}

pub open spec fn fails(failure: FormatFailure) -> Trace {
    stops(Stop::Failure(failure))
}

impl Trace {
    /// The second part follows, unless the first stops.
    pub open spec fn followed_by(self, second: Trace) -> Trace {
        if self.stop is Some {
            self
        } else {
            Trace { text: self.text + second.text, stop: second.stop }
        }
    }
}

impl Stage {
    /// The trace was written: what it says, as far as there was room, and
    /// then its end. What has no room is a failure of resources, which comes
    /// before what the trace would have stopped for later.
    pub open spec fn follows(self, trace: Trace, after: Stage, result: Result<(), Stop>) -> bool {
        &&& after.maximum_bytes == self.maximum_bytes
        &&& if self.has_room(trace.text) {
            &&& after.output == self.output + trace.text
            &&& result == match trace.stop {
                Some(stop) => Err(stop),
                None => Ok(()),
            }
        } else {
            result == Err::<(), _>(Stop::Failure(FormatFailure::ResourceLimit))
        }
    }
}

proof fn lemma_follows_both(
    before: Stage,
    first: Trace,
    between: Stage,
    second: Trace,
    after: Stage,
    result: Result<(), Stop>,
)
    requires
        before.follows(first, between, Ok(())),
        between.follows(second, after, result),
    ensures
        before.follows(first.followed_by(second), after, result),
{
    law_byte_len_concat(before.output, first.text);
    law_byte_len_concat(first.text, second.text);
    assert(before.output + (first.text + second.text) =~= before.output + first.text
        + second.text);
}

proof fn lemma_follows_first(
    before: Stage,
    first: Trace,
    second: Trace,
    after: Stage,
    result: Result<(), Stop>,
)
    requires
        before.follows(first, after, result),
        result is Err,
    ensures
        before.follows(first.followed_by(second), after, result),
{
    law_byte_len_concat(first.text, second.text);
}

proof fn lemma_follows_stop(before: Stage, stop: Stop, result: Result<(), Stop>)
    requires
        byte_len(before.output) <= before.maximum_bytes,
        result == Err::<(), _>(stop),
    ensures
        before.follows(stops(stop), before, result),
{
    assert(before.output + Seq::<char>::empty() =~= before.output);
    law_byte_len_concat(before.output, Seq::empty());
}

impl JsonStage {
    /// What was written is within the limit.
    pub open spec fn wf(self) -> bool {
        byte_len(self.output@) <= self.maximum_bytes
    }

    fn say(&mut self, value: &str) -> (result: Result<(), Stop>)
        requires
            old(self).wf(),
        ensures
            old(self)@.follows(says(value@), final(self)@, result),
            result is Ok ==> final(self).wf(),
    {
        proof {
            law_byte_len_concat(self.output@, value@);
        }
        match self.push_str(value) {
            Ok(()) => Ok(()),
            Err(failure) => Err(Stop::Failure(failure)),
        }
    }

    fn say_quoted(&mut self, value: &str) -> (result: Result<(), Stop>)
        requires
            old(self).wf(),
        ensures
            old(self)@.follows(says(quoted(value@)), final(self)@, result),
            result is Ok ==> final(self).wf(),
    {
        proof {
            law_byte_len_concat(self.output@, quoted(value@));
        }
        match self.push_escaped_text(value) {
            Ok(()) => Ok(()),
            Err(failure) => Err(Stop::Failure(failure)),
        }
    }

    fn fail(&mut self, stop: Stop) -> (result: Result<(), Stop>)
        requires
            old(self).wf(),
        ensures
            old(self)@.follows(stops(stop), final(self)@, result),
            result is Err,
    {
        proof {
            lemma_follows_stop(self@, stop, Err(stop));
        }
        Err(stop)
    }
}

/// The text of bytes, as `String::from_utf8` gives it: the characters that
/// they encode, if they are valid UTF-8.
#[verifier::external_body]
fn decode_text(bytes: &Vec<u8>) -> (text: Option<String>)
    ensures
        match text {
            Some(found) => valid_utf8(bytes@) && found@ == decode_utf8(bytes@),
            None => !valid_utf8(bytes@),
        },
{
    String::from_utf8(bytes.clone()).ok()
}

/// From a position on, the first bytes come before the second.
pub open spec fn bytes_less_from(left: Seq<u8>, right: Seq<u8>, position: int) -> bool
    decreases left.len() - position,
{
    if position < 0 || position >= right.len() {
        false
    } else if position >= left.len() {
        true
    } else if left[position] != right[position] {
        left[position] < right[position]
    } else {
        bytes_less_from(left, right, position + 1)
    }
}

/// The first bytes come before the second.
pub open spec fn bytes_less(left: Seq<u8>, right: Seq<u8>) -> bool {
    bytes_less_from(left, right, 0)
}

fn check_bytes_less(left: &Vec<u8>, right: &Vec<u8>) -> (less: bool)
    ensures
        less == bytes_less(left@, right@),
{
    let mut i: usize = 0;
    while i < left.len() && i < right.len() && left[i] == right[i]
        invariant
            i <= left@.len(),
            i <= right@.len(),
            bytes_less(left@, right@) == bytes_less_from(left@, right@, i as int),
        decreases left@.len() - i,
    {
        i = i + 1;
    }
    if i >= right.len() {
        false
    } else if i >= left.len() {
        true
    } else {
        left[i] < right[i]
    }
}

/// The address `offset` bytes behind another.
pub open spec fn place(address: u64, offset: u64) -> Option<u64> {
    if address + offset <= u64::MAX {
        Some((address + offset) as u64)
    } else {
        None
    }
}

/// The address of an item of a list or of an entry of a map.
pub open spec fn item_place(object: u64, data_offset: u64, stride: u64, index: u64) -> Option<u64> {
    if index * stride + data_offset <= u64::MAX && index * stride + data_offset <= usize::MAX {
        place(object, (index * stride + data_offset) as u64)
    } else {
        None
    }
}

fn find_item_place(object: u64, data_offset: u64, stride: u64, index: u64) -> (address: Option<
    u64,
>)
    ensures
        address == item_place(object, data_offset, stride, index),
{
    match index.checked_mul(stride) {
        Some(product) => match product.checked_add(data_offset) {
            Some(offset) => if offset <= usize::MAX as u64 {
                object.checked_add(offset)
            } else {
                None
            },
            None => None,
        },
        None => None,
    }
}

impl Memory {
    /// A word at an offset of an object.
    pub open spec fn word(self, object: u64, offset: u64, size: u64) -> Result<u64, Stop> {
        match place(object, offset) {
            Some(address) => match word_at(self.words, address, size) {
                Some(value) => Ok(value),
                None => Err(Stop::Needs(Need::Word { address, size })),
            },
            None => Err(Stop::Failure(FormatFailure::ResourceLimit)),
        }
    }

    fn read_word(&self, object: u64, offset: u64, size: u64) -> (value: Result<u64, Stop>)
        ensures
            value == self.word(object, offset, size),
    {
        match object.checked_add(offset) {
            Some(address) => match find_word(&self.words, address, size) {
                Some(value) => Ok(value),
                None => Err(Stop::Needs(Need::Word { address, size })),
            },
            None => Err(Stop::Failure(FormatFailure::ResourceLimit)),
        }
    }

    /// The bytes of the text at an address, which must be valid and as long
    /// as its header tells.
    pub open spec fn text(self, address: u64) -> Result<Seq<u8>, Stop> {
        match text_at(self.texts, address) {
            Some(fact) => match (fact.bytes, fact.scalar_length) {
                (Some(bytes), Some(length)) => if valid_utf8(bytes@) && decode_utf8(bytes@).len()
                    == length {
                    Ok(bytes@)
                } else {
                    Err(Stop::Failure(FormatFailure::InvalidValue))
                },
                _ => Err(Stop::Failure(FormatFailure::InvalidValue)),
            },
            None => Err(Stop::Needs(Need::Text(address))),
        }
    }

    fn read_text(&self, address: u64) -> (text: Result<(&Vec<u8>, String), Stop>)
        ensures
            match text {
                Ok((bytes, chars)) => self.text(address) == Ok::<Seq<u8>, Stop>(bytes@) && chars@
                    == decode_utf8(bytes@),
                Err(stop) => self.text(address) == Err::<Seq<u8>, Stop>(stop),
            },
    {
        match find_text(&self.texts, address) {
            Some(fact) => match (&fact.bytes, fact.scalar_length) {
                (Some(bytes), Some(length)) => match decode_text(bytes) {
                    Some(text) => if text_chars(text.as_str()).len() as u64 == length {
                        Ok((bytes, text))
                    } else {
                        Err(Stop::Failure(FormatFailure::InvalidValue))
                    },
                    None => Err(Stop::Failure(FormatFailure::InvalidValue)),
                },
                _ => Err(Stop::Failure(FormatFailure::InvalidValue)),
            },
            None => Err(Stop::Needs(Need::Text(address))),
        }
    }
}

/// The object has room for its items.
pub open spec fn fits_object(abi: JsonAbi, fixed_size: u64, count: u64, stride: u64) -> bool {
    let bytes = count * stride + fixed_size;
    count * stride <= u64::MAX && bytes <= abi.max_object_bytes && bytes <= usize::MAX
}

fn object_bytes(abi: &JsonAbi, fixed_size: u64, count: u64, stride: u64) -> (fits: bool)
    ensures
        fits == fits_object(*abi, fixed_size, count, stride),
{
    match count.checked_mul(stride) {
        Some(product) => match product.checked_add(fixed_size) {
            Some(bytes) => bytes <= abi.max_object_bytes && bytes <= usize::MAX as u64,
            None => false,
        },
        None => false,
    }
}

impl ValidatedLayout {
    /// A comma before every item but the first.
    pub open spec fn separator(index: u64) -> Trace {
        if index != 0 {
            says(","@)
        } else {
            says(Seq::empty())
        }
    }

    /// The object of a list or map is aligned.
    pub open spec fn object_aligned(self, object: u64) -> bool {
        aligned(object, greater(self.raw.json_alignment, self.abi.header_alignment))
    }

    /// The text of a number.
    pub open spec fn number_written(self, memory: Memory, json: u64) -> Trace {
        match memory.word(json, self.raw.number_payload_offset, self.abi.number_size) {
            Ok(bits) => if magnitude(bits) >= INFINITY_BITS {
                fails(FormatFailure::NonFiniteNumber)
            } else {
                match number_text(memory.numbers, bits) {
                    Some(text) => says(text),
                    None => stops(Stop::Needs(Need::Number(bits))),
                }
            },
            Err(stop) => stops(stop),
        }
    }

    pub open spec fn bool_written(self, memory: Memory, json: u64) -> Trace {
        match memory.word(json, self.raw.bool_payload_offset, 1) {
            Ok(value) => if value == 0 {
                says("false"@)
            } else if value == 1 {
                says("true"@)
            } else {
                fails(FormatFailure::InvalidValue)
            },
            Err(stop) => stops(stop),
        }
    }

    pub open spec fn text_written(self, memory: Memory, json: u64) -> Trace {
        match memory.word(json, self.raw.text_payload_offset, self.abi.pointer_size) {
            Ok(pointer) => match memory.text(pointer) {
                Ok(bytes) => says(quoted(decode_utf8(bytes))),
                Err(stop) => stops(stop),
            },
            Err(stop) => stops(stop),
        }
    }

    /// How the value at an address is written.
    pub open spec fn value_written(self, memory: Memory, json: u64, depth: usize) -> Trace
        decreases JSON_DEPTH_LIMIT - depth, 3nat, 0nat,
    {
        if json == 0 || !aligned(json, self.raw.json_alignment) {
            fails(FormatFailure::InvalidValue)
        } else {
            match memory.word(json, self.raw.tag_offset, self.raw.tag_size) {
                Ok(tag) => if tag == 0 {
                    says("null"@)
                } else if tag == 1 {
                    self.bool_written(memory, json)
                } else if tag == 2 {
                    self.number_written(memory, json)
                } else if tag == 3 {
                    self.text_written(memory, json)
                } else if tag == 4 {
                    if depth >= JSON_DEPTH_LIMIT {
                        fails(FormatFailure::DepthLimit)
                    } else {
                        match memory.word(
                            json,
                            self.raw.array_payload_offset,
                            self.abi.pointer_size,
                        ) {
                            Ok(object) => self.array_written(memory, object, depth),
                            Err(stop) => stops(stop),
                        }
                    }
                } else if tag == 5 {
                    if depth >= JSON_DEPTH_LIMIT {
                        fails(FormatFailure::DepthLimit)
                    } else {
                        match memory.word(
                            json,
                            self.raw.object_payload_offset,
                            self.abi.pointer_size,
                        ) {
                            Ok(object) => self.object_written(memory, object, depth),
                            Err(stop) => stops(stop),
                        }
                    }
                } else {
                    fails(FormatFailure::InvalidValue)
                },
                Err(stop) => stops(stop),
            }
        }
    }

    /// The length of the list at an address, which must be sound.
    pub open spec fn list_length(self, memory: Memory, object: u64) -> Result<u64, Stop> {
        if !self.object_aligned(object) {
            Err(Stop::Failure(FormatFailure::InvalidValue))
        } else {
            match memory.word(object, self.raw.list_length_offset, self.abi.header_size) {
                Ok(length) => match memory.word(
                    object,
                    self.raw.list_capacity_offset,
                    self.abi.header_size,
                ) {
                    Ok(capacity) => if length == 0 || capacity == 0 || length > capacity {
                        Err(Stop::Failure(FormatFailure::InvalidValue))
                    } else if !fits_object(
                        self.abi,
                        self.raw.list_data_offset,
                        capacity,
                        self.raw.list_element_stride,
                    ) {
                        Err(Stop::Failure(FormatFailure::ResourceLimit))
                    } else {
                        Ok(length)
                    },
                    Err(stop) => Err(stop),
                },
                Err(stop) => Err(stop),
            }
        }
    }

    /// How the list at an address is written.
    pub open spec fn array_written(self, memory: Memory, object: u64, depth: usize) -> Trace
        decreases JSON_DEPTH_LIMIT - depth, 2nat, 0nat,
    {
        says("["@).followed_by(
            if object == 0 {
                says("]"@)
            } else {
                match self.list_length(memory, object) {
                    Ok(length) => self.elements_written(
                        memory,
                        object,
                        length as nat,
                        depth,
                    ).followed_by(says("]"@)),
                    Err(stop) => stops(stop),
                }
            },
        )
    }

    /// How the first `count` elements of a list are written.
    pub open spec fn elements_written(
        self,
        memory: Memory,
        object: u64,
        count: nat,
        depth: usize,
    ) -> Trace
        decreases JSON_DEPTH_LIMIT - depth, 1nat, count,
    {
        if count == 0 || depth >= JSON_DEPTH_LIMIT {
            says(Seq::empty())
        } else {
            let index = (count - 1) as u64;
            self.elements_written(memory, object, (count - 1) as nat, depth).followed_by(
                Self::separator(index),
            ).followed_by(
                match item_place(
                    object,
                    self.raw.list_data_offset,
                    self.raw.list_element_stride,
                    index,
                ) {
                    Some(address) => self.value_written(memory, address, (depth + 1) as usize),
                    None => fails(FormatFailure::ResourceLimit),
                },
            )
        }
    }

    /// The length of the map at an address, which must be sound.
    pub open spec fn map_length(self, memory: Memory, object: u64) -> Result<u64, Stop> {
        if !self.object_aligned(object) {
            Err(Stop::Failure(FormatFailure::InvalidValue))
        } else {
            match memory.word(object, self.raw.map_length_offset, self.abi.header_size) {
                Ok(length) => if length == 0 {
                    Err(Stop::Failure(FormatFailure::InvalidValue))
                } else if !fits_object(
                    self.abi,
                    self.raw.map_data_offset,
                    length,
                    self.raw.map_entry_stride,
                ) {
                    Err(Stop::Failure(FormatFailure::ResourceLimit))
                } else {
                    Ok(length)
                },
                Err(stop) => Err(stop),
            }
        }
    }

    /// How the map at an address is written.
    pub open spec fn object_written(self, memory: Memory, object: u64, depth: usize) -> Trace
        decreases JSON_DEPTH_LIMIT - depth, 2nat, 0nat,
    {
        says("{"@).followed_by(
            if object == 0 {
                says("}"@)
            } else {
                match self.map_length(memory, object) {
                    Ok(length) => self.entries_written(
                        memory,
                        object,
                        length as nat,
                        depth,
                    ).followed_by(says("}"@)),
                    Err(stop) => stops(stop),
                }
            },
        )
    }

    /// The key of an entry.
    pub open spec fn key_of(self, memory: Memory, entry: u64) -> Result<Seq<u8>, Stop> {
        match memory.word(entry, self.raw.map_key_offset, self.abi.pointer_size) {
            Ok(pointer) => memory.text(pointer),
            Err(stop) => Err(stop),
        }
    }

    /// The key of the entry before an index.
    pub open spec fn previous_key(
        self,
        memory: Memory,
        object: u64,
        index: u64,
    ) -> Option<Seq<u8>> {
        if index == 0 {
            None
        } else {
            match item_place(
                object,
                self.raw.map_data_offset,
                self.raw.map_entry_stride,
                (index - 1) as u64,
            ) {
                Some(entry) => match self.key_of(memory, entry) {
                    Ok(key) => Some(key),
                    Err(_) => None,
                },
                None => None,
            }
        }
    }

    /// A key must come behind the one before it.
    pub open spec fn key_ordered(previous: Option<Seq<u8>>, key: Seq<u8>) -> bool {
        match previous {
            Some(before) => bytes_less(before, key),
            None => true,
        }
    }

    /// How an entry of a map is written.
    pub open spec fn entry_written(
        self,
        memory: Memory,
        object: u64,
        entry: u64,
        index: u64,
        depth: usize,
    ) -> Trace
        decreases JSON_DEPTH_LIMIT - depth, 0nat, 0nat,
    {
        match self.key_of(memory, entry) {
            Ok(key) => if !Self::key_ordered(self.previous_key(memory, object, index), key) {
                fails(FormatFailure::InvalidValue)
            } else {
                says(quoted(decode_utf8(key))).followed_by(says(":"@)).followed_by(
                    match place(entry, self.raw.map_value_offset) {
                        Some(address) => if depth >= JSON_DEPTH_LIMIT {
                            says(Seq::empty())
                        } else {
                            self.value_written(memory, address, (depth + 1) as usize)
                        },
                        None => fails(FormatFailure::ResourceLimit),
                    },
                )
            },
            Err(stop) => stops(stop),
        }
    }

    /// How the first `count` entries of a map are written.
    pub open spec fn entries_written(
        self,
        memory: Memory,
        object: u64,
        count: nat,
        depth: usize,
    ) -> Trace
        decreases JSON_DEPTH_LIMIT - depth, 1nat, count,
    {
        if count == 0 {
            says(Seq::empty())
        } else {
            let index = (count - 1) as u64;
            self.entries_written(memory, object, (count - 1) as nat, depth).followed_by(
                Self::separator(index),
            ).followed_by(
                match item_place(
                    object,
                    self.raw.map_data_offset,
                    self.raw.map_entry_stride,
                    index,
                ) {
                    Some(entry) => self.entry_written(memory, object, entry, index, depth),
                    None => fails(FormatFailure::ResourceLimit),
                },
            )
        }
    }

    fn format_number(&self, memory: &Memory, json: u64, stage: &mut JsonStage) -> (result: Result<
        (),
        Stop,
    >)
        requires
            old(stage).wf(),
        ensures
            old(stage)@.follows(self.number_written(*memory, json), final(stage)@, result),
            result is Ok ==> final(stage).wf(),
    {
        match memory.read_word(json, self.raw.number_payload_offset, self.abi.number_size) {
            Ok(bits) => if is_not_finite(bits) {
                stage.fail(Stop::Failure(FormatFailure::NonFiniteNumber))
            } else {
                match find_number(&memory.numbers, bits) {
                    Some(text) => stage.say(text.as_str()),
                    None => stage.fail(Stop::Needs(Need::Number(bits))),
                }
            },
            Err(stop) => stage.fail(stop),
        }
    }

    fn format_bool(&self, memory: &Memory, json: u64, stage: &mut JsonStage) -> (result: Result<
        (),
        Stop,
    >)
        requires
            old(stage).wf(),
        ensures
            old(stage)@.follows(self.bool_written(*memory, json), final(stage)@, result),
            result is Ok ==> final(stage).wf(),
    {
        match memory.read_word(json, self.raw.bool_payload_offset, 1) {
            Ok(value) => if value == 0 {
                stage.say("false")
            } else if value == 1 {
                stage.say("true")
            } else {
                stage.fail(Stop::Failure(FormatFailure::InvalidValue))
            },
            Err(stop) => stage.fail(stop),
        }
    }

    fn format_text(&self, memory: &Memory, json: u64, stage: &mut JsonStage) -> (result: Result<
        (),
        Stop,
    >)
        requires
            old(stage).wf(),
        ensures
            old(stage)@.follows(self.text_written(*memory, json), final(stage)@, result),
            result is Ok ==> final(stage).wf(),
    {
        match memory.read_word(json, self.raw.text_payload_offset, self.abi.pointer_size) {
            Ok(pointer) => match memory.read_text(pointer) {
                Ok((_, text)) => stage.say_quoted(text.as_str()),
                Err(stop) => stage.fail(stop),
            },
            Err(stop) => stage.fail(stop),
        }
    }

    /// Writes the value at an address.
    pub fn format_value(
        &self,
        memory: &Memory,
        json: u64,
        depth: usize,
        stage: &mut JsonStage,
    ) -> (result: Result<(), Stop>)
        requires
            old(stage).wf(),
        ensures
            old(stage)@.follows(self.value_written(*memory, json, depth), final(stage)@, result),
            result is Ok ==> final(stage).wf(),
        decreases JSON_DEPTH_LIMIT - depth, 3nat, 0nat,
    {
        if json == 0 || !offset_is_aligned(json, self.raw.json_alignment) {
            return stage.fail(Stop::Failure(FormatFailure::InvalidValue));
        }
        match memory.read_word(json, self.raw.tag_offset, self.raw.tag_size) {
            Ok(tag) => if tag == 0 {
                stage.say("null")
            } else if tag == 1 {
                self.format_bool(memory, json, stage)
            } else if tag == 2 {
                self.format_number(memory, json, stage)
            } else if tag == 3 {
                self.format_text(memory, json, stage)
            } else if tag == 4 {
                if depth >= JSON_DEPTH_LIMIT {
                    stage.fail(Stop::Failure(FormatFailure::DepthLimit))
                } else {
                    match memory.read_word(
                        json,
                        self.raw.array_payload_offset,
                        self.abi.pointer_size,
                    ) {
                        Ok(object) => self.format_array(memory, object, depth, stage),
                        Err(stop) => stage.fail(stop),
                    }
                }
            } else if tag == 5 {
                if depth >= JSON_DEPTH_LIMIT {
                    stage.fail(Stop::Failure(FormatFailure::DepthLimit))
                } else {
                    match memory.read_word(
                        json,
                        self.raw.object_payload_offset,
                        self.abi.pointer_size,
                    ) {
                        Ok(object) => self.format_object(memory, object, depth, stage),
                        Err(stop) => stage.fail(stop),
                    }
                }
            } else {
                stage.fail(Stop::Failure(FormatFailure::InvalidValue))
            },
            Err(stop) => stage.fail(stop),
        }
    }

    fn check_object_aligned(&self, object: u64) -> (result: bool)
        ensures
            result == self.object_aligned(object),
    {
        offset_is_aligned(object, max_of(self.raw.json_alignment, self.abi.header_alignment))
    }

    fn read_list_length(&self, memory: &Memory, object: u64) -> (length: Result<u64, Stop>)
        ensures
            length == self.list_length(*memory, object),
    {
        if !self.check_object_aligned(object) {
            return Err(Stop::Failure(FormatFailure::InvalidValue));
        }
        match memory.read_word(object, self.raw.list_length_offset, self.abi.header_size) {
            Ok(length) => match memory.read_word(
                object,
                self.raw.list_capacity_offset,
                self.abi.header_size,
            ) {
                Ok(capacity) => if length == 0 || capacity == 0 || length > capacity {
                    Err(Stop::Failure(FormatFailure::InvalidValue))
                } else if !object_bytes(
                    &self.abi,
                    self.raw.list_data_offset,
                    capacity,
                    self.raw.list_element_stride,
                ) {
                    Err(Stop::Failure(FormatFailure::ResourceLimit))
                } else {
                    Ok(length)
                },
                Err(stop) => Err(stop),
            },
            Err(stop) => Err(stop),
        }
    }

    fn separate(&self, index: u64, stage: &mut JsonStage) -> (result: Result<(), Stop>)
        requires
            old(stage).wf(),
        ensures
            old(stage)@.follows(Self::separator(index), final(stage)@, result),
            result is Ok ==> final(stage).wf(),
    {
        if index != 0 {
            stage.say(",")
        } else {
            proof {
                lemma_silent(stage@);
            }
            Ok(())
        }
    }

    fn format_array(
        &self,
        memory: &Memory,
        object: u64,
        depth: usize,
        stage: &mut JsonStage,
    ) -> (result: Result<(), Stop>)
        requires
            old(stage).wf(),
            depth < JSON_DEPTH_LIMIT,
        ensures
            old(stage)@.follows(self.array_written(*memory, object, depth), final(stage)@, result),
            result is Ok ==> final(stage).wf(),
        decreases JSON_DEPTH_LIMIT - depth, 2nat, 0nat,
    {
        let ghost begun = stage@;
        let ghost inner = if object == 0 {
            says("]"@)
        } else {
            match self.list_length(*memory, object) {
                Ok(length) => self.elements_written(
                    *memory,
                    object,
                    length as nat,
                    depth,
                ).followed_by(says("]"@)),
                Err(stop) => stops(stop),
            }
        };
        match stage.say("[") {
            Ok(()) => {},
            Err(stop) => {
                proof {
                    lemma_follows_first(begun, says("["@), inner, stage@, Err(stop));
                }
                return Err(stop);
            },
        }
        let ghost opened = stage@;
        let result = if object == 0 {
            stage.say("]")
        } else {
            match self.read_list_length(memory, object) {
                Ok(length) => {
                    let ghost elements = self.elements_written(
                        *memory,
                        object,
                        length as nat,
                        depth,
                    );
                    match self.format_elements(memory, object, length, depth, stage) {
                        Ok(()) => {
                            let ghost filled = stage@;
                            let closed = stage.say("]");
                            proof {
                                lemma_follows_both(
                                    opened,
                                    elements,
                                    filled,
                                    says("]"@),
                                    stage@,
                                    closed,
                                );
                            }
                            closed
                        },
                        Err(stop) => {
                            proof {
                                lemma_follows_first(
                                    opened,
                                    elements,
                                    says("]"@),
                                    stage@,
                                    Err(stop),
                                );
                            }
                            Err(stop)
                        },
                    }
                },
                Err(stop) => stage.fail(stop),
            }
        };
        proof {
            lemma_follows_both(begun, says("["@), opened, inner, stage@, result);
        }
        result
    }

    proof fn lemma_elements_stop(
        self,
        memory: Memory,
        object: u64,
        count: nat,
        length: nat,
        depth: usize,
        before: Stage,
        after: Stage,
        result: Result<(), Stop>,
    )
        requires
            count <= length,
            depth < JSON_DEPTH_LIMIT,
            before.follows(self.elements_written(memory, object, count, depth), after, result),
            result is Err,
        ensures
            before.follows(self.elements_written(memory, object, length, depth), after, result),
        decreases length - count,
    {
        if count < length {
            let index = count as u64;
            let front = self.elements_written(memory, object, count, depth);
            let comma = Self::separator(index);
            let item = match item_place(
                object,
                self.raw.list_data_offset,
                self.raw.list_element_stride,
                index,
            ) {
                Some(address) => self.value_written(memory, address, (depth + 1) as usize),
                None => fails(FormatFailure::ResourceLimit),
            };
            lemma_follows_first(before, front, comma, after, result);
            lemma_follows_first(before, front.followed_by(comma), item, after, result);
            self.lemma_elements_stop(
                memory,
                object,
                count + 1,
                length,
                depth,
                before,
                after,
                result,
            );
        }
    }

    fn format_elements(
        &self,
        memory: &Memory,
        object: u64,
        length: u64,
        depth: usize,
        stage: &mut JsonStage,
    ) -> (result: Result<(), Stop>)
        requires
            old(stage).wf(),
            depth < JSON_DEPTH_LIMIT,
        ensures
            old(stage)@.follows(
                self.elements_written(*memory, object, length as nat, depth),
                final(stage)@,
                result,
            ),
            result is Ok ==> final(stage).wf(),
        decreases JSON_DEPTH_LIMIT - depth, 1nat, 0nat,
    {
        let ghost begun = stage@;
        proof {
            lemma_silent(begun);
        }
        let mut index: u64 = 0;
        while index < length
            invariant
                index <= length,
                depth < JSON_DEPTH_LIMIT,
                stage.wf(),
                begun == old(stage)@,
                begun.follows(
                    self.elements_written(*memory, object, index as nat, depth),
                    stage@,
                    Ok(()),
                ),
            decreases length - index,
        {
            let ghost front = self.elements_written(*memory, object, index as nat, depth);
            let ghost comma = Self::separator(index);
            let ghost item = match item_place(
                object,
                self.raw.list_data_offset,
                self.raw.list_element_stride,
                index,
            ) {
                Some(address) => self.value_written(*memory, address, (depth + 1) as usize),
                None => fails(FormatFailure::ResourceLimit),
            };
            let ghost whole = self.elements_written(*memory, object, index as nat + 1, depth);
            assert(whole == front.followed_by(comma).followed_by(item));
            let ghost filled = stage@;
            match self.separate(index, stage) {
                Ok(()) => {
                    proof {
                        lemma_follows_both(begun, front, filled, comma, stage@, Ok(()));
                    }
                },
                Err(stop) => {
                    proof {
                        lemma_follows_both(begun, front, filled, comma, stage@, Err(stop));
                        lemma_follows_first(
                            begun,
                            front.followed_by(comma),
                            item,
                            stage@,
                            Err(stop),
                        );
                        self.lemma_elements_stop(
                            *memory,
                            object,
                            index as nat + 1,
                            length as nat,
                            depth,
                            begun,
                            stage@,
                            Err(stop),
                        );
                    }
                    return Err(stop);
                },
            }
            let ghost separated = stage@;
            let result = match find_item_place(
                object,
                self.raw.list_data_offset,
                self.raw.list_element_stride,
                index,
            ) {
                Some(address) => self.format_value(memory, address, depth + 1, stage),
                None => stage.fail(Stop::Failure(FormatFailure::ResourceLimit)),
            };
            proof {
                lemma_follows_both(
                    begun,
                    front.followed_by(comma),
                    separated,
                    item,
                    stage@,
                    result,
                );
            }
            match result {
                Ok(()) => {},
                Err(stop) => {
                    proof {
                        self.lemma_elements_stop(
                            *memory,
                            object,
                            index as nat + 1,
                            length as nat,
                            depth,
                            begun,
                            stage@,
                            Err(stop),
                        );
                    }
                    return Err(stop);
                },
            }
            index = index + 1;
        }
        Ok(())
    }

    fn read_map_length(&self, memory: &Memory, object: u64) -> (length: Result<u64, Stop>)
        ensures
            length == self.map_length(*memory, object),
    {
        if !self.check_object_aligned(object) {
            return Err(Stop::Failure(FormatFailure::InvalidValue));
        }
        match memory.read_word(object, self.raw.map_length_offset, self.abi.header_size) {
            Ok(length) => if length == 0 {
                Err(Stop::Failure(FormatFailure::InvalidValue))
            } else if !object_bytes(
                &self.abi,
                self.raw.map_data_offset,
                length,
                self.raw.map_entry_stride,
            ) {
                Err(Stop::Failure(FormatFailure::ResourceLimit))
            } else {
                Ok(length)
            },
            Err(stop) => Err(stop),
        }
    }

    fn format_object(
        &self,
        memory: &Memory,
        object: u64,
        depth: usize,
        stage: &mut JsonStage,
    ) -> (result: Result<(), Stop>)
        requires
            old(stage).wf(),
            depth < JSON_DEPTH_LIMIT,
        ensures
            old(stage)@.follows(self.object_written(*memory, object, depth), final(stage)@, result),
            result is Ok ==> final(stage).wf(),
        decreases JSON_DEPTH_LIMIT - depth, 2nat, 0nat,
    {
        let ghost begun = stage@;
        let ghost inner = if object == 0 {
            says("}"@)
        } else {
            match self.map_length(*memory, object) {
                Ok(length) => self.entries_written(
                    *memory,
                    object,
                    length as nat,
                    depth,
                ).followed_by(says("}"@)),
                Err(stop) => stops(stop),
            }
        };
        match stage.say("{") {
            Ok(()) => {},
            Err(stop) => {
                proof {
                    lemma_follows_first(begun, says("{"@), inner, stage@, Err(stop));
                }
                return Err(stop);
            },
        }
        let ghost opened = stage@;
        let result = if object == 0 {
            stage.say("}")
        } else {
            match self.read_map_length(memory, object) {
                Ok(length) => {
                    let ghost entries = self.entries_written(
                        *memory,
                        object,
                        length as nat,
                        depth,
                    );
                    match self.format_entries(memory, object, length, depth, stage) {
                        Ok(()) => {
                            let ghost filled = stage@;
                            let closed = stage.say("}");
                            proof {
                                lemma_follows_both(
                                    opened,
                                    entries,
                                    filled,
                                    says("}"@),
                                    stage@,
                                    closed,
                                );
                            }
                            closed
                        },
                        Err(stop) => {
                            proof {
                                lemma_follows_first(
                                    opened,
                                    entries,
                                    says("}"@),
                                    stage@,
                                    Err(stop),
                                );
                            }
                            Err(stop)
                        },
                    }
                },
                Err(stop) => stage.fail(stop),
            }
        };
        proof {
            lemma_follows_both(begun, says("{"@), opened, inner, stage@, result);
        }
        result
    }

    fn read_key<'a>(&self, memory: &'a Memory, entry: u64) -> (key: Result<
        (&'a Vec<u8>, String),
        Stop,
    >)
        ensures
            match key {
                Ok((bytes, chars)) => self.key_of(*memory, entry) == Ok::<Seq<u8>, Stop>(bytes@)
                    && chars@ == decode_utf8(bytes@),
                Err(stop) => self.key_of(*memory, entry) == Err::<Seq<u8>, Stop>(stop),
            },
    {
        match memory.read_word(entry, self.raw.map_key_offset, self.abi.pointer_size) {
            Ok(pointer) => memory.read_text(pointer),
            Err(stop) => Err(stop),
        }
    }

    fn check_key_order(&self, memory: &Memory, object: u64, index: u64, key: &Vec<u8>) -> (ordered:
        bool)
        ensures
            ordered == Self::key_ordered(self.previous_key(*memory, object, index), key@),
    {
        if index == 0 {
            return true;
        }
        match find_item_place(
            object,
            self.raw.map_data_offset,
            self.raw.map_entry_stride,
            index - 1,
        ) {
            Some(entry) => match self.read_key(memory, entry) {
                Ok((before, _)) => check_bytes_less(before, key),
                Err(_) => true,
            },
            None => true,
        }
    }

    fn format_entry(
        &self,
        memory: &Memory,
        object: u64,
        entry: u64,
        index: u64,
        depth: usize,
        stage: &mut JsonStage,
    ) -> (result: Result<(), Stop>)
        requires
            old(stage).wf(),
            depth < JSON_DEPTH_LIMIT,
        ensures
            old(stage)@.follows(
                self.entry_written(*memory, object, entry, index, depth),
                final(stage)@,
                result,
            ),
            result is Ok ==> final(stage).wf(),
        decreases JSON_DEPTH_LIMIT - depth, 0nat, 0nat,
    {
        let ghost begun = stage@;
        match self.read_key(memory, entry) {
            Ok((bytes, text)) => {
                if !self.check_key_order(memory, object, index, bytes) {
                    return stage.fail(Stop::Failure(FormatFailure::InvalidValue));
                }
                let ghost key = says(quoted(decode_utf8(bytes@)));
                let ghost colon = says(":"@);
                let ghost value = match place(entry, self.raw.map_value_offset) {
                    Some(address) => self.value_written(*memory, address, (depth + 1) as usize),
                    None => fails(FormatFailure::ResourceLimit),
                };
                match stage.say_quoted(text.as_str()) {
                    Ok(()) => {},
                    Err(stop) => {
                        proof {
                            lemma_follows_first(begun, key, colon, stage@, Err(stop));
                            lemma_follows_first(
                                begun,
                                key.followed_by(colon),
                                value,
                                stage@,
                                Err(stop),
                            );
                        }
                        return Err(stop);
                    },
                }
                let ghost keyed = stage@;
                match stage.say(":") {
                    Ok(()) => {
                        proof {
                            lemma_follows_both(begun, key, keyed, colon, stage@, Ok(()));
                        }
                    },
                    Err(stop) => {
                        proof {
                            lemma_follows_both(begun, key, keyed, colon, stage@, Err(stop));
                            lemma_follows_first(
                                begun,
                                key.followed_by(colon),
                                value,
                                stage@,
                                Err(stop),
                            );
                        }
                        return Err(stop);
                    },
                }
                let ghost ready = stage@;
                let result = match entry.checked_add(self.raw.map_value_offset) {
                    Some(address) => self.format_value(memory, address, depth + 1, stage),
                    None => stage.fail(Stop::Failure(FormatFailure::ResourceLimit)),
                };
                proof {
                    lemma_follows_both(
                        begun,
                        key.followed_by(colon),
                        ready,
                        value,
                        stage@,
                        result,
                    );
                }
                result
            },
            Err(stop) => stage.fail(stop),
        }
    }

    proof fn lemma_entries_stop(
        self,
        memory: Memory,
        object: u64,
        count: nat,
        length: nat,
        depth: usize,
        before: Stage,
        after: Stage,
        result: Result<(), Stop>,
    )
        requires
            count <= length,
            depth < JSON_DEPTH_LIMIT,
            before.follows(self.entries_written(memory, object, count, depth), after, result),
            result is Err,
        ensures
            before.follows(self.entries_written(memory, object, length, depth), after, result),
        decreases length - count,
    {
        if count < length {
            let index = count as u64;
            let front = self.entries_written(memory, object, count, depth);
            let comma = Self::separator(index);
            let item = match item_place(
                object,
                self.raw.map_data_offset,
                self.raw.map_entry_stride,
                index,
            ) {
                Some(entry) => self.entry_written(memory, object, entry, index, depth),
                None => fails(FormatFailure::ResourceLimit),
            };
            lemma_follows_first(before, front, comma, after, result);
            lemma_follows_first(before, front.followed_by(comma), item, after, result);
            self.lemma_entries_stop(
                memory,
                object,
                count + 1,
                length,
                depth,
                before,
                after,
                result,
            );
        }
    }

    fn format_entries(
        &self,
        memory: &Memory,
        object: u64,
        length: u64,
        depth: usize,
        stage: &mut JsonStage,
    ) -> (result: Result<(), Stop>)
        requires
            old(stage).wf(),
            depth < JSON_DEPTH_LIMIT,
        ensures
            old(stage)@.follows(
                self.entries_written(*memory, object, length as nat, depth),
                final(stage)@,
                result,
            ),
            result is Ok ==> final(stage).wf(),
        decreases JSON_DEPTH_LIMIT - depth, 1nat, 0nat,
    {
        let ghost begun = stage@;
        proof {
            lemma_silent(begun);
        }
        let mut index: u64 = 0;
        while index < length
            invariant
                index <= length,
                depth < JSON_DEPTH_LIMIT,
                stage.wf(),
                begun == old(stage)@,
                begun.follows(
                    self.entries_written(*memory, object, index as nat, depth),
                    stage@,
                    Ok(()),
                ),
            decreases length - index,
        {
            let ghost front = self.entries_written(*memory, object, index as nat, depth);
            let ghost comma = Self::separator(index);
            let ghost item = match item_place(
                object,
                self.raw.map_data_offset,
                self.raw.map_entry_stride,
                index,
            ) {
                Some(entry) => self.entry_written(*memory, object, entry, index, depth),
                None => fails(FormatFailure::ResourceLimit),
            };
            let ghost whole = self.entries_written(*memory, object, index as nat + 1, depth);
            assert(whole == front.followed_by(comma).followed_by(item));
            let ghost filled = stage@;
            match self.separate(index, stage) {
                Ok(()) => {
                    proof {
                        lemma_follows_both(begun, front, filled, comma, stage@, Ok(()));
                    }
                },
                Err(stop) => {
                    proof {
                        lemma_follows_both(begun, front, filled, comma, stage@, Err(stop));
                        lemma_follows_first(
                            begun,
                            front.followed_by(comma),
                            item,
                            stage@,
                            Err(stop),
                        );
                        self.lemma_entries_stop(
                            *memory,
                            object,
                            index as nat + 1,
                            length as nat,
                            depth,
                            begun,
                            stage@,
                            Err(stop),
                        );
                    }
                    return Err(stop);
                },
            }
            let ghost separated = stage@;
            let result = match find_item_place(
                object,
                self.raw.map_data_offset,
                self.raw.map_entry_stride,
                index,
            ) {
                Some(entry) => self.format_entry(memory, object, entry, index, depth, stage),
                None => stage.fail(Stop::Failure(FormatFailure::ResourceLimit)),
            };
            proof {
                lemma_follows_both(
                    begun,
                    front.followed_by(comma),
                    separated,
                    item,
                    stage@,
                    result,
                );
            }
            match result {
                Ok(()) => {},
                Err(stop) => {
                    proof {
                        self.lemma_entries_stop(
                            *memory,
                            object,
                            index as nat + 1,
                            length as nat,
                            depth,
                            begun,
                            stage@,
                            Err(stop),
                        );
                    }
                    return Err(stop);
                },
            }
            index = index + 1;
        }
        Ok(())
    }
}

proof fn lemma_silent(stage: Stage)
    requires
        byte_len(stage.output) <= stage.maximum_bytes,
    ensures
        stage.follows(says(Seq::empty()), stage, Ok(())),
{
    assert(stage.output + Seq::<char>::empty() =~= stage.output);
    law_byte_len_concat(stage.output, Seq::empty());
}

fn is_not_finite(bits: u64) -> (result: bool)
    ensures
        result == (magnitude(bits) >= INFINITY_BITS),
{
    let size: u64 = if bits >= crate::constants::SIGN_BIT {
        bits - crate::constants::SIGN_BIT
    } else {
        bits
    };
    size >= INFINITY_BITS
}

/// The addresses that a format is called with.
#[derive(Clone, Copy, Debug, PartialEq, Eq, Structural)]
pub struct FormatArguments {
    pub json: u64,
    pub layout: u64,
    pub output: u64,
    /// The alignment that the address of a description must have.
    pub layout_alignment: u64,
}

impl FormatArguments {
    /// No address is null, and the two that are used directly are aligned.
    pub open spec fn valid(self, abi: JsonAbi) -> bool {
        self.json != 0 && self.layout != 0 && self.output != 0 && aligned(
            self.layout,
            self.layout_alignment,
        ) && aligned(self.output, abi.pointer_alignment)
    }

    fn check(&self, abi: &JsonAbi) -> (result: bool)
        ensures
            result == self.valid(*abi),
    {
        self.json != 0 && self.layout != 0 && self.output != 0 && offset_is_aligned(
            self.layout,
            self.layout_alignment,
        ) && offset_is_aligned(self.output, abi.pointer_alignment)
    }
}

/// What a format comes to.
pub enum FormatOutcome {
    /// The text of the value, and how many characters it has.
    Text(String, u64),
    /// The value has no text.
    Refused(FormatStatus),
    /// The format is to be made again when more is known.
    Needs(Need),
}

/// The outcome of a format.
pub open spec fn is_outcome(
    abi: JsonAbi,
    arguments: FormatArguments,
    layout: LoomTypedJsonLayout,
    memory: Memory,
    object_limit: u64,
    outcome: FormatOutcome,
) -> bool {
    if !arguments.valid(abi) {
        outcome == FormatOutcome::Refused(FormatStatus::InvalidArgument)
    } else if layout.fault(abi) is Some {
        outcome == FormatOutcome::Refused(layout.fault(abi)->0)
    } else if !aligned(arguments.json, layout.json_alignment) {
        outcome == FormatOutcome::Refused(FormatStatus::InvalidArgument)
    } else {
        match JsonStage::text_room(object_limit, abi.text_header_size) {
            Some(room) => {
                let trace = (ValidatedLayout { abi, raw: layout }).value_written(
                    memory,
                    arguments.json,
                    0,
                );
                if byte_len(trace.text) > room {
                    outcome == FormatOutcome::Refused(FormatStatus::ResourceLimit)
                } else {
                    match trace.stop {
                        Some(Stop::Failure(failure)) => outcome == FormatOutcome::Refused(
                            failure.told(),
                        ),
                        Some(Stop::Needs(need)) => outcome == FormatOutcome::Needs(need),
                        None => match outcome {
                            FormatOutcome::Text(text, length) => text@ == trace.text && length
                                == trace.text.len(),
                            _ => false,
                        },
                    }
                }
            },
            None => outcome == FormatOutcome::Refused(FormatStatus::ResourceLimit),
        }
    }
}

/// Writes a JSON value, whose text must have room in an object of the given
/// size.
pub fn json_format_typed_with_object_limit(
    abi: &JsonAbi,
    arguments: &FormatArguments,
    layout: &LoomTypedJsonLayout,
    memory: &Memory,
    object_limit: u64,
) -> (outcome: FormatOutcome)
    ensures
        is_outcome(*abi, *arguments, *layout, *memory, object_limit, outcome),
{
    if !arguments.check(abi) {
        return FormatOutcome::Refused(FormatStatus::InvalidArgument);
    }
    let validated = match validate_layout(abi, layout) {
        Ok(validated) => validated,
        Err(status) => return FormatOutcome::Refused(status),
    };
    if !offset_is_aligned(arguments.json, validated.raw.json_alignment) {
        return FormatOutcome::Refused(FormatStatus::InvalidArgument);
    }
    let mut stage = match JsonStage::for_object_limit(object_limit, abi.text_header_size) {
        Ok(stage) => stage,
        Err(failure) => return FormatOutcome::Refused(failure.status()),
    };
    let ghost begun = stage@;
    proof {
        reveal_with_fuel(vstd::utf8::encode_utf8, 2);
        assert(byte_len(begun.output) == 0);
    }
    match validated.format_value(memory, arguments.json, 0, &mut stage) {
        Ok(()) => {
            let length: u64 = text_chars(stage.output.as_str()).len() as u64;
            proof {
                let text = validated.value_written(*memory, arguments.json, 0).text;
                assert(begun.output + text =~= text);
            }
            FormatOutcome::Text(stage.output, length)
        },
        Err(Stop::Failure(failure)) => FormatOutcome::Refused(failure.status()),
        Err(Stop::Needs(need)) => FormatOutcome::Needs(need),
    }
}

/// Writes a JSON value into a text of its own.
pub fn json_format_typed_v1(
    abi: &JsonAbi,
    arguments: &FormatArguments,
    layout: &LoomTypedJsonLayout,
    memory: &Memory,
) -> (outcome: FormatOutcome)
    ensures
        is_outcome(*abi, *arguments, *layout, *memory, abi.max_object_bytes, outcome),
{
    json_format_typed_with_object_limit(abi, arguments, layout, memory, abi.max_object_bytes)
}

} // verus!
