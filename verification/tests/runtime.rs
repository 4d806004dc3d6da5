use std::collections::HashSet;

use loom_sema::chain::Chain;
use loom_sema::json_layout::{
    checked_span, offset_is_aligned, spans_overlap, validate_layout, JsonAbi, LoomTypedJsonLayout,
};
use loom_sema::json_stage::{FormatFailure, FormatStatus, JsonStage};
use loom_sema::literals::decode_constant_text;
use loom_sema::typed_json::{
    json_format_typed_v1, json_format_typed_with_object_limit, FormatArguments, FormatOutcome,
    Memory, Need, NumberFact, TextFact, Word,
};
use loom_sema::value::{value_summary, ValueSlot, ValueTags};
use loom_sema::witness::{
    clone_witnesses, walk_witnesses, CloneOutcome, StagedWitnesses, WalkOutcome, WitnessArena,
    WitnessDescriptor, WitnessFact, WitnessInstance,
};

const MAX_OBJECT_BYTES: u64 = 1 << 30;
const TEXT_HEADER_SIZE: u64 = 32;

fn abi() -> JsonAbi {
    JsonAbi {
        version: 1,
        pointer_size: 8,
        pointer_alignment: 8,
        number_size: 8,
        number_alignment: 8,
        header_size: 8,
        header_alignment: 8,
        max_object_bytes: MAX_OBJECT_BYTES,
        max_object_alignment: 4096,
        text_header_size: TEXT_HEADER_SIZE,
    }
}

fn layout() -> LoomTypedJsonLayout {
    LoomTypedJsonLayout {
        abi_version: 1,
        flags: 0,
        json_size: 24,
        json_alignment: 8,
        tag_offset: 0,
        tag_size: 1,
        bool_payload_offset: 8,
        number_payload_offset: 8,
        text_payload_offset: 16,
        array_payload_offset: 16,
        object_payload_offset: 16,
        list_length_offset: 0,
        list_capacity_offset: 8,
        list_data_offset: 16,
        list_element_stride: 24,
        map_length_offset: 0,
        map_data_offset: 8,
        map_entry_stride: 32,
        map_key_offset: 0,
        map_value_offset: 8,
    }
}

#[derive(Clone, Copy)]
struct Direct {
    tag: u64,
    scalar: u64,
    pointer: u64,
}

fn null() -> Direct {
    Direct {
        tag: 0,
        scalar: 0,
        pointer: 0,
    }
}

fn boolean(value: bool) -> Direct {
    Direct {
        tag: 1,
        scalar: value as u64,
        pointer: 0,
    }
}

fn number(value: f64) -> Direct {
    Direct {
        tag: 2,
        scalar: value.to_bits(),
        pointer: 0,
    }
}

fn pointing(tag: u64, pointer: u64) -> Direct {
    Direct {
        tag,
        scalar: 0,
        pointer,
    }
}

struct Heap {
    words: Vec<Word>,
    texts: Vec<TextFact>,
    numbers: Vec<NumberFact>,
    next: u64,
}

impl Heap {
    fn new() -> Self {
        Heap {
            words: vec![],
            texts: vec![],
            numbers: vec![],
            next: 4096,
        }
    }

    fn room(&mut self, size: u64) -> u64 {
        let address = self.next;
        self.next += (size + 15) / 8 * 8;
        address
    }

    fn word(&mut self, address: u64, size: u64, value: u64) {
        self.words.push(Word {
            address,
            size,
            value,
        });
    }

    fn put(&mut self, address: u64, json: Direct) {
        self.word(address, 1, json.tag);
        self.word(address + 8, 1, json.scalar & 0xff);
        self.word(address + 8, 8, json.scalar);
        self.word(address + 16, 8, json.pointer);
        if json.tag == 2 {
            self.numbers.push(NumberFact {
                bits: json.scalar,
                text: f64::from_bits(json.scalar).to_string(),
            });
        }
    }

    fn json(&mut self, json: Direct) -> u64 {
        let address = self.room(24);
        self.put(address, json);
        address
    }

    fn raw_text(&mut self, bytes: Option<&[u8]>, scalar_length: Option<u64>) -> u64 {
        let address = self.room(8);
        self.texts.push(TextFact {
            address,
            bytes: bytes.map(|found| found.to_vec()),
            scalar_length,
        });
        address
    }

    fn text(&mut self, value: &str) -> u64 {
        self.raw_text(
            Some(value.as_bytes()),
            Some(value.chars().count() as u64),
        )
    }

    fn array(&mut self, length: u64, capacity: u64, data: &[Direct]) -> u64 {
        let address = self.room(16 + 24 * data.len() as u64);
        self.word(address, 8, length);
        self.word(address + 8, 8, capacity);
        for (index, item) in data.iter().enumerate() {
            self.put(address + 16 + 24 * index as u64, *item);
        }
        address
    }

    fn object(&mut self, length: u64, data: &[(u64, Direct)]) -> u64 {
        let address = self.room(8 + 32 * data.len() as u64);
        self.word(address, 8, length);
        for (index, (key, item)) in data.iter().enumerate() {
            let entry = address + 8 + 32 * index as u64;
            self.word(entry, 8, *key);
            self.put(entry + 8, *item);
        }
        address
    }

    fn memory(self) -> Memory {
        let mut texts = self.texts;
        texts.push(TextFact {
            address: 0,
            bytes: None,
            scalar_length: None,
        });
        Memory {
            words: Chain::from_vec(self.words),
            texts: Chain::from_vec(texts),
            numbers: Chain::from_vec(self.numbers),
        }
    }
}

fn arguments(json: u64) -> FormatArguments {
    FormatArguments {
        json,
        layout: 64,
        output: 128,
        layout_alignment: 8,
    }
}

fn outcome(mut heap: Heap, json: Direct, descriptor: &LoomTypedJsonLayout) -> FormatOutcome {
    let address = heap.json(json);
    json_format_typed_v1(&abi(), &arguments(address), descriptor, &heap.memory())
}

fn formatted(heap: Heap, json: Direct) -> String {
    match outcome(heap, json, &layout()) {
        FormatOutcome::Text(text, length) => {
            assert_eq!(length, text.chars().count() as u64);
            text
        }
        FormatOutcome::Refused(status) => panic!("refused: {status:?}"),
        FormatOutcome::Needs(need) => panic!("needs: {need:?}"),
    }
}

fn status(heap: Heap, json: Direct) -> FormatStatus {
    match outcome(heap, json, &layout()) {
        FormatOutcome::Refused(status) => status,
        FormatOutcome::Text(text, _) => panic!("written: {text}"),
        FormatOutcome::Needs(need) => panic!("needs: {need:?}"),
    }
}

#[test]
fn direct_variants_preserve_canonical_format_order_escaping_and_negative_zero() {
    assert_eq!(formatted(Heap::new(), null()), "null");
    assert_eq!(formatted(Heap::new(), boolean(false)), "false");
    assert_eq!(formatted(Heap::new(), boolean(true)), "true");
    assert_eq!(formatted(Heap::new(), number(-0.0)), "-0");

    let mut heap = Heap::new();
    let text = heap.text("line\n\"界\u{1}");
    assert_eq!(
        formatted(heap, pointing(3, text)),
        "\"line\\n\\\"界\\u0001\""
    );

    let mut heap = Heap::new();
    let text = heap.text("line\n\"界\u{1}");
    let array = heap.array(
        4,
        4,
        &[null(), boolean(true), number(12.5), pointing(3, text)],
    );
    assert_eq!(
        formatted(heap, pointing(4, array)),
        "[null,true,12.5,\"line\\n\\\"界\\u0001\"]"
    );

    let mut heap = Heap::new();
    let a = heap.text("a");
    let z = heap.text("z");
    let object = heap.object(2, &[(a, boolean(false)), (z, number(-0.0))]);
    assert_eq!(
        formatted(heap, pointing(5, object)),
        "{\"a\":false,\"z\":-0}"
    );
    assert_eq!(formatted(Heap::new(), pointing(4, 0)), "[]");
    assert_eq!(formatted(Heap::new(), pointing(5, 0)), "{}");
}

fn refused(
    arguments: &FormatArguments,
    descriptor: &LoomTypedJsonLayout,
    memory: &Memory,
) -> FormatStatus {
    match json_format_typed_v1(&abi(), arguments, descriptor, memory) {
        FormatOutcome::Refused(status) => status,
        _ => panic!("must be refused"),
    }
}

#[test]
fn descriptor_and_boundary_validation_are_strict_and_transactional() {
    let mut heap = Heap::new();
    let json = heap.json(null());
    let memory = heap.memory();
    let descriptor = layout();
    let good = arguments(json);

    let mut bad = good;
    bad.json = 0;
    assert_eq!(
        refused(&bad, &descriptor, &memory),
        FormatStatus::InvalidArgument
    );
    let mut bad = good;
    bad.layout = 0;
    assert_eq!(
        refused(&bad, &descriptor, &memory),
        FormatStatus::InvalidArgument
    );
    let mut bad = good;
    bad.output = 0;
    assert_eq!(
        refused(&bad, &descriptor, &memory),
        FormatStatus::InvalidArgument
    );

    let mut mismatch = descriptor;
    mismatch.abi_version += 1;
    assert_eq!(refused(&good, &mismatch, &memory), FormatStatus::AbiMismatch);
    let mut too_large = descriptor;
    too_large.json_size = MAX_OBJECT_BYTES + 1;
    assert_eq!(
        refused(&good, &too_large, &memory),
        FormatStatus::ResourceLimit
    );

    let mut malformed = Vec::new();
    let mut value = descriptor;
    value.flags = 1;
    malformed.push(("flags", value));
    let mut value = descriptor;
    value.json_size = 0;
    malformed.push(("json_size", value));
    let mut value = descriptor;
    value.json_alignment = 3;
    malformed.push(("json_alignment", value));
    let mut value = descriptor;
    value.tag_offset = descriptor.json_size;
    malformed.push(("tag_offset", value));
    let mut value = descriptor;
    value.tag_size = 3;
    malformed.push(("tag_size", value));
    let mut value = descriptor;
    value.bool_payload_offset = descriptor.tag_offset;
    malformed.push(("bool_payload_offset", value));
    let mut value = descriptor;
    value.number_payload_offset = 9;
    malformed.push(("number_payload_offset", value));
    let mut value = descriptor;
    value.text_payload_offset = descriptor.json_size;
    malformed.push(("text_payload_offset", value));
    let mut value = descriptor;
    value.array_payload_offset = descriptor.json_size;
    malformed.push(("array_payload_offset", value));
    let mut value = descriptor;
    value.object_payload_offset = descriptor.json_size;
    malformed.push(("object_payload_offset", value));
    let mut value = descriptor;
    value.list_length_offset = 1;
    malformed.push(("list_length_offset", value));
    let mut value = descriptor;
    value.list_capacity_offset = descriptor.list_length_offset;
    malformed.push(("list_capacity_offset", value));
    let mut value = descriptor;
    value.list_data_offset = 8;
    malformed.push(("list_data_offset", value));
    let mut value = descriptor;
    value.list_data_offset = MAX_OBJECT_BYTES;
    malformed.push(("list_data_offset", value));
    let mut value = descriptor;
    value.list_element_stride = 8;
    malformed.push(("list_element_stride", value));
    let mut value = descriptor;
    value.map_length_offset = 1;
    malformed.push(("map_length_offset", value));
    let mut value = descriptor;
    value.map_data_offset = 4;
    malformed.push(("map_data_offset", value));
    let mut value = descriptor;
    value.map_data_offset = MAX_OBJECT_BYTES;
    malformed.push(("map_data_offset", value));
    let mut value = descriptor;
    value.map_entry_stride = 16;
    malformed.push(("map_entry_stride", value));
    let mut value = descriptor;
    value.map_key_offset = 1;
    malformed.push(("map_key_offset", value));
    let mut value = descriptor;
    value.map_value_offset = 4;
    malformed.push(("map_value_offset", value));
    for (field, malformed) in malformed {
        assert_eq!(
            refused(&good, &malformed, &memory),
            FormatStatus::DescriptorInvalid,
            "field {field}"
        );
    }

    let mut unaligned = good;
    unaligned.layout = 65;
    assert_eq!(
        refused(&unaligned, &descriptor, &memory),
        FormatStatus::InvalidArgument
    );
    assert!(validate_layout(&abi(), &descriptor).is_ok());
}

#[test]
fn malformed_direct_values_and_noncanonical_containers_are_rejected() {
    let invalid = FormatStatus::InvalidArgument;
    assert_eq!(status(Heap::new(), pointing(6, 0)), invalid);
    let mut invalid_bool = boolean(false);
    invalid_bool.scalar = 2;
    assert_eq!(status(Heap::new(), invalid_bool), invalid);
    assert_eq!(status(Heap::new(), pointing(3, 0)), invalid);

    let mut heap = Heap::new();
    let bytes = heap.raw_text(None, None);
    assert_eq!(status(heap, pointing(3, bytes)), invalid);
    let mut heap = Heap::new();
    let text = heap.raw_text(Some("界".as_bytes()), Some(2));
    assert_eq!(status(heap, pointing(3, text)), invalid);

    let mut heap = Heap::new();
    let bad_list = heap.array(2, 1, &[null()]);
    assert_eq!(status(heap, pointing(4, bad_list)), invalid);
    let mut heap = Heap::new();
    let empty_list = heap.array(0, 0, &[]);
    assert_eq!(status(heap, pointing(4, empty_list)), invalid);

    let mut heap = Heap::new();
    let a = heap.text("a");
    let z = heap.text("z");
    let unsorted = heap.object(2, &[(z, null()), (a, null())]);
    assert_eq!(status(heap, pointing(5, unsorted)), invalid);
    let mut heap = Heap::new();
    let a = heap.text("a");
    let duplicate = heap.object(2, &[(a, null()), (a, null())]);
    assert_eq!(status(heap, pointing(5, duplicate)), invalid);
    let mut heap = Heap::new();
    let empty_map = heap.object(0, &[]);
    assert_eq!(status(heap, pointing(5, empty_map)), invalid);
}

#[test]
fn depth_and_nonfinite_failures_use_only_the_public_result_statuses() {
    for value in [f64::NAN, f64::INFINITY, f64::NEG_INFINITY] {
        assert_eq!(
            status(Heap::new(), number(value)),
            FormatStatus::NonFiniteNumber
        );
    }

    let mut heap = Heap::new();
    let mut root = null();
    for _ in 0..128 {
        let container = heap.array(1, 1, &[root]);
        root = pointing(4, container);
    }
    let expected = format!("{}null{}", "[".repeat(128), "]".repeat(128));
    assert_eq!(formatted(heap, root), expected);

    let mut heap = Heap::new();
    let mut root = null();
    for _ in 0..129 {
        let container = heap.array(1, 1, &[root]);
        root = pointing(4, container);
    }
    assert_eq!(status(heap, root), FormatStatus::DepthLimit);
}

#[test]
fn escaped_output_over_managed_object_budget_is_resource_limited_and_transactional() {
    let production_stage = match JsonStage::for_object_limit(MAX_OBJECT_BYTES, TEXT_HEADER_SIZE) {
        Ok(stage) => stage,
        Err(_) => panic!("the limit has room for a header"),
    };
    let production_maximum = (MAX_OBJECT_BYTES - TEXT_HEADER_SIZE) as usize;
    assert_eq!(
        production_stage.checked_output_length(production_maximum + 1),
        Err(FormatFailure::ResourceLimit)
    );
    assert_eq!(
        production_stage.checked_output_length(production_maximum),
        Ok(production_maximum)
    );

    for (extra, fits) in [(7, false), (8, true)] {
        let mut heap = Heap::new();
        let text = heap.text("\u{1}");
        let json = heap.json(pointing(3, text));
        let outcome = json_format_typed_with_object_limit(
            &abi(),
            &arguments(json),
            &layout(),
            &heap.memory(),
            TEXT_HEADER_SIZE + extra,
        );
        match outcome {
            FormatOutcome::Text(text, length) => {
                assert!(fits);
                assert_eq!(text, "\"\\u0001\"");
                assert_eq!(length, 8);
            }
            FormatOutcome::Refused(status) => {
                assert!(!fits);
                assert_eq!(status, FormatStatus::ResourceLimit);
            }
            FormatOutcome::Needs(_) => panic!("everything is known"),
        }
    }
}

#[test]
fn wide_characters_are_written_as_they_are() {
    let mut heap = Heap::new();
    let text = heap.text("moving 界🙂");
    let written = formatted(heap, pointing(3, text));
    assert_eq!(
        written.as_bytes(),
        b"\"moving \xe7\x95\x8c\xf0\x9f\x99\x82\""
    );
}

#[test]
fn bytes_that_are_no_text_are_refused() {
    let mut heap = Heap::new();
    let text = heap.raw_text(Some(&[0xff, 0xfe]), Some(2));
    assert_eq!(
        status(heap, pointing(3, text)),
        FormatStatus::InvalidArgument
    );
}

#[test]
fn what_is_not_known_is_asked_for() {
    let memory = || Memory {
        words: Chain::new(),
        texts: Chain::new(),
        numbers: Chain::new(),
    };
    match json_format_typed_v1(&abi(), &arguments(4096), &layout(), &memory()) {
        FormatOutcome::Needs(need) => assert_eq!(
            need,
            Need::Word {
                address: 4096,
                size: 1
            }
        ),
        _ => panic!("the tag is not known"),
    }
    let mut known = memory();
    known.words.push(Word {
        address: 4096,
        size: 1,
        value: 2,
    });
    known.words.push(Word {
        address: 4104,
        size: 8,
        value: 1.5f64.to_bits(),
    });
    match json_format_typed_v1(&abi(), &arguments(4096), &layout(), &known) {
        FormatOutcome::Needs(need) => assert_eq!(need, Need::Number(1.5f64.to_bits())),
        _ => panic!("the text of the number is not known"),
    }
}

#[test]
fn an_object_without_room_for_a_header_is_refused() {
    assert!(matches!(
        JsonStage::for_object_limit(TEXT_HEADER_SIZE - 1, TEXT_HEADER_SIZE),
        Err(FormatFailure::ResourceLimit)
    ));
    assert_eq!(
        FormatFailure::InvalidValue.status(),
        FormatStatus::InvalidArgument
    );
}

#[test]
fn a_stage_takes_what_has_room() {
    let mut stage = JsonStage::with_maximum_bytes(5);
    assert_eq!(stage.push_char('界'), Ok(()));
    assert_eq!(stage.push_str("ab"), Ok(()));
    assert_eq!(stage.push_char('c'), Err(FormatFailure::ResourceLimit));
    assert_eq!(stage.output, "界ab");
    let mut stage = JsonStage::with_maximum_bytes(64);
    assert_eq!(
        stage.push_escaped_text("\"\\\u{8}\u{c}\n\r\t\u{1f}z"),
        Ok(())
    );
    assert_eq!(stage.output, "\"\\\"\\\\\\b\\f\\n\\r\\t\\u001fz\"");
}

#[test]
fn a_refused_text_leaves_what_had_room() {
    for (room, written) in [
        (0, ""),
        (1, "\""),
        (2, "\"a"),
        (3, "\"a"),
        (5, "\"a"),
        (6, "\"a\\u00"),
        (7, "\"a\\u001"),
        (8, "\"a\\u001f"),
    ] {
        let mut stage = JsonStage::with_maximum_bytes(2 + room);
        assert_eq!(stage.push_str("x,"), Ok(()));
        assert_eq!(
            stage.push_escaped_text("a\u{1f}"),
            Err(FormatFailure::ResourceLimit)
        );
        assert_eq!(stage.output, format!("x,{written}"));
    }
}

#[test]
fn spans_are_checked_without_overflow() {
    assert!(checked_span(4, 4, 8));
    assert!(!checked_span(5, 4, 8));
    assert!(!checked_span(u64::MAX, 1, u64::MAX));
    assert!(spans_overlap(0, 8, 7, 1));
    assert!(!spans_overlap(0, 8, 8, 1));
    assert!(spans_overlap(u64::MAX - 1, 8, 0, u64::MAX));
    assert!(offset_is_aligned(16, 8));
    assert!(!offset_is_aligned(12, 8));
    assert!(!offset_is_aligned(0, 0));
}

fn tags() -> ValueTags {
    ValueTags {
        unit: 0,
        boolean: 1,
        integer: 2,
        float: 3,
        text: 4,
        record: 5,
        enumeration: 6,
        refined: 7,
        constraint_error: 8,
        dynamic: 9,
        task: 10,
        tuple: 11,
        list: 12,
    }
}

#[test]
fn summaries_are_type_only_and_do_not_disclose_scalar_or_aggregate_data() {
    for (words, expected) in [
        ([1, 0, 0, 1, 0, 0], "Bool"),
        ([2, 0, 0, 0x5e_c0_e7_u64, 0, 0], "Int"),
        ([3, 0, 0, 42.5_f64.to_bits(), 0, 0], "Float"),
        ([4, 0, 4_294_967_295, 0, 0, 0], "Text"),
        ([12, 0, 9_876_543_210, 0, 0, 0], "List"),
        ([6, 27, 9_876_543_210, 0, 0, 0], "type#27"),
    ] {
        let mut summary = String::new();
        tags().write_summary(&ValueSlot { words }, &mut summary);
        assert_eq!(summary, expected);
    }
}

#[test]
fn summaries_of_the_other_kinds() {
    for (tag, expected) in [
        (0, "Unit"),
        (5, "type#18446744073709551615"),
        (7, "type#18446744073709551615"),
        (8, "ConstraintError"),
        (9, "dyn"),
        (10, "Task"),
        (11, "Tuple"),
        (99, "<invalid>"),
    ] {
        let slot = ValueSlot {
            words: [tag, u64::MAX, 1, 2, 3, 4],
        };
        assert_eq!(
            value_summary(&tags(), Some(&slot), true),
            Some(expected.to_owned())
        );
        assert_eq!(value_summary(&tags(), Some(&slot), false), None);
    }
    assert_eq!(value_summary(&tags(), None, true), None);
}

fn fact(address: u64, descriptor: u64, count: u64, prerequisites: Vec<u64>) -> WitnessFact {
    WitnessFact {
        address,
        instance: WitnessInstance {
            descriptor: Some(WitnessDescriptor {
                address: descriptor,
                prerequisite_count: count,
                method_count: 0,
                has_methods: false,
            }),
            has_prerequisites: !prerequisites.is_empty(),
            prerequisites,
        },
    }
}

fn staged(facts: Vec<WitnessFact>, sources: Vec<u64>) -> StagedWitnesses {
    match clone_witnesses(&Chain::from_vec(facts), &sources) {
        CloneOutcome::Staged(staged) => staged,
        CloneOutcome::Invalid => panic!("invalid"),
        CloneOutcome::Needs(address) => panic!("needs {address}"),
    }
}

#[test]
fn clone_is_compact_ordered_and_preserves_shared_subproofs() {
    let clone = staged(
        vec![fact(100, 1, 0, vec![]), fact(200, 2, 2, vec![100, 100])],
        vec![200],
    );
    assert_eq!(clone.allocations.len(), 2);
    let root = &clone.allocations[clone.roots[0]];
    assert_eq!(root.descriptor, 2);
    assert_eq!(root.prerequisites.len(), 2);
    assert_eq!(root.prerequisites[0], root.prerequisites[1]);
    assert_ne!(root.prerequisites[0], clone.roots[0]);
    assert_eq!(clone.allocations[root.prerequisites[0]].descriptor, 1);
    assert_eq!(clone.allocation_bytes(16, 8), 16 + 16 + 16);
}

#[test]
fn invalid_clone_does_not_publish_partial_arena_state() {
    let mut arena = WitnessArena::new();
    let invalid = fact(100, 1, 1, vec![]);
    assert!(matches!(
        clone_witnesses(&Chain::from_vec(vec![invalid]), &vec![100]),
        CloneOutcome::Invalid
    ));
    assert!(arena.is_empty());

    let clone = staged(vec![fact(100, 1, 0, vec![])], vec![100]);
    let roots = arena.adopt(&clone);
    assert_eq!(roots.len(), 1);
    assert_eq!(arena.len(), 1);
}

#[test]
fn unsound_and_unknown_proofs_are_told_apart() {
    let facts = Chain::from_vec(vec![fact(200, 2, 1, vec![100])]);
    assert!(matches!(
        clone_witnesses(&facts, &vec![200]),
        CloneOutcome::Needs(100)
    ));
    assert!(matches!(
        clone_witnesses(&facts, &vec![0]),
        CloneOutcome::Invalid
    ));
    assert!(matches!(walk_witnesses(&facts, 200), WalkOutcome::Needs(100)));
    assert!(matches!(walk_witnesses(&facts, 0), WalkOutcome::Invalid(visited) if visited.is_empty()));
    let mut methods = fact(300, 3, 0, vec![]);
    methods.instance.descriptor = Some(WitnessDescriptor {
        address: 3,
        prerequisite_count: 0,
        method_count: 1,
        has_methods: false,
    });
    let facts = Chain::from_vec(vec![methods, fact(400, 4, 1, vec![0])]);
    assert!(matches!(
        clone_witnesses(&facts, &vec![300]),
        CloneOutcome::Invalid
    ));
    assert!(matches!(walk_witnesses(&facts, 400), WalkOutcome::Invalid(visited) if visited == [400]));
}

#[test]
fn a_walk_visits_each_proof_once_and_the_first_prerequisite_first() {
    let facts = Chain::from_vec(vec![
        fact(1, 1, 2, vec![2, 3]),
        fact(2, 1, 1, vec![4]),
        fact(3, 1, 1, vec![4]),
        fact(4, 1, 0, vec![]),
    ]);
    match walk_witnesses(&facts, 1) {
        WalkOutcome::Visited(addresses) => assert_eq!(addresses, vec![1, 2, 4, 3]),
        _ => panic!("every proof is sound"),
    }
}

#[test]
fn a_walk_goes_down_before_it_goes_on() {
    let facts = Chain::from_vec(vec![
        fact(1, 1, 3, vec![5, 2, 3]),
        fact(2, 1, 2, vec![4, 5]),
        fact(3, 1, 2, vec![1, 6]),
        fact(4, 1, 1, vec![3]),
        fact(5, 1, 0, vec![]),
        fact(6, 1, 0, vec![]),
    ]);
    match walk_witnesses(&facts, 1) {
        WalkOutcome::Visited(addresses) => assert_eq!(addresses, vec![1, 5, 2, 4, 3, 6]),
        _ => panic!("every proof is sound"),
    }
    assert!(matches!(
        clone_witnesses(&facts, &vec![1, 0]),
        CloneOutcome::Invalid
    ));
}

#[test]
fn a_walk_hands_out_what_it_visited_before_a_fault() {
    let mut broken = fact(4, 1, 0, vec![]);
    broken.instance.descriptor = None;
    let facts = Chain::from_vec(vec![
        fact(1, 1, 3, vec![2, 3, 5]),
        fact(2, 1, 1, vec![6]),
        fact(3, 1, 1, vec![4]),
        broken,
        fact(5, 1, 0, vec![]),
        fact(6, 1, 0, vec![]),
    ]);
    match walk_witnesses(&facts, 1) {
        WalkOutcome::Invalid(visited) => assert_eq!(visited, vec![1, 2, 6, 3]),
        _ => panic!("a proof is broken"),
    }
    let facts = Chain::from_vec(vec![
        fact(1, 1, 2, vec![2, 3]),
        fact(2, 1, 2, vec![3, 0]),
        fact(3, 1, 0, vec![]),
    ]);
    match walk_witnesses(&facts, 1) {
        WalkOutcome::Invalid(visited) => assert_eq!(visited, vec![1, 2]),
        _ => panic!("a proof rests on nothing"),
    }
}

#[test]
fn an_escaped_text_is_a_literal_of_that_text() {
    for text in ["", "plain", "\"\\\u{8}\u{c}\n\r\t\u{0}\u{1f}/z", "a\\u0041 \u{1f600}界"] {
        let mut stage = JsonStage::with_maximum_bytes(256);
        assert_eq!(stage.push_escaped_text(text), Ok(()));
        match decode_constant_text(&stage.output) {
            Ok(decoded) => {
                let mut chars = vec![];
                let mut current = &decoded;
                while let Chain::Link(link) = current {
                    chars.push(link.item);
                    current = &link.rest;
                }
                chars.reverse();
                assert_eq!(chars.into_iter().collect::<String>(), text);
            }
            Err(()) => panic!("the output is a literal"),
        }
    }
}

#[test]
fn an_arena_keeps_what_is_marked() {
    let mut arena = WitnessArena::new();
    let clone = staged(
        vec![fact(100, 1, 0, vec![]), fact(200, 2, 1, vec![100])],
        vec![200, 100],
    );
    let roots = arena.adopt(&clone);
    assert_eq!(arena.addresses(), vec![0, 1]);
    assert_eq!(arena.allocation_bytes(16, 8), 16 + 16 + 8);
    let second = arena.adopt(&clone);
    assert_eq!(second[0], roots[0] + 2);
    assert_eq!(arena.len(), 4);
    let mut marked = HashSet::new();
    marked.insert(second[0]);
    marked.insert(second[1]);
    assert_eq!(arena.retain_marked(&marked), 2);
    assert_eq!(arena.addresses(), vec![2, 3]);
    assert_eq!(
        arena.allocations[0].prerequisites.len() + arena.allocations[1].prerequisites.len(),
        1
    );
}
