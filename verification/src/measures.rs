//! What holds of sizes and of the small decisions that the checks share.

use vstd::arithmetic::power2::{lemma_pow2_pos, lemma_pow2_unfold, pow2};
use vstd::prelude::*;

use crate::calls::{passing_of, written_place};
use crate::chain::Chain;
use crate::coerce::failure_code;
use crate::conformance::{SolveFailure, WitnessSelection};
use crate::declare::is_constant_type;
use crate::hir::{Import, ImportTarget, Literal, Program, Visibility};
use crate::ids::{DefId, ExprId, ModuleId};
use crate::json_layout::{is_power, span_end, JsonAbi, LoomTypedJsonLayout};
use crate::json_stage::{FormatStatus, JsonStage};
use crate::lookup::is_finite_literal;
use crate::module_graph::{compiler_known, import_module};
use crate::patterns::literal_ty;
use crate::resolve::{constructor_arity, Constructor};
use crate::semantics::{CallableSignature, ReceiverPassing, ViewSource};
use crate::solver::unique_witness;
use crate::state::World;
use crate::symbolic::in_range;
use crate::ty::{ty_data, types_wf, BuiltinType, TyData};
use crate::typed_json::{is_outcome, FormatArguments, FormatOutcome, Memory};
use crate::value::cut;
use crate::witness::total_bytes;

verus! {

/// What counts as a power of two is one, and every power of two that fits does.
pub proof fn law_powers_of_two(value: u64, exponent: nat)
    ensures
        is_power(value) ==> exists|found: nat| #[trigger] pow2(found) == value,
        pow2(exponent) == value ==> is_power(value),
    decreases value,
{
    reveal_with_fuel(is_power, 2);
    lemma_pow2_pos(exponent);
    if value > 1 {
        let half = (value / 2) as u64;
        if is_power(value) {
            law_powers_of_two(half, 0);
            let found = choose|found: nat| #[trigger] pow2(found) == half;
            lemma_pow2_unfold(found + 1);
            assert(pow2(found + 1) == value);
        }
        if pow2(exponent) == value {
            if exponent == 0 {
                vstd::arithmetic::power2::lemma2_to64();
            }
            lemma_pow2_unfold(exponent);
            law_powers_of_two(half, (exponent - 1) as nat);
        }
    } else if value == 1 {
        vstd::arithmetic::power2::lemma2_to64();
        assert(pow2(0) == value);
    }
}

/// A span ends behind its last byte, or at the greatest number where that does
/// not fit.
pub proof fn law_span_ends(offset: u64, size: u64)
    ensures
        span_end(offset, size) <= u64::MAX,
        span_end(offset, size) == offset + size || span_end(offset, size) == u64::MAX && offset
            + size > u64::MAX,
{
}

/// How many prerequisites there are in all.
pub open spec fn prerequisites(counts: Seq<nat>) -> nat
    decreases counts.len(),
{
    if counts.len() == 0 {
        0
    } else {
        prerequisites(counts.drop_last()) + counts.last()
    }
}

/// Proofs take the room of each of them and of each reference that they hold,
/// or the greatest number if that is less.
pub proof fn law_bytes_of_proofs(counts: Seq<nat>, instance_size: usize, pointer_size: usize)
    ensures
        ({
            let exact = counts.len() * instance_size + prerequisites(counts) * pointer_size;
            total_bytes(counts, instance_size, pointer_size) == if exact <= usize::MAX {
                exact
            } else {
                usize::MAX as int
            }
        }),
    decreases counts.len(),
{
    reveal_with_fuel(total_bytes, 2);
    reveal_with_fuel(prerequisites, 2);
    if counts.len() > 0 {
        let rest = counts.drop_last();
        let last = counts.last();
        law_bytes_of_proofs(rest, instance_size, pointer_size);
        let before = prerequisites(rest);
        let number = rest.len();
        assert((number + 1) * instance_size == number * instance_size + instance_size)
            by (nonlinear_arith);
        assert((before + last) * pointer_size == before * pointer_size + last * pointer_size)
            by (nonlinear_arith);
        assert(number * instance_size >= 0) by (nonlinear_arith);
        assert(before * pointer_size >= 0) by (nonlinear_arith);
        assert(last * pointer_size >= 0) by (nonlinear_arith);
    } else {
        assert(0 * instance_size == 0) by (nonlinear_arith);
        assert(0 * pointer_size == 0) by (nonlinear_arith);
    }
}

/// The room for a text is what its header leaves of an object.
pub proof fn law_room_for_texts(object_limit: u64, header: u64)
    ensures
        match JsonStage::text_room(object_limit, header) {
            Some(room) => room + header == object_limit,
            None => header > object_limit || object_limit - header > usize::MAX,
        },
{
}

/// A summary of up to 256 characters stays whole. Of a longer one the beginning
/// stays, with three dots behind it, 256 characters in all.
pub proof fn law_summaries_are_cut(summary: Seq<char>)
    ensures
        cut(summary).len() <= 256,
        summary.len() <= 256 ==> cut(summary) == summary,
        summary.len() > 256 ==> cut(summary).len() == 256 && cut(summary).take(253)
            == summary.take(253) && cut(summary).skip(253) == "..."@,
{
    reveal_strlit("...");
    assert("..."@.len() == 3);
    if summary.len() > 256 {
        assert(cut(summary).take(253) =~= summary.take(253));
        assert(cut(summary).skip(253) =~= "..."@);
    }
}

/// A literal has the type of its kind, and a constant may have the type of any
/// literal but unit's.
pub proof fn law_literals_and_constants(types: Seq<TyData>, literal: Literal)
    requires
        types_wf(types),
    ensures
        ty_data(types, literal_ty(literal)) == TyData::Builtin(
            match literal {
                Literal::Bool(_) => BuiltinType::Bool,
                Literal::Int(_) => BuiltinType::Int,
                Literal::Float(_, _) => BuiltinType::Float,
                Literal::Text(_) => BuiltinType::Text,
                Literal::Unit => BuiltinType::Unit,
            },
        ),
        is_constant_type(ty_data(types, literal_ty(literal))) == !(literal is Unit),
{
    let first = crate::ty::first_types();
    let at = literal_ty(literal).0 as int;
    assert(types[at] == first[at]);
}

/// Only builtin types can be types of constants.
pub proof fn law_constant_types(data: TyData)
    ensures
        is_constant_type(data) ==> data is Builtin,
        !is_constant_type(TyData::Builtin(BuiltinType::Unit)),
        !is_constant_type(TyData::Builtin(BuiltinType::Bytes)),
        !is_constant_type(TyData::Builtin(BuiltinType::Path)),
        !is_constant_type(TyData::Builtin(BuiltinType::Duration)),
        !is_constant_type(TyData::Builtin(BuiltinType::ConstraintError)),
        !is_constant_type(TyData::Builtin(BuiltinType::ContractFault)),
        !is_constant_type(TyData::Builtin(BuiltinType::TaskFault)),
{
}

/// A receiver is handed over to be changed exactly where the method changes it.
pub proof fn law_receiver_passing(signature: CallableSignature)
    ensures
        (passing_of(signature) == ReceiverPassing::InOut) == (signature.receiver == Some(
            crate::hir::ReceiverKind::Mutable,
        )),
        passing_of(signature) == ReceiverPassing::InOut || passing_of(signature)
            == ReceiverPassing::Value,
{
}

/// A written float has a value unless it is too large for one.
pub proof fn law_finite_literals(bits: u64)
    ensures
        !is_finite_literal(None),
        !is_finite_literal(Some(0x7ff0_0000_0000_0000)),
        !is_finite_literal(Some(0xfff0_0000_0000_0000)),
        bits < 0x7ff0_0000_0000_0000 ==> is_finite_literal(Some(bits)),
        0x8000_0000_0000_0000 <= bits < 0xfff0_0000_0000_0000 ==> is_finite_literal(Some(bits)),
{
}

/// Only what a changeable interface stands for is written through it.
pub proof fn law_written_places(w: World, argument: ExprId)
    ensures
        match w.st.semantics.views.lookup(argument.0) {
            None => written_place(w, argument) is None,
            Some(view) => {
                &&& !view.mutable ==> written_place(w, argument) is None
                &&& view.mutable ==> match view.source {
                    ViewSource::Interface { owner } => written_place(w, argument) == Some(owner),
                    ViewSource::Concrete { witness: _, writeback } => written_place(w, argument)
                        == writeback,
                }
            },
        },
{
}

/// An import leads to the module that its path was found in, unless it names
/// what the compiler provides or no module at all.
pub proof fn law_imported_modules(import: Import)
    ensures
        import.primitive || compiler_known(import.path) ==> import_module(import) is None,
        import.path.spec_len() < 2 ==> import_module(import) is None,
        import_module(import) is Some ==> import.target == ImportTarget::Found(
            import_module(import)->0,
        ),
        !import.primitive && !compiler_known(import.path) && import.path.spec_len() >= 2 && (
        import.target matches ImportTarget::Found(module)) ==> import_module(import) is Some,
{
    reveal_with_fuel(Chain::<_>::spec_len, 3);
}

/// One witness decides; none and several do not.
pub proof fn law_one_witness(witnesses: Chain<WitnessSelection>)
    ensures
        witnesses.spec_len() == 0 ==> unique_witness(witnesses) == Err::<
            WitnessSelection,
            SolveFailure,
        >(SolveFailure::Missing),
        witnesses.spec_len() == 1 ==> unique_witness(witnesses) == Ok::<
            WitnessSelection,
            SolveFailure,
        >(witnesses.seq()[0]),
        witnesses.spec_len() > 1 ==> (match unique_witness(witnesses) {
            Err(failure) => failure is Ambiguous,
            Ok(_) => false,
        }),
{
    reveal_with_fuel(Chain::<_>::spec_len, 3);
    reveal_with_fuel(Chain::<_>::seq, 3);
    if witnesses is Link {
        let rest = witnesses.without_last();
        assert(witnesses.seq() == rest.seq().push(witnesses->0.item));
        assert(rest.spec_len() == 0 ==> rest is Empty);
    }
}

/// A definition can be named from a module if it is public or the module sees
/// what is private where it stands.
pub proof fn law_visible_names(program: &Program, module: ModuleId, definition: DefId)
    ensures
        match crate::hir::at(program.definitions@, definition.0) {
            None => !program.may_name(module, definition),
            Some(found) => {
                &&& found.visibility == Visibility::Public ==> program.may_name(module, definition)
                &&& found.visibility != Visibility::Public ==> program.may_name(module, definition)
                    == program.sees_private(module, found.module)
            },
        },
{
}

/// Why a type does not implement a concept is told by a code of its own.
pub proof fn law_failure_codes(failure: SolveFailure)
    ensures
        failure is Missing ==> failure_code(failure) == "MissingConformance",
        failure is Ambiguous ==> failure_code(failure) == "DuplicateConformance",
        failure is Cycle ==> failure_code(failure) == "ConformanceResolutionCycle",
        !(failure is Missing) && !(failure is Ambiguous) && !(failure is Cycle) ==> failure_code(
            failure,
        ) == "DynAssociatedTypeMismatch",
{
}

/// Every type constructor takes one type, but for the result's two.
pub proof fn law_constructor_arity(constructor: Constructor)
    ensures
        constructor_arity(constructor) == (match constructor {
            Constructor::Fallible => 2usize,
            Constructor::Optional => 1,
            Constructor::List => 1,
            Constructor::TextMap => 1,
            Constructor::Task => 1,
            Constructor::TaskOutcome => 1,
        }),
{
}

/// A result is kept exactly if it is a number of the language.
pub proof fn law_numbers_in_range(value: int)
    ensures
        match in_range(value) {
            Some(number) => number == value,
            None => value < -0x8000_0000_0000_0000 || value > 0x7fff_ffff_ffff_ffff,
        },
{
}

/// A description is refused in this order: for its version, for a size or an
/// offset that no object can have, and for its form.
pub proof fn law_refused_descriptions(layout: LoomTypedJsonLayout, abi: JsonAbi)
    ensures
        (layout.fault(abi) == Some(FormatStatus::AbiMismatch)) == (layout.abi_version
            != abi.version),
        layout.fault(abi) is None || layout.fault(abi) == Some(FormatStatus::DescriptorInvalid)
            ==> layout.abi_version == abi.version && layout.json_size <= abi.max_object_bytes
            && layout.tag_offset <= abi.max_object_bytes && layout.bool_payload_offset
            <= abi.max_object_bytes && layout.number_payload_offset <= abi.max_object_bytes
            && layout.text_payload_offset <= abi.max_object_bytes && layout.array_payload_offset
            <= abi.max_object_bytes && layout.object_payload_offset <= abi.max_object_bytes
            && layout.list_length_offset <= abi.max_object_bytes && layout.list_capacity_offset
            <= abi.max_object_bytes && layout.list_data_offset <= abi.max_object_bytes
            && layout.list_element_stride <= abi.max_object_bytes && layout.map_length_offset
            <= abi.max_object_bytes && layout.map_data_offset <= abi.max_object_bytes
            && layout.map_entry_stride <= abi.max_object_bytes && layout.map_key_offset
            <= abi.max_object_bytes && layout.map_value_offset <= abi.max_object_bytes,
{
    reveal(LoomTypedJsonLayout::values_fit);
}

/// A value is formatted only from valid arguments and a sound description, and
/// a text is never longer than its object has room for.
pub proof fn law_formatted_values(
    abi: JsonAbi,
    arguments: FormatArguments,
    layout: LoomTypedJsonLayout,
    memory: Memory,
    object_limit: u64,
    outcome: FormatOutcome,
)
    requires
        is_outcome(abi, arguments, layout, memory, object_limit, outcome),
    ensures
        arguments.json == 0 || arguments.layout == 0 || arguments.output == 0 ==> outcome
            == FormatOutcome::Refused(FormatStatus::InvalidArgument),
        outcome is Text ==> arguments.valid(abi) && layout.fault(abi) is None
            && object_limit >= abi.text_header_size,
        (match outcome {
            FormatOutcome::Text(text, length) => length == text@.len() && crate::json_stage::byte_len(
                text@,
            ) + abi.text_header_size <= object_limit,
            _ => true,
        }),
        arguments.valid(abi) && layout.fault(abi) is Some ==> outcome == FormatOutcome::Refused(
            layout.fault(abi)->0,
        ),
{
}

} // verus!
