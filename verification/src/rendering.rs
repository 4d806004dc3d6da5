//! The texts of diagnostics, and the order in which they are given.

use vstd::prelude::*;

use crate::chain::Chain;
use crate::diagnostics::{Diagnostic, Message};
use crate::hir::{get, Program, Segment};
#[allow(unused_imports)]
use crate::hir::at;
use crate::ids::{DefId, GenericParamId, ModuleId, TyId};
use crate::literals::text_chars;
use crate::order::chars_less;
#[allow(unused_imports)]
use crate::order::{law_text_order, text_less};
use crate::ty::{BuiltinType, Mutability, TyData, TyInterner};
#[allow(unused_imports)]
use crate::ty::{all_below, ty_data, types_wf};

verus! {

fn push_text(out: &mut Vec<char>, text: &str)
    ensures
        final(out)@ == old(out)@ + text@,
{
    let mut chars = text_chars(text);
    out.append(&mut chars);
}

/// The name of a type of the language.
pub open spec fn builtin_name(builtin: BuiltinType) -> Seq<char> {
    match builtin {
        BuiltinType::Bool => "Bool"@,
        BuiltinType::Int => "Int"@,
        BuiltinType::Float => "Float"@,
        BuiltinType::Text => "Text"@,
        BuiltinType::Bytes => "Bytes"@,
        BuiltinType::Path => "Path"@,
        BuiltinType::Unit => "Unit"@,
        BuiltinType::ConstraintError => "ConstraintError"@,
        BuiltinType::ContractFault => "ContractFault"@,
        BuiltinType::TaskFault => "TaskFault"@,
        BuiltinType::Duration => "Duration"@,
    }
}

fn push_builtin(out: &mut Vec<char>, builtin: BuiltinType)
    ensures
        final(out)@ == old(out)@ + builtin_name(builtin),
{
    match builtin {
        BuiltinType::Bool => push_text(out, "Bool"),
        BuiltinType::Int => push_text(out, "Int"),
        BuiltinType::Float => push_text(out, "Float"),
        BuiltinType::Text => push_text(out, "Text"),
        BuiltinType::Bytes => push_text(out, "Bytes"),
        BuiltinType::Path => push_text(out, "Path"),
        BuiltinType::Unit => push_text(out, "Unit"),
        BuiltinType::ConstraintError => push_text(out, "ConstraintError"),
        BuiltinType::ContractFault => push_text(out, "ContractFault"),
        BuiltinType::TaskFault => push_text(out, "TaskFault"),
        BuiltinType::Duration => push_text(out, "Duration"),
    }
}

/// The name of a definition, or what stands for it.
pub open spec fn definition_text(
    program: &Program,
    definition: DefId,
    fallback: Seq<char>,
) -> Seq<char> {
    match program.name_of(definition) {
        Some(name) => name@,
        None => fallback,
    }
}

fn push_definition(out: &mut Vec<char>, program: &Program, definition: DefId, fallback: &str)
    ensures
        final(out)@ == old(out)@ + definition_text(program, definition, fallback@),
{
    match program.definition_name(definition) {
        Some(name) => push_text(out, name.as_str()),
        None => push_text(out, fallback),
    }
}

pub open spec fn module_text(program: &Program, module: ModuleId) -> Seq<char> {
    match at(program.modules@, module.0) {
        Some(found) => found.name@,
        None => Seq::empty(),
    }
}

fn push_module(out: &mut Vec<char>, program: &Program, module: ModuleId)
    ensures
        final(out)@ == old(out)@ + module_text(program, module),
{
    match get(&program.modules, module.0) {
        Some(found) => push_text(out, found.name.as_str()),
        None => {
            assert(out@ + Seq::<char>::empty() =~= out@);
        },
    }
}

pub open spec fn generic_text(program: &Program, parameter: GenericParamId) -> Seq<char> {
    match at(program.generic_params@, parameter.0) {
        Some(found) => found.name@,
        None => Seq::empty(),
    }
}

fn push_generic(out: &mut Vec<char>, program: &Program, parameter: GenericParamId)
    ensures
        final(out)@ == old(out)@ + generic_text(program, parameter),
{
    match get(&program.generic_params, parameter.0) {
        Some(found) => push_text(out, found.name.as_str()),
        None => {
            assert(out@ + Seq::<char>::empty() =~= out@);
        },
    }
}

/// The segments of a path, joined by dots.
pub open spec fn path_text(path: Chain<Segment>) -> Seq<char>
    decreases path,
{
    match path {
        Chain::Empty => Seq::empty(),
        Chain::Link(link) => if link.rest is Empty {
            link.item.name@
        } else {
            path_text(link.rest) + "."@ + link.item.name@
        },
    }
}

fn push_path(out: &mut Vec<char>, path: &Chain<Segment>)
    ensures
        final(out)@ == old(out)@ + path_text(*path),
    decreases path,
{
    match path {
        Chain::Empty => {
            assert(out@ + Seq::<char>::empty() =~= out@);
        },
        Chain::Link(link) => {
            if link.rest.is_empty() {
                push_text(out, link.item.name.as_str());
            } else {
                let ghost begun = out@;
                push_path(out, &link.rest);
                push_text(out, ".");
                push_text(out, link.item.name.as_str());
                assert(out@ =~= begun + (path_text(link.rest) + "."@ + link.item.name@));
            }
        },
    }
}

/// The digit of a value below ten.
pub open spec fn digit(value: nat) -> char {
    if value == 0 {
        '0'
    } else if value == 1 {
        '1'
    } else if value == 2 {
        '2'
    } else if value == 3 {
        '3'
    } else if value == 4 {
        '4'
    } else if value == 5 {
        '5'
    } else if value == 6 {
        '6'
    } else if value == 7 {
        '7'
    } else if value == 8 {
        '8'
    } else {
        '9'
    }
}

/// A number in decimal digits.
pub open spec fn decimal(value: nat) -> Seq<char>
    decreases value,
{
    if value < 10 {
        seq![digit(value)]
    } else {
        decimal(value / 10).push(digit(value % 10))
    }
}

fn digit_of(value: usize) -> (c: char)
    requires
        value < 10,
    ensures
        c == digit(value as nat),
{
    match value {
        0 => '0',
        1 => '1',
        2 => '2',
        3 => '3',
        4 => '4',
        5 => '5',
        6 => '6',
        7 => '7',
        8 => '8',
        _ => '9',
    }
}

fn push_decimal(out: &mut Vec<char>, value: usize)
    ensures
        final(out)@ == old(out)@ + decimal(value as nat),
    decreases value,
{
    let ghost begun = out@;
    if value < 10 {
        out.push(digit_of(value));
        assert(out@ =~= begun + decimal(value as nat));
    } else {
        push_decimal(out, value / 10);
        out.push(digit_of(value % 10));
        assert(out@ =~= begun + decimal(value as nat));
    }
}

/// How a type is named in a diagnostic.
pub open spec fn type_text(program: &Program, types: Seq<TyData>, ty: TyId) -> Seq<char>
    decreases ty.0, 1nat, 0nat,
    when types_wf(types)
{
    match ty_data(types, ty) {
        TyData::Error => "<error>"@,
        TyData::Never => "Never"@,
        TyData::Builtin(builtin) => builtin_name(builtin),
        TyData::Tuple(elements) => "("@ + type_texts(program, types, elements, ty.0) + ")"@,
        TyData::List(element) => "List["@ + type_text(program, types, element) + "]"@,
        TyData::TextMap(value) => "TextMap["@ + type_text(program, types, value) + "]"@,
        TyData::Option(element) => "Option["@ + type_text(program, types, element) + "]"@,
        TyData::Result { ok, error } => "Result["@ + type_text(program, types, ok) + ", "@
            + type_text(program, types, error) + "]"@,
        TyData::Task(output) => "Task["@ + type_text(program, types, output) + "]"@,
        TyData::TaskOutcome(output) => "TaskOutcome["@ + type_text(program, types, output) + "]"@,
        TyData::Nominal { definition, arguments } => if arguments is Empty {
            definition_text(program, definition, "<anonymous>"@)
        } else {
            definition_text(program, definition, "<anonymous>"@) + "["@ + type_texts(
                program,
                types,
                arguments,
                ty.0,
            ) + "]"@
        },
        TyData::Param(parameter) => generic_text(program, parameter),
        TyData::SelfType(_) => "Self"@,
        TyData::Projection { self_ty: _, concept: _, associated_type: _ } => "<associated type>"@,
        TyData::DynTarget(_) => "dyn concept"@,
        TyData::View { mutability, target: _ } => match mutability {
            Mutability::ReadOnly => "dyn concept (ReadOnly receiver)"@,
            Mutability::Mutable => "dyn concept (Mutable receiver)"@,
        },
    }
}

/// The names of types, separated by commas.
pub open spec fn type_texts(
    program: &Program,
    types: Seq<TyData>,
    list: Chain<TyId>,
    limit: u32,
) -> Seq<char>
    decreases limit, 0nat, list.spec_len(),
    when types_wf(types) && all_below(list, limit as int)
{
    match list {
        Chain::Empty => Seq::empty(),
        Chain::Link(link) => if link.rest is Empty {
            type_text(program, types, link.item)
        } else {
            type_texts(program, types, link.rest, limit) + ", "@ + type_text(
                program,
                types,
                link.item,
            )
        },
    }
}

fn push_element(
    out: &mut Vec<char>,
    program: &Program,
    types: &TyInterner,
    front: &str,
    element: TyId,
    limit: u32,
)
    requires
        types_wf(types@),
        element.0 < limit,
    ensures
        final(out)@ == old(out)@ + (front@ + type_text(program, types@, element) + "]"@),
    decreases limit, 0nat, 0nat,
{
    let ghost begun = out@;
    push_text(out, front);
    push_type(out, program, types, element);
    push_text(out, "]");
    assert(out@ =~= begun + (front@ + type_text(program, types@, element) + "]"@));
}

fn push_type(out: &mut Vec<char>, program: &Program, types: &TyInterner, ty: TyId)
    requires
        types_wf(types@),
    ensures
        final(out)@ == old(out)@ + type_text(program, types@, ty),
    decreases ty.0, 1nat, 0nat,
{
    let ghost begun = out@;
    match types.data(ty) {
        TyData::Error => push_text(out, "<error>"),
        TyData::Never => push_text(out, "Never"),
        TyData::Builtin(builtin) => push_builtin(out, *builtin),
        TyData::Tuple(elements) => {
            push_text(out, "(");
            push_types(out, program, types, elements, ty.0);
            push_text(out, ")");
            assert(out@ =~= begun + ("("@ + type_texts(program, types@, *elements, ty.0) + ")"@));
        },
        TyData::List(element) => push_element(out, program, types, "List[", *element, ty.0),
        TyData::TextMap(value) => push_element(out, program, types, "TextMap[", *value, ty.0),
        TyData::Option(element) => push_element(out, program, types, "Option[", *element, ty.0),
        TyData::Result { ok, error } => {
            push_text(out, "Result[");
            push_type(out, program, types, *ok);
            push_text(out, ", ");
            push_type(out, program, types, *error);
            push_text(out, "]");
            assert(out@ =~= begun + ("Result["@ + type_text(program, types@, *ok) + ", "@
                + type_text(program, types@, *error) + "]"@));
        },
        TyData::Task(output) => push_element(out, program, types, "Task[", *output, ty.0),
        TyData::TaskOutcome(output) => push_element(
            out,
            program,
            types,
            "TaskOutcome[",
            *output,
            ty.0,
        ),
        TyData::Nominal { definition, arguments } => {
            push_definition(out, program, *definition, "<anonymous>");
            if !arguments.is_empty() {
                push_text(out, "[");
                push_types(out, program, types, arguments, ty.0);
                push_text(out, "]");
                assert(out@ =~= begun + (definition_text(program, *definition, "<anonymous>"@)
                    + "["@ + type_texts(program, types@, *arguments, ty.0) + "]"@));
            }
        },
        TyData::Param(parameter) => push_generic(out, program, *parameter),
        TyData::SelfType(_) => push_text(out, "Self"),
        TyData::Projection { self_ty: _, concept: _, associated_type: _ } => push_text(
            out,
            "<associated type>",
        ),
        TyData::DynTarget(_) => push_text(out, "dyn concept"),
        TyData::View { mutability, target: _ } => match mutability {
            Mutability::ReadOnly => push_text(out, "dyn concept (ReadOnly receiver)"),
            Mutability::Mutable => push_text(out, "dyn concept (Mutable receiver)"),
        },
    }
}

fn push_types(
    out: &mut Vec<char>,
    program: &Program,
    types: &TyInterner,
    list: &Chain<TyId>,
    limit: u32,
)
    requires
        types_wf(types@),
        all_below(*list, limit as int),
    ensures
        final(out)@ == old(out)@ + type_texts(program, types@, *list, limit),
    decreases limit, 0nat, list.spec_len(),
{
    let ghost begun = out@;
    match list {
        Chain::Empty => {
            assert(out@ + Seq::<char>::empty() =~= out@);
        },
        Chain::Link(link) => {
            if link.rest.is_empty() {
                push_type(out, program, types, link.item);
            } else {
                push_types(out, program, types, &link.rest, limit);
                push_text(out, ", ");
                push_type(out, program, types, link.item);
                assert(out@ =~= begun + (type_texts(program, types@, link.rest, limit) + ", "@
                    + type_text(program, types@, link.item)));
            }
        },
    }
}

/// The names of definitions in quotes, separated by commas.
pub open spec fn definition_names(
    program: &Program,
    list: Chain<DefId>,
    fallback: Seq<char>,
) -> Seq<char>
    decreases list,
{
    match list {
        Chain::Empty => Seq::empty(),
        Chain::Link(link) => (if link.rest is Empty {
            "`"@
        } else {
            definition_names(program, link.rest, fallback) + ", `"@
        }) + definition_text(program, link.item, fallback) + "`"@,
    }
}

fn push_definition_names(
    out: &mut Vec<char>,
    program: &Program,
    list: &Chain<DefId>,
    fallback: &str,
)
    ensures
        final(out)@ == old(out)@ + definition_names(program, *list, fallback@),
    decreases list,
{
    let ghost begun = out@;
    match list {
        Chain::Empty => {
            assert(out@ + Seq::<char>::empty() =~= out@);
        },
        Chain::Link(link) => {
            if link.rest.is_empty() {
                push_text(out, "`");
            } else {
                push_definition_names(out, program, &link.rest, fallback);
                push_text(out, ", `");
            }
            push_definition(out, program, link.item, fallback);
            push_text(out, "`");
            assert(out@ =~= begun + definition_names(program, *list, fallback@));
        },
    }
}

/// The names of modules, separated by arrows.
pub open spec fn module_names(program: &Program, list: Chain<ModuleId>) -> Seq<char>
    decreases list,
{
    match list {
        Chain::Empty => Seq::empty(),
        Chain::Link(link) => if link.rest is Empty {
            module_text(program, link.item)
        } else {
            module_names(program, link.rest) + " -> "@ + module_text(program, link.item)
        },
    }
}

fn push_module_names(out: &mut Vec<char>, program: &Program, list: &Chain<ModuleId>)
    ensures
        final(out)@ == old(out)@ + module_names(program, *list),
    decreases list,
{
    let ghost begun = out@;
    match list {
        Chain::Empty => {
            assert(out@ + Seq::<char>::empty() =~= out@);
        },
        Chain::Link(link) => {
            if link.rest.is_empty() {
                push_module(out, program, link.item);
            } else {
                push_module_names(out, program, &link.rest);
                push_text(out, " -> ");
                push_module(out, program, link.item);
                assert(out@ =~= begun + module_names(program, *list));
            }
        },
    }
}

/// The text of a message.
pub open spec fn message_text(
    program: &Program,
    types: Seq<TyData>,
    message: Message,
) -> Seq<char> {
    match message {
        Message::Text(a) => a@,
        Message::Subject(a, b) => "this "@ + a@ + " "@ + b@,
        Message::Name(a, b, c) => a@ + b@ + c@,
        Message::Names(a, b, c, d, e) => a@ + b@ + c@ + d@ + e@,
        Message::Path(a, b, c) => a@ + path_text(b) + c@,
        Message::PathAndName(a, b, c, d, e) => a@ + path_text(b) + c@ + d@ + e@,
        Message::Definition(a, b, c, d) => a@ + definition_text(program, b, d@) + c@,
        Message::Definitions(a, b, c, d, e, f) => a@ + definition_text(program, b, f@) + c@
            + definition_text(program, d, f@) + e@,
        Message::DefinitionList(a, b, c, d) => a@ + definition_names(program, b, d@) + c@,
        Message::ModuleList(a, b) => a@ + module_names(program, b),
        Message::NameAndModule(a, b, c, d, e) => a@ + b@ + c@ + module_text(program, d) + e@,
        Message::ModuleAndName(a, b, c, d, e) => a@ + module_text(program, b) + c@ + d@ + e@,
        Message::GenericParam(a, b, c) => a@ + generic_text(program, b) + c@,
        Message::Type(a, b, c) => a@ + type_text(program, types, b) + c@,
        Message::NameAndType(a, b, c, d, e) => a@ + b@ + c@ + type_text(program, types, d) + e@,
        Message::Types(a, b, c, d, e) => a@ + type_text(program, types, b) + c@ + type_text(
            program,
            types,
            d,
        ) + e@,
        Message::Counts(a, b, c, d, e) => a@ + decimal(b as nat) + c@ + decimal(d as nat) + e@,
        Message::PathCounts(a, b, c, d, e, f, g) => a@ + path_text(b) + c@ + decimal(d as nat) + e@
            + decimal(f as nat) + g@,
    }
}

/// Writes the text of a message.
pub fn render_message(program: &Program, types: &TyInterner, message: &Message) -> (text: Vec<
    char,
>)
    requires
        types_wf(types@),
    ensures
        text@ == message_text(program, types@, *message),
{
    let mut out: Vec<char> = Vec::new();
    match message {
        Message::Text(a) => {
            push_text(&mut out, a);
            assert(out@ =~= a@);
        },
        Message::Subject(a, b) => {
            push_text(&mut out, "this ");
            push_text(&mut out, a);
            push_text(&mut out, " ");
            push_text(&mut out, b);
            assert(out@ =~= "this "@ + a@ + " "@ + b@);
        },
        Message::Name(a, b, c) => {
            push_text(&mut out, a);
            push_text(&mut out, b.as_str());
            push_text(&mut out, c);
            assert(out@ =~= a@ + b@ + c@);
        },
        Message::Names(a, b, c, d, e) => {
            push_text(&mut out, a);
            push_text(&mut out, b.as_str());
            push_text(&mut out, c);
            push_text(&mut out, d.as_str());
            push_text(&mut out, e);
            assert(out@ =~= a@ + b@ + c@ + d@ + e@);
        },
        Message::Path(a, b, c) => {
            push_text(&mut out, a);
            push_path(&mut out, b);
            push_text(&mut out, c);
            assert(out@ =~= a@ + path_text(*b) + c@);
        },
        Message::PathAndName(a, b, c, d, e) => {
            push_text(&mut out, a);
            push_path(&mut out, b);
            push_text(&mut out, c);
            push_text(&mut out, d.as_str());
            push_text(&mut out, e);
            assert(out@ =~= a@ + path_text(*b) + c@ + d@ + e@);
        },
        Message::Definition(a, b, c, d) => {
            push_text(&mut out, a);
            push_definition(&mut out, program, *b, d);
            push_text(&mut out, c);
            assert(out@ =~= a@ + definition_text(program, *b, d@) + c@);
        },
        Message::Definitions(a, b, c, d, e, f) => {
            push_text(&mut out, a);
            push_definition(&mut out, program, *b, f);
            push_text(&mut out, c);
            push_definition(&mut out, program, *d, f);
            push_text(&mut out, e);
            assert(out@ =~= a@ + definition_text(program, *b, f@) + c@ + definition_text(
                program,
                *d,
                f@,
            ) + e@);
        },
        Message::DefinitionList(a, b, c, d) => {
            push_text(&mut out, a);
            push_definition_names(&mut out, program, b, d);
            push_text(&mut out, c);
            assert(out@ =~= a@ + definition_names(program, *b, d@) + c@);
        },
        Message::ModuleList(a, b) => {
            push_text(&mut out, a);
            push_module_names(&mut out, program, b);
            assert(out@ =~= a@ + module_names(program, *b));
        },
        Message::NameAndModule(a, b, c, d, e) => {
            push_text(&mut out, a);
            push_text(&mut out, b.as_str());
            push_text(&mut out, c);
            push_module(&mut out, program, *d);
            push_text(&mut out, e);
            assert(out@ =~= a@ + b@ + c@ + module_text(program, *d) + e@);
        },
        Message::ModuleAndName(a, b, c, d, e) => {
            push_text(&mut out, a);
            push_module(&mut out, program, *b);
            push_text(&mut out, c);
            push_text(&mut out, d.as_str());
            push_text(&mut out, e);
            assert(out@ =~= a@ + module_text(program, *b) + c@ + d@ + e@);
        },
        Message::GenericParam(a, b, c) => {
            push_text(&mut out, a);
            push_generic(&mut out, program, *b);
            push_text(&mut out, c);
            assert(out@ =~= a@ + generic_text(program, *b) + c@);
        },
        Message::Type(a, b, c) => {
            push_text(&mut out, a);
            push_type(&mut out, program, types, *b);
            push_text(&mut out, c);
            assert(out@ =~= a@ + type_text(program, types@, *b) + c@);
        },
        Message::NameAndType(a, b, c, d, e) => {
            push_text(&mut out, a);
            push_text(&mut out, b.as_str());
            push_text(&mut out, c);
            push_type(&mut out, program, types, *d);
            push_text(&mut out, e);
            assert(out@ =~= a@ + b@ + c@ + type_text(program, types@, *d) + e@);
        },
        Message::Types(a, b, c, d, e) => {
            push_text(&mut out, a);
            push_type(&mut out, program, types, *b);
            push_text(&mut out, c);
            push_type(&mut out, program, types, *d);
            push_text(&mut out, e);
            assert(out@ =~= a@ + type_text(program, types@, *b) + c@ + type_text(
                program,
                types@,
                *d,
            ) + e@);
        },
        Message::Counts(a, b, c, d, e) => {
            push_text(&mut out, a);
            push_decimal(&mut out, *b);
            push_text(&mut out, c);
            push_decimal(&mut out, *d);
            push_text(&mut out, e);
            assert(out@ =~= a@ + decimal(*b as nat) + c@ + decimal(*d as nat) + e@);
        },
        Message::PathCounts(a, b, c, d, e, f, g) => {
            push_text(&mut out, a);
            push_path(&mut out, b);
            push_text(&mut out, c);
            push_decimal(&mut out, *d);
            push_text(&mut out, e);
            push_decimal(&mut out, *f);
            push_text(&mut out, g);
            assert(out@ =~= a@ + path_text(*b) + c@ + decimal(*d as nat) + e@ + decimal(*f as nat)
                + g@);
        },
    }
    out
}

/// The first diagnostic is given before the second: by the place that it
/// points at, then by its code, then by its text.
pub open spec fn given_before(
    program: &Program,
    types: Seq<TyData>,
    left: Diagnostic,
    right: Diagnostic,
) -> bool {
    let a = left.primary;
    let b = right.primary;
    if a.file != b.file {
        a.file < b.file
    } else if a.start != b.start {
        a.start < b.start
    } else if a.end != b.end {
        a.end < b.end
    } else if left.code@ != right.code@ {
        text_less(left.code@, right.code@)
    } else {
        text_less(
            message_text(program, types, left.message),
            message_text(program, types, right.message),
        )
    }
}

fn is_given_before(
    program: &Program,
    types: &TyInterner,
    left: &Diagnostic,
    right: &Diagnostic,
) -> (before: bool)
    requires
        types_wf(types@),
    ensures
        before == given_before(program, types@, *left, *right),
{
    let a = left.primary;
    let b = right.primary;
    if a.file != b.file {
        a.file < b.file
    } else if a.start != b.start {
        a.start < b.start
    } else if a.end != b.end {
        a.end < b.end
    } else {
        let left_code = text_chars(left.code);
        let right_code = text_chars(right.code);
        let less = chars_less(&left_code, &right_code);
        let greater = chars_less(&right_code, &left_code);
        proof {
            law_text_order(left.code@, right.code@, right.code@);
            law_text_order(right.code@, left.code@, left.code@);
        }
        if less || greater {
            less
        } else {
            chars_less(
                &render_message(program, types, &left.message),
                &render_message(program, types, &right.message),
            )
        }
    }
}

pub open spec fn diagnostic_placed(
    program: &Program,
    types: Seq<TyData>,
    list: Chain<Diagnostic>,
    diagnostic: Diagnostic,
) -> Chain<Diagnostic>
    decreases list,
{
    match list {
        Chain::Empty => list.pushed(diagnostic),
        Chain::Link(link) => if given_before(program, types, diagnostic, link.item) {
            diagnostic_placed(program, types, link.rest, diagnostic).pushed(link.item)
        } else {
            list.pushed(diagnostic)
        },
    }
}

fn place_diagnostic(
    program: &Program,
    types: &TyInterner,
    list: &Chain<Diagnostic>,
    diagnostic: &Diagnostic,
) -> (placed: Chain<Diagnostic>)
    requires
        types_wf(types@),
    ensures
        placed == diagnostic_placed(program, types@, *list, *diagnostic),
    decreases list,
{
    match list {
        Chain::Empty => list.clone().with(diagnostic.clone()),
        Chain::Link(link) => if is_given_before(program, types, diagnostic, &link.item) {
            place_diagnostic(program, types, &link.rest, diagnostic).with(link.item.clone())
        } else {
            list.clone().with(diagnostic.clone())
        },
    }
}

/// The diagnostics in the order in which they are given; those that tie stay
/// as they were.
pub open spec fn diagnostics_sorted(
    program: &Program,
    types: Seq<TyData>,
    list: Chain<Diagnostic>,
) -> Chain<Diagnostic>
    decreases list,
{
    match list {
        Chain::Empty => Chain::Empty,
        Chain::Link(link) => diagnostic_placed(
            program,
            types,
            diagnostics_sorted(program, types, link.rest),
            link.item,
        ),
    }
}

/// Puts diagnostics in the order in which they are given.
pub fn sort_diagnostics(program: &Program, types: &TyInterner, list: &Chain<Diagnostic>) -> (sorted:
    Chain<Diagnostic>)
    requires
        types_wf(types@),
    ensures
        sorted == diagnostics_sorted(program, types@, *list),
    decreases list,
{
    match list {
        Chain::Empty => Chain::new(),
        Chain::Link(link) => place_diagnostic(
            program,
            types,
            &sort_diagnostics(program, types, &link.rest),
            &link.item,
        ),
    }
}

/// No diagnostic of the list is given before an earlier one.
pub open spec fn in_order(program: &Program, types: Seq<TyData>, list: Chain<Diagnostic>) -> bool
    decreases list,
{
    match list {
        Chain::Empty => true,
        Chain::Link(link) => in_order(program, types, link.rest) && none_behind(
            program,
            types,
            link.rest,
            link.item,
        ),
    }
}

/// No diagnostic of the list is given behind another.
pub open spec fn none_behind(
    program: &Program,
    types: Seq<TyData>,
    list: Chain<Diagnostic>,
    diagnostic: Diagnostic,
) -> bool
    decreases list,
{
    match list {
        Chain::Empty => true,
        Chain::Link(link) => !given_before(program, types, diagnostic, link.item) && none_behind(
            program,
            types,
            link.rest,
            diagnostic,
        ),
    }
}

/// The order of diagnostics is asymmetric, and what is not before one that is
/// not before a third is not before the third.
pub proof fn law_given_order(
    program: &Program,
    types: Seq<TyData>,
    a: Diagnostic,
    b: Diagnostic,
    c: Diagnostic,
)
    ensures
        given_before(program, types, a, b) ==> !given_before(program, types, b, a),
        !given_before(program, types, a, b) && !given_before(program, types, b, c)
            ==> !given_before(program, types, a, c),
{
    let ta = message_text(program, types, a.message);
    let tb = message_text(program, types, b.message);
    let tc = message_text(program, types, c.message);
    law_text_order(a.code@, b.code@, c.code@);
    law_text_order(a.code@, c.code@, b.code@);
    law_text_order(b.code@, a.code@, c.code@);
    law_text_order(c.code@, b.code@, a.code@);
    law_text_order(b.code@, c.code@, a.code@);
    law_text_order(c.code@, a.code@, b.code@);
    law_text_order(ta, tb, tc);
    law_text_order(ta, tc, tb);
    law_text_order(tb, ta, tc);
    law_text_order(tc, tb, ta);
    law_text_order(tb, tc, ta);
    law_text_order(tc, ta, tb);
}

proof fn lemma_none_behind_later(
    program: &Program,
    types: Seq<TyData>,
    list: Chain<Diagnostic>,
    earlier: Diagnostic,
    later: Diagnostic,
)
    requires
        none_behind(program, types, list, earlier),
        !given_before(program, types, later, earlier),
    ensures
        none_behind(program, types, list, later),
    decreases list,
{
    if list is Link {
        let last = list->0.item;
        law_given_order(program, types, later, earlier, last);
        lemma_none_behind_later(program, types, list.without_last(), earlier, later);
    }
}

proof fn lemma_placed_none_behind(
    program: &Program,
    types: Seq<TyData>,
    list: Chain<Diagnostic>,
    diagnostic: Diagnostic,
    limit: Diagnostic,
)
    requires
        none_behind(program, types, list, limit),
        !given_before(program, types, limit, diagnostic),
    ensures
        none_behind(program, types, diagnostic_placed(program, types, list, diagnostic), limit),
    decreases list,
{
    if list is Link {
        lemma_placed_none_behind(program, types, list.without_last(), diagnostic, limit);
    }
}

proof fn lemma_placed(
    program: &Program,
    types: Seq<TyData>,
    list: Chain<Diagnostic>,
    diagnostic: Diagnostic,
)
    requires
        in_order(program, types, list),
    ensures
        in_order(program, types, diagnostic_placed(program, types, list, diagnostic)),
        diagnostic_placed(program, types, list, diagnostic).seq().to_multiset()
            == list.seq().to_multiset().insert(diagnostic),
    decreases list,
{
    broadcast use vstd::seq_lib::group_to_multiset_ensures;

    if list is Link {
        let rest = list.without_last();
        let last = list->0.item;
        if given_before(program, types, diagnostic, last) {
            lemma_placed(program, types, rest, diagnostic);
            law_given_order(program, types, diagnostic, last, last);
            lemma_placed_none_behind(program, types, rest, diagnostic, last);
            assert(list.seq() =~= rest.seq().push(last));
            assert(rest.seq().to_multiset().insert(diagnostic).insert(last)
                =~= rest.seq().to_multiset().insert(last).insert(diagnostic));
        } else {
            lemma_none_behind_later(program, types, rest, last, diagnostic);
        }
    }
}

/// Sorting puts diagnostics in order and keeps each of them.
pub proof fn law_diagnostics_sorted(
    program: &Program,
    types: Seq<TyData>,
    list: Chain<Diagnostic>,
)
    ensures
        in_order(program, types, diagnostics_sorted(program, types, list)),
        diagnostics_sorted(program, types, list).seq().to_multiset() == list.seq().to_multiset(),
    decreases list,
{
    broadcast use vstd::seq_lib::group_to_multiset_ensures;

    if list is Link {
        let rest = list.without_last();
        law_diagnostics_sorted(program, types, rest);
        let last = list->0.item;
        lemma_placed(program, types, diagnostics_sorted(program, types, rest), last);
    }
}

} // verus!
