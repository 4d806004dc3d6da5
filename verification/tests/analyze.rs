//! Programs in the source language, read by a small front end, and what the
//! analysis says of them.

use loom_sema::analysis::{analyze, analyze_reusing_bodies, Analysis};
use loom_sema::chain::{Chain, Same};
use loom_sema::conformance::{WitnessSelection, WitnessSource};
use loom_sema::constants::CONSTANT_EVALUATION_DEPTH_LIMIT;
use loom_sema::def_map::{DefMapBuild, Namespace};
use loom_sema::hir::{
    BinaryOp, BindingRef, Body, BodyKind, CallableSource, ConceptRef, Definition, DefinitionKind,
    Expr, ExprKind, GenericParam, Import, ImportTarget, Literal, Local, MatchArm, Module, Param,
    PackageId, Path, Pattern, PatternKind, Program, ReceiverKind, RecordFieldValue, Resolved, Segment,
    Statement, TypeArgumentRef, TypeRef, TypeRefKind, UnaryOp, Visibility,
};
use loom_sema::ids::{
    BodyId, DefId, ExprId, GenericParamId, LocalId, ModuleId, ParamId, PatternId, Span, TypeRefId,
};
use loom_sema::rendering::render_message;
use loom_sema::semantics::{
    BodySemantics, CallTarget, CanonicalConcepts, ConstantValue, ConstructionCheck, FloatFact,
    RuntimeCheck, Signature, ViewSource,
};
use loom_sema::ty::TyData;

const LANGUAGE_VERSION: &str = "1";

// Reading source text.

#[derive(Clone, Debug, PartialEq)]
enum Kind {
    Word(String),
    Int(String),
    Float(String),
    Text(String),
    Sign(&'static str),
    End,
}

#[derive(Clone, Debug)]
struct Token {
    kind: Kind,
    start: u32,
    end: u32,
    begins_line: bool,
}

const SIGNS: [&str; 28] = [
    "=>", "==", "!=", "<=", ">=", "&&", "||", "..", "{", "}", "(", ")", "[", "]", ",", ".", ":",
    "=", "<", ">", "+", "-", "*", "/", "!", "?", ";", "|",
];

fn read(source: &str) -> Vec<Token> {
    let bytes = source.as_bytes();
    let mut tokens = vec![];
    let mut at = 0;
    let mut begins_line = true;
    while at < bytes.len() {
        let byte = bytes[at];
        if byte == b'\n' {
            begins_line = true;
            at += 1;
            continue;
        }
        if byte.is_ascii_whitespace() {
            at += 1;
            continue;
        }
        let start = at;
        let kind = if byte.is_ascii_alphabetic() || byte == b'_' {
            while at < bytes.len() && (bytes[at].is_ascii_alphanumeric() || bytes[at] == b'_') {
                at += 1;
            }
            Kind::Word(source[start..at].to_owned())
        } else if byte.is_ascii_digit() {
            while at < bytes.len() && bytes[at].is_ascii_digit() {
                at += 1;
            }
            let fraction =
                at + 1 < bytes.len() && bytes[at] == b'.' && bytes[at + 1].is_ascii_digit();
            if fraction {
                at += 1;
                while at < bytes.len() && bytes[at].is_ascii_digit() {
                    at += 1;
                }
                Kind::Float(source[start..at].to_owned())
            } else {
                Kind::Int(source[start..at].to_owned())
            }
        } else if byte == b'`' {
            at += 1;
            while bytes[at] != b'`' {
                at += 1;
            }
            at += 1;
            Kind::Word(source[start + 1..at - 1].to_owned())
        } else if byte == b'"' {
            at += 1;
            while bytes[at] != b'"' {
                if bytes[at] == b'\\' {
                    at += 1;
                }
                at += 1;
            }
            at += 1;
            Kind::Text(source[start..at].to_owned())
        } else {
            let sign = SIGNS
                .iter()
                .find(|sign| source[at..].starts_with(**sign))
                .expect("a sign of the language");
            at += sign.len();
            Kind::Sign(sign)
        };
        tokens.push(Token {
            kind,
            start: start as u32,
            end: at as u32,
            begins_line,
        });
        begins_line = false;
    }
    tokens.push(Token {
        kind: Kind::End,
        start: at as u32,
        end: at as u32,
        begins_line: true,
    });
    tokens
}

const ITEM_WORDS: [&str; 12] = [
    "pub", "const", "type", "record", "enum", "fn", "test", "async", "dyn", "concept", "impl",
    "import",
];

/// A source file of a module.
struct Unit {
    module: &'static str,
    package: Package,
    source: String,
}

/// A package by its name, its version and the version of its language.
#[derive(Clone, Copy)]
struct Package {
    name: &'static str,
    version: &'static str,
    language: &'static str,
}

const STANDALONE: Package = Package {
    name: "",
    version: "0",
    language: LANGUAGE_VERSION,
};
const APPLICATION: Package = Package {
    name: "application",
    version: "0",
    language: LANGUAGE_VERSION,
};
const FOUNDATION: Package = Package {
    name: "foundation",
    version: "0",
    language: LANGUAGE_VERSION,
};
const COMPILER_STD: Package = Package {
    name: "std",
    version: LANGUAGE_VERSION,
    language: LANGUAGE_VERSION,
};

fn std_package(version: &'static str, language: &'static str) -> Package {
    Package {
        name: "std",
        version,
        language,
    }
}

/// A declaration at the top of a file: where its tokens are, and what it is.
struct Item {
    unit: usize,
    from: usize,
    to: usize,
    definition: Option<DefId>,
}

fn list<T>(items: Vec<T>) -> Chain<T> {
    Chain::from_vec(items)
}

fn items<T: Clone>(chain: &Chain<T>) -> Vec<T> {
    let mut result = Vec::new();
    let mut current = chain;
    while let Chain::Link(link) = current {
        result.push(link.item.clone());
        current = &link.rest;
    }
    result.reverse();
    result
}

fn no_signature() -> CallableSource {
    CallableSource {
        receiver: None,
        generic_params: list(vec![]),
        params: list(vec![]),
        return_ty: None,
        requires: list(vec![]),
        ensures: list(vec![]),
    }
}

struct Reader {
    tokens: Vec<Vec<Token>>,
    unit: usize,
    at: usize,
    module: ModuleId,
    program: Program,
    maps: Option<DefMapBuild>,
    generics: Vec<(String, GenericParamId)>,
    locals: Vec<Local>,
    expressions: u32,
    patterns: u32,
    largest_body: u32,
}

impl Reader {
    fn kind(&self) -> &Kind {
        &self.tokens[self.unit][self.at].kind
    }

    fn ahead(&self, distance: usize) -> &Kind {
        let last = self.tokens[self.unit].len() - 1;
        &self.tokens[self.unit][(self.at + distance).min(last)].kind
    }

    fn begins_line(&self) -> bool {
        self.tokens[self.unit][self.at].begins_line
    }

    fn start(&self) -> u32 {
        self.tokens[self.unit][self.at].start
    }

    fn end(&self) -> u32 {
        self.tokens[self.unit][self.at - 1].end
    }

    fn span(&self, start: u32) -> Span {
        Span {
            file: self.unit as u32,
            start,
            end: self.end(),
        }
    }

    fn is_word(&self, word: &str) -> bool {
        matches!(self.kind(), Kind::Word(found) if found == word)
    }

    fn is_sign(&self, sign: &str) -> bool {
        matches!(self.kind(), Kind::Sign(found) if *found == sign)
    }

    fn take_word(&mut self, word: &str) -> bool {
        let found = self.is_word(word);
        if found {
            self.at += 1;
        }
        found
    }

    fn take(&mut self, sign: &str) -> bool {
        let found = self.is_sign(sign);
        if found {
            self.at += 1;
        }
        found
    }

    fn expect(&mut self, sign: &str) {
        assert!(
            self.take(sign),
            "expected `{sign}`, found {:?} at {}",
            self.kind(),
            self.start()
        );
    }

    fn name(&mut self) -> String {
        match self.kind().clone() {
            Kind::Word(word) => {
                self.at += 1;
                word
            }
            other => panic!("expected a name, found {other:?} at {}", self.start()),
        }
    }

    // Names.

    fn binding(&self, namespace: Namespace, name: &String) -> Resolved {
        let maps = self.maps.as_ref().expect("the scopes are built");
        let map = maps.map(self.module).expect("the module has a scope");
        map.look_up(namespace, name, self.unit as u32)
    }

    fn path_of(&self, segments: Vec<Segment>) -> Path {
        let single = segments.len() == 1;
        let first = segments[0].name.clone();
        let resolve = |namespace: Namespace| {
            if single {
                self.binding(namespace, &first)
            } else {
                Resolved::Missing
            }
        };
        Path {
            value: resolve(Namespace::Value),
            ty: resolve(Namespace::Type),
            concept: resolve(Namespace::Concept),
            primitive: None,
            segments: list(segments),
        }
    }

    fn path(&mut self) -> Path {
        let segment = self.segment();
        self.path_of(vec![segment])
    }

    fn segment(&mut self) -> Segment {
        let start = self.start();
        let name = self.name();
        Segment {
            name,
            span: self.span(start),
        }
    }

    fn define(&mut self, name: Option<String>, kind: DefinitionKind, start: u32) -> DefId {
        let id = DefId(self.program.definitions.len() as u32);
        let span = self.span(start);
        self.program.definitions.push(Definition {
            name,
            module: self.module,
            visibility: Visibility::Public,
            kind,
            span,
        });
        id
    }

    fn set_kind(&mut self, definition: DefId, kind: DefinitionKind) {
        self.program.definitions[definition.0 as usize].kind = kind;
    }

    // Types.

    fn type_ref(&mut self, kind: TypeRefKind, start: u32) -> TypeRefId {
        let id = TypeRefId(self.program.type_refs.len() as u32);
        let span = self.span(start);
        self.program.type_refs.push(TypeRef { kind, span });
        id
    }

    fn bindings(&mut self) -> Chain<BindingRef> {
        let mut bindings = vec![];
        if self.take("[") {
            while !self.take("]") {
                let name = self.name();
                self.expect("=");
                let ty = self.ty();
                bindings.push(BindingRef { name, ty });
                self.take(",");
            }
        }
        list(bindings)
    }

    fn concept_ref(&mut self) -> ConceptRef {
        let path = self.path();
        let bindings = self.bindings();
        ConceptRef { path, bindings }
    }

    fn bounds(&mut self) -> Chain<ConceptRef> {
        let mut bounds = vec![];
        if self.take(":") {
            bounds.push(self.concept_ref());
            while self.take("+") {
                bounds.push(self.concept_ref());
            }
        }
        list(bounds)
    }

    fn ty(&mut self) -> TypeRefId {
        let start = self.start();
        if self.take("(") {
            let mut elements = vec![];
            while !self.take(")") {
                elements.push(self.ty());
                self.take(",");
            }
            return self.type_ref(TypeRefKind::Tuple(list(elements)), start);
        }
        if self.take_word("dyn") {
            let concept = self.concept_ref();
            return self.type_ref(TypeRefKind::Dyn(concept), start);
        }
        let ty = if self.take_word("Self") {
            self.type_ref(TypeRefKind::SelfType, start)
        } else {
            let first = self.segment();
            let mut segments = vec![first];
            while self.take(".") {
                segments.push(self.segment());
            }
            let path = self.path_of(segments);
            if self.take("[") {
                let mut arguments = vec![];
                while !self.take("]") {
                    let binds = matches!(self.ahead(1), Kind::Sign("="));
                    if binds {
                        let name = self.name();
                        self.expect("=");
                        let ty = self.ty();
                        arguments.push(TypeArgumentRef::Binding(BindingRef { name, ty }));
                    } else {
                        arguments.push(TypeArgumentRef::Type(self.ty()));
                    }
                    self.take(",");
                }
                let kind = TypeRefKind::Apply {
                    constructor: path,
                    arguments: list(arguments),
                };
                self.type_ref(kind, start)
            } else {
                self.type_ref(TypeRefKind::Path(path), start)
            }
        };
        if self.take(".") {
            let associated = self.name();
            let kind = TypeRefKind::Projection {
                self_ty: ty,
                concept: None,
                associated,
            };
            return self.type_ref(kind, start);
        }
        ty
    }

    fn generic_params(&mut self) -> Chain<GenericParamId> {
        let mut parameters = vec![];
        if self.take("[") {
            while !self.take("]") {
                let start = self.start();
                let name = self.name();
                let span = self.span(start);
                let id = GenericParamId(self.program.generic_params.len() as u32);
                self.program.generic_params.push(GenericParam {
                    name: name.clone(),
                    bounds: list(vec![]),
                    span,
                });
                self.generics.push((name, id));
                let bounds = self.bounds();
                self.program.generic_params[id.0 as usize].bounds = bounds;
                parameters.push(id);
                self.take(",");
            }
        }
        list(parameters)
    }

    // Expressions.

    fn make(&mut self, kind: ExprKind, start: u32) -> Expr {
        let id = ExprId(self.expressions);
        self.expressions += 1;
        Expr {
            id,
            span: self.span(start),
            kind,
        }
    }

    fn local(&mut self, name: String, mutable: bool, start: u32) -> LocalId {
        let id = LocalId(self.locals.len() as u32);
        let span = self.span(start);
        self.locals.push(Local {
            name,
            mutable,
            annotation: None,
            span,
        });
        id
    }

    fn body(&mut self, owner: DefId, kind: BodyKind, braced: bool) -> BodyId {
        self.locals = vec![];
        self.expressions = 0;
        self.patterns = 0;
        let start = self.start();
        let root = if braced {
            self.block()
        } else {
            self.expression(false)
        };
        self.largest_body = self.largest_body.max(self.expressions);
        let id = BodyId(self.program.bodies.len() as u32);
        let span = self.span(start);
        let locals = std::mem::take(&mut self.locals);
        self.program.bodies.push(Body {
            owner,
            kind,
            root,
            locals,
            span,
        });
        id
    }

    fn block(&mut self) -> Expr {
        let start = self.start();
        self.expect("{");
        let mut statements = vec![];
        while !self.take("}") {
            statements.push(self.statement());
        }
        let tail = match statements.pop() {
            Some(Statement::Expr(last)) => Some(Box::new(last)),
            Some(other) => {
                statements.push(other);
                None
            }
            None => None,
        };
        self.make(
            ExprKind::Block {
                statements: list(statements),
                tail,
            },
            start,
        )
    }

    fn statement(&mut self) -> Statement {
        let start = self.start();
        if self.take_word("let") {
            let first_start = self.start();
            let first = self.name();
            if self.is_sign(",") {
                let mut names = vec![(first, first_start)];
                while self.take(",") {
                    let next = self.start();
                    names.push((self.name(), next));
                }
                self.expect("=");
                let value = self.expression(true);
                let mut locals = vec![];
                for (name, at) in names {
                    locals.push(self.local(name, false, at));
                }
                return Statement::LetTuple {
                    locals: list(locals),
                    value,
                };
            }
            self.expect("=");
            let value = self.expression(true);
            let local = self.local(first, false, first_start);
            return Statement::Let { local, value };
        }
        if self.take_word("var") {
            let at = self.start();
            let name = self.name();
            self.expect("=");
            let value = self.expression(true);
            let local = self.local(name, true, at);
            return Statement::Let { local, value };
        }
        if self.take_word("scoped") {
            let at = self.start();
            let name = self.name();
            self.expect("=");
            let value = self.expression(true);
            let local = self.local(name, true, at);
            return Statement::Scoped { local, value };
        }
        if self.take_word("for") {
            let at = self.start();
            let name = self.name();
            assert!(self.take_word("in"));
            let from = self.expression(false);
            self.expect("..");
            let to = self.expression(false);
            let local = self.local(name, false, at);
            let body = self.block();
            return Statement::ForRange {
                local,
                start: from,
                end: to,
                body,
            };
        }
        if self.take_word("while") {
            let condition = self.expression(false);
            let body = self.block();
            return Statement::While { condition, body };
        }
        if self.take_word("break") {
            return Statement::Break {
                span: self.span(start),
            };
        }
        if self.take_word("continue") {
            return Statement::Continue {
                span: self.span(start),
            };
        }
        if self.take_word("defer") {
            let body = self.block();
            return Statement::Defer { body };
        }
        if self.take_word("discard") {
            return Statement::Discard(self.expression(true));
        }
        if self.take_word("assert") {
            return Statement::Assert(self.expression(true));
        }
        let target = self.expression(true);
        if self.is_sign("=") && !self.begins_line() {
            self.at += 1;
            let value = self.expression(true);
            let kind = ExprKind::Assign {
                target: Box::new(target),
                value: Box::new(value),
            };
            return Statement::Expr(self.make(kind, start));
        }
        Statement::Expr(target)
    }

    fn expression(&mut self, records: bool) -> Expr {
        self.binary(0, records)
    }

    fn operator(&self) -> Option<(BinaryOp, u32)> {
        if self.begins_line() {
            return None;
        }
        let Kind::Sign(sign) = self.kind() else {
            return None;
        };
        Some(match *sign {
            "||" => (BinaryOp::Or, 1),
            "&&" => (BinaryOp::And, 2),
            "==" => (BinaryOp::Equal, 3),
            "!=" => (BinaryOp::NotEqual, 3),
            "<" => (BinaryOp::Less, 4),
            "<=" => (BinaryOp::LessEqual, 4),
            ">" => (BinaryOp::Greater, 4),
            ">=" => (BinaryOp::GreaterEqual, 4),
            "+" => (BinaryOp::Add, 5),
            "-" => (BinaryOp::Subtract, 5),
            "*" => (BinaryOp::Multiply, 6),
            "/" => (BinaryOp::Divide, 6),
            _ => return None,
        })
    }

    fn binary(&mut self, least: u32, records: bool) -> Expr {
        let start = self.start();
        let mut left = self.unary(records);
        while let Some((op, strength)) = self.operator() {
            if strength <= least {
                break;
            }
            self.at += 1;
            let right = self.binary(strength, records);
            let kind = ExprKind::Binary {
                op,
                left: Box::new(left),
                right: Box::new(right),
            };
            left = self.make(kind, start);
        }
        left
    }

    fn unary(&mut self, records: bool) -> Expr {
        let start = self.start();
        let op = if self.take("-") {
            UnaryOp::Negate
        } else if self.take("!") {
            UnaryOp::Not
        } else {
            return self.postfix(records);
        };
        let operand = Box::new(self.unary(records));
        self.make(ExprKind::Unary { op, operand }, start)
    }

    fn arguments(&mut self) -> Chain<Expr> {
        let mut arguments = vec![];
        self.expect("(");
        while !self.take(")") {
            arguments.push(self.expression(true));
            self.take(",");
        }
        list(arguments)
    }

    fn postfix(&mut self, records: bool) -> Expr {
        let start = self.start();
        let mut value = self.primary(records);
        loop {
            if self.begins_line() {
                break;
            }
            if self.is_sign("(") || self.is_sign("[") {
                let mut type_arguments = vec![];
                if self.take("[") {
                    while !self.take("]") {
                        type_arguments.push(self.ty());
                        self.take(",");
                    }
                }
                let arguments = self.arguments();
                let kind = ExprKind::Call {
                    callee: Box::new(value),
                    type_arguments: list(type_arguments),
                    arguments,
                };
                value = self.make(kind, start);
            } else if self.take(".") {
                let name = self.name();
                let receiver = Box::new(value);
                let kind = if self.is_sign("(") && !self.begins_line() {
                    let arguments = self.arguments();
                    ExprKind::MethodCall {
                        receiver,
                        method: name,
                        type_arguments: list(vec![]),
                        arguments,
                    }
                } else {
                    ExprKind::Field { receiver, name }
                };
                value = self.make(kind, start);
            } else if self.take("?") {
                value = self.make(ExprKind::Propagate(Box::new(value)), start);
            } else {
                break;
            }
        }
        value
    }

    fn literal(&mut self) -> Option<Literal> {
        let literal = match self.kind().clone() {
            Kind::Int(text) => Literal::Int(text),
            Kind::Float(text) => {
                let bits = text.parse::<f64>().ok().map(f64::to_bits);
                Literal::Float(text, bits)
            }
            Kind::Text(text) => Literal::Text(text),
            Kind::Word(word) if word == "true" => Literal::Bool(true),
            Kind::Word(word) if word == "false" => Literal::Bool(false),
            Kind::Word(word) if word == "Unit" => Literal::Unit,
            _ => return None,
        };
        self.at += 1;
        Some(literal)
    }

    fn primary(&mut self, records: bool) -> Expr {
        let start = self.start();
        if let Some(literal) = self.literal() {
            return self.make(ExprKind::Literal(literal), start);
        }
        if self.take("(") {
            let first = self.expression(true);
            if !self.is_sign(",") {
                self.expect(")");
                return first;
            }
            let mut elements = vec![first];
            while self.take(",") {
                elements.push(self.expression(true));
            }
            self.expect(")");
            return self.make(ExprKind::Tuple(list(elements)), start);
        }
        if self.take("[") {
            let mut elements = vec![];
            while !self.take("]") {
                elements.push(self.expression(true));
                self.take(",");
            }
            return self.make(ExprKind::List(list(elements)), start);
        }
        if self.is_sign("{") {
            return self.block();
        }
        if self.take("<") {
            let self_ty = self.ty();
            assert!(self.take_word("as"));
            let concept = self.concept_ref();
            self.expect(">");
            self.expect(".");
            let method = self.name();
            let arguments = self.arguments();
            let kind = ExprKind::QualifiedMethodCall {
                self_ty,
                concept,
                method,
                type_arguments: list(vec![]),
                arguments,
            };
            return self.make(kind, start);
        }
        if self.take_word("self") {
            return self.make(ExprKind::SelfValue, start);
        }
        if self.take_word("result") {
            return self.make(ExprKind::ResultValue, start);
        }
        if self.is_word("old") && matches!(self.ahead(1), Kind::Sign("(")) {
            self.at += 2;
            let inner = self.expression(true);
            self.expect(")");
            return self.make(ExprKind::Old(Box::new(inner)), start);
        }
        if self.take_word("await") {
            let inner = self.unary(records);
            return self.make(ExprKind::Await(Box::new(inner)), start);
        }
        if self.take_word("return") {
            let value = if self.begins_line() || self.is_sign("}") {
                None
            } else {
                Some(Box::new(self.expression(true)))
            };
            return self.make(ExprKind::Return(value), start);
        }
        if self.take_word("if") {
            let condition = self.expression(false);
            let then_branch = self.block();
            let else_branch = if self.take_word("else") {
                let branch = if self.is_word("if") {
                    self.primary(records)
                } else {
                    self.block()
                };
                Some(Box::new(branch))
            } else {
                None
            };
            let kind = ExprKind::If {
                condition: Box::new(condition),
                then_branch: Box::new(then_branch),
                else_branch,
            };
            return self.make(kind, start);
        }
        if self.take_word("match") {
            let scrutinee = self.expression(false);
            self.expect("{");
            let mut arms = vec![];
            while !self.take("}") {
                let at = self.start();
                let pattern = self.pattern();
                self.expect("=>");
                let value = self.expression(true);
                let span = self.span(at);
                arms.push(MatchArm {
                    pattern,
                    value,
                    span,
                });
                self.take(",");
            }
            let kind = ExprKind::Match {
                scrutinee: Box::new(scrutinee),
                arms: list(arms),
            };
            return self.make(kind, start);
        }
        let path = self.path();
        let named_type = items_of(&path.segments)[0].starts_with(|c: char| c.is_uppercase());
        if records && named_type && self.is_sign("{") && !self.begins_line() {
            self.at += 1;
            let mut fields = vec![];
            while !self.take("}") {
                let at = self.start();
                let name = self.name();
                self.expect("=");
                let value = self.expression(true);
                let span = self.span(at);
                fields.push(RecordFieldValue { name, value, span });
                self.take(",");
            }
            let kind = ExprKind::RecordLiteral {
                ty: path,
                fields: list(fields),
            };
            return self.make(kind, start);
        }
        self.make(ExprKind::Path(path), start)
    }

    fn pattern(&mut self) -> Pattern {
        let start = self.start();
        let kind = if self.take_word("_") {
            PatternKind::Wildcard
        } else if let Some(literal) = self.literal() {
            PatternKind::Literal(literal)
        } else {
            let first = self.segment();
            let mut segments = vec![Segment {
                name: first.name.clone(),
                span: first.span,
            }];
            let mut qualifier = None;
            if self.take(".") {
                qualifier = Some(self.path_of(vec![Segment {
                    name: first.name.clone(),
                    span: first.span,
                }]));
                segments.push(self.segment());
            }
            let path = self.path_of(segments);
            if self.take("(") {
                let mut payload = vec![];
                while !self.take(")") {
                    payload.push(self.pattern());
                    self.take(",");
                }
                PatternKind::Variant {
                    path,
                    qualifier,
                    payload: list(payload),
                }
            } else {
                let binding = if qualifier.is_none() {
                    Some(self.local(first.name, false, start))
                } else {
                    None
                };
                PatternKind::Name {
                    path,
                    qualifier,
                    payload: list(vec![]),
                    binding,
                }
            }
        };
        let id = PatternId(self.patterns);
        self.patterns += 1;
        Pattern {
            id,
            span: self.span(start),
            kind,
        }
    }

    // Declarations.

    /// The part of a callable behind its name, with its body where it has one.
    fn callable(&mut self, definition: DefId, kind: BodyKind, fixed: Option<ReceiverKind>) -> CallableSource {
        let generic_params = self.generic_params();
        let mut receiver = fixed;
        let mut params = vec![];
        self.expect("(");
        while !self.take(")") {
            let start = self.start();
            if self.take_word("self") {
                receiver = Some(ReceiverKind::ReadOnly);
            } else if self.is_word("mut") && matches!(self.ahead(1), Kind::Word(word) if word == "self")
            {
                self.at += 2;
                receiver = Some(ReceiverKind::Mutable);
            } else {
                let name = self.name();
                let ty = self.ty();
                let span = self.span(start);
                params.push(ParamId(self.program.params.len() as u32));
                self.program.params.push(Param { name, ty, span });
            }
            self.take(",");
        }
        let returns = !self.begins_line()
            && !self.is_sign("{")
            && !self.is_sign("}")
            && !self.is_word("requires")
            && !self.is_word("ensures")
            && *self.kind() != Kind::End;
        let return_ty = if returns { Some(self.ty()) } else { None };
        let mut requires = vec![];
        let mut ensures = vec![];
        loop {
            if self.take_word("requires") {
                requires.push(self.body(definition, BodyKind::Requires, false));
            } else if self.take_word("ensures") {
                ensures.push(self.body(definition, BodyKind::Ensures, false));
            } else {
                break;
            }
        }
        if self.is_sign("{") {
            self.body(definition, kind, true);
        }
        CallableSource {
            receiver,
            generic_params,
            params: list(params),
            return_ty,
            requires: list(requires),
            ensures: list(ensures),
        }
    }

    /// The associated types and methods of a concept or an implementation.
    fn members(&mut self, owner: DefId) -> (Chain<DefId>, Chain<DefId>) {
        let mut associated = vec![];
        let mut methods = vec![];
        self.expect("{");
        while !self.take("}") {
            let start = self.start();
            self.take_word("pub");
            if self.take_word("associated") {
                assert!(self.take_word("type"));
                let name = self.name();
                let bounds = self.bounds();
                let binding = if self.take("=") {
                    Some(self.ty())
                } else {
                    None
                };
                let kind = DefinitionKind::AssociatedType {
                    owner,
                    bounds,
                    binding,
                };
                associated.push(self.define(Some(name), kind, start));
            } else {
                let fixed = if self.take_word("static") {
                    Some(ReceiverKind::Static)
                } else {
                    None
                };
                assert!(self.take_word("method"), "expected a method");
                let name = self.name();
                let kind = DefinitionKind::Method {
                    owner,
                    signature: no_signature(),
                };
                let method = self.define(Some(name), kind, start);
                let outer = self.generics.len();
                let signature = self.callable(method, BodyKind::Method, fixed);
                self.generics.truncate(outer);
                self.set_kind(method, DefinitionKind::Method { owner, signature });
                methods.push(method);
            }
        }
        (list(associated), list(methods))
    }

    fn item(&mut self, definition: DefId) {
        self.generics = vec![];
        self.take_word("pub");
        let is_test = self.take_word("test");
        let is_async = self.take_word("async");
        let dyn_capable = self.take_word("dyn");
        let word = self.name();
        let kind = match word.as_str() {
            "const" => {
                self.name();
                let ty = self.ty();
                self.expect("=");
                let value = self.body(definition, BodyKind::Constant, false);
                DefinitionKind::Constant { ty, value }
            }
            "type" => {
                self.name();
                self.expect("=");
                let base = self.ty();
                assert!(self.take_word("where"));
                let predicate = self.body(definition, BodyKind::RefinementPredicate, false);
                DefinitionKind::RefinedType { base, predicate }
            }
            "record" => {
                self.name();
                let generic_params = self.generic_params();
                let mut fields = vec![];
                let mut invariant_body = None;
                self.expect("{");
                while !self.take("}") {
                    let start = self.start();
                    if self.take_word("invariant") {
                        invariant_body =
                            Some(self.body(definition, BodyKind::RecordInvariant, false));
                    } else {
                        let name = self.name();
                        let ty = self.ty();
                        let kind = DefinitionKind::Field {
                            owner: definition,
                            ty,
                        };
                        fields.push(self.define(Some(name), kind, start));
                    }
                }
                DefinitionKind::Record {
                    generic_params,
                    fields: list(fields),
                    invariant_body,
                }
            }
            "enum" => {
                self.name();
                let generic_params = self.generic_params();
                let mut variants = vec![];
                self.expect("{");
                while !self.take("}") {
                    let start = self.start();
                    let name = self.name();
                    let mut payload = vec![];
                    if self.take("(") {
                        while !self.take(")") {
                            payload.push(self.ty());
                            self.take(",");
                        }
                    }
                    let kind = DefinitionKind::Variant {
                        owner: definition,
                        payload: list(payload),
                    };
                    variants.push(self.define(Some(name), kind, start));
                }
                DefinitionKind::Enum {
                    generic_params,
                    variants: list(variants),
                }
            }
            "fn" => {
                self.name();
                let signature = self.callable(definition, BodyKind::Function, None);
                if is_test {
                    DefinitionKind::Test {
                        signature,
                        is_async,
                    }
                } else {
                    DefinitionKind::Function {
                        signature,
                        is_async,
                    }
                }
            }
            "concept" => {
                self.name();
                let (associated_types, requirements) = self.members(definition);
                DefinitionKind::Concept {
                    dyn_capable,
                    associated_types,
                    requirements,
                }
            }
            "impl" => {
                let generic_params = self.generic_params();
                let mut at = 0;
                let mut conforms = false;
                while !matches!(self.ahead(at), Kind::Sign("{")) {
                    conforms = conforms || matches!(self.ahead(at), Kind::Word(word) if word == "for");
                    at += 1;
                }
                if conforms {
                    let concept = self.concept_ref();
                    assert!(self.take_word("for"));
                    let target = self.ty();
                    let (associated_types, methods) = self.members(definition);
                    DefinitionKind::Conformance {
                        generic_params,
                        target,
                        concept,
                        associated_types,
                        methods,
                    }
                } else {
                    let target = self.ty();
                    let (_, methods) = self.members(definition);
                    DefinitionKind::InherentImpl {
                        generic_params,
                        target,
                        methods,
                    }
                }
            }
            other => panic!("unknown declaration `{other}`"),
        };
        self.set_kind(definition, kind);
    }

    /// What can be said of a declaration before names can be resolved.
    fn sketch(&self, item: &Item) -> (Option<String>, DefinitionKind, Visibility) {
        let tokens = &self.tokens[item.unit];
        let word = |at: usize| match &tokens[at].kind {
            Kind::Word(word) => word.as_str(),
            _ => "",
        };
        let mut at = item.from;
        let mut visibility = Visibility::Private;
        let mut is_test = false;
        while ["pub", "test", "async", "dyn"].contains(&word(at)) {
            if word(at) == "pub" {
                visibility = Visibility::Public;
            }
            is_test = is_test || word(at) == "test";
            at += 1;
        }
        let none = || list(vec![]);
        let kind = match word(at) {
            "const" => DefinitionKind::Constant {
                ty: TypeRefId(0),
                value: BodyId(0),
            },
            "type" => DefinitionKind::RefinedType {
                base: TypeRefId(0),
                predicate: BodyId(0),
            },
            "record" => DefinitionKind::Record {
                generic_params: list(vec![]),
                fields: none(),
                invariant_body: None,
            },
            "enum" => DefinitionKind::Enum {
                generic_params: list(vec![]),
                variants: none(),
            },
            "fn" if is_test => DefinitionKind::Test {
                signature: no_signature(),
                is_async: false,
            },
            "fn" => DefinitionKind::Function {
                signature: no_signature(),
                is_async: false,
            },
            "concept" => DefinitionKind::Concept {
                dyn_capable: false,
                associated_types: none(),
                requirements: none(),
            },
            "impl" => return (None, DefinitionKind::Error, visibility),
            other => panic!("unknown declaration `{other}`"),
        };
        (Some(word(at + 1).to_owned()), kind, visibility)
    }
}

fn items_of(segments: &Chain<Segment>) -> Vec<String> {
    let mut names = vec![];
    let mut current = segments;
    while let Chain::Link(link) = current {
        names.push(link.item.name.clone());
        current = &link.rest;
    }
    names.reverse();
    names
}

/// The program of some source files, and the number of expressions of its
/// largest body.
fn lower(units: &[Unit]) -> (Program, u32) {
    let mut reader = Reader {
        tokens: units.iter().map(|unit| read(&unit.source)).collect(),
        unit: 0,
        at: 0,
        module: ModuleId(0),
        program: Program {
            language: LANGUAGE_VERSION.to_owned(),
            definitions: vec![],
            modules: vec![],
            generic_params: vec![],
            params: vec![],
            type_refs: vec![],
            bodies: vec![],
        },
        maps: None,
        generics: vec![],
        locals: vec![],
        expressions: 0,
        patterns: 0,
        largest_body: 0,
    };
    for (position, unit) in units.iter().enumerate() {
        let id = ModuleId(position as u32);
        reader.program.modules.push(Module {
            name: unit.module.to_owned(),
            package: PackageId::with_language(
                unit.package.name.to_owned(),
                unit.package.version.to_owned(),
                unit.package.language.to_owned(),
            ),
            test_companion: false,
            private_access: list(vec![id]),
            production: id,
            imports: vec![],
            items: list(vec![]),
        });
    }
    let mut found: Vec<Item> = vec![];
    for unit in 0..units.len() {
        let tokens = &reader.tokens[unit];
        let mut depth = 0;
        for (at, token) in tokens.iter().enumerate() {
            let begins = match &token.kind {
                Kind::Word(word) => {
                    depth == 0 && token.begins_line && ITEM_WORDS.contains(&word.as_str())
                }
                Kind::End => true,
                _ => false,
            };
            if begins {
                if let Some(last) = found.last_mut() {
                    if last.unit == unit && last.to == 0 {
                        last.to = at;
                    }
                }
                if token.kind != Kind::End {
                    found.push(Item {
                        unit,
                        from: at,
                        to: 0,
                        definition: None,
                    });
                }
            }
            match token.kind {
                Kind::Sign("{") | Kind::Sign("(") | Kind::Sign("[") => depth += 1,
                Kind::Sign("}") | Kind::Sign(")") | Kind::Sign("]") => depth -= 1,
                _ => {}
            }
        }
    }
    for item in &mut found {
        reader.unit = item.unit;
        reader.at = item.from;
        reader.module = ModuleId(item.unit as u32);
        if reader.is_word("import") {
            let start = reader.start();
            reader.at += 1;
            let mut path = vec![reader.segment()];
            while reader.take(".") {
                path.push(reader.segment());
            }
            let module = path[..path.len() - 1]
                .iter()
                .map(|segment| segment.name.as_str())
                .collect::<Vec<_>>()
                .join(".");
            let target = units.iter().position(|unit| unit.module == module);
            let span = reader.span(start);
            reader.program.modules[item.unit].imports.push(Import {
                file: item.unit as u32,
                path: list(path),
                target: match target {
                    Some(position) => ImportTarget::Found(ModuleId(position as u32)),
                    None => ImportTarget::Missing,
                },
                primitive: false,
                span,
            });
            continue;
        }
        let (name, kind, visibility) = reader.sketch(item);
        let start = reader.start();
        reader.at = item.from + 1;
        let definition = reader.define(name, kind, start);
        reader.program.definitions[definition.0 as usize].visibility = visibility;
        reader.program.modules[item.unit].items.push(definition);
        item.definition = Some(definition);
    }
    reader.maps = Some(DefMapBuild::build(&reader.program));
    for item in &found {
        if let Some(definition) = item.definition {
            reader.unit = item.unit;
            reader.at = item.from;
            reader.module = ModuleId(item.unit as u32);
            reader.item(definition);
            assert_eq!(reader.at, item.to, "a declaration is read to its end");
        }
    }
    (reader.program, reader.largest_body)
}

// Analysing programs.

fn float_facts(analysis: &Analysis, facts: &mut Chain<FloatFact>) -> bool {
    let requests = items(&analysis.float_requests);
    for operation in &requests {
        let left = f64::from_bits(operation.left);
        let right = f64::from_bits(operation.right);
        let value = match operation.op {
            BinaryOp::Add => left + right,
            BinaryOp::Subtract => left - right,
            BinaryOp::Multiply => left * right,
            _ => left / right,
        };
        facts.push(FloatFact {
            operation: *operation,
            value: value.to_bits(),
        });
    }
    !requests.is_empty()
}

struct Found {
    program: Program,
    analysis: Analysis,
    largest_body: u32,
}

impl Found {
    fn codes(&self) -> Vec<&'static str> {
        let mut codes = vec![];
        let mut current = &self.analysis.diagnostics;
        while let Chain::Link(link) = current {
            codes.push(link.item.code);
            current = &link.rest;
        }
        codes.reverse();
        codes
    }

    /// The code and the text of each diagnostic.
    fn report(&self) -> Vec<String> {
        let mut lines = vec![];
        let mut current = &self.analysis.diagnostics;
        while let Chain::Link(link) = current {
            let text: String = render_message(
                &self.program,
                &self.analysis.typed.types,
                &link.item.message,
            )
            .into_iter()
            .collect();
            lines.push(format!("{}: {}", link.item.code, text));
            current = &link.rest;
        }
        lines.reverse();
        lines
    }

    fn count(&self, code: &str) -> usize {
        self.codes().iter().filter(|found| **found == code).count()
    }

    fn has(&self, code: &str) -> bool {
        self.count(code) > 0
    }

    fn is_clean(&self) -> bool {
        self.codes().is_empty() && !self.analysis.has_errors()
    }

    fn bodies(&self) -> Vec<&BodySemantics> {
        (0..self.program.bodies.len() as u32)
            .filter_map(|body| self.analysis.typed.bodies.get(body))
            .collect()
    }

    fn construction_checks(&self) -> Vec<ConstructionCheck> {
        let mut checks = vec![];
        for body in self.bodies() {
            for expression in 0..self.largest_body {
                if let Some(check) = body.construction_checks.get(expression) {
                    checks.push(*check);
                }
            }
        }
        checks
    }

    fn constructions(&self, check: ConstructionCheck) -> usize {
        self.construction_checks()
            .iter()
            .filter(|found| **found == check)
            .count()
    }

    fn constants(&self) -> Vec<ConstantValue> {
        (0..self.program.definitions.len() as u32)
            .filter_map(|definition| self.analysis.typed.constants.get(definition))
            .cloned()
            .collect()
    }

    fn views(&self) -> usize {
        let mut views = 0;
        for body in self.bodies() {
            for expression in 0..self.largest_body {
                if body.views.get(expression).is_some() {
                    views += 1;
                }
            }
        }
        views
    }
}

fn analyze_units(units: Vec<Unit>) -> Found {
    let (program, largest_body) = lower(&units);
    let mut facts = list(vec![]);
    let mut analysis = analyze(&program, &facts);
    while float_facts(&analysis, &mut facts) {
        analysis = analyze(&program, &facts);
    }
    Found {
        program,
        analysis,
        largest_body,
    }
}

fn analyze_source(source: &str) -> Found {
    analyze_units(vec![Unit {
        module: "main",
        package: STANDALONE,
        source: source.to_owned(),
    }])
}

const STD_FLOAT: &str = r"
pub enum ParseFloatError {
    InvalidSyntax
    OutOfRange
}

pub fn is_finite(value Float) Bool {
    value == value
}

pub fn parse_float(text Text) Result[Float, ParseFloatError] {
    if text == text {
        Ok(0.0)
    } else {
        Err(ParseFloatError.InvalidSyntax)
    }
}
";

fn analyze_source_with_std_float(source: &str) -> Found {
    analyze_units(vec![
        Unit {
            module: "std.float",
            package: COMPILER_STD,
            source: STD_FLOAT.to_owned(),
        },
        Unit {
            module: "application",
            package: APPLICATION,
            source: source.to_owned(),
        },
    ])
}

const DYNAMIC_SOURCE_FIXTURE: &str = r"
pub record Counter {
    value Int
}

pub dyn concept Source {
    associated type Item
    method next(mut self) Option[Self.Item]
}

impl Source for Counter {
    associated type Item = Int

    method next(mut self) Option[Int] {
        self.value = self.value + 1
        Some(self.value)
    }
}

fn consume(source Source[Item = Int]) {
    let ignored = source.next()
}
";

#[test]
fn constants_are_evaluated_and_expand_in_contract_proofs() {
    let found = analyze_source(
        r#"
pub const base Int = 40
const answer Int = base + 2
const escaped Text = "\u{41}"
const text_matches Bool = escaped == "A"
const short_and Bool = false && (1 / 0 == 0)
const short_or Bool = true || (1 / 0 == 0)
const ratio Float = -(6.0 / 2.0)
const minimum Float = 0.0
const lowest Int = -9223372036854775808

type Money = Float where self >= minimum

fn value() Int
    ensures result == answer
{
    answer
}

fn proven() {
    assert answer == 42
}

fn money() Money { Money(1.0) }
"#,
    );
    assert!(found.is_clean(), "{:#?}", found.report());
    let values = found.constants();
    let ints = |wanted: i64| {
        values
            .iter()
            .filter(|value| matches!(value, ConstantValue::Int(found) if *found == wanted))
            .count()
    };
    let bools = |wanted: bool| {
        values
            .iter()
            .filter(|value| matches!(value, ConstantValue::Bool(found) if *found == wanted))
            .count()
    };
    assert!(ints(40) > 0);
    assert!(ints(42) > 0);
    assert!(values
        .iter()
        .any(|value| matches!(value, ConstantValue::Text(text) if items(text) == ['A'])));
    assert!(bools(false) > 0);
    assert!(bools(true) >= 2);
    assert!(values.iter().any(
        |value| matches!(value, ConstantValue::Float(bits) if f64::from_bits(*bits) == -3.0)
    ));
    assert!(ints(i64::MIN) > 0);
    assert!(found.constructions(ConstructionCheck::Proven) > 0);
    let largest = found.largest_body;
    assert!(found.bodies().iter().any(|body| {
        (0..largest).any(|e| body.assertion_checks.get(e) == Some(&RuntimeCheck::Proven))
    }));
}

#[test]
fn constants_reject_runtime_work_cycles_and_unsupported_types() {
    let found = analyze_source(
        r"
fn runtime_value() Int { 1 }
const called Int = runtime_value()
const first Int = second + 1
const second Int = first + 1
const divided Int = 1 / 0
const overflowed Int = 9223372036854775807 + 1
const allocated List[Int] = [1]
",
    );
    assert!(found.has("InvalidConstantExpression"), "{:#?}", found.report());
    assert!(found.has("ConstantCycle"), "{:#?}", found.report());
    assert!(found.has("ConstantEvaluationFailed"), "{:#?}", found.report());
    assert!(
        found.count("ConstantEvaluationFailed") >= 2,
        "{:#?}",
        found.report()
    );
    assert!(found.has("InvalidConstantType"), "{:#?}", found.report());
}

#[test]
fn constant_evaluation_limit_is_independent_of_declaration_and_cache_order() {
    let source = |leaf_first: bool| {
        let count = CONSTANT_EVALUATION_DEPTH_LIMIT + 2;
        let mut declarations = (0..count).collect::<Vec<_>>();
        if leaf_first {
            declarations.reverse();
        }
        let mut source = String::new();
        for index in declarations {
            if index + 1 == count {
                source.push_str(&format!("const value{index} Int = 1\n"));
            } else {
                source.push_str(&format!("const value{index} Int = value{}\n", index + 1));
            }
        }
        source
    };
    let limit_diagnostics = |found: &Found| {
        found
            .report()
            .into_iter()
            .filter(|line| line.starts_with("ConstantEvaluationLimit: "))
            .collect::<Vec<_>>()
    };

    let dependency_first = analyze_source(&source(false));
    let leaf_first = analyze_source(&source(true));
    let dependency_first_limits = limit_diagnostics(&dependency_first);
    let leaf_first_limits = limit_diagnostics(&leaf_first);
    assert_eq!(
        dependency_first_limits.len(),
        2,
        "{:#?}",
        dependency_first.report()
    );
    assert_eq!(leaf_first_limits, dependency_first_limits);
    for found in [&dependency_first, &leaf_first] {
        assert!(found.analysis.has_errors());
        assert!(!found.has("ConstantCycle"), "{:#?}", found.report());
    }
}

#[test]
fn constant_evaluation_limit_uses_the_deepest_dag_path() {
    let chain_length = CONSTANT_EVALUATION_DEPTH_LIMIT * 7 / 8;
    let deep_use_depth = CONSTANT_EVALUATION_DEPTH_LIMIT / 6;
    let mut source = String::new();
    for index in 0..chain_length {
        if index + 1 == chain_length {
            source.push_str(&format!("const shared{index} Int = 1\n"));
        } else {
            source.push_str(&format!("const shared{index} Int = shared{}\n", index + 1));
        }
    }
    let mut deep_use = "shared0".to_owned();
    for _ in 0..deep_use_depth {
        deep_use = format!("0 + ({deep_use})");
    }
    source.push_str(&format!("const root Int = shared0 + ({deep_use})\n"));

    let found = analyze_source(&source);
    assert_eq!(
        found.count("ConstantEvaluationLimit"),
        1,
        "{:#?}",
        found.report()
    );
    assert!(!found.has("ConstantCycle"), "{:#?}", found.report());
}

fn analyze_resource_module(package: Package) -> Found {
    analyze_units(vec![Unit {
        module: "std.resource",
        package,
        source: r"pub concept Dispose {
    method dispose(mut self)
}

pub concept MustScope {}
pub concept NoSuspend {}
"
        .to_owned(),
    }])
}

#[test]
fn resource_language_items_require_the_exact_current_std_package() {
    let non_current_version = "0.5";
    let canonical = analyze_resource_module(COMPILER_STD);
    assert!(canonical.is_clean(), "{:#?}", canonical.report());
    let concepts = canonical.analysis.canonical_concepts;
    assert!(concepts.dispose.is_some());
    assert!(concepts.dispose_requirement.is_some());
    assert!(concepts.must_scope.is_some());
    assert!(concepts.no_suspend.is_some());

    for wrong in [
        STANDALONE,
        std_package(non_current_version, non_current_version),
        std_package(non_current_version, LANGUAGE_VERSION),
        std_package(LANGUAGE_VERSION, non_current_version),
    ] {
        let ordinary = analyze_resource_module(wrong);
        assert_eq!(
            ordinary.analysis.canonical_concepts,
            CanonicalConcepts {
                dispose: None,
                dispose_requirement: None,
                must_scope: None,
                no_suspend: None,
            }
        );
    }
}

#[test]
fn resolves_generic_data_and_callable_signatures_definition_first() {
    let found = analyze_source(
        "record Boxed[T] {\n    value T\n}\n\nfn wrap[T](value T) Boxed[T] {\n    Boxed { value = value }\n}\n",
    );
    assert!(found.is_clean(), "{:#?}", found.report());
    let typed = &found.analysis.typed;
    let callable = (0..found.program.definitions.len() as u32)
        .find_map(|definition| match typed.signatures.get(definition) {
            Some(Signature::Callable(callable)) => Some(callable),
            _ => None,
        })
        .expect("a callable");
    assert!(matches!(
        typed.types.data(callable.return_ty),
        TyData::Nominal { arguments, .. } if arguments.len() == 1
    ));
}

#[test]
fn test_signature_uses_implicit_unit_and_rejects_parameters() {
    let found = analyze_source("test fn ok() {}\n\ntest fn bad(value Int) {}\n");
    assert!(found.has("InvalidTestSignature"), "{:#?}", found.report());
}

#[test]
fn int_min_has_one_legal_literal_spelling() {
    let found = analyze_source(
        "pub fn minimum() Int { -9223372036854775808 }\n",
    );
    assert!(found.is_clean(), "{:#?}", found.report());

    let found = analyze_source(
        "pub fn too_large() Int { 9223372036854775808 }\n",
    );
    assert!(found.has("IntegerLiteralOutOfRange"), "{:#?}", found.report());
}

#[test]
fn dynamic_arguments_are_implicit_and_call_scoped() {
    let source = format!(
        "{DYNAMIC_SOURCE_FIXTURE}\n\
         test fn call_dynamic() {{\n\
             var counter = Counter {{ value = 0 }}\n\
             consume(counter)\n\
             let observed = counter.value\n\
             assert observed == 1\n\
         }}\n"
    );
    let found = analyze_source(&source);
    assert!(found.is_clean(), "{:#?}", found.report());
    assert_eq!(found.views(), 1);
}

#[test]
fn mutating_dynamic_concept_requires_a_variable_argument() {
    let source = format!(
        "{DYNAMIC_SOURCE_FIXTURE}\n\
         test fn immutable_argument() {{\n\
             let counter = Counter {{ value = 0 }}\n\
             consume(counter)\n\
         }}\n"
    );
    let found = analyze_source(&source);
    assert!(
        found.has("DynMutReceiverUnavailable"),
        "{:#?}",
        found.report()
    );
}

#[test]
fn invariant_isolation_forks_branches_and_joins_dirty_state() {
    let found = analyze_source(
        r"
pub record Pair {
    value Int
    invariant self.value >= 0
}

impl Pair {
    method observe(self) {
    }

    method mutate(mut self) {
        if true {
            self.value = 1
        } else {
            self.observe()
        }
        self.observe()
    }
}
",
    );
    assert_eq!(found.count("InvariantIsolationViolation"), 1, "{:#?}", found.report());
}

#[test]
fn defer_self_effects_follow_scope_loop_control_and_lifo_order() {
    let found = analyze_source(
        r"
pub record Counter {
    value Int
    invariant self.value >= 0
}

impl Counter {
    method observe(self) {
    }

    method nestedScope(mut self) {
        {
            defer {
                self.value = -1
            }
        }
        self.observe()
    }

    method breakExit(mut self) {
        while true {
            defer {
                self.value = -1
            }
            break
        }
        self.observe()
    }

    method lifo(mut self) {
        defer {
            self.observe()
        }
        defer {
            self.value = -1
        }
    }
}
",
    );
    assert_eq!(found.count("InvariantIsolationViolation"), 3, "{:#?}", found.report());
}

#[test]
fn loop_backedges_must_restore_receiver_invariant_state() {
    let found = analyze_source(
        r"
pub record Counter {
    value Int
    invariant self.value >= 0
}

impl Counter {
    method observe(self) {
    }

    method rangeDirty(mut self) {
        for index in 0..2 {
            self.value = index
        }
    }

    method whileDirty(mut self) {
        var first = true
        while {
            self.observe()
            first
        } {
            self.value = 0
            first = false
        }
    }
}
",
    );
    assert_eq!(found.count("LoopReceiverInvariantNotRestored"), 2, "{:#?}", found.report());
}

#[test]
fn successful_assertion_restores_the_receiver_invariant_boundary() {
    let found = analyze_source(
        r"
pub record Counter {
    value Int
    invariant self.value >= 0
}

impl Counter {
    method observe(self) {
    }

    method repair(mut self, next Int) {
        self.value = next
        assert self.value >= 0
        self.observe()
    }
}
",
    );
    assert!(found.is_clean(), "{:#?}", found.report());
}

#[test]
fn nested_variant_binding_does_not_make_match_exhaustive() {
    let found = analyze_source(
        r"
fn unwrap_some(value Option[Int]) Int {
    match value {
        Some(inner) => inner
    }
}
",
    );
    assert!(found.has("NonExhaustiveMatch"), "{:#?}", found.report());
}

#[test]
fn nested_boolean_variant_patterns_require_every_payload_case() {
    let found = analyze_source(
        r"
fn classify(value Option[Bool]) Int {
    match value {
        Some(true) => 1
        None => 0
    }
}
",
    );
    assert!(found.has("NonExhaustiveMatch"), "{:#?}", found.report());

    let found = analyze_source(
        r"
fn classify(value Option[Bool]) Int {
    match value {
        Some(true) => 1
        Some(false) => 2
        None => 0
    }
}
",
    );
    assert!(found.is_clean(), "{:#?}", found.report());
}

#[test]
fn match_usefulness_reports_duplicate_and_shadowed_arms() {
    let found = analyze_source(
        r"
fn classify(value Option[Bool]) Int {
    match value {
        Some(true) => 1
        Some(true) => 2
        Some(false) => 3
        None => 0
    }
}
",
    );
    assert_eq!(found.count("UnreachableMatchArm"), 1, "{:#?}", found.report());
    assert!(!found.has("NonExhaustiveMatch"), "{:#?}", found.report());

    let found = analyze_source(
        r"
fn classify(value Option[Int]) Int {
    match value {
        _ => 1
        None => 0
    }
}
",
    );
    assert!(found.has("UnreachableMatchArm"), "{:#?}", found.report());
}

#[test]
fn equality_requires_a_statically_derivable_value_equality_capability() {
    let found = analyze_source(
        r"
fn same[T](left T, right T) Bool {
    left == right
}
",
    );
    assert!(found.has("InvalidGenericOperation"), "{:#?}", found.report());

    let found = analyze_source(
        r"
record Boxed[T] {
    value T
}

fn same[T](left Boxed[T], right Boxed[T]) Bool {
    left == right
}
",
    );
    assert!(found.has("InvalidGenericOperation"), "{:#?}", found.report());

    let found = analyze_source(
        r"
dyn concept Display {
    method display(self) Text
}

fn same_view(left dyn Display, right dyn Display) Bool {
    left == right
}
",
    );
    assert!(found.has("InvalidGenericOperation"), "{:#?}", found.report());
}

#[test]
fn structural_values_derive_equality_when_every_component_supports_it() {
    let found = analyze_source(
        r"
record Pair {
    names List[Text]
    count Int
}

enum MaybePair {
    Missing
    Present(Pair)
}

fn same(left MaybePair, right MaybePair) Bool {
    left == right
}
",
    );
    assert!(found.is_clean(), "{:#?}", found.report());
}

#[test]
fn record_side_table_preserves_source_evaluation_and_canonical_layout() {
    let found = analyze_source(
        r"
pub record Pair {
    first Int
    second Int
}

fn first_value() Int { 1 }
fn second_value() Int { 2 }

fn make_pair() Pair {
    Pair {
        second = second_value()
        first = first_value()
    }
}
",
    );
    assert!(found.is_clean(), "{:#?}", found.report());
    let mut literal = None;
    for (id, body) in found.program.bodies.iter().enumerate() {
        if let ExprKind::Block {
            tail: Some(tail), ..
        } = &body.root.kind
        {
            if let ExprKind::RecordLiteral { fields, .. } = &tail.kind {
                let mut names = vec![];
                let mut current = fields;
                while let Chain::Link(link) = current {
                    names.push(link.item.name.clone());
                    current = &link.rest;
                }
                names.reverse();
                literal = Some((id as u32, tail.id, names));
            }
        }
    }
    let (body, expression, source_names) = literal.expect("record literal");
    assert_eq!(source_names, ["second", "first"]);
    let semantics = found
        .analysis
        .typed
        .bodies
        .get(body)
        .expect("body semantics");
    let canonical = semantics
        .record_fields
        .get(expression.0)
        .expect("canonical record map");
    let canonical_names = items(canonical)
        .iter()
        .map(|(field, _)| {
            found.program.definitions[field.0 as usize]
                .name
                .clone()
                .expect("field name")
        })
        .collect::<Vec<_>>();
    assert_eq!(canonical_names, ["first", "second"]);
}

#[test]
fn unique_bound_resolves_unqualified_associated_projection() {
    let found = analyze_source(
        r"
pub concept Source {
    associated type Item
    method read(self) Self.Item
}

pub record Number {
    value Int
}

impl Source for Number {
    associated type Item = Int

    method read(self) Int {
        self.value
    }
}

fn read[T: Source](source T) T.Item {
    source.read()
}
",
    );
    assert!(found.is_clean(), "{:#?}", found.report());
    let typed = &found.analysis.typed;
    assert!((0..found.program.type_refs.len() as u32).any(|reference| {
        match typed.resolved_type_refs.get(reference) {
            Some(ty) => matches!(typed.types.data(*ty), TyData::Projection { .. }),
            None => false,
        }
    }));
}

#[test]
fn associated_type_bindings_must_satisfy_declared_bounds() {
    let found = analyze_source(
        r"
concept Display {
    method display(self) Text
}

record Label {
    value Text
}

impl Display for Label {
    method display(self) Text { self.value }
}

concept Source {
    associated type Item: Display
    method read(self) Self.Item
}

record Labels {
    value Label
}

impl Source for Labels {
    associated type Item = Label
    method read(self) Label { self.value }
}
",
    );
    assert!(found.is_clean(), "{:#?}", found.report());

    let found = analyze_source(
        r"
concept Display {
    method display(self) Text
}

concept Source {
    associated type Item: Display
    method read(self) Self.Item
}

record Number {
    value Int
}

impl Source for Number {
    associated type Item = Int
    method read(self) Int { self.value }
}
",
    );
    assert!(found.has("AssociatedTypeBoundNotSatisfied"), "{:#?}", found.report());
}

#[test]
fn associated_type_bounds_use_conditional_conformance_proofs() {
    let found = analyze_source(
        r"
concept Display {
    method display(self) Text
}

concept Source {
    associated type Item: Display
    method read(self) Self.Item
}

record Boxed[T] {
    value T
}

impl[T: Display] Source for Boxed[T] {
    associated type Item = T
    method read(self) T { self.value }
}
",
    );
    assert!(found.is_clean(), "{:#?}", found.report());
}

#[test]
fn associated_projection_cycles_are_rejected() {
    let found = analyze_source(
        r"
concept Pair {
    associated type First
    associated type Second
}

record Broken {}

impl Pair for Broken {
    associated type First = Self.Second
    associated type Second = Self.First
}
",
    );
    assert!(found.has("ConformanceResolutionCycle"), "{:#?}", found.report());
}

#[test]
fn concrete_call_normalizes_associated_projection_from_selected_witness() {
    let found = analyze_source(
        r"
pub concept Source {
    associated type Item
    method read(self) Self.Item
}

pub record Number {
    value Int
}

impl Source for Number {
    associated type Item = Int

    method read(self) Int {
        self.value
    }
}

fn read[T: Source](source T) T.Item {
    source.read()
}

test fn concrete_projection() {
    let value = read(Number { value = 3 })
    assert value == 3
}
",
    );
    assert!(found.is_clean(), "{:#?}", found.report());
}

#[test]
fn never_branch_joins_to_the_other_if_type() {
    let found = analyze_source(
        r"
fn choose(flag Bool) Int {
    if flag {
        return 0
    } else {
        1
    }
}
",
    );
    assert!(found.is_clean(), "{:#?}", found.report());
}

#[test]
fn parse_float_error_variants_are_matchable_and_exhaustive() {
    let found = analyze_source_with_std_float(
        r"
import std.float.ParseFloatError
import std.float.parse_float

fn classify(text Text) Int {
    match parse_float(text) {
        Ok(_) => 0
        Err(error) => match error {
            ParseFloatError.InvalidSyntax => 1
            ParseFloatError.OutOfRange => 2
        }
    }
}
",
    );
    assert!(found.is_clean(), "{:#?}", found.report());
}

#[test]
fn concept_owner_can_implement_a_concrete_primitive_head() {
    let found = analyze_source(
        r"
pub concept Zero {
    static method zero() Self
}

impl Zero for Int {
    static method zero() Int {
        0
    }
}

fn make_zero() Int {
    <Int as Zero>.zero()
}
",
    );
    assert!(found.is_clean(), "{:#?}", found.report());
}

#[test]
fn loop_control_and_defer_do_not_create_first_iteration_only_proofs() {
    let found = analyze_source(
        r"
type Positive = Int where self > 0

fn afterBreak(flag Bool) Result[Positive, ConstraintError] {
    var value = 1
    while flag {
        value = 0
        break
        value = 1
    }
    Positive(value)
}

fn registrationIsNotExecution(raw Int) Result[Positive, ConstraintError] {
    var value = raw
    defer {
        value = 1
    }
    Positive(value)
}

fn cleanupReadsLate() {
    var value = 1
    defer {
        discard Positive(value)
    }
    value = 0
}

fn repeatedBody() {
    var value = 0
    for index in 0..2 {
        value = value + 1
        discard Positive(value)
    }
}
",
    );
    assert!(found.is_clean(), "{:#?}", found.report());
    assert_eq!(
        found.construction_checks(),
        [ConstructionCheck::Runtime; 4]
    );
}

#[test]
fn constrained_construction_uses_constants_and_established_path_facts() {
    let found = analyze_source_with_std_float(
        r"
import std.float.is_finite

type Money = Float where is_finite(self) && self >= 0.0

fn literal() Money { Money(10.0) }

fn folded() Money { Money(4.0 + 6.0) }

fn checked(raw Float) Result[Money, ConstraintError] { Money(raw) }

fn required(raw Float) Money
    requires is_finite(raw) && raw >= 0.0
{
    Money(raw)
}

fn asserted(raw Float) Money {
    assert is_finite(raw) && raw > 0.0
    Money(raw)
}

fn branched(raw Float) Result[Money, ConstraintError] {
    if is_finite(raw) && raw >= 0.0 {
        Ok(Money(raw))
    } else {
        checked(raw)
    }
}
",
    );
    assert!(found.is_clean(), "{:#?}", found.report());
    assert_eq!(
        found.constructions(ConstructionCheck::Proven),
        5,
        "{:?}",
        found.construction_checks()
    );
    assert_eq!(
        found.constructions(ConstructionCheck::Runtime),
        1,
        "{:?}",
        found.construction_checks()
    );
}

#[test]
fn constrained_literal_proof_is_independent_of_package_file_order() {
    let found = analyze_units(vec![
        Unit {
            module: "application.config",
            package: APPLICATION,
            source: r"import foundation.money.Money

fn maximum_order() Money {
    Money(1000.0)
}
"
            .to_owned(),
        },
        Unit {
            module: "foundation.money",
            package: FOUNDATION,
            source: r"import std.float.is_finite

pub type Money = Float where is_finite(self) && self >= 0.0
"
            .to_owned(),
        },
        Unit {
            module: "std.float",
            package: COMPILER_STD,
            source: STD_FLOAT.to_owned(),
        },
    ]);
    assert!(found.is_clean(), "{:#?}", found.report());
    assert_eq!(found.construction_checks(), [ConstructionCheck::Proven]);
}

#[test]
fn invariant_literals_share_the_same_proof_and_runtime_boundary() {
    let found = analyze_source(
        r"
type Money = Float where self >= 0.0

record Range {
    low Money
    high Money
    invariant self.low <= self.high
}

fn literal() Range {
    let low = Money(1.0)
    let high = Money(2.0)
    Range { low = low, high = high }
}

fn checked(low Money, high Money) Result[Range, ConstraintError] {
    Range { low = low, high = high }
}

fn required(low Money, high Money) Range
    requires low <= high
{
    Range { low = low, high = high }
}
",
    );
    assert!(found.is_clean(), "{:#?}", found.report());
    assert_eq!(
        found.constructions(ConstructionCheck::Proven),
        4,
        "{:?}",
        found.construction_checks()
    );
    assert_eq!(
        found.constructions(ConstructionCheck::Runtime),
        1,
        "{:?}",
        found.construction_checks()
    );
}

#[test]
fn statically_false_constraint_and_invariant_are_source_errors() {
    let found = analyze_source(
        r"
type Money = Float where self >= 0.0

record Range {
    low Money
    high Money
    invariant self.low <= self.high
}

fn bad_money() Money { Money(-1.0) }

fn bad_range() Range {
    let low = Money(2.0)
    let high = Money(1.0)
    Range { low = low, high = high }
}
",
    );
    assert!(found.has("ConstraintUnsatisfied"), "{:#?}", found.report());
    assert!(found.has("InvariantUnsatisfied"), "{:#?}", found.report());
}

#[test]
fn constrained_conversion_matrix_is_one_way_and_check_free_when_established() {
    let found = analyze_source(
        r"
type Money = Float where self >= 0.0
type Positive = Float where self > 0.0

fn widen(value Money) Float { value }

fn calculate(value Money) Float { value + 1.0 }

fn reestablish(value Money) Money { Money(value) }

fn positive() Positive { Positive(1.0) }

fn strict_to_loose() Money { Money(positive()) }

fn pair(value Money) (Money, Money) { (value, value) }

fn tuple_binding(value Money) Money {
    let first, second = pair(value)
    Money(first)
}

record Wallet {
    amount Money
    invariant self.amount >= 0.0
}

fn make_money() Money { Money(2.0) }

fn wallet_from_established_field() Wallet {
    Wallet { amount = make_money() }
}
",
    );
    assert!(found.is_clean(), "{:#?}", found.report());
    assert_eq!(found.construction_checks(), [ConstructionCheck::Proven; 6]);

    let found = analyze_source(
        r"
type Money = Float where self >= 0.0
type Percentage = Float where self >= 0.0

fn implicit_narrow(value Float) Money { value }
fn cross_nominal(value Money) Percentage { value }
",
    );
    assert_eq!(found.count("TypeMismatch"), 2, "{:#?}", found.report());
}

#[test]
fn conformance_implementation_uses_its_requirement_contract_facts() {
    let found = analyze_source(
        r"
type Money = Float where self >= 0.0

concept Factory {
    method make(self, raw Float) Money
        requires raw >= 0.0
}

record DefaultFactory {}

impl Factory for DefaultFactory {
    method make(self, raw Float) Money {
        Money(raw)
    }
}
",
    );
    assert!(found.is_clean(), "{:#?}", found.report());
    assert_eq!(found.construction_checks(), [ConstructionCheck::Proven]);
}

#[test]
fn loops_and_impure_conditions_do_not_create_stale_proofs() {
    let found = analyze_source(
        r"
type Money = Float where self >= 0.0

record Cell { value Float }

impl Cell {
    method make_negative(mut self) Bool {
        self.value = -1.0
        true
    }

    method make_positive(mut self) {
        self.value = 1.0
    }
}

fn after_loop(raw Float, count Int) Result[Money, ConstraintError] {
    var value = raw
    for index in 0..count {
        value = 1.0
        Unit
    }
    Money(value)
}

fn after_impure_condition(raw Float) {
    var cell = Cell { value = raw }
    if cell.value >= 0.0 && cell.make_negative() {
        let checked = Money(cell.value)
        Unit
    } else {
        Unit
    }
}

fn copied_before_mutation(raw Float) {
    var cell = Cell { value = raw }
    let snapshot = cell.value
    cell.make_positive()
    if cell.value >= 0.0 {
        let checked = Money(snapshot)
        Unit
    } else {
        Unit
    }
}
",
    );
    assert!(found.is_clean(), "{:#?}", found.report());
    assert_eq!(
        found.construction_checks(),
        [ConstructionCheck::Runtime; 3]
    );
}

// What the analysis promises, on programs of its own.

/// The programs whose first diagnostic is not the wanted one.
fn surprises(cases: &[(&str, &str)]) -> Vec<String> {
    let mut wrong = vec![];
    for (source, code) in cases {
        let found = analyze_source(source);
        if found.codes().first() != Some(code) {
            wrong.push(format!("{source}\n=> {:?}", found.report()));
        }
    }
    wrong
}

#[test]
fn mistakes_in_values_have_their_codes() {
    let wrong = surprises(&[
        ("fn f() Int { missing }", "UnknownName"),
        ("fn f() Nope { 1 }", "UnknownName"),
        ("fn f() Int { true }", "TypeMismatch"),
        ("fn f() {}\nfn f() {}", "DuplicateDeclaration"),
        ("record P { x Int }\nfn f() P { P { } }", "MissingField"),
        (
            "record P { x Int }\nfn f() P { P { x = 1, y = 2 } }",
            "UnknownField",
        ),
        (
            "record P { x Int }\nfn f() P { P { x = 1, x = 2 } }",
            "DuplicateField",
        ),
        ("fn f() {\nlet x = 1\nx = 2\n}", "ImmutableBindingAssignment"),
        ("fn f() {\n1 = 2\n}", "InvalidAssignmentTarget"),
        ("fn f() {\nbreak\n}", "LoopControlOutsideLoop"),
        ("fn f() Int {\n1\n2\n}", "UnusedValue"),
        (
            "fn f(x (Int, Int)) {\nlet a, b, c = x\n}",
            "TupleArityMismatch",
        ),
        ("fn f(x Int) {\nlet a, b = x\n}", "TupleBindingRequiresTuple"),
        ("fn f() {\nlet x = []\n}", "CannotInferListElement"),
        ("fn f(x Int) Int { x? }", "PropagationRequiresResult"),
        (
            "fn f(x Result[Int, Text]) Int { x? }",
            "PropagationRequiresResultReturn",
        ),
        ("fn f(x Int) Int { old(x) }", "InvalidOldExpression"),
        ("fn f() Int { 1 + true }", "InvalidGenericOperation"),
        ("const a Int = a", "ConstantCycle"),
        ("const a Text = \"\\q\"", "ConstantEvaluationFailed"),
    ]);
    assert!(wrong.is_empty(), "{}", wrong.join("\n\n"));
}

#[test]
fn mistakes_in_concepts_have_their_codes() {
    let wrong = surprises(&[
        (
            "concept C { method m(self) Int }\nrecord R {}\nimpl C for R {}",
            "IncompleteConformance",
        ),
        (
            "concept C { method m(self) Int }\nrecord R {}\nimpl C for R { method m(self) Bool { true } }",
            "ConformanceSignatureMismatch",
        ),
        (
            "concept C { method m(self) Int }\nrecord B[T] { value T }\nimpl[T] C for B[T] { method m(self) Int { 1 } }\nimpl C for B[Int] { method m(self) Int { 2 } }",
            "OverlappingConformance",
        ),
        (
            "concept C { method m(self) Int }\nrecord R {}\nimpl C for R { method m(self) Int { 1 } }\nimpl C for R { method m(self) Int { 2 } }",
            "DuplicateConformance",
        ),
        (
            "concept C { method m(self) Int }\nfn g[T: C](x T) Int { x.m() }\nfn f() Int { g(1) }",
            "MissingConformance",
        ),
        (
            "concept C { method m(self) Int }\nrecord R {}\nimpl[T] C for R { method m(self) Int { 1 } }",
            "UnconstrainedImplParameter",
        ),
        ("impl Int { method m(self) {} }", "ForeignInherentImpl"),
        (
            "dyn concept C { method m[T](self, x T) }",
            "DynGenericMethod",
        ),
        (
            "concept C { method m(self) }\nfn f(x dyn C) {}",
            "DynNotDeclared",
        ),
        (
            "record A { b B }\nrecord B { a A }",
            "RecursiveValueType",
        ),
    ]);
    assert!(wrong.is_empty(), "{}", wrong.join("\n\n"));
}

#[test]
fn mistakes_in_tasks_have_their_codes() {
    let wrong = surprises(&[
        (
            "async fn g() Int { 1 }\nfn f() Int {\nlet x = await g()\nx\n}",
            "AwaitOutsideAsync",
        ),
        (
            "fn g() Int { 1 }\nasync fn f() Int {\nlet x = await g()\nx\n}",
            "AwaitRequiresAsyncCall",
        ),
        (
            "async fn g() Int { 1 }\nasync fn f() {\ndefer {\nlet x = await g()\n}\n}",
            "AwaitInCleanup",
        ),
    ]);
    assert!(wrong.is_empty(), "{}", wrong.join("\n\n"));
}

#[test]
fn messages_name_types_and_definitions() {
    let report = |source: &str| analyze_source(source).report();
    assert_eq!(
        report("fn f() Int { true }"),
        ["TypeMismatch: expected Int, found Bool"]
    );
    assert_eq!(
        report("fn f(x Option[List[Text]]) (Int, Bool) { x }"),
        ["TypeMismatch: expected (Int, Bool), found Option[List[Text]]"]
    );
    assert_eq!(
        report("type Money = Float where self >= 0.0\nfn f() Money { Money(-1.0) }"),
        ["ConstraintUnsatisfied: value is statically known to violate `Money`"]
    );
}

#[test]
fn every_set_of_arms_is_accepted_exactly_when_it_covers_all_values() {
    let arms = ["Some(true) => 1", "Some(false) => 2", "None => 3"];
    for chosen in 1..8u32 {
        let mut source = "fn f(x Option[Bool]) Int {\nmatch x {\n".to_owned();
        for (position, arm) in arms.iter().enumerate() {
            if chosen & (1 << position) != 0 {
                source.push_str(arm);
                source.push('\n');
            }
        }
        source.push_str("}\n}\n");
        let found = analyze_source(&source);
        assert_eq!(found.has("NonExhaustiveMatch"), chosen != 7, "{source}");
        assert!(!found.has("UnreachableMatchArm"), "{source}");
    }
}

#[test]
fn diagnostics_come_in_the_order_of_the_source() {
    let found = analyze_source("fn f() Int { true }\nfn g() Text { 1 }\nfn h() Int { other }\n");
    let mut starts = vec![];
    let mut current = &found.analysis.diagnostics;
    while let Chain::Link(link) = current {
        starts.push(link.item.primary.start);
        current = &link.rest;
    }
    starts.reverse();
    let mut sorted = starts.clone();
    sorted.sort_unstable();
    assert_eq!(starts, sorted);
    assert_eq!(found.codes(), ["TypeMismatch", "TypeMismatch", "UnknownName"]);
}

#[test]
fn float_results_that_are_not_known_are_asked_for() {
    let (program, _) = lower(&[Unit {
        module: "main",
        package: STANDALONE,
        source: "const ratio Float = 6.0 / 2.0\n\
                 type Money = Float where self >= 0.0\n\
                 fn folded() Money { Money(4.0 + 6.0) }\n"
            .to_owned(),
    }]);
    let mut facts = list(vec![]);
    let first = analyze(&program, &facts);
    let asked = items(&first.float_requests);
    let wanted = |op: BinaryOp, left: f64, right: f64| {
        asked.iter().any(|request| {
            request.op == op
                && request.left == left.to_bits()
                && request.right == right.to_bits()
        })
    };
    assert!(wanted(BinaryOp::Divide, 6.0, 2.0));
    assert!(wanted(BinaryOp::Add, 4.0, 6.0));
    assert!(first.has_errors());
    assert!(float_facts(&first, &mut facts));
    let second = analyze(&program, &facts);
    assert!(items(&second.float_requests).is_empty());
    assert!(!second.has_errors());
}

#[test]
fn a_reused_body_is_not_checked_again() {
    let unit = |source: &str| Unit {
        module: "main",
        package: STANDALONE,
        source: source.to_owned(),
    };
    let (good, _) = lower(&[unit("fn f() Int { 1 }\n")]);
    let (bad, _) = lower(&[unit("fn f() Int { true }\n")]);
    let none = list(vec![]);
    let previous = analyze(&good, &none);
    assert!(!previous.has_errors());
    let reused = analyze_reusing_bodies(&bad, &none, &previous, &list(vec![0]));
    assert!(!reused.has_errors());
    assert!(reused.typed.bodies.get(0).is_some());
    let checked = analyze_reusing_bodies(&bad, &none, &previous, &list(vec![]));
    assert!(checked.has_errors());
    assert_eq!(items(&checked.diagnostics.clone()).len(), 1);
}

#[test]
fn every_body_has_semantics_even_in_a_wrong_program() {
    let found = analyze_source(
        "const a Int = b\ntype P = Int where self > 0\nrecord R {\nx Int\ninvariant self.x > 0\n}\nfn f(x Int) Int\nrequires x > 0\nensures result > 0\n{ true }\n",
    );
    assert!(found.analysis.has_errors());
    assert_eq!(found.bodies().len(), found.program.bodies.len());
    assert_eq!(found.program.bodies.len(), 6);
}

#[test]
fn facts_of_a_conjunction_prove_its_parts() {
    let found = analyze_source(
        r"
type Positive = Int where self > 0
type Natural = Int where self >= 0

fn both(a Int, b Int) Natural {
    assert a > 0 && b > 0
    Natural(a)
}

fn neither(a Int, b Int) Positive {
    if !(a > 0) || b > 0 {
        Positive(1)
    } else {
        Positive(a)
    }
}

fn joined(a Int, flag Bool) Result[Positive, ConstraintError] {
    if flag {
        assert a > 0
    } else {
        assert a > 1
    }
    Positive(a)
}
",
    );
    assert!(found.is_clean(), "{:#?}", found.report());
    assert_eq!(
        found.construction_checks(),
        [
            ConstructionCheck::Proven,
            ConstructionCheck::Proven,
            ConstructionCheck::Proven,
            ConstructionCheck::Runtime,
        ]
    );
}

#[test]
fn a_write_forgets_what_was_known_of_the_place() {
    let found = analyze_source(
        r"
type Positive = Int where self > 0

fn written(other Int) Result[Positive, ConstraintError] {
    var a = 1
    a = other
    Positive(a)
}

fn kept(other Int) Positive {
    var a = 1
    var b = 2
    b = other
    Positive(a)
}
",
    );
    assert!(found.is_clean(), "{:#?}", found.report());
    assert_eq!(
        found.construction_checks(),
        [ConstructionCheck::Runtime, ConstructionCheck::Proven]
    );
}

#[test]
fn calls_know_their_targets() {
    let found = analyze_source(
        r"
dyn concept Show {
    method show(self) Int
}

record R { value Int }

impl R {
    method get(self) Int { self.value }
}

impl Show for R {
    method show(self) Int { self.get() }
}

fn generic[T: Show](x T) Int { x.show() }

fn dynamic(x dyn Show) Int { x.show() }

fn all(r R) Int { generic(r) + dynamic(r) + r.show() }
",
    );
    assert!(found.is_clean(), "{:#?}", found.report());
    let mut inherent = 0;
    let mut fixed = 0;
    let mut dynamic = 0;
    let mut functions = 0;
    for body in found.bodies() {
        for expression in 0..found.largest_body {
            match body.calls.get(expression).map(|call| call.target) {
                Some(CallTarget::InherentMethod(_)) => inherent += 1,
                Some(CallTarget::StaticConcept { .. }) => fixed += 1,
                Some(CallTarget::DynamicConcept { .. }) => dynamic += 1,
                Some(CallTarget::Function(_)) => functions += 1,
                _ => {}
            }
        }
    }
    assert_eq!((inherent, fixed, dynamic, functions), (1, 2, 1, 2));
    let concrete = found.bodies().iter().any(|body| {
        (0..found.largest_body).any(|expression| match body.views.get(expression) {
            Some(view) => matches!(
                &view.source,
                ViewSource::Concrete {
                    witness: WitnessSelection {
                        source: WitnessSource::Implementation(_),
                        ..
                    },
                    ..
                }
            ),
            None => false,
        })
    });
    assert!(concrete);
}

const STD_RESOURCE: &str = r"
pub concept Dispose {
    method dispose(mut self)
}

pub concept MustScope {}
pub concept NoSuspend {}
";

const RESOURCES: &str = r"
import std.resource.Dispose
import std.resource.MustScope
import std.resource.NoSuspend

record Handle { id Int }
impl Dispose for Handle { method dispose(mut self) {} }
impl MustScope for Handle {}
fn open() Handle { Handle { id = 1 } }

record Guard { id Int }
impl Dispose for Guard { method dispose(mut self) {} }
impl NoSuspend for Guard {}
fn lock() Guard { Guard { id = 1 } }

async fn work() Int { 1 }
";

fn analyze_with_resources(source: &str) -> Found {
    analyze_units(vec![
        Unit {
            module: "std.resource",
            package: COMPILER_STD,
            source: STD_RESOURCE.to_owned(),
        },
        Unit {
            module: "application",
            package: APPLICATION,
            source: format!("{RESOURCES}\n{source}\n"),
        },
    ])
}

/// The programs over resources and tasks whose codes are not the wanted ones.
fn resource_surprises(cases: &[(&str, &[&str])]) -> Vec<String> {
    let mut wrong = vec![];
    for (source, codes) in cases {
        let found = analyze_with_resources(source);
        if found.codes() != *codes {
            wrong.push(format!("{source}\n=> {:?}", found.report()));
        }
    }
    wrong
}

#[test]
fn resources_are_bound_to_a_scope() {
    let wrong = resource_surprises(&[
        ("", &[]),
        ("fn f() {\nscoped h = open()\n}", &[]),
        ("fn f() {\nlet h = open()\n}", &["MustScopeRequiresScoped"]),
        ("fn f() {\ndiscard open()\n}", &["MustScopeRequiresScoped"]),
        ("fn f() {\nopen()\nUnit\n}", &["MustScopeRequiresScoped"]),
        ("fn f() {\nscoped x = 1\n}", &["ScopedRequiresDispose"]),
        (
            "fn f() {\nscoped h = open()\nh.dispose()\n}",
            &["ManualDisposeOfScopedValue"],
        ),
    ]);
    assert!(wrong.is_empty(), "{}", wrong.join("\n\n"));
}

#[test]
fn cleanups_do_not_leave_their_scope() {
    let wrong = resource_surprises(&[
        (
            "fn f() {\ndefer {\nscoped h = open()\n}\n}",
            &["CleanupRegistrationInCleanup"],
        ),
        (
            "fn f() {\ndefer {\ndefer {\n}\n}\n}",
            &["CleanupRegistrationInCleanup"],
        ),
        ("fn f() {\ndefer {\nreturn\n}\n}", &["ReturnFromCleanup"]),
        (
            "fn f(x Result[Int, Text]) Result[Int, Text] {\ndefer {\nlet y = x?\n}\nx\n}",
            &["PropagationInCleanup"],
        ),
        (
            "fn f() {\nwhile true {\ndefer {\nbreak\n}\n}\n}",
            &["LoopControlFromCleanup"],
        ),
    ]);
    assert!(wrong.is_empty(), "{}", wrong.join("\n\n"));
}

#[test]
fn tasks_are_consumed_once_on_every_path() {
    let wrong = resource_surprises(&[
        ("async fn f() Int {\nlet t = work()\nlet x = await t\nx\n}", &[]),
        (
            "async fn f(flag Bool) Int {\nlet t = work()\nif flag {\nlet x = await t\n} else {\nlet y = await t\n}\n1\n}",
            &[],
        ),
        (
            "async fn f() (Int, Int) {\nlet a = work()\nlet b = work()\nlet both = await Task.all(a, b)\nboth\n}",
            &[],
        ),
        ("fn f(t Task[Int]) Task[Int] { t }", &[]),
        ("async fn f() {\nawait Task.sleep(1)\n}", &[]),
        ("async fn f() Int {\nwork()\n1\n}", &["UnawaitedAsyncCall"]),
        (
            "async fn f() Int {\ndiscard work()\n1\n}",
            &["UnawaitedAsyncCall"],
        ),
        ("fn f(t Task[Int]) {\n}", &["UnawaitedAsyncCall"]),
        (
            "async fn f(flag Bool) Int {\nlet t = work()\nwhile flag {\nlet x = await t\n}\n1\n}",
            &["UnawaitedAsyncCall", "LoopObligationStateNotRestored"],
        ),
        (
            "async fn f() Int {\nlet x = await Task.all()\n1\n}",
            &["EmptyStaticTaskJoin"],
        ),
        (
            "async fn f() Int {\nlet x = await Task.all(1)\n1\n}",
            &["TaskJoinRequiresTasks"],
        ),
        (
            "async fn f() Int {\nlet x = await Task.race(work(), work())\nx\n}",
            &["TypeMismatch"],
        ),
        (
            "async fn f() Int {\nscoped g = lock()\nlet x = await work()\nx\n}",
            &["NoSuspendAcrossAwait"],
        ),
        (
            "async fn f() Int {\nlet x = await work()\nscoped g = lock()\nx\n}",
            &[],
        ),
    ]);
    assert!(wrong.is_empty(), "{}", wrong.join("\n\n"));
}

#[test]
fn collections_variants_and_contracts_are_checked() {
    let wrong = resource_surprises(&[
        (
            "fn f() Int {\nvar xs = List[Int]()\nxs.add(1)\nxs.length()\n}",
            &[],
        ),
        (
            "fn f() Int {\nlet xs = List[Int]()\nxs.add(1)\nxs.length()\n}",
            &["MutReceiverRequiresVar"],
        ),
        (
            "fn f() Option[Int] {\nvar m = TextMap[Int]()\nm.insert(\"a\", 1)\nm.get(\"a\")\n}",
            &["UnusedValue"],
        ),
        ("fn f(t Text) Int { t.size() }", &["UnknownName"]),
        ("enum E {\nA\nB(Int)\n}\nfn f() E { E.B(1) }", &[]),
        (
            "enum E {\nA\nB(Int)\n}\nfn f(e E) Int {\nmatch e {\nA => 0\nB(x) => x\n}\n}",
            &[],
        ),
        (
            "fn f(x Int) Int {\nmatch x {\n0 => 1\n}\n}",
            &["NonExhaustiveMatch"],
        ),
        ("fn f(x Int) Int\nensures old(x) == result\n{ x }", &[]),
        (
            "fn g() Bool { true }\nfn f(x Int) Int\nrequires g()\n{ x }",
            &["InvalidContractExpression"],
        ),
        (
            "fn f[T](x Int) Option[T] { None }\nfn g() {\nlet y = f(1)\n}",
            &["CannotInferType"],
        ),
        (
            "fn f(x Int) Int { x }\nfn g() Int { f(1, 2) }",
            &["TypeMismatch"],
        ),
    ]);
    assert!(wrong.is_empty(), "{}", wrong.join("\n\n"));
}

#[test]
fn a_place_is_not_used_while_it_is_borrowed() {
    let wrong = resource_surprises(&[
        (
            "record C { n Int }\nimpl C { method both(mut self, o Int) Int { o } }\nfn f() Int {\nvar c = C { n = 0 }\nc.both(c.both(1))\n}",
            &["InoutAliasConflict"],
        ),
        (
            "record C { n Int }\nimpl C { method bump(mut self) { self.n = self.n + 1 } }\nfn f() {\nvar c = C { n = 0 }\nc.bump()\n}",
            &[],
        ),
        (
            "record C { n Int }\nimpl C { method set(self) { self.n = 1 } }",
            &["ImmutableBindingAssignment"],
        ),
        (
            "dyn concept S { method go(mut self) }\nrecord R { n Int }\nimpl S for R { method go(mut self) {} }\nfn two(a dyn S, b dyn S) {}\nfn f() {\nvar r = R { n = 0 }\ntwo(r, r)\n}",
            &["BorrowConflict", "BorrowConflict"],
        ),
    ]);
    assert!(wrong.is_empty(), "{}", wrong.join("\n\n"));
}

#[test]
fn a_nameless_field_takes_the_value_of_the_error_name() {
    let analyzed = |written: &str| {
        let (mut program, largest_body) = lower(&[Unit {
            module: "main",
            package: STANDALONE,
            source: format!(
                "record R {{\n    value Int\n}}\n\nfn f() R {{\n    R {{ {written} = 1 }}\n}}\n"
            ),
        }]);
        for definition in &mut program.definitions {
            if matches!(definition.kind, DefinitionKind::Field { .. }) {
                definition.name = None;
            }
        }
        let analysis = analyze(&program, &list(vec![]));
        Found {
            program,
            analysis,
            largest_body,
        }
    };
    let taken = analyzed("`<error>`");
    assert!(taken.is_clean(), "{:#?}", taken.report());
    let missed = analyzed("value");
    assert!(missed.has("MissingField"), "{:#?}", missed.report());
    assert!(missed.has("UnknownField"), "{:#?}", missed.report());
}

#[test]
fn a_reused_body_keeps_its_types() {
    let unit = |source: &str| Unit {
        module: "main",
        package: STANDALONE,
        source: source.to_owned(),
    };
    let (first, _) = lower(&[unit(
        "fn f(x Option[Int]) Option[Int] { x }\nfn g() Int { 1 }\n",
    )]);
    let (second, _) = lower(&[unit(
        "fn f(x Option[Int]) Option[Int] { x }\nfn g() Option[Option[Text]] { Some(Some(\"a\")) }\n",
    )]);
    let none = list(vec![]);
    let previous = analyze(&first, &none);
    assert!(!previous.has_errors());
    let again = analyze_reusing_bodies(&second, &none, &previous, &list(vec![0]));
    assert!(!again.has_errors());
    let kept = previous.typed.bodies.get(0).expect("the body was checked");
    let reused = again.typed.bodies.get(0).expect("the body is reused");
    for id in 0..8 {
        let before = kept.expression_types.get(id);
        assert_eq!(before, reused.expression_types.get(id));
        if let Some(ty) = before {
            assert!(previous.typed.types.data(*ty).same(again.typed.types.data(*ty)));
        }
    }
}

#[test]
fn a_generic_parameter_hides_the_task_namespace() {
    let plain = analyze_source("async fn f() {\nawait Task.sleep(1)\n}\n");
    assert!(plain.is_clean(), "{:#?}", plain.report());
    let hidden = analyze_source("async fn f[Task](y Task) {\nawait Task.sleep(1)\n}\n");
    assert!(hidden.analysis.has_errors());
}

#[test]
fn reports_of_modules_stand_beside_those_of_bodies() {
    let found = analyze_source("import nowhere.Thing\n\nfn f() Int {\n    true\n}\n");
    assert!(found.has("UnknownName"), "{:#?}", found.report());
    assert!(found.has("TypeMismatch"), "{:#?}", found.report());
}

/// A program whose second module holds the tests of the first.
fn analyze_with_companion(production: &str, tests: &str, is_companion: bool) -> Found {
    let unit = |module: &'static str, source: &str| Unit {
        module,
        package: APPLICATION,
        source: source.to_owned(),
    };
    let (mut program, largest_body) = lower(&[unit("shop", production), unit("shop.tests", tests)]);
    let companion = &mut program.modules[1];
    companion.test_companion = is_companion;
    if is_companion {
        companion.production = ModuleId(0);
        companion.private_access = list(vec![ModuleId(1), ModuleId(0)]);
    }
    let analysis = analyze(&program, &list(vec![]));
    Found {
        program,
        analysis,
        largest_body,
    }
}

#[test]
fn a_conformance_of_tests_is_used_only_in_those_tests() {
    let tests = "pub concept Priced {\n    method price(self) Int\n}\n\npub record Item {\n    cost Int\n}\n\nimpl Priced for Item {\n    method price(self) Int {\n        self.cost\n    }\n}\n\npub fn total[T: Priced](item T) Int {\n    item.price()\n}\n\nfn check(item Item) Int {\n    total(item)\n}\n";
    let used = "import shop.tests.Item\nimport shop.tests.total\n\nfn sum(item Item) Int {\n    total(item)\n}\n";
    let inside = analyze_with_companion("fn nothing() {}\n", tests, true);
    assert!(inside.is_clean(), "{:#?}", inside.report());
    let outside = analyze_with_companion(used, tests, true);
    assert_eq!(outside.codes(), ["MissingConformance"], "{:#?}", outside.report());
    let shared = analyze_with_companion(used, tests, false);
    assert!(shared.is_clean(), "{:#?}", shared.report());
}
