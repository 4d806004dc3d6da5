//! The state of analysing the declarations of a program.

use vstd::prelude::*;

use crate::chain::Chain;
use crate::conformance::{ImplHeader, ImplIndex};
#[allow(unused_imports)]
use crate::conformance::{bucket_inserted, buckets_sorted};
#[allow(unused_imports)]
use crate::diagnostics::{adds_to, lemma_adds_nothing, lemma_adds_one, lemma_adds_through};
use crate::diagnostics::{Diagnostic, Message};
use crate::hir::Program;
use crate::ids::{BodyId, DefId, Span, TyId};
use crate::resolve::TypeResolver;
#[allow(unused_imports)]
use crate::resolve::Names;
use crate::semantics::{BodySemantics, ConformanceSemantics, ConstantValue, FloatOperation, Signature};
use crate::table::Table;
use crate::ty::TyData;
#[allow(unused_imports)]
use crate::ty::{ty_data, types_wf};

verus! {

broadcast use {lemma_adds_nothing, lemma_adds_one, lemma_adds_through};

/// What is known of the declarations and bodies of a program.
pub struct SurveyState {
    pub signatures: Table<Signature>,
    pub conformances: Table<ConformanceSemantics>,
    pub impl_index: ImplIndex,
    pub constants: Table<ConstantValue>,
    pub bodies: Table<BodySemantics>,
    /// The float operations whose results the constants still need.
    pub float_requests: Chain<FloatOperation>,
}

/// The state of the analysis, as contracts speak of it.
pub struct Survey {
    pub names: Names,
    pub st: SurveyState,
}

/// An analysis of a program.
pub struct Analyzer {
    pub names: TypeResolver,
    pub st: SurveyState,
}

impl View for Analyzer {
    type V = Survey;

    open spec fn view(&self) -> Survey {
        Survey { names: self.names@, st: self.st }
    }
}

impl Program {
    /// The definitions and the bodies can be numbered.
    pub open spec fn fits(self) -> bool {
        self.definitions@.len() <= u32::MAX && self.bodies@.len() <= u32::MAX
    }
}

impl Survey {
    pub open spec fn wf(self) -> bool {
        types_wf(self.names.types)
    }

    pub open spec fn with_names(self, names: Names) -> Survey {
        Survey { names, ..self }
    }

    pub open spec fn with_types(self, types: Seq<TyData>) -> Survey {
        Survey { names: Names { types, ..self.names }, ..self }
    }

    pub open spec fn data(self, ty: TyId) -> TyData {
        ty_data(self.names.types, ty)
    }

    #[verifier::opaque]
    pub open spec fn report(self, diagnostic: Diagnostic) -> Survey {
        self.with_names(self.names.report(diagnostic))
    }

    #[verifier::opaque]
    pub open spec fn error(self, code: &'static str, message: Message, span: Span) -> Survey {
        self.with_names(self.names.error(code, message, span))
    }

    pub open spec fn text_error(
        self,
        code: &'static str,
        text: &'static str,
        span: Span,
    ) -> Survey {
        self.error(code, Message::Text(text), span)
    }

    #[verifier::opaque]
    pub open spec fn set_signature(self, definition: DefId, signature: Signature) -> Survey {
        Survey {
            st: SurveyState {
                signatures: self.st.signatures.inserted(definition.0, signature),
                ..self.st
            },
            ..self
        }
    }

    #[verifier::opaque]
    pub open spec fn set_conformance(
        self,
        definition: DefId,
        conformance: ConformanceSemantics,
    ) -> Survey {
        Survey {
            st: SurveyState {
                conformances: self.st.conformances.inserted(definition.0, conformance),
                ..self.st
            },
            ..self
        }
    }

    #[verifier::opaque]
    pub open spec fn set_index(self, impl_index: ImplIndex) -> Survey {
        Survey { st: SurveyState { impl_index, ..self.st }, ..self }
    }

    #[verifier::opaque]
    pub open spec fn set_constant(self, definition: DefId, value: ConstantValue) -> Survey {
        Survey {
            st: SurveyState {
                constants: self.st.constants.inserted(definition.0, value),
                ..self.st
            },
            ..self
        }
    }

    #[verifier::opaque]
    pub open spec fn set_body(self, body: BodyId, semantics: BodySemantics) -> Survey {
        Survey {
            st: SurveyState { bodies: self.st.bodies.inserted(body.0, semantics), ..self.st },
            ..self
        }
    }

    #[verifier::opaque]
    pub open spec fn request(self, operation: FloatOperation) -> Survey {
        Survey {
            st: SurveyState {
                float_requests: self.st.float_requests.pushed(operation),
                ..self.st
            },
            ..self
        }
    }

    #[verifier::opaque]
    pub open spec fn request_all(self, operations: Chain<FloatOperation>) -> Survey {
        Survey {
            st: SurveyState {
                float_requests: self.st.float_requests.joined(operations),
                ..self.st
            },
            ..self
        }
    }

    pub open spec fn signature_of(self, definition: DefId) -> Option<Signature> {
        self.st.signatures.lookup(definition.0)
    }
}

impl Analyzer {
    pub open spec fn wf(self) -> bool {
        types_wf(self.names.types@)
    }

    pub fn report(&mut self, diagnostic: Diagnostic)
        ensures
            adds_to(old(self)@.names.diagnostics, final(self)@.names.diagnostics),
            final(self)@.names.types == old(self)@.names.types,
            final(self)@ == old(self)@.report(diagnostic),
    {
        proof {
            reveal(Survey::report);
        }
        self.names.report(diagnostic);
    }

    pub fn error(&mut self, code: &'static str, message: Message, span: Span)
        ensures
            adds_to(old(self)@.names.diagnostics, final(self)@.names.diagnostics),
            final(self)@.names.types == old(self)@.names.types,
            final(self)@ == old(self)@.error(code, message, span),
    {
        proof {
            reveal(Survey::error);
        }
        self.names.error(code, message, span);
    }

    pub fn text_error(&mut self, code: &'static str, text: &'static str, span: Span)
        ensures
            adds_to(old(self)@.names.diagnostics, final(self)@.names.diagnostics),
            final(self)@.names.types == old(self)@.names.types,
            final(self)@ == old(self)@.text_error(code, text, span),
    {
        self.error(code, Message::Text(text), span);
    }

    pub fn set_signature(&mut self, definition: DefId, signature: Signature)
        ensures
            adds_to(old(self)@.names.diagnostics, final(self)@.names.diagnostics),
            final(self)@.names.types == old(self)@.names.types,
            final(self)@ == old(self)@.set_signature(definition, signature),
    {
        proof {
            reveal(Survey::set_signature);
        }
        self.st.signatures.insert(definition.0, signature);
    }

    pub fn set_conformance(&mut self, definition: DefId, conformance: ConformanceSemantics)
        ensures
            adds_to(old(self)@.names.diagnostics, final(self)@.names.diagnostics),
            final(self)@.names.types == old(self)@.names.types,
            final(self)@ == old(self)@.set_conformance(definition, conformance),
    {
        proof {
            reveal(Survey::set_conformance);
        }
        self.st.conformances.insert(definition.0, conformance);
    }

    pub fn set_constant(&mut self, definition: DefId, value: ConstantValue)
        ensures
            adds_to(old(self)@.names.diagnostics, final(self)@.names.diagnostics),
            final(self)@.names.types == old(self)@.names.types,
            final(self)@ == old(self)@.set_constant(definition, value),
    {
        proof {
            reveal(Survey::set_constant);
        }
        self.st.constants.insert(definition.0, value);
    }

    pub fn set_body(&mut self, body: BodyId, semantics: BodySemantics)
        ensures
            adds_to(old(self)@.names.diagnostics, final(self)@.names.diagnostics),
            final(self)@.names.types == old(self)@.names.types,
            final(self)@ == old(self)@.set_body(body, semantics),
    {
        proof {
            reveal(Survey::set_body);
        }
        self.st.bodies.insert(body.0, semantics);
    }

    pub fn request(&mut self, operation: FloatOperation)
        ensures
            adds_to(old(self)@.names.diagnostics, final(self)@.names.diagnostics),
            final(self)@.names.types == old(self)@.names.types,
            final(self)@ == old(self)@.request(operation),
    {
        proof {
            reveal(Survey::request);
        }
        self.st.float_requests.push(operation);
    }

    pub fn request_all(&mut self, operations: &Chain<FloatOperation>)
        ensures
            adds_to(old(self)@.names.diagnostics, final(self)@.names.diagnostics),
            final(self)@.names.types == old(self)@.names.types,
            final(self)@ == old(self)@.request_all(*operations),
    {
        proof {
            reveal(Survey::request_all);
        }
        self.st.float_requests = self.st.float_requests.join(operations);
    }

    pub fn insert_header(&mut self, header: ImplHeader)
        ensures
            adds_to(old(self)@.names.diagnostics, final(self)@.names.diagnostics),
            final(self)@.names.types == old(self)@.names.types,
            final(self)@ == old(self)@.set_index(
                ImplIndex { buckets: bucket_inserted(old(self)@.st.impl_index.buckets, header) },
            ),
    {
        proof {
            reveal(Survey::set_index);
        }
        self.st.impl_index.insert(header);
    }

    pub fn finish_index(&mut self)
        ensures
            adds_to(old(self)@.names.diagnostics, final(self)@.names.diagnostics),
            final(self)@.names.types == old(self)@.names.types,
            final(self)@ == old(self)@.set_index(
                ImplIndex { buckets: buckets_sorted(old(self)@.st.impl_index.buckets) },
            ),
    {
        proof {
            reveal(Survey::set_index);
        }
        self.st.impl_index.finish();
    }
}

} // verus!
