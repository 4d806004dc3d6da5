//! What the analysis reports.

use vstd::prelude::*;

use crate::chain::{Chain, Duplicate};
use crate::hir::Segment;
use crate::ids::{DefId, GenericParamId, ModuleId, Span, TyId};

verus! {

/// The text of a diagnostic, with the things it names.
pub enum Message {
    Text(&'static str),
    /// What the place is, and what is said of it.
    Subject(&'static str, &'static str),
    /// A name between two texts.
    Name(&'static str, String, &'static str),
    /// Two names between texts.
    Names(&'static str, String, &'static str, String, &'static str),
    /// A path between two texts.
    Path(&'static str, Chain<Segment>, &'static str),
    /// A path and a name between texts.
    PathAndName(&'static str, Chain<Segment>, &'static str, String, &'static str),
    /// The name of a definition between two texts, or what stands for it.
    Definition(&'static str, DefId, &'static str, &'static str),
    /// The names of two definitions between texts.
    Definitions(&'static str, DefId, &'static str, DefId, &'static str, &'static str),
    /// The names of definitions between two texts, or what stands for one
    /// without a name.
    DefinitionList(&'static str, Chain<DefId>, &'static str, &'static str),
    /// The names of modules behind a text.
    ModuleList(&'static str, Chain<ModuleId>),
    /// A name and the name of a module between texts.
    NameAndModule(&'static str, String, &'static str, ModuleId, &'static str),
    /// The name of a module and a name between texts.
    ModuleAndName(&'static str, ModuleId, &'static str, String, &'static str),
    /// The name of a generic parameter between two texts.
    GenericParam(&'static str, GenericParamId, &'static str),
    /// The name of a type between two texts.
    Type(&'static str, TyId, &'static str),
    /// A name and the name of a type between texts.
    NameAndType(&'static str, String, &'static str, TyId, &'static str),
    /// The names of two types between texts.
    Types(&'static str, TyId, &'static str, TyId, &'static str),
    /// Two numbers between texts.
    Counts(&'static str, usize, &'static str, usize, &'static str),
    /// A path and two numbers between texts.
    PathCounts(
        &'static str,
        Chain<Segment>,
        &'static str,
        usize,
        &'static str,
        usize,
        &'static str,
    ),
}

impl Clone for Message {
    fn clone(&self) -> (copy: Self)
        ensures
            copy == *self,
    {
        match self {
            Message::Text(a) => Message::Text(a),
            Message::Subject(a, b) => Message::Subject(a, b),
            Message::Name(a, b, c) => Message::Name(a, b.clone(), c),
            Message::Names(a, b, c, d, e) => Message::Names(a, b.clone(), c, d.clone(), e),
            Message::Path(a, b, c) => Message::Path(a, b.clone(), c),
            Message::PathAndName(a, b, c, d, e) => Message::PathAndName(
                a,
                b.clone(),
                c,
                d.clone(),
                e,
            ),
            Message::Definition(a, b, c, d) => Message::Definition(a, *b, c, d),
            Message::Definitions(a, b, c, d, e, f) => Message::Definitions(a, *b, c, *d, e, f),
            Message::DefinitionList(a, b, c, d) => Message::DefinitionList(a, b.clone(), c, d),
            Message::ModuleList(a, b) => Message::ModuleList(a, b.clone()),
            Message::NameAndModule(a, b, c, d, e) => Message::NameAndModule(
                a,
                b.clone(),
                c,
                *d,
                e,
            ),
            Message::ModuleAndName(a, b, c, d, e) => Message::ModuleAndName(
                a,
                *b,
                c,
                d.clone(),
                e,
            ),
            Message::GenericParam(a, b, c) => Message::GenericParam(a, *b, c),
            Message::Type(a, b, c) => Message::Type(a, *b, c),
            Message::NameAndType(a, b, c, d, e) => Message::NameAndType(a, b.clone(), c, *d, e),
            Message::Types(a, b, c, d, e) => Message::Types(a, *b, c, *d, e),
            Message::Counts(a, b, c, d, e) => Message::Counts(a, *b, c, *d, e),
            Message::PathCounts(a, b, c, d, e, f, g) => Message::PathCounts(
                a,
                b.clone(),
                c,
                *d,
                e,
                *f,
                g,
            ),
        }
    }
}

/// A further place that a diagnostic points at.
pub struct Label {
    pub span: Span,
    pub text: &'static str,
}

/// An error in the program.
pub struct Diagnostic {
    pub code: &'static str,
    pub message: Message,
    pub primary: Span,
    pub labels: Chain<Label>,
    pub note: Option<&'static str>,
}

/// An error without labels.
pub open spec fn plain(code: &'static str, message: Message, primary: Span) -> Diagnostic {
    Diagnostic { code, message, primary, labels: Chain::Empty, note: None }
}

/// An error with one label.
pub open spec fn labelled(
    code: &'static str,
    message: Message,
    primary: Span,
    span: Span,
    text: &'static str,
) -> Diagnostic {
    Diagnostic {
        code,
        message,
        primary,
        labels: Chain::Empty.pushed(Label { span, text }),
        note: None,
    }
}

impl Clone for Diagnostic {
    fn clone(&self) -> (copy: Self)
        ensures
            copy == *self,
    {
        Diagnostic {
            code: self.code,
            message: self.message.clone(),
            primary: self.primary,
            labels: self.labels.clone(),
            note: self.note,
        }
    }
}

impl Duplicate for Diagnostic {
    fn duplicate(&self) -> (copy: Self) {
        self.clone()
    }
}

impl Diagnostic {
    pub fn error(code: &'static str, message: Message, primary: Span) -> (diagnostic: Self)
        ensures
            diagnostic == plain(code, message, primary),
    {
        Diagnostic { code, message, primary, labels: Chain::new(), note: None }
    }

    pub fn with_label(self, span: Span, text: &'static str) -> (diagnostic: Self)
        ensures
            diagnostic == (Diagnostic { labels: self.labels.pushed(Label { span, text }), ..self }),
    {
        Diagnostic {
            code: self.code,
            message: self.message,
            primary: self.primary,
            labels: self.labels.with(Label { span, text }),
            note: self.note,
        }
    }
}

/// What was reported before is still there, in its place, and anything new
/// comes behind it.
#[verifier::opaque]
pub open spec fn adds_to(before: Chain<Diagnostic>, after: Chain<Diagnostic>) -> bool {
    before.seq().is_prefix_of(after.seq())
}

/// One error with this code was reported at `span`, behind what was reported
/// before, and no other.
pub open spec fn reported(
    before: Chain<Diagnostic>,
    after: Chain<Diagnostic>,
    code: &'static str,
    span: Span,
) -> bool {
    match after {
        Chain::Empty => false,
        Chain::Link(link) => link.rest == before && link.item.code == code && link.item.primary
            == span,
    }
}

/// Reporting nothing loses nothing.
pub broadcast proof fn lemma_adds_nothing(list: Chain<Diagnostic>)
    ensures
        #[trigger] adds_to(list, list),
{
    reveal(adds_to);
}

/// Another report comes behind the others.
pub broadcast proof fn lemma_adds_one(list: Chain<Diagnostic>, diagnostic: Diagnostic)
    ensures
        #[trigger] adds_to(list, list.pushed(diagnostic)),
{
    reveal(adds_to);
    assert(list.pushed(diagnostic).seq() == list.seq().push(diagnostic));
}

/// What is kept twice is kept.
pub broadcast proof fn lemma_adds_through(
    first: Chain<Diagnostic>,
    second: Chain<Diagnostic>,
    third: Chain<Diagnostic>,
)
    requires
        #[trigger] adds_to(first, second),
        #[trigger] adds_to(second, third),
    ensures
        adds_to(first, third),
{
    reveal(adds_to);
}

} // verus!
