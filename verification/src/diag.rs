//! Diagnostics: every rejected machine definition is reported through one
//! `Diag`, anchored to the offending position; duplicate-declaration errors
//! also carry the position of the first, conflicting declaration.

use vstd::prelude::*;

verus! {

/// What went wrong.  Grammar errors come from the lexer and parser;
/// duplicate and self-reference errors come from assembling the machine.
#[derive(Clone, Copy, Debug, PartialEq, Eq, Structural)]
pub enum DiagKind {
    /// A character outside the language's alphabet.
    UnexpectedChar,
    /// A token that no grammar rule accepts here.
    UnexpectedToken,
    /// The definition ended in the middle of a grammar rule.
    UnexpectedEnd,
    /// Another keyword stood where the mandatory `Init` block must begin.
    ExpectedInit,
    /// Tokens remained after the closing brace of the machine block.
    TrailingTokens,
    /// A state named twice in the `Init` block.
    DuplicateInit,
    /// A state named twice as a transition origin under one event.
    DuplicateOrigin,
    /// A state named twice as an entry destination under one event.
    DuplicateEntry,
    /// A clause's destination also stands among that clause's origins.
    SelfReference,
    /// A state named in more than one `Memory` group.
    DuplicateMemory,
    /// A state named twice in the `Trace` block.
    DuplicateTrace,
    /// Two events of one machine share a name.
    DuplicateEvent,
}

/// One diagnostic: its kind, the name it concerns (empty for pure grammar
/// errors), the character position of the offending token, and, for
/// duplicate errors, the position of the first conflicting declaration.
#[derive(Debug)]
pub struct Diag {
    pub kind: DiagKind,
    pub subject: String,
    pub span: usize,
    pub prior: Option<usize>,
}

/// The mathematical value of a `Diag`.
#[verifier::ext_equal]
pub ghost struct DiagV {
    pub kind: DiagKind,
    pub subject: Seq<char>,
    pub span: int,
    pub prior: Option<int>,
}

impl View for Diag {
    type V = DiagV;

    open spec fn view(&self) -> DiagV {
        DiagV {
            kind: self.kind,
            subject: self.subject@,
            span: self.span as int,
            prior: match self.prior {
                Some(p) => Some(p as int),
                None => None,
            },
        }
    }
}

/// The wording of each diagnostic kind; the subject name, where one exists,
/// follows it.
pub open spec fn kind_phrase(k: DiagKind) -> Seq<char> {
    match k {
        DiagKind::UnexpectedChar => "unexpected character"@,
        DiagKind::UnexpectedToken => "unexpected token"@,
        DiagKind::UnexpectedEnd => "unexpected end of definition"@,
        DiagKind::ExpectedInit => "expected Init block, got: "@,
        DiagKind::TrailingTokens => "unexpected tokens after the machine block"@,
        DiagKind::DuplicateInit => "duplicate entry state: "@,
        DiagKind::DuplicateOrigin => "duplicate transition origin: "@,
        DiagKind::DuplicateEntry => "duplicate entry destination: "@,
        DiagKind::SelfReference => "destination stands among its own origins: "@,
        DiagKind::DuplicateMemory => "duplicate memory state: "@,
        DiagKind::DuplicateTrace => "duplicate trace state: "@,
        DiagKind::DuplicateEvent => "duplicate event: "@,
    }
}

/// The full message text of a diagnostic.
pub open spec fn message_text(d: DiagV) -> Seq<char> {
    kind_phrase(d.kind) + d.subject
}

impl Diag {
    /// The human-readable message: the kind's wording, then the name it
    /// concerns.
    pub fn message(&self) -> (r: String)
        ensures
            r@ == message_text(self@),
    {
        let mut s = String::new();
        let phrase: &str = match self.kind {
            DiagKind::UnexpectedChar => "unexpected character",
            DiagKind::UnexpectedToken => "unexpected token",
            DiagKind::UnexpectedEnd => "unexpected end of definition",
            DiagKind::ExpectedInit => "expected Init block, got: ",
            DiagKind::TrailingTokens => "unexpected tokens after the machine block",
            DiagKind::DuplicateInit => "duplicate entry state: ",
            DiagKind::DuplicateOrigin => "duplicate transition origin: ",
            DiagKind::DuplicateEntry => "duplicate entry destination: ",
            DiagKind::SelfReference => "destination stands among its own origins: ",
            DiagKind::DuplicateMemory => "duplicate memory state: ",
            DiagKind::DuplicateTrace => "duplicate trace state: ",
            DiagKind::DuplicateEvent => "duplicate event: ",
        };
        s.append(phrase);
        s.append(self.subject.as_str());
        proof {
            assert(s@ =~= message_text(self@));
        }
        s
    }

    /// A diagnostic with no subject name and no linked prior declaration.
    pub fn bare(kind: DiagKind, span: usize) -> (r: Diag)
        ensures
            r@ == (DiagV { kind, subject: Seq::<char>::empty(), span: span as int, prior: None }),
    {
        let r = Diag { kind, subject: String::new(), span, prior: None };
        proof {
            assert(r@.subject =~= Seq::<char>::empty());
            assert(r@ =~= (DiagV {
                kind,
                subject: Seq::<char>::empty(),
                span: span as int,
                prior: None,
            }));
        }
        r
    }
}

} // verus!
