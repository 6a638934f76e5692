//! The syntax tree of one machine definition, exactly as written: no
//! duplicate checking and no defaulting has happened yet.  Each node carries
//! the character position of the name it was written with, for diagnostics.

use vstd::prelude::*;

verus! {

/// A name together with the character position it was written at.
pub struct Ident {
    pub text: String,
    pub pos: usize,
}

/// The mathematical value of an `Ident`.
#[verifier::ext_equal]
pub ghost struct IdentV {
    pub text: Seq<char>,
    pub pos: int,
}

impl View for Ident {
    type V = IdentV;

    open spec fn view(&self) -> IdentV {
        IdentV { text: self.text@, pos: self.pos as int }
    }
}

impl Ident {
    /// A copy of this name, equal in value.
    pub fn duplicate(&self) -> (r: Ident)
        ensures
            r@ == self@,
    {
        let r = Ident { text: self.text.clone(), pos: self.pos };
        proof {
            assert(r@ =~= self@);
        }
        r
    }
}

/// The views of a name list.
pub open spec fn ids_view(s: Seq<Ident>) -> Seq<IdentV> {
    s.map_values(|x: Ident| x@)
}

/// One transition clause of an event block: `O1, O2 => D`, or the entry
/// clause `=> D`, written with no origins.
pub struct Clause {
    pub origins: Vec<Ident>,
    pub dest: Ident,
}

/// The mathematical value of a `Clause`.
#[verifier::ext_equal]
pub ghost struct ClauseV {
    pub origins: Seq<IdentV>,
    pub dest: IdentV,
}

impl View for Clause {
    type V = ClauseV;

    open spec fn view(&self) -> ClauseV {
        ClauseV { origins: ids_view(self.origins@), dest: self.dest@ }
    }
}

/// The views of a clause list.
pub open spec fn clauses_view(s: Seq<Clause>) -> Seq<ClauseV> {
    s.map_values(|x: Clause| x@)
}

/// One event declaration: a name and its transition clauses.
pub struct EventDecl {
    pub name: Ident,
    pub clauses: Vec<Clause>,
}

/// The mathematical value of an `EventDecl`.
#[verifier::ext_equal]
pub ghost struct EventDeclV {
    pub name: IdentV,
    pub clauses: Seq<ClauseV>,
}

impl View for EventDecl {
    type V = EventDeclV;

    open spec fn view(&self) -> EventDeclV {
        EventDeclV { name: self.name@, clauses: clauses_view(self.clauses@) }
    }
}

/// The views of an event-declaration list.
pub open spec fn events_view(s: Seq<EventDecl>) -> Seq<EventDeclV> {
    s.map_values(|x: EventDecl| x@)
}

/// One `Memory` group: the states named before one payload shape, and that
/// shape's ordered type names.
pub struct MemGroup {
    pub states: Vec<Ident>,
    pub types: Vec<Ident>,
}

/// The mathematical value of a `MemGroup`.
#[verifier::ext_equal]
pub ghost struct MemGroupV {
    pub states: Seq<IdentV>,
    pub types: Seq<IdentV>,
}

impl View for MemGroup {
    type V = MemGroupV;

    open spec fn view(&self) -> MemGroupV {
        MemGroupV { states: ids_view(self.states@), types: ids_view(self.types@) }
    }
}

/// The views of a memory-group list.
pub open spec fn groups_view(s: Seq<MemGroup>) -> Seq<MemGroupV> {
    s.map_values(|x: MemGroup| x@)
}

/// One whole machine definition, as written.
pub struct Ast {
    pub name: Ident,
    pub inits: Vec<Ident>,
    pub memory: Vec<MemGroup>,
    pub traces: Vec<Ident>,
    pub events: Vec<EventDecl>,
}

/// The mathematical value of an `Ast`.
#[verifier::ext_equal]
pub ghost struct AstV {
    pub name: IdentV,
    pub inits: Seq<IdentV>,
    pub memory: Seq<MemGroupV>,
    pub traces: Seq<IdentV>,
    pub events: Seq<EventDeclV>,
}

impl View for Ast {
    type V = AstV;

    open spec fn view(&self) -> AstV {
        AstV {
            name: self.name@,
            inits: ids_view(self.inits@),
            memory: groups_view(self.memory@),
            traces: ids_view(self.traces@),
            events: events_view(self.events@),
        }
    }
}

} // verus!
