//! The grammar of a machine definition, over the token list:
//!
//! ```text
//! Machine := Name "{" Init Memory? Trace? Event* "}"
//! Init    := "Init" "{" NameList? "}"
//! Memory  := "Memory" ("{" Groups? "}" | "[" Groups? "]")
//! Group   := Names ("=>" Type | "(" NameList? ")")
//! Trace   := "Trace" "[" NameList? "]"
//! Event   := Name "{" Clauses? "}"
//! Clause  := Names "=>" Name | "=>" Name
//! ```
//!
//! `Names` is one or more names separated by commas; `NameList`, `Groups`
//! and `Clauses` also accept one trailing comma before the closing
//! delimiter.  Each `spec_...` function is the mathematical statement of the
//! corresponding parser: every parsing function returns exactly what its
//! spec twin says, including the diagnostic on the inputs the grammar
//! rejects.

use vstd::prelude::*;

use crate::ast::{
    Ast, AstV, Clause, ClauseV, EventDecl, EventDeclV, Ident, IdentV, MemGroup, MemGroupV,
    clauses_view, events_view, groups_view, ids_view,
};
use crate::diag::{Diag, DiagKind, DiagV};
use crate::lexer::{Tag, Token, TokenV, lemma_views_len, views};

verus! {

broadcast use lemma_views_len;

/// What one grammar rule yields: a value and the index after it, or the
/// diagnostic at which the rule failed.
pub ghost enum POut<T> {
    Next(T, int),
    Stop(DiagV),
}

/// Whether token `i` exists and has shape `tag`.
pub open spec fn at(t: Seq<TokenV>, i: int, tag: Tag) -> bool {
    0 <= i < t.len() && t[i].tag == tag
}

/// The diagnostic for a token no rule accepts, or for running out of input.
pub open spec fn bad_token(t: Seq<TokenV>, i: int) -> DiagV {
    if 0 <= i < t.len() {
        DiagV {
            kind: DiagKind::UnexpectedToken,
            subject: Seq::empty(),
            span: t[i].pos,
            prior: None,
        }
    } else {
        DiagV { kind: DiagKind::UnexpectedEnd, subject: Seq::empty(), span: 0, prior: None }
    }
}

/// One name.
pub open spec fn spec_ident(t: Seq<TokenV>, i: int) -> POut<IdentV> {
    if at(t, i, Tag::Ident) {
        POut::Next(IdentV { text: t[i].text, pos: t[i].pos }, i + 1)
    } else {
        POut::Stop(bad_token(t, i))
    }
}

/// One token of shape `tag`.
pub open spec fn spec_tag(t: Seq<TokenV>, i: int, tag: Tag) -> POut<()> {
    if at(t, i, tag) {
        POut::Next((), i + 1)
    } else {
        POut::Stop(bad_token(t, i))
    }
}

/// One or more names separated by commas, ending before `end`; one trailing
/// comma is accepted.
pub open spec fn spec_ident_list(t: Seq<TokenV>, i: int, end: Tag) -> POut<Seq<IdentV>>
    decreases t.len() - i,
{
    match spec_ident(t, i) {
        POut::Stop(d) => POut::Stop(d),
        POut::Next(x, j) => {
            if at(t, j, Tag::Comma) {
                if at(t, j + 1, end) {
                    POut::Next(seq![x], j + 1)
                } else {
                    match spec_ident_list(t, j + 1, end) {
                        POut::Next(xs, k) => POut::Next(seq![x] + xs, k),
                        POut::Stop(d) => POut::Stop(d),
                    }
                }
            } else {
                POut::Next(seq![x], j)
            }
        },
    }
}

pub proof fn lemma_ident_list_bounds(t: Seq<TokenV>, i: int, end: Tag)
    ensures
        spec_ident_list(t, i, end) matches POut::Next(xs, j) ==> i < j <= t.len(),
    decreases t.len() - i,
{
    match spec_ident(t, i) {
        POut::Next(x, j) => {
            if at(t, j, Tag::Comma) && !at(t, j + 1, end) {
                lemma_ident_list_bounds(t, j + 1, end);
            }
        },
        POut::Stop(_) => {},
    }
}

/// One or more names separated by commas, with no trailing comma: the
/// origin states of a clause, or the states of a `Memory` group.
pub open spec fn spec_origins(t: Seq<TokenV>, i: int) -> POut<Seq<IdentV>>
    decreases t.len() - i,
{
    match spec_ident(t, i) {
        POut::Stop(d) => POut::Stop(d),
        POut::Next(x, j) => {
            if at(t, j, Tag::Comma) {
                match spec_origins(t, j + 1) {
                    POut::Next(xs, k) => POut::Next(seq![x] + xs, k),
                    POut::Stop(d) => POut::Stop(d),
                }
            } else {
                POut::Next(seq![x], j)
            }
        },
    }
}

pub proof fn lemma_origins_bounds(t: Seq<TokenV>, i: int)
    ensures
        spec_origins(t, i) matches POut::Next(xs, j) ==> i < j <= t.len(),
    decreases t.len() - i,
{
    match spec_ident(t, i) {
        POut::Next(x, j) => {
            if at(t, j, Tag::Comma) {
                lemma_origins_bounds(t, j + 1);
            }
        },
        POut::Stop(_) => {},
    }
}

/// One transition clause: origins, arrow and destination, or the origin-less
/// entry clause.
pub open spec fn spec_clause(t: Seq<TokenV>, i: int) -> POut<ClauseV> {
    if at(t, i, Tag::Arrow) {
        match spec_ident(t, i + 1) {
            POut::Next(d, j) => POut::Next(ClauseV { origins: Seq::empty(), dest: d }, j),
            POut::Stop(e) => POut::Stop(e),
        }
    } else {
        match spec_origins(t, i) {
            POut::Stop(e) => POut::Stop(e),
            POut::Next(os, j) => match spec_tag(t, j, Tag::Arrow) {
                POut::Stop(e) => POut::Stop(e),
                POut::Next(_, k) => match spec_ident(t, k) {
                    POut::Next(d, m) => POut::Next(ClauseV { origins: os, dest: d }, m),
                    POut::Stop(e) => POut::Stop(e),
                },
            },
        }
    }
}

pub proof fn lemma_clause_bounds(t: Seq<TokenV>, i: int)
    ensures
        spec_clause(t, i) matches POut::Next(c, j) ==> i < j <= t.len(),
{
    lemma_origins_bounds(t, i);
}

/// One or more clauses separated by commas, ending before the event block's
/// closing brace; one trailing comma is accepted.
pub open spec fn spec_clauses(t: Seq<TokenV>, i: int) -> POut<Seq<ClauseV>>
    decreases t.len() - i,
    via spec_clauses_decreases
{
    match spec_clause(t, i) {
        POut::Stop(d) => POut::Stop(d),
        POut::Next(c, j) => {
            if at(t, j, Tag::Comma) {
                if at(t, j + 1, Tag::RBrace) {
                    POut::Next(seq![c], j + 1)
                } else {
                    match spec_clauses(t, j + 1) {
                        POut::Next(cs, k) => POut::Next(seq![c] + cs, k),
                        POut::Stop(d) => POut::Stop(d),
                    }
                }
            } else {
                POut::Next(seq![c], j)
            }
        },
    }
}

#[via_fn]
proof fn spec_clauses_decreases(t: Seq<TokenV>, i: int) {
    lemma_clause_bounds(t, i);
}

pub proof fn lemma_clauses_bounds(t: Seq<TokenV>, i: int)
    ensures
        spec_clauses(t, i) matches POut::Next(cs, j) ==> i < j <= t.len(),
    decreases t.len() - i,
{
    lemma_clause_bounds(t, i);
    match spec_clause(t, i) {
        POut::Next(c, j) => {
            if at(t, j, Tag::Comma) && !at(t, j + 1, Tag::RBrace) {
                lemma_clauses_bounds(t, j + 1);
            }
        },
        POut::Stop(_) => {},
    }
}

/// One event declaration: a name and its braced clause list, possibly empty.
pub open spec fn spec_event(t: Seq<TokenV>, i: int) -> POut<EventDeclV> {
    match spec_ident(t, i) {
        POut::Stop(d) => POut::Stop(d),
        POut::Next(name, j) => match spec_tag(t, j, Tag::LBrace) {
            POut::Stop(d) => POut::Stop(d),
            POut::Next(_, k) => {
                if at(t, k, Tag::RBrace) {
                    POut::Next(EventDeclV { name, clauses: Seq::empty() }, k + 1)
                } else {
                    match spec_clauses(t, k) {
                        POut::Stop(d) => POut::Stop(d),
                        POut::Next(cs, m) => match spec_tag(t, m, Tag::RBrace) {
                            POut::Stop(d) => POut::Stop(d),
                            POut::Next(_, n) => POut::Next(EventDeclV { name, clauses: cs }, n),
                        },
                    }
                }
            },
        },
    }
}

pub proof fn lemma_event_bounds(t: Seq<TokenV>, i: int)
    ensures
        spec_event(t, i) matches POut::Next(e, j) ==> i < j <= t.len(),
{
    match spec_ident(t, i) {
        POut::Next(_, j) => {
            match spec_tag(t, j, Tag::LBrace) {
                POut::Next(_, k) => {
                    lemma_clauses_bounds(t, k);
                },
                POut::Stop(_) => {},
            }
        },
        POut::Stop(_) => {},
    }
}

/// Every event declaration up to the machine block's closing brace.
pub open spec fn spec_events(t: Seq<TokenV>, i: int) -> POut<Seq<EventDeclV>>
    decreases t.len() - i,
    via spec_events_decreases
{
    if at(t, i, Tag::Ident) {
        match spec_event(t, i) {
            POut::Stop(d) => POut::Stop(d),
            POut::Next(e, j) => match spec_events(t, j) {
                POut::Next(es, k) => POut::Next(seq![e] + es, k),
                POut::Stop(d) => POut::Stop(d),
            },
        }
    } else {
        POut::Next(Seq::empty(), i)
    }
}

#[via_fn]
proof fn spec_events_decreases(t: Seq<TokenV>, i: int) {
    lemma_event_bounds(t, i);
}

/// The mandatory `Init` block.  A name other than `Init` where the block
/// must begin is its own diagnostic.
pub open spec fn spec_init(t: Seq<TokenV>, i: int) -> POut<Seq<IdentV>> {
    match spec_ident(t, i) {
        POut::Stop(d) => POut::Stop(d),
        POut::Next(kw, j) => {
            if kw.text != "Init"@ {
                POut::Stop(
                    DiagV {
                        kind: DiagKind::ExpectedInit,
                        subject: kw.text,
                        span: kw.pos,
                        prior: None,
                    },
                )
            } else {
                match spec_tag(t, j, Tag::LBrace) {
                    POut::Stop(d) => POut::Stop(d),
                    POut::Next(_, k) => {
                        if at(t, k, Tag::RBrace) {
                            POut::Next(Seq::empty(), k + 1)
                        } else {
                            match spec_ident_list(t, k, Tag::RBrace) {
                                POut::Stop(d) => POut::Stop(d),
                                POut::Next(xs, m) => match spec_tag(t, m, Tag::RBrace) {
                                    POut::Stop(d) => POut::Stop(d),
                                    POut::Next(_, n) => POut::Next(xs, n),
                                },
                            }
                        }
                    },
                }
            }
        },
    }
}

/// One `Memory` group: its states and either `=> Type` or a parenthesized
/// type list.
pub open spec fn spec_group(t: Seq<TokenV>, i: int) -> POut<MemGroupV> {
    match spec_origins(t, i) {
        POut::Stop(d) => POut::Stop(d),
        POut::Next(states, j) => {
            if at(t, j, Tag::Arrow) {
                match spec_ident(t, j + 1) {
                    POut::Stop(d) => POut::Stop(d),
                    POut::Next(ty, k) => POut::Next(MemGroupV { states, types: seq![ty] }, k),
                }
            } else {
                match spec_tag(t, j, Tag::LParen) {
                    POut::Stop(d) => POut::Stop(d),
                    POut::Next(_, k) => {
                        if at(t, k, Tag::RParen) {
                            POut::Next(MemGroupV { states, types: Seq::empty() }, k + 1)
                        } else {
                            match spec_ident_list(t, k, Tag::RParen) {
                                POut::Stop(d) => POut::Stop(d),
                                POut::Next(tys, m) => match spec_tag(t, m, Tag::RParen) {
                                    POut::Stop(d) => POut::Stop(d),
                                    POut::Next(_, n) => POut::Next(
                                        MemGroupV { states, types: tys },
                                        n,
                                    ),
                                },
                            }
                        }
                    },
                }
            }
        },
    }
}

pub proof fn lemma_group_bounds(t: Seq<TokenV>, i: int)
    ensures
        spec_group(t, i) matches POut::Next(g, j) ==> i < j <= t.len(),
{
    lemma_origins_bounds(t, i);
    match spec_origins(t, i) {
        POut::Next(_, j) => {
            if !at(t, j, Tag::Arrow) {
                match spec_tag(t, j, Tag::LParen) {
                    POut::Next(_, k) => {
                        lemma_ident_list_bounds(t, k, Tag::RParen);
                    },
                    POut::Stop(_) => {},
                }
            }
        },
        POut::Stop(_) => {},
    }
}

/// One or more `Memory` groups separated by commas, ending before `end`;
/// one trailing comma is accepted.
pub open spec fn spec_groups(t: Seq<TokenV>, i: int, end: Tag) -> POut<Seq<MemGroupV>>
    decreases t.len() - i,
    via spec_groups_decreases
{
    match spec_group(t, i) {
        POut::Stop(d) => POut::Stop(d),
        POut::Next(g, j) => {
            if at(t, j, Tag::Comma) {
                if at(t, j + 1, end) {
                    POut::Next(seq![g], j + 1)
                } else {
                    match spec_groups(t, j + 1, end) {
                        POut::Next(gs, k) => POut::Next(seq![g] + gs, k),
                        POut::Stop(d) => POut::Stop(d),
                    }
                }
            } else {
                POut::Next(seq![g], j)
            }
        },
    }
}

#[via_fn]
proof fn spec_groups_decreases(t: Seq<TokenV>, i: int, end: Tag) {
    lemma_group_bounds(t, i);
}

/// The body of a `Memory` block after its opening delimiter: groups up to
/// and including the closing delimiter `end`.
pub open spec fn spec_memory_body(t: Seq<TokenV>, j: int, end: Tag) -> POut<Seq<MemGroupV>> {
    if at(t, j, end) {
        POut::Next(Seq::empty(), j + 1)
    } else {
        match spec_groups(t, j, end) {
            POut::Stop(d) => POut::Stop(d),
            POut::Next(gs, k) => match spec_tag(t, k, end) {
                POut::Stop(d) => POut::Stop(d),
                POut::Next(_, m) => POut::Next(gs, m),
            },
        }
    }
}

/// The optional `Memory` block: absent unless the next token is the name
/// `Memory`.
pub open spec fn spec_memory(t: Seq<TokenV>, i: int) -> POut<Seq<MemGroupV>> {
    if at(t, i, Tag::Ident) && t[i].text == "Memory"@ {
        if at(t, i + 1, Tag::LBrace) {
            spec_memory_body(t, i + 2, Tag::RBrace)
        } else if at(t, i + 1, Tag::LBracket) {
            spec_memory_body(t, i + 2, Tag::RBracket)
        } else {
            POut::Stop(bad_token(t, i + 1))
        }
    } else {
        POut::Next(Seq::empty(), i)
    }
}

/// The optional `Trace` block: absent unless the next token is the name
/// `Trace`.
pub open spec fn spec_trace(t: Seq<TokenV>, i: int) -> POut<Seq<IdentV>> {
    if at(t, i, Tag::Ident) && t[i].text == "Trace"@ {
        match spec_tag(t, i + 1, Tag::LBracket) {
            POut::Stop(d) => POut::Stop(d),
            POut::Next(_, j) => {
                if at(t, j, Tag::RBracket) {
                    POut::Next(Seq::empty(), j + 1)
                } else {
                    match spec_ident_list(t, j, Tag::RBracket) {
                        POut::Stop(d) => POut::Stop(d),
                        POut::Next(xs, k) => match spec_tag(t, k, Tag::RBracket) {
                            POut::Stop(d) => POut::Stop(d),
                            POut::Next(_, m) => POut::Next(xs, m),
                        },
                    }
                }
            },
        }
    } else {
        POut::Next(Seq::empty(), i)
    }
}

/// A whole machine definition, with nothing allowed after its closing brace.
pub open spec fn spec_machine(t: Seq<TokenV>) -> POut<AstV> {
    match spec_ident(t, 0) {
        POut::Stop(d) => POut::Stop(d),
        POut::Next(name, i) => match spec_tag(t, i, Tag::LBrace) {
            POut::Stop(d) => POut::Stop(d),
            POut::Next(_, j) => match spec_init(t, j) {
                POut::Stop(d) => POut::Stop(d),
                POut::Next(inits, k) => match spec_memory(t, k) {
                    POut::Stop(d) => POut::Stop(d),
                    POut::Next(memory, m) => match spec_trace(t, m) {
                        POut::Stop(d) => POut::Stop(d),
                        POut::Next(traces, n) => match spec_events(t, n) {
                            POut::Stop(d) => POut::Stop(d),
                            POut::Next(events, p) => match spec_tag(t, p, Tag::RBrace) {
                                POut::Stop(d) => POut::Stop(d),
                                POut::Next(_, q) => {
                                    if q == t.len() {
                                        POut::Next(
                                            AstV { name, inits, memory, traces, events },
                                            q,
                                        )
                                    } else {
                                        POut::Stop(
                                            DiagV {
                                                kind: DiagKind::TrailingTokens,
                                                subject: Seq::empty(),
                                                span: t[q].pos,
                                                prior: None,
                                            },
                                        )
                                    }
                                },
                            },
                        },
                    },
                },
            },
        },
    }
}

fn at_tag(t: &Vec<Token>, i: usize, tag: Tag) -> (r: bool)
    ensures
        r == at(views(t@), i as int, tag),
        r ==> i + 1 <= usize::MAX,
{
    i < t.len() && t[i].tag == tag
}

fn mk_bad(t: &Vec<Token>, i: usize) -> (r: Diag)
    ensures
        r@ == bad_token(views(t@), i as int),
{
    if i < t.len() {
        Diag::bare(DiagKind::UnexpectedToken, t[i].pos)
    } else {
        Diag::bare(DiagKind::UnexpectedEnd, 0)
    }
}

fn p_ident(t: &Vec<Token>, i: usize) -> (r: Result<(Ident, usize), Diag>)
    ensures
        match spec_ident(views(t@), i as int) {
            POut::Next(x, j) => (r matches Ok(p) && p.0@ == x && p.1 as int == j),
            POut::Stop(d) => (r matches Err(e) && e@ == d),
        },
{
    if at_tag(t, i, Tag::Ident) {
        let x = Ident { text: t[i].text.clone(), pos: t[i].pos };
        proof {
            assert(x@ =~= (IdentV { text: views(t@)[i as int].text, pos: views(t@)[i as int].pos }));
        }
        Ok((x, i + 1))
    } else {
        Err(mk_bad(t, i))
    }
}

fn p_tag(t: &Vec<Token>, i: usize, tag: Tag) -> (r: Result<usize, Diag>)
    ensures
        match spec_tag(views(t@), i as int, tag) {
            POut::Next(_, j) => (r matches Ok(k) && k as int == j),
            POut::Stop(d) => (r matches Err(e) && e@ == d),
        },
{
    if at_tag(t, i, tag) {
        Ok(i + 1)
    } else {
        Err(mk_bad(t, i))
    }
}

fn p_ident_list(t: &Vec<Token>, i: usize, end: Tag, acc: &mut Vec<Ident>) -> (r: Result<
    usize,
    Diag,
>)
    ensures
        match spec_ident_list(views(t@), i as int, end) {
            POut::Next(xs, j) => (r matches Ok(k) && k as int == j && ids_view(final(acc)@)
                == ids_view(old(acc)@) + xs),
            POut::Stop(d) => (r matches Err(e) && e@ == d),
        },
    decreases t@.len() - i,
{
    let (x, j) = match p_ident(t, i) {
        Ok(p) => p,
        Err(e) => {
            return Err(e);
        },
    };
    let ghost xv = x@;
    let ghost mid = acc@;
    acc.push(x);
    proof {
        assert(ids_view(acc@) =~= ids_view(mid) + seq![xv]);
    }
    if at_tag(t, j, Tag::Comma) {
        if at_tag(t, j + 1, end) {
            proof {
                assert(ids_view(acc@) =~= ids_view(mid) + seq![xv]);
            }
            Ok(j + 1)
        } else {
            let r = p_ident_list(t, j + 1, end, acc);
            proof {
                if let POut::Next(xs, k) = spec_ident_list(views(t@), j + 1, end) {
                    assert(ids_view(acc@) =~= ids_view(mid) + (seq![xv] + xs));
                }
            }
            r
        }
    } else {
        Ok(j)
    }
}

fn p_origins(t: &Vec<Token>, i: usize, acc: &mut Vec<Ident>) -> (r: Result<usize, Diag>)
    ensures
        match spec_origins(views(t@), i as int) {
            POut::Next(xs, j) => (r matches Ok(k) && k as int == j && ids_view(final(acc)@)
                == ids_view(old(acc)@) + xs),
            POut::Stop(d) => (r matches Err(e) && e@ == d),
        },
    decreases t@.len() - i,
{
    let (x, j) = match p_ident(t, i) {
        Ok(p) => p,
        Err(e) => {
            return Err(e);
        },
    };
    let ghost xv = x@;
    let ghost mid = acc@;
    acc.push(x);
    proof {
        assert(ids_view(acc@) =~= ids_view(mid) + seq![xv]);
    }
    if at_tag(t, j, Tag::Comma) {
        let r = p_origins(t, j + 1, acc);
        proof {
            if let POut::Next(xs, k) = spec_origins(views(t@), j + 1) {
                assert(ids_view(acc@) =~= ids_view(mid) + (seq![xv] + xs));
            }
        }
        r
    } else {
        Ok(j)
    }
}

fn p_clause(t: &Vec<Token>, i: usize) -> (r: Result<(Clause, usize), Diag>)
    ensures
        match spec_clause(views(t@), i as int) {
            POut::Next(c, j) => (r matches Ok(p) && p.0@ == c && p.1 as int == j),
            POut::Stop(d) => (r matches Err(e) && e@ == d),
        },
{
    if at_tag(t, i, Tag::Arrow) {
        let (dest, j) = match p_ident(t, i + 1) {
            Ok(p) => p,
            Err(e) => {
                return Err(e);
            },
        };
        let c = Clause { origins: Vec::new(), dest };
        proof {
            assert(ids_view(c.origins@) =~= Seq::<IdentV>::empty());
        }
        Ok((c, j))
    } else {
        let mut origins: Vec<Ident> = Vec::new();
        let ghost none = origins@;
        let j = match p_origins(t, i, &mut origins) {
            Ok(j) => j,
            Err(e) => {
                return Err(e);
            },
        };
        proof {
            assert(ids_view(none) =~= Seq::<IdentV>::empty());
        }
        let k = match p_tag(t, j, Tag::Arrow) {
            Ok(k) => k,
            Err(e) => {
                return Err(e);
            },
        };
        let (dest, m) = match p_ident(t, k) {
            Ok(p) => p,
            Err(e) => {
                return Err(e);
            },
        };
        let c = Clause { origins, dest };
        proof {
            if let POut::Next(cv, _) = spec_clause(views(t@), i as int) {
                assert(c@ =~= cv);
            }
        }
        Ok((c, m))
    }
}

fn p_clauses(t: &Vec<Token>, i: usize, acc: &mut Vec<Clause>) -> (r: Result<usize, Diag>)
    ensures
        match spec_clauses(views(t@), i as int) {
            POut::Next(cs, j) => (r matches Ok(k) && k as int == j && clauses_view(final(acc)@)
                == clauses_view(old(acc)@) + cs),
            POut::Stop(d) => (r matches Err(e) && e@ == d),
        },
    decreases t@.len() - i,
{
    let (c, j) = match p_clause(t, i) {
        Ok(p) => p,
        Err(e) => {
            return Err(e);
        },
    };
    proof {
        lemma_clause_bounds(views(t@), i as int);
    }
    let ghost cv = c@;
    let ghost mid = acc@;
    acc.push(c);
    proof {
        assert(clauses_view(acc@) =~= clauses_view(mid) + seq![cv]);
    }
    if at_tag(t, j, Tag::Comma) {
        if at_tag(t, j + 1, Tag::RBrace) {
            Ok(j + 1)
        } else {
            let r = p_clauses(t, j + 1, acc);
            proof {
                if let POut::Next(cs, k) = spec_clauses(views(t@), j + 1) {
                    assert(clauses_view(acc@) =~= clauses_view(mid) + (seq![cv] + cs));
                }
            }
            r
        }
    } else {
        Ok(j)
    }
}

fn p_event(t: &Vec<Token>, i: usize) -> (r: Result<(EventDecl, usize), Diag>)
    ensures
        match spec_event(views(t@), i as int) {
            POut::Next(e, j) => (r matches Ok(p) && p.0@ == e && p.1 as int == j),
            POut::Stop(d) => (r matches Err(e2) && e2@ == d),
        },
{
    let (name, j) = match p_ident(t, i) {
        Ok(p) => p,
        Err(e) => {
            return Err(e);
        },
    };
    let k = match p_tag(t, j, Tag::LBrace) {
        Ok(k) => k,
        Err(e) => {
            return Err(e);
        },
    };
    if at_tag(t, k, Tag::RBrace) {
        let e = EventDecl { name, clauses: Vec::new() };
        proof {
            assert(clauses_view(e.clauses@) =~= Seq::<ClauseV>::empty());
            if let POut::Next(ev, _) = spec_event(views(t@), i as int) {
                assert(e@ =~= ev);
            }
        }
        Ok((e, k + 1))
    } else {
        let mut clauses: Vec<Clause> = Vec::new();
        let ghost none = clauses@;
        let m = match p_clauses(t, k, &mut clauses) {
            Ok(m) => m,
            Err(e) => {
                return Err(e);
            },
        };
        proof {
            assert(clauses_view(none) =~= Seq::<ClauseV>::empty());
        }
        let n = match p_tag(t, m, Tag::RBrace) {
            Ok(n) => n,
            Err(e) => {
                return Err(e);
            },
        };
        let e = EventDecl { name, clauses };
        proof {
            if let POut::Next(ev, _) = spec_event(views(t@), i as int) {
                assert(e@ =~= ev);
            }
        }
        Ok((e, n))
    }
}

fn p_events(t: &Vec<Token>, i: usize, acc: &mut Vec<EventDecl>) -> (r: Result<usize, Diag>)
    ensures
        match spec_events(views(t@), i as int) {
            POut::Next(es, j) => (r matches Ok(k) && k as int == j && events_view(final(acc)@)
                == events_view(old(acc)@) + es),
            POut::Stop(d) => (r matches Err(e) && e@ == d),
        },
    decreases t@.len() - i,
{
    if !at_tag(t, i, Tag::Ident) {
        proof {
            assert(events_view(acc@) =~= events_view(acc@) + Seq::<EventDeclV>::empty());
        }
        return Ok(i);
    }
    let (e, j) = match p_event(t, i) {
        Ok(p) => p,
        Err(e2) => {
            return Err(e2);
        },
    };
    proof {
        lemma_event_bounds(views(t@), i as int);
    }
    let ghost ev = e@;
    let ghost mid = acc@;
    acc.push(e);
    proof {
        assert(events_view(acc@) =~= events_view(mid) + seq![ev]);
    }
    let r = p_events(t, j, acc);
    proof {
        if let POut::Next(es, k) = spec_events(views(t@), j as int) {
            assert(events_view(acc@) =~= events_view(mid) + (seq![ev] + es));
        }
    }
    r
}

fn p_init(t: &Vec<Token>, i: usize) -> (r: Result<(Vec<Ident>, usize), Diag>)
    ensures
        match spec_init(views(t@), i as int) {
            POut::Next(xs, j) => (r matches Ok(p) && ids_view(p.0@) == xs && p.1 as int == j),
            POut::Stop(d) => (r matches Err(e) && e@ == d),
        },
{
    let (kw, j) = match p_ident(t, i) {
        Ok(p) => p,
        Err(e) => {
            return Err(e);
        },
    };
    if !(kw.text == "Init".to_owned()) {
        let d = Diag { kind: DiagKind::ExpectedInit, subject: kw.text, span: kw.pos, prior: None };
        proof {
            if let POut::Stop(dv) = spec_init(views(t@), i as int) {
                assert(d@ =~= dv);
            }
        }
        return Err(d);
    }
    let k = match p_tag(t, j, Tag::LBrace) {
        Ok(k) => k,
        Err(e) => {
            return Err(e);
        },
    };
    if at_tag(t, k, Tag::RBrace) {
        let v: Vec<Ident> = Vec::new();
        proof {
            assert(ids_view(v@) =~= Seq::<IdentV>::empty());
        }
        Ok((v, k + 1))
    } else {
        let mut v: Vec<Ident> = Vec::new();
        let ghost none = v@;
        let m = match p_ident_list(t, k, Tag::RBrace, &mut v) {
            Ok(m) => m,
            Err(e) => {
                return Err(e);
            },
        };
        proof {
            assert(ids_view(none) =~= Seq::<IdentV>::empty());
            if let POut::Next(xs, _) = spec_ident_list(views(t@), k as int, Tag::RBrace) {
                assert(ids_view(v@) =~= xs);
            }
        }
        let n = match p_tag(t, m, Tag::RBrace) {
            Ok(n) => n,
            Err(e) => {
                return Err(e);
            },
        };
        Ok((v, n))
    }
}

fn p_group(t: &Vec<Token>, i: usize) -> (r: Result<(MemGroup, usize), Diag>)
    ensures
        match spec_group(views(t@), i as int) {
            POut::Next(g, j) => (r matches Ok(p) && p.0@ == g && p.1 as int == j),
            POut::Stop(d) => (r matches Err(e) && e@ == d),
        },
{
    let mut states: Vec<Ident> = Vec::new();
    let ghost none = states@;
    let j = match p_origins(t, i, &mut states) {
        Ok(j) => j,
        Err(e) => {
            return Err(e);
        },
    };
    proof {
        assert(ids_view(none) =~= Seq::<IdentV>::empty());
    }
    if at_tag(t, j, Tag::Arrow) {
        let (ty, k) = match p_ident(t, j + 1) {
            Ok(p) => p,
            Err(e) => {
                return Err(e);
            },
        };
        let mut types: Vec<Ident> = Vec::new();
        types.push(ty);
        let g = MemGroup { states, types };
        proof {
            if let POut::Next(gv, _) = spec_group(views(t@), i as int) {
                assert(g@ =~= gv);
            }
        }
        Ok((g, k))
    } else {
        let k = match p_tag(t, j, Tag::LParen) {
            Ok(k) => k,
            Err(e) => {
                return Err(e);
            },
        };
        if at_tag(t, k, Tag::RParen) {
            let g = MemGroup { states, types: Vec::new() };
            proof {
                assert(ids_view(g.types@) =~= Seq::<IdentV>::empty());
                if let POut::Next(gv, _) = spec_group(views(t@), i as int) {
                    assert(g@ =~= gv);
                }
            }
            Ok((g, k + 1))
        } else {
            let mut types: Vec<Ident> = Vec::new();
            let ghost tnone = types@;
            let m = match p_ident_list(t, k, Tag::RParen, &mut types) {
                Ok(m) => m,
                Err(e) => {
                    return Err(e);
                },
            };
            proof {
                assert(ids_view(tnone) =~= Seq::<IdentV>::empty());
            }
            let n = match p_tag(t, m, Tag::RParen) {
                Ok(n) => n,
                Err(e) => {
                    return Err(e);
                },
            };
            let g = MemGroup { states, types };
            proof {
                if let POut::Next(gv, _) = spec_group(views(t@), i as int) {
                    assert(g@ =~= gv);
                }
            }
            Ok((g, n))
        }
    }
}

fn p_groups(t: &Vec<Token>, i: usize, end: Tag, acc: &mut Vec<MemGroup>) -> (r: Result<
    usize,
    Diag,
>)
    ensures
        match spec_groups(views(t@), i as int, end) {
            POut::Next(gs, j) => (r matches Ok(k) && k as int == j && groups_view(final(acc)@)
                == groups_view(old(acc)@) + gs),
            POut::Stop(d) => (r matches Err(e) && e@ == d),
        },
    decreases t@.len() - i,
{
    let (g, j) = match p_group(t, i) {
        Ok(p) => p,
        Err(e) => {
            return Err(e);
        },
    };
    proof {
        lemma_group_bounds(views(t@), i as int);
    }
    let ghost gv = g@;
    let ghost mid = acc@;
    acc.push(g);
    proof {
        assert(groups_view(acc@) =~= groups_view(mid) + seq![gv]);
    }
    if at_tag(t, j, Tag::Comma) {
        if at_tag(t, j + 1, end) {
            Ok(j + 1)
        } else {
            let r = p_groups(t, j + 1, end, acc);
            proof {
                if let POut::Next(gs, k) = spec_groups(views(t@), j + 1, end) {
                    assert(groups_view(acc@) =~= groups_view(mid) + (seq![gv] + gs));
                }
            }
            r
        }
    } else {
        Ok(j)
    }
}

fn p_memory_body(t: &Vec<Token>, j: usize, end: Tag) -> (r: Result<(Vec<MemGroup>, usize), Diag>)
    ensures
        match spec_memory_body(views(t@), j as int, end) {
            POut::Next(gs, k) => (r matches Ok(p) && groups_view(p.0@) == gs && p.1 as int == k),
            POut::Stop(d) => (r matches Err(e) && e@ == d),
        },
{
    if at_tag(t, j, end) {
        let v: Vec<MemGroup> = Vec::new();
        proof {
            assert(groups_view(v@) =~= Seq::<MemGroupV>::empty());
        }
        Ok((v, j + 1))
    } else {
        let mut v: Vec<MemGroup> = Vec::new();
        let ghost none = v@;
        let k = match p_groups(t, j, end, &mut v) {
            Ok(k) => k,
            Err(e) => {
                return Err(e);
            },
        };
        proof {
            assert(groups_view(none) =~= Seq::<MemGroupV>::empty());
            if let POut::Next(gs, _) = spec_groups(views(t@), j as int, end) {
                assert(groups_view(v@) =~= gs);
            }
        }
        let m = match p_tag(t, k, end) {
            Ok(m) => m,
            Err(e) => {
                return Err(e);
            },
        };
        Ok((v, m))
    }
}

fn p_memory(t: &Vec<Token>, i: usize) -> (r: Result<(Vec<MemGroup>, usize), Diag>)
    ensures
        match spec_memory(views(t@), i as int) {
            POut::Next(gs, j) => (r matches Ok(p) && groups_view(p.0@) == gs && p.1 as int == j),
            POut::Stop(d) => (r matches Err(e) && e@ == d),
        },
{
    if at_tag(t, i, Tag::Ident) && t[i].text == "Memory".to_owned() {
        if at_tag(t, i + 1, Tag::LBrace) {
            p_memory_body(t, i + 2, Tag::RBrace)
        } else if at_tag(t, i + 1, Tag::LBracket) {
            p_memory_body(t, i + 2, Tag::RBracket)
        } else {
            Err(mk_bad(t, i + 1))
        }
    } else {
        let v: Vec<MemGroup> = Vec::new();
        proof {
            assert(groups_view(v@) =~= Seq::<MemGroupV>::empty());
        }
        Ok((v, i))
    }
}

fn p_trace(t: &Vec<Token>, i: usize) -> (r: Result<(Vec<Ident>, usize), Diag>)
    ensures
        match spec_trace(views(t@), i as int) {
            POut::Next(xs, j) => (r matches Ok(p) && ids_view(p.0@) == xs && p.1 as int == j),
            POut::Stop(d) => (r matches Err(e) && e@ == d),
        },
{
    if at_tag(t, i, Tag::Ident) && t[i].text == "Trace".to_owned() {
        let j = match p_tag(t, i + 1, Tag::LBracket) {
            Ok(j) => j,
            Err(e) => {
                return Err(e);
            },
        };
        if at_tag(t, j, Tag::RBracket) {
            let v: Vec<Ident> = Vec::new();
            proof {
                assert(ids_view(v@) =~= Seq::<IdentV>::empty());
            }
            Ok((v, j + 1))
        } else {
            let mut v: Vec<Ident> = Vec::new();
            let ghost none = v@;
            let k = match p_ident_list(t, j, Tag::RBracket, &mut v) {
                Ok(k) => k,
                Err(e) => {
                    return Err(e);
                },
            };
            proof {
                assert(ids_view(none) =~= Seq::<IdentV>::empty());
                if let POut::Next(xs, _) = spec_ident_list(views(t@), j as int, Tag::RBracket) {
                    assert(ids_view(v@) =~= xs);
                }
            }
            let m = match p_tag(t, k, Tag::RBracket) {
                Ok(m) => m,
                Err(e) => {
                    return Err(e);
                },
            };
            Ok((v, m))
        }
    } else {
        let v: Vec<Ident> = Vec::new();
        proof {
            assert(ids_view(v@) =~= Seq::<IdentV>::empty());
        }
        Ok((v, i))
    }
}

/// Parse a token list into one machine definition.  The result is exactly
/// what `spec_machine` states, including the diagnostic on every token list
/// the grammar rejects and the trailing-token check after the machine block.
pub fn parse(t: &Vec<Token>) -> (r: Result<Ast, Diag>)
    ensures
        match spec_machine(views(t@)) {
            POut::Next(a, _) => (r matches Ok(ast) && ast@ == a),
            POut::Stop(d) => (r matches Err(e) && e@ == d),
        },
{
    let (name, i) = match p_ident(t, 0) {
        Ok(p) => p,
        Err(e) => {
            return Err(e);
        },
    };
    let j = match p_tag(t, i, Tag::LBrace) {
        Ok(j) => j,
        Err(e) => {
            return Err(e);
        },
    };
    let (inits, k) = match p_init(t, j) {
        Ok(p) => p,
        Err(e) => {
            return Err(e);
        },
    };
    let (memory, m) = match p_memory(t, k) {
        Ok(p) => p,
        Err(e) => {
            return Err(e);
        },
    };
    let (traces, n) = match p_trace(t, m) {
        Ok(p) => p,
        Err(e) => {
            return Err(e);
        },
    };
    let mut events: Vec<EventDecl> = Vec::new();
    let ghost none = events@;
    let p = match p_events(t, n, &mut events) {
        Ok(p) => p,
        Err(e) => {
            return Err(e);
        },
    };
    proof {
        assert(events_view(none) =~= Seq::<EventDeclV>::empty());
        if let POut::Next(es, _) = spec_events(views(t@), n as int) {
            assert(events_view(events@) =~= es);
        }
    }
    let q = match p_tag(t, p, Tag::RBrace) {
        Ok(q) => q,
        Err(e) => {
            return Err(e);
        },
    };
    if q == t.len() {
        let ast = Ast { name, inits, memory, traces, events };
        proof {
            if let POut::Next(av, _) = spec_machine(views(t@)) {
                assert(ast@ =~= av);
            }
        }
        Ok(ast)
    } else {
        let d = Diag::bare(DiagKind::TrailingTokens, t[q].pos);
        proof {
            if let POut::Stop(dv) = spec_machine(views(t@)) {
                assert(d@ =~= dv);
            }
        }
        Err(d)
    }
}

} // verus!
