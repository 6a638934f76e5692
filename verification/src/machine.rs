//! The assembled machine graph and the validation passes that reject
//! ill-formed definitions.
//!
//! Assembly owns the machine-wide view: the union of all discovered states
//! (entry states, every clause's origins and destination, and every state a
//! `Memory` group names), the deduplicated event set, the per-state payload
//! table (states absent from `Memory` default to no payload), and the
//! per-state trace lists.  Every duplicate and self-reference check is an
//! exact condition here: a definition assembles if and only if none of the
//! conditions holds.

use vstd::prelude::*;

use crate::ast::{Ast, AstV, Clause, ClauseV, EventDecl, EventDeclV, Ident, IdentV, MemGroup,
    MemGroupV, ids_view};
use crate::diag::{Diag, DiagKind, DiagV};

verus! {

/// One edge of the machine: under `event`, from `origin` to `dest`.  An
/// entry transition has no origin: the event may start the machine at
/// `dest`.
pub struct Transition {
    pub event: Ident,
    pub origin: Option<Ident>,
    pub dest: Ident,
}

/// The mathematical value of a `Transition`.
#[verifier::ext_equal]
pub ghost struct TransitionV {
    pub event: IdentV,
    pub origin: Option<IdentV>,
    pub dest: IdentV,
}

impl View for Transition {
    type V = TransitionV;

    open spec fn view(&self) -> TransitionV {
        TransitionV {
            event: self.event@,
            origin: match self.origin {
                Some(o) => Some(o@),
                None => None,
            },
            dest: self.dest@,
        }
    }
}

/// The views of a transition list.
pub open spec fn trans_view(s: Seq<Transition>) -> Seq<TransitionV> {
    s.map_values(|x: Transition| x@)
}

/// The fully expanded transitions of one clause: one per origin, sharing
/// the clause's destination and the event's name.
pub open spec fn plain_transitions_from(e: IdentV, os: Seq<IdentV>, d: IdentV, k: int) -> Seq<
    TransitionV,
>
    decreases os.len() - k,
{
    if k < 0 || k >= os.len() {
        Seq::empty()
    } else {
        seq![TransitionV { event: e, origin: Some(os[k]), dest: d }] + plain_transitions_from(
            e,
            os,
            d,
            k + 1,
        )
    }
}

/// What one clause contributes: its per-origin transitions, or one
/// origin-less entry transition.
pub open spec fn clause_transitions(e: IdentV, c: ClauseV) -> Seq<TransitionV> {
    if c.origins.len() == 0 {
        seq![TransitionV { event: e, origin: None, dest: c.dest }]
    } else {
        plain_transitions_from(e, c.origins, c.dest, 0)
    }
}

/// The transitions of an event: its clauses' contributions, in clause order.
pub open spec fn event_transitions_from(e: IdentV, cs: Seq<ClauseV>, i: int) -> Seq<TransitionV>
    decreases cs.len() - i,
{
    if i < 0 || i >= cs.len() {
        Seq::empty()
    } else {
        clause_transitions(e, cs[i]) + event_transitions_from(e, cs, i + 1)
    }
}

/// A bundle of expanded transitions.
pub struct Transitions {
    pub transitions: Vec<Transition>,
}

impl Transitions {
    /// Expand one plain clause: one transition per origin, each to `dest`
    /// under `event`.
    pub fn generate(origins: &Vec<Ident>, dest: &Ident, event: &Ident) -> (r: Transitions)
        ensures
            trans_view(r.transitions@) == plain_transitions_from(event@, ids_view(origins@), dest@, 0),
    {
        let mut transitions: Vec<Transition> = Vec::new();
        let ghost none = transitions@;
        proof {
            assert(trans_view(none) =~= Seq::<TransitionV>::empty());
        }
        generate_into(origins, dest, event, 0, &mut transitions);
        Transitions { transitions }
    }
}

fn generate_into(origins: &Vec<Ident>, dest: &Ident, event: &Ident, k: usize, acc: &mut Vec<
    Transition,
>)
    requires
        k <= origins@.len(),
    ensures
        trans_view(final(acc)@) == trans_view(old(acc)@) + plain_transitions_from(
            event@,
            ids_view(origins@),
            dest@,
            k as int,
        ),
    decreases origins@.len() - k,
{
    if k >= origins.len() {
        proof {
            assert(trans_view(acc@) =~= trans_view(acc@) + Seq::<TransitionV>::empty());
        }
        return ;
    }
    let t = Transition {
        event: event.duplicate(),
        origin: Some(origins[k].duplicate()),
        dest: dest.duplicate(),
    };
    let ghost tv = t@;
    let ghost mid = acc@;
    proof {
        assert(tv =~= (TransitionV {
            event: event@,
            origin: Some(ids_view(origins@)[k as int]),
            dest: dest@,
        }));
    }
    acc.push(t);
    proof {
        assert(trans_view(acc@) =~= trans_view(mid) + seq![tv]);
    }
    generate_into(origins, dest, event, k + 1, acc);
    proof {
        assert(trans_view(acc@) =~= trans_view(mid) + (seq![tv] + plain_transitions_from(
            event@,
            ids_view(origins@),
            dest@,
            k + 1,
        )));
    }
}

/// One assembled event: its name and its expanded transitions.
pub struct EventTable {
    pub name: Ident,
    pub transitions: Vec<Transition>,
}

/// The mathematical value of an `EventTable`.
#[verifier::ext_equal]
pub ghost struct EventTableV {
    pub name: IdentV,
    pub transitions: Seq<TransitionV>,
}

impl View for EventTable {
    type V = EventTableV;

    open spec fn view(&self) -> EventTableV {
        EventTableV { name: self.name@, transitions: trans_view(self.transitions@) }
    }
}

/// The views of an event-table list.
pub open spec fn tables_view(s: Seq<EventTable>) -> Seq<EventTableV> {
    s.map_values(|x: EventTable| x@)
}

/// One state's payload: `None` for a state never mentioned in `Memory`,
/// `Some` of the declared type list otherwise.
pub struct MemDef {
    pub state: Ident,
    pub memory: Option<Vec<Ident>>,
}

/// The mathematical value of a `MemDef`.
#[verifier::ext_equal]
pub ghost struct MemDefV {
    pub state: IdentV,
    pub memory: Option<Seq<IdentV>>,
}

impl View for MemDef {
    type V = MemDefV;

    open spec fn view(&self) -> MemDefV {
        MemDefV {
            state: self.state@,
            memory: match self.memory {
                Some(ref v) => Some(ids_view(v@)),
                None => None,
            },
        }
    }
}

/// The views of a payload-table row list.
pub open spec fn mems_view(s: Seq<MemDef>) -> Seq<MemDefV> {
    s.map_values(|x: MemDef| x@)
}

/// One traced state and the events that can fire from it, in event
/// declaration order.
pub struct TraceDef {
    pub state: Ident,
    pub events: Vec<Ident>,
}

/// The mathematical value of a `TraceDef`.
#[verifier::ext_equal]
pub ghost struct TraceDefV {
    pub state: IdentV,
    pub events: Seq<IdentV>,
}

impl View for TraceDef {
    type V = TraceDefV;

    open spec fn view(&self) -> TraceDefV {
        TraceDefV { state: self.state@, events: ids_view(self.events@) }
    }
}

/// The views of a trace-table row list.
pub open spec fn tracedefs_view(s: Seq<TraceDef>) -> Seq<TraceDefV> {
    s.map_values(|x: TraceDef| x@)
}

/// One assembled, validated machine.
pub struct Machine {
    pub name: Ident,
    pub states: Vec<Ident>,
    pub entries: Vec<Ident>,
    pub events: Vec<EventTable>,
    pub mem_defs: Vec<MemDef>,
    pub traces: Vec<TraceDef>,
}

/// The mathematical value of a `Machine`.
#[verifier::ext_equal]
pub ghost struct MachineV {
    pub name: IdentV,
    pub states: Seq<IdentV>,
    pub entries: Seq<IdentV>,
    pub events: Seq<EventTableV>,
    pub mem_defs: Seq<MemDefV>,
    pub traces: Seq<TraceDefV>,
}

impl View for Machine {
    type V = MachineV;

    open spec fn view(&self) -> MachineV {
        MachineV {
            name: self.name@,
            states: ids_view(self.states@),
            entries: ids_view(self.entries@),
            events: tables_view(self.events@),
            mem_defs: mems_view(self.mem_defs@),
            traces: tracedefs_view(self.traces@),
        }
    }
}

// ---------------------------------------------------------------------------
// Name-list predicates.
// ---------------------------------------------------------------------------

/// Whether some name in `s` reads `n`.
pub open spec fn has_name(s: Seq<IdentV>, n: Seq<char>) -> bool {
    exists|i: int| 0 <= i < s.len() && s[i].text == n
}

/// Whether no two names in `s` read the same.
pub open spec fn distinct_names(s: Seq<IdentV>) -> bool {
    forall|i: int, j: int| 0 <= i < j < s.len() ==> s[i].text != s[j].text
}

/// Whether diagnostic `d` cites a genuine duplicate in `nm`: its subject is
/// the repeated name, its span anchors the repetition, and its linked note
/// anchors the first declaration.
pub open spec fn cites_duplicate(nm: Seq<IdentV>, d: DiagV) -> bool {
    exists|x: int, y: int|
        #![trigger nm[x], nm[y]]
        0 <= x < y < nm.len() && nm[x].text == nm[y].text && d.subject == nm[x].text && d.span
            == nm[y].pos && d.prior == Some(nm[x].pos)
}

fn has_name_exec(v: &Vec<Ident>, n: &String) -> (r: bool)
    ensures
        r == has_name(ids_view(v@), n@),
{
    let mut i: usize = 0;
    while i < v.len()
        invariant
            i <= v@.len(),
            forall|k: int| 0 <= k < i ==> ids_view(v@)[k].text != n@,
        decreases v@.len() - i,
    {
        if v[i].text == *n {
            proof {
                assert(ids_view(v@)[i as int].text == n@);
            }
            return true;
        }
        i = i + 1;
    }
    false
}

/// The first duplicated name in `v`, as the index of its first occurrence
/// and the index of its repetition; `None` exactly when all names differ.
fn find_dup(v: &Vec<Ident>) -> (r: Option<(usize, usize)>)
    ensures
        r is None ==> distinct_names(ids_view(v@)),
        r matches Some(p) ==> p.0 < p.1 < v@.len() && ids_view(v@)[p.0 as int].text == ids_view(
            v@,
        )[p.1 as int].text,
{
    let mut j: usize = 1;
    while j < v.len()
        invariant
            1 <= j || v@.len() == 0,
            j <= v@.len() || v@.len() == 0,
            forall|a: int, b: int| 0 <= a < b < j ==> ids_view(v@)[a].text != ids_view(v@)[b].text,
        decreases v@.len() - j,
    {
        let mut i: usize = 0;
        while i < j
            invariant
                i <= j < v@.len(),
                forall|a: int| 0 <= a < i ==> ids_view(v@)[a].text != ids_view(v@)[j as int].text,
            decreases j - i,
        {
            if v[i].text == v[j].text {
                proof {
                    assert(ids_view(v@)[i as int].text == ids_view(v@)[j as int].text);
                }
                return Some((i, j));
            }
            i = i + 1;
        }
        j = j + 1;
    }
    None
}

/// Report the first duplicated name in `v` under `kind`, anchored at the
/// repetition, with a linked note at the first occurrence; `None` exactly
/// when all names differ.
pub fn check_distinct(v: &Vec<Ident>, kind: DiagKind) -> (r: Option<Diag>)
    ensures
        r is None <==> distinct_names(ids_view(v@)),
        r matches Some(d) ==> d@.kind == kind && cites_duplicate(ids_view(v@), d@),
{
    match find_dup(v) {
        None => None,
        Some((i, j)) => {
            let d = Diag {
                kind,
                subject: v[i].text.clone(),
                span: v[j].pos,
                prior: Some(v[i].pos),
            };
            proof {
                assert(0 <= i < j < v@.len() && ids_view(v@)[i as int].text == ids_view(v@)[
                    j as int].text && d@.subject == ids_view(v@)[i as int].text && d@.span
                    == ids_view(v@)[j as int].pos && d@.prior == Some(ids_view(v@)[i as int].pos));
            }
            Some(d)
        },
    }
}

// ---------------------------------------------------------------------------
// Per-event validation.
// ---------------------------------------------------------------------------

/// Every origin of every clause of an event, in clause order.
pub open spec fn origins_flat_from(cs: Seq<ClauseV>, i: int) -> Seq<IdentV>
    decreases cs.len() - i,
{
    if i < 0 || i >= cs.len() {
        Seq::empty()
    } else {
        cs[i].origins + origins_flat_from(cs, i + 1)
    }
}

/// Every entry destination of an event: the destinations of its origin-less
/// clauses, in clause order.
pub open spec fn entry_dests_from(cs: Seq<ClauseV>, i: int) -> Seq<IdentV>
    decreases cs.len() - i,
{
    if i < 0 || i >= cs.len() {
        Seq::empty()
    } else {
        (if cs[i].origins.len() == 0 {
            seq![cs[i].dest]
        } else {
            Seq::empty()
        }) + entry_dests_from(cs, i + 1)
    }
}

/// Whether a clause's destination also stands among its own origins.
pub open spec fn clause_self_ref(c: ClauseV) -> bool {
    exists|k: int| 0 <= k < c.origins.len() && c.origins[k].text == c.dest.text
}

/// Whether no clause refers to its own destination among its origins.
pub open spec fn no_self_ref(cs: Seq<ClauseV>) -> bool {
    forall|i: int| 0 <= i < cs.len() ==> !clause_self_ref(cs[i])
}

/// Whether diagnostic `d` cites a genuine self-reference in `cs`: its
/// subject is the destination's name, its span anchors the destination, and
/// its linked note anchors the matching origin of the same clause.
pub open spec fn cites_self_ref(cs: Seq<ClauseV>, d: DiagV) -> bool {
    exists|j: int, k: int|
        0 <= j < cs.len() && 0 <= k < cs[j].origins.len() && (#[trigger] cs[j].origins[k]).text
            == cs[j].dest.text && d.subject == cs[j].dest.text && d.span == cs[j].dest.pos
            && d.prior == Some(cs[j].origins[k].pos)
}

/// Whether diagnostic `d` cites a genuine fault of some event declaration:
/// a duplicated origin, a self-referencing clause, or a duplicated entry
/// destination, with its spans anchored in that declaration.
pub open spec fn cites_event_fault(es: Seq<EventDeclV>, d: DiagV) -> bool {
    exists|j: int|
        0 <= j < es.len() && {
            let cs = (#[trigger] es[j]).clauses;
            ||| (d.kind == DiagKind::DuplicateOrigin && cites_duplicate(
                origins_flat_from(cs, 0),
                d,
            ))
            ||| (d.kind == DiagKind::SelfReference && cites_self_ref(cs, d))
            ||| (d.kind == DiagKind::DuplicateEntry && cites_duplicate(
                entry_dests_from(cs, 0),
                d,
            ))
        }
}

/// Whether one event declaration passes all its checks: no origin appears
/// twice across its clauses, no clause maps its destination from itself, and
/// no entry destination repeats.
pub open spec fn event_valid(d: EventDeclV) -> bool {
    &&& distinct_names(origins_flat_from(d.clauses, 0))
    &&& no_self_ref(d.clauses)
    &&& distinct_names(entry_dests_from(d.clauses, 0))
}

fn append_idents(src: &Vec<Ident>, acc: &mut Vec<Ident>)
    ensures
        ids_view(final(acc)@) == ids_view(old(acc)@) + ids_view(src@),
{
    let mut k: usize = 0;
    while k < src.len()
        invariant
            k <= src@.len(),
            ids_view(acc@) == ids_view(old(acc)@) + ids_view(src@).subrange(0, k as int),
        decreases src@.len() - k,
    {
        let ghost mid = acc@;
        acc.push(src[k].duplicate());
        proof {
            assert(ids_view(acc@) =~= ids_view(mid) + seq![ids_view(src@)[k as int]]);
            assert(ids_view(src@).subrange(0, k + 1) =~= ids_view(src@).subrange(0, k as int)
                + seq![ids_view(src@)[k as int]]);
            assert(ids_view(acc@) =~= ids_view(old(acc)@) + ids_view(src@).subrange(0, k + 1));
        }
        k = k + 1;
    }
    proof {
        assert(ids_view(src@).subrange(0, src@.len() as int) =~= ids_view(src@));
    }
}

fn collect_origins(cs: &Vec<Clause>, i: usize, acc: &mut Vec<Ident>)
    requires
        i <= cs@.len(),
    ensures
        ids_view(final(acc)@) == ids_view(old(acc)@) + origins_flat_from(
            crate::ast::clauses_view(cs@),
            i as int,
        ),
    decreases cs@.len() - i,
{
    if i >= cs.len() {
        proof {
            assert(ids_view(acc@) =~= ids_view(acc@) + Seq::<IdentV>::empty());
        }
        return ;
    }
    let ghost start = acc@;
    append_idents(&cs[i].origins, acc);
    collect_origins(cs, i + 1, acc);
    proof {
        let cv = crate::ast::clauses_view(cs@);
        assert(cv[i as int] == cs@[i as int]@);
        assert(ids_view(acc@) =~= ids_view(start) + (cv[i as int].origins + origins_flat_from(
            cv,
            i + 1,
        )));
    }
}

fn collect_entry_dests(cs: &Vec<Clause>, i: usize, acc: &mut Vec<Ident>)
    requires
        i <= cs@.len(),
    ensures
        ids_view(final(acc)@) == ids_view(old(acc)@) + entry_dests_from(
            crate::ast::clauses_view(cs@),
            i as int,
        ),
    decreases cs@.len() - i,
{
    if i >= cs.len() {
        proof {
            assert(ids_view(acc@) =~= ids_view(acc@) + Seq::<IdentV>::empty());
        }
        return ;
    }
    let ghost start = acc@;
    if cs[i].origins.len() == 0 {
        let ghost mid = acc@;
        acc.push(cs[i].dest.duplicate());
        proof {
            let cv = crate::ast::clauses_view(cs@);
            assert(cv[i as int].origins.len() == 0);
            assert(ids_view(acc@) =~= ids_view(mid) + seq![cv[i as int].dest]);
        }
    }
    collect_entry_dests(cs, i + 1, acc);
    proof {
        let cv = crate::ast::clauses_view(cs@);
        assert(cv[i as int] == cs@[i as int]@);
        if cv[i as int].origins.len() == 0 {
            assert(ids_view(acc@) =~= ids_view(start) + (seq![cv[i as int].dest]
                + entry_dests_from(cv, i + 1)));
        } else {
            assert(ids_view(acc@) =~= ids_view(start) + (Seq::<IdentV>::empty()
                + entry_dests_from(cv, i + 1)));
        }
    }
}

fn find_self_ref(cs: &Vec<Clause>) -> (r: Option<(usize, usize)>)
    ensures
        r is None <==> no_self_ref(crate::ast::clauses_view(cs@)),
        r matches Some(p) ==> {
            let cv = crate::ast::clauses_view(cs@);
            p.0 < cv.len() && p.1 < cv[p.0 as int].origins.len() && cv[p.0 as int].origins[
                p.1 as int].text == cv[p.0 as int].dest.text
        },
{
    let ghost cv = crate::ast::clauses_view(cs@);
    let mut i: usize = 0;
    while i < cs.len()
        invariant
            i <= cv.len(),
            cv == crate::ast::clauses_view(cs@),
            forall|a: int| 0 <= a < i ==> !clause_self_ref(cv[a]),
        decreases cv.len() - i,
    {
        let c = &cs[i];
        let mut k: usize = 0;
        while k < c.origins.len()
            invariant
                i < cv.len(),
                cv == crate::ast::clauses_view(cs@),
                c == &cs@[i as int],
                k <= c.origins@.len(),
                forall|b: int| 0 <= b < k ==> cv[i as int].origins[b].text != cv[i as int].dest.text,
            decreases c.origins@.len() - k,
        {
            if c.origins[k].text == c.dest.text {
                proof {
                    assert(cv[i as int].origins[k as int].text == cv[i as int].dest.text);
                }
                return Some((i, k));
            }
            k = k + 1;
        }
        proof {
            assert(!clause_self_ref(cv[i as int]));
        }
        i = i + 1;
    }
    None
}

/// Assemble one event declaration into its table of expanded transitions,
/// or reject it.  The result is `Ok` exactly when the declaration is valid:
/// no duplicate origin across its clauses, no clause whose destination
/// stands among its own origins, no duplicate entry destination.  The three
/// checks run in that order, and each diagnostic cites a genuine violation.
pub fn build_event(d: &EventDecl) -> (r: Result<EventTable, Diag>)
    ensures
        r is Ok <==> event_valid(d@),
        r matches Ok(tbl) ==> tbl@.name == d@.name && tbl@.transitions == event_transitions_from(
            d@.name,
            d@.clauses,
            0,
        ),
        r matches Err(e) ==> {
            ||| (e@.kind == DiagKind::DuplicateOrigin && !distinct_names(
                origins_flat_from(d@.clauses, 0),
            ) && cites_duplicate(origins_flat_from(d@.clauses, 0), e@))
            ||| (e@.kind == DiagKind::SelfReference && distinct_names(
                origins_flat_from(d@.clauses, 0),
            ) && !no_self_ref(d@.clauses) && cites_self_ref(d@.clauses, e@))
            ||| (e@.kind == DiagKind::DuplicateEntry && distinct_names(
                origins_flat_from(d@.clauses, 0),
            ) && no_self_ref(d@.clauses) && !distinct_names(entry_dests_from(d@.clauses, 0))
                && cites_duplicate(entry_dests_from(d@.clauses, 0), e@))
        },
{
    let mut origs: Vec<Ident> = Vec::new();
    let ghost none = origs@;
    proof {
        assert(ids_view(none) =~= Seq::<IdentV>::empty());
    }
    collect_origins(&d.clauses, 0, &mut origs);
    proof {
        assert(ids_view(origs@) =~= Seq::<IdentV>::empty() + origins_flat_from(d@.clauses, 0));
        assert(ids_view(origs@) =~= origins_flat_from(d@.clauses, 0));
    }
    if let Some(e) = check_distinct(&origs, DiagKind::DuplicateOrigin) {
        return Err(e);
    }
    if let Some((ci, k)) = find_self_ref(&d.clauses) {
        let c = &d.clauses[ci];
        let e = Diag {
            kind: DiagKind::SelfReference,
            subject: c.dest.text.clone(),
            span: c.dest.pos,
            prior: Some(c.origins[k].pos),
        };
        proof {
            let cv = d@.clauses;
            assert(0 <= ci < cv.len() && 0 <= k < cv[ci as int].origins.len() && cv[
                ci as int].origins[k as int].text == cv[ci as int].dest.text && e@.subject == cv[
                ci as int].dest.text && e@.span == cv[ci as int].dest.pos && e@.prior == Some(
                cv[ci as int].origins[k as int].pos,
            ));
            assert(cites_self_ref(cv, e@));
        }
        return Err(e);
    }
    let mut dests: Vec<Ident> = Vec::new();
    let ghost dnone = dests@;
    proof {
        assert(ids_view(dnone) =~= Seq::<IdentV>::empty());
    }
    collect_entry_dests(&d.clauses, 0, &mut dests);
    proof {
        assert(ids_view(dests@) =~= Seq::<IdentV>::empty() + entry_dests_from(d@.clauses, 0));
        assert(ids_view(dests@) =~= entry_dests_from(d@.clauses, 0));
    }
    if let Some(e) = check_distinct(&dests, DiagKind::DuplicateEntry) {
        return Err(e);
    }
    let mut transitions: Vec<Transition> = Vec::new();
    let ghost tnone = transitions@;
    proof {
        assert(trans_view(tnone) =~= Seq::<TransitionV>::empty());
    }
    emit_event_transitions(&d.name, &d.clauses, 0, &mut transitions);
    proof {
        assert(trans_view(transitions@) =~= Seq::<TransitionV>::empty() + event_transitions_from(
            d@.name,
            d@.clauses,
            0,
        ));
    }
    let tbl = EventTable { name: d.name.duplicate(), transitions };
    proof {
        assert(tbl@.transitions =~= event_transitions_from(d@.name, d@.clauses, 0));
    }
    Ok(tbl)
}

fn emit_event_transitions(e: &Ident, cs: &Vec<Clause>, i: usize, acc: &mut Vec<Transition>)
    requires
        i <= cs@.len(),
    ensures
        trans_view(final(acc)@) == trans_view(old(acc)@) + event_transitions_from(
            e@,
            crate::ast::clauses_view(cs@),
            i as int,
        ),
    decreases cs@.len() - i,
{
    if i >= cs.len() {
        proof {
            assert(trans_view(acc@) =~= trans_view(acc@) + Seq::<TransitionV>::empty());
        }
        return ;
    }
    let ghost start = acc@;
    let ghost cv = crate::ast::clauses_view(cs@);
    if cs[i].origins.len() == 0 {
        let ghost mid = acc@;
        let t = Transition { event: e.duplicate(), origin: None, dest: cs[i].dest.duplicate() };
        let ghost tv = t@;
        acc.push(t);
        proof {
            assert(cv[i as int].origins.len() == 0);
            assert(tv =~= (TransitionV { event: e@, origin: None, dest: cv[i as int].dest }));
            assert(trans_view(acc@) =~= trans_view(mid) + seq![tv]);
            assert(trans_view(acc@) =~= trans_view(start) + clause_transitions(e@, cv[i as int]));
        }
    } else {
        let mut g = Transitions::generate(&cs[i].origins, &cs[i].dest, e);
        let ghost gv = g.transitions@;
        acc.append(&mut g.transitions);
        proof {
            assert(trans_view(acc@) =~= trans_view(start) + trans_view(gv)) by {
                assert(trans_view(start + gv) =~= trans_view(start) + trans_view(gv));
            }
            assert(cv[i as int].origins == ids_view(cs@[i as int].origins@));
            assert(trans_view(acc@) =~= trans_view(start) + clause_transitions(e@, cv[i as int]));
        }
    }
    emit_event_transitions(e, cs, i + 1, acc);
    proof {
        assert(trans_view(acc@) =~= trans_view(start) + (clause_transitions(e@, cv[i as int])
            + event_transitions_from(e@, cv, i + 1)));
    }
}

// ---------------------------------------------------------------------------
// Machine-wide assembly.
// ---------------------------------------------------------------------------

/// The names a clause mentions, in source order: its origins, then its
/// destination.
pub open spec fn clause_names_from(cs: Seq<ClauseV>, i: int) -> Seq<IdentV>
    decreases cs.len() - i,
{
    if i < 0 || i >= cs.len() {
        Seq::empty()
    } else {
        (cs[i].origins + seq![cs[i].dest]) + clause_names_from(cs, i + 1)
    }
}

/// The state names the event declarations mention, in source order.
pub open spec fn decl_names_from(es: Seq<EventDeclV>, i: int) -> Seq<IdentV>
    decreases es.len() - i,
{
    if i < 0 || i >= es.len() {
        Seq::empty()
    } else {
        clause_names_from(es[i].clauses, 0) + decl_names_from(es, i + 1)
    }
}

/// The states the `Memory` groups mention, in source order.
pub open spec fn mem_states_from(gs: Seq<MemGroupV>, i: int) -> Seq<IdentV>
    decreases gs.len() - i,
{
    if i < 0 || i >= gs.len() {
        Seq::empty()
    } else {
        gs[i].states + mem_states_from(gs, i + 1)
    }
}

/// Every state mention of a definition: the `Init` states, every clause's
/// origins and destination in event order, and the `Memory` states.
pub open spec fn gathered(a: AstV) -> Seq<IdentV> {
    a.inits + decl_names_from(a.events, 0) + mem_states_from(a.memory, 0)
}

/// Fold the names of `xs` from index `i` on into `s`, keeping only the
/// first mention of each name.
pub open spec fn add_names(s: Seq<IdentV>, xs: Seq<IdentV>, i: int) -> Seq<IdentV>
    decreases xs.len() - i,
{
    if i < 0 || i >= xs.len() {
        s
    } else {
        add_names(
            if has_name(s, xs[i].text) {
                s
            } else {
                s.push(xs[i])
            },
            xs,
            i + 1,
        )
    }
}

/// Whether some name of `xs` at or after `i` reads `n`.
pub open spec fn has_name_from(xs: Seq<IdentV>, i: int, n: Seq<char>) -> bool {
    exists|k: int| i <= k < xs.len() && xs[k].text == n
}

/// Deduplication is exact: the folded list has no repeated name and holds a
/// name if and only if the input does.
pub proof fn lemma_add_names_exact(s: Seq<IdentV>, xs: Seq<IdentV>, i: int)
    requires
        distinct_names(s),
        0 <= i,
    ensures
        distinct_names(add_names(s, xs, i)),
        forall|n: Seq<char>| #[trigger] has_name(add_names(s, xs, i), n) <==> (has_name(s, n)
            || has_name_from(xs, i, n)),
    decreases xs.len() - i,
{
    if i >= xs.len() {
        assert forall|n: Seq<char>| !(#[trigger] has_name_from(xs, i, n)) by {}
    } else {
        let s2 = if has_name(s, xs[i].text) {
            s
        } else {
            s.push(xs[i])
        };
        assert forall|n: Seq<char>| #[trigger] has_name(s2, n) <==> (has_name(s, n) || xs[i].text
            == n) by {
            if has_name(s, xs[i].text) {
            } else {
                if has_name(s, n) {
                    let w = choose|w: int| 0 <= w < s.len() && s[w].text == n;
                    assert(s2[w].text == n);
                }
                if xs[i].text == n {
                    assert(s2[s.len() as int].text == n);
                }
                if has_name(s2, n) && !has_name(s, n) {
                    let w = choose|w: int| 0 <= w < s2.len() && s2[w].text == n;
                    if w < s.len() {
                        assert(s[w].text == n);
                    }
                }
            }
        }
        assert(distinct_names(s2)) by {
            if !has_name(s, xs[i].text) {
                assert forall|a: int, b: int| 0 <= a < b < s2.len() implies s2[a].text
                    != s2[b].text by {
                    if b < s.len() {
                    } else {
                        assert(s2[b] == xs[i as int]);
                        assert(s2[a] == s[a]);
                        assert(!has_name(s, xs[i].text));
                        assert(s[a].text != xs[i].text);
                    }
                }
            }
        }
        lemma_add_names_exact(s2, xs, i + 1);
        assert forall|n: Seq<char>| #[trigger] has_name(add_names(s, xs, i), n) <==> (has_name(
            s,
            n,
        ) || has_name_from(xs, i, n)) by {
            assert(add_names(s, xs, i) == add_names(s2, xs, i + 1));
            if has_name_from(xs, i, n) && !has_name_from(xs, i + 1, n) {
                let w = choose|w: int| i <= w < xs.len() && xs[w].text == n;
                assert(w == i);
                assert(xs[i].text == n);
            }
            if xs[i].text == n {
                assert(has_name_from(xs, i, n));
            }
            if has_name_from(xs, i + 1, n) {
                let w = choose|w: int| i + 1 <= w < xs.len() && xs[w].text == n;
                assert(i <= w < xs.len() && xs[w].text == n);
                assert(has_name_from(xs, i, n));
            }
        }
    }
}

/// The machine's discovered states: every mention, first mentions kept.
pub open spec fn discovered(a: AstV) -> Seq<IdentV> {
    add_names(Seq::empty(), gathered(a), 0)
}

/// The entry destinations of the origin-less clauses of every event, in
/// event order.
pub open spec fn entry_dests_decls_from(es: Seq<EventDeclV>, i: int) -> Seq<IdentV>
    decreases es.len() - i,
{
    if i < 0 || i >= es.len() {
        Seq::empty()
    } else {
        entry_dests_from(es[i].clauses, 0) + entry_dests_decls_from(es, i + 1)
    }
}

/// The machine's entry states: the `Init` states, then every entry
/// destination, first mentions kept.
pub open spec fn entry_names(a: AstV) -> Seq<IdentV> {
    add_names(Seq::empty(), a.inits + entry_dests_decls_from(a.events, 0), 0)
}

/// The names of the declared events, in declaration order.
pub open spec fn event_names(es: Seq<EventDeclV>) -> Seq<IdentV> {
    es.map_values(|d: EventDeclV| d.name)
}

/// Whether every event declaration passes its own checks.
pub open spec fn all_events_valid(es: Seq<EventDeclV>) -> bool {
    forall|k: int| 0 <= k < es.len() ==> event_valid(#[trigger] es[k])
}

/// The assembled event tables, one per declaration, in declaration order.
pub open spec fn tables_of(es: Seq<EventDeclV>) -> Seq<EventTableV> {
    es.map_values(
        |d: EventDeclV| EventTableV {
            name: d.name,
            transitions: event_transitions_from(d.name, d.clauses, 0),
        },
    )
}

/// The payload rows the `Memory` groups declare, one per state mention, in
/// source order.
pub open spec fn group_pairs_from(g: MemGroupV, k: int) -> Seq<MemDefV>
    decreases g.states.len() - k,
{
    if k < 0 || k >= g.states.len() {
        Seq::empty()
    } else {
        seq![MemDefV { state: g.states[k], memory: Some(g.types) }] + group_pairs_from(g, k + 1)
    }
}

/// All declared payload rows, in source order.
pub open spec fn mem_pairs_from(gs: Seq<MemGroupV>, i: int) -> Seq<MemDefV>
    decreases gs.len() - i,
{
    if i < 0 || i >= gs.len() {
        Seq::empty()
    } else {
        group_pairs_from(gs[i], 0) + mem_pairs_from(gs, i + 1)
    }
}

/// The first declared payload for state `n`, if any.
pub open spec fn lookup_mem(pairs: Seq<MemDefV>, n: Seq<char>, i: int) -> Option<Seq<IdentV>>
    decreases pairs.len() - i,
{
    if i < 0 || i >= pairs.len() {
        None
    } else if pairs[i].state.text == n {
        pairs[i].memory
    } else {
        lookup_mem(pairs, n, i + 1)
    }
}

/// One payload row per state, in state order: the declared payload, or none
/// for a state `Memory` never mentions.
pub open spec fn mem_defs_of(sts: Seq<IdentV>, pairs: Seq<MemDefV>) -> Seq<MemDefV> {
    sts.map_values(|s: IdentV| MemDefV { state: s, memory: lookup_mem(pairs, s.text, 0) })
}

/// Whether some transition of `ts` leaves from a state named `n`.
pub open spec fn origin_in(ts: Seq<TransitionV>, n: Seq<char>) -> bool {
    exists|k: int|
        0 <= k < ts.len() && ((#[trigger] ts[k].origin) matches Some(o) && o.text == n)
}

/// The names of the events that can fire from state `n`, in event
/// declaration order.
pub open spec fn trace_events_from(evs: Seq<EventTableV>, n: Seq<char>, i: int) -> Seq<IdentV>
    decreases evs.len() - i,
{
    if i < 0 || i >= evs.len() {
        Seq::empty()
    } else {
        (if origin_in(evs[i].transitions, n) {
            seq![evs[i].name]
        } else {
            Seq::empty()
        }) + trace_events_from(evs, n, i + 1)
    }
}

/// One trace row per traced state, in `Trace` block order.
pub open spec fn trace_defs_of(trs: Seq<IdentV>, evs: Seq<EventTableV>) -> Seq<TraceDefV> {
    trs.map_values(|s: IdentV| TraceDefV { state: s, events: trace_events_from(evs, s.text, 0) })
}

/// Whether a whole definition passes every validation pass.
pub open spec fn ast_valid(a: AstV) -> bool {
    &&& distinct_names(a.inits)
    &&& distinct_names(mem_states_from(a.memory, 0))
    &&& distinct_names(a.traces)
    &&& all_events_valid(a.events)
    &&& distinct_names(event_names(a.events))
}

/// The machine a valid definition assembles to.
pub open spec fn machine_of(a: AstV) -> MachineV {
    MachineV {
        name: a.name,
        states: discovered(a),
        entries: entry_names(a),
        events: tables_of(a.events),
        mem_defs: mem_defs_of(discovered(a), mem_pairs_from(a.memory, 0)),
        traces: trace_defs_of(a.traces, tables_of(a.events)),
    }
}

// ---------------------------------------------------------------------------
// Assembly, executable.
// ---------------------------------------------------------------------------

fn dedup_into(xs: &Vec<Ident>, i: usize, acc: &mut Vec<Ident>)
    requires
        i <= xs@.len(),
    ensures
        ids_view(final(acc)@) == add_names(ids_view(old(acc)@), ids_view(xs@), i as int),
    decreases xs@.len() - i,
{
    if i >= xs.len() {
        return ;
    }
    if !has_name_exec(acc, &xs[i].text) {
        let ghost mid = acc@;
        acc.push(xs[i].duplicate());
        proof {
            assert(ids_view(acc@) =~= ids_view(mid).push(ids_view(xs@)[i as int]));
        }
    }
    dedup_into(xs, i + 1, acc);
}

fn collect_clause_names(cs: &Vec<Clause>, i: usize, acc: &mut Vec<Ident>)
    requires
        i <= cs@.len(),
    ensures
        ids_view(final(acc)@) == ids_view(old(acc)@) + clause_names_from(
            crate::ast::clauses_view(cs@),
            i as int,
        ),
    decreases cs@.len() - i,
{
    if i >= cs.len() {
        proof {
            assert(ids_view(acc@) =~= ids_view(acc@) + Seq::<IdentV>::empty());
        }
        return ;
    }
    let ghost start = acc@;
    append_idents(&cs[i].origins, acc);
    let ghost mid = acc@;
    acc.push(cs[i].dest.duplicate());
    proof {
        let cv = crate::ast::clauses_view(cs@);
        assert(ids_view(acc@) =~= ids_view(mid) + seq![cv[i as int].dest]);
        assert(ids_view(acc@) =~= ids_view(start) + (cv[i as int].origins + seq![
            cv[i as int].dest,
        ]));
    }
    collect_clause_names(cs, i + 1, acc);
    proof {
        let cv = crate::ast::clauses_view(cs@);
        assert(ids_view(acc@) =~= ids_view(start) + ((cv[i as int].origins + seq![
            cv[i as int].dest,
        ]) + clause_names_from(cv, i + 1)));
    }
}

fn collect_decl_names(es: &Vec<EventDecl>, i: usize, acc: &mut Vec<Ident>)
    requires
        i <= es@.len(),
    ensures
        ids_view(final(acc)@) == ids_view(old(acc)@) + decl_names_from(
            crate::ast::events_view(es@),
            i as int,
        ),
    decreases es@.len() - i,
{
    if i >= es.len() {
        proof {
            assert(ids_view(acc@) =~= ids_view(acc@) + Seq::<IdentV>::empty());
        }
        return ;
    }
    let ghost start = acc@;
    collect_clause_names(&es[i].clauses, 0, acc);
    collect_decl_names(es, i + 1, acc);
    proof {
        let ev = crate::ast::events_view(es@);
        assert(ev[i as int].clauses == crate::ast::clauses_view(es@[i as int].clauses@));
        assert(ids_view(acc@) =~= ids_view(start) + (clause_names_from(ev[i as int].clauses, 0)
            + decl_names_from(ev, i + 1)));
    }
}

fn collect_mem_states(gs: &Vec<MemGroup>, i: usize, acc: &mut Vec<Ident>)
    requires
        i <= gs@.len(),
    ensures
        ids_view(final(acc)@) == ids_view(old(acc)@) + mem_states_from(
            crate::ast::groups_view(gs@),
            i as int,
        ),
    decreases gs@.len() - i,
{
    if i >= gs.len() {
        proof {
            assert(ids_view(acc@) =~= ids_view(acc@) + Seq::<IdentV>::empty());
        }
        return ;
    }
    let ghost start = acc@;
    append_idents(&gs[i].states, acc);
    collect_mem_states(gs, i + 1, acc);
    proof {
        let gv = crate::ast::groups_view(gs@);
        assert(gv[i as int].states == ids_view(gs@[i as int].states@));
        assert(ids_view(acc@) =~= ids_view(start) + (gv[i as int].states + mem_states_from(
            gv,
            i + 1,
        )));
    }
}

fn collect_entry_dests_decls(es: &Vec<EventDecl>, i: usize, acc: &mut Vec<Ident>)
    requires
        i <= es@.len(),
    ensures
        ids_view(final(acc)@) == ids_view(old(acc)@) + entry_dests_decls_from(
            crate::ast::events_view(es@),
            i as int,
        ),
    decreases es@.len() - i,
{
    if i >= es.len() {
        proof {
            assert(ids_view(acc@) =~= ids_view(acc@) + Seq::<IdentV>::empty());
        }
        return ;
    }
    let ghost start = acc@;
    collect_entry_dests(&es[i].clauses, 0, acc);
    collect_entry_dests_decls(es, i + 1, acc);
    proof {
        let ev = crate::ast::events_view(es@);
        assert(ev[i as int].clauses == crate::ast::clauses_view(es@[i as int].clauses@));
        assert(ids_view(acc@) =~= ids_view(start) + (entry_dests_from(ev[i as int].clauses, 0)
            + entry_dests_decls_from(ev, i + 1)));
    }
}

fn clone_idents(v: &Vec<Ident>) -> (r: Vec<Ident>)
    ensures
        ids_view(r@) == ids_view(v@),
{
    let mut r: Vec<Ident> = Vec::new();
    let ghost none = r@;
    proof {
        assert(ids_view(none) =~= Seq::<IdentV>::empty());
    }
    append_idents(v, &mut r);
    proof {
        assert(ids_view(r@) =~= ids_view(v@));
    }
    r
}

fn collect_group_pairs(g: &MemGroup, k: usize, acc: &mut Vec<MemDef>)
    requires
        k <= g.states@.len(),
    ensures
        mems_view(final(acc)@) == mems_view(old(acc)@) + group_pairs_from(g@, k as int),
    decreases g.states@.len() - k,
{
    if k >= g.states.len() {
        proof {
            assert(mems_view(acc@) =~= mems_view(acc@) + Seq::<MemDefV>::empty());
        }
        return ;
    }
    let ghost start = acc@;
    let row = MemDef { state: g.states[k].duplicate(), memory: Some(clone_idents(&g.types)) };
    let ghost rv = row@;
    proof {
        assert(rv =~= (MemDefV { state: g@.states[k as int], memory: Some(g@.types) }));
    }
    acc.push(row);
    proof {
        assert(mems_view(acc@) =~= mems_view(start) + seq![rv]);
    }
    collect_group_pairs(g, k + 1, acc);
    proof {
        assert(mems_view(acc@) =~= mems_view(start) + (seq![rv] + group_pairs_from(g@, k + 1)));
    }
}

fn collect_mem_pairs(gs: &Vec<MemGroup>, i: usize, acc: &mut Vec<MemDef>)
    requires
        i <= gs@.len(),
    ensures
        mems_view(final(acc)@) == mems_view(old(acc)@) + mem_pairs_from(
            crate::ast::groups_view(gs@),
            i as int,
        ),
    decreases gs@.len() - i,
{
    if i >= gs.len() {
        proof {
            assert(mems_view(acc@) =~= mems_view(acc@) + Seq::<MemDefV>::empty());
        }
        return ;
    }
    let ghost start = acc@;
    collect_group_pairs(&gs[i], 0, acc);
    collect_mem_pairs(gs, i + 1, acc);
    proof {
        let gv = crate::ast::groups_view(gs@);
        assert(gv[i as int] == gs@[i as int]@);
        assert(mems_view(acc@) =~= mems_view(start) + (group_pairs_from(gv[i as int], 0)
            + mem_pairs_from(gv, i + 1)));
    }
}

fn lookup_mem_exec(pairs: &Vec<MemDef>, n: &String, i: usize) -> (r: Option<Vec<Ident>>)
    requires
        i <= pairs@.len(),
    ensures
        match lookup_mem(mems_view(pairs@), n@, i as int) {
            None => r is None,
            Some(sv) => (r matches Some(v) && ids_view(v@) == sv),
        },
    decreases pairs@.len() - i,
{
    if i >= pairs.len() {
        return None;
    }
    if pairs[i].state.text == *n {
        proof {
            assert(mems_view(pairs@)[i as int].state.text == n@);
        }
        match &pairs[i].memory {
            Some(tv) => Some(clone_idents(tv)),
            None => None,
        }
    } else {
        proof {
            assert(mems_view(pairs@)[i as int].state.text != n@);
        }
        lookup_mem_exec(pairs, n, i + 1)
    }
}

fn build_mem_defs(states: &Vec<Ident>, pairs: &Vec<MemDef>) -> (r: Vec<MemDef>)
    ensures
        mems_view(r@) == mem_defs_of(ids_view(states@), mems_view(pairs@)),
{
    let mut r: Vec<MemDef> = Vec::new();
    let mut i: usize = 0;
    while i < states.len()
        invariant
            i <= states@.len(),
            mems_view(r@) == mem_defs_of(ids_view(states@), mems_view(pairs@)).subrange(
                0,
                i as int,
            ),
        decreases states@.len() - i,
    {
        let ghost goal = mem_defs_of(ids_view(states@), mems_view(pairs@));
        let ghost mid = r@;
        let row = MemDef {
            state: states[i].duplicate(),
            memory: lookup_mem_exec(pairs, &states[i].text, 0),
        };
        let ghost rv = row@;
        proof {
            assert(rv =~= goal[i as int]);
        }
        r.push(row);
        proof {
            assert(mems_view(r@) =~= mems_view(mid) + seq![rv]);
            assert(goal.subrange(0, i + 1) =~= goal.subrange(0, i as int) + seq![goal[i as int]]);
        }
        i = i + 1;
    }
    proof {
        assert(mem_defs_of(ids_view(states@), mems_view(pairs@)).subrange(
            0,
            states@.len() as int,
        ) =~= mem_defs_of(ids_view(states@), mems_view(pairs@)));
    }
    r
}

fn origin_in_exec(ts: &Vec<Transition>, n: &String) -> (r: bool)
    ensures
        r == origin_in(trans_view(ts@), n@),
{
    let mut k: usize = 0;
    while k < ts.len()
        invariant
            k <= ts@.len(),
            forall|b: int| 0 <= b < k ==> !((#[trigger] trans_view(ts@)[b].origin) matches Some(o)
                && o.text == n@),
        decreases ts@.len() - k,
    {
        match &ts[k].origin {
            Some(o) => {
                if o.text == *n {
                    proof {
                        assert(trans_view(ts@)[k as int].origin matches Some(ov) && ov.text == n@);
                    }
                    return true;
                }
            },
            None => {},
        }
        k = k + 1;
    }
    false
}

fn trace_events_exec(evs: &Vec<EventTable>, n: &String, i: usize, acc: &mut Vec<Ident>)
    requires
        i <= evs@.len(),
    ensures
        ids_view(final(acc)@) == ids_view(old(acc)@) + trace_events_from(
            tables_view(evs@),
            n@,
            i as int,
        ),
    decreases evs@.len() - i,
{
    if i >= evs.len() {
        proof {
            assert(ids_view(acc@) =~= ids_view(acc@) + Seq::<IdentV>::empty());
        }
        return ;
    }
    let ghost start = acc@;
    let ghost tv = tables_view(evs@);
    if origin_in_exec(&evs[i].transitions, n) {
        let ghost mid = acc@;
        acc.push(evs[i].name.duplicate());
        proof {
            assert(tv[i as int].transitions == trans_view(evs@[i as int].transitions@));
            assert(origin_in(tv[i as int].transitions, n@));
            assert(ids_view(acc@) =~= ids_view(mid) + seq![tv[i as int].name]);
        }
    } else {
        proof {
            assert(tv[i as int].transitions == trans_view(evs@[i as int].transitions@));
            assert(!origin_in(tv[i as int].transitions, n@));
        }
    }
    trace_events_exec(evs, n, i + 1, acc);
    proof {
        if origin_in(tv[i as int].transitions, n@) {
            assert(ids_view(acc@) =~= ids_view(start) + (seq![tv[i as int].name]
                + trace_events_from(tv, n@, i + 1)));
        } else {
            assert(ids_view(acc@) =~= ids_view(start) + (Seq::<IdentV>::empty()
                + trace_events_from(tv, n@, i + 1)));
        }
    }
}

fn build_trace_defs(trs: &Vec<Ident>, evs: &Vec<EventTable>) -> (r: Vec<TraceDef>)
    ensures
        tracedefs_view(r@) == trace_defs_of(ids_view(trs@), tables_view(evs@)),
{
    let mut r: Vec<TraceDef> = Vec::new();
    let mut i: usize = 0;
    while i < trs.len()
        invariant
            i <= trs@.len(),
            tracedefs_view(r@) == trace_defs_of(ids_view(trs@), tables_view(evs@)).subrange(
                0,
                i as int,
            ),
        decreases trs@.len() - i,
    {
        let ghost goal = trace_defs_of(ids_view(trs@), tables_view(evs@));
        let ghost mid = r@;
        let mut events: Vec<Ident> = Vec::new();
        let ghost none = events@;
        proof {
            assert(ids_view(none) =~= Seq::<IdentV>::empty());
        }
        trace_events_exec(evs, &trs[i].text, 0, &mut events);
        let row = TraceDef { state: trs[i].duplicate(), events };
        let ghost rv = row@;
        proof {
            assert(rv.events =~= trace_events_from(tables_view(evs@), ids_view(trs@)[i as int].text, 0));
            assert(rv =~= goal[i as int]);
        }
        r.push(row);
        proof {
            assert(tracedefs_view(r@) =~= tracedefs_view(mid) + seq![rv]);
            assert(goal.subrange(0, i + 1) =~= goal.subrange(0, i as int) + seq![goal[i as int]]);
        }
        i = i + 1;
    }
    proof {
        assert(trace_defs_of(ids_view(trs@), tables_view(evs@)).subrange(
            0,
            trs@.len() as int,
        ) =~= trace_defs_of(ids_view(trs@), tables_view(evs@)));
    }
    r
}

/// Assemble every event declaration, rejecting the first invalid one and
/// the first repeated event name.  `Ok` exactly when every declaration is
/// valid and no two events share a name; a duplicate-event diagnostic cites
/// the repetition and the first declaration.
pub fn build_events(es: &Vec<EventDecl>) -> (r: Result<Vec<EventTable>, Diag>)
    ensures
        r is Ok <==> (all_events_valid(crate::ast::events_view(es@)) && distinct_names(
            event_names(crate::ast::events_view(es@)),
        )),
        r matches Ok(v) ==> tables_view(v@) == tables_of(crate::ast::events_view(es@)),
        r matches Err(e) ==> {
            ||| e@.kind == DiagKind::DuplicateOrigin
            ||| e@.kind == DiagKind::SelfReference
            ||| e@.kind == DiagKind::DuplicateEntry
            ||| e@.kind == DiagKind::DuplicateEvent
        },
        r matches Err(e) ==> (e@.kind == DiagKind::DuplicateEvent ==> !distinct_names(
            event_names(crate::ast::events_view(es@)),
        ) && cites_duplicate(event_names(crate::ast::events_view(es@)), e@)),
        r matches Err(e) ==> (e@.kind != DiagKind::DuplicateEvent ==> !all_events_valid(
            crate::ast::events_view(es@),
        ) && cites_event_fault(crate::ast::events_view(es@), e@)),
{
    let ghost ev = crate::ast::events_view(es@);
    let mut tables: Vec<EventTable> = Vec::new();
    let mut names: Vec<Ident> = Vec::new();
    let mut i: usize = 0;
    while i < es.len()
        invariant
            i <= ev.len(),
            ev == crate::ast::events_view(es@),
            tables_view(tables@) == tables_of(ev).subrange(0, i as int),
            ids_view(names@) == event_names(ev).subrange(0, i as int),
            forall|k: int| 0 <= k < i ==> event_valid(#[trigger] ev[k]),
            distinct_names(event_names(ev).subrange(0, i as int)),
        decreases ev.len() - i,
    {
        let tbl = match build_event(&es[i]) {
            Ok(t) => t,
            Err(e) => {
                proof {
                    assert(ev[i as int] == es@[i as int]@);
                    assert(!event_valid(ev[i as int]));
                    assert(cites_event_fault(ev, e@)) by {
                        let cs = ev[i as int].clauses;
                        assert(0 <= i < ev.len());
                        assert({
                            ||| (e@.kind == DiagKind::DuplicateOrigin && cites_duplicate(
                                origins_flat_from(cs, 0),
                                e@,
                            ))
                            ||| (e@.kind == DiagKind::SelfReference && cites_self_ref(cs, e@))
                            ||| (e@.kind == DiagKind::DuplicateEntry && cites_duplicate(
                                entry_dests_from(cs, 0),
                                e@,
                            ))
                        });
                    }
                }
                return Err(e);
            },
        };
        if let Some(j) = find_name(&names, &es[i].name.text) {
            let e = Diag {
                kind: DiagKind::DuplicateEvent,
                subject: es[i].name.text.clone(),
                span: es[i].name.pos,
                prior: Some(names[j].pos),
            };
            proof {
                let full = event_names(ev);
                assert(ids_view(names@)[j as int] == full[j as int]);
                assert(full[j as int].text == full[i as int].text);
                assert(!distinct_names(full));
                assert(e@.subject == full[j as int].text && e@.span == full[i as int].pos
                    && e@.prior == Some(full[j as int].pos));
                assert(cites_duplicate(full, e@));
            }
            return Err(e);
        }
        let ghost tmid = tables@;
        let ghost nmid = names@;
        names.push(es[i].name.duplicate());
        tables.push(tbl);
        proof {
            assert(ev[i as int] == es@[i as int]@);
            assert(tables_view(tables@) =~= tables_view(tmid) + seq![tables_of(ev)[i as int]]);
            assert(tables_of(ev).subrange(0, i + 1) =~= tables_of(ev).subrange(0, i as int)
                + seq![tables_of(ev)[i as int]]);
            assert(ids_view(names@) =~= ids_view(nmid) + seq![event_names(ev)[i as int]]);
            assert(event_names(ev).subrange(0, i + 1) =~= event_names(ev).subrange(0, i as int)
                + seq![event_names(ev)[i as int]]);
            let pre = event_names(ev).subrange(0, i + 1);
            assert forall|a: int, b: int| #![trigger pre[a], pre[b]] 0 <= a < b < i + 1 implies
                pre[a].text != pre[b].text by {
                if b < i {
                } else {
                    assert(!has_name(ids_view(nmid), event_names(ev)[i as int].text));
                    assert(ids_view(nmid)[a] == event_names(ev)[a]);
                }
            }
            assert(distinct_names(pre));
        }
        i = i + 1;
    }
    proof {
        assert(tables_of(ev).subrange(0, ev.len() as int) =~= tables_of(ev));
        assert(event_names(ev).subrange(0, ev.len() as int) =~= event_names(ev));
    }
    Ok(tables)
}

fn find_name(v: &Vec<Ident>, n: &String) -> (r: Option<usize>)
    ensures
        r is None <==> !has_name(ids_view(v@), n@),
        r matches Some(i) ==> i < v@.len() && ids_view(v@)[i as int].text == n@,
{
    let mut i: usize = 0;
    while i < v.len()
        invariant
            i <= v@.len(),
            forall|k: int| 0 <= k < i ==> ids_view(v@)[k].text != n@,
        decreases v@.len() - i,
    {
        if v[i].text == *n {
            proof {
                assert(ids_view(v@)[i as int].text == n@);
            }
            return Some(i);
        }
        i = i + 1;
    }
    None
}

/// Assemble a parsed definition into its machine, or reject it.  `Ok`
/// exactly when every validation passes; the machine is then exactly
/// `machine_of` the definition: its discovered states, entry states, event
/// tables, per-state payload rows and per-state trace rows.  The passes run
/// in block order, so the diagnostic's kind names the first block at fault.
pub fn assemble(a: &Ast) -> (r: Result<Machine, Diag>)
    ensures
        r is Ok <==> ast_valid(a@),
        r matches Ok(m) ==> m@ == machine_of(a@),
        r matches Err(e) ==> if !distinct_names(a@.inits) {
            e@.kind == DiagKind::DuplicateInit && cites_duplicate(a@.inits, e@)
        } else if !distinct_names(mem_states_from(a@.memory, 0)) {
            e@.kind == DiagKind::DuplicateMemory && cites_duplicate(
                mem_states_from(a@.memory, 0),
                e@,
            )
        } else if !distinct_names(a@.traces) {
            e@.kind == DiagKind::DuplicateTrace && cites_duplicate(a@.traces, e@)
        } else {
            ||| (e@.kind == DiagKind::DuplicateEvent && cites_duplicate(
                event_names(a@.events),
                e@,
            ))
            ||| ((e@.kind == DiagKind::DuplicateOrigin || e@.kind == DiagKind::SelfReference
                || e@.kind == DiagKind::DuplicateEntry) && cites_event_fault(a@.events, e@))
        },
{
    if let Some(e) = check_distinct(&a.inits, DiagKind::DuplicateInit) {
        return Err(e);
    }
    let mut mem_state_list: Vec<Ident> = Vec::new();
    let ghost msnone = mem_state_list@;
    proof {
        assert(ids_view(msnone) =~= Seq::<IdentV>::empty());
    }
    collect_mem_states(&a.memory, 0, &mut mem_state_list);
    proof {
        assert(ids_view(mem_state_list@) =~= mem_states_from(a@.memory, 0));
    }
    if let Some(e) = check_distinct(&mem_state_list, DiagKind::DuplicateMemory) {
        return Err(e);
    }
    if let Some(e) = check_distinct(&a.traces, DiagKind::DuplicateTrace) {
        return Err(e);
    }
    let tables = match build_events(&a.events) {
        Ok(t) => t,
        Err(e) => {
            proof {
                if e@.kind != DiagKind::DuplicateEvent {
                    assert(!all_events_valid(a@.events));
                }
            }
            return Err(e);
        },
    };
    // Discovered states: every mention, in source order, first kept.
    let mut mentions: Vec<Ident> = Vec::new();
    let ghost mnone = mentions@;
    proof {
        assert(ids_view(mnone) =~= Seq::<IdentV>::empty());
    }
    append_idents(&a.inits, &mut mentions);
    collect_decl_names(&a.events, 0, &mut mentions);
    collect_mem_states(&a.memory, 0, &mut mentions);
    proof {
        assert(ids_view(mentions@) =~= gathered(a@));
    }
    let mut states: Vec<Ident> = Vec::new();
    let ghost snone = states@;
    proof {
        assert(ids_view(snone) =~= Seq::<IdentV>::empty());
    }
    dedup_into(&mentions, 0, &mut states);
    proof {
        assert(ids_view(states@) =~= discovered(a@));
    }
    // Entry states: the Init states, then every entry destination.
    let mut entry_mentions: Vec<Ident> = Vec::new();
    let ghost enone = entry_mentions@;
    proof {
        assert(ids_view(enone) =~= Seq::<IdentV>::empty());
    }
    append_idents(&a.inits, &mut entry_mentions);
    collect_entry_dests_decls(&a.events, 0, &mut entry_mentions);
    proof {
        assert(ids_view(entry_mentions@) =~= a@.inits + entry_dests_decls_from(a@.events, 0));
    }
    let mut entries: Vec<Ident> = Vec::new();
    let ghost ennone = entries@;
    proof {
        assert(ids_view(ennone) =~= Seq::<IdentV>::empty());
    }
    dedup_into(&entry_mentions, 0, &mut entries);
    proof {
        assert(ids_view(entries@) =~= entry_names(a@));
    }
    // Payload rows, one per state, defaulting to no payload.
    let mut pairs: Vec<MemDef> = Vec::new();
    let ghost pnone = pairs@;
    proof {
        assert(mems_view(pnone) =~= Seq::<MemDefV>::empty());
    }
    collect_mem_pairs(&a.memory, 0, &mut pairs);
    proof {
        assert(mems_view(pairs@) =~= mem_pairs_from(a@.memory, 0));
    }
    let mem_defs = build_mem_defs(&states, &pairs);
    // Trace rows.
    let traces = build_trace_defs(&a.traces, &tables);
    let m = Machine {
        name: a.name.duplicate(),
        states,
        entries,
        events: tables,
        mem_defs,
        traces,
    };
    proof {
        assert(m@ =~= machine_of(a@));
    }
    Ok(m)
}

} // verus!
