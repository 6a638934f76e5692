//! The machine-wide laws of assembly and generation, proved once over every
//! definition: the state enumeration covers exactly the discovered states;
//! a transition operation exists exactly for the declared (origin, event)
//! pairs; a state absent from `Memory` defaults to no payload, a mentioned
//! one keeps its declared shape; and a traced state's enumeration lists
//! exactly the events declared to fire from it, in declaration order.

use vstd::prelude::*;

use crate::ast::{AstV, ClauseV, EventDeclV, IdentV, MemGroupV};
use crate::machine::{
    MemDefV, TransitionV, add_names, clause_transitions, discovered, distinct_names,
    entry_dests_decls_from, entry_names, event_transitions_from, gathered, group_pairs_from,
    has_name, has_name_from, lookup_mem, lemma_add_names_exact, machine_of, mem_defs_of,
    mem_pairs_from, mem_states_from, origin_in, plain_transitions_from, tables_of,
    trace_events_from,
};

verus! {

pub proof fn lemma_has_name_concat(a: Seq<IdentV>, b: Seq<IdentV>, n: Seq<char>)
    ensures
        has_name(a + b, n) <==> (has_name(a, n) || has_name(b, n)),
{
    if has_name(a, n) {
        let w = choose|w: int| 0 <= w < a.len() && a[w].text == n;
        assert((a + b)[w].text == n);
    }
    if has_name(b, n) {
        let w = choose|w: int| 0 <= w < b.len() && b[w].text == n;
        assert((a + b)[a.len() + w].text == n);
    }
    if has_name(a + b, n) {
        let w = choose|w: int| 0 <= w < (a + b).len() && (a + b)[w].text == n;
        if w < a.len() {
            assert(a[w].text == n);
        } else {
            assert(b[w - a.len()].text == n);
        }
    }
}

/// The discovered state list has exactly one entry per state mentioned
/// anywhere in the definition, and the `Variants` rows stand in one-to-one
/// correspondence with it: one arm per discovered state, no more, no fewer.
pub proof fn lemma_variants_exact(a: AstV)
    ensures
        distinct_names(discovered(a)),
        forall|n: Seq<char>| #[trigger] has_name(discovered(a), n) <==> has_name(gathered(a), n),
        machine_of(a).mem_defs.len() == discovered(a).len(),
        forall|i: int| 0 <= i < discovered(a).len() ==> (#[trigger] machine_of(a).mem_defs[i]).state
            == discovered(a)[i],
{
    lemma_add_names_exact(Seq::empty(), gathered(a), 0);
    assert(discovered(a) == add_names(Seq::empty(), gathered(a), 0));
    assert forall|n: Seq<char>| #[trigger] has_name(discovered(a), n) <==> has_name(
        gathered(a),
        n,
    ) by {
        assert(!has_name(Seq::<IdentV>::empty(), n));
        assert(has_name_from(gathered(a), 0, n) <==> has_name(gathered(a), n));
    }
    assert(machine_of(a).mem_defs == mem_defs_of(discovered(a), mem_pairs_from(a.memory, 0)));
}

/// The entry-state list holds exactly one entry per state designated an
/// entry point, whether in the `Init` block or as an entry destination of
/// some event, no more, no fewer.
pub proof fn lemma_entries_exact(a: AstV)
    ensures
        distinct_names(entry_names(a)),
        forall|n: Seq<char>| #[trigger] has_name(entry_names(a), n) <==> has_name(
            a.inits + entry_dests_decls_from(a.events, 0),
            n,
        ),
{
    let xs = a.inits + entry_dests_decls_from(a.events, 0);
    lemma_add_names_exact(Seq::empty(), xs, 0);
    assert(entry_names(a) == add_names(Seq::empty(), xs, 0));
    assert forall|n: Seq<char>| #[trigger] has_name(entry_names(a), n) <==> has_name(xs, n) by {
        assert(!has_name(Seq::<IdentV>::empty(), n));
        assert(has_name_from(xs, 0, n) <==> has_name(xs, n));
    }
}

pub proof fn lemma_origin_in_concat(a: Seq<TransitionV>, b: Seq<TransitionV>, s: Seq<char>)
    ensures
        origin_in(a + b, s) <==> (origin_in(a, s) || origin_in(b, s)),
{
    if origin_in(a, s) {
        let w = choose|w: int|
            0 <= w < a.len() && ((#[trigger] a[w].origin) matches Some(o) && o.text == s);
        assert((a + b)[w].origin matches Some(o) && o.text == s);
    }
    if origin_in(b, s) {
        let w = choose|w: int|
            0 <= w < b.len() && ((#[trigger] b[w].origin) matches Some(o) && o.text == s);
        assert((a + b)[a.len() + w].origin matches Some(o) && o.text == s);
    }
    if origin_in(a + b, s) {
        let w = choose|w: int|
            0 <= w < (a + b).len() && ((#[trigger] (a + b)[w].origin) matches Some(o) && o.text
                == s);
        if w < a.len() {
            assert(a[w].origin matches Some(o) && o.text == s);
        } else {
            assert(b[w - a.len()].origin matches Some(o) && o.text == s);
        }
    }
}

proof fn lemma_plain_origin(e: IdentV, os: Seq<IdentV>, d: IdentV, k: int, s: Seq<char>)
    requires
        0 <= k,
    ensures
        origin_in(plain_transitions_from(e, os, d, k), s) <==> exists|m: int|
            k <= m < os.len() && os[m].text == s,
    decreases os.len() - k,
{
    if k >= os.len() {
    } else {
        lemma_plain_origin(e, os, d, k + 1, s);
        let head = seq![TransitionV { event: e, origin: Some(os[k]), dest: d }];
        lemma_origin_in_concat(head, plain_transitions_from(e, os, d, k + 1), s);
        if os[k].text == s {
            assert(head[0].origin matches Some(o) && o.text == s);
        }
        if origin_in(head, s) {
            assert(os[k].text == s);
        }
        if exists|m: int| k <= m < os.len() && os[m].text == s {
            let m = choose|m: int| k <= m < os.len() && os[m].text == s;
            if m == k {
                assert(os[k].text == s);
            } else {
                assert(exists|m2: int| k + 1 <= m2 < os.len() && os[m2].text == s);
            }
        }
    }
}

/// Within one clause: a transition from `s` exists exactly when the clause
/// lists `s` among its origins; an entry clause contributes none.
pub proof fn lemma_clause_origin(e: IdentV, c: ClauseV, s: Seq<char>)
    ensures
        origin_in(clause_transitions(e, c), s) <==> exists|k: int|
            0 <= k < c.origins.len() && c.origins[k].text == s,
{
    if c.origins.len() == 0 {
        let ts = clause_transitions(e, c);
        assert(ts.len() == 1 && ts[0].origin is None);
    } else {
        lemma_plain_origin(e, c.origins, c.dest, 0, s);
    }
}

proof fn lemma_trans_from(e: IdentV, cs: Seq<ClauseV>, i: int, s: Seq<char>)
    requires
        0 <= i,
    ensures
        origin_in(event_transitions_from(e, cs, i), s) <==> exists|j: int, k: int|
            i <= j < cs.len() && 0 <= k < cs[j].origins.len() && (#[trigger] cs[j].origins[
                k]).text == s,
    decreases cs.len() - i,
{
    if i >= cs.len() {
    } else {
        lemma_trans_from(e, cs, i + 1, s);
        lemma_clause_origin(e, cs[i], s);
        lemma_origin_in_concat(
            clause_transitions(e, cs[i]),
            event_transitions_from(e, cs, i + 1),
            s,
        );
        if exists|j: int, k: int|
            i <= j < cs.len() && 0 <= k < cs[j].origins.len() && (#[trigger] cs[j].origins[
                k]).text == s {
            let (j, k) = choose|j: int, k: int|
                i <= j < cs.len() && 0 <= k < cs[j].origins.len() && (#[trigger] cs[j].origins[
                    k]).text == s;
            if j == i {
                assert(exists|k2: int| 0 <= k2 < cs[i].origins.len() && cs[i].origins[k2].text
                    == s);
            } else {
                assert(exists|j2: int, k2: int|
                    i + 1 <= j2 < cs.len() && 0 <= k2 < cs[j2].origins.len() && (#[trigger] cs[
                        j2].origins[k2]).text == s);
            }
        }
    }
}

/// For one event: a transition operation from state `s` stands in the
/// event's table if and only if some clause of its declaration lists `s`
/// among its origins.
pub proof fn lemma_transitions_exact(d: EventDeclV, s: Seq<char>)
    ensures
        origin_in(event_transitions_from(d.name, d.clauses, 0), s) <==> decl_has_origin(d, s),
{
    lemma_trans_from(d.name, d.clauses, 0, s);
}

/// Whether some row of `pairs` is for a state named `n`.
pub open spec fn pair_named(pairs: Seq<MemDefV>, n: Seq<char>) -> bool {
    exists|j: int| 0 <= j < pairs.len() && (#[trigger] pairs[j]).state.text == n
}

proof fn lemma_pair_named_concat(a: Seq<MemDefV>, b: Seq<MemDefV>, n: Seq<char>)
    ensures
        pair_named(a + b, n) <==> (pair_named(a, n) || pair_named(b, n)),
{
    if pair_named(a, n) {
        let w = choose|w: int| 0 <= w < a.len() && (#[trigger] a[w]).state.text == n;
        assert((a + b)[w].state.text == n);
    }
    if pair_named(b, n) {
        let w = choose|w: int| 0 <= w < b.len() && (#[trigger] b[w]).state.text == n;
        assert((a + b)[a.len() + w].state.text == n);
    }
    if pair_named(a + b, n) {
        let w = choose|w: int| 0 <= w < (a + b).len() && (#[trigger] (a + b)[w]).state.text == n;
        if w < a.len() {
            assert(a[w].state.text == n);
        } else {
            assert(b[w - a.len()].state.text == n);
        }
    }
}

proof fn lemma_group_pairs_named(g: MemGroupV, k: int, n: Seq<char>)
    requires
        0 <= k,
    ensures
        pair_named(group_pairs_from(g, k), n) <==> exists|m: int|
            k <= m < g.states.len() && g.states[m].text == n,
        forall|j: int| 0 <= j < group_pairs_from(g, k).len() ==> (#[trigger] group_pairs_from(
            g,
            k,
        )[j]).memory == Some(g.types),
    decreases g.states.len() - k,
{
    if k >= g.states.len() {
    } else {
        lemma_group_pairs_named(g, k + 1, n);
        let head = seq![MemDefV { state: g.states[k], memory: Some(g.types) }];
        lemma_pair_named_concat(head, group_pairs_from(g, k + 1), n);
        if g.states[k].text == n {
            assert(head[0].state.text == n);
        }
        if pair_named(head, n) {
            assert(g.states[k].text == n);
        }
        if exists|m: int| k <= m < g.states.len() && g.states[m].text == n {
            let m = choose|m: int| k <= m < g.states.len() && g.states[m].text == n;
            if m == k {
                assert(g.states[k].text == n);
            } else {
                assert(exists|m2: int| k + 1 <= m2 < g.states.len() && g.states[m2].text == n);
            }
        }
        assert forall|j: int| 0 <= j < group_pairs_from(g, k).len() implies (
        #[trigger] group_pairs_from(g, k)[j]).memory == Some(g.types) by {
            if j == 0 {
            } else {
                assert(group_pairs_from(g, k)[j] == group_pairs_from(g, k + 1)[j - 1]);
            }
        }
    }
}

proof fn lemma_mem_pairs_named(gs: Seq<MemGroupV>, i: int, n: Seq<char>)
    requires
        0 <= i,
    ensures
        pair_named(mem_pairs_from(gs, i), n) <==> has_name(mem_states_from(gs, i), n),
    decreases gs.len() - i,
{
    if i >= gs.len() {
    } else {
        lemma_mem_pairs_named(gs, i + 1, n);
        lemma_group_pairs_named(gs[i], 0, n);
        lemma_pair_named_concat(group_pairs_from(gs[i], 0), mem_pairs_from(gs, i + 1), n);
        lemma_has_name_concat(gs[i].states, mem_states_from(gs, i + 1), n);
        assert(has_name(gs[i].states, n) <==> exists|m: int|
            0 <= m < gs[i].states.len() && gs[i].states[m].text == n);
    }
}

proof fn lemma_lookup_exact(pairs: Seq<MemDefV>, n: Seq<char>, i: int)
    requires
        0 <= i,
        forall|j: int| 0 <= j < pairs.len() ==> (#[trigger] pairs[j]).memory is Some,
    ensures
        lookup_mem(pairs, n, i) is None <==> !(exists|j: int|
            i <= j < pairs.len() && (#[trigger] pairs[j]).state.text == n),
        lookup_mem(pairs, n, i) matches Some(ts) ==> exists|j: int|
            i <= j < pairs.len() && (#[trigger] pairs[j]).state.text == n && pairs[j].memory
                == Some(ts),
    decreases pairs.len() - i,
{
    if i >= pairs.len() {
    } else {
        lemma_lookup_exact(pairs, n, i + 1);
        if pairs[i].state.text == n {
            assert(pairs[i].memory is Some);
        } else {
            if exists|j: int| i <= j < pairs.len() && (#[trigger] pairs[j]).state.text == n {
                let j = choose|j: int|
                    i <= j < pairs.len() && (#[trigger] pairs[j]).state.text == n;
                assert(j != i);
            }
        }
    }
}

proof fn lemma_mem_pairs_some(gs: Seq<MemGroupV>, i: int)
    requires
        0 <= i,
    ensures
        forall|j: int| 0 <= j < mem_pairs_from(gs, i).len() ==> (#[trigger] mem_pairs_from(gs, i)[
            j]).memory is Some,
    decreases gs.len() - i,
{
    if i >= gs.len() {
    } else {
        lemma_mem_pairs_some(gs, i + 1);
        lemma_group_pairs_named(gs[i], 0, Seq::empty());
        let head = group_pairs_from(gs[i], 0);
        let tail = mem_pairs_from(gs, i + 1);
        assert forall|j: int| 0 <= j < mem_pairs_from(gs, i).len() implies (
        #[trigger] mem_pairs_from(gs, i)[j]).memory is Some by {
            if j < head.len() {
                assert(mem_pairs_from(gs, i)[j] == head[j]);
            } else {
                assert(mem_pairs_from(gs, i)[j] == tail[j - head.len()]);
            }
        }
    }
}

/// A state `Memory` never mentions keeps no payload; a state it mentions
/// receives a payload shape that some `Memory` group declares for it.  With
/// the duplicate-memory check passed, that group is the state's one mention.
pub proof fn lemma_memory_default(gs: Seq<MemGroupV>, n: Seq<char>)
    ensures
        !has_name(mem_states_from(gs, 0), n) ==> lookup_mem(mem_pairs_from(gs, 0), n, 0) is None,
        lookup_mem(mem_pairs_from(gs, 0), n, 0) matches Some(ts) ==> exists|j: int|
            0 <= j < mem_pairs_from(gs, 0).len() && (#[trigger] mem_pairs_from(gs, 0)[j]).state.text
                == n && mem_pairs_from(gs, 0)[j].memory == Some(ts),
{
    lemma_mem_pairs_named(gs, 0, n);
    lemma_mem_pairs_some(gs, 0);
    lemma_lookup_exact(mem_pairs_from(gs, 0), n, 0);
    if !has_name(mem_states_from(gs, 0), n) {
        assert(!pair_named(mem_pairs_from(gs, 0), n));
        if lookup_mem(mem_pairs_from(gs, 0), n, 0) is Some {
            let pairs = mem_pairs_from(gs, 0);
            let j = choose|j: int|
                0 <= j < pairs.len() && (#[trigger] pairs[j]).state.text == n && pairs[j].memory
                    == Some(lookup_mem(pairs, n, 0)->Some_0);
            assert(pair_named(pairs, n));
        }
    }
}

/// Whether some clause of declaration `d` lists a state named `s` among its
/// origins.
pub open spec fn decl_has_origin(d: EventDeclV, s: Seq<char>) -> bool {
    exists|j: int, k: int|
        0 <= j < d.clauses.len() && 0 <= k < d.clauses[j].origins.len() && (#[trigger] d.clauses[
            j].origins[k]).text == s
}

/// The event names expected in a trace for state `s`: the names of the
/// declarations with `s` among their origins, in declaration order.
pub open spec fn trace_expected(es: Seq<EventDeclV>, s: Seq<char>, i: int) -> Seq<IdentV>
    decreases es.len() - i,
{
    if i < 0 || i >= es.len() {
        Seq::empty()
    } else {
        (if decl_has_origin(es[i], s) {
            seq![es[i].name]
        } else {
            Seq::empty()
        }) + trace_expected(es, s, i + 1)
    }
}

proof fn lemma_trace_from(es: Seq<EventDeclV>, s: Seq<char>, i: int)
    requires
        0 <= i,
    ensures
        trace_events_from(tables_of(es), s, i) == trace_expected(es, s, i),
    decreases es.len() - i,
{
    if i >= es.len() {
    } else {
        lemma_trace_from(es, s, i + 1);
        assert(tables_of(es)[i].transitions == event_transitions_from(
            es[i].name,
            es[i].clauses,
            0,
        ));
        lemma_transitions_exact(es[i], s);
        assert(origin_in(tables_of(es)[i].transitions, s) <==> decl_has_origin(es[i], s));
    }
}

/// A traced state's derived enumeration lists exactly the events whose
/// declarations have it as an origin, in declaration order.
pub proof fn lemma_trace_exact(es: Seq<EventDeclV>, s: Seq<char>)
    ensures
        trace_events_from(tables_of(es), s, 0) == trace_expected(es, s, 0),
{
    lemma_trace_from(es, s, 0);
}

} // verus!
