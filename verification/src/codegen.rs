//! The code generator: a deterministic, side-effect-free rendering of an
//! assembled machine as Rust source.  `machine_text` is the exact text, as a
//! sequence of characters, and `render` produces exactly that text.
//!
//! For every discovered state the output holds a marker type and a
//! conversion into the `Variants` enumeration (`ToEnum` for a payload-less
//! state, `ToMemEnum` for a state with a payload); for every entry state an
//! `EntryPoint` impl; for every event a marker type; for every declared
//! transition a `Transition` impl from its origin, so that an undeclared
//! transition cannot type-check; for every traced state an enumeration of
//! the events that can fire from it; and one `Variants` enumeration with one
//! arm per state.

use vstd::prelude::*;

use crate::ast::IdentV;
use crate::machine::{Machine, MachineV, MemDef, MemDefV, EventTable, EventTableV, TraceDef,
    TraceDefV, Transition, TransitionV, mems_view, tables_view, tracedefs_view, trans_view};
use crate::ast::{Ident, ids_view};

verus! {

// ---------------------------------------------------------------------------
// Decimal rendering, for payload field names.
// ---------------------------------------------------------------------------

/// The decimal digit character for `d` (`d < 10`).
pub open spec fn dec_digit(d: nat) -> char {
    ((d + 48) as char)
}

/// The decimal representation of `n`, most significant digit first.
pub open spec fn dec_rep(n: nat) -> Seq<char>
    decreases n,
{
    if n < 10 {
        seq![dec_digit(n)]
    } else {
        dec_rep(n / 10).push(dec_digit(n % 10))
    }
}

fn push_digit(d: usize, out: &mut String)
    requires
        d < 10,
    ensures
        final(out)@ == old(out)@ + seq![dec_digit(d as nat)],
{
    let s: &str = if d == 0 {
        "0"
    } else if d == 1 {
        "1"
    } else if d == 2 {
        "2"
    } else if d == 3 {
        "3"
    } else if d == 4 {
        "4"
    } else if d == 5 {
        "5"
    } else if d == 6 {
        "6"
    } else if d == 7 {
        "7"
    } else if d == 8 {
        "8"
    } else {
        "9"
    };
    proof {
        reveal_strlit("0");
        reveal_strlit("1");
        reveal_strlit("2");
        reveal_strlit("3");
        reveal_strlit("4");
        reveal_strlit("5");
        reveal_strlit("6");
        reveal_strlit("7");
        reveal_strlit("8");
        reveal_strlit("9");
        assert(s@ =~= seq![dec_digit(d as nat)]);
    }
    out.append(s);
}

fn push_dec(n: usize, out: &mut String)
    ensures
        final(out)@ == old(out)@ + dec_rep(n as nat),
    decreases n,
{
    if n < 10 {
        push_digit(n, out);
    } else {
        push_dec(n / 10, out);
        push_digit(n % 10, out);
        proof {
            assert(old(out)@ + dec_rep(n as nat) =~= (old(out)@ + dec_rep(n as nat / 10)) + seq![
                dec_digit(n as nat % 10),
            ]);
        }
    }
}

// ---------------------------------------------------------------------------
// The rendered text.
// ---------------------------------------------------------------------------

/// The fixed head of the generated module: the carrier type `FSM`, its `SM`
/// impl, and the generic entry constructor.
pub open spec fn header_text(name: Seq<char>) -> Seq<char> {
    "#[allow(non_snake_case)]\npub mod "@ + name
        + " {\n    pub use fsm_dsl::{Transition, Init, ToEnum, ToMemEnum};\n\n    use core::marker::PhantomData;\n    use fsm_dsl::{Event, State, SM, EntryPoint};\n\n    #[derive(Clone)]\n    pub struct FSM<S: State> {\n        _s: PhantomData<S>,\n    }\n\n    impl<S: State> SM for FSM<S> {\n        type State = S;\n    }\n\n    impl<S: State + EntryPoint> Init<S> for FSM<S> {\n        type SM = FSM<S>;\n\n        fn init() -> Self::SM {\n            FSM { _s: PhantomData }\n        }\n    }\n\n"@
}

/// The payload tuple's element types: `T1, T2, `.
pub open spec fn mem_params_text(ts: Seq<IdentV>, k: int) -> Seq<char>
    decreases ts.len() - k,
{
    if k < 0 || k >= ts.len() {
        Seq::empty()
    } else {
        ts[k].text + ", "@ + mem_params_text(ts, k + 1)
    }
}

/// The payload arguments handed on to the state's arm: `mem.0, mem.1, `.
pub open spec fn mem_args_text(count: int, k: int) -> Seq<char>
    decreases count - k,
{
    if k < 0 || k >= count {
        Seq::empty()
    } else {
        "mem."@ + dec_rep(k as nat) + ", "@ + mem_args_text(count, k + 1)
    }
}

/// One state's declarations: its marker type, its `State` impl, and its
/// conversion into `Variants` (with its payload values, if it has any).
pub open spec fn state_text(d: MemDefV) -> Seq<char> {
    let base = "    #[derive(Clone, Copy, PartialEq, Eq)]\n    pub struct "@ + d.state.text
        + ";\n    impl State for "@ + d.state.text + " {}\n"@;
    match d.memory {
        None => base + "    impl ToEnum for FSM<"@ + d.state.text
            + "> {\n        type Repr = Variants;\n\n        fn to_enum(self) -> Variants {\n            Variants::"@
            + d.state.text + "(self)\n        }\n    }\n\n"@,
        Some(ts) => base + "    impl ToMemEnum for FSM<"@ + d.state.text
            + "> {\n        type Repr = Variants;\n        type Mem = ("@ + mem_params_text(ts, 0)
            + ");\n\n        fn to_enum(self, mem: Self::Mem) -> Variants {\n            Variants::"@
            + d.state.text + "(self, "@ + mem_args_text(ts.len() as int, 0)
            + ")\n        }\n    }\n\n"@,
    }
}

/// Every state's declarations, in state order.
pub open spec fn states_text(ds: Seq<MemDefV>, i: int) -> Seq<char>
    decreases ds.len() - i,
{
    if i < 0 || i >= ds.len() {
        Seq::empty()
    } else {
        state_text(ds[i]) + states_text(ds, i + 1)
    }
}

/// One entry state's `EntryPoint` impl.
pub open spec fn entry_text(s: IdentV) -> Seq<char> {
    "    impl EntryPoint for "@ + s.text + " {}\n"@
}

/// Every entry state's impl, in entry order.
pub open spec fn entries_text(es: Seq<IdentV>, i: int) -> Seq<char>
    decreases es.len() - i,
{
    if i < 0 || i >= es.len() {
        Seq::empty()
    } else {
        entry_text(es[i]) + entries_text(es, i + 1)
    }
}

/// One transition's typed operation; an entry transition adds nothing here,
/// its destination already stands among the entry states.
pub open spec fn transition_text(t: TransitionV) -> Seq<char> {
    match t.origin {
        None => Seq::empty(),
        Some(o) => "    impl Transition<"@ + t.event.text + "> for FSM<"@ + o.text
            + "> {\n        type SM = FSM<"@ + t.dest.text + ">;\n\n        fn t(self, _e: "@
            + t.event.text + ") -> Self::SM {\n            FSM { _s: PhantomData }\n        }\n    }\n\n"@,
    }
}

/// Every transition's operation, in clause order.
pub open spec fn transitions_text(ts: Seq<TransitionV>, k: int) -> Seq<char>
    decreases ts.len() - k,
{
    if k < 0 || k >= ts.len() {
        Seq::empty()
    } else {
        transition_text(ts[k]) + transitions_text(ts, k + 1)
    }
}

/// One event's declarations: its marker type, its `Event` impl, and its
/// transitions' operations.
pub open spec fn event_text(e: EventTableV) -> Seq<char> {
    "    #[derive(Clone, Copy, PartialEq, Eq)]\n    pub struct "@ + e.name.text
        + ";\n    impl Event for "@ + e.name.text + " {}\n\n"@ + transitions_text(e.transitions, 0)
}

/// Every event's declarations, in declaration order.
pub open spec fn events_text(es: Seq<EventTableV>, i: int) -> Seq<char>
    decreases es.len() - i,
{
    if i < 0 || i >= es.len() {
        Seq::empty()
    } else {
        event_text(es[i]) + events_text(es, i + 1)
    }
}

/// One traced state's arms: one per event that can fire from it, in event
/// declaration order.
pub open spec fn trace_arms_text(evs: Seq<IdentV>, k: int) -> Seq<char>
    decreases evs.len() - k,
{
    if k < 0 || k >= evs.len() {
        Seq::empty()
    } else {
        evs[k].text + "("@ + evs[k].text + "), "@ + trace_arms_text(evs, k + 1)
    }
}

/// One traced state's derived enumeration.
pub open spec fn trace_text(t: TraceDefV) -> Seq<char> {
    "    pub enum "@ + t.state.text + "Trace { "@ + trace_arms_text(t.events, 0) + "}\n\n"@
}

/// Every traced state's enumeration, in `Trace` block order.
pub open spec fn traces_text(ts: Seq<TraceDefV>, i: int) -> Seq<char>
    decreases ts.len() - i,
{
    if i < 0 || i >= ts.len() {
        Seq::empty()
    } else {
        trace_text(ts[i]) + traces_text(ts, i + 1)
    }
}

/// One state's arm of the `Variants` enumeration, with its payload types.
pub open spec fn variant_text(d: MemDefV) -> Seq<char> {
    match d.memory {
        None => "        "@ + d.state.text + "(FSM<"@ + d.state.text + ">),\n"@,
        Some(ts) => "        "@ + d.state.text + "(FSM<"@ + d.state.text + ">, "@
            + mem_params_text(ts, 0) + "),\n"@,
    }
}

/// Every state's arm, in state order.
pub open spec fn variants_text(ds: Seq<MemDefV>, i: int) -> Seq<char>
    decreases ds.len() - i,
{
    if i < 0 || i >= ds.len() {
        Seq::empty()
    } else {
        variant_text(ds[i]) + variants_text(ds, i + 1)
    }
}

/// The whole generated module.
pub open spec fn machine_text(m: MachineV) -> Seq<char> {
    header_text(m.name.text) + states_text(m.mem_defs, 0) + entries_text(m.entries, 0) + "\n"@
        + events_text(m.events, 0) + traces_text(m.traces, 0) + "    pub enum Variants {\n"@
        + variants_text(m.mem_defs, 0) + "    }\n}\n"@
}

// ---------------------------------------------------------------------------
// Rendering, executable.
// ---------------------------------------------------------------------------

fn push_mem_params(ts: &Vec<Ident>, k: usize, out: &mut String)
    requires
        k <= ts@.len(),
    ensures
        final(out)@ == old(out)@ + mem_params_text(ids_view(ts@), k as int),
    decreases ts@.len() - k,
{
    if k >= ts.len() {
        proof {
            assert(out@ =~= out@ + Seq::<char>::empty());
        }
        return ;
    }
    let ghost start = out@;
    out.append(ts[k].text.as_str());
    out.append(", ");
    push_mem_params(ts, k + 1, out);
    proof {
        assert(out@ =~= start + (ids_view(ts@)[k as int].text + ", "@ + mem_params_text(
            ids_view(ts@),
            k + 1,
        )));
    }
}

fn push_mem_args(count: usize, k: usize, out: &mut String)
    requires
        k <= count,
    ensures
        final(out)@ == old(out)@ + mem_args_text(count as int, k as int),
    decreases count - k,
{
    if k >= count {
        proof {
            assert(out@ =~= out@ + Seq::<char>::empty());
        }
        return ;
    }
    let ghost start = out@;
    out.append("mem.");
    push_dec(k, out);
    out.append(", ");
    push_mem_args(count, k + 1, out);
    proof {
        assert(out@ =~= start + ("mem."@ + dec_rep(k as nat) + ", "@ + mem_args_text(
            count as int,
            k + 1,
        )));
    }
}

fn push_state(d: &MemDef, out: &mut String)
    ensures
        final(out)@ == old(out)@ + state_text(d@),
{
    let ghost start = out@;
    out.append("    #[derive(Clone, Copy, PartialEq, Eq)]\n    pub struct ");
    out.append(d.state.text.as_str());
    out.append(";\n    impl State for ");
    out.append(d.state.text.as_str());
    out.append(" {}\n");
    match &d.memory {
        None => {
            out.append("    impl ToEnum for FSM<");
            out.append(d.state.text.as_str());
            out.append(
                "> {\n        type Repr = Variants;\n\n        fn to_enum(self) -> Variants {\n            Variants::",
            );
            out.append(d.state.text.as_str());
            out.append("(self)\n        }\n    }\n\n");
        },
        Some(ts) => {
            out.append("    impl ToMemEnum for FSM<");
            out.append(d.state.text.as_str());
            out.append("> {\n        type Repr = Variants;\n        type Mem = (");
            push_mem_params(ts, 0, out);
            out.append(");\n\n        fn to_enum(self, mem: Self::Mem) -> Variants {\n            Variants::");
            out.append(d.state.text.as_str());
            out.append("(self, ");
            push_mem_args(ts.len(), 0, out);
            out.append(")\n        }\n    }\n\n");
        },
    }
    proof {
        assert(out@ =~= start + state_text(d@));
    }
}

fn push_states(ds: &Vec<MemDef>, i: usize, out: &mut String)
    requires
        i <= ds@.len(),
    ensures
        final(out)@ == old(out)@ + states_text(mems_view(ds@), i as int),
    decreases ds@.len() - i,
{
    if i >= ds.len() {
        proof {
            assert(out@ =~= out@ + Seq::<char>::empty());
        }
        return ;
    }
    let ghost start = out@;
    push_state(&ds[i], out);
    push_states(ds, i + 1, out);
    proof {
        assert(mems_view(ds@)[i as int] == ds@[i as int]@);
        assert(out@ =~= start + (state_text(mems_view(ds@)[i as int]) + states_text(
            mems_view(ds@),
            i + 1,
        )));
    }
}

fn push_entries(es: &Vec<Ident>, i: usize, out: &mut String)
    requires
        i <= es@.len(),
    ensures
        final(out)@ == old(out)@ + entries_text(ids_view(es@), i as int),
    decreases es@.len() - i,
{
    if i >= es.len() {
        proof {
            assert(out@ =~= out@ + Seq::<char>::empty());
        }
        return ;
    }
    let ghost start = out@;
    out.append("    impl EntryPoint for ");
    out.append(es[i].text.as_str());
    out.append(" {}\n");
    push_entries(es, i + 1, out);
    proof {
        assert(out@ =~= start + (entry_text(ids_view(es@)[i as int]) + entries_text(
            ids_view(es@),
            i + 1,
        )));
    }
}

fn push_transition(t: &Transition, out: &mut String)
    ensures
        final(out)@ == old(out)@ + transition_text(t@),
{
    let ghost start = out@;
    match &t.origin {
        None => {
            proof {
                assert(out@ =~= start + transition_text(t@));
            }
        },
        Some(o) => {
            out.append("    impl Transition<");
            out.append(t.event.text.as_str());
            out.append("> for FSM<");
            out.append(o.text.as_str());
            out.append("> {\n        type SM = FSM<");
            out.append(t.dest.text.as_str());
            out.append(">;\n\n        fn t(self, _e: ");
            out.append(t.event.text.as_str());
            out.append(") -> Self::SM {\n            FSM { _s: PhantomData }\n        }\n    }\n\n");
            proof {
                assert(out@ =~= start + transition_text(t@));
            }
        },
    }
}

fn push_transitions(ts: &Vec<Transition>, k: usize, out: &mut String)
    requires
        k <= ts@.len(),
    ensures
        final(out)@ == old(out)@ + transitions_text(trans_view(ts@), k as int),
    decreases ts@.len() - k,
{
    if k >= ts.len() {
        proof {
            assert(out@ =~= out@ + Seq::<char>::empty());
        }
        return ;
    }
    let ghost start = out@;
    push_transition(&ts[k], out);
    push_transitions(ts, k + 1, out);
    proof {
        assert(trans_view(ts@)[k as int] == ts@[k as int]@);
        assert(out@ =~= start + (transition_text(trans_view(ts@)[k as int]) + transitions_text(
            trans_view(ts@),
            k + 1,
        )));
    }
}

fn push_event(e: &EventTable, out: &mut String)
    ensures
        final(out)@ == old(out)@ + event_text(e@),
{
    let ghost start = out@;
    out.append("    #[derive(Clone, Copy, PartialEq, Eq)]\n    pub struct ");
    out.append(e.name.text.as_str());
    out.append(";\n    impl Event for ");
    out.append(e.name.text.as_str());
    out.append(" {}\n\n");
    push_transitions(&e.transitions, 0, out);
    proof {
        assert(out@ =~= start + event_text(e@));
    }
}

fn push_events(es: &Vec<EventTable>, i: usize, out: &mut String)
    requires
        i <= es@.len(),
    ensures
        final(out)@ == old(out)@ + events_text(tables_view(es@), i as int),
    decreases es@.len() - i,
{
    if i >= es.len() {
        proof {
            assert(out@ =~= out@ + Seq::<char>::empty());
        }
        return ;
    }
    let ghost start = out@;
    push_event(&es[i], out);
    push_events(es, i + 1, out);
    proof {
        assert(tables_view(es@)[i as int] == es@[i as int]@);
        assert(out@ =~= start + (event_text(tables_view(es@)[i as int]) + events_text(
            tables_view(es@),
            i + 1,
        )));
    }
}

fn push_trace_arms(evs: &Vec<Ident>, k: usize, out: &mut String)
    requires
        k <= evs@.len(),
    ensures
        final(out)@ == old(out)@ + trace_arms_text(ids_view(evs@), k as int),
    decreases evs@.len() - k,
{
    if k >= evs.len() {
        proof {
            assert(out@ =~= out@ + Seq::<char>::empty());
        }
        return ;
    }
    let ghost start = out@;
    out.append(evs[k].text.as_str());
    out.append("(");
    out.append(evs[k].text.as_str());
    out.append("), ");
    push_trace_arms(evs, k + 1, out);
    proof {
        assert(out@ =~= start + (ids_view(evs@)[k as int].text + "("@ + ids_view(evs@)[
            k as int].text + "), "@ + trace_arms_text(ids_view(evs@), k + 1)));
    }
}

fn push_trace(t: &TraceDef, out: &mut String)
    ensures
        final(out)@ == old(out)@ + trace_text(t@),
{
    let ghost start = out@;
    out.append("    pub enum ");
    out.append(t.state.text.as_str());
    out.append("Trace { ");
    push_trace_arms(&t.events, 0, out);
    out.append("}\n\n");
    proof {
        assert(out@ =~= start + trace_text(t@));
    }
}

fn push_traces(ts: &Vec<TraceDef>, i: usize, out: &mut String)
    requires
        i <= ts@.len(),
    ensures
        final(out)@ == old(out)@ + traces_text(tracedefs_view(ts@), i as int),
    decreases ts@.len() - i,
{
    if i >= ts.len() {
        proof {
            assert(out@ =~= out@ + Seq::<char>::empty());
        }
        return ;
    }
    let ghost start = out@;
    push_trace(&ts[i], out);
    push_traces(ts, i + 1, out);
    proof {
        assert(tracedefs_view(ts@)[i as int] == ts@[i as int]@);
        assert(out@ =~= start + (trace_text(tracedefs_view(ts@)[i as int]) + traces_text(
            tracedefs_view(ts@),
            i + 1,
        )));
    }
}

fn push_variants(ds: &Vec<MemDef>, i: usize, out: &mut String)
    requires
        i <= ds@.len(),
    ensures
        final(out)@ == old(out)@ + variants_text(mems_view(ds@), i as int),
    decreases ds@.len() - i,
{
    if i >= ds.len() {
        proof {
            assert(out@ =~= out@ + Seq::<char>::empty());
        }
        return ;
    }
    let ghost start = out@;
    out.append("        ");
    out.append(ds[i].state.text.as_str());
    out.append("(FSM<");
    out.append(ds[i].state.text.as_str());
    match &ds[i].memory {
        None => {
            out.append(">),\n");
        },
        Some(ts) => {
            out.append(">, ");
            push_mem_params(ts, 0, out);
            out.append("),\n");
        },
    }
    proof {
        assert(out@ =~= start + variant_text(mems_view(ds@)[i as int]));
    }
    push_variants(ds, i + 1, out);
    proof {
        assert(out@ =~= start + (variant_text(mems_view(ds@)[i as int]) + variants_text(
            mems_view(ds@),
            i + 1,
        )));
    }
}

/// Render an assembled machine as Rust source: exactly `machine_text` of its
/// value.
pub fn render(m: &Machine) -> (r: String)
    ensures
        r@ == machine_text(m@),
{
    let mut out = String::new();
    let ghost empty = out@;
    out.append("#[allow(non_snake_case)]\npub mod ");
    out.append(m.name.text.as_str());
    out.append(
        " {\n    pub use fsm_dsl::{Transition, Init, ToEnum, ToMemEnum};\n\n    use core::marker::PhantomData;\n    use fsm_dsl::{Event, State, SM, EntryPoint};\n\n    #[derive(Clone)]\n    pub struct FSM<S: State> {\n        _s: PhantomData<S>,\n    }\n\n    impl<S: State> SM for FSM<S> {\n        type State = S;\n    }\n\n    impl<S: State + EntryPoint> Init<S> for FSM<S> {\n        type SM = FSM<S>;\n\n        fn init() -> Self::SM {\n            FSM { _s: PhantomData }\n        }\n    }\n\n",
    );
    proof {
        assert(out@ =~= header_text(m@.name.text));
    }
    push_states(&m.mem_defs, 0, &mut out);
    push_entries(&m.entries, 0, &mut out);
    out.append("\n");
    push_events(&m.events, 0, &mut out);
    push_traces(&m.traces, 0, &mut out);
    out.append("    pub enum Variants {\n");
    push_variants(&m.mem_defs, 0, &mut out);
    out.append("    }\n}\n");
    proof {
        assert(out@ =~= machine_text(m@));
    }
    out
}

} // verus!
