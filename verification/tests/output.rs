use fsm_dsl::compile::compile;

fn generated(src: &str) -> String {
    compile(src).expect("definition should compile")
}

#[test]
fn minimal_machine_renders_exactly() {
    let out = generated("M { Init { A } }");
    let expected = "#[allow(non_snake_case)]\n\
pub mod M {\n\
\x20   pub use fsm_dsl::{Transition, Init, ToEnum, ToMemEnum};\n\
\n\
\x20   use core::marker::PhantomData;\n\
\x20   use fsm_dsl::{Event, State, SM, EntryPoint};\n\
\n\
\x20   #[derive(Clone)]\n\
\x20   pub struct FSM<S: State> {\n\
\x20       _s: PhantomData<S>,\n\
\x20   }\n\
\n\
\x20   impl<S: State> SM for FSM<S> {\n\
\x20       type State = S;\n\
\x20   }\n\
\n\
\x20   impl<S: State + EntryPoint> Init<S> for FSM<S> {\n\
\x20       type SM = FSM<S>;\n\
\n\
\x20       fn init() -> Self::SM {\n\
\x20           FSM { _s: PhantomData }\n\
\x20       }\n\
\x20   }\n\
\n\
\x20   #[derive(Clone, Copy, PartialEq, Eq)]\n\
\x20   pub struct A;\n\
\x20   impl State for A {}\n\
\x20   impl ToEnum for FSM<A> {\n\
\x20       type Repr = Variants;\n\
\n\
\x20       fn to_enum(self) -> Variants {\n\
\x20           Variants::A(self)\n\
\x20       }\n\
\x20   }\n\
\n\
\x20   impl EntryPoint for A {}\n\
\n\
\x20   pub enum Variants {\n\
\x20       A(FSM<A>),\n\
\x20   }\n\
}\n";
    assert_eq!(out, expected);
}

#[test]
fn door_output_has_one_arm_per_state() {
    let out = generated(
        "Door { Init { Closed } Open { Closed => Opened } Close { Opened => Closed } }",
    );
    assert_eq!(out.matches("impl State for ").count(), 2);
    assert_eq!(out.matches("impl Event for ").count(), 2);
    assert_eq!(out.matches("impl EntryPoint for ").count(), 1);
    assert!(out.contains("impl EntryPoint for Closed {}"));
    assert_eq!(out.matches("(FSM<").count(), 2);
    assert!(out.contains("        Closed(FSM<Closed>),\n        Opened(FSM<Opened>),\n"));
}

#[test]
fn transition_impl_per_declared_edge() {
    let out = generated("M { Init { A } E { A, B => C } }");
    assert_eq!(out.matches("impl Transition<").count(), 2);
    assert!(out.contains("impl Transition<E> for FSM<A> {\n        type SM = FSM<C>;"));
    assert!(out.contains("impl Transition<E> for FSM<B> {\n        type SM = FSM<C>;"));
    assert!(!out.contains("impl Transition<E> for FSM<C>"));
}

#[test]
fn payload_renders_tuple_and_fields() {
    let out = generated("M { Init { A } Memory [ A (u8, u16) ] E { A => B } }");
    assert!(out.contains("impl ToMemEnum for FSM<A> {"));
    assert!(out.contains("type Mem = (u8, u16, );"));
    assert!(out.contains("Variants::A(self, mem.0, mem.1, )"));
    assert!(out.contains("        A(FSM<A>, u8, u16, ),\n"));
    assert!(out.contains("impl ToEnum for FSM<B> {"));
}

#[test]
fn payload_field_indices_render_in_decimal() {
    let src = "M { Init { A } Memory [ A (t0, t1, t2, t3, t4, t5, t6, t7, t8, t9, t10, t11) ] }";
    let out = generated(src);
    assert!(out.contains("mem.9, mem.10, mem.11, "));
}

#[test]
fn trace_enum_renders_arms_in_order() {
    let out = generated(
        "M { Init { A } Trace [ A ] Open { A => B } Close { B => A } Poke { A => C } }",
    );
    assert!(out.contains("pub enum ATrace { Open(Open), Poke(Poke), }"));
}

#[test]
fn traced_state_with_no_events_renders_empty_enum() {
    let out = generated("M { Init { A } Trace [ B ] Open { A => B } }");
    assert!(out.contains("pub enum BTrace { }"));
}

#[test]
fn entry_clause_renders_entry_point_only_once() {
    let out = generated("M { Init { A } E { => A } }");
    assert_eq!(out.matches("impl EntryPoint for A {}").count(), 1);
}
