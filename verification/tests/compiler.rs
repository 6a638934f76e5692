use fsm_dsl::lexer::{lex, Tag};
use fsm_dsl::machine::{assemble, Machine};
use fsm_dsl::parser::parse;

fn assembled(src: &str) -> Machine {
    let toks = lex(src).expect("definition should lex");
    let ast = parse(&toks).expect("definition should parse");
    assemble(&ast).expect("definition should assemble")
}

fn state_names(m: &Machine) -> Vec<String> {
    m.states.iter().map(|s| s.text.clone()).collect()
}

#[test]
fn lexes_idents_and_punctuation() {
    let toks = lex("Door { a_1, => }").expect("should lex");
    let tags: Vec<Tag> = toks.iter().map(|t| t.tag).collect();
    assert_eq!(
        tags,
        vec![Tag::Ident, Tag::LBrace, Tag::Ident, Tag::Comma, Tag::Arrow, Tag::RBrace]
    );
    assert_eq!(toks[0].text, "Door");
    assert_eq!(toks[2].text, "a_1");
    assert_eq!(toks[0].pos, 0);
    assert_eq!(toks[2].pos, 7);
    assert_eq!(toks[4].pos, 12);
}

#[test]
fn door_machine_assembles() {
    let m = assembled(
        "Door { Init { Closed } Open { Closed => Opened } Close { Opened => Closed } }",
    );
    assert_eq!(m.name.text, "Door");
    assert_eq!(state_names(&m), vec!["Closed".to_string(), "Opened".to_string()]);
    assert_eq!(m.events.len(), 2);
    assert_eq!(m.events[0].name.text, "Open");
    assert_eq!(m.events[1].name.text, "Close");
    assert_eq!(m.entries.len(), 1);
    assert_eq!(m.entries[0].text, "Closed");
    assert_eq!(m.mem_defs.len(), 2);
    assert!(m.mem_defs.iter().all(|d| d.memory.is_none()));
}

#[test]
fn multi_origin_clause_expands_per_origin() {
    let m = assembled("M { Init { A } E { A, B => C } }");
    assert_eq!(m.events.len(), 1);
    let ts = &m.events[0].transitions;
    assert_eq!(ts.len(), 2);
    assert_eq!(ts[0].origin.as_ref().unwrap().text, "A");
    assert_eq!(ts[0].dest.text, "C");
    assert_eq!(ts[1].origin.as_ref().unwrap().text, "B");
    assert_eq!(ts[1].dest.text, "C");
    assert!(ts.iter().all(|t| t.event.text == "E"));
}

#[test]
fn transition_exists_only_for_declared_origins() {
    let m = assembled("M { Init { A } E { A => B } F { B => A } }");
    let e = &m.events[0];
    assert!(e.transitions.iter().any(|t| t.origin.as_ref().map(|o| o.text.as_str()) == Some("A")));
    assert!(!e.transitions.iter().any(|t| t.origin.as_ref().map(|o| o.text.as_str()) == Some("B")));
}

#[test]
fn states_gather_init_events_and_memory() {
    let m = assembled("M { Init { A } Memory [ Z (u8) ] E { A => B } }");
    assert_eq!(state_names(&m), vec!["A".to_string(), "B".to_string(), "Z".to_string()]);
}

#[test]
fn entry_clause_adds_entry_state() {
    let m = assembled("M { Init { A } E { => B } }");
    let entries: Vec<String> = m.entries.iter().map(|s| s.text.clone()).collect();
    assert_eq!(entries, vec!["A".to_string(), "B".to_string()]);
    // The entry transition has no origin.
    assert_eq!(m.events[0].transitions.len(), 1);
    assert!(m.events[0].transitions[0].origin.is_none());
}

#[test]
fn entry_state_named_twice_across_blocks_kept_once() {
    let m = assembled("M { Init { A } E { => A } }");
    let entries: Vec<String> = m.entries.iter().map(|s| s.text.clone()).collect();
    assert_eq!(entries, vec!["A".to_string()]);
}

#[test]
fn memory_defaults_to_no_payload() {
    let m = assembled("M { Init { A } Memory [ A (u8, u16) ] E { A => B } }");
    assert_eq!(m.mem_defs.len(), 2);
    assert_eq!(m.mem_defs[0].state.text, "A");
    let mem = m.mem_defs[0].memory.as_ref().expect("A carries a payload");
    let tys: Vec<String> = mem.iter().map(|t| t.text.clone()).collect();
    assert_eq!(tys, vec!["u8".to_string(), "u16".to_string()]);
    assert_eq!(m.mem_defs[1].state.text, "B");
    assert!(m.mem_defs[1].memory.is_none());
}

#[test]
fn memory_group_assigns_shape_to_each_listed_state() {
    let m = assembled("M { Init { A } Memory [ A, B => u32 ] E { A => B } }");
    for d in &m.mem_defs {
        let mem = d.memory.as_ref().expect("both states carry the payload");
        let tys: Vec<String> = mem.iter().map(|t| t.text.clone()).collect();
        assert_eq!(tys, vec!["u32".to_string()]);
    }
}

#[test]
fn memory_accepts_braces_as_delimiters() {
    let m = assembled("M { Init { A } Memory { A (u8) } E { A => B } }");
    assert!(m.mem_defs[0].memory.is_some());
}

#[test]
fn memory_empty_type_list_differs_from_absence() {
    let m = assembled("M { Init { A } Memory [ A () ] E { A => B } }");
    let mem = m.mem_defs[0].memory.as_ref().expect("A is mentioned");
    assert!(mem.is_empty());
    assert!(m.mem_defs[1].memory.is_none());
}

#[test]
fn trace_lists_events_in_declaration_order() {
    let m = assembled(
        "M { Init { A } Trace [ A ] Open { A => B } Close { B => A } Poke { A => C } }",
    );
    assert_eq!(m.traces.len(), 1);
    assert_eq!(m.traces[0].state.text, "A");
    let evs: Vec<String> = m.traces[0].events.iter().map(|e| e.text.clone()).collect();
    assert_eq!(evs, vec!["Open".to_string(), "Poke".to_string()]);
}

#[test]
fn trace_of_state_with_no_outgoing_events_is_empty() {
    let m = assembled("M { Init { A } Trace [ B ] Open { A => B } }");
    assert_eq!(m.traces[0].state.text, "B");
    assert!(m.traces[0].events.is_empty());
}

#[test]
fn machine_with_only_init_assembles() {
    let m = assembled("M { Init { A } }");
    assert_eq!(state_names(&m), vec!["A".to_string()]);
    assert!(m.events.is_empty());
    assert!(m.traces.is_empty());
}

#[test]
fn trailing_comma_accepted_in_init_block() {
    let m = assembled("M { Init { A, B, } }");
    assert_eq!(state_names(&m), vec!["A".to_string(), "B".to_string()]);
}

#[test]
fn empty_init_block_accepted() {
    let m = assembled("M { Init { } }");
    assert!(m.states.is_empty());
    assert!(m.entries.is_empty());
}

#[test]
fn whitespace_is_not_required_around_punctuation() {
    let m = assembled("M{Init{A}E{A=>B}}");
    assert_eq!(state_names(&m), vec!["A".to_string(), "B".to_string()]);
    assert_eq!(m.events.len(), 1);
}

#[test]
fn comma_without_following_origin_rejected() {
    let toks = lex("M { Init { A } E { A, => B } }").expect("should lex");
    assert!(parse(&toks).is_err());
}

#[test]
fn states_repeated_across_blocks_discovered_once() {
    let m = assembled("M { Init { A, B } Memory [ A (u8) ] E { A => B } F { B => A } }");
    assert_eq!(state_names(&m), vec!["A".to_string(), "B".to_string()]);
}
