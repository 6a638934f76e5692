use fsm_dsl::compile::compile;
use fsm_dsl::diag::{Diag, DiagKind};

fn rejected(src: &str) -> Diag {
    compile(src).err().expect("definition should be rejected")
}

#[test]
fn character_outside_alphabet_rejected() {
    let d = rejected("M % { Init { A } }");
    assert_eq!(d.kind, DiagKind::UnexpectedChar);
    assert_eq!(d.span, 2);
}

#[test]
fn lone_equals_sign_rejected() {
    let d = rejected("M = { Init { A } }");
    assert_eq!(d.kind, DiagKind::UnexpectedChar);
    assert_eq!(d.span, 2);
}

#[test]
fn missing_machine_name_rejected() {
    let d = rejected("{ Init { A } }");
    assert_eq!(d.kind, DiagKind::UnexpectedToken);
    assert_eq!(d.span, 0);
}

#[test]
fn truncated_definition_rejected() {
    let d = rejected("M {");
    assert_eq!(d.kind, DiagKind::UnexpectedEnd);
}

#[test]
fn wrong_keyword_for_init_rejected() {
    let d = rejected("M { Foo { A } }");
    assert_eq!(d.kind, DiagKind::ExpectedInit);
    assert_eq!(d.subject, "Foo");
    assert_eq!(d.span, 4);
}

#[test]
fn trailing_tokens_rejected() {
    let d = rejected("M { Init { A } } extra");
    assert_eq!(d.kind, DiagKind::TrailingTokens);
    assert_eq!(d.span, 17);
}

#[test]
fn duplicate_init_rejected() {
    // Compiling `Lock { Init { A, A } ... }` must fail on the repeated entry.
    let d = rejected("Lock { Init { A, A } T { A => B } }");
    assert_eq!(d.kind, DiagKind::DuplicateInit);
    assert_eq!(d.subject, "A");
    assert_eq!(d.span, 17);
    assert_eq!(d.prior, Some(14));
}

#[test]
fn duplicate_origin_within_one_clause_rejected() {
    let d = rejected("M { Init { A } E { A, A => B } }");
    assert_eq!(d.kind, DiagKind::DuplicateOrigin);
    assert_eq!(d.subject, "A");
}

#[test]
fn duplicate_origin_across_clauses_rejected() {
    let d = rejected("M { Init { A } E { A => B, A => C } }");
    assert_eq!(d.kind, DiagKind::DuplicateOrigin);
    assert_eq!(d.subject, "A");
    assert_eq!(d.span, 27);
    assert_eq!(d.prior, Some(19));
}

#[test]
fn destination_among_own_origins_rejected() {
    let d = rejected("M { Init { A } E { A, B => A } }");
    assert_eq!(d.kind, DiagKind::SelfReference);
    assert_eq!(d.subject, "A");
    assert_eq!(d.span, 27);
    assert_eq!(d.prior, Some(19));
}

#[test]
fn same_state_under_two_events_accepted() {
    // The duplicate-origin check is per event, not machine-wide.
    assert!(compile("M { Init { A } E { A => B } F { A => C } }").is_ok());
}

#[test]
fn duplicate_entry_destination_rejected() {
    let d = rejected("M { Init { A } E { => B, => B } }");
    assert_eq!(d.kind, DiagKind::DuplicateEntry);
    assert_eq!(d.subject, "B");
}

#[test]
fn duplicate_memory_state_rejected() {
    let d = rejected("M { Init { A } Memory [ A (u8), A (u16) ] }");
    assert_eq!(d.kind, DiagKind::DuplicateMemory);
    assert_eq!(d.subject, "A");
}

#[test]
fn duplicate_trace_state_rejected() {
    let d = rejected("M { Init { A } Trace [ A, A ] }");
    assert_eq!(d.kind, DiagKind::DuplicateTrace);
    assert_eq!(d.subject, "A");
}

#[test]
fn duplicate_event_rejected_citing_both_spans() {
    let src = "M { Init { A } E { A => B } E { B => A } }";
    let d = rejected(src);
    assert_eq!(d.kind, DiagKind::DuplicateEvent);
    assert_eq!(d.subject, "E");
    assert_eq!(d.span, 28);
    assert_eq!(d.prior, Some(15));
}

#[test]
fn message_names_the_duplicate() {
    let d = rejected("M { Init { A, A } }");
    assert_eq!(d.message(), "duplicate entry state: A");
}

#[test]
fn message_for_grammar_error_has_no_subject() {
    let d = rejected("M {");
    assert_eq!(d.message(), "unexpected end of definition");
}
