//! The lexical layer: machine definitions are written over a small alphabet
//! of identifiers, block delimiters, commas and the arrow `=>`.  The lexer
//! turns the definition text into a token list; `spec_lex` is the
//! mathematical statement of that tokenization.

use vstd::prelude::*;

use crate::diag::{Diag, DiagKind, DiagV};

verus! {

/// The shape of one token.  Only `Ident` carries text.
#[derive(Clone, Copy, Debug, PartialEq, Eq, Structural)]
pub enum Tag {
    Ident,
    LBrace,
    RBrace,
    LBracket,
    RBracket,
    LParen,
    RParen,
    Comma,
    Arrow,
}

/// One token: its shape, its text (empty unless an identifier), and the
/// character position at which it starts.
pub struct Token {
    pub tag: Tag,
    pub text: String,
    pub pos: usize,
}

/// The mathematical value of a `Token`.
#[verifier::ext_equal]
pub ghost struct TokenV {
    pub tag: Tag,
    pub text: Seq<char>,
    pub pos: int,
}

impl View for Token {
    type V = TokenV;

    open spec fn view(&self) -> TokenV {
        TokenV { tag: self.tag, text: self.text@, pos: self.pos as int }
    }
}

/// The token views of a token list.
pub open spec fn views(ts: Seq<Token>) -> Seq<TokenV> {
    ts.map_values(|t: Token| t@)
}

pub broadcast proof fn lemma_views_len(ts: Seq<Token>)
    ensures
        #[trigger] views(ts).len() == ts.len(),
{
}

/// Whitespace separates tokens and is otherwise ignored.
pub open spec fn is_ws(c: char) -> bool {
    c == ' ' || c == '\t' || c == '\n' || c == '\r'
}

/// An identifier starts with a letter or an underscore.
pub open spec fn is_ident_start(c: char) -> bool {
    ('a' as u32) <= (c as u32) && (c as u32) <= ('z' as u32)
        || ('A' as u32) <= (c as u32) && (c as u32) <= ('Z' as u32)
        || c == '_'
}

/// An identifier continues with letters, digits and underscores.
pub open spec fn is_ident_char(c: char) -> bool {
    is_ident_start(c) || ('0' as u32) <= (c as u32) && (c as u32) <= ('9' as u32)
}

/// The single-character tokens of the language.
pub open spec fn punct_tag(c: char) -> Option<Tag> {
    if c == '{' {
        Some(Tag::LBrace)
    } else if c == '}' {
        Some(Tag::RBrace)
    } else if c == '[' {
        Some(Tag::LBracket)
    } else if c == ']' {
        Some(Tag::RBracket)
    } else if c == '(' {
        Some(Tag::LParen)
    } else if c == ')' {
        Some(Tag::RParen)
    } else if c == ',' {
        Some(Tag::Comma)
    } else {
        None
    }
}

/// The first position at or after `pos` that no longer continues an
/// identifier.
pub open spec fn ident_end(s: Seq<char>, pos: int) -> int
    decreases s.len() - pos,
{
    if pos < 0 || pos >= s.len() {
        pos
    } else if is_ident_char(s[pos]) {
        ident_end(s, pos + 1)
    } else {
        pos
    }
}

pub proof fn lemma_ident_end_bounds(s: Seq<char>, pos: int)
    requires
        0 <= pos <= s.len(),
    ensures
        pos <= ident_end(s, pos) <= s.len(),
    decreases s.len() - pos,
{
    if pos < s.len() && is_ident_char(s[pos]) {
        lemma_ident_end_bounds(s, pos + 1);
    }
}

/// What lexing yields: the token values, or the position of the first
/// character that no token starts with.
pub ghost enum LexOut {
    Toks(Seq<TokenV>),
    Fail(int),
}

/// The tokenization of `s` from position `pos` on.
pub open spec fn spec_lex(s: Seq<char>, pos: int) -> LexOut
    decreases s.len() - pos,
    via spec_lex_decreases
{
    if pos < 0 || pos >= s.len() {
        LexOut::Toks(Seq::empty())
    } else {
        let c = s[pos];
        if is_ws(c) {
            spec_lex(s, pos + 1)
        } else if is_ident_start(c) {
            let end = ident_end(s, pos);
            let tok = TokenV { tag: Tag::Ident, text: s.subrange(pos, end), pos };
            match spec_lex(s, end) {
                LexOut::Toks(ts) => LexOut::Toks(seq![tok] + ts),
                LexOut::Fail(p) => LexOut::Fail(p),
            }
        } else if c == '=' {
            if pos + 1 < s.len() && s[pos + 1] == '>' {
                let tok = TokenV { tag: Tag::Arrow, text: Seq::empty(), pos };
                match spec_lex(s, pos + 2) {
                    LexOut::Toks(ts) => LexOut::Toks(seq![tok] + ts),
                    LexOut::Fail(p) => LexOut::Fail(p),
                }
            } else {
                LexOut::Fail(pos)
            }
        } else {
            match punct_tag(c) {
                Some(tag) => {
                    let tok = TokenV { tag, text: Seq::empty(), pos };
                    match spec_lex(s, pos + 1) {
                        LexOut::Toks(ts) => LexOut::Toks(seq![tok] + ts),
                        LexOut::Fail(p) => LexOut::Fail(p),
                    }
                },
                None => LexOut::Fail(pos),
            }
        }
    }
}

#[via_fn]
proof fn spec_lex_decreases(s: Seq<char>, pos: int) {
    if 0 <= pos < s.len() && is_ident_start(s[pos]) {
        lemma_ident_end_bounds(s, pos + 1);
    }
}

/// The diagnostic the lexer reports for an unexpected character.
pub open spec fn lex_fail_diag(p: int) -> DiagV {
    DiagV { kind: DiagKind::UnexpectedChar, subject: Seq::empty(), span: p, prior: None }
}

fn is_ws_exec(c: char) -> (r: bool)
    ensures
        r == is_ws(c),
{
    c == ' ' || c == '\t' || c == '\n' || c == '\r'
}

fn is_ident_start_exec(c: char) -> (r: bool)
    ensures
        r == is_ident_start(c),
{
    let n = c as u32;
    (97u32 <= n && n <= 122u32) || (65u32 <= n && n <= 90u32) || c == '_'
}

fn is_ident_char_exec(c: char) -> (r: bool)
    ensures
        r == is_ident_char(c),
{
    is_ident_start_exec(c) || { let n = c as u32; 48u32 <= n && n <= 57u32 }
}

fn ident_end_exec(s: &str, len: usize, pos: usize) -> (r: usize)
    requires
        len == s@.len(),
        pos <= len,
    ensures
        r == ident_end(s@, pos as int),
        pos <= r <= len,
    decreases len - pos,
{
    if pos < len && is_ident_char_exec(s.get_char(pos)) {
        ident_end_exec(s, len, pos + 1)
    } else {
        pos
    }
}

fn lex_from(s: &str, len: usize, pos: usize, acc: &mut Vec<Token>) -> (r: Option<Diag>)
    requires
        len == s@.len(),
        pos <= len,
    ensures
        match spec_lex(s@, pos as int) {
            LexOut::Toks(ts) => r is None && views(final(acc)@) == views(old(acc)@) + ts,
            LexOut::Fail(p) => (r matches Some(d) && d@ == lex_fail_diag(p)),
        },
    decreases len - pos,
{
    if pos >= len {
        proof {
            assert(views(acc@) =~= views(acc@) + Seq::<TokenV>::empty());
        }
        return None;
    }
    let c = s.get_char(pos);
    if is_ws_exec(c) {
        lex_from(s, len, pos + 1, acc)
    } else if is_ident_start_exec(c) {
        let end = ident_end_exec(s, len, pos);
        let text = s.substring_char(pos, end).to_owned();
        let tok = Token { tag: Tag::Ident, text, pos };
        let ghost tv = TokenV { tag: Tag::Ident, text: s@.subrange(pos as int, end as int), pos: pos as int };
        proof {
            assert(tok@ =~= tv);
        }
        let ghost mid = acc@;
        acc.push(tok);
        proof {
            assert(views(acc@) =~= views(mid) + seq![tv]);
            lemma_ident_end_bounds(s@, pos as int + 1);
            assert(end > pos);
        }
        let r = lex_from(s, len, end, acc);
        proof {
            if let LexOut::Toks(ts) = spec_lex(s@, end as int) {
                assert(views(acc@) =~= views(mid) + (seq![tv] + ts));
            }
        }
        r
    } else if c == '=' {
        if pos + 1 < len && s.get_char(pos + 1) == '>' {
            let tok = Token { tag: Tag::Arrow, text: String::new(), pos };
            let ghost tv = TokenV { tag: Tag::Arrow, text: Seq::empty(), pos: pos as int };
            proof {
                assert(tok@ =~= tv);
            }
            let ghost mid = acc@;
            acc.push(tok);
            proof {
                assert(views(acc@) =~= views(mid) + seq![tv]);
            }
            let r = lex_from(s, len, pos + 2, acc);
            proof {
                if let LexOut::Toks(ts) = spec_lex(s@, pos + 2) {
                    assert(views(acc@) =~= views(mid) + (seq![tv] + ts));
                }
            }
            r
        } else {
            let d = Diag::bare(DiagKind::UnexpectedChar, pos);
            proof {
                assert(d@ =~= lex_fail_diag(pos as int));
            }
            Some(d)
        }
    } else {
        let tag_opt: Option<Tag> = if c == '{' {
            Some(Tag::LBrace)
        } else if c == '}' {
            Some(Tag::RBrace)
        } else if c == '[' {
            Some(Tag::LBracket)
        } else if c == ']' {
            Some(Tag::RBracket)
        } else if c == '(' {
            Some(Tag::LParen)
        } else if c == ')' {
            Some(Tag::RParen)
        } else if c == ',' {
            Some(Tag::Comma)
        } else {
            None
        };
        proof {
            assert(tag_opt == punct_tag(c));
        }
        match tag_opt {
            Some(tag) => {
                let tok = Token { tag, text: String::new(), pos };
                let ghost tv = TokenV { tag, text: Seq::empty(), pos: pos as int };
                proof {
                    assert(tok@ =~= tv);
                }
                let ghost mid = acc@;
                acc.push(tok);
                proof {
                    assert(views(acc@) =~= views(mid) + seq![tv]);
                }
                let r = lex_from(s, len, pos + 1, acc);
                proof {
                    if let LexOut::Toks(ts) = spec_lex(s@, pos + 1) {
                        assert(views(acc@) =~= views(mid) + (seq![tv] + ts));
                    }
                }
                r
            },
            None => {
                let d = Diag::bare(DiagKind::UnexpectedChar, pos);
                proof {
                    assert(d@ =~= lex_fail_diag(pos as int));
                }
                Some(d)
            },
        }
    }
}

/// Tokenize a machine definition.  The result is exactly what `spec_lex`
/// states: the token list where every character belongs to a token or to
/// whitespace, or a diagnostic at the first character outside the alphabet.
pub fn lex(s: &str) -> (r: Result<Vec<Token>, Diag>)
    ensures
        match spec_lex(s@, 0) {
            LexOut::Toks(ts) => (r matches Ok(v) && views(v@) == ts),
            LexOut::Fail(p) => (r matches Err(d) && d@ == lex_fail_diag(p)),
        },
{
    let len = s.unicode_len();
    let mut acc: Vec<Token> = Vec::new();
    let ghost empty_acc = acc@;
    match lex_from(s, len, 0, &mut acc) {
        None => {
            proof {
                if let LexOut::Toks(ts) = spec_lex(s@, 0) {
                    assert(views(empty_acc) =~= Seq::<TokenV>::empty());
                    assert(views(acc@) =~= ts);
                }
            }
            Ok(acc)
        },
        Some(d) => Err(d),
    }
}

} // verus!
