//! The lexer of conse script: it cuts a text into the tokens the parser reads.
use vstd::prelude::*;
use crate::conse_token::{Token, TokenList, Token_Type};
use crate::text::{spec_is_whitespace, is_whitespace, str_chars, str_equal, string_from_chars};

verus! {

/// A token as the contracts speak of it: its kind and its text.
pub open spec fn token_view(t: Token) -> (Token_Type, Seq<char>) {
    (t.token_type, t.text@)
}

/// Whether a character is an ASCII decimal digit.
pub open spec fn is_digit_char(c: char) -> bool {
    '0' <= c && c <= '9'
}

/// Whether a character starts a name: an ASCII letter or `_`.
pub open spec fn starts_name(c: char) -> bool {
    ('a' <= c && c <= 'z') || ('A' <= c && c <= 'Z') || c == '_'
}

/// Whether a character continues a name: an ASCII letter, a digit or `_`.
pub open spec fn in_name(c: char) -> bool {
    starts_name(c) || is_digit_char(c)
}

/// The end of the run of digits of `s` from `i`.
pub open spec fn digits_end(s: Seq<char>, i: int) -> int
    decreases s.len() - i,
{
    if i < 0 || i >= s.len() || !is_digit_char(s[i]) { i } else { digits_end(s, i + 1) }
}

/// The end of the name of `s` from `i`.
pub open spec fn name_end(s: Seq<char>, i: int) -> int
    decreases s.len() - i,
{
    if i < 0 || i >= s.len() || !in_name(s[i]) { i } else { name_end(s, i + 1) }
}

/// The position of the first `"` of `s` from `i`, or the end of `s`.
pub open spec fn quote_end(s: Seq<char>, i: int) -> int
    decreases s.len() - i,
{
    if i < 0 || i >= s.len() || s[i] == '"' { i } else { quote_end(s, i + 1) }
}

/// The kind of token a name is: a keyword, a type, `fn`, or an identifier.
pub open spec fn name_kind(w: Seq<char>) -> Token_Type {
    if w == "fn"@ {
        Token_Type::Function
    } else if w == "i32"@ {
        Token_Type::i32
    } else if w == "i64"@ {
        Token_Type::i64
    } else if w == "f32"@ {
        Token_Type::F32
    } else if w == "f64"@ {
        Token_Type::F64
    } else if w == "bool"@ {
        Token_Type::bool
    } else if w == "string"@ {
        Token_Type::string
    } else if w == "let"@ || w == "if"@ || w == "else"@ {
        Token_Type::KeyWord
    } else {
        Token_Type::Identifier
    }
}

/// The operator that starts at `i` of `s`: its kind and its length, the
/// two-character operators `->`, `==`, `!=`, `>=`, `<=` first; `None` for a
/// character that starts no token.
pub open spec fn operator_at(s: Seq<char>, i: int) -> Option<(Token_Type, int)> {
    let c = s[i];
    let next = if i + 1 < s.len() { s[i + 1] } else { ' ' };
    if c == '-' && next == '>' {
        Some((Token_Type::FuncationReturn, 2))
    } else if c == '=' && next == '=' {
        Some((Token_Type::EQ, 2))
    } else if c == '!' && next == '=' {
        Some((Token_Type::NOTEQ, 2))
    } else if c == '>' && next == '=' {
        Some((Token_Type::GE, 2))
    } else if c == '<' && next == '=' {
        Some((Token_Type::LE, 2))
    } else if c == '>' {
        Some((Token_Type::GT, 1))
    } else if c == '<' {
        Some((Token_Type::LT, 1))
    } else if c == '=' {
        Some((Token_Type::Assignment, 1))
    } else if c == ';' {
        Some((Token_Type::SemiColon, 1))
    } else if c == ',' {
        Some((Token_Type::Comma, 1))
    } else if c == '+' {
        Some((Token_Type::Plus, 1))
    } else if c == '-' {
        Some((Token_Type::Minus, 1))
    } else if c == '*' {
        Some((Token_Type::Star, 1))
    } else if c == '/' {
        Some((Token_Type::Slash, 1))
    } else if c == '(' {
        Some((Token_Type::LeftParen, 1))
    } else if c == ')' {
        Some((Token_Type::RightParen, 1))
    } else if c == '{' {
        Some((Token_Type::LeftBrace, 1))
    } else if c == '}' {
        Some((Token_Type::RightBrace, 1))
    } else {
        None
    }
}

/// One step of the lexer at `i`: the token that starts there, if any, and
/// where the next one starts. A line feed is a token, other white space
/// separates; digits make an integer literal, a name a keyword, type or
/// identifier, text between double quotes a string literal (to the end of
/// the text if the closing quote is missing), and operators their kind. A
/// character that starts no token gives no step forward.
pub open spec fn lex_step(s: Seq<char>, i: int) -> (Option<(Token_Type, Seq<char>)>, int) {
    let c = s[i];
    if c == '\n' {
        (Some((Token_Type::Enter, seq!['\n'])), i + 1)
    } else if spec_is_whitespace(c) {
        (None, i + 1)
    } else if is_digit_char(c) {
        let e = digits_end(s, i);
        (Some((Token_Type::IntLiteral, s.subrange(i, e))), e)
    } else if starts_name(c) {
        let e = name_end(s, i);
        (Some((name_kind(s.subrange(i, e)), s.subrange(i, e))), e)
    } else if c == '"' {
        let e = quote_end(s, i + 1);
        (Some((Token_Type::StringLiteral, s.subrange(i + 1, e))), if e < s.len() { e + 1 } else { e })
    } else {
        match operator_at(s, i) {
            Some((t, n)) => (Some((t, s.subrange(i, i + n))), i + n),
            None => (None, i),
        }
    }
}

/// The tokens of `s` from `i` on, step by step (see `lex_step`); `None`
/// where a character starts no token.
pub open spec fn spec_lex_from(s: Seq<char>, i: int) -> Option<Seq<(Token_Type, Seq<char>)>>
    decreases s.len() - i,
{
    if i < 0 || i >= s.len() {
        Some(Seq::empty())
    } else {
        let (token, next) = lex_step(s, i);
        if next <= i || next > s.len() {
            None
        } else {
            match spec_lex_from(s, next) {
                None => None,
                Some(rest) => match token {
                    Some(t) => Some(seq![t] + rest),
                    None => Some(rest),
                },
            }
        }
    }
}

/// The tokens of a text.
pub open spec fn spec_lex(s: Seq<char>) -> Option<Seq<(Token_Type, Seq<char>)>> {
    spec_lex_from(s, 0)
}

/// Tokens found so far, followed by what the rest of the text gives.
pub open spec fn then_lexed(done: Seq<(Token_Type, Seq<char>)>, rest: Option<Seq<(Token_Type, Seq<char>)>>) -> Option<Seq<(Token_Type, Seq<char>)>> {
    match rest {
        Some(r) => Some(done + r),
        None => None,
    }
}

/// The runs of digits, name characters and quoted text end within the text.
pub proof fn lemma_ends(s: Seq<char>, i: int)
    requires
        0 <= i <= s.len(),
    ensures
        i <= digits_end(s, i) <= s.len(),
        i < s.len() && is_digit_char(s[i]) ==> digits_end(s, i) > i,
        i <= name_end(s, i) <= s.len(),
        i < s.len() && in_name(s[i]) ==> name_end(s, i) > i,
        i <= quote_end(s, i) <= s.len(),
    decreases s.len() - i,
{
    if i < s.len() {
        lemma_ends(s, i + 1);
    }
}

fn is_digit(c: char) -> (r: bool)
    ensures
        r == is_digit_char(c),
{
    '0' <= c && c <= '9'
}

fn is_name_start(c: char) -> (r: bool)
    ensures
        r == starts_name(c),
{
    ('a' <= c && c <= 'z') || ('A' <= c && c <= 'Z') || c == '_'
}

fn is_name_char(c: char) -> (r: bool)
    ensures
        r == in_name(c),
{
    is_name_start(c) || is_digit(c)
}

/// The kind of token a name is (see `name_kind`).
fn kind_of_name(w: &str) -> (t: Token_Type)
    ensures
        t == name_kind(w@),
{
    if str_equal(w, "fn") {
        Token_Type::Function
    } else if str_equal(w, "i32") {
        Token_Type::i32
    } else if str_equal(w, "i64") {
        Token_Type::i64
    } else if str_equal(w, "f32") {
        Token_Type::F32
    } else if str_equal(w, "f64") {
        Token_Type::F64
    } else if str_equal(w, "bool") {
        Token_Type::bool
    } else if str_equal(w, "string") {
        Token_Type::string
    } else if str_equal(w, "let") || str_equal(w, "if") || str_equal(w, "else") {
        Token_Type::KeyWord
    } else {
        Token_Type::Identifier
    }
}

/// The operator at `i` (see `operator_at`).
fn operator(v: &Vec<char>, i: usize) -> (r: Option<(Token_Type, usize)>)
    requires
        i < v.len(),
    ensures
        match operator_at(v@, i as int) {
            Some((t, n)) => r == Some((t, n as usize)),
            None => r is None,
        },
{
    let c = v[i];
    let next = if i + 1 < v.len() { v[i + 1] } else { ' ' };
    if c == '-' && next == '>' {
        Some((Token_Type::FuncationReturn, 2))
    } else if c == '=' && next == '=' {
        Some((Token_Type::EQ, 2))
    } else if c == '!' && next == '=' {
        Some((Token_Type::NOTEQ, 2))
    } else if c == '>' && next == '=' {
        Some((Token_Type::GE, 2))
    } else if c == '<' && next == '=' {
        Some((Token_Type::LE, 2))
    } else if c == '>' {
        Some((Token_Type::GT, 1))
    } else if c == '<' {
        Some((Token_Type::LT, 1))
    } else if c == '=' {
        Some((Token_Type::Assignment, 1))
    } else if c == ';' {
        Some((Token_Type::SemiColon, 1))
    } else if c == ',' {
        Some((Token_Type::Comma, 1))
    } else if c == '+' {
        Some((Token_Type::Plus, 1))
    } else if c == '-' {
        Some((Token_Type::Minus, 1))
    } else if c == '*' {
        Some((Token_Type::Star, 1))
    } else if c == '/' {
        Some((Token_Type::Slash, 1))
    } else if c == '(' {
        Some((Token_Type::LeftParen, 1))
    } else if c == ')' {
        Some((Token_Type::RightParen, 1))
    } else if c == '{' {
        Some((Token_Type::LeftBrace, 1))
    } else if c == '}' {
        Some((Token_Type::RightBrace, 1))
    } else {
        None
    }
}

/// Cuts a text into tokens (see `spec_lex`); `None` where a character
/// starts no token.
pub fn lexerParse(code: &str) -> (r: Option<TokenList>)
    ensures
        match spec_lex(code@) {
            Some(ts) => r matches Some(list) && list.wf() && list@.position == 0
                && list@.tokens.map_values(|t: Token| token_view(t)) == ts,
            None => r is None,
        },
{
    let v = str_chars(code);
    let n = v.len();
    let mut tokens: Vec<Token> = Vec::new();
    let mut i: usize = 0;
    while i < n
        invariant
            n == v@.len(),
            v@ == code@,
            i <= n,
            spec_lex(v@) == then_lexed(tokens@.map_values(|t: Token| token_view(t)), spec_lex_from(v@, i as int)),
        decreases n - i,
    {
        let ghost done = tokens@.map_values(|t: Token| token_view(t));
        let ghost s = v@;
        proof { lemma_ends(s, i as int); }
        let ghost step = lex_step(s, i as int);
        let c = v[i];
        let mut token: Option<Token> = None;
        let next: usize;
        if c == '\n' {
            token = Some(Token::new(Token_Type::Enter, "\n"));
            proof { reveal_strlit("\n"); }
            next = i + 1;
        } else if is_whitespace(c) {
            next = i + 1;
        } else if is_digit(c) {
            let mut e = i;
            while e < n && is_digit(v[e])
                invariant
                    i <= e <= n,
                    n == v@.len(),
                    digits_end(v@, i as int) == digits_end(v@, e as int),
                decreases n - e,
            {
                e += 1;
            }
            let text = string_from_chars(&v, i, e);
            token = Some(Token::new(Token_Type::IntLiteral, text.as_str()));
            next = e;
        } else if is_name_start(c) {
            let mut e = i;
            while e < n && is_name_char(v[e])
                invariant
                    i <= e <= n,
                    n == v@.len(),
                    name_end(v@, i as int) == name_end(v@, e as int),
                decreases n - e,
            {
                e += 1;
            }
            let text = string_from_chars(&v, i, e);
            token = Some(Token::new(kind_of_name(text.as_str()), text.as_str()));
            next = e;
        } else if c == '"' {
            let mut e = i + 1;
            while e < n && v[e] != '"'
                invariant
                    i + 1 <= e <= n,
                    n == v@.len(),
                    quote_end(v@, i + 1) == quote_end(v@, e as int),
                decreases n - e,
            {
                e += 1;
            }
            proof { lemma_ends(s, i + 1); }
            let text = string_from_chars(&v, i + 1, e);
            token = Some(Token::new(Token_Type::StringLiteral, text.as_str()));
            next = if e < n { e + 1 } else { e };
        } else {
            match operator(&v, i) {
                Some((t, len)) => {
                    let text = string_from_chars(&v, i, i + len);
                    token = Some(Token::new(t, text.as_str()));
                    next = i + len;
                },
                None => {
                    return None;
                },
            }
        }
        assert(step.1 == next as int);
        assert(match token {
            Some(t) => step.0 == Some(token_view(t)),
            None => step.0 is None,
        });
        match token {
            Some(t) => {
                tokens.push(t);
                proof {
                    assert(tokens@.map_values(|t: Token| token_view(t)) =~= done.push(token_view(t)));
                    match spec_lex_from(s, next as int) {
                        Some(rest) => {
                            assert(done.push(token_view(t)) + rest =~= done + (seq![token_view(t)] + rest));
                        },
                        None => {},
                    }
                }
            },
            None => {},
        }
        i = next;
    }
    proof {
        assert(tokens@.map_values(|t: Token| token_view(t)) + Seq::<(Token_Type, Seq<char>)>::empty()
            =~= tokens@.map_values(|t: Token| token_view(t)));
    }
    Some(TokenList::new(tokens))
}

} // verus!

verus! {

/// Whether a token kind is one of the type kinds.
pub open spec fn is_type_kind(t: Token_Type) -> bool {
    t == Token_Type::i32 || t == Token_Type::i64 || t == Token_Type::F32 || t == Token_Type::F64
        || t == Token_Type::bool || t == Token_Type::string
}

/// The type node names the type token it reads: for a type token whose
/// kind is the one the lexer gives its text (so its text is `i32`, `i64`,
/// `f32`, `f64`, `bool` or `string`), typeType builds a TypeType leaf whose
/// value is that text, and moves past the token.
pub proof fn law_type_node_names_its_token(ts: Seq<Token>, p: int)
    requires
        0 <= p < ts.len(),
        is_type_kind(ts[p].token_type),
        name_kind(ts[p].text@) == ts[p].token_type,
    ensures
        crate::consesyntax::spec_type_type(ts, p) == (crate::consesyntax::Parse_Result::Matched {
            node: crate::consesyntax::leaf(crate::consesyntax::AST_Node_Type::TypeType, ts[p].text@),
            pos: p + 1,
        }),
{
}

/// Every token of a type kind that the lexer makes has the kind the lexer
/// gives its text: the lexer reads type names only as names.
pub proof fn law_lexed_type_tokens_name_their_kind(s: Seq<char>, i: int)
    requires
        0 <= i,
    ensures
        spec_lex_from(s, i) matches Some(toks) ==> forall|j: int| 0 <= j < toks.len() && is_type_kind(#[trigger] toks[j].0)
            ==> name_kind(toks[j].1) == toks[j].0,
    decreases s.len() - i,
{
    if 0 <= i < s.len() {
        let (token, next) = lex_step(s, i);
        if next > i && next <= s.len() {
            law_lexed_type_tokens_name_their_kind(s, next);
            if let Some(toks) = spec_lex_from(s, i) {
                let rest = spec_lex_from(s, next).unwrap();
                assert forall|j: int| 0 <= j < toks.len() && is_type_kind(#[trigger] toks[j].0)
                    implies name_kind(toks[j].1) == toks[j].0 by {
                    match token {
                        Some(t) => {
                            if j == 0 {
                                assert(toks[0] == t);
                            } else {
                                assert(toks[j] == rest[j - 1]);
                            }
                        },
                        None => {
                            assert(toks[j] == rest[j]);
                        },
                    }
                }
            }
        }
    }
}

} // verus!
