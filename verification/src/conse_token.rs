//! Tokens of the conse script language and the cursor over them that the
//! parser moves.
use vstd::prelude::*;

verus! {

/// The kinds of token that the parser tells apart.
#[derive(PartialEq, Eq, Structural, Clone, Copy, Debug)]
pub enum Token_Type {
    Function,
    FuncationReturn,
    LeftParen,
    RightParen,
    LeftBrace,
    RightBrace,
    i32,
    i64,
    F32,
    F64,
    bool,
    string,
    KeyWord,
    Identifier,
    IntLiteral,
    StringLiteral,
    Assignment,
    SemiColon,
    Comma,
    Enter,
    Plus,
    Minus,
    Star,
    Slash,
    EQ,
    NOTEQ,
    GT,
    GE,
    LT,
    LE,
}

/// A token: its kind and its text.
pub struct Token {
    pub token_type: Token_Type,
    pub text: String,
}

impl Clone for Token {
    fn clone(&self) -> (r: Self)
        ensures
            r == *self,
    {
        Token { token_type: self.token_type, text: self.text.clone() }
    }
}

impl Token {
    pub fn new(token_type: Token_Type, text: &str) -> (t: Token)
        ensures
            t.token_type == token_type,
            t.text@ == text@,
    {
        Token { token_type, text: text.to_string() }
    }

    pub fn get_type(&self) -> (t: Token_Type)
        ensures
            t == self.token_type,
    {
        self.token_type
    }

    pub fn get_text(&self) -> (t: &str)
        ensures
            t@ == self.text@,
    {
        self.text.as_str()
    }

    /// The token as text: its text.
    pub fn to_string(&self) -> (t: String)
        ensures
            t@ == self.text@,
    {
        self.text.clone()
    }
}

/// A list of tokens with a cursor.
pub struct TokenList {
    tokens: Vec<Token>,
    position: usize,
}

/// A token list as the contracts speak of it.
pub struct TokenListView {
    pub tokens: Seq<Token>,
    pub position: int,
}

impl View for TokenList {
    type V = TokenListView;

    closed spec fn view(&self) -> TokenListView {
        TokenListView { tokens: self.tokens@, position: self.position as int }
    }
}

impl TokenList {
    /// The well-formedness of a list: the cursor lies within the tokens or
    /// just after them.
    pub open spec fn wf(&self) -> bool {
        0 <= self@.position <= self@.tokens.len()
    }

    /// A list over `tokens` with the cursor at the first.
    pub fn new(tokens: Vec<Token>) -> (list: TokenList)
        ensures
            list@.tokens == tokens@,
            list@.position == 0,
            list.wf(),
    {
        TokenList { tokens, position: 0 }
    }

    pub fn len(&self) -> (n: usize)
        ensures
            n == self@.tokens.len(),
    {
        self.tokens.len()
    }

    pub fn getPosition(&self) -> (p: usize)
        ensures
            p == self@.position,
    {
        self.position
    }

    pub fn setPosition(&mut self, position: usize)
        requires
            position <= old(self)@.tokens.len(),
        ensures
            final(self)@ == (TokenListView { position: position as int, ..old(self)@ }),
            final(self).wf(),
    {
        self.position = position;
    }

    /// The token under the cursor, which stays.
    pub fn preRead(&self) -> (t: Option<Token>)
        requires
            self.wf(),
        ensures
            self@.position < self@.tokens.len() ==> t == Some(self@.tokens[self@.position]),
            self@.position >= self@.tokens.len() ==> t is None,
    {
        if self.position < self.tokens.len() {
            Some(self.tokens[self.position].clone())
        } else {
            None
        }
    }

    /// The token under the cursor, which moves past it; at the end, nothing.
    pub fn next(&mut self) -> (t: Option<Token>)
        requires
            old(self).wf(),
        ensures
            final(self).wf(),
            final(self)@.tokens == old(self)@.tokens,
            old(self)@.position < old(self)@.tokens.len() ==> t == Some(old(self)@.tokens[old(self)@.position])
                && final(self)@.position == old(self)@.position + 1,
            old(self)@.position >= old(self)@.tokens.len() ==> t is None && final(self)@ == old(self)@,
    {
        if self.position < self.tokens.len() {
            let t = self.tokens[self.position].clone();
            self.position += 1;
            Some(t)
        } else {
            None
        }
    }
}

} // verus!
