//! The tokens that the lexer hands to the evaluator.

use vstd::prelude::*;
use crate::operator::BinaryOperator;

verus! {

/// The kind of an opening bracket.
#[derive(Clone, Copy, PartialEq, Eq, Debug, Structural)]
pub enum LParen {
    Round,
    Square,
    Curly,
}

/// The kind of a closing bracket.
#[derive(Clone, Copy, PartialEq, Eq, Debug, Structural)]
pub enum RParen {
    Round,
    Square,
    Curly,
}

/// The kind of quote that delimits a text literal.
#[derive(Clone, Copy, PartialEq, Eq, Debug, Structural)]
pub enum Quote {
    Single,
    Double,
    Grave,
}

/// The kind of an assignment.
#[derive(Clone, Copy, PartialEq, Eq, Debug, Structural)]
pub enum Assignments {
    Assign,
}

impl LParen {
    /// The bracket kind that `c` opens, if it opens one.
    pub open spec fn spec_from_char(c: char) -> Option<LParen> {
        if c == '(' {
            Some(LParen::Round)
        } else if c == '[' {
            Some(LParen::Square)
        } else if c == '{' {
            Some(LParen::Curly)
        } else {
            None
        }
    }

    /// The closing kind that matches this opening kind.
    pub open spec fn spec_get_rparen(self) -> RParen {
        match self {
            LParen::Round => RParen::Round,
            LParen::Square => RParen::Square,
            LParen::Curly => RParen::Curly,
        }
    }

    /// The bracket kind that `c` opens, if it opens one.
    pub fn from_char(c: char) -> (r: Option<LParen>)
        ensures
            r == Self::spec_from_char(c),
    {
        if c == '(' {
            Some(LParen::Round)
        } else if c == '[' {
            Some(LParen::Square)
        } else if c == '{' {
            Some(LParen::Curly)
        } else {
            None
        }
    }

    /// The closing kind that matches this opening kind.
    pub fn get_rparen(self) -> (r: RParen)
        ensures
            r == self.spec_get_rparen(),
    {
        match self {
            LParen::Round => RParen::Round,
            LParen::Square => RParen::Square,
            LParen::Curly => RParen::Curly,
        }
    }
}

impl RParen {
    /// The bracket kind that `c` closes, if it closes one.
    pub open spec fn spec_from_char(c: char) -> Option<RParen> {
        if c == ')' {
            Some(RParen::Round)
        } else if c == ']' {
            Some(RParen::Square)
        } else if c == '}' {
            Some(RParen::Curly)
        } else {
            None
        }
    }

    /// The bracket kind that `c` closes, if it closes one.
    pub fn from_char(c: char) -> (r: Option<RParen>)
        ensures
            r == Self::spec_from_char(c),
    {
        if c == ')' {
            Some(RParen::Round)
        } else if c == ']' {
            Some(RParen::Square)
        } else if c == '}' {
            Some(RParen::Curly)
        } else {
            None
        }
    }
}

impl Quote {
    /// The quote kind that `c` writes, if it writes one.
    pub open spec fn spec_from_char(c: char) -> Option<Quote> {
        if c == '\'' {
            Some(Quote::Single)
        } else if c == '"' {
            Some(Quote::Double)
        } else if c == '`' {
            Some(Quote::Grave)
        } else {
            None
        }
    }

    /// The character that writes this kind of quote.
    pub open spec fn spec_to_char(self) -> char {
        match self {
            Quote::Single => '\'',
            Quote::Double => '"',
            Quote::Grave => '`',
        }
    }

    /// The quote kind that `c` writes, if it writes one.
    pub fn from_char(c: char) -> (r: Option<Quote>)
        ensures
            r == Self::spec_from_char(c),
    {
        if c == '\'' {
            Some(Quote::Single)
        } else if c == '"' {
            Some(Quote::Double)
        } else if c == '`' {
            Some(Quote::Grave)
        } else {
            None
        }
    }

    /// The character that writes this kind of quote.
    pub fn to_char(self) -> (c: char)
        ensures
            c == self.spec_to_char(),
    {
        match self {
            Quote::Single => '\'',
            Quote::Double => '"',
            Quote::Grave => '`',
        }
    }
}

impl Assignments {
    /// The assignment kind that `c` writes, if it writes one.
    pub open spec fn spec_from_char(c: char) -> Option<Assignments> {
        if c == '=' {
            Some(Assignments::Assign)
        } else {
            None
        }
    }

    /// The assignment kind that `c` writes, if it writes one.
    pub fn from_char(c: char) -> (r: Option<Assignments>)
        ensures
            r == Self::spec_from_char(c),
    {
        if c == '=' {
            Some(Assignments::Assign)
        } else {
            None
        }
    }
}

/// The minimal syntactic unit.
#[derive(Debug, PartialEq)]
pub enum Token {
    /// A bare name.
    Identifier(String),
    /// A dotted name.
    Path(String),
    /// The raw text of a number literal, read only when it is evaluated.
    Number(String),
    /// The quote kind and the decoded body of a text literal.
    Text(Quote, String),
    /// A registered operator.
    Operator(BinaryOperator),
    /// An assignment sign.
    Assignment(Assignments),
    /// The end of a statement.
    LineTerminator,
    /// The reserved separator.
    Separator,
    /// A bracketed group: its bracket kinds and its statements in order.
    Block((LParen, RParen), Vec<Vec<Token>>),
    /// A closing bracket that no block has taken.
    RParen(RParen),
    /// A character that starts no token.
    Unknown(char),
}

/// The mathematical value a `Token` stands for.
pub enum TokenView {
    Identifier(Seq<char>),
    Path(Seq<char>),
    Number(Seq<char>),
    Text(Quote, Seq<char>),
    Operator(BinaryOperator),
    Assignment(Assignments),
    LineTerminator,
    Separator,
    Block((LParen, RParen), Seq<Seq<TokenView>>),
    RParen(RParen),
    Unknown(char),
}

/// The value that `t` stands for.
pub open spec fn token_view(t: Token) -> TokenView
    decreases t,
{
    match t {
        Token::Identifier(name) => TokenView::Identifier(name@),
        Token::Path(path) => TokenView::Path(path@),
        Token::Number(raw) => TokenView::Number(raw@),
        Token::Text(quote, body) => TokenView::Text(quote, body@),
        Token::Operator(oper) => TokenView::Operator(oper),
        Token::Assignment(kind) => TokenView::Assignment(kind),
        Token::LineTerminator => TokenView::LineTerminator,
        Token::Separator => TokenView::Separator,
        Token::Block(kinds, body) => TokenView::Block(kinds, groups_view(body@)),
        Token::RParen(kind) => TokenView::RParen(kind),
        Token::Unknown(c) => TokenView::Unknown(c),
    }
}

/// The values that the tokens of `s` stand for, in order.
pub open spec fn tokens_view(s: Seq<Token>) -> Seq<TokenView>
    decreases s,
{
    Seq::new(
        s.len(),
        |i: int|
            if 0 <= i < s.len() {
                token_view(s[i])
            } else {
                TokenView::Separator
            },
    )
}

/// The values that the statements of `s` stand for, in order.
pub open spec fn groups_view(s: Seq<Vec<Token>>) -> Seq<Seq<TokenView>>
    decreases s,
{
    Seq::new(
        s.len(),
        |i: int|
            if 0 <= i < s.len() {
                tokens_view(s[i]@)
            } else {
                Seq::empty()
            },
    )
}

impl View for Token {
    type V = TokenView;

    open spec fn view(&self) -> TokenView {
        token_view(*self)
    }
}

/// Adding a token to a statement adds its view to the statement's view.
pub proof fn lemma_tokens_view_push(s: Seq<Token>, t: Token)
    ensures
        tokens_view(s.push(t)) == tokens_view(s).push(t@),
{
    assert(tokens_view(s.push(t)) =~= tokens_view(s).push(t@));
}

/// Adding a statement to a block adds its view to the block's view.
pub proof fn lemma_groups_view_push(s: Seq<Vec<Token>>, g: Vec<Token>)
    ensures
        groups_view(s.push(g)) == groups_view(s).push(tokens_view(g@)),
{
    assert(groups_view(s.push(g)) =~= groups_view(s).push(tokens_view(g@)));
}

} // verus!
