//! The lexer: a cursor over the characters of a source text that hands out
//! one token after the other.

use vstd::prelude::*;
use crate::chars::is_alpha;
use crate::chars::is_assignment;
use crate::chars::is_block_end;
use crate::chars::is_block_start;
use crate::chars::is_comment;
use crate::chars::is_name_char;
use crate::chars::is_numeric;
use crate::chars::is_path_separator;
use crate::chars::is_quote;
use crate::chars::is_separator;
use crate::chars::is_symbol;
use crate::chars::is_terminator;
use crate::chars::is_whitespace;
use crate::error::Fatal;
use crate::error::FatalView;
use crate::grammar::CharClass;
use crate::grammar::Lexed;
use crate::grammar::Step;
use crate::grammar::in_class;
use crate::grammar::lemma_next_advances;
use crate::grammar::lemma_run_end;
use crate::grammar::run_end;
use crate::grammar::spec_block;
use crate::grammar::spec_block_body;
use crate::grammar::spec_identifier;
use crate::grammar::spec_next;
use crate::grammar::spec_number;
use crate::grammar::spec_oper;
use crate::grammar::spec_text;
use crate::grammar::spec_statement;
use crate::grammar::spec_text_body;
use crate::grammar::token_of;
use crate::grammar::unescape;
use crate::operator::BinaryOperator;
use crate::text::chars_of;
use crate::token::Assignments;
use crate::token::LParen;
use crate::token::Quote;
use crate::token::RParen;
use crate::token::Token;
use crate::token::TokenView;
use crate::token::groups_view;
use crate::token::lemma_groups_view_push;
use crate::token::lemma_tokens_view_push;
use crate::token::tokens_view;

verus! {

/// A source text and the position up to which it has been read.
pub struct Stream {
    source: Vec<char>,
    pos: usize,
}

/// What a call that reads one token reports, stated as the lexer's grammar
/// states it: the token's view and the position that the stream is left at.
pub open spec fn lexed_of(r: Result<Option<Token>, Fatal>, pos: int) -> Lexed {
    match r {
        Ok(Some(token)) => Ok(Some((token@, pos))),
        Ok(None) => Ok(None),
        Err(e) => Err(e@),
    }
}

/// What a call that reads a token of a known kind reports.
pub open spec fn step_of(r: Result<Token, Fatal>, pos: int) -> Step {
    match r {
        Ok(token) => Ok((token@, pos)),
        Err(e) => Err(e@),
    }
}

/// The character that an escape stands for, if the escape is known.
pub fn unescape_char(c: char) -> (r: Option<char>)
    ensures
        r == unescape(c),
{
    if c == '\'' || c == '"' || c == '`' {
        Some(c)
    } else if c == 'n' {
        Some('\n')
    } else if c == 't' {
        Some('\t')
    } else if c == 'r' {
        Some('\r')
    } else {
        None
    }
}

impl Stream {
    /// The position lies within the source.
    #[verifier::type_invariant]
    spec fn within(self) -> bool {
        self.pos <= self.source@.len()
    }

    /// The characters of the source.
    pub closed spec fn text(&self) -> Seq<char> {
        self.source@
    }

    /// The number of characters that have been read.
    pub closed spec fn position(&self) -> int {
        self.pos as int
    }

    /// A stream at the start of `inp`.
    pub fn new(inp: &str) -> (stream: Stream)
        ensures
            stream.text() == inp@,
            stream.position() == 0,
    {
        Stream { source: chars_of(inp), pos: 0 }
    }

    /// The number of characters that have been read; it never exceeds the
    /// length of the source.
    pub fn offset(&self) -> (n: usize)
        ensures
            n == self.position(),
            n <= self.text().len(),
    {
        proof {
            use_type_invariant(self);
        }
        self.pos
    }

    /// Whether every character has been read.
    pub fn is_empty(&mut self) -> (b: bool)
        ensures
            b == (old(self).position() == old(self).text().len()),
            final(self).text() == old(self).text(),
            final(self).position() == old(self).position(),
    {
        proof {
            use_type_invariant(&*self);
        }
        self.pos >= self.source.len()
    }

    /// The character at position `i`.
    fn char_at(&self, i: usize) -> (c: char)
        requires
            i < self.text().len(),
        ensures
            c == self.text()[i as int],
    {
        self.source[i]
    }

    /// Whether a character of class `k` stands at the position.
    fn at_class(&self, k: CharClass) -> (b: bool)
        ensures
            b == (self.position() < self.text().len() && in_class(
                k,
                self.text()[self.position()],
            )),
            self.text().len() <= usize::MAX,
    {
        let len: usize = self.source.len();
        if self.pos >= len {
            return false;
        }
        let c = self.char_at(self.pos);
        match k {
            CharClass::Space => is_whitespace(c),
            CharClass::Comment => c != '\n',
            CharClass::Name => is_name_char(c),
            CharClass::Numeric => is_numeric(c),
            CharClass::Symbol => is_symbol(c),
        }
    }

    /// Skips the white space at the position.
    fn strip_whitespace(&mut self)
        ensures
            final(self).text() == old(self).text(),
            final(self).position() == run_end(
                old(self).text(),
                old(self).position(),
                CharClass::Space,
            ),
    {
        proof {
            use_type_invariant(&*self);
        }
        while self.at_class(CharClass::Space)
            invariant
                self.text() == old(self).text(),
                self.pos <= self.source@.len(),
                run_end(self.text(), self.position(), CharClass::Space) == run_end(
                    old(self).text(),
                    old(self).position(),
                    CharClass::Space,
                ),
            decreases self.source@.len() - self.pos,
        {
            self.pos += 1;
        }
    }

    /// The identifier or path that starts at the position.
    fn next_identifier(&mut self) -> (r: Result<Token, Fatal>)
        requires
            old(self).position() < old(self).text().len(),
            in_class(CharClass::Name, old(self).text()[old(self).position()]),
        ensures
            final(self).text() == old(self).text(),
            step_of(r, final(self).position()) == spec_identifier(
                old(self).text(),
                old(self).position(),
            ),
    {
        proof {
            use_type_invariant(&*self);
        }
        let start: usize = self.pos;
        let mut acc = String::new();
        let mut is_path = false;
        while self.at_class(CharClass::Name)
            invariant
                self.text() == old(self).text(),
                start == old(self).position(),
                start <= self.pos <= self.source@.len(),
                acc@ == self.text().subrange(start as int, self.pos as int),
                is_path == acc@.contains('.'),
                run_end(self.text(), self.position(), CharClass::Name) == run_end(
                    old(self).text(),
                    old(self).position(),
                    CharClass::Name,
                ),
            decreases self.source@.len() - self.pos,
        {
            let c = self.char_at(self.pos);
            let ghost before = acc@;
            if is_path_separator(c) {
                is_path = true;
            }
            acc.push(c);
            self.pos += 1;
            proof {
                assert(acc@ =~= self.text().subrange(start as int, self.pos as int));
                assert(acc@[before.len() as int] == c);
                if before.contains('.') {
                    let j = choose|j: int| 0 <= j < before.len() && before[j] == '.';
                    assert(acc@[j] == '.');
                }
                if acc@.contains('.') && c != '.' {
                    let j = choose|j: int| 0 <= j < acc@.len() && acc@[j] == '.';
                    assert(before[j] == '.');
                }
            }
        }
        if is_path {
            if self.char_at(self.pos - 1) == '.' {
                return Err(Fatal::BadPath { path: acc, pos: start });
            }
            Ok(Token::Path(acc))
        } else {
            Ok(Token::Identifier(acc))
        }
    }

    /// The number literal that starts at the position.
    fn next_number(&mut self) -> (r: Result<Token, Fatal>)
        ensures
            final(self).text() == old(self).text(),
            step_of(r, final(self).position()) == spec_number(
                old(self).text(),
                old(self).position(),
            ),
    {
        proof {
            use_type_invariant(&*self);
        }
        let start: usize = self.pos;
        let mut acc = String::new();
        while self.at_class(CharClass::Numeric)
            invariant
                self.text() == old(self).text(),
                start == old(self).position(),
                start <= self.pos <= self.source@.len(),
                acc@ == self.text().subrange(start as int, self.pos as int),
                run_end(self.text(), self.position(), CharClass::Numeric) == run_end(
                    old(self).text(),
                    old(self).position(),
                    CharClass::Numeric,
                ),
            decreases self.source@.len() - self.pos,
        {
            acc.push(self.char_at(self.pos));
            self.pos += 1;
            assert(acc@ =~= self.text().subrange(start as int, self.pos as int));
        }
        Ok(Token::Number(acc))
    }

    /// The operator that starts at the position.
    fn next_oper(&mut self) -> (r: Result<Token, Fatal>)
        ensures
            final(self).text() == old(self).text(),
            step_of(r, final(self).position()) == spec_oper(
                old(self).text(),
                old(self).position(),
            ),
    {
        proof {
            use_type_invariant(&*self);
        }
        let start: usize = self.pos;
        let mut acc = String::new();
        while self.at_class(CharClass::Symbol)
            invariant
                self.text() == old(self).text(),
                start == old(self).position(),
                start <= self.pos <= self.source@.len(),
                acc@ == self.text().subrange(start as int, self.pos as int),
                run_end(self.text(), self.position(), CharClass::Symbol) == run_end(
                    old(self).text(),
                    old(self).position(),
                    CharClass::Symbol,
                ),
            decreases self.source@.len() - self.pos,
        {
            acc.push(self.char_at(self.pos));
            self.pos += 1;
            assert(acc@ =~= self.text().subrange(start as int, self.pos as int));
        }
        match BinaryOperator::try_from(acc.as_str()) {
            Some(oper) => Ok(Token::Operator(oper)),
            None => Err(Fatal::UnknownOperator { sigil: acc, pos: start }),
        }
    }

    /// The text literal whose opening quote stands at the position.
    fn next_text(&mut self) -> (r: Result<Token, Fatal>)
        requires
            old(self).position() < old(self).text().len(),
            Quote::spec_from_char(old(self).text()[old(self).position()]) is Some,
        ensures
            final(self).text() == old(self).text(),
            step_of(r, final(self).position()) == spec_text(old(self).text(), old(self).position()),
    {
        proof {
            use_type_invariant(&*self);
        }
        let start: usize = self.pos;
        let quote = match Quote::from_char(self.char_at(start)) {
            Some(quote) => quote,
            None => {
                return Err(Fatal::UnterminatedText { quote: Quote::Grave, pos: start });
            },
        };
        let close = quote.to_char();
        let len: usize = self.source.len();
        self.pos = start + 1;
        let mut acc = String::new();
        loop
            invariant
                self.text() == old(self).text(),
                start == old(self).position(),
                start < self.pos <= self.source@.len(),
                close == quote.spec_to_char(),
                self.source@.len() <= usize::MAX,
                Quote::spec_from_char(old(self).text()[start as int]) == Some(quote),
                spec_text_body(self.text(), self.position(), quote, start as int, acc@)
                    == spec_text_body(
                    old(self).text(),
                    start as int + 1,
                    quote,
                    start as int,
                    Seq::empty(),
                ),
            decreases self.source@.len() - self.pos,
        {
            if self.pos >= self.source.len() {
                return Err(Fatal::UnterminatedText { quote, pos: start });
            }
            let c = self.char_at(self.pos);
            if c == '\\' {
                if self.pos + 1 >= self.source.len() {
                    return Err(Fatal::UnterminatedText { quote, pos: start });
                }
                let escaped = self.char_at(self.pos + 1);
                match unescape_char(escaped) {
                    Some(plain) => {
                        acc.push(plain);
                        self.pos += 2;
                    },
                    None => {
                        return Err(Fatal::UnknownEscape { ch: escaped, pos: self.pos + 1 });
                    },
                }
            } else if c == close {
                self.pos += 1;
                return Ok(Token::Text(quote, acc));
            } else {
                acc.push(c);
                self.pos += 1;
            }
        }
    }

    /// The block whose opening bracket stands at the position.
    fn next_expr_vec(&mut self) -> (r: Result<Token, Fatal>)
        requires
            old(self).position() < old(self).text().len(),
            LParen::spec_from_char(old(self).text()[old(self).position()]) is Some,
        ensures
            final(self).text() == old(self).text(),
            step_of(r, final(self).position()) == spec_block(old(self).text(), old(self).position()),
        decreases old(self).text().len() - old(self).position(), 0nat,
    {
        proof {
            use_type_invariant(&*self);
        }
        let start: usize = self.pos;
        let lparen = match LParen::from_char(self.char_at(start)) {
            Some(lparen) => lparen,
            None => {
                return Err(Fatal::UnterminatedBlock { open: LParen::Round, pos: start });
            },
        };
        let rparen = lparen.get_rparen();
        let len: usize = self.source.len();
        self.pos = start + 1;
        let mut ret: Vec<Vec<Token>> = Vec::new();
        let mut acc: Vec<Token> = Vec::new();
        assert(groups_view(ret@) =~= Seq::<Seq<TokenView>>::empty());
        assert(tokens_view(acc@) =~= Seq::<TokenView>::empty());
        loop
            invariant
                self.text() == old(self).text(),
                start == old(self).position(),
                start < self.pos <= self.source@.len(),
                rparen == lparen.spec_get_rparen(),
                LParen::spec_from_char(old(self).text()[start as int]) == Some(lparen),
                spec_block_body(
                    self.text(),
                    self.position(),
                    lparen,
                    start as int,
                    groups_view(ret@),
                    tokens_view(acc@),
                ) == spec_block(old(self).text(), old(self).position()),
            decreases self.source@.len() - self.pos,
        {
            let ghost before = self.position();
            proof {
                lemma_next_advances(self.text(), before);
            }
            match self.next() {
                Err(e) => {
                    return Err(e);
                },
                Ok(None) => {
                    return Err(Fatal::UnterminatedBlock { open: lparen, pos: start });
                },
                Ok(Some(token)) => {
                    proof {
                        use_type_invariant(&*self);
                    }
                    match token {
                        Token::RParen(found) => {
                            if found == rparen {
                                if acc.len() > 0 {
                                    proof {
                                        lemma_groups_view_push(ret@, acc);
                                    }
                                    ret.push(acc);
                                }
                                return Ok(Token::Block((lparen, rparen), ret));
                            } else {
                                return Err(
                                    Fatal::MismatchedBracket {
                                        open: lparen,
                                        found,
                                        pos: self.pos - 1,
                                    },
                                );
                            }
                        },
                        Token::LineTerminator => {
                            proof {
                                lemma_groups_view_push(ret@, acc);
                            }
                            ret.push(acc);
                            acc = Vec::new();
                            assert(tokens_view(acc@) =~= Seq::<TokenView>::empty());
                        },
                        other => {
                            proof {
                                lemma_tokens_view_push(acc@, other);
                            }
                            acc.push(other);
                        },
                    }
                },
            }
        }
    }

    /// Skips the comment that starts at the position, and reads the token
    /// after it.
    fn handle_comment(&mut self) -> (r: Result<Option<Token>, Fatal>)
        requires
            old(self).position() < old(self).text().len(),
        ensures
            final(self).text() == old(self).text(),
            lexed_of(r, final(self).position()) == spec_next(
                old(self).text(),
                run_end(old(self).text(), old(self).position() + 1, CharClass::Comment),
            ),
            r matches Ok(None) ==> final(self).position() == final(self).text().len(),
        decreases old(self).text().len() - old(self).position(), 0nat,
    {
        proof {
            use_type_invariant(&*self);
        }
        let len: usize = self.source.len();
        self.pos += 1;
        while self.at_class(CharClass::Comment)
            invariant
                self.text() == old(self).text(),
                old(self).position() < self.pos <= self.source@.len(),
                run_end(self.text(), self.position(), CharClass::Comment) == run_end(
                    old(self).text(),
                    old(self).position() + 1,
                    CharClass::Comment,
                ),
            decreases self.source@.len() - self.pos,
        {
            self.pos += 1;
        }
        self.next()
    }

    /// Reads the next token: white space and comments are skipped, and the
    /// first character after them decides the kind of token. At the end of
    /// the source there is none. On a fatal condition the stream stays
    /// where it was.
    pub fn next(&mut self) -> (r: Result<Option<Token>, Fatal>)
        ensures
            final(self).text() == old(self).text(),
            lexed_of(r, final(self).position()) == spec_next(old(self).text(), old(self).position()),
            r matches Ok(None) ==> final(self).position() == final(self).text().len(),
            r is Err ==> final(self).position() == old(self).position(),
            old(self).position() <= final(self).position() <= final(self).text().len(),
        decreases old(self).text().len() - old(self).position(), 1nat,
    {
        proof {
            use_type_invariant(&*self);
            lemma_run_end(self.text(), self.position(), CharClass::Space);
        }
        let start: usize = self.pos;
        let len: usize = self.source.len();
        self.strip_whitespace();
        proof {
            use_type_invariant(&*self);
        }
        if self.pos >= len {
            return Ok(None);
        }
        let p: usize = self.pos;
        let c = self.char_at(p);
        let r = if is_assignment(c) {
            self.pos = p + 1;
            Ok(Some(Token::Assignment(Assignments::Assign)))
        } else if is_terminator(c) {
            self.pos = p + 1;
            Ok(Some(Token::LineTerminator))
        } else if is_separator(c) {
            self.pos = p + 1;
            Ok(Some(Token::Separator))
        } else if is_comment(c) {
            proof {
                lemma_run_end(self.text(), p as int + 1, CharClass::Comment);
            }
            self.handle_comment()
        } else if is_alpha(c) {
            match self.next_identifier() {
                Ok(token) => Ok(Some(token)),
                Err(e) => Err(e),
            }
        } else if is_numeric(c) {
            match self.next_number() {
                Ok(token) => Ok(Some(token)),
                Err(e) => Err(e),
            }
        } else if is_quote(c) {
            match self.next_text() {
                Ok(token) => Ok(Some(token)),
                Err(e) => Err(e),
            }
        } else if is_block_start(c) {
            match self.next_expr_vec() {
                Ok(token) => Ok(Some(token)),
                Err(e) => Err(e),
            }
        } else if is_block_end(c) {
            self.pos = p + 1;
            match RParen::from_char(c) {
                Some(kind) => Ok(Some(Token::RParen(kind))),
                None => Ok(Some(Token::Unknown(c))),
            }
        } else if is_symbol(c) {
            match self.next_oper() {
                Ok(token) => Ok(Some(token)),
                Err(e) => Err(e),
            }
        } else {
            self.pos = p + 1;
            Ok(Some(Token::Unknown(c)))
        };
        proof {
            lemma_next_advances(old(self).text(), old(self).position());
        }
        if r.is_err() {
            self.pos = start;
        }
        r
    }

    /// The next token, which stays unread.
    pub fn peek(&self) -> (r: Result<Option<Token>, Fatal>)
        ensures
            token_of(spec_next(self.text(), self.position())) == (match r {
                Ok(Some(token)) => Ok::<Option<TokenView>, FatalView>(Some(token@)),
                Ok(None) => Ok(None),
                Err(e) => Err(e@),
            }),
    {
        proof {
            use_type_invariant(self);
        }
        let source = self.source.clone();
        assert(source@ =~= self.source@);
        let mut ahead = Stream { source, pos: self.pos };
        ahead.next()
    }

    /// Reads the next statement: the tokens up to and including the next
    /// statement terminator, or up to the end of the source. A character
    /// that starts no token is fatal. On a fatal condition the stream stays
    /// where it was.
    pub fn next_expr(&mut self) -> (r: Result<Vec<Token>, Fatal>)
        ensures
            final(self).text() == old(self).text(),
            old(self).position() <= final(self).position() <= final(self).text().len(),
            match r {
                Ok(tokens) => spec_statement(old(self).text(), old(self).position(), Seq::empty())
                    == Ok::<(Seq<TokenView>, int), FatalView>(
                    (tokens_view(tokens@), final(self).position()),
                ),
                Err(e) => spec_statement(old(self).text(), old(self).position(), Seq::empty())
                    == Err::<(Seq<TokenView>, int), FatalView>(e@) && final(self).position() == old(
                    self,
                ).position(),
            },
    {
        proof {
            use_type_invariant(&*self);
        }
        let start: usize = self.pos;
        let mut expr: Vec<Token> = Vec::new();
        assert(tokens_view(expr@) =~= Seq::<TokenView>::empty());
        loop
            invariant
                self.text() == old(self).text(),
                start == old(self).position(),
                start <= self.pos <= self.source@.len(),
                spec_statement(self.text(), self.position(), tokens_view(expr@)) == spec_statement(
                    old(self).text(),
                    old(self).position(),
                    Seq::empty(),
                ),
            decreases self.source@.len() - self.pos,
        {
            proof {
                lemma_next_advances(self.text(), self.position());
            }
            match self.next() {
                Err(e) => {
                    self.pos = start;
                    return Err(e);
                },
                Ok(None) => {
                    return Ok(expr);
                },
                Ok(Some(token)) => {
                    proof {
                        use_type_invariant(&*self);
                        lemma_tokens_view_push(expr@, token);
                    }
                    match token {
                        Token::LineTerminator => {
                            expr.push(Token::LineTerminator);
                            return Ok(expr);
                        },
                        Token::Unknown(ch) => {
                            let at: usize = self.pos - 1;
                            self.pos = start;
                            return Err(Fatal::UnknownCharacter { ch, pos: at });
                        },
                        other => {
                            expr.push(other);
                        },
                    }
                },
            }
        }
    }
}

} // verus!
