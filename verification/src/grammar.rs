//! What the lexer makes of a source text, stated on the text itself.
//!
//! A source is a sequence of characters and a position in it. Every function
//! here says which token starts at a position and where the next one starts.

use vstd::prelude::*;
use crate::chars::alpha;
use crate::chars::assignment;
use crate::chars::block_end;
use crate::chars::block_start;
use crate::chars::comment;
use crate::chars::comment_char;
use crate::chars::name_char;
use crate::chars::numeric;
use crate::chars::quote;
use crate::chars::separator;
use crate::chars::symbol;
use crate::chars::terminator;
use crate::chars::whitespace;
use crate::error::FatalView;
use crate::operator::spec_try_from;
use crate::token::Assignments;
use crate::token::LParen;
use crate::token::Quote;
use crate::token::RParen;
use crate::token::TokenView;

verus! {

/// The classes of characters of which the lexer takes maximal runs.
#[derive(Clone, Copy, PartialEq, Eq, Debug, Structural)]
pub enum CharClass {
    /// White space between tokens.
    Space,
    /// The body of a line comment.
    Comment,
    /// An identifier or a dotted path.
    Name,
    /// A number literal.
    Numeric,
    /// An operator sigil.
    Symbol,
}

/// `c` belongs to the class `k`.
pub open spec fn in_class(k: CharClass, c: char) -> bool {
    match k {
        CharClass::Space => whitespace(c),
        CharClass::Comment => comment_char(c),
        CharClass::Name => name_char(c),
        CharClass::Numeric => numeric(c),
        CharClass::Symbol => symbol(c),
    }
}

/// Where the maximal run of characters of class `k` that starts at `pos`
/// ends: the first position from `pos` on that holds no character of the
/// class, or the end of the source.
pub open spec fn run_end(s: Seq<char>, pos: int, k: CharClass) -> int
    decreases s.len() - pos,
{
    if 0 <= pos < s.len() && in_class(k, s[pos]) {
        run_end(s, pos + 1, k)
    } else {
        pos
    }
}

/// A run ends within the source, holds only characters of its class, and
/// cannot be extended.
pub proof fn lemma_run_end(s: Seq<char>, pos: int, k: CharClass)
    requires
        0 <= pos <= s.len(),
    ensures
        pos <= run_end(s, pos, k) <= s.len(),
        forall|i: int| pos <= i < run_end(s, pos, k) ==> in_class(k, #[trigger] s[i]),
        run_end(s, pos, k) < s.len() ==> !in_class(k, s[run_end(s, pos, k)]),
    decreases s.len() - pos,
{
    if pos < s.len() && in_class(k, s[pos]) {
        lemma_run_end(s, pos + 1, k);
    }
}

/// A position that ends the run of class `k` from `pos` is its `run_end`.
pub proof fn lemma_run_end_unique(s: Seq<char>, pos: int, end: int, k: CharClass)
    requires
        0 <= pos <= end <= s.len(),
        forall|i: int| pos <= i < end ==> in_class(k, #[trigger] s[i]),
        end < s.len() ==> !in_class(k, s[end]),
    ensures
        run_end(s, pos, k) == end,
    decreases end - pos,
{
    if pos < end {
        assert(in_class(k, s[pos]));
        lemma_run_end_unique(s, pos + 1, end, k);
    }
}

/// A token and the position after it.
pub type Step = Result<(TokenView, int), FatalView>;

/// A token and the position after it, or nothing at the end of the source.
pub type Lexed = Result<Option<(TokenView, int)>, FatalView>;

/// A step that found a token.
pub open spec fn found(step: Step) -> Lexed {
    match step {
        Ok(pair) => Ok(Some(pair)),
        Err(e) => Err(e),
    }
}

/// The name that starts at `p`: the maximal run of name characters. With a
/// separator in it, it is a path, which must not end in a separator.
pub open spec fn spec_identifier(s: Seq<char>, p: int) -> Step {
    let end = run_end(s, p, CharClass::Name);
    let name = s.subrange(p, end);
    if name.contains('.') {
        if name.last() == '.' {
            Err(FatalView::BadPath { path: name, pos: p })
        } else {
            Ok((TokenView::Path(name), end))
        }
    } else {
        Ok((TokenView::Identifier(name), end))
    }
}

/// The number literal that starts at `p`: the maximal run of digits and
/// underscores, kept as it is written.
pub open spec fn spec_number(s: Seq<char>, p: int) -> Step {
    let end = run_end(s, p, CharClass::Numeric);
    Ok((TokenView::Number(s.subrange(p, end)), end))
}

/// The operator that starts at `p`: the maximal run of symbol characters,
/// which must be a sigil of the registry.
pub open spec fn spec_oper(s: Seq<char>, p: int) -> Step {
    let end = run_end(s, p, CharClass::Symbol);
    let sigil = s.subrange(p, end);
    match spec_try_from(sigil) {
        Some(oper) => Ok((TokenView::Operator(oper), end)),
        None => Err(FatalView::UnknownOperator { sigil, pos: p }),
    }
}

/// The character that an escape stands for, if the escape is known.
pub open spec fn unescape(c: char) -> Option<char> {
    if c == '\'' || c == '"' || c == '`' {
        Some(c)
    } else if c == 'n' {
        Some('\n')
    } else if c == 't' {
        Some('\t')
    } else if c == 'r' {
        Some('\r')
    } else {
        None
    }
}

/// The rest of the body of a text literal from `i` on, added to what `acc`
/// holds of it already, and the position after the closing quote. The
/// literal opened at `start` with `quote`.
pub open spec fn spec_text_body(
    s: Seq<char>,
    i: int,
    quote: Quote,
    start: int,
    acc: Seq<char>,
) -> Result<(Seq<char>, int), FatalView>
    decreases s.len() - i,
{
    if i < 0 || i >= s.len() {
        Err(FatalView::UnterminatedText { quote, pos: start })
    } else if s[i] == '\\' {
        if i + 1 >= s.len() {
            Err(FatalView::UnterminatedText { quote, pos: start })
        } else {
            match unescape(s[i + 1]) {
                Some(c) => spec_text_body(s, i + 2, quote, start, acc.push(c)),
                None => Err(FatalView::UnknownEscape { ch: s[i + 1], pos: i + 1 }),
            }
        }
    } else if s[i] == quote.spec_to_char() {
        Ok((acc, i + 1))
    } else {
        spec_text_body(s, i + 1, quote, start, acc.push(s[i]))
    }
}

/// The text literal whose opening quote stands at `p`.
pub open spec fn spec_text(s: Seq<char>, p: int) -> Step {
    let quote = Quote::spec_from_char(s[p]).unwrap();
    match spec_text_body(s, p + 1, quote, p, Seq::empty()) {
        Ok((body, end)) => Ok((TokenView::Text(quote, body), end)),
        Err(e) => Err(e),
    }
}

/// The statements of a block with the current one added, unless it is empty.
pub open spec fn closed_groups(groups: Seq<Seq<TokenView>>, current: Seq<TokenView>) -> Seq<
    Seq<TokenView>,
> {
    if current.len() > 0 {
        groups.push(current)
    } else {
        groups
    }
}

/// The token that starts at or after `pos`, white space and comments
/// skipped, and the position after it; nothing at the end of the source.
pub open spec fn spec_next(s: Seq<char>, pos: int) -> Lexed
    decreases s.len() - pos, 1nat,
    when 0 <= pos <= s.len()
{
    let p = run_end(s, pos, CharClass::Space);
    proof {
        lemma_run_end(s, pos, CharClass::Space);
    }
    if p >= s.len() {
        Ok(None)
    } else {
        let c = s[p];
        if assignment(c) {
            Ok(Some((TokenView::Assignment(Assignments::Assign), p + 1)))
        } else if terminator(c) {
            Ok(Some((TokenView::LineTerminator, p + 1)))
        } else if separator(c) {
            Ok(Some((TokenView::Separator, p + 1)))
        } else if comment(c) {
            proof {
                lemma_run_end(s, p + 1, CharClass::Comment);
            }
            spec_next(s, run_end(s, p + 1, CharClass::Comment))
        } else if alpha(c) {
            found(spec_identifier(s, p))
        } else if numeric(c) {
            found(spec_number(s, p))
        } else if quote(c) {
            found(spec_text(s, p))
        } else if block_start(c) {
            found(
                spec_block_body(
                    s,
                    p + 1,
                    LParen::spec_from_char(c).unwrap(),
                    p,
                    Seq::empty(),
                    Seq::empty(),
                ),
            )
        } else if block_end(c) {
            Ok(Some((TokenView::RParen(RParen::spec_from_char(c).unwrap()), p + 1)))
        } else if symbol(c) {
            found(spec_oper(s, p))
        } else {
            Ok(Some((TokenView::Unknown(c), p + 1)))
        }
    }
}

/// The block that was opened at `start` with `open`, read on from `i`:
/// `groups` are its finished statements and `current` is the one being
/// read. A statement terminator finishes the current statement, the
/// matching closing bracket finishes the block, whose last statement counts
/// unless it is empty. Any other closing bracket, and the end of the
/// source, is fatal.
pub open spec fn spec_block_body(
    s: Seq<char>,
    i: int,
    open: LParen,
    start: int,
    groups: Seq<Seq<TokenView>>,
    current: Seq<TokenView>,
) -> Step
    decreases s.len() - i, 2nat,
    when 0 <= i <= s.len()
{
    match spec_next(s, i) {
        Err(e) => Err(e),
        Ok(None) => Err(FatalView::UnterminatedBlock { open, pos: start }),
        Ok(Some((token, j))) => {
            if j <= i || j > s.len() {
                // A token is never empty: `lemma_next_advances`.
                Err(FatalView::UnterminatedBlock { open, pos: start })
            } else {
                match token {
                    TokenView::RParen(found) => {
                        if found == open.spec_get_rparen() {
                            Ok(
                                (
                                    TokenView::Block(
                                        (open, found),
                                        closed_groups(groups, current),
                                    ),
                                    j,
                                ),
                            )
                        } else {
                            Err(FatalView::MismatchedBracket { open, found, pos: j - 1 })
                        }
                    },
                    TokenView::LineTerminator => spec_block_body(
                        s,
                        j,
                        open,
                        start,
                        groups.push(current),
                        Seq::empty(),
                    ),
                    _ => spec_block_body(s, j, open, start, groups, current.push(token)),
                }
            }
        },
    }
}

/// The block whose opening bracket stands at `p`.
pub open spec fn spec_block(s: Seq<char>, p: int) -> Step {
    spec_block_body(s, p + 1, LParen::spec_from_char(s[p]).unwrap(), p, Seq::empty(), Seq::empty())
}

/// A text literal that closes ends after the position it was read from.
pub proof fn lemma_text_body_advances(
    s: Seq<char>,
    i: int,
    quote: Quote,
    start: int,
    acc: Seq<char>,
)
    ensures
        match spec_text_body(s, i, quote, start, acc) {
            Ok((_, end)) => i < end <= s.len(),
            Err(_) => true,
        },
    decreases s.len() - i,
{
    if i < 0 || i >= s.len() {
    } else if s[i] == '\\' {
        if i + 1 < s.len() {
            match unescape(s[i + 1]) {
                Some(c) => {
                    lemma_text_body_advances(s, i + 2, quote, start, acc.push(c));
                },
                None => {},
            }
        }
    } else if s[i] == quote.spec_to_char() {
    } else {
        lemma_text_body_advances(s, i + 1, quote, start, acc.push(s[i]));
    }
}

/// A token is never empty: the position after it lies past the position it
/// was read from, and within the source.
pub proof fn lemma_next_advances(s: Seq<char>, pos: int)
    requires
        0 <= pos <= s.len(),
    ensures
        match spec_next(s, pos) {
            Ok(Some((_, j))) => pos < j <= s.len(),
            _ => true,
        },
    decreases s.len() - pos, 1nat,
{
    let p = run_end(s, pos, CharClass::Space);
    lemma_run_end(s, pos, CharClass::Space);
    if p < s.len() {
        let c = s[p];
        if assignment(c) || terminator(c) || separator(c) {
        } else if comment(c) {
            lemma_run_end(s, p + 1, CharClass::Comment);
            lemma_next_advances(s, run_end(s, p + 1, CharClass::Comment));
        } else if alpha(c) {
            lemma_run_end(s, p, CharClass::Name);
            assert(in_class(CharClass::Name, s[p]));
        } else if numeric(c) {
            lemma_run_end(s, p, CharClass::Numeric);
            assert(in_class(CharClass::Numeric, s[p]));
        } else if quote(c) {
            lemma_text_body_advances(
                s,
                p + 1,
                Quote::spec_from_char(c).unwrap(),
                p,
                Seq::empty(),
            );
        } else if block_start(c) {
            lemma_block_body_advances(
                s,
                p + 1,
                LParen::spec_from_char(c).unwrap(),
                p,
                Seq::empty(),
                Seq::empty(),
            );
        } else if block_end(c) {
        } else if symbol(c) {
            lemma_run_end(s, p, CharClass::Symbol);
            assert(in_class(CharClass::Symbol, s[p]));
        } else {
        }
    }
}

/// A block that closes ends after the position it was read from.
pub proof fn lemma_block_body_advances(
    s: Seq<char>,
    i: int,
    open: LParen,
    start: int,
    groups: Seq<Seq<TokenView>>,
    current: Seq<TokenView>,
)
    requires
        0 <= i <= s.len(),
    ensures
        match spec_block_body(s, i, open, start, groups, current) {
            Ok((_, j)) => i < j <= s.len(),
            Err(_) => true,
        },
    decreases s.len() - i, 2nat,
{
    lemma_next_advances(s, i);
    match spec_next(s, i) {
        Ok(Some((token, j))) => {
            match token {
                TokenView::RParen(_) => {},
                TokenView::LineTerminator => {
                    lemma_block_body_advances(s, j, open, start, groups.push(current), Seq::empty());
                },
                _ => {
                    lemma_block_body_advances(s, j, open, start, groups, current.push(token));
                },
            }
        },
        _ => {},
    }
}

/// The statement that starts at `pos`, added to the tokens that `acc` holds
/// of it already, and the position after it. A statement runs up to and
/// including its terminator, or to the end of the source. A character that
/// starts no token is fatal in it.
pub open spec fn spec_statement(s: Seq<char>, pos: int, acc: Seq<TokenView>) -> Result<
    (Seq<TokenView>, int),
    FatalView,
>
    decreases s.len() - pos,
    when 0 <= pos <= s.len()
{
    match spec_next(s, pos) {
        Err(e) => Err(e),
        Ok(None) => Ok((acc, s.len() as int)),
        Ok(Some((token, j))) => {
            proof {
                lemma_next_advances(s, pos);
            }
            match token {
                TokenView::LineTerminator => Ok((acc.push(token), j)),
                TokenView::Unknown(ch) => Err(FatalView::UnknownCharacter { ch, pos: j - 1 }),
                _ => spec_statement(s, j, acc.push(token)),
            }
        },
    }
}

/// A statement that is read before the end of the source ends after the
/// position it was read from.
pub proof fn lemma_statement_advances(s: Seq<char>, pos: int, acc: Seq<TokenView>)
    requires
        0 <= pos <= s.len(),
    ensures
        match spec_statement(s, pos, acc) {
            Ok((_, j)) => pos <= j <= s.len() && (pos < s.len() ==> pos < j),
            Err(_) => true,
        },
    decreases s.len() - pos,
{
    lemma_next_advances(s, pos);
    match spec_next(s, pos) {
        Ok(Some((token, j))) => {
            match token {
                TokenView::LineTerminator => {},
                TokenView::Unknown(_) => {},
                _ => {
                    lemma_statement_advances(s, j, acc.push(token));
                },
            }
        },
        _ => {},
    }
}

/// The token of a lexing step, without the position after it.
pub open spec fn token_of(lexed: Lexed) -> Result<Option<TokenView>, FatalView> {
    match lexed {
        Ok(Some((token, _))) => Ok(Some(token)),
        Ok(None) => Ok(None),
        Err(e) => Err(e),
    }
}

} // verus!
