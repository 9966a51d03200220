//! Lexing does not depend on what stands before the position it starts at:
//! a source that is another source with a prefix before it yields the same
//! tokens, with every position moved by the length of the prefix.

use vstd::prelude::*;
use crate::chars::alpha;
use crate::chars::assignment;
use crate::chars::block_end;
use crate::chars::block_start;
use crate::chars::comment;
use crate::chars::numeric;
use crate::chars::quote;
use crate::chars::separator;
use crate::chars::symbol;
use crate::chars::terminator;
use crate::error::EvalErrorView;
use crate::error::FatalView;
use crate::frame::FrameView;
use crate::grammar::CharClass;
use crate::grammar::Lexed;
use crate::grammar::in_class;
use crate::grammar::lemma_next_advances;
use crate::grammar::lemma_run_end;
use crate::grammar::lemma_statement_advances;
use crate::grammar::run_end;
use crate::grammar::spec_block_body;
use crate::grammar::spec_identifier;
use crate::grammar::spec_next;
use crate::grammar::spec_number;
use crate::grammar::spec_oper;
use crate::grammar::spec_statement;
use crate::grammar::spec_text;
use crate::grammar::spec_text_body;
use crate::grammar::unescape;
use crate::object::ObjectView;
use crate::number::spec_parse_number;
use crate::operator::BinaryOperator;
use crate::operator::Outcome;
use crate::operator::spec_exec;
use crate::operator::spec_should_exec;
use crate::parser::RunOutcome;
use crate::parser::assignment_shape;
use crate::parser::lowered;
use crate::parser::pushed;
use crate::parser::spec_drain;
use crate::parser::spec_eval_from;
use crate::parser::spec_eval_groups;
use crate::parser::spec_parse_expr;
use crate::parser::spec_parse_from;
use crate::parser::spec_reduce;
use crate::parser::spec_run;
use crate::parser::statement_value;
use crate::token::LParen;
use crate::token::Quote;
use crate::token::TokenView;

verus! {

/// The source `long` is the source `short` with `k` characters before it.
pub open spec fn aligned(long: Seq<char>, short: Seq<char>, k: int) -> bool {
    &&& 0 <= k
    &&& long.len() == short.len() + k
    &&& forall|i: int| 0 <= i < short.len() ==> long[i + k] == #[trigger] short[i]
}

/// A fatal condition with its position, if it has one, moved by `k`.
pub open spec fn shift_fatal(e: FatalView, k: int) -> FatalView {
    match e {
        FatalView::BadPath { path, pos } => FatalView::BadPath { path, pos: pos + k },
        FatalView::UnknownEscape { ch, pos } => FatalView::UnknownEscape { ch, pos: pos + k },
        FatalView::UnterminatedText { quote, pos } => FatalView::UnterminatedText {
            quote,
            pos: pos + k,
        },
        FatalView::MismatchedBracket { open, found, pos } => FatalView::MismatchedBracket {
            open,
            found,
            pos: pos + k,
        },
        FatalView::UnterminatedBlock { open, pos } => FatalView::UnterminatedBlock {
            open,
            pos: pos + k,
        },
        FatalView::UnknownOperator { sigil, pos } => FatalView::UnknownOperator {
            sigil,
            pos: pos + k,
        },
        FatalView::UnknownCharacter { ch, pos } => FatalView::UnknownCharacter { ch, pos: pos + k },
        _ => e,
    }
}

/// A result that ends in a position, with every position moved by `k`.
pub open spec fn shift_result<T>(r: Result<(T, int), FatalView>, k: int) -> Result<
    (T, int),
    FatalView,
> {
    match r {
        Ok((found, end)) => Ok((found, end + k)),
        Err(e) => Err(shift_fatal(e, k)),
    }
}

/// What a lexing step found, with every position moved by `k`.
pub open spec fn shift_lexed(r: Lexed, k: int) -> Lexed {
    match r {
        Ok(Some((token, end))) => Ok(Some((token, end + k))),
        Ok(None) => Ok(None),
        Err(e) => Err(shift_fatal(e, k)),
    }
}

/// An evaluation failure with its position, if it has one, moved by `k`.
pub open spec fn shift_error(e: EvalErrorView, k: int) -> EvalErrorView {
    match e {
        EvalErrorView::Fatal(f) => EvalErrorView::Fatal(shift_fatal(f, k)),
        _ => e,
    }
}

/// Where a run ended, with every position moved by `k`.
pub open spec fn shift_run(out: RunOutcome, k: int) -> RunOutcome {
    RunOutcome {
        frame: out.frame,
        pos: out.pos + k,
        value: out.value,
        fault: match out.fault {
            Some(e) => Some(shift_error(e, k)),
            None => None,
        },
    }
}

/// A run of characters ends at the same place in both sources.
pub proof fn lemma_run_end_shift(long: Seq<char>, short: Seq<char>, k: int, p: int, c: CharClass)
    requires
        aligned(long, short, k),
        0 <= p <= short.len(),
    ensures
        run_end(long, p + k, c) == run_end(short, p, c) + k,
    decreases short.len() - p,
{
    if p < short.len() {
        assert(long[p + k] == short[p]);
        if in_class(c, short[p]) {
            lemma_run_end_shift(long, short, k, p + 1, c);
        }
    }
}

/// A stretch of the shorter source is the same stretch of the longer one.
pub proof fn lemma_subrange_shift(long: Seq<char>, short: Seq<char>, k: int, p: int, end: int)
    requires
        aligned(long, short, k),
        0 <= p <= end <= short.len(),
    ensures
        long.subrange(p + k, end + k) == short.subrange(p, end),
{
    assert forall|i: int| 0 <= i < end - p implies long.subrange(p + k, end + k)[i]
        == short.subrange(p, end)[i] by {
        assert(long[(p + i) + k] == short[p + i]);
    }
    assert(long.subrange(p + k, end + k) =~= short.subrange(p, end));
}

/// A name is lexed alike in both sources.
pub proof fn lemma_identifier_shift(long: Seq<char>, short: Seq<char>, k: int, p: int)
    requires
        aligned(long, short, k),
        0 <= p <= short.len(),
    ensures
        spec_identifier(long, p + k) == shift_result(spec_identifier(short, p), k),
{
    lemma_run_end_shift(long, short, k, p, CharClass::Name);
    lemma_run_end(short, p, CharClass::Name);
    lemma_subrange_shift(long, short, k, p, run_end(short, p, CharClass::Name));
}

/// A number literal is lexed alike in both sources.
pub proof fn lemma_number_shift(long: Seq<char>, short: Seq<char>, k: int, p: int)
    requires
        aligned(long, short, k),
        0 <= p <= short.len(),
    ensures
        spec_number(long, p + k) == shift_result(spec_number(short, p), k),
{
    lemma_run_end_shift(long, short, k, p, CharClass::Numeric);
    lemma_run_end(short, p, CharClass::Numeric);
    lemma_subrange_shift(long, short, k, p, run_end(short, p, CharClass::Numeric));
}

/// An operator is lexed alike in both sources.
pub proof fn lemma_oper_shift(long: Seq<char>, short: Seq<char>, k: int, p: int)
    requires
        aligned(long, short, k),
        0 <= p <= short.len(),
    ensures
        spec_oper(long, p + k) == shift_result(spec_oper(short, p), k),
{
    lemma_run_end_shift(long, short, k, p, CharClass::Symbol);
    lemma_run_end(short, p, CharClass::Symbol);
    lemma_subrange_shift(long, short, k, p, run_end(short, p, CharClass::Symbol));
}

/// The body of a text literal is lexed alike in both sources.
pub proof fn lemma_text_body_shift(
    long: Seq<char>,
    short: Seq<char>,
    k: int,
    i: int,
    quote: Quote,
    start: int,
    acc: Seq<char>,
)
    requires
        aligned(long, short, k),
        0 <= i,
    ensures
        spec_text_body(long, i + k, quote, start + k, acc) == shift_result(
            spec_text_body(short, i, quote, start, acc),
            k,
        ),
    decreases short.len() - i,
{
    if i < short.len() {
        assert(long[i + k] == short[i]);
        if short[i] == '\\' {
            if i + 1 < short.len() {
                assert(long[(i + 1) + k] == short[i + 1]);
                match unescape(short[i + 1]) {
                    Some(c) => {
                        lemma_text_body_shift(long, short, k, i + 2, quote, start, acc.push(c));
                    },
                    None => {},
                }
            }
        } else if short[i] == quote.spec_to_char() {
        } else {
            lemma_text_body_shift(long, short, k, i + 1, quote, start, acc.push(short[i]));
        }
    }
}

/// A text literal is lexed alike in both sources.
pub proof fn lemma_text_shift(long: Seq<char>, short: Seq<char>, k: int, p: int)
    requires
        aligned(long, short, k),
        0 <= p < short.len(),
    ensures
        spec_text(long, p + k) == shift_result(spec_text(short, p), k),
{
    assert(long[p + k] == short[p]);
    lemma_text_body_shift(
        long,
        short,
        k,
        p + 1,
        Quote::spec_from_char(short[p]).unwrap(),
        p,
        Seq::empty(),
    );
}

/// A token is lexed alike in both sources.
pub proof fn lemma_next_shift(long: Seq<char>, short: Seq<char>, k: int, p: int)
    requires
        aligned(long, short, k),
        0 <= p <= short.len(),
    ensures
        spec_next(long, p + k) == shift_lexed(spec_next(short, p), k),
    decreases short.len() - p, 1nat,
{
    lemma_run_end_shift(long, short, k, p, CharClass::Space);
    lemma_run_end(short, p, CharClass::Space);
    lemma_run_end(long, p + k, CharClass::Space);
    let q = run_end(short, p, CharClass::Space);
    if q < short.len() {
        let c = short[q];
        assert(long[q + k] == c);
        if assignment(c) || terminator(c) || separator(c) {
        } else if comment(c) {
            lemma_run_end_shift(long, short, k, q + 1, CharClass::Comment);
            lemma_run_end(short, q + 1, CharClass::Comment);
            lemma_run_end(long, q + 1 + k, CharClass::Comment);
            lemma_next_shift(long, short, k, run_end(short, q + 1, CharClass::Comment));
        } else if alpha(c) {
            lemma_identifier_shift(long, short, k, q);
        } else if numeric(c) {
            lemma_number_shift(long, short, k, q);
        } else if quote(c) {
            lemma_text_shift(long, short, k, q);
        } else if block_start(c) {
            lemma_block_body_shift(
                long,
                short,
                k,
                q + 1,
                LParen::spec_from_char(c).unwrap(),
                q,
                Seq::empty(),
                Seq::empty(),
            );
        } else if block_end(c) {
        } else if symbol(c) {
            lemma_oper_shift(long, short, k, q);
        } else {
        }
    }
}

/// A block is lexed alike in both sources.
pub proof fn lemma_block_body_shift(
    long: Seq<char>,
    short: Seq<char>,
    k: int,
    i: int,
    open: LParen,
    start: int,
    groups: Seq<Seq<TokenView>>,
    current: Seq<TokenView>,
)
    requires
        aligned(long, short, k),
        0 <= i <= short.len(),
    ensures
        spec_block_body(long, i + k, open, start + k, groups, current) == shift_result(
            spec_block_body(short, i, open, start, groups, current),
            k,
        ),
    decreases short.len() - i, 2nat,
{
    lemma_next_shift(long, short, k, i);
    lemma_next_advances(short, i);
    lemma_next_advances(long, i + k);
    match spec_next(short, i) {
        Ok(Some((token, j))) => {
            match token {
                TokenView::RParen(_) => {},
                TokenView::LineTerminator => {
                    lemma_block_body_shift(
                        long,
                        short,
                        k,
                        j,
                        open,
                        start,
                        groups.push(current),
                        Seq::empty(),
                    );
                },
                _ => {
                    lemma_block_body_shift(
                        long,
                        short,
                        k,
                        j,
                        open,
                        start,
                        groups,
                        current.push(token),
                    );
                },
            }
        },
        _ => {},
    }
}

/// A statement is read alike in both sources.
pub proof fn lemma_statement_shift(
    long: Seq<char>,
    short: Seq<char>,
    k: int,
    p: int,
    acc: Seq<TokenView>,
)
    requires
        aligned(long, short, k),
        0 <= p <= short.len(),
    ensures
        spec_statement(long, p + k, acc) == shift_result(spec_statement(short, p, acc), k),
    decreases short.len() - p,
{
    lemma_next_shift(long, short, k, p);
    lemma_next_advances(short, p);
    lemma_next_advances(long, p + k);
    match spec_next(short, p) {
        Ok(Some((token, j))) => {
            match token {
                TokenView::LineTerminator => {},
                TokenView::Unknown(_) => {},
                _ => {
                    lemma_statement_shift(long, short, k, j, acc.push(token));
                },
            }
        },
        _ => {},
    }
}

/// The condition names a position in the source.
pub open spec fn positioned(e: FatalView) -> bool {
    e is BadPath || e is UnknownEscape || e is UnterminatedText || e is MismatchedBracket || e
        is UnterminatedBlock || e is UnknownOperator || e is UnknownCharacter
}

/// The outcome holds no failure that names a position in the source.
pub open spec fn unpositioned(out: Outcome) -> bool {
    match out.fault {
        Some(EvalErrorView::Fatal(e)) => !positioned(e),
        _ => true,
    }
}

/// Running an operator yields no failure that names a position.
pub proof fn lemma_exec_unpositioned(oper: BinaryOperator, f: FrameView)
    ensures
        unpositioned(spec_exec(oper, f)),
{
}

/// Running the operator stack yields no failure that names a position.
pub proof fn lemma_drain_unpositioned(ops: Seq<BinaryOperator>, f: FrameView)
    ensures
        unpositioned(spec_drain(ops, f)),
    decreases ops.len(),
{
    if ops.len() > 0 {
        let out = spec_exec(ops.last(), f);
        lemma_exec_unpositioned(ops.last(), f);
        if out.fault is None {
            lemma_drain_unpositioned(ops.drop_last(), out.frame);
        }
    }
}

/// Making room for an operator yields no failure that names a position.
pub proof fn lemma_reduce_unpositioned(
    ops: Seq<BinaryOperator>,
    incoming: BinaryOperator,
    f: FrameView,
)
    ensures
        unpositioned(spec_reduce(ops, incoming, f).outcome),
    decreases ops.len(),
{
    if ops.len() > 0 && spec_should_exec(ops.last(), incoming) {
        let out = spec_exec(ops.last(), f);
        lemma_exec_unpositioned(ops.last(), f);
        if out.fault is None {
            lemma_reduce_unpositioned(ops.drop_last(), incoming, out.frame);
        }
    }
}

/// Evaluating a statement yields no failure that names a position: the
/// evaluator sees tokens, not the source.
pub proof fn lemma_parse_from_unpositioned(tokens: Seq<TokenView>, start: int, f: FrameView)
    ensures
        unpositioned(spec_parse_from(tokens, start, f)),
    decreases tokens, tokens.len() - start, 2nat,
{
    if start < 0 || start >= tokens.len() {
    } else if assignment_shape(tokens, start) {
        match tokens[start] {
            TokenView::Identifier(_) => {
                lemma_parse_from_unpositioned(tokens, start + 2, f);
            },
            _ => {},
        }
    } else {
        lemma_eval_from_unpositioned(tokens, start, Seq::empty(), f);
    }
}

/// Evaluating an expression yields no failure that names a position.
pub proof fn lemma_eval_from_unpositioned(
    tokens: Seq<TokenView>,
    i: int,
    ops: Seq<BinaryOperator>,
    f: FrameView,
)
    ensures
        unpositioned(spec_eval_from(tokens, i, ops, f)),
    decreases tokens, tokens.len() - i, 1nat,
{
    if i < 0 || i >= tokens.len() {
        lemma_drain_unpositioned(ops, f);
    } else {
        match tokens[i] {
            TokenView::Identifier(name) => {
                if f.bindings.contains_key(name) {
                    lemma_eval_from_unpositioned(tokens, i + 1, ops, pushed(f, f.bindings[name]));
                }
            },
            TokenView::Number(raw) => {
                match spec_parse_number(raw) {
                    Some(n) => {
                        lemma_eval_from_unpositioned(
                            tokens,
                            i + 1,
                            ops,
                            pushed(f, ObjectView::Number(n as int)),
                        );
                    },
                    None => {},
                }
            },
            TokenView::Operator(oper) => {
                let reduced = spec_reduce(ops, oper, f);
                lemma_reduce_unpositioned(ops, oper, f);
                if reduced.outcome.fault is None {
                    lemma_eval_from_unpositioned(
                        tokens,
                        i + 1,
                        reduced.ops.push(oper),
                        reduced.outcome.frame,
                    );
                }
            },
            TokenView::Block(kinds, body) => {
                match kinds.0 {
                    LParen::Round => {
                        let out = spec_eval_groups(body, 0, f);
                        lemma_eval_groups_unpositioned(body, 0, f);
                        if out.fault is None {
                            lemma_eval_from_unpositioned(tokens, i + 1, ops, out.frame);
                        }
                    },
                    _ => {},
                }
            },
            TokenView::LineTerminator => {
                lemma_drain_unpositioned(ops, f);
            },
            _ => {},
        }
    }
}

/// Evaluating the statements of a block yields no failure that names a
/// position.
pub proof fn lemma_eval_groups_unpositioned(body: Seq<Seq<TokenView>>, k: int, f: FrameView)
    ensures
        unpositioned(spec_eval_groups(body, k, f)),
    decreases body, body.len() - k, 0nat,
{
    if 0 <= k < body.len() {
        let out = spec_parse_from(body[k], 0, f);
        lemma_parse_from_unpositioned(body[k], 0, f);
        if out.fault is None && k + 1 != body.len() {
            lemma_eval_groups_unpositioned(body, k + 1, lowered(out.frame, f.stack.len() as int));
        }
    }
}

/// A run is the same over both sources.
pub proof fn lemma_run_shift(
    long: Seq<char>,
    short: Seq<char>,
    k: int,
    p: int,
    f: FrameView,
    value: Option<ObjectView>,
)
    requires
        aligned(long, short, k),
        0 <= p <= short.len(),
    ensures
        spec_run(long, p + k, f, value) == shift_run(spec_run(short, p, f, value), k),
    decreases short.len() - p,
{
    if p < short.len() {
        lemma_statement_shift(long, short, k, p, Seq::empty());
        lemma_statement_advances(short, p, Seq::empty());
        lemma_statement_advances(long, p + k, Seq::empty());
        match spec_statement(short, p, Seq::empty()) {
            Ok((tokens, j)) => {
                let out = spec_parse_expr(tokens, f);
                lemma_parse_from_unpositioned(tokens, 0, f);
                if out.fault is None {
                    lemma_run_shift(
                        long,
                        short,
                        k,
                        j,
                        lowered(out.frame, f.stack.len() as int),
                        if tokens.len() == 0 {
                            value
                        } else {
                            statement_value(f, out.frame)
                        },
                    );
                }
            },
            Err(_) => {},
        }
    }
}

} // verus!
