//! The evaluator: statements are evaluated by precedence climbing over an
//! operator stack, against the operand stack and the bindings of a frame.

use vstd::prelude::*;
use crate::error::EvalError;
use crate::error::EvalErrorView;
use crate::error::Fatal;
use crate::error::FatalView;
use crate::error::Reserved;
use crate::frame::Frame;
use crate::frame::FrameView;
use crate::frame::cut;
use crate::grammar::lemma_statement_advances;
use crate::grammar::spec_statement;
use crate::number::parse_number;
use crate::number::spec_parse_number;
use crate::object::Object;
use crate::object::ObjectView;
use crate::operator::BinaryOperator;
use crate::operator::Outcome;
use crate::operator::outcome_of;
use crate::operator::spec_exec;
use crate::operator::spec_should_exec;
use crate::stream::Stream;
use crate::token::LParen;
use crate::token::Token;
use crate::token::TokenView;
use crate::token::groups_view;
use crate::token::tokens_view;

verus! {

/// A step that went well and left the frame `f`.
pub open spec fn done(f: FrameView) -> Outcome {
    Outcome { frame: f, fault: None }
}

/// A step that stopped on `e` and left the frame `f`.
pub open spec fn failed(f: FrameView, e: EvalErrorView) -> Outcome {
    Outcome { frame: f, fault: Some(e) }
}

/// A step that stopped on the fatal condition `e` and left the frame `f`.
pub open spec fn fatal(f: FrameView, e: FatalView) -> Outcome {
    failed(f, EvalErrorView::Fatal(e))
}

/// The frame `f` with `val` on top of its operands.
pub open spec fn pushed(f: FrameView, val: ObjectView) -> FrameView {
    FrameView { stack: f.stack.push(val), bindings: f.bindings }
}

/// The frame `f` with `name` bound to `val`.
pub open spec fn bound(f: FrameView, name: Seq<char>, val: ObjectView) -> FrameView {
    FrameView { stack: f.stack, bindings: f.bindings.insert(name, val) }
}

/// The frame `f` without the operands above `depth`.
pub open spec fn lowered(f: FrameView, depth: int) -> FrameView {
    FrameView { stack: cut(f.stack, depth), bindings: f.bindings }
}

/// Runs the operators of `ops` from the top down until none is left or one
/// fails.
pub open spec fn spec_drain(ops: Seq<BinaryOperator>, f: FrameView) -> Outcome
    decreases ops.len(),
{
    if ops.len() == 0 {
        done(f)
    } else {
        let out = spec_exec(ops.last(), f);
        if out.fault is Some {
            out
        } else {
            spec_drain(ops.drop_last(), out.frame)
        }
    }
}

/// The operator stack and the frame after making room for an incoming
/// operator.
pub struct Reduced {
    pub ops: Seq<BinaryOperator>,
    pub outcome: Outcome,
}

/// Runs the operators on top of `ops` for as long as the topmost runs
/// before `incoming`, or until one fails.
pub open spec fn spec_reduce(ops: Seq<BinaryOperator>, incoming: BinaryOperator, f: FrameView)
    -> Reduced
    decreases ops.len(),
{
    if ops.len() > 0 && spec_should_exec(ops.last(), incoming) {
        let out = spec_exec(ops.last(), f);
        if out.fault is Some {
            Reduced { ops: ops.drop_last(), outcome: out }
        } else {
            spec_reduce(ops.drop_last(), incoming, out.frame)
        }
    } else {
        Reduced { ops, outcome: done(f) }
    }
}

/// Whether the tokens from `start` on have the shape of an assignment: a
/// target, an assignment sign, and at least one more token.
pub open spec fn assignment_shape(tokens: Seq<TokenView>, start: int) -> bool {
    0 <= start && start + 2 < tokens.len() && tokens[start + 1] is Assignment
}

/// What evaluating the tokens of a statement from `start` on makes of a
/// frame. An assignment evaluates its right side, binds the value that this
/// leaves on top of the stack to its target, and leaves the value there.
/// Anything else is an expression.
pub open spec fn spec_parse_from(tokens: Seq<TokenView>, start: int, f: FrameView) -> Outcome
    decreases tokens, tokens.len() - start, 2nat,
{
    if start < 0 || start >= tokens.len() {
        done(f)
    } else if assignment_shape(tokens, start) {
        match tokens[start] {
            TokenView::Identifier(name) => {
                let out = spec_parse_from(tokens, start + 2, f);
                if out.fault is Some {
                    out
                } else if out.frame.stack.len() == 0 {
                    fatal(out.frame, FatalView::MissingValue)
                } else {
                    done(bound(out.frame, name, out.frame.stack.last()))
                }
            },
            _ => fatal(f, FatalView::BadAssignmentTarget),
        }
    } else {
        spec_eval_from(tokens, start, Seq::empty(), f)
    }
}

/// What evaluating the tokens of an expression from `i` on makes of a
/// frame, with `ops` as the operator stack.
///
/// An identifier pushes the value it is bound to, a number literal the
/// number it stands for. An operator first runs the operators on top of the
/// stack that run before it, then goes on the stack. A round block is
/// evaluated for itself and leaves its value as an operand. A statement
/// terminator, like the end of the tokens, runs what is left on the
/// operator stack and ends the evaluation.
pub open spec fn spec_eval_from(
    tokens: Seq<TokenView>,
    i: int,
    ops: Seq<BinaryOperator>,
    f: FrameView,
) -> Outcome
    decreases tokens, tokens.len() - i, 1nat,
{
    if i < 0 || i >= tokens.len() {
        spec_drain(ops, f)
    } else {
        match tokens[i] {
            TokenView::Identifier(name) => {
                if f.bindings.contains_key(name) {
                    spec_eval_from(tokens, i + 1, ops, pushed(f, f.bindings[name]))
                } else {
                    fatal(f, FatalView::UnboundIdentifier { name })
                }
            },
            TokenView::Number(raw) => {
                match spec_parse_number(raw) {
                    Some(n) => spec_eval_from(
                        tokens,
                        i + 1,
                        ops,
                        pushed(f, ObjectView::Number(n as int)),
                    ),
                    None => fatal(f, FatalView::BadNumber { raw }),
                }
            },
            TokenView::Operator(oper) => {
                let reduced = spec_reduce(ops, oper, f);
                if reduced.outcome.fault is Some {
                    reduced.outcome
                } else {
                    spec_eval_from(tokens, i + 1, reduced.ops.push(oper), reduced.outcome.frame)
                }
            },
            TokenView::Text(_, _) => failed(f, EvalErrorView::Unimplemented(Reserved::Text)),
            TokenView::Path(_) => failed(f, EvalErrorView::Unimplemented(Reserved::Path)),
            TokenView::Separator => failed(f, EvalErrorView::Unimplemented(Reserved::Separator)),
            TokenView::Block(kinds, body) => {
                match kinds.0 {
                    LParen::Round => {
                        let out = spec_eval_groups(body, 0, f);
                        if out.fault is Some {
                            out
                        } else {
                            spec_eval_from(tokens, i + 1, ops, out.frame)
                        }
                    },
                    _ => fatal(f, FatalView::ReservedBlock { open: kinds.0 }),
                }
            },
            TokenView::Unknown(ch) => fatal(f, FatalView::UnknownToken { ch }),
            TokenView::LineTerminator => spec_drain(ops, f),
            TokenView::Assignment(_) => fatal(f, FatalView::StrayAssignment),
            TokenView::RParen(found) => fatal(f, FatalView::StrayBracket { found }),
        }
    }
}

/// What evaluating the statements of a block from the `k`-th on makes of a
/// frame. Each statement is evaluated for itself. What a statement other
/// than the last leaves on the stack is dropped; what the last one leaves
/// is the block's value.
pub open spec fn spec_eval_groups(body: Seq<Seq<TokenView>>, k: int, f: FrameView) -> Outcome
    decreases body, body.len() - k, 0nat,
{
    if k < 0 || k >= body.len() {
        done(f)
    } else {
        let out = spec_parse_from(body[k], 0, f);
        if out.fault is Some {
            out
        } else if k + 1 == body.len() {
            out
        } else {
            spec_eval_groups(body, k + 1, lowered(out.frame, f.stack.len() as int))
        }
    }
}

/// What evaluating a statement makes of a frame.
pub open spec fn spec_parse_expr(tokens: Seq<TokenView>, f: FrameView) -> Outcome {
    spec_parse_from(tokens, 0, f)
}

/// The value that a statement left: the top of the stack, if the stack is
/// deeper after the statement than it was before.
pub open spec fn statement_value(before: FrameView, after: FrameView) -> Option<ObjectView> {
    if after.stack.len() > before.stack.len() {
        Some(after.stack.last())
    } else {
        None
    }
}

/// Where a run over a source ends.
pub struct RunOutcome {
    /// The frame as the run left it.
    pub frame: FrameView,
    /// The position up to which the source was read.
    pub pos: int,
    /// The value of the last statement that held a token.
    pub value: Option<ObjectView>,
    /// Why the run stopped, if it did before the end of the source.
    pub fault: Option<EvalErrorView>,
}

/// What evaluating the statements of the source `s` from `pos` on makes of
/// a frame. The statements are evaluated in order. After each, its value is
/// noted and what it left on the stack is dropped. The run stops at the
/// first statement that fails.
pub open spec fn spec_run(s: Seq<char>, pos: int, f: FrameView, value: Option<ObjectView>)
    -> RunOutcome
    decreases s.len() - pos,
    when 0 <= pos <= s.len()
{
    if pos >= s.len() {
        RunOutcome { frame: f, pos, value, fault: None }
    } else {
        match spec_statement(s, pos, Seq::empty()) {
            Err(e) => RunOutcome { frame: f, pos, value, fault: Some(EvalErrorView::Fatal(e)) },
            Ok((tokens, j)) => {
                proof {
                    lemma_statement_advances(s, pos, Seq::empty());
                }
                let out = spec_parse_expr(tokens, f);
                if out.fault is Some {
                    RunOutcome { frame: out.frame, pos: j, value, fault: out.fault }
                } else {
                    spec_run(
                        s,
                        j,
                        lowered(out.frame, f.stack.len() as int),
                        if tokens.len() == 0 {
                            value
                        } else {
                            statement_value(f, out.frame)
                        },
                    )
                }
            },
        }
    }
}

/// The view of an optional value.
pub open spec fn value_view(v: Option<Object>) -> Option<ObjectView> {
    match v {
        Some(o) => Some(o@),
        None => None,
    }
}

/// Runs the operators of `ops` from the top down until none is left or one
/// fails.
fn drain(ops: Vec<BinaryOperator>, frame: &mut Frame) -> (r: Result<(), EvalError>)
    ensures
        outcome_of(final(frame)@, r) == spec_drain(ops@, old(frame)@),
        old(frame).wf() ==> final(frame).wf(),
{
    let mut left = ops;
    loop
        invariant
            spec_drain(left@, frame@) == spec_drain(ops@, old(frame)@),
            old(frame).wf() ==> frame.wf(),
        decreases left.len(),
    {
        let ghost before = left@;
        match left.pop() {
            None => {
                return Ok(());
            },
            Some(oper) => {
                assert(before.drop_last() =~= left@);
                match oper.exec(frame) {
                    Err(e) => {
                        return Err(e);
                    },
                    Ok(()) => {},
                }
            },
        }
    }
}

/// Runs the operators on top of `ops` that run before `incoming`.
fn reduce(ops: &mut Vec<BinaryOperator>, incoming: &BinaryOperator, frame: &mut Frame) -> (r:
    Result<(), EvalError>)
    ensures
        final(ops)@ == spec_reduce(old(ops)@, *incoming, old(frame)@).ops,
        outcome_of(final(frame)@, r) == spec_reduce(old(ops)@, *incoming, old(frame)@).outcome,
        old(frame).wf() ==> final(frame).wf(),
{
    loop
        invariant
            spec_reduce(ops@, *incoming, frame@) == spec_reduce(
                old(ops)@,
                *incoming,
                old(frame)@,
            ),
            old(frame).wf() ==> frame.wf(),
        decreases ops.len(),
    {
        let n = ops.len();
        if n == 0 {
            return Ok(());
        }
        let top = ops[n - 1];
        if !top.should_exec(incoming) {
            return Ok(());
        }
        let ghost before = ops@;
        ops.pop();
        assert(before.drop_last() =~= ops@);
        match top.exec(frame) {
            Err(e) => {
                return Err(e);
            },
            Ok(()) => {},
        }
    }
}

/// Whether the tokens from `start` on have the shape of an assignment.
fn is_assignment_at(tokens: &Vec<Token>, start: usize) -> (b: bool)
    ensures
        b == assignment_shape(tokens_view(tokens@), start as int),
{
    let n = tokens.len();
    if n < 3 || start >= n - 2 {
        return false;
    }
    match &tokens[start + 1] {
        Token::Assignment(_) => true,
        _ => false,
    }
}

/// Evaluates an assignment: the right side is evaluated, the value that it
/// leaves on top of the stack is bound to the target, and stays there as
/// the value of the assignment.
pub fn handle_assignment(tokens: &Vec<Token>, start: usize, frame: &mut Frame) -> (r: Result<
    (),
    EvalError,
>)
    requires
        assignment_shape(tokens_view(tokens@), start as int),
    ensures
        outcome_of(final(frame)@, r) == spec_parse_from(
            tokens_view(tokens@),
            start as int,
            old(frame)@,
        ),
        old(frame).wf() ==> final(frame).wf(),
    decreases tokens, tokens.len() - start, 1nat,
{
    match &tokens[start] {
        Token::Identifier(name) => {
            match parse_from(tokens, start + 2, frame) {
                Err(e) => {
                    return Err(e);
                },
                Ok(()) => {},
            }
            match frame.top() {
                None => Err(EvalError::Fatal(Fatal::MissingValue)),
                Some(val) => {
                    frame.set(name.clone(), val);
                    Ok(())
                },
            }
        },
        _ => Err(EvalError::Fatal(Fatal::BadAssignmentTarget)),
    }
}

/// Evaluates the tokens of a statement from `start` on.
pub fn parse_from(tokens: &Vec<Token>, start: usize, frame: &mut Frame) -> (r: Result<
    (),
    EvalError,
>)
    ensures
        outcome_of(final(frame)@, r) == spec_parse_from(
            tokens_view(tokens@),
            start as int,
            old(frame)@,
        ),
        old(frame).wf() ==> final(frame).wf(),
    decreases tokens, tokens.len() - start, 2nat,
{
    if start >= tokens.len() {
        return Ok(());
    }
    if is_assignment_at(tokens, start) {
        return handle_assignment(tokens, start, frame);
    }
    let ghost view = tokens_view(tokens@);
    let mut ops: Vec<BinaryOperator> = Vec::new();
    let mut i: usize = start;
    while i < tokens.len()
        invariant
            start <= i <= tokens.len(),
            view == tokens_view(tokens@),
            spec_eval_from(view, i as int, ops@, frame@) == spec_parse_from(
                view,
                start as int,
                old(frame)@,
            ),
            old(frame).wf() ==> frame.wf(),
        decreases tokens.len() - i,
    {
        assert(view[i as int] == tokens@[i as int]@);
        match &tokens[i] {
            Token::Identifier(name) => {
                match frame.get(name.as_str()) {
                    Some(val) => {
                        frame.push(val);
                    },
                    None => {
                        return Err(EvalError::Fatal(Fatal::UnboundIdentifier { name: name.clone() }));
                    },
                }
            },
            Token::Number(raw) => {
                match parse_number(raw.as_str()) {
                    Some(n) => {
                        frame.push(Object::Number(n));
                    },
                    None => {
                        return Err(EvalError::Fatal(Fatal::BadNumber { raw: raw.clone() }));
                    },
                }
            },
            Token::Operator(oper) => {
                match reduce(&mut ops, oper, frame) {
                    Err(e) => {
                        return Err(e);
                    },
                    Ok(()) => {},
                }
                ops.push(*oper);
            },
            Token::Text(_, _) => {
                return Err(EvalError::Unimplemented(Reserved::Text));
            },
            Token::Path(_) => {
                return Err(EvalError::Unimplemented(Reserved::Path));
            },
            Token::Separator => {
                return Err(EvalError::Unimplemented(Reserved::Separator));
            },
            Token::Block(kinds, body) => {
                match kinds.0 {
                    LParen::Round => {
                        match eval_groups(body, frame) {
                            Err(e) => {
                                return Err(e);
                            },
                            Ok(()) => {},
                        }
                    },
                    open => {
                        return Err(EvalError::Fatal(Fatal::ReservedBlock { open }));
                    },
                }
            },
            Token::Unknown(ch) => {
                return Err(EvalError::Fatal(Fatal::UnknownToken { ch: *ch }));
            },
            Token::LineTerminator => {
                return drain(ops, frame);
            },
            Token::Assignment(_) => {
                return Err(EvalError::Fatal(Fatal::StrayAssignment));
            },
            Token::RParen(found) => {
                return Err(EvalError::Fatal(Fatal::StrayBracket { found: *found }));
            },
        }
        i += 1;
    }
    drain(ops, frame)
}

/// Evaluates the statements of a block, each for itself. What a statement
/// other than the last leaves on the stack is dropped.
fn eval_groups(body: &Vec<Vec<Token>>, frame: &mut Frame) -> (r: Result<(), EvalError>)
    ensures
        outcome_of(final(frame)@, r) == spec_eval_groups(groups_view(body@), 0, old(frame)@),
        old(frame).wf() ==> final(frame).wf(),
    decreases body, 0nat, 0nat,
{
    let ghost view = groups_view(body@);
    let n = body.len();
    let mut k: usize = 0;
    while k < n
        invariant
            k <= n,
            n == body.len(),
            view == groups_view(body@),
            spec_eval_groups(view, k as int, frame@) == spec_eval_groups(view, 0, old(frame)@),
            old(frame).wf() ==> frame.wf(),
        decreases n - k,
    {
        assert(view[k as int] == tokens_view(body@[k as int]@));
        let depth = frame.depth();
        match parse_from(&body[k], 0, frame) {
            Err(e) => {
                return Err(e);
            },
            Ok(()) => {},
        }
        if k + 1 < n {
            frame.truncate(depth);
        }
        k += 1;
    }
    Ok(())
}

/// Evaluates one statement against the frame.
///
/// On success the statement's value, if it has one, is on top of the
/// operand stack.
pub fn parse_expr(tokens: &Vec<Token>, frame: &mut Frame) -> (r: Result<(), EvalError>)
    ensures
        outcome_of(final(frame)@, r) == spec_parse_expr(tokens_view(tokens@), old(frame)@),
        old(frame).wf() ==> final(frame).wf(),
{
    parse_from(tokens, 0, frame)
}

/// Reads the next statement of the stream.
pub fn next_expr(stream: &mut Stream) -> (r: Result<Vec<Token>, Fatal>)
    ensures
        final(stream).text() == old(stream).text(),
        old(stream).position() <= final(stream).position() <= final(stream).text().len(),
        match r {
            Ok(tokens) => spec_statement(old(stream).text(), old(stream).position(), Seq::empty())
                == Ok::<(Seq<TokenView>, int), FatalView>(
                (tokens_view(tokens@), final(stream).position()),
            ),
            Err(e) => spec_statement(old(stream).text(), old(stream).position(), Seq::empty())
                == Err::<(Seq<TokenView>, int), FatalView>(e@) && final(stream).position() == old(
                stream,
            ).position(),
        },
{
    stream.next_expr()
}

/// Evaluates the statements that are left in the stream, in order, against
/// the frame, and returns the value of the last statement that held a
/// token. The run stops at the first statement that fails.
pub fn run(stream: &mut Stream, frame: &mut Frame) -> (r: Result<Option<Object>, EvalError>)
    ensures
        final(stream).text() == old(stream).text(),
        old(frame).wf() ==> final(frame).wf(),
        ({
            let out = spec_run(old(stream).text(), old(stream).position(), old(frame)@, None);
            &&& final(frame)@ == out.frame
            &&& final(stream).position() == out.pos
            &&& match r {
                Ok(value) => out.fault is None && value_view(value) == out.value,
                Err(e) => out.fault == Some(e@),
            }
        }),
{
    let mut value: Option<Object> = None;
    let _ = stream.offset();
    loop
        invariant
            stream.text() == old(stream).text(),
            old(stream).position() <= stream.position() <= stream.text().len(),
            old(frame).wf() ==> frame.wf(),
            spec_run(stream.text(), stream.position(), frame@, value_view(value)) == spec_run(
                old(stream).text(),
                old(stream).position(),
                old(frame)@,
                None,
            ),
        decreases stream.text().len() - stream.position(),
    {
        let _ = stream.offset();
        if stream.is_empty() {
            return Ok(value);
        }
        proof {
            lemma_statement_advances(stream.text(), stream.position(), Seq::empty());
        }
        let tokens = match stream.next_expr() {
            Err(e) => {
                return Err(EvalError::Fatal(e));
            },
            Ok(tokens) => tokens,
        };
        let depth = frame.depth();
        match parse_expr(&tokens, frame) {
            Err(e) => {
                return Err(e);
            },
            Ok(()) => {},
        }
        if tokens.len() > 0 {
            value = if frame.depth() > depth {
                frame.top()
            } else {
                None
            };
        }
        frame.truncate(depth);
    }
}

/// Evaluates a whole source in a frame of its own and returns the frame.
pub fn parse(stream: &mut Stream) -> (r: Result<Frame, EvalError>)
    ensures
        final(stream).text() == old(stream).text(),
        ({
            let empty = FrameView { stack: Seq::empty(), bindings: Map::empty() };
            let out = spec_run(old(stream).text(), old(stream).position(), empty, None);
            &&& final(stream).position() == out.pos
            &&& match r {
                Ok(frame) => out.fault is None && frame@ == out.frame && frame.wf(),
                Err(e) => out.fault == Some(e@),
            }
        }),
{
    let mut frame = Frame::new();
    match run(stream, &mut frame) {
        Ok(_) => Ok(frame),
        Err(e) => Err(e),
    }
}

/// Evaluates the statements of `source`, in order, against the frame, and
/// returns the value of the last statement that held a token.
pub fn evaluate(source: &str, frame: &mut Frame) -> (r: Result<Option<Object>, EvalError>)
    ensures
        old(frame).wf() ==> final(frame).wf(),
        ({
            let out = spec_run(source@, 0, old(frame)@, None);
            &&& final(frame)@ == out.frame
            &&& match r {
                Ok(value) => out.fault is None && value_view(value) == out.value,
                Err(e) => out.fault == Some(e@),
            }
        }),
{
    let mut stream = Stream::new(source);
    run(&mut stream, frame)
}

} // verus!
