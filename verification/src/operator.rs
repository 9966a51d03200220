//! The registry of binary operators.

use vstd::prelude::*;
use crate::error::EvalError;
use crate::error::EvalErrorView;
use crate::error::Fatal;
use crate::error::FatalView;
use crate::error::classify;
use crate::error::spec_classify;
use crate::frame::Frame;
use crate::frame::FrameView;
use crate::object::Oper;
use crate::object::spec_binary;

verus! {

/// An operator: how tightly it binds, to which side equal operators group,
/// and which operation of the object model it performs.
///
/// A lower priority number binds tighter.
#[derive(Clone, Copy, PartialEq, Eq, Debug, Structural)]
pub struct BinaryOperator {
    pub kind: Oper,
    pub priority: u32,
    pub is_left_assoc: bool,
}

/// The operation that a sigil names, if the registry holds the sigil.
pub open spec fn sigil_kind(sigil: Seq<char>) -> Option<Oper> {
    if sigil == seq!['+'] {
        Some(Oper::Add)
    } else if sigil == seq!['-'] {
        Some(Oper::Sub)
    } else if sigil == seq!['*'] {
        Some(Oper::Mul)
    } else if sigil == seq!['/'] {
        Some(Oper::Div)
    } else if sigil == seq!['%'] {
        Some(Oper::Mod)
    } else if sigil == seq!['*', '*'] {
        Some(Oper::Pow)
    } else {
        None
    }
}

/// The registry's entry for an operation, if it has one. Sum and difference
/// bind loosest, then product, quotient and remainder, then the power, which
/// alone groups to the right.
pub open spec fn registry_entry(kind: Oper) -> Option<BinaryOperator> {
    match kind {
        Oper::Add => Some(BinaryOperator { kind, priority: 12, is_left_assoc: true }),
        Oper::Sub => Some(BinaryOperator { kind, priority: 12, is_left_assoc: true }),
        Oper::Mul => Some(BinaryOperator { kind, priority: 11, is_left_assoc: true }),
        Oper::Div => Some(BinaryOperator { kind, priority: 11, is_left_assoc: true }),
        Oper::Mod => Some(BinaryOperator { kind, priority: 11, is_left_assoc: true }),
        Oper::Pow => Some(BinaryOperator { kind, priority: 10, is_left_assoc: false }),
        _ => None,
    }
}

/// The operator that a sigil names, if the registry holds the sigil.
pub open spec fn spec_try_from(sigil: Seq<char>) -> Option<BinaryOperator> {
    match sigil_kind(sigil) {
        Some(kind) => registry_entry(kind),
        None => None,
    }
}

/// The sigil under which the registry holds an operation.
pub open spec fn spec_sigil(kind: Oper) -> Seq<char> {
    match kind {
        Oper::Add => seq!['+'],
        Oper::Sub => seq!['-'],
        Oper::Mul => seq!['*'],
        Oper::Div => seq!['/'],
        Oper::Mod => seq!['%'],
        Oper::Pow => seq!['*', '*'],
        _ => Seq::empty(),
    }
}

/// Whether the operator on top of the stack runs before `incoming` is
/// pushed: it does where it binds tighter than `incoming`, and also where
/// the two bind alike and the top groups to the left.
pub open spec fn spec_should_exec(top: BinaryOperator, incoming: BinaryOperator) -> bool {
    (top.is_left_assoc && top.priority <= incoming.priority) || (!top.is_left_assoc && top.priority
        < incoming.priority)
}

/// Where an evaluation step leaves the frame, and why it stopped if it did.
pub struct Outcome {
    pub frame: FrameView,
    pub fault: Option<EvalErrorView>,
}

/// The outcome that an executable step reports: the frame as it left it,
/// and its failure if it had one.
pub open spec fn outcome_of(frame: FrameView, r: Result<(), EvalError>) -> Outcome {
    Outcome {
        frame,
        fault: match r {
            Ok(()) => None,
            Err(e) => Some(e@),
        },
    }
}

/// What running an operator makes of a frame. With fewer than two operands
/// the frame stays as it is. Otherwise the two topmost operands leave the
/// stack, the upper one as the right operand, and the result of the
/// operation, if it has one, takes their place.
pub open spec fn spec_exec(oper: BinaryOperator, f: FrameView) -> Outcome {
    if f.stack.len() < 2 {
        Outcome {
            frame: f,
            fault: Some(EvalErrorView::Fatal(FatalView::MissingOperand { oper: oper.kind })),
        }
    } else {
        let rhs = f.stack[f.stack.len() - 1];
        let lhs = f.stack[f.stack.len() - 2];
        let rest = f.stack.take(f.stack.len() - 2);
        match spec_binary(oper.kind, lhs, rhs) {
            Ok(val) => Outcome {
                frame: FrameView { stack: rest.push(val), bindings: f.bindings },
                fault: None,
            },
            Err(e) => Outcome {
                frame: FrameView { stack: rest, bindings: f.bindings },
                fault: Some(spec_classify(e)),
            },
        }
    }
}

impl BinaryOperator {
    /// The registry's entry for an operation, if it has one.
    pub fn of(kind: Oper) -> (r: Option<BinaryOperator>)
        ensures
            r == registry_entry(kind),
    {
        match kind {
            Oper::Add => Some(BinaryOperator { kind, priority: 12, is_left_assoc: true }),
            Oper::Sub => Some(BinaryOperator { kind, priority: 12, is_left_assoc: true }),
            Oper::Mul => Some(BinaryOperator { kind, priority: 11, is_left_assoc: true }),
            Oper::Div => Some(BinaryOperator { kind, priority: 11, is_left_assoc: true }),
            Oper::Mod => Some(BinaryOperator { kind, priority: 11, is_left_assoc: true }),
            Oper::Pow => Some(BinaryOperator { kind, priority: 10, is_left_assoc: false }),
            _ => None,
        }
    }

    /// The operator that a sigil names, if the registry holds the sigil.
    pub fn try_from(inp: &str) -> (r: Option<BinaryOperator>)
        ensures
            r == spec_try_from(inp@),
    {
        let n = inp.unicode_len();
        if n == 1 {
            let c = inp.get_char(0);
            assert(inp@ =~= seq![c]);
            if c == '+' {
                Self::of(Oper::Add)
            } else if c == '-' {
                Self::of(Oper::Sub)
            } else if c == '*' {
                Self::of(Oper::Mul)
            } else if c == '/' {
                Self::of(Oper::Div)
            } else if c == '%' {
                Self::of(Oper::Mod)
            } else {
                assert(seq!['+'][0] == '+' && seq!['-'][0] == '-' && seq!['*'][0] == '*' && seq![
                    '/',
                ][0] == '/' && seq!['%'][0] == '%');
                None
            }
        } else if n == 2 {
            let c = inp.get_char(0);
            let d = inp.get_char(1);
            assert(inp@ =~= seq![c, d]);
            if c == '*' && d == '*' {
                Self::of(Oper::Pow)
            } else {
                assert(seq!['*', '*'][0] == '*' && seq!['*', '*'][1] == '*');
                None
            }
        } else {
            None
        }
    }

    /// The sigil under which the registry holds this operator.
    pub fn sigil(&self) -> (s: &'static str)
        ensures
            s@ == spec_sigil(self.kind),
    {
        proof {
            reveal_strlit("+");
            reveal_strlit("-");
            reveal_strlit("*");
            reveal_strlit("/");
            reveal_strlit("%");
            reveal_strlit("**");
            reveal_strlit("");
        }
        let s = match self.kind {
            Oper::Add => "+",
            Oper::Sub => "-",
            Oper::Mul => "*",
            Oper::Div => "/",
            Oper::Mod => "%",
            Oper::Pow => "**",
            _ => "",
        };
        assert(s@ =~= spec_sigil(self.kind));
        s
    }

    /// Whether this operator, on top of the operator stack, runs before
    /// `other` is pushed.
    pub fn should_exec(&self, other: &BinaryOperator) -> (b: bool)
        ensures
            b == spec_should_exec(*self, *other),
    {
        (self.is_left_assoc && self.priority <= other.priority) || (!self.is_left_assoc
            && self.priority < other.priority)
    }

    /// Runs this operator on the two topmost operands of the frame.
    pub fn exec(&self, frame: &mut Frame) -> (r: Result<(), EvalError>)
        ensures
            outcome_of(final(frame)@, r) == spec_exec(*self, old(frame)@),
            old(frame).wf() ==> final(frame).wf(),
    {
        if frame.depth() < 2 {
            return Err(EvalError::Fatal(Fatal::MissingOperand { oper: self.kind }));
        }
        let rhs = match frame.pop() {
            Some(val) => val,
            None => {
                return Err(EvalError::Fatal(Fatal::MissingOperand { oper: self.kind }));
            },
        };
        let lhs = match frame.pop() {
            Some(val) => val,
            None => {
                return Err(EvalError::Fatal(Fatal::MissingOperand { oper: self.kind }));
            },
        };
        assert(frame@.stack =~= old(frame)@.stack.take(old(frame)@.stack.len() - 2));
        match lhs.binary(self.kind, &rhs) {
            Ok(val) => {
                frame.push(val);
                Ok(())
            },
            Err(e) => Err(classify(e)),
        }
    }
}

} // verus!
