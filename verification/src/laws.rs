//! What holds of the library as a whole, proved from the definitions that
//! its contracts are stated in.

use vstd::prelude::*;
use crate::chars::alpha;
use crate::chars::numeric;
use crate::chars::whitespace;
use crate::error::FatalView;
use crate::grammar::CharClass;
use crate::grammar::in_class;
use crate::grammar::lemma_run_end_unique;
use crate::grammar::run_end;
use crate::grammar::lemma_run_end;
use crate::grammar::spec_next;
use crate::grammar::spec_statement;
use crate::frame::FrameView;
use crate::parser::spec_run;
use crate::parser::assignment_shape;
use crate::parser::done;
use crate::parser::pushed;
use crate::parser::spec_drain;
use crate::parser::spec_eval_from;
use crate::parser::spec_parse_expr;
use crate::parser::spec_parse_from;
use crate::parser::spec_reduce;
use crate::number::spec_parse_number;
use crate::object::spec_binary;
use crate::operator::BinaryOperator;
use crate::operator::spec_exec;
use crate::operator::spec_should_exec;
use crate::error::spec_classify;
use crate::shift::aligned;
use crate::shift::lemma_next_shift;
use crate::shift::lemma_run_shift;
use crate::shift::lemma_statement_shift;
use crate::shift::lemma_parse_from_unpositioned;
use crate::shift::shift_lexed;
use crate::shift::shift_result;
use crate::shift::shift_run;
use crate::grammar::lemma_statement_advances;
use crate::grammar::lemma_next_advances;
use crate::object::ObjErrorView;
use crate::object::ObjectView;
use crate::list::padded;
use crate::object::render;
use crate::object::render_joined;
use crate::object::render_list;
use crate::list::spec_list_get;
use crate::list::spec_list_set;
use crate::object::truthy;
use crate::token::TokenView;

verus! {

/// A character with which a number literal can start: one that may stand
/// in a number, starts no identifier and is no white space. Each of `0` to
/// `9` is one.
pub open spec fn starts_number(c: char) -> bool {
    numeric(c) && !alpha(c) && !whitespace(c)
}

/// Each of `0` to `9` starts a number literal.
pub proof fn law_decimal_digit_starts_number(c: char)
    requires
        '0' <= c <= '9',
    ensures
        starts_number(c),
{
}

/// A digit run is lexed as it is written: where the source starts with a
/// run `d` of digits and underscores, the first of which starts a number,
/// and the run ends where `d` ends, the first token is the number literal
/// whose raw text is `d`, underscores and leading zeros included, and the
/// next token starts right after it.
pub proof fn law_digit_run(d: Seq<char>, rest: Seq<char>)
    requires
        d.len() > 0,
        starts_number(d[0]),
        forall|i: int| 0 <= i < d.len() ==> numeric(#[trigger] d[i]),
        rest.len() > 0 ==> !numeric(rest[0]),
    ensures
        spec_next(d + rest, 0) == Ok::<Option<(TokenView, int)>, FatalView>(
            Some((TokenView::Number(d), d.len() as int)),
        ),
{
    let s = d + rest;
    assert(s[0] == d[0]);
    assert(run_end(s, 0, CharClass::Space) == 0);
    assert forall|i: int| 0 <= i < d.len() implies in_class(CharClass::Numeric, #[trigger] s[i]) by {
        assert(s[i] == d[i]);
    }
    if rest.len() > 0 {
        assert(s[d.len() as int] == rest[0]);
    }
    lemma_run_end_unique(s, 0, d.len() as int, CharClass::Numeric);
    assert(s.subrange(0, d.len() as int) =~= d);
}

/// Indexing a list of `n` elements: the key -1 reads the last element and
/// the key `-n` the first; the keys `-n - 1` and `n` are invalid.
pub proof fn law_list_get(items: Seq<ObjectView>)
    ensures
        items.len() > 0 ==> spec_list_get(items, ObjectView::Number(-1)) == Ok::<
            ObjectView,
            ObjErrorView,
        >(items.last()),
        items.len() > 0 ==> spec_list_get(items, ObjectView::Number(-items.len())) == Ok::<
            ObjectView,
            ObjErrorView,
        >(items.first()),
        spec_list_get(items, ObjectView::Number(-items.len() - 1)) == Err::<
            ObjectView,
            ObjErrorView,
        >(ObjErrorView::InvalidKey(ObjectView::Number(-items.len() - 1))),
        spec_list_get(items, ObjectView::Number(items.len() as int)) == Err::<
            ObjectView,
            ObjErrorView,
        >(ObjErrorView::InvalidKey(ObjectView::Number(items.len() as int))),
{
}

/// Writing at or past the end of a list extends it: with a key `k` that is
/// at least the length `n`, the list has `k + 1` elements afterwards, the
/// first `n` as before, then `Null` up to `k`, and the written value at `k`.
/// The key `n` itself makes the list one longer. A negative key below `-n`
/// is invalid.
pub proof fn law_list_set(items: Seq<ObjectView>, k: int, val: ObjectView)
    requires
        items.len() <= k < usize::MAX,
    ensures
        spec_list_set(items, ObjectView::Number(k), val) matches Ok(after) && {
            &&& after.len() == k + 1
            &&& after[k] == val
            &&& forall|i: int| 0 <= i < items.len() ==> after[i] == items[i]
            &&& forall|i: int| items.len() <= i < k ==> after[i] == ObjectView::Null
        },
        spec_list_set(items, ObjectView::Number(-items.len() - 1), val) == Err::<
            Seq<ObjectView>,
            ObjErrorView,
        >(ObjErrorView::InvalidKey(ObjectView::Number(-items.len() - 1))),
{
    let after = padded(items, k + 1).update(k, val);
    assert(after.len() == k + 1);
}

/// Boolean coercion is total and exhaustive: `Null`, the number zero, the
/// empty text and the empty list are false, a `Boolean` is the truth value
/// it wraps, and every other value of every variant is true.
pub proof fn law_boolean_coercion(v: ObjectView)
    ensures
        !truthy(v) <==> (v == ObjectView::Null || v == ObjectView::Boolean(false) || v
            == ObjectView::Number(0) || v == ObjectView::Text(Seq::empty()) || v
            == ObjectView::List(Seq::empty())),
{
    match v {
        ObjectView::Text(t) => {
            assert(t.len() == 0 <==> t =~= Seq::<char>::empty());
        },
        ObjectView::List(l) => {
            assert(l.len() == 0 <==> l =~= Seq::<ObjectView>::empty());
        },
        _ => {},
    }
}

/// Where the rendering of the `i`-th element starts within the joined
/// renderings of a list's elements.
pub open spec fn joined_offset(items: Seq<ObjectView>, i: int) -> int {
    if i <= 0 {
        0
    } else {
        (render_joined(items, i as nat).len() + 2) as int
    }
}

/// The joined renderings of the first `n` elements hold the rendering of
/// each of them at its offset, and end where the last one ends.
proof fn lemma_joined_holds(items: Seq<ObjectView>, i: int, n: nat)
    requires
        0 <= i < n <= items.len(),
    ensures
        joined_offset(items, i) + render(items[i]).len() <= render_joined(items, n).len(),
        render_joined(items, n).subrange(
            joined_offset(items, i),
            joined_offset(items, i) + render(items[i]).len(),
        ) == render(items[i]),
        render_joined(items, (i + 1) as nat).len() == joined_offset(items, i) + render(
            items[i],
        ).len(),
    decreases n,
{
    reveal_strlit(", ");
    let at = joined_offset(items, i);
    let text = render(items[i]);
    if n == i + 1 {
        if i == 0 {
            assert(render_joined(items, 1).subrange(0, text.len() as int) =~= text);
        } else {
            let whole = render_joined(items, n);
            assert(whole == render_joined(items, i as nat) + ", "@ + text);
            assert(whole.subrange(at, at + text.len()) =~= text);
        }
    } else {
        lemma_joined_holds(items, i, (n - 1) as nat);
        lemma_joined_holds(items, i, (i + 1) as nat);
        let before = render_joined(items, (n - 1) as nat);
        let whole = render_joined(items, n);
        assert(whole == before + ", "@ + render(items[n - 1]));
        assert(whole.subrange(at, at + text.len()) =~= before.subrange(at, at + text.len()));
    }
}

/// The rendering of a list starts with `[`, ends with `]`, and holds the
/// rendering of each element between them, in the order of the elements:
/// that of the `i`-th element stands one past its offset in the joined
/// renderings, and that of a later element starts after it has ended.
pub proof fn law_list_rendering(items: Seq<ObjectView>)
    ensures
        render_list(items).len() >= 2,
        render_list(items).first() == '[',
        render_list(items).last() == ']',
        forall|i: int|
            0 <= i < items.len() ==> #[trigger] render_list(items).subrange(
                1 + joined_offset(items, i),
                1 + joined_offset(items, i) + render(items[i]).len(),
            ) == render(items[i]),
        forall|i: int|
            0 <= i < items.len() ==> 1 + #[trigger] joined_offset(items, i) + render(
                items[i],
            ).len() < render_list(items).len(),
        forall|i: int, j: int|
            0 <= i < j < items.len() ==> #[trigger] joined_offset(items, i) + render(
                items[i],
            ).len() < #[trigger] joined_offset(items, j),
{
    reveal_strlit("[");
    reveal_strlit("]");
    let joined = render_joined(items, items.len());
    let whole = render_list(items);
    assert(whole == "["@ + joined + "]"@);
    assert(whole.len() == joined.len() + 2);
    assert(whole[0] == '[');
    assert(whole[whole.len() - 1] == ']');
    assert forall|i: int| 0 <= i < items.len() implies #[trigger] whole.subrange(
        1 + joined_offset(items, i),
        1 + joined_offset(items, i) + render(items[i]).len(),
    ) == render(items[i]) && 1 + joined_offset(items, i) + render(items[i]).len()
        < whole.len() by {
        lemma_joined_holds(items, i, items.len());
        let at = joined_offset(items, i);
        let text = render(items[i]);
        assert(whole.subrange(1 + at, 1 + at + text.len()) =~= joined.subrange(
            at,
            at + text.len(),
        ));
    }
    assert forall|i: int| 0 <= i < items.len() implies 1 + #[trigger] joined_offset(items, i)
        + render(items[i]).len() < whole.len() by {
        lemma_joined_holds(items, i, items.len());
    }
    assert forall|i: int, j: int| 0 <= i < j < items.len() implies #[trigger] joined_offset(
        items,
        i,
    ) + render(items[i]).len() < #[trigger] joined_offset(items, j) by {
        lemma_joined_holds(items, i, j as nat);
    }
}

/// A comment line followed by a source: `#`, the text of the comment, the
/// newline that ends it, and the source.
pub open spec fn commented(comment: Seq<char>, rest: Seq<char>) -> Seq<char> {
    seq!['#'] + comment + seq!['\n'] + rest
}

/// The first token after a comment line is the first token of the source
/// behind it.
proof fn lemma_comment_line_skipped(comment: Seq<char>, rest: Seq<char>)
    requires
        forall|i: int| 0 <= i < comment.len() ==> comment[i] != '\n',
    ensures
        aligned(commented(comment, rest), rest, comment.len() as int + 2),
        spec_next(commented(comment, rest), 0) == spec_next(
            commented(comment, rest),
            comment.len() as int + 2,
        ),
{
    let s = commented(comment, rest);
    let k: int = comment.len() as int + 2;
    assert(s.len() == rest.len() + k);
    assert(s[0] == '#');
    assert(s[k - 1] == '\n');
    assert forall|i: int| 0 <= i < rest.len() implies s[i + k] == #[trigger] rest[i] by {}
    assert forall|i: int| 1 <= i < k - 1 implies in_class(CharClass::Comment, #[trigger] s[i]) by {
        assert(s[i] == comment[i - 1]);
    }
    lemma_run_end_unique(s, 1, k - 1, CharClass::Comment);
    assert(run_end(s, 0, CharClass::Space) == 0);
    lemma_run_end(s, k, CharClass::Space);
    assert(run_end(s, k - 1, CharClass::Space) == run_end(s, k, CharClass::Space));
    assert(spec_next(s, 0) == spec_next(s, k - 1));
    assert(spec_next(s, k - 1) == spec_next(s, k));
}

/// A comment line changes nothing: a source with a comment line before it
/// is lexed, split into statements and evaluated as the source alone is.
/// The tokens, the frame, the value and the failure are the same; only the
/// positions, that of a failure included, lie further on by the length of
/// the comment line. Where a run ends without a failure, it ends at the
/// same place in both.
pub proof fn law_comment_line(
    comment: Seq<char>,
    rest: Seq<char>,
    f: FrameView,
    value: Option<ObjectView>,
)
    requires
        forall|i: int| 0 <= i < comment.len() ==> comment[i] != '\n',
    ensures
        spec_next(commented(comment, rest), 0) == shift_lexed(
            spec_next(rest, 0),
            comment.len() as int + 2,
        ),
        spec_statement(commented(comment, rest), 0, Seq::empty()) == shift_result(
            spec_statement(rest, 0, Seq::empty()),
            comment.len() as int + 2,
        ),
        ({
            let with = spec_run(commented(comment, rest), 0, f, value);
            let without = shift_run(spec_run(rest, 0, f, value), comment.len() as int + 2);
            &&& with.frame == without.frame
            &&& with.value == without.value
            &&& with.fault == without.fault
            &&& with.fault is None ==> with.pos == without.pos
        }),
{
    let s = commented(comment, rest);
    let k: int = comment.len() as int + 2;
    lemma_comment_line_skipped(comment, rest);
    lemma_next_shift(s, rest, k, 0);
    lemma_next_advances(s, 0);
    lemma_next_advances(s, k);
    lemma_statement_shift(s, rest, k, 0, Seq::empty());
    assert(spec_statement(s, 0, Seq::empty()) == spec_statement(s, k, Seq::empty()));
    lemma_run_shift(s, rest, k, 0, f, value);
    lemma_statement_advances(s, 0, Seq::empty());
    lemma_statement_advances(s, k, Seq::empty());
    if rest.len() == 0 {
        assert(spec_next(rest, 0) == Ok::<Option<(TokenView, int)>, FatalView>(None));
        assert(spec_statement(s, 0, Seq::empty()) == Ok::<(Seq<TokenView>, int), FatalView>(
            (Seq::empty(), s.len() as int),
        ));
        assert(crate::parser::lowered(f, f.stack.len() as int) == f);
    } else {
        match spec_statement(s, k, Seq::empty()) {
            Ok((tokens, j)) => {
                lemma_parse_from_unpositioned(tokens, 0, f);
            },
            Err(_) => {},
        }
    }
    let with = spec_run(s, 0, f, value);
    let ahead = spec_run(s, k, f, value);
    assert(with.frame == ahead.frame && with.value == ahead.value && with.fault == ahead.fault);
    assert(with.fault is None ==> with.pos == ahead.pos);
}

/// The tokens of `a op1 b op2 c`, where `a`, `b` and `c` are number
/// literals.
pub open spec fn two_operators(
    a: Seq<char>,
    op1: BinaryOperator,
    b: Seq<char>,
    op2: BinaryOperator,
    c: Seq<char>,
) -> Seq<TokenView> {
    seq![
        TokenView::Number(a),
        TokenView::Operator(op1),
        TokenView::Number(b),
        TokenView::Operator(op2),
        TokenView::Number(c),
    ]
}

/// What `(x op1 y) op2 z` is, or `x op1 (y op2 z)` where the operators
/// group to the right.
pub open spec fn grouped(
    to_left: bool,
    x: ObjectView,
    op1: BinaryOperator,
    y: ObjectView,
    op2: BinaryOperator,
    z: ObjectView,
) -> Result<ObjectView, ObjErrorView> {
    if to_left {
        match spec_binary(op1.kind, x, y) {
            Ok(v) => spec_binary(op2.kind, v, z),
            Err(e) => Err(e),
        }
    } else {
        match spec_binary(op2.kind, y, z) {
            Ok(v) => spec_binary(op1.kind, x, v),
            Err(e) => Err(e),
        }
    }
}

/// Precedence and associativity decide how two operators group: the
/// expression `a op1 b op2 c` is `(a op1 b) op2 c` where `op1` runs before
/// `op2`, which is where it binds tighter, or as tight and to the left; it
/// is `a op1 (b op2 c)` otherwise. The value is left on top of the stack;
/// a failure of either operation is the failure of the expression.
pub proof fn law_two_operators_group(
    a: Seq<char>,
    op1: BinaryOperator,
    b: Seq<char>,
    op2: BinaryOperator,
    c: Seq<char>,
    f: FrameView,
)
    requires
        spec_parse_number(a) is Some,
        spec_parse_number(b) is Some,
        spec_parse_number(c) is Some,
    ensures
        ({
            let x = ObjectView::Number(spec_parse_number(a).unwrap() as int);
            let y = ObjectView::Number(spec_parse_number(b).unwrap() as int);
            let z = ObjectView::Number(spec_parse_number(c).unwrap() as int);
            let out = spec_parse_expr(two_operators(a, op1, b, op2, c), f);
            match grouped(spec_should_exec(op1, op2), x, op1, y, op2, z) {
                Ok(v) => out == done(pushed(f, v)),
                Err(e) => out.fault == Some(spec_classify(e)),
            }
        }),
{
    let tokens = two_operators(a, op1, b, op2, c);
    let x = ObjectView::Number(spec_parse_number(a).unwrap() as int);
    let y = ObjectView::Number(spec_parse_number(b).unwrap() as int);
    let z = ObjectView::Number(spec_parse_number(c).unwrap() as int);
    let none = Seq::<BinaryOperator>::empty();
    let f1 = pushed(f, x);
    let f2 = pushed(f1, y);
    assert(!assignment_shape(tokens, 0));
    assert(spec_parse_expr(tokens, f) == spec_eval_from(tokens, 0, none, f));
    assert(spec_eval_from(tokens, 0, none, f) == spec_eval_from(tokens, 1, none, f1));
    assert(spec_reduce(none, op1, f1).ops == none);
    assert(none.push(op1) =~= seq![op1]);
    assert(spec_eval_from(tokens, 1, none, f1) == spec_eval_from(tokens, 2, seq![op1], f1));
    assert(spec_eval_from(tokens, 2, seq![op1], f1) == spec_eval_from(tokens, 3, seq![op1], f2));
    assert(f2.stack[f2.stack.len() - 1] == y && f2.stack[f2.stack.len() - 2] == x);
    assert(f2.stack.take(f2.stack.len() - 2) =~= f.stack);
    assert(seq![op1].drop_last() =~= none);
    assert(seq![op2].drop_last() =~= none);
    assert(none.push(op2) =~= seq![op2]);
    assert(spec_drain(none, f) == done(f));
    if spec_should_exec(op1, op2) {
        let first = spec_exec(op1, f2);
        match spec_binary(op1.kind, x, y) {
            Ok(v) => {
                let g1 = pushed(f, v);
                assert(first == done(g1));
                assert(spec_reduce(none, op2, g1).ops == none);
                assert(spec_reduce(seq![op1], op2, f2).ops == none);
                assert(spec_reduce(seq![op1], op2, f2).outcome == done(g1));
                assert(spec_eval_from(tokens, 3, seq![op1], f2) == spec_eval_from(
                    tokens,
                    4,
                    seq![op2],
                    g1,
                ));
                let g2 = pushed(g1, z);
                assert(spec_eval_from(tokens, 4, seq![op2], g1) == spec_eval_from(
                    tokens,
                    5,
                    seq![op2],
                    g2,
                ));
                assert(spec_eval_from(tokens, 5, seq![op2], g2) == spec_drain(seq![op2], g2));
                assert(g2.stack[g2.stack.len() - 1] == z && g2.stack[g2.stack.len() - 2] == v);
                assert(g2.stack.take(g2.stack.len() - 2) =~= f.stack);
                match spec_binary(op2.kind, v, z) {
                    Ok(w) => {
                        assert(spec_exec(op2, g2) == done(pushed(f, w)));
                        assert(spec_drain(none, pushed(f, w)) == done(pushed(f, w)));
                    },
                    Err(_) => {},
                }
            },
            Err(_) => {
                assert(spec_reduce(seq![op1], op2, f2).outcome == first);
            },
        }
    } else {
        assert(spec_reduce(seq![op1], op2, f2).ops == seq![op1]);
        assert(seq![op1].push(op2) =~= seq![op1, op2]);
        assert(spec_eval_from(tokens, 3, seq![op1], f2) == spec_eval_from(
            tokens,
            4,
            seq![op1, op2],
            f2,
        ));
        let f3 = pushed(f2, z);
        assert(spec_eval_from(tokens, 4, seq![op1, op2], f2) == spec_eval_from(
            tokens,
            5,
            seq![op1, op2],
            f3,
        ));
        assert(spec_eval_from(tokens, 5, seq![op1, op2], f3) == spec_drain(seq![op1, op2], f3));
        assert(seq![op1, op2].drop_last() =~= seq![op1]);
        assert(f3.stack[f3.stack.len() - 1] == z && f3.stack[f3.stack.len() - 2] == y);
        assert(f3.stack.take(f3.stack.len() - 2) =~= f1.stack);
        match spec_binary(op2.kind, y, z) {
            Ok(v) => {
                let g = pushed(f1, v);
                assert(spec_exec(op2, f3) == done(g));
                assert(spec_drain(seq![op1, op2], f3) == spec_drain(seq![op1], g));
                assert(g.stack[g.stack.len() - 1] == v && g.stack[g.stack.len() - 2] == x);
                assert(g.stack.take(g.stack.len() - 2) =~= f.stack);
                match spec_binary(op1.kind, x, v) {
                    Ok(w) => {
                        assert(spec_exec(op1, g) == done(pushed(f, w)));
                        assert(spec_drain(none, pushed(f, w)) == done(pushed(f, w)));
                    },
                    Err(_) => {},
                }
            },
            Err(_) => {},
        }
    }
}

/// An assignment is a value: where the statement `name = ...` succeeds,
/// the value of its right side is on top of the stack and is what `name`
/// is bound to, and evaluating `name` in the frame it leaves yields that
/// value again.
pub proof fn law_assignment_binds(tokens: Seq<TokenView>, name: Seq<char>, f: FrameView)
    requires
        assignment_shape(tokens, 0),
        tokens[0] == TokenView::Identifier(name),
    ensures
        ({
            let out = spec_parse_expr(tokens, f);
            out.fault is None ==> {
                &&& out.frame.stack.len() > 0
                &&& out.frame.bindings.contains_key(name)
                &&& out.frame.bindings[name] == out.frame.stack.last()
                &&& spec_parse_expr(seq![TokenView::Identifier(name)], out.frame) == done(
                    pushed(out.frame, out.frame.stack.last()),
                )
            }
        }),
{
    let out = spec_parse_expr(tokens, f);
    if out.fault is None {
        let rhs = spec_parse_from(tokens, 2, f);
        assert(rhs.fault is None);
        let lookup = seq![TokenView::Identifier(name)];
        let none = Seq::<BinaryOperator>::empty();
        let after = pushed(out.frame, out.frame.stack.last());
        assert(!assignment_shape(lookup, 0));
        assert(spec_parse_expr(lookup, out.frame) == spec_eval_from(lookup, 0, none, out.frame));
        assert(spec_eval_from(lookup, 0, none, out.frame) == spec_eval_from(lookup, 1, none, after));
        assert(spec_eval_from(lookup, 1, none, after) == spec_drain(none, after));
    }
}

} // verus!
