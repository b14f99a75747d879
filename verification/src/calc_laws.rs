//! What holds of the calculator's language as a whole.
use vstd::prelude::*;

use crate::calc::{CalcError, Expr, Fault, Op, Tok, Token, Tree};
use crate::calc::{
    char_op, evaluate, fault_text, grouped, is_blank, is_decimal, is_digit, lemma_run_end,
    lexed, minus_is_sign, number_char, op_level, operand_end, reads_as, run_end, tokenize,
    tokens_of, toks_of, tree_of, unsigned_part, valid_literal, verdict, with_sign,
    without_underscores, written,
};
use crate::text::decimal_text;

verus! {

// ── Parentheses ─────────────────────────────────────────────────────────

/// How many more parentheses `s` opens than it closes.
pub open spec fn balance(s: Seq<Tok>) -> int
    decreases s.len(),
{
    if s.len() == 0 {
        0
    } else {
        balance(s.drop_last()) + match s.last() {
            Token::LParen => 1int,
            Token::RParen => -1int,
            _ => 0int,
        }
    }
}

/// Whether an operator stands at `k` outside all parentheses.
pub open spec fn outer_op(s: Seq<Tok>, k: int) -> bool {
    0 <= k < s.len() && s[k] is Op && balance(s.take(k)) == 0
}

proof fn lemma_balance_of_two(a: Seq<Tok>, b: Seq<Tok>)
    ensures
        balance(a + b) == balance(a) + balance(b),
    decreases b.len(),
{
    if b.len() == 0 {
        assert(a + b =~= a);
    } else {
        assert((a + b).drop_last() =~= a + b.drop_last());
        assert((a + b).last() == b.last());
        lemma_balance_of_two(a, b.drop_last());
    }
}

proof fn lemma_balance_of_one(token: Tok)
    ensures
        balance(seq![token]) == match token {
            Token::LParen => 1int,
            Token::RParen => -1int,
            _ => 0int,
        },
{
    assert(seq![token].drop_last() =~= Seq::<Tok>::empty());
    assert(balance(Seq::<Tok>::empty()) == 0);
}

/// Balance of a prefix that reaches past `a`.
proof fn lemma_balance_of_prefix(a: Seq<Tok>, b: Seq<Tok>, k: int)
    requires
        0 <= k <= a.len() + b.len(),
    ensures
        k <= a.len() ==> balance((a + b).take(k)) == balance(a.take(k)),
        k >= a.len() ==> balance((a + b).take(k)) == balance(a) + balance(b.take(k - a.len())),
{
    if k <= a.len() {
        assert((a + b).take(k) =~= a.take(k));
    }
    if k >= a.len() {
        assert((a + b).take(k) =~= a + b.take(k - a.len()));
        lemma_balance_of_two(a, b.take(k - a.len()));
    }
}

/// The parentheses of a written tree match, and outside them stand only operators that the
/// tree's level admits.
proof fn lemma_outline(tree: Tree, level: nat)
    requires
        grouped(tree, level),
    ensures
        written(tree).len() > 0,
        balance(written(tree)) == 0,
        forall|k: int|
            0 <= k <= written(tree).len() ==> #[trigger] balance(written(tree).take(k)) >= 0,
        forall|k: int| #[trigger]
            outer_op(written(tree), k) ==> op_level(written(tree)[k]->Op_0) >= level,
    decreases tree,
{
    let s = written(tree);
    match tree {
        Expr::Num(literal) => {
            lemma_balance_of_one(Token::Num(literal));
            assert forall|k: int| 0 <= k <= s.len() implies #[trigger] balance(s.take(k)) >= 0 by {
                if k == 0 {
                    assert(s.take(k) =~= Seq::<Tok>::empty());
                } else {
                    assert(s.take(k) =~= s);
                }
            }
        },
        Expr::Neg(operand) => {
            let sign = seq![Token::<Seq<char>>::Neg];
            let body = written(*operand);
            lemma_outline(*operand, 2);
            lemma_balance_of_one(Token::Neg);
            lemma_balance_of_two(sign, body);
            assert forall|k: int| 0 <= k <= s.len() implies #[trigger] balance(s.take(k)) >= 0 && (k
                > 0 ==> balance(s.take(k)) == balance(body.take(k - 1))) by {
                lemma_balance_of_prefix(sign, body, k);
                if k == 0 {
                    assert(sign.take(0) =~= Seq::<Tok>::empty());
                } else {
                    assert(balance(body.take(k - 1)) >= 0);
                }
            }
            assert forall|k: int| #[trigger] outer_op(s, k) implies op_level(s[k]->Op_0) >= level by {
                assert(k > 0);
                assert(outer_op(body, k - 1));
            }
        },
        Expr::Group(inner) => {
            let body = written(*inner);
            let open = seq![Token::<Seq<char>>::LParen];
            let close = seq![Token::<Seq<char>>::RParen];
            lemma_outline(*inner, 0);
            lemma_balance_of_one(Token::LParen);
            lemma_balance_of_one(Token::RParen);
            lemma_balance_of_two(open, body);
            lemma_balance_of_two(open + body, close);
            assert forall|k: int| 0 <= k <= s.len() implies #[trigger] balance(s.take(k)) >= 0 && (
            0 < k < s.len() ==> balance(s.take(k)) >= 1) by {
                lemma_balance_of_prefix(open + body, close, k);
                if k <= open.len() + body.len() {
                    lemma_balance_of_prefix(open, body, k);
                    if k == 0 {
                        assert(open.take(0) =~= Seq::<Tok>::empty());
                    } else {
                        assert(balance(body.take(k - 1)) >= 0);
                    }
                } else {
                    assert(s.take(k) =~= s);
                }
            }
            assert forall|k: int| #[trigger] outer_op(s, k) implies op_level(s[k]->Op_0) >= level by {
                assert(balance(s.take(k)) == 0);
                assert(k == 0);
                assert(s[0] is LParen);
            }
        },
        Expr::Binary(op, left, right) => {
            let (l, r) = (written(*left), written(*right));
            lemma_operands(tree, level, op, *left, *right);
            assert forall|k: int| 0 <= k <= s.len() implies #[trigger] balance(s.take(k)) >= 0 by {
                let middle = seq![Token::<Seq<char>>::Op(op)];
                lemma_balance_of_one(Token::Op(op));
                lemma_balance_of_two(l, middle);
                lemma_balance_of_prefix(l + middle, r, k);
                if k <= l.len() + 1 {
                    lemma_balance_of_prefix(l, middle, k);
                    if k <= l.len() {
                        assert(balance(l.take(k)) >= 0);
                    } else {
                        assert(middle.take(1) =~= middle);
                    }
                } else {
                    assert(balance(r.take(k - l.len() - 1)) >= 0);
                }
            }
        },
    }
}

/// The outer operators of a binary tree are those of its operands and the one between them.
proof fn lemma_operands(tree: Tree, level: nat, op: Op, left: Tree, right: Tree)
    requires
        tree == Expr::Binary(op, Box::new(left), Box::new(right)),
        grouped(tree, level),
    ensures
        written(left).len() > 0,
        written(right).len() > 0,
        balance(written(tree)) == 0,
        balance(written(left)) == 0,
        balance(written(right)) == 0,
        forall|k: int|
            0 <= k <= written(left).len() ==> #[trigger] balance(written(left).take(k)) >= 0,
        forall|k: int|
            0 <= k <= written(right).len() ==> #[trigger] balance(written(right).take(k)) >= 0,
        outer_op(written(tree), written(left).len() as int),
        written(tree)[written(left).len() as int] == Token::<Seq<char>>::Op(op),
        forall|k: int| #[trigger]
            outer_op(written(tree), k) ==> op_level(written(tree)[k]->Op_0) >= op_level(op),
        forall|k: int|
            k < written(left).len() && #[trigger] outer_op(written(tree), k) ==> if op is Pow {
                false
            } else {
                op_level(written(tree)[k]->Op_0) >= op_level(op)
            },
        forall|k: int|
            k > written(left).len() && #[trigger] outer_op(written(tree), k) ==> if op is Pow {
                op_level(written(tree)[k]->Op_0) >= 2
            } else {
                op_level(written(tree)[k]->Op_0) >= op_level(op) + 1
            },
    decreases tree, 0int,
{
    let s = written(tree);
    let (l, r) = (written(left), written(right));
    let middle = seq![Token::<Seq<char>>::Op(op)];
    let (left_level, right_level) = if op is Pow {
        (3nat, 2nat)
    } else {
        (op_level(op), op_level(op) + 1)
    };
    assert(grouped(left, left_level) && grouped(right, right_level));
    lemma_outline(left, left_level);
    lemma_outline(right, right_level);
    lemma_balance_of_one(Token::Op(op));
    lemma_balance_of_two(l, middle);
    lemma_balance_of_two(l + middle, r);
    let p = l.len() as int;
    assert(s[p] == middle[0]);
    assert(s.take(p) =~= l);
    assert forall|k: int| #[trigger] outer_op(s, k) implies {
        &&& k < p ==> outer_op(l, k) && s[k] == l[k]
        &&& k > p ==> outer_op(r, k - p - 1) && s[k] == r[k - p - 1]
    } by {
        lemma_balance_of_prefix(l + middle, r, k);
        if k < p {
            lemma_balance_of_prefix(l, middle, k);
        }
    }
}

/// An expression reads in one way only: two trees that group as the language does and are
/// written with the same tokens are the same tree.
pub proof fn law_one_reading(a: Tree, b: Tree, level: nat)
    requires
        grouped(a, level),
        grouped(b, level),
        written(a) == written(b),
    ensures
        a == b,
    decreases a,
{
    let s = written(a);
    lemma_outline(a, level);
    match a {
        Expr::Num(literal) => {
            lemma_not_binary(b, level, s);
            assert(s[0] == written(b)[0]);
        },
        Expr::Group(inner) => {
            assert(grouped(a, 3));
            lemma_outline(a, 3);
            assert forall|k: int| !outer_op(s, k) by {}
            assert(s[0] is LParen);
            match b {
                Expr::Binary(op, left, right) => {
                    lemma_operands(b, level, op, *left, *right);
                    assert(outer_op(s, written(*left).len() as int));
                },
                Expr::Num(_) => {
                    assert(written(b)[0] is Num);
                },
                Expr::Neg(_) => {
                    assert(written(b)[0] is Neg);
                },
                Expr::Group(other) => {
                    assert(written(*inner) =~= s.subrange(1, s.len() - 1));
                    assert(written(*other) =~= s.subrange(1, s.len() - 1));
                    law_one_reading(*inner, *other, 0);
                },
            }
        },
        Expr::Neg(operand) => {
            assert(s[0] is Neg);
            match b {
                Expr::Neg(other) => {
                    assert(written(*operand) =~= s.skip(1));
                    assert(written(*other) =~= s.skip(1));
                    law_one_reading(*operand, *other, 2);
                },
                Expr::Binary(op, left, right) => {
                    lemma_sign_is_no_binary(a, b, level);
                },
                _ => {
                    assert(!(written(b)[0] is Neg));
                },
            }
        },
        Expr::Binary(op, left, right) => {
            lemma_operands(a, level, op, *left, *right);
            let p = written(*left).len() as int;
            match b {
                Expr::Neg(_) => {
                    lemma_sign_is_no_binary(b, a, level);
                },
                Expr::Binary(op2, left2, right2) => {
                    lemma_operands(b, level, op2, *left2, *right2);
                    let q = written(*left2).len() as int;
                    assert(outer_op(s, p) && outer_op(s, q));
                    assert(op_level(op) == op_level(op2));
                    assert(p == q);
                    assert(written(*left) =~= s.take(p));
                    assert(written(*left2) =~= s.take(p));
                    assert(written(*right) =~= s.skip(p + 1));
                    assert(written(*right2) =~= s.skip(p + 1));
                    if op is Pow {
                        law_one_reading(*left, *left2, 3);
                        law_one_reading(*right, *right2, 2);
                    } else {
                        law_one_reading(*left, *left2, op_level(op));
                        law_one_reading(*right, *right2, op_level(op) + 1);
                    }
                },
                _ => {
                    assert(grouped(b, 3));
                    lemma_outline(b, 3);
                    assert(outer_op(written(b), p));
                },
            }
        },
    }
}

/// A signed operand and a binary tree are written with different tokens.
proof fn lemma_sign_is_no_binary(a: Tree, b: Tree, level: nat)
    requires
        a is Neg,
        b is Binary,
        grouped(a, level),
        grouped(b, level),
    ensures
        written(a) != written(b),
{
    if written(a) == written(b) {
        let (op, left, right) = (b->Binary_0, *b->Binary_1, *b->Binary_2);
        assert(grouped(a, 2));
        lemma_outline(a, 2);
        lemma_operands(b, level, op, left, right);
        assert(outer_op(written(a), written(left).len() as int));
        assert(op is Pow);
        assert(written(a)[0] is Neg);
        assert(written(b)[0] == written(left)[0]);
        assert(grouped(left, 3));
        assert(!(written(left)[0] is Neg));
    }
}

proof fn lemma_not_binary(b: Tree, level: nat, s: Seq<Tok>)
    requires
        grouped(b, level),
        written(b) == s,
        s.len() == 1,
        s[0] is Num,
    ensures
        b is Num,
{
    match b {
        Expr::Num(_) => {},
        Expr::Group(_) => {
            assert(s[0] is LParen);
        },
        Expr::Neg(_) => {
            assert(s[0] is Neg);
        },
        Expr::Binary(op, left, right) => {
            lemma_operands(b, level, op, *left, *right);
        },
    }
}

/// Powers group to the right: `a ^ b ^ c` is `a ^ (b ^ c)`, whatever the operands.
pub proof fn law_powers_group_to_the_right(a: Tree, b: Tree, c: Tree, tree: Tree)
    requires
        grouped(a, 3),
        grouped(b, 3),
        grouped(c, 2),
        grouped(tree, 0),
        written(tree) == written(a) + seq![Token::Op(Op::Pow)] + written(b) + seq![
            Token::Op(Op::Pow),
        ] + written(c),
    ensures
        tree == Expr::Binary(
            Op::Pow,
            Box::new(a),
            Box::new(Expr::Binary(Op::Pow, Box::new(b), Box::new(c))),
        ),
{
    let inner = Expr::Binary(Op::Pow, Box::new(b), Box::new(c));
    let whole = Expr::Binary(Op::Pow, Box::new(a), Box::new(inner));
    reveal_with_fuel(written, 3);
    reveal_with_fuel(grouped, 3);
    assert(written(whole) =~= written(tree));
    law_one_reading(tree, whole, 0);
}

/// Operators of one level below the powers group to the left: `a - b + c` is `(a - b) + c`, and
/// `a / b * c` is `(a / b) * c`.
pub proof fn law_sums_and_products_group_to_the_left(
    first: Op,
    second: Op,
    a: Tree,
    b: Tree,
    c: Tree,
    tree: Tree,
)
    requires
        op_level(first) == op_level(second) <= 1,
        grouped(a, op_level(first)),
        grouped(b, op_level(first) + 1),
        grouped(c, op_level(first) + 1),
        grouped(tree, 0),
        written(tree) == written(a) + seq![Token::Op(first)] + written(b) + seq![
            Token::Op(second),
        ] + written(c),
    ensures
        tree == Expr::Binary(
            second,
            Box::new(Expr::Binary(first, Box::new(a), Box::new(b))),
            Box::new(c),
        ),
{
    let inner = Expr::Binary(first, Box::new(a), Box::new(b));
    let whole = Expr::Binary(second, Box::new(inner), Box::new(c));
    reveal_with_fuel(written, 3);
    reveal_with_fuel(grouped, 3);
    assert(written(whole) =~= written(tree));
    law_one_reading(tree, whole, 0);
}

/// A tighter operator on the right is applied first: `a + b * c` is `a + (b * c)`, and
/// `a * b ^ c` is `a * (b ^ c)`.
pub proof fn law_tighter_operators_come_first(
    loose: Op,
    tight: Op,
    a: Tree,
    b: Tree,
    c: Tree,
    tree: Tree,
)
    requires
        op_level(loose) < op_level(tight),
        grouped(a, op_level(loose)),
        if tight is Pow {
            grouped(b, 3) && grouped(c, 2)
        } else {
            grouped(b, op_level(tight)) && grouped(c, op_level(tight) + 1)
        },
        grouped(tree, 0),
        written(tree) == written(a) + seq![Token::Op(loose)] + written(b) + seq![
            Token::Op(tight),
        ] + written(c),
    ensures
        tree == Expr::Binary(
            loose,
            Box::new(a),
            Box::new(Expr::Binary(tight, Box::new(b), Box::new(c))),
        ),
{
    let inner = Expr::Binary(tight, Box::new(b), Box::new(c));
    let whole = Expr::Binary(loose, Box::new(a), Box::new(inner));
    reveal_with_fuel(written, 3);
    reveal_with_fuel(grouped, 3);
    assert(written(whole) =~= written(tree));
    law_one_reading(tree, whole, 0);
}

/// A sign behind an operator turns the whole operand that follows: `a * -b` is `a * (-b)`, and
/// `a - -b ^ c` is `a - (-(b ^ c))`.
pub proof fn law_signs_turn_the_operand(op: Op, a: Tree, b: Tree, tree: Tree)
    requires
        if op is Pow {
            grouped(a, 3)
        } else {
            grouped(a, op_level(op))
        },
        grouped(b, 2),
        grouped(tree, 0),
        written(tree) == written(a) + seq![Token::Op(op)] + seq![Token::Neg] + written(b),
    ensures
        tree == Expr::Binary(op, Box::new(a), Box::new(Expr::Neg(Box::new(b)))),
{
    let signed = Expr::Neg(Box::new(b));
    let whole = Expr::Binary(op, Box::new(a), Box::new(signed));
    reveal_with_fuel(written, 3);
    reveal_with_fuel(grouped, 3);
    assert(written(whole) =~= written(tree));
    law_one_reading(tree, whole, 0);
}

/// Only texts that no tree is written as are refused: the tokens of every tree are accepted.
pub proof fn law_written_trees_are_accepted(tree: Tree)
    ensures
        verdict(written(tree)) == Ok::<(), Fault>(()),
{
    let t = written(tree);
    assert(t.subrange(0, t.len() as int) =~= t);
    lemma_accepted_inside(t, 0, tree, t.len() as int, 0);
}

proof fn lemma_accepted_inside(t: Seq<Tok>, from: int, tree: Tree, to: int, depth: nat)
    requires
        0 <= from <= to <= t.len(),
        t.subrange(from, to) == written(tree),
    ensures
        from < to,
        operand_end(t, from, depth, true, 0) == operand_end(t, to, depth, false, 0),
    decreases tree,
{
    let s = t.subrange(from, to);
    assert(s.len() == to - from);
    match tree {
        Expr::Num(_) => {
            assert(s[0] == t[from]);
        },
        Expr::Neg(operand) => {
            assert(s[0] == t[from]);
            assert(t.subrange(from + 1, to) =~= s.skip(1));
            assert(s.skip(1) =~= written(*operand));
            lemma_accepted_inside(t, from + 1, *operand, to, depth);
        },
        Expr::Group(inner) => {
            assert(s[0] == t[from]);
            assert(s[s.len() - 1] == t[to - 1]);
            assert(t.subrange(from + 1, to - 1) =~= s.subrange(1, s.len() - 1));
            assert(s.subrange(1, s.len() - 1) =~= written(*inner));
            lemma_accepted_inside(t, from + 1, *inner, to - 1, depth + 1);
        },
        Expr::Binary(op, left, right) => {
            let p = from + written(*left).len();
            assert(s[p - from] == t[p]);
            assert(t.subrange(from, p) =~= s.subrange(0, p - from));
            assert(s.subrange(0, p - from) =~= written(*left));
            assert(t.subrange(p + 1, to) =~= s.subrange(p + 1 - from, s.len() as int));
            assert(s.subrange(p + 1 - from, s.len() as int) =~= written(*right));
            lemma_accepted_inside(t, from, *left, p, depth);
            lemma_accepted_inside(t, p + 1, *right, to, depth);
        },
    }
}

// ── Tokens ──────────────────────────────────────────────────────────────

/// Whether each number among the tokens is a valid literal.
pub open spec fn numbers_valid(t: Seq<Tok>) -> bool {
    forall|k: int| 0 <= k < t.len() ==> (#[trigger] t[k] matches Token::Num(l) ==> valid_literal(l))
}

/// Every number that the calculator hands out is a valid literal.
pub proof fn law_numbers_are_valid(s: Seq<char>)
    ensures
        tokens_of(s) matches Ok(t) ==> numbers_valid(t),
{
    lemma_numbers_valid(s, 0, Seq::empty());
}

proof fn lemma_numbers_valid(s: Seq<char>, i: int, before: Seq<Tok>)
    requires
        0 <= i <= s.len(),
        numbers_valid(before),
    ensures
        lexed(s, i, before) matches Ok(t) ==> numbers_valid(t),
    decreases s.len() - i,
{
    if i < s.len() {
        lemma_run_end(s, i);
        lemma_run_end(s, i + 1);
        let zero = seq!['0'];
        assert(is_digit(unsigned_part(zero)[0]));
        assert(valid_literal(zero));
        let c = s[i];
        if is_blank(c) {
            lemma_numbers_valid(s, i + 1, before);
        } else if is_digit(c) || c == '.' {
            let literal = without_underscores(s.subrange(i, run_end(s, i)));
            if valid_literal(literal) {
                lemma_numbers_valid(s, run_end(s, i), before.push(Token::Num(literal)));
            }
        } else if c == '-' && minus_is_sign(before) {
            let digits = without_underscores(s.subrange(i + 1, run_end(s, i + 1)));
            if digits.len() == 0 {
                lemma_numbers_valid(s, run_end(s, i + 1), with_sign(before));
            } else if valid_literal(seq!['-'] + digits) {
                lemma_numbers_valid(
                    s,
                    run_end(s, i + 1),
                    before.push(Token::Num(seq!['-'] + digits)),
                );
            }
        } else if c == '*' && i + 1 < s.len() && s[i + 1] == '*' {
            lemma_numbers_valid(s, i + 2, before.push(Token::Op(Op::Pow)));
        } else if char_op(c) is Some {
            lemma_numbers_valid(
                s,
                i + 1,
                before.push(Token::Op(char_op(c)->0)),
            );
        } else if c == '(' {
            lemma_numbers_valid(s, i + 1, before.push(Token::LParen));
        } else if c == ')' {
            lemma_numbers_valid(s, i + 1, before.push(Token::RParen));
        }
    }
}

/// White space around an expression does not matter.
pub proof fn law_surrounding_blanks_do_not_matter(
    before: Seq<char>,
    s: Seq<char>,
    after: Seq<char>,
)
    requires
        forall|k: int| 0 <= k < before.len() ==> is_blank(#[trigger] before[k]),
        forall|k: int| 0 <= k < after.len() ==> is_blank(#[trigger] after[k]),
    ensures
        tokens_of(before + s + after) == tokens_of(s),
{
    let u = before + s;
    if after.len() > 0 {
        lemma_followed(u, 0, after, Seq::empty());
        if let Ok(t) = tokens_of(u) {
            lemma_only_blanks(u + after, u.len() as int, t);
        }
    } else {
        assert(u + after =~= u);
    }
    lemma_blanks_before(before, s, 0);
}

proof fn lemma_blanks_before(before: Seq<char>, s: Seq<char>, k: int)
    requires
        0 <= k <= before.len(),
        forall|k: int| 0 <= k < before.len() ==> is_blank(#[trigger] before[k]),
    ensures
        lexed(before + s, k, Seq::empty()) == tokens_of(s),
    decreases before.len() - k,
{
    if k < before.len() {
        assert((before + s)[k] == before[k]);
        lemma_blanks_before(before, s, k + 1);
    } else {
        lemma_shifted(before, s, 0, Seq::empty());
    }
}

proof fn lemma_run_shifted(p: Seq<char>, s: Seq<char>, i: int)
    requires
        0 <= i <= s.len(),
    ensures
        run_end(p + s, p.len() + i) == p.len() + run_end(s, i),
    decreases s.len() - i,
{
    if i < s.len() {
        assert((p + s)[p.len() + i] == s[i]);
        if number_char(s[i]) {
            lemma_run_shifted(p, s, i + 1);
        }
    }
}

/// Reading goes by what lies ahead alone.
proof fn lemma_shifted(p: Seq<char>, s: Seq<char>, i: int, toks: Seq<Tok>)
    requires
        0 <= i <= s.len(),
    ensures
        lexed(p + s, p.len() + i, toks) == lexed(s, i, toks),
    decreases s.len() - i,
{
    let u = p + s;
    let n = p.len() as int;
    if i < s.len() {
        let c = s[i];
        assert(u[n + i] == c);
        lemma_run_end(s, i);
        lemma_run_end(s, i + 1);
        lemma_run_shifted(p, s, i);
        lemma_run_shifted(p, s, i + 1);
        if is_blank(c) {
            lemma_shifted(p, s, i + 1, toks);
        } else if is_digit(c) || c == '.' {
            let e = run_end(s, i);
            assert(u.subrange(n + i, n + e) =~= s.subrange(i, e));
            let literal = without_underscores(s.subrange(i, e));
            lemma_shifted(p, s, e, toks.push(Token::Num(literal)));
        } else if c == '-' && minus_is_sign(toks) {
            let e = run_end(s, i + 1);
            assert(u.subrange(n + i + 1, n + e) =~= s.subrange(i + 1, e));
            let digits = without_underscores(s.subrange(i + 1, e));
            lemma_shifted(p, s, e, with_sign(toks));
            lemma_shifted(p, s, e, toks.push(Token::Num(seq!['-'] + digits)));
        } else {
            if i + 1 < s.len() {
                assert(u[n + i + 1] == s[i + 1]);
            }
            if c == '*' && i + 1 < s.len() && s[i + 1] == '*' {
                lemma_shifted(p, s, i + 2, toks.push(Token::Op(Op::Pow)));
            } else if char_op(c) is Some {
                lemma_shifted(p, s, i + 1, toks.push(Token::Op(char_op(c)->0)));
            } else {
                lemma_shifted(p, s, i + 1, toks.push(Token::LParen));
                lemma_shifted(p, s, i + 1, toks.push(Token::RParen));
            }
        }
    }
}

proof fn lemma_only_blanks(s: Seq<char>, i: int, toks: Seq<Tok>)
    requires
        0 <= i <= s.len(),
        forall|k: int| i <= k < s.len() ==> is_blank(#[trigger] s[k]),
    ensures
        lexed(s, i, toks) == Ok::<Seq<Tok>, Fault>(toks),
    decreases s.len() - i,
{
    if i < s.len() {
        lemma_only_blanks(s, i + 1, toks);
    }
}

proof fn lemma_run_followed(s: Seq<char>, i: int, after: Seq<char>)
    requires
        0 <= i <= s.len(),
        after.len() > 0,
        !number_char(after[0]),
    ensures
        run_end(s + after, i) == run_end(s, i),
    decreases s.len() - i,
{
    if i < s.len() {
        assert((s + after)[i] == s[i]);
        if number_char(s[i]) {
            lemma_run_followed(s, i + 1, after);
        }
    } else {
        assert((s + after)[i] == after[0]);
    }
}

/// What follows a text is read on after it, unless it could belong to its last token.
proof fn lemma_followed(s: Seq<char>, i: int, after: Seq<char>, toks: Seq<Tok>)
    requires
        0 <= i <= s.len(),
        after.len() > 0,
        !number_char(after[0]),
        after[0] != '*',
    ensures
        lexed(s + after, i, toks) == match lexed(s, i, toks) {
            Ok(t) => lexed(s + after, s.len() as int, t),
            Err(fault) => Err(fault),
        },
    decreases s.len() - i,
{
    let u = s + after;
    if i < s.len() {
        let c = s[i];
        assert(u[i] == c);
        lemma_run_end(s, i);
        lemma_run_end(s, i + 1);
        lemma_run_followed(s, i, after);
        lemma_run_followed(s, i + 1, after);
        if is_blank(c) {
            lemma_followed(s, i + 1, after, toks);
        } else if is_digit(c) || c == '.' {
            let e = run_end(s, i);
            assert(u.subrange(i, e) =~= s.subrange(i, e));
            let literal = without_underscores(s.subrange(i, e));
            lemma_followed(s, e, after, toks.push(Token::Num(literal)));
        } else if c == '-' && minus_is_sign(toks) {
            let e = run_end(s, i + 1);
            assert(u.subrange(i + 1, e) =~= s.subrange(i + 1, e));
            let digits = without_underscores(s.subrange(i + 1, e));
            lemma_followed(s, e, after, with_sign(toks));
            lemma_followed(s, e, after, toks.push(Token::Num(seq!['-'] + digits)));
        } else {
            if i + 1 < s.len() {
                assert(u[i + 1] == s[i + 1]);
            } else {
                assert(u[i + 1] == after[0]);
            }
            if c == '*' && i + 1 < s.len() && s[i + 1] == '*' {
                lemma_followed(s, i + 2, after, toks.push(Token::Op(Op::Pow)));
            } else if char_op(c) is Some {
                lemma_followed(s, i + 1, after, toks.push(Token::Op(char_op(c)->0)));
            } else {
                lemma_followed(s, i + 1, after, toks.push(Token::LParen));
                lemma_followed(s, i + 1, after, toks.push(Token::RParen));
            }
        }
    }
}

/// Tokens in front do not matter where they end in an open parenthesis.
proof fn lemma_behind_parenthesis(s: Seq<char>, i: int, front: Seq<Tok>, toks: Seq<Tok>)
    requires
        0 <= i <= s.len(),
        front.len() > 0,
        front.last() is LParen,
    ensures
        lexed(s, i, front + toks) == match lexed(s, i, toks) {
            Ok(t) => Ok(front + t),
            Err(fault) => Err(fault),
        },
    decreases s.len() - i,
{
    let all = front + toks;
    if i < s.len() {
        let c = s[i];
        lemma_run_end(s, i);
        lemma_run_end(s, i + 1);
        assert(toks.len() > 0 ==> all.last() == toks.last());
        assert(toks.len() == 0 ==> all =~= front);
        assert forall|token: Tok| #[trigger] all.push(token) == front + toks.push(token) by {
            assert(all.push(token) =~= front + toks.push(token));
        }
        assert(with_sign(all) =~= front + with_sign(toks));
        if is_blank(c) {
            lemma_behind_parenthesis(s, i + 1, front, toks);
        } else if is_digit(c) || c == '.' {
            let e = run_end(s, i);
            let literal = without_underscores(s.subrange(i, e));
            lemma_behind_parenthesis(s, e, front, toks.push(Token::Num(literal)));
        } else if c == '-' && minus_is_sign(toks) {
            let e = run_end(s, i + 1);
            let digits = without_underscores(s.subrange(i + 1, e));
            lemma_behind_parenthesis(s, e, front, with_sign(toks));
            lemma_behind_parenthesis(s, e, front, toks.push(Token::Num(seq!['-'] + digits)));
        } else if c == '*' && i + 1 < s.len() && s[i + 1] == '*' {
            lemma_behind_parenthesis(s, i + 2, front, toks.push(Token::Op(Op::Pow)));
        } else if char_op(c) is Some {
            lemma_behind_parenthesis(s, i + 1, front, toks.push(Token::Op(char_op(c)->0)));
        } else {
            lemma_behind_parenthesis(s, i + 1, front, toks.push(Token::LParen));
            lemma_behind_parenthesis(s, i + 1, front, toks.push(Token::RParen));
        }
    }
}

/// A text in parentheses.
pub open spec fn parenthesized(s: Seq<char>) -> Seq<char> {
    seq!['('] + s + seq![')']
}

/// An arithmetic: what literals stand for, and what operators and signs do.
#[verifier::reject_recursive_types(V)]
pub struct Arithmetic<V> {
    pub number: spec_fn(Seq<char>) -> V,
    pub apply: spec_fn(Op, V, V) -> V,
    pub negate: spec_fn(V) -> V,
}

/// The value of a tree in an arithmetic. Parentheses only group.
pub open spec fn value_in<V>(tree: Tree, arithmetic: Arithmetic<V>) -> V
    decreases tree,
{
    match tree {
        Expr::Num(literal) => (arithmetic.number)(literal),
        Expr::Neg(operand) => (arithmetic.negate)(value_in(*operand, arithmetic)),
        Expr::Binary(op, left, right) => (arithmetic.apply)(
            op,
            value_in(*left, arithmetic),
            value_in(*right, arithmetic),
        ),
        Expr::Group(inner) => value_in(*inner, arithmetic),
    }
}

/// Parentheses around an expression do not change its value, whatever the arithmetic: the text in
/// parentheses is read as the same tree in parentheses.
pub proof fn law_parentheses_keep_the_value<V>(
    s: Seq<char>,
    tree: Tree,
    arithmetic: Arithmetic<V>,
)
    requires
        reads_as(s, Ok(tree)),
    ensures
        reads_as(parenthesized(s), Ok(Expr::Group(Box::new(tree)))),
        value_in(Expr::Group(Box::new(tree)), arithmetic) == value_in(tree, arithmetic),
{
    let t = written(tree);
    let open = seq![Token::<Seq<char>>::LParen];
    let inner = seq!['('] + s;
    let whole = parenthesized(s);
    assert(inner[0] == '(');
    assert(Seq::<Tok>::empty().push(Token::LParen) =~= open);
    assert(tokens_of(inner) == lexed(inner, 1, open));
    lemma_shifted(seq!['('], s, 0, open);
    lemma_behind_parenthesis(s, 0, open, Seq::empty());
    assert(open + Seq::<Tok>::empty() =~= open);
    lemma_followed(inner, 0, seq![')'], Seq::empty());
    assert(whole[inner.len() as int] == ')');
    assert((open + t).push(Token::RParen) =~= written(Expr::Group(Box::new(tree))));
    assert(lexed(whole, inner.len() as int, open + t) == lexed(
        whole,
        inner.len() as int + 1,
        (open + t).push(Token::RParen),
    ));
    law_written_trees_are_accepted(Expr::Group(Box::new(tree)));
}

/// A text in which a caret writes each power that two stars wrote, taken from the left.
pub open spec fn with_carets(s: Seq<char>) -> Seq<char>
    decreases s.len(),
{
    if s.len() == 0 {
        s
    } else if s.len() > 1 && s[0] == '*' && s[1] == '*' {
        seq!['^'] + with_carets(s.skip(2))
    } else {
        seq![s[0]] + with_carets(s.skip(1))
    }
}

/// Two stars and a caret write the same operator: a text and the text with carets have the same
/// tokens, or the same fault.
pub proof fn law_two_stars_are_a_caret(s: Seq<char>)
    ensures
        tokens_of(with_carets(s)) == tokens_of(s),
{
    lemma_carets(s, Seq::empty());
}

/// A text is read on from `n` as what follows there is read alone.
proof fn lemma_rest(s: Seq<char>, n: int, toks: Seq<Tok>)
    requires
        0 <= n <= s.len(),
    ensures
        lexed(s, n, toks) == lexed(s.skip(n), 0, toks),
{
    assert(s.take(n) + s.skip(n) =~= s);
    lemma_shifted(s.take(n), s.skip(n), 0, toks);
}

/// The front of a text up to `n`, where it holds no star, stays as it is.
proof fn lemma_front_stays(s: Seq<char>, n: int)
    requires
        0 <= n <= s.len(),
        forall|k: int| 0 <= k < n ==> #[trigger] s[k] != '*',
    ensures
        with_carets(s) == s.take(n) + with_carets(s.skip(n)),
    decreases n,
{
    if n == 0 {
        assert(s.skip(0) =~= s);
        assert(s.take(0) + with_carets(s) =~= with_carets(s));
    } else {
        let rest = s.skip(1);
        assert forall|k: int| 0 <= k < n - 1 implies #[trigger] rest[k] != '*' by {
            assert(rest[k] == s[k + 1]);
        }
        lemma_front_stays(rest, n - 1);
        assert(rest.skip(n - 1) =~= s.skip(n));
        assert(seq![s[0]] + (rest.take(n - 1) + with_carets(s.skip(n))) =~= s.take(n) + with_carets(
            s.skip(n),
        ));
    }
}

/// The run of number characters at `i` is the same in both texts.
proof fn lemma_run_of_carets(s: Seq<char>, i: int)
    requires
        0 <= i <= 1,
        i <= s.len(),
        i == 1 ==> s[0] == '-',
    ensures
        run_end(with_carets(s), i) == run_end(s, i),
        with_carets(s) == s.take(run_end(s, i)) + with_carets(s.skip(run_end(s, i))),
{
    let e = run_end(s, i);
    lemma_run_end(s, i);
    lemma_run_holds(s, i);
    lemma_front_stays(s, e);
    let rest = with_carets(s.skip(e));
    let front = s.take(e);
    let u = front + rest;
    assert(e < s.len() ==> rest.len() > 0 && !number_char(rest[0])) by {
        if e < s.len() {
            assert(s.skip(e)[0] == s[e]);
        }
    }
    lemma_same_run(s, u, i, e);
}

/// A run holds only number characters, and ends at a character that is none.
proof fn lemma_run_holds(s: Seq<char>, i: int)
    requires
        0 <= i <= s.len(),
    ensures
        forall|k: int| i <= k < run_end(s, i) ==> number_char(#[trigger] s[k]),
        run_end(s, i) < s.len() ==> !number_char(s[run_end(s, i)]),
    decreases s.len() - i,
{
    if i < s.len() && number_char(s[i]) {
        lemma_run_holds(s, i + 1);
    }
}

proof fn lemma_same_run(s: Seq<char>, u: Seq<char>, i: int, e: int)
    requires
        0 <= i <= e <= s.len(),
        e <= u.len(),
        e == run_end(s, i),
        forall|k: int| i <= k < e ==> #[trigger] u[k] == s[k],
        e < u.len() ==> !number_char(u[e]),
    ensures
        run_end(u, i) == e,
    decreases e - i,
{
    lemma_run_end(s, i);
    if i < e {
        lemma_run_holds(s, i);
        assert(number_char(s[i]) && u[i] == s[i]);
        lemma_same_run(s, u, i + 1, e);
    }
}

proof fn lemma_carets(s: Seq<char>, toks: Seq<Tok>)
    ensures
        lexed(with_carets(s), 0, toks) == lexed(s, 0, toks),
    decreases s.len(),
{
    if s.len() > 0 {
        let u = with_carets(s);
        let c = s[0];
        lemma_run_end(s, 0);
        lemma_run_end(s, 1);
        if c == '*' && s.len() > 1 && s[1] == '*' {
            let next = toks.push(Token::Op(Op::Pow));
            assert(u[0] == '^');
            assert(u.skip(1) =~= with_carets(s.skip(2)));
            lemma_rest(u, 1, next);
            lemma_rest(s, 2, next);
            lemma_carets(s.skip(2), next);
        } else if is_digit(c) || c == '.' {
            let e = run_end(s, 0);
            lemma_run_of_carets(s, 0);
            assert(u[0] == s.take(e)[0]);
            assert(u.subrange(0, e) =~= s.subrange(0, e));
            let next = toks.push(Token::Num(without_underscores(s.subrange(0, e))));
            assert(u.skip(e) =~= with_carets(s.skip(e)));
            lemma_rest(u, e, next);
            lemma_rest(s, e, next);
            lemma_carets(s.skip(e), next);
        } else if c == '-' && minus_is_sign(toks) {
            let e = run_end(s, 1);
            lemma_run_of_carets(s, 1);
            assert(u[0] == s.take(e)[0]);
            assert(u.subrange(1, e) =~= s.subrange(1, e));
            let digits = without_underscores(s.subrange(1, e));
            assert(u.skip(e) =~= with_carets(s.skip(e)));
            let number = toks.push(Token::Num(seq!['-'] + digits));
            lemma_rest(u, e, number);
            lemma_rest(s, e, number);
            lemma_carets(s.skip(e), number);
            lemma_rest(u, e, with_sign(toks));
            lemma_rest(s, e, with_sign(toks));
            lemma_carets(s.skip(e), with_sign(toks));
        } else {
            let rest = with_carets(s.skip(1));
            assert(u[0] == c);
            assert(u.skip(1) =~= rest);
            assert(c == '*' && u.len() > 1 ==> u[1] != '*') by {
                if u.len() > 1 {
                    assert(u[1] == rest[0]);
                    assert(s.len() > 1);
                    assert(s.skip(1)[0] == s[1]);
                }
            }
            let next = if is_blank(c) {
                toks
            } else if char_op(c) is Some {
                toks.push(Token::Op(char_op(c)->0))
            } else if c == '(' {
                toks.push(Token::LParen)
            } else {
                toks.push(Token::RParen)
            };
            lemma_rest(u, 1, next);
            lemma_rest(s, 1, next);
            lemma_carets(s.skip(1), next);
        }
    }
}

// ── How expressions are written ─────────────────────────────────────────

/// The characters of a text that are no underscores.
pub open spec fn digits_of(word: Seq<char>) -> Seq<char> {
    word.filter(|c: char| c != '_')
}

proof fn lemma_without_underscores(s: Seq<char>)
    ensures
        without_underscores(s) == digits_of(s),
    decreases s.len(),
{
    reveal(Seq::filter);
    if s.len() > 0 {
        lemma_without_underscores(s.drop_last());
    }
}

/// A run that reaches up to `e` ends there.
proof fn lemma_run_reaches(s: Seq<char>, i: int, e: int)
    requires
        0 <= i <= e <= s.len(),
        forall|k: int| i <= k < e ==> number_char(#[trigger] s[k]),
        e < s.len() ==> !number_char(s[e]),
    ensures
        run_end(s, i) == e,
    decreases e - i,
{
    if i < e {
        assert(number_char(s[i]));
        lemma_run_reaches(s, i + 1, e);
    }
}

/// A run of digits, points and underscores is read as one number: exactly its digits and points, in
/// order, none left out and none added. Where they make no decimal, the run is refused, and the
/// fault names them.
pub proof fn law_numbers_keep_their_digits(run: Seq<char>)
    requires
        run.len() > 0,
        run[0] != '_',
        forall|i: int|
            0 <= i < run.len() ==> ('0' <= #[trigger] run[i] && run[i] <= '9') || run[i] == '.'
                || run[i] == '_',
    ensures
        tokens_of(run) == if is_decimal(digits_of(run)) {
            Ok::<Seq<Tok>, Fault>(seq![Token::Num(digits_of(run))])
        } else {
            Err(CalcError::InvalidNumber(digits_of(run)))
        },
        !run.contains('_') ==> digits_of(run) == run,
{
    let n = run.len() as int;
    assert forall|k: int| 0 <= k < n implies number_char(#[trigger] run[k]) by {}
    lemma_run_reaches(run, 0, n);
    assert(run.subrange(0, n) =~= run);
    lemma_without_underscores(run);
    let literal = digits_of(run);
    if literal.len() > 0 {
        run.lemma_filter_pred(|c: char| c != '_', 0);
        run.lemma_filter_contains_rev(|c: char| c != '_', literal[0]);
        assert(literal[0] != '-');
    }
    assert(unsigned_part(literal) == literal);
    let only = Seq::<Tok>::empty().push(Token::Num(literal));
    assert(only =~= seq![Token::Num(literal)]);
    assert(lexed(run, n, only) == Ok::<Seq<Tok>, Fault>(only));
    if !run.contains('_') {
        lemma_nothing_left_out(run);
    }
}

proof fn lemma_nothing_left_out(s: Seq<char>)
    requires
        !s.contains('_'),
    ensures
        digits_of(s) == s,
    decreases s.len(),
{
    reveal(Seq::filter);
    if s.len() > 0 {
        assert(s[s.len() - 1] != '_');
        assert forall|c: char| s.drop_last().contains(c) implies s.contains(c) by {
            let k = s.drop_last().index_of(c);
            assert(s[k] == c);
        }
        lemma_nothing_left_out(s.drop_last());
        assert(s.drop_last().push(s.last()) =~= s);
    }
}

/// Whether a text is a way to write a token. A number may have underscores anywhere behind its
/// first character, and a power is a caret or two stars.
pub open spec fn spells(word: Seq<char>, token: Tok) -> bool {
    match token {
        Token::Num(literal) => {
            &&& valid_literal(literal)
            &&& digits_of(word) == literal
            &&& word.len() > 0 && word[0] != '_'
            &&& forall|i: int|
                0 <= i < word.len() ==> ('0' <= #[trigger] word[i] && word[i] <= '9') || word[i]
                    == '.' || word[i] == '_' || (i == 0 && word[i] == '-')
        },
        Token::Op(Op::Add) => word == seq!['+'],
        Token::Op(Op::Sub) => word == seq!['-'],
        Token::Op(Op::Mul) => word == seq!['*'],
        Token::Op(Op::Div) => word == seq!['/'],
        Token::Op(Op::Pow) => word == seq!['^'] || word == seq!['*', '*'],
        Token::LParen => word == seq!['('],
        Token::RParen => word == seq![')'],
        Token::Neg => false,
    }
}

/// A word of an expression with the white space in front of it.
pub struct Word {
    pub gap: Seq<char>,
    pub text: Seq<char>,
}

/// Words one after another.
pub open spec fn spelled(words: Seq<Word>) -> Seq<char>
    decreases words.len(),
{
    if words.len() == 0 {
        Seq::empty()
    } else {
        words[0].gap + words[0].text + spelled(words.skip(1))
    }
}

/// Whether these words write these tokens, with nothing but white space between them.
pub open spec fn words_of(words: Seq<Word>, tokens: Seq<Tok>) -> bool {
    &&& words.len() == tokens.len()
    &&& forall|i: int| 0 <= i < words.len() ==> spells((#[trigger] words[i]).text, tokens[i])
    &&& forall|i: int, k: int|
        0 <= i < words.len() && 0 <= k < words[i].gap.len() ==> (#[trigger] words[i].gap[k]) == ' '
            || words[i].gap[k] == '\t' || words[i].gap[k] == '\n'
}

/// Whether a token can stand behind another: an operator behind an operand, a number or an opened
/// parenthesis where an operand is due.
pub open spec fn may_follow(before: Option<Tok>, token: Tok) -> bool {
    let operand_ends = before matches Some(last) && (last is Num || last is RParen);
    match token {
        Token::Num(_) | Token::LParen => !operand_ends,
        Token::Op(_) | Token::RParen => operand_ends,
        Token::Neg => false,
    }
}

/// Whether the token at `i` can stand behind the one before it.
pub open spec fn follows(tokens: Seq<Tok>, i: int) -> bool {
    may_follow(
        if i == 0 {
            None
        } else {
            Some(tokens[i - 1])
        },
        tokens[i],
    )
}

/// Whether each token can stand behind the one before it.
pub open spec fn in_turn(tokens: Seq<Tok>) -> bool {
    forall|i: int| 0 <= i < tokens.len() ==> #[trigger] follows(tokens, i)
}

proof fn lemma_gap_is_skipped(gap: Seq<char>, s: Seq<char>, k: int, toks: Seq<Tok>)
    requires
        0 <= k <= gap.len(),
        forall|j: int| 0 <= j < gap.len() ==> is_blank(#[trigger] gap[j]),
    ensures
        lexed(gap + s, k, toks) == lexed(s, 0, toks),
    decreases gap.len() - k,
{
    if k < gap.len() {
        assert((gap + s)[k] == gap[k]);
        lemma_gap_is_skipped(gap, s, k + 1, toks);
    } else {
        lemma_shifted(gap, s, 0, toks);
    }
}

/// What stands first in a text of words: white space, or the first character of a word.
proof fn lemma_first_character(words: Seq<Word>, tokens: Seq<Tok>)
    requires
        words_of(words, tokens),
        words.len() > 0,
    ensures
        words[0].text.len() > 0,
        spelled(words).len() > 0,
        words[0].gap.len() > 0 ==> is_blank(spelled(words)[0]),
        words[0].gap.len() == 0 ==> spelled(words)[0] == words[0].text[0],
{
    assert(spells(words[0].text, tokens[0]));
    if words[0].gap.len() > 0 {
        assert(spelled(words)[0] == words[0].gap[0]);
        assert(is_blank(words[0].gap[0]));
    }
}

proof fn lemma_words_are_read(words: Seq<Word>, tokens: Seq<Tok>, before: Seq<Tok>)
    requires
        words_of(words, tokens),
        forall|i: int|
            before.len() <= i < before.len() + tokens.len() ==> #[trigger] follows(
                before + tokens,
                i,
            ),
    ensures
        lexed(spelled(words), 0, before) == Ok::<Seq<Tok>, Fault>(before + tokens),
    decreases words.len(),
{
    if words.len() == 0 {
        assert(before + tokens =~= before);
    } else {
        let (gap, word, token) = (words[0].gap, words[0].text, tokens[0]);
        let later = words.skip(1);
        let rest = spelled(later);
        let s = word + rest;
        let all = before + tokens;
        let next = before.push(token);
        let n = word.len() as int;
        assert(spelled(words) =~= gap + s);
        assert forall|k: int| 0 <= k < gap.len() implies is_blank(#[trigger] gap[k]) by {
            assert(is_blank(words[0].gap[k]));
        }
        lemma_gap_is_skipped(gap, s, 0, before);
        assert(spells(words[0].text, tokens[0]));
        assert(next + tokens.skip(1) =~= all);
        assert(follows(all, before.len() as int));
        assert(all[before.len() as int] == token);
        assert(before.len() > 0 ==> all[before.len() - 1] == before.last());
        assert(words_of(later, tokens.skip(1))) by {
            assert forall|i: int| 0 <= i < later.len() implies spells(
                (#[trigger] later[i]).text,
                tokens.skip(1)[i],
            ) by {
                assert(spells(words[i + 1].text, tokens[i + 1]));
            }
            assert forall|i: int, k: int|
                0 <= i < later.len() && 0 <= k < later[i].gap.len() implies (
            #[trigger] later[i].gap[k]) == ' ' || later[i].gap[k] == '\t' || later[i].gap[k]
                == '\n' by {
                assert(is_blank(words[i + 1].gap[k]));
            }
        }
        lemma_words_are_read(later, tokens.skip(1), next);
        if later.len() > 0 {
            lemma_first_character(later, tokens.skip(1));
            assert(follows(all, before.len() as int + 1));
            assert(all[before.len() as int + 1] == tokens[1]);
            assert(spells(words[1].text, tokens[1]));
            assert(rest[0] == s[n]);
        }
        assert(s.skip(n) =~= rest);
        lemma_rest(s, n, next);
        assert(s[0] == word[0]);
        match token {
            Token::Num(literal) => {
                lemma_number_is_read(word, rest, literal, before);
            },
            Token::Op(Op::Pow) => {
                if word.len() > 1 {
                    assert(s[1] == word[1]);
                }
            },
            Token::Op(op) => {
                assert(char_op(word[0]) == Some(op));
            },
            _ => {},
        }
    }
}

/// A word for a number is read as that number where an operand is due.
proof fn lemma_number_is_read(word: Seq<char>, rest: Seq<char>, literal: Seq<char>, before: Seq<Tok>)
    requires
        spells(word, Token::Num(literal)),
        minus_is_sign(before),
        rest.len() > 0 ==> !number_char(rest[0]),
    ensures
        lexed(word + rest, 0, before) == lexed(
            word + rest,
            word.len() as int,
            before.push(Token::Num(literal)),
        ),
{
    let s = word + rest;
    let n = word.len() as int;
    assert(s[0] == word[0]);
    assert(n < s.len() ==> s[n] == rest[0]);
    if word[0] == '-' {
        let run = word.skip(1);
        assert forall|k: int| 1 <= k < n implies number_char(#[trigger] s[k]) by {
            assert(s[k] == word[k]);
        }
        lemma_run_reaches(s, 1, n);
        assert(s.subrange(1, n) =~= run);
        lemma_without_underscores(run);
        let kept = |c: char| c != '_';
        assert(word =~= seq!['-'] + run);
        Seq::filter_distributes_over_add(seq!['-'], run, kept);
        assert(seq!['-'].filter(kept) =~= seq!['-']) by {
            reveal_with_fuel(Seq::filter, 2);
        }
        assert(literal == seq!['-'] + digits_of(run));
        assert(unsigned_part(literal) =~= digits_of(run));
    } else {
        assert forall|k: int| 0 <= k < n implies number_char(#[trigger] s[k]) by {
            assert(s[k] == word[k]);
        }
        lemma_run_reaches(s, 0, n);
        assert(s.subrange(0, n) =~= word);
        lemma_without_underscores(word);
    }
}

/// What is written is what is read, however it is spaced: a text of words has exactly the tokens
/// that its words write, in order.
pub proof fn law_words_are_read_as_written(words: Seq<Word>, tokens: Seq<Tok>)
    requires
        words_of(words, tokens),
        in_turn(tokens),
    ensures
        tokens_of(spelled(words)) == Ok::<Seq<Tok>, Fault>(tokens),
{
    assert(Seq::<Tok>::empty() + tokens =~= tokens);
    lemma_words_are_read(words, tokens, Seq::empty());
}

/// Whether no sign turns an operand anywhere in a tree.
pub open spec fn without_signs(tree: Tree) -> bool
    decreases tree,
{
    match tree {
        Expr::Num(_) => true,
        Expr::Neg(_) => false,
        Expr::Binary(_, left, right) => without_signs(*left) && without_signs(*right),
        Expr::Group(inner) => without_signs(*inner),
    }
}

proof fn lemma_written_in_turn(tree: Tree)
    requires
        without_signs(tree),
    ensures
        written(tree).len() > 0,
        in_turn(written(tree)),
        written(tree)[0] is Num || written(tree)[0] is LParen,
        written(tree).last() is Num || written(tree).last() is RParen,
    decreases tree,
{
    let t = written(tree);
    match tree {
        Expr::Num(_) => {
            assert forall|i: int| 0 <= i < t.len() implies #[trigger] follows(t, i) by {}
        },
        Expr::Neg(_) => {},
        Expr::Group(inner) => {
            let body = written(*inner);
            lemma_written_in_turn(*inner);
            assert forall|i: int| 0 <= i < t.len() implies #[trigger] follows(t, i) by {
                if 0 < i < t.len() - 1 {
                    assert(follows(body, i - 1));
                    assert(t[i] == body[i - 1]);
                    if i > 1 {
                        assert(t[i - 1] == body[i - 2]);
                    }
                } else if i > 0 {
                    assert(t[i - 1] == body.last());
                }
            }
        },
        Expr::Binary(op, left, right) => {
            let (l, r) = (written(*left), written(*right));
            lemma_written_in_turn(*left);
            lemma_written_in_turn(*right);
            let p = l.len() as int;
            assert(t[p] == Token::<Seq<char>>::Op(op));
            assert forall|i: int| 0 <= i < t.len() implies #[trigger] follows(t, i) by {
                if i < p {
                    assert(follows(l, i));
                    assert(t[i] == l[i]);
                    if i > 0 {
                        assert(t[i - 1] == l[i - 1]);
                    }
                } else if i == p {
                    assert(t[i - 1] == l.last());
                } else {
                    assert(follows(r, i - p - 1));
                    assert(t[i] == r[i - p - 1]);
                    if i > p + 1 {
                        assert(t[i - 1] == r[i - p - 2]);
                    }
                }
            }
            assert(t[0] == l[0]);
            assert(t.last() == r.last());
        },
    }
}

/// An expression is read as the tree that it writes, and as no other: whatever numbers, operators
/// and parentheses a tree is made of, and however many, a text of words for them has that tree as
/// its one reading.
pub proof fn law_expressions_are_read_as_written(tree: Tree, words: Seq<Word>, reading: Tree)
    requires
        without_signs(tree),
        grouped(tree, 0),
        words_of(words, written(tree)),
    ensures
        reads_as(spelled(words), Ok(tree)),
        reads_as(spelled(words), Ok(reading)) ==> reading == tree,
        forall|fault: Fault| !#[trigger] reads_as(spelled(words), Err(fault)),
{
    lemma_written_in_turn(tree);
    law_words_are_read_as_written(words, written(tree));
    law_written_trees_are_accepted(tree);
    if reads_as(spelled(words), Ok(reading)) {
        law_one_reading(tree, reading, 0);
    }
}

/// A minus sign before a parenthesis turns the whole parenthesis. Where a summand begins, what
/// stands in parentheses is subtracted from zero; behind any other operator the sign belongs to the
/// operand. What stands in front and inside is read as it is without the sign.
pub proof fn law_signs_turn_parentheses(words: Seq<Word>, front: Seq<Tok>, u: Seq<char>, t: Seq<Tok>)
    requires
        words_of(words, front),
        in_turn(front),
        front.len() > 0 ==> front.last() is Op || front.last() is LParen,
        tokens_of(seq!['('] + u) == Ok::<Seq<Tok>, Fault>(t),
    ensures
        tokens_of(spelled(words) + seq!['-', '('] + u) == Ok::<Seq<Tok>, Fault>(
            front + if front.len() == 0 || front.last() is LParen || front.last() == Token::<
                Seq<char>,
            >::Op(Op::Add) {
                seq![Token::Num(seq!['0']), Token::Op(Op::Sub)]
            } else {
                seq![Token::Neg]
            } + t,
        ),
{
    let open = seq![Token::<Seq<char>>::LParen];
    let plain = seq!['('] + u;
    let after = seq!['-', '('] + u;
    let text = spelled(words) + after;
    let none = Seq::<Tok>::empty();
    assert(spelled(words) + seq!['-', '('] + u =~= text);
    law_words_are_read_as_written(words, front);
    assert(after[0] == '-');
    lemma_followed(spelled(words), 0, after, none);
    lemma_rest(text, spelled(words).len() as int, front);
    assert(text.skip(spelled(words).len() as int) =~= after);
    assert(lexed(text, 0, none) == lexed(after, 0, front));
    lemma_run_reaches(after, 1, 1);
    assert(after.subrange(1, 1) =~= Seq::<char>::empty());
    lemma_without_underscores(Seq::<char>::empty());
    assert(without_underscores(Seq::<char>::empty()).len() == 0);
    let signed = with_sign(front);
    assert(lexed(after, 0, front) == lexed(after, 1, signed));
    assert(after[1] == '(');
    let opened = signed.push(Token::LParen);
    assert(lexed(after, 1, signed) == lexed(after, 2, opened));
    lemma_rest(after, 2, opened);
    assert(after.skip(2) =~= u);
    lemma_behind_parenthesis(u, 0, opened, none);
    assert(opened + none =~= opened);
    assert(plain[0] == '(');
    assert(none.push(Token::LParen) =~= open);
    assert(tokens_of(plain) == lexed(plain, 1, open));
    lemma_rest(plain, 1, open);
    assert(plain.skip(1) =~= u);
    lemma_behind_parenthesis(u, 0, open, none);
    assert(open + none =~= open);
    let inside = lexed(u, 0, none)->Ok_0;
    assert(t == open + inside);
    assert(opened + inside =~= front + if front.len() == 0 || front.last() is LParen
        || front.last() == Token::<Seq<char>>::Op(Op::Add) {
        seq![Token::Num(seq!['0']), Token::Op(Op::Sub)]
    } else {
        seq![Token::Neg]
    } + t);
}

/// Whether a character can stand in an expression at all.
pub open spec fn belongs(c: char) -> bool {
    ||| '0' <= c && c <= '9'
    ||| c == '.' || c == '_' || c == ' ' || c == '\t' || c == '\n'
    ||| c == '+' || c == '-' || c == '*' || c == '/' || c == '^' || c == '(' || c == ')'
}

/// A text with a character that belongs to no expression is refused. One that is refused for a
/// character holds it, and it belongs to no expression, or is an underscore that follows no digit.
pub proof fn law_strange_characters_are_refused(s: Seq<char>, i: int)
    requires
        0 <= i < s.len(),
    ensures
        !belongs(s[i]) ==> tokens_of(s) is Err,
        tokens_of(s) matches Err(CalcError::UnexpectedCharacter(c)) ==> s.contains(c) && (
        !belongs(c) || c == '_'),
{
    lemma_strange_characters(s, 0, i, Seq::empty());
}

proof fn lemma_strange_characters(s: Seq<char>, from: int, i: int, toks: Seq<Tok>)
    requires
        0 <= from <= s.len(),
        0 <= i < s.len(),
    ensures
        from <= i && !belongs(s[i]) ==> lexed(s, from, toks) is Err,
        lexed(s, from, toks) matches Err(CalcError::UnexpectedCharacter(c)) ==> s.contains(c) && (
        !belongs(c) || c == '_'),
    decreases s.len() - from,
{
    if from < s.len() {
        let c = s[from];
        lemma_run_end(s, from);
        lemma_run_end(s, from + 1);
        lemma_run_holds(s, from);
        lemma_run_holds(s, from + 1);
        if is_blank(c) {
            lemma_strange_characters(s, from + 1, i, toks);
        } else if is_digit(c) || c == '.' {
            let e = run_end(s, from);
            let literal = without_underscores(s.subrange(from, e));
            assert(from <= i < e ==> number_char(s[i]));
            lemma_strange_characters(s, e, i, toks.push(Token::Num(literal)));
        } else if c == '-' && minus_is_sign(toks) {
            let e = run_end(s, from + 1);
            let digits = without_underscores(s.subrange(from + 1, e));
            assert(from < i < e ==> number_char(s[i]));
            lemma_strange_characters(s, e, i, with_sign(toks));
            lemma_strange_characters(s, e, i, toks.push(Token::Num(seq!['-'] + digits)));
        } else if c == '*' && from + 1 < s.len() && s[from + 1] == '*' {
            lemma_strange_characters(s, from + 2, i, toks.push(Token::Op(Op::Pow)));
        } else if char_op(c) is Some {
            lemma_strange_characters(s, from + 1, i, toks.push(Token::Op(char_op(c)->0)));
        } else if c == '(' {
            lemma_strange_characters(s, from + 1, i, toks.push(Token::LParen));
        } else if c == ')' {
            lemma_strange_characters(s, from + 1, i, toks.push(Token::RParen));
        } else {
            assert(s.contains(c));
        }
    }
}

/// An operand ends or fails at `p` by what stands up to there, and no later. Up to there nothing is
/// wrong yet.
proof fn lemma_end_goes_by_the_front(
    t: Seq<Tok>,
    u: Seq<Tok>,
    k: int,
    depth: nat,
    due: bool,
    p: int,
)
    requires
        0 <= k <= t.len() <= usize::MAX,
        k <= p < t.len(),
        p <= u.len(),
        operand_end(t, k, depth, due, 0) == Err::<int, Fault>(CalcError::UnexpectedToken(p as usize))
            || operand_end(t, k, depth, due, 0) == Ok::<int, Fault>(p),
        forall|j: int| 0 <= j < p ==> #[trigger] u[j] == t[j],
        p < u.len() ==> u[p] == t[p],
    ensures
        p < u.len() ==> operand_end(u, k, depth, due, 0) == operand_end(t, k, depth, due, 0),
        p == u.len() ==> operand_end(u, k, depth, due, 0) == if operand_end(
            t,
            k,
            depth,
            due,
            0,
        ) is Ok {
            Ok::<int, Fault>(p)
        } else {
            Err::<int, Fault>(CalcError::UnexpectedEnd)
        },
    decreases t.len() - k,
{
    if k < t.len() {
        if k < p {
            assert(u[k] == t[k]);
        }
        match t[k] {
            Token::Num(_) if due => {
                lemma_end_in_range(t, k + 1, depth, false);
                lemma_end_goes_by_the_front(t, u, k + 1, depth, false, p);
            },
            Token::LParen if due => {
                lemma_end_in_range(t, k + 1, depth + 1, true);
                lemma_end_goes_by_the_front(t, u, k + 1, depth + 1, true, p);
            },
            Token::Neg if due => {
                lemma_end_in_range(t, k + 1, depth, true);
                lemma_end_goes_by_the_front(t, u, k + 1, depth, true, p);
            },
            Token::Op(_) if !due => {
                lemma_end_in_range(t, k + 1, depth, true);
                lemma_end_goes_by_the_front(t, u, k + 1, depth, true, p);
            },
            Token::RParen if !due && depth > 0 => {
                lemma_end_in_range(t, k + 1, (depth - 1) as nat, false);
                lemma_end_goes_by_the_front(t, u, k + 1, (depth - 1) as nat, false, p);
            },
            _ => {},
        }
    }
}

/// A fault at a token is at the first one that no expression can have there: what stands before it
/// is an expression or the front of one, and whatever follows it the fault stays the same.
pub proof fn law_faults_are_at_the_first_wrong_token(t: Seq<Tok>, p: usize, other: Seq<Tok>)
    requires
        t.len() <= usize::MAX,
        verdict(t) == Err::<(), Fault>(CalcError::UnexpectedToken(p)),
    ensures
        p < t.len(),
        verdict(t.take(p as int)) == Ok::<(), Fault>(()) || verdict(t.take(p as int)) == Err::<
            (),
            Fault,
        >(CalcError::UnexpectedEnd),
        verdict(t.take(p as int + 1) + other) == Err::<(), Fault>(CalcError::UnexpectedToken(p)),
{
    lemma_end_in_range(t, 0, 0, true);
    let at = p as int;
    lemma_end_goes_by_the_front(t, t.take(at), 0, 0, true, at);
    lemma_end_goes_by_the_front(t, t.take(at + 1) + other, 0, 0, true, at);
}

proof fn lemma_end_in_range(t: Seq<Tok>, k: int, depth: nat, due: bool)
    requires
        0 <= k <= t.len() <= usize::MAX,
    ensures
        match operand_end(t, k, depth, due, 0) {
            Ok(to) => k <= to <= t.len(),
            Err(CalcError::UnexpectedToken(p)) => k <= p < t.len(),
            _ => true,
        },
    decreases t.len() - k,
{
    if k < t.len() {
        match t[k] {
            Token::Num(_) if due => lemma_end_in_range(t, k + 1, depth, false),
            Token::LParen if due => lemma_end_in_range(t, k + 1, depth + 1, true),
            Token::Neg if due => lemma_end_in_range(t, k + 1, depth, true),
            Token::Op(_) if !due => lemma_end_in_range(t, k + 1, depth, true),
            Token::RParen if !due && depth > 0 => lemma_end_in_range(
                t,
                k + 1,
                (depth - 1) as nat,
                false,
            ),
            _ => {},
        }
    }
}

/// The text of a fault names what is wrong: the literal, the character or the position.
pub proof fn law_faults_name_what_is_wrong(fault: Fault)
    ensures
        match fault {
            CalcError::InvalidNumber(literal) => literal.is_suffix_of(fault_text(fault)),
            CalcError::UnexpectedCharacter(c) => fault_text(fault).last() == c,
            CalcError::UnexpectedToken(p) => decimal_text(p as nat).is_suffix_of(fault_text(fault)),
            _ => true,
        },
{
    match fault {
        CalcError::InvalidNumber(literal) => {
            let text = fault_text(fault);
            assert(text.subrange(text.len() - literal.len(), text.len() as int) =~= literal);
        },
        CalcError::UnexpectedToken(p) => {
            let text = fault_text(fault);
            let shown = decimal_text(p as nat);
            assert(text.subrange(text.len() - shown.len(), text.len() as int) =~= shown);
        },
        _ => {},
    }
}

/// Digits with at most one point among them are a number, however many there are, with a minus sign
/// in front or without, and they are read as that number.
pub proof fn law_decimals_are_numbers(whole: Seq<char>, fraction: Seq<char>)
    requires
        forall|i: int| 0 <= i < whole.len() ==> '0' <= #[trigger] whole[i] && whole[i] <= '9',
        forall|i: int|
            0 <= i < fraction.len() ==> '0' <= #[trigger] fraction[i] && fraction[i] <= '9',
    ensures
        whole.len() > 0 ==> {
            &&& tokens_of(whole) == Ok::<Seq<Tok>, Fault>(seq![Token::Num(whole)])
            &&& tokens_of(seq!['-'] + whole) == Ok::<Seq<Tok>, Fault>(
                seq![Token::Num(seq!['-'] + whole)],
            )
        },
        whole.len() + fraction.len() > 0 ==> {
            let number = whole + seq!['.'] + fraction;
            &&& tokens_of(number) == Ok::<Seq<Tok>, Fault>(seq![Token::Num(number)])
            &&& tokens_of(seq!['-'] + number) == Ok::<Seq<Tok>, Fault>(
                seq![Token::Num(seq!['-'] + number)],
            )
        },
{
    let number = whole + seq!['.'] + fraction;
    if whole.len() > 0 {
        assert(is_digit(whole[0]));
        lemma_decimal_is_read(whole);
        if fraction.len() == 0 {
            assert(is_digit(number[0]));
        }
    }
    if whole.len() + fraction.len() > 0 {
        if whole.len() > 0 {
            assert(number[0] == whole[0]);
        } else {
            assert(number[1] == fraction[0]);
        }
        let at = whole.len() as int;
        assert forall|i: int| 0 <= i < number.len() implies is_digit(#[trigger] number[i])
            || number[i] == '.' by {
            if i < at {
                assert(number[i] == whole[i]);
            } else if i > at {
                assert(number[i] == fraction[i - at - 1]);
            }
        }
        assert forall|i: int, j: int|
            #![trigger number[i], number[j]]
            0 <= i < j < number.len() implies !(number[i] == '.' && number[j] == '.') by {
            if i < at {
                assert(number[i] == whole[i]);
            }
            if j > at {
                assert(number[j] == fraction[j - at - 1]);
            }
        }
        lemma_decimal_is_read(number);
    }
}

proof fn lemma_decimal_is_read(number: Seq<char>)
    requires
        is_decimal(number),
    ensures
        tokens_of(number) == Ok::<Seq<Tok>, Fault>(seq![Token::Num(number)]),
        tokens_of(seq!['-'] + number) == Ok::<Seq<Tok>, Fault>(
            seq![Token::Num(seq!['-'] + number)],
        ),
{
    let signed = seq!['-'] + number;
    assert forall|i: int| 0 <= i < number.len() implies ('0' <= #[trigger] number[i] && number[i]
        <= '9') || number[i] == '.' by {
        assert(is_digit(number[i]) || number[i] == '.');
    }
    assert forall|i: int| 0 < i < signed.len() implies #[trigger] signed[i] == number[i - 1] by {}
    assert(unsigned_part(number) == number);
    assert(unsigned_part(signed) =~= number);
    lemma_word_alone_is_read(number);
    lemma_word_alone_is_read(signed);
}

/// A literal that is written as it is, alone, is read as that number.
proof fn lemma_word_alone_is_read(literal: Seq<char>)
    requires
        valid_literal(literal),
        literal.len() > 0,
        forall|i: int|
            0 <= i < literal.len() ==> ('0' <= #[trigger] literal[i] && literal[i] <= '9')
                || literal[i] == '.' || (i == 0 && literal[i] == '-'),
    ensures
        tokens_of(literal) == Ok::<Seq<Tok>, Fault>(seq![Token::Num(literal)]),
{
    assert(!literal.contains('_'));
    lemma_nothing_left_out(literal);
    let none = Seq::<char>::empty();
    let words = seq![Word { gap: none, text: literal }];
    let tokens = seq![Token::Num(literal)];
    assert(spells(words[0].text, tokens[0]));
    assert(words_of(words, tokens));
    assert(follows(tokens, 0));
    assert(in_turn(tokens));
    law_words_are_read_as_written(words, tokens);
    assert(words.skip(1).len() == 0);
    assert(spelled(words.skip(1)) =~= none);
    assert(spelled(words) =~= literal);
}

/// No number has two points, and none is without a digit: such a run is refused.
pub proof fn law_two_points_are_no_number(run: Seq<char>, i: int, j: int)
    requires
        run.len() > 0,
        forall|k: int|
            0 <= k < run.len() ==> ('0' <= #[trigger] run[k] && run[k] <= '9') || run[k] == '.',
        (0 <= i < j < run.len() && run[i] == '.' && run[j] == '.') || forall|k: int|
            0 <= k < run.len() ==> run[k] == '.',
    ensures
        tokens_of(run) == Err::<Seq<Tok>, Fault>(CalcError::InvalidNumber(run)),
{
    assert(!run.contains('_'));
    law_numbers_keep_their_digits(run);
}

/// Whether the first operator is applied before the second where both stand in a row: powers come
/// before products, products before sums, and of two alike the one on the left, but for powers.
pub open spec fn goes_first(first: Op, second: Op) -> bool {
    match (first, second) {
        (Op::Pow, Op::Pow) => false,
        (Op::Pow, _) => true,
        (Op::Mul, Op::Pow) | (Op::Div, Op::Pow) => false,
        (Op::Mul, _) | (Op::Div, _) => true,
        (_, Op::Add) | (_, Op::Sub) => true,
        _ => false,
    }
}

/// Of two operators between three numbers the one that goes first takes the number in the middle.
pub proof fn law_operators_take_their_numbers(
    a: Seq<char>,
    first: Op,
    b: Seq<char>,
    second: Op,
    c: Seq<char>,
    text: Seq<char>,
    tree: Tree,
)
    requires
        tokens_of(text) == Ok::<Seq<Tok>, Fault>(
            seq![
                Token::Num(a),
                Token::Op(first),
                Token::Num(b),
                Token::Op(second),
                Token::Num(c),
            ],
        ),
        reads_as(text, Ok(tree)),
    ensures
        tree == if goes_first(first, second) {
            Expr::Binary(
                second,
                Box::new(Expr::Binary(first, Box::new(Expr::Num(a)), Box::new(Expr::Num(b)))),
                Box::new(Expr::Num(c)),
            )
        } else {
            Expr::Binary(
                first,
                Box::new(Expr::Num(a)),
                Box::new(Expr::Binary(second, Box::new(Expr::Num(b)), Box::new(Expr::Num(c)))),
            )
        },
{
    let (x, y, z): (Tree, Tree, Tree) = (Expr::Num(a), Expr::Num(b), Expr::Num(c));
    reveal_with_fuel(written, 4);
    reveal_with_fuel(grouped, 4);
    let left = Expr::Binary(
        second,
        Box::new(Expr::Binary(first, Box::new(x), Box::new(y))),
        Box::new(z),
    );
    let right = Expr::Binary(
        first,
        Box::new(x),
        Box::new(Expr::Binary(second, Box::new(y), Box::new(z))),
    );
    assert(written(left) =~= written(tree));
    assert(written(right) =~= written(tree));
    if goes_first(first, second) {
        assert(grouped(left, 0));
        law_one_reading(tree, left, 0);
    } else {
        assert(grouped(right, 0));
        law_one_reading(tree, right, 0);
    }
}

/// A tree stands for the expression that it was made from: the same operators on the same operands,
/// in the same places.
pub proof fn law_trees_stand_for_themselves(expr: Expr<String>)
    ensures
        match expr {
            Expr::Num(text) => tree_of(expr) == Expr::Num(text@),
            Expr::Neg(operand) => tree_of(expr) == Expr::Neg(Box::new(tree_of(*operand))),
            Expr::Binary(op, left, right) => {
                &&& tree_of(expr) matches Expr::Binary(o, l, r)
                &&& o == op && *l == tree_of(*left) && *r == tree_of(*right)
            },
            Expr::Group(inner) => tree_of(expr) == Expr::Group(Box::new(tree_of(*inner))),
        },
{
}

/// What the calculator makes of an expression is the tree that the expression writes: its numbers
/// digit by digit, its operators and its parentheses, each in its place.
pub proof fn law_evaluation_reads_what_is_written(
    text: &str,
    tree: Tree,
    words: Seq<Word>,
    read: Result<Expr<String>, CalcError<String>>,
)
    requires
        call_ensures(evaluate, (text,), read),
        without_signs(tree),
        grouped(tree, 0),
        words_of(words, written(tree)),
        text@ == spelled(words),
    ensures
        read matches Ok(expr) && tree_of(expr) == tree,
{
    law_expressions_are_read_as_written(tree, words, tree);
    match read {
        Ok(expr) => {
            law_expressions_are_read_as_written(tree, words, tree_of(expr));
        },
        Err(error) => {
            assert(!reads_as(spelled(words), Err(error@)));
        },
    }
}

/// A number alone is evaluated as that number, digit by digit, with or without a sign.
pub proof fn law_evaluated_numbers_keep_their_digits(
    text: &str,
    whole: Seq<char>,
    fraction: Seq<char>,
    negative: bool,
    read: Result<Expr<String>, CalcError<String>>,
)
    requires
        call_ensures(evaluate, (text,), read),
        whole.len() + fraction.len() > 0,
        forall|i: int| 0 <= i < whole.len() ==> '0' <= #[trigger] whole[i] && whole[i] <= '9',
        forall|i: int|
            0 <= i < fraction.len() ==> '0' <= #[trigger] fraction[i] && fraction[i] <= '9',
        text@ == if negative {
            seq!['-'] + (whole + seq!['.'] + fraction)
        } else {
            whole + seq!['.'] + fraction
        },
    ensures
        read matches Ok(Expr::Num(number)) && number@ == text@,
{
    law_decimals_are_numbers(whole, fraction);
    let tree: Tree = Expr::Num(text@);
    law_written_trees_are_accepted(tree);
    assert(written(tree) == seq![Token::Num(text@)]);
    match read {
        Ok(expr) => {
            law_one_reading(tree_of(expr), tree, 0);
        },
        Err(_) => {},
    }
}

/// Errors and tokens stand for what they say: the same literal, character or position.
pub proof fn law_errors_say_what_they_stand_for(error: CalcError<String>, token: Token<String>)
    ensures
        match error {
            CalcError::InvalidNumber(text) => error@ == CalcError::InvalidNumber(text@),
            CalcError::UnexpectedCharacter(c) => error@ == CalcError::<
                Seq<char>,
            >::UnexpectedCharacter(c),
            CalcError::UnexpectedToken(p) => error@ == CalcError::<Seq<char>>::UnexpectedToken(p),
            CalcError::UnexpectedEnd => error@ is UnexpectedEnd,
            CalcError::MissingClosingParenthesis => error@ is MissingClosingParenthesis,
        },
        match token {
            Token::Num(text) => token@ == Token::Num(text@),
            Token::Op(op) => token@ == Token::<Seq<char>>::Op(op),
            Token::Neg => token@ is Neg,
            Token::LParen => token@ is LParen,
            Token::RParen => token@ is RParen,
        },
{
}

/// Nothing is an unexpected end, and so is a text that ends in an operator, a sign or an opened
/// parenthesis; a text that opens a parenthesis and never closes it lacks the closing one.
pub proof fn law_unfinished_expressions_are_refused(tree: Tree, level: nat)
    requires
        grouped(tree, level),
    ensures
        verdict(Seq::empty()) == Err::<(), Fault>(CalcError::UnexpectedEnd),
        forall|op: Op|
            verdict(#[trigger] written(tree).push(Token::Op(op))) == Err::<(), Fault>(
                CalcError::UnexpectedEnd,
            ),
        verdict(seq![Token::LParen] + written(tree)) == Err::<(), Fault>(
            CalcError::MissingClosingParenthesis,
        ),
        verdict(written(tree).push(Token::RParen)) == Err::<(), Fault>(
            CalcError::UnexpectedToken(written(tree).len() as usize),
        ),
{
    let t = written(tree);
    let n = t.len() as int;
    assert forall|op: Op| verdict(#[trigger] t.push(Token::Op(op))) == Err::<(), Fault>(
        CalcError::UnexpectedEnd,
    ) by {
        let u = t.push(Token::Op(op));
        assert(u.subrange(0, n) =~= t);
        lemma_accepted_inside(u, 0, tree, n, 0);
        assert(u[n] == Token::<Seq<char>>::Op(op));
        assert(operand_end(u, n + 1, 0, true, 0) == Err::<int, Fault>(CalcError::UnexpectedEnd));
    }
    let open = seq![Token::<Seq<char>>::LParen] + t;
    assert(open.subrange(1, n + 1) =~= t);
    lemma_accepted_inside(open, 1, tree, n + 1, 1);
    assert(open[0] is LParen);
    assert(operand_end(open, 0, 0, true, 0) == operand_end(open, 1, 1, true, 0));
    let closed = t.push(Token::RParen);
    assert(closed.subrange(0, n) =~= t);
    lemma_accepted_inside(closed, 0, tree, n, 0);
    assert(closed[n] is RParen);
}

/// The tokens that a text is taken apart into are those that its words write, in order.
pub proof fn law_texts_are_taken_apart_as_written(
    text: &str,
    words: Seq<Word>,
    written_as: Seq<Tok>,
    tokens: Result<Vec<Token<String>>, CalcError<String>>,
    i: int,
)
    requires
        call_ensures(tokenize, (text,), tokens),
        words_of(words, written_as),
        in_turn(written_as),
        text@ == spelled(words),
    ensures
        tokens is Ok,
        tokens->Ok_0@.len() == written_as.len(),
        0 <= i < written_as.len() ==> tokens->Ok_0@[i]@ == written_as[i],
{
    law_words_are_read_as_written(words, written_as);
    let all = toks_of(tokens->Ok_0@);
    assert(all.len() == tokens->Ok_0@.len());
    if 0 <= i < written_as.len() {
        assert(all[i] == tokens->Ok_0@[i]@);
    }
}

/// A token that cannot stand where an operand is due is named by its position: first of all, behind
/// an operator, or behind an opened parenthesis. A token that follows an operand in parentheses
/// where it cannot leaves the parenthesis open.
pub proof fn law_misplaced_tokens_are_named(tree: Tree, op: Op, wrong: Tok, rest: Seq<Tok>)
    ensures
        wrong is Op || wrong is RParen ==> {
            &&& verdict(seq![wrong] + rest) == Err::<(), Fault>(CalcError::UnexpectedToken(0))
            &&& verdict(written(tree) + seq![Token::Op(op), wrong] + rest) == Err::<(), Fault>(
                CalcError::UnexpectedToken((written(tree).len() + 1) as usize),
            )
            &&& verdict(seq![Token::LParen, wrong] + rest) == Err::<(), Fault>(
                CalcError::UnexpectedToken(1),
            )
        },
        wrong is Num || wrong is LParen || wrong is Neg ==> {
            &&& verdict(written(tree) + seq![wrong] + rest) == Err::<(), Fault>(
                CalcError::UnexpectedToken(written(tree).len() as usize),
            )
            &&& verdict(seq![Token::LParen] + written(tree) + seq![wrong] + rest) == Err::<
                (),
                Fault,
            >(CalcError::MissingClosingParenthesis)
        },
{
    let t = written(tree);
    let n = t.len() as int;
    if wrong is Op || wrong is RParen {
        let first = seq![wrong] + rest;
        assert(first[0] == wrong);
        let behind = t + seq![Token::Op(op), wrong] + rest;
        assert(behind.subrange(0, n) =~= t);
        lemma_accepted_inside(behind, 0, tree, n, 0);
        assert(behind[n] == Token::<Seq<char>>::Op(op));
        assert(behind[n + 1] == wrong);
        assert(operand_end(behind, n, 0, false, 0) == operand_end(behind, n + 1, 0, true, 0));
        let inside = seq![Token::<Seq<char>>::LParen, wrong] + rest;
        assert(inside[0] is LParen && inside[1] == wrong);
        assert(operand_end(inside, 0, 0, true, 0) == operand_end(inside, 1, 1, true, 0));
    }
    if wrong is Num || wrong is LParen || wrong is Neg {
        let behind = t + seq![wrong] + rest;
        assert(behind.subrange(0, n) =~= t);
        lemma_accepted_inside(behind, 0, tree, n, 0);
        assert(behind[n] == wrong);
        let inside = seq![Token::<Seq<char>>::LParen] + t + seq![wrong] + rest;
        assert(inside.subrange(1, n + 1) =~= t);
        lemma_accepted_inside(inside, 1, tree, n + 1, 1);
        assert(inside[0] is LParen && inside[n + 1] == wrong);
        assert(operand_end(inside, 0, 0, true, 0) == operand_end(inside, 1, 1, true, 0));
    }
}

/// The end is unexpected only where something is still due there.
pub proof fn law_unexpected_ends_are_ends(t: Seq<Tok>)
    requires
        verdict(t) == Err::<(), Fault>(CalcError::UnexpectedEnd),
    ensures
        t.len() == 0 || t.last() is Op || t.last() is LParen || t.last() is Neg,
{
    lemma_unexpected_end(t, 0, 0, true);
}

proof fn lemma_unexpected_end(t: Seq<Tok>, k: int, depth: nat, due: bool)
    requires
        0 <= k <= t.len(),
        operand_end(t, k, depth, due, 0) == Err::<int, Fault>(CalcError::UnexpectedEnd),
    ensures
        k == t.len() ==> due,
        k < t.len() ==> t.last() is Op || t.last() is LParen || t.last() is Neg,
    decreases t.len() - k,
{
    if k < t.len() {
        match t[k] {
            Token::Num(_) if due => lemma_unexpected_end(t, k + 1, depth, false),
            Token::LParen if due => lemma_unexpected_end(t, k + 1, depth + 1, true),
            Token::Neg if due => lemma_unexpected_end(t, k + 1, depth, true),
            Token::Op(_) if !due => lemma_unexpected_end(t, k + 1, depth, true),
            Token::RParen if !due && depth > 0 => lemma_unexpected_end(
                t,
                k + 1,
                (depth - 1) as nat,
                false,
            ),
            _ => {},
        }
    }
}

/// A minus sign with white space behind it, where an operand is due, is a sign all the same: of
/// what follows, number or parenthesis. Where a summand begins, what follows is subtracted from
/// zero; behind any other operator the sign belongs to the operand.
pub proof fn law_signs_stand_before_blanks(
    words: Seq<Word>,
    front: Seq<Tok>,
    more: Seq<Word>,
    back: Seq<Tok>,
)
    requires
        words_of(words, front),
        in_turn(front),
        front.len() > 0 ==> front.last() is Op || front.last() is LParen,
        words_of(more, back),
        in_turn(back),
        more.len() > 0,
        more[0].gap.len() > 0,
    ensures
        tokens_of(spelled(words) + seq!['-'] + spelled(more)) == Ok::<Seq<Tok>, Fault>(
            front + if front.len() == 0 || front.last() is LParen || front.last() == Token::<
                Seq<char>,
            >::Op(Op::Add) {
                seq![Token::Num(seq!['0']), Token::Op(Op::Sub)]
            } else {
                seq![Token::Neg]
            } + back,
        ),
{
    let rest = spelled(more);
    let after = seq!['-'] + rest;
    let text = spelled(words) + after;
    let none = Seq::<Tok>::empty();
    assert(spelled(words) + seq!['-'] + rest =~= text);
    law_words_are_read_as_written(words, front);
    assert(after[0] == '-');
    lemma_followed(spelled(words), 0, after, none);
    lemma_rest(text, spelled(words).len() as int, front);
    assert(text.skip(spelled(words).len() as int) =~= after);
    lemma_first_character(more, back);
    assert(after[1] == rest[0]);
    lemma_run_reaches(after, 1, 1);
    assert(after.subrange(1, 1) =~= Seq::<char>::empty());
    lemma_without_underscores(Seq::<char>::empty());
    assert(without_underscores(Seq::<char>::empty()).len() == 0);
    let signed = with_sign(front);
    assert(lexed(after, 0, front) == lexed(after, 1, signed));
    lemma_rest(after, 1, signed);
    assert(after.skip(1) =~= rest);
    let all = signed + back;
    assert forall|i: int| signed.len() <= i < all.len() implies #[trigger] follows(all, i) by {
        let k = i - signed.len();
        assert(follows(back, k));
        assert(all[i] == back[k]);
        if k > 0 {
            assert(all[i - 1] == back[k - 1]);
        } else {
            assert(all[i - 1] == signed.last());
        }
    }
    lemma_words_are_read(more, back, signed);
    assert(all =~= front + if front.len() == 0 || front.last() is LParen || front.last() == Token::<
        Seq<char>,
    >::Op(Op::Add) {
        seq![Token::Num(seq!['0']), Token::Op(Op::Sub)]
    } else {
        seq![Token::Neg]
    } + back);
}

} // verus!
