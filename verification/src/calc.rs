//! The calculator's language: numbers, `+ - * /`, powers (`^` or `**`), parentheses and a unary
//! minus. An expression is read into a tree; the arithmetic itself is floating point and belongs
//! to whoever walks the tree.
use vstd::prelude::*;

use crate::text;
use crate::text::{decimal, from_chars, to_chars};

verus! {

/// A binary operator.
#[derive(Clone, Copy, Debug, PartialEq, Eq, Structural)]
pub enum Op {
    Add,
    Sub,
    Mul,
    Div,
    Pow,
}

/// A lexical token; `L` is what a number literal is held as.
#[derive(Debug)]
pub enum Token<L> {
    Num(L),
    Op(Op),
    /// The sign of the operand that follows.
    Neg,
    LParen,
    RParen,
}

/// An expression tree that keeps its parentheses.
#[derive(Debug)]
pub enum Expr<L> {
    Num(L),
    /// The operand with its sign turned: zero less the operand.
    Neg(Box<Expr<L>>),
    Binary(Op, Box<Expr<L>>, Box<Expr<L>>),
    Group(Box<Expr<L>>),
}

/// Why a text is no expression. A position counts tokens from zero.
#[derive(Debug)]
pub enum CalcError<L> {
    InvalidNumber(L),
    UnexpectedCharacter(char),
    UnexpectedToken(usize),
    UnexpectedEnd,
    MissingClosingParenthesis,
}

/// A token as the contracts see it.
pub type Tok = Token<Seq<char>>;

/// A tree as the contracts see it.
pub type Tree = Expr<Seq<char>>;

/// An error as the contracts see it.
pub type Fault = CalcError<Seq<char>>;

impl View for Token<String> {
    type V = Tok;

    open spec fn view(&self) -> Tok {
        match *self {
            Token::Num(text) => Token::Num(text@),
            Token::Op(op) => Token::Op(op),
            Token::Neg => Token::Neg,
            Token::LParen => Token::LParen,
            Token::RParen => Token::RParen,
        }
    }
}

impl View for CalcError<String> {
    type V = Fault;

    open spec fn view(&self) -> Fault {
        match *self {
            CalcError::InvalidNumber(text) => CalcError::InvalidNumber(text@),
            CalcError::UnexpectedCharacter(c) => CalcError::UnexpectedCharacter(c),
            CalcError::UnexpectedToken(position) => CalcError::UnexpectedToken(position),
            CalcError::UnexpectedEnd => CalcError::UnexpectedEnd,
            CalcError::MissingClosingParenthesis => CalcError::MissingClosingParenthesis,
        }
    }
}

/// The tree that `expr` stands for.
pub open spec fn tree_of(expr: Expr<String>) -> Tree
    decreases expr,
{
    match expr {
        Expr::Num(text) => Expr::Num(text@),
        Expr::Neg(operand) => Expr::Neg(Box::new(tree_of(*operand))),
        Expr::Binary(op, left, right) => Expr::Binary(
            op,
            Box::new(tree_of(*left)),
            Box::new(tree_of(*right)),
        ),
        Expr::Group(inner) => Expr::Group(Box::new(tree_of(*inner))),
    }
}

/// The tokens that a list of tokens stands for.
pub open spec fn toks_of(tokens: Seq<Token<String>>) -> Seq<Tok> {
    tokens.map_values(|token: Token<String>| token@)
}

// ── Lexical rules ───────────────────────────────────────────────────────

/// A decimal digit.
pub open spec fn is_digit(c: char) -> bool {
    '0' <= c && c <= '9'
}

/// What may stand inside a number after its first character.
pub open spec fn number_char(c: char) -> bool {
    is_digit(c) || c == '.' || c == '_'
}

/// White space between tokens.
pub open spec fn is_blank(c: char) -> bool {
    c == ' ' || c == '\t' || c == '\n'
}

/// Where the run of number characters that begins at `i` ends.
pub open spec fn run_end(s: Seq<char>, i: int) -> int
    decreases s.len() - i,
{
    if 0 <= i < s.len() && number_char(s[i]) {
        run_end(s, i + 1)
    } else {
        i
    }
}

/// A run ends no earlier than it begins, and inside the text.
pub proof fn lemma_run_end(s: Seq<char>, i: int)
    requires
        0 <= i <= s.len(),
    ensures
        i <= run_end(s, i) <= s.len(),
        i < s.len() && number_char(s[i]) ==> i < run_end(s, i),
    decreases s.len() - i,
{
    if i < s.len() && number_char(s[i]) {
        lemma_run_end(s, i + 1);
    }
}

/// `s` with the separating underscores left out.
pub open spec fn without_underscores(s: Seq<char>) -> Seq<char>
    decreases s.len(),
{
    if s.len() == 0 {
        s
    } else if s.last() == '_' {
        without_underscores(s.drop_last())
    } else {
        without_underscores(s.drop_last()).push(s.last())
    }
}

/// A literal without its sign.
pub open spec fn unsigned_part(t: Seq<char>) -> Seq<char> {
    if t.len() > 0 && t[0] == '-' {
        t.skip(1)
    } else {
        t
    }
}

/// Whether `body` is made of digits with at most one point among them, and holds a digit.
pub open spec fn is_decimal(body: Seq<char>) -> bool {
    &&& forall|i: int| 0 <= i < body.len() ==> is_digit(#[trigger] body[i]) || body[i] == '.'
    &&& exists|i: int| 0 <= i < body.len() && is_digit(#[trigger] body[i])
    &&& forall|i: int, j: int|
        #![trigger body[i], body[j]]
        0 <= i < j < body.len() ==> !(body[i] == '.' && body[j] == '.')
}

/// Whether a literal is a number: an optional minus sign before a decimal.
pub open spec fn valid_literal(t: Seq<char>) -> bool {
    is_decimal(unsigned_part(t))
}

/// Whether a minus sign after these tokens is a sign and not a subtraction.
pub open spec fn minus_is_sign(before: Seq<Tok>) -> bool {
    before.len() == 0 || !(before.last() is Num || before.last() is RParen)
}

/// Whether the sum that a minus sign after these tokens belongs to begins with it, or a plus stands
/// before it.
pub open spec fn starts_summand(before: Seq<Tok>) -> bool {
    before.len() == 0 || before.last() is LParen || before.last() == Token::<Seq<char>>::Op(Op::Add)
}

/// The tokens after a minus sign that has no number directly behind it. Where a summand begins,
/// the sign subtracts what follows from zero; behind any other operator it turns the operand.
pub open spec fn with_sign(before: Seq<Tok>) -> Seq<Tok> {
    if starts_summand(before) {
        before.push(Token::Num(seq!['0'])).push(Token::Op(Op::Sub))
    } else {
        before.push(Token::Neg)
    }
}

/// The operator that a single character writes.
pub open spec fn char_op(c: char) -> Option<Op> {
    if c == '+' {
        Some(Op::Add)
    } else if c == '-' {
        Some(Op::Sub)
    } else if c == '*' {
        Some(Op::Mul)
    } else if c == '/' {
        Some(Op::Div)
    } else if c == '^' {
        Some(Op::Pow)
    } else {
        None
    }
}

/// The tokens `before` followed by the tokens of `s` from position `i` on, or the first error.
///
/// A number is the longest run of number characters, read without its underscores. A minus sign
/// where an operand is due belongs to the number directly after it; with none there it is the sign
/// of the operand that follows. Two stars in a row write the power operator.
pub open spec fn lexed(s: Seq<char>, i: int, before: Seq<Tok>) -> Result<Seq<Tok>, Fault>
    decreases s.len() - i,
{
    proof {
        if 0 <= i < s.len() {
            lemma_run_end(s, i);
            lemma_run_end(s, i + 1);
        }
    }
    if i < 0 || i >= s.len() {
        Ok(before)
    } else if is_blank(s[i]) {
        lexed(s, i + 1, before)
    } else if is_digit(s[i]) || s[i] == '.' {
        let literal = without_underscores(s.subrange(i, run_end(s, i)));
        if valid_literal(literal) {
            lexed(s, run_end(s, i), before.push(Token::Num(literal)))
        } else {
            Err(CalcError::InvalidNumber(literal))
        }
    } else if s[i] == '-' && minus_is_sign(before) {
        let digits = without_underscores(s.subrange(i + 1, run_end(s, i + 1)));
        if digits.len() == 0 {
            lexed(s, run_end(s, i + 1), with_sign(before))
        } else if valid_literal(seq!['-'] + digits) {
            lexed(s, run_end(s, i + 1), before.push(Token::Num(seq!['-'] + digits)))
        } else {
            Err(CalcError::InvalidNumber(seq!['-'] + digits))
        }
    } else if s[i] == '*' && i + 1 < s.len() && s[i + 1] == '*' {
        lexed(s, i + 2, before.push(Token::Op(Op::Pow)))
    } else if char_op(s[i]) is Some {
        lexed(s, i + 1, before.push(Token::Op(char_op(s[i])->0)))
    } else if s[i] == '(' {
        lexed(s, i + 1, before.push(Token::LParen))
    } else if s[i] == ')' {
        lexed(s, i + 1, before.push(Token::RParen))
    } else {
        Err(CalcError::UnexpectedCharacter(s[i]))
    }
}

/// The tokens of a text, or the first lexical error.
pub open spec fn tokens_of(s: Seq<char>) -> Result<Seq<Tok>, Fault> {
    lexed(s, 0, Seq::empty())
}

fn digit(c: char) -> (r: bool)
    ensures
        r == is_digit(c),
{
    '0' <= c && c <= '9'
}

/// Reads the run of number characters at `start`: its characters without underscores, after
/// those of `sign`, and where it ends.
fn read_run(chars: &Vec<char>, start: usize, sign: Vec<char>) -> (r: (Vec<char>, usize))
    requires
        start <= chars@.len(),
    ensures
        r.1 == run_end(chars@, start as int),
        start <= r.1 <= chars@.len(),
        r.0@ == sign@ + without_underscores(chars@.subrange(start as int, r.1 as int)),
{
    let ghost prefix = sign@;
    let mut literal = sign;
    let mut end: usize = start;
    assert(chars@.subrange(start as int, end as int) =~= Seq::<char>::empty());
    assert(literal@ =~= prefix + without_underscores(Seq::<char>::empty()));
    while end < chars.len() && (digit(chars[end]) || chars[end] == '.' || chars[end] == '_')
        invariant
            start <= end <= chars@.len(),
            run_end(chars@, start as int) == run_end(chars@, end as int),
            literal@ == prefix + without_underscores(
                chars@.subrange(start as int, end as int),
            ),
        decreases chars@.len() - end,
    {
        let c = chars[end];
        assert(chars@.subrange(start as int, end + 1).drop_last() =~= chars@.subrange(
            start as int,
            end as int,
        ));
        if c != '_' {
            literal.push(c);
        }
        end += 1;
        assert(literal@ =~= prefix + without_underscores(
            chars@.subrange(start as int, end as int),
        ));
    }
    (literal, end)
}

/// Whether a literal is a number.
fn check_literal(t: &Vec<char>) -> (r: bool)
    ensures
        r == valid_literal(t@),
{
    let start: usize = if t.len() > 0 && t[0] == '-' {
        1
    } else {
        0
    };
    let ghost body = unsigned_part(t@);
    assert(body =~= t@.skip(start as int));
    let mut digits = false;
    let mut point = false;
    let mut i: usize = start;
    while i < t.len()
        invariant
            start <= i <= t@.len(),
            body == unsigned_part(t@),
            body == t@.skip(start as int),
            forall|k: int|
                0 <= k < i - start ==> is_digit(#[trigger] body[k]) || body[k] == '.',
            digits == exists|k: int| 0 <= k < i - start && is_digit(#[trigger] body[k]),
            point == exists|k: int|
                #![trigger body[k]]
                0 <= k < i - start && body[k] == '.',
            forall|k: int, m: int|
                #![trigger body[k], body[m]]
                0 <= k < m < i - start ==> !(body[k] == '.' && body[m] == '.'),
        decreases t@.len() - i,
    {
        let c = t[i];
        assert(body[i - start] == c);
        if digit(c) {
            digits = true;
        } else if c == '.' && !point {
            point = true;
        } else {
            return false;
        }
        i += 1;
    }
    digits
}

/// The tokens of a text.
pub fn tokenize(expr: &str) -> (r: Result<Vec<Token<String>>, CalcError<String>>)
    ensures
        match r {
            Ok(tokens) => tokens_of(expr@) == Ok::<Seq<Tok>, Fault>(toks_of(tokens@)),
            Err(error) => tokens_of(expr@) == Err::<Seq<Tok>, Fault>(error@),
        },
{
    let chars = to_chars(expr);
    let mut tokens: Vec<Token<String>> = Vec::new();
    let mut i: usize = 0;
    assert(toks_of(tokens@) =~= Seq::<Tok>::empty());
    while i < chars.len()
        invariant
            chars@ == expr@,
            i <= chars@.len(),
            tokens_of(expr@) == lexed(expr@, i as int, toks_of(tokens@)),
        decreases chars@.len() - i,
    {
        let c = chars[i];
        let ghost before = toks_of(tokens@);
        proof {
            lemma_run_end(expr@, i as int);
            lemma_run_end(expr@, i + 1);
            assert(tokens@.len() > 0 ==> before.last() == tokens@.last()@);
        }
        if c == ' ' || c == '\t' || c == '\n' {
            i += 1;
        } else if digit(c) || c == '.' {
            let (literal, end) = read_run(&chars, i, Vec::new());
            assert(literal@ =~= without_underscores(expr@.subrange(i as int, end as int)));
            let text = from_chars(&literal);
            if !check_literal(&literal) {
                return Err(CalcError::InvalidNumber(text));
            }
            tokens.push(Token::Num(text));
            assert(toks_of(tokens@) =~= before.push(Token::Num(literal@)));
            i = end;
        } else if c == '-' && sign_position(&tokens) {
            let mut sign: Vec<char> = Vec::new();
            sign.push('-');
            let (literal, end) = read_run(&chars, i + 1, sign);
            let ghost digits = without_underscores(expr@.subrange(i + 1, end as int));
            assert(literal@ =~= seq!['-'] + digits);
            if literal.len() > 1 {
                let text = from_chars(&literal);
                if !check_literal(&literal) {
                    return Err(CalcError::InvalidNumber(text));
                }
                tokens.push(Token::Num(text));
                assert(toks_of(tokens@) =~= before.push(Token::Num(literal@)));
            } else if summand_position(&tokens) {
                let mut zero: Vec<char> = Vec::new();
                zero.push('0');
                assert(zero@ =~= seq!['0']);
                tokens.push(Token::Num(from_chars(&zero)));
                tokens.push(Token::Op(Op::Sub));
                assert(toks_of(tokens@) =~= with_sign(before));
            } else {
                tokens.push(Token::Neg);
                assert(toks_of(tokens@) =~= with_sign(before));
            }
            i = end;
        } else if c == '*' && i + 1 < chars.len() && chars[i + 1] == '*' {
            tokens.push(Token::Op(Op::Pow));
            assert(toks_of(tokens@) =~= before.push(Token::Op(Op::Pow)));
            i += 2;
        } else if let Some(op) = read_op(c) {
            tokens.push(Token::Op(op));
            assert(toks_of(tokens@) =~= before.push(Token::Op(op)));
            i += 1;
        } else if c == '(' {
            tokens.push(Token::LParen);
            assert(toks_of(tokens@) =~= before.push(Token::LParen));
            i += 1;
        } else if c == ')' {
            tokens.push(Token::RParen);
            assert(toks_of(tokens@) =~= before.push(Token::RParen));
            i += 1;
        } else {
            return Err(CalcError::UnexpectedCharacter(c));
        }
    }
    Ok(tokens)
}

fn sign_position(tokens: &Vec<Token<String>>) -> (r: bool)
    ensures
        r == minus_is_sign(toks_of(tokens@)),
{
    if tokens.len() == 0 {
        return true;
    }
    assert(toks_of(tokens@).last() == tokens@.last()@);
    match &tokens[tokens.len() - 1] {
        Token::Num(_) => false,
        Token::RParen => false,
        _ => true,
    }
}

fn summand_position(tokens: &Vec<Token<String>>) -> (r: bool)
    ensures
        r == starts_summand(toks_of(tokens@)),
{
    if tokens.len() == 0 {
        return true;
    }
    assert(toks_of(tokens@).last() == tokens@.last()@);
    match &tokens[tokens.len() - 1] {
        Token::LParen => true,
        Token::Op(op) => *op == Op::Add,
        _ => false,
    }
}

fn read_op(c: char) -> (r: Option<Op>)
    ensures
        r == char_op(c),
{
    match c {
        '+' => Some(Op::Add),
        '-' => Some(Op::Sub),
        '*' => Some(Op::Mul),
        '/' => Some(Op::Div),
        '^' => Some(Op::Pow),
        _ => None,
    }
}

// ── Grammar ─────────────────────────────────────────────────────────────

/// How tightly an operator binds: sums least, powers most.
pub open spec fn op_level(op: Op) -> nat {
    match op {
        Op::Add | Op::Sub => 0,
        Op::Mul | Op::Div => 1,
        Op::Pow => 2,
    }
}

/// The tokens that a tree is written with.
pub open spec fn written(tree: Tree) -> Seq<Tok>
    decreases tree,
{
    match tree {
        Expr::Num(literal) => seq![Token::Num(literal)],
        Expr::Neg(operand) => seq![Token::Neg] + written(*operand),
        Expr::Binary(op, left, right) => written(*left) + seq![Token::Op(op)] + written(*right),
        Expr::Group(inner) => seq![Token::LParen] + written(*inner) + seq![Token::RParen],
    }
}

/// Whether a tree groups its operators as the language does, where only operators that bind at
/// `level` or more tightly may stand outside parentheses: sums and products group to the left,
/// powers to the right, and each operand binds more tightly than its operator. A sign turns the
/// whole power that follows it.
pub open spec fn grouped(tree: Tree, level: nat) -> bool
    decreases tree,
{
    match tree {
        Expr::Num(_) => true,
        Expr::Neg(operand) => level <= 2 && grouped(*operand, 2),
        Expr::Group(inner) => grouped(*inner, 0),
        Expr::Binary(op, left, right) => {
            &&& level <= op_level(op)
            &&& if op is Pow {
                grouped(*left, 3) && grouped(*right, 2)
            } else {
                grouped(*left, op_level(op)) && grouped(*right, op_level(op) + 1)
            }
        },
    }
}

/// Where an operand of level `level` ends, or what is wrong with it, read on from position `k`.
/// There `depth` of its parentheses are open, and a part of it is due (`due`) or has just ended.
pub open spec fn operand_end(
    t: Seq<Tok>,
    k: int,
    depth: nat,
    due: bool,
    level: nat,
) -> Result<int, Fault>
    decreases t.len() - k,
{
    if k < 0 || k >= t.len() {
        if due {
            Err(CalcError::UnexpectedEnd)
        } else if depth > 0 {
            Err(CalcError::MissingClosingParenthesis)
        } else {
            Ok(k)
        }
    } else if due {
        match t[k] {
            Token::Num(_) => operand_end(t, k + 1, depth, false, level),
            Token::LParen => operand_end(t, k + 1, depth + 1, true, level),
            Token::Neg if depth > 0 || level <= 2 => operand_end(t, k + 1, depth, true, level),
            _ => Err(CalcError::UnexpectedToken(k as usize)),
        }
    } else {
        match t[k] {
            Token::Op(op) if depth > 0 || op_level(op) >= level => operand_end(
                t,
                k + 1,
                depth,
                true,
                level,
            ),
            Token::RParen if depth > 0 => operand_end(t, k + 1, (depth - 1) as nat, false, level),
            _ => if depth > 0 {
                Err(CalcError::MissingClosingParenthesis)
            } else {
                Ok(k)
            },
        }
    }
}

/// What is wrong with these tokens as an expression, if anything.
pub open spec fn verdict(t: Seq<Tok>) -> Result<(), Fault> {
    match operand_end(t, 0, 0, true, 0) {
        Err(fault) => Err(fault),
        Ok(end) => if end == t.len() {
            Ok(())
        } else {
            Err(CalcError::UnexpectedToken(end as usize))
        },
    }
}

/// Whether the tokens from `from` to `to` are this operand of level `level`.
pub open spec fn covers(t: Seq<Tok>, from: int, level: nat, tree: Tree, to: int) -> bool {
    &&& from < to <= t.len()
    &&& grouped(tree, level)
    &&& written(tree) == t.subrange(from, to)
}

/// What reading an operand of level `level` at `from` gives.
pub open spec fn operand_read(
    t: Seq<Tok>,
    from: int,
    level: nat,
    r: Result<(Expr<String>, usize), CalcError<String>>,
) -> bool {
    match r {
        Ok((expr, to)) => operand_end(t, from, 0, true, level) == Ok::<int, Fault>(to as int)
            && covers(t, from, level, tree_of(expr), to as int),
        Err(error) => operand_end(t, from, 0, true, level) == Err::<int, Fault>(error@),
    }
}

/// An operand inside a looser one, or inside `more` parentheses, ends or fails where it does alone:
/// the outer one is read on from there. An operand of powers that begins with a sign is none.
pub proof fn lemma_inside(
    t: Seq<Tok>,
    k: int,
    depth: nat,
    due: bool,
    level: nat,
    more: nat,
    outer: nat,
)
    requires
        0 <= k <= t.len(),
        more > 0 || outer <= level,
        level <= 2 || depth > 0 || !due || k == t.len() || !(t[k] is Neg),
    ensures
        match operand_end(t, k, depth, due, level) {
            Ok(to) => {
                &&& k <= to <= t.len()
                &&& to < t.len() ==> !(t[to] is Op && op_level(t[to]->Op_0) >= level)
                &&& operand_end(t, k, depth + more, due, outer) == operand_end(
                    t,
                    to,
                    more,
                    false,
                    outer,
                )
            },
            Err(fault) => operand_end(t, k, depth + more, due, outer) == Err::<int, Fault>(fault),
        },
    decreases t.len() - k,
{
    if k < t.len() {
        match t[k] {
            Token::Num(_) if due => {
                lemma_inside(t, k + 1, depth, false, level, more, outer);
            },
            Token::LParen if due => {
                lemma_inside(t, k + 1, depth + 1, true, level, more, outer);
            },
            Token::Neg if due => {
                lemma_inside(t, k + 1, depth, true, level, more, outer);
            },
            Token::Op(op) if !due && (depth > 0 || op_level(op) >= level) => {
                lemma_inside(t, k + 1, depth, true, level, more, outer);
            },
            Token::RParen if !due && depth > 0 => {
                lemma_inside(t, k + 1, (depth - 1) as nat, false, level, more, outer);
            },
            _ => {},
        }
    }
}

/// Two operands with an operator between them are an operand of the operator's level.
proof fn lemma_binary(
    t: Seq<Tok>,
    from: int,
    left: Tree,
    middle: int,
    op: Op,
    right: Tree,
    to: int,
)
    requires
        0 <= from,
        middle < t.len(),
        t[middle] == Token::<Seq<char>>::Op(op),
        if op is Pow {
            covers(t, from, 3, left, middle) && covers(t, middle + 1, 2, right, to)
        } else {
            covers(t, from, op_level(op), left, middle) && covers(
                t,
                middle + 1,
                op_level(op) + 1,
                right,
                to,
            )
        },
    ensures
        covers(t, from, op_level(op), Expr::Binary(op, Box::new(left), Box::new(right)), to),
{
    let tree: Tree = Expr::Binary(op, Box::new(left), Box::new(right));
    assert(written(tree) =~= t.subrange(from, to));
}

fn op_at(tokens: &Vec<Token<String>>, pos: usize) -> (r: Option<Op>)
    ensures
        r matches Some(op) ==> pos < tokens.len() && toks_of(tokens@)[pos as int] == Token::<
            Seq<char>,
        >::Op(op),
        r is None && pos < tokens@.len() ==> !(toks_of(tokens@)[pos as int] is Op),
{
    if pos >= tokens.len() {
        return None;
    }
    match &tokens[pos] {
        Token::Op(op) => Some(*op),
        _ => None,
    }
}

fn parse_expr(tokens: &Vec<Token<String>>, pos: usize) -> (r: Result<
    (Expr<String>, usize),
    CalcError<String>,
>)
    requires
        pos <= tokens@.len(),
    ensures
        operand_read(toks_of(tokens@), pos as int, 0, r),
    decreases tokens@.len() - pos, 3int,
{
    let ghost t = toks_of(tokens@);
    proof {
        lemma_inside(t, pos as int, 0, true, 1, 0, 0);
    }
    match parse_term(tokens, pos) {
        Err(error) => Err(error),
        Ok((first, first_end)) => {
            let mut left = first;
            let mut end: usize = first_end;
            loop
                invariant
                    t == toks_of(tokens@),
                    pos < end <= tokens@.len(),
                    covers(t, pos as int, 0, tree_of(left), end as int),
                    operand_end(t, pos as int, 0, true, 0) == operand_end(
                        t,
                        end as int,
                        0,
                        false,
                        0,
                    ),
                    end < t.len() ==> !(t[end as int] is Op && op_level(t[end as int]->Op_0) >= 1),
                decreases tokens@.len() - end,
            {
                let op = match op_at(tokens, end) {
                    Some(op) => op,
                    None => {
                        return Ok((left, end));
                    },
                };
                proof {
                    lemma_inside(t, end + 1, 0, true, 1, 0, 0);
                }
                match parse_term(tokens, end + 1) {
                    Err(error) => {
                        return Err(error);
                    },
                    Ok((right, right_end)) => {
                        proof {
                            lemma_binary(
                                t,
                                pos as int,
                                tree_of(left),
                                end as int,
                                op,
                                tree_of(right),
                                right_end as int,
                            );
                        }
                        left = Expr::Binary(op, Box::new(left), Box::new(right));
                        end = right_end;
                    },
                }
            }
        },
    }
}

fn parse_term(tokens: &Vec<Token<String>>, pos: usize) -> (r: Result<
    (Expr<String>, usize),
    CalcError<String>,
>)
    requires
        pos <= tokens@.len(),
    ensures
        operand_read(toks_of(tokens@), pos as int, 1, r),
    decreases tokens@.len() - pos, 2int,
{
    let ghost t = toks_of(tokens@);
    proof {
        lemma_inside(t, pos as int, 0, true, 2, 0, 1);
    }
    match parse_power(tokens, pos) {
        Err(error) => Err(error),
        Ok((first, first_end)) => {
            let mut left = first;
            let mut end: usize = first_end;
            loop
                invariant
                    t == toks_of(tokens@),
                    pos < end <= tokens@.len(),
                    covers(t, pos as int, 1, tree_of(left), end as int),
                    operand_end(t, pos as int, 0, true, 1) == operand_end(
                        t,
                        end as int,
                        0,
                        false,
                        1,
                    ),
                    end < t.len() ==> !(t[end as int] is Op && op_level(t[end as int]->Op_0) >= 2),
                decreases tokens@.len() - end,
            {
                let op = match op_at(tokens, end) {
                    Some(op) if op == Op::Mul || op == Op::Div => op,
                    _ => {
                        return Ok((left, end));
                    },
                };
                proof {
                    lemma_inside(t, end + 1, 0, true, 2, 0, 1);
                }
                match parse_power(tokens, end + 1) {
                    Err(error) => {
                        return Err(error);
                    },
                    Ok((right, right_end)) => {
                        proof {
                            lemma_binary(
                                t,
                                pos as int,
                                tree_of(left),
                                end as int,
                                op,
                                tree_of(right),
                                right_end as int,
                            );
                        }
                        left = Expr::Binary(op, Box::new(left), Box::new(right));
                        end = right_end;
                    },
                }
            }
        },
    }
}

fn parse_power(tokens: &Vec<Token<String>>, pos: usize) -> (r: Result<
    (Expr<String>, usize),
    CalcError<String>,
>)
    requires
        pos <= tokens@.len(),
    ensures
        operand_read(toks_of(tokens@), pos as int, 2, r),
    decreases tokens@.len() - pos, 1int,
{
    let ghost t = toks_of(tokens@);
    let signed = pos < tokens.len() && match &tokens[pos] {
        Token::Neg => true,
        _ => false,
    };
    if signed {
        return match parse_power(tokens, pos + 1) {
            Err(error) => Err(error),
            Ok((operand, end)) => {
                let expr = Expr::Neg(Box::new(operand));
                assert(written(tree_of(expr)) =~= t.subrange(pos as int, end as int));
                Ok((expr, end))
            },
        };
    }
    proof {
        lemma_inside(t, pos as int, 0, true, 3, 0, 2);
    }
    match parse_atom(tokens, pos) {
        Err(error) => Err(error),
        Ok((base, end)) => {
            match op_at(tokens, end) {
                Some(Op::Pow) => match parse_power(tokens, end + 1) {
                    Err(error) => Err(error),
                    Ok((exponent, exponent_end)) => {
                        proof {
                            lemma_binary(
                                t,
                                pos as int,
                                tree_of(base),
                                end as int,
                                Op::Pow,
                                tree_of(exponent),
                                exponent_end as int,
                            );
                        }
                        Ok((Expr::Binary(Op::Pow, Box::new(base), Box::new(exponent)), exponent_end))
                    },
                },
                _ => Ok((base, end)),
            }
        },
    }
}

fn parse_atom(tokens: &Vec<Token<String>>, pos: usize) -> (r: Result<
    (Expr<String>, usize),
    CalcError<String>,
>)
    requires
        pos <= tokens@.len(),
    ensures
        operand_read(toks_of(tokens@), pos as int, 3, r),
        pos < tokens@.len() ==> match toks_of(tokens@)[pos as int] {
            Token::Num(literal) => r matches Ok((expr, end)) && end == pos + 1 && tree_of(expr)
                == Expr::Num(literal),
            Token::LParen => r matches Ok((expr, end)) ==> tree_of(expr) is Group && toks_of(
                tokens@,
            )[end - 1] is RParen,
            _ => r matches Err(error) && error@ == CalcError::<Seq<char>>::UnexpectedToken(pos),
        },
    decreases tokens@.len() - pos, 0int,
{
    let ghost t = toks_of(tokens@);
    if pos >= tokens.len() {
        return Err(CalcError::UnexpectedEnd);
    }
    match &tokens[pos] {
        Token::Num(text) => {
            let expr = Expr::Num(text.clone());
            assert(written(tree_of(expr)) =~= t.subrange(pos as int, pos + 1));
            assert(operand_end(t, pos + 1, 0, false, 3) == Ok::<int, Fault>(pos + 1));
            Ok((expr, pos + 1))
        },
        Token::LParen => {
            proof {
                lemma_inside(t, pos + 1, 0, true, 0, 1, 3);
            }
            match parse_expr(tokens, pos + 1) {
                Err(error) => Err(error),
                Ok((inner, end)) => {
                    let closed = end < tokens.len() && match &tokens[end] {
                        Token::RParen => true,
                        _ => false,
                    };
                    if !closed {
                        return Err(CalcError::MissingClosingParenthesis);
                    }
                    let expr = Expr::Group(Box::new(inner));
                    assert(written(tree_of(expr)) =~= t.subrange(pos as int, end + 1));
                    assert(operand_end(t, end + 1, 0, false, 3) == Ok::<int, Fault>(end + 1));
                    Ok((expr, end + 1))
                },
            }
        },
        _ => Err(CalcError::UnexpectedToken(pos)),
    }
}

/// Whether an expression is read as this tree, or refused for this fault.
pub open spec fn reads_as(expr: Seq<char>, reading: Result<Tree, Fault>) -> bool {
    match (tokens_of(expr), reading) {
        (Err(fault), Err(error)) => error == fault,
        (Err(_), Ok(_)) => false,
        (Ok(t), Err(error)) => verdict(t) == Err::<(), Fault>(error),
        (Ok(t), Ok(tree)) => {
            &&& verdict(t) == Ok::<(), Fault>(())
            &&& written(tree) == t
            &&& grouped(tree, 0)
        },
    }
}

/// Reads an expression into the tree whose arithmetic is its value.
pub fn evaluate(expr: &str) -> (r: Result<Expr<String>, CalcError<String>>)
    ensures
        reads_as(
            expr@,
            match r {
                Ok(tree) => Ok(tree_of(tree)),
                Err(error) => Err(error@),
            },
        ),
{
    let tokens = match tokenize(expr) {
        Ok(tokens) => tokens,
        Err(error) => return Err(error),
    };
    let ghost t = toks_of(tokens@);
    match parse_expr(&tokens, 0) {
        Err(error) => Err(error),
        Ok((tree, end)) => {
            if end != tokens.len() {
                return Err(CalcError::UnexpectedToken(end));
            }
            assert(t.subrange(0, end as int) =~= t);
            Ok(tree)
        },
    }
}

/// What an error says.
pub open spec fn fault_text(fault: Fault) -> Seq<char> {
    match fault {
        CalcError::InvalidNumber(literal) => "Invalid number: "@ + literal,
        CalcError::UnexpectedCharacter(c) => "Unexpected character: "@.push(c),
        CalcError::UnexpectedToken(position) => "Unexpected token at position "@ + text::decimal_text(
            position as nat,
        ),
        CalcError::UnexpectedEnd => "Unexpected end of expression"@,
        CalcError::MissingClosingParenthesis => "Missing closing parenthesis"@,
    }
}

/// What an error says.
pub fn message(error: &CalcError<String>) -> (r: String)
    ensures
        r@ == fault_text(error@),
{
    match error {
        CalcError::InvalidNumber(literal) => {
            "Invalid number: ".to_owned().concat(literal.as_str())
        },
        CalcError::UnexpectedCharacter(c) => {
            let mut chars: Vec<char> = Vec::new();
            chars.push(*c);
            let r = "Unexpected character: ".to_owned().concat(from_chars(&chars).as_str());
            assert(r@ =~= "Unexpected character: "@.push(*c));
            r
        },
        CalcError::UnexpectedToken(position) => {
            "Unexpected token at position ".to_owned().concat(decimal(*position as u64).as_str())
        },
        CalcError::UnexpectedEnd => "Unexpected end of expression".to_owned(),
        CalcError::MissingClosingParenthesis => "Missing closing parenthesis".to_owned(),
    }
}

} // verus!
