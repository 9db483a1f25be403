//! The Conjure expression language: tokenizer and parser. Expressions are
//! pure by construction (no loops, no recursion, no environment beyond an
//! injected clock), and their nesting is bounded. Number literals are kept
//! as their decimal text; evaluation happens on the host.

use vstd::prelude::*;
use crate::text::{chars_of, push_str, string_of};

verus! {

/// Calls `char::is_alphabetic`: whether `c` has the Unicode `Alphabetic`
/// property. The property table is not restated here: the result is named.
pub uninterp spec fn alphabetic(c: char) -> bool;

/// Calls `char::is_alphanumeric`: whether `c` is `Alphabetic` or numeric
/// (Unicode general categories Nd, Nl, No). The result is named.
pub uninterp spec fn alphanumeric(c: char) -> bool;

/// Whether `c` is alphabetic (`char::is_alphabetic`).
#[verifier::external_body]
fn is_alphabetic(c: char) -> (r: bool)
    ensures
        r == alphabetic(c),
{
    c.is_alphabetic()
}

/// Whether `c` is alphanumeric (`char::is_alphanumeric`).
#[verifier::external_body]
fn is_alphanumeric(c: char) -> (r: bool)
    ensures
        r == alphanumeric(c),
{
    c.is_alphanumeric()
}

/// An error in an expression, for display.
#[derive(Debug)]
pub struct ExprError(pub String);

/// The operators and punctuation of the language.
#[derive(Debug, Clone, Copy, PartialEq, Eq, Structural)]
pub enum OpTok {
    EqEq,
    NotEq,
    LtEq,
    GtEq,
    AndAnd,
    OrOr,
    Plus,
    Minus,
    Star,
    Slash,
    Percent,
    Lt,
    Gt,
    Bang,
    LParen,
    RParen,
    LBracket,
    RBracket,
    Comma,
    Question,
    Colon,
}

/// A token. Numbers keep their text.
#[derive(Debug)]
pub enum Tok {
    Num(String),
    Str(String),
    Ident(String),
    Op(OpTok),
}

/// The view of a token.
pub enum TokV {
    Num(Seq<char>),
    Str(Seq<char>),
    Ident(Seq<char>),
    Op(OpTok),
}

/// The view of a token.
pub open spec fn tok_view(t: Tok) -> TokV {
    match t {
        Tok::Num(s) => TokV::Num(s@),
        Tok::Str(s) => TokV::Str(s@),
        Tok::Ident(s) => TokV::Ident(s@),
        Tok::Op(o) => TokV::Op(o),
    }
}

/// The views of a token list.
pub open spec fn toks_view(s: Seq<Tok>) -> Seq<TokV> {
    s.map_values(|t: Tok| tok_view(t))
}

/// A decimal digit.
pub open spec fn is_digit(c: char) -> bool {
    '0' <= c && c <= '9'
}

/// A character that may continue a number.
pub open spec fn num_char(c: char) -> bool {
    is_digit(c) || c == '.'
}

/// A character that may continue an identifier (dots join the parts of
/// a qualified name such as `math.abs`).
pub open spec fn ident_char(c: char) -> bool {
    alphanumeric(c) || c == '_' || c == '.'
}

/// The end of the run of number characters from `i` on.
pub open spec fn num_span(b: Seq<char>, i: int) -> int
    decreases b.len() - i,
{
    if 0 <= i < b.len() && num_char(b[i]) {
        num_span(b, i + 1)
    } else {
        i
    }
}

/// The end of the run of identifier characters from `i` on.
pub open spec fn ident_span(b: Seq<char>, i: int) -> int
    decreases b.len() - i,
{
    if 0 <= i < b.len() && ident_char(b[i]) {
        ident_span(b, i + 1)
    } else {
        i
    }
}

/// The index of the first `q` from `i` on (the length when none).
pub open spec fn find_char(b: Seq<char>, i: int, q: char) -> int
    decreases b.len() - i,
{
    if 0 <= i < b.len() && b[i] != q {
        find_char(b, i + 1, q)
    } else {
        i
    }
}

/// The number of dots in `s`.
pub open spec fn dots(s: Seq<char>) -> nat
    decreases s.len(),
{
    if s.len() == 0 {
        0
    } else {
        dots(s.drop_last()) + if s.last() == '.' { 1nat } else { 0nat }
    }
}

/// The two-character operator at `i`, if one starts there.
pub open spec fn op2(b: Seq<char>, i: int) -> Option<OpTok> {
    if i + 1 < b.len() {
        let (x, y) = (b[i], b[i + 1]);
        if x == '=' && y == '=' {
            Some(OpTok::EqEq)
        } else if x == '!' && y == '=' {
            Some(OpTok::NotEq)
        } else if x == '<' && y == '=' {
            Some(OpTok::LtEq)
        } else if x == '>' && y == '=' {
            Some(OpTok::GtEq)
        } else if x == '&' && y == '&' {
            Some(OpTok::AndAnd)
        } else if x == '|' && y == '|' {
            Some(OpTok::OrOr)
        } else {
            None
        }
    } else {
        None
    }
}

/// The one-character operator `c`, if it is one.
pub open spec fn op1(c: char) -> Option<OpTok> {
    if c == '+' {
        Some(OpTok::Plus)
    } else if c == '-' {
        Some(OpTok::Minus)
    } else if c == '*' {
        Some(OpTok::Star)
    } else if c == '/' {
        Some(OpTok::Slash)
    } else if c == '%' {
        Some(OpTok::Percent)
    } else if c == '<' {
        Some(OpTok::Lt)
    } else if c == '>' {
        Some(OpTok::Gt)
    } else if c == '!' {
        Some(OpTok::Bang)
    } else if c == '(' {
        Some(OpTok::LParen)
    } else if c == ')' {
        Some(OpTok::RParen)
    } else if c == '[' {
        Some(OpTok::LBracket)
    } else if c == ']' {
        Some(OpTok::RBracket)
    } else if c == ',' {
        Some(OpTok::Comma)
    } else if c == '?' {
        Some(OpTok::Question)
    } else if c == ':' {
        Some(OpTok::Colon)
    } else {
        None
    }
}

/// Prepends a token to a tokenizer result.
pub open spec fn cons(t: TokV, r: Result<Seq<TokV>, Seq<char>>) -> Result<Seq<TokV>, Seq<char>> {
    match r {
        Ok(rest) => Ok(seq![t] + rest),
        Err(e) => Err(e),
    }
}

/// The tokens of `b` from index `i` on, or the first error. Blanks
/// (space, tab, newline, carriage return) separate tokens; a number is a
/// run of digits and dots starting with a digit, or with a dot before a
/// digit, and holds at most one dot; a string runs between matching
/// single or double quotes; an identifier starts with a letter or `_`
/// and continues with letters, digits, `_` and `.`; the two-character
/// operators win over their one-character prefixes.
pub open spec fn lex(b: Seq<char>, i: int) -> Result<Seq<TokV>, Seq<char>>
    decreases b.len() - i, 0int,
{
    if i < 0 || i >= b.len() {
        Ok(Seq::empty())
    } else {
        let c = b[i];
        if c == ' ' || c == '\t' || c == '\n' || c == '\r' {
            lex(b, i + 1)
        } else if is_digit(c) || (c == '.' && i + 1 < b.len() && is_digit(b[i + 1])) {
            let j = num_span(b, i);
            let s = b.subrange(i, j);
            if j <= i || j > b.len() {
                Err(Seq::empty())
            } else if dots(s) > 1 {
                Err("bad number "@ + s)
            } else {
                cons(TokV::Num(s), lex(b, j))
            }
        } else if c == '\'' || c == '"' {
            let k = find_char(b, i + 1, c);
            if k >= b.len() || k <= i {
                Err("unterminated string"@)
            } else {
                cons(TokV::Str(b.subrange(i + 1, k)), lex(b, k + 1))
            }
        } else if alphabetic(c) || c == '_' {
            let j = ident_span(b, i + 1);
            if j <= i || j > b.len() {
                Err(Seq::empty())
            } else {
                cons(TokV::Ident(b.subrange(i, j)), lex(b, j))
            }
        } else {
            match op2(b, i) {
                Some(o) => cons(TokV::Op(o), lex(b, i + 2)),
                None => match op1(c) {
                    Some(o) => cons(TokV::Op(o), lex(b, i + 1)),
                    None => Err("unexpected character `"@ + seq![c] + "`"@),
                },
            }
        }
    }
}

/// A tokenizer result with `pre` in front.
pub open spec fn prepend(pre: Seq<TokV>, r: Result<Seq<TokV>, Seq<char>>) -> Result<Seq<TokV>, Seq<char>> {
    match r {
        Ok(rest) => Ok(pre + rest),
        Err(e) => Err(e),
    }
}

proof fn lemma_num_span(b: Seq<char>, i: int, j: int)
    requires
        0 <= i <= j <= b.len(),
        forall|k: int| i <= k < j ==> num_char(#[trigger] b[k]),
        j == b.len() || !num_char(b[j]),
    ensures
        num_span(b, i) == j,
    decreases j - i,
{
    if i < j {
        lemma_num_span(b, i + 1, j);
    }
}

proof fn lemma_ident_span(b: Seq<char>, i: int, j: int)
    requires
        0 <= i <= j <= b.len(),
        forall|k: int| i <= k < j ==> ident_char(#[trigger] b[k]),
        j == b.len() || !ident_char(b[j]),
    ensures
        ident_span(b, i) == j,
    decreases j - i,
{
    if i < j {
        lemma_ident_span(b, i + 1, j);
    }
}

proof fn lemma_find_char(b: Seq<char>, i: int, j: int, q: char)
    requires
        0 <= i <= j <= b.len(),
        forall|k: int| i <= k < j ==> #[trigger] b[k] != q,
        j == b.len() || b[j] == q,
    ensures
        find_char(b, i, q) == j,
    decreases j - i,
{
    if i < j {
        lemma_find_char(b, i + 1, j, q);
    }
}

proof fn lemma_prepend_cons(pre: Seq<TokV>, t: TokV, r: Result<Seq<TokV>, Seq<char>>)
    ensures
        prepend(pre, cons(t, r)) == prepend(pre.push(t), r),
{
    match r {
        Ok(rest) => {
            assert(pre + (seq![t] + rest) =~= pre.push(t) + rest);
        },
        Err(_) => {},
    }
}

/// The characters `b[lo..hi]` as a string.
fn slice_string(b: &Vec<char>, lo: usize, hi: usize) -> (r: String)
    requires
        lo <= hi <= b@.len(),
    ensures
        r@ == b@.subrange(lo as int, hi as int),
{
    let mut v: Vec<char> = Vec::new();
    let mut k: usize = lo;
    while k < hi
        invariant
            lo <= k <= hi <= b@.len(),
            v@ == b@.subrange(lo as int, k as int),
        decreases hi - k,
    {
        v.push(b[k]);
        k += 1;
        assert(v@ =~= b@.subrange(lo as int, k as int));
    }
    string_of(&v)
}

/// The number of dots in `b[lo..hi]`.
fn count_dots(b: &Vec<char>, lo: usize, hi: usize) -> (r: usize)
    requires
        lo <= hi <= b@.len(),
    ensures
        r == dots(b@.subrange(lo as int, hi as int)),
{
    let mut n: usize = 0;
    let mut k: usize = lo;
    while k < hi
        invariant
            lo <= k <= hi <= b@.len(),
            n == dots(b@.subrange(lo as int, k as int)),
            n <= k - lo,
        decreases hi - k,
    {
        assert(b@.subrange(lo as int, k + 1).drop_last() =~= b@.subrange(lo as int, k as int));
        if b[k] == '.' {
            n += 1;
        }
        k += 1;
    }
    n
}

/// The tokens of `src`, or the first error (see [`lex`]).
pub fn tokenize(src: &str) -> (r: Result<Vec<Tok>, ExprError>)
    ensures
        match lex(src@, 0) {
            Ok(t) => r matches Ok(v) && toks_view(v@) == t,
            Err(e) => r matches Err(x) && x.0@ == e,
        },
{
    let b = chars_of(src);
    let mut out: Vec<Tok> = Vec::new();
    let mut i: usize = 0;
    assert(prepend(Seq::empty(), lex(b@, 0)) == lex(b@, 0)) by {
        match lex(b@, 0) {
            Ok(t) => {
                assert(Seq::<TokV>::empty() + t =~= t);
            },
            Err(_) => {},
        }
    }
    while i < b.len()
        invariant
            i <= b@.len(),
            b@ == src@,
            lex(b@, 0) == prepend(toks_view(out@), lex(b@, i as int)),
        decreases b.len() - i,
    {
        let c = b[i];
        let ghost pre = toks_view(out@);
        if c == ' ' || c == '\t' || c == '\n' || c == '\r' {
            i += 1;
        } else if ('0' <= c && c <= '9') || (c == '.' && i + 1 < b.len() && '0' <= b[i + 1] && b[i + 1] <= '9') {
            let start = i;
            let mut j = i;
            while j < b.len() && (('0' <= b[j] && b[j] <= '9') || b[j] == '.')
                invariant
                    start <= j <= b@.len(),
                    forall|k: int| start <= k < j ==> num_char(#[trigger] b@[k]),
                decreases b.len() - j,
            {
                j += 1;
            }
            proof {
                lemma_num_span(b@, start as int, j as int);
            }
            let nd = count_dots(&b, start, j);
            let text = slice_string(&b, start, j);
            if nd > 1 {
                let mut m: Vec<char> = Vec::new();
                push_str(&mut m, "bad number ");
                push_str(&mut m, text.as_str());
                return Err(ExprError(string_of(&m)));
            }
            let t = Tok::Num(text);
            proof {
                lemma_prepend_cons(pre, tok_view(t), lex(b@, j as int));
            }
            out.push(t);
            assert(toks_view(out@) =~= pre.push(tok_view(t)));
            i = j;
        } else if c == '\'' || c == '"' {
            let start = i + 1;
            let mut k = start;
            while k < b.len() && b[k] != c
                invariant
                    start <= k <= b@.len(),
                    forall|m: int| start <= m < k ==> #[trigger] b@[m] != c,
                decreases b.len() - k,
            {
                k += 1;
            }
            proof {
                lemma_find_char(b@, start as int, k as int, c);
            }
            if k >= b.len() {
                return Err(ExprError(String::from_str("unterminated string")));
            }
            let t = Tok::Str(slice_string(&b, start, k));
            proof {
                lemma_prepend_cons(pre, tok_view(t), lex(b@, k + 1));
            }
            out.push(t);
            assert(toks_view(out@) =~= pre.push(tok_view(t)));
            i = k + 1;
        } else if is_alphabetic(c) || c == '_' {
            let start = i;
            let mut j = i + 1;
            while j < b.len() && (is_alphanumeric(b[j]) || b[j] == '_' || b[j] == '.')
                invariant
                    start < j <= b@.len(),
                    forall|k: int| start + 1 <= k < j ==> ident_char(#[trigger] b@[k]),
                decreases b.len() - j,
            {
                j += 1;
            }
            proof {
                lemma_ident_span(b@, start + 1, j as int);
            }
            let t = Tok::Ident(slice_string(&b, start, j));
            proof {
                lemma_prepend_cons(pre, tok_view(t), lex(b@, j as int));
            }
            out.push(t);
            assert(toks_view(out@) =~= pre.push(tok_view(t)));
            i = j;
        } else {
            let two: Option<OpTok> = if i + 1 < b.len() {
                let d = b[i + 1];
                if c == '=' && d == '=' {
                    Some(OpTok::EqEq)
                } else if c == '!' && d == '=' {
                    Some(OpTok::NotEq)
                } else if c == '<' && d == '=' {
                    Some(OpTok::LtEq)
                } else if c == '>' && d == '=' {
                    Some(OpTok::GtEq)
                } else if c == '&' && d == '&' {
                    Some(OpTok::AndAnd)
                } else if c == '|' && d == '|' {
                    Some(OpTok::OrOr)
                } else {
                    None
                }
            } else {
                None
            };
            assert(two == op2(b@, i as int));
            match two {
                Some(o) => {
                    proof {
                        lemma_prepend_cons(pre, TokV::Op(o), lex(b@, i + 2));
                    }
                    out.push(Tok::Op(o));
                    assert(toks_view(out@) =~= pre.push(TokV::Op(o)));
                    i = i + 2;
                },
                None => {
                    let one: Option<OpTok> = if c == '+' {
                        Some(OpTok::Plus)
                    } else if c == '-' {
                        Some(OpTok::Minus)
                    } else if c == '*' {
                        Some(OpTok::Star)
                    } else if c == '/' {
                        Some(OpTok::Slash)
                    } else if c == '%' {
                        Some(OpTok::Percent)
                    } else if c == '<' {
                        Some(OpTok::Lt)
                    } else if c == '>' {
                        Some(OpTok::Gt)
                    } else if c == '!' {
                        Some(OpTok::Bang)
                    } else if c == '(' {
                        Some(OpTok::LParen)
                    } else if c == ')' {
                        Some(OpTok::RParen)
                    } else if c == '[' {
                        Some(OpTok::LBracket)
                    } else if c == ']' {
                        Some(OpTok::RBracket)
                    } else if c == ',' {
                        Some(OpTok::Comma)
                    } else if c == '?' {
                        Some(OpTok::Question)
                    } else if c == ':' {
                        Some(OpTok::Colon)
                    } else {
                        None
                    };
                    assert(one == op1(c));
                    match one {
                        Some(o) => {
                            proof {
                                lemma_prepend_cons(pre, TokV::Op(o), lex(b@, i + 1));
                            }
                            out.push(Tok::Op(o));
                            assert(toks_view(out@) =~= pre.push(TokV::Op(o)));
                            i = i + 1;
                        },
                        None => {
                            let mut m: Vec<char> = Vec::new();
                            push_str(&mut m, "unexpected character `");
                            m.push(c);
                            push_str(&mut m, "`");
                            assert(m@ =~= "unexpected character `"@ + seq![c] + "`"@);
                            return Err(ExprError(string_of(&m)));
                        },
                    }
                },
            }
        }
    }
    assert(lex(b@, i as int) == Ok::<Seq<TokV>, Seq<char>>(Seq::empty()));
    assert(toks_view(out@) + Seq::<TokV>::empty() =~= toks_view(out@));
    Ok(out)
}

/// The binary operators.
#[derive(Debug, Clone, Copy, PartialEq, Eq, Structural)]
pub enum BinOp {
    Add,
    Sub,
    Mul,
    Div,
    Mod,
    Eq,
    Ne,
    Lt,
    Le,
    Gt,
    Ge,
    And,
    Or,
}

/// An expression. Number literals keep their decimal text.
#[derive(Debug)]
pub enum Expr {
    Num(String),
    Str(String),
    Bool(bool),
    Ident(String),
    List(Vec<Expr>),
    Not(Box<Expr>),
    Neg(Box<Expr>),
    Bin(BinOp, Box<Expr>, Box<Expr>),
    Ternary(Box<Expr>, Box<Expr>, Box<Expr>),
    Call(String, Vec<Expr>),
    Index(Box<Expr>, Box<Expr>),
}

/// The view of an expression.
pub enum ExprV {
    Num(Seq<char>),
    Str(Seq<char>),
    Bool(bool),
    Ident(Seq<char>),
    List(Seq<ExprV>),
    Not(Box<ExprV>),
    Neg(Box<ExprV>),
    Bin(BinOp, Box<ExprV>, Box<ExprV>),
    Ternary(Box<ExprV>, Box<ExprV>, Box<ExprV>),
    Call(Seq<char>, Seq<ExprV>),
    Index(Box<ExprV>, Box<ExprV>),
}

/// The view of an expression.
pub open spec fn expr_view(e: Expr) -> ExprV
    decreases e,
{
    match e {
        Expr::Num(s) => ExprV::Num(s@),
        Expr::Str(s) => ExprV::Str(s@),
        Expr::Bool(b) => ExprV::Bool(b),
        Expr::Ident(s) => ExprV::Ident(s@),
        Expr::List(v) => ExprV::List(exprs_view(v@)),
        Expr::Not(a) => ExprV::Not(Box::new(expr_view(*a))),
        Expr::Neg(a) => ExprV::Neg(Box::new(expr_view(*a))),
        Expr::Bin(o, a, b) => ExprV::Bin(o, Box::new(expr_view(*a)), Box::new(expr_view(*b))),
        Expr::Ternary(c, a, b) => ExprV::Ternary(
            Box::new(expr_view(*c)),
            Box::new(expr_view(*a)),
            Box::new(expr_view(*b)),
        ),
        Expr::Call(n, v) => ExprV::Call(n@, exprs_view(v@)),
        Expr::Index(a, b) => ExprV::Index(Box::new(expr_view(*a)), Box::new(expr_view(*b))),
    }
}

/// The views of a list of expressions.
pub open spec fn exprs_view(s: Seq<Expr>) -> Seq<ExprV>
    decreases s,
{
    if s.len() == 0 {
        Seq::empty()
    } else {
        exprs_view(s.drop_last()).push(expr_view(s.last()))
    }
}

/// The deepest nesting of parentheses, brackets and ternaries the parser
/// accepts.
pub const MAX_DEPTH: u32 = 32;

/// The spelling of a binary operator in the expression language.
pub open spec fn bin_spelling(o: BinOp) -> Seq<char> {
    match o {
        BinOp::Add => "+"@,
        BinOp::Sub => "-"@,
        BinOp::Mul => "*"@,
        BinOp::Div => "/"@,
        BinOp::Mod => "%"@,
        BinOp::Eq => "=="@,
        BinOp::Ne => "!="@,
        BinOp::Lt => "<"@,
        BinOp::Le => "<="@,
        BinOp::Gt => ">"@,
        BinOp::Ge => ">="@,
        BinOp::And => "&&"@,
        BinOp::Or => "||"@,
    }
}

/// Whether an operator token compares.
pub open spec fn is_comparison_tok(o: OpTok) -> bool {
    o == OpTok::EqEq || o == OpTok::NotEq || o == OpTok::Lt || o == OpTok::LtEq || o == OpTok::Gt || o == OpTok::GtEq
}

/// One atom at `p` parses to itself, at every level below the ternary,
/// and stops before a comparison token at `p + 1` (or at the end).
proof fn lemma_atom_sum(t: Seq<TokV>, p: int, d: int, n: Seq<char>)
    requires
        0 <= p < t.len(),
        1 <= d <= 32,
        t[p] == TokV::Num(n),
        p + 1 == t.len() || (t[p + 1] is Op && is_comparison_tok(t[p + 1]->Op_0)),
    ensures
        p_add(t, p, d) == Ok::<(ExprV, int), Seq<char>>((ExprV::Num(n), p + 1)),
{
    assert(p_primary(t, p, d) == Ok::<(ExprV, int), Seq<char>>((ExprV::Num(n), p + 1)));
    assert(!op_at(t, p + 1, OpTok::LBracket));
    assert(p_index_rest(t, p + 1, d, ExprV::Num(n)) == Ok::<(ExprV, int), Seq<char>>((ExprV::Num(n), p + 1)));
    assert(p_postfix(t, p, d) == Ok::<(ExprV, int), Seq<char>>((ExprV::Num(n), p + 1)));
    assert(!op_at(t, p, OpTok::Bang) && !op_at(t, p, OpTok::Minus));
    assert(p_unary(t, p, d) == Ok::<(ExprV, int), Seq<char>>((ExprV::Num(n), p + 1)));
    assert(p_mul_rest(t, p + 1, d, ExprV::Num(n)) == Ok::<(ExprV, int), Seq<char>>((ExprV::Num(n), p + 1)));
    assert(p_mul(t, p, d) == Ok::<(ExprV, int), Seq<char>>((ExprV::Num(n), p + 1)));
    assert(p_add_rest(t, p + 1, d, ExprV::Num(n)) == Ok::<(ExprV, int), Seq<char>>((ExprV::Num(n), p + 1)));
}

/// A comparison parses to the operator it spells: for numbers `a`, `b`
/// and a comparison token `o`, the tokens `a o b` parse to a binary
/// comparison of `a` and `b` whose operator is spelled as `o` is
/// (`<` is less-than, `>=` greater-or-equal, and so on).
pub proof fn law_comparison_spelled(a: Seq<char>, o: OpTok, b: Seq<char>)
    requires
        is_comparison_tok(o),
    ensures
        parse_tokens(seq![TokV::Num(a), TokV::Op(o), TokV::Num(b)]) matches Ok(ExprV::Bin(op, x, y))
            && bin_spelling(op) == op_spelling(o) && *x == ExprV::Num(a) && *y == ExprV::Num(b),
{
    let t = seq![TokV::Num(a), TokV::Op(o), TokV::Num(b)];
    let d = 1int;
    lemma_atom_sum(t, 0, d, a);
    lemma_atom_sum(t, 2, d, b);
    let op = comparison_op(t[1])->0;
    let e = ExprV::Bin(op, Box::new(ExprV::Num(a)), Box::new(ExprV::Num(b)));
    assert(comparison_op(t[1]) is Some);
    assert(p_comparison(t, 0, d) == Ok::<(ExprV, int), Seq<char>>((e, 3)));
    assert(p_and_rest(t, 3, d, e) == Ok::<(ExprV, int), Seq<char>>((e, 3)));
    assert(p_and(t, 0, d) == Ok::<(ExprV, int), Seq<char>>((e, 3)));
    assert(p_or_rest(t, 3, d, e) == Ok::<(ExprV, int), Seq<char>>((e, 3)));
    assert(p_or(t, 0, d) == Ok::<(ExprV, int), Seq<char>>((e, 3)));
    assert(p_expr(t, 0, 0) == Ok::<(ExprV, int), Seq<char>>((e, 3)));
    reveal_strlit("==");
    reveal_strlit("!=");
    reveal_strlit("<");
    reveal_strlit("<=");
    reveal_strlit(">");
    reveal_strlit(">=");
}

/// One number at `p` that no `[` follows is a whole unary expression.
proof fn lemma_atom_unary(t: Seq<TokV>, p: int, d: int, n: Seq<char>)
    requires
        0 <= p < t.len(),
        1 <= d <= 32,
        t[p] == TokV::Num(n),
        !op_at(t, p + 1, OpTok::LBracket),
    ensures
        p_unary(t, p, d) == Ok::<(ExprV, int), Seq<char>>((ExprV::Num(n), p + 1)),
{
    assert(p_primary(t, p, d) == Ok::<(ExprV, int), Seq<char>>((ExprV::Num(n), p + 1)));
    assert(p_index_rest(t, p + 1, d, ExprV::Num(n)) == Ok::<(ExprV, int), Seq<char>>((ExprV::Num(n), p + 1)));
    assert(p_postfix(t, p, d) == Ok::<(ExprV, int), Seq<char>>((ExprV::Num(n), p + 1)));
}

/// Whether an operator token is arithmetic.
pub open spec fn is_arith_tok(o: OpTok) -> bool {
    o == OpTok::Plus || o == OpTok::Minus || o == OpTok::Star || o == OpTok::Slash || o == OpTok::Percent
}

/// Whether an operator token is logical.
pub open spec fn is_logic_tok(o: OpTok) -> bool {
    o == OpTok::AndAnd || o == OpTok::OrOr
}

/// From a sum of the whole list at `d`, the parse of the whole list.
proof fn lemma_sum_is_whole(t: Seq<TokV>, d: int, e: ExprV)
    requires
        1 <= d <= 32,
        t.len() == 3,
        p_add(t, 0, d) == Ok::<(ExprV, int), Seq<char>>((e, 3)),
    ensures
        p_expr(t, 0, d - 1) == Ok::<(ExprV, int), Seq<char>>((e, 3)),
{
    assert(p_comparison(t, 0, d) == Ok::<(ExprV, int), Seq<char>>((e, 3)));
    assert(p_and_rest(t, 3, d, e) == Ok::<(ExprV, int), Seq<char>>((e, 3)));
    assert(p_and(t, 0, d) == Ok::<(ExprV, int), Seq<char>>((e, 3)));
    assert(p_or_rest(t, 3, d, e) == Ok::<(ExprV, int), Seq<char>>((e, 3)));
    assert(p_or(t, 0, d) == Ok::<(ExprV, int), Seq<char>>((e, 3)));
}

/// Arithmetic parses to the operator it spells: for numbers `a`, `b` and
/// an arithmetic token `o`, the tokens `a o b` parse to the operation
/// spelled as `o` is, applied to `a` and `b` in that order.
pub proof fn law_arith_spelled(a: Seq<char>, o: OpTok, b: Seq<char>)
    requires
        is_arith_tok(o),
    ensures
        parse_tokens(seq![TokV::Num(a), TokV::Op(o), TokV::Num(b)]) matches Ok(ExprV::Bin(op, x, y))
            && bin_spelling(op) == op_spelling(o) && *x == ExprV::Num(a) && *y == ExprV::Num(b),
{
    let t = seq![TokV::Num(a), TokV::Op(o), TokV::Num(b)];
    let d = 1int;
    lemma_atom_unary(t, 0, d, a);
    lemma_atom_unary(t, 2, d, b);
    let na = ExprV::Num(a);
    let nb = ExprV::Num(b);
    if o == OpTok::Plus || o == OpTok::Minus {
        let e = ExprV::Bin(add_op(t[1])->0, Box::new(na), Box::new(nb));
        assert(p_mul_rest(t, 1, d, na) == Ok::<(ExprV, int), Seq<char>>((na, 1)));
        assert(p_mul(t, 0, d) == Ok::<(ExprV, int), Seq<char>>((na, 1)));
        assert(p_mul_rest(t, 3, d, nb) == Ok::<(ExprV, int), Seq<char>>((nb, 3)));
        assert(p_mul(t, 2, d) == Ok::<(ExprV, int), Seq<char>>((nb, 3)));
        assert(p_add_rest(t, 3, d, e) == Ok::<(ExprV, int), Seq<char>>((e, 3)));
        assert(p_add_rest(t, 1, d, na) == Ok::<(ExprV, int), Seq<char>>((e, 3)));
        assert(p_add(t, 0, d) == Ok::<(ExprV, int), Seq<char>>((e, 3)));
        lemma_sum_is_whole(t, d, e);
    } else {
        let e = ExprV::Bin(mul_op(t[1])->0, Box::new(na), Box::new(nb));
        assert(p_mul_rest(t, 3, d, e) == Ok::<(ExprV, int), Seq<char>>((e, 3)));
        assert(p_mul_rest(t, 1, d, na) == Ok::<(ExprV, int), Seq<char>>((e, 3)));
        assert(p_mul(t, 0, d) == Ok::<(ExprV, int), Seq<char>>((e, 3)));
        assert(p_add_rest(t, 3, d, e) == Ok::<(ExprV, int), Seq<char>>((e, 3)));
        assert(p_add(t, 0, d) == Ok::<(ExprV, int), Seq<char>>((e, 3)));
        lemma_sum_is_whole(t, d, e);
    }
    reveal_strlit("+");
    reveal_strlit("-");
    reveal_strlit("*");
    reveal_strlit("/");
    reveal_strlit("%");
}

/// Logic parses to the connective it spells: for numbers `a`, `b` and a
/// logical token `o`, the tokens `a o b` parse to `a` and `b` joined by the
/// connective spelled as `o` is (`&&` is and, `||` is or).
pub proof fn law_logic_spelled(a: Seq<char>, o: OpTok, b: Seq<char>)
    requires
        is_logic_tok(o),
    ensures
        parse_tokens(seq![TokV::Num(a), TokV::Op(o), TokV::Num(b)]) matches Ok(ExprV::Bin(op, x, y))
            && bin_spelling(op) == op_spelling(o) && *x == ExprV::Num(a) && *y == ExprV::Num(b),
{
    let t = seq![TokV::Num(a), TokV::Op(o), TokV::Num(b)];
    let d = 1int;
    lemma_atom_unary(t, 0, d, a);
    lemma_atom_unary(t, 2, d, b);
    let na = ExprV::Num(a);
    let nb = ExprV::Num(b);
    assert(p_mul_rest(t, 1, d, na) == Ok::<(ExprV, int), Seq<char>>((na, 1)));
    assert(p_mul(t, 0, d) == Ok::<(ExprV, int), Seq<char>>((na, 1)));
    assert(p_add_rest(t, 1, d, na) == Ok::<(ExprV, int), Seq<char>>((na, 1)));
    assert(p_add(t, 0, d) == Ok::<(ExprV, int), Seq<char>>((na, 1)));
    assert(p_comparison(t, 0, d) == Ok::<(ExprV, int), Seq<char>>((na, 1)));
    assert(p_mul_rest(t, 3, d, nb) == Ok::<(ExprV, int), Seq<char>>((nb, 3)));
    assert(p_mul(t, 2, d) == Ok::<(ExprV, int), Seq<char>>((nb, 3)));
    assert(p_add_rest(t, 3, d, nb) == Ok::<(ExprV, int), Seq<char>>((nb, 3)));
    assert(p_add(t, 2, d) == Ok::<(ExprV, int), Seq<char>>((nb, 3)));
    assert(p_comparison(t, 2, d) == Ok::<(ExprV, int), Seq<char>>((nb, 3)));
    if o == OpTok::AndAnd {
        let e = ExprV::Bin(BinOp::And, Box::new(na), Box::new(nb));
        assert(p_and_rest(t, 3, d, e) == Ok::<(ExprV, int), Seq<char>>((e, 3)));
        assert(p_and_rest(t, 1, d, na) == Ok::<(ExprV, int), Seq<char>>((e, 3)));
        assert(p_and(t, 0, d) == Ok::<(ExprV, int), Seq<char>>((e, 3)));
        assert(p_or_rest(t, 3, d, e) == Ok::<(ExprV, int), Seq<char>>((e, 3)));
        assert(p_or(t, 0, d) == Ok::<(ExprV, int), Seq<char>>((e, 3)));
        assert(p_expr(t, 0, 0) == Ok::<(ExprV, int), Seq<char>>((e, 3)));
    } else {
        let e = ExprV::Bin(BinOp::Or, Box::new(na), Box::new(nb));
        assert(p_and_rest(t, 1, d, na) == Ok::<(ExprV, int), Seq<char>>((na, 1)));
        assert(p_and(t, 0, d) == Ok::<(ExprV, int), Seq<char>>((na, 1)));
        assert(p_and_rest(t, 3, d, nb) == Ok::<(ExprV, int), Seq<char>>((nb, 3)));
        assert(p_and(t, 2, d) == Ok::<(ExprV, int), Seq<char>>((nb, 3)));
        assert(p_or_rest(t, 3, d, e) == Ok::<(ExprV, int), Seq<char>>((e, 3)));
        assert(p_or_rest(t, 1, d, na) == Ok::<(ExprV, int), Seq<char>>((e, 3)));
        assert(p_or(t, 0, d) == Ok::<(ExprV, int), Seq<char>>((e, 3)));
        assert(p_expr(t, 0, 0) == Ok::<(ExprV, int), Seq<char>>((e, 3)));
    }
    reveal_strlit("&&");
    reveal_strlit("||");
}

/// `==` reads as its operator.
proof fn lemma_lex_eqeq()
    requires
        forall|i: int| 0 <= i < "=="@.len() ==> !alphabetic(#[trigger] "=="@[i]),
    ensures
        lex("=="@, 0) == Ok::<Seq<TokV>, Seq<char>>(seq![TokV::Op(OpTok::EqEq)]),
{
    reveal_strlit("==");
    let b = "=="@;
    assert(!alphabetic(b[0]));
    assert(lex(b, 2) == Ok::<Seq<TokV>, Seq<char>>(Seq::empty()));
    assert(seq![TokV::Op(OpTok::EqEq)] + Seq::<TokV>::empty() =~= seq![TokV::Op(OpTok::EqEq)]);
}

/// `!=` reads as its operator.
proof fn lemma_lex_noteq()
    requires
        forall|i: int| 0 <= i < "!="@.len() ==> !alphabetic(#[trigger] "!="@[i]),
    ensures
        lex("!="@, 0) == Ok::<Seq<TokV>, Seq<char>>(seq![TokV::Op(OpTok::NotEq)]),
{
    reveal_strlit("!=");
    let b = "!="@;
    assert(!alphabetic(b[0]));
    assert(lex(b, 2) == Ok::<Seq<TokV>, Seq<char>>(Seq::empty()));
    assert(seq![TokV::Op(OpTok::NotEq)] + Seq::<TokV>::empty() =~= seq![TokV::Op(OpTok::NotEq)]);
}

/// `<=` reads as its operator.
proof fn lemma_lex_lteq()
    requires
        forall|i: int| 0 <= i < "<="@.len() ==> !alphabetic(#[trigger] "<="@[i]),
    ensures
        lex("<="@, 0) == Ok::<Seq<TokV>, Seq<char>>(seq![TokV::Op(OpTok::LtEq)]),
{
    reveal_strlit("<=");
    let b = "<="@;
    assert(!alphabetic(b[0]));
    assert(lex(b, 2) == Ok::<Seq<TokV>, Seq<char>>(Seq::empty()));
    assert(seq![TokV::Op(OpTok::LtEq)] + Seq::<TokV>::empty() =~= seq![TokV::Op(OpTok::LtEq)]);
}

/// `>=` reads as its operator.
proof fn lemma_lex_gteq()
    requires
        forall|i: int| 0 <= i < ">="@.len() ==> !alphabetic(#[trigger] ">="@[i]),
    ensures
        lex(">="@, 0) == Ok::<Seq<TokV>, Seq<char>>(seq![TokV::Op(OpTok::GtEq)]),
{
    reveal_strlit(">=");
    let b = ">="@;
    assert(!alphabetic(b[0]));
    assert(lex(b, 2) == Ok::<Seq<TokV>, Seq<char>>(Seq::empty()));
    assert(seq![TokV::Op(OpTok::GtEq)] + Seq::<TokV>::empty() =~= seq![TokV::Op(OpTok::GtEq)]);
}

/// `&&` reads as its operator.
proof fn lemma_lex_andand()
    requires
        forall|i: int| 0 <= i < "&&"@.len() ==> !alphabetic(#[trigger] "&&"@[i]),
    ensures
        lex("&&"@, 0) == Ok::<Seq<TokV>, Seq<char>>(seq![TokV::Op(OpTok::AndAnd)]),
{
    reveal_strlit("&&");
    let b = "&&"@;
    assert(!alphabetic(b[0]));
    assert(lex(b, 2) == Ok::<Seq<TokV>, Seq<char>>(Seq::empty()));
    assert(seq![TokV::Op(OpTok::AndAnd)] + Seq::<TokV>::empty() =~= seq![TokV::Op(OpTok::AndAnd)]);
}

/// `||` reads as its operator.
proof fn lemma_lex_oror()
    requires
        forall|i: int| 0 <= i < "||"@.len() ==> !alphabetic(#[trigger] "||"@[i]),
    ensures
        lex("||"@, 0) == Ok::<Seq<TokV>, Seq<char>>(seq![TokV::Op(OpTok::OrOr)]),
{
    reveal_strlit("||");
    let b = "||"@;
    assert(!alphabetic(b[0]));
    assert(lex(b, 2) == Ok::<Seq<TokV>, Seq<char>>(Seq::empty()));
    assert(seq![TokV::Op(OpTok::OrOr)] + Seq::<TokV>::empty() =~= seq![TokV::Op(OpTok::OrOr)]);
}

/// `+` reads as its operator.
proof fn lemma_lex_plus()
    requires
        forall|i: int| 0 <= i < "+"@.len() ==> !alphabetic(#[trigger] "+"@[i]),
    ensures
        lex("+"@, 0) == Ok::<Seq<TokV>, Seq<char>>(seq![TokV::Op(OpTok::Plus)]),
{
    reveal_strlit("+");
    let b = "+"@;
    assert(!alphabetic(b[0]));
    assert(lex(b, 1) == Ok::<Seq<TokV>, Seq<char>>(Seq::empty()));
    assert(seq![TokV::Op(OpTok::Plus)] + Seq::<TokV>::empty() =~= seq![TokV::Op(OpTok::Plus)]);
}

/// `-` reads as its operator.
proof fn lemma_lex_minus()
    requires
        forall|i: int| 0 <= i < "-"@.len() ==> !alphabetic(#[trigger] "-"@[i]),
    ensures
        lex("-"@, 0) == Ok::<Seq<TokV>, Seq<char>>(seq![TokV::Op(OpTok::Minus)]),
{
    reveal_strlit("-");
    let b = "-"@;
    assert(!alphabetic(b[0]));
    assert(lex(b, 1) == Ok::<Seq<TokV>, Seq<char>>(Seq::empty()));
    assert(seq![TokV::Op(OpTok::Minus)] + Seq::<TokV>::empty() =~= seq![TokV::Op(OpTok::Minus)]);
}

/// `*` reads as its operator.
proof fn lemma_lex_star()
    requires
        forall|i: int| 0 <= i < "*"@.len() ==> !alphabetic(#[trigger] "*"@[i]),
    ensures
        lex("*"@, 0) == Ok::<Seq<TokV>, Seq<char>>(seq![TokV::Op(OpTok::Star)]),
{
    reveal_strlit("*");
    let b = "*"@;
    assert(!alphabetic(b[0]));
    assert(lex(b, 1) == Ok::<Seq<TokV>, Seq<char>>(Seq::empty()));
    assert(seq![TokV::Op(OpTok::Star)] + Seq::<TokV>::empty() =~= seq![TokV::Op(OpTok::Star)]);
}

/// `/` reads as its operator.
proof fn lemma_lex_slash()
    requires
        forall|i: int| 0 <= i < "/"@.len() ==> !alphabetic(#[trigger] "/"@[i]),
    ensures
        lex("/"@, 0) == Ok::<Seq<TokV>, Seq<char>>(seq![TokV::Op(OpTok::Slash)]),
{
    reveal_strlit("/");
    let b = "/"@;
    assert(!alphabetic(b[0]));
    assert(lex(b, 1) == Ok::<Seq<TokV>, Seq<char>>(Seq::empty()));
    assert(seq![TokV::Op(OpTok::Slash)] + Seq::<TokV>::empty() =~= seq![TokV::Op(OpTok::Slash)]);
}

/// `%` reads as its operator.
proof fn lemma_lex_percent()
    requires
        forall|i: int| 0 <= i < "%"@.len() ==> !alphabetic(#[trigger] "%"@[i]),
    ensures
        lex("%"@, 0) == Ok::<Seq<TokV>, Seq<char>>(seq![TokV::Op(OpTok::Percent)]),
{
    reveal_strlit("%");
    let b = "%"@;
    assert(!alphabetic(b[0]));
    assert(lex(b, 1) == Ok::<Seq<TokV>, Seq<char>>(Seq::empty()));
    assert(seq![TokV::Op(OpTok::Percent)] + Seq::<TokV>::empty() =~= seq![TokV::Op(OpTok::Percent)]);
}

/// `<` reads as its operator.
proof fn lemma_lex_lt()
    requires
        forall|i: int| 0 <= i < "<"@.len() ==> !alphabetic(#[trigger] "<"@[i]),
    ensures
        lex("<"@, 0) == Ok::<Seq<TokV>, Seq<char>>(seq![TokV::Op(OpTok::Lt)]),
{
    reveal_strlit("<");
    let b = "<"@;
    assert(!alphabetic(b[0]));
    assert(lex(b, 1) == Ok::<Seq<TokV>, Seq<char>>(Seq::empty()));
    assert(seq![TokV::Op(OpTok::Lt)] + Seq::<TokV>::empty() =~= seq![TokV::Op(OpTok::Lt)]);
}

/// `>` reads as its operator.
proof fn lemma_lex_gt()
    requires
        forall|i: int| 0 <= i < ">"@.len() ==> !alphabetic(#[trigger] ">"@[i]),
    ensures
        lex(">"@, 0) == Ok::<Seq<TokV>, Seq<char>>(seq![TokV::Op(OpTok::Gt)]),
{
    reveal_strlit(">");
    let b = ">"@;
    assert(!alphabetic(b[0]));
    assert(lex(b, 1) == Ok::<Seq<TokV>, Seq<char>>(Seq::empty()));
    assert(seq![TokV::Op(OpTok::Gt)] + Seq::<TokV>::empty() =~= seq![TokV::Op(OpTok::Gt)]);
}

/// `!` reads as its operator.
proof fn lemma_lex_bang()
    requires
        forall|i: int| 0 <= i < "!"@.len() ==> !alphabetic(#[trigger] "!"@[i]),
    ensures
        lex("!"@, 0) == Ok::<Seq<TokV>, Seq<char>>(seq![TokV::Op(OpTok::Bang)]),
{
    reveal_strlit("!");
    let b = "!"@;
    assert(!alphabetic(b[0]));
    assert(lex(b, 1) == Ok::<Seq<TokV>, Seq<char>>(Seq::empty()));
    assert(seq![TokV::Op(OpTok::Bang)] + Seq::<TokV>::empty() =~= seq![TokV::Op(OpTok::Bang)]);
}

/// `(` reads as its operator.
proof fn lemma_lex_lparen()
    requires
        forall|i: int| 0 <= i < "("@.len() ==> !alphabetic(#[trigger] "("@[i]),
    ensures
        lex("("@, 0) == Ok::<Seq<TokV>, Seq<char>>(seq![TokV::Op(OpTok::LParen)]),
{
    reveal_strlit("(");
    let b = "("@;
    assert(!alphabetic(b[0]));
    assert(lex(b, 1) == Ok::<Seq<TokV>, Seq<char>>(Seq::empty()));
    assert(seq![TokV::Op(OpTok::LParen)] + Seq::<TokV>::empty() =~= seq![TokV::Op(OpTok::LParen)]);
}

/// `)` reads as its operator.
proof fn lemma_lex_rparen()
    requires
        forall|i: int| 0 <= i < ")"@.len() ==> !alphabetic(#[trigger] ")"@[i]),
    ensures
        lex(")"@, 0) == Ok::<Seq<TokV>, Seq<char>>(seq![TokV::Op(OpTok::RParen)]),
{
    reveal_strlit(")");
    let b = ")"@;
    assert(!alphabetic(b[0]));
    assert(lex(b, 1) == Ok::<Seq<TokV>, Seq<char>>(Seq::empty()));
    assert(seq![TokV::Op(OpTok::RParen)] + Seq::<TokV>::empty() =~= seq![TokV::Op(OpTok::RParen)]);
}

/// `[` reads as its operator.
proof fn lemma_lex_lbracket()
    requires
        forall|i: int| 0 <= i < "["@.len() ==> !alphabetic(#[trigger] "["@[i]),
    ensures
        lex("["@, 0) == Ok::<Seq<TokV>, Seq<char>>(seq![TokV::Op(OpTok::LBracket)]),
{
    reveal_strlit("[");
    let b = "["@;
    assert(!alphabetic(b[0]));
    assert(lex(b, 1) == Ok::<Seq<TokV>, Seq<char>>(Seq::empty()));
    assert(seq![TokV::Op(OpTok::LBracket)] + Seq::<TokV>::empty() =~= seq![TokV::Op(OpTok::LBracket)]);
}

/// `]` reads as its operator.
proof fn lemma_lex_rbracket()
    requires
        forall|i: int| 0 <= i < "]"@.len() ==> !alphabetic(#[trigger] "]"@[i]),
    ensures
        lex("]"@, 0) == Ok::<Seq<TokV>, Seq<char>>(seq![TokV::Op(OpTok::RBracket)]),
{
    reveal_strlit("]");
    let b = "]"@;
    assert(!alphabetic(b[0]));
    assert(lex(b, 1) == Ok::<Seq<TokV>, Seq<char>>(Seq::empty()));
    assert(seq![TokV::Op(OpTok::RBracket)] + Seq::<TokV>::empty() =~= seq![TokV::Op(OpTok::RBracket)]);
}

/// `,` reads as its operator.
proof fn lemma_lex_comma()
    requires
        forall|i: int| 0 <= i < ","@.len() ==> !alphabetic(#[trigger] ","@[i]),
    ensures
        lex(","@, 0) == Ok::<Seq<TokV>, Seq<char>>(seq![TokV::Op(OpTok::Comma)]),
{
    reveal_strlit(",");
    let b = ","@;
    assert(!alphabetic(b[0]));
    assert(lex(b, 1) == Ok::<Seq<TokV>, Seq<char>>(Seq::empty()));
    assert(seq![TokV::Op(OpTok::Comma)] + Seq::<TokV>::empty() =~= seq![TokV::Op(OpTok::Comma)]);
}

/// `?` reads as its operator.
proof fn lemma_lex_question()
    requires
        forall|i: int| 0 <= i < "?"@.len() ==> !alphabetic(#[trigger] "?"@[i]),
    ensures
        lex("?"@, 0) == Ok::<Seq<TokV>, Seq<char>>(seq![TokV::Op(OpTok::Question)]),
{
    reveal_strlit("?");
    let b = "?"@;
    assert(!alphabetic(b[0]));
    assert(lex(b, 1) == Ok::<Seq<TokV>, Seq<char>>(Seq::empty()));
    assert(seq![TokV::Op(OpTok::Question)] + Seq::<TokV>::empty() =~= seq![TokV::Op(OpTok::Question)]);
}

/// `:` reads as its operator.
proof fn lemma_lex_colon()
    requires
        forall|i: int| 0 <= i < ":"@.len() ==> !alphabetic(#[trigger] ":"@[i]),
    ensures
        lex(":"@, 0) == Ok::<Seq<TokV>, Seq<char>>(seq![TokV::Op(OpTok::Colon)]),
{
    reveal_strlit(":");
    let b = ":"@;
    assert(!alphabetic(b[0]));
    assert(lex(b, 1) == Ok::<Seq<TokV>, Seq<char>>(Seq::empty()));
    assert(seq![TokV::Op(OpTok::Colon)] + Seq::<TokV>::empty() =~= seq![TokV::Op(OpTok::Colon)]);
}

/// Each operator reads back from its spelling: tokenizing the spelling of
/// an operator gives exactly that operator (the characters of operator
/// spellings are not alphabetic).
pub proof fn law_operators_read_back(o: OpTok)
    requires
        forall|i: int| 0 <= i < op_spelling(o).len() ==> !alphabetic(#[trigger] op_spelling(o)[i]),
    ensures
        lex(op_spelling(o), 0) == Ok::<Seq<TokV>, Seq<char>>(seq![TokV::Op(o)]),
{
    match o {
        OpTok::EqEq => lemma_lex_eqeq(),
        OpTok::NotEq => lemma_lex_noteq(),
        OpTok::LtEq => lemma_lex_lteq(),
        OpTok::GtEq => lemma_lex_gteq(),
        OpTok::AndAnd => lemma_lex_andand(),
        OpTok::OrOr => lemma_lex_oror(),
        OpTok::Plus => lemma_lex_plus(),
        OpTok::Minus => lemma_lex_minus(),
        OpTok::Star => lemma_lex_star(),
        OpTok::Slash => lemma_lex_slash(),
        OpTok::Percent => lemma_lex_percent(),
        OpTok::Lt => lemma_lex_lt(),
        OpTok::Gt => lemma_lex_gt(),
        OpTok::Bang => lemma_lex_bang(),
        OpTok::LParen => lemma_lex_lparen(),
        OpTok::RParen => lemma_lex_rparen(),
        OpTok::LBracket => lemma_lex_lbracket(),
        OpTok::RBracket => lemma_lex_rbracket(),
        OpTok::Comma => lemma_lex_comma(),
        OpTok::Question => lemma_lex_question(),
        OpTok::Colon => lemma_lex_colon(),
    }
}

/// The spelling of an operator.
pub open spec fn op_spelling(o: OpTok) -> Seq<char> {
    match o {
        OpTok::EqEq => "=="@,
        OpTok::NotEq => "!="@,
        OpTok::LtEq => "<="@,
        OpTok::GtEq => ">="@,
        OpTok::AndAnd => "&&"@,
        OpTok::OrOr => "||"@,
        OpTok::Plus => "+"@,
        OpTok::Minus => "-"@,
        OpTok::Star => "*"@,
        OpTok::Slash => "/"@,
        OpTok::Percent => "%"@,
        OpTok::Lt => "<"@,
        OpTok::Gt => ">"@,
        OpTok::Bang => "!"@,
        OpTok::LParen => "("@,
        OpTok::RParen => ")"@,
        OpTok::LBracket => "["@,
        OpTok::RBracket => "]"@,
        OpTok::Comma => ","@,
        OpTok::Question => "?"@,
        OpTok::Colon => ":"@,
    }
}

/// A string as `Debug` formatting writes it (`<str as Debug>::fmt`): in
/// double quotes, with quotes, backslashes, control and non-printable
/// characters escaped. The escaping tables are not restated here: the
/// result is named; text of printable ASCII other than `"` and `\` is
/// only quoted.
pub uninterp spec fn debug_quoted(s: Seq<char>) -> Seq<char>;

/// A printable ASCII character that `Debug` writes as itself in a string.
pub open spec fn plain_char(c: char) -> bool {
    ' ' <= c <= '~' && c != '"' && c != '\\'
}

/// Formats a string with `Debug` (`format!("{:?}", s)`).
#[verifier::external_body]
fn debug_text(s: &str) -> (r: String)
    ensures
        r@ == debug_quoted(s@),
        (forall|i: int| 0 <= i < s@.len() ==> plain_char(#[trigger] s@[i])) ==> r@ == seq!['"'] + s@ + seq!['"'],
{
    format!("{s:?}")
}

/// A token as error messages show it.
pub open spec fn describe_v(t: TokV) -> Seq<char> {
    match t {
        TokV::Num(n) => "Num("@ + n + ")"@,
        TokV::Str(x) => "Str("@ + debug_quoted(x) + ")"@,
        TokV::Ident(x) => "Ident("@ + debug_quoted(x) + ")"@,
        TokV::Op(o) => "Op(\""@ + op_spelling(o) + "\")"@,
    }
}

/// The message for a missing `o` at `p`: what was expected and the token
/// found there, if any.
pub open spec fn expected_msg(t: Seq<TokV>, p: int, o: OpTok) -> Seq<char> {
    "expected `"@ + op_spelling(o) + "`, found "@ + if 0 <= p < t.len() {
        "Some("@ + describe_v(t[p]) + ")"@
    } else {
        "None"@
    }
}

/// A parse: the expression and the position after it, or the message of
/// a syntax error.
pub type Parsed = Result<(ExprV, int), Seq<char>>;

/// Whether the token at `p` is the operator `o`.
pub open spec fn op_at(t: Seq<TokV>, p: int, o: OpTok) -> bool {
    0 <= p < t.len() && t[p] == TokV::Op(o)
}

/// Whether a parse that started at `p` consumed tokens and stayed in bounds.
pub open spec fn advanced(t: Seq<TokV>, p: int, q: int) -> bool {
    p < q && q <= t.len()
}

/// An expression at `p` at nesting `d`: a condition, optionally followed
/// by `? a : b`. Each level of nesting counts against [`MAX_DEPTH`].
pub open spec fn p_expr(t: Seq<TokV>, p: int, d: int) -> Parsed
    decreases 33 - d, t.len() + 1 - p, 12int,
{
    if d < 0 || p < 0 || p > t.len() {
        Err(Seq::empty())
    } else if d >= 32 {
        Err("expression too deep"@)
    } else {
        match p_or(t, p, d + 1) {
            Err(m) => Err(m),
            Ok((c, p1)) => if !advanced(t, p, p1) {
                Err(Seq::empty())
            } else if op_at(t, p1, OpTok::Question) {
                match p_expr(t, p1 + 1, d + 1) {
                    Err(m) => Err(m),
                    Ok((a, p2)) => if !advanced(t, p1, p2) {
                        Err(Seq::empty())
                    } else if !op_at(t, p2, OpTok::Colon) {
                        Err(expected_msg(t, p2, OpTok::Colon))
                    } else {
                        match p_expr(t, p2 + 1, d + 1) {
                            Err(m) => Err(m),
                            Ok((b, p3)) => Ok((ExprV::Ternary(Box::new(c), Box::new(a), Box::new(b)), p3)),
                        }
                    },
                }
            } else {
                Ok((c, p1))
            },
        }
    }
}

/// Operands joined by `||`, left to right.
pub open spec fn p_or(t: Seq<TokV>, p: int, d: int) -> Parsed
    decreases 33 - d, t.len() + 1 - p, 11int,
{
    if d < 0 || d > 32 || p < 0 || p > t.len() {
        Err(Seq::empty())
    } else {
        match p_and(t, p, d) {
            Err(m) => Err(m),
            Ok((l, p1)) => if !advanced(t, p, p1) {
                Err(Seq::empty())
            } else {
                p_or_rest(t, p1, d, l)
            },
        }
    }
}

/// The rest of an `||` chain after `lhs`.
pub open spec fn p_or_rest(t: Seq<TokV>, p: int, d: int, lhs: ExprV) -> Parsed
    decreases 33 - d, t.len() + 1 - p, 0int,
{
    if d < 0 || d > 32 || p < 0 || p > t.len() {
        Err(Seq::empty())
    } else if op_at(t, p, OpTok::OrOr) {
        match p_and(t, p + 1, d) {
            Err(m) => Err(m),
            Ok((r, p2)) => if !advanced(t, p + 1, p2) {
                Err(Seq::empty())
            } else {
                p_or_rest(t, p2, d, ExprV::Bin(BinOp::Or, Box::new(lhs), Box::new(r)))
            },
        }
    } else {
        Ok((lhs, p))
    }
}

/// Operands joined by `&&`, left to right.
pub open spec fn p_and(t: Seq<TokV>, p: int, d: int) -> Parsed
    decreases 33 - d, t.len() + 1 - p, 10int,
{
    if d < 0 || d > 32 || p < 0 || p > t.len() {
        Err(Seq::empty())
    } else {
        match p_comparison(t, p, d) {
            Err(m) => Err(m),
            Ok((l, p1)) => if !advanced(t, p, p1) {
                Err(Seq::empty())
            } else {
                p_and_rest(t, p1, d, l)
            },
        }
    }
}

/// The rest of an `&&` chain after `lhs`.
pub open spec fn p_and_rest(t: Seq<TokV>, p: int, d: int, lhs: ExprV) -> Parsed
    decreases 33 - d, t.len() + 1 - p, 0int,
{
    if d < 0 || d > 32 || p < 0 || p > t.len() {
        Err(Seq::empty())
    } else if op_at(t, p, OpTok::AndAnd) {
        match p_comparison(t, p + 1, d) {
            Err(m) => Err(m),
            Ok((r, p2)) => if !advanced(t, p + 1, p2) {
                Err(Seq::empty())
            } else {
                p_and_rest(t, p2, d, ExprV::Bin(BinOp::And, Box::new(lhs), Box::new(r)))
            },
        }
    } else {
        Ok((lhs, p))
    }
}

/// The comparison operator a token stands for.
pub open spec fn comparison_op(t: TokV) -> Option<BinOp> {
    match t {
        TokV::Op(OpTok::EqEq) => Some(BinOp::Eq),
        TokV::Op(OpTok::NotEq) => Some(BinOp::Ne),
        TokV::Op(OpTok::LtEq) => Some(BinOp::Le),
        TokV::Op(OpTok::GtEq) => Some(BinOp::Ge),
        TokV::Op(OpTok::Lt) => Some(BinOp::Lt),
        TokV::Op(OpTok::Gt) => Some(BinOp::Gt),
        _ => None,
    }
}

/// A sum, optionally compared with one other sum (comparisons do not
/// chain).
pub open spec fn p_comparison(t: Seq<TokV>, p: int, d: int) -> Parsed
    decreases 33 - d, t.len() + 1 - p, 9int,
{
    if d < 0 || d > 32 || p < 0 || p > t.len() {
        Err(Seq::empty())
    } else {
        match p_add(t, p, d) {
            Err(m) => Err(m),
            Ok((l, p1)) => if !advanced(t, p, p1) {
                Err(Seq::empty())
            } else if p1 < t.len() && comparison_op(t[p1]) is Some {
                match p_add(t, p1 + 1, d) {
                    Err(m) => Err(m),
                    Ok((r, p2)) => Ok((ExprV::Bin(comparison_op(t[p1])->0, Box::new(l), Box::new(r)), p2)),
                }
            } else {
                Ok((l, p1))
            },
        }
    }
}

/// The additive operator a token stands for.
pub open spec fn add_op(t: TokV) -> Option<BinOp> {
    match t {
        TokV::Op(OpTok::Plus) => Some(BinOp::Add),
        TokV::Op(OpTok::Minus) => Some(BinOp::Sub),
        _ => None,
    }
}

/// Terms joined by `+` and `-`, left to right.
pub open spec fn p_add(t: Seq<TokV>, p: int, d: int) -> Parsed
    decreases 33 - d, t.len() + 1 - p, 8int,
{
    if d < 0 || d > 32 || p < 0 || p > t.len() {
        Err(Seq::empty())
    } else {
        match p_mul(t, p, d) {
            Err(m) => Err(m),
            Ok((l, p1)) => if !advanced(t, p, p1) {
                Err(Seq::empty())
            } else {
                p_add_rest(t, p1, d, l)
            },
        }
    }
}

/// The rest of a sum after `lhs`.
pub open spec fn p_add_rest(t: Seq<TokV>, p: int, d: int, lhs: ExprV) -> Parsed
    decreases 33 - d, t.len() + 1 - p, 0int,
{
    if d < 0 || d > 32 || p < 0 || p > t.len() {
        Err(Seq::empty())
    } else if p < t.len() && add_op(t[p]) is Some {
        match p_mul(t, p + 1, d) {
            Err(m) => Err(m),
            Ok((r, p2)) => if !advanced(t, p + 1, p2) {
                Err(Seq::empty())
            } else {
                p_add_rest(t, p2, d, ExprV::Bin(add_op(t[p])->0, Box::new(lhs), Box::new(r)))
            },
        }
    } else {
        Ok((lhs, p))
    }
}

/// The multiplicative operator a token stands for.
pub open spec fn mul_op(t: TokV) -> Option<BinOp> {
    match t {
        TokV::Op(OpTok::Star) => Some(BinOp::Mul),
        TokV::Op(OpTok::Slash) => Some(BinOp::Div),
        TokV::Op(OpTok::Percent) => Some(BinOp::Mod),
        _ => None,
    }
}

/// Factors joined by `*`, `/` and `%`, left to right.
pub open spec fn p_mul(t: Seq<TokV>, p: int, d: int) -> Parsed
    decreases 33 - d, t.len() + 1 - p, 7int,
{
    if d < 0 || d > 32 || p < 0 || p > t.len() {
        Err(Seq::empty())
    } else {
        match p_unary(t, p, d) {
            Err(m) => Err(m),
            Ok((l, p1)) => if !advanced(t, p, p1) {
                Err(Seq::empty())
            } else {
                p_mul_rest(t, p1, d, l)
            },
        }
    }
}

/// The rest of a product after `lhs`.
pub open spec fn p_mul_rest(t: Seq<TokV>, p: int, d: int, lhs: ExprV) -> Parsed
    decreases 33 - d, t.len() + 1 - p, 0int,
{
    if d < 0 || d > 32 || p < 0 || p > t.len() {
        Err(Seq::empty())
    } else if p < t.len() && mul_op(t[p]) is Some {
        match p_unary(t, p + 1, d) {
            Err(m) => Err(m),
            Ok((r, p2)) => if !advanced(t, p + 1, p2) {
                Err(Seq::empty())
            } else {
                p_mul_rest(t, p2, d, ExprV::Bin(mul_op(t[p])->0, Box::new(lhs), Box::new(r)))
            },
        }
    } else {
        Ok((lhs, p))
    }
}

/// `!` and `-` prefixes, then a postfix expression.
pub open spec fn p_unary(t: Seq<TokV>, p: int, d: int) -> Parsed
    decreases 33 - d, t.len() + 1 - p, 6int,
{
    if d < 0 || d > 32 || p < 0 || p > t.len() {
        Err(Seq::empty())
    } else if op_at(t, p, OpTok::Bang) {
        match p_unary(t, p + 1, d) {
            Err(m) => Err(m),
            Ok((e, p2)) => Ok((ExprV::Not(Box::new(e)), p2)),
        }
    } else if op_at(t, p, OpTok::Minus) {
        match p_unary(t, p + 1, d) {
            Err(m) => Err(m),
            Ok((e, p2)) => Ok((ExprV::Neg(Box::new(e)), p2)),
        }
    } else {
        p_postfix(t, p, d)
    }
}

/// A primary expression followed by any number of `[index]`es.
pub open spec fn p_postfix(t: Seq<TokV>, p: int, d: int) -> Parsed
    decreases 33 - d, t.len() + 1 - p, 5int,
{
    if d < 0 || d > 32 || p < 0 || p > t.len() {
        Err(Seq::empty())
    } else {
        match p_primary(t, p, d) {
            Err(m) => Err(m),
            Ok((e, p1)) => if !advanced(t, p, p1) {
                Err(Seq::empty())
            } else {
                p_index_rest(t, p1, d, e)
            },
        }
    }
}

/// The `[index]`es after `base`.
pub open spec fn p_index_rest(t: Seq<TokV>, p: int, d: int, base: ExprV) -> Parsed
    decreases 33 - d, t.len() + 1 - p, 0int,
{
    if d < 0 || d > 32 || p < 0 || p > t.len() {
        Err(Seq::empty())
    } else if op_at(t, p, OpTok::LBracket) {
        match p_expr(t, p + 1, d) {
            Err(m) => Err(m),
            Ok((i, p2)) => if !advanced(t, p + 1, p2) {
                Err(Seq::empty())
            } else if !op_at(t, p2, OpTok::RBracket) {
                Err(expected_msg(t, p2, OpTok::RBracket))
            } else {
                p_index_rest(t, p2 + 1, d, ExprV::Index(Box::new(base), Box::new(i)))
            },
        }
    } else {
        Ok((base, p))
    }
}

/// A comma-separated list of expressions after an opening bracket,
/// continuing `acc`, up to and including the closing `close`.
#[verifier::opaque]
pub open spec fn p_items(t: Seq<TokV>, p: int, d: int, acc: Seq<ExprV>, close: OpTok) -> Result<(Seq<ExprV>, int), Seq<char>>
    decreases 33 - d, t.len() + 1 - p, 13int,
{
    if d < 0 || d > 32 || p < 0 || p > t.len() {
        Err(Seq::empty())
    } else {
        match p_expr(t, p, d) {
            Err(m) => Err(m),
            Ok((e, p2)) => if !advanced(t, p, p2) {
                Err(Seq::empty())
            } else if op_at(t, p2, close) {
                Ok((acc.push(e), p2 + 1))
            } else if op_at(t, p2, OpTok::Comma) {
                p_items(t, p2 + 1, d, acc.push(e), close)
            } else {
                Err(expected_msg(t, p2, OpTok::Comma))
            },
        }
    }
}

/// What follows a name at `p`: `true` and `false` are literals; a name
/// followed by `(` is a call with its arguments; any other name stands
/// for itself.
pub open spec fn p_after_name(t: Seq<TokV>, p: int, d: int, name: Seq<char>) -> Parsed
    decreases 33 - d, t.len() + 1 - p, 14int,
{
    if d < 0 || d > 32 || p < 0 || p > t.len() {
        Err(Seq::empty())
    } else if name == "true"@ {
        Ok((ExprV::Bool(true), p))
    } else if name == "false"@ {
        Ok((ExprV::Bool(false), p))
    } else if op_at(t, p, OpTok::LParen) {
        if op_at(t, p + 1, OpTok::RParen) {
            Ok((ExprV::Call(name, Seq::empty()), p + 2))
        } else {
            match p_items(t, p + 1, d, Seq::empty(), OpTok::RParen) {
                Err(m) => Err(m),
                Ok((args, p2)) => Ok((ExprV::Call(name, args), p2)),
            }
        }
    } else {
        Ok((ExprV::Ident(name), p))
    }
}

/// What follows an opening bracket at `p`: the items of a list.
pub open spec fn p_list(t: Seq<TokV>, p: int, d: int) -> Parsed
    decreases 33 - d, t.len() + 1 - p, 14int,
{
    if d < 0 || d > 32 || p < 0 || p > t.len() {
        Err(Seq::empty())
    } else if op_at(t, p, OpTok::RBracket) {
        Ok((ExprV::List(Seq::empty()), p + 1))
    } else {
        match p_items(t, p, d, Seq::empty(), OpTok::RBracket) {
            Err(m) => Err(m),
            Ok((items, p2)) => Ok((ExprV::List(items), p2)),
        }
    }
}

/// What follows an opening parenthesis at `p`: an expression and the
/// closing parenthesis.
pub open spec fn p_group(t: Seq<TokV>, p: int, d: int) -> Parsed
    decreases 33 - d, t.len() + 1 - p, 14int,
{
    if d < 0 || d > 32 || p < 0 || p > t.len() {
        Err(Seq::empty())
    } else {
        match p_expr(t, p, d) {
            Err(m) => Err(m),
            Ok((e, p2)) => if !advanced(t, p, p2) {
                Err(Seq::empty())
            } else if !op_at(t, p2, OpTok::RParen) {
                Err(expected_msg(t, p2, OpTok::RParen))
            } else {
                Ok((e, p2 + 1))
            },
        }
    }
}

/// A literal, a name, a call `f(args)`, a parenthesized expression or a
/// list `[items]`.
pub open spec fn p_primary(t: Seq<TokV>, p: int, d: int) -> Parsed
    decreases 33 - d, t.len() + 1 - p, 4int,
{
    if d < 0 || d > 32 || p < 0 || p > t.len() {
        Err(Seq::empty())
    } else if p == t.len() {
        Err("unexpected token None"@)
    } else {
        match t[p] {
            TokV::Num(n) => Ok((ExprV::Num(n), p + 1)),
            TokV::Str(s) => Ok((ExprV::Str(s), p + 1)),
            TokV::Ident(name) => p_after_name(t, p + 1, d, name),
            TokV::Op(OpTok::LParen) => p_group(t, p + 1, d),
            TokV::Op(OpTok::LBracket) => p_list(t, p + 1, d),
            _ => Err("unexpected token Some("@ + describe_v(t[p]) + ")"@),
        }
    }
}

/// The tokens of a list from `a` up to `b`, described and separated by
/// commas.
pub open spec fn describe_range(t: Seq<TokV>, a: int, b: int) -> Seq<char>
    decreases b - a,
{
    if b <= a {
        Seq::empty()
    } else if b == a + 1 {
        describe_v(t[a])
    } else {
        describe_range(t, a, b - 1) + ", "@ + describe_v(t[b - 1])
    }
}

/// The expression a whole token list spells: one expression covering
/// every token; otherwise the message of the syntax error, or of the
/// tokens left over.
pub open spec fn parse_tokens(t: Seq<TokV>) -> Result<ExprV, Seq<char>> {
    match p_expr(t, 0, 0) {
        Ok((e, q)) => if q == t.len() {
            Ok(e)
        } else {
            Err("trailing tokens after expression: ["@ + describe_range(t, q, t.len() as int) + "]"@)
        },
        Err(m) => Err(m),
    }
}

/// A token for an error message.
fn describe(t: &Tok) -> (r: String)
    ensures
        r@ == describe_v(tok_view(*t)),
{
    let mut m: Vec<char> = Vec::new();
    match t {
        Tok::Num(n) => {
            push_str(&mut m, "Num(");
            push_str(&mut m, n.as_str());
            push_str(&mut m, ")");
        },
        Tok::Str(x) => {
            push_str(&mut m, "Str(");
            let q = debug_text(x.as_str());
            push_str(&mut m, q.as_str());
            push_str(&mut m, ")");
        },
        Tok::Ident(x) => {
            push_str(&mut m, "Ident(");
            let q = debug_text(x.as_str());
            push_str(&mut m, q.as_str());
            push_str(&mut m, ")");
        },
        Tok::Op(o) => {
            push_str(&mut m, "Op(\"");
            push_str(&mut m, op_text(*o));
            push_str(&mut m, "\")");
        },
    }
    string_of(&m)
}

/// The text of an operator.
fn op_text(o: OpTok) -> (r: &'static str)
    ensures
        r@ == op_spelling(o),
{
    match o {
        OpTok::EqEq => "==",
        OpTok::NotEq => "!=",
        OpTok::LtEq => "<=",
        OpTok::GtEq => ">=",
        OpTok::AndAnd => "&&",
        OpTok::OrOr => "||",
        OpTok::Plus => "+",
        OpTok::Minus => "-",
        OpTok::Star => "*",
        OpTok::Slash => "/",
        OpTok::Percent => "%",
        OpTok::Lt => "<",
        OpTok::Gt => ">",
        OpTok::Bang => "!",
        OpTok::LParen => "(",
        OpTok::RParen => ")",
        OpTok::LBracket => "[",
        OpTok::RBracket => "]",
        OpTok::Comma => ",",
        OpTok::Question => "?",
        OpTok::Colon => ":",
    }
}

/// The recursive-descent parser over a token list.
struct Parser {
    toks: Vec<Tok>,
    pos: usize,
    depth: u32,
}

/// Whether an executed parse agrees with the spec parse: the same
/// expression and end position (with the nesting restored), or the same
/// error message.
spec fn agrees(depth: u32, post: Parser, s: Parsed, r: Result<Expr, ExprError>) -> bool {
    match s {
        Ok((e, q)) => r matches Ok(x) && expr_view(x) == e && post.pos == q && post.depth == depth,
        Err(m) => r matches Err(x) && x.0@ == m,
    }
}

proof fn lemma_exprs_push(s: Seq<Expr>, x: Expr)
    ensures
        exprs_view(s.push(x)) == exprs_view(s).push(expr_view(x)),
{
    assert(s.push(x).drop_last() =~= s);
}

impl Parser {
    spec fn t(&self) -> Seq<TokV> {
        toks_view(self.toks@)
    }

    fn at(&self, o: OpTok) -> (r: bool)
        ensures
            r == op_at(self.t(), self.pos as int, o),
            r ==> self.pos < self.toks@.len(),
            self.t().len() == self.toks@.len(),
            self.toks@.len() <= usize::MAX,
    {
        let _n = self.toks.len();
        if self.pos < self.toks.len() {
            match &self.toks[self.pos] {
                Tok::Op(x) => *x == o,
                _ => false,
            }
        } else {
            false
        }
    }

    fn expected(&self, o: OpTok) -> (r: ExprError)
        ensures
            r.0@ == expected_msg(self.t(), self.pos as int, o),
    {
        let mut m: Vec<char> = Vec::new();
        push_str(&mut m, "expected `");
        push_str(&mut m, op_text(o));
        push_str(&mut m, "`, found ");
        if self.pos < self.toks.len() {
            push_str(&mut m, "Some(");
            let d = describe(&self.toks[self.pos]);
            push_str(&mut m, d.as_str());
            push_str(&mut m, ")");
        } else {
            push_str(&mut m, "None");
        }
        ExprError(string_of(&m))
    }

    #[verifier::spinoff_prover]
    #[verifier::rlimit(60)]
    fn parse_expr(&mut self) -> (r: Result<Expr, ExprError>)
        requires
            old(self).pos <= old(self).toks@.len(),
            old(self).depth <= 32,
        ensures
            final(self).toks == old(self).toks,
            final(self).pos <= final(self).toks@.len(),
            agrees(old(self).depth, *final(self), p_expr(old(self).t(), old(self).pos as int, old(self).depth as int), r),
            r is Ok ==> old(self).pos < final(self).pos,
        decreases 33 - old(self).depth, old(self).toks@.len() + 1 - old(self).pos, 12int,
    {
        if self.depth >= MAX_DEPTH {
            return Err(ExprError(String::from_str("expression too deep")));
        }
        self.depth = self.depth + 1;
        let cond = match self.parse_or() {
            Ok(e) => e,
            Err(e) => return Err(e),
        };
        let out = if self.at(OpTok::Question) {
            self.pos = self.pos + 1;
            let a = match self.parse_expr() {
                Ok(e) => e,
                Err(e) => return Err(e),
            };
            if !self.at(OpTok::Colon) {
                return Err(self.expected(OpTok::Colon));
            }
            self.pos = self.pos + 1;
            let b = match self.parse_expr() {
                Ok(e) => e,
                Err(e) => return Err(e),
            };
            Expr::Ternary(Box::new(cond), Box::new(a), Box::new(b))
        } else {
            cond
        };
        self.depth = self.depth - 1;
        Ok(out)
    }

    #[verifier::spinoff_prover]
    #[verifier::rlimit(60)]
    fn parse_or(&mut self) -> (r: Result<Expr, ExprError>)
        requires
            old(self).pos <= old(self).toks@.len(),
            old(self).depth <= 32,
        ensures
            final(self).toks == old(self).toks,
            final(self).pos <= final(self).toks@.len(),
            agrees(old(self).depth, *final(self), p_or(old(self).t(), old(self).pos as int, old(self).depth as int), r),
            r is Ok ==> old(self).pos < final(self).pos,
        decreases 33 - old(self).depth, old(self).toks@.len() + 1 - old(self).pos, 11int,
    {
        let ghost t = self.t();
        let ghost d = self.depth as int;
        let mut lhs = match self.parse_and() {
            Ok(e) => e,
            Err(e) => return Err(e),
        };
        loop
            invariant
                self.toks == old(self).toks,
                self.depth == old(self).depth,
                t == self.t(),
                d == self.depth,
                old(self).pos < self.pos <= self.toks@.len(),
                d <= 32,
                p_or(t, old(self).pos as int, d) == p_or_rest(t, self.pos as int, d, expr_view(lhs)),
            decreases self.toks@.len() - self.pos,
        {
            if !self.at(OpTok::OrOr) {
                return Ok(lhs);
            }
            self.pos = self.pos + 1;
            let rhs = match self.parse_and() {
                Ok(e) => e,
                Err(e) => return Err(e),
            };
            lhs = Expr::Bin(BinOp::Or, Box::new(lhs), Box::new(rhs));
        }
    }

    #[verifier::spinoff_prover]
    #[verifier::rlimit(60)]
    fn parse_and(&mut self) -> (r: Result<Expr, ExprError>)
        requires
            old(self).pos <= old(self).toks@.len(),
            old(self).depth <= 32,
        ensures
            final(self).toks == old(self).toks,
            final(self).pos <= final(self).toks@.len(),
            agrees(old(self).depth, *final(self), p_and(old(self).t(), old(self).pos as int, old(self).depth as int), r),
            r is Ok ==> old(self).pos < final(self).pos,
        decreases 33 - old(self).depth, old(self).toks@.len() + 1 - old(self).pos, 10int,
    {
        let ghost t = self.t();
        let ghost d = self.depth as int;
        let mut lhs = match self.parse_comparison() {
            Ok(e) => e,
            Err(e) => return Err(e),
        };
        loop
            invariant
                self.toks == old(self).toks,
                self.depth == old(self).depth,
                t == self.t(),
                d == self.depth,
                old(self).pos < self.pos <= self.toks@.len(),
                d <= 32,
                p_and(t, old(self).pos as int, d) == p_and_rest(t, self.pos as int, d, expr_view(lhs)),
            decreases self.toks@.len() - self.pos,
        {
            if !self.at(OpTok::AndAnd) {
                return Ok(lhs);
            }
            self.pos = self.pos + 1;
            let rhs = match self.parse_comparison() {
                Ok(e) => e,
                Err(e) => return Err(e),
            };
            lhs = Expr::Bin(BinOp::And, Box::new(lhs), Box::new(rhs));
        }
    }

    /// The binary operator of the current token, if it is one of `ops`
    /// (0 = comparison, 1 = additive, 2 = multiplicative).
    fn op_here(&self, class: u8) -> (r: Option<BinOp>)
        ensures
            r == if self.pos < self.toks@.len() {
                if class == 0 {
                    comparison_op(self.t()[self.pos as int])
                } else if class == 1 {
                    add_op(self.t()[self.pos as int])
                } else {
                    mul_op(self.t()[self.pos as int])
                }
            } else {
                None
            },
            r is Some ==> self.pos < self.toks@.len(),
            self.toks@.len() <= usize::MAX,
    {
        if self.pos >= self.toks.len() {
            return None;
        }
        match &self.toks[self.pos] {
            Tok::Op(o) => {
                let o = *o;
                if class == 0 {
                    match o {
                        OpTok::EqEq => Some(BinOp::Eq),
                        OpTok::NotEq => Some(BinOp::Ne),
                        OpTok::LtEq => Some(BinOp::Le),
                        OpTok::GtEq => Some(BinOp::Ge),
                        OpTok::Lt => Some(BinOp::Lt),
                        OpTok::Gt => Some(BinOp::Gt),
                        _ => None,
                    }
                } else if class == 1 {
                    match o {
                        OpTok::Plus => Some(BinOp::Add),
                        OpTok::Minus => Some(BinOp::Sub),
                        _ => None,
                    }
                } else {
                    match o {
                        OpTok::Star => Some(BinOp::Mul),
                        OpTok::Slash => Some(BinOp::Div),
                        OpTok::Percent => Some(BinOp::Mod),
                        _ => None,
                    }
                }
            },
            _ => None,
        }
    }

    #[verifier::spinoff_prover]
    #[verifier::rlimit(60)]
    fn parse_comparison(&mut self) -> (r: Result<Expr, ExprError>)
        requires
            old(self).pos <= old(self).toks@.len(),
            old(self).depth <= 32,
        ensures
            final(self).toks == old(self).toks,
            final(self).pos <= final(self).toks@.len(),
            agrees(old(self).depth, *final(self), p_comparison(old(self).t(), old(self).pos as int, old(self).depth as int), r),
            r is Ok ==> old(self).pos < final(self).pos,
        decreases 33 - old(self).depth, old(self).toks@.len() + 1 - old(self).pos, 9int,
    {
        let lhs = match self.parse_add() {
            Ok(e) => e,
            Err(e) => return Err(e),
        };
        match self.op_here(0) {
            Some(bo) => {
                self.pos = self.pos + 1;
                let rhs = match self.parse_add() {
                    Ok(e) => e,
                    Err(e) => return Err(e),
                };
                Ok(Expr::Bin(bo, Box::new(lhs), Box::new(rhs)))
            },
            None => Ok(lhs),
        }
    }

    #[verifier::spinoff_prover]
    #[verifier::rlimit(60)]
    fn parse_add(&mut self) -> (r: Result<Expr, ExprError>)
        requires
            old(self).pos <= old(self).toks@.len(),
            old(self).depth <= 32,
        ensures
            final(self).toks == old(self).toks,
            final(self).pos <= final(self).toks@.len(),
            agrees(old(self).depth, *final(self), p_add(old(self).t(), old(self).pos as int, old(self).depth as int), r),
            r is Ok ==> old(self).pos < final(self).pos,
        decreases 33 - old(self).depth, old(self).toks@.len() + 1 - old(self).pos, 8int,
    {
        let ghost t = self.t();
        let ghost d = self.depth as int;
        let mut lhs = match self.parse_mul() {
            Ok(e) => e,
            Err(e) => return Err(e),
        };
        loop
            invariant
                self.toks == old(self).toks,
                self.depth == old(self).depth,
                t == self.t(),
                d == self.depth,
                old(self).pos < self.pos <= self.toks@.len(),
                d <= 32,
                p_add(t, old(self).pos as int, d) == p_add_rest(t, self.pos as int, d, expr_view(lhs)),
            decreases self.toks@.len() - self.pos,
        {
            let bo = match self.op_here(1) {
                Some(bo) => bo,
                None => return Ok(lhs),
            };
            self.pos = self.pos + 1;
            let rhs = match self.parse_mul() {
                Ok(e) => e,
                Err(e) => return Err(e),
            };
            lhs = Expr::Bin(bo, Box::new(lhs), Box::new(rhs));
        }
    }

    #[verifier::spinoff_prover]
    #[verifier::rlimit(60)]
    fn parse_mul(&mut self) -> (r: Result<Expr, ExprError>)
        requires
            old(self).pos <= old(self).toks@.len(),
            old(self).depth <= 32,
        ensures
            final(self).toks == old(self).toks,
            final(self).pos <= final(self).toks@.len(),
            agrees(old(self).depth, *final(self), p_mul(old(self).t(), old(self).pos as int, old(self).depth as int), r),
            r is Ok ==> old(self).pos < final(self).pos,
        decreases 33 - old(self).depth, old(self).toks@.len() + 1 - old(self).pos, 7int,
    {
        let ghost t = self.t();
        let ghost d = self.depth as int;
        let mut lhs = match self.parse_unary() {
            Ok(e) => e,
            Err(e) => return Err(e),
        };
        loop
            invariant
                self.toks == old(self).toks,
                self.depth == old(self).depth,
                t == self.t(),
                d == self.depth,
                old(self).pos < self.pos <= self.toks@.len(),
                d <= 32,
                p_mul(t, old(self).pos as int, d) == p_mul_rest(t, self.pos as int, d, expr_view(lhs)),
            decreases self.toks@.len() - self.pos,
        {
            let bo = match self.op_here(2) {
                Some(bo) => bo,
                None => return Ok(lhs),
            };
            self.pos = self.pos + 1;
            let rhs = match self.parse_unary() {
                Ok(e) => e,
                Err(e) => return Err(e),
            };
            lhs = Expr::Bin(bo, Box::new(lhs), Box::new(rhs));
        }
    }

    #[verifier::spinoff_prover]
    #[verifier::rlimit(60)]
    fn parse_unary(&mut self) -> (r: Result<Expr, ExprError>)
        requires
            old(self).pos <= old(self).toks@.len(),
            old(self).depth <= 32,
        ensures
            final(self).toks == old(self).toks,
            final(self).pos <= final(self).toks@.len(),
            agrees(old(self).depth, *final(self), p_unary(old(self).t(), old(self).pos as int, old(self).depth as int), r),
            r is Ok ==> old(self).pos < final(self).pos,
        decreases 33 - old(self).depth, old(self).toks@.len() + 1 - old(self).pos, 6int,
    {
        if self.at(OpTok::Bang) {
            self.pos = self.pos + 1;
            return match self.parse_unary() {
                Ok(e) => Ok(Expr::Not(Box::new(e))),
                Err(e) => Err(e),
            };
        }
        if self.at(OpTok::Minus) {
            self.pos = self.pos + 1;
            return match self.parse_unary() {
                Ok(e) => Ok(Expr::Neg(Box::new(e))),
                Err(e) => Err(e),
            };
        }
        self.parse_postfix()
    }

    #[verifier::spinoff_prover]
    #[verifier::rlimit(60)]
    fn parse_postfix(&mut self) -> (r: Result<Expr, ExprError>)
        requires
            old(self).pos <= old(self).toks@.len(),
            old(self).depth <= 32,
        ensures
            final(self).toks == old(self).toks,
            final(self).pos <= final(self).toks@.len(),
            agrees(old(self).depth, *final(self), p_postfix(old(self).t(), old(self).pos as int, old(self).depth as int), r),
            r is Ok ==> old(self).pos < final(self).pos,
        decreases 33 - old(self).depth, old(self).toks@.len() + 1 - old(self).pos, 5int,
    {
        let ghost t = self.t();
        let ghost d = self.depth as int;
        let mut e = match self.parse_primary() {
            Ok(e) => e,
            Err(e) => return Err(e),
        };
        loop
            invariant
                self.toks == old(self).toks,
                self.depth == old(self).depth,
                t == self.t(),
                d == self.depth,
                old(self).pos < self.pos <= self.toks@.len(),
                d <= 32,
                p_postfix(t, old(self).pos as int, d) == p_index_rest(t, self.pos as int, d, expr_view(e)),
            decreases self.toks@.len() - self.pos,
        {
            let ghost ps = self.pos as int;
            let ghost ev = expr_view(e);
            if !self.at(OpTok::LBracket) {
                return Ok(e);
            }
            assert(op_at(t, ps, OpTok::LBracket));
            self.pos = self.pos + 1;
            let idx = match self.parse_expr() {
                Ok(x) => x,
                Err(x) => {
                    assert(p_expr(t, ps + 1, d) is Err);
                    assert(p_index_rest(t, ps, d, ev) is Err);
                    return Err(x);
                },
            };
            assert(p_expr(t, ps + 1, d) == Ok::<(ExprV, int), Seq<char>>((expr_view(idx), self.pos as int)));
            if !self.at(OpTok::RBracket) {
                return Err(self.expected(OpTok::RBracket));
            }
            let ghost p2 = self.pos as int;
            self.pos = self.pos + 1;
            e = Expr::Index(Box::new(e), Box::new(idx));
            assert(p_index_rest(t, ps, d, ev) == p_index_rest(t, p2 + 1, d, ExprV::Index(Box::new(ev), Box::new(expr_view(idx)))));
            assert(expr_view(e) == ExprV::Index(Box::new(ev), Box::new(expr_view(idx))));
        }
    }

    /// Items separated by commas up to `close`, which it consumes.
    #[verifier::spinoff_prover]
    #[verifier::rlimit(60)]
    fn parse_items(&mut self, close: OpTok) -> (r: Result<Vec<Expr>, ExprError>)
        requires
            old(self).pos <= old(self).toks@.len(),
            old(self).depth <= 32,
        ensures
            final(self).toks == old(self).toks,
            final(self).pos <= final(self).toks@.len(),
            match p_items(old(self).t(), old(self).pos as int, old(self).depth as int, Seq::empty(), close) {
                Ok((v, q)) => r matches Ok(x) && exprs_view(x@) == v && final(self).pos == q
                    && final(self).depth == old(self).depth,
                Err(m) => r matches Err(x) && x.0@ == m,
            },
            r is Ok ==> old(self).pos < final(self).pos,
        decreases 33 - old(self).depth, old(self).toks@.len() + 1 - old(self).pos, 13int,
    {
        reveal_with_fuel(p_items, 1);
        let ghost t = self.t();
        let ghost d = self.depth as int;
        let mut items: Vec<Expr> = Vec::new();
        loop
            invariant
                self.toks == old(self).toks,
                self.depth == old(self).depth,
                t == self.t(),
                d == self.depth,
                old(self).pos <= self.pos <= self.toks@.len(),
                items@.len() > 0 ==> old(self).pos < self.pos,
                d <= 32,
                p_items(t, old(self).pos as int, d, Seq::empty(), close)
                    == p_items(t, self.pos as int, d, exprs_view(items@), close),
            decreases self.toks@.len() - self.pos,
        {
            reveal_with_fuel(p_items, 1);
            let e = match self.parse_expr() {
                Ok(x) => x,
                Err(x) => return Err(x),
            };
            proof {
                lemma_exprs_push(items@, e);
            }
            items.push(e);
            if self.at(close) {
                self.pos = self.pos + 1;
                return Ok(items);
            }
            if !self.at(OpTok::Comma) {
                return Err(self.expected(OpTok::Comma));
            }
            self.pos = self.pos + 1;
        }
    }

    #[verifier::spinoff_prover]
    #[verifier::rlimit(100)]
    fn parse_after_name(&mut self, name: String) -> (r: Result<Expr, ExprError>)
        requires
            old(self).pos <= old(self).toks@.len(),
            old(self).depth <= 32,
        ensures
            final(self).toks == old(self).toks,
            final(self).pos <= final(self).toks@.len(),
            agrees(old(self).depth, *final(self), p_after_name(old(self).t(), old(self).pos as int, old(self).depth as int, name@), r),
            r is Ok ==> old(self).pos <= final(self).pos,
        decreases 33 - old(self).depth, old(self).toks@.len() + 1 - old(self).pos, 14int,
    {
        proof {
            reveal_strlit("true");
            reveal_strlit("false");
        }
        let cs = chars_of(name.as_str());
        if cs.len() == 4 && cs[0] == 't' && cs[1] == 'r' && cs[2] == 'u' && cs[3] == 'e' {
            assert(name@ =~= "true"@);
            return Ok(Expr::Bool(true));
        }
        if cs.len() == 5 && cs[0] == 'f' && cs[1] == 'a' && cs[2] == 'l' && cs[3] == 's' && cs[4] == 'e' {
            assert(name@ =~= "false"@);
            return Ok(Expr::Bool(false));
        }
        assert(name@ != "true"@ && name@ != "false"@) by {
            if name@ == "true"@ {
                assert(cs@ =~= "true"@);
            }
            if name@ == "false"@ {
                assert(cs@ =~= "false"@);
            }
        }
        if !self.at(OpTok::LParen) {
            return Ok(Expr::Ident(name));
        }
        self.pos = self.pos + 1;
        if self.at(OpTok::RParen) {
            self.pos = self.pos + 1;
            let none: Vec<Expr> = Vec::new();
            assert(exprs_view(none@) =~= Seq::<ExprV>::empty());
            return Ok(Expr::Call(name, none));
        }
        match self.parse_items(OpTok::RParen) {
            Ok(args) => Ok(Expr::Call(name, args)),
            Err(e) => Err(e),
        }
    }

    #[verifier::spinoff_prover]
    #[verifier::rlimit(60)]
    fn parse_group(&mut self) -> (r: Result<Expr, ExprError>)
        requires
            old(self).pos <= old(self).toks@.len(),
            old(self).depth <= 32,
        ensures
            final(self).toks == old(self).toks,
            final(self).pos <= final(self).toks@.len(),
            agrees(old(self).depth, *final(self), p_group(old(self).t(), old(self).pos as int, old(self).depth as int), r),
            r is Ok ==> old(self).pos < final(self).pos,
        decreases 33 - old(self).depth, old(self).toks@.len() + 1 - old(self).pos, 14int,
    {
        let e = match self.parse_expr() {
            Ok(x) => x,
            Err(x) => return Err(x),
        };
        if !self.at(OpTok::RParen) {
            return Err(self.expected(OpTok::RParen));
        }
        self.pos = self.pos + 1;
        Ok(e)
    }

    #[verifier::spinoff_prover]
    #[verifier::rlimit(100)]
    fn parse_list(&mut self) -> (r: Result<Expr, ExprError>)
        requires
            old(self).pos <= old(self).toks@.len(),
            old(self).depth <= 32,
        ensures
            final(self).toks == old(self).toks,
            final(self).pos <= final(self).toks@.len(),
            agrees(old(self).depth, *final(self), p_list(old(self).t(), old(self).pos as int, old(self).depth as int), r),
            r is Ok ==> old(self).pos < final(self).pos,
        decreases 33 - old(self).depth, old(self).toks@.len() + 1 - old(self).pos, 14int,
    {
        if self.at(OpTok::RBracket) {
            self.pos = self.pos + 1;
            let none: Vec<Expr> = Vec::new();
            assert(exprs_view(none@) =~= Seq::<ExprV>::empty());
            return Ok(Expr::List(none));
        }
        match self.parse_items(OpTok::RBracket) {
            Ok(items) => Ok(Expr::List(items)),
            Err(e) => Err(e),
        }
    }

    #[verifier::spinoff_prover]
    fn parse_primary(&mut self) -> (r: Result<Expr, ExprError>)
        requires
            old(self).pos <= old(self).toks@.len(),
            old(self).depth <= 32,
        ensures
            final(self).toks == old(self).toks,
            final(self).pos <= final(self).toks@.len(),
            agrees(old(self).depth, *final(self), p_primary(old(self).t(), old(self).pos as int, old(self).depth as int), r),
            r is Ok ==> old(self).pos < final(self).pos,
        decreases 33 - old(self).depth, old(self).toks@.len() + 1 - old(self).pos, 4int,
    {
        if self.pos >= self.toks.len() {
            return Err(ExprError(String::from_str("unexpected token None")));
        }
        let p = self.pos;
        match &self.toks[p] {
            Tok::Num(n) => {
                let x = n.clone();
                self.pos = p + 1;
                Ok(Expr::Num(x))
            },
            Tok::Str(s) => {
                let x = s.clone();
                self.pos = p + 1;
                Ok(Expr::Str(x))
            },
            Tok::Ident(name) => {
                let name = name.clone();
                self.pos = p + 1;
                self.parse_after_name(name)
            },
            Tok::Op(OpTok::LParen) => {
                self.pos = p + 1;
                self.parse_group()
            },
            Tok::Op(OpTok::LBracket) => {
                self.pos = p + 1;
                self.parse_list()
            },
            t => {
                let mut m: Vec<char> = Vec::new();
                push_str(&mut m, "unexpected token Some(");
                let d = describe(t);
                push_str(&mut m, d.as_str());
                push_str(&mut m, ")");
                Err(ExprError(string_of(&m)))
            },
        }
    }
}

/// Parses an expression: [`tokenize`], then one expression that must
/// cover every token (see [`parse_tokens`]). An error carries the
/// tokenizer's or the parser's message.
pub fn parse(src: &str) -> (r: Result<Expr, ExprError>)
    ensures
        match lex(src@, 0) {
            Err(e) => r matches Err(x) && x.0@ == e,
            Ok(t) => match parse_tokens(t) {
                Ok(e) => r matches Ok(x) && expr_view(x) == e,
                Err(m) => r matches Err(x) && x.0@ == m,
            },
        },
{
    let toks = match tokenize(src) {
        Ok(t) => t,
        Err(e) => return Err(e),
    };
    let mut p = Parser { toks, pos: 0, depth: 0 };
    let e = match p.parse_expr() {
        Ok(x) => x,
        Err(x) => return Err(x),
    };
    if p.pos != p.toks.len() {
        let ghost t = p.t();
        let mut m: Vec<char> = Vec::new();
        push_str(&mut m, "trailing tokens after expression: [");
        let ghost head = m@;
        let mut i = p.pos;
        while i < p.toks.len()
            invariant
                p.pos <= i <= p.toks@.len(),
                t == p.t(),
                t.len() == p.toks@.len(),
                m@ == head + describe_range(t, p.pos as int, i as int),
            decreases p.toks@.len() - i,
        {
            if i > p.pos {
                push_str(&mut m, ", ");
            }
            let d = describe(&p.toks[i]);
            push_str(&mut m, d.as_str());
            i += 1;
            proof {
                if i - 1 > p.pos {
                    assert(m@ =~= head + (describe_range(t, p.pos as int, i - 1) + ", "@ + describe_v(t[i - 1])));
                } else {
                    assert(m@ =~= head + describe_v(t[i - 1]));
                }
            }
        }
        push_str(&mut m, "]");
        return Err(ExprError(string_of(&m)));
    }
    Ok(e)
}

/// A piece of a string template: literal text or an embedded expression.
#[derive(Debug)]
pub enum TemplatePart {
    Text(String),
    Expr(Expr),
}

/// The view of a template piece.
pub enum PartV {
    Text(Seq<char>),
    Expr(ExprV),
}

/// The view of a template piece.
pub open spec fn part_view(p: TemplatePart) -> PartV {
    match p {
        TemplatePart::Text(t) => PartV::Text(t@),
        TemplatePart::Expr(e) => PartV::Expr(expr_view(e)),
    }
}

/// The views of template pieces.
pub open spec fn parts_view(s: Seq<TemplatePart>) -> Seq<PartV> {
    s.map_values(|p: TemplatePart| part_view(p))
}

/// The expression `s` spells, or the message of what is wrong with it.
pub open spec fn expr_of(s: Seq<char>) -> Result<ExprV, Seq<char>> {
    match lex(s, 0) {
        Ok(t) => parse_tokens(t),
        Err(e) => Err(e),
    }
}

/// The index of the first `${` from `i` on (the length when none).
pub open spec fn find_open(s: Seq<char>, i: int) -> int
    decreases s.len() - i,
{
    if 0 <= i && i + 1 < s.len() {
        if s[i] == '$' && s[i + 1] == '{' {
            i
        } else {
            find_open(s, i + 1)
        }
    } else {
        s.len() as int
    }
}

/// The pieces of the template `s` from `i` on: text up to each `${`, then
/// the expression up to the next `}`; or the message of an unterminated
/// `${` or of a bad expression.
pub open spec fn template_from(s: Seq<char>, i: int) -> Result<Seq<PartV>, Seq<char>>
    decreases s.len() - i,
{
    if i < 0 || i > s.len() {
        Err(Seq::empty())
    } else {
        let k = find_open(s, i);
        if k < i || k >= s.len() {
            if i < s.len() {
                Ok(seq![PartV::Text(s.subrange(i, s.len() as int))])
            } else {
                Ok(Seq::empty())
            }
        } else {
            let pre = if k > i {
                seq![PartV::Text(s.subrange(i, k))]
            } else {
                Seq::empty()
            };
            let c = find_char(s, k + 2, '}');
            if c < k + 2 || c >= s.len() {
                Err("unterminated ${…} in template"@)
            } else {
                match expr_of(s.subrange(k + 2, c)) {
                    Err(m) => Err(m),
                    Ok(e) => match template_from(s, c + 1) {
                        Err(m) => Err(m),
                        Ok(rest) => Ok(pre + seq![PartV::Expr(e)] + rest),
                    },
                }
            }
        }
    }
}

proof fn lemma_find_open(s: Seq<char>, i: int, k: int)
    requires
        0 <= i <= k <= s.len(),
        forall|j: int| i <= j < k && j + 1 < s.len() ==> !(#[trigger] s[j] == '$' && s[j + 1] == '{'),
        k == s.len() || (k + 1 < s.len() && s[k] == '$' && s[k + 1] == '{') || (k + 1 >= s.len()),
    ensures
        find_open(s, i) == if k + 1 < s.len() { k } else { s.len() as int },
    decreases k - i,
{
    if i < k {
        if i + 1 < s.len() {
            lemma_find_open(s, i + 1, k);
        }
    }
}

/// Splits a string template into text and `${expr}` pieces (see
/// [`template_from`]).
pub fn parse_template(src: &str) -> (r: Result<Vec<TemplatePart>, ExprError>)
    ensures
        match template_from(src@, 0) {
            Ok(parts) => r matches Ok(v) && parts_view(v@) == parts,
            Err(m) => r matches Err(x) && x.0@ == m,
        },
{
    let s = chars_of(src);
    let n = s.len();
    let mut parts: Vec<TemplatePart> = Vec::new();
    let mut i: usize = 0;
    loop
        invariant
            i <= n,
            n == s@.len(),
            s@ == src@,
            template_from(s@, 0) == match template_from(s@, i as int) {
                Ok(rest) => Ok(parts_view(parts@) + rest),
                Err(m) => Err::<Seq<PartV>, Seq<char>>(m),
            },
        decreases n - i,
    {
        let mut k = i;
        while k < n && n - k > 1 && !(s[k] == '$' && s[k + 1] == '{')
            invariant
                i <= k <= n,
                n == s@.len(),
                forall|j: int| i <= j < k && j + 1 < s@.len() ==> !(#[trigger] s@[j] == '$' && s@[j + 1] == '{'),
            decreases n - k,
        {
            k += 1;
        }
        proof {
            lemma_find_open(s@, i as int, k as int);
        }
        let ghost pre = parts_view(parts@);
        if k >= n || n - k <= 1 {
            if i < n {
                let t = TemplatePart::Text(slice_string(&s, i, n));
                parts.push(t);
                assert(parts_view(parts@) =~= pre + seq![PartV::Text(s@.subrange(i as int, n as int))]);
            } else {
                assert(parts_view(parts@) =~= pre + Seq::<PartV>::empty());
            }
            return Ok(parts);
        }
        let mut c = k + 2;
        while c < n && s[c] != '}'
            invariant
                k + 2 <= c <= n,
                n == s@.len(),
                forall|j: int| k + 2 <= j < c ==> #[trigger] s@[j] != '}',
            decreases n - c,
        {
            c += 1;
        }
        proof {
            lemma_find_char(s@, k + 2, c as int, '}');
        }
        if c >= n {
            return Err(ExprError(String::from_str("unterminated ${…} in template")));
        }
        let inner = slice_string(&s, k + 2, c);
        let e = match parse(inner.as_str()) {
            Ok(e) => e,
            Err(x) => return Err(x),
        };
        let ghost ev = expr_view(e);
        if k > i {
            parts.push(TemplatePart::Text(slice_string(&s, i, k)));
        }
        parts.push(TemplatePart::Expr(e));
        proof {
            let pv = if k > i {
                seq![PartV::Text(s@.subrange(i as int, k as int))]
            } else {
                Seq::<PartV>::empty()
            };
            assert(parts_view(parts@) =~= pre + pv + seq![PartV::Expr(ev)]);
            match template_from(s@, c + 1) {
                Ok(rest) => {
                    assert(pre + (pv + seq![PartV::Expr(ev)] + rest) =~= parts_view(parts@) + rest);
                },
                Err(_) => {},
            }
        }
        i = c + 1;
    }
}

/// Whether `s` holds `${` somewhere.
pub open spec fn has_open(s: Seq<char>) -> bool {
    find_open(s, 0) < s.len()
}

/// Whether `s` is one `${…}` wrapper: it starts with `${` and ends with `}`.
pub open spec fn wrapped(s: Seq<char>) -> bool {
    s.len() >= 3 && s[0] == '$' && s[1] == '{' && s.last() == '}'
}

/// The check of a string prop: mixed text with `${…}` must be a good
/// template; a whole `${…}` must hold a good template or a good
/// expression; text without `${` is a literal. An error is the message of
/// what is wrong.
pub open spec fn expr_check(s: Seq<char>) -> Result<(), Seq<char>> {
    if has_open(s) && !wrapped(s) {
        match template_from(s, 0) {
            Ok(_) => Ok(()),
            Err(m) => Err(m),
        }
    } else if wrapped(s) {
        let inner = s.subrange(2, s.len() - 1);
        if has_open(inner) {
            match template_from(inner, 0) {
                Ok(_) => Ok(()),
                Err(m) => Err(m),
            }
        } else {
            match expr_of(inner) {
                Ok(_) => Ok(()),
                Err(m) => Err(m),
            }
        }
    } else {
        Ok(())
    }
}

/// Whether a string prop holds acceptable expression text.
pub open spec fn expr_text_ok(s: Seq<char>) -> bool {
    expr_check(s) is Ok
}

/// The index of the first `${` in `s`, or its length.
fn find_open_exec(s: &Vec<char>) -> (r: usize)
    ensures
        r == find_open(s@, 0),
{
    let n = s.len();
    let mut k: usize = 0;
    while k < n && n - k > 1 && !(s[k] == '$' && s[k + 1] == '{')
        invariant
            k <= n,
            n == s@.len(),
            forall|j: int| 0 <= j < k && j + 1 < s@.len() ==> !(#[trigger] s@[j] == '$' && s@[j + 1] == '{'),
        decreases n - k,
    {
        k += 1;
    }
    proof {
        lemma_find_open(s@, 0, k as int);
    }
    if k >= n || n - k <= 1 {
        n
    } else {
        k
    }
}

/// Checks a string prop the way the validator does (see
/// [`expr_check`]); the error says what is wrong.
pub fn expr_ok(src: &str) -> (r: Result<(), ExprError>)
    ensures
        match expr_check(src@) {
            Ok(_) => r is Ok,
            Err(m) => r matches Err(x) && x.0@ == m,
        },
{
    let s = chars_of(src);
    let n = s.len();
    let is_wrapped = n >= 3 && s[0] == '$' && s[1] == '{' && s[n - 1] == '}';
    let has = find_open_exec(&s) < n;
    if has && !is_wrapped {
        return match parse_template(src) {
            Ok(_) => Ok(()),
            Err(e) => Err(e),
        };
    }
    if is_wrapped {
        let inner = slice_string(&s, 2, n - 1);
        let ic = chars_of(inner.as_str());
        if find_open_exec(&ic) < ic.len() {
            return match parse_template(inner.as_str()) {
                Ok(_) => Ok(()),
                Err(e) => Err(e),
            };
        }
        return match parse(inner.as_str()) {
            Ok(_) => Ok(()),
            Err(e) => Err(e),
        };
    }
    Ok(())
}

} // verus!
