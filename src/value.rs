//! Runtime values and the operators on them.

use std::rc::Rc;
use vstd::prelude::*;
use crate::ast::{BinaryOp, FunctionDecl, UnaryOp};
use crate::num::{div, div_units, fits, mul_units, neg, num_text, num_to_chars};
use crate::text::{digits_of, push_char, push_digits, string_of};
use vstd::string::StringExecFns;

verus! {

/// What a callable runs when called.
#[derive(Debug, Clone)]
pub enum CallTarget {
    /// The built-in `clock()`.
    Clock,
    /// A function of the script, closing over the scope `closure`.
    Script { decl: Rc<FunctionDecl>, closure: usize },
}

/// A runtime value.
#[derive(Debug, Clone)]
pub enum LiteralValueAst {
    /// A number, in millionths (see `num`).
    Number(i64),
    StringValue(String),
    True,
    False,
    Null,
    Callable { name: String, arity: usize, target: CallTarget },
}

/// The mathematical view of a value.
pub enum ValueView {
    Number(int),
    Str(Seq<char>),
    Bool(bool),
    Null,
    Callable { name: Seq<char>, arity: nat, target: CallTarget },
}

impl View for LiteralValueAst {
    type V = ValueView;

    open spec fn view(&self) -> ValueView {
        match self {
            LiteralValueAst::Number(u) => ValueView::Number(*u as int),
            LiteralValueAst::StringValue(s) => ValueView::Str(s@),
            LiteralValueAst::True => ValueView::Bool(true),
            LiteralValueAst::False => ValueView::Bool(false),
            LiteralValueAst::Null => ValueView::Null,
            LiteralValueAst::Callable { name, arity, target } => ValueView::Callable {
                name: name@,
                arity: *arity as nat,
                target: *target,
            },
        }
    }
}

/// Why an operator could not be applied.
#[derive(Debug, Clone, Copy, PartialEq, Eq, Structural)]
pub enum OpError {
    /// The operand types do not fit the operator.
    TypeMismatch,
    /// A string and a number were combined.
    StringAndNumber,
    /// A callable was used where a truth value is needed.
    CallableTruth,
    /// A number result does not fit.
    Overflow,
    DivisionByZero,
}

/// Truthiness: zero, the empty string, `false` and `null` are false;
/// a callable has none.
pub open spec fn truthy(v: ValueView) -> Option<bool> {
    match v {
        ValueView::Number(u) => Some(u != 0),
        ValueView::Str(s) => Some(s.len() > 0),
        ValueView::Bool(b) => Some(b),
        ValueView::Null => Some(false),
        ValueView::Callable { .. } => None,
    }
}

/// Structural equality: values of the same shape with the same contents;
/// callables by name and arity.
pub open spec fn values_equal(a: ValueView, b: ValueView) -> bool {
    match (a, b) {
        (ValueView::Number(x), ValueView::Number(y)) => x == y,
        (ValueView::Str(x), ValueView::Str(y)) => x == y,
        (ValueView::Bool(x), ValueView::Bool(y)) => x == y,
        (ValueView::Null, ValueView::Null) => true,
        (
            ValueView::Callable { name: n1, arity: a1, .. },
            ValueView::Callable { name: n2, arity: a2, .. },
        ) => n1 == n2 && a1 == a2,
        _ => false,
    }
}

/// Lexicographic order on strings.
pub open spec fn seq_less(a: Seq<char>, b: Seq<char>) -> bool
    decreases a.len(),
{
    if b.len() == 0 {
        false
    } else if a.len() == 0 {
        true
    } else if a[0] != b[0] {
        a[0] < b[0]
    } else {
        seq_less(a.drop_first(), b.drop_first())
    }
}

pub open spec fn is_arith(op: BinaryOp) -> bool {
    op is Add || op is Subtract || op is Multiply || op is Divide
}

pub open spec fn is_order(op: BinaryOp) -> bool {
    op is LessThan || op is LessEq || op is GreaterThan || op is GreaterEq
}

pub open spec fn order_holds(op: BinaryOp, less: bool, eq: bool) -> bool {
    match op {
        BinaryOp::LessThan => less,
        BinaryOp::LessEq => less || eq,
        BinaryOp::GreaterThan => !less && !eq,
        _ => !less,
    }
}

pub open spec fn number_result(r: int) -> Result<ValueView, OpError> {
    if fits(r) {
        Ok(ValueView::Number(r))
    } else {
        Err(OpError::Overflow)
    }
}

/// The result of a binary operator on two values.
pub open spec fn binary_spec(op: BinaryOp, a: ValueView, b: ValueView) -> Result<ValueView, OpError> {
    match (a, b) {
        (ValueView::Number(x), ValueView::Number(y)) => match op {
            BinaryOp::Add => number_result(x + y),
            BinaryOp::Subtract => number_result(x - y),
            BinaryOp::Multiply => number_result(mul_units(x, y)),
            BinaryOp::Divide => if y == 0 {
                Err(OpError::DivisionByZero)
            } else {
                number_result(div_units(x, y))
            },
            BinaryOp::Equals => Ok(ValueView::Bool(x == y)),
            BinaryOp::NotEquals => Ok(ValueView::Bool(x != y)),
            _ => if is_order(op) {
                Ok(ValueView::Bool(order_holds(op, x < y, x == y)))
            } else {
                Err(OpError::TypeMismatch)
            },
        },
        (ValueView::Str(x), ValueView::Str(y)) => match op {
            BinaryOp::Add => Ok(ValueView::Str(x + y)),
            BinaryOp::Equals => Ok(ValueView::Bool(x == y)),
            BinaryOp::NotEquals => Ok(ValueView::Bool(x != y)),
            _ => if is_order(op) {
                Ok(ValueView::Bool(order_holds(op, seq_less(x, y), x == y)))
            } else {
                Err(OpError::TypeMismatch)
            },
        },
        _ => match op {
            BinaryOp::Equals => Ok(ValueView::Bool(values_equal(a, b))),
            BinaryOp::NotEquals => Ok(ValueView::Bool(!values_equal(a, b))),
            _ => if (a is Str && b is Number) || (a is Number && b is Str) {
                Err(OpError::StringAndNumber)
            } else {
                Err(OpError::TypeMismatch)
            },
        },
    }
}

/// The result of a unary operator on a value.
pub open spec fn unary_spec(op: UnaryOp, v: ValueView) -> Result<ValueView, OpError> {
    match op {
        UnaryOp::Negate => match v {
            ValueView::Number(x) => number_result(-x),
            _ => Err(OpError::TypeMismatch),
        },
        UnaryOp::Not => match truthy(v) {
            Some(t) => Ok(ValueView::Bool(!t)),
            None => Err(OpError::CallableTruth),
        },
        UnaryOp::BitNot => Err(OpError::TypeMismatch),
    }
}

/// The name of a value's type.
pub open spec fn type_text(v: ValueView) -> Seq<char> {
    match v {
        ValueView::Number(_) => seq!['N', 'u', 'm', 'b', 'e', 'r'],
        ValueView::Str(_) => seq!['S', 't', 'r', 'i', 'n', 'g'],
        ValueView::Bool(_) => seq!['B', 'o', 'o', 'l', 'e', 'a', 'n'],
        ValueView::Null => seq!['n', 'u', 'l', 'l'],
        ValueView::Callable { .. } => seq!['C', 'a', 'l', 'l', 'a', 'b', 'l', 'e'],
    }
}

/// The canonical text of a value, as `print` writes it.
pub open spec fn value_text(v: ValueView) -> Seq<char> {
    match v {
        ValueView::Number(u) => num_text(u),
        ValueView::Str(s) => s,
        ValueView::Bool(b) => if b {
            seq!['t', 'r', 'u', 'e']
        } else {
            seq!['f', 'a', 'l', 's', 'e']
        },
        ValueView::Null => seq!['n', 'u', 'l', 'l'],
        ValueView::Callable { name, arity, .. } => name + seq!['|'] + digits_of(arity),
    }
}

/// Whether `a` orders before `b`, lexicographically.
pub fn chars_less(a: &Vec<char>, b: &Vec<char>) -> (r: bool)
    ensures
        r == seq_less(a@, b@),
{
    let mut i: usize = 0;
    proof {
        assert(a@.subrange(0, a@.len() as int) =~= a@);
        assert(b@.subrange(0, b@.len() as int) =~= b@);
    }
    while i < a.len() && i < b.len() && a[i] == b[i]
        invariant
            i <= a@.len(),
            i <= b@.len(),
            seq_less(a@, b@) == seq_less(a@.subrange(i as int, a@.len() as int), b@.subrange(i as int, b@.len() as int)),
        decreases a@.len() - i,
    {
        proof {
            let sa = a@.subrange(i as int, a@.len() as int);
            let sb = b@.subrange(i as int, b@.len() as int);
            assert(sa.drop_first() =~= a@.subrange(i + 1, a@.len() as int));
            assert(sb.drop_first() =~= b@.subrange(i + 1, b@.len() as int));
        }
        i += 1;
    }
    if i >= b.len() {
        false
    } else if i >= a.len() {
        true
    } else {
        a[i] < b[i]
    }
}

impl LiteralValueAst {
    pub fn from_bool(b: bool) -> (r: LiteralValueAst)
        ensures
            r@ == ValueView::Bool(b),
    {
        if b {
            LiteralValueAst::True
        } else {
            LiteralValueAst::False
        }
    }

    /// The value's truthiness; `None` for a callable, which has none.
    pub fn truthiness(&self) -> (r: Option<bool>)
        ensures
            r == truthy(self@),
    {
        match self {
            LiteralValueAst::Number(u) => Some(*u != 0),
            LiteralValueAst::StringValue(s) => Some(s.as_str().unicode_len() > 0),
            LiteralValueAst::True => Some(true),
            LiteralValueAst::False => Some(false),
            LiteralValueAst::Null => Some(false),
            LiteralValueAst::Callable { .. } => None,
        }
    }

    /// `true` or `false` by truthiness; `None` for a callable.
    pub fn is_truthy(&self) -> (r: Option<LiteralValueAst>)
        ensures
            match truthy(self@) {
                Some(t) => r matches Some(v) && v@ == ValueView::Bool(t),
                None => r is None,
            },
    {
        match self.truthiness() {
            Some(t) => Some(LiteralValueAst::from_bool(t)),
            None => None,
        }
    }

    /// The negation of `is_truthy`.
    pub fn is_falsy(&self) -> (r: Option<LiteralValueAst>)
        ensures
            match truthy(self@) {
                Some(t) => r matches Some(v) && v@ == ValueView::Bool(!t),
                None => r is None,
            },
    {
        match self.truthiness() {
            Some(t) => Some(LiteralValueAst::from_bool(!t)),
            None => None,
        }
    }

    /// Structural equality (see `values_equal`).
    pub fn equals(&self, other: &LiteralValueAst) -> (r: bool)
        ensures
            r == values_equal(self@, other@),
    {
        match (self, other) {
            (LiteralValueAst::Number(x), LiteralValueAst::Number(y)) => *x == *y,
            (LiteralValueAst::StringValue(x), LiteralValueAst::StringValue(y)) => *x == *y,
            (LiteralValueAst::True, LiteralValueAst::True) => true,
            (LiteralValueAst::False, LiteralValueAst::False) => true,
            (LiteralValueAst::True, LiteralValueAst::False) => false,
            (LiteralValueAst::False, LiteralValueAst::True) => false,
            (LiteralValueAst::Null, LiteralValueAst::Null) => true,
            (
                LiteralValueAst::Callable { name: n1, arity: a1, .. },
                LiteralValueAst::Callable { name: n2, arity: a2, .. },
            ) => *a1 == *a2 && *n1 == *n2,
            _ => false,
        }
    }

    /// The name of the value's type.
    pub fn to_type(&self) -> (r: &'static str)
        ensures
            r@ == type_text(self@),
    {
        proof {
            reveal_strlit("Number");
            reveal_strlit("String");
            reveal_strlit("Boolean");
            reveal_strlit("null");
            reveal_strlit("Callable");
        }
        match self {
            LiteralValueAst::Number(_) => "Number",
            LiteralValueAst::StringValue(_) => "String",
            LiteralValueAst::True => "Boolean",
            LiteralValueAst::False => "Boolean",
            LiteralValueAst::Null => "null",
            LiteralValueAst::Callable { .. } => "Callable",
        }
    }

    /// The canonical text of the value, as `print` writes it.
    pub fn to_string(&self) -> (r: String)
        ensures
            r@ == value_text(self@),
    {
        match self {
            LiteralValueAst::Number(u) => {
                let cs = num_to_chars(*u);
                string_of(cs.as_slice())
            },
            LiteralValueAst::StringValue(s) => s.clone(),
            LiteralValueAst::True => {
                proof {
                    reveal_strlit("true");
                }
                String::from_str("true")
            },
            LiteralValueAst::False => {
                proof {
                    reveal_strlit("false");
                }
                String::from_str("false")
            },
            LiteralValueAst::Null => {
                proof {
                    reveal_strlit("null");
                }
                String::from_str("null")
            },
            LiteralValueAst::Callable { name, arity, .. } => {
                let mut cs: Vec<char> = Vec::new();
                push_digits(*arity as u64, &mut cs);
                let mut s = name.clone();
                push_char(&mut s, '|');
                let tail = string_of(cs.as_slice());
                s.append(tail.as_str());
                s
            },
        }
    }
}

fn number_value(r: Option<i64>) -> (v: Result<LiteralValueAst, OpError>)
    ensures
        r matches Some(x) ==> v matches Ok(w) && w@ == ValueView::Number(x as int),
        r is None ==> v == Err::<LiteralValueAst, OpError>(OpError::Overflow),
{
    match r {
        Some(x) => Ok(LiteralValueAst::Number(x)),
        None => Err(OpError::Overflow),
    }
}

fn order_value(op: BinaryOp, less: bool, eq: bool) -> (v: LiteralValueAst)
    ensures
        v@ == ValueView::Bool(order_holds(op, less, eq)),
{
    match op {
        BinaryOp::LessThan => LiteralValueAst::from_bool(less),
        BinaryOp::LessEq => LiteralValueAst::from_bool(less || eq),
        BinaryOp::GreaterThan => LiteralValueAst::from_bool(!less && !eq),
        _ => LiteralValueAst::from_bool(!less),
    }
}

/// Applies a binary operator.
pub fn binary(op: BinaryOp, a: &LiteralValueAst, b: &LiteralValueAst) -> (r: Result<
    LiteralValueAst,
    OpError,
>)
    ensures
        match binary_spec(op, a@, b@) {
            Ok(v) => r matches Ok(w) && w@ == v,
            Err(e) => r == Err::<LiteralValueAst, OpError>(e),
        },
{
    match (a, b) {
        (LiteralValueAst::Number(x), LiteralValueAst::Number(y)) => {
            let x = *x;
            let y = *y;
            match op {
                BinaryOp::Add => number_value(crate::num::add(x, y)),
                BinaryOp::Subtract => number_value(crate::num::sub(x, y)),
                BinaryOp::Multiply => number_value(crate::num::mul(x, y)),
                BinaryOp::Divide => {
                    if y == 0 {
                        Err(OpError::DivisionByZero)
                    } else {
                        number_value(div(x, y))
                    }
                },
                BinaryOp::Equals => Ok(LiteralValueAst::from_bool(x == y)),
                BinaryOp::NotEquals => Ok(LiteralValueAst::from_bool(x != y)),
                BinaryOp::LessThan | BinaryOp::LessEq | BinaryOp::GreaterThan
                | BinaryOp::GreaterEq => Ok(order_value(op, x < y, x == y)),
                _ => Err(OpError::TypeMismatch),
            }
        },
        (LiteralValueAst::StringValue(x), LiteralValueAst::StringValue(y)) => {
            let xs = crate::text::chars_of(x.as_str());
            let ys = crate::text::chars_of(y.as_str());
            let same = seq_eq(&xs, &ys);
            match op {
                BinaryOp::Add => Ok(LiteralValueAst::StringValue(x.clone().concat(y.as_str()))),
                BinaryOp::Equals => Ok(LiteralValueAst::from_bool(same)),
                BinaryOp::NotEquals => Ok(LiteralValueAst::from_bool(!same)),
                BinaryOp::LessThan | BinaryOp::LessEq | BinaryOp::GreaterThan
                | BinaryOp::GreaterEq => Ok(order_value(op, chars_less(&xs, &ys), same)),
                _ => Err(OpError::TypeMismatch),
            }
        },
        _ => {
            match op {
                BinaryOp::Equals => Ok(LiteralValueAst::from_bool(a.equals(b))),
                BinaryOp::NotEquals => Ok(LiteralValueAst::from_bool(!a.equals(b))),
                _ => {
                    let sn = match (a, b) {
                        (LiteralValueAst::StringValue(_), LiteralValueAst::Number(_)) => true,
                        (LiteralValueAst::Number(_), LiteralValueAst::StringValue(_)) => true,
                        _ => false,
                    };
                    if sn {
                        Err(OpError::StringAndNumber)
                    } else {
                        Err(OpError::TypeMismatch)
                    }
                },
            }
        },
    }
}

/// Whether two character sequences are equal.
pub fn seq_eq(a: &Vec<char>, b: &Vec<char>) -> (r: bool)
    ensures
        r == (a@ == b@),
{
    if a.len() != b.len() {
        return false;
    }
    let mut i: usize = 0;
    while i < a.len()
        invariant
            a@.len() == b@.len(),
            i <= a@.len(),
            forall|j: int| 0 <= j < i ==> a@[j] == b@[j],
        decreases a@.len() - i,
    {
        if a[i] != b[i] {
            return false;
        }
        i += 1;
    }
    proof {
        assert(a@ =~= b@);
    }
    true
}

/// Applies a unary operator.
pub fn unary(op: UnaryOp, v: &LiteralValueAst) -> (r: Result<LiteralValueAst, OpError>)
    ensures
        match unary_spec(op, v@) {
            Ok(w) => r matches Ok(x) && x@ == w,
            Err(e) => r == Err::<LiteralValueAst, OpError>(e),
        },
{
    match op {
        UnaryOp::Negate => match v {
            LiteralValueAst::Number(x) => number_value(neg(*x)),
            _ => Err(OpError::TypeMismatch),
        },
        UnaryOp::Not => match v.truthiness() {
            Some(t) => Ok(LiteralValueAst::from_bool(!t)),
            None => Err(OpError::CallableTruth),
        },
        UnaryOp::BitNot => Err(OpError::TypeMismatch),
    }
}

impl CallTarget {
    pub fn duplicate(&self) -> (r: CallTarget)
        ensures
            r == *self,
    {
        match self {
            CallTarget::Clock => CallTarget::Clock,
            CallTarget::Script { decl, closure } => CallTarget::Script {
                decl: Rc::clone(decl),
                closure: *closure,
            },
        }
    }
}

impl LiteralValueAst {
    /// A copy of the value; a callable's copy shares its function.
    pub fn duplicate(&self) -> (r: LiteralValueAst)
        ensures
            r@ == self@,
    {
        match self {
            LiteralValueAst::Number(u) => LiteralValueAst::Number(*u),
            LiteralValueAst::StringValue(s) => LiteralValueAst::StringValue(s.clone()),
            LiteralValueAst::True => LiteralValueAst::True,
            LiteralValueAst::False => LiteralValueAst::False,
            LiteralValueAst::Null => LiteralValueAst::Null,
            LiteralValueAst::Callable { name, arity, target } => LiteralValueAst::Callable {
                name: name.clone(),
                arity: *arity,
                target: target.duplicate(),
            },
        }
    }
}

/// A string and a number are never coerced: an arithmetic or ordering
/// operator on them is an error.
pub proof fn lemma_no_coercion(op: BinaryOp, x: int, s: Seq<char>)
    requires
        is_arith(op) || is_order(op),
    ensures
        binary_spec(op, ValueView::Number(x), ValueView::Str(s)) == Err::<ValueView, OpError>(
            OpError::StringAndNumber,
        ),
        binary_spec(op, ValueView::Str(s), ValueView::Number(x)) == Err::<ValueView, OpError>(
            OpError::StringAndNumber,
        ),
{
}

impl LiteralValueAst {
    /// The value a literal token stands for: a number, a string, `true`,
    /// `false` or `null`; `None` for any other token.
    pub fn from_token(token: &crate::token::Token) -> (r: Option<LiteralValueAst>)
        ensures
            token.token_type is True ==> (r matches Some(v) && v@ == ValueView::Bool(true)),
            token.token_type is False ==> (r matches Some(v) && v@ == ValueView::Bool(false)),
            token.token_type is Null ==> (r matches Some(v) && v@ == ValueView::Null),
            token.token_type is Number ==> match token.literal {
                Some(crate::token::LiteralValue::Number(u)) => r matches Some(v) && v@ == ValueView::Number(u as int),
                _ => r is None,
            },
            token.token_type is String ==> match token.literal {
                Some(crate::token::LiteralValue::StringValue(s)) => r matches Some(v) && v@ == ValueView::Str(s@),
                _ => r is None,
            },
            !(token.token_type is True || token.token_type is False || token.token_type is Null
                || token.token_type is Number || token.token_type is String) ==> r is None,
    {
        match token.token_type {
            crate::token::TokenType::True => Some(LiteralValueAst::True),
            crate::token::TokenType::False => Some(LiteralValueAst::False),
            crate::token::TokenType::Null => Some(LiteralValueAst::Null),
            crate::token::TokenType::Number => match &token.literal {
                Some(crate::token::LiteralValue::Number(u)) => Some(LiteralValueAst::Number(*u)),
                _ => None,
            },
            crate::token::TokenType::String => match &token.literal {
                Some(crate::token::LiteralValue::StringValue(s)) => Some(LiteralValueAst::StringValue(s.clone())),
                _ => None,
            },
            _ => None,
        }
    }
}

} // verus!
