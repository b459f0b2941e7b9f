//! The kinds of value and how they combine: the promotion order of the
//! numeric kinds, and exact integer arithmetic.

use vstd::prelude::*;

verus! {

/// The kinds of value.
#[derive(Debug, Clone, Copy, PartialEq, Eq, Structural)]
pub enum NodeType {
    BigInteger,
    Integer,
    BigFloat,
    Float,
    String,
}

/// The place of a numeric kind in the promotion order
/// `Integer < BigInteger < Float < BigFloat`.
pub open spec fn rank(t: NodeType) -> int {
    match t {
        NodeType::Integer => 0,
        NodeType::BigInteger => 1,
        NodeType::Float => 2,
        NodeType::BigFloat => 3,
        NodeType::String => 4,
    }
}

/// The kind that two operands of kinds `a` and `b` are both brought to
/// before a binary operation: the wider numeric kind; text combines only
/// with text.
pub open spec fn common_kind(a: NodeType, b: NodeType) -> Option<NodeType> {
    if a == b {
        Some(a)
    } else if a == NodeType::String || b == NodeType::String {
        None
    } else if rank(a) >= rank(b) {
        Some(a)
    } else {
        Some(b)
    }
}

/// The common kind of a first result, if any, with a third kind.
pub open spec fn common_with(a: Option<NodeType>, b: NodeType) -> Option<NodeType> {
    match a {
        Some(k) => common_kind(k, b),
        None => None,
    }
}

/// Promotion does not depend on the order of the operands.
pub proof fn lemma_common_kind_symmetric(a: NodeType, b: NodeType)
    ensures
        common_kind(a, b) == common_kind(b, a),
{
}

/// Promotion over three operands does not depend on how they are grouped.
pub proof fn lemma_common_kind_associative(a: NodeType, b: NodeType, c: NodeType)
    ensures
        common_with(common_kind(a, b), c) == match common_kind(b, c) {
            Some(k) => common_kind(a, k),
            None => None,
        },
{
}

/// Division by a zero fails in every integer kind, whatever is divided.
pub proof fn lemma_divide_by_zero(a: int, wide: bool)
    ensures
        int_outcome(Operator::Div, a, 0, wide) == IntOutcome::DivideByZero,
{
}

impl NodeType {
    /// The common kind of `a` and `b`; `None` where text meets a number.
    pub fn common(a: NodeType, b: NodeType) -> (r: Option<NodeType>)
        ensures
            r == common_kind(a, b),
    {
        if a == b {
            Some(a)
        } else if a == NodeType::String || b == NodeType::String {
            None
        } else if NodeType::order(a) >= NodeType::order(b) {
            Some(a)
        } else {
            Some(b)
        }
    }

    /// The place of the kind in the promotion order.
    pub fn order(t: NodeType) -> (r: u8)
        ensures
            r == rank(t),
    {
        match t {
            NodeType::Integer => 0,
            NodeType::BigInteger => 1,
            NodeType::Float => 2,
            NodeType::BigFloat => 3,
            NodeType::String => 4,
        }
    }

    /// The floating kind that an integer kind's inexact quotient takes.
    pub fn float_of(t: NodeType) -> (r: NodeType)
        ensures
            t == NodeType::Integer ==> r == NodeType::Float,
            t == NodeType::BigInteger ==> r == NodeType::BigFloat,
            t != NodeType::Integer && t != NodeType::BigInteger ==> r == t,
    {
        match t {
            NodeType::Integer => NodeType::Float,
            NodeType::BigInteger => NodeType::BigFloat,
            _ => t,
        }
    }
}

/// A binary arithmetic operator.
#[derive(Debug, Clone, Copy, PartialEq, Eq, Structural)]
pub enum Operator {
    Add,
    Sub,
    Mul,
    Div,
}

/// The outcome of integer arithmetic.
#[derive(Debug, Clone, Copy, PartialEq, Eq, Structural)]
pub enum IntOutcome {
    /// The exact result, within the kind's range.
    Whole(i128),
    /// A division that does not come out even: the result is a fraction.
    Fraction,
    /// A division by zero.
    DivideByZero,
    /// The exact result lies outside the kind's range.
    Overflow,
}

/// The range of an integer kind: `i128` for the wide kind, else `i32`.
pub open spec fn low(wide: bool) -> int {
    if wide { i128::MIN as int } else { i32::MIN as int }
}

pub open spec fn high(wide: bool) -> int {
    if wide { i128::MAX as int } else { i32::MAX as int }
}

/// `v` as an outcome of the kind: whole where it fits the range.
pub open spec fn fit(v: int, wide: bool) -> IntOutcome {
    if low(wide) <= v <= high(wide) {
        IntOutcome::Whole(v as i128)
    } else {
        IntOutcome::Overflow
    }
}

/// What `a op b` gives in an integer kind.
pub open spec fn int_outcome(op: Operator, a: int, b: int, wide: bool) -> IntOutcome {
    match op {
        Operator::Add => fit(a + b, wide),
        Operator::Sub => fit(a - b, wide),
        Operator::Mul => fit(a * b, wide),
        Operator::Div => if b == 0 {
            IntOutcome::DivideByZero
        } else if a % b != 0 {
            IntOutcome::Fraction
        } else {
            fit(a / b, wide)
        },
    }
}

/// `v` as an outcome of the kind.
fn fit_exec(v: Option<i128>, wide: bool) -> (r: IntOutcome)
    ensures
        v matches Some(x) ==> r == fit(x as int, wide),
        v is None ==> r == IntOutcome::Overflow,
{
    match v {
        Some(x) => {
            if wide || (i32::MIN as i128 <= x && x <= i32::MAX as i128) {
                IntOutcome::Whole(x)
            } else {
                IntOutcome::Overflow
            }
        },
        None => IntOutcome::Overflow,
    }
}

/// Apply `op` to two values of an integer kind (`wide` for the 128-bit kind):
/// the exact result where it fits; a division that does not come out even is
/// a fraction, and a division by zero is an error.
pub fn apply_int(op: Operator, a: i128, b: i128, wide: bool) -> (r: IntOutcome)
    requires
        low(wide) <= a <= high(wide),
        low(wide) <= b <= high(wide),
    ensures
        r == int_outcome(op, a as int, b as int, wide),
{
    match op {
        Operator::Add => fit_exec(a.checked_add(b), wide),
        Operator::Sub => fit_exec(a.checked_sub(b), wide),
        Operator::Mul => fit_exec(a.checked_mul(b), wide),
        Operator::Div => {
            if b == 0 {
                IntOutcome::DivideByZero
            } else if b == -1 {
                fit_exec(0i128.checked_sub(a), wide)
            } else {
                match a.checked_rem_euclid(b) {
                    Some(m) => {
                        if m != 0 {
                            IntOutcome::Fraction
                        } else {
                            fit_exec(a.checked_div_euclid(b), wide)
                        }
                    },
                    None => IntOutcome::Overflow,
                }
            }
        },
    }
}

/// How a whole number is written in decimal: digits, after a `-` if negative.
pub open spec fn decimal(v: int) -> Seq<char>
    decreases (if v < 0 { -v } else { v }), (if v < 0 { 1int } else { 0int }),
{
    if v < 0 {
        seq!['-'] + decimal(-v)
    } else if v < 10 {
        seq![digit(v)]
    } else {
        decimal(v / 10) + seq![digit(v % 10)]
    }
}

/// The decimal digit for `d`, from 0 to 9.
pub open spec fn digit(d: int) -> char {
    if d == 0 { '0' } else if d == 1 { '1' } else if d == 2 { '2' } else if d == 3 { '3' } else if d == 4 { '4' }
    else if d == 5 { '5' } else if d == 6 { '6' } else if d == 7 { '7' } else if d == 8 { '8' } else { '9' }
}

/// Relies on `ToString` for `i128` (its `Display`): the number in decimal.
#[verifier::external_body]
pub(crate) fn int_text(v: i128) -> (r: String)
    ensures
        r@ == decimal(v as int),
{
    v.to_string()
}

/// The value of a run of decimal digits; `None` if it is empty or holds
/// anything else.
pub open spec fn digits_value(s: Seq<char>) -> Option<int>
    decreases s.len(),
{
    if s.len() == 0 {
        None
    } else {
        let c = s.last();
        if !('0' <= c && c <= '9') {
            None
        } else if s.len() == 1 {
            Some(c as int - '0' as int)
        } else {
            match digits_value(s.drop_last()) {
                Some(v) => Some(v * 10 + (c as int - '0' as int)),
                None => None,
            }
        }
    }
}

/// The number that `s` writes: an optional `+` or `-`, then decimal digits.
pub open spec fn decimal_value(s: Seq<char>) -> Option<int> {
    if s.len() > 0 && s[0] == '-' {
        match digits_value(s.drop_first()) {
            Some(v) => Some(-v),
            None => None,
        }
    } else if s.len() > 0 && s[0] == '+' {
        digits_value(s.drop_first())
    } else {
        digits_value(s)
    }
}

/// `decimal_value(s)` where it fits the range `lo..=hi`.
pub open spec fn read_int(s: Seq<char>, lo: int, hi: int) -> Option<int> {
    match decimal_value(s) {
        Some(v) => if lo <= v <= hi { Some(v) } else { None },
        None => None,
    }
}

/// Relies on `str::parse::<i128>` (`FromStr` for integers): an optional `+`
/// or `-` then decimal digits, and nothing else, read as a number in range.
#[verifier::external_body]
fn parse_i128(s: &str) -> (r: Option<i128>)
    ensures
        read_int(s@, i128::MIN as int, i128::MAX as int) matches Some(v) ==> r == Some(v as i128),
        read_int(s@, i128::MIN as int, i128::MAX as int) is None ==> r is None,
{
    s.parse::<i128>().ok()
}

/// A floating-point kind of value: read from decimal text, written out,
/// tested for zero, and combined by the four operators.
pub trait Real: Sized {
    /// The value written in `text`, if it is one.
    fn parse_text(text: &str) -> Option<Self>;

    /// The value written out.
    fn to_text(&self) -> String;

    fn is_zero(&self) -> bool;

    fn apply(&self, op: Operator, other: &Self) -> Self;

    /// The quotient `a / b` of two whole numbers.
    fn ratio(a: i128, b: i128) -> Self;
}

/// A value of the language: two floating kinds (`F` narrow, `D` wide), two
/// integer kinds, text, and an error carried as a value.
#[derive(Debug, Clone, PartialEq)]
pub enum NodeValue<F, D> {
    BigFloat(D),
    Float(F),
    BigInteger(i128),
    Integer(i32),
    String(String),
    ValueError(String),
}

/// The kind of a value; an error has none.
pub open spec fn kind_of<F, D>(v: NodeValue<F, D>) -> Option<NodeType> {
    match v {
        NodeValue::BigFloat(_) => Some(NodeType::BigFloat),
        NodeValue::Float(_) => Some(NodeType::Float),
        NodeValue::BigInteger(_) => Some(NodeType::BigInteger),
        NodeValue::Integer(_) => Some(NodeType::Integer),
        NodeValue::String(_) => Some(NodeType::String),
        NodeValue::ValueError(_) => None,
    }
}

/// The value is a whole-number zero.
pub open spec fn is_int_zero<F, D>(v: NodeValue<F, D>) -> bool {
    v == NodeValue::<F, D>::Integer(0) || v == NodeValue::<F, D>::BigInteger(0)
}

/// What integer arithmetic gives, as a value of the language: the whole
/// result in the same kind; a fraction in the matching floating kind; an
/// error for a division by zero or an overflow.
pub open spec fn int_value_ok<F, D>(outcome: IntOutcome, wide: bool, r: NodeValue<F, D>) -> bool {
    match outcome {
        IntOutcome::Whole(v) => if wide { r == NodeValue::<F, D>::BigInteger(v) } else { r == NodeValue::<F, D>::Integer(v as i32) },
        IntOutcome::Fraction => if wide { r is BigFloat } else { r is Float },
        IntOutcome::DivideByZero => r matches NodeValue::ValueError(e) && e@ == "Cannot divide by zero"@,
        IntOutcome::Overflow => r matches NodeValue::ValueError(e) && e@ == "Integer overflow"@,
    }
}

/// What reading `value` as kind `kind` gives: a value of that kind or an
/// error; text as itself; a whole number exactly when the text writes one in
/// the kind's range.
pub open spec fn read_post<F, D>(value: Seq<char>, kind: NodeType, r: Result<NodeValue<F, D>, String>) -> bool {
    &&& r matches Ok(v) ==> kind_of(v) == Some(kind)
    &&& kind == NodeType::String ==> (r matches Ok(v) && v matches NodeValue::String(t) && t@ == value)
    &&& kind == NodeType::Integer ==> match read_int(value, i32::MIN as int, i32::MAX as int) {
        Some(n) => r == Ok::<NodeValue<F, D>, String>(NodeValue::Integer(n as i32)),
        None => r matches Err(t) && t@ == read_error(value, false),
    }
    &&& kind == NodeType::BigInteger ==> match read_int(value, i128::MIN as int, i128::MAX as int) {
        Some(n) => r == Ok::<NodeValue<F, D>, String>(NodeValue::BigInteger(n as i128)),
        None => r matches Err(t) && t@ == read_error(value, false),
    }
    &&& (kind == NodeType::Float || kind == NodeType::BigFloat) ==> (r matches Err(t) ==> t@ == read_error(value, true))
}

/// The message for text that is not a value of an integer kind, or of a
/// floating kind.
pub open spec fn read_error(value: Seq<char>, float: bool) -> Seq<char> {
    if float {
        "Failed to parse '"@ + value + "' as Float"@
    } else {
        "Failed to parse '"@ + value + "' as Integer"@
    }
}

/// The messages an operation on two values that are not errors can give.
pub open spec fn operation_error(e: Seq<char>) -> bool {
    ||| e == "Cannot divide by zero"@
    ||| e == "Integer overflow"@
    ||| e == "Cannot combine text with a number"@
    ||| e == "Cannot combine text with text"@
    ||| e == "Cannot convert to a narrower kind"@
    ||| exists|t: Seq<char>| e == #[trigger] read_error(t, true)
}

/// A value of a numeric kind.
pub open spec fn is_number<F, D>(v: NodeValue<F, D>) -> bool {
    !(v is String) && !(v is ValueError)
}

/// A value of a floating kind.
pub open spec fn is_float<F, D>(v: NodeValue<F, D>) -> bool {
    v is Float || v is BigFloat
}

/// What `a op b` gives: an error operand comes out first, the left one
/// before the right; a division by a whole zero is an error; whole numbers
/// combine exactly, an uneven quotient going to the floating kind; text
/// combines with nothing; where a floating kind takes part the result is of
/// the wider kind.
pub open spec fn apply_post<F, D>(a: NodeValue<F, D>, b: NodeValue<F, D>, op: Operator, r: NodeValue<F, D>) -> bool {
    &&& a is ValueError ==> r == a
    &&& !(a is ValueError) && b is ValueError ==> r == b
    &&& !(a is ValueError) && !(b is ValueError) && op == Operator::Div && is_int_zero(b)
        ==> r is ValueError
    &&& (a matches NodeValue::Integer(x) ==> (b matches NodeValue::Integer(y)
        ==> int_value_ok(int_outcome(op, x as int, y as int, false), false, r)))
    &&& (a matches NodeValue::BigInteger(x) ==> (b matches NodeValue::BigInteger(y)
        ==> int_value_ok(int_outcome(op, x as int, y as int, true), true, r)))
    &&& (a matches NodeValue::Integer(x) ==> (b matches NodeValue::BigInteger(y)
        ==> int_value_ok(int_outcome(op, x as int, y as int, true), true, r)))
    &&& (a matches NodeValue::BigInteger(x) ==> (b matches NodeValue::Integer(y)
        ==> int_value_ok(int_outcome(op, x as int, y as int, true), true, r)))
    &&& a is String || b is String ==> r is ValueError
    &&& is_number(a) && is_number(b) && (is_float(a) || is_float(b)) && !(r is ValueError)
        ==> kind_of(r) == common_kind(kind_of(a)->0, kind_of(b)->0)
    &&& (a is BigFloat || b is BigFloat) && !(r is ValueError) ==> r is BigFloat
    // the messages
    &&& !(a is ValueError) && !(b is ValueError) && op == Operator::Div && is_int_zero(b)
        ==> (r matches NodeValue::ValueError(e) && e@ == "Cannot divide by zero"@)
    &&& a is String && b is String ==> (r matches NodeValue::ValueError(e) && e@ == "Cannot combine text with text"@)
    &&& is_number(a) && b is String ==> (r matches NodeValue::ValueError(e) && e@ == "Cannot combine text with a number"@)
    &&& a is String && is_number(b) && !(op == Operator::Div && (is_int_zero(b) || is_float(b)))
        ==> (r matches NodeValue::ValueError(e) && e@ == "Cannot combine text with a number"@)
    &&& !(a is ValueError) && !(b is ValueError) ==> (r matches NodeValue::ValueError(e) ==> operation_error(e@))
}

impl<F: Real, D: Real> NodeValue<F, D> {
    /// The kind of the value; `None` for an error.
    pub fn node_type(&self) -> (r: Option<NodeType>)
        ensures
            r == kind_of(*self),
    {
        match self {
            NodeValue::BigFloat(_) => Some(NodeType::BigFloat),
            NodeValue::Float(_) => Some(NodeType::Float),
            NodeValue::BigInteger(_) => Some(NodeType::BigInteger),
            NodeValue::Integer(_) => Some(NodeType::Integer),
            NodeValue::String(_) => Some(NodeType::String),
            NodeValue::ValueError(_) => None,
        }
    }

    /// The value written out; an error gives its message as the error.
    pub fn to_string(&self) -> (r: Result<String, String>)
        ensures
            self matches NodeValue::Integer(i) ==> (r matches Ok(t) && t@ == decimal(i as int)),
            self matches NodeValue::BigInteger(i) ==> (r matches Ok(t) && t@ == decimal(i as int)),
            self matches NodeValue::String(t) ==> r == Ok::<String, String>(*t),
            self matches NodeValue::ValueError(e) ==> r == Err::<String, String>(*e),
            self is Float || self is BigFloat ==> r is Ok,
    {
        match self {
            NodeValue::BigFloat(d) => Ok(d.to_text()),
            NodeValue::Float(f) => Ok(f.to_text()),
            NodeValue::BigInteger(i) => Ok(int_text(*i)),
            NodeValue::Integer(i) => Ok(int_text(*i as i128)),
            NodeValue::String(t) => Ok(t.clone()),
            NodeValue::ValueError(e) => Err(e.clone()),
        }
    }

    /// Read `value` as a value of kind `kind`; an error where it is not one.
    pub fn parse_value(value: &str, kind: NodeType) -> (r: Result<Self, String>)
        ensures
            r matches Ok(v) ==> kind_of(v) == Some(kind),
            kind == NodeType::String ==> (r matches Ok(v) && v matches NodeValue::String(t) && t@ == value@),
            read_post(value@, kind, r),
    {
        match kind {
            NodeType::Integer => match parse_i128(value) {
                Some(n) => {
                    if i32::MIN as i128 <= n && n <= i32::MAX as i128 {
                        Ok(NodeValue::Integer(n as i32))
                    } else {
                        Err(crate::text::join3("Failed to parse '", value, "' as Integer"))
                    }
                },
                None => Err(crate::text::join3("Failed to parse '", value, "' as Integer")),
            },
            NodeType::BigInteger => match parse_i128(value) {
                Some(n) => Ok(NodeValue::BigInteger(n)),
                None => Err(crate::text::join3("Failed to parse '", value, "' as Integer")),
            },
            NodeType::Float => match F::parse_text(value) {
                Some(f) => Ok(NodeValue::Float(f)),
                None => Err(crate::text::join3("Failed to parse '", value, "' as Float")),
            },
            NodeType::BigFloat => match D::parse_text(value) {
                Some(d) => Ok(NodeValue::BigFloat(d)),
                None => Err(crate::text::join3("Failed to parse '", value, "' as Float")),
            },
            NodeType::String => Ok(NodeValue::String(value.to_owned())),
        }
    }

    /// The value brought to the wider kind `kind`, by writing it out and
    /// reading it back; an error where that fails or `kind` is not wider.
    pub fn as_type(self, kind: NodeType) -> (r: Self)
        ensures
            r is ValueError || kind_of(r) == Some(kind),
            kind_of(self) == Some(NodeType::Integer) && kind == NodeType::BigInteger
        ==> r == NodeValue::<F, D>::BigInteger(self->Integer_0 as i128),
            kind_of(self) == Some(kind) ==> r == self,
            r matches NodeValue::ValueError(e) ==> (self matches NodeValue::ValueError(e0) && e == e0) || operation_error(e@),
    {
        match (self, kind) {
            (NodeValue::Integer(i), NodeType::Integer) => NodeValue::Integer(i),
            (NodeValue::BigInteger(i), NodeType::BigInteger) => NodeValue::BigInteger(i),
            (NodeValue::Float(f), NodeType::Float) => NodeValue::Float(f),
            (NodeValue::BigFloat(d), NodeType::BigFloat) => NodeValue::BigFloat(d),
            (NodeValue::String(t), NodeType::String) => NodeValue::String(t),
            (NodeValue::Integer(i), NodeType::BigInteger) => NodeValue::BigInteger(i as i128),
            (NodeValue::Integer(i), NodeType::Float) => NodeValue::read_float(int_text(i as i128)),
            (NodeValue::BigInteger(i), NodeType::Float) => NodeValue::read_float(int_text(i)),
            (NodeValue::Integer(i), NodeType::BigFloat) => NodeValue::read_big_float(int_text(i as i128)),
            (NodeValue::BigInteger(i), NodeType::BigFloat) => NodeValue::read_big_float(int_text(i)),
            (NodeValue::Float(f), NodeType::BigFloat) => NodeValue::read_big_float(f.to_text()),
            (NodeValue::ValueError(e), _) => NodeValue::ValueError(e),
            (_, _) => NodeValue::ValueError("Cannot convert to a narrower kind".to_owned()),
        }
    }

    fn read_float(text: String) -> (r: Self)
        ensures
            r is Float || r is ValueError,
            r matches NodeValue::ValueError(e) ==> e@ == read_error(text@, true),
    {
        match F::parse_text(text.as_str()) {
            Some(f) => NodeValue::Float(f),
            None => NodeValue::ValueError(crate::text::join3("Failed to parse '", text.as_str(), "' as Float")),
        }
    }

    fn read_big_float(text: String) -> (r: Self)
        ensures
            r is BigFloat || r is ValueError,
            r matches NodeValue::ValueError(e) ==> e@ == read_error(text@, true),
    {
        match D::parse_text(text.as_str()) {
            Some(d) => NodeValue::BigFloat(d),
            None => NodeValue::ValueError(crate::text::join3("Failed to parse '", text.as_str(), "' as Float")),
        }
    }

    /// Whole-number arithmetic in one integer kind, as a value.
    fn int_value(op: Operator, a: i128, b: i128, wide: bool) -> (r: Self)
        requires
            low(wide) <= a <= high(wide),
            low(wide) <= b <= high(wide),
        ensures
            int_value_ok(int_outcome(op, a as int, b as int, wide), wide, r),
    {
        match apply_int(op, a, b, wide) {
            IntOutcome::Whole(v) => {
                if wide {
                    NodeValue::BigInteger(v)
                } else {
                    NodeValue::Integer(v as i32)
                }
            },
            IntOutcome::Fraction => {
                if wide {
                    NodeValue::BigFloat(D::ratio(a, b))
                } else {
                    NodeValue::Float(F::ratio(a, b))
                }
            },
            IntOutcome::DivideByZero => NodeValue::ValueError("Cannot divide by zero".to_owned()),
            IntOutcome::Overflow => NodeValue::ValueError("Integer overflow".to_owned()),
        }
    }

    /// Apply `op` to two values. An error operand comes out first, the left
    /// one before the right; a division by zero is an error; operands of the
    /// same kind combine in that kind; operands of different kinds are both
    /// brought to the wider kind first; text combines with nothing.
    pub fn apply(self, other: Self, op: Operator) -> (r: Self)
        ensures
            apply_post(self, other, op, r),
        decreases (if kind_of(self) == kind_of(other) { 0int } else { 1int }),
    {
        if let NodeValue::ValueError(_) = self {
            return self;
        }
        if let NodeValue::ValueError(_) = other {
            return other;
        }
        if op == Operator::Div {
            let zero = match &other {
                NodeValue::Integer(b) => *b == 0,
                NodeValue::BigInteger(b) => *b == 0,
                NodeValue::Float(f) => f.is_zero(),
                NodeValue::BigFloat(d) => d.is_zero(),
                _ => false,
            };
            if zero {
                return NodeValue::ValueError("Cannot divide by zero".to_owned());
            }
        }
        let ka = self.node_type();
        let kb = other.node_type();
        let (ka, kb) = match (ka, kb) {
            (Some(a), Some(b)) => (a, b),
            _ => {
                return NodeValue::ValueError("Cannot combine these values".to_owned());
            },
        };
        let kind = match NodeType::common(ka, kb) {
            Some(k) => k,
            None => {
                return NodeValue::ValueError("Cannot combine text with a number".to_owned());
            },
        };
        if ka != kind || kb != kind {
            let lhs = self.as_type(kind);
            let rhs = other.as_type(kind);
            if let NodeValue::ValueError(_) = lhs {
                return lhs;
            }
            if let NodeValue::ValueError(_) = rhs {
                return rhs;
            }
            return lhs.apply(rhs, op);
        }
        match (self, other) {
            (NodeValue::Integer(a), NodeValue::Integer(b)) => NodeValue::int_value(op, a as i128, b as i128, false),
            (NodeValue::BigInteger(a), NodeValue::BigInteger(b)) => NodeValue::int_value(op, a, b, true),
            (NodeValue::Float(a), NodeValue::Float(b)) => NodeValue::Float(a.apply(op, &b)),
            (NodeValue::BigFloat(a), NodeValue::BigFloat(b)) => NodeValue::BigFloat(a.apply(op, &b)),
            (_, _) => NodeValue::ValueError("Cannot combine text with text".to_owned()),
        }
    }
}

impl<F: Real, D: Real> crate::exec::ValueText for NodeValue<F, D> {
    /// Whole numbers in decimal, text as itself, an error as its message; the
    /// floating kinds write themselves.
    open spec fn known_text(&self) -> Option<Result<Seq<char>, Seq<char>>> {
        match self {
            NodeValue::Integer(i) => Some(Ok(decimal(*i as int))),
            NodeValue::BigInteger(i) => Some(Ok(decimal(*i as int))),
            NodeValue::String(t) => Some(Ok(t@)),
            NodeValue::ValueError(e) => Some(Err(e@)),
            _ => None,
        }
    }

    fn to_text(&self) -> (r: Result<String, String>) {
        self.to_string()
    }
}

} // verus!
