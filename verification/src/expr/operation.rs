//! Expression operations.
use vstd::prelude::*;
use crate::text::{chars_of, chars_eq, to_uppercase, uppercase_of};

verus! {

broadcast use vstd::string::group_string_axioms;

/// All operations supported by Iceberg expressions.
#[derive(Debug, Clone, Copy, PartialEq, Eq, Hash, Structural)]
pub enum Operation {
    /// Always true
    True,
    /// Always false
    False,
    /// IS NULL
    IsNull,
    /// IS NOT NULL
    NotNull,
    /// IS NaN
    IsNaN,
    /// IS NOT NaN
    NotNaN,
    /// Less than (<)
    Lt,
    /// Less than or equal (<=)
    LtEq,
    /// Greater than (>)
    Gt,
    /// Greater than or equal (>=)
    GtEq,
    /// Equal (=)
    Eq,
    /// Not equal (!=)
    NotEq,
    /// IN (value list)
    In,
    /// NOT IN (value list)
    NotIn,
    /// Logical NOT
    Not,
    /// Logical AND
    And,
    /// Logical OR
    Or,
    /// STARTS WITH
    StartsWith,
    /// NOT STARTS WITH
    NotStartsWith,
    /// COUNT
    Count,
    /// COUNT NULL
    CountNull,
    /// COUNT(*)
    CountStar,
    /// MAX
    Max,
    /// MIN
    Min,
}

/// The operation that holds exactly when `op` does not, where one exists.
pub open spec fn negated_op(op: Operation) -> Option<Operation> {
    match op {
        Operation::IsNull => Some(Operation::NotNull),
        Operation::NotNull => Some(Operation::IsNull),
        Operation::IsNaN => Some(Operation::NotNaN),
        Operation::NotNaN => Some(Operation::IsNaN),
        Operation::Lt => Some(Operation::GtEq),
        Operation::LtEq => Some(Operation::Gt),
        Operation::Gt => Some(Operation::LtEq),
        Operation::GtEq => Some(Operation::Lt),
        Operation::Eq => Some(Operation::NotEq),
        Operation::NotEq => Some(Operation::Eq),
        Operation::In => Some(Operation::NotIn),
        Operation::NotIn => Some(Operation::In),
        Operation::StartsWith => Some(Operation::NotStartsWith),
        Operation::NotStartsWith => Some(Operation::StartsWith),
        _ => None,
    }
}

/// The operation equivalent to `op` with its two operands exchanged, where one exists.
pub open spec fn flipped_op(op: Operation) -> Option<Operation> {
    match op {
        Operation::Lt => Some(Operation::Gt),
        Operation::LtEq => Some(Operation::GtEq),
        Operation::Gt => Some(Operation::Lt),
        Operation::GtEq => Some(Operation::LtEq),
        Operation::Eq => Some(Operation::Eq),
        Operation::NotEq => Some(Operation::NotEq),
        Operation::And => Some(Operation::And),
        Operation::Or => Some(Operation::Or),
        _ => None,
    }
}

/// The operation named by an upper-case name (the names and symbols that
/// `Operation::from_str` accepts after upper-casing its input).
pub open spec fn op_named(u: Seq<char>) -> Option<Operation> {
    if u == "TRUE"@ {
        Some(Operation::True)
    } else if u == "FALSE"@ {
        Some(Operation::False)
    } else if u == "IS_NULL"@ || u == "ISNULL"@ {
        Some(Operation::IsNull)
    } else if u == "NOT_NULL"@ || u == "NOTNULL"@ || u == "IS_NOT_NULL"@ {
        Some(Operation::NotNull)
    } else if u == "IS_NAN"@ || u == "ISNAN"@ {
        Some(Operation::IsNaN)
    } else if u == "NOT_NAN"@ || u == "NOTNAN"@ || u == "IS_NOT_NAN"@ {
        Some(Operation::NotNaN)
    } else if u == "LT"@ || u == "<"@ {
        Some(Operation::Lt)
    } else if u == "LT_EQ"@ || u == "LTEQ"@ || u == "<="@ {
        Some(Operation::LtEq)
    } else if u == "GT"@ || u == ">"@ {
        Some(Operation::Gt)
    } else if u == "GT_EQ"@ || u == "GTEQ"@ || u == ">="@ {
        Some(Operation::GtEq)
    } else if u == "EQ"@ || u == "="@ || u == "=="@ {
        Some(Operation::Eq)
    } else if u == "NOT_EQ"@ || u == "NOTEQ"@ || u == "!="@ || u == "<>"@ {
        Some(Operation::NotEq)
    } else if u == "IN"@ {
        Some(Operation::In)
    } else if u == "NOT_IN"@ || u == "NOTIN"@ {
        Some(Operation::NotIn)
    } else if u == "NOT"@ {
        Some(Operation::Not)
    } else if u == "AND"@ || u == "&&"@ {
        Some(Operation::And)
    } else if u == "OR"@ || u == "||"@ {
        Some(Operation::Or)
    } else if u == "STARTS_WITH"@ || u == "STARTSWITH"@ {
        Some(Operation::StartsWith)
    } else if u == "NOT_STARTS_WITH"@ || u == "NOTSTARTSWITH"@ {
        Some(Operation::NotStartsWith)
    } else {
        None
    }
}

/// Whether the characters `u` spell the literal `lit`.
fn is_name(u: &Vec<char>, lit: &str) -> (r: bool)
    ensures
        r == (u@ == lit@),
{
    let l = chars_of(lit);
    chars_eq(u, &l)
}

impl Operation {
    /// Returns the negation of this operation.
    pub fn negate(&self) -> (r: Option<Operation>)
        ensures
            r == negated_op(*self),
    {
        match self {
            Operation::IsNull => Some(Operation::NotNull),
            Operation::NotNull => Some(Operation::IsNull),
            Operation::IsNaN => Some(Operation::NotNaN),
            Operation::NotNaN => Some(Operation::IsNaN),
            Operation::Lt => Some(Operation::GtEq),
            Operation::LtEq => Some(Operation::Gt),
            Operation::Gt => Some(Operation::LtEq),
            Operation::GtEq => Some(Operation::Lt),
            Operation::Eq => Some(Operation::NotEq),
            Operation::NotEq => Some(Operation::Eq),
            Operation::In => Some(Operation::NotIn),
            Operation::NotIn => Some(Operation::In),
            Operation::StartsWith => Some(Operation::NotStartsWith),
            Operation::NotStartsWith => Some(Operation::StartsWith),
            _ => None,
        }
    }

    /// Returns the equivalent operation when left and right operands are exchanged.
    pub fn flip_lr(&self) -> (r: Option<Operation>)
        ensures
            r == flipped_op(*self),
    {
        match self {
            Operation::Lt => Some(Operation::Gt),
            Operation::LtEq => Some(Operation::GtEq),
            Operation::Gt => Some(Operation::Lt),
            Operation::GtEq => Some(Operation::LtEq),
            Operation::Eq => Some(Operation::Eq),
            Operation::NotEq => Some(Operation::NotEq),
            Operation::And => Some(Operation::And),
            Operation::Or => Some(Operation::Or),
            _ => None,
        }
    }

    /// Check if this is a unary operation.
    pub fn is_unary(&self) -> (r: bool)
        ensures
            r == (*self == Operation::IsNull || *self == Operation::NotNull
                || *self == Operation::IsNaN || *self == Operation::NotNaN
                || *self == Operation::Not),
    {
        match self {
            Operation::IsNull | Operation::NotNull | Operation::IsNaN | Operation::NotNaN
            | Operation::Not => true,
            _ => false,
        }
    }

    /// Check if this is a comparison operation.
    pub fn is_comparison(&self) -> (r: bool)
        ensures
            r == (*self == Operation::Lt || *self == Operation::LtEq || *self == Operation::Gt
                || *self == Operation::GtEq || *self == Operation::Eq
                || *self == Operation::NotEq),
    {
        match self {
            Operation::Lt | Operation::LtEq | Operation::Gt | Operation::GtEq | Operation::Eq
            | Operation::NotEq => true,
            _ => false,
        }
    }

    /// Check if this is a set operation.
    pub fn is_set(&self) -> (r: bool)
        ensures
            r == (*self == Operation::In || *self == Operation::NotIn),
    {
        match self {
            Operation::In | Operation::NotIn => true,
            _ => false,
        }
    }

    /// Check if this is a logical operation.
    pub fn is_logical(&self) -> (r: bool)
        ensures
            r == (*self == Operation::And || *self == Operation::Or || *self == Operation::Not),
    {
        match self {
            Operation::And | Operation::Or | Operation::Not => true,
            _ => false,
        }
    }

    /// The operation with the given upper-case name or symbol.
    pub fn from_upper_name(name: &str) -> (r: Option<Operation>)
        ensures
            r == op_named(name@),
    {
        let u = chars_of(name);
        if is_name(&u, "TRUE") {
            Some(Operation::True)
        } else if is_name(&u, "FALSE") {
            Some(Operation::False)
        } else if is_name(&u, "IS_NULL") || is_name(&u, "ISNULL") {
            Some(Operation::IsNull)
        } else if is_name(&u, "NOT_NULL") || is_name(&u, "NOTNULL") || is_name(&u, "IS_NOT_NULL") {
            Some(Operation::NotNull)
        } else if is_name(&u, "IS_NAN") || is_name(&u, "ISNAN") {
            Some(Operation::IsNaN)
        } else if is_name(&u, "NOT_NAN") || is_name(&u, "NOTNAN") || is_name(&u, "IS_NOT_NAN") {
            Some(Operation::NotNaN)
        } else if is_name(&u, "LT") || is_name(&u, "<") {
            Some(Operation::Lt)
        } else if is_name(&u, "LT_EQ") || is_name(&u, "LTEQ") || is_name(&u, "<=") {
            Some(Operation::LtEq)
        } else if is_name(&u, "GT") || is_name(&u, ">") {
            Some(Operation::Gt)
        } else if is_name(&u, "GT_EQ") || is_name(&u, "GTEQ") || is_name(&u, ">=") {
            Some(Operation::GtEq)
        } else if is_name(&u, "EQ") || is_name(&u, "=") || is_name(&u, "==") {
            Some(Operation::Eq)
        } else if is_name(&u, "NOT_EQ") || is_name(&u, "NOTEQ") || is_name(&u, "!=") || is_name(&u, "<>") {
            Some(Operation::NotEq)
        } else if is_name(&u, "IN") {
            Some(Operation::In)
        } else if is_name(&u, "NOT_IN") || is_name(&u, "NOTIN") {
            Some(Operation::NotIn)
        } else if is_name(&u, "NOT") {
            Some(Operation::Not)
        } else if is_name(&u, "AND") || is_name(&u, "&&") {
            Some(Operation::And)
        } else if is_name(&u, "OR") || is_name(&u, "||") {
            Some(Operation::Or)
        } else if is_name(&u, "STARTS_WITH") || is_name(&u, "STARTSWITH") {
            Some(Operation::StartsWith)
        } else if is_name(&u, "NOT_STARTS_WITH") || is_name(&u, "NOTSTARTSWITH") {
            Some(Operation::NotStartsWith)
        } else {
            None
        }
    }

    /// Parse an operation name or symbol, ignoring letter case.
    pub fn from_str(s: &str) -> (r: Option<Operation>)
        ensures
            r == op_named(uppercase_of(s@)),
    {
        let u = to_uppercase(s);
        Operation::from_upper_name(u.as_str())
    }

    /// The text form of this operation.
    pub fn symbol(&self) -> (r: &'static str)
        ensures
            r@ == op_symbol(*self),
    {
        match self {
            Operation::True => "true",
            Operation::False => "false",
            Operation::IsNull => "is_null",
            Operation::NotNull => "not_null",
            Operation::IsNaN => "is_nan",
            Operation::NotNaN => "not_nan",
            Operation::Lt => "<",
            Operation::LtEq => "<=",
            Operation::Gt => ">",
            Operation::GtEq => ">=",
            Operation::Eq => "=",
            Operation::NotEq => "!=",
            Operation::In => "in",
            Operation::NotIn => "not_in",
            Operation::Not => "not",
            Operation::And => "and",
            Operation::Or => "or",
            Operation::StartsWith => "starts_with",
            Operation::NotStartsWith => "not_starts_with",
            Operation::Count => "count",
            Operation::CountNull => "count_null",
            Operation::CountStar => "count(*)",
            Operation::Max => "max",
            Operation::Min => "min",
        }
    }

    /// The text form of this operation, as an owned string.
    pub fn to_display_string(&self) -> (r: String)
        ensures
            r@ == op_symbol(*self),
    {
        crate::text::owned(self.symbol())
    }
}

/// The text form of each operation.
pub open spec fn op_symbol(op: Operation) -> Seq<char> {
    match op {
        Operation::True => "true"@,
        Operation::False => "false"@,
        Operation::IsNull => "is_null"@,
        Operation::NotNull => "not_null"@,
        Operation::IsNaN => "is_nan"@,
        Operation::NotNaN => "not_nan"@,
        Operation::Lt => "<"@,
        Operation::LtEq => "<="@,
        Operation::Gt => ">"@,
        Operation::GtEq => ">="@,
        Operation::Eq => "="@,
        Operation::NotEq => "!="@,
        Operation::In => "in"@,
        Operation::NotIn => "not_in"@,
        Operation::Not => "not"@,
        Operation::And => "and"@,
        Operation::Or => "or"@,
        Operation::StartsWith => "starts_with"@,
        Operation::NotStartsWith => "not_starts_with"@,
        Operation::Count => "count"@,
        Operation::CountNull => "count_null"@,
        Operation::CountStar => "count(*)"@,
        Operation::Max => "max"@,
        Operation::Min => "min"@,
    }
}

/// Negating an operation twice gives it back.
pub proof fn lemma_negate_involution(op: Operation)
    ensures
        negated_op(op) matches Some(n) ==> negated_op(n) == Some(op),
{
}

/// Exchanging the operands twice gives the operation back.
pub proof fn lemma_flip_involution(op: Operation)
    ensures
        flipped_op(op) matches Some(f) ==> flipped_op(f) == Some(op),
{
}

} // verus!
