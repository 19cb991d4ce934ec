use datafusion::common::ScalarValue as EngineValue;
use datafusion::logical_expr::Operator as EngineOperator;
use vstd::prelude::*;

use crate::text::{decimal, text_view};

verus! {

/// A literal that a filter compares a column with.
///
/// A literal of a type that no column has is kept as a text that stands for it in messages:
/// against a column it is neither equal nor ordered, whatever that type is.
#[derive(Debug, PartialEq)]
pub enum ScalarValue {
    Boolean(Option<bool>),
    Utf8(Option<String>),
    UInt64(Option<u64>),
    /// Nanoseconds since the epoch, and a time zone that comparisons ignore.
    TimestampNanosecond(Option<i64>, Option<String>),
    Other(String),
}

/// The mathematical counterpart of [`ScalarValue`].
pub enum ScalarView {
    Boolean(Option<bool>),
    Utf8(Option<Seq<char>>),
    UInt64(Option<u64>),
    TimestampNanosecond(Option<i64>, Option<Seq<char>>),
    Other(Seq<char>),
}

impl View for ScalarValue {
    type V = ScalarView;

    open spec fn view(&self) -> ScalarView {
        match *self {
            ScalarValue::Boolean(value) => ScalarView::Boolean(value),
            ScalarValue::Utf8(text) => ScalarView::Utf8(text_view(text)),
            ScalarValue::UInt64(value) => ScalarView::UInt64(value),
            ScalarValue::TimestampNanosecond(value, zone) => ScalarView::TimestampNanosecond(
                value,
                text_view(zone),
            ),
            ScalarValue::Other(text) => ScalarView::Other(text@),
        }
    }
}

impl Clone for ScalarValue {
    fn clone(&self) -> (copy: Self)
        ensures
            copy == *self,
    {
        match self {
            ScalarValue::Boolean(value) => ScalarValue::Boolean(*value),
            ScalarValue::Utf8(text) => ScalarValue::Utf8(clone_text(text)),
            ScalarValue::UInt64(value) => ScalarValue::UInt64(*value),
            ScalarValue::TimestampNanosecond(value, zone) => ScalarValue::TimestampNanosecond(
                *value,
                clone_text(zone),
            ),
            ScalarValue::Other(text) => ScalarValue::Other(text.clone()),
        }
    }
}

/// A copy of an optional string.
pub fn clone_text(text: &Option<String>) -> (copy: Option<String>)
    ensures
        copy == *text,
{
    match text {
        Some(inner) => Some(inner.clone()),
        None => None,
    }
}

/// A value that a row holds in one of its columns.
#[derive(Debug, PartialEq)]
pub enum ColumnValue {
    Boolean(bool),
    Utf8(Option<String>),
    UInt64(u64),
    TimestampNanosecond(Option<i64>),
}

impl View for ColumnValue {
    type V = ScalarView;

    open spec fn view(&self) -> ScalarView {
        match *self {
            ColumnValue::Boolean(value) => ScalarView::Boolean(Some(value)),
            ColumnValue::Utf8(text) => ScalarView::Utf8(text_view(text)),
            ColumnValue::UInt64(value) => ScalarView::UInt64(Some(value)),
            ColumnValue::TimestampNanosecond(value) => ScalarView::TimestampNanosecond(value, None),
        }
    }
}

impl ColumnValue {
    /// The same value, as a literal.
    pub fn to_scalar(&self) -> (scalar: ScalarValue)
        ensures
            scalar@ == self@,
            !(scalar is Other),
    {
        match self {
            ColumnValue::Boolean(value) => ScalarValue::Boolean(Some(*value)),
            ColumnValue::Utf8(text) => ScalarValue::Utf8(clone_text(text)),
            ColumnValue::UInt64(value) => ScalarValue::UInt64(Some(*value)),
            ColumnValue::TimestampNanosecond(value) => ScalarValue::TimestampNanosecond(
                *value,
                None,
            ),
        }
    }
}

/// An operator between the two sides of a filter. Operators other than the six
/// comparisons are kept as the text that they are displayed by.
#[derive(Debug, PartialEq)]
pub enum Operator {
    Eq,
    NotEq,
    Lt,
    LtEq,
    Gt,
    GtEq,
    Other(String),
}

/// The mathematical counterpart of [`Operator`].
pub enum OperatorView {
    Eq,
    NotEq,
    Lt,
    LtEq,
    Gt,
    GtEq,
    Other(Seq<char>),
}

impl View for Operator {
    type V = OperatorView;

    open spec fn view(&self) -> OperatorView {
        match *self {
            Operator::Eq => OperatorView::Eq,
            Operator::NotEq => OperatorView::NotEq,
            Operator::Lt => OperatorView::Lt,
            Operator::LtEq => OperatorView::LtEq,
            Operator::Gt => OperatorView::Gt,
            Operator::GtEq => OperatorView::GtEq,
            Operator::Other(text) => OperatorView::Other(text@),
        }
    }
}

impl Clone for Operator {
    fn clone(&self) -> (copy: Self)
        ensures
            copy == *self,
    {
        match self {
            Operator::Eq => Operator::Eq,
            Operator::NotEq => Operator::NotEq,
            Operator::Lt => Operator::Lt,
            Operator::LtEq => Operator::LtEq,
            Operator::Gt => Operator::Gt,
            Operator::GtEq => Operator::GtEq,
            Operator::Other(text) => Operator::Other(text.clone()),
        }
    }
}

impl OperatorView {
    /// Whether the operator is one of the six comparisons.
    pub open spec fn is_comparison(self) -> bool {
        !(self is Other)
    }

    /// The comparison that says the same once its two sides have changed places.
    pub open spec fn mirrored(self) -> OperatorView {
        match self {
            OperatorView::Lt => OperatorView::Gt,
            OperatorView::LtEq => OperatorView::GtEq,
            OperatorView::Gt => OperatorView::Lt,
            OperatorView::GtEq => OperatorView::LtEq,
            _ => self,
        }
    }

    /// The text by which an operator is displayed.
    pub open spec fn display(self) -> Seq<char> {
        match self {
            OperatorView::Eq => "="@,
            OperatorView::NotEq => "!="@,
            OperatorView::Lt => "<"@,
            OperatorView::LtEq => "<="@,
            OperatorView::Gt => ">"@,
            OperatorView::GtEq => ">="@,
            OperatorView::Other(text) => text,
        }
    }
}

impl Operator {
    /// Whether the operator is one of the six comparisons.
    pub fn is_comparison(&self) -> (found: bool)
        ensures
            found == self@.is_comparison(),
    {
        match self {
            Operator::Other(_) => false,
            _ => true,
        }
    }

    /// The text by which an operator is displayed.
    pub fn display(&self) -> (text: String)
        ensures
            text@ == self@.display(),
    {
        match self {
            Operator::Other(text) => text.clone(),
            _ => comparison_text(self),
        }
    }
}

/// Lexicographic order of texts, by the code points of their characters.
pub open spec fn text_less(left: Seq<char>, right: Seq<char>) -> bool
    decreases left.len(),
{
    if right.len() == 0 {
        false
    } else if left.len() == 0 {
        true
    } else if left[0] == right[0] {
        text_less(left.drop_first(), right.drop_first())
    } else {
        (left[0] as int) < (right[0] as int)
    }
}

/// Whether two values are of one type and equal. The time zone of a timestamp does not
/// count.
pub open spec fn scalar_equal(left: ScalarView, right: ScalarView) -> bool {
    match (left, right) {
        (ScalarView::Boolean(a), ScalarView::Boolean(b)) => a == b,
        (ScalarView::Utf8(a), ScalarView::Utf8(b)) => a == b,
        (ScalarView::UInt64(a), ScalarView::UInt64(b)) => a == b,
        (ScalarView::TimestampNanosecond(a, _), ScalarView::TimestampNanosecond(b, _)) => a == b,
        _ => false,
    }
}

/// Whether two values are of one type and `left` comes before `right`. A missing value
/// comes before every other, `false` before `true`.
pub open spec fn scalar_less(left: ScalarView, right: ScalarView) -> bool {
    match (left, right) {
        (ScalarView::Boolean(a), ScalarView::Boolean(b)) => match (a, b) {
            (Some(x), Some(y)) => !x && y,
            _ => a is None && b is Some,
        },
        (ScalarView::Utf8(a), ScalarView::Utf8(b)) => match (a, b) {
            (Some(x), Some(y)) => text_less(x, y),
            _ => a is None && b is Some,
        },
        (ScalarView::UInt64(a), ScalarView::UInt64(b)) => match (a, b) {
            (Some(x), Some(y)) => x < y,
            _ => a is None && b is Some,
        },
        (ScalarView::TimestampNanosecond(a, _), ScalarView::TimestampNanosecond(b, _)) => match (
            a,
            b,
        ) {
            (Some(x), Some(y)) => x < y,
            _ => a is None && b is Some,
        },
        _ => false,
    }
}

/// The text by which a value is displayed.
pub open spec fn scalar_display(value: ScalarView) -> Seq<char> {
    match value {
        ScalarView::Boolean(Some(flag)) => if flag {
            "true"@
        } else {
            "false"@
        },
        ScalarView::Utf8(Some(text)) => text,
        ScalarView::UInt64(Some(n)) => decimal(n as int),
        ScalarView::TimestampNanosecond(Some(n), _) => decimal(n as int),
        ScalarView::Other(text) => text,
        _ => "NULL"@,
    }
}

/// Calls `PartialEq::eq` of `datafusion`'s `ScalarValue`: values of different types are
/// unequal, and timestamps are compared without their time zones. A literal of another
/// type is handed over as a large string, which like every other type is unequal to all
/// values of the types that columns have; two such literals are not compared.
#[verifier::external_body]
pub(crate) fn equal_to(left: &ScalarValue, right: &ScalarValue) -> (equal: bool)
    requires
        !(left is Other && right is Other),
    ensures
        equal == scalar_equal(left@, right@),
{
    let convert = |value: &ScalarValue| match value {
        ScalarValue::Boolean(v) => EngineValue::Boolean(*v),
        ScalarValue::Utf8(v) => EngineValue::Utf8(v.clone()),
        ScalarValue::UInt64(v) => EngineValue::UInt64(*v),
        ScalarValue::TimestampNanosecond(v, zone) => {
            EngineValue::TimestampNanosecond(*v, zone.as_deref().map(Into::into))
        }
        ScalarValue::Other(v) => EngineValue::LargeUtf8(Some(v.clone())),
    };
    convert(left).eq(&convert(right))
}

/// Calls `PartialOrd::lt` of `datafusion`'s `ScalarValue`: values of different types are
/// unordered, a missing value comes first, strings follow their code points, and
/// timestamps are compared without their time zones. Literals of other types are handed
/// over as in [`equal_to`].
#[verifier::external_body]
pub(crate) fn less_than(left: &ScalarValue, right: &ScalarValue) -> (less: bool)
    requires
        !(left is Other && right is Other),
    ensures
        less == scalar_less(left@, right@),
{
    let convert = |value: &ScalarValue| match value {
        ScalarValue::Boolean(v) => EngineValue::Boolean(*v),
        ScalarValue::Utf8(v) => EngineValue::Utf8(v.clone()),
        ScalarValue::UInt64(v) => EngineValue::UInt64(*v),
        ScalarValue::TimestampNanosecond(v, zone) => {
            EngineValue::TimestampNanosecond(*v, zone.as_deref().map(Into::into))
        }
        ScalarValue::Other(v) => EngineValue::LargeUtf8(Some(v.clone())),
    };
    convert(left).lt(&convert(right))
}

/// Calls `PartialOrd::gt` of `datafusion`'s `ScalarValue`: the order of [`less_than`] with
/// its sides exchanged.
#[verifier::external_body]
pub(crate) fn greater_than(left: &ScalarValue, right: &ScalarValue) -> (greater: bool)
    requires
        !(left is Other && right is Other),
    ensures
        greater == scalar_less(right@, left@),
{
    let convert = |value: &ScalarValue| match value {
        ScalarValue::Boolean(v) => EngineValue::Boolean(*v),
        ScalarValue::Utf8(v) => EngineValue::Utf8(v.clone()),
        ScalarValue::UInt64(v) => EngineValue::UInt64(*v),
        ScalarValue::TimestampNanosecond(v, zone) => {
            EngineValue::TimestampNanosecond(*v, zone.as_deref().map(Into::into))
        }
        ScalarValue::Other(v) => EngineValue::LargeUtf8(Some(v.clone())),
    };
    convert(left).gt(&convert(right))
}

/// Calls `Display` of `datafusion`'s `ScalarValue`: numbers in decimal notation, strings
/// as they are, `NULL` for a missing value.
#[verifier::external_body]
pub(crate) fn scalar_text(value: &ScalarValue) -> (text: String)
    ensures
        text@ == scalar_display(value@),
{
    let shown = match value {
        ScalarValue::Boolean(v) => EngineValue::Boolean(*v),
        ScalarValue::Utf8(v) => EngineValue::Utf8(v.clone()),
        ScalarValue::UInt64(v) => EngineValue::UInt64(*v),
        ScalarValue::TimestampNanosecond(v, zone) => {
            EngineValue::TimestampNanosecond(*v, zone.as_deref().map(Into::into))
        }
        ScalarValue::Other(v) => EngineValue::LargeUtf8(Some(v.clone())),
    };
    shown.to_string()
}

/// Calls `Display` of `datafusion`'s `Operator` on one of the six comparisons, and claims
/// the symbol that it writes for each.
#[verifier::external_body]
fn comparison_text(op: &Operator) -> (text: String)
    requires
        op@.is_comparison(),
    ensures
        text@ == op@.display(),
{
    let shown = match op {
        Operator::Eq => EngineOperator::Eq,
        Operator::NotEq => EngineOperator::NotEq,
        Operator::Lt => EngineOperator::Lt,
        Operator::LtEq => EngineOperator::LtEq,
        Operator::Gt => EngineOperator::Gt,
        Operator::GtEq => EngineOperator::GtEq,
        Operator::Other(_) => return String::new(),
    };
    shown.to_string()
}

/// Calls `Operator::swap` of `datafusion` on one of the six comparisons, each of which has
/// a counterpart among the six.
#[verifier::external_body]
pub(crate) fn swap_operator(op: &Operator) -> (swapped: Option<Operator>)
    requires
        op@.is_comparison(),
    ensures
        swapped is Some,
        swapped->0@ == op@.mirrored(),
{
    let asked = match op {
        Operator::Eq => EngineOperator::Eq, Operator::NotEq => EngineOperator::NotEq,
        Operator::Lt => EngineOperator::Lt, Operator::LtEq => EngineOperator::LtEq,
        Operator::Gt => EngineOperator::Gt, Operator::GtEq => EngineOperator::GtEq,
        Operator::Other(_) => return None,
    };
    match asked.swap()? {
        EngineOperator::Eq => Some(Operator::Eq), EngineOperator::NotEq => Some(Operator::NotEq),
        EngineOperator::Lt => Some(Operator::Lt), EngineOperator::LtEq => Some(Operator::LtEq),
        EngineOperator::Gt => Some(Operator::Gt), EngineOperator::GtEq => Some(Operator::GtEq),
        _ => None,
    }
}

} // verus!
