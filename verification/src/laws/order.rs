use vstd::prelude::*;

use super::filters::{lemma_mirrored, lemma_trichotomy};
use crate::conditions::evaluate;
use crate::error::ErrorView;
use crate::value::{scalar_display, text_less, OperatorView, ScalarView};

verus! {

/// Numbers are compared as numbers.
pub proof fn lemma_numbers_are_compared(a: u64, b: u64)
    ensures
        ({
            let left = ScalarView::UInt64(Some(a));
            let right = ScalarView::UInt64(Some(b));
            &&& evaluate(left, OperatorView::Eq, right) == Ok::<bool, ErrorView>(a == b)
            &&& evaluate(left, OperatorView::NotEq, right) == Ok::<bool, ErrorView>(a != b)
            &&& evaluate(left, OperatorView::Lt, right) == Ok::<bool, ErrorView>(a < b)
            &&& evaluate(left, OperatorView::LtEq, right) == Ok::<bool, ErrorView>(a <= b)
            &&& evaluate(left, OperatorView::Gt, right) == Ok::<bool, ErrorView>(a > b)
            &&& evaluate(left, OperatorView::GtEq, right) == Ok::<bool, ErrorView>(a >= b)
        }),
{
}

/// Points in time are compared by their nanoseconds, whatever their time zones are.
pub proof fn lemma_times_are_compared(
    a: i64,
    zone: Option<Seq<char>>,
    b: i64,
    other_zone: Option<Seq<char>>,
)
    ensures
        ({
            let left = ScalarView::TimestampNanosecond(Some(a), zone);
            let right = ScalarView::TimestampNanosecond(Some(b), other_zone);
            &&& evaluate(left, OperatorView::Eq, right) == Ok::<bool, ErrorView>(a == b)
            &&& evaluate(left, OperatorView::NotEq, right) == Ok::<bool, ErrorView>(a != b)
            &&& evaluate(left, OperatorView::Lt, right) == Ok::<bool, ErrorView>(a < b)
            &&& evaluate(left, OperatorView::LtEq, right) == Ok::<bool, ErrorView>(a <= b)
            &&& evaluate(left, OperatorView::Gt, right) == Ok::<bool, ErrorView>(a > b)
            &&& evaluate(left, OperatorView::GtEq, right) == Ok::<bool, ErrorView>(a >= b)
        }),
{
}

/// Truth values are compared with `false` before `true`.
pub proof fn lemma_flags_are_compared(a: bool, b: bool)
    ensures
        ({
            let left = ScalarView::Boolean(Some(a));
            let right = ScalarView::Boolean(Some(b));
            &&& evaluate(left, OperatorView::Eq, right) == Ok::<bool, ErrorView>(a == b)
            &&& evaluate(left, OperatorView::NotEq, right) == Ok::<bool, ErrorView>(a != b)
            &&& evaluate(left, OperatorView::Lt, right) == Ok::<bool, ErrorView>(b && !a)
            &&& evaluate(left, OperatorView::LtEq, right) == Ok::<bool, ErrorView>(a ==> b)
            &&& evaluate(left, OperatorView::Gt, right) == Ok::<bool, ErrorView>(a && !b)
            &&& evaluate(left, OperatorView::GtEq, right) == Ok::<bool, ErrorView>(b ==> a)
        }),
{
}

/// Whether two texts agree up to a position at which the first one ends or has the smaller
/// character.
pub open spec fn parts_below(a: Seq<char>, b: Seq<char>, k: int) -> bool {
    &&& 0 <= k <= a.len()
    &&& k < b.len()
    &&& forall|i: int| 0 <= i < k ==> a[i] == b[i]
    &&& k == a.len() || (a[k] as int) < (b[k] as int)
}

/// Of two texts the one comes first that ends or has the smaller character where they part.
pub proof fn lemma_text_order_is_lexicographic(a: Seq<char>, b: Seq<char>)
    ensures
        text_less(a, b) <==> exists|k: int| parts_below(a, b, k),
    decreases a.len(),
{
    if b.len() > 0 {
        if a.len() == 0 {
            assert(parts_below(a, b, 0));
        } else {
            let x = a.drop_first();
            let y = b.drop_first();
            lemma_text_order_is_lexicographic(x, y);
            if a[0] == b[0] {
                if exists|k: int| parts_below(x, y, k) {
                    let k = choose|k: int| parts_below(x, y, k);
                    assert forall|i: int| 0 <= i < k + 1 implies a[i] == b[i] by {
                        if i > 0 {
                            assert(x[i - 1] == y[i - 1]);
                        }
                    }
                    if k < x.len() {
                        assert(x[k] == a[k + 1] && y[k] == b[k + 1]);
                    }
                    assert(parts_below(a, b, k + 1));
                }
                if exists|k: int| parts_below(a, b, k) {
                    let k = choose|k: int| parts_below(a, b, k);
                    assert(k > 0);
                    assert forall|i: int| 0 <= i < k - 1 implies x[i] == y[i] by {
                        assert(a[i + 1] == b[i + 1]);
                    }
                    assert(parts_below(x, y, k - 1));
                }
            } else {
                if (a[0] as int) < (b[0] as int) {
                    assert(parts_below(a, b, 0));
                }
                if exists|k: int| parts_below(a, b, k) {
                    let k = choose|k: int| parts_below(a, b, k);
                    if k > 0 {
                        assert(a[0] == b[0]);
                    }
                }
            }
        }
    }
}

/// Texts are compared character by character, and a text comes after its beginnings.
pub proof fn lemma_texts_are_compared(a: Seq<char>, b: Seq<char>)
    ensures
        ({
            let left = ScalarView::Utf8(Some(a));
            let right = ScalarView::Utf8(Some(b));
            let below = exists|k: int| parts_below(a, b, k);
            let above = exists|k: int| parts_below(b, a, k);
            &&& evaluate(left, OperatorView::Eq, right) == Ok::<bool, ErrorView>(a == b)
            &&& evaluate(left, OperatorView::NotEq, right) == Ok::<bool, ErrorView>(a != b)
            &&& evaluate(left, OperatorView::Lt, right) == Ok::<bool, ErrorView>(below)
            &&& evaluate(left, OperatorView::LtEq, right) == Ok::<bool, ErrorView>(
                below || a == b,
            )
            &&& evaluate(left, OperatorView::Gt, right) == Ok::<bool, ErrorView>(above)
            &&& evaluate(left, OperatorView::GtEq, right) == Ok::<bool, ErrorView>(
                above || a == b,
            )
        }),
{
    lemma_text_order_is_lexicographic(a, b);
    lemma_text_order_is_lexicographic(b, a);
}

/// Whether two values are of one type that some column has.
pub open spec fn same_type(left: ScalarView, right: ScalarView) -> bool {
    ||| left is Boolean && right is Boolean
    ||| left is Utf8 && right is Utf8
    ||| left is UInt64 && right is UInt64
    ||| left is TimestampNanosecond && right is TimestampNanosecond
}

/// Whether a value is missing.
pub open spec fn missing(value: ScalarView) -> bool {
    match value {
        ScalarView::Boolean(v) => v is None,
        ScalarView::Utf8(v) => v is None,
        ScalarView::UInt64(v) => v is None,
        ScalarView::TimestampNanosecond(v, _) => v is None,
        ScalarView::Other(_) => false,
    }
}

/// A missing value equals a missing value of its type and comes before all others.
pub proof fn lemma_missing_values_come_first(left: ScalarView, right: ScalarView)
    requires
        same_type(left, right),
        missing(left) || missing(right),
    ensures
        evaluate(left, OperatorView::Eq, right) == Ok::<bool, ErrorView>(
            missing(left) && missing(right),
        ),
        evaluate(left, OperatorView::NotEq, right) == Ok::<bool, ErrorView>(
            !(missing(left) && missing(right)),
        ),
        evaluate(left, OperatorView::Lt, right) == Ok::<bool, ErrorView>(!missing(right)),
        evaluate(left, OperatorView::LtEq, right) == Ok::<bool, ErrorView>(missing(left)),
        evaluate(left, OperatorView::Gt, right) == Ok::<bool, ErrorView>(!missing(left)),
        evaluate(left, OperatorView::GtEq, right) == Ok::<bool, ErrorView>(missing(right)),
{
}

/// Values of different types are unequal and not ordered.
pub proof fn lemma_types_do_not_mix(left: ScalarView, right: ScalarView)
    requires
        !same_type(left, right),
    ensures
        evaluate(left, OperatorView::Eq, right) == Ok::<bool, ErrorView>(false),
        evaluate(left, OperatorView::NotEq, right) == Ok::<bool, ErrorView>(true),
        evaluate(left, OperatorView::Lt, right) == Ok::<bool, ErrorView>(false),
        evaluate(left, OperatorView::LtEq, right) == Ok::<bool, ErrorView>(false),
        evaluate(left, OperatorView::Gt, right) == Ok::<bool, ErrorView>(false),
        evaluate(left, OperatorView::GtEq, right) == Ok::<bool, ErrorView>(false),
{
}

/// The six comparisons of two values agree with each other: `<=` is `<` or `=`, `>=` is `>`
/// or `=`, `!=` is the contrary of `=`, and `>` is `<` with the sides exchanged. Of two
/// values of one type exactly one of `>` and `<=` holds, and exactly one of `<` and `>=`.
pub proof fn lemma_comparisons_agree(left: ScalarView, right: ScalarView)
    ensures
        ({
            let yes = Ok::<bool, ErrorView>(true);
            let no = Ok::<bool, ErrorView>(false);
            let eq = evaluate(left, OperatorView::Eq, right);
            let ne = evaluate(left, OperatorView::NotEq, right);
            let lt = evaluate(left, OperatorView::Lt, right);
            let le = evaluate(left, OperatorView::LtEq, right);
            let gt = evaluate(left, OperatorView::Gt, right);
            let ge = evaluate(left, OperatorView::GtEq, right);
            &&& le == if lt == yes || eq == yes {
                yes
            } else {
                no
            }
            &&& ge == if gt == yes || eq == yes {
                yes
            } else {
                no
            }
            &&& ne == if eq == yes {
                no
            } else {
                yes
            }
            &&& gt == evaluate(right, OperatorView::Lt, left)
            &&& ge == evaluate(right, OperatorView::LtEq, left)
            &&& eq == evaluate(right, OperatorView::Eq, left)
            &&& same_type(left, right) ==> (gt == yes <==> le == no) && (lt == yes <==> ge == no)
        }),
{
    lemma_mirrored(left, OperatorView::GtEq, right);
    if same_type(left, right) {
        match (left, right) {
            (ScalarView::Utf8(Some(a)), ScalarView::Utf8(Some(b))) => {
                lemma_trichotomy(left, right);
            },
            _ => {},
        }
    }
}

/// What comes before something that comes before a third comes before the third.
pub proof fn lemma_order_is_transitive(a: ScalarView, b: ScalarView, c: ScalarView)
    requires
        evaluate(a, OperatorView::Lt, b) == Ok::<bool, ErrorView>(true),
        evaluate(b, OperatorView::Lt, c) == Ok::<bool, ErrorView>(true),
    ensures
        evaluate(a, OperatorView::Lt, c) == Ok::<bool, ErrorView>(true),
{
    match (a, b, c) {
        (
            ScalarView::Utf8(Some(x)),
            ScalarView::Utf8(Some(y)),
            ScalarView::Utf8(Some(z)),
        ) => {
            lemma_text_order_is_lexicographic(x, y);
            lemma_text_order_is_lexicographic(y, z);
            lemma_text_order_is_lexicographic(x, z);
            let k = choose|k: int| parts_below(x, y, k);
            let m = choose|m: int| parts_below(y, z, m);
            if k <= m {
                assert(parts_below(x, z, k));
            } else {
                assert(x[m] == y[m]);
                assert(parts_below(x, z, m));
            }
        },
        _ => {},
    }
}

/// An operator that is no comparison is refused, in words that name both sides and the
/// operator.
pub proof fn lemma_other_operators_are_refused(
    left: ScalarView,
    symbol: Seq<char>,
    right: ScalarView,
)
    ensures
        evaluate(left, OperatorView::Other(symbol), right) == Err::<bool, ErrorView>(
            ErrorView::InvalidSchema(
                "Expr `"@ + scalar_display(left) + " "@ + symbol + " "@
                    + scalar_display(right) + "` cannot be evaluated"@,
            ),
        ),
{
}

} // verus!
