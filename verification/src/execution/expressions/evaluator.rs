//! Evaluation of parsed expressions.
//!
//! Coercions between values, the parser and the functions of the language
//! are supplied by the caller as a [`Host`]. What an expression evaluates to
//! is stated as a big-step relation, [`evaluates`], over the outcomes that
//! the host's operations may have.

use vstd::prelude::*;

use super::number_bits;
use super::types;
use super::types::{BinaryOperator, Expr, ExprValue, ExprView, UnaryOperator};
use crate::error::RunnerError;
use crate::text;

verus! {

/// Status of the job so far, for the status functions.
#[derive(Debug, Clone, Copy, PartialEq, Eq, Structural)]
pub enum JobStatus {
    Success,
    Failure,
    Cancelled,
}

/// What an expression may refer to.
pub struct EvalContext {
    /// Named context values: github, env, secrets, steps, matrix, and so on.
    pub contexts: Vec<(String, ExprValue)>,
    /// Status of the job so far.
    pub job_status: JobStatus,
    /// Directory that `hashFiles()` resolves patterns against; none outside
    /// a job, where `hashFiles()` is an error.
    pub workspace: Option<String>,
}

/// The operations that evaluation leaves to the caller.
pub struct Host<T, L, N, S, F> {
    /// Whether a value counts as true.
    pub truthy: T,
    /// Whether two values are loosely equal.
    pub loose_eq: L,
    /// A value as the bits of a number.
    pub number: N,
    /// A value as text.
    pub string: S,
    /// A function of the language, by name, on its arguments.
    pub call: F,
}

/// The first value whose name is `name` when ASCII case is disregarded;
/// null when there is none.
pub open spec fn named_value(entries: Seq<(Seq<char>, ExprView)>, name: Seq<char>) -> ExprView
    decreases entries.len(),
{
    if entries.len() == 0 {
        ExprView::Null
    } else if text::lower(entries[0].0) == text::lower(name) {
        entries[0].1
    } else {
        named_value(entries.drop_first(), name)
    }
}

/// The property of a value; null when it has none or is no object.
pub open spec fn property_of(object: ExprView, name: Seq<char>) -> ExprView {
    match object {
        ExprView::Object(entries) => named_value(entries, name),
        _ => ExprView::Null,
    }
}

/// The item of a list at the position that a number names.
pub open spec fn item_at(items: Seq<ExprView>, number: u64) -> ExprView {
    match number_bits::position(number) {
        Some(i) => if i < items.len() {
            items[i as int]
        } else {
            ExprView::Null
        },
        None => ExprView::Null,
    }
}

/// All values of a list or an object, as a list.
pub open spec fn all_values(object: ExprView) -> ExprView {
    match object {
        ExprView::Array(items) => ExprView::Array(items),
        ExprView::Object(entries) => ExprView::Array(
            entries.map_values(|e: (Seq<char>, ExprView)| e.1),
        ),
        _ => ExprView::Null,
    }
}

/// How two numbers compare under an ordering operator. NaN compares false
/// with everything.
pub open spec fn numbers_compare(op: BinaryOperator, a: u64, b: u64) -> bool {
    &&& !number_bits::is_nan(a)
    &&& !number_bits::is_nan(b)
    &&& match op {
        BinaryOperator::Lt => number_bits::rank(a) < number_bits::rank(b),
        BinaryOperator::Le => number_bits::rank(a) <= number_bits::rank(b),
        BinaryOperator::Gt => number_bits::rank(a) > number_bits::rank(b),
        BinaryOperator::Ge => number_bits::rank(a) >= number_bits::rank(b),
        _ => false,
    }
}

fn find_named(entries: &Vec<(String, ExprValue)>, name: &str) -> (r: ExprValue)
    ensures
        r@ == named_value(types::entry_views(entries@), name@),
{
    let ghost all = types::entry_views(entries@);
    let lower = text::to_lower(name);
    let mut i: usize = 0;
    assert(all.skip(0) =~= all);
    while i < entries.len()
        invariant
            i <= entries@.len(),
            all == types::entry_views(entries@),
            lower@ == text::lower(name@),
            named_value(all, name@) == named_value(all.skip(i as int), name@),
        decreases entries@.len() - i,
    {
        assert(all.skip(i as int)[0] == (entries@[i as int].0@, entries@[i as int].1@));
        let key = text::to_lower(entries[i].0.as_str());
        if key == lower {
            return types::copy_value(&entries[i].1);
        }
        assert(all.skip(i as int).drop_first() =~= all.skip(i + 1));
        i = i + 1;
    }
    ExprValue::Null
}

/// Looks a context up, disregarding ASCII case.
pub fn resolve_context(ctx: &EvalContext, name: &str) -> (r: ExprValue)
    ensures
        r@ == named_value(types::entry_views(ctx.contexts@), name@),
{
    find_named(&ctx.contexts, name)
}

/// Looks a property up, disregarding ASCII case.
pub fn access_property(object: &ExprValue, property: &str) -> (r: ExprValue)
    ensures
        r@ == property_of(object@, property@),
{
    proof {
        types::lemma_view_lists(*object);
    }
    match object {
        ExprValue::Object(entries) => find_named(entries, property),
        _ => ExprValue::Null,
    }
}

/// What indexing `object` with `index` may give.
pub open spec fn indexed<T, L, N, S, F>(
    host: Host<T, L, N, S, F>,
    object: ExprValue,
    index: ExprValue,
    r: ExprView,
) -> bool where
    N: Fn(&ExprValue) -> u64,
    S: Fn(&ExprValue) -> String,
 {
    match object@ {
        ExprView::Array(items) => exists|n: u64| #[trigger]
            call_ensures(host.number, (&index,), n) && r == item_at(items, n),
        ExprView::Object(_) => exists|key: String| #[trigger]
            call_ensures(host.string, (&index,), key) && r == property_of(object@, key@),
        _ => r == ExprView::Null,
    }
}

/// Indexes a list by number or an object by name; null for anything else.
pub fn access_index<T, L, N, S, F>(
    host: &Host<T, L, N, S, F>,
    object: &ExprValue,
    index: &ExprValue,
) -> (r: ExprValue) where N: Fn(&ExprValue) -> u64, S: Fn(&ExprValue) -> String
    requires
        forall|v: &ExprValue| #[trigger] call_requires(host.number, (v,)),
        forall|v: &ExprValue| #[trigger] call_requires(host.string, (v,)),
    ensures
        indexed(*host, *object, *index, r@),
{
    proof {
        types::lemma_view_lists(*object);
    }
    match object {
        ExprValue::Array(items) => {
            let n: u64 = (host.number)(index);
            let r = match number_bits::to_position(n) {
                Some(i) => if i < items.len() {
                    types::copy_value(&items[i])
                } else {
                    ExprValue::Null
                },
                None => ExprValue::Null,
            };
            assert(r@ == item_at(object@->Array_0, n));
            r
        },
        ExprValue::Object(_) => {
            let key: String = (host.string)(index);
            access_property(object, key.as_str())
        },
        _ => ExprValue::Null,
    }
}

/// Collects all values of a list or an object.
pub fn wildcard_access(object: &ExprValue) -> (r: ExprValue)
    ensures
        r@ == all_values(object@),
{
    proof {
        types::lemma_view_lists(*object);
    }
    match object {
        ExprValue::Array(_) => types::copy_value(object),
        ExprValue::Object(entries) => {
            let ghost all = types::entry_views(entries@).map_values(
                |e: (Seq<char>, ExprView)| e.1,
            );
            let mut out: Vec<ExprValue> = Vec::new();
            let mut i: usize = 0;
            while i < entries.len()
                invariant
                    i <= entries@.len(),
                    all == types::entry_views(entries@).map_values(
                        |e: (Seq<char>, ExprView)| e.1,
                    ),
                    types::item_views(out@) == all.take(i as int),
                decreases entries@.len() - i,
            {
                let ghost before = types::item_views(out@);
                let item = types::copy_value(&entries[i].1);
                out.push(item);
                proof {
                    assert(types::item_views(out@) =~= before.push(item@));
                    assert(all.take(i + 1) =~= all.take(i as int).push(entries@[i as int].1@));
                }
                i = i + 1;
            }
            let r = ExprValue::Array(out);
            proof {
                assert(all.take(all.len() as int) =~= all);
                types::lemma_view_lists(r);
            }
            r
        },
        _ => ExprValue::Null,
    }
}

/// What comparing two values may give.
pub open spec fn compared<T, L, N, S, F>(
    host: Host<T, L, N, S, F>,
    op: BinaryOperator,
    left: ExprValue,
    right: ExprValue,
    r: bool,
) -> bool where L: Fn(&ExprValue, &ExprValue) -> bool, N: Fn(&ExprValue) -> u64 {
    match op {
        BinaryOperator::Eq => call_ensures(host.loose_eq, (&left, &right), r),
        BinaryOperator::Neq => call_ensures(host.loose_eq, (&left, &right), !r),
        _ => exists|a: u64, b: u64| #[trigger]
            call_ensures(host.number, (&left,), a) && #[trigger] call_ensures(
                host.number,
                (&right,),
                b,
            ) && r == numbers_compare(op, a, b),
    }
}

/// Compares two values. The operator is one of the six comparisons.
pub fn eval_comparison<T, L, N, S, F>(
    host: &Host<T, L, N, S, F>,
    op: BinaryOperator,
    left: &ExprValue,
    right: &ExprValue,
) -> (r: Result<bool, RunnerError>) where
    L: Fn(&ExprValue, &ExprValue) -> bool,
    N: Fn(&ExprValue) -> u64,

    requires
        forall|a: &ExprValue, b: &ExprValue| #[trigger] call_requires(host.loose_eq, (a, b)),
        forall|v: &ExprValue| #[trigger] call_requires(host.number, (v,)),
    ensures
        match r {
            Ok(b) => op != BinaryOperator::And && op != BinaryOperator::Or && compared(
                *host,
                op,
                *left,
                *right,
                b,
            ),
            Err(e) => (op == BinaryOperator::And || op == BinaryOperator::Or) && e@
                == crate::error::RunnerErrorView::Expression(
                "unexpected && or || in comparison"@,
            ),
        },
{
    match op {
        BinaryOperator::And | BinaryOperator::Or => Err(
            RunnerError::Expression("unexpected && or || in comparison".to_owned()),
        ),
        BinaryOperator::Eq => Ok((host.loose_eq)(left, right)),
        BinaryOperator::Neq => {
            let equal: bool = (host.loose_eq)(left, right);
            Ok(!equal)
        },
        _ => {
            let a: u64 = (host.number)(left);
            let b: u64 = (host.number)(right);
            let r: bool = compare_numbers(op, a, b);
            Ok(r)
        },
    }
}

/// Compares two numbers; NaN compares false.
pub fn compare_numbers(op: BinaryOperator, a: u64, b: u64) -> (r: bool)
    ensures
        r == numbers_compare(op, a, b),
{
    if number_bits::nan(a) || number_bits::nan(b) {
        return false;
    }
    match op {
        BinaryOperator::Lt => number_bits::less(a, b),
        BinaryOperator::Le => !number_bits::less(b, a),
        BinaryOperator::Gt => number_bits::less(b, a),
        BinaryOperator::Ge => !number_bits::less(a, b),
        _ => false,
    }
}

/// Holds of every value, and says nothing of it: a term by which the
/// quantifiers over what a part evaluates to are instantiated.
pub open spec fn any_value<X>(x: X) -> bool {
    true
}

/// What an expression may evaluate to.
///
/// A failing part fails the whole; `&&` and `||` give the operand that
/// decided and look at the right one only when the left one did not.
pub open spec fn evaluates<T, L, N, S, F>(
    host: Host<T, L, N, S, F>,
    expr: Expr,
    ctx: EvalContext,
    r: Result<ExprValue, RunnerError>,
) -> bool where
    T: Fn(&ExprValue) -> bool,
    L: Fn(&ExprValue, &ExprValue) -> bool,
    N: Fn(&ExprValue) -> u64,
    S: Fn(&ExprValue) -> String,
    F: Fn(&String, &Vec<ExprValue>) -> Result<ExprValue, RunnerError>,

    decreases expr, 0nat,
{
    match expr {
        Expr::Literal(value) => r matches Ok(v) && v@ == value@,
        Expr::Context { name } => r matches Ok(v) && v@ == named_value(
            types::entry_views(ctx.contexts@),
            name@,
        ),
        Expr::PropertyAccess { object, property } => exists|o: Result<ExprValue, RunnerError>| #[trigger]
            any_value(o) && evaluates(host, *object, ctx, o) && match o {
                Err(e) => r == Err::<ExprValue, RunnerError>(e),
                Ok(obj) => r matches Ok(v) && v@ == property_of(obj@, property@),
            },
        Expr::IndexAccess { object, index } => exists|o: Result<ExprValue, RunnerError>| #[trigger]
            any_value(o) && evaluates(host, *object, ctx, o) && match o {
                Err(e) => r == Err::<ExprValue, RunnerError>(e),
                Ok(obj) => exists|i: Result<ExprValue, RunnerError>| #[trigger]
                    any_value(i) && evaluates(host, *index, ctx, i) && match i {
                        Err(e) => r == Err::<ExprValue, RunnerError>(e),
                        Ok(idx) => r matches Ok(v) && indexed(host, obj, idx, v@),
                    },
            },
        Expr::WildcardAccess { object } => exists|o: Result<ExprValue, RunnerError>| #[trigger]
            any_value(o) && evaluates(host, *object, ctx, o) && match o {
                Err(e) => r == Err::<ExprValue, RunnerError>(e),
                Ok(obj) => r matches Ok(v) && v@ == all_values(obj@),
            },
        Expr::FunctionCall { name, args } => exists|a: Result<Vec<ExprValue>, RunnerError>|
            #[trigger] any_value(a) && args_evaluate(host, args@, ctx, a) && match a {
                Err(e) => r == Err::<ExprValue, RunnerError>(e),
                Ok(values) => call_ensures(host.call, (&name, &values), r),
            },
        Expr::UnaryOp { op: _, operand } => exists|o: Result<ExprValue, RunnerError>| #[trigger]
            any_value(o) && evaluates(host, *operand, ctx, o) && match o {
                Err(e) => r == Err::<ExprValue, RunnerError>(e),
                Ok(value) => exists|t: bool| #[trigger]
                    call_ensures(host.truthy, (&value,), t) && (r matches Ok(v) && v
                        == ExprValue::Bool(!t)),
            },
        Expr::BinaryOp { op, left, right } => exists|l: Result<ExprValue, RunnerError>| #[trigger]
            any_value(l) && evaluates(host, *left, ctx, l) && match l {
                Err(e) => r == Err::<ExprValue, RunnerError>(e),
                Ok(first) => if op == BinaryOperator::And || op == BinaryOperator::Or {
                    exists|t: bool| #[trigger]
                        call_ensures(host.truthy, (&first,), t) && if t == (op
                            == BinaryOperator::Or) {
                            r == Ok::<ExprValue, RunnerError>(first)
                        } else {
                            evaluates(host, *right, ctx, r)
                        }
                } else {
                    exists|s: Result<ExprValue, RunnerError>| #[trigger]
                        any_value(s) && evaluates(host, *right, ctx, s) && match s {
                            Err(e) => r == Err::<ExprValue, RunnerError>(e),
                            Ok(second) => exists|b: bool| #[trigger]
                                compared(host, op, first, second, b) && r == Ok::<
                                    ExprValue,
                                    RunnerError,
                                >(ExprValue::Bool(b)),
                        }
                },
            },
    }
}

/// What a list of arguments may evaluate to: their values in order, or the
/// first failure.
pub open spec fn args_evaluate<T, L, N, S, F>(
    host: Host<T, L, N, S, F>,
    args: Seq<Expr>,
    ctx: EvalContext,
    r: Result<Vec<ExprValue>, RunnerError>,
) -> bool where
    T: Fn(&ExprValue) -> bool,
    L: Fn(&ExprValue, &ExprValue) -> bool,
    N: Fn(&ExprValue) -> u64,
    S: Fn(&ExprValue) -> String,
    F: Fn(&String, &Vec<ExprValue>) -> Result<ExprValue, RunnerError>,

    decreases args, 1nat,
{
    match r {
        Ok(values) => values@.len() == args.len() && forall|i: int|
            #![trigger values@[i]]
            0 <= i < args.len() ==> evaluates(
                host,
                args[i],
                ctx,
                Ok::<ExprValue, RunnerError>(values@[i]),
            ),
        Err(e) => exists|before: Seq<ExprValue>| #[trigger]
            any_value(before) && before.len() < args.len() && (forall|i: int|
                #![trigger before[i]]
                0 <= i < before.len() ==> evaluates(
                    host,
                    args[i],
                    ctx,
                    Ok::<ExprValue, RunnerError>(before[i]),
                )) && evaluates(
                host,
                args[before.len() as int],
                ctx,
                Err::<ExprValue, RunnerError>(e),
            ),
    }
}

/// Whether every operation of the host may be called.
pub open spec fn callable<T, L, N, S, F>(host: Host<T, L, N, S, F>) -> bool where
    T: Fn(&ExprValue) -> bool,
    L: Fn(&ExprValue, &ExprValue) -> bool,
    N: Fn(&ExprValue) -> u64,
    S: Fn(&ExprValue) -> String,
    F: Fn(&String, &Vec<ExprValue>) -> Result<ExprValue, RunnerError>,
 {
    &&& forall|v: &ExprValue| #[trigger] call_requires(host.truthy, (v,))
    &&& forall|a: &ExprValue, b: &ExprValue| #[trigger] call_requires(host.loose_eq, (a, b))
    &&& forall|v: &ExprValue| #[trigger] call_requires(host.number, (v,))
    &&& forall|v: &ExprValue| #[trigger] call_requires(host.string, (v,))
    &&& forall|n: &String, a: &Vec<ExprValue>| #[trigger] call_requires(host.call, (n, a))
}

/// Evaluates a parsed expression.
pub fn eval_expr<T, L, N, S, F>(
    host: &Host<T, L, N, S, F>,
    expr: &Expr,
    ctx: &EvalContext,
) -> (r: Result<ExprValue, RunnerError>) where
    T: Fn(&ExprValue) -> bool,
    L: Fn(&ExprValue, &ExprValue) -> bool,
    N: Fn(&ExprValue) -> u64,
    S: Fn(&ExprValue) -> String,
    F: Fn(&String, &Vec<ExprValue>) -> Result<ExprValue, RunnerError>,

    requires
        callable(*host),
    ensures
        evaluates(*host, *expr, *ctx, r),
    decreases *expr, 1nat,
{
    match expr {
        Expr::Literal(value) => Ok(types::copy_value(value)),
        Expr::Context { name } => Ok(resolve_context(ctx, name.as_str())),
        Expr::PropertyAccess { object, property } => {
            match eval_expr(host, object, ctx) {
                Err(e) => {
                    assert(any_value(Err::<ExprValue, RunnerError>(e)));
                    Err(e)
                },
                Ok(obj) => {
                    let v = access_property(&obj, property.as_str());
                    assert(any_value(Ok::<ExprValue, RunnerError>(obj)));
                    Ok(v)
                },
            }
        },
        Expr::IndexAccess { object, index } => {
            match eval_expr(host, object, ctx) {
                Err(e) => {
                    assert(any_value(Err::<ExprValue, RunnerError>(e)));
                    Err(e)
                },
                Ok(obj) => {
                    assert(any_value(Ok::<ExprValue, RunnerError>(obj)));
                    match eval_expr(host, index, ctx) {
                        Err(e) => {
                            assert(any_value(Err::<ExprValue, RunnerError>(e)));
                            Err(e)
                        },
                        Ok(idx) => {
                            let v = access_index(host, &obj, &idx);
                            assert(any_value(Ok::<ExprValue, RunnerError>(idx)));
                            Ok(v)
                        },
                    }
                },
            }
        },
        Expr::WildcardAccess { object } => {
            match eval_expr(host, object, ctx) {
                Err(e) => {
                    assert(any_value(Err::<ExprValue, RunnerError>(e)));
                    Err(e)
                },
                Ok(obj) => {
                    let v = wildcard_access(&obj);
                    assert(any_value(Ok::<ExprValue, RunnerError>(obj)));
                    Ok(v)
                },
            }
        },
        Expr::FunctionCall { name, args } => {
            let mut values: Vec<ExprValue> = Vec::new();
            let mut i: usize = 0;
            while i < args.len()
                invariant
                    i <= args@.len(),
                    values@.len() == i,
                    callable(*host),
                    *expr == (Expr::FunctionCall { name: *name, args: *args }),
                    forall|k: int|
                        #![trigger values@[k]]
                        0 <= k < i ==> evaluates(
                            *host,
                            args@[k],
                            *ctx,
                            Ok::<ExprValue, RunnerError>(values@[k]),
                        ),
                decreases args@.len() - i,
            {
                proof {
                    lemma_arg_smaller(*expr, i as int);
                }
                match eval_expr(host, &args[i], ctx) {
                    Err(e) => {
                        proof {
                            assert(any_value(values@));
                            assert(args_evaluate(
                                *host,
                                args@,
                                *ctx,
                                Err::<Vec<ExprValue>, RunnerError>(e),
                            ));
                            assert(any_value(Err::<Vec<ExprValue>, RunnerError>(e)));
                        }
                        return Err(e);
                    },
                    Ok(v) => {
                        let ghost before = values@;
                        values.push(v);
                        assert forall|k: int|
                            #![trigger values@[k]]
                            0 <= k < i + 1 implies evaluates(
                            *host,
                            args@[k],
                            *ctx,
                            Ok::<ExprValue, RunnerError>(values@[k]),
                        ) by {
                            if k < i {
                                assert(values@[k] == before[k]);
                            }
                        }
                    },
                }
                i = i + 1;
            }
            assert(args_evaluate(*host, args@, *ctx, Ok(values)));
            assert(any_value(Ok::<Vec<ExprValue>, RunnerError>(values)));
            let r = (host.call)(name, &values);
            assert(call_ensures(host.call, (name, &values), r));
            assert(evaluates(*host, *expr, *ctx, r));
            r
        },
        Expr::UnaryOp { .. } => eval_unary(host, expr, ctx),
        Expr::BinaryOp { .. } => eval_binary(host, expr, ctx),
    }
}

proof fn lemma_arg_smaller(expr: Expr, i: int)
    ensures
        expr matches Expr::FunctionCall { name, args } ==> 0 <= i < args@.len() ==> decreases_to!(
            expr => args@[i]
        ),
{
    match expr {
        Expr::FunctionCall { name, args } => {
            assert(decreases_to!(expr => args));
            assert(decreases_to!(args => args@));
            assert(0 <= i < args@.len() ==> decreases_to!(args@ => args@[i]));
        },
        _ => {},
    }
}

/// Evaluates a unary operation.
fn eval_unary<T, L, N, S, F>(
    host: &Host<T, L, N, S, F>,
    expr: &Expr,
    ctx: &EvalContext,
) -> (r: Result<ExprValue, RunnerError>) where
    T: Fn(&ExprValue) -> bool,
    L: Fn(&ExprValue, &ExprValue) -> bool,
    N: Fn(&ExprValue) -> u64,
    S: Fn(&ExprValue) -> String,
    F: Fn(&String, &Vec<ExprValue>) -> Result<ExprValue, RunnerError>,

    requires
        callable(*host),
        *expr is UnaryOp,
    ensures
        evaluates(*host, *expr, *ctx, r),
    decreases *expr, 0nat,
{
    match expr {
        Expr::UnaryOp { op: _, operand } => match eval_expr(host, operand, ctx) {
            Err(e) => {
                assert(any_value(Err::<ExprValue, RunnerError>(e)));
                Err(e)
            },
            Ok(value) => {
                assert(any_value(Ok::<ExprValue, RunnerError>(value)));
                let t: bool = (host.truthy)(&value);
                assert(call_ensures(host.truthy, (&value,), t));
                Ok(ExprValue::Bool(!t))
            },
        },
        _ => Ok(ExprValue::Null),
    }
}

/// Evaluates a binary operation; `&&` and `||` skip the right operand when
/// the left one decides.
fn eval_binary<T, L, N, S, F>(
    host: &Host<T, L, N, S, F>,
    expr: &Expr,
    ctx: &EvalContext,
) -> (r: Result<ExprValue, RunnerError>) where
    T: Fn(&ExprValue) -> bool,
    L: Fn(&ExprValue, &ExprValue) -> bool,
    N: Fn(&ExprValue) -> u64,
    S: Fn(&ExprValue) -> String,
    F: Fn(&String, &Vec<ExprValue>) -> Result<ExprValue, RunnerError>,

    requires
        callable(*host),
        *expr is BinaryOp,
    ensures
        evaluates(*host, *expr, *ctx, r),
    decreases *expr, 0nat,
{
    match expr {
        Expr::BinaryOp { op, left, right } => {
            let first = match eval_expr(host, left, ctx) {
                Err(e) => {
                    assert(any_value(Err::<ExprValue, RunnerError>(e)));
                    return Err(e);
                },
                Ok(v) => v,
            };
            assert(any_value(Ok::<ExprValue, RunnerError>(first)));
            if *op == BinaryOperator::And || *op == BinaryOperator::Or {
                let t: bool = (host.truthy)(&first);
                assert(call_ensures(host.truthy, (&first,), t));
                if t == (*op == BinaryOperator::Or) {
                    return Ok(first);
                }
                return eval_expr(host, right, ctx);
            }
            let second = match eval_expr(host, right, ctx) {
                Err(e) => {
                    assert(any_value(Err::<ExprValue, RunnerError>(e)));
                    return Err(e);
                },
                Ok(v) => v,
            };
            assert(any_value(Ok::<ExprValue, RunnerError>(second)));
            match eval_comparison(host, *op, &first, &second) {
                Err(e) => {
                    assert(any_value(Err::<ExprValue, RunnerError>(e)));
                    Err(e)
                },
                Ok(b) => {
                    assert(compared(*host, *op, first, second, b));
                    Ok(ExprValue::Bool(b))
                },
            }
        },
        _ => Ok(ExprValue::Null),
    }
}

/// Evaluates an expression given as text.
pub fn evaluate<P, T, L, N, S, F>(
    parse: &P,
    host: &Host<T, L, N, S, F>,
    input: &str,
    ctx: &EvalContext,
) -> (r: Result<ExprValue, RunnerError>) where
    P: Fn(&str) -> Result<Expr, RunnerError>,
    T: Fn(&ExprValue) -> bool,
    L: Fn(&ExprValue, &ExprValue) -> bool,
    N: Fn(&ExprValue) -> u64,
    S: Fn(&ExprValue) -> String,
    F: Fn(&String, &Vec<ExprValue>) -> Result<ExprValue, RunnerError>,

    requires
        call_requires(*parse, (input,)),
        callable(*host),
    ensures
        exists|p: Result<Expr, RunnerError>| #[trigger]
            call_ensures(*parse, (input,), p) && match p {
                Err(e) => r == Err::<ExprValue, RunnerError>(e),
                Ok(expr) => evaluates(*host, expr, *ctx, r),
            },
{
    let p = parse(input);
    match p {
        Err(e) => {
            assert(call_ensures(*parse, (input,), Err::<Expr, RunnerError>(e)));
            Err(e)
        },
        Ok(expr) => {
            assert(call_ensures(*parse, (input,), Ok::<Expr, RunnerError>(expr)));
            eval_expr(host, &expr, ctx)
        },
    }
}

/// When the left operand can only decide, the right operand of `&&` and
/// `||` has no effect: any expression may stand in its place.
pub proof fn law_short_circuit<T, L, N, S, F>(
    host: Host<T, L, N, S, F>,
    op: BinaryOperator,
    left: Expr,
    right: Expr,
    other: Expr,
    ctx: EvalContext,
    r: Result<ExprValue, RunnerError>,
) where
    T: Fn(&ExprValue) -> bool,
    L: Fn(&ExprValue, &ExprValue) -> bool,
    N: Fn(&ExprValue) -> u64,
    S: Fn(&ExprValue) -> String,
    F: Fn(&String, &Vec<ExprValue>) -> Result<ExprValue, RunnerError>,

    requires
        op == BinaryOperator::And || op == BinaryOperator::Or,
        forall|v: ExprValue, t: bool| #[trigger]
            evaluates(host, left, ctx, Ok::<ExprValue, RunnerError>(v)) && #[trigger] call_ensures(
                host.truthy,
                (&v,),
                t,
            ) ==> t == (op == BinaryOperator::Or),
    ensures
        evaluates(
            host,
            (Expr::BinaryOp { op, left: Box::new(left), right: Box::new(right) }),
            ctx,
            r,
        ) == evaluates(
            host,
            (Expr::BinaryOp { op, left: Box::new(left), right: Box::new(other) }),
            ctx,
            r,
        ),
{
    if evaluates(
        host,
        (Expr::BinaryOp { op, left: Box::new(left), right: Box::new(right) }),
        ctx,
        r,
    ) {
        lemma_decided(host, op, left, right, other, ctx, r);
    }
    if evaluates(
        host,
        (Expr::BinaryOp { op, left: Box::new(left), right: Box::new(other) }),
        ctx,
        r,
    ) {
        lemma_decided(host, op, left, other, right, ctx, r);
    }
}

proof fn lemma_decided<T, L, N, S, F>(
    host: Host<T, L, N, S, F>,
    op: BinaryOperator,
    left: Expr,
    right: Expr,
    other: Expr,
    ctx: EvalContext,
    r: Result<ExprValue, RunnerError>,
) where
    T: Fn(&ExprValue) -> bool,
    L: Fn(&ExprValue, &ExprValue) -> bool,
    N: Fn(&ExprValue) -> u64,
    S: Fn(&ExprValue) -> String,
    F: Fn(&String, &Vec<ExprValue>) -> Result<ExprValue, RunnerError>,

    requires
        op == BinaryOperator::And || op == BinaryOperator::Or,
        forall|v: ExprValue, t: bool| #[trigger]
            evaluates(host, left, ctx, Ok::<ExprValue, RunnerError>(v)) && #[trigger] call_ensures(
                host.truthy,
                (&v,),
                t,
            ) ==> t == (op == BinaryOperator::Or),
        evaluates(
            host,
            (Expr::BinaryOp { op, left: Box::new(left), right: Box::new(right) }),
            ctx,
            r,
        ),
    ensures
        evaluates(
            host,
            (Expr::BinaryOp { op, left: Box::new(left), right: Box::new(other) }),
            ctx,
            r,
        ),
{
    let l = choose|l: Result<ExprValue, RunnerError>| #[trigger]
        any_value(l) && evaluates(host, left, ctx, l) && match l {
            Err(e) => r == Err::<ExprValue, RunnerError>(e),
            Ok(first) => exists|t: bool| #[trigger]
                call_ensures(host.truthy, (&first,), t) && if t == (op == BinaryOperator::Or) {
                    r == Ok::<ExprValue, RunnerError>(first)
                } else {
                    evaluates(host, right, ctx, r)
                },
        };
    assert(evaluates(host, left, ctx, l));
}

/// Names of contexts and properties are looked up without regard to ASCII
/// case.
pub proof fn law_names_ignore_case(
    entries: Seq<(Seq<char>, ExprView)>,
    a: Seq<char>,
    b: Seq<char>,
)
    requires
        text::lower(a) == text::lower(b),
    ensures
        named_value(entries, a) == named_value(entries, b),
        property_of(ExprView::Object(entries), a) == property_of(ExprView::Object(entries), b),
    decreases entries.len(),
{
    if entries.len() > 0 {
        law_names_ignore_case(entries.drop_first(), a, b);
    }
}

/// Whether an expression calls no function.
pub open spec fn calls_nothing(expr: Expr) -> bool
    decreases expr,
{
    match expr {
        Expr::Literal(_) => true,
        Expr::Context { .. } => true,
        Expr::PropertyAccess { object, .. } => calls_nothing(*object),
        Expr::IndexAccess { object, index } => calls_nothing(*object) && calls_nothing(*index),
        Expr::WildcardAccess { object } => calls_nothing(*object),
        Expr::FunctionCall { .. } => false,
        Expr::UnaryOp { operand, .. } => calls_nothing(*operand),
        Expr::BinaryOp { left, right, .. } => calls_nothing(*left) && calls_nothing(*right),
    }
}

/// An expression that calls no function never fails: only functions can.
pub proof fn law_only_calls_fail<T, L, N, S, F>(
    host: Host<T, L, N, S, F>,
    expr: Expr,
    ctx: EvalContext,
    r: Result<ExprValue, RunnerError>,
) where
    T: Fn(&ExprValue) -> bool,
    L: Fn(&ExprValue, &ExprValue) -> bool,
    N: Fn(&ExprValue) -> u64,
    S: Fn(&ExprValue) -> String,
    F: Fn(&String, &Vec<ExprValue>) -> Result<ExprValue, RunnerError>,

    requires
        calls_nothing(expr),
        evaluates(host, expr, ctx, r),
    ensures
        r is Ok,
    decreases expr,
{
    match r {
        Ok(_) => {},
        Err(e) => {
            match expr {
                Expr::PropertyAccess { object, .. } => {
                    law_only_calls_fail(host, *object, ctx, Err(e));
                },
                Expr::IndexAccess { object, index } => {
                    if evaluates(host, *object, ctx, Err(e)) {
                        law_only_calls_fail(host, *object, ctx, Err(e));
                    }
                    law_only_calls_fail(host, *index, ctx, Err(e));
                },
                Expr::WildcardAccess { object } => {
                    law_only_calls_fail(host, *object, ctx, Err(e));
                },
                Expr::UnaryOp { operand, .. } => {
                    law_only_calls_fail(host, *operand, ctx, Err(e));
                },
                Expr::BinaryOp { left, right, .. } => {
                    if evaluates(host, *left, ctx, Err(e)) {
                        law_only_calls_fail(host, *left, ctx, Err(e));
                    }
                    law_only_calls_fail(host, *right, ctx, Err(e));
                },
                _ => {},
            }
        },
    }
}

/// When the left operand always gives a value that does not decide, `||` and
/// `&&` evaluate to exactly what the right operand evaluates to.
pub proof fn law_undecided_gives_right_operand<T, L, N, S, F>(
    host: Host<T, L, N, S, F>,
    op: BinaryOperator,
    left: Expr,
    right: Expr,
    ctx: EvalContext,
    v: ExprValue,
    r: Result<ExprValue, RunnerError>,
) where
    T: Fn(&ExprValue) -> bool,
    L: Fn(&ExprValue, &ExprValue) -> bool,
    N: Fn(&ExprValue) -> u64,
    S: Fn(&ExprValue) -> String,
    F: Fn(&String, &Vec<ExprValue>) -> Result<ExprValue, RunnerError>,

    requires
        op == BinaryOperator::And || op == BinaryOperator::Or,
        evaluates(host, left, ctx, Ok::<ExprValue, RunnerError>(v)),
        call_ensures(host.truthy, (&v,), op == BinaryOperator::And),
        forall|l: Result<ExprValue, RunnerError>| #[trigger]
            evaluates(host, left, ctx, l) ==> l is Ok,
        forall|x: ExprValue, t: bool| #[trigger]
            evaluates(host, left, ctx, Ok::<ExprValue, RunnerError>(x)) && #[trigger] call_ensures(
                host.truthy,
                (&x,),
                t,
            ) ==> t == (op == BinaryOperator::And),
    ensures
        evaluates(
            host,
            (Expr::BinaryOp { op, left: Box::new(left), right: Box::new(right) }),
            ctx,
            r,
        ) <==> evaluates(host, right, ctx, r),
{
    let whole = Expr::BinaryOp { op, left: Box::new(left), right: Box::new(right) };
    assert(any_value(Ok::<ExprValue, RunnerError>(v)));
    if evaluates(host, whole, ctx, r) {
        let l = choose|l: Result<ExprValue, RunnerError>| #[trigger]
            any_value(l) && evaluates(host, left, ctx, l) && match l {
                Err(e) => r == Err::<ExprValue, RunnerError>(e),
                Ok(first) => exists|t: bool| #[trigger]
                    call_ensures(host.truthy, (&first,), t) && if t == (op == BinaryOperator::Or) {
                        r == Ok::<ExprValue, RunnerError>(first)
                    } else {
                        evaluates(host, right, ctx, r)
                    },
            };
        assert(evaluates(host, left, ctx, l));
        assert(l is Ok);
    }
}

/// When the left operand gives a true value, `||` gives that very value; so
/// does `&&` with a false one.
pub proof fn law_deciding_operand_is_the_result<T, L, N, S, F>(
    host: Host<T, L, N, S, F>,
    op: BinaryOperator,
    left: Expr,
    right: Expr,
    ctx: EvalContext,
    v: ExprValue,
    r: Result<ExprValue, RunnerError>,
) where
    T: Fn(&ExprValue) -> bool,
    L: Fn(&ExprValue, &ExprValue) -> bool,
    N: Fn(&ExprValue) -> u64,
    S: Fn(&ExprValue) -> String,
    F: Fn(&String, &Vec<ExprValue>) -> Result<ExprValue, RunnerError>,

    requires
        op == BinaryOperator::And || op == BinaryOperator::Or,
    ensures
        evaluates(host, left, ctx, Ok::<ExprValue, RunnerError>(v)) && call_ensures(
            host.truthy,
            (&v,),
            op == BinaryOperator::Or,
        ) ==> evaluates(
            host,
            (Expr::BinaryOp { op, left: Box::new(left), right: Box::new(right) }),
            ctx,
            Ok::<ExprValue, RunnerError>(v),
        ),
        (forall|x: ExprValue, t: bool| #[trigger]
            evaluates(host, left, ctx, Ok::<ExprValue, RunnerError>(x)) && #[trigger] call_ensures(
                host.truthy,
                (&x,),
                t,
            ) ==> t == (op == BinaryOperator::Or)) && evaluates(
            host,
            (Expr::BinaryOp { op, left: Box::new(left), right: Box::new(right) }),
            ctx,
            r,
        ) ==> evaluates(host, left, ctx, r),
{
    assert(any_value(Ok::<ExprValue, RunnerError>(v)));
    let whole = Expr::BinaryOp { op, left: Box::new(left), right: Box::new(right) };
    if evaluates(host, whole, ctx, r) {
        let l = choose|l: Result<ExprValue, RunnerError>| #[trigger]
            any_value(l) && evaluates(host, left, ctx, l) && match l {
                Err(e) => r == Err::<ExprValue, RunnerError>(e),
                Ok(first) => exists|t: bool| #[trigger]
                    call_ensures(host.truthy, (&first,), t) && if t == (op == BinaryOperator::Or) {
                        r == Ok::<ExprValue, RunnerError>(first)
                    } else {
                        evaluates(host, right, ctx, r)
                    },
            };
        assert(evaluates(host, left, ctx, l));
    }
}

/// A failing part fails the whole with the same failure: the object of an
/// access, the operand of `!`, and the left operand of every operator.
pub proof fn law_failing_part_fails_the_whole<T, L, N, S, F>(
    host: Host<T, L, N, S, F>,
    part: Expr,
    other: Expr,
    name: String,
    op: BinaryOperator,
    not: UnaryOperator,
    ctx: EvalContext,
    e: RunnerError,
) where
    T: Fn(&ExprValue) -> bool,
    L: Fn(&ExprValue, &ExprValue) -> bool,
    N: Fn(&ExprValue) -> u64,
    S: Fn(&ExprValue) -> String,
    F: Fn(&String, &Vec<ExprValue>) -> Result<ExprValue, RunnerError>,

    requires
        evaluates(host, part, ctx, Err::<ExprValue, RunnerError>(e)),
    ensures
        evaluates(
            host,
            (Expr::PropertyAccess { object: Box::new(part), property: name }),
            ctx,
            Err::<ExprValue, RunnerError>(e),
        ),
        evaluates(
            host,
            (Expr::IndexAccess { object: Box::new(part), index: Box::new(other) }),
            ctx,
            Err::<ExprValue, RunnerError>(e),
        ),
        evaluates(
            host,
            (Expr::WildcardAccess { object: Box::new(part) }),
            ctx,
            Err::<ExprValue, RunnerError>(e),
        ),
        evaluates(
            host,
            (Expr::UnaryOp { op: not, operand: Box::new(part) }),
            ctx,
            Err::<ExprValue, RunnerError>(e),
        ),
        evaluates(
            host,
            (Expr::BinaryOp { op, left: Box::new(part), right: Box::new(other) }),
            ctx,
            Err::<ExprValue, RunnerError>(e),
        ),
{
    assert(any_value(Err::<ExprValue, RunnerError>(e)));
}

/// `!` gives the opposite of how its operand counts.
pub proof fn law_not_is_the_opposite<T, L, N, S, F>(
    host: Host<T, L, N, S, F>,
    not: UnaryOperator,
    operand: Expr,
    ctx: EvalContext,
    r: ExprValue,
    counts: bool,
) where
    T: Fn(&ExprValue) -> bool,
    L: Fn(&ExprValue, &ExprValue) -> bool,
    N: Fn(&ExprValue) -> u64,
    S: Fn(&ExprValue) -> String,
    F: Fn(&String, &Vec<ExprValue>) -> Result<ExprValue, RunnerError>,

    requires
        evaluates(
            host,
            (Expr::UnaryOp { op: not, operand: Box::new(operand) }),
            ctx,
            Ok::<ExprValue, RunnerError>(r),
        ),
        forall|x: ExprValue, t: bool| #[trigger]
            evaluates(host, operand, ctx, Ok::<ExprValue, RunnerError>(x)) && #[trigger] call_ensures(
                host.truthy,
                (&x,),
                t,
            ) ==> t == counts,
    ensures
        r == ExprValue::Bool(!counts),
{
    let o = choose|o: Result<ExprValue, RunnerError>| #[trigger]
        any_value(o) && evaluates(host, operand, ctx, o) && match o {
            Err(e) => Ok::<ExprValue, RunnerError>(r) == Err::<ExprValue, RunnerError>(e),
            Ok(value) => exists|t: bool| #[trigger]
                call_ensures(host.truthy, (&value,), t) && r == ExprValue::Bool(!t),
        };
    assert(evaluates(host, operand, ctx, o));
}

/// A comparison gives whether its two operands, in their order, compare that
/// way; both operands are evaluated, the left one first.
pub proof fn law_comparison_is_of_both_operands<T, L, N, S, F>(
    host: Host<T, L, N, S, F>,
    op: BinaryOperator,
    left: Expr,
    right: Expr,
    ctx: EvalContext,
    r: Result<ExprValue, RunnerError>,
) where
    T: Fn(&ExprValue) -> bool,
    L: Fn(&ExprValue, &ExprValue) -> bool,
    N: Fn(&ExprValue) -> u64,
    S: Fn(&ExprValue) -> String,
    F: Fn(&String, &Vec<ExprValue>) -> Result<ExprValue, RunnerError>,

    requires
        op != BinaryOperator::And,
        op != BinaryOperator::Or,
        evaluates(
            host,
            (Expr::BinaryOp { op, left: Box::new(left), right: Box::new(right) }),
            ctx,
            r,
        ),
    ensures
        match r {
            Err(e) => evaluates(host, left, ctx, r) || evaluates(host, right, ctx, r),
            Ok(v) => exists|a: ExprValue, b: ExprValue, holds: bool|
                evaluates(host, left, ctx, Ok::<ExprValue, RunnerError>(a)) && evaluates(
                    host,
                    right,
                    ctx,
                    Ok::<ExprValue, RunnerError>(b),
                ) && #[trigger] compared(host, op, a, b, holds) && v == ExprValue::Bool(holds),
        },
{
    let l = choose|l: Result<ExprValue, RunnerError>| #[trigger]
        any_value(l) && evaluates(host, left, ctx, l) && match l {
            Err(e) => r == Err::<ExprValue, RunnerError>(e),
            Ok(first) => exists|s: Result<ExprValue, RunnerError>| #[trigger]
                any_value(s) && evaluates(host, right, ctx, s) && match s {
                    Err(e) => r == Err::<ExprValue, RunnerError>(e),
                    Ok(second) => exists|b: bool| #[trigger]
                        compared(host, op, first, second, b) && r == Ok::<ExprValue, RunnerError>(
                            ExprValue::Bool(b),
                        ),
                },
        };
    assert(evaluates(host, left, ctx, l));
    match l {
        Err(_) => {},
        Ok(first) => {
            let s = choose|s: Result<ExprValue, RunnerError>| #[trigger]
                any_value(s) && evaluates(host, right, ctx, s) && match s {
                    Err(e) => r == Err::<ExprValue, RunnerError>(e),
                    Ok(second) => exists|b: bool| #[trigger]
                        compared(host, op, first, second, b) && r == Ok::<ExprValue, RunnerError>(
                            ExprValue::Bool(b),
                        ),
                };
            assert(evaluates(host, right, ctx, s));
        },
    }
}

/// `==` is loose equality and `!=` its opposite; `<` and `>` say the same of
/// swapped operands, as do `<=` and `>=`.
pub proof fn law_comparisons_agree<T, L, N, S, F>(
    host: Host<T, L, N, S, F>,
    a: ExprValue,
    b: ExprValue,
    r: bool,
) where L: Fn(&ExprValue, &ExprValue) -> bool, N: Fn(&ExprValue) -> u64
    ensures
        compared(host, BinaryOperator::Eq, a, b, r) <==> call_ensures(host.loose_eq, (&a, &b), r),
        compared(host, BinaryOperator::Neq, a, b, r) <==> compared(
            host,
            BinaryOperator::Eq,
            a,
            b,
            !r,
        ),
        compared(host, BinaryOperator::Lt, a, b, r) <==> compared(host, BinaryOperator::Gt, b, a, r),
        compared(host, BinaryOperator::Le, a, b, r) <==> compared(host, BinaryOperator::Ge, b, a, r),
        compared(host, BinaryOperator::Lt, a, b, r) ==> exists|x: u64, y: u64| #[trigger]
            call_ensures(host.number, (&a,), x) && #[trigger] call_ensures(host.number, (&b,), y)
                && r == numbers_compare(BinaryOperator::Lt, x, y),
        compared(host, BinaryOperator::Le, a, b, r) ==> exists|x: u64, y: u64| #[trigger]
            call_ensures(host.number, (&a,), x) && #[trigger] call_ensures(host.number, (&b,), y)
                && r == numbers_compare(BinaryOperator::Le, x, y),
{
    assert forall|x: u64, y: u64|
        numbers_compare(BinaryOperator::Lt, x, y) == numbers_compare(BinaryOperator::Gt, y, x)
            && numbers_compare(BinaryOperator::Le, x, y) == numbers_compare(
            BinaryOperator::Ge,
            y,
            x,
        ) by {}
}

/// Two numbers that both are numbers stand in exactly one order: the first
/// is less, greater, or neither; at most and at least are the opposites of
/// greater and less. With NaN no comparison holds.
pub proof fn law_numbers_stand_in_one_order(a: u64, b: u64)
    ensures
        number_bits::is_nan(a) || number_bits::is_nan(b) ==> !numbers_compare(
            BinaryOperator::Lt,
            a,
            b,
        ) && !numbers_compare(BinaryOperator::Le, a, b) && !numbers_compare(
            BinaryOperator::Gt,
            a,
            b,
        ) && !numbers_compare(BinaryOperator::Ge, a, b),
        !number_bits::is_nan(a) && !number_bits::is_nan(b) ==> {
            &&& !(numbers_compare(BinaryOperator::Lt, a, b) && numbers_compare(
                BinaryOperator::Gt,
                a,
                b,
            ))
            &&& numbers_compare(BinaryOperator::Le, a, b) <==> !numbers_compare(
                BinaryOperator::Gt,
                a,
                b,
            )
            &&& numbers_compare(BinaryOperator::Ge, a, b) <==> !numbers_compare(
                BinaryOperator::Lt,
                a,
                b,
            )
            &&& numbers_compare(BinaryOperator::Lt, a, b) <==> numbers_compare(
                BinaryOperator::Gt,
                b,
                a,
            )
            &&& !numbers_compare(BinaryOperator::Lt, a, a)
        },
        a < b && b <= number_bits::INFINITE ==> numbers_compare(BinaryOperator::Lt, a, b),
        number_bits::SIGN < a <= number_bits::SIGN + number_bits::INFINITE && b
            <= number_bits::INFINITE ==> numbers_compare(BinaryOperator::Lt, a, b),
        number_bits::SIGN <= b < a <= number_bits::SIGN + number_bits::INFINITE ==> numbers_compare(
            BinaryOperator::Lt,
            a,
            b,
        ),
{
}

/// A name gives the first value under it in any letter case, and null when
/// there is none.
pub proof fn law_first_name_counts(
    entries: Seq<(Seq<char>, ExprView)>,
    name: Seq<char>,
    i: int,
)
    requires
        0 <= i <= entries.len(),
        forall|k: int|
            0 <= k < i ==> text::lower((#[trigger] entries[k]).0) != text::lower(name),
    ensures
        i == entries.len() ==> named_value(entries, name) == ExprView::Null,
        i < entries.len() && text::lower(entries[i].0) == text::lower(name) ==> named_value(
            entries,
            name,
        ) == entries[i].1,
    decreases entries.len(),
{
    if i > 0 {
        let rest = entries.drop_first();
        assert(text::lower(entries[0].0) != text::lower(name));
        assert forall|k: int| 0 <= k < i - 1 implies text::lower((#[trigger] rest[k]).0)
            != text::lower(name) by {
            assert(rest[k] == entries[k + 1]);
        }
        law_first_name_counts(rest, name, i - 1);
    }
}

/// Only an object has properties, and they are its named values.
pub proof fn law_only_objects_have_properties(
    value: ExprView,
    entries: Seq<(Seq<char>, ExprView)>,
    name: Seq<char>,
)
    ensures
        !(value is Object) ==> property_of(value, name) == ExprView::Null,
        property_of(ExprView::Object(entries), name) == named_value(entries, name),
{
}

/// A list holds at a position that a number names the item there; nothing
/// lies before the list or behind it.
pub proof fn law_item_at_its_position(items: Seq<ExprView>, number: u64, i: nat)
    ensures
        number_bits::position(number) == Some(i) && i < items.len() ==> item_at(items, number)
            == items[i as int],
        number_bits::position(number) == Some(i) && i >= items.len() ==> item_at(items, number)
            == ExprView::Null,
        number_bits::position(number) is None ==> item_at(items, number) == ExprView::Null,
{
}

/// Indexing goes by number into a list and by text into an object; anything
/// else gives null.
pub proof fn law_indexing_goes_by_kind<T, L, N, S, F>(
    host: Host<T, L, N, S, F>,
    object: ExprValue,
    index: ExprValue,
    n: u64,
    key: String,
    r: ExprView,
) where N: Fn(&ExprValue) -> u64, S: Fn(&ExprValue) -> String
    requires
        indexed(host, object, index, r),
        forall|x: u64| #[trigger] call_ensures(host.number, (&index,), x) ==> x == n,
        forall|x: String| #[trigger] call_ensures(host.string, (&index,), x) ==> x == key,
    ensures
        object@ matches ExprView::Array(items) ==> r == item_at(items, n),
        object@ matches ExprView::Object(entries) ==> r == named_value(entries, key@),
        !(object@ is Array) && !(object@ is Object) ==> r == ExprView::Null,
{
}

/// A wildcard keeps a list as it is, and takes every value of an object, in
/// order; anything else gives null.
pub proof fn law_wildcard_takes_every_value(
    value: ExprView,
    entries: Seq<(Seq<char>, ExprView)>,
)
    ensures
        value is Array ==> all_values(value) == value,
        all_values(ExprView::Object(entries)) matches ExprView::Array(items) && items.len()
            == entries.len() && forall|i: int|
            0 <= i < entries.len() ==> #[trigger] items[i] == entries[i].1,
        !(value is Array) && !(value is Object) ==> all_values(value) == ExprView::Null,
{
}

/// A literal is its value, and a context the value under its name.
pub proof fn law_leaves_are_their_values<T, L, N, S, F>(
    host: Host<T, L, N, S, F>,
    value: ExprValue,
    name: String,
    ctx: EvalContext,
    r: Result<ExprValue, RunnerError>,
) where
    T: Fn(&ExprValue) -> bool,
    L: Fn(&ExprValue, &ExprValue) -> bool,
    N: Fn(&ExprValue) -> u64,
    S: Fn(&ExprValue) -> String,
    F: Fn(&String, &Vec<ExprValue>) -> Result<ExprValue, RunnerError>,

    ensures
        evaluates(host, Expr::Literal(value), ctx, r) <==> (r matches Ok(v) && v@ == value@),
        evaluates(host, (Expr::Context { name }), ctx, r) <==> (r matches Ok(v) && v@
            == named_value(types::entry_views(ctx.contexts@), name@)),
{
}

/// An access gives the property, all values, or the indexed value of what
/// its object evaluates to.
pub proof fn law_access_is_of_the_object<T, L, N, S, F>(
    host: Host<T, L, N, S, F>,
    object: Expr,
    index: Expr,
    name: String,
    ctx: EvalContext,
    r: ExprValue,
) where
    T: Fn(&ExprValue) -> bool,
    L: Fn(&ExprValue, &ExprValue) -> bool,
    N: Fn(&ExprValue) -> u64,
    S: Fn(&ExprValue) -> String,
    F: Fn(&String, &Vec<ExprValue>) -> Result<ExprValue, RunnerError>,

    ensures
        evaluates(
            host,
            (Expr::PropertyAccess { object: Box::new(object), property: name }),
            ctx,
            Ok::<ExprValue, RunnerError>(r),
        ) ==> exists|o: ExprValue| #[trigger]
            evaluates(host, object, ctx, Ok::<ExprValue, RunnerError>(o)) && r@ == property_of(
                o@,
                name@,
            ),
        evaluates(
            host,
            (Expr::WildcardAccess { object: Box::new(object) }),
            ctx,
            Ok::<ExprValue, RunnerError>(r),
        ) ==> exists|o: ExprValue| #[trigger]
            evaluates(host, object, ctx, Ok::<ExprValue, RunnerError>(o)) && r@ == all_values(o@),
        evaluates(
            host,
            (Expr::IndexAccess { object: Box::new(object), index: Box::new(index) }),
            ctx,
            Ok::<ExprValue, RunnerError>(r),
        ) ==> exists|o: ExprValue, i: ExprValue| #[trigger]
            evaluates(host, object, ctx, Ok::<ExprValue, RunnerError>(o)) && #[trigger] evaluates(
                host,
                index,
                ctx,
                Ok::<ExprValue, RunnerError>(i),
            ) && indexed(host, o, i, r@),
{
    let ok = Ok::<ExprValue, RunnerError>(r);
    if evaluates(
        host,
        (Expr::PropertyAccess { object: Box::new(object), property: name }),
        ctx,
        ok,
    ) {
        let o = choose|o: Result<ExprValue, RunnerError>| #[trigger]
            any_value(o) && evaluates(host, object, ctx, o) && match o {
                Err(e) => false,
                Ok(obj) => r@ == property_of(obj@, name@),
            };
        assert(evaluates(host, object, ctx, Ok::<ExprValue, RunnerError>(o->Ok_0)));
    }
    if evaluates(host, (Expr::WildcardAccess { object: Box::new(object) }), ctx, ok) {
        let o = choose|o: Result<ExprValue, RunnerError>| #[trigger]
            any_value(o) && evaluates(host, object, ctx, o) && match o {
                Err(e) => false,
                Ok(obj) => r@ == all_values(obj@),
            };
        assert(evaluates(host, object, ctx, Ok::<ExprValue, RunnerError>(o->Ok_0)));
    }
    if evaluates(
        host,
        (Expr::IndexAccess { object: Box::new(object), index: Box::new(index) }),
        ctx,
        ok,
    ) {
        let o = choose|o: Result<ExprValue, RunnerError>| #[trigger]
            any_value(o) && evaluates(host, object, ctx, o) && match o {
                Err(e) => false,
                Ok(obj) => exists|i: Result<ExprValue, RunnerError>| #[trigger]
                    any_value(i) && evaluates(host, index, ctx, i) && match i {
                        Err(e) => false,
                        Ok(idx) => indexed(host, obj, idx, r@),
                    },
            };
        let i = choose|i: Result<ExprValue, RunnerError>| #[trigger]
            any_value(i) && evaluates(host, index, ctx, i) && match i {
                Err(e) => false,
                Ok(idx) => indexed(host, o->Ok_0, idx, r@),
            };
        assert(evaluates(host, object, ctx, Ok::<ExprValue, RunnerError>(o->Ok_0)));
        assert(evaluates(host, index, ctx, Ok::<ExprValue, RunnerError>(i->Ok_0)));
    }
}

/// A function is called under its own name, on the values of all its
/// arguments in order; the first argument that fails fails the call.
pub proof fn law_call_gets_every_argument<T, L, N, S, F>(
    host: Host<T, L, N, S, F>,
    name: String,
    args: Vec<Expr>,
    ctx: EvalContext,
    r: Result<ExprValue, RunnerError>,
) where
    T: Fn(&ExprValue) -> bool,
    L: Fn(&ExprValue, &ExprValue) -> bool,
    N: Fn(&ExprValue) -> u64,
    S: Fn(&ExprValue) -> String,
    F: Fn(&String, &Vec<ExprValue>) -> Result<ExprValue, RunnerError>,

    requires
        evaluates(host, (Expr::FunctionCall { name, args }), ctx, r),
    ensures
        (exists|values: Vec<ExprValue>| #[trigger]
            call_ensures(host.call, (&name, &values), r) && values@.len() == args@.len()
                && forall|i: int|
                0 <= i < args@.len() ==> evaluates(
                    host,
                    #[trigger] args@[i],
                    ctx,
                    Ok::<ExprValue, RunnerError>(values@[i]),
                )) || (r is Err && exists|i: int|
            0 <= i < args@.len() && evaluates(host, #[trigger] args@[i], ctx, r)),
{
    let a = choose|a: Result<Vec<ExprValue>, RunnerError>| #[trigger]
        any_value(a) && args_evaluate(host, args@, ctx, a) && match a {
            Err(e) => r == Err::<ExprValue, RunnerError>(e),
            Ok(values) => call_ensures(host.call, (&name, &values), r),
        };
    assert(args_evaluate(host, args@, ctx, a));
    match a {
        Ok(values) => {
            assert(call_ensures(host.call, (&name, &values), r));
        },
        Err(e) => {},
    }
}

/// A text that does not parse fails as the parser does; one that parses is
/// evaluated as what it parses to.
pub proof fn law_text_is_parsed_first<P, T, L, N, S, F>(
    parse: P,
    host: Host<T, L, N, S, F>,
    input: &str,
    ctx: EvalContext,
    p: Result<Expr, RunnerError>,
    r: Result<ExprValue, RunnerError>,
) where
    P: Fn(&str) -> Result<Expr, RunnerError>,
    T: Fn(&ExprValue) -> bool,
    L: Fn(&ExprValue, &ExprValue) -> bool,
    N: Fn(&ExprValue) -> u64,
    S: Fn(&ExprValue) -> String,
    F: Fn(&String, &Vec<ExprValue>) -> Result<ExprValue, RunnerError>,

    requires
        call_ensures(evaluate::<P, T, L, N, S, F>, (&parse, &host, input, &ctx), r),
        forall|q: Result<Expr, RunnerError>| #[trigger]
            call_ensures(parse, (input,), q) ==> q == p,
    ensures
        p matches Err(e) ==> r == Err::<ExprValue, RunnerError>(e),
        p matches Ok(expr) ==> evaluates(host, expr, ctx, r),
{
}

/// Evaluating `left || right` when the left operand always gives a value that
/// counts as false gives what the right operand evaluates to, and so does
/// `left && right` when it always gives one that counts as true; in the
/// opposite cases the result is a value of the left operand.
pub proof fn law_evaluated_operand_decides<T, L, N, S, F>(
    host: Host<T, L, N, S, F>,
    op: BinaryOperator,
    left: Expr,
    right: Expr,
    ctx: EvalContext,
    counts: bool,
    r: Result<ExprValue, RunnerError>,
) where
    T: Fn(&ExprValue) -> bool,
    L: Fn(&ExprValue, &ExprValue) -> bool,
    N: Fn(&ExprValue) -> u64,
    S: Fn(&ExprValue) -> String,
    F: Fn(&String, &Vec<ExprValue>) -> Result<ExprValue, RunnerError>,

    requires
        op == BinaryOperator::And || op == BinaryOperator::Or,
        call_ensures(
            eval_expr::<T, L, N, S, F>,
            (
                &host,
                &Expr::BinaryOp { op, left: Box::new(left), right: Box::new(right) },
                &ctx,
            ),
            r,
        ),
        forall|l: Result<ExprValue, RunnerError>| #[trigger]
            evaluates(host, left, ctx, l) ==> l is Ok,
        forall|x: ExprValue, t: bool| #[trigger]
            evaluates(host, left, ctx, Ok::<ExprValue, RunnerError>(x)) && #[trigger] call_ensures(
                host.truthy,
                (&x,),
                t,
            ) ==> t == counts,
    ensures
        counts == (op == BinaryOperator::And) ==> evaluates(host, right, ctx, r),
        counts == (op == BinaryOperator::Or) ==> evaluates(host, left, ctx, r),
{
    let l = choose|l: Result<ExprValue, RunnerError>| #[trigger]
        any_value(l) && evaluates(host, left, ctx, l) && match l {
            Err(e) => r == Err::<ExprValue, RunnerError>(e),
            Ok(first) => exists|t: bool| #[trigger]
                call_ensures(host.truthy, (&first,), t) && if t == (op == BinaryOperator::Or) {
                    r == Ok::<ExprValue, RunnerError>(first)
                } else {
                    evaluates(host, right, ctx, r)
                },
        };
    assert(evaluates(host, left, ctx, l));
    assert(l is Ok);
}

/// Looking a context or a property up gives the first value under that name
/// in any letter case, and null when there is none.
pub proof fn law_lookup_gives_the_first(
    ctx: EvalContext,
    name: &str,
    i: int,
    r: ExprValue,
)
    requires
        call_ensures(resolve_context, (&ctx, name), r),
        0 <= i <= ctx.contexts@.len(),
        forall|k: int|
            0 <= k < i ==> text::lower((#[trigger] ctx.contexts@[k]).0@) != text::lower(name@),
    ensures
        i == ctx.contexts@.len() ==> r@ == ExprView::Null,
        i < ctx.contexts@.len() && text::lower(ctx.contexts@[i].0@) == text::lower(name@) ==> r@
            == ctx.contexts@[i].1@,
{
    let entries = types::entry_views(ctx.contexts@);
    assert(entries.len() == ctx.contexts@.len());
    assert forall|k: int| 0 <= k < i implies text::lower((#[trigger] entries[k]).0) != text::lower(
        name@,
    ) by {
        assert(entries[k] == (ctx.contexts@[k].0@, ctx.contexts@[k].1@));
    }
    law_first_name_counts(entries, name@, i);
    if i < entries.len() {
        assert(entries[i] == (ctx.contexts@[i].0@, ctx.contexts@[i].1@));
    }
}

/// Only the six comparisons compare: `&&` and `||` are refused there.
pub proof fn law_only_comparisons_compare<T, L, N, S, F>(
    host: Host<T, L, N, S, F>,
    op: BinaryOperator,
    left: ExprValue,
    right: ExprValue,
    r: Result<bool, RunnerError>,
) where L: Fn(&ExprValue, &ExprValue) -> bool, N: Fn(&ExprValue) -> u64
    requires
        call_ensures(eval_comparison::<T, L, N, S, F>, (&host, op, &left, &right), r),
    ensures
        r is Err <==> op == BinaryOperator::And || op == BinaryOperator::Or,
        op == BinaryOperator::Eq ==> (r matches Ok(b) && call_ensures(
            host.loose_eq,
            (&left, &right),
            b,
        )),
        op == BinaryOperator::Neq ==> (r matches Ok(b) && call_ensures(
            host.loose_eq,
            (&left, &right),
            !b,
        )),
{
}

/// Two numbers compare only under one of the four orderings.
pub proof fn law_only_orderings_order_numbers(op: BinaryOperator, a: u64, b: u64, r: bool)
    requires
        call_ensures(compare_numbers, (op, a, b), r),
    ensures
        op == BinaryOperator::And || op == BinaryOperator::Or || op == BinaryOperator::Eq || op
            == BinaryOperator::Neq ==> !r,
        r ==> !number_bits::is_nan(a) && !number_bits::is_nan(b),
{
}

} // verus!
