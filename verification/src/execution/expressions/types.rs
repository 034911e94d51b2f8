//! Values and syntax trees of the expression language.

use vstd::prelude::*;

verus! {

/// A value. A number is given by the bits of its IEEE 754 double.
#[derive(Debug)]
pub enum ExprValue {
    Null,
    Bool(bool),
    Number(u64),
    String(String),
    Array(Vec<ExprValue>),
    Object(Vec<(String, ExprValue)>),
}

/// A value with its texts and lists.
pub enum ExprView {
    Null,
    Bool(bool),
    Number(u64),
    String(Seq<char>),
    Array(Seq<ExprView>),
    Object(Seq<(Seq<char>, ExprView)>),
}

/// The view of a value.
pub open spec fn value_view(v: ExprValue) -> ExprView
    decreases v,
{
    match v {
        ExprValue::Null => ExprView::Null,
        ExprValue::Bool(b) => ExprView::Bool(b),
        ExprValue::Number(n) => ExprView::Number(n),
        ExprValue::String(s) => ExprView::String(s@),
        ExprValue::Array(items) => ExprView::Array(
            Seq::new(
                items@.len(),
                |i: int|
                    if 0 <= i < items@.len() {
                        value_view(items@[i])
                    } else {
                        ExprView::Null
                    },
            ),
        ),
        ExprValue::Object(entries) => ExprView::Object(
            Seq::new(
                entries@.len(),
                |i: int|
                    if 0 <= i < entries@.len() {
                        (entries@[i].0@, value_view(entries@[i].1))
                    } else {
                        (Seq::empty(), ExprView::Null)
                    },
            ),
        ),
    }
}

impl View for ExprValue {
    type V = ExprView;

    open spec fn view(&self) -> ExprView {
        value_view(*self)
    }
}

/// The views of a list of values.
pub open spec fn item_views(items: Seq<ExprValue>) -> Seq<ExprView> {
    items.map_values(|v: ExprValue| v@)
}

/// The views of a list of named values.
pub open spec fn entry_views(entries: Seq<(String, ExprValue)>) -> Seq<(Seq<char>, ExprView)> {
    entries.map_values(|e: (String, ExprValue)| (e.0@, e.1@))
}

/// The lists inside a view are the views of the lists inside the value.
pub proof fn lemma_view_lists(v: ExprValue)
    ensures
        v matches ExprValue::Array(items) ==> v@ == ExprView::Array(item_views(items@)),
        v matches ExprValue::Object(entries) ==> v@ == ExprView::Object(entry_views(entries@)),
{
    match v {
        ExprValue::Array(items) => {
            assert(v@->Array_0 =~= item_views(items@));
        },
        ExprValue::Object(entries) => {
            assert(v@->Object_0 =~= entry_views(entries@));
        },
        _ => {},
    }
}

proof fn lemma_part_smaller(v: ExprValue, i: int)
    ensures
        v matches ExprValue::Array(items) ==> 0 <= i < items@.len() ==> decreases_to!(v => items@[i]),
        v matches ExprValue::Object(entries) ==> 0 <= i < entries@.len() ==> decreases_to!(
            v => entries@[i].1
        ),
{
    match v {
        ExprValue::Array(items) => {
            assert(decreases_to!(v => items));
            assert(decreases_to!(items => items@));
            assert(0 <= i < items@.len() ==> decreases_to!(items@ => items@[i]));
        },
        ExprValue::Object(entries) => {
            assert(decreases_to!(v => entries));
            assert(decreases_to!(entries => entries@));
            assert(0 <= i < entries@.len() ==> decreases_to!(entries@ => entries@[i]));
            assert(0 <= i < entries@.len() ==> decreases_to!(entries@[i] => entries@[i].1));
        },
        _ => {},
    }
}

/// A copy of a value.
pub fn copy_value(v: &ExprValue) -> (r: ExprValue)
    ensures
        r@ == v@,
    decreases *v,
{
    proof {
        lemma_view_lists(*v);
    }
    match v {
        ExprValue::Null => ExprValue::Null,
        ExprValue::Bool(b) => ExprValue::Bool(*b),
        ExprValue::Number(n) => ExprValue::Number(*n),
        ExprValue::String(s) => ExprValue::String(s.clone()),
        ExprValue::Array(items) => {
            let mut out: Vec<ExprValue> = Vec::new();
            let mut i: usize = 0;
            while i < items.len()
                invariant
                    i <= items@.len(),
                    *v == ExprValue::Array(*items),
                    item_views(out@) == item_views(items@).take(i as int),
                decreases items@.len() - i,
            {
                let ghost before = item_views(out@);
                proof {
                    lemma_part_smaller(*v, i as int);
                }
                let item = copy_value(&items[i]);
                out.push(item);
                proof {
                    assert(item_views(out@) =~= before.push(item@));
                    assert(item_views(items@).take(i + 1) =~= item_views(items@).take(
                        i as int,
                    ).push(items@[i as int]@));
                }
                i = i + 1;
            }
            let r = ExprValue::Array(out);
            proof {
                assert(item_views(items@).take(items@.len() as int) =~= item_views(items@));
                lemma_view_lists(r);
            }
            r
        },
        ExprValue::Object(entries) => {
            let mut out: Vec<(String, ExprValue)> = Vec::new();
            let mut i: usize = 0;
            while i < entries.len()
                invariant
                    i <= entries@.len(),
                    *v == ExprValue::Object(*entries),
                    entry_views(out@) == entry_views(entries@).take(i as int),
                decreases entries@.len() - i,
            {
                let ghost before = entry_views(out@);
                let name: String = entries[i].0.clone();
                proof {
                    lemma_part_smaller(*v, i as int);
                }
                let item = copy_value(&entries[i].1);
                out.push((name, item));
                proof {
                    assert(entry_views(out@) =~= before.push((name@, item@)));
                    assert(entry_views(entries@).take(i + 1) =~= entry_views(entries@).take(
                        i as int,
                    ).push((entries@[i as int].0@, entries@[i as int].1@)));
                }
                i = i + 1;
            }
            let r = ExprValue::Object(out);
            proof {
                assert(entry_views(entries@).take(entries@.len() as int) =~= entry_views(entries@));
                lemma_view_lists(r);
            }
            r
        },
    }
}

/// A unary operator.
#[derive(Debug, Clone, Copy, PartialEq, Eq, Structural)]
pub enum UnaryOperator {
    Not,
}

/// A binary operator.
#[derive(Debug, Clone, Copy, PartialEq, Eq, Structural)]
pub enum BinaryOperator {
    And,
    Or,
    Eq,
    Neq,
    Lt,
    Le,
    Gt,
    Ge,
}

/// A parsed expression.
#[derive(Debug)]
#[allow(inconsistent_fields)]
pub enum Expr {
    Literal(ExprValue),
    Context { name: String },
    PropertyAccess { object: Box<Expr>, property: String },
    IndexAccess { object: Box<Expr>, index: Box<Expr> },
    WildcardAccess { object: Box<Expr> },
    FunctionCall { name: String, args: Vec<Expr> },
    UnaryOp { op: UnaryOperator, operand: Box<Expr> },
    BinaryOp { op: BinaryOperator, left: Box<Expr>, right: Box<Expr> },
}

/// The view of a value keeps everything in it: its kind, its text or number,
/// and every item and entry in order.
pub proof fn law_view_keeps_everything(v: ExprValue)
    ensures
        v is Null <==> v@ is Null,
        v matches ExprValue::Bool(b) ==> v@ == ExprView::Bool(b),
        v matches ExprValue::Number(n) ==> v@ == ExprView::Number(n),
        v matches ExprValue::String(s) ==> v@ == ExprView::String(s@),
        v matches ExprValue::Array(items) ==> (v@ matches ExprView::Array(list) && list.len()
            == items@.len() && forall|i: int|
            0 <= i < items@.len() ==> #[trigger] list[i] == items@[i]@),
        v matches ExprValue::Object(entries) ==> (v@ matches ExprView::Object(list) && list.len()
            == entries@.len() && forall|i: int|
            0 <= i < entries@.len() ==> #[trigger] list[i] == (
                entries@[i].0@,
                entries@[i].1@,
            )),
{
}

} // verus!
