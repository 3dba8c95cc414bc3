//! The debug form of an expression, as `{:?}` writes the syntax tree: every
//! node as `Spanned { node: .., span: Span { start: .., end: .. }, id: NodeId(..) }`.
//! Names are written between quotes as they stand; the names the lexer reads
//! hold no character that the debug form would escape.

use vstd::prelude::*;
use crate::lexer::token::kind_debug;
use crate::parser::ast::{Expr, ExprKind};
use crate::parser::grammar::{ev, ek, lemma_ek_array, lemma_ek_call, evs, EKind, EView};
use crate::text::{dec, push_decimal, string_of};

verus! {

pub open spec fn bool_debug(b: bool) -> Seq<char> {
    if b {
        "true"@
    } else {
        "false"@
    }
}

/// The debug form of an expression.
pub open spec fn view_debug(v: EView) -> Seq<char>
    decreases v, 1nat,
{
    "Spanned { node: "@ + kind_view_debug(v.node) + ", span: Span { start: "@ + dec(v.span.start as nat)
        + ", end: "@ + dec(v.span.end as nat) + " }, id: NodeId("@ + dec(v.id.0 as nat) + ") }"@
}

/// The debug form of an expression's content.
pub open spec fn kind_view_debug(k: EKind) -> Seq<char>
    decreases k, 0nat,
{
    match k {
        EKind::Integer(v) => "Integer("@ + dec(v as nat) + ")"@,
        EKind::Bool(b) => "Bool("@ + bool_debug(b) + ")"@,
        EKind::Ident(n) => "Ident(\""@ + n@ + "\")"@,
        EKind::Array(items) => "Array(["@ + views_debug(items, 0) + "])"@,
        EKind::Increment { prefix, expr } => "Increment { prefix: "@ + bool_debug(prefix) + ", expr: "@
            + view_debug(*expr) + " }"@,
        EKind::Decrement { prefix, expr } => "Decrement { prefix: "@ + bool_debug(prefix) + ", expr: "@
            + view_debug(*expr) + " }"@,
        EKind::Unary { op, rhs } => "Unary { op: "@ + kind_debug(op) + ", rhs: "@ + view_debug(*rhs) + " }"@,
        EKind::Binary { lhs, op, rhs } => "Binary { lhs: "@ + view_debug(*lhs) + ", op: "@ + kind_debug(op)
            + ", rhs: "@ + view_debug(*rhs) + " }"@,
        EKind::Assignment { target, value } => "Assignment { target: "@ + view_debug(*target) + ", value: "@
            + view_debug(*value) + " }"@,
        EKind::Call { callee, args } => "Call { callee: "@ + view_debug(*callee) + ", args: ["@ + views_debug(
            args,
            0,
        ) + "] }"@,
        EKind::Subscript { array, index } => "Subscript { array: "@ + view_debug(*array) + ", index: "@
            + view_debug(*index) + " }"@,
        EKind::MemberAccess { object, name } => "MemberAccess { object: "@ + view_debug(*object)
            + ", name: \""@ + name@ + "\" }"@,
        EKind::StaticAccess { target, member } => "StaticAccess { target: "@ + view_debug(*target)
            + ", member: \""@ + member@ + "\" }"@,
        EKind::StructInit { name, fields } => "StructInit { name: "@ + view_debug(*name) + ", fields: ["@
            + fields_debug(fields, 0) + "] }"@,
    }
}

/// The separator after the `i`-th of `n` list items.
pub open spec fn sep(i: int, n: int) -> Seq<char> {
    if i + 1 < n {
        ", "@
    } else {
        Seq::empty()
    }
}

/// The debug forms of the expressions of a list from index `i` on, separated by commas.
pub open spec fn views_debug(vs: Seq<EView>, i: int) -> Seq<char>
    decreases vs, vs.len() - i,
{
    if i < 0 || i >= vs.len() {
        Seq::empty()
    } else {
        view_debug(vs[i]) + sep(i, vs.len() as int) + views_debug(vs, i + 1)
    }
}

/// The debug forms of struct literal fields from index `i` on, each a
/// `(name, value)` pair, separated by commas.
pub open spec fn fields_debug(fs: Seq<(String, EView)>, i: int) -> Seq<char>
    decreases fs, fs.len() - i,
{
    if i < 0 || i >= fs.len() {
        Seq::empty()
    } else {
        proof {
            assert(decreases_to!(fs => fs[i]));
        }
        "(\""@ + fs[i].0@ + "\", "@ + view_debug(fs[i].1) + ")"@ + sep(i, fs.len() as int) + fields_debug(
            fs,
            i + 1,
        )
    }
}

fn bool_text(b: bool) -> (s: &'static str)
    ensures
        s@ == bool_debug(b),
{
    if b {
        "true"
    } else {
        "false"
    }
}

fn sep_text(i: usize, n: usize) -> (s: &'static str)
    requires
        i < n,
    ensures
        s@ == sep(i as int, n as int),
{
    if i + 1 < n {
        ", "
    } else {
        proof {
            reveal_strlit("");
        }
        ""
    }
}

/// The debug form of an expression (see [`view_debug`]).
pub fn expr_debug(e: &Expr) -> (s: String)
    ensures
        s@ == view_debug(ev(*e)),
    decreases e, 1nat,
{
    let mut s = string_of("Spanned { node: ");
    let k = kind_debug_text(&e.node);
    s.append(k.as_str());
    s.append(", span: Span { start: ");
    push_decimal(&mut s, e.span.start as u64);
    s.append(", end: ");
    push_decimal(&mut s, e.span.end as u64);
    s.append(" }, id: NodeId(");
    push_decimal(&mut s, e.id.0 as u64);
    s.append(") }");
    s
}

fn exprs_debug(items: &Vec<Expr>) -> (s: String)
    ensures
        s@ == views_debug(evs(items@), 0),
    decreases items, 0nat,
{
    let ghost vs = evs(items@);
    let mut s = String::new();
    let mut i: usize = 0;
    while i < items.len()
        invariant
            0 <= i <= items@.len(),
            vs == evs(items@),
            s@ + views_debug(vs, i as int) == views_debug(vs, 0),
        decreases items@.len() - i,
    {
        proof {
            assert(decreases_to!(items => items[i as int]));
        }
        let ghost before = s@;
        let t = expr_debug(&items[i]);
        s.append(t.as_str());
        s.append(sep_text(i, items.len()));
        proof {
            assert(before + views_debug(vs, i as int) =~= s@ + views_debug(vs, i + 1));
        }
        i += 1;
    }
    proof {
        assert(s@ =~= s@ + views_debug(vs, i as int));
    }
    s
}

fn fields_debug_text(fields: &Vec<(String, Expr)>, Ghost(fs): Ghost<Seq<(String, EView)>>) -> (s: String)
    requires
        fs.len() == fields@.len(),
        forall|j: int| 0 <= j < fs.len() ==> #[trigger] fs[j] == (fields@[j].0, ev(fields@[j].1)),
    ensures
        s@ == fields_debug(fs, 0),
    decreases fields, 0nat,
{
    let mut s = String::new();
    let mut i: usize = 0;
    while i < fields.len()
        invariant
            0 <= i <= fields@.len(),
            fs.len() == fields@.len(),
            forall|j: int| 0 <= j < fs.len() ==> #[trigger] fs[j] == (fields@[j].0, ev(fields@[j].1)),
            s@ + fields_debug(fs, i as int) == fields_debug(fs, 0),
        decreases fields@.len() - i,
    {
        proof {
            assert(decreases_to!(fields => fields[i as int]));
            assert(decreases_to!(fields[i as int] => fields[i as int].1));
        }
        let ghost before = s@;
        let mut t = string_of("(\"");
        t.append(fields[i].0.as_str());
        t.append("\", ");
        let v = expr_debug(&fields[i].1);
        t.append(v.as_str());
        t.append(")");
        t.append(sep_text(i, fields.len()));
        s.append(t.as_str());
        proof {
            assert(fs[i as int] == (fields@[i as int].0, ev(fields@[i as int].1)));
            assert(before + fields_debug(fs, i as int) =~= s@ + fields_debug(fs, i + 1));
        }
        i += 1;
    }
    proof {
        assert(s@ =~= s@ + fields_debug(fs, i as int));
    }
    s
}

fn kind_debug_text(k: &ExprKind) -> (s: String)
    ensures
        s@ == kind_view_debug(ek(*k)),
    decreases k, 0nat,
{
    match k {
        ExprKind::Integer(v) => {
            let mut s = string_of("Integer(");
            push_decimal(&mut s, *v as u64);
            s.append(")");
            s
        },
        ExprKind::Bool(b) => {
            let mut s = string_of("Bool(");
            s.append(bool_text(*b));
            s.append(")");
            s
        },
        ExprKind::Ident(n) => {
            let mut s = string_of("Ident(\"");
            s.append(n.as_str());
            s.append("\")");
            s
        },
        ExprKind::Array(items) => {
            proof {
                assert(decreases_to!(*k => k->Array_0));
                lemma_ek_array(*items);
            }
            let mut s = string_of("Array([");
            let t = exprs_debug(items);
            s.append(t.as_str());
            s.append("])");
            s
        },
        ExprKind::Increment { prefix, expr } => {
            let mut s = string_of("Increment { prefix: ");
            s.append(bool_text(*prefix));
            s.append(", expr: ");
            let t = expr_debug(expr);
            s.append(t.as_str());
            s.append(" }");
            s
        },
        ExprKind::Decrement { prefix, expr } => {
            let mut s = string_of("Decrement { prefix: ");
            s.append(bool_text(*prefix));
            s.append(", expr: ");
            let t = expr_debug(expr);
            s.append(t.as_str());
            s.append(" }");
            s
        },
        ExprKind::Unary { op, rhs } => {
            let mut s = string_of("Unary { op: ");
            let o = op.debug_text();
            s.append(o.as_str());
            s.append(", rhs: ");
            let t = expr_debug(rhs);
            s.append(t.as_str());
            s.append(" }");
            s
        },
        ExprKind::Binary { lhs, op, rhs } => {
            let mut s = string_of("Binary { lhs: ");
            let l = expr_debug(lhs);
            s.append(l.as_str());
            s.append(", op: ");
            let o = op.debug_text();
            s.append(o.as_str());
            s.append(", rhs: ");
            let r = expr_debug(rhs);
            s.append(r.as_str());
            s.append(" }");
            s
        },
        ExprKind::Assignment { target, value } => {
            let mut s = string_of("Assignment { target: ");
            let t = expr_debug(target);
            s.append(t.as_str());
            s.append(", value: ");
            let v = expr_debug(value);
            s.append(v.as_str());
            s.append(" }");
            s
        },
        ExprKind::Call { callee, args } => {
            proof {
                assert(decreases_to!(*k => k->Call_args));
                lemma_ek_call(*callee, *args);
            }
            let mut s = string_of("Call { callee: ");
            let c = expr_debug(callee);
            s.append(c.as_str());
            s.append(", args: [");
            let a = exprs_debug(args);
            s.append(a.as_str());
            s.append("] }");
            s
        },
        ExprKind::Subscript { array, index } => {
            let mut s = string_of("Subscript { array: ");
            let a = expr_debug(array);
            s.append(a.as_str());
            s.append(", index: ");
            let i = expr_debug(index);
            s.append(i.as_str());
            s.append(" }");
            s
        },
        ExprKind::MemberAccess { object, name } => {
            let mut s = string_of("MemberAccess { object: ");
            let o = expr_debug(object);
            s.append(o.as_str());
            s.append(", name: \"");
            s.append(name.as_str());
            s.append("\" }");
            s
        },
        ExprKind::StaticAccess { target, member } => {
            let mut s = string_of("StaticAccess { target: ");
            let t = expr_debug(target);
            s.append(t.as_str());
            s.append(", member: \"");
            s.append(member.as_str());
            s.append("\" }");
            s
        },
        ExprKind::StructInit { name, fields } => {
            proof {
                assert(decreases_to!(*k => k->StructInit_fields));
            }
            let ghost fs = ek(*k)->StructInit_fields;
            let mut s = string_of("StructInit { name: ");
            let n = expr_debug(name);
            s.append(n.as_str());
            s.append(", fields: [");
            let f = fields_debug_text(fields, Ghost(fs));
            s.append(f.as_str());
            s.append("] }");
            s
        },
    }
}

} // verus!
