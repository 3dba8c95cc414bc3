//! Code generation: TeenyAT assembly for a checked program.
//!
//! Expressions are evaluated on the stack: each pushes its value. Locals live
//! in the frame below `rE`; constants become `.const` directives. Where the
//! generator cannot proceed (an increment of something that is not a local, an
//! address of something that is not a local, an assignment to something that
//! is neither a name nor a dereference, a call through an expression, a
//! constant whose initializer is not a literal, or a label counter or frame
//! offset that would overflow) its methods return `false`.

use vstd::prelude::*;
use vstd::hash_map::StringHashMap;
use vstd::hash_set::StringHashSet;
use crate::analysis::symbol::find;
use crate::analysis::type_checker::TypeMap;
use crate::lexer::token::TokenKind;
use crate::parser::ast::{type_size, Expr, ExprKind, NodeId, Span, Spanned, Stmt, StmtKind, Type};
use crate::text::{dec, push_decimal, string_of};
use crate::visitor::{
    expr_size, exprs_size, fields_size, lemma_exprs_size_elem, lemma_fields_size_elem, lemma_stmts_size_elem,
    stmt_size, stmts_size,
};

verus! {

/// Where a local lives: its offset below the frame pointer `rE` (a negative
/// offset is above it), and how many words it takes.
#[derive(Debug, Clone, Copy)]
pub struct VariableLocation {
    pub offset: i16,
    pub size: u16,
}

/// The state of code generation: the code so far, the `.const` directives,
/// the names of constants, the number of labels made, the scopes of locals
/// (innermost last), the offset of the next local, and the net number of
/// words the code emitted so far pushes (each `psh` line counts one up, each
/// `pop` line one down).
pub ghost struct GenState {
    pub output: Seq<char>,
    pub directives: Seq<char>,
    pub consts: Set<Seq<char>>,
    pub labels: nat,
    pub scopes: Seq<Map<Seq<char>, VariableLocation>>,
    pub offset: i16,
    pub depth: int,
}

/// The code every program starts with: call `main`, then halt.
pub open spec fn prologue() -> Seq<char> {
    "!start\n  cal !main\n  jmp !halt\n!halt\n  jmp !halt\n"@
}

/// An instruction line: indented, ended by a newline.
pub open spec fn line(ins: Seq<char>) -> Seq<char> {
    "    "@ + ins + "\n"@
}

/// What an instruction does to the stack: a `psh` pushes one word, a `pop`
/// pops one, any other instruction neither.
pub open spec fn stack_delta(ins: Seq<char>) -> int {
    if ins.len() >= 4 && ins[0] == 'p' && ins[1] == 's' && ins[2] == 'h' && ins[3] == ' ' {
        1
    } else if ins.len() >= 4 && ins[0] == 'p' && ins[1] == 'o' && ins[2] == 'p' && ins[3] == ' ' {
        -1
    } else {
        0
    }
}

pub open spec fn emit(st: GenState, ins: Seq<char>) -> GenState {
    GenState { output: st.output + line(ins), depth: st.depth + stack_delta(ins), ..st }
}

pub open spec fn emit_label(st: GenState, label: Seq<char>) -> GenState {
    GenState { output: st.output + label + "\n"@, ..st }
}

/// Emits the same instruction `k` times.
pub open spec fn emit_n(st: GenState, ins: Seq<char>, k: nat) -> GenState
    decreases k,
{
    if k == 0 {
        st
    } else {
        emit(emit_n(st, ins, (k - 1) as nat), ins)
    }
}

/// The `n`-th label, named after its use: `!prefix_n`.
pub open spec fn label_name(prefix: Seq<char>, n: nat) -> Seq<char> {
    "!"@ + prefix + "_"@ + dec(n)
}

/// Whether `k` more labels can be counted.
pub open spec fn labels_left(st: GenState, k: nat) -> bool {
    st.labels + k <= usize::MAX
}

pub open spec fn take_labels(st: GenState, k: nat) -> GenState {
    GenState { labels: st.labels + k, ..st }
}

/// A decimal number with its sign.
pub open spec fn sdec(x: int) -> Seq<char> {
    if x < 0 {
        "-"@ + dec((-x) as nat)
    } else {
        dec(x as nat)
    }
}

/// The memory operand of a local at the given offset from `rE`.
pub open spec fn frame_addr(offset: int) -> Seq<char> {
    if offset < 0 {
        "[rE + "@ + dec((-offset) as nat) + "]"@
    } else {
        "[rE - "@ + dec(offset as nat) + "]"@
    }
}

/// Whether an offset's operand can be written: its negation must be an `i16`.
pub open spec fn addressable(offset: i16) -> bool {
    offset != i16::MIN
}

/// A size as an `i16` offset step (sizes above `i16::MAX` wrap around).
pub open spec fn size_step(size: u16) -> int {
    if size < 0x8000 {
        size as int
    } else {
        size - 0x10000
    }
}

pub open spec fn fits_i16(x: int) -> bool {
    i16::MIN <= x <= i16::MAX
}

/// Binds a name in the innermost scope.
pub open spec fn bind(st: GenState, name: Seq<char>, loc: VariableLocation) -> GenState {
    GenState {
        scopes: st.scopes.update(st.scopes.len() - 1, st.scopes.last().insert(name, loc)),
        ..st
    }
}

/// Allocates a local of the given size at the next offset.
pub open spec fn insert_var(st: GenState, name: Seq<char>, size: u16) -> Option<GenState> {
    let next = st.offset + size_step(size);
    if fits_i16(next) {
        Some(
            GenState {
                offset: next as i16,
                ..bind(st, name, VariableLocation { offset: st.offset, size })
            },
        )
    } else {
        None
    }
}

pub open spec fn open_scope(st: GenState) -> GenState {
    GenState { scopes: st.scopes.push(Map::empty()), ..st }
}

pub open spec fn close_scope(st: GenState) -> GenState {
    GenState { scopes: st.scopes.drop_last(), ..st }
}

/// Pushes a name's value: a constant by name, a local from its slot; a name
/// that is neither emits nothing.
pub open spec fn gen_ident(st: GenState, name: Seq<char>) -> Option<GenState> {
    if st.consts.contains(name) {
        Some(emit(emit(st, "set rA, "@ + name), "psh rA"@))
    } else {
        match find(st.scopes, name) {
            Some(loc) => if addressable(loc.offset) {
                Some(emit(emit(st, "lod rA, "@ + frame_addr(loc.offset as int)), "psh rA"@))
            } else {
                None
            },
            None => Some(st),
        }
    }
}

/// `++x` / `x++` (or `--x` / `x--` where `step` is `"sub rA, 1"`) on a local:
/// the prefix form pushes the new value, the postfix form the old one.
pub open spec fn gen_step(st: GenState, prefix: bool, target: Expr, step: Seq<char>) -> Option<GenState> {
    match target.node {
        ExprKind::Ident(name) => match find(st.scopes, name@) {
            Some(loc) => if addressable(loc.offset) {
                let addr = frame_addr(loc.offset as int);
                let s1 = emit(st, "lod rA, "@ + addr);
                let s2 = if !prefix {
                    emit(s1, "psh rA"@)
                } else {
                    s1
                };
                let s3 = emit(emit(s2, step), "str "@ + addr + ", rA"@);
                Some(
                    if prefix {
                        emit(s3, "psh rA"@)
                    } else {
                        s3
                    },
                )
            } else {
                None
            },
            None => None,
        },
        _ => None,
    }
}

/// `&x` of a local: its address, `rE` minus its offset.
pub open spec fn gen_address_of(st: GenState, rhs: Expr) -> Option<GenState> {
    match rhs.node {
        ExprKind::Ident(name) => match find(st.scopes, name@) {
            Some(loc) => {
                let s1 = emit(st, "set rA, rE"@);
                let s2 = if loc.offset != 0 {
                    emit(s1, "sub rA, "@ + sdec(loc.offset as int))
                } else {
                    s1
                };
                Some(emit(s2, "psh rA"@))
            },
            None => None,
        },
        _ => None,
    }
}

/// A boolean result in `rA`: jump to `l_true` on a true condition, else set
/// `rA` to 0 and jump past; at `l_true` set it to 1.
pub open spec fn bool_result(st: GenState, jump: Seq<char>, l_true: Seq<char>, l_end: Seq<char>) -> GenState {
    emit_label(
        emit(
            emit_label(emit(emit(emit(st, jump + " "@ + l_true), "set rA, 0"@), "jmp "@ + l_end), l_true),
            "set rA, 1"@,
        ),
        l_end,
    )
}

/// What a unary operator does with its operand in `rA` (popped), up to
/// pushing the result.
pub open spec fn unary_op_code(st: GenState, op: TokenKind) -> Option<GenState> {
    match op {
        TokenKind::Minus => Some(emit(st, "neg rA"@)),
        TokenKind::Bang => if labels_left(st, 2) {
            Some(
                bool_result(
                    emit(take_labels(st, 2), "cmp rA, rZ"@),
                    "je"@,
                    label_name("not_true"@, st.labels),
                    label_name("not_end"@, st.labels + 1),
                ),
            )
        } else {
            None
        },
        TokenKind::Star => Some(emit(st, "lod rA, [rA]"@)),
        TokenKind::BitNot => Some(emit(st, "xor rA, 65535"@)),
        _ => None,
    }
}

/// The conditional jump of a comparison.
pub open spec fn jump_of(op: TokenKind) -> Seq<char> {
    match op {
        TokenKind::Equality => "je"@,
        TokenKind::BangEqual => "jne"@,
        TokenKind::Gt => "jg"@,
        TokenKind::Gte => "jge"@,
        TokenKind::Lt => "jl"@,
        _ => "jle"@,
    }
}

/// What a binary operator does with its operands in `rA` and `rB`, up to
/// pushing the result.
pub open spec fn binary_op_code(st: GenState, op: TokenKind) -> Option<GenState> {
    match op {
        TokenKind::Plus => Some(emit(st, "add rA, rB"@)),
        TokenKind::Minus => Some(emit(st, "sub rA, rB"@)),
        TokenKind::Star => Some(emit(st, "mpy rA, rB"@)),
        TokenKind::Slash => Some(emit(st, "div rA, rB"@)),
        TokenKind::Percent => Some(emit(st, "mod rA, rB"@)),
        TokenKind::BitAnd => Some(emit(st, "and rA, rB"@)),
        TokenKind::BitOr => Some(emit(st, "or rA, rB"@)),
        TokenKind::BitXor => Some(emit(st, "xor rA, rB"@)),
        TokenKind::LeftShift => Some(emit(emit(st, "neg rB"@), "shf rA, rB"@)),
        TokenKind::RightShift => Some(emit(st, "shf rA, rB"@)),
        TokenKind::Equality | TokenKind::BangEqual | TokenKind::Gt | TokenKind::Gte
        | TokenKind::Lt | TokenKind::Lte => if labels_left(st, 2) {
            Some(
                bool_result(
                    emit(take_labels(st, 2), "cmp rA, rB"@),
                    jump_of(op),
                    label_name("cmp_true"@, st.labels),
                    label_name("cmp_end"@, st.labels + 1),
                ),
            )
        } else {
            None
        },
        _ => None,
    }
}

/// Whether an operator is `&&` or `||`, whose right operand runs only when
/// the left one does not decide the result.
pub open spec fn is_logic(op: TokenKind) -> bool {
    op is And || op is Or
}

/// The jump taken when an operand of `op` decides the result: `&&` on a
/// false (zero) value, `||` on a true one.
pub open spec fn logic_jump(op: TokenKind) -> Seq<char> {
    if op is And {
        "je "@
    } else {
        "jne "@
    }
}

/// The label jumped to when an operand decides: `!and_false_n` / `!or_true_n`.
pub open spec fn logic_skip_label(op: TokenKind, n: nat) -> Seq<char> {
    if op is And {
        label_name("and_false"@, n)
    } else {
        label_name("or_true"@, n)
    }
}

/// The label after the result: `!and_end_n` / `!or_end_n`.
pub open spec fn logic_end_label(op: TokenKind, n: nat) -> Seq<char> {
    if op is And {
        label_name("and_end"@, n)
    } else {
        label_name("or_end"@, n)
    }
}

/// The result when neither operand decided: 1 for `&&`, 0 for `||`.
pub open spec fn logic_fall(op: TokenKind) -> Seq<char> {
    if op is And {
        "set rA, 1"@
    } else {
        "set rA, 0"@
    }
}

/// The result when an operand decided: 0 for `&&`, 1 for `||`.
pub open spec fn logic_decided(op: TokenKind) -> Seq<char> {
    if op is And {
        "set rA, 0"@
    } else {
        "set rA, 1"@
    }
}

/// Pops an operand's value and jumps to `l_skip` when it decides the result.
pub open spec fn logic_test(st: GenState, op: TokenKind, l_skip: Seq<char>) -> GenState {
    emit(emit(emit(st, "pop rA"@), "cmp rA, rZ"@), logic_jump(op) + l_skip)
}

/// After both tests: the undecided result, a jump past the decided one, the
/// decided result at `l_skip`, and `l_end`; then the result is pushed.
pub open spec fn logic_result(st: GenState, op: TokenKind, l_skip: Seq<char>, l_end: Seq<char>) -> GenState {
    emit(
        emit_label(
            emit(emit_label(emit(emit(st, logic_fall(op)), "jmp "@ + l_end), l_skip), logic_decided(op)),
            l_end,
        ),
        "psh rA"@,
    )
}

/// Pops the register arguments, pushed third first: the first into `rA`,
/// the second into `rB`, the third into `rC`, those that there are.
pub open spec fn reg_pops(st: GenState, n: nat) -> GenState {
    let s1 = if n > 0 {
        emit(st, "pop rA"@)
    } else {
        st
    };
    let s2 = if n > 1 {
        emit(s1, "pop rB"@)
    } else {
        s1
    };
    if n > 2 {
        emit(s2, "pop rC"@)
    } else {
        s2
    }
}

/// The code of an expression, which pushes its value.
pub open spec fn gen_expr(st: GenState, e: Expr) -> Option<GenState>
    decreases e, 0nat,
{
    match e.node {
        ExprKind::Integer(i) => Some(emit(emit(st, "set rA, "@ + dec(i as nat)), "psh rA"@)),
        ExprKind::Bool(b) => Some(
            emit(
                emit(
                    st,
                    "set rA, "@ + if b {
                        "1"@
                    } else {
                        "0"@
                    },
                ),
                "psh rA"@,
            ),
        ),
        ExprKind::Ident(name) => gen_ident(st, name@),
        ExprKind::Array(items) => {
            proof {
                assert(decreases_to!(e.node => items));
            }
            gen_exprs(st, items@, 0)
        },
        ExprKind::Increment { prefix, expr } => gen_step(st, prefix, *expr, "add rA, 1"@),
        ExprKind::Decrement { prefix, expr } => gen_step(st, prefix, *expr, "sub rA, 1"@),
        ExprKind::Unary { op, rhs } => if op is BitAnd {
            gen_address_of(st, *rhs)
        } else {
            match gen_expr(st, *rhs) {
                Some(s1) => match unary_op_code(emit(s1, "pop rA"@), op) {
                    Some(s2) => Some(emit(s2, "psh rA"@)),
                    None => None,
                },
                None => None,
            }
        },
        ExprKind::Binary { lhs, op, rhs } => match gen_expr(st, *lhs) {
            Some(s1) => if is_logic(op) {
                if labels_left(s1, 2) {
                    let l_skip = logic_skip_label(op, s1.labels);
                    let l_end = logic_end_label(op, s1.labels + 1);
                    match gen_expr(logic_test(take_labels(s1, 2), op, l_skip), *rhs) {
                        Some(s2) => Some(logic_result(logic_test(s2, op, l_skip), op, l_skip, l_end)),
                        None => None,
                    }
                } else {
                    None
                }
            } else {
                match gen_expr(s1, *rhs) {
                    Some(s2) => match binary_op_code(emit(emit(s2, "pop rB"@), "pop rA"@), op) {
                        Some(s3) => Some(emit(s3, "psh rA"@)),
                        None => None,
                    },
                    None => None,
                }
            },
            None => None,
        },
        ExprKind::Assignment { target, value } => match gen_expr(st, *value) {
            Some(s1) => match target.node {
                ExprKind::Ident(name) => match find(s1.scopes, name@) {
                    Some(loc) => if addressable(loc.offset) {
                        Some(
                            emit(
                                emit(emit(s1, "pop rA"@), "str "@ + frame_addr(loc.offset as int) + ", rA"@),
                                "psh rA"@,
                            ),
                        )
                    } else {
                        None
                    },
                    None => Some(s1),
                },
                ExprKind::Unary { op, rhs } => if op is Star {
                    match gen_expr(s1, *rhs) {
                        Some(s2) => Some(
                            emit(
                                emit(emit(emit(s2, "pop rB"@), "pop rA"@), "str [rB], rA"@),
                                "psh rA"@,
                            ),
                        ),
                        None => None,
                    }
                } else {
                    None
                },
                _ => None,
            },
            None => None,
        },
        ExprKind::Call { callee, args } => {
            proof {
                assert(decreases_to!(e.node => args));
            }
            let n = args@.len();
            match gen_stack_args(st, args@, n as int) {
                Some(s1) => match gen_reg_args(s1, args@, reg_count(n as int)) {
                    Some(s2) => match callee.node {
                        ExprKind::Ident(name) => {
                            let s5 = emit(reg_pops(s2, n), "cal !"@ + name@);
                            let s6 = if n > 3 {
                                emit_n(s5, "pop rB"@, (n - 3) as nat)
                            } else {
                                s5
                            };
                            Some(emit(s6, "psh rA"@))
                        },
                        _ => None,
                    },
                    None => None,
                },
                None => None,
            }
        },
        ExprKind::Subscript { array, index } => match gen_expr(st, *array) {
            Some(s1) => gen_expr(s1, *index),
            None => None,
        },
        ExprKind::MemberAccess { object, .. } => gen_expr(st, *object),
        ExprKind::StaticAccess { target, .. } => gen_expr(st, *target),
        ExprKind::StructInit { name, fields } => match gen_expr(st, *name) {
            Some(s1) => {
                proof {
                    assert(decreases_to!(e.node => fields));
                }
                gen_fields(s1, fields@, 0)
            },
            None => None,
        },
    }
}

/// The code of the expressions of a list from index `i` on, in order.
pub open spec fn gen_exprs(st: GenState, es: Seq<Expr>, i: int) -> Option<GenState>
    decreases es, es.len() - i,
{
    if i < 0 || i >= es.len() {
        Some(st)
    } else {
        match gen_expr(st, es[i]) {
            Some(s1) => gen_exprs(s1, es, i + 1),
            None => None,
        }
    }
}

/// The code of the values of a struct literal's fields from index `i` on, in order.
pub open spec fn gen_fields(st: GenState, fs: Seq<(String, Expr)>, i: int) -> Option<GenState>
    decreases fs, fs.len() - i,
{
    if i < 0 || i >= fs.len() {
        Some(st)
    } else {
        proof {
            assert(decreases_to!(fs => fs[i]));
        }
        match gen_expr(st, fs[i].1) {
            Some(s1) => gen_fields(s1, fs, i + 1),
            None => None,
        }
    }
}

/// The arguments past the third go on the stack, pushed last first:
/// `args[n-1]`, ..., `args[3]`.
pub open spec fn gen_stack_args(st: GenState, args: Seq<Expr>, n: int) -> Option<GenState>
    decreases args, n,
{
    if n <= 3 || n > args.len() {
        Some(st)
    } else {
        match gen_expr(st, args[n - 1]) {
            Some(s1) => gen_stack_args(s1, args, n - 1),
            None => None,
        }
    }
}

/// The number of register arguments: the first three, those that there are.
pub open spec fn reg_count(n: int) -> int {
    if n < 3 {
        n
    } else {
        3
    }
}

/// The register arguments below index `k` are computed last first
/// (`args[k-1]`, ..., `args[0]`), each pushing its value.
pub open spec fn gen_reg_args(st: GenState, args: Seq<Expr>, k: int) -> Option<GenState>
    decreases args, k,
{
    if k <= 0 || k > args.len() {
        Some(st)
    } else {
        match gen_expr(st, args[k - 1]) {
            Some(s1) => gen_reg_args(s1, args, k - 1),
            None => None,
        }
    }
}

/// An expression node with no span or identity, which code generation does
/// not look at.
pub open spec fn bare_expr(k: ExprKind) -> Expr {
    Spanned { node: k, span: Span { start: 0, end: 0 }, id: NodeId(0) }
}

/// A statement node with no span or identity, for the kinds whose code does
/// not depend on them.
pub open spec fn bare_stmt(k: StmtKind) -> Stmt {
    Spanned { node: k, span: Span { start: 0, end: 0 }, id: NodeId(0) }
}

/// The code of `op rhs`: that of the node (see [`gen_expr`]).
pub open spec fn gen_unary(st: GenState, op: TokenKind, rhs: Expr) -> Option<GenState> {
    gen_expr(st, bare_expr(ExprKind::Unary { op, rhs: Box::new(rhs) }))
}

/// The code of `lhs op rhs`: that of the node (see [`gen_expr`]). Both
/// operands of an arithmetic, bitwise or comparison operator are pushed, then
/// popped into `rA` and `rB`. `&&` and `||` short-circuit: the left operand is
/// tested first, and when it decides the result the right operand's code is
/// jumped over.
pub open spec fn gen_binary(st: GenState, lhs: Expr, op: TokenKind, rhs: Expr) -> Option<GenState> {
    gen_expr(st, bare_expr(ExprKind::Binary { lhs: Box::new(lhs), op, rhs: Box::new(rhs) }))
}

/// The code of `target = value`: that of the node (see [`gen_expr`]). The
/// value is stored in a local's slot or through a pointer, and stays pushed.
pub open spec fn gen_assignment(st: GenState, target: Expr, value: Expr) -> Option<GenState> {
    gen_expr(st, bare_expr(ExprKind::Assignment { target: Box::new(target), value: Box::new(value) }))
}

/// The code of a call: that of the node (see [`gen_expr`]). Arguments past
/// the third are pushed last first; then the first three are computed, also
/// last first, and only then popped into `rA`, `rB`, `rC`, so that at the
/// `cal` they hold the first, second and third arguments; after the call the
/// stack arguments are dropped and the result in `rA` is pushed.
pub open spec fn gen_call(st: GenState, callee: Expr, args: Vec<Expr>) -> Option<GenState> {
    gen_expr(st, bare_expr(ExprKind::Call { callee: Box::new(callee), args }))
}

/// The value of a constant's literal initializer: a number, or 1 / 0 for a boolean.
pub open spec fn const_value(k: ExprKind) -> Option<u16> {
    match k {
        ExprKind::Integer(i) => Some(i),
        ExprKind::Bool(b) => Some(
            if b {
                1u16
            } else {
                0u16
            },
        ),
        _ => None,
    }
}

/// The size of a declared variable: that of the type recorded for the
/// declaration, or one word where none is.
pub open spec fn var_size(tm: Map<usize, Type>, id: NodeId) -> u16 {
    if tm.contains_key(id.0) {
        type_size(tm[id.0])
    } else {
        1
    }
}

/// A declaration: a constant becomes a `.const` directive; a variable's value
/// is pushed and becomes its slot.
pub open spec fn gen_var_decl(
    st: GenState,
    tm: Map<usize, Type>,
    id: NodeId,
    name: Seq<char>,
    value: Expr,
    mutable: bool,
) -> Option<GenState> {
    if !mutable {
        match const_value(value.node) {
            Some(v) => Some(
                GenState {
                    directives: st.directives + ".const "@ + name + " "@ + dec(v as nat) + "\n"@,
                    consts: st.consts.insert(name),
                    ..st
                },
            ),
            None => None,
        }
    } else {
        match gen_expr(st, value) {
            Some(s1) => insert_var(s1, name, var_size(tm, id)),
            None => None,
        }
    }
}

/// The epilogue of a function: restore the caller's frame and return.
pub open spec fn gen_leave(st: GenState) -> GenState {
    emit(emit(emit(st, "set SP, rE"@), "pop rE"@), "ret"@)
}

/// The first three parameters arrive in `rA`, `rB`, `rC` and are pushed as
/// locals; each later one is on the stack above the saved frame pointer and
/// the return address, from `[rE + 3]` up.
pub open spec fn gen_params(st: GenState, ps: Seq<(String, Type)>, i: int, stack_offset: int) -> Option<GenState>
    decreases ps.len() - i,
{
    if i < 0 || i >= ps.len() {
        Some(st)
    } else if i < 3 {
        let reg = if i == 0 {
            "psh rA"@
        } else if i == 1 {
            "psh rB"@
        } else {
            "psh rC"@
        };
        match insert_var(emit(st, reg), ps[i].0@, type_size(ps[i].1)) {
            Some(s1) => gen_params(s1, ps, i + 1, stack_offset),
            None => None,
        }
    } else {
        let next = stack_offset + size_step(type_size(ps[i].1));
        if fits_i16(-stack_offset) && fits_i16(next) {
            gen_params(
                bind(st, ps[i].0@, VariableLocation { offset: (-stack_offset) as i16, size: type_size(ps[i].1) }),
                ps,
                i + 1,
                next,
            )
        } else {
            None
        }
    }
}

/// The code of a statement.
pub open spec fn gen_stmt(st: GenState, tm: Map<usize, Type>, s: Stmt) -> Option<GenState>
    decreases s,
{
    match s.node {
        StmtKind::VarDecl { name, value, mutable, .. } => gen_var_decl(st, tm, s.id, name@, value, mutable),
        StmtKind::Expr(e) => match gen_expr(st, e) {
            Some(s1) => Some(emit(s1, "pop rB"@)),
            None => None,
        },
        StmtKind::Block(stmts) => match gen_stmts(open_scope(st), tm, stmts@, 0) {
            Some(s1) => {
                let locals = s1.offset - st.offset;
                if fits_i16(locals) {
                    let s2 = if locals > 0 {
                        emit_n(s1, "pop rB"@, locals as nat)
                    } else {
                        s1
                    };
                    Some(close_scope(GenState { offset: st.offset, ..s2 }))
                } else {
                    None
                }
            },
            None => None,
        },
        StmtKind::Return(e) => match e {
            Some(e) => match gen_expr(st, e) {
                Some(s1) => Some(gen_leave(emit(s1, "pop rA"@))),
                None => None,
            },
            None => Some(gen_leave(st)),
        },
        StmtKind::If { cond, then_branch, else_branch } => match gen_expr(st, cond) {
            Some(s1) => {
                let s2 = emit(emit(s1, "pop rA"@), "cmp rA, rZ"@);
                if labels_left(s2, 2) {
                    let l_else = label_name("if_else"@, s2.labels);
                    let l_end = label_name("if_end"@, s2.labels + 1);
                    match gen_stmt(emit(take_labels(s2, 2), "je "@ + l_else), tm, *then_branch) {
                        Some(s3) => {
                            let s4 = emit_label(emit(s3, "jmp "@ + l_end), l_else);
                            let s5 = match else_branch {
                                Some(b) => gen_stmt(s4, tm, *b),
                                None => Some(s4),
                            };
                            match s5 {
                                Some(s6) => Some(emit_label(s6, l_end)),
                                None => None,
                            }
                        },
                        None => None,
                    }
                } else {
                    None
                }
            },
            None => None,
        },
        StmtKind::While { cond, body } => if labels_left(st, 2) {
            let l_start = label_name("while_start"@, st.labels);
            let l_end = label_name("while_end"@, st.labels + 1);
            match gen_expr(emit_label(take_labels(st, 2), l_start), cond) {
                Some(s1) => match gen_stmt(
                    emit(emit(emit(s1, "pop rA"@), "cmp rA, rZ"@), "je "@ + l_end),
                    tm,
                    *body,
                ) {
                    Some(s2) => Some(emit_label(emit(s2, "jmp "@ + l_start), l_end)),
                    None => None,
                },
                None => None,
            }
        } else {
            None
        },
        StmtKind::Fn { name, params, body, .. } => {
            let s1 = emit(emit(emit_label(st, "!"@ + name@), "psh rE"@), "set rE, SP"@);
            match gen_params(GenState { offset: 0, ..open_scope(s1) }, params@, 0, 3) {
                Some(s2) => match gen_stmt(s2, tm, *body) {
                    Some(s3) => Some(close_scope(gen_leave(s3))),
                    None => None,
                },
                None => None,
            }
        },
        StmtKind::Struct { members, .. } => gen_stmts(st, tm, members@, 0),
        StmtKind::StructField { .. } => Some(st),
    }
}

/// The code of `if (cond) then_branch else else_branch`: that of the node
/// (see [`gen_stmt`]).
pub open spec fn gen_if(st: GenState, tm: Map<usize, Type>, cond: Expr, then_branch: Stmt, else_branch: Option<&Stmt>) -> Option<GenState> {
    gen_stmt(
        st,
        tm,
        bare_stmt(
            StmtKind::If {
                cond,
                then_branch: Box::new(then_branch),
                else_branch: match else_branch {
                    Some(b) => Some(Box::new(*b)),
                    None => None,
                },
            },
        ),
    )
}

/// The code of `while (cond) body`: that of the node (see [`gen_stmt`]).
pub open spec fn gen_while(st: GenState, tm: Map<usize, Type>, cond: Expr, body: Stmt) -> Option<GenState> {
    gen_stmt(st, tm, bare_stmt(StmtKind::While { cond, body: Box::new(body) }))
}

/// The code of a block: that of the node (see [`gen_stmt`]).
pub open spec fn gen_block(st: GenState, tm: Map<usize, Type>, stmts: Vec<Stmt>) -> Option<GenState> {
    gen_stmt(st, tm, bare_stmt(StmtKind::Block(stmts)))
}

/// The code of a function declaration: that of the node (see [`gen_stmt`]).
pub open spec fn gen_fn(st: GenState, tm: Map<usize, Type>, name: String, params: Vec<(String, Type)>, body: Stmt) -> Option<GenState> {
    gen_stmt(st, tm, bare_stmt(StmtKind::Fn { name, params, return_type: None, body: Box::new(body) }))
}

/// The code of a `return`: that of the node (see [`gen_stmt`]); the types of
/// the nodes play no part in it.
pub open spec fn gen_return(st: GenState, e: Option<Expr>) -> Option<GenState> {
    gen_stmt(st, Map::empty(), bare_stmt(StmtKind::Return(e)))
}

/// The code of the statements of a list from index `i` on, in order.
pub open spec fn gen_stmts(st: GenState, tm: Map<usize, Type>, ss: Seq<Stmt>, i: int) -> Option<GenState>
    decreases ss, ss.len() - i,
{
    if i < 0 || i >= ss.len() {
        Some(st)
    } else {
        match gen_stmt(st, tm, ss[i]) {
            Some(s1) => gen_stmts(s1, tm, ss, i + 1),
            None => None,
        }
    }
}

} // verus!

verus! {

/// `a` followed by `b`.
fn join(a: &str, b: &str) -> (r: String)
    ensures
        r@ == a@ + b@,
{
    let mut r = string_of(a);
    r.append(b);
    r
}

/// `prefix` followed by the decimal digits of `n`.
fn join_number(prefix: &str, n: u64) -> (r: String)
    ensures
        r@ == prefix@ + dec(n as nat),
{
    let mut r = string_of(prefix);
    push_decimal(&mut r, n);
    r
}

/// `prefix` followed by `x` in decimal, with a minus sign if it is negative.
fn join_signed(prefix: &str, x: i16) -> (r: String)
    ensures
        r@ == prefix@ + sdec(x as int),
{
    let mut r = string_of(prefix);
    if x < 0 {
        r.append("-");
        let m: i32 = -(x as i32);
        push_decimal(&mut r, m as u64);
        proof {
            assert(r@ =~= prefix@ + sdec(x as int));
        }
    } else {
        push_decimal(&mut r, x as u64);
    }
    r
}

/// The step by which a local of the given size moves the next offset: the
/// size as an `i16`, wrapping around above `i16::MAX`.
fn size_as_step(size: u16) -> (r: i16)
    ensures
        r as int == size_step(size),
{
    let r: i16 = if size < 0x8000 {
        size as i16
    } else {
        (size - 0x8000) as i16 - 0x7fff - 1
    };
    r
}

pub struct CodeGenerator {
    pub output: String,
    const_directives: String,
    consts: StringHashSet,
    label_count: usize,
    type_map: TypeMap,
    scopes: Vec<StringHashMap<VariableLocation>>,
    current_local_offset: i16,
    depth: Ghost<int>,
}

impl CodeGenerator {
    pub closed spec fn state(&self) -> GenState {
        GenState {
            output: self.output@,
            directives: self.const_directives@,
            consts: self.consts@,
            labels: self.label_count as nat,
            scopes: self.scopes@.map_values(|m: StringHashMap<VariableLocation>| m@),
            offset: self.current_local_offset,
            depth: self.depth@,
        }
    }

    /// The types recorded by the type checker, by node id.
    pub closed spec fn types(&self) -> Map<usize, Type> {
        self.type_map@
    }

    /// There is always at least one scope.
    pub open spec fn wf(&self) -> bool {
        self.state().scopes.len() >= 1
    }

    pub fn new(type_map: TypeMap) -> (r: Self)
        ensures
            r.wf(),
            r.types() == type_map@,
            r.state() == (GenState {
                output: prologue(),
                directives: Seq::<char>::empty(),
                consts: Set::<Seq<char>>::empty(),
                labels: 0,
                scopes: seq![Map::<Seq<char>, VariableLocation>::empty()],
                offset: 0,
                depth: 0,
            }),
    {
        let prologue = "!start\n  cal !main\n  jmp !halt\n!halt\n  jmp !halt\n";
        let mut scopes: Vec<StringHashMap<VariableLocation>> = Vec::new();
        scopes.push(StringHashMap::new());
        let r = Self {
            output: string_of(prologue),
            const_directives: String::new(),
            consts: StringHashSet::new(),
            label_count: 0,
            type_map,
            scopes,
            current_local_offset: 0,
            depth: Ghost(0),
        };
        proof {
            assert(r.state().scopes =~= seq![Map::<Seq<char>, VariableLocation>::empty()]);
        }
        r
    }

    /// The code generated so far (the `output` field).
    pub fn output(&self) -> (r: &String)
        ensures
            r@ == self.state().output,
    {
        &self.output
    }

    /// The whole program: the `.const` directives, then the code.
    pub fn into_output(self) -> (r: String)
        ensures
            r@ == self.state().directives + self.state().output,
    {
        let mut r = self.const_directives;
        r.append(self.output.as_str());
        r
    }

    pub fn emit(&mut self, instruction: &str)
        ensures
            final(self).state() == emit(old(self).state(), instruction@),
            final(self).types() == old(self).types(),
    {
        self.output.append("    ");
        self.output.append(instruction);
        self.output.append("\n");
        self.depth = Ghost(self.depth@ + stack_delta(instruction@));
        proof {
            assert(self.output@ =~= old(self).output@ + line(instruction@));
        }
    }

    pub fn emit_label(&mut self, label: &str)
        ensures
            final(self).state() == emit_label(old(self).state(), label@),
            final(self).types() == old(self).types(),
    {
        self.output.append(label);
        self.output.append("\n");
        proof {
            assert(self.output@ =~= old(self).output@ + label@ + "\n"@);
        }
    }

    /// A fresh label, `!prefix_n` for the number `n` of labels made before.
    pub fn next_label(&mut self, prefix: &str) -> (label: String)
        requires
            old(self).state().labels < usize::MAX,
        ensures
            label@ == label_name(prefix@, old(self).state().labels),
            final(self).state() == take_labels(old(self).state(), 1),
            final(self).types() == old(self).types(),
    {
        let mut label = join("!", prefix);
        label.append("_");
        push_decimal(&mut label, self.label_count as u64);
        self.label_count += 1;
        proof {
            assert(label@ =~= label_name(prefix@, old(self).state().labels));
        }
        label
    }

    pub fn enter_scope(&mut self)
        ensures
            final(self).state() == open_scope(old(self).state()),
            final(self).types() == old(self).types(),
    {
        self.scopes.push(StringHashMap::new());
        proof {
            assert(self.state().scopes =~= open_scope(old(self).state()).scopes);
        }
    }

    /// Leaves the innermost scope; with no scope left there is nothing to leave.
    pub fn exit_scope(&mut self)
        ensures
            old(self).state().scopes.len() > 0 ==> final(self).state() == close_scope(old(self).state()),
            old(self).state().scopes.len() == 0 ==> final(self).state() == old(self).state(),
            final(self).types() == old(self).types(),
    {
        self.scopes.pop();
        proof {
            if old(self).state().scopes.len() > 0 {
                assert(self.state().scopes =~= close_scope(old(self).state()).scopes);
            } else {
                assert(self.state().scopes =~= old(self).state().scopes);
            }
        }
    }

    /// Binds a name in the innermost scope.
    fn bind(&mut self, name: String, loc: VariableLocation)
        requires
            old(self).wf(),
        ensures
            final(self).state() == bind(old(self).state(), name@, loc),
            final(self).types() == old(self).types(),
    {
        let last = self.scopes.len() - 1;
        let ghost raw = self.state().scopes;
        let ghost key = name@;
        let mut top = self.scopes.pop().unwrap();
        top.insert(name, loc);
        self.scopes.push(top);
        proof {
            assert(self.state().scopes =~= raw.update(last as int, raw.last().insert(key, loc)));
        }
    }

    /// Allocates a local of the given size at the next offset.
    pub fn insert_var(&mut self, name: String, size: u16)
        requires
            old(self).wf(),
            insert_var(old(self).state(), name@, size) is Some,
        ensures
            final(self).state() == insert_var(old(self).state(), name@, size)->0,
            final(self).types() == old(self).types(),
    {
        let loc = VariableLocation { offset: self.current_local_offset, size };
        let step = size_as_step(size);
        self.current_local_offset = self.current_local_offset + step;
        self.bind(name, loc);
    }

    /// Whether a local of the given size can be allocated: the next offset
    /// must stay an `i16`.
    fn can_insert_var(&self, size: u16) -> (r: bool)
        ensures
            r == fits_i16(self.state().offset + size_step(size)),
    {
        let next: i32 = self.current_local_offset as i32 + size_as_step(size) as i32;
        -32768 <= next && next <= 32767
    }

    /// The innermost local with the given name.
    pub fn lookup_var(&self, name: &str) -> (r: Option<&VariableLocation>)
        ensures
            match r {
                Some(loc) => find(self.state().scopes, name@) == Some(*loc),
                None => find(self.state().scopes, name@) is None,
            },
    {
        let ghost scopes = self.state().scopes;
        let mut i: usize = self.scopes.len();
        proof {
            assert(scopes.subrange(0, i as int) =~= scopes);
        }
        while i > 0
            invariant
                i <= self.scopes@.len(),
                scopes == self.state().scopes,
                find(scopes, name@) == find(scopes.subrange(0, i as int), name@),
            decreases i,
        {
            proof {
                assert(scopes.subrange(0, i as int).drop_last() =~= scopes.subrange(0, i - 1));
            }
            if let Some(loc) = self.scopes[i - 1].get(name) {
                return Some(loc);
            }
            i -= 1;
        }
        None
    }

    /// Pushes an integer literal.
    pub fn visit_integer(&mut self, _span: Span, i: u16)
        ensures
            final(self).state() == emit(emit(old(self).state(), "set rA, "@ + dec(i as nat)), "psh rA"@),
            final(self).types() == old(self).types(),
    {
        let ins = join_number("set rA, ", i as u64);
        self.emit(ins.as_str());
        self.emit("psh rA");
    }

    /// Pushes a boolean literal as 1 or 0.
    pub fn visit_bool(&mut self, _span: Span, b: bool)
        ensures
            final(self).state() == emit(
                emit(
                    old(self).state(),
                    "set rA, "@ + if b {
                        "1"@
                    } else {
                        "0"@
                    },
                ),
                "psh rA"@,
            ),
            final(self).types() == old(self).types(),
    {
        let ins = join("set rA, ", if b { "1" } else { "0" });
        self.emit(ins.as_str());
        self.emit("psh rA");
    }

    /// Pushes a name's value (see [`gen_ident`]).
    pub fn visit_ident(&mut self, _span: Span, ident: &String) -> (ok: bool)
        ensures
            ok == gen_ident(old(self).state(), ident@) is Some,
            ok ==> final(self).state() == gen_ident(old(self).state(), ident@)->0,
            final(self).state().scopes == old(self).state().scopes,
            final(self).state().offset == old(self).state().offset,
            final(self).types() == old(self).types(),
    {
        if self.consts.contains(ident.as_str()) {
            let ins = join("set rA, ", ident.as_str());
            self.emit(ins.as_str());
            self.emit("psh rA");
        } else {
            let offset = match self.lookup_var(ident.as_str()) {
                Some(loc) => Some(loc.offset),
                None => None,
            };
            if let Some(offset) = offset {
                if offset == i16::MIN {
                    return false;
                }
                let ins = join("lod rA, ", Self::frame_addr(offset).as_str());
                self.emit(ins.as_str());
                self.emit("psh rA");
            }
        }
        true
    }

    /// `++x` / `x++` / `--x` / `x--` on a local (see [`gen_step`]).
    fn visit_step(&mut self, prefix: bool, expr: &Expr, step: &str) -> (ok: bool)
        ensures
            ok == gen_step(old(self).state(), prefix, *expr, step@) is Some,
            ok ==> final(self).state() == gen_step(old(self).state(), prefix, *expr, step@)->0,
            final(self).state().scopes == old(self).state().scopes,
            final(self).state().offset == old(self).state().offset,
            final(self).types() == old(self).types(),
    {
        let name = match &expr.node {
            ExprKind::Ident(name) => name,
            _ => {
                return false;
            },
        };
        let offset = match self.lookup_var(name.as_str()) {
            Some(loc) => loc.offset,
            None => {
                return false;
            },
        };
        if offset == i16::MIN {
            return false;
        }
        let addr = Self::frame_addr(offset);

        let load = join("lod rA, ", addr.as_str());
        self.emit(load.as_str());
        if !prefix {
            self.emit("psh rA");
        }
        self.emit(step);
        let mut store = join("str ", addr.as_str());
        store.append(", rA");
        self.emit(store.as_str());
        if prefix {
            self.emit("psh rA");
        }
        true
    }

    /// Increments a local, pushing its new value (prefix) or old value (postfix).
    pub fn visit_increment(&mut self, _span: Span, prefix: bool, expr: &Expr) -> (ok: bool)
        ensures
            ok == gen_step(old(self).state(), prefix, *expr, "add rA, 1"@) is Some,
            ok ==> final(self).state() == gen_step(old(self).state(), prefix, *expr, "add rA, 1"@)->0,
            final(self).state().scopes == old(self).state().scopes,
            final(self).state().offset == old(self).state().offset,
            final(self).types() == old(self).types(),
    {
        self.visit_step(prefix, expr, "add rA, 1")
    }

    /// Decrements a local, pushing its new value (prefix) or old value (postfix).
    pub fn visit_decrement(&mut self, _span: Span, prefix: bool, expr: &Expr) -> (ok: bool)
        ensures
            ok == gen_step(old(self).state(), prefix, *expr, "sub rA, 1"@) is Some,
            ok ==> final(self).state() == gen_step(old(self).state(), prefix, *expr, "sub rA, 1"@)->0,
            final(self).state().scopes == old(self).state().scopes,
            final(self).state().offset == old(self).state().offset,
            final(self).types() == old(self).types(),
    {
        self.visit_step(prefix, expr, "sub rA, 1")
    }

    /// A boolean result (see [`bool_result`]).
    fn emit_bool_result(&mut self, jump: &str, l_true: &str, l_end: &str)
        ensures
            final(self).state() == bool_result(old(self).state(), jump@, l_true@, l_end@),
            final(self).types() == old(self).types(),
    {
        let mut j = join(jump, " ");
        j.append(l_true);
        self.emit(j.as_str());
        self.emit("set rA, 0");
        let to_end = join("jmp ", l_end);
        self.emit(to_end.as_str());
        self.emit_label(l_true);
        self.emit("set rA, 1");
        self.emit_label(l_end);
    }

    /// `-x`, `!x`, `*x`, `~x` and `&x` (see [`gen_unary`]).
    pub fn visit_unary(&mut self, _span: Span, op: &TokenKind, rhs: &Expr) -> (ok: bool)
        requires
            old(self).wf(),
        ensures
            ok == gen_unary(old(self).state(), *op, *rhs) is Some,
            ok ==> final(self).state() == gen_unary(old(self).state(), *op, *rhs)->0,
            final(self).state().scopes == old(self).state().scopes,
            final(self).state().offset == old(self).state().offset,
            final(self).types() == old(self).types(),
        decreases expr_size(*rhs), 3nat,
    {
        if matches!(op, TokenKind::BitAnd) {
            let name = match &rhs.node {
                ExprKind::Ident(name) => name,
                _ => {
                    return false;
                },
            };
            let offset = match self.lookup_var(name.as_str()) {
                Some(loc) => loc.offset,
                None => {
                    return false;
                },
            };
            self.emit("set rA, rE");
            if offset != 0 {
                let ins = join_signed("sub rA, ", offset);
                self.emit(ins.as_str());
            }
            self.emit("psh rA");
            return true;
        }

        if !self.visit_expr(rhs) {
            return false;
        }
        self.emit("pop rA");

        match op {
            TokenKind::Minus => {
                self.emit("neg rA");
            },
            TokenKind::Bang => {
                if self.label_count >= usize::MAX - 1 {
                    return false;
                }
                let l_true = self.next_label("not_true");
                let l_end = self.next_label("not_end");
                self.emit("cmp rA, rZ");
                self.emit_bool_result("je", l_true.as_str(), l_end.as_str());
            },
            TokenKind::Star => {
                self.emit("lod rA, [rA]");
            },
            TokenKind::BitNot => {
                self.emit("xor rA, 65535");
            },
            _ => {
                return false;
            },
        }

        self.emit("psh rA");
        true
    }

    /// A binary operation on the two values it pushes (see [`gen_binary`]).
    pub fn visit_binary(&mut self, _span: Span, lhs: &Expr, op: &TokenKind, rhs: &Expr) -> (ok: bool)
        requires
            old(self).wf(),
        ensures
            ok == gen_binary(old(self).state(), *lhs, *op, *rhs) is Some,
            ok ==> final(self).state() == gen_binary(old(self).state(), *lhs, *op, *rhs)->0,
            final(self).state().scopes == old(self).state().scopes,
            final(self).state().offset == old(self).state().offset,
            final(self).types() == old(self).types(),
        decreases expr_size(*lhs) + expr_size(*rhs), 3nat,
    {
        if !self.visit_expr(lhs) {
            return false;
        }
        if matches!(op, TokenKind::And) || matches!(op, TokenKind::Or) {
            return self.visit_logic(op, rhs);
        }
        if !self.visit_expr(rhs) {
            return false;
        }

        self.emit("pop rB");
        self.emit("pop rA");

        match op {
            TokenKind::Plus => self.emit("add rA, rB"),
            TokenKind::Minus => self.emit("sub rA, rB"),
            TokenKind::Star => self.emit("mpy rA, rB"),
            TokenKind::Slash => self.emit("div rA, rB"),
            TokenKind::Percent => self.emit("mod rA, rB"),
            TokenKind::BitAnd => self.emit("and rA, rB"),
            TokenKind::BitOr => self.emit("or rA, rB"),
            TokenKind::BitXor => self.emit("xor rA, rB"),
            TokenKind::LeftShift => {
                self.emit("neg rB");
                self.emit("shf rA, rB");
            },
            TokenKind::RightShift => self.emit("shf rA, rB"),
            TokenKind::Equality | TokenKind::BangEqual | TokenKind::Gt | TokenKind::Gte
            | TokenKind::Lt | TokenKind::Lte => {
                if self.label_count >= usize::MAX - 1 {
                    return false;
                }
                self.emit("cmp rA, rB");
                let l_true = self.next_label("cmp_true");
                let l_end = self.next_label("cmp_end");
                let jmp_inst = match op {
                    TokenKind::Equality => "je",
                    TokenKind::BangEqual => "jne",
                    TokenKind::Gt => "jg",
                    TokenKind::Gte => "jge",
                    TokenKind::Lt => "jl",
                    _ => "jle",
                };
                self.emit_bool_result(jmp_inst, l_true.as_str(), l_end.as_str());
            },
            _ => {
                return false;
            },
        }

        self.emit("psh rA");
        true
    }

    /// The rest of `lhs && rhs` or `lhs || rhs` once the left operand's value
    /// is pushed: it is tested, and the right operand's code runs only when
    /// the left one does not decide the result.
    fn visit_logic(&mut self, op: &TokenKind, rhs: &Expr) -> (ok: bool)
        requires
            old(self).wf(),
            is_logic(*op),
        ensures
            ok == (labels_left(old(self).state(), 2) && gen_expr(
                logic_test(
                    take_labels(old(self).state(), 2),
                    *op,
                    logic_skip_label(*op, old(self).state().labels),
                ),
                *rhs,
            ) is Some),
            ok ==> final(self).state() == logic_result(
                logic_test(
                    gen_expr(
                        logic_test(
                            take_labels(old(self).state(), 2),
                            *op,
                            logic_skip_label(*op, old(self).state().labels),
                        ),
                        *rhs,
                    )->0,
                    *op,
                    logic_skip_label(*op, old(self).state().labels),
                ),
                *op,
                logic_skip_label(*op, old(self).state().labels),
                logic_end_label(*op, old(self).state().labels + 1),
            ),
            final(self).state().scopes == old(self).state().scopes,
            final(self).state().offset == old(self).state().offset,
            final(self).types() == old(self).types(),
        decreases expr_size(*rhs), 3nat,
    {
        if self.label_count >= usize::MAX - 1 {
            return false;
        }
        let is_and = matches!(op, TokenKind::And);
        let l_skip = self.next_label(if is_and { "and_false" } else { "or_true" });
        let l_end = self.next_label(if is_and { "and_end" } else { "or_end" });
        let jump = join(if is_and { "je " } else { "jne " }, l_skip.as_str());
        self.emit("pop rA");
        self.emit("cmp rA, rZ");
        self.emit(jump.as_str());
        if !self.visit_expr(rhs) {
            return false;
        }
        self.emit("pop rA");
        self.emit("cmp rA, rZ");
        self.emit(jump.as_str());
        self.emit(if is_and { "set rA, 1" } else { "set rA, 0" });
        let to_end = join("jmp ", l_end.as_str());
        self.emit(to_end.as_str());
        self.emit_label(l_skip.as_str());
        self.emit(if is_and { "set rA, 0" } else { "set rA, 1" });
        self.emit_label(l_end.as_str());
        self.emit("psh rA");
        true
    }

    /// Stores a value in a local or through a pointer (see [`gen_assignment`]).
    pub fn visit_assignment(&mut self, _span: Span, target: &Expr, value: &Expr) -> (ok: bool)
        requires
            old(self).wf(),
        ensures
            ok == gen_assignment(old(self).state(), *target, *value) is Some,
            ok ==> final(self).state() == gen_assignment(old(self).state(), *target, *value)->0,
            final(self).state().scopes == old(self).state().scopes,
            final(self).state().offset == old(self).state().offset,
            final(self).types() == old(self).types(),
        decreases expr_size(*target) + expr_size(*value), 3nat,
    {
        if !self.visit_expr(value) {
            return false;
        }

        match &target.node {
            ExprKind::Ident(name) => {
                let offset = match self.lookup_var(name.as_str()) {
                    Some(loc) => Some(loc.offset),
                    None => None,
                };
                if let Some(offset) = offset {
                    if offset == i16::MIN {
                        return false;
                    }
                    self.emit("pop rA");
                    let mut store = join("str ", Self::frame_addr(offset).as_str());
                    store.append(", rA");
                    self.emit(store.as_str());
                    self.emit("psh rA");
                }
                true
            },
            ExprKind::Unary { op, rhs } => {
                if !matches!(op, TokenKind::Star) {
                    return false;
                }
                if !self.visit_expr(rhs) {
                    return false;
                }
                self.emit("pop rB");
                self.emit("pop rA");
                self.emit("str [rB], rA");
                self.emit("psh rA");
                true
            },
            _ => false,
        }
    }

    /// A call (see [`gen_call`]).
    pub fn visit_call(&mut self, _span: Span, callee: &Expr, args: &Vec<Expr>) -> (ok: bool)
        requires
            old(self).wf(),
        ensures
            ok == gen_call(old(self).state(), *callee, *args) is Some,
            ok ==> final(self).state() == gen_call(old(self).state(), *callee, *args)->0,
            final(self).state().scopes == old(self).state().scopes,
            final(self).state().offset == old(self).state().offset,
            final(self).types() == old(self).types(),
        decreases expr_size(*callee) + exprs_size(args@), 3nat,
    {
        let n = args.len();
        let mut j: usize = n;
        while j > 3
            invariant
                j <= n == args@.len(),
                self.wf(),
                self.state().scopes == old(self).state().scopes,
                self.state().offset == old(self).state().offset,
                self.types() == old(self).types(),
                gen_stack_args(old(self).state(), args@, n as int) == gen_stack_args(self.state(), args@, j as int),
            decreases j,
        {
            proof {
                lemma_exprs_size_elem(args@, j - 1);
            }
            if !self.visit_expr(&args[j - 1]) {
                return false;
            }
            j -= 1;
        }

        let ghost stacked = self.state();
        let mut k: usize = if n < 3 { n } else { 3 };
        while k > 0
            invariant
                k <= 3,
                k <= n == args@.len(),
                self.wf(),
                self.state().scopes == old(self).state().scopes,
                self.state().offset == old(self).state().offset,
                self.types() == old(self).types(),
                gen_stack_args(old(self).state(), args@, n as int) == Some(stacked),
                gen_reg_args(stacked, args@, reg_count(n as int)) == gen_reg_args(self.state(), args@, k as int),
            decreases k,
        {
            proof {
                lemma_exprs_size_elem(args@, k - 1);
            }
            let ghost before = self.state();
            if !self.visit_expr(&args[k - 1]) {
                assert(gen_reg_args(before, args@, k as int) is None);
                return false;
            }
            k -= 1;
        }
        if n > 0 {
            self.emit("pop rA");
        }
        if n > 1 {
            self.emit("pop rB");
        }
        if n > 2 {
            self.emit("pop rC");
        }

        match &callee.node {
            ExprKind::Ident(name) => {
                let ins = join("cal !", name.as_str());
                self.emit(ins.as_str());
            },
            _ => {
                return false;
            },
        }

        if n > 3 {
            let ghost called = self.state();
            let mut k: usize = 3;
            while k < n
                invariant
                    3 <= k <= n,
                    self.state() == emit_n(called, "pop rB"@, (k - 3) as nat),
                    self.state().scopes == old(self).state().scopes,
                    self.state().offset == old(self).state().offset,
                    self.types() == old(self).types(),
                decreases n - k,
            {
                self.emit("pop rB");
                k += 1;
            }
        }

        self.emit("psh rA");
        true
    }

    /// The code of an expression, which pushes its value (see [`gen_expr`]).
    pub fn visit_expr(&mut self, expr: &Expr) -> (ok: bool)
        requires
            old(self).wf(),
        ensures
            ok == gen_expr(old(self).state(), *expr) is Some,
            ok ==> final(self).state() == gen_expr(old(self).state(), *expr)->0,
            final(self).state().scopes == old(self).state().scopes,
            final(self).state().offset == old(self).state().offset,
            final(self).types() == old(self).types(),
        decreases expr_size(*expr), 2nat,
    {
        let span = expr.span;
        match &expr.node {
            ExprKind::Integer(i) => {
                self.visit_integer(span, *i);
                true
            },
            ExprKind::Bool(b) => {
                self.visit_bool(span, *b);
                true
            },
            ExprKind::Ident(ident) => self.visit_ident(span, ident),
            ExprKind::Array(items) => self.visit_exprs(items),
            ExprKind::Increment { prefix, expr } => self.visit_increment(span, *prefix, expr),
            ExprKind::Decrement { prefix, expr } => self.visit_decrement(span, *prefix, expr),
            ExprKind::Unary { op, rhs } => self.visit_unary(span, op, rhs),
            ExprKind::Binary { lhs, op, rhs } => self.visit_binary(span, lhs, op, rhs),
            ExprKind::Assignment { target, value } => self.visit_assignment(span, target, value),
            ExprKind::Call { callee, args } => self.visit_call(span, callee, args),
            ExprKind::Subscript { array, index } => {
                if !self.visit_expr(array) {
                    return false;
                }
                self.visit_expr(index)
            },
            ExprKind::MemberAccess { object, .. } => self.visit_expr(object),
            ExprKind::StaticAccess { target, .. } => self.visit_expr(target),
            ExprKind::StructInit { name, fields } => {
                if !self.visit_expr(name) {
                    return false;
                }
                self.visit_fields(fields)
            },
        }
    }

    /// The code of a list of expressions, in order.
    fn visit_exprs(&mut self, items: &Vec<Expr>) -> (ok: bool)
        requires
            old(self).wf(),
        ensures
            ok == gen_exprs(old(self).state(), items@, 0) is Some,
            ok ==> final(self).state() == gen_exprs(old(self).state(), items@, 0)->0,
            final(self).state().scopes == old(self).state().scopes,
            final(self).state().offset == old(self).state().offset,
            final(self).types() == old(self).types(),
        decreases exprs_size(items@), 3nat,
    {
        let mut i: usize = 0;
        while i < items.len()
            invariant
                0 <= i <= items@.len(),
                self.wf(),
                self.state().scopes == old(self).state().scopes,
                self.state().offset == old(self).state().offset,
                self.types() == old(self).types(),
                gen_exprs(old(self).state(), items@, 0) == gen_exprs(self.state(), items@, i as int),
            decreases items@.len() - i,
        {
            proof {
                lemma_exprs_size_elem(items@, i as int);
            }
            if !self.visit_expr(&items[i]) {
                return false;
            }
            i += 1;
        }
        true
    }

    /// The code of the values of a struct literal's fields, in order.
    fn visit_fields(&mut self, fields: &Vec<(String, Expr)>) -> (ok: bool)
        requires
            old(self).wf(),
        ensures
            ok == gen_fields(old(self).state(), fields@, 0) is Some,
            ok ==> final(self).state() == gen_fields(old(self).state(), fields@, 0)->0,
            final(self).state().scopes == old(self).state().scopes,
            final(self).state().offset == old(self).state().offset,
            final(self).types() == old(self).types(),
        decreases fields_size(fields@), 3nat,
    {
        let mut i: usize = 0;
        while i < fields.len()
            invariant
                0 <= i <= fields@.len(),
                self.wf(),
                self.state().scopes == old(self).state().scopes,
                self.state().offset == old(self).state().offset,
                self.types() == old(self).types(),
                gen_fields(old(self).state(), fields@, 0) == gen_fields(self.state(), fields@, i as int),
            decreases fields@.len() - i,
        {
            proof {
                lemma_fields_size_elem(fields@, i as int);
            }
            if !self.visit_expr(&fields[i].1) {
                return false;
            }
            i += 1;
        }
        true
    }

    /// The code of a statement (see [`gen_stmt`]).
    pub fn visit_stmt(&mut self, stmt: &Stmt) -> (ok: bool)
        requires
            old(self).wf(),
        ensures
            ok == gen_stmt(old(self).state(), old(self).types(), *stmt) is Some,
            ok ==> final(self).state() == gen_stmt(old(self).state(), old(self).types(), *stmt)->0,
            ok ==> final(self).state().scopes.len() == old(self).state().scopes.len(),
            final(self).types() == old(self).types(),
        decreases stmt_size(*stmt), 2nat,
    {
        let span = stmt.span;
        let id = stmt.id;
        match &stmt.node {
            StmtKind::VarDecl { name, ty, value, mutable } => self.visit_var_decl(
                id,
                span,
                name,
                ty,
                value,
                *mutable,
            ),
            StmtKind::Expr(expr) => {
                if !self.visit_expr(expr) {
                    return false;
                }
                self.emit("pop rB");
                true
            },
            StmtKind::Block(stmts) => self.visit_block(span, stmts),
            StmtKind::Return(expr) => self.visit_return(span, expr),
            StmtKind::If { cond, then_branch, else_branch } => {
                let else_ref: Option<&Stmt> = match else_branch {
                    Some(b) => Some(&**b),
                    None => None,
                };
                self.visit_if(span, cond, then_branch, else_ref)
            },
            StmtKind::While { cond, body } => self.visit_while(span, cond, body),
            StmtKind::Fn { name, params, return_type, body } => self.visit_fn(
                span,
                name,
                params,
                return_type,
                body,
            ),
            StmtKind::Struct { name, members } => self.visit_struct(span, name, members),
            StmtKind::StructField { .. } => true,
        }
    }

    /// The code of a list of statements, in order.
    fn visit_stmts(&mut self, stmts: &Vec<Stmt>) -> (ok: bool)
        requires
            old(self).wf(),
        ensures
            ok == gen_stmts(old(self).state(), old(self).types(), stmts@, 0) is Some,
            ok ==> final(self).state() == gen_stmts(old(self).state(), old(self).types(), stmts@, 0)->0,
            ok ==> final(self).state().scopes.len() == old(self).state().scopes.len(),
            final(self).types() == old(self).types(),
        decreases stmts_size(stmts@), 3nat,
    {
        let mut i: usize = 0;
        while i < stmts.len()
            invariant
                0 <= i <= stmts@.len(),
                self.wf(),
                self.state().scopes.len() == old(self).state().scopes.len(),
                self.types() == old(self).types(),
                gen_stmts(old(self).state(), old(self).types(), stmts@, 0) == gen_stmts(
                    self.state(),
                    old(self).types(),
                    stmts@,
                    i as int,
                ),
            decreases stmts@.len() - i,
        {
            proof {
                lemma_stmts_size_elem(stmts@, i as int);
            }
            if !self.visit_stmt(&stmts[i]) {
                return false;
            }
            i += 1;
        }
        true
    }

    /// A declaration (see [`gen_var_decl`]): a constant becomes a `.const`
    /// directive, a variable gets a slot holding its value.
    pub fn visit_var_decl(
        &mut self,
        id: NodeId,
        _span: Span,
        name: &String,
        _ty: &Option<Type>,
        value: &Expr,
        mutable: bool,
    ) -> (ok: bool)
        requires
            old(self).wf(),
        ensures
            ok == gen_var_decl(old(self).state(), old(self).types(), id, name@, *value, mutable) is Some,
            ok ==> final(self).state() == gen_var_decl(
                old(self).state(),
                old(self).types(),
                id,
                name@,
                *value,
                mutable,
            )->0,
            ok ==> final(self).state().scopes.len() == old(self).state().scopes.len(),
            final(self).types() == old(self).types(),
    {
        if !mutable {
            let val: u16 = match &value.node {
                ExprKind::Integer(i) => *i,
                ExprKind::Bool(b) => {
                    if *b {
                        1
                    } else {
                        0
                    }
                },
                _ => {
                    return false;
                },
            };
            let mut directive = join(".const ", name.as_str());
            directive.append(" ");
            push_decimal(&mut directive, val as u64);
            directive.append("\n");
            self.const_directives.append(directive.as_str());
            self.consts.insert(name.clone());
            proof {
                assert(self.const_directives@ =~= old(self).const_directives@ + ".const "@ + name@ + " "@
                    + dec(val as nat) + "\n"@);
            }
            return true;
        }

        if !self.visit_expr(value) {
            return false;
        }
        let size: u16 = match self.type_map.get(&id.0) {
            Some(ty) => ty.size(),
            None => 1,
        };
        if !self.can_insert_var(size) {
            return false;
        }
        self.insert_var(name.clone(), size);
        true
    }

    /// The code of a condition, which sets the flags from its value.
    fn visit_cond(&mut self, cond: &Expr) -> (ok: bool)
        requires
            old(self).wf(),
        ensures
            ok == gen_expr(old(self).state(), *cond) is Some,
            ok ==> final(self).state() == emit(
                emit(gen_expr(old(self).state(), *cond)->0, "pop rA"@),
                "cmp rA, rZ"@,
            ),
            final(self).state().scopes == old(self).state().scopes,
            final(self).state().offset == old(self).state().offset,
            final(self).types() == old(self).types(),
    {
        if !self.visit_expr(cond) {
            return false;
        }
        self.emit("pop rA");
        self.emit("cmp rA, rZ");
        true
    }

    /// `if`: the condition, a jump to the else branch (or the end) when it is
    /// zero, the then branch and a jump to the end, then the else branch.
    pub fn visit_if(&mut self, span: Span, cond: &Expr, then_branch: &Stmt, else_branch: Option<&Stmt>) -> (ok: bool)
        requires
            old(self).wf(),
        ensures
            ok == gen_if(old(self).state(), old(self).types(), *cond, *then_branch, else_branch) is Some,
            ok ==> final(self).state() == gen_if(
                old(self).state(),
                old(self).types(),
                *cond,
                *then_branch,
                else_branch,
            )->0,
            ok ==> final(self).state().scopes.len() == old(self).state().scopes.len(),
            final(self).types() == old(self).types(),
        decreases stmt_size(*then_branch) + match else_branch {
            Some(b) => stmt_size(*b),
            None => 0,
        }, 3nat,
    {
        if !self.visit_cond(cond) {
            return false;
        }
        if self.label_count >= usize::MAX - 1 {
            return false;
        }
        let l_else = self.next_label("if_else");
        let l_end = self.next_label("if_end");

        let to_else = join("je ", l_else.as_str());
        self.emit(to_else.as_str());

        if !self.visit_stmt(then_branch) {
            return false;
        }
        let to_end = join("jmp ", l_end.as_str());
        self.emit(to_end.as_str());

        self.emit_label(l_else.as_str());
        if let Some(else_branch) = else_branch {
            if !self.visit_stmt(else_branch) {
                return false;
            }
        }
        self.emit_label(l_end.as_str());
        true
    }

    /// `while`: a start label, the condition and a jump out when it is zero,
    /// the body and a jump back to the start.
    pub fn visit_while(&mut self, span: Span, cond: &Expr, body: &Stmt) -> (ok: bool)
        requires
            old(self).wf(),
        ensures
            ok == gen_while(old(self).state(), old(self).types(), *cond, *body) is Some,
            ok ==> final(self).state() == gen_while(old(self).state(), old(self).types(), *cond, *body)->0,
            ok ==> final(self).state().scopes.len() == old(self).state().scopes.len(),
            final(self).types() == old(self).types(),
        decreases stmt_size(*body), 3nat,
    {
        if self.label_count >= usize::MAX - 1 {
            return false;
        }
        let l_start = self.next_label("while_start");
        let l_end = self.next_label("while_end");

        self.emit_label(l_start.as_str());
        if !self.visit_cond(cond) {
            return false;
        }
        let to_end = join("je ", l_end.as_str());
        self.emit(to_end.as_str());

        if !self.visit_stmt(body) {
            return false;
        }
        let to_start = join("jmp ", l_start.as_str());
        self.emit(to_start.as_str());

        self.emit_label(l_end.as_str());
        true
    }

    /// A block: its statements in a scope of their own, after which the
    /// stack slots of its locals are popped.
    pub fn visit_block(&mut self, _span: Span, stmts: &Vec<Stmt>) -> (ok: bool)
        requires
            old(self).wf(),
        ensures
            ok == gen_block(old(self).state(), old(self).types(), *stmts) is Some,
            ok ==> final(self).state() == gen_block(old(self).state(), old(self).types(), *stmts)->0,
            ok ==> final(self).state().scopes.len() == old(self).state().scopes.len(),
            final(self).types() == old(self).types(),
        decreases stmts_size(stmts@), 4nat,
    {
        self.enter_scope();
        let start_offset = self.current_local_offset;

        if !self.visit_stmts(stmts) {
            return false;
        }

        let diff: i32 = self.current_local_offset as i32 - start_offset as i32;
        if diff < -32768 || diff > 32767 {
            return false;
        }
        let locals_size = diff as i16;
        if locals_size > 0 {
            let ghost done = self.state();
            let mut k: i16 = 0;
            while k < locals_size
                invariant
                    0 <= k <= locals_size,
                    self.state() == emit_n(done, "pop rB"@, k as nat),
                    self.state().scopes == done.scopes,
                    self.state().offset == done.offset,
                    self.types() == old(self).types(),
                decreases locals_size - k,
            {
                self.emit("pop rB");
                k += 1;
            }
        }

        self.current_local_offset = start_offset;
        self.exit_scope();
        true
    }

    /// The members of a struct declaration, in order.
    pub fn visit_struct(&mut self, _span: Span, _name: &String, members: &Vec<Stmt>) -> (ok: bool)
        requires
            old(self).wf(),
        ensures
            ok == gen_stmts(old(self).state(), old(self).types(), members@, 0) is Some,
            ok ==> final(self).state() == gen_stmts(old(self).state(), old(self).types(), members@, 0)->0,
            ok ==> final(self).state().scopes.len() == old(self).state().scopes.len(),
            final(self).types() == old(self).types(),
        decreases stmts_size(members@), 4nat,
    {
        self.visit_stmts(members)
    }

    /// A function: its label, the frame set up, the parameters bound (see
    /// [`gen_params`]), the body, and a return at the end.
    pub fn visit_fn(
        &mut self,
        _span: Span,
        name: &String,
        params: &Vec<(String, Type)>,
        _return_type: &Option<Type>,
        body: &Stmt,
    ) -> (ok: bool)
        requires
            old(self).wf(),
        ensures
            ok == gen_fn(old(self).state(), old(self).types(), *name, *params, *body) is Some,
            ok ==> final(self).state() == gen_fn(old(self).state(), old(self).types(), *name, *params, *body)->0,
            ok ==> final(self).state().scopes.len() == old(self).state().scopes.len(),
            final(self).types() == old(self).types(),
        decreases stmt_size(*body), 3nat,
    {
        let label = join("!", name.as_str());
        self.emit_label(label.as_str());
        self.emit("psh rE");
        self.emit("set rE, SP");

        self.enter_scope();
        self.current_local_offset = 0;

        let ghost start = self.state();
        let mut i: usize = 0;
        // `cal` pushes the return address (store-then-decrement), so after
        // the prologue [rE + 1] is the saved rE, [rE + 2] the return address,
        // and [rE + 3] on the fourth argument and those after it.
        let mut stack_arg_offset: i16 = 3;
        while i < params.len()
            invariant
                0 <= i <= params@.len(),
                self.wf(),
                self.state().scopes.len() == old(self).state().scopes.len() + 1,
                self.types() == old(self).types(),
                start == (GenState {
                    offset: 0,
                    ..open_scope(emit(emit(emit_label(old(self).state(), "!"@ + name@), "psh rE"@), "set rE, SP"@))
                }),
                gen_params(start, params@, 0, 3) == gen_params(self.state(), params@, i as int, stack_arg_offset as int),
            decreases params@.len() - i,
        {
            let (p_name, p_ty) = &params[i];
            let size = p_ty.size();
            if i < 3 {
                if i == 0 {
                    self.emit("psh rA");
                } else if i == 1 {
                    self.emit("psh rB");
                } else {
                    self.emit("psh rC");
                }
                if !self.can_insert_var(size) {
                    return false;
                }
                self.insert_var(p_name.clone(), size);
            } else {
                if stack_arg_offset == i16::MIN {
                    return false;
                }
                let next: i32 = stack_arg_offset as i32 + size_as_step(size) as i32;
                if next < -32768 || next > 32767 {
                    return false;
                }
                let loc = VariableLocation { offset: -stack_arg_offset, size };
                stack_arg_offset = next as i16;
                self.bind(p_name.clone(), loc);
            }
            i += 1;
        }

        if !self.visit_stmt(body) {
            return false;
        }

        self.emit("set SP, rE");
        self.emit("pop rE");
        self.emit("ret");

        self.exit_scope();
        true
    }

    /// `return`: the value, if any, into `rA`; then the caller's frame is
    /// restored and control returns.
    pub fn visit_return(&mut self, _span: Span, expr: &Option<Expr>) -> (ok: bool)
        requires
            old(self).wf(),
        ensures
            ok == gen_return(old(self).state(), *expr) is Some,
            ok ==> final(self).state() == gen_return(old(self).state(), *expr)->0,
            final(self).state().scopes == old(self).state().scopes,
            final(self).types() == old(self).types(),
    {
        if let Some(expr) = expr {
            if !self.visit_expr(expr) {
                return false;
            }
            self.emit("pop rA");
        }

        self.emit("set SP, rE");
        self.emit("pop rE");
        self.emit("ret");
        true
    }

    /// The memory operand of a local at the given offset from `rE`.
    fn frame_addr(offset: i16) -> (r: String)
        requires
            addressable(offset),
        ensures
            r@ == frame_addr(offset as int),
    {
        let mut r = if offset < 0 {
            join_number("[rE + ", (-offset) as u64)
        } else {
            join_number("[rE - ", offset as u64)
        };
        r.append("]");
        r
    }
}

} // verus!

verus! {

/// Labels never repeat: two labels are equal only if they were made from the
/// same prefix and the same count. Since `next_label` counts on with every
/// label, whatever the prefix, the labels it hands out are all distinct.
pub proof fn lemma_labels_distinct(p: Seq<char>, n: nat, q: Seq<char>, m: nat)
    requires
        label_name(p, n) == label_name(q, m),
    ensures
        p == q,
        n == m,
{
    reveal_strlit("!");
    reveal_strlit("_");
    let l = label_name(p, n);
    let pl = p.len() as int;
    let ql = q.len() as int;
    let a = dec(n).len() as int;
    let b = dec(m).len() as int;
    crate::text::lemma_dec_digits(n);
    crate::text::lemma_dec_digits(m);
    assert(l.len() == pl + 2 + a);
    assert(l.len() == ql + 2 + b);
    assert(l[pl + 1] == '_');
    assert(l[ql + 1] == '_');
    if a < b {
        let j = pl + 1 - (ql + 2);
        assert(l[pl + 1] == dec(m)[j]);
        assert(false);
    }
    if b < a {
        let j = ql + 1 - (pl + 2);
        assert(l[ql + 1] == dec(n)[j]);
        assert(false);
    }
    assert(l.subrange(pl + 2, l.len() as int) =~= dec(n));
    assert(l.subrange(ql + 2, l.len() as int) =~= dec(m));
    crate::text::lemma_dec_injective(n, m);
    assert(l.subrange(1, pl + 1) =~= p);
    assert(l.subrange(1, ql + 1) =~= q);
}

/// A local is allocated at the next offset, which then moves past it; a
/// lookup of its name in the innermost scope finds that slot.
pub proof fn lemma_insert_var_then_find(st: GenState, name: Seq<char>, size: u16)
    requires
        st.scopes.len() >= 1,
        insert_var(st, name, size) is Some,
    ensures
        find(insert_var(st, name, size)->0.scopes, name) == Some(VariableLocation { offset: st.offset, size }),
        insert_var(st, name, size)->0.offset == st.offset + size_step(size),
        insert_var(st, name, size)->0.output == st.output,
{
    let s1 = insert_var(st, name, size)->0;
    assert(s1.scopes.last() == st.scopes.last().insert(name, VariableLocation { offset: st.offset, size }));
}

/// A local declared again in an inner scope shadows the outer one: the inner
/// slot is found while the scope is open, and the outer slot again once it is
/// closed. A name never declared is not found.
pub proof fn lemma_shadow_then_restore(st: GenState, name: Seq<char>, outer: u16, inner: u16, other: Seq<char>)
    requires
        st.scopes.len() >= 1,
        insert_var(st, name, outer) is Some,
        insert_var(open_scope(insert_var(st, name, outer)->0), name, inner) is Some,
    ensures
        ({
            let s1 = insert_var(st, name, outer)->0;
            let s2 = insert_var(open_scope(s1), name, inner)->0;
            &&& find(s2.scopes, name) == Some(VariableLocation { offset: s1.offset, size: inner })
            &&& find(close_scope(s2).scopes, name) == Some(VariableLocation { offset: st.offset, size: outer })
            &&& other != name ==> find(s2.scopes, other) == find(st.scopes, other)
        }),
{
    let s1 = insert_var(st, name, outer)->0;
    let s2 = insert_var(open_scope(s1), name, inner)->0;
    let m = Map::<Seq<char>, VariableLocation>::empty().insert(name, VariableLocation { offset: s1.offset, size: inner });
    assert(s2.scopes =~= s1.scopes.push(m));
    crate::analysis::symbol::lemma_find_innermost(s1.scopes, m, name);
    crate::analysis::symbol::lemma_find_innermost(s1.scopes, m, other);
    lemma_insert_var_then_find(st, name, outer);
    assert(s1.scopes.last() == st.scopes.last().insert(name, VariableLocation { offset: st.offset, size: outer }));
    assert(s1.scopes.drop_last() =~= st.scopes.drop_last());
    if other != name {
        crate::analysis::symbol::lemma_find_innermost(st.scopes.drop_last(), st.scopes.last(), other);
        crate::analysis::symbol::lemma_find_innermost(s1.scopes.drop_last(), s1.scopes.last(), other);
        assert(st.scopes.drop_last().push(st.scopes.last()) =~= st.scopes);
        assert(s1.scopes.drop_last().push(s1.scopes.last()) =~= s1.scopes);
    }
}

/// A constant takes no stack space and emits no code: it becomes a `.const`
/// directive, and later uses of its name load it by name.
pub proof fn lemma_const_no_stack(
    st: GenState,
    tm: Map<usize, Type>,
    id: NodeId,
    name: Seq<char>,
    value: Expr,
)
    requires
        const_value(value.node) is Some,
    ensures
        gen_var_decl(st, tm, id, name, value, false) == Some(
            GenState {
                directives: st.directives + ".const "@ + name + " "@ + dec(
                    const_value(value.node)->0 as nat,
                ) + "\n"@,
                consts: st.consts.insert(name),
                ..st
            },
        ),
        gen_ident(gen_var_decl(st, tm, id, name, value, false)->0, name) == Some(
            emit(emit(gen_var_decl(st, tm, id, name, value, false)->0, "set rA, "@ + name), "psh rA"@),
        ),
{
}

/// A block leaves the frame as it found it: the offset of the next local is
/// restored, and one `pop rB` is emitted per word its locals took.
pub proof fn lemma_block_restores_offset(st: GenState, tm: Map<usize, Type>, stmts: Vec<Stmt>)
    requires
        gen_block(st, tm, stmts) is Some,
    ensures
        gen_block(st, tm, stmts)->0.offset == st.offset,
        ({
            let inner = gen_stmts(open_scope(st), tm, stmts@, 0)->0;
            gen_block(st, tm, stmts)->0.output == if inner.offset > st.offset {
                emit_n(inner, "pop rB"@, (inner.offset - st.offset) as nat).output
            } else {
                inner.output
            }
        }),
{
}

} // verus!

verus! {

/// `b` continues `a`: code was only appended, labels only counted on, and the
/// directives, constants, scopes and frame offset are as they were.
pub open spec fn extends(a: GenState, b: GenState) -> bool {
    &&& a.output.is_prefix_of(b.output)
    &&& a.labels <= b.labels
    &&& b.directives == a.directives
    &&& b.consts == a.consts
    &&& b.scopes == a.scopes
    &&& b.offset == a.offset
}

proof fn lemma_extends_trans(a: GenState, b: GenState, c: GenState)
    requires
        extends(a, b),
        extends(b, c),
    ensures
        extends(a, c),
{
    assert(c.output.subrange(0, a.output.len() as int) =~= a.output) by {
        assert(b.output.subrange(0, a.output.len() as int) =~= a.output);
        assert(c.output.subrange(0, b.output.len() as int) =~= b.output);
        assert forall|i: int| 0 <= i < a.output.len() implies c.output[i] == a.output[i] by {
            assert(c.output[i] == b.output[i]);
        }
    }
}

proof fn lemma_emit_extends(st: GenState, ins: Seq<char>)
    ensures
        extends(st, emit(st, ins)),
        extends(st, emit_label(st, ins)),
        extends(st, take_labels(st, 2)),
{
    assert(emit(st, ins).output.subrange(0, st.output.len() as int) =~= st.output);
    assert(emit_label(st, ins).output.subrange(0, st.output.len() as int) =~= st.output);
    assert(take_labels(st, 2).output.subrange(0, st.output.len() as int) =~= st.output);
}

proof fn lemma_emit_n_extends(st: GenState, ins: Seq<char>, k: nat)
    ensures
        extends(st, emit_n(st, ins, k)),
    decreases k,
{
    if k == 0 {
        assert(st.output.subrange(0, st.output.len() as int) =~= st.output);
    } else {
        lemma_emit_n_extends(st, ins, (k - 1) as nat);
        lemma_emit_extends(emit_n(st, ins, (k - 1) as nat), ins);
        lemma_extends_trans(st, emit_n(st, ins, (k - 1) as nat), emit_n(st, ins, k));
    }
}

proof fn lemma_bool_result_extends(st: GenState, jump: Seq<char>, l_true: Seq<char>, l_end: Seq<char>)
    ensures
        extends(st, bool_result(st, jump, l_true, l_end)),
{
    let s1 = emit(st, jump + " "@ + l_true);
    let s2 = emit(s1, "set rA, 0"@);
    let s3 = emit(s2, "jmp "@ + l_end);
    let s4 = emit_label(s3, l_true);
    let s5 = emit(s4, "set rA, 1"@);
    lemma_emit_extends(st, jump + " "@ + l_true);
    lemma_emit_extends(s1, "set rA, 0"@);
    lemma_emit_extends(s2, "jmp "@ + l_end);
    lemma_emit_extends(s3, l_true);
    lemma_emit_extends(s4, "set rA, 1"@);
    lemma_emit_extends(s5, l_end);
    lemma_extends_trans(st, s1, s2);
    lemma_extends_trans(st, s2, s3);
    lemma_extends_trans(st, s3, s4);
    lemma_extends_trans(st, s4, s5);
    lemma_extends_trans(st, s5, emit_label(s5, l_end));
}

proof fn lemma_unary_op_code_extends(st: GenState, op: TokenKind)
    requires
        unary_op_code(st, op) is Some,
    ensures
        extends(st, unary_op_code(st, op)->0),
{
    let r = unary_op_code(st, op)->0;
    if op is Bang {
        let s1 = emit(take_labels(st, 2), "cmp rA, rZ"@);
        lemma_emit_extends(st, ""@);
        lemma_emit_extends(take_labels(st, 2), "cmp rA, rZ"@);
        lemma_extends_trans(st, take_labels(st, 2), s1);
        lemma_bool_result_extends(s1, "je"@, label_name("not_true"@, st.labels), label_name("not_end"@, st.labels + 1));
        lemma_extends_trans(st, s1, r);
    } else {
        assert(r.output.subrange(0, st.output.len() as int) =~= st.output);
    }
}

proof fn lemma_binary_op_code_extends(st: GenState, op: TokenKind)
    requires
        binary_op_code(st, op) is Some,
    ensures
        extends(st, binary_op_code(st, op)->0),
{
    let r = binary_op_code(st, op)->0;
    match op {
        TokenKind::Equality | TokenKind::BangEqual | TokenKind::Gt | TokenKind::Gte
        | TokenKind::Lt | TokenKind::Lte => {
            let s1 = emit(take_labels(st, 2), "cmp rA, rB"@);
            lemma_emit_extends(st, ""@);
            lemma_emit_extends(take_labels(st, 2), "cmp rA, rB"@);
            lemma_extends_trans(st, take_labels(st, 2), s1);
            lemma_bool_result_extends(s1, jump_of(op), label_name("cmp_true"@, st.labels), label_name("cmp_end"@, st.labels + 1));
            lemma_extends_trans(st, s1, r);
        },
        _ => {
            assert(r.output.subrange(0, st.output.len() as int) =~= st.output);
        },
    }
}

proof fn lemma_gen_ident_extends(st: GenState, name: Seq<char>)
    requires
        gen_ident(st, name) is Some,
    ensures
        extends(st, gen_ident(st, name)->0),
{
    assert(gen_ident(st, name)->0.output.subrange(0, st.output.len() as int) =~= st.output);
}

proof fn lemma_gen_step_extends(st: GenState, prefix: bool, target: Expr, step: Seq<char>)
    requires
        gen_step(st, prefix, target, step) is Some,
    ensures
        extends(st, gen_step(st, prefix, target, step)->0),
{
    assert(gen_step(st, prefix, target, step)->0.output.subrange(0, st.output.len() as int) =~= st.output);
}

proof fn lemma_gen_address_of_extends(st: GenState, rhs: Expr)
    requires
        gen_address_of(st, rhs) is Some,
    ensures
        extends(st, gen_address_of(st, rhs)->0),
{
    assert(gen_address_of(st, rhs)->0.output.subrange(0, st.output.len() as int) =~= st.output);
}

/// The code of an expression is appended to what was generated before: it
/// never rewrites earlier code, never reuses a label count, and leaves the
/// directives, constants, scopes and frame offset as they were.
#[verifier::spinoff_prover]
#[verifier::rlimit(50)]
pub proof fn lemma_gen_expr_extends(st: GenState, e: Expr)
    requires
        gen_expr(st, e) is Some,
    ensures
        extends(st, gen_expr(st, e)->0),
    decreases e, 0nat,
{
    let r = gen_expr(st, e)->0;
    match e.node {
        ExprKind::Integer(_) | ExprKind::Bool(_) => {
            assert(r.output.subrange(0, st.output.len() as int) =~= st.output);
        },
        ExprKind::Ident(name) => lemma_gen_ident_extends(st, name@),
        ExprKind::Array(items) => {
            assert(decreases_to!(e.node => items));
            lemma_gen_exprs_extends(st, items@, 0);
        },
        ExprKind::Increment { prefix, expr } => lemma_gen_step_extends(st, prefix, *expr, "add rA, 1"@),
        ExprKind::Decrement { prefix, expr } => lemma_gen_step_extends(st, prefix, *expr, "sub rA, 1"@),
        ExprKind::Unary { op, rhs } => {
            if op is BitAnd {
                lemma_gen_address_of_extends(st, *rhs);
            } else {
                let s1 = gen_expr(st, *rhs)->0;
                let s2 = emit(s1, "pop rA"@);
                let s3 = unary_op_code(s2, op)->0;
                lemma_gen_expr_extends(st, *rhs);
                lemma_emit_extends(s1, "pop rA"@);
                lemma_unary_op_code_extends(s2, op);
                lemma_emit_extends(s3, "psh rA"@);
                lemma_extends_trans(st, s1, s2);
                lemma_extends_trans(st, s2, s3);
                lemma_extends_trans(st, s3, r);
            }
        },
        ExprKind::Binary { lhs, op, rhs } => {
            let s1 = gen_expr(st, *lhs)->0;
            lemma_gen_expr_extends(st, *lhs);
            if is_logic(op) {
                let l_skip = logic_skip_label(op, s1.labels);
                let l_end = logic_end_label(op, s1.labels + 1);
                let t1 = logic_test(take_labels(s1, 2), op, l_skip);
                let s2 = gen_expr(t1, *rhs)->0;
                let t2 = logic_test(s2, op, l_skip);
                lemma_emit_extends(s1, ""@);
                lemma_logic_test_extends(take_labels(s1, 2), op, l_skip);
                lemma_extends_trans(s1, take_labels(s1, 2), t1);
                lemma_gen_expr_extends(t1, *rhs);
                lemma_logic_test_extends(s2, op, l_skip);
                lemma_logic_result_extends(t2, op, l_skip, l_end);
                lemma_extends_trans(st, s1, t1);
                lemma_extends_trans(st, t1, s2);
                lemma_extends_trans(st, s2, t2);
                lemma_extends_trans(st, t2, r);
            } else {
                let s2 = gen_expr(s1, *rhs)->0;
                let s3 = emit(s2, "pop rB"@);
                let s4 = emit(s3, "pop rA"@);
                let s5 = binary_op_code(s4, op)->0;
                lemma_gen_expr_extends(s1, *rhs);
                lemma_emit_extends(s2, "pop rB"@);
                lemma_emit_extends(s3, "pop rA"@);
                lemma_binary_op_code_extends(s4, op);
                lemma_emit_extends(s5, "psh rA"@);
                lemma_extends_trans(st, s1, s2);
                lemma_extends_trans(st, s2, s3);
                lemma_extends_trans(st, s3, s4);
                lemma_extends_trans(st, s4, s5);
                lemma_extends_trans(st, s5, r);
            }
        },
        ExprKind::Assignment { target, value } => {
            let s1 = gen_expr(st, *value)->0;
            lemma_gen_expr_extends(st, *value);
            match target.node {
                ExprKind::Ident(name) => {
                    assert(r.output.subrange(0, s1.output.len() as int) =~= s1.output);
                    lemma_extends_trans(st, s1, r);
                },
                ExprKind::Unary { rhs, .. } => {
                    let s2 = gen_expr(s1, *rhs)->0;
                    lemma_gen_expr_extends(s1, *rhs);
                    assert(r.output.subrange(0, s2.output.len() as int) =~= s2.output);
                    lemma_extends_trans(st, s1, s2);
                    lemma_extends_trans(st, s2, r);
                },
                _ => {},
            }
        },
        ExprKind::Call { callee, args } => {
            assert(decreases_to!(e.node => args));
            let n = args@.len();
            let s1 = gen_stack_args(st, args@, n as int)->0;
            let s3 = gen_reg_args(s1, args@, reg_count(n as int))->0;
            let s4 = reg_pops(s3, n);
            let name = callee.node->Ident_0;
            let s5 = emit(s4, "cal !"@ + name@);
            let s6 = if n > 3 {
                emit_n(s5, "pop rB"@, (n - 3) as nat)
            } else {
                s5
            };
            lemma_gen_stack_args_extends(st, args@, n as int);
            lemma_gen_reg_args_extends(s1, args@, reg_count(n as int));
            lemma_reg_pops_extends(s3, n);
            lemma_emit_extends(s4, "cal !"@ + name@);
            lemma_emit_n_extends(s5, "pop rB"@, (n - 3) as nat);
            lemma_emit_extends(s6, "psh rA"@);
            lemma_extends_trans(st, s1, s3);
            lemma_extends_trans(st, s3, s4);
            lemma_extends_trans(st, s4, s5);
            if n > 3 {
                lemma_extends_trans(st, s5, s6);
            }
            lemma_extends_trans(st, s6, r);
        },
        ExprKind::Subscript { array, index } => {
            let s1 = gen_expr(st, *array)->0;
            lemma_gen_expr_extends(st, *array);
            lemma_gen_expr_extends(s1, *index);
            lemma_extends_trans(st, s1, r);
        },
        ExprKind::MemberAccess { object, .. } => lemma_gen_expr_extends(st, *object),
        ExprKind::StaticAccess { target, .. } => lemma_gen_expr_extends(st, *target),
        ExprKind::StructInit { name, fields } => {
            let s1 = gen_expr(st, *name)->0;
            lemma_gen_expr_extends(st, *name);
            assert(decreases_to!(e.node => fields));
            lemma_gen_fields_extends(s1, fields@, 0);
            lemma_extends_trans(st, s1, r);
        },
    }
}

proof fn lemma_gen_exprs_extends(st: GenState, es: Seq<Expr>, i: int)
    requires
        gen_exprs(st, es, i) is Some,
    ensures
        extends(st, gen_exprs(st, es, i)->0),
    decreases es, es.len() - i,
{
    if i < 0 || i >= es.len() {
        assert(st.output.subrange(0, st.output.len() as int) =~= st.output);
    } else {
        let s1 = gen_expr(st, es[i])->0;
        lemma_gen_expr_extends(st, es[i]);
        lemma_gen_exprs_extends(s1, es, i + 1);
        lemma_extends_trans(st, s1, gen_exprs(st, es, i)->0);
    }
}

proof fn lemma_gen_fields_extends(st: GenState, fs: Seq<(String, Expr)>, i: int)
    requires
        gen_fields(st, fs, i) is Some,
    ensures
        extends(st, gen_fields(st, fs, i)->0),
    decreases fs, fs.len() - i,
{
    if i < 0 || i >= fs.len() {
        assert(st.output.subrange(0, st.output.len() as int) =~= st.output);
    } else {
        assert(decreases_to!(fs => fs[i]));
        let s1 = gen_expr(st, fs[i].1)->0;
        lemma_gen_expr_extends(st, fs[i].1);
        lemma_gen_fields_extends(s1, fs, i + 1);
        lemma_extends_trans(st, s1, gen_fields(st, fs, i)->0);
    }
}

proof fn lemma_gen_stack_args_extends(st: GenState, args: Seq<Expr>, n: int)
    requires
        gen_stack_args(st, args, n) is Some,
    ensures
        extends(st, gen_stack_args(st, args, n)->0),
    decreases args, n,
{
    if n <= 3 || n > args.len() {
        assert(st.output.subrange(0, st.output.len() as int) =~= st.output);
    } else {
        let s1 = gen_expr(st, args[n - 1])->0;
        lemma_gen_expr_extends(st, args[n - 1]);
        lemma_gen_stack_args_extends(s1, args, n - 1);
        lemma_extends_trans(st, s1, gen_stack_args(st, args, n)->0);
    }
}

proof fn lemma_gen_reg_args_extends(st: GenState, args: Seq<Expr>, k: int)
    requires
        gen_reg_args(st, args, k) is Some,
    ensures
        extends(st, gen_reg_args(st, args, k)->0),
    decreases args, k,
{
    if k <= 0 || k > args.len() {
        assert(st.output.subrange(0, st.output.len() as int) =~= st.output);
    } else {
        let s1 = gen_expr(st, args[k - 1])->0;
        lemma_gen_expr_extends(st, args[k - 1]);
        lemma_gen_reg_args_extends(s1, args, k - 1);
        lemma_extends_trans(st, s1, gen_reg_args(st, args, k)->0);
    }
}

proof fn lemma_reg_pops_extends(st: GenState, n: nat)
    ensures
        extends(st, reg_pops(st, n)),
{
    assert(reg_pops(st, n).output.subrange(0, st.output.len() as int) =~= st.output);
}

proof fn lemma_logic_test_extends(st: GenState, op: TokenKind, l_skip: Seq<char>)
    ensures
        extends(st, logic_test(st, op, l_skip)),
{
    assert(logic_test(st, op, l_skip).output.subrange(0, st.output.len() as int) =~= st.output);
}

proof fn lemma_logic_result_extends(st: GenState, op: TokenKind, l_skip: Seq<char>, l_end: Seq<char>)
    ensures
        extends(st, logic_result(st, op, l_skip, l_end)),
{
    assert(logic_result(st, op, l_skip, l_end).output.subrange(0, st.output.len() as int) =~= st.output);
}

/// Expressions whose code pushes exactly one word, their value: literals,
/// names of constants and of locals, increments, decrements and addresses of
/// locals, and unary and binary operations, assignments and calls built from
/// such expressions (`consts` and `scopes` are those of the generator).
pub open spec fn pushes_one(consts: Set<Seq<char>>, scopes: Seq<Map<Seq<char>, VariableLocation>>, e: Expr) -> bool
    decreases e, 0nat,
{
    match e.node {
        ExprKind::Integer(_) | ExprKind::Bool(_) => true,
        ExprKind::Ident(name) => consts.contains(name@) || find(scopes, name@) is Some,
        ExprKind::Increment { .. } | ExprKind::Decrement { .. } => true,
        ExprKind::Unary { op, rhs } => op is BitAnd || pushes_one(consts, scopes, *rhs),
        ExprKind::Binary { lhs, rhs, .. } => pushes_one(consts, scopes, *lhs) && pushes_one(consts, scopes, *rhs),
        ExprKind::Assignment { target, value } => pushes_one(consts, scopes, *value) && match target.node {
            ExprKind::Unary { rhs, .. } => pushes_one(consts, scopes, *rhs),
            _ => true,
        },
        ExprKind::Call { args, .. } => {
            proof {
                assert(decreases_to!(e.node => args));
            }
            all_push_one(consts, scopes, args@, 0)
        },
        _ => false,
    }
}

/// Whether every expression of a list from index `i` on pushes exactly one word.
pub open spec fn all_push_one(
    consts: Set<Seq<char>>,
    scopes: Seq<Map<Seq<char>, VariableLocation>>,
    es: Seq<Expr>,
    i: int,
) -> bool
    decreases es, es.len() - i,
{
    if i < 0 || i >= es.len() {
        true
    } else {
        pushes_one(consts, scopes, es[i]) && all_push_one(consts, scopes, es, i + 1)
    }
}

proof fn lemma_all_push_one_elem(
    consts: Set<Seq<char>>,
    scopes: Seq<Map<Seq<char>, VariableLocation>>,
    es: Seq<Expr>,
    i: int,
    j: int,
)
    requires
        0 <= i <= j < es.len(),
        all_push_one(consts, scopes, es, i),
    ensures
        pushes_one(consts, scopes, es[j]),
    decreases j - i,
{
    if i < j {
        lemma_all_push_one_elem(consts, scopes, es, i + 1, j);
    }
}

/// The stack effect of the instructions an expression's code is made of.
proof fn lemma_instruction_deltas()
    ensures
        stack_delta("psh rA"@) == 1,
        stack_delta("pop rA"@) == -1,
        stack_delta("pop rB"@) == -1,
        stack_delta("pop rC"@) == -1,
        forall|x: Seq<char>| #[trigger] stack_delta("set rA, "@ + x) == 0,
        forall|x: Seq<char>| #[trigger] stack_delta("lod rA, "@ + x) == 0,
        forall|x: Seq<char>, y: Seq<char>| #[trigger] stack_delta("str "@ + x + y) == 0,
        forall|x: Seq<char>| #[trigger] stack_delta("sub rA, "@ + x) == 0,
        forall|x: Seq<char>| #[trigger] stack_delta("jmp "@ + x) == 0,
        forall|x: Seq<char>| #[trigger] stack_delta("je "@ + x) == 0,
        forall|x: Seq<char>| #[trigger] stack_delta("jne "@ + x) == 0,
        forall|x: Seq<char>| #[trigger] stack_delta("cal !"@ + x) == 0,
        forall|op: TokenKind, x: Seq<char>| #[trigger] stack_delta(jump_of(op) + " "@ + x) == 0,
        forall|x: Seq<char>| #[trigger] stack_delta("je"@ + " "@ + x) == 0,
        stack_delta("add rA, 1"@) == 0,
        stack_delta("sub rA, 1"@) == 0,
        stack_delta("set rA, rE"@) == 0,
        stack_delta("neg rA"@) == 0,
        stack_delta("cmp rA, rZ"@) == 0,
        stack_delta("cmp rA, rB"@) == 0,
        stack_delta("set rA, 0"@) == 0,
        stack_delta("set rA, 1"@) == 0,
        stack_delta("lod rA, [rA]"@) == 0,
        stack_delta("xor rA, 65535"@) == 0,
        stack_delta("add rA, rB"@) == 0,
        stack_delta("sub rA, rB"@) == 0,
        stack_delta("mpy rA, rB"@) == 0,
        stack_delta("div rA, rB"@) == 0,
        stack_delta("mod rA, rB"@) == 0,
        stack_delta("and rA, rB"@) == 0,
        stack_delta("or rA, rB"@) == 0,
        stack_delta("xor rA, rB"@) == 0,
        stack_delta("neg rB"@) == 0,
        stack_delta("shf rA, rB"@) == 0,
        stack_delta("str [rB], rA"@) == 0,
{
    reveal_strlit("psh rA");
    reveal_strlit("pop rA");
    reveal_strlit("pop rB");
    reveal_strlit("pop rC");
    reveal_strlit("set rA, ");
    reveal_strlit("lod rA, ");
    reveal_strlit("str ");
    reveal_strlit("sub rA, ");
    reveal_strlit("jmp ");
    reveal_strlit("je ");
    reveal_strlit("jne ");
    reveal_strlit("cal !");
    reveal_strlit("je");
    reveal_strlit("jne");
    reveal_strlit("jg");
    reveal_strlit("jge");
    reveal_strlit("jl");
    reveal_strlit("jle");
    reveal_strlit(" ");
    reveal_strlit("add rA, 1");
    reveal_strlit("sub rA, 1");
    reveal_strlit("set rA, rE");
    reveal_strlit("neg rA");
    reveal_strlit("cmp rA, rZ");
    reveal_strlit("cmp rA, rB");
    reveal_strlit("set rA, 0");
    reveal_strlit("set rA, 1");
    reveal_strlit("lod rA, [rA]");
    reveal_strlit("xor rA, 65535");
    reveal_strlit("add rA, rB");
    reveal_strlit("sub rA, rB");
    reveal_strlit("mpy rA, rB");
    reveal_strlit("div rA, rB");
    reveal_strlit("mod rA, rB");
    reveal_strlit("and rA, rB");
    reveal_strlit("or rA, rB");
    reveal_strlit("xor rA, rB");
    reveal_strlit("neg rB");
    reveal_strlit("shf rA, rB");
    reveal_strlit("str [rB], rA");
    assert forall|x: Seq<char>| #[trigger] stack_delta("set rA, "@ + x) == 0 by {
        assert(("set rA, "@ + x)[0] == 's');
    }
    assert forall|x: Seq<char>| #[trigger] stack_delta("lod rA, "@ + x) == 0 by {
        assert(("lod rA, "@ + x)[0] == 'l');
    }
    assert forall|x: Seq<char>, y: Seq<char>| #[trigger] stack_delta("str "@ + x + y) == 0 by {
        assert(("str "@ + x)[0] == 's');
        assert(("str "@ + x + y)[0] == 's');
    }
    assert forall|x: Seq<char>| #[trigger] stack_delta("sub rA, "@ + x) == 0 by {
        assert(("sub rA, "@ + x)[0] == 's');
    }
    assert forall|x: Seq<char>| #[trigger] stack_delta("jmp "@ + x) == 0 by {
        assert(("jmp "@ + x)[0] == 'j');
    }
    assert forall|x: Seq<char>| #[trigger] stack_delta("je "@ + x) == 0 by {
        assert(("je "@ + x)[0] == 'j');
    }
    assert forall|x: Seq<char>| #[trigger] stack_delta("jne "@ + x) == 0 by {
        assert(("jne "@ + x)[0] == 'j');
    }
    assert forall|x: Seq<char>| #[trigger] stack_delta("cal !"@ + x) == 0 by {
        assert(("cal !"@ + x)[0] == 'c');
    }
    assert forall|op: TokenKind, x: Seq<char>| #[trigger] stack_delta(jump_of(op) + " "@ + x) == 0 by {
        assert(jump_of(op)[0] == 'j');
        assert((jump_of(op) + " "@)[0] == 'j');
        assert((jump_of(op) + " "@ + x)[0] == 'j');
    }
    assert forall|x: Seq<char>| #[trigger] stack_delta("je"@ + " "@ + x) == 0 by {
        assert(("je"@ + " "@)[0] == 'j');
        assert(("je"@ + " "@ + x)[0] == 'j');
    }
}

proof fn lemma_emit_n_depth(st: GenState, k: nat)
    ensures
        emit_n(st, "pop rB"@, k).depth == st.depth - k,
    decreases k,
{
    lemma_instruction_deltas();
    if k > 0 {
        lemma_emit_n_depth(st, (k - 1) as nat);
    }
}

proof fn lemma_unary_op_code_depth(st: GenState, op: TokenKind)
    requires
        unary_op_code(st, op) is Some,
    ensures
        unary_op_code(st, op)->0.depth == st.depth,
{
    lemma_instruction_deltas();
}

proof fn lemma_binary_op_code_depth(st: GenState, op: TokenKind)
    requires
        binary_op_code(st, op) is Some,
    ensures
        binary_op_code(st, op)->0.depth == st.depth,
{
    lemma_instruction_deltas();
}

proof fn lemma_stack_args_depth(st: GenState, args: Seq<Expr>, n: int)
    requires
        gen_stack_args(st, args, n) is Some,
        all_push_one(st.consts, st.scopes, args, 0),
        n <= args.len(),
    ensures
        gen_stack_args(st, args, n)->0.depth == st.depth + if n > 3 {
            n - 3
        } else {
            0
        },
    decreases args, n,
{
    if n > 3 {
        let s1 = gen_expr(st, args[n - 1])->0;
        lemma_all_push_one_elem(st.consts, st.scopes, args, 0, n - 1);
        lemma_expr_pushes_one(st, args[n - 1]);
        lemma_gen_expr_extends(st, args[n - 1]);
        lemma_stack_args_depth(s1, args, n - 1);
    }
}

proof fn lemma_reg_args_depth(st: GenState, args: Seq<Expr>, k: int)
    requires
        gen_reg_args(st, args, k) is Some,
        all_push_one(st.consts, st.scopes, args, 0),
        0 <= k <= args.len(),
    ensures
        gen_reg_args(st, args, k)->0.depth == st.depth + k,
    decreases args, k,
{
    if k > 0 {
        let s1 = gen_expr(st, args[k - 1])->0;
        lemma_all_push_one_elem(st.consts, st.scopes, args, 0, k - 1);
        lemma_expr_pushes_one(st, args[k - 1]);
        lemma_gen_expr_extends(st, args[k - 1]);
        lemma_reg_args_depth(s1, args, k - 1);
    }
}

/// An expression's code pushes exactly one word, its value: it may push and
/// pop in between, but it ends one word deeper than it began.
#[verifier::spinoff_prover]
#[verifier::rlimit(50)]
pub proof fn lemma_expr_pushes_one(st: GenState, e: Expr)
    requires
        gen_expr(st, e) is Some,
        pushes_one(st.consts, st.scopes, e),
    ensures
        gen_expr(st, e)->0.depth == st.depth + 1,
    decreases e, 0nat,
{
    lemma_instruction_deltas();
    let r = gen_expr(st, e)->0;
    match e.node {
        ExprKind::Unary { op, rhs } => {
            if !(op is BitAnd) {
                let s1 = gen_expr(st, *rhs)->0;
                lemma_expr_pushes_one(st, *rhs);
                lemma_unary_op_code_depth(emit(s1, "pop rA"@), op);
            }
        },
        ExprKind::Binary { lhs, op, rhs } => {
            let s1 = gen_expr(st, *lhs)->0;
            lemma_expr_pushes_one(st, *lhs);
            lemma_gen_expr_extends(st, *lhs);
            if is_logic(op) {
                let l_skip = logic_skip_label(op, s1.labels);
                let t1 = logic_test(take_labels(s1, 2), op, l_skip);
                assert(stack_delta(logic_jump(op) + l_skip) == 0);
                lemma_expr_pushes_one(t1, *rhs);
            } else {
                let s2 = gen_expr(s1, *rhs)->0;
                lemma_expr_pushes_one(s1, *rhs);
                lemma_binary_op_code_depth(emit(emit(s2, "pop rB"@), "pop rA"@), op);
            }
        },
        ExprKind::Assignment { target, value } => {
            let s1 = gen_expr(st, *value)->0;
            lemma_expr_pushes_one(st, *value);
            lemma_gen_expr_extends(st, *value);
            match target.node {
                ExprKind::Unary { rhs, .. } => {
                    lemma_expr_pushes_one(s1, *rhs);
                },
                _ => {},
            }
        },
        ExprKind::Call { callee, args } => {
            assert(decreases_to!(e.node => args));
            let n = args@.len();
            let s1 = gen_stack_args(st, args@, n as int)->0;
            lemma_stack_args_depth(st, args@, n as int);
            lemma_gen_stack_args_extends(st, args@, n as int);
            let s3 = gen_reg_args(s1, args@, reg_count(n as int))->0;
            lemma_reg_args_depth(s1, args@, reg_count(n as int));
            let s5 = emit(reg_pops(s3, n), "cal !"@ + callee.node->Ident_0@);
            if n > 3 {
                lemma_emit_n_depth(s5, (n - 3) as nat);
            }
        },
        _ => {},
    }
}

/// An expression statement leaves the stack as it found it: the value its
/// code pushes is popped again.
pub proof fn lemma_expr_stmt_balanced(st: GenState, tm: Map<usize, Type>, s: Stmt)
    requires
        s.node is Expr,
        gen_stmt(st, tm, s) is Some,
        pushes_one(st.consts, st.scopes, s.node->Expr_0),
    ensures
        gen_stmt(st, tm, s)->0.depth == st.depth,
        gen_stmt(st, tm, s)->0 == emit(gen_expr(st, s.node->Expr_0)->0, "pop rB"@),
{
    lemma_instruction_deltas();
    lemma_expr_pushes_one(st, s.node->Expr_0);
}

/// Where a parameter lives in the frame: the first three, pushed from `rA`,
/// `rB`, `rC`, at offsets 0, 1, 2 below `rE`; the `k`-th one after them on
/// the stack above `rE` at `[rE + k]` (above the saved `rE` at `[rE + 1]` and
/// the return address at `[rE + 2]`).
pub open spec fn param_offset(k: int) -> int {
    if k < 3 {
        k
    } else {
        -k
    }
}

/// Whether no parameter from index `i` on is named `k`.
pub open spec fn unnamed_after(ps: Seq<(String, Type)>, i: int, k: Seq<char>) -> bool {
    forall|j: int| i <= j < ps.len() ==> #[trigger] ps[j].0@ != k
}

proof fn lemma_params_layout(st: GenState, ps: Seq<(String, Type)>, i: int, stack_offset: int)
    requires
        st.scopes.len() >= 1,
        0 <= i <= ps.len(),
        gen_params(st, ps, i, stack_offset) is Some,
        i < 3 ==> st.offset == i && stack_offset == 3,
        i >= 3 ==> stack_offset == i,
        forall|j: int| i <= j < ps.len() ==> type_size(#[trigger] ps[j].1) == 1,
        forall|j: int, k: int| i <= j < k < ps.len() ==> #[trigger] ps[j].0@ != #[trigger] ps[k].0@,
    ensures
        ({
            let r = gen_params(st, ps, i, stack_offset)->0;
            &&& r.scopes.len() == st.scopes.len()
            &&& r.scopes.drop_last() == st.scopes.drop_last()
            &&& forall|j: int|
                i <= j < ps.len() ==> r.scopes.last().contains_key(#[trigger] ps[j].0@) && r.scopes.last()[ps[j].0@]
                    == (VariableLocation { offset: param_offset(j) as i16, size: 1 })
            &&& forall|k: Seq<char>|
                #[trigger] unnamed_after(ps, i, k) ==> (r.scopes.last().contains_key(k)
                    == st.scopes.last().contains_key(k) && (st.scopes.last().contains_key(k) ==> r.scopes.last()[k]
                    == st.scopes.last()[k]))
        }),
    decreases ps.len() - i,
{
    if i < ps.len() {
        let name = ps[i].0@;
        let s1 = if i < 3 {
            let reg = if i == 0 {
                "psh rA"@
            } else if i == 1 {
                "psh rB"@
            } else {
                "psh rC"@
            };
            insert_var(emit(st, reg), name, 1)->0
        } else {
            bind(st, name, VariableLocation { offset: (-stack_offset) as i16, size: 1 })
        };
        assert(s1.scopes.last() == st.scopes.last().insert(
            name,
            VariableLocation { offset: param_offset(i) as i16, size: 1 },
        ));
        assert(s1.scopes.drop_last() =~= st.scopes.drop_last());
        let next = if i < 3 {
            stack_offset
        } else {
            stack_offset + 1
        };
        assert(gen_params(st, ps, i, stack_offset) == gen_params(s1, ps, i + 1, next));
        lemma_params_layout(s1, ps, i + 1, next);
        let r = gen_params(st, ps, i, stack_offset)->0;
        assert forall|j: int| i + 1 <= j < ps.len() implies #[trigger] ps[j].0@ != name by {
            assert(ps[i].0@ != ps[j].0@);
        }
        assert(unnamed_after(ps, i + 1, name));
        assert forall|k: Seq<char>| #[trigger] unnamed_after(ps, i, k) implies (r.scopes.last().contains_key(k)
            == st.scopes.last().contains_key(k) && (st.scopes.last().contains_key(k) ==> r.scopes.last()[k]
            == st.scopes.last()[k])) by {
            assert(ps[i].0@ != k);
            assert(unnamed_after(ps, i + 1, k));
        }
    }
}

/// The stack frame of a function whose parameters each take one word and
/// have distinct names: the code starts with the function's label, pushes
/// the caller's `rE` and sets `rE` to the stack pointer; then the first three
/// parameters are pushed from `rA`, `rB`, `rC` and live at `[rE - 0]`,
/// `[rE - 1]`, `[rE - 2]`, and the `k`-th parameter after them lives at
/// `[rE + k]`, while the body is generated.
pub proof fn lemma_frame_layout(st: GenState, name: Seq<char>, params: Seq<(String, Type)>)
    requires
        gen_params(
            GenState { offset: 0, ..open_scope(emit(emit(emit_label(st, "!"@ + name), "psh rE"@), "set rE, SP"@)) },
            params,
            0,
            3,
        ) is Some,
        forall|j: int| 0 <= j < params.len() ==> type_size(#[trigger] params[j].1) == 1,
        forall|j: int, k: int| 0 <= j < k < params.len() ==> #[trigger] params[j].0@ != #[trigger] params[k].0@,
    ensures
        ({
            let s1 = emit(emit(emit_label(st, "!"@ + name), "psh rE"@), "set rE, SP"@);
            let s2 = gen_params(GenState { offset: 0, ..open_scope(s1) }, params, 0, 3)->0;
            &&& s1.output == st.output + "!"@ + name + "\n"@ + line("psh rE"@) + line("set rE, SP"@)
            &&& forall|j: int|
                0 <= j < params.len() ==> find(s2.scopes, #[trigger] params[j].0@) == Some(
                    VariableLocation { offset: param_offset(j) as i16, size: 1 },
                )
            &&& forall|j: int| 0 <= j < params.len() ==> frame_addr(#[trigger] param_offset(j)) == if j < 3 {
                "[rE - "@ + dec(j as nat) + "]"@
            } else {
                "[rE + "@ + dec(j as nat) + "]"@
            }
        }),
{
    let s1 = emit(emit(emit_label(st, "!"@ + name), "psh rE"@), "set rE, SP"@);
    let s0 = GenState { offset: 0, ..open_scope(s1) };
    lemma_params_layout(s0, params, 0, 3);
    let s2 = gen_params(s0, params, 0, 3)->0;
    assert(s1.output =~= st.output + "!"@ + name + "\n"@ + line("psh rE"@) + line("set rE, SP"@));
    assert forall|j: int| 0 <= j < params.len() implies find(s2.scopes, #[trigger] params[j].0@) == Some(
        VariableLocation { offset: param_offset(j) as i16, size: 1 },
    ) by {
        crate::analysis::symbol::lemma_find_innermost(s2.scopes.drop_last(), s2.scopes.last(), params[j].0@);
        assert(s2.scopes.drop_last().push(s2.scopes.last()) =~= s2.scopes);
    }
}

/// Whether a comparison operator holds between two values.
pub open spec fn compares(op: TokenKind, a: int, b: int) -> bool {
    match op {
        TokenKind::Equality => a == b,
        TokenKind::BangEqual => a != b,
        TokenKind::Gt => a > b,
        TokenKind::Gte => a >= b,
        TokenKind::Lt => a < b,
        TokenKind::Lte => a <= b,
        _ => false,
    }
}

pub open spec fn is_comparison(op: TokenKind) -> bool {
    op is Equality || op is BangEqual || op is Gt || op is Gte || op is Lt || op is Lte
}

/// Whether a TeenyAT conditional jump is taken after `cmp rA, rB`, with `a`
/// in `rA` and `b` in `rB`: `je` on equal, `jne` on different, `jg` when
/// `rA` is greater, `jge` greater or equal, `jl` less, `jle` less or equal.
pub open spec fn jump_taken(jump: Seq<char>, a: int, b: int) -> bool {
    if jump == "je"@ {
        a == b
    } else if jump == "jne"@ {
        a != b
    } else if jump == "jg"@ {
        a > b
    } else if jump == "jge"@ {
        a >= b
    } else if jump == "jl"@ {
        a < b
    } else if jump == "jle"@ {
        a <= b
    } else {
        false
    }
}

/// A comparison `lhs op rhs` computes whether `op` holds: the left operand's
/// value ends in `rA` and the right one's in `rB`, they are compared, and the
/// jump to the line that sets `rA` to 1 is taken exactly when `op` holds
/// between them; otherwise `rA` is set to 0. The result is pushed.
pub proof fn lemma_comparison_code(st: GenState, lhs: Expr, op: TokenKind, rhs: Expr, a: int, b: int)
    requires
        is_comparison(op),
        gen_binary(st, lhs, op, rhs) is Some,
    ensures
        jump_taken(jump_of(op), a, b) == compares(op, a, b),
        ({
            let s2 = gen_expr(gen_expr(st, lhs)->0, rhs)->0;
            let l_true = label_name("cmp_true"@, s2.labels);
            let l_end = label_name("cmp_end"@, s2.labels + 1);
            gen_binary(st, lhs, op, rhs)->0.output == s2.output + line("pop rB"@) + line("pop rA"@) + line(
                "cmp rA, rB"@,
            ) + line(jump_of(op) + " "@ + l_true) + line("set rA, 0"@) + line("jmp "@ + l_end) + l_true + "\n"@
                + line("set rA, 1"@) + l_end + "\n"@ + line("psh rA"@)
        }),
{
    reveal_strlit("je");
    reveal_strlit("jne");
    reveal_strlit("jg");
    reveal_strlit("jge");
    reveal_strlit("jl");
    reveal_strlit("jle");
    assert("je"@[1] == 'e' && "jg"@[1] == 'g' && "jl"@[1] == 'l');
    assert("jne"@[1] == 'n' && "jge"@[1] == 'g' && "jle"@[1] == 'l');
    assert("je"@ != "jg"@ && "je"@ != "jl"@ && "jg"@ != "jl"@);
    assert("jne"@ != "jge"@ && "jne"@ != "jle"@ && "jge"@ != "jle"@);
    let s2 = gen_expr(gen_expr(st, lhs)->0, rhs)->0;
    let l_true = label_name("cmp_true"@, s2.labels);
    let l_end = label_name("cmp_end"@, s2.labels + 1);
    let r = gen_binary(st, lhs, op, rhs)->0;
    assert(r.output =~= s2.output + line("pop rB"@) + line("pop rA"@) + line("cmp rA, rB"@) + line(
        jump_of(op) + " "@ + l_true,
    ) + line("set rA, 0"@) + line("jmp "@ + l_end) + l_true + "\n"@ + line("set rA, 1"@) + l_end + "\n"@
        + line("psh rA"@));
}

/// The TeenyAT instructions that compute an arithmetic or bitwise operator
/// on `rA` (left operand) and `rB` (right operand) into `rA`: `add`, `sub`,
/// `mpy`, `div`, `mod`, `and`, `or`, `xor`; a left shift negates the count
/// and shifts (`shf` shifts right by a positive count, left by a negative
/// one), a right shift shifts by the count.
pub open spec fn isa_code(op: TokenKind) -> Seq<char> {
    match op {
        TokenKind::Plus => line("add rA, rB"@),
        TokenKind::Minus => line("sub rA, rB"@),
        TokenKind::Star => line("mpy rA, rB"@),
        TokenKind::Slash => line("div rA, rB"@),
        TokenKind::Percent => line("mod rA, rB"@),
        TokenKind::BitAnd => line("and rA, rB"@),
        TokenKind::BitOr => line("or rA, rB"@),
        TokenKind::BitXor => line("xor rA, rB"@),
        TokenKind::LeftShift => line("neg rB"@) + line("shf rA, rB"@),
        _ => line("shf rA, rB"@),
    }
}

pub open spec fn is_arithmetic(op: TokenKind) -> bool {
    op is Plus || op is Minus || op is Star || op is Slash || op is Percent || op is BitAnd || op is BitOr
        || op is BitXor || op is LeftShift || op is RightShift
}

/// An arithmetic or bitwise operation `lhs op rhs` computes `op` on its
/// operands in order: both are pushed, the right one is popped into `rB` and
/// the left one into `rA`, the instructions that compute `op` on them run,
/// and the result in `rA` is pushed.
pub proof fn lemma_arithmetic_code(st: GenState, lhs: Expr, op: TokenKind, rhs: Expr)
    requires
        is_arithmetic(op),
        gen_binary(st, lhs, op, rhs) is Some,
    ensures
        ({
            let s2 = gen_expr(gen_expr(st, lhs)->0, rhs)->0;
            gen_binary(st, lhs, op, rhs)->0.output == s2.output + line("pop rB"@) + line("pop rA"@) + isa_code(op)
                + line("psh rA"@)
        }),
{
    let s2 = gen_expr(gen_expr(st, lhs)->0, rhs)->0;
    let r = gen_binary(st, lhs, op, rhs)->0;
    assert(r.output =~= s2.output + line("pop rB"@) + line("pop rA"@) + isa_code(op) + line("psh rA"@));
}

/// `!x` is 1 exactly when `x` is 0: after `cmp rA, rZ` (`rZ` is always 0)
/// the jump to the line that sets 1 is taken exactly when the operand is 0.
/// `-x` negates the operand, `~x` flips its 16 bits (`xor` with 65535), and
/// `*p` loads the word at the address the operand holds.
pub proof fn lemma_unary_code(st: GenState, op: TokenKind, v: int)
    requires
        op is Minus || op is Bang || op is Star || op is BitNot,
        unary_op_code(st, op) is Some,
    ensures
        op is Minus ==> unary_op_code(st, op)->0.output == st.output + line("neg rA"@),
        op is BitNot ==> unary_op_code(st, op)->0.output == st.output + line("xor rA, 65535"@),
        op is Star ==> unary_op_code(st, op)->0.output == st.output + line("lod rA, [rA]"@),
        op is Bang ==> ({
            let l_true = label_name("not_true"@, st.labels);
            let l_end = label_name("not_end"@, st.labels + 1);
            &&& unary_op_code(st, op)->0.output == st.output + line("cmp rA, rZ"@) + line("je"@ + " "@ + l_true)
                + line("set rA, 0"@) + line("jmp "@ + l_end) + l_true + "\n"@ + line("set rA, 1"@) + l_end + "\n"@
            &&& jump_taken("je"@, v, 0) == (v == 0)
        }),
{
    reveal_strlit("je");
    if op is Bang {
        let l_true = label_name("not_true"@, st.labels);
        let l_end = label_name("not_end"@, st.labels + 1);
        assert(unary_op_code(st, op)->0.output =~= st.output + line("cmp rA, rZ"@) + line("je"@ + " "@ + l_true)
            + line("set rA, 0"@) + line("jmp "@ + l_end) + l_true + "\n"@ + line("set rA, 1"@) + l_end + "\n"@);
    }
}

/// Whether the value of one operand of `&&` or `||` decides the result:
/// a false (zero) operand decides `&&`, a true one decides `||`.
pub open spec fn logic_decides(op: TokenKind, v: int) -> bool {
    if op is And {
        v == 0
    } else {
        v != 0
    }
}

/// `&&` and `||` short-circuit and compute the logical operation: after each
/// operand's value is compared with 0, the jump past the rest is taken
/// exactly when that value decides the result; the result set there is 0
/// for `&&` (an operand was false) and 1 for `||` (an operand was true), and
/// the result when neither operand decided is 1 for `&&` (both were true)
/// and 0 for `||` (both were false).
pub proof fn lemma_logic_code(op: TokenKind, v: int)
    requires
        is_logic(op),
    ensures
        exists|j: Seq<char>| logic_jump(op) == j + " "@ && jump_taken(j, v, 0) == logic_decides(op, v),
        logic_decided(op) == "set rA, "@ + (if op is And { "0"@ } else { "1"@ }),
        logic_fall(op) == "set rA, "@ + (if op is And { "1"@ } else { "0"@ }),
{
    reveal_strlit("je");
    reveal_strlit("jne");
    reveal_strlit("je ");
    reveal_strlit("jne ");
    reveal_strlit(" ");
    reveal_strlit("set rA, ");
    reveal_strlit("set rA, 0");
    reveal_strlit("set rA, 1");
    reveal_strlit("0");
    reveal_strlit("1");
    assert("je"@[1] == 'e' && "jne"@[1] == 'n');
    if op is And {
        assert(logic_jump(op) =~= "je"@ + " "@);
        assert(jump_taken("je"@, v, 0) == logic_decides(op, v));
    } else {
        assert(logic_jump(op) =~= "jne"@ + " "@);
        assert(jump_taken("jne"@, v, 0) == logic_decides(op, v));
    }
    assert("set rA, 0"@ =~= "set rA, "@ + "0"@);
    assert("set rA, 1"@ =~= "set rA, "@ + "1"@);
}

/// A `while` loop tests its condition at its start label, leaves the loop
/// (jumps to its end label) exactly when the condition is false (0), runs
/// the body otherwise and jumps back to the start; the two labels differ.
#[verifier::rlimit(40)]
pub proof fn lemma_while_code(st: GenState, tm: Map<usize, Type>, cond: Expr, body: Stmt, v: int)
    requires
        gen_while(st, tm, cond, body) is Some,
    ensures
        ({
            let l_start = label_name("while_start"@, st.labels);
            let l_end = label_name("while_end"@, st.labels + 1);
            let s1 = gen_expr(emit_label(take_labels(st, 2), l_start), cond)->0;
            let t = emit(emit(emit(s1, "pop rA"@), "cmp rA, rZ"@), "je "@ + l_end);
            let s2 = gen_stmt(t, tm, body)->0;
            &&& (st.output + l_start + "\n"@).is_prefix_of(s1.output)
            &&& t.output == s1.output + line("pop rA"@) + line("cmp rA, rZ"@) + line("je "@ + l_end)
            &&& gen_while(st, tm, cond, body)->0.output == s2.output + line("jmp "@ + l_start) + l_end + "\n"@
            &&& jump_taken("je"@, v, 0) == (v == 0)
            &&& l_start != l_end
        }),
{
    reveal_strlit("je");
    let l_start = label_name("while_start"@, st.labels);
    let l_end = label_name("while_end"@, st.labels + 1);
    let s0 = emit_label(take_labels(st, 2), l_start);
    let s1 = gen_expr(s0, cond)->0;
    lemma_gen_expr_extends(s0, cond);
    assert(s0.output == st.output + l_start + "\n"@);
    let t = emit(emit(emit(s1, "pop rA"@), "cmp rA, rZ"@), "je "@ + l_end);
    assert(t.output =~= s1.output + line("pop rA"@) + line("cmp rA, rZ"@) + line("je "@ + l_end));
    let s2 = gen_stmt(t, tm, body)->0;
    assert(gen_while(st, tm, cond, body)->0.output =~= s2.output + line("jmp "@ + l_start) + l_end + "\n"@);
    if l_start == l_end {
        lemma_labels_distinct("while_start"@, st.labels, "while_end"@, st.labels + 1);
    }
}

/// An `if` tests its condition, jumps to its else label exactly when the
/// condition is false (0), runs the then branch otherwise and jumps past the
/// else branch to its end label; the two labels differ.
pub proof fn lemma_if_code(st: GenState, tm: Map<usize, Type>, cond: Expr, then_branch: Stmt, else_branch: Option<&Stmt>, v: int)
    requires
        gen_if(st, tm, cond, then_branch, else_branch) is Some,
    ensures
        ({
            let s1 = gen_expr(st, cond)->0;
            let s2 = emit(emit(s1, "pop rA"@), "cmp rA, rZ"@);
            let l_else = label_name("if_else"@, s2.labels);
            let l_end = label_name("if_end"@, s2.labels + 1);
            let t = emit(take_labels(s2, 2), "je "@ + l_else);
            let s3 = gen_stmt(t, tm, then_branch)->0;
            let s4 = emit_label(emit(s3, "jmp "@ + l_end), l_else);
            &&& t.output == s1.output + line("pop rA"@) + line("cmp rA, rZ"@) + line("je "@ + l_else)
            &&& s4.output == s3.output + line("jmp "@ + l_end) + l_else + "\n"@
            &&& gen_if(st, tm, cond, then_branch, else_branch)->0.output == match else_branch {
                Some(b) => gen_stmt(s4, tm, *b)->0.output,
                None => s4.output,
            } + l_end + "\n"@
            &&& jump_taken("je"@, v, 0) == (v == 0)
            &&& l_else != l_end
        }),
{
    reveal_strlit("je");
    let s1 = gen_expr(st, cond)->0;
    let s2 = emit(emit(s1, "pop rA"@), "cmp rA, rZ"@);
    let l_else = label_name("if_else"@, s2.labels);
    let l_end = label_name("if_end"@, s2.labels + 1);
    let t = emit(take_labels(s2, 2), "je "@ + l_else);
    assert(t.output =~= s1.output + line("pop rA"@) + line("cmp rA, rZ"@) + line("je "@ + l_else));
    let s3 = gen_stmt(t, tm, then_branch)->0;
    let s4 = emit_label(emit(s3, "jmp "@ + l_end), l_else);
    assert(s4.output =~= s3.output + line("jmp "@ + l_end) + l_else + "\n"@);
    if l_else == l_end {
        lemma_labels_distinct("if_else"@, s2.labels, "if_end"@, s2.labels + 1);
    }
}

} // verus!
