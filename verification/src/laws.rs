use vstd::prelude::*;
use crate::ast::Expr;
use crate::ast::Lit;
use crate::ast::Stmt;
use crate::errors::LowerError;
use crate::ir::IrOp;
use crate::ir::args_avail;
use crate::ir::decl_slots;
use crate::ir::decl_ty_seq;
use crate::ir::lemma_args_avail_push;
use crate::ir::lemma_decl_slots_add;
use crate::ir::lemma_decl_ty_seq_push;
use crate::ir::lemma_ops_wf_at;
use crate::ir::lemma_ops_wf_push;
use crate::ir::op_wf;
use crate::ir::ops_wf;
use crate::literal::spec_eval_literal;
use crate::lower::arg_ops_ok;
use crate::lower::lemma_ops_wf_append_args;
use crate::lower::lemma_spec_lower_args_ok;
use crate::lower::spec_lower_args;
use crate::lower::spec_lower_expr;
use crate::lower::spec_lower_program;
use crate::lower::spec_lower_stmt;
use crate::lower::spec_lower_var_decl;
use crate::lower::spec_lower_var_def;
use crate::runtime::RuntimeTable;
use crate::symtab::lemma_spec_find_in_range;
use crate::symtab::spec_bound;
use crate::symtab::spec_find;
use crate::types::MachineType;
use crate::types::RageType;

verus! {

/// Declaration uniqueness: declaring a name that is already bound is
/// deterministically rejected with `DuplicateDeclaration` (once its type
/// keyword resolves), and the symbol map is left exactly as it was — the
/// failure never disturbs slot allocation.
pub proof fn lemma_declaration_uniqueness(
    m: Seq<(Seq<char>, RageType)>,
    name: Seq<char>,
    tyname: Seq<char>,
)
    requires
        spec_bound(m, name),
        RageType::spec_from_str(tyname) is Some,
    ensures
        spec_lower_var_decl(m, name, tyname) == Err::<(Seq<(Seq<char>, RageType)>, IrOp), _>(
            LowerError::DuplicateDeclaration,
        ),
{
}

/// Type-directed literal widening: a character or boolean literal
/// assigned to a variable of an integer-family declared type is
/// materialized at the *declared* type's width, not at the literal's own
/// apparent width.
pub proof fn lemma_literal_widening(m: Seq<(Seq<char>, RageType)>, name: Seq<char>, value: Lit)
    requires
        spec_find(m, name) is Some,
        value matches Lit::Char(_) || value matches Lit::Boolean(_),
        spec_eval_literal(value) is Ok,
        spec_find(m, name)->Some_0.1.spec_machine_type() matches Ok(mt) && mt.spec_is_int(),
    ensures
        spec_lower_var_def(m, name, value) == Ok::<IrOp, LowerError>(
            IrOp::DefConst {
                slot: spec_find(m, name)->Some_0.0 as u32,
                ty: spec_find(m, name)->Some_0.1.spec_machine_type()->Ok_0,
                value: spec_eval_literal(value)->Ok_0,
            },
        ),
        spec_lower_var_def(m, name, value)->Ok_0->DefConst_ty.spec_bits() == spec_find(
            m,
            name,
        )->Some_0.1.spec_machine_type()->Ok_0.spec_bits(),
{
}

/// Slot assignment: in any well-formed operation sequence, a declaration
/// declares exactly the next slot — its index equals the number of slots
/// declared before it.
pub proof fn lemma_slot_of_declaration(ops: Seq<IrOp>, k: int)
    requires
        ops_wf(ops),
        0 <= k < ops.len(),
        ops[k] matches IrOp::DeclareVar { .. },
    ensures
        ops[k] matches IrOp::DeclareVar { slot, ty } && slot as nat == decl_ty_seq(
            ops.take(k),
        ).len(),
{
    lemma_ops_wf_at(ops, k);
}

/// Prefixes declare no fewer slots as they grow.
proof fn lemma_decl_len_mono(ops: Seq<IrOp>, i: int, j: int)
    requires
        0 <= i <= j <= ops.len(),
    ensures
        decl_ty_seq(ops.take(i)).len() <= decl_ty_seq(ops.take(j)).len(),
    decreases j - i,
{
    if i < j {
        lemma_decl_len_mono(ops, i, j - 1);
        assert(ops.take(j).drop_last() =~= ops.take(j - 1));
    }
}

/// Slot monotonicity: for successful declarations in order, slot indices
/// strictly increase and are never reused — the `n`-th declaration of a
/// well-formed sequence always takes slot `n`, so the slots of `N`
/// declarations are `0, 1, …, N - 1` whatever else stands between them.
pub proof fn lemma_slot_monotonicity(ops: Seq<IrOp>, a: int, b: int)
    requires
        ops_wf(ops),
        0 <= a < b < ops.len(),
        ops[a] matches IrOp::DeclareVar { .. },
        ops[b] matches IrOp::DeclareVar { .. },
    ensures
        ops[a]->DeclareVar_slot < ops[b]->DeclareVar_slot,
{
    lemma_slot_of_declaration(ops, a);
    lemma_slot_of_declaration(ops, b);
    assert(ops.take(a + 1).drop_last() =~= ops.take(a));
    assert(ops.take(a + 1).last() == ops[a]);
    lemma_decl_len_mono(ops, a + 1, b);
}

/// Argument-shaped operations declare nothing.
proof fn lemma_arg_ops_no_decls(n: int, s: Seq<IrOp>)
    requires
        arg_ops_ok(n, s),
    ensures
        decl_slots(s) == Seq::<u32>::empty(),
    decreases s.len(),
{
    if s.len() > 0 {
        assert(arg_ops_ok(n, s.drop_last()));
        lemma_arg_ops_no_decls(n, s.drop_last());
    }
}

/// One lowered statement declares consecutive slots, starting at the
/// next free index.
proof fn lemma_stmt_decl_slots(m: Seq<(Seq<char>, RageType)>, t: RuntimeTable, s: Stmt)
    requires
        spec_lower_stmt(m, t, s) is Ok,
    ensures
        spec_lower_stmt(m, t, s)->Ok_0.0.len() >= m.len(),
        decl_slots(spec_lower_stmt(m, t, s)->Ok_0.1) == Seq::new(
            (spec_lower_stmt(m, t, s)->Ok_0.0.len() - m.len()) as nat,
            |j: int| (m.len() + j) as u32,
        ),
{
    let ops = spec_lower_stmt(m, t, s)->Ok_0.1;
    let m2 = spec_lower_stmt(m, t, s)->Ok_0.0;
    match s {
        Stmt::VarDeclaration { identifier, typing } => {
            let op = spec_lower_var_decl(m, identifier@, typing@)->Ok_0.1;
            assert(ops == seq![op]);
            assert(seq![op].drop_last() =~= Seq::<IrOp>::empty());
            assert(seq![op].last() == op);
            assert(decl_slots(ops) == decl_slots(Seq::<IrOp>::empty()).push(op->DeclareVar_slot));
            assert(decl_slots(ops) =~= Seq::new(
                (m2.len() - m.len()) as nat,
                |j: int| (m.len() + j) as u32,
            ));
        },
        Stmt::VarDefinition { identifier, value } => {
            let op = spec_lower_var_def(m, identifier@, value)->Ok_0;
            assert(ops == seq![op]);
            assert(seq![op].drop_last() =~= Seq::<IrOp>::empty());
            assert(seq![op].last() == op);
            assert(!(op matches IrOp::DeclareVar { .. }));
            assert(decl_slots(ops) == decl_slots(Seq::<IrOp>::empty()));
            assert(decl_slots(ops) =~= Seq::new(
                (m2.len() - m.len()) as nat,
                |j: int| (m.len() + j) as u32,
            ));
        },
        Stmt::FnCall { identifier, args } => {
            let arg_ops = spec_lower_args(m, args@)->Ok_0;
            lemma_spec_lower_args_ok(m, args@);
            lemma_arg_ops_no_decls(m.len() as int, arg_ops);
            assert(ops.drop_last() =~= arg_ops);
            assert(decl_slots(ops) =~= Seq::new(
                (m2.len() - m.len()) as nat,
                |j: int| (m.len() + j) as u32,
            ));
        },
        Stmt::EndOfInput => {
            assert(decl_slots(ops) =~= Seq::new(
                (m2.len() - m.len()) as nat,
                |j: int| (m.len() + j) as u32,
            ));
        },
    }
}

/// A successfully lowered program declares consecutive slots, starting
/// at the next free index of the map it began with.
pub proof fn lemma_program_slot_indices(
    m: Seq<(Seq<char>, RageType)>,
    t: RuntimeTable,
    stmts: Seq<Stmt>,
)
    requires
        spec_lower_program(m, t, stmts) is Ok,
    ensures
        spec_lower_program(m, t, stmts)->Ok_0.0.len() >= m.len(),
        decl_slots(spec_lower_program(m, t, stmts)->Ok_0.1) == Seq::new(
            (spec_lower_program(m, t, stmts)->Ok_0.0.len() - m.len()) as nat,
            |j: int| (m.len() + j) as u32,
        ),
    decreases stmts.len(),
{
    if stmts.len() == 0 {
        assert(decl_slots(Seq::<IrOp>::empty()) =~= Seq::new(
            0nat,
            |j: int| (m.len() + j) as u32,
        ));
    } else {
        lemma_stmt_decl_slots(m, t, stmts[0]);
        let m1 = spec_lower_stmt(m, t, stmts[0])->Ok_0.0;
        let ops1 = spec_lower_stmt(m, t, stmts[0])->Ok_0.1;
        lemma_program_slot_indices(m1, t, stmts.skip(1));
        let m2 = spec_lower_program(m1, t, stmts.skip(1))->Ok_0.0;
        let ops2 = spec_lower_program(m1, t, stmts.skip(1))->Ok_0.1;
        lemma_decl_slots_add(ops1, ops2);
        assert(decl_slots(ops1) + decl_slots(ops2) =~= Seq::new(
            (m2.len() - m.len()) as nat,
            |j: int| (m.len() + j) as u32,
        ));
    }
}

/// Slot monotonicity at the program level: lowering a program from the
/// empty scope gives its `N` successful declarations, in order, exactly
/// the slot indices `0, 1, …, N - 1` — strictly increasing, with no
/// reuse even when an earlier-declared name is later reassigned.
pub proof fn lemma_program_slots_from_empty(t: RuntimeTable, stmts: Seq<Stmt>)
    requires
        spec_lower_program(Seq::<(Seq<char>, RageType)>::empty(), t, stmts) is Ok,
    ensures
        decl_slots(
            spec_lower_program(Seq::<(Seq<char>, RageType)>::empty(), t, stmts)->Ok_0.1,
        ) == Seq::new(
            spec_lower_program(Seq::<(Seq<char>, RageType)>::empty(), t, stmts)->Ok_0.0.len(),
            |j: int| j as u32,
        ),
{
    lemma_program_slot_indices(Seq::<(Seq<char>, RageType)>::empty(), t, stmts);
    let n = spec_lower_program(Seq::<(Seq<char>, RageType)>::empty(), t, stmts)->Ok_0.0.len();
    assert(Seq::new((n - 0) as nat, |j: int| (0 + j) as u32) =~= Seq::new(n, |j: int| j as u32));
}

/// Round trip of literal encodings: an integer literal denoting `n` and
/// a character literal whose scalar has ordinal `n`, assigned to the
/// same variable, lower to the same machine constant.
pub proof fn lemma_literal_round_trip(
    m: Seq<(Seq<char>, RageType)>,
    name: Seq<char>,
    number: Lit,
    character: Lit,
)
    requires
        number matches Lit::Number(_),
        character matches Lit::Char(_),
        spec_eval_literal(number) is Ok,
        spec_eval_literal(number) == spec_eval_literal(character),
    ensures
        spec_lower_var_def(m, name, number) == spec_lower_var_def(m, name, character),
{
}

/// Undeclared-use failure, assignment side: defining a name never
/// declared fails with `UndeclaredVariable`, whatever the literal says.
pub proof fn lemma_undeclared_assignment(
    m: Seq<(Seq<char>, RageType)>,
    name: Seq<char>,
    value: Lit,
)
    requires
        !spec_bound(m, name),
    ensures
        spec_lower_var_def(m, name, value) == Err::<IrOp, LowerError>(
            LowerError::UndeclaredVariable,
        ),
{
}

/// Undeclared-use failure, read side: an identifier expression naming a
/// variable never declared fails with `UndeclaredVariable`; one naming a
/// declared variable reads that variable's slot.
pub proof fn lemma_identifier_resolution(m: Seq<(Seq<char>, RageType)>, name: String)
    ensures
        !spec_bound(m, name@) ==> spec_lower_expr(m, Expr::Identifier(name)) == Err::<
            IrOp,
            LowerError,
        >(LowerError::UndeclaredVariable),
        spec_bound(m, name@) ==> spec_lower_expr(m, Expr::Identifier(name)) == Ok::<
            IrOp,
            LowerError,
        >(IrOp::ArgUse { slot: spec_find(m, name@)->Some_0.0 as u32 }) && 0 <= spec_find(
            m,
            name@,
        )->Some_0.0 < m.len(),
{
    if spec_bound(m, name@) {
        lemma_spec_find_in_range(m, name@);
    }
}

/// A lowering context is coherent when the operations emitted so far are
/// well formed with no pending call arguments, and the slots they
/// declared mirror the symbol map: one slot per binding, at the machine
/// representation of its declared type.
pub open spec fn coherent(base: Seq<IrOp>, m: Seq<(Seq<char>, RageType)>) -> bool {
    &&& ops_wf(base)
    &&& args_avail(base) == 0
    &&& decl_ty_seq(base).len() == m.len()
    &&& forall|i: int|
        0 <= i < m.len() ==> ((#[trigger] m[i]).1.spec_machine_type() matches Ok(mt)
            && decl_ty_seq(base)[i] == mt)
}

/// Lowering one statement preserves coherence.
proof fn lemma_stmt_ops_wf(
    base: Seq<IrOp>,
    m: Seq<(Seq<char>, RageType)>,
    t: RuntimeTable,
    s: Stmt,
)
    requires
        coherent(base, m),
        m.len() + 1 < 0xffff_ffffu32,
        t.put_char < 0xffff_ffffu32,
        t.get_char < 0xffff_ffffu32,
        spec_lower_stmt(m, t, s) is Ok,
    ensures
        coherent(base + spec_lower_stmt(m, t, s)->Ok_0.1, spec_lower_stmt(m, t, s)->Ok_0.0),
        spec_lower_stmt(m, t, s)->Ok_0.0.len() <= m.len() + 1,
{
    let m2 = spec_lower_stmt(m, t, s)->Ok_0.0;
    let ops = spec_lower_stmt(m, t, s)->Ok_0.1;
    match s {
        Stmt::VarDeclaration { identifier, typing } => {
            let op = spec_lower_var_decl(m, identifier@, typing@)->Ok_0.1;
            assert(op_wf(base, op));
            lemma_ops_wf_push(base, op);
            lemma_decl_ty_seq_push(base, op);
            lemma_args_avail_push(base, op);
            assert(base + ops =~= base.push(op));
        },
        Stmt::VarDefinition { identifier, value } => {
            lemma_spec_find_in_range(m, identifier@);
            let op = spec_lower_var_def(m, identifier@, value)->Ok_0;
            assert(op_wf(base, op));
            lemma_ops_wf_push(base, op);
            lemma_decl_ty_seq_push(base, op);
            lemma_args_avail_push(base, op);
            assert(base + ops =~= base.push(op));
        },
        Stmt::FnCall { identifier, args } => {
            let arg_ops = spec_lower_args(m, args@)->Ok_0;
            vstd::std_specs::vec::axiom_spec_len(&args);
            lemma_spec_lower_args_ok(m, args@);
            lemma_ops_wf_append_args(base, arg_ops);
            let call_op = ops.last();
            assert(op_wf(base + arg_ops, call_op));
            lemma_ops_wf_push(base + arg_ops, call_op);
            lemma_decl_ty_seq_push(base + arg_ops, call_op);
            lemma_args_avail_push(base + arg_ops, call_op);
            assert(base + ops =~= (base + arg_ops).push(call_op));
        },
        Stmt::EndOfInput => {
            assert(base + ops =~= base);
        },
    }
}

/// Lowering a statement sequence preserves coherence.
pub proof fn lemma_program_ops_wf_from(
    base: Seq<IrOp>,
    m: Seq<(Seq<char>, RageType)>,
    t: RuntimeTable,
    stmts: Seq<Stmt>,
)
    requires
        coherent(base, m),
        m.len() + stmts.len() < 0xffff_ffffu32,
        t.put_char < 0xffff_ffffu32,
        t.get_char < 0xffff_ffffu32,
        spec_lower_program(m, t, stmts) is Ok,
    ensures
        coherent(
            base + spec_lower_program(m, t, stmts)->Ok_0.1,
            spec_lower_program(m, t, stmts)->Ok_0.0,
        ),
    decreases stmts.len(),
{
    if stmts.len() == 0 {
        assert(base + spec_lower_program(m, t, stmts)->Ok_0.1 =~= base);
    } else {
        lemma_stmt_ops_wf(base, m, t, stmts[0]);
        let m1 = spec_lower_stmt(m, t, stmts[0])->Ok_0.0;
        let ops1 = spec_lower_stmt(m, t, stmts[0])->Ok_0.1;
        lemma_program_ops_wf_from(base + ops1, m1, t, stmts.skip(1));
        let ops2 = spec_lower_program(m1, t, stmts.skip(1))->Ok_0.1;
        assert((base + ops1) + ops2 =~= base + (ops1 + ops2));
    }
}

/// The lowering engine only emits well-formed operation sequences: every
/// successful lowering of a program from the empty scope is well formed
/// under `ops_wf` — slots declared before use, declarations numbered in
/// order, definitions at the declared width, and calls consuming no more
/// argument values than stand pending.
pub proof fn lemma_program_ops_wf(t: RuntimeTable, stmts: Seq<Stmt>)
    requires
        stmts.len() < 0xffff_ffffu32,
        t.put_char < 0xffff_ffffu32,
        t.get_char < 0xffff_ffffu32,
        spec_lower_program(Seq::<(Seq<char>, RageType)>::empty(), t, stmts) is Ok,
    ensures
        ops_wf(spec_lower_program(Seq::<(Seq<char>, RageType)>::empty(), t, stmts)->Ok_0.1),
{
    let empty_ops = Seq::<IrOp>::empty();
    assert(decl_ty_seq(empty_ops) =~= Seq::<MachineType>::empty());
    assert(coherent(empty_ops, Seq::<(Seq<char>, RageType)>::empty()));
    lemma_program_ops_wf_from(
        empty_ops,
        Seq::<(Seq<char>, RageType)>::empty(),
        t,
        stmts,
    );
    assert(empty_ops + spec_lower_program(Seq::<(Seq<char>, RageType)>::empty(), t, stmts)->Ok_0.1
        =~= spec_lower_program(Seq::<(Seq<char>, RageType)>::empty(), t, stmts)->Ok_0.1);
}


} // verus!
