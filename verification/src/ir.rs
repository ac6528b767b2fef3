use vstd::prelude::*;
use crate::types::MachineType;

verus! {

/// One operation performed against the backend IR builder.
///
/// The lowered form of a program is a sequence of these, in emission
/// order. Operations that produce an argument value (`ArgConst`, `ArgUse`)
/// push it on an implicit value stack; `CallRt` consumes its last `argc`
/// values, in production order, as the call's arguments.
#[derive(Clone, Copy, PartialEq, Eq, Structural, Debug)]
pub enum IrOp {
    /// Declare storage for slot `slot` at machine type `ty`.
    DeclareVar { slot: u32, ty: MachineType },
    /// Materialize integer-family constant `value` at width `ty` and bind
    /// it to slot `slot`.
    DefConst { slot: u32, ty: MachineType, value: i64 },
    /// Materialize a 32-bit float constant with encoding `bits` and bind
    /// it to slot `slot`.
    DefConstF32 { slot: u32, bits: u32 },
    /// Materialize a 64-bit float constant with encoding `bits` and bind
    /// it to slot `slot`.
    DefConstF64 { slot: u32, bits: u64 },
    /// Materialize integer-family constant `value` at width `ty` as a
    /// pending call argument.
    ArgConst { ty: MachineType, value: i64 },
    /// Read the current value of slot `slot` as a pending call argument.
    ArgUse { slot: u32 },
    /// Call runtime-function handle `func` with the last `argc` pending
    /// argument values, in production order.
    CallRt { func: u32, argc: usize },
}

/// The machine types of the slots declared by `ops`, in slot order:
/// slot `i` was declared at `decl_ty_seq(ops)[i]`.
pub open spec fn decl_ty_seq(ops: Seq<IrOp>) -> Seq<MachineType>
    decreases ops.len(),
{
    if ops.len() == 0 {
        Seq::empty()
    } else {
        let rest = decl_ty_seq(ops.drop_last());
        match ops.last() {
            IrOp::DeclareVar { slot, ty } => rest.push(ty),
            _ => rest,
        }
    }
}

/// The slot numbers of the declarations in `ops`, in emission order.
pub open spec fn decl_slots(ops: Seq<IrOp>) -> Seq<u32>
    decreases ops.len(),
{
    if ops.len() == 0 {
        Seq::empty()
    } else {
        let rest = decl_slots(ops.drop_last());
        match ops.last() {
            IrOp::DeclareVar { slot, ty } => rest.push(slot),
            _ => rest,
        }
    }
}

/// `decl_slots` distributes over concatenation.
pub proof fn lemma_decl_slots_add(a: Seq<IrOp>, b: Seq<IrOp>)
    ensures
        decl_slots(a + b) == decl_slots(a) + decl_slots(b),
    decreases b.len(),
{
    if b.len() == 0 {
        assert(a + b =~= a);
        assert(decl_slots(a) + decl_slots(b) =~= decl_slots(a));
    } else {
        lemma_decl_slots_add(a, b.drop_last());
        assert((a + b).drop_last() =~= a + b.drop_last());
        assert((a + b).last() == b.last());
        match b.last() {
            IrOp::DeclareVar { slot, ty } => {
                assert(decl_slots(a) + decl_slots(b) =~= (decl_slots(a) + decl_slots(
                    b.drop_last(),
                )).push(slot));
            },
            _ => {},
        }
    }
}

/// How many pending (produced and not yet consumed) call-argument values
/// are left after `ops`.
pub open spec fn args_avail(ops: Seq<IrOp>) -> int
    decreases ops.len(),
{
    if ops.len() == 0 {
        0
    } else {
        let rest = args_avail(ops.drop_last());
        match ops.last() {
            IrOp::ArgConst { .. } => rest + 1,
            IrOp::ArgUse { .. } => rest + 1,
            IrOp::CallRt { func, argc } => rest - argc,
            _ => rest,
        }
    }
}

/// Whether `op` is well formed after the operations in `prefix`:
/// slots are declared before they are defined or read, slot numbers are
/// assigned in declaration order, definitions are materialized at the
/// declared width, integer constants carry an integer-family type, and a
/// call consumes no more argument values than are pending.
pub open spec fn op_wf(prefix: Seq<IrOp>, op: IrOp) -> bool {
    match op {
        IrOp::DeclareVar { slot, ty } => slot as nat == decl_ty_seq(prefix).len(),
        IrOp::DefConst { slot, ty, value } => (slot as nat) < decl_ty_seq(prefix).len()
            && decl_ty_seq(prefix)[slot as int] == ty
            && ty.spec_is_int(),
        IrOp::DefConstF32 { slot, bits } => (slot as nat) < decl_ty_seq(prefix).len()
            && decl_ty_seq(prefix)[slot as int] == MachineType::Float32,
        IrOp::DefConstF64 { slot, bits } => (slot as nat) < decl_ty_seq(prefix).len()
            && decl_ty_seq(prefix)[slot as int] == MachineType::Float64,
        IrOp::ArgConst { ty, value } => ty.spec_is_int(),
        IrOp::ArgUse { slot } => (slot as nat) < decl_ty_seq(prefix).len(),
        IrOp::CallRt { func, argc } => argc <= args_avail(prefix) && func < 0xffff_ffffu32,
    }
}

/// Well-formedness of a whole operation sequence.
pub open spec fn ops_wf(ops: Seq<IrOp>) -> bool
    decreases ops.len(),
{
    ops.len() == 0 || (ops_wf(ops.drop_last()) && op_wf(ops.drop_last(), ops.last()))
}

/// Pushing a well-formed next operation preserves well-formedness.
pub proof fn lemma_ops_wf_push(ops: Seq<IrOp>, op: IrOp)
    requires
        ops_wf(ops),
        op_wf(ops, op),
    ensures
        ops_wf(ops.push(op)),
{
    assert(ops.push(op).drop_last() =~= ops);
}

/// Every operation of a well-formed sequence is well formed after its
/// prefix.
pub proof fn lemma_ops_wf_at(ops: Seq<IrOp>, k: int)
    requires
        ops_wf(ops),
        0 <= k < ops.len(),
    ensures
        ops_wf(ops.take(k)),
        op_wf(ops.take(k), ops[k]),
    decreases ops.len(),
{
    if k == ops.len() - 1 {
        assert(ops.take(k) =~= ops.drop_last());
    } else {
        assert(ops.take(k) =~= ops.drop_last().take(k));
        lemma_ops_wf_at(ops.drop_last(), k);
    }
}

/// A prefix declares no more slots than the whole sequence.
pub proof fn lemma_decl_ty_seq_take_le(ops: Seq<IrOp>, k: int)
    requires
        0 <= k <= ops.len(),
    ensures
        decl_ty_seq(ops.take(k)).len() <= decl_ty_seq(ops).len(),
    decreases ops.len(),
{
    if k == ops.len() {
        assert(ops.take(k) =~= ops);
    } else {
        assert(ops.take(k) =~= ops.drop_last().take(k));
        lemma_decl_ty_seq_take_le(ops.drop_last(), k);
    }
}

/// `decl_ty_seq` after a push.
pub proof fn lemma_decl_ty_seq_push(ops: Seq<IrOp>, op: IrOp)
    ensures
        decl_ty_seq(ops.push(op)) == (match op {
            IrOp::DeclareVar { slot, ty } => decl_ty_seq(ops).push(ty),
            _ => decl_ty_seq(ops),
        }),
{
    assert(ops.push(op).drop_last() =~= ops);
    assert(ops.push(op).last() == op);
}

/// `args_avail` after a push.
pub proof fn lemma_args_avail_push(ops: Seq<IrOp>, op: IrOp)
    ensures
        args_avail(ops.push(op)) == (match op {
            IrOp::ArgConst { .. } => args_avail(ops) + 1,
            IrOp::ArgUse { .. } => args_avail(ops) + 1,
            IrOp::CallRt { func, argc } => args_avail(ops) - argc,
            _ => args_avail(ops),
        }),
{
    assert(ops.push(op).drop_last() =~= ops);
    assert(ops.push(op).last() == op);
}

} // verus!
