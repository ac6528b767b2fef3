use vstd::prelude::*;
use cranelift::codegen::ir::FuncRef;
use cranelift::prelude::FunctionBuilder;
use cranelift::prelude::Ieee32;
use cranelift::prelude::Ieee64;
use cranelift::prelude::InstBuilder;
use cranelift::prelude::Type;
use cranelift::prelude::Value;
use crate::ir::IrOp;
use crate::ir::args_avail;
use crate::ir::decl_ty_seq;
use crate::ir::lemma_args_avail_push;
use crate::ir::lemma_decl_ty_seq_push;
use crate::ir::lemma_decl_ty_seq_take_le;
use crate::ir::lemma_ops_wf_at;
use crate::ir::ops_wf;
use crate::types::MachineType;

verus! {

#[verifier::external_type_specification]
#[verifier::external_body]
pub struct ExFunctionBuilder<'a>(FunctionBuilder<'a>);

#[verifier::external_type_specification]
#[verifier::external_body]
pub struct ExValue(Value);

#[verifier::external_type_specification]
#[verifier::external_body]
pub struct ExType(Type);

/// The sequence of IR operations that this crate has performed against a
/// builder, in emission order. A `CallRt` entry records the called
/// handle and its argument count; which values were passed is governed by
/// the callers in this crate, which pass the pending argument values in
/// production order (see `IrOp` and `ops_wf`).
pub uninterp spec fn builder_trace(b: FunctionBuilder) -> Seq<IrOp>;

/// The machine types of the builder's declared variables, in declaration
/// order: variable `i` was declared at `builder_decl_tys(b)[i]`.
pub uninterp spec fn builder_decl_tys(b: FunctionBuilder) -> Seq<MachineType>;

/// Whether the builder is positioned inside a block, so that instructions
/// can be inserted.
pub uninterp spec fn builder_in_block(b: FunctionBuilder) -> bool;

/// The indices of the external function references declared in the
/// builder's function, as a set of entity numbers.
pub uninterp spec fn builder_func_refs(b: FunctionBuilder) -> Set<u32>;

/// Relies on cranelift's type constants `I8..I64`, `F32`, `F64`: maps a
/// machine type to the backend's type tag for it.
#[verifier::external_body]
pub(crate) fn cl_type_of(ty: &MachineType) -> Type {
    match ty {
        MachineType::Int8 => cranelift::prelude::types::I8,
        MachineType::Int16 => cranelift::prelude::types::I16,
        MachineType::Int32 => cranelift::prelude::types::I32,
        MachineType::Int64 => cranelift::prelude::types::I64,
        MachineType::Float32 => cranelift::prelude::types::F32,
        MachineType::Float64 => cranelift::prelude::types::F64,
    }
}

/// Relies on cranelift's `FunctionBuilder::declare_var`, which records the
/// type of the next variable and returns it: variable numbers are handed
/// out in declaration order, starting from the number already declared.
#[verifier::external_body]
pub fn declare_slot(b: &mut FunctionBuilder, ty: &MachineType) -> (r: u32)
    requires
        builder_decl_tys(*old(b)).len() < 0xffff_ffffu32,
    ensures
        r as nat == builder_decl_tys(*old(b)).len(),
        builder_decl_tys(*final(b)) == builder_decl_tys(*old(b)).push(*ty),
        builder_trace(*final(b)) == builder_trace(*old(b)).push(
            IrOp::DeclareVar { slot: r, ty: *ty },
        ),
        builder_in_block(*final(b)) == builder_in_block(*old(b)),
        builder_func_refs(*final(b)) == builder_func_refs(*old(b)),
{
    b.declare_var(cl_type_of(ty)).as_u32()
}

/// Relies on cranelift's `InstBuilder::iconst` and
/// `FunctionBuilder::def_var`: materializes an integer-family constant at
/// the slot's declared width and registers it as the slot's definition.
/// `def_var` checks that the value's type equals the declared type; the
/// constant is created at exactly that type, so the definition cannot be
/// refused.
#[verifier::external_body]
pub fn emit_def_const(b: &mut FunctionBuilder, slot: u32, ty: &MachineType, value: i64)
    requires
        builder_in_block(*old(b)),
        (slot as nat) < builder_decl_tys(*old(b)).len(),
        builder_decl_tys(*old(b))[slot as int] == *ty,
        ty.spec_is_int(),
    ensures
        builder_trace(*final(b)) == builder_trace(*old(b)).push(
            IrOp::DefConst { slot, ty: *ty, value },
        ),
        builder_decl_tys(*final(b)) == builder_decl_tys(*old(b)),
        builder_in_block(*final(b)) == builder_in_block(*old(b)),
        builder_func_refs(*final(b)) == builder_func_refs(*old(b)),
{
    let val = b.ins().iconst(cl_type_of(ty), value);
    b.def_var(cranelift::prelude::Variable::from_u32(slot), val);
}

/// Relies on cranelift's `InstBuilder::f32const` and
/// `FunctionBuilder::def_var`: materializes the 32-bit float constant with
/// the given encoding and registers it as the slot's definition.
#[verifier::external_body]
pub fn emit_def_f32(b: &mut FunctionBuilder, slot: u32, bits: u32)
    requires
        builder_in_block(*old(b)),
        (slot as nat) < builder_decl_tys(*old(b)).len(),
        builder_decl_tys(*old(b))[slot as int] == MachineType::Float32,
    ensures
        builder_trace(*final(b)) == builder_trace(*old(b)).push(
            IrOp::DefConstF32 { slot, bits },
        ),
        builder_decl_tys(*final(b)) == builder_decl_tys(*old(b)),
        builder_in_block(*final(b)) == builder_in_block(*old(b)),
        builder_func_refs(*final(b)) == builder_func_refs(*old(b)),
{
    let val = b.ins().f32const(Ieee32::with_bits(bits));
    b.def_var(cranelift::prelude::Variable::from_u32(slot), val);
}

/// Relies on cranelift's `InstBuilder::f64const` and
/// `FunctionBuilder::def_var`: materializes the 64-bit float constant with
/// the given encoding and registers it as the slot's definition.
#[verifier::external_body]
pub fn emit_def_f64(b: &mut FunctionBuilder, slot: u32, bits: u64)
    requires
        builder_in_block(*old(b)),
        (slot as nat) < builder_decl_tys(*old(b)).len(),
        builder_decl_tys(*old(b))[slot as int] == MachineType::Float64,
    ensures
        builder_trace(*final(b)) == builder_trace(*old(b)).push(
            IrOp::DefConstF64 { slot, bits },
        ),
        builder_decl_tys(*final(b)) == builder_decl_tys(*old(b)),
        builder_in_block(*final(b)) == builder_in_block(*old(b)),
        builder_func_refs(*final(b)) == builder_func_refs(*old(b)),
{
    let val = b.ins().f64const(Ieee64::with_bits(bits));
    b.def_var(cranelift::prelude::Variable::from_u32(slot), val);
}

/// Relies on cranelift's `InstBuilder::iconst`: materializes an
/// integer-family constant as a pending call argument and returns the
/// value handle.
#[verifier::external_body]
pub fn emit_arg_const(b: &mut FunctionBuilder, ty: &MachineType, value: i64) -> (r: Value)
    requires
        builder_in_block(*old(b)),
        ty.spec_is_int(),
    ensures
        builder_trace(*final(b)) == builder_trace(*old(b)).push(
            IrOp::ArgConst { ty: *ty, value },
        ),
        builder_decl_tys(*final(b)) == builder_decl_tys(*old(b)),
        builder_in_block(*final(b)) == builder_in_block(*old(b)),
        builder_func_refs(*final(b)) == builder_func_refs(*old(b)),
{
    b.ins().iconst(cl_type_of(ty), value)
}

/// Relies on cranelift's `FunctionBuilder::use_var`: reads the current
/// value of a declared variable and returns the value handle. `use_var`
/// refuses only variables that were never declared.
#[verifier::external_body]
pub fn emit_arg_use(b: &mut FunctionBuilder, slot: u32) -> (r: Value)
    requires
        builder_in_block(*old(b)),
        (slot as nat) < builder_decl_tys(*old(b)).len(),
    ensures
        builder_trace(*final(b)) == builder_trace(*old(b)).push(IrOp::ArgUse { slot }),
        builder_decl_tys(*final(b)) == builder_decl_tys(*old(b)),
        builder_in_block(*final(b)) == builder_in_block(*old(b)),
        builder_func_refs(*final(b)) == builder_func_refs(*old(b)),
{
    b.use_var(cranelift::prelude::Variable::from_u32(slot))
}

/// Relies on cranelift's `InstBuilder::call`: emits a call against the
/// function reference with that entity number, passing the given values
/// in order.
#[verifier::external_body]
pub fn emit_call_rt(b: &mut FunctionBuilder, func: u32, args: Vec<Value>)
    requires
        builder_in_block(*old(b)),
        builder_func_refs(*old(b)).contains(func),
        func < 0xffff_ffffu32,
    ensures
        builder_trace(*final(b)) == builder_trace(*old(b)).push(
            IrOp::CallRt { func, argc: args@.len() as usize },
        ),
        builder_decl_tys(*final(b)) == builder_decl_tys(*old(b)),
        builder_in_block(*final(b)) == builder_in_block(*old(b)),
        builder_func_refs(*final(b)) == builder_func_refs(*old(b)),
{
    b.ins().call(FuncRef::from_u32(func), &args);
}

/// Perform a well-formed sequence of lowered operations against a fresh
/// builder, in order: declarations are handed the slot numbers the
/// lowering assigned (the builder allocates variable numbers in the same
/// order, from zero), pending argument values are kept in production
/// order, and each call consumes its last `argc` of them.
pub fn replay(b: &mut FunctionBuilder, ops: &Vec<IrOp>)
    requires
        builder_in_block(*old(b)),
        builder_decl_tys(*old(b)) == Seq::<MachineType>::empty(),
        ops_wf(ops@),
        decl_ty_seq(ops@).len() < 0xffff_ffffu32,
        forall|k: int|
            0 <= k < ops@.len() ==> match #[trigger] ops@[k] {
                IrOp::CallRt { func, argc } => builder_func_refs(*old(b)).contains(func) && func
                    < 0xffff_ffffu32,
                _ => true,
            },
    ensures
        builder_trace(*final(b)) == builder_trace(*old(b)) + ops@,
        builder_in_block(*final(b)),
        builder_func_refs(*final(b)) == builder_func_refs(*old(b)),
        builder_decl_tys(*final(b)) == decl_ty_seq(ops@),
{
    let mut vals: Vec<Value> = Vec::new();
    let mut i: usize = 0;
    proof {
        assert(ops@.take(0) =~= Seq::<IrOp>::empty());
        assert(builder_trace(*b) =~= builder_trace(*old(b)) + ops@.take(0));
    }
    while i < ops.len()
        invariant
            0 <= i <= ops@.len(),
            ops_wf(ops@),
            decl_ty_seq(ops@).len() < 0xffff_ffffu32,
            forall|k: int|
                0 <= k < ops@.len() ==> match #[trigger] ops@[k] {
                    IrOp::CallRt { func, argc } => builder_func_refs(*old(b)).contains(func)
                        && func < 0xffff_ffffu32,
                    _ => true,
                },
            builder_in_block(*b),
            builder_func_refs(*b) == builder_func_refs(*old(b)),
            builder_trace(*b) == builder_trace(*old(b)) + ops@.take(i as int),
            builder_decl_tys(*b) == decl_ty_seq(ops@.take(i as int)),
            vals@.len() == args_avail(ops@.take(i as int)),
        decreases ops@.len() - i,
    {
        let ghost prefix = ops@.take(i as int);
        proof {
            lemma_ops_wf_at(ops@, i as int);
            assert(ops@.take(i + 1) =~= prefix.push(ops@[i as int]));
            lemma_decl_ty_seq_push(prefix, ops@[i as int]);
            lemma_args_avail_push(prefix, ops@[i as int]);
            lemma_decl_ty_seq_take_le(ops@, i + 1);
        }
        let op = ops[i];
        match op {
            IrOp::DeclareVar { slot, ty } => {
                let r = declare_slot(b, &ty);
                proof {
                    assert(r == slot);
                }
            },
            IrOp::DefConst { slot, ty, value } => {
                emit_def_const(b, slot, &ty, value);
            },
            IrOp::DefConstF32 { slot, bits } => {
                emit_def_f32(b, slot, bits);
            },
            IrOp::DefConstF64 { slot, bits } => {
                emit_def_f64(b, slot, bits);
            },
            IrOp::ArgConst { ty, value } => {
                let v = emit_arg_const(b, &ty, value);
                vals.push(v);
            },
            IrOp::ArgUse { slot } => {
                let v = emit_arg_use(b, slot);
                vals.push(v);
            },
            IrOp::CallRt { func, argc } => {
                let at = vals.len() - argc;
                let args = vals.split_off(at);
                emit_call_rt(b, func, args);
            },
        }
        proof {
            assert(builder_trace(*b) =~= builder_trace(*old(b)) + ops@.take(i + 1));
            assert(builder_decl_tys(*b) =~= decl_ty_seq(ops@.take(i + 1)));
        }
        i = i + 1;
    }
    proof {
        assert(ops@.take(ops@.len() as int) =~= ops@);
    }
}

/// Relies on cranelift's `FunctionBuilder::create_block`,
/// `switch_to_block` and `seal_block`: opens a block with no
/// predecessors, positions the builder in it, and seals it, so that
/// instructions can be inserted.
#[verifier::external_body]
pub fn open_entry_block(b: &mut FunctionBuilder)
    requires
        !builder_in_block(*old(b)),
    ensures
        builder_in_block(*final(b)),
        builder_decl_tys(*final(b)) == builder_decl_tys(*old(b)),
        builder_trace(*final(b)) == builder_trace(*old(b)),
        builder_func_refs(*final(b)) == builder_func_refs(*old(b)),
{
    let block = b.create_block();
    b.switch_to_block(block);
    b.seal_block(block);
}

} // verus!
