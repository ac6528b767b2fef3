use vstd::prelude::*;
use cranelift::prelude::AbiParam;
use cranelift::prelude::FunctionBuilder;
use cranelift_module::Linkage;
use cranelift_module::Module;
use cranelift_object::ObjectModule;
use crate::sink::builder_decl_tys;
use crate::sink::builder_func_refs;
use crate::sink::builder_in_block;
use crate::sink::builder_trace;

verus! {

#[verifier::external_type_specification]
#[verifier::external_body]
pub struct ExObjectModule(ObjectModule);

/// The closed set of supported runtime entry points: character output
/// and character input from the host C runtime.
#[derive(Clone, Copy, PartialEq, Eq, Structural, Hash, Debug)]
pub enum PedroLibC {
    PutChar,
    GetChar,
}

/// The runtime declaration table: one opaque backend handle (an external
/// function reference's entity number) for each supported runtime entry
/// point. Built once, before any statement is lowered, and immutable
/// afterwards.
#[derive(Clone, Copy, PartialEq, Eq, Structural, Debug)]
pub struct RuntimeTable {
    pub put_char: u32,
    pub get_char: u32,
}

impl RuntimeTable {
    /// The handle recorded for a runtime-function id. The table is a
    /// total map over the closed enum, so the lookup cannot fail; the
    /// `UnknownRuntimeFn` taxonomy kind is unreachable through it.
    pub open spec fn spec_lookup(self, id: PedroLibC) -> u32 {
        match id {
            PedroLibC::PutChar => self.put_char,
            PedroLibC::GetChar => self.get_char,
        }
    }

    /// Look up the handle for a runtime-function id.
    pub fn lookup(&self, id: PedroLibC) -> (r: u32)
        ensures
            r == self.spec_lookup(id),
    {
        match id {
            PedroLibC::PutChar => self.put_char,
            PedroLibC::GetChar => self.get_char,
        }
    }

    /// Whether both handles are function references declared in the
    /// builder's function, so that calls against them can be emitted.
    pub open spec fn wf_for(self, b: FunctionBuilder) -> bool {
        &&& builder_func_refs(b).contains(self.put_char)
        &&& builder_func_refs(b).contains(self.get_char)
        &&& self.put_char < 0xffff_ffffu32
        &&& self.get_char < 0xffff_ffffu32
    }
}

/// Relies on cranelift-module's `Module::make_signature`,
/// `declare_function` with import linkage, and `declare_func_in_func`:
/// declares the host C runtime's `putchar` (one 8-bit integer parameter,
/// one 32-bit integer return) in the object module's symbol space and
/// makes a local reference to it in the builder's function, whose entity
/// number is returned. `None` reports the module's refusal to declare.
#[verifier::external_body]
pub fn libc_put_char_decl(obj_module: &mut ObjectModule, cl_fn_builder: &mut FunctionBuilder) -> (r:
    Option<u32>)
    ensures
        builder_trace(*final(cl_fn_builder)) == builder_trace(*old(cl_fn_builder)),
        builder_decl_tys(*final(cl_fn_builder)) == builder_decl_tys(*old(cl_fn_builder)),
        builder_in_block(*final(cl_fn_builder)) == builder_in_block(*old(cl_fn_builder)),
        r matches Some(f) ==> builder_func_refs(*final(cl_fn_builder)) == builder_func_refs(
            *old(cl_fn_builder),
        ).insert(f) && f < 0xffff_ffffu32,
        r is None ==> builder_func_refs(*final(cl_fn_builder)) == builder_func_refs(
            *old(cl_fn_builder),
        ),
{
    let mut putchar_sig = obj_module.make_signature();
    putchar_sig.params.push(AbiParam::new(cranelift::prelude::types::I8));
    putchar_sig.returns.push(AbiParam::new(cranelift::prelude::types::I32));
    let putchar_fn = match obj_module.declare_function("putchar", Linkage::Import, &putchar_sig) {
        Ok(f) => f,
        Err(_) => return None,
    };
    Some(obj_module.declare_func_in_func(putchar_fn, cl_fn_builder.func).as_u32())
}

/// Relies on cranelift-module's `Module::make_signature`,
/// `declare_function` with import linkage, and `declare_func_in_func`:
/// declares the host C runtime's `getchar` (one 8-bit integer parameter,
/// one 32-bit integer return, matching the source system's runtime ABI)
/// in the object module's symbol space and makes a local reference to it
/// in the builder's function, whose entity number is returned.
#[verifier::external_body]
pub fn libc_get_char_decl(obj_module: &mut ObjectModule, cl_fn_builder: &mut FunctionBuilder) -> (r:
    Option<u32>)
    ensures
        builder_trace(*final(cl_fn_builder)) == builder_trace(*old(cl_fn_builder)),
        builder_decl_tys(*final(cl_fn_builder)) == builder_decl_tys(*old(cl_fn_builder)),
        builder_in_block(*final(cl_fn_builder)) == builder_in_block(*old(cl_fn_builder)),
        r matches Some(f) ==> builder_func_refs(*final(cl_fn_builder)) == builder_func_refs(
            *old(cl_fn_builder),
        ).insert(f) && f < 0xffff_ffffu32,
        r is None ==> builder_func_refs(*final(cl_fn_builder)) == builder_func_refs(
            *old(cl_fn_builder),
        ),
{
    let mut getchar_sig = obj_module.make_signature();
    getchar_sig.params.push(AbiParam::new(cranelift::prelude::types::I8));
    getchar_sig.returns.push(AbiParam::new(cranelift::prelude::types::I32));
    let getchar_fn = match obj_module.declare_function("getchar", Linkage::Import, &getchar_sig) {
        Ok(f) => f,
        Err(_) => return None,
    };
    Some(obj_module.declare_func_in_func(getchar_fn, cl_fn_builder.func).as_u32())
}

/// Build the runtime declaration table: declare every supported runtime
/// function against the backend module with import linkage and record
/// the returned local handles. Must run exactly once, before lowering.
/// `None` reports the module's refusal; nothing is emitted either way.
pub fn gen_libc(obj_module: &mut ObjectModule, cl_fn_builder: &mut FunctionBuilder) -> (r: Option<
    RuntimeTable,
>)
    ensures
        builder_trace(*final(cl_fn_builder)) == builder_trace(*old(cl_fn_builder)),
        builder_decl_tys(*final(cl_fn_builder)) == builder_decl_tys(*old(cl_fn_builder)),
        builder_in_block(*final(cl_fn_builder)) == builder_in_block(*old(cl_fn_builder)),
        r matches Some(t) ==> t.wf_for(*final(cl_fn_builder)),
{
    let put_char = match libc_put_char_decl(obj_module, cl_fn_builder) {
        Some(f) => f,
        None => {
            return None;
        },
    };
    let get_char = match libc_get_char_decl(obj_module, cl_fn_builder) {
        Some(f) => f,
        None => {
            return None;
        },
    };
    Some(RuntimeTable { put_char, get_char })
}

} // verus!
