use vstd::prelude::*;
use cranelift::prelude::FunctionBuilder;
use crate::ast::Expr;
use crate::ast::Lit;
use crate::ast::Stmt;
use crate::errors::Diagnostic;
use crate::errors::LowerError;
use crate::fbits::spec_f32_bits_of_i64;
use crate::fbits::spec_f64_bits_of_i64;
use crate::fbits::f32_bits_of_i64;
use crate::fbits::f64_bits_of_i64;
use crate::ir::IrOp;
use crate::ir::args_avail;
use crate::ir::decl_ty_seq;
use crate::ir::lemma_args_avail_push;
use crate::ir::lemma_decl_ty_seq_push;
use crate::ir::lemma_ops_wf_push;
use crate::ir::op_wf;
use crate::ir::ops_wf;
use crate::literal::eval_literal;
use crate::literal::spec_bool_val;
use crate::literal::spec_char_val;
use crate::literal::spec_eval_literal;
use crate::literal::spec_parse_i64;
use crate::literal::parse_bool_lexeme;
use crate::literal::parse_char_lexeme;
use crate::literal::parse_i64_lexeme;
use crate::runtime::PedroLibC;
use crate::sink::builder_decl_tys;
use crate::sink::builder_func_refs;
use crate::sink::builder_in_block;
use crate::sink::builder_trace;
use crate::sink::replay;
use crate::runtime::RuntimeTable;
use crate::strutil::str_eq;
use crate::symtab::SymbolTable;
use crate::symtab::lemma_spec_find_in_range;
use crate::symtab::spec_bound;
use crate::symtab::spec_find;
use crate::types::MachineType;
use crate::types::RageType;

verus! {

/// What lowering a declaration yields: the extended symbol map and the
/// emitted slot declaration. The type keyword is resolved first
/// (`UnknownType`), then the single-declaration rule is enforced
/// (`DuplicateDeclaration`), then the type's machine representation is
/// taken (`Unsupported` for string, pointer and null, which have no
/// lowering). The new slot is the next free index.
pub open spec fn spec_lower_var_decl(
    m: Seq<(Seq<char>, RageType)>,
    name: Seq<char>,
    tyname: Seq<char>,
) -> Result<(Seq<(Seq<char>, RageType)>, IrOp), LowerError> {
    match RageType::spec_from_str(tyname) {
        None => Err(LowerError::UnknownType),
        Some(ty) => if spec_bound(m, name) {
            Err(LowerError::DuplicateDeclaration)
        } else {
            match ty.spec_machine_type() {
                Err(e) => Err(e),
                Ok(mt) => Ok(
                    (m.push((name, ty)), IrOp::DeclareVar { slot: m.len() as u32, ty: mt }),
                ),
            }
        },
    }
}

/// What lowering a definition yields: one materialize-and-bind operation
/// at the *declared* type's width — the destination variable's type, not
/// the literal's own apparent kind, governs the emitted machine width.
/// The name is looked up first (`UndeclaredVariable`), then the literal
/// is evaluated, then the constant is materialized: integer-family types
/// with an integer constant, float types with a float constant holding
/// the value's IEEE encoding at 32 or 64 bits.
pub open spec fn spec_lower_var_def(
    m: Seq<(Seq<char>, RageType)>,
    name: Seq<char>,
    value: Lit,
) -> Result<IrOp, LowerError> {
    match spec_find(m, name) {
        None => Err(LowerError::UndeclaredVariable),
        Some((slot, ty)) => match spec_eval_literal(value) {
            Err(e) => Err(e),
            Ok(v) => match ty.spec_machine_type() {
                Err(e) => Err(e),
                Ok(mt) => if mt == MachineType::Float32 {
                    Ok(IrOp::DefConstF32 { slot: slot as u32, bits: spec_f32_bits_of_i64(v) })
                } else if mt == MachineType::Float64 {
                    Ok(IrOp::DefConstF64 { slot: slot as u32, bits: spec_f64_bits_of_i64(v) })
                } else {
                    Ok(IrOp::DefConst { slot: slot as u32, ty: mt, value: v })
                },
            },
        },
    }
}

/// What materializing a literal call argument yields. A literal argument
/// is materialized at its own kind's width: integers at the 64-bit
/// integer width, characters and booleans at the smallest integer width.
pub open spec fn spec_lower_arg_literal(value: Lit) -> Result<IrOp, LowerError> {
    match value {
        Lit::Number(s) => match spec_parse_i64(s@) {
            Some(v) => Ok(IrOp::ArgConst { ty: MachineType::Int64, value: v }),
            None => Err(LowerError::LiteralParseError),
        },
        Lit::Char(s) => match spec_char_val(s@) {
            Some(v) => Ok(IrOp::ArgConst { ty: MachineType::Int8, value: v }),
            None => Err(LowerError::LiteralParseError),
        },
        Lit::Boolean(s) => match spec_bool_val(s@) {
            Some(v) => Ok(IrOp::ArgConst { ty: MachineType::Int8, value: v }),
            None => Err(LowerError::LiteralParseError),
        },
        Lit::Str(s) => Err(LowerError::Unsupported),
        Lit::Null => Err(LowerError::Unsupported),
    }
}

/// What evaluating an expression yields: a literal is materialized; an
/// identifier is resolved eagerly against the symbol table and becomes a
/// read of its slot's current value, or fails with `UndeclaredVariable`.
pub open spec fn spec_lower_expr(m: Seq<(Seq<char>, RageType)>, e: Expr) -> Result<
    IrOp,
    LowerError,
> {
    match e {
        Expr::Literal(l) => spec_lower_arg_literal(l),
        Expr::Identifier(s) => match spec_find(m, s@) {
            Some((slot, ty)) => Ok(IrOp::ArgUse { slot: slot as u32 }),
            None => Err(LowerError::UndeclaredVariable),
        },
    }
}

/// What evaluating an argument list yields: each argument's operation in
/// argument order, or the first argument's failure.
pub open spec fn spec_lower_args(m: Seq<(Seq<char>, RageType)>, args: Seq<Expr>) -> Result<
    Seq<IrOp>,
    LowerError,
>
    decreases args.len(),
{
    if args.len() == 0 {
        Ok(Seq::empty())
    } else {
        match spec_lower_expr(m, args[0]) {
            Err(e) => Err(e),
            Ok(op) => match spec_lower_args(m, args.skip(1)) {
                Ok(rest) => Ok(seq![op] + rest),
                Err(e) => Err(e),
            },
        }
    }
}

/// The runtime-function id a callee name resolves to, if any.
pub open spec fn spec_callee(name: Seq<char>) -> Option<PedroLibC> {
    if name == "libc_putchar"@ {
        Some(PedroLibC::PutChar)
    } else if name == "libc_getchar"@ {
        Some(PedroLibC::GetChar)
    } else {
        None
    }
}

/// What lowering a call yields: the argument operations in argument
/// order, then one call against the callee's runtime handle consuming
/// them. Arguments are evaluated before the callee is recognized, so an
/// argument's failure wins over `UnknownFunction`.
pub open spec fn spec_lower_fn_call(
    m: Seq<(Seq<char>, RageType)>,
    table: RuntimeTable,
    name: Seq<char>,
    args: Seq<Expr>,
) -> Result<Seq<IrOp>, LowerError> {
    match spec_lower_args(m, args) {
        Err(e) => Err(e),
        Ok(ops) => match spec_callee(name) {
            None => Err(LowerError::UnknownFunction),
            Some(id) => Ok(
                ops.push(
                    IrOp::CallRt { func: table.spec_lookup(id), argc: args.len() as usize },
                ),
            ),
        },
    }
}

/// What lowering one statement yields: the symbol map afterwards and the
/// operations emitted, or the taxonomy kind of the failure.
pub open spec fn spec_lower_stmt(
    m: Seq<(Seq<char>, RageType)>,
    table: RuntimeTable,
    s: Stmt,
) -> Result<(Seq<(Seq<char>, RageType)>, Seq<IrOp>), LowerError> {
    match s {
        Stmt::VarDeclaration { identifier, typing } => match spec_lower_var_decl(
            m,
            identifier@,
            typing@,
        ) {
            Ok((m2, op)) => Ok((m2, seq![op])),
            Err(e) => Err(e),
        },
        Stmt::VarDefinition { identifier, value } => match spec_lower_var_def(
            m,
            identifier@,
            value,
        ) {
            Ok(op) => Ok((m, seq![op])),
            Err(e) => Err(e),
        },
        Stmt::FnCall { identifier, args } => match spec_lower_fn_call(
            m,
            table,
            identifier@,
            args@,
        ) {
            Ok(ops) => Ok((m, ops)),
            Err(e) => Err(e),
        },
        Stmt::EndOfInput => Ok((m, Seq::empty())),
    }
}

/// What lowering a whole statement sequence yields: all emitted
/// operations in source order, or the failing statement's position and
/// taxonomy kind. A failure at statement `n` never skips to statement
/// `n + 1`.
pub open spec fn spec_lower_program(
    m: Seq<(Seq<char>, RageType)>,
    table: RuntimeTable,
    stmts: Seq<Stmt>,
) -> Result<(Seq<(Seq<char>, RageType)>, Seq<IrOp>), (int, LowerError)>
    decreases stmts.len(),
{
    if stmts.len() == 0 {
        Ok((m, Seq::empty()))
    } else {
        match spec_lower_stmt(m, table, stmts[0]) {
            Err(e) => Err((0, e)),
            Ok((m1, ops1)) => match spec_lower_program(m1, table, stmts.skip(1)) {
                Ok((m2, ops2)) => Ok((m2, ops1 + ops2)),
                Err((i, e)) => Err((i + 1, e)),
            },
        }
    }
}

/// Whether a sequence of operations is argument-shaped for a symbol map
/// with `n` slots: only constant materializations at integer widths and
/// reads of declared slots.
pub open spec fn arg_ops_ok(n: int, s: Seq<IrOp>) -> bool {
    forall|j: int|
        0 <= j < s.len() ==> match #[trigger] s[j] {
            IrOp::ArgConst { ty, value } => ty.spec_is_int(),
            IrOp::ArgUse { slot } => slot < n,
            _ => false,
        }
}

/// A successful argument lowering yields one argument-shaped operation
/// per argument.
pub proof fn lemma_spec_lower_args_ok(m: Seq<(Seq<char>, RageType)>, args: Seq<Expr>)
    requires
        spec_lower_args(m, args) is Ok,
    ensures
        spec_lower_args(m, args)->Ok_0.len() == args.len(),
        arg_ops_ok(m.len() as int, spec_lower_args(m, args)->Ok_0),
    decreases args.len(),
{
    if args.len() > 0 {
        let op = spec_lower_expr(m, args[0])->Ok_0;
        lemma_spec_lower_args_ok(m, args.skip(1));
        match args[0] {
            Expr::Literal(l) => {},
            Expr::Identifier(s) => {
                lemma_spec_find_in_range(m, s@);
            },
        }
        let rest = spec_lower_args(m, args.skip(1))->Ok_0;
        assert(spec_lower_args(m, args)->Ok_0 == seq![op] + rest);
        assert forall|j: int| 0 <= j < (seq![op] + rest).len() implies match #[trigger] (seq![op]
            + rest)[j] {
            IrOp::ArgConst { ty, value } => ty.spec_is_int(),
            IrOp::ArgUse { slot } => slot < m.len(),
            _ => false,
        } by {
            if j > 0 {
                assert((seq![op] + rest)[j] == rest[j - 1]);
            }
        }
    }
}

/// Appending argument-shaped operations to a well-formed sequence keeps
/// it well formed, declares nothing, and leaves one more pending value
/// per operation.
pub proof fn lemma_ops_wf_append_args(base: Seq<IrOp>, s: Seq<IrOp>)
    requires
        ops_wf(base),
        arg_ops_ok(decl_ty_seq(base).len() as int, s),
    ensures
        ops_wf(base + s),
        decl_ty_seq(base + s) == decl_ty_seq(base),
        args_avail(base + s) == args_avail(base) + s.len(),
    decreases s.len(),
{
    if s.len() == 0 {
        assert(base + s =~= base);
    } else {
        let s0 = s.drop_last();
        assert(arg_ops_ok(decl_ty_seq(base).len() as int, s0));
        lemma_ops_wf_append_args(base, s0);
        assert((base + s).drop_last() =~= base + s0);
        assert((base + s).last() == s.last());
        assert(match s[s.len() - 1] {
            IrOp::ArgConst { ty, value } => ty.spec_is_int(),
            IrOp::ArgUse { slot } => slot < decl_ty_seq(base).len(),
            _ => false,
        });
        assert(op_wf(base + s0, s.last()));
        assert(ops_wf(base + s));
        lemma_decl_ty_seq_push(base + s0, s.last());
        assert(base + s =~= (base + s0).push(s.last()));
        lemma_args_avail_push(base + s0, s.last());
    }
}

/// The statement lowering engine: the symbol table of the single
/// top-level scope, the runtime declaration table it resolves calls
/// against, and the operations emitted so far, in order.
pub struct RageParser {
    pub rage_variables: SymbolTable,
    pub libc_decl: RuntimeTable,
    pub ops: Vec<IrOp>,
}

impl RageParser {
    /// The lowering engine's invariant: the symbol table binds each name
    /// once; the emitted operations are well formed, with no pending
    /// call arguments between statements; slot `i` of the table was
    /// declared at exactly the machine representation of its declared
    /// type; and every emitted call targets one of the table's runtime
    /// handles.
    pub open spec fn wf(self) -> bool {
        &&& self.rage_variables.wf()
        &&& self.rage_variables@.len() < 0xffff_ffffu32
        &&& self.libc_decl.put_char < 0xffff_ffffu32
        &&& self.libc_decl.get_char < 0xffff_ffffu32
        &&& ops_wf(self.ops@)
        &&& args_avail(self.ops@) == 0
        &&& decl_ty_seq(self.ops@).len() == self.rage_variables@.len()
        &&& forall|i: int|
            0 <= i < self.rage_variables@.len() ==> ((#[trigger] self.rage_variables@[i]).1
                .spec_machine_type() matches Ok(mt) && decl_ty_seq(self.ops@)[i] == mt)
        &&& forall|i: int|
            0 <= i < self.ops@.len() ==> match #[trigger] self.ops@[i] {
                IrOp::CallRt { func, argc } => func == self.libc_decl.put_char || func
                    == self.libc_decl.get_char,
                _ => true,
            }
    }

    /// A fresh lowering engine over a built runtime table.
    pub fn new(pedro_libc: RuntimeTable) -> (r: RageParser)
        requires
            pedro_libc.put_char < 0xffff_ffffu32,
            pedro_libc.get_char < 0xffff_ffffu32,
        ensures
            r.wf(),
            r.rage_variables@ == Seq::<(Seq<char>, RageType)>::empty(),
            r.ops@ == Seq::<IrOp>::empty(),
            r.libc_decl == pedro_libc,
    {
        let r = RageParser {
            rage_variables: SymbolTable::new(),
            libc_decl: pedro_libc,
            ops: Vec::new(),
        };
        proof {
            assert(decl_ty_seq(r.ops@) =~= Seq::<MachineType>::empty());
        }
        r
    }

    /// Resolve a type keyword against the type registry.
    pub fn parse_typing(&self, typing: &str) -> (r: Option<RageType>)
        ensures
            r == RageType::spec_from_str(typing@),
    {
        RageType::from_str(typing)
    }

    /// Evaluate a literal node to its numeric value.
    pub fn parse_literal(&self, value: &Lit) -> (r: Result<i64, LowerError>)
        ensures
            r == spec_eval_literal(*value),
    {
        eval_literal(value)
    }

    /// Lower a declaration: resolve the type keyword, allocate the next
    /// slot, bind the name, and emit the slot declaration at the type's
    /// machine representation. On failure nothing is emitted and the
    /// table is unchanged.
    pub fn parse_var_decl(&mut self, identifier: &str, typing: &str) -> (r: Result<
        (),
        LowerError,
    >)
        requires
            old(self).wf(),
            old(self).rage_variables@.len() + 1 < 0xffff_ffffu32,
        ensures
            final(self).wf(),
            final(self).libc_decl == old(self).libc_decl,
            match spec_lower_var_decl(old(self).rage_variables@, identifier@, typing@) {
                Ok((m2, op)) => r is Ok && final(self).rage_variables@ == m2 && final(self).ops@
                    == old(self).ops@.push(op),
                Err(e) => r == Err::<(), LowerError>(e) && final(self).rage_variables@ == old(
                    self,
                ).rage_variables@ && final(self).ops@ == old(self).ops@,
            },
    {
        let ty = match RageType::from_str(typing) {
            Some(t) => t,
            None => {
                return Err(LowerError::UnknownType);
            },
        };
        if self.rage_variables.lookup(identifier).is_some() {
            return Err(LowerError::DuplicateDeclaration);
        }
        let mt = match ty.machine_type() {
            Ok(t) => t,
            Err(e) => {
                return Err(e);
            },
        };
        let slot = self.rage_variables.declare(identifier, ty).unwrap();
        let op = IrOp::DeclareVar { slot, ty: mt };
        proof {
            assert(op_wf(self.ops@, op));
            lemma_ops_wf_push(self.ops@, op);
            lemma_decl_ty_seq_push(self.ops@, op);
            lemma_args_avail_push(self.ops@, op);
        }
        self.ops.push(op);
        Ok(())
    }

    /// Lower a definition: look the name up, evaluate the literal, and
    /// emit one constant materialization bound to the name's slot, sized
    /// to the slot's declared machine type. On failure nothing is
    /// emitted.
    pub fn parse_var_def(&mut self, identifier: &str, value: &Lit) -> (r: Result<(), LowerError>)
        requires
            old(self).wf(),
        ensures
            final(self).wf(),
            final(self).libc_decl == old(self).libc_decl,
            final(self).rage_variables@ == old(self).rage_variables@,
            match spec_lower_var_def(old(self).rage_variables@, identifier@, *value) {
                Ok(op) => r is Ok && final(self).ops@ == old(self).ops@.push(op),
                Err(e) => r == Err::<(), LowerError>(e) && final(self).ops@ == old(self).ops@,
            },
    {
        let (slot, ty) = match self.rage_variables.lookup(identifier) {
            Some(p) => p,
            None => {
                return Err(LowerError::UndeclaredVariable);
            },
        };
        let v = match eval_literal(value) {
            Ok(v) => v,
            Err(e) => {
                return Err(e);
            },
        };
        let mt = match ty.machine_type() {
            Ok(t) => t,
            Err(e) => {
                return Err(e);
            },
        };
        proof {
            lemma_spec_find_in_range(self.rage_variables@, identifier@);
        }
        let op = match mt {
            MachineType::Float32 => IrOp::DefConstF32 { slot, bits: f32_bits_of_i64(v) },
            MachineType::Float64 => IrOp::DefConstF64 { slot, bits: f64_bits_of_i64(v) },
            _ => IrOp::DefConst { slot, ty: mt, value: v },
        };
        proof {
            assert(op_wf(self.ops@, op));
            lemma_ops_wf_push(self.ops@, op);
            lemma_decl_ty_seq_push(self.ops@, op);
            lemma_args_avail_push(self.ops@, op);
        }
        self.ops.push(op);
        Ok(())
    }

    /// Materialize a literal call argument at its own kind's width.
    pub fn parse_literal_new(&self, value: &Lit) -> (r: Result<IrOp, LowerError>)
        ensures
            r == spec_lower_arg_literal(*value),
    {
        match value {
            Lit::Number(s) => match parse_i64_lexeme(s.as_str()) {
                Some(v) => Ok(IrOp::ArgConst { ty: MachineType::Int64, value: v }),
                None => Err(LowerError::LiteralParseError),
            },
            Lit::Char(s) => match parse_char_lexeme(s.as_str()) {
                Some(v) => Ok(IrOp::ArgConst { ty: MachineType::Int8, value: v }),
                None => Err(LowerError::LiteralParseError),
            },
            Lit::Boolean(s) => match parse_bool_lexeme(s.as_str()) {
                Some(v) => Ok(IrOp::ArgConst { ty: MachineType::Int8, value: v }),
                None => Err(LowerError::LiteralParseError),
            },
            Lit::Str(_) => Err(LowerError::Unsupported),
            Lit::Null => Err(LowerError::Unsupported),
        }
    }

    /// Evaluate an expression node to the operation producing its value.
    /// Identifiers are resolved eagerly against the symbol table; there
    /// is no deferred resolution.
    pub fn parse_expr(&self, e: &Expr) -> (r: Result<IrOp, LowerError>)
        requires
            self.wf(),
        ensures
            r == spec_lower_expr(self.rage_variables@, *e),
    {
        match e {
            Expr::Literal(l) => self.parse_literal_new(l),
            Expr::Identifier(s) => match self.rage_variables.lookup(s.as_str()) {
                Some(p) => Ok(IrOp::ArgUse { slot: p.0 }),
                None => Err(LowerError::UndeclaredVariable),
            },
        }
    }

    /// Lower a call: evaluate every argument in order, resolve the
    /// callee against the closed runtime set, and emit the argument
    /// operations followed by one call consuming them. An unrecognized
    /// callee fails with `UnknownFunction`; on failure nothing is
    /// emitted.
    pub fn parse_fn_call(&mut self, identifier: &str, args: &Vec<Expr>) -> (r: Result<
        (),
        LowerError,
    >)
        requires
            old(self).wf(),
        ensures
            final(self).wf(),
            final(self).libc_decl == old(self).libc_decl,
            final(self).rage_variables@ == old(self).rage_variables@,
            match spec_lower_fn_call(
                old(self).rage_variables@,
                old(self).libc_decl,
                identifier@,
                args@,
            ) {
                Ok(ops) => r is Ok && final(self).ops@ == old(self).ops@ + ops,
                Err(e) => r == Err::<(), LowerError>(e) && final(self).ops@ == old(self).ops@,
            },
    {
        let ghost m = self.rage_variables@;
        let mut arg_ops: Vec<IrOp> = Vec::new();
        let mut i: usize = 0;
        proof {
            assert(args@.skip(0) =~= args@);
            assert(match spec_lower_args(m, args@) {
                Ok(rest) => arg_ops@ + rest =~~= rest,
                Err(e) => true,
            });
        }
        while i < args.len()
            invariant
                self.wf(),
                *self == *old(self),
                m == self.rage_variables@,
                0 <= i <= args@.len(),
                spec_lower_args(m, args@) == (match spec_lower_args(m, args@.skip(i as int)) {
                    Ok(rest) => Ok::<Seq<IrOp>, LowerError>(arg_ops@ + rest),
                    Err(e) => Err::<Seq<IrOp>, LowerError>(e),
                }),
            decreases args@.len() - i,
        {
            let op = match self.parse_expr(&args[i]) {
                Ok(op) => op,
                Err(e) => {
                    proof {
                        assert(args@.skip(i as int)[0] == args@[i as int]);
                    }
                    return Err(e);
                },
            };
            let ghost pre = arg_ops@;
            arg_ops.push(op);
            proof {
                assert(args@.skip(i as int)[0] == args@[i as int]);
                assert(args@.skip(i as int).skip(1) =~= args@.skip(i + 1));
                assert(match spec_lower_args(m, args@.skip(i + 1)) {
                    Ok(rest) => pre + (seq![op] + rest) =~~= arg_ops@ + rest,
                    Err(e) => true,
                });
            }
            i = i + 1;
        }
        proof {
            assert(args@.skip(args@.len() as int) =~= Seq::<Expr>::empty());
            assert(spec_lower_args(m, args@) == Ok::<Seq<IrOp>, LowerError>(arg_ops@ + Seq::empty()));
            assert(arg_ops@ + Seq::<IrOp>::empty() =~= arg_ops@);
        }
        let id = if str_eq(identifier, "libc_putchar") {
            PedroLibC::PutChar
        } else if str_eq(identifier, "libc_getchar") {
            PedroLibC::GetChar
        } else {
            return Err(LowerError::UnknownFunction);
        };
        let func = self.libc_decl.lookup(id);
        let argc = arg_ops.len();
        proof {
            lemma_spec_lower_args_ok(m, args@);
            lemma_ops_wf_append_args(self.ops@, arg_ops@);
        }
        self.ops.append(&mut arg_ops);
        let call_op = IrOp::CallRt { func, argc };
        proof {
            assert(op_wf(self.ops@, call_op));
            lemma_ops_wf_push(self.ops@, call_op);
            lemma_decl_ty_seq_push(self.ops@, call_op);
            lemma_args_avail_push(self.ops@, call_op);
        }
        self.ops.push(call_op);
        proof {
            let spec_ops = spec_lower_fn_call(m, old(self).libc_decl, identifier@, args@)->Ok_0;
            assert(self.ops@ =~= old(self).ops@ + spec_ops);
        }
        Ok(())
    }

    /// The emission driver: lower every top-level statement, in source
    /// order, against a fresh builder's function, then perform the
    /// emitted operations and return the builder to the caller, whose
    /// responsibility the implicit return, block sealing and
    /// finalization remain. A failure reports the failing statement's
    /// position and taxonomy kind, and nothing is performed against the
    /// builder.
    pub fn parse<'a>(
        stmts: &Vec<Stmt>,
        cl_fn_builder: FunctionBuilder<'a>,
        pedro_libc: &RuntimeTable,
    ) -> (r: Result<FunctionBuilder<'a>, Diagnostic>)
        requires
            builder_in_block(cl_fn_builder),
            builder_decl_tys(cl_fn_builder) == Seq::<MachineType>::empty(),
            pedro_libc.wf_for(cl_fn_builder),
            stmts@.len() < 0xffff_0000usize,
        ensures
            (r is Ok) == (spec_lower_program(
                Seq::<(Seq<char>, RageType)>::empty(),
                *pedro_libc,
                stmts@,
            ) is Ok),
            r matches Ok(b2) ==> builder_trace(b2) == builder_trace(cl_fn_builder)
                + spec_lower_program(
                Seq::<(Seq<char>, RageType)>::empty(),
                *pedro_libc,
                stmts@,
            )->Ok_0.1 && builder_in_block(b2) && builder_func_refs(b2) == builder_func_refs(
                cl_fn_builder,
            ) && builder_decl_tys(b2) == decl_ty_seq(
                spec_lower_program(
                    Seq::<(Seq<char>, RageType)>::empty(),
                    *pedro_libc,
                    stmts@,
                )->Ok_0.1,
            ),
            r matches Err(d) ==> d.stmt_index as int == spec_lower_program(
                Seq::<(Seq<char>, RageType)>::empty(),
                *pedro_libc,
                stmts@,
            )->Err_0.0 && d.error == spec_lower_program(
                Seq::<(Seq<char>, RageType)>::empty(),
                *pedro_libc,
                stmts@,
            )->Err_0.1,
    {
        let mut lowerer = RageParser::new(*pedro_libc);
        let mut i: usize = 0;
        proof {
            assert(stmts@.skip(0) =~= stmts@);
            assert(match spec_lower_program(lowerer.rage_variables@, *pedro_libc, stmts@) {
                Ok((mf, opsf)) => lowerer.ops@ + opsf =~~= opsf,
                Err(d) => true,
            });
        }
        while i < stmts.len()
            invariant
                lowerer.wf(),
                lowerer.libc_decl == *pedro_libc,
                0 <= i <= stmts@.len(),
                stmts@.len() < 0xffff_0000usize,
                lowerer.rage_variables@.len() <= i,
                spec_lower_program(Seq::<(Seq<char>, RageType)>::empty(), *pedro_libc, stmts@)
                    == (match spec_lower_program(
                    lowerer.rage_variables@,
                    *pedro_libc,
                    stmts@.skip(i as int),
                ) {
                    Ok((mf, opsf)) => Ok::<(Seq<(Seq<char>, RageType)>, Seq<IrOp>), (
                        int,
                        LowerError,
                    )>((mf, lowerer.ops@ + opsf)),
                    Err((k, e)) => Err::<(Seq<(Seq<char>, RageType)>, Seq<IrOp>), (
                        int,
                        LowerError,
                    )>((k + i, e)),
                }),
            decreases stmts@.len() - i,
        {
            let ghost pre_ops = lowerer.ops@;
            let ghost pre_m = lowerer.rage_variables@;
            let r = lowerer.lower_stmt(&stmts[i]);
            proof {
                assert(stmts@.skip(i as int)[0] == stmts@[i as int]);
                assert(stmts@.skip(i as int).skip(1) =~= stmts@.skip(i + 1));
            }
            match r {
                Ok(()) => {
                    proof {
                        let ops2 = spec_lower_stmt(pre_m, *pedro_libc, stmts@[i as int])->Ok_0.1;
                        assert(match spec_lower_program(
                            lowerer.rage_variables@,
                            *pedro_libc,
                            stmts@.skip(i + 1),
                        ) {
                            Ok((mf, opsf)) => pre_ops + (ops2 + opsf) =~~= lowerer.ops@ + opsf,
                            Err(x) => true,
                        });
                    }
                },
                Err(e) => {
                    return Err(Diagnostic { stmt_index: i, error: e });
                },
            }
            i = i + 1;
        }
        proof {
            assert(stmts@.skip(stmts@.len() as int) =~= Seq::<Stmt>::empty());
            assert(match spec_lower_program(
                Seq::<(Seq<char>, RageType)>::empty(),
                *pedro_libc,
                stmts@,
            ) {
                Ok((mf, opsf)) => lowerer.ops@ + Seq::<IrOp>::empty() =~~= lowerer.ops@,
                Err(x) => false,
            });
        }
        let mut b = cl_fn_builder;
        replay(&mut b, &lowerer.ops);
        Ok(b)
    }

    /// Lower one statement, dispatching on its rule kind.
    pub fn lower_stmt(&mut self, s: &Stmt) -> (r: Result<(), LowerError>)
        requires
            old(self).wf(),
            old(self).rage_variables@.len() + 1 < 0xffff_ffffu32,
        ensures
            final(self).wf(),
            final(self).libc_decl == old(self).libc_decl,
            final(self).rage_variables@.len() <= old(self).rage_variables@.len() + 1,
            match spec_lower_stmt(old(self).rage_variables@, old(self).libc_decl, *s) {
                Ok((m2, ops2)) => r is Ok && final(self).rage_variables@ == m2 && final(self).ops@
                    == old(self).ops@ + ops2,
                Err(e) => r == Err::<(), LowerError>(e) && final(self).rage_variables@ == old(
                    self,
                ).rage_variables@ && final(self).ops@ == old(self).ops@,
            },
    {
        match s {
            Stmt::VarDeclaration { identifier, typing } => {
                let r = self.parse_var_decl(identifier.as_str(), typing.as_str());
                proof {
                    if spec_lower_var_decl(old(self).rage_variables@, identifier@, typing@)
                        is Ok {
                        let op = spec_lower_var_decl(
                            old(self).rage_variables@,
                            identifier@,
                            typing@,
                        )->Ok_0.1;
                        assert(old(self).ops@.push(op) =~= old(self).ops@ + seq![op]);
                    }
                }
                r
            },
            Stmt::VarDefinition { identifier, value } => {
                let r = self.parse_var_def(identifier.as_str(), value);
                proof {
                    if spec_lower_var_def(old(self).rage_variables@, identifier@, *value) is Ok {
                        let op = spec_lower_var_def(
                            old(self).rage_variables@,
                            identifier@,
                            *value,
                        )->Ok_0;
                        assert(old(self).ops@.push(op) =~= old(self).ops@ + seq![op]);
                    }
                }
                r
            },
            Stmt::FnCall { identifier, args } => self.parse_fn_call(identifier.as_str(), args),
            Stmt::EndOfInput => {
                proof {
                    assert(old(self).ops@ + Seq::<IrOp>::empty() =~= old(self).ops@);
                }
                Ok(())
            },
        }
    }
}

} // verus!
