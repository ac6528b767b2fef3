use vstd::prelude::*;
use cranelift::prelude::Type;
use crate::errors::LowerError;
use crate::strutil::str_eq;

verus! {

/// The primitive types of the source language.
///
/// `String`, `Pointer` and `Null` are recognized by the type resolver so
/// that declarations naming them do not fail immediately, but no lowering
/// is defined for them: asking for their machine representation reports
/// an explicit `Unsupported` error.
#[derive(Clone, Copy, PartialEq, Eq, Structural, Debug)]
pub enum RageType {
    I8,
    I16,
    I32,
    I64,
    F32,
    F64,
    Boolean,
    Char,
    String,
    Pointer,
    Null,
}

/// The fixed-width machine representation a backend uses to store a value.
///
/// Boolean and character values share the smallest integer width.
#[derive(Clone, Copy, PartialEq, Eq, Structural, Debug)]
pub enum MachineType {
    Int8,
    Int16,
    Int32,
    Int64,
    Float32,
    Float64,
}

impl MachineType {
    /// Whether this representation is in the integer family (materialized
    /// with an integer constant instruction).
    pub open spec fn spec_is_int(self) -> bool {
        match self {
            MachineType::Int8 | MachineType::Int16 | MachineType::Int32
            | MachineType::Int64 => true,
            MachineType::Float32 | MachineType::Float64 => false,
        }
    }

    /// Executable twin of [`Self::spec_is_int`].
    pub fn is_int(&self) -> (r: bool)
        ensures
            r == self.spec_is_int(),
    {
        match self {
            MachineType::Int8 | MachineType::Int16 | MachineType::Int32
            | MachineType::Int64 => true,
            MachineType::Float32 | MachineType::Float64 => false,
        }
    }

    /// The bit width of this representation.
    pub open spec fn spec_bits(self) -> nat {
        match self {
            MachineType::Int8 => 8,
            MachineType::Int16 => 16,
            MachineType::Int32 => 32,
            MachineType::Int64 => 64,
            MachineType::Float32 => 32,
            MachineType::Float64 => 64,
        }
    }
}

impl RageType {
    /// What a type keyword resolves to, if anything.
    pub open spec fn spec_from_str(s: Seq<char>) -> Option<RageType> {
        if s == "i8"@ {
            Some(RageType::I8)
        } else if s == "i16"@ {
            Some(RageType::I16)
        } else if s == "i32"@ {
            Some(RageType::I32)
        } else if s == "i64"@ {
            Some(RageType::I64)
        } else if s == "f32"@ {
            Some(RageType::F32)
        } else if s == "f64"@ {
            Some(RageType::F64)
        } else if s == "bool"@ {
            Some(RageType::Boolean)
        } else if s == "char"@ {
            Some(RageType::Char)
        } else if s == "str"@ {
            Some(RageType::String)
        } else if s == "ptr"@ {
            Some(RageType::Pointer)
        } else if s == "null"@ {
            Some(RageType::Null)
        } else {
            None
        }
    }

    /// Resolve a type keyword to its primitive type; `None` for an
    /// unrecognized keyword.
    pub fn from_str(input: &str) -> (r: Option<RageType>)
        ensures
            r == Self::spec_from_str(input@),
    {
        if str_eq(input, "i8") {
            Some(RageType::I8)
        } else if str_eq(input, "i16") {
            Some(RageType::I16)
        } else if str_eq(input, "i32") {
            Some(RageType::I32)
        } else if str_eq(input, "i64") {
            Some(RageType::I64)
        } else if str_eq(input, "f32") {
            Some(RageType::F32)
        } else if str_eq(input, "f64") {
            Some(RageType::F64)
        } else if str_eq(input, "bool") {
            Some(RageType::Boolean)
        } else if str_eq(input, "char") {
            Some(RageType::Char)
        } else if str_eq(input, "str") {
            Some(RageType::String)
        } else if str_eq(input, "ptr") {
            Some(RageType::Pointer)
        } else if str_eq(input, "null") {
            Some(RageType::Null)
        } else {
            None
        }
    }

    /// The machine representation of a primitive type, if one is defined.
    ///
    /// The mapping is total and pure over the supported subset; `String`,
    /// `Pointer` and `Null` have no lowering.
    pub open spec fn spec_machine_type(self) -> Result<MachineType, LowerError> {
        match self {
            RageType::I8 => Ok(MachineType::Int8),
            RageType::I16 => Ok(MachineType::Int16),
            RageType::I32 => Ok(MachineType::Int32),
            RageType::I64 => Ok(MachineType::Int64),
            RageType::F32 => Ok(MachineType::Float32),
            RageType::F64 => Ok(MachineType::Float64),
            RageType::Boolean => Ok(MachineType::Int8),
            RageType::Char => Ok(MachineType::Int8),
            RageType::String => Err(LowerError::Unsupported),
            RageType::Pointer => Err(LowerError::Unsupported),
            RageType::Null => Err(LowerError::Unsupported),
        }
    }

    /// Map a primitive type to its backend machine representation.
    ///
    /// Fails only for `String`, `Pointer` and `Null`, with `Unsupported`:
    /// an explicitly reachable diagnostic, not a programming bug.
    pub fn machine_type(&self) -> (r: Result<MachineType, LowerError>)
        ensures
            r == self.spec_machine_type(),
    {
        match self {
            RageType::I8 => Ok(MachineType::Int8),
            RageType::I16 => Ok(MachineType::Int16),
            RageType::I32 => Ok(MachineType::Int32),
            RageType::I64 => Ok(MachineType::Int64),
            RageType::F32 => Ok(MachineType::Float32),
            RageType::F64 => Ok(MachineType::Float64),
            RageType::Boolean => Ok(MachineType::Int8),
            RageType::Char => Ok(MachineType::Int8),
            RageType::String => Err(LowerError::Unsupported),
            RageType::Pointer => Err(LowerError::Unsupported),
            RageType::Null => Err(LowerError::Unsupported),
        }
    }

    /// Map a primitive type to the backend's type tag for its machine
    /// representation; `Unsupported` where no lowering is defined.
    pub fn to_cl_type(&self) -> (r: Result<Type, LowerError>)
        ensures
            (r is Ok) == (self.spec_machine_type() is Ok),
            r matches Err(e) ==> self.spec_machine_type() == Err::<MachineType, LowerError>(e),
    {
        match self.machine_type() {
            Ok(mt) => Ok(crate::sink::cl_type_of(&mt)),
            Err(e) => Err(e),
        }
    }
}

} // verus!
