//! Options of code generation and its product.

use vstd::prelude::*;

use crate::codegen::module::{
    all_backward, all_balanced, all_followed, all_in_order, compile, compiles, module_for, Module,
};
use crate::mir::Program;

verus! {

/// Optimization level, as in `-O0` to `-O3`.
#[derive(Clone, Copy, Debug, PartialEq, Eq, Structural)]
pub enum OptLevel {
    O0,
    O1,
    O2,
    O3,
}

impl Default for OptLevel {
    fn default() -> (r: OptLevel)
        ensures
            r == OptLevel::O2,
    {
        OptLevel::O2
    }
}

impl OptLevel {
    pub open spec fn passes(self) -> &'static str {
        match self {
            OptLevel::O0 => "default<O0>",
            OptLevel::O1 => "default<O1>",
            OptLevel::O2 => "default<O2>",
            OptLevel::O3 => "default<O3>",
        }
    }

    /// The pass pipeline, in the grammar of `opt -passes=`.
    pub fn pipeline(self) -> (r: &'static str)
        ensures
            r == self.passes(),
    {
        match self {
            OptLevel::O0 => "default<O0>",
            OptLevel::O1 => "default<O1>",
            OptLevel::O2 => "default<O2>",
            OptLevel::O3 => "default<O3>",
        }
    }

    /// The level that a number asks for; any other than 0, 1 and 3 is 2.
    pub fn numbered(n: u8) -> (r: OptLevel)
        ensures
            r == (if n == 0 {
                OptLevel::O0
            } else if n == 1 {
                OptLevel::O1
            } else if n == 3 {
                OptLevel::O3
            } else {
                OptLevel::O2
            }),
    {
        match n {
            0 => OptLevel::O0,
            1 => OptLevel::O1,
            3 => OptLevel::O3,
            _ => OptLevel::O2,
        }
    }
}

/// Options controlling code generation.
#[derive(Debug)]
pub struct CodegenOpts {
    /// Target triple; `None` is the host.
    pub target_triple: Option<String>,
    pub opt: OptLevel,
}

impl Default for CodegenOpts {
    fn default() -> (r: CodegenOpts)
        ensures
            r.target_triple is None,
            r.opt == OptLevel::O2,
    {
        CodegenOpts { target_triple: None, opt: OptLevel::O2 }
    }
}

/// A produced relocatable object, ready for linking.
#[derive(Debug)]
pub struct ObjectFile {
    pub bytes: Vec<u8>,
}

/// The LLVM backend.
#[derive(Debug)]
pub struct LlvmBackend {}

impl Default for LlvmBackend {
    fn default() -> (r: LlvmBackend)
        ensures
            r == (LlvmBackend {  }),
    {
        LlvmBackend {  }
    }
}

impl LlvmBackend {
    /// Plans the module of a program for a target; `None` if the program
    /// breaks a rule that the type checker guarantees.
    pub fn plan<'a>(&self, program: &'a Program, windows: bool) -> (r: Option<Module<'a>>)
        ensures
            r is Some <==> compiles(program, windows),
            r matches Some(m) ==> module_for(program, windows, m) && all_backward(m)
                && all_in_order(m) && all_balanced(program, windows, m) && all_followed(program, m),
    {
        compile(program, windows)
    }
}

} // verus!
