//! The verified compiler front: bytes in, validated artifact or exact error
//! out.

use vstd::prelude::*;
use crate::digest::{checksum_of, spec_checksum_of};
use crate::engine::{
    compile_and_inspect, new_engine, spec_wasm_export_present, spec_wasm_module_ok,
};

verus! {

/// Why a module was rejected: the bytes did not compile, or a required
/// export is missing.
#[derive(Debug)]
pub enum CompileError {
    Parse(String),
    MissingExport(String),
}

impl Clone for CompileError {
    fn clone(&self) -> (r: Self)
        ensures
            r.matches_model(*self),
    {
        match self {
            CompileError::Parse(detail) => CompileError::Parse(detail.clone()),
            CompileError::MissingExport(name) => CompileError::MissingExport(name.clone()),
        }
    }
}

impl CompileError {
    /// Variant-and-text equality, the sense in which a clone preserves an
    /// error.
    pub open spec fn matches_model(self, other: CompileError) -> bool {
        match (self, other) {
            (CompileError::Parse(a), CompileError::Parse(b)) => a@ == b@,
            (CompileError::MissingExport(a), CompileError::MissingExport(b)) => a@ == b@,
            _ => false,
        }
    }
}

/// A compiled, export-validated artifact: the engine's module handle tagged
/// with the checksum of the bytes it was compiled from. Cloning is cheap
/// and never recompiles.
pub struct CompilationUnit {
    pub module: wasmtime::Module,
    pub checksum: String,
}

impl Clone for CompilationUnit {
    fn clone(&self) -> (r: Self)
        ensures
            r.checksum@ == self.checksum@,
    {
        CompilationUnit { module: self.module.clone(), checksum: self.checksum.clone() }
    }
}

/// Whether bytes compile and export both required entry points, so that
/// `Compiler::compile` accepts them.
pub open spec fn spec_compilable(bytes: Seq<u8>) -> bool {
    &&& spec_wasm_module_ok(bytes)
    &&& spec_wasm_export_present(bytes, "process"@)
    &&& spec_wasm_export_present(bytes, "on_error"@)
}

/// The exact error `Compiler::compile` reports for rejected bytes.
pub open spec fn spec_compile_error_for(bytes: Seq<u8>, e: CompileError) -> bool {
    if !spec_wasm_module_ok(bytes) {
        e is Parse
    } else if !spec_wasm_export_present(bytes, "process"@) {
        e matches CompileError::MissingExport(n) && n@ == "process"@
    } else {
        e matches CompileError::MissingExport(n) && n@ == "on_error"@
    }
}

/// The compiler: a handle on the fixed-configuration engine.
pub struct Compiler {
    pub engine: wasmtime::Engine,
}

impl Compiler {
    /// A compiler on a freshly built engine; `None` when the engine cannot
    /// be created on this host.
    pub fn new() -> (r: Option<Compiler>) {
        match new_engine() {
            Some(engine) => Some(Compiler { engine }),
            None => None,
        }
    }

    /// Compiles module bytes and validates the `process` and `on_error`
    /// exports. Succeeds exactly on compilable bytes; the artifact carries
    /// the checksum of the bytes it was built from.
    pub fn compile(&self, bytes: &Vec<u8>) -> (r: Result<CompilationUnit, CompileError>)
        ensures
            r is Ok <==> spec_compilable(bytes@),
            r matches Ok(cu) ==> cu.checksum@ == spec_checksum_of(bytes@),
            r matches Err(e) ==> spec_compile_error_for(bytes@, e),
    {
        match compile_and_inspect(&self.engine, bytes) {
            Ok(inspected) => {
                if !inspected.has_process {
                    Err(CompileError::MissingExport(String::from_str("process")))
                } else if !inspected.has_on_error {
                    Err(CompileError::MissingExport(String::from_str("on_error")))
                } else {
                    Ok(CompilationUnit { module: inspected.module, checksum: checksum_of(bytes) })
                }
            },
            Err(detail) => Err(CompileError::Parse(detail)),
        }
    }
}

/// The sandboxed runner's engine handle. Running a compiled module happens
/// outside the library, in a forked child; the executor only carries the
/// shared engine to it.
pub struct Executor {
    pub engine: wasmtime::Engine,
}

impl Executor {
    /// An executor over the given engine.
    pub fn new(engine: wasmtime::Engine) -> (r: Executor) {
        Executor { engine }
    }
}

/// A compiler and an executor sharing one engine; `None` when the engine
/// cannot be created on this host.
pub fn new_pair() -> (r: Option<(Compiler, Executor)>) {
    match new_engine() {
        Some(engine) => {
            let executor = Executor::new(engine.clone());
            Some((Compiler { engine }, executor))
        },
        None => None,
    }
}

} // verus!
