//! The trusted boundary to the WebAssembly engine.
//!
//! Everything the controller needs to know about a module is a function of
//! the module's bytes: whether they compile under this library's fixed
//! engine configuration, and whether a given export is present. Both facts
//! are named here and established only by the wrappers below.

use vstd::prelude::*;

verus! {

#[verifier::external_type_specification]
#[verifier::external_body]
pub struct ExEngine(wasmtime::Engine);

#[verifier::external_type_specification]
#[verifier::external_body]
pub struct ExModule(wasmtime::Module);

/// Whether these bytes are a WebAssembly binary that compiles under this
/// library's fixed engine configuration (reference types, SIMD, threads and
/// bulk memory all disabled).
pub uninterp spec fn spec_wasm_module_ok(bytes: Seq<u8>) -> bool;

/// Whether the module encoded by these bytes exports `name`.
pub uninterp spec fn spec_wasm_export_present(bytes: Seq<u8>, name: Seq<char>) -> bool;

/// A compiled module together with the two export facts the controller
/// validates.
pub struct InspectedModule {
    pub module: wasmtime::Module,
    pub has_process: bool,
    pub has_on_error: bool,
}

/// Relies on `wasmtime::Engine::new`: builds the engine every compile and
/// execution goes through, with reference types, SIMD (plain and relaxed),
/// threads and bulk memory disabled, and the default on-disk compilation
/// cache enabled when its configuration loads. Returns `None` when engine
/// creation fails.
#[verifier::external_body]
pub(crate) fn new_engine() -> (r: Option<wasmtime::Engine>)
{
    let mut config = wasmtime::Config::new();
    config.wasm_reference_types(false);
    config.wasm_simd(false);
    config.wasm_relaxed_simd(false);
    config.wasm_threads(false);
    config.wasm_bulk_memory(false);
    if let Ok(cache) = wasmtime::Cache::from_file(None) {
        config.cache(Some(cache));
    }
    wasmtime::Engine::new(&config).ok()
}

/// Relies on `wasmtime::Module::from_binary` and
/// `wasmtime::Module::get_export`: for the fixed configuration that
/// `new_engine` builds, whether the bytes compile is a function of the bytes
/// alone, and whether the compiled module exports a name is a function of
/// the bytes and the name alone. On failure the error's rendering is
/// returned as plain text.
#[verifier::external_body]
pub(crate) fn compile_and_inspect(engine: &wasmtime::Engine, bytes: &Vec<u8>) -> (r: Result<
    InspectedModule,
    String,
>)
    ensures
        r is Ok <==> spec_wasm_module_ok(bytes@),
        r matches Ok(m) ==> m.has_process == spec_wasm_export_present(bytes@, "process"@),
        r matches Ok(m) ==> m.has_on_error == spec_wasm_export_present(bytes@, "on_error"@),
{
    match wasmtime::Module::from_binary(engine, bytes.as_slice()) {
        Ok(module) => {
            let has_process = module.get_export("process").is_some();
            let has_on_error = module.get_export("on_error").is_some();
            Ok(InspectedModule { module, has_process, has_on_error })
        },
        Err(error) => Err(format!("{error:#}")),
    }
}

/// Relies on `wasmtime::Engine::clone`: engines are cheaply shareable
/// handles. Nothing is assumed of the result.
pub assume_specification[ <wasmtime::Engine as Clone>::clone ](e: &wasmtime::Engine) -> wasmtime::Engine;

/// Relies on `wasmtime::Module::clone`: compiled modules are reference
/// counted and clone without recompiling. Nothing is assumed of the result.
pub assume_specification[ <wasmtime::Module as Clone>::clone ](m: &wasmtime::Module) -> wasmtime::Module;

} // verus!
