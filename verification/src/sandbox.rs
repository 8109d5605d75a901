//! The sandbox adapter: a thin trusted layer over the embedded WebAssembly
//! engine.
//!
//! The engine ties every memory and function handle to the store that owns
//! it and panics when a handle is used with a foreign store.  To keep that
//! pairing out of reach of any caller, the store, the instance and every
//! bound handle live together in one opaque link with private fields: the
//! binder wrappers below fill its slots from its own instance, and every
//! call wrapper takes the whole link, so a mismatched pair cannot be
//! expressed.  A call through a slot that was never bound is answered with
//! an internal error, never a panic.
//!
//! The wrappers state only what the engine's own source shows.  What a
//! guest call returns, and what the guest's memory holds, depend on the
//! loaded module, so no wrapper promises anything about those values
//! beyond their shape.

use vstd::prelude::*;
use crate::types::DtasmError;

verus! {

/// An opaque handle to the engine.  The engine, module and instance types
/// of the sandbox crate share their names with this crate's own public
/// types, so they are held behind opaque holders rather than declared.
#[verifier::external_body]
pub struct EngineHandle {
    e: wasmtime::Engine,
}

/// An opaque handle to a compiled module and the engine that compiled it.
#[verifier::external_body]
pub struct ModuleHandle {
    m: wasmtime::Module,
    e: wasmtime::Engine,
}

/// One live guest: its store, its instance, and the bound handles, all
/// owned by the same store by construction.
#[verifier::external_body]
pub struct SandboxLink {
    store: wasmtime::Store<wasmtime_wasi::p1::WasiP1Ctx>,
    instance: wasmtime::Instance,
    memory: Option<wasmtime::Memory>,
    reactor_init: Option<wasmtime::Func>,
    alloc_fn: Option<wasmtime::TypedFunc<i32, i32>>,
    dealloc_fn: Option<wasmtime::TypedFunc<(i32, i32), ()>>,
    get_md_fn: Option<wasmtime::TypedFunc<(i32, i32), i32>>,
    init_fn: Option<wasmtime::TypedFunc<(i32, i32, i32, i32), i32>>,
    get_values_fn: Option<wasmtime::TypedFunc<(i32, i32, i32, i32), i32>>,
    set_values_fn: Option<wasmtime::TypedFunc<(i32, i32, i32, i32), i32>>,
    do_step_fn: Option<wasmtime::TypedFunc<(i32, i32, i32, i32), i32>>,
}

/// Whether a compiled module exports the given name; a fixed property of
/// the module, observed through the wrapper below.
pub uninterp spec fn module_exports(m: ModuleHandle, name: Seq<u8>) -> bool;

/// Relies on wasmtime::Engine::new: a fresh engine handle.  Guest
/// memories are kept at their actual size rather than behind a large
/// virtual reservation, so the engine also runs under a small address
/// space.
#[verifier::external_body]
pub(crate) fn engine_new() -> (r: Result<EngineHandle, DtasmError>)
    ensures
        r matches Err(err) ==> err == DtasmError::InstantiationError,
{
    let mut config = wasmtime::Config::new();
    config.memory_reservation(1 << 20);
    config.memory_guard_size(1 << 16);
    config.memory_reservation_for_growth(1 << 20);
    match wasmtime::Engine::new(&config) {
        Ok(e) => Ok(EngineHandle { e }),
        Err(_e) => Err(DtasmError::InstantiationError),
    }
}

/// Relies on wasmtime::Module::new: compiles a module from its bytes; the
/// handle keeps a clone of the engine handle beside it.
#[verifier::external_body]
pub(crate) fn module_new(h: &EngineHandle, bytes: &Vec<u8>) -> (r: Result<
    ModuleHandle,
    DtasmError,
>)
    ensures
        r matches Err(err) ==> err == DtasmError::ModuleLoad,
{
    match wasmtime::Module::new(&h.e, bytes) {
        Ok(m) => Ok(ModuleHandle { m, e: h.e.clone() }),
        Err(_e) => Err(DtasmError::ModuleLoad),
    }
}

/// Relies on wasmtime::Module::get_export: whether the module exports the
/// name.  The module is immutable, so the answer is a fixed property of
/// it, named by `module_exports`.
#[verifier::external_body]
pub(crate) fn module_has_export(h: &ModuleHandle, name: &Vec<u8>) -> (r: bool)
    ensures
        r == module_exports(*h, name@),
{
    match core::str::from_utf8(name) {
        Ok(s) => h.m.get_export(s).is_some(),
        Err(_e) => false,
    }
}

/// Relies on wasmtime::Store::new, wasmtime::Linker::instantiate and
/// wasmtime_wasi::p1::add_to_linker_sync: a fresh store and an instance of
/// the module in it, with the minimal system-call surface a guest's
/// panic/abort path needs linked in; a trap during construction and an
/// unsatisfied import are told apart.  All handle slots start unbound.
#[verifier::external_body]
pub(crate) fn link_start(h: &ModuleHandle) -> (r: Result<SandboxLink, DtasmError>)
    ensures
        r matches Err(err) ==> (err == DtasmError::InstantiationError || err
            == DtasmError::LinkError),
{
    let mut store = wasmtime::Store::new(&h.e, wasmtime_wasi::WasiCtxBuilder::new().build_p1());
    let mut linker = wasmtime::Linker::new(&h.e);
    let added = wasmtime_wasi::p1::add_to_linker_sync(&mut linker, |t| t);
    let instance = added.and_then(|_u| linker.instantiate(&mut store, &h.m)).map_err(
        |e| if e.is::<wasmtime::Trap>() { DtasmError::InstantiationError } else { DtasmError::LinkError },
    )?;
    Ok(SandboxLink {
        store, instance, memory: None, reactor_init: None, alloc_fn: None, dealloc_fn: None,
        get_md_fn: None, init_fn: None, get_values_fn: None, set_values_fn: None, do_step_fn: None,
    })
}

/// Relies on wasmtime::Instance::get_memory: binds the exported linear
/// memory of the link's own instance; false where it is absent.
#[verifier::external_body]
pub(crate) fn link_bind_memory(l: &mut SandboxLink) -> bool {
    match l.instance.get_memory(&mut l.store, "memory") {
        Some(m) => {
            l.memory = Some(m);
            true
        },
        None => false,
    }
}

/// Relies on wasmtime::Instance::get_func: binds the optional one-shot
/// `_initialize` export; the result says whether it exists.
#[verifier::external_body]
pub(crate) fn link_bind_reactor(l: &mut SandboxLink) -> bool {
    l.reactor_init = l.instance.get_func(&mut l.store, "_initialize");
    l.reactor_init.is_some()
}

/// Relies on wasmtime::Instance::get_typed_func: binds the guest's
/// `alloc` export; false where it is absent or wrongly typed.
#[verifier::external_body]
pub(crate) fn link_bind_alloc(l: &mut SandboxLink) -> bool {
    match l.instance.get_typed_func::<i32, i32>(&mut l.store, "alloc") {
        Ok(f) => {
            l.alloc_fn = Some(f);
            true
        },
        Err(_e) => false,
    }
}

/// Relies on wasmtime::Instance::get_typed_func: binds the guest's
/// `dealloc` export.
#[verifier::external_body]
pub(crate) fn link_bind_dealloc(l: &mut SandboxLink) -> bool {
    match l.instance.get_typed_func::<(i32, i32), ()>(&mut l.store, "dealloc") {
        Ok(f) => {
            l.dealloc_fn = Some(f);
            true
        },
        Err(_e) => false,
    }
}

/// Relies on wasmtime::Instance::get_typed_func: binds the guest's
/// `getModelDescription` export.
#[verifier::external_body]
pub(crate) fn link_bind_get_md(l: &mut SandboxLink) -> bool {
    match l.instance.get_typed_func::<(i32, i32), i32>(&mut l.store, "getModelDescription") {
        Ok(f) => {
            l.get_md_fn = Some(f);
            true
        },
        Err(_e) => false,
    }
}

/// Relies on wasmtime::Instance::get_typed_func: binds the guest's
/// `init` export.
#[verifier::external_body]
pub(crate) fn link_bind_init(l: &mut SandboxLink) -> bool {
    match l.instance.get_typed_func::<(i32, i32, i32, i32), i32>(&mut l.store, "init") {
        Ok(f) => {
            l.init_fn = Some(f);
            true
        },
        Err(_e) => false,
    }
}

/// Relies on wasmtime::Instance::get_typed_func: binds the guest's
/// `getValues` export.
#[verifier::external_body]
pub(crate) fn link_bind_get_values(l: &mut SandboxLink) -> bool {
    match l.instance.get_typed_func::<(i32, i32, i32, i32), i32>(&mut l.store, "getValues") {
        Ok(f) => {
            l.get_values_fn = Some(f);
            true
        },
        Err(_e) => false,
    }
}

/// Relies on wasmtime::Instance::get_typed_func: binds the guest's
/// `setValues` export.
#[verifier::external_body]
pub(crate) fn link_bind_set_values(l: &mut SandboxLink) -> bool {
    match l.instance.get_typed_func::<(i32, i32, i32, i32), i32>(&mut l.store, "setValues") {
        Ok(f) => {
            l.set_values_fn = Some(f);
            true
        },
        Err(_e) => false,
    }
}

/// Relies on wasmtime::Instance::get_typed_func: binds the guest's
/// `doStep` export.
#[verifier::external_body]
pub(crate) fn link_bind_do_step(l: &mut SandboxLink) -> bool {
    match l.instance.get_typed_func::<(i32, i32, i32, i32), i32>(&mut l.store, "doStep") {
        Ok(f) => {
            l.do_step_fn = Some(f);
            true
        },
        Err(_e) => false,
    }
}

/// Relies on wasmtime::TypedFunc::call on the guest's `alloc` export; a
/// trap becomes an error, an unbound slot an internal error.  What
/// pointer comes back is the guest's to decide.
#[verifier::external_body]
pub(crate) fn alloc_call(l: &mut SandboxLink, size: i32) -> (r: Result<i32, DtasmError>)
    ensures
        r matches Err(err) ==> (err == DtasmError::SandboxTrap || err matches
            DtasmError::DtasmInternalError(_)),
{
    match &l.alloc_fn {
        Some(f) => f.call(&mut l.store, size).map_err(|_e| DtasmError::SandboxTrap),
        None => Err(DtasmError::DtasmInternalError(0)),
    }
}

/// Relies on wasmtime::TypedFunc::call on the guest's `dealloc` export.
#[verifier::external_body]
pub(crate) fn dealloc_call(l: &mut SandboxLink, ptr: i32, size: i32) -> (r: Result<(), DtasmError>)
    ensures
        r matches Err(err) ==> (err == DtasmError::SandboxTrap || err matches
            DtasmError::DtasmInternalError(_)),
{
    match &l.dealloc_fn {
        Some(f) => f.call(&mut l.store, (ptr, size)).map_err(|_e| DtasmError::SandboxTrap),
        None => Err(DtasmError::DtasmInternalError(0)),
    }
}

/// Relies on wasmtime::TypedFunc::call on the guest's `getModelDescription`
/// export; the result is the length the guest reports.
#[verifier::external_body]
pub(crate) fn get_md_call(l: &mut SandboxLink, out_ptr: i32, out_max: i32) -> (r: Result<
    i32,
    DtasmError,
>)
    ensures
        r matches Err(err) ==> (err == DtasmError::SandboxTrap || err matches
            DtasmError::DtasmInternalError(_)),
{
    match &l.get_md_fn {
        Some(f) => f.call(&mut l.store, (out_ptr, out_max)).map_err(|_e| DtasmError::SandboxTrap),
        None => Err(DtasmError::DtasmInternalError(0)),
    }
}

/// Relies on wasmtime::TypedFunc::call on the guest's `init` export.
#[verifier::external_body]
pub(crate) fn init_call(l: &mut SandboxLink, a: i32, b: i32, c: i32, d: i32) -> (r: Result<
    i32,
    DtasmError,
>)
    ensures
        r matches Err(err) ==> (err == DtasmError::SandboxTrap || err matches
            DtasmError::DtasmInternalError(_)),
{
    match &l.init_fn {
        Some(f) => f.call(&mut l.store, (a, b, c, d)).map_err(|_e| DtasmError::SandboxTrap),
        None => Err(DtasmError::DtasmInternalError(0)),
    }
}

/// Relies on wasmtime::TypedFunc::call on the guest's `getValues` export.
#[verifier::external_body]
pub(crate) fn get_values_call(l: &mut SandboxLink, a: i32, b: i32, c: i32, d: i32) -> (r: Result<
    i32,
    DtasmError,
>)
    ensures
        r matches Err(err) ==> (err == DtasmError::SandboxTrap || err matches
            DtasmError::DtasmInternalError(_)),
{
    match &l.get_values_fn {
        Some(f) => f.call(&mut l.store, (a, b, c, d)).map_err(|_e| DtasmError::SandboxTrap),
        None => Err(DtasmError::DtasmInternalError(0)),
    }
}

/// Relies on wasmtime::TypedFunc::call on the guest's `setValues` export.
#[verifier::external_body]
pub(crate) fn set_values_call(l: &mut SandboxLink, a: i32, b: i32, c: i32, d: i32) -> (r: Result<
    i32,
    DtasmError,
>)
    ensures
        r matches Err(err) ==> (err == DtasmError::SandboxTrap || err matches
            DtasmError::DtasmInternalError(_)),
{
    match &l.set_values_fn {
        Some(f) => f.call(&mut l.store, (a, b, c, d)).map_err(|_e| DtasmError::SandboxTrap),
        None => Err(DtasmError::DtasmInternalError(0)),
    }
}

/// Relies on wasmtime::TypedFunc::call on the guest's `doStep` export.
#[verifier::external_body]
pub(crate) fn do_step_call(l: &mut SandboxLink, a: i32, b: i32, c: i32, d: i32) -> (r: Result<
    i32,
    DtasmError,
>)
    ensures
        r matches Err(err) ==> (err == DtasmError::SandboxTrap || err matches
            DtasmError::DtasmInternalError(_)),
{
    match &l.do_step_fn {
        Some(f) => f.call(&mut l.store, (a, b, c, d)).map_err(|_e| DtasmError::SandboxTrap),
        None => Err(DtasmError::DtasmInternalError(0)),
    }
}

/// Relies on wasmtime::Func::call on the optional `_initialize` export;
/// does nothing where the module exports none.
#[verifier::external_body]
pub(crate) fn reactor_call(l: &mut SandboxLink) -> (r: Result<(), DtasmError>)
    ensures
        r matches Err(err) ==> err == DtasmError::SandboxTrap,
{
    match &l.reactor_init {
        Some(f) => f.call(&mut l.store, &[], &mut []).map_err(|_e| DtasmError::SandboxTrap),
        None => Ok(()),
    }
}

/// Relies on wasmtime::Memory::size: the current size in 64 KiB pages, or
/// zero where no memory is bound.
#[verifier::external_body]
pub(crate) fn mem_pages(l: &SandboxLink) -> u64 {
    match &l.memory {
        Some(m) => m.size(&l.store),
        None => 0,
    }
}

/// Relies on wasmtime::Memory::grow: adds pages, returning the old size.
#[verifier::external_body]
pub(crate) fn mem_grow(l: &mut SandboxLink, delta: u64) -> (r: Result<u64, DtasmError>)
    ensures
        r matches Err(err) ==> err == DtasmError::SandboxGrowthError,
{
    match &l.memory {
        Some(m) => m.grow(&mut l.store, delta).map_err(|_e| DtasmError::SandboxGrowthError),
        None => Err(DtasmError::SandboxGrowthError),
    }
}

/// Relies on wasmtime::Memory::data: copies the addressed range out of the
/// guest's linear memory; nothing where the range is out of bounds.
#[verifier::external_body]
pub(crate) fn mem_read(l: &SandboxLink, start: usize, end: usize) -> (r: Option<Vec<u8>>)
    requires
        start <= end,
    ensures
        r matches Some(v) ==> v@.len() == end - start,
{
    match &l.memory {
        Some(m) => m.data(&l.store).get(start..end).map(|d| d.to_vec()),
        None => None,
    }
}

/// Relies on wasmtime::Memory::data_mut: writes the bytes at the given
/// range of the guest's linear memory; false where the range is out of
/// bounds.
#[verifier::external_body]
pub(crate) fn mem_write(l: &mut SandboxLink, start: usize, end: usize, bytes: &Vec<u8>) -> (r: bool)
    requires
        start <= end,
        bytes@.len() == end - start,
{
    match l.memory.as_ref().and_then(|m| m.data_mut(&mut l.store).get_mut(start..end)) {
        Some(d) => {
            d.copy_from_slice(bytes.as_slice());
            true
        },
        None => false,
    }
}

/// Relies on wasmtime::Memory::data: copies the whole linear memory out.
#[verifier::external_body]
pub(crate) fn mem_read_all(l: &SandboxLink) -> Vec<u8> {
    match &l.memory {
        Some(m) => m.data(&l.store).to_vec(),
        None => Vec::new(),
    }
}

} // verus!
