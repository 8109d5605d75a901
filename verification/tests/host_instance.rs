//! The instance manager driven against a real sandboxed module.
//!
//! The module is assembled from text at test time.  Its entry points
//! answer with canned response records, precomputed by replaying the same
//! call sequence against the in-process reference adder, so every byte the
//! host sees is exactly what a conforming guest would produce.

use dtasmtime::adder::RealOps;
use dtasmtime::codec::{emit_ids, emit_vv, emit_do_step_req, emit_init_req};
use dtasmtime::guest::GuestAdder;
use dtasmtime::runtime::{Engine, Module, pages_for};
use dtasmtime::types::{DtasmError, InstanceState, Status, VarValues, LogLevel, CausalityType};

struct F64Ops;

impl RealOps for F64Ops {
    fn real_add(&self, a: u64, b: u64) -> u64 {
        (f64::from_bits(a) + f64::from_bits(b)).to_bits()
    }
}

fn empty_vals() -> VarValues {
    VarValues {
        real_values: vec![],
        int_values: vec![],
        bool_values: vec![],
        string_values: vec![],
    }
}

fn escape(bytes: &[u8]) -> String {
    bytes.iter().map(|b| format!("\\{b:02x}")).collect()
}

fn canned_entry(name: &str, offset: usize, len: usize) -> String {
    format!(
        "(func (export \"{name}\") (param i32 i32 i32 i32) (result i32)\n\
           (if (i32.ge_s (local.get 3) (i32.const {len}))\n\
             (then (memory.copy (local.get 2) (i32.const {offset}) (i32.const {len}))))\n\
           (i32.const {len}))"
    )
}

/// A guest whose five entries answer with the given records.
fn canned_module_bytes(
    md: &[u8],
    init_res: &[u8],
    getv_res: &[u8],
    setv_res: &[u8],
    step_res: &[u8],
) -> Vec<u8> {
    let wat_text = format!(
        "(module\n\
           (memory (export \"memory\") 2)\n\
           (global $bump (mut i32) (i32.const 32768))\n\
           (func (export \"alloc\") (param $n i32) (result i32)\n\
             (local $p i32)\n\
             (local.set $p (global.get $bump))\n\
             (global.set $bump (i32.add (i32.add (global.get $bump) (local.get $n)) (i32.const 16)))\n\
             (local.get $p))\n\
           (func (export \"dealloc\") (param i32 i32))\n\
           (func (export \"getModelDescription\") (param $out i32) (param $max i32) (result i32)\n\
             (if (i32.ge_s (local.get $max) (i32.const {md_len}))\n\
               (then (memory.copy (local.get $out) (i32.const 1024) (i32.const {md_len}))))\n\
             (i32.const {md_len}))\n\
           {init_fn}\n\
           {getv_fn}\n\
           {setv_fn}\n\
           {step_fn}\n\
           (data (i32.const 1024) \"{md_esc}\")\n\
           (data (i32.const 8192) \"{init_esc}\")\n\
           (data (i32.const 12288) \"{getv_esc}\")\n\
           (data (i32.const 16384) \"{setv_esc}\")\n\
           (data (i32.const 20480) \"{step_esc}\"))",
        md_len = md.len(),
        init_fn = canned_entry("init", 8192, init_res.len()),
        getv_fn = canned_entry("getValues", 12288, getv_res.len()),
        setv_fn = canned_entry("setValues", 16384, setv_res.len()),
        step_fn = canned_entry("doStep", 20480, step_res.len()),
        md_esc = escape(md),
        init_esc = escape(init_res),
        getv_esc = escape(getv_res),
        setv_esc = escape(setv_res),
        step_esc = escape(step_res),
    );
    wat::parse_str(&wat_text).expect("the module text assembles")
}

/// Replays the scripted sequence against the reference adder and returns
/// the module plus the values the host should see.
fn adder_backed_module(engine: &Engine) -> Module {
    let mut replay = GuestAdder::new();
    let md = replay.model_description_bytes();

    let mut init_req = Vec::new();
    emit_init_req(
        &mut init_req,
        &b"adder".to_vec(),
        0.0f64.to_bits(),
        0,
        false,
        0,
        false,
        LogLevel::Info,
        false,
        &empty_vals(),
    );
    let init_res = replay.init_bytes(&init_req);

    let mut vals = empty_vals();
    vals.real_values = vec![(1, 1.5f64.to_bits()), (2, 2.25f64.to_bits())];
    let mut set_req = Vec::new();
    emit_vv(&mut set_req, &vals);
    let setv_res = replay.set_values_bytes(&set_req);

    let mut step_req = Vec::new();
    emit_do_step_req(&mut step_req, 0.0f64.to_bits(), 0.1f64.to_bits());
    let step_res = replay.do_step_bytes(&step_req, &F64Ops);

    let mut get_req = Vec::new();
    emit_ids(&mut get_req, &vec![3]);
    let getv_res = replay.get_values_bytes(&get_req);

    let bytes = canned_module_bytes(&md, &init_res, &getv_res, &setv_res, &step_res);
    Module::new(&bytes, engine).expect("the canned module loads")
}

#[test]
fn full_sequence_against_sandboxed_guest() {
    let engine = Engine::new().unwrap();
    let module = adder_backed_module(&engine);
    let mut inst = module.instantiate().unwrap();
    assert_eq!(inst.current_state(), InstanceState::Fresh);

    // First fetch talks to the guest; the second is served from the cache
    // without a single further guest allocation.
    let md1 = inst.get_model_description().unwrap();
    assert_eq!(md1.variables.len(), 9);
    let allocs_after_first = inst.allocation_counters();
    assert_eq!(allocs_after_first.0, 0);
    let md2 = inst.get_model_description().unwrap();
    assert_eq!(md1, md2);
    assert_eq!(inst.allocation_counters(), allocs_after_first);
    assert_eq!(inst.current_state(), InstanceState::Described);

    let status = inst
        .initialize(&empty_vals(), 0.0f64.to_bits(), None, None, LogLevel::Info, false)
        .unwrap();
    assert_eq!(status, Status::OK);
    assert_eq!(inst.current_state(), InstanceState::Initialized);

    let mut vals = empty_vals();
    vals.real_values = vec![(1, 1.5f64.to_bits()), (2, 2.25f64.to_bits())];
    assert_eq!(inst.set_values(&vals).unwrap(), Status::OK);

    let step = inst.do_step(0.0f64.to_bits(), 0.1f64.to_bits()).unwrap();
    assert_eq!(step.status, Status::OK);
    assert_eq!(f64::from_bits(step.updated_time), 0.1);

    let resp = inst.get_values(&vec![3]).unwrap();
    assert_eq!(resp.status, Status::OK);
    assert_eq!(f64::from_bits(resp.current_time), 0.1);
    assert_eq!(resp.values.real_values, vec![(3, 3.75f64.to_bits())]);
    assert_eq!(inst.current_state(), InstanceState::Running);

    // Every operation left the allocation balance at zero.
    assert_eq!(inst.allocation_counters().0, 0);
}

#[test]
fn calls_before_initialize_are_rejected() {
    let engine = Engine::new().unwrap();
    let module = adder_backed_module(&engine);
    let mut inst = module.instantiate().unwrap();
    assert_eq!(inst.get_values(&vec![3]), Err(DtasmError::InvalidCallingOrder));
    let vals = empty_vals();
    assert_eq!(inst.set_values(&vals), Err(DtasmError::InvalidCallingOrder));
    assert_eq!(
        inst.do_step(0, 0.1f64.to_bits()),
        Err(DtasmError::InvalidCallingOrder)
    );
    assert_eq!(
        inst.initialize(&vals, 0, None, None, LogLevel::Info, false),
        Err(DtasmError::InvalidCallingOrder)
    );
    // Nothing above reached the guest allocator.
    assert_eq!(inst.allocation_counters().1, 0);
}

#[test]
fn validation_short_circuits_before_any_guest_call() {
    let engine = Engine::new().unwrap();
    let module = adder_backed_module(&engine);
    let mut inst = module.instantiate().unwrap();
    let _ = inst.get_model_description().unwrap();
    inst.initialize(&empty_vals(), 0, None, None, LogLevel::Info, false)
        .unwrap();
    let total_before = inst.allocation_counters().1;

    // Writing an output is rejected with the causality error and issues no
    // guest allocation, valid companions notwithstanding.
    let mut vals = empty_vals();
    vals.real_values = vec![(1, 1.0f64.to_bits()), (3, 1.0f64.to_bits()), (2, 0)];
    assert_eq!(
        inst.set_values(&vals),
        Err(DtasmError::VariableCausalityInvalidForSet(CausalityType::Output, 3))
    );
    assert_eq!(inst.allocation_counters().1, total_before);

    // An unknown id is rejected the same way.
    assert_eq!(inst.get_values(&vec![999]), Err(DtasmError::UnknownVariableId(999)));
    assert_eq!(inst.allocation_counters().1, total_before);
}

#[test]
fn snapshot_round_trips_through_a_fresh_instance() {
    let engine = Engine::new().unwrap();
    let module = adder_backed_module(&engine);
    let inst = module.instantiate().unwrap();
    let snap = inst.save_state();
    assert!(!snap.is_empty());

    let mut other = module.instantiate().unwrap();
    other.load_state(&snap).unwrap();
    let replayed = other.save_state();
    assert!(replayed.len() >= snap.len());
    assert_eq!(&replayed[..snap.len()], &snap[..]);
}

#[test]
fn missing_export_is_reported_at_load() {
    let engine = Engine::new().unwrap();
    let wat_text = "(module (memory (export \"memory\") 1))";
    let bytes = wat::parse_str(wat_text).unwrap();
    match Module::new(&bytes, &engine) {
        Err(DtasmError::MissingExport(name)) => assert_eq!(name, b"alloc".to_vec()),
        Err(other) => panic!("expected a missing export, got {other:?}"),
        Ok(_) => panic!("expected a missing export, got a module"),
    }
}

#[test]
fn unparsable_module_is_reported_at_load() {
    let engine = Engine::new().unwrap();
    let bytes = vec![1u8, 2, 3, 4];
    assert_eq!(
        Module::new(&bytes, &engine).map(|_| ()),
        Err(DtasmError::ModuleLoad)
    );
}

#[test]
fn page_ceiling_is_exact() {
    assert_eq!(pages_for(0), 0);
    assert_eq!(pages_for(1), 1);
    assert_eq!(pages_for(65535), 1);
    assert_eq!(pages_for(65536), 1);
    assert_eq!(pages_for(65537), 2);
    assert_eq!(pages_for(3 * 65536 + 1), 4);
}

#[test]
fn load_state_grows_memory_for_larger_snapshots() {
    let engine = Engine::new().unwrap();
    let module = adder_backed_module(&engine);
    let mut inst = module.instantiate().unwrap();
    let base = inst.save_state().len();
    let snapshot = vec![7u8; base + 65537];
    inst.load_state(&snapshot).unwrap();
    let replayed = inst.save_state();
    assert!(replayed.len() >= snapshot.len());
    assert_eq!(&replayed[..snapshot.len()], &snapshot[..]);
}

#[test]
fn garbage_description_is_a_decode_error() {
    let engine = Engine::new().unwrap();
    let garbage = [0xffu8; 6];
    let one = [0u8];
    let bytes = canned_module_bytes(&garbage, &one, &one, &one, &one);
    let module = Module::new(&bytes, &engine).unwrap();
    let mut inst = module.instantiate().unwrap();
    assert_eq!(inst.get_model_description(), Err(DtasmError::DecodeError));
    // The failed fetch still balanced its allocations.
    assert_eq!(inst.allocation_counters().0, 0);
}
#[test]
fn oversized_response_grows_the_output_buffer() {
    // A response of roughly 2.4 KiB does not fit the base 2 KiB buffer;
    // the host doubles it and retries, and the values arrive intact.
    let engine = Engine::new().unwrap();
    let mut replay = GuestAdder::new();
    let md = replay.model_description_bytes();
    let mut init_req = Vec::new();
    emit_init_req(
        &mut init_req,
        &b"adder".to_vec(),
        0.0f64.to_bits(),
        0,
        false,
        0,
        false,
        LogLevel::Info,
        false,
        &empty_vals(),
    );
    let init_res = replay.init_bytes(&init_req);
    let many_ids: Vec<i32> = std::iter::repeat(3).take(200).collect();
    let mut get_req = Vec::new();
    emit_ids(&mut get_req, &many_ids);
    let getv_res = replay.get_values_bytes(&get_req);
    assert!(getv_res.len() > 2048);
    let one = [0u8];
    let bytes = canned_module_bytes(&md, &init_res, &getv_res, &one, &one);
    let module = Module::new(&bytes, &engine).unwrap();
    let mut inst = module.instantiate().unwrap();
    let _ = inst.get_model_description().unwrap();
    inst.initialize(&empty_vals(), 0, None, None, LogLevel::Info, false)
        .unwrap();
    let resp = inst.get_values(&many_ids).unwrap();
    assert_eq!(resp.values.real_values.len(), 200);
    assert!(resp.values.real_values.iter().all(|&(id, v)| id == 3 && v == 0.0f64.to_bits()));
    assert_eq!(inst.allocation_counters().0, 0);
}
#[test]
fn reactor_initializer_runs_exactly_once() {
    // The guest counts `_initialize` invocations at a fixed memory cell;
    // two initialize calls must leave the count at one.
    let engine = Engine::new().unwrap();
    let mut replay = GuestAdder::new();
    let md = replay.model_description_bytes();
    let mut init_req = Vec::new();
    emit_init_req(
        &mut init_req,
        &b"adder".to_vec(),
        0.0f64.to_bits(),
        0,
        false,
        0,
        false,
        LogLevel::Info,
        false,
        &empty_vals(),
    );
    let init_res = replay.init_bytes(&init_req);
    let one = [0u8];
    let wat_text = format!(
        "(module\n\
           (memory (export \"memory\") 2)\n\
           (global $bump (mut i32) (i32.const 32768))\n\
           (func (export \"_initialize\")\n\
             (i32.store8 (i32.const 512) (i32.add (i32.load8_u (i32.const 512)) (i32.const 1))))\n\
           (func (export \"alloc\") (param $n i32) (result i32)\n\
             (local $p i32)\n\
             (local.set $p (global.get $bump))\n\
             (global.set $bump (i32.add (i32.add (global.get $bump) (local.get $n)) (i32.const 16)))\n\
             (local.get $p))\n\
           (func (export \"dealloc\") (param i32 i32))\n\
           (func (export \"getModelDescription\") (param $out i32) (param $max i32) (result i32)\n\
             (if (i32.ge_s (local.get $max) (i32.const {md_len}))\n\
               (then (memory.copy (local.get $out) (i32.const 1024) (i32.const {md_len}))))\n\
             (i32.const {md_len}))\n\
           {init_fn}\n\
           {getv_fn}\n\
           {setv_fn}\n\
           {step_fn}\n\
           (data (i32.const 1024) \"{md_esc}\")\n\
           (data (i32.const 8192) \"{init_esc}\")\n\
           (data (i32.const 12288) \"{one_esc}\")\n\
           (data (i32.const 16384) \"{one_esc}\")\n\
           (data (i32.const 20480) \"{one_esc}\"))",
        md_len = md.len(),
        init_fn = canned_entry("init", 8192, init_res.len()),
        getv_fn = canned_entry("getValues", 12288, one.len()),
        setv_fn = canned_entry("setValues", 16384, one.len()),
        step_fn = canned_entry("doStep", 20480, one.len()),
        md_esc = escape(&md),
        init_esc = escape(&init_res),
        one_esc = escape(&one),
    );
    let bytes = wat::parse_str(&wat_text).unwrap();
    let module = Module::new(&bytes, &engine).unwrap();
    let mut inst = module.instantiate().unwrap();
    let _ = inst.get_model_description().unwrap();
    assert_eq!(inst.save_state()[512], 0);
    inst.initialize(&empty_vals(), 0, None, None, LogLevel::Info, false)
        .unwrap();
    assert_eq!(inst.save_state()[512], 1);
    inst.initialize(&empty_vals(), 0, None, None, LogLevel::Info, false)
        .unwrap();
    assert_eq!(inst.save_state()[512], 1);
}
#[test]
fn wasi_importing_guest_instantiates() {
    // A guest that imports a system-call symbol links against the minimal
    // surface the instance provides.
    let engine = Engine::new().unwrap();
    let wat_text = "(module\n\
       (import \"wasi_snapshot_preview1\" \"proc_exit\" (func (param i32)))\n\
       (memory (export \"memory\") 1)\n\
       (func (export \"alloc\") (param i32) (result i32) (i32.const 1024))\n\
       (func (export \"dealloc\") (param i32 i32))\n\
       (func (export \"getModelDescription\") (param i32 i32) (result i32) (i32.const 0))\n\
       (func (export \"init\") (param i32 i32 i32 i32) (result i32) (i32.const 0))\n\
       (func (export \"getValues\") (param i32 i32 i32 i32) (result i32) (i32.const 0))\n\
       (func (export \"setValues\") (param i32 i32 i32 i32) (result i32) (i32.const 0))\n\
       (func (export \"doStep\") (param i32 i32 i32 i32) (result i32) (i32.const 0)))";
    let bytes = wat::parse_str(wat_text).unwrap();
    let module = Module::new(&bytes, &engine).unwrap();
    assert!(module.instantiate().is_ok());
}
