//! The instance manager: loads a module, binds the required exports, and
//! drives the allocate / copy-in / call / grow-if-short / copy-out / free
//! protocol around every guest call.
//!
//! The allocation discipline is part of the contract: every operation
//! leaves the number of outstanding guest allocations where it found it,
//! error paths included, and a call rejected by validation issues no
//! allocation at all.

use vstd::prelude::*;
use crate::types::{ModelDescription, VarTypes, VarValues, GetValuesResponse, DoStepResponse,
    DtasmError, Status, LogLevel, InstanceState};
use crate::codec::{emit_init_req, emit_ids, emit_vv, emit_do_step_req, parse_md, parse_status_res,
    parse_do_step_res, parse_get_values_res, wf_vv};
use crate::validate::{collect_var_types, md_index, check_get_ids, check_set_values,
    check_init_values, first_get_err, first_set_err, first_init_err, extract_vals};
use crate::sandbox::{EngineHandle, ModuleHandle, SandboxLink, module_exports, engine_new,
    module_new, module_has_export, link_start, link_bind_memory, link_bind_reactor,
    link_bind_alloc, link_bind_dealloc, link_bind_get_md, link_bind_init, link_bind_get_values,
    link_bind_set_values, link_bind_do_step, alloc_call, dealloc_call, get_md_call, init_call,
    get_values_call, set_values_call, do_step_call, reactor_call, mem_pages, mem_grow, mem_read,
    mem_write, mem_read_all};

verus! {

/// Default size of a growing output buffer, in bytes.
pub const BASE_MEM_SIZE: i32 = 2048;

/// Size of the fixed output buffer for status-sized responses, in bytes.
pub const FIXED_RES_SIZE: i32 = 64;

/// A guest page is 64 KiB.
pub const WASM_PAGE_SIZE: u64 = 65536;

/// Engine for executing modules.
pub struct Engine {
    pub handle: EngineHandle,
}

impl Engine {
    /// A fresh engine; fails only where the sandbox engine itself cannot
    /// be constructed on this host.
    pub fn new() -> (r: Result<Engine, DtasmError>)
        ensures
            r matches Err(e) ==> e == DtasmError::InstantiationError,
    {
        match engine_new() {
            Ok(h) => Ok(Engine { handle: h }),
            Err(e) => Err(e),
        }
    }
}

/// The names of the eight required exports, by position: memory, alloc,
/// dealloc, getModelDescription, init, getValues, setValues, doStep.
pub open spec fn export_name_spec(i: int) -> Seq<u8> {
    if i == 0 {
        seq![109u8, 101u8, 109u8, 111u8, 114u8, 121u8]
    } else if i == 1 {
        seq![97u8, 108u8, 108u8, 111u8, 99u8]
    } else if i == 2 {
        seq![100u8, 101u8, 97u8, 108u8, 108u8, 111u8, 99u8]
    } else if i == 3 {
        seq![
            103u8, 101u8, 116u8, 77u8, 111u8, 100u8, 101u8, 108u8, 68u8, 101u8, 115u8, 99u8,
            114u8, 105u8, 112u8, 116u8, 105u8, 111u8, 110u8,
        ]
    } else if i == 4 {
        seq![105u8, 110u8, 105u8, 116u8]
    } else if i == 5 {
        seq![103u8, 101u8, 116u8, 86u8, 97u8, 108u8, 117u8, 101u8, 115u8]
    } else if i == 6 {
        seq![115u8, 101u8, 116u8, 86u8, 97u8, 108u8, 117u8, 101u8, 115u8]
    } else {
        seq![100u8, 111u8, 83u8, 116u8, 101u8, 112u8]
    }
}

/// The same names as byte vectors, executable twin.
fn export_name_bytes(i: usize) -> (r: Vec<u8>)
    requires
        i < 8,
    ensures
        r@ == export_name_spec(i as int),
{
    let r: Vec<u8> = if i == 0 {
        vec![109u8, 101u8, 109u8, 111u8, 114u8, 121u8]
    } else if i == 1 {
        vec![97u8, 108u8, 108u8, 111u8, 99u8]
    } else if i == 2 {
        vec![100u8, 101u8, 97u8, 108u8, 108u8, 111u8, 99u8]
    } else if i == 3 {
        vec![
            103u8, 101u8, 116u8, 77u8, 111u8, 100u8, 101u8, 108u8, 68u8, 101u8, 115u8, 99u8,
            114u8, 105u8, 112u8, 116u8, 105u8, 111u8, 110u8,
        ]
    } else if i == 4 {
        vec![105u8, 110u8, 105u8, 116u8]
    } else if i == 5 {
        vec![103u8, 101u8, 116u8, 86u8, 97u8, 108u8, 117u8, 101u8, 115u8]
    } else if i == 6 {
        vec![115u8, 101u8, 116u8, 86u8, 97u8, 108u8, 117u8, 101u8, 115u8]
    } else {
        vec![100u8, 111u8, 83u8, 116u8, 101u8, 112u8]
    };
    proof {
        assert(r@ =~= export_name_spec(i as int));
    }
    r
}

/// A compiled module, tied to the engine that compiled it.
pub struct Module {
    pub handle: ModuleHandle,
}

impl Module {
    /// Compiles a module from its bytes and checks that every required
    /// export is present by name, in a fixed order; the first missing one
    /// names the error.
    pub fn new(bytes: &Vec<u8>, engine: &Engine) -> (r: Result<Module, DtasmError>)
        ensures
            r matches Err(e) ==> (e == DtasmError::ModuleLoad || e matches
                DtasmError::MissingExport(_)),
            r matches Ok(m) ==> forall|i: int| 0 <= i < 8 ==> module_exports(
                m.handle,
                #[trigger] export_name_spec(i),
            ),
            r matches Err(DtasmError::MissingExport(n)) ==> exists|i: int| 0 <= i < 8 && n@
                == #[trigger] export_name_spec(i),
    {
        let m = match module_new(&engine.handle, bytes) {
            Ok(m) => m,
            Err(e) => {
                return Err(e);
            },
        };
        let mut i: usize = 0;
        while i < 8
            invariant
                i <= 8,
                forall|j: int| 0 <= j < i ==> module_exports(m, #[trigger] export_name_spec(j)),
            decreases 8 - i,
        {
            let name = export_name_bytes(i);
            if !module_has_export(&m, &name) {
                return Err(DtasmError::MissingExport(name));
            }
            i = i + 1;
        }
        Ok(Module { handle: m })
    }

    /// Creates an instance of the module: its own store and linear memory,
    /// and typed handles to the eight exports, captured once inside the
    /// sandbox link.
    pub fn instantiate(&self) -> (r: Result<Instance, DtasmError>)
        ensures
            r matches Ok(inst) ==> inst.wf() && inst.state == InstanceState::Fresh && inst.md
                is None && inst.var_types.entries@.len() == 0 && inst.counters.live == 0
                && inst.counters.total == 0 && !inst.reactor_called,
            r matches Err(e) ==> (e == DtasmError::InstantiationError || e == DtasmError::LinkError
                || e matches DtasmError::MissingExport(_)),
            r matches Err(DtasmError::MissingExport(n)) ==> exists|i: int| 0 <= i < 8 && n@
                == #[trigger] export_name_spec(i),
    {
        let mut link = match link_start(&self.handle) {
            Ok(l) => l,
            Err(e) => {
                return Err(e);
            },
        };
        if !link_bind_memory(&mut link) {
            return Err(DtasmError::MissingExport(export_name_bytes(0)));
        }
        let has_reactor = link_bind_reactor(&mut link);
        if !link_bind_alloc(&mut link) {
            return Err(DtasmError::MissingExport(export_name_bytes(1)));
        }
        if !link_bind_dealloc(&mut link) {
            return Err(DtasmError::MissingExport(export_name_bytes(2)));
        }
        if !link_bind_get_md(&mut link) {
            return Err(DtasmError::MissingExport(export_name_bytes(3)));
        }
        if !link_bind_init(&mut link) {
            return Err(DtasmError::MissingExport(export_name_bytes(4)));
        }
        if !link_bind_get_values(&mut link) {
            return Err(DtasmError::MissingExport(export_name_bytes(5)));
        }
        if !link_bind_set_values(&mut link) {
            return Err(DtasmError::MissingExport(export_name_bytes(6)));
        }
        if !link_bind_do_step(&mut link) {
            return Err(DtasmError::MissingExport(export_name_bytes(7)));
        }
        Ok(
            Instance {
                link,
                has_reactor,
                counters: AllocCounters { live: 0, total: 0, outstanding: Vec::new() },
                buffer: Vec::new(),
                md: None,
                var_types: VarTypes { entries: Vec::new() },
                state: InstanceState::Fresh,
                reactor_called: false,
            },
        )
    }
}

/// The allocation ledger: which guest allocations are outstanding, as a
/// stack of (pointer, size) pairs, how many are live, and how many were
/// ever issued.
pub struct AllocCounters {
    pub live: u64,
    pub total: u64,
    pub outstanding: Vec<(i32, i32)>,
}

/// The live count mirrors the ledger.
pub open spec fn counters_ok(c: AllocCounters) -> bool {
    c.live == c.outstanding@.len()
}

/// Issues one guest `alloc` call and records the returned pointer with
/// the requested size on the ledger.
fn guest_alloc(link: &mut SandboxLink, c: &mut AllocCounters, size: i32) -> (r: Result<
    i32,
    DtasmError,
>)
    requires
        old(c).live < 16,
        counters_ok(*old(c)),
    ensures
        counters_ok(*final(c)),
        match r {
            Ok(p) => final(c).live == old(c).live + 1 && final(c).outstanding@ == old(
                c,
            ).outstanding@.push((p, size)) && final(c).total == (if old(c).total == u64::MAX {
                u64::MAX
            } else {
                (old(c).total + 1) as u64
            }),
            Err(e) => *final(c) == *old(c) && (e == DtasmError::SandboxTrap || e matches
            DtasmError::DtasmInternalError(_)),
        },
{
    match alloc_call(link, size) {
        Ok(p) => {
            c.live = c.live + 1;
            if c.total < u64::MAX {
                c.total = c.total + 1;
            }
            c.outstanding.push((p, size));
            Ok(p)
        },
        Err(e) => Err(e),
    }
}

/// Issues one guest `dealloc` call.  The precondition is the pairing half
/// of the allocation discipline: the pointer and size handed to the guest
/// are exactly those of the most recent outstanding allocation, so every
/// dealloc matches an alloc pair for pair.  The allocation is counted as
/// released whether or not the guest traps while freeing it.
fn guest_dealloc(link: &mut SandboxLink, c: &mut AllocCounters, ptr: i32, size: i32) -> (r: Result<
    (),
    DtasmError,
>)
    requires
        counters_ok(*old(c)),
        old(c).outstanding@.len() >= 1,
        old(c).outstanding@.last() == (ptr, size),
    ensures
        counters_ok(*final(c)),
        final(c).live == old(c).live - 1,
        final(c).outstanding@ == old(c).outstanding@.drop_last(),
        final(c).total == old(c).total,
        r matches Err(e) ==> (e == DtasmError::SandboxTrap || e matches
            DtasmError::DtasmInternalError(_)),
{
    let res = dealloc_call(link, ptr, size);
    c.live = c.live - 1;
    let _released = c.outstanding.pop();
    res
}

/// Copies bytes into guest memory at the given pointer.
fn guest_write(link: &mut SandboxLink, ptr: i32, bytes: &Vec<u8>) -> (r: Result<(), DtasmError>)
    ensures
        r matches Err(e) ==> e matches DtasmError::DtasmInternalError(_),
{
    if ptr < 0 {
        return Err(DtasmError::DtasmInternalError(0));
    }
    let start = ptr as usize;
    if bytes.len() > usize::MAX - start {
        return Err(DtasmError::DtasmInternalError(0));
    }
    let end = start + bytes.len();
    if mem_write(link, start, end, bytes) {
        Ok(())
    } else {
        Err(DtasmError::DtasmInternalError(0))
    }
}

/// Copies bytes out of guest memory at the given pointer.
fn guest_read(link: &SandboxLink, ptr: i32, len: i32) -> (r: Result<Vec<u8>, DtasmError>)
    ensures
        match r {
            Ok(v) => v@.len() == len,
            Err(e) => e matches DtasmError::DtasmInternalError(_),
        },
{
    if ptr < 0 || len < 0 {
        return Err(DtasmError::DtasmInternalError(0));
    }
    let start = ptr as usize;
    let len_u = len as usize;
    if len_u > usize::MAX - start {
        return Err(DtasmError::DtasmInternalError(0));
    }
    match mem_read(link, start, start + len_u) {
        Some(v) => Ok(v),
        None => Err(DtasmError::DtasmInternalError(0)),
    }
}

/// A buffer size reachable from the base size by doubling.
pub open spec fn doubled_from_base(s: int) -> bool
    decreases s,
{
    if s == BASE_MEM_SIZE {
        true
    } else if s > BASE_MEM_SIZE {
        s % 2 == 0 && doubled_from_base(s / 2)
    } else {
        false
    }
}

/// Fetches the model description bytes: allocate, invoke, and double the
/// output buffer until the guest's answer fits.
fn fetch_md_bytes(link: &mut SandboxLink, c: &mut AllocCounters) -> (r: Result<Vec<u8>, DtasmError>)
    requires
        old(c).live == 0,
        counters_ok(*old(c)),
    ensures
        final(c).live == 0,
        counters_ok(*final(c)),
        r matches Err(e) ==> (e == DtasmError::SandboxTrap || e matches
            DtasmError::DtasmInternalError(_)),
{
    let mut size: i32 = BASE_MEM_SIZE;
    let mut ptr = match guest_alloc(link, c, size) {
        Ok(p) => p,
        Err(e) => {
            return Err(e);
        },
    };
    let mut out_len = match get_md_call(link, ptr, size) {
        Ok(n) => n,
        Err(e) => {
            let _unused = guest_dealloc(link, c, ptr, size);
            return Err(e);
        },
    };
    while out_len > size
        invariant
            c.live == 1,
            counters_ok(*c),
            c.outstanding@.last() == (ptr, size),
            BASE_MEM_SIZE <= size <= 0x4000_0000,
            doubled_from_base(size as int),
        decreases 0x4000_0000 - size,
    {
        match guest_dealloc(link, c, ptr, size) {
            Ok(u) => {},
            Err(e) => {
                return Err(e);
            },
        }
        if size >= 0x2000_0000 {
            return Err(DtasmError::DtasmInternalError(out_len as u32));
        }
        size = size * 2;
        ptr = match guest_alloc(link, c, size) {
            Ok(p) => p,
            Err(e) => {
                return Err(e);
            },
        };
        out_len = match get_md_call(link, ptr, size) {
            Ok(n) => n,
            Err(e) => {
                let _unused = guest_dealloc(link, c, ptr, size);
                return Err(e);
            },
        };
    }
    let bytes = match guest_read(link, ptr, out_len) {
        Ok(v) => v,
        Err(e) => {
            let _unused = guest_dealloc(link, c, ptr, size);
            return Err(e);
        },
    };
    match guest_dealloc(link, c, ptr, size) {
        Ok(u) => Ok(bytes),
        Err(e) => Err(e),
    }
}

/// Invokes `getValues` with a growing output buffer.  The final buffer
/// size is reachable from the base size by doubling, and the response
/// fits into it.
fn call_get_values_raw(link: &mut SandboxLink, c: &mut AllocCounters, req_ptr: i32, req_len: i32) -> (r:
    Result<(Vec<u8>, i32), DtasmError>)
    requires
        old(c).live == 1,
        counters_ok(*old(c)),
    ensures
        final(c).live == 1,
        counters_ok(*final(c)),
        final(c).outstanding@ == old(c).outstanding@,
        match r {
            Ok(t) => doubled_from_base(t.1 as int) && t.0@.len() <= t.1,
            Err(e) => e == DtasmError::SandboxTrap || e matches DtasmError::DtasmInternalError(_),
        },
{
    let mut size: i32 = BASE_MEM_SIZE;
    let mut ptr = match guest_alloc(link, c, size) {
        Ok(p) => p,
        Err(e) => {
            return Err(e);
        },
    };
    let mut out_len = match get_values_call(link, req_ptr, req_len, ptr, size) {
        Ok(n) => n,
        Err(e) => {
            let _unused = guest_dealloc(link, c, ptr, size);
            return Err(e);
        },
    };
    while out_len > size
        invariant
            c.live == 2,
            counters_ok(*c),
            c.outstanding@ == old(c).outstanding@.push((ptr, size)),
            BASE_MEM_SIZE <= size <= 0x4000_0000,
            doubled_from_base(size as int),
        decreases 0x4000_0000 - size,
    {
        match guest_dealloc(link, c, ptr, size) {
            Ok(u) => {},
            Err(e) => {
                return Err(e);
            },
        }
        if size >= 0x2000_0000 {
            return Err(DtasmError::DtasmInternalError(out_len as u32));
        }
        size = size * 2;
        ptr = match guest_alloc(link, c, size) {
            Ok(p) => p,
            Err(e) => {
                return Err(e);
            },
        };
        out_len = match get_values_call(link, req_ptr, req_len, ptr, size) {
            Ok(n) => n,
            Err(e) => {
                let _unused = guest_dealloc(link, c, ptr, size);
                return Err(e);
            },
        };
    }
    let bytes = match guest_read(link, ptr, out_len) {
        Ok(v) => v,
        Err(e) => {
            let _unused = guest_dealloc(link, c, ptr, size);
            return Err(e);
        },
    };
    match guest_dealloc(link, c, ptr, size) {
        Ok(u) => Ok((bytes, size)),
        Err(e) => Err(e),
    }
}

/// Which of the fixed-response entry points to invoke.
enum FixedCall {
    InitCall,
    SetCall,
    StepCall,
}

/// Invokes an entry point whose response is contractually status-sized:
/// a fixed 64-byte buffer, and a longer answer is an internal error.
fn call_fixed(
    link: &mut SandboxLink,
    c: &mut AllocCounters,
    which: FixedCall,
    req_ptr: i32,
    req_len: i32,
) -> (r: Result<Vec<u8>, DtasmError>)
    requires
        old(c).live == 1,
        counters_ok(*old(c)),
    ensures
        final(c).live == 1,
        counters_ok(*final(c)),
        final(c).outstanding@ == old(c).outstanding@,
        match r {
            Ok(b) => b@.len() <= FIXED_RES_SIZE,
            Err(e) => e == DtasmError::SandboxTrap || e matches DtasmError::DtasmInternalError(_),
        },
{
    let size: i32 = FIXED_RES_SIZE;
    let ptr = match guest_alloc(link, c, size) {
        Ok(p) => p,
        Err(e) => {
            return Err(e);
        },
    };
    let called = match which {
        FixedCall::InitCall => init_call(link, req_ptr, req_len, ptr, size),
        FixedCall::SetCall => set_values_call(link, req_ptr, req_len, ptr, size),
        FixedCall::StepCall => do_step_call(link, req_ptr, req_len, ptr, size),
    };
    let out_len = match called {
        Ok(n) => n,
        Err(e) => {
            let _unused = guest_dealloc(link, c, ptr, size);
            return Err(e);
        },
    };
    if out_len > size {
        let _unused = guest_dealloc(link, c, ptr, size);
        return Err(DtasmError::DtasmInternalError(out_len as u32));
    }
    let bytes = match guest_read(link, ptr, out_len) {
        Ok(v) => v,
        Err(e) => {
            let _unused = guest_dealloc(link, c, ptr, size);
            return Err(e);
        },
    };
    match guest_dealloc(link, c, ptr, size) {
        Ok(u) => Ok(bytes),
        Err(e) => Err(e),
    }
}

/// Sends one encoded request: allocate a guest buffer of the request's
/// length, copy the bytes in, and hand back the pointer.
fn send_request(link: &mut SandboxLink, c: &mut AllocCounters, req: &Vec<u8>) -> (r: Result<
    i32,
    DtasmError,
>)
    requires
        old(c).live == 0,
        counters_ok(*old(c)),
        req@.len() <= 0x7fff_ffff,
    ensures
        counters_ok(*final(c)),
        match r {
            Ok(p) => final(c).live == 1 && final(c).outstanding@ == old(c).outstanding@.push(
                (p, req@.len() as i32),
            ),
            Err(e) => final(c).live == 0 && (e == DtasmError::SandboxTrap || e matches
                DtasmError::DtasmInternalError(_)),
        },
{
    let req_len = req.len() as i32;
    let ptr = match guest_alloc(link, c, req_len) {
        Ok(p) => p,
        Err(e) => {
            return Err(e);
        },
    };
    match guest_write(link, ptr, req) {
        Ok(u) => Ok(ptr),
        Err(e) => {
            let _unused = guest_dealloc(link, c, ptr, req_len);
            Err(e)
        },
    }
}

/// Pages needed to hold `len` bytes: the ceiling of len / 64 KiB.
pub fn pages_for(len: u64) -> (r: u64)
    ensures
        r == (len + WASM_PAGE_SIZE - 1) as int / WASM_PAGE_SIZE as int,
{
    let whole = len / WASM_PAGE_SIZE;
    let rem = len % WASM_PAGE_SIZE;
    if rem == 0 {
        proof {
            assert(whole == (len + WASM_PAGE_SIZE - 1) as int / WASM_PAGE_SIZE as int) by (
            nonlinear_arith)
                requires
                    whole == len as int / WASM_PAGE_SIZE as int,
                    len as int % WASM_PAGE_SIZE as int == 0,
                    WASM_PAGE_SIZE == 65536,
                    len <= u64::MAX,
            ;
        }
        whole
    } else {
        proof {
            assert(whole + 1 == (len + WASM_PAGE_SIZE - 1) as int / WASM_PAGE_SIZE as int) by (
            nonlinear_arith)
                requires
                    whole == len as int / WASM_PAGE_SIZE as int,
                    rem == len as int % WASM_PAGE_SIZE as int,
                    rem != 0,
                    WASM_PAGE_SIZE == 65536,
                    len <= u64::MAX,
            ;
        }
        whole + 1
    }
}

/// A live, stateful guest: its sandbox link, its caches, and its place in
/// the lifecycle.
pub struct Instance {
    pub link: SandboxLink,
    pub has_reactor: bool,
    pub counters: AllocCounters,
    pub buffer: Vec<u8>,
    pub md: Option<ModelDescription>,
    pub var_types: VarTypes,
    pub state: InstanceState,
    pub reactor_called: bool,
}

impl Instance {
    /// The instance invariant: no outstanding guest allocation between
    /// operations, an empty encoder buffer, and a cache consistent with
    /// the lifecycle state and the variable index.
    pub open spec fn wf(&self) -> bool {
        &&& self.counters.live == 0
        &&& counters_ok(self.counters)
        &&& self.buffer@.len() == 0
        &&& (self.md is Some <==> self.state != InstanceState::Fresh)
        &&& match self.md {
            Some(m) => self.var_types.map_view() == md_index(m@.variables) && m@.id.len()
                <= u32::MAX,
            None => true,
        }
    }

    /// Where the instance stands in its lifecycle.
    pub fn current_state(&self) -> (r: InstanceState)
        ensures
            r == self.state,
    {
        self.state
    }

    /// The allocation counters: outstanding and ever issued.
    pub fn allocation_counters(&self) -> (r: (u64, u64))
        ensures
            r.0 == self.counters.live,
            r.1 == self.counters.total,
    {
        (self.counters.live, self.counters.total)
    }

    /// Retrieves the model description: a guest call on the first
    /// invocation, the cache on every later one.
    pub fn get_model_description(&mut self) -> (r: Result<ModelDescription, DtasmError>)
        requires
            old(self).wf(),
        ensures
            final(self).wf(),
            final(self).counters.live == old(self).counters.live,
            old(self).md is Some ==> *final(self) == *old(self) && (r matches Ok(m) && Some(m@)
                == match old(self).md {
                Some(c) => Some(c@),
                None => None,
            }),
            r matches Ok(m) ==> (final(self).md matches Some(c) && c@ == m@)
                && final(self).var_types.map_view() == md_index(m@.variables) && final(self).state
                != InstanceState::Fresh,
            r is Err ==> final(self).md == old(self).md && final(self).state == old(self).state
                && final(self).var_types == old(self).var_types,
            r matches Err(e) ==> (e == DtasmError::SandboxTrap || e == DtasmError::DecodeError || e
                matches DtasmError::DtasmInternalError(_)),
    {
        match &self.md {
            Some(m) => {
                return Ok(m.clone());
            },
            None => {},
        }
        let bytes = match fetch_md_bytes(&mut self.link, &mut self.counters) {
            Ok(b) => b,
            Err(e) => {
                return Err(e);
            },
        };
        match parse_md(bytes.as_slice(), 0) {
            None => Err(DtasmError::DecodeError),
            Some((md, p)) => {
                if p != bytes.len() {
                    return Err(DtasmError::DecodeError);
                }
                proof {
                    assert(bytes@.skip(0) =~= bytes@);
                    assert(md@.id.len() <= u32::MAX);
                }
                self.var_types = collect_var_types(&md);
                let ret = md.clone();
                self.md = Some(md);
                self.state = InstanceState::Described;
                Ok(ret)
            },
        }
    }

    /// Initializes the instance: the one-shot reactor initializer first if
    /// the guest exports one, then validation of every initial value
    /// against the index, then the `init` call with a status-sized
    /// response.
    pub fn initialize(
        &mut self,
        initial_vals: &VarValues,
        tmin: u64,
        tmax: Option<u64>,
        tol: Option<u64>,
        log_level: LogLevel,
        check: bool,
    ) -> (r: Result<Status, DtasmError>)
        requires
            old(self).wf(),
            wf_vv(initial_vals@),
        ensures
            final(self).wf(),
            final(self).counters.live == old(self).counters.live,
            final(self).md == old(self).md,
            old(self).state == InstanceState::Fresh ==> r == Err::<Status, DtasmError>(
                DtasmError::InvalidCallingOrder,
            ) && *final(self) == *old(self),
            old(self).reactor_called ==> final(self).reactor_called,
            old(self).state != InstanceState::Fresh ==> final(self).reactor_called,
            old(self).state == InstanceState::Fresh ==> final(self).reactor_called == old(
                self,
            ).reactor_called,
            old(self).state != InstanceState::Fresh ==> match first_init_err(
                initial_vals@,
                old(self).var_types.map_view(),
            ) {
                Some(e) => (r == Err::<Status, DtasmError>(e) && final(self).counters.total
                    == old(self).counters.total) || (r == Err::<Status, DtasmError>(
                    DtasmError::SandboxTrap,
                ) && !old(self).reactor_called && old(self).has_reactor),
                None => r is Ok || r == Err::<Status, DtasmError>(DtasmError::SandboxTrap) || r
                    == Err::<Status, DtasmError>(DtasmError::DecodeError) || r matches Err(
                    DtasmError::DtasmInternalError(_),
                ),
            },
            r is Ok ==> first_init_err(initial_vals@, old(self).var_types.map_view()) is None
                && final(self).state == InstanceState::Initialized,
            r is Err ==> final(self).state == old(self).state,
    {
        let model_id = match &self.md {
            Some(m) => clone_id(m),
            None => {
                return Err(DtasmError::InvalidCallingOrder);
            },
        };
        // Invoke the one-shot reactor initializer before anything else;
        // the invocation counts even where it traps, so it is never
        // retried.
        if !self.reactor_called {
            self.reactor_called = true;
            if self.has_reactor {
                match reactor_call(&mut self.link) {
                    Ok(u) => {},
                    Err(e) => {
                        return Err(e);
                    },
                }
            }
        }
        if let Err(e) = check_init_values(initial_vals, &self.var_types) {
            return Err(e);
        }
        let tmax_val = match tmax {
            Some(v) => v,
            None => 0,
        };
        let tmax_set = matches!(tmax, Some(_));
        let tol_val = match tol {
            Some(v) => v,
            None => 0,
        };
        let tol_set = matches!(tol, Some(_));
        emit_init_req(
            &mut self.buffer,
            &model_id,
            tmin,
            tmax_val,
            tmax_set,
            tol_val,
            tol_set,
            log_level,
            check,
            initial_vals,
        );
        if self.buffer.len() > 0x7fff_ffff {
            self.buffer.clear();
            return Err(DtasmError::DtasmInternalError(0));
        }
        let req_len = self.buffer.len() as i32;
        let sent = send_request(&mut self.link, &mut self.counters, &self.buffer);
        // The request bytes now live in guest memory; the encoder buffer
        // is reset before anything else can fail.
        self.buffer.clear();
        let req_ptr = match sent {
            Ok(p) => p,
            Err(e) => {
                return Err(e);
            },
        };
        let res = call_fixed(&mut self.link, &mut self.counters, FixedCall::InitCall, req_ptr, req_len);
        let bytes = match res {
            Ok(b) => b,
            Err(e) => {
                let _unused = guest_dealloc(&mut self.link, &mut self.counters, req_ptr, req_len);
                return Err(e);
            },
        };
        let freed = guest_dealloc(&mut self.link, &mut self.counters, req_ptr, req_len);
        if let Err(e) = freed {
            return Err(e);
        }
        match parse_status_res(bytes.as_slice(), 0) {
            None => Err(DtasmError::DecodeError),
            Some((status, p)) => {
                if p != bytes.len() {
                    return Err(DtasmError::DecodeError);
                }
                self.state = InstanceState::Initialized;
                Ok(status)
            },
        }
    }

    /// Retrieves values of output and state variables: ids validated
    /// before any guest call, the growing-buffer protocol around the call,
    /// and every returned id re-validated against the index.
    pub fn get_values(&mut self, var_ids: &Vec<i32>) -> (r: Result<GetValuesResponse, DtasmError>)
        requires
            old(self).wf(),
            var_ids@.len() <= u32::MAX,
        ensures
            final(self).wf(),
            final(self).counters.live == old(self).counters.live,
            final(self).md == old(self).md,
            (old(self).state == InstanceState::Fresh || old(self).state
                == InstanceState::Described) ==> r == Err::<GetValuesResponse, DtasmError>(
                DtasmError::InvalidCallingOrder,
            ) && *final(self) == *old(self),
            (old(self).state == InstanceState::Initialized || old(self).state
                == InstanceState::Running) ==> match first_get_err(
                var_ids@,
                old(self).var_types.map_view(),
            ) {
                Some(e) => r == Err::<GetValuesResponse, DtasmError>(e) && *final(self) == *old(self),
                // On a clean request the errors left are the sandbox's, the
                // codec's, or response re-validation; never a request
                // validation error.
                None => r is Ok || r == Err::<GetValuesResponse, DtasmError>(
                    DtasmError::SandboxTrap,
                ) || r == Err::<GetValuesResponse, DtasmError>(DtasmError::DecodeError) || r
                    matches Err(DtasmError::DtasmInternalError(_)) || r matches Err(
                    DtasmError::UnknownVariableId(_),
                ) || r matches Err(DtasmError::VariableTypeMismatch(_, _)) || r matches Err(
                    DtasmError::InvalidVariableValue(_),
                ),
            },
            r is Ok ==> first_get_err(var_ids@, old(self).var_types.map_view()) is None && final(self).state == InstanceState::Running,
            r matches Ok(resp) ==> exists|w: crate::types::WireVarValuesV|
                #[trigger] crate::validate::first_extract_err(w, old(self).var_types.map_view())
                    is None && resp.values@.reals == w.reals && resp.values@.ints == w.ints
                    && resp.values@.bools == w.bools && resp.values@.strings
                    == crate::validate::unwrapped_strings(w.strings),
            r is Err ==> final(self).state == old(self).state,
    {
        if matches!(self.state, InstanceState::Fresh) || matches!(
            self.state,
            InstanceState::Described,
        ) {
            return Err(DtasmError::InvalidCallingOrder);
        }
        if let Err(e) = check_get_ids(var_ids, &self.var_types) {
            return Err(e);
        }
        emit_ids(&mut self.buffer, var_ids);
        if self.buffer.len() > 0x7fff_ffff {
            self.buffer.clear();
            return Err(DtasmError::DtasmInternalError(0));
        }
        let req_len = self.buffer.len() as i32;
        let sent = send_request(&mut self.link, &mut self.counters, &self.buffer);
        // The request bytes now live in guest memory; the encoder buffer
        // is reset before anything else can fail.
        self.buffer.clear();
        let req_ptr = match sent {
            Ok(p) => p,
            Err(e) => {
                return Err(e);
            },
        };
        let res = call_get_values_raw(&mut self.link, &mut self.counters, req_ptr, req_len);
        let bytes_size = match res {
            Ok(t) => t,
            Err(e) => {
                let _unused = guest_dealloc(&mut self.link, &mut self.counters, req_ptr, req_len);
                return Err(e);
            },
        };
        let freed = guest_dealloc(&mut self.link, &mut self.counters, req_ptr, req_len);
        if let Err(e) = freed {
            return Err(e);
        }
        let bytes = bytes_size.0;
        match parse_get_values_res(bytes.as_slice(), 0) {
            None => Err(DtasmError::DecodeError),
            Some((trip, p)) => {
                if p != bytes.len() {
                    return Err(DtasmError::DecodeError);
                }
                let status = trip.0;
                let current_time = trip.1;
                let wire = trip.2;
                match extract_vals(&wire, &self.var_types) {
                    Err(e) => {
                        proof {
                            crate::validate::lemma_extract_err_shape(
                                wire@,
                                self.var_types.map_view(),
                            );
                        }
                        Err(e)
                    },
                    Ok(values) => {
                        self.state = InstanceState::Running;
                        proof {
                            assert(crate::validate::first_extract_err(
                                wire@,
                                self.var_types.map_view(),
                            ) is None);
                        }
                        Ok(GetValuesResponse { status, current_time, values })
                    },
                }
            },
        }
    }

    /// Sets values of input variables for the next step: every id must be
    /// a known input of matching type, and a call rejected by validation
    /// issues no guest allocation.
    pub fn set_values(&mut self, input_vals: &VarValues) -> (r: Result<Status, DtasmError>)
        requires
            old(self).wf(),
            wf_vv(input_vals@),
        ensures
            final(self).wf(),
            final(self).counters.live == old(self).counters.live,
            final(self).md == old(self).md,
            (old(self).state == InstanceState::Fresh || old(self).state
                == InstanceState::Described) ==> r == Err::<Status, DtasmError>(
                DtasmError::InvalidCallingOrder,
            ) && *final(self) == *old(self),
            (old(self).state == InstanceState::Initialized || old(self).state
                == InstanceState::Running) ==> match first_set_err(
                input_vals@,
                old(self).var_types.map_view(),
            ) {
                Some(e) => r == Err::<Status, DtasmError>(e) && *final(self) == *old(self),
                // On clean inputs the errors left are the sandbox's or the
                // codec's; never a validation error.
                None => r is Ok || r == Err::<Status, DtasmError>(DtasmError::SandboxTrap) || r
                    == Err::<Status, DtasmError>(DtasmError::DecodeError) || r matches Err(
                    DtasmError::DtasmInternalError(_),
                ),
            },
            r is Ok ==> first_set_err(input_vals@, old(self).var_types.map_view()) is None && final(self).state == InstanceState::Running,
            r is Err ==> final(self).state == old(self).state,
    {
        if matches!(self.state, InstanceState::Fresh) || matches!(
            self.state,
            InstanceState::Described,
        ) {
            return Err(DtasmError::InvalidCallingOrder);
        }
        if let Err(e) = check_set_values(input_vals, &self.var_types) {
            return Err(e);
        }
        emit_vv(&mut self.buffer, input_vals);
        if self.buffer.len() > 0x7fff_ffff {
            self.buffer.clear();
            return Err(DtasmError::DtasmInternalError(0));
        }
        let req_len = self.buffer.len() as i32;
        let sent = send_request(&mut self.link, &mut self.counters, &self.buffer);
        // The request bytes now live in guest memory; the encoder buffer
        // is reset before anything else can fail.
        self.buffer.clear();
        let req_ptr = match sent {
            Ok(p) => p,
            Err(e) => {
                return Err(e);
            },
        };
        let res = call_fixed(&mut self.link, &mut self.counters, FixedCall::SetCall, req_ptr, req_len);
        let bytes = match res {
            Ok(b) => b,
            Err(e) => {
                let _unused = guest_dealloc(&mut self.link, &mut self.counters, req_ptr, req_len);
                return Err(e);
            },
        };
        let freed = guest_dealloc(&mut self.link, &mut self.counters, req_ptr, req_len);
        if let Err(e) = freed {
            return Err(e);
        }
        match parse_status_res(bytes.as_slice(), 0) {
            None => Err(DtasmError::DecodeError),
            Some((status, p)) => {
                if p != bytes.len() {
                    return Err(DtasmError::DecodeError);
                }
                self.state = InstanceState::Running;
                Ok(status)
            },
        }
    }

    /// Simulates one step: the two clock scalars go in, the guest's
    /// status and updated clock come back verbatim.
    pub fn do_step(&mut self, current_time: u64, timestep: u64) -> (r: Result<
        DoStepResponse,
        DtasmError,
    >)
        requires
            old(self).wf(),
        ensures
            final(self).wf(),
            final(self).counters.live == old(self).counters.live,
            final(self).md == old(self).md,
            (old(self).state == InstanceState::Fresh || old(self).state
                == InstanceState::Described) ==> r == Err::<DoStepResponse, DtasmError>(
                DtasmError::InvalidCallingOrder,
            ) && *final(self) == *old(self),
            // In a stepping state the errors left are the sandbox's or the
            // codec's.
            (old(self).state == InstanceState::Initialized || old(self).state
                == InstanceState::Running) ==> (r is Ok || r == Err::<DoStepResponse, DtasmError>(
                DtasmError::SandboxTrap,
            ) || r == Err::<DoStepResponse, DtasmError>(DtasmError::DecodeError) || r matches Err(
                DtasmError::DtasmInternalError(_),
            )),
            r is Ok ==> final(self).state == InstanceState::Running,
            r is Err ==> final(self).state == old(self).state,
    {
        if matches!(self.state, InstanceState::Fresh) || matches!(
            self.state,
            InstanceState::Described,
        ) {
            return Err(DtasmError::InvalidCallingOrder);
        }
        emit_do_step_req(&mut self.buffer, current_time, timestep);
        if self.buffer.len() > 0x7fff_ffff {
            self.buffer.clear();
            return Err(DtasmError::DtasmInternalError(0));
        }
        let req_len = self.buffer.len() as i32;
        let sent = send_request(&mut self.link, &mut self.counters, &self.buffer);
        // The request bytes now live in guest memory; the encoder buffer
        // is reset before anything else can fail.
        self.buffer.clear();
        let req_ptr = match sent {
            Ok(p) => p,
            Err(e) => {
                return Err(e);
            },
        };
        let res = call_fixed(&mut self.link, &mut self.counters, FixedCall::StepCall, req_ptr, req_len);
        let bytes = match res {
            Ok(b) => b,
            Err(e) => {
                let _unused = guest_dealloc(&mut self.link, &mut self.counters, req_ptr, req_len);
                return Err(e);
            },
        };
        let freed = guest_dealloc(&mut self.link, &mut self.counters, req_ptr, req_len);
        if let Err(e) = freed {
            return Err(e);
        }
        match parse_do_step_res(bytes.as_slice(), 0) {
            None => Err(DtasmError::DecodeError),
            Some((pair, p)) => {
                if p != bytes.len() {
                    return Err(DtasmError::DecodeError);
                }
                self.state = InstanceState::Running;
                Ok(DoStepResponse { status: pair.0, updated_time: pair.1 })
            },
        }
    }

    /// Loads a raw memory snapshot into the instance: grows the guest's
    /// linear memory to the ceiling of the snapshot's page count where it
    /// is short, then copies the bytes in at offset zero.  The cached
    /// description and the index are deliberately untouched.
    pub fn load_state(&mut self, snapshot: &Vec<u8>) -> (r: Result<(), DtasmError>)
        requires
            old(self).wf(),
        ensures
            final(self).wf(),
            final(self).counters == old(self).counters,
            final(self).md == old(self).md,
            final(self).state == old(self).state,
            final(self).var_types == old(self).var_types,
            r matches Err(e) ==> e == DtasmError::SandboxGrowthError,
    {
        let needed = pages_for(snapshot.len() as u64);
        let current = mem_pages(&self.link);
        if needed > current {
            match mem_grow(&mut self.link, needed - current) {
                Ok(old_pages) => {},
                Err(e) => {
                    return Err(e);
                },
            }
        }
        if mem_write(&mut self.link, 0, snapshot.len(), snapshot) {
            Ok(())
        } else {
            Err(DtasmError::SandboxGrowthError)
        }
    }

    /// Serializes the instance's current linear memory, byte for byte.
    pub fn save_state(&self) -> Vec<u8> {
        mem_read_all(&self.link)
    }
}

/// Clones the model id out of the cached description.
fn clone_id(m: &ModelDescription) -> (r: Vec<u8>)
    ensures
        r@ == m@.id,
{
    crate::types::clone_bytes(&m.id)
}

} // verus!
