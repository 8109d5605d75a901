//! The guest side of the wire: byte-level entry points around the adder.
//!
//! Each shim decodes one request record, drives the adder, and encodes the
//! response record, mirroring the host's codec exactly.  A request that
//! does not decode, or that names an unknown variable, is answered with an
//! error-status response rather than a trap.

use vstd::prelude::*;
use crate::types::{VarValues, VarValuesV, WireVarValues, Status};
use crate::adder::{AddMod, RealOps, GuestError, adder_model_description, var_map_spec,
    adder_get_err, reals_answer, ints_answer, bools_answer, all_ids_known, last_real_for,
    last_int_for, last_bool_for, AddVar};
use crate::codec::{senc_md, senc_status_res, senc_get_values_res, senc_do_step_res, sdec_ids,
    sdec_wvv, sdec_init_req, sdec_do_step_req, emit_md, emit_status_res, emit_get_values_res,
    emit_do_step_res, parse_ids, parse_wvv, parse_init_req, parse_do_step_req, wf_md};

verus! {

/// An empty value map, as a mathematical value.
pub open spec fn empty_vv() -> VarValuesV {
    VarValuesV { reals: Seq::empty(), ints: Seq::empty(), bools: Seq::empty(), strings: Seq::empty() }
}

/// The guest's terminal status: any fault that would abort the reference
/// guest surfaces as a fatal status word.
pub fn panic_handler(_cause: &GuestError) -> (r: Status)
    ensures
        r == Status::Fatal,
{
    Status::Fatal
}

/// Converts a decoded wire value map into the adder's typed map; string
/// entries are dropped, as the adder declares no string variable.
pub fn wire_to_vals(w: &WireVarValues) -> (r: VarValues)
    ensures
        r@.reals == w@.reals,
        r@.ints == w@.ints,
        r@.bools == w@.bools,
        r@.strings.len() == 0,
{
    let mut reals: Vec<(i32, u64)> = Vec::new();
    let mut i: usize = 0;
    while i < w.real_values.len()
        invariant
            i <= w@.reals.len(),
            reals@ == w@.reals.subrange(0, i as int),
        decreases w@.reals.len() - i,
    {
        reals.push(w.real_values[i]);
        proof {
            assert(reals@ =~= w@.reals.subrange(0, i + 1 as int));
        }
        i = i + 1;
    }
    let mut ints: Vec<(i32, i32)> = Vec::new();
    let mut i: usize = 0;
    while i < w.int_values.len()
        invariant
            i <= w@.ints.len(),
            ints@ == w@.ints.subrange(0, i as int),
        decreases w@.ints.len() - i,
    {
        ints.push(w.int_values[i]);
        proof {
            assert(ints@ =~= w@.ints.subrange(0, i + 1 as int));
        }
        i = i + 1;
    }
    let mut bools: Vec<(i32, bool)> = Vec::new();
    let mut i: usize = 0;
    while i < w.bool_values.len()
        invariant
            i <= w@.bools.len(),
            bools@ == w@.bools.subrange(0, i as int),
        decreases w@.bools.len() - i,
    {
        bools.push(w.bool_values[i]);
        proof {
            assert(bools@ =~= w@.bools.subrange(0, i + 1 as int));
        }
        i = i + 1;
    }
    let r = VarValues {
        real_values: reals,
        int_values: ints,
        bool_values: bools,
        string_values: Vec::new(),
    };
    proof {
        assert(r@.reals =~= w@.reals);
        assert(r@.ints =~= w@.ints);
        assert(r@.bools =~= w@.bools);
    }
    r
}

/// The in-process reference guest.
pub struct GuestAdder {
    pub module: AddMod,
}

impl GuestAdder {
    /// A fresh guest around a fresh adder.
    pub fn new() -> (r: GuestAdder)
        ensures
            !r.module.initialized,
    {
        GuestAdder { module: AddMod::new() }
    }

    /// The `getModelDescription` entry: the encoded description of the
    /// adder's nine variables.
    pub fn model_description_bytes(&self) -> (r: Vec<u8>)
        ensures
            exists|m: crate::types::ModelDescriptionV|
                r@ == #[trigger] senc_md(m) && m.variables.len() == 9 && var_map_spec(m.variables)
                    == seq![
                    (1i32, AddVar::RI1),
                    (2i32, AddVar::RI2),
                    (3i32, AddVar::RO),
                    (4i32, AddVar::II1),
                    (5i32, AddVar::II2),
                    (6i32, AddVar::IO),
                    (7i32, AddVar::BI1),
                    (8i32, AddVar::BI2),
                    (9i32, AddVar::BO),
                ] && wf_md(m),
    {
        let md = adder_model_description();
        let mut out: Vec<u8> = Vec::new();
        emit_md(&mut out, &md);
        proof {
            assert(out@ == senc_md(md@));
        }
        out
    }

    /// The `init` entry: decode the request, bind the adder to the
    /// description it advertises, answer with a status record.
    pub fn init_bytes(&mut self, req: &[u8]) -> (r: Vec<u8>)
        ensures
            match sdec_init_req(req@) {
                Some(t) => if t.1.len() == 0 {
                    r@ == senc_status_res(Status::OK) && final(self).module.t == t.0.starttime
                        && final(self).module.initialized && final(self).module.var_map@ == seq![
                        (1i32, AddVar::RI1),
                        (2i32, AddVar::RI2),
                        (3i32, AddVar::RO),
                        (4i32, AddVar::II1),
                        (5i32, AddVar::II2),
                        (6i32, AddVar::IO),
                        (7i32, AddVar::BI1),
                        (8i32, AddVar::BI2),
                        (9i32, AddVar::BO),
                    ]
                } else {
                    r@ == senc_status_res(Status::Error) && *final(self) == *old(self)
                },
                None => r@ == senc_status_res(Status::Error) && *final(self) == *old(self),
            },
    {
        let mut out: Vec<u8> = Vec::new();
        match parse_init_req(req, 0) {
            None => {
                proof {
                    assert(req@.skip(0) =~= req@);
                }
                emit_status_res(&mut out, Status::Error);
                out
            },
            Some((q, p)) => {
                proof {
                    assert(req@.skip(0) =~= req@);
                }
                if p != req.len() {
                    emit_status_res(&mut out, Status::Error);
                    return out;
                }
                let md = adder_model_description();
                let vals = wire_to_vals(&q.values);
                let res = self.module.initialize(
                    &md,
                    &vals,
                    q.starttime,
                    if q.endtime_set {
                        Some(q.endtime)
                    } else {
                        None
                    },
                    if q.tolerance_set {
                        Some(q.tolerance)
                    } else {
                        None
                    },
                    q.log_level,
                    q.check,
                );
                match res {
                    Ok(status) => {
                        emit_status_res(&mut out, status);
                        out
                    },
                    Err(e) => {
                        emit_status_res(&mut out, panic_handler(&e));
                        out
                    },
                }
            },
        }
    }

    /// The `getValues` entry: decode the id list, read the outputs,
    /// answer with the values record or an error status.
    pub fn get_values_bytes(&self, req: &[u8]) -> (r: Vec<u8>)
        requires
            self.module.initialized,
        ensures
            match sdec_ids(req@) {
                Some(t) => if t.1.len() == 0 {
                    if adder_get_err(t.0, self.module.var_map@) is None {
                        r@ == senc_get_values_res(
                            Status::OK,
                            self.module.t,
                            VarValuesV {
                                reals: reals_answer(t.0, self.module.var_map@, self.module.ro),
                                ints: ints_answer(t.0, self.module.var_map@, self.module.io),
                                bools: bools_answer(t.0, self.module.var_map@, self.module.bo),
                                strings: Seq::empty(),
                            },
                        )
                    } else {
                        r@ == senc_get_values_res(Status::Error, self.module.t, empty_vv())
                    }
                } else {
                    r@ == senc_get_values_res(Status::Error, self.module.t, empty_vv())
                },
                None => r@ == senc_get_values_res(Status::Error, self.module.t, empty_vv()),
            },
    {
        let mut out: Vec<u8> = Vec::new();
        proof {
            assert(req@.skip(0) =~= req@);
        }
        match parse_ids(req, 0) {
            None => {
                let vals = VarValues::new();
                proof {
                    assert(vals@ =~= empty_vv());
                }
                emit_get_values_res(&mut out, Status::Error, self.module.t, &vals);
                out
            },
            Some((ids, p)) => {
                if p != req.len() {
                    let vals = VarValues::new();
                    proof {
                        assert(vals@ =~= empty_vv());
                    }
                    emit_get_values_res(&mut out, Status::Error, self.module.t, &vals);
                    return out;
                }
                match self.module.get_values(&ids) {
                    Ok(resp) => {
                        proof {
                            match crate::codec::sdec_u32(req@) {
                                Some((n, r1)) => {
                                    lemma_id_items_len(r1, n as nat);
                                },
                                None => {},
                            }
                            lemma_answers_bounded(ids@, self.module.var_map@, self.module.ro, self.module.io, self.module.bo);
                            assert(resp.values@ =~= VarValuesV {
                                reals: reals_answer(ids@, self.module.var_map@, self.module.ro),
                                ints: ints_answer(ids@, self.module.var_map@, self.module.io),
                                bools: bools_answer(ids@, self.module.var_map@, self.module.bo),
                                strings: Seq::empty(),
                            });
                        }
                        emit_get_values_res(&mut out, resp.status, resp.current_time, &resp.values);
                        out
                    },
                    Err(e) => {
                        let vals = VarValues::new();
                        proof {
                            assert(vals@ =~= empty_vv());
                        }
                        emit_get_values_res(&mut out, Status::Error, self.module.t, &vals);
                        out
                    },
                }
            },
        }
    }

    /// The `setValues` entry: decode the value map, store the inputs,
    /// answer with a status record.
    pub fn set_values_bytes(&mut self, req: &[u8]) -> (r: Vec<u8>)
        requires
            old(self).module.initialized,
        ensures
            match sdec_wvv(req@) {
                Some(t) => if t.1.len() == 0 {
                    {
                        let v = VarValuesV {
                            reals: t.0.reals,
                            ints: t.0.ints,
                            bools: t.0.bools,
                            strings: Seq::empty(),
                        };
                        let m = old(self).module.var_map@;
                        if all_ids_known(v, m) {
                            &&& r@ == senc_status_res(Status::OK)
                            &&& final(self).module.ri1 == last_real_for(v.reals, m, AddVar::RI1, old(self).module.ri1)
                            &&& final(self).module.ri2 == last_real_for(v.reals, m, AddVar::RI2, old(self).module.ri2)
                            &&& final(self).module.ii1 == last_int_for(v.ints, m, AddVar::II1, old(self).module.ii1)
                            &&& final(self).module.ii2 == last_int_for(v.ints, m, AddVar::II2, old(self).module.ii2)
                            &&& final(self).module.bi1 == last_bool_for(v.bools, m, AddVar::BI1, old(self).module.bi1)
                            &&& final(self).module.bi2 == last_bool_for(v.bools, m, AddVar::BI2, old(self).module.bi2)
                            &&& final(self).module.t == old(self).module.t
                            &&& final(self).module.initialized
                        } else {
                            r@ == senc_status_res(Status::Error) && *final(self) == *old(self)
                        }
                    }
                } else {
                    r@ == senc_status_res(Status::Error) && *final(self) == *old(self)
                },
                None => r@ == senc_status_res(Status::Error) && *final(self) == *old(self),
            },
    {
        let mut out: Vec<u8> = Vec::new();
        proof {
            assert(req@.skip(0) =~= req@);
        }
        match parse_wvv(req, 0) {
            None => {
                emit_status_res(&mut out, Status::Error);
                out
            },
            Some((w, p)) => {
                if p != req.len() {
                    emit_status_res(&mut out, Status::Error);
                    return out;
                }
                let vals = wire_to_vals(&w);
                match self.module.set_values(&vals) {
                    Ok(status) => {
                        emit_status_res(&mut out, status);
                        out
                    },
                    Err(e) => {
                        emit_status_res(&mut out, Status::Error);
                        out
                    },
                }
            },
        }
    }

    /// The `doStep` entry: decode the two clock scalars, step the adder,
    /// answer with its status and updated clock.
    pub fn do_step_bytes<O: RealOps>(&mut self, req: &[u8], ops: &O) -> (r: Vec<u8>)
        requires
            old(self).module.initialized,
        ensures
            match sdec_do_step_req(req@) {
                Some(t) => if t.1.len() == 0 {
                    r@ == senc_do_step_res(Status::OK, final(self).module.t) && final(self).module.io
                        == vstd::wrapping::i32_specs::wrapping_add(
                        old(self).module.ii1,
                        old(self).module.ii2,
                    ) && final(self).module.bo == (old(self).module.bi1 && old(self).module.bi2)
                        && final(self).module.initialized
                } else {
                    r@ == senc_do_step_res(Status::Error, 0) && *final(self) == *old(self)
                },
                None => r@ == senc_do_step_res(Status::Error, 0) && *final(self) == *old(self),
            },
    {
        let mut out: Vec<u8> = Vec::new();
        proof {
            assert(req@.skip(0) =~= req@);
        }
        match parse_do_step_req(req, 0) {
            None => {
                emit_do_step_res(&mut out, Status::Error, 0);
                out
            },
            Some((pair, p)) => {
                if p != req.len() {
                    emit_do_step_res(&mut out, Status::Error, 0);
                    return out;
                }
                match self.module.do_step(pair.0, pair.1, ops) {
                    Ok(resp) => {
                        emit_do_step_res(&mut out, resp.status, resp.updated_time);
                        out
                    },
                    Err(e) => {
                        emit_do_step_res(&mut out, Status::Error, 0);
                        out
                    },
                }
            },
        }
    }
}

/// A decoded id list has exactly as many entries as its count field said.
proof fn lemma_id_items_len(b: Seq<u8>, n: nat)
    ensures
        crate::codec::sdec_id_items(b, n) matches Some(t) ==> t.0.len() == n,
    decreases n,
{
    if n > 0 {
        match crate::codec::sdec_i32(b) {
            None => {},
            Some((id, r1)) => {
                lemma_id_items_len(r1, (n - 1) as nat);
            },
        }
    }
}

/// A `getValues` answer never carries more entries than the request named
/// ids.
proof fn lemma_answers_bounded(ids: Seq<i32>, m: Seq<(i32, AddVar)>, ro: u64, io: i32, bo: bool)
    ensures
        reals_answer(ids, m, ro).len() <= ids.len(),
        ints_answer(ids, m, io).len() <= ids.len(),
        bools_answer(ids, m, bo).len() <= ids.len(),
    decreases ids.len(),
{
    if ids.len() > 0 {
        lemma_answers_bounded(ids.skip(1), m, ro, io, bo);
    }
}

} // verus!
