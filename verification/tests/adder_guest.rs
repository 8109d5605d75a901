//! The reference adder driven through its byte-level guest entries.

use dtasmtime::adder::RealOps;
use dtasmtime::codec::{emit_init_req, emit_ids, emit_vv, emit_do_step_req, parse_md,
    parse_status_res, parse_do_step_res, parse_get_values_res};
use dtasmtime::guest::GuestAdder;
use dtasmtime::types::{VarValues, Status, LogLevel};

/// Double-precision arithmetic on the carried bit patterns.
struct F64Ops;

impl RealOps for F64Ops {
    fn real_add(&self, a: u64, b: u64) -> u64 {
        (f64::from_bits(a) + f64::from_bits(b)).to_bits()
    }
}

fn empty_vals() -> VarValues {
    VarValues {
        real_values: vec![],
        int_values: vec![],
        bool_values: vec![],
        string_values: vec![],
    }
}

fn init_req_bytes(vals: &VarValues, tmin: f64) -> Vec<u8> {
    let mut req = Vec::new();
    emit_init_req(
        &mut req,
        &b"adder".to_vec(),
        tmin.to_bits(),
        0,
        false,
        0,
        false,
        LogLevel::Info,
        false,
        vals,
    );
    req
}

fn initialized_guest() -> GuestAdder {
    let mut g = GuestAdder::new();
    let res = g.init_bytes(&init_req_bytes(&empty_vals(), 0.0));
    let (status, p) = parse_status_res(&res, 0).unwrap();
    assert_eq!(p, res.len());
    assert_eq!(status, Status::OK);
    g
}

#[test]
fn model_description_has_nine_variables() {
    let g = GuestAdder::new();
    let bytes = g.model_description_bytes();
    let (md, p) = parse_md(&bytes, 0).unwrap();
    assert_eq!(p, bytes.len());
    assert_eq!(md.id, b"adder".to_vec());
    assert_eq!(md.variables.len(), 9);
    assert_eq!(md.variables[0].name, b"RI1".to_vec());
    assert_eq!(md.variables[8].name, b"BO".to_vec());
}

#[test]
fn freshly_initialized_outputs_are_defaults() {
    // After initialize, reading the real output yields its default 0.0 at
    // the start time.
    let g = initialized_guest();
    let mut req = Vec::new();
    emit_ids(&mut req, &vec![3]);
    let res = g.get_values_bytes(&req);
    let (trip, p) = parse_get_values_res(&res, 0).unwrap();
    assert_eq!(p, res.len());
    assert_eq!(trip.0, Status::OK);
    assert_eq!(f64::from_bits(trip.1), 0.0);
    assert_eq!(trip.2.real_values, vec![(3, 0.0f64.to_bits())]);
}

#[test]
fn real_sum_after_one_step() {
    // set {1: 1.5, 2: 2.25}; step 0.0 by 0.1; read RO = 3.75 at t = 0.1.
    let mut g = initialized_guest();
    let mut vals = empty_vals();
    vals.real_values = vec![(1, 1.5f64.to_bits()), (2, 2.25f64.to_bits())];
    let mut set_req = Vec::new();
    emit_vv(&mut set_req, &vals);
    let set_res = g.set_values_bytes(&set_req);
    assert_eq!(parse_status_res(&set_res, 0).unwrap().0, Status::OK);

    let mut step_req = Vec::new();
    emit_do_step_req(&mut step_req, 0.0f64.to_bits(), 0.1f64.to_bits());
    let step_res = g.do_step_bytes(&step_req, &F64Ops);
    let (pair, _) = parse_do_step_res(&step_res, 0).unwrap();
    assert_eq!(pair.0, Status::OK);
    assert_eq!(f64::from_bits(pair.1), 0.1);

    let mut get_req = Vec::new();
    emit_ids(&mut get_req, &vec![3]);
    let get_res = g.get_values_bytes(&get_req);
    let (trip, _) = parse_get_values_res(&get_res, 0).unwrap();
    assert_eq!(trip.0, Status::OK);
    assert_eq!(f64::from_bits(trip.1), 0.1);
    assert_eq!(trip.2.real_values, vec![(3, 3.75f64.to_bits())]);
}

#[test]
fn int_and_bool_sums_after_second_step() {
    // set {4: 7, 5: 5, 7: true, 8: false}; step twice; read IO = 12 and
    // BO = false at t = 0.2.
    let mut g = initialized_guest();
    let mut vals = empty_vals();
    vals.real_values = vec![(1, 1.5f64.to_bits()), (2, 2.25f64.to_bits())];
    let mut set_req = Vec::new();
    emit_vv(&mut set_req, &vals);
    let _ = g.set_values_bytes(&set_req);
    let mut step_req = Vec::new();
    emit_do_step_req(&mut step_req, 0.0f64.to_bits(), 0.1f64.to_bits());
    let _ = g.do_step_bytes(&step_req, &F64Ops);

    let mut vals2 = empty_vals();
    vals2.int_values = vec![(4, 7), (5, 5)];
    vals2.bool_values = vec![(7, true), (8, false)];
    let mut set_req2 = Vec::new();
    emit_vv(&mut set_req2, &vals2);
    let set_res = g.set_values_bytes(&set_req2);
    assert_eq!(parse_status_res(&set_res, 0).unwrap().0, Status::OK);

    let mut step_req2 = Vec::new();
    emit_do_step_req(&mut step_req2, 0.1f64.to_bits(), 0.1f64.to_bits());
    let step_res = g.do_step_bytes(&step_req2, &F64Ops);
    let (pair, _) = parse_do_step_res(&step_res, 0).unwrap();
    assert_eq!(f64::from_bits(pair.1), 0.2);

    let mut get_req = Vec::new();
    emit_ids(&mut get_req, &vec![6, 9]);
    let get_res = g.get_values_bytes(&get_req);
    let (trip, _) = parse_get_values_res(&get_res, 0).unwrap();
    assert_eq!(f64::from_bits(trip.1), 0.2);
    assert_eq!(trip.2.int_values, vec![(6, 12)]);
    assert_eq!(trip.2.bool_values, vec![(9, false)]);
}

#[test]
fn guest_rejects_unknown_or_input_read() {
    let g = initialized_guest();
    let mut req = Vec::new();
    emit_ids(&mut req, &vec![999]);
    let res = g.get_values_bytes(&req);
    let (trip, _) = parse_get_values_res(&res, 0).unwrap();
    assert_eq!(trip.0, Status::Error);
    let mut req2 = Vec::new();
    emit_ids(&mut req2, &vec![1]);
    let res2 = g.get_values_bytes(&req2);
    let (trip2, _) = parse_get_values_res(&res2, 0).unwrap();
    assert_eq!(trip2.0, Status::Error);
}

#[test]
fn wrapping_int_addition() {
    let mut g = initialized_guest();
    let mut vals = empty_vals();
    vals.int_values = vec![(4, i32::MAX), (5, 1)];
    let mut set_req = Vec::new();
    emit_vv(&mut set_req, &vals);
    let _ = g.set_values_bytes(&set_req);
    let mut step_req = Vec::new();
    emit_do_step_req(&mut step_req, 0.0f64.to_bits(), 1.0f64.to_bits());
    let _ = g.do_step_bytes(&step_req, &F64Ops);
    let mut get_req = Vec::new();
    emit_ids(&mut get_req, &vec![6]);
    let res = g.get_values_bytes(&get_req);
    let (trip, _) = parse_get_values_res(&res, 0).unwrap();
    assert_eq!(trip.2.int_values, vec![(6, i32::MIN)]);
}

#[test]
fn malformed_request_answers_error_status() {
    let mut g = initialized_guest();
    let garbage = vec![1u8, 2, 3];
    let res = g.set_values_bytes(&garbage);
    assert_eq!(parse_status_res(&res, 0).unwrap().0, Status::Error);
    let res2 = g.do_step_bytes(&garbage, &F64Ops);
    let (pair, _) = parse_do_step_res(&res2, 0).unwrap();
    assert_eq!(pair.0, Status::Error);
}
