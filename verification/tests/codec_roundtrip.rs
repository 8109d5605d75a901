//! Wire codec round trips on concrete values.

use dtasmtime::codec::{emit_u32, emit_u64, emit_i32, emit_bytes, emit_bool, emit_vv, emit_ids,
    emit_init_req, emit_do_step_req, emit_status_res, emit_do_step_res, emit_get_values_res,
    emit_md, parse_u32, parse_u64, parse_i32, parse_bytes, parse_bool, parse_wvv, parse_ids,
    parse_init_req, parse_do_step_req, parse_status_res, parse_do_step_res, parse_get_values_res,
    parse_md};
use dtasmtime::types::{VarValues, Status, LogLevel, ModelDescription, ModelVariable,
    CausalityType, VariableType, VarValue};

fn sample_vals() -> VarValues {
    VarValues {
        real_values: vec![(1, 1.5f64.to_bits()), (2, 2.25f64.to_bits())],
        int_values: vec![(4, 7), (5, -5)],
        bool_values: vec![(7, true), (8, false)],
        string_values: vec![(11, b"hello".to_vec())],
    }
}

#[test]
fn u32_round_trip() {
    let mut out = Vec::new();
    emit_u32(&mut out, 0xdeadbeef);
    assert_eq!(out.len(), 4);
    let (x, p) = parse_u32(&out, 0).unwrap();
    assert_eq!(x, 0xdeadbeef);
    assert_eq!(p, 4);
}

#[test]
fn u64_round_trip() {
    let mut out = Vec::new();
    emit_u64(&mut out, 0x0123456789abcdef);
    let (x, p) = parse_u64(&out, 0).unwrap();
    assert_eq!(x, 0x0123456789abcdef);
    assert_eq!(p, 8);
}

#[test]
fn i32_round_trip_negative() {
    let mut out = Vec::new();
    emit_i32(&mut out, -123456);
    let (x, p) = parse_i32(&out, 0).unwrap();
    assert_eq!(x, -123456);
    assert_eq!(p, 4);
}

#[test]
fn bytes_round_trip() {
    let mut out = Vec::new();
    emit_bytes(&mut out, &b"abc".to_vec());
    let (v, p) = parse_bytes(&out, 0).unwrap();
    assert_eq!(v, b"abc".to_vec());
    assert_eq!(p, 7);
}

#[test]
fn bool_rejects_other_bytes() {
    let mut out = Vec::new();
    emit_bool(&mut out, true);
    assert_eq!(parse_bool(&out, 0).unwrap().0, true);
    let bad = vec![2u8];
    assert!(parse_bool(&bad, 0).is_none());
}

#[test]
fn value_map_round_trip() {
    let vals = sample_vals();
    let mut out = Vec::new();
    emit_vv(&mut out, &vals);
    let (wire, p) = parse_wvv(&out, 0).unwrap();
    assert_eq!(p, out.len());
    assert_eq!(wire.real_values, vals.real_values);
    assert_eq!(wire.int_values, vals.int_values);
    assert_eq!(wire.bool_values, vals.bool_values);
    assert_eq!(wire.string_values.len(), 1);
    assert_eq!(wire.string_values[0].0, 11);
    assert_eq!(wire.string_values[0].1.as_ref().unwrap(), &b"hello".to_vec());
}

#[test]
fn ids_round_trip() {
    let ids = vec![3, 6, 9, -1];
    let mut out = Vec::new();
    emit_ids(&mut out, &ids);
    let (back, p) = parse_ids(&out, 0).unwrap();
    assert_eq!(p, out.len());
    assert_eq!(back, ids);
}

#[test]
fn init_req_round_trip() {
    let vals = sample_vals();
    let mut out = Vec::new();
    emit_init_req(
        &mut out,
        &b"adder".to_vec(),
        0.0f64.to_bits(),
        10.0f64.to_bits(),
        true,
        1e-6f64.to_bits(),
        true,
        LogLevel::Warn,
        false,
        &vals,
    );
    let (req, p) = parse_init_req(&out, 0).unwrap();
    assert_eq!(p, out.len());
    assert_eq!(req.model_id, b"adder".to_vec());
    assert_eq!(f64::from_bits(req.starttime), 0.0);
    assert_eq!(f64::from_bits(req.endtime), 10.0);
    assert!(req.endtime_set);
    assert_eq!(f64::from_bits(req.tolerance), 1e-6);
    assert!(req.tolerance_set);
    assert_eq!(req.log_level, LogLevel::Warn);
    assert!(!req.check);
    assert_eq!(req.values.real_values, vals.real_values);
}

#[test]
fn do_step_req_round_trip() {
    let mut out = Vec::new();
    emit_do_step_req(&mut out, 0.1f64.to_bits(), 0.05f64.to_bits());
    let (pair, p) = parse_do_step_req(&out, 0).unwrap();
    assert_eq!(p, 16);
    assert_eq!(f64::from_bits(pair.0), 0.1);
    assert_eq!(f64::from_bits(pair.1), 0.05);
}

#[test]
fn status_res_round_trip_all_codes() {
    for s in [Status::OK, Status::Discard, Status::Error, Status::Fatal] {
        let mut out = Vec::new();
        emit_status_res(&mut out, s);
        let (back, p) = parse_status_res(&out, 0).unwrap();
        assert_eq!(back, s);
        assert_eq!(p, 1);
    }
    let bad = vec![7u8];
    assert!(parse_status_res(&bad, 0).is_none());
}

#[test]
fn do_step_res_round_trip() {
    let mut out = Vec::new();
    emit_do_step_res(&mut out, Status::Discard, 0.2f64.to_bits());
    let (pair, p) = parse_do_step_res(&out, 0).unwrap();
    assert_eq!(p, out.len());
    assert_eq!(pair.0, Status::Discard);
    assert_eq!(f64::from_bits(pair.1), 0.2);
}

#[test]
fn get_values_res_round_trip() {
    let vals = sample_vals();
    let mut out = Vec::new();
    emit_get_values_res(&mut out, Status::OK, 0.3f64.to_bits(), &vals);
    let (trip, p) = parse_get_values_res(&out, 0).unwrap();
    assert_eq!(p, out.len());
    assert_eq!(trip.0, Status::OK);
    assert_eq!(f64::from_bits(trip.1), 0.3);
    assert_eq!(trip.2.real_values, vals.real_values);
    assert_eq!(trip.2.int_values, vals.int_values);
}

#[test]
fn model_description_round_trip() {
    let md = ModelDescription {
        id: b"model-x".to_vec(),
        variables: vec![
            ModelVariable {
                id: 1,
                name: b"RI1".to_vec(),
                causality: CausalityType::Input,
                value_type: VariableType::DtasmReal,
                default: Some(VarValue::Real(0.5f64.to_bits())),
            },
            ModelVariable {
                id: 2,
                name: b"note".to_vec(),
                causality: CausalityType::Parameter,
                value_type: VariableType::DtasmString,
                default: Some(VarValue::Str(b"dflt".to_vec())),
            },
            ModelVariable {
                id: 3,
                name: b"L".to_vec(),
                causality: CausalityType::Local,
                value_type: VariableType::DtasmBool,
                default: None,
            },
        ],
    };
    let mut out = Vec::new();
    emit_md(&mut out, &md);
    let (back, p) = parse_md(&out, 0).unwrap();
    assert_eq!(p, out.len());
    assert_eq!(back, md);
}

#[test]
fn truncated_input_fails() {
    let mut out = Vec::new();
    emit_u64(&mut out, 1);
    assert!(parse_u64(&out, 1).is_none());
    let vals = sample_vals();
    let mut enc = Vec::new();
    emit_vv(&mut enc, &vals);
    enc.truncate(enc.len() - 1);
    assert!(parse_wvv(&enc, 0).is_none());
}
