//! The typed-variable contract: index building, host-side validation, and
//! response re-validation.

use dtasmtime::adder::adder_model_description;
use dtasmtime::types::{VarValues, WireVarValues, DtasmError, CausalityType, VariableType};
use dtasmtime::validate::{collect_var_types, lookup, check_get_ids, check_set_values,
    check_init_values, extract_vals};

fn empty_vals() -> VarValues {
    VarValues {
        real_values: vec![],
        int_values: vec![],
        bool_values: vec![],
        string_values: vec![],
    }
}

#[test]
fn index_covers_every_declared_variable() {
    let md = adder_model_description();
    let vt = collect_var_types(&md);
    for id in 1..=9 {
        let v = lookup(&vt, id).unwrap();
        match id {
            1 | 2 => {
                assert_eq!(v.causality, CausalityType::Input);
                assert_eq!(v.value_type, VariableType::DtasmReal);
            },
            3 => {
                assert_eq!(v.causality, CausalityType::Output);
                assert_eq!(v.value_type, VariableType::DtasmReal);
            },
            4 | 5 => assert_eq!(v.value_type, VariableType::DtasmInt),
            6 => {
                assert_eq!(v.causality, CausalityType::Output);
                assert_eq!(v.value_type, VariableType::DtasmInt);
            },
            7 | 8 => assert_eq!(v.value_type, VariableType::DtasmBool),
            _ => {
                assert_eq!(v.causality, CausalityType::Output);
                assert_eq!(v.value_type, VariableType::DtasmBool);
            },
        }
    }
    assert!(lookup(&vt, 999).is_none());
}

#[test]
fn get_rejects_unknown_id() {
    let vt = collect_var_types(&adder_model_description());
    let r = check_get_ids(&vec![3, 999], &vt);
    assert_eq!(r, Err(DtasmError::UnknownVariableId(999)));
}

#[test]
fn get_rejects_inputs() {
    let vt = collect_var_types(&adder_model_description());
    let r = check_get_ids(&vec![3, 1], &vt);
    assert_eq!(
        r,
        Err(DtasmError::VariableCausalityMismatch(CausalityType::Input, 1))
    );
    assert_eq!(check_get_ids(&vec![3, 6, 9], &vt), Ok(()));
}

#[test]
fn set_rejects_non_input_before_later_errors() {
    // One invalid id among many valid ones fails with exactly that id.
    let vt = collect_var_types(&adder_model_description());
    let mut vals = empty_vals();
    vals.real_values = vec![(1, 0), (3, 0), (2, 0)];
    let r = check_set_values(&vals, &vt);
    assert_eq!(
        r,
        Err(DtasmError::VariableCausalityInvalidForSet(CausalityType::Output, 3))
    );
}

#[test]
fn set_rejects_type_mismatch() {
    let vt = collect_var_types(&adder_model_description());
    let mut vals = empty_vals();
    vals.int_values = vec![(1, 5)];
    let r = check_set_values(&vals, &vt);
    assert_eq!(r, Err(DtasmError::VariableTypeMismatch(VariableType::DtasmReal, 1)));
}

#[test]
fn set_rejects_unknown_id() {
    let vt = collect_var_types(&adder_model_description());
    let mut vals = empty_vals();
    vals.bool_values = vec![(7, true), (1000, false)];
    assert_eq!(check_set_values(&vals, &vt), Err(DtasmError::UnknownVariableId(1000)));
}

#[test]
fn set_accepts_valid_inputs() {
    let vt = collect_var_types(&adder_model_description());
    let mut vals = empty_vals();
    vals.real_values = vec![(1, 0), (2, 0)];
    vals.int_values = vec![(4, 1), (5, 2)];
    vals.bool_values = vec![(7, true), (8, false)];
    assert_eq!(check_set_values(&vals, &vt), Ok(()));
}

#[test]
fn init_allows_any_causality_but_checks_types() {
    // Initial values may target outputs and locals; only the value type
    // must match.
    let vt = collect_var_types(&adder_model_description());
    let mut vals = empty_vals();
    vals.real_values = vec![(3, 0)];
    vals.int_values = vec![(6, 1)];
    assert_eq!(check_init_values(&vals, &vt), Ok(()));
    vals.int_values = vec![(3, 1)];
    assert_eq!(
        check_init_values(&vals, &vt),
        Err(DtasmError::VariableTypeMismatch(VariableType::DtasmReal, 3))
    );
    vals.int_values = vec![(12, 1)];
    assert_eq!(check_init_values(&vals, &vt), Err(DtasmError::UnknownVariableId(12)));
}

#[test]
fn extract_accepts_clean_response() {
    let vt = collect_var_types(&adder_model_description());
    let w = WireVarValues {
        real_values: vec![(3, 2.5f64.to_bits())],
        int_values: vec![(6, 12)],
        bool_values: vec![(9, true)],
        string_values: vec![],
    };
    let v = extract_vals(&w, &vt).unwrap();
    assert_eq!(v.real_values, vec![(3, 2.5f64.to_bits())]);
    assert_eq!(v.int_values, vec![(6, 12)]);
    assert_eq!(v.bool_values, vec![(9, true)]);
    assert!(v.string_values.is_empty());
}

#[test]
fn extract_rejects_unknown_id() {
    let vt = collect_var_types(&adder_model_description());
    let w = WireVarValues {
        real_values: vec![(42, 0)],
        int_values: vec![],
        bool_values: vec![],
        string_values: vec![],
    };
    assert_eq!(extract_vals(&w, &vt), Err(DtasmError::UnknownVariableId(42)));
}

#[test]
fn extract_rejects_type_conflict() {
    let vt = collect_var_types(&adder_model_description());
    let w = WireVarValues {
        real_values: vec![],
        int_values: vec![(3, 1)],
        bool_values: vec![],
        string_values: vec![],
    };
    assert_eq!(
        extract_vals(&w, &vt),
        Err(DtasmError::VariableTypeMismatch(VariableType::DtasmInt, 3))
    );
}

#[test]
fn extract_rejects_absent_string_value() {
    let vt = collect_var_types(&adder_model_description());
    let w = WireVarValues {
        real_values: vec![],
        int_values: vec![],
        bool_values: vec![],
        string_values: vec![(5, None)],
    };
    assert_eq!(extract_vals(&w, &vt), Err(DtasmError::InvalidVariableValue(5)));
}
