//! The typed-variable contract: the id-to-type index derived from a model
//! description, and the validation every host call performs before and
//! after talking to the guest.
//!
//! Every check states exactly which error comes back: the first offending
//! entry, in the order the lists are walked, decides.

use vstd::prelude::*;
use crate::types::{ModelDescription, ModelVariableV, DtasmVarType, DtasmVarTypeV, VarTypes,
    VarValues, VarValuesV, VariableType, CausalityType, DtasmError, alist_map, clone_bytes,
    clone_default, WireVarValues, WireVarValuesV, wire_string_view};

verus! {

/// What the index remembers of one model variable.
pub open spec fn vtype_of(v: ModelVariableV) -> DtasmVarTypeV {
    DtasmVarTypeV {
        name: v.name,
        causality: v.causality,
        value_type: v.value_type,
        default: v.default,
    }
}

/// The index a model description denotes; a repeated id keeps the later
/// declaration, as repeated insertion would.
pub open spec fn md_index(vars: Seq<ModelVariableV>) -> Map<i32, DtasmVarTypeV>
    decreases vars.len(),
{
    if vars.len() == 0 {
        Map::empty()
    } else {
        md_index(vars.drop_last()).insert(vars.last().id, vtype_of(vars.last()))
    }
}

/// Derives the id-to-variable-type index from a model description.
pub fn collect_var_types(md: &ModelDescription) -> (r: VarTypes)
    ensures
        r.map_view() == md_index(md@.variables),
{
    let mut entries: Vec<(i32, DtasmVarType)> = Vec::new();
    let mut i: usize = 0;
    while i < md.variables.len()
        invariant
            i <= md.variables@.len(),
            entries@.len() == i,
            forall|j: int| 0 <= j < i ==> (#[trigger] entries@[j]).0 == md.variables@[j]@.id
                && entries@[j].1@ == vtype_of(md.variables@[j]@),
        decreases md.variables@.len() - i,
    {
        let v = &md.variables[i];
        entries.push(
            (
                v.id,
                DtasmVarType {
                    name: clone_bytes(&v.name),
                    causality: v.causality,
                    value_type: v.value_type,
                    default: clone_default(&v.default),
                },
            ),
        );
        i = i + 1;
    }
    let r = VarTypes { entries };
    proof {
        lemma_index_image(r, md@.variables);
    }
    r
}

/// The image of the entry list matches the model's index once each entry
/// mirrors the corresponding variable.
proof fn lemma_index_image(r: VarTypes, vars: Seq<ModelVariableV>)
    requires
        r.entries@.len() == vars.len(),
        forall|j: int| 0 <= j < vars.len() ==> (#[trigger] r.entries@[j]).0 == vars[j].id
            && r.entries@[j].1@ == vtype_of(vars[j]),
    ensures
        r.map_view() == md_index(vars),
    decreases vars.len(),
{
    let image = Seq::new(r.entries@.len(), |i: int| (r.entries@[i].0, r.entries@[i].1@));
    if vars.len() == 0 {
        assert(image =~= Seq::<(i32, DtasmVarTypeV)>::empty());
        assert(alist_map(image) =~= md_index(vars));
    } else {
        let prefix = vars.drop_last();
        // Relate the map of the full image to the map of the image without
        // its last entry.
        let sub = Seq::new(prefix.len() as nat, |i: int| (r.entries@[i].0, r.entries@[i].1@));
        assert(image.drop_last() =~= sub);
        lemma_alist_of_image(r, prefix);
        assert(alist_map(image) == alist_map(sub).insert(vars.last().id, vtype_of(vars.last())));
        assert(r.map_view() =~= md_index(vars));
    }
}

/// Helper: the prefix image denotes the prefix index.
proof fn lemma_alist_of_image(r: VarTypes, prefix: Seq<ModelVariableV>)
    requires
        prefix.len() < r.entries@.len() || prefix.len() == r.entries@.len(),
        prefix.len() <= r.entries@.len(),
        forall|j: int| 0 <= j < prefix.len() ==> (#[trigger] r.entries@[j]).0 == prefix[j].id
            && r.entries@[j].1@ == vtype_of(prefix[j]),
    ensures
        alist_map(Seq::new(prefix.len() as nat, |i: int| (r.entries@[i].0, r.entries@[i].1@)))
            == md_index(prefix),
    decreases prefix.len(),
{
    let image = Seq::new(prefix.len() as nat, |i: int| (r.entries@[i].0, r.entries@[i].1@));
    if prefix.len() == 0 {
        assert(image =~= Seq::<(i32, DtasmVarTypeV)>::empty());
        assert(alist_map(image) =~= md_index(prefix));
    } else {
        let sub = Seq::new(
            (prefix.len() - 1) as nat,
            |i: int| (r.entries@[i].0, r.entries@[i].1@),
        );
        assert(image.drop_last() =~= sub);
        lemma_alist_of_image(r, prefix.drop_last());
        assert(alist_map(image) =~= md_index(prefix));
    }
}

/// Looks an id up in the index; the result mirrors the index's map.
pub fn lookup<'a>(vt: &'a VarTypes, id: i32) -> (r: Option<&'a DtasmVarType>)
    ensures
        match r {
            Some(v) => vt.map_view().contains_key(id) && v@ == vt.map_view()[id],
            None => !vt.map_view().contains_key(id),
        },
{
    let ghost image = Seq::new(vt.entries@.len(), |i: int| (vt.entries@[i].0, vt.entries@[i].1@));
    let mut i: usize = vt.entries.len();
    proof {
        assert(image.subrange(0, i as int) =~= image);
    }
    while i > 0
        invariant
            i <= vt.entries@.len(),
            image == Seq::new(vt.entries@.len(), |k: int| (vt.entries@[k].0, vt.entries@[k].1@)),
            alist_map(image).contains_key(id) == alist_map(image.subrange(0, i as int)).contains_key(
                id,
            ),
            alist_map(image).contains_key(id) ==> alist_map(image)[id] == alist_map(
                image.subrange(0, i as int),
            )[id],
        decreases i,
    {
        i = i - 1;
        if vt.entries[i].0 == id {
            proof {
                assert(image.subrange(0, i + 1 as int).last() == (vt.entries@[i as int].0,
                vt.entries@[i as int].1@));
            }
            return Some(&vt.entries[i].1);
        }
        proof {
            assert(image.subrange(0, i + 1 as int).drop_last() =~= image.subrange(0, i as int));
            assert(image.subrange(0, i + 1 as int).last() == (vt.entries@[i as int].0,
            vt.entries@[i as int].1@));
        }
    }
    proof {
        assert(image.subrange(0, 0) =~= Seq::<(i32, DtasmVarTypeV)>::empty());
    }
    None
}

// ---------------------------------------------------------------------
// get_values: every requested id must exist and must not be an input.
// ---------------------------------------------------------------------

/// The error `get_values` validation reports, decided by the first
/// offending id.
pub open spec fn first_get_err(ids: Seq<i32>, vt: Map<i32, DtasmVarTypeV>) -> Option<DtasmError>
    decreases ids.len(),
{
    if ids.len() == 0 {
        None
    } else if !vt.contains_key(ids[0]) {
        Some(DtasmError::UnknownVariableId(ids[0]))
    } else if vt[ids[0]].causality == CausalityType::Input {
        Some(DtasmError::VariableCausalityMismatch(CausalityType::Input, ids[0]))
    } else {
        first_get_err(ids.skip(1), vt)
    }
}

/// Validates the id list of a `get_values` call.
pub fn check_get_ids(ids: &Vec<i32>, vt: &VarTypes) -> (r: Result<(), DtasmError>)
    ensures
        match r {
            Ok(u) => first_get_err(ids@, vt.map_view()) is None,
            Err(e) => first_get_err(ids@, vt.map_view()) == Some(e),
        },
{
    let mut i: usize = 0;
    proof {
        assert(ids@.skip(0) =~= ids@);
    }
    while i < ids.len()
        invariant
            i <= ids@.len(),
            first_get_err(ids@, vt.map_view()) == first_get_err(ids@.skip(i as int), vt.map_view()),
        decreases ids@.len() - i,
    {
        let id = ids[i];
        match lookup(vt, id) {
            None => {
                return Err(DtasmError::UnknownVariableId(id));
            },
            Some(v) => {
                if matches!(v.causality, CausalityType::Input) {
                    return Err(
                        DtasmError::VariableCausalityMismatch(CausalityType::Input, id),
                    );
                }
            },
        }
        proof {
            assert(ids@.skip(i as int).skip(1) =~= ids@.skip(i + 1 as int));
        }
        i = i + 1;
    }
    Ok(())
}

// ---------------------------------------------------------------------
// set_values: every id must exist, be an input, and match its declared
// value type.
// ---------------------------------------------------------------------

/// The error one `set_values` entry reports, if any.
pub open spec fn set_entry_err(id: i32, expected: VariableType, vt: Map<i32, DtasmVarTypeV>) -> Option<
    DtasmError,
> {
    if !vt.contains_key(id) {
        Some(DtasmError::UnknownVariableId(id))
    } else if vt[id].causality != CausalityType::Input {
        Some(DtasmError::VariableCausalityInvalidForSet(vt[id].causality, id))
    } else if vt[id].value_type != expected {
        Some(DtasmError::VariableTypeMismatch(vt[id].value_type, id))
    } else {
        None
    }
}

/// First offending id of one typed list of a `set_values` call.
pub open spec fn first_set_err_ids(
    ids: Seq<i32>,
    expected: VariableType,
    vt: Map<i32, DtasmVarTypeV>,
) -> Option<DtasmError>
    decreases ids.len(),
{
    if ids.len() == 0 {
        None
    } else {
        match set_entry_err(ids[0], expected, vt) {
            Some(e) => Some(e),
            None => first_set_err_ids(ids.skip(1), expected, vt),
        }
    }
}

/// The ids of each typed list of a value map.
pub open spec fn real_ids(v: VarValuesV) -> Seq<i32> {
    Seq::new(v.reals.len(), |i: int| v.reals[i].0)
}

pub open spec fn int_ids(v: VarValuesV) -> Seq<i32> {
    Seq::new(v.ints.len(), |i: int| v.ints[i].0)
}

pub open spec fn bool_ids(v: VarValuesV) -> Seq<i32> {
    Seq::new(v.bools.len(), |i: int| v.bools[i].0)
}

pub open spec fn string_ids(v: VarValuesV) -> Seq<i32> {
    Seq::new(v.strings.len(), |i: int| v.strings[i].0)
}

/// The error a `set_values` call reports: real entries are walked first,
/// then int, bool and string entries.
pub open spec fn first_set_err(v: VarValuesV, vt: Map<i32, DtasmVarTypeV>) -> Option<DtasmError> {
    match first_set_err_ids(real_ids(v), VariableType::DtasmReal, vt) {
        Some(e) => Some(e),
        None => match first_set_err_ids(int_ids(v), VariableType::DtasmInt, vt) {
            Some(e) => Some(e),
            None => match first_set_err_ids(bool_ids(v), VariableType::DtasmBool, vt) {
                Some(e) => Some(e),
                None => first_set_err_ids(string_ids(v), VariableType::DtasmString, vt),
            },
        },
    }
}

/// Checks one entry of a `set_values` call.
fn check_set_entry(id: i32, expected: VariableType, vt: &VarTypes) -> (r: Result<(), DtasmError>)
    ensures
        match r {
            Ok(u) => set_entry_err(id, expected, vt.map_view()) is None,
            Err(e) => set_entry_err(id, expected, vt.map_view()) == Some(e),
        },
{
    match lookup(vt, id) {
        None => Err(DtasmError::UnknownVariableId(id)),
        Some(v) => {
            if !matches!(v.causality, CausalityType::Input) {
                Err(DtasmError::VariableCausalityInvalidForSet(v.causality, id))
            } else if !same_variable_type(v.value_type, expected) {
                Err(DtasmError::VariableTypeMismatch(v.value_type, id))
            } else {
                Ok(())
            }
        },
    }
}

/// Executable equality on declared value types.
pub fn same_variable_type(a: VariableType, b: VariableType) -> (r: bool)
    ensures
        r == (a == b),
{
    match (a, b) {
        (VariableType::DtasmReal, VariableType::DtasmReal) => true,
        (VariableType::DtasmInt, VariableType::DtasmInt) => true,
        (VariableType::DtasmBool, VariableType::DtasmBool) => true,
        (VariableType::DtasmString, VariableType::DtasmString) => true,
        _ => false,
    }
}

/// Validates a whole `set_values` map.
pub fn check_set_values(v: &VarValues, vt: &VarTypes) -> (r: Result<(), DtasmError>)
    ensures
        match r {
            Ok(u) => first_set_err(v@, vt.map_view()) is None,
            Err(e) => first_set_err(v@, vt.map_view()) == Some(e),
        },
{
    let rr = check_set_list_reals(v, vt);
    if let Err(e) = rr {
        return Err(e);
    }
    let ri = check_set_list_ints(v, vt);
    if let Err(e) = ri {
        return Err(e);
    }
    let rb = check_set_list_bools(v, vt);
    if let Err(e) = rb {
        return Err(e);
    }
    let rs = check_set_list_strings(v, vt);
    if let Err(e) = rs {
        return Err(e);
    }
    Ok(())
}

fn check_set_list_reals(v: &VarValues, vt: &VarTypes) -> (r: Result<(), DtasmError>)
    ensures
        match r {
            Ok(u) => first_set_err_ids(real_ids(v@), VariableType::DtasmReal, vt.map_view()) is None,
            Err(e) => first_set_err_ids(real_ids(v@), VariableType::DtasmReal, vt.map_view())
                == Some(e),
        },
{
    let ghost ids = real_ids(v@);
    let mut i: usize = 0;
    proof {
        assert(ids.skip(0) =~= ids);
    }
    while i < v.real_values.len()
        invariant
            i <= ids.len(),
            ids == real_ids(v@),
            first_set_err_ids(ids, VariableType::DtasmReal, vt.map_view()) == first_set_err_ids(
                ids.skip(i as int),
                VariableType::DtasmReal,
                vt.map_view(),
            ),
        decreases ids.len() - i,
    {
        let id = v.real_values[i].0;
        if let Err(e) = check_set_entry(id, VariableType::DtasmReal, vt) {
            return Err(e);
        }
        proof {
            assert(ids.skip(i as int).skip(1) =~= ids.skip(i + 1 as int));
        }
        i = i + 1;
    }
    Ok(())
}

fn check_set_list_ints(v: &VarValues, vt: &VarTypes) -> (r: Result<(), DtasmError>)
    ensures
        match r {
            Ok(u) => first_set_err_ids(int_ids(v@), VariableType::DtasmInt, vt.map_view()) is None,
            Err(e) => first_set_err_ids(int_ids(v@), VariableType::DtasmInt, vt.map_view()) == Some(
                e,
            ),
        },
{
    let ghost ids = int_ids(v@);
    let mut i: usize = 0;
    proof {
        assert(ids.skip(0) =~= ids);
    }
    while i < v.int_values.len()
        invariant
            i <= ids.len(),
            ids == int_ids(v@),
            first_set_err_ids(ids, VariableType::DtasmInt, vt.map_view()) == first_set_err_ids(
                ids.skip(i as int),
                VariableType::DtasmInt,
                vt.map_view(),
            ),
        decreases ids.len() - i,
    {
        let id = v.int_values[i].0;
        if let Err(e) = check_set_entry(id, VariableType::DtasmInt, vt) {
            return Err(e);
        }
        proof {
            assert(ids.skip(i as int).skip(1) =~= ids.skip(i + 1 as int));
        }
        i = i + 1;
    }
    Ok(())
}

fn check_set_list_bools(v: &VarValues, vt: &VarTypes) -> (r: Result<(), DtasmError>)
    ensures
        match r {
            Ok(u) => first_set_err_ids(bool_ids(v@), VariableType::DtasmBool, vt.map_view()) is None,
            Err(e) => first_set_err_ids(bool_ids(v@), VariableType::DtasmBool, vt.map_view())
                == Some(e),
        },
{
    let ghost ids = bool_ids(v@);
    let mut i: usize = 0;
    proof {
        assert(ids.skip(0) =~= ids);
    }
    while i < v.bool_values.len()
        invariant
            i <= ids.len(),
            ids == bool_ids(v@),
            first_set_err_ids(ids, VariableType::DtasmBool, vt.map_view()) == first_set_err_ids(
                ids.skip(i as int),
                VariableType::DtasmBool,
                vt.map_view(),
            ),
        decreases ids.len() - i,
    {
        let id = v.bool_values[i].0;
        if let Err(e) = check_set_entry(id, VariableType::DtasmBool, vt) {
            return Err(e);
        }
        proof {
            assert(ids.skip(i as int).skip(1) =~= ids.skip(i + 1 as int));
        }
        i = i + 1;
    }
    Ok(())
}

fn check_set_list_strings(v: &VarValues, vt: &VarTypes) -> (r: Result<(), DtasmError>)
    ensures
        match r {
            Ok(u) => first_set_err_ids(string_ids(v@), VariableType::DtasmString, vt.map_view())
                is None,
            Err(e) => first_set_err_ids(string_ids(v@), VariableType::DtasmString, vt.map_view())
                == Some(e),
        },
{
    let ghost ids = string_ids(v@);
    let mut i: usize = 0;
    proof {
        assert(ids.skip(0) =~= ids);
    }
    while i < v.string_values.len()
        invariant
            i <= ids.len(),
            ids == string_ids(v@),
            first_set_err_ids(ids, VariableType::DtasmString, vt.map_view()) == first_set_err_ids(
                ids.skip(i as int),
                VariableType::DtasmString,
                vt.map_view(),
            ),
        decreases ids.len() - i,
    {
        let id = v.string_values[i].0;
        if let Err(e) = check_set_entry(id, VariableType::DtasmString, vt) {
            return Err(e);
        }
        proof {
            assert(ids.skip(i as int).skip(1) =~= ids.skip(i + 1 as int));
        }
        i = i + 1;
    }
    Ok(())
}

// ---------------------------------------------------------------------
// initialize: every id must exist and match its declared value type.
// Causality is deliberately unrestricted here: any variable may carry an
// initial value.
// ---------------------------------------------------------------------

/// The error one `initialize` entry reports, if any.
pub open spec fn init_entry_err(id: i32, expected: VariableType, vt: Map<i32, DtasmVarTypeV>) -> Option<
    DtasmError,
> {
    if !vt.contains_key(id) {
        Some(DtasmError::UnknownVariableId(id))
    } else if vt[id].value_type != expected {
        Some(DtasmError::VariableTypeMismatch(vt[id].value_type, id))
    } else {
        None
    }
}

/// First offending id of one typed list of an `initialize` call.
pub open spec fn first_init_err_ids(
    ids: Seq<i32>,
    expected: VariableType,
    vt: Map<i32, DtasmVarTypeV>,
) -> Option<DtasmError>
    decreases ids.len(),
{
    if ids.len() == 0 {
        None
    } else {
        match init_entry_err(ids[0], expected, vt) {
            Some(e) => Some(e),
            None => first_init_err_ids(ids.skip(1), expected, vt),
        }
    }
}

/// The error an `initialize` call reports for its initial values.
pub open spec fn first_init_err(v: VarValuesV, vt: Map<i32, DtasmVarTypeV>) -> Option<DtasmError> {
    match first_init_err_ids(real_ids(v), VariableType::DtasmReal, vt) {
        Some(e) => Some(e),
        None => match first_init_err_ids(int_ids(v), VariableType::DtasmInt, vt) {
            Some(e) => Some(e),
            None => match first_init_err_ids(bool_ids(v), VariableType::DtasmBool, vt) {
                Some(e) => Some(e),
                None => first_init_err_ids(string_ids(v), VariableType::DtasmString, vt),
            },
        },
    }
}

/// Checks one entry of an `initialize` call.
fn check_init_entry(id: i32, expected: VariableType, vt: &VarTypes) -> (r: Result<(), DtasmError>)
    ensures
        match r {
            Ok(u) => init_entry_err(id, expected, vt.map_view()) is None,
            Err(e) => init_entry_err(id, expected, vt.map_view()) == Some(e),
        },
{
    match lookup(vt, id) {
        None => Err(DtasmError::UnknownVariableId(id)),
        Some(v) => {
            if !same_variable_type(v.value_type, expected) {
                Err(DtasmError::VariableTypeMismatch(v.value_type, id))
            } else {
                Ok(())
            }
        },
    }
}

/// Validates the initial values of an `initialize` call.
pub fn check_init_values(v: &VarValues, vt: &VarTypes) -> (r: Result<(), DtasmError>)
    ensures
        match r {
            Ok(u) => first_init_err(v@, vt.map_view()) is None,
            Err(e) => first_init_err(v@, vt.map_view()) == Some(e),
        },
{
    let rr = check_init_list_reals(v, vt);
    if let Err(e) = rr {
        return Err(e);
    }
    let ri = check_init_list_ints(v, vt);
    if let Err(e) = ri {
        return Err(e);
    }
    let rb = check_init_list_bools(v, vt);
    if let Err(e) = rb {
        return Err(e);
    }
    let rs = check_init_list_strings(v, vt);
    if let Err(e) = rs {
        return Err(e);
    }
    Ok(())
}

fn check_init_list_reals(v: &VarValues, vt: &VarTypes) -> (r: Result<(), DtasmError>)
    ensures
        match r {
            Ok(u) => first_init_err_ids(real_ids(v@), VariableType::DtasmReal, vt.map_view())
                is None,
            Err(e) => first_init_err_ids(real_ids(v@), VariableType::DtasmReal, vt.map_view())
                == Some(e),
        },
{
    let ghost ids = real_ids(v@);
    let mut i: usize = 0;
    proof {
        assert(ids.skip(0) =~= ids);
    }
    while i < v.real_values.len()
        invariant
            i <= ids.len(),
            ids == real_ids(v@),
            first_init_err_ids(ids, VariableType::DtasmReal, vt.map_view()) == first_init_err_ids(
                ids.skip(i as int),
                VariableType::DtasmReal,
                vt.map_view(),
            ),
        decreases ids.len() - i,
    {
        let id = v.real_values[i].0;
        if let Err(e) = check_init_entry(id, VariableType::DtasmReal, vt) {
            return Err(e);
        }
        proof {
            assert(ids.skip(i as int).skip(1) =~= ids.skip(i + 1 as int));
        }
        i = i + 1;
    }
    Ok(())
}

fn check_init_list_ints(v: &VarValues, vt: &VarTypes) -> (r: Result<(), DtasmError>)
    ensures
        match r {
            Ok(u) => first_init_err_ids(int_ids(v@), VariableType::DtasmInt, vt.map_view()) is None,
            Err(e) => first_init_err_ids(int_ids(v@), VariableType::DtasmInt, vt.map_view())
                == Some(e),
        },
{
    let ghost ids = int_ids(v@);
    let mut i: usize = 0;
    proof {
        assert(ids.skip(0) =~= ids);
    }
    while i < v.int_values.len()
        invariant
            i <= ids.len(),
            ids == int_ids(v@),
            first_init_err_ids(ids, VariableType::DtasmInt, vt.map_view()) == first_init_err_ids(
                ids.skip(i as int),
                VariableType::DtasmInt,
                vt.map_view(),
            ),
        decreases ids.len() - i,
    {
        let id = v.int_values[i].0;
        if let Err(e) = check_init_entry(id, VariableType::DtasmInt, vt) {
            return Err(e);
        }
        proof {
            assert(ids.skip(i as int).skip(1) =~= ids.skip(i + 1 as int));
        }
        i = i + 1;
    }
    Ok(())
}

fn check_init_list_bools(v: &VarValues, vt: &VarTypes) -> (r: Result<(), DtasmError>)
    ensures
        match r {
            Ok(u) => first_init_err_ids(bool_ids(v@), VariableType::DtasmBool, vt.map_view())
                is None,
            Err(e) => first_init_err_ids(bool_ids(v@), VariableType::DtasmBool, vt.map_view())
                == Some(e),
        },
{
    let ghost ids = bool_ids(v@);
    let mut i: usize = 0;
    proof {
        assert(ids.skip(0) =~= ids);
    }
    while i < v.bool_values.len()
        invariant
            i <= ids.len(),
            ids == bool_ids(v@),
            first_init_err_ids(ids, VariableType::DtasmBool, vt.map_view()) == first_init_err_ids(
                ids.skip(i as int),
                VariableType::DtasmBool,
                vt.map_view(),
            ),
        decreases ids.len() - i,
    {
        let id = v.bool_values[i].0;
        if let Err(e) = check_init_entry(id, VariableType::DtasmBool, vt) {
            return Err(e);
        }
        proof {
            assert(ids.skip(i as int).skip(1) =~= ids.skip(i + 1 as int));
        }
        i = i + 1;
    }
    Ok(())
}

fn check_init_list_strings(v: &VarValues, vt: &VarTypes) -> (r: Result<(), DtasmError>)
    ensures
        match r {
            Ok(u) => first_init_err_ids(string_ids(v@), VariableType::DtasmString, vt.map_view())
                is None,
            Err(e) => first_init_err_ids(string_ids(v@), VariableType::DtasmString, vt.map_view())
                == Some(e),
        },
{
    let ghost ids = string_ids(v@);
    let mut i: usize = 0;
    proof {
        assert(ids.skip(0) =~= ids);
    }
    while i < v.string_values.len()
        invariant
            i <= ids.len(),
            ids == string_ids(v@),
            first_init_err_ids(ids, VariableType::DtasmString, vt.map_view())
                == first_init_err_ids(ids.skip(i as int), VariableType::DtasmString, vt.map_view()),
        decreases ids.len() - i,
    {
        let id = v.string_values[i].0;
        if let Err(e) = check_init_entry(id, VariableType::DtasmString, vt) {
            return Err(e);
        }
        proof {
            assert(ids.skip(i as int).skip(1) =~= ids.skip(i + 1 as int));
        }
        i = i + 1;
    }
    Ok(())
}

// ---------------------------------------------------------------------
// Response re-validation: every id a response names is held against the
// request-time index before the values are handed to the caller.
// ---------------------------------------------------------------------

/// The error one returned entry reports, if any; the expected type is the
/// type of the list the entry arrived in.
pub open spec fn extract_entry_err(id: i32, expected: VariableType, vt: Map<i32, DtasmVarTypeV>) -> Option<
    DtasmError,
> {
    if !vt.contains_key(id) {
        Some(DtasmError::UnknownVariableId(id))
    } else if vt[id].value_type != expected {
        Some(DtasmError::VariableTypeMismatch(expected, id))
    } else {
        None
    }
}

pub open spec fn first_extract_err_reals(s: Seq<(i32, u64)>, vt: Map<i32, DtasmVarTypeV>) -> Option<
    DtasmError,
>
    decreases s.len(),
{
    if s.len() == 0 {
        None
    } else {
        match extract_entry_err(s[0].0, VariableType::DtasmReal, vt) {
            Some(e) => Some(e),
            None => first_extract_err_reals(s.skip(1), vt),
        }
    }
}

pub open spec fn first_extract_err_ints(s: Seq<(i32, i32)>, vt: Map<i32, DtasmVarTypeV>) -> Option<
    DtasmError,
>
    decreases s.len(),
{
    if s.len() == 0 {
        None
    } else {
        match extract_entry_err(s[0].0, VariableType::DtasmInt, vt) {
            Some(e) => Some(e),
            None => first_extract_err_ints(s.skip(1), vt),
        }
    }
}

pub open spec fn first_extract_err_bools(s: Seq<(i32, bool)>, vt: Map<i32, DtasmVarTypeV>) -> Option<
    DtasmError,
>
    decreases s.len(),
{
    if s.len() == 0 {
        None
    } else {
        match extract_entry_err(s[0].0, VariableType::DtasmBool, vt) {
            Some(e) => Some(e),
            None => first_extract_err_bools(s.skip(1), vt),
        }
    }
}

/// A string entry whose value is absent errs before its id is looked up.
pub open spec fn first_extract_err_strings(
    s: Seq<(i32, Option<Seq<u8>>)>,
    vt: Map<i32, DtasmVarTypeV>,
) -> Option<DtasmError>
    decreases s.len(),
{
    if s.len() == 0 {
        None
    } else {
        match s[0].1 {
            None => Some(DtasmError::InvalidVariableValue(s[0].0)),
            Some(v) => match extract_entry_err(s[0].0, VariableType::DtasmString, vt) {
                Some(e) => Some(e),
                None => first_extract_err_strings(s.skip(1), vt),
            },
        }
    }
}

/// The error a response's value map reports: real entries first, then
/// int, bool and string entries.
pub open spec fn first_extract_err(w: WireVarValuesV, vt: Map<i32, DtasmVarTypeV>) -> Option<
    DtasmError,
> {
    match first_extract_err_reals(w.reals, vt) {
        Some(e) => Some(e),
        None => match first_extract_err_ints(w.ints, vt) {
            Some(e) => Some(e),
            None => match first_extract_err_bools(w.bools, vt) {
                Some(e) => Some(e),
                None => first_extract_err_strings(w.strings, vt),
            },
        },
    }
}

/// The string entries of a clean response, their values unwrapped.
pub open spec fn unwrapped_strings(s: Seq<(i32, Option<Seq<u8>>)>) -> Seq<(i32, Seq<u8>)> {
    Seq::new(
        s.len(),
        |i: int| (s[i].0, match s[i].1 {
            Some(v) => v,
            None => Seq::empty(),
        }),
    )
}

fn check_extract_entry(id: i32, expected: VariableType, vt: &VarTypes) -> (r: Result<
    (),
    DtasmError,
>)
    ensures
        match r {
            Ok(u) => extract_entry_err(id, expected, vt.map_view()) is None,
            Err(e) => extract_entry_err(id, expected, vt.map_view()) == Some(e),
        },
{
    match lookup(vt, id) {
        None => Err(DtasmError::UnknownVariableId(id)),
        Some(v) => {
            if !same_variable_type(v.value_type, expected) {
                Err(DtasmError::VariableTypeMismatch(expected, id))
            } else {
                Ok(())
            }
        },
    }
}

/// Re-validates a decoded response and hands its values to the caller.
#[verifier::rlimit(100)]
pub fn extract_vals(w: &WireVarValues, vt: &VarTypes) -> (r: Result<VarValues, DtasmError>)
    ensures
        match r {
            Ok(v) => first_extract_err(w@, vt.map_view()) is None && v@.reals == w@.reals
                && v@.ints == w@.ints && v@.bools == w@.bools && v@.strings == unwrapped_strings(
                w@.strings,
            ),
            Err(e) => first_extract_err(w@, vt.map_view()) == Some(e),
        },
{
    // Validate the four lists in response order.
    let mut i: usize = 0;
    proof {
        assert(w@.reals.skip(0) =~= w@.reals);
    }
    while i < w.real_values.len()
        invariant
            i <= w@.reals.len(),
            first_extract_err_reals(w@.reals, vt.map_view()) == first_extract_err_reals(
                w@.reals.skip(i as int),
                vt.map_view(),
            ),
        decreases w@.reals.len() - i,
    {
        if let Err(e) = check_extract_entry(w.real_values[i].0, VariableType::DtasmReal, vt) {
            return Err(e);
        }
        proof {
            assert(w@.reals.skip(i as int).skip(1) =~= w@.reals.skip(i + 1 as int));
        }
        i = i + 1;
    }
    let mut i: usize = 0;
    proof {
        assert(w@.ints.skip(0) =~= w@.ints);
    }
    while i < w.int_values.len()
        invariant
            i <= w@.ints.len(),
            first_extract_err_reals(w@.reals, vt.map_view()) is None,
            first_extract_err_ints(w@.ints, vt.map_view()) == first_extract_err_ints(
                w@.ints.skip(i as int),
                vt.map_view(),
            ),
        decreases w@.ints.len() - i,
    {
        if let Err(e) = check_extract_entry(w.int_values[i].0, VariableType::DtasmInt, vt) {
            return Err(e);
        }
        proof {
            assert(w@.ints.skip(i as int).skip(1) =~= w@.ints.skip(i + 1 as int));
        }
        i = i + 1;
    }
    let mut i: usize = 0;
    proof {
        assert(w@.bools.skip(0) =~= w@.bools);
    }
    while i < w.bool_values.len()
        invariant
            i <= w@.bools.len(),
            first_extract_err_reals(w@.reals, vt.map_view()) is None,
            first_extract_err_ints(w@.ints, vt.map_view()) is None,
            first_extract_err_bools(w@.bools, vt.map_view()) == first_extract_err_bools(
                w@.bools.skip(i as int),
                vt.map_view(),
            ),
        decreases w@.bools.len() - i,
    {
        if let Err(e) = check_extract_entry(w.bool_values[i].0, VariableType::DtasmBool, vt) {
            return Err(e);
        }
        proof {
            assert(w@.bools.skip(i as int).skip(1) =~= w@.bools.skip(i + 1 as int));
        }
        i = i + 1;
    }
    let mut i: usize = 0;
    proof {
        assert(w@.strings.skip(0) =~= w@.strings);
    }
    while i < w.string_values.len()
        invariant
            i <= w@.strings.len(),
            first_extract_err_reals(w@.reals, vt.map_view()) is None,
            first_extract_err_ints(w@.ints, vt.map_view()) is None,
            first_extract_err_bools(w@.bools, vt.map_view()) is None,
            first_extract_err_strings(w@.strings, vt.map_view()) == first_extract_err_strings(
                w@.strings.skip(i as int),
                vt.map_view(),
            ),
        decreases w@.strings.len() - i,
    {
        proof {
            assert(w@.strings[i as int] == wire_string_view(w.string_values@[i as int]));
        }
        match &w.string_values[i].1 {
            None => {
                return Err(DtasmError::InvalidVariableValue(w.string_values[i].0));
            },
            Some(v) => {
                if let Err(e) = check_extract_entry(
                    w.string_values[i].0,
                    VariableType::DtasmString,
                    vt,
                ) {
                    return Err(e);
                }
            },
        }
        proof {
            assert(w@.strings.skip(i as int).skip(1) =~= w@.strings.skip(i + 1 as int));
        }
        i = i + 1;
    }
    // Everything is clean: copy the values out.
    let mut reals: Vec<(i32, u64)> = Vec::new();
    let mut i: usize = 0;
    while i < w.real_values.len()
        invariant
            i <= w@.reals.len(),
            reals@ == w@.reals.subrange(0, i as int),
        decreases w@.reals.len() - i,
    {
        reals.push(w.real_values[i]);
        proof {
            assert(reals@ =~= w@.reals.subrange(0, i + 1 as int));
        }
        i = i + 1;
    }
    let mut ints: Vec<(i32, i32)> = Vec::new();
    let mut i: usize = 0;
    while i < w.int_values.len()
        invariant
            i <= w@.ints.len(),
            ints@ == w@.ints.subrange(0, i as int),
        decreases w@.ints.len() - i,
    {
        ints.push(w.int_values[i]);
        proof {
            assert(ints@ =~= w@.ints.subrange(0, i + 1 as int));
        }
        i = i + 1;
    }
    let mut bools: Vec<(i32, bool)> = Vec::new();
    let mut i: usize = 0;
    while i < w.bool_values.len()
        invariant
            i <= w@.bools.len(),
            bools@ == w@.bools.subrange(0, i as int),
        decreases w@.bools.len() - i,
    {
        bools.push(w.bool_values[i]);
        proof {
            assert(bools@ =~= w@.bools.subrange(0, i + 1 as int));
        }
        i = i + 1;
    }
    let mut strings: Vec<(i32, Vec<u8>)> = Vec::new();
    let mut i: usize = 0;
    proof {
        lemma_clean_strings_all_present(w@.strings, vt.map_view());
    }
    while i < w.string_values.len()
        invariant
            i <= w@.strings.len(),
            forall|j: int| 0 <= j < w@.strings.len() ==> (#[trigger] w@.strings[j]).1 is Some,
            forall|j: int| 0 <= j < w.string_values@.len() ==> w@.strings[j]
                == #[trigger] wire_string_view(w.string_values@[j]),
            strings@.len() == i,
            forall|j: int| 0 <= j < i ==> (#[trigger] strings@[j]).0 == unwrapped_strings(
                w@.strings,
            )[j].0 && strings@[j].1@ == unwrapped_strings(w@.strings)[j].1,
        decreases w@.strings.len() - i,
    {
        let id = w.string_values[i].0;
        match &w.string_values[i].1 {
            None => {
                // The validation pass above has established that every
                // string value is present; this arm cannot be reached.
                proof {
                    assert(w@.strings[i as int] == wire_string_view(w.string_values@[i as int]));
                    assert(w@.strings[i as int].1 is Some);
                }
                return Err(DtasmError::InvalidVariableValue(id));
            },
            Some(v) => {
                strings.push((id, clone_bytes(v)));
            },
        }
        i = i + 1;
    }
    let out = VarValues {
        real_values: reals,
        int_values: ints,
        bool_values: bools,
        string_values: strings,
    };
    proof {
        assert(out@.reals =~= w@.reals);
        assert(out@.ints =~= w@.ints);
        assert(out@.bools =~= w@.bools);
        assert(out@.strings =~= unwrapped_strings(w@.strings));
    }
    Ok(out)
}

/// A string list that validates cleanly has every value present.
proof fn lemma_clean_strings_all_present(
    s: Seq<(i32, Option<Seq<u8>>)>,
    vt: Map<i32, DtasmVarTypeV>,
)
    requires
        first_extract_err_strings(s, vt) is None,
    ensures
        forall|j: int| 0 <= j < s.len() ==> (#[trigger] s[j]).1 is Some,
    decreases s.len(),
{
    if s.len() > 0 {
        lemma_clean_strings_all_present(s.skip(1), vt);
        assert forall|j: int| 0 <= j < s.len() implies (#[trigger] s[j]).1 is Some by {
            if j > 0 {
                assert(s[j] == s.skip(1)[j - 1]);
            }
        }
    }
}


// ---------------------------------------------------------------------
// Round trip over the wire: a value map that passes initialize-time
// validation re-validates cleanly when it comes back in a response, and
// its entries come back unchanged.
// ---------------------------------------------------------------------

proof fn lemma_reals_revalidate(s: Seq<(i32, u64)>, vt: Map<i32, DtasmVarTypeV>)
    requires
        first_init_err_ids(Seq::new(s.len(), |i: int| s[i].0), VariableType::DtasmReal, vt)
            is None,
    ensures
        first_extract_err_reals(s, vt) is None,
    decreases s.len(),
{
    if s.len() > 0 {
        let ids = Seq::new(s.len(), |i: int| s[i].0);
        assert(ids[0] == s[0].0);
        assert(ids.skip(1) =~= Seq::new(s.skip(1).len(), |i: int| s.skip(1)[i].0));
        lemma_reals_revalidate(s.skip(1), vt);
    }
}

proof fn lemma_ints_revalidate(s: Seq<(i32, i32)>, vt: Map<i32, DtasmVarTypeV>)
    requires
        first_init_err_ids(Seq::new(s.len(), |i: int| s[i].0), VariableType::DtasmInt, vt) is None,
    ensures
        first_extract_err_ints(s, vt) is None,
    decreases s.len(),
{
    if s.len() > 0 {
        let ids = Seq::new(s.len(), |i: int| s[i].0);
        assert(ids[0] == s[0].0);
        assert(ids.skip(1) =~= Seq::new(s.skip(1).len(), |i: int| s.skip(1)[i].0));
        lemma_ints_revalidate(s.skip(1), vt);
    }
}

proof fn lemma_bools_revalidate(s: Seq<(i32, bool)>, vt: Map<i32, DtasmVarTypeV>)
    requires
        first_init_err_ids(Seq::new(s.len(), |i: int| s[i].0), VariableType::DtasmBool, vt)
            is None,
    ensures
        first_extract_err_bools(s, vt) is None,
    decreases s.len(),
{
    if s.len() > 0 {
        let ids = Seq::new(s.len(), |i: int| s[i].0);
        assert(ids[0] == s[0].0);
        assert(ids.skip(1) =~= Seq::new(s.skip(1).len(), |i: int| s.skip(1)[i].0));
        lemma_bools_revalidate(s.skip(1), vt);
    }
}

proof fn lemma_strings_revalidate(s: Seq<(i32, Seq<u8>)>, vt: Map<i32, DtasmVarTypeV>)
    requires
        first_init_err_ids(Seq::new(s.len(), |i: int| s[i].0), VariableType::DtasmString, vt)
            is None,
    ensures
        first_extract_err_strings(Seq::new(s.len(), |i: int| (s[i].0, Some(s[i].1))), vt) is None,
    decreases s.len(),
{
    if s.len() > 0 {
        let ids = Seq::new(s.len(), |i: int| s[i].0);
        let image = Seq::new(s.len(), |i: int| (s[i].0, Some(s[i].1)));
        assert(ids[0] == s[0].0);
        assert(image[0] == (s[0].0, Some(s[0].1)));
        assert(ids.skip(1) =~= Seq::new(s.skip(1).len(), |i: int| s.skip(1)[i].0));
        assert(image.skip(1) =~= Seq::new(
            s.skip(1).len(),
            |i: int| (s.skip(1)[i].0, Some(s.skip(1)[i].1)),
        ));
        lemma_strings_revalidate(s.skip(1), vt);
    }
}

/// A value map whose ids are all known with matching declared types comes
/// back from the wire unchanged: its wire image re-validates without an
/// error, and unwrapping the wire strings restores the original entries.
pub proof fn lemma_wire_round_trip_revalidates(v: VarValuesV, vt: Map<i32, DtasmVarTypeV>)
    requires
        first_init_err(v, vt) is None,
    ensures
        first_extract_err(crate::codec::wire_of(v), vt) is None,
        unwrapped_strings(crate::codec::wire_of(v).strings) == v.strings,
{
    let w = crate::codec::wire_of(v);
    assert(Seq::new(v.reals.len(), |i: int| v.reals[i].0) =~= real_ids(v));
    assert(Seq::new(v.ints.len(), |i: int| v.ints[i].0) =~= int_ids(v));
    assert(Seq::new(v.bools.len(), |i: int| v.bools[i].0) =~= bool_ids(v));
    assert(Seq::new(v.strings.len(), |i: int| v.strings[i].0) =~= string_ids(v));
    lemma_reals_revalidate(v.reals, vt);
    lemma_ints_revalidate(v.ints, vt);
    lemma_bools_revalidate(v.bools, vt);
    lemma_strings_revalidate(v.strings, vt);
    assert(w.strings =~= Seq::new(v.strings.len(), |i: int| (v.strings[i].0, Some(v.strings[i].1))));
    assert(unwrapped_strings(w.strings) =~= v.strings);
}


/// Response re-validation reports only its three error shapes: an unknown
/// id, a type conflict, or an absent string value.
pub open spec fn is_extract_err_shape(e: DtasmError) -> bool {
    ||| e matches DtasmError::UnknownVariableId(_)
    ||| e matches DtasmError::VariableTypeMismatch(_, _)
    ||| e matches DtasmError::InvalidVariableValue(_)
}

proof fn lemma_extract_reals_shape(s: Seq<(i32, u64)>, vt: Map<i32, DtasmVarTypeV>)
    ensures
        first_extract_err_reals(s, vt) matches Some(e) ==> is_extract_err_shape(e),
    decreases s.len(),
{
    if s.len() > 0 {
        lemma_extract_reals_shape(s.skip(1), vt);
    }
}

proof fn lemma_extract_ints_shape(s: Seq<(i32, i32)>, vt: Map<i32, DtasmVarTypeV>)
    ensures
        first_extract_err_ints(s, vt) matches Some(e) ==> is_extract_err_shape(e),
    decreases s.len(),
{
    if s.len() > 0 {
        lemma_extract_ints_shape(s.skip(1), vt);
    }
}

proof fn lemma_extract_bools_shape(s: Seq<(i32, bool)>, vt: Map<i32, DtasmVarTypeV>)
    ensures
        first_extract_err_bools(s, vt) matches Some(e) ==> is_extract_err_shape(e),
    decreases s.len(),
{
    if s.len() > 0 {
        lemma_extract_bools_shape(s.skip(1), vt);
    }
}

proof fn lemma_extract_strings_shape(s: Seq<(i32, Option<Seq<u8>>)>, vt: Map<i32, DtasmVarTypeV>)
    ensures
        first_extract_err_strings(s, vt) matches Some(e) ==> is_extract_err_shape(e),
    decreases s.len(),
{
    if s.len() > 0 {
        lemma_extract_strings_shape(s.skip(1), vt);
    }
}

/// Whatever a response held, its re-validation error has one of the three
/// shapes above.
pub proof fn lemma_extract_err_shape(w: WireVarValuesV, vt: Map<i32, DtasmVarTypeV>)
    ensures
        first_extract_err(w, vt) matches Some(e) ==> is_extract_err_shape(e),
{
    lemma_extract_reals_shape(w.reals, vt);
    lemma_extract_ints_shape(w.ints, vt);
    lemma_extract_bools_shape(w.bools, vt);
    lemma_extract_strings_shape(w.strings, vt);
}

} // verus!
