//! The reference guest: an adder that implements the sim lifecycle.
//!
//! It declares nine variables: three real (two inputs and their sum),
//! three int (wrapping sum), and three bool (conjunction).  Real values
//! and the clock are IEEE-754 bit patterns; the two real additions are
//! delegated to a caller-supplied `RealOps` capability, since verified
//! code carries the patterns but does not compute with them.

use vstd::prelude::*;
use crate::types::{ModelDescription, ModelVariable, ModelVariableV, VarValue, VarValues,
    GetValuesResponse, DoStepResponse, CausalityType, VariableType, Status};

verus! {

/// Arithmetic on real bit patterns, supplied by the embedder.
pub trait RealOps {
    /// The bit pattern of the sum of the two doubles the arguments encode.
    fn real_add(&self, a: u64, b: u64) -> u64;
}

/// What the adder's guest-side errors can be.
#[derive(Clone, Copy, Debug, PartialEq, Eq, Structural)]
pub enum GuestError {
    UnknownVariableId,
}

/// The nine roles of the adder's variables.
#[derive(Clone, Copy, Debug, PartialEq, Eq, Structural)]
pub enum AddVar {
    RI1,
    RI2,
    RO,
    II1,
    II2,
    IO,
    BI1,
    BI2,
    BO,
}

/// The adder's variable names, as UTF-8 bytes.
pub open spec fn name_ri1() -> Seq<u8> {
    seq![82u8, 73u8, 49u8]
}

pub open spec fn name_ri2() -> Seq<u8> {
    seq![82u8, 73u8, 50u8]
}

pub open spec fn name_ro() -> Seq<u8> {
    seq![82u8, 79u8]
}

pub open spec fn name_ii1() -> Seq<u8> {
    seq![73u8, 73u8, 49u8]
}

pub open spec fn name_ii2() -> Seq<u8> {
    seq![73u8, 73u8, 50u8]
}

pub open spec fn name_io() -> Seq<u8> {
    seq![73u8, 79u8]
}

pub open spec fn name_bi1() -> Seq<u8> {
    seq![66u8, 73u8, 49u8]
}

pub open spec fn name_bi2() -> Seq<u8> {
    seq![66u8, 73u8, 50u8]
}

pub open spec fn name_bo() -> Seq<u8> {
    seq![66u8, 79u8]
}

/// The role a variable name denotes, if any.
pub open spec fn name_to_var_spec(name: Seq<u8>) -> Option<AddVar> {
    if name == name_ri1() {
        Some(AddVar::RI1)
    } else if name == name_ri2() {
        Some(AddVar::RI2)
    } else if name == name_ro() {
        Some(AddVar::RO)
    } else if name == name_ii1() {
        Some(AddVar::II1)
    } else if name == name_ii2() {
        Some(AddVar::II2)
    } else if name == name_io() {
        Some(AddVar::IO)
    } else if name == name_bi1() {
        Some(AddVar::BI1)
    } else if name == name_bi2() {
        Some(AddVar::BI2)
    } else if name == name_bo() {
        Some(AddVar::BO)
    } else {
        None
    }
}

/// Compares two byte strings.
pub fn bytes_eq(a: &Vec<u8>, b: &Vec<u8>) -> (r: bool)
    ensures
        r == (a@ == b@),
{
    if a.len() != b.len() {
        proof {
            assert(a@.len() != b@.len());
        }
        return false;
    }
    let mut i: usize = 0;
    while i < a.len()
        invariant
            i <= a@.len(),
            a@.len() == b@.len(),
            forall|j: int| 0 <= j < i ==> a@[j] == b@[j],
        decreases a@.len() - i,
    {
        if a[i] != b[i] {
            return false;
        }
        i = i + 1;
    }
    proof {
        assert(a@ =~= b@);
    }
    true
}

/// One exact byte-string constant.
fn name_vec(which: AddVar) -> (r: Vec<u8>)
    ensures
        name_to_var_spec(r@) == Some(which),
        r@.len() <= 3,
{
    let v: Vec<u8> = match which {
        AddVar::RI1 => vec![82u8, 73u8, 49u8],
        AddVar::RI2 => vec![82u8, 73u8, 50u8],
        AddVar::RO => vec![82u8, 79u8],
        AddVar::II1 => vec![73u8, 73u8, 49u8],
        AddVar::II2 => vec![73u8, 73u8, 50u8],
        AddVar::IO => vec![73u8, 79u8],
        AddVar::BI1 => vec![66u8, 73u8, 49u8],
        AddVar::BI2 => vec![66u8, 73u8, 50u8],
        AddVar::BO => vec![66u8, 79u8],
    };
    proof {
        assert(name_ri1() =~= seq![82u8, 73u8, 49u8]);
        assert(name_ri2() =~= seq![82u8, 73u8, 50u8]);
        assert(name_ro() =~= seq![82u8, 79u8]);
        assert(name_ii1() =~= seq![73u8, 73u8, 49u8]);
        assert(name_ii2() =~= seq![73u8, 73u8, 50u8]);
        assert(name_io() =~= seq![73u8, 79u8]);
        assert(name_bi1() =~= seq![66u8, 73u8, 49u8]);
        assert(name_bi2() =~= seq![66u8, 73u8, 50u8]);
        assert(name_bo() =~= seq![66u8, 79u8]);
    }
    v
}

/// The role a variable name denotes, executable twin.
pub fn name_to_var(name: &Vec<u8>) -> (r: Option<AddVar>)
    ensures
        r == name_to_var_spec(name@),
{
    if bytes_eq(name, &name_vec(AddVar::RI1)) {
        Some(AddVar::RI1)
    } else if bytes_eq(name, &name_vec(AddVar::RI2)) {
        Some(AddVar::RI2)
    } else if bytes_eq(name, &name_vec(AddVar::RO)) {
        Some(AddVar::RO)
    } else if bytes_eq(name, &name_vec(AddVar::II1)) {
        Some(AddVar::II1)
    } else if bytes_eq(name, &name_vec(AddVar::II2)) {
        Some(AddVar::II2)
    } else if bytes_eq(name, &name_vec(AddVar::IO)) {
        Some(AddVar::IO)
    } else if bytes_eq(name, &name_vec(AddVar::BI1)) {
        Some(AddVar::BI1)
    } else if bytes_eq(name, &name_vec(AddVar::BI2)) {
        Some(AddVar::BI2)
    } else if bytes_eq(name, &name_vec(AddVar::BO)) {
        Some(AddVar::BO)
    } else {
        None
    }
}

/// The id-to-role map a model description denotes, in declaration order.
pub open spec fn var_map_spec(vars: Seq<ModelVariableV>) -> Seq<(i32, AddVar)>
    decreases vars.len(),
{
    if vars.len() == 0 {
        Seq::empty()
    } else {
        match name_to_var_spec(vars[0].name) {
            Some(v) => seq![(vars[0].id, v)] + var_map_spec(vars.skip(1)),
            None => var_map_spec(vars.skip(1)),
        }
    }
}

/// The role an id denotes under a role map; the first entry wins.
pub open spec fn role_of(m: Seq<(i32, AddVar)>, id: i32) -> Option<AddVar>
    decreases m.len(),
{
    if m.len() == 0 {
        None
    } else if m[0].0 == id {
        Some(m[0].1)
    } else {
        role_of(m.skip(1), id)
    }
}

/// Looks a role up.
pub fn lookup_role(m: &Vec<(i32, AddVar)>, id: i32) -> (r: Option<AddVar>)
    ensures
        r == role_of(m@, id),
{
    let mut i: usize = 0;
    proof {
        assert(m@.skip(0) =~= m@);
    }
    while i < m.len()
        invariant
            i <= m@.len(),
            role_of(m@, id) == role_of(m@.skip(i as int), id),
        decreases m@.len() - i,
    {
        if m[i].0 == id {
            return Some(m[i].1);
        }
        proof {
            assert(m@.skip(i as int).skip(1) =~= m@.skip(i + 1 as int));
        }
        i = i + 1;
    }
    None
}

/// One variable of the adder's model description.
fn adder_variable(id: i32, which: AddVar, causality: CausalityType, value_type: VariableType) -> (r:
    ModelVariable)
    ensures
        r@.id == id,
        name_to_var_spec(r@.name) == Some(which),
        r@.causality == causality,
        r@.value_type == value_type,
        r@.default is Some,
        crate::codec::wf_mdvar(r@),
{
    let default = match value_type {
        VariableType::DtasmReal => VarValue::Real(0),
        VariableType::DtasmInt => VarValue::Int(0),
        VariableType::DtasmBool => VarValue::Bool(false),
        VariableType::DtasmString => VarValue::Str(Vec::new()),
    };
    ModelVariable { id, name: name_vec(which), causality, value_type, default: Some(default) }
}

/// The adder advertises nine variables: ids 1 to 9, reals then ints then
/// bools, inputs before the output of each type.
pub fn adder_model_description() -> (r: ModelDescription)
    ensures
        r@.variables.len() == 9,
        var_map_spec(r@.variables) == seq![
            (1i32, AddVar::RI1),
            (2i32, AddVar::RI2),
            (3i32, AddVar::RO),
            (4i32, AddVar::II1),
            (5i32, AddVar::II2),
            (6i32, AddVar::IO),
            (7i32, AddVar::BI1),
            (8i32, AddVar::BI2),
            (9i32, AddVar::BO),
        ],
        forall|i: int| 0 <= i < 9 ==> (#[trigger] r@.variables[i]).id == i + 1,
        r@.variables[0].causality == CausalityType::Input && r@.variables[0].value_type
            == VariableType::DtasmReal,
        r@.variables[1].causality == CausalityType::Input && r@.variables[1].value_type
            == VariableType::DtasmReal,
        r@.variables[2].causality == CausalityType::Output && r@.variables[2].value_type
            == VariableType::DtasmReal,
        r@.variables[3].causality == CausalityType::Input && r@.variables[3].value_type
            == VariableType::DtasmInt,
        r@.variables[4].causality == CausalityType::Input && r@.variables[4].value_type
            == VariableType::DtasmInt,
        r@.variables[5].causality == CausalityType::Output && r@.variables[5].value_type
            == VariableType::DtasmInt,
        r@.variables[6].causality == CausalityType::Input && r@.variables[6].value_type
            == VariableType::DtasmBool,
        r@.variables[7].causality == CausalityType::Input && r@.variables[7].value_type
            == VariableType::DtasmBool,
        r@.variables[8].causality == CausalityType::Output && r@.variables[8].value_type
            == VariableType::DtasmBool,
        r@.id.len() <= u32::MAX,
        crate::codec::wf_md(r@),
{
    let mut variables: Vec<ModelVariable> = Vec::new();
    variables.push(adder_variable(1, AddVar::RI1, CausalityType::Input, VariableType::DtasmReal));
    variables.push(adder_variable(2, AddVar::RI2, CausalityType::Input, VariableType::DtasmReal));
    variables.push(adder_variable(3, AddVar::RO, CausalityType::Output, VariableType::DtasmReal));
    variables.push(adder_variable(4, AddVar::II1, CausalityType::Input, VariableType::DtasmInt));
    variables.push(adder_variable(5, AddVar::II2, CausalityType::Input, VariableType::DtasmInt));
    variables.push(adder_variable(6, AddVar::IO, CausalityType::Output, VariableType::DtasmInt));
    variables.push(adder_variable(7, AddVar::BI1, CausalityType::Input, VariableType::DtasmBool));
    variables.push(adder_variable(8, AddVar::BI2, CausalityType::Input, VariableType::DtasmBool));
    variables.push(adder_variable(9, AddVar::BO, CausalityType::Output, VariableType::DtasmBool));
    // "adder"
    let id: Vec<u8> = vec![97u8, 100u8, 100u8, 101u8, 114u8];
    let r = ModelDescription { id, variables };
    proof {
        let vs = r@.variables;
        assert(vs.len() == 9);
        reveal_with_fuel(var_map_spec, 10);
        assert(vs.skip(1) =~= vs.subrange(1, 9));
        assert(vs.subrange(1, 9).skip(1) =~= vs.subrange(2, 9));
        assert(vs.subrange(2, 9).skip(1) =~= vs.subrange(3, 9));
        assert(vs.subrange(3, 9).skip(1) =~= vs.subrange(4, 9));
        assert(vs.subrange(4, 9).skip(1) =~= vs.subrange(5, 9));
        assert(vs.subrange(5, 9).skip(1) =~= vs.subrange(6, 9));
        assert(vs.subrange(6, 9).skip(1) =~= vs.subrange(7, 9));
        assert(vs.subrange(7, 9).skip(1) =~= vs.subrange(8, 9));
        assert(vs.subrange(8, 9).skip(1) =~= vs.subrange(9, 9));
        assert(vs.subrange(9, 9) =~= Seq::<ModelVariableV>::empty());
        assert(var_map_spec(vs) =~= seq![
            (1i32, AddVar::RI1),
            (2i32, AddVar::RI2),
            (3i32, AddVar::RO),
            (4i32, AddVar::II1),
            (5i32, AddVar::II2),
            (6i32, AddVar::IO),
            (7i32, AddVar::BI1),
            (8i32, AddVar::BI2),
            (9i32, AddVar::BO),
        ]);
    }
    r
}

/// The adder: per-instance owned state, threaded explicitly through the
/// lifecycle calls.
pub struct AddMod {
    pub t: u64,
    pub ri1: u64,
    pub ri2: u64,
    pub ro: u64,
    pub ii1: i32,
    pub ii2: i32,
    pub io: i32,
    pub bi1: bool,
    pub bi2: bool,
    pub bo: bool,
    pub var_map: Vec<(i32, AddVar)>,
    pub initialized: bool,
}

/// The last real value set for a role, or the fallback.
pub open spec fn last_real_for(
    entries: Seq<(i32, u64)>,
    m: Seq<(i32, AddVar)>,
    which: AddVar,
    dflt: u64,
) -> u64
    decreases entries.len(),
{
    if entries.len() == 0 {
        dflt
    } else if role_of(m, entries.last().0) == Some(which) {
        entries.last().1
    } else {
        last_real_for(entries.drop_last(), m, which, dflt)
    }
}

/// The last int value set for a role, or the fallback.
pub open spec fn last_int_for(
    entries: Seq<(i32, i32)>,
    m: Seq<(i32, AddVar)>,
    which: AddVar,
    dflt: i32,
) -> i32
    decreases entries.len(),
{
    if entries.len() == 0 {
        dflt
    } else if role_of(m, entries.last().0) == Some(which) {
        entries.last().1
    } else {
        last_int_for(entries.drop_last(), m, which, dflt)
    }
}

/// The last bool value set for a role, or the fallback.
pub open spec fn last_bool_for(
    entries: Seq<(i32, bool)>,
    m: Seq<(i32, AddVar)>,
    which: AddVar,
    dflt: bool,
) -> bool
    decreases entries.len(),
{
    if entries.len() == 0 {
        dflt
    } else if role_of(m, entries.last().0) == Some(which) {
        entries.last().1
    } else {
        last_bool_for(entries.drop_last(), m, which, dflt)
    }
}

/// Whether every id of the map is known to the role map.
pub open spec fn all_ids_known(v: crate::types::VarValuesV, m: Seq<(i32, AddVar)>) -> bool {
    &&& forall|i: int| 0 <= i < v.reals.len() ==> role_of(m, (#[trigger] v.reals[i]).0) is Some
    &&& forall|i: int| 0 <= i < v.ints.len() ==> role_of(m, (#[trigger] v.ints[i]).0) is Some
    &&& forall|i: int| 0 <= i < v.bools.len() ==> role_of(m, (#[trigger] v.bools[i]).0) is Some
}

/// The first offending id of a `get_values` request: unknown, or not one
/// of the three outputs.
pub open spec fn adder_get_err(ids: Seq<i32>, m: Seq<(i32, AddVar)>) -> Option<i32>
    decreases ids.len(),
{
    if ids.len() == 0 {
        None
    } else {
        match role_of(m, ids[0]) {
            Some(AddVar::RO) => adder_get_err(ids.skip(1), m),
            Some(AddVar::IO) => adder_get_err(ids.skip(1), m),
            Some(AddVar::BO) => adder_get_err(ids.skip(1), m),
            _ => Some(ids[0]),
        }
    }
}

/// The real entries a `get_values` answer carries, in request order.
pub open spec fn reals_answer(ids: Seq<i32>, m: Seq<(i32, AddVar)>, ro: u64) -> Seq<(i32, u64)>
    decreases ids.len(),
{
    if ids.len() == 0 {
        Seq::empty()
    } else if role_of(m, ids[0]) == Some(AddVar::RO) {
        seq![(ids[0], ro)] + reals_answer(ids.skip(1), m, ro)
    } else {
        reals_answer(ids.skip(1), m, ro)
    }
}

/// The int entries a `get_values` answer carries, in request order.
pub open spec fn ints_answer(ids: Seq<i32>, m: Seq<(i32, AddVar)>, io: i32) -> Seq<(i32, i32)>
    decreases ids.len(),
{
    if ids.len() == 0 {
        Seq::empty()
    } else if role_of(m, ids[0]) == Some(AddVar::IO) {
        seq![(ids[0], io)] + ints_answer(ids.skip(1), m, io)
    } else {
        ints_answer(ids.skip(1), m, io)
    }
}

/// The bool entries a `get_values` answer carries, in request order.
pub open spec fn bools_answer(ids: Seq<i32>, m: Seq<(i32, AddVar)>, bo: bool) -> Seq<(i32, bool)>
    decreases ids.len(),
{
    if ids.len() == 0 {
        Seq::empty()
    } else if role_of(m, ids[0]) == Some(AddVar::BO) {
        seq![(ids[0], bo)] + bools_answer(ids.skip(1), m, bo)
    } else {
        bools_answer(ids.skip(1), m, bo)
    }
}

impl AddMod {
    /// A fresh adder: zeroed state, no role map, not yet initialized.
    pub fn new() -> (r: AddMod)
        ensures
            r.t == 0 && r.ri1 == 0 && r.ri2 == 0 && r.ro == 0,
            r.ii1 == 0 && r.ii2 == 0 && r.io == 0,
            !r.bi1 && !r.bi2 && !r.bo,
            r.var_map@.len() == 0,
            !r.initialized,
    {
        AddMod {
            t: 0,
            ri1: 0,
            ri2: 0,
            ro: 0,
            ii1: 0,
            ii2: 0,
            io: 0,
            bi1: false,
            bi2: false,
            bo: false,
            var_map: Vec::new(),
            initialized: false,
        }
    }

    /// The adder's model description.
    pub fn get_model_description(&self) -> (r: ModelDescription)
        ensures
            r@.variables.len() == 9,
            crate::codec::wf_md(r@),
    {
        adder_model_description()
    }

    /// Binds the role map from the model description, zeroes the state,
    /// and starts the clock at the given time.  Initial values are
    /// accepted and ignored, as the adder's contract declares defaults
    /// only.
    pub fn initialize(
        &mut self,
        md: &ModelDescription,
        _initial_vals: &VarValues,
        tmin: u64,
        _tmax: Option<u64>,
        _tol: Option<u64>,
        _log_level: crate::types::LogLevel,
        _check: bool,
    ) -> (r: Result<Status, GuestError>)
        ensures
            r == Ok::<Status, GuestError>(Status::OK),
            final(self).t == tmin,
            final(self).var_map@ == var_map_spec(md@.variables),
            final(self).initialized,
            final(self).ri1 == 0 && final(self).ri2 == 0 && final(self).ro == 0,
            final(self).ii1 == 0 && final(self).ii2 == 0 && final(self).io == 0,
            !final(self).bi1 && !final(self).bi2 && !final(self).bo,
    {
        let mut m: Vec<(i32, AddVar)> = Vec::new();
        let mut i: usize = 0;
        let ghost vars = md@.variables;
        proof {
            assert(vars.skip(0) =~= vars);
            assert(m@ + var_map_spec(vars) =~= var_map_spec(vars));
        }
        while i < md.variables.len()
            invariant
                i <= md.variables@.len(),
                vars == md@.variables,
                vars.len() == md.variables@.len(),
                forall|j: int| 0 <= j < vars.len() ==> vars[j] == #[trigger] md.variables@[j]@,
                var_map_spec(vars) == m@ + var_map_spec(vars.skip(i as int)),
            decreases md.variables@.len() - i,
        {
            let v = &md.variables[i];
            proof {
                assert(vars.skip(i as int)[0] == vars[i as int]);
                assert(vars.skip(i as int).skip(1) =~= vars.skip(i + 1 as int));
            }
            match name_to_var(&v.name) {
                Some(role) => {
                    m.push((v.id, role));
                    proof {
                        assert(var_map_spec(vars) =~= m@ + var_map_spec(vars.skip(i + 1 as int)));
                    }
                },
                None => {
                    proof {
                        assert(var_map_spec(vars) =~= m@ + var_map_spec(vars.skip(i + 1 as int)));
                    }
                },
            }
            i = i + 1;
        }
        proof {
            assert(vars.skip(vars.len() as int) =~= Seq::<ModelVariableV>::empty());
            assert(var_map_spec(vars) =~= m@);
        }
        self.t = tmin;
        self.ri1 = 0;
        self.ri2 = 0;
        self.ro = 0;
        self.ii1 = 0;
        self.ii2 = 0;
        self.io = 0;
        self.bi1 = false;
        self.bi2 = false;
        self.bo = false;
        self.var_map = m;
        self.initialized = true;
        Ok(Status::OK)
    }

    /// Reads the requested output variables at the current time.
    pub fn get_values(&self, var_ids: &Vec<i32>) -> (r: Result<GetValuesResponse, GuestError>)
        requires
            self.initialized,
        ensures
            match r {
                Ok(resp) => adder_get_err(var_ids@, self.var_map@) is None && resp.status
                    == Status::OK && resp.current_time == self.t && resp.values@.reals
                    == reals_answer(var_ids@, self.var_map@, self.ro) && resp.values@.ints
                    == ints_answer(var_ids@, self.var_map@, self.io) && resp.values@.bools
                    == bools_answer(var_ids@, self.var_map@, self.bo) && resp.values@.strings.len()
                    == 0,
                Err(e) => adder_get_err(var_ids@, self.var_map@) is Some && e
                    == GuestError::UnknownVariableId,
            },
    {
        let mut values = VarValues::new();
        let mut i: usize = 0;
        let ghost ids = var_ids@;
        let ghost m = self.var_map@;
        proof {
            assert(ids.skip(0) =~= ids);
        }
        while i < var_ids.len()
            invariant
                i <= ids.len(),
                ids == var_ids@,
                m == self.var_map@,
                adder_get_err(ids, m) is Some <==> adder_get_err(ids.skip(i as int), m) is Some,
                values@.reals + reals_answer(ids.skip(i as int), m, self.ro) == reals_answer(
                    ids,
                    m,
                    self.ro,
                ),
                values@.ints + ints_answer(ids.skip(i as int), m, self.io) == ints_answer(
                    ids,
                    m,
                    self.io,
                ),
                values@.bools + bools_answer(ids.skip(i as int), m, self.bo) == bools_answer(
                    ids,
                    m,
                    self.bo,
                ),
                values@.strings.len() == 0,
            decreases ids.len() - i,
        {
            let id = var_ids[i];
            proof {
                assert(ids.skip(i as int)[0] == ids[i as int]);
                assert(ids.skip(i as int).skip(1) =~= ids.skip(i + 1 as int));
            }
            match lookup_role(&self.var_map, id) {
                Some(AddVar::RO) => {
                    values.real_values.push((id, self.ro));
                    proof {
                        assert(values@.reals + reals_answer(ids.skip(i + 1 as int), m, self.ro)
                            =~= reals_answer(ids, m, self.ro));
                    }
                },
                Some(AddVar::IO) => {
                    values.int_values.push((id, self.io));
                    proof {
                        assert(values@.ints + ints_answer(ids.skip(i + 1 as int), m, self.io)
                            =~= ints_answer(ids, m, self.io));
                    }
                },
                Some(AddVar::BO) => {
                    values.bool_values.push((id, self.bo));
                    proof {
                        assert(values@.bools + bools_answer(ids.skip(i + 1 as int), m, self.bo)
                            =~= bools_answer(ids, m, self.bo));
                    }
                },
                _ => {
                    return Err(GuestError::UnknownVariableId);
                },
            }
            i = i + 1;
        }
        proof {
            assert(values@.reals =~= reals_answer(ids, m, self.ro));
            assert(values@.ints =~= ints_answer(ids, m, self.io));
            assert(values@.bools =~= bools_answer(ids, m, self.bo));
        }
        Ok(GetValuesResponse { status: Status::OK, current_time: self.t, values })
    }

    /// Stores input values by role; the last write to a role wins.  An id
    /// the role map does not know is rejected before anything changes;
    /// string values are accepted and ignored, as the adder declares no
    /// string variable.
    pub fn set_values(&mut self, input_vals: &VarValues) -> (r: Result<Status, GuestError>)
        requires
            old(self).initialized,
        ensures
            match r {
                Ok(s) => s == Status::OK && all_ids_known(input_vals@, old(self).var_map@),
                Err(e) => !all_ids_known(input_vals@, old(self).var_map@) && e
                    == GuestError::UnknownVariableId && *final(self) == *old(self),
            },
            r is Ok ==> {
                let m = old(self).var_map@;
                &&& final(self).ri1 == last_real_for(input_vals@.reals, m, AddVar::RI1, old(self).ri1)
                &&& final(self).ri2 == last_real_for(input_vals@.reals, m, AddVar::RI2, old(self).ri2)
                &&& final(self).ro == last_real_for(input_vals@.reals, m, AddVar::RO, old(self).ro)
                &&& final(self).ii1 == last_int_for(input_vals@.ints, m, AddVar::II1, old(self).ii1)
                &&& final(self).ii2 == last_int_for(input_vals@.ints, m, AddVar::II2, old(self).ii2)
                &&& final(self).io == last_int_for(input_vals@.ints, m, AddVar::IO, old(self).io)
                &&& final(self).bi1 == last_bool_for(input_vals@.bools, m, AddVar::BI1, old(self).bi1)
                &&& final(self).bi2 == last_bool_for(input_vals@.bools, m, AddVar::BI2, old(self).bi2)
                &&& final(self).bo == last_bool_for(input_vals@.bools, m, AddVar::BO, old(self).bo)
                &&& final(self).t == old(self).t
                &&& final(self).var_map == old(self).var_map
                &&& final(self).initialized
            },
    {
        let ghost m = self.var_map@;
        // Reject unknown ids before changing anything.
        let mut i: usize = 0;
        while i < input_vals.real_values.len()
            invariant
                i <= input_vals@.reals.len(),
                m == self.var_map@,
                forall|j: int| 0 <= j < i ==> role_of(m, (#[trigger] input_vals@.reals[j]).0)
                    is Some,
            decreases input_vals@.reals.len() - i,
        {
            if lookup_role(&self.var_map, input_vals.real_values[i].0).is_none() {
                return Err(GuestError::UnknownVariableId);
            }
            i = i + 1;
        }
        let mut i: usize = 0;
        while i < input_vals.int_values.len()
            invariant
                i <= input_vals@.ints.len(),
                m == self.var_map@,
                forall|j: int| 0 <= j < i ==> role_of(m, (#[trigger] input_vals@.ints[j]).0)
                    is Some,
            decreases input_vals@.ints.len() - i,
        {
            if lookup_role(&self.var_map, input_vals.int_values[i].0).is_none() {
                return Err(GuestError::UnknownVariableId);
            }
            i = i + 1;
        }
        let mut i: usize = 0;
        while i < input_vals.bool_values.len()
            invariant
                i <= input_vals@.bools.len(),
                m == self.var_map@,
                forall|j: int| 0 <= j < i ==> role_of(m, (#[trigger] input_vals@.bools[j]).0)
                    is Some,
            decreases input_vals@.bools.len() - i,
        {
            if lookup_role(&self.var_map, input_vals.bool_values[i].0).is_none() {
                return Err(GuestError::UnknownVariableId);
            }
            i = i + 1;
        }
        // Apply, left to right.
        let mut i: usize = 0;
        while i < input_vals.real_values.len()
            invariant
                i <= input_vals@.reals.len(),
                m == self.var_map@,
                self.var_map == old(self).var_map,
                self.ri1 == last_real_for(input_vals@.reals.take(i as int), m, AddVar::RI1, old(self).ri1),
                self.ri2 == last_real_for(input_vals@.reals.take(i as int), m, AddVar::RI2, old(self).ri2),
                self.ro == last_real_for(input_vals@.reals.take(i as int), m, AddVar::RO, old(self).ro),
                self.ii1 == old(self).ii1 && self.ii2 == old(self).ii2 && self.io == old(self).io,
                self.bi1 == old(self).bi1 && self.bi2 == old(self).bi2 && self.bo == old(self).bo,
                self.t == old(self).t,
                self.initialized == old(self).initialized,
            decreases input_vals@.reals.len() - i,
        {
            let entry = input_vals.real_values[i];
            proof {
                assert(input_vals@.reals.take(i + 1 as int).drop_last() =~= input_vals@.reals.take(
                    i as int,
                ));
                assert(input_vals@.reals.take(i + 1 as int).last() == input_vals@.reals[i as int]);
            }
            match lookup_role(&self.var_map, entry.0) {
                Some(AddVar::RI1) => {
                    self.ri1 = entry.1;
                },
                Some(AddVar::RI2) => {
                    self.ri2 = entry.1;
                },
                Some(AddVar::RO) => {
                    self.ro = entry.1;
                },
                _ => {},
            }
            i = i + 1;
        }
        proof {
            assert(input_vals@.reals.take(input_vals@.reals.len() as int) =~= input_vals@.reals);
        }
        let mut i: usize = 0;
        while i < input_vals.int_values.len()
            invariant
                i <= input_vals@.ints.len(),
                m == self.var_map@,
                self.var_map == old(self).var_map,
                self.ri1 == last_real_for(input_vals@.reals, m, AddVar::RI1, old(self).ri1),
                self.ri2 == last_real_for(input_vals@.reals, m, AddVar::RI2, old(self).ri2),
                self.ro == last_real_for(input_vals@.reals, m, AddVar::RO, old(self).ro),
                self.ii1 == last_int_for(input_vals@.ints.take(i as int), m, AddVar::II1, old(self).ii1),
                self.ii2 == last_int_for(input_vals@.ints.take(i as int), m, AddVar::II2, old(self).ii2),
                self.io == last_int_for(input_vals@.ints.take(i as int), m, AddVar::IO, old(self).io),
                self.bi1 == old(self).bi1 && self.bi2 == old(self).bi2 && self.bo == old(self).bo,
                self.t == old(self).t,
                self.initialized == old(self).initialized,
            decreases input_vals@.ints.len() - i,
        {
            let entry = input_vals.int_values[i];
            proof {
                assert(input_vals@.ints.take(i + 1 as int).drop_last() =~= input_vals@.ints.take(
                    i as int,
                ));
                assert(input_vals@.ints.take(i + 1 as int).last() == input_vals@.ints[i as int]);
            }
            match lookup_role(&self.var_map, entry.0) {
                Some(AddVar::II1) => {
                    self.ii1 = entry.1;
                },
                Some(AddVar::II2) => {
                    self.ii2 = entry.1;
                },
                Some(AddVar::IO) => {
                    self.io = entry.1;
                },
                _ => {},
            }
            i = i + 1;
        }
        proof {
            assert(input_vals@.ints.take(input_vals@.ints.len() as int) =~= input_vals@.ints);
        }
        let mut i: usize = 0;
        while i < input_vals.bool_values.len()
            invariant
                i <= input_vals@.bools.len(),
                m == self.var_map@,
                self.var_map == old(self).var_map,
                self.ri1 == last_real_for(input_vals@.reals, m, AddVar::RI1, old(self).ri1),
                self.ri2 == last_real_for(input_vals@.reals, m, AddVar::RI2, old(self).ri2),
                self.ro == last_real_for(input_vals@.reals, m, AddVar::RO, old(self).ro),
                self.ii1 == last_int_for(input_vals@.ints, m, AddVar::II1, old(self).ii1),
                self.ii2 == last_int_for(input_vals@.ints, m, AddVar::II2, old(self).ii2),
                self.io == last_int_for(input_vals@.ints, m, AddVar::IO, old(self).io),
                self.bi1 == last_bool_for(input_vals@.bools.take(i as int), m, AddVar::BI1, old(self).bi1),
                self.bi2 == last_bool_for(input_vals@.bools.take(i as int), m, AddVar::BI2, old(self).bi2),
                self.bo == last_bool_for(input_vals@.bools.take(i as int), m, AddVar::BO, old(self).bo),
                self.t == old(self).t,
                self.initialized == old(self).initialized,
            decreases input_vals@.bools.len() - i,
        {
            let entry = input_vals.bool_values[i];
            proof {
                assert(input_vals@.bools.take(i + 1 as int).drop_last() =~= input_vals@.bools.take(
                    i as int,
                ));
                assert(input_vals@.bools.take(i + 1 as int).last() == input_vals@.bools[i as int]);
            }
            match lookup_role(&self.var_map, entry.0) {
                Some(AddVar::BI1) => {
                    self.bi1 = entry.1;
                },
                Some(AddVar::BI2) => {
                    self.bi2 = entry.1;
                },
                Some(AddVar::BO) => {
                    self.bo = entry.1;
                },
                _ => {},
            }
            i = i + 1;
        }
        proof {
            assert(input_vals@.reals.take(input_vals@.reals.len() as int) =~= input_vals@.reals);
            assert(input_vals@.ints.take(input_vals@.ints.len() as int) =~= input_vals@.ints);
            assert(input_vals@.bools.take(input_vals@.bools.len() as int) =~= input_vals@.bools);
        }
        Ok(Status::OK)
    }

    /// One step: the outputs become the sums of their inputs, the clock
    /// advances by the step, and the updated clock is returned.
    pub fn do_step<O: RealOps>(&mut self, _current_time: u64, timestep: u64, ops: &O) -> (r: Result<
        DoStepResponse,
        GuestError,
    >)
        requires
            old(self).initialized,
        ensures
            match r {
                Ok(resp) => resp.status == Status::OK && resp.updated_time == final(self).t,
                Err(e) => false,
            },
            final(self).io == vstd::wrapping::i32_specs::wrapping_add(old(self).ii1, old(self).ii2),
            final(self).bo == (old(self).bi1 && old(self).bi2),
            final(self).ri1 == old(self).ri1 && final(self).ri2 == old(self).ri2,
            final(self).ii1 == old(self).ii1 && final(self).ii2 == old(self).ii2,
            final(self).bi1 == old(self).bi1 && final(self).bi2 == old(self).bi2,
            final(self).var_map == old(self).var_map,
            final(self).initialized,
    {
        self.ro = ops.real_add(self.ri1, self.ri2);
        self.io = self.ii1.wrapping_add(self.ii2);
        self.bo = self.bi1 && self.bi2;
        self.t = ops.real_add(self.t, timestep);
        Ok(DoStepResponse { status: Status::OK, updated_time: self.t })
    }
}

} // verus!
