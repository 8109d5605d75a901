//! The data model shared by host and guest: variable metadata, typed value
//! maps, responses, and the error taxonomy.
//!
//! Real values and simulation times are carried as the 64-bit patterns of
//! the underlying IEEE-754 doubles.  The host never computes with them; it
//! only validates ids and moves the patterns between the caller and the
//! guest, so an opaque `u64` is the faithful model.  Strings are carried as
//! UTF-8 byte vectors for the same reason.

use vstd::prelude::*;

verus! {

/// The declared type of a model variable.
#[derive(Clone, Copy, Debug, PartialEq, Eq, Structural)]
pub enum VariableType {
    DtasmReal,
    DtasmInt,
    DtasmBool,
    DtasmString,
}

/// The role a variable plays in the model.
#[derive(Clone, Copy, Debug, PartialEq, Eq, Structural)]
pub enum CausalityType {
    Input,
    Output,
    Local,
    Parameter,
}

/// Maximal level at which the guest should report log messages.
#[derive(Clone, Copy, Debug, PartialEq, Eq, Structural)]
pub enum LogLevel {
    Info,
    Warn,
    Error,
}

/// Status word returned by the guest for every stateful call.
#[derive(Clone, Copy, Debug, PartialEq, Eq, Structural)]
pub enum Status {
    OK,
    Discard,
    Error,
    Fatal,
}

/// A typed default value attached to a model variable.
#[derive(Debug, PartialEq, Eq)]
pub enum VarValue {
    Real(u64),
    Int(i32),
    Bool(bool),
    Str(Vec<u8>),
}

/// Mathematical image of a `VarValue`.
pub enum VarValueV {
    Real(u64),
    Int(i32),
    Bool(bool),
    Str(Seq<u8>),
}

impl View for VarValue {
    type V = VarValueV;

    open spec fn view(&self) -> VarValueV {
        match self {
            VarValue::Real(x) => VarValueV::Real(*x),
            VarValue::Int(x) => VarValueV::Int(*x),
            VarValue::Bool(x) => VarValueV::Bool(*x),
            VarValue::Str(s) => VarValueV::Str(s@),
        }
    }
}

/// Copies a byte vector; the contract pins the copy to the source.
pub fn clone_bytes(s: &Vec<u8>) -> (r: Vec<u8>)
    ensures
        r@ == s@,
{
    let mut r: Vec<u8> = Vec::new();
    let mut i: usize = 0;
    while i < s.len()
        invariant
            i <= s@.len(),
            r@ == s@.subrange(0, i as int),
        decreases s@.len() - i,
    {
        r.push(s[i]);
        proof {
            assert(r@ =~= s@.subrange(0, i + 1 as int));
        }
        i = i + 1;
    }
    proof {
        assert(r@ =~= s@);
    }
    r
}

impl Clone for VarValue {
    fn clone(&self) -> (r: Self)
        ensures
            r@ == self@,
    {
        match self {
            VarValue::Real(x) => VarValue::Real(*x),
            VarValue::Int(x) => VarValue::Int(*x),
            VarValue::Bool(x) => VarValue::Bool(*x),
            VarValue::Str(s) => VarValue::Str(clone_bytes(s)),
        }
    }
}

/// Clones an optional default value.
pub fn clone_default(d: &Option<VarValue>) -> (r: Option<VarValue>)
    ensures
        opt_value_view(r) == opt_value_view(*d),
{
    match d {
        Option::None => Option::None,
        Option::Some(v) => Option::Some(v.clone()),
    }
}

/// View of an optional default value.
pub open spec fn opt_value_view(d: Option<VarValue>) -> Option<VarValueV> {
    match d {
        Option::None => Option::None,
        Option::Some(v) => Option::Some(v@),
    }
}

/// One variable of the model description.
#[derive(Debug, PartialEq, Eq)]
pub struct ModelVariable {
    pub id: i32,
    pub name: Vec<u8>,
    pub causality: CausalityType,
    pub value_type: VariableType,
    pub default: Option<VarValue>,
}

/// Mathematical image of a `ModelVariable`.
#[verifier::ext_equal]
pub struct ModelVariableV {
    pub id: i32,
    pub name: Seq<u8>,
    pub causality: CausalityType,
    pub value_type: VariableType,
    pub default: Option<VarValueV>,
}

impl View for ModelVariable {
    type V = ModelVariableV;

    open spec fn view(&self) -> ModelVariableV {
        ModelVariableV {
            id: self.id,
            name: self.name@,
            causality: self.causality,
            value_type: self.value_type,
            default: opt_value_view(self.default),
        }
    }
}

impl Clone for ModelVariable {
    fn clone(&self) -> (r: Self)
        ensures
            r@ == self@,
    {
        ModelVariable {
            id: self.id,
            name: clone_bytes(&self.name),
            causality: self.causality,
            value_type: self.value_type,
            default: clone_default(&self.default),
        }
    }
}

/// The metadata record enumerating every variable of a model.
#[derive(Debug, PartialEq, Eq)]
pub struct ModelDescription {
    pub id: Vec<u8>,
    pub variables: Vec<ModelVariable>,
}

/// Mathematical image of a `ModelDescription`.
#[verifier::ext_equal]
pub struct ModelDescriptionV {
    pub id: Seq<u8>,
    pub variables: Seq<ModelVariableV>,
}

impl View for ModelDescription {
    type V = ModelDescriptionV;

    open spec fn view(&self) -> ModelDescriptionV {
        ModelDescriptionV {
            id: self.id@,
            variables: Seq::new(self.variables@.len(), |i: int| self.variables@[i]@),
        }
    }
}

impl Clone for ModelDescription {
    fn clone(&self) -> (r: Self)
        ensures
            r@ == self@,
    {
        let mut vars: Vec<ModelVariable> = Vec::new();
        let mut i: usize = 0;
        while i < self.variables.len()
            invariant
                i <= self.variables@.len(),
                vars@.len() == i,
                forall|j: int| 0 <= j < i ==> vars@[j]@ == #[trigger] self.variables@[j]@,
            decreases self.variables@.len() - i,
        {
            vars.push(self.variables[i].clone());
            i = i + 1;
        }
        let r = ModelDescription { id: clone_bytes(&self.id), variables: vars };
        proof {
            assert(r@.variables =~= self@.variables);
        }
        r
    }
}

/// What the index remembers about one variable.
#[derive(Debug, PartialEq, Eq)]
pub struct DtasmVarType {
    pub name: Vec<u8>,
    pub causality: CausalityType,
    pub value_type: VariableType,
    pub default: Option<VarValue>,
}

/// Mathematical image of a `DtasmVarType`.
#[verifier::ext_equal]
pub struct DtasmVarTypeV {
    pub name: Seq<u8>,
    pub causality: CausalityType,
    pub value_type: VariableType,
    pub default: Option<VarValueV>,
}

impl View for DtasmVarType {
    type V = DtasmVarTypeV;

    open spec fn view(&self) -> DtasmVarTypeV {
        DtasmVarTypeV {
            name: self.name@,
            causality: self.causality,
            value_type: self.value_type,
            default: opt_value_view(self.default),
        }
    }
}

impl Clone for DtasmVarType {
    fn clone(&self) -> (r: Self)
        ensures
            r@ == self@,
    {
        DtasmVarType {
            name: clone_bytes(&self.name),
            causality: self.causality,
            value_type: self.value_type,
            default: clone_default(&self.default),
        }
    }
}

/// Turns an association list into the finite map it denotes; later entries
/// win, as repeated insertion would.
pub open spec fn alist_map<V>(s: Seq<(i32, V)>) -> Map<i32, V>
    decreases s.len(),
{
    if s.len() == 0 {
        Map::empty()
    } else {
        alist_map(s.drop_last()).insert(s.last().0, s.last().1)
    }
}

/// The id-to-variable-type index derived from a model description.
pub struct VarTypes {
    pub entries: Vec<(i32, DtasmVarType)>,
}

impl VarTypes {
    /// The finite map the index denotes.
    pub open spec fn map_view(&self) -> Map<i32, DtasmVarTypeV> {
        alist_map(Seq::new(self.entries@.len(), |i: int| (self.entries@[i].0, self.entries@[i].1@)))
    }
}

/// Four disjoint value maps keyed by variable id, one per value type.
#[derive(Debug, PartialEq, Eq)]
pub struct VarValues {
    pub real_values: Vec<(i32, u64)>,
    pub int_values: Vec<(i32, i32)>,
    pub bool_values: Vec<(i32, bool)>,
    pub string_values: Vec<(i32, Vec<u8>)>,
}

/// Mathematical image of a `VarValues`.
#[verifier::ext_equal]
pub struct VarValuesV {
    pub reals: Seq<(i32, u64)>,
    pub ints: Seq<(i32, i32)>,
    pub bools: Seq<(i32, bool)>,
    pub strings: Seq<(i32, Seq<u8>)>,
}

impl View for VarValues {
    type V = VarValuesV;

    open spec fn view(&self) -> VarValuesV {
        VarValuesV {
            reals: self.real_values@,
            ints: self.int_values@,
            bools: self.bool_values@,
            strings: Seq::new(
                self.string_values@.len(),
                |i: int| (self.string_values@[i].0, self.string_values@[i].1@),
            ),
        }
    }
}

impl VarValues {
    /// An empty value map.
    pub fn new() -> (r: VarValues)
        ensures
            r@.reals.len() == 0,
            r@.ints.len() == 0,
            r@.bools.len() == 0,
            r@.strings.len() == 0,
    {
        VarValues {
            real_values: Vec::new(),
            int_values: Vec::new(),
            bool_values: Vec::new(),
            string_values: Vec::new(),
        }
    }
}

/// Value maps as decoded from a response message: a string value may be
/// absent on the wire even where the id is present.
#[derive(Debug, PartialEq, Eq)]
pub struct WireVarValues {
    pub real_values: Vec<(i32, u64)>,
    pub int_values: Vec<(i32, i32)>,
    pub bool_values: Vec<(i32, bool)>,
    pub string_values: Vec<(i32, Option<Vec<u8>>)>,
}

/// Mathematical image of a `WireVarValues`.
#[verifier::ext_equal]
pub struct WireVarValuesV {
    pub reals: Seq<(i32, u64)>,
    pub ints: Seq<(i32, i32)>,
    pub bools: Seq<(i32, bool)>,
    pub strings: Seq<(i32, Option<Seq<u8>>)>,
}

/// View of one wire string entry.
pub open spec fn wire_string_view(p: (i32, Option<Vec<u8>>)) -> (i32, Option<Seq<u8>>) {
    match p.1 {
        Option::None => (p.0, Option::None),
        Option::Some(v) => (p.0, Option::Some(v@)),
    }
}

impl View for WireVarValues {
    type V = WireVarValuesV;

    open spec fn view(&self) -> WireVarValuesV {
        WireVarValuesV {
            reals: self.real_values@,
            ints: self.int_values@,
            bools: self.bool_values@,
            strings: Seq::new(
                self.string_values@.len(),
                |i: int| wire_string_view(self.string_values@[i]),
            ),
        }
    }
}

/// What a well-behaved `set_values` sees back, and what `get_values`
/// returns: the guest's clock, its status word, and the requested values.
#[derive(Debug, PartialEq, Eq)]
pub struct GetValuesResponse {
    pub status: Status,
    pub current_time: u64,
    pub values: VarValues,
}

/// Result of one simulation step.
#[derive(Clone, Copy, Debug, PartialEq, Eq, Structural)]
pub struct DoStepResponse {
    pub status: Status,
    pub updated_time: u64,
}

/// Everything that can go wrong between the caller and the guest.
#[derive(Debug, PartialEq, Eq)]
pub enum DtasmError {
    /// The module bytes could not be loaded by the sandbox engine.
    ModuleLoad,
    /// A required export is absent from the module.
    MissingExport(Vec<u8>),
    /// Host-provided imports could not be satisfied.
    LinkError,
    /// The guest trapped while being constructed.
    InstantiationError,
    /// The guest trapped during a call; terminal for the instance.
    SandboxTrap,
    /// The id is absent from the variable type index.
    UnknownVariableId(i32),
    /// The value type of a call conflicts with the model's declaration.
    VariableTypeMismatch(VariableType, i32),
    /// An input variable was read through `get_values`.
    VariableCausalityMismatch(CausalityType, i32),
    /// A non-input variable was written through `set_values`.
    VariableCausalityInvalidForSet(CausalityType, i32),
    /// The operation was called in a state that forbids it.
    InvalidCallingOrder,
    /// A response carried a malformed value, notably an absent string.
    InvalidVariableValue(i32),
    /// Response bytes do not satisfy the message schema.
    DecodeError,
    /// An internal invariant was violated; carries the offending size.
    DtasmInternalError(u32),
    /// Snapshot file input or output failed.
    IoError,
    /// Growing the guest's linear memory failed.
    SandboxGrowthError,
}

/// Where an instance stands in its lifecycle.
#[derive(Clone, Copy, Debug, PartialEq, Eq, Structural)]
pub enum InstanceState {
    Fresh,
    Described,
    Initialized,
    Running,
}

} // verus!
