//! The wire codec: length-prefixed binary records exchanged between host
//! and guest.
//!
//! Every record has a spec-level encoder (`senc_*`) over the mathematical
//! views, a spec-level decoder (`sdec_*`) that consumes a prefix of a byte
//! sequence and returns the rest, executable twins (`emit_*`, `parse_*`)
//! pinned to them, and a round-trip law: decoding an encoding yields the
//! encoded value and leaves the suffix untouched.
//!
//! Integers are little-endian and fixed-width; a byte string is a 32-bit
//! length followed by the bytes; a list is a 32-bit count followed by the
//! elements.  A string value entry carries a presence flag so that a
//! response may name an id and still withhold its value.

use vstd::prelude::*;
use vstd::bytes::*;
use vstd::slice::{slice_subrange, slice_to_vec, slice_index_get};
use crate::types::{VarValues, VarValuesV, WireVarValues, WireVarValuesV, VarValue, VarValueV,
    ModelVariable, ModelVariableV, ModelDescription, ModelDescriptionV, CausalityType,
    VariableType, Status, LogLevel, opt_value_view};

verus! {

// ---------------------------------------------------------------------
// Well-formedness: everything whose length rides in a 32-bit field must
// fit in one.
// ---------------------------------------------------------------------

/// A byte string whose length fits the wire's 32-bit length field.
pub open spec fn wf_bytes(s: Seq<u8>) -> bool {
    s.len() <= u32::MAX
}

/// A value map whose four lists and every string fit the wire.
pub open spec fn wf_vv(v: VarValuesV) -> bool {
    &&& v.reals.len() <= u32::MAX
    &&& v.ints.len() <= u32::MAX
    &&& v.bools.len() <= u32::MAX
    &&& v.strings.len() <= u32::MAX
    &&& forall|i: int| 0 <= i < v.strings.len() ==> wf_bytes((#[trigger] v.strings[i]).1)
}

/// A list of requested ids that fits the wire.
pub open spec fn wf_ids(s: Seq<i32>) -> bool {
    s.len() <= u32::MAX
}

/// A default value that fits the wire.
pub open spec fn wf_varvalue(d: VarValueV) -> bool {
    match d {
        VarValueV::Str(s) => wf_bytes(s),
        _ => true,
    }
}

/// A model variable that fits the wire.
pub open spec fn wf_mdvar(v: ModelVariableV) -> bool {
    &&& wf_bytes(v.name)
    &&& match v.default {
        Some(d) => wf_varvalue(d),
        None => true,
    }
}

/// A model description that fits the wire.
pub open spec fn wf_md(m: ModelDescriptionV) -> bool {
    &&& wf_bytes(m.id)
    &&& m.variables.len() <= u32::MAX
    &&& forall|i: int| 0 <= i < m.variables.len() ==> wf_mdvar(#[trigger] m.variables[i])
}

// ---------------------------------------------------------------------
// Spec encoders.
// ---------------------------------------------------------------------

pub open spec fn senc_u8(x: u8) -> Seq<u8> {
    seq![x]
}

pub open spec fn senc_bool(b: bool) -> Seq<u8> {
    seq![if b { 1u8 } else { 0u8 }]
}

pub open spec fn senc_u32(x: u32) -> Seq<u8> {
    spec_u32_to_le_bytes(x)
}

pub open spec fn senc_u64(x: u64) -> Seq<u8> {
    spec_u64_to_le_bytes(x)
}

pub open spec fn senc_i32(x: i32) -> Seq<u8> {
    senc_u32(x as u32)
}

pub open spec fn senc_bytes(s: Seq<u8>) -> Seq<u8> {
    senc_u32(s.len() as u32) + s
}

pub open spec fn senc_real_items(s: Seq<(i32, u64)>) -> Seq<u8>
    decreases s.len(),
{
    if s.len() == 0 {
        Seq::empty()
    } else {
        senc_i32(s[0].0) + senc_u64(s[0].1) + senc_real_items(s.skip(1))
    }
}

pub open spec fn senc_int_items(s: Seq<(i32, i32)>) -> Seq<u8>
    decreases s.len(),
{
    if s.len() == 0 {
        Seq::empty()
    } else {
        senc_i32(s[0].0) + senc_i32(s[0].1) + senc_int_items(s.skip(1))
    }
}

pub open spec fn senc_bool_items(s: Seq<(i32, bool)>) -> Seq<u8>
    decreases s.len(),
{
    if s.len() == 0 {
        Seq::empty()
    } else {
        senc_i32(s[0].0) + senc_bool(s[0].1) + senc_bool_items(s.skip(1))
    }
}

pub open spec fn senc_string_items(s: Seq<(i32, Seq<u8>)>) -> Seq<u8>
    decreases s.len(),
{
    if s.len() == 0 {
        Seq::empty()
    } else {
        senc_i32(s[0].0) + senc_u8(1u8) + senc_bytes(s[0].1) + senc_string_items(s.skip(1))
    }
}

pub open spec fn senc_id_items(s: Seq<i32>) -> Seq<u8>
    decreases s.len(),
{
    if s.len() == 0 {
        Seq::empty()
    } else {
        senc_i32(s[0]) + senc_id_items(s.skip(1))
    }
}

/// A value map: four length-prefixed lists, reals then ints then bools
/// then strings.
pub open spec fn senc_vv(v: VarValuesV) -> Seq<u8> {
    senc_u32(v.reals.len() as u32) + senc_real_items(v.reals) + senc_u32(v.ints.len() as u32)
        + senc_int_items(v.ints) + senc_u32(v.bools.len() as u32) + senc_bool_items(v.bools)
        + senc_u32(v.strings.len() as u32) + senc_string_items(v.strings)
}

/// A list of requested variable ids.
pub open spec fn senc_ids(s: Seq<i32>) -> Seq<u8> {
    senc_u32(s.len() as u32) + senc_id_items(s)
}

// ---------------------------------------------------------------------
// Spec decoders.  Each consumes a prefix and returns the rest; strings
// decode to an optional value, absent where the presence flag is 0.
// ---------------------------------------------------------------------

pub open spec fn sdec_u8(b: Seq<u8>) -> Option<(u8, Seq<u8>)> {
    if b.len() >= 1 {
        Some((b[0], b.skip(1)))
    } else {
        None
    }
}

pub open spec fn sdec_bool(b: Seq<u8>) -> Option<(bool, Seq<u8>)> {
    match sdec_u8(b) {
        None => None,
        Some((x, r)) => if x == 0 {
            Some((false, r))
        } else if x == 1 {
            Some((true, r))
        } else {
            None
        },
    }
}

pub open spec fn sdec_u32(b: Seq<u8>) -> Option<(u32, Seq<u8>)> {
    if b.len() >= 4 {
        Some((spec_u32_from_le_bytes(b.take(4)), b.skip(4)))
    } else {
        None
    }
}

pub open spec fn sdec_u64(b: Seq<u8>) -> Option<(u64, Seq<u8>)> {
    if b.len() >= 8 {
        Some((spec_u64_from_le_bytes(b.take(8)), b.skip(8)))
    } else {
        None
    }
}

pub open spec fn sdec_i32(b: Seq<u8>) -> Option<(i32, Seq<u8>)> {
    match sdec_u32(b) {
        None => None,
        Some((x, r)) => Some((x as i32, r)),
    }
}

pub open spec fn sdec_bytes(b: Seq<u8>) -> Option<(Seq<u8>, Seq<u8>)> {
    match sdec_u32(b) {
        None => None,
        Some((n, r)) => if r.len() >= n {
            Some((r.take(n as int), r.skip(n as int)))
        } else {
            None
        },
    }
}

pub open spec fn sdec_real_items(b: Seq<u8>, n: nat) -> Option<(Seq<(i32, u64)>, Seq<u8>)>
    decreases n,
{
    if n == 0 {
        Some((Seq::empty(), b))
    } else {
        match sdec_i32(b) {
            None => None,
            Some((id, r1)) => match sdec_u64(r1) {
                None => None,
                Some((x, r2)) => match sdec_real_items(r2, (n - 1) as nat) {
                    None => None,
                    Some((tail, r3)) => Some((seq![(id, x)] + tail, r3)),
                },
            },
        }
    }
}

pub open spec fn sdec_int_items(b: Seq<u8>, n: nat) -> Option<(Seq<(i32, i32)>, Seq<u8>)>
    decreases n,
{
    if n == 0 {
        Some((Seq::empty(), b))
    } else {
        match sdec_i32(b) {
            None => None,
            Some((id, r1)) => match sdec_i32(r1) {
                None => None,
                Some((x, r2)) => match sdec_int_items(r2, (n - 1) as nat) {
                    None => None,
                    Some((tail, r3)) => Some((seq![(id, x)] + tail, r3)),
                },
            },
        }
    }
}

pub open spec fn sdec_bool_items(b: Seq<u8>, n: nat) -> Option<(Seq<(i32, bool)>, Seq<u8>)>
    decreases n,
{
    if n == 0 {
        Some((Seq::empty(), b))
    } else {
        match sdec_i32(b) {
            None => None,
            Some((id, r1)) => match sdec_bool(r1) {
                None => None,
                Some((x, r2)) => match sdec_bool_items(r2, (n - 1) as nat) {
                    None => None,
                    Some((tail, r3)) => Some((seq![(id, x)] + tail, r3)),
                },
            },
        }
    }
}

pub open spec fn sdec_string_items(b: Seq<u8>, n: nat) -> Option<
    (Seq<(i32, Option<Seq<u8>>)>, Seq<u8>),
>
    decreases n,
{
    if n == 0 {
        Some((Seq::empty(), b))
    } else {
        match sdec_i32(b) {
            None => None,
            Some((id, r1)) => match sdec_u8(r1) {
                None => None,
                Some((flag, r2)) => if flag == 0 {
                    match sdec_string_items(r2, (n - 1) as nat) {
                        None => None,
                        Some((tail, r3)) => Some((seq![(id, None::<Seq<u8>>)] + tail, r3)),
                    }
                } else if flag == 1 {
                    match sdec_bytes(r2) {
                        None => None,
                        Some((v, r3)) => match sdec_string_items(r3, (n - 1) as nat) {
                            None => None,
                            Some((tail, r4)) => Some((seq![(id, Some(v))] + tail, r4)),
                        },
                    }
                } else {
                    None
                },
            },
        }
    }
}

pub open spec fn sdec_id_items(b: Seq<u8>, n: nat) -> Option<(Seq<i32>, Seq<u8>)>
    decreases n,
{
    if n == 0 {
        Some((Seq::empty(), b))
    } else {
        match sdec_i32(b) {
            None => None,
            Some((id, r1)) => match sdec_id_items(r1, (n - 1) as nat) {
                None => None,
                Some((tail, r2)) => Some((seq![id] + tail, r2)),
            },
        }
    }
}

pub open spec fn sdec_wvv(b: Seq<u8>) -> Option<(WireVarValuesV, Seq<u8>)> {
    match sdec_u32(b) {
        None => None,
        Some((nr, b1)) => match sdec_real_items(b1, nr as nat) {
            None => None,
            Some((reals, b2)) => match sdec_u32(b2) {
                None => None,
                Some((ni, b3)) => match sdec_int_items(b3, ni as nat) {
                    None => None,
                    Some((ints, b4)) => match sdec_u32(b4) {
                        None => None,
                        Some((nb, b5)) => match sdec_bool_items(b5, nb as nat) {
                            None => None,
                            Some((bools, b6)) => match sdec_u32(b6) {
                                None => None,
                                Some((ns, b7)) => match sdec_string_items(b7, ns as nat) {
                                    None => None,
                                    Some((strings, b8)) => Some(
                                        (WireVarValuesV { reals, ints, bools, strings }, b8),
                                    ),
                                },
                            },
                        },
                    },
                },
            },
        },
    }
}

pub open spec fn sdec_ids(b: Seq<u8>) -> Option<(Seq<i32>, Seq<u8>)> {
    match sdec_u32(b) {
        None => None,
        Some((n, r)) => sdec_id_items(r, n as nat),
    }
}

/// The wire image of a host-side value map: every string present.
pub open spec fn wire_of(v: VarValuesV) -> WireVarValuesV {
    WireVarValuesV {
        reals: v.reals,
        ints: v.ints,
        bools: v.bools,
        strings: Seq::new(v.strings.len(), |i: int| (v.strings[i].0, Some(v.strings[i].1))),
    }
}

// ---------------------------------------------------------------------
// Round-trip laws, spec level.
// ---------------------------------------------------------------------

pub proof fn lemma_rt_u8(x: u8, rest: Seq<u8>)
    ensures
        sdec_u8(senc_u8(x) + rest) == Some((x, rest)),
{
    assert((senc_u8(x) + rest).skip(1) =~= rest);
}

pub proof fn lemma_rt_bool(x: bool, rest: Seq<u8>)
    ensures
        sdec_bool(senc_bool(x) + rest) == Some((x, rest)),
{
    assert((senc_bool(x) + rest).skip(1) =~= rest);
}

pub proof fn lemma_rt_u32(x: u32, rest: Seq<u8>)
    ensures
        sdec_u32(senc_u32(x) + rest) == Some((x, rest)),
{
    lemma_auto_spec_u32_to_from_le_bytes();
    assert((senc_u32(x) + rest).take(4) =~= senc_u32(x));
    assert((senc_u32(x) + rest).skip(4) =~= rest);
}

pub proof fn lemma_rt_u64(x: u64, rest: Seq<u8>)
    ensures
        sdec_u64(senc_u64(x) + rest) == Some((x, rest)),
{
    lemma_auto_spec_u64_to_from_le_bytes();
    assert((senc_u64(x) + rest).take(8) =~= senc_u64(x));
    assert((senc_u64(x) + rest).skip(8) =~= rest);
}

pub proof fn lemma_rt_i32(x: i32, rest: Seq<u8>)
    ensures
        sdec_i32(senc_i32(x) + rest) == Some((x, rest)),
{
    lemma_rt_u32(x as u32, rest);
    assert((x as u32) as i32 == x) by (bit_vector);
}

pub proof fn lemma_rt_bytes(s: Seq<u8>, rest: Seq<u8>)
    requires
        wf_bytes(s),
    ensures
        sdec_bytes(senc_bytes(s) + rest) == Some((s, rest)),
{
    let n = s.len() as u32;
    assert(senc_bytes(s) + rest =~= senc_u32(n) + (s + rest));
    lemma_rt_u32(n, s + rest);
    assert((s + rest).take(n as int) =~= s);
    assert((s + rest).skip(n as int) =~= rest);
}

pub proof fn lemma_rt_real_items(s: Seq<(i32, u64)>, rest: Seq<u8>)
    ensures
        sdec_real_items(senc_real_items(s) + rest, s.len()) == Some((s, rest)),
    decreases s.len(),
{
    if s.len() == 0 {
        assert(senc_real_items(s) + rest =~= rest);
    } else {
        let head = s[0];
        let tail = s.skip(1);
        let b = senc_real_items(s) + rest;
        assert(b =~= senc_i32(head.0) + (senc_u64(head.1) + (senc_real_items(tail) + rest)));
        lemma_rt_i32(head.0, senc_u64(head.1) + (senc_real_items(tail) + rest));
        lemma_rt_u64(head.1, senc_real_items(tail) + rest);
        lemma_rt_real_items(tail, rest);
        assert(seq![head] + tail =~= s);
    }
}

pub proof fn lemma_rt_int_items(s: Seq<(i32, i32)>, rest: Seq<u8>)
    ensures
        sdec_int_items(senc_int_items(s) + rest, s.len()) == Some((s, rest)),
    decreases s.len(),
{
    if s.len() == 0 {
        assert(senc_int_items(s) + rest =~= rest);
    } else {
        let head = s[0];
        let tail = s.skip(1);
        assert(senc_int_items(s) + rest =~= senc_i32(head.0) + (senc_i32(head.1) + (senc_int_items(
            tail,
        ) + rest)));
        lemma_rt_i32(head.0, senc_i32(head.1) + (senc_int_items(tail) + rest));
        lemma_rt_i32(head.1, senc_int_items(tail) + rest);
        lemma_rt_int_items(tail, rest);
        assert(seq![head] + tail =~= s);
    }
}

pub proof fn lemma_rt_bool_items(s: Seq<(i32, bool)>, rest: Seq<u8>)
    ensures
        sdec_bool_items(senc_bool_items(s) + rest, s.len()) == Some((s, rest)),
    decreases s.len(),
{
    if s.len() == 0 {
        assert(senc_bool_items(s) + rest =~= rest);
    } else {
        let head = s[0];
        let tail = s.skip(1);
        assert(senc_bool_items(s) + rest =~= senc_i32(head.0) + (senc_bool(head.1) + (
        senc_bool_items(tail) + rest)));
        lemma_rt_i32(head.0, senc_bool(head.1) + (senc_bool_items(tail) + rest));
        lemma_rt_bool(head.1, senc_bool_items(tail) + rest);
        lemma_rt_bool_items(tail, rest);
        assert(seq![head] + tail =~= s);
    }
}

pub proof fn lemma_rt_string_items(s: Seq<(i32, Seq<u8>)>, rest: Seq<u8>)
    requires
        forall|i: int| 0 <= i < s.len() ==> wf_bytes((#[trigger] s[i]).1),
    ensures
        sdec_string_items(senc_string_items(s) + rest, s.len()) == Some(
            (Seq::new(s.len(), |i: int| (s[i].0, Some(s[i].1))), rest),
        ),
    decreases s.len(),
{
    let image = Seq::new(s.len(), |i: int| (s[i].0, Some(s[i].1)));
    if s.len() == 0 {
        assert(senc_string_items(s) + rest =~= rest);
        assert(image =~= Seq::<(i32, Option<Seq<u8>>)>::empty());
    } else {
        let head = s[0];
        let tail = s.skip(1);
        assert(senc_string_items(s) + rest =~= senc_i32(head.0) + (senc_u8(1u8) + (senc_bytes(
            head.1,
        ) + (senc_string_items(tail) + rest))));
        lemma_rt_i32(head.0, senc_u8(1u8) + (senc_bytes(head.1) + (senc_string_items(tail) + rest)));
        lemma_rt_u8(1u8, senc_bytes(head.1) + (senc_string_items(tail) + rest));
        lemma_rt_bytes(head.1, senc_string_items(tail) + rest);
        lemma_rt_string_items(tail, rest);
        let tail_image = Seq::new(tail.len(), |i: int| (tail[i].0, Some(tail[i].1)));
        assert(seq![(head.0, Some(head.1))] + tail_image =~= image);
    }
}

pub proof fn lemma_rt_id_items(s: Seq<i32>, rest: Seq<u8>)
    ensures
        sdec_id_items(senc_id_items(s) + rest, s.len()) == Some((s, rest)),
    decreases s.len(),
{
    if s.len() == 0 {
        assert(senc_id_items(s) + rest =~= rest);
    } else {
        let tail = s.skip(1);
        assert(senc_id_items(s) + rest =~= senc_i32(s[0]) + (senc_id_items(tail) + rest));
        lemma_rt_i32(s[0], senc_id_items(tail) + rest);
        lemma_rt_id_items(tail, rest);
        assert(seq![s[0]] + tail =~= s);
    }
}

/// Round trip for a whole value map: decoding an encoded map yields its
/// wire image, every string present.
pub proof fn lemma_rt_vv(v: VarValuesV, rest: Seq<u8>)
    requires
        wf_vv(v),
    ensures
        sdec_wvv(senc_vv(v) + rest) == Some((wire_of(v), rest)),
{
    let t_str = senc_u32(v.strings.len() as u32) + senc_string_items(v.strings) + rest;
    let t_bool = senc_u32(v.bools.len() as u32) + senc_bool_items(v.bools) + t_str;
    let t_int = senc_u32(v.ints.len() as u32) + senc_int_items(v.ints) + t_bool;
    assert(senc_vv(v) + rest =~= senc_u32(v.reals.len() as u32) + (senc_real_items(v.reals)
        + t_int));
    lemma_rt_u32(v.reals.len() as u32, senc_real_items(v.reals) + t_int);
    lemma_rt_real_items(v.reals, t_int);
    assert(t_int =~= senc_u32(v.ints.len() as u32) + (senc_int_items(v.ints) + t_bool));
    lemma_rt_u32(v.ints.len() as u32, senc_int_items(v.ints) + t_bool);
    lemma_rt_int_items(v.ints, t_bool);
    assert(t_bool =~= senc_u32(v.bools.len() as u32) + (senc_bool_items(v.bools) + t_str));
    lemma_rt_u32(v.bools.len() as u32, senc_bool_items(v.bools) + t_str);
    lemma_rt_bool_items(v.bools, t_str);
    assert(t_str =~= senc_u32(v.strings.len() as u32) + (senc_string_items(v.strings) + rest));
    lemma_rt_u32(v.strings.len() as u32, senc_string_items(v.strings) + rest);
    lemma_rt_string_items(v.strings, rest);
}

/// Round trip for a list of requested ids.
pub proof fn lemma_rt_ids(s: Seq<i32>, rest: Seq<u8>)
    requires
        wf_ids(s),
    ensures
        sdec_ids(senc_ids(s) + rest) == Some((s, rest)),
{
    assert(senc_ids(s) + rest =~= senc_u32(s.len() as u32) + (senc_id_items(s) + rest));
    lemma_rt_u32(s.len() as u32, senc_id_items(s) + rest);
    lemma_rt_id_items(s, rest);
}

// ---------------------------------------------------------------------
// Executable encoders.  Each appends one record to the encoder buffer.
// ---------------------------------------------------------------------

pub fn emit_u8(out: &mut Vec<u8>, x: u8)
    ensures
        final(out)@ == old(out)@ + senc_u8(x),
{
    out.push(x);
    proof {
        assert(out@ =~= old(out)@ + senc_u8(x));
    }
}

pub fn emit_bool(out: &mut Vec<u8>, x: bool)
    ensures
        final(out)@ == old(out)@ + senc_bool(x),
{
    if x {
        emit_u8(out, 1);
    } else {
        emit_u8(out, 0);
    }
}

pub fn emit_u32(out: &mut Vec<u8>, x: u32)
    ensures
        final(out)@ == old(out)@ + senc_u32(x),
{
    let mut bs = u32_to_le_bytes(x);
    out.append(&mut bs);
}

pub fn emit_u64(out: &mut Vec<u8>, x: u64)
    ensures
        final(out)@ == old(out)@ + senc_u64(x),
{
    let mut bs = u64_to_le_bytes(x);
    out.append(&mut bs);
}

pub fn emit_i32(out: &mut Vec<u8>, x: i32)
    ensures
        final(out)@ == old(out)@ + senc_i32(x),
{
    emit_u32(out, x as u32);
}

pub fn emit_bytes(out: &mut Vec<u8>, s: &Vec<u8>)
    requires
        s@.len() <= u32::MAX,
    ensures
        final(out)@ == old(out)@ + senc_bytes(s@),
{
    emit_u32(out, s.len() as u32);
    let mut i: usize = 0;
    while i < s.len()
        invariant
            i <= s@.len(),
            out@ == old(out)@ + senc_u32(s@.len() as u32) + s@.subrange(0, i as int),
        decreases s@.len() - i,
    {
        out.push(s[i]);
        proof {
            assert(out@ =~= old(out)@ + senc_u32(s@.len() as u32) + s@.subrange(0, i + 1 as int));
        }
        i = i + 1;
    }
    proof {
        assert(s@.subrange(0, s@.len() as int) =~= s@);
        assert(out@ =~= old(out)@ + senc_bytes(s@));
    }
}

pub fn emit_real_items(out: &mut Vec<u8>, s: &Vec<(i32, u64)>, from: usize)
    requires
        from <= s@.len(),
    ensures
        final(out)@ == old(out)@ + senc_real_items(s@.skip(from as int)),
    decreases s@.len() - from,
{
    if from < s.len() {
        let p = s[from];
        emit_i32(out, p.0);
        emit_u64(out, p.1);
        emit_real_items(out, s, from + 1);
        proof {
            assert(s@.skip(from as int).skip(1) =~= s@.skip(from + 1 as int));
            assert(out@ =~= old(out)@ + senc_real_items(s@.skip(from as int)));
        }
    } else {
        proof {
            assert(out@ =~= old(out)@ + senc_real_items(s@.skip(from as int)));
        }
    }
}

pub fn emit_int_items(out: &mut Vec<u8>, s: &Vec<(i32, i32)>, from: usize)
    requires
        from <= s@.len(),
    ensures
        final(out)@ == old(out)@ + senc_int_items(s@.skip(from as int)),
    decreases s@.len() - from,
{
    if from < s.len() {
        let p = s[from];
        emit_i32(out, p.0);
        emit_i32(out, p.1);
        emit_int_items(out, s, from + 1);
        proof {
            assert(s@.skip(from as int).skip(1) =~= s@.skip(from + 1 as int));
            assert(out@ =~= old(out)@ + senc_int_items(s@.skip(from as int)));
        }
    } else {
        proof {
            assert(out@ =~= old(out)@ + senc_int_items(s@.skip(from as int)));
        }
    }
}

pub fn emit_bool_items(out: &mut Vec<u8>, s: &Vec<(i32, bool)>, from: usize)
    requires
        from <= s@.len(),
    ensures
        final(out)@ == old(out)@ + senc_bool_items(s@.skip(from as int)),
    decreases s@.len() - from,
{
    if from < s.len() {
        let p = s[from];
        emit_i32(out, p.0);
        emit_bool(out, p.1);
        emit_bool_items(out, s, from + 1);
        proof {
            assert(s@.skip(from as int).skip(1) =~= s@.skip(from + 1 as int));
            assert(out@ =~= old(out)@ + senc_bool_items(s@.skip(from as int)));
        }
    } else {
        proof {
            assert(out@ =~= old(out)@ + senc_bool_items(s@.skip(from as int)));
        }
    }
}

pub fn emit_string_items(out: &mut Vec<u8>, s: &Vec<(i32, Vec<u8>)>, from: usize)
    requires
        from <= s@.len(),
        forall|i: int| 0 <= i < s@.len() ==> (#[trigger] s@[i]).1@.len() <= u32::MAX,
    ensures
        final(out)@ == old(out)@ + senc_string_items(
            Seq::new(s@.len(), |i: int| (s@[i].0, s@[i].1@)).skip(from as int),
        ),
    decreases s@.len() - from,
{
    let ghost image = Seq::new(s@.len(), |i: int| (s@[i].0, s@[i].1@));
    if from < s.len() {
        let id = s[from].0;
        emit_i32(out, id);
        emit_u8(out, 1);
        emit_bytes(out, &s[from].1);
        emit_string_items(out, s, from + 1);
        proof {
            assert(image.skip(from as int).skip(1) =~= image.skip(from + 1 as int));
            assert(image.skip(from as int)[0] == (s@[from as int].0, s@[from as int].1@));
            assert(out@ =~= old(out)@ + senc_string_items(image.skip(from as int)));
        }
    } else {
        proof {
            assert(out@ =~= old(out)@ + senc_string_items(image.skip(from as int)));
        }
    }
}

pub fn emit_id_items(out: &mut Vec<u8>, s: &Vec<i32>, from: usize)
    requires
        from <= s@.len(),
    ensures
        final(out)@ == old(out)@ + senc_id_items(s@.skip(from as int)),
    decreases s@.len() - from,
{
    if from < s.len() {
        emit_i32(out, s[from]);
        emit_id_items(out, s, from + 1);
        proof {
            assert(s@.skip(from as int).skip(1) =~= s@.skip(from + 1 as int));
            assert(out@ =~= old(out)@ + senc_id_items(s@.skip(from as int)));
        }
    } else {
        proof {
            assert(out@ =~= old(out)@ + senc_id_items(s@.skip(from as int)));
        }
    }
}

/// Appends the encoding of a whole value map.
pub fn emit_vv(out: &mut Vec<u8>, v: &VarValues)
    requires
        wf_vv(v@),
    ensures
        final(out)@ == old(out)@ + senc_vv(v@),
{
    emit_u32(out, v.real_values.len() as u32);
    emit_real_items(out, &v.real_values, 0);
    emit_u32(out, v.int_values.len() as u32);
    emit_int_items(out, &v.int_values, 0);
    emit_u32(out, v.bool_values.len() as u32);
    emit_bool_items(out, &v.bool_values, 0);
    emit_u32(out, v.string_values.len() as u32);
    proof {
        assert forall|i: int| 0 <= i < v.string_values@.len() implies (#[trigger] v.string_values@[i]).1@.len()
            <= u32::MAX by {
            assert(v@.strings[i] == (v.string_values@[i].0, v.string_values@[i].1@));
        }
    }
    emit_string_items(out, &v.string_values, 0);
    proof {
        assert(v.real_values@.skip(0) =~= v@.reals);
        assert(v.int_values@.skip(0) =~= v@.ints);
        assert(v.bool_values@.skip(0) =~= v@.bools);
        assert(Seq::new(v.string_values@.len(), |i: int| (v.string_values@[i].0, v.string_values@[i].1@)).skip(0)
            =~= v@.strings);
        assert(out@ =~= old(out)@ + senc_vv(v@));
    }
}

/// Appends the encoding of a list of requested ids.
pub fn emit_ids(out: &mut Vec<u8>, s: &Vec<i32>)
    requires
        s@.len() <= u32::MAX,
    ensures
        final(out)@ == old(out)@ + senc_ids(s@),
{
    emit_u32(out, s.len() as u32);
    emit_id_items(out, s, 0);
    proof {
        assert(s@.skip(0) =~= s@);
        assert(out@ =~= old(out)@ + senc_ids(s@));
    }
}

// ---------------------------------------------------------------------
// Executable decoders.  Each parses at a position and returns the value
// with the next position, or nothing where the spec decoder fails.
// ---------------------------------------------------------------------

pub fn parse_u8(b: &[u8], pos: usize) -> (r: Option<(u8, usize)>)
    requires
        pos <= b@.len(),
    ensures
        match r {
            Some(t) => pos <= t.1 <= b@.len() && sdec_u8(b@.skip(pos as int)) == Some(
                (t.0, b@.skip(t.1 as int)),
            ),
            None => sdec_u8(b@.skip(pos as int)) is None,
        },
{
    if b.len() - pos >= 1 {
        let x = *slice_index_get(b, pos);
        proof {
            assert(b@.skip(pos as int)[0] == b@[pos as int]);
            assert(b@.skip(pos as int).skip(1) =~= b@.skip(pos + 1 as int));
        }
        Some((x, pos + 1))
    } else {
        None
    }
}

pub fn parse_bool(b: &[u8], pos: usize) -> (r: Option<(bool, usize)>)
    requires
        pos <= b@.len(),
    ensures
        match r {
            Some(t) => pos <= t.1 <= b@.len() && sdec_bool(b@.skip(pos as int)) == Some(
                (t.0, b@.skip(t.1 as int)),
            ),
            None => sdec_bool(b@.skip(pos as int)) is None,
        },
{
    match parse_u8(b, pos) {
        None => None,
        Some((x, p)) => if x == 0 {
            Some((false, p))
        } else if x == 1 {
            Some((true, p))
        } else {
            None
        },
    }
}

pub fn parse_u32(b: &[u8], pos: usize) -> (r: Option<(u32, usize)>)
    requires
        pos <= b@.len(),
    ensures
        match r {
            Some(t) => pos <= t.1 <= b@.len() && sdec_u32(b@.skip(pos as int)) == Some(
                (t.0, b@.skip(t.1 as int)),
            ),
            None => sdec_u32(b@.skip(pos as int)) is None,
        },
{
    if b.len() - pos >= 4 {
        let s = slice_subrange(b, pos, pos + 4);
        let x = u32_from_le_bytes(s);
        proof {
            assert(b@.skip(pos as int).take(4) =~= b@.subrange(pos as int, pos + 4 as int));
            assert(b@.skip(pos as int).skip(4) =~= b@.skip(pos + 4 as int));
        }
        Some((x, pos + 4))
    } else {
        None
    }
}

pub fn parse_u64(b: &[u8], pos: usize) -> (r: Option<(u64, usize)>)
    requires
        pos <= b@.len(),
    ensures
        match r {
            Some(t) => pos <= t.1 <= b@.len() && sdec_u64(b@.skip(pos as int)) == Some(
                (t.0, b@.skip(t.1 as int)),
            ),
            None => sdec_u64(b@.skip(pos as int)) is None,
        },
{
    if b.len() - pos >= 8 {
        let s = slice_subrange(b, pos, pos + 8);
        let x = u64_from_le_bytes(s);
        proof {
            assert(b@.skip(pos as int).take(8) =~= b@.subrange(pos as int, pos + 8 as int));
            assert(b@.skip(pos as int).skip(8) =~= b@.skip(pos + 8 as int));
        }
        Some((x, pos + 8))
    } else {
        None
    }
}

pub fn parse_i32(b: &[u8], pos: usize) -> (r: Option<(i32, usize)>)
    requires
        pos <= b@.len(),
    ensures
        match r {
            Some(t) => pos <= t.1 <= b@.len() && sdec_i32(b@.skip(pos as int)) == Some(
                (t.0, b@.skip(t.1 as int)),
            ),
            None => sdec_i32(b@.skip(pos as int)) is None,
        },
{
    match parse_u32(b, pos) {
        None => None,
        Some((x, p)) => Some((x as i32, p)),
    }
}

pub fn parse_bytes(b: &[u8], pos: usize) -> (r: Option<(Vec<u8>, usize)>)
    requires
        pos <= b@.len(),
    ensures
        match r {
            Some(t) => pos <= t.1 <= b@.len() && sdec_bytes(b@.skip(pos as int)) == Some(
                (t.0@, b@.skip(t.1 as int)),
            ),
            None => sdec_bytes(b@.skip(pos as int)) is None,
        },
{
    match parse_u32(b, pos) {
        None => None,
        Some((n, p)) => {
            if (b.len() - p) as u64 >= n as u64 {
                let m = n as usize;
                let v = slice_to_vec(slice_subrange(b, p, p + m));
                proof {
                    assert(b@.skip(p as int).take(n as int) =~= b@.subrange(p as int, p + m as int));
                    assert(b@.skip(p as int).skip(n as int) =~= b@.skip(p + m as int));
                }
                Some((v, p + m))
            } else {
                None
            }
        },
    }
}

// ---------------------------------------------------------------------
// Enum code points.
// ---------------------------------------------------------------------

pub open spec fn causality_code(c: CausalityType) -> u8 {
    match c {
        CausalityType::Input => 0,
        CausalityType::Output => 1,
        CausalityType::Local => 2,
        CausalityType::Parameter => 3,
    }
}

pub open spec fn causality_of(x: u8) -> Option<CausalityType> {
    if x == 0 {
        Some(CausalityType::Input)
    } else if x == 1 {
        Some(CausalityType::Output)
    } else if x == 2 {
        Some(CausalityType::Local)
    } else if x == 3 {
        Some(CausalityType::Parameter)
    } else {
        None
    }
}

pub open spec fn vtype_code(t: VariableType) -> u8 {
    match t {
        VariableType::DtasmReal => 0,
        VariableType::DtasmInt => 1,
        VariableType::DtasmBool => 2,
        VariableType::DtasmString => 3,
    }
}

pub open spec fn vtype_of(x: u8) -> Option<VariableType> {
    if x == 0 {
        Some(VariableType::DtasmReal)
    } else if x == 1 {
        Some(VariableType::DtasmInt)
    } else if x == 2 {
        Some(VariableType::DtasmBool)
    } else if x == 3 {
        Some(VariableType::DtasmString)
    } else {
        None
    }
}

pub open spec fn status_code(s: Status) -> u8 {
    match s {
        Status::OK => 0,
        Status::Discard => 1,
        Status::Error => 2,
        Status::Fatal => 3,
    }
}

pub open spec fn status_of(x: u8) -> Option<Status> {
    if x == 0 {
        Some(Status::OK)
    } else if x == 1 {
        Some(Status::Discard)
    } else if x == 2 {
        Some(Status::Error)
    } else if x == 3 {
        Some(Status::Fatal)
    } else {
        None
    }
}

pub open spec fn loglevel_code(l: LogLevel) -> u8 {
    match l {
        LogLevel::Info => 0,
        LogLevel::Warn => 1,
        LogLevel::Error => 2,
    }
}

pub open spec fn loglevel_of(x: u8) -> Option<LogLevel> {
    if x == 0 {
        Some(LogLevel::Info)
    } else if x == 1 {
        Some(LogLevel::Warn)
    } else if x == 2 {
        Some(LogLevel::Error)
    } else {
        None
    }
}

// ---------------------------------------------------------------------
// Default values and model variables.
// ---------------------------------------------------------------------

pub open spec fn senc_varvalue(d: VarValueV) -> Seq<u8> {
    match d {
        VarValueV::Real(x) => senc_u8(1u8) + senc_u64(x),
        VarValueV::Int(x) => senc_u8(2u8) + senc_i32(x),
        VarValueV::Bool(x) => senc_u8(3u8) + senc_bool(x),
        VarValueV::Str(s) => senc_u8(4u8) + senc_bytes(s),
    }
}

pub open spec fn senc_opt_varvalue(d: Option<VarValueV>) -> Seq<u8> {
    match d {
        None => senc_u8(0u8),
        Some(v) => senc_varvalue(v),
    }
}

pub open spec fn sdec_opt_varvalue(b: Seq<u8>) -> Option<(Option<VarValueV>, Seq<u8>)> {
    match sdec_u8(b) {
        None => None,
        Some((tag, r)) => if tag == 0 {
            Some((None::<VarValueV>, r))
        } else if tag == 1 {
            match sdec_u64(r) {
                None => None,
                Some((x, r2)) => Some((Some(VarValueV::Real(x)), r2)),
            }
        } else if tag == 2 {
            match sdec_i32(r) {
                None => None,
                Some((x, r2)) => Some((Some(VarValueV::Int(x)), r2)),
            }
        } else if tag == 3 {
            match sdec_bool(r) {
                None => None,
                Some((x, r2)) => Some((Some(VarValueV::Bool(x)), r2)),
            }
        } else if tag == 4 {
            match sdec_bytes(r) {
                None => None,
                Some((s, r2)) => Some((Some(VarValueV::Str(s)), r2)),
            }
        } else {
            None
        },
    }
}

pub open spec fn senc_mdvar(v: ModelVariableV) -> Seq<u8> {
    senc_i32(v.id) + senc_bytes(v.name) + senc_u8(causality_code(v.causality)) + senc_u8(
        vtype_code(v.value_type),
    ) + senc_opt_varvalue(v.default)
}

pub open spec fn sdec_mdvar(b: Seq<u8>) -> Option<(ModelVariableV, Seq<u8>)> {
    match sdec_i32(b) {
        None => None,
        Some((id, r1)) => match sdec_bytes(r1) {
            None => None,
            Some((name, r2)) => match sdec_u8(r2) {
                None => None,
                Some((cc, r3)) => match causality_of(cc) {
                    None => None,
                    Some(causality) => match sdec_u8(r3) {
                        None => None,
                        Some((tc, r4)) => match vtype_of(tc) {
                            None => None,
                            Some(value_type) => match sdec_opt_varvalue(r4) {
                                None => None,
                                Some((default, r5)) => Some(
                                    (
                                        ModelVariableV {
                                            id,
                                            name,
                                            causality,
                                            value_type,
                                            default,
                                        },
                                        r5,
                                    ),
                                ),
                            },
                        },
                    },
                },
            },
        },
    }
}

pub open spec fn senc_mdvar_items(s: Seq<ModelVariableV>) -> Seq<u8>
    decreases s.len(),
{
    if s.len() == 0 {
        Seq::empty()
    } else {
        senc_mdvar(s[0]) + senc_mdvar_items(s.skip(1))
    }
}

pub open spec fn sdec_mdvar_items(b: Seq<u8>, n: nat) -> Option<(Seq<ModelVariableV>, Seq<u8>)>
    decreases n,
{
    if n == 0 {
        Some((Seq::empty(), b))
    } else {
        match sdec_mdvar(b) {
            None => None,
            Some((v, r1)) => match sdec_mdvar_items(r1, (n - 1) as nat) {
                None => None,
                Some((tail, r2)) => Some((seq![v] + tail, r2)),
            },
        }
    }
}

/// A model description on the wire: its id, then its variables.
pub open spec fn senc_md(m: ModelDescriptionV) -> Seq<u8> {
    senc_bytes(m.id) + senc_u32(m.variables.len() as u32) + senc_mdvar_items(m.variables)
}

pub open spec fn sdec_md(b: Seq<u8>) -> Option<(ModelDescriptionV, Seq<u8>)> {
    match sdec_bytes(b) {
        None => None,
        Some((id, r1)) => match sdec_u32(r1) {
            None => None,
            Some((n, r2)) => match sdec_mdvar_items(r2, n as nat) {
                None => None,
                Some((variables, r3)) => Some((ModelDescriptionV { id, variables }, r3)),
            },
        },
    }
}

// ---------------------------------------------------------------------
// Messages.
// ---------------------------------------------------------------------

/// The `init` request record.
pub open spec fn senc_init_req(
    model_id: Seq<u8>,
    starttime: u64,
    endtime: u64,
    endtime_set: bool,
    tolerance: u64,
    tolerance_set: bool,
    log_level: LogLevel,
    check: bool,
    vals: VarValuesV,
) -> Seq<u8> {
    senc_bytes(model_id) + senc_u64(starttime) + senc_u64(endtime) + senc_bool(endtime_set)
        + senc_u64(tolerance) + senc_bool(tolerance_set) + senc_u8(loglevel_code(log_level))
        + senc_bool(check) + senc_vv(vals)
}

/// Mathematical image of a decoded `init` request.
pub struct InitReqV {
    pub model_id: Seq<u8>,
    pub starttime: u64,
    pub endtime: u64,
    pub endtime_set: bool,
    pub tolerance: u64,
    pub tolerance_set: bool,
    pub log_level: LogLevel,
    pub check: bool,
    pub values: WireVarValuesV,
}

pub open spec fn sdec_init_req(b: Seq<u8>) -> Option<(InitReqV, Seq<u8>)> {
    match sdec_bytes(b) {
        None => None,
        Some((model_id, r1)) => match sdec_u64(r1) {
            None => None,
            Some((starttime, r2)) => match sdec_u64(r2) {
                None => None,
                Some((endtime, r3)) => match sdec_bool(r3) {
                    None => None,
                    Some((endtime_set, r4)) => match sdec_u64(r4) {
                        None => None,
                        Some((tolerance, r5)) => match sdec_bool(r5) {
                            None => None,
                            Some((tolerance_set, r6)) => match sdec_u8(r6) {
                                None => None,
                                Some((lc, r7)) => match loglevel_of(lc) {
                                    None => None,
                                    Some(log_level) => match sdec_bool(r7) {
                                        None => None,
                                        Some((check, r8)) => match sdec_wvv(r8) {
                                            None => None,
                                            Some((values, r9)) => Some(
                                                (
                                                    InitReqV {
                                                        model_id,
                                                        starttime,
                                                        endtime,
                                                        endtime_set,
                                                        tolerance,
                                                        tolerance_set,
                                                        log_level,
                                                        check,
                                                        values,
                                                    },
                                                    r9,
                                                ),
                                            ),
                                        },
                                    },
                                },
                            },
                        },
                    },
                },
            },
        },
    }
}

/// The `doStep` request record: the caller's clock and the step.
pub open spec fn senc_do_step_req(current_time: u64, timestep: u64) -> Seq<u8> {
    senc_u64(current_time) + senc_u64(timestep)
}

pub open spec fn sdec_do_step_req(b: Seq<u8>) -> Option<((u64, u64), Seq<u8>)> {
    match sdec_u64(b) {
        None => None,
        Some((t, r1)) => match sdec_u64(r1) {
            None => None,
            Some((dt, r2)) => Some(((t, dt), r2)),
        },
    }
}

/// The status-only response record.
pub open spec fn senc_status_res(s: Status) -> Seq<u8> {
    senc_u8(status_code(s))
}

pub open spec fn sdec_status_res(b: Seq<u8>) -> Option<(Status, Seq<u8>)> {
    match sdec_u8(b) {
        None => None,
        Some((x, r)) => match status_of(x) {
            None => None,
            Some(s) => Some((s, r)),
        },
    }
}

/// The `doStep` response record: status and the guest's updated clock.
pub open spec fn senc_do_step_res(s: Status, updated_time: u64) -> Seq<u8> {
    senc_u8(status_code(s)) + senc_u64(updated_time)
}

pub open spec fn sdec_do_step_res(b: Seq<u8>) -> Option<((Status, u64), Seq<u8>)> {
    match sdec_status_res(b) {
        None => None,
        Some((s, r1)) => match sdec_u64(r1) {
            None => None,
            Some((t, r2)) => Some(((s, t), r2)),
        },
    }
}

/// The `getValues` response record: status, the guest's clock, values.
pub open spec fn senc_get_values_res(s: Status, current_time: u64, vals: VarValuesV) -> Seq<u8> {
    senc_u8(status_code(s)) + senc_u64(current_time) + senc_vv(vals)
}

pub open spec fn sdec_get_values_res(b: Seq<u8>) -> Option<((Status, u64, WireVarValuesV), Seq<u8>)> {
    match sdec_status_res(b) {
        None => None,
        Some((s, r1)) => match sdec_u64(r1) {
            None => None,
            Some((t, r2)) => match sdec_wvv(r2) {
                None => None,
                Some((v, r3)) => Some(((s, t, v), r3)),
            },
        },
    }
}

// ---------------------------------------------------------------------
// Round-trip laws for the records above.
// ---------------------------------------------------------------------

pub proof fn lemma_rt_opt_varvalue(d: Option<VarValueV>, rest: Seq<u8>)
    requires
        match d {
            Some(v) => wf_varvalue(v),
            None => true,
        },
    ensures
        sdec_opt_varvalue(senc_opt_varvalue(d) + rest) == Some((d, rest)),
{
    match d {
        None => {
            lemma_rt_u8(0u8, rest);
            assert(senc_opt_varvalue(d) + rest =~= senc_u8(0u8) + rest);
        },
        Some(v) => match v {
            VarValueV::Real(x) => {
                assert(senc_opt_varvalue(d) + rest =~= senc_u8(1u8) + (senc_u64(x) + rest));
                lemma_rt_u8(1u8, senc_u64(x) + rest);
                lemma_rt_u64(x, rest);
            },
            VarValueV::Int(x) => {
                assert(senc_opt_varvalue(d) + rest =~= senc_u8(2u8) + (senc_i32(x) + rest));
                lemma_rt_u8(2u8, senc_i32(x) + rest);
                lemma_rt_i32(x, rest);
            },
            VarValueV::Bool(x) => {
                assert(senc_opt_varvalue(d) + rest =~= senc_u8(3u8) + (senc_bool(x) + rest));
                lemma_rt_u8(3u8, senc_bool(x) + rest);
                lemma_rt_bool(x, rest);
            },
            VarValueV::Str(s) => {
                assert(senc_opt_varvalue(d) + rest =~= senc_u8(4u8) + (senc_bytes(s) + rest));
                lemma_rt_u8(4u8, senc_bytes(s) + rest);
                lemma_rt_bytes(s, rest);
            },
        },
    }
}

pub proof fn lemma_rt_mdvar(v: ModelVariableV, rest: Seq<u8>)
    requires
        wf_mdvar(v),
    ensures
        sdec_mdvar(senc_mdvar(v) + rest) == Some((v, rest)),
{
    let t4 = senc_opt_varvalue(v.default) + rest;
    let t3 = senc_u8(vtype_code(v.value_type)) + t4;
    let t2 = senc_u8(causality_code(v.causality)) + t3;
    let t1 = senc_bytes(v.name) + t2;
    assert(senc_mdvar(v) + rest =~= senc_i32(v.id) + t1);
    lemma_rt_i32(v.id, t1);
    assert(t1 =~= senc_bytes(v.name) + t2);
    lemma_rt_bytes(v.name, t2);
    lemma_rt_u8(causality_code(v.causality), t3);
    lemma_rt_u8(vtype_code(v.value_type), t4);
    lemma_rt_opt_varvalue(v.default, rest);
}

#[verifier::rlimit(100)]
pub proof fn lemma_rt_mdvar_items(s: Seq<ModelVariableV>, rest: Seq<u8>)
    requires
        forall|i: int| 0 <= i < s.len() ==> wf_mdvar(#[trigger] s[i]),
    ensures
        sdec_mdvar_items(senc_mdvar_items(s) + rest, s.len()) == Some((s, rest)),
    decreases s.len(),
{
    if s.len() == 0 {
        assert(senc_mdvar_items(s) + rest =~= rest);
    } else {
        let tail = s.skip(1);
        assert(senc_mdvar_items(s) + rest =~= senc_mdvar(s[0]) + (senc_mdvar_items(tail) + rest));
        lemma_rt_mdvar(s[0], senc_mdvar_items(tail) + rest);
        lemma_rt_mdvar_items(tail, rest);
        assert(seq![s[0]] + tail =~= s);
    }
}

/// Round trip for a whole model description.
pub proof fn lemma_rt_md(m: ModelDescriptionV, rest: Seq<u8>)
    requires
        wf_md(m),
    ensures
        sdec_md(senc_md(m) + rest) == Some((m, rest)),
{
    let t2 = senc_mdvar_items(m.variables) + rest;
    let t1 = senc_u32(m.variables.len() as u32) + t2;
    assert(senc_md(m) + rest =~= senc_bytes(m.id) + t1);
    lemma_rt_bytes(m.id, t1);
    lemma_rt_u32(m.variables.len() as u32, t2);
    lemma_rt_mdvar_items(m.variables, rest);
}

/// Round trip for an `init` request.
#[verifier::rlimit(100)]
pub proof fn lemma_rt_init_req(
    model_id: Seq<u8>,
    starttime: u64,
    endtime: u64,
    endtime_set: bool,
    tolerance: u64,
    tolerance_set: bool,
    log_level: LogLevel,
    check: bool,
    vals: VarValuesV,
    rest: Seq<u8>,
)
    requires
        wf_bytes(model_id),
        wf_vv(vals),
    ensures
        sdec_init_req(
            senc_init_req(
                model_id,
                starttime,
                endtime,
                endtime_set,
                tolerance,
                tolerance_set,
                log_level,
                check,
                vals,
            ) + rest,
        ) == Some(
            (
                InitReqV {
                    model_id,
                    starttime,
                    endtime,
                    endtime_set,
                    tolerance,
                    tolerance_set,
                    log_level,
                    check,
                    values: wire_of(vals),
                },
                rest,
            ),
        ),
{
    let t8 = senc_vv(vals) + rest;
    let t7 = senc_bool(check) + t8;
    let t6 = senc_u8(loglevel_code(log_level)) + t7;
    let t5 = senc_bool(tolerance_set) + t6;
    let t4 = senc_u64(tolerance) + t5;
    let t3 = senc_bool(endtime_set) + t4;
    let t2 = senc_u64(endtime) + t3;
    let t1 = senc_u64(starttime) + t2;
    assert(senc_init_req(
        model_id,
        starttime,
        endtime,
        endtime_set,
        tolerance,
        tolerance_set,
        log_level,
        check,
        vals,
    ) + rest =~= senc_bytes(model_id) + t1);
    lemma_rt_bytes(model_id, t1);
    lemma_rt_u64(starttime, t2);
    lemma_rt_u64(endtime, t3);
    lemma_rt_bool(endtime_set, t4);
    lemma_rt_u64(tolerance, t5);
    lemma_rt_bool(tolerance_set, t6);
    lemma_rt_u8(loglevel_code(log_level), t7);
    lemma_rt_bool(check, t8);
    lemma_rt_vv(vals, rest);
}

/// Round trip for a `doStep` request.
pub proof fn lemma_rt_do_step_req(t: u64, dt: u64, rest: Seq<u8>)
    ensures
        sdec_do_step_req(senc_do_step_req(t, dt) + rest) == Some(((t, dt), rest)),
{
    assert(senc_do_step_req(t, dt) + rest =~= senc_u64(t) + (senc_u64(dt) + rest));
    lemma_rt_u64(t, senc_u64(dt) + rest);
    lemma_rt_u64(dt, rest);
}

/// Round trip for a status-only response.
pub proof fn lemma_rt_status_res(s: Status, rest: Seq<u8>)
    ensures
        sdec_status_res(senc_status_res(s) + rest) == Some((s, rest)),
{
    lemma_rt_u8(status_code(s), rest);
}

/// Round trip for a `doStep` response.
pub proof fn lemma_rt_do_step_res(s: Status, t: u64, rest: Seq<u8>)
    ensures
        sdec_do_step_res(senc_do_step_res(s, t) + rest) == Some(((s, t), rest)),
{
    assert(senc_do_step_res(s, t) + rest =~= senc_u8(status_code(s)) + (senc_u64(t) + rest));
    lemma_rt_u8(status_code(s), senc_u64(t) + rest);
    lemma_rt_u64(t, rest);
}

/// Round trip for a `getValues` response.
pub proof fn lemma_rt_get_values_res(s: Status, t: u64, vals: VarValuesV, rest: Seq<u8>)
    requires
        wf_vv(vals),
    ensures
        sdec_get_values_res(senc_get_values_res(s, t, vals) + rest) == Some(
            ((s, t, wire_of(vals)), rest),
        ),
{
    let t2 = senc_vv(vals) + rest;
    let t1 = senc_u64(t) + t2;
    assert(senc_get_values_res(s, t, vals) + rest =~= senc_u8(status_code(s)) + t1);
    lemma_rt_u8(status_code(s), t1);
    lemma_rt_u64(t, t2);
    lemma_rt_vv(vals, rest);
}

// ---------------------------------------------------------------------
// Executable enum code points.
// ---------------------------------------------------------------------

pub fn causality_code_x(c: CausalityType) -> (r: u8)
    ensures
        r == causality_code(c),
{
    match c {
        CausalityType::Input => 0,
        CausalityType::Output => 1,
        CausalityType::Local => 2,
        CausalityType::Parameter => 3,
    }
}

pub fn causality_of_x(x: u8) -> (r: Option<CausalityType>)
    ensures
        r == causality_of(x),
{
    if x == 0 {
        Some(CausalityType::Input)
    } else if x == 1 {
        Some(CausalityType::Output)
    } else if x == 2 {
        Some(CausalityType::Local)
    } else if x == 3 {
        Some(CausalityType::Parameter)
    } else {
        None
    }
}

pub fn vtype_code_x(t: VariableType) -> (r: u8)
    ensures
        r == vtype_code(t),
{
    match t {
        VariableType::DtasmReal => 0,
        VariableType::DtasmInt => 1,
        VariableType::DtasmBool => 2,
        VariableType::DtasmString => 3,
    }
}

pub fn vtype_of_x(x: u8) -> (r: Option<VariableType>)
    ensures
        r == vtype_of(x),
{
    if x == 0 {
        Some(VariableType::DtasmReal)
    } else if x == 1 {
        Some(VariableType::DtasmInt)
    } else if x == 2 {
        Some(VariableType::DtasmBool)
    } else if x == 3 {
        Some(VariableType::DtasmString)
    } else {
        None
    }
}

pub fn status_code_x(s: Status) -> (r: u8)
    ensures
        r == status_code(s),
{
    match s {
        Status::OK => 0,
        Status::Discard => 1,
        Status::Error => 2,
        Status::Fatal => 3,
    }
}

pub fn status_of_x(x: u8) -> (r: Option<Status>)
    ensures
        r == status_of(x),
{
    if x == 0 {
        Some(Status::OK)
    } else if x == 1 {
        Some(Status::Discard)
    } else if x == 2 {
        Some(Status::Error)
    } else if x == 3 {
        Some(Status::Fatal)
    } else {
        None
    }
}

pub fn loglevel_code_x(l: LogLevel) -> (r: u8)
    ensures
        r == loglevel_code(l),
{
    match l {
        LogLevel::Info => 0,
        LogLevel::Warn => 1,
        LogLevel::Error => 2,
    }
}

pub fn loglevel_of_x(x: u8) -> (r: Option<LogLevel>)
    ensures
        r == loglevel_of(x),
{
    if x == 0 {
        Some(LogLevel::Info)
    } else if x == 1 {
        Some(LogLevel::Warn)
    } else if x == 2 {
        Some(LogLevel::Error)
    } else {
        None
    }
}

// ---------------------------------------------------------------------
// Executable message encoders.
// ---------------------------------------------------------------------

/// Appends an `init` request.
#[verifier::rlimit(100)]
pub fn emit_init_req(
    out: &mut Vec<u8>,
    model_id: &Vec<u8>,
    starttime: u64,
    endtime: u64,
    endtime_set: bool,
    tolerance: u64,
    tolerance_set: bool,
    log_level: LogLevel,
    check: bool,
    vals: &VarValues,
)
    requires
        model_id@.len() <= u32::MAX,
        wf_vv(vals@),
    ensures
        final(out)@ == old(out)@ + senc_init_req(
            model_id@,
            starttime,
            endtime,
            endtime_set,
            tolerance,
            tolerance_set,
            log_level,
            check,
            vals@,
        ),
{
    emit_bytes(out, model_id);
    emit_u64(out, starttime);
    emit_u64(out, endtime);
    emit_bool(out, endtime_set);
    emit_u64(out, tolerance);
    emit_bool(out, tolerance_set);
    let lc = loglevel_code_x(log_level);
    emit_u8(out, lc);
    emit_bool(out, check);
    emit_vv(out, vals);
    proof {
        assert(out@ =~= old(out)@ + senc_init_req(
            model_id@,
            starttime,
            endtime,
            endtime_set,
            tolerance,
            tolerance_set,
            log_level,
            check,
            vals@,
        ));
    }
}

/// Appends a `doStep` request.
pub fn emit_do_step_req(out: &mut Vec<u8>, current_time: u64, timestep: u64)
    ensures
        final(out)@ == old(out)@ + senc_do_step_req(current_time, timestep),
{
    emit_u64(out, current_time);
    emit_u64(out, timestep);
    proof {
        assert(out@ =~= old(out)@ + senc_do_step_req(current_time, timestep));
    }
}

/// Appends a status-only response.
pub fn emit_status_res(out: &mut Vec<u8>, s: Status)
    ensures
        final(out)@ == old(out)@ + senc_status_res(s),
{
    let c = status_code_x(s);
    emit_u8(out, c);
}

/// Appends a `doStep` response.
pub fn emit_do_step_res(out: &mut Vec<u8>, s: Status, updated_time: u64)
    ensures
        final(out)@ == old(out)@ + senc_do_step_res(s, updated_time),
{
    let c = status_code_x(s);
    emit_u8(out, c);
    emit_u64(out, updated_time);
    proof {
        assert(out@ =~= old(out)@ + senc_do_step_res(s, updated_time));
    }
}

/// Appends a `getValues` response.
pub fn emit_get_values_res(out: &mut Vec<u8>, s: Status, current_time: u64, vals: &VarValues)
    requires
        wf_vv(vals@),
    ensures
        final(out)@ == old(out)@ + senc_get_values_res(s, current_time, vals@),
{
    let c = status_code_x(s);
    emit_u8(out, c);
    emit_u64(out, current_time);
    emit_vv(out, vals);
    proof {
        assert(out@ =~= old(out)@ + senc_get_values_res(s, current_time, vals@));
    }
}

/// Appends an optional default value.
pub fn emit_opt_varvalue(out: &mut Vec<u8>, d: &Option<VarValue>)
    requires
        match *d {
            Some(v) => wf_varvalue(v@),
            None => true,
        },
    ensures
        final(out)@ == old(out)@ + senc_opt_varvalue(opt_value_view(*d)),
{
    match d {
        None => {
            emit_u8(out, 0);
        },
        Some(v) => match v {
            VarValue::Real(x) => {
                emit_u8(out, 1);
                emit_u64(out, *x);
                proof {
                    assert(out@ =~= old(out)@ + senc_opt_varvalue(opt_value_view(*d)));
                }
            },
            VarValue::Int(x) => {
                emit_u8(out, 2);
                emit_i32(out, *x);
                proof {
                    assert(out@ =~= old(out)@ + senc_opt_varvalue(opt_value_view(*d)));
                }
            },
            VarValue::Bool(x) => {
                emit_u8(out, 3);
                emit_bool(out, *x);
                proof {
                    assert(out@ =~= old(out)@ + senc_opt_varvalue(opt_value_view(*d)));
                }
            },
            VarValue::Str(s) => {
                emit_u8(out, 4);
                emit_bytes(out, s);
                proof {
                    assert(out@ =~= old(out)@ + senc_opt_varvalue(opt_value_view(*d)));
                }
            },
        },
    }
}

/// Appends one model variable.
pub fn emit_mdvar(out: &mut Vec<u8>, v: &ModelVariable)
    requires
        wf_mdvar(v@),
    ensures
        final(out)@ == old(out)@ + senc_mdvar(v@),
{
    emit_i32(out, v.id);
    emit_bytes(out, &v.name);
    let cc = causality_code_x(v.causality);
    emit_u8(out, cc);
    let tc = vtype_code_x(v.value_type);
    emit_u8(out, tc);
    emit_opt_varvalue(out, &v.default);
    proof {
        assert(out@ =~= old(out)@ + senc_mdvar(v@));
    }
}

pub fn emit_mdvar_items(out: &mut Vec<u8>, s: &Vec<ModelVariable>, from: usize)
    requires
        from <= s@.len(),
        forall|i: int| 0 <= i < s@.len() ==> wf_mdvar((#[trigger] s@[i])@),
    ensures
        final(out)@ == old(out)@ + senc_mdvar_items(
            Seq::new(s@.len(), |i: int| s@[i]@).skip(from as int),
        ),
    decreases s@.len() - from,
{
    let ghost image = Seq::new(s@.len(), |i: int| s@[i]@);
    if from < s.len() {
        emit_mdvar(out, &s[from]);
        emit_mdvar_items(out, s, from + 1);
        proof {
            assert(image.skip(from as int).skip(1) =~= image.skip(from + 1 as int));
            assert(image.skip(from as int)[0] == s@[from as int]@);
            assert(out@ =~= old(out)@ + senc_mdvar_items(image.skip(from as int)));
        }
    } else {
        proof {
            assert(out@ =~= old(out)@ + senc_mdvar_items(image.skip(from as int)));
        }
    }
}

/// Appends a whole model description.
pub fn emit_md(out: &mut Vec<u8>, m: &ModelDescription)
    requires
        wf_md(m@),
    ensures
        final(out)@ == old(out)@ + senc_md(m@),
{
    emit_bytes(out, &m.id);
    emit_u32(out, m.variables.len() as u32);
    proof {
        assert forall|i: int| 0 <= i < m.variables@.len() implies wf_mdvar(
            (#[trigger] m.variables@[i])@,
        ) by {
            assert(m@.variables[i] == m.variables@[i]@);
        }
    }
    emit_mdvar_items(out, &m.variables, 0);
    proof {
        assert(Seq::new(m.variables@.len(), |i: int| m.variables@[i]@).skip(0) =~= m@.variables);
        assert(out@ =~= old(out)@ + senc_md(m@));
    }
}

// ---------------------------------------------------------------------
// Executable message parsers.
// ---------------------------------------------------------------------

pub fn parse_real_items(b: &[u8], pos: usize, n: u32) -> (r: Option<(Vec<(i32, u64)>, usize)>)
    requires
        pos <= b@.len(),
    ensures
        match r {
            Some(t) => pos <= t.1 <= b@.len() && sdec_real_items(b@.skip(pos as int), n as nat)
                == Some((t.0@, b@.skip(t.1 as int))),
            None => sdec_real_items(b@.skip(pos as int), n as nat) is None,
        },
    decreases n,
{
    if n == 0 {
        Some((Vec::new(), pos))
    } else {
        match parse_i32(b, pos) {
            None => None,
            Some((id, p1)) => match parse_u64(b, p1) {
                None => None,
                Some((x, p2)) => match parse_real_items(b, p2, n - 1) {
                    None => None,
                    Some((mut tail, p3)) => {
                        let ghost tail_view = tail@;
                        tail.insert(0, (id, x));
                        proof {
                            assert(tail@ =~= seq![(id, x)] + tail_view);
                        }
                        Some((tail, p3))
                    },
                },
            },
        }
    }
}

pub fn parse_int_items(b: &[u8], pos: usize, n: u32) -> (r: Option<(Vec<(i32, i32)>, usize)>)
    requires
        pos <= b@.len(),
    ensures
        match r {
            Some(t) => pos <= t.1 <= b@.len() && sdec_int_items(b@.skip(pos as int), n as nat)
                == Some((t.0@, b@.skip(t.1 as int))),
            None => sdec_int_items(b@.skip(pos as int), n as nat) is None,
        },
    decreases n,
{
    if n == 0 {
        Some((Vec::new(), pos))
    } else {
        match parse_i32(b, pos) {
            None => None,
            Some((id, p1)) => match parse_i32(b, p1) {
                None => None,
                Some((x, p2)) => match parse_int_items(b, p2, n - 1) {
                    None => None,
                    Some((mut tail, p3)) => {
                        let ghost tail_view = tail@;
                        tail.insert(0, (id, x));
                        proof {
                            assert(tail@ =~= seq![(id, x)] + tail_view);
                        }
                        Some((tail, p3))
                    },
                },
            },
        }
    }
}

pub fn parse_bool_items(b: &[u8], pos: usize, n: u32) -> (r: Option<(Vec<(i32, bool)>, usize)>)
    requires
        pos <= b@.len(),
    ensures
        match r {
            Some(t) => pos <= t.1 <= b@.len() && sdec_bool_items(b@.skip(pos as int), n as nat)
                == Some((t.0@, b@.skip(t.1 as int))),
            None => sdec_bool_items(b@.skip(pos as int), n as nat) is None,
        },
    decreases n,
{
    if n == 0 {
        Some((Vec::new(), pos))
    } else {
        match parse_i32(b, pos) {
            None => None,
            Some((id, p1)) => match parse_bool(b, p1) {
                None => None,
                Some((x, p2)) => match parse_bool_items(b, p2, n - 1) {
                    None => None,
                    Some((mut tail, p3)) => {
                        let ghost tail_view = tail@;
                        tail.insert(0, (id, x));
                        proof {
                            assert(tail@ =~= seq![(id, x)] + tail_view);
                        }
                        Some((tail, p3))
                    },
                },
            },
        }
    }
}

pub fn parse_string_items(b: &[u8], pos: usize, n: u32) -> (r: Option<
    (Vec<(i32, Option<Vec<u8>>)>, usize),
>)
    requires
        pos <= b@.len(),
    ensures
        match r {
            Some(t) => pos <= t.1 <= b@.len() && sdec_string_items(b@.skip(pos as int), n as nat)
                == Some(
                (
                    Seq::new(t.0@.len(), |i: int| crate::types::wire_string_view(t.0@[i])),
                    b@.skip(t.1 as int),
                ),
            ),
            None => sdec_string_items(b@.skip(pos as int), n as nat) is None,
        },
    decreases n,
{
    if n == 0 {
        let v: Vec<(i32, Option<Vec<u8>>)> = Vec::new();
        proof {
            assert(Seq::new(v@.len(), |i: int| crate::types::wire_string_view(v@[i])) =~= Seq::<
                (i32, Option<Seq<u8>>),
            >::empty());
        }
        Some((v, pos))
    } else {
        match parse_i32(b, pos) {
            None => None,
            Some((id, p1)) => match parse_u8(b, p1) {
                None => None,
                Some((flag, p2)) => {
                    if flag == 0 {
                        match parse_string_items(b, p2, n - 1) {
                            None => None,
                            Some((mut tail, p3)) => {
                                let ghost tail_view = tail@;
                                tail.insert(0, (id, None));
                                proof {
                                    assert(Seq::new(
                                        tail@.len(),
                                        |i: int| crate::types::wire_string_view(tail@[i]),
                                    ) =~= seq![(id, None::<Seq<u8>>)] + Seq::new(
                                        tail_view.len(),
                                        |i: int| crate::types::wire_string_view(tail_view[i]),
                                    ));
                                }
                                Some((tail, p3))
                            },
                        }
                    } else if flag == 1 {
                        match parse_bytes(b, p2) {
                            None => None,
                            Some((val, p3)) => match parse_string_items(b, p3, n - 1) {
                                None => None,
                                Some((mut tail, p4)) => {
                                    let ghost tail_view = tail@;
                                    let ghost val_view = val@;
                                    tail.insert(0, (id, Some(val)));
                                    proof {
                                        assert(Seq::new(
                                            tail@.len(),
                                            |i: int| crate::types::wire_string_view(tail@[i]),
                                        ) =~= seq![(id, Some(val_view))] + Seq::new(
                                            tail_view.len(),
                                            |i: int| crate::types::wire_string_view(tail_view[i]),
                                        ));
                                    }
                                    Some((tail, p4))
                                },
                            },
                        }
                    } else {
                        None
                    }
                },
            },
        }
    }
}

pub fn parse_id_items(b: &[u8], pos: usize, n: u32) -> (r: Option<(Vec<i32>, usize)>)
    requires
        pos <= b@.len(),
    ensures
        match r {
            Some(t) => pos <= t.1 <= b@.len() && sdec_id_items(b@.skip(pos as int), n as nat)
                == Some((t.0@, b@.skip(t.1 as int))),
            None => sdec_id_items(b@.skip(pos as int), n as nat) is None,
        },
    decreases n,
{
    if n == 0 {
        Some((Vec::new(), pos))
    } else {
        match parse_i32(b, pos) {
            None => None,
            Some((id, p1)) => match parse_id_items(b, p1, n - 1) {
                None => None,
                Some((mut tail, p2)) => {
                    let ghost tail_view = tail@;
                    tail.insert(0, id);
                    proof {
                        assert(tail@ =~= seq![id] + tail_view);
                    }
                    Some((tail, p2))
                },
            },
        }
    }
}

/// Parses a whole value map as it stands on the wire.
pub fn parse_wvv(b: &[u8], pos: usize) -> (r: Option<(WireVarValues, usize)>)
    requires
        pos <= b@.len(),
    ensures
        match r {
            Some(t) => pos <= t.1 <= b@.len() && sdec_wvv(b@.skip(pos as int)) == Some(
                (t.0@, b@.skip(t.1 as int)),
            ),
            None => sdec_wvv(b@.skip(pos as int)) is None,
        },
{
    match parse_u32(b, pos) {
        None => None,
        Some((nr, p1)) => match parse_real_items(b, p1, nr) {
            None => None,
            Some((reals, p2)) => match parse_u32(b, p2) {
                None => None,
                Some((ni, p3)) => match parse_int_items(b, p3, ni) {
                    None => None,
                    Some((ints, p4)) => match parse_u32(b, p4) {
                        None => None,
                        Some((nb, p5)) => match parse_bool_items(b, p5, nb) {
                            None => None,
                            Some((bools, p6)) => match parse_u32(b, p6) {
                                None => None,
                                Some((ns, p7)) => match parse_string_items(b, p7, ns) {
                                    None => None,
                                    Some((strings, p8)) => {
                                        let w = WireVarValues {
                                            real_values: reals,
                                            int_values: ints,
                                            bool_values: bools,
                                            string_values: strings,
                                        };
                                        Some((w, p8))
                                    },
                                },
                            },
                        },
                    },
                },
            },
        },
    }
}

/// Parses a `getValues` request: the list of requested ids.
pub fn parse_ids(b: &[u8], pos: usize) -> (r: Option<(Vec<i32>, usize)>)
    requires
        pos <= b@.len(),
    ensures
        match r {
            Some(t) => pos <= t.1 <= b@.len() && sdec_ids(b@.skip(pos as int)) == Some(
                (t.0@, b@.skip(t.1 as int)),
            ),
            None => sdec_ids(b@.skip(pos as int)) is None,
        },
{
    match parse_u32(b, pos) {
        None => None,
        Some((n, p1)) => parse_id_items(b, p1, n),
    }
}

/// Parses an optional default value.
pub fn parse_opt_varvalue(b: &[u8], pos: usize) -> (r: Option<(Option<VarValue>, usize)>)
    requires
        pos <= b@.len(),
    ensures
        match r {
            Some(t) => pos <= t.1 <= b@.len() && sdec_opt_varvalue(b@.skip(pos as int)) == Some(
                (crate::types::opt_value_view(t.0), b@.skip(t.1 as int)),
            ),
            None => sdec_opt_varvalue(b@.skip(pos as int)) is None,
        },
{
    match parse_u8(b, pos) {
        None => None,
        Some((tag, p1)) => {
            if tag == 0 {
                Some((None, p1))
            } else if tag == 1 {
                match parse_u64(b, p1) {
                    None => None,
                    Some((x, p2)) => Some((Some(VarValue::Real(x)), p2)),
                }
            } else if tag == 2 {
                match parse_i32(b, p1) {
                    None => None,
                    Some((x, p2)) => Some((Some(VarValue::Int(x)), p2)),
                }
            } else if tag == 3 {
                match parse_bool(b, p1) {
                    None => None,
                    Some((x, p2)) => Some((Some(VarValue::Bool(x)), p2)),
                }
            } else if tag == 4 {
                match parse_bytes(b, p1) {
                    None => None,
                    Some((s, p2)) => Some((Some(VarValue::Str(s)), p2)),
                }
            } else {
                None
            }
        },
    }
}

/// Parses one model variable.
pub fn parse_mdvar(b: &[u8], pos: usize) -> (r: Option<(ModelVariable, usize)>)
    requires
        pos <= b@.len(),
    ensures
        match r {
            Some(t) => pos <= t.1 <= b@.len() && sdec_mdvar(b@.skip(pos as int)) == Some(
                (t.0@, b@.skip(t.1 as int)),
            ),
            None => sdec_mdvar(b@.skip(pos as int)) is None,
        },
{
    match parse_i32(b, pos) {
        None => None,
        Some((id, p1)) => match parse_bytes(b, p1) {
            None => None,
            Some((name, p2)) => match parse_u8(b, p2) {
                None => None,
                Some((cc, p3)) => match causality_of_x(cc) {
                    None => None,
                    Some(causality) => match parse_u8(b, p3) {
                        None => None,
                        Some((tc, p4)) => match vtype_of_x(tc) {
                            None => None,
                            Some(value_type) => match parse_opt_varvalue(b, p4) {
                                None => None,
                                Some((default, p5)) => Some(
                                    (
                                        ModelVariable { id, name, causality, value_type, default },
                                        p5,
                                    ),
                                ),
                            },
                        },
                    },
                },
            },
        },
    }
}

pub fn parse_mdvar_items(b: &[u8], pos: usize, n: u32) -> (r: Option<(Vec<ModelVariable>, usize)>)
    requires
        pos <= b@.len(),
    ensures
        match r {
            Some(t) => pos <= t.1 <= b@.len() && sdec_mdvar_items(b@.skip(pos as int), n as nat)
                == Some((Seq::new(t.0@.len(), |i: int| t.0@[i]@), b@.skip(t.1 as int))),
            None => sdec_mdvar_items(b@.skip(pos as int), n as nat) is None,
        },
    decreases n,
{
    if n == 0 {
        let v: Vec<ModelVariable> = Vec::new();
        proof {
            assert(Seq::new(v@.len(), |i: int| v@[i]@) =~= Seq::<ModelVariableV>::empty());
        }
        Some((v, pos))
    } else {
        match parse_mdvar(b, pos) {
            None => None,
            Some((head, p1)) => match parse_mdvar_items(b, p1, n - 1) {
                None => None,
                Some((mut tail, p2)) => {
                    let ghost tail_view = tail@;
                    let ghost head_view = head@;
                    tail.insert(0, head);
                    proof {
                        assert(Seq::new(tail@.len(), |i: int| tail@[i]@) =~= seq![head_view]
                            + Seq::new(tail_view.len(), |i: int| tail_view[i]@));
                    }
                    Some((tail, p2))
                },
            },
        }
    }
}

/// Parses a whole model description.
pub fn parse_md(b: &[u8], pos: usize) -> (r: Option<(ModelDescription, usize)>)
    requires
        pos <= b@.len(),
    ensures
        match r {
            Some(t) => pos <= t.1 <= b@.len() && sdec_md(b@.skip(pos as int)) == Some(
                (t.0@, b@.skip(t.1 as int)),
            ),
            None => sdec_md(b@.skip(pos as int)) is None,
        },
{
    match parse_bytes(b, pos) {
        None => None,
        Some((id, p1)) => match parse_u32(b, p1) {
            None => None,
            Some((n, p2)) => match parse_mdvar_items(b, p2, n) {
                None => None,
                Some((variables, p3)) => Some((ModelDescription { id, variables }, p3)),
            },
        },
    }
}

/// A decoded `init` request.
pub struct InitReq {
    pub model_id: Vec<u8>,
    pub starttime: u64,
    pub endtime: u64,
    pub endtime_set: bool,
    pub tolerance: u64,
    pub tolerance_set: bool,
    pub log_level: LogLevel,
    pub check: bool,
    pub values: WireVarValues,
}

impl View for InitReq {
    type V = InitReqV;

    open spec fn view(&self) -> InitReqV {
        InitReqV {
            model_id: self.model_id@,
            starttime: self.starttime,
            endtime: self.endtime,
            endtime_set: self.endtime_set,
            tolerance: self.tolerance,
            tolerance_set: self.tolerance_set,
            log_level: self.log_level,
            check: self.check,
            values: self.values@,
        }
    }
}

/// Parses an `init` request.
pub fn parse_init_req(b: &[u8], pos: usize) -> (r: Option<(InitReq, usize)>)
    requires
        pos <= b@.len(),
    ensures
        match r {
            Some(t) => pos <= t.1 <= b@.len() && sdec_init_req(b@.skip(pos as int)) == Some(
                (t.0@, b@.skip(t.1 as int)),
            ),
            None => sdec_init_req(b@.skip(pos as int)) is None,
        },
{
    match parse_bytes(b, pos) {
        None => None,
        Some((model_id, p1)) => match parse_u64(b, p1) {
            None => None,
            Some((starttime, p2)) => match parse_u64(b, p2) {
                None => None,
                Some((endtime, p3)) => match parse_bool(b, p3) {
                    None => None,
                    Some((endtime_set, p4)) => match parse_u64(b, p4) {
                        None => None,
                        Some((tolerance, p5)) => match parse_bool(b, p5) {
                            None => None,
                            Some((tolerance_set, p6)) => match parse_u8(b, p6) {
                                None => None,
                                Some((lc, p7)) => match loglevel_of_x(lc) {
                                    None => None,
                                    Some(log_level) => match parse_bool(b, p7) {
                                        None => None,
                                        Some((check, p8)) => match parse_wvv(b, p8) {
                                            None => None,
                                            Some((values, p9)) => Some(
                                                (
                                                    InitReq {
                                                        model_id,
                                                        starttime,
                                                        endtime,
                                                        endtime_set,
                                                        tolerance,
                                                        tolerance_set,
                                                        log_level,
                                                        check,
                                                        values,
                                                    },
                                                    p9,
                                                ),
                                            ),
                                        },
                                    },
                                },
                            },
                        },
                    },
                },
            },
        },
    }
}

/// Parses a `doStep` request.
pub fn parse_do_step_req(b: &[u8], pos: usize) -> (r: Option<((u64, u64), usize)>)
    requires
        pos <= b@.len(),
    ensures
        match r {
            Some(t) => pos <= t.1 <= b@.len() && sdec_do_step_req(b@.skip(pos as int)) == Some(
                (t.0, b@.skip(t.1 as int)),
            ),
            None => sdec_do_step_req(b@.skip(pos as int)) is None,
        },
{
    match parse_u64(b, pos) {
        None => None,
        Some((t, p1)) => match parse_u64(b, p1) {
            None => None,
            Some((dt, p2)) => Some(((t, dt), p2)),
        },
    }
}

/// Parses a status-only response.
pub fn parse_status_res(b: &[u8], pos: usize) -> (r: Option<(Status, usize)>)
    requires
        pos <= b@.len(),
    ensures
        match r {
            Some(t) => pos <= t.1 <= b@.len() && sdec_status_res(b@.skip(pos as int)) == Some(
                (t.0, b@.skip(t.1 as int)),
            ),
            None => sdec_status_res(b@.skip(pos as int)) is None,
        },
{
    match parse_u8(b, pos) {
        None => None,
        Some((x, p1)) => match status_of_x(x) {
            None => None,
            Some(s) => Some((s, p1)),
        },
    }
}

/// Parses a `doStep` response.
pub fn parse_do_step_res(b: &[u8], pos: usize) -> (r: Option<((Status, u64), usize)>)
    requires
        pos <= b@.len(),
    ensures
        match r {
            Some(t) => pos <= t.1 <= b@.len() && sdec_do_step_res(b@.skip(pos as int)) == Some(
                (t.0, b@.skip(t.1 as int)),
            ),
            None => sdec_do_step_res(b@.skip(pos as int)) is None,
        },
{
    match parse_status_res(b, pos) {
        None => None,
        Some((s, p1)) => match parse_u64(b, p1) {
            None => None,
            Some((t, p2)) => Some(((s, t), p2)),
        },
    }
}

/// Parses a `getValues` response.
pub fn parse_get_values_res(b: &[u8], pos: usize) -> (r: Option<((Status, u64, WireVarValues), usize)>)
    requires
        pos <= b@.len(),
    ensures
        match r {
            Some(t) => pos <= t.1 <= b@.len() && sdec_get_values_res(b@.skip(pos as int)) == Some(
                ((t.0.0, t.0.1, t.0.2@), b@.skip(t.1 as int)),
            ),
            None => sdec_get_values_res(b@.skip(pos as int)) is None,
        },
{
    match parse_status_res(b, pos) {
        None => None,
        Some((s, p1)) => match parse_u64(b, p1) {
            None => None,
            Some((t, p2)) => match parse_wvv(b, p2) {
                None => None,
                Some((v, p3)) => Some(((s, t, v), p3)),
            },
        },
    }
}

} // verus!
