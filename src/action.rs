//! Code actions, the instruction records inside object events and timeline
//! moments, and how lists of them are encoded.
use vstd::prelude::*;
use crate::bytes::{bool_le, fits, i32_le, pas, put_bool, put_i32, put_str, put_u32, u32_le};

verus! {

/// One action of an event or a moment.
#[derive(Debug, Clone)]
pub struct CodeAction {
    pub id: u32,
    pub applies_to: i32,
    pub is_condition: bool,
    pub invert_condition: bool,
    pub is_relative: bool,
    pub lib_id: u32,
    pub action_kind: u32,
    pub execution_type: u32,
    pub can_be_relative: u32,
    pub applies_to_something: bool,
    pub fn_name: Vec<u8>,
    pub fn_code: Vec<u8>,
    pub param_count: u32,
    pub param_types: Vec<u32>,
    pub param_strings: Vec<Vec<u8>>,
}

/// Integers one after another.
pub open spec fn u32s_bytes(s: Seq<u32>) -> Seq<u8>
    decreases s.len(),
{
    if s.len() == 0 {
        Seq::empty()
    } else {
        u32s_bytes(s.drop_last()) + u32_le(s.last())
    }
}

/// Strings one after another, each with its length in front.
pub open spec fn strs_bytes(s: Seq<Vec<u8>>) -> Seq<u8>
    decreases s.len(),
{
    if s.len() == 0 {
        Seq::empty()
    } else {
        strs_bytes(s.drop_last()) + pas(s.last()@)
    }
}

/// Whether every string of `s` fits its length field.
pub open spec fn strs_fit(s: Seq<Vec<u8>>) -> bool {
    forall|i: int| 0 <= i < s.len() ==> fits(#[trigger] s[i]@)
}

/// Whether an action can be encoded.
pub open spec fn action_ok(a: CodeAction) -> bool {
    &&& fits(a.fn_name@)
    &&& fits(a.fn_code@)
    &&& a.param_types.len() <= u32::MAX
    &&& a.param_strings.len() <= u32::MAX
    &&& strs_fit(a.param_strings@)
}

/// The fixed fields of an action, up to its code.
pub open spec fn action_head(a: CodeAction) -> Seq<u8> {
    u32_le(440) + u32_le(a.lib_id) + u32_le(a.id) + u32_le(a.action_kind) + u32_le(
        a.can_be_relative,
    ) + bool_le(a.is_condition) + bool_le(a.applies_to_something) + u32_le(a.execution_type) + pas(
        a.fn_name@,
    ) + pas(a.fn_code@)
}

/// The parameters of an action and the fields that follow them.
pub open spec fn action_params(a: CodeAction) -> Seq<u8> {
    u32_le(a.param_count) + u32_le(a.param_types.len() as u32) + u32s_bytes(a.param_types@)
        + i32_le(a.applies_to) + bool_le(a.is_relative) + u32_le(a.param_strings.len() as u32)
        + strs_bytes(a.param_strings@) + bool_le(a.invert_condition)
}

/// The bytes of an action.
pub open spec fn action_bytes(a: CodeAction) -> Seq<u8> {
    action_head(a) + action_params(a)
}

/// The actions one after another.
pub open spec fn actions_concat(s: Seq<CodeAction>) -> Seq<u8>
    decreases s.len(),
{
    if s.len() == 0 {
        Seq::empty()
    } else {
        actions_concat(s.drop_last()) + action_bytes(s.last())
    }
}

/// Whether a list of actions can be encoded.
pub open spec fn actions_ok(s: Seq<CodeAction>) -> bool {
    s.len() <= u32::MAX && forall|i: int| 0 <= i < s.len() ==> action_ok(#[trigger] s[i])
}

/// The bytes of a list of actions: a version marker, the count, the actions.
pub open spec fn actions_bytes(s: Seq<CodeAction>) -> Seq<u8> {
    u32_le(400) + u32_le(s.len() as u32) + actions_concat(s)
}

fn put_u32s(out: &mut Vec<u8>, s: &Vec<u32>)
    ensures
        final(out)@ == old(out)@ + u32s_bytes(s@),
{
    let mut i: usize = 0;
    while i < s.len()
        invariant
            i <= s.len(),
            out@ == old(out)@ + u32s_bytes(s@.subrange(0, i as int)),
        decreases s.len() - i,
    {
        assert(s@.subrange(0, i + 1).drop_last() =~= s@.subrange(0, i as int));
        put_u32(out, s[i]);
        i = i + 1;
        assert(out@ =~= old(out)@ + u32s_bytes(s@.subrange(0, i as int)));
    }
    assert(s@.subrange(0, s.len() as int) =~= s@);
}

pub fn put_strs(out: &mut Vec<u8>, s: &Vec<Vec<u8>>) -> (ok: bool)
    ensures
        ok == strs_fit(s@),
        ok ==> final(out)@ == old(out)@ + strs_bytes(s@),
{
    let mut i: usize = 0;
    while i < s.len()
        invariant
            i <= s.len(),
            strs_fit(s@.subrange(0, i as int)),
            out@ == old(out)@ + strs_bytes(s@.subrange(0, i as int)),
        decreases s.len() - i,
    {
        assert(s@.subrange(0, i + 1).drop_last() =~= s@.subrange(0, i as int));
        if !put_str(out, &s[i]) {
            return false;
        }
        i = i + 1;
        assert(out@ =~= old(out)@ + strs_bytes(s@.subrange(0, i as int)));
    }
    assert(s@.subrange(0, s.len() as int) =~= s@);
    true
}

fn put_action_head(out: &mut Vec<u8>, a: &CodeAction) -> (ok: bool)
    ensures
        ok == (fits(a.fn_name@) && fits(a.fn_code@)),
        ok ==> final(out)@ == old(out)@ + action_head(*a),
{
    put_u32(out, 440);
    put_u32(out, a.lib_id);
    put_u32(out, a.id);
    put_u32(out, a.action_kind);
    put_u32(out, a.can_be_relative);
    put_bool(out, a.is_condition);
    put_bool(out, a.applies_to_something);
    put_u32(out, a.execution_type);
    if !put_str(out, &a.fn_name) {
        return false;
    }
    if !put_str(out, &a.fn_code) {
        return false;
    }
    assert(out@ =~= old(out)@ + action_head(*a));
    true
}

#[verifier::rlimit(30)]
fn put_action_params(out: &mut Vec<u8>, a: &CodeAction) -> (ok: bool)
    requires
        a.param_types.len() <= u32::MAX,
        a.param_strings.len() <= u32::MAX,
    ensures
        ok == strs_fit(a.param_strings@),
        ok ==> final(out)@ == old(out)@ + action_params(*a),
{
    put_u32(out, a.param_count);
    put_u32(out, a.param_types.len() as u32);
    put_u32s(out, &a.param_types);
    put_i32(out, a.applies_to);
    put_bool(out, a.is_relative);
    put_u32(out, a.param_strings.len() as u32);
    if !put_strs(out, &a.param_strings) {
        return false;
    }
    put_bool(out, a.invert_condition);
    assert(out@ =~= old(out)@ + action_params(*a));
    true
}

/// Appends one action; false when it cannot be encoded.
pub fn put_action(out: &mut Vec<u8>, a: &CodeAction) -> (ok: bool)
    ensures
        ok == action_ok(*a),
        ok ==> final(out)@ == old(out)@ + action_bytes(*a),
{
    if a.param_types.len() > u32::MAX as usize || a.param_strings.len() > u32::MAX as usize {
        return false;
    }
    if !put_action_head(out, a) {
        return false;
    }
    if !put_action_params(out, a) {
        return false;
    }
    assert(out@ =~= old(out)@ + action_bytes(*a));
    true
}

/// Appends a list of actions; false when one of them cannot be encoded.
pub fn put_actions(out: &mut Vec<u8>, s: &Vec<CodeAction>) -> (ok: bool)
    ensures
        ok == actions_ok(s@),
        ok ==> final(out)@ == old(out)@ + actions_bytes(s@),
{
    if s.len() > u32::MAX as usize {
        return false;
    }
    put_u32(out, 400);
    put_u32(out, s.len() as u32);
    let ghost start = out@;
    let mut i: usize = 0;
    while i < s.len()
        invariant
            i <= s.len(),
            s.len() <= u32::MAX,
            forall|j: int| 0 <= j < i ==> action_ok(#[trigger] s@[j]),
            out@ == start + actions_concat(s@.subrange(0, i as int)),
        decreases s.len() - i,
    {
        assert(s@.subrange(0, i + 1).drop_last() =~= s@.subrange(0, i as int));
        if !put_action(out, &s[i]) {
            return false;
        }
        i = i + 1;
        assert(out@ =~= start + actions_concat(s@.subrange(0, i as int)));
    }
    assert(s@.subrange(0, s.len() as int) =~= s@);
    assert(out@ =~= old(out)@ + actions_bytes(s@));
    true
}

/// Actions under a key: a timeline moment keyed by its step, or an object
/// sub-event keyed by its number.
#[derive(Debug, Clone)]
pub struct ActionList {
    pub key: u32,
    pub actions: Vec<CodeAction>,
}

/// Each list as its key followed by its actions.
pub open spec fn lists_concat(s: Seq<ActionList>) -> Seq<u8>
    decreases s.len(),
{
    if s.len() == 0 {
        Seq::empty()
    } else {
        lists_concat(s.drop_last()) + u32_le(s.last().key) + actions_bytes(s.last().actions@)
    }
}

/// Whether every list's actions can be encoded.
pub open spec fn lists_ok(s: Seq<ActionList>) -> bool {
    forall|i: int| 0 <= i < s.len() ==> actions_ok((#[trigger] s[i]).actions@)
}

/// Appends each list as its key and its actions; false when an action cannot
/// be encoded.
pub fn put_lists(out: &mut Vec<u8>, s: &Vec<ActionList>) -> (ok: bool)
    ensures
        ok == lists_ok(s@),
        ok ==> final(out)@ == old(out)@ + lists_concat(s@),
{
    let mut i: usize = 0;
    while i < s.len()
        invariant
            i <= s.len(),
            forall|j: int| 0 <= j < i ==> actions_ok((#[trigger] s@[j]).actions@),
            out@ == old(out)@ + lists_concat(s@.subrange(0, i as int)),
        decreases s.len() - i,
    {
        assert(s@.subrange(0, i + 1).drop_last() =~= s@.subrange(0, i as int));
        put_u32(out, s[i].key);
        if !put_actions(out, &s[i].actions) {
            return false;
        }
        i = i + 1;
        assert(out@ =~= old(out)@ + lists_concat(s@.subrange(0, i as int)));
    }
    assert(s@.subrange(0, s.len() as int) =~= s@);
    true
}

} // verus!
