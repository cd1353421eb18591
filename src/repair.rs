//! Repair of code actions that a faulty decompilation left with the wrong
//! identifiers: a code block run as code is given the identifiers of the
//! standard "execute code" action. Its parameters, the code, are kept.
use vstd::prelude::*;
use crate::action::{action_bytes, lists_concat, lists_ok, ActionList, CodeAction};
use crate::asset::{events_concat, events_ok, FormatVersion, Object, Record, Timeline};

verus! {

/// The action kind of a code block.
pub const KIND_CODE: u32 = 7;

/// The execution type of an action that runs code.
pub const EXECUTE_CODE: u32 = 2;

/// The action id of the standard "execute code" action.
pub const EXECUTE_CODE_ID: u32 = 603;

/// The library that holds the standard "execute code" action.
pub const EXECUTE_CODE_LIB: u32 = 1;

/// Whether an action has the shape that repair rewrites.
pub open spec fn needs_repair(a: CodeAction) -> bool {
    a.action_kind == KIND_CODE && a.execution_type == EXECUTE_CODE
}

/// An action after repair: code blocks get the standard identifiers, every
/// other action is left as it is.
pub open spec fn repaired(a: CodeAction) -> CodeAction {
    if needs_repair(a) {
        CodeAction { id: EXECUTE_CODE_ID, lib_id: EXECUTE_CODE_LIB, ..a }
    } else {
        a
    }
}

/// The actions after repair.
pub open spec fn repair_all(s: Seq<CodeAction>) -> Seq<CodeAction> {
    s.map_values(|a: CodeAction| repaired(a))
}

/// An action list as its key and its actions.
pub open spec fn lists_view(s: Seq<ActionList>) -> Seq<(u32, Seq<CodeAction>)> {
    s.map_values(|l: ActionList| (l.key, l.actions@))
}

/// The events of an object as keys and actions.
pub open spec fn events_view(s: Seq<Vec<ActionList>>) -> Seq<Seq<(u32, Seq<CodeAction>)>> {
    s.map_values(|e: Vec<ActionList>| lists_view(e@))
}

/// Action lists after repair.
pub open spec fn repair_lists(s: Seq<(u32, Seq<CodeAction>)>) -> Seq<(u32, Seq<CodeAction>)> {
    s.map_values(|p: (u32, Seq<CodeAction>)| (p.0, repair_all(p.1)))
}

/// The events of an object after repair.
pub open spec fn repair_events(s: Seq<Seq<(u32, Seq<CodeAction>)>>) -> Seq<
    Seq<(u32, Seq<CodeAction>)>,
> {
    s.map_values(|e: Seq<(u32, Seq<CodeAction>)>| repair_lists(e))
}

/// `n` is `o` with every action of its events repaired.
pub open spec fn object_repaired(o: Object, n: Object) -> bool {
    &&& n == (Object { events: n.events, ..o })
    &&& events_view(n.events@) == repair_events(events_view(o.events@))
}

/// `n` is `o` with every action of its moments repaired.
pub open spec fn timeline_repaired(o: Timeline, n: Timeline) -> bool {
    &&& n == (Timeline { moments: n.moments, ..o })
    &&& lists_view(n.moments@) == repair_lists(lists_view(o.moments@))
}

/// Repairs one action.
pub fn repair_action(a: &mut CodeAction)
    ensures
        *final(a) == repaired(*old(a)),
{
    if a.action_kind == KIND_CODE && a.execution_type == EXECUTE_CODE {
        a.id = EXECUTE_CODE_ID;
        a.lib_id = EXECUTE_CODE_LIB;
    }
}

/// Repairs every action of a list.
pub fn repair_actions(v: &mut Vec<CodeAction>)
    ensures
        final(v)@ == repair_all(old(v)@),
{
    let ghost start = v@;
    let mut i: usize = 0;
    while i < v.len()
        invariant
            i <= v.len(),
            v.len() == start.len(),
            forall|j: int| 0 <= j < i ==> v@[j] == repaired(start[j]),
            forall|j: int| i <= j < v.len() ==> v@[j] == start[j],
        decreases v.len() - i,
    {
        repair_action(&mut v[i]);
        i = i + 1;
    }
    assert(v@ =~= repair_all(start));
}

/// Repairs every action of every list.
pub fn repair_action_lists(v: &mut Vec<ActionList>)
    ensures
        lists_view(final(v)@) == repair_lists(lists_view(old(v)@)),
{
    let ghost start = v@;
    let mut i: usize = 0;
    while i < v.len()
        invariant
            i <= v.len(),
            v.len() == start.len(),
            forall|j: int|
                0 <= j < i ==> (#[trigger] v@[j]).key == start[j].key && v@[j].actions@
                    == repair_all(start[j].actions@),
            forall|j: int| i <= j < v.len() ==> v@[j] == start[j],
        decreases v.len() - i,
    {
        repair_actions(&mut v[i].actions);
        i = i + 1;
    }
    assert(lists_view(v@) =~= repair_lists(lists_view(start)));
}

/// Repairs every action of an object's events.
pub fn repair_object(o: &mut Object)
    ensures
        object_repaired(*old(o), *final(o)),
{
    let ghost start = o.events@;
    let mut i: usize = 0;
    while i < o.events.len()
        invariant
            i <= o.events.len(),
            o.events.len() == start.len(),
            *o == (Object { events: o.events, ..*old(o) }),
            start == old(o).events@,
            forall|j: int|
                0 <= j < i ==> lists_view((#[trigger] o.events@[j])@) == repair_lists(
                    lists_view(start[j]@),
                ),
            forall|j: int| i <= j < o.events.len() ==> o.events@[j] == start[j],
        decreases o.events.len() - i,
    {
        repair_action_lists(&mut o.events[i]);
        i = i + 1;
    }
    assert(events_view(o.events@) =~= repair_events(events_view(start)));
}

/// Repairs every action of a timeline's moments.
pub fn repair_timeline(t: &mut Timeline)
    ensures
        timeline_repaired(*old(t), *final(t)),
{
    repair_action_lists(&mut t.moments);
}

/// Repair changes nothing in an action that it already repaired, and leaves
/// an action without the repaired shape identical, to the byte.
pub proof fn lemma_repair_action_idempotent(a: CodeAction)
    ensures
        repaired(repaired(a)) == repaired(a),
        !needs_repair(a) ==> repaired(a) == a && action_bytes(repaired(a)) == action_bytes(a),
{
}

proof fn lemma_repair_lists_idempotent(s: Seq<(u32, Seq<CodeAction>)>)
    ensures
        repair_lists(repair_lists(s)) == repair_lists(s),
{
    assert forall|j: int| 0 <= j < s.len() implies #[trigger] repair_lists(repair_lists(s))[j]
        == repair_lists(s)[j] by {
        assert(repair_all(repair_all(s[j].1)) =~= repair_all(s[j].1));
    }
    assert(repair_lists(repair_lists(s)) =~= repair_lists(s));
}

proof fn lemma_lists_view_drop_last(a: Seq<ActionList>, b: Seq<ActionList>)
    requires
        lists_view(a) == lists_view(b),
        a.len() > 0,
    ensures
        lists_view(a.drop_last()) == lists_view(b.drop_last()),
        a.last().key == b.last().key,
        a.last().actions@ == b.last().actions@,
{
    assert(a.len() == lists_view(a).len() && b.len() == lists_view(b).len());
    assert(lists_view(a)[a.len() - 1] == lists_view(b)[a.len() - 1]);
    assert forall|i: int| 0 <= i < a.len() - 1 implies #[trigger] lists_view(a.drop_last())[i]
        == lists_view(b.drop_last())[i] by {
        assert(lists_view(a)[i] == lists_view(b)[i]);
        assert(a.drop_last()[i] == a[i]);
        assert(b.drop_last()[i] == b[i]);
    }
    assert(lists_view(a.drop_last()) =~= lists_view(b.drop_last()));
}

proof fn lemma_lists_same_bytes(a: Seq<ActionList>, b: Seq<ActionList>)
    requires
        lists_view(a) == lists_view(b),
    ensures
        lists_concat(a) == lists_concat(b),
    decreases a.len(),
{
    assert(a.len() == lists_view(a).len() && b.len() == lists_view(b).len());
    if a.len() > 0 {
        lemma_lists_view_drop_last(a, b);
        lemma_lists_same_bytes(a.drop_last(), b.drop_last());
    }
}

proof fn lemma_lists_same_ok(a: Seq<ActionList>, b: Seq<ActionList>)
    requires
        lists_view(a) == lists_view(b),
    ensures
        lists_ok(a) == lists_ok(b),
{
    assert(a.len() == lists_view(a).len() && b.len() == lists_view(b).len());
    assert forall|i: int| 0 <= i < a.len() implies (#[trigger] a[i]).actions@ == b[i].actions@ by {
        assert(lists_view(a)[i] == lists_view(b)[i]);
    }
    if lists_ok(a) {
        assert forall|i: int| 0 <= i < b.len() implies crate::action::actions_ok(
            (#[trigger] b[i]).actions@,
        ) by {
            assert(a[i].actions@ == b[i].actions@);
        }
    }
    if lists_ok(b) {
        assert forall|i: int| 0 <= i < a.len() implies crate::action::actions_ok(
            (#[trigger] a[i]).actions@,
        ) by {
            assert(a[i].actions@ == b[i].actions@);
        }
    }
}

proof fn lemma_events_same_bytes(a: Seq<Vec<ActionList>>, b: Seq<Vec<ActionList>>)
    requires
        events_view(a) == events_view(b),
    ensures
        events_concat(a) == events_concat(b),
    decreases a.len(),
{
    assert(a.len() == events_view(a).len() && b.len() == events_view(b).len());
    if a.len() > 0 {
        let n = a.len() - 1;
        assert(events_view(a)[n] == events_view(b)[n]);
        lemma_lists_same_bytes(a[n]@, b[n]@);
        assert forall|i: int| 0 <= i < n implies #[trigger] events_view(a.drop_last())[i]
            == events_view(b.drop_last())[i] by {
            assert(events_view(a)[i] == events_view(b)[i]);
            assert(a.drop_last()[i] == a[i]);
            assert(b.drop_last()[i] == b[i]);
        }
        assert(events_view(a.drop_last()) =~= events_view(b.drop_last()));
        lemma_events_same_bytes(a.drop_last(), b.drop_last());
    }
}

proof fn lemma_events_same_ok(a: Seq<Vec<ActionList>>, b: Seq<Vec<ActionList>>)
    requires
        events_view(a) == events_view(b),
    ensures
        events_ok(a) == events_ok(b),
{
    assert(a.len() == events_view(a).len() && b.len() == events_view(b).len());
    assert forall|i: int| 0 <= i < a.len() implies lists_ok((#[trigger] a[i])@) == lists_ok(
        b[i]@,
    ) by {
        assert(events_view(a)[i] == events_view(b)[i]);
        lemma_lists_same_ok(a[i]@, b[i]@);
    }
    if events_ok(a) {
        assert forall|i: int| 0 <= i < b.len() implies lists_ok((#[trigger] b[i])@) by {
            assert(lists_ok(a[i]@) == lists_ok(b[i]@));
        }
    }
    if events_ok(b) {
        assert forall|i: int| 0 <= i < a.len() implies lists_ok((#[trigger] a[i])@) by {
            assert(lists_ok(a[i]@) == lists_ok(b[i]@));
        }
    }
}

/// Repairing an object a second time gives the same object as the first
/// time: the same actions, and the same bytes in either format revision.
pub proof fn lemma_object_repair_idempotent(o: Object, n1: Object, n2: Object, version: FormatVersion)
    requires
        object_repaired(o, n1),
        object_repaired(n1, n2),
    ensures
        events_view(n2.events@) == events_view(n1.events@),
        n2.encodable(version) == n1.encodable(version),
        n2.encoding(version) == n1.encoding(version),
{
    let x = events_view(o.events@);
    assert forall|i: int| 0 <= i < x.len() implies #[trigger] repair_events(repair_events(x))[i]
        == repair_events(x)[i] by {
        lemma_repair_lists_idempotent(x[i]);
    }
    assert(repair_events(repair_events(x)) =~= repair_events(x));
    lemma_events_same_bytes(n2.events@, n1.events@);
    lemma_events_same_ok(n2.events@, n1.events@);
}

/// Repairing a timeline a second time gives the same timeline as the first
/// time: the same actions, and the same bytes in either format revision.
pub proof fn lemma_timeline_repair_idempotent(
    o: Timeline,
    n1: Timeline,
    n2: Timeline,
    version: FormatVersion,
)
    requires
        timeline_repaired(o, n1),
        timeline_repaired(n1, n2),
    ensures
        lists_view(n2.moments@) == lists_view(n1.moments@),
        n2.encodable(version) == n1.encodable(version),
        n2.encoding(version) == n1.encoding(version),
{
    lemma_repair_lists_idempotent(lists_view(o.moments@));
    lemma_lists_same_bytes(n2.moments@, n1.moments@);
    lemma_lists_same_ok(n2.moments@, n1.moments@);
}

} // verus!
