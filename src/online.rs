//! Building blocks of the online patch: adding code to an object's events,
//! the objects the patch adds, and appending code to scripts.
use vstd::prelude::*;
use crate::bytes::same_bytes;
use crate::action::{ActionList, CodeAction};
use crate::asset::{Object, Script};
use crate::repair::{EXECUTE_CODE, EXECUTE_CODE_ID, EXECUTE_CODE_LIB, KIND_CODE};

verus! {

/// Whether `a` is a standard "execute code" action that runs `code` on the
/// object itself.
pub open spec fn is_code_action(a: CodeAction, code: Seq<u8>) -> bool {
    &&& a.id == EXECUTE_CODE_ID
    &&& a.applies_to == -1
    &&& !a.is_condition
    &&& !a.invert_condition
    &&& !a.is_relative
    &&& a.lib_id == EXECUTE_CODE_LIB
    &&& a.action_kind == KIND_CODE
    &&& a.execution_type == EXECUTE_CODE
    &&& a.can_be_relative == 0
    &&& a.applies_to_something
    &&& a.fn_name@.len() == 0
    &&& a.fn_code@.len() == 0
    &&& a.param_count == 1
    &&& a.param_types@ == seq![1u32, 0u32, 0u32, 0u32, 0u32, 0u32, 0u32, 0u32]
    &&& a.param_strings@.len() == 8
    &&& a.param_strings@[0]@ == code
    &&& forall|i: int| 1 <= i < 8 ==> (#[trigger] a.param_strings@[i])@.len() == 0
}

/// Makes an "execute code" action that runs `code`.
pub fn code_action(code: Vec<u8>) -> (r: CodeAction)
    ensures
        is_code_action(r, code@),
{
    let mut params: Vec<Vec<u8>> = Vec::new();
    params.push(code);
    let mut i: usize = 1;
    while i < 8
        invariant
            1 <= i <= 8,
            params@.len() == i,
            params@[0]@ == code@,
            forall|j: int| 1 <= j < i ==> (#[trigger] params@[j])@.len() == 0,
        decreases 8 - i,
    {
        params.push(Vec::new());
        i = i + 1;
    }
    let types: Vec<u32> = vec![1u32, 0u32, 0u32, 0u32, 0u32, 0u32, 0u32, 0u32];
    assert(types@ =~= seq![1u32, 0u32, 0u32, 0u32, 0u32, 0u32, 0u32, 0u32]);
    CodeAction {
        id: EXECUTE_CODE_ID,
        applies_to: -1,
        is_condition: false,
        invert_condition: false,
        is_relative: false,
        lib_id: EXECUTE_CODE_LIB,
        action_kind: KIND_CODE,
        execution_type: EXECUTE_CODE,
        can_be_relative: 0,
        applies_to_something: true,
        fn_name: Vec::new(),
        fn_code: Vec::new(),
        param_count: 1,
        param_types: types,
        param_strings: params,
    }
}

/// The first list of `s` with key `key`, if any.
pub open spec fn first_with_key(s: Seq<ActionList>, key: u32) -> Option<int>
    decreases s.len(),
{
    if s.len() == 0 {
        None
    } else {
        match first_with_key(s.drop_last(), key) {
            Some(j) => Some(j),
            None => if s.last().key == key {
                Some(s.len() - 1)
            } else {
                None
            },
        }
    }
}

/// Whether `n` is `o` with an action running `code` added under `key`: at
/// the end of the first list with that key, or in a new list at the end.
pub open spec fn code_added(o: Seq<ActionList>, n: Seq<ActionList>, key: u32, code: Seq<u8>) -> bool {
    match first_with_key(o, key) {
        Some(j) => {
            &&& n.len() == o.len()
            &&& n[j].key == key
            &&& n[j].actions@.len() == o[j].actions@.len() + 1
            &&& n[j].actions@.drop_last() == o[j].actions@
            &&& is_code_action(n[j].actions@.last(), code)
            &&& forall|k: int| 0 <= k < n.len() && k != j ==> n[k] == o[k]
        },
        None => {
            &&& n.len() == o.len() + 1
            &&& n.drop_last() == o
            &&& n.last().key == key
            &&& n.last().actions@.len() == 1
            &&& is_code_action(n.last().actions@[0], code)
        },
    }
}

proof fn lemma_first_key_extends(s: Seq<ActionList>, j: int, key: u32)
    requires
        0 <= j < s.len(),
        first_with_key(s.subrange(0, j), key) is None,
        s[j].key == key,
    ensures
        first_with_key(s, key) == Some(j),
    decreases s.len(),
{
    assert(s.subrange(0, j + 1).drop_last() =~= s.subrange(0, j));
    if s.len() > j + 1 {
        assert(s.drop_last().subrange(0, j) =~= s.subrange(0, j));
        lemma_first_key_extends(s.drop_last(), j, key);
    } else {
        assert(s.subrange(0, j) =~= s.drop_last());
    }
}

fn add_code_to_lists(subs: &mut Vec<ActionList>, key: u32, a: CodeAction)
    requires
        a.param_strings@.len() == 8,
        is_code_action(a, a.param_strings@[0]@),
    ensures
        code_added(old(subs)@, final(subs)@, key, a.param_strings@[0]@),
{
    let ghost start = subs@;
    let ghost code = a.param_strings@[0]@;
    let mut j: usize = 0;
    let mut found = false;
    while j < subs.len()
        invariant_except_break
            first_with_key(start.subrange(0, j as int), key) is None,
            !found,
        invariant
            j <= subs.len(),
            subs@ == start,
        ensures
            found ==> j < start.len() && start[j as int].key == key && first_with_key(
                start.subrange(0, j as int),
                key,
            ) is None,
            !found ==> first_with_key(start.subrange(0, j as int), key) is None && j == start.len(),
        decreases subs.len() - j,
    {
        if subs[j].key == key {
            found = true;
            break;
        }
        assert(start.subrange(0, j + 1).drop_last() =~= start.subrange(0, j as int));
        j = j + 1;
    }
    if found {
        proof {
            lemma_first_key_extends(start, j as int, key);
        }
        subs[j].actions.push(a);
        assert(subs@[j as int].actions@.drop_last() =~= start[j as int].actions@);
    } else {
        assert(start.subrange(0, start.len() as int) =~= start);
        let mut one: Vec<CodeAction> = Vec::new();
        one.push(a);
        subs.push(ActionList { key, actions: one });
        assert(subs@.drop_last() =~= start);
    }
    assert(code_added(start, subs@, key, code));
}

/// Adds an action running `code` to sub-event `sub` of event `event` of an
/// object, creating the sub-event when the object does not handle it yet.
pub fn object_add_code(obj: &mut Object, event: usize, sub: u32, code: Vec<u8>)
    requires
        event < old(obj).events.len(),
    ensures
        *final(obj) == (Object { events: final(obj).events, ..*old(obj) }),
        final(obj).events.len() == old(obj).events.len(),
        forall|e: int|
            0 <= e < old(obj).events.len() && e != event ==> final(obj).events@[e] == old(
                obj,
            ).events@[e],
        code_added(old(obj).events@[event as int]@, final(obj).events@[event as int]@, sub, code@),
{
    let a = code_action(code);
    add_code_to_lists(&mut obj.events[event], sub, a);
}

/// Whether event `e` of `events` holds exactly one sub-event, keyed `key`,
/// with exactly one action, which runs `code`.
pub open spec fn holds_only_code(events: Seq<Vec<ActionList>>, e: int, key: u32, code: Seq<u8>) -> bool {
    &&& events[e]@.len() == 1
    &&& events[e]@[0].key == key
    &&& events[e]@[0].actions@.len() == 1
    &&& is_code_action(events[e]@[0].actions@[0], code)
}

/// Whether `o` is an object of the online patch: the given name, visibility,
/// depth and persistence; no sprite, mask or parent; not solid; eleven event
/// types.
pub open spec fn is_online_object(o: Object, name: Seq<u8>, visible: bool, depth: i32, persistent: bool) -> bool {
    &&& o.name@ == name
    &&& o.visible == visible
    &&& o.depth == depth
    &&& o.persistent == persistent
    &&& o.sprite_index == -1
    &&& o.mask_index == -1
    &&& o.parent_index == -1
    &&& !o.solid
    &&& o.events.len() == 11
}

fn new_object(name: Vec<u8>, visible: bool, depth: i32, persistent: bool) -> (r: Object)
    ensures
        is_online_object(r, name@, visible, depth, persistent),
        forall|e: int| 0 <= e < 11 ==> (#[trigger] r.events@[e])@.len() == 0,
{
    let mut events: Vec<Vec<ActionList>> = Vec::new();
    let mut i: usize = 0;
    while i < 11
        invariant
            i <= 11,
            events@.len() == i,
            forall|e: int| 0 <= e < i ==> (#[trigger] events@[e])@.len() == 0,
        decreases 11 - i,
    {
        events.push(Vec::new());
        i = i + 1;
    }
    Object {
        name,
        visible,
        depth,
        persistent,
        sprite_index: -1,
        mask_index: -1,
        parent_index: -1,
        solid: false,
        events,
    }
}

/// The event index of "create".
pub const EVENT_CREATE: usize = 0;
/// The event index of the step events, whose sub-event 2 is "end step".
pub const EVENT_STEP: usize = 3;
/// The sub-event of "end step".
pub const SUB_END_STEP: u32 = 2;
/// The event index of the other events, whose sub-event 3 is "game end".
pub const EVENT_OTHER: usize = 7;
/// The sub-event of "game end".
pub const SUB_GAME_END: u32 = 3;
/// The event index of "draw".
pub const EVENT_DRAW: usize = 8;

/// The name of the object that shows other online players.
pub open spec fn online_player_name() -> Seq<u8> {
    seq![95u8, 95u8, 79u8, 78u8, 76u8, 73u8, 78u8, 69u8, 95u8, 111u8, 110u8, 108u8, 105u8, 110u8, 101u8, 80u8, 108u8, 97u8, 121u8, 101u8, 114u8]
}

/// The name of the chat box object.
pub open spec fn chatbox_name() -> Seq<u8> {
    seq![95u8, 95u8, 79u8, 78u8, 76u8, 73u8, 78u8, 69u8, 95u8, 99u8, 104u8, 97u8, 116u8, 98u8, 111u8, 120u8]
}

/// The name of the object that marks where another player saved.
pub open spec fn player_saved_name() -> Seq<u8> {
    seq![95u8, 95u8, 79u8, 78u8, 76u8, 73u8, 78u8, 69u8, 95u8, 112u8, 108u8, 97u8, 121u8, 101u8, 114u8, 83u8, 97u8, 118u8, 101u8, 100u8]
}

/// Appends the three objects of the online patch: the other players (create,
/// end step, draw), the chat box (create, end step, draw) and the saved
/// marker (end step, draw), each event running the code given for it.
pub fn add_online_objects(
    objects: &mut Vec<Option<Object>>,
    online_player_create: Vec<u8>,
    online_player_endstep: Vec<u8>,
    online_player_draw: Vec<u8>,
    chatbox_create: Vec<u8>,
    chatbox_endstep: Vec<u8>,
    chatbox_draw: Vec<u8>,
    player_saved_draw: Vec<u8>,
    player_saved_endstep: Vec<u8>,
)
    ensures
        final(objects)@.len() == old(objects)@.len() + 3,
        final(objects)@.subrange(0, old(objects)@.len() as int) == old(objects)@,
        ({
            let n = old(objects)@.len() as int;
            let o = final(objects)@;
            &&& o[n] is Some && o[n + 1] is Some && o[n + 2] is Some
            &&& is_online_object(o[n]->Some_0, online_player_name(), false, -10i32, true)
            &&& holds_only_code(o[n]->Some_0.events@, 0, 0, online_player_create@)
            &&& holds_only_code(o[n]->Some_0.events@, 3, 2, online_player_endstep@)
            &&& holds_only_code(o[n]->Some_0.events@, 8, 0, online_player_draw@)
            &&& is_online_object(o[n + 1]->Some_0, chatbox_name(), true, -11i32, true)
            &&& holds_only_code(o[n + 1]->Some_0.events@, 0, 0, chatbox_create@)
            &&& holds_only_code(o[n + 1]->Some_0.events@, 3, 2, chatbox_endstep@)
            &&& holds_only_code(o[n + 1]->Some_0.events@, 8, 0, chatbox_draw@)
            &&& is_online_object(o[n + 2]->Some_0, player_saved_name(), true, -10i32, false)
            &&& holds_only_code(o[n + 2]->Some_0.events@, 3, 2, player_saved_endstep@)
            &&& holds_only_code(o[n + 2]->Some_0.events@, 8, 0, player_saved_draw@)
            &&& forall|e: int|
                0 <= e < 11 && e != 0 && e != 3 && e != 8 ==> (#[trigger] o[n]->Some_0.events@[e])@.len()
                    == 0
            &&& forall|e: int|
                0 <= e < 11 && e != 0 && e != 3 && e != 8 ==> (#[trigger] o[n + 1]->Some_0.events@[e])@.len()
                    == 0
            &&& forall|e: int|
                0 <= e < 11 && e != 3 && e != 8 ==> (#[trigger] o[n + 2]->Some_0.events@[e])@.len() == 0
        }),
{
    let ghost start = objects@;
    let name: Vec<u8> = vec![95u8, 95u8, 79u8, 78u8, 76u8, 73u8, 78u8, 69u8, 95u8, 111u8, 110u8, 108u8, 105u8, 110u8, 101u8, 80u8, 108u8, 97u8, 121u8, 101u8, 114u8];
    assert(name@ =~= online_player_name());
    let mut player = new_object(name, false, -10, true);
    object_add_code(&mut player, EVENT_CREATE, 0, online_player_create);
    object_add_code(&mut player, EVENT_STEP, SUB_END_STEP, online_player_endstep);
    object_add_code(&mut player, EVENT_DRAW, 0, online_player_draw);
    objects.push(Some(player));

    let name: Vec<u8> = vec![95u8, 95u8, 79u8, 78u8, 76u8, 73u8, 78u8, 69u8, 95u8, 99u8, 104u8, 97u8, 116u8, 98u8, 111u8, 120u8];
    assert(name@ =~= chatbox_name());
    let mut chatbox = new_object(name, true, -11, true);
    object_add_code(&mut chatbox, EVENT_CREATE, 0, chatbox_create);
    object_add_code(&mut chatbox, EVENT_STEP, SUB_END_STEP, chatbox_endstep);
    object_add_code(&mut chatbox, EVENT_DRAW, 0, chatbox_draw);
    objects.push(Some(chatbox));

    let name: Vec<u8> = vec![95u8, 95u8, 79u8, 78u8, 76u8, 73u8, 78u8, 69u8, 95u8, 112u8, 108u8, 97u8, 121u8, 101u8, 114u8, 83u8, 97u8, 118u8, 101u8, 100u8];
    assert(name@ =~= player_saved_name());
    let mut saved = new_object(name, true, -10, false);
    object_add_code(&mut saved, EVENT_STEP, SUB_END_STEP, player_saved_endstep);
    object_add_code(&mut saved, EVENT_DRAW, 0, player_saved_draw);
    objects.push(Some(saved));
    assert(objects@.subrange(0, start.len() as int) =~= start);
}

/// The name of the object that runs a fangame's world logic.
pub open spec fn world_name() -> Seq<u8> {
    seq![87u8, 111u8, 114u8, 108u8, 100u8]
}

/// Whether `n` is the World object `o` with code added at create, end step
/// and game end.
pub open spec fn world_patched(o: Object, n: Object, create: Seq<u8>, end_step: Seq<u8>, game_end: Seq<u8>) -> bool {
    &&& n == (Object { events: n.events, ..o })
    &&& n.events.len() == o.events.len()
    &&& code_added(o.events@[0]@, n.events@[0]@, 0, create)
    &&& code_added(o.events@[3]@, n.events@[3]@, 2, end_step)
    &&& code_added(o.events@[7]@, n.events@[7]@, 3, game_end)
    &&& forall|e: int| 0 <= e < o.events.len() && e != 0 && e != 3 && e != 7 ==> n.events@[e] == o.events@[e]
}

/// Whether every object named World handles the event types the patch
/// adds code to.
pub open spec fn worlds_have_events(objects: Seq<Option<Object>>) -> bool {
    forall|i: int| 0 <= i < objects.len() ==> match #[trigger] objects[i] {
        Some(o) => o.name@ == world_name() ==> o.events.len() > 7,
        None => true,
    }
}

/// A copy of `v`.
pub fn clone_bytes(v: &Vec<u8>) -> (r: Vec<u8>)
    ensures
        r@ == v@,
{
    let mut out: Vec<u8> = Vec::new();
    crate::bytes::put_bytes(&mut out, v);
    assert(out@ =~= v@);
    out
}

/// Adds the patch's code to every object named World: `create` at create,
/// `end_step` at end step, `game_end` at game end. Other objects are left
/// as they are.
pub fn patch_world_objects(
    objects: &mut Vec<Option<Object>>,
    create: &Vec<u8>,
    end_step: &Vec<u8>,
    game_end: &Vec<u8>,
)
    requires
        worlds_have_events(old(objects)@),
    ensures
        final(objects)@.len() == old(objects)@.len(),
        forall|i: int|
            0 <= i < old(objects)@.len() ==> match (#[trigger] old(objects)@[i], final(objects)@[i]) {
                (Some(o), Some(n)) => if o.name@ == world_name() {
                    world_patched(o, n, create@, end_step@, game_end@)
                } else {
                    n == o
                },
                (None, None) => true,
                _ => false,
            },
{
    let world: Vec<u8> = vec![87u8, 111u8, 114u8, 108u8, 100u8];
    assert(world@ =~= world_name());
    let ghost start = objects@;
    let mut i: usize = 0;
    while i < objects.len()
        invariant
            i <= objects.len(),
            objects.len() == start.len(),
            world@ == world_name(),
            worlds_have_events(start),
            forall|j: int|
                0 <= j < i ==> match (#[trigger] start[j], objects@[j]) {
                    (Some(o), Some(n)) => if o.name@ == world_name() {
                        world_patched(o, n, create@, end_step@, game_end@)
                    } else {
                        n == o
                    },
                    (None, None) => true,
                    _ => false,
                },
            forall|j: int| i <= j < objects.len() ==> objects@[j] == start[j],
        decreases objects.len() - i,
    {
        assert(match start[i as int] {
            Some(o) => o.name@ == world_name() ==> o.events.len() > 7,
            None => true,
        });
        match &mut objects[i] {
            None => {},
            Some(obj) => {
                if same_bytes(&obj.name, &world) {
                    object_add_code(obj, EVENT_CREATE, 0, clone_bytes(create));
                    object_add_code(obj, EVENT_STEP, SUB_END_STEP, clone_bytes(end_step));
                    object_add_code(obj, EVENT_OTHER, SUB_GAME_END, clone_bytes(game_end));
                }
            },
        }
        i = i + 1;
    }
}

/// `source`, a line break, then `extra`.
pub open spec fn appended_source(source: Seq<u8>, extra: Seq<u8>) -> Seq<u8> {
    source + seq![10u8] + extra
}

/// Appends a line break and `extra` to the source of every script named
/// `name`. Other scripts are left as they are.
pub fn append_to_scripts(scripts: &mut Vec<Option<Script>>, name: &Vec<u8>, extra: &Vec<u8>)
    ensures
        final(scripts)@.len() == old(scripts)@.len(),
        forall|i: int|
            0 <= i < old(scripts)@.len() ==> match (#[trigger] old(scripts)@[i], final(scripts)@[i]) {
                (Some(o), Some(n)) => if o.name@ == name@ {
                    n.name == o.name && n.source@ == appended_source(o.source@, extra@)
                } else {
                    n == o
                },
                (None, None) => true,
                _ => false,
            },
{
    let ghost start = scripts@;
    let mut i: usize = 0;
    while i < scripts.len()
        invariant
            i <= scripts.len(),
            scripts.len() == start.len(),
            forall|j: int|
                0 <= j < i ==> match (#[trigger] start[j], scripts@[j]) {
                    (Some(o), Some(n)) => if o.name@ == name@ {
                        n.name == o.name && n.source@ == appended_source(o.source@, extra@)
                    } else {
                        n == o
                    },
                    (None, None) => true,
                    _ => false,
                },
            forall|j: int| i <= j < scripts.len() ==> scripts@[j] == start[j],
        decreases scripts.len() - i,
    {
        match &mut scripts[i] {
            None => {},
            Some(scr) => {
                if same_bytes(&scr.name, name) {
                    let ghost before = scr.source@;
                    scr.source.push(10u8);
                    crate::bytes::put_bytes(&mut scr.source, extra);
                    assert(scr.source@ =~= appended_source(before, extra@));
                }
            },
        }
        i = i + 1;
    }
}

} // verus!
