//! The resource tree: one group per asset category, holding that
//! category's occupied slots in order. The asset graph does not keep a tree,
//! so it is built from the slots alone.
use vstd::prelude::*;
use crate::asset::Category;
use crate::bytes::{fits, pas, put_str, put_u32, u32_le};
use crate::game::GameAssets;
use crate::names::Named;

verus! {

/// The title of a category's group.
pub open spec fn group_title(c: Category) -> Seq<u8> {
    match c {
        Category::Triggers => seq![84u8, 114u8, 105u8, 103u8, 103u8, 101u8, 114u8, 115u8],
        Category::Sounds => seq![83u8, 111u8, 117u8, 110u8, 100u8, 115u8],
        Category::Sprites => seq![83u8, 112u8, 114u8, 105u8, 116u8, 101u8, 115u8],
        Category::Backgrounds => seq![66u8, 97u8, 99u8, 107u8, 103u8, 114u8, 111u8, 117u8, 110u8, 100u8, 115u8],
        Category::Paths => seq![80u8, 97u8, 116u8, 104u8, 115u8],
        Category::Scripts => seq![83u8, 99u8, 114u8, 105u8, 112u8, 116u8, 115u8],
        Category::Fonts => seq![70u8, 111u8, 110u8, 116u8, 115u8],
        Category::Timelines => seq![84u8, 105u8, 109u8, 101u8, 32u8, 76u8, 105u8, 110u8, 101u8, 115u8],
        Category::Objects => seq![79u8, 98u8, 106u8, 101u8, 99u8, 116u8, 115u8],
        Category::Rooms => seq![82u8, 111u8, 111u8, 109u8, 115u8],
    }
}

fn title_of(c: Category) -> (r: Vec<u8>)
    ensures
        r@ == group_title(c),
{
    let v: Vec<u8> = match c {
        Category::Triggers => vec![84u8, 114u8, 105u8, 103u8, 103u8, 101u8, 114u8, 115u8],
        Category::Sounds => vec![83u8, 111u8, 117u8, 110u8, 100u8, 115u8],
        Category::Sprites => vec![83u8, 112u8, 114u8, 105u8, 116u8, 101u8, 115u8],
        Category::Backgrounds => vec![66u8, 97u8, 99u8, 107u8, 103u8, 114u8, 111u8, 117u8, 110u8, 100u8, 115u8],
        Category::Paths => vec![80u8, 97u8, 116u8, 104u8, 115u8],
        Category::Scripts => vec![83u8, 99u8, 114u8, 105u8, 112u8, 116u8, 115u8],
        Category::Fonts => vec![70u8, 111u8, 110u8, 116u8, 115u8],
        Category::Timelines => vec![84u8, 105u8, 109u8, 101u8, 32u8, 76u8, 105u8, 110u8, 101u8, 115u8],
        Category::Objects => vec![79u8, 98u8, 106u8, 101u8, 99u8, 116u8, 115u8],
        Category::Rooms => vec![82u8, 111u8, 111u8, 109u8, 115u8],
    };
    assert(v@ =~= group_title(c));
    v
}

/// The number by which the format names the kind of a category's assets.
pub open spec fn kind_code(c: Category) -> u32 {
    match c {
        Category::Triggers => 14,
        Category::Sounds => 3,
        Category::Sprites => 2,
        Category::Backgrounds => 6,
        Category::Paths => 8,
        Category::Scripts => 7,
        Category::Fonts => 9,
        Category::Timelines => 12,
        Category::Objects => 1,
        Category::Rooms => 4,
    }
}

fn code_of(c: Category) -> (r: u32)
    ensures
        r == kind_code(c),
{
    match c {
        Category::Triggers => 14,
        Category::Sounds => 3,
        Category::Sprites => 2,
        Category::Backgrounds => 6,
        Category::Paths => 8,
        Category::Scripts => 7,
        Category::Fonts => 9,
        Category::Timelines => 12,
        Category::Objects => 1,
        Category::Rooms => 4,
    }
}

/// A leaf of the tree: an asset, by its kind, slot and name.
pub open spec fn leaf_bytes(code: u32, index: int, name: Seq<u8>) -> Seq<u8> {
    u32_le(3) + u32_le(code) + u32_le(index as u32) + pas(name) + u32_le(0)
}

/// The leaves of the occupied slots, in slot order.
pub open spec fn leaves<T: Named>(code: u32, s: Seq<Option<T>>) -> Seq<u8>
    decreases s.len(),
{
    if s.len() == 0 {
        Seq::empty()
    } else {
        leaves(code, s.drop_last()) + match s.last() {
            None => Seq::empty(),
            Some(a) => leaf_bytes(code, s.len() - 1, a.name_of()),
        }
    }
}

/// How many slots are occupied.
pub open spec fn occupied<T>(s: Seq<Option<T>>) -> nat
    decreases s.len(),
{
    if s.len() == 0 {
        0
    } else {
        occupied(s.drop_last()) + if s.last() is Some {
            1nat
        } else {
            0nat
        }
    }
}

/// Whether a slot is empty or holds an asset whose name fits its field.
pub open spec fn name_fits<T: Named>(slot: Option<T>) -> bool {
    match slot {
        None => true,
        Some(a) => fits(a.name_of()),
    }
}

/// Whether a category's group can be encoded.
pub open spec fn group_ok<T: Named>(s: Seq<Option<T>>) -> bool {
    s.len() <= u32::MAX && forall|i: int| 0 <= i < s.len() ==> name_fits(#[trigger] s[i])
}

/// A category's group: its kind, title and the count of its leaves, then
/// the leaves.
pub open spec fn group_bytes<T: Named>(c: Category, s: Seq<Option<T>>) -> Seq<u8> {
    u32_le(1) + u32_le(kind_code(c)) + u32_le(0) + pas(group_title(c)) + u32_le(occupied(s) as u32)
        + leaves(kind_code(c), s)
}

proof fn lemma_occupied_le<T>(s: Seq<Option<T>>)
    ensures
        occupied(s) <= s.len(),
    decreases s.len(),
{
    if s.len() > 0 {
        lemma_occupied_le(s.drop_last());
    }
}

fn count_occupied<T>(s: &Vec<Option<T>>) -> (r: usize)
    ensures
        r == occupied(s@),
{
    let mut n: usize = 0;
    let mut i: usize = 0;
    while i < s.len()
        invariant
            i <= s.len(),
            n == occupied(s@.subrange(0, i as int)),
            n <= i,
        decreases s.len() - i,
    {
        assert(s@.subrange(0, i + 1).drop_last() =~= s@.subrange(0, i as int));
        if s[i].is_some() {
            n = n + 1;
        }
        i = i + 1;
    }
    assert(s@.subrange(0, s.len() as int) =~= s@);
    n
}

/// Appends a category's group; false when it cannot be encoded.
pub fn put_group<T: Named>(out: &mut Vec<u8>, c: Category, s: &Vec<Option<T>>) -> (ok: bool)
    ensures
        ok == group_ok(s@),
        ok ==> final(out)@ == old(out)@ + group_bytes(c, s@),
{
    if s.len() > u32::MAX as usize {
        return false;
    }
    let code = code_of(c);
    let count = count_occupied(s);
    proof {
        lemma_occupied_le(s@);
    }
    put_u32(out, 1);
    put_u32(out, code);
    put_u32(out, 0);
    let title = title_of(c);
    put_str(out, &title);
    put_u32(out, count as u32);
    let ghost start = out@;
    let mut i: usize = 0;
    while i < s.len()
        invariant
            i <= s.len(),
            s.len() <= u32::MAX,
            code == kind_code(c),
            forall|j: int| 0 <= j < i ==> name_fits(#[trigger] s@[j]),
            out@ == start + leaves(code, s@.subrange(0, i as int)),
        decreases s.len() - i,
    {
        assert(s@.subrange(0, i + 1).drop_last() =~= s@.subrange(0, i as int));
        let ghost prev = out@;
        match &s[i] {
            None => {},
            Some(a) => {
                put_u32(out, 3);
                put_u32(out, code);
                put_u32(out, i as u32);
                if !put_str(out, a.name()) {
                    return false;
                }
                put_u32(out, 0);
            },
        }
        i = i + 1;
        assert(out@ =~= start + leaves(code, s@.subrange(0, i as int)));
    }
    assert(s@.subrange(0, s.len() as int) =~= s@);
    assert(out@ =~= old(out)@ + group_bytes(c, s@));
    true
}

/// The first five groups of the tree.
pub open spec fn tree_front(g: GameAssets) -> Seq<u8> {
    group_bytes(Category::Sprites, g.sprites@) + group_bytes(Category::Sounds, g.sounds@) + group_bytes(Category::Backgrounds, g.backgrounds@) + group_bytes(Category::Paths, g.paths@) + group_bytes(Category::Scripts, g.scripts@)
}

/// The last four groups of the tree.
pub open spec fn tree_back(g: GameAssets) -> Seq<u8> {
    group_bytes(Category::Fonts, g.fonts@) + group_bytes(Category::Timelines, g.timelines@) + group_bytes(Category::Objects, g.objects@) + group_bytes(Category::Rooms, g.rooms@)
}

/// The resource tree of a project.
pub open spec fn tree_bytes(g: GameAssets) -> Seq<u8> {
    tree_front(g) + tree_back(g)
}

/// Whether the resource tree can be encoded.
pub open spec fn tree_ok(g: GameAssets) -> bool {
    group_ok(g.sprites@) && group_ok(g.sounds@) && group_ok(g.backgrounds@) && group_ok(g.paths@) && group_ok(g.scripts@) && group_ok(g.fonts@) && group_ok(g.timelines@) && group_ok(g.objects@) && group_ok(g.rooms@)
}

fn put_tree_front(out: &mut Vec<u8>, g: &GameAssets) -> (ok: bool)
    ensures
        ok == (group_ok(g.sprites@) && group_ok(g.sounds@) && group_ok(g.backgrounds@) && group_ok(g.paths@) && group_ok(g.scripts@)),
        ok ==> final(out)@ == old(out)@ + tree_front(*g),
{
    if !put_group(out, Category::Sprites, &g.sprites) {
        return false;
    }
    if !put_group(out, Category::Sounds, &g.sounds) {
        return false;
    }
    if !put_group(out, Category::Backgrounds, &g.backgrounds) {
        return false;
    }
    if !put_group(out, Category::Paths, &g.paths) {
        return false;
    }
    if !put_group(out, Category::Scripts, &g.scripts) {
        return false;
    }
    assert(out@ =~= old(out)@ + tree_front(*g));
    true
}

fn put_tree_back(out: &mut Vec<u8>, g: &GameAssets) -> (ok: bool)
    ensures
        ok == (group_ok(g.fonts@) && group_ok(g.timelines@) && group_ok(g.objects@) && group_ok(g.rooms@)),
        ok ==> final(out)@ == old(out)@ + tree_back(*g),
{
    if !put_group(out, Category::Fonts, &g.fonts) {
        return false;
    }
    if !put_group(out, Category::Timelines, &g.timelines) {
        return false;
    }
    if !put_group(out, Category::Objects, &g.objects) {
        return false;
    }
    if !put_group(out, Category::Rooms, &g.rooms) {
        return false;
    }
    assert(out@ =~= old(out)@ + tree_back(*g));
    true
}

/// Appends the resource tree; false when a group cannot be encoded.
pub fn put_tree(out: &mut Vec<u8>, g: &GameAssets) -> (ok: bool)
    ensures
        ok == tree_ok(*g),
        ok ==> final(out)@ == old(out)@ + tree_bytes(*g),
{
    if !put_tree_front(out, g) {
        return false;
    }
    if !put_tree_back(out, g) {
        return false;
    }
    assert(out@ =~= old(out)@ + tree_bytes(*g));
    true
}

} // verus!
