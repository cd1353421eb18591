//! Resource names: whether a list of slots holds an unnamed asset, and the
//! synthetic names given to assets when a project is normalized.
use vstd::prelude::*;
use crate::asset::{
    Background, Category, Font, Object, Path, Room, Script, Sound, Sprite, Timeline, Trigger,
};

verus! {

/// An asset with a name.
pub trait Named: Sized {
    /// The name's bytes.
    spec fn name_of(&self) -> Seq<u8>;

    /// Whether `self` and `other` agree in everything but the name.
    spec fn same_but_name(&self, other: &Self) -> bool;

    /// The name.
    fn name(&self) -> (r: &Vec<u8>)
        ensures
            r@ == self.name_of(),
    ;

    /// Whether the name is empty.
    fn has_empty_name(&self) -> (r: bool)
        ensures
            r == (self.name_of().len() == 0),
    ;

    /// Replaces the name.
    fn set_name(&mut self, name: Vec<u8>)
        ensures
            final(self).name_of() == name@,
            final(self).same_but_name(old(self)),
    ;
}

/// Whether a slot is occupied by an asset with an empty name.
pub open spec fn unnamed<T: Named>(slot: Option<T>) -> bool {
    match slot {
        Some(a) => a.name_of().len() == 0,
        None => false,
    }
}

/// Whether some occupied slot holds an asset with an empty name.
pub open spec fn has_unnamed<T: Named>(slots: Seq<Option<T>>) -> bool {
    exists|i: int| 0 <= i < slots.len() && unnamed(#[trigger] slots[i])
}

/// Tells whether some occupied slot holds an asset with an empty name.
pub fn any_unnamed<T: Named>(slots: &Vec<Option<T>>) -> (r: bool)
    ensures
        r == has_unnamed(slots@),
{
    let mut i: usize = 0;
    while i < slots.len()
        invariant
            i <= slots.len(),
            forall|j: int| 0 <= j < i ==> !unnamed(#[trigger] slots@[j]),
        decreases slots.len() - i,
    {
        if let Some(a) = &slots[i] {
            if a.has_empty_name() {
                assert(unnamed(slots@[i as int]));
                return true;
            }
        }
        i = i + 1;
    }
    false
}

/// The decimal digits of `n`, in ASCII, most significant first.
pub open spec fn decimal(n: nat) -> Seq<u8>
    decreases n,
{
    if n < 10 {
        seq![(48 + n) as u8]
    } else {
        decimal(n / 10).push((48 + n % 10) as u8)
    }
}

/// Appends the decimal digits of `n`.
pub fn put_decimal(out: &mut Vec<u8>, n: u64)
    ensures
        final(out)@ == old(out)@ + decimal(n as nat),
    decreases n,
{
    if n >= 10 {
        put_decimal(out, n / 10);
    }
    out.push((48 + n % 10) as u8);
    assert(out@ =~= old(out)@ + decimal(n as nat));
}

proof fn lemma_decimal_len(n: nat)
    ensures
        decimal(n).len() >= 1,
        n >= 10 ==> decimal(n).len() >= 2,
    decreases n,
{
    if n >= 10 {
        lemma_decimal_len(n / 10);
    }
}

/// Different numbers have different digits.
pub proof fn lemma_decimal_injective(a: nat, b: nat)
    requires
        decimal(a) == decimal(b),
    ensures
        a == b,
    decreases a,
{
    lemma_decimal_len(a);
    lemma_decimal_len(b);
    if a >= 10 && b >= 10 {
        assert(decimal(a).drop_last() =~= decimal(a / 10));
        assert(decimal(b).drop_last() =~= decimal(b / 10));
        lemma_decimal_injective(a / 10, b / 10);
        assert(decimal(a).last() == decimal(b).last());
        assert(decimal(a).last() == (48 + a % 10) as u8);
        assert(decimal(b).last() == (48 + b % 10) as u8);
        assert(a % 10 == b % 10);
        assert(a == 10 * (a / 10) + a % 10);
        assert(b == 10 * (b / 10) + b % 10);
    } else if a < 10 && b < 10 {
        assert(decimal(a)[0] == decimal(b)[0]);
        assert(decimal(a)[0] == (48 + a) as u8);
        assert(decimal(b)[0] == (48 + b) as u8);
    } else {
        assert(decimal(a).len() != decimal(b).len());
    }
}

/// The four ASCII bytes that start the synthetic names of a category.
pub open spec fn name_prefix(c: Category) -> Seq<u8> {
    match c {
        Category::Triggers => seq![116u8, 114u8, 103u8, 95u8],
        Category::Sounds => seq![115u8, 110u8, 100u8, 95u8],
        Category::Sprites => seq![115u8, 112u8, 114u8, 95u8],
        Category::Backgrounds => seq![98u8, 107u8, 103u8, 95u8],
        Category::Paths => seq![112u8, 116u8, 104u8, 95u8],
        Category::Scripts => seq![115u8, 99u8, 114u8, 95u8],
        Category::Fonts => seq![102u8, 110u8, 116u8, 95u8],
        Category::Timelines => seq![116u8, 109u8, 108u8, 95u8],
        Category::Objects => seq![111u8, 98u8, 106u8, 95u8],
        Category::Rooms => seq![114u8, 111u8, 109u8, 95u8],
    }
}

/// The synthetic name of the asset in slot `index` of category `c`: the
/// category's prefix, then the index in decimal ("spr_12").
pub open spec fn synthetic_name(c: Category, index: nat) -> Seq<u8> {
    name_prefix(c) + decimal(index)
}

fn put_prefix(out: &mut Vec<u8>, c: Category)
    ensures
        final(out)@ == old(out)@ + name_prefix(c),
{
    let (a, b, d) = match c {
        Category::Triggers => (116u8, 114u8, 103u8),
        Category::Sounds => (115u8, 110u8, 100u8),
        Category::Sprites => (115u8, 112u8, 114u8),
        Category::Backgrounds => (98u8, 107u8, 103u8),
        Category::Paths => (112u8, 116u8, 104u8),
        Category::Scripts => (115u8, 99u8, 114u8),
        Category::Fonts => (102u8, 110u8, 116u8),
        Category::Timelines => (116u8, 109u8, 108u8),
        Category::Objects => (111u8, 98u8, 106u8),
        Category::Rooms => (114u8, 111u8, 109u8),
    };
    out.push(a);
    out.push(b);
    out.push(d);
    out.push(95u8);
    assert(out@ =~= old(out)@ + name_prefix(c));
}

/// Makes the synthetic name of slot `index` of category `c`.
pub fn make_synthetic_name(c: Category, index: usize) -> (r: Vec<u8>)
    ensures
        r@ == synthetic_name(c, index as nat),
{
    let mut out: Vec<u8> = Vec::new();
    put_prefix(&mut out, c);
    put_decimal(&mut out, index as u64);
    assert(out@ =~= synthetic_name(c, index as nat));
    out
}

/// Synthetic names are never empty, and two slots, in the same category or
/// in two categories, never get the same synthetic name.
pub proof fn lemma_synthetic_names_unique(c1: Category, i1: nat, c2: Category, i2: nat)
    ensures
        synthetic_name(c1, i1).len() > 0,
        synthetic_name(c1, i1) == synthetic_name(c2, i2) ==> c1 == c2 && i1 == i2,
{
    if synthetic_name(c1, i1) == synthetic_name(c2, i2) {
        let s = synthetic_name(c1, i1);
        assert(s.subrange(0, 4) =~= name_prefix(c1));
        assert(synthetic_name(c2, i2).subrange(0, 4) =~= name_prefix(c2));
        assert(name_prefix(c1) == name_prefix(c2));
        assert(c1 == c2) by {
            assert(name_prefix(c1)[0] == name_prefix(c2)[0]);
            assert(name_prefix(c1)[1] == name_prefix(c2)[1]);
            assert(name_prefix(c1)[2] == name_prefix(c2)[2]);
        }
        assert(s.subrange(4, s.len() as int) =~= decimal(i1));
        assert(synthetic_name(c2, i2).subrange(4, s.len() as int) =~= decimal(i2));
        lemma_decimal_injective(i1, i2);
    }
}

/// Whether `n` is `o` with each occupied slot's asset renamed to the
/// synthetic name of its slot, and nothing else changed.
pub open spec fn slots_renamed<T: Named>(c: Category, o: Seq<Option<T>>, n: Seq<Option<T>>) -> bool {
    &&& n.len() == o.len()
    &&& forall|i: int|
        0 <= i < o.len() ==> match (#[trigger] o[i], n[i]) {
            (None, None) => true,
            (Some(a), Some(b)) => b.name_of() == synthetic_name(c, i as nat) && b.same_but_name(&a),
            _ => false,
        }
}

/// Gives every occupied slot the synthetic name of its category and index.
pub fn rename_slots<T: Named>(c: Category, slots: &mut Vec<Option<T>>)
    ensures
        slots_renamed(c, old(slots)@, final(slots)@),
{
    let ghost start = slots@;
    let mut i: usize = 0;
    while i < slots.len()
        invariant
            i <= slots.len(),
            slots.len() == start.len(),
            forall|j: int|
                0 <= j < i ==> match (#[trigger] start[j], slots@[j]) {
                    (None, None) => true,
                    (Some(a), Some(b)) => b.name_of() == synthetic_name(c, j as nat) && b.same_but_name(&a),
                    _ => false,
                },
            forall|j: int| i <= j < slots.len() ==> slots@[j] == start[j],
        decreases slots.len() - i,
    {
        let name = make_synthetic_name(c, i);
        match &mut slots[i] {
            None => {},
            Some(a) => {
                a.set_name(name);
            },
        }
        i = i + 1;
    }
}

impl Named for Sound {
    open spec fn name_of(&self) -> Seq<u8> {
        self.name@
    }

    open spec fn same_but_name(&self, other: &Self) -> bool {
        *self == (Sound { name: self.name, ..*other })
    }

    fn name(&self) -> (r: &Vec<u8>) {
        &self.name
    }

    fn has_empty_name(&self) -> (r: bool) {
        self.name.len() == 0
    }

    fn set_name(&mut self, name: Vec<u8>) {
        self.name = name;
    }
}

impl Named for Sprite {
    open spec fn name_of(&self) -> Seq<u8> {
        self.name@
    }

    open spec fn same_but_name(&self, other: &Self) -> bool {
        *self == (Sprite { name: self.name, ..*other })
    }

    fn name(&self) -> (r: &Vec<u8>) {
        &self.name
    }

    fn has_empty_name(&self) -> (r: bool) {
        self.name.len() == 0
    }

    fn set_name(&mut self, name: Vec<u8>) {
        self.name = name;
    }
}

impl Named for Background {
    open spec fn name_of(&self) -> Seq<u8> {
        self.name@
    }

    open spec fn same_but_name(&self, other: &Self) -> bool {
        *self == (Background { name: self.name, ..*other })
    }

    fn name(&self) -> (r: &Vec<u8>) {
        &self.name
    }

    fn has_empty_name(&self) -> (r: bool) {
        self.name.len() == 0
    }

    fn set_name(&mut self, name: Vec<u8>) {
        self.name = name;
    }
}

impl Named for Path {
    open spec fn name_of(&self) -> Seq<u8> {
        self.name@
    }

    open spec fn same_but_name(&self, other: &Self) -> bool {
        *self == (Path { name: self.name, ..*other })
    }

    fn name(&self) -> (r: &Vec<u8>) {
        &self.name
    }

    fn has_empty_name(&self) -> (r: bool) {
        self.name.len() == 0
    }

    fn set_name(&mut self, name: Vec<u8>) {
        self.name = name;
    }
}

impl Named for Script {
    open spec fn name_of(&self) -> Seq<u8> {
        self.name@
    }

    open spec fn same_but_name(&self, other: &Self) -> bool {
        *self == (Script { name: self.name, ..*other })
    }

    fn name(&self) -> (r: &Vec<u8>) {
        &self.name
    }

    fn has_empty_name(&self) -> (r: bool) {
        self.name.len() == 0
    }

    fn set_name(&mut self, name: Vec<u8>) {
        self.name = name;
    }
}

impl Named for Trigger {
    open spec fn name_of(&self) -> Seq<u8> {
        self.name@
    }

    open spec fn same_but_name(&self, other: &Self) -> bool {
        *self == (Trigger { name: self.name, ..*other })
    }

    fn name(&self) -> (r: &Vec<u8>) {
        &self.name
    }

    fn has_empty_name(&self) -> (r: bool) {
        self.name.len() == 0
    }

    fn set_name(&mut self, name: Vec<u8>) {
        self.name = name;
    }
}

impl Named for Font {
    open spec fn name_of(&self) -> Seq<u8> {
        self.name@
    }

    open spec fn same_but_name(&self, other: &Self) -> bool {
        *self == (Font { name: self.name, ..*other })
    }

    fn name(&self) -> (r: &Vec<u8>) {
        &self.name
    }

    fn has_empty_name(&self) -> (r: bool) {
        self.name.len() == 0
    }

    fn set_name(&mut self, name: Vec<u8>) {
        self.name = name;
    }
}

impl Named for Timeline {
    open spec fn name_of(&self) -> Seq<u8> {
        self.name@
    }

    open spec fn same_but_name(&self, other: &Self) -> bool {
        *self == (Timeline { name: self.name, ..*other })
    }

    fn name(&self) -> (r: &Vec<u8>) {
        &self.name
    }

    fn has_empty_name(&self) -> (r: bool) {
        self.name.len() == 0
    }

    fn set_name(&mut self, name: Vec<u8>) {
        self.name = name;
    }
}

impl Named for Object {
    open spec fn name_of(&self) -> Seq<u8> {
        self.name@
    }

    open spec fn same_but_name(&self, other: &Self) -> bool {
        *self == (Object { name: self.name, ..*other })
    }

    fn name(&self) -> (r: &Vec<u8>) {
        &self.name
    }

    fn has_empty_name(&self) -> (r: bool) {
        self.name.len() == 0
    }

    fn set_name(&mut self, name: Vec<u8>) {
        self.name = name;
    }
}

impl Named for Room {
    open spec fn name_of(&self) -> Seq<u8> {
        self.name@
    }

    open spec fn same_but_name(&self, other: &Self) -> bool {
        *self == (Room { name: self.name, ..*other })
    }

    fn name(&self) -> (r: &Vec<u8>) {
        &self.name
    }

    fn has_empty_name(&self) -> (r: bool) {
        self.name.len() == 0
    }

    fn set_name(&mut self, name: Vec<u8>) {
        self.name = name;
    }
}

} // verus!
