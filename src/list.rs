//! Encoding of an asset list: a count, then for every slot in order an
//! "exists" flag and, for an occupied slot, its record as a compressed block.
//! The records can be encoded in parallel; the bytes do not depend on it.
use vstd::prelude::*;
use rayon::iter::{IndexedParallelIterator, IntoParallelRefIterator, ParallelIterator};
use crate::asset::{Record, Category, FormatVersion};
use crate::bytes::{block, block_fits, bool_le, put_block, put_bool, put_bytes, put_u32, u32_le};

verus! {

/// Why an asset list could not be encoded.
#[derive(Debug, Clone, Copy, PartialEq, Eq, Structural)]
pub enum EncodeError {
    /// The record in slot `index` of `category` has a value that does not fit its field.
    Slot { category: Category, index: usize },
    /// The list has more slots than its 32-bit count can hold.
    TooManySlots { category: Category },
}

/// Whether a slot can be encoded: an empty one always can.
pub open spec fn slot_ok<T: Record>(slot: Option<T>, version: FormatVersion) -> bool {
    match slot {
        None => true,
        Some(a) => a.encodable(version) && block_fits(a.encoding(version)),
    }
}

/// The bytes of one slot: the flag, then the record as a compressed block.
pub open spec fn slot_bytes<T: Record>(slot: Option<T>, version: FormatVersion) -> Seq<u8> {
    match slot {
        None => bool_le(false),
        Some(a) => bool_le(true) + block(a.encoding(version)),
    }
}

/// The bytes of all slots, in order.
pub open spec fn slots_bytes<T: Record>(items: Seq<Option<T>>, version: FormatVersion) -> Seq<u8>
    decreases items.len(),
{
    if items.len() == 0 {
        Seq::empty()
    } else {
        slots_bytes(items.drop_last(), version) + slot_bytes(items.last(), version)
    }
}

/// The index of the first slot that cannot be encoded, if any.
pub open spec fn first_bad_slot<T: Record>(items: Seq<Option<T>>, version: FormatVersion) -> Option<
    int,
>
    decreases items.len(),
{
    if items.len() == 0 {
        None
    } else {
        match first_bad_slot(items.drop_last(), version) {
            Some(i) => Some(i),
            None => if slot_ok(items.last(), version) {
                None
            } else {
                Some(items.len() - 1)
            },
        }
    }
}

/// The bytes of a whole list: the count of slots, then every slot.
pub open spec fn list_bytes<T: Record>(items: Seq<Option<T>>, version: FormatVersion) -> Seq<u8> {
    u32_le(items.len() as u32) + slots_bytes(items, version)
}

/// What encoding `items` gives: the first slot that cannot be encoded is
/// reported, else the bytes of the whole list.
pub open spec fn list_outcome<T: Record>(
    items: Seq<Option<T>>,
    category: Category,
    version: FormatVersion,
) -> Result<Seq<u8>, EncodeError> {
    if items.len() > u32::MAX {
        Err(EncodeError::TooManySlots { category })
    } else {
        match first_bad_slot(items, version) {
            Some(i) => Err(EncodeError::Slot { category, index: i as usize }),
            None => Ok(list_bytes(items, version)),
        }
    }
}

/// Whether `r` is what encoding `items` owes.
pub open spec fn list_result<T: Record>(
    items: Seq<Option<T>>,
    category: Category,
    version: FormatVersion,
    r: Result<Vec<u8>, EncodeError>,
) -> bool {
    match list_outcome(items, category, version) {
        Ok(b) => r is Ok && r->Ok_0@ == b,
        Err(e) => r == Err::<Vec<u8>, EncodeError>(e),
    }
}

/// Encodes one slot; `None` when its record cannot be encoded.
pub fn encode_slot<T: Record>(slot: &Option<T>, version: FormatVersion) -> (r: Option<Vec<u8>>)
    ensures
        r is Some <==> slot_ok(*slot, version),
        r is Some ==> r->Some_0@ == slot_bytes(*slot, version),
{
    let mut out: Vec<u8> = Vec::new();
    match slot {
        None => {
            put_bool(&mut out, false);
            assert(out@ =~= slot_bytes(*slot, version));
            Some(out)
        },
        Some(a) => {
            put_bool(&mut out, true);
            match a.encode(version) {
                None => None,
                Some(bytes) => {
                    if put_block(&mut out, &bytes) {
                        assert(out@ =~= slot_bytes(*slot, version));
                        Some(out)
                    } else {
                        None
                    }
                },
            }
        },
    }
}

/// Relies on rayon's indexed parallel iterator over a slice: `map` applies
/// the closure to each element and `collect_into_vec` stores the results in
/// the elements' order.
#[verifier::external_body]
fn encode_slots_parallel<T: Record + Sync>(items: &Vec<Option<T>>, version: FormatVersion) -> (r: Vec<
    Option<Vec<u8>>,
>)
    ensures
        r.len() == items.len(),
        forall|i: int|
            0 <= i < items.len() ==> {
                &&& (#[trigger] r[i]) is Some <==> slot_ok(items[i], version)
                &&& r[i] is Some ==> r[i]->Some_0@ == slot_bytes(items[i], version)
            },
{
    let mut r = Vec::new();
    items.par_iter().map(|slot| encode_slot(slot, version)).collect_into_vec(&mut r);
    r
}

/// Encodes an asset list. With `parallel` the records are encoded on a pool
/// of worker threads and joined in slot order; without it each slot is
/// encoded and appended in turn, so only one record is held at a time. The
/// result is the same either way. No bytes come out unless every slot could
/// be encoded.
pub fn encode_asset_list<T: Record + Sync>(
    items: &Vec<Option<T>>,
    category: Category,
    version: FormatVersion,
    parallel: bool,
) -> (r: Result<Vec<u8>, EncodeError>)
    ensures
        list_result(items@, category, version, r),
{
    if items.len() > u32::MAX as usize {
        return Err(EncodeError::TooManySlots { category });
    }
    let parts: Vec<Option<Vec<u8>>> = if parallel {
        encode_slots_parallel(items, version)
    } else {
        Vec::new()
    };
    let mut out: Vec<u8> = Vec::new();
    put_u32(&mut out, items.len() as u32);
    let mut i: usize = 0;
    while i < items.len()
        invariant
            i <= items.len(),
            items.len() <= u32::MAX,
            parallel ==> parts.len() == items.len(),
            parallel ==> forall|j: int|
                0 <= j < items.len() ==> {
                    &&& (#[trigger] parts[j]) is Some <==> slot_ok(items[j], version)
                    &&& parts[j] is Some ==> parts[j]->Some_0@ == slot_bytes(items[j], version)
                },
            first_bad_slot(items@.subrange(0, i as int), version) is None,
            out@ == u32_le(items.len() as u32) + slots_bytes(items@.subrange(0, i as int), version),
        decreases items.len() - i,
    {
        assert(items@.subrange(0, i + 1).drop_last() =~= items@.subrange(0, i as int));
        let ok = if parallel {
            match &parts[i] {
                None => false,
                Some(bytes) => {
                    put_bytes(&mut out, bytes);
                    true
                },
            }
        } else {
            match encode_slot(&items[i], version) {
                None => false,
                Some(bytes) => {
                    put_bytes(&mut out, &bytes);
                    true
                },
            }
        };
        if !ok {
            proof {
                lemma_first_bad_extends(items@, i as int, version);
            }
            return Err(EncodeError::Slot { category, index: i });
        }
        i = i + 1;
        assert(out@ =~= u32_le(items.len() as u32) + slots_bytes(
            items@.subrange(0, i as int),
            version,
        ));
    }
    assert(items@.subrange(0, items.len() as int) =~= items@);
    Ok(out)
}

/// A bad slot `i` after a clean prefix is the first bad slot of the list.
proof fn lemma_first_bad_extends<T: Record>(items: Seq<Option<T>>, i: int, version: FormatVersion)
    requires
        0 <= i < items.len(),
        first_bad_slot(items.subrange(0, i), version) is None,
        !slot_ok(items[i], version),
    ensures
        first_bad_slot(items, version) == Some(i),
    decreases items.len(),
{
    assert(items.subrange(0, i + 1).drop_last() =~= items.subrange(0, i));
    if items.len() > i + 1 {
        assert(items.drop_last().subrange(0, i) =~= items.subrange(0, i));
        lemma_first_bad_extends(items.drop_last(), i, version);
    } else {
        assert(items.subrange(0, i) =~= items.drop_last());
    }
}

/// The bytes of an asset list do not depend on whether it was encoded in
/// parallel: any two results that `encode_asset_list` may give for the same
/// slots are equal.
pub proof fn lemma_list_deterministic<T: Record>(
    items: Seq<Option<T>>,
    category: Category,
    version: FormatVersion,
    r1: Result<Vec<u8>, EncodeError>,
    r2: Result<Vec<u8>, EncodeError>,
)
    requires
        list_result(items, category, version, r1),
        list_result(items, category, version, r2),
    ensures
        r1 is Ok <==> r2 is Ok,
        r1 is Ok ==> r1->Ok_0@ == r2->Ok_0@,
        r1 is Err ==> r1 == r2,
{
}

} // verus!
