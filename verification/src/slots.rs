//! Lists kept in storage one entry per slot: slot `i` of a list lives under
//! its own key, and a separate entry holds the list's length.
use vstd::prelude::*;

verus! {

/// The values of slots `lo` to `hi - 1` that are present and decode, in slot
/// order; slot `i` is kept under the key `slot(i)`.
pub open spec fn present_values<T>(
    e: Map<Seq<u8>, Seq<u8>>,
    slot: spec_fn(u32) -> Seq<u8>,
    dec: spec_fn(Seq<u8>) -> Option<T>,
    lo: nat,
    hi: nat,
) -> Seq<T>
    decreases hi,
{
    if hi <= lo {
        Seq::empty()
    } else {
        let prev = present_values(e, slot, dec, lo, (hi - 1) as nat);
        let k = slot((hi - 1) as u32);
        if e.contains_key(k) && dec(e[k]) is Some {
            prev.push(dec(e[k])->0)
        } else {
            prev
        }
    }
}

/// Slots whose entries agree give the same values.
pub proof fn lemma_present_values_frame<T>(
    e1: Map<Seq<u8>, Seq<u8>>,
    e2: Map<Seq<u8>, Seq<u8>>,
    slot: spec_fn(u32) -> Seq<u8>,
    dec: spec_fn(Seq<u8>) -> Option<T>,
    lo: nat,
    hi: nat,
)
    requires
        forall|i: nat|
            lo <= i < hi ==> e1.contains_key(#[trigger] slot(i as u32)) == e2.contains_key(
                slot(i as u32),
            ),
        forall|i: nat|
            lo <= i < hi && e1.contains_key(#[trigger] slot(i as u32)) ==> e1[slot(i as u32)]
                == e2[slot(i as u32)],
    ensures
        present_values(e1, slot, dec, lo, hi) == present_values(e2, slot, dec, lo, hi),
    decreases hi,
{
    if hi > lo {
        lemma_present_values_frame(e1, e2, slot, dec, lo, (hi - 1) as nat);
        let i = (hi - 1) as nat;
        assert(e1.contains_key(slot(i as u32)) == e2.contains_key(slot(i as u32)));
    }
}

/// When every slot from `lo` to `hi - 1` holds a value, those are the values,
/// in slot order.
pub proof fn lemma_present_values_all<T>(
    e: Map<Seq<u8>, Seq<u8>>,
    slot: spec_fn(u32) -> Seq<u8>,
    dec: spec_fn(Seq<u8>) -> Option<T>,
    lo: nat,
    hi: nat,
)
    requires
        lo <= hi,
        forall|i: nat|
            lo <= i < hi ==> e.contains_key(#[trigger] slot(i as u32)) && dec(e[slot(i as u32)]) is Some,
    ensures
        present_values(e, slot, dec, lo, hi) == Seq::new(
            (hi - lo) as nat,
            |k: int| dec(e[slot((lo + k) as u32)])->0,
        ),
    decreases hi,
{
    if hi > lo {
        lemma_present_values_all(e, slot, dec, lo, (hi - 1) as nat);
        let i = (hi - 1) as nat;
        assert(e.contains_key(slot(i as u32)));
        assert(present_values(e, slot, dec, lo, hi) =~= Seq::new(
            (hi - lo) as nat,
            |k: int| dec(e[slot((lo + k) as u32)])->0,
        ));
    } else {
        assert(present_values(e, slot, dec, lo, hi) =~= Seq::new(
            (hi - lo) as nat,
            |k: int| dec(e[slot((lo + k) as u32)])->0,
        ));
    }
}

} // verus!
