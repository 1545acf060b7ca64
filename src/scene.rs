use vstd::prelude::*;

verus! {

/// The sign bit of an IEEE-754 single-precision bit pattern.
pub const SIGN_BIT: u32 = 0x8000_0000;

/// A key for the bit pattern of a single-precision float whose unsigned order
/// is the order of the float values: non-negative values go above the sign
/// bit in their own bit order, negative ones below it in reverse, and the two
/// zeros share one key.
pub open spec fn key_of(bits: u32) -> nat {
    if bits < SIGN_BIT {
        (bits + SIGN_BIT) as nat
    } else {
        (0x1_0000_0000 - bits) as nat
    }
}

/// The order key of a float's bit pattern (see `key_of`).
pub fn order_key(bits: u32) -> (r: u32)
    ensures
        r as nat == key_of(bits),
{
    if bits < SIGN_BIT {
        bits + SIGN_BIT
    } else {
        (0xFFFF_FFFFu32 - bits) + 1
    }
}

/// Keys keep the order of non-negative floats, reverse the order of the
/// magnitudes of negative ones, and put every negative float below every
/// non-negative one; negative zero and positive zero share a key.
pub proof fn lemma_key_order(a: u32, b: u32)
    ensures
        a < SIGN_BIT && b < SIGN_BIT ==> (key_of(a) < key_of(b) <==> a < b),
        a >= SIGN_BIT && b >= SIGN_BIT ==> (key_of(a) < key_of(b) <==> a > b),
        a > SIGN_BIT && b < SIGN_BIT ==> key_of(a) < key_of(b),
        key_of(SIGN_BIT) == key_of(0),
{
}

/// `i` is the first place of `keys` that holds the least key.
pub open spec fn is_nearest(keys: Seq<Option<u32>>, i: int) -> bool {
    &&& 0 <= i < keys.len()
    &&& keys[i] is Some
    &&& forall|j: int| 0 <= j < keys.len() && #[trigger] keys[j] is Some
        ==> keys[i]->0 <= keys[j]->0
    &&& forall|j: int| 0 <= j < i && #[trigger] keys[j] is Some ==> keys[i]->0 < keys[j]->0
}

/// Picks the nearest of the hits that the primitives of a scene reported, in
/// their order of insertion: `keys[k]` is the order key of the distance at
/// which primitive `k` was hit, or `None` where it was not. A later hit
/// displaces an earlier one only if it is strictly nearer.
pub fn nearest_hit(keys: &Vec<Option<u32>>) -> (r: Option<usize>)
    ensures
        r is None <==> forall|j: int| 0 <= j < keys.len() ==> #[trigger] keys[j] is None,
        r matches Some(i) ==> is_nearest(keys@, i as int),
{
    let mut best: Option<usize> = None;
    let mut k: usize = 0;
    while k < keys.len()
        invariant
            0 <= k <= keys.len(),
            best is None <==> forall|j: int| 0 <= j < k ==> #[trigger] keys[j] is None,
            best matches Some(i) ==> is_nearest(keys@.take(k as int), i as int),
        decreases keys.len() - k,
    {
        let ghost prev = keys@.take(k as int);
        assert(keys@.take(k + 1) =~= prev.push(keys[k as int]));
        match keys[k] {
            Some(t) => {
                let displace = match best {
                    None => true,
                    Some(i) => match keys[i] {
                        Some(tb) => t < tb,
                        None => true,
                    },
                };
                if displace {
                    best = Some(k);
                }
            },
            None => {},
        }
        proof {
            let cur = keys@.take(k + 1);
            if let Some(i) = best {
                assert(cur[i as int] == keys[i as int]);
                assert forall|j: int| 0 <= j < cur.len() && #[trigger] cur[j] is Some implies cur[i as int]->0 <= cur[j]->0 by {
                    if j < k {
                        assert(cur[j] == prev[j]);
                    }
                }
                assert forall|j: int| 0 <= j < i && #[trigger] cur[j] is Some implies cur[i as int]->0 < cur[j]->0 by {
                    if j < k {
                        assert(cur[j] == prev[j]);
                    }
                }
            }
        }
        k += 1;
    }
    assert(keys@.take(k as int) =~= keys@);
    best
}

} // verus!
