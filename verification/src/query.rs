//! Query strings as `key=value` items separated by `&`: splitting and
//! lookup of the first item with a given (raw) key.

use vstd::prelude::*;
use vstd::slice::{slice_subrange, slice_to_vec};

use crate::text::bytes_eq;

verus! {

/// The position of the first occurrence of `b` in `s`, or `s.len()` when
/// `s` does not hold `b`.
pub open spec fn spec_find_byte(s: Seq<u8>, b: u8) -> nat
    decreases s.len(),
{
    if s.len() == 0 {
        0
    } else if s[0] == b {
        0
    } else {
        1 + spec_find_byte(s.skip(1), b)
    }
}

/// What [`spec_find_byte`] finds: an in-range position holding `b` with no
/// `b` before it, or `s.len()` when `b` does not occur at all.
pub proof fn lemma_find_byte(s: Seq<u8>, b: u8)
    ensures
        spec_find_byte(s, b) <= s.len(),
        spec_find_byte(s, b) < s.len() ==> s[spec_find_byte(s, b) as int] == b,
        forall|j: int| 0 <= j < spec_find_byte(s, b) ==> s[j] != b,
    decreases s.len(),
{
    if s.len() > 0 && s[0] != b {
        lemma_find_byte(s.skip(1), b);
        assert forall|j: int| 0 <= j < spec_find_byte(s, b) implies s[j] != b by {
            if j > 0 {
                assert(s.skip(1)[j - 1] == s[j]);
            }
        }
    }
}

/// The items of a query string: the maximal `&`-free pieces, in order.
pub open spec fn spec_query_items(s: Seq<u8>) -> Seq<Seq<u8>>
    decreases s.len(),
{
    let i = spec_find_byte(s, 0x26);
    if i < s.len() {
        seq![s.take(i as int)] + spec_query_items(s.skip(i as int + 1))
    } else {
        seq![s]
    }
}

/// The key of one item: what stands before the first `=`, or the whole
/// item when it has none.
pub open spec fn spec_item_key(item: Seq<u8>) -> Seq<u8> {
    let e = spec_find_byte(item, 0x3d);
    if e < item.len() {
        item.take(e as int)
    } else {
        item
    }
}

/// The value of one item: what stands after the first `=`, or empty when
/// the item has none.
pub open spec fn spec_item_value(item: Seq<u8>) -> Seq<u8> {
    let e = spec_find_byte(item, 0x3d);
    if e < item.len() {
        item.skip(e as int + 1)
    } else {
        Seq::empty()
    }
}

/// The value of the first item whose key is `key`, if any.
pub open spec fn spec_lookup_items(items: Seq<Seq<u8>>, key: Seq<u8>) -> Option<Seq<u8>>
    decreases items.len(),
{
    if items.len() == 0 {
        None
    } else if spec_item_key(items[0]) == key {
        Some(spec_item_value(items[0]))
    } else {
        spec_lookup_items(items.skip(1), key)
    }
}

/// The raw (undecoded) value bound to `key` in the query string `q`.
pub open spec fn spec_query_lookup(q: Seq<u8>, key: Seq<u8>) -> Option<Seq<u8>> {
    spec_lookup_items(spec_query_items(q), key)
}

/// Whether some item of `q` has the key `key`.
pub open spec fn spec_query_has_key(q: Seq<u8>, key: Seq<u8>) -> bool {
    spec_query_lookup(q, key) is Some
}

/// The position of the first `b` at or after `from`, or `s.len()` when
/// there is none.
fn find_byte_from(s: &[u8], from: usize, b: u8) -> (r: usize)
    requires
        from <= s@.len(),
    ensures
        r as nat == from + spec_find_byte(s@.skip(from as int), b),
{
    let n = s.len();
    let mut j = from;
    while j < n
        invariant
            from <= j <= n,
            n == s@.len(),
            spec_find_byte(s@.skip(from as int), b) == (j - from) + spec_find_byte(
                s@.skip(j as int),
                b,
            ),
        decreases n - j,
    {
        let ghost remj = s@.skip(j as int);
        assert(remj[0] == s@[j as int]);
        if s[j] == b {
            assert(spec_find_byte(remj, b) == 0);
            return j;
        }
        proof {
            assert(remj.skip(1) =~= s@.skip(j + 1));
            assert(spec_find_byte(remj, b) == 1 + spec_find_byte(s@.skip(j + 1), b));
        }
        j += 1;
    }
    proof {
        assert(s@.skip(n as int) =~= Seq::<u8>::empty());
        assert(spec_find_byte(Seq::<u8>::empty(), b) == 0);
    }
    n
}

/// Looks `key` up in the query string: the raw value of the first item
/// with that key, exactly as [`spec_query_lookup`] gives it.
pub fn query_lookup(q: &[u8], key: &[u8]) -> (r: Option<Vec<u8>>)
    ensures
        match r {
            Some(v) => spec_query_lookup(q@, key@) == Some(v@),
            None => spec_query_lookup(q@, key@) is None,
        },
{
    let n = q.len();
    let mut pos: usize = 0;
    proof {
        assert(q@.skip(0) =~= q@);
    }
    loop
        invariant
            pos <= n,
            n == q@.len(),
            spec_query_lookup(q@, key@) == spec_lookup_items(
                spec_query_items(q@.skip(pos as int)),
                key@,
            ),
        decreases n - pos,
    {
        let ghost rem = q@.skip(pos as int);
        let ghost i = spec_find_byte(rem, 0x26);
        proof {
            lemma_find_byte(rem, 0x26);
        }
        let amp_abs = find_byte_from(q, pos, 0x26);
        assert(amp_abs - pos == i);
        let item = slice_subrange(q, pos, amp_abs);
        assert(item@ =~= rem.take(i as int));
        proof {
            if i >= rem.len() {
                assert(rem.take(i as int) =~= rem);
            }
        }

        let ghost e = spec_find_byte(item@, 0x3d);
        proof {
            lemma_find_byte(item@, 0x3d);
            assert(item@.skip(0) =~= item@);
        }
        let eqpos = find_byte_from(item, 0, 0x3d);
        assert(eqpos as nat == e);
        let item_len = item.len();
        let kpart: &[u8] = if eqpos < item_len {
            slice_subrange(item, 0, eqpos)
        } else {
            item
        };
        let vpart: &[u8] = if eqpos < item_len {
            slice_subrange(item, eqpos + 1, item_len)
        } else {
            slice_subrange(item, item_len, item_len)
        };
        assert(kpart@ =~= spec_item_key(item@));
        assert(vpart@ =~= spec_item_value(item@));

        let ghost items = spec_query_items(rem);
        proof {
            if i < rem.len() {
                assert(items == seq![item@] + spec_query_items(rem.skip(i as int + 1)));
                assert(items[0] == item@);
                assert(items.len() >= 1);
                assert(items.skip(1) =~= spec_query_items(rem.skip(i as int + 1)));
            } else {
                assert(items == seq![rem]);
                assert(items[0] == item@);
                assert(items.skip(1) =~= Seq::<Seq<u8>>::empty());
            }
        }

        if bytes_eq(kpart, key) {
            assert(spec_item_key(items[0]) == key@);
            assert(spec_lookup_items(items, key@) == Some(spec_item_value(item@)));
            return Some(slice_to_vec(vpart));
        }
        assert(spec_item_key(items[0]) != key@);
        assert(spec_lookup_items(items, key@) == spec_lookup_items(items.skip(1), key@));
        if amp_abs < n {
            assert(i < rem.len());
            proof {
                assert(rem.skip(i as int + 1) =~= q@.skip(amp_abs + 1));
            }
            pos = amp_abs + 1;
        } else {
            assert(i >= rem.len());
            assert(spec_lookup_items(Seq::<Seq<u8>>::empty(), key@) is None);
            return None;
        }
    }
}

} // verus!
