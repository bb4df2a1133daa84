use vstd::prelude::*;
use vstd::multiset::Multiset;
use crate::path::{key_le, lemma_key_total, lemma_key_transitive, lowercase_le};

verus! {

broadcast use vstd::seq_lib::group_to_multiset_ensures;

/// A value listed by the path it carries.
pub trait ListingKey {
    spec fn listing_key(&self) -> Seq<u8>;

    fn key_bytes(&self) -> (r: &Vec<u8>)
        ensures
            r@ == self.listing_key(),
    ;
}

impl ListingKey for Vec<u8> {
    open spec fn listing_key(&self) -> Seq<u8> {
        self@
    }

    fn key_bytes(&self) -> (r: &Vec<u8>) {
        self
    }
}

/// Each element comes no later in a listing than those after it.
pub open spec fn listing_sorted<T: ListingKey>(s: Seq<T>) -> bool {
    forall|i: int, j: int|
        0 <= i < j < s.len() ==> #[trigger] key_le(s[i].listing_key(), s[j].listing_key())
}

/// Inserts `x` after every element that comes no later than it.
fn insert_sorted<T: ListingKey>(r: &mut Vec<T>, x: T)
    requires
        listing_sorted(old(r)@),
    ensures
        listing_sorted(final(r)@),
        final(r)@.to_multiset() == old(r)@.to_multiset().insert(x),
{
    let mut j: usize = 0;
    while j < r.len() && lowercase_le(r[j].key_bytes(), x.key_bytes())
        invariant
            j <= r.len(),
            forall|i: int| 0 <= i < j ==> #[trigger] key_le(r@[i].listing_key(), x.listing_key()),
        decreases r.len() - j,
    {
        j = j + 1;
    }
    let ghost before = r@;
    proof {
        if j < r.len() {
            lemma_key_total(before[j as int].listing_key(), x.listing_key());
            assert forall|k: int| j <= k < before.len() implies #[trigger] key_le(
                x.listing_key(),
                before[k].listing_key(),
            ) by {
                if k > j {
                    assert(key_le(before[j as int].listing_key(), before[k].listing_key()));
                    lemma_key_transitive(
                        x.listing_key(),
                        before[j as int].listing_key(),
                        before[k].listing_key(),
                    );
                }
            }
        }
    }
    r.insert(j, x);
    proof {
        let after = r@;
        assert forall|a: int, b: int| 0 <= a < b < after.len() implies #[trigger] key_le(
            after[a].listing_key(),
            after[b].listing_key(),
        ) by {
            if b < j {
                assert(key_le(before[a].listing_key(), before[b].listing_key()));
            } else if b == j {
                assert(key_le(before[a].listing_key(), x.listing_key()));
            } else if a < j {
                assert(key_le(before[a].listing_key(), before[b - 1].listing_key()));
            } else if a == j {
                assert(key_le(x.listing_key(), before[b - 1].listing_key()));
            } else {
                assert(key_le(before[a - 1].listing_key(), before[b - 1].listing_key()));
            }
        }
        vstd::seq_lib::to_multiset_insert(before, j as int, x);
    }
}

/// Orders `v` by the ASCII lower case form of each element's path.
pub fn sort_by_lowercase_path<T: ListingKey>(v: Vec<T>) -> (r: Vec<T>)
    ensures
        listing_sorted(r@),
        r@.to_multiset() == v@.to_multiset(),
{
    let mut rest = v;
    let mut r: Vec<T> = Vec::new();
    while rest.len() > 0
        invariant
            listing_sorted(r@),
            r@.to_multiset().add(rest@.to_multiset()) == v@.to_multiset(),
        decreases rest.len(),
    {
        let ghost old_rest = rest@;
        let x = rest.remove(0);
        proof {
            vstd::seq_lib::to_multiset_remove(old_rest, 0);
        }
        insert_sorted(&mut r, x);
        proof {
            assert(r@.to_multiset().add(rest@.to_multiset()) =~= v@.to_multiset());
        }
    }
    proof {
        assert(rest@.to_multiset() =~= Multiset::empty());
        assert(r@.to_multiset() =~= v@.to_multiset());
    }
    r
}

} // verus!
