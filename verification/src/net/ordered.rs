//! Walking a map of peers in the order of their ids.

use std::collections::BTreeMap;
use vstd::prelude::*;
use vstd::laws_cmp::{group_laws_cmp, lemma_ref_obeys_cmp_spec, obeys_cmp};
use vstd::std_specs::btree::{axiom_increasing_seq_meaning, increasing_seq, spec_keys_iter};
use vstd::std_specs::cmp::OrdSpec;
use vstd::std_specs::iter::IteratorSpec;

verus! {

/// Whether `ids` lists exactly the numbers in `domain`, each once, from the
/// lowest to the highest.
pub open spec fn lists_in_order(ids: Seq<u16>, domain: Set<u16>) -> bool {
    &&& ids.to_set() == domain
    &&& forall|i: int, j: int| 0 <= i < j < ids.len() ==> ids[i] < ids[j]
}

/// The keys of `map`, each once, from the lowest to the highest.
pub fn keys_in_order<V>(map: &BTreeMap<u16, V>) -> (ids: Vec<u16>)
    ensures
        lists_in_order(ids@, map@.dom()),
{
    let mut ids: Vec<u16> = Vec::new();
    let keys = map.keys();
    for key in it: keys
        invariant
            ids@.len() == it.index(),
            it.seq() == spec_keys_iter(map).remaining(),
            forall|i: int| 0 <= i < it.index() ==> ids@[i] == *it.seq()[i],
    {
        ids.push(*key);
    }
    proof {
        broadcast use group_laws_cmp;
        broadcast use lemma_ref_obeys_cmp_spec;

        let walked = spec_keys_iter(map).remaining();
        assert(ids@ =~= walked.unref());
        assert(increasing_seq(walked));
        assert(obeys_cmp::<u16>());
        assert(obeys_cmp::<&u16>());
        axiom_increasing_seq_meaning::<&u16>(walked);
        assert forall|i: int, j: int| 0 <= i < j < ids.len() implies ids[i] < ids[j] by {
            assert(OrdSpec::cmp_spec(&walked[i], &walked[j]) is Less);
        }
    }
    ids
}

/// Two lists of the same numbers in order are the same list.
pub proof fn lemma_order_is_unique(a: Seq<u16>, b: Seq<u16>, domain: Set<u16>)
    requires
        lists_in_order(a, domain),
        lists_in_order(b, domain),
    ensures
        a == b,
    decreases a.len(),
{
    if a.len() == 0 {
        if b.len() > 0 {
            assert(b.to_set().contains(b[0]));
            assert(a.to_set().contains(b[0]));
        }
        assert(a =~= b);
    } else if b.len() == 0 {
        assert(a.to_set().contains(a[0]));
        assert(b.to_set().contains(a[0]));
    } else {
        // the last of each is the highest of the domain
        let la = a.last();
        let lb = b.last();
        assert(a.to_set().contains(la));
        assert(b.to_set().contains(lb));
        assert(b.to_set().contains(la));
        assert(a.to_set().contains(lb));
        let ia = choose|i: int| 0 <= i < a.len() && a[i] == lb;
        let ib = choose|i: int| 0 <= i < b.len() && b[i] == la;
        assert(la == lb);
        let rest = domain.remove(la);
        let ra = a.drop_last();
        let rb = b.drop_last();
        assert(ra.to_set() =~= rest) by {
            assert forall|x: u16| ra.to_set().contains(x) <==> rest.contains(x) by {
                if ra.to_set().contains(x) {
                    let i = choose|i: int| 0 <= i < ra.len() && ra[i] == x;
                    assert(a[i] == x);
                    assert(a.to_set().contains(x));
                }
                if rest.contains(x) {
                    assert(a.to_set().contains(x));
                    let i = choose|i: int| 0 <= i < a.len() && a[i] == x;
                    assert(ra[i] == x);
                }
            }
        }
        assert(rb.to_set() =~= rest) by {
            assert forall|x: u16| rb.to_set().contains(x) <==> rest.contains(x) by {
                if rb.to_set().contains(x) {
                    let i = choose|i: int| 0 <= i < rb.len() && rb[i] == x;
                    assert(b[i] == x);
                    assert(b.to_set().contains(x));
                }
                if rest.contains(x) {
                    assert(b.to_set().contains(x));
                    let i = choose|i: int| 0 <= i < b.len() && b[i] == x;
                    assert(rb[i] == x);
                }
            }
        }
        lemma_order_is_unique(ra, rb, rest);
        assert(a =~= ra.push(la));
        assert(b =~= rb.push(lb));
    }
}

} // verus!
