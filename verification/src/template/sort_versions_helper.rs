//! The helper that puts the buckets of a changelog in the order of their
//! versions.

use vstd::prelude::*;
use crate::fragment::texts_of;
use crate::path::text_le;
use crate::path::text_before;
use crate::version::Version;
use crate::version::semver_parsed;
use crate::version::version_precedes;

verus! {

/// Whether the label `a` comes before the label `b`: two labels that are
/// versions go by precedence, any other two by the order of a dictionary.
pub open spec fn label_before(a: Seq<char>, b: Seq<char>) -> bool {
    match (semver_parsed(a), semver_parsed(b)) {
        (Ok(v), Ok(w)) => version_precedes(v, w),
        _ => text_le(a, b) && a != b,
    }
}

/// The place among `order` at which the label at place `x` goes: before the
/// first label, at or after `from`, that it comes before.
pub open spec fn place_of(labels: Seq<Seq<char>>, order: Seq<usize>, x: int, from: int) -> int
    decreases order.len() - from,
{
    if from < 0 || from >= order.len() {
        order.len() as int
    } else if label_before(labels[x], labels[order[from] as int]) {
        from
    } else {
        place_of(labels, order, x, from + 1)
    }
}

/// The places of the first `n` labels, in the order of the labels: each
/// label in turn goes before the first label that it comes before, and
/// behind all others.
pub open spec fn sorted_places(labels: Seq<Seq<char>>, n: int) -> Seq<usize>
    decreases n,
{
    if n <= 0 || n > labels.len() {
        Seq::empty()
    } else {
        let before = sorted_places(labels, n - 1);
        let p = place_of(labels, before, n - 1, 0);
        if 0 <= p <= before.len() {
            before.insert(p, (n - 1) as usize)
        } else {
            before
        }
    }
}

/// Whether `order` holds every place below `n` once and nothing else.
pub open spec fn is_arrangement(order: Seq<usize>, n: int) -> bool {
    &&& order.len() == n
    &&& forall|i: int| 0 <= i < order.len() ==> #[trigger] order[i] < n
    &&& forall|i: int, j: int| 0 <= i < j < order.len() ==> #[trigger] order[i] != #[trigger] order[j]
}

/// The place at which a label goes lies within the order.
pub proof fn lemma_place_of(labels: Seq<Seq<char>>, order: Seq<usize>, x: int, from: int)
    requires
        0 <= from <= order.len(),
    ensures
        from <= place_of(labels, order, x, from) <= order.len(),
    decreases order.len() - from,
{
    if from < order.len() && !label_before(labels[x], labels[order[from] as int]) {
        lemma_place_of(labels, order, x, from + 1);
    }
}

/// Putting labels in order loses no label and adds none.
pub proof fn lemma_sorted_places(labels: Seq<Seq<char>>, n: int)
    requires
        0 <= n <= labels.len(),
        n <= usize::MAX,
    ensures
        is_arrangement(sorted_places(labels, n), n),
    decreases n,
{
    if n > 0 {
        lemma_sorted_places(labels, n - 1);
        let before = sorted_places(labels, n - 1);
        lemma_place_of(labels, before, n - 1, 0);
        let p = place_of(labels, before, n - 1, 0);
        let after = before.insert(p, (n - 1) as usize);
        assert forall|i: int| 0 <= i < after.len() implies #[trigger] after[i] < n by {
            if i < p {
                assert(after[i] == before[i]);
            } else if i > p {
                assert(after[i] == before[i - 1]);
            }
        }
        assert forall|i: int, j: int| 0 <= i < j < after.len() implies #[trigger] after[i]
            != #[trigger] after[j] by {
            let a = if i < p {
                i
            } else {
                i - 1
            };
            let b = if j < p {
                j
            } else {
                j - 1
            };
            if i != p && j != p {
                assert(after[i] == before[a] && after[j] == before[b]);
                assert(before[a] != before[b]);
            } else if i == p {
                assert(after[j] == before[b]);
                assert(before[b] < n - 1);
            } else {
                assert(after[i] == before[a]);
                assert(before[a] < n - 1);
            }
        }
    }
}

fn comes_before(a: &str, b: &str) -> (r: bool)
    ensures
        r == label_before(a@, b@),
{
    match Version::parse(a) {
        Ok(v) => match Version::parse(b) {
            Ok(w) => v.precedes(&w),
            Err(_) => text_before(a, b),
        },
        Err(_) => text_before(a, b),
    }
}

/// Puts the labels of buckets in order: labels that are versions ascend by
/// precedence, and a label that is none is held against the others by the
/// order of a dictionary. The result holds the places of the labels, each
/// once, in their new order.
pub fn sort_versions(labels: &Vec<String>) -> (r: Vec<usize>)
    ensures
        r@ == sorted_places(texts_of(labels@), labels@.len() as int),
        is_arrangement(r@, labels@.len() as int),
{
    let ghost texts = texts_of(labels@);
    let mut order: Vec<usize> = Vec::new();
    let mut n: usize = 0;
    while n < labels.len()
        invariant
            n <= labels.len(),
            texts == texts_of(labels@),
            order@ == sorted_places(texts, n as int),
            is_arrangement(order@, n as int),
        decreases labels.len() - n,
    {
        let mut p: usize = 0;
        while p < order.len()
            invariant
                p <= order.len(),
                n < labels.len(),
                texts == texts_of(labels@),
                is_arrangement(order@, n as int),
                place_of(texts, order@, n as int, 0) == place_of(texts, order@, n as int, p as int),
            ensures
                p <= order.len(),
                p == place_of(texts, order@, n as int, 0),
            decreases order.len() - p,
        {
            let there = order[p];
            assert(texts[n as int] == labels@[n as int]@);
            assert(texts[there as int] == labels@[there as int]@);
            if comes_before(labels[n].as_str(), labels[there].as_str()) {
                break ;
            }
            p += 1;
        }
        proof {
            lemma_sorted_places(texts, n + 1);
        }
        order.insert(p, n);
        n += 1;
    }
    order
}

} // verus!
