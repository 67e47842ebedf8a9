//! Paths as the library sees them: a text to show, and the components that
//! the file system gave.

use vstd::prelude::*;
use vstd::relations::sorted_by;
use vstd::relations::total_ordering;
use vstd::seq_lib::lemma_sorted_unique;
use vstd::seq_lib::to_multiset_build;
use vstd::seq_lib::to_multiset_insert;
use crate::fragment::texts_of;
use crate::text::chars_of;
use crate::text::str_eq;

verus! {

/// One component of a path.
#[derive(Debug)]
pub enum PathPart {
    /// The name of a directory or of a file.
    Normal(String),
    /// A name that is not UTF-8.
    NotUtf8,
    /// A root, a prefix, or a reference to the current or the parent
    /// directory.
    Special,
}

/// The mathematical model of a path component.
pub ghost enum PathPartModel {
    Normal(Seq<char>),
    NotUtf8,
    Special,
}

impl View for PathPart {
    type V = PathPartModel;

    open spec fn view(&self) -> PathPartModel {
        match self {
            PathPart::Normal(name) => PathPartModel::Normal(name@),
            PathPart::NotUtf8 => PathPartModel::NotUtf8,
            PathPart::Special => PathPartModel::Special,
        }
    }
}

impl Clone for PathPart {
    fn clone(&self) -> (r: Self)
        ensures
            r@ == self@,
    {
        match self {
            PathPart::Normal(name) => PathPart::Normal(name.clone()),
            PathPart::NotUtf8 => PathPart::NotUtf8,
            PathPart::Special => PathPart::Special,
        }
    }
}

/// The models of the components of a path.
pub open spec fn parts_of(parts: Seq<PathPart>) -> Seq<PathPartModel> {
    Seq::new(parts.len(), |i: int| parts[i]@)
}

/// Whether the last component of a path is the name `name`.
pub open spec fn ends_with_name(parts: Seq<PathPartModel>, name: Seq<char>) -> bool {
    parts.len() > 0 && parts.last() == PathPartModel::Normal(name)
}

/// Whether the last component of `parts` is the name `name`.
pub fn last_is(parts: &Vec<PathPart>, name: &str) -> (r: bool)
    ensures
        r == ends_with_name(parts_of(parts@), name@),
{
    if parts.len() == 0 {
        return false;
    }
    assert(parts_of(parts@).last() == parts@[parts.len() - 1]@);
    match &parts[parts.len() - 1] {
        PathPart::Normal(n) => str_eq(n.as_str(), name),
        _ => false,
    }
}

/// What kind of thing a directory entry is.
#[derive(Clone, Copy, Debug, PartialEq, Eq)]
pub enum EntryKind {
    File,
    Dir,
    Other,
}

/// An entry that a walk through a directory tree came upon.
#[derive(Debug)]
pub struct WalkEntry {
    /// The path, as text.
    pub path: String,
    /// The components of the path.
    pub parts: Vec<PathPart>,
    /// What the path leads to.
    pub kind: EntryKind,
}

/// The mathematical model of a directory entry.
pub ghost struct WalkEntryModel {
    pub path: Seq<char>,
    pub parts: Seq<PathPartModel>,
    pub kind: EntryKind,
}

impl View for WalkEntry {
    type V = WalkEntryModel;

    open spec fn view(&self) -> WalkEntryModel {
        WalkEntryModel { path: self.path@, parts: parts_of(self.parts@), kind: self.kind }
    }
}

/// One step of a walk through a directory tree: an entry, or the message of
/// the failure to read one.
#[derive(Debug)]
pub enum Walked {
    Entry(WalkEntry),
    Failed(String),
}

/// The mathematical model of one step of a walk.
pub ghost enum WalkedModel {
    Entry(WalkEntryModel),
    Failed(Seq<char>),
}

impl View for Walked {
    type V = WalkedModel;

    open spec fn view(&self) -> WalkedModel {
        match self {
            Walked::Entry(e) => WalkedModel::Entry(e@),
            Walked::Failed(m) => WalkedModel::Failed(m@),
        }
    }
}

/// The models of the steps of a walk.
pub open spec fn walk_of(steps: Seq<Walked>) -> Seq<WalkedModel> {
    Seq::new(steps.len(), |i: int| steps[i]@)
}


/// Whether `a` does not come behind `b`, from the place `i` on: the first
/// place at which the two texts differ decides, the lower character first,
/// and a text that ends comes before one that goes on.
pub open spec fn le_from(a: Seq<char>, b: Seq<char>, i: int) -> bool
    decreases a.len() - i,
{
    if i < 0 || i >= a.len() {
        true
    } else if i >= b.len() {
        false
    } else if a[i] != b[i] {
        a[i] < b[i]
    } else {
        le_from(a, b, i + 1)
    }
}

/// Whether the text `a` does not come behind the text `b` in the order of a
/// dictionary.
pub open spec fn text_le(a: Seq<char>, b: Seq<char>) -> bool {
    le_from(a, b, 0)
}

/// The order of texts, as a relation.
pub open spec fn text_order() -> spec_fn(Seq<char>, Seq<char>) -> bool {
    |a: Seq<char>, b: Seq<char>| text_le(a, b)
}

/// Every text stands in the order to itself.
pub proof fn lemma_le_reflexive(a: Seq<char>, i: int)
    requires
        0 <= i,
    ensures
        le_from(a, a, i),
    decreases a.len() - i,
{
    if i < a.len() {
        lemma_le_reflexive(a, i + 1);
    }
}

/// Of two texts one does not come behind the other.
pub proof fn lemma_le_total(a: Seq<char>, b: Seq<char>, i: int)
    requires
        0 <= i,
    ensures
        le_from(a, b, i) || le_from(b, a, i),
    decreases a.len() - i,
{
    if i < a.len() && i < b.len() && a[i] == b[i] {
        lemma_le_total(a, b, i + 1);
    }
}

/// The order of texts is transitive.
pub proof fn lemma_le_transitive(a: Seq<char>, b: Seq<char>, c: Seq<char>, i: int)
    requires
        0 <= i,
        le_from(a, b, i),
        le_from(b, c, i),
    ensures
        le_from(a, c, i),
    decreases a.len() - i,
{
    if i < a.len() {
        if a[i] == b[i] && b[i] == c[i] {
            lemma_le_transitive(a, b, c, i + 1);
        }
    }
}

/// Two texts of which neither comes behind the other agree from `i` on.
pub proof fn lemma_le_antisymmetric(a: Seq<char>, b: Seq<char>, i: int)
    requires
        0 <= i <= a.len(),
        i <= b.len(),
        le_from(a, b, i),
        le_from(b, a, i),
    ensures
        a.len() == b.len(),
        forall|k: int| i <= k < a.len() ==> a[k] == b[k],
    decreases a.len() - i,
{
    if i < a.len() {
        lemma_le_antisymmetric(a, b, i + 1);
    }
}

/// The order of texts is a total order.
pub proof fn lemma_text_order_is_total()
    ensures
        total_ordering(text_order()),
{
    let r = text_order();
    assert forall|x: Seq<char>| #[trigger] r(x, x) by {
        lemma_le_reflexive(x, 0);
    }
    assert forall|x: Seq<char>, y: Seq<char>| #[trigger] r(x, y) && #[trigger] r(y, x) implies x
        == y by {
        lemma_le_antisymmetric(x, y, 0);
        assert(x =~= y);
    }
    assert forall|x: Seq<char>, y: Seq<char>, z: Seq<char>| #[trigger]
        r(x, y) && #[trigger] r(y, z) implies r(x, z) by {
        lemma_le_transitive(x, y, z, 0);
    }
    assert forall|x: Seq<char>, y: Seq<char>| #[trigger] r(x, y) || #[trigger] r(y, x) by {
        lemma_le_total(x, y, 0);
    }
}

/// Whatever the order in which a walk came upon the same paths, putting
/// them in order gives the same sequence.
pub proof fn lemma_sorted_paths_are_unique(x: Seq<Seq<char>>, y: Seq<Seq<char>>)
    requires
        sorted_by(x, text_order()),
        sorted_by(y, text_order()),
        x.to_multiset() == y.to_multiset(),
    ensures
        x == y,
{
    lemma_text_order_is_total();
    lemma_sorted_unique(x, y, text_order());
}

fn chars_le(a: &Vec<char>, b: &Vec<char>) -> (r: bool)
    ensures
        r == text_le(a@, b@),
{
    let mut i: usize = 0;
    while i < a.len()
        invariant
            i <= a.len(),
            text_le(a@, b@) == le_from(a@, b@, i as int),
        decreases a.len() - i,
    {
        if i >= b.len() {
            return false;
        }
        if a[i] != b[i] {
            return a[i] < b[i];
        }
        i += 1;
    }
    true
}

/// Whether the text `a` comes before the text `b` in the order of a
/// dictionary.
pub fn text_before(a: &str, b: &str) -> (r: bool)
    ensures
        r == (text_le(a@, b@) && a@ != b@),
{
    let x = chars_of(a);
    let y = chars_of(b);
    chars_le(&x, &y) && !crate::text::chars_eq(&x, &y)
}

/// Puts paths in the order of a dictionary. Nothing is lost and nothing
/// added.
pub fn sort_paths(paths: Vec<String>) -> (r: Vec<String>)
    ensures
        sorted_by(texts_of(r@), text_order()),
        texts_of(r@).to_multiset() == texts_of(paths@).to_multiset(),
{
    let ghost items = paths@;
    let mut out: Vec<String> = Vec::new();
    assert(texts_of(out@) =~= texts_of(items.take(0)));
    for path in it: paths
        invariant
            it.seq() == items,
            sorted_by(texts_of(out@), text_order()),
            texts_of(out@).to_multiset() == texts_of(items.take(it.index() as int)).to_multiset(),
    {
        assert(path == items[it.index() as int]);
        let new = chars_of(path.as_str());
        let ghost before = texts_of(out@);
        let mut p: usize = 0;
        while p < out.len()
            invariant
                p <= out.len(),
                before == texts_of(out@),
                new@ == path@,
                forall|k: int| 0 <= k < p ==> text_le(#[trigger] before[k], new@),
            ensures
                p <= out.len(),
                forall|k: int| 0 <= k < p ==> text_le(#[trigger] before[k], new@),
                p < out.len() ==> !text_le(before[p as int], new@),
            decreases out.len() - p,
        {
            let there = chars_of(out[p].as_str());
            assert(before[p as int] == out@[p as int]@);
            if !chars_le(&there, &new) {
                break ;
            }
            p += 1;
        }
        out.insert(p, path);
        proof {
            let after = texts_of(out@);
            assert(after =~= before.insert(p as int, path@));
            to_multiset_insert(before, p as int, path@);
            let seen = texts_of(items.take(it.index() as int));
            let now = texts_of(items.take(it.index() + 1));
            assert(now =~= seen.push(path@));
            to_multiset_build(seen, path@);
            let order = text_order();
            assert forall|i: int, j: int| 0 <= i < j < after.len() implies #[trigger] order(
                after[i],
                after[j],
            ) by {
                if j < p {
                    assert(order(before[i], before[j]));
                } else if i > p {
                    assert(order(before[i - 1], before[j - 1]));
                } else if i < p && j > p {
                    assert(order(before[i], before[j - 1]));
                } else if j == p {
                    assert(text_le(before[i], path@));
                } else {
                    assert(!text_le(before[p as int], path@));
                    lemma_le_total(path@, before[p as int], 0);
                    if j - 1 > p {
                        assert(order(before[p as int], before[j - 1]));
                        lemma_le_transitive(path@, before[p as int], before[j - 1], 0);
                    }
                }
            }
        }
    }
    assert(items.take(items.len() as int) =~= items);
    out
}

} // verus!
