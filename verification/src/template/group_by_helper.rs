//! The helper that groups the entries of a list by a header field.

use vstd::prelude::*;

verus! {

/// The helper that groups the entries of a list by a header field.
#[derive(Clone, Copy, Debug)]
pub struct GroupByHelper;

/// The text of an optional key.
pub open spec fn key_text(key: Option<String>) -> Option<Seq<char>> {
    match key {
        Some(k) => Some(k@),
        None => None,
    }
}

/// The end of the run of equal keys that begins at `start`: the first place
/// behind `from` whose key differs from the key at `start`, or the number of
/// keys.
pub open spec fn run_end(keys: Seq<Option<String>>, start: int, from: int) -> int
    decreases keys.len() - from,
{
    if from < 0 || from >= keys.len() || start < 0 || start >= keys.len() {
        keys.len() as int
    } else if key_text(keys[from]) != key_text(keys[start]) {
        from
    } else {
        run_end(keys, start, from + 1)
    }
}

/// A run of neighbouring entries with the same key: the name of the group,
/// and the places where the run begins and ends.
#[derive(Debug)]
pub struct Group {
    pub name: String,
    pub start: usize,
    pub end: usize,
}

/// The name of the group of a key: the key itself, or the default name for
/// entries without the field.
pub open spec fn group_name(key: Option<Seq<char>>, default: Option<Seq<char>>) -> Option<Seq<char>> {
    match key {
        Some(k) => Some(k),
        None => default,
    }
}

/// Whether `groups` are the runs of `keys` from `from` on, in order, each
/// under its name.
pub open spec fn are_runs(
    groups: Seq<Group>,
    keys: Seq<Option<String>>,
    default: Option<Seq<char>>,
    from: int,
) -> bool
    decreases groups.len(),
{
    if groups.len() == 0 {
        from >= keys.len()
    } else {
        let g = groups[0];
        &&& 0 <= from < keys.len()
        &&& g.start == from
        &&& g.end == run_end(keys, from, from + 1)
        &&& Some(g.name@) == group_name(key_text(keys[from]), default)
        &&& are_runs(groups.subrange(1, groups.len() as int), keys, default, g.end as int)
    }
}

/// The place of the first run from `from` on that has no name: its entries
/// lack the field and there is no default. The number of keys where every
/// run has a name.
pub open spec fn first_nameless(keys: Seq<Option<String>>, default: Option<Seq<char>>, from: int) -> int
    decreases keys.len() - from,
{
    if from < 0 || from >= keys.len() {
        keys.len() as int
    } else if group_name(key_text(keys[from]), default) is None {
        from
    } else {
        let end = run_end(keys, from, from + 1);
        if end <= from || end > keys.len() {
            keys.len() as int
        } else {
            first_nameless(keys, default, end)
        }
    }
}

/// The end of a run lies behind its begin and within the keys.
pub proof fn lemma_run_end(keys: Seq<Option<String>>, start: int, from: int)
    requires
        0 <= start < from <= keys.len(),
    ensures
        from <= run_end(keys, start, from) <= keys.len(),
    decreases keys.len() - from,
{
    if from < keys.len() && key_text(keys[from]) == key_text(keys[start]) {
        lemma_run_end(keys, start, from + 1);
    }
}

fn same_key(a: &Option<String>, b: &Option<String>) -> (r: bool)
    ensures
        r == (key_text(*a) == key_text(*b)),
{
    match a {
        Some(x) => match b {
            Some(y) => *x == *y,
            None => false,
        },
        None => match b {
            Some(_) => false,
            None => true,
        },
    }
}

impl GroupByHelper {
    /// Cuts a list into runs of neighbouring entries with the same key and
    /// names each run: by its key, or by `default` where the entries have no
    /// key. `keys` holds the key of every entry. A run without a name is a
    /// failure, reported by the place where the run begins.
    pub fn group(keys: &Vec<Option<String>>, default: &Option<String>) -> (r: Result<
        Vec<Group>,
        usize,
    >)
        ensures
            match r {
                Ok(groups) => first_nameless(keys@, key_text(*default), 0) == keys@.len()
                    && are_runs(groups@, keys@, key_text(*default), 0),
                Err(at) => at < keys@.len() && at == first_nameless(keys@, key_text(*default), 0),
            },
    {
        let mut starts: Vec<usize> = Vec::new();
        let mut start: usize = 0;
        let ghost d = key_text(*default);
        while start < keys.len()
            invariant
                start <= keys.len(),
                d == key_text(*default),
                first_nameless(keys@, d, 0) == first_nameless(keys@, d, start as int),
                forall|k: int| 0 <= k < starts@.len() ==> starts@[k] < keys@.len(),
                forall|k: int|
                    0 <= k < starts@.len() ==> group_name(
                        key_text(keys@[#[trigger] starts@[k] as int]),
                        d,
                    ) is Some,
                forall|k: int|
                    0 <= k < starts@.len() - 1 ==> #[trigger] starts@[k + 1] == run_end(
                        keys@,
                        starts@[k] as int,
                        starts@[k] + 1,
                    ),
                starts@.len() > 0 ==> start == run_end(
                    keys@,
                    starts@.last() as int,
                    starts@.last() + 1,
                ),
                starts@.len() == 0 ==> start == 0,
                starts@.len() > 0 ==> starts@[0] == 0,
            decreases keys.len() - start,
        {
            let named = match &keys[start] {
                Some(_) => true,
                None => default.is_some(),
            };
            if !named {
                return Err(start);
            }
            let mut end: usize = start + 1;
            while end < keys.len() && same_key(&keys[end], &keys[start])
                invariant
                    start < end <= keys.len(),
                    run_end(keys@, start as int, start + 1) == run_end(
                        keys@,
                        start as int,
                        end as int,
                    ),
                decreases keys.len() - end,
            {
                end += 1;
            }
            proof {
                lemma_run_end(keys@, start as int, start + 1);
            }
            starts.push(start);
            start = end;
        }
        assert(first_nameless(keys@, d, 0) == keys@.len());
        let mut groups: Vec<Group> = Vec::new();
        let mut i: usize = starts.len();
        while i > 0
            invariant
                i <= starts@.len(),
                d == key_text(*default),
                first_nameless(keys@, d, 0) == keys@.len(),
                forall|k: int| 0 <= k < starts@.len() ==> starts@[k] < keys@.len(),
                forall|k: int|
                    0 <= k < starts@.len() ==> group_name(
                        key_text(keys@[#[trigger] starts@[k] as int]),
                        d,
                    ) is Some,
                forall|k: int|
                    0 <= k < starts@.len() - 1 ==> #[trigger] starts@[k + 1] == run_end(
                        keys@,
                        starts@[k] as int,
                        starts@[k] + 1,
                    ),
                starts@.len() > 0 ==> keys@.len() == run_end(
                    keys@,
                    starts@.last() as int,
                    starts@.last() + 1,
                ),
                starts@.len() == 0 ==> keys@.len() == 0,
                starts@.len() > 0 ==> starts@[0] == 0,
                are_runs(
                    groups@,
                    keys@,
                    d,
                    if i < starts@.len() {
                        starts@[i as int] as int
                    } else {
                        keys@.len() as int
                    },
                ),
            decreases i,
        {
            i -= 1;
            let begin = starts[i];
            let end = if i + 1 < starts.len() {
                starts[i + 1]
            } else {
                keys.len()
            };
            let name = match &keys[begin] {
                Some(k) => k.clone(),
                None => match default {
                    Some(dn) => dn.clone(),
                    None => {
                        proof {
                            assert(false);
                        }
                        String::new()
                    },
                },
            };
            let ghost before = groups@;
            groups.insert(0, Group { name, start: begin, end });
            proof {
                assert(groups@.subrange(1, groups@.len() as int) =~= before);
                lemma_run_end(keys@, begin as int, begin + 1);
            }
        }
        Ok(groups)
    }
}

} // verus!
