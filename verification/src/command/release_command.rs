//! Grouping fragments by release: every fragment goes to the bucket of its
//! version, and the buckets are put in order.

use vstd::prelude::*;
use crate::error::Error;
use crate::error::VersionError;
use crate::path::PathPart;
use crate::path::parts_of;
use crate::version::get_version_from_path;
use crate::version::version_in_parts;
use crate::fragment::Fragment;
use crate::fragment::FragmentModel;
use crate::text::str_eq;
use crate::version::Version;
use crate::version::VersionModel;
use crate::version::core_before;
use crate::version::version_precedes;
use crate::version::version_text;

verus! {

/// The command that generates the changelog.
#[derive(Debug)]
pub struct ReleaseCommand {
    /// Whether the fragments of no release go into the changelog too.
    pub all: bool,
    /// Whether the changelog is generated in a repository with changes that
    /// are not committed.
    pub allow_dirty: bool,
}

impl ReleaseCommand {
    /// Whether the command may run: in a dirty repository it may only where
    /// that is allowed. `dirty` says what the repository is like.
    pub fn may_run(&self, dirty: bool) -> (r: Result<(), Error>)
        ensures
            match r {
                Ok(()) => !dirty || self.allow_dirty,
                Err(e) => dirty && !self.allow_dirty && e is GitRepoDirty,
            },
    {
        if dirty && !self.allow_dirty {
            Err(Error::GitRepoDirty)
        } else {
            Ok(())
        }
    }
}

/// The fragments of one version, or those of no release yet.
#[derive(Debug)]
pub struct VersionData {
    /// The version as text, or the word for the fragments of no release.
    pub version: String,
    /// The fragments, in the order in which they were found.
    pub entries: Vec<Fragment>,
}

/// What a template gets to render: the buckets in order, and a text to put
/// behind them.
#[derive(Debug)]
pub struct TemplateData {
    pub versions: Vec<VersionData>,
    pub suffix: Option<String>,
}

/// The models of a vector of fragments.
pub open spec fn fragments_of(v: Seq<Fragment>) -> Seq<FragmentModel> {
    Seq::new(v.len(), |i: int| v[i]@)
}

/// The mathematical model of a bucket.
pub ghost struct VersionDataModel {
    pub version: Seq<char>,
    pub entries: Seq<FragmentModel>,
}

impl View for VersionData {
    type V = VersionDataModel;

    open spec fn view(&self) -> VersionDataModel {
        VersionDataModel { version: self.version@, entries: fragments_of(self.entries@) }
    }
}

/// The models of a vector of buckets.
pub open spec fn buckets_view(v: Seq<VersionData>) -> Seq<VersionDataModel> {
    Seq::new(v.len(), |i: int| v[i]@)
}

impl VersionData {
    /// The version as text, or the word for the fragments of no release.
    pub fn version(&self) -> (r: &String)
        ensures
            r == &self.version,
    {
        &self.version
    }

    /// The fragments of the bucket.
    pub fn entries(&self) -> (r: &Vec<Fragment>)
        ensures
            r == &self.entries,
    {
        &self.entries
    }
}

impl TemplateData {
    /// The buckets, in order.
    pub fn versions(&self) -> (r: &Vec<VersionData>)
        ensures
            r == &self.versions,
    {
        &self.versions
    }

    /// The text to put behind the buckets.
    pub fn suffix(&self) -> (r: &Option<String>)
        ensures
            r == &self.suffix,
    {
        &self.suffix
    }
}

/// A bucket while the fragments are grouped: the version that it stands for,
/// none for the fragments of no release, and its fragments.
pub ghost struct Bucket {
    pub key: Option<VersionModel>,
    pub entries: Seq<FragmentModel>,
}

/// The label of a bucket: the text of its version, or a fixed word for the
/// fragments of no release.
pub open spec fn bucket_label(key: Option<VersionModel>) -> Seq<char> {
    match key {
        Some(v) => version_text(v),
        None => "unreleased"@,
    }
}

/// Whether the bucket of `a` comes before the bucket of `b`: versions go by
/// precedence, and the fragments of no release come last.
pub open spec fn key_before(a: Option<VersionModel>, b: Option<VersionModel>) -> bool {
    match (a, b) {
        (Some(v), Some(w)) => version_precedes(v, w),
        (Some(_), None) => true,
        (None, _) => false,
    }
}

/// The place of the first bucket at or after `from` with the label `label`,
/// or the number of buckets where there is none.
pub open spec fn find_bucket(buckets: Seq<Bucket>, label: Seq<char>, from: int) -> int
    decreases buckets.len() - from,
{
    if from < 0 || from >= buckets.len() {
        buckets.len() as int
    } else if bucket_label(buckets[from].key) == label {
        from
    } else {
        find_bucket(buckets, label, from + 1)
    }
}

/// The place of the first bucket at or after `from` before which the bucket
/// of `key` comes, or the number of buckets where there is none.
pub open spec fn insert_place(buckets: Seq<Bucket>, key: Option<VersionModel>, from: int) -> int
    decreases buckets.len() - from,
{
    if from < 0 || from >= buckets.len() {
        buckets.len() as int
    } else if key_before(key, buckets[from].key) {
        from
    } else {
        insert_place(buckets, key, from + 1)
    }
}

/// The buckets after one more fragment: it joins the bucket of its label
/// behind the fragments there, or opens a bucket of its own at the place that
/// its version gives it.
pub open spec fn add_fragment(
    buckets: Seq<Bucket>,
    key: Option<VersionModel>,
    fragment: FragmentModel,
) -> Seq<Bucket> {
    let i = find_bucket(buckets, bucket_label(key), 0);
    if 0 <= i < buckets.len() {
        buckets.update(i, Bucket { key: buckets[i].key, entries: buckets[i].entries.push(fragment) })
    } else {
        let p = insert_place(buckets, key, 0);
        if 0 <= p <= buckets.len() {
            buckets.insert(p, Bucket { key, entries: seq![fragment] })
        } else {
            buckets
        }
    }
}

/// The buckets that the first `n` fragments make.
pub open spec fn grouped(items: Seq<(Option<VersionModel>, FragmentModel)>, n: int) -> Seq<Bucket>
    decreases n,
{
    if n <= 0 || n > items.len() {
        Seq::empty()
    } else {
        add_fragment(grouped(items, n - 1), items[n - 1].0, items[n - 1].1)
    }
}

/// The failures among the first `n` items, in their order.
pub open spec fn failed<T>(items: Seq<Result<T, Error>>, n: int) -> Seq<Error>
    decreases n,
{
    if n <= 0 || n > items.len() {
        Seq::empty()
    } else {
        match items[n - 1] {
            Ok(_) => failed(items, n - 1),
            Err(e) => failed(items, n - 1).push(e),
        }
    }
}

/// The fragments that were loaded among the first `n` items, each with the
/// version of its path.
pub open spec fn loaded_among(items: Seq<Result<(Option<Version>, Fragment), Error>>, n: int) -> Seq<
    (Option<VersionModel>, FragmentModel),
>
    decreases n,
{
    if n <= 0 || n > items.len() {
        Seq::empty()
    } else {
        match items[n - 1] {
            Ok((Some(v), f)) => loaded_among(items, n - 1).push((Some(v@), f@)),
            Ok((None, f)) => loaded_among(items, n - 1).push((None, f@)),
            Err(_) => loaded_among(items, n - 1),
        }
    }
}

/// The fragments that were loaded, each with the version of its path.
pub open spec fn loaded(items: Seq<Result<(Option<Version>, Fragment), Error>>) -> Seq<
    (Option<VersionModel>, FragmentModel),
> {
    loaded_among(items, items.len() as int)
}

/// What the template gets for a sequence of buckets.
pub open spec fn rendered_buckets(buckets: Seq<Bucket>) -> Seq<VersionDataModel> {
    Seq::new(
        buckets.len(),
        |i: int| VersionDataModel { version: bucket_label(buckets[i].key), entries: buckets[i].entries },
    )
}

spec fn key_view(key: Option<Version>) -> Option<VersionModel> {
    match key {
        Some(v) => Some(v@),
        None => None,
    }
}

spec fn working(keys: Seq<Option<Version>>, versions: Seq<VersionData>) -> Seq<Bucket> {
    Seq::new(
        versions.len(),
        |i: int| Bucket { key: key_view(keys[i]), entries: fragments_of(versions[i].entries@) },
    )
}

spec fn labelled(keys: Seq<Option<Version>>, versions: Seq<VersionData>) -> bool {
    &&& keys.len() == versions.len()
    &&& forall|i: int|
        0 <= i < versions.len() ==> (#[trigger] versions[i]).version@ == bucket_label(
            key_view(keys[i]),
        )
}

fn key_comes_before(a: &Option<Version>, b: &Option<Version>) -> (r: bool)
    ensures
        r == key_before(key_view(*a), key_view(*b)),
{
    match a {
        Some(v) => match b {
            Some(w) => v.precedes(w),
            None => true,
        },
        None => false,
    }
}

fn add_to_buckets(
    keys: &mut Vec<Option<Version>>,
    versions: &mut Vec<VersionData>,
    key: Option<Version>,
    fragment: Fragment,
)
    requires
        labelled(old(keys)@, old(versions)@),
    ensures
        labelled(final(keys)@, final(versions)@),
        working(final(keys)@, final(versions)@) == add_fragment(
            working(old(keys)@, old(versions)@),
            key_view(key),
            fragment@,
        ),
{
    let ghost before = working(keys@, versions@);
    let ghost k = key_view(key);
    let label = match &key {
        Some(v) => v.to_text(),
        None => "unreleased".to_owned(),
    };
    assert(label@ == bucket_label(k));
    let mut i: usize = 0;
    while i < versions.len()
        invariant
            i <= versions.len(),
            labelled(keys@, versions@),
            keys@ == old(keys)@,
            versions@ == old(versions)@,
            before == working(keys@, versions@),
            k == key_view(key),
            label@ == bucket_label(k),
            find_bucket(before, label@, 0) == find_bucket(before, label@, i as int),
        decreases versions.len() - i,
    {
        assert(before[i as int].key == key_view(keys@[i as int]));
        if str_eq(versions[i].version.as_str(), label.as_str()) {
            let ghost old_versions = versions@;
            versions[i].entries.push(fragment);
            proof {
                assert(find_bucket(before, bucket_label(k), 0) == i);
                assert(versions@.len() == old_versions.len());
                assert(forall|j: int|
                    0 <= j < versions.len() && j != i ==> versions@[j] == old_versions[j]);
                assert(versions@[i as int].version == old_versions[i as int].version);
                assert(fragments_of(versions@[i as int].entries@) =~= before[i as int].entries.push(
                    fragment@,
                ));
                assert forall|j: int| 0 <= j < versions.len() implies (
                #[trigger] versions@[j]).version@ == bucket_label(key_view(keys@[j])) by {
                    if j != i {
                        assert(versions@[j] == old_versions[j]);
                    }
                }
                assert(working(keys@, versions@) =~= add_fragment(before, k, fragment@));
            }
            return ;
        }
        i += 1;
    }
    let mut p: usize = 0;
    while p < keys.len()
        invariant
            p <= keys.len(),
            labelled(keys@, versions@),
            keys@ == old(keys)@,
            versions@ == old(versions)@,
            before == working(keys@, versions@),
            k == key_view(key),
            insert_place(before, k, 0) == insert_place(before, k, p as int),
        ensures
            p <= keys.len(),
            p == insert_place(before, k, 0),
        decreases keys.len() - p,
    {
        assert(before[p as int].key == key_view(keys@[p as int]));
        if key_comes_before(&key, &keys[p]) {
            break ;
        }
        p += 1;
    }
    let ghost old_versions = versions@;
    let mut entries: Vec<Fragment> = Vec::new();
    entries.push(fragment);
    assert(fragments_of(entries@) =~= seq![fragment@]);
    keys.insert(p, key);
    versions.insert(p, VersionData { version: label, entries });
    proof {
        assert forall|j: int| 0 <= j < versions.len() implies (#[trigger] versions@[j]).version@
            == bucket_label(key_view(keys@[j])) by {
            if j < p {
                assert(versions@[j] == old_versions[j]);
            } else if j > p {
                assert(versions@[j] == old_versions[j - 1]);
            }
        }
        assert(working(keys@, versions@) =~= before.insert(
            p as int,
            Bucket { key: k, entries: seq![fragment@] },
        ));
    }
}

/// Says to which bucket the fragment at a path goes: to the bucket of the
/// version of its path, or, where the path has none, to the bucket of the
/// fragments of no release if `all` asks for them. The outer `None` stands
/// for a fragment that is passed over.
pub fn bucket_of_path(path: &str, parts: &Vec<PathPart>, all: bool) -> (r: Result<
    Option<Option<Version>>,
    Error,
>)
    ensures
        match version_in_parts(parts_of(parts@), 0) {
            Ok(Some(v)) => r matches Ok(Some(Some(found))) && found@ == v,
            Ok(None) => if all {
                r matches Ok(Some(None))
            } else {
                r matches Ok(None)
            },
            Err(_) => r matches Err(Error::Version(VersionError::Utf8(p))) && p@ == path@,
        },
{
    match get_version_from_path(path, parts) {
        Ok(Some(v)) => Ok(Some(Some(v))),
        Ok(None) => {
            if all {
                Ok(Some(None))
            } else {
                Ok(None)
            }
        },
        Err(e) => Err(Error::Version(e)),
    }
}

/// Grouping looks at the first `n` fragments only.
pub proof fn lemma_grouped_prefix(
    a: Seq<(Option<VersionModel>, FragmentModel)>,
    b: Seq<(Option<VersionModel>, FragmentModel)>,
    n: int,
)
    requires
        0 <= n <= a.len(),
        n <= b.len(),
        forall|k: int| 0 <= k < n ==> a[k] == b[k],
    ensures
        grouped(a, n) == grouped(b, n),
    decreases n,
{
    if n > 0 {
        lemma_grouped_prefix(a, b, n - 1);
    }
}

/// Groups the fragments that were loaded by version. Where loading failed
/// for any item, nothing is grouped and all the failures are reported
/// together. Otherwise every fragment goes to the bucket of its version,
/// behind the fragments already there; the buckets of the versions are in
/// ascending order, and the fragments of no release make the last one.
pub fn generate_template_data(
    release_files: Vec<Result<(Option<Version>, Fragment), Error>>,
    suffix: Option<String>,
) -> (r: Result<TemplateData, Error>)
    ensures
        match r {
            Ok(data) => {
                &&& failed(release_files@, release_files@.len() as int).len() == 0
                &&& buckets_view(data.versions@) == rendered_buckets(
                    grouped(loaded(release_files@), loaded(release_files@).len() as int),
                )
                &&& data.suffix == suffix
            },
            Err(e) => {
                &&& failed(release_files@, release_files@.len() as int).len() > 0
                &&& e matches Error::Multiple { errors }
                &&& errors@ == failed(release_files@, release_files@.len() as int)
            },
        },
{
    let ghost items = release_files@;
    let mut keys: Vec<Option<Version>> = Vec::new();
    let mut versions: Vec<VersionData> = Vec::new();
    let mut errors: Vec<Error> = Vec::new();
    assert(working(keys@, versions@) =~= grouped(loaded_among(items, 0), 0));
    for item in it: release_files
        invariant
            it.seq() == items,
            errors@ == failed(items, it.index() as int),
            labelled(keys@, versions@),
            working(keys@, versions@) == grouped(
                loaded_among(items, it.index() as int),
                loaded_among(items, it.index() as int).len() as int,
            ),
    {
        assert(item == items[it.index() as int]);
        let ghost before = loaded_among(items, it.index() as int);
        match item {
            Err(e) => {
                errors.push(e);
            },
            Ok((key, fragment)) => {
                proof {
                    let now = loaded_among(items, it.index() + 1);
                    assert(now.len() == before.len() + 1);
                    lemma_grouped_prefix(now, before, before.len() as int);
                }
                add_to_buckets(&mut keys, &mut versions, key, fragment);
            },
        }
    }
    if errors.len() > 0 {
        return Err(Error::Multiple { errors });
    }
    proof {
        assert(buckets_view(versions@) =~= rendered_buckets(working(keys@, versions@)));
    }
    Ok(TemplateData { versions, suffix })
}

/// Whether a bucket may stand before another: a version may stand before
/// every version whose numbers are not lower, and before the fragments of no
/// release; the fragments of no release stand before no version.
pub open spec fn key_not_after(a: Option<VersionModel>, b: Option<VersionModel>) -> bool {
    match (a, b) {
        (Some(v), Some(w)) => !core_before(w, v),
        (Some(_), None) => true,
        (None, Some(_)) => false,
        (None, None) => true,
    }
}

/// Whether the buckets are in order: no bucket stands behind one that it
/// may not stand behind.
pub open spec fn in_order(buckets: Seq<Bucket>) -> bool {
    forall|i: int, j: int|
        0 <= i < j < buckets.len() ==> key_not_after(
            (#[trigger] buckets[i]).key,
            (#[trigger] buckets[j]).key,
        )
}

/// Whether no two buckets have the same label.
pub open spec fn distinct_labels(buckets: Seq<Bucket>) -> bool {
    forall|i: int, j: int|
        0 <= i < j < buckets.len() ==> bucket_label((#[trigger] buckets[i]).key) != bucket_label(
            (#[trigger] buckets[j]).key,
        )
}

/// The fragments among the first `n` items whose bucket has the label
/// `label`, in the order of the items.
pub open spec fn with_label(
    items: Seq<(Option<VersionModel>, FragmentModel)>,
    label: Seq<char>,
    n: int,
) -> Seq<FragmentModel>
    decreases n,
{
    if n <= 0 || n > items.len() {
        Seq::empty()
    } else if bucket_label(items[n - 1].0) == label {
        with_label(items, label, n - 1).push(items[n - 1].1)
    } else {
        with_label(items, label, n - 1)
    }
}

/// Whether every bucket holds exactly the fragments of its label among the
/// first `n` items, in their order, and holds at least one.
pub open spec fn holds_its_fragments(
    buckets: Seq<Bucket>,
    items: Seq<(Option<VersionModel>, FragmentModel)>,
    n: int,
) -> bool {
    forall|i: int|
        0 <= i < buckets.len() ==> (#[trigger] buckets[i]).entries == with_label(
            items,
            bucket_label(buckets[i].key),
            n,
        ) && buckets[i].entries.len() > 0
}

/// `find_bucket` gives the first bucket with the label, if there is one.
pub proof fn lemma_find_bucket(buckets: Seq<Bucket>, label: Seq<char>, from: int)
    requires
        0 <= from <= buckets.len(),
    ensures
        from <= find_bucket(buckets, label, from) <= buckets.len(),
        find_bucket(buckets, label, from) < buckets.len() ==> bucket_label(
            buckets[find_bucket(buckets, label, from)].key,
        ) == label,
        forall|k: int|
            from <= k < find_bucket(buckets, label, from) ==> bucket_label(
                (#[trigger] buckets[k]).key,
            ) != label,
    decreases buckets.len() - from,
{
    if from < buckets.len() && bucket_label(buckets[from].key) != label {
        lemma_find_bucket(buckets, label, from + 1);
    }
}

/// `insert_place` gives the first bucket before which the key comes, if
/// there is one.
pub proof fn lemma_insert_place(buckets: Seq<Bucket>, key: Option<VersionModel>, from: int)
    requires
        0 <= from <= buckets.len(),
    ensures
        from <= insert_place(buckets, key, from) <= buckets.len(),
        insert_place(buckets, key, from) < buckets.len() ==> key_before(
            key,
            buckets[insert_place(buckets, key, from)].key,
        ),
        forall|k: int|
            from <= k < insert_place(buckets, key, from) ==> !key_before(
                key,
                (#[trigger] buckets[k]).key,
            ),
    decreases buckets.len() - from,
{
    if from < buckets.len() && !key_before(key, buckets[from].key) {
        lemma_insert_place(buckets, key, from + 1);
    }
}

/// One more fragment keeps the buckets in order and their labels distinct.
pub proof fn lemma_add_keeps_order(
    buckets: Seq<Bucket>,
    key: Option<VersionModel>,
    fragment: FragmentModel,
)
    requires
        in_order(buckets),
        distinct_labels(buckets),
    ensures
        in_order(add_fragment(buckets, key, fragment)),
        distinct_labels(add_fragment(buckets, key, fragment)),
{
    let after = add_fragment(buckets, key, fragment);
    let label = bucket_label(key);
    let i = find_bucket(buckets, label, 0);
    lemma_find_bucket(buckets, label, 0);
    if i < buckets.len() {
        assert forall|a: int, b: int| 0 <= a < b < after.len() implies key_not_after(
            (#[trigger] after[a]).key,
            (#[trigger] after[b]).key,
        ) && bucket_label(after[a].key) != bucket_label(after[b].key) by {
            assert(after[a].key == buckets[a].key);
            assert(after[b].key == buckets[b].key);
        }
    } else {
        let p = insert_place(buckets, key, 0);
        lemma_insert_place(buckets, key, 0);
        assert forall|a: int, b: int| 0 <= a < b < after.len() implies key_not_after(
            (#[trigger] after[a]).key,
            (#[trigger] after[b]).key,
        ) && bucket_label(after[a].key) != bucket_label(after[b].key) by {
            if b < p {
                assert(after[a] == buckets[a] && after[b] == buckets[b]);
            } else if a > p {
                assert(after[a] == buckets[a - 1] && after[b] == buckets[b - 1]);
            } else if a < p && b > p {
                assert(after[a] == buckets[a] && after[b] == buckets[b - 1]);
            } else if b == p {
                assert(after[a] == buckets[a]);
                assert(!key_before(key, buckets[a].key));
                assert(bucket_label(buckets[a].key) != label);
            } else {
                assert(a == p);
                assert(after[b] == buckets[b - 1]);
                assert(bucket_label(buckets[b - 1].key) != label);
                assert(key_before(key, buckets[p].key));
                if b - 1 > p {
                    assert(key_not_after(buckets[p].key, buckets[b - 1].key));
                }
            }
        }
    }
}

/// One more fragment goes to the bucket of its label, behind the fragments
/// there.
pub proof fn lemma_add_keeps_fragments(
    items: Seq<(Option<VersionModel>, FragmentModel)>,
    n: int,
    buckets: Seq<Bucket>,
)
    requires
        0 < n <= items.len(),
        distinct_labels(buckets),
        holds_its_fragments(buckets, items, n - 1),
        forall|k: int|
            0 <= k < n - 1 ==> find_bucket(buckets, bucket_label((#[trigger] items[k]).0), 0)
                < buckets.len(),
    ensures
        holds_its_fragments(add_fragment(buckets, items[n - 1].0, items[n - 1].1), items, n),
        forall|k: int|
            0 <= k < n ==> find_bucket(
                add_fragment(buckets, items[n - 1].0, items[n - 1].1),
                bucket_label((#[trigger] items[k]).0),
                0,
            ) < add_fragment(buckets, items[n - 1].0, items[n - 1].1).len(),
{
    let key = items[n - 1].0;
    let fragment = items[n - 1].1;
    let after = add_fragment(buckets, key, fragment);
    let label = bucket_label(key);
    let i = find_bucket(buckets, label, 0);
    lemma_find_bucket(buckets, label, 0);
    let p = insert_place(buckets, key, 0);
    lemma_insert_place(buckets, key, 0);
    if i >= buckets.len() {
        lemma_no_item_with_label(items, label, n - 1, buckets);
    }
    assert forall|a: int| 0 <= a < after.len() implies (#[trigger] after[a]).entries == with_label(
        items,
        bucket_label(after[a].key),
        n,
    ) && after[a].entries.len() > 0 by {
        if i < buckets.len() {
            if a == i {
                assert(after[a].entries == buckets[i].entries.push(fragment));
            } else {
                assert(after[a] == buckets[a]);
                if a < i {
                    assert(bucket_label(buckets[a].key) != label);
                } else {
                    assert(bucket_label(buckets[i].key) != bucket_label(buckets[a].key));
                }
            }
        } else {
            if a < p {
                assert(after[a] == buckets[a]);
                assert(bucket_label(buckets[a].key) != label);
            } else if a > p {
                assert(after[a] == buckets[a - 1]);
                assert(bucket_label(buckets[a - 1].key) != label);
            } else {
                assert(after[a].entries =~= seq![fragment]);
                assert(with_label(items, label, n) =~= seq![fragment]);
            }
        }
    }
    assert forall|k: int| 0 <= k < n implies find_bucket(
        after,
        bucket_label((#[trigger] items[k]).0),
        0,
    ) < after.len() by {
        let l = bucket_label(items[k].0);
        lemma_find_bucket(after, l, 0);
        if k == n - 1 {
            if i < buckets.len() {
                assert(bucket_label(after[i].key) == l);
            } else {
                assert(bucket_label(after[p].key) == l);
            }
        } else {
            let q = find_bucket(buckets, l, 0);
            lemma_find_bucket(buckets, l, 0);
            if i < buckets.len() {
                assert(bucket_label(after[q].key) == l);
            } else if q < p {
                assert(after[q] == buckets[q]);
                assert(bucket_label(after[q].key) == l);
            } else {
                assert(after[q + 1] == buckets[q]);
                assert(bucket_label(after[q + 1].key) == l);
            }
        }
    }
}

/// A label that no bucket has is the label of no item so far.
pub proof fn lemma_no_item_with_label(
    items: Seq<(Option<VersionModel>, FragmentModel)>,
    label: Seq<char>,
    n: int,
    buckets: Seq<Bucket>,
)
    requires
        0 <= n <= items.len(),
        find_bucket(buckets, label, 0) >= buckets.len(),
        forall|k: int|
            0 <= k < n ==> find_bucket(buckets, bucket_label((#[trigger] items[k]).0), 0)
                < buckets.len(),
    ensures
        with_label(items, label, n) == Seq::<FragmentModel>::empty(),
    decreases n,
{
    if n > 0 {
        lemma_no_item_with_label(items, label, n - 1, buckets);
        assert(find_bucket(buckets, bucket_label(items[n - 1].0), 0) < buckets.len());
    }
}

/// The buckets that grouping makes are in order: the versions ascend by
/// their numbers and the fragments of no release come last. No two buckets
/// have the same label, no bucket is empty, and every bucket holds exactly
/// the fragments of its label, in the order in which they came. So the same
/// fragments in the same order always make the same buckets.
pub proof fn lemma_grouped(items: Seq<(Option<VersionModel>, FragmentModel)>, n: int)
    requires
        0 <= n <= items.len(),
    ensures
        in_order(grouped(items, n)),
        distinct_labels(grouped(items, n)),
        holds_its_fragments(grouped(items, n), items, n),
        forall|k: int|
            0 <= k < n ==> find_bucket(grouped(items, n), bucket_label((#[trigger] items[k]).0), 0)
                < grouped(items, n).len(),
    decreases n,
{
    if n > 0 {
        lemma_grouped(items, n - 1);
        lemma_add_keeps_order(grouped(items, n - 1), items[n - 1].0, items[n - 1].1);
        lemma_add_keeps_fragments(items, n, grouped(items, n - 1));
    }
}

/// In buckets that are in order, the numbers of the versions ascend, and
/// nothing follows the fragments of no release.
pub proof fn lemma_order_of_buckets(buckets: Seq<Bucket>, i: int, j: int)
    requires
        in_order(buckets),
        distinct_labels(buckets),
        0 <= i < j < buckets.len(),
    ensures
        buckets[i].key is Some,
        buckets[j].key matches Some(later) ==> !core_before(later, buckets[i].key->0),
{
    assert(key_not_after(buckets[i].key, buckets[j].key));
    if buckets[i].key is None {
        assert(buckets[j].key is None);
        assert(bucket_label(buckets[i].key) != bucket_label(buckets[j].key));
    }
}

} // verus!
