//! Queries over the fragment directory: which subtree a selector walks, and
//! which of the entries found there it keeps.

use vstd::prelude::*;
use vstd::relations::sorted_by;
use crate::cli::Selector;
use crate::cli::SelectorModel;
use crate::error::Error;
use crate::fragment::texts_of;
use crate::path::EntryKind;
use crate::path::PathPart;
use crate::path::PathPartModel;
use crate::path::Walked;
use crate::path::WalkedModel;
use crate::path::WalkEntryModel;
use crate::path::ends_with_name;
use crate::path::last_is;
use crate::path::parts_of;
use crate::path::sort_paths;
use crate::path::text_order;
use crate::path::walk_of;
use crate::version::Version;
use crate::version::VersionModel;
use crate::version::semver_parsed;
use crate::version::version_precedes;

verus! {

/// The name of the directory that holds the fragments of no release.
pub open spec fn unreleased_dir_name() -> Seq<char> {
    "unreleased"@
}

/// The name of the placeholder file that keeps an empty directory.
pub open spec fn placeholder_name() -> Seq<char> {
    ".gitkeep"@
}

/// A query, ready to be run: the directory to walk, given by the names to
/// append to the working directory, and the versions between which a fragment
/// must lie, if the query is about a range.
#[derive(Debug)]
pub struct Query {
    pub segments: Vec<String>,
    pub bounds: Option<(Version, Version)>,
}

/// The mathematical model of a query.
pub ghost struct QueryModel {
    pub segments: Seq<Seq<char>>,
    pub bounds: Option<(VersionModel, VersionModel)>,
}

impl View for Query {
    type V = QueryModel;

    open spec fn view(&self) -> QueryModel {
        QueryModel {
            segments: texts_of(self.segments@),
            bounds: match self.bounds {
                Some((from, until)) => Some((from@, until@)),
                None => None,
            },
        }
    }
}

/// Whether the path has a component, from `from` on, that reads as a version
/// after `low` and before `high`.
pub open spec fn has_version_between(
    parts: Seq<PathPartModel>,
    low: VersionModel,
    high: VersionModel,
    from: int,
) -> bool
    decreases parts.len() - from,
{
    if from < 0 || from >= parts.len() {
        false
    } else {
        (match parts[from] {
            PathPartModel::Normal(name) => match semver_parsed(name) {
                Ok(v) => version_precedes(low, v) && version_precedes(v, high),
                Err(_) => false,
            },
            _ => false,
        }) || has_version_between(parts, low, high, from + 1)
    }
}

/// Whether every component from `from` on that reads as a version reads as
/// `low` or as `high`.
pub open spec fn only_the_bounds(
    parts: Seq<PathPartModel>,
    low: VersionModel,
    high: VersionModel,
    from: int,
) -> bool
    decreases parts.len() - from,
{
    if from < 0 || from >= parts.len() {
        true
    } else {
        (match parts[from] {
            PathPartModel::Normal(name) => match semver_parsed(name) {
                Ok(v) => v == low || v == high,
                Err(_) => true,
            },
            _ => true,
        }) && only_the_bounds(parts, low, high, from + 1)
    }
}

/// The two ends of a range are left out: a path whose versions are the ends
/// of the range and no others does not lie in the range.
pub proof fn lemma_bounds_are_left_out(
    parts: Seq<PathPartModel>,
    low: VersionModel,
    high: VersionModel,
    from: int,
)
    requires
        only_the_bounds(parts, low, high, from),
    ensures
        !has_version_between(parts, low, high, from),
    decreases parts.len() - from,
{
    if 0 <= from < parts.len() {
        lemma_bounds_are_left_out(parts, low, high, from + 1);
    }
}

/// Whether a query keeps an entry. Only files are kept; the placeholder file
/// and the template are housekeeping and never kept; a query about a range
/// keeps the files below a version of the range.
pub open spec fn keeps(
    bounds: Option<(VersionModel, VersionModel)>,
    template: Seq<char>,
    entry: WalkEntryModel,
) -> bool {
    &&& entry.kind == EntryKind::File
    &&& !ends_with_name(entry.parts, placeholder_name())
    &&& !ends_with_name(entry.parts, template)
    &&& match bounds {
        Some((low, high)) => has_version_between(entry.parts, low, high, 0),
        None => true,
    }
}

/// The paths of the entries that a query keeps among the first `n` steps of
/// a walk, in the order of the walk.
pub open spec fn selected(
    bounds: Option<(VersionModel, VersionModel)>,
    template: Seq<char>,
    steps: Seq<WalkedModel>,
    n: int,
) -> Seq<Seq<char>>
    decreases n,
{
    if n <= 0 || n > steps.len() {
        Seq::empty()
    } else {
        let before = selected(bounds, template, steps, n - 1);
        match steps[n - 1] {
            WalkedModel::Entry(e) => if keeps(bounds, template, e) {
                before.push(e.path)
            } else {
                before
            },
            WalkedModel::Failed(_) => before,
        }
    }
}

/// The messages of the failures among the first `n` steps of a walk.
pub open spec fn failures(steps: Seq<WalkedModel>, n: int) -> Seq<Seq<char>>
    decreases n,
{
    if n <= 0 || n > steps.len() {
        Seq::empty()
    } else {
        let before = failures(steps, n - 1);
        match steps[n - 1] {
            WalkedModel::Entry(_) => before,
            WalkedModel::Failed(m) => before.push(m),
        }
    }
}

/// Whether `errors` are the failures of a walk with the messages `messages`.
pub open spec fn are_walk_errors(errors: Seq<Error>, messages: Seq<Seq<char>>) -> bool {
    &&& errors.len() == messages.len()
    &&& forall|i: int|
        0 <= i < errors.len() ==> ((#[trigger] errors[i]) matches Error::WalkDir(m) && m@
            == messages[i])
}

/// Whether the path has a component that reads as a version after `low` and
/// before `high`.
pub fn in_range(parts: &Vec<PathPart>, low: &Version, high: &Version) -> (r: bool)
    ensures
        r == has_version_between(parts_of(parts@), low@, high@, 0),
{
    let mut i: usize = 0;
    while i < parts.len()
        invariant
            i <= parts.len(),
            has_version_between(parts_of(parts@), low@, high@, 0) == has_version_between(
                parts_of(parts@),
                low@,
                high@,
                i as int,
            ),
        decreases parts.len() - i,
    {
        assert(parts_of(parts@)[i as int] == parts@[i as int]@);
        match &parts[i] {
            PathPart::Normal(name) => {
                match Version::parse(name.as_str()) {
                    Ok(v) => {
                        if low.precedes(&v) && v.precedes(high) {
                            return true;
                        }
                    },
                    Err(_) => {},
                }
            },
            _ => {},
        }
        i += 1;
    }
    false
}

/// The two shapes of a query: one asks whether fragments exist, the other
/// shows them.
#[derive(Clone, Copy, Debug, PartialEq, Eq)]
pub enum QueryShape {
    Has,
    Show,
}

/// The query for every fragment of a project: the whole fragment directory.
pub fn all_fragments(fragment_dir: &str) -> (r: Query)
    ensures
        r@.segments == seq![fragment_dir@],
        r@.bounds is None,
{
    let mut segments: Vec<String> = Vec::new();
    segments.push(fragment_dir.to_owned());
    assert(texts_of(segments@) =~= seq![fragment_dir@]);
    Query { segments, bounds: None }
}

/// Runs a selector.
pub struct SelectorExecutor<'sel> {
    selector: Option<&'sel Selector>,
}

/// The selector that an executor runs; no selector stands for the unreleased
/// fragments.
pub open spec fn effective(selector: Option<SelectorModel>) -> SelectorModel {
    match selector {
        Some(s) => s,
        None => SelectorModel::Unreleased,
    }
}

/// What planning a query gives for a selector and a fragment directory.
pub open spec fn plan_result(
    selector: SelectorModel,
    fragment_dir: Seq<char>,
    r: Result<Query, Error>,
) -> bool {
    match selector {
        SelectorModel::Unreleased => r matches Ok(q) && q@.segments == seq![
            fragment_dir,
            unreleased_dir_name(),
        ] && q@.bounds is None,
        SelectorModel::Exact { exact } => r matches Ok(q) && q@.segments == seq![
            fragment_dir,
            exact,
        ] && q@.bounds is None,
        SelectorModel::Range { from, until } => match semver_parsed(from) {
            Err(m) => r matches Err(Error::SemVer(x)) && x@ == m,
            Ok(low) => match semver_parsed(until) {
                Err(m) => r matches Err(Error::SemVer(x)) && x@ == m,
                Ok(high) => r matches Ok(q) && q@.segments == seq![fragment_dir] && q@.bounds
                    == Some((low, high)),
            },
        },
    }
}

impl<'sel> SelectorExecutor<'sel> {
    /// An executor for `selector`.
    pub fn new(selector: Option<&'sel Selector>) -> (r: Self)
        ensures
            r.selector_model() == (match selector {
                Some(s) => Some(s@),
                None => None,
            }),
    {
        Self { selector }
    }

    /// The selector of this executor.
    pub closed spec fn selector_model(&self) -> Option<SelectorModel> {
        match self.selector {
            Some(s) => Some(s@),
            None => None,
        }
    }

    /// Decides what to walk. The unreleased fragments lie in their own
    /// directory below the fragment directory, those of one version in the
    /// directory of that name; a range walks the whole fragment directory,
    /// and its two ends must be versions.
    pub fn plan(&self, fragment_dir: &str) -> (r: Result<Query, Error>)
        ensures
            plan_result(effective(self.selector_model()), fragment_dir@, r),
    {
        match self.selector {
            None | Some(Selector::Unreleased) => {
                let mut segments: Vec<String> = Vec::new();
                segments.push(fragment_dir.to_owned());
                segments.push("unreleased".to_owned());
                assert(texts_of(segments@) =~= seq![fragment_dir@, unreleased_dir_name()]);
                Ok(Query { segments, bounds: None })
            },
            Some(Selector::Exact { exact }) => {
                let mut segments: Vec<String> = Vec::new();
                segments.push(fragment_dir.to_owned());
                segments.push(exact.clone());
                assert(texts_of(segments@) =~= seq![fragment_dir@, exact@]);
                Ok(Query { segments, bounds: None })
            },
            Some(Selector::Range { from, until }) => {
                let low = match Version::parse(from.as_str()) {
                    Ok(v) => v,
                    Err(e) => {
                        return Err(e);
                    },
                };
                let high = match Version::parse(until.as_str()) {
                    Ok(v) => v,
                    Err(e) => {
                        return Err(e);
                    },
                };
                let mut segments: Vec<String> = Vec::new();
                segments.push(fragment_dir.to_owned());
                assert(texts_of(segments@) =~= seq![fragment_dir@]);
                Ok(Query { segments, bounds: Some((low, high)) })
            },
        }
    }

    /// Says what a query gives where the directory to walk does not exist,
    /// for a selector of one version: nothing, or a failure that names the
    /// version, as the caller chooses. For any other selector the walk itself
    /// reports the directory.
    pub fn on_missing_dir(&self, shape: QueryShape) -> (r: Option<Result<Vec<String>, Error>>)
        ensures
            match effective(self.selector_model()) {
                SelectorModel::Exact { exact } => match shape {
                    QueryShape::Has => r matches Some(Ok(paths)) && paths@.len() == 0,
                    QueryShape::Show => r matches Some(
                        Err(Error::ExactVersionDoesNotExist { version }),
                    ) && version@ == exact,
                },
                _ => r is None,
            },
    {
        match self.selector {
            Some(Selector::Exact { exact }) => match shape {
                QueryShape::Has => Some(Ok(Vec::new())),
                QueryShape::Show => Some(
                    Err(Error::ExactVersionDoesNotExist { version: exact.clone() }),
                ),
            },
            _ => None,
        }
    }

    /// Picks the fragments out of a walk through the directory of a query.
    /// `template` is the name of the template file. The paths of the entries
    /// kept come in the order of a dictionary, whatever the order of the
    /// walk was. Failures of the walk are not dropped: where there is one,
    /// all of them are reported together.
    pub fn run(query: &Query, template: &str, steps: &Vec<Walked>) -> (r: Result<
        Vec<String>,
        Error,
    >)
        ensures
            match r {
                Ok(paths) => {
                    &&& failures(walk_of(steps@), steps.len() as int).len() == 0
                    &&& sorted_by(texts_of(paths@), text_order())
                    &&& texts_of(paths@).to_multiset() == selected(
                        query@.bounds,
                        template@,
                        walk_of(steps@),
                        steps.len() as int,
                    ).to_multiset()
                },
                Err(e) => failures(walk_of(steps@), steps.len() as int).len() > 0 && (
                e matches Error::Multiple { errors } && are_walk_errors(
                    errors@,
                    failures(walk_of(steps@), steps.len() as int),
                )),
            },
    {
        let mut paths: Vec<String> = Vec::new();
        let mut errors: Vec<Error> = Vec::new();
        let ghost model = walk_of(steps@);
        let mut i: usize = 0;
        while i < steps.len()
            invariant
                i <= steps.len(),
                model == walk_of(steps@),
                texts_of(paths@) == selected(query@.bounds, template@, model, i as int),
                are_walk_errors(errors@, failures(model, i as int)),
            decreases steps.len() - i,
        {
            assert(model[i as int] == steps@[i as int]@);
            let ghost old_paths = texts_of(paths@);
            let ghost old_errors = errors@;
            match &steps[i] {
                Walked::Entry(e) => {
                    let is_file = match e.kind {
                        EntryKind::File => true,
                        _ => false,
                    };
                    let keep = is_file && !last_is(&e.parts, ".gitkeep") && !last_is(
                        &e.parts,
                        template,
                    ) && match &query.bounds {
                        Some((low, high)) => in_range(&e.parts, low, high),
                        None => true,
                    };
                    if keep {
                        paths.push(e.path.clone());
                        assert(texts_of(paths@) =~= old_paths.push(e.path@));
                    }
                },
                Walked::Failed(m) => {
                    errors.push(Error::WalkDir(m.clone()));
                    assert(errors@[old_errors.len() as int] matches Error::WalkDir(x) && x@ == m@);
                },
            }
            i += 1;
        }
        if errors.len() > 0 {
            Err(Error::Multiple { errors })
        } else {
            Ok(sort_paths(paths))
        }
    }
}

} // verus!
