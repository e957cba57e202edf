use vstd::prelude::*;

use crate::fspath::FsPath;
use crate::fspath::spec_has_component;
use crate::fspath::spec_profile_of;
use crate::fspath::spec_trim_to_install;

verus! {

/// One candidate install root together with every collection file that a
/// traversal found beneath it.
pub struct RootListing {
    pub root: FsPath,
    pub collections: Vec<FsPath>,
}

/// Ghost image of a [`RootListing`]: the root's components and the found
/// paths' components.
pub ghost struct ListingV {
    pub root: Seq<Seq<char>>,
    pub collections: Seq<Seq<Seq<char>>>,
}

impl View for RootListing {
    type V = ListingV;

    open spec fn view(&self) -> ListingV {
        ListingV { root: self.root@, collections: self.collections.deep_view() }
    }
}

impl DeepView for RootListing {
    type V = ListingV;

    open spec fn deep_view(&self) -> ListingV {
        self.view()
    }
}

/// The outcome of resolution, at the level contracts speak of.
pub ghost enum Resolution {
    /// Exactly one collection file survived every check.
    Resolved { path: Seq<Seq<char>> },
    /// No candidate root held any collection file; `checked` lists every
    /// root that was examined.
    NoDataPaths { checked: Seq<Seq<Seq<char>>> },
    /// More than one root held collection files; `installs` lists the
    /// distinct install directories they were trimmed to.
    AmbiguousInstall { installs: Seq<Seq<Seq<char>>> },
    /// A found path had no install-marker component to trim to.
    MalformedInstallPath,
    /// The profile filter left no path.
    NoProfileMatch,
    /// Several paths survived; `profiles` lists the distinct profile
    /// directories they name, for the operator to pick from.
    AmbiguousProfile { candidates: Seq<Seq<Seq<char>>>, profiles: Seq<Seq<char>> },
}

/// Why resolution failed, with the payload each failure carries.
#[derive(Debug)]
pub enum ResolveError {
    NoDataPaths { checked: Vec<FsPath> },
    AmbiguousInstall { installs: Vec<FsPath> },
    MalformedInstallPath,
    NoProfileMatch,
    AmbiguousProfile { candidates: Vec<FsPath>, profiles: Vec<String> },
}

impl View for ResolveError {
    type V = Resolution;

    open spec fn view(&self) -> Resolution {
        match self {
            ResolveError::NoDataPaths { checked } => Resolution::NoDataPaths {
                checked: checked.deep_view(),
            },
            ResolveError::AmbiguousInstall { installs } => Resolution::AmbiguousInstall {
                installs: installs.deep_view(),
            },
            ResolveError::MalformedInstallPath => Resolution::MalformedInstallPath,
            ResolveError::NoProfileMatch => Resolution::NoProfileMatch,
            ResolveError::AmbiguousProfile { candidates, profiles } => Resolution::AmbiguousProfile {
                candidates: candidates.deep_view(),
                profiles: profiles.deep_view(),
            },
        }
    }
}

/// The listings that actually hold collection files: the install groupings.
pub open spec fn spec_nonempty(ls: Seq<ListingV>) -> Seq<ListingV> {
    ls.filter(|l: ListingV| l.collections.len() > 0)
}

/// The roots of a sequence of listings.
pub open spec fn spec_roots_of(ls: Seq<ListingV>) -> Seq<Seq<Seq<char>>> {
    ls.map_values(|l: ListingV| l.root)
}

/// Every collection path of the given listings, in listing order.
pub open spec fn spec_all_collections(ls: Seq<ListingV>) -> Seq<Seq<Seq<char>>> {
    ls.map_values(|l: ListingV| l.collections).flatten()
}

/// The paths whose components contain the profile name exactly.
pub open spec fn spec_filter_profile(
    ps: Seq<Seq<Seq<char>>>,
    profile: Seq<char>,
) -> Seq<Seq<Seq<char>>> {
    ps.filter(|p: Seq<Seq<char>>| spec_has_component(p, profile))
}

/// Whether every path can be trimmed to an install directory.
pub open spec fn spec_all_trimmable(ps: Seq<Seq<Seq<char>>>) -> bool {
    forall|i: int| 0 <= i < ps.len() ==> #[trigger] spec_trim_to_install(ps[i]) is Some
}

/// Every path trimmed to its install directory.
pub open spec fn spec_trimmed(ps: Seq<Seq<Seq<char>>>) -> Seq<Seq<Seq<char>>> {
    ps.map_values(|p: Seq<Seq<char>>| spec_trim_to_install(p)->Some_0)
}

/// The sequence with later repetitions of an element dropped: each element
/// keeps its first occurrence only.
pub open spec fn spec_dedup<A>(s: Seq<A>) -> Seq<A>
    decreases s.len(),
{
    if s.len() == 0 {
        Seq::empty()
    } else if s.drop_last().contains(s.last()) {
        spec_dedup(s.drop_last())
    } else {
        spec_dedup(s.drop_last()).push(s.last())
    }
}

/// The profile directory named by each path that names one, in order.
pub open spec fn spec_extracted_names(ps: Seq<Seq<Seq<char>>>) -> Seq<Seq<char>> {
    ps.filter_map(|p: Seq<Seq<char>>| spec_profile_of(p))
}

/// The distinct profile directories named by the paths: the extracted
/// names with later repetitions dropped.
pub open spec fn spec_profile_names(ps: Seq<Seq<Seq<char>>>) -> Seq<Seq<char>> {
    spec_dedup(spec_extracted_names(ps))
}

/// The paths still in play once a single install grouping stands: its
/// collection files, narrowed by the profile filter when one is given.
pub open spec fn spec_working(ls: Seq<ListingV>, profile: Option<Seq<char>>) -> Seq<
    Seq<Seq<char>>,
> {
    let groups = spec_nonempty(ls);
    match profile {
        Some(name) => spec_filter_profile(groups[0].collections, name),
        None => groups[0].collections,
    }
}

/// What resolution returns for the given listings and optional profile
/// filter.  This is the whole rule: a single surviving path resolves;
/// anything else is one of the distinguishable failures.
pub open spec fn spec_resolve(ls: Seq<ListingV>, profile: Option<Seq<char>>) -> Resolution {
    let groups = spec_nonempty(ls);
    if groups.len() == 0 {
        Resolution::NoDataPaths { checked: spec_roots_of(ls) }
    } else if groups.len() > 1 {
        let found = spec_all_collections(groups);
        if spec_all_trimmable(found) {
            Resolution::AmbiguousInstall { installs: spec_dedup(spec_trimmed(found)) }
        } else {
            Resolution::MalformedInstallPath
        }
    } else {
        let working = spec_working(ls, profile);
        if working.len() == 1 {
            Resolution::Resolved { path: working[0] }
        } else if working.len() == 0 {
            Resolution::NoProfileMatch
        } else {
            Resolution::AmbiguousProfile {
                candidates: working,
                profiles: spec_profile_names(working),
            }
        }
    }
}

/// A copy of each listing's root, in order.
fn roots_of(listings: &Vec<RootListing>) -> (r: Vec<FsPath>)
    ensures
        r.deep_view() == spec_roots_of(listings.deep_view()),
{
    let mut out: Vec<FsPath> = Vec::new();
    let mut i: usize = 0;
    while i < listings.len()
        invariant
            i <= listings.len(),
            out.deep_view() == spec_roots_of(listings.deep_view().take(i as int)),
        decreases listings.len() - i,
    {
        out.push(listings[i].root.duplicate());
        proof {
            let ldv = listings.deep_view();
            assert(ldv.take(i + 1 as int) =~= ldv.take(i as int).push(ldv[i as int]));
            assert(out.deep_view() =~= spec_roots_of(ldv.take(i as int)).push(ldv[i as int].root));
            assert(spec_roots_of(ldv.take(i as int)).push(ldv[i as int].root) =~= spec_roots_of(
                ldv.take(i + 1 as int),
            ));
        }
        i += 1;
    }
    proof {
        assert(listings.deep_view().take(listings.len() as int) =~= listings.deep_view());
    }
    out
}

/// The positions of the listings that hold at least one collection file.
fn nonempty_indices(listings: &Vec<RootListing>) -> (r: Vec<usize>)
    ensures
        forall|j: int| 0 <= j < r@.len() ==> #[trigger] r@[j] < listings@.len(),
        r@.map_values(|k: usize| listings.deep_view()[k as int]) == spec_nonempty(
            listings.deep_view(),
        ),
{
    let ghost ldv = listings.deep_view();
    let mut out: Vec<usize> = Vec::new();
    let mut i: usize = 0;
    #[verifier::loop_isolation(false)]
    while i < listings.len()
        invariant
            i <= listings.len(),
            forall|j: int| 0 <= j < out@.len() ==> #[trigger] out@[j] < listings@.len(),
            out@.map_values(|k: usize| listings.deep_view()[k as int]) == spec_nonempty(
                listings.deep_view().take(i as int),
            ),
        decreases listings.len() - i,
    {
        let ghost before = out@;
        if listings[i].collections.len() > 0 {
            out.push(i);
            proof {
                assert(ldv[i as int].collections.len() > 0);
                assert(out@.map_values(|k: usize| ldv[k as int]) =~= before.map_values(
                    |k: usize| ldv[k as int],
                ).push(ldv[i as int]));
            }
        } else {
            proof {
                assert(ldv[i as int].collections.len() == 0);
            }
        }
        proof {
            ldv.take(i as int).lemma_filter_push(ldv[i as int], |l: ListingV| l.collections.len() > 0);
            assert(ldv.take(i + 1 as int) =~= ldv.take(i as int).push(ldv[i as int]));
        }
        i += 1;
    }
    proof {
        assert(ldv.take(listings.len() as int) =~= ldv);
    }
    out
}

/// Keeps exactly the paths that contain a component equal to `profile`.
pub fn filter_profile(collection_paths: Vec<FsPath>, profile: String) -> (r: Vec<FsPath>)
    ensures
        r.deep_view() == spec_filter_profile(collection_paths.deep_view(), profile@),
{
    let ghost pdv = collection_paths.deep_view();
    let mut out: Vec<FsPath> = Vec::new();
    let mut i: usize = 0;
    #[verifier::loop_isolation(false)]
    while i < collection_paths.len()
        invariant
            i <= collection_paths.len(),
            out.deep_view() == spec_filter_profile(pdv.take(i as int), profile@),
        decreases collection_paths.len() - i,
    {
        let ghost before = out.deep_view();
        if collection_paths[i].has_component(&profile) {
            out.push(collection_paths[i].duplicate());
            proof {
                assert(out.deep_view() =~= before.push(pdv[i as int]));
            }
        }
        proof {
            pdv.take(i as int).lemma_filter_push(
                pdv[i as int],
                |p: Seq<Seq<char>>| spec_has_component(p, profile@),
            );
            assert(pdv.take(i + 1 as int) =~= pdv.take(i as int).push(pdv[i as int]));
        }
        i += 1;
    }
    proof {
        assert(pdv.take(collection_paths.len() as int) =~= pdv);
    }
    out
}

/// Copies every collection path of the listings at the given positions,
/// in order.
fn gather_collections(listings: &Vec<RootListing>, idxs: &Vec<usize>) -> (r: Vec<FsPath>)
    requires
        forall|j: int| 0 <= j < idxs@.len() ==> #[trigger] idxs@[j] < listings@.len(),
    ensures
        r.deep_view() == spec_all_collections(
            idxs@.map_values(|k: usize| listings.deep_view()[k as int]),
        ),
{
    let ghost ldv = listings.deep_view();
    let ghost groups = idxs@.map_values(|k: usize| ldv[k as int]);
    let mut out: Vec<FsPath> = Vec::new();
    let mut j: usize = 0;
    #[verifier::loop_isolation(false)]
    while j < idxs.len()
        invariant
            j <= idxs.len(),
            out.deep_view() == spec_all_collections(groups.take(j as int)),
        decreases idxs.len() - j,
    {
        let ghost base = out.deep_view();
        let k = idxs[j];
        let cols = &listings[k].collections;
        let mut t: usize = 0;
        #[verifier::loop_isolation(false)]
        while t < cols.len()
            invariant
                t <= cols.len(),
                out.deep_view() == base + cols.deep_view().take(t as int),
            decreases cols.len() - t,
        {
            let ghost obefore = out.deep_view();
            out.push(cols[t].duplicate());
            proof {
                assert(out.deep_view() =~= obefore.push(cols.deep_view()[t as int]));
                assert(out.deep_view() =~= base + cols.deep_view().take(t + 1 as int));
            }
            t += 1;
        }
        proof {
            let cdv = cols.deep_view();
            assert(cdv.take(cols.len() as int) =~= cdv);
            assert(groups[j as int].collections == cdv);
            let mapped = groups.take(j as int).map_values(|l: ListingV| l.collections);
            mapped.lemma_flatten_push(cdv);
            assert(groups.take(j + 1 as int).map_values(|l: ListingV| l.collections) =~= mapped.push(
                cdv,
            ));
            assert(out.deep_view() == spec_all_collections(groups.take(j + 1 as int)));
        }
        j += 1;
    }
    proof {
        assert(groups.take(idxs.len() as int) =~= groups);
    }
    out
}

/// Trims every path to its install directory, or reports the first path
/// that has no install-marker component.
pub fn trim_to_install_path(paths: Vec<FsPath>) -> (r: Result<Vec<FsPath>, ResolveError>)
    ensures
        match r {
            Ok(v) => spec_all_trimmable(paths.deep_view()) && v.deep_view() == spec_trimmed(
                paths.deep_view(),
            ),
            Err(e) => !spec_all_trimmable(paths.deep_view()) && e@
                == Resolution::MalformedInstallPath,
        },
{
    let ghost pdv = paths.deep_view();
    let mut out: Vec<FsPath> = Vec::new();
    let mut i: usize = 0;
    #[verifier::loop_isolation(false)]
    while i < paths.len()
        invariant
            i <= paths.len(),
            forall|j: int| 0 <= j < i ==> #[trigger] spec_trim_to_install(pdv[j]) is Some,
            out.deep_view() == spec_trimmed(pdv.take(i as int)),
        decreases paths.len() - i,
    {
        let ghost before = out.deep_view();
        match paths[i].duplicate().trim_to_install() {
            Some(q) => {
                out.push(q);
                proof {
                    assert(out.deep_view() =~= before.push(spec_trim_to_install(pdv[i as int])->Some_0));
                    assert(out.deep_view() =~= spec_trimmed(pdv.take(i + 1 as int)));
                }
            },
            None => {
                proof {
                    assert(spec_trim_to_install(pdv[i as int]) is None);
                }
                return Err(ResolveError::MalformedInstallPath);
            },
        }
        i += 1;
    }
    proof {
        assert(pdv.take(paths.len() as int) =~= pdv);
    }
    Ok(out)
}

/// Whether some path of `v` equals `p`, component for component.
fn contains_path(v: &Vec<FsPath>, p: &FsPath) -> (r: bool)
    ensures
        r == v.deep_view().contains(p@),
{
    let mut i: usize = 0;
    #[verifier::loop_isolation(false)]
    while i < v.len()
        invariant
            i <= v.len(),
            forall|j: int| 0 <= j < i ==> v.deep_view()[j] != p@,
        decreases v.len() - i,
    {
        if v[i].same_as(p) {
            proof {
                assert(v.deep_view()[i as int] == p@);
            }
            return true;
        }
        i += 1;
    }
    false
}

/// A deduplicated sequence holds exactly the elements of its input.
proof fn lemma_dedup_contains<A>(s: Seq<A>, x: A)
    ensures
        spec_dedup(s).contains(x) == s.contains(x),
    decreases s.len(),
{
    if s.len() == 0 {
    } else {
        let rest = s.drop_last();
        let last = s.last();
        lemma_dedup_contains(rest, x);
        assert(s =~= rest.push(last));
        vstd::seq_lib::lemma_seq_contains_after_push(rest, last, x);
        if rest.contains(last) {
            if x == last {
                assert(s.contains(x));
            }
        } else {
            vstd::seq_lib::lemma_seq_contains_after_push(spec_dedup(rest), last, x);
        }
    }
}

/// Deduplication leaves no element twice.
pub proof fn lemma_dedup_no_duplicates<A>(s: Seq<A>)
    ensures
        spec_dedup(s).no_duplicates(),
    decreases s.len(),
{
    if s.len() == 0 {
    } else {
        let rest = s.drop_last();
        let last = s.last();
        lemma_dedup_no_duplicates(rest);
        if !rest.contains(last) {
            let d = spec_dedup(rest);
            lemma_dedup_contains(rest, last);
            assert forall|i: int, j: int|
                0 <= i < d.push(last).len() && 0 <= j < d.push(last).len() && i != j implies d.push(
                last,
            )[i] != d.push(last)[j] by {
                if i < d.len() && j < d.len() {
                } else if i < d.len() {
                    assert(d.contains(d[i]));
                } else if j < d.len() {
                    assert(d.contains(d[j]));
                }
            }
        }
    }
}

/// Drops every later repetition of a path, keeping first occurrences in
/// order.
pub fn dedup_paths(paths: Vec<FsPath>) -> (r: Vec<FsPath>)
    ensures
        r.deep_view() == spec_dedup(paths.deep_view()),
{
    let ghost pdv = paths.deep_view();
    let mut out: Vec<FsPath> = Vec::new();
    let mut i: usize = 0;
    #[verifier::loop_isolation(false)]
    while i < paths.len()
        invariant
            i <= paths.len(),
            out.deep_view() == spec_dedup(pdv.take(i as int)),
        decreases paths.len() - i,
    {
        let ghost before = out.deep_view();
        proof {
            assert(pdv.take(i + 1 as int).drop_last() =~= pdv.take(i as int));
            lemma_dedup_contains(pdv.take(i as int), pdv[i as int]);
        }
        if !contains_path(&out, &paths[i]) {
            out.push(paths[i].duplicate());
            proof {
                assert(out.deep_view() =~= before.push(pdv[i as int]));
            }
        }
        i += 1;
    }
    proof {
        assert(pdv.take(paths.len() as int) =~= pdv);
    }
    out
}

/// Whether some string of `v` equals `name`.
fn contains_name(v: &Vec<String>, name: &String) -> (r: bool)
    ensures
        r == v.deep_view().contains(name@),
{
    let mut i: usize = 0;
    #[verifier::loop_isolation(false)]
    while i < v.len()
        invariant
            i <= v.len(),
            forall|j: int| 0 <= j < i ==> v.deep_view()[j] != name@,
        decreases v.len() - i,
    {
        if v[i].eq(name) {
            proof {
                assert(v.deep_view()[i as int] == name@);
            }
            return true;
        }
        i += 1;
    }
    false
}

/// The distinct profile directories named by the paths, each under its
/// first occurrence, in order.
pub fn get_profile_names(paths: &Vec<FsPath>) -> (r: Vec<String>)
    ensures
        r.deep_view() == spec_profile_names(paths.deep_view()),
{
    let ghost pdv = paths.deep_view();
    let mut out: Vec<String> = Vec::new();
    let mut i: usize = 0;
    #[verifier::loop_isolation(false)]
    while i < paths.len()
        invariant
            i <= paths.len(),
            out.deep_view() == spec_profile_names(pdv.take(i as int)),
        decreases paths.len() - i,
    {
        let ghost before = out.deep_view();
        let ghost extracted = spec_extracted_names(pdv.take(i as int));
        proof {
            pdv.lemma_filter_map_take_succ(|p: Seq<Seq<char>>| spec_profile_of(p), i as int);
        }
        match paths[i].profile_of() {
            Some(name) => {
                let ghost nv = name@;
                proof {
                    assert(spec_extracted_names(pdv.take(i + 1 as int)) =~= extracted.push(nv));
                    assert(extracted.push(nv).drop_last() =~= extracted);
                    lemma_dedup_contains(extracted, nv);
                }
                if !contains_name(&out, &name) {
                    out.push(name);
                    proof {
                        assert(out.deep_view() =~= before.push(nv));
                    }
                }
            },
            None => {
                proof {
                    assert(spec_extracted_names(pdv.take(i + 1 as int)) =~= extracted);
                }
            },
        }
        proof {
            assert(out.deep_view() == spec_profile_names(pdv.take(i + 1 as int)));
        }
        i += 1;
    }
    proof {
        assert(pdv.take(paths.len() as int) =~= pdv);
    }
    out
}

/// Resolves the one collection file among the candidate roots' findings,
/// or says exactly why it could not: [`spec_resolve`] is the whole rule.
///
/// Each listing pairs a candidate root with every collection file found
/// beneath it.  When an explicit override path stands for the whole
/// candidate set, the caller passes that one listing alone, which is why a
/// single root can never fail as an ambiguous install.
///
/// A profile filter that empties a non-empty working set always fails as
/// the missing profile match — under an explicit override just as under
/// the default roots — never as the no-data-paths failure, which is
/// reserved for roots that held nothing to begin with.
pub fn find_db(listings: Vec<RootListing>, profile: Option<String>) -> (r: Result<
    FsPath,
    ResolveError,
>)
    ensures
        match r {
            Ok(p) => spec_resolve(listings.deep_view(), profile.deep_view()) == (Resolution::Resolved {
                path: p@,
            }),
            Err(e) => e@ == spec_resolve(listings.deep_view(), profile.deep_view()) && !(
            spec_resolve(listings.deep_view(), profile.deep_view()) is Resolved),
        },
{
    let ghost ldv = listings.deep_view();
    let ghost groups = spec_nonempty(ldv);
    let idxs = nonempty_indices(&listings);
    proof {
        assert(groups.len() == idxs@.len());
    }
    if idxs.len() == 0 {
        let checked = roots_of(&listings);
        return Err(ResolveError::NoDataPaths { checked });
    }
    if idxs.len() > 1 {
        let found = gather_collections(&listings, &idxs);
        proof {
            assert(found.deep_view() == spec_all_collections(groups));
        }
        match trim_to_install_path(found) {
            Ok(trimmed) => {
                let installs = dedup_paths(trimmed);
                return Err(ResolveError::AmbiguousInstall { installs });
            },
            Err(e) => {
                return Err(e);
            },
        }
    }
    let mut listings = listings;
    let first_idx = idxs[0];
    let single = listings.remove(first_idx);
    proof {
        assert(single.deep_view() == groups[0]);
    }
    let mut working = single.collections;
    match profile {
        Some(name) => {
            working = filter_profile(working, name);
        },
        None => {},
    }
    if working.len() == 1 {
        let ghost wdv = working.deep_view();
        let mut working = working;
        let p = working.remove(0);
        proof {
            assert(p@ == wdv[0]);
        }
        return Ok(p);
    }
    if working.len() == 0 {
        return Err(ResolveError::NoProfileMatch);
    }
    let profiles = get_profile_names(&working);
    Err(ResolveError::AmbiguousProfile { candidates: working, profiles })
}

/// The sandboxed-app data root beneath the home directory.
pub open spec fn spec_flatpak_root(home: Seq<Seq<char>>) -> Seq<Seq<char>> {
    home + seq![".var"@, "app"@, "net.ankiweb.Anki"@, "data"@, "Anki2"@]
}

/// The local-share data root beneath the home directory.
pub open spec fn spec_share_root(home: Seq<Seq<char>>) -> Seq<Seq<char>> {
    home + seq![".local"@, "share"@, "Anki2"@]
}

/// The conventional candidate roots: the two home-relative data trees,
/// and the data directory's own subtree when that directory is set.
pub open spec fn spec_default_paths(
    home: Seq<Seq<char>>,
    data_dir: Option<Seq<Seq<char>>>,
) -> Seq<Seq<Seq<char>>> {
    match data_dir {
        None => seq![spec_flatpak_root(home), spec_share_root(home)],
        Some(d) => seq![spec_flatpak_root(home), spec_share_root(home), d.push("Anki2"@)],
    }
}

/// Builds the conventional candidate roots from the home directory and
/// the optional data directory, as [`spec_default_paths`] lays them out.
pub fn default_paths(home: FsPath, data_dir: Option<FsPath>) -> (r: Vec<FsPath>)
    ensures
        r.deep_view() == spec_default_paths(home@, data_dir.deep_view()),
{
    let ghost hv = home@;
    let flatpak = home.duplicate().child(".var").child("app").child("net.ankiweb.Anki").child(
        "data",
    ).child("Anki2");
    let share = home.child(".local").child("share").child("Anki2");
    proof {
        assert(flatpak@ =~= spec_flatpak_root(hv));
        assert(share@ =~= spec_share_root(hv));
    }
    let mut out: Vec<FsPath> = Vec::new();
    out.push(flatpak);
    out.push(share);
    match data_dir {
        Some(d) => {
            out.push(d.child("Anki2"));
            proof {
                assert(out.deep_view() =~= spec_default_paths(hv, data_dir.deep_view()));
            }
        },
        None => {
            proof {
                assert(out.deep_view() =~= spec_default_paths(hv, data_dir.deep_view()));
            }
        },
    }
    out
}

/// When exactly one candidate root holds collection files, and exactly
/// one file lies under it, resolution without a profile filter returns
/// that file's path.
pub proof fn lemma_single_find_resolves(ls: Seq<ListingV>)
    requires
        spec_nonempty(ls).len() == 1,
        spec_nonempty(ls)[0].collections.len() == 1,
    ensures
        spec_resolve(ls, None) == (Resolution::Resolved {
            path: spec_nonempty(ls)[0].collections[0],
        }),
{
}

/// When two or more candidate roots hold collection files, resolution
/// fails as an ambiguous install whatever the profile filter, and the
/// reported install list has no duplicate entries.  A found path without
/// an install-marker component would fail as a malformed path instead,
/// which is why every found path is assumed trimmable here.
pub proof fn lemma_multiple_installs_ambiguous(ls: Seq<ListingV>, profile: Option<Seq<char>>)
    requires
        spec_nonempty(ls).len() >= 2,
        spec_all_trimmable(spec_all_collections(spec_nonempty(ls))),
    ensures
        spec_resolve(ls, profile) matches Resolution::AmbiguousInstall { installs }
            && installs.no_duplicates(),
{
    lemma_dedup_no_duplicates(spec_trimmed(spec_all_collections(spec_nonempty(ls))));
}

/// With a single install grouping of two or more collection files, a
/// profile filter that narrows the working set to exactly one path
/// resolves to that path; one that narrows it to none fails as a missing
/// profile match, a failure distinct from the no-data-paths one.
pub proof fn lemma_profile_filter(ls: Seq<ListingV>, name: Seq<char>)
    requires
        spec_nonempty(ls).len() == 1,
        spec_nonempty(ls)[0].collections.len() >= 2,
    ensures
        spec_filter_profile(spec_nonempty(ls)[0].collections, name).len() == 1 ==> spec_resolve(
            ls,
            Some(name),
        ) == (Resolution::Resolved {
            path: spec_filter_profile(spec_nonempty(ls)[0].collections, name)[0],
        }),
        spec_filter_profile(spec_nonempty(ls)[0].collections, name).len() == 0 ==> spec_resolve(
            ls,
            Some(name),
        ) is NoProfileMatch && !(spec_resolve(ls, Some(name)) is NoDataPaths),
{
}

/// When several paths survive the single install grouping and its
/// optional profile filter, resolution fails as an ambiguous profile
/// whose payload carries exactly the survivors, and whose suggested
/// profile list holds no name twice.
pub proof fn lemma_ambiguous_profiles_distinct(ls: Seq<ListingV>, profile: Option<Seq<char>>)
    requires
        spec_nonempty(ls).len() == 1,
        spec_working(ls, profile).len() >= 2,
    ensures
        spec_resolve(ls, profile) matches Resolution::AmbiguousProfile { candidates, profiles }
            && candidates == spec_working(ls, profile) && profiles.no_duplicates(),
{
    lemma_dedup_no_duplicates(spec_extracted_names(spec_working(ls, profile)));
}

/// When no candidate root holds any collection file — an override path
/// with nothing beneath it included — resolution fails with the
/// no-data-paths classification, naming every root that was checked.
pub proof fn lemma_no_findings(ls: Seq<ListingV>, profile: Option<Seq<char>>)
    requires
        forall|i: int| 0 <= i < ls.len() ==> #[trigger] ls[i].collections.len() == 0,
    ensures
        spec_resolve(ls, profile) == (Resolution::NoDataPaths { checked: spec_roots_of(ls) }),
{
    let pred = |l: ListingV| l.collections.len() > 0;
    assert(ls.all(|l: ListingV| !pred(l))) by {
        assert(forall|i: int| 0 <= i < ls.len() ==> !pred(#[trigger] ls[i]));
    }
    ls.lemma_all_neg_filter_empty(pred);
}

} // verus!
