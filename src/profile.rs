//! Conflict-aware merging of package roots into a profile.
//!
//! A profile snapshot is an ordered list of package roots, each contributing a
//! footprint of relative paths. New roots are merged into a scratch copy of
//! the current snapshot: an existing root whose footprint intersects a new
//! root is evicted before that new root is added, and new roots whose
//! footprints intersect one another are refused before anything is touched.
use vstd::prelude::*;

use crate::text::texts_of;

verus! {

/// A package root and the relative paths it contributes to a profile.
#[derive(Clone, Debug)]
pub struct PackageRoot {
    pub path: String,
    pub footprint: Vec<String>,
}

/// What the merge knows of a package root.
pub struct RootView {
    pub path: Seq<char>,
    pub footprint: Seq<Seq<char>>,
}

impl View for PackageRoot {
    type V = RootView;

    open spec fn view(&self) -> RootView {
        RootView { path: self.path@, footprint: texts_of(self.footprint@) }
    }
}

/// A footprint is a set: it holds no path twice.
pub open spec fn footprint_wf(root: RootView) -> bool {
    root.footprint.no_duplicates()
}

/// Every footprint of `roots` holds no path twice.
pub open spec fn roots_wf(roots: Seq<RootView>) -> bool {
    forall|i: int| 0 <= i < roots.len() ==> footprint_wf(#[trigger] roots[i])
}

impl PackageRoot {
    /// A package root at `path` contributing `paths`, each kept once.
    pub fn new(path: String, paths: Vec<String>) -> (r: Self)
        ensures
            r@.path == path@,
            footprint_wf(r@),
            forall|x: Seq<char>| r@.footprint.contains(x) <==> texts_of(paths@).contains(x),
    {
        let mut footprint: Vec<String> = Vec::new();
        let mut q: usize = 0;
        while q < paths.len()
            invariant
                0 <= q <= paths@.len(),
                texts_of(footprint@).no_duplicates(),
                forall|x: Seq<char>| texts_of(footprint@).contains(x) <==> texts_of(paths@).subrange(0, q as int).contains(x),
            decreases paths@.len() - q,
        {
            let ghost before = footprint@;
            assert(texts_of(paths@).subrange(0, q + 1) =~= texts_of(paths@).subrange(0, q as int).push(texts_of(paths@)[q as int]));
            let ghost y = texts_of(paths@)[q as int];
            let ghost pre_q = texts_of(paths@).subrange(0, q as int);
            let ghost post_q = texts_of(paths@).subrange(0, q + 1);
            if !contains_path(&footprint, &paths[q]) {
                let s = paths[q].clone();
                footprint.push(s);
                proof {
                    lemma_texts_push(before, s);
                    assert(texts_of(footprint@) == texts_of(before).push(y));
                    assert forall|x: Seq<char>| texts_of(footprint@).contains(x) <==> post_q.contains(x) by {
                        if texts_of(footprint@).contains(x) {
                            let i = choose|i: int| 0 <= i < texts_of(footprint@).len() && texts_of(footprint@)[i] == x;
                            if i < before.len() {
                                assert(texts_of(before)[i] == x);
                                assert(texts_of(before).contains(x));
                                let j = choose|j: int| 0 <= j < pre_q.len() && pre_q[j] == x;
                                assert(post_q[j] == x);
                            } else {
                                assert(post_q[q as int] == x);
                            }
                        }
                        if post_q.contains(x) {
                            let j = choose|j: int| 0 <= j < post_q.len() && post_q[j] == x;
                            if j < q {
                                assert(pre_q[j] == x);
                                assert(pre_q.contains(x));
                                assert(texts_of(before).contains(x));
                                let i = choose|i: int| 0 <= i < texts_of(before).len() && texts_of(before)[i] == x;
                                assert(texts_of(footprint@)[i] == x);
                            } else {
                                assert(texts_of(footprint@)[before.len() as int] == x);
                            }
                        }
                    }
                    let t = texts_of(footprint@);
                    assert forall|a: int, b: int| 0 <= a < t.len() && 0 <= b < t.len() && a != b implies t[a] != t[b] by {
                        if a < before.len() && b < before.len() {
                            assert(t[a] == texts_of(before)[a] && t[b] == texts_of(before)[b]);
                        } else if a < before.len() {
                            assert(t[a] == texts_of(before)[a]);
                        } else {
                            assert(t[b] == texts_of(before)[b]);
                        }
                    }
                }
            } else {
                proof {
                    assert forall|x: Seq<char>| texts_of(footprint@).contains(x) <==> post_q.contains(x) by {
                        if texts_of(footprint@).contains(x) {
                            let j = choose|j: int| 0 <= j < pre_q.len() && pre_q[j] == x;
                            assert(post_q[j] == x);
                        }
                        if post_q.contains(x) {
                            let j = choose|j: int| 0 <= j < post_q.len() && post_q[j] == x;
                            if j < q {
                                assert(pre_q[j] == x);
                                assert(pre_q.contains(x));
                            } else {
                                assert(x == y);
                            }
                        }
                    }
                }
            }
            q = q + 1;
        }
        assert(texts_of(paths@).subrange(0, paths@.len() as int) =~= texts_of(paths@));
        PackageRoot { path, footprint }
    }
}

/// The views of a sequence of package roots.
pub open spec fn root_views(v: Seq<PackageRoot>) -> Seq<RootView> {
    v.map_values(|r: PackageRoot| r@)
}

/// One operation on the scratch profile.
#[derive(Debug, PartialEq, Eq)]
pub enum ProfileStep {
    /// Remove the root with this path.
    Uninstall(String),
    /// Add the root with this path.
    Install(String),
}

pub enum StepView {
    Uninstall(Seq<char>),
    Install(Seq<char>),
}

impl View for ProfileStep {
    type V = StepView;

    open spec fn view(&self) -> StepView {
        match self {
            ProfileStep::Uninstall(p) => StepView::Uninstall(p@),
            ProfileStep::Install(p) => StepView::Install(p@),
        }
    }
}

pub open spec fn step_views(v: Seq<ProfileStep>) -> Seq<StepView> {
    v.map_values(|s: ProfileStep| s@)
}

/// Why a profile could not be updated.
#[derive(Clone, Debug)]
pub enum ProfileError {
    /// A new root shares paths with a root requested before it: the root, the shared paths.
    PathConflict(String, Vec<String>),
    /// The paths under a root could not be listed: the root, the cause.
    EnumeratingStorePathContent(String, String),
    /// A scratch directory could not be created: the cause.
    CreateTempDir(String),
    /// A package tool could not be started: what was attempted, the cause.
    StartNixCommand(String, String),
    /// A package tool reported failure: what was attempted, its output.
    NixCommand(String, String),
    /// Adding a root failed: the root, the tool's output.
    AddPackage(String, String),
    /// The list of installed packages could not be read: the cause.
    SerdeJson(String),
    /// The home directory of the superuser is unknown.
    NoRootHome,
}

/// Whether some path of `a` is also a path of `b`.
pub open spec fn overlaps(a: Seq<Seq<char>>, b: Seq<Seq<char>>) -> bool {
    exists|m: int| 0 <= m < a.len() && #[trigger] b.contains(a[m])
}

/// The paths among the first `m` of `a` that are also in `b`, in the order of `a`.
pub open spec fn shared_prefix(a: Seq<Seq<char>>, b: Seq<Seq<char>>, m: int) -> Seq<Seq<char>>
    decreases m,
{
    if m <= 0 {
        Seq::empty()
    } else {
        let rest = shared_prefix(a, b, m - 1);
        if b.contains(a[m - 1]) {
            rest.push(a[m - 1])
        } else {
            rest
        }
    }
}

/// The paths of `a` that are also in `b`, in the order of `a`.
pub open spec fn shared_paths(a: Seq<Seq<char>>, b: Seq<Seq<char>>) -> Seq<Seq<char>> {
    shared_prefix(a, b, a.len() as int)
}

/// The footprints of the first `k` roots, one after another.
pub open spec fn paths_before(roots: Seq<RootView>, k: int) -> Seq<Seq<char>>
    decreases k,
{
    if k <= 0 {
        Seq::empty()
    } else {
        paths_before(roots, k - 1) + roots[k - 1].footprint
    }
}

/// No two of the first `k` roots share a path.
pub open spec fn cohabit_before(roots: Seq<RootView>, k: int) -> bool {
    forall|i: int, j: int| 0 <= i < j < k ==> !overlaps(#[trigger] roots[i].footprint, #[trigger] roots[j].footprint)
}

/// No two roots share a path.
pub open spec fn cohabit(roots: Seq<RootView>) -> bool {
    cohabit_before(roots, roots.len() as int)
}

proof fn lemma_paths_before(roots: Seq<RootView>, k: int, x: Seq<char>)
    requires
        0 <= k <= roots.len(),
    ensures
        paths_before(roots, k).contains(x) <==> exists|i: int| 0 <= i < k && (#[trigger] roots[i]).footprint.contains(x),
    decreases k,
{
    if k > 0 {
        lemma_paths_before(roots, k - 1, x);
        let a = paths_before(roots, k - 1);
        let b = roots[k - 1].footprint;
        if (a + b).contains(x) {
            let q = choose|q: int| 0 <= q < (a + b).len() && (a + b)[q] == x;
            if q < a.len() {
                assert(a[q] == x);
                assert(a.contains(x));
            } else {
                assert(b[q - a.len()] == x);
                assert(b.contains(x));
            }
        }
        if exists|i: int| 0 <= i < k && (#[trigger] roots[i]).footprint.contains(x) {
            let i = choose|i: int| 0 <= i < k && (#[trigger] roots[i]).footprint.contains(x);
            if i < k - 1 {
                let q = choose|q: int| 0 <= q < a.len() && a[q] == x;
                assert((a + b)[q] == x);
            } else {
                let q = choose|q: int| 0 <= q < b.len() && b[q] == x;
                assert((a + b)[a.len() + q] == x);
            }
        }
    }
}

proof fn lemma_texts_push(v: Seq<String>, s: String)
    ensures
        texts_of(v.push(s)) == texts_of(v).push(s@),
{
    assert(texts_of(v.push(s)) =~= texts_of(v).push(s@));
}

/// With every footprint free of repeats and no two roots sharing a path, the
/// paths of the first `k` roots hold no path twice.
proof fn lemma_paths_before_distinct(roots: Seq<RootView>, k: int)
    requires
        0 <= k <= roots.len(),
        roots_wf(roots),
        cohabit_before(roots, k),
    ensures
        paths_before(roots, k).no_duplicates(),
    decreases k,
{
    if k > 0 {
        lemma_paths_before_distinct(roots, k - 1);
        let a = paths_before(roots, k - 1);
        let b = roots[k - 1].footprint;
        assert(footprint_wf(roots[k - 1]));
        let c = a + b;
        assert forall|p: int, q: int| 0 <= p < c.len() && 0 <= q < c.len() && p != q implies c[p] != c[q] by {
            if p < a.len() && q >= a.len() && c[p] == c[q] {
                lemma_paths_before(roots, k - 1, c[p]);
                assert(a.contains(c[p]));
                let i = choose|i: int| 0 <= i < k - 1 && (#[trigger] roots[i]).footprint.contains(c[p]);
                let m = choose|m: int| 0 <= m < roots[i].footprint.len() && roots[i].footprint[m] == c[p];
                assert(b[q - a.len()] == c[p]);
                assert(b.contains(roots[i].footprint[m]));
                assert(overlaps(roots[i].footprint, roots[k - 1].footprint));
            } else if q < a.len() && p >= a.len() && c[p] == c[q] {
                lemma_paths_before(roots, k - 1, c[q]);
                assert(a.contains(c[q]));
                let i = choose|i: int| 0 <= i < k - 1 && (#[trigger] roots[i]).footprint.contains(c[q]);
                let m = choose|m: int| 0 <= m < roots[i].footprint.len() && roots[i].footprint[m] == c[q];
                assert(b[p - a.len()] == c[q]);
                assert(b.contains(roots[i].footprint[m]));
                assert(overlaps(roots[i].footprint, roots[k - 1].footprint));
            } else if p >= a.len() && q >= a.len() {
                assert(c[p] == b[p - a.len()] && c[q] == b[q - a.len()]);
            } else if p < a.len() && q < a.len() {
                assert(c[p] == a[p] && c[q] == a[q]);
            }
        }
    }
}

/// Whether `paths` holds the text of `p`.
fn contains_path(paths: &Vec<String>, p: &String) -> (r: bool)
    ensures
        r == texts_of(paths@).contains(p@),
{
    let mut q: usize = 0;
    while q < paths.len()
        invariant
            0 <= q <= paths@.len(),
            forall|m: int| 0 <= m < q ==> texts_of(paths@)[m] != p@,
        decreases paths@.len() - q,
    {
        if paths[q] == *p {
            assert(texts_of(paths@)[q as int] == p@);
            return true;
        }
        q = q + 1;
    }
    false
}

/// A copy of the strings of `v`.
fn copy_paths(v: &Vec<String>) -> (r: Vec<String>)
    ensures
        texts_of(r@) == texts_of(v@),
{
    let mut out: Vec<String> = Vec::new();
    let mut q: usize = 0;
    while q < v.len()
        invariant
            0 <= q <= v@.len(),
            texts_of(out@) == texts_of(v@).subrange(0, q as int),
        decreases v@.len() - q,
    {
        let ghost before = out@;
        let s = v[q].clone();
        assert(s@ == texts_of(v@)[q as int]);
        out.push(s);
        assert(out@ == before.push(s));
        proof {
            lemma_texts_push(before, s);
        }
        assert(texts_of(out@) =~= texts_of(v@).subrange(0, q + 1));
        q = q + 1;
    }
    assert(texts_of(v@).subrange(0, v@.len() as int) =~= texts_of(v@));
    out
}

/// The paths of `a` that are also in `b`, in the order of `a`.
fn intersection(a: &Vec<String>, b: &Vec<String>) -> (r: Vec<String>)
    ensures
        texts_of(r@) == shared_paths(texts_of(a@), texts_of(b@)),
        r@.len() == 0 <==> !overlaps(texts_of(a@), texts_of(b@)),
{
    let mut out: Vec<String> = Vec::new();
    let mut q: usize = 0;
    while q < a.len()
        invariant
            0 <= q <= a@.len(),
            texts_of(out@) == shared_prefix(texts_of(a@), texts_of(b@), q as int),
            out@.len() == 0 <==> forall|m: int| 0 <= m < q ==> !texts_of(b@).contains(#[trigger] texts_of(a@)[m]),
        decreases a@.len() - q,
    {
        let ghost before = out@;
        if contains_path(b, &a[q]) {
            let s = a[q].clone();
            assert(s@ == texts_of(a@)[q as int]);
            out.push(s);
            assert(out@ == before.push(s));
            proof {
                lemma_texts_push(before, s);
            }
        }
        q = q + 1;
    }
    out
}

/// Whether root `e` shares a path with one of the first `j` new roots.
pub open spec fn hit_before(e: RootView, new: Seq<RootView>, j: int) -> bool {
    exists|j2: int| 0 <= j2 < j && overlaps(e.footprint, #[trigger] new[j2].footprint)
}

/// Whether existing root `e` is evicted when the new root at position `j` is
/// added: it shares a path with that root, and with none added before it.
pub open spec fn evicted_at(e: RootView, new: Seq<RootView>, j: int) -> bool {
    overlaps(e.footprint, new[j].footprint) && !hit_before(e, new, j)
}

/// The evictions, among the first `m` existing roots, done before the new root
/// at position `j` is added, in the order of the existing roots.
pub open spec fn evictions(existing: Seq<RootView>, new: Seq<RootView>, j: int, m: int) -> Seq<StepView>
    decreases m,
{
    if m <= 0 {
        Seq::empty()
    } else {
        let rest = evictions(existing, new, j, m - 1);
        if evicted_at(existing[m - 1], new, j) {
            rest.push(StepView::Uninstall(existing[m - 1].path))
        } else {
            rest
        }
    }
}

/// The steps that merge the first `j` new roots: for each, the evictions it
/// causes, then its own addition.
pub open spec fn merge_steps(existing: Seq<RootView>, new: Seq<RootView>, j: int) -> Seq<StepView>
    decreases j,
{
    if j <= 0 {
        Seq::empty()
    } else {
        (merge_steps(existing, new, j - 1) + evictions(existing, new, j - 1, existing.len() as int)).push(
            StepView::Install(new[j - 1].path),
        )
    }
}

/// The first `m` existing roots that share no path with any new root.
pub open spec fn kept(existing: Seq<RootView>, new: Seq<RootView>, m: int) -> Seq<RootView>
    decreases m,
{
    if m <= 0 {
        Seq::empty()
    } else {
        let rest = kept(existing, new, m - 1);
        if hit_before(existing[m - 1], new, new.len() as int) {
            rest
        } else {
            rest.push(existing[m - 1])
        }
    }
}

/// The snapshot after the merge: the untouched existing roots, then the new ones.
pub open spec fn merged(existing: Seq<RootView>, new: Seq<RootView>) -> Seq<RootView> {
    kept(existing, new, existing.len() as int) + new
}

/// Every root kept from the first `m` existing roots is one of them and
/// shares no path with any new root, and the kept roots stay in their order.
proof fn lemma_kept_from_existing(existing: Seq<RootView>, new: Seq<RootView>, m: int)
    requires
        0 <= m <= existing.len(),
    ensures
        forall|a: int| 0 <= a < kept(existing, new, m).len() ==> exists|p: int| 0 <= p < m && #[trigger] kept(existing, new, m)[a] == existing[p]
            && !hit_before(existing[p], new, new.len() as int),
        forall|a: int, b: int| 0 <= a < b < kept(existing, new, m).len() ==> exists|p: int, q: int| 0 <= p < q < m
            && #[trigger] kept(existing, new, m)[a] == existing[p] && #[trigger] kept(existing, new, m)[b] == existing[q],
    decreases m,
{
    if m > 0 {
        lemma_kept_from_existing(existing, new, m - 1);
        let prev = kept(existing, new, m - 1);
        let cur = kept(existing, new, m);
        if !hit_before(existing[m - 1], new, new.len() as int) {
            assert(cur == prev.push(existing[m - 1]));
            assert forall|a: int| 0 <= a < cur.len() implies exists|p: int| 0 <= p < m && #[trigger] cur[a] == existing[p]
                && !hit_before(existing[p], new, new.len() as int) by {
                if a < prev.len() {
                    assert(cur[a] == prev[a]);
                    let p = choose|p: int| 0 <= p < m - 1 && #[trigger] prev[a] == existing[p]
                        && !hit_before(existing[p], new, new.len() as int);
                    assert(cur[a] == existing[p]);
                } else {
                    assert(cur[a] == existing[m - 1]);
                }
            }
            assert forall|a: int, b: int| 0 <= a < b < cur.len() implies exists|p: int, q: int| 0 <= p < q < m
                && #[trigger] cur[a] == existing[p] && #[trigger] cur[b] == existing[q] by {
                if b < prev.len() {
                    assert(cur[a] == prev[a] && cur[b] == prev[b]);
                    let (p, q) = choose|p: int, q: int| 0 <= p < q < m - 1 && #[trigger] prev[a] == existing[p]
                        && #[trigger] prev[b] == existing[q];
                    assert(cur[a] == existing[p] && cur[b] == existing[q]);
                } else {
                    assert(cur[a] == prev[a]);
                    let p = choose|p: int| 0 <= p < m - 1 && #[trigger] prev[a] == existing[p]
                        && !hit_before(existing[p], new, new.len() as int);
                    assert(cur[b] == existing[m - 1]);
                    assert(cur[a] == existing[p]);
                }
            }
        } else {
            assert(cur == prev);
        }
    }
}

/// Merging keeps the profile's invariant: when no two existing roots share a
/// path and no two new roots do, no two roots of the merged snapshot do.
pub proof fn lemma_merge_keeps_roots_apart(existing: Seq<RootView>, new: Seq<RootView>)
    requires
        cohabit(existing),
        cohabit(new),
    ensures
        cohabit(merged(existing, new)),
{
    let k = kept(existing, new, existing.len() as int);
    let all = merged(existing, new);
    lemma_kept_from_existing(existing, new, existing.len() as int);
    assert forall|i: int, j: int| 0 <= i < j < all.len() implies !overlaps(#[trigger] all[i].footprint, #[trigger] all[j].footprint) by {
        if j < k.len() {
            assert(all[i] == k[i] && all[j] == k[j]);
            let (p, q) = choose|p: int, q: int| 0 <= p < q < existing.len() && #[trigger] k[i] == existing[p]
                && #[trigger] k[j] == existing[q];
            assert(!overlaps(existing[p].footprint, existing[q].footprint));
        } else if i < k.len() {
            assert(all[i] == k[i]);
            assert(all[j] == new[j - k.len()]);
            let p = choose|p: int| 0 <= p < existing.len() && #[trigger] k[i] == existing[p]
                && !hit_before(existing[p], new, new.len() as int);
            assert(!overlaps(existing[p].footprint, new[j - k.len()].footprint));
        } else {
            assert(all[i] == new[i - k.len()]);
            assert(all[j] == new[j - k.len()]);
        }
    }
}

proof fn lemma_step_views_push(v: Seq<ProfileStep>, s: ProfileStep)
    ensures
        step_views(v.push(s)) == step_views(v).push(s@),
{
    assert(step_views(v.push(s)) =~= step_views(v).push(s@));
}

proof fn lemma_root_views_push(v: Seq<PackageRoot>, s: PackageRoot)
    ensures
        root_views(v.push(s)) == root_views(v).push(s@),
{
    assert(root_views(v.push(s)) =~= root_views(v).push(s@));
}

/// A copy of a package root.
fn copy_root(root: &PackageRoot) -> (r: PackageRoot)
    ensures
        r@ == root@,
{
    PackageRoot { path: root.path.clone(), footprint: copy_paths(&root.footprint) }
}

/// The steps and the resulting snapshot of merging new roots into a profile.
pub struct MergePlan {
    /// The operations on the scratch profile, in order.
    pub steps: Vec<ProfileStep>,
    /// The snapshot the scratch profile holds once the steps are done.
    pub profile: Vec<PackageRoot>,
}

/// Installs a set of package roots into a profile.
pub struct NixEnv {
    pub nix_store_path: String,
    pub nss_ca_cert_path: String,
    pub profile: String,
    pub pkgs: Vec<PackageRoot>,
}

impl NixEnv {
    /// Collect all the paths of the new roots, one root after another.
    /// Fails on the first root that shares a path with a root before it,
    /// naming that root and the shared paths.
    pub fn validate_paths_can_cohabitate(&self) -> (r: Result<Vec<String>, ProfileError>)
        ensures
            r is Ok <==> cohabit(root_views(self.pkgs@)),
            r is Ok ==> texts_of(r->Ok_0@) == paths_before(root_views(self.pkgs@), self.pkgs@.len() as int),
            r is Ok && roots_wf(root_views(self.pkgs@)) ==> texts_of(r->Ok_0@).no_duplicates(),
            r is Err ==> r->Err_0 is PathConflict,
            r is Err ==> exists|k: int| {
                &&& 0 <= k < self.pkgs@.len()
                &&& cohabit_before(root_views(self.pkgs@), k)
                &&& #[trigger] root_views(self.pkgs@)[k].path == r->Err_0->PathConflict_0@
                &&& texts_of(r->Err_0->PathConflict_1@) == shared_paths(
                    root_views(self.pkgs@)[k].footprint,
                    paths_before(root_views(self.pkgs@), k),
                )
                &&& r->Err_0->PathConflict_1@.len() > 0
            },
    {
        let ghost roots = root_views(self.pkgs@);
        let mut all_new_paths: Vec<String> = Vec::new();
        let mut i: usize = 0;
        while i < self.pkgs.len()
            invariant
                roots == root_views(self.pkgs@),
                0 <= i <= self.pkgs@.len(),
                texts_of(all_new_paths@) == paths_before(roots, i as int),
                cohabit_before(roots, i as int),
            decreases self.pkgs@.len() - i,
        {
            let pkg = &self.pkgs[i];
            assert(roots[i as int] == pkg@);
            let conflicts = intersection(&pkg.footprint, &all_new_paths);
            if conflicts.len() > 0 {
                proof {
                    let m = choose|m: int| 0 <= m < roots[i as int].footprint.len()
                        && #[trigger] paths_before(roots, i as int).contains(roots[i as int].footprint[m]);
                    let x = roots[i as int].footprint[m];
                    lemma_paths_before(roots, i as int, x);
                    let j = choose|j: int| 0 <= j < i && (#[trigger] roots[j]).footprint.contains(x);
                    let q = choose|q: int| 0 <= q < roots[j].footprint.len() && roots[j].footprint[q] == x;
                    assert(roots[i as int].footprint.contains(roots[j].footprint[q]));
                    assert(overlaps(roots[j].footprint, roots[i as int].footprint));
                    assert(!cohabit(roots));
                }
                let path = pkg.path.clone();
                let ghost k = i as int;
                assert(root_views(self.pkgs@)[k].path == path@);
                assert(texts_of(conflicts@) == shared_paths(root_views(self.pkgs@)[k].footprint, paths_before(root_views(self.pkgs@), k)));
                return Err(ProfileError::PathConflict(path, conflicts));
            }
            proof {
                assert forall|a: int, b: int| 0 <= a < b < i + 1 implies !overlaps(
                    #[trigger] roots[a].footprint,
                    #[trigger] roots[b].footprint,
                ) by {
                    if b == i && overlaps(roots[a].footprint, roots[b].footprint) {
                        let m = choose|m: int| 0 <= m < roots[a].footprint.len() && #[trigger] roots[b].footprint.contains(roots[a].footprint[m]);
                        let x = roots[a].footprint[m];
                        lemma_paths_before(roots, i as int, x);
                        assert(roots[a].footprint.contains(x));
                        assert(paths_before(roots, i as int).contains(x));
                        let p = choose|p: int| 0 <= p < roots[b].footprint.len() && roots[b].footprint[p] == x;
                        assert(paths_before(roots, i as int).contains(roots[i as int].footprint[p]));
                    }
                }
            }
            let mut q: usize = 0;
            let ghost start = all_new_paths@;
            while q < pkg.footprint.len()
                invariant
                    0 <= q <= pkg.footprint@.len(),
                    texts_of(all_new_paths@) == texts_of(start) + texts_of(pkg.footprint@).subrange(0, q as int),
                decreases pkg.footprint@.len() - q,
            {
                let ghost before = all_new_paths@;
                let s = pkg.footprint[q].clone();
                assert(s@ == texts_of(pkg.footprint@)[q as int]);
                all_new_paths.push(s);
                assert(all_new_paths@ == before.push(s));
                proof {
                    lemma_texts_push(before, s);
                }
                assert(texts_of(all_new_paths@) =~= texts_of(start) + texts_of(pkg.footprint@).subrange(0, q + 1));
                q = q + 1;
            }
            assert(texts_of(pkg.footprint@).subrange(0, pkg.footprint@.len() as int) =~= texts_of(pkg.footprint@));
            i = i + 1;
        }
        proof {
            if roots_wf(roots) {
                lemma_paths_before_distinct(roots, roots.len() as int);
            }
        }
        Ok(all_new_paths)
    }

    /// Plan the merge of the new roots into a snapshot holding `existing`:
    /// for each new root in order, evict every existing root that shares a
    /// path with it (and was not evicted already), then add it.
    pub fn plan_merge(&self, existing: &Vec<PackageRoot>) -> (r: MergePlan)
        ensures
            step_views(r.steps@) == merge_steps(root_views(existing@), root_views(self.pkgs@), self.pkgs@.len() as int),
            root_views(r.profile@) == merged(root_views(existing@), root_views(self.pkgs@)),
            roots_wf(root_views(existing@)) && roots_wf(root_views(self.pkgs@)) ==> roots_wf(root_views(r.profile@)),
    {
        let ghost ex = root_views(existing@);
        let ghost new = root_views(self.pkgs@);
        let n = self.pkgs.len();
        let e = existing.len();
        let mut evicted: Vec<bool> = Vec::new();
        let mut m: usize = 0;
        while m < e
            invariant
                0 <= m <= e,
                e == existing@.len(),
                evicted@.len() == m,
                forall|q: int| 0 <= q < m ==> !evicted@[q],
            decreases e - m,
        {
            evicted.push(false);
            m = m + 1;
        }
        let mut steps: Vec<ProfileStep> = Vec::new();
        let mut j: usize = 0;
        while j < n
            invariant
                ex == root_views(existing@),
                new == root_views(self.pkgs@),
                n == self.pkgs@.len(),
                e == existing@.len(),
                0 <= j <= n,
                evicted@.len() == e,
                forall|q: int| 0 <= q < e ==> evicted@[q] == hit_before(#[trigger] ex[q], new, j as int),
                step_views(steps@) == merge_steps(ex, new, j as int),
            decreases n - j,
        {
            let pkg = &self.pkgs[j];
            assert(new[j as int] == pkg@);
            let mut m: usize = 0;
            while m < e
                invariant
                    ex == root_views(existing@),
                    new == root_views(self.pkgs@),
                    n == self.pkgs@.len(),
                    e == existing@.len(),
                    0 <= j < n,
                    0 <= m <= e,
                    new[j as int] == pkg@,
                    evicted@.len() == e,
                    forall|q: int| 0 <= q < m ==> evicted@[q] == hit_before(#[trigger] ex[q], new, j + 1),
                    forall|q: int| m <= q < e ==> evicted@[q] == hit_before(#[trigger] ex[q], new, j as int),
                    step_views(steps@) == merge_steps(ex, new, j as int) + evictions(ex, new, j as int, m as int),
                decreases e - m,
            {
                let root = &existing[m];
                assert(ex[m as int] == root@);
                let shared = intersection(&root.footprint, &pkg.footprint);
                let hit = shared.len() > 0;
                assert(hit == overlaps(ex[m as int].footprint, new[j as int].footprint));
                assert(hit_before(ex[m as int], new, j + 1) == (hit_before(ex[m as int], new, j as int) || hit)) by {
                    if hit {
                        assert(overlaps(ex[m as int].footprint, new[j as int].footprint));
                    }
                    if hit_before(ex[m as int], new, j + 1) && !hit {
                        let j2 = choose|j2: int| 0 <= j2 < j + 1 && overlaps(ex[m as int].footprint, #[trigger] new[j2].footprint);
                        assert(j2 != j);
                    }
                }
                let ghost before = steps@;
                if !evicted[m] && hit {
                    let step = ProfileStep::Uninstall(root.path.clone());
                    steps.push(step);
                    proof {
                        lemma_step_views_push(before, step);
                    }
                    evicted.set(m, true);
                } else if hit {
                    evicted.set(m, true);
                }
                assert(step_views(steps@) =~= merge_steps(ex, new, j as int) + evictions(ex, new, j as int, m + 1));
                m = m + 1;
            }
            let ghost before = steps@;
            let step = ProfileStep::Install(pkg.path.clone());
            steps.push(step);
            proof {
                lemma_step_views_push(before, step);
            }
            assert(step_views(steps@) =~= merge_steps(ex, new, j + 1));
            j = j + 1;
        }
        let mut profile: Vec<PackageRoot> = Vec::new();
        let mut m: usize = 0;
        while m < e
            invariant
                ex == root_views(existing@),
                new == root_views(self.pkgs@),
                n == self.pkgs@.len(),
                e == existing@.len(),
                0 <= m <= e,
                evicted@.len() == e,
                forall|q: int| 0 <= q < e ==> evicted@[q] == hit_before(#[trigger] ex[q], new, n as int),
                root_views(profile@) == kept(ex, new, m as int),
            decreases e - m,
        {
            if !evicted[m] {
                let ghost before = profile@;
                let root = copy_root(&existing[m]);
                assert(root@ == ex[m as int]);
                profile.push(root);
                proof {
                    lemma_root_views_push(before, root);
                }
            }
            m = m + 1;
        }
        let mut j: usize = 0;
        while j < n
            invariant
                ex == root_views(existing@),
                new == root_views(self.pkgs@),
                n == self.pkgs@.len(),
                e == existing@.len(),
                0 <= j <= n,
                root_views(profile@) == kept(ex, new, e as int) + new.subrange(0, j as int),
            decreases n - j,
        {
            let ghost before = profile@;
            let root = copy_root(&self.pkgs[j]);
            assert(root@ == new[j as int]);
            profile.push(root);
            proof {
                lemma_root_views_push(before, root);
            }
            assert(root_views(profile@) =~= kept(ex, new, e as int) + new.subrange(0, j + 1));
            j = j + 1;
        }
        assert(new.subrange(0, n as int) =~= new);
        proof {
            if roots_wf(ex) && roots_wf(new) {
                lemma_kept_from_existing(ex, new, e as int);
                let k = kept(ex, new, e as int);
                let all = root_views(profile@);
                assert forall|i: int| 0 <= i < all.len() implies footprint_wf(#[trigger] all[i]) by {
                    if i < k.len() {
                        let p = choose|p: int| 0 <= p < e && #[trigger] k[i] == ex[p]
                            && !hit_before(ex[p], new, new.len() as int);
                        assert(all[i] == k[i]);
                        assert(footprint_wf(ex[p]));
                    } else {
                        assert(all[i] == new[i - k.len()]);
                        assert(footprint_wf(new[i - k.len()]));
                    }
                }
            }
        }
        MergePlan { steps, profile }
    }
}

} // verus!
