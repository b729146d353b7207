//! The delete planner and the safety validator.

use vstd::prelude::*;
use crate::error::CleanError;
use crate::path::{
    begins, component_count, components, depth, has_parent, has_parent_component, is_under, rows,
    split,
};
use crate::search::{dir_size, SearchEngine, SearchResult, SizeSample};
use crate::text::{copy_texts, texts};

verus! {

/// What a run of deletions did.
#[derive(Debug)]
pub struct DeleteResult {
    pub deleted_files: Vec<String>,
    pub deleted_dirs: Vec<String>,
    /// The files that were not removed, each with the cause.
    pub failed_files: Vec<(String, String)>,
    /// The directories that were not removed, each with the cause.
    pub failed_dirs: Vec<(String, String)>,
    /// The bytes removed, or in a dry run the bytes that would be.
    pub total_size: u64,
}

/// What is to be deleted, in order.
#[derive(Debug)]
pub struct DeletePlan {
    pub files: Vec<String>,
    /// The directories, deepest first.
    pub dirs: Vec<String>,
}

/// A delete plan as plain text.
pub struct DeletePlanView {
    pub files: Seq<Seq<char>>,
    pub dirs: Seq<Seq<char>>,
}

impl View for DeletePlan {
    type V = DeletePlanView;

    open spec fn view(&self) -> DeletePlanView {
        DeletePlanView { files: texts(self.files@), dirs: texts(self.dirs@) }
    }
}

/// The failures of a list, as plain text: each path with its cause.
pub open spec fn failures(v: Seq<(String, String)>) -> Seq<(Seq<char>, Seq<char>)> {
    v.map_values(|f: (String, String)| (f.0@, f.1@))
}

/// A delete result as plain text and numbers.
pub struct DeleteResultView {
    pub deleted_files: Seq<Seq<char>>,
    pub deleted_dirs: Seq<Seq<char>>,
    pub failed_files: Seq<(Seq<char>, Seq<char>)>,
    pub failed_dirs: Seq<(Seq<char>, Seq<char>)>,
    pub total_size: u64,
}

impl View for DeleteResult {
    type V = DeleteResultView;

    open spec fn view(&self) -> DeleteResultView {
        DeleteResultView {
            deleted_files: texts(self.deleted_files@),
            deleted_dirs: texts(self.deleted_dirs@),
            failed_files: failures(self.failed_files@),
            failed_dirs: failures(self.failed_dirs@),
            total_size: self.total_size,
        }
    }
}

/// No directory comes before a deeper one.
pub open spec fn deepest_first(dirs: Seq<Seq<char>>) -> bool {
    forall|i: int, j: int| 0 <= i < j < dirs.len() ==> depth(dirs[i]) >= depth(dirs[j])
}

/// The directories of `dirs` that have depth `d`, in their order.
pub open spec fn at_depth(dirs: Seq<Seq<char>>, d: nat) -> Seq<Seq<char>> {
    dirs.filter(|p: Seq<char>| depth(p) == d)
}

/// `planned` holds the directories of `found`, deepest first, those of
/// equal depth in the order in which they were found.
pub open spec fn is_plan_of(planned: Seq<Seq<char>>, found: Seq<Seq<char>>) -> bool {
    &&& deepest_first(planned)
    &&& forall|d: nat| at_depth(planned, d) == at_depth(found, d)
    &&& planned.to_multiset() == found.to_multiset()
}

/// The system directories that are never deleted, nor anything beneath them.
pub open spec fn protected_roots() -> Seq<Seq<char>> {
    seq!["/usr"@, "/etc"@, "/bin"@, "/sbin"@, "/var"@, "/sys"@, "/proc"@]
}

/// Whether `canonical` is the root directory itself. The root directory
/// is never deleted; what lies beneath it is judged on its own.
pub open spec fn is_root_directory(canonical: Seq<char>) -> bool {
    components(canonical) == components("/"@)
}

/// Whether `canonical` is protected: it is the root directory, or it is a
/// protected system directory or lies beneath one.
pub open spec fn is_protected(canonical: Seq<char>) -> bool {
    is_root_directory(canonical) || exists|i: int|
        0 <= i < protected_roots().len() && is_under(canonical, #[trigger] protected_roots()[i])
}

/// Whether a target may be deleted, given the canonical form of its path,
/// or `None` where the path could not be resolved.
pub open spec fn is_safe(canonical: Option<Seq<char>>) -> bool {
    match canonical {
        None => false,
        Some(c) => !is_protected(c) && !has_parent_component(c),
    }
}

/// What the validator holds against a target, as the text of its error;
/// `None` where the target is safe.
pub open spec fn safety_objection(path: Seq<char>, canonical: Option<Seq<char>>) -> Option<
    Seq<char>,
> {
    match canonical {
        None => Some("Path not found: "@ + path),
        Some(c) => if is_protected(c) {
            Some("Safety check failed: "@ + ("Cannot delete system directory: "@ + c))
        } else if has_parent_component(c) {
            Some("Safety check failed: "@ + "Invalid path: contains '..'"@)
        } else {
            None
        },
    }
}

/// Inserting a directory behind all that are at least as deep and before
/// all that are shallower adds it at the end of those of its depth, and
/// leaves the other depths alone.
proof fn lemma_insert_at_depth(s: Seq<Seq<char>>, k: int, x: Seq<char>, d: nat)
    requires
        0 <= k <= s.len(),
        forall|j: int| k <= j < s.len() ==> depth(s[j]) < depth(x),
    ensures
        at_depth(s.insert(k, x), d) == if depth(x) == d {
            at_depth(s, d).push(x)
        } else {
            at_depth(s, d)
        },
{
    let pred = |p: Seq<char>| depth(p) == d;
    let head = s.take(k);
    let tail = s.skip(k);
    assert(s =~= head + tail);
    assert(s.insert(k, x) =~= head.push(x) + tail);
    Seq::filter_distributes_over_add(head, tail, pred);
    Seq::filter_distributes_over_add(head.push(x), tail, pred);
    head.lemma_filter_push(x, pred);
    if depth(x) == d {
        assert forall|j: int| 0 <= j < tail.len() implies !pred(#[trigger] tail[j]) by {
            assert(tail[j] == s[k + j]);
        }
        tail.lemma_all_neg_filter_empty(pred);
        assert(head.filter(pred).push(x) + tail.filter(pred) =~= (head.filter(pred)
            + tail.filter(pred)).push(x));
    }
}

/// The directories of one depth in a list that begins with `first`.
proof fn lemma_at_depth_of_head(s: Seq<Seq<char>>, d: nat)
    requires
        s.len() > 0,
    ensures
        at_depth(s, d) == if depth(s[0]) == d {
            seq![s[0]] + at_depth(s.skip(1), d)
        } else {
            at_depth(s.skip(1), d)
        },
{
    let pred = |p: Seq<char>| depth(p) == d;
    let head = Seq::<Seq<char>>::empty().push(s[0]);
    assert(s =~= head + s.skip(1));
    Seq::filter_distributes_over_add(head, s.skip(1), pred);
    Seq::<Seq<char>>::empty().lemma_filter_push(s[0], pred);
    assert(Seq::<Seq<char>>::empty().filter(pred) =~= Seq::<Seq<char>>::empty()) by {
        reveal(Seq::filter);
    }
    if depth(s[0]) == d {
        assert(head.filter(pred) =~= seq![s[0]]);
    } else {
        assert(head.filter(pred) + s.skip(1).filter(pred) =~= s.skip(1).filter(pred));
    }
}

/// Two lists that are both deepest first, equally long, and hold the same
/// directories in the same order at every depth, are the same list.
proof fn lemma_same_order(a: Seq<Seq<char>>, b: Seq<Seq<char>>)
    requires
        deepest_first(a),
        deepest_first(b),
        a.len() == b.len(),
        forall|d: nat| at_depth(a, d) == at_depth(b, d),
    ensures
        a == b,
    decreases a.len(),
{
    if a.len() == 0 {
        assert(a =~= b);
    } else {
        let da = depth(a[0]);
        let db = depth(b[0]);
        lemma_at_depth_of_head(a, da);
        lemma_at_depth_of_head(b, da);
        lemma_at_depth_of_head(a, db);
        lemma_at_depth_of_head(b, db);
        if da != db {
            // The head of one list is found, at its depth, further down the other,
            // which is deepest first: so neither head is deeper than the other.
            let fa = at_depth(a, da);
            assert(fa[0] == a[0]);
            assert(at_depth(b.skip(1), da).contains(fa[0]));
            b.skip(1).lemma_filter_contains_rev(|p: Seq<char>| depth(p) == da, a[0]);
            let j = choose|j: int| 0 <= j < b.skip(1).len() && b.skip(1)[j] == a[0];
            assert(b[j + 1] == a[0]);
            let fb = at_depth(b, db);
            assert(fb[0] == b[0]);
            assert(at_depth(a.skip(1), db).contains(fb[0]));
            a.skip(1).lemma_filter_contains_rev(|p: Seq<char>| depth(p) == db, b[0]);
            let k = choose|k: int| 0 <= k < a.skip(1).len() && a.skip(1)[k] == b[0];
            assert(a[k + 1] == b[0]);
            assert(false);
        }
        assert(at_depth(a, da)[0] == a[0]);
        assert(at_depth(b, da)[0] == b[0]);
        assert(a[0] == b[0]);
        assert forall|d: nat| at_depth(a.skip(1), d) == at_depth(b.skip(1), d) by {
            lemma_at_depth_of_head(a, d);
            lemma_at_depth_of_head(b, d);
            if da == d {
                let x = seq![a[0]];
                assert(at_depth(a.skip(1), d) =~= (x + at_depth(a.skip(1), d)).skip(1));
                assert(at_depth(b.skip(1), d) =~= (x + at_depth(b.skip(1), d)).skip(1));
            }
        }
        assert forall|i: int, j: int| 0 <= i < j < a.skip(1).len() implies depth(a.skip(1)[i])
            >= depth(a.skip(1)[j]) by {
            assert(depth(a[i + 1]) >= depth(a[j + 1]));
        }
        assert forall|i: int, j: int| 0 <= i < j < b.skip(1).len() implies depth(b.skip(1)[i])
            >= depth(b.skip(1)[j]) by {
            assert(depth(b[i + 1]) >= depth(b[j + 1]));
        }
        lemma_same_order(a.skip(1), b.skip(1));
        assert(a =~= seq![a[0]] + a.skip(1));
        assert(b =~= seq![b[0]] + b.skip(1));
    }
}

/// What was found has exactly one plan: deepest first, with the order in
/// which directories of equal depth were found, leaves no choice.
pub proof fn lemma_plan_is_unique(a: Seq<Seq<char>>, b: Seq<Seq<char>>, found: Seq<Seq<char>>)
    requires
        is_plan_of(a, found),
        is_plan_of(b, found),
    ensures
        a == b,
{
    vstd::seq_lib::to_multiset_len(a);
    vstd::seq_lib::to_multiset_len(b);
    vstd::seq_lib::to_multiset_len(found);
    lemma_same_order(a, b);
}

/// Whatever is, or lies beneath, a protected system directory is never
/// safe to delete. Nothing about a run can change that: the list is fixed.
pub proof fn lemma_protected_is_rejected(canonical: Seq<char>, root: int)
    requires
        0 <= root < protected_roots().len(),
        is_under(canonical, protected_roots()[root]),
    ensures
        !is_safe(Some(canonical)),
        safety_objection(canonical, Some(canonical)) is Some,
{
}

/// The root directory is never safe to delete, however its path is written.
pub proof fn lemma_root_directory_is_rejected(canonical: Seq<char>)
    requires
        is_root_directory(canonical),
    ensures
        !is_safe(Some(canonical)),
        !is_safe(Some("/"@)),
{
}

/// What is not the root directory, is neither a protected system
/// directory nor beneath one, and has no `..` left in it, is safe to
/// delete.
pub proof fn lemma_unprotected_is_accepted(path: Seq<char>, canonical: Seq<char>)
    requires
        !is_root_directory(canonical),
        forall|i: int|
            0 <= i < protected_roots().len() ==> !is_under(canonical, #[trigger] protected_roots()[i]),
        !has_parent_component(canonical),
    ensures
        is_safe(Some(canonical)),
        safety_objection(path, Some(canonical)) is None,
{
}

/// The names of the protected system directories.
pub open spec fn protected_names() -> Seq<Seq<char>> {
    seq!["usr"@, "etc"@, "bin"@, "sbin"@, "var"@, "sys"@, "proc"@]
}

/// A path whose second component is not `name` does not lie under the
/// directory of that name at the root.
proof fn lemma_not_under_rooted_name(canonical: Seq<char>, root: Seq<char>, name: Seq<char>)
    requires
        root == seq!['/'] + name,
        crate::path::is_name(name),
        forall|i: int| 0 <= i < name.len() ==> name[i] != '/',
        components(canonical).len() >= 2,
        components(canonical)[1] != name,
    ensures
        !is_under(canonical, root),
{
    crate::path::lemma_rooted_name(name);
    if is_under(canonical, root) {
        assert(components(canonical).subrange(0, 2)[1] == components(root)[1]);
    }
}

/// A resolved path in a directory of its own is safe to delete: if the
/// directory at the root in which it lies is none of the protected ones,
/// and no `..` is left in it, the validator accepts it. So everything in
/// a working directory under `/tmp` or `/home` can be removed.
pub proof fn lemma_outside_system_directories_is_accepted(canonical: Seq<char>)
    requires
        components(canonical).len() >= 2,
        forall|i: int|
            0 <= i < protected_names().len() ==> components(canonical)[1] != protected_names()[i],
        !has_parent_component(canonical),
    ensures
        is_safe(Some(canonical)),
{
    reveal_strlit("/");
    reveal_strlit("/usr");
    reveal_strlit("/etc");
    reveal_strlit("/bin");
    reveal_strlit("/sbin");
    reveal_strlit("/var");
    reveal_strlit("/sys");
    reveal_strlit("/proc");
    reveal_strlit("usr");
    reveal_strlit("etc");
    reveal_strlit("bin");
    reveal_strlit("sbin");
    reveal_strlit("var");
    reveal_strlit("sys");
    reveal_strlit("proc");
    assert("/"@ =~= seq!['/']);
    crate::path::lemma_root_alone();
    let names = protected_names();
    let roots = protected_roots();
    assert forall|i: int| 0 <= i < roots.len() implies !is_under(
        canonical,
        #[trigger] roots[i],
    ) by {
        assert(components(canonical)[1] != names[i]);
        assert(roots[i] =~= seq!['/'] + names[i]);
        lemma_not_under_rooted_name(canonical, roots[i], names[i]);
    }
}

/// A path that could not be resolved is never safe to delete.
pub proof fn lemma_unresolved_is_rejected(path: Seq<char>)
    ensures
        !is_safe(None),
        safety_objection(path, None) == Some("Path not found: "@ + path),
{
}

/// The planner and the validator.
pub struct DeleteEngine;

impl DeleteEngine {
    /// Adds up the size of a directory that is about to be removed, as the
    /// search does for one that it matched.
    pub fn calculate_dir_size(samples: &[SizeSample]) -> (total: u64)
        requires
            dir_size(samples@) <= u64::MAX,
        ensures
            total == dir_size(samples@),
    {
        SearchEngine::calculate_dir_size(samples)
    }

    /// Turns what a search found into a plan: the files as they are, the
    /// directories deepest first, those of equal depth in their order.
    pub fn create_delete_plan(search_result: &SearchResult) -> (plan: DeletePlan)
        ensures
            plan@.files == search_result@.files,
            is_plan_of(plan@.dirs, search_result@.folders),
    {
        let files = copy_texts(&search_result.files);
        let mut dirs: Vec<String> = Vec::new();
        let mut depths: Vec<usize> = Vec::new();
        let ghost found = texts(search_result.folders@);
        let mut i: usize = 0;
        assert(found.take(0) =~= Seq::<Seq<char>>::empty());
        assert(texts(dirs@) =~= Seq::<Seq<char>>::empty());
        assert forall|d: nat| at_depth(texts(dirs@), d) == at_depth(found.take(0), d) by {}
        while i < search_result.folders.len()
            invariant
                i <= search_result.folders.len(),
                found == texts(search_result.folders@),
                depths.len() == dirs.len(),
                forall|j: int| 0 <= j < dirs.len() ==> depths@[j] == depth(#[trigger] dirs@[j]@),
                deepest_first(texts(dirs@)),
                forall|d: nat| at_depth(texts(dirs@), d) == at_depth(found.take(i as int), d),
                texts(dirs@).to_multiset() == found.take(i as int).to_multiset(),
            decreases search_result.folders.len() - i,
        {
            let dir = search_result.folders[i].clone();
            let own = component_count(dir.as_str());
            let mut k: usize = 0;
            while k < dirs.len() && depths[k] >= own
                invariant
                    k <= dirs.len(),
                    depths.len() == dirs.len(),
                    forall|j: int|
                        0 <= j < dirs.len() ==> depths@[j] == depth(#[trigger] dirs@[j]@),
                    forall|j: int| 0 <= j < k ==> depths@[j] >= own,
                decreases dirs.len() - k,
            {
                k += 1;
            }
            let ghost before = texts(dirs@);
            let ghost x = dir@;
            proof {
                assert forall|j: int| k <= j < before.len() implies depth(before[j]) < depth(
                    x,
                ) by {
                    assert(depth(before[j]) <= depth(before[k as int]));
                }
                assert(found.take(i + 1) =~= found.take(i as int).push(x));
                assert forall|d: nat|
                    at_depth(before.insert(k as int, x), d) == at_depth(
                        found.take(i + 1),
                        d,
                    ) by {
                    lemma_insert_at_depth(before, k as int, x, d);
                    found.take(i as int).lemma_filter_push(x, |p: Seq<char>| depth(p) == d);
                }
                vstd::seq_lib::to_multiset_insert(before, k as int, x);
                vstd::seq_lib::to_multiset_build(found.take(i as int), x);
            }
            dirs.insert(k, dir);
            depths.insert(k, own);
            proof {
                assert(texts(dirs@) =~= before.insert(k as int, x));
                assert forall|a: int, b: int| 0 <= a < b < dirs.len() implies depth(
                    texts(dirs@)[a],
                ) >= depth(texts(dirs@)[b]) by {
                    let ka = k as int;
                    if a < ka && b < ka {
                        assert(depth(before[a]) >= depth(before[b]));
                    } else if a < ka && b == ka {
                        assert(depths@[a] >= own);
                    } else if a < ka && b > ka {
                        assert(depth(before[a]) >= depth(before[b - 1]));
                    } else if a == ka {
                        assert(depth(before[b - 1]) < depth(x));
                    } else {
                        assert(depth(before[a - 1]) >= depth(before[b - 1]));
                    }
                }
            }
            i += 1;
        }
        assert(found.take(i as int) =~= found);
        DeletePlan { files, dirs }
    }

    fn protects(parts: &Vec<Vec<char>>, Ghost(canonical): Ghost<Seq<char>>) -> (yes: bool)
        requires
            rows(parts@) == components(canonical),
        ensures
            yes == is_protected(canonical),
    {
        let root = split("/");
        let is_root = root.len() == parts.len() && begins(&root, parts);
        proof {
            if is_root {
                assert(rows(root@) =~= rows(parts@));
            }
            if rows(root@) == rows(parts@) {
                assert(rows(root@) =~= rows(parts@).subrange(0, root.len() as int));
            }
        }
        if is_root {
            return true;
        }
        let ghost roots = protected_roots();
        let yes = begins(&split("/usr"), parts) || begins(&split("/etc"), parts) || begins(
            &split("/bin"),
            parts,
        ) || begins(&split("/sbin"), parts) || begins(&split("/var"), parts) || begins(
            &split("/sys"),
            parts,
        ) || begins(&split("/proc"), parts);
        proof {
            if yes {
                let i = if is_under(canonical, roots[0]) {
                    0int
                } else if is_under(canonical, roots[1]) {
                    1
                } else if is_under(canonical, roots[2]) {
                    2
                } else if is_under(canonical, roots[3]) {
                    3
                } else if is_under(canonical, roots[4]) {
                    4
                } else if is_under(canonical, roots[5]) {
                    5
                } else {
                    6
                };
                assert(is_under(canonical, protected_roots()[i]));
            }
        }
        yes
    }

    /// Validates one deletion target, right before it is removed. `canonical`
    /// is the canonical form of `path`, or `None` where the path could not
    /// be resolved.
    ///
    /// A path that cannot be resolved is not found. A canonical path is
    /// rejected if it is the root directory, if it is a protected system
    /// directory or lies beneath one, or if it still has a `..` component.
    /// Every other resolved path is accepted.
    pub fn check_safety(path: &str, canonical: Option<&str>) -> (verdict: Result<(), CleanError>)
        ensures
            verdict is Ok <==> is_safe(
                match canonical {
                    Some(c) => Some(c@),
                    None => None,
                },
            ),
            canonical is None ==> (verdict matches Err(CleanError::PathNotFound(p)) && p@
                == path@),
            canonical is Some && verdict is Err ==> verdict->Err_0 is SafetyRejected,
            verdict matches Err(e) ==> Some(e.text()) == safety_objection(
                path@,
                match canonical {
                    Some(c) => Some(c@),
                    None => None,
                },
            ),
    {
        match canonical {
            None => Err(CleanError::PathNotFound(path.to_owned())),
            Some(c) => {
                let parts = split(c);
                if Self::protects(&parts, Ghost(c@)) {
                    let detail = "Cannot delete system directory: ".to_owned().concat(c);
                    Err(CleanError::SafetyRejected(detail))
                } else if has_parent(c) {
                    Err(CleanError::SafetyRejected("Invalid path: contains '..'".to_owned()))
                } else {
                    Ok(())
                }
            },
        }
    }
}

} // verus!
