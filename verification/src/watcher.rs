//! Which file-system changes inside a repository's git directory deserve a status refresh.
//!
//! Paths are Unix paths: components are separated by `/`, empty and `.` components are
//! ignored, and a leading `/` is the root component.
use vstd::prelude::*;
use crate::state::contains_str;
use crate::text::{chars_of, str_eq, string_from_chars};

verus! {

/// The pieces of `s` between `/` separators (empty pieces included).
pub open spec fn split_slash(s: Seq<char>) -> Seq<Seq<char>>
    decreases s.len(),
{
    if s.len() == 0 {
        seq![Seq::empty()]
    } else {
        let r = split_slash(s.drop_last());
        if s.last() == '/' {
            r.push(Seq::empty())
        } else {
            r.update(r.len() - 1, r.last().push(s.last()))
        }
    }
}

pub proof fn lemma_split_slash_nonempty(s: Seq<char>)
    ensures
        split_slash(s).len() >= 1,
    decreases s.len(),
{
    if s.len() > 0 {
        lemma_split_slash_nonempty(s.drop_last());
    }
}

/// A piece that is a real component: not empty and not `.`.
pub open spec fn keep_part() -> spec_fn(Seq<char>) -> bool {
    |p: Seq<char>| p.len() > 0 && p != "."@
}

/// The components of a path: the root `/` when the path is absolute, then the non-empty
/// pieces between separators other than `.`.
pub open spec fn components(s: Seq<char>) -> Seq<Seq<char>> {
    (if s.len() > 0 && s[0] == '/' { seq!["/"@] } else { Seq::empty() }) + split_slash(s).filter(keep_part())
}

/// The final component when it names a file or directory (not the root, not `..`);
/// empty otherwise.
pub open spec fn file_name(s: Seq<char>) -> Seq<char> {
    let c = components(s);
    if c.len() == 0 || c.last() == "/"@ || c.last() == ".."@ {
        Seq::empty()
    } else {
        c.last()
    }
}

/// Index of the last `.` in `s`.
pub open spec fn last_dot(s: Seq<char>) -> Option<nat>
    decreases s.len(),
{
    if s.len() == 0 {
        None
    } else if s.last() == '.' {
        Some((s.len() - 1) as nat)
    } else {
        last_dot(s.drop_last())
    }
}

/// The extension of a file name: what follows its last `.`, unless that dot is the first
/// character (hidden files like `.git` have none); empty when there is none.
pub open spec fn extension(name: Seq<char>) -> Seq<char> {
    match last_dot(name) {
        Some(i) => if i > 0 { name.skip(i + 1 as int) } else { Seq::empty() },
        None => Seq::empty(),
    }
}

/// The decision for a path that may lie inside `git_dir`.
pub open spec fn git_path_relevant(path: Seq<char>, git_dir: Seq<char>) -> bool {
    let pc = components(path);
    let gc = components(git_dir);
    if pc == gc {
        true
    } else if !(gc.len() <= pc.len() && pc.take(gc.len() as int) == gc) {
        false
    } else {
        let parts = pc.skip(gc.len() as int);
        let top = parts[0];
        let name = file_name(path);
        let ext = extension(name);
        if parts.len() == 0 {
            false
        } else if top == "objects"@ {
            false
        } else if ext == "lock"@ || ext == "cache"@ {
            false
        } else if top == "hooks"@ || top == "modules"@ {
            false
        } else if parts == seq!["packed-refs"@] {
            false
        } else if name == "sourcetreeconfig"@ {
            false
        } else if name == "COMMIT_EDITMSG"@ || name == "PREPARE_COMMIT_MSG"@ || name == "GIT_COLA_MSG"@ {
            false
        } else if parts.contains("lfs"@) && parts.contains("tmp"@) {
            false
        } else {
            true
        }
    }
}

/// The components of a path.
pub fn path_components(s: &str) -> (res: Vec<String>)
    ensures
        res@.map_values(|c: String| c@) == components(s@),
{
    let cs = chars_of(s);
    let mut done: Vec<String> = Vec::new();
    let ghost mut pieces: Seq<Seq<char>> = Seq::empty();
    let mut cur: Vec<char> = Vec::new();
    let mut i: usize = 0;
    while i < cs.len()
        invariant
            cs@ == s@,
            i <= cs.len(),
            split_slash(cs@.take(i as int)) == pieces.push(cur@),
            done@.map_values(|c: String| c@) == pieces.filter(keep_part()),
        decreases cs.len() - i,
    {
        let c = cs[i];
        assert(cs@.take(i + 1).drop_last() =~= cs@.take(i as int));
        assert(cs@.take(i + 1).last() == c);
        if c == '/' {
            let part = string_from_chars(cur.as_slice());
            let keep = part.unicode_len() > 0 && !str_eq(part.as_str(), ".");
            let ghost before = done@.map_values(|c: String| c@);
            proof {
                pieces.lemma_filter_push(cur@, keep_part());
            }
            if keep {
                done.push(part);
                assert(done@.map_values(|c: String| c@) =~= before.push(cur@));
            }
            proof {
                pieces = pieces.push(cur@);
            }
            cur = Vec::new();
            assert(split_slash(cs@.take(i + 1)) =~= pieces.push(cur@));
        } else {
            let ghost before_cur = cur@;
            cur.push(c);
            assert(split_slash(cs@.take(i + 1)) =~= pieces.push(cur@));
        }
        i += 1;
    }
    assert(cs@.take(i as int) =~= cs@);
    let part = string_from_chars(cur.as_slice());
    let keep = part.unicode_len() > 0 && !str_eq(part.as_str(), ".");
    let ghost before = done@.map_values(|c: String| c@);
    proof {
        pieces.lemma_filter_push(cur@, keep_part());
    }
    if keep {
        done.push(part);
        assert(done@.map_values(|c: String| c@) =~= before.push(cur@));
    }
    let mut res: Vec<String> = Vec::new();
    if cs.len() > 0 && cs[0] == '/' {
        res.push(String::from_str("/"));
    }
    let ghost head = res@.map_values(|c: String| c@);
    let mut k: usize = 0;
    while k < done.len()
        invariant
            k <= done.len(),
            res@.map_values(|c: String| c@) == head + done@.map_values(|c: String| c@).take(k as int),
        decreases done.len() - k,
    {
        let d = done[k].clone();
        let ghost prev = res@.map_values(|c: String| c@);
        res.push(d);
        assert(res@.map_values(|c: String| c@) =~= prev.push(done@[k as int]@));
        k += 1;
        assert(res@.map_values(|c: String| c@) =~= head + done@.map_values(|c: String| c@).take(k as int));
    }
    assert(done@.map_values(|c: String| c@).take(k as int) =~= done@.map_values(|c: String| c@));
    assert(res@.map_values(|c: String| c@) =~= components(s@));
    res
}

pub open spec fn views(v: Seq<String>) -> Seq<Seq<char>> {
    v.map_values(|c: String| c@)
}

/// Whether `a[..b.len()]` equals `b` (and `b` is no longer than `a`).
fn starts_with_parts(a: &Vec<String>, b: &Vec<String>) -> (res: bool)
    ensures
        res == (b@.len() <= a@.len() && views(a@).take(b@.len() as int) == views(b@)),
{
    if b.len() > a.len() {
        return false;
    }
    let mut i: usize = 0;
    while i < b.len()
        invariant
            b@.len() <= a@.len(),
            i <= b.len(),
            forall|j: int| 0 <= j < i ==> views(a@)[j] == views(b@)[j],
        decreases b.len() - i,
    {
        if !str_eq(a[i].as_str(), b[i].as_str()) {
            assert(views(a@).take(b@.len() as int)[i as int] != views(b@)[i as int]);
            return false;
        }
        i += 1;
    }
    assert(views(a@).take(b@.len() as int) =~= views(b@));
    true
}

/// The extension of a file name (see `extension`).
fn extension_of(name: &str) -> (res: String)
    ensures
        res@ == extension(name@),
{
    let cs = chars_of(name);
    let mut i: usize = cs.len();
    assert(cs@.take(i as int) =~= cs@);
    while i > 0
        invariant
            cs@ == name@,
            i <= cs.len(),
            last_dot(cs@) == last_dot(cs@.take(i as int)),
        decreases i,
    {
        assert(cs@.take(i as int).last() == cs@[i - 1]);
        assert(cs@.take(i as int).drop_last() =~= cs@.take(i - 1));
        if cs[i - 1] == '.' {
            if i - 1 > 0 {
                let mut out: Vec<char> = Vec::new();
                let mut k: usize = i;
                while k < cs.len()
                    invariant
                        i <= k <= cs.len(),
                        out@ == cs@.subrange(i as int, k as int),
                    decreases cs.len() - k,
                {
                    out.push(cs[k]);
                    k += 1;
                    assert(out@ =~= cs@.subrange(i as int, k as int));
                }
                assert(cs@.subrange(i as int, k as int) =~= cs@.skip(i as int));
                return string_from_chars(out.as_slice());
            }
            return String::new();
        }
        i -= 1;
    }
    assert(cs@.take(0) =~= Seq::<char>::empty());
    String::new()
}

/// Decide whether a change to `path` inside the git directory `git_dir` is relevant.
///
/// The git directory itself is relevant (a coalesced directory-level event); paths outside
/// it are not.  Inside it, changes are ignored in the object database (`objects/`), to
/// lock and cache files (`*.lock`, `*.cache`), in `hooks/` and `modules/`, to
/// `packed-refs`, to `sourcetreeconfig`, to commit-message drafts (`COMMIT_EDITMSG`,
/// `PREPARE_COMMIT_MSG`, `GIT_COLA_MSG`) and under git-lfs temporary paths (`lfs/.../tmp`).
/// Everything else (HEAD, index, refs, rebase state, config, ...) is relevant.
pub fn is_relevant_git_path(path: &str, git_dir: &str) -> (res: bool)
    ensures
        res == git_path_relevant(path@, git_dir@),
{
    let pc = path_components(path);
    let gc = path_components(git_dir);
    assert(views(pc@) == components(path@));
    let ghost pcv = components(path@);
    let ghost gcv = components(git_dir@);
    let same = pc.len() == gc.len() && starts_with_parts(&pc, &gc);
    if same {
        assert(views(pc@) =~= views(pc@).take(gc@.len() as int));
        return true;
    }
    proof {
        if pcv == gcv {
            assert(views(pc@).take(gc@.len() as int) =~= views(pc@));
        }
    }
    if !starts_with_parts(&pc, &gc) {
        return false;
    }
    let ghost parts = pcv.skip(gcv.len() as int);
    let mut rel: Vec<String> = Vec::new();
    let mut k: usize = gc.len();
    while k < pc.len()
        invariant
            gc@.len() <= k <= pc@.len(),
            views(rel@) == views(pc@).subrange(gc@.len() as int, k as int),
        decreases pc.len() - k,
    {
        let c = pc[k].clone();
        let ghost prev = views(rel@);
        rel.push(c);
        assert(views(rel@) =~= prev.push(pc@[k as int]@));
        k += 1;
        assert(views(rel@) =~= views(pc@).subrange(gc@.len() as int, k as int));
    }
    assert(views(rel@) =~= parts);
    if rel.len() == 0 {
        assert(pcv =~= gcv);
        return false;
    }
    // the file name: the last component unless it is the root or `..`
    let name = {
        let last = &pc[pc.len() - 1];
        if str_eq(last.as_str(), "/") || str_eq(last.as_str(), "..") {
            String::new()
        } else {
            last.clone()
        }
    };
    assert(name@ == file_name(path@));
    let ext = extension_of(name.as_str());
    let top = rel[0].as_str();
    if str_eq(top, "objects") {
        return false;
    }
    if str_eq(ext.as_str(), "lock") || str_eq(ext.as_str(), "cache") {
        return false;
    }
    if str_eq(top, "hooks") || str_eq(top, "modules") {
        return false;
    }
    if rel.len() == 1 && str_eq(rel[0].as_str(), "packed-refs") {
        assert(parts =~= seq!["packed-refs"@]);
        return false;
    }
    proof {
        if parts == seq!["packed-refs"@] {
            assert(parts.len() == 1);
            assert(parts[0] == "packed-refs"@);
        }
    }
    if str_eq(name.as_str(), "sourcetreeconfig") {
        return false;
    }
    if str_eq(name.as_str(), "COMMIT_EDITMSG") || str_eq(name.as_str(), "PREPARE_COMMIT_MSG")
        || str_eq(name.as_str(), "GIT_COLA_MSG") {
        return false;
    }
    if contains_str(&rel, "lfs") && contains_str(&rel, "tmp") {
        return false;
    }
    true
}

/// Decide whether a change to `path` in the working tree rooted at `repo_root` is
/// relevant: not the root itself, not a `.DS_Store` or `__pycache__` entry, and not
/// ignored by git (`ignored` is what git reported for the path; `false` when no
/// repository could be opened).
pub fn is_relevant_worktree_path(path: &str, repo_root: &str, ignored: bool) -> (res: bool)
    ensures
        res == (components(path@) != components(repo_root@) && file_name(path@) != ".DS_Store"@
            && file_name(path@) != "__pycache__"@ && !ignored),
{
    let pc = path_components(path);
    let rc = path_components(repo_root);
    let same = pc.len() == rc.len() && starts_with_parts(&pc, &rc);
    proof {
        if same {
            assert(views(pc@) =~= views(pc@).take(rc@.len() as int));
        }
        if components(path@) == components(repo_root@) {
            assert(views(pc@).take(rc@.len() as int) =~= views(pc@));
        }
    }
    if same {
        return false;
    }
    let name = if pc.len() == 0 {
        String::new()
    } else {
        let last = &pc[pc.len() - 1];
        if str_eq(last.as_str(), "/") || str_eq(last.as_str(), "..") {
            String::new()
        } else {
            last.clone()
        }
    };
    assert(name@ == file_name(path@));
    if str_eq(name.as_str(), ".DS_Store") || str_eq(name.as_str(), "__pycache__") {
        return false;
    }
    !ignored
}

/// Decide whether a change to `path` matters for the repository rooted at `repo_root`
/// with git directory `git_dir`: a path whose components begin with the git
/// directory's is judged by `is_relevant_git_path`, any other by
/// `is_relevant_worktree_path` (`ignored` is what git reports for it).
pub fn is_relevant_path(path: &str, repo_root: &str, git_dir: &str, ignored: bool) -> (res: bool)
    ensures
        res == (if components(git_dir@).len() <= components(path@).len()
            && components(path@).take(components(git_dir@).len() as int) == components(git_dir@) {
            git_path_relevant(path@, git_dir@)
        } else {
            components(path@) != components(repo_root@) && file_name(path@) != ".DS_Store"@
                && file_name(path@) != "__pycache__"@ && !ignored
        }),
{
    let pc = path_components(path);
    let gc = path_components(git_dir);
    if starts_with_parts(&pc, &gc) {
        is_relevant_git_path(path, git_dir)
    } else {
        is_relevant_worktree_path(path, repo_root, ignored)
    }
}

/// How long a relevant change must stay quiet before it is reported, in milliseconds.
pub const DEBOUNCE_MS: u64 = 500;
/// Without pending changes, how often the git state files are checked, in milliseconds.
pub const FALLBACK_POLL_MS: u64 = 2000;

/// How long to wait for the next file-system event, in milliseconds: what is left of
/// the debounce window after a pending relevant change (nothing once it has passed; the
/// whole window for a change stamped after `now`), else the polling interval.
pub open spec fn spec_wait_ms(pending_since: Option<u64>, now: u64) -> u64 {
    match pending_since {
        Some(t) => if now < t {
            DEBOUNCE_MS
        } else if now - t >= DEBOUNCE_MS {
            0
        } else {
            (DEBOUNCE_MS - (now - t)) as u64
        },
        None => FALLBACK_POLL_MS,
    }
}

/// See `spec_wait_ms`.
pub fn wait_ms(pending_since: Option<u64>, now: u64) -> (res: u64)
    ensures
        res == spec_wait_ms(pending_since, now),
{
    match pending_since {
        Some(t) => if now < t {
            DEBOUNCE_MS
        } else if now - t >= DEBOUNCE_MS {
            0
        } else {
            DEBOUNCE_MS - (now - t)
        },
        None => FALLBACK_POLL_MS,
    }
}

/// What the watcher does when no event came in time.
#[derive(Debug, Clone, Copy, PartialEq, Eq, Structural)]
pub enum QuietStep {
    /// Report the repository as changed and forget the pending change.
    Report,
    /// Check the git state files' modification times.
    Poll,
    /// Keep waiting.
    Wait,
}

/// A pending change whose debounce window has passed is reported; without a pending
/// change the git state files are polled; otherwise the watcher keeps waiting.
pub open spec fn spec_on_quiet(pending_since: Option<u64>, now: u64) -> QuietStep {
    match pending_since {
        Some(t) => if now >= t && now - t >= DEBOUNCE_MS { QuietStep::Report } else { QuietStep::Wait },
        None => QuietStep::Poll,
    }
}

/// See `spec_on_quiet`.
pub fn on_quiet(pending_since: Option<u64>, now: u64) -> (res: QuietStep)
    ensures
        res == spec_on_quiet(pending_since, now),
{
    match pending_since {
        Some(t) => if now >= t && now - t >= DEBOUNCE_MS { QuietStep::Report } else { QuietStep::Wait },
        None => QuietStep::Poll,
    }
}

/// Whether a polled modification time means a change: the first one seen is only
/// recorded, a later one that differs from the last is a change.
pub open spec fn spec_mtime_changed(last: Option<(u64, u32)>, seen: (u64, u32)) -> bool {
    match last {
        Some(p) => p != seen,
        None => false,
    }
}

/// See `spec_mtime_changed`.
pub fn mtime_changed(last: Option<(u64, u32)>, seen: (u64, u32)) -> (res: bool)
    ensures
        res == spec_mtime_changed(last, seen),
{
    match last {
        Some(p) => p.0 != seen.0 || p.1 != seen.1,
        None => false,
    }
}

} // verus!
