//! Laws of reading a repository's state and of the watcher's filter, stated over git2's
//! status bits and over path components.
use vstd::prelude::*;
use crate::git::FileStatusKind;
use crate::scan::{entry_files, file_key, kind_count, lemma_kind_count_concat, listed_files, merged_kept, priority_char, remote_only_kept, spec_branch_label, strip_remote, HeadState};
use crate::order::sort_by_key;
use crate::state::sorted_repos;
use crate::watcher::{components, extension, file_name, git_path_relevant, last_dot, spec_mtime_changed, spec_on_quiet, spec_wait_ms, QuietStep};
use crate::text::{has_suffix, lex_le};

verus! {

/// The number of status entries that git reports as conflicted (`CONFLICTED`, 0x8000).
pub open spec fn conflicted_entries(e: Seq<(Option<Seq<char>>, u32)>) -> nat
    decreases e.len(),
{
    if e.len() == 0 {
        0
    } else {
        conflicted_entries(e.drop_last()) + if e.last().1 & 0x8000u32 != 0 { 1nat } else { 0nat }
    }
}

/// The number of status entries that are not conflicted and have a bit of `mask` set.
pub open spec fn unconflicted_with(e: Seq<(Option<Seq<char>>, u32)>, mask: u32) -> nat
    decreases e.len(),
{
    if e.len() == 0 {
        0
    } else {
        unconflicted_with(e.drop_last(), mask) + if e.last().1 & 0x8000u32 == 0 && e.last().1 & mask != 0 {
            1nat
        } else {
            0nat
        }
    }
}

/// `kind_count` of a list of at most one file.
proof fn lemma_count_one(c: bool, x: (Seq<char>, FileStatusKind), k: FileStatusKind)
    ensures
        kind_count(if c { seq![x] } else { Seq::empty() }, k) == if c && x.1 == k { 1nat } else { 0nat },
{
    let e = Seq::<(Seq<char>, FileStatusKind)>::empty();
    assert(kind_count(e, k) == 0);
    if c {
        let s = seq![x];
        assert(s.drop_last() =~= e);
        assert(s.last() == x);
        assert(kind_count(s, k) == kind_count(s.drop_last(), k) + if s.last().1 == k { 1nat } else { 0nat });
    }
}

/// The files of one entry: a conflicted entry is listed once, as a conflict; any other
/// is listed once as staged when an index bit (0x1f) is set, once as untracked for
/// `WT_NEW` (0x80), once as modified for `WT_MODIFIED` or `WT_TYPECHANGE` (0x500) and
/// once as deleted for `WT_DELETED` (0x200).
proof fn lemma_entry_counts(p: Seq<char>, b: u32)
    ensures
        kind_count(entry_files(p, b), FileStatusKind::Conflict) == if b & 0x8000u32 != 0 { 1nat } else { 0nat },
        kind_count(entry_files(p, b), FileStatusKind::Staged) == if b & 0x8000u32 == 0 && b & 0x1fu32 != 0 { 1nat } else { 0nat },
        kind_count(entry_files(p, b), FileStatusKind::Untracked) == if b & 0x8000u32 == 0 && b & 0x80u32 != 0 { 1nat } else { 0nat },
        kind_count(entry_files(p, b), FileStatusKind::Modified) == if b & 0x8000u32 == 0 && b & 0x500u32 != 0 { 1nat } else { 0nat },
        kind_count(entry_files(p, b), FileStatusKind::Deleted) == if b & 0x8000u32 == 0 && b & 0x200u32 != 0 { 1nat } else { 0nat },
        entry_files(p, b).len() == (if b & 0x8000u32 != 0 { 1nat } else {
            (if b & 0x1fu32 != 0 { 1nat } else { 0nat }) + (if b & 0x80u32 != 0 { 1nat } else { 0nat })
                + (if b & 0x500u32 != 0 { 1nat } else { 0nat }) + (if b & 0x200u32 != 0 { 1nat } else { 0nat })
        }),
{
    assert((b & 1u32 != 0 || b & 2u32 != 0 || b & 4u32 != 0 || b & 8u32 != 0 || b & 16u32 != 0) == (b & 0x1fu32 != 0))
        by (bit_vector);
    assert((b & 256u32 != 0 || b & 1024u32 != 0) == (b & 0x500u32 != 0)) by (bit_vector);
    if b & 0x8000u32 != 0 {
        assert(entry_files(p, b) =~= seq![(p, FileStatusKind::Conflict)]);
        lemma_count_one(true, (p, FileStatusKind::Conflict), FileStatusKind::Conflict);
        lemma_count_one(true, (p, FileStatusKind::Conflict), FileStatusKind::Staged);
        lemma_count_one(true, (p, FileStatusKind::Conflict), FileStatusKind::Untracked);
        lemma_count_one(true, (p, FileStatusKind::Conflict), FileStatusKind::Modified);
        lemma_count_one(true, (p, FileStatusKind::Conflict), FileStatusKind::Deleted);
    } else {
        let cs = b & 0x1fu32 != 0;
        let cu = b & 0x80u32 != 0;
        let cm = b & 0x500u32 != 0;
        let cd = b & 0x200u32 != 0;
        let xs = (p, FileStatusKind::Staged);
        let xu = (p, FileStatusKind::Untracked);
        let xm = (p, FileStatusKind::Modified);
        let xd = (p, FileStatusKind::Deleted);
        let s1: Seq<(Seq<char>, FileStatusKind)> = if cs { seq![xs] } else { Seq::empty() };
        let s2: Seq<(Seq<char>, FileStatusKind)> = if cu { seq![xu] } else { Seq::empty() };
        let s3: Seq<(Seq<char>, FileStatusKind)> = if cm { seq![xm] } else { Seq::empty() };
        let s4: Seq<(Seq<char>, FileStatusKind)> = if cd { seq![xd] } else { Seq::empty() };
        assert(entry_files(p, b) =~= s1 + s2 + s3 + s4);
        let ks = seq![FileStatusKind::Conflict, FileStatusKind::Staged, FileStatusKind::Untracked, FileStatusKind::Modified, FileStatusKind::Deleted];
        assert forall|j: int| 0 <= j < 5 implies kind_count(entry_files(p, b), #[trigger] ks[j]) == (if cs && xs.1 == ks[j] { 1nat } else { 0nat })
            + (if cu && xu.1 == ks[j] { 1nat } else { 0nat }) + (if cm && xm.1 == ks[j] { 1nat } else { 0nat })
            + (if cd && xd.1 == ks[j] { 1nat } else { 0nat }) by {
            let k = ks[j];
            lemma_kind_count_concat(s1 + s2 + s3, s4, k);
            lemma_kind_count_concat(s1 + s2, s3, k);
            lemma_kind_count_concat(s1, s2, k);
            lemma_count_one(cs, xs, k);
            lemma_count_one(cu, xu, k);
            lemma_count_one(cm, xm, k);
            lemma_count_one(cd, xd, k);
        }
        assert(ks[0] == FileStatusKind::Conflict);
        assert(ks[1] == FileStatusKind::Staged);
        assert(ks[2] == FileStatusKind::Untracked);
        assert(ks[3] == FileStatusKind::Modified);
        assert(ks[4] == FileStatusKind::Deleted);
    }
}

/// What a repository's status counts: as many conflicts as entries git reports
/// conflicted (0x8000); as many staged files as entries that are not conflicted and
/// have an index bit (`INDEX_NEW`, `INDEX_MODIFIED`, `INDEX_DELETED`, `INDEX_RENAMED`,
/// `INDEX_TYPECHANGE`: 0x1f) set; as many untracked files as such entries with `WT_NEW`
/// (0x80); as many modified files as such entries with `WT_MODIFIED` or
/// `WT_TYPECHANGE` (0x500); as many deleted files as such entries with `WT_DELETED`
/// (0x200).  No other file is listed.
pub proof fn law_status_counts_follow_bits(e: Seq<(Option<Seq<char>>, u32)>)
    ensures
        kind_count(listed_files(e), FileStatusKind::Conflict) == conflicted_entries(e),
        kind_count(listed_files(e), FileStatusKind::Staged) == unconflicted_with(e, 0x1fu32),
        kind_count(listed_files(e), FileStatusKind::Untracked) == unconflicted_with(e, 0x80u32),
        kind_count(listed_files(e), FileStatusKind::Modified) == unconflicted_with(e, 0x500u32),
        kind_count(listed_files(e), FileStatusKind::Deleted) == unconflicted_with(e, 0x200u32),
        listed_files(e).len() == conflicted_entries(e) + unconflicted_with(e, 0x1fu32) + unconflicted_with(e, 0x80u32)
            + unconflicted_with(e, 0x500u32) + unconflicted_with(e, 0x200u32),
    decreases e.len(),
{
    if e.len() > 0 {
        let d = e.drop_last();
        law_status_counts_follow_bits(d);
        let ef = entry_files(crate::scan::entry_path(e.last().0), e.last().1);
        lemma_entry_counts(crate::scan::entry_path(e.last().0), e.last().1);
        lemma_kind_count_concat(listed_files(d), ef, FileStatusKind::Conflict);
        lemma_kind_count_concat(listed_files(d), ef, FileStatusKind::Staged);
        lemma_kind_count_concat(listed_files(d), ef, FileStatusKind::Untracked);
        lemma_kind_count_concat(listed_files(d), ef, FileStatusKind::Modified);
        lemma_kind_count_concat(listed_files(d), ef, FileStatusKind::Deleted);
    }
}

/// Whether a comparison against the trunk found no commit ahead of it.
pub open spec fn nothing_ahead(c: Option<(usize, usize)>) -> bool {
    c matches Some((ahead, _)) && ahead == 0
}

proof fn lemma_merged_kept_contains(r: Seq<(Seq<char>, Option<(usize, usize)>)>, n: Seq<char>)
    ensures
        merged_kept(r).contains(n) <==> exists|i: int| 0 <= i < r.len() && (#[trigger] r[i]).0 == n && nothing_ahead(r[i].1),
    decreases r.len(),
{
    if r.len() > 0 {
        let d = r.drop_last();
        lemma_merged_kept_contains(d, n);
        if merged_kept(r).contains(n) {
            let kept = merged_kept(d);
            if !kept.contains(n) {
                assert(nothing_ahead(r.last().1) && r.last().0 == n) by {
                    if !(nothing_ahead(r.last().1)) {
                        assert(merged_kept(r) == kept);
                    } else {
                        let j = choose|j: int| 0 <= j < merged_kept(r).len() && merged_kept(r)[j] == n;
                        assert(merged_kept(r) == kept.push(r.last().0));
                        if j < kept.len() {
                            assert(kept[j] == n);
                        }
                    }
                }
                assert(r[r.len() - 1] == r.last());
            } else {
                let i = choose|i: int| 0 <= i < d.len() && (#[trigger] d[i]).0 == n && nothing_ahead(d[i].1);
                assert(r[i] == d[i]);
            }
        }
        if exists|i: int| 0 <= i < r.len() && (#[trigger] r[i]).0 == n && nothing_ahead(r[i].1) {
            let i = choose|i: int| 0 <= i < r.len() && (#[trigger] r[i]).0 == n && nothing_ahead(r[i].1);
            if i < d.len() {
                assert(d[i] == r[i]);
                let kept = merged_kept(d);
                assert(kept.contains(n));
                let j = choose|j: int| 0 <= j < kept.len() && kept[j] == n;
                if nothing_ahead(r.last().1) {
                    assert(merged_kept(r) == kept.push(r.last().0));
                    assert(merged_kept(r)[j] == n);
                } else {
                    assert(merged_kept(r) == kept);
                }
            } else {
                assert(r[i] == r.last());
                assert(merged_kept(r) == merged_kept(d).push(r.last().0));
                assert(merged_kept(r)[merged_kept(d).len() as int] == n);
            }
        }
    }
}

/// A branch is listed as merged into the trunk exactly when its comparison against the
/// trunk found no commit ahead of it: every listed branch is zero commits ahead.
pub proof fn law_merged_means_nothing_ahead(r: Seq<(Seq<char>, Option<(usize, usize)>)>, n: Seq<char>)
    ensures
        sorted_repos(merged_kept(r), true).contains(n)
            <==> exists|i: int| 0 <= i < r.len() && (#[trigger] r[i]).0 == n && nothing_ahead(r[i].1),
{
    lemma_merged_kept_contains(r, n);
    crate::order::lemma_sort_by_key_contains(merged_kept(r), crate::state::repo_key(true), n);
}

/// The position of the last `.` is a `.` of the name.
proof fn lemma_last_dot(s: Seq<char>)
    ensures
        last_dot(s) matches Some(i) ==> i < s.len() && s[i as int] == '.',
        (forall|j: int| 0 <= j < s.len() ==> s[j] != '.') ==> last_dot(s) is None,
    decreases s.len(),
{
    if s.len() > 0 && s.last() != '.' {
        lemma_last_dot(s.drop_last());
        assert forall|j: int| 0 <= j < s.len() - 1 implies s.drop_last()[j] == s[j] by {}
    }
}

/// A name whose extension is `ext` ends with `.` and `ext`.
proof fn lemma_extension_suffix(name: Seq<char>)
    ensures
        extension(name).len() > 0 ==> has_suffix(name, "."@ + extension(name)),
{
    reveal_strlit(".");
    lemma_last_dot(name);
    match last_dot(name) {
        Some(i) => if i > 0 {
            let x = extension(name);
            assert(name.subrange(name.len() - (1 + x.len()), name.len() as int) =~= "."@ + x);
        },
        None => {},
    }
}

/// Inside the git directory (a path whose components continue those of `git_dir`) a
/// change is relevant unless it lies under `objects/`, `hooks/` or `modules/`, names a
/// `*.lock` or `*.cache` file, is `packed-refs`, is `sourcetreeconfig`, is a
/// commit-message draft (`COMMIT_EDITMSG`, `PREPARE_COMMIT_MSG`, `GIT_COLA_MSG`) or lies
/// under a git-lfs `tmp` path.
pub proof fn law_git_dir_changes_relevant(path: Seq<char>, git_dir: Seq<char>)
    requires
        components(git_dir).len() < components(path).len(),
        components(path).take(components(git_dir).len() as int) == components(git_dir),
    ensures
        ({
            let parts = components(path).skip(components(git_dir).len() as int);
            let name = parts.last();
            (parts[0] != "objects"@ && parts[0] != "hooks"@ && parts[0] != "modules"@
                && !has_suffix(name, ".lock"@) && !has_suffix(name, ".cache"@)
                && parts != seq!["packed-refs"@] && name != "sourcetreeconfig"@
                && name != "COMMIT_EDITMSG"@ && name != "PREPARE_COMMIT_MSG"@ && name != "GIT_COLA_MSG"@
                && !(parts.contains("lfs"@) && parts.contains("tmp"@))) ==> git_path_relevant(path, git_dir)
        }),
{
    reveal_strlit(".");
    reveal_strlit("lock");
    reveal_strlit(".lock");
    reveal_strlit("cache");
    reveal_strlit(".cache");
    reveal_strlit("sourcetreeconfig");
    reveal_strlit("COMMIT_EDITMSG");
    reveal_strlit("PREPARE_COMMIT_MSG");
    reveal_strlit("GIT_COLA_MSG");
    let pc = components(path);
    let gc = components(git_dir);
    let parts = pc.skip(gc.len() as int);
    let pname = parts.last();
    if parts[0] != "objects"@ && parts[0] != "hooks"@ && parts[0] != "modules"@
        && !has_suffix(pname, ".lock"@) && !has_suffix(pname, ".cache"@)
        && parts != seq!["packed-refs"@] && pname != "sourcetreeconfig"@
        && pname != "COMMIT_EDITMSG"@ && pname != "PREPARE_COMMIT_MSG"@ && pname != "GIT_COLA_MSG"@
        && !(parts.contains("lfs"@) && parts.contains("tmp"@)) {
        assert(pc.len() != gc.len());
        assert(pc != gc);
        assert(parts.len() > 0);
        assert(parts.last() == pc.last());
        let name = file_name(path);
        let ext = extension(name);
        lemma_extension_suffix(name);
        assert("."@ + "lock"@ =~= ".lock"@);
        assert("."@ + "cache"@ =~= ".cache"@);
        if name.len() == 0 {
            lemma_last_dot(name);
            assert(ext.len() == 0);
            assert(ext != "lock"@);
            assert(ext != "cache"@);
            assert(name != "sourcetreeconfig"@);
            assert(name != "COMMIT_EDITMSG"@);
            assert(name != "PREPARE_COMMIT_MSG"@);
            assert(name != "GIT_COLA_MSG"@);
        } else {
            assert(name == pname);
            assert(ext != "lock"@);
            assert(ext != "cache"@);
        }
        assert(git_path_relevant(path, git_dir));
    }
}

/// A name without a `.` does not end with a suffix that starts with one.
proof fn lemma_no_dot_suffix(n: Seq<char>, suf: Seq<char>)
    requires
        suf.len() > 0,
        suf[0] == '.',
        forall|i: int| 0 <= i < n.len() ==> n[i] != '.',
    ensures
        !has_suffix(n, suf),
{
    if has_suffix(n, suf) {
        assert(n.subrange(n.len() - suf.len(), n.len() as int)[0] == n[n.len() - suf.len()]);
    }
}

/// Changes to HEAD, ORIG_HEAD, MERGE_HEAD, CHERRY_PICK_HEAD, the index and the config
/// directly inside the git directory are relevant.
pub proof fn law_git_state_files_relevant(path: Seq<char>, git_dir: Seq<char>, n: Seq<char>)
    requires
        components(path) == components(git_dir).push(n),
        n == "HEAD"@ || n == "ORIG_HEAD"@ || n == "MERGE_HEAD"@ || n == "CHERRY_PICK_HEAD"@ || n == "index"@
            || n == "config"@,
    ensures
        git_path_relevant(path, git_dir),
{
    reveal_strlit("HEAD");
    reveal_strlit("ORIG_HEAD");
    reveal_strlit("MERGE_HEAD");
    reveal_strlit("CHERRY_PICK_HEAD");
    reveal_strlit("index");
    reveal_strlit("config");
    reveal_strlit("objects");
    reveal_strlit("hooks");
    reveal_strlit("modules");
    reveal_strlit(".lock");
    reveal_strlit(".cache");
    reveal_strlit("packed-refs");
    reveal_strlit("sourcetreeconfig");
    reveal_strlit("COMMIT_EDITMSG");
    reveal_strlit("PREPARE_COMMIT_MSG");
    reveal_strlit("GIT_COLA_MSG");
    reveal_strlit("lfs");
    reveal_strlit("tmp");
    let gc = components(git_dir);
    let pc = components(path);
    assert(pc.take(gc.len() as int) =~= gc);
    let parts = pc.skip(gc.len() as int);
    assert(parts =~= seq![n]);
    assert(forall|i: int| 0 <= i < n.len() ==> n[i] != '.') by {
        if n == "CHERRY_PICK_HEAD"@ {
            assert(forall|i: int| 0 <= i < n.len() ==> n[i] != '.');
        }
    }
    lemma_no_dot_suffix(n, ".lock"@);
    lemma_no_dot_suffix(n, ".cache"@);
    assert(n != "sourcetreeconfig"@) by {
        if n == "sourcetreeconfig"@ {
            assert(n[0] == 's');
        }
    }
    assert(!parts.contains("lfs"@)) by {
        if parts.contains("lfs"@) {
            assert(parts[0] == n);
        }
    }
    assert(n != "hooks"@) by {
        if n == "hooks"@ {
            assert(n[0] == 'h');
        }
    }
    assert(parts[0] == n && parts.last() == n);
    assert(n != "objects"@ && n != "modules"@ && n != "COMMIT_EDITMSG"@ && n != "PREPARE_COMMIT_MSG"@
        && n != "GIT_COLA_MSG"@);
    assert(parts != seq!["packed-refs"@]) by {
        if parts == seq!["packed-refs"@] {
            assert(parts[0] == "packed-refs"@);
        }
    }
    law_git_dir_changes_relevant(path, git_dir);
}

/// The last `.` of a name is the one after which no `.` follows.
proof fn lemma_last_dot_at(s: Seq<char>, k: int)
    requires
        0 <= k < s.len(),
        s[k] == '.',
        forall|j: int| k < j < s.len() ==> s[j] != '.',
    ensures
        last_dot(s) == Some(k as nat),
    decreases s.len(),
{
    if s.last() != '.' {
        lemma_last_dot_at(s.drop_last(), k);
    }
}

/// A name that ends with `.` and `suffix` (a suffix without a `.`), with something
/// before that dot, has `suffix` as its extension.
proof fn lemma_extension_of(name: Seq<char>, suffix: Seq<char>)
    requires
        name.len() > suffix.len() + 1,
        has_suffix(name, "."@ + suffix),
        forall|j: int| 0 <= j < suffix.len() ==> suffix[j] != '.',
    ensures
        extension(name) == suffix,
{
    reveal_strlit(".");
    let k = name.len() - suffix.len() - 1;
    let tail = name.subrange(k, name.len() as int);
    assert(tail == "."@ + suffix);
    assert(name[k] == tail[0]);
    assert forall|j: int| k < j < name.len() implies name[j] != '.' by {
        assert(name[j] == tail[j - k]);
        assert(tail[j - k] == suffix[j - k - 1]);
    }
    lemma_last_dot_at(name, k);
    assert(name.skip(k + 1) =~= suffix) by {
        assert forall|j: int| 0 <= j < suffix.len() implies name.skip(k + 1)[j] == suffix[j] by {
            assert(name[k + 1 + j] == tail[j + 1]);
        }
    }
}

/// Inside the git directory, a change is not relevant when it lies under `objects/`,
/// `hooks/` or `modules/`, names a `*.lock` or `*.cache` file, is `packed-refs`, is
/// `sourcetreeconfig`, is a commit-message draft (`COMMIT_EDITMSG`,
/// `PREPARE_COMMIT_MSG`, `GIT_COLA_MSG`) or lies under a git-lfs `tmp` path.
pub proof fn law_git_dir_exclusions(path: Seq<char>, git_dir: Seq<char>)
    requires
        components(git_dir).len() < components(path).len(),
        components(path).take(components(git_dir).len() as int) == components(git_dir),
    ensures
        ({
            let parts = components(path).skip(components(git_dir).len() as int);
            let name = parts.last();
            (parts[0] == "objects"@ || parts[0] == "hooks"@ || parts[0] == "modules"@
                || (name.len() > 5 && has_suffix(name, ".lock"@)) || (name.len() > 6 && has_suffix(name, ".cache"@))
                || parts == seq!["packed-refs"@] || name == "sourcetreeconfig"@
                || name == "COMMIT_EDITMSG"@ || name == "PREPARE_COMMIT_MSG"@ || name == "GIT_COLA_MSG"@
                || (parts.contains("lfs"@) && parts.contains("tmp"@))) ==> !git_path_relevant(path, git_dir)
        }),
{
    reveal_strlit(".");
    reveal_strlit("/");
    reveal_strlit("..");
    reveal_strlit("lock");
    reveal_strlit(".lock");
    reveal_strlit("cache");
    reveal_strlit(".cache");
    reveal_strlit("sourcetreeconfig");
    reveal_strlit("COMMIT_EDITMSG");
    reveal_strlit("PREPARE_COMMIT_MSG");
    reveal_strlit("GIT_COLA_MSG");
    let pc = components(path);
    let gc = components(git_dir);
    let parts = pc.skip(gc.len() as int);
    let pname = parts.last();
    assert(pc.len() != gc.len());
    assert(parts.len() > 0);
    assert(parts.last() == pc.last());
    if pname.len() > 2 {
        assert(pname != "/"@ && pname != ".."@);
        assert(file_name(path) == pname);
    }
    assert("."@ + "lock"@ =~= ".lock"@);
    assert("."@ + "cache"@ =~= ".cache"@);
    if pname.len() > 5 && has_suffix(pname, ".lock"@) {
        lemma_extension_of(pname, "lock"@);
    }
    if pname.len() > 6 && has_suffix(pname, ".cache"@) {
        lemma_extension_of(pname, "cache"@);
    }
}

/// A change outside the git directory is never judged relevant by the git-directory
/// rule, and a change to the git directory itself always is.
pub proof fn law_git_dir_bounds(path: Seq<char>, git_dir: Seq<char>)
    ensures
        components(path) == components(git_dir) ==> git_path_relevant(path, git_dir),
        !(components(git_dir).len() <= components(path).len()
            && components(path).take(components(git_dir).len() as int) == components(git_dir))
            ==> !git_path_relevant(path, git_dir),
{
    let pc = components(path);
    assert(pc.take(pc.len() as int) =~= pc);
}

/// Where a kind of file stands in the File Status list: conflicts first, then staged,
/// modified, deleted and untracked files.
pub open spec fn kind_rank(k: FileStatusKind) -> int {
    match k {
        FileStatusKind::Conflict => 0,
        FileStatusKind::Staged => 1,
        FileStatusKind::Modified => 2,
        FileStatusKind::Deleted => 3,
        FileStatusKind::Untracked => 4,
    }
}

/// The File Status list is ordered by kind (conflict, staged, modified, deleted,
/// untracked) and, within a kind, by path (its lower-cased form unless sorting
/// case-sensitively).
pub proof fn law_files_ordered_by_kind_then_path(s: Seq<(Seq<char>, FileStatusKind)>, cs: bool, i: int, j: int)
    requires
        0 <= i < j < s.len(),
    ensures
        ({
            let t = sort_by_key(s, file_key(cs));
            &&& kind_rank(t[i].1) <= kind_rank(t[j].1)
            &&& kind_rank(t[i].1) == kind_rank(t[j].1) ==> lex_le(
                (crate::state::repo_key(cs))(t[i].0),
                (crate::state::repo_key(cs))(t[j].0),
            )
        }),
{
    let key = file_key(cs);
    crate::order::lemma_sort_by_key_sorted_permutation(s, key);
    let t = sort_by_key(s, key);
    let a = key(t[i]);
    let b = key(t[j]);
    assert(lex_le(a, b));
    let ra = (crate::state::repo_key(cs))(t[i].0);
    let rb = (crate::state::repo_key(cs))(t[j].0);
    assert(a.drop_first() =~= ra);
    assert(b.drop_first() =~= rb);
    assert(a[0] == priority_char(t[i].1));
    assert(b[0] == priority_char(t[j].1));
}

proof fn lemma_remote_only_kept_contains(remotes: Seq<Seq<char>>, local: Seq<Seq<char>>, n: Seq<char>)
    ensures
        remote_only_kept(remotes, local).contains(n) <==> (remotes.contains(n) && !has_suffix(n, "/HEAD"@)
            && !local.contains(strip_remote(n))),
    decreases remotes.len(),
{
    if remotes.len() > 0 {
        let d = remotes.drop_last();
        let r = remotes.last();
        lemma_remote_only_kept_contains(d, local, n);
        let kept = remote_only_kept(d, local);
        let keep_r = !has_suffix(r, "/HEAD"@) && !local.contains(strip_remote(r));
        if keep_r {
            assert(remote_only_kept(remotes, local) == kept.push(r));
        } else {
            assert(remote_only_kept(remotes, local) == kept);
        }
        if remote_only_kept(remotes, local).contains(n) {
            let j = choose|j: int| 0 <= j < remote_only_kept(remotes, local).len() && remote_only_kept(remotes, local)[j] == n;
            if j < kept.len() {
                assert(kept[j] == n);
                let i = choose|i: int| 0 <= i < d.len() && d[i] == n;
                assert(remotes[i] == n);
            } else {
                assert(n == r);
                assert(remotes[remotes.len() - 1] == r);
            }
        }
        if remotes.contains(n) && !has_suffix(n, "/HEAD"@) && !local.contains(strip_remote(n)) {
            let i = choose|i: int| 0 <= i < remotes.len() && remotes[i] == n;
            if i < d.len() {
                assert(d[i] == n);
                let j = choose|j: int| 0 <= j < kept.len() && kept[j] == n;
                if keep_r {
                    assert(kept.push(r)[j] == n);
                }
            } else {
                assert(n == r);
                assert(kept.push(r)[kept.len() as int] == n);
            }
        }
    }
}

/// A remote branch is listed as remote-only exactly when it is not a `…/HEAD` pointer
/// and no local branch carries its name without the remote.
pub proof fn law_remote_only_membership(remotes: Seq<Seq<char>>, local: Seq<Seq<char>>, n: Seq<char>)
    ensures
        sorted_repos(remote_only_kept(remotes, local), true).contains(n) <==> (remotes.contains(n)
            && !has_suffix(n, "/HEAD"@) && !local.contains(strip_remote(n))),
{
    lemma_remote_only_kept_contains(remotes, local, n);
    crate::order::lemma_sort_by_key_contains(remote_only_kept(remotes, local), crate::state::repo_key(true), n);
}

/// A remote branch's name without its remote: `remote/branch` gives `branch` for a
/// remote name without `/` (the branch part may hold more `/`).
pub proof fn law_strip_remote_drops_remote(remote: Seq<char>, branch: Seq<char>)
    requires
        forall|i: int| 0 <= i < remote.len() ==> remote[i] != '/',
    ensures
        strip_remote(remote + "/"@ + branch) == branch,
{
    reveal_strlit("/");
    let s = remote + "/"@ + branch;
    crate::order::lemma_first_index(s, crate::scan::is_slash());
    assert(s[remote.len() as int] == '/');
    match crate::order::first_index(s, crate::scan::is_slash()) {
        Some(i) => {
            if (i as int) < remote.len() {
                assert(s[i as int] == remote[i as int]);
            }
            if (i as int) > remote.len() {
                assert(!(crate::scan::is_slash())(s[remote.len() as int]));
            }
            assert(s.skip(i + 1 as int) =~= branch);
        },
        None => {
            assert(!(crate::scan::is_slash())(s[remote.len() as int]));
        },
    }
}

/// The watcher's 500 ms debounce: a pending change is reported exactly when 500 ms have
/// passed since it was seen; before that the watcher waits precisely the rest of the
/// window, after which it reports; without a pending change it polls every 2 s.
pub proof fn law_debounce_window(t: u64, now: u64)
    ensures
        (spec_on_quiet(Some(t), now) == QuietStep::Report) <==> (now >= t && now - t >= 500),
        (now >= t && now - t < 500) ==> spec_wait_ms(Some(t), now) == 500 - (now - t)
            && (now + spec_wait_ms(Some(t), now) <= u64::MAX ==> spec_on_quiet(
                Some(t),
                (now + spec_wait_ms(Some(t), now)) as u64,
            ) == QuietStep::Report),
        (now >= t && now - t >= 500) ==> spec_wait_ms(Some(t), now) == 0,
        spec_on_quiet(None, now) == QuietStep::Poll,
        spec_wait_ms(None, now) == 2000,
{
}

/// A polled modification time means a change exactly when an earlier one was recorded
/// and the two differ; the first one seen is never a change.
pub proof fn law_mtime_change(last: (u64, u32), seen: (u64, u32))
    ensures
        spec_mtime_changed(Some(last), seen) <==> last != seen,
        !spec_mtime_changed(None, seen),
        !spec_mtime_changed(Some(seen), seen),
{
}

/// The branch column: a branch shows its own name; a detached HEAD shows `detached `
/// and the first eight digits of its commit id; a branch without commits shows the
/// name that HEAD's target `refs/heads/<name>` gives it.
pub proof fn law_branch_label_shapes(name: String, hex: String, target: String)
    ensures
        spec_branch_label(HeadState::Branch(Some(name))) == name@,
        hex@.len() >= 8 ==> spec_branch_label(HeadState::Detached(Some(hex))).len() == 17
            && spec_branch_label(HeadState::Detached(Some(hex))) == "detached "@ + hex@.take(8),
        (target@.len() >= 11 && target@.take(11) == "refs/heads/"@) ==> "refs/heads/"@ + spec_branch_label(
            HeadState::Unborn(Some(target)),
        ) == target@,
{
    reveal_strlit("detached ");
    reveal_strlit("refs/heads/");
    if target@.len() >= 11 && target@.take(11) == "refs/heads/"@ {
        assert(target@.take(11) + target@.skip(11) =~= target@);
    }
}

} // verus!
