//! Reading one repository's state from git.  The calls into git2 stand behind trusted
//! items; verified over plain values are how status entries become counts and an
//! ordered file list, how the branch label is chosen, which trunk references are tried
//! and in what order, and which remote branches count as remote-only.
use vstd::prelude::*;
use crate::git::{AheadBehind, BranchInfo, CommitEntry, CommitFileDelta, DeltaKind, FileEntry, FileStatusKind, RepoStatus};
use crate::order::sort_by_key;
use crate::state::{contains_str, sort_repo_paths, sorted_repos, strings_view};
use crate::git::opt_view;
use crate::text::{push_char, push_str, str_lt};

verus! {

/// Status bit of git2 (`Status::INDEX_NEW`): the file is new in the index.
pub const STATUS_INDEX_NEW: u32 = 1;
/// `Status::INDEX_MODIFIED`.
pub const STATUS_INDEX_MODIFIED: u32 = 2;
/// `Status::INDEX_DELETED`.
pub const STATUS_INDEX_DELETED: u32 = 4;
/// `Status::INDEX_RENAMED`.
pub const STATUS_INDEX_RENAMED: u32 = 8;
/// `Status::INDEX_TYPECHANGE`.
pub const STATUS_INDEX_TYPECHANGE: u32 = 16;
/// `Status::WT_NEW`: the file is untracked.
pub const STATUS_WT_NEW: u32 = 128;
/// `Status::WT_MODIFIED`.
pub const STATUS_WT_MODIFIED: u32 = 256;
/// `Status::WT_DELETED`.
pub const STATUS_WT_DELETED: u32 = 512;
/// `Status::WT_TYPECHANGE`.
pub const STATUS_WT_TYPECHANGE: u32 = 1024;
/// `Status::CONFLICTED`.
pub const STATUS_CONFLICTED: u32 = 32768;

pub open spec fn has_flag(bits: u32, flag: u32) -> bool {
    bits & flag != 0
}

/// Any of the index flags: the file has staged changes.
pub open spec fn staged_flag(bits: u32) -> bool {
    has_flag(bits, STATUS_INDEX_NEW) || has_flag(bits, STATUS_INDEX_MODIFIED) || has_flag(bits, STATUS_INDEX_DELETED)
        || has_flag(bits, STATUS_INDEX_RENAMED) || has_flag(bits, STATUS_INDEX_TYPECHANGE)
}

/// The kinds under which one status entry is listed, in the order they are recorded: a
/// conflict alone; otherwise staged, untracked, modified (or type-changed) and deleted,
/// each when its flag is set.
pub open spec fn entry_kinds(bits: u32) -> Seq<FileStatusKind> {
    if has_flag(bits, STATUS_CONFLICTED) {
        seq![FileStatusKind::Conflict]
    } else {
        (if staged_flag(bits) { seq![FileStatusKind::Staged] } else { Seq::empty() })
            + (if has_flag(bits, STATUS_WT_NEW) { seq![FileStatusKind::Untracked] } else { Seq::empty() })
            + (if has_flag(bits, STATUS_WT_MODIFIED) || has_flag(bits, STATUS_WT_TYPECHANGE) {
            seq![FileStatusKind::Modified]
        } else {
            Seq::empty()
        }) + (if has_flag(bits, STATUS_WT_DELETED) { seq![FileStatusKind::Deleted] } else { Seq::empty() })
    }
}

/// The path of an entry, `?` when git reported none readable.
pub open spec fn entry_path(p: Option<Seq<char>>) -> Seq<char> {
    match p {
        Some(s) => s,
        None => "?"@,
    }
}

/// The files one entry contributes.
pub open spec fn entry_files(path: Seq<char>, bits: u32) -> Seq<(Seq<char>, FileStatusKind)> {
    entry_kinds(bits).map_values(|k: FileStatusKind| (path, k))
}

pub open spec fn entries_view(e: Seq<(Option<String>, u32)>) -> Seq<(Option<Seq<char>>, u32)> {
    e.map_values(
        |x: (Option<String>, u32)|
            (
                match x.0 {
                    Some(s) => Some(s@),
                    None => None,
                },
                x.1,
            ),
    )
}

/// The files of all entries, entry by entry, before ordering.
pub open spec fn listed_files(e: Seq<(Option<Seq<char>>, u32)>) -> Seq<(Seq<char>, FileStatusKind)>
    decreases e.len(),
{
    if e.len() == 0 {
        Seq::empty()
    } else {
        listed_files(e.drop_last()) + entry_files(entry_path(e.last().0), e.last().1)
    }
}

/// The digit that orders a kind: conflict, staged, modified, deleted, untracked.
pub open spec fn priority_char(k: FileStatusKind) -> char {
    match k {
        FileStatusKind::Conflict => '0',
        FileStatusKind::Staged => '1',
        FileStatusKind::Modified => '2',
        FileStatusKind::Deleted => '3',
        FileStatusKind::Untracked => '4',
    }
}

/// Files are ordered by kind priority, then by path (by its lower-cased form unless
/// sorting case-sensitively).
pub open spec fn file_key(case_sensitive: bool) -> spec_fn((Seq<char>, FileStatusKind)) -> Seq<char> {
    |f: (Seq<char>, FileStatusKind)| seq![priority_char(f.1)] + (crate::state::repo_key(case_sensitive))(f.0)
}

/// How many files of kind `k` a list holds.
pub open spec fn kind_count(s: Seq<(Seq<char>, FileStatusKind)>, k: FileStatusKind) -> nat
    decreases s.len(),
{
    if s.len() == 0 {
        0
    } else {
        kind_count(s.drop_last(), k) + if s.last().1 == k { 1nat } else { 0nat }
    }
}

pub open spec fn files_view(v: Seq<FileEntry>) -> Seq<(Seq<char>, FileStatusKind)> {
    v.map_values(|f: FileEntry| (f.path@, f.status))
}

/// The counts and ordered file list of a repository's status.
pub struct StatusCounts {
    pub added: usize,
    pub modified: usize,
    pub staged: usize,
    pub deleted: usize,
    pub conflict: usize,
    pub files: Vec<FileEntry>,
}

/// The files one entry contributes, as entries.
fn entry_file_entries(path: &String, bits: u32) -> (res: Vec<FileEntry>)
    ensures
        files_view(res@) == entry_files(path@, bits),
{
    let mut v: Vec<FileEntry> = Vec::new();
    if bits & STATUS_CONFLICTED != 0 {
        v.push(FileEntry { path: path.clone(), status: FileStatusKind::Conflict });
        assert(files_view(v@) =~= entry_files(path@, bits));
        return v;
    }
    let ghost mut ks: Seq<FileStatusKind> = Seq::empty();
    if bits & STATUS_INDEX_NEW != 0 || bits & STATUS_INDEX_MODIFIED != 0 || bits & STATUS_INDEX_DELETED != 0
        || bits & STATUS_INDEX_RENAMED != 0 || bits & STATUS_INDEX_TYPECHANGE != 0 {
        v.push(FileEntry { path: path.clone(), status: FileStatusKind::Staged });
        proof { ks = ks.push(FileStatusKind::Staged); }
    }
    let ghost k1 = ks;
    assert(k1 =~= (if staged_flag(bits) { seq![FileStatusKind::Staged] } else { Seq::<FileStatusKind>::empty() }));
    if bits & STATUS_WT_NEW != 0 {
        v.push(FileEntry { path: path.clone(), status: FileStatusKind::Untracked });
        proof { ks = ks.push(FileStatusKind::Untracked); }
    }
    let ghost k2 = ks;
    assert(k2 =~= k1 + (if has_flag(bits, STATUS_WT_NEW) { seq![FileStatusKind::Untracked] } else { Seq::<FileStatusKind>::empty() }));
    if bits & STATUS_WT_MODIFIED != 0 || bits & STATUS_WT_TYPECHANGE != 0 {
        v.push(FileEntry { path: path.clone(), status: FileStatusKind::Modified });
        proof { ks = ks.push(FileStatusKind::Modified); }
    }
    let ghost k3 = ks;
    assert(k3 =~= k2 + (if has_flag(bits, STATUS_WT_MODIFIED) || has_flag(bits, STATUS_WT_TYPECHANGE) {
        seq![FileStatusKind::Modified]
    } else {
        Seq::<FileStatusKind>::empty()
    }));
    if bits & STATUS_WT_DELETED != 0 {
        v.push(FileEntry { path: path.clone(), status: FileStatusKind::Deleted });
        proof { ks = ks.push(FileStatusKind::Deleted); }
    }
    assert(ks =~= k3 + (if has_flag(bits, STATUS_WT_DELETED) { seq![FileStatusKind::Deleted] } else { Seq::<FileStatusKind>::empty() }));
    assert(ks =~= entry_kinds(bits));
    assert(files_view(v@) =~= entry_files(path@, bits));
    v
}

/// The sort key of a file: its kind's priority digit followed by its path (lower-cased
/// unless sorting case-sensitively).
fn file_sort_key(f: &FileEntry, case_sensitive: bool) -> (res: String)
    ensures
        res@ == (file_key(case_sensitive))((f.path@, f.status)),
{
    let mut s = String::new();
    let c = match f.status {
        FileStatusKind::Conflict => '0',
        FileStatusKind::Staged => '1',
        FileStatusKind::Modified => '2',
        FileStatusKind::Deleted => '3',
        FileStatusKind::Untracked => '4',
    };
    push_char(&mut s, c);
    if case_sensitive {
        push_str(&mut s, f.path.as_str());
        assert(s@ =~= seq![c] + f.path@);
    } else {
        let low = crate::text::to_lowercase(f.path.as_str());
        push_str(&mut s, low.as_str());
        assert(s@ =~= seq![c] + low@);
    }
    s
}

/// Stable insertion sort of files by `file_key`.
fn sort_files(files: Vec<FileEntry>, case_sensitive: bool) -> (res: Vec<FileEntry>)
    ensures
        files_view(res@) == sort_by_key(files_view(files@), file_key(case_sensitive)),
{
    let ghost orig = files_view(files@);
    let ghost key = file_key(case_sensitive);
    let mut rest = files;
    let mut out: Vec<FileEntry> = Vec::new();
    let mut k: usize = 0;
    let n = rest.len();
    assert(orig.take(0) =~= Seq::<(Seq<char>, FileStatusKind)>::empty());
    while rest.len() > 0
        invariant
            n == orig.len(),
            key == file_key(case_sensitive),
            k + rest.len() == n,
            files_view(rest@) == orig.skip(k as int),
            files_view(out@) == sort_by_key(orig.take(k as int), key),
        decreases rest.len(),
    {
        let ghost before = rest@;
        let x = rest.remove(0);
        assert(files_view(before)[0] == orig.skip(k as int)[0]);
        assert(files_view(rest@) =~= files_view(before).drop_first());
        assert(orig.skip(k as int).drop_first() =~= orig.skip(k + 1));
        let kx = file_sort_key(&x, case_sensitive);
        let ghost ov = files_view(out@);
        let mut pos: usize = 0;
        assert(ov.skip(0) =~= ov);
        while pos < out.len()
            invariant
                key == file_key(case_sensitive),
                ov == files_view(out@),
                kx@ == key((x.path@, x.status)),
                pos <= out.len(),
                crate::order::insert_pos(ov, kx@, key) == pos + crate::order::insert_pos(ov.skip(pos as int), kx@, key),
            ensures
                crate::order::insert_pos(ov, kx@, key) == pos,
            decreases out.len() - pos,
        {
            let ko = file_sort_key(&out[pos], case_sensitive);
            assert(ov.skip(pos as int)[0] == (out@[pos as int].path@, out@[pos as int].status));
            assert(ov.skip(pos as int).drop_first() =~= ov.skip(pos + 1));
            if str_lt(kx.as_str(), ko.as_str()) {
                break;
            }
            pos += 1;
        }
        let ghost xv = (x.path@, x.status);
        out.insert(pos, x);
        k += 1;
        assert(orig.take(k as int).drop_last() =~= orig.take(k - 1));
        assert(orig.take(k as int).last() == xv);
        assert(files_view(out@) =~= ov.insert(pos as int, xv));
    }
    assert(orig.take(n as int) =~= orig);
    out
}

/// A commit's changed files as plain values: each file's kind of change and path.
pub open spec fn deltas_view(v: Seq<CommitFileDelta>) -> Seq<(DeltaKind, Seq<char>)> {
    v.map_values(|d: CommitFileDelta| (d.kind, d.path@))
}

/// The files of a commit are ordered by path (by its lower-cased form unless sorting
/// case-sensitively).
pub open spec fn delta_key(case_sensitive: bool) -> spec_fn((DeltaKind, Seq<char>)) -> Seq<char> {
    |d: (DeltaKind, Seq<char>)| (crate::state::repo_key(case_sensitive))(d.1)
}

/// The files of one commit, stably sorted by path: case-sensitively when
/// `case_sensitive`, otherwise by the lower-cased path.  The result holds the same
/// files, each with its kind of change.
pub fn sort_commit_files(files: Vec<CommitFileDelta>, case_sensitive: bool) -> (res: Vec<CommitFileDelta>)
    ensures
        deltas_view(res@) == sort_by_key(deltas_view(files@), delta_key(case_sensitive)),
        crate::order::sorted_by_key(deltas_view(res@), delta_key(case_sensitive)),
        deltas_view(res@).to_multiset() == deltas_view(files@).to_multiset(),
{
    let ghost orig = deltas_view(files@);
    let ghost key = delta_key(case_sensitive);
    let mut rest = files;
    let mut out: Vec<CommitFileDelta> = Vec::new();
    let mut k: usize = 0;
    let n = rest.len();
    assert(orig.take(0) =~= Seq::<(DeltaKind, Seq<char>)>::empty());
    while rest.len() > 0
        invariant
            n == orig.len(),
            key == delta_key(case_sensitive),
            k + rest.len() == n,
            deltas_view(rest@) == orig.skip(k as int),
            deltas_view(out@) == sort_by_key(orig.take(k as int), key),
        decreases rest.len(),
    {
        let ghost before = rest@;
        let x = rest.remove(0);
        assert(deltas_view(before)[0] == orig.skip(k as int)[0]);
        assert(deltas_view(rest@) =~= deltas_view(before).drop_first());
        assert(orig.skip(k as int).drop_first() =~= orig.skip(k + 1));
        let kx = crate::state::repo_sort_key(&x.path, case_sensitive);
        let ghost ov = deltas_view(out@);
        let mut pos: usize = 0;
        assert(ov.skip(0) =~= ov);
        while pos < out.len()
            invariant
                key == delta_key(case_sensitive),
                ov == deltas_view(out@),
                kx@ == key((x.kind, x.path@)),
                pos <= out.len(),
                crate::order::insert_pos(ov, kx@, key) == pos + crate::order::insert_pos(ov.skip(pos as int), kx@, key),
            ensures
                crate::order::insert_pos(ov, kx@, key) == pos,
            decreases out.len() - pos,
        {
            let ko = crate::state::repo_sort_key(&out[pos].path, case_sensitive);
            assert(ov.skip(pos as int)[0] == (out@[pos as int].kind, out@[pos as int].path@));
            assert(ov.skip(pos as int).drop_first() =~= ov.skip(pos + 1));
            if str_lt(kx.as_str(), ko.as_str()) {
                break;
            }
            pos += 1;
        }
        let ghost xv = (x.kind, x.path@);
        out.insert(pos, x);
        k += 1;
        assert(orig.take(k as int).drop_last() =~= orig.take(k - 1));
        assert(orig.take(k as int).last() == xv);
        assert(deltas_view(out@) =~= ov.insert(pos as int, xv));
    }
    assert(orig.take(n as int) =~= orig);
    proof {
        crate::order::lemma_sort_by_key_sorted_permutation(orig, key);
    }
    out
}

/// `after` is the commit `before` with its files sorted by `sort_commit_files`.
pub open spec fn files_sorted_commit(before: CommitEntry, after: CommitEntry, case_sensitive: bool) -> bool {
    &&& after.short_hash == before.short_hash
    &&& after.timestamp == before.timestamp
    &&& after.author == before.author
    &&& after.author_email == before.author_email
    &&& after.summary == before.summary
    &&& after.body == before.body
    &&& deltas_view(after.files@) == sort_by_key(deltas_view(before.files@), delta_key(case_sensitive))
}

/// The History pane's commits, in their order, each with its files sorted by path
/// (see `sort_commit_files`).
pub fn sort_history_files(commits: Vec<CommitEntry>, case_sensitive: bool) -> (res: Vec<CommitEntry>)
    ensures
        res@.len() == commits@.len(),
        forall|i: int| 0 <= i < res@.len() ==> files_sorted_commit(commits@[i], #[trigger] res@[i], case_sensitive),
{
    let ghost orig = commits@;
    let mut rest = commits;
    let mut out: Vec<CommitEntry> = Vec::new();
    let n = rest.len();
    while rest.len() > 0
        invariant
            n == orig.len(),
            out@.len() + rest@.len() == n,
            rest@ == orig.skip(out@.len() as int),
            forall|i: int| 0 <= i < out@.len() ==> files_sorted_commit(orig[i], #[trigger] out@[i], case_sensitive),
        decreases rest.len(),
    {
        let ghost k = out@.len() as int;
        let c = rest.remove(0);
        assert(c == orig[k]);
        assert(rest@ =~= orig.skip(k + 1));
        let CommitEntry { short_hash, timestamp, author, author_email, summary, body, files } = c;
        let sorted = CommitEntry {
            short_hash,
            timestamp,
            author,
            author_email,
            summary,
            body,
            files: sort_commit_files(files, case_sensitive),
        };
        out.push(sorted);
    }
    out
}

/// Classify git's status entries (a path, `None` when not readable, and git2's status
/// bits): every entry contributes the files of `entry_kinds`, the counts are the numbers
/// of files of each kind, and the files come ordered by kind priority (conflict, staged,
/// modified, deleted, untracked), then by path.
pub fn classify_entries(entries: &Vec<(Option<String>, u32)>, case_sensitive: bool) -> (res: StatusCounts)
    ensures
        files_view(res.files@) == sort_by_key(listed_files(entries_view(entries@)), file_key(case_sensitive)),
        res.conflict == kind_count(listed_files(entries_view(entries@)), FileStatusKind::Conflict),
        res.staged == kind_count(listed_files(entries_view(entries@)), FileStatusKind::Staged),
        res.added == kind_count(listed_files(entries_view(entries@)), FileStatusKind::Untracked),
        res.modified == kind_count(listed_files(entries_view(entries@)), FileStatusKind::Modified),
        res.deleted == kind_count(listed_files(entries_view(entries@)), FileStatusKind::Deleted),
        res.conflict == crate::scan_laws::conflicted_entries(entries_view(entries@)),
        res.staged == crate::scan_laws::unconflicted_with(entries_view(entries@), 0x1fu32),
        res.added == crate::scan_laws::unconflicted_with(entries_view(entries@), 0x80u32),
        res.modified == crate::scan_laws::unconflicted_with(entries_view(entries@), 0x500u32),
        res.deleted == crate::scan_laws::unconflicted_with(entries_view(entries@), 0x200u32),
{
    let ghost ev = entries_view(entries@);
    let mut listed: Vec<FileEntry> = Vec::new();
    let mut i: usize = 0;
    assert(ev.take(0) =~= Seq::<(Option<Seq<char>>, u32)>::empty());
    while i < entries.len()
        invariant
            ev == entries_view(entries@),
            i <= entries.len(),
            files_view(listed@) == listed_files(ev.take(i as int)),
        decreases entries.len() - i,
    {
        let path = match &entries[i].0 {
            Some(p) => p.clone(),
            None => String::from_str("?"),
        };
        proof { reveal_strlit("?"); }
        assert(path@ == entry_path(ev[i as int].0));
        let mut more = entry_file_entries(&path, entries[i].1);
        let ghost before = listed@;
        listed.append(&mut more);
        assert(ev.take(i + 1).drop_last() =~= ev.take(i as int));
        assert(files_view(listed@) =~= files_view(before) + entry_files(path@, entries@[i as int].1));
        i += 1;
    }
    assert(ev.take(entries.len() as int) =~= ev);
    let ghost all = files_view(listed@);
    let mut conflict: usize = 0;
    let mut staged: usize = 0;
    let mut added: usize = 0;
    let mut modified: usize = 0;
    let mut deleted: usize = 0;
    let mut j: usize = 0;
    assert(all.take(0) =~= Seq::<(Seq<char>, FileStatusKind)>::empty());
    while j < listed.len()
        invariant
            all == files_view(listed@),
            j <= listed.len(),
            conflict == kind_count(all.take(j as int), FileStatusKind::Conflict),
            staged == kind_count(all.take(j as int), FileStatusKind::Staged),
            added == kind_count(all.take(j as int), FileStatusKind::Untracked),
            modified == kind_count(all.take(j as int), FileStatusKind::Modified),
            deleted == kind_count(all.take(j as int), FileStatusKind::Deleted),
            conflict + staged + added + modified + deleted == j,
        decreases listed.len() - j,
    {
        assert(all.take(j + 1).drop_last() =~= all.take(j as int));
        assert(all.take(j + 1).last() == all[j as int]);
        match listed[j].status {
            FileStatusKind::Conflict => conflict += 1,
            FileStatusKind::Staged => staged += 1,
            FileStatusKind::Untracked => added += 1,
            FileStatusKind::Modified => modified += 1,
            FileStatusKind::Deleted => deleted += 1,
        }
        j += 1;
    }
    assert(all.take(listed.len() as int) =~= all);
    let files = sort_files(listed, case_sensitive);
    proof {
        crate::scan_laws::law_status_counts_follow_bits(ev);
    }
    StatusCounts { added, modified, staged, deleted, conflict, files }
}


/// What HEAD is, as read from git.
pub enum HeadState {
    /// HEAD names a branch; its short name when readable.
    Branch(Option<String>),
    /// HEAD is detached; the commit's hexadecimal id when it has one.
    Detached(Option<String>),
    /// HEAD names a branch without commits; HEAD's symbolic target when readable.
    Unborn(Option<String>),
    /// HEAD could not be read.
    Unreadable,
}

/// The first `n` characters of `s` (all of them when it is shorter).
pub open spec fn prefix_of(s: Seq<char>, n: nat) -> Seq<char> {
    if s.len() >= n { s.take(n as int) } else { s }
}

/// The branch column's text: the branch's short name (`unknown` when unreadable);
/// `detached` and the first eight digits of the commit id when detached; for a branch
/// without commits its name after `refs/heads/`, else `unborn`; `detached` when HEAD
/// cannot be read.
pub open spec fn spec_branch_label(h: HeadState) -> Seq<char> {
    match h {
        HeadState::Branch(Some(s)) => s@,
        HeadState::Branch(None) => "unknown"@,
        HeadState::Detached(Some(hex)) => "detached "@ + prefix_of(hex@, 8),
        HeadState::Detached(None) => "detached"@,
        HeadState::Unborn(Some(t)) => if t@.len() >= 11 && t@.take(11) == "refs/heads/"@ {
            t@.skip(11)
        } else {
            "unborn"@
        },
        HeadState::Unborn(None) => "unborn"@,
        HeadState::Unreadable => "detached"@,
    }
}

/// The characters of `s` from index `start` on.
fn chars_from(s: &str, start: usize) -> (res: String)
    requires
        start <= s@.len(),
    ensures
        res@ == s@.skip(start as int),
{
    let n = s.unicode_len();
    let mut out = String::new();
    let mut i = start;
    while i < n
        invariant
            n == s@.len(),
            start <= i <= n,
            out@ == s@.subrange(start as int, i as int),
        decreases n - i,
    {
        push_char(&mut out, s.get_char(i));
        i += 1;
        assert(out@ =~= s@.subrange(start as int, i as int));
    }
    assert(s@.subrange(start as int, n as int) =~= s@.skip(start as int));
    out
}

/// The first `n` characters of `s` (all of them when it is shorter).
fn chars_prefix(s: &str, n: usize) -> (res: String)
    ensures
        res@ == prefix_of(s@, n as nat),
{
    let len = s.unicode_len();
    let end = if len < n { len } else { n };
    let mut out = String::new();
    let mut i: usize = 0;
    while i < end
        invariant
            len == s@.len(),
            end <= len,
            i <= end,
            out@ == s@.take(i as int),
        decreases end - i,
    {
        push_char(&mut out, s.get_char(i));
        i += 1;
        assert(out@ =~= s@.take(i as int));
    }
    assert(s@.take(end as int) =~= prefix_of(s@, n as nat));
    out
}

/// See `spec_branch_label`.
pub fn branch_label(h: &HeadState) -> (res: String)
    ensures
        res@ == spec_branch_label(*h),
{
    match h {
        HeadState::Branch(Some(s)) => s.clone(),
        HeadState::Branch(None) => String::from_str("unknown"),
        HeadState::Detached(Some(hex)) => {
            let mut out = String::from_str("detached ");
            let p = chars_prefix(hex.as_str(), 8);
            push_str(&mut out, p.as_str());
            out
        },
        HeadState::Detached(None) => String::from_str("detached"),
        HeadState::Unborn(Some(t)) => {
            let prefix = "refs/heads/";
            proof { reveal_strlit("refs/heads/"); }
            let pre = chars_prefix(t.as_str(), 11);
            if t.as_str().unicode_len() >= 11 && crate::text::str_eq(pre.as_str(), prefix) {
                chars_from(t.as_str(), 11)
            } else {
                String::from_str("unborn")
            }
        },
        HeadState::Unborn(None) => String::from_str("unborn"),
        HeadState::Unreadable => String::from_str("detached"),
    }
}

/// The references tried, in order, as the trunk: a configured `gitover.trunkbranch`
/// name first as a remote reference as written, then under `origin/`; then
/// `origin/main`, `origin/develop` and `origin/master`.  Each is the full reference
/// name and the name shown.
pub open spec fn spec_trunk_candidates(configured: Option<Seq<char>>) -> Seq<(Seq<char>, Seq<char>)> {
    let fixed = seq![
        ("refs/remotes/origin/main"@, "origin/main"@),
        ("refs/remotes/origin/develop"@, "origin/develop"@),
        ("refs/remotes/origin/master"@, "origin/master"@),
    ];
    match configured {
        Some(n) => seq![("refs/remotes/"@ + n, n), ("refs/remotes/origin/"@ + n, "origin/"@ + n)] + fixed,
        None => fixed,
    }
}

pub open spec fn pairs_view(v: Seq<(String, String)>) -> Seq<(Seq<char>, Seq<char>)> {
    v.map_values(|p: (String, String)| (p.0@, p.1@))
}

fn concat(a: &str, b: &str) -> (res: String)
    ensures
        res@ == a@ + b@,
{
    let mut s = String::from_str(a);
    push_str(&mut s, b);
    s
}

/// See `spec_trunk_candidates`.
pub fn trunk_candidates(configured: &Option<String>) -> (res: Vec<(String, String)>)
    ensures
        pairs_view(res@) == spec_trunk_candidates(match configured {
            Some(n) => Some(n@),
            None => None,
        }),
{
    let mut v: Vec<(String, String)> = Vec::new();
    if let Some(n) = configured {
        v.push((concat("refs/remotes/", n.as_str()), n.clone()));
        v.push((concat("refs/remotes/origin/", n.as_str()), concat("origin/", n.as_str())));
    }
    v.push((String::from_str("refs/remotes/origin/main"), String::from_str("origin/main")));
    v.push((String::from_str("refs/remotes/origin/develop"), String::from_str("origin/develop")));
    v.push((String::from_str("refs/remotes/origin/master"), String::from_str("origin/master")));
    assert(pairs_view(v@) =~= spec_trunk_candidates(match configured {
        Some(n) => Some(n@),
        None => None,
    }));
    v
}

pub open spec fn is_slash() -> spec_fn(char) -> bool {
    |c: char| c == '/'
}

/// A remote branch name without its remote: what follows the first `/` (the whole
/// name when it has none).
pub open spec fn strip_remote(s: Seq<char>) -> Seq<char> {
    match crate::order::first_index(s, is_slash()) {
        Some(i) => s.skip(i + 1 as int),
        None => s,
    }
}

/// The remote branches kept as remote-only, in their order: not a `…/HEAD` pointer,
/// and no local branch carries the name without the remote.
pub open spec fn remote_only_kept(remotes: Seq<Seq<char>>, local: Seq<Seq<char>>) -> Seq<Seq<char>>
    decreases remotes.len(),
{
    if remotes.len() == 0 {
        Seq::empty()
    } else {
        let r = remotes.last();
        let rest = remote_only_kept(remotes.drop_last(), local);
        if !crate::text::has_suffix(r, "/HEAD"@) && !local.contains(strip_remote(r)) {
            rest.push(r)
        } else {
            rest
        }
    }
}

/// See `strip_remote`.
fn strip_remote_exec(s: &str) -> (res: String)
    ensures
        res@ == strip_remote(s@),
{
    let n = s.unicode_len();
    let mut i: usize = 0;
    while i < n
        invariant
            n == s@.len(),
            i <= n,
            forall|j: int| 0 <= j < i ==> s@[j] != '/',
        decreases n - i,
    {
        if s.get_char(i) == '/' {
            proof { crate::order::lemma_first_index(s@, is_slash()); }
            return chars_from(s, i + 1);
        }
        i += 1;
    }
    proof { crate::order::lemma_first_index(s@, is_slash()); }
    String::from_str(s)
}

/// The remote branches with no local counterpart (see `remote_only_kept`), sorted.
pub fn remote_only_branches(local: &Vec<String>, remotes: &Vec<String>) -> (res: Vec<String>)
    ensures
        strings_view(res@) == sorted_repos(remote_only_kept(strings_view(remotes@), strings_view(local@)), true),
{
    let ghost rv = strings_view(remotes@);
    let ghost lv = strings_view(local@);
    let mut out: Vec<String> = Vec::new();
    let mut i: usize = 0;
    assert(rv.take(0) =~= Seq::<Seq<char>>::empty());
    while i < remotes.len()
        invariant
            rv == strings_view(remotes@),
            lv == strings_view(local@),
            i <= remotes.len(),
            strings_view(out@) == remote_only_kept(rv.take(i as int), lv),
        decreases remotes.len() - i,
    {
        let r = &remotes[i];
        assert(rv.take(i + 1).drop_last() =~= rv.take(i as int));
        assert(rv.take(i + 1).last() == r@);
        let short = strip_remote_exec(r.as_str());
        if !crate::text::ends_with(r.as_str(), "/HEAD") && !contains_str(local, short.as_str()) {
            out.push(r.clone());
            assert(strings_view(out@) =~= remote_only_kept(rv.take(i as int), lv).push(r@));
        }
        i += 1;
    }
    assert(rv.take(remotes.len() as int) =~= rv);
    sort_repo_paths(&mut out, true);
    out
}

/// The local branches counted as merged into the trunk, in their order: those with a
/// comparison against the trunk that finds no commit ahead.
pub open spec fn merged_kept(results: Seq<(Seq<char>, Option<(usize, usize)>)>) -> Seq<Seq<char>>
    decreases results.len(),
{
    if results.len() == 0 {
        Seq::empty()
    } else {
        let rest = merged_kept(results.drop_last());
        match results.last().1 {
            Some((ahead, _)) => if ahead == 0 { rest.push(results.last().0) } else { rest },
            None => rest,
        }
    }
}

pub open spec fn results_view(v: Seq<(String, Option<(usize, usize)>)>) -> Seq<(Seq<char>, Option<(usize, usize)>)> {
    v.map_values(|r: (String, Option<(usize, usize)>)| (r.0@, r.1))
}

/// The branches merged into the trunk (see `merged_kept`), sorted.
pub fn merged_branch_names(results: &Vec<(String, Option<(usize, usize)>)>) -> (res: Vec<String>)
    ensures
        strings_view(res@) == sorted_repos(merged_kept(results_view(results@)), true),
        forall|n: Seq<char>| strings_view(res@).contains(n) <==> exists|i: int| 0 <= i < results@.len()
            && (#[trigger] results@[i]).0@ == n && crate::scan_laws::nothing_ahead(results@[i].1),
{
    let ghost rv = results_view(results@);
    let mut out: Vec<String> = Vec::new();
    let mut i: usize = 0;
    assert(rv.take(0) =~= Seq::<(Seq<char>, Option<(usize, usize)>)>::empty());
    while i < results.len()
        invariant
            rv == results_view(results@),
            i <= results.len(),
            strings_view(out@) == merged_kept(rv.take(i as int)),
        decreases results.len() - i,
    {
        assert(rv.take(i + 1).drop_last() =~= rv.take(i as int));
        assert(rv.take(i + 1).last() == rv[i as int]);
        if let Some((ahead, _)) = results[i].1 {
            if ahead == 0 {
                out.push(results[i].0.clone());
                assert(strings_view(out@) =~= merged_kept(rv.take(i as int)).push(rv[i as int].0));
            }
        }
        i += 1;
    }
    assert(rv.take(results.len() as int) =~= rv);
    sort_repo_paths(&mut out, true);
    proof {
        assert forall|n: Seq<char>| strings_view(out@).contains(n) <==> exists|i: int| 0 <= i < results@.len()
            && (#[trigger] results@[i]).0@ == n && crate::scan_laws::nothing_ahead(results@[i].1) by {
            crate::scan_laws::law_merged_means_nothing_ahead(rv, n);
            if exists|i: int| 0 <= i < rv.len() && (#[trigger] rv[i]).0 == n && crate::scan_laws::nothing_ahead(rv[i].1) {
                let i = choose|i: int| 0 <= i < rv.len() && (#[trigger] rv[i]).0 == n && crate::scan_laws::nothing_ahead(rv[i].1);
                assert(results@[i].0@ == n);
            }
            if exists|i: int| 0 <= i < results@.len() && (#[trigger] results@[i]).0@ == n && crate::scan_laws::nothing_ahead(results@[i].1) {
                let i = choose|i: int| 0 <= i < results@.len() && (#[trigger] results@[i]).0@ == n && crate::scan_laws::nothing_ahead(results@[i].1);
                assert(rv[i].0 == n);
            }
        }
    }
    out
}


#[verifier::external_type_specification]
#[verifier::external_body]
pub struct ExRepository(git2::Repository);

#[verifier::external_type_specification]
#[verifier::external_body]
pub struct ExOid(git2::Oid);

/// `git2::Repository::open`, its error turned into its message.  What it returns
/// depends on the disk; nothing is stated of it.
#[verifier::external_body]
fn open_repository(path: &str) -> (res: Result<git2::Repository, String>) {
    git2::Repository::open(path).map_err(|e| e.to_string())
}

/// `Repository::statuses(None)`: for each entry its path (`None` when git2 reports
/// none readable) and its `Status` bits, or the error's message.  What it returns
/// depends on the disk; nothing is stated of it.
#[verifier::external_body]
fn status_entries(repo: &git2::Repository) -> (res: Result<Vec<(Option<String>, u32)>, String>) {
    match repo.statuses(None) {
        Ok(st) => Ok(st.iter().map(|e| (e.path().ok().map(|p| p.to_string()), e.status().bits())).collect()),
        Err(e) => Err(e.to_string()),
    }
}

/// `Repository::head`: on success whether the reference `is_branch`, its `shorthand`
/// and its `target` as hex; on failure whether the error's code is
/// `ErrorCode::UnbornBranch`.  It depends on the disk; nothing is stated of it.
#[verifier::external_body]
fn head_reference(repo: &git2::Repository) -> (res: Result<(bool, Option<String>, Option<String>), bool>) {
    match repo.head() {
        Ok(h) => Ok((h.is_branch(), h.shorthand().ok().map(|s| s.to_string()), h.target().map(|o| o.to_string()))),
        Err(e) => Err(e.code() == git2::ErrorCode::UnbornBranch),
    }
}

/// `Repository::find_reference("HEAD")` then `Reference::symbolic_target`, when both
/// can be read.  It depends on the disk; nothing is stated of it.
#[verifier::external_body]
fn head_symbolic_target(repo: &git2::Repository) -> (res: Option<String>) {
    repo.find_reference("HEAD").ok().and_then(|r| r.symbolic_target().ok().flatten().map(|s| s.to_string()))
}

/// What HEAD is: a branch (by its short name), a detached head (by its commit's hex
/// id), an unborn branch (by HEAD's symbolic target), or unreadable.
fn read_head(repo: &git2::Repository) -> (res: HeadState) {
    match head_reference(repo) {
        Ok((true, short, _)) => HeadState::Branch(short),
        Ok((false, _, hex)) => HeadState::Detached(hex),
        Err(true) => HeadState::Unborn(head_symbolic_target(repo)),
        Err(false) => HeadState::Unreadable,
    }
}

/// The commit HEAD points at and its `shorthand`, when `Repository::head` succeeds and
/// has a target.  It depends on the disk; nothing is stated of it.
#[verifier::external_body]
fn head_tip(repo: &git2::Repository) -> (res: Option<(git2::Oid, Option<String>)>) {
    repo.head().ok().and_then(|h| h.target().map(|o| (o, h.shorthand().ok().map(|s| s.to_string()))))
}

/// `find_branch(name, Local)` then `Branch::upstream`: the upstream's target and its
/// `name`.  It depends on the disk; nothing is stated of it.
#[verifier::external_body]
fn upstream_of(repo: &git2::Repository, name: &str) -> (res: Option<(Option<git2::Oid>, Option<String>)>) {
    repo.find_branch(name, git2::BranchType::Local).ok().and_then(|b| b.upstream().ok()).map(
        |u| (u.get().target(), u.name().ok().flatten().map(|s| s.to_string())),
    )
}

/// `Repository::graph_ahead_behind(local, other)`, when it succeeds.  It depends on
/// the disk; nothing is stated of it.
#[verifier::external_body]
fn ahead_behind(repo: &git2::Repository, local: git2::Oid, other: git2::Oid) -> (res: Option<(usize, usize)>) {
    repo.graph_ahead_behind(local, other).ok()
}

/// `Repository::config` then `Config::get_string(key)`, when both succeed.  It depends
/// on the disk; nothing is stated of it.
#[verifier::external_body]
fn config_string(repo: &git2::Repository, key: &str) -> (res: Option<String>) {
    repo.config().ok().and_then(|c| c.get_string(key).ok())
}

/// `Repository::find_reference(name)`: `None` when not found, else its `target`.  It
/// depends on the disk; nothing is stated of it.
#[verifier::external_body]
fn reference_target(repo: &git2::Repository, name: &str) -> (res: Option<Option<git2::Oid>>) {
    repo.find_reference(name).ok().map(|r| r.target())
}

/// `Repository::branches` of one type (remote when `remote`): for each entry the
/// branch's `name` (`None` when unreadable) and its reference's `target`, or
/// `(None, None)` for an entry that came back as an error; an error of the listing
/// itself yields no entry.  It depends on the disk; nothing is stated of it.
#[verifier::external_body]
fn branch_list(repo: &git2::Repository, remote: bool) -> (res: Vec<(Option<String>, Option<git2::Oid>)>) {
    let kind = if remote { git2::BranchType::Remote } else { git2::BranchType::Local };
    match repo.branches(Some(kind)) {
        Ok(bs) => bs
            .map(|e| match e {
                Ok((b, _)) => (b.name().ok().flatten().map(|n| n.to_string()), b.get().target()),
                Err(_) => (None, None),
            })
            .collect(),
        Err(_) => Vec::new(),
    }
}

/// The names present in a list of optional names, in their order.
pub open spec fn present_names(names: Seq<Option<Seq<char>>>) -> Seq<Seq<char>>
    decreases names.len(),
{
    if names.len() == 0 {
        Seq::empty()
    } else {
        let rest = present_names(names.drop_last());
        match names.last() {
            Some(n) => rest.push(n),
            None => rest,
        }
    }
}

/// The optional names of a branch list.
pub open spec fn listed_names(list: Seq<(Option<String>, Option<git2::Oid>)>) -> Seq<Option<Seq<char>>> {
    list.map_values(|e: (Option<String>, Option<git2::Oid>)| crate::git::opt_view(e.0))
}

/// The names that could be read, in order.
fn readable_names(list: &Vec<(Option<String>, Option<git2::Oid>)>) -> (res: Vec<String>)
    ensures
        strings_view(res@) == present_names(listed_names(list@)),
{
    let ghost lv = listed_names(list@);
    let mut out: Vec<String> = Vec::new();
    let mut i: usize = 0;
    assert(lv.take(0) =~= Seq::<Option<Seq<char>>>::empty());
    while i < list.len()
        invariant
            lv == listed_names(list@),
            i <= list.len(),
            strings_view(out@) == present_names(lv.take(i as int)),
        decreases list.len() - i,
    {
        assert(lv.take(i + 1).drop_last() =~= lv.take(i as int));
        assert(lv.take(i + 1).last() == crate::git::opt_view(list@[i as int].0));
        if let Some(n) = &list[i].0 {
            let c = n.clone();
            out.push(c);
            assert(strings_view(out@) =~= present_names(lv.take(i as int)).push(n@));
        }
        i += 1;
    }
    assert(lv.take(list.len() as int) =~= lv);
    out
}

/// The name shown for an upstream: its name, or `upstream` when it has none.
pub open spec fn spec_upstream_label(name: Option<Seq<char>>) -> Seq<char> {
    match name {
        Some(n) => n,
        None => "upstream"@,
    }
}

/// See `spec_upstream_label`.
pub fn upstream_label(name: Option<String>) -> (res: String)
    ensures
        res@ == spec_upstream_label(crate::git::opt_view(name)),
{
    proof { reveal_strlit("upstream"); }
    match name {
        Some(n) => n,
        None => String::from_str("upstream"),
    }
}

/// The ahead/behind entry made of what comparing two commits gave (`None` when the
/// comparison failed): `ahead` and `behind` in that order, named `branch`.
pub fn ahead_behind_entry(counts: Option<(usize, usize)>, branch: String) -> (res: Option<AheadBehind>)
    ensures
        res is Some <==> counts is Some,
        res matches Some(ab) ==> ab.ahead == (counts->0).0 && ab.behind == (counts->0).1 && ab.branch@ == branch@,
{
    match counts {
        Some((ahead, behind)) => Some(AheadBehind { ahead, behind, branch }),
        None => None,
    }
}

/// Ahead/behind of HEAD against its branch's upstream, named by the upstream's name
/// (`upstream` when it has none): `ahead_behind_entry` of what comparing HEAD's commit
/// with the upstream's gave.  Whether there is a result, and its counts, rest on the
/// repository on disk.
fn upstream_status(repo: &git2::Repository) -> (res: Option<AheadBehind>)
    ensures
        res matches Some(ab) ==> exists|n: Option<Seq<char>>| ab.branch@ == #[trigger] spec_upstream_label(n),
{
    let (local, short) = match head_tip(repo) {
        Some((o, Some(s))) => (o, s),
        _ => return None,
    };
    let (target, name) = match upstream_of(repo, short.as_str()) {
        Some(u) => u,
        None => return None,
    };
    let up = match target {
        Some(t) => t,
        None => return None,
    };
    let branch = upstream_label(name);
    ahead_behind_entry(ahead_behind(repo, local, up), branch)
}

/// Of the candidates and what looking each up found (`None`: no such reference), the
/// first one found: its target and its shown name.
pub open spec fn trunk_pick(
    cands: Seq<(Seq<char>, Seq<char>)>,
    found: Seq<Option<Option<git2::Oid>>>,
) -> Option<(Option<git2::Oid>, Seq<char>)>
    decreases found.len(),
{
    if found.len() == 0 || cands.len() == 0 {
        None
    } else {
        match found[0] {
            Some(t) => Some((t, cands[0].1)),
            None => trunk_pick(cands.drop_first(), found.drop_first()),
        }
    }
}

proof fn lemma_trunk_pick_none(cands: Seq<(Seq<char>, Seq<char>)>, found: Seq<Option<Option<git2::Oid>>>)
    requires
        forall|j: int| 0 <= j < found.len() ==> #[trigger] found[j] is None,
    ensures
        trunk_pick(cands, found) is None,
    decreases found.len(),
{
    if found.len() > 0 && cands.len() > 0 {
        assert(found[0] is None);
        lemma_trunk_pick_none(cands.drop_first(), found.drop_first());
    }
}

proof fn lemma_trunk_pick_at(
    cands: Seq<(Seq<char>, Seq<char>)>,
    found: Seq<Option<Option<git2::Oid>>>,
    i: int,
    t: Option<git2::Oid>,
)
    requires
        0 <= i < found.len(),
        i < cands.len(),
        forall|j: int| 0 <= j < i ==> #[trigger] found[j] is None,
        found[i] == Some(t),
    ensures
        trunk_pick(cands, found) == Some((t, cands[i].1)),
    decreases i,
{
    if i > 0 {
        assert(found[0] is None);
        assert forall|j: int| 0 <= j < i - 1 implies #[trigger] found.drop_first()[j] is None by {
            assert(found[j + 1] is None);
        }
        lemma_trunk_pick_at(cands.drop_first(), found.drop_first(), i - 1, t);
    }
}

pub open spec fn trunk_view(r: Option<(Option<git2::Oid>, String)>) -> Option<(Option<git2::Oid>, Seq<char>)> {
    match r {
        Some((t, n)) => Some((t, n@)),
        None => None,
    }
}

/// See `trunk_pick`: the first candidate whose lookup found a reference, with that
/// reference's target and the candidate's shown name.
pub fn pick_trunk(cands: &Vec<(String, String)>, found: &Vec<Option<Option<git2::Oid>>>) -> (res: Option<(Option<git2::Oid>, String)>)
    ensures
        trunk_view(res) == trunk_pick(pairs_view(cands@), found@),
{
    let ghost cv = pairs_view(cands@);
    let mut i: usize = 0;
    while i < cands.len() && i < found.len()
        invariant
            cv == pairs_view(cands@),
            i <= cands.len(),
            i <= found.len(),
            forall|j: int| 0 <= j < i ==> #[trigger] found@[j] is None,
        decreases cands.len() - i,
    {
        match &found[i] {
            Some(t) => {
                let t: Option<git2::Oid> = *t;
                proof {
                    lemma_trunk_pick_at(cv, found@, i as int, t);
                }
                let name = cands[i].1.clone();
                assert(cv[i as int].1 == cands@[i as int].1@);
                return Some((t, name));
            },
            None => {},
        }
        i += 1;
    }
    proof {
        if i == found.len() {
            lemma_trunk_pick_none(cv, found@);
        } else {
            lemma_trunk_pick_exhausted(cv, found@);
        }
    }
    None
}

/// Without candidates left, nothing is picked, whatever was found.
proof fn lemma_trunk_pick_exhausted(cands: Seq<(Seq<char>, Seq<char>)>, found: Seq<Option<Option<git2::Oid>>>)
    requires
        cands.len() <= found.len(),
        forall|j: int| 0 <= j < cands.len() ==> #[trigger] found[j] is None,
    ensures
        trunk_pick(cands, found) is None,
    decreases cands.len(),
{
    if found.len() > 0 && cands.len() > 0 {
        assert(found[0] is None);
        assert forall|j: int| 0 <= j < cands.len() - 1 implies #[trigger] found.drop_first()[j] is None by {
            assert(found[j + 1] is None);
        }
        lemma_trunk_pick_exhausted(cands.drop_first(), found.drop_first());
    }
}

/// The first trunk candidate (see `trunk_candidates`) whose reference exists, chosen by
/// `pick_trunk` from looking each candidate up: its target and its shown name.  The
/// configured name and which references exist rest on the repository on disk.
fn resolve_trunk(repo: &git2::Repository) -> (res: Option<(Option<git2::Oid>, String)>)
    ensures
        exists|c: Option<Seq<char>>, found: Seq<Option<Option<git2::Oid>>>|
            found.len() == spec_trunk_candidates(c).len()
            && trunk_view(res) == #[trigger] trunk_pick(spec_trunk_candidates(c), found),
{
    let configured = config_string(repo, "gitover.trunkbranch");
    let cands = trunk_candidates(&configured);
    let mut found: Vec<Option<Option<git2::Oid>>> = Vec::new();
    let mut i: usize = 0;
    while i < cands.len()
        invariant
            i <= cands.len(),
            found.len() == i,
        decreases cands.len() - i,
    {
        found.push(reference_target(repo, cands[i].0.as_str()));
        i += 1;
    }
    let res = pick_trunk(&cands, &found);
    assert(trunk_view(res) == trunk_pick(spec_trunk_candidates(crate::git::opt_view(configured)), found@));
    res
}

/// Ahead/behind of HEAD against the trunk, named by the trunk's shown name (see
/// `resolve_trunk`): `ahead_behind_entry` of what comparing HEAD's commit with the
/// trunk's gave.  Whether there is a result, and its counts, rest on the
/// repository on disk.
fn trunk_status(repo: &git2::Repository) -> (res: Option<AheadBehind>)
    ensures
        res matches Some(ab) ==> exists|c: Option<Seq<char>>, found: Seq<Option<Option<git2::Oid>>>|
            found.len() == spec_trunk_candidates(c).len()
            && #[trigger] trunk_pick(spec_trunk_candidates(c), found) is Some
            && (trunk_pick(spec_trunk_candidates(c), found)->0).1 == ab.branch@,
{
    let local = match head_tip(repo) {
        Some((o, _)) => o,
        None => return None,
    };
    let (target, branch) = match resolve_trunk(repo) {
        Some(t) => t,
        None => return None,
    };
    let trunk = match target {
        Some(t) => t,
        None => return None,
    };
    ahead_behind_entry(ahead_behind(repo, local, trunk), branch)
}

/// The local branches merged into the trunk, sorted (none without a trunk).
fn merged_branches(repo: &git2::Repository, locals: &Vec<(Option<String>, Option<git2::Oid>)>) -> (res: Vec<String>)
    ensures
        exists|m: Seq<(Seq<char>, Option<(usize, usize)>)>|
            strings_view(res@) == sorted_repos(#[trigger] merged_kept(m), true),
{
    let trunk = match resolve_trunk(repo) {
        Some((Some(t), _)) => t,
        _ => {
            let none: Vec<String> = Vec::new();
            assert(strings_view(none@) =~= sorted_repos(
                merged_kept(Seq::<(Seq<char>, Option<(usize, usize)>)>::empty()),
                true,
            ));
            return none;
        },
    };
    let mut results: Vec<(String, Option<(usize, usize)>)> = Vec::new();
    let mut i: usize = 0;
    while i < locals.len()
        invariant
            i <= locals.len(),
        decreases locals.len() - i,
    {
        if let (Some(name), Some(tip)) = (&locals[i].0, &locals[i].1) {
            results.push((name.clone(), ahead_behind(repo, *tip, trunk)));
        }
        i += 1;
    }
    merged_branch_names(&results)
}

/// Read the status of the repository at `path`: the branch label, the classified and
/// ordered files with their counts, ahead/behind against upstream and trunk, the sorted
/// local branches, the remote-only branches and the branches merged into the trunk.
/// The counts are those of the listed files of each kind.  Opening the repository or
/// reading its status can fail; the error's message is returned.
pub fn get_repo_status(path: &str, case_sensitive: bool) -> (res: Result<RepoStatus, String>)
    ensures
        res matches Ok(s) ==> {
            &&& s.path@ == path@
            &&& s.error is None
            &&& crate::order::sorted_by_key(files_view(s.files@), file_key(case_sensitive))
            &&& s.conflict == kind_count(files_view(s.files@), FileStatusKind::Conflict)
            &&& s.staged == kind_count(files_view(s.files@), FileStatusKind::Staged)
            &&& s.added == kind_count(files_view(s.files@), FileStatusKind::Untracked)
            &&& s.modified == kind_count(files_view(s.files@), FileStatusKind::Modified)
            &&& s.deleted == kind_count(files_view(s.files@), FileStatusKind::Deleted)
            &&& crate::order::sorted_by_key(strings_view(s.local_branches@), crate::state::repo_key(true))
            &&& exists|h: HeadState| s.branch@ == #[trigger] spec_branch_label(h)
            &&& exists|e: Seq<(Option<Seq<char>>, u32)>|
                files_view(s.files@) == sort_by_key(#[trigger] listed_files(e), file_key(case_sensitive))
            &&& exists|r: Seq<Seq<char>>|
                strings_view(s.remote_only_branches@) == sorted_repos(
                    #[trigger] remote_only_kept(r, strings_view(s.local_branches@)),
                    true,
                )
            &&& exists|m: Seq<(Seq<char>, Option<(usize, usize)>)>|
                strings_view(s.merged_branches@) == sorted_repos(#[trigger] merged_kept(m), true)
            &&& exists|l: Seq<Option<Seq<char>>>|
                strings_view(s.local_branches@) == sorted_repos(#[trigger] present_names(l), true)
            &&& (s.upstream matches Some(ab) ==> exists|n: Option<Seq<char>>| ab.branch@ == #[trigger] spec_upstream_label(n))
            &&& (s.trunk matches Some(ab) ==> exists|c: Option<Seq<char>>, found: Seq<Option<Option<git2::Oid>>>|
                found.len() == spec_trunk_candidates(c).len()
                && #[trigger] trunk_pick(spec_trunk_candidates(c), found) is Some
                && (trunk_pick(spec_trunk_candidates(c), found)->0).1 == ab.branch@)
        },
{
    let repo = match open_repository(path) {
        Ok(r) => r,
        Err(e) => return Err(e),
    };
    let entries = match status_entries(&repo) {
        Ok(v) => v,
        Err(e) => return Err(e),
    };
    let head = read_head(&repo);
    let branch = branch_label(&head);
    let counts = classify_entries(&entries, case_sensitive);
    proof {
        let listed = listed_files(entries_view(entries@));
        crate::order::lemma_sort_by_key_sorted_permutation(listed, file_key(case_sensitive));
        lemma_kind_count_sorted(listed, FileStatusKind::Conflict, case_sensitive);
        lemma_kind_count_sorted(listed, FileStatusKind::Staged, case_sensitive);
        lemma_kind_count_sorted(listed, FileStatusKind::Untracked, case_sensitive);
        lemma_kind_count_sorted(listed, FileStatusKind::Modified, case_sensitive);
        lemma_kind_count_sorted(listed, FileStatusKind::Deleted, case_sensitive);
    }
    let upstream = upstream_status(&repo);
    let trunk = trunk_status(&repo);
    let locals = branch_list(&repo, false);
    let mut local_branches = readable_names(&locals);
    let ghost unsorted = strings_view(local_branches@);
    sort_repo_paths(&mut local_branches, true);
    proof {
        crate::order::lemma_sort_by_key_sorted_permutation(unsorted, crate::state::repo_key(true));
    }
    let remotes = readable_names(&branch_list(&repo, true));
    let remote_only = remote_only_branches(&local_branches, &remotes);
    let merged = merged_branches(&repo, &locals);
    proof {
        assert(strings_view(local_branches@) == sorted_repos(present_names(listed_names(locals@)), true));
        assert(branch@ == spec_branch_label(head));
        assert(files_view(counts.files@) == sort_by_key(listed_files(entries_view(entries@)), file_key(case_sensitive)));
        assert(strings_view(remote_only@) == sorted_repos(
            remote_only_kept(strings_view(remotes@), strings_view(local_branches@)),
            true,
        ));
    }
    Ok(RepoStatus {
        path: String::from_str(path),
        branch,
        added: counts.added,
        modified: counts.modified,
        staged: counts.staged,
        deleted: counts.deleted,
        conflict: counts.conflict,
        upstream,
        trunk,
        local_branches,
        remote_only_branches: remote_only,
        merged_branches: merged,
        files: counts.files,
        error: None,
    })
}

/// What was read of one local branch: its name, whether HEAD is on it, the comparison
/// with its upstream, and the commits ahead of / behind the trunk.
pub struct LocalBranchFacts {
    pub name: String,
    pub is_head: bool,
    pub upstream: Option<AheadBehind>,
    pub against_trunk: Option<(usize, usize)>,
}

/// A local branch is the trunk's counterpart when the trunk's name ends with `/` and
/// the branch name.
pub open spec fn is_trunk_branch(trunk: Option<Seq<char>>, name: Seq<char>) -> bool {
    match trunk {
        Some(t) => crate::text::has_suffix(t, "/"@ + name),
        None => false,
    }
}

/// A branch is merged to the trunk when it has no commit the trunk lacks and the trunk
/// has at least one commit it lacks.
pub open spec fn spec_merged_to_trunk(against_trunk: Option<(usize, usize)>) -> bool {
    against_trunk matches Some((ahead, behind)) && ahead == 0 && behind >= 1
}

/// Whether a branch, given its commits ahead of / behind the trunk, is fully merged
/// to it (see `spec_merged_to_trunk`).
pub fn merged_to_trunk(against_trunk: Option<(usize, usize)>) -> (res: bool)
    ensures
        res == spec_merged_to_trunk(against_trunk),
{
    match against_trunk {
        Some((ahead, behind)) => ahead == 0 && behind >= 1,
        None => false,
    }
}

/// The Branches pane's entry for a local branch.  It is marked merged when it is
/// compared with a trunk other than itself and is merged to it.
pub open spec fn local_entry_ok(b: BranchInfo, f: LocalBranchFacts, trunk: Option<Seq<char>>) -> bool {
    let is_trunk = is_trunk_branch(trunk, f.name@);
    &&& b.is_merged == (trunk is Some && !is_trunk && spec_merged_to_trunk(f.against_trunk))
    &&& b.name@ == f.name@
    &&& b.is_current == f.is_head
    &&& !b.is_remote_only
    &&& b.is_trunk == is_trunk
    &&& b.upstream == f.upstream
    &&& match (trunk, f.against_trunk) {
        (Some(t), Some((ahead, behind))) => if is_trunk {
            b.trunk is None
        } else {
            b.trunk matches Some(ab) && ab.ahead == ahead && ab.behind == behind && ab.branch@ == t
        },
        _ => b.trunk is None,
    }
}

/// The Branches pane's entry for a remote-only branch: named without its remote.
pub open spec fn remote_entry_ok(b: BranchInfo, full: Seq<char>, trunk: Option<Seq<char>>) -> bool {
    &&& b.name@ == strip_remote(full)
    &&& !b.is_current
    &&& b.is_remote_only
    &&& !b.is_merged
    &&& b.is_trunk == (trunk == Some(full))
    &&& b.upstream is None
    &&& b.trunk is None
}

fn with_slash(name: &str) -> (res: String)
    ensures
        res@ == "/"@ + name@,
{
    let mut s = String::from_str("/");
    push_str(&mut s, name);
    s
}

/// The Branches pane's list: the local branches in their order, then the remote-only
/// branches (see `local_entry_ok` and `remote_entry_ok`); `trunk` is the trunk's
/// shown name, when there is a trunk.
pub fn assemble_branches(locals: Vec<LocalBranchFacts>, remote_only: &Vec<String>, trunk: &Option<String>) -> (res: Vec<BranchInfo>)
    ensures
        res@.len() == locals@.len() + remote_only@.len(),
        forall|i: int| 0 <= i < locals@.len() ==> local_entry_ok(#[trigger] res@[i], locals@[i], opt_view(*trunk)),
        forall|j: int| 0 <= j < remote_only@.len() ==> remote_entry_ok(
            #[trigger] res@[locals@.len() + j],
            remote_only@[j]@,
            opt_view(*trunk),
        ),
{
    let ghost tv = opt_view(*trunk);
    let ghost orig = locals@;
    let mut rest = locals;
    let mut out: Vec<BranchInfo> = Vec::new();
    let n = rest.len();
    while rest.len() > 0
        invariant
            n == orig.len(),
            tv == opt_view(*trunk),
            out@.len() + rest@.len() == n,
            rest@ == orig.skip(out@.len() as int),
            forall|i: int| 0 <= i < out@.len() ==> local_entry_ok(#[trigger] out@[i], orig[i], tv),
        decreases rest.len(),
    {
        let ghost k = out@.len() as int;
        let f = rest.remove(0);
        assert(f == orig[k]);
        assert(rest@ =~= orig.skip(k + 1));
        let is_trunk = match trunk {
            Some(t) => crate::text::ends_with(t.as_str(), with_slash(f.name.as_str()).as_str()),
            None => false,
        };
        let trunk_ab = match (trunk, f.against_trunk) {
            (Some(t), Some((ahead, behind))) => if is_trunk {
                None
            } else {
                Some(AheadBehind { ahead, behind, branch: t.clone() })
            },
            _ => None,
        };
        let b = BranchInfo {
            name: f.name,
            is_current: f.is_head,
            is_remote_only: false,
            is_trunk,
            upstream: f.upstream,
            trunk: trunk_ab,
            is_merged: trunk.is_some() && !is_trunk && merged_to_trunk(f.against_trunk),
        };
        out.push(b);
    }
    let mut j: usize = 0;
    while j < remote_only.len()
        invariant
            n == orig.len(),
            tv == opt_view(*trunk),
            j <= remote_only@.len(),
            out@.len() == n + j,
            forall|i: int| 0 <= i < n ==> local_entry_ok(#[trigger] out@[i], orig[i], tv),
            forall|x: int| 0 <= x < j ==> remote_entry_ok(#[trigger] out@[n + x], remote_only@[x]@, tv),
        decreases remote_only@.len() - j,
    {
        let full = &remote_only[j];
        let is_trunk = match trunk {
            Some(t) => crate::text::str_eq(t.as_str(), full.as_str()),
            None => false,
        };
        let b = BranchInfo {
            name: strip_remote_exec(full.as_str()),
            is_current: false,
            is_remote_only: true,
            is_trunk,
            upstream: None,
            trunk: None,
            is_merged: false,
        };
        out.push(b);
        assert(out@[n + j as int] == b);
        j += 1;
    }
    out
}

/// Counting kinds distributes over concatenation.
pub proof fn lemma_kind_count_concat(a: Seq<(Seq<char>, FileStatusKind)>, b: Seq<(Seq<char>, FileStatusKind)>, k: FileStatusKind)
    ensures
        kind_count(a + b, k) == kind_count(a, k) + kind_count(b, k),
    decreases b.len(),
{
    if b.len() == 0 {
        assert(a + b =~= a);
    } else {
        lemma_kind_count_concat(a, b.drop_last(), k);
        assert((a + b).drop_last() =~= a + b.drop_last());
        assert((a + b).last() == b.last());
    }
}

/// Ordering the files keeps the number of files of each kind.
proof fn lemma_kind_count_sorted(s: Seq<(Seq<char>, FileStatusKind)>, k: FileStatusKind, cs: bool)
    ensures
        kind_count(sort_by_key(s, file_key(cs)), k) == kind_count(s, k),
    decreases s.len(),
{
    if s.len() > 0 {
        let o = sort_by_key(s.drop_last(), file_key(cs));
        lemma_kind_count_sorted(s.drop_last(), k, cs);
        crate::order::lemma_insert_pos_bounds(o, (file_key(cs))(s.last()), file_key(cs));
        let pos = crate::order::insert_pos(o, (file_key(cs))(s.last()), file_key(cs)) as int;
        let e = seq![s.last()];
        assert(o.insert(pos, s.last()) =~= o.take(pos) + e + o.skip(pos));
        assert(o =~= o.take(pos) + o.skip(pos));
        lemma_kind_count_concat(o.take(pos) + e, o.skip(pos), k);
        lemma_kind_count_concat(o.take(pos), e, k);
        lemma_kind_count_concat(o.take(pos), o.skip(pos), k);
        assert(e.drop_last() =~= Seq::<(Seq<char>, FileStatusKind)>::empty());
        assert(s.drop_last() + e =~= s);
        lemma_kind_count_concat(s.drop_last(), e, k);
    }
}

} // verus!
