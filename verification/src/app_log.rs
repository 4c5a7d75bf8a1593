//! The output log, popup messages, per-repository operations and small per-file helpers.
use vstd::prelude::*;
use crate::app::{App, AppMode, LogLevel, LogLine, MAX_LOG_LINES, RepoOperation, spec_formatted};
use crate::git::{FileEntry, FileStatusKind};
use crate::order::{first_index, lemma_first_index, lemma_first_index_skip};
use crate::text::{chars_of, is_alphanumeric, push_char, push_str, spec_is_alphanumeric, spec_trim, str_eq, string_from_chars, trimmed};

verus! {

/// The newest `MAX_LOG_LINES` entries of `s`.
pub open spec fn capped(s: Seq<LogLine>) -> Seq<LogLine> {
    if s.len() > MAX_LOG_LINES { s.skip(s.len() - MAX_LOG_LINES) } else { s }
}

/// The newest `MAX_LOG_LINES` items of `s`.
pub open spec fn cap_seq<T>(s: Seq<T>) -> Seq<T> {
    if s.len() > MAX_LOG_LINES { s.skip(s.len() - MAX_LOG_LINES) } else { s }
}

/// What a log holds apart from the time stamps: each line's level and text.
pub open spec fn log_entries(s: Seq<LogLine>) -> Seq<(LogLevel, Seq<char>)> {
    s.map_values(|l: LogLine| (l.level, l.text@))
}

/// A log after `new` entries were appended one by one, each append keeping the newest
/// `MAX_LOG_LINES` entries: unchanged when nothing was appended.
pub open spec fn appended<T>(old: Seq<T>, new: Seq<T>) -> Seq<T> {
    if new.len() == 0 { old } else { cap_seq(old + new) }
}

/// Appending one entry to a log that already holds `new` appended entries.
pub proof fn lemma_appended_push<T>(old: Seq<T>, new: Seq<T>, x: T)
    ensures
        cap_seq(appended(old, new).push(x)) == appended(old, new.push(x)),
{
    assert(old + new.push(x) =~= (old + new).push(x));
    let a = old + new;
    if new.len() > 0 && a.len() > MAX_LOG_LINES {
        assert(a.skip(a.len() - MAX_LOG_LINES).push(x).skip(1) =~= a.push(x).skip(a.push(x).len() - MAX_LOG_LINES));
    }
    if new.len() == 0 {
        assert(old + new =~= old);
    }
}

/// Each line of a log appended to and capped is the new line or one of the old ones.
pub proof fn lemma_capped_elems(s: Seq<LogLine>, l: LogLine)
    ensures
        forall|j: int| 0 <= j < capped(s.push(l)).len() ==> #[trigger] capped(s.push(l))[j] == l
            || s.contains(capped(s.push(l))[j]),
{
    let t = s.push(l);
    assert forall|j: int| 0 <= j < capped(t).len() implies #[trigger] capped(t)[j] == l || s.contains(capped(t)[j]) by {
        let k = if t.len() > MAX_LOG_LINES { j + t.len() - MAX_LOG_LINES } else { j };
        assert(capped(t)[j] == t[k]);
        if k < s.len() {
            assert(t[k] == s[k]);
        }
    }
}

/// The entries of a log appended to and capped.
pub proof fn lemma_log_entries_push(s: Seq<LogLine>, l: LogLine)
    ensures
        log_entries(capped(s.push(l))) == cap_seq(log_entries(s).push((l.level, l.text@))),
{
    assert(log_entries(s.push(l)) =~= log_entries(s).push((l.level, l.text@)));
    if s.push(l).len() > MAX_LOG_LINES {
        assert(log_entries(s.push(l).skip(s.push(l).len() - MAX_LOG_LINES)) =~= log_entries(s.push(l)).skip(
            s.push(l).len() - MAX_LOG_LINES,
        ));
    }
}

/// The entries `record_op_result` appends: an `Error` line `'LABEL' failed in PATH`
/// when the operation failed, then each output line as an `Info` line indented by two
/// spaces.
pub open spec fn op_result_entries(op_label: Seq<char>, repo_path: Seq<char>, success: bool, lines: Seq<Seq<char>>) -> Seq<(LogLevel, Seq<char>)> {
    (if success {
        Seq::empty()
    } else {
        seq![(LogLevel::Error, "'"@ + op_label + "' failed in "@ + repo_path)]
    }) + lines.map_values(|l: Seq<char>| (LogLevel::Info, "  "@ + l))
}


/// The formatted log lines joined with newlines.
pub open spec fn joined_log(ls: Seq<LogLine>) -> Seq<char>
    decreases ls.len(),
{
    if ls.len() == 0 {
        Seq::empty()
    } else if ls.len() == 1 {
        spec_formatted(ls[0])
    } else {
        joined_log(ls.drop_last()) + "\n"@ + spec_formatted(ls.last())
    }
}

/// The predicate "this entry is for repository `k`".
pub open spec fn op_key_is(k: Seq<char>) -> spec_fn((String, RepoOperation)) -> bool {
    |e: (String, RepoOperation)| e.0@ == k
}

/// The operation recorded for repository `k`.
pub open spec fn op_lookup(ops: Seq<(String, RepoOperation)>, k: Seq<char>) -> Option<RepoOperation> {
    match first_index(ops, op_key_is(k)) {
        Some(i) => Some(ops[i as int].1),
        None => None,
    }
}

/// No repository has two entries.
pub open spec fn ops_unique(ops: Seq<(String, RepoOperation)>) -> bool {
    forall|i: int, j: int| 0 <= i < j < ops.len() ==> #[trigger] ops[i].0@ != #[trigger] ops[j].0@
}

/// The kinds of the files, each once, in order of first occurrence.
pub open spec fn kinds_of(files: Seq<FileEntry>) -> Seq<FileStatusKind>
    decreases files.len(),
{
    if files.len() == 0 {
        Seq::empty()
    } else {
        let rest = kinds_of(files.drop_last());
        if rest.contains(files.last().status) { rest } else { rest.push(files.last().status) }
    }
}

/// The characters kept in a branch name: letters, digits and `-`, `_`, `/`, `.`.
pub open spec fn branch_char_ok(c: char) -> bool {
    spec_is_alphanumeric(c) || c == '-' || c == '_' || c == '/' || c == '.'
}

/// A branch name made from `s`: spaces become `-`, other disallowed characters are
/// dropped.
pub open spec fn branch_chars(s: Seq<char>) -> Seq<char>
    decreases s.len(),
{
    if s.len() == 0 {
        Seq::empty()
    } else {
        let rest = branch_chars(s.drop_last());
        let c = s.last();
        if c == ' ' { rest.push('-') } else if branch_char_ok(c) { rest.push(c) } else { rest }
    }
}

/// In a list without repeated repositories, the entry for `ops[i].0` is at `i`.
proof fn lemma_unique_lookup(ops: Seq<(String, RepoOperation)>, i: int)
    requires
        ops_unique(ops),
        0 <= i < ops.len(),
    ensures
        first_index(ops, op_key_is(ops[i].0@)) == Some(i as nat),
{
    let k = ops[i].0@;
    lemma_first_index(ops, op_key_is(k));
    match first_index(ops, op_key_is(k)) {
        Some(j) => {
            assert((op_key_is(k))(ops[j as int]));
            if j < i {
                assert(ops[j as int].0@ != ops[i].0@);
            } else if j > i {
                assert(!(op_key_is(k))(ops[i]));
            }
        },
        None => {
            assert(!(op_key_is(k))(ops[i]));
        },
    }
}

/// Looking up a key that no entry has.
proof fn lemma_absent_lookup(ops: Seq<(String, RepoOperation)>, k: Seq<char>)
    requires
        forall|i: int| 0 <= i < ops.len() ==> #[trigger] ops[i].0@ != k,
    ensures
        first_index(ops, op_key_is(k)) is None,
{
    lemma_first_index(ops, op_key_is(k));
    match first_index(ops, op_key_is(k)) {
        Some(j) => {
            assert((op_key_is(k))(ops[j as int]));
        },
        None => {},
    }
}

/// Looking up `k` is the same in two lists with the same entries for `k`.
proof fn lemma_lookup_same(a: Seq<(String, RepoOperation)>, b: Seq<(String, RepoOperation)>, k: Seq<char>)
    requires
        ops_unique(a),
        ops_unique(b),
        forall|i: int| 0 <= i < a.len() && a[i].0@ == k ==> exists|j: int| 0 <= j < b.len() && #[trigger] b[j] == a[i],
        forall|j: int| 0 <= j < b.len() && b[j].0@ == k ==> exists|i: int| 0 <= i < a.len() && #[trigger] a[i] == b[j],
    ensures
        op_lookup(a, k) == op_lookup(b, k),
{
    lemma_first_index(a, op_key_is(k));
    lemma_first_index(b, op_key_is(k));
    match first_index(a, op_key_is(k)) {
        Some(i) => {
            assert((op_key_is(k))(a[i as int]));
            let j = choose|j: int| 0 <= j < b.len() && #[trigger] b[j] == a[i as int];
            lemma_unique_lookup(b, j);
        },
        None => {
            match first_index(b, op_key_is(k)) {
                Some(j) => {
                    assert((op_key_is(k))(b[j as int]));
                    let i = choose|i: int| 0 <= i < a.len() && #[trigger] a[i] == b[j as int];
                    assert(!(op_key_is(k))(a[i]));
                },
                None => {},
            }
        },
    }
}

/// The index of the entry for `path`, if any.
fn op_position(ops: &Vec<(String, RepoOperation)>, path: &str) -> (res: Option<usize>)
    ensures
        res matches Some(i) ==> first_index(ops@, op_key_is(path@)) == Some(i as nat) && i < ops@.len(),
        res is None ==> first_index(ops@, op_key_is(path@)) is None,
{
    let ghost s = ops@;
    let mut i: usize = 0;
    assert(s.skip(0) =~= s);
    while i < ops.len()
        invariant
            s == ops@,
            i <= s.len(),
            first_index(s, op_key_is(path@)) == (match first_index(s.skip(i as int), op_key_is(path@)) {
                Some(j) => Some((j + i) as nat),
                None => None::<nat>,
            }),
        decreases s.len() - i,
    {
        assert(s.skip(i as int)[0] == s[i as int]);
        if str_eq(ops[i].0.as_str(), path) {
            assert((op_key_is(path@))(s[i as int]));
            return Some(i);
        }
        proof { lemma_first_index_skip(s, op_key_is(path@), i as int); }
        i += 1;
    }
    None
}

/// Append a line of the given level, stamped with the current time, and keep the
/// newest `MAX_LOG_LINES` lines.
pub fn push_log_line(log: &mut Vec<LogLine>, level: LogLevel, text: &str)
    ensures
        final(log)@ == capped(old(log)@.push(final(log)@.last())),
        final(log)@.last().level == level,
        final(log)@.last().text@ == text@,
        crate::app::is_hms(final(log)@.last().timestamp@),
{
    let line = LogLine::new_at(level, text);
    let ghost l = line;
    log.push(line);
    cap_log(log);
    assert(log@.last() == l);
}

/// Drop the oldest entries until at most `MAX_LOG_LINES` remain.
fn cap_log(log: &mut Vec<LogLine>)
    ensures
        final(log)@ == capped(old(log)@),
{
    let ghost start = log@;
    let n = log.len();
    if n <= MAX_LOG_LINES {
        return;
    }
    let drop = n - MAX_LOG_LINES;
    let mut k: usize = 0;
    assert(start.skip(0) =~= start);
    while k < drop
        invariant
            n == start.len(),
            drop == n - MAX_LOG_LINES,
            k <= drop,
            log@ == start.skip(k as int),
        decreases drop - k,
    {
        log.remove(0);
        assert(log@ =~= start.skip(k + 1));
        k += 1;
    }
}

/// Record that `op` is running for repository `path` (replacing any earlier entry).
fn ops_insert(ops: &mut Vec<(String, RepoOperation)>, path: &str, op: RepoOperation)
    requires
        ops_unique(old(ops)@),
    ensures
        ops_unique(final(ops)@),
        op_lookup(final(ops)@, path@) == Some(op),
        forall|k: Seq<char>| k != path@ ==> #[trigger] op_lookup(final(ops)@, k) == op_lookup(old(ops)@, k),
{
    let ghost old_ops = ops@;
    let key = string_from_chars(chars_of(path).as_slice());
    match op_position(ops, path) {
        Some(i) => {
            proof {
                lemma_first_index(old_ops, op_key_is(path@));
                assert((op_key_is(path@))(old_ops[i as int]));
            }
            ops.set(i, (key, op));
            proof {
                let new_ops = ops@;
                assert(new_ops[i as int].0@ == old_ops[i as int].0@);
                assert forall|a: int, b: int| 0 <= a < b < new_ops.len() implies #[trigger] new_ops[a].0@ != #[trigger] new_ops[b].0@ by {
                    assert(old_ops[a].0@ != old_ops[b].0@);
                    assert(new_ops[a].0@ == old_ops[a].0@);
                    assert(new_ops[b].0@ == old_ops[b].0@);
                }
                lemma_unique_lookup(new_ops, i as int);
                assert forall|k: Seq<char>| k != path@ implies #[trigger] op_lookup(new_ops, k) == op_lookup(old_ops, k) by {
                    assert forall|x: int| 0 <= x < old_ops.len() && old_ops[x].0@ == k implies exists|y: int| 0 <= y < new_ops.len() && #[trigger] new_ops[y] == old_ops[x] by {
                        assert(new_ops[x] == old_ops[x]);
                    }
                    assert forall|y: int| 0 <= y < new_ops.len() && new_ops[y].0@ == k implies exists|x: int| 0 <= x < old_ops.len() && #[trigger] old_ops[x] == new_ops[y] by {
                        assert(old_ops[y] == new_ops[y]);
                    }
                    lemma_lookup_same(old_ops, new_ops, k);
                }
            }
        },
        None => {
            proof {
                lemma_first_index(old_ops, op_key_is(path@));
            }
            ops.push((key, op));
            proof {
                let new_ops = ops@;
                assert forall|a: int| 0 <= a < old_ops.len() implies #[trigger] old_ops[a].0@ != path@ by {
                    assert(!(op_key_is(path@))(old_ops[a]));
                }
                assert forall|a: int, b: int| 0 <= a < b < new_ops.len() implies #[trigger] new_ops[a].0@ != #[trigger] new_ops[b].0@ by {
                    if b < old_ops.len() {
                        assert(old_ops[a].0@ != old_ops[b].0@);
                    } else {
                        assert(new_ops[a] == old_ops[a]);
                    }
                }
                lemma_unique_lookup(new_ops, old_ops.len() as int);
                assert forall|k: Seq<char>| k != path@ implies #[trigger] op_lookup(new_ops, k) == op_lookup(old_ops, k) by {
                    assert forall|x: int| 0 <= x < old_ops.len() && old_ops[x].0@ == k implies exists|y: int| 0 <= y < new_ops.len() && #[trigger] new_ops[y] == old_ops[x] by {
                        assert(new_ops[x] == old_ops[x]);
                    }
                    assert forall|y: int| 0 <= y < new_ops.len() && new_ops[y].0@ == k implies exists|x: int| 0 <= x < old_ops.len() && #[trigger] old_ops[x] == new_ops[y] by {
                        assert(old_ops[y] == new_ops[y]);
                    }
                    lemma_lookup_same(old_ops, new_ops, k);
                }
            }
        },
    }
}

/// Forget the operation of repository `path`.
fn ops_remove(ops: &mut Vec<(String, RepoOperation)>, path: &str)
    requires
        ops_unique(old(ops)@),
    ensures
        ops_unique(final(ops)@),
        op_lookup(final(ops)@, path@) is None,
        forall|k: Seq<char>| k != path@ ==> #[trigger] op_lookup(final(ops)@, k) == op_lookup(old(ops)@, k),
{
    let ghost old_ops = ops@;
    match op_position(ops, path) {
        Some(i) => {
            proof {
                lemma_first_index(old_ops, op_key_is(path@));
                assert((op_key_is(path@))(old_ops[i as int]));
            }
            ops.remove(i);
            proof {
                let new_ops = ops@;
                assert forall|a: int| 0 <= a < new_ops.len() implies #[trigger] new_ops[a] == old_ops[if a < i { a } else { a + 1 }] by {}
                assert forall|a: int, b: int| 0 <= a < b < new_ops.len() implies #[trigger] new_ops[a].0@ != #[trigger] new_ops[b].0@ by {
                    let a2 = if a < i { a } else { a + 1 };
                    let b2 = if b < i { b } else { b + 1 };
                    assert(new_ops[a] == old_ops[a2]);
                    assert(new_ops[b] == old_ops[b2]);
                    assert(old_ops[a2].0@ != old_ops[b2].0@);
                }
                assert forall|a: int| 0 <= a < new_ops.len() implies #[trigger] new_ops[a].0@ != path@ by {
                    let a2 = if a < i { a } else { a + 1 };
                    assert(new_ops[a] == old_ops[a2]);
                    if a2 < i {
                        assert(old_ops[a2].0@ != old_ops[i as int].0@);
                    } else {
                        assert(old_ops[i as int].0@ != old_ops[a2].0@);
                    }
                }
                lemma_absent_lookup(new_ops, path@);
                assert forall|k: Seq<char>| k != path@ implies #[trigger] op_lookup(new_ops, k) == op_lookup(old_ops, k) by {
                    assert forall|x: int| 0 <= x < old_ops.len() && old_ops[x].0@ == k implies exists|y: int| 0 <= y < new_ops.len() && #[trigger] new_ops[y] == old_ops[x] by {
                        let y = if x < i { x } else { x - 1 };
                        assert(x != i);
                        assert(new_ops[y] == old_ops[x]);
                    }
                    assert forall|y: int| 0 <= y < new_ops.len() && new_ops[y].0@ == k implies exists|x: int| 0 <= x < old_ops.len() && #[trigger] old_ops[x] == new_ops[y] by {
                        let x = if y < i { y } else { y + 1 };
                        assert(old_ops[x] == new_ops[y]);
                    }
                    lemma_lookup_same(old_ops, new_ops, k);
                }
            }
        },
        None => {},
    }
}


impl App {
    /// Append a line at `level` (stamped with the current time), keeping only the
    /// newest `MAX_LOG_LINES` lines.
    pub fn log_at(&mut self, level: LogLevel, text: &str)
        ensures
            final(self).log@ == capped(old(self).log@.push(final(self).log@.last())),
            final(self).log@.last().level == level,
            final(self).log@.last().text@ == text@,
            crate::app::is_hms(final(self).log@.last().timestamp@),
            *final(self) == (App { log: final(self).log, ..*old(self) }),
    {
        let line = LogLine::new_at(level, text);
        let ghost l = line;
        self.log.push(line);
        cap_log(&mut self.log);
        assert(self.log@.last() == l);
    }

    /// Append an Info line.
    pub fn log(&mut self, text: &str)
        ensures
            final(self).log@ == capped(old(self).log@.push(final(self).log@.last())),
            final(self).log@.last().level == LogLevel::Info,
            final(self).log@.last().text@ == text@,
            crate::app::is_hms(final(self).log@.last().timestamp@),
            *final(self) == (App { log: final(self).log, ..*old(self) }),
    {
        self.log_at(LogLevel::Info, text);
    }

    /// Append a Debug line.
    pub fn log_debug(&mut self, text: &str)
        ensures
            final(self).log@ == capped(old(self).log@.push(final(self).log@.last())),
            final(self).log@.last().level == LogLevel::Debug,
            final(self).log@.last().text@ == text@,
            crate::app::is_hms(final(self).log@.last().timestamp@),
            *final(self) == (App { log: final(self).log, ..*old(self) }),
    {
        self.log_at(LogLevel::Debug, text);
    }

    /// Append a Warn line.
    pub fn log_warn(&mut self, text: &str)
        ensures
            final(self).log@ == capped(old(self).log@.push(final(self).log@.last())),
            final(self).log@.last().level == LogLevel::Warn,
            final(self).log@.last().text@ == text@,
            crate::app::is_hms(final(self).log@.last().timestamp@),
            *final(self) == (App { log: final(self).log, ..*old(self) }),
    {
        self.log_at(LogLevel::Warn, text);
    }

    /// Append an Error line.
    pub fn log_error(&mut self, text: &str)
        ensures
            final(self).log@ == capped(old(self).log@.push(final(self).log@.last())),
            final(self).log@.last().level == LogLevel::Error,
            final(self).log@.last().text@ == text@,
            crate::app::is_hms(final(self).log@.last().timestamp@),
            *final(self) == (App { log: final(self).log, ..*old(self) }),
    {
        self.log_at(LogLevel::Error, text);
    }

    /// Empty the log, snap it to the tail and follow new entries (the application
    /// also flashes "Log cleared" in the header).
    pub fn clear_log(&mut self)
        ensures
            final(self).log@.len() == 0,
            *final(self) == (App { log: final(self).log, log_offset: 0, log_follow: true, ..*old(self) }),
    {
        self.log = Vec::new();
        self.log_offset = 0;
        self.log_follow = true;
    }

    /// The whole log as text: the formatted lines joined with newlines (what is copied
    /// to the clipboard).
    pub fn log_text(&self) -> (res: String)
        ensures
            res@ == joined_log(self.log@),
    {
        let mut out = String::new();
        let mut i: usize = 0;
        while i < self.log.len()
            invariant
                i <= self.log@.len(),
                out@ == joined_log(self.log@.take(i as int)),
            decreases self.log@.len() - i,
        {
            assert(self.log@.take(i + 1).drop_last() =~= self.log@.take(i as int));
            if i > 0 {
                push_str(&mut out, "\n");
            }
            let f = self.log[i].formatted();
            push_str(&mut out, f.as_str());
            i += 1;
        }
        assert(self.log@.take(self.log@.len() as int) =~= self.log@);
        out
    }

    /// Show `msg` in a popup (the application dismisses it after two seconds).
    pub fn show_popup(&mut self, msg: String)
        ensures
            *final(self) == (App { popup_message: Some(msg), mode: AppMode::PopupMessage, ..*old(self) }),
    {
        self.popup_message = Some(msg);
        self.mode = AppMode::PopupMessage;
    }

    /// Remove the popup and return to the base mode.
    pub fn dismiss_popup(&mut self)
        ensures
            *final(self) == (App { popup_message: None, mode: old(self).base_mode(), ..*old(self) }),
    {
        self.popup_message = None;
        self.restore_base_mode();
    }

    /// Record that `op` is running for repository `path` (replacing any earlier entry).
    pub fn begin_operation(&mut self, path: &str, op: RepoOperation)
        requires
            ops_unique(old(self).operations@),
        ensures
            ops_unique(final(self).operations@),
            op_lookup(final(self).operations@, path@) == Some(op),
            forall|k: Seq<char>| k != path@ ==> #[trigger] op_lookup(final(self).operations@, k) == op_lookup(old(self).operations@, k),
            *final(self) == (App { operations: final(self).operations, ..*old(self) }),
    {
        ops_insert(&mut self.operations, path, op);
    }

    /// Forget the operation of repository `path`.
    pub fn end_operation(&mut self, path: &str)
        requires
            ops_unique(old(self).operations@),
        ensures
            ops_unique(final(self).operations@),
            op_lookup(final(self).operations@, path@) is None,
            forall|k: Seq<char>| k != path@ ==> #[trigger] op_lookup(final(self).operations@, k) == op_lookup(old(self).operations@, k),
            *final(self) == (App { operations: final(self).operations, ..*old(self) }),
    {
        ops_remove(&mut self.operations, path);
    }

    /// The operation running for repository `path`, if any.
    pub fn repo_operation(&self, path: &str) -> (res: Option<RepoOperation>)
        ensures
            res == op_lookup(self.operations@, path@),
    {
        match op_position(&self.operations, path) {
            Some(i) => Some(self.operations[i].1),
            None => None,
        }
    }

    /// The kinds of the selected repository's changed files, each once, in order of
    /// first occurrence.
    pub fn selected_file_kinds(&self) -> (res: Vec<FileStatusKind>)
        requires
            self.inv(),
        ensures
            res@ == kinds_of(self.spec_selected_files()),
    {
        let files = self.selected_files();
        let mut kinds: Vec<FileStatusKind> = Vec::new();
        let mut i: usize = 0;
        while i < files.len()
            invariant
                files@ == self.spec_selected_files(),
                i <= files@.len(),
                kinds@ == kinds_of(files@.take(i as int)),
            decreases files@.len() - i,
        {
            assert(files@.take(i + 1).drop_last() =~= files@.take(i as int));
            let k = files[i].status;
            let mut found = false;
            let mut j: usize = 0;
            while j < kinds.len()
                invariant
                    j <= kinds@.len(),
                    found == exists|x: int| 0 <= x < j && kinds@[x] == k,
                decreases kinds@.len() - j,
            {
                if kinds[j] == k {
                    found = true;
                }
                j += 1;
            }
            if !found {
                kinds.push(k);
            }
            i += 1;
        }
        assert(files@.take(files@.len() as int) =~= files@);
        kinds
    }

    /// After the selected repository `refreshed_repo_path` was re-read, select again the
    /// file remembered in `reselect_file_path` (clamping the selection to the last file
    /// when it is gone).  The remembered path is always consumed; nothing else happens
    /// when none was remembered or another repository was refreshed.
    pub fn reselect_file_after_refresh(&mut self, refreshed_repo_path: &str)
        requires
            old(self).inv(),
        ensures
            final(self).reselect_file_path is None,
            final(self).file_status_selected == (match old(self).reselect_file_path {
                Some(target) => if (old(self).spec_selected_repo_idx() matches Some(i) && i < old(self).repos@.len()
                    && old(self).repos@[i as int].path@ == refreshed_repo_path@) {
                    match first_index(old(self).spec_selected_files(), file_path_is(target@)) {
                        Some(idx) => idx as usize,
                        None => if old(self).spec_selected_files().len() == 0 {
                            0
                        } else if old(self).file_status_selected < old(self).spec_selected_files().len() {
                            old(self).file_status_selected
                        } else {
                            (old(self).spec_selected_files().len() - 1) as usize
                        },
                    }
                } else {
                    old(self).file_status_selected
                },
                None => old(self).file_status_selected,
            }),
            *final(self) == (App {
                reselect_file_path: None,
                file_status_selected: final(self).file_status_selected,
                ..*old(self)
            }),
    {
        let sel = self.reselected_file_index(refreshed_repo_path);
        self.reselect_file_path = None;
        self.file_status_selected = sel;
    }

    fn reselected_file_index(&self, refreshed_repo_path: &str) -> (res: usize)
        requires
            self.inv(),
        ensures
            res == (match self.reselect_file_path {
                Some(target) => if (self.spec_selected_repo_idx() matches Some(i) && i < self.repos@.len()
                    && self.repos@[i as int].path@ == refreshed_repo_path@) {
                    match first_index(self.spec_selected_files(), file_path_is(target@)) {
                        Some(idx) => idx as usize,
                        None => if self.spec_selected_files().len() == 0 {
                            0
                        } else if self.file_status_selected < self.spec_selected_files().len() {
                            self.file_status_selected
                        } else {
                            (self.spec_selected_files().len() - 1) as usize
                        },
                    }
                } else {
                    self.file_status_selected
                },
                None => self.file_status_selected,
            }),
    {
        let target = match &self.reselect_file_path {
            Some(t) => t,
            None => return self.file_status_selected,
        };
        let same_repo = match self.selected_repo_idx() {
            Some(i) => i < self.repos.len() && str_eq(self.repos[i].path.as_str(), refreshed_repo_path),
            None => false,
        };
        if !same_repo {
            return self.file_status_selected;
        }
        let files = self.selected_files();
        let ghost s = files@;
        let mut k: usize = 0;
        assert(s.skip(0) =~= s);
        while k < files.len()
            invariant
                s == files@,
                s == self.spec_selected_files(),
                self.reselect_file_path == Some(*target),
                self.spec_selected_repo_idx() matches Some(i) && i < self.repos@.len()
                    && self.repos@[i as int].path@ == refreshed_repo_path@,
                k <= s.len(),
                first_index(s, file_path_is(target@)) == (match first_index(s.skip(k as int), file_path_is(target@)) {
                    Some(j) => Some((j + k) as nat),
                    None => None::<nat>,
                }),
            decreases s.len() - k,
        {
            assert(s.skip(k as int)[0] == s[k as int]);
            if str_eq(files[k].path.as_str(), target.as_str()) {
                assert((file_path_is(target@))(s.skip(k as int)[0]));
                assert(first_index(s.skip(k as int), file_path_is(target@)) == Some(0nat));
                return k;
            }
            proof { lemma_first_index_skip(s, file_path_is(target@), k as int); }
            k += 1;
        }
        let n = files.len();
        assert(s.skip(n as int).len() == 0);
        if n == 0 {
            0
        } else if self.file_status_selected < n {
            self.file_status_selected
        } else {
            n - 1
        }
    }

    /// The new-branch input made into a branch name: trimmed, spaces replaced by `-`,
    /// and every character other than letters, digits, `-`, `_`, `/` and `.` dropped.
    pub fn sanitised_branch_name(&self) -> (res: String)
        ensures
            res@ == branch_chars(spec_trim(self.branch_input@)),
    {
        let t = trimmed(self.branch_input.as_str());
        let cs = chars_of(t.as_str());
        let mut out = String::new();
        let mut i: usize = 0;
        while i < cs.len()
            invariant
                cs@ == t@,
                i <= cs@.len(),
                out@ == branch_chars(cs@.take(i as int)),
            decreases cs@.len() - i,
        {
            assert(cs@.take(i + 1).drop_last() =~= cs@.take(i as int));
            let c = cs[i];
            if c == ' ' {
                push_char(&mut out, '-');
            } else if is_alphanumeric(c) || c == '-' || c == '_' || c == '/' || c == '.' {
                push_char(&mut out, c);
            }
            i += 1;
        }
        assert(cs@.take(cs@.len() as int) =~= cs@);
        out
    }
}

/// The predicate "this file's path is `p`".
pub open spec fn file_path_is(p: Seq<char>) -> spec_fn(FileEntry) -> bool {
    |f: FileEntry| f.path@ == p
}

} // verus!
