//! Properties of the user-interface rules that relate several functions or hold of
//! every state.
use vstd::prelude::*;
use crate::app::{App, Focus, MAX_LOG_LINES, LogLine, commit_header_row, history_row, history_rows};
use crate::app_focus::{focus_pos, is_focus};
use crate::app_log::{branch_char_ok, branch_chars, capped};
use crate::app_menus::{MenuItemView, menu_step_down, menu_step_up, next_selectable, previous_selectable};
use crate::git::CommitEntry;
use crate::ops::{OpRequest, StepView, lenient_apply_args, main_args, op_steps};
use crate::keys::{ActionView, Key, RequestView};
use crate::order::{first_index, lemma_first_index};
use crate::utils::truncated;

verus! {

/// A History row exists exactly for the first `history_rows(h)` rows.
pub proof fn law_history_rows_resolve(h: Seq<CommitEntry>, r: int)
    ensures
        history_row(h, r) is Some <==> 0 <= r < history_rows(h),
    decreases h.len(),
{
    if h.len() > 0 && r > 0 && r - 1 >= h[0].files@.len() {
        law_history_rows_resolve(h.drop_first(), r - 1 - h[0].files@.len());
    }
}

/// The header row of commit `ci` resolves to that commit (as `next_commit` and
/// `previous_commit` rely on).
pub proof fn law_commit_header_row(h: Seq<CommitEntry>, ci: int)
    requires
        0 <= ci < h.len(),
        h.len() <= usize::MAX,
    ensures
        history_row(h, commit_header_row(h, ci) as int) == Some((ci as usize, None::<usize>)),
    decreases ci,
{
    if ci > 0 {
        law_commit_header_row(h.drop_first(), ci - 1);
        assert(h.take(ci) =~= seq![h[0]] + h.drop_first().take(ci - 1));
        assert((seq![h[0]] + h.drop_first().take(ci - 1)).drop_first() =~= h.drop_first().take(ci - 1));
        assert(history_rows(h.take(ci)) == 1 + h[0].files@.len() + history_rows(h.drop_first().take(ci - 1)));
    } else {
        assert(h.take(0).len() == 0);
    }
}

/// The row of file `f` of commit `ci` comes `1 + f` rows after the commit's header row.
pub proof fn law_file_row(h: Seq<CommitEntry>, ci: int, f: int)
    requires
        0 <= ci < h.len(),
        0 <= f < h[ci].files@.len(),
        h.len() <= usize::MAX,
        h[ci].files@.len() <= usize::MAX,
    ensures
        history_row(h, commit_header_row(h, ci) + 1 + f) == Some((ci as usize, Some(f as usize))),
    decreases ci,
{
    if ci > 0 {
        law_file_row(h.drop_first(), ci - 1, f);
        assert(h.drop_first()[ci - 1] == h[ci]);
        assert(h.take(ci) =~= seq![h[0]] + h.drop_first().take(ci - 1));
        assert((seq![h[0]] + h.drop_first().take(ci - 1)).drop_first() =~= h.drop_first().take(ci - 1));
        assert(history_rows(h.take(ci)) == 1 + h[0].files@.len() + history_rows(h.drop_first().take(ci - 1)));
    } else {
        assert(h.take(0).len() == 0);
    }
}

/// Every History row is a commit's header row or the row of one of its files, at the
/// offset the commits before it give: `commit_header_row(ci)` for the header,
/// `commit_header_row(ci) + 1 + f` for file `f`.
pub proof fn law_history_row_offsets(h: Seq<CommitEntry>, r: int)
    requires
        h.len() <= usize::MAX,
        forall|c: int| 0 <= c < h.len() ==> (#[trigger] h[c]).files@.len() <= usize::MAX,
    ensures
        history_row(h, r) matches Some((ci, fi)) ==> ci < h.len() && (match fi {
            None => r == commit_header_row(h, ci as int),
            Some(f) => f < h[ci as int].files@.len() && r == commit_header_row(h, ci as int) + 1 + f,
        }),
    decreases h.len(),
{
    if h.len() > 0 && r > 0 && r - 1 >= h[0].files@.len() {
        let g = r - 1 - h[0].files@.len();
        assert forall|c: int| 0 <= c < h.drop_first().len() implies (#[trigger] h.drop_first()[c]).files@.len() <= usize::MAX by {
            assert(h.drop_first()[c] == h[c + 1]);
        }
        law_history_row_offsets(h.drop_first(), g);
        match history_row(h.drop_first(), g) {
            Some((ci, fi)) => {
                let c = ci + 1;
                assert(ci < h.len() - 1);
                assert(((ci + 1) as usize) as int == c);
                assert(history_row(h, r) == Some(((ci + 1) as usize, fi)));
                assert(h.drop_first()[ci as int] == h[c]);
                assert(h.take(c) =~= seq![h[0]] + h.drop_first().take(ci as int));
                assert((seq![h[0]] + h.drop_first().take(ci as int)).drop_first() =~= h.drop_first().take(ci as int));
                assert(history_rows(h.take(c)) == 1 + h[0].files@.len() + history_rows(h.drop_first().take(ci as int)));
                assert(commit_header_row(h, c) == 1 + h[0].files@.len() + commit_header_row(h.drop_first(), ci as int));
                match fi {
                    None => {
                        assert(g == commit_header_row(h.drop_first(), ci as int));
                        assert(r == commit_header_row(h, c));
                    },
                    Some(f) => {
                        assert(g == commit_header_row(h.drop_first(), ci as int) + 1 + f);
                        assert(r == commit_header_row(h, c) + 1 + f);
                    },
                }
            },
            None => {},
        }
    } else if h.len() > 0 && r >= 0 {
        assert(h[0].files@.len() <= usize::MAX);
        assert(h.take(0).len() == 0);
        assert(history_rows(h.take(0)) == 0);
    }
}

/// The focus order never repeats a pane.
proof fn lemma_focus_order_distinct(app: &App)
    ensures
        forall|i: int, j: int| 0 <= i < j < app.spec_focus_order().len() ==> app.spec_focus_order()[i]
            != app.spec_focus_order()[j],
{
}

/// `focus_pos` finds a pane that is in the order.
proof fn lemma_focus_pos(order: Seq<Focus>, f: Focus, i: int)
    requires
        0 <= i < order.len(),
        order[i] == f,
        forall|a: int, b: int| 0 <= a < b < order.len() ==> order[a] != order[b],
    ensures
        focus_pos(order, f) == i,
{
    lemma_first_index(order, is_focus(f));
    match first_index(order, is_focus(f)) {
        Some(j) => {
            assert((is_focus(f))(order[j as int]));
            if j < i {
                assert(order[j as int] != order[i]);
            } else if j > i {
                assert(!(is_focus(f))(order[i]));
            }
        },
        None => {
            assert(!(is_focus(f))(order[i]));
        },
    }
}

/// Cycling the focus backward undoes cycling it forward, when the focused pane is one
/// of at least two focusable panes.
pub proof fn law_cycle_focus_roundtrip(app: &App)
    requires
        app.spec_focus_order().len() >= 2,
        app.spec_focus_order().contains(app.focus),
    ensures
        (App { focus: app.spec_next_focus(), ..*app }).spec_previous_focus() == app.focus,
{
    let order = app.spec_focus_order();
    lemma_focus_order_distinct(app);
    let i = choose|i: int| 0 <= i < order.len() && order[i] == app.focus;
    lemma_focus_pos(order, app.focus, i);
    let next = app.spec_next_focus();
    let moved = App { focus: next, ..*app };
    assert(moved.spec_focus_order() == order);
    let j = if i + 1 < order.len() { i + 1 } else { 0 };
    assert(next == order[j]);
    lemma_focus_pos(order, next, j);
}

/// Cycling the focus forward from any pane lands on a focusable pane.
pub proof fn law_cycle_focus_visible(app: &App)
    requires
        app.spec_focus_order().len() >= 2,
    ensures
        app.spec_focus_order().contains(app.spec_next_focus()),
{
    let order = app.spec_focus_order();
    lemma_first_index(order, is_focus(app.focus));
    let i = focus_pos(order, app.focus);
    if i + 1 < order.len() {
        assert(order[i + 1 as int] == app.spec_next_focus());
    } else {
        assert(order[0] == app.spec_next_focus());
    }
}

/// The log never holds more than `MAX_LOG_LINES` lines.
pub proof fn law_log_bounded(s: Seq<LogLine>)
    ensures
        capped(s).len() <= MAX_LOG_LINES,
        s.len() <= MAX_LOG_LINES ==> capped(s) == s,
{
}

/// Moving through a menu never selects a separator: the selection either stays or
/// lands on a selectable item.
pub proof fn law_menu_moves_skip_separators(items: Seq<MenuItemView>, sel: usize)
    requires
        items.len() <= usize::MAX,
    ensures
        menu_step_down(items, sel) == sel || (menu_step_down(items, sel) < items.len()
            && !items[menu_step_down(items, sel) as int].is_separator),
        menu_step_up(items, sel) == sel || (menu_step_up(items, sel) < items.len()
            && !items[menu_step_up(items, sel) as int].is_separator),
{
    lemma_next_selectable(items, sel + 1);
    lemma_previous_selectable(items, sel as int);
}

proof fn lemma_next_selectable(items: Seq<MenuItemView>, i: int)
    ensures
        next_selectable(items, i) matches Some(j) ==> i <= j < items.len() && !items[j].is_separator,
    decreases items.len() - i,
{
    if 0 <= i < items.len() && items[i].is_separator {
        lemma_next_selectable(items, i + 1);
    }
}

proof fn lemma_previous_selectable(items: Seq<MenuItemView>, i: int)
    ensures
        previous_selectable(items, i) matches Some(j) ==> 0 <= j < i && j < items.len() && !items[j].is_separator,
    decreases i,
{
    if 0 < i <= items.len() && items[i - 1].is_separator {
        lemma_previous_selectable(items, i - 1);
    }
}

/// A sanitised branch name only holds letters, digits, `-`, `_`, `/` and `.`.
pub proof fn law_branch_name_chars(s: Seq<char>)
    ensures
        forall|i: int| 0 <= i < branch_chars(s).len() ==> branch_char_ok(#[trigger] branch_chars(s)[i]),
    decreases s.len(),
{
    if s.len() > 0 {
        law_branch_name_chars(s.drop_last());
        let rest = branch_chars(s.drop_last());
        assert forall|i: int| 0 <= i < branch_chars(s).len() implies branch_char_ok(#[trigger] branch_chars(s)[i]) by {
            if i < rest.len() {
                assert(branch_chars(s)[i] == rest[i]);
            }
        }
    }
}

/// A middle-truncated text is never longer than the limit (three dots when the limit
/// is below three).
pub proof fn law_truncated_fits(t: Seq<char>, max_chars: nat)
    ensures
        truncated(t, max_chars).len() <= if max_chars >= 3 { max_chars } else { 3 },
        t.len() <= max_chars ==> truncated(t, max_chars) == t,
{
    if t.len() > max_chars && max_chars > 3 {
        let available = (max_chars - 3) as nat;
        let left = available / 2;
        let right = (available - left) as nat;
        assert(left <= available);
        assert(left + right == available);
        assert(t.take(left as int).len() == left);
        assert(t.skip(t.len() - right).len() == right);
    }
}

/// An operation built around one git command ends with that command's outcome; the
/// autostash operations (pull, checkout) run their main command after checking for
/// local changes (and stashing them), end with the main command's outcome, and pop the
/// stash exactly when one was made.  Applying a patch that does not apply as it is
/// tries again ignoring whitespace, and ends with that second try's outcome.
pub proof fn law_op_outcome(r: OpRequest, o: Seq<bool>)
    ensures
        (main_args(r) is Some && !(r is Pull) && !(r is CheckoutBranch) && !(r is RevertFile) && !(r is ApplyPatch)) ==> op_steps(r, o)
            == seq![StepView::Git(main_args(r).unwrap()), StepView::Done(o[0])],
        (r is Pull || r is CheckoutBranch) ==> {
            let steps = op_steps(r, o);
            let main_index = if o[0] { 2int } else { 1int };
            &&& steps[main_index] == StepView::Git(main_args(r).unwrap())
            &&& steps.last() == StepView::Done(o[main_index])
            &&& steps.len() == (if o[0] && o[1] { 5int } else if o[0] { 4int } else { 3int })
            &&& (o[0] && o[1]) ==> steps[3] == StepView::Git(seq!["stash"@, "pop"@])
        },
        r is ApplyPatch ==> {
            let steps = op_steps(r, o);
            &&& steps[0] == StepView::Git(main_args(r).unwrap())
            &&& o[0] ==> steps == seq![StepView::Git(main_args(r).unwrap()), StepView::Done(true)]
            &&& !o[0] ==> steps[1] == StepView::Git(lenient_apply_args(r->ApplyPatch_file_path@))
            &&& !o[0] ==> steps.len() == 3 && steps.last() == StepView::Done(o[1])
        },
{
}

/// A force push is a push of HEAD to origin that carries `--force`: its first (and
/// only) git command is the plain push's with `--force` right after `push`, and the
/// plain push carries no `--force`.  The same holds of a branch's force push against
/// the push of that branch, which names the branch instead of HEAD.
pub proof fn law_force_push_adds_force(o: Seq<bool>, name: String)
    ensures
        op_steps(OpRequest::ForcePush, o)[0] matches StepView::Git(f) && op_steps(OpRequest::Push, o)[0] matches StepView::Git(p)
            && p.len() == 4 && p[0] == "push"@ && p[2] == "origin"@ && p[3] == "HEAD"@ && !p.contains("--force"@)
            && f == p.insert(1, "--force"@) && f.contains("--force"@),
        op_steps((OpRequest::ForcePushBranch { name: name }), o)[0] matches StepView::Git(f)
            && op_steps((OpRequest::PushBranch { name: name }), o)[0] matches StepView::Git(p)
            && p.len() == 4 && p[0] == "push"@ && p[2] == "origin"@ && p[3] == name@
            && (name@ != "--force"@ ==> !p.contains("--force"@))
            && f == p.insert(1, "--force"@) && f.contains("--force"@),
{
    reveal_strlit("push");
    reveal_strlit("--force");
    reveal_strlit("--set-upstream");
    reveal_strlit("origin");
    reveal_strlit("HEAD");
    let p = seq!["push"@, "--set-upstream"@, "origin"@, "HEAD"@];
    assert(p.insert(1, "--force"@) =~= seq!["push"@, "--force"@, "--set-upstream"@, "origin"@, "HEAD"@]);
    assert(seq!["push"@, "--force"@, "--set-upstream"@, "origin"@, "HEAD"@][1] == "--force"@);
    assert(!p.contains("--force"@)) by {
        assert forall|i: int| 0 <= i < p.len() implies p[i] != "--force"@ by {
            assert(p[i].len() != "--force"@.len());
        }
    }
    let q = seq!["push"@, "--set-upstream"@, "origin"@, name@];
    assert(q.insert(1, "--force"@) =~= seq!["push"@, "--force"@, "--set-upstream"@, "origin"@, name@]);
    assert(seq!["push"@, "--force"@, "--set-upstream"@, "origin"@, name@][1] == "--force"@);
    assert(name@ != "--force"@ ==> !q.contains("--force"@)) by {
        assert forall|i: int| 0 <= i < 3 implies q[i] != "--force"@ by {
            assert(q[i].len() != "--force"@.len());
        }
    }
}

/// `P` launches a push in every state of Normal mode and under the History pane's
/// keys; `p` launches a pull (of the current branch, or a fast-forward of the branch
/// selected in the Branches pane), never what `P` launches.
pub proof fn law_push_and_pull_keys(app: App, shift: bool)
    ensures
        app.spec_normal_key_action(Key::Char('P')) == ActionView::Launch(RequestView::Push),
        app.spec_history_key_action(Key::Char('P'), shift) == ActionView::Launch(RequestView::Push),
        app.spec_normal_key_action(Key::Char('p')) matches ActionView::Launch(r) && (r == RequestView::Pull || r is PullBranch),
        app.spec_normal_key_action(Key::Char('p')) != app.spec_normal_key_action(Key::Char('P')),
{
}

/// The shapes of the git commands: a file operation passes its path last, after `--`
/// (so that no path is read as an option): staging runs `add`, unstaging `reset`,
/// reverting `checkout`, applying a patch `apply`; amending a commit is committing
/// with `--amend` added after `commit`; checking out a remote branch adds `--track`;
/// creating a branch from a base appends the base to creating it; fetching prunes from
/// origin; a plain pull prunes.
pub proof fn law_git_command_shapes(p: String, message: String, name: String, base: String, conflict: bool)
    ensures
        main_args(OpRequest::StageFile(p)) matches Some(a) && a.len() == 3 && a[0] == "add"@ && a[1] == "--"@ && a[2] == p@,
        main_args(OpRequest::UnstageFile(p)) matches Some(a) && a.len() == 3 && a[0] == "reset"@ && a[1] == "--"@ && a[2] == p@,
        main_args((OpRequest::RevertFile { file_path: p, is_conflict: conflict })) matches Some(a) && a.len() == 3
            && a[0] == "checkout"@ && a[1] == "--"@ && a[2] == p@,
        main_args((OpRequest::ApplyPatch { file_path: p })) matches Some(a) && a.len() == 3 && a[0] == "apply"@
            && a[1] == "--"@ && a[2] == p@,
        main_args((OpRequest::Commit { message: message, amend: true })) matches Some(a)
            && main_args((OpRequest::Commit { message: message, amend: false })) matches Some(c)
            && c.len() == 3 && c[0] == "commit"@ && c[1] == "-m"@ && c[2] == message@ && a == c.insert(1, "--amend"@),
        main_args((OpRequest::CheckoutBranch { name: name, is_remote: true })) matches Some(a)
            && main_args((OpRequest::CheckoutBranch { name: name, is_remote: false })) matches Some(c)
            && c.len() == 2 && c[0] == "checkout"@ && c[1] == name@ && a == c.insert(1, "--track"@),
        main_args((OpRequest::CreateBranchFrom { name: name, base: base })) matches Some(a)
            && main_args(OpRequest::CreateBranch(name)) matches Some(c)
            && c.len() == 3 && c[0] == "checkout"@ && c[1] == "-b"@ && c[2] == name@ && a == c.push(base@),
        main_args(OpRequest::Fetch) == Some(seq!["fetch"@, "origin"@, "--prune"@]),
        main_args(OpRequest::Pull) == Some(seq!["pull"@, "--prune"@]),
{
    let c = seq!["commit"@, "-m"@, message@];
    assert(c.insert(1, "--amend"@) =~= seq!["commit"@, "--amend"@, "-m"@, message@]);
    let k = seq!["checkout"@, name@];
    assert(k.insert(1, "--track"@) =~= seq!["checkout"@, "--track"@, name@]);
    let b = seq!["checkout"@, "-b"@, name@];
    assert(b.push(base@) =~= seq!["checkout"@, "-b"@, name@, base@]);
}

/// What the letter keys of Normal mode ask for in every state: `f` fetches, `r`
/// refreshes every repository, `A` adds one, `D` asks to remove one, `s`, `l` and `d`
/// toggle File Status, Log and Details, `b` opens the Branches pane or closes it when
/// open, `h` opens the full history, `T` cycles themes, `?` shows help; Tab and
/// BackTab cycle the focus forward and back.
pub proof fn law_normal_letter_keys(app: App)
    ensures
        app.spec_normal_key_action(Key::Char('f')) == ActionView::Launch(RequestView::Fetch),
        app.spec_normal_key_action(Key::Char('r')) == ActionView::Simple(crate::keys::Action::RefreshRepos),
        app.spec_normal_key_action(Key::Char('A')) == ActionView::Simple(crate::keys::Action::EnterPicker),
        app.spec_normal_key_action(Key::Char('D')) == ActionView::Simple(crate::keys::Action::RequestRemove),
        app.spec_normal_key_action(Key::Char('s')) == ActionView::Simple(crate::keys::Action::ToggleFileStatus),
        app.spec_normal_key_action(Key::Char('l')) == ActionView::Simple(crate::keys::Action::ToggleLog),
        app.spec_normal_key_action(Key::Char('d')) == ActionView::Simple(crate::keys::Action::ToggleDetails),
        app.spec_normal_key_action(Key::Char('b')) == ActionView::Simple(
            if app.show_branches { crate::keys::Action::CloseBranchesPane } else { crate::keys::Action::OpenBranchesPane },
        ),
        app.spec_normal_key_action(Key::Char('h')) == ActionView::OpenHistory(crate::git::FilterView::Full),
        app.spec_normal_key_action(Key::Char('T')) == ActionView::Simple(crate::keys::Action::NextTheme),
        app.spec_normal_key_action(Key::Char('?')) == ActionView::Simple(crate::keys::Action::ShowHelp),
        app.spec_normal_key_action(Key::Tab) == ActionView::Simple(crate::keys::Action::CycleFocus),
        app.spec_normal_key_action(Key::BackTab) == ActionView::Simple(crate::keys::Action::CycleFocusReverse),
{
}

/// The repository menu: `f` fetches, `p` pulls, `P` pushes, `F` asks to confirm a
/// force push, `h` opens the full history.  `u` shows the commits of HEAD missing from
/// the upstream and `U` those of the upstream missing from HEAD (`t` and `T` the same
/// against the trunk): the two ranges are each other's reverse; without an upstream
/// (or trunk) the letter closes the menu.
pub proof fn law_repo_menu_keys(app: App)
    ensures
        app.spec_repo_menu_action('f') == ActionView::Launch(RequestView::Fetch),
        app.spec_repo_menu_action('p') == ActionView::Launch(RequestView::Pull),
        app.spec_repo_menu_action('P') == ActionView::Launch(RequestView::Push),
        app.spec_repo_menu_action('F') == ActionView::Simple(crate::keys::Action::ConfirmForcePush),
        app.spec_repo_menu_action('h') == ActionView::OpenHistory(crate::git::FilterView::Full),
        app.spec_repo_menu_action('u') != ActionView::Simple(crate::keys::Action::CloseMenu) ==> (app.spec_repo_menu_action('u') matches ActionView::OpenHistory(fu)
            && app.spec_repo_menu_action('U') matches ActionView::OpenHistory(fd)
            && crate::git::spec_revision_range(fu).0 == "HEAD"@ && crate::git::spec_revision_range(fu).1 == Some(crate::git::spec_revision_range(fd).0)
            && crate::git::spec_revision_range(fd).1 == Some("HEAD"@)),
        app.spec_repo_menu_action('t') != ActionView::Simple(crate::keys::Action::CloseMenu) ==> (app.spec_repo_menu_action('t') matches ActionView::OpenHistory(fu)
            && app.spec_repo_menu_action('T') matches ActionView::OpenHistory(fd)
            && crate::git::spec_revision_range(fu).0 == "HEAD"@ && crate::git::spec_revision_range(fu).1 == Some(crate::git::spec_revision_range(fd).0)
            && crate::git::spec_revision_range(fd).1 == Some("HEAD"@)),
{
}

/// Moving through a list of `n` rows from row `v`: the arrows move one row and the page
/// keys ten, never past the first or the last row.
pub proof fn law_list_moves(v: usize, n: nat)
    requires
        v < n <= usize::MAX,
    ensures
        App::step_down(v, n) as int == if v + 1 < n { v + 1 } else { v as int },
        App::step_up(v) as int == if v >= 1 { v - 1 } else { 0 },
        App::page_down(v, n) as int == if v + 10 < n { v + 10 } else { n - 1 },
        App::page_up(v) as int == if v >= 10 { v - 10 } else { 0 },
        App::step_down(v, n) < n && App::page_down(v, n) < n,
{
}

} // verus!
