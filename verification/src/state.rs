//! Persisted application state: the tracked repositories, grouped into sections.
//!
//! `sections[0]` is the default (unnamed) section; `sections[1..]` are named sections
//! kept in case-insensitive alphabetical order.  Loading and saving the YAML file is
//! done by the application around this module; this module owns the rules.
use vstd::prelude::*;
use crate::order::{
    sorted_by_key,
    first_index, insert_pos, lemma_first_index, lemma_first_index_skip, lemma_insert_pos_bounds,
    sort_by_key,
};
use crate::text::{lex_lt, spec_lowercase, str_eq, str_lt, to_lowercase};

verus! {

/// One group of repositories with an optional name.
/// `name: None` identifies the default (unnamed) section, which is always `sections[0]`.
#[derive(Debug, Clone)]
pub struct RepoSection {
    pub name: Option<String>,
    pub repos: Vec<String>,
    /// Collapsed state; only meaningful for named sections.
    pub collapsed: bool,
}

/// The mathematical content of a section.
pub struct SectionView {
    pub name: Option<Seq<char>>,
    pub repos: Seq<Seq<char>>,
    pub collapsed: bool,
}

pub open spec fn opt_view(o: Option<String>) -> Option<Seq<char>> {
    match o {
        Some(s) => Some(s@),
        None => None,
    }
}

pub open spec fn strings_view(v: Seq<String>) -> Seq<Seq<char>> {
    v.map_values(|s: String| s@)
}

impl View for RepoSection {
    type V = SectionView;

    open spec fn view(&self) -> SectionView {
        SectionView {
            name: opt_view(self.name),
            repos: strings_view(self.repos@),
            collapsed: self.collapsed,
        }
    }
}

pub open spec fn sections_view(v: Seq<RepoSection>) -> Seq<SectionView> {
    v.map_values(|s: RepoSection| s@)
}

/// The sort key of a repository path: the path itself when sorting case-sensitively,
/// its lower-cased form otherwise.
pub open spec fn repo_key(case_sensitive: bool) -> spec_fn(Seq<char>) -> Seq<char> {
    if case_sensitive {
        |p: Seq<char>| p
    } else {
        |p: Seq<char>| spec_lowercase(p)
    }
}

/// The repositories of a section in the order `sort_section_repos` leaves them.
pub open spec fn sorted_repos(repos: Seq<Seq<char>>, case_sensitive: bool) -> Seq<Seq<char>> {
    sort_by_key(repos, repo_key(case_sensitive))
}

/// Sort key of a section when the named sections are re-sorted after a rename:
/// its name (or the empty string) lower-cased.
pub open spec fn section_sort_key() -> spec_fn(SectionView) -> Seq<char> {
    |s: SectionView| match s.name {
        Some(n) => spec_lowercase(n),
        None => spec_lowercase(Seq::<char>::empty()),
    }
}

/// Key used to find the insertion point of a new section: the lower-cased name,
/// or the empty string for an unnamed section.
pub open spec fn section_insert_key() -> spec_fn(SectionView) -> Seq<char> {
    |s: SectionView| match s.name {
        Some(n) => spec_lowercase(n),
        None => Seq::<char>::empty(),
    }
}

/// Whether a section's name, lower-cased, equals `lower`.
pub open spec fn has_lower_name(s: SectionView, lower: Seq<char>) -> bool {
    s.name matches Some(n) && spec_lowercase(n) == lower
}

/// A named section other than `except` already carries the name `lower` (case-insensitively).
pub open spec fn name_taken(ss: Seq<SectionView>, lower: Seq<char>, except: int) -> bool {
    exists|i: int| 1 <= i < ss.len() && i != except && #[trigger] has_lower_name(ss[i], lower)
}

/// Some section holds the repository `path`.
pub open spec fn tracks(ss: Seq<SectionView>, path: Seq<char>) -> bool {
    exists|i: int| 0 <= i < ss.len() && #[trigger] ss[i].repos.contains(path)
}

/// All repository paths of all sections, in display order.
pub open spec fn flat_repos(ss: Seq<SectionView>) -> Seq<Seq<char>>
    decreases ss.len(),
{
    if ss.len() == 0 {
        Seq::empty()
    } else {
        flat_repos(ss.drop_last()) + ss.last().repos
    }
}

/// The section that owns the repository at position `f` of `flat_repos(ss)`.
pub open spec fn flat_owner(ss: Seq<SectionView>, f: int) -> Option<nat>
    decreases ss.len(),
{
    if ss.len() == 0 {
        None
    } else if f < ss[0].repos.len() {
        Some(0)
    } else {
        match flat_owner(ss.drop_first(), f - ss[0].repos.len()) {
            Some(i) => Some(i + 1),
            None => None,
        }
    }
}

/// A section with its repositories replaced.
pub open spec fn with_repos(s: SectionView, repos: Seq<Seq<char>>) -> SectionView {
    SectionView { repos: repos, ..s }
}

/// The sections after adding `path` to `sections[idx]`, which is then re-sorted.
pub open spec fn with_repo_added(ss: Seq<SectionView>, idx: int, path: Seq<char>) -> Seq<SectionView> {
    ss.update(idx, with_repos(ss[idx], sorted_repos(ss[idx].repos.push(path), false)))
}

/// The sections after dropping `path` from every section.
pub open spec fn without_repo(ss: Seq<SectionView>, path: Seq<char>) -> Seq<SectionView> {
    ss.map_values(|s: SectionView| with_repos(s, s.repos.filter(differs_from(path))))
}

/// The sections after removing the named section `idx`, whose repos join the default
/// section (re-sorted).  Index 0 and out-of-range indices change nothing.
pub open spec fn with_section_removed(ss: Seq<SectionView>, idx: int) -> Seq<SectionView> {
    if idx == 0 || idx < 0 || idx >= ss.len() {
        ss
    } else {
        ss.remove(idx).update(0, with_repos(ss[0], sorted_repos(ss[0].repos + ss[idx].repos, false)))
    }
}

/// The sections after moving `path` into `target` (dropped everywhere, then added to
/// `target` when it is a valid index).
pub open spec fn with_repo_moved(ss: Seq<SectionView>, path: Seq<char>, target: int) -> Seq<SectionView> {
    let w = without_repo(ss, path);
    if 0 <= target < ss.len() {
        w.update(target, with_repos(w[target], sorted_repos(w[target].repos.push(path), false)))
    } else {
        w
    }
}

/// The sections after inserting a new empty section named `name`.
pub open spec fn with_section_added(ss: Seq<SectionView>, name: Seq<char>) -> Seq<SectionView> {
    ss.insert(
        new_section_pos(ss, spec_lowercase(name)) as int,
        SectionView { name: Some(name), repos: Seq::empty(), collapsed: false },
    )
}

/// The shape the state always has: the unnamed default section first, then named ones.
pub open spec fn sections_wf(ss: Seq<SectionView>) -> bool {
    &&& ss.len() >= 1
    &&& ss[0].name is None
    &&& forall|i: int| 1 <= i < ss.len() ==> (#[trigger] ss[i]).name is Some
}

/// The named sections are in case-insensitive alphabetical order.
pub open spec fn named_sorted(ss: Seq<SectionView>) -> bool {
    sorted_by_key(ss.skip(1), section_insert_key())
}

/// The predicate "this section's name, lower-cased, is `lower`".
pub open spec fn named_lower(lower: Seq<char>) -> spec_fn(SectionView) -> bool {
    |s: SectionView| has_lower_name(s, lower)
}

/// The sections after renaming `sections[idx]` to `new_name` and re-sorting the named ones.
pub open spec fn renamed_sections(ss: Seq<SectionView>, idx: int, new_name: Seq<char>) -> Seq<SectionView> {
    let renamed = ss.update(idx, SectionView { name: Some(new_name), ..ss[idx] });
    seq![renamed[0]] + sort_by_key(renamed.skip(1), section_sort_key())
}

/// The predicate "this path differs from `p`".
pub open spec fn differs_from(p: Seq<char>) -> spec_fn(Seq<char>) -> bool {
    |x: Seq<char>| x != p
}

/// The predicate "this section holds `path`".
pub open spec fn holds_path(path: Seq<char>) -> spec_fn(SectionView) -> bool {
    |s: SectionView| s.repos.contains(path)
}

/// Position at which `add_section` inserts a new section whose lower-cased name is `lower`.
pub open spec fn new_section_pos(ss: Seq<SectionView>, lower: Seq<char>) -> nat {
    if ss.len() == 0 {
        0
    } else {
        1 + insert_pos(ss.skip(1), lower, section_insert_key())
    }
}

/// Serialisation helper: a `false` flag is omitted from the saved file.
pub fn is_false(b: &bool) -> (res: bool)
    ensures
        res == !*b,
{
    !*b
}

impl RepoSection {
    /// The default (unnamed, empty) section.
    pub fn new_default() -> (res: Self)
        ensures
            res@.name is None,
            res@.repos.len() == 0,
            !res@.collapsed,
    {
        RepoSection { name: None, repos: Vec::new(), collapsed: false }
    }

    /// Append a repository path (unsorted).
    pub fn push_repo(&mut self, r: String)
        ensures
            final(self)@ == (SectionView { repos: old(self)@.repos.push(r@), ..old(self)@ }),
    {
        self.repos.push(r);
        assert(self@.repos =~= old(self)@.repos.push(r@));
    }

    /// Drop every occurrence of `path`.
    pub fn drop_repo(&mut self, path: &str)
        ensures
            final(self)@ == (SectionView { repos: old(self)@.repos.filter(differs_from(path@)), ..old(self)@ }),
    {
        remove_all(&mut self.repos, path);
    }

    /// Collapse or expand the section.
    pub fn set_collapsed(&mut self, c: bool)
        ensures
            final(self)@ == (SectionView { collapsed: c, ..old(self)@ }),
    {
        self.collapsed = c;
    }

    /// The default section is the one without a name.
    pub fn is_default(&self) -> (res: bool)
        ensures
            res == self.name.is_none(),
    {
        self.name.is_none()
    }
}

/// The section list of a fresh state: only the default section.
pub fn default_sections() -> (res: Vec<RepoSection>)
    ensures
        res@.len() == 1,
        res@[0]@.name is None,
        res@[0]@.repos.len() == 0,
        !res@[0]@.collapsed,
{
    let mut v = Vec::new();
    v.push(RepoSection::new_default());
    v
}

/// Lower-case key of a repository path for the chosen case sensitivity.
pub(crate) fn repo_sort_key(p: &String, case_sensitive: bool) -> (res: String)
    ensures
        res@ == (repo_key(case_sensitive))(p@),
{
    if case_sensitive {
        p.clone()
    } else {
        to_lowercase(p.as_str())
    }
}

/// Stable sort of repository paths: case-sensitively by the path, otherwise by its
/// lower-cased form.
pub fn sort_repo_paths(repos: &mut Vec<String>, case_sensitive: bool)
    ensures
        strings_view(final(repos)@) == sorted_repos(strings_view(old(repos)@), case_sensitive),
{
    let ghost orig = strings_view(repos@);
    let ghost key = repo_key(case_sensitive);
    let mut out: Vec<String> = Vec::new();
    let mut k: usize = 0;
    let n = repos.len();
    assert(orig.take(0) =~= Seq::<Seq<char>>::empty());
    while repos.len() > 0
        invariant
            n == orig.len(),
            key == repo_key(case_sensitive),
            k + repos.len() == n,
            strings_view(repos@) == orig.skip(k as int),
            strings_view(out@) == sort_by_key(orig.take(k as int), key),
        decreases repos.len(),
    {
        let ghost before = repos@;
        let x = repos.remove(0);
        assert(strings_view(before)[0] == orig.skip(k as int)[0]);
        assert(x@ == orig[k as int]);
        assert(strings_view(repos@) =~= strings_view(before).drop_first());
        assert(orig.skip(k as int).drop_first() =~= orig.skip(k + 1));
        let kx = repo_sort_key(&x, case_sensitive);
        let ghost ov = strings_view(out@);
        let mut pos: usize = 0;
        assert(ov.skip(0) =~= ov);
        while pos < out.len()
            invariant
                key == repo_key(case_sensitive),
                ov == strings_view(out@),
                kx@ == key(x@),
                pos <= out.len(),
                insert_pos(ov, kx@, key) == pos + insert_pos(ov.skip(pos as int), kx@, key),
            ensures
                insert_pos(ov, kx@, key) == pos,
            decreases out.len() - pos,
        {
            let ko = repo_sort_key(&out[pos], case_sensitive);
            assert(ov.skip(pos as int)[0] == out@[pos as int]@);
            assert(ov.skip(pos as int).drop_first() =~= ov.skip(pos + 1));
            if str_lt(kx.as_str(), ko.as_str()) {
                break;
            }
            pos += 1;
        }
        out.insert(pos, x);
        k += 1;
        assert(orig.take(k as int).drop_last() =~= orig.take(k - 1));
        assert(orig.take(k as int).last() == x@);
        assert(strings_view(out@) =~= ov.insert(pos as int, x@));
    }
    assert(orig.take(n as int) =~= orig);
    *repos = out;
}

/// The key by which named sections are re-sorted: the lower-cased name, or the
/// lower-cased empty string for an unnamed section.
fn section_sort_key_of(s: &RepoSection) -> (res: String)
    ensures
        res@ == (section_sort_key())(s@),
{
    match &s.name {
        Some(n) => to_lowercase(n.as_str()),
        None => {
            let e = String::new();
            to_lowercase(e.as_str())
        },
    }
}

/// Stable sort of sections by `section_sort_key`.
fn sort_sections(v: &mut Vec<RepoSection>)
    ensures
        sections_view(final(v)@) == sort_by_key(sections_view(old(v)@), section_sort_key()),
{
    let ghost orig = sections_view(v@);
    let ghost key = section_sort_key();
    let mut out: Vec<RepoSection> = Vec::new();
    let mut k: usize = 0;
    let n = v.len();
    assert(orig.take(0) =~= Seq::<SectionView>::empty());
    while v.len() > 0
        invariant
            n == orig.len(),
            key == section_sort_key(),
            k + v.len() == n,
            sections_view(v@) == orig.skip(k as int),
            sections_view(out@) == sort_by_key(orig.take(k as int), key),
        decreases v.len(),
    {
        let ghost before = v@;
        let x = v.remove(0);
        assert(sections_view(before)[0] == orig.skip(k as int)[0]);
        assert(x@ == orig[k as int]);
        assert(sections_view(v@) =~= sections_view(before).drop_first());
        assert(orig.skip(k as int).drop_first() =~= orig.skip(k + 1));
        let kx = section_sort_key_of(&x);
        let ghost ov = sections_view(out@);
        let mut pos: usize = 0;
        assert(ov.skip(0) =~= ov);
        while pos < out.len()
            invariant
                key == section_sort_key(),
                ov == sections_view(out@),
                kx@ == key(x@),
                pos <= out.len(),
                insert_pos(ov, kx@, key) == pos + insert_pos(ov.skip(pos as int), kx@, key),
            ensures
                insert_pos(ov, kx@, key) == pos,
            decreases out.len() - pos,
        {
            let ko = section_sort_key_of(&out[pos]);
            assert(ov.skip(pos as int)[0] == out@[pos as int]@);
            assert(ov.skip(pos as int).drop_first() =~= ov.skip(pos + 1));
            if str_lt(kx.as_str(), ko.as_str()) {
                break;
            }
            pos += 1;
        }
        out.insert(pos, x);
        k += 1;
        assert(orig.take(k as int).drop_last() =~= orig.take(k - 1));
        assert(orig.take(k as int).last() == x@);
        assert(sections_view(out@) =~= ov.insert(pos as int, x@));
    }
    assert(orig.take(n as int) =~= orig);
    *v = out;
}

/// Whether `s`'s name, lower-cased, equals `lower`.
fn section_has_lower_name(s: &RepoSection, lower: &str) -> (res: bool)
    ensures
        res == has_lower_name(s@, lower@),
{
    match &s.name {
        Some(n) => {
            let ln = to_lowercase(n.as_str());
            str_eq(ln.as_str(), lower)
        },
        None => false,
    }
}

/// Sort the repositories of one section.
pub fn sort_section_repos(section: &mut RepoSection, case_sensitive: bool)
    ensures
        final(section)@.repos == sorted_repos(old(section)@.repos, case_sensitive),
        final(section)@.name == old(section)@.name,
        final(section)@.collapsed == old(section)@.collapsed,
{
    sort_repo_paths(&mut section.repos, case_sensitive);
}


/// Whether `v` holds `p`.
pub fn contains_str(v: &Vec<String>, p: &str) -> (res: bool)
    ensures
        res == strings_view(v@).contains(p@),
{
    let mut i: usize = 0;
    while i < v.len()
        invariant
            i <= v.len(),
            forall|j: int| 0 <= j < i ==> strings_view(v@)[j] != p@,
        decreases v.len() - i,
    {
        if str_eq(v[i].as_str(), p) {
            assert(strings_view(v@)[i as int] == p@);
            return true;
        }
        i += 1;
    }
    false
}

/// Drop every occurrence of `p` from `v`, keeping the order of the rest.
pub fn remove_all(v: &mut Vec<String>, p: &str)
    ensures
        strings_view(final(v)@) == strings_view(old(v)@).filter(differs_from(p@)),
{
    let ghost orig = strings_view(v@);
    let mut out: Vec<String> = Vec::new();
    let n = v.len();
    let mut k: usize = 0;
    assert(orig.take(0) =~= Seq::<Seq<char>>::empty());
    while v.len() > 0
        invariant
            n == orig.len(),
            k + v.len() == n,
            strings_view(v@) == orig.skip(k as int),
            strings_view(out@) == orig.take(k as int).filter(differs_from(p@)),
        decreases v.len(),
    {
        let ghost before = v@;
        let x = v.remove(0);
        assert(strings_view(before)[0] == orig.skip(k as int)[0]);
        assert(strings_view(v@) =~= strings_view(before).drop_first());
        assert(orig.skip(k as int).drop_first() =~= orig.skip(k + 1));
        let ghost prev = strings_view(out@);
        let keep = !str_eq(x.as_str(), p);
        if keep {
            out.push(x);
        }
        k += 1;
        assert(orig.take(k as int).drop_last() =~= orig.take(k - 1));
        reveal_with_fuel(Seq::filter, 1);
        assert(strings_view(out@) =~= orig.take(k as int).filter(differs_from(p@)));
    }
    assert(orig.take(n as int) =~= orig);
    *v = out;
}

/// Persisted application state.
pub struct State {
    pub sections: Vec<RepoSection>,
    /// Whether the File Status pane was open on last exit.
    pub show_file_status: bool,
    /// Whether the Output Log pane was open on last exit.
    pub show_log: bool,
    /// Whether the History pane was open on last exit.
    pub show_history: bool,
    /// Whether the Details pane was open on last exit.
    pub show_details: bool,
    /// Where this state was loaded from and will be saved to.
    pub path: String,
}

impl Default for State {
    /// A state with only the empty default section, all panes closed, and no file path
    /// yet (the application fills in where it is saved).
    fn default() -> (res: Self)
        ensures
            res.ss().len() == 1,
            res.ss()[0].name is None,
            res.ss()[0].repos.len() == 0,
            !res.ss()[0].collapsed,
            !res.show_file_status && !res.show_log && !res.show_history && !res.show_details,
            res.path@.len() == 0,
    {
        State {
            sections: default_sections(),
            show_file_status: false,
            show_log: false,
            show_history: false,
            show_details: false,
            path: String::new(),
        }
    }
}

impl State {
    /// The sections as mathematical values.
    pub open spec fn ss(&self) -> Seq<SectionView> {
        sections_view(self.sections@)
    }

    /// Everything but the sections is unchanged between two states.
    pub open spec fn same_flags(&self, other: &State) -> bool {
        &&& self.show_file_status == other.show_file_status
        &&& self.show_log == other.show_log
        &&& self.show_history == other.show_history
        &&& self.show_details == other.show_details
        &&& self.path == other.path
    }

    /// Collapse or expand `sections[idx]` (no change for an index past the end).
    pub fn set_section_collapsed(&mut self, idx: usize, c: bool)
        ensures
            idx < old(self).ss().len() ==> final(self).ss() == old(self).ss().update(
                idx as int,
                SectionView { collapsed: c, ..old(self).ss()[idx as int] },
            ),
            idx >= old(self).ss().len() ==> final(self).ss() == old(self).ss(),
            final(self).same_flags(old(self)),
    {
        if idx < self.sections.len() {
            self.sections[idx].set_collapsed(c);
            assert(self.ss() =~= old(self).ss().update(idx as int, SectionView { collapsed: c, ..old(self).ss()[idx as int] }));
        }
    }

    /// The default section (always `sections[0]`).
    pub fn default_section(&self) -> (res: &RepoSection)
        requires
            self.sections.len() >= 1,
        ensures
            *res == self.sections@[0],
    {
        &self.sections[0]
    }

    /// Mutable access to the default section.
    pub fn default_section_mut(&mut self) -> (res: &mut RepoSection)
        requires
            old(self).sections.len() >= 1,
        ensures
            *res == old(self).sections@[0],
            final(self).sections@ == old(self).sections@.update(0, *final(res)),
            final(self).same_flags(old(self)),
    {
        &mut self.sections[0]
    }

    /// All repo paths from all sections in display order.
    pub fn all_repos_flat(&self) -> (res: Vec<String>)
        ensures
            strings_view(res@) == flat_repos(self.ss()),
    {
        let mut out: Vec<String> = Vec::new();
        let mut i: usize = 0;
        while i < self.sections.len()
            invariant
                i <= self.sections.len(),
                strings_view(out@) == flat_repos(self.ss().take(i as int)),
            decreases self.sections.len() - i,
        {
            let ghost before = strings_view(out@);
            let mut j: usize = 0;
            while j < self.sections[i].repos.len()
                invariant
                    i < self.sections.len(),
                    j <= self.sections[i as int].repos.len(),
                    strings_view(out@) == before + self.ss()[i as int].repos.take(j as int),
                decreases self.sections[i as int].repos.len() - j,
            {
                let r = self.sections[i].repos[j].clone();
                assert(r@ == self.ss()[i as int].repos[j as int]);
                let ghost prev = strings_view(out@);
                out.push(r);
                assert(strings_view(out@) =~= prev.push(r@));
                j += 1;
                assert(strings_view(out@) =~= before + self.ss()[i as int].repos.take(j as int));
            }
            assert(self.ss()[i as int].repos.take(j as int) =~= self.ss()[i as int].repos);
            i += 1;
            assert(self.ss().take(i as int).drop_last() =~= self.ss().take(i - 1));
        }
        assert(self.ss().take(i as int) =~= self.ss());
        out
    }

    /// Whether any section contains at least one repo.
    pub fn has_any_repos(&self) -> (res: bool)
        ensures
            res == exists|i: int| 0 <= i < self.ss().len() && #[trigger] self.ss()[i].repos.len() > 0,
    {
        let mut i: usize = 0;
        while i < self.sections.len()
            invariant
                i <= self.sections.len(),
                forall|j: int| 0 <= j < i ==> #[trigger] self.ss()[j].repos.len() == 0,
            decreases self.sections.len() - i,
        {
            if self.sections[i].repos.len() > 0 {
                assert(self.ss()[i as int].repos.len() > 0);
                return true;
            }
            i += 1;
        }
        false
    }

    /// Whether there is at least one named section.
    pub fn has_named_sections(&self) -> (res: bool)
        ensures
            res == (self.ss().len() > 1),
    {
        self.sections.len() > 1
    }

    /// True when named sections exist and the default section is empty.
    pub fn only_named_sections(&self) -> (res: bool)
        ensures
            res == (self.ss().len() > 1 && self.ss()[0].repos.len() == 0),
    {
        self.has_named_sections() && self.sections[0].repos.len() == 0
    }

    /// The index of the section that owns the repo at position `flat_idx` of
    /// `all_repos_flat()`; 0 when `flat_idx` is past the last repo.
    pub fn section_idx_for_flat_repo_idx(&self, flat_idx: usize) -> (res: usize)
        ensures
            res == (match flat_owner(self.ss(), flat_idx as int) {
                Some(i) => i,
                None => 0,
            }),
    {
        let mut seen: usize = 0;
        let mut idx: usize = 0;
        assert(self.ss().skip(0) =~= self.ss());
        while idx < self.sections.len()
            invariant
                idx <= self.sections.len(),
                seen <= flat_idx,
                flat_owner(self.ss(), flat_idx as int) == (match flat_owner(self.ss().skip(idx as int), flat_idx - seen) {
                    Some(i) => Some((i + idx) as nat),
                    None => None::<nat>,
                }),
            decreases self.sections.len() - idx,
        {
            let len = self.sections[idx].repos.len();
            assert(self.ss().skip(idx as int)[0].repos.len() == len);
            assert(self.ss().skip(idx as int).drop_first() =~= self.ss().skip(idx + 1));
            if flat_idx - seen < len {
                return idx;
            }
            seen = seen + len;
            idx += 1;
        }
        0
    }

    /// The index of the first section that contains `path`, or `None`.
    pub fn section_idx_for_path(&self, path: &str) -> (res: Option<usize>)
        ensures
            res == (match first_index(self.ss(), holds_path(path@)) {
                Some(i) => Some(i as usize),
                None => None::<usize>,
            }),
    {
        let mut i: usize = 0;
        assert(self.ss().skip(0) =~= self.ss());
        while i < self.sections.len()
            invariant
                i <= self.sections.len(),
                first_index(self.ss(), holds_path(path@)) == (match first_index(self.ss().skip(i as int), holds_path(path@)) {
                    Some(j) => Some((j + i) as nat),
                    None => None::<nat>,
                }),
            decreases self.sections.len() - i,
        {
            let found = contains_str(&self.sections[i].repos, path);
            assert(self.ss().skip(i as int)[0] == self.ss()[i as int]);
            assert(self.ss()[i as int] == self.sections@[i as int]@);
            assert(self.ss()[i as int].repos == strings_view(self.sections@[i as int].repos@));
            assert(found == self.ss()[i as int].repos.contains(path@));
            assert((holds_path(path@))(self.ss()[i as int]) == found);
            if found {
                return Some(i);
            }
            proof { lemma_first_index_skip(self.ss(), holds_path(path@), i as int); }
            i += 1;
        }
        None
    }

    /// Add a repo to the default section.  Returns `true` if newly added.
    pub fn add_repo(&mut self, path: &str) -> (res: bool)
        requires
            old(self).sections.len() >= 1,
        ensures
            res == !tracks(old(self).ss(), path@),
            !res ==> final(self).ss() == old(self).ss(),
            res ==> final(self).ss() == with_repo_added(old(self).ss(), 0, path@),
            final(self).same_flags(old(self)),
    {
        self.add_repo_to_section(path, 0)
    }

    /// Add a repo to `section_idx` (clamped to the last section).  Returns `false`,
    /// leaving everything unchanged, if the path is already tracked in any section.
    pub fn add_repo_to_section(&mut self, path: &str, section_idx: usize) -> (res: bool)
        requires
            old(self).sections.len() >= 1,
        ensures
            res == !tracks(old(self).ss(), path@),
            !res ==> final(self).ss() == old(self).ss(),
            res ==> ({
                let idx = if section_idx < old(self).ss().len() - 1 {
                    section_idx as int
                } else {
                    old(self).ss().len() - 1
                };
                final(self).ss() == with_repo_added(old(self).ss(), idx, path@)
            }),
            final(self).same_flags(old(self)),
    {
        let mut i: usize = 0;
        while i < self.sections.len()
            invariant
                i <= self.sections.len(),
                forall|j: int| 0 <= j < i ==> !(#[trigger] self.ss()[j]).repos.contains(path@),
            decreases self.sections.len() - i,
        {
            if contains_str(&self.sections[i].repos, path) {
                assert(self.ss()[i as int].repos.contains(path@));
                return false;
            }
            i += 1;
        }
        let last = self.sections.len() - 1;
        let idx = if section_idx < last { section_idx } else { last };
        let ghost old_ss = self.ss();
        self.sections[idx].push_repo(String::from_str(path));
        assert(self.ss()[idx as int].repos =~= old_ss[idx as int].repos.push(path@));
        sort_section_repos(&mut self.sections[idx], false);
        assert(self.ss() =~= old_ss.update(idx as int, SectionView {
            repos: sorted_repos(old_ss[idx as int].repos.push(path@), false),
            ..old_ss[idx as int]
        }));
        true
    }

    /// Remove a repo path from whichever section contains it.
    pub fn remove_repo(&mut self, path: &str)
        ensures
            final(self).ss() == without_repo(old(self).ss(), path@),
            final(self).same_flags(old(self)),
    {
        let ghost old_ss = self.ss();
        let mut i: usize = 0;
        while i < self.sections.len()
            invariant
                i <= self.sections.len(),
                self.ss().len() == old_ss.len(),
                forall|j: int| 0 <= j < i ==> #[trigger] self.ss()[j] == (SectionView {
                    repos: old_ss[j].repos.filter(differs_from(path@)),
                    ..old_ss[j]
                }),
                forall|j: int| i <= j < old_ss.len() ==> #[trigger] self.ss()[j] == old_ss[j],
                self.same_flags(old(self)),
            decreases self.sections.len() - i,
        {
            let ghost before = self.sections@;
            assert(self.ss()[i as int] == old_ss[i as int]);
            assert(before[i as int]@ == old_ss[i as int]);
            self.sections[i].drop_repo(path);
            assert forall|j: int| 0 <= j < before.len() && j != i implies
                #[trigger] self.ss()[j] == sections_view(before)[j] by {
                assert(self.sections@[j] == before[j]);
            }
            assert(self.ss()[i as int] == (SectionView {
                repos: old_ss[i as int].repos.filter(differs_from(path@)),
                ..old_ss[i as int]
            }));
            i += 1;
        }
        assert(self.ss() =~= without_repo(old_ss, path@));
    }

    /// Re-sort repos within every section using the given case sensitivity.
    pub fn sort_all_section_repos(&mut self, case_sensitive: bool)
        ensures
            final(self).ss().len() == old(self).ss().len(),
            forall|i: int| 0 <= i < old(self).ss().len() ==> #[trigger] final(self).ss()[i] == (SectionView {
                repos: sorted_repos(old(self).ss()[i].repos, case_sensitive),
                ..old(self).ss()[i]
            }),
            final(self).same_flags(old(self)),
    {
        let ghost old_ss = self.ss();
        let mut i: usize = 0;
        while i < self.sections.len()
            invariant
                i <= self.sections.len(),
                self.ss().len() == old_ss.len(),
                forall|j: int| 0 <= j < i ==> #[trigger] self.ss()[j] == (SectionView {
                    repos: sorted_repos(old_ss[j].repos, case_sensitive),
                    ..old_ss[j]
                }),
                forall|j: int| i <= j < old_ss.len() ==> #[trigger] self.ss()[j] == old_ss[j],
                self.same_flags(old(self)),
            decreases self.sections.len() - i,
        {
            let ghost before = self.sections@;
            assert(self.ss()[i as int] == old_ss[i as int]);
            assert(before[i as int]@ == old_ss[i as int]);
            sort_section_repos(&mut self.sections[i], case_sensitive);
            assert(self.ss()[i as int] == (SectionView {
                repos: sorted_repos(old_ss[i as int].repos, case_sensitive),
                ..old_ss[i as int]
            }));
            assert forall|j: int| 0 <= j < before.len() && j != i implies
                #[trigger] self.ss()[j] == sections_view(before)[j] by {
                assert(self.sections@[j] == before[j]);
            }
            i += 1;
        }
    }

    /// Move `path` out of every section and, when `target_section_idx` is a valid
    /// index, into that section (re-sorted).
    pub fn move_repo_to_section(&mut self, path: &str, target_section_idx: usize)
        ensures
            final(self).ss() == with_repo_moved(old(self).ss(), path@, target_section_idx as int),
            final(self).same_flags(old(self)),
    {
        self.remove_repo(path);
        if target_section_idx < self.sections.len() {
            let ghost mid = self.ss();
            self.sections[target_section_idx].push_repo(String::from_str(path));
            assert(self.ss()[target_section_idx as int].repos =~= mid[target_section_idx as int].repos.push(path@));
            sort_section_repos(&mut self.sections[target_section_idx], false);
            assert(self.ss() =~= with_repo_moved(old(self).ss(), path@, target_section_idx as int));
        }
    }

    /// Remove the named section `sections[section_idx]` (`section_idx >= 1`), moving its
    /// repos to the default section.  Out-of-range indices and 0 leave the state unchanged.
    pub fn remove_section(&mut self, section_idx: usize)
        ensures
            final(self).ss() == with_section_removed(old(self).ss(), section_idx as int),
            final(self).same_flags(old(self)),
    {
        if section_idx == 0 || section_idx >= self.sections.len() {
            return;
        }
        let ghost old_ss = self.ss();
        let removed = self.sections.remove(section_idx);
        assert(removed@ == old_ss[section_idx as int]);
        assert(self.ss() =~= old_ss.remove(section_idx as int));
        let mut repos = removed.repos;
        let ghost mid = self.ss();
        let ghost added = strings_view(repos@);
        let mut j: usize = 0;
        while j < repos.len()
            invariant
                self.sections.len() >= 1,
                j <= repos.len(),
                added == strings_view(repos@),
                self.ss().len() == mid.len(),
                forall|k: int| 1 <= k < mid.len() ==> #[trigger] self.ss()[k] == mid[k],
                self.ss()[0] == (SectionView { repos: mid[0].repos + added.take(j as int), ..mid[0] }),
                self.same_flags(old(self)),
            decreases repos.len() - j,
        {
            let r = repos[j].clone();
            assert(r@ == added[j as int]);
            let ghost before = self.ss();
            let ghost before_vec = self.sections@;
            self.sections[0].push_repo(r);
            assert forall|k: int| 1 <= k < before_vec.len() implies
                #[trigger] self.sections@[k] == before_vec[k] by {}
            assert(added.take(j + 1) =~= added.take(j as int).push(r@));
            assert(self.ss()[0].repos =~= mid[0].repos + added.take(j + 1));
            assert forall|k: int| 1 <= k < mid.len() implies #[trigger] self.ss()[k] == mid[k] by {
                assert(self.ss()[k] == before[k]);
            }
            j += 1;
        }
        assert(added.take(j as int) =~= added);
        assert(added == old_ss[section_idx as int].repos);
        let ghost before_vec = self.sections@;
        let ghost before_ss = self.ss();
        assert forall|k: int| 1 <= k < mid.len() implies #[trigger] before_ss[k] == mid[k] by {
            assert(self.ss()[k] == mid[k]);
        }
        assert(mid[0] == old_ss[0]);
        assert(before_vec[0]@.repos == old_ss[0].repos + old_ss[section_idx as int].repos);
        sort_section_repos(&mut self.sections[0], false);
        assert forall|k: int| 1 <= k < before_vec.len() implies
            #[trigger] self.ss()[k] == mid[k] by {
            assert(self.sections@[k] == before_vec[k]);
            assert(before_ss[k] == mid[k]);
        }
        assert(self.ss()[0] == (SectionView {
            repos: sorted_repos(old_ss[0].repos + old_ss[section_idx as int].repos, false),
            ..old_ss[0]
        }));
        assert(self.ss() =~= mid.update(0, SectionView {
            repos: sorted_repos(old_ss[0].repos + old_ss[section_idx as int].repos, false),
            ..old_ss[0]
        }));
    }

    /// Whether a named section other than `except` is called `lower` case-insensitively.
    fn is_name_taken(&self, lower: &str, except: usize) -> (res: bool)
        ensures
            res == name_taken(self.ss(), lower@, except as int),
    {
        let mut i: usize = 1;
        while i < self.sections.len()
            invariant
                1 <= i,
                forall|j: int| 1 <= j < i && j != except ==> !#[trigger] has_lower_name(self.ss()[j], lower@),
            decreases self.sections.len() - i,
        {
            if i != except && section_has_lower_name(&self.sections[i], lower) {
                assert(has_lower_name(self.ss()[i as int], lower@));
                return true;
            }
            i += 1;
        }
        false
    }

    /// Add a named section at its case-insensitive alphabetical position among
    /// `sections[1..]`.  Returns the new section's index, or `None` (changing nothing)
    /// when the name duplicates an existing named section case-insensitively.
    pub fn add_section(&mut self, name: String) -> (res: Option<usize>)
        ensures
            name_taken(old(self).ss(), spec_lowercase(name@), 0) ==> res is None && final(self).ss()
                == old(self).ss(),
            !name_taken(old(self).ss(), spec_lowercase(name@), 0) ==> ({
                let pos = new_section_pos(old(self).ss(), spec_lowercase(name@));
                &&& res == Some(pos as usize)
                &&& final(self).ss() == with_section_added(old(self).ss(), name@)
            }),
            final(self).same_flags(old(self)),
    {
        let lower = to_lowercase(name.as_str());
        if self.is_name_taken(lower.as_str(), 0) {
            return None;
        }
        let ghost ss = self.ss();
        let ghost key = section_insert_key();
        let len = self.sections.len();
        let mut pos: usize = len;
        if len > 0 {
            let mut k: usize = 1;
            assert(ss.skip(1).skip(0) =~= ss.skip(1));
            while k < len
                invariant
                    key == section_insert_key(),
                    len == ss.len(),
                    ss == self.ss(),
                    1 <= k <= len,
                    insert_pos(ss.skip(1), lower@, key) == (k - 1) + insert_pos(ss.skip(k as int), lower@, key),
                ensures
                    1 + insert_pos(ss.skip(1), lower@, key) == k,
                decreases len - k,
            {
                let kk = match &self.sections[k].name {
                    Some(n) => to_lowercase(n.as_str()),
                    None => String::new(),
                };
                assert(ss.skip(k as int)[0] == ss[k as int]);
                assert(kk@ == key(ss[k as int]));
                assert(ss.skip(k as int).drop_first() =~= ss.skip(k + 1));
                if str_lt(lower.as_str(), kk.as_str()) {
                    break;
                }
                k += 1;
            }
            pos = k;
        }
        let section = RepoSection { name: Some(name), repos: Vec::new(), collapsed: false };
        assert(section@.repos =~= Seq::<Seq<char>>::empty());
        self.sections.insert(pos, section);
        assert(self.ss() =~= ss.insert(pos as int, section@));
        Some(pos)
    }

    /// Rename the named section `sections[section_idx]` (`section_idx >= 1`).  Returns
    /// `None`, changing nothing, for index 0, an out-of-range index or a name that another
    /// named section already carries case-insensitively.  Otherwise the named sections are
    /// re-sorted and the new index of the renamed section is returned.
    pub fn rename_section(&mut self, section_idx: usize, new_name: String) -> (res: Option<usize>)
        ensures
            (section_idx == 0 || section_idx >= old(self).ss().len() || name_taken(
                old(self).ss(),
                spec_lowercase(new_name@),
                section_idx as int,
            )) ==> res is None && final(self).ss() == old(self).ss(),
            !(section_idx == 0 || section_idx >= old(self).ss().len() || name_taken(
                old(self).ss(),
                spec_lowercase(new_name@),
                section_idx as int,
            )) ==> ({
                let after = renamed_sections(old(self).ss(), section_idx as int, new_name@);
                &&& final(self).ss() == after
                &&& res == Some(
                    match first_index(after, named_lower(spec_lowercase(new_name@))) {
                        Some(i) => i as usize,
                        None => section_idx,
                    },
                )
            }),
            final(self).same_flags(old(self)),
    {
        if section_idx == 0 || section_idx >= self.sections.len() {
            return None;
        }
        let lower = to_lowercase(new_name.as_str());
        if self.is_name_taken(lower.as_str(), section_idx) {
            return None;
        }
        let ghost old_ss = self.ss();
        self.sections[section_idx].name = Some(new_name);
        let ghost renamed = self.ss();
        assert(renamed =~= old_ss.update(section_idx as int, SectionView { name: Some(new_name@), ..old_ss[section_idx as int] }));
        let mut named: Vec<RepoSection> = Vec::new();
        while self.sections.len() > 1
            invariant
                self.sections.len() >= 1,
                renamed.len() == self.sections.len() + named.len(),
                self.ss()[0] == renamed[0],
                sections_view(named@) + self.ss().skip(1) == renamed.skip(1),
                self.same_flags(old(self)),
            decreases self.sections.len(),
        {
            let ghost before = self.ss();
            let sec = self.sections.remove(1);
            assert(sec@ == before[1]);
            assert(self.ss() =~= before.remove(1));
            let ghost nb = sections_view(named@);
            named.push(sec);
            assert(sections_view(named@) =~= nb.push(sec@));
            assert(sections_view(named@) + self.ss().skip(1) =~= nb + before.skip(1));
        }
        assert(self.ss().skip(1) =~= Seq::<SectionView>::empty());
        assert(sections_view(named@) =~= renamed.skip(1));
        sort_sections(&mut named);
        let ghost sorted_named = sections_view(named@);
        let ghost head = self.ss();
        self.sections.append(&mut named);
        assert(self.ss() =~= head + sorted_named);
        assert(self.ss() =~= renamed_sections(old_ss, section_idx as int, new_name@));
        let ghost after = self.ss();
        let mut i: usize = 0;
        assert(after.skip(0) =~= after);
        while i < self.sections.len()
            invariant
                after == self.ss(),
                i <= self.sections.len(),
                self.same_flags(old(self)),
                1 <= section_idx < old(self).ss().len(),
                !name_taken(old(self).ss(), lower@, section_idx as int),
                lower@ == spec_lowercase(new_name@),
                after == renamed_sections(old(self).ss(), section_idx as int, new_name@),
                first_index(after, named_lower(lower@)) == (match first_index(after.skip(i as int), named_lower(lower@)) {
                    Some(j) => Some((j + i) as nat),
                    None => None::<nat>,
                }),
            decreases self.sections.len() - i,
        {
            let found = section_has_lower_name(&self.sections[i], lower.as_str());
            assert(after.skip(i as int)[0] == after[i as int]);
            assert((named_lower(lower@))(after[i as int]) == found);
            if found {
                return Some(i);
            }
            proof { lemma_first_index_skip(after, named_lower(lower@), i as int); }
            i += 1;
        }
        Some(section_idx)
    }
}

} // verus!
