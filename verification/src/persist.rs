//! Turning the state file's contents into a `State` and back: repository paths are
//! stored relative to the file's directory when they lie below it, and resolved against
//! it when read.  Reading and writing the file, and checking which paths are
//! directories, is the application's part.
use vstd::prelude::*;
use crate::state::{
    RepoSection, SectionView, State, default_sections, sections_view, sort_section_repos, sorted_repos,
    strings_view,
};
use crate::text::{push_str, str_eq};
use crate::watcher::{components, path_components};

verus! {

/// The contents of a state file: the sections (current format) or a flat list of
/// repositories (older format), and the pane flags.
pub struct SavedState {
    pub repos: Vec<String>,
    pub sections: Vec<RepoSection>,
    pub show_file_status: bool,
    pub show_log: bool,
    pub show_history: bool,
    pub show_details: bool,
}

/// `raw` resolved against `base_dir`: unchanged when absolute, otherwise appended to the
/// directory (with a `/` between them unless the directory is empty or ends with one).
pub open spec fn spec_resolve_path(raw: Seq<char>, base_dir: Seq<char>) -> Seq<char> {
    if raw.len() > 0 && raw[0] == '/' {
        raw
    } else if base_dir.len() == 0 || base_dir.last() == '/' {
        base_dir + raw
    } else {
        base_dir + "/"@ + raw
    }
}

/// Components joined by `/` (a leading root component gives the leading `/`).
pub open spec fn join_parts(parts: Seq<Seq<char>>) -> Seq<char>
    decreases parts.len(),
{
    if parts.len() == 0 {
        Seq::empty()
    } else if parts.len() == 1 {
        parts[0]
    } else {
        join_parts(parts.drop_last()) + "/"@ + parts.last()
    }
}

pub open spec fn join_components(parts: Seq<Seq<char>>) -> Seq<char> {
    if parts.len() > 0 && parts[0] == "/"@ { "/"@ + join_parts(parts.skip(1)) } else { join_parts(parts) }
}

/// `abs` relative to `base_dir` when the directory's components begin its components
/// (the remaining components joined by `/`), `abs` unchanged otherwise.
pub open spec fn spec_make_relative(abs: Seq<char>, base_dir: Seq<char>) -> Seq<char> {
    let ca = components(abs);
    let cb = components(base_dir);
    if cb.len() <= ca.len() && ca.take(cb.len() as int) == cb {
        join_components(ca.skip(cb.len() as int))
    } else {
        abs
    }
}

/// The paths of `ps` resolved against `base_dir`, keeping those found in `dirs`.
pub open spec fn resolved_dirs(ps: Seq<Seq<char>>, base_dir: Seq<char>, dirs: Seq<Seq<char>>) -> Seq<Seq<char>>
    decreases ps.len(),
{
    if ps.len() == 0 {
        Seq::empty()
    } else {
        let rest = resolved_dirs(ps.drop_last(), base_dir, dirs);
        let r = spec_resolve_path(ps.last(), base_dir);
        if dirs.contains(r) { rest.push(r) } else { rest }
    }
}

/// A loaded section: its repositories resolved, kept when they are directories, and
/// sorted case-insensitively.
pub open spec fn loaded_section(s: SectionView, base_dir: Seq<char>, dirs: Seq<Seq<char>>) -> SectionView {
    SectionView { repos: sorted_repos(resolved_dirs(s.repos, base_dir, dirs), false), ..s }
}

/// The sections of a loaded state: the saved sections (with a default section put
/// first when the first one is named), or the older flat list as the default section,
/// or just an empty default section.
pub open spec fn loaded_sections(saved_sections: Seq<SectionView>, legacy: Seq<Seq<char>>, base_dir: Seq<char>, dirs: Seq<Seq<char>>) -> Seq<SectionView> {
    let empty_default = SectionView { name: None, repos: Seq::empty(), collapsed: false };
    if saved_sections.len() > 0 {
        let ss = if saved_sections[0].name is Some { seq![empty_default] + saved_sections } else { saved_sections };
        ss.map_values(|s: SectionView| loaded_section(s, base_dir, dirs))
    } else if legacy.len() > 0 {
        seq![SectionView { name: None, repos: sorted_repos(resolved_dirs(legacy, base_dir, dirs), false), collapsed: false }]
    } else {
        seq![empty_default]
    }
}

/// See `spec_resolve_path`.
pub fn resolve_path(raw: &str, base_dir: &str) -> (res: String)
    ensures
        res@ == spec_resolve_path(raw@, base_dir@),
{
    let mut out = String::new();
    if raw.unicode_len() > 0 && raw.get_char(0) == '/' {
        push_str(&mut out, raw);
        return out;
    }
    push_str(&mut out, base_dir);
    let n = base_dir.unicode_len();
    if n > 0 && base_dir.get_char(n - 1) != '/' {
        push_str(&mut out, "/");
    }
    push_str(&mut out, raw);
    out
}

fn join_from(parts: &Vec<String>, start: usize) -> (res: String)
    requires
        start <= parts@.len(),
    ensures
        res@ == join_parts(strings_view(parts@).skip(start as int)),
{
    let ghost v = strings_view(parts@);
    let mut out = String::new();
    let mut i: usize = start;
    assert(v.skip(start as int).take(0) =~= Seq::<Seq<char>>::empty());
    while i < parts.len()
        invariant
            v == strings_view(parts@),
            start <= i <= parts@.len(),
            out@ == join_parts(v.skip(start as int).take(i - start)),
        decreases parts@.len() - i,
    {
        let ghost t = v.skip(start as int).take(i - start + 1);
        assert(t.drop_last() =~= v.skip(start as int).take(i - start));
        assert(t.last() == parts@[i as int]@);
        if i > start {
            push_str(&mut out, "/");
        } else {
            assert(t =~= seq![parts@[i as int]@]);
        }
        push_str(&mut out, parts[i].as_str());
        i += 1;
    }
    assert(v.skip(start as int).take(i - start) =~= v.skip(start as int));
    out
}

/// See `spec_make_relative`.
pub fn make_relative(abs: &str, base_dir: &str) -> (res: String)
    ensures
        res@ == spec_make_relative(abs@, base_dir@),
{
    let ca = path_components(abs);
    let cb = path_components(base_dir);
    let ghost va = ca@.map_values(|c: String| c@);
    let ghost vb = cb@.map_values(|c: String| c@);
    assert(va =~= strings_view(ca@));
    assert(vb =~= strings_view(cb@));
    let mut same = cb.len() <= ca.len();
    let mut i: usize = 0;
    if same {
        assert(va.take(0) =~= vb.take(0));
        while i < cb.len()
            invariant
                cb@.len() <= ca@.len(),
                i <= cb@.len(),
                va == ca@.map_values(|c: String| c@),
                vb == cb@.map_values(|c: String| c@),
                same == (va.take(i as int) == vb.take(i as int)),
            decreases cb@.len() - i,
        {
            let eq = str_eq(ca[i].as_str(), cb[i].as_str());
            proof {
                if same && eq {
                    assert(va.take(i + 1) =~= va.take(i as int).push(va[i as int]));
                    assert(vb.take(i + 1) =~= vb.take(i as int).push(vb[i as int]));
                }
                if !eq {
                    assert(va.take(i + 1)[i as int] != vb.take(i + 1)[i as int]);
                }
                if !same {
                    assert forall|x: int| 0 <= x < i implies va.take(i + 1)[x] == va.take(i as int)[x] by {}
                    assert forall|x: int| 0 <= x < i implies vb.take(i + 1)[x] == vb.take(i as int)[x] by {}
                    if va.take(i + 1) == vb.take(i + 1) {
                        assert(va.take(i as int) =~= vb.take(i as int));
                    }
                }
            }
            same = same && eq;
            i += 1;
        }
        assert(vb.take(cb@.len() as int) =~= vb);
    }
    if !same {
        let mut out = String::new();
        push_str(&mut out, abs);
        return out;
    }
    let k = cb.len();
    let mut out = String::new();
    if k < ca.len() && str_eq(ca[k].as_str(), "/") {
        push_str(&mut out, "/");
        let rest = join_from(&ca, k + 1);
        push_str(&mut out, rest.as_str());
        assert(va.skip(k as int).skip(1) =~= va.skip(k + 1));
    } else {
        let rest = join_from(&ca, k);
        push_str(&mut out, rest.as_str());
    }
    out
}

/// The repositories of `ps` resolved against `base_dir` that are among `dirs`.
fn resolve_repos(ps: &Vec<String>, base_dir: &str, dirs: &Vec<String>) -> (res: Vec<String>)
    ensures
        strings_view(res@) == resolved_dirs(strings_view(ps@), base_dir@, strings_view(dirs@)),
{
    let ghost v = strings_view(ps@);
    let mut out: Vec<String> = Vec::new();
    let mut i: usize = 0;
    while i < ps.len()
        invariant
            v == strings_view(ps@),
            i <= ps@.len(),
            strings_view(out@) == resolved_dirs(v.take(i as int), base_dir@, strings_view(dirs@)),
        decreases ps@.len() - i,
    {
        assert(v.take(i + 1).drop_last() =~= v.take(i as int));
        let r = resolve_path(ps[i].as_str(), base_dir);
        let found = crate::state::contains_str(dirs, r.as_str());
        if found {
            let ghost before = strings_view(out@);
            out.push(r);
            assert(strings_view(out@) =~= before.push(r@));
        }
        i += 1;
    }
    assert(v.take(ps@.len() as int) =~= v);
    out
}

impl State {
    /// The state read from a state file at `path` whose contents are `saved`:
    /// `base_dir` is the file's directory and `dirs` the resolved repository paths that
    /// are directories (see `loaded_sections`).
    pub fn from_saved(saved: SavedState, path: String, base_dir: &str, dirs: &Vec<String>) -> (res: State)
        ensures
            res.ss() == loaded_sections(sections_view(saved.sections@), strings_view(saved.repos@), base_dir@, strings_view(dirs@)),
            res.show_file_status == saved.show_file_status,
            res.show_log == saved.show_log,
            res.show_history == saved.show_history,
            res.show_details == saved.show_details,
            res.path == path,
    {
        let ghost ssv = sections_view(saved.sections@);
        let ghost dv = strings_view(dirs@);
        let sections = if saved.sections.len() > 0 {
            let mut src = saved.sections;
            let first_named = src[0].name.is_some();
            if first_named {
                let d = RepoSection::new_default();
                assert(d@.repos =~= Seq::<Seq<char>>::empty());
                let ghost before = sections_view(src@);
                src.insert(0, d);
                assert(sections_view(src@) =~= seq![d@] + before);
            }
            let ghost start = sections_view(src@);
            assert(start =~= (if ssv[0].name is Some {
                seq![SectionView { name: None, repos: Seq::empty(), collapsed: false }] + ssv
            } else {
                ssv
            }));
            let mut out: Vec<RepoSection> = Vec::new();
            let mut pool = src;
            let n = pool.len();
            let mut k: usize = 0;
            assert(start.skip(0) =~= start);
            assert(sections_view(out@) =~= start.take(0).map_values(|s: SectionView| loaded_section(s, base_dir@, dv)));
            while k < n
                invariant
                    n == start.len(),
                    k <= n,
                    pool@.len() == n - k,
                    sections_view(pool@) == start.skip(k as int),
                    sections_view(out@) == start.take(k as int).map_values(|s: SectionView| loaded_section(s, base_dir@, dv)),
                    dv == strings_view(dirs@),
                decreases n - k,
            {
                assert(sections_view(pool@)[0] == pool@[0]@);
                assert(start.skip(k as int)[0] == start[k as int]);
                let ghost old_pool = pool@;
                let sec = pool.remove(0);
                assert(sec@ == start[k as int]);
                assert(pool@ =~= old_pool.skip(1));
                assert(sections_view(old_pool.skip(1)) =~= sections_view(old_pool).skip(1));
                assert(start.skip(k as int).skip(1) =~= start.skip(k + 1));
                assert(sections_view(pool@) =~= start.skip(k + 1));
                let repos = resolve_repos(&sec.repos, base_dir, dirs);
                let mut s2 = RepoSection { name: sec.name, repos, collapsed: sec.collapsed };
                sort_section_repos(&mut s2, false);
                let ghost before = sections_view(out@);
                out.push(s2);
                assert(sections_view(out@) =~= before.push(s2@));
                assert(start.take(k + 1).map_values(|s: SectionView| loaded_section(s, base_dir@, dv))
                    =~= start.take(k as int).map_values(|s: SectionView| loaded_section(s, base_dir@, dv)).push(
                    loaded_section(start[k as int], base_dir@, dv),
                ));
                k += 1;
            }
            assert(start.take(n as int) =~= start);
            out
        } else if saved.repos.len() > 0 {
            let repos = resolve_repos(&saved.repos, base_dir, dirs);
            let mut d = RepoSection { name: None, repos, collapsed: false };
            sort_section_repos(&mut d, false);
            let v = vec![d];
            assert(sections_view(v@) =~= seq![d@]);
            v
        } else {
            let v = default_sections();
            assert(v@[0]@.repos =~= Seq::<Seq<char>>::empty());
            assert(sections_view(v@) =~= seq![SectionView { name: None, repos: Seq::empty(), collapsed: false }]);
            v
        };
        State {
            sections,
            show_file_status: saved.show_file_status,
            show_log: saved.show_log,
            show_history: saved.show_history,
            show_details: saved.show_details,
            path,
        }
    }

    /// The sections as they are written to the state file in `base_dir`: each
    /// repository path made relative to the directory (see `spec_make_relative`).
    pub fn saveable_sections(&self, base_dir: &str) -> (res: Vec<RepoSection>)
        ensures
            sections_view(res@) == self.ss().map_values(|s: SectionView| SectionView {
                repos: s.repos.map_values(|p: Seq<char>| spec_make_relative(p, base_dir@)),
                ..s
            }),
    {
        let ghost ss = self.ss();
        let mut out: Vec<RepoSection> = Vec::new();
        let mut i: usize = 0;
        while i < self.sections.len()
            invariant
                ss == self.ss(),
                i <= ss.len(),
                sections_view(out@) == ss.take(i as int).map_values(|s: SectionView| SectionView {
                    repos: s.repos.map_values(|p: Seq<char>| spec_make_relative(p, base_dir@)),
                    ..s
                }),
            decreases ss.len() - i,
        {
            let sec = &self.sections[i];
            let mut repos: Vec<String> = Vec::new();
            let mut j: usize = 0;
            while j < sec.repos.len()
                invariant
                    j <= sec.repos@.len(),
                    strings_view(repos@) == strings_view(sec.repos@).take(j as int).map_values(
                        |p: Seq<char>| spec_make_relative(p, base_dir@),
                    ),
                decreases sec.repos@.len() - j,
            {
                let r = make_relative(sec.repos[j].as_str(), base_dir);
                let ghost before = strings_view(repos@);
                repos.push(r);
                assert(strings_view(repos@) =~= before.push(r@));
                assert(strings_view(sec.repos@).take(j + 1).map_values(|p: Seq<char>| spec_make_relative(p, base_dir@))
                    =~= strings_view(sec.repos@).take(j as int).map_values(|p: Seq<char>| spec_make_relative(p, base_dir@)).push(
                    spec_make_relative(sec.repos@[j as int]@, base_dir@),
                ));
                j += 1;
            }
            assert(strings_view(sec.repos@).take(sec.repos@.len() as int) =~= strings_view(sec.repos@));
            let name = match &sec.name {
                Some(n) => Some(crate::text::string_from_chars(crate::text::chars_of(n.as_str()).as_slice())),
                None => None,
            };
            let s2 = RepoSection { name, repos, collapsed: sec.collapsed };
            let ghost before = sections_view(out@);
            out.push(s2);
            assert(sections_view(out@) =~= before.push(s2@));
            assert(ss.take(i + 1).map_values(|s: SectionView| SectionView {
                repos: s.repos.map_values(|p: Seq<char>| spec_make_relative(p, base_dir@)),
                ..s
            }) =~= ss.take(i as int).map_values(|s: SectionView| SectionView {
                repos: s.repos.map_values(|p: Seq<char>| spec_make_relative(p, base_dir@)),
                ..s
            }).push(s2@));
            i += 1;
        }
        assert(ss.take(ss.len() as int) =~= ss);
        out
    }
}

} // verus!
