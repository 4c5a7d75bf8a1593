//! Sizes and scrolling of the panes, and word wrapping of commit messages.
use vstd::prelude::*;
use crate::app::App;
use crate::state::strings_view;
use crate::text::{is_whitespace, push_char, spec_is_whitespace, spec_trim};

verus! {

/// The smallest height of the Repositories pane when it is resized.
pub const MIN_REPOS_HEIGHT: u16 = 4;

/// The height of the Repositories pane for a requested `override_h`: at least
/// `MIN_REPOS_HEIGHT`, and at most what leaves three rows to each of the `open_panes`
/// other panes (but never less than the minimum).
pub open spec fn spec_repos_height(override_h: u16, total_available: u16, open_panes: u16) -> u16 {
    let room = if total_available >= 3 * open_panes { (total_available - 3 * open_panes) as u16 } else { 0u16 };
    let max = if room > MIN_REPOS_HEIGHT { room } else { MIN_REPOS_HEIGHT };
    if override_h < MIN_REPOS_HEIGHT {
        MIN_REPOS_HEIGHT
    } else if override_h > max {
        max
    } else {
        override_h
    }
}

/// See `spec_repos_height`.
pub fn clamp_repos_height(override_h: u16, total_available: u16, open_panes: u16) -> (res: u16)
    requires
        3 * open_panes <= u16::MAX,
    ensures
        res == spec_repos_height(override_h, total_available, open_panes),
{
    let taken = open_panes * 3;
    let room = if total_available >= taken { total_available - taken } else { 0 };
    let max = if room > MIN_REPOS_HEIGHT { room } else { MIN_REPOS_HEIGHT };
    if override_h < MIN_REPOS_HEIGHT {
        MIN_REPOS_HEIGHT
    } else if override_h > max {
        max
    } else {
        override_h
    }
}

/// Rows of the repository table that fit in a pane of `height` rows: two border rows
/// and the header row are taken.
pub fn table_visible_rows(height: u16) -> (res: usize)
    ensures
        res == (if height >= 3 { height - 3 } else { 0 }),
{
    if height >= 3 { (height - 3) as usize } else { 0 }
}

/// Height of the File Status pane for `count` files: borders and header plus one row
/// per file, between 5 and 15.
pub fn file_status_panel_height(count: usize) -> (res: u16)
    requires
        count <= 65532,
    ensures
        res == (if count + 3 < 5 { 5 } else if count + 3 > 15 { 15 } else { count + 3 }),
{
    let h = 3 + count as u16;
    if h < 5 {
        5
    } else if h > 15 {
        15
    } else {
        h
    }
}

/// Height of the log pane for `n` lines: borders plus up to eight lines (counting the
/// lines modulo 2^16), between 5 and 10.
pub fn log_panel_height(n: usize) -> (res: u16)
    ensures
        res == ({
            let t = (n % 65536) as u16;
            let h = 2 + (if t < 8 { t } else { 8 });
            if h < 5 { 5 } else if h > 10 { 10 } else { h }
        }),
{
    let t = (n % 65536) as u16;
    let h = 2 + if t < 8 { t } else { 8 };
    if h < 5 {
        5
    } else if h > 10 {
        10
    } else {
        h
    }
}

impl App {
    /// The table offset after scrolling so that the selected row is visible in
    /// `visible` rows: 0 without rows or repositories; otherwise moved just enough to
    /// show the selection, then limited to `repos.len() - visible`.
    pub open spec fn spec_table_offset(&self, visible: usize) -> usize {
        if visible == 0 || self.repos@.len() == 0 {
            0
        } else {
            let o = if self.selected < self.table_offset {
                self.selected
            } else if self.selected >= self.table_offset + visible {
                (self.selected + 1 - visible) as usize
            } else {
                self.table_offset
            };
            let max_offset = if self.repos@.len() >= visible { (self.repos@.len() - visible) as usize } else { 0usize };
            if o > max_offset { max_offset } else { o }
        }
    }

    /// Scroll the repository table so that the selected row is visible (see
    /// `spec_table_offset`).
    pub fn clamp_offset(&mut self, visible: usize)
        ensures
            *final(self) == (App { table_offset: old(self).spec_table_offset(visible), ..*old(self) }),
    {
        let v = self.table_offset_for(visible);
        self.table_offset = v;
    }

    fn table_offset_for(&self, visible: usize) -> (res: usize)
        ensures
            res == self.spec_table_offset(visible),
    {
        let n = self.repos.len();
        if visible == 0 || n == 0 {
            return 0;
        }
        let o = if self.selected < self.table_offset {
            self.selected
        } else if self.selected - self.table_offset >= visible {
            self.selected - visible + 1
        } else {
            self.table_offset
        };
        let max_offset = if n >= visible { n - visible } else { 0 };
        if o > max_offset { max_offset } else { o }
    }
}

/// Bytes of the UTF-8 encoding of `c`.
pub open spec fn utf8_width(c: char) -> nat {
    if (c as u32) < 0x80 {
        1
    } else if (c as u32) < 0x800 {
        2
    } else if (c as u32) < 0x10000 {
        3
    } else {
        4
    }
}

/// Bytes of the UTF-8 encoding of `s` (what `str::len` returns).
pub open spec fn utf8_len(s: Seq<char>) -> nat
    decreases s.len(),
{
    if s.len() == 0 { 0 } else { utf8_len(s.drop_last()) + utf8_width(s.last()) }
}

/// The whitespace-separated words of `s` that are complete, and the word being read
/// at its end.
pub open spec fn words_acc(s: Seq<char>) -> (Seq<Seq<char>>, Seq<char>)
    decreases s.len(),
{
    if s.len() == 0 {
        (Seq::empty(), Seq::empty())
    } else {
        let (done, cur) = words_acc(s.drop_last());
        let c = s.last();
        if spec_is_whitespace(c) {
            if cur.len() > 0 { (done.push(cur), Seq::empty()) } else { (done, cur) }
        } else {
            (done, cur.push(c))
        }
    }
}

/// The words of `s` as `str::split_whitespace` gives them.
pub open spec fn words(s: Seq<char>) -> Seq<Seq<char>> {
    let (done, cur) = words_acc(s);
    if cur.len() > 0 { done.push(cur) } else { done }
}

/// Greedy filling of lines of at most `width` bytes with `ws`: the finished lines and
/// the line being filled.  A word longer than the width gets a line of its own.
pub open spec fn wrap_fold(ws: Seq<Seq<char>>, width: nat) -> (Seq<Seq<char>>, Seq<char>)
    decreases ws.len(),
{
    if ws.len() == 0 {
        (Seq::empty(), Seq::empty())
    } else {
        let (out, line) = wrap_fold(ws.drop_last(), width);
        let w = ws.last();
        if line.len() == 0 {
            (out, w)
        } else if utf8_len(line) + 1 + utf8_len(w) <= width {
            (out, line.push(' ') + w)
        } else {
            (out.push(line), w)
        }
    }
}

/// The lines `word_wrap` gives: the text itself for width 0, one empty line for a
/// blank text, otherwise the words filled greedily into lines of at most `width`
/// bytes, joined by single spaces.
pub open spec fn spec_word_wrap(text: Seq<char>, width: nat) -> Seq<Seq<char>> {
    if width == 0 {
        seq![text]
    } else if spec_trim(text).len() == 0 {
        seq![Seq::empty()]
    } else {
        let (out, line) = wrap_fold(words(text), width);
        if line.len() > 0 { out.push(line) } else { out }
    }
}

fn char_width(c: char) -> (res: usize)
    ensures
        res == utf8_width(c),
{
    let u = c as u32;
    if u < 0x80 {
        1
    } else if u < 0x800 {
        2
    } else if u < 0x10000 {
        3
    } else {
        4
    }
}

proof fn lemma_utf8_len_add(a: Seq<char>, b: Seq<char>)
    ensures
        utf8_len(a + b) == utf8_len(a) + utf8_len(b),
    decreases b.len(),
{
    if b.len() > 0 {
        lemma_utf8_len_add(a, b.drop_last());
        assert((a + b).drop_last() =~= a + b.drop_last());
    } else {
        assert(a + b =~= a);
    }
}

proof fn lemma_utf8_len_bound(a: Seq<char>)
    ensures
        utf8_len(a) <= 4 * a.len(),
    decreases a.len(),
{
    if a.len() > 0 {
        lemma_utf8_len_bound(a.drop_last());
    }
}

/// The words of `text` (see `words`).
fn split_words(text: &str) -> (res: Vec<Vec<char>>)
    ensures
        res@.map_values(|w: Vec<char>| w@) == words(text@),
{
    let n = text.unicode_len();
    let mut done: Vec<Vec<char>> = Vec::new();
    let mut cur: Vec<char> = Vec::new();
    let mut i: usize = 0;
    while i < n
        invariant
            n == text@.len(),
            i <= n,
            (done@.map_values(|w: Vec<char>| w@), cur@) == words_acc(text@.take(i as int)),
        decreases n - i,
    {
        assert(text@.take(i + 1).drop_last() =~= text@.take(i as int));
        let c = text.get_char(i);
        if is_whitespace(c) {
            if cur.len() > 0 {
                let ghost before = done@.map_values(|w: Vec<char>| w@);
                let w = cur;
                cur = Vec::new();
                done.push(w);
                assert(done@.map_values(|w: Vec<char>| w@) =~= before.push(w@));
                assert(cur@ =~= Seq::<char>::empty());
            }
        } else {
            cur.push(c);
        }
        i += 1;
    }
    assert(text@.take(n as int) =~= text@);
    if cur.len() > 0 {
        let ghost before = done@.map_values(|w: Vec<char>| w@);
        done.push(cur);
        assert(done@.map_values(|w: Vec<char>| w@) =~= before.push(words_acc(text@).1));
    }
    done
}

/// Whether `text` has no character that is not white space.
fn is_blank(text: &str) -> (res: bool)
    ensures
        res == (spec_trim(text@).len() == 0),
{
    let t = crate::text::trimmed(text);
    t.as_str().unicode_len() == 0
}

proof fn lemma_words_acc_bound(s: Seq<char>)
    ensures
        words_acc(s).1.len() <= s.len(),
        forall|j: int| 0 <= j < words_acc(s).0.len() ==> (#[trigger] words_acc(s).0[j]).len() <= s.len(),
    decreases s.len(),
{
    if s.len() > 0 {
        lemma_words_acc_bound(s.drop_last());
    }
}

proof fn lemma_words_bound(s: Seq<char>)
    ensures
        forall|j: int| 0 <= j < words(s).len() ==> (#[trigger] words(s)[j]).len() <= s.len(),
{
    lemma_words_acc_bound(s);
}

/// Bytes of the UTF-8 encoding of `w`.
fn utf8_bytes(w: &Vec<char>) -> (res: usize)
    requires
        4 * w@.len() <= usize::MAX,
    ensures
        res == utf8_len(w@),
{
    let mut wb: usize = 0;
    let mut k: usize = 0;
    while k < w.len()
        invariant
            k <= w@.len(),
            4 * w@.len() <= usize::MAX,
            wb == utf8_len(w@.take(k as int)),
            wb <= 4 * k,
        decreases w@.len() - k,
    {
        assert(w@.take(k + 1).drop_last() =~= w@.take(k as int));
        wb = wb + char_width(w[k]);
        k += 1;
    }
    assert(w@.take(w@.len() as int) =~= w@);
    wb
}

/// Wrap `text` into lines of at most `width` bytes (see `spec_word_wrap`).
pub fn word_wrap(text: &str, width: usize) -> (res: Vec<String>)
    requires
        4 * text@.len() <= usize::MAX,
    ensures
        strings_view(res@) == spec_word_wrap(text@, width as nat),
{
    let mut out: Vec<String> = Vec::new();
    if width == 0 {
        out.push(crate::text::string_from_chars(crate::text::chars_of(text).as_slice()));
        assert(strings_view(out@) =~= seq![text@]);
        return out;
    }
    if is_blank(text) {
        out.push(String::new());
        assert(strings_view(out@) =~= seq![Seq::<char>::empty()]);
        return out;
    }
    let ws = split_words(text);
    let ghost wv = ws@.map_values(|w: Vec<char>| w@);
    proof { lemma_words_bound(text@); }
    let mut line = String::new();
    let mut line_bytes: usize = 0;
    let mut i: usize = 0;
    while i < ws.len()
        invariant
            wv == ws@.map_values(|w: Vec<char>| w@),
            wv == words(text@),
            forall|j: int| 0 <= j < wv.len() ==> (#[trigger] wv[j]).len() <= text@.len(),
            4 * text@.len() <= usize::MAX,
            width > 0,
            i <= ws@.len(),
            (strings_view(out@), line@) == wrap_fold(wv.take(i as int), width as nat),
            line_bytes == utf8_len(line@),
        decreases ws@.len() - i,
    {
        assert(wv.take(i + 1).drop_last() =~= wv.take(i as int));
        assert(wv.take(i + 1).last() == wv[i as int]);
        let w = &ws[i];
        assert(w@ == wv[i as int]);
        let wb = utf8_bytes(w);
        if line.as_str().unicode_len() == 0 {
            line = chars_to_string(w);
            line_bytes = wb;
        } else if line_bytes < width && wb < width - line_bytes {
            let ghost base = line@;
            push_char(&mut line, ' ');
            let ghost spaced = line@;
            let mut k2: usize = 0;
            while k2 < w.len()
                invariant
                    k2 <= w@.len(),
                    line@ == spaced + w@.take(k2 as int),
                decreases w@.len() - k2,
            {
                push_char(&mut line, w[k2]);
                assert(spaced + w@.take(k2 + 1) =~= (spaced + w@.take(k2 as int)).push(w@[k2 as int]));
                k2 += 1;
            }
            assert(w@.take(w@.len() as int) =~= w@);
            proof {
                lemma_utf8_len_add(spaced, w@);
                assert(spaced == base.push(' '));
                assert(spaced.drop_last() =~= base);
            }
            line_bytes = line_bytes + 1 + wb;
        } else {
            let ghost before = strings_view(out@);
            let finished = line;
            out.push(finished);
            assert(strings_view(out@) =~= before.push(finished@));
            line = chars_to_string(w);
            line_bytes = wb;
        }
        i += 1;
    }
    assert(wv.take(wv.len() as int) =~= wv);
    if line.as_str().unicode_len() > 0 {
        let ghost before = strings_view(out@);
        let l = line;
        out.push(l);
        assert(strings_view(out@) =~= before.push(l@));
    }
    out
}

fn chars_to_string(w: &Vec<char>) -> (res: String)
    ensures
        res@ == w@,
{
    crate::text::string_from_chars(w.as_slice())
}

} // verus!
