//! Text utilities: `${VAR}` substitution and middle truncation.
use vstd::prelude::*;
use crate::order::{first_index, lemma_first_index_skip};
use crate::text::{chars_of, push_char, str_eq, string_from_chars};

verus! {

/// The last component of a path: what follows its last `/` (the whole path when it
/// has none).
pub open spec fn path_base(p: Seq<char>) -> Seq<char>
    decreases p.len(),
{
    if p.len() == 0 {
        p
    } else if p.last() == '/' {
        Seq::empty()
    } else {
        path_base(p.drop_last()).push(p.last())
    }
}

/// See `path_base`.
pub fn last_component(p: &str) -> (res: String)
    ensures
        res@ == path_base(p@),
{
    let cs = chars_of(p);
    let mut out = String::new();
    let mut i: usize = 0;
    assert(cs@.take(0) =~= Seq::<char>::empty());
    while i < cs.len()
        invariant
            cs@ == p@,
            i <= cs.len(),
            out@ == path_base(cs@.take(i as int)),
        decreases cs.len() - i,
    {
        assert(cs@.take(i + 1).drop_last() =~= cs@.take(i as int));
        assert(cs@.take(i + 1).last() == cs@[i as int]);
        if cs[i] == '/' {
            out = String::new();
            assert(out@ =~= Seq::<char>::empty());
        } else {
            push_char(&mut out, cs[i]);
        }
        i += 1;
    }
    assert(cs@.take(cs.len() as int) =~= cs@);
    out
}

/// Number of characters before the first `}` in `s` (all of `s` when there is none).
pub open spec fn name_len(s: Seq<char>) -> nat
    decreases s.len(),
{
    if s.len() == 0 || s[0] == '}' {
        0
    } else {
        1 + name_len(s.drop_first())
    }
}

pub proof fn lemma_name_len(s: Seq<char>)
    ensures
        name_len(s) <= s.len(),
        forall|i: int| 0 <= i < name_len(s) ==> s[i] != '}',
        name_len(s) < s.len() ==> s[name_len(s) as int] == '}',
    decreases s.len(),
{
    if s.len() > 0 && s[0] != '}' {
        lemma_name_len(s.drop_first());
        assert forall|i: int| 0 <= i < name_len(s) implies s[i] != '}' by {
            if i > 0 {
                assert(s[i] == s.drop_first()[i - 1]);
            }
        }
    }
}

/// The text `${name}`.
pub open spec fn braced(name: Seq<char>) -> Seq<char> {
    seq!['$', '{'] + name + seq!['}']
}

/// Expansion of `${NAME}` references: each reference whose name `lookup` resolves is
/// replaced by its value; unresolved references are kept as `${NAME}` and their names
/// reported, in order; `${}` is kept as is.  The name of a reference runs up to the next
/// `}` (or the end of the text, in which case the closing `}` is supplied).
pub open spec fn substitute(s: Seq<char>, lookup: spec_fn(Seq<char>) -> Option<Seq<char>>) -> (Seq<char>, Seq<Seq<char>>)
    decreases s.len(),
{
    if s.len() == 0 {
        (Seq::empty(), Seq::empty())
    } else if s[0] != '$' || s.len() < 2 || s[1] != '{' {
        let r = substitute(s.drop_first(), lookup);
        (seq![s[0]] + r.0, r.1)
    } else {
        let rest = s.skip(2);
        let n = name_len(rest);
        proof {
            lemma_name_len(rest);
        }
        let name = rest.take(n as int);
        let after = if n < rest.len() { rest.skip(n + 1 as int) } else { rest.skip(n as int) };
        let r = substitute(after, lookup);
        if n == 0 {
            (braced(Seq::empty()) + r.0, r.1)
        } else {
            match lookup(name) {
                Some(v) => (v + r.0, r.1),
                None => (braced(name) + r.0, seq![name] + r.1),
            }
        }
    }
}

/// Look a name up in a list of `(name, value)` pairs: the value of the first pair with
/// that name.
pub open spec fn pairs_lookup(vars: Seq<(Seq<char>, Seq<char>)>) -> spec_fn(Seq<char>) -> Option<Seq<char>> {
    |name: Seq<char>| match first_index(vars, |kv: (Seq<char>, Seq<char>)| kv.0 == name) {
        Some(i) => Some(vars[i as int].1),
        None => None,
    }
}

pub open spec fn pairs_view(vars: Seq<(&str, &str)>) -> Seq<(Seq<char>, Seq<char>)> {
    vars.map_values(|kv: (&str, &str)| (kv.0@, kv.1@))
}

/// The predicate "this pair's name is `name`".
pub open spec fn key_is(name: Seq<char>) -> spec_fn((Seq<char>, Seq<char>)) -> bool {
    |kv: (Seq<char>, Seq<char>)| kv.0 == name
}

/// The value of the first pair named `name`.
fn lookup_pair(vars: &[(&str, &str)], name: &str) -> (res: Option<String>)
    ensures
        res matches Some(v) ==> (pairs_lookup(pairs_view(vars@)))(name@) == Some(v@),
        res is None ==> (pairs_lookup(pairs_view(vars@)))(name@) is None,
{
    let ghost pv = pairs_view(vars@);
    assert((|kv: (Seq<char>, Seq<char>)| kv.0 == name@) == key_is(name@));
    let mut i: usize = 0;
    assert(pv.skip(0) =~= pv);
    while i < vars.len()
        invariant
            pv == pairs_view(vars@),
            i <= vars.len(),
            first_index(pv, key_is(name@)) == (match first_index(pv.skip(i as int), key_is(name@)) {
                Some(j) => Some((j + i) as nat),
                None => None::<nat>,
            }),
        decreases vars.len() - i,
    {
        let (k, v) = vars[i];
        assert(pv.skip(i as int)[0] == pv[i as int]);
        if str_eq(k, name) {
            assert((key_is(name@))(pv[i as int]));
            return Some(string_from_chars(chars_of(v).as_slice()));
        }
        proof { lemma_first_index_skip(pv, key_is(name@), i as int); }
        i += 1;
    }
    None
}

/// Append the characters `${name}` to `out`.
fn push_braced(out: &mut Vec<char>, name: &Vec<char>)
    ensures
        final(out)@ == old(out)@ + braced(name@),
{
    out.push('$');
    out.push('{');
    let mut i: usize = 0;
    let ghost start = out@;
    while i < name.len()
        invariant
            i <= name.len(),
            out@ == start + name@.take(i as int),
        decreases name.len() - i,
    {
        out.push(name[i]);
        i += 1;
        assert(out@ =~= start + name@.take(i as int));
    }
    out.push('}');
    assert(out@ =~= old(out)@ + braced(name@));
}

/// Replace `${VAR}` references in `s` using the given `(name, value)` pairs.
/// Returns the expanded string and the names that could not be resolved.
pub fn expand_vars(s: &str, vars: &[(&str, &str)]) -> (res: (String, Vec<String>))
    ensures
        res.0@ == substitute(s@, pairs_lookup(pairs_view(vars@))).0,
        res.1@.map_values(|m: String| m@) == substitute(s@, pairs_lookup(pairs_view(vars@))).1,
{
    let ghost lookup = pairs_lookup(pairs_view(vars@));
    let cs = chars_of(s);
    let n = cs.len();
    let mut out: Vec<char> = Vec::new();
    let mut missing: Vec<String> = Vec::new();
    let mut i: usize = 0;
    assert(cs@.skip(0) =~= cs@);
    while i < n
        invariant
            n == cs@.len(),
            cs@ == s@,
            lookup == pairs_lookup(pairs_view(vars@)),
            i <= n,
            substitute(s@, lookup).0 == out@ + substitute(cs@.skip(i as int), lookup).0,
            substitute(s@, lookup).1 == missing@.map_values(|m: String| m@) + substitute(cs@.skip(i as int), lookup).1,
        decreases n - i,
    {
        let ghost t = cs@.skip(i as int);
        let c = cs[i];
        assert(t[0] == c);
        if c != '$' || i + 1 >= n || cs[i + 1] != '{' {
            assert(t.drop_first() =~= cs@.skip(i + 1));
            out.push(c);
            i += 1;
            assert(out@.push(c) =~= out@.push(c));
            continue;
        }
        assert(t[1] == '{');
        let ghost rest = t.skip(2);
        assert(rest =~= cs@.skip(i + 2));
        proof { crate::utils::lemma_name_len(rest); }
        let mut j: usize = i + 2;
        let mut name: Vec<char> = Vec::new();
        while j < n && cs[j] != '}'
            invariant
                n == cs@.len(),
                i + 2 <= j <= n,
                rest == cs@.skip(i + 2),
                name@ == rest.take(j - (i + 2)),
                name_len(rest) >= j - (i + 2),
                forall|k: int| i + 2 <= k < j ==> cs@[k] != '}',
            decreases n - j,
        {
            proof { crate::utils::lemma_name_len(rest); }
            assert(rest[j - (i + 2)] == cs@[j as int]);
            name.push(cs[j]);
            j += 1;
            assert(name@ =~= rest.take(j - (i + 2)));
        }
        proof {
            // the loop stopped at the first `}` (or the end): that is where the name ends
            if j < n {
                assert(rest[j - (i + 2)] == '}');
                if name_len(rest) > j - (i + 2) {
                    assert(rest[(j - (i + 2)) as int] != '}');
                }
            } else if name_len(rest) > j - (i + 2) {
                assert(false);
            }
        }
        assert(name_len(rest) == j - (i + 2));
        let next = if j < n { j + 1 } else { j };
        assert(rest.skip(if j < n { j - (i + 2) + 1 } else { j - (i + 2) }) =~= cs@.skip(next as int));
        if name.len() == 0 {
            let empty: Vec<char> = Vec::new();
            push_braced(&mut out, &empty);
            assert(empty@ =~= Seq::<char>::empty());
        } else {
            let name_str = string_from_chars(name.as_slice());
            match lookup_pair(vars, name_str.as_str()) {
                Some(v) => {
                    let vc = chars_of(v.as_str());
                    let ghost before = out@;
                    let mut k: usize = 0;
                    while k < vc.len()
                        invariant
                            k <= vc.len(),
                            out@ == before + vc@.take(k as int),
                        decreases vc.len() - k,
                    {
                        out.push(vc[k]);
                        k += 1;
                        assert(out@ =~= before + vc@.take(k as int));
                    }
                    assert(vc@.take(k as int) =~= vc@);
                },
                None => {
                    push_braced(&mut out, &name);
                    let ghost mb = missing@.map_values(|m: String| m@);
                    missing.push(name_str);
                    assert(missing@.map_values(|m: String| m@) =~= mb.push(name@));
                    assert(mb.push(name@) + substitute(cs@.skip(next as int), lookup).1 =~= mb + (seq![name@] + substitute(cs@.skip(next as int), lookup).1));
                },
            }
        }
        i = next;
    }
    (string_from_chars(out.as_slice()), missing)
}

/// The text after truncation: unchanged when it fits, `...` when at most three
/// characters are allowed, otherwise the first and last characters around `...`
/// (the right part gets the extra character when the split is uneven).
pub open spec fn truncated(t: Seq<char>, max_chars: nat) -> Seq<char> {
    if t.len() <= max_chars {
        t
    } else if max_chars <= 3 {
        seq!['.', '.', '.']
    } else {
        let available = max_chars - 3;
        let left = available / 2;
        let right = available - left;
        t.take(left) + seq!['.', '.', '.'] + t.skip(t.len() - right)
    }
}

/// Truncate `text` to at most `max_chars` characters by replacing its middle with `...`.
pub fn truncate_middle(text: &str, max_chars: usize) -> (res: String)
    ensures
        res@ == truncated(text@, max_chars as nat),
        res@.len() <= text@.len() || res@.len() == 3,
        res@.len() <= max_chars || max_chars < 3,
{
    let cs = chars_of(text);
    let count = cs.len();
    if count <= max_chars {
        return string_from_chars(cs.as_slice());
    }
    let mut out: Vec<char> = Vec::new();
    if max_chars <= 3 {
        out.push('.');
        out.push('.');
        out.push('.');
        assert(out@ =~= seq!['.', '.', '.']);
        return string_from_chars(out.as_slice());
    }
    let available = max_chars - 3;
    let left = available / 2;
    let right = available - left;
    let mut i: usize = 0;
    while i < left
        invariant
            left < count,
            count == cs@.len(),
            i <= left,
            out@ == cs@.take(i as int),
        decreases left - i,
    {
        out.push(cs[i]);
        i += 1;
        assert(out@ =~= cs@.take(i as int));
    }
    out.push('.');
    out.push('.');
    out.push('.');
    let ghost mid = out@;
    let start = count - right;
    let mut j: usize = start;
    while j < count
        invariant
            start <= j <= count,
            count == cs@.len(),
            out@ == mid + cs@.subrange(start as int, j as int),
        decreases count - j,
    {
        out.push(cs[j]);
        j += 1;
        assert(out@ =~= mid + cs@.subrange(start as int, j as int));
    }
    assert(out@ =~= cs@.take(left as int) + seq!['.', '.', '.'] + cs@.skip(start as int));
    string_from_chars(out.as_slice())
}

/// A path with a leading `~` (alone, or followed by `/` or `\`) has it replaced by the
/// home directory; any other path is unchanged.
pub open spec fn spec_expand_home(s: Seq<char>, home: Seq<char>) -> Seq<char> {
    if (s.len() == 1 && s[0] == '~') || (s.len() >= 2 && s[0] == '~' && (s[1] == '/' || s[1] == '\\')) {
        home + s.skip(1)
    } else {
        s
    }
}

/// See `spec_expand_home`.
pub fn expand_home(s: &str, home: &str) -> (res: String)
    ensures
        res@ == spec_expand_home(s@, home@),
{
    let cs = chars_of(s);
    let n = cs.len();
    let tilde = (n == 1 && cs[0] == '~') || (n >= 2 && cs[0] == '~' && (cs[1] == '/' || cs[1] == '\\'));
    if tilde {
        let mut out = chars_of(home);
        let mut i: usize = 1;
        while i < n
            invariant
                cs@ == s@,
                n == cs.len(),
                1 <= i <= n,
                out@ == home@ + s@.subrange(1, i as int),
            decreases n - i,
        {
            out.push(cs[i]);
            i += 1;
            assert(out@ =~= home@ + s@.subrange(1, i as int));
        }
        assert(s@.subrange(1, n as int) =~= s@.skip(1));
        string_from_chars(out.as_slice())
    } else {
        string_from_chars(cs.as_slice())
    }
}


/// Every value `lookup` gives is non-empty and holds no `$` and no `{`.
pub open spec fn plain_values(lookup: spec_fn(Seq<char>) -> Option<Seq<char>>) -> bool {
    forall|n: Seq<char>| #[trigger] lookup(n) is Some ==> plain_value(lookup(n)->0)
}

/// A non-empty value without `$` and `{`.
pub open spec fn plain_value(v: Seq<char>) -> bool {
    v.len() > 0 && forall|i: int| 0 <= i < v.len() ==> v[i] != '$' && v[i] != '{'
}

proof fn lemma_name_len_closed(name: Seq<char>, t: Seq<char>)
    requires
        forall|i: int| 0 <= i < name.len() ==> name[i] != '}',
    ensures
        name_len(name + seq!['}'] + t) == name.len(),
    decreases name.len(),
{
    let s = name + seq!['}'] + t;
    if name.len() == 0 {
        assert(s[0] == '}');
    } else {
        assert(s[0] == name[0]);
        assert(s.drop_first() =~= name.drop_first() + seq!['}'] + t);
        lemma_name_len_closed(name.drop_first(), t);
    }
}

proof fn lemma_substitute_plain_prefix(v: Seq<char>, t: Seq<char>, lookup: spec_fn(Seq<char>) -> Option<Seq<char>>)
    requires
        forall|i: int| 0 <= i < v.len() ==> v[i] != '$',
    ensures
        substitute(v + t, lookup) == (v + substitute(t, lookup).0, substitute(t, lookup).1),
    decreases v.len(),
{
    if v.len() == 0 {
        assert(v + t =~= t);
        assert(v + substitute(t, lookup).0 =~= substitute(t, lookup).0);
    } else {
        let s = v + t;
        assert(s[0] == v[0]);
        assert(s.drop_first() =~= v.drop_first() + t);
        lemma_substitute_plain_prefix(v.drop_first(), t, lookup);
        assert(seq![v[0]] + (v.drop_first() + substitute(t, lookup).0) =~= v + substitute(t, lookup).0);
    }
}

proof fn lemma_substitute_braced(name: Seq<char>, t: Seq<char>, lookup: spec_fn(Seq<char>) -> Option<Seq<char>>)
    requires
        forall|i: int| 0 <= i < name.len() ==> name[i] != '}',
        name.len() == 0 || lookup(name) is None,
    ensures
        substitute(braced(name) + t, lookup) == (
            braced(name) + substitute(t, lookup).0,
            (if name.len() == 0 { Seq::<Seq<char>>::empty() } else { seq![name] }) + substitute(t, lookup).1,
        ),
{
    let s = braced(name) + t;
    assert(s[0] == '$');
    assert(s[1] == '{');
    let rest = s.skip(2);
    assert(rest =~= name + seq!['}'] + t);
    lemma_name_len_closed(name, t);
    assert(rest.take(name.len() as int) =~= name);
    assert(rest.skip(name.len() + 1 as int) =~= t);
    let r = substitute(t, lookup);
    if name.len() == 0 {
        assert(braced(name) =~= braced(Seq::empty()));
        assert(Seq::<Seq<char>>::empty() + r.1 =~= r.1);
    }
}

/// What a non-empty text expands to never starts with `{` unless the text does.
proof fn lemma_substitute_first(s: Seq<char>, lookup: spec_fn(Seq<char>) -> Option<Seq<char>>)
    requires
        plain_values(lookup),
        s.len() > 0,
        s[0] != '{',
    ensures
        substitute(s, lookup).0.len() > 0,
        substitute(s, lookup).0[0] != '{',
{
    if s[0] != '$' || s.len() < 2 || s[1] != '{' {
    } else {
        let rest = s.skip(2);
        let n = name_len(rest);
        lemma_name_len(rest);
        let name = rest.take(n as int);
        if n != 0 {
            match lookup(name) {
                Some(v) => {
                    assert(plain_value(v));
                    assert(v.len() > 0 && v[0] != '{');
                },
                None => {},
            }
        }
    }
}

/// Expanding again what one expansion gave changes nothing, and reports the same
/// unresolved names, when every value is non-empty and holds no `$` and no `{`.
pub proof fn law_substitute_idempotent(s: Seq<char>, lookup: spec_fn(Seq<char>) -> Option<Seq<char>>)
    requires
        plain_values(lookup),
    ensures
        substitute(substitute(s, lookup).0, lookup) == substitute(s, lookup),
    decreases s.len(),
{
    if s.len() == 0 {
    } else if s[0] != '$' || s.len() < 2 || s[1] != '{' {
        let t = s.drop_first();
        let r = substitute(t, lookup);
        law_substitute_idempotent(t, lookup);
        let out = seq![s[0]] + r.0;
        assert(out[0] == s[0]);
        assert(out.drop_first() =~= r.0);
        if s[0] == '$' && s.len() >= 2 && r.0.len() > 0 {
            lemma_substitute_first(t, lookup);
            assert(out[1] == r.0[0]);
        }
    } else {
        let rest = s.skip(2);
        let n = name_len(rest);
        lemma_name_len(rest);
        let name = rest.take(n as int);
        let after = if n < rest.len() { rest.skip(n + 1 as int) } else { rest.skip(n as int) };
        let r = substitute(after, lookup);
        law_substitute_idempotent(after, lookup);
        assert forall|i: int| 0 <= i < name.len() implies name[i] != '}' by {
            assert(name[i] == rest[i]);
        }
        if n == 0 {
            lemma_substitute_braced(Seq::empty(), r.0, lookup);
        } else {
            match lookup(name) {
                Some(v) => {
                    assert(plain_value(v));
                    lemma_substitute_plain_prefix(v, r.0, lookup);
                },
                None => {
                    lemma_substitute_braced(name, r.0, lookup);
                },
            }
        }
    }
}

/// `expand_vars` is idempotent when every value is non-empty and holds no `$` and no
/// `{`: expanding its text again gives the same text and reports the same names.
pub proof fn law_expand_vars_idempotent(s: Seq<char>, vars: Seq<(Seq<char>, Seq<char>)>)
    requires
        forall|i: int| 0 <= i < vars.len() ==> (#[trigger] vars[i]).1.len() > 0 && forall|j: int|
            0 <= j < vars[i].1.len() ==> vars[i].1[j] != '$' && vars[i].1[j] != '{',
    ensures
        substitute(substitute(s, pairs_lookup(vars)).0, pairs_lookup(vars)) == substitute(s, pairs_lookup(vars)),
{
    let lookup = pairs_lookup(vars);
    assert forall|n: Seq<char>| #[trigger] lookup(n) is Some implies plain_value(lookup(n)->0) by {
        let f = first_index(vars, |kv: (Seq<char>, Seq<char>)| kv.0 == n);
        crate::order::lemma_first_index(vars, |kv: (Seq<char>, Seq<char>)| kv.0 == n);
        if let Some(k) = f {
            assert(vars[k as int] == vars[k as int]);
        }
    }
    law_substitute_idempotent(s, lookup);
}

} // verus!
