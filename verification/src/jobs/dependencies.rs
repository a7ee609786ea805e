//! Detect imports in submitted job source and decide which packages to install.
//!
//! The parser works line by line: comments are stripped, `from a.b import c`
//! contributes `a`, `import a.b as c, d` contributes `a` and `d`. Relative
//! imports and `__future__` are skipped. The result is sorted and free of
//! duplicates, as a `BTreeSet` would give it.

use vstd::prelude::*;

use crate::jobs::models::{DependencyReport, EntryPoint};
use crate::text::{
    chars_of, count_char, find_char, first_word, is_ascii_alnum, is_ascii_alnum_char,
    is_whitespace_char, lemma_seq_lt_total, lemma_seq_lt_transitive, lemma_trim_start_step,
    line_bounds, lines, seq_lt, split_bounds, split_on, str_eq, str_lt, string_of_range,
    string_views, strip_prefix, take_until, take_word, trim, trim_bounds, trim_start,
    eq_ignore_ascii_case, eq_ignore_case, join, join_strings, trim_str, is_blank, copy_strings,
    lemma_find_char_push, lemma_split_on_concat, lemma_split_on_nonempty, lemma_trim_cr, strip_cr, trim_end,
    };

verus! {

// ───────────────────────── specification ─────────────────────────

/// ASCII letters, digits and `_`.
pub open spec fn is_ident(c: char) -> bool {
    is_ascii_alnum(c) || c == '_'
}

/// Characters that `trim_matches` removes around a module path.
pub open spec fn is_junk(c: char) -> bool {
    !is_ident(c) && c != '.'
}

pub open spec fn trim_junk_start(s: Seq<char>) -> Seq<char>
    decreases s.len(),
{
    if s.len() > 0 && is_junk(s[0]) {
        trim_junk_start(s.drop_first())
    } else {
        s
    }
}

pub open spec fn trim_junk_end(s: Seq<char>) -> Seq<char>
    decreases s.len(),
{
    if s.len() > 0 && is_junk(s.last()) {
        trim_junk_end(s.drop_last())
    } else {
        s
    }
}

/// `s.trim_matches(|c| !is_ident_char(c) && c != '.')`.
pub open spec fn trim_junk(s: Seq<char>) -> Seq<char> {
    trim_junk_end(trim_junk_start(s))
}

pub open spec fn all_ident(s: Seq<char>) -> bool {
    forall|i: int| 0 <= i < s.len() ==> is_ident(#[trigger] s[i])
}

/// The top-level package of a dotted module path, when it is a valid name.
pub open spec fn top_level_of(dotted: Seq<char>) -> Option<Seq<char>> {
    let name = trim(take_until(dotted, '.'));
    if name.len() > 0 && all_ident(name) {
        Some(name)
    } else {
        None
    }
}

/// A line with a trailing `# comment` removed, unless the `#` sits inside an
/// open quote.
pub open spec fn comment_stripped(line: Seq<char>) -> Seq<char> {
    match find_char(line, '#') {
        Some(i) => {
            let before = line.take(i);
            if count_char(before, '\'') % 2 == 0 && count_char(before, '"') % 2 == 0 {
                before
            } else {
                line
            }
        },
        None => line,
    }
}

pub open spec fn kw_from() -> Seq<char> {
    seq!['f', 'r', 'o', 'm', ' ']
}

pub open spec fn kw_import() -> Seq<char> {
    seq!['i', 'm', 'p', 'o', 'r', 't', ' ']
}

pub open spec fn future_module() -> Seq<char> {
    seq!['_', '_', 'f', 'u', 't', 'u', 'r', 'e', '_', '_']
}

/// The import name a module token contributes, if any.
pub open spec fn module_name(word: Seq<char>) -> Option<Seq<char>> {
    match top_level_of(trim_junk(word)) {
        Some(t) => if t != future_module() {
            Some(t)
        } else {
            None
        },
        None => None,
    }
}

/// The import names one source line contributes.
pub open spec fn line_names(raw: Seq<char>) -> Set<Seq<char>> {
    let line = trim(comment_stripped(raw));
    match strip_prefix(line, kw_from()) {
        Some(r) => {
            let rest = trim(r);
            if rest.len() > 0 && rest[0] == '.' {
                Set::empty()
            } else {
                match module_name(first_word(rest)) {
                    Some(t) => set![t],
                    None => Set::empty(),
                }
            }
        },
        None => match strip_prefix(line, kw_import()) {
            Some(rest) => {
                let parts = split_on(rest, ',');
                Set::new(
                    |t: Seq<char>|
                        exists|m: int|
                            0 <= m < parts.len() && module_name(first_word(trim(#[trigger] parts[m])))
                                == Some(t),
                )
            },
            None => Set::empty(),
        },
    }
}

/// The names contributed by the first `k` lines of `src`.
pub open spec fn names_upto(src: Seq<char>, k: int) -> Set<Seq<char>> {
    Set::new(
        |t: Seq<char>| exists|j: int| 0 <= j < k && #[trigger] line_names(lines(src)[j]).contains(t),
    )
}

/// Every top-level import name of a Python source.
pub open spec fn imports_of(src: Seq<char>) -> Set<Seq<char>> {
    names_upto(src, lines(src).len() as int)
}

/// A trailing carriage return does not change what a line imports.
proof fn lemma_line_names_cr(y: Seq<char>)
    ensures
        line_names(y.push('\r')) == line_names(y),
{
    let x = y.push('\r');
    lemma_find_char_push(y, '\r', '#');
    match find_char(y, '#') {
        Some(i) => {
            assert(x.take(i) =~= y.take(i));
            lemma_trim_cr(y);
        },
        None => {
            lemma_trim_cr(y);
        },
    }
    assert(trim(comment_stripped(x)) == trim(comment_stripped(y)));
}

/// A line loses no import name to `strip_cr`.
proof fn lemma_line_names_strip_cr(x: Seq<char>)
    ensures
        line_names(strip_cr(x)) == line_names(x),
{
    if x.len() > 0 && x.last() == '\r' {
        assert(x.drop_last().push('\r') =~= x);
        lemma_line_names_cr(x.drop_last());
    }
}

/// An empty line imports nothing.
proof fn lemma_line_names_empty()
    ensures
        line_names(Seq::<char>::empty()) == Set::<Seq<char>>::empty(),
{
    let e = Seq::<char>::empty();
    assert(find_char(e, '#') is None);
    assert(trim_start(e) == e);
    assert(trim_end(e) == e);
    assert(strip_prefix(e, kw_from()) is None);
    assert(strip_prefix(e, kw_import()) is None);
}

/// The imports of two sources joined by a newline are those of the first
/// and those of the second.
pub proof fn lemma_imports_concat(a: Seq<char>, b: Seq<char>)
    ensures
        imports_of(a + seq!['\n'] + b) == imports_of(a).union(imports_of(b)),
{
    let ab = a + seq!['\n'] + b;
    lemma_split_on_concat(a, b, '\n');
    lemma_split_on_nonempty(a, '\n');
    lemma_split_on_nonempty(b, '\n');
    lemma_line_names_empty();
    let p = split_on(a, '\n');
    let q = split_on(b, '\n');
    let n = p.len() as int;
    let la = lines(a);
    let lb = lines(b);
    let lab = lines(ab);
    assert(split_on(ab, '\n') == p + q);
    assert(lab.len() == n + lb.len());
    assert forall|k: int| 0 <= k < lb.len() implies lab[n + k] == lb[k] by {
        assert((p + q)[n + k] == q[k]);
    }
    assert forall|i: int| 0 <= i < n implies line_names(#[trigger] lab[i]) == line_names(p[i]) by {
        assert((p + q)[i] == p[i]);
        lemma_line_names_strip_cr(p[i]);
    }
    assert forall|i: int| 0 <= i < la.len() implies line_names(#[trigger] la[i]) == line_names(p[i]) by {
        lemma_line_names_strip_cr(p[i]);
    }
    assert(la.len() == n || (la.len() == n - 1 && p[n - 1].len() == 0));
    assert forall|t: Seq<char>| imports_of(ab).contains(t) <==> imports_of(a).union(imports_of(b)).contains(t) by {
        if imports_of(ab).contains(t) {
            let j = choose|j: int| 0 <= j < lab.len() && #[trigger] line_names(lab[j]).contains(t);
            if j < n {
                assert(line_names(lab[j]) == line_names(p[j]));
                if j < la.len() {
                    assert(line_names(la[j]) == line_names(p[j]));
                    assert(imports_of(a).contains(t));
                } else {
                    assert(p[j].len() == 0);
                    assert(p[j] =~= Seq::<char>::empty());
                }
            } else {
                assert(lab[n + (j - n)] == lb[j - n]);
                assert(line_names(lb[j - n]).contains(t));
                assert(imports_of(b).contains(t));
            }
        }
        if imports_of(a).contains(t) {
            let j = choose|j: int| 0 <= j < la.len() && #[trigger] line_names(la[j]).contains(t);
            assert(line_names(la[j]) == line_names(p[j]));
            assert(line_names(lab[j]) == line_names(p[j]));
            assert(line_names(lab[j]).contains(t));
        }
        if imports_of(b).contains(t) {
            let k = choose|k: int| 0 <= k < lb.len() && #[trigger] line_names(lb[k]).contains(t);
            assert(lab[n + k] == lb[k]);
            assert(line_names(lab[n + k]).contains(t));
        }
    }
    assert(imports_of(ab) =~= imports_of(a).union(imports_of(b)));
}

/// Strictly increasing in the order of `String`.
pub open spec fn sorted_strict(s: Seq<Seq<char>>) -> bool {
    forall|i: int, j: int| 0 <= i < j < s.len() ==> seq_lt(#[trigger] s[i], #[trigger] s[j])
}

// ───────────────────────── character predicates ─────────────────────────

pub fn is_ident_char(c: char) -> (b: bool)
    ensures
        b == is_ident(c),
{
    is_ascii_alnum_char(c) || c == '_'
}

fn is_junk_char(c: char) -> (b: bool)
    ensures
        b == is_junk(c),
{
    !is_ident_char(c) && c != '.'
}

// ───────────────────────── bounds helpers ─────────────────────────

/// The bounds of `trim_junk(v[lo..hi])`.
fn trim_junk_bounds(v: &Vec<char>, lo: usize, hi: usize) -> (r: (usize, usize))
    requires
        lo <= hi <= v.len(),
    ensures
        lo <= r.0 <= r.1 <= hi,
        v@.subrange(r.0 as int, r.1 as int) == trim_junk(v@.subrange(lo as int, hi as int)),
{
    let mut a = lo;
    while a < hi && is_junk_char(v[a])
        invariant
            lo <= a <= hi <= v.len(),
            trim_junk_start(v@.subrange(lo as int, hi as int)) == trim_junk_start(
                v@.subrange(a as int, hi as int),
            ),
        decreases hi - a,
    {
        assert(v@.subrange(a as int, hi as int).drop_first() =~= v@.subrange(a + 1, hi as int));
        a = a + 1;
    }
    assert(trim_junk_start(v@.subrange(a as int, hi as int)) == v@.subrange(a as int, hi as int));
    let mut b = hi;
    while b > a && is_junk_char(v[b - 1])
        invariant
            lo <= a <= b <= hi <= v.len(),
            trim_junk_end(v@.subrange(a as int, hi as int)) == trim_junk_end(
                v@.subrange(a as int, b as int),
            ),
        decreases b - a,
    {
        assert(v@.subrange(a as int, b as int).drop_last() =~= v@.subrange(a as int, b - 1));
        b = b - 1;
    }
    assert(trim_junk_end(v@.subrange(a as int, b as int)) == v@.subrange(a as int, b as int));
    (a, b)
}

proof fn lemma_take_until_step(s: Seq<char>, i: int, hi: int, c: char)
    requires
        0 <= i < hi <= s.len(),
        s[i] != c,
    ensures
        take_until(s.subrange(i, hi), c) == seq![s[i]] + take_until(s.subrange(i + 1, hi), c),
{
    assert(s.subrange(i, hi).drop_first() =~= s.subrange(i + 1, hi));
}

/// The end of `take_until(v[lo..hi], c)`.
fn take_until_end(v: &Vec<char>, lo: usize, hi: usize, c: char) -> (e: usize)
    requires
        lo <= hi <= v.len(),
    ensures
        lo <= e <= hi,
        v@.subrange(lo as int, e as int) == take_until(v@.subrange(lo as int, hi as int), c),
{
    let mut e = lo;
    while e < hi && v[e] != c
        invariant
            lo <= e <= hi <= v.len(),
            take_until(v@.subrange(lo as int, hi as int), c) == v@.subrange(lo as int, e as int)
                + take_until(v@.subrange(e as int, hi as int), c),
        decreases hi - e,
    {
        proof {
            lemma_take_until_step(v@, e as int, hi as int, c);
            assert(v@.subrange(lo as int, e + 1) =~= v@.subrange(lo as int, e as int) + seq![
                v@[e as int],
            ]);
        }
        e = e + 1;
    }
    assert(take_until(v@.subrange(e as int, hi as int), c) =~= Seq::<char>::empty());
    assert(v@.subrange(lo as int, e as int) + Seq::<char>::empty() =~= v@.subrange(
        lo as int,
        e as int,
    ));
    e
}

/// The bounds of `first_word(v[lo..hi])`.
fn word_bounds(v: &Vec<char>, lo: usize, hi: usize) -> (r: (usize, usize))
    requires
        lo <= hi <= v.len(),
    ensures
        lo <= r.0 <= r.1 <= hi,
        v@.subrange(r.0 as int, r.1 as int) == first_word(v@.subrange(lo as int, hi as int)),
{
    let mut a = lo;
    while a < hi && is_whitespace_char(v[a])
        invariant
            lo <= a <= hi <= v.len(),
            trim_start(v@.subrange(lo as int, hi as int)) == trim_start(
                v@.subrange(a as int, hi as int),
            ),
        decreases hi - a,
    {
        proof {
            lemma_trim_start_step(v@, a as int, hi as int);
        }
        a = a + 1;
    }
    assert(trim_start(v@.subrange(a as int, hi as int)) == v@.subrange(a as int, hi as int));
    let mut e = a;
    while e < hi && !is_whitespace_char(v[e])
        invariant
            lo <= a <= e <= hi <= v.len(),
            take_word(v@.subrange(a as int, hi as int)) == v@.subrange(a as int, e as int)
                + take_word(v@.subrange(e as int, hi as int)),
        decreases hi - e,
    {
        proof {
            assert(v@.subrange(e as int, hi as int).drop_first() =~= v@.subrange(e + 1, hi as int));
            assert(v@.subrange(a as int, e + 1) =~= v@.subrange(a as int, e as int) + seq![
                v@[e as int],
            ]);
        }
        e = e + 1;
    }
    assert(take_word(v@.subrange(e as int, hi as int)) =~= Seq::<char>::empty());
    assert(v@.subrange(a as int, e as int) + Seq::<char>::empty() =~= v@.subrange(
        a as int,
        e as int,
    ));
    (a, e)
}

/// Whether `v[lo..hi]` starts with `p`.
fn has_prefix(v: &Vec<char>, lo: usize, hi: usize, p: &Vec<char>) -> (b: bool)
    requires
        lo <= hi <= v.len(),
    ensures
        b == (strip_prefix(v@.subrange(lo as int, hi as int), p@) is Some),
{
    if p.len() > hi - lo {
        return false;
    }
    let mut i: usize = 0;
    while i < p.len()
        invariant
            i <= p@.len() <= hi - lo,
            lo <= hi <= v.len(),
            forall|j: int| 0 <= j < i ==> v@[lo + j] == p@[j],
        decreases p@.len() - i,
    {
        if v[lo + i] != p[i] {
            assert(v@.subrange(lo as int, hi as int).take(p@.len() as int)[i as int] != p@[i as int]);
            return false;
        }
        i = i + 1;
    }
    assert(v@.subrange(lo as int, hi as int).take(p@.len() as int) =~= p@);
    true
}

/// Whether every character of `v[lo..hi]` is an identifier character.
fn all_ident_range(v: &Vec<char>, lo: usize, hi: usize) -> (b: bool)
    requires
        lo <= hi <= v.len(),
    ensures
        b == all_ident(v@.subrange(lo as int, hi as int)),
{
    let mut i = lo;
    while i < hi
        invariant
            lo <= i <= hi <= v.len(),
            forall|j: int| lo <= j < i ==> is_ident(v@[j]),
        decreases hi - i,
    {
        if !is_ident_char(v[i]) {
            assert(v@.subrange(lo as int, hi as int)[i - lo] == v@[i as int]);
            return false;
        }
        i = i + 1;
    }
    assert forall|j: int| 0 <= j < hi - lo implies is_ident(
        #[trigger] v@.subrange(lo as int, hi as int)[j],
    ) by {
        assert(v@.subrange(lo as int, hi as int)[j] == v@[lo + j]);
    }
    true
}

fn chars_from() -> (v: Vec<char>)
    ensures
        v@ == kw_from(),
{
    let mut v: Vec<char> = Vec::new();
    v.push('f');
    v.push('r');
    v.push('o');
    v.push('m');
    v.push(' ');
    assert(v@ =~= kw_from());
    v
}

fn chars_import() -> (v: Vec<char>)
    ensures
        v@ == kw_import(),
{
    let mut v: Vec<char> = Vec::new();
    v.push('i');
    v.push('m');
    v.push('p');
    v.push('o');
    v.push('r');
    v.push('t');
    v.push(' ');
    assert(v@ =~= kw_import());
    v
}

fn chars_future() -> (v: Vec<char>)
    ensures
        v@ == future_module(),
{
    let mut v: Vec<char> = Vec::new();
    v.push('_');
    v.push('_');
    v.push('f');
    v.push('u');
    v.push('t');
    v.push('u');
    v.push('r');
    v.push('e');
    v.push('_');
    v.push('_');
    assert(v@ =~= future_module());
    v
}

/// Whether `v[lo..hi]` equals `w`.
fn range_equals(v: &Vec<char>, lo: usize, hi: usize, w: &Vec<char>) -> (b: bool)
    requires
        lo <= hi <= v.len(),
    ensures
        b == (v@.subrange(lo as int, hi as int) == w@),
{
    if hi - lo != w.len() {
        return false;
    }
    let mut i: usize = 0;
    while i < w.len()
        invariant
            i <= w@.len() == hi - lo,
            lo <= hi <= v.len(),
            forall|j: int| 0 <= j < i ==> v@[lo + j] == w@[j],
        decreases w@.len() - i,
    {
        if v[lo + i] != w[i] {
            assert(v@.subrange(lo as int, hi as int)[i as int] != w@[i as int]);
            return false;
        }
        i = i + 1;
    }
    assert(v@.subrange(lo as int, hi as int) =~= w@);
    true
}

/// The import name that the token `v[lo..hi]` contributes, if any.
fn module_name_of(v: &Vec<char>, lo: usize, hi: usize, future: &Vec<char>) -> (r: Option<String>)
    requires
        lo <= hi <= v.len(),
        future@ == future_module(),
    ensures
        match r {
            Some(s) => module_name(v@.subrange(lo as int, hi as int)) == Some(s@),
            None => module_name(v@.subrange(lo as int, hi as int)) is None,
        },
{
    let (j0, j1) = trim_junk_bounds(v, lo, hi);
    let e = take_until_end(v, j0, j1, '.');
    let (t0, t1) = trim_bounds(v, j0, e);
    if t0 < t1 && all_ident_range(v, t0, t1) {
        if range_equals(v, t0, t1, future) {
            None
        } else {
            Some(string_of_range(v, t0, t1))
        }
    } else {
        None
    }
}

// ───────────────────────── sorted name set ─────────────────────────

/// Adds `name` to a strictly sorted list of names, keeping it strictly sorted.
pub fn insert_sorted(found: &mut Vec<String>, name: String)
    requires
        sorted_strict(string_views(old(found)@)),
    ensures
        sorted_strict(string_views(final(found)@)),
        string_views(final(found)@).to_set() == string_views(old(found)@).to_set().insert(name@),
{
    let ghost before = string_views(found@);
    let mut p: usize = 0;
    while p < found.len() && str_lt(found[p].as_str(), name.as_str())
        invariant
            p <= found@.len(),
            before == string_views(found@),
            forall|j: int| 0 <= j < p ==> seq_lt(#[trigger] found@[j]@, name@),
        decreases found@.len() - p,
    {
        p = p + 1;
    }
    if p < found.len() && str_eq(found[p].as_str(), name.as_str()) {
        assert(before.to_set().insert(name@) =~= before.to_set()) by {
            assert(before[p as int] == name@);
            assert(before.contains(name@));
        }
        return;
    }
    proof {
        if p < found@.len() {
            lemma_seq_lt_total(found@[p as int]@, name@);
        }
    }
    found.insert(p, name);
    let ghost after = string_views(found@);
    assert(after =~= before.insert(p as int, name@));
    assert forall|i: int, j: int| 0 <= i < j < after.len() implies seq_lt(
        #[trigger] after[i],
        #[trigger] after[j],
    ) by {
        if j < p {
        } else if j == p {
        } else if i < p {
            assert(seq_lt(after[i], name@));
            assert(seq_lt(name@, before[p as int]));
            if j - 1 > p {
                lemma_seq_lt_transitive(name@, before[p as int], before[j - 1]);
            }
            lemma_seq_lt_transitive(after[i], name@, after[j]);
        } else if i == p {
            if j - 1 > p {
                lemma_seq_lt_transitive(name@, before[p as int], before[j - 1]);
            }
        } else {
        }
    }
    assert(after.to_set() =~= before.to_set().insert(name@)) by {
        assert forall|x: Seq<char>| after.to_set().contains(x) implies before.to_set().insert(
            name@,
        ).contains(x) by {
            let k = choose|k: int| 0 <= k < after.len() && after[k] == x;
            if k < p {
                assert(before[k] == x);
            } else if k > p {
                assert(before[k - 1] == x);
            }
        }
        assert forall|x: Seq<char>| before.to_set().insert(name@).contains(x) implies after.to_set().contains(
            x,
        ) by {
            if x == name@ {
                assert(after[p as int] == x);
            } else {
                let k = choose|k: int| 0 <= k < before.len() && before[k] == x;
                if k < p {
                    assert(after[k] == x);
                } else {
                    assert(after[k + 1] == x);
                }
            }
        }
    }
}

// ───────────────────────── line and source parsing ─────────────────────────

/// The end of `comment_stripped(v[lo..hi])`.
fn comment_end(v: &Vec<char>, lo: usize, hi: usize) -> (e: usize)
    requires
        lo <= hi <= v.len(),
    ensures
        lo <= e <= hi,
        v@.subrange(lo as int, e as int) == comment_stripped(v@.subrange(lo as int, hi as int)),
{
    let ghost line = v@.subrange(lo as int, hi as int);
    let mut i = lo;
    let mut singles: usize = 0;
    let mut doubles: usize = 0;
    assert(line.skip(0) =~= line);
    assert(line.take(0) =~= Seq::<char>::empty());
    while i < hi && v[i] != '#'
        invariant
            lo <= i <= hi <= v.len(),
            line == v@.subrange(lo as int, hi as int),
            singles == count_char(line.take(i - lo), '\''),
            doubles == count_char(line.take(i - lo), '"'),
            singles <= i - lo,
            doubles <= i - lo,
            find_char(line, '#') == match find_char(line.skip(i - lo), '#') {
                Some(k) => Some(k + (i - lo)),
                None => None,
            },
        decreases hi - i,
    {
        assert(line.take(i - lo + 1).drop_last() =~= line.take(i - lo));
        assert(line.skip(i - lo).drop_first() =~= line.skip(i - lo + 1));
        if v[i] == '\'' {
            singles = singles + 1;
        }
        if v[i] == '"' {
            doubles = doubles + 1;
        }
        i = i + 1;
    }
    if i == hi {
        assert(line.skip(i - lo).len() == 0);
        return hi;
    }
    assert(line.take(i - lo) =~= v@.subrange(lo as int, i as int));
    if singles % 2 == 0 && doubles % 2 == 0 {
        i
    } else {
        hi
    }
}

/// Adds the names of the line `v[lo..hi]` to `found`.
fn collect_line_names(
    v: &Vec<char>,
    lo: usize,
    hi: usize,
    found: &mut Vec<String>,
    kw_f: &Vec<char>,
    kw_i: &Vec<char>,
    future: &Vec<char>,
)
    requires
        lo <= hi <= v.len(),
        sorted_strict(string_views(old(found)@)),
        kw_f@ == kw_from(),
        kw_i@ == kw_import(),
        future@ == future_module(),
    ensures
        sorted_strict(string_views(final(found)@)),
        string_views(final(found)@).to_set() == string_views(old(found)@).to_set().union(
            line_names(v@.subrange(lo as int, hi as int)),
        ),
{
    let ghost raw = v@.subrange(lo as int, hi as int);
    let ghost start = string_views(found@).to_set();
    let e = comment_end(v, lo, hi);
    let (c, d) = trim_bounds(v, lo, e);
    let ghost line = v@.subrange(c as int, d as int);
    assert(line == trim(comment_stripped(raw)));
    if has_prefix(v, c, d, kw_f) {
        assert(line.skip(5) =~= v@.subrange(c + 5, d as int));
        let (r0, r1) = trim_bounds(v, c + 5, d);
        if r0 < r1 && v[r0] == '.' {
            assert(v@.subrange(r0 as int, r1 as int)[0] == '.');
            assert(line_names(raw) =~= Set::<Seq<char>>::empty());
            assert(start.union(Set::<Seq<char>>::empty()) =~= start);
            return;
        }
        let (w0, w1) = word_bounds(v, r0, r1);
        match module_name_of(v, w0, w1, future) {
            Some(name) => {
                assert(line_names(raw) =~= set![name@]);
                insert_sorted(found, name);
                assert(start.insert(name@) =~= start.union(set![name@]));
            },
            None => {
                assert(line_names(raw) =~= Set::<Seq<char>>::empty());
                assert(start.union(Set::<Seq<char>>::empty()) =~= start);
            },
        }
        return;
    }
    if !has_prefix(v, c, d, kw_i) {
        assert(line_names(raw) =~= Set::<Seq<char>>::empty());
        assert(start.union(Set::<Seq<char>>::empty()) =~= start);
        return;
    }
    assert(line.skip(7) =~= v@.subrange(c + 7, d as int));
    let ghost rest = v@.subrange(c + 7, d as int);
    let parts = split_bounds(v, c + 7, d, ',');
    let ghost pieces = split_on(rest, ',');
    let mut m: usize = 0;
    while m < parts.len()
        invariant
            m <= parts@.len() == pieces.len(),
            lo <= hi <= v.len(),
            pieces == split_on(v@.subrange(c + 7, d as int), ','),
            future@ == future_module(),
            forall|k: int|
                0 <= k < parts@.len() ==> {
                    &&& (#[trigger] parts@[k]).0 <= parts@[k].1 <= v@.len()
                    &&& v@.subrange(parts@[k].0 as int, parts@[k].1 as int) == pieces[k]
                },
            sorted_strict(string_views(found@)),
            string_views(found@).to_set() == start.union(
                Set::new(
                    |t: Seq<char>|
                        exists|q: int|
                            0 <= q < m && module_name(first_word(trim(#[trigger] pieces[q])))
                                == Some(t),
                ),
            ),
        decreases parts@.len() - m,
    {
        let part = parts[m];
        let (p0, p1) = trim_bounds(v, part.0, part.1);
        let (w0, w1) = word_bounds(v, p0, p1);
        let ghost prev = Set::new(
            |t: Seq<char>|
                exists|q: int|
                    0 <= q < m && module_name(first_word(trim(#[trigger] pieces[q]))) == Some(t),
        );
        let ghost next = Set::new(
            |t: Seq<char>|
                exists|q: int|
                    0 <= q < m + 1 && module_name(first_word(trim(#[trigger] pieces[q]))) == Some(t),
        );
        match module_name_of(v, w0, w1, future) {
            Some(name) => {
                assert(next =~= prev.insert(name@)) by {
                    assert forall|t: Seq<char>| next.contains(t) implies prev.insert(
                        name@,
                    ).contains(t) by {
                        let q = choose|q: int|
                            0 <= q < m + 1 && module_name(first_word(trim(#[trigger] pieces[q])))
                                == Some(t);
                        if q < m {
                            assert(prev.contains(t));
                        }
                    }
                    assert forall|t: Seq<char>| prev.insert(name@).contains(t) implies next.contains(
                        t,
                    ) by {
                        if t == name@ {
                            assert(module_name(first_word(trim(pieces[m as int]))) == Some(t));
                        } else {
                            let q = choose|q: int|
                                0 <= q < m && module_name(first_word(trim(#[trigger] pieces[q])))
                                    == Some(t);
                            assert(module_name(first_word(trim(pieces[q]))) == Some(t));
                        }
                    }
                }
                insert_sorted(found, name);
                assert(start.union(prev).insert(name@) =~= start.union(next));
            },
            None => {
                assert(next =~= prev) by {
                    assert forall|t: Seq<char>| next.contains(t) implies prev.contains(t) by {
                        let q = choose|q: int|
                            0 <= q < m + 1 && module_name(first_word(trim(#[trigger] pieces[q])))
                                == Some(t);
                        assert(q < m);
                    }
                    assert forall|t: Seq<char>| prev.contains(t) implies next.contains(t) by {
                        let q = choose|q: int|
                            0 <= q < m && module_name(first_word(trim(#[trigger] pieces[q])))
                                == Some(t);
                        assert(module_name(first_word(trim(pieces[q]))) == Some(t));
                    }
                }
            },
        }
        m = m + 1;
    }
    assert(line_names(raw) =~= Set::new(
        |t: Seq<char>|
            exists|q: int|
                0 <= q < pieces.len() && module_name(first_word(trim(#[trigger] pieces[q])))
                    == Some(t),
    ));
}

/// Extract top-level module names from Python source.
///
/// Handles `import a`, `import a.b as c`, `import a, b`, and `from a.b import c`.
/// Skips relative imports (`from .`) and `__future__`.
pub fn parse_imports(source: &str) -> (r: Vec<String>)
    ensures
        sorted_strict(string_views(r@)),
        string_views(r@).to_set() == imports_of(source@),
{
    let v = chars_of(source);
    let bounds = line_bounds(&v);
    let kw_f = chars_from();
    let kw_i = chars_import();
    let future = chars_future();
    let mut found: Vec<String> = Vec::new();
    assert(string_views(found@).to_set() =~= names_upto(source@, 0));
    let mut k: usize = 0;
    while k < bounds.len()
        invariant
            k <= bounds@.len() == lines(v@).len(),
            v@ == source@,
            kw_f@ == kw_from(),
            kw_i@ == kw_import(),
            future@ == future_module(),
            forall|j: int|
                0 <= j < bounds@.len() ==> {
                    &&& (#[trigger] bounds@[j]).0 <= bounds@[j].1 <= v@.len()
                    &&& v@.subrange(bounds@[j].0 as int, bounds@[j].1 as int) == lines(v@)[j]
                },
            sorted_strict(string_views(found@)),
            string_views(found@).to_set() == names_upto(source@, k as int),
        decreases bounds@.len() - k,
    {
        let b = bounds[k];
        collect_line_names(&v, b.0, b.1, &mut found, &kw_f, &kw_i, &future);
        assert(names_upto(source@, k as int).union(line_names(lines(source@)[k as int]))
            =~= names_upto(source@, k + 1)) by {
            assert forall|t: Seq<char>|
                names_upto(source@, k + 1).contains(t) implies names_upto(
                source@,
                k as int,
            ).union(line_names(lines(source@)[k as int])).contains(t) by {
                let j = choose|j: int|
                    0 <= j < k + 1 && #[trigger] line_names(lines(source@)[j]).contains(t);
                if j < k {
                    assert(names_upto(source@, k as int).contains(t));
                }
            }
        }
        k = k + 1;
    }
    found
}


// ───────────────────────── public parsing helpers ─────────────────────────

/// `line` with a trailing comment removed (see `comment_stripped`).
pub fn strip_comment(line: &str) -> (r: &str)
    ensures
        r@ == comment_stripped(line@),
{
    let v = chars_of(line);
    let e = comment_end(&v, 0, v.len());
    assert(v@.subrange(0, v@.len() as int) =~= v@);
    line.substring_char(0, e)
}

/// The top-level package of a dotted module path (`a` for `a.b.c`).
pub fn top_level(dotted: &str) -> (r: Option<&str>)
    ensures
        match r {
            Some(t) => top_level_of(dotted@) == Some(t@),
            None => top_level_of(dotted@) is None,
        },
{
    let v = chars_of(dotted);
    assert(v@.subrange(0, v@.len() as int) =~= v@);
    let e = take_until_end(&v, 0, v.len(), '.');
    let (t0, t1) = trim_bounds(&v, 0, e);
    if t0 < t1 && all_ident_range(&v, t0, t1) {
        Some(dotted.substring_char(t0, t1))
    } else {
        None
    }
}

/// The source text a job carries, for entry points that hold Python code.
pub fn source_from_spec(entry: &EntryPoint) -> (r: Option<&str>)
    ensures
        match entry {
            EntryPoint::PythonFunction { body } => r is Some && r->0@ == body@,
            EntryPoint::PythonScript { script } => r is Some && r->0@ == script@,
            _ => r is None,
        },
{
    match entry {
        EntryPoint::PythonFunction { body } => Some(body.as_str()),
        EntryPoint::PythonScript { script } => Some(script.as_str()),
        EntryPoint::PythonModule { .. } | EntryPoint::Example { .. }
        | EntryPoint::MpiExecutable { .. } => None,
    }
}

// ───────────────────────── package names ─────────────────────────

/// The PyPI package that provides a commonly imported module.
pub open spec fn pip_name(s: Seq<char>) -> Seq<char> {
    if s == "cv2"@ {
        "opencv-python"@
    } else if s == "PIL"@ {
        "Pillow"@
    } else if s == "sklearn"@ {
        "scikit-learn"@
    } else if s == "bs4"@ {
        "beautifulsoup4"@
    } else if s == "yaml"@ {
        "PyYAML"@
    } else if s == "Crypto"@ {
        "pycryptodome"@
    } else if s == "skimage"@ {
        "scikit-image"@
    } else if s == "dateutil"@ {
        "python-dateutil"@
    } else if s == "dotenv"@ {
        "python-dotenv"@
    } else if s == "OpenSSL"@ {
        "pyOpenSSL"@
    } else if s == "win32api"@ || s == "win32com"@ || s == "win32gui"@ || s == "pythoncom"@ {
        "pywin32"@
    } else {
        s
    }
}

/// Map common import names to their PyPI package names.
pub fn import_to_pip_name(import_name: &str) -> (r: &str)
    ensures
        r@ == pip_name(import_name@),
{
    if str_eq(import_name, "cv2") {
        "opencv-python"
    } else if str_eq(import_name, "PIL") {
        "Pillow"
    } else if str_eq(import_name, "sklearn") {
        "scikit-learn"
    } else if str_eq(import_name, "bs4") {
        "beautifulsoup4"
    } else if str_eq(import_name, "yaml") {
        "PyYAML"
    } else if str_eq(import_name, "Crypto") {
        "pycryptodome"
    } else if str_eq(import_name, "skimage") {
        "scikit-image"
    } else if str_eq(import_name, "dateutil") {
        "python-dateutil"
    } else if str_eq(import_name, "dotenv") {
        "python-dotenv"
    } else if str_eq(import_name, "OpenSSL") {
        "pyOpenSSL"
    } else if str_eq(import_name, "win32api") || str_eq(import_name, "win32com") || str_eq(
        import_name,
        "win32gui",
    ) || str_eq(import_name, "pythoncom") {
        "pywin32"
    } else {
        import_name
    }
}

/// The package table: each module that is installed under another name maps
/// to that package, and every other module name is its own package.
pub proof fn lemma_pip_names(s: Seq<char>)
    ensures
        pip_name("cv2"@) == "opencv-python"@,
        pip_name("PIL"@) == "Pillow"@,
        pip_name("sklearn"@) == "scikit-learn"@,
        pip_name("bs4"@) == "beautifulsoup4"@,
        pip_name("yaml"@) == "PyYAML"@,
        pip_name("Crypto"@) == "pycryptodome"@,
        pip_name("skimage"@) == "scikit-image"@,
        pip_name("dateutil"@) == "python-dateutil"@,
        pip_name("dotenv"@) == "python-dotenv"@,
        pip_name("OpenSSL"@) == "pyOpenSSL"@,
        pip_name("win32api"@) == "pywin32"@,
        pip_name("win32com"@) == "pywin32"@,
        pip_name("win32gui"@) == "pywin32"@,
        pip_name("pythoncom"@) == "pywin32"@,
        (s != "cv2"@ && s != "PIL"@ && s != "sklearn"@ && s != "bs4"@ && s != "yaml"@
            && s != "Crypto"@ && s != "skimage"@ && s != "dateutil"@ && s != "dotenv"@
            && s != "OpenSSL"@ && s != "win32api"@ && s != "win32com"@ && s != "win32gui"@
            && s != "pythoncom"@) ==> pip_name(s) == s,
{
    reveal_strlit("cv2");
    reveal_strlit("PIL");
    reveal_strlit("sklearn");
    reveal_strlit("bs4");
    reveal_strlit("yaml");
    reveal_strlit("Crypto");
    reveal_strlit("skimage");
    reveal_strlit("dateutil");
    reveal_strlit("dotenv");
    reveal_strlit("OpenSSL");
    reveal_strlit("win32api");
    reveal_strlit("win32com");
    reveal_strlit("win32gui");
    reveal_strlit("pythoncom");
    assert("cv2"@.len() == 3 && "cv2"@[0] == 'c');
    assert("PIL"@.len() == 3 && "PIL"@[0] == 'P');
    assert("sklearn"@.len() == 7 && "sklearn"@[0] == 's' && "sklearn"@[2] == 'l');
    assert("bs4"@.len() == 3 && "bs4"@[0] == 'b');
    assert("yaml"@.len() == 4 && "yaml"@[0] == 'y');
    assert("Crypto"@.len() == 6 && "Crypto"@[0] == 'C');
    assert("skimage"@.len() == 7 && "skimage"@[0] == 's' && "skimage"@[2] == 'i');
    assert("dateutil"@.len() == 8 && "dateutil"@[0] == 'd');
    assert("dotenv"@.len() == 6 && "dotenv"@[0] == 'd');
    assert("OpenSSL"@.len() == 7 && "OpenSSL"@[0] == 'O');
    assert("win32api"@.len() == 8 && "win32api"@[0] == 'w' && "win32api"@[5] == 'a');
    assert("win32com"@.len() == 8 && "win32com"@[0] == 'w' && "win32com"@[5] == 'c');
    assert("win32gui"@.len() == 8 && "win32gui"@[0] == 'w' && "win32gui"@[5] == 'g');
    assert("pythoncom"@.len() == 9 && "pythoncom"@[0] == 'p');
}

// ───────────────────────── install planning ─────────────────────────

/// Whether a package of that name (compared case-insensitively) is installed.
pub open spec fn is_installed(installed: Seq<Seq<char>>, name: Seq<char>) -> bool {
    exists|i: int| 0 <= i < installed.len() && eq_ignore_case(#[trigger] installed[i], name)
}

/// The packages to install: the pip names of missing imports and the
/// declared packages (trimmed, non-empty) that are not installed yet.
pub open spec fn install_targets_of(
    missing: Seq<Seq<char>>,
    declared: Seq<Seq<char>>,
    installed: Seq<Seq<char>>,
) -> Set<Seq<char>> {
    Set::new(
        |t: Seq<char>|
            ((exists|i: int| 0 <= i < missing.len() && t == pip_name(#[trigger] missing[i]))
                || (exists|j: int|
                0 <= j < declared.len() && t == trim(#[trigger] declared[j]) && t.len() > 0))
                && !is_installed(installed, t),
    )
}

/// Whether `name` is installed, comparing case-insensitively.
pub fn installed_contains(installed: &Vec<String>, name: &str) -> (b: bool)
    ensures
        b == is_installed(string_views(installed@), name@),
{
    let mut i: usize = 0;
    while i < installed.len()
        invariant
            i <= installed@.len(),
            forall|j: int| 0 <= j < i ==> !eq_ignore_case(#[trigger] installed@[j]@, name@),
        decreases installed@.len() - i,
    {
        if eq_ignore_ascii_case(installed[i].as_str(), name) {
            assert(string_views(installed@)[i as int] == installed@[i as int]@);
            return true;
        }
        i = i + 1;
    }
    assert forall|j: int| 0 <= j < installed@.len() implies !eq_ignore_case(
        #[trigger] string_views(installed@)[j],
        name@,
    ) by {
        assert(string_views(installed@)[j] == installed@[j]@);
    }
    false
}

/// The packages a job still needs, sorted and without duplicates.
pub fn install_targets(missing: &Vec<String>, declared: &Vec<String>, installed: &Vec<String>) -> (r:
    Vec<String>)
    ensures
        sorted_strict(string_views(r@)),
        string_views(r@).to_set() == install_targets_of(
            string_views(missing@),
            string_views(declared@),
            string_views(installed@),
        ),
{
    let ghost ms = string_views(missing@);
    let ghost ds = string_views(declared@);
    let ghost ins = string_views(installed@);
    let mut r: Vec<String> = Vec::new();
    let mut i: usize = 0;
    assert(string_views(r@).to_set() =~= Set::<Seq<char>>::empty());
    while i < missing.len()
        invariant
            i <= missing@.len(),
            ms == string_views(missing@),
            ins == string_views(installed@),
            sorted_strict(string_views(r@)),
            string_views(r@).to_set() == Set::new(
                |t: Seq<char>|
                    (exists|k: int| 0 <= k < i && t == pip_name(#[trigger] ms[k]))
                        && !is_installed(ins, t),
            ),
        decreases missing@.len() - i,
    {
        let pip = import_to_pip_name(missing[i].as_str());
        let ghost prev = Set::new(
            |t: Seq<char>|
                (exists|k: int| 0 <= k < i && t == pip_name(#[trigger] ms[k])) && !is_installed(
                    ins,
                    t,
                ),
        );
        let ghost next = Set::new(
            |t: Seq<char>|
                (exists|k: int| 0 <= k < i + 1 && t == pip_name(#[trigger] ms[k]))
                    && !is_installed(ins, t),
        );
        assert(ms[i as int] == missing@[i as int]@);
        if !installed_contains(installed, pip) {
            assert(next =~= prev.insert(pip@)) by {
                assert forall|t: Seq<char>| next.contains(t) implies prev.insert(pip@).contains(
                    t,
                ) by {
                    let k = choose|k: int| 0 <= k < i + 1 && t == pip_name(#[trigger] ms[k]);
                    if k < i {
                        assert(prev.contains(t));
                    }
                }
                assert forall|t: Seq<char>| prev.insert(pip@).contains(t) implies next.contains(
                    t,
                ) by {
                    if t == pip@ {
                        assert(t == pip_name(ms[i as int]));
                    } else {
                        let k = choose|k: int| 0 <= k < i && t == pip_name(#[trigger] ms[k]);
                        assert(t == pip_name(ms[k]));
                    }
                }
            }
            insert_sorted(&mut r, String::from_str(pip));
        } else {
            assert(next =~= prev) by {
                assert forall|t: Seq<char>| next.contains(t) implies prev.contains(t) by {
                    let k = choose|k: int| 0 <= k < i + 1 && t == pip_name(#[trigger] ms[k]);
                    if k == i {
                        assert(is_installed(ins, t));
                    }
                }
                assert forall|t: Seq<char>| prev.contains(t) implies next.contains(t) by {
                    let k = choose|k: int| 0 <= k < i && t == pip_name(#[trigger] ms[k]);
                    assert(t == pip_name(ms[k]));
                }
            }
        }
        i = i + 1;
    }
    let ghost from_missing = string_views(r@).to_set();
    let mut j: usize = 0;
    while j < declared.len()
        invariant
            j <= declared@.len(),
            ms == string_views(missing@),
            ds == string_views(declared@),
            ins == string_views(installed@),
            i == missing@.len(),
            from_missing == Set::new(
                |t: Seq<char>|
                    (exists|k: int| 0 <= k < i && t == pip_name(#[trigger] ms[k]))
                        && !is_installed(ins, t),
            ),
            sorted_strict(string_views(r@)),
            string_views(r@).to_set() == from_missing.union(
                Set::new(
                    |t: Seq<char>|
                        (exists|k: int| 0 <= k < j && t == trim(#[trigger] ds[k]) && t.len() > 0)
                            && !is_installed(ins, t),
                ),
            ),
        decreases declared@.len() - j,
    {
        let t = trim_str(declared[j].as_str());
        assert(ds[j as int] == declared@[j as int]@);
        let ghost prev = Set::new(
            |x: Seq<char>|
                (exists|k: int| 0 <= k < j && x == trim(#[trigger] ds[k]) && x.len() > 0)
                    && !is_installed(ins, x),
        );
        let ghost next = Set::new(
            |x: Seq<char>|
                (exists|k: int| 0 <= k < j + 1 && x == trim(#[trigger] ds[k]) && x.len() > 0)
                    && !is_installed(ins, x),
        );
        if !is_blank(t) && !installed_contains(installed, t) {
            assert(trim(t@) == t@) by {
                crate::text::lemma_trim_idempotent(ds[j as int]);
            }
            assert(next =~= prev.insert(t@)) by {
                assert forall|x: Seq<char>| next.contains(x) implies prev.insert(t@).contains(
                    x,
                ) by {
                    let k = choose|k: int|
                        0 <= k < j + 1 && x == trim(#[trigger] ds[k]) && x.len() > 0;
                    if k < j {
                        assert(prev.contains(x));
                    }
                }
                assert forall|x: Seq<char>| prev.insert(t@).contains(x) implies next.contains(
                    x,
                ) by {
                    if x == t@ {
                        assert(x == trim(ds[j as int]));
                    } else {
                        let k = choose|k: int|
                            0 <= k < j && x == trim(#[trigger] ds[k]) && x.len() > 0;
                        assert(x == trim(ds[k]));
                    }
                }
            }
            insert_sorted(&mut r, String::from_str(t));
            assert(from_missing.union(prev).insert(t@) =~= from_missing.union(next));
        } else {
            assert(trim(t@) == t@) by {
                crate::text::lemma_trim_idempotent(ds[j as int]);
            }
            assert(next =~= prev) by {
                assert forall|x: Seq<char>| next.contains(x) implies prev.contains(x) by {
                    let k = choose|k: int|
                        0 <= k < j + 1 && x == trim(#[trigger] ds[k]) && x.len() > 0;
                    if k == j {
                        assert(x == t@);
                    }
                }
                assert forall|x: Seq<char>| prev.contains(x) implies next.contains(x) by {
                    let k = choose|k: int|
                        0 <= k < j && x == trim(#[trigger] ds[k]) && x.len() > 0;
                    assert(x == trim(ds[k]));
                }
            }
        }
        j = j + 1;
    }
    assert(string_views(r@).to_set() =~= install_targets_of(ms, ds, ins));
    r
}

/// The import that made a package a candidate: the last missing import that
/// maps to it.
pub open spec fn hint_for(missing: Seq<Seq<char>>, pip: Seq<char>) -> Option<Seq<char>>
    decreases missing.len(),
{
    if missing.len() == 0 {
        None
    } else if pip_name(missing.last()) == pip {
        Some(missing.last())
    } else {
        hint_for(missing.drop_last(), pip)
    }
}

/// The import that led to installing `pip`, if one did.
pub fn install_hint(missing: &Vec<String>, pip: &str) -> (r: Option<String>)
    ensures
        match r {
            Some(s) => hint_for(string_views(missing@), pip@) == Some(s@),
            None => hint_for(string_views(missing@), pip@) is None,
        },
{
    let ghost ms = string_views(missing@);
    let mut k = missing.len();
    assert(ms.take(k as int) =~= ms);
    while k > 0
        invariant
            k <= missing@.len(),
            ms == string_views(missing@),
            hint_for(ms, pip@) == hint_for(ms.take(k as int), pip@),
        decreases k,
    {
        assert(ms.take(k as int).drop_last() =~= ms.take(k - 1));
        assert(ms.take(k as int).last() == missing@[k - 1]@);
        if str_eq(import_to_pip_name(missing[k - 1].as_str()), pip) {
            return Some(String::from_str(missing[k - 1].as_str()));
        }
        k = k - 1;
    }
    assert(ms.take(0).len() == 0);
    None
}

/// The message for a failed package installation.
pub open spec fn install_failure_text(pip: Seq<char>, hint: Option<Seq<char>>, error: Seq<char>) -> Seq<
    char,
> {
    "Failed to install package `"@ + pip + "`"@ + match hint {
        Some(imp) => " (detected from import `"@ + imp + "`)"@,
        None => Seq::<char>::empty(),
    } + ": "@ + error + ". Check the package name and network connectivity, then retry."@
}

pub fn install_failure_message(pip: &str, hint: Option<&str>, error: &str) -> (r: String)
    ensures
        r@ == install_failure_text(
            pip@,
            match hint {
                Some(h) => Some(h@),
                None => None,
            },
            error@,
        ),
{
    let mut r = String::from_str("Failed to install package `");
    r.append(pip);
    r.append("`");
    match hint {
        Some(imp) => {
            r.append(" (detected from import `");
            r.append(imp);
            r.append("`)");
        },
        None => {},
    }
    r.append(": ");
    r.append(error);
    r.append(". Check the package name and network connectivity, then retry.");
    r
}

/// Whether some entry equals `x` ignoring ASCII case.
pub open spec fn any_eq_ic(list: Seq<Seq<char>>, x: Seq<char>) -> bool {
    exists|i: int| 0 <= i < list.len() && eq_ignore_case(#[trigger] list[i], x)
}

/// `present` extended by the declared packages that were already installed.
pub open spec fn with_declared(
    present: Seq<Seq<char>>,
    declared: Seq<Seq<char>>,
    newly: Seq<Seq<char>>,
    installed: Seq<Seq<char>>,
) -> Seq<Seq<char>>
    decreases declared.len(),
{
    if declared.len() == 0 {
        present
    } else {
        let prev = with_declared(present, declared.drop_last(), newly, installed);
        let t = trim(declared.last());
        if t.len() > 0 && is_installed(installed, t) && !any_eq_ic(prev, t) && !any_eq_ic(newly, t) {
            prev.push(t)
        } else {
            prev
        }
    }
}

/// `present` extended by the missing imports whose package was installed.
pub open spec fn with_missing(
    present: Seq<Seq<char>>,
    missing: Seq<Seq<char>>,
    newly: Seq<Seq<char>>,
    installed: Seq<Seq<char>>,
) -> Seq<Seq<char>>
    decreases missing.len(),
{
    if missing.len() == 0 {
        present
    } else {
        let prev = with_missing(present, missing.drop_last(), newly, installed);
        let m = missing.last();
        let p = pip_name(m);
        if is_installed(installed, p) && !any_eq_ic(newly, p) && !any_eq_ic(prev, m) && !any_eq_ic(
            prev,
            p,
        ) {
            prev.push(m)
        } else {
            prev
        }
    }
}

/// Whether some entry equals `x` ignoring ASCII case.
fn contains_ignore_case(list: &Vec<String>, x: &str) -> (b: bool)
    ensures
        b == any_eq_ic(string_views(list@), x@),
{
    let mut i: usize = 0;
    while i < list.len()
        invariant
            i <= list@.len(),
            forall|j: int| 0 <= j < i ==> !eq_ignore_case(#[trigger] list@[j]@, x@),
        decreases list@.len() - i,
    {
        if eq_ignore_ascii_case(list[i].as_str(), x) {
            assert(string_views(list@)[i as int] == list@[i as int]@);
            return true;
        }
        i = i + 1;
    }
    assert forall|j: int| 0 <= j < list@.len() implies !eq_ignore_case(
        #[trigger] string_views(list@)[j],
        x@,
    ) by {
        assert(string_views(list@)[j] == list@[j]@);
    }
    false
}

fn clone_strings(v: &Vec<String>) -> (r: Vec<String>)
    ensures
        string_views(r@) == string_views(v@),
{
    let mut r: Vec<String> = Vec::new();
    let mut i: usize = 0;
    while i < v.len()
        invariant
            i <= v@.len(),
            string_views(r@) == string_views(v@).take(i as int),
        decreases v@.len() - i,
    {
        let ghost prev = string_views(r@);
        let item = String::from_str(v[i].as_str());
        r.push(item);
        assert(string_views(r@) =~= prev.push(v@[i as int]@));
        assert(string_views(v@).take(i + 1) =~= string_views(v@).take(i as int).push(
            v@[i as int]@,
        ));
        i = i + 1;
    }
    assert(string_views(v@).take(v@.len() as int) =~= string_views(v@));
    r
}

/// The names that were already available: the probe's present imports, then
/// installed declared packages, then missing imports whose package turned out
/// to be installed, each without case-insensitive repeats.
pub fn already_present_names(
    present: &Vec<String>,
    missing: &Vec<String>,
    declared: &Vec<String>,
    installed: &Vec<String>,
    newly: &Vec<String>,
) -> (r: Vec<String>)
    ensures
        string_views(r@) == with_missing(
            with_declared(
                string_views(present@),
                string_views(declared@),
                string_views(newly@),
                string_views(installed@),
            ),
            string_views(missing@),
            string_views(newly@),
            string_views(installed@),
        ),
{
    let ghost ds = string_views(declared@);
    let ghost ms = string_views(missing@);
    let ghost nw = string_views(newly@);
    let ghost ins = string_views(installed@);
    let mut ap = clone_strings(present);
    let mut j: usize = 0;
    assert(ds.take(0) =~= Seq::<Seq<char>>::empty());
    while j < declared.len()
        invariant
            j <= declared@.len(),
            ds == string_views(declared@),
            nw == string_views(newly@),
            ins == string_views(installed@),
            string_views(ap@) == with_declared(string_views(present@), ds.take(j as int), nw, ins),
        decreases declared@.len() - j,
    {
        assert(ds.take(j + 1).drop_last() =~= ds.take(j as int));
        assert(ds.take(j + 1).last() == declared@[j as int]@);
        let t = trim_str(declared[j].as_str());
        if !is_blank(t) && installed_contains(installed, t) && !contains_ignore_case(&ap, t)
            && !contains_ignore_case(newly, t) {
            assert(trim(t@) == t@) by {
                crate::text::lemma_trim_idempotent(ds[j as int]);
            }
            ap.push(String::from_str(t));
            assert(string_views(ap@) =~= with_declared(
                string_views(present@),
                ds.take(j as int),
                nw,
                ins,
            ).push(t@));
        } else {
            assert(trim(t@) == t@) by {
                crate::text::lemma_trim_idempotent(ds[j as int]);
            }
        }
        j = j + 1;
    }
    assert(ds.take(declared@.len() as int) =~= ds);
    let ghost base = string_views(ap@);
    let mut i: usize = 0;
    assert(ms.take(0) =~= Seq::<Seq<char>>::empty());
    while i < missing.len()
        invariant
            i <= missing@.len(),
            ms == string_views(missing@),
            nw == string_views(newly@),
            ins == string_views(installed@),
            string_views(ap@) == with_missing(base, ms.take(i as int), nw, ins),
        decreases missing@.len() - i,
    {
        assert(ms.take(i + 1).drop_last() =~= ms.take(i as int));
        assert(ms.take(i + 1).last() == missing@[i as int]@);
        let m = missing[i].as_str();
        let p = import_to_pip_name(m);
        if installed_contains(installed, p) && !contains_ignore_case(newly, p)
            && !contains_ignore_case(&ap, m) && !contains_ignore_case(&ap, p) {
            ap.push(String::from_str(missing[i].as_str()));
            assert(string_views(ap@) =~= with_missing(base, ms.take(i as int), nw, ins).push(
                missing@[i as int]@,
            ));
        }
        i = i + 1;
    }
    assert(ms.take(missing@.len() as int) =~= ms);
    ap
}

/// Assembles the dependency report of a job whose installs all succeeded.
pub fn dependency_report(
    detected: Vec<String>,
    missing: &Vec<String>,
    present: &Vec<String>,
    skipped: Vec<String>,
    declared: &Vec<String>,
    installed: &Vec<String>,
    newly: Vec<String>,
) -> (r: DependencyReport)
    ensures
        r.detected@ == detected@,
        r.installed@ == newly@,
        r.skipped_stdlib@ == skipped@,
        string_views(r.already_present@) == with_missing(
            with_declared(
                string_views(present@),
                string_views(declared@),
                string_views(newly@),
                string_views(installed@),
            ),
            string_views(missing@),
            string_views(newly@),
            string_views(installed@),
        ),
{
    let already = already_present_names(present, missing, declared, installed, &newly);
    DependencyReport {
        detected,
        installed: newly,
        already_present: already,
        skipped_stdlib: skipped,
    }
}

// ───────────────────────── dependency log line ─────────────────────────

/// One `label=[a, b]` part of the dependency log line, or nothing when empty.
pub open spec fn log_part(label: Seq<char>, items: Seq<Seq<char>>) -> Seq<Seq<char>> {
    if items.len() == 0 {
        Seq::empty()
    } else {
        seq![label + "=["@ + join(items, ", "@) + "]"@]
    }
}

/// The log line recording a dependency report, `None` when it lists nothing.
pub open spec fn dependency_log_text(
    detected: Seq<Seq<char>>,
    installed: Seq<Seq<char>>,
    present: Seq<Seq<char>>,
    skipped: Seq<Seq<char>>,
) -> Option<Seq<char>> {
    if detected.len() == 0 && installed.len() == 0 && present.len() == 0 && skipped.len() == 0 {
        None
    } else {
        Some(
            "Dependencies resolved: "@ + join(
                log_part("detected"@, detected) + log_part("installed"@, installed) + log_part(
                    "already_present"@,
                    present,
                ) + log_part("skipped_stdlib"@, skipped),
                "; "@,
            ),
        )
    }
}

fn push_log_part(parts: &mut Vec<String>, label: &str, items: &Vec<String>)
    ensures
        string_views(final(parts)@) == string_views(old(parts)@) + log_part(
            label@,
            string_views(items@),
        ),
{
    if items.len() == 0 {
        assert(string_views(parts@) =~= string_views(parts@) + log_part(
            label@,
            string_views(items@),
        ));
        return;
    }
    let mut part = String::from_str(label);
    part.append("=[");
    let body = join_strings(items, ", ");
    part.append(body.as_str());
    part.append("]");
    let ghost before = string_views(parts@);
    parts.push(part);
    assert(string_views(parts@) =~= before + log_part(label@, string_views(items@)));
}

/// The history log line that records how a job's dependencies were resolved.
pub fn dependency_log_line(report: &DependencyReport) -> (r: Option<String>)
    ensures
        match r {
            Some(s) => dependency_log_text(
                string_views(report.detected@),
                string_views(report.installed@),
                string_views(report.already_present@),
                string_views(report.skipped_stdlib@),
            ) == Some(s@),
            None => dependency_log_text(
                string_views(report.detected@),
                string_views(report.installed@),
                string_views(report.already_present@),
                string_views(report.skipped_stdlib@),
            ) is None,
        },
{
    if report.detected.len() == 0 && report.installed.len() == 0
        && report.already_present.len() == 0 && report.skipped_stdlib.len() == 0 {
        return None;
    }
    let mut parts: Vec<String> = Vec::new();
    assert(string_views(parts@) =~= Seq::<Seq<char>>::empty());
    push_log_part(&mut parts, "detected", &report.detected);
    push_log_part(&mut parts, "installed", &report.installed);
    push_log_part(&mut parts, "already_present", &report.already_present);
    push_log_part(&mut parts, "skipped_stdlib", &report.skipped_stdlib);
    assert(string_views(parts@) =~= log_part("detected"@, string_views(report.detected@))
        + log_part("installed"@, string_views(report.installed@)) + log_part(
        "already_present"@,
        string_views(report.already_present@),
    ) + log_part("skipped_stdlib"@, string_views(report.skipped_stdlib@)));
    let mut line = String::from_str("Dependencies resolved: ");
    let joined = join_strings(&parts, "; ");
    line.append(joined.as_str());
    Some(line)
}


/// The probe run in the job's environment: for each candidate import (given
/// as a JSON list) it tells, without importing anything, whether it is part
/// of the standard library, missing or present, and prints the three lists
/// as one JSON object.
pub open spec fn probe_script_text(names_json: Seq<char>) -> Seq<char> {
    "\nimport json, sys, importlib.util\n\ncandidates = "@ + names_json + "\nstdlib = set(getattr(sys, \"stdlib_module_names\", ())) | set(sys.builtin_module_names)\nmissing, present, skipped = [], [], []\nfor name in candidates:\n    if name in stdlib:\n        skipped.append(name)\n        continue\n    try:\n        spec = importlib.util.find_spec(name)\n    except (ImportError, ModuleNotFoundError, ValueError, AttributeError):\n        spec = None\n    if spec is None:\n        missing.append(name)\n    else:\n        present.append(name)\nprint(json.dumps({\"missing\": missing, \"present\": present, \"skipped\": skipped}))\n"@
}

pub fn probe_script(names_json: &str) -> (r: String)
    ensures
        r@ == probe_script_text(names_json@),
{
    let mut r = String::from_str("\nimport json, sys, importlib.util\n\ncandidates = ");
    r.append(names_json);
    r.append("\nstdlib = set(getattr(sys, \"stdlib_module_names\", ())) | set(sys.builtin_module_names)\nmissing, present, skipped = [], [], []\nfor name in candidates:\n    if name in stdlib:\n        skipped.append(name)\n        continue\n    try:\n        spec = importlib.util.find_spec(name)\n    except (ImportError, ModuleNotFoundError, ValueError, AttributeError):\n        spec = None\n    if spec is None:\n        missing.append(name)\n    else:\n        present.append(name)\nprint(json.dumps({\"missing\": missing, \"present\": present, \"skipped\": skipped}))\n");
    r
}

/// The next move of a package installation run.
#[derive(Debug)]
pub enum InstallAction {
    /// Install this package next.
    Install(String),
    /// Every target is installed; these are the newly installed packages, in
    /// the order they went in.
    Finished(Vec<String>),
    /// An installation failed: the run stops with this error.
    Abort(String),
}

/// A fail-fast run over the packages to install: each target once, in
/// order, stopping at the first failure.
pub struct InstallRun {
    targets: Vec<String>,
    missing: Vec<String>,
    next: usize,
    in_flight: bool,
    stopped: bool,
}

impl InstallRun {
    /// The packages to install, in order.
    pub closed spec fn targets(&self) -> Seq<Seq<char>> {
        string_views(self.targets@)
    }

    /// The missing imports the targets came from (for the failure hint).
    pub closed spec fn missing(&self) -> Seq<Seq<char>> {
        string_views(self.missing@)
    }

    /// How many targets are installed so far.
    pub closed spec fn done_count(&self) -> nat {
        self.next as nat
    }

    /// Whether the package `targets()[done_count()]` is being installed.
    pub closed spec fn in_flight(&self) -> bool {
        self.in_flight
    }

    /// Whether the run is over.
    pub closed spec fn stopped(&self) -> bool {
        self.stopped
    }

    pub closed spec fn wf(&self) -> bool {
        &&& self.next <= self.targets@.len()
        &&& self.in_flight ==> self.next < self.targets@.len()
    }

    /// A run over `targets`, nothing installed yet.
    pub fn new(targets: Vec<String>, missing: Vec<String>) -> (r: InstallRun)
        ensures
            r.wf(),
            r.targets() == string_views(targets@),
            r.missing() == string_views(missing@),
            r.done_count() == 0,
            !r.in_flight(),
            !r.stopped(),
    {
        InstallRun { targets, missing, next: 0, in_flight: false, stopped: false }
    }

    /// One step of the run. `outcome` is how the installation in flight went
    /// (`None` when none is in flight, as at the start). A failure stops the
    /// run with the install failure message for that package; a success
    /// counts it installed. Then the next target is handed out, or, when
    /// none is left, the run finishes with every target installed.
    pub fn step(&mut self, outcome: Option<Result<(), String>>) -> (a: InstallAction)
        requires
            old(self).wf(),
            !old(self).stopped(),
            outcome is Some <==> old(self).in_flight(),
        ensures
            final(self).wf(),
            final(self).targets() == old(self).targets(),
            final(self).missing() == old(self).missing(),
            match outcome {
                Some(Err(e)) => {
                    let pip = old(self).targets()[old(self).done_count() as int];
                    &&& a matches InstallAction::Abort(m) && m@ == install_failure_text(
                        pip,
                        hint_for(old(self).missing(), pip),
                        e@,
                    )
                    &&& final(self).stopped()
                    &&& final(self).done_count() == old(self).done_count()
                },
                _ => {
                    let done: int = if outcome is Some {
                        old(self).done_count() as int + 1
                    } else {
                        old(self).done_count() as int
                    };
                    &&& final(self).done_count() == done
                    &&& if done < old(self).targets().len() {
                        &&& a matches InstallAction::Install(p) && p@ == old(self).targets()[done]
                        &&& final(self).in_flight()
                        &&& !final(self).stopped()
                    } else {
                        &&& a matches InstallAction::Finished(v) && string_views(v@) == old(self).targets()
                        &&& final(self).stopped()
                    }
                },
            },
    {
        match outcome {
            Some(Err(e)) => {
                let pip = self.targets[self.next].as_str();
                let hint = install_hint(&self.missing, pip);
                let msg = match &hint {
                    Some(h) => install_failure_message(pip, Some(h.as_str()), e.as_str()),
                    None => install_failure_message(pip, None, e.as_str()),
                };
                self.stopped = true;
                self.in_flight = false;
                return InstallAction::Abort(msg);
            },
            Some(Ok(())) => {
                let n = self.targets.len();
                assert(self.next < n);
                self.next = self.next + 1;
            },
            None => {},
        }
        if self.next < self.targets.len() {
            self.in_flight = true;
            InstallAction::Install(self.targets[self.next].clone())
        } else {
            self.in_flight = false;
            self.stopped = true;
            let all = copy_strings(&self.targets);
            InstallAction::Finished(all)
        }
    }
}

} // verus!
