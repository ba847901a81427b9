//! Line-structured text: trimming, line splitting, and line-wise mapping.
//!
//! The interface spec is a text document handled line by line: a line map
//! rewrites each line independently and leaves the newline structure alone.
//! This module gives the machinery and its laws; what a rewritten line looks
//! like is the concern of [`crate::directive`].

use vstd::prelude::*;

verus! {

/// Whitespace that may surround a marker on its own line: the space, the
/// tab, and the carriage return of a Windows line ending.
pub open spec fn is_line_ws(c: char) -> bool {
    c == ' ' || c == '\t' || c == '\r'
}

/// `s` without its leading whitespace.
pub open spec fn trim_front(s: Seq<char>) -> Seq<char>
    decreases s.len(),
{
    if s.len() > 0 && is_line_ws(s[0]) {
        trim_front(s.skip(1))
    } else {
        s
    }
}

/// `s` without its trailing whitespace.
pub open spec fn trim_back(s: Seq<char>) -> Seq<char>
    decreases s.len(),
{
    if s.len() > 0 && is_line_ws(s.last()) {
        trim_back(s.drop_last())
    } else {
        s
    }
}

/// `s` without leading and trailing whitespace.
pub open spec fn trim(s: Seq<char>) -> Seq<char> {
    trim_back(trim_front(s))
}

/// A string that neither starts nor ends in whitespace is its own trim.
pub proof fn lemma_trim_id(s: Seq<char>)
    requires
        s.len() == 0 || (!is_line_ws(s[0]) && !is_line_ws(s.last())),
    ensures
        trim(s) == s,
{
}

proof fn lemma_trim_front_skip(s: Seq<char>, a: int)
    requires
        0 <= a <= s.len(),
        forall|k: int| 0 <= k < a ==> is_line_ws(s[k]),
        a < s.len() ==> !is_line_ws(s[a]),
    ensures
        trim_front(s) == s.skip(a),
    decreases a,
{
    if a == 0 {
        assert(s.skip(0) =~= s);
    } else {
        lemma_trim_front_skip(s.skip(1), a - 1);
        assert(s.skip(1).skip(a - 1) =~= s.skip(a));
    }
}

proof fn lemma_trim_back_take(s: Seq<char>, b: int)
    requires
        0 <= b <= s.len(),
        forall|k: int| b <= k < s.len() ==> is_line_ws(s[k]),
        b > 0 ==> !is_line_ws(s[b - 1]),
    ensures
        trim_back(s) == s.take(b),
    decreases s.len() - b,
{
    if b == s.len() {
        assert(s.take(b) =~= s);
    } else {
        lemma_trim_back_take(s.drop_last(), b);
        assert(s.drop_last().take(b) =~= s.take(b));
    }
}

/// What the trim of a line is, given where its whitespace ends.
pub proof fn lemma_trim_range(s: Seq<char>, a: int, b: int)
    requires
        0 <= a <= b <= s.len(),
        forall|k: int| 0 <= k < a ==> is_line_ws(s[k]),
        forall|k: int| b <= k < s.len() ==> is_line_ws(s[k]),
        a < b ==> !is_line_ws(s[a]) && !is_line_ws(s[b - 1]),
    ensures
        trim(s) == s.subrange(a, b),
    decreases a,
{
    if a == b {
        // The line is all whitespace: both trims erase it.
        lemma_trim_front_skip(s, s.len() as int);
        assert(s.skip(s.len() as int) =~= Seq::<char>::empty());
        assert(trim(s) =~= s.subrange(a, b));
    } else {
        lemma_trim_front_skip(s, a);
        lemma_trim_back_take(s.skip(a), b - a);
        assert(s.skip(a).take(b - a) =~= s.subrange(a, b));
    }
}

/// The position of the first newline in `s`; the length of `s` if there is
/// none.
pub open spec fn first_newline(s: Seq<char>) -> nat
    decreases s.len(),
{
    if s.len() == 0 {
        0
    } else if s[0] == '\n' {
        0
    } else {
        1 + first_newline(s.skip(1))
    }
}

pub proof fn lemma_first_newline(s: Seq<char>)
    ensures
        first_newline(s) <= s.len(),
        forall|k: int| 0 <= k < first_newline(s) ==> s[k] != '\n',
        first_newline(s) < s.len() ==> s[first_newline(s) as int] == '\n',
        s.contains('\n') ==> first_newline(s) < s.len(),
    decreases s.len(),
{
    if s.len() > 0 && s[0] != '\n' {
        lemma_first_newline(s.skip(1));
        assert(forall|k: int| 0 <= k < s.skip(1).len() ==> s.skip(1)[k] == s[k + 1]);
        assert forall|k: int| 0 <= k < first_newline(s) implies s[k] != '\n' by {
            if k > 0 {
                assert(s.skip(1)[k - 1] != '\n');
                assert(s.skip(1)[k - 1] == s[k]);
            }
        }
        if s.contains('\n') {
            let w = choose|w: int| 0 <= w < s.len() && s[w] == '\n';
            assert(s.skip(1)[w - 1] == '\n');
            assert(s.skip(1).contains('\n'));
        }
    }
}

/// Apply `f` to every line of `s`, keeping the newlines between them. A
/// text without a newline is a single line, the empty text among them.
pub open spec fn map_lines(s: Seq<char>, f: spec_fn(Seq<char>) -> Seq<char>) -> Seq<char>
    decreases s.len(),
    via map_lines_decreases
{
    if !s.contains('\n') {
        f(s)
    } else {
        let j = first_newline(s) as int;
        f(s.take(j)) + seq!['\n'] + map_lines(s.skip(j + 1), f)
    }
}

#[via_fn]
proof fn map_lines_decreases(s: Seq<char>, f: spec_fn(Seq<char>) -> Seq<char>) {
    lemma_first_newline(s);
}

/// Every line of `s` satisfies `clean`.
pub open spec fn lines_clean(s: Seq<char>, clean: spec_fn(Seq<char>) -> bool) -> bool
    decreases s.len(),
    via lines_clean_decreases
{
    if !s.contains('\n') {
        clean(s)
    } else {
        let j = first_newline(s) as int;
        clean(s.take(j)) && lines_clean(s.skip(j + 1), clean)
    }
}

#[via_fn]
proof fn lines_clean_decreases(s: Seq<char>, clean: spec_fn(Seq<char>) -> bool) {
    lemma_first_newline(s);
}

/// The first newline of `a + '\n' + b` lies at the end of `a` when `a` has
/// none, and at `a`'s own first newline when it has one.
proof fn lemma_first_newline_concat(a: Seq<char>, b: Seq<char>)
    ensures
        !a.contains('\n') ==> first_newline(a + seq!['\n'] + b) == a.len(),
        a.contains('\n') ==> first_newline(a + seq!['\n'] + b) == first_newline(a),
        (a + seq!['\n'] + b).contains('\n'),
{
    let s = a + seq!['\n'] + b;
    assert(s[a.len() as int] == '\n');
    assert(s.contains('\n'));
    lemma_first_newline(s);
    lemma_first_newline(a);
    let j = first_newline(s) as int;
    if !a.contains('\n') {
        if j < a.len() {
            assert(s[j] == a[j]);
            assert(a.contains('\n'));
        }
        assert(j >= a.len());
        assert(j <= a.len());
    } else {
        let ja = first_newline(a) as int;
        assert(s[ja] == a[ja]);
        if j < ja {
            assert(a[j] == s[j]);
        }
        assert(j >= ja);
        assert(j <= ja);
    }
}

/// A line map distributes over a newline: mapping `a + '\n' + b` maps the
/// two parts separately.
pub proof fn lemma_map_lines_concat(a: Seq<char>, b: Seq<char>, f: spec_fn(Seq<char>) -> Seq<char>)
    ensures
        map_lines(a + seq!['\n'] + b, f) == map_lines(a, f) + seq!['\n'] + map_lines(b, f),
    decreases a.len(),
{
    let s = a + seq!['\n'] + b;
    lemma_first_newline_concat(a, b);
    if !a.contains('\n') {
        assert(s.take(a.len() as int) =~= a);
        assert(s.skip(a.len() as int + 1) =~= b);
    } else {
        lemma_first_newline(a);
        let ja = first_newline(a) as int;
        assert(s.take(ja) =~= a.take(ja));
        assert(s.skip(ja + 1) =~= a.skip(ja + 1) + seq!['\n'] + b);
        lemma_map_lines_concat(a.skip(ja + 1), b, f);
        assert(a.take(ja).contains('\n') ==> a.contains('\n') && first_newline(a) < ja) by {
            if a.take(ja).contains('\n') {
                let w = choose|w: int| 0 <= w < ja && a.take(ja)[w] == '\n';
                assert(a[w] == '\n');
            }
        }
        assert(map_lines(s, f) == f(a.take(ja)) + seq!['\n'] + (map_lines(a.skip(ja + 1), f)
            + seq!['\n'] + map_lines(b, f)));
        assert(map_lines(a, f) == f(a.take(ja)) + seq!['\n'] + map_lines(a.skip(ja + 1), f));
        assert(f(a.take(ja)) + seq!['\n'] + (map_lines(a.skip(ja + 1), f) + seq!['\n']
            + map_lines(b, f)) =~= (f(a.take(ja)) + seq!['\n'] + map_lines(a.skip(ja + 1), f))
            + seq!['\n'] + map_lines(b, f));
    }
}

/// Cleanliness of `a + '\n' + b` is cleanliness of the parts.
pub proof fn lemma_lines_clean_concat(a: Seq<char>, b: Seq<char>, clean: spec_fn(Seq<char>) -> bool)
    ensures
        lines_clean(a + seq!['\n'] + b, clean) <==> (lines_clean(a, clean) && lines_clean(
            b,
            clean,
        )),
    decreases a.len(),
{
    let s = a + seq!['\n'] + b;
    lemma_first_newline_concat(a, b);
    if !a.contains('\n') {
        assert(s.take(a.len() as int) =~= a);
        assert(s.skip(a.len() as int + 1) =~= b);
    } else {
        lemma_first_newline(a);
        let ja = first_newline(a) as int;
        assert(s.take(ja) =~= a.take(ja));
        assert(s.skip(ja + 1) =~= a.skip(ja + 1) + seq!['\n'] + b);
        lemma_lines_clean_concat(a.skip(ja + 1), b, clean);
        assert(!a.take(ja).contains('\n')) by {
            if a.take(ja).contains('\n') {
                let w = choose|w: int| 0 <= w < ja && a.take(ja)[w] == '\n';
                assert(a[w] == '\n');
            }
        }
    }
}

/// A line map that fixes every clean line fixes every text whose lines are
/// all clean.
pub proof fn lemma_map_lines_id(
    s: Seq<char>,
    f: spec_fn(Seq<char>) -> Seq<char>,
    clean: spec_fn(Seq<char>) -> bool,
)
    requires
        forall|l: Seq<char>| !l.contains('\n') && #[trigger] clean(l) ==> f(l) == l,
        lines_clean(s, clean),
    ensures
        map_lines(s, f) == s,
    decreases s.len(),
{
    if !s.contains('\n') {
    } else {
        lemma_first_newline(s);
        let j = first_newline(s) as int;
        assert(!s.take(j).contains('\n')) by {
            if s.take(j).contains('\n') {
                let w = choose|w: int| 0 <= w < j && s.take(j)[w] == '\n';
                assert(s[w] == '\n');
            }
        }
        lemma_map_lines_id(s.skip(j + 1), f, clean);
        assert(f(s.take(j)) + seq!['\n'] + s.skip(j + 1) =~= s);
    }
}

/// A line map whose every image has only clean lines yields a text whose
/// every line is clean, whatever the input.
pub proof fn lemma_map_lines_clean(
    s: Seq<char>,
    f: spec_fn(Seq<char>) -> Seq<char>,
    clean: spec_fn(Seq<char>) -> bool,
)
    requires
        forall|l: Seq<char>| !l.contains('\n') ==> lines_clean(#[trigger] f(l), clean),
    ensures
        lines_clean(map_lines(s, f), clean),
    decreases s.len(),
{
    if !s.contains('\n') {
    } else {
        lemma_first_newline(s);
        let j = first_newline(s) as int;
        assert(!s.take(j).contains('\n')) by {
            if s.take(j).contains('\n') {
                let w = choose|w: int| 0 <= w < j && s.take(j)[w] == '\n';
                assert(s[w] == '\n');
            }
        }
        lemma_map_lines_clean(s.skip(j + 1), f, clean);
        lemma_lines_clean_concat(f(s.take(j)), map_lines(s.skip(j + 1), f), clean);
        assert(f(s.take(j)) + seq!['\n'] + map_lines(s.skip(j + 1), f) =~= map_lines(s, f));
    }
}

/// The given lines joined with newlines, in order.
pub open spec fn join_lines(ls: Seq<Seq<char>>) -> Seq<char>
    decreases ls.len(),
{
    if ls.len() == 0 {
        Seq::empty()
    } else if ls.len() == 1 {
        ls[0]
    } else {
        join_lines(ls.drop_last()) + seq!['\n'] + ls.last()
    }
}

pub proof fn lemma_join_lines_take_one(ls: Seq<Seq<char>>)
    requires
        ls.len() >= 1,
    ensures
        join_lines(ls.take(1)) == ls[0],
{
    assert(ls.take(1).len() == 1);
    assert(ls.take(1)[0] == ls[0]);
}

pub proof fn lemma_join_lines_take_step(ls: Seq<Seq<char>>, k: int)
    requires
        1 <= k < ls.len(),
    ensures
        join_lines(ls.take(k + 1)) == join_lines(ls.take(k)) + seq!['\n'] + ls[k],
{
    assert(ls.take(k + 1).drop_last() =~= ls.take(k));
    assert(ls.take(k + 1).last() == ls[k]);
}

pub proof fn lemma_join_lines_cons(x: Seq<char>, ls: Seq<Seq<char>>)
    requires
        ls.len() >= 1,
    ensures
        join_lines(seq![x] + ls) == x + seq!['\n'] + join_lines(ls),
    decreases ls.len(),
{
    if ls.len() == 1 {
        assert((seq![x] + ls).drop_last() =~= seq![x]);
        assert((seq![x] + ls).last() == ls[0]);
        assert(join_lines(seq![x]) == x);
    } else {
        assert((seq![x] + ls).drop_last() =~= seq![x] + ls.drop_last());
        assert((seq![x] + ls).last() == ls.last());
        lemma_join_lines_cons(x, ls.drop_last());
        assert((x + seq!['\n'] + join_lines(ls.drop_last())) + seq!['\n'] + ls.last() =~= x
            + seq!['\n'] + (join_lines(ls.drop_last()) + seq!['\n'] + ls.last()));
    }
}

/// Joining newline-free clean lines gives a text whose every line is clean.
pub proof fn lemma_join_lines_clean(ls: Seq<Seq<char>>, clean: spec_fn(Seq<char>) -> bool)
    requires
        ls.len() >= 1,
        forall|i: int| 0 <= i < ls.len() ==> !(#[trigger] ls[i]).contains('\n'),
        forall|i: int| 0 <= i < ls.len() ==> clean(#[trigger] ls[i]),
    ensures
        lines_clean(join_lines(ls), clean),
    decreases ls.len(),
{
    if ls.len() == 1 {
        assert(clean(ls[0]));
    } else {
        lemma_join_lines_clean(ls.drop_last(), clean);
        lemma_lines_clean_concat(join_lines(ls.drop_last()), ls.last(), clean);
        assert(!ls.last().contains('\n'));
        assert(lines_clean(ls.last(), clean));
    }
}

/// Whether `hay` holds `needle` starting at position `i`, over characters.
pub fn matches_at(hay: &str, needle: &str, i: usize) -> (r: bool)
    requires
        hay@.len() <= usize::MAX,
        i + needle@.len() <= hay@.len(),
    ensures
        r == (hay@.subrange(i as int, i + needle@.len()) == needle@),
{
    let n = needle.unicode_len();
    let mut j: usize = 0;
    while j < n
        invariant
            n == needle@.len(),
            hay@.len() <= usize::MAX,
            i + n <= hay@.len(),
            j <= n,
            forall|k: int| 0 <= k < j ==> hay@[i + k] == needle@[k],
        decreases n - j,
    {
        if hay.get_char(i + j) != needle.get_char(j) {
            assert(hay@.subrange(i as int, i + needle@.len())[j as int] != needle@[j as int]);
            return false;
        }
        j = j + 1;
    }
    assert(hay@.subrange(i as int, i + needle@.len()) =~= needle@);
    true
}

} // verus!
