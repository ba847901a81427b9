//! Expansion of shorthand directives in the interface spec.
//!
//! A directive is a single-line marker `<keyword> <TypeName>;` asking for a
//! capability — foreign-side equality, or equality together with a hash
//! code — to be synthesised for one exported value type. Expansion replaces
//! each directive line by the fully written-out binding declarations for
//! the active dialect and passes every other line through unchanged,
//! byte for byte.

use vstd::prelude::*;
use crate::config::Language;
use crate::text::{
    is_line_ws, join_lines, lemma_join_lines_clean, lemma_join_lines_cons,
    lemma_join_lines_take_one, lemma_join_lines_take_step, lemma_map_lines_clean,
    lemma_map_lines_concat, lemma_map_lines_id, lemma_trim_id, lemma_trim_range, lines_clean,
    map_lines, matches_at, trim,
};

verus! {

/// What a directive asks to have synthesised.
#[derive(Clone, Copy, PartialEq, Eq, Structural, Debug)]
pub enum Capability {
    /// A foreign-side equality protocol delegating to a native comparison.
    Equality,
    /// The same, plus a foreign-side hash code where the dialect has one.
    EqualityAndHash,
}

/// The marker keyword of each capability.
pub open spec fn keyword(cap: Capability) -> Seq<char> {
    match cap {
        Capability::Equality => "pre_build_generate_equality"@,
        Capability::EqualityAndHash => "pre_build_generate_equals_and_hashcode"@,
    }
}

pub open spec fn is_ident_start(c: char) -> bool {
    ('a' as u32 <= c as u32 && c as u32 <= 'z' as u32) || ('A' as u32 <= c as u32 && c as u32
        <= 'Z' as u32) || c == '_'
}

pub open spec fn is_ident_char(c: char) -> bool {
    is_ident_start(c) || ('0' as u32 <= c as u32 && c as u32 <= '9' as u32)
}

/// A directive references exactly one exported value type, by a plain
/// identifier.
pub open spec fn is_type_name(s: Seq<char>) -> bool {
    s.len() > 0 && is_ident_start(s[0]) && forall|i: int|
        0 <= i < s.len() ==> is_ident_char(#[trigger] s[i])
}

/// The type name a trimmed line references, when the line is the given
/// keyword, a space, a type name and a closing semicolon; nothing else is a
/// directive.
pub open spec fn directive_body(t: Seq<char>, kw: Seq<char>) -> Option<Seq<char>> {
    if t.len() >= kw.len() + 2 && t.take(kw.len() as int) == kw && t[kw.len() as int] == ' '
        && t.last() == ';' && is_type_name(t.subrange(kw.len() as int + 1, t.len() as int - 1)) {
        Some(t.subrange(kw.len() as int + 1, t.len() as int - 1))
    } else {
        None
    }
}

/// Parse one line: whitespace around the marker is allowed, and the longer
/// keyword is recognised first.
pub open spec fn parse_directive(l: Seq<char>) -> Option<(Capability, Seq<char>)> {
    let t = trim(l);
    if directive_body(t, keyword(Capability::EqualityAndHash)) is Some {
        Some(
            (
                Capability::EqualityAndHash,
                directive_body(t, keyword(Capability::EqualityAndHash))->0,
            ),
        )
    } else if directive_body(t, keyword(Capability::Equality)) is Some {
        Some((Capability::Equality, directive_body(t, keyword(Capability::Equality))->0))
    } else {
        None
    }
}

/// The hash-code export of the managed dialect.
pub open spec fn hash_method_line() -> Seq<char> {
    "method hash(&self) -> i32; alias hashCode;"@
}

/// The private comparison-method export, aliased to the foreign runtime's
/// conventional equality name.
pub open spec fn eq_method_line(name: Seq<char>) -> Seq<char> {
    "private method eq(&self, o: &"@ + name + ") -> bool; alias rustEq;"@
}

/// The managed dialect's object-equality protocol: type check, cast, and
/// delegation to the native comparison.
pub open spec fn java_equality_lines(name: Seq<char>) -> Seq<Seq<char>> {
    seq![
        eq_method_line(name),
        "foreign_code r#\""@,
        "public boolean equals(Object obj) {"@,
        "if (obj instanceof "@ + name + ") {"@,
        "final "@ + name + " other = ("@ + name + ") obj;"@,
        "return other.rustEq(this);"@,
        "}"@,
        "return false;"@,
        "}"@,
        "\"#;"@,
    ]
}

/// The systems dialect's free comparison operators over two wrapper
/// references; this dialect has no hash-code artifact.
pub open spec fn cpp_equality_lines(name: Seq<char>) -> Seq<Seq<char>> {
    seq![
        eq_method_line(name),
        "foreign_code r#\""@,
        "inline bool operator==(const "@ + name + " &lhs, const "@ + name + " &rhs) {"@,
        "return lhs.rustEq(rhs);"@,
        "}"@,
        "inline bool operator!=(const "@ + name + " &lhs, const "@ + name + " &rhs) {"@,
        "return !lhs.rustEq(rhs);"@,
        "}"@,
        "\"#;"@,
    ]
}

/// The declaration block a directive expands to, line by line, for the
/// active dialect.
pub open spec fn expansion_lines(cap: Capability, lang: Language, name: Seq<char>) -> Seq<
    Seq<char>,
> {
    match lang {
        Language::Java => match cap {
            Capability::Equality => java_equality_lines(name),
            Capability::EqualityAndHash => seq![hash_method_line()] + java_equality_lines(name),
        },
        Language::Cpp => cpp_equality_lines(name),
    }
}

/// The declaration block as text.
pub open spec fn expansion_text(cap: Capability, lang: Language, name: Seq<char>) -> Seq<char> {
    join_lines(expansion_lines(cap, lang, name))
}

/// What one line becomes: a directive line becomes its expansion block,
/// any other line stays itself.
pub open spec fn expand_line(l: Seq<char>, lang: Language) -> Seq<char> {
    match parse_directive(l) {
        Some((cap, name)) => expansion_text(cap, lang, name),
        None => l,
    }
}

/// The whole spec text with every directive line replaced by its expansion
/// block and all other text passed through unchanged.
pub open spec fn expand_text(s: Seq<char>, lang: Language) -> Seq<char> {
    map_lines(s, |l: Seq<char>| expand_line(l, lang))
}

/// No line of `s` is a directive.
pub open spec fn directive_free(s: Seq<char>) -> bool {
    lines_clean(s, |l: Seq<char>| parse_directive(l) is None)
}

/// Pass-through fidelity: a spec without a single directive expands to
/// itself, byte for byte.
pub proof fn lemma_expand_pass_through(s: Seq<char>, lang: Language)
    requires
        directive_free(s),
    ensures
        expand_text(s, lang) == s,
{
    let f = |l: Seq<char>| expand_line(l, lang);
    let cl = |l: Seq<char>| parse_directive(l) is None;
    assert forall|l: Seq<char>| !l.contains('\n') && #[trigger] cl(l) implies f(l) == l by {}
    lemma_map_lines_id(s, f, cl);
}

/// After one expansion no directive marker remains: every line of the
/// output, block lines included, parses as no directive.
pub proof fn lemma_expand_leaves_no_directive(s: Seq<char>, lang: Language)
    ensures
        directive_free(expand_text(s, lang)),
{
    let f = |l: Seq<char>| expand_line(l, lang);
    let cl = |l: Seq<char>| parse_directive(l) is None;
    assert forall|l: Seq<char>| !l.contains('\n') implies lines_clean(#[trigger] f(l), cl) by {
        if parse_directive(l) is Some {
            let (cap, name) = parse_directive(l)->0;
            assert(is_type_name(name));
            lemma_expansion_lines_ok(cap, lang, name);
            lemma_join_lines_clean(expansion_lines(cap, lang, name), cl);
        }
    }
    lemma_map_lines_clean(s, f, cl);
}

/// Directive idempotence: expanding an already-expanded spec changes
/// nothing, so an accidental second pass cannot corrupt the spec.
pub proof fn lemma_expand_idempotent(s: Seq<char>, lang: Language)
    ensures
        expand_text(expand_text(s, lang), lang) == expand_text(s, lang),
{
    lemma_expand_leaves_no_directive(s, lang);
    lemma_expand_pass_through(expand_text(s, lang), lang);
}

/// A type name holds only identifier characters, so no newline.
proof fn lemma_type_name_nl_free(name: Seq<char>)
    requires
        is_type_name(name),
    ensures
        !name.contains('\n'),
{
    if name.contains('\n') {
        let w = choose|w: int| 0 <= w < name.len() && name[w] == '\n';
        assert(is_ident_char(name[w]));
    }
}

proof fn lemma_concat_nl_free(a: Seq<char>, b: Seq<char>)
    requires
        !a.contains('\n'),
        !b.contains('\n'),
    ensures
        !(a + b).contains('\n'),
{
    if (a + b).contains('\n') {
        let w = choose|w: int| 0 <= w < (a + b).len() && (a + b)[w] == '\n';
        if w < a.len() {
            assert(a[w] == '\n');
        } else {
            assert(b[w - a.len()] == '\n');
        }
    }
}

/// A line that neither starts nor ends in whitespace and does not open
/// with the marker prefix is no directive. Both keywords start with `pre`,
/// and the shorter one plus its space and semicolon is 29 characters: a
/// shorter line cannot hold a directive at all.
proof fn lemma_guarded_line_clean(l: Seq<char>)
    requires
        l.len() > 0,
        !is_line_ws(l[0]),
        !is_line_ws(l[l.len() - 1]),
        l.len() < 29 || !(l[0] == 'p' && l[1] == 'r' && l[2] == 'e'),
    ensures
        parse_directive(l) is None,
{
    lemma_trim_id(l);
    reveal_strlit("pre_build_generate_equality");
    reveal_strlit("pre_build_generate_equals_and_hashcode");
    let kwe = keyword(Capability::Equality);
    let kwh = keyword(Capability::EqualityAndHash);
    assert(kwe.len() == 27);
    assert(kwh.len() == 38);
    if directive_body(l, kwh) is Some {
        assert(l.take(38)[0] == l[0] && l.take(38)[1] == l[1] && l.take(38)[2] == l[2]);
        assert(kwh[0] == 'p' && kwh[1] == 'r' && kwh[2] == 'e');
        assert(false);
    }
    if directive_body(l, kwe) is Some {
        assert(l.take(27)[0] == l[0] && l.take(27)[1] == l[1] && l.take(27)[2] == l[2]);
        assert(kwe[0] == 'p' && kwe[1] == 'r' && kwe[2] == 'e');
        assert(false);
    }
}

/// Every line of an expansion block is newline-free and itself no
/// directive, whatever well-formed type name was spliced in.
proof fn lemma_expansion_lines_ok(cap: Capability, lang: Language, name: Seq<char>)
    requires
        is_type_name(name),
    ensures
        expansion_lines(cap, lang, name).len() >= 1,
        forall|i: int|
            0 <= i < expansion_lines(cap, lang, name).len() ==> !(#[trigger] expansion_lines(
                cap,
                lang,
                name,
            )[i]).contains('\n'),
        forall|i: int|
            0 <= i < expansion_lines(cap, lang, name).len() ==> parse_directive(
                #[trigger] expansion_lines(cap, lang, name)[i],
            ) is None,
{
    lemma_type_name_nl_free(name);
    lemma_hash_method_line_ok();
    lemma_eq_method_line_ok(name);
    lemma_java_code_lines_ok(name);
    lemma_cpp_code_lines_ok(name);
    let ls = expansion_lines(cap, lang, name);
    match lang {
        Language::Java => match cap {
            Capability::Equality => {
                assert(ls =~= java_equality_lines(name));
            },
            Capability::EqualityAndHash => {
                assert(ls[0] == hash_method_line());
                assert(forall|i: int|
                    1 <= i < ls.len() ==> #[trigger] ls[i] == java_equality_lines(name)[i - 1]);
            },
        },
        Language::Cpp => {
            assert(ls =~= cpp_equality_lines(name));
        },
    }
}

proof fn lemma_hash_method_line_ok()
    ensures
        !hash_method_line().contains('\n'),
        parse_directive(hash_method_line()) is None,
{
    reveal_strlit("method hash(&self) -> i32; alias hashCode;");
    let l = hash_method_line();
    assert(l[0] == 'm');
    assert(l[l.len() - 1] == ';');
    assert(!l.contains('\n'));
    lemma_guarded_line_clean(l);
}

proof fn lemma_eq_method_line_ok(name: Seq<char>)
    requires
        is_type_name(name),
    ensures
        !eq_method_line(name).contains('\n'),
        parse_directive(eq_method_line(name)) is None,
{
    lemma_type_name_nl_free(name);
    reveal_strlit("private method eq(&self, o: &");
    reveal_strlit(") -> bool; alias rustEq;");
    let p = "private method eq(&self, o: &"@;
    let q = ") -> bool; alias rustEq;"@;
    let l = eq_method_line(name);
    assert(!p.contains('\n'));
    assert(!q.contains('\n'));
    lemma_concat_nl_free(p, name);
    lemma_concat_nl_free(p + name, q);
    assert(l[0] == p[0] && l[1] == p[1] && l[2] == p[2]);
    assert(p[0] == 'p' && p[1] == 'r' && p[2] == 'i');
    assert(l[l.len() - 1] == q[q.len() - 1]);
    assert(q[q.len() - 1] == ';');
    lemma_guarded_line_clean(l);
}

proof fn lemma_java_code_lines_ok(name: Seq<char>)
    requires
        is_type_name(name),
    ensures
        forall|i: int|
            0 <= i < java_equality_lines(name).len() ==> !(#[trigger] java_equality_lines(
                name,
            )[i]).contains('\n'),
        forall|i: int|
            0 <= i < java_equality_lines(name).len() ==> parse_directive(
                #[trigger] java_equality_lines(name)[i],
            ) is None,
{
    lemma_type_name_nl_free(name);
    lemma_eq_method_line_ok(name);
    let ls = java_equality_lines(name);
    reveal_strlit("foreign_code r#\"");
    reveal_strlit("public boolean equals(Object obj) {");
    reveal_strlit("if (obj instanceof ");
    reveal_strlit(") {");
    reveal_strlit("final ");
    reveal_strlit(" other = (");
    reveal_strlit(") obj;");
    reveal_strlit("return other.rustEq(this);");
    reveal_strlit("}");
    reveal_strlit("return false;");
    reveal_strlit("\"#;");
    let l1 = ls[1];
    assert(l1[0] == 'f' && l1[l1.len() - 1] == '"' && !l1.contains('\n'));
    lemma_guarded_line_clean(l1);
    let l2 = ls[2];
    assert(l2[0] == 'p' && l2[1] == 'u' && l2[l2.len() - 1] == '{' && !l2.contains('\n'));
    lemma_guarded_line_clean(l2);
    let l3 = ls[3];
    let p3 = "if (obj instanceof "@;
    let q3 = ") {"@;
    lemma_concat_nl_free(p3, name);
    lemma_concat_nl_free(p3 + name, q3);
    assert(l3[0] == p3[0] && p3[0] == 'i');
    assert(l3[l3.len() - 1] == q3[q3.len() - 1] && q3[q3.len() - 1] == '{');
    lemma_guarded_line_clean(l3);
    let l4 = ls[4];
    let p4 = "final "@;
    let m4 = " other = ("@;
    let q4 = ") obj;"@;
    lemma_concat_nl_free(p4, name);
    lemma_concat_nl_free(p4 + name, m4);
    lemma_concat_nl_free(p4 + name + m4, name);
    lemma_concat_nl_free(p4 + name + m4 + name, q4);
    assert(l4[0] == p4[0] && p4[0] == 'f');
    assert(l4[l4.len() - 1] == q4[q4.len() - 1] && q4[q4.len() - 1] == ';');
    lemma_guarded_line_clean(l4);
    let l5 = ls[5];
    assert(l5[0] == 'r' && l5[l5.len() - 1] == ';' && !l5.contains('\n'));
    lemma_guarded_line_clean(l5);
    let l6 = ls[6];
    assert(l6[0] == '}' && l6.len() == 1 && !l6.contains('\n'));
    lemma_guarded_line_clean(l6);
    let l7 = ls[7];
    assert(l7[0] == 'r' && l7[l7.len() - 1] == ';' && !l7.contains('\n'));
    lemma_guarded_line_clean(l7);
    let l9 = ls[9];
    assert(l9[0] == '"' && l9[l9.len() - 1] == ';' && !l9.contains('\n'));
    lemma_guarded_line_clean(l9);
}

proof fn lemma_cpp_code_lines_ok(name: Seq<char>)
    requires
        is_type_name(name),
    ensures
        forall|i: int|
            0 <= i < cpp_equality_lines(name).len() ==> !(#[trigger] cpp_equality_lines(
                name,
            )[i]).contains('\n'),
        forall|i: int|
            0 <= i < cpp_equality_lines(name).len() ==> parse_directive(
                #[trigger] cpp_equality_lines(name)[i],
            ) is None,
{
    lemma_type_name_nl_free(name);
    lemma_eq_method_line_ok(name);
    let ls = cpp_equality_lines(name);
    reveal_strlit("foreign_code r#\"");
    reveal_strlit("inline bool operator==(const ");
    reveal_strlit("inline bool operator!=(const ");
    reveal_strlit(" &lhs, const ");
    reveal_strlit(" &rhs) {");
    reveal_strlit("return lhs.rustEq(rhs);");
    reveal_strlit("return !lhs.rustEq(rhs);");
    reveal_strlit("}");
    reveal_strlit("\"#;");
    let l1 = ls[1];
    assert(l1[0] == 'f' && l1[l1.len() - 1] == '"' && !l1.contains('\n'));
    lemma_guarded_line_clean(l1);
    let p2 = "inline bool operator==(const "@;
    let p5 = "inline bool operator!=(const "@;
    let m = " &lhs, const "@;
    let q = " &rhs) {"@;
    let l2 = ls[2];
    lemma_concat_nl_free(p2, name);
    lemma_concat_nl_free(p2 + name, m);
    lemma_concat_nl_free(p2 + name + m, name);
    lemma_concat_nl_free(p2 + name + m + name, q);
    assert(l2[0] == p2[0] && p2[0] == 'i');
    assert(l2[l2.len() - 1] == q[q.len() - 1] && q[q.len() - 1] == '{');
    lemma_guarded_line_clean(l2);
    let l3 = ls[3];
    assert(l3[0] == 'r' && l3[l3.len() - 1] == ';' && !l3.contains('\n'));
    lemma_guarded_line_clean(l3);
    let l4 = ls[4];
    assert(l4[0] == '}' && l4.len() == 1 && !l4.contains('\n'));
    lemma_guarded_line_clean(l4);
    let l5 = ls[5];
    lemma_concat_nl_free(p5, name);
    lemma_concat_nl_free(p5 + name, m);
    lemma_concat_nl_free(p5 + name + m, name);
    lemma_concat_nl_free(p5 + name + m + name, q);
    assert(l5[0] == p5[0] && p5[0] == 'i');
    assert(l5[l5.len() - 1] == q[q.len() - 1]);
    lemma_guarded_line_clean(l5);
    let l6 = ls[6];
    assert(l6[0] == 'r' && l6[l6.len() - 1] == ';' && !l6.contains('\n'));
    lemma_guarded_line_clean(l6);
    let l8 = ls[8];
    assert(l8[0] == '"' && l8[l8.len() - 1] == ';' && !l8.contains('\n'));
    lemma_guarded_line_clean(l8);
}

fn ws_char(c: char) -> (r: bool)
    ensures
        r == is_line_ws(c),
{
    c == ' ' || c == '\t' || c == '\r'
}

fn ident_start_char(c: char) -> (r: bool)
    ensures
        r == is_ident_start(c),
{
    let u = c as u32;
    ('a' as u32 <= u && u <= 'z' as u32) || ('A' as u32 <= u && u <= 'Z' as u32) || c == '_'
}

fn ident_char(c: char) -> (r: bool)
    ensures
        r == is_ident_char(c),
{
    let u = c as u32;
    ident_start_char(c) || ('0' as u32 <= u && u <= '9' as u32)
}

/// Try one keyword against the trimmed span `[a, b)` of `line`.
#[verifier::loop_isolation(false)]
fn try_keyword<'a>(line: &'a str, a: usize, b: usize, kw: &str) -> (r: Option<&'a str>)
    requires
        line@.len() <= usize::MAX,
        a <= b <= line@.len(),
        trim(line@) == line@.subrange(a as int, b as int),
    ensures
        r matches Some(name) ==> directive_body(trim(line@), kw@) == Some(name@),
        r is None ==> directive_body(trim(line@), kw@) is None,
{
    let ghost t = trim(line@);
    let kwlen = kw.unicode_len();
    if kwlen > b - a || b - a - kwlen < 2 {
        return None;
    }
    if !matches_at(line, kw, a) {
        assert(t.take(kw@.len() as int) =~= line@.subrange(a as int, a + kw@.len()));
        return None;
    }
    assert(t.take(kw@.len() as int) =~= line@.subrange(a as int, a + kw@.len()));
    if line.get_char(a + kwlen) != ' ' {
        assert(t[kw@.len() as int] == line@[a + kw@.len()]);
        return None;
    }
    if line.get_char(b - 1) != ';' {
        assert(t.last() == line@[b - 1]);
        return None;
    }
    let ghost nm = t.subrange(kw@.len() as int + 1, t.len() as int - 1);
    let lo = a + kwlen + 1;
    let hi = b - 1;
    assert(nm =~= line@.subrange(lo as int, hi as int));
    if lo == hi {
        assert(nm.len() == 0);
        return None;
    }
    if !ident_start_char(line.get_char(lo)) {
        assert(nm[0] == line@[lo as int]);
        return None;
    }
    let mut k = lo;
    while k < hi
        invariant
            lo <= k <= hi,
            hi <= line@.len() <= usize::MAX,
            nm == line@.subrange(lo as int, hi as int),
            forall|j: int| lo <= j < k ==> is_ident_char(line@[j]),
        decreases hi - k,
    {
        if !ident_char(line.get_char(k)) {
            assert(nm[k - lo] == line@[k as int]);
            assert(!is_ident_char(nm[k - lo]));
            assert(!is_type_name(nm));
            return None;
        }
        k = k + 1;
    }
    assert forall|j: int| 0 <= j < nm.len() implies is_ident_char(#[trigger] nm[j]) by {
        assert(nm[j] == line@[lo + j]);
    }
    assert(nm[0] == line@[lo as int]);
    let name = line.substring_char(lo, hi);
    assert(name@ =~= nm);
    Some(name)
}

/// Recognise a directive line and hand back its capability and type name;
/// any other line is left alone.
fn classify_line<'a>(line: &'a str) -> (r: Option<(Capability, &'a str)>)
    ensures
        r matches Some(p) ==> parse_directive(line@) == Some((p.0, p.1@)),
        r is None ==> parse_directive(line@) is None,
{
    let n = line.unicode_len();
    let mut a: usize = 0;
    while a < n && ws_char(line.get_char(a))
        invariant
            a <= n == line@.len(),
            forall|k: int| 0 <= k < a ==> is_line_ws(line@[k]),
        decreases n - a,
    {
        a = a + 1;
    }
    let mut b: usize = n;
    while b > a && ws_char(line.get_char(b - 1))
        invariant
            a <= b <= n == line@.len(),
            forall|k: int| b <= k < n ==> is_line_ws(line@[k]),
        decreases b,
    {
        b = b - 1;
    }
    proof {
        lemma_trim_range(line@, a as int, b as int);
    }
    match try_keyword(line, a, b, "pre_build_generate_equals_and_hashcode") {
        Some(name) => Some((Capability::EqualityAndHash, name)),
        None => match try_keyword(line, a, b, "pre_build_generate_equality") {
            Some(name) => Some((Capability::Equality, name)),
            None => None,
        },
    }
}

/// Append `pre`, the type name, then `post`.
fn push_wrapped(out: &mut String, pre: &str, name: &str, post: &str)
    ensures
        final(out)@ == old(out)@ + (pre@ + name@ + post@),
{
    out.append(pre);
    out.append(name);
    out.append(post);
    assert(out@ =~= old(out)@ + (pre@ + name@ + post@));
}

/// Append `p1`, the type name, `p2`, the type name again, then `p3`.
fn push_wrapped_twice(out: &mut String, p1: &str, name: &str, p2: &str, p3: &str)
    ensures
        final(out)@ == old(out)@ + (p1@ + name@ + p2@ + name@ + p3@),
{
    out.append(p1);
    out.append(name);
    out.append(p2);
    out.append(name);
    out.append(p3);
    assert(out@ =~= old(out)@ + (p1@ + name@ + p2@ + name@ + p3@));
}

/// Append one more block line after a newline.
///
/// The ghost bookkeeping steps the emitted text from the first `k` block
/// lines to the first `k + 1`.
proof fn lemma_block_step(ls: Seq<Seq<char>>, k: int, base: Seq<char>, cur: Seq<char>)
    requires
        1 <= k < ls.len(),
        cur == base + join_lines(ls.take(k)) + "\n"@ + ls[k],
    ensures
        cur == base + join_lines(ls.take(k + 1)),
{
    reveal_strlit("\n");
    assert("\n"@ =~= seq!['\n']);
    lemma_join_lines_take_step(ls, k);
    assert(base + join_lines(ls.take(k)) + "\n"@ + ls[k] =~= base + (join_lines(ls.take(k))
        + seq!['\n'] + ls[k]));
}

/// Append the managed dialect's equality block.
fn push_java_equality(out: &mut String, name: &str)
    ensures
        final(out)@ == old(out)@ + join_lines(java_equality_lines(name@)),
{
    let ghost ls = java_equality_lines(name@);
    let ghost base = out@;
    push_wrapped(out, "private method eq(&self, o: &", name, ") -> bool; alias rustEq;");
    proof {
        lemma_join_lines_take_one(ls);
        assert(out@ == base + join_lines(ls.take(1)));
    }
    out.append("\n");
    out.append("foreign_code r#\"");
    proof {
        lemma_block_step(ls, 1, base, out@);
    }
    out.append("\n");
    out.append("public boolean equals(Object obj) {");
    proof {
        lemma_block_step(ls, 2, base, out@);
    }
    out.append("\n");
    push_wrapped(out, "if (obj instanceof ", name, ") {");
    proof {
        lemma_block_step(ls, 3, base, out@);
    }
    out.append("\n");
    push_wrapped_twice(out, "final ", name, " other = (", ") obj;");
    proof {
        lemma_block_step(ls, 4, base, out@);
    }
    out.append("\n");
    out.append("return other.rustEq(this);");
    proof {
        lemma_block_step(ls, 5, base, out@);
    }
    out.append("\n");
    out.append("}");
    proof {
        lemma_block_step(ls, 6, base, out@);
    }
    out.append("\n");
    out.append("return false;");
    proof {
        lemma_block_step(ls, 7, base, out@);
    }
    out.append("\n");
    out.append("}");
    proof {
        lemma_block_step(ls, 8, base, out@);
    }
    out.append("\n");
    out.append("\"#;");
    proof {
        lemma_block_step(ls, 9, base, out@);
        assert(ls.take(10) =~= ls);
    }
}

/// Append the systems dialect's comparison-operator block.
fn push_cpp_equality(out: &mut String, name: &str)
    ensures
        final(out)@ == old(out)@ + join_lines(cpp_equality_lines(name@)),
{
    let ghost ls = cpp_equality_lines(name@);
    let ghost base = out@;
    push_wrapped(out, "private method eq(&self, o: &", name, ") -> bool; alias rustEq;");
    proof {
        lemma_join_lines_take_one(ls);
        assert(out@ == base + join_lines(ls.take(1)));
    }
    out.append("\n");
    out.append("foreign_code r#\"");
    proof {
        lemma_block_step(ls, 1, base, out@);
    }
    out.append("\n");
    push_wrapped_twice(out, "inline bool operator==(const ", name, " &lhs, const ", " &rhs) {");
    proof {
        lemma_block_step(ls, 2, base, out@);
    }
    out.append("\n");
    out.append("return lhs.rustEq(rhs);");
    proof {
        lemma_block_step(ls, 3, base, out@);
    }
    out.append("\n");
    out.append("}");
    proof {
        lemma_block_step(ls, 4, base, out@);
    }
    out.append("\n");
    push_wrapped_twice(out, "inline bool operator!=(const ", name, " &lhs, const ", " &rhs) {");
    proof {
        lemma_block_step(ls, 5, base, out@);
    }
    out.append("\n");
    out.append("return !lhs.rustEq(rhs);");
    proof {
        lemma_block_step(ls, 6, base, out@);
    }
    out.append("\n");
    out.append("}");
    proof {
        lemma_block_step(ls, 7, base, out@);
    }
    out.append("\n");
    out.append("\"#;");
    proof {
        lemma_block_step(ls, 8, base, out@);
        assert(ls.take(9) =~= ls);
    }
}

/// Append the whole expansion block for one directive.
fn push_expansion(out: &mut String, cap: Capability, lang: Language, name: &str)
    ensures
        final(out)@ == old(out)@ + expansion_text(cap, lang, name@),
{
    match lang {
        Language::Java => {
            match cap {
                Capability::Equality => {
                    push_java_equality(out, name);
                },
                Capability::EqualityAndHash => {
                    let ghost base = out@;
                    out.append("method hash(&self) -> i32; alias hashCode;");
                    out.append("\n");
                    push_java_equality(out, name);
                    proof {
                        reveal_strlit("\n");
                        assert("\n"@ =~= seq!['\n']);
                        lemma_join_lines_cons(hash_method_line(), java_equality_lines(name@));
                        assert(out@ =~= base + (hash_method_line() + seq!['\n'] + join_lines(
                            java_equality_lines(name@),
                        )));
                    }
                },
            }
        },
        Language::Cpp => {
            push_cpp_equality(out, name);
        },
    }
}

/// Expand every directive in the spec text for the active dialect; all
/// other text passes through unchanged, byte for byte.
#[verifier::loop_isolation(false)]
pub fn expand_directives(input: &str, lang: Language) -> (out: String)
    ensures
        out@ == expand_text(input@, lang),
{
    let ghost f = |l: Seq<char>| expand_line(l, lang);
    let n = input.unicode_len();
    let mut out = String::new();
    let mut i: usize = 0;
    let mut done = false;
    proof {
        assert(input@.skip(0) =~= input@);
        assert(out@ + map_lines(input@, f) =~= map_lines(input@, f));
    }
    while !done
        invariant
            i <= n,
            !done ==> map_lines(input@, f) == out@ + map_lines(input@.skip(i as int), f),
            done ==> out@ == map_lines(input@, f),
        decreases n - i + (if done {
            0int
        } else {
            1int
        }),
    {
        let mut j: usize = i;
        while j < n && input.get_char(j) != '\n'
            invariant
                i <= j <= n,
                forall|k: int| i <= k < j ==> input@[k] != '\n',
            decreases n - j,
        {
            j = j + 1;
        }
        let ghost lineview = input@.subrange(i as int, j as int);
        proof {
            assert(!lineview.contains('\n')) by {
                if lineview.contains('\n') {
                    let w = choose|w: int| 0 <= w < lineview.len() && lineview[w] == '\n';
                    assert(input@[i + w] == '\n');
                }
            }
        }
        let line = input.substring_char(i, j);
        assert(line@ == lineview);
        let ghost out_before = out@;
        match classify_line(line) {
            Some((cap, name)) => {
                push_expansion(&mut out, cap, lang, name);
                assert(out@ == out_before + expand_line(lineview, lang));
            },
            None => {
                out.append(line);
                assert(out@ == out_before + expand_line(lineview, lang));
            },
        }
        if j < n {
            out.append("\n");
            proof {
                reveal_strlit("\n");
                assert("\n"@ =~= seq!['\n']);
                assert(input@.skip(i as int) =~= lineview + seq!['\n'] + input@.skip(
                    j as int + 1,
                ));
                lemma_map_lines_concat(lineview, input@.skip(j as int + 1), f);
                assert(map_lines(lineview, f) == f(lineview));
                assert(out@ =~= out_before + (f(lineview) + seq!['\n']));
                assert(out_before + (f(lineview) + seq!['\n']) + map_lines(input@.skip(
                    j as int + 1,
                ), f) =~= out_before + (f(lineview) + seq!['\n'] + map_lines(input@.skip(
                    j as int + 1,
                ), f)));
            }
            i = j + 1;
        } else {
            proof {
                assert(input@.skip(i as int) == lineview);
                assert(map_lines(lineview, f) == f(lineview));
            }
            i = j;
            done = true;
        }
    }
    proof {
        assert(out@ == map_lines(input@, f));
    }
    out
}

} // verus!
