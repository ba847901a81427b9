//! The registry of per-type conversion rules.
//!
//! Every native value type that needs a non-default foreign representation
//! has a rule naming the foreign-side type for each dialect and the
//! direction the conversion runs in. For any native type the active dialect
//! must resolve to exactly one rule: a missing or an ambiguous rule is a
//! configuration error reported before generation, never a silent choice.

use vstd::prelude::*;
use crate::config::Nullability;

verus! {

/// Which way a rule converts.
#[derive(Clone, Copy, PartialEq, Eq, Structural, Debug)]
pub enum Direction {
    NativeToForeign,
    ForeignToNative,
    Both,
}

/// One conversion rule: the native type it applies to, the foreign-side
/// type name in the plain and in the null-annotated dialect, and the
/// direction. The conversion procedure itself is the verified function the
/// rule stands for; the registry carries its declarative envelope.
#[derive(Debug)]
pub struct TypemapRule {
    pub native_type: String,
    pub foreign_type_default: String,
    pub foreign_type_nullable: String,
    pub direction: Direction,
}

impl TypemapRule {
    /// The foreign-side type name the given dialect declares.
    pub fn foreign_type(&self, nullability: Nullability) -> (r: &String)
        ensures
            nullability is Annotations ==> r == &self.foreign_type_nullable,
            nullability is NoAnnotations ==> r == &self.foreign_type_default,
    {
        match nullability {
            Nullability::Annotations => &self.foreign_type_nullable,
            Nullability::NoAnnotations => &self.foreign_type_default,
        }
    }
}

/// Why a native type failed to resolve.
#[derive(Clone, Copy, PartialEq, Eq, Structural, Debug)]
pub enum ResolveError {
    /// No rule covers the type.
    Missing,
    /// More than one rule covers the type.
    Ambiguous,
}

/// How many rules of `rules` cover the native type `name`.
pub open spec fn match_count(rules: Seq<TypemapRule>, name: Seq<char>) -> int
    decreases rules.len(),
{
    if rules.len() == 0 {
        0
    } else {
        match_count(rules.drop_last(), name) + if rules.last().native_type@ == name {
            1int
        } else {
            0int
        }
    }
}

proof fn lemma_match_count_take_step(rules: Seq<TypemapRule>, name: Seq<char>, i: int)
    requires
        0 <= i < rules.len(),
    ensures
        match_count(rules.take(i + 1), name) == match_count(rules.take(i), name) + if rules[
            i
        ].native_type@ == name {
            1int
        } else {
            0int
        },
{
    assert(rules.take(i + 1).drop_last() =~= rules.take(i));
    assert(rules.take(i + 1).last() == rules[i]);
}


/// Find the one rule that covers `name`, or say why there is none.
///
/// `Ok` comes back exactly when one rule matches, and it is that rule's
/// index; no match is `Missing`, and two or more are `Ambiguous` — the
/// registry never picks among duplicates.
pub fn resolve(rules: &Vec<TypemapRule>, name: &String) -> (r: Result<usize, ResolveError>)
    ensures
        r matches Ok(i) ==> i < rules@.len() && rules@[i as int].native_type@ == name@
            && match_count(rules@, name@) == 1,
        r is Ok <==> match_count(rules@, name@) == 1,
        r == Result::<usize, ResolveError>::Err(ResolveError::Missing) <==> match_count(
            rules@,
            name@,
        ) == 0,
        r == Result::<usize, ResolveError>::Err(ResolveError::Ambiguous) <==> match_count(
            rules@,
            name@,
        ) >= 2,
{
    let mut found: Option<usize> = None;
    let mut i: usize = 0;
    assert(rules@.take(0) =~= Seq::<TypemapRule>::empty());
    while i < rules.len()
        invariant
            i <= rules@.len(),
            found is None ==> match_count(rules@.take(i as int), name@) == 0,
            found matches Some(k) ==> k < i && rules@[k as int].native_type@ == name@
                && match_count(rules@.take(i as int), name@) == 1,
        decreases rules@.len() - i,
    {
        proof {
            lemma_match_count_take_step(rules@, name@, i as int);
        }
        if rules[i].native_type == *name {
            if found.is_some() {
                proof {
                    lemma_match_count_remainder(rules@, name@, i + 1);
                }
                return Err(ResolveError::Ambiguous);
            }
            found = Some(i);
        }
        i = i + 1;
    }
    assert(rules@.take(rules@.len() as int) =~= rules@);
    match found {
        Some(k) => Ok(k),
        None => Err(ResolveError::Missing),
    }
}

/// Counting over a prefix never counts more than the whole.
proof fn lemma_match_count_remainder(rules: Seq<TypemapRule>, name: Seq<char>, i: int)
    requires
        0 <= i <= rules.len(),
    ensures
        match_count(rules, name) >= match_count(rules.take(i), name),
    decreases rules.len() - i,
{
    if i < rules.len() {
        lemma_match_count_take_step(rules, name, i);
        lemma_match_count_remainder(rules, name, i + 1);
        assert(rules.take(rules.len() as int) =~= rules);
    } else {
        assert(rules.take(i) =~= rules);
    }
}

/// What the pipeline's registered rule set must look like: one rule for
/// each native type that needs a non-default foreign representation — the
/// two timestamp kinds, the optional timestamp, the byte buffer, and the
/// array of foreign handles — each resolvable without ambiguity.
pub open spec fn registered_rule_set(rules: Seq<TypemapRule>) -> bool {
    &&& rules.len() == 5
    &&& match_count(rules, "OffsetTimestamp"@) == 1
    &&& match_count(rules, "UtcTimestamp"@) == 1
    &&& match_count(rules, "OptionOffsetTimestamp"@) == 1
    &&& match_count(rules, "ByteBuffer"@) == 1
    &&& match_count(rules, "ForeignHandleArray"@) == 1
    &&& rules[0].native_type@ == "OffsetTimestamp"@
    &&& rules[0].direction is NativeToForeign
    &&& rules[1].native_type@ == "UtcTimestamp"@
    &&& rules[1].direction is NativeToForeign
    &&& rules[2].native_type@ == "OptionOffsetTimestamp"@
    &&& rules[2].direction is NativeToForeign
    &&& rules[3].native_type@ == "ByteBuffer"@
    &&& rules[3].direction is Both
    &&& rules[4].native_type@ == "ForeignHandleArray"@
    &&& rules[4].direction is ForeignToNative
}

/// The declarative rule set the pipeline registers.
pub fn default_rules() -> (rules: Vec<TypemapRule>)
    ensures
        registered_rule_set(rules@),
{
    let mut rules: Vec<TypemapRule> = Vec::new();
    rules.push(
        TypemapRule {
            native_type: String::from_str("OffsetTimestamp"),
            foreign_type_default: String::from_str("java.util.Date"),
            foreign_type_nullable: String::from_str("@NonNull java.util.Date"),
            direction: Direction::NativeToForeign,
        },
    );
    rules.push(
        TypemapRule {
            native_type: String::from_str("UtcTimestamp"),
            foreign_type_default: String::from_str("java.util.Date"),
            foreign_type_nullable: String::from_str("@NonNull java.util.Date"),
            direction: Direction::NativeToForeign,
        },
    );
    rules.push(
        TypemapRule {
            native_type: String::from_str("OptionOffsetTimestamp"),
            foreign_type_default: String::from_str("java.util.Optional<java.util.Date>"),
            foreign_type_nullable: String::from_str("java.util.Optional<java.util.Date>"),
            direction: Direction::NativeToForeign,
        },
    );
    rules.push(
        TypemapRule {
            native_type: String::from_str("ByteBuffer"),
            foreign_type_default: String::from_str("byte []"),
            foreign_type_nullable: String::from_str("@NonNull byte []"),
            direction: Direction::Both,
        },
    );
    rules.push(
        TypemapRule {
            native_type: String::from_str("ForeignHandleArray"),
            foreign_type_default: String::from_str("ForeignHandle []"),
            foreign_type_nullable: String::from_str("@NonNull ForeignHandle []"),
            direction: Direction::ForeignToNative,
        },
    );
    proof {
        lemma_distinct_count(rules@);
    }
    rules
}

/// No entry matches: the count is zero.
proof fn lemma_match_count_zero(rules: Seq<TypemapRule>, name: Seq<char>)
    requires
        forall|j: int| 0 <= j < rules.len() ==> (#[trigger] rules[j]).native_type@ != name,
    ensures
        match_count(rules, name) == 0,
    decreases rules.len(),
{
    if rules.len() > 0 {
        lemma_match_count_zero(rules.drop_last(), name);
    }
}

/// Exactly the entry at `i` matches: the count is one.
proof fn lemma_match_count_unique(rules: Seq<TypemapRule>, name: Seq<char>, i: int)
    requires
        0 <= i < rules.len(),
        forall|j: int|
            0 <= j < rules.len() ==> ((#[trigger] rules[j]).native_type@ == name <==> j == i),
    ensures
        match_count(rules, name) == 1,
    decreases rules.len(),
{
    if i == rules.len() - 1 {
        lemma_match_count_zero(rules.drop_last(), name);
    } else {
        lemma_match_count_unique(rules.drop_last(), name, i);
    }
}

/// Each of the five registered names matches exactly its own entry.
proof fn lemma_distinct_count(rules: Seq<TypemapRule>)
    requires
        rules.len() == 5,
        rules[0].native_type@ == "OffsetTimestamp"@,
        rules[1].native_type@ == "UtcTimestamp"@,
        rules[2].native_type@ == "OptionOffsetTimestamp"@,
        rules[3].native_type@ == "ByteBuffer"@,
        rules[4].native_type@ == "ForeignHandleArray"@,
    ensures
        match_count(rules, "OffsetTimestamp"@) == 1,
        match_count(rules, "UtcTimestamp"@) == 1,
        match_count(rules, "OptionOffsetTimestamp"@) == 1,
        match_count(rules, "ByteBuffer"@) == 1,
        match_count(rules, "ForeignHandleArray"@) == 1,
{
    reveal_strlit("OffsetTimestamp");
    reveal_strlit("UtcTimestamp");
    reveal_strlit("OptionOffsetTimestamp");
    reveal_strlit("ByteBuffer");
    reveal_strlit("ForeignHandleArray");
    assert("OffsetTimestamp"@.len() == 15);
    assert("UtcTimestamp"@.len() == 12);
    assert("OptionOffsetTimestamp"@.len() == 21);
    assert("ByteBuffer"@.len() == 10);
    assert("ForeignHandleArray"@.len() == 18);
    lemma_match_count_unique(rules, "OffsetTimestamp"@, 0);
    lemma_match_count_unique(rules, "UtcTimestamp"@, 1);
    lemma_match_count_unique(rules, "OptionOffsetTimestamp"@, 2);
    lemma_match_count_unique(rules, "ByteBuffer"@, 3);
    lemma_match_count_unique(rules, "ForeignHandleArray"@, 4);
}

} // verus!
