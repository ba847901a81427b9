use bindprep::config::Language;
use bindprep::directive::expand_directives;

const EQ_DIRECTIVE: &str = "pre_build_generate_equality Foo;";
const HASH_DIRECTIVE: &str = "pre_build_generate_equals_and_hashcode Bar;";

fn count(haystack: &str, needle: &str) -> usize {
    haystack.matches(needle).count()
}

#[test]
fn zero_directives_pass_through_unchanged() {
    let spec = "foreign_class Foo {\n    fn get(&self) -> u8;\n}\n";
    assert_eq!(expand_directives(spec, Language::Java), spec);
    assert_eq!(expand_directives(spec, Language::Cpp), spec);
}

#[test]
fn empty_spec_passes_through() {
    assert_eq!(expand_directives("", Language::Java), "");
}

#[test]
fn equality_directive_java_exact_output() {
    let out = expand_directives(EQ_DIRECTIVE, Language::Java);
    let expected = "private method eq(&self, o: &Foo) -> bool; alias rustEq;\n\
        foreign_code r#\"\n\
        public boolean equals(Object obj) {\n\
        if (obj instanceof Foo) {\n\
        final Foo other = (Foo) obj;\n\
        return other.rustEq(this);\n\
        }\n\
        return false;\n\
        }\n\
        \"#;";
    assert_eq!(out, expected);
}

#[test]
fn equality_directive_java_shape() {
    let out = expand_directives(EQ_DIRECTIVE, Language::Java);
    // Exactly one private comparison-method export under the runtime's
    // equality-override alias, and one foreign-code block whose type check
    // references Foo.
    assert_eq!(count(&out, "alias rustEq;"), 1);
    assert_eq!(count(&out, "private method eq(&self, o: &Foo)"), 1);
    assert_eq!(count(&out, "foreign_code"), 1);
    assert_eq!(count(&out, "if (obj instanceof Foo)"), 1);
    assert_eq!(count(&out, "pre_build_generate"), 0);
}

#[test]
fn hash_directive_java_has_hash_and_equality() {
    let out = expand_directives(HASH_DIRECTIVE, Language::Java);
    assert_eq!(count(&out, "alias hashCode;"), 1);
    assert_eq!(count(&out, "method hash(&self) -> i32;"), 1);
    assert_eq!(count(&out, "alias rustEq;"), 1);
    assert_eq!(count(&out, "if (obj instanceof Bar)"), 1);
    assert_eq!(count(&out, "pre_build_generate"), 0);
}

#[test]
fn hash_directive_cpp_has_operators_and_no_hash() {
    let out = expand_directives(HASH_DIRECTIVE, Language::Cpp);
    assert_eq!(count(&out, "hashCode"), 0);
    assert_eq!(count(&out, "hash("), 0);
    assert_eq!(count(&out, "inline bool operator==(const Bar &lhs, const Bar &rhs)"), 1);
    assert_eq!(count(&out, "inline bool operator!=(const Bar &lhs, const Bar &rhs)"), 1);
    assert_eq!(count(&out, "alias rustEq;"), 1);
    assert_eq!(count(&out, "pre_build_generate"), 0);
}

#[test]
fn equality_directive_cpp_exact_output() {
    let out = expand_directives(EQ_DIRECTIVE, Language::Cpp);
    let expected = "private method eq(&self, o: &Foo) -> bool; alias rustEq;\n\
        foreign_code r#\"\n\
        inline bool operator==(const Foo &lhs, const Foo &rhs) {\n\
        return lhs.rustEq(rhs);\n\
        }\n\
        inline bool operator!=(const Foo &lhs, const Foo &rhs) {\n\
        return !lhs.rustEq(rhs);\n\
        }\n\
        \"#;";
    assert_eq!(out, expected);
}

#[test]
fn expansion_is_idempotent() {
    let spec = format!(
        "foreign_class Foo {{\n{}\n}}\nplain line\n{}\n",
        EQ_DIRECTIVE, HASH_DIRECTIVE
    );
    for lang in [Language::Java, Language::Cpp] {
        let once = expand_directives(&spec, lang);
        let twice = expand_directives(&once, lang);
        assert_eq!(twice, once);
    }
}

#[test]
fn surrounding_text_is_kept_byte_for_byte() {
    let spec = format!("before {{\n  {}\t\nafter }}\n", EQ_DIRECTIVE);
    let out = expand_directives(&spec, Language::Java);
    assert!(out.starts_with("before {\n"));
    assert!(out.ends_with("\nafter }\n"));
    assert_eq!(count(&out, "pre_build_generate"), 0);
    assert_eq!(count(&out, "alias rustEq;"), 1);
}

#[test]
fn directive_with_windows_line_ending_is_recognised() {
    let spec = "pre_build_generate_equality Foo;\r\nrest\r\n";
    let out = expand_directives(spec, Language::Java);
    assert_eq!(count(&out, "alias rustEq;"), 1);
    assert_eq!(count(&out, "pre_build_generate"), 0);
    assert!(out.ends_with("rest\r\n"));
}

#[test]
fn malformed_directive_lines_pass_through() {
    // No trailing semicolon, a target that is no identifier, an empty
    // target: none of these is a directive; the generator will reject them
    // later with its own diagnostic.
    for bad in [
        "pre_build_generate_equality Foo",
        "pre_build_generate_equality Foo Bar;",
        "pre_build_generate_equality ;",
        "pre_build_generate_equality;",
        "pre_build_generate_equalityFoo;",
    ] {
        assert_eq!(expand_directives(bad, Language::Java), bad);
    }
}

#[test]
fn directive_must_fill_its_line() {
    // The marker is recognised only as a whole line (up to surrounding
    // whitespace), never as a substring of a longer line.
    let spec = "let x = \"pre_build_generate_equality Foo;\";";
    assert_eq!(expand_directives(spec, Language::Java), spec);
}

#[test]
fn indented_directive_is_recognised() {
    let spec = "   \tpre_build_generate_equality Foo;   ";
    let out = expand_directives(spec, Language::Java);
    assert_eq!(count(&out, "alias rustEq;"), 1);
    assert_eq!(count(&out, "pre_build_generate"), 0);
}

#[test]
fn two_directives_expand_independently() {
    let spec = format!("{}\n{}", EQ_DIRECTIVE, "pre_build_generate_equality Baz;");
    let out = expand_directives(&spec, Language::Java);
    assert_eq!(count(&out, "alias rustEq;"), 2);
    assert_eq!(count(&out, "if (obj instanceof Foo)"), 1);
    assert_eq!(count(&out, "if (obj instanceof Baz)"), 1);
}
