use bindprep::config::{select_target, ConfigError, FeatureSelection, Language, Nullability};
use bindprep::driver::build_plan;
use bindprep::headers::{first_candidate_with_header, platform_include_subdir};
use bindprep::reconcile::{reconcile_output, stale_outputs};

fn java_selection() -> FeatureSelection {
    FeatureSelection { java: true, cpp: false, null_annotations: false }
}

fn cpp_selection() -> FeatureSelection {
    FeatureSelection { java: false, cpp: true, null_annotations: false }
}

#[test]
fn java_target_configuration() {
    let cfg = select_target(&java_selection()).unwrap();
    assert!(matches!(cfg.language, Language::Java));
    assert!(matches!(cfg.nullability, Nullability::NoAnnotations));
    assert_eq!(cfg.namespace.as_str(), "com.ironcorelabs.sdk");
    let dir: Vec<&str> = cfg.output_dir.iter().map(|s| s.as_str()).collect();
    assert_eq!(dir, vec!["java", "com", "ironcorelabs", "sdk"]);
    assert_eq!(cfg.entry_module.as_str(), "ironoxide_jvm");
    assert!(cfg.reformat);
    assert!(cfg.remove_stale);
}

#[test]
fn java_target_with_null_annotations() {
    let sel = FeatureSelection { null_annotations: true, ..java_selection() };
    let cfg = select_target(&sel).unwrap();
    assert!(matches!(cfg.nullability, Nullability::Annotations));
}

#[test]
fn cpp_target_configuration() {
    let cfg = select_target(&cpp_selection()).unwrap();
    assert!(matches!(cfg.language, Language::Cpp));
    assert_eq!(cfg.namespace.as_str(), "sdk");
    let dir: Vec<&str> = cfg.output_dir.iter().map(|s| s.as_str()).collect();
    assert_eq!(dir, vec!["generated", "sdk"]);
    assert_eq!(cfg.entry_module.as_str(), "ironoxide_cpp");
    assert!(cfg.remove_stale);
}

#[test]
fn conflicting_targets_are_an_error() {
    let sel = FeatureSelection { java: true, cpp: true, null_annotations: false };
    assert_eq!(select_target(&sel).unwrap_err(), ConfigError::ConflictingTargets);
}

#[test]
fn no_target_is_an_error() {
    let sel = FeatureSelection { java: false, cpp: false, null_annotations: false };
    assert_eq!(select_target(&sel).unwrap_err(), ConfigError::NoTargetSelected);
}

#[test]
fn platform_subdirectory_from_target_triple() {
    assert_eq!(platform_include_subdir("x86_64-pc-windows-msvc"), "win32");
    assert_eq!(platform_include_subdir("aarch64-apple-darwin"), "darwin");
    assert_eq!(platform_include_subdir("x86_64-unknown-linux-gnu"), "linux");
    assert_eq!(platform_include_subdir("riscv64gc-unknown-freebsd"), "linux");
}

#[test]
fn header_search_takes_the_first_hit() {
    assert_eq!(first_candidate_with_header(&vec![false, true, true]), Some(1));
    assert_eq!(first_candidate_with_header(&vec![true]), Some(0));
}

#[test]
fn header_search_fails_when_no_candidate_has_it() {
    assert_eq!(first_candidate_with_header(&vec![false, false, false]), None);
    assert_eq!(first_candidate_with_header(&vec![]), None);
}

fn names(v: &[&str]) -> Vec<String> {
    v.iter().map(|s| s.to_string()).collect()
}

#[test]
fn stale_files_are_the_dropped_ones() {
    let previous = names(&["Old.java", "Kept.java"]);
    let generated = names(&["Kept.java", "New.java"]);
    assert_eq!(stale_outputs(&previous, &generated), names(&["Old.java"]));
}

#[test]
fn renaming_an_entity_drops_the_old_file() {
    // First generation produced Old.java; the entity was then renamed and
    // the second generation produced New.java.
    let existing = names(&["Old.java", "Notes.txt"]);
    let previous = names(&["Old.java"]);
    let generated = names(&["New.java"]);
    let after = reconcile_output(&existing, &previous, &generated);
    assert!(after.contains(&"New.java".to_string()));
    assert!(!after.contains(&"Old.java".to_string()));
    // A file this generator never produced survives.
    assert!(after.contains(&"Notes.txt".to_string()));
}

#[test]
fn unchanged_generation_removes_nothing() {
    let existing = names(&["A.java", "B.java"]);
    let previous = names(&["A.java", "B.java"]);
    let generated = names(&["A.java", "B.java"]);
    assert_eq!(stale_outputs(&previous, &generated), Vec::<String>::new());
    let after = reconcile_output(&existing, &previous, &generated);
    assert!(after.contains(&"A.java".to_string()));
    assert!(after.contains(&"B.java".to_string()));
}

#[test]
fn build_plan_expands_and_tracks_inputs() {
    let raw = "pre_build_generate_equality Foo;\nforeign_class Foo {}\n";
    let paths = names(&["src/lib.rs.in", "src/lib.rs"]);
    let plan = build_plan(raw, &java_selection(), paths.clone()).unwrap();
    assert!(plan.expanded_spec.contains("alias rustEq;"));
    assert!(!plan.expanded_spec.contains("pre_build_generate"));
    assert!(plan.expanded_spec.ends_with("foreign_class Foo {}\n"));
    assert_eq!(plan.rerun_inputs, paths);
    assert!(plan.target.remove_stale);
    assert_eq!(plan.rules.len(), 5);
}

#[test]
fn build_plan_for_the_systems_target() {
    let raw = "pre_build_generate_equals_and_hashcode Foo;\n";
    let plan = build_plan(raw, &cpp_selection(), vec![]).unwrap();
    assert!(matches!(plan.target.language, Language::Cpp));
    assert!(plan.expanded_spec.contains("inline bool operator==(const Foo"));
    assert!(!plan.expanded_spec.contains("hashCode"));
}

#[test]
fn build_plan_rejects_bad_selection() {
    let both = FeatureSelection { java: true, cpp: true, null_annotations: false };
    let neither = FeatureSelection { java: false, cpp: false, null_annotations: false };
    assert_eq!(build_plan("x", &both, vec![]).unwrap_err(), ConfigError::ConflictingTargets);
    assert_eq!(build_plan("x", &neither, vec![]).unwrap_err(), ConfigError::NoTargetSelected);
}
