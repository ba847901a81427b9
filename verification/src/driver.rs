//! The plan handed to the external binding generator.
//!
//! The driver gathers everything one generation run needs: the selected
//! target configuration, the expanded spec, the merged typemap rules, and
//! the change-tracking declarations for the raw spec files. It never talks
//! to the outside world itself; running the generator, timing it, and
//! reporting its diagnostics belong to the build wrapper around this
//! library.

use vstd::prelude::*;
use crate::config::{ConfigError, FeatureSelection, Nullability, TargetConfig, select_target};
use crate::directive::expand_text;
use crate::directive::expand_directives;
use crate::typemap::{TypemapRule, default_rules, registered_rule_set};

verus! {

/// One generation run, fully configured.
#[derive(Debug)]
pub struct GeneratorPlan {
    pub target: TargetConfig,
    pub rules: Vec<TypemapRule>,
    /// The spec text after directive expansion, the generator's input.
    pub expanded_spec: String,
    /// The raw spec files to declare to the build system's dependency
    /// tracker: a change to any of them must re-run expansion and
    /// generation.
    pub rerun_inputs: Vec<String>,
}

/// Build the plan for one generation run: select the target, expand the
/// directives for its dialect, register the conversion rules, and carry
/// the change-tracking inputs through.
///
/// A contradictory or empty feature selection fails before anything is
/// expanded, with the selector's error.
pub fn build_plan(raw_spec: &str, sel: &FeatureSelection, spec_paths: Vec<String>) -> (r: Result<
    GeneratorPlan,
    ConfigError,
>)
    ensures
        r is Ok <==> (sel.java != sel.cpp),
        sel.java && sel.cpp ==> (r matches Err(e) && e == ConfigError::ConflictingTargets),
        !sel.java && !sel.cpp ==> (r matches Err(e) && e == ConfigError::NoTargetSelected),
        r matches Ok(p) ==> {
            &&& sel.java ==> p.target.is_java_config(
                if sel.null_annotations {
                    Nullability::Annotations
                } else {
                    Nullability::NoAnnotations
                },
            )
            &&& sel.cpp ==> p.target.is_cpp_config()
            &&& p.expanded_spec@ == expand_text(raw_spec@, p.target.language)
            &&& registered_rule_set(p.rules@)
            &&& p.rerun_inputs@ == spec_paths@
            &&& p.target.remove_stale
        },
{
    let target = match select_target(sel) {
        Ok(t) => t,
        Err(e) => {
            return Err(e);
        },
    };
    let lang = target.language;
    let expanded_spec = expand_directives(raw_spec, lang);
    let rules = default_rules();
    Ok(GeneratorPlan { target, rules, expanded_spec, rerun_inputs: spec_paths })
}

} // verus!
