//! Selection of the foreign-language target and its conventions.
//!
//! A build targets exactly one foreign language, chosen once from the
//! build's feature selection. The choice fixes which typemap dialect is
//! active, the output directory layout, the name of the generated entry
//! module, and whether generated source is reformatted. A selection that
//! names both targets, or neither, is a configuration error: the build must
//! fail rather than silently pick one.

use vstd::prelude::*;

verus! {

/// The foreign language a build generates bindings for.
#[derive(Clone, Copy, PartialEq, Eq, Structural, Debug)]
pub enum Language {
    /// The managed object-oriented runtime.
    Java,
    /// The systems language.
    Cpp,
}

/// How the managed dialect writes nullability: with or without
/// null-annotations on foreign types.
#[derive(Clone, Copy, PartialEq, Eq, Structural, Debug)]
pub enum Nullability {
    NoAnnotations,
    Annotations,
}

/// The build-time feature selection, read once at the start of a build.
#[derive(Clone, Copy, PartialEq, Eq, Structural, Debug)]
pub struct FeatureSelection {
    pub java: bool,
    pub cpp: bool,
    /// Only meaningful for the managed target.
    pub null_annotations: bool,
}

/// Why a feature selection is invalid.
#[derive(Clone, Copy, PartialEq, Eq, Structural, Debug)]
pub enum ConfigError {
    /// Both mutually exclusive targets were enabled.
    ConflictingTargets,
    /// No target was enabled.
    NoTargetSelected,
}

/// The immutable record a valid selection fixes for the rest of the build.
#[derive(Debug)]
pub struct TargetConfig {
    pub language: Language,
    pub nullability: Nullability,
    /// The namespace or package the generated entry points live in.
    pub namespace: String,
    /// The output directory for generated foreign source, as path segments.
    pub output_dir: Vec<String>,
    /// The name of the generated entry module.
    pub entry_module: String,
    /// Whether generated foreign source is reformatted.
    pub reformat: bool,
    /// Stale generated files are always removed; see [`crate::reconcile`].
    pub remove_stale: bool,
}

impl TargetConfig {
    /// What a configuration for the managed target must look like: the
    /// language-idiomatic nested package path, the package identifier, and
    /// reformatting on.
    pub open spec fn is_java_config(self, nullability: Nullability) -> bool {
        &&& self.language is Java
        &&& self.nullability == nullability
        &&& self.namespace@ == "com.ironcorelabs.sdk"@
        &&& self.output_dir@.len() == 4
        &&& self.output_dir@[0]@ == "java"@
        &&& self.output_dir@[1]@ == "com"@
        &&& self.output_dir@[2]@ == "ironcorelabs"@
        &&& self.output_dir@[3]@ == "sdk"@
        &&& self.entry_module@ == "ironoxide_jvm"@
        &&& self.reformat
        &&& self.remove_stale
    }

    /// What a configuration for the systems target must look like: a flat
    /// generated-sources path and the short namespace.
    pub open spec fn is_cpp_config(self) -> bool {
        &&& self.language is Cpp
        &&& self.nullability is NoAnnotations
        &&& self.namespace@ == "sdk"@
        &&& self.output_dir@.len() == 2
        &&& self.output_dir@[0]@ == "generated"@
        &&& self.output_dir@[1]@ == "sdk"@
        &&& self.entry_module@ == "ironoxide_cpp"@
        &&& self.reformat
        &&& self.remove_stale
    }
}

/// Choose the target configuration from the feature selection.
///
/// Exactly one language feature must be enabled. Enabling both is a
/// configuration error, and so is enabling neither; no default is picked
/// silently.
pub fn select_target(sel: &FeatureSelection) -> (r: Result<TargetConfig, ConfigError>)
    ensures
        r is Ok <==> (sel.java != sel.cpp),
        sel.java && sel.cpp ==> r == Result::<TargetConfig, ConfigError>::Err(
            ConfigError::ConflictingTargets,
        ),
        !sel.java && !sel.cpp ==> r == Result::<TargetConfig, ConfigError>::Err(
            ConfigError::NoTargetSelected,
        ),
        sel.java && !sel.cpp ==> (r matches Ok(c) && c.is_java_config(
            if sel.null_annotations {
                Nullability::Annotations
            } else {
                Nullability::NoAnnotations
            },
        )),
        sel.cpp && !sel.java ==> (r matches Ok(c) && c.is_cpp_config()),
{
    if sel.java && sel.cpp {
        Err(ConfigError::ConflictingTargets)
    } else if sel.java {
        let mut output_dir: Vec<String> = Vec::new();
        output_dir.push(String::from_str("java"));
        output_dir.push(String::from_str("com"));
        output_dir.push(String::from_str("ironcorelabs"));
        output_dir.push(String::from_str("sdk"));
        Ok(
            TargetConfig {
                language: Language::Java,
                nullability: if sel.null_annotations {
                    Nullability::Annotations
                } else {
                    Nullability::NoAnnotations
                },
                namespace: String::from_str("com.ironcorelabs.sdk"),
                output_dir,
                entry_module: String::from_str("ironoxide_jvm"),
                reformat: true,
                remove_stale: true,
            },
        )
    } else if sel.cpp {
        let mut output_dir: Vec<String> = Vec::new();
        output_dir.push(String::from_str("generated"));
        output_dir.push(String::from_str("sdk"));
        Ok(
            TargetConfig {
                language: Language::Cpp,
                nullability: Nullability::NoAnnotations,
                namespace: String::from_str("sdk"),
                output_dir,
                entry_module: String::from_str("ironoxide_cpp"),
                reformat: true,
                remove_stale: true,
            },
        )
    } else {
        Err(ConfigError::NoTargetSelected)
    }
}

} // verus!
