//! The classifier: a pure, total map from a path's text to a cache kind.
//! Matching is case-insensitive substring matching against a fixed table of
//! markers, tested in a fixed priority order; the first match wins.
use vstd::prelude::*;

use crate::cache_entry::CacheKind;
use crate::text::{contains_lower, lower_str_chars, contains_chars, to_chars};

verus! {

/// A JavaScript build or dependency cache marker occurs in the path.
pub open spec fn has_js_marker(p: Seq<char>) -> bool {
    contains_lower(p, "node_modules"@)
        || contains_lower(p, ".next"@)
        || contains_lower(p, ".nuxt"@)
        || contains_lower(p, ".vite"@)
        || contains_lower(p, ".turbo"@)
        || contains_lower(p, ".parcel-cache"@)
}

/// A Python cache marker occurs in the path.
pub open spec fn has_py_marker(p: Seq<char>) -> bool {
    contains_lower(p, "__pycache__"@)
        || contains_lower(p, ".pytest_cache"@)
        || contains_lower(p, ".venv"@)
        || contains_lower(p, "venv"@)
        || contains_lower(p, ".tox"@)
        || contains_lower(p, ".mypy_cache"@)
        || contains_lower(p, ".ruff_cache"@)
        || contains_lower(p, ".pip-cache"@)
}

/// A Rust cache marker occurs in the path.
pub open spec fn has_rust_marker(p: Seq<char>) -> bool {
    contains_lower(p, "target"@) || contains_lower(p, "cargo"@)
}

/// A Java cache marker occurs in the path; a bare `build` counts only next
/// to a `gradle` marker, because `build` alone is too common.
pub open spec fn has_java_marker(p: Seq<char>) -> bool {
    contains_lower(p, ".gradle"@)
        || (contains_lower(p, "build"@) && contains_lower(p, "gradle"@))
        || contains_lower(p, ".m2"@)
}

/// A machine-learning cache marker occurs in the path.
pub open spec fn has_ml_marker(p: Seq<char>) -> bool {
    contains_lower(p, "huggingface"@)
        || contains_lower(p, "torch"@)
        || contains_lower(p, "transformers"@)
        || contains_lower(p, ".dvc"@)
        || contains_lower(p, "wandb"@)
}

/// An npx store marker occurs in the path.
pub open spec fn has_npx_marker(p: Seq<char>) -> bool {
    contains_lower(p, "_npx"@)
}

/// A docker marker occurs in the path.
pub open spec fn has_docker_marker(p: Seq<char>) -> bool {
    contains_lower(p, "docker"@)
}

/// The classification of a path: the first marker family that matches, in
/// priority order, and Generic when none does.
pub open spec fn spec_classify(p: Seq<char>) -> CacheKind {
    if has_js_marker(p) {
        CacheKind::JavaScript
    } else if has_py_marker(p) {
        CacheKind::Python
    } else if has_rust_marker(p) {
        CacheKind::Rust
    } else if has_java_marker(p) {
        CacheKind::Java
    } else if has_ml_marker(p) {
        CacheKind::MachineLearning
    } else if has_npx_marker(p) {
        CacheKind::Npx
    } else if has_docker_marker(p) {
        CacheKind::Docker
    } else {
        CacheKind::Generic
    }
}

fn lower_contains(l: &Vec<char>, marker: &str) -> (r: bool)
    requires
        exists|p: Seq<char>| l@ == crate::text::lower_chars(p),
    ensures
        forall|p: Seq<char>| l@ == crate::text::lower_chars(p) ==> r == contains_lower(p, marker@),
{
    let m = to_chars(marker);
    contains_chars(l, &m)
}

/// Classifies a path by its text. Total and deterministic: the result is a
/// function of the path's characters alone.
pub fn classify(path: &str) -> (r: CacheKind)
    ensures
        r == spec_classify(path@),
{
    let l = lower_str_chars(path);

    if lower_contains(&l, "node_modules") || lower_contains(&l, ".next")
        || lower_contains(&l, ".nuxt") || lower_contains(&l, ".vite")
        || lower_contains(&l, ".turbo") || lower_contains(&l, ".parcel-cache") {
        return CacheKind::JavaScript;
    }
    if lower_contains(&l, "__pycache__") || lower_contains(&l, ".pytest_cache")
        || lower_contains(&l, ".venv") || lower_contains(&l, "venv")
        || lower_contains(&l, ".tox") || lower_contains(&l, ".mypy_cache")
        || lower_contains(&l, ".ruff_cache") || lower_contains(&l, ".pip-cache") {
        return CacheKind::Python;
    }
    if lower_contains(&l, "target") || lower_contains(&l, "cargo") {
        return CacheKind::Rust;
    }
    if lower_contains(&l, ".gradle")
        || (lower_contains(&l, "build") && lower_contains(&l, "gradle"))
        || lower_contains(&l, ".m2") {
        return CacheKind::Java;
    }
    if lower_contains(&l, "huggingface") || lower_contains(&l, "torch")
        || lower_contains(&l, "transformers") || lower_contains(&l, ".dvc")
        || lower_contains(&l, "wandb") {
        return CacheKind::MachineLearning;
    }
    if lower_contains(&l, "_npx") {
        return CacheKind::Npx;
    }
    if lower_contains(&l, "docker") {
        return CacheKind::Docker;
    }
    CacheKind::Generic
}

/// A path containing `node_modules` classifies as JavaScript, whatever else
/// it contains: the JavaScript markers are tested first.
pub proof fn lemma_classify_node_modules(p: Seq<char>)
    requires
        contains_lower(p, "node_modules"@),
    ensures
        spec_classify(p) == CacheKind::JavaScript,
{
}

/// A path containing `__pycache__` classifies as Python, provided no
/// JavaScript marker also occurs in it; those take priority.
pub proof fn lemma_classify_pycache(p: Seq<char>)
    requires
        contains_lower(p, "__pycache__"@),
        !has_js_marker(p),
    ensures
        spec_classify(p) == CacheKind::Python,
{
}

/// A path in which no marker of any family occurs classifies as Generic.
pub proof fn lemma_classify_generic(p: Seq<char>)
    requires
        !has_js_marker(p),
        !has_py_marker(p),
        !has_rust_marker(p),
        !has_java_marker(p),
        !has_ml_marker(p),
        !has_npx_marker(p),
        !has_docker_marker(p),
    ensures
        spec_classify(p) == CacheKind::Generic,
{
}

} // verus!
