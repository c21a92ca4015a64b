//! The layered dependency policy of the workspace: which tier a crate belongs
//! to, judged by where its manifest lies, and which tiers it may depend on.
//!
//! Paths are given as their components, in order, as text.

use vstd::prelude::*;
use vstd::utf8::encode_utf8_decode_utf8;

use crate::bytes::bytes_equal;

verus! {

/// Architectural tier of a workspace crate.
#[derive(Clone, Copy, Debug, PartialEq, Eq, Structural)]
pub enum Layer {
    /// The workspace root package.
    Root,
    /// `crates/features/domain-contracts`.
    FeatureFoundation,
    /// Any other feature crate.
    FeatureAlgorithm,
    /// Integration with the outside world.
    Adapter,
    /// `crates/engines/inference-runtime`.
    EngineFoundation,
    /// Any other engine crate.
    EngineApplication,
    /// Everything else: the applications.
    Application,
}

/// Whether a crate of tier `source` may depend on one of tier `target`.
pub open spec fn allowed(source: Layer, target: Layer) -> bool {
    match source {
        Layer::Root | Layer::FeatureFoundation => false,
        Layer::FeatureAlgorithm => target == Layer::FeatureFoundation,
        Layer::Adapter => target == Layer::FeatureFoundation || target == Layer::FeatureAlgorithm,
        Layer::EngineFoundation => target == Layer::FeatureFoundation || target
            == Layer::FeatureAlgorithm || target == Layer::Adapter,
        Layer::EngineApplication => target == Layer::FeatureFoundation || target
            == Layer::FeatureAlgorithm || target == Layer::Adapter || target
            == Layer::EngineFoundation,
        Layer::Application => target == Layer::EngineApplication,
    }
}

/// Height of a tier: every allowed dependency points to a lower tier.
pub open spec fn height(layer: Layer) -> int {
    match layer {
        Layer::FeatureFoundation => 0,
        Layer::FeatureAlgorithm => 1,
        Layer::Adapter => 2,
        Layer::EngineFoundation => 3,
        Layer::EngineApplication => 4,
        Layer::Application => 5,
        Layer::Root => 6,
    }
}

/// Whether a crate of tier `source` may depend on one of tier `target`.
pub fn allows(source: Layer, target: Layer) -> (permitted: bool)
    ensures
        permitted == allowed(source, target),
{
    match source {
        Layer::Root | Layer::FeatureFoundation => false,
        Layer::FeatureAlgorithm => matches!(target, Layer::FeatureFoundation),
        Layer::Adapter => matches!(target, Layer::FeatureFoundation | Layer::FeatureAlgorithm),
        Layer::EngineFoundation => matches!(
            target,
            Layer::FeatureFoundation | Layer::FeatureAlgorithm | Layer::Adapter
        ),
        Layer::EngineApplication => matches!(
            target,
            Layer::FeatureFoundation | Layer::FeatureAlgorithm | Layer::Adapter
                | Layer::EngineFoundation
        ),
        Layer::Application => matches!(target, Layer::EngineApplication),
    }
}

/// Every allowed dependency points strictly downward: no crate may depend on
/// its own tier or on a higher one.
pub proof fn lemma_allowed_dependencies_point_downward(source: Layer, target: Layer)
    requires
        allowed(source, target),
    ensures
        height(target) < height(source),
        source != target,
        !allowed(target, source),
{
}

/// No chain of allowed dependencies leads back to the tier it started from.
pub proof fn lemma_no_dependency_cycles(chain: Seq<Layer>)
    requires
        chain.len() >= 2,
        forall|i: int| 0 <= i < chain.len() - 1 ==> allowed(#[trigger] chain[i], chain[i + 1]),
    ensures
        height(chain.last()) < height(chain[0]),
        chain.last() != chain[0],
    decreases chain.len(),
{
    if chain.len() == 2 {
        assert(allowed(chain[0], chain[1]));
    } else {
        let rest = chain.drop_first();
        assert forall|i: int| 0 <= i < rest.len() - 1 implies allowed(
            #[trigger] rest[i],
            rest[i + 1],
        ) by {
            assert(rest[i] == chain[i + 1]);
            assert(allowed(chain[i + 1], chain[i + 2]));
        }
        lemma_no_dependency_cycles(rest);
        assert(allowed(chain[0], chain[1]));
    }
}

/// `path` begins with the components of `prefix`.
pub open spec fn starts_with(path: Seq<Seq<char>>, prefix: Seq<Seq<char>>) -> bool {
    prefix.len() <= path.len() && path.subrange(0, prefix.len() as int) == prefix
}

/// The components of `manifest` below `root`, or all of them when it lies
/// outside `root`.
pub open spec fn relative_to(root: Seq<Seq<char>>, manifest: Seq<Seq<char>>) -> Seq<Seq<char>> {
    if starts_with(manifest, root) {
        manifest.subrange(root.len() as int, manifest.len() as int)
    } else {
        manifest
    }
}

/// Tier of the crate whose manifest lies at `relative` within the workspace.
pub open spec fn tier_of(relative: Seq<Seq<char>>) -> Layer {
    if relative == seq!["Cargo.toml"@] {
        Layer::Root
    } else if starts_with(relative, seq!["crates"@, "features"@, "domain-contracts"@]) {
        Layer::FeatureFoundation
    } else if starts_with(relative, seq!["crates"@, "features"@]) {
        Layer::FeatureAlgorithm
    } else if starts_with(relative, seq!["crates"@, "adapters"@]) {
        Layer::Adapter
    } else if starts_with(relative, seq!["crates"@, "engines"@, "inference-runtime"@]) {
        Layer::EngineFoundation
    } else if starts_with(relative, seq!["crates"@, "engines"@]) {
        Layer::EngineApplication
    } else {
        Layer::Application
    }
}

/// The text of each component.
pub open spec fn texts(components: Seq<String>) -> Seq<Seq<char>> {
    components.map_values(|component: String| component@)
}

/// Whether a component is the given text.
fn component_is(component: &String, text: &str) -> (equal: bool)
    ensures
        equal == (component@ == text@),
{
    let equal = bytes_equal(component.as_str().as_bytes(), text.as_bytes());
    proof {
        encode_utf8_decode_utf8(component@);
        encode_utf8_decode_utf8(text@);
    }
    equal
}

/// Whether `path`, from component `offset` on, begins with `prefix`.
fn starts_with_from(path: &[String], offset: usize, prefix: &[&str]) -> (found: bool)
    requires
        offset <= path@.len(),
    ensures
        found == starts_with(
            texts(path@).subrange(offset as int, path@.len() as int),
            prefix@.map_values(|text: &str| text@),
        ),
{
    let ghost rest = texts(path@).subrange(offset as int, path@.len() as int);
    let ghost wanted = prefix@.map_values(|text: &str| text@);
    if prefix.len() > path.len() - offset {
        return false;
    }
    let mut index: usize = 0;
    while index < prefix.len()
        invariant
            offset <= path@.len(),
            path@.len() == path.len(),
            prefix@.len() <= path@.len() - offset,
            index <= prefix@.len(),
            rest == texts(path@).subrange(offset as int, path@.len() as int),
            wanted == prefix@.map_values(|text: &str| text@),
            forall|j: int| 0 <= j < index ==> rest[j] == wanted[j],
        decreases prefix@.len() - index,
    {
        if !component_is(&path[offset + index], prefix[index]) {
            assert(rest.subrange(0, wanted.len() as int)[index as int] != wanted[index as int]);
            return false;
        }
        index += 1;
    }
    assert(rest.subrange(0, wanted.len() as int) =~= wanted);
    true
}

/// Tier of the crate whose manifest lies at `manifest`, judged by its place
/// below the workspace `root`.
pub fn classify_manifest(root: &[String], manifest: &[String]) -> (layer: Layer)
    ensures
        layer == tier_of(relative_to(texts(root@), texts(manifest@))),
{
    let ghost root_texts = texts(root@);
    let ghost manifest_texts = texts(manifest@);
    let mut below_root = root.len() <= manifest.len();
    let mut index: usize = 0;
    while below_root && index < root.len()
        invariant_except_break
            below_root ==> root@.len() <= manifest@.len(),
            index <= root@.len(),
            below_root ==> forall|j: int| 0 <= j < index ==> root@[j]@ == manifest@[j]@,
            !below_root ==> !starts_with(manifest_texts, root_texts),
            root_texts == texts(root@),
            manifest_texts == texts(manifest@),
        ensures
            below_root ==> root@.len() <= manifest@.len(),
            below_root ==> forall|j: int| 0 <= j < root@.len() ==> root@[j]@ == manifest@[j]@,
            !below_root ==> !starts_with(manifest_texts, root_texts),
        decreases root@.len() - index,
    {
        if !component_is(&manifest[index], root[index].as_str()) {
            assert(manifest_texts.subrange(0, root_texts.len() as int)[index as int]
                != root_texts[index as int]);
            below_root = false;
            break;
        }
        index += 1;
    }
    if below_root {
        assert(manifest_texts.subrange(0, root_texts.len() as int) =~= root_texts);
    }
    let offset = if below_root {
        root.len()
    } else {
        0
    };
    let ghost relative = relative_to(root_texts, manifest_texts);
    assert(relative =~= manifest_texts.subrange(offset as int, manifest_texts.len() as int));
    if manifest.len() - offset == 1 && component_is(&manifest[offset], "Cargo.toml") {
        assert(relative =~= seq!["Cargo.toml"@]);
        return Layer::Root;
    }
    proof {
        if relative.len() == 1 {
            assert(relative[0] == manifest@[offset as int]@);
        }
    }
    assert(relative != seq!["Cargo.toml"@]);
    let foundation: [&str; 3] = ["crates", "features", "domain-contracts"];
    let features: [&str; 2] = ["crates", "features"];
    let adapters: [&str; 2] = ["crates", "adapters"];
    let inference: [&str; 3] = ["crates", "engines", "inference-runtime"];
    let engines: [&str; 2] = ["crates", "engines"];
    assert(foundation@.map_values(|text: &str| text@) =~= seq![
        "crates"@,
        "features"@,
        "domain-contracts"@,
    ]);
    assert(features@.map_values(|text: &str| text@) =~= seq!["crates"@, "features"@]);
    assert(adapters@.map_values(|text: &str| text@) =~= seq!["crates"@, "adapters"@]);
    assert(inference@.map_values(|text: &str| text@) =~= seq![
        "crates"@,
        "engines"@,
        "inference-runtime"@,
    ]);
    assert(engines@.map_values(|text: &str| text@) =~= seq!["crates"@, "engines"@]);
    if starts_with_from(manifest, offset, &foundation) {
        Layer::FeatureFoundation
    } else if starts_with_from(manifest, offset, &features) {
        Layer::FeatureAlgorithm
    } else if starts_with_from(manifest, offset, &adapters) {
        Layer::Adapter
    } else if starts_with_from(manifest, offset, &inference) {
        Layer::EngineFoundation
    } else if starts_with_from(manifest, offset, &engines) {
        Layer::EngineApplication
    } else {
        Layer::Application
    }
}


/// Whether `path` begins with the components of `prefix`.
fn has_prefix(path: &[String], prefix: &[String]) -> (found: bool)
    ensures
        found == starts_with(texts(path@), texts(prefix@)),
{
    let ghost path_texts = texts(path@);
    let ghost prefix_texts = texts(prefix@);
    if prefix.len() > path.len() {
        return false;
    }
    let mut index: usize = 0;
    while index < prefix.len()
        invariant
            prefix@.len() <= path@.len(),
            index <= prefix@.len(),
            path_texts == texts(path@),
            prefix_texts == texts(prefix@),
            forall|j: int| 0 <= j < index ==> path@[j]@ == prefix@[j]@,
        decreases prefix@.len() - index,
    {
        if !component_is(&path[index], prefix[index].as_str()) {
            assert(path_texts.subrange(0, prefix_texts.len() as int)[index as int]
                != prefix_texts[index as int]);
            return false;
        }
        index += 1;
    }
    assert(path_texts.subrange(0, prefix_texts.len() as int) =~= prefix_texts);
    true
}

/// The manifest of the crate in directory `directory`.
pub open spec fn manifest_in(directory: Seq<Seq<char>>) -> Seq<Seq<char>> {
    directory.push("Cargo.toml"@)
}

/// The tiers of a dependency that breaks the policy: the crate with manifest
/// `manifest` depends on the crate in `dependency`, a directory inside
/// `root`, of a tier it may not depend on. Dependencies outside `root` are
/// not the workspace's own and are never reported.
pub fn forbidden_dependency(root: &[String], manifest: &[String], dependency: &[String]) -> (violation:
    Option<(Layer, Layer)>)
    ensures
        ({
            let source = tier_of(relative_to(texts(root@), texts(manifest@)));
            let target = tier_of(relative_to(texts(root@), manifest_in(texts(dependency@))));
            if starts_with(texts(dependency@), texts(root@)) && !allowed(source, target) {
                violation == Some((source, target))
            } else {
                violation is None
            }
        }),
{
    if !has_prefix(dependency, root) {
        return None;
    }
    let source = classify_manifest(root, manifest);
    let mut target_manifest: Vec<String> = Vec::new();
    let mut index: usize = 0;
    while index < dependency.len()
        invariant
            index <= dependency@.len(),
            target_manifest@.len() == index,
            forall|j: int| 0 <= j < index ==> target_manifest@[j]@ == dependency@[j]@,
        decreases dependency@.len() - index,
    {
        target_manifest.push(dependency[index].clone());
        index += 1;
    }
    target_manifest.push("Cargo.toml".to_owned());
    assert forall|j: int| 0 <= j < target_manifest@.len() implies texts(target_manifest@)[j]
        == manifest_in(texts(dependency@))[j] by {
        if j < dependency@.len() {
            assert(texts(dependency@)[j] == dependency@[j]@);
        }
    }
    assert(texts(target_manifest@) =~= manifest_in(texts(dependency@)));
    let target = classify_manifest(root, target_manifest.as_slice());
    if allows(source, target) {
        None
    } else {
        Some((source, target))
    }
}


/// The declared dependency matrix: feature algorithms may use the feature
/// foundation; adapters may use every feature tier; the engine foundation
/// may use every feature tier and adapters; engine applications may use all
/// of those and the engine foundation; applications may use engine
/// applications only; nothing else is allowed.
pub proof fn lemma_declared_dependency_matrix(source: Layer, target: Layer)
    ensures
        allowed(source, target) <==> {
            ||| source == Layer::FeatureAlgorithm && target == Layer::FeatureFoundation
            ||| (source == Layer::Adapter || source == Layer::EngineFoundation || source
                == Layer::EngineApplication) && (target == Layer::FeatureFoundation || target
                == Layer::FeatureAlgorithm)
            ||| (source == Layer::EngineFoundation || source == Layer::EngineApplication) && target
                == Layer::Adapter
            ||| source == Layer::EngineApplication && target == Layer::EngineFoundation
            ||| source == Layer::Application && target == Layer::EngineApplication
        },
{
}

} // verus!
