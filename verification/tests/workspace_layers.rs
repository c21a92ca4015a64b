//! The layered dependency policy of the workspace.

use std::path::{Component, Path};

use llm_app::workspace::{Layer, allows, classify_manifest, forbidden_dependency};

fn components(path: &Path) -> Vec<String> {
    path.components()
        .map(|component| match component {
            Component::RootDir => "/".to_owned(),
            other => other.as_os_str().to_string_lossy().into_owned(),
        })
        .collect()
}

#[test]
fn manifests_are_classified_into_project_specific_tiers() {
    let root = Path::new("/workspace");
    let cases = [
        ("Cargo.toml", Layer::Root),
        (
            "crates/features/domain-contracts/Cargo.toml",
            Layer::FeatureFoundation,
        ),
        (
            "crates/features/sampling/Cargo.toml",
            Layer::FeatureAlgorithm,
        ),
        ("crates/adapters/candle-backend/Cargo.toml", Layer::Adapter),
        (
            "crates/engines/inference-runtime/Cargo.toml",
            Layer::EngineFoundation,
        ),
        (
            "crates/engines/application-runtime/Cargo.toml",
            Layer::EngineApplication,
        ),
        ("crates/apps/desktop-slint/Cargo.toml", Layer::Application),
    ];

    for (relative, expected) in cases {
        assert_eq!(
            classify_manifest(&components(root), &components(&root.join(relative))),
            expected
        );
    }
}

#[test]
fn feature_and_adapter_boundaries_reject_upward_and_horizontal_edges() {
    assert!(allows(Layer::FeatureAlgorithm, Layer::FeatureFoundation));
    assert!(!allows(Layer::FeatureAlgorithm, Layer::FeatureAlgorithm));
    assert!(!allows(Layer::FeatureAlgorithm, Layer::Adapter));
    assert!(!allows(Layer::FeatureAlgorithm, Layer::EngineFoundation));
    assert!(!allows(Layer::FeatureAlgorithm, Layer::Application));

    assert!(allows(Layer::Adapter, Layer::FeatureFoundation));
    assert!(allows(Layer::Adapter, Layer::FeatureAlgorithm));
    assert!(!allows(Layer::Adapter, Layer::Adapter));
    assert!(!allows(Layer::Adapter, Layer::EngineFoundation));
    assert!(!allows(Layer::Adapter, Layer::Application));
}

#[test]
fn engine_and_application_edges_follow_the_declared_tiers() {
    assert!(allows(Layer::EngineFoundation, Layer::FeatureFoundation));
    assert!(allows(Layer::EngineFoundation, Layer::Adapter));
    assert!(!allows(Layer::EngineFoundation, Layer::EngineApplication));
    assert!(!allows(Layer::EngineFoundation, Layer::Application));

    assert!(allows(Layer::EngineApplication, Layer::EngineFoundation));
    assert!(allows(Layer::EngineApplication, Layer::Adapter));
    assert!(!allows(Layer::EngineApplication, Layer::EngineApplication));
    assert!(!allows(Layer::EngineApplication, Layer::Application));

    assert!(allows(Layer::Application, Layer::EngineApplication));
    assert!(!allows(Layer::Application, Layer::EngineFoundation));
    assert!(!allows(Layer::Application, Layer::Adapter));
}

#[test]
fn the_root_and_the_foundation_depend_on_nothing() {
    let layers = [
        Layer::Root,
        Layer::FeatureFoundation,
        Layer::FeatureAlgorithm,
        Layer::Adapter,
        Layer::EngineFoundation,
        Layer::EngineApplication,
        Layer::Application,
    ];
    for target in layers {
        assert!(!allows(Layer::Root, target));
        assert!(!allows(Layer::FeatureFoundation, target));
        assert!(!allows(target, target));
        assert!(!allows(target, Layer::Root));
    }
}

#[test]
fn manifests_outside_the_root_are_classified_as_they_stand() {
    let root = components(Path::new("/workspace"));
    assert_eq!(
        classify_manifest(&root, &components(Path::new("/elsewhere/Cargo.toml"))),
        Layer::Application
    );
    assert_eq!(
        classify_manifest(&root, &components(Path::new("crates/adapters/x/Cargo.toml"))),
        Layer::Adapter
    );
}

#[test]
fn forbidden_workspace_dependencies_are_reported() {
    let root = components(Path::new("/workspace"));
    let adapter = components(Path::new("/workspace/crates/adapters/redb-storage/Cargo.toml"));
    let engine = components(Path::new("/workspace/crates/engines/application-runtime"));
    let feature = components(Path::new("/workspace/crates/features/task-graph"));
    let outside = components(Path::new("/registry/serde"));

    assert_eq!(
        forbidden_dependency(&root, &adapter, &engine),
        Some((Layer::Adapter, Layer::EngineApplication))
    );
    assert_eq!(forbidden_dependency(&root, &adapter, &feature), None);
    assert_eq!(forbidden_dependency(&root, &adapter, &outside), None);
}
