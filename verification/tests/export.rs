use roform::export::{
    glb_output_reusable, model_output_reusable, source_reuse, ExportState, RunTally,
};
use roform::pipeline::{ModelManifest, ModelManifestEntry, ModelSourceManifestEntry, MODEL_FORMAT_VERSION};

fn model(source: &str, output: &str) -> ModelManifestEntry {
    ModelManifestEntry {
        hash: format!("h-{output}"),
        output: output.to_owned(),
        source: source.to_owned(),
        name: "Model".to_owned(),
    }
}

fn pair(a: &str, b: &str) -> (String, String) {
    (a.to_owned(), b.to_owned())
}

fn previous() -> ModelManifest {
    ModelManifest {
        version: MODEL_FORMAT_VERSION,
        studs_per_tile_bits: 2.0f32.to_bits(),
        includes_materials: false,
        dependencies: vec![pair("dl/1/asset.bin", "h1"), pair("dl/2/asset.bin", "h2")],
        sources: vec![
            ModelSourceManifestEntry {
                source: "in/a.rbxmx".to_owned(),
                hash: "sa".to_owned(),
                dependencies: vec!["dl/1/asset.bin".to_owned()],
            },
            ModelSourceManifestEntry {
                source: "in/old.rbxmx".to_owned(),
                hash: "so".to_owned(),
                dependencies: vec!["dl/2/asset.bin".to_owned()],
            },
        ],
        models: vec![model("in/a.rbxmx", "model/a.gltf"), model("in/old.rbxmx", "model/o.gltf")],
    }
}

#[test]
fn sources_are_reused_only_when_everything_is_unchanged() {
    let recorded = vec![pair("dl/1/asset.bin", "h1"), pair("dl/2/asset.bin", "h2")];
    let models = || vec![model("in/a.rbxmx", "model/a.gltf")];
    let same = vec![Some("h1".to_owned()), Some("h2".to_owned())];
    let (deps, kept) = source_reuse(Some(recorded.clone()), &same, models(), true).unwrap();
    assert_eq!(deps, recorded);
    assert_eq!(kept, models());
    assert!(source_reuse(None, &same, models(), true).is_none());
    let changed = vec![Some("h1".to_owned()), Some("new".to_owned())];
    assert!(source_reuse(Some(recorded.clone()), &changed, models(), true).is_none());
    let stopped = vec![None];
    assert!(source_reuse(Some(recorded.clone()), &stopped, models(), true).is_none());
    assert!(source_reuse(Some(recorded.clone()), &same, Vec::new(), true).is_none());
    assert!(source_reuse(Some(recorded), &same, models(), false).is_none());
    assert!(source_reuse(Some(Vec::new()), &Vec::new(), vec![model("s", "o")], true).is_some());
}

#[test]
fn outputs_are_reused_unless_recompiling_or_missing() {
    assert!(model_output_reusable(false, true, true));
    assert!(!model_output_reusable(true, true, true));
    assert!(!model_output_reusable(false, true, false));
    assert!(!model_output_reusable(false, false, true));
    assert!(glb_output_reusable(false, true));
    assert!(!glb_output_reusable(true, true));
    assert!(!glb_output_reusable(false, false));
}

#[test]
fn a_rerun_that_reuses_every_source_counts_all_models_cached() {
    let prior = Some(previous());
    let current = vec!["in/a.rbxmx".to_owned(), "in/b.rbxmx".to_owned()];
    let mut state = ExportState::start(&prior, &current);
    state.record_reused_source(
        "in/a.rbxmx".to_owned(),
        "sa".to_owned(),
        vec![pair("dl/1/asset.bin", "h1")],
        vec![model("in/a.rbxmx", "model/a.gltf")],
    );
    state.record_reused_source(
        "in/b.rbxmx".to_owned(),
        "sb".to_owned(),
        vec![pair("dl/3/asset.bin", "h3")],
        vec![model("in/b.rbxmx", "model/b1.gltf"), model("in/b.rbxmx", "model/b2.gltf")],
    );
    let (manifest, summary) = state.finish(2.0f32.to_bits(), false);
    assert_eq!(summary.exported, 0);
    assert_eq!(summary.cached, 3);
    assert!(summary.failed.is_empty());
    assert_eq!(
        summary.models,
        vec![
            model("in/a.rbxmx", "model/a.gltf"),
            model("in/b.rbxmx", "model/b1.gltf"),
            model("in/b.rbxmx", "model/b2.gltf"),
        ]
    );
    assert_eq!(manifest.version, MODEL_FORMAT_VERSION);
    assert_eq!(manifest.studs_per_tile_bits, 2.0f32.to_bits());
    assert!(!manifest.includes_materials);
    assert_eq!(
        manifest.models,
        vec![
            model("in/old.rbxmx", "model/o.gltf"),
            model("in/a.rbxmx", "model/a.gltf"),
            model("in/b.rbxmx", "model/b1.gltf"),
            model("in/b.rbxmx", "model/b2.gltf"),
        ]
    );
    let sources: Vec<&str> = manifest.sources.iter().map(|s| s.source.as_str()).collect();
    assert_eq!(sources, vec!["in/old.rbxmx", "in/a.rbxmx", "in/b.rbxmx"]);
    assert_eq!(manifest.sources[2].dependencies, vec!["dl/3/asset.bin".to_owned()]);
    assert_eq!(
        manifest.dependencies,
        vec![pair("dl/1/asset.bin", "h1"), pair("dl/2/asset.bin", "h2"), pair("dl/3/asset.bin", "h3")]
    );
}

#[test]
fn exported_cached_and_failed_models_are_collected() {
    let mut state = ExportState::start(&None, &vec!["in/a.rbxmx".to_owned()]);
    state.record_parsed_source(
        "in/a.rbxmx".to_owned(),
        Some("sa".to_owned()),
        vec![pair("dl/1/asset.bin", "h1"), pair("dl/1/asset.bin", "h9")],
    );
    state.record_parsed_source("in/unread.rbxmx".to_owned(), None, vec![pair("x", "y")]);
    state.record_model(model("in/a.rbxmx", "model/a.gltf"), true);
    state.record_model(model("in/a.rbxmx", "model/b.gltf"), false);
    state.record_failure("in/a.rbxmx / Broken".to_owned(), "boom".to_owned());
    let (manifest, summary) = state.finish(1.0f32.to_bits(), true);
    assert_eq!(summary.exported, 1);
    assert_eq!(summary.cached, 1);
    assert_eq!(summary.failed, vec![pair("in/a.rbxmx / Broken", "boom")]);
    assert_eq!(summary.models.len(), 2);
    assert_eq!(manifest.models, summary.models);
    assert_eq!(manifest.sources.len(), 1);
    assert_eq!(
        manifest.sources[0].dependencies,
        vec!["dl/1/asset.bin".to_owned(), "dl/1/asset.bin".to_owned()]
    );
    assert_eq!(manifest.dependencies, vec![pair("dl/1/asset.bin", "h9")]);
    assert!(manifest.includes_materials);
}

#[test]
fn run_tallies_count_items_and_failures() {
    let mut tally = RunTally::new();
    assert!(tally.can_count());
    tally.record(true);
    tally.record(false);
    tally.record(false);
    tally.record_failure("7".to_owned(), "missing".to_owned());
    let (done, cached, failed) = tally.finish();
    assert_eq!((done, cached), (1, 2));
    assert_eq!(failed, vec![pair("7", "missing")]);
}
