use roform::pipeline::glb_output_name;
use roform::pipeline::{dependency_paths, ModelDependencies};
use roform::pipeline::{
    cache_path, f32_bits_equal, model_fingerprint, model_output_stem, models_of_source,
    models_outside, normalize_fingerprint_cache, normalize_manifest_paths, reusable_manifest,
    source_dependencies_of, sources_outside, FingerprintCache, FingerprintCacheEntry,
    FingerprintState, ModelManifest, ModelManifestEntry, ModelSourceManifestEntry,
    MODEL_FORMAT_VERSION,
};

fn entry(length: u64, modified: Option<u128>, hash: &str) -> FingerprintCacheEntry {
    FingerprintCacheEntry { length, modified_nanos: modified, hash: hash.to_owned() }
}

fn model(source: &str, output: &str) -> ModelManifestEntry {
    ModelManifestEntry {
        hash: format!("h-{output}"),
        output: output.to_owned(),
        source: source.to_owned(),
        name: "Model".to_owned(),
    }
}

fn source(path: &str, hash: &str, deps: &[&str]) -> ModelSourceManifestEntry {
    ModelSourceManifestEntry {
        source: path.to_owned(),
        hash: hash.to_owned(),
        dependencies: deps.iter().map(|d| d.to_string()).collect(),
    }
}

fn manifest() -> ModelManifest {
    ModelManifest {
        version: MODEL_FORMAT_VERSION,
        studs_per_tile_bits: 2.0f32.to_bits(),
        includes_materials: true,
        dependencies: vec![
            ("in\\a.rbxmx".to_owned(), "ha".to_owned()),
            ("dl/1/asset.bin".to_owned(), "h1".to_owned()),
        ],
        sources: vec![
            source("in\\a.rbxmx", "sa", &["in\\a.rbxmx", "dl/1/asset.bin"]),
            source("in/b.rbxmx", "sb", &["missing"]),
        ],
        models: vec![model("in\\a.rbxmx", "model\\x.gltf"), model("in/b.rbxmx", "model/y.gltf")],
    }
}

#[test]
fn cache_paths_use_forward_slashes() {
    assert_eq!(cache_path("a\\b\\c.bin"), "a/b/c.bin");
    assert_eq!(cache_path("already/fine"), "already/fine");
}

#[test]
fn output_stems_mark_exports_with_materials() {
    assert_eq!(model_output_stem("abc", true), "Mabc");
    assert_eq!(model_output_stem("abc", false), "abc");
}

#[test]
fn source_entries_hash_their_contents() {
    let empty = roform::pipeline::source_manifest_entry("in\\a.rbxmx", b"");
    assert_eq!(empty.source, "in/a.rbxmx");
    assert_eq!(
        empty.hash,
        "af1349b9f5f9a1a6a0404dea36dcc9499bcb25c9adc112b7cc9a93cae41f3262"
    );
    assert!(empty.dependencies.is_empty());
    let abc = roform::pipeline::source_manifest_entry("b", b"abc");
    assert_eq!(abc.hash, blake3::hash(b"abc").to_hex().to_string());
}

#[test]
fn fingerprints_are_reused_or_hashed_and_recorded() {
    let mut first = FingerprintState::load(None);
    assert_eq!(first.reuse("dl\\1", 3, Some(7)), None);
    let hash = first.record_contents("dl\\1", 3, Some(7), b"abc");
    assert_eq!(hash, blake3::hash(b"abc").to_hex().to_string());
    let mut second = FingerprintState::load(Some(first.snapshot()));
    assert_eq!(second.reuse("dl/1", 3, Some(7)), Some(hash.clone()));
    assert_eq!(second.reuse("dl/1", 4, Some(7)), None);
    assert_eq!(
        second.snapshot().files,
        vec![("dl/1".to_owned(), entry(3, Some(7), &hash))]
    );
}

#[test]
fn model_fingerprints_hash_source_index_settings_and_dependencies() {
    let deps = vec![("dl/1/asset.bin".to_owned(), "h1".to_owned())];
    let fingerprint = model_fingerprint(b"source", 12, 2.0f32.to_bits(), true, &deps);
    let mut message = b"roform-model-v1".to_vec();
    message.extend_from_slice(b"source");
    message.extend_from_slice(b"12");
    message.extend_from_slice(&2.0f32.to_le_bytes());
    message.push(1);
    message.extend_from_slice(b"dl/1/asset.bin");
    message.extend_from_slice(b"h1");
    assert_eq!(fingerprint, blake3::hash(&message).to_hex().to_string());
    assert_ne!(fingerprint, model_fingerprint(b"source", 12, 2.0f32.to_bits(), false, &deps));
    assert_ne!(fingerprint, model_fingerprint(b"source", 13, 2.0f32.to_bits(), true, &deps));
}

#[test]
fn normalizing_a_fingerprint_cache_keeps_the_first_entry_of_a_path() {
    let cache = FingerprintCache {
        version: 7,
        files: vec![
            ("a\\b".to_owned(), entry(1, Some(5), "first")),
            ("a/b".to_owned(), entry(2, Some(6), "second")),
            ("c".to_owned(), entry(3, None, "third")),
        ],
    };
    let normalized = normalize_fingerprint_cache(cache);
    assert_eq!(normalized.version, 7);
    assert_eq!(
        normalized.files,
        vec![
            ("a/b".to_owned(), entry(1, Some(5), "first")),
            ("c".to_owned(), entry(3, None, "third")),
        ]
    );
}

#[test]
fn a_recorded_fingerprint_is_reused_by_the_next_run() {
    let mut run = FingerprintState::load(None);
    assert_eq!(run.reusable_hash("in\\a.rbxmx", 10, Some(99)), None);
    run.record("in\\a.rbxmx", entry(10, Some(99), "ha"));
    run.record("in/a.rbxmx", entry(10, Some(99), "ha2"));
    let written = run.snapshot();
    assert_eq!(written.version, MODEL_FORMAT_VERSION);
    assert_eq!(written.files, vec![("in/a.rbxmx".to_owned(), entry(10, Some(99), "ha2"))]);

    let next = FingerprintState::load(Some(written));
    assert_eq!(next.reusable_hash("in\\a.rbxmx", 10, Some(99)), Some("ha2".to_owned()));
    assert_eq!(next.reusable_hash("in/a.rbxmx", 11, Some(99)), None);
    assert_eq!(next.reusable_hash("in/a.rbxmx", 10, Some(98)), None);
    assert_eq!(next.reusable_hash("in/a.rbxmx", 10, None), None);
}

#[test]
fn fingerprint_caches_of_another_version_are_ignored() {
    let old = FingerprintCache {
        version: MODEL_FORMAT_VERSION + 1,
        files: vec![("x".to_owned(), entry(1, Some(1), "h"))],
    };
    let run = FingerprintState::load(Some(old));
    assert_eq!(run.reusable_hash("x", 1, Some(1)), None);
}

#[test]
fn compares_tile_sizes_as_floats() {
    assert!(f32_bits_equal(2.0f32.to_bits(), 2.0f32.to_bits()));
    assert!(f32_bits_equal(0.0f32.to_bits(), (-0.0f32).to_bits()));
    assert!(!f32_bits_equal(f32::NAN.to_bits(), f32::NAN.to_bits()));
    assert!(!f32_bits_equal(1.0f32.to_bits(), 2.0f32.to_bits()));
}

#[test]
fn manifests_are_reused_only_with_the_same_settings() {
    assert!(reusable_manifest(None, 2.0f32.to_bits(), true).is_none());
    assert!(reusable_manifest(Some(manifest()), 3.0f32.to_bits(), true).is_none());
    assert!(reusable_manifest(Some(manifest()), 2.0f32.to_bits(), false).is_none());
    let mut other_version = manifest();
    other_version.version = MODEL_FORMAT_VERSION + 1;
    assert!(reusable_manifest(Some(other_version), 2.0f32.to_bits(), true).is_none());
    let reused = reusable_manifest(Some(manifest()), 2.0f32.to_bits(), true).unwrap();
    assert_eq!(reused.sources[0].source, "in/a.rbxmx");
    assert_eq!(reused.models[0].output, "model/x.gltf");
}

#[test]
fn normalizing_a_manifest_rewrites_every_path() {
    let mut m = manifest();
    m.dependencies.push(("in/a.rbxmx".to_owned(), "later".to_owned()));
    let n = normalize_manifest_paths(m);
    assert_eq!(
        n.dependencies,
        vec![
            ("in/a.rbxmx".to_owned(), "later".to_owned()),
            ("dl/1/asset.bin".to_owned(), "h1".to_owned()),
        ]
    );
    assert_eq!(n.sources[0].dependencies, vec!["in/a.rbxmx".to_owned(), "dl/1/asset.bin".to_owned()]);
    assert_eq!(n.models[0].source, "in/a.rbxmx");
    assert_eq!(n.models[0].hash, "h-model\\x.gltf");
}

#[test]
fn finds_the_dependencies_recorded_for_a_source() {
    let n = normalize_manifest_paths(manifest());
    assert_eq!(
        source_dependencies_of(&n, "in/a.rbxmx", "sa"),
        Some(vec![
            ("in/a.rbxmx".to_owned(), "ha".to_owned()),
            ("dl/1/asset.bin".to_owned(), "h1".to_owned()),
        ])
    );
    assert_eq!(source_dependencies_of(&n, "in/a.rbxmx", "changed"), None);
    assert_eq!(source_dependencies_of(&n, "in/b.rbxmx", "sb"), None);
}

#[test]
fn splits_models_and_sources_by_the_sources_of_a_run() {
    let n = normalize_manifest_paths(manifest());
    let of_a = models_of_source(&n.models, "in/a.rbxmx");
    assert_eq!(of_a.len(), 1);
    assert_eq!(of_a[0].output, "model/x.gltf");
    let run_sources = vec!["in/a.rbxmx".to_owned()];
    let outside = models_outside(&n.models, &run_sources);
    assert_eq!(outside.len(), 1);
    assert_eq!(outside[0].source, "in/b.rbxmx");
    let kept = sources_outside(&n.sources, &run_sources);
    assert_eq!(kept.len(), 1);
    assert_eq!(kept[0].hash, "sb");
}

fn components(parts: &[&str]) -> Vec<String> {
    parts.iter().map(|p| p.to_string()).collect()
}

#[test]
fn glb_outputs_are_named_by_the_gltf_stem() {
    assert_eq!(glb_output_name("/out/model/abc.gltf").unwrap(), "abc.glb");
    assert_eq!(glb_output_name("out/model/v1.2.gltf/").unwrap(), "v1.2.glb");
    assert_eq!(glb_output_name(".hidden").unwrap(), ".hidden.glb");
    assert_eq!(glb_output_name("/").unwrap_err(), "invalid GLTF output path: /");
    assert_eq!(glb_output_name("a/..").unwrap_err(), "invalid GLTF output path: a/..");
}

#[test]
fn model_outputs_share_their_stem() {
    assert_eq!(
        roform::pipeline::model_output_names("Mabc"),
        ("Mabc.gltf".to_owned(), "Mabc.bin".to_owned())
    );
    assert_eq!(roform::pipeline::missing_dependency_hash(), "<missing>");
}

#[test]
fn dependency_paths_are_sorted_and_unique() {
    let models = vec![
        ModelDependencies {
            asset_ids: vec!["9".to_owned(), "10".to_owned()],
            material_names: vec!["wood".to_owned(), "brick".to_owned()],
        },
        ModelDependencies { asset_ids: vec!["9".to_owned()], material_names: vec!["wood".to_owned()] },
    ];
    let download = components(&["/", "out", "download"]);
    let assets = components(&["/", "assets"]);
    assert_eq!(
        dependency_paths(&models, &download, &assets, true),
        vec![
            components(&["/", "assets", "material", "brick_color.png"]),
            components(&["/", "assets", "material", "brick_normal.png"]),
            components(&["/", "assets", "material", "wood_color.png"]),
            components(&["/", "assets", "material", "wood_normal.png"]),
            components(&["/", "out", "download", "10", "asset.bin"]),
            components(&["/", "out", "download", "10", "asset.rbxm"]),
            components(&["/", "out", "download", "9", "asset.bin"]),
            components(&["/", "out", "download", "9", "asset.rbxm"]),
        ]
    );
    assert_eq!(dependency_paths(&models, &download, &assets, false).len(), 4);
}
