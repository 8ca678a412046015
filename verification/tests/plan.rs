use roform::plan::check_studs_per_tile;
use roform::plan::{compile_plan, CompilePlan, CompileStage};

#[test]
fn glb_needs_a_model_and_a_model_needs_meshes() {
    assert_eq!(
        compile_plan(&[CompileStage::Glb], false),
        CompilePlan { mesh: true, model: true, glb: true }
    );
    assert_eq!(
        compile_plan(&[CompileStage::Mesh, CompileStage::Model], false),
        CompilePlan { mesh: true, model: true, glb: false }
    );
    assert_eq!(
        compile_plan(&[CompileStage::Mesh], false),
        CompilePlan { mesh: true, model: false, glb: false }
    );
    assert_eq!(
        compile_plan(&[], false),
        CompilePlan { mesh: false, model: false, glb: false }
    );
}

#[test]
fn no_compile_switches_every_stage_off() {
    assert_eq!(
        compile_plan(&[CompileStage::Mesh, CompileStage::Model, CompileStage::Glb], true),
        CompilePlan { mesh: false, model: false, glb: false }
    );
}

#[test]
fn tile_sizes_must_be_finite_and_positive() {
    assert!(check_studs_per_tile(2.0f32.to_bits()).is_ok());
    assert!(check_studs_per_tile(f32::MIN_POSITIVE.to_bits()).is_ok());
    for bad in [0.0f32, -0.0, -2.0, f32::INFINITY, f32::NAN, f32::NEG_INFINITY] {
        assert_eq!(
            check_studs_per_tile(bad.to_bits()).unwrap_err(),
            "--studs-per-tile must be finite and greater than zero"
        );
    }
}
