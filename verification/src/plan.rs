//! Which export stages a run performs.
use vstd::prelude::*;

verus! {

/// An export stage that can be requested.
#[derive(Clone, Copy, Debug, PartialEq, Eq)]
pub enum CompileStage {
    Mesh,
    Model,
    Glb,
}

/// The stages a run performs.
#[derive(Clone, Copy, Debug, Default, PartialEq, Eq)]
pub struct CompilePlan {
    pub mesh: bool,
    pub model: bool,
    pub glb: bool,
}

/// The stage is among those requested.
pub open spec fn requested(stages: Seq<CompileStage>, stage: CompileStage) -> bool {
    exists|i: int| 0 <= i < stages.len() && stages[i] == stage
}

fn contains_stage(stages: &[CompileStage], stage: CompileStage) -> (r: bool)
    ensures
        r == requested(stages@, stage),
{
    let mut i: usize = 0;
    while i < stages.len()
        invariant
            0 <= i <= stages@.len(),
            forall|k: int| 0 <= k < i ==> stages@[k] != stage,
        decreases stages@.len() - i,
    {
        let s = stages[i];
        let same = match (s, stage) {
            (CompileStage::Mesh, CompileStage::Mesh) => true,
            (CompileStage::Model, CompileStage::Model) => true,
            (CompileStage::Glb, CompileStage::Glb) => true,
            _ => false,
        };
        if same {
            return true;
        }
        i = i + 1;
    }
    false
}

/// The stages a run performs: none when compilation is switched off;
/// otherwise a GLB needs a model and a model needs its meshes.
pub fn compile_plan(stages: &[CompileStage], no_compile: bool) -> (r: CompilePlan)
    ensures
        no_compile ==> r == (CompilePlan { mesh: false, model: false, glb: false }),
        !no_compile ==> r.glb == requested(stages@, CompileStage::Glb),
        !no_compile ==> r.model == (requested(stages@, CompileStage::Model) || r.glb),
        !no_compile ==> r.mesh == (requested(stages@, CompileStage::Mesh) || r.model),
        r.glb ==> r.model,
        r.model ==> r.mesh,
        !no_compile ==> forall|i: int|
            0 <= i < stages@.len() ==> match #[trigger] stages@[i] {
                CompileStage::Mesh => r.mesh,
                CompileStage::Model => r.model,
                CompileStage::Glb => r.glb,
            },
{
    if no_compile {
        return CompilePlan { mesh: false, model: false, glb: false };
    }
    let glb = contains_stage(stages, CompileStage::Glb);
    let model = contains_stage(stages, CompileStage::Model) || glb;
    let mesh = contains_stage(stages, CompileStage::Mesh) || model;
    CompilePlan { mesh, model, glb }
}


/// A tile size, given by the bits of its `f32`, is finite and greater than
/// zero: the sign bit is clear, the exponent is not all ones, and the value
/// is not zero.
pub open spec fn positive_finite(bits: u32) -> bool {
    0 < bits < 0x7f80_0000
}

/// Checks the tile size, given by the bits of its `f32`.
pub fn check_studs_per_tile(bits: u32) -> (r: Result<(), String>)
    ensures
        r is Ok <==> positive_finite(bits),
        r matches Err(e) ==> e@ == "--studs-per-tile must be finite and greater than zero"@,
{
    if 0 < bits && bits < 0x7f80_0000 {
        Ok(())
    } else {
        Err("--studs-per-tile must be finite and greater than zero".to_owned())
    }
}
} // verus!
