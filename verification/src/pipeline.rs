//! Handles and status codes of render pipelines.
use vstd::prelude::*;
use crate::material::MaterialId;

verus! {

/// A handle identifying a pipeline; never 0.
#[derive(Clone, Copy, Debug, Hash, PartialEq, Eq, Structural, PartialOrd, Ord)]
pub struct PipelineId {
    id: u32,
}

impl PipelineId {
    #[verifier::type_invariant]
    spec fn nonzero(self) -> bool {
        self.id != 0
    }

    pub closed spec fn value(self) -> u32 {
        self.id
    }

    /// The pipeline with the number `value`, unless it is 0.
    pub fn new(value: u32) -> (r: Option<PipelineId>)
        ensures
            value == 0 <==> r is None,
            r matches Some(p) ==> p.value() == value,
    {
        if value == 0 {
            None
        } else {
            Some(PipelineId { id: value })
        }
    }

    pub fn get(&self) -> (r: u32)
        ensures
            r == self.value(),
            r != 0,
    {
        proof {
            use_type_invariant(self);
        }
        self.id
    }
}

impl Default for PipelineId {
    /// The first pipeline, number 1.
    fn default() -> (r: PipelineId)
        ensures
            r.value() == 1,
    {
        PipelineId { id: 1 }
    }
}

/// A pipeline waiting to be built for a material.
#[derive(Debug)]
pub struct PendingPipeline {
    pub id: PipelineId,
    pub material_id: MaterialId,
}

/// A pipeline that the engine provides.
#[derive(Debug)]
pub struct EnginePipeline {
    pub id: PipelineId,
    pub material_id: MaterialId,
}

/// A pipeline that was built.
#[derive(Debug)]
pub struct LoadedPipeline {
    pub id: PipelineId,
    pub material_id: MaterialId,
}

/// The states of a pipeline in the pipeline asset manager.
#[derive(Debug, Clone, Copy, PartialEq, Eq, Structural, Hash)]
pub enum PipelineType {
    Pending,
    Engine,
    Loaded,
    Failed,
}

#[derive(Clone, Copy, Debug, PartialEq, Eq, Structural)]
pub enum GetPipelineTypeByIdStatus {
    Success,
    PipelineAssetManagerNull,
    PipelineTypeNull,
    PipelineIdNotFound,
}

#[derive(Clone, Copy, Debug, PartialEq, Eq, Structural)]
pub enum GetPipelineByIdStatus {
    Success,
    PipelineAssetManagerNull,
    OutputPipelineNull,
    PipelineIdNotFound,
    PipelineTypeIncorrect,
}

#[derive(Clone, Copy, Debug, PartialEq, Eq, Structural)]
pub enum LoadPipelineStatus {
    Success,
    PipelineAssetManagerNull,
    OutputPendingPipelineNull,
}

#[derive(Clone, Copy, Debug, PartialEq, Eq, Structural)]
pub enum LoadPipelineByPendingPipelineStatus {
    Success,
    PipelineAssetManagerNull,
}

} // verus!
