use vstd::prelude::*;

verus! {

/// Push constants of `size` bytes, seen by the chosen stages.
#[derive(Clone, Copy, Debug, PartialEq, Eq, Structural)]
pub struct PushConstantInfo {
    pub vertex: bool,
    pub fragment: bool,
    pub size: u32,
}

#[derive(Clone, Copy, Debug, PartialEq, Eq, Structural)]
pub enum PipelineTopology {
    PointList,
    LineList,
    TriangleList,
}

#[derive(Clone, Copy, Debug, PartialEq, Eq, Structural)]
pub enum PipelinePolygon {
    Point,
    Line,
    Fill,
}

#[derive(Clone, Copy, Debug, PartialEq, Eq, Structural)]
pub enum PipelineCull {
    Off,
    Front,
    Back,
}

#[derive(Clone, Copy, Debug, PartialEq, Eq, Structural)]
pub enum DepthTest {
    Off,
    Normal,
    Clamp,
}

impl DepthTest {
    pub fn depth_test_enable(&self) -> (r: bool)
        ensures
            r == (*self != DepthTest::Off),
    {
        match self {
            DepthTest::Off => false,
            DepthTest::Normal | DepthTest::Clamp => true,
        }
    }

    pub fn depth_clamp_enable(&self) -> (r: bool)
        ensures
            r == (*self == DepthTest::Clamp),
    {
        match self {
            DepthTest::Off | DepthTest::Normal => false,
            DepthTest::Clamp => true,
        }
    }
}

/// The pipeline stage that waits for a semaphore.
#[derive(Clone, Copy, Debug, PartialEq, Eq, Structural)]
pub enum WaitStage {
    Nothing,
    VertexInput,
    ColorOutput,
    Compute,
}

/// What a draw call reads: indexed or plain vertices, possibly instanced.
#[derive(Clone, Copy, Debug, PartialEq, Eq, Structural)]
pub enum DrawMode {
    Index {
        index_count: u32,
        instance_count: u32,
        first_index: u32,
        vertex_offset: i32,
        first_instance: u32,
    },
    Vertex { vertex_count: u32, instance_count: u32, first_vertex: u32, first_instance: u32 },
}

impl DrawMode {
    pub fn index(index_count: u32) -> (r: DrawMode)
        ensures
            r == (DrawMode::Index {
                index_count,
                instance_count: 1,
                first_index: 0,
                vertex_offset: 0,
                first_instance: 0,
            }),
    {
        DrawMode::Index {
            index_count,
            instance_count: 1,
            first_index: 0,
            vertex_offset: 0,
            first_instance: 0,
        }
    }

    pub fn index_instanced(index_count: u32, instance_count: u32) -> (r: DrawMode)
        ensures
            r == (DrawMode::Index {
                index_count,
                instance_count,
                first_index: 0,
                vertex_offset: 0,
                first_instance: 0,
            }),
    {
        DrawMode::Index { index_count, instance_count, first_index: 0, vertex_offset: 0, first_instance: 0 }
    }

    pub fn vertex(vertex_count: u32) -> (r: DrawMode)
        ensures
            r == (DrawMode::Vertex {
                vertex_count,
                instance_count: 1,
                first_vertex: 0,
                first_instance: 0,
            }),
    {
        DrawMode::Vertex { vertex_count, instance_count: 1, first_vertex: 0, first_instance: 0 }
    }

    pub fn vertex_instanced(vertex_count: u32, instance_count: u32) -> (r: DrawMode)
        ensures
            r == (DrawMode::Vertex { vertex_count, instance_count, first_vertex: 0, first_instance: 0 }),
    {
        DrawMode::Vertex { vertex_count, instance_count, first_vertex: 0, first_instance: 0 }
    }
}

} // verus!
