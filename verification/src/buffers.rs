use vstd::prelude::*;

verus! {

/// What a GPU buffer is used for.
#[derive(Debug, Clone, Copy, PartialEq, Eq, Structural)]
pub enum BufferType {
    Vertex,
    Index,
    Instance,
    Uniform,
    Storage,
    Read,
}

/// The usages that a buffer is created with, one flag for each usage of the GPU API
/// that a buffer type asks for.
#[derive(Debug, Clone, Copy, PartialEq, Eq, Structural)]
pub struct BufferUsage {
    pub vertex: bool,
    pub index: bool,
    pub uniform: bool,
    pub storage: bool,
    pub copy_dst: bool,
    pub map_read: bool,
}

impl BufferType {
    /// The usages of a buffer of this type: each can be written to from the CPU side
    /// (copy destination); vertex and instance buffers feed vertex data, index buffers
    /// indices, uniform and storage buffers their bindings, and a read buffer can be mapped
    /// for reading.
    pub fn usage(&self) -> (u: BufferUsage)
        ensures
            u == (BufferUsage {
                vertex: *self is Vertex || *self is Instance,
                index: *self is Index,
                uniform: *self is Uniform,
                storage: *self is Storage,
                copy_dst: true,
                map_read: *self is Read,
            }),
    {
        let none = BufferUsage {
            vertex: false,
            index: false,
            uniform: false,
            storage: false,
            copy_dst: true,
            map_read: false,
        };
        match self {
            BufferType::Vertex | BufferType::Instance => BufferUsage { vertex: true, ..none },
            BufferType::Index => BufferUsage { index: true, ..none },
            BufferType::Uniform => BufferUsage { uniform: true, ..none },
            BufferType::Storage => BufferUsage { storage: true, ..none },
            BufferType::Read => BufferUsage { map_read: true, ..none },
        }
    }
}

} // verus!
