use unm::buffers::{BufferType, BufferUsage};

#[test]
fn buffer_types_ask_for_their_usages() {
    let none = BufferUsage {
        vertex: false,
        index: false,
        uniform: false,
        storage: false,
        copy_dst: true,
        map_read: false,
    };
    assert_eq!(BufferType::Vertex.usage(), BufferUsage { vertex: true, ..none });
    assert_eq!(BufferType::Instance.usage(), BufferUsage { vertex: true, ..none });
    assert_eq!(BufferType::Index.usage(), BufferUsage { index: true, ..none });
    assert_eq!(BufferType::Uniform.usage(), BufferUsage { uniform: true, ..none });
    assert_eq!(BufferType::Storage.usage(), BufferUsage { storage: true, ..none });
    assert_eq!(BufferType::Read.usage(), BufferUsage { map_read: true, ..none });
}
