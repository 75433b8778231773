use gru_vulkan::attributes::{
    AttributeGroupReprCpacked, AttributeLocation, AttributeType, DescriptorStructReprC,
    IndexFormat, IndexType, InputRate, StorageStructReprC,
};
use gru_vulkan::layout::{
    BufferError, BufferInfo, BufferTypeBuilder, BufferUsage, BufferUsageFlags, CopyRegion,
    MemoryLocation,
};

#[derive(Clone, Copy)]
#[allow(dead_code)]
struct Light([u32; 20]);

impl DescriptorStructReprC for Light {}

#[derive(Clone, Copy)]
#[allow(dead_code)]
struct Particle([u32; 3]);

impl StorageStructReprC for Particle {}
impl DescriptorStructReprC for Particle {}

#[allow(dead_code)]
struct WideIndex(u32);

impl IndexType for WideIndex {
    fn index_format() -> IndexFormat {
        IndexFormat::Uint32
    }
}

impl StorageStructReprC for WideIndex {}

#[allow(dead_code)]
struct Vertex {
    position: [u32; 3],
}

impl AttributeGroupReprCpacked for Vertex {
    fn group_rate() -> InputRate {
        InputRate::Vertex
    }

    fn group_attributes() -> &'static [(AttributeLocation, AttributeType)] {
        Self::attributes()
    }

    fn rate() -> InputRate {
        InputRate::Vertex
    }

    fn attributes() -> &'static [(AttributeLocation, AttributeType)] {
        &[(AttributeLocation(0), AttributeType::U3)]
    }
}

impl StorageStructReprC for Vertex {}

#[test]
fn indices_then_uniforms() {
    let mut builder = BufferTypeBuilder::new(7, 256, 16);
    let indices = builder.add_indices::<u16>(100);
    assert_eq!(indices.offset_in_bytes(), 0);
    assert_eq!(indices.stride(), 2);
    assert_eq!(indices.count(), 100);
    let uniforms = builder.add_uniforms::<Light>(4);
    assert_eq!(uniforms.offset_in_bytes(), 256);
    assert_eq!(uniforms.stride(), 256);
    assert_eq!(uniforms.count(), 4);
    let layout = builder.build();
    assert_eq!(layout.size_in_bytes(), 1280);
    assert_eq!(layout.id(), 7);
    assert_eq!(indices.layout_id(), 7);
    assert_eq!(uniforms.layout_id(), 7);
}

#[test]
fn regions_are_aligned_and_disjoint() {
    let mut builder = BufferTypeBuilder::new(1, 64, 48);
    let vertices = builder.add_attributes::<Vertex>(3);
    assert_eq!(vertices.offset_in_bytes(), 0);
    assert_eq!(vertices.stride(), 12);
    let indices = builder.add_indices::<u32>(5);
    assert_eq!(indices.offset_in_bytes() % 4, 0);
    assert!(vertices.offset_in_bytes() + 3 * 12 <= indices.offset_in_bytes());
    let uniforms = builder.add_uniforms::<Particle>(2);
    assert_eq!(uniforms.offset_in_bytes() % 64, 0);
    assert_eq!(uniforms.stride(), 64);
    assert!(indices.offset_in_bytes() + 5 * 4 <= uniforms.offset_in_bytes());
    assert_eq!(uniforms.offset_in_bytes(), 64);
}

#[test]
fn storage_regions_take_the_common_multiple() {
    let mut builder = BufferTypeBuilder::new(2, 64, 48);
    let first = builder.add_attributes::<Vertex>(1);
    assert_eq!(first.offset_in_bytes(), 0);
    let storage = builder.add_storage::<Particle>(2);
    assert_eq!(storage.offset_in_bytes(), 48);
    assert_eq!(storage.stride(), 12);
    let both = builder.add_uniforms_storage::<Particle>(1);
    // lcm(64, 48) = 192
    assert_eq!(both.offset_in_bytes(), 192);
    assert_eq!(both.stride(), 64);
    let attributes = builder.add_attributes_storage::<Vertex>(1);
    assert_eq!(attributes.offset_in_bytes(), 288);
    let indices = builder.add_indices_storage::<WideIndex>(1);
    assert_eq!(indices.offset_in_bytes(), 336);
    let layout = builder.build();
    assert_eq!(layout.size_in_bytes(), 340);
    let info = layout.buffer_info(BufferUsage::Dynamic);
    assert!(info.flags.storage_buffer);
    assert!(info.flags.uniform_buffer);
    assert!(info.flags.vertex_buffer);
    assert!(info.flags.index_buffer);
}

#[test]
fn empty_region_takes_no_room() {
    let mut builder = BufferTypeBuilder::new(3, 256, 16);
    let a = builder.add_indices::<u32>(0);
    assert_eq!(a.count(), 0);
    assert_eq!(a.offset_in_bytes(), 0);
    let b = builder.add_indices::<u32>(2);
    assert_eq!(b.offset_in_bytes(), 0);
    assert_eq!(builder.build().size_in_bytes(), 8);
}

#[test]
fn buffer_info_follows_usage() {
    let mut builder = BufferTypeBuilder::new(4, 256, 16);
    builder.add_indices::<u16>(3);
    let layout = builder.build();
    let stage = layout.buffer_info(BufferUsage::Stage);
    assert_eq!(
        stage,
        BufferInfo {
            layout_id: 4,
            size_in_bytes: 6,
            usage: BufferUsage::Stage,
            flags: BufferUsageFlags {
                transfer_src: true,
                transfer_dst: false,
                index_buffer: false,
                vertex_buffer: false,
                uniform_buffer: false,
                storage_buffer: false,
            },
            location: MemoryLocation::CpuToGpu,
        }
    );
    let dynamic = layout.buffer_info(BufferUsage::Dynamic);
    assert!(!dynamic.flags.transfer_src && !dynamic.flags.transfer_dst);
    assert!(dynamic.flags.index_buffer);
    assert_eq!(dynamic.location, MemoryLocation::CpuToGpu);
    let fixed = layout.buffer_info(BufferUsage::Static);
    assert!(fixed.flags.transfer_dst && fixed.flags.index_buffer);
    assert_eq!(fixed.location, MemoryLocation::GpuOnly);
}

#[test]
fn views_of_another_layout_are_rejected() {
    let mut first = BufferTypeBuilder::new(10, 256, 16);
    let view = first.add_indices::<u32>(4);
    let first = first.build();
    let mut second = BufferTypeBuilder::new(11, 256, 16);
    let other = second.add_indices::<u32>(4);
    let second = second.build();
    let buffer = first.buffer_info(BufferUsage::Dynamic);
    assert_eq!(buffer.view_offset(&view), Ok(0));
    assert_eq!(buffer.view_offset(&other), Err(BufferError::IncompatibleView));
    assert_eq!(buffer.write_offset(&other, 0, 1), Err(BufferError::IncompatibleView));
    let stage = second.buffer_info(BufferUsage::Stage);
    let fixed = first.buffer_info(BufferUsage::Static);
    assert_eq!(BufferInfo::check_copy(&stage, &fixed), Err(BufferError::LayoutMismatch));
    assert_eq!(
        BufferInfo::copy_view_region(&stage, &view, &fixed, &view),
        Err(BufferError::IncompatibleView)
    );
}

#[test]
fn writes_stay_inside_the_view() {
    let mut builder = BufferTypeBuilder::new(12, 256, 16);
    builder.add_indices::<u16>(1);
    let lights = builder.add_uniforms::<Light>(3);
    let layout = builder.build();
    let buffer = layout.buffer_info(BufferUsage::Dynamic);
    assert_eq!(buffer.write_offset(&lights, 1, 2), Ok(512));
    assert_eq!(buffer.write_offset(&lights, 0, 3), Ok(256));
    assert_eq!(buffer.write_offset(&lights, 3, 0), Ok(1024));
    assert_eq!(buffer.write_offset(&lights, 2, 2), Err(BufferError::TooMuchData));
    assert_eq!(buffer.write_offset(&lights, 4, 0), Err(BufferError::TooMuchData));
    assert_eq!(buffer.check_map(), Ok(()));
    assert_eq!(layout.buffer_info(BufferUsage::Static).check_map(), Err(BufferError::NotMappable));
}

#[test]
fn copies_go_from_stage_to_static() {
    let mut builder = BufferTypeBuilder::new(13, 256, 16);
    builder.add_indices::<u32>(1);
    let lights = builder.add_uniforms::<Light>(2);
    let layout = builder.build();
    let stage = layout.buffer_info(BufferUsage::Stage);
    let dynamic = layout.buffer_info(BufferUsage::Dynamic);
    let fixed = layout.buffer_info(BufferUsage::Static);
    assert_eq!(BufferInfo::check_copy(&stage, &fixed), Ok(768));
    assert_eq!(BufferInfo::check_copy(&dynamic, &fixed), Err(BufferError::SourceNotStage));
    assert_eq!(BufferInfo::check_copy(&stage, &dynamic), Err(BufferError::DestinationNotStatic));
    assert_eq!(
        BufferInfo::copy_view_region(&stage, &lights, &fixed, &lights),
        Ok(CopyRegion { src_offset: 256, dst_offset: 256, size: 512 })
    );
    assert_eq!(
        BufferInfo::copy_view_region(&fixed, &lights, &fixed, &lights),
        Err(BufferError::SourceNotStage)
    );
    assert_eq!(
        BufferInfo::copy_view_region(&stage, &lights, &stage, &lights),
        Err(BufferError::DestinationNotStatic)
    );
    let mut other = BufferTypeBuilder::new(13, 256, 16);
    let shorter = other.add_uniforms::<Light>(1);
    assert_eq!(
        BufferInfo::copy_view_region(&stage, &lights, &fixed, &shorter),
        Err(BufferError::CountMismatch)
    );
}

#[test]
fn every_region_starts_after_the_previous_one() {
    let mut builder = BufferTypeBuilder::new(20, 256, 48);
    let mut ends = Vec::new();
    let a = builder.add_indices::<u16>(3);
    ends.push((a.offset_in_bytes(), a.offset_in_bytes() + a.count() as u64 * a.stride() as u64));
    let b = builder.add_storage::<Particle>(5);
    assert_eq!(b.offset_in_bytes() % 48, 0);
    ends.push((b.offset_in_bytes(), b.offset_in_bytes() + b.count() as u64 * b.stride() as u64));
    let c = builder.add_uniforms::<Light>(1);
    assert_eq!(c.offset_in_bytes() % 256, 0);
    assert!(c.stride() as usize >= std::mem::size_of::<Light>());
    ends.push((c.offset_in_bytes(), c.offset_in_bytes() + c.count() as u64 * c.stride() as u64));
    for pair in ends.windows(2) {
        assert!(pair[0].1 <= pair[1].0);
    }
    assert_eq!(builder.build().size_in_bytes(), ends[2].1);
}
