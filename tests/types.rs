use gru_vulkan::attributes::{
    vertex_input, AttributeGroupInfo, AttributeGroupReprCpacked, AttributeLocation, AttributeType,
    DescriptorStructReprC, IndexFormat, IndexType, InputRate, VertexAttribute, VertexBinding, I2,
    U3,
};
use gru_vulkan::descriptor::{
    pool_size, uniform_ranges, PoolSize, DescriptorError, DescriptorBindingInfo, DescriptorBindingType, DescriptorCounts, DescriptorVisibility,
};
use gru_vulkan::image::{mip_extents, ImageChannelType, ImageLayers, ImageType, ImageUsage, ImageUsageFlags, Msaa};
use gru_vulkan::layout::{BufferTypeBuilder, BufferUsage};
use gru_vulkan::pipeline::{DepthTest, DrawMode};
use gru_vulkan::render_pass::{framebuffer_extent, FramebufferAttachment, FramebufferError};
use gru_vulkan::swapchain::{SwapchainCycle, SwapchainObjectIndex, SwapchainObjects};

#[allow(dead_code)]
struct Mesh;

impl AttributeGroupReprCpacked for Mesh {
    fn group_rate() -> InputRate {
        InputRate::Vertex
    }

    fn group_attributes() -> &'static [(AttributeLocation, AttributeType)] {
        Self::attributes()
    }

    fn rate() -> InputRate {
        InputRate::Vertex
    }

    fn attributes() -> &'static [(AttributeLocation, AttributeType)] {
        &[
            (AttributeLocation(0), AttributeType::F3),
            (AttributeLocation(1), AttributeType::U1),
            (AttributeLocation(2), AttributeType::I4),
        ]
    }
}

#[allow(dead_code)]
struct Instance;

impl AttributeGroupReprCpacked for Instance {
    fn group_rate() -> InputRate {
        InputRate::Instance
    }

    fn group_attributes() -> &'static [(AttributeLocation, AttributeType)] {
        Self::attributes()
    }

    fn rate() -> InputRate {
        InputRate::Instance
    }

    fn attributes() -> &'static [(AttributeLocation, AttributeType)] {
        &[(AttributeLocation(3), AttributeType::F2)]
    }
}

#[derive(Clone, Copy)]
#[allow(dead_code)]
struct Camera([u32; 36]);

impl DescriptorStructReprC for Camera {}

#[test]
fn attribute_sizes() {
    assert_eq!(AttributeType::F1.size_in_bytes(), 4);
    assert_eq!(AttributeType::I2.size_in_bytes(), 8);
    assert_eq!(AttributeType::U3.size_in_bytes(), 12);
    assert_eq!(AttributeType::F4.size_in_bytes(), 16);
    assert_eq!(I2::TYPE, AttributeType::I2);
    assert_eq!(u16::index_format(), IndexFormat::Uint16);
    assert_eq!(u32::index_format(), IndexFormat::Uint32);
}

#[test]
fn integer_attributes_convert_both_ways() {
    let v: I2 = (3, -4).into();
    assert_eq!(v, I2(3, -4));
    let back: (i32, i32) = v.into();
    assert_eq!(back, (3, -4));
    let u = U3::from((1, 2, 3));
    let t: (u32, u32, u32) = u.into();
    assert_eq!(t, (1, 2, 3));
}

#[test]
fn group_stride_is_sum_of_sizes() {
    let mesh = AttributeGroupInfo::from::<Mesh>();
    assert_eq!(mesh.rate, InputRate::Vertex);
    assert_eq!(mesh.attributes, Mesh::attributes());
    assert_eq!(mesh.stride(), 32);
    let instance = AttributeGroupInfo::from::<Instance>();
    let (bindings, attributes) = vertex_input(&[mesh, instance]);
    assert_eq!(
        bindings,
        vec![
            VertexBinding { binding: 0, stride: 32, rate: InputRate::Vertex },
            VertexBinding { binding: 1, stride: 8, rate: InputRate::Instance },
        ]
    );
    assert_eq!(
        attributes,
        vec![
            VertexAttribute { binding: 0, location: 0, offset: 0, format: AttributeType::F3 },
            VertexAttribute { binding: 0, location: 1, offset: 12, format: AttributeType::U1 },
            VertexAttribute { binding: 0, location: 2, offset: 16, format: AttributeType::I4 },
            VertexAttribute { binding: 1, location: 3, offset: 0, format: AttributeType::F2 },
        ]
    );
}

#[test]
fn image_sizes_and_levels() {
    let image = ImageType { channel: ImageChannelType::BgraUnorm, width: 1024, height: 512, layers: ImageLayers::CubeArray(2) };
    assert_eq!(image.layers(), 12);
    assert_eq!(image.layer_size_in_bytes(), 4 * 1024 * 512);
    let mip = ImageUsage::Texture { mipmapping: true };
    assert_eq!(mip.mip_levels(image), 11);
    let odd = ImageType { channel: ImageChannelType::RgbaSfloat, width: 3, height: 5, layers: ImageLayers::Single };
    assert_eq!(mip.mip_levels(odd), 3);
    assert_eq!(odd.layer_size_in_bytes(), 16 * 15);
    assert_eq!(odd.layers(), 1);
    let empty = ImageType { channel: ImageChannelType::RUint, width: 0, height: 0, layers: ImageLayers::Cube };
    assert_eq!(mip.mip_levels(empty), 1);
    assert_eq!(empty.layers(), 6);
    assert_eq!(ImageUsage::Texture { mipmapping: false }.mip_levels(image), 1);
    let target = ImageUsage::Attachment { depth: true, samples: Msaa::X4, texture: false, transfer_src: false };
    assert_eq!(target.mip_levels(image), 1);
    assert!(target.depth());
    assert_eq!(target.samples(), Msaa::X4);
    assert_eq!(Msaa::X8.sample_count(), 8);
    assert!(ImageChannelType::DSfloat.has_depth());
    assert!(!ImageChannelType::RSfloat.has_depth());
    assert_eq!(ImageChannelType::RSrgb.size_in_bytes(), 1);
    assert_eq!(ImageChannelType::RgbaShalffloat.size_in_bytes(), 8);
}

#[test]
fn descriptor_bindings() {
    let uniform = DescriptorBindingInfo::from_struct::<Camera>(2, true, false);
    assert_eq!(uniform.ty, DescriptorBindingType::Struct { size_in_bytes: 144 });
    assert_eq!(uniform.visibility, DescriptorVisibility { compute: false, vertex: true, fragment: false });
    assert_eq!(uniform.type_count(), DescriptorCounts { uniform: 2, sampler: 0, input_attachment: 0, storage: 0 });
    let sampler = DescriptorBindingInfo::from_sampler(ImageChannelType::BgraSrgb, 3, false, true);
    assert_eq!(sampler.type_count(), DescriptorCounts { uniform: 0, sampler: 3, input_attachment: 0, storage: 0 });
    let input = DescriptorBindingInfo::from_input_attachment(ImageChannelType::DSfloat);
    assert_eq!(input.count, 1);
    assert_eq!(input.visibility, DescriptorVisibility { compute: false, vertex: false, fragment: true });
    assert_eq!(input.type_count(), DescriptorCounts { uniform: 0, sampler: 0, input_attachment: 1, storage: 0 });
}

#[test]
fn draw_modes_and_depth_tests() {
    assert_eq!(
        DrawMode::index_instanced(6, 4),
        DrawMode::Index { index_count: 6, instance_count: 4, first_index: 0, vertex_offset: 0, first_instance: 0 }
    );
    assert_eq!(
        DrawMode::index(6),
        DrawMode::Index { index_count: 6, instance_count: 1, first_index: 0, vertex_offset: 0, first_instance: 0 }
    );
    assert_eq!(DrawMode::vertex(3), DrawMode::Vertex { vertex_count: 3, instance_count: 1, first_vertex: 0, first_instance: 0 });
    assert_eq!(
        DrawMode::vertex_instanced(3, 9),
        DrawMode::Vertex { vertex_count: 3, instance_count: 9, first_vertex: 0, first_instance: 0 }
    );
    assert!(!DepthTest::Off.depth_test_enable());
    assert!(DepthTest::Normal.depth_test_enable() && !DepthTest::Normal.depth_clamp_enable());
    assert!(DepthTest::Clamp.depth_test_enable() && DepthTest::Clamp.depth_clamp_enable());
}

#[test]
fn swapchain_objects_follow_their_index() {
    let objects = SwapchainObjects::new(3, |i: &SwapchainObjectIndex| i.get() * 10);
    assert_eq!(objects.len(), 3);
    assert_eq!(*objects.get(&SwapchainObjectIndex::new(2)), 20);
    let doubled = objects.map(|x: &usize| x * 2);
    assert_eq!(doubled.into_vec(), vec![0, 20, 40]);
    let mut strings = objects.into_map(|x: usize| x + 1);
    *strings.get_mut(&SwapchainObjectIndex::new(0)) = 100;
    assert_eq!(strings.iter().copied().collect::<Vec<_>>(), vec![100, 11, 21]);
}

#[test]
fn swapchain_cycle_wraps_around() {
    let mut cycle = SwapchainCycle::new(3, || 7u32);
    *cycle.get_mut(1) = 8;
    *cycle.get_previous_mut(0) = 9;
    assert_eq!(*cycle.get(2), 9);
    assert_eq!(*cycle.get_previous(2), 8);
    assert_eq!(*cycle.get_previous(1), 7);
    let sums = cycle.map(|x: &u32| x + 1);
    assert_eq!(sums.iter().copied().collect::<Vec<_>>(), vec![8, 9, 10]);
    let back = sums.into_map(|x: u32| x * 2);
    assert_eq!(back.len(), 3);
    assert_eq!(*back.get(0), 16);
}

#[test]
fn framebuffer_extent_needs_equal_sizes() {
    let swapchain = FramebufferAttachment::Swapchain { width: 800, height: 600 };
    let image = |width: u32, height: u32, usage: ImageUsage| FramebufferAttachment::Image {
        image_type: ImageType { channel: ImageChannelType::DSfloat, width, height, layers: ImageLayers::Single },
        usage,
    };
    let depth = ImageUsage::Attachment { depth: true, samples: Msaa::X1, texture: false, transfer_src: false };
    let texture = ImageUsage::Texture { mipmapping: false };
    assert_eq!(framebuffer_extent(&[]), Err(FramebufferError::NoAttachments));
    assert_eq!(framebuffer_extent(&[swapchain, image(800, 600, depth)]), Ok((800, 600)));
    assert_eq!(
        framebuffer_extent(&[swapchain, image(800, 601, depth)]),
        Err(FramebufferError::InconsistentDimensions)
    );
    assert_eq!(
        framebuffer_extent(&[swapchain, image(800, 600, texture)]),
        Err(FramebufferError::TextureAttachment)
    );
    // attachments are checked in order: the first fault is the one reported
    assert_eq!(
        framebuffer_extent(&[swapchain, image(800, 600, texture), image(1, 1, depth)]),
        Err(FramebufferError::TextureAttachment)
    );
    assert_eq!(
        framebuffer_extent(&[swapchain, image(1, 1, depth), image(800, 600, texture)]),
        Err(FramebufferError::InconsistentDimensions)
    );
    assert_eq!(image(3, 4, depth).dimensions(), (3, 4));
}

#[test]
fn uniform_ranges_cover_each_struct() {
    let mut builder = BufferTypeBuilder::new(30, 256, 16);
    builder.add_indices::<u16>(1);
    let cameras = builder.add_uniforms::<Camera>(2);
    let layout = builder.build();
    let buffer = layout.buffer_info(BufferUsage::Dynamic);
    let binding = DescriptorBindingInfo::from_struct::<Camera>(2, true, true);
    assert_eq!(uniform_ranges(&binding, &buffer, &cameras), Ok(vec![(256, 256), (512, 256)]));
    let single = DescriptorBindingInfo::from_struct::<Camera>(1, true, true);
    assert_eq!(uniform_ranges(&single, &buffer, &cameras), Err(DescriptorError::WrongCount));
    let sampler = DescriptorBindingInfo::from_sampler(ImageChannelType::BgraSrgb, 2, false, true);
    assert_eq!(uniform_ranges(&sampler, &buffer, &cameras), Err(DescriptorError::WrongType));
    let mut other = BufferTypeBuilder::new(31, 256, 16);
    other.add_indices::<u16>(1);
    let other = other.build().buffer_info(BufferUsage::Dynamic);
    assert_eq!(uniform_ranges(&binding, &other, &cameras), Err(DescriptorError::IncompatibleView));
}

#[test]
fn pool_size_sums_over_sets() {
    let first = [
        DescriptorBindingInfo::from_struct::<Camera>(2, true, false),
        DescriptorBindingInfo::from_sampler(ImageChannelType::BgraSrgb, 3, false, true),
    ];
    let second = [DescriptorBindingInfo::from_input_attachment(ImageChannelType::DSfloat)];
    let pool = pool_size(&[(&first[..], 2), (&second[..], 3)]);
    assert_eq!(
        pool,
        Some(PoolSize {
            sets: 5,
            counts: DescriptorCounts { uniform: 4, sampler: 6, input_attachment: 3, storage: 0 },
        })
    );
    let huge = [DescriptorBindingInfo::from_sampler(ImageChannelType::BgraSrgb, u32::MAX, false, true)];
    assert_eq!(pool_size(&[(&huge[..], 2)]), None);
    assert_eq!(pool_size(&[(&huge[..], 1)]).map(|p| p.counts.sampler), Some(u32::MAX));
    assert_eq!(pool_size(&[(&huge[..], 0), (&huge[..], 0)]).map(|p| p.sets), Some(0));
    assert_eq!(pool_size(&[]).map(|p| p.sets), Some(0));
}

#[test]
fn image_usage_flags() {
    assert_eq!(
        ImageUsage::Texture { mipmapping: true }.usage_flags(),
        ImageUsageFlags {
            transfer_src: true,
            transfer_dst: true,
            sampled: true,
            color_attachment: false,
            depth_stencil_attachment: false,
            input_attachment: false,
        }
    );
    let depth = ImageUsage::Attachment { depth: true, samples: Msaa::X1, texture: false, transfer_src: false };
    let flags = depth.usage_flags();
    assert!(flags.depth_stencil_attachment && flags.input_attachment);
    assert!(!flags.color_attachment && !flags.sampled && !flags.transfer_src);
}

#[test]
fn mip_chain_halves_down_to_one() {
    assert_eq!(mip_extents(8, 3, 4), vec![(8, 3), (4, 1), (2, 1), (1, 1)]);
    assert_eq!(mip_extents(5, 5, 0), vec![]);
    let image = ImageType { channel: ImageChannelType::BgraSrgb, width: 640, height: 480, layers: ImageLayers::Single };
    let levels = ImageUsage::Texture { mipmapping: true }.mip_levels(image);
    let chain = mip_extents(640, 480, levels);
    assert_eq!(chain.len(), 10);
    assert_eq!(chain[9], (1, 1));
    assert_eq!(chain[1], (320, 240));
}
