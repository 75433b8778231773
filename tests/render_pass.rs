use gru_vulkan::image::{ImageChannelType, ImageLayout, Msaa};
use gru_vulkan::render_pass::{
    Access, AttachmentDescription, AttachmentReference, AttachmentStore, ClearColor, ClearValue,
    ColorAttachmentLoad, Dependency, DepthAttachmentLoad, InputAttachment, LoadOp, Multiview,
    NativeLayout, OutputAttachment, PipelineStages, RenderPassColorAttachment,
    RenderPassDepthAttachment, RenderPassError, RenderPassInfo, ResolveAttachment, StoreOp,
    Subpass, SubpassRef, DEPTH_ONE_BITS,
};

fn color(store: AttachmentStore) -> RenderPassColorAttachment {
    RenderPassColorAttachment::Image {
        image_channel_type: ImageChannelType::RgbaShalffloat,
        samples: Msaa::X1,
        load: ColorAttachmentLoad::DontCare,
        store,
        initial_layout: ImageLayout::Undefined,
        final_layout: ImageLayout::Shader,
    }
}

fn depth(store: AttachmentStore) -> RenderPassDepthAttachment {
    RenderPassDepthAttachment {
        image_channel_type: ImageChannelType::DSfloat,
        samples: Msaa::X1,
        load: DepthAttachmentLoad::Clear { depth: 1.0f32.to_bits() },
        store,
        initial_layout: ImageLayout::Undefined,
        final_layout: ImageLayout::Attachment,
    }
}

fn input(attachment_index: u32, slot: u32) -> InputAttachment {
    InputAttachment { attachment_index, fragment_input_attachment_index: slot }
}

fn output(attachment_index: u32, location: u32) -> OutputAttachment {
    OutputAttachment { attachment_index, fragment_out_location: location }
}

fn store_edge(src: u32) -> Dependency {
    Dependency {
        src_subpass: SubpassRef::Index(src),
        dst_subpass: SubpassRef::External,
        src_stages: PipelineStages::ColorAttachmentOutput,
        src_access: Access::ColorAttachmentWrite,
        dst_stages: PipelineStages::VertexAndFragmentShader,
        dst_access: Access::ShaderRead,
        by_region: true,
    }
}

#[test]
fn swapchain_pass_has_two_external_edges() {
    let clear = ClearColor(0.0f32.to_bits(), 0.5f32.to_bits(), 1.0f32.to_bits(), 1.0f32.to_bits());
    let colors = [RenderPassColorAttachment::Swapchain(
        gru_vulkan::render_pass::SwapchainLoad::Clear { color: clear },
    )];
    let outs = [output(0, 0)];
    let subpasses = [Subpass {
        input_attachments: &[],
        output_attachments: &outs,
        resolve_attachments: None,
        depth_attachment: false,
    }];
    let info = RenderPassInfo {
        color_attachments: &colors,
        depth_attachment: None,
        subpasses: &subpasses,
        multiview: None,
    };
    let graph = info.synthesize().unwrap();
    assert_eq!(
        graph.dependencies,
        vec![
            Dependency {
                src_subpass: SubpassRef::External,
                dst_subpass: SubpassRef::Index(0),
                src_stages: PipelineStages::ColorAttachmentOutput,
                src_access: Access::Nothing,
                dst_stages: PipelineStages::ColorAttachmentOutput,
                dst_access: Access::ColorAttachmentWrite,
                by_region: true,
            },
            store_edge(0),
        ]
    );
    assert_eq!(
        graph.attachments,
        vec![AttachmentDescription {
            format: ImageChannelType::BgraSrgb,
            samples: Msaa::X1,
            load_op: LoadOp::Clear,
            store_op: StoreOp::Store,
            initial_layout: NativeLayout::Undefined,
            final_layout: NativeLayout::PresentSource,
        }]
    );
    assert_eq!(graph.clear_values, vec![ClearValue::Color(clear)]);
    assert_eq!(graph.subpasses.len(), 1);
    assert_eq!(
        graph.subpasses[0].colors,
        vec![AttachmentReference { attachment: 0, layout: NativeLayout::ColorAttachment }]
    );
    assert!(graph.subpasses[0].inputs.is_empty());
    assert_eq!(graph.subpasses[0].depth, None);
    assert_eq!(graph.view_mask, None);
}

#[test]
fn input_read_depends_on_its_writer() {
    // attachment 0: an image written by subpass 0 and read by subpass 1
    // attachment 1: the swapchain image, written by subpass 1
    let colors = [
        color(AttachmentStore::DontCare),
        RenderPassColorAttachment::Swapchain(gru_vulkan::render_pass::SwapchainLoad::DontCare),
    ];
    let first_out = [output(0, 0)];
    let second_in = [input(0, 0)];
    let second_out = [output(1, 0)];
    let subpasses = [
        Subpass {
            input_attachments: &[],
            output_attachments: &first_out,
            resolve_attachments: None,
            depth_attachment: false,
        },
        Subpass {
            input_attachments: &second_in,
            output_attachments: &second_out,
            resolve_attachments: None,
            depth_attachment: false,
        },
    ];
    let info = RenderPassInfo {
        color_attachments: &colors,
        depth_attachment: None,
        subpasses: &subpasses,
        multiview: None,
    };
    let graph = info.synthesize().unwrap();
    let internal = Dependency {
        src_subpass: SubpassRef::Index(0),
        dst_subpass: SubpassRef::Index(1),
        src_stages: PipelineStages::ColorAttachmentOutput,
        src_access: Access::ColorAttachmentWrite,
        dst_stages: PipelineStages::FragmentShader,
        dst_access: Access::InputAttachmentRead,
        by_region: true,
    };
    assert!(graph.dependencies.contains(&internal));
    assert_eq!(graph.dependencies.len(), 3);
    // the swapchain image is final after subpass 1
    assert_eq!(graph.dependencies[1], store_edge(1));
    assert_eq!(
        graph.subpasses[1].inputs,
        vec![AttachmentReference { attachment: 0, layout: NativeLayout::ShaderReadOnly }]
    );
    assert_eq!(graph.attachments[0].load_op, LoadOp::DontCare);
    assert_eq!(graph.attachments[0].store_op, StoreOp::DontCare);
    assert_eq!(graph.attachments[0].final_layout, NativeLayout::ShaderReadOnly);
    assert_eq!(graph.clear_values[0], ClearValue::Color(ClearColor(0, 0, 0, 0)));
}

#[test]
fn depth_read_uses_depth_stages_and_layouts() {
    let colors = [color(AttachmentStore::Store)];
    let first_out = [output(0, 0)];
    let second_in = [input(1, 0)];
    let subpasses = [
        Subpass {
            input_attachments: &[],
            output_attachments: &first_out,
            resolve_attachments: None,
            depth_attachment: true,
        },
        Subpass {
            input_attachments: &second_in,
            output_attachments: &[],
            resolve_attachments: None,
            depth_attachment: false,
        },
    ];
    let info = RenderPassInfo {
        color_attachments: &colors,
        depth_attachment: Some(depth(AttachmentStore::Store)),
        subpasses: &subpasses,
        multiview: None,
    };
    let graph = info.synthesize().unwrap();
    assert_eq!(
        graph.subpasses[0].depth,
        Some(AttachmentReference { attachment: 1, layout: NativeLayout::DepthStencilAttachment })
    );
    assert_eq!(
        graph.subpasses[1].inputs,
        vec![AttachmentReference { attachment: 1, layout: NativeLayout::DepthStencilReadOnly }]
    );
    assert_eq!(graph.attachments[1].final_layout, NativeLayout::DepthStencilAttachment);
    assert_eq!(
        graph.clear_values[1],
        ClearValue::DepthStencil { depth: 1.0f32.to_bits(), stencil: 0 }
    );
    assert_eq!(
        graph.dependencies,
        vec![
            store_edge(0),
            Dependency {
                src_subpass: SubpassRef::Index(0),
                dst_subpass: SubpassRef::External,
                src_stages: PipelineStages::LateFragmentTests,
                src_access: Access::DepthStencilAttachmentWrite,
                dst_stages: PipelineStages::VertexAndFragmentShader,
                dst_access: Access::ShaderRead,
                by_region: true,
            },
            Dependency {
                src_subpass: SubpassRef::Index(0),
                dst_subpass: SubpassRef::Index(1),
                src_stages: PipelineStages::LateFragmentTests,
                src_access: Access::DepthStencilAttachmentWrite,
                dst_stages: PipelineStages::FragmentShader,
                dst_access: Access::InputAttachmentRead,
                by_region: true,
            },
        ]
    );
}

#[test]
fn unwritten_stored_attachment_ends_after_last_subpass() {
    let colors = [color(AttachmentStore::Store), color(AttachmentStore::Store)];
    let outs = [output(0, 0)];
    let subpasses = [
        Subpass {
            input_attachments: &[],
            output_attachments: &outs,
            resolve_attachments: None,
            depth_attachment: false,
        },
        Subpass {
            input_attachments: &[],
            output_attachments: &[],
            resolve_attachments: None,
            depth_attachment: false,
        },
    ];
    let info = RenderPassInfo {
        color_attachments: &colors,
        depth_attachment: Some(depth(AttachmentStore::DontCare)),
        subpasses: &subpasses,
        multiview: Some(Multiview { count: 3, spatial_coherency: true }),
    };
    let graph = info.synthesize().unwrap();
    assert_eq!(graph.dependencies, vec![store_edge(0), store_edge(1)]);
    assert_eq!(graph.view_mask, Some(0b111));
    assert!(graph.correlated_views);
    assert_eq!(graph.attachments.len(), 3);
    assert_eq!(graph.clear_values[2], ClearValue::DepthStencil { depth: DEPTH_ONE_BITS, stencil: 0 });
}

#[test]
fn resolve_targets_are_kept() {
    let colors = [color(AttachmentStore::DontCare), color(AttachmentStore::DontCare)];
    let outs = [output(0, 0)];
    let resolves = [ResolveAttachment::Index(1)];
    let subpasses = [Subpass {
        input_attachments: &[],
        output_attachments: &outs,
        resolve_attachments: Some(&resolves),
        depth_attachment: false,
    }];
    let info = RenderPassInfo {
        color_attachments: &colors,
        depth_attachment: None,
        subpasses: &subpasses,
        multiview: None,
    };
    let graph = info.synthesize().unwrap();
    assert_eq!(graph.subpasses[0].resolves, Some(vec![ResolveAttachment::Index(1)]));
    assert!(graph.dependencies.is_empty());
}

fn plain<'a>(ins: &'a [InputAttachment], outs: &'a [OutputAttachment]) -> Subpass<'a> {
    Subpass { input_attachments: ins, output_attachments: outs, resolve_attachments: None, depth_attachment: false }
}

fn error_of(
    colors: &[RenderPassColorAttachment],
    depth_attachment: Option<RenderPassDepthAttachment>,
    subpasses: &[Subpass],
) -> RenderPassError {
    let info = RenderPassInfo { color_attachments: colors, depth_attachment, subpasses, multiview: None };
    info.synthesize().unwrap_err()
}

#[test]
fn malformed_passes_are_rejected() {
    let colors = [color(AttachmentStore::Store), color(AttachmentStore::Store)];
    assert_eq!(error_of(&colors, None, &[]), RenderPassError::NoSubpasses);
    let mut not_depth = depth(AttachmentStore::Store);
    not_depth.image_channel_type = ImageChannelType::RSfloat;
    assert_eq!(
        error_of(&colors, Some(not_depth), &[plain(&[], &[])]),
        RenderPassError::DepthFormatWithoutDepth
    );
    let missing_in = [input(2, 0)];
    assert_eq!(error_of(&colors, None, &[plain(&missing_in, &[])]), RenderPassError::NoSuchAttachment);
    let bad_slot = [input(0, 1)];
    assert_eq!(error_of(&colors, None, &[plain(&bad_slot, &[])]), RenderPassError::WrongInputIndex);
    let missing_out = [output(5, 0)];
    assert_eq!(error_of(&colors, None, &[plain(&[], &missing_out)]), RenderPassError::NoSuchAttachment);
    let bad_location = [output(0, 3)];
    assert_eq!(
        error_of(&colors, None, &[plain(&[], &bad_location)]),
        RenderPassError::WrongOutputLocation
    );
    let out0 = [output(0, 0)];
    let two_resolves = [ResolveAttachment::Unused, ResolveAttachment::Index(1)];
    let resolving = Subpass {
        input_attachments: &[],
        output_attachments: &out0,
        resolve_attachments: Some(&two_resolves),
        depth_attachment: false,
    };
    assert_eq!(error_of(&colors, None, &[resolving]), RenderPassError::ResolveCountMismatch);
    let far_resolve = [ResolveAttachment::Index(2)];
    let resolving = Subpass {
        input_attachments: &[],
        output_attachments: &out0,
        resolve_attachments: Some(&far_resolve),
        depth_attachment: false,
    };
    // attachment 2 is the depth attachment, which cannot take resolved samples
    assert_eq!(
        error_of(&colors, Some(depth(AttachmentStore::Store)), &[resolving]),
        RenderPassError::NoSuchAttachment
    );
    let with_depth = Subpass {
        input_attachments: &[],
        output_attachments: &[],
        resolve_attachments: None,
        depth_attachment: true,
    };
    assert_eq!(error_of(&colors, None, &[with_depth]), RenderPassError::NoDepthAttachment);
    let in0 = [input(0, 0)];
    assert_eq!(error_of(&colors, None, &[plain(&in0, &out0)]), RenderPassError::SelfDependency);
    // a fault in an earlier subpass is the one reported
    assert_eq!(
        error_of(&colors, None, &[plain(&bad_slot, &[]), plain(&missing_in, &[])]),
        RenderPassError::WrongInputIndex
    );
}
