use vstd::prelude::*;
use crate::image::{ImageChannelType, ImageLayout, ImageType, ImageUsage, Msaa};

verus! {

/// Bit pattern of the `f32` value 1.0, the depth that a depth attachment is cleared to
/// unless told otherwise.
pub const DEPTH_ONE_BITS: u32 = 0x3f80_0000;

/// The channel type of swapchain images.
pub const SWAPCHAIN_CHANNEL_TYPE: ImageChannelType = ImageChannelType::BgraSrgb;

/// A color as the bit patterns of its red, green, blue and alpha `f32` channels.
#[derive(Clone, Copy, Debug, PartialEq, Eq, Structural)]
pub struct ClearColor(pub u32, pub u32, pub u32, pub u32);

/// What a color attachment holds when a pass begins.
#[derive(Clone, Copy, Debug, PartialEq, Eq, Structural)]
pub enum ColorAttachmentLoad {
    Load,
    Clear { color: ClearColor },
    DontCare,
}

/// What a swapchain image holds when a pass begins.
#[derive(Clone, Copy, Debug, PartialEq, Eq, Structural)]
pub enum SwapchainLoad {
    Clear { color: ClearColor },
    DontCare,
}

/// What a depth attachment holds when a pass begins; the depth is the bit pattern of an
/// `f32`.
#[derive(Clone, Copy, Debug, PartialEq, Eq, Structural)]
pub enum DepthAttachmentLoad {
    Load,
    Clear { depth: u32 },
    DontCare,
}

/// Whether an attachment's contents are kept when a pass ends.
#[derive(Clone, Copy, Debug, PartialEq, Eq, Structural)]
pub enum AttachmentStore {
    Store,
    DontCare,
}

#[derive(Clone, Copy, Debug, PartialEq, Eq, Structural)]
pub enum RenderPassColorAttachment {
    Swapchain(SwapchainLoad),
    Image {
        image_channel_type: ImageChannelType,
        samples: Msaa,
        load: ColorAttachmentLoad,
        store: AttachmentStore,
        initial_layout: ImageLayout,
        final_layout: ImageLayout,
    },
}

#[derive(Clone, Copy, Debug, PartialEq, Eq, Structural)]
pub struct RenderPassDepthAttachment {
    pub image_channel_type: ImageChannelType,
    pub samples: Msaa,
    pub load: DepthAttachmentLoad,
    pub store: AttachmentStore,
    pub initial_layout: ImageLayout,
    pub final_layout: ImageLayout,
}

/// An attachment that a subpass reads in its fragment shader, at input slot
/// `fragment_input_attachment_index`.
#[derive(Clone, Copy, Debug, PartialEq, Eq, Structural)]
pub struct InputAttachment {
    pub attachment_index: u32,
    pub fragment_input_attachment_index: u32,
}

/// An attachment that a subpass writes, at fragment output `fragment_out_location`.
#[derive(Clone, Copy, Debug, PartialEq, Eq, Structural)]
pub struct OutputAttachment {
    pub attachment_index: u32,
    pub fragment_out_location: u32,
}

/// The attachment that receives the resolved samples of one color output.
#[derive(Clone, Copy, Debug, PartialEq, Eq, Structural)]
pub enum ResolveAttachment {
    Index(u32),
    Unused,
}

#[derive(Clone, Copy, Debug)]
pub struct Subpass<'a> {
    pub input_attachments: &'a [InputAttachment],
    pub output_attachments: &'a [OutputAttachment],
    pub resolve_attachments: Option<&'a [ResolveAttachment]>,
    pub depth_attachment: bool,
}

/// Rendering the pass to `count` views at once.
#[derive(Clone, Copy, Debug, PartialEq, Eq, Structural)]
pub struct Multiview {
    pub count: u32,
    pub spatial_coherency: bool,
}

/// A render pass: the color attachments, then the depth attachment if there is one, all
/// numbered in that order, and the subpasses that use them.
#[derive(Clone, Copy, Debug)]
pub struct RenderPassInfo<'a> {
    pub color_attachments: &'a [RenderPassColorAttachment],
    pub depth_attachment: Option<RenderPassDepthAttachment>,
    pub subpasses: &'a [Subpass<'a>],
    pub multiview: Option<Multiview>,
}

/// A malformed render pass.
#[derive(Clone, Copy, Debug, PartialEq, Eq, Structural)]
pub enum RenderPassError {
    NoSubpasses,
    /// The depth attachment's channel type has no depth component.
    DepthFormatWithoutDepth,
    /// A reference to an attachment that does not exist; a resolve target must be a
    /// color attachment.
    NoSuchAttachment,
    /// An input's slot differs from its position in the subpass's list.
    WrongInputIndex,
    /// An output's location differs from its position in the subpass's list.
    WrongOutputLocation,
    /// A subpass resolves a different number of attachments than it writes.
    ResolveCountMismatch,
    /// A subpass uses the depth attachment, and the pass has none.
    NoDepthAttachment,
    /// A subpass reads an attachment that it writes itself.
    SelfDependency,
}

/// How the native pass loads an attachment.
#[derive(Clone, Copy, Debug, PartialEq, Eq, Structural)]
pub enum LoadOp {
    Load,
    Clear,
    DontCare,
}

/// How the native pass stores an attachment.
#[derive(Clone, Copy, Debug, PartialEq, Eq, Structural)]
pub enum StoreOp {
    Store,
    DontCare,
}

/// The native image layouts that a pass uses.
#[derive(Clone, Copy, Debug, PartialEq, Eq, Structural)]
pub enum NativeLayout {
    Undefined,
    ColorAttachment,
    DepthStencilAttachment,
    ShaderReadOnly,
    DepthStencilReadOnly,
    PresentSource,
}

#[derive(Clone, Copy, Debug, PartialEq, Eq, Structural)]
pub struct AttachmentDescription {
    pub format: ImageChannelType,
    pub samples: Msaa,
    pub load_op: LoadOp,
    pub store_op: StoreOp,
    pub initial_layout: NativeLayout,
    pub final_layout: NativeLayout,
}

/// The value an attachment is cleared to, as bit patterns of `f32`s.
#[derive(Clone, Copy, Debug, PartialEq, Eq, Structural)]
pub enum ClearValue {
    Color(ClearColor),
    DepthStencil { depth: u32, stencil: u32 },
}

#[derive(Clone, Copy, Debug, PartialEq, Eq, Structural)]
pub struct AttachmentReference {
    pub attachment: u32,
    pub layout: NativeLayout,
}

/// The attachments that one subpass reads, writes and resolves into.
#[derive(Clone, Debug)]
pub struct SubpassDescription {
    pub inputs: Vec<AttachmentReference>,
    pub colors: Vec<AttachmentReference>,
    pub resolves: Option<Vec<ResolveAttachment>>,
    pub depth: Option<AttachmentReference>,
}

/// One end of a dependency: a subpass, or what lies outside the pass.
#[derive(Clone, Copy, Debug, PartialEq, Eq, Structural)]
pub enum SubpassRef {
    External,
    Index(u32),
}

#[derive(Clone, Copy, Debug, PartialEq, Eq, Structural)]
pub enum PipelineStages {
    ColorAttachmentOutput,
    LateFragmentTests,
    FragmentShader,
    VertexAndFragmentShader,
}

#[derive(Clone, Copy, Debug, PartialEq, Eq, Structural)]
pub enum Access {
    Nothing,
    ColorAttachmentWrite,
    DepthStencilAttachmentWrite,
    ShaderRead,
    InputAttachmentRead,
}

/// An execution and memory dependency between two subpasses, or between a subpass and
/// the outside of the pass.
#[derive(Clone, Copy, Debug, PartialEq, Eq, Structural)]
pub struct Dependency {
    pub src_subpass: SubpassRef,
    pub dst_subpass: SubpassRef,
    pub src_stages: PipelineStages,
    pub src_access: Access,
    pub dst_stages: PipelineStages,
    pub dst_access: Access,
    pub by_region: bool,
}

/// Everything the native pass is created from.
#[derive(Clone, Debug)]
pub struct RenderGraph {
    pub attachments: Vec<AttachmentDescription>,
    pub clear_values: Vec<ClearValue>,
    pub subpasses: Vec<SubpassDescription>,
    pub dependencies: Vec<Dependency>,
    /// For a multiview pass, the views that every subpass renders to.
    pub view_mask: Option<u32>,
    /// Whether those views may be rendered together efficiently.
    pub correlated_views: bool,
}

// ----- the model -----

pub open spec fn color_count(info: RenderPassInfo) -> nat {
    info.color_attachments@.len()
}

pub open spec fn attachment_count(info: RenderPassInfo) -> nat {
    color_count(info) + if info.depth_attachment is Some {
        1nat
    } else {
        0nat
    }
}

/// The depth attachment comes after all color attachments.
pub open spec fn depth_index(info: RenderPassInfo) -> Option<u32> {
    if info.depth_attachment is Some {
        Some(color_count(info) as u32)
    } else {
        None
    }
}

pub open spec fn inputs_of(info: RenderPassInfo, s: int) -> Seq<InputAttachment> {
    info.subpasses@[s].input_attachments@
}

pub open spec fn outputs_of(info: RenderPassInfo, s: int) -> Seq<OutputAttachment> {
    info.subpasses@[s].output_attachments@
}

/// Subpass `s` writes attachment `a`, as a color output or as the depth attachment.
pub open spec fn writes(info: RenderPassInfo, s: int, a: u32) -> bool {
    ||| exists|k: int|
        0 <= k < outputs_of(info, s).len() && #[trigger] outputs_of(info, s)[k].attachment_index
            == a
    ||| info.subpasses@[s].depth_attachment && depth_index(info) == Some(a)
}

pub open spec fn inputs_exist(info: RenderPassInfo, s: int) -> bool {
    forall|k: int|
        0 <= k < inputs_of(info, s).len() ==> #[trigger] inputs_of(info, s)[k].attachment_index
            < attachment_count(info)
}

pub open spec fn inputs_numbered(info: RenderPassInfo, s: int) -> bool {
    forall|k: int|
        0 <= k < inputs_of(info, s).len()
            ==> #[trigger] inputs_of(info, s)[k].fragment_input_attachment_index == k
}

pub open spec fn outputs_exist(info: RenderPassInfo, s: int) -> bool {
    forall|k: int|
        0 <= k < outputs_of(info, s).len() ==> #[trigger] outputs_of(info, s)[k].attachment_index
            < attachment_count(info)
}

pub open spec fn outputs_numbered(info: RenderPassInfo, s: int) -> bool {
    forall|k: int|
        0 <= k < outputs_of(info, s).len() ==> #[trigger] outputs_of(info, s)[k].fragment_out_location
            == k
}

/// A resolve target is unused or names a color attachment.
pub open spec fn resolve_target_ok(info: RenderPassInfo, r: ResolveAttachment) -> bool {
    match r {
        ResolveAttachment::Index(i) => i < color_count(info),
        ResolveAttachment::Unused => true,
    }
}

pub open spec fn resolves_exist(info: RenderPassInfo, s: int) -> bool {
    match info.subpasses@[s].resolve_attachments {
        Some(rs) => forall|k: int| 0 <= k < rs@.len() ==> resolve_target_ok(info, #[trigger] rs@[k]),
        None => true,
    }
}

pub open spec fn reads_no_own_output(info: RenderPassInfo, s: int) -> bool {
    forall|k: int|
        0 <= k < inputs_of(info, s).len() ==> !writes(
            info,
            s,
            #[trigger] inputs_of(info, s)[k].attachment_index,
        )
}

/// The first fault of subpass `s`, checked in a fixed order.
pub open spec fn subpass_error(info: RenderPassInfo, s: int) -> Option<RenderPassError> {
    let sp = info.subpasses@[s];
    if !inputs_exist(info, s) {
        Some(RenderPassError::NoSuchAttachment)
    } else if !inputs_numbered(info, s) {
        Some(RenderPassError::WrongInputIndex)
    } else if !outputs_exist(info, s) {
        Some(RenderPassError::NoSuchAttachment)
    } else if !outputs_numbered(info, s) {
        Some(RenderPassError::WrongOutputLocation)
    } else if sp.resolve_attachments is Some && sp.resolve_attachments->Some_0@.len()
        != outputs_of(info, s).len() {
        Some(RenderPassError::ResolveCountMismatch)
    } else if !resolves_exist(info, s) {
        Some(RenderPassError::NoSuchAttachment)
    } else if sp.depth_attachment && info.depth_attachment is None {
        Some(RenderPassError::NoDepthAttachment)
    } else if !reads_no_own_output(info, s) {
        Some(RenderPassError::SelfDependency)
    } else {
        None
    }
}

/// The first fault among the first `n` subpasses.
pub open spec fn first_subpass_error(info: RenderPassInfo, n: int) -> Option<RenderPassError>
    decreases n,
{
    if n <= 0 {
        None
    } else {
        match first_subpass_error(info, n - 1) {
            Some(e) => Some(e),
            None => subpass_error(info, n - 1),
        }
    }
}

/// The fault that makes a render pass malformed, if it is.
pub open spec fn graph_error(info: RenderPassInfo) -> Option<RenderPassError> {
    if info.subpasses@.len() == 0 {
        Some(RenderPassError::NoSubpasses)
    } else if info.depth_attachment is Some
        && info.depth_attachment->Some_0.image_channel_type != ImageChannelType::DSfloat {
        Some(RenderPassError::DepthFormatWithoutDepth)
    } else {
        first_subpass_error(info, info.subpasses@.len() as int)
    }
}

/// Once a fault is found among the first subpasses, it stays the first one.
proof fn lemma_first_error_stays(info: RenderPassInfo, n: int, m: int)
    requires
        n <= m,
        first_subpass_error(info, n) is Some,
    ensures
        first_subpass_error(info, m) == first_subpass_error(info, n),
    decreases m - n,
{
    if n < m {
        lemma_first_error_stays(info, n, m - 1);
    }
}

// ----- validation -----

/// Whether subpass `s` writes attachment `a`.
fn subpass_writes(info: &RenderPassInfo, s: usize, a: u32) -> (r: bool)
    requires
        s < info.subpasses@.len(),
        info.color_attachments@.len() < u32::MAX,
    ensures
        r == writes(*info, s as int, a),
{
    let sp = &info.subpasses[s];
    let mut k: usize = 0;
    while k < sp.output_attachments.len()
        invariant
            s < info.subpasses@.len(),
            *sp == info.subpasses@[s as int],
            k <= sp.output_attachments@.len(),
            forall|j: int| 0 <= j < k ==> #[trigger] outputs_of(*info, s as int)[j].attachment_index != a,
        decreases sp.output_attachments@.len() - k,
    {
        if sp.output_attachments[k].attachment_index == a {
            assert(outputs_of(*info, s as int)[k as int].attachment_index == a);
            return true;
        }
        k += 1;
    }
    sp.depth_attachment && info.depth_attachment.is_some() && info.color_attachments.len() as u32
        == a
}

fn check_inputs_exist(info: &RenderPassInfo, s: usize) -> (r: bool)
    requires
        s < info.subpasses@.len(),
        info.color_attachments@.len() < u32::MAX,
    ensures
        r == inputs_exist(*info, s as int),
{
    let n: u64 = info.color_attachments.len() as u64 + if info.depth_attachment.is_some() {
        1
    } else {
        0
    };
    let ins = info.subpasses[s].input_attachments;
    let mut k: usize = 0;
    while k < ins.len()
        invariant
            ins@ == inputs_of(*info, s as int),
            n == attachment_count(*info),
            k <= ins@.len(),
            forall|j: int| 0 <= j < k ==> #[trigger] ins@[j].attachment_index < n,
        decreases ins@.len() - k,
    {
        if ins[k].attachment_index as u64 >= n {
            assert(inputs_of(*info, s as int)[k as int].attachment_index >= n);
            return false;
        }
        k += 1;
    }
    true
}

fn check_inputs_numbered(info: &RenderPassInfo, s: usize) -> (r: bool)
    requires
        s < info.subpasses@.len(),
    ensures
        r == inputs_numbered(*info, s as int),
{
    let ins = info.subpasses[s].input_attachments;
    let mut k: usize = 0;
    while k < ins.len()
        invariant
            ins@ == inputs_of(*info, s as int),
            k <= ins@.len(),
            forall|j: int| 0 <= j < k ==> #[trigger] ins@[j].fragment_input_attachment_index == j,
        decreases ins@.len() - k,
    {
        if ins[k].fragment_input_attachment_index as usize != k {
            assert(inputs_of(*info, s as int)[k as int].fragment_input_attachment_index != k);
            return false;
        }
        k += 1;
    }
    true
}

fn check_outputs_exist(info: &RenderPassInfo, s: usize) -> (r: bool)
    requires
        s < info.subpasses@.len(),
        info.color_attachments@.len() < u32::MAX,
    ensures
        r == outputs_exist(*info, s as int),
{
    let n: u64 = info.color_attachments.len() as u64 + if info.depth_attachment.is_some() {
        1
    } else {
        0
    };
    let outs = info.subpasses[s].output_attachments;
    let mut k: usize = 0;
    while k < outs.len()
        invariant
            outs@ == outputs_of(*info, s as int),
            n == attachment_count(*info),
            k <= outs@.len(),
            forall|j: int| 0 <= j < k ==> #[trigger] outs@[j].attachment_index < n,
        decreases outs@.len() - k,
    {
        if outs[k].attachment_index as u64 >= n {
            assert(outputs_of(*info, s as int)[k as int].attachment_index >= n);
            return false;
        }
        k += 1;
    }
    true
}

fn check_outputs_numbered(info: &RenderPassInfo, s: usize) -> (r: bool)
    requires
        s < info.subpasses@.len(),
    ensures
        r == outputs_numbered(*info, s as int),
{
    let outs = info.subpasses[s].output_attachments;
    let mut k: usize = 0;
    while k < outs.len()
        invariant
            outs@ == outputs_of(*info, s as int),
            k <= outs@.len(),
            forall|j: int| 0 <= j < k ==> #[trigger] outs@[j].fragment_out_location == j,
        decreases outs@.len() - k,
    {
        if outs[k].fragment_out_location as usize != k {
            assert(outputs_of(*info, s as int)[k as int].fragment_out_location != k);
            return false;
        }
        k += 1;
    }
    true
}

fn check_resolves_exist(info: &RenderPassInfo, s: usize) -> (r: bool)
    requires
        s < info.subpasses@.len(),
    ensures
        r == resolves_exist(*info, s as int),
{
    match info.subpasses[s].resolve_attachments {
        Some(rs) => {
            let mut k: usize = 0;
            while k < rs.len()
                invariant
                    s < info.subpasses@.len(),
                    info.subpasses@[s as int].resolve_attachments == Some(rs),
                    k <= rs@.len(),
                    forall|j: int| 0 <= j < k ==> resolve_target_ok(*info, #[trigger] rs@[j]),
                decreases rs@.len() - k,
            {
                if let ResolveAttachment::Index(i) = rs[k] {
                    if i as usize >= info.color_attachments.len() {
                        let ghost all = info.subpasses@[s as int].resolve_attachments->Some_0@;
                        assert(all[k as int] == rs@[k as int]);
                        assert(!resolve_target_ok(*info, all[k as int]));
                        return false;
                    }
                }
                k += 1;
            }
            true
        },
        None => true,
    }
}

fn check_reads_no_own_output(info: &RenderPassInfo, s: usize) -> (r: bool)
    requires
        s < info.subpasses@.len(),
        info.color_attachments@.len() < u32::MAX,
    ensures
        r == reads_no_own_output(*info, s as int),
{
    let ins = info.subpasses[s].input_attachments;
    let mut k: usize = 0;
    while k < ins.len()
        invariant
            ins@ == inputs_of(*info, s as int),
            s < info.subpasses@.len(),
            info.color_attachments@.len() < u32::MAX,
            k <= ins@.len(),
            forall|j: int| 0 <= j < k ==> !writes(*info, s as int, #[trigger] ins@[j].attachment_index),
        decreases ins@.len() - k,
    {
        if subpass_writes(info, s, ins[k].attachment_index) {
            assert(writes(*info, s as int, inputs_of(*info, s as int)[k as int].attachment_index));
            return false;
        }
        k += 1;
    }
    true
}

/// The first fault of subpass `s`.
fn check_subpass(info: &RenderPassInfo, s: usize) -> (r: Option<RenderPassError>)
    requires
        s < info.subpasses@.len(),
        info.color_attachments@.len() < u32::MAX,
    ensures
        r == subpass_error(*info, s as int),
{
    let sp = &info.subpasses[s];
    if !check_inputs_exist(info, s) {
        Some(RenderPassError::NoSuchAttachment)
    } else if !check_inputs_numbered(info, s) {
        Some(RenderPassError::WrongInputIndex)
    } else if !check_outputs_exist(info, s) {
        Some(RenderPassError::NoSuchAttachment)
    } else if !check_outputs_numbered(info, s) {
        Some(RenderPassError::WrongOutputLocation)
    } else if sp.resolve_attachments.is_some() && sp.resolve_attachments.unwrap().len()
        != sp.output_attachments.len() {
        Some(RenderPassError::ResolveCountMismatch)
    } else if !check_resolves_exist(info, s) {
        Some(RenderPassError::NoSuchAttachment)
    } else if sp.depth_attachment && info.depth_attachment.is_none() {
        Some(RenderPassError::NoDepthAttachment)
    } else if !check_reads_no_own_output(info, s) {
        Some(RenderPassError::SelfDependency)
    } else {
        None
    }
}

/// The fault that makes the pass malformed, if it is.
fn check_graph(info: &RenderPassInfo) -> (r: Option<RenderPassError>)
    requires
        info.color_attachments@.len() < u32::MAX,
    ensures
        r == graph_error(*info),
{
    if info.subpasses.len() == 0 {
        return Some(RenderPassError::NoSubpasses);
    }
    if let Some(depth) = info.depth_attachment {
        if !depth.image_channel_type.has_depth() {
            return Some(RenderPassError::DepthFormatWithoutDepth);
        }
    }
    let mut s: usize = 0;
    while s < info.subpasses.len()
        invariant
            s <= info.subpasses@.len(),
            info.color_attachments@.len() < u32::MAX,
            first_subpass_error(*info, s as int) is None,
            graph_error(*info) == first_subpass_error(*info, info.subpasses@.len() as int),
        decreases info.subpasses@.len() - s,
    {
        let e = check_subpass(info, s);
        if e.is_some() {
            assert(first_subpass_error(*info, s as int + 1) == e);
            proof {
                lemma_first_error_stays(*info, s as int + 1, info.subpasses@.len() as int);
            }
            return e;
        }
        s += 1;
    }
    None
}


// ----- what a well-formed pass becomes -----

pub open spec fn native_layout(l: ImageLayout, depth: bool) -> NativeLayout {
    match l {
        ImageLayout::Undefined => NativeLayout::Undefined,
        ImageLayout::Attachment => if depth {
            NativeLayout::DepthStencilAttachment
        } else {
            NativeLayout::ColorAttachment
        },
        ImageLayout::Shader => if depth {
            NativeLayout::DepthStencilReadOnly
        } else {
            NativeLayout::ShaderReadOnly
        },
    }
}

pub open spec fn store_op(s: AttachmentStore) -> StoreOp {
    match s {
        AttachmentStore::Store => StoreOp::Store,
        AttachmentStore::DontCare => StoreOp::DontCare,
    }
}

pub open spec fn color_description(c: RenderPassColorAttachment) -> AttachmentDescription {
    match c {
        RenderPassColorAttachment::Swapchain(load) => AttachmentDescription {
            format: SWAPCHAIN_CHANNEL_TYPE,
            samples: Msaa::X1,
            load_op: match load {
                SwapchainLoad::Clear { .. } => LoadOp::Clear,
                SwapchainLoad::DontCare => LoadOp::DontCare,
            },
            store_op: StoreOp::Store,
            initial_layout: NativeLayout::Undefined,
            final_layout: NativeLayout::PresentSource,
        },
        RenderPassColorAttachment::Image {
            image_channel_type,
            samples,
            load,
            store,
            initial_layout,
            final_layout,
        } => AttachmentDescription {
            format: image_channel_type,
            samples,
            load_op: match load {
                ColorAttachmentLoad::Load => LoadOp::Load,
                ColorAttachmentLoad::Clear { .. } => LoadOp::Clear,
                ColorAttachmentLoad::DontCare => LoadOp::DontCare,
            },
            store_op: store_op(store),
            initial_layout: native_layout(initial_layout, false),
            final_layout: native_layout(final_layout, false),
        },
    }
}

pub open spec fn color_clear(c: RenderPassColorAttachment) -> ClearValue {
    match c {
        RenderPassColorAttachment::Swapchain(SwapchainLoad::Clear { color }) => ClearValue::Color(
            color,
        ),
        RenderPassColorAttachment::Image { load: ColorAttachmentLoad::Clear { color }, .. } =>
            ClearValue::Color(color),
        _ => ClearValue::Color(ClearColor(0, 0, 0, 0)),
    }
}

pub open spec fn depth_description(d: RenderPassDepthAttachment) -> AttachmentDescription {
    AttachmentDescription {
        format: d.image_channel_type,
        samples: d.samples,
        load_op: match d.load {
            DepthAttachmentLoad::Load => LoadOp::Load,
            DepthAttachmentLoad::Clear { .. } => LoadOp::Clear,
            DepthAttachmentLoad::DontCare => LoadOp::DontCare,
        },
        store_op: store_op(d.store),
        initial_layout: native_layout(d.initial_layout, true),
        final_layout: native_layout(d.final_layout, true),
    }
}

pub open spec fn depth_clear(d: RenderPassDepthAttachment) -> ClearValue {
    match d.load {
        DepthAttachmentLoad::Clear { depth } => ClearValue::DepthStencil { depth, stencil: 0 },
        _ => ClearValue::DepthStencil { depth: DEPTH_ONE_BITS, stencil: 0 },
    }
}

pub open spec fn attachment_descriptions(info: RenderPassInfo) -> Seq<AttachmentDescription> {
    info.color_attachments@.map_values(|c: RenderPassColorAttachment| color_description(c))
        + match info.depth_attachment {
        Some(d) => seq![depth_description(d)],
        None => Seq::empty(),
    }
}

pub open spec fn clear_values_of(info: RenderPassInfo) -> Seq<ClearValue> {
    info.color_attachments@.map_values(|c: RenderPassColorAttachment| color_clear(c))
        + match info.depth_attachment {
        Some(d) => seq![depth_clear(d)],
        None => Seq::empty(),
    }
}

/// A subpass reads the depth attachment in the depth variant of the read-only layout.
pub open spec fn input_reference(info: RenderPassInfo, a: u32) -> AttachmentReference {
    AttachmentReference {
        attachment: a,
        layout: if depth_index(info) == Some(a) {
            NativeLayout::DepthStencilReadOnly
        } else {
            NativeLayout::ShaderReadOnly
        },
    }
}

pub open spec fn color_reference(a: u32) -> AttachmentReference {
    AttachmentReference { attachment: a, layout: NativeLayout::ColorAttachment }
}

pub open spec fn describes_subpass(info: RenderPassInfo, s: int, d: SubpassDescription) -> bool {
    let sp = info.subpasses@[s];
    &&& d.inputs@ == inputs_of(info, s).map_values(
        |i: InputAttachment| input_reference(info, i.attachment_index),
    )
    &&& d.colors@ == outputs_of(info, s).map_values(
        |o: OutputAttachment| color_reference(o.attachment_index),
    )
    &&& match sp.resolve_attachments {
        Some(rs) => d.resolves is Some && d.resolves->Some_0@ == rs@,
        None => d.resolves is None,
    }
    &&& d.depth == if sp.depth_attachment {
        Some(
            AttachmentReference {
                attachment: color_count(info) as u32,
                layout: NativeLayout::DepthStencilAttachment,
            },
        )
    } else {
        None
    }
}

/// The first subpass may write a swapchain image only once the presentation engine has
/// released it.
pub open spec fn acquire_edge() -> Dependency {
    Dependency {
        src_subpass: SubpassRef::External,
        dst_subpass: SubpassRef::Index(0),
        src_stages: PipelineStages::ColorAttachmentOutput,
        src_access: Access::Nothing,
        dst_stages: PipelineStages::ColorAttachmentOutput,
        dst_access: Access::ColorAttachmentWrite,
        by_region: true,
    }
}

/// What follows the pass may read a stored attachment once subpass `src` has written it.
pub open spec fn store_edge(src: u32, depth: bool) -> Dependency {
    Dependency {
        src_subpass: SubpassRef::Index(src),
        dst_subpass: SubpassRef::External,
        src_stages: if depth {
            PipelineStages::LateFragmentTests
        } else {
            PipelineStages::ColorAttachmentOutput
        },
        src_access: if depth {
            Access::DepthStencilAttachmentWrite
        } else {
            Access::ColorAttachmentWrite
        },
        dst_stages: PipelineStages::VertexAndFragmentShader,
        dst_access: Access::ShaderRead,
        by_region: true,
    }
}

/// Subpass `dst` reads attachment `a` as an input once subpass `src` has written it.
pub open spec fn internal_edge(info: RenderPassInfo, src: u32, dst: u32, a: u32) -> Dependency {
    let depth = depth_index(info) == Some(a);
    Dependency {
        src_subpass: SubpassRef::Index(src),
        dst_subpass: SubpassRef::Index(dst),
        src_stages: if depth {
            PipelineStages::LateFragmentTests
        } else {
            PipelineStages::ColorAttachmentOutput
        },
        src_access: if depth {
            Access::DepthStencilAttachmentWrite
        } else {
            Access::ColorAttachmentWrite
        },
        dst_stages: PipelineStages::FragmentShader,
        dst_access: Access::InputAttachmentRead,
        by_region: true,
    }
}

/// The last of the first `n` subpasses that writes attachment `a`.
pub open spec fn last_writer_in(info: RenderPassInfo, a: u32, n: int) -> Option<int>
    decreases n,
{
    if n <= 0 {
        None
    } else if writes(info, n - 1, a) {
        Some(n - 1)
    } else {
        last_writer_in(info, a, n - 1)
    }
}

/// The subpass after which a stored attachment is final: its last writer, or the last
/// subpass when none writes it.
pub open spec fn store_source(info: RenderPassInfo, a: u32) -> u32 {
    match last_writer_in(info, a, info.subpasses@.len() as int) {
        Some(s) => s as u32,
        None => (info.subpasses@.len() - 1) as u32,
    }
}

/// Swapchain images are always stored.
pub open spec fn is_stored(info: RenderPassInfo, a: int) -> bool {
    if 0 <= a < color_count(info) {
        match info.color_attachments@[a] {
            RenderPassColorAttachment::Swapchain(_) => true,
            RenderPassColorAttachment::Image { store, .. } => store == AttachmentStore::Store,
        }
    } else if a == color_count(info) {
        info.depth_attachment is Some && info.depth_attachment->Some_0.store
            == AttachmentStore::Store
    } else {
        false
    }
}

pub open spec fn is_swapchain(info: RenderPassInfo, a: int) -> bool {
    0 <= a < color_count(info) && info.color_attachments@[a] is Swapchain
}

/// The dependencies with the outside of the pass that attachment `a` needs.
pub open spec fn attachment_edges(info: RenderPassInfo, a: int) -> Seq<Dependency> {
    let store = if is_stored(info, a) {
        seq![store_edge(store_source(info, a as u32), a == color_count(info))]
    } else {
        Seq::empty()
    };
    if is_swapchain(info, a) {
        seq![acquire_edge()] + store
    } else {
        store
    }
}

pub open spec fn external_edges(info: RenderPassInfo, n: int) -> Seq<Dependency>
    decreases n,
{
    if n <= 0 {
        Seq::empty()
    } else {
        external_edges(info, n - 1) + attachment_edges(info, n - 1)
    }
}

/// (subpass, attachment) for every input of the first `n` subpasses, in order.
pub open spec fn input_refs(info: RenderPassInfo, n: int) -> Seq<(u32, u32)>
    decreases n,
{
    if n <= 0 {
        Seq::empty()
    } else {
        input_refs(info, n - 1) + inputs_of(info, n - 1).map_values(
            |i: InputAttachment| ((n - 1) as u32, i.attachment_index),
        )
    }
}

/// (subpass, attachment) for every color output and depth use of the first `n`
/// subpasses, in order.
pub open spec fn output_refs(info: RenderPassInfo, n: int) -> Seq<(u32, u32)>
    decreases n,
{
    if n <= 0 {
        Seq::empty()
    } else {
        output_refs(info, n - 1) + outputs_of(info, n - 1).map_values(
            |o: OutputAttachment| ((n - 1) as u32, o.attachment_index),
        ) + if info.subpasses@[n - 1].depth_attachment {
            seq![((n - 1) as u32, color_count(info) as u32)]
        } else {
            Seq::empty()
        }
    }
}

/// The edges into one input from every output of the same attachment.
pub open spec fn edges_into(info: RenderPassInfo, input: (u32, u32), outs: Seq<(u32, u32)>) -> Seq<
    Dependency,
>
    decreases outs.len(),
{
    if outs.len() == 0 {
        Seq::empty()
    } else {
        edges_into(info, input, outs.drop_last()) + if outs.last().1 == input.1 {
            seq![internal_edge(info, outs.last().0, input.0, input.1)]
        } else {
            Seq::empty()
        }
    }
}

pub open spec fn internal_edges(
    info: RenderPassInfo,
    ins: Seq<(u32, u32)>,
    outs: Seq<(u32, u32)>,
) -> Seq<Dependency>
    decreases ins.len(),
{
    if ins.len() == 0 {
        Seq::empty()
    } else {
        internal_edges(info, ins.drop_last(), outs) + edges_into(info, ins.last(), outs)
    }
}

pub open spec fn dependencies_of(info: RenderPassInfo) -> Seq<Dependency> {
    let n = info.subpasses@.len() as int;
    external_edges(info, attachment_count(info) as int) + internal_edges(
        info,
        input_refs(info, n),
        output_refs(info, n),
    )
}

/// The view mask of `count` views: its lowest `count` bits.
pub open spec fn view_mask_of(count: nat) -> u32 {
    (vstd::arithmetic::power2::pow2(count) - 1) as u32
}

/// The native pass that a well-formed render pass describes.
pub open spec fn describes(info: RenderPassInfo, g: RenderGraph) -> bool {
    &&& g.attachments@ == attachment_descriptions(info)
    &&& g.clear_values@ == clear_values_of(info)
    &&& g.subpasses@.len() == info.subpasses@.len()
    &&& forall|s: int|
        0 <= s < info.subpasses@.len() ==> describes_subpass(info, s, #[trigger] g.subpasses@[s])
    &&& g.dependencies@ == dependencies_of(info)
    &&& g.view_mask == match info.multiview {
        Some(m) => Some(view_mask_of(m.count as nat)),
        None => None,
    }
    &&& g.correlated_views == (info.multiview is Some && info.multiview->Some_0.spatial_coherency)
}

// ----- construction -----

fn to_native_layout(l: ImageLayout, depth: bool) -> (r: NativeLayout)
    ensures
        r == native_layout(l, depth),
{
    match l {
        ImageLayout::Undefined => NativeLayout::Undefined,
        ImageLayout::Attachment => if depth {
            NativeLayout::DepthStencilAttachment
        } else {
            NativeLayout::ColorAttachment
        },
        ImageLayout::Shader => if depth {
            NativeLayout::DepthStencilReadOnly
        } else {
            NativeLayout::ShaderReadOnly
        },
    }
}

fn to_store_op(s: AttachmentStore) -> (r: StoreOp)
    ensures
        r == store_op(s),
{
    match s {
        AttachmentStore::Store => StoreOp::Store,
        AttachmentStore::DontCare => StoreOp::DontCare,
    }
}

fn describe_color(c: RenderPassColorAttachment) -> (r: (AttachmentDescription, ClearValue))
    ensures
        r.0 == color_description(c),
        r.1 == color_clear(c),
{
    match c {
        RenderPassColorAttachment::Swapchain(load) => {
            let (load_op, clear) = match load {
                SwapchainLoad::Clear { color } => (LoadOp::Clear, ClearValue::Color(color)),
                SwapchainLoad::DontCare => (
                    LoadOp::DontCare,
                    ClearValue::Color(ClearColor(0, 0, 0, 0)),
                ),
            };
            (
                AttachmentDescription {
                    format: SWAPCHAIN_CHANNEL_TYPE,
                    samples: Msaa::X1,
                    load_op,
                    store_op: StoreOp::Store,
                    initial_layout: NativeLayout::Undefined,
                    final_layout: NativeLayout::PresentSource,
                },
                clear,
            )
        },
        RenderPassColorAttachment::Image {
            image_channel_type,
            samples,
            load,
            store,
            initial_layout,
            final_layout,
        } => {
            let (load_op, clear) = match load {
                ColorAttachmentLoad::Load => (
                    LoadOp::Load,
                    ClearValue::Color(ClearColor(0, 0, 0, 0)),
                ),
                ColorAttachmentLoad::Clear { color } => (LoadOp::Clear, ClearValue::Color(color)),
                ColorAttachmentLoad::DontCare => (
                    LoadOp::DontCare,
                    ClearValue::Color(ClearColor(0, 0, 0, 0)),
                ),
            };
            (
                AttachmentDescription {
                    format: image_channel_type,
                    samples,
                    load_op,
                    store_op: to_store_op(store),
                    initial_layout: to_native_layout(initial_layout, false),
                    final_layout: to_native_layout(final_layout, false),
                },
                clear,
            )
        },
    }
}

fn describe_depth(d: RenderPassDepthAttachment) -> (r: (AttachmentDescription, ClearValue))
    ensures
        r.0 == depth_description(d),
        r.1 == depth_clear(d),
{
    let (load_op, clear) = match d.load {
        DepthAttachmentLoad::Load => (
            LoadOp::Load,
            ClearValue::DepthStencil { depth: DEPTH_ONE_BITS, stencil: 0 },
        ),
        DepthAttachmentLoad::Clear { depth } => (
            LoadOp::Clear,
            ClearValue::DepthStencil { depth, stencil: 0 },
        ),
        DepthAttachmentLoad::DontCare => (
            LoadOp::DontCare,
            ClearValue::DepthStencil { depth: DEPTH_ONE_BITS, stencil: 0 },
        ),
    };
    (
        AttachmentDescription {
            format: d.image_channel_type,
            samples: d.samples,
            load_op,
            store_op: to_store_op(d.store),
            initial_layout: to_native_layout(d.initial_layout, true),
            final_layout: to_native_layout(d.final_layout, true),
        },
        clear,
    )
}

/// The native description and the clear value of every attachment, in order.
fn describe_attachments(info: &RenderPassInfo) -> (r: (Vec<AttachmentDescription>, Vec<ClearValue>))
    ensures
        r.0@ == attachment_descriptions(*info),
        r.1@ == clear_values_of(*info),
{
    let colors = info.color_attachments;
    let mut attachments: Vec<AttachmentDescription> = Vec::new();
    let mut clear_values: Vec<ClearValue> = Vec::new();
    let mut i: usize = 0;
    while i < colors.len()
        invariant
            colors@ == info.color_attachments@,
            i <= colors@.len(),
            attachments@.len() == i,
            clear_values@.len() == i,
            forall|j: int| 0 <= j < i ==> #[trigger] attachments@[j] == color_description(colors@[j]),
            forall|j: int| 0 <= j < i ==> #[trigger] clear_values@[j] == color_clear(colors@[j]),
        decreases colors@.len() - i,
    {
        let (description, clear) = describe_color(colors[i]);
        attachments.push(description);
        clear_values.push(clear);
        i += 1;
    }
    let ghost color_descriptions = attachments@;
    let ghost color_clears = clear_values@;
    assert(color_descriptions =~= colors@.map_values(
        |c: RenderPassColorAttachment| color_description(c),
    ));
    assert(color_clears =~= colors@.map_values(|c: RenderPassColorAttachment| color_clear(c)));
    if let Some(depth) = info.depth_attachment {
        let (description, clear) = describe_depth(depth);
        attachments.push(description);
        clear_values.push(clear);
        assert(attachments@ =~= color_descriptions + seq![depth_description(depth)]);
        assert(clear_values@ =~= color_clears + seq![depth_clear(depth)]);
    } else {
        assert(attachments@ =~= color_descriptions + Seq::<AttachmentDescription>::empty());
        assert(clear_values@ =~= color_clears + Seq::<ClearValue>::empty());
    }
    (attachments, clear_values)
}

/// The attachment references of subpass `s`.
fn describe_subpass(info: &RenderPassInfo, s: usize) -> (r: SubpassDescription)
    requires
        s < info.subpasses@.len(),
        info.color_attachments@.len() < u32::MAX,
    ensures
        describes_subpass(*info, s as int, r),
{
    let sp = &info.subpasses[s];
    let depth_index: Option<u32> = if info.depth_attachment.is_some() {
        Some(info.color_attachments.len() as u32)
    } else {
        None
    };
    let ins = sp.input_attachments;
    let mut inputs: Vec<AttachmentReference> = Vec::new();
    let mut k: usize = 0;
    while k < ins.len()
        invariant
            ins@ == inputs_of(*info, s as int),
            depth_index == crate::render_pass::depth_index(*info),
            k <= ins@.len(),
            inputs@.len() == k,
            forall|j: int|
                0 <= j < k ==> #[trigger] inputs@[j] == input_reference(
                    *info,
                    ins@[j].attachment_index,
                ),
        decreases ins@.len() - k,
    {
        let a = ins[k].attachment_index;
        let layout = if depth_index == Some(a) {
            NativeLayout::DepthStencilReadOnly
        } else {
            NativeLayout::ShaderReadOnly
        };
        inputs.push(AttachmentReference { attachment: a, layout });
        k += 1;
    }
    let outs = sp.output_attachments;
    let mut colors: Vec<AttachmentReference> = Vec::new();
    k = 0;
    while k < outs.len()
        invariant
            outs@ == outputs_of(*info, s as int),
            k <= outs@.len(),
            colors@.len() == k,
            forall|j: int|
                0 <= j < k ==> #[trigger] colors@[j] == color_reference(outs@[j].attachment_index),
        decreases outs@.len() - k,
    {
        colors.push(
            AttachmentReference {
                attachment: outs[k].attachment_index,
                layout: NativeLayout::ColorAttachment,
            },
        );
        k += 1;
    }
    let resolves = match sp.resolve_attachments {
        Some(rs) => {
            let mut v: Vec<ResolveAttachment> = Vec::new();
            let mut j: usize = 0;
            while j < rs.len()
                invariant
                    j <= rs@.len(),
                    v@ == rs@.take(j as int),
                decreases rs@.len() - j,
            {
                v.push(rs[j]);
                j += 1;
                assert(v@ =~= rs@.take(j as int));
            }
            assert(v@ =~= rs@);
            Some(v)
        },
        None => None,
    };
    let depth = if sp.depth_attachment {
        Some(
            AttachmentReference {
                attachment: info.color_attachments.len() as u32,
                layout: NativeLayout::DepthStencilAttachment,
            },
        )
    } else {
        None
    };
    assert(inputs@ =~= inputs_of(*info, s as int).map_values(
        |i: InputAttachment| input_reference(*info, i.attachment_index),
    ));
    assert(colors@ =~= outputs_of(*info, s as int).map_values(
        |o: OutputAttachment| color_reference(o.attachment_index),
    ));
    SubpassDescription { inputs, colors, resolves, depth }
}

/// The subpass after which stored attachment `a` is final.
fn last_writer(info: &RenderPassInfo, a: u32) -> (r: u32)
    requires
        0 < info.subpasses@.len() < u32::MAX,
        info.color_attachments@.len() < u32::MAX,
    ensures
        r == store_source(*info, a),
{
    let mut last: Option<usize> = None;
    let mut s: usize = 0;
    while s < info.subpasses.len()
        invariant
            s <= info.subpasses@.len() < u32::MAX,
            info.color_attachments@.len() < u32::MAX,
            last_writer_in(*info, a, s as int) == match last {
                Some(w) => Some(w as int),
                None => None,
            },
            last matches Some(w) ==> w < s,
        decreases info.subpasses@.len() - s,
    {
        if subpass_writes(info, s, a) {
            last = Some(s);
        }
        s += 1;
    }
    match last {
        Some(w) => w as u32,
        None => (info.subpasses.len() - 1) as u32,
    }
}

/// The dependencies with the outside of the pass, attachment by attachment.
fn external_dependencies(info: &RenderPassInfo) -> (r: Vec<Dependency>)
    requires
        0 < info.subpasses@.len() < u32::MAX,
        info.color_attachments@.len() < u32::MAX,
    ensures
        r@ == external_edges(*info, attachment_count(*info) as int),
{
    let colors = info.color_attachments;
    let mut deps: Vec<Dependency> = Vec::new();
    let mut a: usize = 0;
    while a < colors.len()
        invariant
            colors@ == info.color_attachments@,
            0 < info.subpasses@.len() < u32::MAX,
            colors@.len() < u32::MAX,
            a <= colors@.len(),
            deps@ == external_edges(*info, a as int),
        decreases colors@.len() - a,
    {
        let ghost before = deps@;
        match colors[a] {
            RenderPassColorAttachment::Swapchain(_) => {
                deps.push(
                    Dependency {
                        src_subpass: SubpassRef::External,
                        dst_subpass: SubpassRef::Index(0),
                        src_stages: PipelineStages::ColorAttachmentOutput,
                        src_access: Access::Nothing,
                        dst_stages: PipelineStages::ColorAttachmentOutput,
                        dst_access: Access::ColorAttachmentWrite,
                        by_region: true,
                    },
                );
                let src = last_writer(info, a as u32);
                deps.push(
                    Dependency {
                        src_subpass: SubpassRef::Index(src),
                        dst_subpass: SubpassRef::External,
                        src_stages: PipelineStages::ColorAttachmentOutput,
                        src_access: Access::ColorAttachmentWrite,
                        dst_stages: PipelineStages::VertexAndFragmentShader,
                        dst_access: Access::ShaderRead,
                        by_region: true,
                    },
                );
            },
            RenderPassColorAttachment::Image { store: AttachmentStore::Store, .. } => {
                let src = last_writer(info, a as u32);
                deps.push(
                    Dependency {
                        src_subpass: SubpassRef::Index(src),
                        dst_subpass: SubpassRef::External,
                        src_stages: PipelineStages::ColorAttachmentOutput,
                        src_access: Access::ColorAttachmentWrite,
                        dst_stages: PipelineStages::VertexAndFragmentShader,
                        dst_access: Access::ShaderRead,
                        by_region: true,
                    },
                );
            },
            _ => {},
        }
        assert(deps@ =~= before + attachment_edges(*info, a as int));
        a += 1;
    }
    let ghost before = deps@;
    if let Some(depth) = info.depth_attachment {
        if let AttachmentStore::Store = depth.store {
            let src = last_writer(info, colors.len() as u32);
            deps.push(
                Dependency {
                    src_subpass: SubpassRef::Index(src),
                    dst_subpass: SubpassRef::External,
                    src_stages: PipelineStages::LateFragmentTests,
                    src_access: Access::DepthStencilAttachmentWrite,
                    dst_stages: PipelineStages::VertexAndFragmentShader,
                    dst_access: Access::ShaderRead,
                    by_region: true,
                },
            );
        }
        assert(deps@ =~= before + attachment_edges(*info, colors@.len() as int));
        assert(external_edges(*info, colors@.len() + 1int) == before + attachment_edges(
            *info,
            colors@.len() as int,
        ));
    }
    deps
}

/// Every input and every output of all subpasses, as (subpass, attachment), in order.
fn attachment_refs(info: &RenderPassInfo) -> (r: (Vec<(u32, u32)>, Vec<(u32, u32)>))
    requires
        info.subpasses@.len() < u32::MAX,
        info.color_attachments@.len() < u32::MAX,
    ensures
        r.0@ == input_refs(*info, info.subpasses@.len() as int),
        r.1@ == output_refs(*info, info.subpasses@.len() as int),
{
    let mut ins: Vec<(u32, u32)> = Vec::new();
    let mut outs: Vec<(u32, u32)> = Vec::new();
    let mut s: usize = 0;
    while s < info.subpasses.len()
        invariant
            s <= info.subpasses@.len() < u32::MAX,
            info.color_attachments@.len() < u32::MAX,
            ins@ == input_refs(*info, s as int),
            outs@ == output_refs(*info, s as int),
        decreases info.subpasses@.len() - s,
    {
        let sp = &info.subpasses[s];
        let si = s as u32;
        let ghost ins_before = ins@;
        let ghost outs_before = outs@;
        let inputs = sp.input_attachments;
        let mut k: usize = 0;
        while k < inputs.len()
            invariant
                inputs@ == inputs_of(*info, s as int),
                si == s,
                k <= inputs@.len(),
                ins@ == ins_before + inputs@.take(k as int).map_values(
                    |i: InputAttachment| (si, i.attachment_index),
                ),
            decreases inputs@.len() - k,
        {
            ins.push((si, inputs[k].attachment_index));
            k += 1;
            assert(inputs@.take(k as int).map_values(
                |i: InputAttachment| (si, i.attachment_index),
            ) =~= inputs@.take(k - 1).map_values(|i: InputAttachment| (si, i.attachment_index)).push(
                (si, inputs@[k - 1].attachment_index),
            ));
        }
        assert(inputs@.take(inputs@.len() as int) =~= inputs@);
        let outputs = sp.output_attachments;
        k = 0;
        while k < outputs.len()
            invariant
                outputs@ == outputs_of(*info, s as int),
                si == s,
                k <= outputs@.len(),
                outs@ == outs_before + outputs@.take(k as int).map_values(
                    |o: OutputAttachment| (si, o.attachment_index),
                ),
            decreases outputs@.len() - k,
        {
            outs.push((si, outputs[k].attachment_index));
            k += 1;
            assert(outputs@.take(k as int).map_values(
                |o: OutputAttachment| (si, o.attachment_index),
            ) =~= outputs@.take(k - 1).map_values(|o: OutputAttachment| (si, o.attachment_index)).push(
                (si, outputs@[k - 1].attachment_index),
            ));
        }
        assert(outputs@.take(outputs@.len() as int) =~= outputs@);
        let ghost outs_colors = outs@;
        if sp.depth_attachment {
            outs.push((si, info.color_attachments.len() as u32));
            assert(outs@ =~= outs_colors + seq![(si, info.color_attachments@.len() as u32)]);
        } else {
            assert(outs@ =~= outs_colors + Seq::<(u32, u32)>::empty());
        }
        s += 1;
    }
    (ins, outs)
}

/// An edge from every output to every input of the same attachment.
fn internal_dependencies(info: &RenderPassInfo, ins: &Vec<(u32, u32)>, outs: &Vec<(u32, u32)>) -> (r:
    Vec<Dependency>)
    requires
        info.color_attachments@.len() < u32::MAX,
    ensures
        r@ == internal_edges(*info, ins@, outs@),
{
    let depth_index: Option<u32> = if info.depth_attachment.is_some() {
        Some(info.color_attachments.len() as u32)
    } else {
        None
    };
    let mut deps: Vec<Dependency> = Vec::new();
    let mut i: usize = 0;
    while i < ins.len()
        invariant
            i <= ins@.len(),
            depth_index == crate::render_pass::depth_index(*info),
            deps@ == internal_edges(*info, ins@.take(i as int), outs@),
        decreases ins@.len() - i,
    {
        let (dst, a) = ins[i];
        let depth = depth_index == Some(a);
        let ghost row_start = deps@;
        let mut j: usize = 0;
        while j < outs.len()
            invariant
                j <= outs@.len(),
                i < ins@.len(),
                (dst, a) == ins@[i as int],
                depth == (crate::render_pass::depth_index(*info) == Some(a)),
                deps@ == row_start + edges_into(*info, (dst, a), outs@.take(j as int)),
            decreases outs@.len() - j,
        {
            let (src, b) = outs[j];
            let ghost before = deps@;
            if b == a {
                deps.push(
                    Dependency {
                        src_subpass: SubpassRef::Index(src),
                        dst_subpass: SubpassRef::Index(dst),
                        src_stages: if depth {
                            PipelineStages::LateFragmentTests
                        } else {
                            PipelineStages::ColorAttachmentOutput
                        },
                        src_access: if depth {
                            Access::DepthStencilAttachmentWrite
                        } else {
                            Access::ColorAttachmentWrite
                        },
                        dst_stages: PipelineStages::FragmentShader,
                        dst_access: Access::InputAttachmentRead,
                        by_region: true,
                    },
                );
            }
            j += 1;
            let ghost taken = outs@.take(j as int);
            assert(taken.drop_last() =~= outs@.take(j - 1));
            assert(taken.last() == (src, b));
            assert(deps@ =~= row_start + edges_into(*info, (dst, a), taken));
        }
        assert(outs@.take(outs@.len() as int) =~= outs@);
        i += 1;
        let ghost taken = ins@.take(i as int);
        assert(taken.drop_last() =~= ins@.take(i - 1));
        assert(taken.last() == (dst, a));
    }
    assert(ins@.take(ins@.len() as int) =~= ins@);
    deps
}

/// The lowest `count` bits set.
fn view_mask(count: u32) -> (r: u32)
    requires
        count < 32,
    ensures
        r == view_mask_of(count as nat),
{
    let mut mask: u32 = 0;
    let mut i: u32 = 0;
    proof {
        vstd::arithmetic::power2::lemma2_to64();
    }
    while i < count
        invariant
            i <= count < 32,
            mask == vstd::arithmetic::power2::pow2(i as nat) - 1,
        decreases count - i,
    {
        proof {
            vstd::arithmetic::power2::lemma_pow2_unfold((i + 1) as nat);
            vstd::arithmetic::power2::lemma2_to64();
            if i + 1 < 31 {
                vstd::arithmetic::power2::lemma_pow2_strictly_increases((i + 1) as nat, 31);
            }
        }
        mask = mask * 2 + 1;
        i += 1;
    }
    mask
}

impl<'a> RenderPassInfo<'a> {
    /// Checks the pass and derives the native attachments, subpasses and every
    /// dependency between them and with the outside of the pass.
    pub fn synthesize(&self) -> (r: Result<RenderGraph, RenderPassError>)
        requires
            self.color_attachments@.len() < u32::MAX,
            self.subpasses@.len() < u32::MAX,
            self.multiview matches Some(m) ==> m.count < 32,
        ensures
            r is Err <==> graph_error(*self) is Some,
            r matches Err(e) ==> graph_error(*self) == Some(e),
            r matches Ok(g) ==> describes(*self, g),
    {
        if let Some(e) = check_graph(self) {
            return Err(e);
        }
        let (attachments, clear_values) = describe_attachments(self);
        let mut subpasses: Vec<SubpassDescription> = Vec::new();
        let mut s: usize = 0;
        while s < self.subpasses.len()
            invariant
                s <= self.subpasses@.len(),
                self.color_attachments@.len() < u32::MAX,
                subpasses@.len() == s,
                forall|j: int|
                    0 <= j < s ==> describes_subpass(*self, j, #[trigger] subpasses@[j]),
            decreases self.subpasses@.len() - s,
        {
            subpasses.push(describe_subpass(self, s));
            s += 1;
        }
        let mut dependencies = external_dependencies(self);
        let (ins, outs) = attachment_refs(self);
        let mut internal = internal_dependencies(self, &ins, &outs);
        dependencies.append(&mut internal);
        let (view_mask, correlated_views) = match self.multiview {
            Some(m) => (Some(view_mask(m.count)), m.spatial_coherency),
            None => (None, false),
        };
        Ok(
            RenderGraph {
                attachments,
                clear_values,
                subpasses,
                dependencies,
                view_mask,
                correlated_views,
            },
        )
    }
}

/// Why attachments cannot make one framebuffer.
#[derive(Clone, Copy, Debug, PartialEq, Eq, Structural)]
pub enum FramebufferError {
    NoAttachments,
    InconsistentDimensions,
    /// A texture cannot serve as an attachment.
    TextureAttachment,
}

/// One attachment of a framebuffer: a swapchain image of some size, or an image with its
/// type and usage.
#[derive(Clone, Copy, Debug, PartialEq, Eq, Structural)]
pub enum FramebufferAttachment {
    Swapchain { width: u32, height: u32 },
    Image { image_type: ImageType, usage: ImageUsage },
}

pub open spec fn attachment_dimensions(a: FramebufferAttachment) -> (u32, u32) {
    match a {
        FramebufferAttachment::Swapchain { width, height } => (width, height),
        FramebufferAttachment::Image { image_type, .. } => (image_type.width, image_type.height),
    }
}

/// What is wrong with an attachment of a framebuffer whose first attachment has size
/// `first`: another size, or a texture in place of an attachment image.
pub open spec fn attachment_fault(first: (u32, u32), a: FramebufferAttachment) -> Option<
    FramebufferError,
> {
    if attachment_dimensions(a) != first {
        Some(FramebufferError::InconsistentDimensions)
    } else if a matches FramebufferAttachment::Image { usage: ImageUsage::Texture { .. }, .. } {
        Some(FramebufferError::TextureAttachment)
    } else {
        None
    }
}

/// The first fault among the first `n` attachments.
pub open spec fn first_attachment_fault(attachments: Seq<FramebufferAttachment>, n: int) -> Option<
    FramebufferError,
>
    decreases n,
{
    if n <= 0 {
        None
    } else {
        match first_attachment_fault(attachments, n - 1) {
            Some(e) => Some(e),
            None => attachment_fault(attachment_dimensions(attachments[0]), attachments[n - 1]),
        }
    }
}

proof fn lemma_first_attachment_fault_stays(attachments: Seq<FramebufferAttachment>, n: int, m: int)
    requires
        n <= m,
        first_attachment_fault(attachments, n) is Some,
    ensures
        first_attachment_fault(attachments, m) == first_attachment_fault(attachments, n),
    decreases m - n,
{
    if n < m {
        lemma_first_attachment_fault_stays(attachments, n, m - 1);
    }
}

impl FramebufferAttachment {
    pub fn dimensions(&self) -> (r: (u32, u32))
        ensures
            r == attachment_dimensions(*self),
    {
        match self {
            FramebufferAttachment::Swapchain { width, height } => (*width, *height),
            FramebufferAttachment::Image { image_type, .. } => (image_type.width, image_type.height),
        }
    }
}

/// The width and height that the attachments of a framebuffer share, checked attachment by
/// attachment in order.
pub fn framebuffer_extent(attachments: &[FramebufferAttachment]) -> (r: Result<(u32, u32), FramebufferError>)
    ensures
        r == if attachments@.len() == 0 {
            Err(FramebufferError::NoAttachments)
        } else {
            match first_attachment_fault(attachments@, attachments@.len() as int) {
                Some(e) => Err(e),
                None => Ok(attachment_dimensions(attachments@[0])),
            }
        },
{
    if attachments.len() == 0 {
        return Err(FramebufferError::NoAttachments);
    }
    let first = attachments[0].dimensions();
    let mut k: usize = 0;
    while k < attachments.len()
        invariant
            0 < attachments@.len(),
            k <= attachments@.len(),
            first == attachment_dimensions(attachments@[0]),
            first_attachment_fault(attachments@, k as int) is None,
        decreases attachments@.len() - k,
    {
        let a = attachments[k];
        let d = a.dimensions();
        let fault = if d.0 != first.0 || d.1 != first.1 {
            Some(FramebufferError::InconsistentDimensions)
        } else if let FramebufferAttachment::Image { usage: ImageUsage::Texture { .. }, .. } = a {
            Some(FramebufferError::TextureAttachment)
        } else {
            None
        };
        assert(fault == attachment_fault(first, attachments@[k as int]));
        if let Some(e) = fault {
            proof {
                lemma_first_attachment_fault_stays(
                    attachments@,
                    k as int + 1,
                    attachments@.len() as int,
                );
            }
            return Err(e);
        }
        k += 1;
    }
    Ok(first)
}

// ----- laws of the dependency set -----

proof fn lemma_input_ref_member(info: RenderPassInfo, n: int, j: int, k: int)
    requires
        0 <= j < n <= info.subpasses@.len(),
        0 <= k < inputs_of(info, j).len(),
    ensures
        input_refs(info, n).contains((j as u32, inputs_of(info, j)[k].attachment_index)),
    decreases n,
{
    let prefix = input_refs(info, n - 1);
    let last = inputs_of(info, n - 1).map_values(
        |i: InputAttachment| ((n - 1) as u32, i.attachment_index),
    );
    assert(input_refs(info, n) == prefix + last);
    if j == n - 1 {
        assert((prefix + last)[prefix.len() + k] == (j as u32, inputs_of(info, j)[k].attachment_index));
    } else {
        lemma_input_ref_member(info, n - 1, j, k);
        let idx = choose|idx: int|
            0 <= idx < prefix.len() && prefix[idx] == (
                j as u32,
                inputs_of(info, j)[k].attachment_index,
            );
        assert((prefix + last)[idx] == prefix[idx]);
    }
}

proof fn lemma_output_ref_member(info: RenderPassInfo, n: int, i: int, a: u32)
    requires
        0 <= i < n <= info.subpasses@.len(),
        writes(info, i, a),
    ensures
        output_refs(info, n).contains((i as u32, a)),
    decreases n,
{
    let prefix = output_refs(info, n - 1);
    let colors = outputs_of(info, n - 1).map_values(
        |o: OutputAttachment| ((n - 1) as u32, o.attachment_index),
    );
    let depth: Seq<(u32, u32)> = if info.subpasses@[n - 1].depth_attachment {
        seq![((n - 1) as u32, color_count(info) as u32)]
    } else {
        Seq::empty()
    };
    assert(output_refs(info, n) == prefix + colors + depth);
    if i == n - 1 {
        if exists|k: int| 0 <= k < outputs_of(info, i).len() && #[trigger] outputs_of(info, i)[k].attachment_index == a {
            let k = choose|k: int|
                0 <= k < outputs_of(info, i).len() && #[trigger] outputs_of(info, i)[k].attachment_index
                    == a;
            assert((prefix + colors + depth)[prefix.len() + k] == (i as u32, a));
        } else {
            assert((prefix + colors + depth)[(prefix.len() + colors.len()) as int] == (i as u32, a));
        }
    } else {
        lemma_output_ref_member(info, n - 1, i, a);
        let idx = choose|idx: int| 0 <= idx < prefix.len() && prefix[idx] == (i as u32, a);
        assert((prefix + colors + depth)[idx] == prefix[idx]);
    }
}

proof fn lemma_edges_into_member(
    info: RenderPassInfo,
    input: (u32, u32),
    outs: Seq<(u32, u32)>,
    q: int,
)
    requires
        0 <= q < outs.len(),
        outs[q].1 == input.1,
    ensures
        edges_into(info, input, outs).contains(internal_edge(info, outs[q].0, input.0, input.1)),
    decreases outs.len(),
{
    let e = internal_edge(info, outs[q].0, input.0, input.1);
    let prefix = edges_into(info, input, outs.drop_last());
    if q == outs.len() - 1 {
        assert(edges_into(info, input, outs)[prefix.len() as int] == e);
    } else {
        lemma_edges_into_member(info, input, outs.drop_last(), q);
        let idx = choose|idx: int| 0 <= idx < prefix.len() && prefix[idx] == e;
        assert(edges_into(info, input, outs)[idx] == e);
    }
}

proof fn lemma_internal_edges_member(
    info: RenderPassInfo,
    ins: Seq<(u32, u32)>,
    outs: Seq<(u32, u32)>,
    p: int,
    q: int,
)
    requires
        0 <= p < ins.len(),
        0 <= q < outs.len(),
        outs[q].1 == ins[p].1,
    ensures
        internal_edges(info, ins, outs).contains(internal_edge(info, outs[q].0, ins[p].0, ins[p].1)),
    decreases ins.len(),
{
    let e = internal_edge(info, outs[q].0, ins[p].0, ins[p].1);
    let prefix = internal_edges(info, ins.drop_last(), outs);
    let row = edges_into(info, ins.last(), outs);
    assert(internal_edges(info, ins, outs) == prefix + row);
    if p == ins.len() - 1 {
        lemma_edges_into_member(info, ins.last(), outs, q);
        let idx = choose|idx: int| 0 <= idx < row.len() && row[idx] == e;
        assert((prefix + row)[prefix.len() + idx] == e);
    } else {
        lemma_internal_edges_member(info, ins.drop_last(), outs, p, q);
        let idx = choose|idx: int| 0 <= idx < prefix.len() && prefix[idx] == e;
        assert((prefix + row)[idx] == e);
    }
}

/// Whenever a subpass reads as an input an attachment that an earlier subpass writes, the
/// dependencies hold an edge from the writer to the reader: from the color output stage
/// (late fragment tests for the depth attachment) to the fragment shader.
pub proof fn lemma_dependency_completeness(info: RenderPassInfo, i: int, j: int, k: int)
    requires
        0 <= i < j < info.subpasses@.len(),
        info.subpasses@.len() < u32::MAX,
        0 <= k < inputs_of(info, j).len(),
        writes(info, i, inputs_of(info, j)[k].attachment_index),
    ensures
        ({
            let a = inputs_of(info, j)[k].attachment_index;
            let depth = depth_index(info) == Some(a);
            &&& dependencies_of(info).contains(internal_edge(info, i as u32, j as u32, a))
            &&& internal_edge(info, i as u32, j as u32, a).src_subpass == SubpassRef::Index(
                i as u32,
            )
            &&& internal_edge(info, i as u32, j as u32, a).dst_subpass == SubpassRef::Index(
                j as u32,
            )
            &&& internal_edge(info, i as u32, j as u32, a).src_stages == if depth {
                PipelineStages::LateFragmentTests
            } else {
                PipelineStages::ColorAttachmentOutput
            }
            &&& internal_edge(info, i as u32, j as u32, a).dst_stages
                == PipelineStages::FragmentShader
        }),
{
    let n = info.subpasses@.len() as int;
    let a = inputs_of(info, j)[k].attachment_index;
    let ins = input_refs(info, n);
    let outs = output_refs(info, n);
    lemma_input_ref_member(info, n, j, k);
    lemma_output_ref_member(info, n, i, a);
    let p = choose|p: int| 0 <= p < ins.len() && ins[p] == (j as u32, a);
    let q = choose|q: int| 0 <= q < outs.len() && outs[q] == (i as u32, a);
    lemma_internal_edges_member(info, ins, outs, p, q);
    let e = internal_edge(info, i as u32, j as u32, a);
    let ext = external_edges(info, attachment_count(info) as int);
    let internal = internal_edges(info, ins, outs);
    let idx = choose|idx: int| 0 <= idx < internal.len() && internal[idx] == e;
    assert((ext + internal)[ext.len() + idx] == e);
}

/// How many of the edges lead out of the pass.
pub open spec fn count_outgoing(edges: Seq<Dependency>) -> nat
    decreases edges.len(),
{
    if edges.len() == 0 {
        0
    } else {
        count_outgoing(edges.drop_last()) + if edges.last().dst_subpass == SubpassRef::External {
            1nat
        } else {
            0nat
        }
    }
}

/// How many of the first `n` attachments are stored.
pub open spec fn stored_count(info: RenderPassInfo, n: int) -> nat
    decreases n,
{
    if n <= 0 {
        0
    } else {
        stored_count(info, n - 1) + if is_stored(info, n - 1) {
            1nat
        } else {
            0nat
        }
    }
}

proof fn lemma_count_outgoing_concat(a: Seq<Dependency>, b: Seq<Dependency>)
    ensures
        count_outgoing(a + b) == count_outgoing(a) + count_outgoing(b),
    decreases b.len(),
{
    if b.len() == 0 {
        assert(a + b =~= a);
    } else {
        assert((a + b).drop_last() =~= a + b.drop_last());
        lemma_count_outgoing_concat(a, b.drop_last());
    }
}

proof fn lemma_count_single(d: Dependency)
    ensures
        count_outgoing(seq![d]) == if d.dst_subpass == SubpassRef::External {
            1nat
        } else {
            0nat
        },
{
    assert(seq![d].drop_last() =~= Seq::<Dependency>::empty());
    assert(count_outgoing(Seq::<Dependency>::empty()) == 0);
}

proof fn lemma_edges_into_stay_inside(info: RenderPassInfo, input: (u32, u32), outs: Seq<(u32, u32)>)
    ensures
        count_outgoing(edges_into(info, input, outs)) == 0,
    decreases outs.len(),
{
    if outs.len() > 0 {
        let prefix = edges_into(info, input, outs.drop_last());
        let tail: Seq<Dependency> = if outs.last().1 == input.1 {
            seq![internal_edge(info, outs.last().0, input.0, input.1)]
        } else {
            Seq::empty()
        };
        lemma_edges_into_stay_inside(info, input, outs.drop_last());
        lemma_count_outgoing_concat(prefix, tail);
        if outs.last().1 == input.1 {
            lemma_count_single(internal_edge(info, outs.last().0, input.0, input.1));
        } else {
            assert(count_outgoing(tail) == 0);
        }
    }
}

proof fn lemma_internal_edges_stay_inside(
    info: RenderPassInfo,
    ins: Seq<(u32, u32)>,
    outs: Seq<(u32, u32)>,
)
    ensures
        count_outgoing(internal_edges(info, ins, outs)) == 0,
    decreases ins.len(),
{
    if ins.len() > 0 {
        lemma_internal_edges_stay_inside(info, ins.drop_last(), outs);
        lemma_edges_into_stay_inside(info, ins.last(), outs);
        lemma_count_outgoing_concat(
            internal_edges(info, ins.drop_last(), outs),
            edges_into(info, ins.last(), outs),
        );
    }
}

proof fn lemma_last_writer_in(info: RenderPassInfo, a: u32, n: int)
    requires
        0 <= n <= info.subpasses@.len(),
    ensures
        match last_writer_in(info, a, n) {
            Some(w) => 0 <= w < n && writes(info, w, a) && forall|t: int|
                w < t < n ==> !writes(info, t, a),
            None => forall|t: int| 0 <= t < n ==> !writes(info, t, a),
        },
    decreases n,
{
    if n > 0 {
        lemma_last_writer_in(info, a, n - 1);
    }
}

/// Each stored attachment, and no other, yields exactly one dependency that leads out of
/// the pass, and it comes from the last subpass that writes the attachment (the last
/// subpass, where none does); swapchain images count as stored. No edge between subpasses
/// leads out, so the dependencies lead out exactly once per stored attachment.
pub proof fn lemma_one_store_edge(info: RenderPassInfo, a: int)
    requires
        0 <= a < attachment_count(info),
        0 < info.subpasses@.len() < u32::MAX,
        info.color_attachments@.len() < u32::MAX,
    ensures
        count_outgoing(attachment_edges(info, a)) == if is_stored(info, a) {
            1nat
        } else {
            0nat
        },
        is_stored(info, a) ==> attachment_edges(info, a).last().dst_subpass == SubpassRef::External,
        is_stored(info, a) ==> attachment_edges(info, a).last().src_subpass == SubpassRef::Index(
            store_source(info, a as u32),
        ),
        store_source(info, a as u32) < info.subpasses@.len(),
        (exists|t: int| 0 <= t < info.subpasses@.len() && #[trigger] writes(info, t, a as u32)) ==> {
            let w = store_source(info, a as u32) as int;
            &&& writes(info, w, a as u32)
            &&& forall|t: int| w < t < info.subpasses@.len() ==> !#[trigger] writes(info, t, a as u32)
        },
        count_outgoing(dependencies_of(info)) == stored_count(info, attachment_count(info) as int),
{
    let edges = attachment_edges(info, a);
    let store: Seq<Dependency> = if is_stored(info, a) {
        seq![store_edge(store_source(info, a as u32), a == color_count(info))]
    } else {
        Seq::empty()
    };
    if is_stored(info, a) {
        lemma_count_single(store_edge(store_source(info, a as u32), a == color_count(info)));
    } else {
        assert(count_outgoing(store) == 0);
    }
    if is_swapchain(info, a) {
        lemma_count_single(acquire_edge());
        lemma_count_outgoing_concat(seq![acquire_edge()], store);
    }
    lemma_last_writer_in(info, a as u32, info.subpasses@.len() as int);
    lemma_outgoing_total(info, attachment_count(info) as int);
    let n = info.subpasses@.len() as int;
    lemma_internal_edges_stay_inside(info, input_refs(info, n), output_refs(info, n));
    lemma_count_outgoing_concat(
        external_edges(info, attachment_count(info) as int),
        internal_edges(info, input_refs(info, n), output_refs(info, n)),
    );
}

proof fn lemma_outgoing_total(info: RenderPassInfo, n: int)
    requires
        0 <= n <= attachment_count(info),
        info.color_attachments@.len() < u32::MAX,
    ensures
        count_outgoing(external_edges(info, n)) == stored_count(info, n),
    decreases n,
{
    if n > 0 {
        lemma_outgoing_total(info, n - 1);
        let a = n - 1;
        let store: Seq<Dependency> = if is_stored(info, a) {
            seq![store_edge(store_source(info, a as u32), a == color_count(info))]
        } else {
            Seq::empty()
        };
        if is_stored(info, a) {
            lemma_count_single(store_edge(store_source(info, a as u32), a == color_count(info)));
        } else {
            assert(count_outgoing(store) == 0);
        }
        if is_swapchain(info, a) {
            lemma_count_single(acquire_edge());
            lemma_count_outgoing_concat(seq![acquire_edge()], store);
        }
        lemma_count_outgoing_concat(external_edges(info, n - 1), attachment_edges(info, a));
    }
}

} // verus!
