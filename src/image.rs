use vstd::prelude::*;

verus! {

/// The layout an image is in at the edges of a render pass.
#[derive(Clone, Copy, Debug, PartialEq, Eq, Structural)]
pub enum ImageLayout {
    Undefined,
    Attachment,
    Shader,
}

/// Channel layout and encoding of an image.
#[derive(Clone, Copy, Debug, PartialEq, Eq, Structural)]
pub enum ImageChannelType {
    BgraSrgb,
    BgraSnorm,
    BgraUnorm,
    BgraSint,
    BgraUint,
    RgbaSfloat,
    RgbaShalffloat,
    RSrgb,
    RSnorm,
    RUnorm,
    RSint,
    RUint,
    R32Uint,
    RSfloat,
    DSfloat,
}

pub open spec fn channel_size(c: ImageChannelType) -> nat {
    match c {
        ImageChannelType::RgbaSfloat => 16,
        ImageChannelType::RgbaShalffloat => 8,
        ImageChannelType::RSrgb | ImageChannelType::RSnorm | ImageChannelType::RUnorm
        | ImageChannelType::RSint | ImageChannelType::RUint => 1,
        _ => 4,
    }
}

impl ImageChannelType {
    /// Bytes per texel.
    pub fn size_in_bytes(&self) -> (r: u32)
        ensures
            r == channel_size(*self),
    {
        match self {
            ImageChannelType::RgbaSfloat => 16,
            ImageChannelType::RgbaShalffloat => 8,
            ImageChannelType::RSrgb | ImageChannelType::RSnorm | ImageChannelType::RUnorm
            | ImageChannelType::RSint | ImageChannelType::RUint => 1,
            _ => 4,
        }
    }

    /// Whether the format has a depth component.
    pub fn has_depth(&self) -> (r: bool)
        ensures
            r == (*self == ImageChannelType::DSfloat),
    {
        match self {
            ImageChannelType::DSfloat => true,
            _ => false,
        }
    }
}

/// How many layers an image has, and whether they form cube maps.
#[derive(Clone, Copy, Debug, PartialEq, Eq, Structural)]
pub enum ImageLayers {
    Single,
    Array(u32),
    Cube,
    CubeArray(u32),
}

#[derive(Clone, Copy, Debug, PartialEq, Eq, Structural)]
pub struct ImageType {
    pub channel: ImageChannelType,
    pub width: u32,
    pub height: u32,
    pub layers: ImageLayers,
}

pub open spec fn layer_count(l: ImageLayers) -> nat {
    match l {
        ImageLayers::Single => 1,
        ImageLayers::Array(n) => n as nat,
        ImageLayers::Cube => 6,
        ImageLayers::CubeArray(n) => (6 * n) as nat,
    }
}

/// Number of binary digits of `n`; zero has none.
pub open spec fn bit_length(n: nat) -> nat
    decreases n,
{
    if n == 0 {
        0
    } else {
        1 + bit_length(n / 2)
    }
}

impl ImageType {
    /// Number of array layers; a cube has six faces.
    pub fn layers(&self) -> (r: u64)
        ensures
            r == layer_count(self.layers),
    {
        match self.layers {
            ImageLayers::Single => 1,
            ImageLayers::Array(n) => n as u64,
            ImageLayers::Cube => 6,
            ImageLayers::CubeArray(n) => 6 * n as u64,
        }
    }

    /// Bytes in one layer of the base level.
    pub fn layer_size_in_bytes(&self) -> (r: u64)
        requires
            channel_size(self.channel) * self.width * self.height <= u64::MAX,
        ensures
            r == channel_size(self.channel) * self.width * self.height,
    {
        let size = self.channel.size_in_bytes() as u64;
        assert(size * self.width <= size * self.width * self.height || self.height == 0) by (
        nonlinear_arith)
            requires
                size >= 0,
        ;
        size * self.width as u64 * self.height as u64
    }
}

/// Samples per pixel.
#[derive(Clone, Copy, Debug, PartialEq, Eq, Structural)]
pub enum Msaa {
    X1,
    X2,
    X4,
    X8,
}

impl Msaa {
    pub fn sample_count(&self) -> (r: u32)
        ensures
            r == (match *self {
                Msaa::X1 => 1u32,
                Msaa::X2 => 2,
                Msaa::X4 => 4,
                Msaa::X8 => 8,
            }),
    {
        match self {
            Msaa::X1 => 1,
            Msaa::X2 => 2,
            Msaa::X4 => 4,
            Msaa::X8 => 8,
        }
    }
}

/// What an image is for.
#[derive(Clone, Copy, Debug, PartialEq, Eq, Structural)]
pub enum ImageUsage {
    Texture { mipmapping: bool },
    Attachment { depth: bool, samples: Msaa, texture: bool, transfer_src: bool },
}

/// The usages that a native image is created with.
#[derive(Clone, Copy, Debug, PartialEq, Eq, Structural)]
pub struct ImageUsageFlags {
    pub transfer_src: bool,
    pub transfer_dst: bool,
    pub sampled: bool,
    pub color_attachment: bool,
    pub depth_stencil_attachment: bool,
    pub input_attachment: bool,
}

impl ImageUsage {
    /// A texture is filled by transfers and sampled, and copied from to make its mip
    /// levels; an attachment is sampled if it doubles as a texture and read as an input
    /// attachment otherwise.
    pub fn usage_flags(&self) -> (r: ImageUsageFlags)
        ensures
            r == (match *self {
                ImageUsage::Texture { mipmapping } => ImageUsageFlags {
                    transfer_src: mipmapping,
                    transfer_dst: true,
                    sampled: true,
                    color_attachment: false,
                    depth_stencil_attachment: false,
                    input_attachment: false,
                },
                ImageUsage::Attachment { depth, texture, transfer_src, .. } => ImageUsageFlags {
                    transfer_src,
                    transfer_dst: false,
                    sampled: texture,
                    color_attachment: !depth,
                    depth_stencil_attachment: depth,
                    input_attachment: !texture,
                },
            }),
    {
        match *self {
            ImageUsage::Texture { mipmapping } => ImageUsageFlags {
                transfer_src: mipmapping,
                transfer_dst: true,
                sampled: true,
                color_attachment: false,
                depth_stencil_attachment: false,
                input_attachment: false,
            },
            ImageUsage::Attachment { depth, texture, transfer_src, .. } => ImageUsageFlags {
                transfer_src,
                transfer_dst: false,
                sampled: texture,
                color_attachment: !depth,
                depth_stencil_attachment: depth,
                input_attachment: !texture,
            },
        }
    }

    /// Number of mip levels: a mipmapped texture halves its larger side down to one
    /// texel; everything else has one level.
    pub fn mip_levels(&self, image_type: ImageType) -> (r: u32)
        ensures
            r == (match *self {
                ImageUsage::Texture { mipmapping: true } => {
                    let m = if image_type.width >= image_type.height {
                        image_type.width
                    } else {
                        image_type.height
                    };
                    if m == 0 {
                        1
                    } else {
                        bit_length(m as nat)
                    }
                },
                _ => 1,
            }),
    {
        match self {
            ImageUsage::Texture { mipmapping: true } => {
                let m = if image_type.width >= image_type.height {
                    image_type.width
                } else {
                    image_type.height
                };
                if m == 0 {
                    return 1;
                }
                let mut rest: u32 = m;
                let mut levels: u32 = 0;
                proof {
                    lemma_bit_length_bound(m as nat);
                }
                while rest > 0
                    invariant
                        levels + bit_length(rest as nat) == bit_length(m as nat),
                        levels <= 32 - bit_length(rest as nat),
                        bit_length(rest as nat) <= 32,
                    decreases rest,
                {
                    proof {
                        lemma_bit_length_bound(rest as nat);
                    }
                    rest = rest / 2;
                    levels = levels + 1;
                }
                levels
            },
            _ => 1,
        }
    }

    /// Whether the image is a depth attachment.
    pub fn depth(&self) -> (r: bool)
        ensures
            r == (*self matches ImageUsage::Attachment { depth: true, .. }),
    {
        match self {
            ImageUsage::Attachment { depth: true, .. } => true,
            _ => false,
        }
    }

    /// Samples per pixel; textures have one.
    pub fn samples(&self) -> (r: Msaa)
        ensures
            r == (match *self {
                ImageUsage::Attachment { samples, .. } => samples,
                _ => Msaa::X1,
            }),
    {
        match self {
            ImageUsage::Attachment { samples, .. } => *samples,
            _ => Msaa::X1,
        }
    }
}

/// The side of mip level `level` of an image side `n`: halved per level, down to one.
pub open spec fn mip_side(n: nat, level: nat) -> nat
    decreases level,
{
    if level == 0 {
        n
    } else {
        let above = mip_side(n, (level - 1) as nat);
        if above > 1 {
            above / 2
        } else {
            above
        }
    }
}

/// The width and height of each of the first `levels` mip levels of an image.
pub fn mip_extents(width: u32, height: u32, levels: u32) -> (r: Vec<(u32, u32)>)
    ensures
        r@.len() == levels,
        forall|i: int|
            0 <= i < levels ==> #[trigger] r@[i] == (
                mip_side(width as nat, i as nat) as u32,
                mip_side(height as nat, i as nat) as u32,
            ),
{
    let mut extents: Vec<(u32, u32)> = Vec::new();
    let mut w = width;
    let mut h = height;
    let mut i: u32 = 0;
    while i < levels
        invariant
            i <= levels,
            extents@.len() == i,
            w == mip_side(width as nat, i as nat),
            h == mip_side(height as nat, i as nat),
            forall|j: int|
                0 <= j < i ==> #[trigger] extents@[j] == (
                    mip_side(width as nat, j as nat) as u32,
                    mip_side(height as nat, j as nat) as u32,
                ),
        decreases levels - i,
    {
        extents.push((w, h));
        if w > 1 {
            w = w / 2;
        }
        if h > 1 {
            h = h / 2;
        }
        i += 1;
    }
    extents
}

proof fn lemma_bit_length_bound(n: nat)
    requires
        n <= u32::MAX,
    ensures
        bit_length(n) <= 32,
{
    vstd::arithmetic::power2::lemma2_to64();
    lemma_bit_length_below(n, 32);
}

proof fn lemma_bit_length_below(n: nat, k: nat)
    requires
        n < vstd::arithmetic::power2::pow2(k),
    ensures
        bit_length(n) <= k,
    decreases k,
{
    if n > 0 {
        vstd::arithmetic::power2::lemma2_to64();
        assert(k > 0);
        vstd::arithmetic::power2::lemma_pow2_unfold(k);
        lemma_bit_length_below(n / 2, (k - 1) as nat);
    }
}

/// How a sampler filters between texels and between mip levels.
#[derive(Clone, Copy, Debug, PartialEq, Eq, Structural)]
pub enum SamplerFilter {
    Linear,
    Nearest,
}

/// What a sampler reads outside the image.
#[derive(Clone, Copy, Debug, PartialEq, Eq, Structural)]
pub enum SamplerAddressMode {
    Repeat,
    MirroredRepeat,
    ClampToEdge,
}

#[derive(Clone, Copy, Debug, PartialEq, Eq, Structural)]
pub struct SamplerInfo {
    pub mag_filter: SamplerFilter,
    pub min_filter: SamplerFilter,
    pub mipmap_filter: SamplerFilter,
    pub address_mode: SamplerAddressMode,
}

} // verus!
