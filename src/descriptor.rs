use vstd::prelude::*;
use crate::attributes::DescriptorStructReprC;
use crate::image::ImageChannelType;
use crate::layout::{BufferInfo, BufferView};

verus! {

/// What one binding of a descriptor set holds.
#[derive(Clone, Copy, Debug, PartialEq, Eq, Structural)]
pub enum DescriptorBindingType {
    Storage,
    Struct { size_in_bytes: u32 },
    Sampler { image_channel_type: ImageChannelType },
    SubpassInput { image_channel_type: ImageChannelType },
}

/// The shader stages that see a binding.
#[derive(Clone, Copy, Debug, PartialEq, Eq, Structural)]
pub struct DescriptorVisibility {
    pub compute: bool,
    pub vertex: bool,
    pub fragment: bool,
}

#[derive(Clone, Copy, Debug, PartialEq, Eq, Structural)]
pub struct DescriptorBindingInfo {
    pub ty: DescriptorBindingType,
    pub count: u32,
    pub visibility: DescriptorVisibility,
}

/// How many descriptors of each kind a pool must hold.
#[derive(Clone, Copy, Debug, PartialEq, Eq, Structural)]
pub struct DescriptorCounts {
    pub uniform: u32,
    pub sampler: u32,
    pub input_attachment: u32,
    pub storage: u32,
}

impl DescriptorBindingInfo {
    /// `count` uniform structs of type `T`.
    pub fn from_struct<T: DescriptorStructReprC>(count: u32, vertex: bool, fragment: bool) -> (r:
        DescriptorBindingInfo)
        requires
            vstd::layout::size_of::<T>() <= u32::MAX,
        ensures
            r == (DescriptorBindingInfo {
                ty: DescriptorBindingType::Struct {
                    size_in_bytes: vstd::layout::size_of::<T>() as u32,
                },
                count,
                visibility: DescriptorVisibility { compute: false, vertex, fragment },
            }),
    {
        DescriptorBindingInfo {
            ty: DescriptorBindingType::Struct { size_in_bytes: core::mem::size_of::<T>() as u32 },
            count,
            visibility: DescriptorVisibility { compute: false, vertex, fragment },
        }
    }

    /// `count` sampled images of the given channel type.
    pub fn from_sampler(image_channel_type: ImageChannelType, count: u32, vertex: bool, fragment: bool) -> (r:
        DescriptorBindingInfo)
        ensures
            r == (DescriptorBindingInfo {
                ty: DescriptorBindingType::Sampler { image_channel_type },
                count,
                visibility: DescriptorVisibility { compute: false, vertex, fragment },
            }),
    {
        DescriptorBindingInfo {
            ty: DescriptorBindingType::Sampler { image_channel_type },
            count,
            visibility: DescriptorVisibility { compute: false, vertex, fragment },
        }
    }

    /// One input attachment, read by the fragment shader.
    pub fn from_input_attachment(image_channel_type: ImageChannelType) -> (r: DescriptorBindingInfo)
        ensures
            r == (DescriptorBindingInfo {
                ty: DescriptorBindingType::SubpassInput { image_channel_type },
                count: 1,
                visibility: DescriptorVisibility { compute: false, vertex: false, fragment: true },
            }),
    {
        DescriptorBindingInfo {
            ty: DescriptorBindingType::SubpassInput { image_channel_type },
            count: 1,
            visibility: DescriptorVisibility { compute: false, vertex: false, fragment: true },
        }
    }

    /// The descriptors this binding takes from a pool, by kind.
    pub fn type_count(&self) -> (r: DescriptorCounts)
        ensures
            r == (match self.ty {
                DescriptorBindingType::Struct { .. } => DescriptorCounts {
                    uniform: self.count,
                    sampler: 0,
                    input_attachment: 0,
                    storage: 0,
                },
                DescriptorBindingType::Sampler { .. } => DescriptorCounts {
                    uniform: 0,
                    sampler: self.count,
                    input_attachment: 0,
                    storage: 0,
                },
                DescriptorBindingType::SubpassInput { .. } => DescriptorCounts {
                    uniform: 0,
                    sampler: 0,
                    input_attachment: 1,
                    storage: 0,
                },
                DescriptorBindingType::Storage => DescriptorCounts {
                    uniform: 0,
                    sampler: 0,
                    input_attachment: 0,
                    storage: self.count,
                },
            }),
    {
        match self.ty {
            DescriptorBindingType::Struct { .. } => DescriptorCounts {
                uniform: self.count,
                sampler: 0,
                input_attachment: 0,
                storage: 0,
            },
            DescriptorBindingType::Sampler { .. } => DescriptorCounts {
                uniform: 0,
                sampler: self.count,
                input_attachment: 0,
                storage: 0,
            },
            DescriptorBindingType::SubpassInput { .. } => DescriptorCounts {
                uniform: 0,
                sampler: 0,
                input_attachment: 1,
                storage: 0,
            },
            DescriptorBindingType::Storage => DescriptorCounts {
                uniform: 0,
                sampler: 0,
                input_attachment: 0,
                storage: self.count,
            },
        }
    }
}

/// The descriptors that a binding takes, by kind, as integers.
pub open spec fn binding_counts(b: DescriptorBindingInfo) -> (int, int, int, int) {
    match b.ty {
        DescriptorBindingType::Struct { .. } => (b.count as int, 0, 0, 0),
        DescriptorBindingType::Sampler { .. } => (0, b.count as int, 0, 0),
        DescriptorBindingType::SubpassInput { .. } => (0, 0, 1, 0),
        DescriptorBindingType::Storage => (0, 0, 0, b.count as int),
    }
}

/// What `sets` descriptor sets of each layout take from a pool: the number of sets and the
/// descriptors of each kind, summed over the first `n` layouts.
pub open spec fn pool_totals(layouts: Seq<(Seq<DescriptorBindingInfo>, u32)>, n: int) -> (
    int,
    int,
    int,
    int,
    int,
)
    decreases n,
{
    if n <= 0 {
        (0, 0, 0, 0, 0)
    } else {
        let before = pool_totals(layouts, n - 1);
        let per_set = layout_totals(layouts[n - 1].0, layouts[n - 1].0.len() as int);
        let sets = layouts[n - 1].1 as int;
        (
            before.0 + sets,
            before.1 + sets * per_set.0,
            before.2 + sets * per_set.1,
            before.3 + sets * per_set.2,
            before.4 + sets * per_set.3,
        )
    }
}

/// The descriptors of the first `n` bindings of a layout, by kind.
pub open spec fn layout_totals(bindings: Seq<DescriptorBindingInfo>, n: int) -> (int, int, int, int)
    decreases n,
{
    if n <= 0 {
        (0, 0, 0, 0)
    } else {
        let before = layout_totals(bindings, n - 1);
        let c = binding_counts(bindings[n - 1]);
        (before.0 + c.0, before.1 + c.1, before.2 + c.2, before.3 + c.3)
    }
}

/// The size of a descriptor pool.
#[derive(Clone, Copy, Debug, PartialEq, Eq, Structural)]
pub struct PoolSize {
    pub sets: u32,
    pub counts: DescriptorCounts,
}

pub open spec fn fits_u32(t: (int, int, int, int, int)) -> bool {
    t.0 <= u32::MAX && t.1 <= u32::MAX && t.2 <= u32::MAX && t.3 <= u32::MAX && t.4 <= u32::MAX
}

proof fn lemma_totals_grow(bindings: Seq<DescriptorBindingInfo>, n: int, m: int)
    requires
        0 <= n <= m,
    ensures
        layout_totals(bindings, n).0 <= layout_totals(bindings, m).0,
        layout_totals(bindings, n).1 <= layout_totals(bindings, m).1,
        layout_totals(bindings, n).2 <= layout_totals(bindings, m).2,
        layout_totals(bindings, n).3 <= layout_totals(bindings, m).3,
        0 <= layout_totals(bindings, n).0,
        0 <= layout_totals(bindings, n).1,
        0 <= layout_totals(bindings, n).2,
        0 <= layout_totals(bindings, n).3,
    decreases m,
{
    if n < m {
        lemma_totals_grow(bindings, n, m - 1);
    }
    if n > 0 {
        lemma_totals_grow(bindings, n - 1, n - 1);
    }
}

proof fn lemma_pool_totals_grow(layouts: Seq<(Seq<DescriptorBindingInfo>, u32)>, n: int, m: int)
    requires
        0 <= n <= m <= layouts.len(),
    ensures
        pool_totals(layouts, n).0 <= pool_totals(layouts, m).0,
        pool_totals(layouts, n).1 <= pool_totals(layouts, m).1,
        pool_totals(layouts, n).2 <= pool_totals(layouts, m).2,
        pool_totals(layouts, n).3 <= pool_totals(layouts, m).3,
        pool_totals(layouts, n).4 <= pool_totals(layouts, m).4,
    decreases m,
{
    if n < m {
        lemma_pool_totals_grow(layouts, n, m - 1);
        let per_set = layout_totals(layouts[m - 1].0, layouts[m - 1].0.len() as int);
        lemma_totals_grow(layouts[m - 1].0, 0, layouts[m - 1].0.len() as int);
        let sets = layouts[m - 1].1 as int;
        assert(sets * per_set.0 >= 0 && sets * per_set.1 >= 0 && sets * per_set.2 >= 0
            && sets * per_set.3 >= 0) by (nonlinear_arith)
            requires
                sets >= 0,
                per_set.0 >= 0,
                per_set.1 >= 0,
                per_set.2 >= 0,
                per_set.3 >= 0,
        ;
    }
}

/// The descriptors of one layout, by kind, if every count fits a `u32`.
fn layout_counts(bindings: &[DescriptorBindingInfo]) -> (r: Option<DescriptorCounts>)
    ensures
        ({
            let t = layout_totals(bindings@, bindings@.len() as int);
            &&& r is Some <==> fits_u32((t.0, t.1, t.2, t.3, 0))
            &&& r matches Some(c) ==> c.uniform == t.0 && c.sampler == t.1 && c.input_attachment
                == t.2 && c.storage == t.3
        }),
{
    let mut total = DescriptorCounts { uniform: 0, sampler: 0, input_attachment: 0, storage: 0 };
    let mut k: usize = 0;
    while k < bindings.len()
        invariant
            k <= bindings@.len(),
            ({
                let t = layout_totals(bindings@, k as int);
                total.uniform == t.0 && total.sampler == t.1 && total.input_attachment == t.2
                    && total.storage == t.3
            }),
        decreases bindings@.len() - k,
    {
        let c = bindings[k].type_count();
        proof {
            lemma_totals_grow(bindings@, k as int + 1, bindings@.len() as int);
        }
        let (uniform, sampler, input_attachment, storage) = match (
            total.uniform.checked_add(c.uniform),
            total.sampler.checked_add(c.sampler),
            total.input_attachment.checked_add(c.input_attachment),
            total.storage.checked_add(c.storage),
        ) {
            (Some(a), Some(b), Some(d), Some(e)) => (a, b, d, e),
            _ => {
                return None;
            },
        };
        total = DescriptorCounts { uniform, sampler, input_attachment, storage };
        k += 1;
    }
    Some(total)
}

/// The pool that `n` sets of each layout need, for layouts given with their set counts;
/// `None` where a count does not fit a `u32`.
pub fn pool_size(layouts: &[(&[DescriptorBindingInfo], u32)]) -> (r: Option<PoolSize>)
    ensures
        ({
            let model = layouts@.map_values(
                |l: (&[DescriptorBindingInfo], u32)| (l.0@, l.1),
            );
            let t = pool_totals(model, model.len() as int);
            &&& r is Some <==> fits_u32(t)
            &&& r matches Some(p) ==> p.sets == t.0 && p.counts.uniform == t.1
                && p.counts.sampler == t.2 && p.counts.input_attachment == t.3
                && p.counts.storage == t.4
        }),
{
    let ghost model = layouts@.map_values(|l: (&[DescriptorBindingInfo], u32)| (l.0@, l.1));
    let mut sets: u32 = 0;
    let mut total = DescriptorCounts { uniform: 0, sampler: 0, input_attachment: 0, storage: 0 };
    let mut i: usize = 0;
    while i < layouts.len()
        invariant
            i <= layouts@.len(),
            model == layouts@.map_values(|l: (&[DescriptorBindingInfo], u32)| (l.0@, l.1)),
            ({
                let t = pool_totals(model, i as int);
                sets == t.0 && total.uniform == t.1 && total.sampler == t.2
                    && total.input_attachment == t.3 && total.storage == t.4
            }),
        decreases layouts@.len() - i,
    {
        let (bindings, count) = layouts[i];
        proof {
            lemma_pool_totals_grow(model, i as int + 1, model.len() as int);
            lemma_totals_grow(bindings@, 0, bindings@.len() as int);
        }
        let ghost per_set = layout_totals(bindings@, bindings@.len() as int);
        let c = match layout_counts(bindings) {
            Some(c) => c,
            None => {
                // one set of this layout already takes more than a u32 holds
                proof {
                    let t = pool_totals(model, i as int + 1);
                    if count > 0 {
                        assert(count * per_set.0 >= per_set.0 && count * per_set.1 >= per_set.1
                            && count * per_set.2 >= per_set.2 && count * per_set.3 >= per_set.3)
                            by (nonlinear_arith)
                            requires
                                count >= 1,
                                per_set.0 >= 0,
                                per_set.1 >= 0,
                                per_set.2 >= 0,
                                per_set.3 >= 0,
                        ;
                    }
                }
                if count == 0 {
                    assert(model[i as int] == (bindings@, count));
                    assert(0 * per_set.0 == 0 && 0 * per_set.1 == 0 && 0 * per_set.2 == 0 && 0
                        * per_set.3 == 0);
                    i += 1;
                    continue;
                }
                return None;
            },
        };
        assert(model[i as int] == (bindings@, count));
        let n = count as u128;
        assert(n * c.uniform <= u32::MAX * u32::MAX && n * c.sampler <= u32::MAX * u32::MAX
            && n * c.input_attachment <= u32::MAX * u32::MAX && n * c.storage <= u32::MAX
            * u32::MAX) by (nonlinear_arith)
            requires
                n <= u32::MAX,
                c.uniform <= u32::MAX,
                c.sampler <= u32::MAX,
                c.input_attachment <= u32::MAX,
                c.storage <= u32::MAX,
        ;
        let next = (
            sets as u128 + n,
            total.uniform as u128 + n * c.uniform as u128,
            total.sampler as u128 + n * c.sampler as u128,
            total.input_attachment as u128 + n * c.input_attachment as u128,
            total.storage as u128 + n * c.storage as u128,
        );
        if next.0 > u32::MAX as u128 || next.1 > u32::MAX as u128 || next.2 > u32::MAX as u128
            || next.3 > u32::MAX as u128 || next.4 > u32::MAX as u128 {
            return None;
        }
        sets = next.0 as u32;
        total = DescriptorCounts {
            uniform: next.1 as u32,
            sampler: next.2 as u32,
            input_attachment: next.3 as u32,
            storage: next.4 as u32,
        };
        i += 1;
    }
    Some(PoolSize { sets, counts: total })
}

/// Why a descriptor cannot be written as asked.
#[derive(Clone, Copy, Debug, PartialEq, Eq, Structural)]
pub enum DescriptorError {
    /// The view belongs to another layout than the buffer.
    IncompatibleView,
    /// The view holds another number of elements than the binding.
    WrongCount,
    /// The binding holds structs of another size, or no structs.
    WrongType,
}

/// A binding of this type holds structs of `size` bytes.
pub open spec fn holds_struct_of(ty: DescriptorBindingType, size: nat) -> bool {
    match ty {
        DescriptorBindingType::Struct { size_in_bytes } => size_in_bytes as nat == size,
        _ => false,
    }
}

/// The byte range of element `i` of a view `stride` bytes apart.
pub open spec fn element_range(offset: u64, stride: u32, i: int) -> (u64, u64) {
    ((offset + i * stride) as u64, stride as u64)
}

/// The ranges of a buffer that a uniform binding points to: one per struct of the view,
/// if the view fits the binding.
pub fn uniform_ranges<T>(binding: &DescriptorBindingInfo, buffer: &BufferInfo, view: &BufferView<T>) -> (r:
    Result<Vec<(u64, u64)>, DescriptorError>)
    ensures
        view@.layout_id != buffer.layout_id ==> r == Err::<Vec<(u64, u64)>, DescriptorError>(
            DescriptorError::IncompatibleView,
        ),
        view@.layout_id == buffer.layout_id && view@.count != binding.count ==> r == Err::<
            Vec<(u64, u64)>,
            DescriptorError,
        >(DescriptorError::WrongCount),
        view@.layout_id == buffer.layout_id && view@.count == binding.count && !holds_struct_of(
            binding.ty,
            vstd::layout::size_of::<T>(),
        ) ==> r == Err::<Vec<(u64, u64)>, DescriptorError>(DescriptorError::WrongType),
        r is Ok <==> view@.layout_id == buffer.layout_id && view@.count == binding.count
            && holds_struct_of(binding.ty, vstd::layout::size_of::<T>()),
        r matches Ok(ranges) ==> ranges@.len() == view@.count && forall|i: int|
            0 <= i < view@.count ==> #[trigger] ranges@[i] == element_range(
                view@.offset,
                view@.stride,
                i,
            ),
{
    if buffer.view_offset(view).is_err() {
        return Err(DescriptorError::IncompatibleView);
    }
    if view.count() != binding.count {
        return Err(DescriptorError::WrongCount);
    }
    let size = core::mem::size_of::<T>();
    match binding.ty {
        DescriptorBindingType::Struct { size_in_bytes } => {
            if size_in_bytes as usize != size {
                return Err(DescriptorError::WrongType);
            }
        },
        _ => {
            return Err(DescriptorError::WrongType);
        },
    }
    let stride = view.stride();
    let count = view.count();
    let mut ranges: Vec<(u64, u64)> = Vec::new();
    let mut i: u32 = 0;
    while i < count
        invariant
            i <= count,
            count == view@.count,
            stride == view@.stride,
            ranges@.len() == i,
            forall|j: int|
                0 <= j < i ==> #[trigger] ranges@[j] == element_range(view@.offset, stride, j),
        decreases count - i,
    {
        ranges.push((view.element_offset(i), stride as u64));
        i += 1;
    }
    Ok(ranges)
}

} // verus!
