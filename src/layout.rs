use vstd::prelude::*;
use vstd::arithmetic::div_mod::{
    lemma_add_mod_noop, lemma_fundamental_div_mod, lemma_mod_multiples_basic, lemma_mod_self_0,
    lemma_small_mod,
};
use core::marker::PhantomData;
use crate::attributes::{AttributeGroupReprCpacked, DescriptorStructReprC, IndexType, StorageStructReprC};

verus! {

/// Greatest common divisor, in the subtractive form of Euclid's algorithm.
pub open spec fn gcd(a: nat, b: nat) -> nat
    decreases a + b,
{
    if a == 0 {
        b
    } else if b == 0 {
        a
    } else if a > b {
        gcd((a - b) as nat, b)
    } else {
        gcd(a, (b - a) as nat)
    }
}

/// Least common multiple of two positive numbers.
pub open spec fn lcm(a: nat, b: nat) -> nat {
    a * b / gcd(a, b)
}

/// `x` rounded up to the next multiple of `align`; a multiple of `align` stays as it is.
pub open spec fn align_up(x: nat, align: nat) -> nat {
    if x % align == 0 {
        x
    } else {
        (x + (align - x % align)) as nat
    }
}

pub proof fn lemma_gcd_divides(a: nat, b: nat)
    requires
        a > 0 || b > 0,
    ensures
        gcd(a, b) > 0,
        a % gcd(a, b) == 0,
        b % gcd(a, b) == 0,
    decreases a + b,
{
    if a == 0 {
        lemma_mod_self_0(b as int);
        lemma_small_mod(0, b);
    } else if b == 0 {
        lemma_mod_self_0(a as int);
        lemma_small_mod(0, a);
    } else if a > b {
        lemma_gcd_divides((a - b) as nat, b);
        let g = gcd(a, b);
        assert(g == gcd((a - b) as nat, b));
        lemma_add_mod_noop((a - b) as int, b as int, g as int);
        assert(((a - b) as int + b as int) == a as int);
        lemma_small_mod(0, g);
    } else {
        lemma_gcd_divides(a, (b - a) as nat);
        let g = gcd(a, b);
        assert(g == gcd(a, (b - a) as nat));
        lemma_add_mod_noop((b - a) as int, a as int, g as int);
        assert(((b - a) as int + a as int) == b as int);
        lemma_small_mod(0, g);
    }
}

/// Every common divisor of two numbers divides their `gcd`: it is the greatest one.
pub proof fn lemma_gcd_greatest(a: nat, b: nat, d: nat)
    requires
        d > 0,
        a % d == 0,
        b % d == 0,
    ensures
        gcd(a, b) % d == 0,
    decreases a + b,
{
    if a > 0 && b > 0 {
        lemma_fundamental_div_mod(a as int, d as int);
        lemma_fundamental_div_mod(b as int, d as int);
        let ka = a / d;
        let kb = b / d;
        if a > b {
            assert((a - b) as int == (ka - kb) * d) by (nonlinear_arith)
                requires
                    a == d * ka,
                    b == d * kb,
            ;
            lemma_mod_multiples_basic(ka - kb, d as int);
            lemma_gcd_greatest((a - b) as nat, b, d);
        } else {
            assert((b - a) as int == (kb - ka) * d) by (nonlinear_arith)
                requires
                    a == d * ka,
                    b == d * kb,
            ;
            lemma_mod_multiples_basic(kb - ka, d as int);
            lemma_gcd_greatest(a, (b - a) as nat, d);
        }
    }
}

/// Scaling both numbers scales their `gcd`.
pub proof fn lemma_gcd_scale(a: nat, b: nat, k: nat)
    ensures
        gcd(k * a, k * b) == k * gcd(a, b),
    decreases a + b,
{
    if k == 0 {
        assert(k * a == 0 && k * b == 0 && k * gcd(a, b) == 0);
    } else if a == 0 {
        assert(k * a == 0);
    } else if b == 0 {
        assert(k * b == 0);
    } else if a > b {
        assert(k * a > k * b && k * a - k * b == k * (a - b) as nat && k * b > 0) by (
        nonlinear_arith)
            requires
                k > 0,
                a > b,
                b > 0,
        ;
        lemma_gcd_scale((a - b) as nat, b, k);
    } else {
        assert(k * a <= k * b && k * b - k * a == k * (b - a) as nat && k * a > 0) by (
        nonlinear_arith)
            requires
                k > 0,
                a <= b,
                a > 0,
        ;
        lemma_gcd_scale(a, (b - a) as nat, k);
    }
}

/// Every common multiple of two positive numbers is a multiple of their `lcm`: it is the
/// least one.
pub proof fn lemma_lcm_least(a: nat, b: nat, m: nat)
    requires
        a > 0,
        b > 0,
        m % a == 0,
        m % b == 0,
    ensures
        m % lcm(a, b) == 0,
{
    lemma_gcd_divides(a, b);
    lemma_lcm_multiple(a, b);
    let g = gcd(a, b);
    lemma_fundamental_div_mod(a as int, g as int);
    lemma_fundamental_div_mod(b as int, g as int);
    lemma_fundamental_div_mod(m as int, a as int);
    lemma_fundamental_div_mod(m as int, b as int);
    let a1 = a / g;
    let b1 = b / g;
    let k = m / a;
    let j = m / b;
    assert(a == g * a1 && b == g * b1 && m == a * k && m == b * j);
    // a1 and b1 are coprime
    lemma_gcd_scale(a1, b1, g);
    assert(g * gcd(a1, b1) == g * 1) by (nonlinear_arith)
        requires
            g * gcd(a1, b1) == gcd(g * a1, g * b1),
            gcd(g * a1, g * b1) == g,
    ;
    assert(gcd(a1, b1) == 1) by (nonlinear_arith)
        requires
            g * gcd(a1, b1) == g * 1,
            g > 0,
    ;
    // b1 divides a1 * k and b1 * k, hence their gcd, which is k
    assert(a1 * k == b1 * j) by (nonlinear_arith)
        requires
            m == g * a1 * k,
            m == g * b1 * j,
            g > 0,
    ;
    assert(b1 > 0) by (nonlinear_arith)
        requires
            b == g * b1,
            b > 0,
            g > 0,
    ;
    lemma_mod_multiples_basic(j as int, b1 as int);
    lemma_mod_multiples_basic(k as int, b1 as int);
    assert(k * a1 == j * b1 && k * b1 == b1 * k) by (nonlinear_arith)
        requires
            a1 * k == b1 * j,
    ;
    lemma_gcd_greatest(k * a1, k * b1, b1);
    lemma_gcd_scale(a1, b1, k);
    assert(k % b1 == 0);
    lemma_fundamental_div_mod(k as int, b1 as int);
    let t = k / b1;
    assert(lcm(a, b) == a * b1) by (nonlinear_arith)
        requires
            lcm(a, b) == a1 * b,
            a == g * a1,
            b == g * b1,
    ;
    assert(m == t * lcm(a, b)) by (nonlinear_arith)
        requires
            m == a * k,
            k == b1 * t,
            lcm(a, b) == a * b1,
    ;
    lemma_mod_multiples_basic(t as int, lcm(a, b) as int);
}

/// Both numbers divide their least common multiple, which is positive.
pub proof fn lemma_lcm_multiple(a: nat, b: nat)
    requires
        a > 0,
        b > 0,
    ensures
        lcm(a, b) > 0,
        lcm(a, b) == (a / gcd(a, b)) * b,
        lcm(a, b) % a == 0,
        lcm(a, b) % b == 0,
{
    lemma_gcd_divides(a, b);
    let g = gcd(a, b);
    lemma_fundamental_div_mod(a as int, g as int);
    lemma_fundamental_div_mod(b as int, g as int);
    let ka = a / g;
    let kb = b / g;
    assert(a == g * ka);
    assert(b == g * kb);
    assert(a * b == g * (ka * b)) by (nonlinear_arith)
        requires
            a == g * ka,
    ;
    assert(a * b / g == ka * b) by {
        vstd::arithmetic::div_mod::lemma_div_multiples_vanish((ka * b) as int, g as int);
    }
    assert(ka * b == (ka * kb) * g) by (nonlinear_arith)
        requires
            b == g * kb,
    ;
    assert(ka * b == a * kb) by (nonlinear_arith)
        requires
            a == g * ka,
            b == g * kb,
    ;
    assert(ka > 0) by (nonlinear_arith)
        requires
            a == g * ka,
            a > 0,
            g > 0,
    ;
    assert(ka * b > 0) by (nonlinear_arith)
        requires
            ka > 0,
            b > 0,
    ;
    lemma_mod_multiples_basic(ka as int, b as int);
    lemma_mod_multiples_basic(kb as int, a as int);
    assert(a * kb == kb * a) by (nonlinear_arith);
}

/// A multiple of the least common multiple is a multiple of both numbers.
pub proof fn lemma_lcm_aligned(x: nat, a: nat, b: nat)
    requires
        a > 0,
        b > 0,
        x % lcm(a, b) == 0,
    ensures
        x % a == 0,
        x % b == 0,
{
    lemma_lcm_multiple(a, b);
    let l = lcm(a, b);
    lemma_fundamental_div_mod(x as int, l as int);
    lemma_fundamental_div_mod(l as int, a as int);
    lemma_fundamental_div_mod(l as int, b as int);
    let k = x / l;
    let la = l / a;
    let lb = l / b;
    assert(x == a * (la * k)) by (nonlinear_arith)
        requires
            x == l * k,
            l == a * la,
    ;
    assert(x == b * (lb * k)) by (nonlinear_arith)
        requires
            x == l * k,
            l == b * lb,
    ;
    lemma_mod_multiples_basic((la * k) as int, a as int);
    lemma_mod_multiples_basic((lb * k) as int, b as int);
    assert((la * k) * a == a * (la * k)) by (nonlinear_arith);
    assert((lb * k) * b == b * (lb * k)) by (nonlinear_arith);
}

pub proof fn lemma_align_up(x: nat, align: nat)
    requires
        align > 0,
    ensures
        align_up(x, align) % align == 0,
        x <= align_up(x, align) < x + align,
        align_up(x, align) == (x / align + (if x % align == 0 { 0int } else { 1int })) * align,
{
    lemma_fundamental_div_mod(x as int, align as int);
    let q = x / align;
    let r = x % align;
    assert(x == align * q + r);
    if r == 0 {
        assert(x == q * align) by (nonlinear_arith)
            requires
                x == align * q + r,
                r == 0,
        ;
        lemma_mod_multiples_basic(q as int, align as int);
    } else {
        assert(align_up(x, align) == (q + 1) * align) by (nonlinear_arith)
            requires
                x == align * q + r,
                align_up(x, align) == x + (align - r),
        ;
        lemma_mod_multiples_basic((q + 1) as int, align as int);
    }
}

/// Greatest common divisor of two numbers; zero has every divisor, so `ggt(0, b)` is `b`.
fn ggt(a: u64, b: u64) -> (r: u64)
    ensures
        r == gcd(a as nat, b as nat),
{
    if a == 0 {
        return b;
    }
    let mut x = a;
    let mut y = b;
    while y != 0
        invariant
            x > 0,
            gcd(x as nat, y as nat) == gcd(a as nat, b as nat),
        decreases x + y,
    {
        if x > y {
            x = x - y;
        } else {
            y = y - x;
        }
    }
    x
}

/// Least common multiple of two positive numbers that fits in a `u64`.
fn kgv(a: u64, b: u64) -> (r: u64)
    requires
        a > 0,
        b > 0,
        lcm(a as nat, b as nat) <= u64::MAX,
    ensures
        r == lcm(a as nat, b as nat),
{
    let g = ggt(a, b);
    proof {
        lemma_lcm_multiple(a as nat, b as nat);
        lemma_gcd_divides(a as nat, b as nat);
        vstd::arithmetic::div_mod::lemma_div_pos_is_pos(a as int, g as int);
    }
    a / g * b
}

/// The state of a layout under construction, or of a finished one.
pub struct LayoutModel {
    pub id: u32,
    pub cursor: u64,
    pub uniform_align: u64,
    pub storage_align: u64,
    pub indices: bool,
    pub attributes: bool,
    pub uniforms: bool,
    pub storage: bool,
}

/// Where a region lies within its layout.
pub struct RegionModel {
    pub layout_id: u32,
    pub offset: u64,
    pub count: u32,
    pub stride: u32,
}

impl LayoutModel {
    pub open spec fn wf(self) -> bool {
        self.uniform_align > 0 && self.storage_align > 0
    }

    /// The alignment that a region's start obeys: the requested one, and for storage
    /// regions also the device's storage alignment.
    pub open spec fn effective_align(self, offset_align: nat, storage: bool) -> nat {
        if storage {
            lcm(offset_align, self.storage_align as nat)
        } else {
            offset_align
        }
    }

    pub open spec fn region_offset(self, offset_align: nat, storage: bool) -> nat {
        align_up(self.cursor as nat, self.effective_align(offset_align, storage))
    }

    /// Whether a region of `count` elements of `size` bytes can be added without leaving
    /// the range of the layout's integers.
    pub open spec fn fits(
        self,
        size: nat,
        count: nat,
        offset_align: nat,
        stride_align: nat,
        storage: bool,
    ) -> bool {
        &&& count <= u32::MAX
        &&& self.effective_align(offset_align, storage) <= u64::MAX
        &&& align_up(size, stride_align) <= u32::MAX
        &&& self.region_offset(offset_align, storage) + count * align_up(size, stride_align)
            <= u64::MAX
    }

    /// The region that such an addition hands out.
    pub open spec fn region(
        self,
        size: nat,
        count: nat,
        offset_align: nat,
        stride_align: nat,
        storage: bool,
    ) -> RegionModel {
        RegionModel {
            layout_id: self.id,
            offset: self.region_offset(offset_align, storage) as u64,
            count: count as u32,
            stride: align_up(size, stride_align) as u32,
        }
    }

    /// The layout after such an addition.
    pub open spec fn after_region(
        self,
        size: nat,
        count: nat,
        offset_align: nat,
        stride_align: nat,
        storage: bool,
    ) -> LayoutModel {
        LayoutModel {
            cursor: (self.region_offset(offset_align, storage) + count * align_up(
                size,
                stride_align,
            )) as u64,
            storage: self.storage || storage,
            ..self
        }
    }

    /// `later` is this layout after zero or more further additions.
    pub open spec fn precedes(self, later: LayoutModel) -> bool {
        &&& later.id == self.id
        &&& later.uniform_align == self.uniform_align
        &&& later.storage_align == self.storage_align
        &&& self.cursor <= later.cursor
    }
}

impl RegionModel {
    /// The first byte after the region.
    pub open spec fn end(self) -> int {
        self.offset + self.count * self.stride
    }
}

/// How a region handed out by an addition sits in its layout: its start is a multiple of
/// its effective alignment (for a storage region, of the least common multiple of the
/// requested and the storage alignment, hence of both), its stride is a multiple of the
/// stride alignment and no smaller than the element, it starts at or after the end of
/// every earlier region, and the layout's next region cannot start before its end.
pub open spec fn placed(
    r: RegionModel,
    before: LayoutModel,
    after: LayoutModel,
    size: nat,
    offset_align: nat,
    stride_align: nat,
    storage: bool,
) -> bool {
    &&& (r.offset as nat) % before.effective_align(offset_align, storage) == 0
    &&& (r.offset as nat) % offset_align == 0
    &&& storage ==> (r.offset as nat) % lcm(offset_align, before.storage_align as nat) == 0
    &&& storage ==> (r.offset as nat) % (before.storage_align as nat) == 0
    &&& (r.stride as nat) % stride_align == 0
    &&& r.stride >= size
    &&& before.cursor <= r.offset
    &&& r.end() == after.cursor
}

/// A layout under construction: regions are added one after another.
pub struct BufferTypeBuilder(BufferType);

/// A finished layout: the byte size of a buffer and the usages its regions need.
pub struct BufferType {
    id: u32,
    offset_in_bytes: u64,
    uniform_align: u64,
    storage_align: u64,
    indices: bool,
    attributes: bool,
    uniforms: bool,
    storage: bool,
}

/// One region of a layout, holding `count` elements of type `T`, `stride` bytes apart.
pub struct BufferView<T> {
    layout_id: u32,
    offset_in_bytes: u64,
    count: u32,
    stride: u32,
    phantom: PhantomData<T>,
}

impl View for BufferType {
    type V = LayoutModel;

    closed spec fn view(&self) -> LayoutModel {
        LayoutModel {
            id: self.id,
            cursor: self.offset_in_bytes,
            uniform_align: self.uniform_align,
            storage_align: self.storage_align,
            indices: self.indices,
            attributes: self.attributes,
            uniforms: self.uniforms,
            storage: self.storage,
        }
    }
}

impl View for BufferTypeBuilder {
    type V = LayoutModel;

    closed spec fn view(&self) -> LayoutModel {
        self.0@
    }
}

impl<T> View for BufferView<T> {
    type V = RegionModel;

    closed spec fn view(&self) -> RegionModel {
        RegionModel {
            layout_id: self.layout_id,
            offset: self.offset_in_bytes,
            count: self.count,
            stride: self.stride,
        }
    }
}

impl<T> BufferView<T> {
    #[verifier::type_invariant]
    spec fn within_range(self) -> bool {
        self.offset_in_bytes + self.count * self.stride <= u64::MAX
    }

    pub fn count(&self) -> (r: u32)
        ensures
            r == self@.count,
    {
        self.count
    }

    pub fn layout_id(&self) -> (r: u32)
        ensures
            r == self@.layout_id,
    {
        self.layout_id
    }

    pub fn offset_in_bytes(&self) -> (r: u64)
        ensures
            r == self@.offset,
    {
        self.offset_in_bytes
    }

    pub fn stride(&self) -> (r: u32)
        ensures
            r == self@.stride,
    {
        self.stride
    }

    /// Where element `i` of the region starts; element `count` is the first byte after it.
    pub fn element_offset(&self, i: u32) -> (r: u64)
        requires
            i <= self@.count,
        ensures
            r == self@.offset + i * self@.stride,
    {
        proof {
            use_type_invariant(self);
        }
        assert(i * self.stride <= self.count * self.stride) by (nonlinear_arith)
            requires
                i <= self.count,
        ;
        self.offset_in_bytes + i as u64 * self.stride as u64
    }
}

impl<T> Clone for BufferView<T> {
    fn clone(&self) -> (r: Self)
        ensures
            r@ == self@,
    {
        proof {
            use_type_invariant(self);
        }
        BufferView {
            layout_id: self.layout_id,
            offset_in_bytes: self.offset_in_bytes,
            count: self.count,
            stride: self.stride,
            phantom: PhantomData,
        }
    }
}

impl<T> Copy for BufferView<T> {

}

impl BufferTypeBuilder {
    /// An empty layout with identity `id`, for a device with the given minimum offset
    /// alignments of uniform and storage regions.
    pub fn new(id: u32, uniform_align: u64, storage_align: u64) -> (r: BufferTypeBuilder)
        requires
            uniform_align > 0,
            storage_align > 0,
        ensures
            r@ == (LayoutModel {
                id,
                cursor: 0,
                uniform_align,
                storage_align,
                indices: false,
                attributes: false,
                uniforms: false,
                storage: false,
            }),
    {
        BufferTypeBuilder(
            BufferType {
                id,
                offset_in_bytes: 0,
                uniform_align,
                storage_align,
                indices: false,
                attributes: false,
                uniforms: false,
                storage: false,
            },
        )
    }

    /// Adds `count` vertex indices, aligned to their own size.
    pub fn add_indices<T: IndexType>(&mut self, count: u32) -> (r: BufferView<T>)
        requires
            old(self)@.wf(),
            vstd::layout::size_of::<T>() > 0,
            old(self)@.fits(vstd::layout::size_of::<T>(), count as nat, vstd::layout::size_of::<T>(), 1, false),
        ensures
            r@ == old(self)@.region(vstd::layout::size_of::<T>(), count as nat, vstd::layout::size_of::<T>(), 1, false),
            final(self)@ == (LayoutModel { indices: true, ..old(self)@.after_region(vstd::layout::size_of::<T>(), count as nat, vstd::layout::size_of::<T>(), 1, false) }),
            old(self)@.precedes(final(self)@),
            placed(
                r@,
                old(self)@,
                final(self)@,
                vstd::layout::size_of::<T>(),
                vstd::layout::size_of::<T>(),
                1,
                false,
            ),
    {
        self.0.indices = true;
        self.add(count, core::mem::size_of::<T>() as u64, 1, false)
    }

    /// Adds `count` packed attribute groups.
    pub fn add_attributes<T: AttributeGroupReprCpacked>(&mut self, count: u32) -> (r: BufferView<T>)
        requires
            old(self)@.wf(),
            old(self)@.fits(vstd::layout::size_of::<T>(), count as nat, 1, 1, false),
        ensures
            r@ == old(self)@.region(vstd::layout::size_of::<T>(), count as nat, 1, 1, false),
            final(self)@ == (LayoutModel { attributes: true, ..old(self)@.after_region(vstd::layout::size_of::<T>(), count as nat, 1, 1, false) }),
            old(self)@.precedes(final(self)@),
            placed(
                r@,
                old(self)@,
                final(self)@,
                vstd::layout::size_of::<T>(),
                1,
                1,
                false,
            ),
    {
        self.0.attributes = true;
        self.add(count, 1, 1, false)
    }

    /// Adds `count` uniform structs; each one starts at a multiple of the uniform alignment.
    pub fn add_uniforms<T: DescriptorStructReprC>(&mut self, count: u32) -> (r: BufferView<T>)
        requires
            old(self)@.wf(),
            old(self)@.fits(vstd::layout::size_of::<T>(), count as nat, old(self)@.uniform_align as nat, old(self)@.uniform_align as nat, false),
        ensures
            r@ == old(self)@.region(vstd::layout::size_of::<T>(), count as nat, old(self)@.uniform_align as nat, old(self)@.uniform_align as nat, false),
            final(self)@ == (LayoutModel { uniforms: true, ..old(self)@.after_region(vstd::layout::size_of::<T>(), count as nat, old(self)@.uniform_align as nat, old(self)@.uniform_align as nat, false) }),
            old(self)@.precedes(final(self)@),
            placed(
                r@,
                old(self)@,
                final(self)@,
                vstd::layout::size_of::<T>(),
                old(self)@.uniform_align as nat,
                old(self)@.uniform_align as nat,
                false,
            ),
    {
        self.0.uniforms = true;
        self.add(count, self.0.uniform_align, self.0.uniform_align, false)
    }

    /// Adds `count` vertex indices that shaders may also access as storage.
    pub fn add_indices_storage<T: IndexType + StorageStructReprC>(&mut self, count: u32) -> (r: BufferView<T>)
        requires
            old(self)@.wf(),
            vstd::layout::size_of::<T>() > 0,
            old(self)@.fits(vstd::layout::size_of::<T>(), count as nat, vstd::layout::size_of::<T>(), 1, true),
        ensures
            r@ == old(self)@.region(vstd::layout::size_of::<T>(), count as nat, vstd::layout::size_of::<T>(), 1, true),
            final(self)@ == (LayoutModel { indices: true, ..old(self)@.after_region(vstd::layout::size_of::<T>(), count as nat, vstd::layout::size_of::<T>(), 1, true) }),
            old(self)@.precedes(final(self)@),
            placed(
                r@,
                old(self)@,
                final(self)@,
                vstd::layout::size_of::<T>(),
                vstd::layout::size_of::<T>(),
                1,
                true,
            ),
    {
        self.0.indices = true;
        self.add(count, core::mem::size_of::<T>() as u64, 1, true)
    }

    /// Adds `count` attribute groups that shaders may also access as storage.
    pub fn add_attributes_storage<T: AttributeGroupReprCpacked + StorageStructReprC>(&mut self, count: u32) -> (r: BufferView<T>)
        requires
            old(self)@.wf(),
            old(self)@.fits(vstd::layout::size_of::<T>(), count as nat, 1, 1, true),
        ensures
            r@ == old(self)@.region(vstd::layout::size_of::<T>(), count as nat, 1, 1, true),
            final(self)@ == (LayoutModel { attributes: true, ..old(self)@.after_region(vstd::layout::size_of::<T>(), count as nat, 1, 1, true) }),
            old(self)@.precedes(final(self)@),
            placed(
                r@,
                old(self)@,
                final(self)@,
                vstd::layout::size_of::<T>(),
                1,
                1,
                true,
            ),
    {
        self.0.attributes = true;
        self.add(count, 1, 1, true)
    }

    /// Adds `count` uniform structs that shaders may also access as storage.
    pub fn add_uniforms_storage<T: DescriptorStructReprC + StorageStructReprC>(&mut self, count: u32) -> (r: BufferView<T>)
        requires
            old(self)@.wf(),
            old(self)@.fits(vstd::layout::size_of::<T>(), count as nat, old(self)@.uniform_align as nat, old(self)@.uniform_align as nat, true),
        ensures
            r@ == old(self)@.region(vstd::layout::size_of::<T>(), count as nat, old(self)@.uniform_align as nat, old(self)@.uniform_align as nat, true),
            final(self)@ == (LayoutModel { uniforms: true, ..old(self)@.after_region(vstd::layout::size_of::<T>(), count as nat, old(self)@.uniform_align as nat, old(self)@.uniform_align as nat, true) }),
            old(self)@.precedes(final(self)@),
            placed(
                r@,
                old(self)@,
                final(self)@,
                vstd::layout::size_of::<T>(),
                old(self)@.uniform_align as nat,
                old(self)@.uniform_align as nat,
                true,
            ),
    {
        self.0.uniforms = true;
        self.add(count, self.0.uniform_align, self.0.uniform_align, true)
    }

    /// Adds `count` storage structs.
    pub fn add_storage<T: StorageStructReprC>(&mut self, count: u32) -> (r: BufferView<T>)
        requires
            old(self)@.wf(),
            old(self)@.fits(vstd::layout::size_of::<T>(), count as nat, 1, 1, true),
        ensures
            r@ == old(self)@.region(vstd::layout::size_of::<T>(), count as nat, 1, 1, true),
            final(self)@ == (old(self)@.after_region(vstd::layout::size_of::<T>(), count as nat, 1, 1, true)),
            old(self)@.precedes(final(self)@),
            placed(
                r@,
                old(self)@,
                final(self)@,
                vstd::layout::size_of::<T>(),
                1,
                1,
                true,
            ),
    {
        self.add(count, 1, 1, true)
    }

    /// Ends construction: the layout can no longer grow.
    pub fn build(self) -> (r: BufferType)
        ensures
            r@ == self@,
    {
        self.0
    }

    fn add<T>(&mut self, count: u32, offset_align: u64, stride_align: u64, storage: bool) -> (r:
        BufferView<T>)
        requires
            old(self)@.wf(),
            offset_align > 0,
            stride_align > 0,
            old(self)@.fits(
                vstd::layout::size_of::<T>(),
                count as nat,
                offset_align as nat,
                stride_align as nat,
                storage,
            ),
        ensures
            r@ == old(self)@.region(
                vstd::layout::size_of::<T>(),
                count as nat,
                offset_align as nat,
                stride_align as nat,
                storage,
            ),
            final(self)@ == old(self)@.after_region(
                vstd::layout::size_of::<T>(),
                count as nat,
                offset_align as nat,
                stride_align as nat,
                storage,
            ),
            old(self)@.precedes(final(self)@),
            placed(
                r@,
                old(self)@,
                final(self)@,
                vstd::layout::size_of::<T>(),
                offset_align as nat,
                stride_align as nat,
                storage,
            ),
    {
        let ghost start = self@;
        let mut align = offset_align;
        if storage {
            self.0.storage = true;
            align = kgv(offset_align, self.0.storage_align);
            proof {
                lemma_lcm_multiple(offset_align as nat, self.0.storage_align as nat);
            }
        }
        assert(align == start.effective_align(offset_align as nat, storage));
        proof {
            lemma_align_up(start.cursor as nat, align as nat);
        }
        let offset_overflow = self.0.offset_in_bytes % align;
        if offset_overflow != 0 {
            self.0.offset_in_bytes = self.0.offset_in_bytes + (align - offset_overflow);
        }
        let begin_offset_in_bytes = self.0.offset_in_bytes;
        let size = core::mem::size_of::<T>() as u64;
        proof {
            lemma_align_up(size as nat, stride_align as nat);
        }
        let blocks = size / stride_align + if size % stride_align == 0 {
            0
        } else {
            1
        };
        let stride = blocks * stride_align;
        assert(count * stride <= u64::MAX - begin_offset_in_bytes);
        self.0.offset_in_bytes = begin_offset_in_bytes + count as u64 * stride;
        proof {
            lemma_region_placement(
                start,
                size as nat,
                count as nat,
                offset_align as nat,
                stride_align as nat,
                storage,
            );
        }
        BufferView {
            layout_id: self.0.id,
            offset_in_bytes: begin_offset_in_bytes,
            count,
            stride: stride as u32,
            phantom: PhantomData,
        }
    }
}


/// Every region starts at a multiple of its effective alignment; for a storage region that
/// is the least common multiple of the requested alignment and the device's storage
/// alignment, so the start is a multiple of both. Its stride is a multiple of the stride
/// alignment and no smaller than the element.
pub proof fn lemma_region_placement(
    layout: LayoutModel,
    size: nat,
    count: nat,
    offset_align: nat,
    stride_align: nat,
    storage: bool,
)
    requires
        layout.wf(),
        offset_align > 0,
        stride_align > 0,
        layout.fits(size, count, offset_align, stride_align, storage),
    ensures
        ({
            let r = layout.region(size, count, offset_align, stride_align, storage);
            &&& (r.offset as nat) % layout.effective_align(offset_align, storage) == 0
            &&& (r.offset as nat) % offset_align == 0
            &&& storage ==> (r.offset as nat) % lcm(offset_align, layout.storage_align as nat) == 0
            &&& storage ==> (r.offset as nat) % (layout.storage_align as nat) == 0
            &&& (r.stride as nat) % stride_align == 0
            &&& r.stride >= size
            &&& r.offset >= layout.cursor
        }),
{
    let eff = layout.effective_align(offset_align, storage);
    if storage {
        lemma_lcm_multiple(offset_align, layout.storage_align as nat);
    }
    lemma_align_up(layout.cursor as nat, eff);
    lemma_align_up(size, stride_align);
    if storage {
        lemma_lcm_aligned(
            layout.region_offset(offset_align, storage),
            offset_align,
            layout.storage_align as nat,
        );
    }
}

/// A region added before another one of the same layout ends no later than where the
/// other one begins.
pub proof fn lemma_regions_disjoint(
    first_layout: LayoutModel,
    first: (nat, nat, nat, nat, bool),
    second_layout: LayoutModel,
    second: (nat, nat, nat, nat, bool),
)
    requires
        first_layout.wf(),
        first.2 > 0,
        first.3 > 0,
        first_layout.fits(first.0, first.1, first.2, first.3, first.4),
        first_layout.after_region(first.0, first.1, first.2, first.3, first.4).precedes(
            second_layout,
        ),
        second.2 > 0,
        second.3 > 0,
        second_layout.fits(second.0, second.1, second.2, second.3, second.4),
    ensures
        first_layout.region(first.0, first.1, first.2, first.3, first.4).end()
            <= second_layout.region(second.0, second.1, second.2, second.3, second.4).offset,
        first_layout.region(first.0, first.1, first.2, first.3, first.4).layout_id
            == second_layout.region(second.0, second.1, second.2, second.3, second.4).layout_id,
{
    let eff = second_layout.effective_align(second.2, second.4);
    if second.4 {
        lemma_lcm_multiple(second.2, second_layout.storage_align as nat);
    }
    lemma_align_up(second_layout.cursor as nat, eff);
    let eff1 = first_layout.effective_align(first.2, first.4);
    if first.4 {
        lemma_lcm_multiple(first.2, first_layout.storage_align as nat);
    }
    lemma_align_up(first_layout.cursor as nat, eff1);
    lemma_align_up(first.0, first.3);
    let a = first_layout.region(first.0, first.1, first.2, first.3, first.4);
    assert(a.count == first.1);
    assert(a.stride == align_up(first.0, first.3));
    assert(a.offset == first_layout.region_offset(first.2, first.4));
}


/// How a buffer's memory is used.
#[derive(Clone, Copy, Debug, PartialEq, Eq, Structural)]
pub enum BufferUsage {
    /// Host-visible; only the source of transfers.
    Stage,
    /// Host-visible and usable by the device.
    Dynamic,
    /// Device-local; filled by transfers.
    Static,
}

/// Where the allocator places a buffer's memory.
#[derive(Clone, Copy, Debug, PartialEq, Eq, Structural)]
pub enum MemoryLocation {
    CpuToGpu,
    GpuOnly,
}

/// The usages that a native buffer is created with.
#[derive(Clone, Copy, Debug, PartialEq, Eq, Structural)]
pub struct BufferUsageFlags {
    pub transfer_src: bool,
    pub transfer_dst: bool,
    pub index_buffer: bool,
    pub vertex_buffer: bool,
    pub uniform_buffer: bool,
    pub storage_buffer: bool,
}

/// What the allocator is asked for to back a layout, and which layout the buffer follows.
#[derive(Clone, Copy, Debug, PartialEq, Eq, Structural)]
pub struct BufferInfo {
    pub layout_id: u32,
    pub size_in_bytes: u64,
    pub usage: BufferUsage,
    pub flags: BufferUsageFlags,
    pub location: MemoryLocation,
}

/// A misuse of a buffer or of a view into it.
#[derive(Clone, Copy, Debug, PartialEq, Eq, Structural)]
pub enum BufferError {
    /// The view belongs to another layout than the buffer.
    IncompatibleView,
    /// More elements than the view holds past the given offset.
    TooMuchData,
    /// A device-local buffer cannot be mapped.
    NotMappable,
    /// The source of a copy is not a stage buffer.
    SourceNotStage,
    /// The destination of a copy is not a static buffer.
    DestinationNotStatic,
    /// The two buffers of a copy follow different layouts.
    LayoutMismatch,
    /// The two views of a copy hold different numbers of elements.
    CountMismatch,
}

/// Bytes to copy between two buffers.
#[derive(Clone, Copy, Debug, PartialEq, Eq, Structural)]
pub struct CopyRegion {
    pub src_offset: u64,
    pub dst_offset: u64,
    pub size: u64,
}

/// How the destination of a copied view is read afterwards.
#[derive(Clone, Copy, Debug, PartialEq, Eq, Structural)]
pub enum CopyViewUsage {
    Uniform,
}

/// The buffer usages that a layout with these region kinds needs.
pub open spec fn usage_flags_of(layout: LayoutModel, usage: BufferUsage) -> BufferUsageFlags {
    let device = usage != BufferUsage::Stage;
    BufferUsageFlags {
        transfer_src: usage == BufferUsage::Stage,
        transfer_dst: usage == BufferUsage::Static,
        index_buffer: device && layout.indices,
        vertex_buffer: device && layout.attributes,
        uniform_buffer: device && layout.uniforms,
        storage_buffer: device && layout.storage,
    }
}

pub open spec fn location_of(usage: BufferUsage) -> MemoryLocation {
    match usage {
        BufferUsage::Static => MemoryLocation::GpuOnly,
        _ => MemoryLocation::CpuToGpu,
    }
}

impl BufferType {
    pub fn id(&self) -> (r: u32)
        ensures
            r == self@.id,
    {
        self.id
    }

    pub fn size_in_bytes(&self) -> (r: u64)
        ensures
            r == self@.cursor,
    {
        self.offset_in_bytes
    }

    /// The allocation request for a buffer of this layout with the given usage.
    pub fn buffer_info(&self, usage: BufferUsage) -> (r: BufferInfo)
        requires
            self@.cursor > 0,
        ensures
            r == (BufferInfo {
                layout_id: self@.id,
                size_in_bytes: self@.cursor,
                usage,
                flags: usage_flags_of(self@, usage),
                location: location_of(usage),
            }),
    {
        let device = usage != BufferUsage::Stage;
        let flags = BufferUsageFlags {
            transfer_src: usage == BufferUsage::Stage,
            transfer_dst: usage == BufferUsage::Static,
            index_buffer: device && self.indices,
            vertex_buffer: device && self.attributes,
            uniform_buffer: device && self.uniforms,
            storage_buffer: device && self.storage,
        };
        let location = match usage {
            BufferUsage::Static => MemoryLocation::GpuOnly,
            _ => MemoryLocation::CpuToGpu,
        };
        BufferInfo { layout_id: self.id, size_in_bytes: self.offset_in_bytes, usage, flags, location }
    }
}

impl BufferInfo {
    /// A buffer may be mapped into host memory unless it is device-local.
    pub fn check_map(&self) -> (r: Result<(), BufferError>)
        ensures
            r == (if self.usage == BufferUsage::Static {
                Err(BufferError::NotMappable)
            } else {
                Ok(())
            }),
    {
        if self.usage == BufferUsage::Static {
            Err(BufferError::NotMappable)
        } else {
            Ok(())
        }
    }

    /// The byte offset of a view within this buffer, if the view belongs to its layout.
    pub fn view_offset<T>(&self, view: &BufferView<T>) -> (r: Result<u64, BufferError>)
        ensures
            r == (if view@.layout_id != self.layout_id {
                Err(BufferError::IncompatibleView)
            } else {
                Ok(view@.offset)
            }),
    {
        if view.layout_id != self.layout_id {
            Err(BufferError::IncompatibleView)
        } else {
            Ok(view.offset_in_bytes)
        }
    }

    /// Where in this buffer element `offset` of a view lies, for a write of `count`
    /// elements from there on.
    pub fn write_offset<T>(&self, view: &BufferView<T>, offset: u64, count: u64) -> (r: Result<
        u64,
        BufferError,
    >)
        ensures
            view@.layout_id != self.layout_id ==> r == Err::<u64, BufferError>(
                BufferError::IncompatibleView,
            ),
            view@.layout_id == self.layout_id && offset + count > view@.count ==> r == Err::<
                u64,
                BufferError,
            >(BufferError::TooMuchData),
            view@.layout_id == self.layout_id && offset + count <= view@.count ==> r == Ok::<
                u64,
                BufferError,
            >((view@.offset + offset * view@.stride) as u64),
            r is Ok ==> r->Ok_0 + count * view@.stride <= view@.end(),
    {
        proof {
            use_type_invariant(view);
        }
        if view.layout_id != self.layout_id {
            return Err(BufferError::IncompatibleView);
        }
        if offset > view.count as u64 || count > view.count as u64 - offset {
            return Err(BufferError::TooMuchData);
        }
        assert(offset * view.stride + count * view.stride <= view.count * view.stride) by (
        nonlinear_arith)
            requires
                offset + count <= view.count,
        ;
        assert(offset * view.stride <= view.count * view.stride) by (nonlinear_arith)
            requires
                offset <= view.count,
        ;
        Ok(view.offset_in_bytes + offset * view.stride as u64)
    }

    /// The whole of a stage buffer copied into a static buffer of the same layout.
    pub fn check_copy(src: &BufferInfo, dst: &BufferInfo) -> (r: Result<u64, BufferError>)
        ensures
            r == (if src.usage != BufferUsage::Stage {
                Err(BufferError::SourceNotStage)
            } else if dst.usage != BufferUsage::Static {
                Err(BufferError::DestinationNotStatic)
            } else if src.layout_id != dst.layout_id {
                Err(BufferError::LayoutMismatch)
            } else {
                Ok(src.size_in_bytes)
            }),
    {
        if src.usage != BufferUsage::Stage {
            Err(BufferError::SourceNotStage)
        } else if dst.usage != BufferUsage::Static {
            Err(BufferError::DestinationNotStatic)
        } else if src.layout_id != dst.layout_id {
            Err(BufferError::LayoutMismatch)
        } else {
            Ok(src.size_in_bytes)
        }
    }

    /// The bytes of a view of a stage buffer copied into the matching view of a static
    /// buffer. The copy spans the whole region, `count * stride` bytes, padding between
    /// elements included: where the stride exceeds the element (uniform arrays), copying
    /// only `count * size_of::<T>()` bytes from the region's start would leave the last
    /// elements behind.
    pub fn copy_view_region<T>(
        src: &BufferInfo,
        src_view: &BufferView<T>,
        dst: &BufferInfo,
        dst_view: &BufferView<T>,
    ) -> (r: Result<CopyRegion, BufferError>)
        ensures
            r == (if src.usage != BufferUsage::Stage {
                Err(BufferError::SourceNotStage)
            } else if dst.usage != BufferUsage::Static {
                Err(BufferError::DestinationNotStatic)
            } else if src_view@.layout_id != src.layout_id || dst_view@.layout_id
                != dst.layout_id {
                Err(BufferError::IncompatibleView)
            } else if src_view@.count != dst_view@.count {
                Err(BufferError::CountMismatch)
            } else {
                Ok(
                    CopyRegion {
                        src_offset: src_view@.offset,
                        dst_offset: dst_view@.offset,
                        size: (src_view@.count * src_view@.stride) as u64,
                    },
                )
            }),
    {
        proof {
            use_type_invariant(src_view);
        }
        if src.usage != BufferUsage::Stage {
            Err(BufferError::SourceNotStage)
        } else if dst.usage != BufferUsage::Static {
            Err(BufferError::DestinationNotStatic)
        } else if src_view.layout_id != src.layout_id || dst_view.layout_id != dst.layout_id {
            Err(BufferError::IncompatibleView)
        } else if src_view.count != dst_view.count {
            Err(BufferError::CountMismatch)
        } else {
            Ok(
                CopyRegion {
                    src_offset: src_view.offset_in_bytes,
                    dst_offset: dst_view.offset_in_bytes,
                    size: src_view.count as u64 * src_view.stride as u64,
                },
            )
        }
    }
}

} // verus!
