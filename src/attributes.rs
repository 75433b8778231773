use vstd::prelude::*;

verus! {

/// An integer type that can serve as the index of a vertex.
pub trait IndexType {
    fn index_format() -> IndexFormat;
}

/// The width of a vertex index.
#[derive(Clone, Copy, Debug, PartialEq, Eq, Structural)]
pub enum IndexFormat {
    Uint16,
    Uint32,
}

impl IndexType for u16 {
    fn index_format() -> IndexFormat {
        IndexFormat::Uint16
    }
}

impl IndexType for u32 {
    fn index_format() -> IndexFormat {
        IndexFormat::Uint32
    }
}

/// Whether a group of attributes advances per vertex or per instance.
#[derive(Clone, Copy, Debug, PartialEq, Eq, Structural)]
pub enum InputRate {
    Vertex,
    Instance,
}

/// The shader location that an attribute is bound to.
#[derive(Clone, Copy, Debug, PartialEq, Eq, Structural)]
pub struct AttributeLocation(pub u32);

/// The scalar kind and width of one vertex attribute.
#[derive(Clone, Copy, Debug, PartialEq, Eq, Structural)]
pub enum AttributeType {
    F1,
    F2,
    F3,
    F4,
    I1,
    I2,
    I3,
    I4,
    U1,
    U2,
    U3,
    U4,
}

/// A packed struct of vertex or instance attributes, with its table of
/// (location, type) pairs in field order.
pub trait AttributeGroupReprCpacked {
    /// The rate at which the group advances.
    spec fn group_rate() -> InputRate;

    /// The group's (location, type) pairs, in field order.
    spec fn group_attributes() -> &'static [(AttributeLocation, AttributeType)];

    fn rate() -> (r: InputRate)
        ensures
            r == Self::group_rate(),
    ;

    fn attributes() -> (r: &'static [(AttributeLocation, AttributeType)])
        ensures
            r@ == Self::group_attributes()@,
    ;
}

/// A struct with C layout that a storage region may hold.
pub trait StorageStructReprC {

}

/// A struct with C layout that a uniform region may hold.
pub trait DescriptorStructReprC: Copy {

}


pub open spec fn attribute_size(t: AttributeType) -> nat {
    match t {
        AttributeType::F1 | AttributeType::I1 | AttributeType::U1 => 4,
        AttributeType::F2 | AttributeType::I2 | AttributeType::U2 => 8,
        AttributeType::F3 | AttributeType::I3 | AttributeType::U3 => 12,
        AttributeType::F4 | AttributeType::I4 | AttributeType::U4 => 16,
    }
}

impl AttributeType {
    /// Bytes that one attribute of this type takes in a packed group.
    pub fn size_in_bytes(&self) -> (r: u32)
        ensures
            r == attribute_size(*self),
    {
        match self {
            AttributeType::F1 | AttributeType::I1 | AttributeType::U1 => 4,
            AttributeType::F2 | AttributeType::I2 | AttributeType::U2 => 8,
            AttributeType::F3 | AttributeType::I3 | AttributeType::U3 => 12,
            AttributeType::F4 | AttributeType::I4 | AttributeType::U4 => 16,
        }
    }
}

/// The attribute table of one group type, as a pipeline's vertex input reads it.
#[derive(Clone, Copy, Debug)]
pub struct AttributeGroupInfo {
    pub rate: InputRate,
    pub attributes: &'static [(AttributeLocation, AttributeType)],
}

/// Sum of the sizes of the first `n` attributes: where attribute `n` starts in a packed
/// group.
pub open spec fn packed_offset(attributes: Seq<(AttributeLocation, AttributeType)>, n: int) -> nat
    decreases n,
{
    if n <= 0 {
        0
    } else {
        packed_offset(attributes, n - 1) + attribute_size(attributes[n - 1].1)
    }
}

proof fn lemma_packed_offset_bound(attributes: Seq<(AttributeLocation, AttributeType)>, n: int)
    requires
        0 <= n,
    ensures
        packed_offset(attributes, n) <= 16 * n,
    decreases n,
{
    if n > 0 {
        lemma_packed_offset_bound(attributes, n - 1);
    }
}

impl AttributeGroupInfo {
    /// The table of attribute group type `T`.
    pub fn from<T: AttributeGroupReprCpacked>() -> (r: AttributeGroupInfo)
        ensures
            r.rate == T::group_rate(),
            r.attributes@ == T::group_attributes()@,
    {
        AttributeGroupInfo { rate: T::rate(), attributes: T::attributes() }
    }

    /// Bytes from one group to the next: the sum of its attributes' sizes.
    pub fn stride(&self) -> (r: u32)
        requires
            self.attributes@.len() <= u32::MAX / 16,
        ensures
            r == packed_offset(self.attributes@, self.attributes@.len() as int),
    {
        let mut offset: u32 = 0;
        let mut k: usize = 0;
        while k < self.attributes.len()
            invariant
                k <= self.attributes@.len() <= u32::MAX / 16,
                offset == packed_offset(self.attributes@, k as int),
            decreases self.attributes@.len() - k,
        {
            proof {
                lemma_packed_offset_bound(self.attributes@, k as int + 1);
            }
            offset = offset + self.attributes[k].1.size_in_bytes();
            k += 1;
        }
        offset
    }
}

/// One attribute of a pipeline's vertex input.
#[derive(Clone, Copy, Debug, PartialEq, Eq, Structural)]
pub struct VertexAttribute {
    pub binding: u32,
    pub location: u32,
    pub offset: u32,
    pub format: AttributeType,
}

/// One vertex buffer binding of a pipeline's vertex input.
#[derive(Clone, Copy, Debug, PartialEq, Eq, Structural)]
pub struct VertexBinding {
    pub binding: u32,
    pub stride: u32,
    pub rate: InputRate,
}

/// Group `g` is bound at binding `g`; its attributes lie packed one after another.
pub open spec fn vertex_attributes_of(g: u32, group: AttributeGroupInfo) -> Seq<VertexAttribute> {
    Seq::new(
        group.attributes@.len(),
        |k: int|
            VertexAttribute {
                binding: g,
                location: group.attributes@[k].0.0,
                offset: packed_offset(group.attributes@, k) as u32,
                format: group.attributes@[k].1,
            },
    )
}

/// The bindings and attributes of a vertex input made of these groups, in order.
pub fn vertex_input(groups: &[AttributeGroupInfo]) -> (r: (Vec<VertexBinding>, Vec<VertexAttribute>))
    requires
        groups@.len() <= u32::MAX,
        forall|g: int| 0 <= g < groups@.len() ==> #[trigger] groups@[g].attributes@.len() <= u32::MAX / 16,
    ensures
        r.0@.len() == groups@.len(),
        forall|g: int|
            0 <= g < groups@.len() ==> #[trigger] r.0@[g] == (VertexBinding {
                binding: g as u32,
                stride: packed_offset(groups@[g].attributes@, groups@[g].attributes@.len() as int) as u32,
                rate: groups@[g].rate,
            }),
        r.1@ == Seq::new(groups@.len(), |g: int| vertex_attributes_of(g as u32, groups@[g])).flatten(),
{
    let mut bindings: Vec<VertexBinding> = Vec::new();
    let mut attributes: Vec<VertexAttribute> = Vec::new();
    let mut g: usize = 0;
    let ghost all = Seq::new(groups@.len(), |g: int| vertex_attributes_of(g as u32, groups@[g]));
    while g < groups.len()
        invariant
            g <= groups@.len() <= u32::MAX,
            forall|j: int| 0 <= j < groups@.len() ==> #[trigger] groups@[j].attributes@.len() <= u32::MAX / 16,
            all == Seq::new(groups@.len(), |g: int| vertex_attributes_of(g as u32, groups@[g])),
            bindings@.len() == g,
            forall|j: int|
                0 <= j < g ==> #[trigger] bindings@[j] == (VertexBinding {
                    binding: j as u32,
                    stride: packed_offset(groups@[j].attributes@, groups@[j].attributes@.len() as int) as u32,
                    rate: groups@[j].rate,
                }),
            attributes@ == all.take(g as int).flatten(),
        decreases groups@.len() - g,
    {
        let group = &groups[g];
        let ghost before = attributes@;
        let mut offset: u32 = 0;
        let mut k: usize = 0;
        while k < group.attributes.len()
            invariant
                k <= group.attributes@.len() <= u32::MAX / 16,
                *group == groups@[g as int],
                g < groups@.len() <= u32::MAX,
                offset == packed_offset(group.attributes@, k as int),
                attributes@ == before + vertex_attributes_of(g as u32, *group).take(k as int),
            decreases group.attributes@.len() - k,
        {
            proof {
                lemma_packed_offset_bound(group.attributes@, k as int + 1);
                lemma_packed_offset_bound(group.attributes@, k as int);
            }
            let (location, format) = group.attributes[k];
            attributes.push(VertexAttribute { binding: g as u32, location: location.0, offset, format });
            offset = offset + format.size_in_bytes();
            k += 1;
            assert(attributes@ =~= before + vertex_attributes_of(g as u32, *group).take(k as int));
        }
        bindings.push(VertexBinding { binding: g as u32, stride: offset, rate: group.rate });
        proof {
            assert(vertex_attributes_of(g as u32, *group).take(k as int) =~= vertex_attributes_of(g as u32, *group));
            assert(all.take(g as int + 1).drop_last() =~= all.take(g as int));
            all.take(g as int).lemma_flatten_push(all[g as int]);
            assert(all.take(g as int).push(all[g as int]) =~= all.take(g as int + 1));
        }
        g += 1;
    }
    proof {
        assert(all.take(groups@.len() as int) =~= all);
    }
    (bindings, attributes)
}


/// 1 `i32` component of a vertex attribute, packed.
#[derive(Clone, Copy, Debug, PartialEq, Eq, Structural)]
pub struct I1(pub i32);

impl I1 {
    pub const TYPE: AttributeType = AttributeType::I1;
}

impl From<i32> for I1 {
    fn from(x: i32) -> (r: I1) {
        I1(x)
    }
}

impl vstd::std_specs::convert::FromSpecImpl<i32> for I1 {
    open spec fn obeys_from_spec() -> bool {
        true
    }

    open spec fn from_spec(x: i32) -> I1 {
        I1(x)
    }
}

impl From<I1> for i32 {
    fn from(v: I1) -> (r: i32) {
        v.0
    }
}

impl vstd::std_specs::convert::FromSpecImpl<I1> for i32 {
    open spec fn obeys_from_spec() -> bool {
        true
    }

    open spec fn from_spec(v: I1) -> i32 {
        v.0
    }
}

/// 2 `i32` components of a vertex attribute, packed.
#[derive(Clone, Copy, Debug, PartialEq, Eq, Structural)]
pub struct I2(pub i32, pub i32);

impl I2 {
    pub const TYPE: AttributeType = AttributeType::I2;
}

impl From<(i32, i32)> for I2 {
    fn from(x: (i32, i32)) -> (r: I2) {
        I2(x.0, x.1)
    }
}

impl vstd::std_specs::convert::FromSpecImpl<(i32, i32)> for I2 {
    open spec fn obeys_from_spec() -> bool {
        true
    }

    open spec fn from_spec(x: (i32, i32)) -> I2 {
        I2(x.0, x.1)
    }
}

impl From<I2> for (i32, i32) {
    fn from(v: I2) -> (r: (i32, i32)) {
        (v.0, v.1)
    }
}

impl vstd::std_specs::convert::FromSpecImpl<I2> for (i32, i32) {
    open spec fn obeys_from_spec() -> bool {
        true
    }

    open spec fn from_spec(v: I2) -> (i32, i32) {
        (v.0, v.1)
    }
}

/// 3 `i32` components of a vertex attribute, packed.
#[derive(Clone, Copy, Debug, PartialEq, Eq, Structural)]
pub struct I3(pub i32, pub i32, pub i32);

impl I3 {
    pub const TYPE: AttributeType = AttributeType::I3;
}

impl From<(i32, i32, i32)> for I3 {
    fn from(x: (i32, i32, i32)) -> (r: I3) {
        I3(x.0, x.1, x.2)
    }
}

impl vstd::std_specs::convert::FromSpecImpl<(i32, i32, i32)> for I3 {
    open spec fn obeys_from_spec() -> bool {
        true
    }

    open spec fn from_spec(x: (i32, i32, i32)) -> I3 {
        I3(x.0, x.1, x.2)
    }
}

impl From<I3> for (i32, i32, i32) {
    fn from(v: I3) -> (r: (i32, i32, i32)) {
        (v.0, v.1, v.2)
    }
}

impl vstd::std_specs::convert::FromSpecImpl<I3> for (i32, i32, i32) {
    open spec fn obeys_from_spec() -> bool {
        true
    }

    open spec fn from_spec(v: I3) -> (i32, i32, i32) {
        (v.0, v.1, v.2)
    }
}

/// 4 `i32` components of a vertex attribute, packed.
#[derive(Clone, Copy, Debug, PartialEq, Eq, Structural)]
pub struct I4(pub i32, pub i32, pub i32, pub i32);

impl I4 {
    pub const TYPE: AttributeType = AttributeType::I4;
}

impl From<(i32, i32, i32, i32)> for I4 {
    fn from(x: (i32, i32, i32, i32)) -> (r: I4) {
        I4(x.0, x.1, x.2, x.3)
    }
}

impl vstd::std_specs::convert::FromSpecImpl<(i32, i32, i32, i32)> for I4 {
    open spec fn obeys_from_spec() -> bool {
        true
    }

    open spec fn from_spec(x: (i32, i32, i32, i32)) -> I4 {
        I4(x.0, x.1, x.2, x.3)
    }
}

impl From<I4> for (i32, i32, i32, i32) {
    fn from(v: I4) -> (r: (i32, i32, i32, i32)) {
        (v.0, v.1, v.2, v.3)
    }
}

impl vstd::std_specs::convert::FromSpecImpl<I4> for (i32, i32, i32, i32) {
    open spec fn obeys_from_spec() -> bool {
        true
    }

    open spec fn from_spec(v: I4) -> (i32, i32, i32, i32) {
        (v.0, v.1, v.2, v.3)
    }
}

/// 1 `u32` component of a vertex attribute, packed.
#[derive(Clone, Copy, Debug, PartialEq, Eq, Structural)]
pub struct U1(pub u32);

impl U1 {
    pub const TYPE: AttributeType = AttributeType::U1;
}

impl From<u32> for U1 {
    fn from(x: u32) -> (r: U1) {
        U1(x)
    }
}

impl vstd::std_specs::convert::FromSpecImpl<u32> for U1 {
    open spec fn obeys_from_spec() -> bool {
        true
    }

    open spec fn from_spec(x: u32) -> U1 {
        U1(x)
    }
}

impl From<U1> for u32 {
    fn from(v: U1) -> (r: u32) {
        v.0
    }
}

impl vstd::std_specs::convert::FromSpecImpl<U1> for u32 {
    open spec fn obeys_from_spec() -> bool {
        true
    }

    open spec fn from_spec(v: U1) -> u32 {
        v.0
    }
}

/// 2 `u32` components of a vertex attribute, packed.
#[derive(Clone, Copy, Debug, PartialEq, Eq, Structural)]
pub struct U2(pub u32, pub u32);

impl U2 {
    pub const TYPE: AttributeType = AttributeType::U2;
}

impl From<(u32, u32)> for U2 {
    fn from(x: (u32, u32)) -> (r: U2) {
        U2(x.0, x.1)
    }
}

impl vstd::std_specs::convert::FromSpecImpl<(u32, u32)> for U2 {
    open spec fn obeys_from_spec() -> bool {
        true
    }

    open spec fn from_spec(x: (u32, u32)) -> U2 {
        U2(x.0, x.1)
    }
}

impl From<U2> for (u32, u32) {
    fn from(v: U2) -> (r: (u32, u32)) {
        (v.0, v.1)
    }
}

impl vstd::std_specs::convert::FromSpecImpl<U2> for (u32, u32) {
    open spec fn obeys_from_spec() -> bool {
        true
    }

    open spec fn from_spec(v: U2) -> (u32, u32) {
        (v.0, v.1)
    }
}

/// 3 `u32` components of a vertex attribute, packed.
#[derive(Clone, Copy, Debug, PartialEq, Eq, Structural)]
pub struct U3(pub u32, pub u32, pub u32);

impl U3 {
    pub const TYPE: AttributeType = AttributeType::U3;
}

impl From<(u32, u32, u32)> for U3 {
    fn from(x: (u32, u32, u32)) -> (r: U3) {
        U3(x.0, x.1, x.2)
    }
}

impl vstd::std_specs::convert::FromSpecImpl<(u32, u32, u32)> for U3 {
    open spec fn obeys_from_spec() -> bool {
        true
    }

    open spec fn from_spec(x: (u32, u32, u32)) -> U3 {
        U3(x.0, x.1, x.2)
    }
}

impl From<U3> for (u32, u32, u32) {
    fn from(v: U3) -> (r: (u32, u32, u32)) {
        (v.0, v.1, v.2)
    }
}

impl vstd::std_specs::convert::FromSpecImpl<U3> for (u32, u32, u32) {
    open spec fn obeys_from_spec() -> bool {
        true
    }

    open spec fn from_spec(v: U3) -> (u32, u32, u32) {
        (v.0, v.1, v.2)
    }
}

/// 4 `u32` components of a vertex attribute, packed.
#[derive(Clone, Copy, Debug, PartialEq, Eq, Structural)]
pub struct U4(pub u32, pub u32, pub u32, pub u32);

impl U4 {
    pub const TYPE: AttributeType = AttributeType::U4;
}

impl From<(u32, u32, u32, u32)> for U4 {
    fn from(x: (u32, u32, u32, u32)) -> (r: U4) {
        U4(x.0, x.1, x.2, x.3)
    }
}

impl vstd::std_specs::convert::FromSpecImpl<(u32, u32, u32, u32)> for U4 {
    open spec fn obeys_from_spec() -> bool {
        true
    }

    open spec fn from_spec(x: (u32, u32, u32, u32)) -> U4 {
        U4(x.0, x.1, x.2, x.3)
    }
}

impl From<U4> for (u32, u32, u32, u32) {
    fn from(v: U4) -> (r: (u32, u32, u32, u32)) {
        (v.0, v.1, v.2, v.3)
    }
}

impl vstd::std_specs::convert::FromSpecImpl<U4> for (u32, u32, u32, u32) {
    open spec fn obeys_from_spec() -> bool {
        true
    }

    open spec fn from_spec(v: U4) -> (u32, u32, u32, u32) {
        (v.0, v.1, v.2, v.3)
    }
}

} // verus!
