use crate::id_map::{IdMap, IdMapKey};
use crate::texture::Texture2DHandle;
use crate::uniform::{
    fill_uniform_buffer, is_zero_uniform, to_uniform_value, uniform_def_of, uniform_size,
    value_fits, encodes, uniform_buffer, Uniform, UniformDef, UniformSizeMismatch,
};
use crate::uniform_layout::{
    calculate_uniform_offsets_and_total_size, is_layout_of, names_distinct, UniformLayout,
};
use crate::uniform_values::{value_named, UniformValues};
use vstd::prelude::*;

verus! {

/// Handle of a material registered with the renderer.
#[derive(Default, Debug, PartialEq, Eq, Structural, PartialOrd, Ord, Clone, Copy, Hash)]
pub struct MaterialHandle(pub u64);

impl IdMapKey for MaterialHandle {
    open spec fn key_id(&self) -> u64 {
        self.0
    }

    fn from(id: u64) -> (key: Self) {
        MaterialHandle(id)
    }

    fn to(&self) -> (id: u64) {
        self.0
    }
}

/// How a source or destination colour is weighted when blending (as the GPU API names it).
#[derive(Debug, Clone, Copy, PartialEq, Eq, Structural)]
pub enum BlendFactor {
    Zero,
    One,
    Src,
    OneMinusSrc,
    SrcAlpha,
    OneMinusSrcAlpha,
    Dst,
    OneMinusDst,
    DstAlpha,
    OneMinusDstAlpha,
    SrcAlphaSaturated,
    Constant,
    OneMinusConstant,
    Src1,
    OneMinusSrc1,
    Src1Alpha,
    OneMinusSrc1Alpha,
}

/// How the weighted source and destination are combined when blending.
#[derive(Debug, Clone, Copy, PartialEq, Eq, Structural)]
pub enum BlendOperation {
    Add,
    Subtract,
    ReverseSubtract,
    Min,
    Max,
}

/// The blending of one channel group (colour or alpha).
#[derive(Debug, Clone, Copy, PartialEq, Eq, Structural)]
pub struct BlendComponent {
    pub src_factor: BlendFactor,
    pub dst_factor: BlendFactor,
    pub operation: BlendOperation,
}

impl BlendComponent {
    /// Replaces the destination with the source: no blending.
    pub open spec fn replace() -> BlendComponent {
        BlendComponent {
            src_factor: BlendFactor::One,
            dst_factor: BlendFactor::Zero,
            operation: BlendOperation::Add,
        }
    }

    /// Premultiplied-alpha "source over destination".
    pub open spec fn over() -> BlendComponent {
        BlendComponent {
            src_factor: BlendFactor::One,
            dst_factor: BlendFactor::OneMinusSrcAlpha,
            operation: BlendOperation::Add,
        }
    }
}

/// Which colour channels a pipeline writes, as a bit set (red 1, green 2, blue 4, alpha 8).
#[derive(Debug, Clone, Copy, PartialEq, Eq, Structural)]
pub struct ColorWrites(pub u32);

/// A comparison of a new value against the stored one.
#[derive(Debug, Clone, Copy, PartialEq, Eq, Structural)]
pub enum CompareFunction {
    Never,
    Less,
    Equal,
    LessEqual,
    Greater,
    NotEqual,
    GreaterEqual,
    Always,
}

/// What the stencil test does to the stored stencil value.
#[derive(Debug, Clone, Copy, PartialEq, Eq, Structural)]
pub enum StencilOperation {
    Keep,
    Zero,
    Replace,
    Invert,
    IncrementClamp,
    DecrementClamp,
    IncrementWrap,
    DecrementWrap,
}

/// The stencil test and operations of one face.
#[derive(Debug, Clone, Copy, PartialEq, Eq, Structural)]
pub struct StencilFaceState {
    pub compare: CompareFunction,
    pub fail_op: StencilOperation,
    pub depth_fail_op: StencilOperation,
    pub pass_op: StencilOperation,
}

impl StencilFaceState {
    /// The face state that ignores the stencil: always passes and keeps the value.
    pub open spec fn ignore() -> StencilFaceState {
        StencilFaceState {
            compare: CompareFunction::Always,
            fail_op: StencilOperation::Keep,
            depth_fail_op: StencilOperation::Keep,
            pass_op: StencilOperation::Keep,
        }
    }
}

/// The stencil state of a pipeline.
#[derive(Debug, Clone, Copy, PartialEq, Eq, Structural)]
pub struct StencilState {
    pub front: StencilFaceState,
    pub back: StencilFaceState,
    pub read_mask: u32,
    pub write_mask: u32,
}

impl StencilState {
    /// Whether the stencil test does anything: a face does not ignore it and some mask
    /// bit is set.
    pub open spec fn spec_is_enabled(self) -> bool {
        (self.front != StencilFaceState::ignore() || self.back != StencilFaceState::ignore())
            && (self.read_mask != 0 || self.write_mask != 0)
    }

    /// Whether the stencil test does anything (`StencilState::is_enabled` of the GPU API).
    pub fn is_enabled(&self) -> (r: bool)
        ensures
            r == self.spec_is_enabled(),
    {
        let ignore = StencilFaceState {
            compare: CompareFunction::Always,
            fail_op: StencilOperation::Keep,
            depth_fail_op: StencilOperation::Keep,
            pass_op: StencilOperation::Keep,
        };
        (self.front != ignore || self.back != ignore) && (self.read_mask != 0
            || self.write_mask != 0)
    }
}

/// The depth bias of a pipeline; the two 32-bit floats are kept as their bit patterns.
#[derive(Debug, Clone, Copy, PartialEq, Eq, Structural)]
pub struct DepthBiasState {
    pub constant: i32,
    pub slope_scale_bits: u32,
    pub clamp_bits: u32,
}

/// The texture formats that a depth-stencil attachment can have.
#[derive(Debug, Clone, Copy, PartialEq, Eq, Structural)]
pub enum DepthFormat {
    Stencil8,
    Depth16Unorm,
    Depth24Plus,
    Depth24PlusStencil8,
    Depth32Float,
    Depth32FloatStencil8,
}

/// The depth and stencil state of a pipeline.
#[derive(Debug, Clone, Copy, PartialEq, Eq, Structural)]
pub struct DepthStencilState {
    pub format: DepthFormat,
    pub depth_write_enabled: Option<bool>,
    pub depth_compare: Option<CompareFunction>,
    pub stencil: StencilState,
    pub bias: DepthBiasState,
}

impl DepthStencilState {
    /// Whether the depth test or depth writes are on: the comparison (by default
    /// `Always`) is not `Always`, or writes (by default off) are on.
    pub open spec fn spec_is_depth_enabled(self) -> bool {
        (match self.depth_compare {
            Some(c) => c,
            None => CompareFunction::Always,
        }) != CompareFunction::Always || (match self.depth_write_enabled {
            Some(w) => w,
            None => false,
        })
    }

    /// Whether the depth test or depth writes are on (`DepthStencilState::is_depth_enabled`
    /// of the GPU API).
    pub fn is_depth_enabled(&self) -> (r: bool)
        ensures
            r == self.spec_is_depth_enabled(),
    {
        let compare = match self.depth_compare {
            Some(c) => c,
            None => CompareFunction::Always,
        };
        let write = match self.depth_write_enabled {
            Some(w) => w,
            None => false,
        };
        compare != CompareFunction::Always || write
    }
}

/// The primitives that a material draws.
#[derive(Debug, PartialEq, Eq, Structural, Clone, Copy)]
pub enum PrimitiveType {
    Triangles,
    Lines,
    Points,
}

/// How vertices are assembled into primitives.
#[derive(Debug, PartialEq, Eq, Structural, Clone, Copy)]
pub enum PrimitiveTopology {
    PointList,
    LineList,
    LineStrip,
    TriangleList,
    TriangleStrip,
}

/// How polygons are rasterised.
#[derive(Debug, PartialEq, Eq, Structural, Clone, Copy)]
pub enum PolygonMode {
    Fill,
    Line,
    Point,
}

/// Which faces are culled.
#[derive(Debug, PartialEq, Eq, Structural, Clone, Copy)]
pub enum Face {
    Front,
    Back,
}

/// The topology that a primitive type is drawn with.
pub open spec fn topology_of(p: PrimitiveType) -> PrimitiveTopology {
    match p {
        PrimitiveType::Triangles => PrimitiveTopology::TriangleList,
        PrimitiveType::Lines => PrimitiveTopology::LineList,
        PrimitiveType::Points => PrimitiveTopology::PointList,
    }
}

/// The polygon mode that a primitive type is drawn with.
pub open spec fn polygon_mode_of(p: PrimitiveType) -> PolygonMode {
    match p {
        PrimitiveType::Triangles => PolygonMode::Fill,
        PrimitiveType::Lines => PolygonMode::Fill,
        PrimitiveType::Points => PolygonMode::Point,
    }
}

impl From<PrimitiveType> for PrimitiveTopology {
    fn from(primitive_type: PrimitiveType) -> (t: PrimitiveTopology) {
        match primitive_type {
            PrimitiveType::Triangles => PrimitiveTopology::TriangleList,
            PrimitiveType::Lines => PrimitiveTopology::LineList,
            PrimitiveType::Points => PrimitiveTopology::PointList,
        }
    }
}

impl vstd::std_specs::convert::FromSpecImpl<PrimitiveType> for PrimitiveTopology {
    open spec fn obeys_from_spec() -> bool {
        true
    }

    open spec fn from_spec(p: PrimitiveType) -> PrimitiveTopology {
        topology_of(p)
    }
}

impl From<PrimitiveType> for PolygonMode {
    fn from(primitive_type: PrimitiveType) -> (m: PolygonMode) {
        match primitive_type {
            PrimitiveType::Triangles => PolygonMode::Fill,
            PrimitiveType::Lines => PolygonMode::Fill,
            PrimitiveType::Points => PolygonMode::Point,
        }
    }
}

impl vstd::std_specs::convert::FromSpecImpl<PrimitiveType> for PolygonMode {
    open spec fn obeys_from_spec() -> bool {
        true
    }

    open spec fn from_spec(p: PrimitiveType) -> PolygonMode {
        polygon_mode_of(p)
    }
}

/// How a material draws: blending, colour writes, depth-stencil state, primitive type and
/// face culling.
#[derive(Debug, PartialEq, Eq, Structural, Clone, Copy)]
pub struct MaterialDescriptor {
    pub color_blend: BlendComponent,
    pub alpha_blend: BlendComponent,
    pub color_write: ColorWrites,
    pub depth_stencil: DepthStencilState,
    pub primitive_type: PrimitiveType,
    pub cull_mode: Face,
}

/// The default material: straight-alpha colour blending, premultiplied "over" for alpha,
/// all channels written, a 32-bit float depth buffer tested with `Less` but not written, no
/// stencil, no depth bias, triangles, back faces culled.
pub open spec fn default_descriptor() -> MaterialDescriptor {
    MaterialDescriptor {
        color_blend: BlendComponent {
            src_factor: BlendFactor::SrcAlpha,
            dst_factor: BlendFactor::OneMinusSrcAlpha,
            operation: BlendOperation::Add,
        },
        alpha_blend: BlendComponent::over(),
        color_write: ColorWrites(15),
        depth_stencil: DepthStencilState {
            format: DepthFormat::Depth32Float,
            depth_write_enabled: Some(false),
            depth_compare: Some(CompareFunction::Less),
            stencil: StencilState {
                front: StencilFaceState::ignore(),
                back: StencilFaceState::ignore(),
                read_mask: 0,
                write_mask: 0,
            },
            bias: DepthBiasState { constant: 0, slope_scale_bits: 0, clamp_bits: 0 },
        },
        primitive_type: PrimitiveType::Triangles,
        cull_mode: Face::Back,
    }
}

/// Whether a blend component blends, i.e. is not "replace".
pub open spec fn spec_is_blending_active(c: BlendComponent) -> bool {
    c != BlendComponent::replace()
}

/// Whether a blend component blends, i.e. is not "replace".
pub fn is_blending_active(blend_component: &BlendComponent) -> (r: bool)
    ensures
        r == spec_is_blending_active(*blend_component),
{
    !(blend_component.src_factor == BlendFactor::One && blend_component.dst_factor
        == BlendFactor::Zero && blend_component.operation == BlendOperation::Add)
}

impl Default for MaterialDescriptor {
    fn default() -> (d: Self)
        ensures
            d == default_descriptor(),
    {
        MaterialDescriptor {
            color_blend: BlendComponent {
                src_factor: BlendFactor::SrcAlpha,
                dst_factor: BlendFactor::OneMinusSrcAlpha,
                operation: BlendOperation::Add,
            },
            alpha_blend: BlendComponent {
                src_factor: BlendFactor::One,
                dst_factor: BlendFactor::OneMinusSrcAlpha,
                operation: BlendOperation::Add,
            },
            color_write: ColorWrites(15),
            depth_stencil: DepthStencilState {
                format: DepthFormat::Depth32Float,
                depth_write_enabled: Some(false),
                depth_compare: Some(CompareFunction::Less),
                stencil: StencilState {
                    front: StencilFaceState {
                        compare: CompareFunction::Always,
                        fail_op: StencilOperation::Keep,
                        depth_fail_op: StencilOperation::Keep,
                        pass_op: StencilOperation::Keep,
                    },
                    back: StencilFaceState {
                        compare: CompareFunction::Always,
                        fail_op: StencilOperation::Keep,
                        depth_fail_op: StencilOperation::Keep,
                        pass_op: StencilOperation::Keep,
                    },
                    read_mask: 0,
                    write_mask: 0,
                },
                bias: DepthBiasState { constant: 0, slope_scale_bits: 0, clamp_bits: 0 },
            },
            primitive_type: PrimitiveType::Triangles,
            cull_mode: Face::Back,
        }
    }
}

impl MaterialDescriptor {
    /// Whether drawing with this material tests or writes depth.
    pub fn is_depth_enabled(&self) -> (r: bool)
        ensures
            r == self.depth_stencil.spec_is_depth_enabled(),
    {
        self.depth_stencil.is_depth_enabled()
    }

    /// Whether drawing with this material uses the stencil test.
    pub fn is_stencil_enabled(&self) -> (r: bool)
        ensures
            r == self.depth_stencil.stencil.spec_is_enabled(),
    {
        self.depth_stencil.stencil.is_enabled()
    }

    /// Whether the material must be drawn as transparent: its colour or alpha blending is
    /// active.
    pub open spec fn spec_is_transparent(self) -> bool {
        spec_is_blending_active(self.color_blend) || spec_is_blending_active(self.alpha_blend)
    }

    /// Whether the material must be drawn as transparent: its colour or alpha blending is
    /// active.
    pub fn should_render_as_transparent(&self) -> (r: bool)
        ensures
            r == self.spec_is_transparent(),
    {
        let color_blending = is_blending_active(&self.color_blend);
        let alpha_blending = is_blending_active(&self.alpha_blend);
        color_blending || alpha_blending
    }

    /// The default material, drawing triangles.
    pub fn triangle() -> (d: Self)
        ensures
            d == (MaterialDescriptor { primitive_type: PrimitiveType::Triangles, ..default_descriptor() }),
    {
        MaterialDescriptor { primitive_type: PrimitiveType::Triangles, ..Self::default() }
    }

    /// The default material, drawing lines.
    pub fn lines() -> (d: Self)
        ensures
            d == (MaterialDescriptor { primitive_type: PrimitiveType::Lines, ..default_descriptor() }),
    {
        MaterialDescriptor { primitive_type: PrimitiveType::Lines, ..Self::default() }
    }

    /// The default material, drawing points.
    pub fn points() -> (d: Self)
        ensures
            d == (MaterialDescriptor { primitive_type: PrimitiveType::Points, ..default_descriptor() }),
    {
        MaterialDescriptor { primitive_type: PrimitiveType::Points, ..Self::default() }
    }
}

/// The default material is drawn as transparent, tests depth and leaves the stencil off.
pub proof fn law_default_descriptor()
    ensures
        default_descriptor().spec_is_transparent(),
        default_descriptor().depth_stencil.spec_is_depth_enabled(),
        !default_descriptor().depth_stencil.stencil.spec_is_enabled(),
{
}

/// A material is drawn as transparent exactly when it blends: when its colour blend or
/// its alpha blend is anything but "source replaces destination" (source factor one,
/// destination factor zero, added). Either one alone makes it transparent.
pub proof fn law_transparent_iff_blending(d: MaterialDescriptor)
    ensures
        d.color_blend != (BlendComponent {
            src_factor: BlendFactor::One,
            dst_factor: BlendFactor::Zero,
            operation: BlendOperation::Add,
        }) ==> d.spec_is_transparent(),
        d.alpha_blend != (BlendComponent {
            src_factor: BlendFactor::One,
            dst_factor: BlendFactor::Zero,
            operation: BlendOperation::Add,
        }) ==> d.spec_is_transparent(),
        d.color_blend == (BlendComponent {
            src_factor: BlendFactor::One,
            dst_factor: BlendFactor::Zero,
            operation: BlendOperation::Add,
        }) && d.alpha_blend == (BlendComponent {
            src_factor: BlendFactor::One,
            dst_factor: BlendFactor::Zero,
            operation: BlendOperation::Add,
        }) ==> !d.spec_is_transparent(),
{
}

/// The stencil test is on exactly when some face does something (does not always pass
/// while keeping the stored value) and some mask bit is set: a write mask alone counts as
/// much as a read mask alone; with both masks zero, or both faces ignoring the stencil,
/// it is off.
pub proof fn law_stencil_enabled(s: StencilState)
    ensures
        ({
            let ignore = StencilFaceState {
                compare: CompareFunction::Always,
                fail_op: StencilOperation::Keep,
                depth_fail_op: StencilOperation::Keep,
                pass_op: StencilOperation::Keep,
            };
            &&& (s.front != ignore || s.back != ignore) && s.write_mask != 0 ==> s.spec_is_enabled()
            &&& (s.front != ignore || s.back != ignore) && s.read_mask != 0 ==> s.spec_is_enabled()
            &&& s.read_mask == 0 && s.write_mask == 0 ==> !s.spec_is_enabled()
            &&& s.front == ignore && s.back == ignore ==> !s.spec_is_enabled()
        }),
{
}

/// Why a uniform value cannot be set on a material.
#[derive(Debug, Clone, Copy, PartialEq, Eq, Structural)]
pub enum UniformError {
    /// The material's shader has no uniform of that name.
    NotFound,
    /// The material has no user uniforms at all.
    NoUserUniforms,
}

/// The type of the uniform called `name` in `defs`, if there is one.
fn def_in(defs: &Vec<(String, UniformDef)>, name: &String) -> (d: Option<UniformDef>)
    ensures
        match d {
            Some(t) => exists|j: int|
                0 <= j < defs.len() && #[trigger] defs@[j].0@ == name@ && defs@[j].1 == t,
            None => forall|j: int| 0 <= j < defs.len() ==> #[trigger] defs@[j].0@ != name@,
        },
{
    let mut j: usize = 0;
    while j < defs.len()
        invariant
            j <= defs.len(),
            forall|k: int| 0 <= k < j ==> #[trigger] defs@[k].0@ != name@,
        decreases defs.len() - j,
    {
        if defs[j].0 == *name {
            return Some(defs[j].1);
        }
        j = j + 1;
    }
    None
}

/// `n` zero bytes.
fn zero_bytes(n: usize) -> (data: Vec<u8>)
    ensures
        data.len() == n,
        forall|k: int| 0 <= k < n ==> #[trigger] data@[k] == 0,
{
    let mut data: Vec<u8> = Vec::new();
    let mut z: usize = 0;
    while z < n
        invariant
            z <= n,
            data.len() == z,
            forall|k: int| 0 <= k < z ==> #[trigger] data@[k] == 0,
        decreases n - z,
    {
        data.push(0u8);
        z = z + 1;
    }
    data
}

/// A material's user uniforms: their types, their layout in the uniform buffer, the
/// buffer's size and their current values.
pub struct MaterialUniforms {
    uniform_defs: Option<Vec<(String, UniformDef)>>,
    uniform_layout: Option<UniformLayout>,
    total_ubo_size: usize,
    current_uniform_values: UniformValues,
}

/// What laying out and initialising the user uniforms of `defs` gives: no layout and an
/// empty buffer without user uniforms; else the layout of `defs`, and, when the buffer is
/// not empty, all its bytes zero and every uniform set to its zero value.
pub open spec fn uniform_setup_ok(
    defs: Option<Vec<(String, UniformDef)>>,
    layout: Option<UniformLayout>,
    total: usize,
    data: Seq<u8>,
    before: Seq<(Seq<char>, Uniform)>,
    after: Seq<(Seq<char>, Uniform)>,
) -> bool {
    match defs {
        None => layout is None && total == 0 && data.len() == 0 && after == before,
        Some(d) => match layout {
            None => false,
            Some(l) => {
                &&& is_layout_of(d@, l@, total)
                &&& l.fits(total)
                &&& if total == 0 {
                    data.len() == 0 && after == before
                } else {
                    &&& data.len() == total
                    &&& forall|k: int| 0 <= k < total ==> #[trigger] data[k] == 0
                    &&& forall|j: int|
                        #![trigger d@[j]]
                        0 <= j < d.len() ==> (value_named(after, d@[j].0@) matches Some(u)
                            && is_zero_uniform(u, d@[j].1))
                    &&& forall|n: Seq<char>|
                        (forall|j: int| 0 <= j < d.len() ==> #[trigger] d@[j].0@ != n)
                            ==> value_named(after, n) == value_named(before, n)
                }
            },
        },
    }
}

impl MaterialUniforms {
    #[verifier::type_invariant]
    spec fn inv(&self) -> bool {
        &&& self.current_uniform_values.wf()
        &&& (self.uniform_layout matches Some(l) ==> l.fits(self.total_ubo_size))
        &&& (self.uniform_defs matches Some(d) ==> names_distinct(d@) && d.len() <= usize::MAX
            / 128)
    }

    /// The uniform types the material was made with.
    pub closed spec fn defs(&self) -> Option<Vec<(String, UniformDef)>> {
        self.uniform_defs
    }

    /// The layout of the uniform buffer, if the material has user uniforms.
    pub closed spec fn layout(&self) -> Option<UniformLayout> {
        self.uniform_layout
    }

    /// The size of the uniform buffer in bytes.
    pub closed spec fn total(&self) -> usize {
        self.total_ubo_size
    }

    /// The current values.
    pub closed spec fn values(&self) -> Seq<(Seq<char>, Uniform)> {
        self.current_uniform_values@
    }

    /// Sets every uniform of `d` to its zero value in `values`.
    fn zero_values(d: &Vec<(String, UniformDef)>, values: &mut UniformValues)
        requires
            old(values).wf(),
            names_distinct(d@),
        ensures
            final(values).wf(),
            forall|j: int|
                #![trigger d@[j]]
                0 <= j < d.len() ==> (value_named(final(values)@, d@[j].0@) matches Some(u)
                    && is_zero_uniform(u, d@[j].1)),
            forall|n: Seq<char>|
                (forall|j: int| 0 <= j < d.len() ==> #[trigger] d@[j].0@ != n) ==> value_named(
                    final(values)@,
                    n,
                ) == value_named(old(values)@, n),
    {
        let ghost before = values@;
        let mut j: usize = 0;
        while j < d.len()
            invariant
                j <= d.len(),
                names_distinct(d@),
                values.wf(),
                forall|k: int|
                    #![trigger d@[k]]
                    0 <= k < j ==> (value_named(values@, d@[k].0@) matches Some(u)
                        && is_zero_uniform(u, d@[k].1)),
                forall|n: Seq<char>|
                    (forall|k: int| 0 <= k < j ==> #[trigger] d@[k].0@ != n) ==> value_named(
                        values@,
                        n,
                    ) == value_named(before, n),
            decreases d.len() - j,
        {
            let value = to_uniform_value(&d[j].1);
            let name = d[j].0.clone();
            values.insert(name, value);
            proof {
                assert forall|k: int|
                    #![trigger d@[k]]
                    0 <= k < j + 1 implies (value_named(values@, d@[k].0@) matches Some(u)
                        && is_zero_uniform(u, d@[k].1)) by {
                    if k < j {
                        assert(d@[k].0@ != d@[j as int].0@);
                    }
                }
                assert forall|n: Seq<char>|
                    (forall|k: int| 0 <= k < j + 1 ==> #[trigger] d@[k].0@ != n) implies value_named(
                        values@,
                        n,
                    ) == value_named(before, n) by {
                    assert(d@[j as int].0@ != n);
                }
            }
            j = j + 1;
        }
    }

    /// Lays out the uniforms of `defs` and sets each to zero in `values`; returns the
    /// layout, the buffer size and the initial buffer contents.
    fn setup(defs: &Option<Vec<(String, UniformDef)>>, values: &mut UniformValues) -> (r: (
        Option<UniformLayout>,
        usize,
        Vec<u8>,
    ))
        requires
            old(values).wf(),
            defs matches Some(d) ==> names_distinct(d@) && d.len() <= usize::MAX / 128,
        ensures
            final(values).wf(),
            uniform_setup_ok(*defs, r.0, r.1, r.2@, old(values)@, final(values)@),
    {
        match defs {
            None => {
                let data: Vec<u8> = Vec::new();
                (None, 0, data)
            },
            Some(d) => {
                let (layout, total) = calculate_uniform_offsets_and_total_size(d);
                if total == 0 {
                    return (Some(layout), total, Vec::new());
                }
                let data = zero_bytes(total);
                Self::zero_values(d, values);
                (Some(layout), total, data)
            },
        }
    }

    /// The user uniforms of a material made with `uniform_defs` (each name once), each at
    /// its zero value; returns them and the initial contents of the uniform buffer.
    pub fn new(uniform_defs: Option<Vec<(String, UniformDef)>>) -> (r: (MaterialUniforms, Vec<u8>))
        requires
            uniform_defs matches Some(d) ==> names_distinct(d@) && d.len() <= usize::MAX / 128,
        ensures
            r.0.defs() == uniform_defs,
            uniform_setup_ok(
                uniform_defs,
                r.0.layout(),
                r.0.total(),
                r.1@,
                Seq::empty(),
                r.0.values(),
            ),
    {
        let mut values = UniformValues::new();
        let (layout, total, data) = Self::setup(&uniform_defs, &mut values);
        (
            MaterialUniforms {
                uniform_defs,
                uniform_layout: layout,
                total_ubo_size: total,
                current_uniform_values: values,
            },
            data,
        )
    }

    /// Lays the uniforms out again from the material's own uniform types (as when the
    /// pipeline is rebuilt), keeping the current values, and returns the initial contents
    /// of the new uniform buffer: each slot holds the bytes of its current value, where the
    /// value has the slot's size, and zero bytes otherwise.
    pub fn rebuild(&mut self) -> (data: Vec<u8>)
        ensures
            final(self).defs() == old(self).defs(),
            final(self).values() == old(self).values(),
            match old(self).defs() {
                None => final(self).layout() is None && final(self).total() == 0 && data@.len() == 0,
                Some(d) => final(self).layout() matches Some(l) && {
                    &&& is_layout_of(d@, l@, final(self).total())
                    &&& l.fits(final(self).total())
                    &&& exists|slots: Seq<Option<Vec<u8>>>|
                        {
                            &&& slots.len() == l@.len()
                            &&& forall|k: int|
                                0 <= k < slots.len() ==> slot_fills(
                                    old(self).values(),
                                    l@[k].0,
                                    l@[k].1.1,
                                    #[trigger] slots[k],
                                )
                            &&& data@ == uniform_buffer(
                                l@,
                                slots,
                                final(self).total() as nat,
                                l@.len() as int,
                            )
                        }
                },
            },
    {
        proof {
            use_type_invariant(&*self);
        }
        let mut values = UniformValues::new();
        std::mem::swap(&mut values, &mut self.current_uniform_values);
        let mut defs = None;
        std::mem::swap(&mut defs, &mut self.uniform_defs);
        match defs {
            None => {
                *self = MaterialUniforms {
                    uniform_defs: None,
                    uniform_layout: None,
                    total_ubo_size: 0,
                    current_uniform_values: values,
                };
                Vec::new()
            },
            Some(d) => {
                let (layout, total) = calculate_uniform_offsets_and_total_size(&d);
                let slots = fitting_slots(&values, &layout);
                let r = fill_uniform_buffer(&layout, total, &slots);
                let data = match r {
                    Ok(buf) => buf,
                    Err(e) => {
                        proof {
                            let k = e.index as int;
                            assert(slot_fills(values@, layout@[k].0, layout@[k].1.1, slots@[k]));
                            assert(false);
                        }
                        Vec::new()
                    },
                };
                *self = MaterialUniforms {
                    uniform_defs: Some(d),
                    uniform_layout: Some(layout),
                    total_ubo_size: total,
                    current_uniform_values: values,
                };
                data
            },
        }
    }

    /// The layout of the uniform buffer, if the material has user uniforms.
    pub fn uniform_layout(&self) -> (l: &Option<UniformLayout>)
        ensures
            *l == self.layout(),
    {
        &self.uniform_layout
    }

    /// The size of the uniform buffer in bytes.
    pub fn total_ubo_size(&self) -> (n: usize)
        ensures
            n == self.total(),
    {
        self.total_ubo_size
    }

    /// The current value of the uniform `name`, if it has one.
    pub fn value(&self, name: &String) -> (v: Option<Uniform>)
        ensures
            v == value_named(self.values(), name@),
    {
        proof {
            use_type_invariant(self);
        }
        self.current_uniform_values.get(name)
    }

    /// A copy of the current values.
    pub fn all_values(&self) -> (v: UniformValues)
        ensures
            v@ == self.values(),
            v.wf(),
    {
        proof {
            use_type_invariant(self);
        }
        self.current_uniform_values.copy()
    }

    /// Whether a value for the uniform `name` may be stored: the material must have user
    /// uniforms, and one of that name.
    pub fn check_uniform(&self, name: &String) -> (r: Result<(), UniformError>)
        ensures
            match self.layout() {
                None => r == Err::<(), UniformError>(UniformError::NoUserUniforms),
                Some(layout) => if exists|i: int|
                    0 <= i < layout@.len() && #[trigger] layout@[i].0 == name@ {
                    r is Ok
                } else {
                    r == Err::<(), UniformError>(UniformError::NotFound)
                },
            },
    {
        match &self.uniform_layout {
            Some(layout) => {
                if !layout.contains_key(name) {
                    Err(UniformError::NotFound)
                } else {
                    Ok(())
                }
            },
            None => Err(UniformError::NoUserUniforms),
        }
    }

    /// Stores `value` as the current value of the uniform `name`, if `check_uniform`
    /// allows it; else changes nothing and returns why.
    pub fn set_uniform(&mut self, name: &String, value: Uniform) -> (r: Result<(), UniformError>)
        ensures
            final(self).defs() == old(self).defs(),
            final(self).layout() == old(self).layout(),
            final(self).total() == old(self).total(),
            r == old(self).check_uniform_spec(name@),
            r is Ok ==> value_named(final(self).values(), name@) == Some(value) && forall|
                n: Seq<char>,
            |
                n != name@ ==> value_named(final(self).values(), n) == value_named(
                    old(self).values(),
                    n,
                ),
            r is Err ==> final(self).values() == old(self).values(),
    {
        proof {
            use_type_invariant(&*self);
        }
        let checked = self.check_uniform(name);
        if checked.is_err() {
            return checked;
        }
        let mut values = UniformValues::new();
        std::mem::swap(&mut values, &mut self.current_uniform_values);
        values.insert(name.clone(), value);
        std::mem::swap(&mut values, &mut self.current_uniform_values);
        Ok(())
    }

    /// What `check_uniform` answers for `name`.
    pub open spec fn check_uniform_spec(&self, name: Seq<char>) -> Result<(), UniformError> {
        match self.layout() {
            None => Err(UniformError::NoUserUniforms),
            Some(layout) => if exists|i: int|
                0 <= i < layout@.len() && #[trigger] layout@[i].0 == name {
                Ok(())
            } else {
                Err(UniformError::NotFound)
            },
        }
    }

    /// The contents of the uniform buffer for the current values: each slot holds the
    /// bytes of its uniform's value (zero where it has none). `None` when the material
    /// has no user uniforms; an error at the first uniform whose value has a type of
    /// another size than its slot.
    pub fn uniform_buffer_data(&self) -> (r: Option<Result<Vec<u8>, UniformSizeMismatch>>)
        ensures
            match self.layout() {
                None => r is None,
                Some(layout) => r matches Some(res) && match res {
                    Ok(buf) => {
                        &&& buf.len() == self.total()
                        &&& forall|i: int|
                            0 <= i < layout@.len() ==> (value_named(self.values(), #[trigger] layout@[i].0) matches Some(v)
                                ==> uniform_size(uniform_def_of(v)) == layout@[i].1.1)
                        &&& exists|slots: Seq<Option<Vec<u8>>>|
                            {
                                &&& slots.len() == layout@.len()
                                &&& forall|k: int|
                                    0 <= k < slots.len() ==> slot_holds(
                                        self.values(),
                                        layout@[k].0,
                                        #[trigger] slots[k],
                                    )
                                &&& buf@ == uniform_buffer(
                                    layout@,
                                    slots,
                                    self.total() as nat,
                                    layout@.len() as int,
                                )
                            }
                    },
                    Err(e) => {
                        &&& e.index < layout@.len()
                        &&& value_named(self.values(), layout@[e.index as int].0) matches Some(v)
                            && uniform_size(uniform_def_of(v)) != layout@[e.index as int].1.1
                            && e.got == uniform_size(uniform_def_of(v))
                        &&& e.expected == layout@[e.index as int].1.1
                        &&& forall|i: int|
                            0 <= i < e.index ==> (value_named(self.values(), #[trigger] layout@[i].0) matches Some(v)
                                ==> uniform_size(uniform_def_of(v)) == layout@[i].1.1)
                    },
                },
            },
    {
        proof {
            use_type_invariant(self);
        }
        match &self.uniform_layout {
            None => None,
            Some(layout) => {
                let entries = layout.entries();
                let mut bytes: Vec<Option<Vec<u8>>> = Vec::new();
                let mut i: usize = 0;
                while i < entries.len()
                    invariant
                        i <= entries.len(),
                        entries@.map_values(|e: (String, (usize, usize))| (e.0@, e.1)) == layout@,
                        bytes.len() == i,
                        self.current_uniform_values.wf(),
                        forall|k: int|
                            0 <= k < i ==> slot_holds(self.values(), layout@[k].0, #[trigger] bytes@[k]),
                    decreases entries.len() - i,
                {
                    assert(layout@[i as int].0 == entries@[i as int].0@);
                    match self.current_uniform_values.get(&entries[i].0) {
                        Some(v) => {
                            bytes.push(Some(crate::uniform::uniform_to_bytes(&v)));
                        },
                        None => {
                            bytes.push(None);
                        },
                    }
                    i = i + 1;
                }
                let r = fill_uniform_buffer(layout, self.total_ubo_size, &bytes);
                proof {
                    assert(forall|k: int|
                        0 <= k < bytes@.len() ==> slot_holds(self.values(), layout@[k].0, #[trigger] bytes@[k]));
                    if r is Ok {
                        let buf = r->Ok_0;
                        assert(bytes@.len() == layout@.len());
                        assert(buf@ == uniform_buffer(
                            layout@,
                            bytes@,
                            self.total() as nat,
                            layout@.len() as int,
                        ));
                    }
                    assert forall|k: int| 0 <= k < layout@.len() implies value_fits(layout@, bytes@, k)
                        == (value_named(self.values(), #[trigger] layout@[k].0) matches Some(v)
                        ==> uniform_size(uniform_def_of(v)) == layout@[k].1.1) by {
                        assert(bytes@[k] == bytes@[k]);
                    }
                }
                Some(r)
            },
        }
    }
}

/// Whether `bytes` is what the buffer gets for the uniform `name` among `values`: the
/// bytes of its value, or nothing when it has none.
pub open spec fn slot_holds(
    values: Seq<(Seq<char>, Uniform)>,
    name: Seq<char>,
    bytes: Option<Vec<u8>>,
) -> bool {
    match value_named(values, name) {
        Some(v) => bytes matches Some(b) && encodes(v, b@),
        None => bytes is None,
    }
}

/// Whether `bytes` is what a rebuilt uniform buffer gets for the slot of `name`, of `size`
/// bytes, among `values`: the bytes of its value when that value has the slot's size,
/// else nothing (the slot stays zero).
pub open spec fn slot_fills(
    values: Seq<(Seq<char>, Uniform)>,
    name: Seq<char>,
    size: usize,
    bytes: Option<Vec<u8>>,
) -> bool {
    match value_named(values, name) {
        Some(v) => if uniform_size(uniform_def_of(v)) == size {
            bytes matches Some(b) && encodes(v, b@)
        } else {
            bytes is None
        },
        None => bytes is None,
    }
}

/// For each slot of `layout`, the bytes of the value of its uniform in `values` when that
/// value has the slot's size (see `slot_fills`).
fn fitting_slots(values: &UniformValues, layout: &UniformLayout) -> (slots: Vec<Option<Vec<u8>>>)
    requires
        values.wf(),
    ensures
        slots.len() == layout@.len(),
        forall|k: int|
            0 <= k < slots.len() ==> slot_fills(
                values@,
                layout@[k].0,
                layout@[k].1.1,
                #[trigger] slots@[k],
            ),
{
    let entries = layout.entries();
    let mut slots: Vec<Option<Vec<u8>>> = Vec::new();
    let mut i: usize = 0;
    while i < entries.len()
        invariant
            i <= entries.len(),
            entries@.map_values(|e: (String, (usize, usize))| (e.0@, e.1)) == layout@,
            slots.len() == i,
            values.wf(),
            forall|k: int|
                0 <= k < i ==> slot_fills(values@, layout@[k].0, layout@[k].1.1, #[trigger] slots@[k]),
        decreases entries.len() - i,
    {
        assert(layout@[i as int].0 == entries@[i as int].0@);
        assert(layout@[i as int].1 == entries@[i as int].1);
        match values.get(&entries[i].0) {
            Some(v) => {
                let bytes = crate::uniform::uniform_to_bytes(&v);
                if bytes.len() == entries[i].1.1 {
                    slots.push(Some(bytes));
                } else {
                    slots.push(None);
                }
            },
            None => {
                slots.push(None);
            },
        }
        i = i + 1;
    }
    slots
}

/// A material as the renderer registers it. `R` holds what only the GPU side has: the
/// pipeline, shader, uniform buffer and bind groups.
pub struct Material<R> {
    pub name: String,
    pub material_descriptor: MaterialDescriptor,
    pub uniforms: MaterialUniforms,
    pub resources: R,
}

/// The descriptor of the material of `handle`, if it is registered.
pub open spec fn descriptor_of<R>(
    materials: &IdMap<Material<R>, MaterialHandle>,
    handle: MaterialHandle,
) -> Option<MaterialDescriptor> {
    if materials@.contains_key(handle.0) {
        Some(materials@[handle.0].material_descriptor)
    } else {
        None
    }
}

impl MaterialHandle {
    /// Whether the material tests or writes depth; false for a handle that is not
    /// registered.
    pub fn is_depth_enabled<R>(&self, materials: &IdMap<Material<R>, MaterialHandle>) -> (r: bool)
        ensures
            r == match descriptor_of(materials, *self) {
                Some(d) => d.depth_stencil.spec_is_depth_enabled(),
                None => false,
            },
    {
        match materials.get(*self) {
            Some(mat) => mat.material_descriptor.is_depth_enabled(),
            None => false,
        }
    }

    /// Whether the material uses the stencil test; false for a handle that is not
    /// registered.
    pub fn is_stencil_enabled<R>(&self, materials: &IdMap<Material<R>, MaterialHandle>) -> (r: bool)
        ensures
            r == match descriptor_of(materials, *self) {
                Some(d) => d.depth_stencil.stencil.spec_is_enabled(),
                None => false,
            },
    {
        match materials.get(*self) {
            Some(mat) => mat.material_descriptor.is_stencil_enabled(),
            None => false,
        }
    }

    /// Whether the material must be drawn as transparent; false for a handle that is not
    /// registered (an error on the caller's side).
    pub fn should_render_as_transparent<R>(
        &self,
        materials: &IdMap<Material<R>, MaterialHandle>,
    ) -> (r: bool)
        ensures
            r == match descriptor_of(materials, *self) {
                Some(d) => d.spec_is_transparent(),
                None => false,
            },
    {
        match materials.get(*self) {
            Some(mat) => mat.material_descriptor.should_render_as_transparent(),
            None => false,
        }
    }

    /// A copy of the current uniform values of the material, if it is registered.
    pub fn get_all_uniform<R>(&self, materials: &IdMap<Material<R>, MaterialHandle>) -> (v: Option<
        UniformValues,
    >)
        ensures
            match v {
                Some(vals) => materials@.contains_key(self.0) && vals@ == materials@[self.0].uniforms.values() && vals.wf(),
                None => !materials@.contains_key(self.0),
            },
    {
        match materials.get(*self) {
            Some(mat) => Some(mat.uniforms.all_values()),
            None => None,
        }
    }

    /// Sets a uniform of the material: a registered material breaks the current batch and
    /// stores the value if it has such a uniform (else `Some(Err(..))` says why); a handle
    /// that is not registered changes nothing and gives `None`.
    pub fn set_uniform<R>(
        &self,
        materials: &mut IdMap<Material<R>, MaterialHandle>,
        break_batching: &mut bool,
        name: &String,
        value: Uniform,
    ) -> (r: Option<Result<(), UniformError>>)
        requires
            old(materials).wf(),
        ensures
            final(materials).wf(),
            final(materials).next_id() == old(materials).next_id(),
            final(materials)@.dom() == old(materials)@.dom(),
            *final(break_batching) == (*old(break_batching) || old(materials)@.contains_key(self.0)),
            match r {
                None => !old(materials)@.contains_key(self.0) && final(materials)@ == old(materials)@,
                Some(res) => {
                    let before = old(materials)@[self.0];
                    let after = final(materials)@[self.0];
                    &&& old(materials)@.contains_key(self.0)
                    &&& res == before.uniforms.check_uniform_spec(name@)
                    &&& after.name == before.name
                    &&& after.material_descriptor == before.material_descriptor
                    &&& after.uniforms.layout() == before.uniforms.layout()
                    &&& res is Ok ==> value_named(after.uniforms.values(), name@) == Some(value)
                    &&& res is Ok ==> forall|n: Seq<char>|
                        n != name@ ==> value_named(after.uniforms.values(), n) == value_named(
                            before.uniforms.values(),
                            n,
                        )
                    &&& res is Err ==> after.uniforms.values() == before.uniforms.values()
                    &&& forall|id: u64| id != self.0 ==> #[trigger] final(materials)@.contains_key(id) ==> final(materials)@[id] == old(materials)@[id]
                },
            },
    {
        match materials.get_mut(*self) {
            Some(mat) => {
                *break_batching = true;
                Some(mat.uniforms.set_uniform(name, value))
            },
            None => None,
        }
    }

    /// Binding a texture to a registered material breaks the current batch; a handle that
    /// is not registered changes nothing.
    pub fn set_texture<R>(
        &self,
        materials: &IdMap<Material<R>, MaterialHandle>,
        break_batching: &mut bool,
        name: &String,
        texture: Texture2DHandle,
    )
        ensures
            *final(break_batching) == (*old(break_batching) || materials@.contains_key(self.0)),
    {
        if materials.get(*self).is_some() {
            *break_batching = true;
        }
    }
}

} // verus!
