//! Textures and samplers held by a texture manager.
//!
//! Sampler parameters that are floating-point values in the graphics API
//! (anisotropy, level-of-detail bounds) are held as the IEEE-754 bit
//! patterns of their `f32` values.
use vstd::prelude::*;
use crate::text::{decimal_string, spec_decimal};
use std::collections::HashMap;
use std::collections::hash_map::Entry;

verus! {

broadcast use vstd::std_specs::hash::group_hash_axioms;

#[derive(Debug)]
pub enum TextureError {
    NotFound(u32),
    InvalidDimensions { width: u32, height: u32 },
    DataSizeMismatch { expected: usize, actual: usize },
    UnsupportedFormat,
    SamplerError(String),
}

impl TextureError {
    pub open spec fn spec_message(&self) -> Seq<char> {
        match self {
            TextureError::NotFound(id) => "texture not found: "@ + spec_decimal(*id as nat),
            TextureError::InvalidDimensions { width, height } => "invalid dimensions: "@ + spec_decimal(
                *width as nat,
            ) + "x"@ + spec_decimal(*height as nat),
            TextureError::DataSizeMismatch { expected, actual } => "data size mismatch: expected "@
                + spec_decimal(*expected as nat) + ", got "@ + spec_decimal(*actual as nat),
            TextureError::UnsupportedFormat => "unsupported pixel format"@,
            TextureError::SamplerError(m) => "sampler error: "@ + m@,
        }
    }

    /// The error's text.
    pub fn message(&self) -> (r: String)
        ensures
            r@ == self.spec_message(),
    {
        match self {
            TextureError::NotFound(id) => {
                let mut m = String::from_str("texture not found: ");
                m.append(decimal_string(*id as u64).as_str());
                m
            },
            TextureError::InvalidDimensions { width, height } => {
                let mut m = String::from_str("invalid dimensions: ");
                m.append(decimal_string(*width as u64).as_str());
                m.append("x");
                m.append(decimal_string(*height as u64).as_str());
                m
            },
            TextureError::DataSizeMismatch { expected, actual } => {
                let mut m = String::from_str("data size mismatch: expected ");
                m.append(decimal_string(*expected as u64).as_str());
                m.append(", got ");
                m.append(decimal_string(*actual as u64).as_str());
                m
            },
            TextureError::UnsupportedFormat => String::from_str("unsupported pixel format"),
            TextureError::SamplerError(detail) => {
                let mut m = String::from_str("sampler error: ");
                m.append(detail.as_str());
                m
            },
        }
    }
}

#[derive(Debug, Clone, Copy, PartialEq, Eq, Structural)]
pub enum TextureFormat {
    Rgba8Unorm,
    Bgra8Unorm,
    Rgba8Srgb,
    Rgba16Float,
    Rgba32Float,
    Depth32Float,
    Depth24Stencil8,
}

impl TextureFormat {
    pub open spec fn spec_bytes_per_pixel(&self) -> usize {
        match self {
            TextureFormat::Rgba16Float => 8,
            TextureFormat::Rgba32Float => 16,
            _ => 4,
        }
    }

    pub fn bytes_per_pixel(&self) -> (r: usize)
        ensures
            r == self.spec_bytes_per_pixel(),
    {
        match self {
            TextureFormat::Rgba8Unorm
            | TextureFormat::Bgra8Unorm
            | TextureFormat::Rgba8Srgb
            | TextureFormat::Depth24Stencil8 => 4,
            TextureFormat::Rgba16Float => 8,
            TextureFormat::Rgba32Float => 16,
            TextureFormat::Depth32Float => 4,
        }
    }

    pub fn is_depth(&self) -> (r: bool)
        ensures
            r == (*self == TextureFormat::Depth32Float || *self == TextureFormat::Depth24Stencil8),
    {
        match self {
            TextureFormat::Depth32Float | TextureFormat::Depth24Stencil8 => true,
            _ => false,
        }
    }
}

#[derive(Debug, Clone, Copy, PartialEq, Eq, Structural)]
pub enum TextureUsage {
    ShaderRead,
    ShaderWrite,
    RenderTarget,
    DepthAttachment,
    CopySrc,
    CopyDst,
}

#[derive(Debug, Clone)]
pub struct TextureDescriptor {
    pub width: u32,
    pub height: u32,
    pub depth: u32,
    pub mip_levels: u32,
    pub array_layers: u32,
    pub format: TextureFormat,
    pub usage: Vec<TextureUsage>,
}

impl TextureDescriptor {
    /// Texels over all depth slices and array layers.
    pub open spec fn spec_total_pixels(&self) -> int {
        self.width * self.height * self.depth * self.array_layers
    }

    /// Counting texels in `u64`, left to right, does not overflow.
    pub open spec fn spec_count_fits(&self) -> bool {
        self.width * self.height * self.depth <= u64::MAX && self.spec_total_pixels() <= u64::MAX
    }

    /// The byte size is computable without overflow.
    pub open spec fn spec_size_fits(&self) -> bool {
        self.spec_count_fits() && self.spec_data_size() <= usize::MAX
    }

    /// Bytes of texel data.
    pub open spec fn spec_data_size(&self) -> int {
        self.spec_total_pixels() * self.format.spec_bytes_per_pixel()
    }

    /// A 2D texture of one slice, one level and one layer, read by shaders.
    pub fn new_2d(width: u32, height: u32, format: TextureFormat) -> (r: Self)
        ensures
            r.width == width,
            r.height == height,
            r.depth == 1,
            r.mip_levels == 1,
            r.array_layers == 1,
            r.format == format,
            r.usage@ == seq![TextureUsage::ShaderRead],
    {
        let mut usage = Vec::new();
        usage.push(TextureUsage::ShaderRead);
        TextureDescriptor { width, height, depth: 1, mip_levels: 1, array_layers: 1, format, usage }
    }

    pub fn total_pixels(&self) -> (r: u64)
        requires
            self.spec_count_fits(),
        ensures
            r == self.spec_total_pixels(),
    {
        proof {
            lemma_product4_bounds(self.width, self.height, self.depth, self.array_layers);
            let w = self.width as int;
            let h = self.height as int;
            assert(w * h <= 0xFFFF_FFFE_0000_0001) by (nonlinear_arith)
                requires
                    0 <= w <= 0xFFFF_FFFF,
                    0 <= h <= 0xFFFF_FFFF,
            ;
        }
        let wh = self.width as u64 * self.height as u64;
        let whd = wh * self.depth as u64;
        whd * self.array_layers as u64
    }

    pub fn data_size(&self) -> (r: usize)
        requires
            self.spec_size_fits(),
        ensures
            r == self.spec_data_size(),
    {
        proof {
            lemma_product4_bounds(self.width, self.height, self.depth, self.array_layers);
            let t = self.spec_total_pixels();
            let b = self.format.spec_bytes_per_pixel();
            assert(t <= t * b) by (nonlinear_arith)
                requires
                    t >= 0,
                    b >= 1,
            ;
        }
        self.total_pixels() as usize * self.format.bytes_per_pixel()
    }
}

/// A texture holds every texel of every depth slice and every array layer of
/// its base level: `width * height * depth * array_layers` texels, of 8 bytes
/// for `Rgba16Float`, 16 for `Rgba32Float` and 4 for every other format.
/// `create_texture` allocates exactly that many bytes and `upload_texture`
/// accepts exactly that many.
pub proof fn law_texture_data_size(desc: TextureDescriptor)
    ensures
        desc.spec_data_size() == desc.width * desc.height * desc.depth * desc.array_layers * (match desc.format {
            TextureFormat::Rgba16Float => 8int,
            TextureFormat::Rgba32Float => 16int,
            _ => 4int,
        }),
{
}

/// Each partial product of four `u32` factors is at most the full product,
/// unless a later factor is zero.
proof fn lemma_product4_bounds(a: u32, b: u32, c: u32, d: u32)
    ensures
        a * b >= 0,
        a * b * c >= 0,
        a * b * c * d >= 0,
        d >= 1 ==> a * b * c <= a * b * c * d,
        c >= 1 && d >= 1 ==> a * b <= a * b * c * d,
        c >= 1 ==> a * b <= a * b * c,
{
    assert(a * b >= 0) by (nonlinear_arith);
    assert(a * b * c >= 0) by (nonlinear_arith);
    assert(a * b * c * d >= 0) by (nonlinear_arith);
    assert(d >= 1 ==> a * b * c <= a * b * c * d) by (nonlinear_arith);
    assert(c >= 1 ==> a * b <= a * b * c) by (nonlinear_arith);
    assert(c >= 1 && d >= 1 ==> a * b <= a * b * c * d) by (nonlinear_arith);
}

#[derive(Debug, Clone)]
pub struct Texture {
    pub id: u32,
    pub descriptor: TextureDescriptor,
    pub data: Vec<u8>,
}

#[derive(Debug, Clone, Copy, PartialEq, Eq, Structural)]
pub enum FilterMode {
    Nearest,
    Linear,
}

#[derive(Debug, Clone, Copy, PartialEq, Eq, Structural)]
pub enum AddressMode {
    Repeat,
    ClampToEdge,
    ClampToBorder,
    MirrorRepeat,
}

/// IEEE-754 bits of `1.0f32`, `0.0f32` and `1000.0f32`.
pub const F32_ONE_BITS: u32 = 0x3F80_0000;
pub const F32_ZERO_BITS: u32 = 0;
pub const F32_THOUSAND_BITS: u32 = 0x447A_0000;

#[derive(Debug, Clone, Copy, PartialEq, Eq, Structural)]
pub struct SamplerDescriptor {
    pub min_filter: FilterMode,
    pub mag_filter: FilterMode,
    pub mip_filter: FilterMode,
    pub address_u: AddressMode,
    pub address_v: AddressMode,
    pub address_w: AddressMode,
    /// `f32` bits.
    pub max_anisotropy: u32,
    /// `f32` bits.
    pub min_lod: u32,
    /// `f32` bits.
    pub max_lod: u32,
}

impl Default for SamplerDescriptor {
    /// Linear filtering, clamped to the edge, anisotropy 1, LOD 0 to 1000.
    fn default() -> (r: Self)
        ensures
            r.min_filter == FilterMode::Linear,
            r.mag_filter == FilterMode::Linear,
            r.mip_filter == FilterMode::Linear,
            r.address_u == AddressMode::ClampToEdge,
            r.address_v == AddressMode::ClampToEdge,
            r.address_w == AddressMode::ClampToEdge,
            r.max_anisotropy == F32_ONE_BITS,
            r.min_lod == F32_ZERO_BITS,
            r.max_lod == F32_THOUSAND_BITS,
    {
        SamplerDescriptor {
            min_filter: FilterMode::Linear,
            mag_filter: FilterMode::Linear,
            mip_filter: FilterMode::Linear,
            address_u: AddressMode::ClampToEdge,
            address_v: AddressMode::ClampToEdge,
            address_w: AddressMode::ClampToEdge,
            max_anisotropy: F32_ONE_BITS,
            min_lod: F32_ZERO_BITS,
            max_lod: F32_THOUSAND_BITS,
        }
    }
}

#[derive(Debug, Clone, Copy, PartialEq, Eq, Structural)]
pub enum CompareFunc {
    Never,
    Less,
    Equal,
    LessEqual,
    Greater,
    NotEqual,
    GreaterEqual,
    Always,
}

pub struct TextureManager {
    next_id: u32,
    textures: HashMap<u32, Texture>,
    samplers: HashMap<u32, SamplerDescriptor>,
    next_sampler_id: u32,
}

impl TextureManager {
    pub closed spec fn spec_textures(&self) -> Map<u32, Texture> {
        self.textures@
    }

    pub closed spec fn spec_samplers(&self) -> Map<u32, SamplerDescriptor> {
        self.samplers@
    }

    pub closed spec fn spec_next_id(&self) -> u32 {
        self.next_id
    }

    pub closed spec fn spec_next_sampler_id(&self) -> u32 {
        self.next_sampler_id
    }

    /// Ids in use are below the next ones, and each texture holds exactly
    /// the bytes its descriptor calls for.
    pub closed spec fn wf(&self) -> bool {
        &&& 1 <= self.next_id
        &&& 1 <= self.next_sampler_id
        &&& forall|k: u32| #[trigger] self.textures@.contains_key(k) ==> k < self.next_id
        &&& forall|k: u32| #[trigger] self.textures@.contains_key(k)
            ==> spec_texture_sized(self.textures@[k])
        &&& forall|k: u32| #[trigger] self.samplers@.contains_key(k) ==> k < self.next_sampler_id
    }

    pub fn new() -> (r: Self)
        ensures
            r.wf(),
            r.spec_textures().is_empty(),
            r.spec_samplers().is_empty(),
            r.spec_next_id() == 1,
            r.spec_next_sampler_id() == 1,
    {
        TextureManager {
            next_id: 1,
            textures: HashMap::new(),
            samplers: HashMap::new(),
            next_sampler_id: 1,
        }
    }

    /// Creates a zero-filled texture for `desc` under the next id.
    pub fn create_texture(&mut self, desc: TextureDescriptor) -> (r: Result<u32, TextureError>)
        requires
            old(self).wf(),
            desc.width != 0 && desc.height != 0 ==> desc.spec_size_fits() && old(self).spec_next_id()
                < u32::MAX,
        ensures
            final(self).wf(),
            final(self).spec_samplers() == old(self).spec_samplers(),
            final(self).spec_next_sampler_id() == old(self).spec_next_sampler_id(),
            desc.width == 0 || desc.height == 0 ==> (r matches Err(TextureError::InvalidDimensions { width, height })
                && width == desc.width && height == desc.height) && *final(self) == *old(self),
            desc.width != 0 && desc.height != 0 ==> {
                &&& r == Ok::<u32, TextureError>(old(self).spec_next_id())
                &&& !old(self).spec_textures().contains_key(old(self).spec_next_id())
                &&& final(self).spec_next_id() == old(self).spec_next_id() + 1
                &&& final(self).spec_textures().dom() == old(self).spec_textures().dom().insert(
                    old(self).spec_next_id(),
                )
                &&& forall|k: u32| k != old(self).spec_next_id() ==> #[trigger] final(self).spec_textures()[k]
                    == old(self).spec_textures()[k]
                &&& final(self).spec_textures()[old(self).spec_next_id()].id == old(self).spec_next_id()
                &&& final(self).spec_textures()[old(self).spec_next_id()].descriptor == desc
                &&& final(self).spec_textures()[old(self).spec_next_id()].data@ == Seq::new(
                    desc.spec_data_size() as nat,
                    |i: int| 0u8,
                )
            },
    {
        if desc.width == 0 || desc.height == 0 {
            return Err(TextureError::InvalidDimensions { width: desc.width, height: desc.height });
        }
        let id = self.next_id;
        self.next_id = self.next_id + 1;
        let size = desc.data_size();
        let data = vec![0u8; size];
        assert(data@ =~= Seq::new(desc.spec_data_size() as nat, |i: int| 0u8));
        self.textures.insert(id, Texture { id, descriptor: desc, data });
        assert forall|k: u32| #[trigger] self.textures@.contains_key(k) implies k < self.next_id
            && spec_texture_sized(self.textures@[k]) by {
            if k != id {
                assert(old(self).textures@.contains_key(k));
            }
        }
        assert(self.textures@.dom() =~= old(self).textures@.dom().insert(id));
        Ok(id)
    }

    /// Replaces the bytes of texture `id` with `data`, which must be exactly
    /// as long as the texture's data.
    pub fn upload_texture(&mut self, id: u32, data: &[u8]) -> (r: Result<(), TextureError>)
        requires
            old(self).wf(),
        ensures
            final(self).wf(),
            final(self).spec_samplers() == old(self).spec_samplers(),
            final(self).spec_next_id() == old(self).spec_next_id(),
            final(self).spec_next_sampler_id() == old(self).spec_next_sampler_id(),
            !old(self).spec_textures().contains_key(id) ==> (r matches Err(TextureError::NotFound(n))
                && n == id),
            old(self).spec_textures().contains_key(id) && data@.len()
                != old(self).spec_textures()[id].descriptor.spec_data_size() ==> (r matches Err(
                TextureError::DataSizeMismatch { expected, actual },
            ) && expected == old(self).spec_textures()[id].descriptor.spec_data_size() && actual
                == data@.len()),
            r is Ok <==> old(self).spec_textures().contains_key(id) && data@.len()
                == old(self).spec_textures()[id].descriptor.spec_data_size(),
            r is Err ==> final(self).spec_textures() == old(self).spec_textures(),
            r is Ok ==> {
                &&& final(self).spec_textures().dom() == old(self).spec_textures().dom()
                &&& forall|k: u32| k != id ==> #[trigger] final(self).spec_textures()[k]
                    == old(self).spec_textures()[k]
                &&& final(self).spec_textures()[id].id == old(self).spec_textures()[id].id
                &&& final(self).spec_textures()[id].descriptor == old(self).spec_textures()[id].descriptor
                &&& final(self).spec_textures()[id].data@ == data@
            },
    {
        let expected = match self.textures.get(&id) {
            Some(tex) => {
                proof {
                    assert(spec_texture_sized(self.textures@[id]));
                }
                tex.data.len()
            },
            None => {
                return Err(TextureError::NotFound(id));
            },
        };
        if data.len() != expected {
            return Err(TextureError::DataSizeMismatch { expected, actual: data.len() });
        }
        let ghost before = self.textures@;
        let mut tex = match self.textures.remove(&id) {
            Some(t) => t,
            None => {
                return Err(TextureError::NotFound(id));
            },
        };
        let mut fresh: Vec<u8> = Vec::new();
        crate::wire::extend_bytes(&mut fresh, data);
        assert(fresh@ =~= data@);
        tex.data = fresh;
        self.textures.insert(id, tex);
        assert forall|k: u32| #[trigger] self.textures@.contains_key(k) implies k < self.next_id
            && spec_texture_sized(self.textures@[k]) by {
            assert(before.contains_key(k));
        }
        assert(self.textures@.dom() =~= old(self).textures@.dom());
        Ok(())
    }

    /// A copy of the bytes of texture `id`.
    pub fn download_texture(&self, id: u32) -> (r: Result<Vec<u8>, TextureError>)
        ensures
            r is Ok <==> self.spec_textures().contains_key(id),
            r matches Ok(v) ==> v@ == self.spec_textures()[id].data@,
            r matches Err(e) ==> (e matches TextureError::NotFound(n) && n == id),
    {
        match self.textures.get(&id) {
            Some(tex) => {
                let mut out: Vec<u8> = Vec::new();
                crate::wire::extend_bytes(&mut out, tex.data.as_slice());
                assert(out@ =~= tex.data@);
                Ok(out)
            },
            None => Err(TextureError::NotFound(id)),
        }
    }

    pub fn get_texture(&self, id: u32) -> (r: Result<&Texture, TextureError>)
        ensures
            r is Ok <==> self.spec_textures().contains_key(id),
            r matches Ok(t) ==> *t == self.spec_textures()[id],
            r matches Err(e) ==> (e matches TextureError::NotFound(n) && n == id),
    {
        match self.textures.get(&id) {
            Some(t) => Ok(t),
            None => Err(TextureError::NotFound(id)),
        }
    }

    /// Mutable access to texture `id`. Whatever is written through it is the
    /// texture afterwards.
    pub fn get_texture_mut(&mut self, id: u32) -> (r: Result<&mut Texture, TextureError>)
        ensures
            final(self).spec_samplers() == old(self).spec_samplers(),
            final(self).spec_next_id() == old(self).spec_next_id(),
            final(self).spec_next_sampler_id() == old(self).spec_next_sampler_id(),
            r is Ok <==> old(self).spec_textures().contains_key(id),
            r matches Ok(t) ==> *t == old(self).spec_textures()[id] && final(self).spec_textures()
                == old(self).spec_textures().insert(id, *final(t)),
            r matches Err(e) ==> (e matches TextureError::NotFound(n) && n == id)
                && final(self).spec_textures() == old(self).spec_textures(),
    {
        broadcast use vstd::std_specs::hash::axiom_has_resolved_vacant_entry;
        match self.textures.entry(id) {
            Entry::Occupied(o) => Ok(o.into_mut()),
            Entry::Vacant(_) => {
                assert(old(self).textures@.remove(id) =~= old(self).textures@);
                Err(TextureError::NotFound(id))
            },
        }
    }

    /// Removes texture `id`.
    pub fn delete_texture(&mut self, id: u32) -> (r: Result<(), TextureError>)
        requires
            old(self).wf(),
        ensures
            final(self).wf(),
            final(self).spec_samplers() == old(self).spec_samplers(),
            final(self).spec_next_id() == old(self).spec_next_id(),
            final(self).spec_next_sampler_id() == old(self).spec_next_sampler_id(),
            r is Ok <==> old(self).spec_textures().contains_key(id),
            final(self).spec_textures() == old(self).spec_textures().remove(id),
            r matches Err(e) ==> (e matches TextureError::NotFound(n) && n == id),
    {
        let r = match self.textures.remove(&id) {
            Some(_) => Ok(()),
            None => Err(TextureError::NotFound(id)),
        };
        assert forall|k: u32| #[trigger] self.textures@.contains_key(k) implies k < self.next_id
            && spec_texture_sized(self.textures@[k]) by {
            assert(old(self).textures@.contains_key(k));
        }
        r
    }

    pub fn texture_count(&self) -> (r: usize)
        ensures
            r == self.spec_textures().dom().len(),
    {
        self.textures.len()
    }

    /// Stores `desc` under the next sampler id and returns that id.
    pub fn create_sampler(&mut self, desc: SamplerDescriptor) -> (r: u32)
        requires
            old(self).wf(),
            old(self).spec_next_sampler_id() < u32::MAX,
        ensures
            final(self).wf(),
            r == old(self).spec_next_sampler_id(),
            !old(self).spec_samplers().contains_key(r),
            final(self).spec_samplers() == old(self).spec_samplers().insert(r, desc),
            final(self).spec_next_sampler_id() == r + 1,
            final(self).spec_textures() == old(self).spec_textures(),
            final(self).spec_next_id() == old(self).spec_next_id(),
    {
        let id = self.next_sampler_id;
        self.next_sampler_id = self.next_sampler_id + 1;
        self.samplers.insert(id, desc);
        assert forall|k: u32| #[trigger] self.samplers@.contains_key(k) implies k < self.next_sampler_id by {
            if k != id {
                assert(old(self).samplers@.contains_key(k));
            }
        }
        id
    }

    pub fn get_sampler(&self, id: u32) -> (r: Option<&SamplerDescriptor>)
        ensures
            r is Some <==> self.spec_samplers().contains_key(id),
            r matches Some(s) ==> *s == self.spec_samplers()[id],
    {
        self.samplers.get(&id)
    }

    /// Removes sampler `id`; says whether it existed.
    pub fn delete_sampler(&mut self, id: u32) -> (r: bool)
        requires
            old(self).wf(),
        ensures
            final(self).wf(),
            r == old(self).spec_samplers().contains_key(id),
            final(self).spec_samplers() == old(self).spec_samplers().remove(id),
            final(self).spec_textures() == old(self).spec_textures(),
            final(self).spec_next_id() == old(self).spec_next_id(),
            final(self).spec_next_sampler_id() == old(self).spec_next_sampler_id(),
    {
        let r = self.samplers.remove(&id).is_some();
        assert forall|k: u32| #[trigger] self.samplers@.contains_key(k) implies k < self.next_sampler_id by {
            assert(old(self).samplers@.contains_key(k));
        }
        r
    }
}

/// Well-formedness depends only on the textures, samplers and next ids.
pub proof fn lemma_views_keep_wf(a: &TextureManager, b: &TextureManager)
    requires
        a.wf(),
        b.spec_textures() == a.spec_textures(),
        b.spec_samplers() == a.spec_samplers(),
        b.spec_next_id() == a.spec_next_id(),
        b.spec_next_sampler_id() == a.spec_next_sampler_id(),
    ensures
        b.wf(),
{
}

/// In a well-formed manager every texture holds exactly the bytes its
/// descriptor calls for.
pub proof fn lemma_wf_texture_sized(a: &TextureManager, id: u32)
    requires
        a.wf(),
        a.spec_textures().contains_key(id),
    ensures
        spec_texture_sized(a.spec_textures()[id]),
{
}

/// Replacing an existing texture by one that holds exactly the bytes its
/// descriptor calls for keeps the manager well formed.
pub proof fn lemma_replace_keeps_wf(a: &TextureManager, b: &TextureManager, id: u32)
    requires
        a.wf(),
        a.spec_textures().contains_key(id),
        b.spec_textures() == a.spec_textures().insert(id, b.spec_textures()[id]),
        spec_texture_sized(b.spec_textures()[id]),
        b.spec_samplers() == a.spec_samplers(),
        b.spec_next_id() == a.spec_next_id(),
        b.spec_next_sampler_id() == a.spec_next_sampler_id(),
    ensures
        b.wf(),
{
    assert forall|k: u32| #[trigger] b.textures@.contains_key(k) implies k < b.next_id
        && spec_texture_sized(b.textures@[k]) by {
        if k != id {
            assert(a.textures@.contains_key(k));
        }
    }
}

/// The texture holds exactly the bytes its descriptor calls for.
pub open spec fn spec_texture_sized(t: Texture) -> bool {
    t.data@.len() == t.descriptor.spec_data_size()
}

impl Default for TextureManager {
    fn default() -> (r: Self)
        ensures
            r.wf(),
            r.spec_textures().is_empty(),
            r.spec_samplers().is_empty(),
            r.spec_next_id() == 1,
            r.spec_next_sampler_id() == 1,
    {
        Self::new()
    }
}

/// A texture upload is read back unchanged: after `upload_texture(id, data)`
/// succeeds, `download_texture(id)` gives `data`, and every other texture is
/// unchanged.
pub proof fn law_upload_then_download(before: Map<u32, Texture>, after: Map<u32, Texture>, id: u32, data: Seq<u8>)
    requires
        before.contains_key(id),
        after.dom() == before.dom(),
        after[id].data@ == data,
        forall|k: u32| k != id ==> #[trigger] after[k] == before[k],
    ensures
        after.contains_key(id),
        after[id].data@ == data,
        forall|k: u32| k != id && before.contains_key(k) ==> after.contains_key(k) && (#[trigger] after[k]).data@
            == before[k].data@,
{
}

} // verus!
