use crate::shader::{spec_file_kind, ShaderFileKind, ShaderLoadError, ShaderMeta, ShaderSource};
use crate::shader_reflect::{bindings_built, GlobalBinding, ModuleDesc, TypeDesc};
use vstd::prelude::*;
use wgpu::naga;

verus! {

/// A shader module as naga parsed it.
#[verifier::external_type_specification]
#[verifier::external_body]
pub struct ExNagaModule(naga::Module);

/// The kind of a naga scalar.
#[verifier::external_type_specification]
#[verifier::external_body]
pub struct ExNagaScalarKind(naga::ScalarKind);

/// The size of a naga vector.
#[verifier::external_type_specification]
#[verifier::external_body]
pub struct ExNagaVectorSize(naga::VectorSize);

/// The dimension of a naga image.
#[verifier::external_type_specification]
#[verifier::external_body]
pub struct ExNagaImageDimension(naga::ImageDimension);

/// The address space of a naga global variable.
#[verifier::external_type_specification]
#[verifier::external_body]
pub struct ExNagaAddressSpace(naga::AddressSpace);

/// One level of a naga type: nested types are named by their position in
/// the module's types.
pub enum TypeNode {
    Scalar(naga::ScalarKind),
    Vector(naga::VectorSize),
    Matrix(naga::VectorSize, naga::VectorSize),
    Array { base: usize },
    Struct { members: usize },
    Image { dim: naga::ImageDimension, arrayed: bool },
    Sampler { comparison: bool },
    Other,
}

/// A global variable of a naga module: its binding (group and slot), if it
/// has one, where it lives, and the position of its type.
pub struct GlobalNode {
    pub binding: Option<(u32, u32)>,
    pub space: naga::AddressSpace,
    pub ty: usize,
}

/// What the bytes hold read as UTF-8 text; `None` when they are not UTF-8.
pub uninterp spec fn utf8_text(bytes: Seq<u8>) -> Option<Seq<char>>;

/// Calls `String::from_utf8`: the text the bytes hold exactly when they are
/// UTF-8 (`utf8_text`). The error's text is std's and is not stated.
#[verifier::external_body]
fn utf8_string(bytes: Vec<u8>) -> (r: Result<String, String>)
    ensures
        match r {
            Ok(s) => utf8_text(bytes@) == Some(s@),
            Err(_) => utf8_text(bytes@) is None,
        },
{
    match String::from_utf8(bytes) {
        Ok(s) => Ok(s),
        Err(e) => Err(e.to_string()),
    }
}

/// Calls `format!("{:?}", ext)`: std's `Debug` text of the extension;
/// `None` reads as "None". The text of `Some(..)` (with its escapes) is
/// not stated.
#[verifier::external_body]
fn debug_text(ext: Option<&str>) -> (r: String)
    ensures
        ext is None ==> r@ == "None"@,
{
    format!("{:?}", ext)
}

/// Calls `naga::front::wgsl::parse_str`; the module is opaque here, and the
/// error's text is naga's.
#[verifier::external_body]
fn parse_wgsl(text: &str) -> (r: Result<naga::Module, String>) {
    match naga::front::wgsl::parse_str(text) {
        Ok(m) => Ok(m),
        Err(e) => Err(e.to_string()),
    }
}

/// Calls `naga::front::spv::parse_u8_slice` with the default options; the
/// module is opaque here, and the error's text is naga's.
#[verifier::external_body]
fn parse_spirv(bytes: &[u8]) -> (r: Result<naga::Module, String>) {
    match naga::front::spv::parse_u8_slice(bytes, &naga::front::spv::Options::default()) {
        Ok(m) => Ok(m),
        Err(e) => Err(e.to_string()),
    }
}

/// Calls `naga::valid::Validator::validate` with every flag and capability;
/// the error's text is naga's.
#[verifier::external_body]
fn validate_module(module: &naga::Module) -> (r: Result<(), String>) {
    let mut v = naga::valid::Validator::new(naga::valid::ValidationFlags::all(), naga::valid::Capabilities::all());
    match v.validate(module) {
        Ok(_) => Ok(()),
        Err(e) => Err(e.to_string()),
    }
}

/// The name of the module's first entry point, if it has one.
#[verifier::external_body]
fn entry_name(module: &naga::Module) -> (r: Option<String>) {
    module.entry_points.first().map(|e| e.name.clone())
}

/// The number of global variables of the module (`Arena::len`).
#[verifier::external_body]
fn global_count(module: &naga::Module) -> (r: usize) {
    module.global_variables.len()
}

/// The global variable at position `g`, in the order of the module's arena.
#[verifier::external_body]
fn global_at(module: &naga::Module, g: usize) -> (r: Option<GlobalNode>) {
    let (_, var) = module.global_variables.iter().nth(g)?;
    Some(GlobalNode {
        binding: var.binding.as_ref().map(|b| (b.group, b.binding)),
        space: var.space,
        ty: var.ty.index(),
    })
}

/// The number of types of the module (`UniqueArena::len`).
#[verifier::external_body]
fn type_count(module: &naga::Module) -> (r: usize) {
    module.types.len()
}

/// The type at position `t`, one level deep.
#[verifier::external_body]
fn type_at(module: &naga::Module, t: usize) -> (r: Option<TypeNode>) {
    let (_, ty) = module.types.iter().nth(t)?;
    Some(match &ty.inner {
        naga::TypeInner::Scalar(s) => TypeNode::Scalar(s.kind),
        naga::TypeInner::Vector { size, .. } => TypeNode::Vector(*size),
        naga::TypeInner::Matrix { columns, rows, .. } => TypeNode::Matrix(*columns, *rows),
        naga::TypeInner::Array { base, .. } => TypeNode::Array { base: base.index() },
        naga::TypeInner::Struct { members, .. } => TypeNode::Struct { members: members.len() },
        naga::TypeInner::Image { dim, arrayed, .. } => TypeNode::Image { dim: *dim, arrayed: *arrayed },
        naga::TypeInner::Sampler { comparison } => TypeNode::Sampler { comparison: *comparison },
        _ => TypeNode::Other,
    })
}

/// The fixed length of the array type at position `t`; `None` for a
/// runtime-sized array or a type that is no array.
#[verifier::external_body]
fn array_length_at(module: &naga::Module, t: usize) -> (r: Option<u32>) {
    let (_, ty) = module.types.iter().nth(t)?;
    match &ty.inner {
        naga::TypeInner::Array { size: naga::ArraySize::Constant(n), .. } => Some(n.get()),
        _ => None,
    }
}

/// The position of the type of member `k` of the struct type at position `t`.
#[verifier::external_body]
fn member_type_at(module: &naga::Module, t: usize, k: usize) -> (r: Option<usize>) {
    let (_, ty) = module.types.iter().nth(t)?;
    match &ty.inner {
        naga::TypeInner::Struct { members, .. } => members.get(k).map(|m| m.ty.index()),
        _ => None,
    }
}

/// The library's scalar kind of a naga scalar kind, variant for variant.
#[verifier::external_body]
fn scalar_kind_of(k: naga::ScalarKind) -> (r: crate::shader_reflect::ScalarClass) {
    match k {
        naga::ScalarKind::Sint => crate::shader_reflect::ScalarClass::Sint,
        naga::ScalarKind::Uint => crate::shader_reflect::ScalarClass::Uint,
        naga::ScalarKind::Float => crate::shader_reflect::ScalarClass::Float,
        naga::ScalarKind::Bool => crate::shader_reflect::ScalarClass::Bool,
        naga::ScalarKind::AbstractInt => crate::shader_reflect::ScalarClass::AbstractInt,
        naga::ScalarKind::AbstractFloat => crate::shader_reflect::ScalarClass::AbstractFloat,
    }
}

/// The library's vector size of a naga vector size, variant for variant.
#[verifier::external_body]
fn vector_size_of(s: naga::VectorSize) -> (r: crate::shader_reflect::VectorLen) {
    match s {
        naga::VectorSize::Bi => crate::shader_reflect::VectorLen::Bi,
        naga::VectorSize::Tri => crate::shader_reflect::VectorLen::Tri,
        naga::VectorSize::Quad => crate::shader_reflect::VectorLen::Quad,
    }
}

/// The library's image dimension of a naga one, variant for variant.
#[verifier::external_body]
fn image_dimension_of(d: naga::ImageDimension) -> (r: crate::shader_reflect::ImageDim) {
    match d {
        naga::ImageDimension::D1 => crate::shader_reflect::ImageDim::D1,
        naga::ImageDimension::D2 => crate::shader_reflect::ImageDim::D2,
        naga::ImageDimension::D3 => crate::shader_reflect::ImageDim::D3,
        naga::ImageDimension::Cube => crate::shader_reflect::ImageDim::Cube,
    }
}

/// The library's address space of a naga one: uniform, storage with its
/// load and store access (`StorageAccess::contains`), or any other.
#[verifier::external_body]
fn address_space_of(space: naga::AddressSpace) -> (r: crate::shader_reflect::VariableSpace) {
    match space {
        naga::AddressSpace::Uniform => crate::shader_reflect::VariableSpace::Uniform,
        naga::AddressSpace::Storage { access } => crate::shader_reflect::VariableSpace::Storage {
            load: access.contains(naga::StorageAccess::LOAD),
            store: access.contains(naga::StorageAccess::STORE),
        },
        _ => crate::shader_reflect::VariableSpace::Other,
    }
}

/// The type at position `t`, followed at most `depth` levels down (naga
/// types only name types placed before them); a type that cannot be read,
/// or lies deeper, reads as `Other`.
fn type_desc(module: &naga::Module, t: usize, depth: usize) -> (r: TypeDesc)
    decreases depth,
{
    if depth == 0 {
        return TypeDesc::Other;
    }
    match type_at(module, t) {
        None => TypeDesc::Other,
        Some(TypeNode::Scalar(k)) => TypeDesc::Scalar(scalar_kind_of(k)),
        Some(TypeNode::Vector(s)) => TypeDesc::Vector(vector_size_of(s)),
        Some(TypeNode::Matrix(c, r)) => TypeDesc::Matrix { columns: vector_size_of(c), rows: vector_size_of(r) },
        Some(TypeNode::Array { base }) => {
            let count = array_length_at(module, t);
            TypeDesc::Array { base: Box::new(type_desc(module, base, depth - 1)), count }
        },
        Some(TypeNode::Struct { members }) => {
            let mut descs: Vec<TypeDesc> = Vec::new();
            let mut k: usize = 0;
            while k < members
                invariant
                    k <= members,
                    depth > 0,
                decreases members - k,
            {
                let d = match member_type_at(module, t, k) {
                    Some(m) => type_desc(module, m, depth - 1),
                    None => TypeDesc::Other,
                };
                descs.push(d);
                k = k + 1;
            }
            TypeDesc::Struct(descs)
        },
        Some(TypeNode::Image { dim, arrayed }) => TypeDesc::Image { dim: image_dimension_of(dim), arrayed },
        Some(TypeNode::Sampler { comparison }) => TypeDesc::Sampler { comparison },
        Some(TypeNode::Other) => TypeDesc::Other,
    }
}

/// The first entry point and the bound global variables (those with a
/// binding), in order, of a parsed module; `None` without an entry point.
fn describe_module(module: &naga::Module) -> (r: Option<ModuleDesc>) {
    let entry = match entry_name(module) {
        Some(e) => e,
        None => {
            return None;
        },
    };
    let depth = type_count(module);
    let n = global_count(module);
    let mut globals: Vec<GlobalBinding> = Vec::new();
    let mut g: usize = 0;
    while g < n
        invariant
            g <= n,
        decreases n - g,
    {
        match global_at(module, g) {
            Some(GlobalNode { binding: Some((group, binding)), space, ty }) => {
                let space = address_space_of(space);
                let ty = type_desc(module, ty, depth);
                globals.push(GlobalBinding { group, binding, space, ty });
            },
            _ => {},
        }
        g = g + 1;
    }
    Some(ModuleDesc { entry, globals })
}

/// `meta` is what `ShaderMeta::from_module` makes of `module`: its entry
/// point, no inputs, outputs or instance count, and the bindings of its
/// bound globals.
pub open spec fn meta_of_module(meta: ShaderMeta, module: ModuleDesc) -> bool {
    &&& meta.spec_entry() == module.entry@
    &&& meta.spec_inputs().len() == 0
    &&& meta.spec_outputs().len() == 0
    &&& meta.spec_instances() == None::<u32>
    &&& bindings_built(module.globals@, meta.spec_bindings())
}

/// `meta` is what `ShaderMeta::from_module` makes of some module description.
pub open spec fn meta_of_some_module(meta: ShaderMeta) -> bool {
    exists|d: ModuleDesc| #[trigger] meta_of_module(meta, d)
}

/// The metadata of a parsed and validated module, or the text of why there
/// is none (naga's refusal, or a module without an entry point).
fn module_meta(module: &naga::Module) -> (r: Result<ShaderMeta, String>)
    ensures
        r matches Ok(meta) ==> meta_of_some_module(meta),
{
    match validate_module(module) {
        Ok(()) => {},
        Err(e) => {
            return Err(e);
        },
    }
    match describe_module(module) {
        Some(desc) => {
            let meta = ShaderMeta::from_module(&desc);
            assert(meta_of_module(meta, desc));
            assert(meta_of_some_module(meta));
            Ok(meta)
        },
        None => Err(String::from_str("the module has no entry point")),
    }
}

/// What a shader file of extension `ext` holds, when the extension is a
/// shader's.
pub open spec fn import_kind(ext: Option<&str>) -> Option<ShaderFileKind> {
    match ext {
        Some(e) => spec_file_kind(e@),
        None => None,
    }
}

impl ShaderSource {
    /// Reads a shader file from its extension and bytes:
    /// - an extension that is no shader's is an `InvalidExt` error,
    ///   "Invalid extension: " and the extension's `Debug` text;
    /// - GLSL (`vert`, `frag`, `comp`): the text for that stage;
    /// - WGSL: the text, parsed and validated by naga, with its metadata;
    /// - SPIR-V: each byte as a word, parsed and validated by naga, with its
    ///   metadata.
    /// Text that is not UTF-8 is an `Io` error; what naga refuses, or a
    /// module without an entry point, is a `Parse` error.
    pub fn import(ext: Option<&str>, bytes: Vec<u8>) -> (r: Result<ShaderSource, ShaderLoadError>)
        ensures
            import_kind(ext) is None ==> (r matches Err(ShaderLoadError::InvalidExt(m)) && (ext is None ==> m@
                == "Invalid extension: None"@)),
            import_kind(ext) matches Some(ShaderFileKind::Glsl(stage)) ==> match utf8_text(bytes@) {
                Some(text) => r matches Ok(ShaderSource::Glsl { data, stage: s }) && data@ == text && s == stage,
                None => r matches Err(ShaderLoadError::Io(_)),
            },
            import_kind(ext) == Some(ShaderFileKind::Wgsl) ==> match utf8_text(bytes@) {
                Some(text) => match r {
                    Ok(ShaderSource::Wgsl { data, meta }) => data@ == text && meta_of_some_module(meta),
                    Err(ShaderLoadError::Parse(_)) => true,
                    _ => false,
                },
                None => r matches Err(ShaderLoadError::Io(_)),
            },
            import_kind(ext) == Some(ShaderFileKind::Spirv) ==> match r {
                Ok(ShaderSource::Spirv { data, meta }) => {
                    &&& data@.len() == bytes@.len()
                    &&& forall|i: int| 0 <= i < bytes@.len() ==> #[trigger] data@[i] == bytes@[i] as u32
                    &&& meta_of_some_module(meta)
                },
                Err(ShaderLoadError::Parse(_)) => true,
                _ => false,
            },
    {
        let kind = match ext {
            Some(e) => ShaderSource::file_kind(e),
            None => None,
        };
        match kind {
            None => {
                let mut m = String::from_str("Invalid extension: ");
                let d = debug_text(ext);
                m.append(d.as_str());
                proof {
                    reveal_strlit("Invalid extension: ");
                    reveal_strlit("None");
                    reveal_strlit("Invalid extension: None");
                }
                Err(ShaderLoadError::InvalidExt(m))
            },
            Some(ShaderFileKind::Glsl(stage)) => match utf8_string(bytes) {
                Ok(data) => Ok(ShaderSource::Glsl { data, stage }),
                Err(e) => Err(ShaderLoadError::Io(e)),
            },
            Some(ShaderFileKind::Wgsl) => {
                let data = match utf8_string(bytes) {
                    Ok(data) => data,
                    Err(e) => {
                        return Err(ShaderLoadError::Io(e));
                    },
                };
                let module = match parse_wgsl(data.as_str()) {
                    Ok(m) => m,
                    Err(e) => {
                        return Err(ShaderLoadError::Parse(e));
                    },
                };
                match module_meta(&module) {
                    Ok(meta) => Ok(ShaderSource::Wgsl { data, meta }),
                    Err(e) => Err(ShaderLoadError::Parse(e)),
                }
            },
            Some(ShaderFileKind::Spirv) => {
                let module = match parse_spirv(bytes.as_slice()) {
                    Ok(m) => m,
                    Err(e) => {
                        return Err(ShaderLoadError::Parse(e));
                    },
                };
                match module_meta(&module) {
                    Ok(meta) => Ok(ShaderSource::spirv_from_bytes(bytes.as_slice(), meta)),
                    Err(e) => Err(ShaderLoadError::Parse(e)),
                }
            },
        }
    }
}

} // verus!
