use crate::graph_resources::{GraphResources, Id, RenderGraphTexture};
use vstd::prelude::*;

verus! {

/// What a pass draws into: the surface, or a texture of the graph.
pub enum Attachment {
    Surface,
    Texture(Id<RenderGraphTexture>),
}

/// What happens to an attachment's contents at the end of a pass.
#[derive(Clone, Copy, PartialEq, Eq, Structural, Debug)]
pub enum StoreOp {
    Store,
    /// The contents are discarded.
    Clear,
}

/// What an attachment holds at the start of a pass.
#[derive(Clone, Copy, Debug)]
pub enum LoadOp<T> {
    Clear(T),
    Load,
}

/// How a pass loads and stores an attachment.
#[derive(Clone, Copy, Debug)]
pub struct Operations<T> {
    pub load: LoadOp<T>,
    pub store: StoreOp,
}

/// A colour attachment of a pass; `C` is the clear colour.
pub struct ColorAttachment<C> {
    pub attachment: Attachment,
    pub resolve_target: Option<Attachment>,
    pub store_op: StoreOp,
    pub clear: Option<C>,
}

/// The depth (and stencil) attachment of a pass; `D` is the clear depth.
pub struct DepthAttachment<D> {
    pub attachment: Attachment,
    pub depth_store_op: Operations<D>,
    pub stencil_store_op: Option<Operations<u32>>,
}

/// A render pass: its colour attachments and optional depth attachment.
pub struct RenderPass<C, D> {
    pub colors: Vec<ColorAttachment<C>>,
    pub depth: Option<DepthAttachment<D>>,
}

/// A colour attachment as the device begins the pass with it.
#[derive(Clone, Copy, Debug)]
pub struct ColorTarget<C> {
    pub view: u64,
    pub resolve_target: Option<u64>,
    pub ops: Operations<C>,
}

/// The depth attachment as the device begins the pass with it.
#[derive(Clone, Copy, Debug)]
pub struct DepthTarget<D> {
    pub view: u64,
    pub depth_ops: Operations<D>,
    pub stencil_ops: Option<Operations<u32>>,
}

/// What the device begins a render pass with.
pub struct PassDescriptor<C, D> {
    pub colors: Vec<ColorTarget<C>>,
    pub depth: Option<DepthTarget<D>>,
}

/// The texture view an attachment draws into: the surface's colour view, or
/// the view of the graph texture; `None` when that is missing.
pub open spec fn attachment_view(
    a: Attachment,
    surface: Option<u64>,
    textures: Map<u32, RenderGraphTexture>,
) -> Option<u64> {
    match a {
        Attachment::Surface => surface,
        Attachment::Texture(id) => if textures.contains_key(id.spec_id()) {
            Some(textures[id.spec_id()].view)
        } else {
            None
        },
    }
}

/// The load of a colour attachment: the pass's clear colour first, then the
/// attachment's own, else the contents are kept.
pub open spec fn color_load<C>(clear: Option<C>, own: Option<C>) -> LoadOp<C> {
    match clear {
        Some(c) => LoadOp::Clear(c),
        None => match own {
            Some(c) => LoadOp::Clear(c),
            None => LoadOp::Load,
        },
    }
}

/// Whether every view that a colour attachment names can be found.
pub open spec fn color_resolves<C>(
    c: ColorAttachment<C>,
    surface: Option<u64>,
    textures: Map<u32, RenderGraphTexture>,
) -> bool {
    &&& attachment_view(c.attachment, surface, textures) is Some
    &&& c.resolve_target matches Some(t) ==> attachment_view(t, surface, textures) is Some
}

/// The device form of a colour attachment whose views can all be found.
pub open spec fn color_target<C>(
    c: ColorAttachment<C>,
    surface: Option<u64>,
    textures: Map<u32, RenderGraphTexture>,
    clear: Option<C>,
) -> ColorTarget<C> {
    ColorTarget {
        view: attachment_view(c.attachment, surface, textures).unwrap(),
        resolve_target: match c.resolve_target {
            Some(t) => attachment_view(t, surface, textures),
            None => None,
        },
        ops: Operations { load: color_load(clear, c.clear), store: c.store_op },
    }
}

fn view_of(a: &Attachment, surface: Option<u64>, resources: &GraphResources) -> (r: Option<u64>)
    ensures
        r == attachment_view(*a, surface, resources@.textures),
{
    match a {
        Attachment::Surface => surface,
        Attachment::Texture(id) => match resources.texture(id) {
            Some(t) => Some(t.view),
            None => None,
        },
    }
}

impl<C: Copy, D: Copy> RenderPass<C, D> {
    /// A pass with no attachment.
    pub fn new() -> (r: RenderPass<C, D>)
        ensures
            r.colors@.len() == 0,
            r.depth is None,
    {
        RenderPass { colors: Vec::new(), depth: None }
    }

    /// Adds a colour attachment.
    pub fn with_color(self, attachment: Attachment, resolve_target: Option<Attachment>, store_op: StoreOp, clear: Option<C>) -> (r:
        RenderPass<C, D>)
        ensures
            r.colors@ == self.colors@.push(ColorAttachment { attachment, resolve_target, store_op, clear }),
            r.depth == self.depth,
    {
        let mut pass = self;
        pass.colors.push(ColorAttachment { attachment, resolve_target, store_op, clear });
        pass
    }

    /// Sets the depth attachment.
    pub fn with_depth(self, attachment: Attachment, depth_store_op: Operations<D>, stencil_store_op: Option<
        Operations<u32>,
    >) -> (r: RenderPass<C, D>)
        ensures
            r.colors@ == self.colors@,
            r.depth == Some(DepthAttachment { attachment, depth_store_op, stencil_store_op }),
    {
        let mut pass = self;
        pass.depth = Some(DepthAttachment { attachment, depth_store_op, stencil_store_op });
        pass
    }

    /// What the device begins the pass with, drawing to the surface view
    /// `surface` (if it has one) and the graph's textures. A `clear` colour
    /// overrides each attachment's own. `None` when a view that an attachment
    /// names cannot be found.
    pub fn begin(&self, surface: Option<u64>, resources: &GraphResources, clear: Option<C>) -> (r: Option<
        PassDescriptor<C, D>,
    >)
        ensures
            match r {
                Some(d) => {
                    &&& forall|i: int|
                        0 <= i < self.colors@.len() ==> color_resolves(
                            #[trigger] self.colors@[i],
                            surface,
                            resources@.textures,
                        )
                    &&& d.colors@.len() == self.colors@.len()
                    &&& forall|i: int|
                        0 <= i < self.colors@.len() ==> #[trigger] d.colors@[i] == color_target(
                            self.colors@[i],
                            surface,
                            resources@.textures,
                            clear,
                        )
                    &&& match self.depth {
                        Some(a) => attachment_view(a.attachment, surface, resources@.textures) matches Some(v)
                            && d.depth == Some(
                            DepthTarget { view: v, depth_ops: a.depth_store_op, stencil_ops: a.stencil_store_op },
                        ),
                        None => d.depth is None,
                    }
                },
                None => (exists|i: int|
                    0 <= i < self.colors@.len() && !color_resolves(
                        #[trigger] self.colors@[i],
                        surface,
                        resources@.textures,
                    )) || (self.depth matches Some(a) && attachment_view(
                    a.attachment,
                    surface,
                    resources@.textures,
                ) is None),
            },
    {
        let mut colors: Vec<ColorTarget<C>> = Vec::new();
        let mut i: usize = 0;
        while i < self.colors.len()
            invariant
                0 <= i <= self.colors@.len(),
                colors@.len() == i,
                forall|j: int|
                    0 <= j < i ==> color_resolves(#[trigger] self.colors@[j], surface, resources@.textures),
                forall|j: int|
                    0 <= j < i ==> #[trigger] colors@[j] == color_target(
                        self.colors@[j],
                        surface,
                        resources@.textures,
                        clear,
                    ),
            decreases self.colors.len() - i,
        {
            let color = &self.colors[i];
            let view = match view_of(&color.attachment, surface, resources) {
                Some(v) => v,
                None => {
                    return None;
                },
            };
            let resolve_target = match &color.resolve_target {
                Some(t) => match view_of(t, surface, resources) {
                    Some(v) => Some(v),
                    None => {
                        return None;
                    },
                },
                None => None,
            };
            let load = match clear {
                Some(c) => LoadOp::Clear(c),
                None => match color.clear {
                    Some(c) => LoadOp::Clear(c),
                    None => LoadOp::Load,
                },
            };
            colors.push(ColorTarget { view, resolve_target, ops: Operations { load, store: color.store_op } });
            i = i + 1;
        }
        let depth = match &self.depth {
            Some(a) => match view_of(&a.attachment, surface, resources) {
                Some(v) => Some(DepthTarget { view: v, depth_ops: a.depth_store_op, stencil_ops: a.stencil_store_op }),
                None => {
                    return None;
                },
            },
            None => None,
        };
        Some(PassDescriptor { colors, depth })
    }
}

} // verus!
