//! The description of a frame: its render targets, its passes, and what a
//! render pass object is asked to be for them.

use vstd::prelude::*;

verus! {

/// The format code of a 16 bit depth target.
pub const FORMAT_D16_UNORM: u32 = 124;

/// The format code of the packed 10 bit colour target that holds albedo.
pub const FORMAT_A2B10G10R10_UNORM_PACK32: u32 = 64;

/// The format code of the half-float target that holds normals.
pub const FORMAT_R16G16B16A16_SFLOAT: u32 = 97;

/// What happens to a target when a pass begins.
#[derive(Clone, Copy, Debug, PartialEq, Eq, Structural)]
pub enum LoadOp {
    Load,
    Clear,
    DontCare,
}

/// What happens to a target when a pass ends.
#[derive(Clone, Copy, Debug, PartialEq, Eq, Structural)]
pub enum StoreOp {
    Store,
    DontCare,
}

/// How the memory of an image is laid out for its use.
#[derive(Clone, Copy, Debug, PartialEq, Eq, Structural)]
pub enum ImageLayout {
    ColorAttachmentOptimal,
    DepthStencilAttachmentOptimal,
    ShaderReadOnlyOptimal,
}

#[derive(Clone, Copy, Debug, PartialEq, Eq, Structural)]
pub struct FrameGraphRenderTargetDesc {
    pub load_op: LoadOp,
    pub store_op: StoreOp,
    pub format: u32,
    pub sample_count: u32,
}

/// One pass, by the indices of the targets that it writes and reads.
#[derive(Clone, Debug, PartialEq, Eq)]
pub struct FrameGraphRenderPassDesc {
    pub render_targets: Vec<usize>,
    pub depth_stencil_target: Option<usize>,
    pub input_targets: Vec<usize>,
}

#[derive(Clone, Debug, PartialEq, Eq)]
pub struct FrameGraphDesc {
    pub render_target_descs: Vec<FrameGraphRenderTargetDesc>,
    pub render_pass_descs: Vec<FrameGraphRenderPassDesc>,
}

/// One attachment of a render pass.
#[derive(Clone, Copy, Debug, PartialEq, Eq, Structural)]
pub struct AttachmentDescription {
    pub format: u32,
    pub samples: u32,
    pub load: LoadOp,
    pub store: StoreOp,
    pub stencil_load: LoadOp,
    pub stencil_store: StoreOp,
    pub initial_layout: ImageLayout,
    pub final_layout: ImageLayout,
}

/// One subpass of a render pass: the attachments it uses, each with the
/// layout it is used in. Nothing is resolved and nothing preserved.
#[derive(Clone, Debug, PartialEq, Eq)]
pub struct PassDescription {
    pub color_attachments: Vec<(usize, ImageLayout)>,
    pub depth_stencil: Option<(usize, ImageLayout)>,
    pub input_attachments: Vec<(usize, ImageLayout)>,
}

/// That one subpass waits for another. It waits for all graphics stages and
/// all kinds of access, region by region.
#[derive(Clone, Copy, Debug, PartialEq, Eq, Structural)]
pub struct PassDependencyDescription {
    pub source_subpass: usize,
    pub destination_subpass: usize,
    pub by_region: bool,
}

/// The layout in which a target of the given format is attached: depth
/// targets as depth, all others as colour.
pub open spec fn layout_of(format: u32) -> ImageLayout {
    if format == FORMAT_D16_UNORM {
        ImageLayout::DepthStencilAttachmentOptimal
    } else {
        ImageLayout::ColorAttachmentOptimal
    }
}

/// The attachment that a render pass has for a target.
pub open spec fn attachment_of(target: FrameGraphRenderTargetDesc) -> AttachmentDescription {
    AttachmentDescription {
        format: target.format,
        samples: target.sample_count,
        load: target.load_op,
        store: target.store_op,
        stencil_load: target.load_op,
        stencil_store: target.store_op,
        initial_layout: layout_of(target.format),
        final_layout: layout_of(target.format),
    }
}

/// Each index with the given layout.
pub open spec fn with_layout(targets: Seq<usize>, layout: ImageLayout) -> Seq<
    (usize, ImageLayout),
> {
    Seq::new(targets.len(), |i: int| (targets[i], layout))
}

/// Pairs each index with `layout`.
pub fn attach(targets: &Vec<usize>, layout: ImageLayout) -> (attached: Vec<(usize, ImageLayout)>)
    ensures
        attached@ == with_layout(targets@, layout),
{
    let mut attached: Vec<(usize, ImageLayout)> = Vec::new();
    let mut i: usize = 0;
    while i < targets.len()
        invariant
            i <= targets.len(),
            attached@ == with_layout(targets@.take(i as int), layout),
        decreases targets.len() - i,
    {
        attached.push((targets[i], layout));
        assert(attached@ =~= with_layout(targets@.take(i + 1), layout));
        i += 1;
    }
    assert(targets@.take(i as int) =~= targets@);
    attached
}

impl FrameGraphDesc {
    pub fn new(
        rt_descs: Vec<FrameGraphRenderTargetDesc>,
        rp_descs: Vec<FrameGraphRenderPassDesc>,
    ) -> (desc: FrameGraphDesc)
        ensures
            desc.render_target_descs == rt_descs,
            desc.render_pass_descs == rp_descs,
    {
        FrameGraphDesc { render_target_descs: rt_descs, render_pass_descs: rp_descs }
    }

    /// The frame of deferred shading: a pass that fills the albedo, normal
    /// and depth targets, and a pass that reads the three and writes the
    /// output target, which has the given format.
    pub fn deferred(output_format: u32) -> (desc: FrameGraphDesc)
        ensures
            desc.render_target_descs@ == seq![
                FrameGraphRenderTargetDesc {
                    load_op: LoadOp::Clear,
                    store_op: StoreOp::DontCare,
                    format: output_format,
                    sample_count: 1,
                },
                FrameGraphRenderTargetDesc {
                    load_op: LoadOp::Clear,
                    store_op: StoreOp::Store,
                    format: FORMAT_A2B10G10R10_UNORM_PACK32,
                    sample_count: 1,
                },
                FrameGraphRenderTargetDesc {
                    load_op: LoadOp::Clear,
                    store_op: StoreOp::Store,
                    format: FORMAT_R16G16B16A16_SFLOAT,
                    sample_count: 1,
                },
                FrameGraphRenderTargetDesc {
                    load_op: LoadOp::Clear,
                    store_op: StoreOp::Store,
                    format: FORMAT_D16_UNORM,
                    sample_count: 1,
                },
            ],
            desc.render_pass_descs@.len() == 2,
            desc.render_pass_descs@[0].render_targets@ == seq![1usize, 2usize],
            desc.render_pass_descs@[0].depth_stencil_target == Some(3usize),
            desc.render_pass_descs@[0].input_targets@ == Seq::<usize>::empty(),
            desc.render_pass_descs@[1].render_targets@ == seq![0usize],
            desc.render_pass_descs@[1].depth_stencil_target == None::<usize>,
            desc.render_pass_descs@[1].input_targets@ == seq![1usize, 2usize, 3usize],
    {
        let targets = vec![
            FrameGraphRenderTargetDesc {
                load_op: LoadOp::Clear,
                store_op: StoreOp::DontCare,
                format: output_format,
                sample_count: 1,
            },
            FrameGraphRenderTargetDesc {
                load_op: LoadOp::Clear,
                store_op: StoreOp::Store,
                format: FORMAT_A2B10G10R10_UNORM_PACK32,
                sample_count: 1,
            },
            FrameGraphRenderTargetDesc {
                load_op: LoadOp::Clear,
                store_op: StoreOp::Store,
                format: FORMAT_R16G16B16A16_SFLOAT,
                sample_count: 1,
            },
            FrameGraphRenderTargetDesc {
                load_op: LoadOp::Clear,
                store_op: StoreOp::Store,
                format: FORMAT_D16_UNORM,
                sample_count: 1,
            },
        ];
        let geometry = FrameGraphRenderPassDesc {
            render_targets: vec![1, 2],
            depth_stencil_target: Some(3),
            input_targets: Vec::new(),
        };
        let lighting = FrameGraphRenderPassDesc {
            render_targets: vec![0],
            depth_stencil_target: None,
            input_targets: vec![1, 2, 3],
        };
        let passes = vec![geometry, lighting];
        FrameGraphDesc::new(targets, passes)
    }

    pub fn num_attachments(&self) -> (n: usize)
        ensures
            n == self.render_target_descs@.len(),
    {
        self.render_target_descs.len()
    }

    /// The attachment for the target at `id`, if there is such a target.
    pub fn attachment_desc(&self, id: usize) -> (attachment: Option<AttachmentDescription>)
        ensures
            attachment == if id < self.render_target_descs@.len() {
                Some(attachment_of(self.render_target_descs@[id as int]))
            } else {
                None
            },
    {
        if id >= self.render_target_descs.len() {
            return None;
        }
        let target = self.render_target_descs[id];
        let layout = if target.format == FORMAT_D16_UNORM {
            ImageLayout::DepthStencilAttachmentOptimal
        } else {
            ImageLayout::ColorAttachmentOptimal
        };
        Some(
            AttachmentDescription {
                format: target.format,
                samples: target.sample_count,
                load: target.load_op,
                store: target.store_op,
                stencil_load: target.load_op,
                stencil_store: target.store_op,
                initial_layout: layout,
                final_layout: layout,
            },
        )
    }

    pub fn num_subpasses(&self) -> (n: usize)
        ensures
            n == self.render_pass_descs@.len(),
    {
        self.render_pass_descs.len()
    }

    /// The subpass for the pass at `id`, if there is such a pass: its render
    /// targets as colour attachments, its depth target as depth attachment,
    /// its input targets as attachments that shaders read.
    pub fn subpass_desc(&self, id: usize) -> (subpass: Option<PassDescription>)
        ensures
            id >= self.render_pass_descs@.len() ==> subpass is None,
            id < self.render_pass_descs@.len() ==> {
                &&& subpass is Some
                &&& subpass.unwrap().color_attachments@ == with_layout(
                    self.render_pass_descs@[id as int].render_targets@,
                    ImageLayout::ColorAttachmentOptimal,
                )
                &&& subpass.unwrap().depth_stencil
                    == match self.render_pass_descs@[id as int].depth_stencil_target {
                    Some(target) => Some((target, ImageLayout::DepthStencilAttachmentOptimal)),
                    None => None,
                }
                &&& subpass.unwrap().input_attachments@ == with_layout(
                    self.render_pass_descs@[id as int].input_targets@,
                    ImageLayout::ShaderReadOnlyOptimal,
                )
            },
    {
        if id >= self.render_pass_descs.len() {
            return None;
        }
        let pass = &self.render_pass_descs[id];
        let depth_stencil = match pass.depth_stencil_target {
            Some(target) => Some((target, ImageLayout::DepthStencilAttachmentOptimal)),
            None => None,
        };
        Some(
            PassDescription {
                color_attachments: attach(
                    &pass.render_targets,
                    ImageLayout::ColorAttachmentOptimal,
                ),
                depth_stencil,
                input_attachments: attach(&pass.input_targets, ImageLayout::ShaderReadOnlyOptimal),
            },
        )
    }

    /// One dependency between each pass and the next.
    pub fn num_dependencies(&self) -> (n: usize)
        ensures
            n == if self.render_pass_descs@.len() == 0 {
                0
            } else {
                self.render_pass_descs@.len() - 1
            },
    {
        let passes = self.num_subpasses();
        if passes == 0 {
            0
        } else {
            passes - 1
        }
    }

    /// The dependency at `id`, if there is one: the pass after the pass at
    /// `id` waits for that pass.
    pub fn dependency_desc(&self, id: usize) -> (dependency: Option<PassDependencyDescription>)
        ensures
            dependency == if id + 1 < self.render_pass_descs@.len() {
                Some(
                    PassDependencyDescription {
                        source_subpass: id,
                        destination_subpass: (id + 1) as usize,
                        by_region: true,
                    },
                )
            } else {
                None
            },
    {
        if id >= self.num_subpasses() || id + 1 >= self.num_subpasses() {
            return None;
        }
        Some(
            PassDependencyDescription {
                source_subpass: id,
                destination_subpass: id + 1,
                by_region: true,
            },
        )
    }
}

} // verus!
