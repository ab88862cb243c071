//! The progressive renderer's node: its sampling inputs and what it hands
//! to the renderer each frame.
use vstd::prelude::*;
use crate::compile::{SceneNodeResponse, compiled};
use crate::graph::{Graph, Slot, node_at};
use crate::node::{Node, RenderNode, XraysRenderNode};
use crate::pin::NodePin;
use crate::render::Camera;
use crate::sampling::SamplingParams;
use crate::subscription::NodeId;

verus! {

impl XraysRenderNode {
    /// A render node with the default sampling, nothing wired, and a first
    /// frame that must be drawn.
    pub fn new(max_viewport_resolution: u32) -> (r: Self)
        ensures
            r.max_samples_per_pixel.current() == 256,
            r.num_samples_per_pixel.current() == 1,
            r.num_bounces.current() == 8,
            r.camera.current() is None,
            r.scene is None,
            r.max_viewport_resolution == max_viewport_resolution,
            r.force_redraw,
    {
        let sampling = SamplingParams::default();
        XraysRenderNode {
            max_samples_per_pixel: NodePin::new(sampling.max_samples_per_pixel),
            num_samples_per_pixel: NodePin::new(sampling.num_samples_per_pixel),
            num_bounces: NodePin::new(sampling.num_bounces),
            camera: NodePin::new(None),
            scene: None,
            max_viewport_resolution,
            force_redraw: true,
        }
    }

    pub open spec fn sampling_spec(&self) -> SamplingParams {
        SamplingParams {
            max_samples_per_pixel: self.max_samples_per_pixel.current(),
            num_samples_per_pixel: self.num_samples_per_pixel.current(),
            num_bounces: self.num_bounces.current(),
        }
    }

    pub fn sampling_params(&self) -> (r: SamplingParams)
        ensures
            r == self.sampling_spec(),
    {
        SamplingParams {
            max_samples_per_pixel: self.max_samples_per_pixel.get(),
            num_samples_per_pixel: self.num_samples_per_pixel.get(),
            num_bounces: self.num_bounces.get(),
        }
    }

    /// Returns input `pin` to its default: the three sampling inputs and the
    /// camera drop their wired value; unwiring the scene forces a redraw.
    /// Reports whether `pin` exists.
    pub fn reset_input(&mut self, pin: usize) -> (r: bool)
        ensures
            r == (pin < 5),
            final(self).max_viewport_resolution == old(self).max_viewport_resolution,
            pin == 0 ==> final(self).max_samples_per_pixel.value is None,
            pin == 1 ==> final(self).num_samples_per_pixel.value is None,
            pin == 2 ==> final(self).num_bounces.value is None,
            pin == 3 ==> final(self).camera.value is None,
            pin == 4 ==> final(self).scene is None && final(self).force_redraw,
            pin != 0 ==> final(self).max_samples_per_pixel == old(self).max_samples_per_pixel,
            pin != 1 ==> final(self).num_samples_per_pixel == old(self).num_samples_per_pixel,
            pin != 2 ==> final(self).num_bounces == old(self).num_bounces,
            pin != 3 ==> final(self).camera == old(self).camera,
            pin != 4 ==> final(self).scene == old(self).scene && final(self).force_redraw
                == old(self).force_redraw,
            final(self).max_samples_per_pixel.initial == old(self).max_samples_per_pixel.initial,
            final(self).num_samples_per_pixel.initial == old(self).num_samples_per_pixel.initial,
            final(self).num_bounces.initial == old(self).num_bounces.initial,
            final(self).camera.initial == old(self).camera.initial,
    {
        if pin == 0 {
            self.max_samples_per_pixel.reset();
        } else if pin == 1 {
            self.num_samples_per_pixel.reset();
        } else if pin == 2 {
            self.num_bounces.reset();
        } else if pin == 3 {
            self.camera.reset();
        } else if pin == 4 {
            self.scene = None;
            self.force_redraw = true;
        } else {
            return false;
        }
        true
    }
}

/// What a frame hands to the renderer about the scene.
#[derive(Clone, Copy, Debug, PartialEq, Eq, Structural)]
pub enum SceneUpdate {
    /// The renderer keeps the scene that it has.
    Unchanged,
    /// No scene is wired: the renderer gets an empty placeholder.
    Placeholder,
    /// The scene of this scene root was (re)built and must be uploaded.
    Rebuilt(NodeId),
}

/// One frame of a render node: the camera to render through, if one is
/// wired, its sampling, and the scene update.
#[derive(Clone, Copy, Debug, PartialEq, Eq, Structural)]
pub struct DrawPlan {
    pub camera: Option<Camera>,
    pub sampling: SamplingParams,
    pub scene: SceneUpdate,
}

/// The camera of the camera node under `id`, if there is one.
pub open spec fn camera_at(g: Seq<Option<Slot>>, id: Option<NodeId>) -> Option<Camera> {
    match id {
        Some(c) => match node_at(g, c) {
            Some(Node::Camera(cam)) => Some(cam.camera),
            _ => None,
        },
        None => None,
    }
}

/// The render node with its forced redraw done.
pub open spec fn redraw_done(x: XraysRenderNode) -> Node {
    Node::Render(RenderNode::XraysRender(XraysRenderNode { force_redraw: false, ..x }))
}

impl Graph {
    fn camera_of(&self, id: Option<NodeId>) -> (r: Option<Camera>)
        ensures
            r == camera_at(self.slots@, id),
    {
        match id {
            Some(c) => match self.node(c) {
                Some(Node::Camera(cam)) => Some(cam.camera),
                _ => None,
            },
            None => None,
        }
    }

    /// Plans a frame of the render node `render_id`: its scene root is
    /// compiled if dirty, and the scene is handed over when it was rebuilt or
    /// a redraw was forced; a forced redraw is done once. Anything other
    /// than a progressive render node gives `None` and changes nothing.
    pub fn plan_draw(&mut self, render_id: NodeId) -> (r: Option<DrawPlan>)
        requires
            old(self).wf(),
        ensures
            final(self).wf(),
            match node_at(old(self).slots@, render_id) {
                Some(Node::Render(RenderNode::XraysRender(x))) => {
                    let g = old(self).slots@;
                    let cleared = x.force_redraw && x.scene != Some(render_id) ==> final(self).slots@[render_id.0 as int] is Some
                        && final(self).slots@[render_id.0 as int]->Some_0.node == redraw_done(x);
                    &&& r is Some
                    &&& r->Some_0.sampling == x.sampling_spec()
                    &&& r->Some_0.camera == camera_at(final(self).slots@, x.camera.current())
                    &&& cleared
                    &&& match x.scene {
                        Some(sid) => exists|g1: Seq<Option<Slot>>, resp: SceneNodeResponse|
                            {
                                &&& compiled(g, g1, sid, resp)
                                &&& r->Some_0.scene == if x.force_redraw || resp
                                    == SceneNodeResponse::Recalculated {
                                    SceneUpdate::Rebuilt(sid)
                                } else {
                                    SceneUpdate::Unchanged
                                }
                                &&& !x.force_redraw ==> final(self).slots@ == g1
                                &&& forall|j: int|
                                    0 <= j < g.len() && j != render_id.0 ==> #[trigger] final(self).slots@[j]
                                        == g1[j]
                            },
                        None => {
                            &&& r->Some_0.scene == if x.force_redraw {
                                SceneUpdate::Placeholder
                            } else {
                                SceneUpdate::Unchanged
                            }
                            &&& !x.force_redraw ==> final(self).slots@ == g
                            &&& forall|j: int|
                                0 <= j < g.len() && j != render_id.0 ==> #[trigger] final(self).slots@[j]
                                    == g[j]
                        },
                    }
                },
                _ => r is None && final(self).slots@ == old(self).slots@,
            },
    {
        let (force, scene, sampling, camera_id) = match self.node(render_id) {
            Some(Node::Render(RenderNode::XraysRender(x))) => (
                x.force_redraw,
                x.scene,
                x.sampling_params(),
                x.camera.get(),
            ),
            _ => {
                return None;
            },
        };
        let ghost g0 = self.slots@;
        let ghost mut resp_g = SceneNodeResponse::Nothing;
        let update = match scene {
            Some(sid) => {
                let resp = self.handle_recalculate(sid);
                proof {
                    resp_g = resp;
                }
                if force || resp == SceneNodeResponse::Recalculated {
                    SceneUpdate::Rebuilt(sid)
                } else {
                    SceneUpdate::Unchanged
                }
            },
            None => if force {
                SceneUpdate::Placeholder
            } else {
                SceneUpdate::Unchanged
            },
        };
        let ghost g1 = self.slots@;
        proof {
            if let Some(sid) = scene {
                if sid != render_id {
                    assert(g1[render_id.0 as int] is Some);
                    assert(g1[render_id.0 as int]->Some_0.node == g0[render_id.0 as int]->Some_0.node);
                }
            }
        }
        if force {
            let slot = self.take_slot(render_id.0);
            match slot {
                Some(Slot { node: Node::Render(RenderNode::XraysRender(mut x)), subscription }) => {
                    x.force_redraw = false;
                    self.slots.set(
                        render_id.0,
                        Some(Slot { node: Node::Render(RenderNode::XraysRender(x)), subscription }),
                    );
                },
                other => {
                    self.slots.set(render_id.0, other);
                },
            }
        }
        proof {
            if let Some(sid) = scene {
                assert(compiled(g0, g1, sid, resp_g));
                if !force {
                    assert(self.slots@ == g1);
                }
            } else {
                assert(g1 == g0);
            }
        }
        let camera = self.camera_of(camera_id);
        Some(DrawPlan { camera, sampling, scene: update })
    }
}

} // verus!
