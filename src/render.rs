//! The composite pass of one frame. The pass owns the scene while the frame
//! is in flight and walks it one surface per `step`: a step reports what the
//! caller has to do (upload a texture, draw a quad) or that the frame is
//! complete. Texture uploads are the caller's, who attaches the result before
//! the next step.
use vstd::prelude::*;
use crate::scene::{
    Anchor, Buffer, PixelFormat, Point, Scene, Surface, TextureId, surfaces_wf, descends,
    lemma_surfaces_wf_update,
};

verus! {

/// A blended textured quad to render.
#[derive(Clone, Copy, Debug, PartialEq, Eq, Structural)]
pub struct DrawCommand {
    pub surface: usize,
    pub texture: TextureId,
    pub at: Point,
    pub width: i32,
    pub height: i32,
    pub y_inverted: bool,
}

/// What one step of the pass asks of the caller.
#[derive(Clone, Copy, Debug, PartialEq, Eq, Structural)]
pub enum Step {
    /// Import the surface's GPU image as a texture and attach it if that works.
    ImportImage { surface: usize },
    /// Upload the surface's shared-memory block of the given size and attach it.
    ImportMemory { surface: usize, width: i32, height: i32 },
    /// Render this quad.
    Draw(DrawCommand),
    /// The surface's image format is not supported: its buffer was dropped.
    Unsupported { surface: usize },
    /// The surface (and so its subtree) is not drawn in this frame.
    Skip { surface: usize },
    /// Every surface has been handled: submit the frame.
    Finish,
}

/// Abstract state of a pass.
pub struct PassView {
    pub surfaces: Seq<Surface>,
    /// Index of the surface that the next step handles.
    pub next: nat,
    /// An upload for surface `next` was requested.
    pub awaiting: bool,
    /// For each handled surface, the offset its children start from, if it was drawn.
    pub drawn: Seq<Option<Point>>,
    pub finished: bool,
    /// The frame this pass renders, as numbered by the scheduler that began it.
    pub frame: nat,
}

pub open spec fn clamp_i32(v: int) -> i32 {
    if v < i32::MIN {
        i32::MIN
    } else if v > i32::MAX {
        i32::MAX
    } else {
        v as i32
    }
}

/// `p` moved by `d`; a coordinate beyond the i32 range is held at its bound,
/// which is off screen either way.
pub open spec fn shifted(p: Point, d: Point) -> Point {
    Point { x: clamp_i32(p.x + d.x), y: clamp_i32(p.y + d.y) }
}

/// Where a surface is drawn: its start offset, moved by its subsurface location.
pub open spec fn placed(base: Point, subsurface: Option<Point>) -> Point {
    match subsurface {
        Some(d) => shifted(base, d),
        None => base,
    }
}

pub open spec fn is_supported(f: PixelFormat) -> bool {
    f == PixelFormat::Rgb || f == PixelFormat::Rgba
}

pub open spec fn holds_unsupported_image(b: Option<Buffer>) -> bool {
    match b {
        Some(Buffer::Image { format, .. }) => !is_supported(format),
        _ => false,
    }
}

/// The quad for a surface: the buffer's declared size; only GPU images may be
/// flipped vertically.
pub open spec fn quad_for(i: usize, t: TextureId, b: Buffer, at: Point) -> DrawCommand {
    match b {
        Buffer::Image { width, height, y_inverted, .. } => DrawCommand {
            surface: i,
            texture: t,
            at,
            width,
            height,
            y_inverted,
        },
        Buffer::Memory { width, height } => DrawCommand {
            surface: i,
            texture: t,
            at,
            width,
            height,
            y_inverted: false,
        },
    }
}

/// The offset a surface starts from: its window's placement for a root, the
/// parent's drawn offset for a child (none if the parent was not drawn).
pub open spec fn base_of(s: Seq<Surface>, drawn: Seq<Option<Point>>, i: int) -> Option<Point> {
    match s[i].anchor {
        Anchor::Window { at } => Some(at),
        Anchor::Child { parent } => drawn[parent as int],
    }
}

pub open spec fn pass_wf(v: PassView) -> bool {
    &&& surfaces_wf(v.surfaces)
    &&& v.surfaces.len() <= usize::MAX
    &&& v.next <= v.surfaces.len()
    &&& v.drawn.len() == v.next
    &&& v.awaiting ==> v.next < v.surfaces.len() && v.surfaces[v.next as int].buffer is Some
    &&& v.finished ==> v.next == v.surfaces.len() && !v.awaiting
    &&& forall|k: int|
        0 <= k < v.next && (#[trigger] v.drawn[k]) is Some ==> base_of(v.surfaces, v.drawn, k) is Some
}

/// Steps left until the pass is finished.
pub open spec fn remaining(v: PassView) -> nat {
    if v.finished {
        0
    } else if v.awaiting {
        (2 * (v.surfaces.len() - v.next)) as nat
    } else {
        (2 * (v.surfaces.len() - v.next) + 1) as nat
    }
}

/// What one step does: the request it makes and the state after it.
pub open spec fn step_spec(v: PassView) -> (Step, PassView) {
    let i = v.next as int;
    if i >= v.surfaces.len() {
        (Step::Finish, PassView { finished: true, ..v })
    } else {
        let s = v.surfaces[i];
        let skip = PassView { next: v.next + 1, awaiting: false, drawn: v.drawn.push(None), ..v };
        match base_of(v.surfaces, v.drawn, i) {
            None => (Step::Skip { surface: i as usize }, skip),
            Some(base) => if s.texture is None && !v.awaiting {
                match s.buffer {
                    Some(Buffer::Image { format, .. }) => if is_supported(format) {
                        (Step::ImportImage { surface: i as usize }, PassView { awaiting: true, ..v })
                    } else {
                        (
                            Step::Unsupported { surface: i as usize },
                            PassView {
                                surfaces: v.surfaces.update(i, Surface { buffer: None, texture: None, ..s }),
                                ..skip
                            },
                        )
                    },
                    Some(Buffer::Memory { width, height }) => (
                        Step::ImportMemory { surface: i as usize, width, height },
                        PassView { awaiting: true, ..v },
                    ),
                    None => (Step::Skip { surface: i as usize }, skip),
                }
            } else {
                match (s.texture, s.buffer) {
                    (Some(t), Some(b)) => {
                        let at = placed(base, s.subsurface);
                        (
                            Step::Draw(quad_for(i as usize, t, b, at)),
                            PassView { drawn: v.drawn.push(Some(at)), ..skip },
                        )
                    },
                    _ => (Step::Skip { surface: i as usize }, skip),
                }
            },
        }
    }
}

fn clamp_to_i32(v: i64) -> (r: i32)
    ensures
        r == clamp_i32(v as int),
{
    if v < i32::MIN as i64 {
        i32::MIN
    } else if v > i32::MAX as i64 {
        i32::MAX
    } else {
        v as i32
    }
}

/// `p` moved by `d`, each coordinate held within the i32 range.
pub fn shift(p: Point, d: Point) -> (r: Point)
    ensures
        r == shifted(p, d),
{
    Point { x: clamp_to_i32(p.x as i64 + d.x as i64), y: clamp_to_i32(p.y as i64 + d.y as i64) }
}

/// The frame's render pass; see the module documentation.
pub struct RenderPass {
    scene: Scene,
    next: usize,
    awaiting: bool,
    drawn: Vec<Option<Point>>,
    finished: bool,
    frame: Ghost<nat>,
}

impl View for RenderPass {
    type V = PassView;

    closed spec fn view(&self) -> PassView {
        PassView {
            surfaces: self.scene.surfaces@,
            next: self.next as nat,
            awaiting: self.awaiting,
            drawn: self.drawn@,
            finished: self.finished,
            frame: self.frame@,
        }
    }
}

impl RenderPass {
    pub open spec fn wf(&self) -> bool {
        pass_wf(self@)
    }

    /// Starts the pass of frame `frame` over `scene`, taking it over until `end`.
    pub(crate) fn begin(scene: Scene, frame: Ghost<nat>) -> (r: RenderPass)
        requires
            scene.wf(),
        ensures
            r.wf(),
            r@ == (PassView {
                surfaces: scene.surfaces@,
                next: 0,
                awaiting: false,
                drawn: Seq::empty(),
                finished: false,
                frame: frame@,
            }),
    {
        let len = scene.surfaces.len();
        let r = RenderPass { scene, next: 0, awaiting: false, drawn: Vec::new(), finished: false, frame };
        assert(r@.surfaces.len() == len);
        assert(r@.drawn =~= Seq::<Option<Point>>::empty());
        r
    }

    pub fn is_finished(&self) -> (r: bool)
        ensures
            r == self@.finished,
    {
        self.finished
    }

    /// Handles the next surface, or reports that the frame is complete.
    pub fn step(&mut self) -> (r: Step)
        requires
            old(self).wf(),
            !old(self)@.finished,
        ensures
            final(self).wf(),
            (r, final(self)@) == step_spec(old(self)@),
            remaining(final(self)@) < remaining(old(self)@),
    {
        proof {
            law_pass_progress(self@);
        }
        let n = self.scene.surfaces.len();
        if self.next >= n {
            self.finished = true;
            return Step::Finish;
        }
        let i = self.next;
        let s = self.scene.surfaces[i];
        let base = match s.anchor {
            Anchor::Window { at } => Some(at),
            Anchor::Child { parent } => self.drawn[parent],
        };
        let base = match base {
            Some(b) => b,
            None => {
                self.drawn.push(None);
                self.next = i + 1;
                self.awaiting = false;
                return Step::Skip { surface: i };
            },
        };
        if s.texture.is_none() && !self.awaiting {
            match s.buffer {
                Some(Buffer::Image { format, .. }) => {
                    if format == PixelFormat::Rgb || format == PixelFormat::Rgba {
                        self.awaiting = true;
                        Step::ImportImage { surface: i }
                    } else {
                        self.scene.surfaces.set(i, Surface { buffer: None, texture: None, ..s });
                        self.drawn.push(None);
                        self.next = i + 1;
                        Step::Unsupported { surface: i }
                    }
                },
                Some(Buffer::Memory { width, height }) => {
                    self.awaiting = true;
                    Step::ImportMemory { surface: i, width, height }
                },
                None => {
                    self.drawn.push(None);
                    self.next = i + 1;
                    Step::Skip { surface: i }
                },
            }
        } else {
            self.awaiting = false;
            self.next = i + 1;
            match (s.texture, s.buffer) {
                (Some(t), Some(b)) => {
                    let at = match s.subsurface {
                        Some(d) => shift(base, d),
                        None => base,
                    };
                    self.drawn.push(Some(at));
                    let cmd = match b {
                        Buffer::Image { width, height, y_inverted, .. } => DrawCommand {
                            surface: i,
                            texture: t,
                            at,
                            width,
                            height,
                            y_inverted,
                        },
                        Buffer::Memory { width, height } => DrawCommand {
                            surface: i,
                            texture: t,
                            at,
                            width,
                            height,
                            y_inverted: false,
                        },
                    };
                    Step::Draw(cmd)
                },
                _ => {
                    self.drawn.push(None);
                    Step::Skip { surface: i }
                },
            }
        }
    }

    /// Attaches the texture uploaded for the surface whose import was
    /// requested by the last step.
    pub fn attach_texture(&mut self, t: TextureId)
        requires
            old(self).wf(),
            old(self)@.awaiting,
        ensures
            final(self).wf(),
            final(self)@ == (PassView {
                surfaces: old(self)@.surfaces.update(
                    old(self)@.next as int,
                    Surface { texture: Some(t), ..old(self)@.surfaces[old(self)@.next as int] },
                ),
                ..old(self)@
            }),
    {
        let i = self.next;
        let s = self.scene.surfaces[i];
        proof {
            lemma_surfaces_wf_update(self.scene.surfaces@, i as int, Surface { texture: Some(t), ..s });
        }
        self.scene.surfaces.set(i, Surface { texture: Some(t), ..s });
        proof {
            let v = self@;
            assert forall|k: int|
                0 <= k < v.next && (#[trigger] v.drawn[k]) is Some implies base_of(v.surfaces, v.drawn, k) is Some by {
                assert(base_of(v.surfaces, v.drawn, k) == base_of(old(self)@.surfaces, v.drawn, k));
            }
        }
    }

    /// Ends the finished pass and hands the scene back.
    pub fn end(self) -> (r: Scene)
        requires
            self.wf(),
            self@.finished,
        ensures
            r.wf(),
            r.surfaces@ == self@.surfaces,
    {
        self.scene
    }
}

/// A cached texture is reused: no step requests an upload for a surface that
/// holds a texture, or for the surface whose upload was already requested in
/// this pass, and no step removes a texture that a surface holds.
pub proof fn law_texture_cache_hit(v: PassView, i: int)
    requires
        pass_wf(v),
        !v.finished,
        0 <= i < v.surfaces.len(),
        v.surfaces[i].texture is Some || (v.awaiting && i == v.next),
    ensures
        !(step_spec(v).0 matches Step::ImportImage { surface } && surface == i),
        !(step_spec(v).0 matches Step::ImportMemory { surface, .. } && surface == i),
        v.surfaces[i].texture is Some ==> step_spec(v).1.surfaces[i] == v.surfaces[i],
{
}

/// A GPU image of an unsupported format is dropped when its surface is
/// reached: buffer and texture become empty. A surface without a buffer is
/// never asked to upload and no step gives it a buffer back, so the drop lasts
/// until the client commits a new buffer.
pub proof fn law_unsupported_buffer_dropped(v: PassView, i: int)
    requires
        pass_wf(v),
        !v.finished,
        0 <= i < v.surfaces.len(),
    ensures
        ({
            let s = v.surfaces[i];
            (i == v.next && !v.awaiting && s.texture is None && base_of(v.surfaces, v.drawn, i) is Some
                && holds_unsupported_image(s.buffer)) ==> {
                &&& step_spec(v).0 == Step::Unsupported { surface: i as usize }
                &&& step_spec(v).1.surfaces[i].buffer is None
                &&& step_spec(v).1.surfaces[i].texture is None
            }
        }),
        v.surfaces[i].buffer is None ==> {
            &&& !(step_spec(v).0 matches Step::ImportImage { surface } && surface == i)
            &&& !(step_spec(v).0 matches Step::ImportMemory { surface, .. } && surface == i)
            &&& step_spec(v).1.surfaces[i].buffer is None
        },
{
}

/// A surface that was not drawn has none of its descendants drawn: each of
/// them that has been handled was skipped, and the next one handled is skipped
/// (no upload is requested for it either).
pub proof fn law_undrawn_subtree_skipped(v: PassView, i: int, j: int)
    requires
        pass_wf(v),
        0 <= i < v.next,
        (v.drawn[i] is None),
        descends(v.surfaces, j, i),
    ensures
        j < v.next ==> (v.drawn[j] is None),
        j == v.next && !v.finished ==> step_spec(v).0 == (Step::Skip { surface: j as usize }),
    decreases j,
{
    if let Anchor::Child { parent } = v.surfaces[j].anchor {
        if parent != i {
            law_undrawn_subtree_skipped(v, i, parent as int);
        }
    }
}

/// Every pass finishes: each step before the last brings the pass closer to
/// its end, and a pass whose surfaces are all handled (from the start, for an
/// empty scene) finishes at its next step.
pub proof fn law_pass_progress(v: PassView)
    requires
        pass_wf(v),
        !v.finished,
    ensures
        pass_wf(step_spec(v).1),
        remaining(step_spec(v).1) < remaining(v),
        (step_spec(v).0 == Step::Finish) == step_spec(v).1.finished,
        v.next == v.surfaces.len() ==> step_spec(v).0 == Step::Finish,
{
    let w = step_spec(v).1;
    if v.next < v.surfaces.len() {
        let s = v.surfaces[v.next as int];
        lemma_surfaces_wf_update(v.surfaces, v.next as int, Surface { buffer: None, texture: None, ..s });
        assert forall|k: int| 0 <= k < w.next && (#[trigger] w.drawn[k]) is Some implies base_of(w.surfaces, w.drawn, k) is Some by {
            assert(base_of(w.surfaces, w.drawn, k) == base_of(v.surfaces, v.drawn, k));
        }
    }
}

} // verus!
