//! The surface forest that a frame is composed from: each surface with its
//! anchor, client buffer and cached texture.
use vstd::prelude::*;

verus! {

/// Pixel format of a GPU-imported client image.
#[derive(Clone, Copy, Debug, PartialEq, Eq, Structural)]
pub enum PixelFormat {
    Rgb,
    Rgba,
    External,
    YUv,
    YUV,
    YXuxv,
}

/// A client buffer attached to a surface.
#[derive(Clone, Copy, Debug, PartialEq, Eq, Structural)]
pub enum Buffer {
    /// A GPU-imported image.
    Image { format: PixelFormat, width: i32, height: i32, y_inverted: bool },
    /// A shared-memory block of the declared size.
    Memory { width: i32, height: i32 },
}

/// Handle of a texture uploaded to the GPU.
#[derive(Clone, Copy, Debug, PartialEq, Eq, Structural)]
pub struct TextureId(pub u64);

/// A position or offset in output pixels.
#[derive(Clone, Copy, Debug, PartialEq, Eq, Structural)]
pub struct Point {
    pub x: i32,
    pub y: i32,
}

/// Where a surface's accumulated offset starts.
#[derive(Clone, Copy, Debug, PartialEq, Eq, Structural)]
pub enum Anchor {
    /// Root of a top-level window, placed at the given point.
    Window { at: Point },
    /// Child of the surface at index `parent`.
    Child { parent: usize },
}

/// One surface and its render state.
#[derive(Clone, Copy, Debug, PartialEq, Eq, Structural)]
pub struct Surface {
    pub anchor: Anchor,
    /// Relative location, for a surface with the subsurface role.
    pub subsurface: Option<Point>,
    pub buffer: Option<Buffer>,
    pub texture: Option<TextureId>,
}

/// The window stack flattened: windows bottom to top, each surface tree in
/// pre-order, so that a parent always comes before its children.
#[derive(Debug)]
pub struct Scene {
    pub surfaces: Vec<Surface>,
}

/// Each child comes after its parent.
pub open spec fn parents_first(s: Seq<Surface>) -> bool {
    forall|i: int| 0 <= i < s.len() ==> ((#[trigger] s[i]).anchor matches Anchor::Child { parent } ==> parent < i)
}

/// Each surface's subtree is one block right after it: whatever lies between
/// a surface and one of its descendants descends from it too. With parents
/// first, every window's tree is a block in pre-order, and the windows' blocks
/// follow each other bottom to top.
pub open spec fn subtrees_contiguous(s: Seq<Surface>) -> bool {
    forall|i: int, k: int, j: int|
        #![trigger descends(s, j, i), descends(s, k, i)]
        0 <= i < k < j < s.len() && descends(s, j, i) ==> descends(s, k, i)
}

pub open spec fn surfaces_wf(s: Seq<Surface>) -> bool {
    &&& parents_first(s)
    &&& subtrees_contiguous(s)
    &&& forall|i: int| 0 <= i < s.len() ==> ((#[trigger] s[i]).texture is Some ==> s[i].buffer is Some)
}

/// A child of `parent` may be appended: every surface after `parent` is in
/// its subtree, so the new one extends that subtree's block.
pub open spec fn may_append_child(s: Seq<Surface>, parent: int) -> bool {
    &&& 0 <= parent < s.len()
    &&& forall|k: int| parent < k < s.len() ==> #[trigger] descends(s, k, parent)
}

/// Surface `j` lies in the subtree below surface `i`.
pub open spec fn descends(s: Seq<Surface>, j: int, i: int) -> bool
    decreases j,
{
    if 0 <= j < s.len() {
        match s[j].anchor {
            Anchor::Child { parent } => parent == i || (parent < j && descends(s, parent as int, i)),
            Anchor::Window { .. } => false,
        }
    } else {
        false
    }
}

proof fn lemma_descends_after(s: Seq<Surface>, j: int, i: int)
    requires
        parents_first(s),
        descends(s, j, i),
    ensures
        i < j,
    decreases j,
{
    if let Anchor::Child { parent } = s[j].anchor {
        if parent != i {
            lemma_descends_after(s, parent as int, i);
        }
    }
}

proof fn lemma_descends_trans(s: Seq<Surface>, k: int, p: int, i: int)
    requires
        parents_first(s),
        descends(s, k, p),
        descends(s, p, i),
    ensures
        descends(s, k, i),
    decreases k,
{
    if let Anchor::Child { parent } = s[k].anchor {
        if parent != p {
            lemma_descends_trans(s, parent as int, p, i);
        }
    }
}

proof fn lemma_descends_same_anchors(s: Seq<Surface>, t: Seq<Surface>, j: int, i: int)
    requires
        s.len() <= t.len(),
        forall|k: int| 0 <= k < s.len() ==> (#[trigger] s[k]).anchor == t[k].anchor,
        0 <= j < s.len(),
    ensures
        descends(s, j, i) == descends(t, j, i),
    decreases j,
{
    if let Anchor::Child { parent } = s[j].anchor {
        if parent < j {
            lemma_descends_same_anchors(s, t, parent as int, i);
        }
    }
}

/// Changing a surface's buffer or texture, not its anchor, keeps the scene
/// well formed as long as a texture stays beside a buffer.
pub proof fn lemma_surfaces_wf_update(s: Seq<Surface>, i: int, x: Surface)
    requires
        surfaces_wf(s),
        0 <= i < s.len(),
        x.anchor == s[i].anchor,
        x.texture is Some ==> x.buffer is Some,
    ensures
        surfaces_wf(s.update(i, x)),
{
    let t = s.update(i, x);
    assert forall|a: int, k: int, j: int|
        0 <= a < k < j < t.len() && #[trigger] descends(t, j, a) implies #[trigger] descends(t, k, a) by {
        lemma_descends_same_anchors(s, t, j, a);
        lemma_descends_same_anchors(s, t, k, a);
    }
}

impl Scene {
    /// Parents precede their children, each subtree is a block right after
    /// its root, and a texture only exists beside the buffer it was made from.
    pub open spec fn wf(&self) -> bool {
        surfaces_wf(self.surfaces@)
    }

    pub fn new() -> (r: Scene)
        ensures
            r.wf(),
            r.surfaces@.len() == 0,
    {
        Scene { surfaces: Vec::new() }
    }

    /// Whether surface `j` lies in the subtree below surface `i`.
    pub fn descends_from(&self, j: usize, i: usize) -> (r: bool)
        requires
            self.wf(),
            j < self.surfaces@.len(),
        ensures
            r == descends(self.surfaces@, j as int, i as int),
    {
        let mut cur = j;
        loop
            invariant
                self.wf(),
                cur < self.surfaces@.len(),
                descends(self.surfaces@, j as int, i as int) == descends(self.surfaces@, cur as int, i as int),
            decreases cur,
        {
            match self.surfaces[cur].anchor {
                Anchor::Window { .. } => {
                    return false;
                },
                Anchor::Child { parent } => {
                    if parent == i {
                        return true;
                    }
                    if parent < i {
                        proof {
                            if descends(self.surfaces@, parent as int, i as int) {
                                lemma_descends_after(self.surfaces@, parent as int, i as int);
                            }
                        }
                        return false;
                    }
                    cur = parent;
                },
            }
        }
    }

    /// Whether a child of `parent` may be appended by `add_surface`.
    pub fn may_append_child(&self, parent: usize) -> (r: bool)
        requires
            self.wf(),
        ensures
            r == may_append_child(self.surfaces@, parent as int),
    {
        let n = self.surfaces.len();
        if parent >= n {
            return false;
        }
        if parent == n - 1 {
            return true;
        }
        let r = self.descends_from(n - 1, parent);
        proof {
            let s = self.surfaces@;
            if r {
                assert forall|k: int| parent < k < s.len() implies #[trigger] descends(s, k, parent as int) by {
                    if k < n - 1 {
                        assert(descends(s, (n - 1) as int, parent as int));
                    }
                }
            } else {
                assert(!descends(s, (n - 1) as int, parent as int));
            }
        }
        r
    }

    /// Appends a surface without buffer; returns its index.
    pub fn add_surface(&mut self, anchor: Anchor, subsurface: Option<Point>) -> (r: usize)
        requires
            old(self).wf(),
            old(self).surfaces@.len() < usize::MAX,
            anchor matches Anchor::Child { parent } ==> may_append_child(old(self).surfaces@, parent as int),
        ensures
            final(self).wf(),
            r == old(self).surfaces@.len(),
            final(self).surfaces@ == old(self).surfaces@.push(
                Surface { anchor, subsurface, buffer: None, texture: None },
            ),
    {
        let r = self.surfaces.len();
        let x = Surface { anchor, subsurface, buffer: None, texture: None };
        self.surfaces.push(x);
        proof {
            let s = old(self).surfaces@;
            let t = self.surfaces@;
            assert(t[r as int] == x);
            assert forall|i: int, k: int, j: int|
                0 <= i < k < j < t.len() && #[trigger] descends(t, j, i) implies #[trigger] descends(t, k, i) by {
                lemma_descends_same_anchors(s, t, k, i);
                if j < r {
                    lemma_descends_same_anchors(s, t, j, i);
                } else if let Anchor::Child { parent } = anchor {
                    let p = parent as int;
                    if p != i {
                        lemma_descends_same_anchors(s, t, p, i);
                        if k > p {
                            lemma_descends_trans(s, k, p, i);
                        }
                    }
                }
            }
        }
        r
    }

    /// A client committed a new buffer (or released it, with `None`): the
    /// cached texture no longer matches and is dropped.
    pub fn commit_buffer(&mut self, i: usize, buffer: Option<Buffer>)
        requires
            old(self).wf(),
            i < old(self).surfaces@.len(),
        ensures
            final(self).wf(),
            final(self).surfaces@ == old(self).surfaces@.update(
                i as int,
                Surface { buffer, texture: None, ..old(self).surfaces@[i as int] },
            ),
    {
        let s = self.surfaces[i];
        proof {
            lemma_surfaces_wf_update(self.surfaces@, i as int, Surface { buffer, texture: None, ..s });
        }
        self.surfaces.set(i, Surface { buffer, texture: None, ..s });
    }
}

} // verus!
