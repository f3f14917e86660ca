use vstd::prelude::*;
use crate::svg::{Transform, Node, PathDescriptor, DescriptorModel, Constants, is_composition, models, node_descriptors, render_node};

verus! {

/// Origin of the coordinate system, and as such the point at which a
/// document is placed.
#[derive(Clone, Copy, Debug, PartialEq, Eq, Structural)]
pub enum Origin {
    /// Top left of the image or view box: the default for a document.
    TopLeft,
    /// Center of the image or view box.
    Center,
}

impl Default for Origin {
    fn default() -> (r: Origin)
        ensures
            r == Origin::TopLeft,
    {
        Origin::TopLeft
    }
}

/// The view box of a document: the rectangle of user space that it shows.
#[derive(Clone, Copy, Debug, PartialEq)]
pub struct ViewBox<W> {
    pub x: W,
    pub y: W,
    pub w: W,
    pub h: W,
}

/// A loaded document, ready to be drawn.
#[derive(Debug)]
pub struct Svg<W> {
    /// The name of the file.
    pub file: String,
    pub width: W,
    pub height: W,
    pub view_box: ViewBox<W>,
    /// Origin of the coordinate system, and so of the placement.
    pub origin: Origin,
    /// The drawable units, in drawing order: later ones draw on top.
    pub paths: Vec<PathDescriptor<W>>,
}

impl<W: Copy> Svg<W> {
    /// Builds the document from its tree: every drawable node below `root`,
    /// in depth-first pre-order, with `view_transform` (which maps the view
    /// box to the document's size) as the transform of the root's parent.
    /// The file name is left empty and the origin is the default one.
    pub fn from_tree<F: Fn(Transform<W>, Transform<W>) -> Transform<W>>(
        root: &Node<W>,
        width: W,
        height: W,
        view_box: ViewBox<W>,
        view_transform: Transform<W>,
        compose: &F,
        k: &Constants<W>,
    ) -> (r: Svg<W>)
        requires
            is_composition(*compose),
        ensures
            r.file@ == Seq::<char>::empty(),
            r.width == width,
            r.height == height,
            r.view_box == view_box,
            r.origin == Origin::TopLeft,
            models(r.paths@) == node_descriptors(*root, view_transform, *compose, *k),
    {
        let mut paths: Vec<PathDescriptor<W>> = Vec::new();
        render_node(root, view_transform, compose, k, &mut paths);
        assert(models(Seq::<PathDescriptor<W>>::empty()) =~= Seq::<DescriptorModel<W>>::empty());
        assert(models(paths@) =~= node_descriptors(*root, view_transform, *compose, *k));
        Svg { file: String::new(), width, height, view_box, origin: Origin::TopLeft, paths }
    }
}

} // verus!
