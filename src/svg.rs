use vstd::prelude::*;
use crate::path::{
    Point, PathCommand, PathEvent, path_events, convert_path, commands_well_formed, events_balanced,
    lemma_event_balance,
};
use crate::style::{Rgba, Fill, Stroke, StrokeStyle, paint_color, stroke_style, convert_stroke};

verus! {

/// A 2D affine transform `[[a, c, e], [b, d, f], [0, 0, 1]]`.
#[derive(Clone, Copy, Debug, PartialEq)]
pub struct Transform<W> {
    pub a: W,
    pub b: W,
    pub c: W,
    pub d: W,
    pub e: W,
    pub f: W,
}

/// A node of a parsed document tree.
#[derive(Debug)]
pub enum Node<W> {
    /// The document's root element.
    Svg { children: Vec<Node<W>> },
    /// A group, with its local transform and the identifiers of the filter,
    /// clip path and mask it refers to (which are not applied).
    Group {
        transform: Transform<W>,
        filter: Option<String>,
        clip_path: Option<String>,
        mask: Option<String>,
        children: Vec<Node<W>>,
    },
    /// A path, with its local transform, its data and its style.
    Path { transform: Transform<W>, data: Vec<PathCommand<W>>, fill: Option<Fill>, stroke: Option<Stroke<W>> },
    /// Definitions: never drawn.
    Defs,
    /// Any other kind of node (image, text): skipped.
    Other,
}

/// How a path descriptor is drawn.
#[derive(Clone, Copy, Debug, PartialEq)]
pub enum DrawType<W> {
    Fill,
    Stroke(StrokeStyle<W>),
}

/// One drawable unit: geometry, absolute transform, color and draw style.
#[derive(Debug)]
pub struct PathDescriptor<W> {
    pub segments: Vec<PathEvent<W>>,
    pub abs_transform: Transform<W>,
    pub color: Rgba,
    pub draw_type: DrawType<W>,
}

/// The mathematical value of a path descriptor.
pub struct DescriptorModel<W> {
    pub segments: Seq<PathEvent<W>>,
    pub abs_transform: Transform<W>,
    pub color: Rgba,
    pub draw_type: DrawType<W>,
}

impl<W> PathDescriptor<W> {
    pub open spec fn model(&self) -> DescriptorModel<W> {
        DescriptorModel {
            segments: self.segments@,
            abs_transform: self.abs_transform,
            color: self.color,
            draw_type: self.draw_type,
        }
    }
}

pub open spec fn models<W>(v: Seq<PathDescriptor<W>>) -> Seq<DescriptorModel<W>> {
    v.map_values(|d: PathDescriptor<W>| d.model())
}

/// The values of the scalar type that the conversion needs as constants: the
/// current point before a path's first command, and the tolerance with which
/// strokes are tessellated.
#[derive(Clone, Copy, Debug)]
pub struct Constants<W> {
    pub origin: Point<W>,
    pub tolerance: W,
}

/// A composition of transforms is a function: the same operands always give
/// the same result.
pub open spec fn is_composition<W, F: Fn(Transform<W>, Transform<W>) -> Transform<W>>(compose: F) -> bool {
    &&& forall|p: Transform<W>, c: Transform<W>| #[trigger] compose.requires((p, c))
    &&& forall|p: Transform<W>, c: Transform<W>, r1: Transform<W>, r2: Transform<W>|
        #[trigger] compose.ensures((p, c), r1) && #[trigger] compose.ensures((p, c), r2) ==> r1 == r2
}

/// The transform of a child `c` nested in a parent `p`.
pub open spec fn composed<W, F: Fn(Transform<W>, Transform<W>) -> Transform<W>>(
    compose: F,
    p: Transform<W>,
    c: Transform<W>,
) -> Transform<W> {
    choose|r: Transform<W>| compose.ensures((p, c), r)
}

/// The descriptors of one path node: the fill first, if there is one, then
/// the stroke, if there is one.
pub open spec fn path_descriptors<W>(
    data: Seq<PathCommand<W>>,
    t: Transform<W>,
    fill: Option<Fill>,
    stroke: Option<Stroke<W>>,
    k: Constants<W>,
) -> Seq<DescriptorModel<W>> {
    let segments = path_events(data, k.origin);
    let f = match fill {
        Some(fl) => seq![DescriptorModel {
            segments,
            abs_transform: t,
            color: paint_color(fl.paint, fl.alpha),
            draw_type: DrawType::Fill,
        }],
        None => seq![],
    };
    let s = match stroke {
        Some(st) => seq![DescriptorModel {
            segments,
            abs_transform: t,
            color: paint_color(st.paint, st.alpha),
            draw_type: DrawType::Stroke(stroke_style(st, k.tolerance)),
        }],
        None => seq![],
    };
    f + s
}

pub open spec fn children_len<W>(n: Node<W>) -> int {
    match n {
        Node::Svg { children } => children.len() as int,
        Node::Group { children, .. } => children.len() as int,
        _ => 0,
    }
}

/// The descriptors that a node yields, in drawing order, when its parent's
/// absolute transform is `t`.
pub open spec fn node_descriptors<W, F: Fn(Transform<W>, Transform<W>) -> Transform<W>>(
    node: Node<W>,
    t: Transform<W>,
    compose: F,
    k: Constants<W>,
) -> Seq<DescriptorModel<W>>
    decreases node, 1nat, 0int,
{
    match node {
        Node::Svg { .. } => children_descriptors(node, 0, t, compose, k),
        Node::Group { transform, .. } => children_descriptors(node, 0, composed(compose, t, transform), compose, k),
        Node::Path { transform, data, fill, stroke } => path_descriptors(
            data@,
            composed(compose, t, transform),
            fill,
            stroke,
            k,
        ),
        _ => seq![],
    }
}

/// The descriptors of the children of `parent` from the `i`-th on, each child
/// starting from the same transform `t`.
pub open spec fn children_descriptors<W, F: Fn(Transform<W>, Transform<W>) -> Transform<W>>(
    parent: Node<W>,
    i: int,
    t: Transform<W>,
    compose: F,
    k: Constants<W>,
) -> Seq<DescriptorModel<W>>
    decreases parent, 0nat, children_len(parent) - i,
{
    if 0 <= i < children_len(parent) {
        match parent {
            Node::Svg { children } => node_descriptors(children[i], t, compose, k)
                + children_descriptors(parent, i + 1, t, compose, k),
            Node::Group { children, .. } => node_descriptors(children[i], t, compose, k)
                + children_descriptors(parent, i + 1, t, compose, k),
            _ => seq![],
        }
    } else {
        seq![]
    }
}

proof fn lemma_composed<W, F: Fn(Transform<W>, Transform<W>) -> Transform<W>>(
    compose: F,
    p: Transform<W>,
    c: Transform<W>,
    r: Transform<W>,
)
    requires
        is_composition(compose),
        compose.ensures((p, c), r),
    ensures
        composed(compose, p, c) == r,
{
}

fn push_descriptor<W>(out: &mut Vec<PathDescriptor<W>>, d: PathDescriptor<W>)
    ensures
        models(final(out)@) == models(old(out)@).push(d.model()),
{
    out.push(d);
    assert(models(out@) =~= models(old(out)@).push(d.model()));
}

/// Appends the descriptors of one path node, drawn with the absolute
/// transform `t`.
fn render_path<W: Copy>(
    data: &Vec<PathCommand<W>>,
    t: Transform<W>,
    fill: &Option<Fill>,
    stroke: &Option<Stroke<W>>,
    k: &Constants<W>,
    out: &mut Vec<PathDescriptor<W>>,
)
    ensures
        models(final(out)@) == models(old(out)@) + path_descriptors(data@, t, *fill, *stroke, *k),
{
    if let Some(fl) = fill {
        let color = fl.paint.to_rgba_with_alpha(fl.alpha);
        let segments = convert_path(data.as_slice(), k.origin);
        push_descriptor(out, PathDescriptor { segments, abs_transform: t, color, draw_type: DrawType::Fill });
    }
    if let Some(st) = stroke {
        let (color, style) = convert_stroke(st, k.tolerance);
        let segments = convert_path(data.as_slice(), k.origin);
        push_descriptor(out, PathDescriptor { segments, abs_transform: t, color, draw_type: DrawType::Stroke(style) });
    }
    assert(models(out@) =~= models(old(out)@) + path_descriptors(data@, t, *fill, *stroke, *k));
}

/// Appends the descriptors of `node` and of everything below it, in
/// depth-first pre-order, where `t` is the absolute transform of the node's
/// parent. Group effects (filter, clip path, mask) are ignored: the subtree is
/// drawn as if they were absent.
pub fn render_node<W: Copy, F: Fn(Transform<W>, Transform<W>) -> Transform<W>>(
    node: &Node<W>,
    t: Transform<W>,
    compose: &F,
    k: &Constants<W>,
    out: &mut Vec<PathDescriptor<W>>,
)
    requires
        is_composition(*compose),
    ensures
        models(final(out)@) == models(old(out)@) + node_descriptors(*node, t, *compose, *k),
    decreases node, 1nat, 0int,
{
    match node {
        Node::Svg { .. } => {
            render_group(node, t, compose, k, out);
        },
        Node::Group { transform, .. } => {
            let abs = compose(t, *transform);
            proof {
                lemma_composed(*compose, t, *transform, abs);
            }
            render_group(node, abs, compose, k, out);
        },
        Node::Path { transform, data, fill, stroke } => {
            let abs = compose(t, *transform);
            proof {
                lemma_composed(*compose, t, *transform, abs);
            }
            render_path(data, abs, fill, stroke, k, out);
        },
        _ => {
            assert(models(out@) =~= models(old(out)@) + node_descriptors(*node, t, *compose, *k));
        },
    }
}

/// Appends the descriptors of the children of `parent`, each child starting
/// from the same transform `t`: nothing one child does to its transform
/// reaches its siblings.
fn render_group<W: Copy, F: Fn(Transform<W>, Transform<W>) -> Transform<W>>(
    parent: &Node<W>,
    t: Transform<W>,
    compose: &F,
    k: &Constants<W>,
    out: &mut Vec<PathDescriptor<W>>,
)
    requires
        is_composition(*compose),
    ensures
        models(final(out)@) == models(old(out)@) + children_descriptors(*parent, 0, t, *compose, *k),
    decreases parent, 0nat, children_len(*parent) + 1,
{
    let children = match parent {
        Node::Svg { children } => children,
        Node::Group { children, .. } => children,
        _ => {
            assert(models(out@) =~= models(old(out)@) + children_descriptors(*parent, 0, t, *compose, *k));
            return;
        },
    };
    let mut i: usize = 0;
    while i < children.len()
        invariant
            is_composition(*compose),
            0 <= i <= children.len(),
            children.len() == children_len(*parent),
            parent matches Node::Svg { children: c } ==> c == children,
            parent matches Node::Group { children: c, .. } ==> c == children,
            models(out@) + children_descriptors(*parent, i as int, t, *compose, *k)
                == models(old(out)@) + children_descriptors(*parent, 0, t, *compose, *k),
        decreases children.len() - i,
    {
        let ghost before = models(out@);
        render_node(&children[i], t, compose, k, out);
        assert(children_descriptors(*parent, i as int, t, *compose, *k)
            == node_descriptors(children[i as int], t, *compose, *k)
                + children_descriptors(*parent, i + 1, t, *compose, *k));
        assert(models(out@) + children_descriptors(*parent, i + 1, t, *compose, *k)
            =~= before + children_descriptors(*parent, i as int, t, *compose, *k));
        i = i + 1;
    }
    assert(children_descriptors(*parent, i as int, t, *compose, *k) =~= seq![]);
    assert(models(out@) =~= models(old(out)@) + children_descriptors(*parent, 0, t, *compose, *k));
}

/// A path node with both a fill and a stroke yields exactly two descriptors,
/// the fill one first and the stroke one right after it, sharing geometry and
/// transform.
pub proof fn lemma_fill_then_stroke<W, F: Fn(Transform<W>, Transform<W>) -> Transform<W>>(
    node: Node<W>,
    t: Transform<W>,
    compose: F,
    k: Constants<W>,
)
    requires
        node matches Node::Path { fill, stroke, .. } && fill is Some && stroke is Some,
    ensures
        node_descriptors(node, t, compose, k).len() == 2,
        node_descriptors(node, t, compose, k)[0].draw_type is Fill,
        node_descriptors(node, t, compose, k)[1].draw_type is Stroke,
        node_descriptors(node, t, compose, k)[0].segments == node_descriptors(node, t, compose, k)[1].segments,
        node_descriptors(node, t, compose, k)[0].abs_transform
            == node_descriptors(node, t, compose, k)[1].abs_transform,
{
}

/// Two trees that differ at most in the filter, clip path and mask that their
/// groups refer to.
pub open spec fn same_but_effects<W>(n1: Node<W>, n2: Node<W>) -> bool
    decreases n1,
{
    match (n1, n2) {
        (Node::Svg { children: c1 }, Node::Svg { children: c2 }) => c1.len() == c2.len() && forall|i: int|
            0 <= i < c1.len() ==> same_but_effects(#[trigger] c1[i], c2[i]),
        (Node::Group { transform: t1, children: c1, .. }, Node::Group { transform: t2, children: c2, .. }) => {
            t1 == t2 && c1.len() == c2.len() && forall|i: int|
                0 <= i < c1.len() ==> same_but_effects(#[trigger] c1[i], c2[i])
        },
        (
            Node::Path { transform: t1, data: d1, fill: f1, stroke: s1 },
            Node::Path { transform: t2, data: d2, fill: f2, stroke: s2 },
        ) => t1 == t2 && d1@ == d2@ && f1 == f2 && s1 == s2,
        (Node::Defs, Node::Defs) => true,
        (Node::Other, Node::Other) => true,
        _ => false,
    }
}

proof fn lemma_children_ignore_effects<W, F: Fn(Transform<W>, Transform<W>) -> Transform<W>>(
    n1: Node<W>,
    n2: Node<W>,
    i: int,
    t: Transform<W>,
    compose: F,
    k: Constants<W>,
)
    requires
        same_but_effects(n1, n2),
        0 <= i,
    ensures
        children_descriptors(n1, i, t, compose, k) == children_descriptors(n2, i, t, compose, k),
    decreases n1, 0nat, children_len(n1) - i,
{
    if i < children_len(n1) {
        match (n1, n2) {
            (Node::Svg { children: c1 }, Node::Svg { children: c2 }) => {
                lemma_effects_ignored(c1[i], c2[i], t, compose, k);
            },
            (Node::Group { children: c1, .. }, Node::Group { children: c2, .. }) => {
                lemma_effects_ignored(c1[i], c2[i], t, compose, k);
            },
            _ => {},
        }
        lemma_children_ignore_effects(n1, n2, i + 1, t, compose, k);
    }
}

/// Filters, clip paths and masks are recognised but not applied: a tree
/// yields the same descriptors as the tree with those references changed or
/// removed.
pub proof fn lemma_effects_ignored<W, F: Fn(Transform<W>, Transform<W>) -> Transform<W>>(
    n1: Node<W>,
    n2: Node<W>,
    t: Transform<W>,
    compose: F,
    k: Constants<W>,
)
    requires
        same_but_effects(n1, n2),
    ensures
        node_descriptors(n1, t, compose, k) == node_descriptors(n2, t, compose, k),
    decreases n1, 1nat, 0int,
{
    match n1 {
        Node::Svg { .. } => lemma_children_ignore_effects(n1, n2, 0, t, compose, k),
        Node::Group { transform, .. } => lemma_children_ignore_effects(
            n1,
            n2,
            0,
            composed(compose, t, transform),
            compose,
            k,
        ),
        _ => {},
    }
}

/// Every path node below `node` holds well-formed path data.
pub open spec fn tree_data_well_formed<W>(node: Node<W>) -> bool
    decreases node,
{
    match node {
        Node::Svg { children } => forall|i: int|
            0 <= i < children.len() ==> tree_data_well_formed(#[trigger] children[i]),
        Node::Group { children, .. } => forall|i: int|
            0 <= i < children.len() ==> tree_data_well_formed(#[trigger] children[i]),
        Node::Path { data, .. } => commands_well_formed(data@),
        _ => true,
    }
}

pub open spec fn all_balanced<W>(ds: Seq<DescriptorModel<W>>) -> bool {
    forall|i: int| 0 <= i < ds.len() ==> events_balanced(#[trigger] ds[i].segments)
}

proof fn lemma_children_balanced<W, F: Fn(Transform<W>, Transform<W>) -> Transform<W>>(
    parent: Node<W>,
    i: int,
    t: Transform<W>,
    compose: F,
    k: Constants<W>,
)
    requires
        tree_data_well_formed(parent),
        0 <= i,
    ensures
        all_balanced(children_descriptors(parent, i, t, compose, k)),
    decreases parent, 0nat, children_len(parent) - i,
{
    if i < children_len(parent) {
        let rest = children_descriptors(parent, i + 1, t, compose, k);
        lemma_children_balanced(parent, i + 1, t, compose, k);
        match parent {
            Node::Svg { children } => {
                lemma_descriptors_balanced(children[i], t, compose, k);
                let here = node_descriptors(children[i], t, compose, k);
                assert(all_balanced(here + rest)) by {
                    assert forall|j: int| 0 <= j < (here + rest).len() implies events_balanced(
                        #[trigger] (here + rest)[j].segments,
                    ) by {
                        if j >= here.len() {
                            assert((here + rest)[j] == rest[j - here.len()]);
                        }
                    }
                }
            },
            Node::Group { children, .. } => {
                lemma_descriptors_balanced(children[i], t, compose, k);
                let here = node_descriptors(children[i], t, compose, k);
                assert(all_balanced(here + rest)) by {
                    assert forall|j: int| 0 <= j < (here + rest).len() implies events_balanced(
                        #[trigger] (here + rest)[j].segments,
                    ) by {
                        if j >= here.len() {
                            assert((here + rest)[j] == rest[j - here.len()]);
                        }
                    }
                }
            },
            _ => {},
        }
    }
}

/// Every descriptor of a tree whose path data is well formed carries a
/// balanced event stream: as many `Begin` as `End` events, never two `Begin`s
/// without an `End` between them.
pub proof fn lemma_descriptors_balanced<W, F: Fn(Transform<W>, Transform<W>) -> Transform<W>>(
    node: Node<W>,
    t: Transform<W>,
    compose: F,
    k: Constants<W>,
)
    requires
        tree_data_well_formed(node),
    ensures
        all_balanced(node_descriptors(node, t, compose, k)),
    decreases node, 1nat, 0int,
{
    match node {
        Node::Svg { .. } => lemma_children_balanced(node, 0, t, compose, k),
        Node::Group { transform, .. } => lemma_children_balanced(
            node,
            0,
            composed(compose, t, transform),
            compose,
            k,
        ),
        Node::Path { data, .. } => lemma_event_balance(data@, k.origin),
        _ => {},
    }
}

} // verus!
