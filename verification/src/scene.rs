//! The tree that tells the renderer what to draw for one output.

use vstd::prelude::*;

verus! {

/// Where a node stands in its output, in pixels from the top left corner.
#[derive(Clone, Copy, Debug, PartialEq, Eq, Structural)]
pub struct Position {
    pub left: u32,
    pub top: u32,
}

/// How large a node is drawn, in pixels.
#[derive(Clone, Copy, Debug, PartialEq, Eq, Structural)]
pub struct Size {
    pub width: usize,
    pub height: usize,
}

#[derive(Clone, Copy, Debug, PartialEq, Eq, Structural)]
pub enum HorizontalAlign {
    Left,
    Center,
    Right,
}

#[derive(Clone, Copy, Debug, PartialEq, Eq, Structural)]
pub enum VerticalAlign {
    Top,
    Center,
    Bottom,
}

/// How a child that does not fill its node is placed in it.
#[derive(Clone, Copy, Debug, PartialEq, Eq, Structural)]
pub struct Alignment {
    pub horizontal: HorizontalAlign,
    pub vertical: VerticalAlign,
}

/// A scene: a renderable leaf, or a layout around one child. Being a tree of
/// owned nodes it has no cycles, and every scene resolves to one leaf.
#[derive(Debug, PartialEq, Eq)]
pub enum SceneNode {
    /// A registered still image.
    Image { source_id: String },
    /// A registered video stream.
    Video { source_id: String },
    /// One child, scaled to `size` and placed at `position`.
    Layout { child: Box<SceneNode>, position: Position, size: Size, alignment: Alignment },
}

impl SceneNode {
    /// The leaf that this scene resolves to.
    pub open spec fn leaf(self) -> SceneNode
        decreases self,
    {
        match self {
            SceneNode::Layout { child, .. } => child.leaf(),
            _ => self,
        }
    }

    /// The number of renderable leaves in this scene.
    pub open spec fn leaf_count(self) -> nat
        decreases self,
    {
        match self {
            SceneNode::Layout { child, .. } => child.leaf_count(),
            _ => 1,
        }
    }

    /// The number of layouts around the leaf.
    pub open spec fn depth(self) -> nat
        decreases self,
    {
        match self {
            SceneNode::Layout { child, .. } => child.depth() + 1,
            _ => 0,
        }
    }

    /// The source that this scene draws: that of its leaf.
    pub open spec fn source(self) -> Seq<char>
        decreases self,
    {
        match self {
            SceneNode::Image { source_id } => source_id@,
            SceneNode::Video { source_id } => source_id@,
            SceneNode::Layout { child, .. } => child.source(),
        }
    }

    /// Every scene resolves to exactly one renderable leaf, which is no layout.
    pub proof fn lemma_one_leaf(self)
        ensures
            self.leaf_count() == 1,
            !(self.leaf() is Layout),
            self.leaf().source() == self.source(),
        decreases self,
    {
        match self {
            SceneNode::Layout { child, .. } => {
                child.lemma_one_leaf();
            },
            _ => {},
        }
    }

    /// Whether this scene is a leaf.
    pub fn is_leaf(&self) -> (r: bool)
        ensures
            r == !(self is Layout),
    {
        match self {
            SceneNode::Layout { .. } => false,
            _ => true,
        }
    }

    /// The leaf that this scene resolves to.
    pub fn resolve(&self) -> (r: &SceneNode)
        ensures
            *r == self.leaf(),
            !(*r is Layout),
        decreases self,
    {
        match self {
            SceneNode::Layout { child, .. } => child.resolve(),
            _ => self,
        }
    }

    /// The identifier of the source that this scene draws.
    pub fn source_id(&self) -> (r: &String)
        ensures
            r@ == self.source(),
        decreases self,
    {
        match self {
            SceneNode::Image { source_id } => source_id,
            SceneNode::Video { source_id } => source_id,
            SceneNode::Layout { child, .. } => child.source_id(),
        }
    }

    /// A copy of this scene.
    pub fn duplicate(&self) -> (r: SceneNode)
        ensures
            r == *self,
        decreases self,
    {
        match self {
            SceneNode::Image { source_id } => SceneNode::Image { source_id: source_id.clone() },
            SceneNode::Video { source_id } => SceneNode::Video { source_id: source_id.clone() },
            SceneNode::Layout { child, position, size, alignment } => SceneNode::Layout {
                child: Box::new(child.duplicate()),
                position: *position,
                size: *size,
                alignment: *alignment,
            },
        }
    }
}

} // verus!
