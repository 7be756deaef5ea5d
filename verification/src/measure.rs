//! The measurement side of box layout: what size a text block asks for
//! under a width hypothesis.

use vstd::prelude::*;
use crate::layout::MeasuredLayout;
use crate::layout::build_layout;
use crate::layout::built_by;

verus! {

/// How much room a box is offered along one axis.
#[derive(Clone, Copy, Debug, PartialEq, Eq, Structural)]
pub enum AvailableSpace {
    /// This many units.
    Definite(i32),
    /// As little as the content can do with.
    MinContent,
    /// As much as the content would like.
    MaxContent,
}

/// The dimensions of a box that are already decided.
#[derive(Clone, Copy, Debug, PartialEq, Eq, Structural)]
pub struct KnownDimensions {
    pub width: Option<i32>,
    pub height: Option<i32>,
}

/// The room offered to a box along both axes.
#[derive(Clone, Copy, Debug, PartialEq, Eq, Structural)]
pub struct AvailableSize {
    pub width: AvailableSpace,
    pub height: AvailableSpace,
}

/// A width and a height.
#[derive(Clone, Copy, Debug, PartialEq, Eq, Structural)]
pub struct Size {
    pub width: i32,
    pub height: i32,
}

/// A text block in the box tree.
pub struct TextBlockNodeContext {
    pub text: String,
}

/// What a leaf of the box tree holds.
pub enum NodeContext {
    Text(TextBlockNodeContext),
}

/// The width that text is broken and aligned against: a decided width comes
/// first; otherwise minimum content means width 0, maximum content means no
/// limit, and a definite offer is taken as it is.
pub open spec fn width_constraint_of(known_width: Option<i32>, available_width: AvailableSpace) -> Option<
    i32,
> {
    match known_width {
        Some(w) => Some(w),
        None => match available_width {
            AvailableSpace::MinContent => Some(0i32),
            AvailableSpace::MaxContent => None,
            AvailableSpace::Definite(w) => Some(w),
        },
    }
}

/// Whether both dimensions are already decided.
pub open spec fn fully_known(known: KnownDimensions) -> bool {
    known.width is Some && known.height is Some
}

/// The extent of a layout.
pub open spec fn extent_of(layout: MeasuredLayout) -> Size {
    Size { width: layout.width, height: layout.height }
}

/// The width that text is broken and aligned against.
pub fn width_constraint(known_width: Option<i32>, available_width: AvailableSpace) -> (res: Option<i32>)
    ensures
        res == width_constraint_of(known_width, available_width),
{
    match known_width {
        Some(w) => Some(w),
        None => match available_width {
            AvailableSpace::MinContent => Some(0),
            AvailableSpace::MaxContent => None,
            AvailableSpace::Definite(w) => Some(w),
        },
    }
}

/// The width that the render pass breaks and aligns text against, for a box
/// whose width was resolved to `resolved_width`.
pub fn render_constraint(resolved_width: i32) -> (res: Option<i32>)
    ensures
        res == Some(resolved_width),
{
    Some(resolved_width)
}

/// Measuring and rendering agree: a text block measured with its width
/// decided is broken against that width, whatever room is offered, and that
/// is the width the render pass uses for a box resolved to it.
pub proof fn law_passes_agree(width: i32, offered: AvailableSpace)
    ensures
        width_constraint_of(Some(width), offered) == Some(width),
{
}

/// Without a decided width the constraint never exceeds a definite offer:
/// it is the offer itself, and 0 under minimum content.
pub proof fn law_constraint_follows_offer(offered: AvailableSpace)
    ensures
        offered matches AvailableSpace::Definite(w) ==> width_constraint_of(None, offered) == Some(w),
        offered == AvailableSpace::MinContent ==> width_constraint_of(None, offered) == Some(0i32),
        offered == AvailableSpace::MaxContent ==> width_constraint_of(None, offered) is None,
{
}

impl MeasuredLayout {
    /// The extent of the layout.
    pub fn extent(&self) -> (size: Size)
        ensures
            size == extent_of(*self),
    {
        Size { width: self.width, height: self.height }
    }
}

impl TextBlockNodeContext {
    /// The size that the text asks for: the extent of the layout built of
    /// the text, with `shape` for the shaping, under the width constraint
    /// that the known width and the offered width give.
    pub fn measure<F: FnOnce(&String, Option<i32>) -> MeasuredLayout>(
        &self,
        known_dimensions: KnownDimensions,
        available_space: AvailableSize,
        shape: F,
    ) -> (size: Size)
        requires
            self.text@.len() > 0 ==> shape.requires(
                (&self.text, width_constraint_of(known_dimensions.width, available_space.width)),
            ),
        ensures
            exists|layout: MeasuredLayout|
                built_by(
                    shape,
                    &self.text,
                    width_constraint_of(known_dimensions.width, available_space.width),
                    layout,
                ) && size == extent_of(layout),
            self.text@.len() == 0 ==> size == (Size { width: 0, height: 0 }),
    {
        let constraint = width_constraint(known_dimensions.width, available_space.width);
        let layout = build_layout(&self.text, constraint, shape);
        layout.extent()
    }
}

impl NodeContext {
    /// A text node that holds `text`.
    pub fn text(text: &str) -> (res: NodeContext)
        ensures
            res matches NodeContext::Text(block) && block.text@ == text@,
    {
        NodeContext::Text(TextBlockNodeContext { text: text.to_owned() })
    }
}

/// The size of a leaf. Dimensions that are both decided are handed back as
/// they are and nothing is measured; a leaf without content has no extent;
/// a text block is measured.
pub fn measure_function<F: FnOnce(&String, Option<i32>) -> MeasuredLayout>(
    known_dimensions: KnownDimensions,
    available_space: AvailableSize,
    node_context: Option<&NodeContext>,
    shape: F,
) -> (size: Size)
    requires
        !fully_known(known_dimensions) ==> (node_context matches Some(NodeContext::Text(block))
            ==> block.text@.len() > 0 ==> shape.requires(
            (&block.text, width_constraint_of(known_dimensions.width, available_space.width)),
        )),
    ensures
        fully_known(known_dimensions) ==> size == (Size {
            width: known_dimensions.width->Some_0,
            height: known_dimensions.height->Some_0,
        }),
        !fully_known(known_dimensions) && node_context is None ==> size == (Size {
            width: 0,
            height: 0,
        }),
        !fully_known(known_dimensions) ==> (node_context matches Some(NodeContext::Text(block))
            ==> exists|layout: MeasuredLayout|
            built_by(
                shape,
                &block.text,
                width_constraint_of(known_dimensions.width, available_space.width),
                layout,
            ) && size == extent_of(layout)),
{
    match (known_dimensions.width, known_dimensions.height) {
        (Some(width), Some(height)) => {
            return Size { width, height };
        },
        _ => {},
    }
    match node_context {
        None => Size { width: 0, height: 0 },
        Some(NodeContext::Text(block)) => block.measure(known_dimensions, available_space, shape),
    }
}

} // verus!
