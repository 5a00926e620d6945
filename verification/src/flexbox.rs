//! The axes of a flex container: which way the main and the cross axis run
//! for a flex direction, from which edge each starts, and which size,
//! position and margin properties go with them.

use vstd::prelude::*;

verus! {

/// The direction in which a flex container lays out its items.
#[derive(Debug, Clone, Copy, PartialEq, Eq, Structural)]
pub enum FlexDirection {
    /// Left to right
    Row,
    /// Right to left
    RowReverse,
    /// Top to bottom
    Column,
    /// Bottom to top
    ColumnReverse,
}

/// Axis direction
#[derive(Debug, Clone, Copy, PartialEq, Eq, Structural)]
pub enum AxisDirection {
    /// Horizontal axis
    Horizontal,
    /// Vertical axis
    Vertical,
}

/// Edge
#[derive(Debug, Clone, Copy, PartialEq, Eq, Structural)]
pub enum Edge {
    /// Top edge
    Top,
    /// Right edge
    Right,
    /// Bottom edge
    Bottom,
    /// Left edge
    Left,
}

/// Size property
#[derive(Debug, Clone, Copy, PartialEq, Eq, Structural)]
pub enum SizeProperty {
    /// Width property
    Width,
    /// Height property
    Height,
}

/// Position property
#[derive(Debug, Clone, Copy, PartialEq, Eq, Structural)]
pub enum PositionProperty {
    /// Top property
    Top,
    /// Right property
    Right,
    /// Bottom property
    Bottom,
    /// Left property
    Left,
}

/// Margin property
#[derive(Debug, Clone, Copy, PartialEq, Eq, Structural)]
pub enum MarginProperty {
    /// Margin top property
    MarginTop,
    /// Margin right property
    MarginRight,
    /// Margin bottom property
    MarginBottom,
    /// Margin left property
    MarginLeft,
}

/// Axis information
#[derive(Debug, Clone, Copy, PartialEq, Eq, Structural)]
pub struct Axis {
    /// Axis direction
    pub direction: AxisDirection,
    /// Start edge
    pub start: Edge,
    /// End edge
    pub end: Edge,
    /// Size property
    pub size: SizeProperty,
    /// Position property
    pub position: PositionProperty,
    /// Margin start property
    pub margin_start: MarginProperty,
    /// Margin end property
    pub margin_end: MarginProperty,
}

/// Items run along a row.
pub open spec fn is_row(d: FlexDirection) -> bool {
    d is Row || d is RowReverse
}

/// The edge across from `e`.
pub open spec fn opposite(e: Edge) -> Edge {
    match e {
        Edge::Top => Edge::Bottom,
        Edge::Right => Edge::Left,
        Edge::Bottom => Edge::Top,
        Edge::Left => Edge::Right,
    }
}

/// The position property of an edge.
pub open spec fn edge_position(e: Edge) -> PositionProperty {
    match e {
        Edge::Top => PositionProperty::Top,
        Edge::Right => PositionProperty::Right,
        Edge::Bottom => PositionProperty::Bottom,
        Edge::Left => PositionProperty::Left,
    }
}

/// The margin property of an edge.
pub open spec fn edge_margin(e: Edge) -> MarginProperty {
    match e {
        Edge::Top => MarginProperty::MarginTop,
        Edge::Right => MarginProperty::MarginRight,
        Edge::Bottom => MarginProperty::MarginBottom,
        Edge::Left => MarginProperty::MarginLeft,
    }
}

/// The edge from which the items of a direction start.
pub open spec fn start_edge(d: FlexDirection) -> Edge {
    match d {
        FlexDirection::Row => Edge::Left,
        FlexDirection::RowReverse => Edge::Right,
        FlexDirection::Column => Edge::Top,
        FlexDirection::ColumnReverse => Edge::Bottom,
    }
}

/// `a` is the axis that runs `dir`, from edge `start` to the edge across,
/// with the size property of its direction and the position and margin
/// properties of its edges.
pub open spec fn axis_from(a: Axis, dir: AxisDirection, start: Edge) -> bool {
    &&& a.direction == dir
    &&& a.start == start
    &&& a.end == opposite(start)
    &&& a.size == (if dir is Horizontal {
        SizeProperty::Width
    } else {
        SizeProperty::Height
    })
    &&& a.position == edge_position(start)
    &&& a.margin_start == edge_margin(start)
    &&& a.margin_end == edge_margin(opposite(start))
}

/// The axis that runs `dir` from `start`.
fn make_axis(dir: AxisDirection, start: Edge) -> (r: Axis)
    requires
        dir is Horizontal ==> (start is Left || start is Right),
        dir is Vertical ==> (start is Top || start is Bottom),
    ensures
        axis_from(r, dir, start),
{
    let (end, position, margin_start, margin_end) = match start {
        Edge::Top => (Edge::Bottom, PositionProperty::Top, MarginProperty::MarginTop, MarginProperty::MarginBottom),
        Edge::Right => (Edge::Left, PositionProperty::Right, MarginProperty::MarginRight, MarginProperty::MarginLeft),
        Edge::Bottom => (Edge::Top, PositionProperty::Bottom, MarginProperty::MarginBottom, MarginProperty::MarginTop),
        Edge::Left => (Edge::Right, PositionProperty::Left, MarginProperty::MarginLeft, MarginProperty::MarginRight),
    };
    let size = match dir {
        AxisDirection::Horizontal => SizeProperty::Width,
        AxisDirection::Vertical => SizeProperty::Height,
    };
    Axis { direction: dir, start, end, size, position, margin_start, margin_end }
}

/// Get main axis: horizontal for a row and vertical for a column, starting
/// from the left, right, top or bottom edge as the direction runs.
pub fn get_main_axis(direction: FlexDirection) -> (r: Axis)
    ensures
        axis_from(
            r,
            if is_row(direction) {
                AxisDirection::Horizontal
            } else {
                AxisDirection::Vertical
            },
            start_edge(direction),
        ),
{
    match direction {
        FlexDirection::Row => make_axis(AxisDirection::Horizontal, Edge::Left),
        FlexDirection::RowReverse => make_axis(AxisDirection::Horizontal, Edge::Right),
        FlexDirection::Column => make_axis(AxisDirection::Vertical, Edge::Top),
        FlexDirection::ColumnReverse => make_axis(AxisDirection::Vertical, Edge::Bottom),
    }
}

/// Get cross axis: vertical from the top for a row, horizontal from the
/// left for a column, whichever way the direction runs.
pub fn get_cross_axis(direction: FlexDirection) -> (r: Axis)
    ensures
        if is_row(direction) {
            axis_from(r, AxisDirection::Vertical, Edge::Top)
        } else {
            axis_from(r, AxisDirection::Horizontal, Edge::Left)
        },
{
    match direction {
        FlexDirection::Row | FlexDirection::RowReverse => make_axis(AxisDirection::Vertical, Edge::Top),
        FlexDirection::Column | FlexDirection::ColumnReverse => make_axis(AxisDirection::Horizontal, Edge::Left),
    }
}

/// The main and the cross axis of a direction are perpendicular, and use
/// the two different size properties.
pub proof fn lemma_axes_perpendicular(d: FlexDirection, main: Axis, cross: Axis)
    requires
        axis_from(
            main,
            if is_row(d) {
                AxisDirection::Horizontal
            } else {
                AxisDirection::Vertical
            },
            start_edge(d),
        ),
        if is_row(d) {
            axis_from(cross, AxisDirection::Vertical, Edge::Top)
        } else {
            axis_from(cross, AxisDirection::Horizontal, Edge::Left)
        },
    ensures
        main.direction != cross.direction,
        main.size != cross.size,
{
}

/// The size properties of a box's style, in whatever length type the style
/// uses, with the flex direction they are read along.
#[derive(Debug, Clone)]
pub struct BoxSizes<L> {
    /// Flex direction
    pub flex_direction: FlexDirection,
    /// Width
    pub width: Option<L>,
    /// Height
    pub height: Option<L>,
    /// Minimum width
    pub min_width: Option<L>,
    /// Minimum height
    pub min_height: Option<L>,
    /// Maximum width
    pub max_width: Option<L>,
    /// Maximum height
    pub max_height: Option<L>,
}

/// A box being laid out, as far as its size properties go.
#[derive(Debug, Clone)]
pub struct LayoutBox<L> {
    /// The box's size properties and flex direction
    pub style: BoxSizes<L>,
}

/// A borrowed optional value is the optional value.
pub open spec fn borrows<L>(r: Option<&L>, o: Option<L>) -> bool {
    match r {
        Some(x) => o == Some(*x),
        None => o is None,
    }
}

/// Borrows the value of an optional property.
fn borrow_property<L>(o: &Option<L>) -> (r: Option<&L>)
    ensures
        borrows(r, *o),
{
    match o {
        Some(x) => Some(x),
        None => None,
    }
}

impl<L> LayoutBox<L> {
    /// Get main size property: the width for a row, the height for a column.
    pub fn get_main_size_property(&self) -> (r: Option<&L>)
        ensures
            borrows(r, if is_row(self.style.flex_direction) { self.style.width } else { self.style.height }),
    {
        match self.style.flex_direction {
            FlexDirection::Row | FlexDirection::RowReverse => borrow_property(&self.style.width),
            FlexDirection::Column | FlexDirection::ColumnReverse => borrow_property(&self.style.height),
        }
    }

    /// Get cross size property: the height for a row, the width for a column.
    pub fn get_cross_size_property(&self) -> (r: Option<&L>)
        ensures
            borrows(r, if is_row(self.style.flex_direction) { self.style.height } else { self.style.width }),
    {
        match self.style.flex_direction {
            FlexDirection::Row | FlexDirection::RowReverse => borrow_property(&self.style.height),
            FlexDirection::Column | FlexDirection::ColumnReverse => borrow_property(&self.style.width),
        }
    }

    /// Get min main size property: the minimum width for a row, the minimum
    /// height for a column.
    pub fn get_min_main_size_property(&self) -> (r: Option<&L>)
        ensures
            borrows(
                r,
                if is_row(self.style.flex_direction) { self.style.min_width } else { self.style.min_height },
            ),
    {
        match self.style.flex_direction {
            FlexDirection::Row | FlexDirection::RowReverse => borrow_property(&self.style.min_width),
            FlexDirection::Column | FlexDirection::ColumnReverse => borrow_property(&self.style.min_height),
        }
    }

    /// Get max main size property: the maximum width for a row, the maximum
    /// height for a column.
    pub fn get_max_main_size_property(&self) -> (r: Option<&L>)
        ensures
            borrows(
                r,
                if is_row(self.style.flex_direction) { self.style.max_width } else { self.style.max_height },
            ),
    {
        match self.style.flex_direction {
            FlexDirection::Row | FlexDirection::RowReverse => borrow_property(&self.style.max_width),
            FlexDirection::Column | FlexDirection::ColumnReverse => borrow_property(&self.style.max_height),
        }
    }

    /// Get min cross size property: the minimum height for a row, the minimum
    /// width for a column.
    pub fn get_min_cross_size_property(&self) -> (r: Option<&L>)
        ensures
            borrows(
                r,
                if is_row(self.style.flex_direction) { self.style.min_height } else { self.style.min_width },
            ),
    {
        match self.style.flex_direction {
            FlexDirection::Row | FlexDirection::RowReverse => borrow_property(&self.style.min_height),
            FlexDirection::Column | FlexDirection::ColumnReverse => borrow_property(&self.style.min_width),
        }
    }

    /// Get max cross size property: the maximum height for a row, the maximum
    /// width for a column.
    pub fn get_max_cross_size_property(&self) -> (r: Option<&L>)
        ensures
            borrows(
                r,
                if is_row(self.style.flex_direction) { self.style.max_height } else { self.style.max_width },
            ),
    {
        match self.style.flex_direction {
            FlexDirection::Row | FlexDirection::RowReverse => borrow_property(&self.style.max_height),
            FlexDirection::Column | FlexDirection::ColumnReverse => borrow_property(&self.style.max_width),
        }
    }
}

} // verus!
