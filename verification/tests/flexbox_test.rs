use networking::flexbox::{
    get_cross_axis, get_main_axis, AxisDirection, BoxSizes, Edge, FlexDirection, LayoutBox, MarginProperty,
    PositionProperty, SizeProperty,
};

#[test]
fn row_axes() {
    let main = get_main_axis(FlexDirection::Row);
    assert_eq!(main.direction, AxisDirection::Horizontal);
    assert_eq!((main.start, main.end), (Edge::Left, Edge::Right));
    assert_eq!(main.size, SizeProperty::Width);
    assert_eq!(main.position, PositionProperty::Left);
    assert_eq!((main.margin_start, main.margin_end), (MarginProperty::MarginLeft, MarginProperty::MarginRight));
    let cross = get_cross_axis(FlexDirection::RowReverse);
    assert_eq!(cross.direction, AxisDirection::Vertical);
    assert_eq!((cross.start, cross.size), (Edge::Top, SizeProperty::Height));
}

#[test]
fn reversed_column_axes() {
    let main = get_main_axis(FlexDirection::ColumnReverse);
    assert_eq!(main.direction, AxisDirection::Vertical);
    assert_eq!((main.start, main.end), (Edge::Bottom, Edge::Top));
    assert_eq!(main.position, PositionProperty::Bottom);
    assert_eq!(main.margin_end, MarginProperty::MarginTop);
    let cross = get_cross_axis(FlexDirection::Column);
    assert_eq!((cross.direction, cross.start, cross.end), (AxisDirection::Horizontal, Edge::Left, Edge::Right));
}

fn sized_box(direction: FlexDirection) -> LayoutBox<f32> {
    LayoutBox {
        style: BoxSizes {
            flex_direction: direction,
            width: Some(100.0),
            height: Some(50.0),
            min_width: Some(10.0),
            min_height: None,
            max_width: Some(200.0),
            max_height: Some(80.0),
        },
    }
}

#[test]
fn size_properties_follow_the_direction() {
    let row = sized_box(FlexDirection::RowReverse);
    assert_eq!(row.get_main_size_property(), Some(&100.0));
    assert_eq!(row.get_cross_size_property(), Some(&50.0));
    assert_eq!(row.get_min_main_size_property(), Some(&10.0));
    assert_eq!(row.get_min_cross_size_property(), None);
    assert_eq!(row.get_max_main_size_property(), Some(&200.0));
    assert_eq!(row.get_max_cross_size_property(), Some(&80.0));
    let column = sized_box(FlexDirection::Column);
    assert_eq!(column.get_main_size_property(), Some(&50.0));
    assert_eq!(column.get_cross_size_property(), Some(&100.0));
    assert_eq!(column.get_min_main_size_property(), None);
    assert_eq!(column.get_min_cross_size_property(), Some(&10.0));
    assert_eq!(column.get_max_main_size_property(), Some(&80.0));
    assert_eq!(column.get_max_cross_size_property(), Some(&200.0));
}
