use taffy::prelude::length;
use taffy::{
    compute_leaf_layout, AvailableSpace, Dimension, Display, FlexDirection, Size, Style, TaffyTree,
};
use text_block::layout::MeasuredLayout;
use text_block::measure::{
    measure_function, AvailableSize, AvailableSpace as Offered, KnownDimensions, NodeContext,
};

fn to_fixed(pixels: f32) -> i32 {
    (pixels * 64.0).round() as i32
}

fn from_fixed(units: i32) -> f32 {
    units as f32 / 64.0
}

fn offered(space: AvailableSpace) -> Offered {
    match space {
        AvailableSpace::Definite(v) => Offered::Definite(to_fixed(v)),
        AvailableSpace::MinContent => Offered::MinContent,
        AvailableSpace::MaxContent => Offered::MaxContent,
    }
}

/// Text that would be 2000 pixels wide on one line of 20 pixels, broken into
/// as many lines as the constraint asks for.
fn wrap(constraint: Option<i32>) -> MeasuredLayout {
    let natural = to_fixed(2000.0);
    let line = to_fixed(20.0);
    match constraint {
        Some(w) if w > 0 && w < natural => {
            let lines = (natural + w - 1) / w;
            MeasuredLayout { width: w, height: lines * line, lines: Vec::new() }
        }
        Some(w) if w <= 0 => MeasuredLayout { width: to_fixed(50.0), height: 40 * line, lines: Vec::new() },
        _ => MeasuredLayout { width: natural, height: line, lines: Vec::new() },
    }
}

#[test]
fn text_box_fills_the_padded_column() {
    let mut tree: TaffyTree<NodeContext> = TaffyTree::new();
    let text_node = tree.new_leaf_with_context(Style::default(), NodeContext::text("text")).unwrap();
    let other_node = tree
        .new_leaf(Style {
            flex_basis: Dimension::auto(),
            flex_grow: 1.,
            flex_shrink: 1.,
            ..Style::default()
        })
        .unwrap();
    let root = tree
        .new_with_children(
            Style {
                display: Display::Flex,
                flex_direction: FlexDirection::Column,
                size: Size { width: Dimension::percent(1.), height: Dimension::percent(1.) },
                padding: taffy::geometry::Rect {
                    top: length(10.),
                    left: length(10.),
                    right: length(10.),
                    bottom: length(10.),
                },
                ..Default::default()
            },
            &[text_node, other_node],
        )
        .unwrap();

    tree.compute_layout_with_measure(
        root,
        Size { width: AvailableSpace::Definite(500.0), height: AvailableSpace::Definite(300.0) },
        |inputs, _node_id, node_context, style| {
            compute_leaf_layout(
                inputs,
                style,
                |_, _| 0.0,
                |known, available| {
                    let known = KnownDimensions {
                        width: known.width.map(to_fixed),
                        height: known.height.map(to_fixed),
                    };
                    let space = AvailableSize {
                        width: offered(available.width),
                        height: offered(available.height),
                    };
                    let size = measure_function(
                        known,
                        space,
                        node_context.map(|context| &*context),
                        |_text: &String, constraint| wrap(constraint),
                    );
                    Size { width: from_fixed(size.width), height: from_fixed(size.height) }
                },
            )
        },
    )
    .unwrap();

    let text_box = tree.layout(text_node).unwrap();
    assert_eq!(text_box.size.width, 480.0);
    assert_eq!(text_box.location.x, 10.0);
    assert_eq!(text_box.location.y, 10.0);
    let other_box = tree.layout(other_node).unwrap();
    assert_eq!(other_box.size.width, 480.0);
    assert_eq!(text_box.size.height + other_box.size.height, 280.0);
}
