use tetris::{shape_offsets, turn_offsets, Point, SHAPE_COUNT};

#[test]
fn quarter_turn_maps_x_y_to_y_minus_x() {
    let offsets = shape_offsets(0);
    let turned = turn_offsets(&offsets);
    assert_eq!(
        turned,
        vec![
            Point { x: 0, y: 0 },
            Point { x: 1, y: 0 },
            Point { x: -1, y: 0 },
            Point { x: 1, y: 1 },
        ]
    );
}

#[test]
fn four_turns_return_every_offset() {
    for shape in 0..SHAPE_COUNT {
        let offsets = shape_offsets(shape);
        let once = turn_offsets(&offsets);
        assert_ne!(once, offsets);
        let four = turn_offsets(&turn_offsets(&turn_offsets(&once)));
        assert_eq!(four, offsets);
    }
}

#[test]
fn catalog_shapes_start_at_anchor() {
    for shape in 0..SHAPE_COUNT {
        let offsets = shape_offsets(shape);
        assert_eq!(offsets[0], Point { x: 0, y: 0 });
        assert!(offsets.len() >= 3 && offsets.len() <= 4);
    }
    assert_eq!(shape_offsets(1).len(), 3);
}
