use image_manip::error::{ArgumentError, MagickError};
use image_manip::gravity::{AxisAlign, Gravity, TextPosition};

#[test]
fn parses_gravity_ignoring_case() {
    assert_eq!(Gravity::try_from("SouthEast"), Ok(Gravity::Southeast));
    assert_eq!(Gravity::try_from("center"), Ok(Gravity::Center));
    assert_eq!(Gravity::try_from("NORTHWEST"), Ok(Gravity::Northwest));
    assert_eq!(Gravity::try_from("west"), Ok(Gravity::West));
}

#[test]
fn rejects_unknown_gravity() {
    for bad in ["middle", "", "south east", " north", "north-east"] {
        let e = Gravity::try_from(bad).unwrap_err();
        assert_eq!(e, MagickError::InvalidArgument(ArgumentError::Gravity));
        assert_eq!(e.message(), "invalid gravity argument");
    }
}

#[test]
fn corner_anchors() {
    assert_eq!(Gravity::Southeast.anchor(800, 600, 100, 50), (700, 550));
    assert_eq!(Gravity::Northwest.anchor(800, 600, 100, 50), (0, 0));
    assert_eq!(Gravity::Northeast.anchor(800, 600, 100, 50), (700, 0));
    assert_eq!(Gravity::Southwest.anchor(800, 600, 100, 50), (0, 550));
}

#[test]
fn centred_anchors_truncate_toward_zero() {
    assert_eq!(Gravity::Center.anchor(800, 600, 101, 51), (349, 274));
    assert_eq!(Gravity::North.anchor(10, 10, 3, 3), (3, 0));
    assert_eq!(Gravity::East.anchor(10, 10, 3, 3), (7, 3));
    assert_eq!(Gravity::West.anchor(10, 10, 3, 4), (0, 3));
    assert_eq!(Gravity::South.anchor(10, 10, 3, 3), (3, 7));
    assert_eq!(Gravity::Center.anchor(2, 2, 5, 5), (-1, -1));
}

#[test]
fn oversized_foreground_gives_negative_offsets() {
    assert_eq!(Gravity::Southeast.anchor(10, 10, 30, 20), (-20, -10));
    assert_eq!(Gravity::Northwest.anchor(10, 10, 30, 20), (0, 0));
}

#[test]
fn text_positions_follow_the_gravity_table() {
    assert_eq!(
        Gravity::Southeast.text_position(640, 480),
        TextPosition { x: AxisAlign::EndAt(640), y: AxisAlign::EndAt(480) }
    );
    assert_eq!(
        Gravity::North.text_position(640, 480),
        TextPosition { x: AxisAlign::CenterAtCanvasCenter, y: AxisAlign::StartAt(0) }
    );
    assert_eq!(
        Gravity::West.text_position(640, 480),
        TextPosition { x: AxisAlign::StartAt(0), y: AxisAlign::CenterAtCanvasCenter }
    );
}

#[test]
fn error_messages_are_not_empty() {
    assert_eq!(MagickError::InvalidGeometry.message(), "invalid geometry");
    assert!(!MagickError::DecodeFailure.message().is_empty());
}
