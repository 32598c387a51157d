use image_manip::args::{check_watermark_flags, parse_resize_arg, parse_rgba_arg};
use image_manip::composite::Alpha;
use image_manip::error::{ArgumentError, MagickError};
use image_manip::geometry::{ResizeConstraint, ResizeGeometry, ResizeTarget};
use image_manip::gravity::Gravity;
use image_manip::operations::{FilePlan, Modifiers, Operation, Plan};

fn fit(w: u32, h: u32) -> ResizeGeometry {
    ResizeGeometry {
        target: ResizeTarget::Size { width: Some(w), height: Some(h), ignore_aspect_ratio: false },
        constraint: ResizeConstraint::OnlyShrink,
    }
}

#[test]
fn parses_resize_argument() {
    assert_eq!(parse_resize_arg("400x300"), Ok(fit(400, 300)));
    assert_eq!(parse_resize_arg("+7x0"), Ok(fit(7, 0)));
    assert_eq!(parse_resize_arg("4294967295x1"), Ok(fit(u32::MAX, 1)));
}

#[test]
fn rejects_malformed_resize_argument() {
    for bad in ["400", "400x300x2", "", "400X300"] {
        assert_eq!(parse_resize_arg(bad), Err(MagickError::InvalidArgument(ArgumentError::Resize)), "{}", bad);
    }
    for bad in ["x300", "4a0x300", "-1x3", "4294967296x1", "4a0x"] {
        assert_eq!(parse_resize_arg(bad), Err(MagickError::InvalidArgument(ArgumentError::ResizeWidth)), "{}", bad);
    }
    for bad in ["400x", "400x3b", "1x4294967296"] {
        assert_eq!(parse_resize_arg(bad), Err(MagickError::InvalidArgument(ArgumentError::ResizeHeight)), "{}", bad);
    }
    assert_eq!(
        MagickError::InvalidArgument(ArgumentError::ResizeWidth).message(),
        "invalid width in resize argument"
    );
}

#[test]
fn parses_rgba_argument() {
    assert_eq!(parse_rgba_arg("255,128,0,64"), Ok((255, 128, 0, 64)));
    assert_eq!(parse_rgba_arg("0,0,0,0"), Ok((0, 0, 0, 0)));
}

#[test]
fn rejects_malformed_rgba_argument() {
    for bad in ["255,0,0", "255,0,0,0,1", "256,0,0,0", "a,0,0,0", "1,,2,3", " 1,2,3,4"] {
        assert_eq!(parse_rgba_arg(bad), Err(MagickError::InvalidArgument(ArgumentError::RgbaColor)), "{}", bad);
    }
}

#[test]
fn watermark_image_and_text_exclude_each_other() {
    assert_eq!(
        check_watermark_flags(true, true),
        Err(MagickError::InvalidArgument(ArgumentError::ConflictingWatermarks))
    );
    assert_eq!(
        MagickError::InvalidArgument(ArgumentError::ConflictingWatermarks).message(),
        "cannot specify both watermark image and watermark text"
    );
    assert_eq!(check_watermark_flags(true, false), Ok(()));
    assert_eq!(check_watermark_flags(false, true), Ok(()));
    assert_eq!(check_watermark_flags(false, false), Ok(()));
}

#[test]
fn manipulate_plan_in_argument_order() {
    let modifiers = Modifiers { quality: Some(80), strip_exif: true, strip_icc: true, identify_format: None };
    let file = FilePlan { location: "mark.png".to_string(), format: None };
    let alpha = Alpha::new(1, 2);
    let plan = Plan::manipulate(Some(fit(10, 10)), Some((file.clone(), Gravity::South, alpha)), modifiers.clone());
    assert_eq!(
        plan.operations,
        vec![
            Operation::AutoOrient,
            Operation::Resize(fit(10, 10)),
            Operation::Composite(file, None, Gravity::South, alpha),
        ]
    );
    assert_eq!(plan.modifiers, modifiers);
    let bare = Plan::manipulate(None, None, modifiers);
    assert_eq!(bare.operations, vec![Operation::AutoOrient]);
}

#[test]
fn gravity_flag_defaults_to_center_and_rejects_unknown_tokens() {
    assert_eq!(image_manip::args::gravity_arg(Some("NorthEast")), Ok(Gravity::Northeast));
    assert_eq!(image_manip::args::gravity_arg(Some("up")), Err(MagickError::InvalidArgument(ArgumentError::Gravity)));
    assert_eq!(image_manip::args::gravity_arg(None), Ok(Gravity::Center));
}

#[test]
fn text_colour_defaults_to_opaque_white() {
    assert_eq!(image_manip::args::text_color_arg(None), Ok((255, 255, 255, 255)));
    assert_eq!(image_manip::args::text_color_arg(Some("1,2,3,4")), Ok((1, 2, 3, 4)));
    assert_eq!(image_manip::args::text_color_arg(Some("1,2,3")), Err(MagickError::InvalidArgument(ArgumentError::RgbaColor)));
    assert_eq!(MagickError::InvalidArgument(ArgumentError::RgbaColor).message(), "invalid RGBA color");
}

#[test]
fn image_opacity_defaults_to_opaque_and_clamps() {
    assert_eq!(image_manip::args::opacity_arg(None), Alpha { num: 1, den: 1 });
    assert_eq!(image_manip::args::opacity_arg(Some(500)), Alpha { num: 500, den: 1000 });
    assert_eq!(image_manip::args::opacity_arg(Some(7000)), Alpha { num: 1000, den: 1000 });
}

#[test]
fn identify_text_expands_the_template() {
    let line: String = image_manip::args::identify_text("%w %h", 800, 600).into_iter().collect();
    assert_eq!(line, "800 600");
    let other: String = image_manip::args::identify_text("size=%wx%h%%q", 0, 4294967295).into_iter().collect();
    assert_eq!(other, "size=0x4294967295%%q");
    assert!(image_manip::args::identify_text("", 1, 2).is_empty());
}

#[test]
fn decimal_digits_of_numbers() {
    assert_eq!(image_manip::args::decimal_digits(0), vec!['0']);
    assert_eq!(image_manip::args::decimal_digits(1070), vec!['1', '0', '7', '0']);
}
