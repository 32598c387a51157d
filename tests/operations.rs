use image_manip::composite::Alpha;
use image_manip::error::{ArgumentError, MagickError};
use image_manip::geometry::{ResizeConstraint, ResizeGeometry, ResizeTarget};
use image_manip::gravity::Gravity;
use image_manip::image::{Image, Pixel};
use image_manip::label::{label, label_alpha, label_canvas, text_color};
use image_manip::operations::{FilePlan, Modifiers, Operation, Plan, PlanStep};
use image_manip::transform::{CropGeometry, LoadCropGeometry, Measure};

const RED: Pixel = Pixel { r: 255, g: 0, b: 0, a: 255 };
const WHITE: Pixel = Pixel { r: 255, g: 255, b: 255, a: 255 };

fn shrink_to(w: u32, h: u32) -> ResizeGeometry {
    ResizeGeometry {
        target: ResizeTarget::Size { width: Some(w), height: Some(h), ignore_aspect_ratio: false },
        constraint: ResizeConstraint::OnlyShrink,
    }
}

fn half_crop() -> LoadCropGeometry {
    LoadCropGeometry {
        region: CropGeometry {
            width: Measure::Percent(50),
            height: Measure::Percent(50),
            x: Measure::Pixels(0),
            y: Measure::Pixels(0),
        },
    }
}

fn modifiers() -> Modifiers {
    Modifiers { quality: None, strip_exif: false, strip_icc: false, identify_format: None }
}

#[test]
fn resize_under_only_shrink() {
    let mut img = Image::filled(800, 600, RED).unwrap();
    assert_eq!(Operation::Resize(shrink_to(400, 300)).execute(&mut img, None), Ok(()));
    assert_eq!((img.width, img.height), (400, 300));
    let mut wide = Image::filled(1600, 900, RED).unwrap();
    assert_eq!(Operation::Resize(shrink_to(400, 300)).execute(&mut wide, None), Ok(()));
    assert_eq!((wide.width, wide.height), (400, 225));
}

#[test]
fn resize_to_a_larger_box_under_only_shrink_is_a_no_op() {
    let mut img = Image::filled(800, 600, RED).unwrap();
    let before = img.pixels.clone();
    assert_eq!(Operation::Resize(shrink_to(2000, 2000)).execute(&mut img, None), Ok(()));
    assert_eq!((img.width, img.height), (800, 600));
    assert_eq!(img.pixels, before);
}

#[test]
fn resampling_variants_resize() {
    let g = ResizeGeometry { target: ResizeTarget::Percentage(50), constraint: ResizeConstraint::Unconstrained };
    for op in [Operation::Thumbnail(g), Operation::Scale(g), Operation::Sample(g)] {
        let mut img = Image::filled(8, 4, RED).unwrap();
        assert_eq!(op.execute(&mut img, None), Ok(()));
        assert_eq!((img.width, img.height), (4, 2));
    }
}

#[test]
fn invalid_geometry_is_reported() {
    let g = ResizeGeometry {
        target: ResizeTarget::Size { width: None, height: None, ignore_aspect_ratio: false },
        constraint: ResizeConstraint::Unconstrained,
    };
    let mut img = Image::filled(8, 4, RED).unwrap();
    assert_eq!(Operation::Resize(g).execute(&mut img, None), Err(MagickError::InvalidGeometry));
    assert_eq!((img.width, img.height), (8, 4));
}

#[test]
fn composite_without_its_image_fails() {
    let plan = FilePlan { location: "mark.png".to_string(), format: None };
    let op = Operation::Composite(plan, None, Gravity::Center, Alpha::opaque());
    let mut img = Image::filled(8, 4, RED).unwrap();
    assert_eq!(op.execute(&mut img, None), Err(MagickError::DecodeFailure));
    let broken = Image { width: 2, height: 2, pixels: vec![], orientation: None, has_alpha: true };
    assert_eq!(op.execute(&mut img, Some(broken)), Err(MagickError::DecodeFailure));
}

#[test]
fn composite_blends_the_secondary_image() {
    let plan = FilePlan { location: "mark.png".to_string(), format: None };
    let op = Operation::Composite(plan, None, Gravity::Southeast, Alpha::opaque());
    let mut img = Image::filled(8, 4, RED).unwrap();
    let mark = Image::filled(2, 1, WHITE).unwrap();
    assert_eq!(op.execute(&mut img, Some(mark)), Ok(()));
    assert_eq!(img.pixel(7, 3), WHITE);
    assert_eq!(img.pixel(6, 3), WHITE);
    assert_eq!(img.pixel(5, 3), RED);
    assert_eq!(img.pixel(7, 2), RED);
}

#[test]
fn identify_leaves_the_image_alone() {
    let mut img = Image::filled(3, 3, RED).unwrap();
    assert_eq!(Operation::Identify(None).execute(&mut img, None), Ok(()));
    assert_eq!((img.width, img.height), (3, 3));
}

#[test]
fn crop_operations_run() {
    let mut img = Image::filled(10, 8, RED).unwrap();
    assert_eq!(Operation::CropOnLoad(half_crop()).execute(&mut img, None), Ok(()));
    assert_eq!((img.width, img.height), (5, 4));
    assert_eq!(Operation::Crop(half_crop().region).execute(&mut img, None), Ok(()));
    assert_eq!((img.width, img.height), (3, 2));
}

#[test]
fn auto_orient_operation() {
    let mut img = Image::filled(3, 2, RED).unwrap();
    img.orientation = Some(8);
    assert_eq!(Operation::AutoOrient.execute(&mut img, None), Ok(()));
    assert_eq!((img.width, img.height), (2, 3));
    assert_eq!(img.orientation, None);
}

#[test]
fn load_crop_runs_before_an_earlier_resize() {
    let plan = Plan {
        operations: vec![Operation::Resize(shrink_to(400, 300)), Operation::CropOnLoad(half_crop())],
        modifiers: modifiers(),
    };
    assert_eq!(plan.execution_order(), vec![1, 0]);
    let mut img = Image::filled(800, 600, RED).unwrap();
    for i in plan.execution_order() {
        assert_eq!(plan.operations[i].execute(&mut img, None), Ok(()));
        if i == 1 {
            assert_eq!((img.width, img.height), (400, 300));
        }
    }
    // the crop saw 800x600; the resize then found nothing left to shrink
    assert_eq!((img.width, img.height), (400, 300));
}

#[test]
fn execution_order_keeps_argument_order_within_groups() {
    let g = shrink_to(10, 10);
    let plan = Plan {
        operations: vec![
            Operation::Resize(g),
            Operation::CropOnLoad(half_crop()),
            Operation::AutoOrient,
            Operation::CropOnLoad(half_crop()),
        ],
        modifiers: modifiers(),
    };
    assert_eq!(plan.execution_order(), vec![1, 3, 0, 2]);
    let empty = Plan { operations: vec![], modifiers: modifiers() };
    assert_eq!(empty.execution_order(), Vec::<usize>::new());
}

#[test]
fn label_forces_full_opacity_for_rendering() {
    assert_eq!(text_color((10, 20, 30, 40)), (10, 20, 30, 255));
    assert_eq!(label_alpha((10, 20, 30, 40)), Alpha { num: 40, den: 255 });
}

#[test]
fn label_canvas_is_transparent_and_canvas_sized() {
    let img = Image::filled(7, 5, RED).unwrap();
    let canvas = label_canvas(&img).unwrap();
    assert_eq!((canvas.width, canvas.height), (7, 5));
    assert!(canvas.pixels.iter().all(|p| p.a == 0));
}

#[test]
fn label_composites_the_rendered_layer() {
    let mut img = Image::filled(4, 2, RED).unwrap();
    let mut layer = label_canvas(&img).unwrap();
    layer.pixels[1] = WHITE;
    assert_eq!(label(&mut img, layer, (255, 255, 255, 255)), Ok(()));
    assert_eq!(img.pixel(1, 0), WHITE);
    assert_eq!(img.pixel(0, 0), RED);
}

#[test]
fn transparent_label_changes_nothing() {
    let mut img = Image::filled(4, 2, RED).unwrap();
    let mut layer = label_canvas(&img).unwrap();
    layer.pixels[1] = WHITE;
    assert_eq!(label(&mut img, layer, (255, 255, 255, 0)), Ok(()));
    assert!(img.pixels.iter().all(|p| *p == RED));
}

#[test]
fn label_refuses_a_layer_of_another_size() {
    let mut img = Image::filled(4, 2, RED).unwrap();
    let layer = Image::transparent(3, 2).unwrap();
    assert_eq!(
        label(&mut img, layer, (0, 0, 0, 255)),
        Err(MagickError::InvalidArgument(ArgumentError::TextLayer))
    );
    let mut opaque_layer = Image::transparent(4, 2).unwrap();
    opaque_layer.has_alpha = false;
    assert_eq!(
        label(&mut img, opaque_layer, (0, 0, 0, 255)),
        Err(MagickError::InvalidArgument(ArgumentError::TextLayer))
    );
    assert!(img.pixels.iter().all(|p| *p == RED));
}

#[test]
fn plan_steps_follow_execution_order_and_stop_at_failure() {
    let plan = Plan {
        operations: vec![Operation::Resize(shrink_to(400, 300)), Operation::CropOnLoad(half_crop())],
        modifiers: modifiers(),
    };
    assert_eq!(plan.next_step(0, Ok(())), PlanStep::Run(1));
    assert_eq!(plan.next_step(1, Ok(())), PlanStep::Run(0));
    assert_eq!(plan.next_step(2, Ok(())), PlanStep::Done);
    assert_eq!(
        plan.next_step(1, Err(MagickError::InvalidGeometry)),
        PlanStep::Failed(MagickError::InvalidGeometry)
    );
}

#[test]
fn error_messages() {
    assert_eq!(
        MagickError::InvalidArgument(ArgumentError::Resize).message(),
        "invalid resize argument"
    );
    assert_eq!(
        MagickError::InvalidArgument(ArgumentError::ResizeHeight).message(),
        "invalid height in resize argument"
    );
    assert_eq!(MagickError::DecodeFailure.message(), "image could not be decoded");
    assert_eq!(MagickError::EncodeFailure.message(), "image could not be encoded");
}

#[test]
fn exif_is_kept_unless_stripped_or_reoriented() {
    let mut m = modifiers();
    assert!(m.keeps_exif(None));
    assert!(m.keeps_exif(Some(1)));
    assert!(!m.keeps_exif(Some(6)));
    m.strip_exif = true;
    assert!(!m.keeps_exif(None));
}
