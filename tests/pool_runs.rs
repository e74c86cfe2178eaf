use cg8::filter::{blur_passes, bloom_passes, find_aliased, frame_passes, Pass, Stage};
use cg8::pool::{apply_pass, initial_images, run_passes, Image};

fn filtered(stage: Stage, x: Image) -> Image {
    Image::Filtered(stage, Box::new(x))
}

fn blurred(x: Image) -> Image {
    filtered(Stage::BlurVertical, filtered(Stage::BlurHorizontal, x))
}

fn bloomed(x: Image) -> Image {
    let bright = blurred(filtered(Stage::BloomThreshold, x.duplicate()));
    Image::Combined(Stage::Add, Box::new(x), Box::new(bright))
}

fn has_hazard(x: &Image) -> bool {
    match x {
        Image::Initial(_) => false,
        Image::Filtered(_, a) => has_hazard(a),
        Image::Combined(_, a, b) => has_hazard(a) || has_hazard(b),
        Image::Hazard => true,
    }
}

#[test]
fn initial_pool_holds_own_contents() {
    let pool = initial_images(3);
    assert_eq!(pool, vec![Image::Initial(0), Image::Initial(1), Image::Initial(2)]);
    assert_eq!(initial_images(0), Vec::<Image>::new());
}

#[test]
fn duplicate_is_equal() {
    let x = bloomed(Image::Initial(4));
    assert_eq!(x.duplicate(), x);
}

#[test]
fn blur_of_one_texture_is_vertical_of_horizontal() {
    let mut pool = initial_images(3);
    run_passes(&mut pool, &blur_passes(0, 1, 2));
    assert_eq!(pool[1], blurred(Image::Initial(0)));
    assert_eq!(pool[2], filtered(Stage::BlurHorizontal, Image::Initial(0)));
    assert_eq!(pool[0], Image::Initial(0));
}

#[test]
fn bloom_adds_blurred_bright_part_to_source() {
    let mut pool = initial_images(4);
    run_passes(&mut pool, &bloom_passes(1, 0, 2, 3));
    assert_eq!(pool[0], bloomed(Image::Initial(1)));
    assert_eq!(pool[1], Image::Initial(1));
    assert_eq!(
        pool[3],
        blurred(filtered(Stage::BloomThreshold, Image::Initial(1)))
    );
}

#[test]
fn frame_reaches_surface() {
    let mut pool = initial_images(5);
    run_passes(&mut pool, &frame_passes(0, 1, 2, 3, 4));
    let expected = filtered(
        Stage::Sample,
        bloomed(filtered(Stage::RoundColor, Image::Initial(0))),
    );
    assert_eq!(pool[4], expected);
    assert!(pool.iter().all(|x| !has_hazard(x)));
}

#[test]
fn single_pass_overwrites_only_destination() {
    let mut pool = initial_images(3);
    let add = Pass { stage: Stage::Add, sources: vec![0, 1], dst: 2 };
    apply_pass(&mut pool, &add);
    assert_eq!(
        pool[2],
        Image::Combined(Stage::Add, Box::new(Image::Initial(0)), Box::new(Image::Initial(1)))
    );
    assert_eq!(pool[0], Image::Initial(0));
    assert_eq!(pool[1], Image::Initial(1));
}

#[test]
fn aliased_chain_differs_from_expected_result() {
    // The blur is given its own source as scratch texture.
    let passes = blur_passes(0, 1, 0);
    let mut expected = initial_images(3);
    run_passes(&mut expected, &blur_passes(0, 1, 2));
    let mut actual = initial_images(3);
    run_passes(&mut actual, &passes);
    assert_ne!(actual[1], expected[1]);
    assert_eq!(find_aliased(&passes), Some(0));
    assert_eq!(actual[0], Image::Hazard);
    assert!(has_hazard(&actual[1]));
}

#[test]
fn bloom_into_its_source_surfaces_hazard() {
    let passes = bloom_passes(0, 0, 1, 2);
    let mut actual = initial_images(3);
    run_passes(&mut actual, &passes);
    assert_eq!(find_aliased(&passes), Some(3));
    assert_eq!(actual[0], Image::Hazard);
}
