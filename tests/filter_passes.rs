use cg8::filter::{
    blur_passes, bloom_passes, find_aliased, frame_passes, layout_slots, mag_filter_pass,
    round_color_pass, Binding, Pass, SlotKind, Stage,
};

fn summary(ps: &[Pass]) -> Vec<(Stage, Vec<usize>, usize)> {
    ps.iter().map(|p| (p.stage, p.sources.clone(), p.dst)).collect()
}

#[test]
fn stage_input_counts() {
    assert_eq!(Stage::Add.input_count(), 2);
    assert_eq!(Stage::Sample.input_count(), 1);
    assert_eq!(Stage::BlurVertical.input_count(), 1);
    assert_eq!(Stage::BloomThreshold.input_count(), 1);
}

#[test]
fn layout_has_texture_slots_then_sampler() {
    assert_eq!(layout_slots(1), vec![SlotKind::Texture, SlotKind::Sampler]);
    assert_eq!(
        layout_slots(2),
        vec![SlotKind::Texture, SlotKind::Texture, SlotKind::Sampler]
    );
    assert_eq!(layout_slots(0), vec![SlotKind::Sampler]);
}

#[test]
fn bindings_follow_sources() {
    let p = Pass { stage: Stage::Add, sources: vec![3, 1], dst: 0 };
    assert_eq!(
        p.bindings(),
        vec![Binding::Texture(3), Binding::Texture(1), Binding::Sampler]
    );
    let q = mag_filter_pass(2, 4);
    assert_eq!(q.bindings(), vec![Binding::Texture(2), Binding::Sampler]);
}

#[test]
fn single_source_passes() {
    let p = mag_filter_pass(0, 4);
    assert_eq!((p.stage, p.sources, p.dst), (Stage::Sample, vec![0], 4));
    let q = round_color_pass(0, 1);
    assert_eq!((q.stage, q.sources, q.dst), (Stage::RoundColor, vec![0], 1));
}

#[test]
fn blur_runs_horizontal_then_vertical() {
    assert_eq!(
        summary(&blur_passes(1, 0, 2)),
        vec![
            (Stage::BlurHorizontal, vec![1], 2),
            (Stage::BlurVertical, vec![2], 0),
        ]
    );
}

#[test]
fn bloom_uses_destination_as_blur_scratch() {
    assert_eq!(
        summary(&bloom_passes(1, 0, 2, 3)),
        vec![
            (Stage::BloomThreshold, vec![1], 2),
            (Stage::BlurHorizontal, vec![2], 0),
            (Stage::BlurVertical, vec![0], 3),
            (Stage::Add, vec![1, 3], 0),
        ]
    );
}

#[test]
fn frame_chain_order() {
    assert_eq!(
        summary(&frame_passes(0, 1, 2, 3, 4)),
        vec![
            (Stage::RoundColor, vec![0], 1),
            (Stage::BloomThreshold, vec![1], 2),
            (Stage::BlurHorizontal, vec![2], 0),
            (Stage::BlurVertical, vec![0], 3),
            (Stage::Add, vec![1, 3], 0),
            (Stage::Sample, vec![0], 4),
        ]
    );
}

#[test]
fn distinct_pool_has_no_aliased_pass() {
    assert_eq!(find_aliased(&frame_passes(0, 1, 2, 3, 4)), None);
    assert_eq!(find_aliased(&bloom_passes(0, 1, 2, 3)), None);
    assert_eq!(find_aliased(&Vec::new()), None);
}

#[test]
fn in_place_pass_is_found() {
    assert_eq!(find_aliased(&blur_passes(0, 1, 0)), Some(0));
    assert_eq!(find_aliased(&bloom_passes(0, 0, 2, 3)), Some(3));
    let p = mag_filter_pass(5, 5);
    assert!(p.is_aliased());
    assert!(!mag_filter_pass(5, 6).is_aliased());
}
