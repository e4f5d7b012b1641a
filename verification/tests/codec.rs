use hatpack::animations::{Animation, AnimationType};
use hatpack::frames_from_range::frames_from_range;
use hatpack::hat_utils::get_animation;
use hatpack::ids::IdSource;
use hatpack::is_range::is_range;
use hatpack::metapixels::{Metapixel, MetapixelType, Metapixels};
use hatpack::strings::{contains_lower, eq_lower, parse_pos_i32, str_eq, u32_to_string};

fn frames_of(values: &[i32], ids: &mut IdSource) -> Vec<hatpack::animations::Frame> {
    let mut frames = Vec::new();
    for v in values {
        frames.push(hatpack::animations::Frame::new(*v, ids));
    }
    frames
}

fn values_of(anim: &Animation) -> Vec<i32> {
    let mut out = Vec::new();
    for f in &anim.frames {
        out.push(f.value);
    }
    out
}

#[test]
fn returns_true_rev() {
    assert!(is_range(&[4, 3, 2, 1]))
}

#[test]
fn returns_false() {
    assert!(!is_range(&[1, 2, 3, 5, 6]))
}

#[test]
fn returns_true() {
    assert!(is_range(&[1, 2, 3]))
}

#[test]
fn metapixel_new_rejects_unknown_opcode() {
    assert!(Metapixel::new(23, 1, 2).is_some());
    assert!(Metapixel::new(24, 1, 2).is_none());
    assert!(Metapixel::new(200, 0, 0).is_none());
}

#[test]
fn metapixel_type_ordinals_round_trip() {
    for r in 0u8..24 {
        let t = MetapixelType::from_u8(r).unwrap();
        assert_eq!(t.as_u8(), r);
    }
    assert!(MetapixelType::from_u8(24).is_none());
}

#[test]
fn metapixels_push_skips_invalid_raw() {
    let mut ms = Metapixels::new();
    ms.push(MetapixelType::FrameSize, 32, 32);
    assert_eq!(ms.pixels.len(), 1);
    assert_eq!(ms.pixels[0].r, 2);
    assert_eq!(ms.pixels[0].g, 32);
    assert_eq!(ms.pixels[0].b, 32);
}

#[test]
fn frames_from_range_ascending_and_descending() {
    let mut ids = IdSource::new();
    let up = frames_from_range(0, 3, &mut ids);
    let vals: Vec<i32> = up.iter().map(|f| f.value).collect();
    assert_eq!(vals, vec![0, 1, 2, 3]);
    let down = frames_from_range(7, 4, &mut ids);
    let vals: Vec<i32> = down.iter().map(|f| f.value).collect();
    assert_eq!(vals, vec![7, 6, 5, 4]);
}

#[test]
fn frame_ids_are_fresh_and_increasing() {
    let mut ids = IdSource::new();
    let a = hatpack::animations::frame_id(&mut ids);
    let b = hatpack::animations::frame_id(&mut ids);
    assert_ne!(a.0, b.0);
    assert!(a.0 < b.0);
}

// Range compression: a ±1-step run of two or more frames becomes one
// period record after the three header records.
#[test]
fn range_compression_emits_one_period() {
    let mut ids = IdSource::new();
    let anim = Animation::new(AnimationType::OnDefault, 3, false, frames_of(&[1, 2, 3], &mut ids));
    let pixels = anim.gen_metapixels();
    assert_eq!(pixels.len(), 4);
    assert_eq!(pixels[0].r, 3); // AnimationType
    assert_eq!(pixels[1].r, 4); // AnimationDelay
    assert_eq!(pixels[2].r, 5); // AnimationLoop
    assert_eq!(pixels[3].r, 7); // AnimationFramePeriod
    assert_eq!(pixels[3].g, 1);
    assert_eq!(pixels[3].b, 3);
}

#[test]
fn non_contiguous_frames_emit_frame_records() {
    let mut ids = IdSource::new();
    let anim = Animation::new(AnimationType::OnStatic, 2, true, frames_of(&[0, 2, 4], &mut ids));
    let pixels = anim.gen_metapixels();
    assert_eq!(pixels.len(), 6);
    for p in &pixels[3..] {
        assert_eq!(p.r, 6); // AnimationFrame, never a period
    }
    assert_eq!(pixels[3].g, 0);
    assert_eq!(pixels[4].g, 2);
    assert_eq!(pixels[5].g, 4);
}

// Round-trip of a decoded animation: kind, delay, loop flag and frame
// values survive encode followed by decode.
#[test]
fn animation_round_trip_descending_run() {
    let mut ids = IdSource::new();
    let anim = Animation::new(AnimationType::Flying, 9, true, frames_of(&[4, 3, 2, 1], &mut ids));
    let pixels = anim.gen_metapixels();
    let back = get_animation(&pixels, 0, &mut ids).unwrap();
    assert_eq!(back.anim_type, AnimationType::Flying);
    assert_eq!(back.delay, 9);
    assert!(back.looping);
    assert_eq!(values_of(&back), vec![4, 3, 2, 1]);
}

#[test]
fn animation_round_trip_sequence() {
    let mut ids = IdSource::new();
    let anim = Animation::new(AnimationType::OnApproach, 1, false, frames_of(&[7, 7, 7], &mut ids));
    let pixels = anim.gen_metapixels();
    let back = get_animation(&pixels, 0, &mut ids).unwrap();
    assert_eq!(back.anim_type, AnimationType::OnApproach);
    assert_eq!(back.delay, 1);
    assert!(!back.looping);
    assert_eq!(values_of(&back), vec![7, 7, 7]);
}

#[test]
fn animation_with_unknown_kind_byte_is_dropped() {
    // AnimationType record with a kind byte outside the table.
    let pixels = vec![
        Metapixel { r: 3, g: 200, b: 0 },
        Metapixel { r: 4, g: 1, b: 0 },
        Metapixel { r: 5, g: 0, b: 0 },
        Metapixel { r: 6, g: 1, b: 0 },
    ];
    let mut ids = IdSource::new();
    assert!(get_animation(&pixels, 0, &mut ids).is_none());
}

#[test]
fn animation_header_must_be_contiguous() {
    // Type, delay, then a stray FrameSize instead of the loop record.
    let pixels = vec![
        Metapixel { r: 3, g: 0, b: 0 },
        Metapixel { r: 4, g: 1, b: 0 },
        Metapixel { r: 2, g: 32, b: 32 },
        Metapixel { r: 6, g: 1, b: 0 },
    ];
    let mut ids = IdSource::new();
    assert!(get_animation(&pixels, 0, &mut ids).is_none());
}

#[test]
fn parse_pos_accepts_digits_only() {
    assert_eq!(parse_pos_i32("32"), Some(32));
    assert_eq!(parse_pos_i32("0032"), Some(32));
    assert_eq!(parse_pos_i32("0"), Some(0));
    assert_eq!(parse_pos_i32(""), None);
    assert_eq!(parse_pos_i32("-3"), None);
    assert_eq!(parse_pos_i32("3a"), None);
    assert_eq!(parse_pos_i32("2147483647"), Some(i32::MAX));
    assert_eq!(parse_pos_i32("2147483648"), None);
    assert_eq!(parse_pos_i32("99999999999999999999"), None);
}

#[test]
fn u32_to_string_prints_decimal() {
    assert_eq!(u32_to_string(0).as_str(), "0");
    assert_eq!(u32_to_string(7).as_str(), "7");
    assert_eq!(u32_to_string(32).as_str(), "32");
    assert_eq!(u32_to_string(1005).as_str(), "1005");
    assert_eq!(u32_to_string(u32::MAX).as_str(), "4294967295");
}

#[test]
fn string_helpers_compare_and_search() {
    assert!(str_eq("hat", "hat"));
    assert!(!str_eq("hat", "hats"));
    assert!(eq_lower("RooM", "room"));
    assert!(!eq_lower("room2", "room"));
    assert!(contains_lower("myFlyingPet2", "flyingpet"));
    assert!(!contains_lower("walking", "walkingpet"));
}

// A ±1-step list that changes direction is not compressed: compressing it
// into a period would lose frames on reload.
#[test]
fn zigzag_run_round_trips_frame_by_frame() {
    let mut ids = IdSource::new();
    let anim = Animation::new(AnimationType::OnDefault, 4, false, frames_of(&[0, 1, 0], &mut ids));
    let pixels = anim.gen_metapixels();
    assert_eq!(pixels.len(), 6);
    for p in &pixels[3..] {
        assert_eq!(p.r, 6); // AnimationFrame records, no period
    }
    let back = get_animation(&pixels, 0, &mut ids).unwrap();
    assert_eq!(values_of(&back), vec![0, 1, 0]);
}
