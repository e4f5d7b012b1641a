use hatpack::animations::{Animation, AnimationType, Frame};
use hatpack::hat_utils::{get_metapixels_and_size, get_name_and_size, HatNameAndSize};
use hatpack::hats::{
    load_element, Element, HatBase, HatElementId, HatLoadData, HatType, LinkFrameState, Wereable,
    Wings,
};
use hatpack::ids::IdSource;
use hatpack::image::{Image, Pixel};
use hatpack::ivec2::IVec2;

fn empty_base(kind: HatType, area: IVec2, tex: IVec2, bitmap: Option<Image>) -> HatBase {
    HatBase {
        hat_type: kind,
        frame_size: IVec2::new(32, 32),
        hat_area_size: area,
        bitmap,
        texture_size: Some(tex),
        name: None,
        id: HatElementId(0),
    }
}

fn image_with_records(width: u32, height: u32, art: u32, records: &[(u8, u8, u8)]) -> Image {
    let mut img = Image::with_size(width, height);
    let mut y: i32 = 0;
    let mut x: i32 = art as i32;
    for (r, g, b) in records {
        img.set_pixel(x, y, Pixel::from_rgb(*r, *g, *b));
        y += 1;
        if y == height as i32 {
            y = 0;
            x += 1;
        }
    }
    img
}

#[test]
fn name_and_size_parses_suffix() {
    let r = get_name_and_size("hat_32_32");
    assert_eq!(r.name.as_str(), "hat");
    assert_eq!(r.size, Some(IVec2 { x: 32, y: 32 }));
}

#[test]
fn name_and_size_without_suffix_keeps_stem() {
    let r = get_name_and_size("noodle");
    assert_eq!(r.name.as_str(), "noodle");
    assert_eq!(r.size, None);
    let r = get_name_and_size("a_b_c");
    assert_eq!(r.name.as_str(), "a_b_c");
    assert_eq!(r.size, None);
    let r = get_name_and_size("x_0_5");
    assert_eq!(r.name.as_str(), "x_0_5");
    assert_eq!(r.size, None);
}

#[test]
fn name_and_size_ignores_trailing_segments() {
    let r = get_name_and_size("hat_32_32_junk");
    assert_eq!(r.name.as_str(), "hat");
    assert_eq!(r.size, Some(IVec2 { x: 32, y: 32 }));
}

// Area split determinism: a 35-wide image with a 32-wide art area leaves
// three metapixel columns.
#[test]
fn area_split_reads_only_metapixel_columns() {
    let mut img = Image::with_size(35, 4);
    // One record per metapixel column, top row.
    img.set_pixel(32, 0, Pixel::from_rgb(0, 0, 0)); // StrappedOn
    img.set_pixel(33, 0, Pixel::from_rgb(1, 0, 0)); // IsBigHat
    img.set_pixel(34, 0, Pixel::from_rgb(2, 32, 32)); // FrameSize
    // A pixel inside the art area must be ignored.
    img.set_pixel(0, 0, Pixel::from_rgb(2, 9, 9));
    let nas = HatNameAndSize { name: String::from("hat"), size: Some(IVec2::new(32, 4)) };
    let (records, size) = get_metapixels_and_size(&img, &nas);
    assert_eq!(size, IVec2 { x: 32, y: 4 });
    assert_eq!(records.len(), 3);
    assert_eq!(records[0].r, 0);
    assert_eq!(records[1].r, 1);
    assert_eq!(records[2].r, 2);
}

// Unknown-opcode tolerance: a pixel with a red channel outside the opcode
// range changes nothing in the decoded records.
#[test]
fn unknown_opcode_pixels_are_skipped() {
    let records = [(2u8, 32u8, 32u8), (3u8, 0u8, 0u8), (4u8, 4u8, 0u8)];
    let plain = image_with_records(33, 8, 32, &records);
    let mut noisy = image_with_records(34, 8, 32, &[
        (2, 32, 32),
        (200, 9, 9), // unknown opcode, skipped
        (3, 0, 0),
        (4, 4, 0),
    ]);
    // An absent (alpha zero) pixel in the middle is skipped too.
    noisy.set_pixel(32, 6, Pixel::empty());
    let nas = HatNameAndSize { name: String::from("hat"), size: Some(IVec2::new(32, 8)) };
    let (a, _) = get_metapixels_and_size(&plain, &nas);
    let (b, _) = get_metapixels_and_size(&noisy, &nas);
    assert_eq!(a, b);
}

// Scenario: hat_32_32.png with one metapixel column encoding a frame size
// and one period animation loads as a Wearable with one animation over
// frames 0..=3.
#[test]
fn load_wearable_with_period_animation() {
    let img = image_with_records(33, 32, 32, &[
        (2, 32, 32), // FrameSize(32, 32)
        (3, 0, 0),   // AnimationType(OnDefault)
        (4, 4, 0),   // AnimationDelay(4)
        (5, 0, 0),   // AnimationLoop(0)
        (7, 0, 3),   // AnimationFramePeriod(0, 3)
    ]);
    let mut ids = IdSource::new();
    let element = load_element("hat_32_32", img, &mut ids).unwrap();
    match element {
        Element::Wereable(w) => {
            assert_eq!(w.base.hat_type, HatType::Wereable);
            assert_eq!(w.base.frame_size, IVec2 { x: 32, y: 32 });
            assert_eq!(w.base.hat_area_size, IVec2 { x: 32, y: 32 });
            assert_eq!(w.base.name.as_ref().unwrap().as_str(), "hat");
            assert_eq!(w.animations.len(), 1);
            let anim = &w.animations[0];
            assert_eq!(anim.anim_type, AnimationType::OnDefault);
            assert_eq!(anim.delay, 4);
            assert!(!anim.looping);
            let vals: Vec<i32> = anim.frames.iter().map(|f| f.value).collect();
            assert_eq!(vals, vec![0, 1, 2, 3]);
        },
        _ => panic!("expected a Wearable"),
    }
}

// Scenario: flyingpet_32_32.png with pet records loads as a FlyingPet with
// the decoded distance, flip, speed and angle settings.
#[test]
fn load_flying_pet_fields() {
    let img = image_with_records(33, 32, 32, &[
        (15, 15, 0), // PetDistance(15)
        (16, 0, 0),  // PetNoFlip
        (21, 20, 0), // PetSpeed(20)
        (14, 0, 0),  // PetChangesAngle
        (2, 32, 32), // FrameSize(32, 32)
    ]);
    let mut ids = IdSource::new();
    let element = load_element("flyingpet_32_32", img, &mut ids).unwrap();
    match element {
        Element::FlyingPet(p) => {
            assert_eq!(p.pet_base.distance, 15);
            assert!(!p.pet_base.flipped);
            assert_eq!(p.speed, 20);
            assert!(p.changes_angle);
            assert_eq!(p.hat_base.frame_size, IVec2 { x: 32, y: 32 });
        },
        _ => panic!("expected a FlyingPet"),
    }
}

// Scenario: a Wings element with every offset at the default, the default
// auto speed, the default idle frame and the glide frame equal to the
// frame count serialises to the frame size alone.
#[test]
fn default_wings_encode_only_frame_size() {
    let base = empty_base(HatType::Wings, IVec2::new(32, 32), IVec2::new(32, 32), None);
    let wings = Wings {
        general_offset: IVec2::new(128, 128),
        crouch_offset: IVec2::new(128, 128),
        ragdoll_offset: IVec2::new(128, 128),
        slide_offset: IVec2::new(128, 128),
        net_offset: IVec2::new(128, 128),
        gen_animations: false,
        auto_glide_frame: 1, // frames_amount of a 32x32 texture with 32x32 frames
        auto_idle_frame: 0,
        auto_anim_speed: 4,
        changes_animations: false,
        size_state: false,
        base,
        animations: Vec::new(),
    };
    let pixels = wings.gen_metapixels();
    assert_eq!(pixels.len(), 1);
    assert_eq!(pixels[0].r, 2);
    assert_eq!(pixels[0].g, 32);
    assert_eq!(pixels[0].b, 32);
}

#[test]
fn wings_decode_reads_offsets_and_auto_settings() {
    let img = image_with_records(33, 32, 32, &[
        (9, 130, 126),  // WingsGeneralOffset, raw bytes
        (19, 7, 0),     // WingsAutoAnimationsSpeed(7)
        (17, 4, 0),     // WingsAutoGlideFrame -> 5
        (18, 2, 0),     // WingsAutoIdleFrame -> 3
        (13, 0, 0),     // GenerateWingsAnimations
        (2, 48, 32),    // FrameSize(48, 32)
    ]);
    let mut ids = IdSource::new();
    let element = load_element("wings_32_32", img, &mut ids).unwrap();
    match element {
        Element::Wings(w) => {
            assert_eq!(w.general_offset, IVec2 { x: 130, y: 126 });
            assert_eq!(w.crouch_offset, IVec2 { x: 128, y: 128 });
            assert_eq!(w.auto_anim_speed, 7);
            assert_eq!(w.auto_glide_frame, 5);
            assert_eq!(w.auto_idle_frame, 3);
            assert!(w.gen_animations);
            assert_eq!(w.base.frame_size, IVec2 { x: 48, y: 32 });
            assert_eq!(w.animations.len(), 1);
            assert_eq!(w.animations[0].delay, 7);
        },
        _ => panic!("expected Wings"),
    }
}

// Scenario: a Wearable holding two animations with non-contiguous frame
// lists round-trips through its metapixel stream with no period records.
#[test]
fn wearable_round_trip_non_contiguous() {
    let mut ids = IdSource::new();
    let mut frames_a = Vec::new();
    for v in [0, 2, 4] {
        frames_a.push(Frame::new(v, &mut ids));
    }
    let mut frames_b = Vec::new();
    for v in [7, 7, 7] {
        frames_b.push(Frame::new(v, &mut ids));
    }
    let wearable = Wereable {
        strapped_on: true,
        is_big: false,
        animations: vec![
            Animation::new(AnimationType::OnPressQuack, 2, false, frames_a),
            Animation::new(AnimationType::OnReleaseQuack, 3, true, frames_b),
        ],
        link_frame_state: LinkFrameState::Saved,
        on_spawn_animation: Some(AnimationType::OnDefault),
        base: empty_base(HatType::Wereable, IVec2::new(32, 32), IVec2::new(64, 32), None),
    };
    let pixels = wearable.gen_metapixels();
    for p in &pixels {
        assert_ne!(p.r, 7, "no period record may appear");
    }
    let data = HatLoadData {
        name: Some(String::from("hat")),
        hat_area_size: IVec2::new(32, 32),
        bitmap: Image::with_size(1, 1),
        texture_size: Some(IVec2::new(64, 32)),
    };
    let back = Wereable::load_from_data(data, &pixels, &mut ids);
    assert!(back.strapped_on);
    assert_eq!(back.link_frame_state, LinkFrameState::Saved);
    assert_eq!(back.on_spawn_animation, Some(AnimationType::OnDefault));
    assert_eq!(back.animations.len(), 2);
    let a = &back.animations[0];
    assert_eq!(a.anim_type, AnimationType::OnPressQuack);
    assert_eq!(a.delay, 2);
    assert!(!a.looping);
    let vals: Vec<i32> = a.frames.iter().map(|f| f.value).collect();
    assert_eq!(vals, vec![0, 2, 4]);
    let b = &back.animations[1];
    assert_eq!(b.anim_type, AnimationType::OnReleaseQuack);
    assert_eq!(b.delay, 3);
    assert!(b.looping);
    let vals: Vec<i32> = b.frames.iter().map(|f| f.value).collect();
    assert_eq!(vals, vec![7, 7, 7]);
}

#[test]
fn unmatched_stem_loads_nothing() {
    let img = Image::with_size(8, 8);
    let mut ids = IdSource::new();
    assert!(load_element("screenshot_32_32", img, &mut ids).is_none());
}

#[test]
fn classification_is_case_insensitive() {
    let img = Image::with_size(8, 8);
    let mut ids = IdSource::new();
    let element = load_element("RoOm", img, &mut ids).unwrap();
    assert_eq!(element.hat_type(), HatType::Room);
}

#[test]
fn load_preview_uses_whole_image() {
    let img = Image::with_size(40, 24);
    let mut ids = IdSource::new();
    let element = load_element("preview", img, &mut ids).unwrap();
    match element {
        Element::Preview(p) => {
            assert_eq!(p.base.hat_area_size, IVec2 { x: 40, y: 24 });
            assert_eq!(p.base.frame_size, IVec2 { x: 32, y: 32 });
            assert!(p.base.name.is_some());
        },
        _ => panic!("expected a Preview"),
    }
}

#[test]
fn load_extra_takes_frame_size_record() {
    let img = image_with_records(33, 32, 32, &[(2, 48, 40)]);
    let mut ids = IdSource::new();
    let element = load_element("extrahat_32_32", img, &mut ids).unwrap();
    match element {
        Element::Extra(e) => {
            assert_eq!(e.base.frame_size, IVec2 { x: 48, y: 40 });
            assert_eq!(e.animations.len(), 1);
            assert_eq!(e.animations[0].delay, 4);
            assert_eq!(e.animations[0].anim_type, AnimationType::OnDefault);
        },
        _ => panic!("expected an Extra"),
    }
}

#[test]
fn extra_encodes_frame_size_only() {
    let extra = hatpack::hats::Extra {
        base: empty_base(HatType::Extra, IVec2::new(32, 32), IVec2::new(64, 48), None),
        animations: Vec::new(),
    };
    let pixels = extra.gen_metapixels();
    assert_eq!(pixels.len(), 1);
    assert_eq!((pixels[0].r, pixels[0].g, pixels[0].b), (2, 32, 32));
}
