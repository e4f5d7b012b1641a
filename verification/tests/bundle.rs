use hatpack::config::{AppConfig, Theme};
use hatpack::event_bus::EventBus;
use hatpack::file_utils::{FileStemString, Ms};
use hatpack::hats::{
    hat_id, load_element, Element, Hat, HatBase, HatElementId, HatType, Preview, RoomHat,
    SaveError,
};
use hatpack::ids::IdSource;
use hatpack::image::{Image, Pixel};
use hatpack::ivec2::IVec2;
use hatpack::texture_reloader::TextureReloader;
use hatpack::ui_events::{anim_input_step, anim_input_trigger, AnimInputState};
use hatpack::ui_text::{Language, LanguageEntry, TextEntry, UiText};

fn room_element(ids: &mut IdSource, bitmap: Option<Image>) -> Element {
    Element::Room(RoomHat {
        base: HatBase {
            hat_type: HatType::Room,
            frame_size: IVec2::new(20, 10),
            hat_area_size: IVec2::new(20, 10),
            bitmap,
            texture_size: None,
            name: None,
            id: hat_id(ids),
        },
    })
}

fn preview_element(ids: &mut IdSource) -> Element {
    Element::Preview(Preview {
        base: HatBase {
            hat_type: HatType::Preview,
            frame_size: IVec2::new(32, 32),
            hat_area_size: IVec2::new(8, 8),
            bitmap: None,
            texture_size: None,
            name: None,
            id: hat_id(ids),
        },
    })
}

fn pet_image() -> Image {
    Image::with_size(32, 32)
}

fn check_bundle_invariants(hat: &Hat) {
    assert!(hat.pets.len() <= 5);
    let mut seen_kinds: Vec<HatType> = Vec::new();
    for e in &hat.unique_elements {
        let k = e.hat_type();
        assert!(k != HatType::FlyingPet && k != HatType::WalkingPet);
        assert!(k != HatType::Unspecified);
        assert!(!seen_kinds.contains(&k), "duplicate unique kind");
        seen_kinds.push(k);
    }
    for p in &hat.pets {
        let k = p.hat_type();
        assert!(k == HatType::FlyingPet || k == HatType::WalkingPet);
    }
    let mut seen_ids: Vec<u32> = Vec::new();
    for e in hat.unique_elements.iter().chain(hat.pets.iter()) {
        let id = e.id().0;
        assert!(!seen_ids.contains(&id), "duplicate element id");
        seen_ids.push(id);
    }
}

// Bundle invariants after a sequence of add, remove and replace edits.
#[test]
fn bundle_invariants_survive_edits() {
    let mut ids = IdSource::new();
    let mut hat = Hat::new(String::from("pack"));
    let room_a = room_element(&mut ids, None);
    let room_a_id = room_a.id();
    assert!(hat.add_element(room_a));
    check_bundle_invariants(&hat);
    let preview = preview_element(&mut ids);
    assert!(hat.add_element(preview));
    check_bundle_invariants(&hat);
    // A second room replaces the first.
    let room_b = room_element(&mut ids, None);
    let room_b_id = room_b.id();
    assert!(hat.add_element(room_b));
    check_bundle_invariants(&hat);
    assert_eq!(hat.unique_elements.len(), 2);
    assert!(hat.element_from_id(room_a_id).is_none());
    assert!(hat.element_from_id(room_b_id).is_some());
    // Remove by id.
    hat.remove_element(room_b_id);
    check_bundle_invariants(&hat);
    assert_eq!(hat.unique_elements.len(), 1);
    // Replace the preview with a room.
    let preview_id = hat.id_from_hat_type(HatType::Preview).unwrap();
    let room_c = room_element(&mut ids, None);
    let room_c_id = room_c.id();
    assert!(hat.replace_element(preview_id, room_c));
    check_bundle_invariants(&hat);
    assert!(hat.element_from_id(preview_id).is_none());
    assert_eq!(hat.hat_type_by_id(room_c_id), Some(HatType::Room));
}

// Pet overflow discipline: six pet files load into a bundle of five pets,
// first five win.
#[test]
fn six_pet_files_keep_first_five() {
    let mut ids = IdSource::new();
    let mut files: Vec<(String, Image)> = Vec::new();
    for i in 0..6 {
        let stem = format!("flyingpet{}_32_32", i);
        files.push((stem, pet_image()));
    }
    let hat = Hat::load_from_files(String::from("pack"), files, &mut ids);
    assert_eq!(hat.pets.len(), 5);
    check_bundle_invariants(&hat);
    // First five names survive; the sixth was refused.
    let names: Vec<String> = hat
        .pets
        .iter()
        .map(|p| p.base().name.clone().unwrap())
        .collect();
    assert_eq!(names[0].as_str(), "flyingpet0");
    assert_eq!(names[4].as_str(), "flyingpet4");
}

#[test]
fn first_element_prefers_unique_elements() {
    let mut ids = IdSource::new();
    let mut hat = Hat::new(String::from("pack"));
    assert!(hat.first_element().is_none());
    let img = pet_image();
    let pet = load_element("walkingpet_32_32", img, &mut ids).unwrap();
    assert!(hat.add_element(pet));
    let (_, kind) = hat.first_element().unwrap();
    assert_eq!(kind, HatType::WalkingPet);
    let room = room_element(&mut ids, None);
    assert!(hat.add_element(room));
    let (_, kind) = hat.first_element().unwrap();
    assert_eq!(kind, HatType::Room);
    assert!(hat.has_elements());
    assert_eq!(hat.iter_all_elements().len(), 2);
}

// Scenario: saving an empty Room element writes `room_W_H.png` holding the
// art area alone, with no metapixel columns.
#[test]
fn room_saves_art_area_only() {
    let mut ids = IdSource::new();
    let mut bitmap = Image::with_size(20, 10);
    bitmap.set_pixel(3, 4, Pixel::from_rgb(7, 8, 9));
    let room = room_element(&mut ids, Some(bitmap));
    let (name, img) = room.save_image().unwrap();
    assert_eq!(name.as_str(), "room_20_10.png");
    assert_eq!(img.width, 20);
    assert_eq!(img.height, 10);
    assert_eq!(img.get_pixel(3, 4), Some(Pixel::from_rgb(7, 8, 9)));
    assert_eq!(img.get_pixel(0, 0), Some(Pixel { r: 0, g: 0, b: 0, a: 0 }));
}

#[test]
fn save_without_bitmap_fails() {
    let mut ids = IdSource::new();
    let room = room_element(&mut ids, None);
    assert_eq!(room.save_image().unwrap_err(), SaveError::NoBitmap);
}

// A saved Wearable's metapixel column decodes back to the same records,
// with the blank cell skipped before each animation anchor.
#[test]
fn save_then_load_round_trips_an_element() {
    let mut ids = IdSource::new();
    let img = {
        let mut img = Image::with_size(33, 32);
        for (i, rec) in [(2u8, 32u8, 32u8), (3, 0, 0), (4, 4, 0), (5, 1, 0), (7, 0, 3)]
            .iter()
            .enumerate()
        {
            img.set_pixel(32, i as i32, Pixel::from_rgb(rec.0, rec.1, rec.2));
        }
        img
    };
    let element = load_element("hat_32_32", img, &mut ids).unwrap();
    let (name, saved) = element.save_image().unwrap();
    assert_eq!(name.as_str(), "hat_32_32.png");
    let reloaded = load_element("hat_32_32", saved, &mut ids).unwrap();
    match (element, reloaded) {
        (Element::Wereable(a), Element::Wereable(b)) => {
            assert_eq!(a.animations.len(), b.animations.len());
            let av: Vec<i32> = a.animations[0].frames.iter().map(|f| f.value).collect();
            let bv: Vec<i32> = b.animations[0].frames.iter().map(|f| f.value).collect();
            assert_eq!(av, bv);
            assert_eq!(a.animations[0].delay, b.animations[0].delay);
            assert_eq!(a.animations[0].looping, b.animations[0].looping);
            assert_eq!(a.base.frame_size, b.base.frame_size);
        },
        _ => panic!("expected Wearables"),
    }
}

#[test]
fn event_bus_reads_newest_first() {
    let mut bus: EventBus<u32> = EventBus::new();
    assert_eq!(bus.read(), None);
    bus.send(1);
    bus.send(2);
    assert_eq!(bus.read(), Some(2));
    assert_eq!(bus.read(), Some(1));
    assert_eq!(bus.read(), None);
}

#[test]
fn ui_text_looks_up_selected_language() {
    let table = UiText::new(
        Language::Russian,
        vec![
            LanguageEntry {
                key: String::from("en"),
                entries: vec![TextEntry {
                    name: String::from("Wearable"),
                    text: String::from("Wearable"),
                }],
            },
            LanguageEntry {
                key: String::from("ru"),
                entries: vec![TextEntry {
                    name: String::from("Wearable"),
                    text: String::from("Nosimoe"),
                }],
            },
        ],
    );
    assert_eq!(table.get("Wearable").as_str(), "Nosimoe");
    assert_eq!(
        HatType::Wereable.get_display_name(&table).as_str(),
        "Nosimoe"
    );
}

#[test]
fn app_config_filters_stale_paths() {
    let mut config = AppConfig {
        language: Language::English,
        theme: Theme::Latte,
        latest_hats: vec![String::from("a"), String::from("b"), String::from("c")],
    };
    assert!(config.is_light_theme());
    config.remove_invalid_latest(&vec![true, false, true]);
    assert_eq!(config.latest_hats.len(), 2);
    assert_eq!(config.latest_hats[0].as_str(), "a");
    assert_eq!(config.latest_hats[1].as_str(), "c");
    config.theme = Theme::Mocha;
    assert!(!config.is_light_theme());
}

#[test]
fn texture_reloader_marks_changed_times() {
    let mut reloader = TextureReloader::new();
    reloader.add_texture(String::from("hat.png"), Ms(100));
    reloader.add_texture(String::from("room.png"), Ms(200));
    reloader.add_texture(String::from("wings.png"), Ms(300));
    let out = reloader.needs_reload(&vec![Some(Ms(100)), Some(Ms(250)), None]);
    assert_eq!(out, vec![false, true, false]);
    assert_eq!(reloader.textures[1].modified_time, Ms(250));
    assert_eq!(reloader.textures[2].modified_time, Ms(300));
}

#[test]
fn anim_input_machine_follows_transitions() {
    let idle = AnimInputState::Idle;
    let pressed = AnimInputState::Pressed;
    let down = AnimInputState::Down;
    let released = AnimInputState::Released;
    assert_eq!(anim_input_step(idle, true, true), pressed);
    assert_eq!(anim_input_step(idle, false, false), idle);
    assert_eq!(anim_input_step(pressed, false, true), down);
    assert_eq!(anim_input_step(pressed, false, false), released);
    assert_eq!(anim_input_step(down, false, true), down);
    assert_eq!(anim_input_step(down, false, false), released);
    assert_eq!(anim_input_step(released, true, true), pressed);
    assert_eq!(anim_input_step(released, false, false), idle);
    assert!(anim_input_trigger(pressed).is_some());
    assert!(anim_input_trigger(down).is_none());
}

#[test]
fn file_stem_strips_directory_and_extension() {
    assert_eq!(
        String::from("packs/cool/hat_32_32.png").file_stem_string().unwrap().as_str(),
        "hat_32_32"
    );
    assert_eq!(String::from("room.png").file_stem_string().unwrap().as_str(), "room");
    assert_eq!(String::from(".hidden").file_stem_string().unwrap().as_str(), ".hidden");
    assert_eq!(String::from("dir/").file_stem_string(), None);
}

#[test]
fn save_names_match_kinds() {
    assert_eq!(HatType::Wereable.save_name(), "hat");
    assert_eq!(HatType::Extra.save_name(), "extrahat");
    assert_eq!(HatType::Room.save_name(), "room");
    let anims = hatpack::animations::avalible_animations(HatType::Wings).unwrap();
    assert_eq!(anims.len(), 5);
    assert!(hatpack::animations::avalible_animations(HatType::Room).is_none());
}

#[test]
fn mutation_through_id_borrow_persists() {
    let mut ids = IdSource::new();
    let img = {
        let mut img = Image::with_size(33, 32);
        for (i, rec) in [(2u8, 32u8, 32u8), (3, 0, 0), (4, 4, 0), (5, 0, 0), (7, 0, 3)]
            .iter()
            .enumerate()
        {
            img.set_pixel(32, i as i32, Pixel::from_rgb(rec.0, rec.1, rec.2));
        }
        img
    };
    let element = load_element("hat_32_32", img, &mut ids).unwrap();
    let id = element.id();
    let mut hat = Hat::new(String::from("pack"));
    assert!(hat.add_element(element));
    {
        let borrowed = hat.element_from_id_mut(id).unwrap();
        match borrowed {
            Element::Wereable(w) => w.animations[0].delay = 9,
            _ => panic!("expected a Wearable"),
        }
    }
    {
        let w = hat.wereable_mut().unwrap();
        w.strapped_on = true;
    }
    let w = hat.wereable().unwrap();
    assert_eq!(w.animations[0].delay, 9);
    assert!(w.strapped_on);
    assert!(hat.wings_mut().is_none());
    assert!(hat.flying_pet_mut().is_none());
}

#[test]
fn replace_routes_a_pet_and_respects_the_bound() {
    let mut ids = IdSource::new();
    let mut hat = Hat::new(String::from("pack"));
    let mut last_pet_id = HatElementId(0);
    for _ in 0..5 {
        let pet = load_element("walkingpet_32_32", pet_image(), &mut ids).unwrap();
        last_pet_id = pet.id();
        assert!(hat.add_element(pet));
    }
    assert_eq!(hat.pets.len(), 5);
    // Replacing one pet by another keeps the bundle at five pets.
    let fresh_pet = load_element("flyingpet_32_32", pet_image(), &mut ids).unwrap();
    let fresh_id = fresh_pet.id();
    assert!(hat.replace_element(last_pet_id, fresh_pet));
    assert_eq!(hat.pets.len(), 5);
    assert!(hat.element_from_id(last_pet_id).is_none());
    assert!(hat.element_from_id(fresh_id).is_some());
    check_bundle_invariants(&hat);
    // With the list full, replacing a unique element by a pet is refused.
    let room = room_element(&mut ids, None);
    let room_id = room.id();
    assert!(hat.add_element(room));
    let extra_pet = load_element("flyingpet_32_32", pet_image(), &mut ids).unwrap();
    assert!(!hat.replace_element(room_id, extra_pet));
    assert_eq!(hat.pets.len(), 5);
    assert!(hat.element_from_id(room_id).is_none());
    check_bundle_invariants(&hat);
}
