//! Hat elements and bundles: the seven element kinds, their metapixel
//! encoders and decoders, and the bundle that holds at most one element of
//! each unique kind plus a bounded, ordered list of pets.

use vstd::prelude::*;

use crate::animations::{
    anim_of_u8, anim_u8, anim_views, anims_pixels, frame_values, push_animations, Animation,
    AnimationType,
};
use crate::frames_from_range::range_seq;
use crate::hat_utils::{anims_of, collect_animations, is_op};
use crate::ids::{sat_inc, IdSource};
use crate::image::{empty_pixel, Image, Pixel};
use crate::ivec2::IVec2;
use crate::metapixels::{mp, op_of_u8, Metapixel, MetapixelType, Metapixels};
use crate::ui_text::{spec_get, UiText};

verus! {

/// Default walking/flying speed of a pet, omitted from the wire when kept.
pub const DEFAULT_PET_SPEED: i32 = 10;

/// Default distance a pet keeps from the player, omitted when kept.
pub const DEFAULT_PET_DISTANCE: i32 = 10;

/// A bundle holds at most this many pet elements.
pub const MAX_PETS: usize = 5;

/// Default automatic idle frame of wings, omitted when kept.
pub const DEFAULT_WINGS_IDLE_FRAME: i32 = 0;

/// Default speed of generated wings animations, omitted when kept.
pub const DEFAULT_AUTO_SPEED: i32 = 4;

/// Largest frame size an Extra element accepts.
pub const MAX_EXTRA_HAT_SIZE_X: i32 = 97;

/// Largest frame size an Extra element accepts.
pub const MAX_EXTRA_HAT_SIZE_Y: i32 = 56;

/// Smallest frame edge of a sprite-sheet element.
pub const MIN_FRAME_SIZE: i32 = 32;

/// Largest frame edge of a sprite-sheet element.
pub const MAX_FRAME_SIZE: i32 = 64;

/// An opaque identifier for one element of a bundle, stable across edits.
#[derive(Clone, Copy, Debug, Hash, PartialEq, Eq, Structural, Default)]
pub struct HatElementId(pub u32);

/// Draws a fresh element id from the counter.
pub fn hat_id(ids: &mut IdSource) -> (id: HatElementId)
    ensures
        id == (HatElementId(old(ids).next)),
        final(ids).next == sat_inc(old(ids).next),
{
    HatElementId(ids.bump())
}

/// The closed set of element kinds.
#[derive(Copy, Clone, Debug, Default, PartialEq, Eq, Hash, Structural)]
pub enum HatType {
    Wereable,
    Wings,
    Extra,
    FlyingPet,
    WalkingPet,
    Room,
    Preview,
    #[default]
    Unspecified,
}

/// The filename stem under which an element kind is saved.
pub open spec fn save_name_spec(t: HatType) -> Seq<char> {
    match t {
        HatType::Wereable => "hat"@,
        HatType::Wings => "wings"@,
        HatType::Extra => "extrahat"@,
        HatType::FlyingPet => "flyingpet"@,
        HatType::WalkingPet => "walkingpet"@,
        HatType::Room => "room"@,
        HatType::Preview => "preview"@,
        HatType::Unspecified => ""@,
    }
}

/// The translation-table key under which an element kind's display name
/// is looked up.
pub open spec fn display_key(t: HatType) -> Seq<char> {
    match t {
        HatType::Wereable => "Wearable"@,
        HatType::Wings => "Wings"@,
        HatType::Extra => "Extra"@,
        HatType::FlyingPet => "Flying pet"@,
        HatType::WalkingPet => "Walking pet"@,
        HatType::Room => "Room"@,
        HatType::Preview => "Preview"@,
        HatType::Unspecified => ""@,
    }
}

impl HatType {
    /// The translated display name of this kind; empty for the
    /// unspecified kind. The translation table must hold the kind's key.
    pub fn get_display_name(&self, ui_text: &UiText) -> (r: String)
        requires
            *self != HatType::Unspecified ==> spec_get(*ui_text, display_key(*self)) is Some,
        ensures
            *self == HatType::Unspecified ==> r@.len() == 0,
            *self != HatType::Unspecified ==> Some(r@) == spec_get(*ui_text, display_key(*self)),
    {
        match self {
            Self::Wereable => ui_text.get("Wearable"),
            Self::Wings => ui_text.get("Wings"),
            Self::Extra => ui_text.get("Extra"),
            Self::FlyingPet => ui_text.get("Flying pet"),
            Self::WalkingPet => ui_text.get("Walking pet"),
            Self::Room => ui_text.get("Room"),
            Self::Preview => ui_text.get("Preview"),
            Self::Unspecified => String::new(),
        }
    }

    /// A pet kind lives in the bundle's ordered pet list; every other kind
    /// is unique within a bundle.
    pub open spec fn is_pet(self) -> bool {
        self == HatType::FlyingPet || self == HatType::WalkingPet
    }

    /// The filename stem under which this kind is saved.
    pub fn save_name(&self) -> (r: &'static str)
        ensures
            r@ == save_name_spec(*self),
    {
        match self {
            Self::Wereable => "hat",
            Self::Wings => "wings",
            Self::Extra => "extrahat",
            Self::FlyingPet => "flyingpet",
            Self::WalkingPet => "walkingpet",
            Self::Room => "room",
            Self::Preview => "preview",
            Self::Unspecified => "",
        }
    }
}

/// How an animation triggered by a quack relates to the frame currently
/// rendered: unlinked, carried over, or carried over mirrored.
#[derive(Copy, Clone, Default, PartialEq, Eq, Structural, Debug)]
pub enum LinkFrameState {
    #[default]
    Default,
    Saved,
    Inverted,
}

/// The wire byte of a link-frame state.
pub open spec fn link_u8(s: LinkFrameState) -> u8 {
    match s {
        LinkFrameState::Default => 0,
        LinkFrameState::Saved => 1,
        LinkFrameState::Inverted => 2,
    }
}

/// The link-frame state a wire byte stands for; unknown bytes fall back to
/// the default state.
pub open spec fn link_of_u8(g: u8) -> LinkFrameState {
    if g == 1 {
        LinkFrameState::Saved
    } else if g == 2 {
        LinkFrameState::Inverted
    } else {
        LinkFrameState::Default
    }
}

impl LinkFrameState {
    /// The wire byte of this state, as executable code.
    pub fn as_u8(self) -> (r: u8)
        ensures
            r == link_u8(self),
    {
        match self {
            LinkFrameState::Default => 0,
            LinkFrameState::Saved => 1,
            LinkFrameState::Inverted => 2,
        }
    }

    /// The state a wire byte stands for, as executable code.
    pub fn from_u8(g: u8) -> (r: LinkFrameState)
        ensures
            r == link_of_u8(g),
    {
        match g {
            1 => LinkFrameState::Saved,
            2 => LinkFrameState::Inverted,
            _ => LinkFrameState::Default,
        }
    }
}

/// The shared base of every element: its kind, frame size, art area size,
/// source bitmap, texture dimensions, display name and stable id.
#[derive(Debug)]
pub struct HatBase {
    pub hat_type: HatType,
    pub frame_size: IVec2,
    pub hat_area_size: IVec2,
    pub bitmap: Option<Image>,
    pub texture_size: Option<IVec2>,
    pub name: Option<String>,
    pub id: HatElementId,
}

/// How many sprite-sheet frames the element's texture holds: full frames
/// per row times full frames per column, zero without a texture.
pub open spec fn spec_frames_amount(base: HatBase) -> int {
    match base.texture_size {
        Some(t) => (t.x as int / base.frame_size.x as int) * (t.y as int
            / base.frame_size.y as int),
        None => 0,
    }
}

impl HatBase {
    /// The texture, if any, has workable dimensions.
    pub open spec fn texture_ok(self) -> bool {
        match self.texture_size {
            Some(t) => 0 <= t.x && 0 <= t.y && t.x * t.y <= u32::MAX,
            None => true,
        }
    }

    /// The frame size fits the wire format and the texture, if any, has
    /// workable dimensions.
    pub open spec fn wf(self) -> bool {
        &&& 0 <= self.frame_size.x <= 255
        &&& 0 <= self.frame_size.y <= 255
        &&& self.texture_ok()
    }

    /// How many sprite-sheet frames the element's texture holds.
    pub fn frames_amount(&self) -> (r: u32)
        requires
            self.frame_size.x >= 1,
            self.frame_size.y >= 1,
            match self.texture_size {
                Some(t) => 0 <= t.x && 0 <= t.y && t.x * t.y <= u32::MAX,
                None => true,
            },
        ensures
            r == spec_frames_amount(*self),
    {
        match &self.texture_size {
            Some(t) => {
                let fx = t.x / self.frame_size.x;
                let fy = t.y / self.frame_size.y;
                proof {
                    vstd::arithmetic::div_mod::lemma_div_is_ordered_by_denominator(
                        t.x as int,
                        1,
                        self.frame_size.x as int,
                    );
                    vstd::arithmetic::div_mod::lemma_div_is_ordered_by_denominator(
                        t.y as int,
                        1,
                        self.frame_size.y as int,
                    );
                    assert(fx * fy <= t.x * t.y) by (nonlinear_arith)
                        requires
                            0 <= fx <= t.x,
                            0 <= fy <= t.y,
                    ;
                }
                let prod = (fx as i64) * (fy as i64);
                prod as u32
            },
            None => 0,
        }
    }
}

/// The plain values out of which an element is loaded: the parsed filename
/// stem, the art area size, the decoded source image and the dimensions of
/// the texture made from it.
#[derive(Debug)]
pub struct HatLoadData {
    pub name: Option<String>,
    pub hat_area_size: IVec2,
    pub bitmap: Image,
    pub texture_size: Option<IVec2>,
}

impl HatLoadData {
    /// The texture, if any, has workable dimensions.
    pub open spec fn wf(self) -> bool {
        match self.texture_size {
            Some(t) => 1 <= t.x && 1 <= t.y && t.x * t.y <= i32::MAX,
            None => true,
        }
    }
}

/// Frames held by the texture, or zero when the frame size is degenerate.
pub open spec fn spec_frames_amount_safe(base: HatBase) -> int {
    if base.frame_size.x >= 1 && base.frame_size.y >= 1 {
        spec_frames_amount(base)
    } else {
        0
    }
}

/// The frame count never exceeds the pixel count of the texture.
pub proof fn lemma_frames_amount_bound(base: HatBase)
    requires
        match base.texture_size {
            Some(t) => 0 <= t.x && 0 <= t.y,
            None => true,
        },
    ensures
        0 <= spec_frames_amount_safe(base) <= match base.texture_size {
            Some(t) => t.x * t.y,
            None => 0int,
        },
{
    if base.frame_size.x >= 1 && base.frame_size.y >= 1 {
        match base.texture_size {
            Some(t) => {
                let fx = t.x as int / base.frame_size.x as int;
                let fy = t.y as int / base.frame_size.y as int;
                vstd::arithmetic::div_mod::lemma_div_is_ordered_by_denominator(
                    t.x as int,
                    1,
                    base.frame_size.x as int,
                );
                vstd::arithmetic::div_mod::lemma_div_is_ordered_by_denominator(
                    t.y as int,
                    1,
                    base.frame_size.y as int,
                );
                vstd::arithmetic::div_mod::lemma_div_pos_is_pos(t.x as int, base.frame_size.x as int);
                vstd::arithmetic::div_mod::lemma_div_pos_is_pos(t.y as int, base.frame_size.y as int);
                assert(0 <= fx * fy <= t.x * t.y) by (nonlinear_arith)
                    requires
                        0 <= fx <= t.x,
                        0 <= fy <= t.y,
                ;
            },
            None => {},
        }
    } else {
    }
}

impl HatBase {
    /// Frames held by the texture; a degenerate frame size holds none.
    pub fn frames_amount_safe(&self) -> (r: u32)
        requires
            match self.texture_size {
                Some(t) => 0 <= t.x && 0 <= t.y && t.x * t.y <= u32::MAX,
                None => true,
            },
        ensures
            r == spec_frames_amount_safe(*self),
    {
        if self.frame_size.x >= 1 && self.frame_size.y >= 1 {
            self.frames_amount()
        } else {
            0
        }
    }
}

/// The scalar fields a Wearable decode accumulates.
pub ghost struct WereableCore {
    pub strapped_on: bool,
    pub is_big: bool,
    pub link_frame_state: LinkFrameState,
    pub on_spawn_animation: Option<AnimationType>,
    pub frame_size_x: int,
    pub frame_size_y: int,
}

/// The state a Wearable decode starts from.
pub open spec fn wereable_core_init() -> WereableCore {
    WereableCore {
        strapped_on: false,
        is_big: false,
        link_frame_state: LinkFrameState::Default,
        on_spawn_animation: None,
        frame_size_x: 32,
        frame_size_y: 32,
    }
}

/// One decode step of a Wearable: how one record changes the fields.
pub open spec fn wereable_step(c: WereableCore, p: Metapixel) -> WereableCore {
    match op_of_u8(p.r) {
        Some(MetapixelType::OnSpawnAnimation) => WereableCore {
            on_spawn_animation: anim_of_u8(p.g),
            ..c
        },
        Some(MetapixelType::StrappedOn) => WereableCore { strapped_on: true, ..c },
        Some(MetapixelType::IsBigHat) => WereableCore { is_big: true, ..c },
        Some(MetapixelType::FrameSize) => WereableCore {
            frame_size_x: p.g as int,
            frame_size_y: p.b as int,
            ..c
        },
        Some(MetapixelType::LinkFrameState) => WereableCore {
            link_frame_state: link_of_u8(p.g),
            ..c
        },
        _ => c,
    }
}

/// The fields after decoding the first `k` records of the stream.
pub open spec fn wereable_fold(s: Seq<Metapixel>, k: int) -> WereableCore
    decreases k,
    when 0 <= k <= s.len()
{
    if k <= 0 {
        wereable_core_init()
    } else {
        wereable_step(wereable_fold(s, k - 1), s[k - 1])
    }
}

/// The wearable hat: the main element of a pack.
#[derive(Debug)]
pub struct Wereable {
    pub strapped_on: bool,
    pub is_big: bool,
    pub animations: Vec<Animation>,
    pub link_frame_state: LinkFrameState,
    pub on_spawn_animation: Option<AnimationType>,
    pub base: HatBase,
}

impl Wereable {
    /// The element is serialisable: its kind tag matches, its frame size
    /// and its animations fit the wire format.
    pub open spec fn wf(self) -> bool {
        &&& self.base.hat_type == HatType::Wereable
        &&& self.base.wf()
        &&& forall|i: int|
            0 <= i < self.animations@.len() ==> (#[trigger] self.animations@[i])@.wf()
    }

    /// The scalar fields equal the given decode state.
    pub open spec fn matches_core(self, c: WereableCore) -> bool {
        &&& self.strapped_on == c.strapped_on
        &&& self.is_big == c.is_big
        &&& self.link_frame_state == c.link_frame_state
        &&& self.on_spawn_animation == c.on_spawn_animation
        &&& self.base.frame_size.x == c.frame_size_x
        &&& self.base.frame_size.y == c.frame_size_y
    }

    /// The serialised form: strap and size flags, the frame size, the
    /// spawn animation and link state when set, then every animation.
    pub open spec fn spec_pixels(self) -> Seq<Metapixel> {
        let head = (if self.strapped_on {
            seq![mp(MetapixelType::StrappedOn, 0, 0)]
        } else {
            Seq::empty()
        }) + (if self.base.frame_size.x > 32 || self.base.frame_size.y > 32 {
            seq![mp(MetapixelType::IsBigHat, 0, 0)]
        } else {
            Seq::empty()
        }) + seq![
            mp(
                MetapixelType::FrameSize,
                self.base.frame_size.x as u8,
                self.base.frame_size.y as u8,
            ),
        ] + (match self.on_spawn_animation {
            Some(a) => seq![mp(MetapixelType::OnSpawnAnimation, anim_u8(a), 0)],
            None => Seq::empty(),
        }) + (if self.link_frame_state != LinkFrameState::Default {
            seq![mp(MetapixelType::LinkFrameState, link_u8(self.link_frame_state), 0)]
        } else {
            Seq::empty()
        });
        head + anims_pixels(anim_views(self.animations@))
    }

    /// Decodes a Wearable out of its metapixel stream: the scalar fields
    /// are the fold of the records over the defaults, the animations are
    /// those serialised in the stream, and the rest comes from the file.
    pub fn load_from_data(data: HatLoadData, metapixels: &[Metapixel], ids: &mut IdSource) -> (h:
        Self)
        requires
            data.wf(),
        ensures
            h.wf(),
            h.matches_core(wereable_fold(metapixels@, metapixels@.len() as int)),
            anim_views(h.animations@) == anims_of(metapixels@),
            h.base.hat_area_size == data.hat_area_size,
            h.base.bitmap == Some(data.bitmap),
            h.base.texture_size == data.texture_size,
            h.base.name == data.name,
            h.base.id == (HatElementId(old(ids).next)),
            old(ids).next <= final(ids).next,
            final(ids).next < u32::MAX ==> old(ids).next < final(ids).next,
    {
        let ghost s = metapixels@;
        let id = hat_id(ids);
        let animations = collect_animations(metapixels, ids);
        let mut strapped_on = false;
        let mut is_big = false;
        let mut link_frame_state = LinkFrameState::Default;
        let mut on_spawn_animation: Option<AnimationType> = None;
        let mut fsx: i32 = MIN_FRAME_SIZE;
        let mut fsy: i32 = MIN_FRAME_SIZE;
        let n = metapixels.len();
        let mut i: usize = 0;
        while i < n
            invariant
                s == metapixels@,
                n == s.len(),
                0 <= i <= n,
                0 <= fsx <= 255,
                0 <= fsy <= 255,
                wereable_fold(s, i as int) == (WereableCore {
                    strapped_on,
                    is_big,
                    link_frame_state,
                    on_spawn_animation,
                    frame_size_x: fsx as int,
                    frame_size_y: fsy as int,
                }),
            decreases n - i,
        {
            let p = metapixels[i];
            match MetapixelType::from_u8(p.r) {
                Some(MetapixelType::OnSpawnAnimation) => {
                    on_spawn_animation = AnimationType::from_u8(p.g);
                },
                Some(MetapixelType::StrappedOn) => {
                    strapped_on = true;
                },
                Some(MetapixelType::IsBigHat) => {
                    is_big = true;
                },
                Some(MetapixelType::FrameSize) => {
                    fsx = p.g as i32;
                    fsy = p.b as i32;
                },
                Some(MetapixelType::LinkFrameState) => {
                    link_frame_state = LinkFrameState::from_u8(p.g);
                },
                _ => {},
            }
            i = i + 1;
        }
        Wereable {
            strapped_on,
            is_big,
            animations,
            link_frame_state,
            on_spawn_animation,
            base: HatBase {
                hat_type: HatType::Wereable,
                frame_size: IVec2::new(fsx, fsy),
                hat_area_size: data.hat_area_size,
                bitmap: Some(data.bitmap),
                texture_size: data.texture_size,
                name: data.name,
                id,
            },
        }
    }

    /// Serialises this element into metapixel records.
    pub fn gen_metapixels(&self) -> (r: Vec<Metapixel>)
        requires
            self.wf(),
        ensures
            r@ == self.spec_pixels(),
    {
        let mut metapixels = Metapixels::new();
        if self.strapped_on {
            metapixels.push(MetapixelType::StrappedOn, 0, 0);
        }
        if self.base.frame_size.x > 32 || self.base.frame_size.y > 32 {
            metapixels.push(MetapixelType::IsBigHat, 0, 0);
        }
        metapixels.push(
            MetapixelType::FrameSize,
            self.base.frame_size.x as u8,
            self.base.frame_size.y as u8,
        );
        match self.on_spawn_animation {
            Some(spawn_anim) => {
                metapixels.push(MetapixelType::OnSpawnAnimation, spawn_anim.as_u8(), 0);
            },
            None => {},
        }
        if !matches!(self.link_frame_state, LinkFrameState::Default) {
            metapixels.push(MetapixelType::LinkFrameState, self.link_frame_state.as_u8(), 0);
        }
        push_animations(&mut metapixels, &self.animations);
        proof {
            assert(metapixels.pixels@ =~= self.spec_pixels());
        }
        metapixels.pixels
    }
}

/// One less, stopping at zero.
pub open spec fn sat_sub1(v: u8) -> u8 {
    if v == 0 {
        0u8
    } else {
        (v - 1) as u8
    }
}

/// One more, stopping at 255.
pub open spec fn sat_add1(v: u8) -> u8 {
    if v == 255 {
        255u8
    } else {
        (v + 1) as u8
    }
}

/// The scalar fields a Wings decode accumulates. Offsets are kept as the
/// raw wire bytes; their signed view subtracts the +128 bias.
pub ghost struct WingsCore {
    pub general_x: int,
    pub general_y: int,
    pub crouch_x: int,
    pub crouch_y: int,
    pub ragdoll_x: int,
    pub ragdoll_y: int,
    pub slide_x: int,
    pub slide_y: int,
    pub net_x: int,
    pub net_y: int,
    pub gen_animations: bool,
    pub auto_glide_frame: int,
    pub has_auto_glide: bool,
    pub auto_idle_frame: int,
    pub auto_anim_speed: int,
    pub has_auto_speed: bool,
    pub changes_animations: bool,
    pub size_state: bool,
    pub frame_size_x: int,
    pub frame_size_y: int,
}

/// The state a Wings decode starts from.
pub open spec fn wings_core_init() -> WingsCore {
    WingsCore {
        general_x: 128,
        general_y: 128,
        crouch_x: 128,
        crouch_y: 128,
        ragdoll_x: 128,
        ragdoll_y: 128,
        slide_x: 128,
        slide_y: 128,
        net_x: 128,
        net_y: 128,
        gen_animations: false,
        auto_glide_frame: 0,
        has_auto_glide: false,
        auto_idle_frame: 0,
        auto_anim_speed: 0,
        has_auto_speed: false,
        changes_animations: false,
        size_state: false,
        frame_size_x: 32,
        frame_size_y: 32,
    }
}

/// One decode step of Wings: how one record changes the fields.
pub open spec fn wings_step(c: WingsCore, p: Metapixel) -> WingsCore {
    match op_of_u8(p.r) {
        Some(MetapixelType::WingsNetOffset) => WingsCore {
            net_x: p.g as int,
            net_y: p.b as int,
            ..c
        },
        Some(MetapixelType::WingsGeneralOffset) => WingsCore {
            general_x: p.g as int,
            general_y: p.b as int,
            ..c
        },
        Some(MetapixelType::WingsSlideOffset) => WingsCore {
            slide_x: p.g as int,
            slide_y: p.b as int,
            ..c
        },
        Some(MetapixelType::WingsRagdollOffset) => WingsCore {
            ragdoll_x: p.g as int,
            ragdoll_y: p.b as int,
            ..c
        },
        Some(MetapixelType::WingsCrouchOffset) => WingsCore {
            crouch_x: p.g as int,
            crouch_y: p.b as int,
            ..c
        },
        Some(MetapixelType::GenerateWingsAnimations) => WingsCore { gen_animations: true, ..c },
        Some(MetapixelType::WingsAutoGlideFrame) => WingsCore {
            auto_glide_frame: sat_add1(p.g) as int,
            has_auto_glide: true,
            ..c
        },
        Some(MetapixelType::WingsAutoIdleFrame) => WingsCore {
            auto_idle_frame: sat_add1(p.g) as int,
            ..c
        },
        Some(MetapixelType::WingsAutoAnimationsSpeed) => WingsCore {
            auto_anim_speed: p.g as int,
            has_auto_speed: true,
            ..c
        },
        Some(MetapixelType::FrameSize) => WingsCore {
            frame_size_x: p.g as int,
            frame_size_y: p.b as int,
            ..c
        },
        Some(MetapixelType::ChangeAnimationsEveryLevel) => WingsCore {
            changes_animations: true,
            ..c
        },
        Some(MetapixelType::IsBigHat) => WingsCore { size_state: true, ..c },
        _ => c,
    }
}

/// The fields after decoding the first `k` records of the stream.
pub open spec fn wings_fold(s: Seq<Metapixel>, k: int) -> WingsCore
    decreases k,
    when 0 <= k <= s.len()
{
    if k <= 0 {
        wings_core_init()
    } else {
        wings_step(wings_fold(s, k - 1), s[k - 1])
    }
}

/// The wings element. The five offsets hold the raw wire bytes (the game
/// reads them biased by +128), defaulting to `(128, 128)`.
#[derive(Debug)]
pub struct Wings {
    pub general_offset: IVec2,
    pub crouch_offset: IVec2,
    pub ragdoll_offset: IVec2,
    pub slide_offset: IVec2,
    pub net_offset: IVec2,
    pub gen_animations: bool,
    pub auto_glide_frame: i32,
    pub auto_idle_frame: i32,
    pub auto_anim_speed: i32,
    pub changes_animations: bool,
    pub size_state: bool,
    pub base: HatBase,
    pub animations: Vec<Animation>,
}

impl Wings {
    /// The element is serialisable: every byte-sized field fits the wire,
    /// and the auto glide frame either equals the current frame count (so
    /// it is omitted) or fits one byte.
    pub open spec fn wf(self) -> bool {
        &&& self.base.hat_type == HatType::Wings
        &&& self.base.wf()
        &&& 0 <= self.general_offset.x <= 255 && 0 <= self.general_offset.y <= 255
        &&& 0 <= self.crouch_offset.x <= 255 && 0 <= self.crouch_offset.y <= 255
        &&& 0 <= self.ragdoll_offset.x <= 255 && 0 <= self.ragdoll_offset.y <= 255
        &&& 0 <= self.slide_offset.x <= 255 && 0 <= self.slide_offset.y <= 255
        &&& 0 <= self.net_offset.x <= 255 && 0 <= self.net_offset.y <= 255
        &&& 0 <= self.auto_anim_speed <= 255
        &&& 0 <= self.auto_idle_frame <= 255
        &&& (self.auto_glide_frame == spec_frames_amount_safe(self.base) || 0
            <= self.auto_glide_frame <= 255)
    }

    /// The scalar fields equal the given decode state, with the defaults
    /// that depend on the frame count filled in.
    pub open spec fn matches_core(self, c: WingsCore) -> bool {
        &&& self.general_offset.x == c.general_x && self.general_offset.y == c.general_y
        &&& self.crouch_offset.x == c.crouch_x && self.crouch_offset.y == c.crouch_y
        &&& self.ragdoll_offset.x == c.ragdoll_x && self.ragdoll_offset.y == c.ragdoll_y
        &&& self.slide_offset.x == c.slide_x && self.slide_offset.y == c.slide_y
        &&& self.net_offset.x == c.net_x && self.net_offset.y == c.net_y
        &&& self.gen_animations == c.gen_animations
        &&& self.auto_glide_frame == (if c.has_auto_glide {
            c.auto_glide_frame
        } else {
            spec_frames_amount_safe(self.base)
        })
        &&& self.auto_idle_frame == c.auto_idle_frame
        &&& self.auto_anim_speed == (if c.has_auto_speed {
            c.auto_anim_speed
        } else {
            DEFAULT_AUTO_SPEED as int
        })
        &&& self.changes_animations == c.changes_animations
        &&& self.size_state == c.size_state
        &&& self.base.frame_size.x == c.frame_size_x
        &&& self.base.frame_size.y == c.frame_size_y
    }

    /// The serialised form: each offset when not the default, the flag
    /// records, the non-default auto-animation settings, then the frame
    /// size. Wings animations are generated by the game and not written.
    pub open spec fn spec_pixels(self) -> Seq<Metapixel> {
        let s = Seq::<Metapixel>::empty();
        let s = if self.general_offset.x != 128 || self.general_offset.y != 128 {
            s.push(
                mp(
                    MetapixelType::WingsGeneralOffset,
                    self.general_offset.x as u8,
                    self.general_offset.y as u8,
                ),
            )
        } else {
            s
        };
        let s = if self.slide_offset.x != 128 || self.slide_offset.y != 128 {
            s.push(
                mp(
                    MetapixelType::WingsSlideOffset,
                    self.slide_offset.x as u8,
                    self.slide_offset.y as u8,
                ),
            )
        } else {
            s
        };
        let s = if self.ragdoll_offset.x != 128 || self.ragdoll_offset.y != 128 {
            s.push(
                mp(
                    MetapixelType::WingsRagdollOffset,
                    self.ragdoll_offset.x as u8,
                    self.ragdoll_offset.y as u8,
                ),
            )
        } else {
            s
        };
        let s = if self.crouch_offset.x != 128 || self.crouch_offset.y != 128 {
            s.push(
                mp(
                    MetapixelType::WingsCrouchOffset,
                    self.crouch_offset.x as u8,
                    self.crouch_offset.y as u8,
                ),
            )
        } else {
            s
        };
        let s = if self.net_offset.x != 128 || self.net_offset.y != 128 {
            s.push(
                mp(
                    MetapixelType::WingsNetOffset,
                    self.net_offset.x as u8,
                    self.net_offset.y as u8,
                ),
            )
        } else {
            s
        };
        let s = if self.base.frame_size.x > 32 || self.base.frame_size.y > 32 {
            s.push(mp(MetapixelType::IsBigHat, 0, 0))
        } else {
            s
        };
        let s = if self.gen_animations {
            s.push(mp(MetapixelType::GenerateWingsAnimations, 0, 0))
        } else {
            s
        };
        let s = if self.changes_animations {
            s.push(mp(MetapixelType::ChangeAnimationsEveryLevel, 0, 0))
        } else {
            s
        };
        let s = if self.auto_anim_speed != DEFAULT_AUTO_SPEED {
            s.push(mp(MetapixelType::WingsAutoAnimationsSpeed, self.auto_anim_speed as u8, 0))
        } else {
            s
        };
        let s = if self.auto_glide_frame != spec_frames_amount_safe(self.base) {
            s.push(
                mp(MetapixelType::WingsAutoGlideFrame, sat_sub1(self.auto_glide_frame as u8), 0),
            )
        } else {
            s
        };
        let s = if self.auto_idle_frame != DEFAULT_WINGS_IDLE_FRAME {
            s.push(mp(MetapixelType::WingsAutoIdleFrame, sat_sub1(self.auto_idle_frame as u8), 0))
        } else {
            s
        };
        s.push(
            mp(
                MetapixelType::FrameSize,
                self.base.frame_size.x as u8,
                self.base.frame_size.y as u8,
            ),
        )
    }

    /// Decodes a Wings element out of its metapixel stream. On top of the
    /// fold of the records, a default `OnDefault` animation over every
    /// frame of the texture is added, at the decoded auto-animation speed.
    pub fn load_from_data(data: HatLoadData, metapixels: &[Metapixel], ids: &mut IdSource) -> (h:
        Self)
        requires
            data.wf(),
        ensures
            h.wf(),
            h.matches_core(wings_fold(metapixels@, metapixels@.len() as int)),
            h.animations@.len() == 1,
            h.animations@[0].anim_type == AnimationType::OnDefault,
            h.animations@[0].delay == h.auto_anim_speed,
            h.animations@[0].looping == false,
            frame_values(h.animations@[0].frames@) == range_seq(
                0,
                spec_frames_amount_safe(h.base) - 1,
            ),
            h.base.hat_area_size == data.hat_area_size,
            h.base.bitmap == Some(data.bitmap),
            h.base.texture_size == data.texture_size,
            h.base.name == data.name,
            h.base.id == (HatElementId(old(ids).next)),
            old(ids).next <= final(ids).next,
            final(ids).next < u32::MAX ==> old(ids).next < final(ids).next,
    {
        let ghost s = metapixels@;
        let id = hat_id(ids);
        let mut general_offset = IVec2::new(128, 128);
        let mut crouch_offset = IVec2::new(128, 128);
        let mut ragdoll_offset = IVec2::new(128, 128);
        let mut slide_offset = IVec2::new(128, 128);
        let mut net_offset = IVec2::new(128, 128);
        let mut gen_animations = false;
        let mut auto_glide_frame: i32 = 0;
        let mut has_auto_glide = false;
        let mut auto_idle_frame: i32 = DEFAULT_WINGS_IDLE_FRAME;
        let mut auto_anim_speed: i32 = 0;
        let mut has_auto_speed = false;
        let mut changes_animations = false;
        let mut size_state = false;
        let mut fsx: i32 = MIN_FRAME_SIZE;
        let mut fsy: i32 = MIN_FRAME_SIZE;
        let n = metapixels.len();
        let mut i: usize = 0;
        while i < n
            invariant
                s == metapixels@,
                n == s.len(),
                0 <= i <= n,
                0 <= fsx <= 255,
                0 <= fsy <= 255,
                0 <= general_offset.x <= 255 && 0 <= general_offset.y <= 255,
                0 <= crouch_offset.x <= 255 && 0 <= crouch_offset.y <= 255,
                0 <= ragdoll_offset.x <= 255 && 0 <= ragdoll_offset.y <= 255,
                0 <= slide_offset.x <= 255 && 0 <= slide_offset.y <= 255,
                0 <= net_offset.x <= 255 && 0 <= net_offset.y <= 255,
                0 <= auto_anim_speed <= 255,
                0 <= auto_idle_frame <= 255,
                0 <= auto_glide_frame <= 255,
                wings_fold(s, i as int) == (WingsCore {
                    general_x: general_offset.x as int,
                    general_y: general_offset.y as int,
                    crouch_x: crouch_offset.x as int,
                    crouch_y: crouch_offset.y as int,
                    ragdoll_x: ragdoll_offset.x as int,
                    ragdoll_y: ragdoll_offset.y as int,
                    slide_x: slide_offset.x as int,
                    slide_y: slide_offset.y as int,
                    net_x: net_offset.x as int,
                    net_y: net_offset.y as int,
                    gen_animations,
                    auto_glide_frame: auto_glide_frame as int,
                    has_auto_glide,
                    auto_idle_frame: auto_idle_frame as int,
                    auto_anim_speed: auto_anim_speed as int,
                    has_auto_speed,
                    changes_animations,
                    size_state,
                    frame_size_x: fsx as int,
                    frame_size_y: fsy as int,
                }),
            decreases n - i,
        {
            let p = metapixels[i];
            match MetapixelType::from_u8(p.r) {
                Some(MetapixelType::WingsNetOffset) => {
                    net_offset = IVec2::new(p.g as i32, p.b as i32);
                },
                Some(MetapixelType::WingsGeneralOffset) => {
                    general_offset = IVec2::new(p.g as i32, p.b as i32);
                },
                Some(MetapixelType::WingsSlideOffset) => {
                    slide_offset = IVec2::new(p.g as i32, p.b as i32);
                },
                Some(MetapixelType::WingsRagdollOffset) => {
                    ragdoll_offset = IVec2::new(p.g as i32, p.b as i32);
                },
                Some(MetapixelType::WingsCrouchOffset) => {
                    crouch_offset = IVec2::new(p.g as i32, p.b as i32);
                },
                Some(MetapixelType::GenerateWingsAnimations) => {
                    gen_animations = true;
                },
                Some(MetapixelType::WingsAutoGlideFrame) => {
                    auto_glide_frame = if p.g == 255 {
                        255
                    } else {
                        (p.g + 1) as i32
                    };
                    has_auto_glide = true;
                },
                Some(MetapixelType::WingsAutoIdleFrame) => {
                    auto_idle_frame = if p.g == 255 {
                        255
                    } else {
                        (p.g + 1) as i32
                    };
                },
                Some(MetapixelType::WingsAutoAnimationsSpeed) => {
                    auto_anim_speed = p.g as i32;
                    has_auto_speed = true;
                },
                Some(MetapixelType::FrameSize) => {
                    fsx = p.g as i32;
                    fsy = p.b as i32;
                },
                Some(MetapixelType::ChangeAnimationsEveryLevel) => {
                    changes_animations = true;
                },
                Some(MetapixelType::IsBigHat) => {
                    size_state = true;
                },
                _ => {},
            }
            i = i + 1;
        }
        let base = HatBase {
            hat_type: HatType::Wings,
            frame_size: IVec2::new(fsx, fsy),
            hat_area_size: data.hat_area_size,
            bitmap: Some(data.bitmap),
            texture_size: data.texture_size,
            name: data.name,
            id,
        };
        proof {
            lemma_frames_amount_bound(base);
        }
        let frames_amount = base.frames_amount_safe();
        let speed = if has_auto_speed {
            auto_anim_speed
        } else {
            DEFAULT_AUTO_SPEED
        };
        let glide = if has_auto_glide {
            auto_glide_frame
        } else {
            frames_amount as i32
        };
        let mut animations: Vec<Animation> = Vec::new();
        let frames = crate::frames_from_range::frames_from_range(0, frames_amount as i32 - 1, ids);
        animations.push(Animation::new(AnimationType::OnDefault, speed, false, frames));
        Wings {
            general_offset,
            crouch_offset,
            ragdoll_offset,
            slide_offset,
            net_offset,
            gen_animations,
            auto_glide_frame: glide,
            auto_idle_frame,
            auto_anim_speed: speed,
            changes_animations,
            size_state,
            base,
            animations,
        }
    }

    /// Serialises this element into metapixel records.
    pub fn gen_metapixels(&self) -> (r: Vec<Metapixel>)
        requires
            self.wf(),
        ensures
            r@ == self.spec_pixels(),
    {
        let mut metapixels = Metapixels::new();
        if self.general_offset.x != 128 || self.general_offset.y != 128 {
            metapixels.push(
                MetapixelType::WingsGeneralOffset,
                self.general_offset.x as u8,
                self.general_offset.y as u8,
            );
        }
        if self.slide_offset.x != 128 || self.slide_offset.y != 128 {
            metapixels.push(
                MetapixelType::WingsSlideOffset,
                self.slide_offset.x as u8,
                self.slide_offset.y as u8,
            );
        }
        if self.ragdoll_offset.x != 128 || self.ragdoll_offset.y != 128 {
            metapixels.push(
                MetapixelType::WingsRagdollOffset,
                self.ragdoll_offset.x as u8,
                self.ragdoll_offset.y as u8,
            );
        }
        if self.crouch_offset.x != 128 || self.crouch_offset.y != 128 {
            metapixels.push(
                MetapixelType::WingsCrouchOffset,
                self.crouch_offset.x as u8,
                self.crouch_offset.y as u8,
            );
        }
        if self.net_offset.x != 128 || self.net_offset.y != 128 {
            metapixels.push(
                MetapixelType::WingsNetOffset,
                self.net_offset.x as u8,
                self.net_offset.y as u8,
            );
        }
        if self.base.frame_size.x > 32 || self.base.frame_size.y > 32 {
            metapixels.push(MetapixelType::IsBigHat, 0, 0);
        }
        if self.gen_animations {
            metapixels.push(MetapixelType::GenerateWingsAnimations, 0, 0);
        }
        if self.changes_animations {
            metapixels.push(MetapixelType::ChangeAnimationsEveryLevel, 0, 0);
        }
        if self.auto_anim_speed != DEFAULT_AUTO_SPEED {
            metapixels.push(MetapixelType::WingsAutoAnimationsSpeed, self.auto_anim_speed as u8, 0);
        }
        let frames_amount = self.base.frames_amount_safe();
        if (self.auto_glide_frame as i64) != (frames_amount as i64) {
            let g = self.auto_glide_frame as u8;
            metapixels.push(
                MetapixelType::WingsAutoGlideFrame,
                if g == 0 {
                    0
                } else {
                    g - 1
                },
                0,
            );
        }
        if self.auto_idle_frame != DEFAULT_WINGS_IDLE_FRAME {
            let g = self.auto_idle_frame as u8;
            metapixels.push(
                MetapixelType::WingsAutoIdleFrame,
                if g == 0 {
                    0
                } else {
                    g - 1
                },
                0,
            );
        }
        metapixels.push(
            MetapixelType::FrameSize,
            self.base.frame_size.x as u8,
            self.base.frame_size.y as u8,
        );
        proof {
            assert(metapixels.pixels@ =~= self.spec_pixels());
        }
        metapixels.pixels
    }
}


/// The scalar fields a pet decode accumulates.
pub ghost struct PetCore {
    pub distance: int,
    pub flipped: bool,
    pub is_big: bool,
    pub changes_angle: bool,
    pub speed: int,
    pub frame_size_x: int,
    pub frame_size_y: int,
}

/// The state a pet decode starts from.
pub open spec fn pet_core_init() -> PetCore {
    PetCore {
        distance: DEFAULT_PET_DISTANCE as int,
        flipped: true,
        is_big: false,
        changes_angle: false,
        speed: DEFAULT_PET_SPEED as int,
        frame_size_x: 32,
        frame_size_y: 32,
    }
}

/// One decode step of a flying pet: how one record changes the fields.
pub open spec fn flying_pet_step(c: PetCore, p: Metapixel) -> PetCore {
    match op_of_u8(p.r) {
        Some(MetapixelType::PetDistance) => PetCore { distance: p.g as int, ..c },
        Some(MetapixelType::PetNoFlip) => PetCore { flipped: false, ..c },
        Some(MetapixelType::FrameSize) => PetCore {
            frame_size_x: p.g as int,
            frame_size_y: p.b as int,
            ..c
        },
        Some(MetapixelType::IsBigHat) => PetCore { is_big: true, ..c },
        Some(MetapixelType::PetChangesAngle) => PetCore { changes_angle: true, ..c },
        Some(MetapixelType::PetSpeed) => PetCore { speed: p.g as int, ..c },
        _ => c,
    }
}

/// One decode step of a walking pet: as for a flying pet, but the angle
/// and speed records are ignored.
pub open spec fn walking_pet_step(c: PetCore, p: Metapixel) -> PetCore {
    match op_of_u8(p.r) {
        Some(MetapixelType::PetDistance) => PetCore { distance: p.g as int, ..c },
        Some(MetapixelType::PetNoFlip) => PetCore { flipped: false, ..c },
        Some(MetapixelType::FrameSize) => PetCore {
            frame_size_x: p.g as int,
            frame_size_y: p.b as int,
            ..c
        },
        Some(MetapixelType::IsBigHat) => PetCore { is_big: true, ..c },
        _ => c,
    }
}

/// The fields after a flying pet decodes the first `k` records.
pub open spec fn flying_pet_fold(s: Seq<Metapixel>, k: int) -> PetCore
    decreases k,
    when 0 <= k <= s.len()
{
    if k <= 0 {
        pet_core_init()
    } else {
        flying_pet_step(flying_pet_fold(s, k - 1), s[k - 1])
    }
}

/// The fields after a walking pet decodes the first `k` records.
pub open spec fn walking_pet_fold(s: Seq<Metapixel>, k: int) -> PetCore
    decreases k,
    when 0 <= k <= s.len()
{
    if k <= 0 {
        pet_core_init()
    } else {
        walking_pet_step(walking_pet_fold(s, k - 1), s[k - 1])
    }
}

/// The fields the two pet kinds share.
#[derive(Debug)]
pub struct PetBase {
    pub distance: i32,
    pub flipped: bool,
    pub is_big: bool,
    pub link_frame_state: LinkFrameState,
    pub animations: Vec<Animation>,
}

impl PetBase {
    /// The pet fields fit the wire format.
    pub open spec fn wf(self) -> bool {
        &&& 0 <= self.distance <= 255
        &&& forall|i: int|
            0 <= i < self.animations@.len() ==> (#[trigger] self.animations@[i])@.wf()
    }
}

/// A pet that flies around the player.
#[derive(Debug)]
pub struct FlyingPet {
    pub pet_base: PetBase,
    pub hat_base: HatBase,
    pub changes_angle: bool,
    pub speed: i32,
}

impl FlyingPet {
    /// The element is serialisable.
    pub open spec fn wf(self) -> bool {
        &&& self.hat_base.hat_type == HatType::FlyingPet
        &&& self.hat_base.wf()
        &&& self.pet_base.wf()
        &&& 0 <= self.speed <= 255
    }

    /// The scalar fields equal the given decode state.
    pub open spec fn matches_core(self, c: PetCore) -> bool {
        &&& self.pet_base.distance == c.distance
        &&& self.pet_base.flipped == c.flipped
        &&& self.pet_base.is_big == c.is_big
        &&& self.changes_angle == c.changes_angle
        &&& self.speed == c.speed
        &&& self.hat_base.frame_size.x == c.frame_size_x
        &&& self.hat_base.frame_size.y == c.frame_size_y
    }

    /// The serialised form: the non-default distance, the flip marker when
    /// the pet is flipped, the size flag, the frame size, the non-default
    /// link state, the angle flag, the non-default speed, then every
    /// animation.
    pub open spec fn spec_pixels(self) -> Seq<Metapixel> {
        let s = Seq::<Metapixel>::empty();
        let s = if self.pet_base.distance != DEFAULT_PET_DISTANCE {
            s.push(mp(MetapixelType::PetDistance, self.pet_base.distance as u8, 0))
        } else {
            s
        };
        let s = if self.pet_base.flipped {
            s.push(mp(MetapixelType::PetNoFlip, 0, 0))
        } else {
            s
        };
        let s = if self.hat_base.frame_size.x > 32 || self.hat_base.frame_size.y > 32 {
            s.push(mp(MetapixelType::IsBigHat, 0, 0))
        } else {
            s
        };
        let s = s.push(
            mp(
                MetapixelType::FrameSize,
                self.hat_base.frame_size.x as u8,
                self.hat_base.frame_size.y as u8,
            ),
        );
        let s = if self.pet_base.link_frame_state != LinkFrameState::Default {
            s.push(mp(MetapixelType::LinkFrameState, link_u8(self.pet_base.link_frame_state), 0))
        } else {
            s
        };
        let s = if self.changes_angle {
            s.push(mp(MetapixelType::PetChangesAngle, 0, 0))
        } else {
            s
        };
        let s = if self.speed != DEFAULT_PET_SPEED {
            s.push(mp(MetapixelType::PetSpeed, self.speed as u8, 0))
        } else {
            s
        };
        s + anims_pixels(anim_views(self.pet_base.animations@))
    }

    /// Decodes a flying pet out of its metapixel stream.
    pub fn load_from_data(data: HatLoadData, metapixels: &[Metapixel], ids: &mut IdSource) -> (h:
        Self)
        requires
            data.wf(),
        ensures
            h.wf(),
            h.matches_core(flying_pet_fold(metapixels@, metapixels@.len() as int)),
            anim_views(h.pet_base.animations@) == anims_of(metapixels@),
            h.pet_base.link_frame_state == LinkFrameState::Default,
            h.hat_base.hat_area_size == data.hat_area_size,
            h.hat_base.bitmap == Some(data.bitmap),
            h.hat_base.texture_size == data.texture_size,
            h.hat_base.name == data.name,
            h.hat_base.id == (HatElementId(old(ids).next)),
            old(ids).next <= final(ids).next,
            final(ids).next < u32::MAX ==> old(ids).next < final(ids).next,
    {
        let ghost s = metapixels@;
        let id = hat_id(ids);
        let animations = collect_animations(metapixels, ids);
        let mut distance: i32 = DEFAULT_PET_DISTANCE;
        let mut flipped = true;
        let mut is_big = false;
        let mut changes_angle = false;
        let mut speed: i32 = DEFAULT_PET_SPEED;
        let mut fsx: i32 = MIN_FRAME_SIZE;
        let mut fsy: i32 = MIN_FRAME_SIZE;
        let n = metapixels.len();
        let mut i: usize = 0;
        while i < n
            invariant
                s == metapixels@,
                n == s.len(),
                0 <= i <= n,
                0 <= distance <= 255,
                0 <= speed <= 255,
                0 <= fsx <= 255,
                0 <= fsy <= 255,
                flying_pet_fold(s, i as int) == (PetCore {
                    distance: distance as int,
                    flipped,
                    is_big,
                    changes_angle,
                    speed: speed as int,
                    frame_size_x: fsx as int,
                    frame_size_y: fsy as int,
                }),
            decreases n - i,
        {
            let p = metapixels[i];
            match MetapixelType::from_u8(p.r) {
                Some(MetapixelType::PetDistance) => {
                    distance = p.g as i32;
                },
                Some(MetapixelType::PetNoFlip) => {
                    flipped = false;
                },
                Some(MetapixelType::FrameSize) => {
                    fsx = p.g as i32;
                    fsy = p.b as i32;
                },
                Some(MetapixelType::IsBigHat) => {
                    is_big = true;
                },
                Some(MetapixelType::PetChangesAngle) => {
                    changes_angle = true;
                },
                Some(MetapixelType::PetSpeed) => {
                    speed = p.g as i32;
                },
                _ => {},
            }
            i = i + 1;
        }
        FlyingPet {
            pet_base: PetBase {
                distance,
                flipped,
                is_big,
                link_frame_state: LinkFrameState::Default,
                animations,
            },
            hat_base: HatBase {
                hat_type: HatType::FlyingPet,
                frame_size: IVec2::new(fsx, fsy),
                hat_area_size: data.hat_area_size,
                bitmap: Some(data.bitmap),
                texture_size: data.texture_size,
                name: data.name,
                id,
            },
            changes_angle,
            speed,
        }
    }

    /// Serialises this element into metapixel records.
    pub fn gen_metapixels(&self) -> (r: Vec<Metapixel>)
        requires
            self.wf(),
        ensures
            r@ == self.spec_pixels(),
    {
        let mut metapixels = Metapixels::new();
        if self.pet_base.distance != DEFAULT_PET_DISTANCE {
            metapixels.push(MetapixelType::PetDistance, self.pet_base.distance as u8, 0);
        }
        if self.pet_base.flipped {
            metapixels.push(MetapixelType::PetNoFlip, 0, 0);
        }
        if self.hat_base.frame_size.x > 32 || self.hat_base.frame_size.y > 32 {
            metapixels.push(MetapixelType::IsBigHat, 0, 0);
        }
        metapixels.push(
            MetapixelType::FrameSize,
            self.hat_base.frame_size.x as u8,
            self.hat_base.frame_size.y as u8,
        );
        if !matches!(self.pet_base.link_frame_state, LinkFrameState::Default) {
            metapixels.push(
                MetapixelType::LinkFrameState,
                self.pet_base.link_frame_state.as_u8(),
                0,
            );
        }
        if self.changes_angle {
            metapixels.push(MetapixelType::PetChangesAngle, 0, 0);
        }
        if self.speed != DEFAULT_PET_SPEED {
            metapixels.push(MetapixelType::PetSpeed, self.speed as u8, 0);
        }
        push_animations(&mut metapixels, &self.pet_base.animations);
        proof {
            assert(metapixels.pixels@ == self.spec_pixels());
        }
        metapixels.pixels
    }
}

/// A pet that walks behind the player.
#[derive(Debug)]
pub struct WalkingPet {
    pub pet_base: PetBase,
    pub hat_base: HatBase,
}

impl WalkingPet {
    /// The element is serialisable.
    pub open spec fn wf(self) -> bool {
        &&& self.hat_base.hat_type == HatType::WalkingPet
        &&& self.hat_base.wf()
        &&& self.pet_base.wf()
    }

    /// The scalar fields equal the given decode state.
    pub open spec fn matches_core(self, c: PetCore) -> bool {
        &&& self.pet_base.distance == c.distance
        &&& self.pet_base.flipped == c.flipped
        &&& self.pet_base.is_big == c.is_big
        &&& self.hat_base.frame_size.x == c.frame_size_x
        &&& self.hat_base.frame_size.y == c.frame_size_y
    }

    /// The serialised form: as for a flying pet, without the angle and
    /// speed records.
    pub open spec fn spec_pixels(self) -> Seq<Metapixel> {
        let s = Seq::<Metapixel>::empty();
        let s = if self.pet_base.distance != DEFAULT_PET_DISTANCE {
            s.push(mp(MetapixelType::PetDistance, self.pet_base.distance as u8, 0))
        } else {
            s
        };
        let s = if self.pet_base.flipped {
            s.push(mp(MetapixelType::PetNoFlip, 0, 0))
        } else {
            s
        };
        let s = if self.hat_base.frame_size.x > 32 || self.hat_base.frame_size.y > 32 {
            s.push(mp(MetapixelType::IsBigHat, 0, 0))
        } else {
            s
        };
        let s = s.push(
            mp(
                MetapixelType::FrameSize,
                self.hat_base.frame_size.x as u8,
                self.hat_base.frame_size.y as u8,
            ),
        );
        let s = if self.pet_base.link_frame_state != LinkFrameState::Default {
            s.push(mp(MetapixelType::LinkFrameState, link_u8(self.pet_base.link_frame_state), 0))
        } else {
            s
        };
        s + anims_pixels(anim_views(self.pet_base.animations@))
    }

    /// Decodes a walking pet out of its metapixel stream.
    pub fn load_from_data(data: HatLoadData, metapixels: &[Metapixel], ids: &mut IdSource) -> (h:
        Self)
        requires
            data.wf(),
        ensures
            h.wf(),
            h.matches_core(walking_pet_fold(metapixels@, metapixels@.len() as int)),
            anim_views(h.pet_base.animations@) == anims_of(metapixels@),
            h.pet_base.link_frame_state == LinkFrameState::Default,
            h.hat_base.hat_area_size == data.hat_area_size,
            h.hat_base.bitmap == Some(data.bitmap),
            h.hat_base.texture_size == data.texture_size,
            h.hat_base.name == data.name,
            h.hat_base.id == (HatElementId(old(ids).next)),
            old(ids).next <= final(ids).next,
            final(ids).next < u32::MAX ==> old(ids).next < final(ids).next,
    {
        let ghost s = metapixels@;
        let id = hat_id(ids);
        let animations = collect_animations(metapixels, ids);
        let mut distance: i32 = DEFAULT_PET_DISTANCE;
        let mut flipped = true;
        let mut is_big = false;
        let mut fsx: i32 = MIN_FRAME_SIZE;
        let mut fsy: i32 = MIN_FRAME_SIZE;
        let n = metapixels.len();
        let mut i: usize = 0;
        while i < n
            invariant
                s == metapixels@,
                n == s.len(),
                0 <= i <= n,
                0 <= distance <= 255,
                0 <= fsx <= 255,
                0 <= fsy <= 255,
                walking_pet_fold(s, i as int) == (PetCore {
                    distance: distance as int,
                    flipped,
                    is_big,
                    changes_angle: false,
                    speed: DEFAULT_PET_SPEED as int,
                    frame_size_x: fsx as int,
                    frame_size_y: fsy as int,
                }),
            decreases n - i,
        {
            let p = metapixels[i];
            match MetapixelType::from_u8(p.r) {
                Some(MetapixelType::PetDistance) => {
                    distance = p.g as i32;
                },
                Some(MetapixelType::PetNoFlip) => {
                    flipped = false;
                },
                Some(MetapixelType::FrameSize) => {
                    fsx = p.g as i32;
                    fsy = p.b as i32;
                },
                Some(MetapixelType::IsBigHat) => {
                    is_big = true;
                },
                _ => {},
            }
            i = i + 1;
        }
        WalkingPet {
            pet_base: PetBase {
                distance,
                flipped,
                is_big,
                link_frame_state: LinkFrameState::Default,
                animations,
            },
            hat_base: HatBase {
                hat_type: HatType::WalkingPet,
                frame_size: IVec2::new(fsx, fsy),
                hat_area_size: data.hat_area_size,
                bitmap: Some(data.bitmap),
                texture_size: data.texture_size,
                name: data.name,
                id,
            },
        }
    }

    /// Serialises this element into metapixel records.
    pub fn gen_metapixels(&self) -> (r: Vec<Metapixel>)
        requires
            self.wf(),
        ensures
            r@ == self.spec_pixels(),
    {
        let mut metapixels = Metapixels::new();
        if self.pet_base.distance != DEFAULT_PET_DISTANCE {
            metapixels.push(MetapixelType::PetDistance, self.pet_base.distance as u8, 0);
        }
        if self.pet_base.flipped {
            metapixels.push(MetapixelType::PetNoFlip, 0, 0);
        }
        if self.hat_base.frame_size.x > 32 || self.hat_base.frame_size.y > 32 {
            metapixels.push(MetapixelType::IsBigHat, 0, 0);
        }
        metapixels.push(
            MetapixelType::FrameSize,
            self.hat_base.frame_size.x as u8,
            self.hat_base.frame_size.y as u8,
        );
        if !matches!(self.pet_base.link_frame_state, LinkFrameState::Default) {
            metapixels.push(
                MetapixelType::LinkFrameState,
                self.pet_base.link_frame_state.as_u8(),
                0,
            );
        }
        push_animations(&mut metapixels, &self.pet_base.animations);
        proof {
            assert(metapixels.pixels@ == self.spec_pixels());
        }
        metapixels.pixels
    }
}

/// The frame size after an Extra decode: the last `FrameSize` record, or
/// the starting size when the stream holds none.
pub open spec fn extra_fold(s: Seq<Metapixel>, k: int, init_x: int, init_y: int) -> (int, int)
    decreases k,
    when 0 <= k <= s.len()
{
    if k <= 0 {
        (init_x, init_y)
    } else {
        match op_of_u8(s[k - 1].r) {
            Some(MetapixelType::FrameSize) => (s[k - 1].g as int, s[k - 1].b as int),
            _ => extra_fold(s, k - 1, init_x, init_y),
        }
    }
}

/// The extra hat: a free-form overlay element.
#[derive(Debug)]
pub struct Extra {
    pub base: HatBase,
    pub animations: Vec<Animation>,
}

impl Extra {
    /// The element is serialisable.
    pub open spec fn wf(self) -> bool {
        &&& self.base.hat_type == HatType::Extra
        &&& self.base.wf()
    }

    /// The starting frame size: the texture clipped to the largest extra
    /// size, or zero without a texture.
    pub open spec fn spec_init_frame(texture_size: Option<IVec2>) -> (int, int) {
        match texture_size {
            Some(t) => (
                if t.x < MAX_EXTRA_HAT_SIZE_X {
                    t.x as int
                } else {
                    MAX_EXTRA_HAT_SIZE_X as int
                },
                if t.y < MAX_EXTRA_HAT_SIZE_Y {
                    t.y as int
                } else {
                    MAX_EXTRA_HAT_SIZE_Y as int
                },
            ),
            None => (0, 0),
        }
    }

    /// The serialised form: the frame size alone.
    pub open spec fn spec_pixels(self) -> Seq<Metapixel> {
        seq![
            mp(
                MetapixelType::FrameSize,
                self.base.frame_size.x as u8,
                self.base.frame_size.y as u8,
            ),
        ]
    }

    /// Decodes an Extra element: the frame size starts from the clipped
    /// texture size and follows the last `FrameSize` record; one default
    /// animation over every frame of the starting size is added.
    pub fn load_from_data(data: HatLoadData, metapixels: &[Metapixel], ids: &mut IdSource) -> (h:
        Self)
        requires
            data.wf(),
        ensures
            h.wf(),
            (h.base.frame_size.x as int, h.base.frame_size.y as int) == extra_fold(
                metapixels@,
                metapixels@.len() as int,
                Extra::spec_init_frame(data.texture_size).0,
                Extra::spec_init_frame(data.texture_size).1,
            ),
            h.animations@.len() == 1,
            h.animations@[0].anim_type == AnimationType::OnDefault,
            h.animations@[0].delay == 4,
            h.animations@[0].looping == false,
            frame_values(h.animations@[0].frames@) == range_seq(
                0,
                spec_frames_amount_safe(
                    (HatBase {
                        frame_size: (IVec2 {
                            x: Extra::spec_init_frame(data.texture_size).0 as i32,
                            y: Extra::spec_init_frame(data.texture_size).1 as i32,
                        }),
                        ..h.base
                    }),
                ) - 1,
            ),
            h.base.hat_area_size == data.hat_area_size,
            h.base.bitmap == Some(data.bitmap),
            h.base.texture_size == data.texture_size,
            h.base.name == data.name,
            h.base.id == (HatElementId(old(ids).next)),
            old(ids).next <= final(ids).next,
            final(ids).next < u32::MAX ==> old(ids).next < final(ids).next,
    {
        let ghost s = metapixels@;
        let id = hat_id(ids);
        let (ix, iy) = match &data.texture_size {
            Some(t) => {
                (
                    if t.x < MAX_EXTRA_HAT_SIZE_X {
                        t.x
                    } else {
                        MAX_EXTRA_HAT_SIZE_X
                    },
                    if t.y < MAX_EXTRA_HAT_SIZE_Y {
                        t.y
                    } else {
                        MAX_EXTRA_HAT_SIZE_Y
                    },
                )
            },
            None => (0, 0),
        };
        let init_base = HatBase {
            hat_type: HatType::Extra,
            frame_size: IVec2::new(ix, iy),
            hat_area_size: data.hat_area_size,
            bitmap: Some(data.bitmap),
            texture_size: data.texture_size,
            name: data.name,
            id,
        };
        proof {
            lemma_frames_amount_bound(init_base);
        }
        let frames_amount = init_base.frames_amount_safe();
        let frames = crate::frames_from_range::frames_from_range(0, frames_amount as i32 - 1, ids);
        let mut animations: Vec<Animation> = Vec::new();
        animations.push(Animation::new(AnimationType::OnDefault, 4, false, frames));
        let mut fsx: i32 = ix;
        let mut fsy: i32 = iy;
        let n = metapixels.len();
        let mut i: usize = 0;
        while i < n
            invariant
                s == metapixels@,
                n == s.len(),
                0 <= i <= n,
                0 <= fsx <= 255,
                0 <= fsy <= 255,
                0 <= ix <= 255,
                0 <= iy <= 255,
                (fsx as int, fsy as int) == extra_fold(s, i as int, ix as int, iy as int),
            decreases n - i,
        {
            let p = metapixels[i];
            match MetapixelType::from_u8(p.r) {
                Some(MetapixelType::FrameSize) => {
                    fsx = p.g as i32;
                    fsy = p.b as i32;
                },
                _ => {},
            }
            i = i + 1;
        }
        let mut base = init_base;
        base.frame_size = IVec2::new(fsx, fsy);
        Extra { base, animations }
    }

    /// Serialises this element into metapixel records.
    pub fn gen_metapixels(&self) -> (r: Vec<Metapixel>)
        requires
            self.wf(),
        ensures
            r@ == self.spec_pixels(),
    {
        let mut metapixels = Metapixels::new();
        metapixels.push(
            MetapixelType::FrameSize,
            self.base.frame_size.x as u8,
            self.base.frame_size.y as u8,
        );
        proof {
            assert(metapixels.pixels@ =~= self.spec_pixels());
        }
        metapixels.pixels
    }
}

/// The room element: a backdrop image with no serialised settings.
#[derive(Debug)]
pub struct RoomHat {
    pub base: HatBase,
}

impl RoomHat {
    /// The element carries the room kind tag.
    pub open spec fn wf(self) -> bool {
        self.base.hat_type == HatType::Room
    }

    /// Decodes a room element: the frame size is the whole art area.
    pub fn load_from_data(data: HatLoadData, ids: &mut IdSource) -> (h: Self)
        ensures
            h.wf(),
            h.base.frame_size == data.hat_area_size,
            h.base.hat_area_size == data.hat_area_size,
            h.base.bitmap == Some(data.bitmap),
            h.base.texture_size == data.texture_size,
            h.base.name == data.name,
            h.base.id == (HatElementId(old(ids).next)),
            old(ids).next <= final(ids).next,
            final(ids).next < u32::MAX ==> old(ids).next < final(ids).next,
    {
        let id = hat_id(ids);
        RoomHat {
            base: HatBase {
                hat_type: HatType::Room,
                frame_size: data.hat_area_size,
                hat_area_size: data.hat_area_size,
                bitmap: Some(data.bitmap),
                texture_size: data.texture_size,
                name: data.name,
                id,
            },
        }
    }

    /// A room serialises to no records.
    pub fn gen_metapixels(&self) -> (r: Vec<Metapixel>)
        ensures
            r@ == Seq::<Metapixel>::empty(),
    {
        let r: Vec<Metapixel> = Vec::new();
        r
    }
}

/// The preview element: the pack's thumbnail image.
#[derive(Debug)]
pub struct Preview {
    pub base: HatBase,
}

impl Preview {
    /// The element carries the preview kind tag.
    pub open spec fn wf(self) -> bool {
        self.base.hat_type == HatType::Preview
    }

    /// Decodes a preview element: the art area is the whole image.
    pub fn load_from_data(data: HatLoadData, ids: &mut IdSource) -> (h: Self)
        requires
            data.bitmap.width <= i32::MAX,
            data.bitmap.height <= i32::MAX,
        ensures
            h.wf(),
            h.base.frame_size == (IVec2 { x: MIN_FRAME_SIZE, y: MIN_FRAME_SIZE }),
            h.base.hat_area_size == (IVec2 {
                x: data.bitmap.width as i32,
                y: data.bitmap.height as i32,
            }),
            h.base.bitmap == Some(data.bitmap),
            h.base.texture_size == data.texture_size,
            h.base.name == data.name,
            h.base.id == (HatElementId(old(ids).next)),
            old(ids).next <= final(ids).next,
            final(ids).next < u32::MAX ==> old(ids).next < final(ids).next,
    {
        let id = hat_id(ids);
        let area = IVec2::new(data.bitmap.width as i32, data.bitmap.height as i32);
        Preview {
            base: HatBase {
                hat_type: HatType::Preview,
                frame_size: IVec2::new(MIN_FRAME_SIZE, MIN_FRAME_SIZE),
                hat_area_size: area,
                bitmap: Some(data.bitmap),
                texture_size: data.texture_size,
                name: data.name,
                id,
            },
        }
    }

    /// A preview serialises to no records.
    pub fn gen_metapixels(&self) -> (r: Vec<Metapixel>)
        ensures
            r@ == Seq::<Metapixel>::empty(),
    {
        let r: Vec<Metapixel> = Vec::new();
        r
    }
}


/// One element of a bundle: a tagged sum over the seven kinds.
#[derive(Debug)]
pub enum Element {
    Wereable(Wereable),
    Wings(Wings),
    Extra(Extra),
    FlyingPet(FlyingPet),
    WalkingPet(WalkingPet),
    Room(RoomHat),
    Preview(Preview),
}

impl Element {
    /// The inner element is serialisable and its kind tag matches the
    /// variant.
    pub open spec fn wf(self) -> bool {
        match self {
            Element::Wereable(e) => e.wf(),
            Element::Wings(e) => e.wf(),
            Element::Extra(e) => e.wf(),
            Element::FlyingPet(e) => e.wf(),
            Element::WalkingPet(e) => e.wf(),
            Element::Room(e) => e.wf() && e.base.texture_ok(),
            Element::Preview(e) => e.wf() && e.base.texture_ok(),
        }
    }

    /// The shared base of the element.
    pub open spec fn spec_base(self) -> HatBase {
        match self {
            Element::Wereable(e) => e.base,
            Element::Wings(e) => e.base,
            Element::Extra(e) => e.base,
            Element::FlyingPet(e) => e.hat_base,
            Element::WalkingPet(e) => e.hat_base,
            Element::Room(e) => e.base,
            Element::Preview(e) => e.base,
        }
    }

    /// The kind of the element.
    pub open spec fn spec_kind(self) -> HatType {
        self.spec_base().hat_type
    }

    /// The id of the element.
    pub open spec fn spec_id(self) -> HatElementId {
        self.spec_base().id
    }

    /// The serialised form of the element.
    pub open spec fn spec_pixels(self) -> Seq<Metapixel> {
        match self {
            Element::Wereable(e) => e.spec_pixels(),
            Element::Wings(e) => e.spec_pixels(),
            Element::Extra(e) => e.spec_pixels(),
            Element::FlyingPet(e) => e.spec_pixels(),
            Element::WalkingPet(e) => e.spec_pixels(),
            Element::Room(e) => Seq::empty(),
            Element::Preview(e) => Seq::empty(),
        }
    }

    /// The animation list of the element, for the kinds that carry one.
    pub open spec fn spec_animations(self) -> Option<Seq<Animation>> {
        match self {
            Element::Wereable(e) => Some(e.animations@),
            Element::Wings(e) => Some(e.animations@),
            Element::Extra(e) => Some(e.animations@),
            Element::FlyingPet(e) => Some(e.pet_base.animations@),
            Element::WalkingPet(e) => Some(e.pet_base.animations@),
            Element::Room(e) => None,
            Element::Preview(e) => None,
        }
    }

    /// The shared base of the element.
    pub fn base(&self) -> (r: &HatBase)
        ensures
            *r == self.spec_base(),
    {
        match self {
            Element::Wereable(e) => &e.base,
            Element::Wings(e) => &e.base,
            Element::Extra(e) => &e.base,
            Element::FlyingPet(e) => &e.hat_base,
            Element::WalkingPet(e) => &e.hat_base,
            Element::Room(e) => &e.base,
            Element::Preview(e) => &e.base,
        }
    }

    /// The id of the element.
    pub fn id(&self) -> (r: HatElementId)
        ensures
            r == self.spec_id(),
    {
        self.base().id
    }

    /// The kind of the element.
    pub fn hat_type(&self) -> (r: HatType)
        ensures
            r == self.spec_kind(),
    {
        self.base().hat_type
    }

    /// The animation list of the element, for the kinds that carry one.
    pub fn animations(&self) -> (r: Option<&Vec<Animation>>)
        ensures
            match (r, self.spec_animations()) {
                (Some(v), Some(s)) => v@ == s,
                (None, None) => true,
                _ => false,
            },
    {
        match self {
            Element::Wereable(e) => Some(&e.animations),
            Element::Wings(e) => Some(&e.animations),
            Element::Extra(e) => Some(&e.animations),
            Element::FlyingPet(e) => Some(&e.pet_base.animations),
            Element::WalkingPet(e) => Some(&e.pet_base.animations),
            Element::Room(_) => None,
            Element::Preview(_) => None,
        }
    }

    /// How many sprite-sheet frames the element's texture holds.
    pub fn frames_amount(&self) -> (r: u32)
        requires
            self.wf(),
        ensures
            r == spec_frames_amount_safe(self.spec_base()),
    {
        self.base().frames_amount_safe()
    }

    /// Serialises the element into metapixel records.
    pub fn gen_metapixels(&self) -> (r: Vec<Metapixel>)
        requires
            self.wf(),
        ensures
            r@ == self.spec_pixels(),
    {
        match self {
            Element::Wereable(e) => e.gen_metapixels(),
            Element::Wings(e) => e.gen_metapixels(),
            Element::Extra(e) => e.gen_metapixels(),
            Element::FlyingPet(e) => e.gen_metapixels(),
            Element::WalkingPet(e) => e.gen_metapixels(),
            Element::Room(e) => e.gen_metapixels(),
            Element::Preview(e) => e.gen_metapixels(),
        }
    }
}


/// Some element of the list carries this kind.
pub open spec fn seq_has_kind(s: Seq<Element>, kind: HatType) -> bool {
    exists|i: int| 0 <= i < s.len() && (#[trigger] s[i]).spec_kind() == kind
}

/// The second list is the first with `hat` put in at its kind's place:
/// it replaces the element of that kind, or is appended when none exists.
pub open spec fn unique_inserted_shape(pre: Seq<Element>, post: Seq<Element>, hat: Element) -> bool {
    if seq_has_kind(pre, hat.spec_kind()) {
        post.len() == pre.len() && forall|i: int|
            0 <= i < pre.len() ==> (#[trigger] post[i]) == (if pre[i].spec_kind()
                == hat.spec_kind() {
                hat
            } else {
                pre[i]
            })
    } else {
        post == pre.push(hat)
    }
}

/// The second list is the first with the element carrying `id` taken out,
/// or the first unchanged when no element carries it.
pub open spec fn removed_id_shape(pre: Seq<Element>, post: Seq<Element>, id: HatElementId) -> bool {
    (exists|i: int|
        0 <= i < pre.len() && (#[trigger] pre[i]).spec_id() == id && post == pre.remove(i)) || ((
    forall|i: int| 0 <= i < pre.len() ==> (#[trigger] pre[i]).spec_id() != id) && post == pre)
}

/// A hat bundle: at most one element of each unique kind, plus an ordered
/// list of at most `MAX_PETS` pet elements, and the directory it was
/// loaded from.
#[derive(Debug)]
pub struct Hat {
    pub unique_elements: Vec<Element>,
    pub pets: Vec<Element>,
    pub path: Option<String>,
}

impl Hat {
    /// Every element of the bundle: unique elements first, pets after.
    pub open spec fn all_elements(self) -> Seq<Element> {
        self.unique_elements@ + self.pets@
    }

    /// The ids of every element, in bundle order.
    pub open spec fn all_ids(self) -> Seq<HatElementId> {
        self.all_elements().map_values(|e: Element| e.spec_id())
    }

    /// Some element of the bundle carries this id.
    pub open spec fn spec_has_id(self, id: HatElementId) -> bool {
        exists|i: int| 0 <= i < self.all_ids().len() && #[trigger] self.all_ids()[i] == id
    }

    /// Some unique element carries this kind.
    pub open spec fn spec_has_kind(self, kind: HatType) -> bool {
        seq_has_kind(self.unique_elements@, kind)
    }

    /// The bundle invariant: every element is well-formed and in the right
    /// list, unique kinds appear at most once, the pet list is bounded,
    /// and ids never repeat.
    pub open spec fn wf(self) -> bool {
        &&& forall|i: int|
            0 <= i < self.unique_elements@.len() ==> ((#[trigger] self.unique_elements@[i]).wf()
                && !self.unique_elements@[i].spec_kind().is_pet()
                && self.unique_elements@[i].spec_kind() != HatType::Unspecified)
        &&& forall|i: int, j: int|
            #![trigger self.unique_elements@[i], self.unique_elements@[j]]
            0 <= i < j < self.unique_elements@.len() ==> self.unique_elements@[i].spec_kind()
                != self.unique_elements@[j].spec_kind()
        &&& forall|i: int|
            0 <= i < self.pets@.len() ==> ((#[trigger] self.pets@[i]).wf()
                && self.pets@[i].spec_kind().is_pet())
        &&& self.pets@.len() <= MAX_PETS
        &&& forall|i: int, j: int|
            #![trigger self.all_ids()[i], self.all_ids()[j]]
            0 <= i < j < self.all_ids().len() ==> self.all_ids()[i] != self.all_ids()[j]
    }

    /// An empty bundle rooted at a directory.
    pub fn new(path: String) -> (h: Self)
        ensures
            h.wf(),
            h.unique_elements@.len() == 0,
            h.pets@.len() == 0,
            h.path == Some(path),
    {
        let h = Hat { unique_elements: Vec::new(), pets: Vec::new(), path: Some(path) };
        proof {
            assert(h.all_ids() =~= Seq::<HatElementId>::empty());
        }
        h
    }

    /// The bundle holds at least one element.
    pub fn has_elements(&self) -> (r: bool)
        ensures
            r == (self.all_elements().len() > 0),
    {
        self.unique_elements.len() > 0 || self.pets.len() > 0
    }

    /// Another pet still fits.
    pub fn can_add_pets(&self) -> (r: bool)
        ensures
            r == (self.pets@.len() < MAX_PETS),
    {
        self.pets.len() < MAX_PETS
    }

    /// Inserts a unique element, replacing any element of the same kind.
    pub fn add_unique_hat(&mut self, hat_type: HatType, hat: Element)
        requires
            old(self).wf(),
            hat.wf(),
            hat.spec_kind() == hat_type,
            !hat_type.is_pet(),
            hat_type != HatType::Unspecified,
            !old(self).spec_has_id(hat.spec_id()),
        ensures
            final(self).pets@ == old(self).pets@,
            final(self).path == old(self).path,
            final(self).wf(),
            final(self).spec_has_kind(hat_type),
            unique_inserted_shape(old(self).unique_elements@, final(self).unique_elements@, hat),
            forall|x: HatElementId|
                final(self).spec_has_id(x) ==> old(self).spec_has_id(x) || x == hat.spec_id(),
    {
        let ghost pre = *self;
        let n = self.unique_elements.len();
        let mut i: usize = 0;
        while i < n
            invariant
                *self == pre,
                pre == *old(self),
                pre.wf(),
                hat.wf(),
                hat.spec_kind() == hat_type,
                !hat_type.is_pet(),
                hat_type != HatType::Unspecified,
                !pre.spec_has_id(hat.spec_id()),
                n == self.unique_elements@.len(),
                0 <= i <= n,
                forall|j: int|
                    0 <= j < i ==> (#[trigger] self.unique_elements@[j]).spec_kind() != hat_type,
            decreases n - i,
        {
            let is_kind = self.unique_elements[i].hat_type() == hat_type;
            if is_kind {
                self.unique_elements[i] = hat;
                proof {
                    assert(self.unique_elements@ == pre.unique_elements@.update(i as int, hat));
                    assert(pre.spec_has_kind(hat_type));
                    assert(self.all_ids() =~= pre.all_ids().update(i as int, hat.spec_id()));
                    assert forall|a: int, b: int|
                        #![trigger self.all_ids()[a], self.all_ids()[b]]
                        0 <= a < b < self.all_ids().len() implies self.all_ids()[a]
                        != self.all_ids()[b] by {
                        assert(pre.all_ids()[a] != pre.all_ids()[b]);
                        if a == i {
                            assert(pre.all_ids()[b] == self.all_ids()[b]);
                        }
                        if b == i {
                            assert(pre.all_ids()[a] == self.all_ids()[a]);
                        }
                    }
                    assert forall|a: int|
                        0 <= a < pre.unique_elements@.len() implies (
                        #[trigger] self.unique_elements@[a]) == (if pre.unique_elements@[a].spec_kind()
                            == hat_type {
                            hat
                        } else {
                            pre.unique_elements@[a]
                        }) by {
                        if a != i && pre.unique_elements@[a].spec_kind() == hat_type {
                            assert(pre.unique_elements@[i as int].spec_kind() == hat_type);
                        }
                    }
                    assert((#[trigger] self.unique_elements@[i as int]).spec_kind() == hat_type);
                    assert forall|x: HatElementId| self.spec_has_id(x) implies pre.spec_has_id(x)
                        || x == hat.spec_id() by {
                        let a = choose|a: int|
                            0 <= a < self.all_ids().len() && #[trigger] self.all_ids()[a] == x;
                        if a != i {
                            assert(pre.all_ids()[a] == x);
                        }
                    }
                }
                return ;
            }
            i = i + 1;
        }
        self.unique_elements.push(hat);
        proof {
            assert(!pre.spec_has_kind(hat_type));
            assert(self.all_ids() =~= pre.all_ids().insert(
                pre.unique_elements@.len() as int,
                hat.spec_id(),
            ));
            let k = pre.unique_elements@.len() as int;
            assert forall|a: int, b: int|
                #![trigger self.all_ids()[a], self.all_ids()[b]]
                0 <= a < b < self.all_ids().len() implies self.all_ids()[a] != self.all_ids()[b] by {
                let pids = pre.all_ids();
                if b < k {
                    assert(self.all_ids()[a] == pids[a] && self.all_ids()[b] == pids[b]);
                } else if b == k {
                    assert(self.all_ids()[b] == hat.spec_id());
                    assert(self.all_ids()[a] == pids[a]);
                    assert(!pre.spec_has_id(hat.spec_id()));
                } else {
                    assert(self.all_ids()[b] == pids[b - 1]);
                    if a < k {
                        assert(self.all_ids()[a] == pids[a]);
                    } else if a == k {
                        assert(self.all_ids()[a] == hat.spec_id());
                        assert(!pre.spec_has_id(hat.spec_id()));
                    } else {
                        assert(self.all_ids()[a] == pids[a - 1]);
                    }
                }
            }
            assert((#[trigger] self.unique_elements@[k]).spec_kind() == hat_type);
            assert forall|x: HatElementId| self.spec_has_id(x) implies pre.spec_has_id(x) || x
                == hat.spec_id() by {
                let a = choose|a: int|
                    0 <= a < self.all_ids().len() && #[trigger] self.all_ids()[a] == x;
                if a < k {
                    assert(pre.all_ids()[a] == x);
                } else if a > k {
                    assert(pre.all_ids()[a - 1] == x);
                }
            }
        }
    }

    /// Appends a pet when the pet list still has room; a sixth pet is
    /// refused.
    pub fn add_pet(&mut self, hat: Element) -> (added: bool)
        requires
            old(self).wf(),
            hat.wf(),
            hat.spec_kind().is_pet(),
            !old(self).spec_has_id(hat.spec_id()),
        ensures
            final(self).unique_elements@ == old(self).unique_elements@,
            final(self).path == old(self).path,
            final(self).wf(),
            added == (old(self).pets@.len() < MAX_PETS),
            added ==> final(self).pets@ == old(self).pets@.push(hat),
            !added ==> final(self).pets@ == old(self).pets@,
            forall|x: HatElementId|
                final(self).spec_has_id(x) ==> old(self).spec_has_id(x) || x == hat.spec_id(),
    {
        let ghost pre = *self;
        if self.pets.len() >= MAX_PETS {
            return false;
        }
        self.pets.push(hat);
        proof {
            assert(self.all_ids() =~= pre.all_ids().push(hat.spec_id()));
            assert forall|a: int, b: int|
                #![trigger self.all_ids()[a], self.all_ids()[b]]
                0 <= a < b < self.all_ids().len() implies self.all_ids()[a] != self.all_ids()[b] by {
                let pids = pre.all_ids();
                if b < pids.len() {
                    assert(self.all_ids()[a] == pids[a] && self.all_ids()[b] == pids[b]);
                } else {
                    assert(self.all_ids()[b] == hat.spec_id());
                    assert(self.all_ids()[a] == pids[a]);
                    assert(!pre.spec_has_id(hat.spec_id()));
                }
            }
            assert forall|x: HatElementId| self.spec_has_id(x) implies pre.spec_has_id(x) || x
                == hat.spec_id() by {
                let a = choose|a: int|
                    0 <= a < self.all_ids().len() && #[trigger] self.all_ids()[a] == x;
                if a < pre.all_ids().len() {
                    assert(pre.all_ids()[a] == x);
                }
            }
        }
        true
    }

    /// Routes an element to its place: pets are appended while room is
    /// left, any other kind replaces the unique element of its kind.
    /// Returns whether the element entered the bundle.
    pub fn add_element(&mut self, element: Element) -> (added: bool)
        requires
            old(self).wf(),
            element.wf(),
            element.spec_kind() != HatType::Unspecified,
            !old(self).spec_has_id(element.spec_id()),
        ensures
            final(self).wf(),
            final(self).path == old(self).path,
            element.spec_kind().is_pet() ==> (added == (old(self).pets@.len() < MAX_PETS) && (
            added ==> final(self).pets@ == old(self).pets@.push(element)) && (!added ==> final(self).pets@ == old(self).pets@) && final(self).unique_elements@ == old(self).unique_elements@),
            !element.spec_kind().is_pet() ==> (added && final(self).pets@ == old(self).pets@
                && final(self).spec_has_kind(element.spec_kind()) && unique_inserted_shape(
                old(self).unique_elements@,
                final(self).unique_elements@,
                element,
            )),
            added ==> final(self).spec_has_id(element.spec_id()),
            forall|x: HatElementId|
                final(self).spec_has_id(x) ==> old(self).spec_has_id(x) || x == element.spec_id(),
    {
        let ghost pre = *self;
        let kind = element.hat_type();
        let added = match kind {
            HatType::WalkingPet | HatType::FlyingPet => self.add_pet(element),
            _ => {
                self.add_unique_hat(kind, element);
                true
            },
        };
        proof {
            assert forall|x: HatElementId| self.spec_has_id(x) implies pre.spec_has_id(x) || x
                == element.spec_id() by {
                assert(self.spec_has_id(x) ==> pre.spec_has_id(x) || x == element.spec_id());
            }
            if added {
                if element.spec_kind().is_pet() {
                    let k = self.all_ids().len() - 1;
                    assert(self.all_ids()[k] == element.spec_id());
                } else {
                    let i = choose|i: int|
                        0 <= i < self.unique_elements@.len() && (
                        #[trigger] self.unique_elements@[i]).spec_kind() == element.spec_kind();
                    if pre.spec_has_kind(element.spec_kind()) {
                        assert(self.unique_elements@[i] == element);
                        assert(self.all_ids()[i] == element.spec_id());
                    } else {
                        let k = pre.unique_elements@.len() as int;
                        assert(self.unique_elements@[k] == element);
                        assert(self.all_ids()[k] == element.spec_id());
                    }
                }
            }
        }
        added
    }
}


/// The position of the first element carrying `id`, scanning forward.
fn find_id_index(v: &Vec<Element>, id: HatElementId) -> (r: Option<usize>)
    ensures
        match r {
            Some(i) => i < v@.len() && v@[i as int].spec_id() == id && forall|j: int|
                0 <= j < i ==> (#[trigger] v@[j]).spec_id() != id,
            None => forall|j: int| 0 <= j < v@.len() ==> (#[trigger] v@[j]).spec_id() != id,
        },
{
    let n = v.len();
    let mut i: usize = 0;
    while i < n
        invariant
            n == v@.len(),
            0 <= i <= n,
            forall|j: int| 0 <= j < i ==> (#[trigger] v@[j]).spec_id() != id,
        decreases n - i,
    {
        if v[i].id() == id {
            return Some(i);
        }
        i = i + 1;
    }
    None
}

impl Hat {
    /// Removes the element carrying `id` from whichever list holds it;
    /// a bundle without that id is left unchanged.
    #[verifier::rlimit(50)]
    pub fn remove_element(&mut self, id: HatElementId)
        requires
            old(self).wf(),
        ensures
            final(self).path == old(self).path,
            final(self).wf(),
            !final(self).spec_has_id(id),
            removed_id_shape(old(self).unique_elements@, final(self).unique_elements@, id),
            removed_id_shape(old(self).pets@, final(self).pets@, id),
            forall|x: HatElementId| final(self).spec_has_id(x) ==> old(self).spec_has_id(x),
    {
        let ghost pre = *self;
        match find_id_index(&self.unique_elements, id) {
            Some(i) => {
                self.unique_elements.remove(i);
                proof {
                    assert(self.all_ids() =~= pre.all_ids().remove(i as int));
                }
            },
            None => {},
        }
        let ghost mid = *self;
        match find_id_index(&self.pets, id) {
            Some(i) => {
                self.pets.remove(i);
                proof {
                    assert(self.all_ids() =~= mid.all_ids().remove(
                        mid.unique_elements@.len() + i,
                    ));
                }
            },
            None => {},
        }
        proof {
            let post = *self;
            assert forall|a: int, b: int|
                #![trigger post.all_ids()[a], post.all_ids()[b]]
                0 <= a < b < post.all_ids().len() implies post.all_ids()[a] != post.all_ids()[b] by {
                lemma_remove_keeps_distinct(pre.all_ids(), mid.all_ids(), post.all_ids(), a, b);
            }
            assert forall|a: int|
                0 <= a < post.all_ids().len() implies (#[trigger] post.all_ids()[a]) != id by {
                lemma_removed_id_gone(pre, mid, post, id, a);
            }
        }
    }

    /// Swaps in a new element for the one carrying `id`: the old element
    /// is removed, then the new one is routed to its place as
    /// `add_element` does — appended to the pets while room is left, or
    /// put in at its unique kind's place.
    pub fn replace_element(&mut self, id: HatElementId, element: Element) -> (added: bool)
        requires
            old(self).wf(),
            element.wf(),
            element.spec_kind() != HatType::Unspecified,
            !old(self).spec_has_id(element.spec_id()) || element.spec_id() == id,
        ensures
            final(self).wf(),
            final(self).path == old(self).path,
            !element.spec_kind().is_pet() ==> added,
            added ==> final(self).spec_has_id(element.spec_id()),
            element.spec_id() != id ==> !final(self).spec_has_id(id),
            exists|umid: Seq<Element>, pmid: Seq<Element>|
                #![trigger removed_id_shape(old(self).unique_elements@, umid, id), removed_id_shape(old(self).pets@, pmid, id)]
                {
                    &&& removed_id_shape(old(self).unique_elements@, umid, id)
                    &&& removed_id_shape(old(self).pets@, pmid, id)
                    &&& if element.spec_kind().is_pet() {
                        &&& final(self).unique_elements@ == umid
                        &&& added == (pmid.len() < MAX_PETS)
                        &&& (added ==> final(self).pets@ == pmid.push(element))
                        &&& (!added ==> final(self).pets@ == pmid)
                    } else {
                        &&& added
                        &&& final(self).pets@ == pmid
                        &&& unique_inserted_shape(umid, final(self).unique_elements@, element)
                    }
                },
    {
        self.remove_element(id);
        let ghost mid = *self;
        let added = self.add_element(element);
        proof {
            assert(removed_id_shape(old(self).unique_elements@, mid.unique_elements@, id));
            assert(removed_id_shape(old(self).pets@, mid.pets@, id));
        }
        added
    }
}

/// Distinctness of ids survives the two removals of `remove_element`.
proof fn lemma_remove_keeps_distinct(
    pre: Seq<HatElementId>,
    mid: Seq<HatElementId>,
    post: Seq<HatElementId>,
    a: int,
    b: int,
)
    requires
        forall|i: int, j: int|
            #![trigger pre[i], pre[j]]
            0 <= i < j < pre.len() ==> pre[i] != pre[j],
        mid == pre || exists|i: int| 0 <= i < pre.len() && mid == #[trigger] pre.remove(i),
        post == mid || exists|i: int| 0 <= i < mid.len() && post == #[trigger] mid.remove(i),
        0 <= a < b < post.len(),
    ensures
        post[a] != post[b],
{
    assert forall|x: int, y: int|
        #![trigger mid[x], mid[y]]
        0 <= x < y < mid.len() implies mid[x] != mid[y] by {
        if mid != pre {
            let i = choose|i: int| 0 <= i < pre.len() && mid == #[trigger] pre.remove(i);
            if y < i {
                assert(mid[x] == pre[x] && mid[y] == pre[y]);
            } else if x < i {
                assert(mid[x] == pre[x] && mid[y] == pre[y + 1]);
            } else {
                assert(mid[x] == pre[x + 1] && mid[y] == pre[y + 1]);
            }
        }
    }
    if post != mid {
        let i = choose|i: int| 0 <= i < mid.len() && post == #[trigger] mid.remove(i);
        if b < i {
            assert(post[a] == mid[a] && post[b] == mid[b]);
        } else if a < i {
            assert(post[a] == mid[a] && post[b] == mid[b + 1]);
        } else {
            assert(post[a] == mid[a + 1] && post[b] == mid[b + 1]);
        }
    }
}

/// After `remove_element`, no element carries the removed id.
proof fn lemma_removed_id_gone(pre: Hat, mid: Hat, post: Hat, id: HatElementId, a: int)
    requires
        pre.wf(),
        (exists|i: int|
            0 <= i < pre.unique_elements@.len() && (#[trigger] pre.unique_elements@[i]).spec_id()
                == id && mid.unique_elements@ == pre.unique_elements@.remove(i)) || ((forall|i: int|
            0 <= i < pre.unique_elements@.len() ==> (#[trigger] pre.unique_elements@[i]).spec_id()
                != id) && mid.unique_elements@ == pre.unique_elements@),
        mid.pets@ == pre.pets@,
        (exists|i: int|
            0 <= i < mid.pets@.len() && (#[trigger] mid.pets@[i]).spec_id() == id && post.pets@
                == mid.pets@.remove(i)) || ((forall|i: int|
            0 <= i < mid.pets@.len() ==> (#[trigger] mid.pets@[i]).spec_id() != id) && post.pets@
                == mid.pets@),
        post.unique_elements@ == mid.unique_elements@,
        0 <= a < post.all_ids().len(),
    ensures
        post.all_ids()[a] != id,
{
    let ul = post.unique_elements@.len() as int;
    if a < ul {
        let e = post.unique_elements@[a];
        assert(post.all_ids()[a] == e.spec_id());
        if exists|i: int|
            0 <= i < pre.unique_elements@.len() && (#[trigger] pre.unique_elements@[i]).spec_id()
                == id && mid.unique_elements@ == pre.unique_elements@.remove(i) {
            let i = choose|i: int|
                0 <= i < pre.unique_elements@.len() && (
                #[trigger] pre.unique_elements@[i]).spec_id() == id && mid.unique_elements@
                    == pre.unique_elements@.remove(i);
            if a < i {
                assert(e == pre.unique_elements@[a]);
                assert(pre.all_ids()[a] == e.spec_id());
                assert(pre.all_ids()[i] == id);
                if e.spec_id() == id {
                    assert(pre.all_ids()[a] == pre.all_ids()[i]);
                }
            } else {
                assert(e == pre.unique_elements@[a + 1]);
                assert(pre.all_ids()[a + 1] == e.spec_id());
                assert(pre.all_ids()[i] == id);
                if e.spec_id() == id {
                    assert(pre.all_ids()[i] == pre.all_ids()[a + 1]);
                }
            }
        } else {
            assert(e == pre.unique_elements@[a]);
            assert(e.spec_id() != id);
        }
    } else {
        let p = a - ul;
        let e = post.pets@[p];
        assert(post.all_ids()[a] == e.spec_id());
        if exists|i: int|
            0 <= i < mid.pets@.len() && (#[trigger] mid.pets@[i]).spec_id() == id && post.pets@
                == mid.pets@.remove(i) {
            let i = choose|i: int|
                0 <= i < mid.pets@.len() && (#[trigger] mid.pets@[i]).spec_id() == id && post.pets@
                    == mid.pets@.remove(i);
            let mul = pre.unique_elements@.len() as int;
            if p < i {
                assert(e == pre.pets@[p]);
                assert(pre.all_ids()[mul + p] == e.spec_id());
                assert(pre.all_ids()[mul + i] == id);
                if e.spec_id() == id {
                    assert(pre.all_ids()[mul + p] == pre.all_ids()[mul + i]);
                }
            } else {
                assert(e == pre.pets@[p + 1]);
                assert(pre.all_ids()[mul + p + 1] == e.spec_id());
                assert(pre.all_ids()[mul + i] == id);
                if e.spec_id() == id {
                    assert(pre.all_ids()[mul + i] == pre.all_ids()[mul + p + 1]);
                }
            }
        } else {
            assert(e == pre.pets@[p]);
            assert(e.spec_id() != id);
        }
    }
}


impl Hat {
    /// The kind of the element carrying `id`, if any.
    pub fn hat_type_by_id(&self, id: HatElementId) -> (r: Option<HatType>)
        ensures
            match r {
                Some(t) => exists|i: int|
                    0 <= i < self.all_elements().len() && (
                    #[trigger] self.all_elements()[i]).spec_id() == id && self.all_elements()[i].spec_kind()
                        == t,
                None => !self.spec_has_id(id),
            },
    {
        match self.element_from_id(id) {
            Some(e) => Some(e.hat_type()),
            None => None,
        }
    }

    /// The id of the first element of the given kind, if any.
    pub fn id_from_hat_type(&self, hat_type: HatType) -> (r: Option<HatElementId>)
        ensures
            match r {
                Some(id) => exists|i: int|
                    0 <= i < self.all_elements().len() && (
                    #[trigger] self.all_elements()[i]).spec_kind() == hat_type && self.all_elements()[i].spec_id()
                        == id,
                None => forall|i: int|
                    0 <= i < self.all_elements().len() ==> (
                    #[trigger] self.all_elements()[i]).spec_kind() != hat_type,
            },
    {
        let ghost all = self.all_elements();
        let un = self.unique_elements.len();
        let mut i: usize = 0;
        while i < un
            invariant
                un == self.unique_elements@.len(),
                all == self.all_elements(),
                0 <= i <= un,
                forall|j: int| 0 <= j < i ==> (#[trigger] all[j]).spec_kind() != hat_type,
            decreases un - i,
        {
            proof {
                assert(all[i as int] == self.unique_elements@[i as int]);
            }
            if self.unique_elements[i].hat_type() == hat_type {
                return Some(self.unique_elements[i].id());
            }
            i = i + 1;
        }
        let pn = self.pets.len();
        let mut p: usize = 0;
        while p < pn
            invariant
                un == self.unique_elements@.len(),
                pn == self.pets@.len(),
                all == self.all_elements(),
                0 <= p <= pn,
                forall|j: int| 0 <= j < un + p ==> (#[trigger] all[j]).spec_kind() != hat_type,
            decreases pn - p,
        {
            proof {
                assert(all[un + p] == self.pets@[p as int]);
            }
            if self.pets[p].hat_type() == hat_type {
                return Some(self.pets[p].id());
            }
            p = p + 1;
        }
        None
    }

    /// The element carrying `id`, if any.
    pub fn element_from_id(&self, id: HatElementId) -> (r: Option<&Element>)
        ensures
            match r {
                Some(e) => self.spec_has_id(id) && e.spec_id() == id && exists|i: int|
                    0 <= i < self.all_elements().len() && #[trigger] self.all_elements()[i] == *e,
                None => !self.spec_has_id(id),
            },
    {
        let ghost all = self.all_elements();
        let un = self.unique_elements.len();
        let mut i: usize = 0;
        while i < un
            invariant
                un == self.unique_elements@.len(),
                all == self.all_elements(),
                0 <= i <= un,
                forall|j: int| 0 <= j < i ==> (#[trigger] all[j]).spec_id() != id,
            decreases un - i,
        {
            proof {
                assert(all[i as int] == self.unique_elements@[i as int]);
            }
            if self.unique_elements[i].id() == id {
                proof {
                    assert((#[trigger] self.all_ids()[i as int]) == id);
                }
                return Some(&self.unique_elements[i]);
            }
            i = i + 1;
        }
        let pn = self.pets.len();
        let mut p: usize = 0;
        while p < pn
            invariant
                un == self.unique_elements@.len(),
                pn == self.pets@.len(),
                all == self.all_elements(),
                0 <= p <= pn,
                forall|j: int| 0 <= j < un + p ==> (#[trigger] all[j]).spec_id() != id,
            decreases pn - p,
        {
            proof {
                assert(all[un + p] == self.pets@[p as int]);
            }
            if self.pets[p].id() == id {
                proof {
                    assert((#[trigger] self.all_ids()[un + p]) == id);
                }
                return Some(&self.pets[p]);
            }
            p = p + 1;
        }
        proof {
            assert forall|j: int| 0 <= j < all.len() implies (#[trigger] self.all_ids()[j]) != id by {
                assert(self.all_ids()[j] == all[j].spec_id());
            }
        }
        None
    }

    /// Every element of the bundle, unique elements first, then pets in
    /// order.
    pub fn iter_all_elements(&self) -> (r: Vec<&Element>)
        ensures
            r@.len() == self.all_elements().len(),
            forall|i: int| 0 <= i < r@.len() ==> *(#[trigger] r@[i]) == self.all_elements()[i],
    {
        let mut out: Vec<&Element> = Vec::new();
        let un = self.unique_elements.len();
        let mut i: usize = 0;
        while i < un
            invariant
                un == self.unique_elements@.len(),
                out@.len() == i,
                0 <= i <= un,
                forall|j: int| 0 <= j < i ==> *(#[trigger] out@[j]) == self.all_elements()[j],
            decreases un - i,
        {
            out.push(&self.unique_elements[i]);
            i = i + 1;
        }
        let pn = self.pets.len();
        let mut p: usize = 0;
        while p < pn
            invariant
                un == self.unique_elements@.len(),
                pn == self.pets@.len(),
                out@.len() == un + p,
                0 <= p <= pn,
                forall|j: int| 0 <= j < un + p ==> *(#[trigger] out@[j]) == self.all_elements()[j],
            decreases pn - p,
        {
            out.push(&self.pets[p]);
            p = p + 1;
        }
        out
    }

    /// The first element of the bundle and its kind: the first unique
    /// element, or the first pet when no unique element exists.
    pub fn first_element(&self) -> (r: Option<(&Element, HatType)>)
        ensures
            match r {
                Some(pair) => pair.1 == pair.0.spec_kind() && (if self.unique_elements@.len() > 0 {
                    *pair.0 == self.unique_elements@[0]
                } else {
                    self.pets@.len() > 0 && *pair.0 == self.pets@[0]
                }),
                None => self.all_elements().len() == 0,
            },
    {
        if self.unique_elements.len() > 0 {
            let e = &self.unique_elements[0];
            Some((e, e.hat_type()))
        } else if self.pets.len() > 0 {
            let e = &self.pets[0];
            Some((e, e.hat_type()))
        } else {
            None
        }
    }

    /// The unique Wearable element, if the bundle holds one.
    pub fn wereable(&self) -> (r: Option<&Wereable>)
        requires
            self.wf(),
        ensures
            match r {
                Some(w) => exists|i: int|
                    0 <= i < self.unique_elements@.len() && #[trigger] self.unique_elements@[i]
                        == Element::Wereable(*w),
                None => !self.spec_has_kind(HatType::Wereable),
            },
    {
        let un = self.unique_elements.len();
        let mut i: usize = 0;
        while i < un
            invariant
                self.wf(),
                un == self.unique_elements@.len(),
                0 <= i <= un,
                forall|j: int|
                    0 <= j < i ==> (#[trigger] self.unique_elements@[j]).spec_kind()
                        != HatType::Wereable,
            decreases un - i,
        {
            if self.unique_elements[i].hat_type() == HatType::Wereable {
                match &self.unique_elements[i] {
                    Element::Wereable(w) => {
                        return Some(w);
                    },
                    _ => {
                        proof {
                            assert(false);
                        }
                    },
                }
            }
            i = i + 1;
        }
        None
    }

    /// The unique Wings element, if the bundle holds one.
    pub fn wings(&self) -> (r: Option<&Wings>)
        requires
            self.wf(),
        ensures
            match r {
                Some(w) => exists|i: int|
                    0 <= i < self.unique_elements@.len() && #[trigger] self.unique_elements@[i]
                        == Element::Wings(*w),
                None => !self.spec_has_kind(HatType::Wings),
            },
    {
        let un = self.unique_elements.len();
        let mut i: usize = 0;
        while i < un
            invariant
                self.wf(),
                un == self.unique_elements@.len(),
                0 <= i <= un,
                forall|j: int|
                    0 <= j < i ==> (#[trigger] self.unique_elements@[j]).spec_kind()
                        != HatType::Wings,
            decreases un - i,
        {
            if self.unique_elements[i].hat_type() == HatType::Wings {
                match &self.unique_elements[i] {
                    Element::Wings(w) => {
                        return Some(w);
                    },
                    _ => {
                        proof {
                            assert(false);
                        }
                    },
                }
            }
            i = i + 1;
        }
        None
    }

    /// The unique Extra element, if the bundle holds one.
    pub fn extra(&self) -> (r: Option<&Extra>)
        requires
            self.wf(),
        ensures
            match r {
                Some(w) => exists|i: int|
                    0 <= i < self.unique_elements@.len() && #[trigger] self.unique_elements@[i]
                        == Element::Extra(*w),
                None => !self.spec_has_kind(HatType::Extra),
            },
    {
        let un = self.unique_elements.len();
        let mut i: usize = 0;
        while i < un
            invariant
                self.wf(),
                un == self.unique_elements@.len(),
                0 <= i <= un,
                forall|j: int|
                    0 <= j < i ==> (#[trigger] self.unique_elements@[j]).spec_kind()
                        != HatType::Extra,
            decreases un - i,
        {
            if self.unique_elements[i].hat_type() == HatType::Extra {
                match &self.unique_elements[i] {
                    Element::Extra(w) => {
                        return Some(w);
                    },
                    _ => {
                        proof {
                            assert(false);
                        }
                    },
                }
            }
            i = i + 1;
        }
        None
    }

    /// The unique Room element, if the bundle holds one.
    pub fn room(&self) -> (r: Option<&RoomHat>)
        requires
            self.wf(),
        ensures
            match r {
                Some(w) => exists|i: int|
                    0 <= i < self.unique_elements@.len() && #[trigger] self.unique_elements@[i]
                        == Element::Room(*w),
                None => !self.spec_has_kind(HatType::Room),
            },
    {
        let un = self.unique_elements.len();
        let mut i: usize = 0;
        while i < un
            invariant
                self.wf(),
                un == self.unique_elements@.len(),
                0 <= i <= un,
                forall|j: int|
                    0 <= j < i ==> (#[trigger] self.unique_elements@[j]).spec_kind()
                        != HatType::Room,
            decreases un - i,
        {
            if self.unique_elements[i].hat_type() == HatType::Room {
                match &self.unique_elements[i] {
                    Element::Room(w) => {
                        return Some(w);
                    },
                    _ => {
                        proof {
                            assert(false);
                        }
                    },
                }
            }
            i = i + 1;
        }
        None
    }

    /// The unique Preview element, if the bundle holds one.
    pub fn preview(&self) -> (r: Option<&Preview>)
        requires
            self.wf(),
        ensures
            match r {
                Some(w) => exists|i: int|
                    0 <= i < self.unique_elements@.len() && #[trigger] self.unique_elements@[i]
                        == Element::Preview(*w),
                None => !self.spec_has_kind(HatType::Preview),
            },
    {
        let un = self.unique_elements.len();
        let mut i: usize = 0;
        while i < un
            invariant
                self.wf(),
                un == self.unique_elements@.len(),
                0 <= i <= un,
                forall|j: int|
                    0 <= j < i ==> (#[trigger] self.unique_elements@[j]).spec_kind()
                        != HatType::Preview,
            decreases un - i,
        {
            if self.unique_elements[i].hat_type() == HatType::Preview {
                match &self.unique_elements[i] {
                    Element::Preview(w) => {
                        return Some(w);
                    },
                    _ => {
                        proof {
                            assert(false);
                        }
                    },
                }
            }
            i = i + 1;
        }
        None
    }

    /// The first flying pet, if the bundle holds one.
    pub fn flying_pet(&self) -> (r: Option<&FlyingPet>)
        requires
            self.wf(),
        ensures
            match r {
                Some(w) => exists|i: int|
                    0 <= i < self.pets@.len() && #[trigger] self.pets@[i] == Element::FlyingPet(*w),
                None => forall|i: int|
                    0 <= i < self.pets@.len() ==> (#[trigger] self.pets@[i]).spec_kind()
                        != HatType::FlyingPet,
            },
    {
        let pn = self.pets.len();
        let mut i: usize = 0;
        while i < pn
            invariant
                self.wf(),
                pn == self.pets@.len(),
                0 <= i <= pn,
                forall|j: int|
                    0 <= j < i ==> (#[trigger] self.pets@[j]).spec_kind() != HatType::FlyingPet,
            decreases pn - i,
        {
            if self.pets[i].hat_type() == HatType::FlyingPet {
                match &self.pets[i] {
                    Element::FlyingPet(w) => {
                        return Some(w);
                    },
                    _ => {
                        proof {
                            assert(false);
                        }
                    },
                }
            }
            i = i + 1;
        }
        None
    }

    /// The first walking pet, if the bundle holds one.
    pub fn walking_pet(&self) -> (r: Option<&WalkingPet>)
        requires
            self.wf(),
        ensures
            match r {
                Some(w) => exists|i: int|
                    0 <= i < self.pets@.len() && #[trigger] self.pets@[i] == Element::WalkingPet(
                        *w,
                    ),
                None => forall|i: int|
                    0 <= i < self.pets@.len() ==> (#[trigger] self.pets@[i]).spec_kind()
                        != HatType::WalkingPet,
            },
    {
        let pn = self.pets.len();
        let mut i: usize = 0;
        while i < pn
            invariant
                self.wf(),
                pn == self.pets@.len(),
                0 <= i <= pn,
                forall|j: int|
                    0 <= j < i ==> (#[trigger] self.pets@[j]).spec_kind() != HatType::WalkingPet,
            decreases pn - i,
        {
            if self.pets[i].hat_type() == HatType::WalkingPet {
                match &self.pets[i] {
                    Element::WalkingPet(w) => {
                        return Some(w);
                    },
                    _ => {
                        proof {
                            assert(false);
                        }
                    },
                }
            }
            i = i + 1;
        }
        None
    }
}


/// The cell index (counting down the metapixel columns) at which the
/// `k`-th record is written: records advance one cell at a time, and a
/// blank cell is left immediately before each `AnimationType` record, as
/// the game's own writer places it. Since every element writes its
/// animations after its scalar records, this is the same as leaving the
/// blank after the record that precedes an animation; a description that
/// puts the blank after the anchor instead would shift it by one cell,
/// which no reader of the stream can observe, because decoding skips
/// blank cells wherever they fall.
pub open spec fn mp_cell(s: Seq<Metapixel>, k: int) -> int
    decreases k,
    when 0 <= k
{
    if k <= 0 {
        0
    } else {
        mp_cell(s, k - 1) + 1 + (if k < s.len() && is_op(s[k], MetapixelType::AnimationType) {
            1int
        } else {
            0int
        })
    }
}

/// The column, relative to the art area edge, of the `k`-th record.
pub open spec fn mp_col(s: Seq<Metapixel>, k: int, h: int) -> int {
    mp_cell(s, k) / h
}

/// The row of the `k`-th record.
pub open spec fn mp_row(s: Seq<Metapixel>, k: int, h: int) -> int {
    mp_cell(s, k) % h
}

/// How many cells the whole stream occupies.
pub open spec fn mp_total(s: Seq<Metapixel>) -> int {
    if s.len() == 0 {
        0
    } else {
        mp_cell(s, s.len() - 1) + 1
    }
}

/// Cells advance by at least one and at most two per record.
pub proof fn lemma_mp_cell_mono(s: Seq<Metapixel>, j: int, k: int)
    requires
        0 <= j <= k,
    ensures
        mp_cell(s, j) + (k - j) <= mp_cell(s, k) <= mp_cell(s, j) + 2 * (k - j),
    decreases k - j,
{
    if j < k {
        lemma_mp_cell_mono(s, j, k - 1);
    }
}

/// Cell indices are non-negative and at most twice the record index.
pub proof fn lemma_mp_cell_nonneg(s: Seq<Metapixel>, k: int)
    requires
        0 <= k,
    ensures
        0 <= mp_cell(s, k) <= 2 * k,
{
    lemma_mp_cell_mono(s, 0, k);
}

/// Two records never land in the same cell.
pub proof fn lemma_mp_pos_distinct(s: Seq<Metapixel>, j: int, k: int, h: int)
    requires
        0 <= j < k,
        h >= 1,
    ensures
        mp_col(s, j, h) != mp_col(s, k, h) || mp_row(s, j, h) != mp_row(s, k, h),
{
    lemma_mp_cell_mono(s, j, k);
    lemma_mp_cell_nonneg(s, j);
    vstd::arithmetic::div_mod::lemma_fundamental_div_mod(mp_cell(s, j), h);
    vstd::arithmetic::div_mod::lemma_fundamental_div_mod(mp_cell(s, k), h);
    vstd::arithmetic::div_mod::lemma_mod_bound(mp_cell(s, j), h);
    vstd::arithmetic::div_mod::lemma_mod_bound(mp_cell(s, k), h);
    if mp_col(s, j, h) == mp_col(s, k, h) && mp_row(s, j, h) == mp_row(s, k, h) {
        assert(mp_cell(s, j) == mp_cell(s, k));
    }
}

/// Counts the cells the stream will occupy.
fn total_cells(pixels: &[Metapixel]) -> (r: u128)
    ensures
        r == mp_total(pixels@),
{
    let ghost s = pixels@;
    let n = pixels.len();
    if n == 0 {
        return 0;
    }
    let mut cur: u128 = 0;
    let mut k: usize = 0;
    while k < n - 1
        invariant
            s == pixels@,
            n == s.len(),
            n >= 1,
            0 <= k <= n - 1,
            cur == mp_cell(s, k as int),
            cur <= 2 * k,
        decreases n - k,
    {
        proof {
            lemma_mp_cell_mono(s, k as int, k + 1);
        }
        let step: u128 = match MetapixelType::from_u8(pixels[k + 1].r) {
            Some(MetapixelType::AnimationType) => 2,
            _ => 1,
        };
        cur = cur + step;
        k = k + 1;
    }
    cur + 1
}

/// Writes the records into the metapixel area of the image, column-major
/// from the top of the art area's right edge, skipping one cell before
/// each `AnimationType` record (see `mp_cell` for why the blank sits
/// before the anchor). Every cell that holds no record is left as it was.
pub fn insert_metapixels(bitmap: &mut Image, pixels: &[Metapixel], hat_area_size: IVec2)
    requires
        old(bitmap).wf(),
        0 <= hat_area_size.x,
        old(bitmap).width <= i32::MAX,
        old(bitmap).height <= i32::MAX,
        pixels@.len() > 0 ==> old(bitmap).height >= 1,
        mp_total(pixels@) <= (old(bitmap).width - hat_area_size.x) * old(bitmap).height,
    ensures
        final(bitmap).wf(),
        final(bitmap).width == old(bitmap).width,
        final(bitmap).height == old(bitmap).height,
        forall|k: int|
            0 <= k < pixels@.len() ==> final(bitmap).pixel_at(
                hat_area_size.x + mp_col(pixels@, k, old(bitmap).height as int),
                #[trigger] mp_row(pixels@, k, old(bitmap).height as int),
            ) == (Pixel { r: pixels@[k].r, g: pixels@[k].g, b: pixels@[k].b, a: 255u8 }),
        forall|x: int, y: int|
            old(bitmap).in_bounds(x, y) && (forall|k: int|
                0 <= k < pixels@.len() ==> !(x == hat_area_size.x + mp_col(
                    pixels@,
                    k,
                    old(bitmap).height as int,
                ) && y == #[trigger] mp_row(pixels@, k, old(bitmap).height as int)))
                ==> #[trigger] final(bitmap).pixel_at(x, y) == old(bitmap).pixel_at(x, y),
{
    let ghost s = pixels@;
    let ghost init = *bitmap;
    let n = pixels.len();
    if n == 0 {
        return ;
    }
    let h = bitmap.height;
    let ghost hh = h as int;
    let mut cur: u128 = 0;
    let mut k: usize = 0;
    while k < n
        invariant
            s == pixels@,
            n == s.len(),
            n >= 1,
            0 <= k <= n,
            bitmap.wf(),
            bitmap.width == init.width,
            bitmap.height == init.height,
            init.wf(),
            h == init.height,
            hh == h as int,
            h >= 1,
            0 <= hat_area_size.x,
            init.width <= i32::MAX,
            init.height <= i32::MAX,
            mp_total(s) <= (init.width - hat_area_size.x) * hh,
            k < n ==> cur == mp_cell(s, k as int),
            cur <= 2 * k,
            forall|j: int|
                0 <= j < k ==> bitmap.pixel_at(
                    hat_area_size.x + mp_col(s, j, hh),
                    #[trigger] mp_row(s, j, hh),
                ) == (Pixel { r: s[j].r, g: s[j].g, b: s[j].b, a: 255u8 }),
            forall|x: int, y: int|
                init.in_bounds(x, y) && (forall|j: int|
                    0 <= j < k ==> !(x == hat_area_size.x + mp_col(s, j, hh) && y
                        == #[trigger] mp_row(s, j, hh))) ==> #[trigger] bitmap.pixel_at(x, y)
                    == init.pixel_at(x, y),
        decreases n - k,
    {
        proof {
            lemma_mp_cell_mono(s, k as int, n - 1);
            lemma_mp_cell_nonneg(s, k as int);
            assert(mp_cell(s, k as int) < mp_total(s));
            vstd::arithmetic::div_mod::lemma_fundamental_div_mod(mp_cell(s, k as int), hh);
            vstd::arithmetic::div_mod::lemma_mod_bound(mp_cell(s, k as int), hh);
            vstd::arithmetic::div_mod::lemma_div_pos_is_pos(mp_cell(s, k as int), hh);
            assert(mp_col(s, k as int, hh) < init.width - hat_area_size.x) by (nonlinear_arith)
                requires
                    mp_cell(s, k as int) == hh * mp_col(s, k as int, hh) + mp_row(s, k as int, hh),
                    0 <= mp_row(s, k as int, hh) < hh,
                    hh >= 1,
                    0 <= mp_cell(s, k as int),
                    mp_cell(s, k as int) < (init.width - hat_area_size.x) * hh,
            ;
            assert(0 <= mp_col(s, k as int, hh));
        }
        let col = (cur / (h as u128)) as u32;
        let row = (cur % (h as u128)) as u32;
        let p = pixels[k];
        let px = Pixel::from_rgb(p.r, p.g, p.b);
        let ghost before = *bitmap;
        bitmap.set_pixel(hat_area_size.x + col as i32, row as i32, px);
        proof {
            let cx = hat_area_size.x + mp_col(s, k as int, hh);
            let cy = mp_row(s, k as int, hh);
            assert(before.in_bounds(cx, cy));
            before.lemma_index_in_bounds(cx, cy);
            assert(bitmap.pixels@ == before.pixels@.update(cy * before.width + cx, px));
            assert forall|j: int|
                0 <= j < k + 1 implies bitmap.pixel_at(
                hat_area_size.x + mp_col(s, j, hh),
                #[trigger] mp_row(s, j, hh),
            ) == (Pixel { r: s[j].r, g: s[j].g, b: s[j].b, a: 255u8 }) by {
                if j < k {
                    lemma_mp_pos_distinct(s, j, k as int, hh);
                    lemma_mp_cell_mono(s, j, n - 1);
                    lemma_mp_cell_nonneg(s, j);
                    vstd::arithmetic::div_mod::lemma_fundamental_div_mod(mp_cell(s, j), hh);
                    vstd::arithmetic::div_mod::lemma_mod_bound(mp_cell(s, j), hh);
                    vstd::arithmetic::div_mod::lemma_div_pos_is_pos(mp_cell(s, j), hh);
                    assert(mp_col(s, j, hh) < init.width - hat_area_size.x) by (nonlinear_arith)
                        requires
                            mp_cell(s, j) == hh * mp_col(s, j, hh) + mp_row(s, j, hh),
                            0 <= mp_row(s, j, hh) < hh,
                            hh >= 1,
                            0 <= mp_cell(s, j),
                            mp_cell(s, j) < (init.width - hat_area_size.x) * hh,
                    ;
                    let jx = hat_area_size.x + mp_col(s, j, hh);
                    let jy = mp_row(s, j, hh);
                    assert(before.in_bounds(jx, jy));
                    before.lemma_index_in_bounds(jx, jy);
                    assert(jy * before.width + jx != cy * before.width + cx) by (nonlinear_arith)
                        requires
                            jx != cx || jy != cy,
                            0 <= jx < before.width,
                            0 <= cx < before.width,
                            0 <= jy,
                            0 <= cy,
                    ;
                }
            }
            assert forall|x: int, y: int|
                init.in_bounds(x, y) && (forall|j: int|
                    0 <= j < k + 1 ==> !(x == hat_area_size.x + mp_col(s, j, hh) && y
                        == #[trigger] mp_row(s, j, hh))) implies #[trigger] bitmap.pixel_at(x, y)
                == init.pixel_at(x, y) by {
                assert(!(x == cx && y == cy));
                init.lemma_index_in_bounds(x, y);
                before.lemma_index_in_bounds(x, y);
                let bv = before.pixel_at(x, y);
                assert(y * before.width + x != cy * before.width + cx) by (nonlinear_arith)
                    requires
                        x != cx || y != cy,
                        0 <= x < before.width,
                        0 <= cx < before.width,
                        0 <= y,
                        0 <= cy,
                ;
            }
        }
        if k + 1 < n {
            proof {
                lemma_mp_cell_mono(s, k as int, k + 1);
            }
            let step: u128 = match MetapixelType::from_u8(pixels[k + 1].r) {
                Some(MetapixelType::AnimationType) => 2,
                _ => 1,
            };
            cur = cur + step;
        }
        k = k + 1;
    }
}


/// How many metapixel columns a stream of the given cell count needs.
pub open spec fn spec_cols(s: Seq<Metapixel>, h: int) -> int {
    if s.len() == 0 {
        0
    } else {
        (mp_total(s) + h - 1) / h
    }
}

/// Rounding the cell count up to whole columns covers it, and never needs
/// more than one column per two records.
proof fn lemma_cols_bounds(s: Seq<Metapixel>, h: int)
    requires
        h >= 1,
        s.len() > 0,
    ensures
        mp_total(s) <= spec_cols(s, h) * h,
        0 <= spec_cols(s, h) <= mp_total(s),
        mp_total(s) <= 2 * s.len(),
{
    let t = mp_total(s);
    lemma_mp_cell_nonneg(s, s.len() - 1);
    let q = (t + h - 1) / h;
    vstd::arithmetic::div_mod::lemma_fundamental_div_mod(t + h - 1, h);
    vstd::arithmetic::div_mod::lemma_mod_bound(t + h - 1, h);
    vstd::arithmetic::div_mod::lemma_div_pos_is_pos(t + h - 1, h);
    assert(t <= q * h && q <= t) by (nonlinear_arith)
        requires
            t + h - 1 == h * q + ((t + h - 1) % h),
            0 <= (t + h - 1) % h < h,
            h >= 1,
            t >= 1,
            q >= 0,
    ;
}

/// An element save that cannot proceed: the element carries no source
/// bitmap, or its bitmap is too degenerate to hold the metapixel records.
#[derive(Debug, Clone, Copy, PartialEq, Eq, Structural)]
pub enum SaveError {
    NoBitmap,
}

impl SaveError {
    /// A plain description of the failure.
    pub fn message(&self) -> &'static str {
        "unable to save hat element: no usable bitmap"
    }
}

/// The file name an element is saved under: its name (or the stem of its
/// kind), the art area size, and the `.png` extension.
pub open spec fn spec_file_name(e: Element) -> Seq<char> {
    let stem = match e.spec_base().name {
        Some(n) => n@,
        None => save_name_spec(e.spec_kind()),
    };
    stem + seq!['_'] + crate::strings::dec_seq(e.spec_base().hat_area_size.x as int) + seq!['_']
        + crate::strings::dec_seq(e.spec_base().hat_area_size.y as int) + seq!['.', 'p', 'n', 'g']
}

/// The element can be saved: it carries a bitmap, and the bitmap has rows
/// to hold the records (or there are none).
pub open spec fn spec_savable(e: Element) -> bool {
    match e.spec_base().bitmap {
        Some(b) => e.spec_pixels().len() == 0 || b.height >= 1,
        None => false,
    }
}

/// The machine limits under which an element save is in range: the art
/// area is non-negative and the composed image fits the address space.
pub open spec fn spec_save_limits(e: Element) -> bool {
    &&& e.spec_base().hat_area_size.x >= 0
    &&& e.spec_base().hat_area_size.y >= 0
    &&& match e.spec_base().bitmap {
        Some(b) => b.wf() && b.width <= i32::MAX && b.height <= i32::MAX && (
        e.spec_base().hat_area_size.x + 2 * e.spec_pixels().len()) * b.height <= usize::MAX && e.spec_base().hat_area_size.x
            + 2 * e.spec_pixels().len() <= i32::MAX,
        None => true,
    }
}

/// What a saved element looks like: the art columns show the source
/// bitmap, each record sits in its cell right of the art area, and every
/// other cell of the metapixel area is blank.
pub open spec fn spec_saved(e: Element, name: Seq<char>, img: Image) -> bool {
    match e.spec_base().bitmap {
        Some(b) => {
            let h = b.height as int;
            let ax = e.spec_base().hat_area_size.x as int;
            let s = e.spec_pixels();
            &&& name == spec_file_name(e)
            &&& img.wf()
            &&& img.height == b.height
            &&& img.width as int == ax + spec_cols(s, h)
            &&& forall|x: int, y: int|
                img.in_bounds(x, y) && x < ax ==> #[trigger] img.pixel_at(x, y) == (if b.in_bounds(
                    x,
                    y,
                ) {
                    b.pixel_at(x, y)
                } else {
                    empty_pixel()
                })
            &&& forall|k: int|
                0 <= k < s.len() ==> img.pixel_at(
                    ax + mp_col(s, k, h),
                    #[trigger] mp_row(s, k, h),
                ) == (Pixel { r: s[k].r, g: s[k].g, b: s[k].b, a: 255u8 })
            &&& forall|x: int, y: int|
                img.in_bounds(x, y) && x >= ax && (forall|k: int|
                    0 <= k < s.len() ==> !(x == ax + mp_col(s, k, h) && y == #[trigger] mp_row(
                        s,
                        k,
                        h,
                    ))) ==> #[trigger] img.pixel_at(x, y) == empty_pixel()
        },
        None => false,
    }
}

impl Element {
    /// The file name this element is saved under.
    fn file_name(&self) -> (r: String)
        requires
            self.spec_base().hat_area_size.x >= 0,
            self.spec_base().hat_area_size.y >= 0,
        ensures
            r@ == spec_file_name(*self),
    {
        proof {
            reveal_strlit("_");
            reveal_strlit(".png");
        }
        let base = self.base();
        let mut fname: String = match &base.name {
            Some(n) => n.clone(),
            None => self.hat_type().save_name().to_owned(),
        };
        fname.append("_");
        let xs = crate::strings::u32_to_string(base.hat_area_size.x as u32);
        fname.append(xs.as_str());
        fname.append("_");
        let ys = crate::strings::u32_to_string(base.hat_area_size.y as u32);
        fname.append(ys.as_str());
        fname.append(".png");
        proof {
            assert("_"@ =~= seq!['_']);
            assert(".png"@ =~= seq!['.', 'p', 'n', 'g']);
            assert(fname@ =~= spec_file_name(*self));
        }
        fname
    }

    /// Composes the image under which this element is saved: the art area
    /// copied from the source bitmap, then the metapixel records in fresh
    /// columns on the right. Fails when no usable bitmap is present.
    pub fn save_image(&self) -> (r: Result<(String, Image), SaveError>)
        requires
            self.wf(),
            spec_save_limits(*self),
        ensures
            r is Ok <==> spec_savable(*self),
            match r {
                Ok(out) => spec_saved(*self, out.0@, out.1),
                Err(e) => e == SaveError::NoBitmap,
            },
    {
        let ghost s = self.spec_pixels();
        let base = self.base();
        let has_bitmap = match &base.bitmap {
            Some(_) => true,
            None => false,
        };
        if !has_bitmap {
            return Err(SaveError::NoBitmap);
        }
        let metapixels = self.gen_metapixels();
        let ax32: u32 = base.hat_area_size.x as u32;
        let bw: u32;
        let h: u32;
        match &base.bitmap {
            Some(b) => {
                bw = b.width;
                h = b.height;
            },
            None => {
                return Err(SaveError::NoBitmap);
            },
        }
        if metapixels.len() > 0 && h == 0 {
            return Err(SaveError::NoBitmap);
        }
        let total = total_cells(metapixels.as_slice());
        let ghost hh = h as int;
        let cols: u32 = if metapixels.len() == 0 {
            0
        } else {
            proof {
                lemma_cols_bounds(s, hh);
            }
            ((total + (h as u128) - 1) / (h as u128)) as u32
        };
        proof {
            if s.len() > 0 {
                lemma_cols_bounds(s, hh);
            }
            assert((ax32 + cols) * h <= usize::MAX) by (nonlinear_arith)
                requires
                    cols <= 2 * s.len(),
                    ax32 == self.spec_base().hat_area_size.x,
                    (self.spec_base().hat_area_size.x + 2 * s.len()) * h <= usize::MAX,
                    0 <= ax32,
                    0 <= h,
            ;
        }
        let width: u32 = ax32 + cols;
        let mut img = Image::with_size(width, h);
        let ghost img0 = img;
        match &base.bitmap {
            Some(b) => {
                img.draw_from(b);
            },
            None => {},
        }
        let ghost img1 = img;
        img.clear_from_column(ax32);
        let ghost img2 = img;
        insert_metapixels(&mut img, metapixels.as_slice(), base.hat_area_size);
        let fname = self.file_name();
        proof {
            let b = self.spec_base().bitmap.unwrap();
            let ax = self.spec_base().hat_area_size.x as int;
            assert forall|x: int, y: int| img.in_bounds(x, y) && x < ax implies #[trigger] img
                .pixel_at(x, y) == (if b.in_bounds(x, y) {
                b.pixel_at(x, y)
            } else {
                empty_pixel()
            }) by {
                assert forall|k: int| 0 <= k < s.len() implies !(x == ax + mp_col(s, k, hh) && y
                    == #[trigger] mp_row(s, k, hh)) by {
                    lemma_mp_cell_nonneg(s, k);
                    vstd::arithmetic::div_mod::lemma_div_pos_is_pos(mp_cell(s, k), hh);
                }
                assert(img.pixel_at(x, y) == img2.pixel_at(x, y));
                assert(img2.pixel_at(x, y) == img1.pixel_at(x, y));
                if !b.in_bounds(x, y) {
                    img0.lemma_index_in_bounds(x, y);
                    assert(img1.pixel_at(x, y) == img0.pixel_at(x, y));
                    assert(img0.pixel_at(x, y) == empty_pixel());
                }
            }
            assert forall|x: int, y: int|
                img.in_bounds(x, y) && x >= ax && (forall|k: int|
                    0 <= k < s.len() ==> !(x == ax + mp_col(s, k, hh) && y == #[trigger] mp_row(
                        s,
                        k,
                        hh,
                    ))) implies #[trigger] img.pixel_at(x, y) == empty_pixel() by {
                assert(img.pixel_at(x, y) == img2.pixel_at(x, y));
            }
        }
        Ok((fname, img))
    }
}

impl Hat {
    /// Composes the file name and image of every element of the bundle,
    /// unique elements first, then pets in order. Fails when any element
    /// carries no usable bitmap.
    pub fn save_images(&self) -> (r: Result<Vec<(String, Image)>, SaveError>)
        requires
            self.wf(),
            forall|i: int|
                0 <= i < self.all_elements().len() ==> spec_save_limits(
                    #[trigger] self.all_elements()[i],
                ),
        ensures
            match r {
                Ok(v) => v@.len() == self.all_elements().len() && forall|i: int|
                    0 <= i < v@.len() ==> spec_saved(
                        #[trigger] self.all_elements()[i],
                        v@[i].0@,
                        v@[i].1,
                    ),
                Err(e) => e == SaveError::NoBitmap && exists|i: int|
                    0 <= i < self.all_elements().len() && !spec_savable(
                        #[trigger] self.all_elements()[i],
                    ),
            },
    {
        let ghost all = self.all_elements();
        let mut out: Vec<(String, Image)> = Vec::new();
        let un = self.unique_elements.len();
        let mut i: usize = 0;
        while i < un
            invariant
                self.wf(),
                forall|j: int|
                    0 <= j < self.all_elements().len() ==> spec_save_limits(
                        #[trigger] self.all_elements()[j],
                    ),
                all == self.all_elements(),
                un == self.unique_elements@.len(),
                0 <= i <= un,
                out@.len() == i,
                forall|j: int|
                    0 <= j < i ==> spec_saved(#[trigger] all[j], out@[j].0@, out@[j].1),
            decreases un - i,
        {
            proof {
                assert(all[i as int] == self.unique_elements@[i as int]);
            }
            match self.unique_elements[i].save_image() {
                Ok(pair) => out.push(pair),
                Err(e) => {
                    return Err(e);
                },
            }
            i = i + 1;
        }
        let pn = self.pets.len();
        let mut p: usize = 0;
        while p < pn
            invariant
                self.wf(),
                forall|j: int|
                    0 <= j < self.all_elements().len() ==> spec_save_limits(
                        #[trigger] self.all_elements()[j],
                    ),
                all == self.all_elements(),
                un == self.unique_elements@.len(),
                pn == self.pets@.len(),
                0 <= p <= pn,
                out@.len() == un + p,
                forall|j: int|
                    0 <= j < un + p ==> spec_saved(#[trigger] all[j], out@[j].0@, out@[j].1),
            decreases pn - p,
        {
            proof {
                assert(all[un + p] == self.pets@[p as int]);
            }
            match self.pets[p].save_image() {
                Ok(pair) => out.push(pair),
                Err(e) => {
                    return Err(e);
                },
            }
            p = p + 1;
        }
        Ok(out)
    }
}


/// The element kind a lower-cased file name stands for: the fixed names of
/// the unique kinds, a name containing a pet marker for the pets, and
/// `Unspecified` for files the loader ignores.
pub open spec fn spec_classify(lname: Seq<char>) -> HatType {
    if lname == "room"@ {
        HatType::Room
    } else if lname == "extrahat"@ {
        HatType::Extra
    } else if lname == "wings"@ {
        HatType::Wings
    } else if crate::strings::spec_contains(lname, "flyingpet"@) {
        HatType::FlyingPet
    } else if crate::strings::spec_contains(lname, "walkingpet"@) {
        HatType::WalkingPet
    } else if lname == "preview"@ {
        HatType::Preview
    } else if lname == "hat"@ {
        HatType::Wereable
    } else {
        HatType::Unspecified
    }
}

/// The art area size a parsed stem gives for an image: the suffix size, or
/// the whole image without one.
pub open spec fn spec_area_size(stem: Seq<char>, bitmap: Image) -> IVec2 {
    match crate::hat_utils::spec_name_and_size(stem).1 {
        Some(p) => IVec2 { x: p.0 as i32, y: p.1 as i32 },
        None => IVec2 { x: bitmap.width as i32, y: bitmap.height as i32 },
    }
}

/// The element name a parsed stem gives: the name segment when it is not
/// empty.
pub open spec fn spec_element_name(stem: Seq<char>) -> Option<Seq<char>> {
    let nm = crate::hat_utils::spec_name_and_size(stem).0;
    if nm.len() > 0 {
        Some(nm)
    } else {
        None
    }
}

/// The metapixel records of an image split at the given art area.
pub open spec fn spec_records(bitmap: Image, area: IVec2) -> Seq<Metapixel> {
    crate::hat_utils::decode_pixels(crate::hat_utils::region_pixels(bitmap, area.x as int))
}

/// Loads one element from the stem of its file name and its decoded image:
/// the stem's name classifies the element and gives the art area, the
/// columns right of the art area give the metapixel records, and the
/// texture is the whole image. Files whose name matches no kind yield
/// nothing.
pub fn load_element(stem: &str, bitmap: Image, ids: &mut IdSource) -> (r: Option<Element>)
    requires
        bitmap.wf(),
        1 <= bitmap.width <= i32::MAX,
        1 <= bitmap.height <= i32::MAX,
        bitmap.width * bitmap.height <= i32::MAX,
    ensures
        old(ids).next <= final(ids).next,
        r is Some && final(ids).next < u32::MAX ==> old(ids).next < final(ids).next,
        ({
            let parsed_name = crate::hat_utils::spec_name_and_size(stem@).0;
            let kind = spec_classify(crate::strings::lower_seq(parsed_name));
            let area = spec_area_size(stem@, bitmap);
            let mps = spec_records(bitmap, area);
            let ename = spec_element_name(stem@);
            match r {
                Some(e) => {
                    &&& kind != HatType::Unspecified
                    &&& e.wf()
                    &&& e.spec_kind() == kind
                    &&& e.spec_base().bitmap == Some(bitmap)
                    &&& e.spec_base().texture_size == Some(
                        IVec2 { x: bitmap.width as i32, y: bitmap.height as i32 },
                    )
                    &&& match e.spec_base().name {
                        Some(n) => ename == Some(n@),
                        None => ename is None,
                    }
                    &&& e.spec_base().id == (HatElementId(old(ids).next))
                    &&& match e {
                        Element::Wereable(w) => {
                            &&& w.matches_core(wereable_fold(mps, mps.len() as int))
                            &&& anim_views(w.animations@) == anims_of(mps)
                            &&& w.base.hat_area_size == area
                        },
                        Element::Wings(w) => {
                            &&& w.matches_core(wings_fold(mps, mps.len() as int))
                            &&& w.base.hat_area_size == area
                        },
                        Element::Extra(w) => {
                            &&& (w.base.frame_size.x as int, w.base.frame_size.y as int)
                                == extra_fold(
                                mps,
                                mps.len() as int,
                                Extra::spec_init_frame(w.base.texture_size).0,
                                Extra::spec_init_frame(w.base.texture_size).1,
                            )
                            &&& w.base.hat_area_size == area
                        },
                        Element::FlyingPet(w) => {
                            &&& w.matches_core(flying_pet_fold(mps, mps.len() as int))
                            &&& anim_views(w.pet_base.animations@) == anims_of(mps)
                            &&& w.hat_base.hat_area_size == area
                        },
                        Element::WalkingPet(w) => {
                            &&& w.matches_core(walking_pet_fold(mps, mps.len() as int))
                            &&& anim_views(w.pet_base.animations@) == anims_of(mps)
                            &&& w.hat_base.hat_area_size == area
                        },
                        Element::Room(w) => w.base.hat_area_size == area && w.base.frame_size
                            == area,
                        Element::Preview(w) => w.base.hat_area_size == (IVec2 {
                            x: bitmap.width as i32,
                            y: bitmap.height as i32,
                        }),
                    }
                },
                None => kind == HatType::Unspecified,
            }
        }),
{
    let name_and_size = crate::hat_utils::get_name_and_size(stem);
    let texture_size = IVec2::new(bitmap.width as i32, bitmap.height as i32);
    let (metapixels, area) = crate::hat_utils::get_metapixels_and_size(&bitmap, &name_and_size);
    let element_name: Option<String> = if name_and_size.name.as_str().unicode_len() > 0 {
        Some(name_and_size.name.clone())
    } else {
        None
    };
    let data = HatLoadData {
        name: element_name,
        hat_area_size: area,
        bitmap,
        texture_size: Some(texture_size),
    };
    let lname: &str = name_and_size.name.as_str();
    if crate::strings::eq_lower(lname, "room") {
        proof {
            reveal_strlit("room");
        }
        Some(Element::Room(RoomHat::load_from_data(data, ids)))
    } else if crate::strings::eq_lower(lname, "extrahat") {
        proof {
            reveal_strlit("extrahat");
        }
        Some(Element::Extra(Extra::load_from_data(data, metapixels.as_slice(), ids)))
    } else if crate::strings::eq_lower(lname, "wings") {
        proof {
            reveal_strlit("wings");
        }
        Some(Element::Wings(Wings::load_from_data(data, metapixels.as_slice(), ids)))
    } else if crate::strings::contains_lower(lname, "flyingpet") {
        proof {
            reveal_strlit("flyingpet");
        }
        Some(Element::FlyingPet(FlyingPet::load_from_data(data, metapixels.as_slice(), ids)))
    } else if crate::strings::contains_lower(lname, "walkingpet") {
        proof {
            reveal_strlit("walkingpet");
        }
        Some(Element::WalkingPet(WalkingPet::load_from_data(data, metapixels.as_slice(), ids)))
    } else if crate::strings::eq_lower(lname, "preview") {
        proof {
            reveal_strlit("preview");
        }
        Some(Element::Preview(Preview::load_from_data(data, ids)))
    } else if crate::strings::eq_lower(lname, "hat") {
        proof {
            reveal_strlit("hat");
        }
        Some(Element::Wereable(Wereable::load_from_data(data, metapixels.as_slice(), ids)))
    } else {
        None
    }
}


/// The element kind a file classifies as, from its stem.
pub open spec fn spec_file_kind(f: (String, Image)) -> HatType {
    spec_classify(crate::strings::lower_seq(crate::hat_utils::spec_name_and_size(f.0@).0))
}

/// The files that classify as pets, in directory order.
pub open spec fn spec_pet_files(files: Seq<(String, Image)>) -> Seq<(String, Image)>
    decreases files.len(),
{
    if files.len() == 0 {
        Seq::empty()
    } else {
        let rest = spec_pet_files(files.drop_last());
        if spec_file_kind(files.last()).is_pet() {
            rest.push(files.last())
        } else {
            rest
        }
    }
}

/// The position of the last file of the given kind, or `-1` when the
/// kind appears in no file.
pub open spec fn spec_last_of_kind(files: Seq<(String, Image)>, kind: HatType) -> int
    decreases files.len(),
{
    if files.len() == 0 {
        -1
    } else if spec_file_kind(files.last()) == kind {
        files.len() - 1
    } else {
        spec_last_of_kind(files.drop_last(), kind)
    }
}

/// The last file of a kind is in range and carries that kind.
pub proof fn lemma_last_of_kind_bounds(files: Seq<(String, Image)>, kind: HatType)
    ensures
        -1 <= spec_last_of_kind(files, kind) < files.len(),
        spec_last_of_kind(files, kind) >= 0 ==> spec_file_kind(
            files[spec_last_of_kind(files, kind)],
        ) == kind,
    decreases files.len(),
{
    if files.len() > 0 && spec_file_kind(files.last()) != kind {
        lemma_last_of_kind_bounds(files.drop_last(), kind);
    }
}

/// The element was loaded from this file: it carries the file's kind, the
/// file's image as its bitmap, the stem's name, and the art area the stem
/// gives (the whole image for a preview).
pub open spec fn spec_loaded_from(e: Element, f: (String, Image)) -> bool {
    &&& e.spec_kind() == spec_file_kind(f)
    &&& e.spec_base().bitmap == Some(f.1)
    &&& match e.spec_base().name {
        Some(n) => spec_element_name(f.0@) == Some(n@),
        None => spec_element_name(f.0@) is None,
    }
    &&& e.spec_base().hat_area_size == (if e.spec_kind() == HatType::Preview {
        IVec2 { x: f.1.width as i32, y: f.1.height as i32 }
    } else {
        spec_area_size(f.0@, f.1)
    })
}

impl Hat {
    /// Builds a bundle out of a directory's files, given as pairs of a
    /// file-name stem and the decoded image. Files that classify as no
    /// element kind are skipped. Pet files append to the pet list in
    /// directory order while fewer than five are held: the first five win.
    /// Of several files of one unique kind, the last wins. The precise
    /// clauses hold whenever the id counter has not saturated — it holds
    /// four billion ids, and it never saturates over fewer draws.
    pub fn load_from_files(path: String, files: Vec<(String, Image)>, ids: &mut IdSource) -> (h:
        Hat)
        requires
            forall|i: int|
                0 <= i < files@.len() ==> ((#[trigger] files@[i].1).wf() && 1 <= files@[i].1.width
                    <= i32::MAX && 1 <= files@[i].1.height <= i32::MAX && files@[i].1.width
                    * files@[i].1.height <= i32::MAX),
        ensures
            h.wf(),
            h.path == Some(path),
            old(ids).next <= final(ids).next,
            final(ids).next < u32::MAX ==> h.pets@.len() == vstd::math::min(
                MAX_PETS as int,
                spec_pet_files(files@).len() as int,
            ),
            final(ids).next < u32::MAX ==> forall|j: int|
                0 <= j < h.pets@.len() ==> spec_loaded_from(
                    #[trigger] h.pets@[j],
                    spec_pet_files(files@)[j],
                ),
            final(ids).next < u32::MAX ==> forall|kind: HatType|
                !kind.is_pet() && kind != HatType::Unspecified ==> ((#[trigger] h.spec_has_kind(
                    kind,
                )) == (spec_last_of_kind(files@, kind) >= 0)),
            final(ids).next < u32::MAX ==> forall|i: int|
                0 <= i < h.unique_elements@.len() ==> (spec_last_of_kind(
                    files@,
                    (#[trigger] h.unique_elements@[i]).spec_kind(),
                ) >= 0 && spec_loaded_from(
                    h.unique_elements@[i],
                    files@[spec_last_of_kind(files@, h.unique_elements@[i].spec_kind())],
                )),
    {
        let mut hat = Hat::new(path);
        let ghost target_path = hat.path;
        let ghost all = files@;
        let ghost mut p: int = 0;
        let mut files = files;
        while files.len() > 0
            invariant
                old(ids).next <= ids.next,
                hat.wf(),
                hat.path == target_path,
                0 <= p <= all.len(),
                files@ == all.skip(p),
                forall|j: int|
                    0 <= j < all.len() ==> ((#[trigger] all[j].1).wf() && 1 <= all[j].1.width
                        <= i32::MAX && 1 <= all[j].1.height <= i32::MAX && all[j].1.width
                        * all[j].1.height <= i32::MAX),
                ids.next < u32::MAX ==> forall|i: int|
                    0 <= i < hat.all_ids().len() ==> (#[trigger] hat.all_ids()[i]).0 < ids.next,
                ids.next < u32::MAX ==> hat.pets@.len() == vstd::math::min(
                    MAX_PETS as int,
                    spec_pet_files(all.take(p)).len() as int,
                ),
                ids.next < u32::MAX ==> forall|j: int|
                    0 <= j < hat.pets@.len() ==> spec_loaded_from(
                        #[trigger] hat.pets@[j],
                        spec_pet_files(all.take(p))[j],
                    ),
                ids.next < u32::MAX ==> forall|kind: HatType|
                    !kind.is_pet() && kind != HatType::Unspecified ==> ((
                    #[trigger] hat.spec_has_kind(kind)) == (spec_last_of_kind(all.take(p), kind)
                        >= 0)),
                ids.next < u32::MAX ==> forall|i: int|
                    0 <= i < hat.unique_elements@.len() ==> (spec_last_of_kind(
                        all.take(p),
                        (#[trigger] hat.unique_elements@[i]).spec_kind(),
                    ) >= 0 && spec_loaded_from(
                        hat.unique_elements@[i],
                        all.take(p)[spec_last_of_kind(
                            all.take(p),
                            hat.unique_elements@[i].spec_kind(),
                        )],
                    )),
            decreases files@.len(),
        {
            let ghost pre_files = files@;
            let ghost hat0 = hat;
            let ghost n0 = ids.next;
            let (stem, bitmap) = files.remove(0);
            let ghost f = all[p];
            proof {
                assert(pre_files[0] == f);
                assert(files@ =~= all.skip(p + 1));
                assert(all.take(p + 1).drop_last() =~= all.take(p));
                assert(all.take(p + 1).last() == f);
            }
            let ghost tp = all.take(p);
            let ghost tp1 = all.take(p + 1);
            match load_element(stem.as_str(), bitmap, ids) {
                Some(element) => {
                    let ghost ev = element;
                    let ghost k = ev.spec_kind();
                    proof {
                        assert(k == spec_file_kind(f));
                        assert(spec_loaded_from(ev, f)) by {
                            match ev {
                                Element::Wereable(_) => {},
                                Element::Wings(_) => {},
                                Element::Extra(_) => {},
                                Element::FlyingPet(_) => {},
                                Element::WalkingPet(_) => {},
                                Element::Room(_) => {},
                                Element::Preview(_) => {},
                            }
                        }
                    }
                    let id = element.id();
                    let fresh = match hat.element_from_id(id) {
                        Some(_) => false,
                        None => true,
                    };
                    proof {
                        if ids.next < u32::MAX {
                            // The counter has not saturated, so the new id is
                            // strictly above every id already in the bundle.
                            assert(n0 < ids.next);
                            assert(!hat.spec_has_id(HatElementId(n0)));
                        }
                    }
                    if fresh {
                        hat.add_element(element);
                    }
                    proof {
                        if ids.next < u32::MAX {
                            assert(fresh);
                            assert(n0 < ids.next);
                            assert forall|i: int|
                                0 <= i < hat.all_ids().len() implies (
                            #[trigger] hat.all_ids()[i]).0 < ids.next by {
                                let x = hat.all_ids()[i];
                                assert(hat.spec_has_id(x));
                                if hat0.spec_has_id(x) {
                                    let w = choose|w: int|
                                        0 <= w < hat0.all_ids().len() && #[trigger] hat0.all_ids()[w]
                                            == x;
                                    assert(hat0.all_ids()[w].0 < n0);
                                } else {
                                    assert(x == ev.spec_id());
                                }
                            }
                            lemma_load_step_some(hat0, hat, ev, f, tp, tp1);
                        }
                        p = p + 1;
                    }
                },
                None => {
                    proof {
                        if ids.next < u32::MAX {
                            lemma_load_step_none(hat, f, tp, tp1);
                        }
                        p = p + 1;
                    }
                },
            }
        }
        proof {
            assert(all.take(all.len() as int) =~= all);
        }
        hat
    }
}


impl Hat {
    /// A mutable borrow of the element carrying `id`, if any. The borrow
    /// may change the element in place; the rest of the bundle is kept.
    /// Changing the element's kind or id through the borrow can break the
    /// bundle invariant, as it could in the editor.
    pub fn element_from_id_mut(&mut self, id: HatElementId) -> (r: Option<&mut Element>)
        ensures
            match r {
                Some(e) => (*e).spec_id() == id && final(self).path == old(self).path && ((exists|i: int|
                    0 <= i < old(self).unique_elements@.len() && #[trigger] old(self).unique_elements@[i] == *e && final(self).unique_elements@ == old(self).unique_elements@.update(i, *final(e)) && final(self).pets@ == old(self).pets@) || (exists|i: int|
                    0 <= i < old(self).pets@.len() && #[trigger] old(self).pets@[i] == *e && final(self).pets@ == old(self).pets@.update(i, *final(e)) && final(self).unique_elements@
                        == old(self).unique_elements@)),
                None => !old(self).spec_has_id(id) && *final(self) == *old(self),
            },
    {
        let un = self.unique_elements.len();
        let mut i: usize = 0;
        while i < un
            invariant
                un == self.unique_elements@.len(),
                0 <= i <= un,
                *self == *old(self),
                forall|j: int|
                    0 <= j < i ==> (#[trigger] self.unique_elements@[j]).spec_id() != id,
            decreases un - i,
        {
            if self.unique_elements[i].id() == id {
                return Some(&mut self.unique_elements[i]);
            }
            i = i + 1;
        }
        let pn = self.pets.len();
        let mut p: usize = 0;
        while p < pn
            invariant
                un == self.unique_elements@.len(),
                pn == self.pets@.len(),
                0 <= p <= pn,
                *self == *old(self),
                forall|j: int|
                    0 <= j < un ==> (#[trigger] self.unique_elements@[j]).spec_id() != id,
                forall|j: int| 0 <= j < p ==> (#[trigger] self.pets@[j]).spec_id() != id,
            decreases pn - p,
        {
            if self.pets[p].id() == id {
                return Some(&mut self.pets[p]);
            }
            p = p + 1;
        }
        proof {
            assert forall|j: int|
                0 <= j < self.all_ids().len() implies (#[trigger] self.all_ids()[j]) != id by {
                assert(self.all_ids()[j] == self.all_elements()[j].spec_id());
                if j < un {
                    assert(self.all_elements()[j] == self.unique_elements@[j]);
                } else {
                    assert(self.all_elements()[j] == self.pets@[j - un]);
                }
            }
        }
        None
    }
}


impl Hat {
    /// A mutable borrow of the unique Wearable element, if the bundle
    /// holds one. Only that element changes through the borrow.
    pub fn wereable_mut(&mut self) -> (r: Option<&mut Wereable>)
        requires
            old(self).wf(),
        ensures
            match r {
                Some(w) => (exists|i: int|
                    0 <= i < old(self).unique_elements@.len() && #[trigger] old(
                        self,
                    ).unique_elements@[i] == Element::Wereable(*w) && final(self).unique_elements@
                        == old(self).unique_elements@.update(i, Element::Wereable(*final(w))))
                    && final(self).pets@ == old(self).pets@ && final(self).path == old(self).path,
                None => !old(self).spec_has_kind(HatType::Wereable) && *final(self) == *old(self),
            },
    {
        let un = self.unique_elements.len();
        let mut found: Option<usize> = None;
        let mut i: usize = 0;
        while i < un
            invariant
                un == self.unique_elements@.len(),
                0 <= i <= un,
                *self == *old(self),
                old(self).wf(),
                match found {
                    Some(k) => k < un && self.unique_elements@[k as int].spec_kind()
                        == HatType::Wereable,
                    None => forall|j: int|
                        0 <= j < i ==> (#[trigger] self.unique_elements@[j]).spec_kind()
                            != HatType::Wereable,
                },
            decreases un - i,
        {
            let hit = match found {
                Some(_) => false,
                None => self.unique_elements[i].hat_type() == HatType::Wereable,
            };
            if hit {
                found = Some(i);
            }
            i = i + 1;
        }
        match found {
            Some(k) => {
                match &mut self.unique_elements[k] {
                    Element::Wereable(w) => Some(w),
                    _ => {
                        proof {
                            assert(false);
                        }
                        None
                    },
                }
            },
            None => None,
        }
    }
}


impl Hat {
    /// A mutable borrow of the unique Wings element, if the bundle
    /// holds one. Only that element changes through the borrow.
    pub fn wings_mut(&mut self) -> (r: Option<&mut Wings>)
        requires
            old(self).wf(),
        ensures
            match r {
                Some(w) => (exists|i: int|
                    0 <= i < old(self).unique_elements@.len() && #[trigger] old(self).unique_elements@[i] == Element::Wings(*w) && final(self).unique_elements@
                        == old(self).unique_elements@.update(i, Element::Wings(*final(w))))
                    && final(self).pets@ == old(self).pets@ && final(self).path == old(self).path,
                None => !old(self).spec_has_kind(HatType::Wings) && *final(self) == *old(self),
            },
    {
        let un = self.unique_elements.len();
        let mut found: Option<usize> = None;
        let mut i: usize = 0;
        while i < un
            invariant
                un == self.unique_elements@.len(),
                0 <= i <= un,
                *self == *old(self),
                old(self).wf(),
                match found {
                    Some(k) => k < un && self.unique_elements@[k as int].spec_kind()
                        == HatType::Wings,
                    None => forall|j: int|
                        0 <= j < i ==> (#[trigger] self.unique_elements@[j]).spec_kind()
                            != HatType::Wings,
                },
            decreases un - i,
        {
            let hit = match found {
                Some(_) => false,
                None => self.unique_elements[i].hat_type() == HatType::Wings,
            };
            if hit {
                found = Some(i);
            }
            i = i + 1;
        }
        match found {
            Some(k) => {
                match &mut self.unique_elements[k] {
                    Element::Wings(w) => Some(w),
                    _ => {
                        proof {
                            assert(false);
                        }
                        None
                    },
                }
            },
            None => None,
        }
    }
}

impl Hat {
    /// A mutable borrow of the unique Extra element, if the bundle
    /// holds one. Only that element changes through the borrow.
    pub fn extra_mut(&mut self) -> (r: Option<&mut Extra>)
        requires
            old(self).wf(),
        ensures
            match r {
                Some(w) => (exists|i: int|
                    0 <= i < old(self).unique_elements@.len() && #[trigger] old(self).unique_elements@[i] == Element::Extra(*w) && final(self).unique_elements@
                        == old(self).unique_elements@.update(i, Element::Extra(*final(w))))
                    && final(self).pets@ == old(self).pets@ && final(self).path == old(self).path,
                None => !old(self).spec_has_kind(HatType::Extra) && *final(self) == *old(self),
            },
    {
        let un = self.unique_elements.len();
        let mut found: Option<usize> = None;
        let mut i: usize = 0;
        while i < un
            invariant
                un == self.unique_elements@.len(),
                0 <= i <= un,
                *self == *old(self),
                old(self).wf(),
                match found {
                    Some(k) => k < un && self.unique_elements@[k as int].spec_kind()
                        == HatType::Extra,
                    None => forall|j: int|
                        0 <= j < i ==> (#[trigger] self.unique_elements@[j]).spec_kind()
                            != HatType::Extra,
                },
            decreases un - i,
        {
            let hit = match found {
                Some(_) => false,
                None => self.unique_elements[i].hat_type() == HatType::Extra,
            };
            if hit {
                found = Some(i);
            }
            i = i + 1;
        }
        match found {
            Some(k) => {
                match &mut self.unique_elements[k] {
                    Element::Extra(w) => Some(w),
                    _ => {
                        proof {
                            assert(false);
                        }
                        None
                    },
                }
            },
            None => None,
        }
    }
}

impl Hat {
    /// A mutable borrow of the unique Room element, if the bundle
    /// holds one. Only that element changes through the borrow.
    pub fn room_mut(&mut self) -> (r: Option<&mut RoomHat>)
        requires
            old(self).wf(),
        ensures
            match r {
                Some(w) => (exists|i: int|
                    0 <= i < old(self).unique_elements@.len() && #[trigger] old(self).unique_elements@[i] == Element::Room(*w) && final(self).unique_elements@
                        == old(self).unique_elements@.update(i, Element::Room(*final(w))))
                    && final(self).pets@ == old(self).pets@ && final(self).path == old(self).path,
                None => !old(self).spec_has_kind(HatType::Room) && *final(self) == *old(self),
            },
    {
        let un = self.unique_elements.len();
        let mut found: Option<usize> = None;
        let mut i: usize = 0;
        while i < un
            invariant
                un == self.unique_elements@.len(),
                0 <= i <= un,
                *self == *old(self),
                old(self).wf(),
                match found {
                    Some(k) => k < un && self.unique_elements@[k as int].spec_kind()
                        == HatType::Room,
                    None => forall|j: int|
                        0 <= j < i ==> (#[trigger] self.unique_elements@[j]).spec_kind()
                            != HatType::Room,
                },
            decreases un - i,
        {
            let hit = match found {
                Some(_) => false,
                None => self.unique_elements[i].hat_type() == HatType::Room,
            };
            if hit {
                found = Some(i);
            }
            i = i + 1;
        }
        match found {
            Some(k) => {
                match &mut self.unique_elements[k] {
                    Element::Room(w) => Some(w),
                    _ => {
                        proof {
                            assert(false);
                        }
                        None
                    },
                }
            },
            None => None,
        }
    }
}

impl Hat {
    /// A mutable borrow of the first flying pet, if the bundle holds one.
    /// Only that element changes through the borrow.
    pub fn flying_pet_mut(&mut self) -> (r: Option<&mut FlyingPet>)
        requires
            old(self).wf(),
        ensures
            match r {
                Some(w) => (exists|i: int|
                    0 <= i < old(self).pets@.len() && #[trigger] old(self).pets@[i] == Element::FlyingPet(*w) && final(self).pets@
                        == old(self).pets@.update(i, Element::FlyingPet(*final(w)))) && final(self).unique_elements@ == old(self).unique_elements@ && final(self).path == old(self).path,
                None => (forall|i: int|
                    0 <= i < old(self).pets@.len() ==> (#[trigger] old(self).pets@[i]).spec_kind()
                        != HatType::FlyingPet) && *final(self) == *old(self),
            },
    {
        let pn = self.pets.len();
        let mut found: Option<usize> = None;
        let mut i: usize = 0;
        while i < pn
            invariant
                pn == self.pets@.len(),
                0 <= i <= pn,
                *self == *old(self),
                old(self).wf(),
                match found {
                    Some(k) => k < pn && self.pets@[k as int].spec_kind() == HatType::FlyingPet,
                    None => forall|j: int|
                        0 <= j < i ==> (#[trigger] self.pets@[j]).spec_kind() != HatType::FlyingPet,
                },
            decreases pn - i,
        {
            let hit = match found {
                Some(_) => false,
                None => self.pets[i].hat_type() == HatType::FlyingPet,
            };
            if hit {
                found = Some(i);
            }
            i = i + 1;
        }
        match found {
            Some(k) => {
                match &mut self.pets[k] {
                    Element::FlyingPet(w) => Some(w),
                    _ => {
                        proof {
                            assert(false);
                        }
                        None
                    },
                }
            },
            None => None,
        }
    }
}

impl Hat {
    /// A mutable borrow of the first walking pet, if the bundle holds one.
    /// Only that element changes through the borrow.
    pub fn walking_pet_mut(&mut self) -> (r: Option<&mut WalkingPet>)
        requires
            old(self).wf(),
        ensures
            match r {
                Some(w) => (exists|i: int|
                    0 <= i < old(self).pets@.len() && #[trigger] old(self).pets@[i] == Element::WalkingPet(*w) && final(self).pets@
                        == old(self).pets@.update(i, Element::WalkingPet(*final(w)))) && final(self).unique_elements@ == old(self).unique_elements@ && final(self).path == old(self).path,
                None => (forall|i: int|
                    0 <= i < old(self).pets@.len() ==> (#[trigger] old(self).pets@[i]).spec_kind()
                        != HatType::WalkingPet) && *final(self) == *old(self),
            },
    {
        let pn = self.pets.len();
        let mut found: Option<usize> = None;
        let mut i: usize = 0;
        while i < pn
            invariant
                pn == self.pets@.len(),
                0 <= i <= pn,
                *self == *old(self),
                old(self).wf(),
                match found {
                    Some(k) => k < pn && self.pets@[k as int].spec_kind() == HatType::WalkingPet,
                    None => forall|j: int|
                        0 <= j < i ==> (#[trigger] self.pets@[j]).spec_kind() != HatType::WalkingPet,
                },
            decreases pn - i,
        {
            let hit = match found {
                Some(_) => false,
                None => self.pets[i].hat_type() == HatType::WalkingPet,
            };
            if hit {
                found = Some(i);
            }
            i = i + 1;
        }
        match found {
            Some(k) => {
                match &mut self.pets[k] {
                    Element::WalkingPet(w) => Some(w),
                    _ => {
                        proof {
                            assert(false);
                        }
                        None
                    },
                }
            },
            None => None,
        }
    }
}


/// One load step over a file that classifies as no element kind: the
/// per-prefix load facts carry over unchanged.
proof fn lemma_load_step_none(
    hat: Hat,
    f: (String, Image),
    tp: Seq<(String, Image)>,
    tp1: Seq<(String, Image)>,
)
    requires
        hat.wf(),
        spec_file_kind(f) == HatType::Unspecified,
        tp1.drop_last() == tp,
        tp1.last() == f,
        tp1.len() == tp.len() + 1,
        hat.pets@.len() == vstd::math::min(MAX_PETS as int, spec_pet_files(tp).len() as int),
        forall|j: int|
            0 <= j < hat.pets@.len() ==> spec_loaded_from(
                #[trigger] hat.pets@[j],
                spec_pet_files(tp)[j],
            ),
        forall|kind: HatType|
            !kind.is_pet() && kind != HatType::Unspecified ==> ((#[trigger] hat.spec_has_kind(
                kind,
            )) == (spec_last_of_kind(tp, kind) >= 0)),
        forall|i: int|
            0 <= i < hat.unique_elements@.len() ==> (spec_last_of_kind(
                tp,
                (#[trigger] hat.unique_elements@[i]).spec_kind(),
            ) >= 0 && spec_loaded_from(
                hat.unique_elements@[i],
                tp[spec_last_of_kind(tp, hat.unique_elements@[i].spec_kind())],
            )),
    ensures
        hat.pets@.len() == vstd::math::min(MAX_PETS as int, spec_pet_files(tp1).len() as int),
        forall|j: int|
            0 <= j < hat.pets@.len() ==> spec_loaded_from(
                #[trigger] hat.pets@[j],
                spec_pet_files(tp1)[j],
            ),
        forall|kind: HatType|
            !kind.is_pet() && kind != HatType::Unspecified ==> ((#[trigger] hat.spec_has_kind(
                kind,
            )) == (spec_last_of_kind(tp1, kind) >= 0)),
        forall|i: int|
            0 <= i < hat.unique_elements@.len() ==> (spec_last_of_kind(
                tp1,
                (#[trigger] hat.unique_elements@[i]).spec_kind(),
            ) >= 0 && spec_loaded_from(
                hat.unique_elements@[i],
                tp1[spec_last_of_kind(tp1, hat.unique_elements@[i].spec_kind())],
            )),
{
    assert(spec_pet_files(tp1) == spec_pet_files(tp));
    assert forall|kind: HatType| kind != HatType::Unspecified implies #[trigger] spec_last_of_kind(
        tp1,
        kind,
    ) == spec_last_of_kind(tp, kind) by {}
    assert forall|i: int| 0 <= i < hat.unique_elements@.len() implies (spec_last_of_kind(
        tp1,
        (#[trigger] hat.unique_elements@[i]).spec_kind(),
    ) >= 0 && spec_loaded_from(
        hat.unique_elements@[i],
        tp1[spec_last_of_kind(tp1, hat.unique_elements@[i].spec_kind())],
    )) by {
        let kind_i = hat.unique_elements@[i].spec_kind();
        assert(kind_i != HatType::Unspecified);
        assert(spec_file_kind(tp1.last()) != kind_i);
        assert(spec_last_of_kind(tp1, kind_i) == spec_last_of_kind(tp, kind_i));
        lemma_last_of_kind_bounds(tp, kind_i);
        assert(tp1[spec_last_of_kind(tp, kind_i)] == tp[spec_last_of_kind(tp, kind_i)]);
    }
}

/// One load step over a file that loads as an element: the per-prefix
/// load facts advance by one file, with the element routed to its place.
proof fn lemma_load_step_some(
    hat0: Hat,
    hat: Hat,
    ev: Element,
    f: (String, Image),
    tp: Seq<(String, Image)>,
    tp1: Seq<(String, Image)>,
)
    requires
        hat0.wf(),
        hat.wf(),
        spec_file_kind(f) == ev.spec_kind(),
        ev.spec_kind() != HatType::Unspecified,
        spec_loaded_from(ev, f),
        tp1.drop_last() == tp,
        tp1.last() == f,
        tp1.len() == tp.len() + 1,
        hat0.pets@.len() == vstd::math::min(MAX_PETS as int, spec_pet_files(tp).len() as int),
        forall|j: int|
            0 <= j < hat0.pets@.len() ==> spec_loaded_from(
                #[trigger] hat0.pets@[j],
                spec_pet_files(tp)[j],
            ),
        forall|kind: HatType|
            !kind.is_pet() && kind != HatType::Unspecified ==> ((#[trigger] hat0.spec_has_kind(
                kind,
            )) == (spec_last_of_kind(tp, kind) >= 0)),
        forall|i: int|
            0 <= i < hat0.unique_elements@.len() ==> (spec_last_of_kind(
                tp,
                (#[trigger] hat0.unique_elements@[i]).spec_kind(),
            ) >= 0 && spec_loaded_from(
                hat0.unique_elements@[i],
                tp[spec_last_of_kind(tp, hat0.unique_elements@[i].spec_kind())],
            )),
        if ev.spec_kind().is_pet() {
            hat.unique_elements@ == hat0.unique_elements@ && (if hat0.pets@.len() < MAX_PETS {
                hat.pets@ == hat0.pets@.push(ev)
            } else {
                hat.pets@ == hat0.pets@
            })
        } else {
            hat.pets@ == hat0.pets@ && unique_inserted_shape(
                hat0.unique_elements@,
                hat.unique_elements@,
                ev,
            )
        },
    ensures
        hat.pets@.len() == vstd::math::min(MAX_PETS as int, spec_pet_files(tp1).len() as int),
        forall|j: int|
            0 <= j < hat.pets@.len() ==> spec_loaded_from(
                #[trigger] hat.pets@[j],
                spec_pet_files(tp1)[j],
            ),
        forall|kind: HatType|
            !kind.is_pet() && kind != HatType::Unspecified ==> ((#[trigger] hat.spec_has_kind(
                kind,
            )) == (spec_last_of_kind(tp1, kind) >= 0)),
        forall|i: int|
            0 <= i < hat.unique_elements@.len() ==> (spec_last_of_kind(
                tp1,
                (#[trigger] hat.unique_elements@[i]).spec_kind(),
            ) >= 0 && spec_loaded_from(
                hat.unique_elements@[i],
                tp1[spec_last_of_kind(tp1, hat.unique_elements@[i].spec_kind())],
            )),
{
    let k = ev.spec_kind();
    assert forall|kind: HatType| true implies #[trigger] spec_last_of_kind(tp1, kind) == (if kind
        == k {
        tp.len() as int
    } else {
        spec_last_of_kind(tp, kind)
    }) by {}
    if k.is_pet() {
        assert(spec_pet_files(tp1) == spec_pet_files(tp).push(f));
        let pf = spec_pet_files(tp);
        if hat0.pets@.len() < MAX_PETS {
            assert(pf.len() == hat0.pets@.len());
            assert forall|j: int| 0 <= j < hat.pets@.len() implies spec_loaded_from(
                #[trigger] hat.pets@[j],
                spec_pet_files(tp1)[j],
            ) by {
                if j < hat0.pets@.len() {
                    assert(hat.pets@[j] == hat0.pets@[j]);
                    assert(spec_pet_files(tp1)[j] == pf[j]);
                } else {
                    assert(hat.pets@[j] == ev);
                    assert(spec_pet_files(tp1)[j] == f);
                }
            }
        } else {
            assert(pf.len() >= MAX_PETS);
            assert forall|j: int| 0 <= j < hat.pets@.len() implies spec_loaded_from(
                #[trigger] hat.pets@[j],
                spec_pet_files(tp1)[j],
            ) by {
                assert(hat.pets@[j] == hat0.pets@[j]);
                assert(spec_pet_files(tp1)[j] == pf[j]);
            }
        }
        assert forall|kind: HatType|
            !kind.is_pet() && kind != HatType::Unspecified implies ((#[trigger] hat.spec_has_kind(
            kind,
        )) == (spec_last_of_kind(tp1, kind) >= 0)) by {
            assert(hat.spec_has_kind(kind) == hat0.spec_has_kind(kind));
            assert(spec_file_kind(tp1.last()) != kind);
            assert(spec_last_of_kind(tp1, kind) == spec_last_of_kind(tp, kind));
        }
        assert forall|i: int| 0 <= i < hat.unique_elements@.len() implies (spec_last_of_kind(
            tp1,
            (#[trigger] hat.unique_elements@[i]).spec_kind(),
        ) >= 0 && spec_loaded_from(
            hat.unique_elements@[i],
            tp1[spec_last_of_kind(tp1, hat.unique_elements@[i].spec_kind())],
        )) by {
            let kind_i = hat.unique_elements@[i].spec_kind();
            assert(hat.unique_elements@[i] == hat0.unique_elements@[i]);
            assert((#[trigger] hat0.unique_elements@[i]).spec_kind() == kind_i);
            assert(!kind_i.is_pet() && kind_i != HatType::Unspecified);
            assert(spec_file_kind(tp1.last()) != kind_i);
            assert(spec_last_of_kind(tp1, kind_i) == spec_last_of_kind(tp, kind_i));
            lemma_last_of_kind_bounds(tp, kind_i);
            assert(tp1[spec_last_of_kind(tp, kind_i)] == tp[spec_last_of_kind(tp, kind_i)]);
        }
    } else {
        assert(spec_pet_files(tp1) == spec_pet_files(tp));
        assert forall|kind: HatType|
            !kind.is_pet() && kind != HatType::Unspecified implies ((#[trigger] hat.spec_has_kind(
            kind,
        )) == (spec_last_of_kind(tp1, kind) >= 0)) by {
            if kind == k {
                assert(spec_last_of_kind(tp1, kind) == tp.len());
                if seq_has_kind(hat0.unique_elements@, k) {
                    let w = choose|w: int|
                        0 <= w < hat0.unique_elements@.len() && (
                        #[trigger] hat0.unique_elements@[w]).spec_kind() == k;
                    assert(hat.unique_elements@[w] == ev);
                    assert((#[trigger] hat.unique_elements@[w]).spec_kind() == k);
                } else {
                    let w = hat0.unique_elements@.len() as int;
                    assert(hat.unique_elements@[w] == ev);
                    assert((#[trigger] hat.unique_elements@[w]).spec_kind() == k);
                }
            } else {
                if hat0.spec_has_kind(kind) {
                    let w = choose|w: int|
                        0 <= w < hat0.unique_elements@.len() && (
                        #[trigger] hat0.unique_elements@[w]).spec_kind() == kind;
                    if seq_has_kind(hat0.unique_elements@, k) {
                        assert(hat.unique_elements@[w] == hat0.unique_elements@[w]);
                    } else {
                        assert(hat.unique_elements@[w] == hat0.unique_elements@[w]);
                    }
                    assert((#[trigger] hat.unique_elements@[w]).spec_kind() == kind);
                }
                if hat.spec_has_kind(kind) {
                    let w = choose|w: int|
                        0 <= w < hat.unique_elements@.len() && (
                        #[trigger] hat.unique_elements@[w]).spec_kind() == kind;
                    if seq_has_kind(hat0.unique_elements@, k) {
                        assert(hat0.unique_elements@[w].spec_kind() == kind || hat.unique_elements@[w]
                            == ev);
                        assert((#[trigger] hat0.unique_elements@[w]).spec_kind() == kind);
                    } else {
                        assert(w < hat0.unique_elements@.len());
                        assert((#[trigger] hat0.unique_elements@[w]).spec_kind() == kind);
                    }
                }
            }
        }
        assert forall|i: int| 0 <= i < hat.unique_elements@.len() implies (spec_last_of_kind(
            tp1,
            (#[trigger] hat.unique_elements@[i]).spec_kind(),
        ) >= 0 && spec_loaded_from(
            hat.unique_elements@[i],
            tp1[spec_last_of_kind(tp1, hat.unique_elements@[i].spec_kind())],
        )) by {
            let kind_i = hat.unique_elements@[i].spec_kind();
            if seq_has_kind(hat0.unique_elements@, k) {
                if hat0.unique_elements@[i].spec_kind() == k {
                    assert(hat.unique_elements@[i] == ev);
                    assert(kind_i == k);
                    assert(spec_last_of_kind(tp1, k) == tp.len());
                } else {
                    assert(hat.unique_elements@[i] == hat0.unique_elements@[i]);
                    assert(kind_i != k);
                    lemma_last_of_kind_bounds(tp, kind_i);
                    assert(tp1[spec_last_of_kind(tp, kind_i)] == tp[spec_last_of_kind(
                        tp,
                        kind_i,
                    )]);
                }
            } else {
                if i < hat0.unique_elements@.len() {
                    assert(hat.unique_elements@[i] == hat0.unique_elements@[i]);
                    assert((#[trigger] hat0.unique_elements@[i]).spec_kind() == kind_i);
                    assert(kind_i != k);
                    lemma_last_of_kind_bounds(tp, kind_i);
                    assert(tp1[spec_last_of_kind(tp, kind_i)] == tp[spec_last_of_kind(
                        tp,
                        kind_i,
                    )]);
                } else {
                    assert(hat.unique_elements@[i] == ev);
                    assert(kind_i == k);
                    assert(spec_last_of_kind(tp1, k) == tp.len());
                }
            }
        }
    }
}

} // verus!
