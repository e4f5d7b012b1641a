//! Typed animation records: an animation kind, a frame delay, a loop flag
//! and an ordered list of frames, together with the encoder that serialises
//! an animation into the metapixel stream.

use vstd::prelude::*;

use crate::hats::HatType;
use crate::ids::{sat_inc, IdSource};
use crate::is_range::{int_values, is_asc_run, is_desc_run, is_monotonic_run};
use crate::metapixels::{mp, Metapixel, MetapixelType, Metapixels};

verus! {

/// The closed set of animation kinds. The ordinal of each variant is part
/// of the wire format: it is the payload byte of an `AnimationType` record.
#[derive(Copy, Clone, Debug, PartialEq, Eq, Structural)]
pub enum AnimationType {
    OnDefault,
    OnPressQuack,
    OnReleaseQuack,
    OnStatic,
    OnApproach,
    OnDuckDeath,
    Flying,
    StartIdle,
    Gliding,
    StartGliding,
    Idle,
    OnRessurect,
}

/// The wire ordinal of an animation kind.
pub open spec fn anim_u8(t: AnimationType) -> u8 {
    match t {
        AnimationType::OnDefault => 0,
        AnimationType::OnPressQuack => 1,
        AnimationType::OnReleaseQuack => 2,
        AnimationType::OnStatic => 3,
        AnimationType::OnApproach => 4,
        AnimationType::OnDuckDeath => 5,
        AnimationType::Flying => 6,
        AnimationType::StartIdle => 7,
        AnimationType::Gliding => 8,
        AnimationType::StartGliding => 9,
        AnimationType::Idle => 10,
        AnimationType::OnRessurect => 11,
    }
}

/// The animation kind that a payload byte stands for, if any.
pub open spec fn anim_of_u8(g: u8) -> Option<AnimationType> {
    if g == 0 {
        Some(AnimationType::OnDefault)
    } else if g == 1 {
        Some(AnimationType::OnPressQuack)
    } else if g == 2 {
        Some(AnimationType::OnReleaseQuack)
    } else if g == 3 {
        Some(AnimationType::OnStatic)
    } else if g == 4 {
        Some(AnimationType::OnApproach)
    } else if g == 5 {
        Some(AnimationType::OnDuckDeath)
    } else if g == 6 {
        Some(AnimationType::Flying)
    } else if g == 7 {
        Some(AnimationType::StartIdle)
    } else if g == 8 {
        Some(AnimationType::Gliding)
    } else if g == 9 {
        Some(AnimationType::StartGliding)
    } else if g == 10 {
        Some(AnimationType::Idle)
    } else if g == 11 {
        Some(AnimationType::OnRessurect)
    } else {
        None
    }
}

/// The two ordinal maps invert each other.
pub broadcast proof fn lemma_anim_u8_roundtrip(t: AnimationType)
    ensures
        #[trigger] anim_of_u8(anim_u8(t)) == Some(t),
{
}

impl AnimationType {
    /// The wire ordinal of this kind, as executable code.
    pub fn as_u8(self) -> (r: u8)
        ensures
            r == anim_u8(self),
    {
        match self {
            AnimationType::OnDefault => 0,
            AnimationType::OnPressQuack => 1,
            AnimationType::OnReleaseQuack => 2,
            AnimationType::OnStatic => 3,
            AnimationType::OnApproach => 4,
            AnimationType::OnDuckDeath => 5,
            AnimationType::Flying => 6,
            AnimationType::StartIdle => 7,
            AnimationType::Gliding => 8,
            AnimationType::StartGliding => 9,
            AnimationType::Idle => 10,
            AnimationType::OnRessurect => 11,
        }
    }

    /// The kind for a payload byte, as executable code.
    pub fn from_u8(g: u8) -> (t: Option<AnimationType>)
        ensures
            t == anim_of_u8(g),
    {
        match g {
            0 => Some(AnimationType::OnDefault),
            1 => Some(AnimationType::OnPressQuack),
            2 => Some(AnimationType::OnReleaseQuack),
            3 => Some(AnimationType::OnStatic),
            4 => Some(AnimationType::OnApproach),
            5 => Some(AnimationType::OnDuckDeath),
            6 => Some(AnimationType::Flying),
            7 => Some(AnimationType::StartIdle),
            8 => Some(AnimationType::Gliding),
            9 => Some(AnimationType::StartGliding),
            10 => Some(AnimationType::Idle),
            11 => Some(AnimationType::OnRessurect),
            _ => None,
        }
    }
}

/// The animation kinds an element of the given kind may carry, in the order
/// the editor offers them; `None` for elements that carry no animations.
pub open spec fn avalible_animations_spec(hat_type: HatType) -> Option<Seq<AnimationType>> {
    match hat_type {
        HatType::Wereable => Some(
            seq![
                AnimationType::OnDefault,
                AnimationType::OnPressQuack,
                AnimationType::OnReleaseQuack,
                AnimationType::OnDuckDeath,
                AnimationType::OnRessurect,
            ],
        ),
        HatType::Wings => Some(
            seq![
                AnimationType::Flying,
                AnimationType::StartIdle,
                AnimationType::Gliding,
                AnimationType::StartGliding,
                AnimationType::Idle,
            ],
        ),
        HatType::FlyingPet | HatType::WalkingPet => Some(
            seq![
                AnimationType::OnApproach,
                AnimationType::OnDuckDeath,
                AnimationType::OnStatic,
                AnimationType::OnDefault,
                AnimationType::OnRessurect,
            ],
        ),
        _ => None,
    }
}

/// The animation kinds an element of the given kind may carry.
pub fn avalible_animations(hat_type: HatType) -> (r: Option<Vec<AnimationType>>)
    ensures
        match (r, avalible_animations_spec(hat_type)) {
            (Some(v), Some(s)) => v@ == s,
            (None, None) => true,
            _ => false,
        },
{
    match hat_type {
        HatType::Wereable => {
            let v = vec![
                AnimationType::OnDefault,
                AnimationType::OnPressQuack,
                AnimationType::OnReleaseQuack,
                AnimationType::OnDuckDeath,
                AnimationType::OnRessurect,
            ];
            proof {
                assert(v@ =~= avalible_animations_spec(hat_type).unwrap());
            }
            Some(v)
        },
        HatType::Wings => {
            let v = vec![
                AnimationType::Flying,
                AnimationType::StartIdle,
                AnimationType::Gliding,
                AnimationType::StartGliding,
                AnimationType::Idle,
            ];
            proof {
                assert(v@ =~= avalible_animations_spec(hat_type).unwrap());
            }
            Some(v)
        },
        HatType::FlyingPet | HatType::WalkingPet => {
            let v = vec![
                AnimationType::OnApproach,
                AnimationType::OnDuckDeath,
                AnimationType::OnStatic,
                AnimationType::OnDefault,
                AnimationType::OnRessurect,
            ];
            proof {
                assert(v@ =~= avalible_animations_spec(hat_type).unwrap());
            }
            Some(v)
        },
        _ => None,
    }
}

/// An opaque identifier for one frame entry in an animation's frame list.
/// It is never serialised; it only keeps UI list items stable.
#[derive(Debug, Clone, Copy, Hash, PartialEq, Eq, Structural)]
pub struct FrameId(pub u32);

/// One entry of an animation's frame list: the sprite-sheet frame index it
/// shows, plus an opaque id for UI stability.
#[derive(Debug, Hash)]
pub struct Frame {
    pub value: i32,
    pub id: FrameId,
}

impl Frame {
    /// A frame with a fresh id.
    pub fn new(value: i32, ids: &mut IdSource) -> (f: Self)
        ensures
            f.value == value,
            f.id == (FrameId(old(ids).next)),
            final(ids).next == sat_inc(old(ids).next),
    {
        Self { value, id: frame_id(ids) }
    }

    /// The opaque id this frame carries.
    pub fn id(&self) -> (r: FrameId)
        ensures
            r == self.id,
    {
        self.id
    }

    /// A copy of this frame under a fresh id.
    pub fn duplicate(&self, ids: &mut IdSource) -> (f: Self)
        ensures
            f.value == self.value,
            f.id == (FrameId(old(ids).next)),
            final(ids).next == sat_inc(old(ids).next),
    {
        Frame::new(self.value, ids)
    }
}

/// Draws a fresh frame id from the counter.
pub fn frame_id(ids: &mut IdSource) -> (id: FrameId)
    ensures
        id == (FrameId(old(ids).next)),
        final(ids).next == sat_inc(old(ids).next),
{
    FrameId(ids.bump())
}

/// The sprite-sheet indices of a frame list, in order.
pub open spec fn frame_values(s: Seq<Frame>) -> Seq<int> {
    s.map_values(|f: Frame| f.value as int)
}

/// The mathematical content of an animation: what survives serialisation.
/// Frame ids are deliberately absent.
pub ghost struct AnimationView {
    pub kind: AnimationType,
    pub delay: int,
    pub looping: bool,
    pub frames: Seq<int>,
}

impl AnimationView {
    /// The value ranges the wire format can carry: a delay byte and frame
    /// indices that fit in one byte.
    pub open spec fn wf(self) -> bool {
        &&& 0 <= self.delay <= 255
        &&& forall|i: int| 0 <= i < self.frames.len() ==> 0 <= #[trigger] self.frames[i] <= 255
    }
}

/// One typed animation: kind, frame delay, loop flag and frame list, plus
/// three staging fields the editor UI uses while composing new frames.
#[derive(Debug)]
pub struct Animation {
    pub anim_type: AnimationType,
    pub delay: i32,
    pub looping: bool,
    pub frames: Vec<Frame>,
    pub new_frame: i32,
    pub new_range_start: i32,
    pub new_range_end: i32,
}

impl View for Animation {
    type V = AnimationView;

    open spec fn view(&self) -> AnimationView {
        AnimationView {
            kind: self.anim_type,
            delay: self.delay as int,
            looping: self.looping,
            frames: frame_values(self.frames@),
        }
    }
}

/// The serialised form of an animation: a three-record header, then either
/// one `AnimationFramePeriod` record (when the frames form a monotonic
/// ±1-step run of length at least two, so that expanding the period gives
/// the same values back) or one `AnimationFrame` record per frame.
pub open spec fn anim_pixels(a: AnimationView) -> Seq<Metapixel> {
    let header = seq![
        mp(MetapixelType::AnimationType, anim_u8(a.kind), 0),
        mp(MetapixelType::AnimationDelay, a.delay as u8, 0),
        mp(
            MetapixelType::AnimationLoop,
            if a.looping {
                1u8
            } else {
                0u8
            },
            0,
        ),
    ];
    if (is_asc_run(a.frames) || is_desc_run(a.frames)) && a.frames.len() > 1 {
        header + seq![
            mp(MetapixelType::AnimationFramePeriod, a.frames.first() as u8, a.frames.last() as u8),
        ]
    } else {
        header + a.frames.map_values(|v: int| mp(MetapixelType::AnimationFrame, v as u8, 0))
    }
}

impl Animation {
    /// An animation with the given content and fresh staging fields.
    pub fn new(anim_type: AnimationType, delay: i32, looping: bool, frames: Vec<Frame>) -> (r: Self)
        ensures
            r.anim_type == anim_type,
            r.delay == delay,
            r.looping == looping,
            r.frames == frames,
            r.new_frame == 0,
            r.new_range_start == 1,
            r.new_range_end == 1,
            r@ == (AnimationView {
                kind: anim_type,
                delay: delay as int,
                looping,
                frames: frame_values(frames@),
            }),
    {
        Self {
            anim_type,
            delay,
            looping,
            frames,
            new_frame: 0,
            new_range_end: 1,
            new_range_start: 1,
        }
    }

    /// Serialises this animation into metapixel records, compressing a
    /// monotonic ±1-step run of two or more frames into one period record.
    /// A run that changes direction is written frame by frame, so that
    /// decoding always restores the same values.
    pub fn gen_metapixels(&self) -> (r: Vec<Metapixel>)
        requires
            self@.wf(),
        ensures
            r@ == anim_pixels(self@),
    {
        let mut metapixels = Metapixels::new();
        metapixels.push(MetapixelType::AnimationType, self.anim_type.as_u8(), 0);
        metapixels.push(MetapixelType::AnimationDelay, self.delay as u8, 0);
        metapixels.push(
            MetapixelType::AnimationLoop,
            if self.looping {
                1
            } else {
                0
            },
            0,
        );
        let ghost header = metapixels.pixels@;
        proof {
            assert(header =~= anim_pixels(self@).take(3));
        }

        let n = self.frames.len();
        let mut values: Vec<i32> = Vec::new();
        for i in 0..n
            invariant
                n == self.frames@.len(),
                values@.len() == i,
                int_values(values@) == self@.frames.take(i as int),
        {
            values.push(self.frames[i].value);
            proof {
                assert(int_values(values@) =~= self@.frames.take(i + 1));
            }
        }
        proof {
            assert(self@.frames.take(n as int) =~= self@.frames);
        }

        if is_monotonic_run(values.as_slice()) && self.frames.len() > 1 {
            let first = self.frames[0].value;
            let last = self.frames[n - 1].value;
            assert(self@.frames.first() == first as int && self@.frames.last() == last as int);
            metapixels.push(MetapixelType::AnimationFramePeriod, first as u8, last as u8);
            proof {
                assert(metapixels.pixels@ =~= anim_pixels(self@));
            }
            return metapixels.pixels;
        }

        for i in 0..n
            invariant
                n == self.frames@.len(),
                self@.wf(),
                metapixels.pixels@ == header + self@.frames.take(i as int).map_values(
                    |v: int| mp(MetapixelType::AnimationFrame, v as u8, 0),
                ),
        {
            let value = self.frames[i].value;
            metapixels.push(MetapixelType::AnimationFrame, value as u8, 0);
            proof {
                assert(self@.frames.take(i + 1).map_values(
                    |v: int| mp(MetapixelType::AnimationFrame, v as u8, 0),
                ) =~= self@.frames.take(i as int).map_values(
                    |v: int| mp(MetapixelType::AnimationFrame, v as u8, 0),
                ).push(mp(MetapixelType::AnimationFrame, self@.frames[i as int] as u8, 0)));
            }
        }
        proof {
            assert(self@.frames.take(n as int) =~= self@.frames);
            assert(metapixels.pixels@ =~= anim_pixels(self@));
        }
        metapixels.pixels
    }
}

/// The views of a list of animations.
pub open spec fn anim_views(s: Seq<Animation>) -> Seq<AnimationView> {
    s.map_values(|a: Animation| a@)
}

/// The serialised forms of a list of animations, concatenated in order.
pub open spec fn anims_pixels(avs: Seq<AnimationView>) -> Seq<Metapixel>
    decreases avs.len(),
{
    if avs.len() == 0 {
        Seq::empty()
    } else {
        anims_pixels(avs.drop_last()) + anim_pixels(avs.last())
    }
}

/// Appends the serialised form of every animation, in order.
pub fn push_animations(metapixels: &mut Metapixels, animations: &Vec<Animation>)
    requires
        forall|i: int| 0 <= i < animations@.len() ==> (#[trigger] animations@[i])@.wf(),
    ensures
        final(metapixels).pixels@ == old(metapixels).pixels@ + anims_pixels(
            anim_views(animations@),
        ),
{
    let ghost base = metapixels.pixels@;
    let n = animations.len();
    for k in 0..n
        invariant
            n == animations@.len(),
            forall|i: int| 0 <= i < animations@.len() ==> (#[trigger] animations@[i])@.wf(),
            metapixels.pixels@ == base + anims_pixels(anim_views(animations@).take(k as int)),
    {
        let pixels = animations[k].gen_metapixels();
        metapixels.push_many(pixels.as_slice());
        proof {
            let views = anim_views(animations@);
            assert(views.take(k + 1).drop_last() =~= views.take(k as int));
            assert(views.take(k + 1).last() == views[k as int]);
            assert(anims_pixels(views.take(k + 1)) == anims_pixels(views.take(k as int))
                + anim_pixels(views[k as int]));
        }
    }
    proof {
        assert(anim_views(animations@).take(n as int) =~= anim_views(animations@));
    }
}

} // verus!
