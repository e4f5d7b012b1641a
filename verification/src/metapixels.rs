//! The metapixel wire format: a typed record `(op, a, b)` packed into the
//! red, green and blue channels of one image pixel.

use vstd::prelude::*;

verus! {

/// The closed set of record tags. The ordinal of each variant is part of the
/// wire format: it is the value of the red channel of the pixel that carries
/// the record.
#[derive(Debug, Clone, Copy, PartialEq, Eq, Structural)]
pub enum MetapixelType {
    StrappedOn,
    IsBigHat,
    FrameSize,
    AnimationType,
    AnimationDelay,
    AnimationLoop,
    AnimationFrame,
    AnimationFramePeriod,
    LinkFrameState,
    WingsGeneralOffset,
    WingsCrouchOffset,
    WingsRagdollOffset,
    WingsSlideOffset,
    GenerateWingsAnimations,
    PetChangesAngle,
    PetDistance,
    PetNoFlip,
    WingsAutoGlideFrame,
    WingsAutoIdleFrame,
    WingsAutoAnimationsSpeed,
    ChangeAnimationsEveryLevel,
    PetSpeed,
    WingsNetOffset,
    OnSpawnAnimation,
}

/// The wire ordinal of an opcode.
pub open spec fn op_u8(t: MetapixelType) -> u8 {
    match t {
        MetapixelType::StrappedOn => 0,
        MetapixelType::IsBigHat => 1,
        MetapixelType::FrameSize => 2,
        MetapixelType::AnimationType => 3,
        MetapixelType::AnimationDelay => 4,
        MetapixelType::AnimationLoop => 5,
        MetapixelType::AnimationFrame => 6,
        MetapixelType::AnimationFramePeriod => 7,
        MetapixelType::LinkFrameState => 8,
        MetapixelType::WingsGeneralOffset => 9,
        MetapixelType::WingsCrouchOffset => 10,
        MetapixelType::WingsRagdollOffset => 11,
        MetapixelType::WingsSlideOffset => 12,
        MetapixelType::GenerateWingsAnimations => 13,
        MetapixelType::PetChangesAngle => 14,
        MetapixelType::PetDistance => 15,
        MetapixelType::PetNoFlip => 16,
        MetapixelType::WingsAutoGlideFrame => 17,
        MetapixelType::WingsAutoIdleFrame => 18,
        MetapixelType::WingsAutoAnimationsSpeed => 19,
        MetapixelType::ChangeAnimationsEveryLevel => 20,
        MetapixelType::PetSpeed => 21,
        MetapixelType::WingsNetOffset => 22,
        MetapixelType::OnSpawnAnimation => 23,
    }
}

/// The opcode that a red-channel byte stands for, if any.
pub open spec fn op_of_u8(r: u8) -> Option<MetapixelType> {
    if r == 0 {
        Some(MetapixelType::StrappedOn)
    } else if r == 1 {
        Some(MetapixelType::IsBigHat)
    } else if r == 2 {
        Some(MetapixelType::FrameSize)
    } else if r == 3 {
        Some(MetapixelType::AnimationType)
    } else if r == 4 {
        Some(MetapixelType::AnimationDelay)
    } else if r == 5 {
        Some(MetapixelType::AnimationLoop)
    } else if r == 6 {
        Some(MetapixelType::AnimationFrame)
    } else if r == 7 {
        Some(MetapixelType::AnimationFramePeriod)
    } else if r == 8 {
        Some(MetapixelType::LinkFrameState)
    } else if r == 9 {
        Some(MetapixelType::WingsGeneralOffset)
    } else if r == 10 {
        Some(MetapixelType::WingsCrouchOffset)
    } else if r == 11 {
        Some(MetapixelType::WingsRagdollOffset)
    } else if r == 12 {
        Some(MetapixelType::WingsSlideOffset)
    } else if r == 13 {
        Some(MetapixelType::GenerateWingsAnimations)
    } else if r == 14 {
        Some(MetapixelType::PetChangesAngle)
    } else if r == 15 {
        Some(MetapixelType::PetDistance)
    } else if r == 16 {
        Some(MetapixelType::PetNoFlip)
    } else if r == 17 {
        Some(MetapixelType::WingsAutoGlideFrame)
    } else if r == 18 {
        Some(MetapixelType::WingsAutoIdleFrame)
    } else if r == 19 {
        Some(MetapixelType::WingsAutoAnimationsSpeed)
    } else if r == 20 {
        Some(MetapixelType::ChangeAnimationsEveryLevel)
    } else if r == 21 {
        Some(MetapixelType::PetSpeed)
    } else if r == 22 {
        Some(MetapixelType::WingsNetOffset)
    } else if r == 23 {
        Some(MetapixelType::OnSpawnAnimation)
    } else {
        None
    }
}

/// A red-channel byte is a valid opcode ordinal.
pub open spec fn valid_op(r: u8) -> bool {
    op_of_u8(r) is Some
}

/// The two ordinal maps invert each other.
pub broadcast proof fn lemma_op_u8_roundtrip(t: MetapixelType)
    ensures
        #[trigger] op_of_u8(op_u8(t)) == Some(t),
{
}

impl MetapixelType {
    /// The wire ordinal of this opcode, as executable code.
    pub fn as_u8(self) -> (r: u8)
        ensures
            r == op_u8(self),
    {
        match self {
            MetapixelType::StrappedOn => 0,
            MetapixelType::IsBigHat => 1,
            MetapixelType::FrameSize => 2,
            MetapixelType::AnimationType => 3,
            MetapixelType::AnimationDelay => 4,
            MetapixelType::AnimationLoop => 5,
            MetapixelType::AnimationFrame => 6,
            MetapixelType::AnimationFramePeriod => 7,
            MetapixelType::LinkFrameState => 8,
            MetapixelType::WingsGeneralOffset => 9,
            MetapixelType::WingsCrouchOffset => 10,
            MetapixelType::WingsRagdollOffset => 11,
            MetapixelType::WingsSlideOffset => 12,
            MetapixelType::GenerateWingsAnimations => 13,
            MetapixelType::PetChangesAngle => 14,
            MetapixelType::PetDistance => 15,
            MetapixelType::PetNoFlip => 16,
            MetapixelType::WingsAutoGlideFrame => 17,
            MetapixelType::WingsAutoIdleFrame => 18,
            MetapixelType::WingsAutoAnimationsSpeed => 19,
            MetapixelType::ChangeAnimationsEveryLevel => 20,
            MetapixelType::PetSpeed => 21,
            MetapixelType::WingsNetOffset => 22,
            MetapixelType::OnSpawnAnimation => 23,
        }
    }

    /// The opcode for a red-channel byte, as executable code.
    pub fn from_u8(r: u8) -> (t: Option<MetapixelType>)
        ensures
            t == op_of_u8(r),
    {
        match r {
            0 => Some(MetapixelType::StrappedOn),
            1 => Some(MetapixelType::IsBigHat),
            2 => Some(MetapixelType::FrameSize),
            3 => Some(MetapixelType::AnimationType),
            4 => Some(MetapixelType::AnimationDelay),
            5 => Some(MetapixelType::AnimationLoop),
            6 => Some(MetapixelType::AnimationFrame),
            7 => Some(MetapixelType::AnimationFramePeriod),
            8 => Some(MetapixelType::LinkFrameState),
            9 => Some(MetapixelType::WingsGeneralOffset),
            10 => Some(MetapixelType::WingsCrouchOffset),
            11 => Some(MetapixelType::WingsRagdollOffset),
            12 => Some(MetapixelType::WingsSlideOffset),
            13 => Some(MetapixelType::GenerateWingsAnimations),
            14 => Some(MetapixelType::PetChangesAngle),
            15 => Some(MetapixelType::PetDistance),
            16 => Some(MetapixelType::PetNoFlip),
            17 => Some(MetapixelType::WingsAutoGlideFrame),
            18 => Some(MetapixelType::WingsAutoIdleFrame),
            19 => Some(MetapixelType::WingsAutoAnimationsSpeed),
            20 => Some(MetapixelType::ChangeAnimationsEveryLevel),
            21 => Some(MetapixelType::PetSpeed),
            22 => Some(MetapixelType::WingsNetOffset),
            23 => Some(MetapixelType::OnSpawnAnimation),
            _ => None,
        }
    }
}

/// One decoded record: the raw red, green and blue bytes of the pixel.
/// The red byte of a constructed `Metapixel` is always a valid opcode ordinal.
#[derive(Debug, Clone, Copy, PartialEq, Eq, Structural)]
pub struct Metapixel {
    pub r: u8,
    pub g: u8,
    pub b: u8,
}

/// The record with a given opcode and payload bytes.
pub open spec fn mp(t: MetapixelType, g: u8, b: u8) -> Metapixel {
    Metapixel { r: op_u8(t), g, b }
}

impl Metapixel {
    /// A record from raw channel bytes; refused when the red byte is not a
    /// valid opcode ordinal.
    pub fn new(r: u8, g: u8, b: u8) -> (res: Option<Self>)
        ensures
            valid_op(r) ==> res == Some(Metapixel { r, g, b }),
            !valid_op(r) ==> res is None,
    {
        if MetapixelType::from_u8(r).is_some() {
            return Some(Self { r, g, b });
        }
        None
    }

    /// The opcode of this record.
    pub fn get_type(&self) -> (t: MetapixelType)
        requires
            valid_op(self.r),
        ensures
            Some(t) == op_of_u8(self.r),
    {
        MetapixelType::from_u8(self.r).unwrap()
    }
}

/// An ordered stream of records under construction.
pub struct Metapixels {
    pub pixels: Vec<Metapixel>,
}

impl Metapixels {
    /// An empty stream.
    pub fn new() -> (res: Self)
        ensures
            res.pixels@ == Seq::<Metapixel>::empty(),
    {
        Self { pixels: vec![] }
    }

    /// Appends one record built from an opcode and payload bytes.
    pub fn push(&mut self, pixel_type: MetapixelType, g: u8, b: u8)
        ensures
            final(self).pixels@ == old(self).pixels@.push(mp(pixel_type, g, b)),
    {
        proof {
            lemma_op_u8_roundtrip(pixel_type);
        }
        let r = pixel_type.as_u8();
        if let Some(pixel) = Metapixel::new(r, g, b) {
            self.pixels.push(pixel);
        }
    }

    /// Appends one already-built record.
    pub fn push_raw(&mut self, pixel: Metapixel)
        ensures
            final(self).pixels@ == old(self).pixels@.push(pixel),
    {
        self.pixels.push(pixel);
    }

    /// Appends a whole slice of records, in order.
    pub fn push_many(&mut self, pixels: &[Metapixel])
        ensures
            final(self).pixels@ == old(self).pixels@ + pixels@,
    {
        let n = pixels.len();
        for i in 0..n
            invariant
                n == pixels@.len(),
                self.pixels@ == old(self).pixels@ + pixels@.take(i as int),
        {
            let p = pixels[i];
            self.pixels.push(p);
            proof {
                assert(pixels@.take(i + 1) == pixels@.take(i as int).push(pixels@[i as int]));
            }
        }
        proof {
            assert(pixels@.take(n as int) == pixels@);
        }
    }
}

} // verus!
