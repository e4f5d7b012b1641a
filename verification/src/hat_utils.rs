//! Decoding of animations out of a metapixel stream, and the round-trip
//! laws that tie the decoder to the encoder.

use vstd::prelude::*;

use crate::animations::{
    anim_of_u8, anim_pixels, anim_views, frame_values, lemma_anim_u8_roundtrip, Animation,
    AnimationType, AnimationView, Frame,
};
use crate::frames_from_range::{frames_from_range, range_seq};
use crate::ids::IdSource;
use crate::image::{Image, Pixel};
use crate::ivec2::IVec2;
use crate::is_range::{is_asc_run, is_desc_run};
use crate::strings::{find_char_from, find_from, lemma_find_from_bounds, parse_pos_i32, spec_parse_pos};
use crate::metapixels::{lemma_op_u8_roundtrip, op_of_u8, valid_op, Metapixel, MetapixelType};

verus! {

/// The record at `p` carries opcode `t`.
pub open spec fn is_op(p: Metapixel, t: MetapixelType) -> bool {
    op_of_u8(p.r) == Some(t)
}

/// The frame indices of the maximal run of `AnimationFrame` records
/// starting at position `i`.
pub open spec fn frame_run(s: Seq<Metapixel>, i: int) -> Seq<int>
    decreases s.len() - i,
    when 0 <= i <= s.len()
{
    if i >= s.len() {
        Seq::empty()
    } else if is_op(s[i], MetapixelType::AnimationFrame) {
        seq![s[i].g as int] + frame_run(s, i + 1)
    } else {
        Seq::empty()
    }
}

/// Positions `i .. i + 3` hold exactly the header of one serialised
/// animation: type, delay, loop, then a frame or a frame period.
pub open spec fn anim_header_at(s: Seq<Metapixel>, i: int) -> bool {
    &&& 0 <= i
    &&& i + 3 < s.len()
    &&& is_op(s[i], MetapixelType::AnimationType)
    &&& is_op(s[i + 1], MetapixelType::AnimationDelay)
    &&& is_op(s[i + 2], MetapixelType::AnimationLoop)
    &&& (is_op(s[i + 3], MetapixelType::AnimationFrame) || is_op(
        s[i + 3],
        MetapixelType::AnimationFramePeriod,
    ))
}

/// The animation serialised at position `i` of the stream, if any: a valid
/// header whose kind byte is a known animation kind, with frames taken from
/// one period record or from the run of frame records that follows.
pub open spec fn parse_anim_at(s: Seq<Metapixel>, i: int) -> Option<AnimationView> {
    if anim_header_at(s, i) {
        match anim_of_u8(s[i].g) {
            Some(kind) => Some(
                AnimationView {
                    kind,
                    delay: s[i + 1].g as int,
                    looping: s[i + 2].g != 0,
                    frames: if is_op(s[i + 3], MetapixelType::AnimationFramePeriod) {
                        range_seq(s[i + 3].g as int, s[i + 3].b as int)
                    } else {
                        frame_run(s, i + 3)
                    },
                },
            ),
            None => None,
        }
    } else {
        None
    }
}

/// The run of `AnimationFrame` records continues at position `j`.
fn run_continues(metapixels: &[Metapixel], j: usize) -> (r: bool)
    ensures
        r == (j < metapixels@.len() && is_op(metapixels@[j as int], MetapixelType::AnimationFrame)),
{
    if j >= metapixels.len() {
        return false;
    }
    match MetapixelType::from_u8(metapixels[j].r) {
        Some(MetapixelType::AnimationFrame) => true,
        _ => false,
    }
}

/// Decodes the animation serialised at `index`, if one starts there.
/// Returns exactly what `parse_anim_at` describes; frames draw fresh ids.
pub fn get_animation(metapixels: &[Metapixel], index: usize, ids: &mut IdSource) -> (r: Option<
    Animation,
>)
    ensures
        old(ids).next <= final(ids).next,
        match (r, parse_anim_at(metapixels@, index as int)) {
            (Some(anim), Some(v)) => anim@ == v,
            (None, None) => true,
            _ => false,
        },
{
    let ghost s = metapixels@;
    let n = metapixels.len();
    if index >= n || n - index < 4 {
        assert(!anim_header_at(s, index as int));
        return None;
    }
    let anim_type_px = metapixels[index];
    let delay_px = metapixels[index + 1];
    let loop_px = metapixels[index + 2];
    let frame_or_range_px = metapixels[index + 3];

    let header_ok = match (
        MetapixelType::from_u8(anim_type_px.r),
        MetapixelType::from_u8(delay_px.r),
        MetapixelType::from_u8(loop_px.r),
    ) {
        (
            Some(MetapixelType::AnimationType),
            Some(MetapixelType::AnimationDelay),
            Some(MetapixelType::AnimationLoop),
        ) => true,
        _ => false,
    };
    if !header_ok {
        return None;
    }
    let is_period = match MetapixelType::from_u8(frame_or_range_px.r) {
        Some(MetapixelType::AnimationFramePeriod) => true,
        Some(MetapixelType::AnimationFrame) => false,
        _ => {
            return None;
        },
    };
    let kind = match AnimationType::from_u8(anim_type_px.g) {
        Some(kind) => kind,
        None => {
            return None;
        },
    };
    let looping = loop_px.g != 0;

    if is_period {
        let frames = frames_from_range(
            frame_or_range_px.g as i32,
            frame_or_range_px.b as i32,
            ids,
        );
        return Some(Animation::new(kind, delay_px.g as i32, looping, frames));
    }

    let mut frames: Vec<Frame> = Vec::new();
    let mut j = index + 3;
    while run_continues(metapixels, j)
        invariant
            old(ids).next <= ids.next,
            s == metapixels@,
            n == s.len(),
            index + 3 <= j <= n,
            frame_run(s, index + 3) == frame_values(frames@) + frame_run(s, j as int),
        decreases n - j,
    {
        let f = Frame::new(metapixels[j].g as i32, ids);
        let ghost prev = frames@;
        frames.push(f);
        proof {
            assert(frame_run(s, j as int) == seq![s[j as int].g as int] + frame_run(s, j + 1));
            assert(frame_values(frames@) =~= frame_values(prev) + seq![s[j as int].g as int]);
            assert(frame_values(frames@) + frame_run(s, j + 1) =~= frame_values(prev) + frame_run(
                s,
                j as int,
            ));
        }
        j = j + 1;
    }
    proof {
        assert(frame_run(s, j as int) =~= Seq::<int>::empty());
        assert(frame_values(frames@) =~= frame_values(frames@) + frame_run(s, j as int));
    }
    Some(Animation::new(kind, delay_px.g as i32, looping, frames))
}

/// In an ascending run every value is the first plus its offset.
proof fn lemma_asc_run_index(s: Seq<int>, j: int)
    requires
        is_asc_run(s),
        0 <= j < s.len(),
    ensures
        s[j] == s[0] + j,
    decreases j,
{
    if j > 0 {
        lemma_asc_run_index(s, j - 1);
        assert(s[(j - 1) + 1] == s[j - 1] + 1);
    }
}

/// In a descending run every value is the first minus its offset.
proof fn lemma_desc_run_index(s: Seq<int>, j: int)
    requires
        is_desc_run(s),
        0 <= j < s.len(),
    ensures
        s[j] == s[0] - j,
    decreases j,
{
    if j > 0 {
        lemma_desc_run_index(s, j - 1);
        assert(s[(j - 1) + 1] == s[j - 1] - 1);
    }
}

/// A monotonic run is exactly the inclusive range between its endpoints.
proof fn lemma_run_is_range_seq(s: Seq<int>)
    requires
        s.len() > 0,
        is_asc_run(s) || is_desc_run(s),
    ensures
        s == range_seq(s.first(), s.last()),
{
    if is_asc_run(s) {
        lemma_asc_run_index(s, s.len() - 1);
        assert forall|j: int| 0 <= j < s.len() implies s[j] == s.first() + j by {
            lemma_asc_run_index(s, j);
        }
        assert(s =~= range_seq(s.first(), s.last()));
    } else {
        lemma_desc_run_index(s, s.len() - 1);
        assert forall|j: int| 0 <= j < s.len() implies s[j] == s.first() - j by {
            lemma_desc_run_index(s, j);
        }
        assert(s =~= range_seq(s.first(), s.last()));
    }
}

/// The run of frame records that the sequence encoding lays down decodes
/// back to the tail of the encoded frame list.
proof fn lemma_frame_run_of_encoding(a: AnimationView, s: Seq<Metapixel>, k: int)
    requires
        a.wf(),
        s == anim_pixels(a),
        !((is_asc_run(a.frames) || is_desc_run(a.frames)) && a.frames.len() > 1),
        0 <= k <= a.frames.len(),
    ensures
        frame_run(s, 3 + k) == a.frames.skip(k),
    decreases a.frames.len() - k,
{
    let m = a.frames.map_values(|v: int| crate::metapixels::mp(MetapixelType::AnimationFrame, v as u8, 0));
    assert(s.len() == 3 + a.frames.len());
    if k == a.frames.len() {
        assert(frame_run(s, 3 + k) =~= Seq::<int>::empty());
        assert(a.frames.skip(k) =~= Seq::<int>::empty());
    } else {
        lemma_op_u8_roundtrip(MetapixelType::AnimationFrame);
        assert(s[3 + k] == m[k]);
        assert(is_op(s[3 + k], MetapixelType::AnimationFrame));
        assert(0 <= a.frames[k] <= 255);
        assert(s[3 + k].g as int == a.frames[k]);
        lemma_frame_run_of_encoding(a, s, k + 1);
        assert(frame_run(s, 3 + k) == seq![a.frames[k]] + a.frames.skip(k + 1));
        assert(seq![a.frames[k]] + a.frames.skip(k + 1) =~= a.frames.skip(k));
    }
}

/// Round-trip of decoded animations: decoding an encoded animation yields
/// the same kind, delay, loop flag and frame values, for every animation
/// with a non-empty frame list, a delay byte of at least one, and frame
/// indices that fit the wire.
pub proof fn lemma_animation_round_trip(a: AnimationView)
    requires
        a.wf(),
        1 <= a.delay,
        a.frames.len() > 0,
    ensures
        parse_anim_at(anim_pixels(a), 0) == Some(a),
{
    let s = anim_pixels(a);
    lemma_op_u8_roundtrip(MetapixelType::AnimationType);
    lemma_op_u8_roundtrip(MetapixelType::AnimationDelay);
    lemma_op_u8_roundtrip(MetapixelType::AnimationLoop);
    lemma_op_u8_roundtrip(MetapixelType::AnimationFrame);
    lemma_op_u8_roundtrip(MetapixelType::AnimationFramePeriod);
    lemma_anim_u8_roundtrip(a.kind);
    if (is_asc_run(a.frames) || is_desc_run(a.frames)) && a.frames.len() > 1 {
        assert(s.len() == 4);
        assert(anim_header_at(s, 0));
        lemma_run_is_range_seq(a.frames);
        assert(0 <= a.frames.first() <= 255 && 0 <= a.frames.last() <= 255);
        assert(parse_anim_at(s, 0) == Some(a));
    } else {
        assert(s.len() == 3 + a.frames.len());
        let m = a.frames.map_values(
            |v: int| crate::metapixels::mp(MetapixelType::AnimationFrame, v as u8, 0),
        );
        assert(s[3] == m[0]);
        assert(is_op(s[3], MetapixelType::AnimationFrame));
        assert(anim_header_at(s, 0));
        lemma_frame_run_of_encoding(a, s, 0);
        assert(a.frames.skip(0) =~= a.frames);
        assert(parse_anim_at(s, 0) == Some(a));
    }
}

/// Range compression: when the frames form a ±1-step run of length at
/// least two — a monotonic run, the only kind whose period record decodes
/// back to the same values — the encoder emits exactly the three header
/// records followed by one `AnimationFramePeriod` record.
pub proof fn lemma_range_compression(a: AnimationView)
    requires
        a.wf(),
        is_asc_run(a.frames) || is_desc_run(a.frames),
        a.frames.len() >= 2,
    ensures
        anim_pixels(a).len() == 4,
        is_op(anim_pixels(a)[0], MetapixelType::AnimationType),
        is_op(anim_pixels(a)[1], MetapixelType::AnimationDelay),
        is_op(anim_pixels(a)[2], MetapixelType::AnimationLoop),
        anim_pixels(a)[3] == crate::metapixels::mp(
            MetapixelType::AnimationFramePeriod,
            a.frames.first() as u8,
            a.frames.last() as u8,
        ),
{
    lemma_op_u8_roundtrip(MetapixelType::AnimationType);
    lemma_op_u8_roundtrip(MetapixelType::AnimationDelay);
    lemma_op_u8_roundtrip(MetapixelType::AnimationLoop);
}

/// The stem of an element file, split into the element's name and the art
/// area size carried by the filename's `_w_h` suffix, if any.
#[derive(Debug)]
pub struct HatNameAndSize {
    pub name: String,
    pub size: Option<IVec2>,
}

/// A pixel that contributes a record to the metapixel stream: present
/// (alpha not zero) and carrying a valid opcode ordinal in its red channel.
pub open spec fn pixel_valid(p: Pixel) -> bool {
    p.a != 0 && valid_op(p.r)
}

/// The record a contributing pixel carries.
pub open spec fn record_of(p: Pixel) -> Metapixel {
    Metapixel { r: p.r, g: p.g, b: p.b }
}

/// The records of a pixel sequence, in order: one per contributing pixel;
/// absent pixels and unknown red channels are skipped.
pub open spec fn decode_pixels(ps: Seq<Pixel>) -> Seq<Metapixel>
    decreases ps.len(),
{
    if ps.len() == 0 {
        Seq::empty()
    } else {
        decode_pixels(ps.drop_last()) + if pixel_valid(ps.last()) {
            seq![record_of(ps.last())]
        } else {
            Seq::empty()
        }
    }
}

/// The pixels of the metapixel area of an image: the columns from `x0` to
/// the right edge, read column-major, top to bottom.
pub open spec fn region_pixels(img: Image, x0: int) -> Seq<Pixel> {
    if 0 <= x0 < img.width && img.height > 0 {
        Seq::new(
            ((img.width - x0) * img.height) as nat,
            |k: int| img.pixel_at(x0 + k / (img.height as int), k % (img.height as int)),
        )
    } else {
        Seq::empty()
    }
}

/// Unknown-opcode tolerance: inserting a pixel that contributes no record —
/// an absent pixel or one whose red channel is outside the opcode range —
/// anywhere in a pixel stream leaves the decoded records unchanged.
pub proof fn lemma_unknown_pixel_tolerance(ps: Seq<Pixel>, i: int, bad: Pixel)
    requires
        0 <= i <= ps.len(),
        !pixel_valid(bad),
    ensures
        decode_pixels(ps.insert(i, bad)) == decode_pixels(ps),
    decreases ps.len(),
{
    let t = ps.insert(i, bad);
    if i == ps.len() {
        assert(t.drop_last() =~= ps);
        assert(t.last() == bad);
        assert(decode_pixels(t) =~= decode_pixels(ps));
    } else {
        assert(t.drop_last() =~= ps.drop_last().insert(i, bad));
        assert(t.last() == ps.last());
        lemma_unknown_pixel_tolerance(ps.drop_last(), i, bad);
    }
}

/// Unknown-opcode tolerance carries over to the decoded animations: the
/// animation parsed at any position of the record stream is the same with
/// or without the inserted pixel.
pub proof fn lemma_unknown_pixel_tolerance_animations(ps: Seq<Pixel>, i: int, bad: Pixel, j: int)
    requires
        0 <= i <= ps.len(),
        !pixel_valid(bad),
    ensures
        parse_anim_at(decode_pixels(ps.insert(i, bad)), j) == parse_anim_at(decode_pixels(ps), j),
{
    lemma_unknown_pixel_tolerance(ps, i, bad);
}

/// Reads the metapixel records of an image: the columns right of the art
/// area, column-major, keeping exactly the contributing pixels.
pub fn get_metapixels(bitmap: &Image, size: IVec2) -> (r: Vec<Metapixel>)
    requires
        bitmap.wf(),
        0 <= size.x,
        bitmap.width <= i32::MAX,
        bitmap.height <= i32::MAX,
    ensures
        r@ == decode_pixels(region_pixels(*bitmap, size.x as int)),
{
    let ghost x0 = size.x as int;
    let ghost region = region_pixels(*bitmap, x0);
    let mut out: Vec<Metapixel> = Vec::new();
    let w = bitmap.width;
    let h = bitmap.height;
    if h == 0 || size.x as u32 >= w {
        assert(region =~= Seq::<Pixel>::empty());
        return out;
    }
    let x0u: u32 = size.x as u32;
    let ghost total = (w - x0u) * h;
    proof {
        assert(region.len() == total);
    }
    let mut x: u32 = x0u;
    while x < w
        invariant
            bitmap.wf(),
            w == bitmap.width,
            h == bitmap.height,
            h > 0,
            w <= i32::MAX,
            h <= i32::MAX,
            x0u <= x <= w,
            x0 == x0u as int,
            0 <= x0 < w,
            region == region_pixels(*bitmap, x0),
            region.len() == (w - x0u) * h,
            out@ == decode_pixels(region.take((x - x0u) * h)),
        decreases w - x,
    {
        let mut y: u32 = 0;
        proof {
            assert((x - x0u) * h + 0 == (x - x0u) * h);
        }
        while y < h
            invariant
                bitmap.wf(),
                w == bitmap.width,
                h == bitmap.height,
                h > 0,
                w <= i32::MAX,
                h <= i32::MAX,
                x0u <= x < w,
                x0 == x0u as int,
                0 <= x0 < w,
                y <= h,
                region == region_pixels(*bitmap, x0),
                region.len() == (w - x0u) * h,
                out@ == decode_pixels(region.take((x - x0u) * h + y)),
            decreases h - y,
        {
            let ghost k = (x - x0u) * h + y;
            proof {
                assert(0 <= k && k + 1 <= region.len()) by (nonlinear_arith)
                    requires
                        k == (x - x0u) * h + y,
                        region.len() == (w - x0u) * h,
                        x0u <= x < w,
                        0 <= y < h,
                ;
                vstd::arithmetic::div_mod::lemma_fundamental_div_mod_converse(
                    k,
                    h as int,
                    (x - x0u) as int,
                    y as int,
                );
                assert(region[k] == bitmap.pixel_at(x as int, y as int));
                assert(region.take(k + 1).drop_last() =~= region.take(k));
                assert(region.take(k + 1).last() == region[k]);
            }
            match bitmap.get_pixel(x as i32, y as i32) {
                Some(pixel) => {
                    if !pixel.is_empty() {
                        match Metapixel::new(pixel.r, pixel.g, pixel.b) {
                            Some(m) => out.push(m),
                            None => {},
                        }
                    }
                },
                None => {},
            }
            proof {
                assert(out@ =~= decode_pixels(region.take(k + 1)));
            }
            y = y + 1;
        }
        proof {
            assert((x - x0u) * h + h == (x + 1 - x0u) * h) by (nonlinear_arith)
                requires
                    x0u <= x,
            ;
        }
        x = x + 1;
    }
    proof {
        assert(region.take((w - x0u) * h) =~= region);
    }
    out
}

/// Splits an image into its art area and its metapixel records: the art
/// area size comes from the filename suffix, or is the whole image when the
/// filename carries none; the records come from the columns right of it.
pub fn get_metapixels_and_size(bitmap: &Image, name_and_size: &HatNameAndSize) -> (r: (
    Vec<Metapixel>,
    IVec2,
))
    requires
        bitmap.wf(),
        bitmap.width <= i32::MAX,
        bitmap.height <= i32::MAX,
        match name_and_size.size {
            Some(s) => s.x > 0 && s.y > 0,
            None => true,
        },
    ensures
        r.1 == match name_and_size.size {
            Some(s) => s,
            None => IVec2 { x: bitmap.width as i32, y: bitmap.height as i32 },
        },
        r.0@ == decode_pixels(region_pixels(*bitmap, r.1.x as int)),
{
    let size = match name_and_size.size {
        Some(s) => s,
        None => IVec2::new(bitmap.width as i32, bitmap.height as i32),
    };
    let metapixels = get_metapixels(bitmap, size);
    (metapixels, size)
}

/// What splitting a file stem yields: the element name and, when the stem
/// has at least three `_`-separated segments whose second and third parse
/// as positive numbers, the art area size they give. Any further segments
/// are ignored; when no size is read, the name is the whole stem.
pub open spec fn spec_name_and_size(s: Seq<char>) -> (Seq<char>, Option<(int, int)>) {
    match find_from(s, '_', 0) {
        None => (s, None::<(int, int)>),
        Some(u1) => match find_from(s, '_', u1 + 1) {
            None => (s, None::<(int, int)>),
            Some(u2) => {
                let end3 = match find_from(s, '_', u2 + 1) {
                    Some(u3) => u3,
                    None => s.len() as int,
                };
                let seg2 = s.subrange(u1 + 1, u2);
                let seg3 = s.subrange(u2 + 1, end3);
                match (spec_parse_pos(seg2), spec_parse_pos(seg3)) {
                    (Some(x), Some(y)) => if x > 0 && y > 0 {
                        (s.subrange(0, u1), Some((x as int, y as int)))
                    } else {
                        (s, None::<(int, int)>)
                    },
                    _ => (s, None::<(int, int)>),
                }
            },
        },
    }
}

/// Splits a file stem into the element name and the art area size carried
/// by a `_w_h` suffix, exactly as `spec_name_and_size` describes.
pub fn get_name_and_size(name: &str) -> (r: HatNameAndSize)
    ensures
        r.name@ == spec_name_and_size(name@).0,
        match (r.size, spec_name_and_size(name@).1) {
            (Some(v), Some(p)) => v.x == p.0 && v.y == p.1,
            (None, None) => true,
            _ => false,
        },
{
    let n = name.unicode_len();
    proof {
        lemma_find_from_bounds(name@, '_', 0);
    }
    let u1 = match find_char_from(name, '_', 0) {
        Some(i) => i,
        None => {
            return HatNameAndSize { name: name.to_owned(), size: None };
        },
    };
    proof {
        lemma_find_from_bounds(name@, '_', u1 + 1);
    }
    let u2 = match find_char_from(name, '_', u1 + 1) {
        Some(i) => i,
        None => {
            return HatNameAndSize { name: name.to_owned(), size: None };
        },
    };
    proof {
        lemma_find_from_bounds(name@, '_', u2 + 1);
    }
    let end3 = match find_char_from(name, '_', u2 + 1) {
        Some(i) => i,
        None => n,
    };
    let seg2 = name.substring_char(u1 + 1, u2);
    let seg3 = name.substring_char(u2 + 1, end3);
    let x = match parse_pos_i32(seg2) {
        Some(x) => x,
        None => {
            return HatNameAndSize { name: name.to_owned(), size: None };
        },
    };
    let y = match parse_pos_i32(seg3) {
        Some(y) => y,
        None => {
            return HatNameAndSize { name: name.to_owned(), size: None };
        },
    };
    if x > 0 && y > 0 {
        let head = name.substring_char(0, u1);
        HatNameAndSize { name: head.to_owned(), size: Some(IVec2::new(x, y)) }
    } else {
        HatNameAndSize { name: name.to_owned(), size: None }
    }
}

/// Filename parsing totality: for a non-empty stem — one that does not
/// start with an underscore directly followed by a parsable size — the
/// split yields a non-empty name, and any size it yields is positive in
/// both components.
pub proof fn lemma_name_and_size_totality(s: Seq<char>)
    requires
        s.len() > 0,
        !(spec_name_and_size(s).1 is Some && s[0] == '_'),
    ensures
        spec_name_and_size(s).0.len() > 0,
        match spec_name_and_size(s).1 {
            Some(p) => p.0 > 0 && p.1 > 0,
            None => true,
        },
{
    lemma_find_from_bounds(s, '_', 0);
    if spec_name_and_size(s).1 is Some {
        let u1 = find_from(s, '_', 0).unwrap();
        assert(s[0] != '_');
        assert(u1 >= 1) by {
            if u1 == 0 {
                assert(s[0] == '_');
            }
        }
        assert(spec_name_and_size(s).0.len() == u1);
    }
}

/// Frame indices taken from a period record lie in one byte.
proof fn lemma_range_seq_bytes(start: int, end: int)
    requires
        0 <= start <= 255,
        0 <= end <= 255,
    ensures
        forall|k: int|
            0 <= k < range_seq(start, end).len() ==> 0 <= #[trigger] range_seq(start, end)[k]
                <= 255,
{
}

/// Frame indices taken from a run of frame records lie in one byte.
proof fn lemma_frame_run_bytes(s: Seq<Metapixel>, i: int)
    requires
        0 <= i <= s.len(),
    ensures
        forall|k: int| 0 <= k < frame_run(s, i).len() ==> 0 <= #[trigger] frame_run(s, i)[k] <= 255,
    decreases s.len() - i,
{
    if i < s.len() && is_op(s[i], MetapixelType::AnimationFrame) {
        lemma_frame_run_bytes(s, i + 1);
        assert forall|k: int| 0 <= k < frame_run(s, i).len() implies 0 <= #[trigger] frame_run(
            s,
            i,
        )[k] <= 255 by {
            if k > 0 {
                assert(frame_run(s, i)[k] == frame_run(s, i + 1)[k - 1]);
            }
        }
    }
}

/// A parsed animation is serialisable again: its delay and frame indices
/// all fit in one byte.
pub proof fn lemma_parse_anim_wf(s: Seq<Metapixel>, i: int)
    ensures
        match parse_anim_at(s, i) {
            Some(a) => a.wf(),
            None => true,
        },
{
    if parse_anim_at(s, i) is Some {
        if is_op(s[i + 3], MetapixelType::AnimationFramePeriod) {
            lemma_range_seq_bytes(s[i + 3].g as int, s[i + 3].b as int);
        } else {
            lemma_frame_run_bytes(s, i + 3);
        }
    }
}

/// The animations serialised in the first `k` records of a stream, in
/// order of their anchors.
pub open spec fn anims_upto(s: Seq<Metapixel>, k: int) -> Seq<AnimationView>
    decreases k,
    when 0 <= k <= s.len()
{
    if k <= 0 {
        Seq::empty()
    } else {
        anims_upto(s, k - 1) + match parse_anim_at(s, k - 1) {
            Some(a) => seq![a],
            None => Seq::empty(),
        }
    }
}

/// All animations serialised in a stream, in order of their anchors.
pub open spec fn anims_of(s: Seq<Metapixel>) -> Seq<AnimationView> {
    anims_upto(s, s.len() as int)
}

/// Decodes every animation of the stream: one for each `AnimationType`
/// record at which a full animation parses, in order.
pub fn collect_animations(metapixels: &[Metapixel], ids: &mut IdSource) -> (r: Vec<Animation>)
    ensures
        old(ids).next <= final(ids).next,
        anim_views(r@) == anims_of(metapixels@),
        forall|k: int| 0 <= k < r@.len() ==> (#[trigger] r@[k])@.wf(),
{
    let ghost s = metapixels@;
    let n = metapixels.len();
    let mut out: Vec<Animation> = Vec::new();
    let mut i: usize = 0;
    while i < n
        invariant
            old(ids).next <= ids.next,
            s == metapixels@,
            n == s.len(),
            0 <= i <= n,
            anim_views(out@) == anims_upto(s, i as int),
            forall|k: int| 0 <= k < out@.len() ==> (#[trigger] out@[k])@.wf(),
        decreases n - i,
    {
        let is_anchor = match MetapixelType::from_u8(metapixels[i].r) {
            Some(MetapixelType::AnimationType) => true,
            _ => false,
        };
        if is_anchor {
            match get_animation(metapixels, i, ids) {
                Some(anim) => {
                    proof {
                        lemma_parse_anim_wf(s, i as int);
                    }
                    out.push(anim);
                },
                None => {},
            }
        } else {
            proof {
                assert(parse_anim_at(s, i as int) is None);
            }
        }
        proof {
            assert(anim_views(out@) =~= anims_upto(s, i + 1));
        }
        i = i + 1;
    }
    out
}

/// Area split determinism: an image of width `w + k` whose filename gives
/// an art area `w` columns wide splits into exactly `w` art columns and a
/// metapixel area of `k` columns — `k * height` pixels read column-major.
pub proof fn lemma_area_split(img: Image, w: int, k: int)
    requires
        img.height >= 1,
        1 <= w <= img.width,
        k >= 0,
        img.width == w + k,
    ensures
        region_pixels(img, w).len() == k * img.height,
{
    if w < img.width {
        assert(region_pixels(img, w).len() == (img.width - w) * img.height);
    } else {
        assert(k == 0);
        assert(region_pixels(img, w).len() == 0);
        assert(k * img.height == 0) by (nonlinear_arith)
            requires
                k == 0,
        ;
    }
}

} // verus!
