//! Binary codec for the stream ("anmstrm") format: bit-exact readers for
//! the stream header asset and for its per-frame snapshot assets. Every
//! multi-byte integer is big-endian; the entry-kind code selects each
//! entry's payload shape; an unknown code is a fatal decode error.

use vstd::prelude::*;
use crate::anm::{AnmCoord, Vector3, Vector4};
use crate::anmstrm::{
    AnmEntryAmbient,
    AnmEntryBone,
    AnmEntryCamera,
    AnmEntryLightDirc,
    AnmEntryLightPoint,
    AnmEntryMaterial,
    AnmEntryMorphModel,
    AnmEntryMorphModelView,
    AnmStrmClump,
    AnmStrmClumpView,
    AnmStrmEntry,
    AnmStrmEntryView,
    AnmStrmFrameInfo,
    Entry,
    EntryView,
    NuccAnmStrm,
    NuccAnmStrmFrame,
    NuccAnmStrmFrameView,
    NuccAnmStrmView,
};
use crate::bytes::{
    parse_i16_at,
    parse_i32_at,
    parse_u16_at,
    parse_u32_at,
    read_i16,
    read_i32,
    read_u16,
    read_u32,
};
use crate::codec::{
    coord_parent_parser,
    coord_parent_ser_fn,
    decode_coord_parent_list,
    decode_u32_elem_list,
    encode_coord_parent_list,
    encode_u32_elem_list,
    lemma_ser_seq_snoc,
    parse_n,
    ser_seq,
    u32_elem_parser,
    u32_elem_ser_fn,
};
use crate::bytes::{push_i16, push_i32, push_u16, push_u32, ser_i16, ser_i32, ser_u16, ser_u32};

verus! {

/// The frame-info record starting at `pos`.
pub open spec fn parse_frame_info(b: Seq<u8>, pos: int) -> Option<(AnmStrmFrameInfo, int)> {
    if pos + 6 <= b.len() {
        Some(
            (
                AnmStrmFrameInfo {
                    frame_offset: parse_u32_at(b, pos),
                    frame_number: parse_u16_at(b, pos + 4),
                },
                pos + 6,
            ),
        )
    } else {
        None
    }
}

/// The frame-info parser, as a function value.
pub open spec fn frame_info_parser() -> spec_fn(Seq<u8>, int) -> Option<(AnmStrmFrameInfo, int)> {
    |b: Seq<u8>, pos: int| parse_frame_info(b, pos)
}

/// Decode `n` consecutive frame-info records.
fn decode_frame_info_list(b: &Vec<u8>, pos: usize, n: usize) -> (r: Option<
    (Vec<AnmStrmFrameInfo>, usize),
>)
    requires
        pos <= b@.len(),
    ensures
        match r {
            Some(p) => parse_n(b@, pos as int, n as int, frame_info_parser()) == Some(
                (p.0@, p.1 as int),
            ) && pos <= p.1 <= b@.len(),
            None => parse_n(b@, pos as int, n as int, frame_info_parser()) is None,
        },
{
    let mut out: Vec<AnmStrmFrameInfo> = Vec::new();
    let mut i: usize = 0;
    let mut cur: usize = pos;
    while i < n
        invariant
            pos <= cur <= b@.len(),
            i <= n,
            parse_n(b@, pos as int, n as int, frame_info_parser()) == (match parse_n(
                b@,
                cur as int,
                (n - i) as int,
                frame_info_parser(),
            ) {
                Some(q) => Some((out@ + q.0, q.1)),
                None => None::<(Seq<AnmStrmFrameInfo>, int)>,
            }),
        decreases n - i,
    {
        proof {
            vstd::std_specs::vec::axiom_spec_len(b);
        }
        if b.len() < 6 || cur > b.len() - 6 {
            proof {
                assert(parse_frame_info(b@, cur as int) is None);
            }
            return None;
        }
        let x = AnmStrmFrameInfo { frame_offset: read_u32(b, cur), frame_number: read_u16(
            b,
            cur + 4,
        ) };
        proof {
            assert(parse_frame_info(b@, cur as int) == Some((x, cur as int + 6)));
            let prev = out@;
            match parse_n(b@, cur as int + 6, (n - i) as int - 1, frame_info_parser()) {
                Some(q) => {
                    assert(prev + (seq![x] + q.0) =~= prev.push(x) + q.0);
                },
                None => {},
            }
        }
        out.push(x);
        cur += 6;
        i += 1;
    }
    proof {
        assert(out@ + Seq::<AnmStrmFrameInfo>::empty() =~= out@);
    }
    Some((out, cur))
}

/// The stream clump starting at `pos`: like the clip clump, with one
/// extra index list of the model count's length.
pub open spec fn parse_strm_clump(b: Seq<u8>, pos: int) -> Option<(AnmStrmClumpView, int)> {
    if pos + 8 <= b.len() {
        let ci = parse_u32_at(b, pos);
        let bmc = parse_u16_at(b, pos + 4);
        let mc = parse_u16_at(b, pos + 6);
        match parse_n(b, pos + 8, bmc as int, u32_elem_parser()) {
            Some((bmi, p2)) => match parse_n(b, p2, mc as int, u32_elem_parser()) {
                Some((mi, p3)) => match parse_n(b, p3, mc as int, u32_elem_parser()) {
                    Some((un, p4)) => Some(
                        (
                            AnmStrmClumpView {
                                clump_index: ci,
                                bone_material_count: bmc,
                                model_count: mc,
                                bone_material_indices: bmi,
                                model_indices: mi,
                                unknown: un,
                            },
                            p4,
                        ),
                    ),
                    None => None,
                },
                None => None,
            },
            None => None,
        }
    } else {
        None
    }
}

/// The stream clump parser, as a function value.
pub open spec fn strm_clump_parser() -> spec_fn(Seq<u8>, int) -> Option<(AnmStrmClumpView, int)> {
    |b: Seq<u8>, pos: int| parse_strm_clump(b, pos)
}

/// Decode one stream clump.
fn decode_strm_clump(b: &Vec<u8>, pos: usize) -> (r: Option<(AnmStrmClump, usize)>)
    requires
        pos <= b@.len(),
    ensures
        match r {
            Some(p) => parse_strm_clump(b@, pos as int) == Some((p.0@, p.1 as int)) && pos <= p.1
                <= b@.len(),
            None => parse_strm_clump(b@, pos as int) is None,
        },
{
    proof {
        vstd::std_specs::vec::axiom_spec_len(b);
    }
    if b.len() < 8 || pos > b.len() - 8 {
        return None;
    }
    let ci = read_u32(b, pos);
    let bmc = read_u16(b, pos + 4);
    let mc = read_u16(b, pos + 6);
    match decode_u32_elem_list(b, pos + 8, bmc as usize) {
        Some((bmi, p2)) => match decode_u32_elem_list(b, p2, mc as usize) {
            Some((mi, p3)) => match decode_u32_elem_list(b, p3, mc as usize) {
                Some((un, p4)) => Some(
                    (
                        AnmStrmClump {
                            clump_index: ci,
                            bone_material_count: bmc,
                            model_count: mc,
                            bone_material_indices: bmi,
                            model_indices: mi,
                            unknown: un,
                        },
                        p4,
                    ),
                ),
                None => None,
            },
            None => None,
        },
        None => None,
    }
}

/// Decode `n` consecutive stream clumps.
fn decode_strm_clump_list(b: &Vec<u8>, pos: usize, n: usize) -> (r: Option<
    (Vec<AnmStrmClump>, usize),
>)
    requires
        pos <= b@.len(),
    ensures
        match r {
            Some(p) => parse_n(b@, pos as int, n as int, strm_clump_parser()) == Some(
                (p.0@.map_values(|c: AnmStrmClump| c@), p.1 as int),
            ) && pos <= p.1 <= b@.len(),
            None => parse_n(b@, pos as int, n as int, strm_clump_parser()) is None,
        },
{
    let mut out: Vec<AnmStrmClump> = Vec::new();
    let mut i: usize = 0;
    let mut cur: usize = pos;
    while i < n
        invariant
            pos <= cur <= b@.len(),
            i <= n,
            parse_n(b@, pos as int, n as int, strm_clump_parser()) == (match parse_n(
                b@,
                cur as int,
                (n - i) as int,
                strm_clump_parser(),
            ) {
                Some(q) => Some((out@.map_values(|c: AnmStrmClump| c@) + q.0, q.1)),
                None => None::<(Seq<AnmStrmClumpView>, int)>,
            }),
        decreases n - i,
    {
        match decode_strm_clump(b, cur) {
            Some((c, p2)) => {
                proof {
                    let prev = out@.map_values(|c: AnmStrmClump| c@);
                    match parse_n(b@, p2 as int, (n - i) as int - 1, strm_clump_parser()) {
                        Some(q) => {
                            assert(prev + (seq![c@] + q.0) =~= prev.push(c@) + q.0);
                        },
                        None => {},
                    }
                }
                out.push(c);
                cur = p2;
            },
            None => {
                return None;
            },
        }
        i += 1;
    }
    proof {
        assert(out@.map_values(|c: AnmStrmClump| c@) + Seq::<AnmStrmClumpView>::empty()
            =~= out@.map_values(|c: AnmStrmClump| c@));
    }
    Some((out, cur))
}

/// Decode a whole stream header asset from the start of a buffer;
/// trailing bytes are ignored.
pub fn decode_anm_strm(b: &Vec<u8>) -> (r: Option<NuccAnmStrm>)
    ensures
        match r {
            Some(a) => parse_anm_strm(b@) matches Some(q) && q.0 == a@,
            None => parse_anm_strm(b@) is None,
        },
{
    proof {
        vstd::std_specs::vec::axiom_spec_len(b);
    }
    if b.len() < 20 {
        return None;
    }
    let anm_length = read_u32(b, 0);
    let frame_size = read_u32(b, 4);
    let frame_count = read_u16(b, 8);
    let is_looped = read_u16(b, 10);
    let clump_count = read_u16(b, 12);
    let other_entry_count = read_u16(b, 14);
    let other_index_count = read_u16(b, 16);
    let coord_count = read_u16(b, 18);
    match decode_strm_clump_list(b, 20, clump_count as usize) {
        Some((clumps, p1)) => match decode_u32_elem_list(
            b,
            p1,
            other_entry_count as usize + other_index_count as usize,
        ) {
            Some((oei, p2)) => match decode_coord_parent_list(b, p2, coord_count as usize) {
                Some((cps, p3)) => match decode_frame_info_list(b, p3, frame_count as usize) {
                    Some((fis, p4)) => {
                        let a = NuccAnmStrm {
                            anm_length: anm_length,
                            frame_size: frame_size,
                            frame_count: frame_count,
                            is_looped: is_looped,
                            clump_count: clump_count,
                            other_entry_count: other_entry_count,
                            other_index_count: other_index_count,
                            coord_count: coord_count,
                            clumps: clumps,
                            other_entries_indices: oei,
                            coord_parents: cps,
                            frames: fis,
                        };
                        proof {
                            assert(parse_anm_strm(b@) == Some((a@, p4 as int)));
                        }
                        Some(a)
                    },
                    None => None,
                },
                None => None,
            },
            None => None,
        },
        None => None,
    }
}

/// The whole stream header asset, parsed from the start of the buffer.
pub open spec fn parse_anm_strm(b: Seq<u8>) -> Option<(NuccAnmStrmView, int)> {
    if 20 <= b.len() {
        let anm_length = parse_u32_at(b, 0);
        let frame_size = parse_u32_at(b, 4);
        let frame_count = parse_u16_at(b, 8);
        let is_looped = parse_u16_at(b, 10);
        let clump_count = parse_u16_at(b, 12);
        let other_entry_count = parse_u16_at(b, 14);
        let other_index_count = parse_u16_at(b, 16);
        let coord_count = parse_u16_at(b, 18);
        match parse_n(b, 20, clump_count as int, strm_clump_parser()) {
            Some((clumps, p1)) => match parse_n(
                b,
                p1,
                other_entry_count + other_index_count,
                u32_elem_parser(),
            ) {
                Some((oei, p2)) => match parse_n(b, p2, coord_count as int, coord_parent_parser()) {
                    Some((cps, p3)) => match parse_n(b, p3, frame_count as int, frame_info_parser()) {
                        Some((fis, p4)) => Some(
                            (
                                NuccAnmStrmView {
                                    anm_length: anm_length,
                                    frame_size: frame_size,
                                    frame_count: frame_count,
                                    is_looped: is_looped,
                                    clump_count: clump_count,
                                    other_entry_count: other_entry_count,
                                    other_index_count: other_index_count,
                                    coord_count: coord_count,
                                    clumps: clumps,
                                    other_entries_indices: oei,
                                    coord_parents: cps,
                                    frames: fis,
                                },
                                p4,
                            ),
                        ),
                        None => None,
                    },
                    None => None,
                },
                None => None,
            },
            None => None,
        }
    } else {
        None
    }
}

/// The material payload with the given frame count and channel values.
pub open spec fn material_with(fc: i32, ch: Seq<u32>) -> AnmEntryMaterial {
    choose|m: AnmEntryMaterial| m.frame_count == fc && m.ambient_color@ == ch
}

/// The sixteen channel values starting at `pos`.
pub open spec fn parse_channels(b: Seq<u8>, pos: int) -> Seq<u32> {
    Seq::new(16, |k: int| parse_u32_at(b, pos + 4 * k))
}

/// The entry payload starting at `pos`, its shape selected by the
/// entry-kind code; an unknown code fails.
#[verifier::opaque]
pub open spec fn parse_entry_data(b: Seq<u8>, pos: int, fmt: u16) -> Option<(EntryView, int)> {
    if fmt == 1 {
        if pos + 48 <= b.len() {
            Some(
                (
                    EntryView::Bone(
                        AnmEntryBone {
                            frame_count: parse_i32_at(b, pos),
                            location: parse_vec3_at(b, pos + 4),
                            rotation: parse_vec4_at(b, pos + 16),
                            scale: parse_vec3_at(b, pos + 32),
                            toggled: parse_u32_at(b, pos + 44),
                        },
                    ),
                    pos + 48,
                ),
            )
        } else {
            None
        }
    } else if fmt == 2 {
        if pos + 48 <= b.len() {
            Some(
                (
                    EntryView::Camera(
                        AnmEntryCamera {
                            frame_count: parse_i32_at(b, pos),
                            location: parse_vec3_at(b, pos + 4),
                            rotation: parse_vec4_at(b, pos + 16),
                            fov: parse_u32_at(b, pos + 32),
                            scale: parse_vec3_at(b, pos + 36),
                        },
                    ),
                    pos + 48,
                ),
            )
        } else {
            None
        }
    } else if fmt == 4 {
        if pos + 68 <= b.len() {
            Some(
                (
                    EntryView::Material(
                        material_with(parse_i32_at(b, pos), parse_channels(b, pos + 4)),
                    ),
                    pos + 68,
                ),
            )
        } else {
            None
        }
    } else if fmt == 5 {
        if pos + 36 <= b.len() {
            Some(
                (
                    EntryView::LightDirc(
                        AnmEntryLightDirc {
                            frame_count: parse_i32_at(b, pos),
                            color: parse_vec3_at(b, pos + 4),
                            intensity: parse_u32_at(b, pos + 16),
                            direction: parse_vec4_at(b, pos + 20),
                        },
                    ),
                    pos + 36,
                ),
            )
        } else {
            None
        }
    } else if fmt == 6 {
        if pos + 40 <= b.len() {
            Some(
                (
                    EntryView::LightPoint(
                        AnmEntryLightPoint {
                            frame_count: parse_i32_at(b, pos),
                            color: parse_vec3_at(b, pos + 4),
                            position: parse_vec3_at(b, pos + 16),
                            intensity: parse_u32_at(b, pos + 28),
                            radius: parse_u32_at(b, pos + 32),
                            falloff: parse_u32_at(b, pos + 36),
                        },
                    ),
                    pos + 40,
                ),
            )
        } else {
            None
        }
    } else if fmt == 8 {
        if pos + 20 <= b.len() {
            Some(
                (
                    EntryView::Ambient(
                        AnmEntryAmbient {
                            frame_count: parse_i32_at(b, pos),
                            color: parse_vec3_at(b, pos + 4),
                            intensity: parse_u32_at(b, pos + 16),
                        },
                    ),
                    pos + 20,
                ),
            )
        } else {
            None
        }
    } else if fmt == 12 {
        if pos + 4 <= b.len() {
            let fc = parse_i32_at(b, pos);
            if fc < 0 {
                None
            } else {
                match parse_n(b, pos + 4, fc as int, u32_elem_parser()) {
                    Some((ws, p2)) => Some(
                        (
                            EntryView::MorphModel(
                                AnmEntryMorphModelView { frame_count: fc, morph_weight: ws },
                            ),
                            p2,
                        ),
                    ),
                    None => None,
                }
            }
        } else {
            None
        }
    } else {
        None
    }
}

/// The 3-vector of raw float bits starting at `pos`.
pub open spec fn parse_vec3_at(b: Seq<u8>, pos: int) -> Vector3 {
    Vector3 { x: parse_u32_at(b, pos), y: parse_u32_at(b, pos + 4), z: parse_u32_at(b, pos + 8) }
}

/// The 4-vector of raw float bits starting at `pos`.
pub open spec fn parse_vec4_at(b: Seq<u8>, pos: int) -> Vector4 {
    Vector4 {
        x: parse_u32_at(b, pos),
        y: parse_u32_at(b, pos + 4),
        z: parse_u32_at(b, pos + 8),
        w: parse_u32_at(b, pos + 12),
    }
}

/// Read a 3-vector of raw float bits.
fn read_vec3(b: &Vec<u8>, pos: usize) -> (r: Vector3)
    requires
        pos + 12 <= b@.len(),
    ensures
        r == parse_vec3_at(b@, pos as int),
{
    proof {
        vstd::std_specs::vec::axiom_spec_len(b);
    }
    Vector3 { x: read_u32(b, pos), y: read_u32(b, pos + 4), z: read_u32(b, pos + 8) }
}

/// Read a 4-vector of raw float bits.
fn read_vec4(b: &Vec<u8>, pos: usize) -> (r: Vector4)
    requires
        pos + 16 <= b@.len(),
    ensures
        r == parse_vec4_at(b@, pos as int),
{
    proof {
        vstd::std_specs::vec::axiom_spec_len(b);
    }
    Vector4 {
        x: read_u32(b, pos),
        y: read_u32(b, pos + 4),
        z: read_u32(b, pos + 8),
        w: read_u32(b, pos + 12),
    }
}

/// Decode one entry payload under its entry-kind code.
fn decode_entry_data(b: &Vec<u8>, pos: usize, fmt: u16) -> (r: Option<(Entry, usize)>)
    requires
        pos <= b@.len(),
    ensures
        match r {
            Some(p) => parse_entry_data(b@, pos as int, fmt) == Some((p.0@, p.1 as int)) && pos
                <= p.1 <= b@.len(),
            None => parse_entry_data(b@, pos as int, fmt) is None,
        },
{
    proof {
        vstd::std_specs::vec::axiom_spec_len(b);
        reveal(parse_entry_data);
    }
    if fmt == 1 {
        if b.len() < 48 || pos > b.len() - 48 {
            return None;
        }
        Some(
            (
                Entry::Bone(
                    AnmEntryBone {
                        frame_count: read_i32(b, pos),
                        location: read_vec3(b, pos + 4),
                        rotation: read_vec4(b, pos + 16),
                        scale: read_vec3(b, pos + 32),
                        toggled: read_u32(b, pos + 44),
                    },
                ),
                pos + 48,
            ),
        )
    } else if fmt == 2 {
        if b.len() < 48 || pos > b.len() - 48 {
            return None;
        }
        Some(
            (
                Entry::Camera(
                    AnmEntryCamera {
                        frame_count: read_i32(b, pos),
                        location: read_vec3(b, pos + 4),
                        rotation: read_vec4(b, pos + 16),
                        fov: read_u32(b, pos + 32),
                        scale: read_vec3(b, pos + 36),
                    },
                ),
                pos + 48,
            ),
        )
    } else if fmt == 4 {
        if b.len() < 68 || pos > b.len() - 68 {
            return None;
        }
        let mut arr: [u32; 16] = [0; 16];
        let mut k: usize = 0;
        while k < 16
            invariant
                k <= 16,
                pos + 68 <= b@.len(),
                forall|j: int| 0 <= j < k ==> arr@[j] == parse_u32_at(b@, pos + 4 + 4 * j),
            decreases 16 - k,
        {
            broadcast use vstd::array::group_array_axioms;

            proof {
                vstd::std_specs::vec::axiom_spec_len(b);
            }
            arr[k] = read_u32(b, pos + 4 + 4 * k);
            k += 1;
        }
        let m = AnmEntryMaterial { frame_count: read_i32(b, pos), ambient_color: arr };
        proof {
            broadcast use vstd::array::group_array_axioms;

            let ch = parse_channels(b@, pos as int + 4);
            assert(m.ambient_color@ =~= ch);
            let c = material_with(m.frame_count, ch);
            assert(c.frame_count == m.frame_count && c.ambient_color@ == ch) by {
                assert(m.frame_count == m.frame_count && m.ambient_color@ == ch);
            }
            assert(c.ambient_color@ =~= m.ambient_color@);
            assert(c.ambient_color == m.ambient_color);
            assert(c == m);
        }
        Some((Entry::Material(m), pos + 68))
    } else if fmt == 5 {
        if b.len() < 36 || pos > b.len() - 36 {
            return None;
        }
        Some(
            (
                Entry::LightDirc(
                    AnmEntryLightDirc {
                        frame_count: read_i32(b, pos),
                        color: read_vec3(b, pos + 4),
                        intensity: read_u32(b, pos + 16),
                        direction: read_vec4(b, pos + 20),
                    },
                ),
                pos + 36,
            ),
        )
    } else if fmt == 6 {
        if b.len() < 40 || pos > b.len() - 40 {
            return None;
        }
        Some(
            (
                Entry::LightPoint(
                    AnmEntryLightPoint {
                        frame_count: read_i32(b, pos),
                        color: read_vec3(b, pos + 4),
                        position: read_vec3(b, pos + 16),
                        intensity: read_u32(b, pos + 28),
                        radius: read_u32(b, pos + 32),
                        falloff: read_u32(b, pos + 36),
                    },
                ),
                pos + 40,
            ),
        )
    } else if fmt == 8 {
        if b.len() < 20 || pos > b.len() - 20 {
            return None;
        }
        Some(
            (
                Entry::Ambient(
                    AnmEntryAmbient {
                        frame_count: read_i32(b, pos),
                        color: read_vec3(b, pos + 4),
                        intensity: read_u32(b, pos + 16),
                    },
                ),
                pos + 20,
            ),
        )
    } else if fmt == 12 {
        if b.len() < 4 || pos > b.len() - 4 {
            return None;
        }
        let fc = read_i32(b, pos);
        if fc < 0 {
            return None;
        }
        match decode_u32_elem_list(b, pos + 4, fc as usize) {
            Some((ws, p2)) => Some(
                (
                    Entry::MorphModel(AnmEntryMorphModel { frame_count: fc, morph_weight: ws }),
                    p2,
                ),
            ),
            None => None,
        }
    } else {
        None
    }
}

/// The stream entry starting at `pos`: coordinate, entry-kind code,
/// entry byte size, then the kind's payload.
pub open spec fn parse_strm_entry(b: Seq<u8>, pos: int) -> Option<(AnmStrmEntryView, int)> {
    if pos + 8 <= b.len() {
        let coord = AnmCoord {
            clump_index: parse_i16_at(b, pos),
            coord_index: parse_u16_at(b, pos + 2),
        };
        let fmt = parse_u16_at(b, pos + 4);
        let size = parse_u16_at(b, pos + 6);
        match parse_entry_data(b, pos + 8, fmt) {
            Some((d, p2)) => Some(
                (
                    AnmStrmEntryView {
                        coord: coord,
                        entry_format: fmt,
                        entry_size: size,
                        entry_data: d,
                    },
                    p2,
                ),
            ),
            None => None,
        }
    } else {
        None
    }
}

/// The stream entry parser, as a function value.
pub open spec fn strm_entry_parser() -> spec_fn(Seq<u8>, int) -> Option<(AnmStrmEntryView, int)> {
    |b: Seq<u8>, pos: int| parse_strm_entry(b, pos)
}

/// Decode one stream entry.
fn decode_strm_entry(b: &Vec<u8>, pos: usize) -> (r: Option<(AnmStrmEntry, usize)>)
    requires
        pos <= b@.len(),
    ensures
        match r {
            Some(p) => parse_strm_entry(b@, pos as int) == Some((p.0@, p.1 as int)) && pos <= p.1
                <= b@.len(),
            None => parse_strm_entry(b@, pos as int) is None,
        },
{
    proof {
        vstd::std_specs::vec::axiom_spec_len(b);
    }
    if b.len() < 8 || pos > b.len() - 8 {
        return None;
    }
    let coord = AnmCoord { clump_index: read_i16(b, pos), coord_index: read_u16(b, pos + 2) };
    let fmt = read_u16(b, pos + 4);
    let size = read_u16(b, pos + 6);
    match decode_entry_data(b, pos + 8, fmt) {
        Some((d, p2)) => Some(
            (
                AnmStrmEntry { coord: coord, entry_format: fmt, entry_size: size, entry_data: d },
                p2,
            ),
        ),
        None => None,
    }
}

/// Decode `n` consecutive stream entries.
#[verifier::rlimit(100)]
fn decode_strm_entry_list(b: &Vec<u8>, pos: usize, n: usize) -> (r: Option<
    (Vec<AnmStrmEntry>, usize),
>)
    requires
        pos <= b@.len(),
    ensures
        match r {
            Some(p) => parse_n(b@, pos as int, n as int, strm_entry_parser()) == Some(
                (p.0@.map_values(|e: AnmStrmEntry| e@), p.1 as int),
            ) && pos <= p.1 <= b@.len(),
            None => parse_n(b@, pos as int, n as int, strm_entry_parser()) is None,
        },
{
    let mut out: Vec<AnmStrmEntry> = Vec::new();
    let mut i: usize = 0;
    let mut cur: usize = pos;
    while i < n
        invariant
            pos <= cur <= b@.len(),
            i <= n,
            parse_n(b@, pos as int, n as int, strm_entry_parser()) == (match parse_n(
                b@,
                cur as int,
                (n - i) as int,
                strm_entry_parser(),
            ) {
                Some(q) => Some((out@.map_values(|e: AnmStrmEntry| e@) + q.0, q.1)),
                None => None::<(Seq<AnmStrmEntryView>, int)>,
            }),
        decreases n - i,
    {
        match decode_strm_entry(b, cur) {
            Some((e, p2)) => {
                proof {
                    let prev = out@.map_values(|e: AnmStrmEntry| e@);
                    match parse_n(b@, p2 as int, (n - i) as int - 1, strm_entry_parser()) {
                        Some(q) => {
                            assert(prev + (seq![e@] + q.0) =~= prev.push(e@) + q.0);
                        },
                        None => {},
                    }
                }
                out.push(e);
                cur = p2;
            },
            None => {
                return None;
            },
        }
        i += 1;
    }
    proof {
        assert(out@.map_values(|e: AnmStrmEntry| e@) + Seq::<AnmStrmEntryView>::empty()
            =~= out@.map_values(|e: AnmStrmEntry| e@));
    }
    Some((out, cur))
}

/// The whole snapshot asset, parsed from the start of the buffer.
pub open spec fn parse_anm_strm_frame(b: Seq<u8>) -> Option<(NuccAnmStrmFrameView, int)> {
    if 8 <= b.len() {
        let frame_number = parse_u32_at(b, 0);
        let entry_count = parse_u16_at(b, 4);
        let unknown = parse_u16_at(b, 6);
        match parse_n(b, 8, entry_count as int, strm_entry_parser()) {
            Some((es, p)) => Some(
                (
                    NuccAnmStrmFrameView {
                        frame_number: frame_number,
                        entry_count: entry_count,
                        unknown: unknown,
                        entries: es,
                    },
                    p,
                ),
            ),
            None => None,
        }
    } else {
        None
    }
}

/// Decode a whole snapshot asset from the start of a buffer; trailing
/// bytes are ignored.
pub fn decode_anm_strm_frame(b: &Vec<u8>) -> (r: Option<NuccAnmStrmFrame>)
    ensures
        match r {
            Some(f) => parse_anm_strm_frame(b@) matches Some(q) && q.0 == f@,
            None => parse_anm_strm_frame(b@) is None,
        },
{
    proof {
        vstd::std_specs::vec::axiom_spec_len(b);
    }
    if b.len() < 8 {
        return None;
    }
    let frame_number = read_u32(b, 0);
    let entry_count = read_u16(b, 4);
    let unknown = read_u16(b, 6);
    match decode_strm_entry_list(b, 8, entry_count as usize) {
        Some((es, p)) => {
            let f = NuccAnmStrmFrame {
                frame_number: frame_number,
                entry_count: entry_count,
                unknown: unknown,
                entries: es,
            };
            proof {
                assert(parse_anm_strm_frame(b@) == Some((f@, p as int)));
            }
            Some(f)
        },
        None => None,
    }
}

/// Wire bytes of one frame-info record.
pub open spec fn ser_frame_info(x: AnmStrmFrameInfo) -> Seq<u8> {
    ser_u32(x.frame_offset) + ser_u16(x.frame_number)
}

/// Wire bytes of one stream clump.
pub open spec fn ser_strm_clump(c: AnmStrmClumpView) -> Seq<u8> {
    ser_u32(c.clump_index) + ser_u16(c.bone_material_count) + ser_u16(c.model_count) + ser_seq(
        c.bone_material_indices,
        u32_elem_ser_fn(),
    ) + ser_seq(c.model_indices, u32_elem_ser_fn()) + ser_seq(c.unknown, u32_elem_ser_fn())
}

/// The stream clump serializer, as a function value.
pub open spec fn strm_clump_ser_fn() -> spec_fn(AnmStrmClumpView) -> Seq<u8> {
    |c: AnmStrmClumpView| ser_strm_clump(c)
}

/// The frame-info serializer, as a function value.
pub open spec fn frame_info_ser_fn() -> spec_fn(AnmStrmFrameInfo) -> Seq<u8> {
    |x: AnmStrmFrameInfo| ser_frame_info(x)
}

/// Wire bytes of one 3-vector of raw float bits.
pub open spec fn ser_vec3(v: Vector3) -> Seq<u8> {
    ser_u32(v.x) + ser_u32(v.y) + ser_u32(v.z)
}

/// Wire bytes of one 4-vector of raw float bits.
pub open spec fn ser_vec4(v: Vector4) -> Seq<u8> {
    ser_u32(v.x) + ser_u32(v.y) + ser_u32(v.z) + ser_u32(v.w)
}

/// Wire bytes of one entry payload.
pub open spec fn ser_entry_data(d: EntryView) -> Seq<u8> {
    match d {
        EntryView::Bone(e) => ser_i32(e.frame_count) + ser_vec3(e.location) + ser_vec4(e.rotation)
            + ser_vec3(e.scale) + ser_u32(e.toggled),
        EntryView::Camera(e) => ser_i32(e.frame_count) + ser_vec3(e.location) + ser_vec4(
            e.rotation,
        ) + ser_u32(e.fov) + ser_vec3(e.scale),
        EntryView::Material(e) => ser_i32(e.frame_count) + ser_seq(
            e.ambient_color@,
            u32_elem_ser_fn(),
        ),
        EntryView::LightDirc(e) => ser_i32(e.frame_count) + ser_vec3(e.color) + ser_u32(
            e.intensity,
        ) + ser_vec4(e.direction),
        EntryView::LightPoint(e) => ser_i32(e.frame_count) + ser_vec3(e.color) + ser_vec3(
            e.position,
        ) + ser_u32(e.intensity) + ser_u32(e.radius) + ser_u32(e.falloff),
        EntryView::Ambient(e) => ser_i32(e.frame_count) + ser_vec3(e.color) + ser_u32(e.intensity),
        EntryView::MorphModel(e) => ser_i32(e.frame_count) + ser_seq(
            e.morph_weight,
            u32_elem_ser_fn(),
        ),
        EntryView::Unknown => Seq::empty(),
    }
}

/// Wire bytes of one stream entry.
pub open spec fn ser_strm_entry(e: AnmStrmEntryView) -> Seq<u8> {
    ser_i16(e.coord.clump_index) + ser_u16(e.coord.coord_index) + ser_u16(e.entry_format)
        + ser_u16(e.entry_size) + ser_entry_data(e.entry_data)
}

/// The stream entry serializer, as a function value.
pub open spec fn strm_entry_ser_fn() -> spec_fn(AnmStrmEntryView) -> Seq<u8> {
    |e: AnmStrmEntryView| ser_strm_entry(e)
}

/// Wire bytes of a whole stream header asset.
pub open spec fn ser_anm_strm(a: NuccAnmStrmView) -> Seq<u8> {
    ser_u32(a.anm_length) + ser_u32(a.frame_size) + ser_u16(a.frame_count) + ser_u16(a.is_looped)
        + ser_u16(a.clump_count) + ser_u16(a.other_entry_count) + ser_u16(a.other_index_count)
        + ser_u16(a.coord_count) + ser_seq(a.clumps, strm_clump_ser_fn()) + ser_seq(
        a.other_entries_indices,
        u32_elem_ser_fn(),
    ) + ser_seq(a.coord_parents, coord_parent_ser_fn()) + ser_seq(a.frames, frame_info_ser_fn())
}

/// Wire bytes of a whole snapshot asset.
pub open spec fn ser_anm_strm_frame(f: NuccAnmStrmFrameView) -> Seq<u8> {
    ser_u32(f.frame_number) + ser_u16(f.entry_count) + ser_u16(f.unknown) + ser_seq(
        f.entries,
        strm_entry_ser_fn(),
    )
}

/// Append one stream clump.
fn encode_strm_clump(out: &mut Vec<u8>, c: &AnmStrmClump)
    ensures
        final(out)@ == old(out)@ + ser_strm_clump(c@),
{
    let ghost pre = out@;
    push_u32(out, c.clump_index);
    push_u16(out, c.bone_material_count);
    push_u16(out, c.model_count);
    encode_u32_elem_list(out, &c.bone_material_indices);
    encode_u32_elem_list(out, &c.model_indices);
    encode_u32_elem_list(out, &c.unknown);
    proof {
        assert(out@ =~= pre + ser_strm_clump(c@));
    }
}

/// Append one entry payload.
#[verifier::rlimit(100)]
#[verifier::spinoff_prover]
fn encode_entry_data(out: &mut Vec<u8>, d: &Entry)
    ensures
        final(out)@ == old(out)@ + ser_entry_data(d@),
{
    let ghost pre = out@;
    match d {
        Entry::Bone(e) => {
            push_i32(out, e.frame_count);
            push_u32(out, e.location.x);
            push_u32(out, e.location.y);
            push_u32(out, e.location.z);
            push_u32(out, e.rotation.x);
            push_u32(out, e.rotation.y);
            push_u32(out, e.rotation.z);
            push_u32(out, e.rotation.w);
            push_u32(out, e.scale.x);
            push_u32(out, e.scale.y);
            push_u32(out, e.scale.z);
            push_u32(out, e.toggled);
            proof {
                assert(out@ =~= pre + ser_entry_data(d@));
            }
        },
        Entry::Camera(e) => {
            push_i32(out, e.frame_count);
            push_u32(out, e.location.x);
            push_u32(out, e.location.y);
            push_u32(out, e.location.z);
            push_u32(out, e.rotation.x);
            push_u32(out, e.rotation.y);
            push_u32(out, e.rotation.z);
            push_u32(out, e.rotation.w);
            push_u32(out, e.fov);
            push_u32(out, e.scale.x);
            push_u32(out, e.scale.y);
            push_u32(out, e.scale.z);
            proof {
                assert(out@ =~= pre + ser_entry_data(d@));
            }
        },
        Entry::Material(e) => {
            push_i32(out, e.frame_count);
            let ghost mid = out@;
            let mut k: usize = 0;
            proof {
                broadcast use vstd::array::group_array_axioms;

                assert(ser_seq(e.ambient_color@.take(0), u32_elem_ser_fn()) == Seq::<u8>::empty());
                assert(out@ =~= mid + ser_seq(e.ambient_color@.take(0), u32_elem_ser_fn()));
            }
            while k < 16
                invariant
                    k <= 16,
                    e.ambient_color@.len() == 16,
                    out@ == mid + ser_seq(e.ambient_color@.take(k as int), u32_elem_ser_fn()),
                decreases 16 - k,
            {
                proof {
                    broadcast use vstd::array::group_array_axioms;

                }
                push_u32(out, e.ambient_color[k]);
                proof {
                    lemma_ser_seq_snoc(
                        e.ambient_color@.take(k as int),
                        e.ambient_color@[k as int],
                        u32_elem_ser_fn(),
                    );
                    assert(e.ambient_color@.take(k as int + 1) =~= e.ambient_color@.take(
                        k as int,
                    ).push(e.ambient_color@[k as int]));
                    assert(out@ =~= mid + ser_seq(
                        e.ambient_color@.take(k as int + 1),
                        u32_elem_ser_fn(),
                    ));
                }
                k += 1;
            }
            proof {
                assert(e.ambient_color@.take(16) =~= e.ambient_color@);
                assert(out@ =~= pre + ser_entry_data(d@));
            }
        },
        Entry::LightDirc(e) => {
            push_i32(out, e.frame_count);
            push_u32(out, e.color.x);
            push_u32(out, e.color.y);
            push_u32(out, e.color.z);
            push_u32(out, e.intensity);
            push_u32(out, e.direction.x);
            push_u32(out, e.direction.y);
            push_u32(out, e.direction.z);
            push_u32(out, e.direction.w);
            proof {
                assert(out@ =~= pre + ser_entry_data(d@));
            }
        },
        Entry::LightPoint(e) => {
            push_i32(out, e.frame_count);
            push_u32(out, e.color.x);
            push_u32(out, e.color.y);
            push_u32(out, e.color.z);
            push_u32(out, e.position.x);
            push_u32(out, e.position.y);
            push_u32(out, e.position.z);
            push_u32(out, e.intensity);
            push_u32(out, e.radius);
            push_u32(out, e.falloff);
            proof {
                assert(out@ =~= pre + ser_entry_data(d@));
            }
        },
        Entry::Ambient(e) => {
            push_i32(out, e.frame_count);
            push_u32(out, e.color.x);
            push_u32(out, e.color.y);
            push_u32(out, e.color.z);
            push_u32(out, e.intensity);
            proof {
                assert(out@ =~= pre + ser_entry_data(d@));
            }
        },
        Entry::MorphModel(e) => {
            push_i32(out, e.frame_count);
            encode_u32_elem_list(out, &e.morph_weight);
            proof {
                assert(out@ =~= pre + ser_entry_data(d@));
            }
        },
        Entry::Unknown => {
            proof {
                assert(out@ =~= pre + ser_entry_data(d@));
            }
        },
    }
}

/// Append one stream entry.
fn encode_strm_entry(out: &mut Vec<u8>, e: &AnmStrmEntry)
    ensures
        final(out)@ == old(out)@ + ser_strm_entry(e@),
{
    let ghost pre = out@;
    push_i16(out, e.coord.clump_index);
    push_u16(out, e.coord.coord_index);
    push_u16(out, e.entry_format);
    push_u16(out, e.entry_size);
    encode_entry_data(out, &e.entry_data);
    proof {
        assert(out@ =~= pre + ser_strm_entry(e@));
    }
}

/// Encode a whole stream header asset to its wire bytes.
pub fn encode_anm_strm(a: &NuccAnmStrm) -> (r: Vec<u8>)
    ensures
        r@ == ser_anm_strm(a@),
{
    let mut out: Vec<u8> = Vec::new();
    push_u32(&mut out, a.anm_length);
    push_u32(&mut out, a.frame_size);
    push_u16(&mut out, a.frame_count);
    push_u16(&mut out, a.is_looped);
    push_u16(&mut out, a.clump_count);
    push_u16(&mut out, a.other_entry_count);
    push_u16(&mut out, a.other_index_count);
    push_u16(&mut out, a.coord_count);
    let ghost goal = a.clumps@.map_values(|c: AnmStrmClump| c@);
    let mut i: usize = 0;
    let ghost mid = out@;
    proof {
        assert(ser_seq(goal.take(0), strm_clump_ser_fn()) == Seq::<u8>::empty());
        assert(out@ =~= mid + ser_seq(goal.take(0), strm_clump_ser_fn()));
    }
    while i < a.clumps.len()
        invariant
            i <= a.clumps@.len(),
            goal == a.clumps@.map_values(|c: AnmStrmClump| c@),
            out@ == mid + ser_seq(goal.take(i as int), strm_clump_ser_fn()),
        decreases a.clumps@.len() - i,
    {
        encode_strm_clump(&mut out, &a.clumps[i]);
        proof {
            lemma_ser_seq_snoc(goal.take(i as int), goal[i as int], strm_clump_ser_fn());
            assert(goal.take(i as int + 1) =~= goal.take(i as int).push(goal[i as int]));
            assert(a.clumps@[i as int]@ == goal[i as int]);
            assert(out@ =~= mid + ser_seq(goal.take(i as int + 1), strm_clump_ser_fn()));
        }
        i += 1;
    }
    proof {
        assert(goal.take(goal.len() as int) =~= goal);
    }
    encode_u32_elem_list(&mut out, &a.other_entries_indices);
    encode_coord_parent_list(&mut out, &a.coord_parents);
    let ghost fgoal = a.frames@;
    let mut j: usize = 0;
    let ghost mid2 = out@;
    proof {
        assert(ser_seq(fgoal.take(0), frame_info_ser_fn()) == Seq::<u8>::empty());
        assert(out@ =~= mid2 + ser_seq(fgoal.take(0), frame_info_ser_fn()));
    }
    while j < a.frames.len()
        invariant
            j <= a.frames@.len(),
            fgoal == a.frames@,
            out@ == mid2 + ser_seq(fgoal.take(j as int), frame_info_ser_fn()),
        decreases a.frames@.len() - j,
    {
        let ghost pre = out@;
        push_u32(&mut out, a.frames[j].frame_offset);
        push_u16(&mut out, a.frames[j].frame_number);
        proof {
            lemma_ser_seq_snoc(fgoal.take(j as int), fgoal[j as int], frame_info_ser_fn());
            assert(fgoal.take(j as int + 1) =~= fgoal.take(j as int).push(fgoal[j as int]));
            assert(out@ =~= mid2 + ser_seq(fgoal.take(j as int + 1), frame_info_ser_fn()));
        }
        j += 1;
    }
    proof {
        assert(fgoal.take(fgoal.len() as int) =~= fgoal);
        assert(out@ =~= ser_anm_strm(a@));
    }
    out
}

/// Encode a whole snapshot asset to its wire bytes.
pub fn encode_anm_strm_frame(f: &NuccAnmStrmFrame) -> (r: Vec<u8>)
    ensures
        r@ == ser_anm_strm_frame(f@),
{
    let mut out: Vec<u8> = Vec::new();
    push_u32(&mut out, f.frame_number);
    push_u16(&mut out, f.entry_count);
    push_u16(&mut out, f.unknown);
    let ghost goal = f.entries@.map_values(|e: AnmStrmEntry| e@);
    let mut i: usize = 0;
    let ghost mid = out@;
    proof {
        assert(ser_seq(goal.take(0), strm_entry_ser_fn()) == Seq::<u8>::empty());
        assert(out@ =~= mid + ser_seq(goal.take(0), strm_entry_ser_fn()));
    }
    while i < f.entries.len()
        invariant
            i <= f.entries@.len(),
            goal == f.entries@.map_values(|e: AnmStrmEntry| e@),
            out@ == mid + ser_seq(goal.take(i as int), strm_entry_ser_fn()),
        decreases f.entries@.len() - i,
    {
        encode_strm_entry(&mut out, &f.entries[i]);
        proof {
            lemma_ser_seq_snoc(goal.take(i as int), goal[i as int], strm_entry_ser_fn());
            assert(goal.take(i as int + 1) =~= goal.take(i as int).push(goal[i as int]));
            assert(f.entries@[i as int]@ == goal[i as int]);
            assert(out@ =~= mid + ser_seq(goal.take(i as int + 1), strm_entry_ser_fn()));
        }
        i += 1;
    }
    proof {
        assert(goal.take(goal.len() as int) =~= goal);
        assert(out@ =~= ser_anm_strm_frame(f@));
    }
    out
}

} // verus!
