//! Curve builder: converts one object's per-frame time series into the
//! clip's curve representation, selecting curve shapes by entry kind,
//! quantizing numeric values, and finalizing trailing data.
//!
//! Output frame numbers advance at a fixed stride: the sample at snapshot
//! position `i` lands on frame `100 * i`.

use vstd::prelude::*;
use vstd::pervasive::unreached;
use vstd::multiset::Multiset;
use crate::anm::{
    AnmClump,
    AnmClumpView,
    AnmCurveFormat,
    AnmEntry,
    AnmEntryFormat,
    AnmEntryView,
    CoordParent,
    Curve,
    CurveHeader,
    CurveView,
    KeyframeFloat,
    KeyframeVector3,
    NuccAnm,
    NuccAnmView,
    QuaternionShort,
    Vector3,
    Vector3Short,
    Vector4,
    RGB,
    finalize_curve,
    rgb_padded,
};
use crate::anmstrm::{
    AnmStrmClump,
    AnmStrmClumpView,
    AnmStrmEntry,
    AnmStrmEntryView,
    Entry,
    EntryView,
    NuccAnmStrm,
    NuccAnmStrmFrame,
    NuccAnmStrmView,
};
use crate::quant::{
    quant_i16,
    quant_u8,
    quantize_i16,
    quantize_u8,
    QUAT_COMPRESS,
    RGB_CONVERT,
    SCALE_COMPRESS,
};

verus! {

/// Mathematical model of one object's time series.
pub open spec fn series_view(v: Vec<AnmStrmEntry>) -> Seq<AnmStrmEntryView> {
    v@.map_values(|e: AnmStrmEntry| e@)
}

/// A series the curve builder accepts: non-empty, short enough that every
/// element count fits the u16 frame-count header field, of one single
/// entry kind that the aggregator keeps.
pub open spec fn series_ok(s: Seq<AnmStrmEntryView>) -> bool {
    &&& 1 <= s.len() <= 0x7FFF
    &&& s[0].entry_data.is_aggregated()
    &&& forall|i: int|
        0 <= i < s.len() ==> (#[trigger] s[i].entry_data).same_kind(s[0].entry_data)
}

/// Quantized quaternion: each component truncated at scale 32767.
pub open spec fn quat_short(v: Vector4) -> QuaternionShort {
    QuaternionShort {
        x: quant_i16(v.x, QUAT_COMPRESS),
        y: quant_i16(v.y, QUAT_COMPRESS),
        z: quant_i16(v.z, QUAT_COMPRESS),
        w: quant_i16(v.w, QUAT_COMPRESS),
    }
}

/// Quantized 3-vector: each component truncated at scale 4096.
pub open spec fn scale_short(v: Vector3) -> Vector3Short {
    Vector3Short {
        x: quant_i16(v.x, SCALE_COMPRESS),
        y: quant_i16(v.y, SCALE_COMPRESS),
        z: quant_i16(v.z, SCALE_COMPRESS),
    }
}

/// Byte color: each channel truncated at scale 255.
pub open spec fn rgb_of(v: Vector3) -> RGB {
    RGB {
        r: quant_u8(v.x, RGB_CONVERT),
        g: quant_u8(v.y, RGB_CONVERT),
        b: quant_u8(v.z, RGB_CONVERT),
    }
}

// ---------------------------------------------------------------- Bone

pub open spec fn bone_loc_keys(s: Seq<AnmStrmEntryView>) -> Seq<KeyframeVector3> {
    Seq::new(
        s.len(),
        |i: int|
            KeyframeVector3 {
                frame: (100 * i) as i32,
                value: (s[i].entry_data->Bone_0).location,
            },
    )
}

pub open spec fn bone_rot_keys(s: Seq<AnmStrmEntryView>) -> Seq<QuaternionShort> {
    Seq::new(s.len(), |i: int| quat_short((s[i].entry_data->Bone_0).rotation))
}

pub open spec fn bone_scale_keys(s: Seq<AnmStrmEntryView>) -> Seq<Vector3Short> {
    Seq::new(s.len(), |i: int| scale_short((s[i].entry_data->Bone_0).scale))
}

pub open spec fn bone_toggle_vals(s: Seq<AnmStrmEntryView>) -> Seq<u32> {
    Seq::new(s.len(), |i: int| (s[i].entry_data->Bone_0).toggled)
}

/// The four raw bone curves: location, rotation, scale, toggle.
pub open spec fn bone_raw_curves(s: Seq<AnmStrmEntryView>) -> Seq<CurveView> {
    seq![
        CurveView::KeyframeVector3(bone_loc_keys(s)),
        CurveView::QuaternionShort(bone_rot_keys(s)),
        CurveView::Vector3Short(bone_scale_keys(s)),
        CurveView::Float(bone_toggle_vals(s)),
    ]
}

// -------------------------------------------------------------- Camera

pub open spec fn camera_loc_keys(s: Seq<AnmStrmEntryView>) -> Seq<KeyframeVector3> {
    Seq::new(
        s.len(),
        |i: int|
            KeyframeVector3 {
                frame: (100 * i) as i32,
                value: (s[i].entry_data->Camera_0).location,
            },
    )
}

pub open spec fn camera_rot_keys(s: Seq<AnmStrmEntryView>) -> Seq<QuaternionShort> {
    Seq::new(s.len(), |i: int| quat_short((s[i].entry_data->Camera_0).rotation))
}

pub open spec fn camera_fov_keys(s: Seq<AnmStrmEntryView>) -> Seq<KeyframeFloat> {
    Seq::new(
        s.len(),
        |i: int|
            KeyframeFloat { frame: (100 * i) as i32, value: (s[i].entry_data->Camera_0).fov },
    )
}

/// The three raw camera curves: location, rotation, field of view.
pub open spec fn camera_raw_curves(s: Seq<AnmStrmEntryView>) -> Seq<CurveView> {
    seq![
        CurveView::KeyframeVector3(camera_loc_keys(s)),
        CurveView::QuaternionShort(camera_rot_keys(s)),
        CurveView::KeyframeFloat(camera_fov_keys(s)),
    ]
}

// ------------------------------------------------------------ Material

pub open spec fn mat_channel_vals(s: Seq<AnmStrmEntryView>, c: int) -> Seq<u32> {
    Seq::new(s.len(), |i: int| (s[i].entry_data->Material_0).ambient_color@[c])
}

/// A keyframed material channel synthesizes, for each sample, a second
/// key 50 frames later holding the same value.
pub open spec fn mat_kf_channel_keys(s: Seq<AnmStrmEntryView>, c: int) -> Seq<KeyframeFloat> {
    Seq::new(
        2 * s.len(),
        |k: int|
            KeyframeFloat {
                frame: if k % 2 == 0 {
                    (100 * (k / 2)) as i32
                } else {
                    (100 * (k / 2) + 50) as i32
                },
                value: (s[k / 2].entry_data->Material_0).ambient_color@[c],
            },
    )
}

/// The eighteen raw material curves: sixteen ambient-color channels
/// (channels 0, 1, 8 and 9 keyframed, the rest plain float arrays) plus
/// two synthetic constant toggle curves fixed at 0.0 and 1.0.
pub open spec fn material_raw_curves(s: Seq<AnmStrmEntryView>) -> Seq<CurveView> {
    seq![
        CurveView::KeyframeFloat(mat_kf_channel_keys(s, 0)),
        CurveView::KeyframeFloat(mat_kf_channel_keys(s, 1)),
        CurveView::Float(mat_channel_vals(s, 2)),
        CurveView::Float(mat_channel_vals(s, 3)),
        CurveView::Float(mat_channel_vals(s, 4)),
        CurveView::Float(mat_channel_vals(s, 5)),
        CurveView::Float(mat_channel_vals(s, 6)),
        CurveView::Float(mat_channel_vals(s, 7)),
        CurveView::KeyframeFloat(mat_kf_channel_keys(s, 8)),
        CurveView::KeyframeFloat(mat_kf_channel_keys(s, 9)),
        CurveView::Float(mat_channel_vals(s, 10)),
        CurveView::Float(mat_channel_vals(s, 11)),
        CurveView::Float(mat_channel_vals(s, 12)),
        CurveView::Float(mat_channel_vals(s, 13)),
        CurveView::Float(mat_channel_vals(s, 14)),
        CurveView::Float(mat_channel_vals(s, 15)),
        CurveView::Float(Seq::new(s.len(), |i: int| 0u32)),
        CurveView::Float(Seq::new(s.len(), |i: int| 0x3F800000u32)),
    ]
}

// ----------------------------------------------------- Directional light

pub open spec fn lightdirc_color_vals(s: Seq<AnmStrmEntryView>) -> Seq<RGB> {
    Seq::new(s.len(), |i: int| rgb_of((s[i].entry_data->LightDirc_0).color))
}

pub open spec fn lightdirc_intensity_vals(s: Seq<AnmStrmEntryView>) -> Seq<u32> {
    Seq::new(s.len(), |i: int| (s[i].entry_data->LightDirc_0).intensity)
}

pub open spec fn lightdirc_dir_keys(s: Seq<AnmStrmEntryView>) -> Seq<QuaternionShort> {
    Seq::new(s.len(), |i: int| quat_short((s[i].entry_data->LightDirc_0).direction))
}

/// The three raw directional-light curves: color, intensity, direction.
pub open spec fn lightdirc_raw_curves(s: Seq<AnmStrmEntryView>) -> Seq<CurveView> {
    seq![
        CurveView::RGB(lightdirc_color_vals(s)),
        CurveView::Float(lightdirc_intensity_vals(s)),
        CurveView::QuaternionShort(lightdirc_dir_keys(s)),
    ]
}

// ----------------------------------------------------------- Point light

pub open spec fn lightpoint_color_vals(s: Seq<AnmStrmEntryView>) -> Seq<RGB> {
    Seq::new(s.len(), |i: int| rgb_of((s[i].entry_data->LightPoint_0).color))
}

pub open spec fn lightpoint_pos_keys(s: Seq<AnmStrmEntryView>) -> Seq<KeyframeVector3> {
    Seq::new(
        s.len(),
        |i: int|
            KeyframeVector3 {
                frame: (100 * i) as i32,
                value: (s[i].entry_data->LightPoint_0).position,
            },
    )
}

pub open spec fn lightpoint_intensity_vals(s: Seq<AnmStrmEntryView>) -> Seq<u32> {
    Seq::new(s.len(), |i: int| (s[i].entry_data->LightPoint_0).intensity)
}

pub open spec fn lightpoint_radius_vals(s: Seq<AnmStrmEntryView>) -> Seq<u32> {
    Seq::new(s.len(), |i: int| (s[i].entry_data->LightPoint_0).radius)
}

pub open spec fn lightpoint_falloff_vals(s: Seq<AnmStrmEntryView>) -> Seq<u32> {
    Seq::new(s.len(), |i: int| (s[i].entry_data->LightPoint_0).falloff)
}

/// The five raw point-light curves: color, position, intensity, radius,
/// falloff.
pub open spec fn lightpoint_raw_curves(s: Seq<AnmStrmEntryView>) -> Seq<CurveView> {
    seq![
        CurveView::RGB(lightpoint_color_vals(s)),
        CurveView::KeyframeVector3(lightpoint_pos_keys(s)),
        CurveView::Float(lightpoint_intensity_vals(s)),
        CurveView::Float(lightpoint_radius_vals(s)),
        CurveView::Float(lightpoint_falloff_vals(s)),
    ]
}

// -------------------------------------------------------- Ambient light

pub open spec fn ambient_color_vals(s: Seq<AnmStrmEntryView>) -> Seq<RGB> {
    Seq::new(s.len(), |i: int| rgb_of((s[i].entry_data->Ambient_0).color))
}

pub open spec fn ambient_intensity_vals(s: Seq<AnmStrmEntryView>) -> Seq<u32> {
    Seq::new(s.len(), |i: int| (s[i].entry_data->Ambient_0).intensity)
}

/// The two raw ambient-light curves: color, intensity.
pub open spec fn ambient_raw_curves(s: Seq<AnmStrmEntryView>) -> Seq<CurveView> {
    seq![
        CurveView::RGB(ambient_color_vals(s)),
        CurveView::Float(ambient_intensity_vals(s)),
    ]
}

// ------------------------------------------------------------- Assembly

/// The raw (pre-finalization) curve set of one series, selected by the
/// series' entry kind.
pub open spec fn raw_curves(s: Seq<AnmStrmEntryView>) -> Seq<CurveView> {
    match s[0].entry_data {
        EntryView::Bone(_) => bone_raw_curves(s),
        EntryView::Camera(_) => camera_raw_curves(s),
        EntryView::Material(_) => material_raw_curves(s),
        EntryView::LightDirc(_) => lightdirc_raw_curves(s),
        EntryView::LightPoint(_) => lightpoint_raw_curves(s),
        EntryView::Ambient(_) => ambient_raw_curves(s),
        _ => Seq::empty(),
    }
}

/// The creation-time header format codes of one series' curve set; these
/// stay on the headers even where several payload shapes share one
/// in-memory variant.
pub open spec fn creation_formats(s: Seq<AnmStrmEntryView>) -> Seq<u16> {
    match s[0].entry_data {
        EntryView::Bone(_) => seq![0x06u16, 0x11u16, 0x10u16, 0x0Bu16],
        EntryView::Camera(_) => seq![0x06u16, 0x11u16, 0x0Cu16],
        EntryView::Material(_) => seq![
            0x0Cu16,
            0x0Cu16,
            0x16u16,
            0x16u16,
            0x16u16,
            0x16u16,
            0x16u16,
            0x16u16,
            0x0Cu16,
            0x0Cu16,
            0x16u16,
            0x16u16,
            0x16u16,
            0x16u16,
            0x16u16,
            0x16u16,
            0x0Bu16,
            0x0Bu16,
        ],
        EntryView::LightDirc(_) => seq![0x14u16, 0x16u16, 0x11u16],
        EntryView::LightPoint(_) => seq![0x14u16, 0x06u16, 0x16u16, 0x16u16, 0x16u16],
        EntryView::Ambient(_) => seq![0x14u16, 0x18u16],
        _ => Seq::empty(),
    }
}

/// The finalized curve set of one series.
pub open spec fn built_curves(s: Seq<AnmStrmEntryView>) -> Seq<CurveView> {
    raw_curves(s).map_values(|c: CurveView| finalize_curve(c))
}

/// The finalized curve headers of one series: sequential curve indices
/// from zero, creation-time format codes, recomputed frame counts, and
/// the fixed byte-size field the writer stamps on every built curve.
pub open spec fn built_headers(s: Seq<AnmStrmEntryView>) -> Seq<CurveHeader> {
    Seq::new(
        raw_curves(s).len(),
        |i: int|
            CurveHeader {
                curve_index: i as u16,
                curve_format: creation_formats(s)[i],
                frame_count: built_curves(s)[i].len() as u16,
                curve_size: 8u16,
            },
    )
}

/// The wire entry-kind code of one payload kind.
pub open spec fn entry_kind_code(k: EntryView) -> u16 {
    match k {
        EntryView::Bone(_) => AnmEntryFormat::Bone.spec_code(),
        EntryView::Camera(_) => AnmEntryFormat::Camera.spec_code(),
        EntryView::Material(_) => AnmEntryFormat::Material.spec_code(),
        EntryView::LightDirc(_) => AnmEntryFormat::LightDirc.spec_code(),
        EntryView::LightPoint(_) => AnmEntryFormat::LightPoint.spec_code(),
        EntryView::Ambient(_) => AnmEntryFormat::Ambient.spec_code(),
        EntryView::MorphModel(_) => AnmEntryFormat::MorphModel.spec_code(),
        EntryView::Unknown => 0,
    }
}

/// The clip entry built from one series: coordinate taken from the first
/// sample, the kind's curve set finalized, headers recomputed.
pub open spec fn convert_series_spec(s: Seq<AnmStrmEntryView>) -> AnmEntryView {
    AnmEntryView {
        coord: s[0].coord,
        entry_format: entry_kind_code(s[0].entry_data),
        curve_count: raw_curves(s).len() as u16,
        curve_headers: built_headers(s),
        curves: built_curves(s),
    }
}


/// After finalization, every built curve that carries a time index ends
/// in a terminating key at time index `-1` whose value duplicates the
/// previously-last key's value, whenever the curve held more than one
/// key before finalization. The raw time indices a build produces are
/// all nonnegative, so the terminator is always appended.
pub proof fn lemma_built_curve_terminator(s: Seq<AnmStrmEntryView>, i: int)
    requires
        series_ok(s),
        0 <= i < raw_curves(s).len(),
        raw_curves(s)[i].has_time_index(),
        raw_curves(s)[i].len() > 1,
    ensures
        built_curves(s)[i].len() == raw_curves(s)[i].len() + 1,
        built_curves(s)[i].has_time_index(),
        built_curves(s)[i].last_frame() == -1i32,
        match (built_curves(s)[i], raw_curves(s)[i]) {
            (CurveView::KeyframeVector3(f), CurveView::KeyframeVector3(v)) => f.last().value
                == f[f.len() - 2].value && f[f.len() - 2] == v.last(),
            (CurveView::KeyframeVector4(f), CurveView::KeyframeVector4(v)) => f.last().value
                == f[f.len() - 2].value && f[f.len() - 2] == v.last(),
            (CurveView::KeyframeFloat(f), CurveView::KeyframeFloat(v)) => f.last().value
                == f[f.len() - 2].value && f[f.len() - 2] == v.last(),
            _ => false,
        },
{
    let c = raw_curves(s)[i];
    let n = s.len() as int;
    assert(1 <= n <= 0x7FFF);
    match s[0].entry_data {
        EntryView::Bone(_) => {
            assert(c == bone_raw_curves(s)[i]);
            assert(c.last_frame() >= 0) by {
                assert(c == CurveView::KeyframeVector3(bone_loc_keys(s)));
                assert(bone_loc_keys(s).last() == bone_loc_keys(s)[n - 1]);
            };
        },
        EntryView::Camera(_) => {
            assert(c.last_frame() >= 0) by {
                if i == 0 {
                    assert(camera_loc_keys(s).last() == camera_loc_keys(s)[n - 1]);
                } else {
                    assert(c == CurveView::KeyframeFloat(camera_fov_keys(s)));
                    assert(camera_fov_keys(s).last() == camera_fov_keys(s)[n - 1]);
                }
            };
        },
        EntryView::Material(_) => {
            assert(c.last_frame() >= 0) by {
                assert(i == 0 || i == 1 || i == 8 || i == 9);
                let ch = if i == 0 {
                    0int
                } else if i == 1 {
                    1int
                } else if i == 8 {
                    8int
                } else {
                    9int
                };
                assert(c == CurveView::KeyframeFloat(mat_kf_channel_keys(s, ch)));
                assert(mat_kf_channel_keys(s, ch).last() == mat_kf_channel_keys(s, ch)[2 * n - 1]);
                assert((2 * n - 1) % 2 == 1);
                assert((2 * n - 1) / 2 == n - 1);
            };
        },
        EntryView::LightDirc(_) => {
            assert(false);
        },
        EntryView::LightPoint(_) => {
            assert(c.last_frame() >= 0) by {
                assert(c == CurveView::KeyframeVector3(lightpoint_pos_keys(s)));
                assert(lightpoint_pos_keys(s).last() == lightpoint_pos_keys(s)[n - 1]);
            };
        },
        EntryView::Ambient(_) => {
            assert(false);
        },
        _ => {
            assert(false);
        },
    }
    assert(c.last_frame() != -1i32);
    crate::anm::lemma_finalize_terminator(c);
    assert(built_curves(s)[i] == finalize_curve(c));
}

/// Finalize one built curve: append the terminating key when the curve
/// has more than one element, then pad byte-RGB payloads to a multiple
/// of 4 elements.
fn finalize_one(c: Curve) -> (r: Curve)
    requires
        c@.len() <= 0xFFFE,
    ensures
        r@ == finalize_curve(c@),
{
    let mut c = c;
    if c.has_keyframes() {
        c.append_null_keyframe();
    }
    if c.get_curve_format() == AnmCurveFormat::BYTE3.code() {
        c.pad_color_values();
    } else {
        proof {
            assert(rgb_padded(c@) == c@) by {
                assert(!(c@ is RGB));
            };
        }
    }
    c
}


fn bone_location_curve(s: &Vec<AnmStrmEntry>) -> (r: Vec<KeyframeVector3>)
    requires
        s@.len() <= 0x7FFF,
        forall|j: int| 0 <= j < s@.len() ==> (#[trigger] s@[j].entry_data) is Bone,
    ensures
        r@ == bone_loc_keys(series_view(*s)),
{
    let ghost sv = series_view(*s);
    let mut out: Vec<KeyframeVector3> = Vec::new();
    let mut i: usize = 0;
    while i < s.len()
        invariant
            i <= s@.len() <= 0x7FFF,
            forall|j: int| 0 <= j < s@.len() ==> (#[trigger] s@[j].entry_data) is Bone,
            sv == series_view(*s),
            out@ == bone_loc_keys(sv).take(i as int),
        decreases s@.len() - i,
    {
        match &s[i].entry_data {
            Entry::Bone(b) => {
                out.push(KeyframeVector3 { frame: (100 * i) as i32, value: b.location });
            },
            _ => {
                proof {
                    assert(false);
                }
            },
        }
        proof {
            assert(out@ =~= bone_loc_keys(sv).take(i + 1));
        }
        i += 1;
    }
    proof {
        assert(out@ =~= bone_loc_keys(sv));
    }
    out
}

fn bone_rotation_curve(s: &Vec<AnmStrmEntry>) -> (r: Vec<QuaternionShort>)
    requires
        s@.len() <= 0x7FFF,
        forall|j: int| 0 <= j < s@.len() ==> (#[trigger] s@[j].entry_data) is Bone,
    ensures
        r@ == bone_rot_keys(series_view(*s)),
{
    let ghost sv = series_view(*s);
    let mut out: Vec<QuaternionShort> = Vec::new();
    let mut i: usize = 0;
    while i < s.len()
        invariant
            i <= s@.len() <= 0x7FFF,
            forall|j: int| 0 <= j < s@.len() ==> (#[trigger] s@[j].entry_data) is Bone,
            sv == series_view(*s),
            out@ == bone_rot_keys(sv).take(i as int),
        decreases s@.len() - i,
    {
        match &s[i].entry_data {
            Entry::Bone(b) => {
                out.push(QuaternionShort { x: quantize_i16(b.rotation.x, QUAT_COMPRESS), y: quantize_i16(b.rotation.y, QUAT_COMPRESS), z: quantize_i16(b.rotation.z, QUAT_COMPRESS), w: quantize_i16(b.rotation.w, QUAT_COMPRESS) });
            },
            _ => {
                proof {
                    assert(false);
                }
            },
        }
        proof {
            assert(out@ =~= bone_rot_keys(sv).take(i + 1));
        }
        i += 1;
    }
    proof {
        assert(out@ =~= bone_rot_keys(sv));
    }
    out
}

fn bone_scale_curve(s: &Vec<AnmStrmEntry>) -> (r: Vec<Vector3Short>)
    requires
        s@.len() <= 0x7FFF,
        forall|j: int| 0 <= j < s@.len() ==> (#[trigger] s@[j].entry_data) is Bone,
    ensures
        r@ == bone_scale_keys(series_view(*s)),
{
    let ghost sv = series_view(*s);
    let mut out: Vec<Vector3Short> = Vec::new();
    let mut i: usize = 0;
    while i < s.len()
        invariant
            i <= s@.len() <= 0x7FFF,
            forall|j: int| 0 <= j < s@.len() ==> (#[trigger] s@[j].entry_data) is Bone,
            sv == series_view(*s),
            out@ == bone_scale_keys(sv).take(i as int),
        decreases s@.len() - i,
    {
        match &s[i].entry_data {
            Entry::Bone(b) => {
                out.push(Vector3Short { x: quantize_i16(b.scale.x, SCALE_COMPRESS), y: quantize_i16(b.scale.y, SCALE_COMPRESS), z: quantize_i16(b.scale.z, SCALE_COMPRESS) });
            },
            _ => {
                proof {
                    assert(false);
                }
            },
        }
        proof {
            assert(out@ =~= bone_scale_keys(sv).take(i + 1));
        }
        i += 1;
    }
    proof {
        assert(out@ =~= bone_scale_keys(sv));
    }
    out
}

fn bone_toggle_curve(s: &Vec<AnmStrmEntry>) -> (r: Vec<u32>)
    requires
        s@.len() <= 0x7FFF,
        forall|j: int| 0 <= j < s@.len() ==> (#[trigger] s@[j].entry_data) is Bone,
    ensures
        r@ == bone_toggle_vals(series_view(*s)),
{
    let ghost sv = series_view(*s);
    let mut out: Vec<u32> = Vec::new();
    let mut i: usize = 0;
    while i < s.len()
        invariant
            i <= s@.len() <= 0x7FFF,
            forall|j: int| 0 <= j < s@.len() ==> (#[trigger] s@[j].entry_data) is Bone,
            sv == series_view(*s),
            out@ == bone_toggle_vals(sv).take(i as int),
        decreases s@.len() - i,
    {
        match &s[i].entry_data {
            Entry::Bone(b) => {
                out.push(b.toggled);
            },
            _ => {
                proof {
                    assert(false);
                }
            },
        }
        proof {
            assert(out@ =~= bone_toggle_vals(sv).take(i + 1));
        }
        i += 1;
    }
    proof {
        assert(out@ =~= bone_toggle_vals(sv));
    }
    out
}

fn camera_location_curve(s: &Vec<AnmStrmEntry>) -> (r: Vec<KeyframeVector3>)
    requires
        s@.len() <= 0x7FFF,
        forall|j: int| 0 <= j < s@.len() ==> (#[trigger] s@[j].entry_data) is Camera,
    ensures
        r@ == camera_loc_keys(series_view(*s)),
{
    let ghost sv = series_view(*s);
    let mut out: Vec<KeyframeVector3> = Vec::new();
    let mut i: usize = 0;
    while i < s.len()
        invariant
            i <= s@.len() <= 0x7FFF,
            forall|j: int| 0 <= j < s@.len() ==> (#[trigger] s@[j].entry_data) is Camera,
            sv == series_view(*s),
            out@ == camera_loc_keys(sv).take(i as int),
        decreases s@.len() - i,
    {
        match &s[i].entry_data {
            Entry::Camera(b) => {
                out.push(KeyframeVector3 { frame: (100 * i) as i32, value: b.location });
            },
            _ => {
                proof {
                    assert(false);
                }
            },
        }
        proof {
            assert(out@ =~= camera_loc_keys(sv).take(i + 1));
        }
        i += 1;
    }
    proof {
        assert(out@ =~= camera_loc_keys(sv));
    }
    out
}

fn camera_rotation_curve(s: &Vec<AnmStrmEntry>) -> (r: Vec<QuaternionShort>)
    requires
        s@.len() <= 0x7FFF,
        forall|j: int| 0 <= j < s@.len() ==> (#[trigger] s@[j].entry_data) is Camera,
    ensures
        r@ == camera_rot_keys(series_view(*s)),
{
    let ghost sv = series_view(*s);
    let mut out: Vec<QuaternionShort> = Vec::new();
    let mut i: usize = 0;
    while i < s.len()
        invariant
            i <= s@.len() <= 0x7FFF,
            forall|j: int| 0 <= j < s@.len() ==> (#[trigger] s@[j].entry_data) is Camera,
            sv == series_view(*s),
            out@ == camera_rot_keys(sv).take(i as int),
        decreases s@.len() - i,
    {
        match &s[i].entry_data {
            Entry::Camera(b) => {
                out.push(QuaternionShort { x: quantize_i16(b.rotation.x, QUAT_COMPRESS), y: quantize_i16(b.rotation.y, QUAT_COMPRESS), z: quantize_i16(b.rotation.z, QUAT_COMPRESS), w: quantize_i16(b.rotation.w, QUAT_COMPRESS) });
            },
            _ => {
                proof {
                    assert(false);
                }
            },
        }
        proof {
            assert(out@ =~= camera_rot_keys(sv).take(i + 1));
        }
        i += 1;
    }
    proof {
        assert(out@ =~= camera_rot_keys(sv));
    }
    out
}

fn camera_fov_curve(s: &Vec<AnmStrmEntry>) -> (r: Vec<KeyframeFloat>)
    requires
        s@.len() <= 0x7FFF,
        forall|j: int| 0 <= j < s@.len() ==> (#[trigger] s@[j].entry_data) is Camera,
    ensures
        r@ == camera_fov_keys(series_view(*s)),
{
    let ghost sv = series_view(*s);
    let mut out: Vec<KeyframeFloat> = Vec::new();
    let mut i: usize = 0;
    while i < s.len()
        invariant
            i <= s@.len() <= 0x7FFF,
            forall|j: int| 0 <= j < s@.len() ==> (#[trigger] s@[j].entry_data) is Camera,
            sv == series_view(*s),
            out@ == camera_fov_keys(sv).take(i as int),
        decreases s@.len() - i,
    {
        match &s[i].entry_data {
            Entry::Camera(b) => {
                out.push(KeyframeFloat { frame: (100 * i) as i32, value: b.fov });
            },
            _ => {
                proof {
                    assert(false);
                }
            },
        }
        proof {
            assert(out@ =~= camera_fov_keys(sv).take(i + 1));
        }
        i += 1;
    }
    proof {
        assert(out@ =~= camera_fov_keys(sv));
    }
    out
}

fn material_channel_curve(s: &Vec<AnmStrmEntry>, c: usize) -> (r: Vec<u32>)
    requires
        s@.len() <= 0x7FFF,
        c < 16,
        forall|j: int| 0 <= j < s@.len() ==> (#[trigger] s@[j].entry_data) is Material,
    ensures
        r@ == mat_channel_vals(series_view(*s), c as int),
{
    let ghost sv = series_view(*s);
    let mut out: Vec<u32> = Vec::new();
    let mut i: usize = 0;
    while i < s.len()
        invariant
            i <= s@.len() <= 0x7FFF,
        c < 16,
            forall|j: int| 0 <= j < s@.len() ==> (#[trigger] s@[j].entry_data) is Material,
            sv == series_view(*s),
            out@ == mat_channel_vals(sv, c as int).take(i as int),
        decreases s@.len() - i,
    {
        match &s[i].entry_data {
            Entry::Material(b) => {
                out.push(b.ambient_color[c]);
            },
            _ => {
                proof {
                    assert(false);
                }
            },
        }
        proof {
            assert(out@ =~= mat_channel_vals(sv, c as int).take(i + 1));
        }
        i += 1;
    }
    proof {
        assert(out@ =~= mat_channel_vals(sv, c as int));
    }
    out
}

fn lightdirc_color_curve(s: &Vec<AnmStrmEntry>) -> (r: Vec<RGB>)
    requires
        s@.len() <= 0x7FFF,
        forall|j: int| 0 <= j < s@.len() ==> (#[trigger] s@[j].entry_data) is LightDirc,
    ensures
        r@ == lightdirc_color_vals(series_view(*s)),
{
    let ghost sv = series_view(*s);
    let mut out: Vec<RGB> = Vec::new();
    let mut i: usize = 0;
    while i < s.len()
        invariant
            i <= s@.len() <= 0x7FFF,
            forall|j: int| 0 <= j < s@.len() ==> (#[trigger] s@[j].entry_data) is LightDirc,
            sv == series_view(*s),
            out@ == lightdirc_color_vals(sv).take(i as int),
        decreases s@.len() - i,
    {
        match &s[i].entry_data {
            Entry::LightDirc(b) => {
                out.push(RGB { r: quantize_u8(b.color.x, RGB_CONVERT), g: quantize_u8(b.color.y, RGB_CONVERT), b: quantize_u8(b.color.z, RGB_CONVERT) });
            },
            _ => {
                proof {
                    assert(false);
                }
            },
        }
        proof {
            assert(out@ =~= lightdirc_color_vals(sv).take(i + 1));
        }
        i += 1;
    }
    proof {
        assert(out@ =~= lightdirc_color_vals(sv));
    }
    out
}

fn lightdirc_intensity_curve(s: &Vec<AnmStrmEntry>) -> (r: Vec<u32>)
    requires
        s@.len() <= 0x7FFF,
        forall|j: int| 0 <= j < s@.len() ==> (#[trigger] s@[j].entry_data) is LightDirc,
    ensures
        r@ == lightdirc_intensity_vals(series_view(*s)),
{
    let ghost sv = series_view(*s);
    let mut out: Vec<u32> = Vec::new();
    let mut i: usize = 0;
    while i < s.len()
        invariant
            i <= s@.len() <= 0x7FFF,
            forall|j: int| 0 <= j < s@.len() ==> (#[trigger] s@[j].entry_data) is LightDirc,
            sv == series_view(*s),
            out@ == lightdirc_intensity_vals(sv).take(i as int),
        decreases s@.len() - i,
    {
        match &s[i].entry_data {
            Entry::LightDirc(b) => {
                out.push(b.intensity);
            },
            _ => {
                proof {
                    assert(false);
                }
            },
        }
        proof {
            assert(out@ =~= lightdirc_intensity_vals(sv).take(i + 1));
        }
        i += 1;
    }
    proof {
        assert(out@ =~= lightdirc_intensity_vals(sv));
    }
    out
}

fn lightdirc_direction_curve(s: &Vec<AnmStrmEntry>) -> (r: Vec<QuaternionShort>)
    requires
        s@.len() <= 0x7FFF,
        forall|j: int| 0 <= j < s@.len() ==> (#[trigger] s@[j].entry_data) is LightDirc,
    ensures
        r@ == lightdirc_dir_keys(series_view(*s)),
{
    let ghost sv = series_view(*s);
    let mut out: Vec<QuaternionShort> = Vec::new();
    let mut i: usize = 0;
    while i < s.len()
        invariant
            i <= s@.len() <= 0x7FFF,
            forall|j: int| 0 <= j < s@.len() ==> (#[trigger] s@[j].entry_data) is LightDirc,
            sv == series_view(*s),
            out@ == lightdirc_dir_keys(sv).take(i as int),
        decreases s@.len() - i,
    {
        match &s[i].entry_data {
            Entry::LightDirc(b) => {
                out.push(QuaternionShort { x: quantize_i16(b.direction.x, QUAT_COMPRESS), y: quantize_i16(b.direction.y, QUAT_COMPRESS), z: quantize_i16(b.direction.z, QUAT_COMPRESS), w: quantize_i16(b.direction.w, QUAT_COMPRESS) });
            },
            _ => {
                proof {
                    assert(false);
                }
            },
        }
        proof {
            assert(out@ =~= lightdirc_dir_keys(sv).take(i + 1));
        }
        i += 1;
    }
    proof {
        assert(out@ =~= lightdirc_dir_keys(sv));
    }
    out
}

fn lightpoint_color_curve(s: &Vec<AnmStrmEntry>) -> (r: Vec<RGB>)
    requires
        s@.len() <= 0x7FFF,
        forall|j: int| 0 <= j < s@.len() ==> (#[trigger] s@[j].entry_data) is LightPoint,
    ensures
        r@ == lightpoint_color_vals(series_view(*s)),
{
    let ghost sv = series_view(*s);
    let mut out: Vec<RGB> = Vec::new();
    let mut i: usize = 0;
    while i < s.len()
        invariant
            i <= s@.len() <= 0x7FFF,
            forall|j: int| 0 <= j < s@.len() ==> (#[trigger] s@[j].entry_data) is LightPoint,
            sv == series_view(*s),
            out@ == lightpoint_color_vals(sv).take(i as int),
        decreases s@.len() - i,
    {
        match &s[i].entry_data {
            Entry::LightPoint(b) => {
                out.push(RGB { r: quantize_u8(b.color.x, RGB_CONVERT), g: quantize_u8(b.color.y, RGB_CONVERT), b: quantize_u8(b.color.z, RGB_CONVERT) });
            },
            _ => {
                proof {
                    assert(false);
                }
            },
        }
        proof {
            assert(out@ =~= lightpoint_color_vals(sv).take(i + 1));
        }
        i += 1;
    }
    proof {
        assert(out@ =~= lightpoint_color_vals(sv));
    }
    out
}

fn lightpoint_position_curve(s: &Vec<AnmStrmEntry>) -> (r: Vec<KeyframeVector3>)
    requires
        s@.len() <= 0x7FFF,
        forall|j: int| 0 <= j < s@.len() ==> (#[trigger] s@[j].entry_data) is LightPoint,
    ensures
        r@ == lightpoint_pos_keys(series_view(*s)),
{
    let ghost sv = series_view(*s);
    let mut out: Vec<KeyframeVector3> = Vec::new();
    let mut i: usize = 0;
    while i < s.len()
        invariant
            i <= s@.len() <= 0x7FFF,
            forall|j: int| 0 <= j < s@.len() ==> (#[trigger] s@[j].entry_data) is LightPoint,
            sv == series_view(*s),
            out@ == lightpoint_pos_keys(sv).take(i as int),
        decreases s@.len() - i,
    {
        match &s[i].entry_data {
            Entry::LightPoint(b) => {
                out.push(KeyframeVector3 { frame: (100 * i) as i32, value: b.position });
            },
            _ => {
                proof {
                    assert(false);
                }
            },
        }
        proof {
            assert(out@ =~= lightpoint_pos_keys(sv).take(i + 1));
        }
        i += 1;
    }
    proof {
        assert(out@ =~= lightpoint_pos_keys(sv));
    }
    out
}

fn lightpoint_intensity_curve(s: &Vec<AnmStrmEntry>) -> (r: Vec<u32>)
    requires
        s@.len() <= 0x7FFF,
        forall|j: int| 0 <= j < s@.len() ==> (#[trigger] s@[j].entry_data) is LightPoint,
    ensures
        r@ == lightpoint_intensity_vals(series_view(*s)),
{
    let ghost sv = series_view(*s);
    let mut out: Vec<u32> = Vec::new();
    let mut i: usize = 0;
    while i < s.len()
        invariant
            i <= s@.len() <= 0x7FFF,
            forall|j: int| 0 <= j < s@.len() ==> (#[trigger] s@[j].entry_data) is LightPoint,
            sv == series_view(*s),
            out@ == lightpoint_intensity_vals(sv).take(i as int),
        decreases s@.len() - i,
    {
        match &s[i].entry_data {
            Entry::LightPoint(b) => {
                out.push(b.intensity);
            },
            _ => {
                proof {
                    assert(false);
                }
            },
        }
        proof {
            assert(out@ =~= lightpoint_intensity_vals(sv).take(i + 1));
        }
        i += 1;
    }
    proof {
        assert(out@ =~= lightpoint_intensity_vals(sv));
    }
    out
}

fn lightpoint_radius_curve(s: &Vec<AnmStrmEntry>) -> (r: Vec<u32>)
    requires
        s@.len() <= 0x7FFF,
        forall|j: int| 0 <= j < s@.len() ==> (#[trigger] s@[j].entry_data) is LightPoint,
    ensures
        r@ == lightpoint_radius_vals(series_view(*s)),
{
    let ghost sv = series_view(*s);
    let mut out: Vec<u32> = Vec::new();
    let mut i: usize = 0;
    while i < s.len()
        invariant
            i <= s@.len() <= 0x7FFF,
            forall|j: int| 0 <= j < s@.len() ==> (#[trigger] s@[j].entry_data) is LightPoint,
            sv == series_view(*s),
            out@ == lightpoint_radius_vals(sv).take(i as int),
        decreases s@.len() - i,
    {
        match &s[i].entry_data {
            Entry::LightPoint(b) => {
                out.push(b.radius);
            },
            _ => {
                proof {
                    assert(false);
                }
            },
        }
        proof {
            assert(out@ =~= lightpoint_radius_vals(sv).take(i + 1));
        }
        i += 1;
    }
    proof {
        assert(out@ =~= lightpoint_radius_vals(sv));
    }
    out
}

fn lightpoint_falloff_curve(s: &Vec<AnmStrmEntry>) -> (r: Vec<u32>)
    requires
        s@.len() <= 0x7FFF,
        forall|j: int| 0 <= j < s@.len() ==> (#[trigger] s@[j].entry_data) is LightPoint,
    ensures
        r@ == lightpoint_falloff_vals(series_view(*s)),
{
    let ghost sv = series_view(*s);
    let mut out: Vec<u32> = Vec::new();
    let mut i: usize = 0;
    while i < s.len()
        invariant
            i <= s@.len() <= 0x7FFF,
            forall|j: int| 0 <= j < s@.len() ==> (#[trigger] s@[j].entry_data) is LightPoint,
            sv == series_view(*s),
            out@ == lightpoint_falloff_vals(sv).take(i as int),
        decreases s@.len() - i,
    {
        match &s[i].entry_data {
            Entry::LightPoint(b) => {
                out.push(b.falloff);
            },
            _ => {
                proof {
                    assert(false);
                }
            },
        }
        proof {
            assert(out@ =~= lightpoint_falloff_vals(sv).take(i + 1));
        }
        i += 1;
    }
    proof {
        assert(out@ =~= lightpoint_falloff_vals(sv));
    }
    out
}

fn ambient_color_curve(s: &Vec<AnmStrmEntry>) -> (r: Vec<RGB>)
    requires
        s@.len() <= 0x7FFF,
        forall|j: int| 0 <= j < s@.len() ==> (#[trigger] s@[j].entry_data) is Ambient,
    ensures
        r@ == ambient_color_vals(series_view(*s)),
{
    let ghost sv = series_view(*s);
    let mut out: Vec<RGB> = Vec::new();
    let mut i: usize = 0;
    while i < s.len()
        invariant
            i <= s@.len() <= 0x7FFF,
            forall|j: int| 0 <= j < s@.len() ==> (#[trigger] s@[j].entry_data) is Ambient,
            sv == series_view(*s),
            out@ == ambient_color_vals(sv).take(i as int),
        decreases s@.len() - i,
    {
        match &s[i].entry_data {
            Entry::Ambient(b) => {
                out.push(RGB { r: quantize_u8(b.color.x, RGB_CONVERT), g: quantize_u8(b.color.y, RGB_CONVERT), b: quantize_u8(b.color.z, RGB_CONVERT) });
            },
            _ => {
                proof {
                    assert(false);
                }
            },
        }
        proof {
            assert(out@ =~= ambient_color_vals(sv).take(i + 1));
        }
        i += 1;
    }
    proof {
        assert(out@ =~= ambient_color_vals(sv));
    }
    out
}

fn ambient_intensity_curve(s: &Vec<AnmStrmEntry>) -> (r: Vec<u32>)
    requires
        s@.len() <= 0x7FFF,
        forall|j: int| 0 <= j < s@.len() ==> (#[trigger] s@[j].entry_data) is Ambient,
    ensures
        r@ == ambient_intensity_vals(series_view(*s)),
{
    let ghost sv = series_view(*s);
    let mut out: Vec<u32> = Vec::new();
    let mut i: usize = 0;
    while i < s.len()
        invariant
            i <= s@.len() <= 0x7FFF,
            forall|j: int| 0 <= j < s@.len() ==> (#[trigger] s@[j].entry_data) is Ambient,
            sv == series_view(*s),
            out@ == ambient_intensity_vals(sv).take(i as int),
        decreases s@.len() - i,
    {
        match &s[i].entry_data {
            Entry::Ambient(b) => {
                out.push(b.intensity);
            },
            _ => {
                proof {
                    assert(false);
                }
            },
        }
        proof {
            assert(out@ =~= ambient_intensity_vals(sv).take(i + 1));
        }
        i += 1;
    }
    proof {
        assert(out@ =~= ambient_intensity_vals(sv));
    }
    out
}

fn material_kf_channel_curve(s: &Vec<AnmStrmEntry>, c: usize) -> (r: Vec<KeyframeFloat>)
    requires
        s@.len() <= 0x7FFF,
        c < 16,
        forall|j: int| 0 <= j < s@.len() ==> (#[trigger] s@[j].entry_data) is Material,
    ensures
        r@ == mat_kf_channel_keys(series_view(*s), c as int),
{
    let ghost sv = series_view(*s);
    let mut out: Vec<KeyframeFloat> = Vec::new();
    let mut i: usize = 0;
    while i < s.len()
        invariant
            i <= s@.len() <= 0x7FFF,
            c < 16,
            forall|j: int| 0 <= j < s@.len() ==> (#[trigger] s@[j].entry_data) is Material,
            sv == series_view(*s),
            out@ == mat_kf_channel_keys(sv, c as int).take(2 * i as int),
        decreases s@.len() - i,
    {
        match &s[i].entry_data {
            Entry::Material(b) => {
                out.push(KeyframeFloat { frame: (100 * i) as i32, value: b.ambient_color[c] });
                out.push(KeyframeFloat { frame: (100 * i + 50) as i32, value: b.ambient_color[c] });
            },
            _ => {
                proof {
                    assert(false);
                }
            },
        }
        proof {
            assert(out@ =~= mat_kf_channel_keys(sv, c as int).take(2 * (i + 1)));
        }
        i += 1;
    }
    proof {
        assert(out@ =~= mat_kf_channel_keys(sv, c as int));
    }
    out
}

/// A synthetic constant float curve: one copy of `bits` per frame.
fn const_float_curve(n: usize, bits: u32) -> (r: Vec<u32>)
    ensures
        r@ == Seq::new(n as nat, |i: int| bits),
{
    let mut out: Vec<u32> = Vec::new();
    let mut i: usize = 0;
    while i < n
        invariant
            i <= n,
            out@ == Seq::new(i as nat, |j: int| bits),
        decreases n - i,
    {
        out.push(bits);
        proof {
            assert(out@ =~= Seq::new((i + 1) as nat, |j: int| bits));
        }
        i += 1;
    }
    proof {
        assert(out@ =~= Seq::new(n as nat, |j: int| bits));
    }
    out
}


/// Build the finalized clip entry for one bone series.
fn build_bone_entry(s: &Vec<AnmStrmEntry>) -> (r: AnmEntry)
    requires
        series_ok(series_view(*s)),
        series_view(*s)[0].entry_data is Bone,
    ensures
        r@ == convert_series_spec(series_view(*s)),
{
    let ghost sv = series_view(*s);
    proof {
        assert forall|j: int| 0 <= j < s@.len() implies (#[trigger] s@[j].entry_data) is Bone by {
            assert(sv[j] == s@[j]@);
            assert(sv[j].entry_data.same_kind(sv[0].entry_data));
        }
    }
    let c0 = finalize_one(Curve::KeyframeVector3(bone_location_curve(s)));
    let c1 = finalize_one(Curve::QuaternionShort(bone_rotation_curve(s)));
    let c2 = finalize_one(Curve::Vector3Short(bone_scale_curve(s)));
    let c3 = finalize_one(Curve::Float(bone_toggle_curve(s)));
    let n0 = c0.get_frame_count();
    let n1 = c1.get_frame_count();
    let n2 = c2.get_frame_count();
    let n3 = c3.get_frame_count();
    let mut curve_headers: Vec<CurveHeader> = Vec::new();
    curve_headers.push(
        CurveHeader {
            curve_index: 0,
            curve_format: AnmCurveFormat::INT1_FLOAT3.code(),
            frame_count: n0,
            curve_size: 8,
        },
    );
    curve_headers.push(
        CurveHeader {
            curve_index: 1,
            curve_format: AnmCurveFormat::SHORT4.code(),
            frame_count: n1,
            curve_size: 8,
        },
    );
    curve_headers.push(
        CurveHeader {
            curve_index: 2,
            curve_format: AnmCurveFormat::SHORT3.code(),
            frame_count: n2,
            curve_size: 8,
        },
    );
    curve_headers.push(
        CurveHeader {
            curve_index: 3,
            curve_format: AnmCurveFormat::FLOAT1.code(),
            frame_count: n3,
            curve_size: 8,
        },
    );
    let mut curves: Vec<Curve> = Vec::new();
    curves.push(c0);
    curves.push(c1);
    curves.push(c2);
    curves.push(c3);
    let entry = AnmEntry {
        coord: s[0].coord,
        entry_format: AnmEntryFormat::Bone.code(),
        curve_count: 4,
        curve_headers,
        curves,
    };
    proof {
        assert(raw_curves(sv) == bone_raw_curves(sv));
        assert(entry@.curves =~~= built_curves(sv));
        assert(entry@.curve_headers =~~= built_headers(sv));
        assert(entry@ =~~= convert_series_spec(sv));
    }
    entry
}

/// Build the finalized clip entry for one camera series.
fn build_camera_entry(s: &Vec<AnmStrmEntry>) -> (r: AnmEntry)
    requires
        series_ok(series_view(*s)),
        series_view(*s)[0].entry_data is Camera,
    ensures
        r@ == convert_series_spec(series_view(*s)),
{
    let ghost sv = series_view(*s);
    proof {
        assert forall|j: int| 0 <= j < s@.len() implies (#[trigger] s@[j].entry_data) is Camera by {
            assert(sv[j] == s@[j]@);
            assert(sv[j].entry_data.same_kind(sv[0].entry_data));
        }
    }
    let c0 = finalize_one(Curve::KeyframeVector3(camera_location_curve(s)));
    let c1 = finalize_one(Curve::QuaternionShort(camera_rotation_curve(s)));
    let c2 = finalize_one(Curve::KeyframeFloat(camera_fov_curve(s)));
    let n0 = c0.get_frame_count();
    let n1 = c1.get_frame_count();
    let n2 = c2.get_frame_count();
    let mut curve_headers: Vec<CurveHeader> = Vec::new();
    curve_headers.push(
        CurveHeader {
            curve_index: 0,
            curve_format: AnmCurveFormat::INT1_FLOAT3.code(),
            frame_count: n0,
            curve_size: 8,
        },
    );
    curve_headers.push(
        CurveHeader {
            curve_index: 1,
            curve_format: AnmCurveFormat::SHORT4.code(),
            frame_count: n1,
            curve_size: 8,
        },
    );
    curve_headers.push(
        CurveHeader {
            curve_index: 2,
            curve_format: AnmCurveFormat::INT1_FLOAT1.code(),
            frame_count: n2,
            curve_size: 8,
        },
    );
    let mut curves: Vec<Curve> = Vec::new();
    curves.push(c0);
    curves.push(c1);
    curves.push(c2);
    let entry = AnmEntry {
        coord: s[0].coord,
        entry_format: AnmEntryFormat::Camera.code(),
        curve_count: 3,
        curve_headers,
        curves,
    };
    proof {
        assert(raw_curves(sv) == camera_raw_curves(sv));
        assert(entry@.curves =~~= built_curves(sv));
        assert(entry@.curve_headers =~~= built_headers(sv));
        assert(entry@ =~~= convert_series_spec(sv));
    }
    entry
}

/// Build the finalized clip entry for one material series.
fn build_material_entry(s: &Vec<AnmStrmEntry>) -> (r: AnmEntry)
    requires
        series_ok(series_view(*s)),
        series_view(*s)[0].entry_data is Material,
    ensures
        r@ == convert_series_spec(series_view(*s)),
{
    let ghost sv = series_view(*s);
    proof {
        assert forall|j: int| 0 <= j < s@.len() implies (#[trigger] s@[j].entry_data) is Material by {
            assert(sv[j] == s@[j]@);
            assert(sv[j].entry_data.same_kind(sv[0].entry_data));
        }
    }
    let c0 = finalize_one(Curve::KeyframeFloat(material_kf_channel_curve(s, 0)));
    let c1 = finalize_one(Curve::KeyframeFloat(material_kf_channel_curve(s, 1)));
    let c2 = finalize_one(Curve::Float(material_channel_curve(s, 2)));
    let c3 = finalize_one(Curve::Float(material_channel_curve(s, 3)));
    let c4 = finalize_one(Curve::Float(material_channel_curve(s, 4)));
    let c5 = finalize_one(Curve::Float(material_channel_curve(s, 5)));
    let c6 = finalize_one(Curve::Float(material_channel_curve(s, 6)));
    let c7 = finalize_one(Curve::Float(material_channel_curve(s, 7)));
    let c8 = finalize_one(Curve::KeyframeFloat(material_kf_channel_curve(s, 8)));
    let c9 = finalize_one(Curve::KeyframeFloat(material_kf_channel_curve(s, 9)));
    let c10 = finalize_one(Curve::Float(material_channel_curve(s, 10)));
    let c11 = finalize_one(Curve::Float(material_channel_curve(s, 11)));
    let c12 = finalize_one(Curve::Float(material_channel_curve(s, 12)));
    let c13 = finalize_one(Curve::Float(material_channel_curve(s, 13)));
    let c14 = finalize_one(Curve::Float(material_channel_curve(s, 14)));
    let c15 = finalize_one(Curve::Float(material_channel_curve(s, 15)));
    let c16 = finalize_one(Curve::Float(const_float_curve(s.len(), 0)));
    let c17 = finalize_one(Curve::Float(const_float_curve(s.len(), 0x3F800000)));
    let n0 = c0.get_frame_count();
    let n1 = c1.get_frame_count();
    let n2 = c2.get_frame_count();
    let n3 = c3.get_frame_count();
    let n4 = c4.get_frame_count();
    let n5 = c5.get_frame_count();
    let n6 = c6.get_frame_count();
    let n7 = c7.get_frame_count();
    let n8 = c8.get_frame_count();
    let n9 = c9.get_frame_count();
    let n10 = c10.get_frame_count();
    let n11 = c11.get_frame_count();
    let n12 = c12.get_frame_count();
    let n13 = c13.get_frame_count();
    let n14 = c14.get_frame_count();
    let n15 = c15.get_frame_count();
    let n16 = c16.get_frame_count();
    let n17 = c17.get_frame_count();
    let mut curve_headers: Vec<CurveHeader> = Vec::new();
    curve_headers.push(
        CurveHeader {
            curve_index: 0,
            curve_format: AnmCurveFormat::INT1_FLOAT1.code(),
            frame_count: n0,
            curve_size: 8,
        },
    );
    curve_headers.push(
        CurveHeader {
            curve_index: 1,
            curve_format: AnmCurveFormat::INT1_FLOAT1.code(),
            frame_count: n1,
            curve_size: 8,
        },
    );
    curve_headers.push(
        CurveHeader {
            curve_index: 2,
            curve_format: AnmCurveFormat::FLOAT1ALT.code(),
            frame_count: n2,
            curve_size: 8,
        },
    );
    curve_headers.push(
        CurveHeader {
            curve_index: 3,
            curve_format: AnmCurveFormat::FLOAT1ALT.code(),
            frame_count: n3,
            curve_size: 8,
        },
    );
    curve_headers.push(
        CurveHeader {
            curve_index: 4,
            curve_format: AnmCurveFormat::FLOAT1ALT.code(),
            frame_count: n4,
            curve_size: 8,
        },
    );
    curve_headers.push(
        CurveHeader {
            curve_index: 5,
            curve_format: AnmCurveFormat::FLOAT1ALT.code(),
            frame_count: n5,
            curve_size: 8,
        },
    );
    curve_headers.push(
        CurveHeader {
            curve_index: 6,
            curve_format: AnmCurveFormat::FLOAT1ALT.code(),
            frame_count: n6,
            curve_size: 8,
        },
    );
    curve_headers.push(
        CurveHeader {
            curve_index: 7,
            curve_format: AnmCurveFormat::FLOAT1ALT.code(),
            frame_count: n7,
            curve_size: 8,
        },
    );
    curve_headers.push(
        CurveHeader {
            curve_index: 8,
            curve_format: AnmCurveFormat::INT1_FLOAT1.code(),
            frame_count: n8,
            curve_size: 8,
        },
    );
    curve_headers.push(
        CurveHeader {
            curve_index: 9,
            curve_format: AnmCurveFormat::INT1_FLOAT1.code(),
            frame_count: n9,
            curve_size: 8,
        },
    );
    curve_headers.push(
        CurveHeader {
            curve_index: 10,
            curve_format: AnmCurveFormat::FLOAT1ALT.code(),
            frame_count: n10,
            curve_size: 8,
        },
    );
    curve_headers.push(
        CurveHeader {
            curve_index: 11,
            curve_format: AnmCurveFormat::FLOAT1ALT.code(),
            frame_count: n11,
            curve_size: 8,
        },
    );
    curve_headers.push(
        CurveHeader {
            curve_index: 12,
            curve_format: AnmCurveFormat::FLOAT1ALT.code(),
            frame_count: n12,
            curve_size: 8,
        },
    );
    curve_headers.push(
        CurveHeader {
            curve_index: 13,
            curve_format: AnmCurveFormat::FLOAT1ALT.code(),
            frame_count: n13,
            curve_size: 8,
        },
    );
    curve_headers.push(
        CurveHeader {
            curve_index: 14,
            curve_format: AnmCurveFormat::FLOAT1ALT.code(),
            frame_count: n14,
            curve_size: 8,
        },
    );
    curve_headers.push(
        CurveHeader {
            curve_index: 15,
            curve_format: AnmCurveFormat::FLOAT1ALT.code(),
            frame_count: n15,
            curve_size: 8,
        },
    );
    curve_headers.push(
        CurveHeader {
            curve_index: 16,
            curve_format: AnmCurveFormat::FLOAT1.code(),
            frame_count: n16,
            curve_size: 8,
        },
    );
    curve_headers.push(
        CurveHeader {
            curve_index: 17,
            curve_format: AnmCurveFormat::FLOAT1.code(),
            frame_count: n17,
            curve_size: 8,
        },
    );
    let mut curves: Vec<Curve> = Vec::new();
    curves.push(c0);
    curves.push(c1);
    curves.push(c2);
    curves.push(c3);
    curves.push(c4);
    curves.push(c5);
    curves.push(c6);
    curves.push(c7);
    curves.push(c8);
    curves.push(c9);
    curves.push(c10);
    curves.push(c11);
    curves.push(c12);
    curves.push(c13);
    curves.push(c14);
    curves.push(c15);
    curves.push(c16);
    curves.push(c17);
    let entry = AnmEntry {
        coord: s[0].coord,
        entry_format: AnmEntryFormat::Material.code(),
        curve_count: 18,
        curve_headers,
        curves,
    };
    proof {
        assert(raw_curves(sv) == material_raw_curves(sv));
        assert(entry@.curves =~~= built_curves(sv));
        assert(entry@.curve_headers =~~= built_headers(sv));
        assert(entry@ =~~= convert_series_spec(sv));
    }
    entry
}

/// Build the finalized clip entry for one lightdirc series.
fn build_lightdirc_entry(s: &Vec<AnmStrmEntry>) -> (r: AnmEntry)
    requires
        series_ok(series_view(*s)),
        series_view(*s)[0].entry_data is LightDirc,
    ensures
        r@ == convert_series_spec(series_view(*s)),
{
    let ghost sv = series_view(*s);
    proof {
        assert forall|j: int| 0 <= j < s@.len() implies (#[trigger] s@[j].entry_data) is LightDirc by {
            assert(sv[j] == s@[j]@);
            assert(sv[j].entry_data.same_kind(sv[0].entry_data));
        }
    }
    let c0 = finalize_one(Curve::RGB(lightdirc_color_curve(s)));
    let c1 = finalize_one(Curve::Float(lightdirc_intensity_curve(s)));
    let c2 = finalize_one(Curve::QuaternionShort(lightdirc_direction_curve(s)));
    let n0 = c0.get_frame_count();
    let n1 = c1.get_frame_count();
    let n2 = c2.get_frame_count();
    let mut curve_headers: Vec<CurveHeader> = Vec::new();
    curve_headers.push(
        CurveHeader {
            curve_index: 0,
            curve_format: AnmCurveFormat::BYTE3.code(),
            frame_count: n0,
            curve_size: 8,
        },
    );
    curve_headers.push(
        CurveHeader {
            curve_index: 1,
            curve_format: AnmCurveFormat::FLOAT1ALT.code(),
            frame_count: n1,
            curve_size: 8,
        },
    );
    curve_headers.push(
        CurveHeader {
            curve_index: 2,
            curve_format: AnmCurveFormat::SHORT4.code(),
            frame_count: n2,
            curve_size: 8,
        },
    );
    let mut curves: Vec<Curve> = Vec::new();
    curves.push(c0);
    curves.push(c1);
    curves.push(c2);
    let entry = AnmEntry {
        coord: s[0].coord,
        entry_format: AnmEntryFormat::LightDirc.code(),
        curve_count: 3,
        curve_headers,
        curves,
    };
    proof {
        assert(raw_curves(sv) == lightdirc_raw_curves(sv));
        assert(entry@.curves =~~= built_curves(sv));
        assert(entry@.curve_headers =~~= built_headers(sv));
        assert(entry@ =~~= convert_series_spec(sv));
    }
    entry
}

/// Build the finalized clip entry for one lightpoint series.
fn build_lightpoint_entry(s: &Vec<AnmStrmEntry>) -> (r: AnmEntry)
    requires
        series_ok(series_view(*s)),
        series_view(*s)[0].entry_data is LightPoint,
    ensures
        r@ == convert_series_spec(series_view(*s)),
{
    let ghost sv = series_view(*s);
    proof {
        assert forall|j: int| 0 <= j < s@.len() implies (#[trigger] s@[j].entry_data) is LightPoint by {
            assert(sv[j] == s@[j]@);
            assert(sv[j].entry_data.same_kind(sv[0].entry_data));
        }
    }
    let c0 = finalize_one(Curve::RGB(lightpoint_color_curve(s)));
    let c1 = finalize_one(Curve::KeyframeVector3(lightpoint_position_curve(s)));
    let c2 = finalize_one(Curve::Float(lightpoint_intensity_curve(s)));
    let c3 = finalize_one(Curve::Float(lightpoint_radius_curve(s)));
    let c4 = finalize_one(Curve::Float(lightpoint_falloff_curve(s)));
    let n0 = c0.get_frame_count();
    let n1 = c1.get_frame_count();
    let n2 = c2.get_frame_count();
    let n3 = c3.get_frame_count();
    let n4 = c4.get_frame_count();
    let mut curve_headers: Vec<CurveHeader> = Vec::new();
    curve_headers.push(
        CurveHeader {
            curve_index: 0,
            curve_format: AnmCurveFormat::BYTE3.code(),
            frame_count: n0,
            curve_size: 8,
        },
    );
    curve_headers.push(
        CurveHeader {
            curve_index: 1,
            curve_format: AnmCurveFormat::INT1_FLOAT3.code(),
            frame_count: n1,
            curve_size: 8,
        },
    );
    curve_headers.push(
        CurveHeader {
            curve_index: 2,
            curve_format: AnmCurveFormat::FLOAT1ALT.code(),
            frame_count: n2,
            curve_size: 8,
        },
    );
    curve_headers.push(
        CurveHeader {
            curve_index: 3,
            curve_format: AnmCurveFormat::FLOAT1ALT.code(),
            frame_count: n3,
            curve_size: 8,
        },
    );
    curve_headers.push(
        CurveHeader {
            curve_index: 4,
            curve_format: AnmCurveFormat::FLOAT1ALT.code(),
            frame_count: n4,
            curve_size: 8,
        },
    );
    let mut curves: Vec<Curve> = Vec::new();
    curves.push(c0);
    curves.push(c1);
    curves.push(c2);
    curves.push(c3);
    curves.push(c4);
    let entry = AnmEntry {
        coord: s[0].coord,
        entry_format: AnmEntryFormat::LightPoint.code(),
        curve_count: 5,
        curve_headers,
        curves,
    };
    proof {
        assert(raw_curves(sv) == lightpoint_raw_curves(sv));
        assert(entry@.curves =~~= built_curves(sv));
        assert(entry@.curve_headers =~~= built_headers(sv));
        assert(entry@ =~~= convert_series_spec(sv));
    }
    entry
}

/// Build the finalized clip entry for one ambient series.
fn build_ambient_entry(s: &Vec<AnmStrmEntry>) -> (r: AnmEntry)
    requires
        series_ok(series_view(*s)),
        series_view(*s)[0].entry_data is Ambient,
    ensures
        r@ == convert_series_spec(series_view(*s)),
{
    let ghost sv = series_view(*s);
    proof {
        assert forall|j: int| 0 <= j < s@.len() implies (#[trigger] s@[j].entry_data) is Ambient by {
            assert(sv[j] == s@[j]@);
            assert(sv[j].entry_data.same_kind(sv[0].entry_data));
        }
    }
    let c0 = finalize_one(Curve::RGB(ambient_color_curve(s)));
    let c1 = finalize_one(Curve::Float(ambient_intensity_curve(s)));
    let n0 = c0.get_frame_count();
    let n1 = c1.get_frame_count();
    let mut curve_headers: Vec<CurveHeader> = Vec::new();
    curve_headers.push(
        CurveHeader {
            curve_index: 0,
            curve_format: AnmCurveFormat::BYTE3.code(),
            frame_count: n0,
            curve_size: 8,
        },
    );
    curve_headers.push(
        CurveHeader {
            curve_index: 1,
            curve_format: AnmCurveFormat::FLOAT1ALT2.code(),
            frame_count: n1,
            curve_size: 8,
        },
    );
    let mut curves: Vec<Curve> = Vec::new();
    curves.push(c0);
    curves.push(c1);
    let entry = AnmEntry {
        coord: s[0].coord,
        entry_format: AnmEntryFormat::Ambient.code(),
        curve_count: 2,
        curve_headers,
        curves,
    };
    proof {
        assert(raw_curves(sv) == ambient_raw_curves(sv));
        assert(entry@.curves =~~= built_curves(sv));
        assert(entry@.curve_headers =~~= built_headers(sv));
        assert(entry@ =~~= convert_series_spec(sv));
    }
    entry
}

/// Convert every aggregated time series into its clip entry, in input
/// order: one entry per series, each built by the kind's curve table and
/// finalized.
pub fn convert_entries(anmstrm_entries: Vec<(u16, Vec<AnmStrmEntry>)>) -> (r: Vec<AnmEntry>)
    requires
        forall|k: int|
            0 <= k < anmstrm_entries@.len() ==> series_ok(
                series_view((#[trigger] anmstrm_entries@[k]).1),
            ),
    ensures
        r@.len() == anmstrm_entries@.len(),
        forall|k: int|
            0 <= k < r@.len() ==> (#[trigger] r@[k])@ == convert_series_spec(
                series_view(anmstrm_entries@[k].1),
            ),
{
    let mut out: Vec<AnmEntry> = Vec::new();
    let mut k: usize = 0;
    while k < anmstrm_entries.len()
        invariant
            k <= anmstrm_entries@.len(),
            forall|j: int|
                0 <= j < anmstrm_entries@.len() ==> series_ok(
                    series_view((#[trigger] anmstrm_entries@[j]).1),
                ),
            out@.len() == k,
            forall|j: int|
                0 <= j < k ==> (#[trigger] out@[j])@ == convert_series_spec(
                    series_view(anmstrm_entries@[j].1),
                ),
        decreases anmstrm_entries@.len() - k,
    {
        let s = &anmstrm_entries[k].1;
        proof {
            assert(series_ok(series_view(*s)));
            assert(series_view(*s)[0] == s@[0]@);
        }
        let e = match &s[0].entry_data {
            Entry::Bone(_) => build_bone_entry(s),
            Entry::Camera(_) => build_camera_entry(s),
            Entry::Material(_) => build_material_entry(s),
            Entry::LightDirc(_) => build_lightdirc_entry(s),
            Entry::LightPoint(_) => build_lightpoint_entry(s),
            Entry::Ambient(_) => build_ambient_entry(s),
            _ => unreached(),
        };
        out.push(e);
        k += 1;
    }
    out
}


// ------------------------------------------------- Clip-level assembly

/// Sort key of a clip entry: its local coordinate index.
pub open spec fn entry_key(e: AnmEntryView) -> u16 {
    e.coord.coord_index
}

/// Insert `e` into `s` from the right, passing every element whose key is
/// strictly greater: the stable insertion step.
pub open spec fn insert_sorted(e: AnmEntryView, s: Seq<AnmEntryView>) -> Seq<AnmEntryView>
    decreases s.len(),
{
    if s.len() == 0 {
        seq![e]
    } else if entry_key(e) < entry_key(s.last()) {
        insert_sorted(e, s.drop_last()).push(s.last())
    } else {
        s.push(e)
    }
}

/// Stable sort of clip entries by coordinate index: entries with equal
/// keys keep their input order.
pub open spec fn sort_entries_spec(s: Seq<AnmEntryView>) -> Seq<AnmEntryView>
    decreases s.len(),
{
    if s.len() == 0 {
        Seq::empty()
    } else {
        insert_sorted(s.last(), sort_entries_spec(s.drop_last()))
    }
}

/// Where every element of `s` from position `j` on has a key strictly
/// greater than `e`'s, and the element just before `j` (if any) does not,
/// the stable insertion lands exactly at position `j`.
proof fn lemma_insert_sorted_at(e: AnmEntryView, s: Seq<AnmEntryView>, j: int)
    requires
        0 <= j <= s.len(),
        forall|m: int| j <= m < s.len() ==> entry_key(e) < entry_key(#[trigger] s[m]),
        j > 0 ==> entry_key(s[j - 1]) <= entry_key(e),
    ensures
        insert_sorted(e, s) == s.take(j) + seq![e] + s.skip(j),
    decreases s.len() - j,
{
    if j == s.len() {
        if s.len() == 0 {
            assert(insert_sorted(e, s) =~= s.take(j) + seq![e] + s.skip(j));
        } else {
            assert(insert_sorted(e, s) =~= s.take(j) + seq![e] + s.skip(j));
        }
    } else {
        assert(entry_key(e) < entry_key(s.last()));
        lemma_insert_sorted_at(e, s.drop_last(), j);
        assert(insert_sorted(e, s) == insert_sorted(e, s.drop_last()).push(s.last()));
        assert(insert_sorted(e, s.drop_last()) == s.drop_last().take(j) + seq![e]
            + s.drop_last().skip(j));
        assert(insert_sorted(e, s) =~= s.take(j) + seq![e] + s.skip(j));
    }
}

/// Stable insertion sort of clip entries by coordinate index.
pub fn sort_entries(entries: Vec<AnmEntry>) -> (r: Vec<AnmEntry>)
    ensures
        r@.map_values(|e: AnmEntry| e@) == sort_entries_spec(
            entries@.map_values(|e: AnmEntry| e@),
        ),
{
    let ghost orig = entries@.map_values(|e: AnmEntry| e@);
    let mut v = entries;
    if v.len() == 0 {
        proof {
            assert(sort_entries_spec(orig) =~= orig);
        }
        return v;
    }
    proof {
        assert(orig.take(1).drop_last() =~= Seq::<AnmEntryView>::empty());
        assert(sort_entries_spec(Seq::<AnmEntryView>::empty()) =~= Seq::<AnmEntryView>::empty());
        assert(sort_entries_spec(orig.take(1)) == insert_sorted(
            orig.take(1).last(),
            sort_entries_spec(orig.take(1).drop_last()),
        ));
        assert(insert_sorted(orig.take(1).last(), Seq::<AnmEntryView>::empty()) =~= seq![
            orig[0],
        ]);
        assert(v@.map_values(|e: AnmEntry| e@).take(1) =~= seq![orig[0]]);
        assert(v@.map_values(|e: AnmEntry| e@).skip(1) =~= orig.skip(1));
    }
    let mut i: usize = 1;
    while i < v.len()
        invariant
            v@.len() == orig.len(),
            1 <= i <= orig.len(),
            v@.map_values(|e: AnmEntry| e@).take(i as int) == sort_entries_spec(
                orig.take(i as int),
            ),
            v@.map_values(|e: AnmEntry| e@).skip(i as int) == orig.skip(i as int),
        decreases orig.len() - i,
    {
        let ghost pre = v@.map_values(|e: AnmEntry| e@);
        proof {
            assert(pre.skip(i as int)[0] == orig.skip(i as int)[0]);
            assert(pre[i as int] == orig[i as int]);
        }
        let x = v.remove(i);
        let ghost sp = pre.take(i as int);
        proof {
            assert(v@.map_values(|e: AnmEntry| e@) =~= sp + pre.skip(i as int + 1));
        }
        let mut j: usize = i;
        while j > 0 && v[j - 1].coord.coord_index > x.coord.coord_index
            invariant
                j <= i,
                i < pre.len(),
                v@.len() == pre.len() - 1,
                x@ == pre[i as int],
                v@.map_values(|e: AnmEntry| e@) == sp + pre.skip(i as int + 1),
                sp == pre.take(i as int),
                forall|m: int| j <= m < i ==> entry_key(x@) < entry_key(#[trigger] sp[m]),
            decreases j,
        {
            proof {
                assert(v@.map_values(|e: AnmEntry| e@)[j - 1] == sp[j - 1]);
            }
            j -= 1;
        }
        proof {
            assert(j > 0 ==> entry_key(sp[j - 1]) <= entry_key(x@)) by {
                if j > 0 {
                    assert(v@.map_values(|e: AnmEntry| e@)[j - 1] == sp[j - 1]);
                }
            };
            lemma_insert_sorted_at(x@, sp, j as int);
        }
        v.insert(j, x);
        proof {
            let post = v@.map_values(|e: AnmEntry| e@);
            assert(post =~= (sp + pre.skip(i as int + 1)).insert(j as int, x@));
            assert(post.take(i as int + 1) =~= sp.take(j as int) + seq![x@] + sp.skip(j as int));
            assert(orig.take(i as int + 1).drop_last() =~= orig.take(i as int));
            assert(orig.take(i as int + 1).last() == orig[i as int]);
            assert(post.take(i as int + 1) == sort_entries_spec(orig.take(i as int + 1)));
            assert(post.skip(i as int + 1) =~= pre.skip(i as int + 1));
            assert(pre.skip(i as int + 1) =~= orig.skip(i as int + 1)) by {
                assert forall|m: int| 0 <= m < pre.len() - i - 1 implies #[trigger] pre.skip(
                    i as int + 1,
                )[m] == orig.skip(i as int + 1)[m] by {
                    assert(pre.skip(i as int)[m + 1] == orig.skip(i as int)[m + 1]);
                }
            };
        }
        i += 1;
    }
    proof {
        assert(orig.take(orig.len() as int) =~= orig);
        assert(v@.map_values(|e: AnmEntry| e@).take(orig.len() as int) =~= v@.map_values(
            |e: AnmEntry| e@,
        ));
    }
    v
}

proof fn lemma_insert_sorted_len(e: AnmEntryView, s: Seq<AnmEntryView>)
    ensures
        insert_sorted(e, s).len() == s.len() + 1,
    decreases s.len(),
{
    if s.len() == 0 {
    } else if entry_key(e) < entry_key(s.last()) {
        lemma_insert_sorted_len(e, s.drop_last());
    }
}

/// The stable sort keeps the number of entries.
pub proof fn lemma_sort_entries_len(s: Seq<AnmEntryView>)
    ensures
        sort_entries_spec(s).len() == s.len(),
    decreases s.len(),
{
    if s.len() == 0 {
    } else {
        lemma_sort_entries_len(s.drop_last());
        lemma_insert_sorted_len(s.last(), sort_entries_spec(s.drop_last()));
    }
}

proof fn lemma_insert_sorted_multiset(e: AnmEntryView, s: Seq<AnmEntryView>)
    ensures
        insert_sorted(e, s).to_multiset() == s.to_multiset().insert(e),
    decreases s.len(),
{
    broadcast use vstd::seq_lib::group_to_multiset_ensures;

    if s.len() == 0 {
        assert(seq![e] =~= Seq::<AnmEntryView>::empty().push(e));
        assert(Seq::<AnmEntryView>::empty().to_multiset() =~= Multiset::<AnmEntryView>::empty());
        assert(insert_sorted(e, s).to_multiset() =~= s.to_multiset().insert(e));
    } else if entry_key(e) < entry_key(s.last()) {
        lemma_insert_sorted_multiset(e, s.drop_last());
        assert(s =~= s.drop_last().push(s.last()));
        assert(insert_sorted(e, s).to_multiset() =~= s.to_multiset().insert(e));
    } else {
        assert(insert_sorted(e, s).to_multiset() =~= s.to_multiset().insert(e));
    }
}

/// The stable sort is a permutation: it keeps every entry, counting
/// multiplicity.
pub proof fn lemma_sort_entries_multiset(s: Seq<AnmEntryView>)
    ensures
        sort_entries_spec(s).to_multiset() == s.to_multiset(),
    decreases s.len(),
{
    broadcast use vstd::seq_lib::group_to_multiset_ensures;

    if s.len() == 0 {
    } else {
        lemma_sort_entries_multiset(s.drop_last());
        lemma_insert_sorted_multiset(s.last(), sort_entries_spec(s.drop_last()));
        assert(s =~= s.drop_last().push(s.last()));
        assert(sort_entries_spec(s).to_multiset() =~= s.to_multiset());
    }
}


proof fn lemma_insert_sorted_keeps_sorted(e: AnmEntryView, s: Seq<AnmEntryView>)
    requires
        forall|a: int, b: int|
            0 <= a < b < s.len() ==> entry_key(#[trigger] s[a]) <= entry_key(#[trigger] s[b]),
    ensures
        forall|a: int, b: int|
            0 <= a < b < insert_sorted(e, s).len() ==> entry_key(
                #[trigger] insert_sorted(e, s)[a],
            ) <= entry_key(#[trigger] insert_sorted(e, s)[b]),
    decreases s.len(),
{
    broadcast use vstd::seq_lib::group_to_multiset_ensures;

    if s.len() == 0 {
    } else if entry_key(e) < entry_key(s.last()) {
        assert forall|a: int, b: int|
            0 <= a < b < s.drop_last().len() implies entry_key(#[trigger] s.drop_last()[a])
            <= entry_key(#[trigger] s.drop_last()[b]) by {
            assert(s.drop_last()[a] == s[a]);
            assert(s.drop_last()[b] == s[b]);
        }
        lemma_insert_sorted_keeps_sorted(e, s.drop_last());
        lemma_insert_sorted_multiset(e, s.drop_last());
        let front = insert_sorted(e, s.drop_last());
        assert forall|a: int| 0 <= a < front.len() implies entry_key(#[trigger] front[a])
            <= entry_key(s.last()) by {
            assert(front.contains(front[a]));
            assert(front.to_multiset().count(front[a]) > 0);
            if front[a] == e {
            } else {
                assert(s.drop_last().to_multiset().count(front[a]) > 0);
                assert(s.drop_last().contains(front[a]));
                let w = choose|w: int|
                    0 <= w < s.drop_last().len() && s.drop_last()[w] == front[a];
                assert(s[w] == s.drop_last()[w]);
                assert(entry_key(s[w]) <= entry_key(s.last()));
            }
        }
        assert forall|a: int, b: int|
            0 <= a < b < insert_sorted(e, s).len() implies entry_key(
            #[trigger] insert_sorted(e, s)[a],
        ) <= entry_key(#[trigger] insert_sorted(e, s)[b]) by {
            assert(insert_sorted(e, s) == front.push(s.last()));
            if b < front.len() {
                assert(front[a] == insert_sorted(e, s)[a]);
                assert(front[b] == insert_sorted(e, s)[b]);
            } else {
                assert(insert_sorted(e, s)[b] == s.last());
                assert(front[a] == insert_sorted(e, s)[a]);
            }
        }
    } else {
        assert forall|a: int, b: int|
            0 <= a < b < insert_sorted(e, s).len() implies entry_key(
            #[trigger] insert_sorted(e, s)[a],
        ) <= entry_key(#[trigger] insert_sorted(e, s)[b]) by {
            assert(insert_sorted(e, s) == s.push(e));
            if b < s.len() {
            } else {
                if a < s.len() - 1 {
                    assert(entry_key(s[a]) <= entry_key(s.last()));
                }
            }
        }
    }
}

/// The stable sort's output is sorted by coordinate index.
pub proof fn lemma_sort_entries_sorted(s: Seq<AnmEntryView>)
    ensures
        forall|a: int, b: int|
            0 <= a < b < sort_entries_spec(s).len() ==> entry_key(
                #[trigger] sort_entries_spec(s)[a],
            ) <= entry_key(#[trigger] sort_entries_spec(s)[b]),
    decreases s.len(),
{
    if s.len() == 0 {
    } else {
        lemma_sort_entries_sorted(s.drop_last());
        lemma_insert_sorted_keeps_sorted(s.last(), sort_entries_spec(s.drop_last()));
    }
}

/// One stream clump stripped to its clip shape: the stream-only extra
/// index list is dropped, everything else is carried over.
pub open spec fn strip_clump(c: AnmStrmClumpView) -> AnmClumpView {
    AnmClumpView {
        clump_index: c.clump_index,
        bone_material_count: c.bone_material_count,
        model_count: c.model_count,
        bone_material_indices: c.bone_material_indices,
        model_indices: c.model_indices,
    }
}

/// The clip built from a stream's header and the converted entries:
/// header fields carried over, clumps stripped, entries sorted stably by
/// coordinate index, entry count recomputed.
pub open spec fn build_anm_spec(strm: NuccAnmStrmView, entries: Seq<AnmEntryView>) -> NuccAnmView {
    NuccAnmView {
        anm_length: strm.anm_length,
        frame_size: strm.frame_size,
        entry_count: entries.len() as u16,
        looped: strm.is_looped,
        clump_count: strm.clump_count,
        other_entry_count: strm.other_entry_count,
        other_index_count: strm.other_index_count,
        coord_count: strm.coord_count,
        clumps: strm.clumps.map_values(|c: AnmStrmClumpView| strip_clump(c)),
        other_entries_indices: strm.other_entries_indices,
        coord_parents: strm.coord_parents,
        entries: sort_entries_spec(entries),
    }
}

fn copy_u32s(v: &Vec<u32>) -> (r: Vec<u32>)
    ensures
        r@ == v@,
{
    let mut out: Vec<u32> = Vec::new();
    let mut i: usize = 0;
    while i < v.len()
        invariant
            i <= v@.len(),
            out@ == v@.take(i as int),
        decreases v@.len() - i,
    {
        out.push(v[i]);
        proof {
            assert(out@ =~= v@.take(i + 1));
        }
        i += 1;
    }
    proof {
        assert(out@ =~= v@);
    }
    out
}

fn copy_coord_parents(v: &Vec<CoordParent>) -> (r: Vec<CoordParent>)
    ensures
        r@ == v@,
{
    let mut out: Vec<CoordParent> = Vec::new();
    let mut i: usize = 0;
    while i < v.len()
        invariant
            i <= v@.len(),
            out@ == v@.take(i as int),
        decreases v@.len() - i,
    {
        out.push(v[i]);
        proof {
            assert(out@ =~= v@.take(i + 1));
        }
        i += 1;
    }
    proof {
        assert(out@ =~= v@);
    }
    out
}

fn strip_clumps(clumps: &Vec<AnmStrmClump>) -> (r: Vec<AnmClump>)
    ensures
        r@.map_values(|c: AnmClump| c@) == clumps@.map_values(|c: AnmStrmClump| c@).map_values(
            |c: AnmStrmClumpView| strip_clump(c),
        ),
{
    let ghost goal = clumps@.map_values(|c: AnmStrmClump| c@).map_values(
        |c: AnmStrmClumpView| strip_clump(c),
    );
    let mut out: Vec<AnmClump> = Vec::new();
    let mut i: usize = 0;
    while i < clumps.len()
        invariant
            i <= clumps@.len(),
            goal == clumps@.map_values(|c: AnmStrmClump| c@).map_values(
                |c: AnmStrmClumpView| strip_clump(c),
            ),
            out@.len() == i,
            out@.map_values(|c: AnmClump| c@) == goal.take(i as int),
        decreases clumps@.len() - i,
    {
        let c = &clumps[i];
        let ghost prev = out@;
        out.push(
            AnmClump {
                clump_index: c.clump_index,
                bone_material_count: c.bone_material_count,
                model_count: c.model_count,
                bone_material_indices: copy_u32s(&c.bone_material_indices),
                model_indices: copy_u32s(&c.model_indices),
            },
        );
        proof {
            assert(clumps@.map_values(|c: AnmStrmClump| c@)[i as int] == clumps@[i as int]@);
            assert(goal[i as int] == strip_clump(clumps@[i as int]@));
            assert(out@[i as int]@ =~~= strip_clump(clumps@[i as int]@));
            assert forall|j: int| 0 <= j < i implies #[trigger] out@[j]@ == goal[j] by {
                assert(prev.map_values(|c: AnmClump| c@)[j] == goal.take(i as int)[j]);
                assert(prev.map_values(|c: AnmClump| c@)[j] == prev[j]@);
                assert(out@[j] == prev[j]);
            }
            assert(out@.map_values(|c: AnmClump| c@) =~~= goal.take(i + 1));
        }
        i += 1;
    }
    proof {
        assert(out@.map_values(|c: AnmClump| c@) =~~= goal);
    }
    out
}

/// Build the clip from the stream's header fields and the converted
/// entries: the entries are sorted stably by coordinate index, the
/// clumps keep their indices and slot lists, and the entry count is
/// recomputed from the sorted list.
pub fn build_anm(anmstrm: &NuccAnmStrm, anm_entries: Vec<AnmEntry>) -> (r: NuccAnm)
    requires
        anm_entries@.len() <= 0xFFFF,
    ensures
        r@ == build_anm_spec(anmstrm@, anm_entries@.map_values(|e: AnmEntry| e@)),
{
    let ghost entries_v = anm_entries@.map_values(|e: AnmEntry| e@);
    proof {
        lemma_sort_entries_len(entries_v);
    }
    let entry_count = anm_entries.len() as u16;
    let sorted = sort_entries(anm_entries);
    let r = NuccAnm {
        anm_length: anmstrm.anm_length,
        frame_size: anmstrm.frame_size,
        entry_count: entry_count,
        looped: anmstrm.is_looped,
        clump_count: anmstrm.clump_count,
        other_entry_count: anmstrm.other_entry_count,
        other_index_count: anmstrm.other_index_count,
        coord_count: anmstrm.coord_count,
        clumps: strip_clumps(&anmstrm.clumps),
        other_entries_indices: copy_u32s(&anmstrm.other_entries_indices),
        coord_parents: copy_coord_parents(&anmstrm.coord_parents),
        entries: sorted,
    };
    proof {
        assert(r@ =~~= build_anm_spec(anmstrm@, entries_v));
    }
    r
}


// ------------------------------------------------------------ Pipeline

/// Why a conversion was refused.
#[derive(Clone, Copy, Debug, PartialEq, Eq, Structural)]
pub enum ConvertError {
    /// A snapshot holds more entries than the first one, the first
    /// snapshot's entry count does not fit the u16 slot key, or there
    /// are too many snapshots for the output frame numbering.
    FrameShape,
    /// Some object slot changes its entry kind between snapshots.
    SeriesKind,
    /// Rebasing the damage clump's indices would underflow, or a list
    /// does not fit its u16 count field.
    SplitIndexRange,
}

/// One slot series holds one single entry kind.
pub open spec fn series_uniform(s: Seq<AnmStrmEntryView>) -> bool {
    forall|i: int| 0 <= i < s.len() ==> (#[trigger] s[i].entry_data).same_kind(s[0].entry_data)
}

/// Every series of the aggregated slot map holds one single entry kind.
pub open spec fn frames_kinds_ok(fv: Seq<crate::anmstrm::NuccAnmStrmFrameView>) -> bool {
    forall|k: int|
        0 <= k < crate::aggregate::entries_map_spec(fv).len() ==> series_uniform(
            (#[trigger] crate::aggregate::entries_map_spec(fv)[k]).1,
        )
}

/// What the snapshot list must look like for the pipeline: no snapshot
/// longer than the first, the slot count within the u16 key, and few
/// enough snapshots that every output frame number and count fits.
pub open spec fn pipeline_frames_ok(fv: Seq<crate::anmstrm::NuccAnmStrmFrameView>) -> bool {
    &&& fv.len() <= 0x7FFF
    &&& crate::aggregate::frames_shape_ok(fv)
}

/// The clip the pipeline builds before the split: every aggregated slot
/// series converted to its entry, assembled on the stream's header.
pub open spec fn converted_clip_spec(
    strm: NuccAnmStrmView,
    fv: Seq<crate::anmstrm::NuccAnmStrmFrameView>,
) -> NuccAnmView {
    build_anm_spec(
        strm,
        crate::aggregate::entries_map_spec(fv).map_values(
            |p: (u16, Seq<AnmStrmEntryView>)| convert_series_spec(p.1),
        ),
    )
}

/// Whether two entry payloads are of the same kind.
fn same_kind_exec(a: &Entry, b: &Entry) -> (r: bool)
    ensures
        r == a@.same_kind(b@),
{
    match (a, b) {
        (Entry::Bone(_), Entry::Bone(_)) => true,
        (Entry::Camera(_), Entry::Camera(_)) => true,
        (Entry::Material(_), Entry::Material(_)) => true,
        (Entry::LightDirc(_), Entry::LightDirc(_)) => true,
        (Entry::LightPoint(_), Entry::LightPoint(_)) => true,
        (Entry::Ambient(_), Entry::Ambient(_)) => true,
        (Entry::MorphModel(_), Entry::MorphModel(_)) => true,
        (Entry::Unknown, Entry::Unknown) => true,
        _ => false,
    }
}

/// Whether every series of the aggregated map holds one single kind.
fn check_kinds(map: &Vec<(u16, Vec<AnmStrmEntry>)>) -> (r: bool)
    ensures
        r == forall|k: int|
            0 <= k < map@.len() ==> series_uniform(
                series_view((#[trigger] map@[k]).1),
            ),
{
    let mut k: usize = 0;
    while k < map.len()
        invariant
            k <= map@.len(),
            forall|j: int| 0 <= j < k ==> series_uniform(series_view((#[trigger] map@[j]).1)),
        decreases map@.len() - k,
    {
        let series = &map[k].1;
        let mut i: usize = 0;
        while i < series.len()
            invariant
                i <= series@.len(),
                series == &map@[k as int].1,
                k < map@.len(),
                forall|j: int|
                    0 <= j < i ==> (#[trigger] series_view(map@[k as int].1)[j]).entry_data.same_kind(
                        series_view(map@[k as int].1)[0].entry_data,
                    ),
            decreases series@.len() - i,
        {
            if !same_kind_exec(&series[i].entry_data, &series[0].entry_data) {
                proof {
                    assert(series_view(map@[k as int].1)[i as int].entry_data == series@[
                        i as int
                    ].entry_data@);
                    assert(!series_uniform(series_view(map@[k as int].1)));
                }
                return false;
            }
            proof {
                assert(series_view(map@[k as int].1)[i as int].entry_data == series@[
                    i as int
                ].entry_data@);
            }
            i += 1;
        }
        k += 1;
    }
    true
}

/// Convert a decoded stream and its parsed snapshots into the two clips:
/// the reduced clip first, the extracted damage clip second. The
/// snapshots must share the first snapshot's slot layout, each slot must
/// keep one entry kind, and the damage split's index rebasing must stay
/// in range; each violation is reported as its own error.
pub fn convert_anmstrm(anmstrm: &NuccAnmStrm, frames: &Vec<NuccAnmStrmFrame>) -> (r: Result<
    Vec<NuccAnm>,
    ConvertError,
>)
    ensures
        match r {
            Ok(v) => {
                &&& pipeline_frames_ok(crate::aggregate::frames_view(*frames))
                &&& frames_kinds_ok(crate::aggregate::frames_view(*frames))
                &&& crate::split::dmg_split_ok(
                    converted_clip_spec(anmstrm@, crate::aggregate::frames_view(*frames)),
                )
                &&& v@.len() == 2
                &&& v@[0]@ == crate::split::reduced_anm_spec(
                    converted_clip_spec(anmstrm@, crate::aggregate::frames_view(*frames)),
                )
                &&& v@[1]@ == crate::split::extracted_anm_spec(
                    converted_clip_spec(anmstrm@, crate::aggregate::frames_view(*frames)),
                    anmstrm@,
                )
            },
            Err(ConvertError::FrameShape) => !pipeline_frames_ok(
                crate::aggregate::frames_view(*frames),
            ),
            Err(ConvertError::SeriesKind) => pipeline_frames_ok(
                crate::aggregate::frames_view(*frames),
            ) && !frames_kinds_ok(crate::aggregate::frames_view(*frames)),
            Err(ConvertError::SplitIndexRange) => pipeline_frames_ok(
                crate::aggregate::frames_view(*frames),
            ) && frames_kinds_ok(crate::aggregate::frames_view(*frames))
                && !crate::split::dmg_split_ok(
                converted_clip_spec(anmstrm@, crate::aggregate::frames_view(*frames)),
            ),
        },
{
    let ghost fv = crate::aggregate::frames_view(*frames);
    if frames.len() > 0x7FFF {
        return Err(ConvertError::FrameShape);
    }
    let slot_total = if frames.len() == 0 {
        0
    } else {
        frames[0].entries.len()
    };
    proof {
        if frames@.len() > 0 {
            assert(fv[0] == frames@[0]@);
        }
        assert(slot_total == crate::aggregate::slot_count(fv));
    }
    if slot_total > 0xFFFF {
        return Err(ConvertError::FrameShape);
    }
    let mut j: usize = 0;
    while j < frames.len()
        invariant
            j <= frames@.len(),
            fv == crate::aggregate::frames_view(*frames),
            slot_total == crate::aggregate::slot_count(fv),
            forall|m: int| 0 <= m < j ==> (#[trigger] fv[m].entries).len() <= slot_total,
        decreases frames@.len() - j,
    {
        proof {
            assert(fv[j as int] == frames@[j as int]@);
        }
        if frames[j].entries.len() > slot_total {
            proof {
                assert(fv[j as int].entries.len() == frames@[j as int].entries@.len());
                assert(!crate::aggregate::frames_shape_ok(fv));
            }
            return Err(ConvertError::FrameShape);
        }
        j += 1;
    }
    let map = crate::aggregate::build_anmstrm_entries_map(frames);
    if !check_kinds(&map) {
        proof {
            assert(!frames_kinds_ok(fv)) by {
                let m = choose|m: int|
                    0 <= m < map@.len() && !series_uniform(series_view(map@[m].1));
                assert(series_view(map@[m].1) == crate::aggregate::entries_map_spec(fv)[m].1);
            };
        }
        return Err(ConvertError::SeriesKind);
    }
    proof {
        assert(frames_kinds_ok(fv)) by {
            assert forall|k: int|
                0 <= k < crate::aggregate::entries_map_spec(fv).len() implies series_uniform(
                (#[trigger] crate::aggregate::entries_map_spec(fv)[k]).1,
            ) by {
                assert(series_view(map@[k].1) == crate::aggregate::entries_map_spec(fv)[k].1);
            }
        };
        crate::aggregate::lemma_entries_map_from_props(fv, 0, crate::aggregate::slot_count(fv));
        crate::aggregate::lemma_entries_map_from_len(fv, 0, crate::aggregate::slot_count(fv));
        assert forall|k: int| 0 <= k < map@.len() implies series_ok(
            series_view((#[trigger] map@[k]).1),
        ) by {
            let ser = crate::aggregate::entries_map_spec(fv)[k].1;
            assert(series_view(map@[k].1) == ser);
            let slot = crate::aggregate::entries_map_spec(fv)[k].0 as int;
            assert(ser == crate::aggregate::slot_series(fv, slot));
            crate::aggregate::lemma_slot_series_aggregated(fv, slot);
            assert(ser[0].entry_data.is_aggregated());
            assert(series_uniform(ser));
        }
    }
    let anm_entries = convert_entries(map);
    proof {
        assert(anm_entries@.len() <= 0xFFFF);
        assert(anm_entries@.map_values(|e: AnmEntry| e@) =~= crate::aggregate::entries_map_spec(
            fv,
        ).map_values(|p: (u16, Seq<AnmStrmEntryView>)| convert_series_spec(p.1)));
    }
    let anm = build_anm(anmstrm, anm_entries);
    proof {
        assert(anm@ == converted_clip_spec(anmstrm@, fv));
    }
    if !crate::split::check_dmg_split(&anm) {
        return Err(ConvertError::SplitIndexRange);
    }
    let (reduced, dmg) = crate::split::build_dmg_anm(anm, anmstrm);
    let mut anms: Vec<NuccAnm> = Vec::new();
    anms.push(reduced);
    anms.push(dmg);
    Ok(anms)
}

} // verus!
