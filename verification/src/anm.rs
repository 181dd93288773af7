//! Data model of the animation clip ("anm") format: one curve-set per
//! animated object, covering the whole timeline.
//!
//! Every multi-byte value is big-endian on the wire; float-valued samples
//! are stored here as their raw IEEE-754 bit patterns (`u32`).

use vstd::prelude::*;

verus! {

/// One 3-component float vector, each component a raw IEEE-754 bit pattern.
#[derive(Clone, Copy, Debug, PartialEq, Eq, Structural)]
pub struct Vector3 {
    pub x: u32,
    pub y: u32,
    pub z: u32,
}

/// One 4-component float vector (quaternion), raw IEEE-754 bit patterns.
#[derive(Clone, Copy, Debug, PartialEq, Eq, Structural)]
pub struct Vector4 {
    pub x: u32,
    pub y: u32,
    pub z: u32,
    pub w: u32,
}

/// A keyframed 3-vector: frame index plus value.
#[derive(Clone, Copy, Debug, PartialEq, Eq, Structural)]
pub struct KeyframeVector3 {
    pub frame: i32,
    pub value: Vector3,
}

/// A keyframed 4-vector: frame index plus value.
#[derive(Clone, Copy, Debug, PartialEq, Eq, Structural)]
pub struct KeyframeVector4 {
    pub frame: i32,
    pub value: Vector4,
}

/// A keyframed float: frame index plus value (raw bit pattern).
#[derive(Clone, Copy, Debug, PartialEq, Eq, Structural)]
pub struct KeyframeFloat {
    pub frame: i32,
    pub value: u32,
}

/// A quantized signed-16 3-vector.
#[derive(Clone, Copy, Debug, PartialEq, Eq, Structural)]
pub struct Vector3Short {
    pub x: i16,
    pub y: i16,
    pub z: i16,
}

/// A quantized signed-16 quaternion.
#[derive(Clone, Copy, Debug, PartialEq, Eq, Structural)]
pub struct QuaternionShort {
    pub x: i16,
    pub y: i16,
    pub z: i16,
    pub w: i16,
}

/// One byte-RGB color triple.
#[derive(Clone, Copy, Debug, PartialEq, Eq, Structural)]
pub struct RGB {
    pub r: u8,
    pub g: u8,
    pub b: u8,
}

/// Address of one animatable object: clump index plus local coordinate
/// index within that clump.
#[derive(Clone, Copy, Debug, PartialEq, Eq, Structural)]
pub struct AnmCoord {
    pub clump_index: i16,
    pub coord_index: u16,
}

/// One skeletal parent/child relation between object coordinates.
#[derive(Clone, Copy, Debug, PartialEq, Eq, Structural)]
pub struct CoordParent {
    pub parent: AnmCoord,
    pub child: AnmCoord,
}

/// Header of one curve: its sequential index within the entry, the wire
/// format code of its payload, its element count and its byte-size field.
#[derive(Clone, Copy, Debug, PartialEq, Eq, Structural)]
pub struct CurveHeader {
    pub curve_index: u16,
    pub curve_format: u16,
    pub frame_count: u16,
    pub curve_size: u16,
}

/// The entry kinds that can appear in either format.
#[derive(Clone, Copy, Debug, PartialEq, Eq, Structural)]
pub enum AnmEntryFormat {
    Bone,
    Camera,
    Material,
    LightDirc,
    LightPoint,
    Ambient,
    MorphModel,
}

impl AnmEntryFormat {
    /// The wire code of this entry kind.
    pub open spec fn spec_code(self) -> u16 {
        match self {
            AnmEntryFormat::Bone => 1,
            AnmEntryFormat::Camera => 2,
            AnmEntryFormat::Material => 4,
            AnmEntryFormat::LightDirc => 5,
            AnmEntryFormat::LightPoint => 6,
            AnmEntryFormat::Ambient => 8,
            AnmEntryFormat::MorphModel => 12,
        }
    }

    /// The wire code of this entry kind.
    #[verifier::when_used_as_spec(spec_code)]
    pub fn code(self) -> (c: u16)
        ensures
            c == self.spec_code(),
    {
        match self {
            AnmEntryFormat::Bone => 1,
            AnmEntryFormat::Camera => 2,
            AnmEntryFormat::Material => 4,
            AnmEntryFormat::LightDirc => 5,
            AnmEntryFormat::LightPoint => 6,
            AnmEntryFormat::Ambient => 8,
            AnmEntryFormat::MorphModel => 12,
        }
    }
}

/// The wire format codes of the curve payload shapes.
#[derive(Clone, Copy, Debug, PartialEq, Eq, Structural)]
#[allow(non_camel_case_types)]
pub enum AnmCurveFormat {
    /// 0x05: plain 3-vector array (location/scale).
    FLOAT3,
    /// 0x06: keyframed 3-vector.
    INT1_FLOAT3,
    /// 0x08: plain 3-vector array (alternate rotation encoding).
    FLOAT3ALT,
    /// 0x0A: keyframed 4-vector.
    INT1_FLOAT4,
    /// 0x0B: plain float array ("toggled").
    FLOAT1,
    /// 0x0C: keyframed float (camera).
    INT1_FLOAT1,
    /// 0x0F: plain signed-16 array, odd-count padded.
    SHORT1,
    /// 0x10: quantized signed-16 3-vector, odd-count padded.
    SHORT3,
    /// 0x11: quantized signed-16 quaternion.
    SHORT4,
    /// 0x14: byte RGB triple array, count rounded up to a multiple of 4.
    BYTE3,
    /// 0x15: plain 3-vector array (alternate scale encoding).
    FLOAT3ALT2,
    /// 0x16: plain float array (alternate encoding A).
    FLOAT1ALT,
    /// 0x18: plain float array (alternate encoding B).
    FLOAT1ALT2,
}

impl AnmCurveFormat {
    /// The on-wire discriminant of this format code.
    pub open spec fn spec_code(self) -> u16 {
        match self {
            AnmCurveFormat::FLOAT3 => 0x05,
            AnmCurveFormat::INT1_FLOAT3 => 0x06,
            AnmCurveFormat::FLOAT3ALT => 0x08,
            AnmCurveFormat::INT1_FLOAT4 => 0x0A,
            AnmCurveFormat::FLOAT1 => 0x0B,
            AnmCurveFormat::INT1_FLOAT1 => 0x0C,
            AnmCurveFormat::SHORT1 => 0x0F,
            AnmCurveFormat::SHORT3 => 0x10,
            AnmCurveFormat::SHORT4 => 0x11,
            AnmCurveFormat::BYTE3 => 0x14,
            AnmCurveFormat::FLOAT3ALT2 => 0x15,
            AnmCurveFormat::FLOAT1ALT => 0x16,
            AnmCurveFormat::FLOAT1ALT2 => 0x18,
        }
    }

    /// The on-wire discriminant of this format code.
    #[verifier::when_used_as_spec(spec_code)]
    pub fn code(self) -> (c: u16)
        ensures
            c == self.spec_code(),
    {
        match self {
            AnmCurveFormat::FLOAT3 => 0x05,
            AnmCurveFormat::INT1_FLOAT3 => 0x06,
            AnmCurveFormat::FLOAT3ALT => 0x08,
            AnmCurveFormat::INT1_FLOAT4 => 0x0A,
            AnmCurveFormat::FLOAT1 => 0x0B,
            AnmCurveFormat::INT1_FLOAT1 => 0x0C,
            AnmCurveFormat::SHORT1 => 0x0F,
            AnmCurveFormat::SHORT3 => 0x10,
            AnmCurveFormat::SHORT4 => 0x11,
            AnmCurveFormat::BYTE3 => 0x14,
            AnmCurveFormat::FLOAT3ALT2 => 0x15,
            AnmCurveFormat::FLOAT1ALT => 0x16,
            AnmCurveFormat::FLOAT1ALT2 => 0x18,
        }
    }
}

/// One curve payload; the variant is selected by the paired header's
/// format code, never by a prefix inside the payload itself.
#[derive(Clone, Debug, PartialEq)]
pub enum Curve {
    Vector3(Vec<Vector3>),
    KeyframeVector3(Vec<KeyframeVector3>),
    KeyframeVector4(Vec<KeyframeVector4>),
    Float(Vec<u32>),
    KeyframeFloat(Vec<KeyframeFloat>),
    Short(Vec<i16>),
    Vector3Short(Vec<Vector3Short>),
    QuaternionShort(Vec<QuaternionShort>),
    RGB(Vec<RGB>),
    Unknown(Vec<u8>),
}

/// Mathematical model of a curve payload.
#[verifier::ext_equal]
pub enum CurveView {
    Vector3(Seq<Vector3>),
    KeyframeVector3(Seq<KeyframeVector3>),
    KeyframeVector4(Seq<KeyframeVector4>),
    Float(Seq<u32>),
    KeyframeFloat(Seq<KeyframeFloat>),
    Short(Seq<i16>),
    Vector3Short(Seq<Vector3Short>),
    QuaternionShort(Seq<QuaternionShort>),
    RGB(Seq<RGB>),
    Unknown(Seq<u8>),
}

impl View for Curve {
    type V = CurveView;

    open spec fn view(&self) -> CurveView {
        match self {
            Curve::Vector3(v) => CurveView::Vector3(v@),
            Curve::KeyframeVector3(v) => CurveView::KeyframeVector3(v@),
            Curve::KeyframeVector4(v) => CurveView::KeyframeVector4(v@),
            Curve::Float(v) => CurveView::Float(v@),
            Curve::KeyframeFloat(v) => CurveView::KeyframeFloat(v@),
            Curve::Short(v) => CurveView::Short(v@),
            Curve::Vector3Short(v) => CurveView::Vector3Short(v@),
            Curve::QuaternionShort(v) => CurveView::QuaternionShort(v@),
            Curve::RGB(v) => CurveView::RGB(v@),
            Curve::Unknown(v) => CurveView::Unknown(v@),
        }
    }
}

impl CurveView {
    /// Number of elements in the payload.
    pub open spec fn len(self) -> nat {
        match self {
            CurveView::Vector3(v) => v.len(),
            CurveView::KeyframeVector3(v) => v.len(),
            CurveView::KeyframeVector4(v) => v.len(),
            CurveView::Float(v) => v.len(),
            CurveView::KeyframeFloat(v) => v.len(),
            CurveView::Short(v) => v.len(),
            CurveView::Vector3Short(v) => v.len(),
            CurveView::QuaternionShort(v) => v.len(),
            CurveView::RGB(v) => v.len(),
            CurveView::Unknown(v) => v.len(),
        }
    }

    /// The canonical format code of this payload shape.
    pub open spec fn format_code(self) -> u16 {
        match self {
            CurveView::Vector3(_) => AnmCurveFormat::FLOAT3.spec_code(),
            CurveView::KeyframeVector3(_) => AnmCurveFormat::INT1_FLOAT3.spec_code(),
            CurveView::KeyframeVector4(_) => AnmCurveFormat::INT1_FLOAT4.spec_code(),
            CurveView::Float(_) => AnmCurveFormat::FLOAT1.spec_code(),
            CurveView::KeyframeFloat(_) => AnmCurveFormat::INT1_FLOAT1.spec_code(),
            CurveView::Short(_) => AnmCurveFormat::SHORT1.spec_code(),
            CurveView::Vector3Short(_) => AnmCurveFormat::SHORT3.spec_code(),
            CurveView::QuaternionShort(_) => AnmCurveFormat::SHORT4.spec_code(),
            CurveView::RGB(_) => AnmCurveFormat::BYTE3.spec_code(),
            CurveView::Unknown(_) => AnmCurveFormat::FLOAT1ALT2.spec_code(),
        }
    }

    /// Whether this payload shape carries a per-key time index.
    pub open spec fn has_time_index(self) -> bool {
        match self {
            CurveView::KeyframeVector3(_) => true,
            CurveView::KeyframeVector4(_) => true,
            CurveView::KeyframeFloat(_) => true,
            _ => false,
        }
    }

    /// Time index of the last key, for shapes that carry one.
    pub open spec fn last_frame(self) -> i32 {
        match self {
            CurveView::KeyframeVector3(v) => v.last().frame,
            CurveView::KeyframeVector4(v) => v.last().frame,
            CurveView::KeyframeFloat(v) => v.last().frame,
            _ => 0,
        }
    }
}

/// Result of appending the terminating key: for a keyframed shape with at
/// least one key whose last time index is not already the sentinel `-1`,
/// one key at `-1` duplicating the last value is appended; anything else
/// is returned unchanged.
pub open spec fn terminated(c: CurveView) -> CurveView {
    match c {
        CurveView::KeyframeVector3(v) => if v.len() > 0 && v.last().frame != -1i32 {
            CurveView::KeyframeVector3(
                v.push(KeyframeVector3 { frame: -1i32, value: v.last().value }),
            )
        } else {
            c
        },
        CurveView::KeyframeVector4(v) => if v.len() > 0 && v.last().frame != -1i32 {
            CurveView::KeyframeVector4(
                v.push(KeyframeVector4 { frame: -1i32, value: v.last().value }),
            )
        } else {
            c
        },
        CurveView::KeyframeFloat(v) => if v.len() > 0 && v.last().frame != -1i32 {
            CurveView::KeyframeFloat(
                v.push(KeyframeFloat { frame: -1i32, value: v.last().value }),
            )
        } else {
            c
        },
        _ => c,
    }
}

/// Result of padding a byte-RGB payload by repeating its last element
/// until its length is a multiple of 4; every other shape is returned
/// unchanged, and an empty RGB payload is already a multiple of 4 long.
pub open spec fn rgb_padded(c: CurveView) -> CurveView {
    match c {
        CurveView::RGB(v) => if v.len() % 4 == 0 {
            c
        } else {
            CurveView::RGB(v + Seq::new((4 - v.len() % 4) as nat, |i: int| v.last()))
        },
        _ => c,
    }
}

/// Finalization applied to every built curve: append the terminating key
/// when the curve has more than one element, then pad byte-RGB payloads
/// to a multiple of 4 elements.
pub open spec fn finalize_curve(c: CurveView) -> CurveView {
    let t = if c.len() > 1 { terminated(c) } else { c };
    rgb_padded(t)
}

impl Curve {
    /// Number of elements in the payload, as the u16 header field.
    pub fn get_frame_count(&self) -> (n: u16)
        requires
            self@.len() <= u16::MAX,
        ensures
            n == self@.len(),
    {
        match self {
            Curve::Vector3(curve) => curve.len() as u16,
            Curve::KeyframeVector3(curve) => curve.len() as u16,
            Curve::KeyframeVector4(curve) => curve.len() as u16,
            Curve::Float(curve) => curve.len() as u16,
            Curve::KeyframeFloat(curve) => curve.len() as u16,
            Curve::Short(curve) => curve.len() as u16,
            Curve::Vector3Short(curve) => curve.len() as u16,
            Curve::QuaternionShort(curve) => curve.len() as u16,
            Curve::RGB(curve) => curve.len() as u16,
            Curve::Unknown(curve) => curve.len() as u16,
        }
    }

    /// Whether the curve holds more than one element.
    pub fn has_keyframes(&self) -> (r: bool)
        requires
            self@.len() <= u16::MAX,
        ensures
            r == (self@.len() > 1),
    {
        self.get_frame_count() > 1
    }

    /// The canonical format code of this payload shape.
    pub fn get_curve_format(&self) -> (c: u16)
        ensures
            c == self@.format_code(),
    {
        match self {
            Curve::Vector3(_) => AnmCurveFormat::FLOAT3.code(),
            Curve::KeyframeVector3(_) => AnmCurveFormat::INT1_FLOAT3.code(),
            Curve::KeyframeVector4(_) => AnmCurveFormat::INT1_FLOAT4.code(),
            Curve::Float(_) => AnmCurveFormat::FLOAT1.code(),
            Curve::KeyframeFloat(_) => AnmCurveFormat::INT1_FLOAT1.code(),
            Curve::Short(_) => AnmCurveFormat::SHORT1.code(),
            Curve::Vector3Short(_) => AnmCurveFormat::SHORT3.code(),
            Curve::QuaternionShort(_) => AnmCurveFormat::SHORT4.code(),
            Curve::RGB(_) => AnmCurveFormat::BYTE3.code(),
            Curve::Unknown(_) => AnmCurveFormat::FLOAT1ALT2.code(),
        }
    }

    /// Pad a byte-RGB payload by repeating its last element (an opaque
    /// white default would only ever apply to an empty payload, whose
    /// length is already a multiple of 4) until the length is a multiple
    /// of 4. Other shapes are left unchanged.
    pub fn pad_color_values(&mut self)
        requires
            old(self)@.len() + 3 <= usize::MAX,
        ensures
            final(self)@ == rgb_padded(old(self)@),
    {
        match self {
            Curve::RGB(values) => {
                let len = values.len();
                if len % 4 != 0 {
                    let last_color = match values.last() {
                        Some(color) => color.clone(),
                        None => RGB { r: 255, g: 255, b: 255 },
                    };
                    let mut k = len % 4;
                    while k < 4
                        invariant
                            len == old(self)@.len(),
                            len % 4 != 0,
                            len % 4 <= k <= 4,
                            values@ == (old(self)@->RGB_0) + Seq::new(
                                (k - len % 4) as nat,
                                |i: int| last_color,
                            ),
                            last_color == (old(self)@->RGB_0).last(),
                        decreases 4 - k,
                    {
                        values.push(last_color);
                        k += 1;
                    }
                    proof {
                        assert(final(self)@ =~~= rgb_padded(old(self)@));
                    }
                }
            },
            _ => {},
        }
    }

    /// Append the terminating key at time index `-1`, duplicating the last
    /// key's value, unless the last key already carries the sentinel.
    /// Shapes without a time index are left unchanged.
    pub fn append_null_keyframe(&mut self)
        requires
            old(self)@.len() + 1 <= usize::MAX,
        ensures
            final(self)@ == terminated(old(self)@),
    {
        match self {
            Curve::KeyframeVector3(keyframes) => {
                if keyframes.len() > 0 {
                    let last = keyframes[keyframes.len() - 1];
                    if last.frame != -1 {
                        keyframes.push(KeyframeVector3 { frame: -1, value: last.value });
                    }
                }
            },
            Curve::KeyframeVector4(keyframes) => {
                if keyframes.len() > 0 {
                    let last = keyframes[keyframes.len() - 1];
                    if last.frame != -1 {
                        keyframes.push(KeyframeVector4 { frame: -1, value: last.value });
                    }
                }
            },
            Curve::KeyframeFloat(keyframes) => {
                if keyframes.len() > 0 {
                    let last = keyframes[keyframes.len() - 1];
                    if last.frame != -1 {
                        keyframes.push(KeyframeFloat { frame: -1, value: last.value });
                    }
                }
            },
            _ => {},
        }
    }
}

/// One clump of the clip: the bone/material and model slots belonging to
/// one sub-model.
#[derive(Clone, Debug, PartialEq)]
pub struct AnmClump {
    pub clump_index: u32,
    pub bone_material_count: u16,
    pub model_count: u16,
    pub bone_material_indices: Vec<u32>,
    pub model_indices: Vec<u32>,
}

/// Mathematical model of one clip clump.
#[verifier::ext_equal]
pub struct AnmClumpView {
    pub clump_index: u32,
    pub bone_material_count: u16,
    pub model_count: u16,
    pub bone_material_indices: Seq<u32>,
    pub model_indices: Seq<u32>,
}

impl View for AnmClump {
    type V = AnmClumpView;

    open spec fn view(&self) -> AnmClumpView {
        AnmClumpView {
            clump_index: self.clump_index,
            bone_material_count: self.bone_material_count,
            model_count: self.model_count,
            bone_material_indices: self.bone_material_indices@,
            model_indices: self.model_indices@,
        }
    }
}

/// One clip entry: the object coordinate, its entry-kind code, and its
/// positionally paired curve headers and curve payloads.
#[derive(Clone, Debug, PartialEq)]
pub struct AnmEntry {
    pub coord: AnmCoord,
    pub entry_format: u16,
    pub curve_count: u16,
    pub curve_headers: Vec<CurveHeader>,
    pub curves: Vec<Curve>,
}

/// Mathematical model of one clip entry.
#[verifier::ext_equal]
pub struct AnmEntryView {
    pub coord: AnmCoord,
    pub entry_format: u16,
    pub curve_count: u16,
    pub curve_headers: Seq<CurveHeader>,
    pub curves: Seq<CurveView>,
}

impl View for AnmEntry {
    type V = AnmEntryView;

    open spec fn view(&self) -> AnmEntryView {
        AnmEntryView {
            coord: self.coord,
            entry_format: self.entry_format,
            curve_count: self.curve_count,
            curve_headers: self.curve_headers@,
            curves: self.curves@.map_values(|c: Curve| c@),
        }
    }
}

/// Top-level clip asset: header fields plus its clump, auxiliary-index,
/// coordinate-parent and entry lists.
#[derive(Clone, Debug, PartialEq)]
pub struct NuccAnm {
    pub anm_length: u32,
    pub frame_size: u32,
    pub entry_count: u16,
    pub looped: u16,
    pub clump_count: u16,
    pub other_entry_count: u16,
    pub other_index_count: u16,
    pub coord_count: u16,
    pub clumps: Vec<AnmClump>,
    pub other_entries_indices: Vec<u32>,
    pub coord_parents: Vec<CoordParent>,
    pub entries: Vec<AnmEntry>,
}

/// Mathematical model of the whole clip asset.
#[verifier::ext_equal]
pub struct NuccAnmView {
    pub anm_length: u32,
    pub frame_size: u32,
    pub entry_count: u16,
    pub looped: u16,
    pub clump_count: u16,
    pub other_entry_count: u16,
    pub other_index_count: u16,
    pub coord_count: u16,
    pub clumps: Seq<AnmClumpView>,
    pub other_entries_indices: Seq<u32>,
    pub coord_parents: Seq<CoordParent>,
    pub entries: Seq<AnmEntryView>,
}

impl View for NuccAnm {
    type V = NuccAnmView;

    open spec fn view(&self) -> NuccAnmView {
        NuccAnmView {
            anm_length: self.anm_length,
            frame_size: self.frame_size,
            entry_count: self.entry_count,
            looped: self.looped,
            clump_count: self.clump_count,
            other_entry_count: self.other_entry_count,
            other_index_count: self.other_index_count,
            coord_count: self.coord_count,
            clumps: self.clumps@.map_values(|c: AnmClump| c@),
            other_entries_indices: self.other_entries_indices@,
            coord_parents: self.coord_parents@,
            entries: self.entries@.map_values(|e: AnmEntry| e@),
        }
    }
}

/// After finalization, a curve with a time index whose last time index was
/// not already the sentinel ends in a key at `-1` whose value duplicates
/// the previously-last key's value, whenever the curve had more than one
/// key before finalization.
pub proof fn lemma_finalize_terminator(c: CurveView)
    requires
        c.has_time_index(),
        c.len() > 1,
        c.last_frame() != -1i32,
    ensures
        finalize_curve(c).len() == c.len() + 1,
        finalize_curve(c).has_time_index(),
        finalize_curve(c).last_frame() == -1i32,
        match (finalize_curve(c), c) {
            (CurveView::KeyframeVector3(f), CurveView::KeyframeVector3(v)) => f.last().value
                == f[f.len() - 2].value && f[f.len() - 2] == v.last(),
            (CurveView::KeyframeVector4(f), CurveView::KeyframeVector4(v)) => f.last().value
                == f[f.len() - 2].value && f[f.len() - 2] == v.last(),
            (CurveView::KeyframeFloat(f), CurveView::KeyframeFloat(v)) => f.last().value
                == f[f.len() - 2].value && f[f.len() - 2] == v.last(),
            _ => false,
        },
{
}

/// Every finalized byte-RGB curve holds a multiple of 4 elements.
pub proof fn lemma_finalize_rgb_multiple_of_four(c: CurveView)
    requires
        c is RGB,
    ensures
        finalize_curve(c) is RGB,
        finalize_curve(c).len() % 4 == 0,
{
}

} // verus!
