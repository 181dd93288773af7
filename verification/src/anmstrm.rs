//! Data model of the animation stream ("anmstrm") format: one snapshot
//! per frame, covering every animated object.

use vstd::prelude::*;
use crate::anm::{AnmCoord, CoordParent, Vector3, Vector4};

verus! {

/// Top-level stream asset: header fields plus its clump, auxiliary-index,
/// coordinate-parent and per-frame info lists.
#[derive(Clone, Debug, PartialEq)]
pub struct NuccAnmStrm {
    pub anm_length: u32,
    pub frame_size: u32,
    pub frame_count: u16,
    pub is_looped: u16,
    pub clump_count: u16,
    pub other_entry_count: u16,
    pub other_index_count: u16,
    pub coord_count: u16,
    pub clumps: Vec<AnmStrmClump>,
    pub other_entries_indices: Vec<u32>,
    pub coord_parents: Vec<CoordParent>,
    pub frames: Vec<AnmStrmFrameInfo>,
}

/// One clump of the stream: the bone/material and model slots belonging
/// to one sub-model, plus one extra index list the clip side drops.
#[derive(Clone, Debug, PartialEq)]
pub struct AnmStrmClump {
    pub clump_index: u32,
    pub bone_material_count: u16,
    pub model_count: u16,
    pub bone_material_indices: Vec<u32>,
    pub model_indices: Vec<u32>,
    pub unknown: Vec<u32>,
}

/// Offset and frame number of one stored frame.
#[derive(Clone, Copy, Debug, PartialEq, Eq, Structural)]
pub struct AnmStrmFrameInfo {
    pub frame_offset: u32,
    pub frame_number: u16,
}

/// One per-frame snapshot: its frame number and one entry per animated
/// object slot.
#[derive(Clone, Debug, PartialEq)]
pub struct NuccAnmStrmFrame {
    pub frame_number: u32,
    pub entry_count: u16,
    pub unknown: u16,
    pub entries: Vec<AnmStrmEntry>,
}

/// One object's sample within one snapshot.
#[derive(Clone, Debug, PartialEq)]
pub struct AnmStrmEntry {
    pub coord: AnmCoord,
    pub entry_format: u16,
    pub entry_size: u16,
    pub entry_data: Entry,
}

/// Kind-specific payload of one stream entry.
#[derive(Clone, Debug, PartialEq)]
pub enum Entry {
    Bone(AnmEntryBone),
    Camera(AnmEntryCamera),
    Material(AnmEntryMaterial),
    LightDirc(AnmEntryLightDirc),
    LightPoint(AnmEntryLightPoint),
    Ambient(AnmEntryAmbient),
    MorphModel(AnmEntryMorphModel),
    Unknown,
}

/// Per-frame bone sample.
#[derive(Clone, Copy, Debug, PartialEq, Eq, Structural)]
pub struct AnmEntryBone {
    pub frame_count: i32,
    pub location: Vector3,
    pub rotation: Vector4,
    pub scale: Vector3,
    pub toggled: u32,
}

/// Per-frame camera sample.
#[derive(Clone, Copy, Debug, PartialEq, Eq, Structural)]
pub struct AnmEntryCamera {
    pub frame_count: i32,
    pub location: Vector3,
    pub rotation: Vector4,
    pub fov: u32,
    pub scale: Vector3,
}

/// Per-frame material sample: sixteen ambient-color channels.
#[derive(Clone, Copy, Debug, PartialEq, Eq)]
pub struct AnmEntryMaterial {
    pub frame_count: i32,
    pub ambient_color: [u32; 16],
}

/// Per-frame directional-light sample.
#[derive(Clone, Copy, Debug, PartialEq, Eq, Structural)]
pub struct AnmEntryLightDirc {
    pub frame_count: i32,
    pub color: Vector3,
    pub intensity: u32,
    pub direction: Vector4,
}

/// Per-frame point-light sample.
#[derive(Clone, Copy, Debug, PartialEq, Eq, Structural)]
pub struct AnmEntryLightPoint {
    pub frame_count: i32,
    pub color: Vector3,
    pub position: Vector3,
    pub intensity: u32,
    pub radius: u32,
    pub falloff: u32,
}

/// Per-frame ambient-light sample.
#[derive(Clone, Copy, Debug, PartialEq, Eq, Structural)]
pub struct AnmEntryAmbient {
    pub frame_count: i32,
    pub color: Vector3,
    pub intensity: u32,
}

/// Per-frame morph-model sample: one weight per morph target.
#[derive(Clone, Debug, PartialEq)]
pub struct AnmEntryMorphModel {
    pub frame_count: i32,
    pub morph_weight: Vec<u32>,
}

/// Mathematical model of one stream clump.
#[verifier::ext_equal]
pub struct AnmStrmClumpView {
    pub clump_index: u32,
    pub bone_material_count: u16,
    pub model_count: u16,
    pub bone_material_indices: Seq<u32>,
    pub model_indices: Seq<u32>,
    pub unknown: Seq<u32>,
}

impl View for AnmStrmClump {
    type V = AnmStrmClumpView;

    open spec fn view(&self) -> AnmStrmClumpView {
        AnmStrmClumpView {
            clump_index: self.clump_index,
            bone_material_count: self.bone_material_count,
            model_count: self.model_count,
            bone_material_indices: self.bone_material_indices@,
            model_indices: self.model_indices@,
            unknown: self.unknown@,
        }
    }
}

/// Mathematical model of one morph-model payload.
#[verifier::ext_equal]
pub struct AnmEntryMorphModelView {
    pub frame_count: i32,
    pub morph_weight: Seq<u32>,
}

impl View for AnmEntryMorphModel {
    type V = AnmEntryMorphModelView;

    open spec fn view(&self) -> AnmEntryMorphModelView {
        AnmEntryMorphModelView { frame_count: self.frame_count, morph_weight: self.morph_weight@ }
    }
}

/// Mathematical model of one entry payload.
#[verifier::ext_equal]
pub enum EntryView {
    Bone(AnmEntryBone),
    Camera(AnmEntryCamera),
    Material(AnmEntryMaterial),
    LightDirc(AnmEntryLightDirc),
    LightPoint(AnmEntryLightPoint),
    Ambient(AnmEntryAmbient),
    MorphModel(AnmEntryMorphModelView),
    Unknown,
}

impl View for Entry {
    type V = EntryView;

    open spec fn view(&self) -> EntryView {
        match self {
            Entry::Bone(e) => EntryView::Bone(*e),
            Entry::Camera(e) => EntryView::Camera(*e),
            Entry::Material(e) => EntryView::Material(*e),
            Entry::LightDirc(e) => EntryView::LightDirc(*e),
            Entry::LightPoint(e) => EntryView::LightPoint(*e),
            Entry::Ambient(e) => EntryView::Ambient(*e),
            Entry::MorphModel(e) => EntryView::MorphModel(e@),
            Entry::Unknown => EntryView::Unknown,
        }
    }
}

/// Mathematical model of one stream entry.
#[verifier::ext_equal]
pub struct AnmStrmEntryView {
    pub coord: AnmCoord,
    pub entry_format: u16,
    pub entry_size: u16,
    pub entry_data: EntryView,
}

impl View for AnmStrmEntry {
    type V = AnmStrmEntryView;

    open spec fn view(&self) -> AnmStrmEntryView {
        AnmStrmEntryView {
            coord: self.coord,
            entry_format: self.entry_format,
            entry_size: self.entry_size,
            entry_data: self.entry_data@,
        }
    }
}

/// Mathematical model of one snapshot.
#[verifier::ext_equal]
pub struct NuccAnmStrmFrameView {
    pub frame_number: u32,
    pub entry_count: u16,
    pub unknown: u16,
    pub entries: Seq<AnmStrmEntryView>,
}

impl View for NuccAnmStrmFrame {
    type V = NuccAnmStrmFrameView;

    open spec fn view(&self) -> NuccAnmStrmFrameView {
        NuccAnmStrmFrameView {
            frame_number: self.frame_number,
            entry_count: self.entry_count,
            unknown: self.unknown,
            entries: self.entries@.map_values(|e: AnmStrmEntry| e@),
        }
    }
}

/// Mathematical model of the whole stream asset.
#[verifier::ext_equal]
pub struct NuccAnmStrmView {
    pub anm_length: u32,
    pub frame_size: u32,
    pub frame_count: u16,
    pub is_looped: u16,
    pub clump_count: u16,
    pub other_entry_count: u16,
    pub other_index_count: u16,
    pub coord_count: u16,
    pub clumps: Seq<AnmStrmClumpView>,
    pub other_entries_indices: Seq<u32>,
    pub coord_parents: Seq<CoordParent>,
    pub frames: Seq<AnmStrmFrameInfo>,
}

impl View for NuccAnmStrm {
    type V = NuccAnmStrmView;

    open spec fn view(&self) -> NuccAnmStrmView {
        NuccAnmStrmView {
            anm_length: self.anm_length,
            frame_size: self.frame_size,
            frame_count: self.frame_count,
            is_looped: self.is_looped,
            clump_count: self.clump_count,
            other_entry_count: self.other_entry_count,
            other_index_count: self.other_index_count,
            coord_count: self.coord_count,
            clumps: self.clumps@.map_values(|c: AnmStrmClump| c@),
            other_entries_indices: self.other_entries_indices@,
            coord_parents: self.coord_parents@,
            frames: self.frames@,
        }
    }
}

impl EntryView {
    /// Whether the frame aggregator keeps this payload kind; morph-model
    /// and unrecognized entries are dropped.
    pub open spec fn is_aggregated(self) -> bool {
        match self {
            EntryView::Bone(_) => true,
            EntryView::Camera(_) => true,
            EntryView::Material(_) => true,
            EntryView::LightDirc(_) => true,
            EntryView::LightPoint(_) => true,
            EntryView::Ambient(_) => true,
            EntryView::MorphModel(_) => false,
            EntryView::Unknown => false,
        }
    }

    /// Whether two payloads are of the same kind.
    pub open spec fn same_kind(self, other: EntryView) -> bool {
        match (self, other) {
            (EntryView::Bone(_), EntryView::Bone(_)) => true,
            (EntryView::Camera(_), EntryView::Camera(_)) => true,
            (EntryView::Material(_), EntryView::Material(_)) => true,
            (EntryView::LightDirc(_), EntryView::LightDirc(_)) => true,
            (EntryView::LightPoint(_), EntryView::LightPoint(_)) => true,
            (EntryView::Ambient(_), EntryView::Ambient(_)) => true,
            (EntryView::MorphModel(_), EntryView::MorphModel(_)) => true,
            (EntryView::Unknown, EntryView::Unknown) => true,
            _ => false,
        }
    }
}

} // verus!
