use anmstrm2anm::anm::{AnmCoord, Vector3, Vector4};
use anmstrm2anm::anmstrm::{
    AnmEntryBone, AnmStrmEntry, Entry, NuccAnmStrm, NuccAnmStrmFrame,
};
use anmstrm2anm::convert::{convert_anmstrm, ConvertError};

fn v3(x: f32, y: f32, z: f32) -> Vector3 {
    Vector3 { x: x.to_bits(), y: y.to_bits(), z: z.to_bits() }
}

fn bone(coord_index: u16, x: f32) -> AnmStrmEntry {
    AnmStrmEntry {
        coord: AnmCoord { clump_index: 0, coord_index },
        entry_format: 1,
        entry_size: 48,
        entry_data: Entry::Bone(AnmEntryBone {
            frame_count: 0,
            location: v3(x, 0.0, 0.0),
            rotation: Vector4 {
                x: 0.0f32.to_bits(),
                y: 0.0f32.to_bits(),
                z: 0.0f32.to_bits(),
                w: 1.0f32.to_bits(),
            },
            scale: v3(1.0, 1.0, 1.0),
            toggled: 1.0f32.to_bits(),
        }),
    }
}

fn frame(number: u32, entries: Vec<AnmStrmEntry>) -> NuccAnmStrmFrame {
    NuccAnmStrmFrame { frame_number: number, entry_count: entries.len() as u16, unknown: 0, entries }
}

fn strm() -> NuccAnmStrm {
    NuccAnmStrm {
        anm_length: 200,
        frame_size: 100,
        frame_count: 2,
        is_looped: 0,
        clump_count: 1,
        other_entry_count: 0,
        other_index_count: 0,
        coord_count: 0,
        clumps: vec![anmstrm2anm::anmstrm::AnmStrmClump {
            clump_index: 0,
            bone_material_count: 97,
            model_count: 0,
            bone_material_indices: vec![],
            model_indices: vec![],
            unknown: vec![],
        }],
        other_entries_indices: vec![],
        coord_parents: vec![],
        frames: vec![],
    }
}

#[test]
fn pipeline_produces_two_clips() {
    // Two snapshots, two bone slots; entries are regrouped per slot,
    // converted, sorted by coordinate index, then split.
    let frames = vec![
        frame(0, vec![bone(5, 1.0), bone(2, 3.0)]),
        frame(1, vec![bone(5, 2.0), bone(2, 4.0)]),
    ];
    let s = strm();
    let anms = convert_anmstrm(&s, &frames).expect("conversion must succeed");
    assert_eq!(anms.len(), 2);
    let reduced = &anms[0];
    let dmg = &anms[1];
    // The single clump carries the sentinel, so everything lands in the
    // extracted damage clip and the reduced clip keeps nothing.
    assert_eq!(reduced.entry_count, 0);
    assert_eq!(dmg.entry_count, 2);
    // Entries were sorted stably by coordinate index before the split.
    assert_eq!(dmg.entries[0].coord.coord_index, 2);
    assert_eq!(dmg.entries[1].coord.coord_index, 5);
    // Each bone entry carries its four curves.
    assert_eq!(dmg.entries[0].curve_count, 4);
    // Header fields came over from the stream.
    assert_eq!(dmg.anm_length, 200);
    assert_eq!(dmg.frame_size, 100);
}

#[test]
fn mixed_kind_slot_is_refused() {
    let mut wrong = bone(5, 1.0);
    wrong.entry_data = Entry::Ambient(anmstrm2anm::anmstrm::AnmEntryAmbient {
        frame_count: 0,
        color: v3(1.0, 1.0, 1.0),
        intensity: 1.0f32.to_bits(),
    });
    let frames = vec![frame(0, vec![bone(5, 1.0)]), frame(1, vec![wrong])];
    let r = convert_anmstrm(&strm(), &frames);
    assert_eq!(r.unwrap_err(), ConvertError::SeriesKind);
}

#[test]
fn overlong_snapshot_is_refused() {
    let frames = vec![frame(0, vec![bone(5, 1.0)]), frame(1, vec![bone(5, 1.0), bone(6, 1.0)])];
    let r = convert_anmstrm(&strm(), &frames);
    assert_eq!(r.unwrap_err(), ConvertError::FrameShape);
}

#[test]
fn empty_frames_build_empty_clips() {
    let anms = convert_anmstrm(&strm(), &vec![]).expect("empty input is fine");
    assert_eq!(anms.len(), 2);
    assert_eq!(anms[1].entry_count, 0);
}

#[test]
fn morph_model_slots_are_dropped() {
    let morph = AnmStrmEntry {
        coord: AnmCoord { clump_index: 0, coord_index: 9 },
        entry_format: 12,
        entry_size: 8,
        entry_data: Entry::MorphModel(anmstrm2anm::anmstrm::AnmEntryMorphModel {
            frame_count: 1,
            morph_weight: vec![1.0f32.to_bits()],
        }),
    };
    let frames = vec![frame(0, vec![bone(1, 1.0), morph.clone()]), frame(1, vec![bone(1, 2.0), morph])];
    let anms = convert_anmstrm(&strm(), &frames).expect("conversion must succeed");
    // Only the bone slot survives aggregation.
    assert_eq!(anms[1].entry_count, 1);
    assert_eq!(anms[1].entries[0].coord.coord_index, 1);
}
