use anmstrm2anm::anm::{AnmClump, AnmCoord, AnmEntry, CoordParent, NuccAnm};
use anmstrm2anm::anmstrm::NuccAnmStrm;
use anmstrm2anm::split::build_dmg_anm;

fn clump(index: u32, bone_material_count: u16, indices: Vec<u32>) -> AnmClump {
    AnmClump {
        clump_index: index,
        bone_material_count,
        model_count: 0,
        bone_material_indices: indices,
        model_indices: vec![],
    }
}

fn entry_at(clump_index: i16, coord_index: u16) -> AnmEntry {
    AnmEntry {
        coord: AnmCoord { clump_index, coord_index },
        entry_format: 1,
        curve_count: 0,
        curve_headers: vec![],
        curves: vec![],
    }
}

fn coord_parent(parent_clump: i16, child_clump: i16) -> CoordParent {
    CoordParent {
        parent: AnmCoord { clump_index: parent_clump, coord_index: 0 },
        child: AnmCoord { clump_index: child_clump, coord_index: 1 },
    }
}

fn strm_header() -> NuccAnmStrm {
    NuccAnmStrm {
        anm_length: 300,
        frame_size: 100,
        frame_count: 3,
        is_looped: 0,
        clump_count: 2,
        other_entry_count: 0,
        other_index_count: 4,
        coord_count: 2,
        clumps: vec![],
        other_entries_indices: vec![],
        coord_parents: vec![],
        frames: vec![],
    }
}

#[test]
fn split_two_clumps() {
    // The damage clump carries the sentinel count 97; the second clump's
    // chunk index sits 100 behind it and shifts down by 99.
    let anm = NuccAnm {
        anm_length: 300,
        frame_size: 100,
        entry_count: 2,
        looped: 0,
        clump_count: 2,
        other_entry_count: 1,
        other_index_count: 1,
        coord_count: 2,
        clumps: vec![clump(0, 97, vec![1, 2]), clump(100, 5, vec![100, 101])],
        other_entries_indices: vec![8, 9],
        coord_parents: vec![coord_parent(0, 0), coord_parent(1, 1)],
        entries: vec![entry_at(0, 0), entry_at(1, 4)],
    };
    let strm = strm_header();
    let (reduced, dmg) = build_dmg_anm(anm, &strm);

    // The extracted clip holds exactly the damage clump, rebased to 0.
    assert_eq!(dmg.clump_count, 1);
    assert_eq!(dmg.clumps[0].clump_index, 0);
    assert_eq!(dmg.clumps[0].bone_material_count, 97);
    assert_eq!(dmg.clumps[0].bone_material_indices, vec![1, 2]);
    assert_eq!(dmg.coord_count, 1);
    assert_eq!(dmg.coord_parents[0].parent.clump_index, 0);
    assert_eq!(dmg.coord_parents[0].child.clump_index, 0);
    assert_eq!(dmg.entry_count, 1);
    assert_eq!(dmg.entries[0].coord.clump_index, 0);
    assert_eq!(dmg.entries[0].coord.coord_index, 0);
    // The extracted clip's auxiliary entries are zeroed; its header
    // fields come from the stream.
    assert_eq!(dmg.other_entry_count, 0);
    assert_eq!(dmg.other_index_count, 4);
    assert!(dmg.other_entries_indices.is_empty());
    assert_eq!(dmg.anm_length, 300);

    // The reduced clip holds the other clump, shifted down by 99, and
    // the other relations and entries, shifted down by 1.
    assert_eq!(reduced.clump_count, 1);
    assert_eq!(reduced.clumps[0].clump_index, 1);
    assert_eq!(reduced.clumps[0].bone_material_count, 5);
    assert_eq!(reduced.clumps[0].bone_material_indices, vec![1, 2]);
    assert_eq!(reduced.coord_count, 1);
    assert_eq!(reduced.coord_parents[0].parent.clump_index, 0);
    assert_eq!(reduced.coord_parents[0].child.clump_index, 0);
    assert_eq!(reduced.entry_count, 1);
    assert_eq!(reduced.entries[0].coord.clump_index, 0);
    assert_eq!(reduced.entries[0].coord.coord_index, 4);
    assert_eq!(reduced.other_entry_count, 1);
    assert_eq!(reduced.other_entries_indices, vec![8, 9]);

    // Partition: every original clump, relation and entry landed in
    // exactly one of the two clips.
    assert_eq!(dmg.clumps.len() + reduced.clumps.len(), 2);
    assert_eq!(dmg.coord_parents.len() + reduced.coord_parents.len(), 2);
    assert_eq!(dmg.entries.len() + reduced.entries.len(), 2);
}

#[test]
fn no_sentinel_falls_back_to_clump_zero() {
    let anm = NuccAnm {
        anm_length: 0,
        frame_size: 0,
        entry_count: 0,
        looped: 0,
        clump_count: 2,
        other_entry_count: 0,
        other_index_count: 0,
        coord_count: 0,
        clumps: vec![clump(0, 12, vec![]), clump(200, 34, vec![200])],
        other_entries_indices: vec![],
        coord_parents: vec![],
        entries: vec![],
    };
    let (reduced, dmg) = build_dmg_anm(anm, &strm_header());
    // No clump carries the sentinel count: clump 0 is extracted.
    assert_eq!(dmg.clumps.len(), 1);
    assert_eq!(dmg.clumps[0].bone_material_count, 12);
    assert_eq!(reduced.clumps.len(), 1);
    assert_eq!(reduced.clumps[0].clump_index, 101);
    assert_eq!(reduced.clumps[0].bone_material_indices, vec![101]);
}

#[test]
fn extracted_entries_are_sorted_by_coord_index() {
    let anm = NuccAnm {
        anm_length: 0,
        frame_size: 0,
        entry_count: 3,
        looped: 0,
        clump_count: 1,
        other_entry_count: 0,
        other_index_count: 0,
        coord_count: 0,
        clumps: vec![clump(0, 97, vec![])],
        other_entries_indices: vec![],
        coord_parents: vec![],
        entries: vec![entry_at(0, 9), entry_at(0, 2), entry_at(0, 5)],
    };
    let (reduced, dmg) = build_dmg_anm(anm, &strm_header());
    assert_eq!(reduced.entries.len(), 0);
    let keys: Vec<u16> = dmg.entries.iter().map(|e| e.coord.coord_index).collect();
    assert_eq!(keys, vec![2, 5, 9]);
}
