use anmstrm2anm::anm::{AnmCoord, Curve, CurveHeader, Vector3, Vector4};
use anmstrm2anm::anmstrm::{AnmEntryBone, AnmEntryLightDirc, AnmEntryMaterial, AnmStrmEntry, Entry};
use anmstrm2anm::convert::convert_entries;

fn v3(x: f32, y: f32, z: f32) -> Vector3 {
    Vector3 { x: x.to_bits(), y: y.to_bits(), z: z.to_bits() }
}

fn v4(x: f32, y: f32, z: f32, w: f32) -> Vector4 {
    Vector4 { x: x.to_bits(), y: y.to_bits(), z: z.to_bits(), w: w.to_bits() }
}

fn bone_entry() -> AnmStrmEntry {
    AnmStrmEntry {
        coord: AnmCoord { clump_index: 0, coord_index: 0 },
        entry_format: 1,
        entry_size: 48,
        entry_data: Entry::Bone(AnmEntryBone {
            frame_count: 0,
            location: v3(1.0, 2.0, 3.0),
            rotation: v4(0.5, 0.5, 0.5, 0.5),
            scale: v3(1.0, 1.0, 1.0),
            toggled: 1.0f32.to_bits(),
        }),
    }
}

#[test]
fn bone_series_three_frames() {
    // A stream with 3 frames and one bone entry at (clump 0, coord 0),
    // identical across frames, toggled fixed at 1.0.
    let series = vec![bone_entry(), bone_entry(), bone_entry()];
    let out = convert_entries(vec![(0u16, series)]);
    assert_eq!(out.len(), 1);
    let e = &out[0];
    assert_eq!(e.coord, AnmCoord { clump_index: 0, coord_index: 0 });
    assert_eq!(e.entry_format, 1);
    assert_eq!(e.curve_count, 4);
    assert_eq!(e.curves.len(), 4);
    assert_eq!(e.curve_headers.len(), 4);

    // Location: keyframed 3-vector of length 4, 3 samples plus one
    // terminator at time -1 holding the repeated value.
    match &e.curves[0] {
        Curve::KeyframeVector3(keys) => {
            assert_eq!(keys.len(), 4);
            assert_eq!(keys[0].frame, 0);
            assert_eq!(keys[1].frame, 100);
            assert_eq!(keys[2].frame, 200);
            assert_eq!(keys[3].frame, -1);
            assert_eq!(keys[3].value, v3(1.0, 2.0, 3.0));
            assert_eq!(keys[2].value, keys[3].value);
        }
        other => panic!("unexpected location curve {:?}", other),
    }

    // Rotation: quantized quaternion of length 3, no terminator (this
    // shape carries no time index); 0.5 * 32767 truncates to 16383.
    match &e.curves[1] {
        Curve::QuaternionShort(keys) => {
            assert_eq!(keys.len(), 3);
            for k in keys {
                assert_eq!((k.x, k.y, k.z, k.w), (16383, 16383, 16383, 16383));
            }
        }
        other => panic!("unexpected rotation curve {:?}", other),
    }

    // Scale: quantized 3-vector of length 3, 1.0 * 4096 = 4096.
    match &e.curves[2] {
        Curve::Vector3Short(keys) => {
            assert_eq!(keys.len(), 3);
            for k in keys {
                assert_eq!((k.x, k.y, k.z), (4096, 4096, 4096));
            }
        }
        other => panic!("unexpected scale curve {:?}", other),
    }

    // Toggle: float array of length 3, one sample per frame.
    match &e.curves[3] {
        Curve::Float(vals) => {
            assert_eq!(vals.len(), 3);
            assert!(vals.iter().all(|v| *v == 1.0f32.to_bits()));
        }
        other => panic!("unexpected toggle curve {:?}", other),
    }

    // Headers: sequential indices, creation-time format codes, counts
    // recomputed after finalization, the fixed byte-size field.
    assert_eq!(
        e.curve_headers[0],
        CurveHeader { curve_index: 0, curve_format: 0x06, frame_count: 4, curve_size: 8 }
    );
    assert_eq!(
        e.curve_headers[1],
        CurveHeader { curve_index: 1, curve_format: 0x11, frame_count: 3, curve_size: 8 }
    );
    assert_eq!(
        e.curve_headers[2],
        CurveHeader { curve_index: 2, curve_format: 0x10, frame_count: 3, curve_size: 8 }
    );
    assert_eq!(
        e.curve_headers[3],
        CurveHeader { curve_index: 3, curve_format: 0x0B, frame_count: 3, curve_size: 8 }
    );
}

#[test]
fn single_frame_has_no_terminator() {
    let out = convert_entries(vec![(0u16, vec![bone_entry()])]);
    match &out[0].curves[0] {
        Curve::KeyframeVector3(keys) => {
            // One key only: finalization leaves curves of length <= 1 alone.
            assert_eq!(keys.len(), 1);
            assert_eq!(keys[0].frame, 0);
        }
        other => panic!("unexpected curve {:?}", other),
    }
}

#[test]
fn material_series_builds_eighteen_curves() {
    let mut channels = [0u32; 16];
    for (i, c) in channels.iter_mut().enumerate() {
        *c = (i as f32).to_bits();
    }
    let e = AnmStrmEntry {
        coord: AnmCoord { clump_index: 0, coord_index: 3 },
        entry_format: 4,
        entry_size: 68,
        entry_data: Entry::Material(AnmEntryMaterial { frame_count: 0, ambient_color: channels }),
    };
    let out = convert_entries(vec![(3u16, vec![e.clone(), e.clone()])]);
    assert_eq!(out.len(), 1);
    let entry = &out[0];
    assert_eq!(entry.entry_format, 4);
    assert_eq!(entry.curve_count, 18);

    // Channel 0 is keyframed with a synthesized +50 hold key per sample,
    // plus the terminator: 2 frames -> 4 keys + 1 terminator.
    match &entry.curves[0] {
        Curve::KeyframeFloat(keys) => {
            assert_eq!(keys.len(), 5);
            assert_eq!(keys[0].frame, 0);
            assert_eq!(keys[1].frame, 50);
            assert_eq!(keys[2].frame, 100);
            assert_eq!(keys[3].frame, 150);
            assert_eq!(keys[4].frame, -1);
            assert_eq!(keys[4].value, keys[3].value);
        }
        other => panic!("unexpected channel curve {:?}", other),
    }

    // Channel 2 is a plain float array, one value per frame.
    match &entry.curves[2] {
        Curve::Float(vals) => assert_eq!(vals, &vec![2.0f32.to_bits(); 2]),
        other => panic!("unexpected channel curve {:?}", other),
    }

    // The two synthetic toggle curves are fixed at 0.0 and 1.0.
    match &entry.curves[16] {
        Curve::Float(vals) => assert_eq!(vals, &vec![0.0f32.to_bits(); 2]),
        other => panic!("unexpected toggle curve {:?}", other),
    }
    match &entry.curves[17] {
        Curve::Float(vals) => assert_eq!(vals, &vec![1.0f32.to_bits(); 2]),
        other => panic!("unexpected toggle curve {:?}", other),
    }
    assert_eq!(entry.curve_headers[16].curve_format, 0x0B);
    assert_eq!(entry.curve_headers[2].curve_format, 0x16);
    assert_eq!(entry.curve_headers[0].curve_format, 0x0C);
}

#[test]
fn rgb_color_curve_is_padded_to_multiple_of_four() {
    // A directional light over 3 frames: the byte-RGB color curve pads
    // by repeating its last element until its length is a multiple of 4.
    let e = AnmStrmEntry {
        coord: AnmCoord { clump_index: 0, coord_index: 7 },
        entry_format: 5,
        entry_size: 36,
        entry_data: Entry::LightDirc(AnmEntryLightDirc {
            frame_count: 0,
            color: v3(1.0, 0.5, 0.0),
            intensity: 2.0f32.to_bits(),
            direction: v4(0.0, 0.0, 0.0, 1.0),
        }),
    };
    let out = convert_entries(vec![(7u16, vec![e.clone(), e.clone(), e.clone()])]);
    let entry = &out[0];
    assert_eq!(entry.entry_format, 5);
    assert_eq!(entry.curve_count, 3);
    match &entry.curves[0] {
        Curve::RGB(vals) => {
            assert_eq!(vals.len() % 4, 0);
            assert_eq!(vals.len(), 4);
            // Channels truncate: 1.0 -> 255, 0.5 -> 127, 0.0 -> 0.
            assert_eq!((vals[0].r, vals[0].g, vals[0].b), (255, 127, 0));
            // The pad element repeats the last real element.
            assert_eq!(vals[3], vals[2]);
        }
        other => panic!("unexpected color curve {:?}", other),
    }
    // The header's count field reflects the padded length.
    assert_eq!(entry.curve_headers[0].frame_count, 4);
    assert_eq!(entry.curve_headers[0].curve_format, 0x14);
}
