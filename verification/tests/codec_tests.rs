use anmstrm2anm::anm::{
    AnmClump, AnmCoord, AnmEntry, Curve, CurveHeader, CoordParent, KeyframeFloat,
    KeyframeVector3, NuccAnm, QuaternionShort, Vector3, RGB,
};
use anmstrm2anm::codec::{decode_anm, encode_anm};
use anmstrm2anm::codec_strm::{decode_anm_strm, decode_anm_strm_frame, encode_anm_strm, encode_anm_strm_frame};
use anmstrm2anm::anmstrm::Entry;

fn sample_anm() -> NuccAnm {
    NuccAnm {
        anm_length: 300,
        frame_size: 100,
        entry_count: 1,
        looped: 0,
        clump_count: 1,
        other_entry_count: 1,
        other_index_count: 1,
        coord_count: 1,
        clumps: vec![AnmClump {
            clump_index: 0,
            bone_material_count: 2,
            model_count: 1,
            bone_material_indices: vec![3, 4],
            model_indices: vec![7],
        }],
        other_entries_indices: vec![10, 11],
        coord_parents: vec![CoordParent {
            parent: AnmCoord { clump_index: 0, coord_index: 0 },
            child: AnmCoord { clump_index: 0, coord_index: 1 },
        }],
        entries: vec![AnmEntry {
            coord: AnmCoord { clump_index: 0, coord_index: 1 },
            entry_format: 1,
            curve_count: 4,
            curve_headers: vec![
                CurveHeader { curve_index: 0, curve_format: 0x06, frame_count: 2, curve_size: 8 },
                CurveHeader { curve_index: 1, curve_format: 0x11, frame_count: 1, curve_size: 8 },
                CurveHeader { curve_index: 2, curve_format: 0x14, frame_count: 2, curve_size: 8 },
                CurveHeader { curve_index: 3, curve_format: 0x0C, frame_count: 1, curve_size: 8 },
            ],
            curves: vec![
                Curve::KeyframeVector3(vec![
                    KeyframeVector3 {
                        frame: 0,
                        value: Vector3 {
                            x: 1.0f32.to_bits(),
                            y: 2.0f32.to_bits(),
                            z: 3.0f32.to_bits(),
                        },
                    },
                    KeyframeVector3 {
                        frame: -1,
                        value: Vector3 {
                            x: 1.0f32.to_bits(),
                            y: 2.0f32.to_bits(),
                            z: 3.0f32.to_bits(),
                        },
                    },
                ]),
                Curve::QuaternionShort(vec![QuaternionShort { x: 16383, y: 0, z: -16383, w: 32767 }]),
                Curve::RGB(vec![RGB { r: 255, g: 0, b: 127 }, RGB { r: 1, g: 2, b: 3 }]),
                Curve::KeyframeFloat(vec![KeyframeFloat { frame: 0, value: 0.25f32.to_bits() }]),
            ],
        }],
    }
}

#[test]
fn clip_round_trip() {
    // Encoding then decoding a well-formed clip yields field-for-field
    // equal data.
    let a = sample_anm();
    let bytes = encode_anm(&a);
    let back = decode_anm(&bytes).expect("decoding an encoded clip must succeed");
    assert_eq!(back, a);
}

#[test]
fn clip_wire_layout_is_big_endian() {
    let a = sample_anm();
    let bytes = encode_anm(&a);
    // anm_length = 300 = 0x012C, big-endian in the first four bytes.
    assert_eq!(&bytes[0..4], &[0, 0, 0x01, 0x2C]);
    // frame_size = 100.
    assert_eq!(&bytes[4..8], &[0, 0, 0, 100]);
    // entry_count = 1.
    assert_eq!(&bytes[8..10], &[0, 1]);
}

#[test]
fn rgb_curve_is_padded_on_the_wire() {
    let a = sample_anm();
    let bytes = encode_anm(&a);
    // Sizes: header 20, clump 8 + 12, aux 8, coord parent 8, entry head 8,
    // 4 curve headers 32, keyframed vector3 2*16, quaternion 8,
    // RGB 2*3 + 2 pad bytes (count % 4), keyframed float 8.
    let expected = 20 + 20 + 8 + 8 + 8 + 32 + 32 + 8 + (6 + 2) + 8;
    assert_eq!(bytes.len(), expected);
}

#[test]
fn truncated_clip_fails_to_decode() {
    let a = sample_anm();
    let mut bytes = encode_anm(&a);
    bytes.pop();
    assert!(decode_anm(&bytes).is_none());
}

#[test]
fn unknown_curve_format_fails_to_decode() {
    let a = sample_anm();
    let mut bytes = encode_anm(&a);
    // The first curve header's format code sits right after the entry's
    // coordinate, kind and count: patch it to an unrecognized value.
    let header_off = 20 + 20 + 8 + 8 + 8;
    bytes[header_off + 2] = 0x00;
    bytes[header_off + 3] = 0x99;
    assert!(decode_anm(&bytes).is_none());
}

#[test]
fn stream_header_decodes() {
    // A stream header with one clump, no aux indices, one coordinate
    // parent and one frame-info record.
    let mut b: Vec<u8> = Vec::new();
    b.extend_from_slice(&[0, 0, 1, 44]); // anm_length
    b.extend_from_slice(&[0, 0, 0, 100]); // frame_size
    b.extend_from_slice(&[0, 1]); // frame_count
    b.extend_from_slice(&[0, 0]); // is_looped
    b.extend_from_slice(&[0, 1]); // clump_count
    b.extend_from_slice(&[0, 0]); // other_entry_count
    b.extend_from_slice(&[0, 0]); // other_index_count
    b.extend_from_slice(&[0, 1]); // coord_count
    // clump: index 2, one bone/material slot, one model slot
    b.extend_from_slice(&[0, 0, 0, 2]);
    b.extend_from_slice(&[0, 1]);
    b.extend_from_slice(&[0, 1]);
    b.extend_from_slice(&[0, 0, 0, 5]); // bone_material_indices
    b.extend_from_slice(&[0, 0, 0, 6]); // model_indices
    b.extend_from_slice(&[0, 0, 0, 7]); // unknown
    // coord parent
    b.extend_from_slice(&[0, 0, 0, 0, 0, 0, 0, 1]);
    // frame info: offset 64, number 0
    b.extend_from_slice(&[0, 0, 0, 64, 0, 0]);
    let strm = decode_anm_strm(&b).expect("stream header must decode");
    assert_eq!(strm.frame_count, 1);
    assert_eq!(strm.clumps.len(), 1);
    assert_eq!(strm.clumps[0].clump_index, 2);
    assert_eq!(strm.clumps[0].bone_material_indices, vec![5]);
    assert_eq!(strm.clumps[0].unknown, vec![7]);
    assert_eq!(strm.frames.len(), 1);
    assert_eq!(strm.frames[0].frame_offset, 64);
}

#[test]
fn stream_frame_decodes_bone_entry() {
    let mut b: Vec<u8> = Vec::new();
    b.extend_from_slice(&[0, 0, 0, 0]); // frame_number
    b.extend_from_slice(&[0, 1]); // entry_count
    b.extend_from_slice(&[0, 0]); // unknown
    // entry: coord (0, 0), format 1 (bone), size 48
    b.extend_from_slice(&[0, 0, 0, 0]);
    b.extend_from_slice(&[0, 1]);
    b.extend_from_slice(&[0, 48]);
    // bone payload
    b.extend_from_slice(&[0, 0, 0, 0]); // frame_count
    for v in [1.0f32, 2.0, 3.0] {
        b.extend_from_slice(&v.to_bits().to_be_bytes());
    }
    for v in [0.0f32, 0.0, 0.0, 1.0] {
        b.extend_from_slice(&v.to_bits().to_be_bytes());
    }
    for v in [1.0f32, 1.0, 1.0] {
        b.extend_from_slice(&v.to_bits().to_be_bytes());
    }
    b.extend_from_slice(&1.0f32.to_bits().to_be_bytes()); // toggled
    let frame = decode_anm_strm_frame(&b).expect("frame must decode");
    assert_eq!(frame.entry_count, 1);
    match &frame.entries[0].entry_data {
        Entry::Bone(bone) => {
            assert_eq!(bone.location.x, 1.0f32.to_bits());
            assert_eq!(bone.rotation.w, 1.0f32.to_bits());
            assert_eq!(bone.toggled, 1.0f32.to_bits());
        }
        other => panic!("unexpected payload {:?}", other),
    }
}

#[test]
fn stream_frame_unknown_kind_fails() {
    let mut b: Vec<u8> = Vec::new();
    b.extend_from_slice(&[0, 0, 0, 0]);
    b.extend_from_slice(&[0, 1]);
    b.extend_from_slice(&[0, 0]);
    b.extend_from_slice(&[0, 0, 0, 0]);
    b.extend_from_slice(&[0, 3]); // entry-kind 3 does not exist
    b.extend_from_slice(&[0, 0]);
    assert!(decode_anm_strm_frame(&b).is_none());
}

#[test]
fn stream_header_round_trip() {
    let mut b: Vec<u8> = Vec::new();
    b.extend_from_slice(&[0, 0, 1, 44]);
    b.extend_from_slice(&[0, 0, 0, 100]);
    b.extend_from_slice(&[0, 1]);
    b.extend_from_slice(&[0, 0]);
    b.extend_from_slice(&[0, 1]);
    b.extend_from_slice(&[0, 0]);
    b.extend_from_slice(&[0, 0]);
    b.extend_from_slice(&[0, 1]);
    b.extend_from_slice(&[0, 0, 0, 2]);
    b.extend_from_slice(&[0, 1]);
    b.extend_from_slice(&[0, 1]);
    b.extend_from_slice(&[0, 0, 0, 5]);
    b.extend_from_slice(&[0, 0, 0, 6]);
    b.extend_from_slice(&[0, 0, 0, 7]);
    b.extend_from_slice(&[0, 0, 0, 0, 0, 0, 0, 1]);
    b.extend_from_slice(&[0, 0, 0, 64, 0, 0]);
    let strm = decode_anm_strm(&b).expect("stream header must decode");
    // Re-encoding a decoded stream header reproduces the input bytes.
    assert_eq!(encode_anm_strm(&strm), b);
}

#[test]
fn stream_frame_round_trip() {
    let mut b: Vec<u8> = Vec::new();
    b.extend_from_slice(&[0, 0, 0, 0]);
    b.extend_from_slice(&[0, 1]);
    b.extend_from_slice(&[0, 0]);
    b.extend_from_slice(&[0, 0, 0, 0]);
    b.extend_from_slice(&[0, 1]);
    b.extend_from_slice(&[0, 48]);
    b.extend_from_slice(&[0, 0, 0, 0]);
    for v in [1.0f32, 2.0, 3.0, 0.0, 0.0, 0.0, 1.0, 1.0, 1.0, 1.0, 1.0] {
        b.extend_from_slice(&v.to_bits().to_be_bytes());
    }
    let frame = decode_anm_strm_frame(&b).expect("frame must decode");
    assert_eq!(encode_anm_strm_frame(&frame), b);
}
