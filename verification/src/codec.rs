//! Binary codec: bit-exact readers and writers for the clip and stream
//! formats. Every multi-byte integer is big-endian; every count-prefixed
//! list is read by reading its declared count first; a curve payload's
//! shape is selected by its header's format code alone.
//!
//! Each record has a total parser specification and a serializer
//! specification; the executable decoder and encoder are proved equal to
//! them, and parsing is proved to invert serialization on well-formed
//! values.

use vstd::prelude::*;
use crate::anm::{
    AnmClump,
    AnmClumpView,
    AnmCoord,
    AnmEntry,
    AnmEntryView,
    CoordParent,
    Curve,
    CurveHeader,
    CurveView,
    KeyframeFloat,
    KeyframeVector3,
    KeyframeVector4,
    NuccAnm,
    NuccAnmView,
    QuaternionShort,
    Vector3,
    Vector3Short,
    Vector4,
    RGB,
};
use crate::bytes::{
    lemma_parse_ser_i16,
    lemma_parse_ser_i32,
    lemma_parse_ser_u16,
    lemma_parse_ser_u32,
    parse_i16_at,
    parse_i32_at,
    parse_u16_at,
    parse_u32_at,
    push_i16,
    push_i32,
    push_u16,
    push_u32,
    push_u8,
    read_i16,
    read_i32,
    read_u16,
    read_u32,
    read_u8,
    ser_i16,
    ser_i32,
    ser_u16,
    ser_u32,
    ser_u8,
};

verus! {

/// Concatenated serialization of a list's elements, in order.
pub open spec fn ser_seq<T>(s: Seq<T>, f: spec_fn(T) -> Seq<u8>) -> Seq<u8>
    decreases s.len(),
{
    if s.len() == 0 {
        Seq::empty()
    } else {
        f(s.first()) + ser_seq(s.drop_first(), f)
    }
}

/// Parse exactly `n` elements with the element parser `f`, threading the
/// position; any element failure fails the list.
pub open spec fn parse_n<T>(
    b: Seq<u8>,
    pos: int,
    n: int,
    f: spec_fn(Seq<u8>, int) -> Option<(T, int)>,
) -> Option<(Seq<T>, int)>
    decreases n,
{
    if n <= 0 {
        Some((Seq::empty(), pos))
    } else {
        match f(b, pos) {
            Some((v, p2)) => match parse_n(b, p2, n - 1, f) {
                Some((vs, p3)) => Some((seq![v] + vs, p3)),
                None => None,
            },
            None => None,
        }
    }
}

/// Serializing one more element appends its bytes.
pub proof fn lemma_ser_seq_snoc<T>(s: Seq<T>, x: T, f: spec_fn(T) -> Seq<u8>)
    ensures
        ser_seq(s.push(x), f) == ser_seq(s, f) + f(x),
    decreases s.len(),
{
    if s.len() == 0 {
        assert(s.push(x).drop_first() =~= Seq::<T>::empty());
        assert(s.push(x).first() == x);
        assert(ser_seq(Seq::<T>::empty(), f) == Seq::<u8>::empty());
        assert(ser_seq(s.push(x), f) =~= ser_seq(s, f) + f(x));
    } else {
        lemma_ser_seq_snoc(s.drop_first(), x, f);
        assert(s.push(x).drop_first() =~= s.drop_first().push(x));
        assert(s.push(x).first() == s.first());
        assert(ser_seq(s.push(x), f) =~= ser_seq(s, f) + f(x));
    }
}

/// The element parser inverts the element serializer on buffer `b`, for
/// every element the restriction admits.
pub open spec fn list_hyp<T>(
    b: Seq<u8>,
    serf: spec_fn(T) -> Seq<u8>,
    parsef: spec_fn(Seq<u8>, int) -> Option<(T, int)>,
    okf: spec_fn(T) -> bool,
) -> bool {
    forall|x: T, q: int|
        okf(x) && 0 <= q && q + serf(x).len() <= b.len() && #[trigger] b.subrange(
            q,
            q + serf(x).len() as int,
        ) == serf(x) ==> parsef(b, q) == Some((x, q + serf(x).len() as int))
}

/// Parsing `n` serialized elements from any buffer that holds them
/// yields them back, wherever the element parser inverts the element
/// serializer on that buffer for every admitted element.
pub proof fn lemma_parse_n_ser_seq<T>(
    b: Seq<u8>,
    pos: int,
    s: Seq<T>,
    serf: spec_fn(T) -> Seq<u8>,
    parsef: spec_fn(Seq<u8>, int) -> Option<(T, int)>,
    okf: spec_fn(T) -> bool,
)
    requires
        0 <= pos,
        pos + ser_seq(s, serf).len() <= b.len(),
        b.subrange(pos, pos + ser_seq(s, serf).len() as int) == ser_seq(s, serf),
        list_hyp(b, serf, parsef, okf),
        forall|i: int| 0 <= i < s.len() ==> okf(#[trigger] s[i]),
    ensures
        parse_n(b, pos, s.len() as int, parsef) == Some(
            (s, pos + ser_seq(s, serf).len() as int),
        ),
    decreases s.len(),
{
    if s.len() == 0 {
    } else {
        let e0 = serf(s.first());
        let rest = ser_seq(s.drop_first(), serf);
        assert(ser_seq(s, serf) == e0 + rest);
        assert(b.subrange(pos, pos + e0.len() as int) =~= e0) by {
            assert forall|m: int| 0 <= m < e0.len() implies b.subrange(
                pos,
                pos + e0.len() as int,
            )[m] == e0[m] by {
                assert(b.subrange(pos, pos + ser_seq(s, serf).len() as int)[m] == (e0 + rest)[m]);
            }
        }
        assert(okf(s[0]));
        assert(parsef(b, pos) == Some((s.first(), pos + e0.len() as int)));
        let p2 = pos + e0.len() as int;
        assert(b.subrange(p2, p2 + rest.len() as int) =~= rest) by {
            assert forall|m: int| 0 <= m < rest.len() implies b.subrange(
                p2,
                p2 + rest.len() as int,
            )[m] == rest[m] by {
                assert(b.subrange(pos, pos + ser_seq(s, serf).len() as int)[m + e0.len()] == (e0
                    + rest)[m + e0.len()]);
            }
        }
        assert forall|i: int| 0 <= i < s.drop_first().len() implies okf(
            #[trigger] s.drop_first()[i],
        ) by {
            assert(s.drop_first()[i] == s[i + 1]);
        }
        lemma_parse_n_ser_seq(b, p2, s.drop_first(), serf, parsef, okf);
        assert(seq![s.first()] + s.drop_first() =~= s);
    }
}

/// Splitting a buffer that holds a concatenation splits it at the seam.
pub proof fn lemma_subrange_concat(b: Seq<u8>, pos: int, s1: Seq<u8>, s2: Seq<u8>)
    requires
        0 <= pos,
        pos + s1.len() + s2.len() <= b.len(),
        b.subrange(pos, pos + s1.len() + s2.len()) == s1 + s2,
    ensures
        b.subrange(pos, pos + s1.len() as int) == s1,
        b.subrange(pos + s1.len() as int, pos + s1.len() + s2.len()) == s2,
{
    assert(b.subrange(pos, pos + s1.len() as int) =~= s1) by {
        assert forall|m: int| 0 <= m < s1.len() implies b.subrange(pos, pos + s1.len() as int)[m]
            == s1[m] by {
            assert(b.subrange(pos, pos + s1.len() + s2.len())[m] == (s1 + s2)[m]);
        }
    }
    assert(b.subrange(pos + s1.len() as int, pos + s1.len() + s2.len()) =~= s2) by {
        assert forall|m: int| 0 <= m < s2.len() implies b.subrange(
            pos + s1.len() as int,
            pos + s1.len() + s2.len(),
        )[m] == s2[m] by {
            assert(b.subrange(pos, pos + s1.len() + s2.len())[m + s1.len()] == (s1 + s2)[m
                + s1.len()]);
            assert(b.subrange(pos, pos + s1.len() + s2.len())[m + s1.len()] == b[pos + m
                + s1.len()]);
            assert((s1 + s2)[m + s1.len()] == s2[m]);
            assert(b.subrange(pos + s1.len() as int, pos + s1.len() + s2.len())[m] == b[pos + m
                + s1.len()]);
        }
    }
}


/// Wire bytes of one u32 element.
pub open spec fn ser_u32_elem(x: u32) -> Seq<u8> {
    ser_u32(x)
}

/// The u32 element starting at `pos`.
pub open spec fn parse_u32_elem(b: Seq<u8>, pos: int) -> Option<(u32, int)> {
    if pos + 4 <= b.len() {
        Some((parse_u32_at(b, pos), pos + 4))
    } else {
        None
    }
}

/// Parsing a serialized u32 element from a buffer that holds it.
pub proof fn lemma_parse_ser_u32_elem(b: Seq<u8>, pos: int, x: u32)
    requires
        0 <= pos,
        pos + 4 <= b.len(),
        b.subrange(pos, pos + 4) == ser_u32_elem(x),
    ensures
        parse_u32_elem(b, pos) == Some((x, pos + 4)),
{
    assert(b.subrange(pos + 0, pos + 4) =~= ser_u32(x)) by {
        assert forall|m: int| 0 <= m < 4 implies b.subrange(pos + 0, pos + 4)[m]
            == ser_u32(x)[m] by {
            assert(b.subrange(pos, pos + 4)[0 + m] == ser_u32_elem(x)[0 + m]);
        }
    }
    lemma_parse_ser_u32(b, pos + 0, x);
}

/// Wire bytes of one Vector3 element.
pub open spec fn ser_vector3(x: Vector3) -> Seq<u8> {
    ser_u32(x.x) + ser_u32(x.y) + ser_u32(x.z)
}

/// The Vector3 element starting at `pos`.
pub open spec fn parse_vector3(b: Seq<u8>, pos: int) -> Option<(Vector3, int)> {
    if pos + 12 <= b.len() {
        Some(
            (
                Vector3 {
                    x: parse_u32_at(b, pos),
                    y: parse_u32_at(b, pos + 4),
                    z: parse_u32_at(b, pos + 8),
                },
                pos + 12,
            ),
        )
    } else {
        None
    }
}

/// Parsing a serialized Vector3 element from a buffer that holds it.
pub proof fn lemma_parse_ser_vector3(b: Seq<u8>, pos: int, x: Vector3)
    requires
        0 <= pos,
        pos + 12 <= b.len(),
        b.subrange(pos, pos + 12) == ser_vector3(x),
    ensures
        parse_vector3(b, pos) == Some((x, pos + 12)),
{
    assert(b.subrange(pos + 0, pos + 4) =~= ser_u32(x.x)) by {
        assert forall|m: int| 0 <= m < 4 implies b.subrange(pos + 0, pos + 4)[m]
            == ser_u32(x.x)[m] by {
            assert(b.subrange(pos, pos + 12)[0 + m] == ser_vector3(x)[0 + m]);
        }
    }
    lemma_parse_ser_u32(b, pos + 0, x.x);
    assert(b.subrange(pos + 4, pos + 8) =~= ser_u32(x.y)) by {
        assert forall|m: int| 0 <= m < 4 implies b.subrange(pos + 4, pos + 8)[m]
            == ser_u32(x.y)[m] by {
            assert(b.subrange(pos, pos + 12)[4 + m] == ser_vector3(x)[4 + m]);
        }
    }
    lemma_parse_ser_u32(b, pos + 4, x.y);
    assert(b.subrange(pos + 8, pos + 12) =~= ser_u32(x.z)) by {
        assert forall|m: int| 0 <= m < 4 implies b.subrange(pos + 8, pos + 12)[m]
            == ser_u32(x.z)[m] by {
            assert(b.subrange(pos, pos + 12)[8 + m] == ser_vector3(x)[8 + m]);
        }
    }
    lemma_parse_ser_u32(b, pos + 8, x.z);
}

/// Wire bytes of one Vector4 element.
pub open spec fn ser_vector4(x: Vector4) -> Seq<u8> {
    ser_u32(x.x) + ser_u32(x.y) + ser_u32(x.z) + ser_u32(x.w)
}

/// The Vector4 element starting at `pos`.
pub open spec fn parse_vector4(b: Seq<u8>, pos: int) -> Option<(Vector4, int)> {
    if pos + 16 <= b.len() {
        Some(
            (
                Vector4 {
                    x: parse_u32_at(b, pos),
                    y: parse_u32_at(b, pos + 4),
                    z: parse_u32_at(b, pos + 8),
                    w: parse_u32_at(b, pos + 12),
                },
                pos + 16,
            ),
        )
    } else {
        None
    }
}

/// Parsing a serialized Vector4 element from a buffer that holds it.
pub proof fn lemma_parse_ser_vector4(b: Seq<u8>, pos: int, x: Vector4)
    requires
        0 <= pos,
        pos + 16 <= b.len(),
        b.subrange(pos, pos + 16) == ser_vector4(x),
    ensures
        parse_vector4(b, pos) == Some((x, pos + 16)),
{
    assert(b.subrange(pos + 0, pos + 4) =~= ser_u32(x.x)) by {
        assert forall|m: int| 0 <= m < 4 implies b.subrange(pos + 0, pos + 4)[m]
            == ser_u32(x.x)[m] by {
            assert(b.subrange(pos, pos + 16)[0 + m] == ser_vector4(x)[0 + m]);
        }
    }
    lemma_parse_ser_u32(b, pos + 0, x.x);
    assert(b.subrange(pos + 4, pos + 8) =~= ser_u32(x.y)) by {
        assert forall|m: int| 0 <= m < 4 implies b.subrange(pos + 4, pos + 8)[m]
            == ser_u32(x.y)[m] by {
            assert(b.subrange(pos, pos + 16)[4 + m] == ser_vector4(x)[4 + m]);
        }
    }
    lemma_parse_ser_u32(b, pos + 4, x.y);
    assert(b.subrange(pos + 8, pos + 12) =~= ser_u32(x.z)) by {
        assert forall|m: int| 0 <= m < 4 implies b.subrange(pos + 8, pos + 12)[m]
            == ser_u32(x.z)[m] by {
            assert(b.subrange(pos, pos + 16)[8 + m] == ser_vector4(x)[8 + m]);
        }
    }
    lemma_parse_ser_u32(b, pos + 8, x.z);
    assert(b.subrange(pos + 12, pos + 16) =~= ser_u32(x.w)) by {
        assert forall|m: int| 0 <= m < 4 implies b.subrange(pos + 12, pos + 16)[m]
            == ser_u32(x.w)[m] by {
            assert(b.subrange(pos, pos + 16)[12 + m] == ser_vector4(x)[12 + m]);
        }
    }
    lemma_parse_ser_u32(b, pos + 12, x.w);
}

/// Wire bytes of one KeyframeVector3 element.
pub open spec fn ser_kf_vector3(x: KeyframeVector3) -> Seq<u8> {
    ser_i32(x.frame) + ser_vector3(x.value)
}

/// The KeyframeVector3 element starting at `pos`.
pub open spec fn parse_kf_vector3(b: Seq<u8>, pos: int) -> Option<(KeyframeVector3, int)> {
    match parse_vector3(b, pos + 4) {
        Some((v, p)) => if pos + 4 <= b.len() {
            Some((KeyframeVector3 { frame: parse_i32_at(b, pos), value: v }, p))
        } else {
            None
        },
        None => None,
    }
}

/// Wire bytes of one KeyframeVector4 element.
pub open spec fn ser_kf_vector4(x: KeyframeVector4) -> Seq<u8> {
    ser_i32(x.frame) + ser_vector4(x.value)
}

/// The KeyframeVector4 element starting at `pos`.
pub open spec fn parse_kf_vector4(b: Seq<u8>, pos: int) -> Option<(KeyframeVector4, int)> {
    match parse_vector4(b, pos + 4) {
        Some((v, p)) => if pos + 4 <= b.len() {
            Some((KeyframeVector4 { frame: parse_i32_at(b, pos), value: v }, p))
        } else {
            None
        },
        None => None,
    }
}

/// Wire bytes of one KeyframeFloat element.
pub open spec fn ser_kf_float(x: KeyframeFloat) -> Seq<u8> {
    ser_i32(x.frame) + ser_u32(x.value)
}

/// The KeyframeFloat element starting at `pos`.
pub open spec fn parse_kf_float(b: Seq<u8>, pos: int) -> Option<(KeyframeFloat, int)> {
    if pos + 8 <= b.len() {
        Some((KeyframeFloat { frame: parse_i32_at(b, pos), value: parse_u32_at(b, pos + 4) }, pos + 8))
    } else {
        None
    }
}

/// Parsing a serialized KeyframeFloat element from a buffer that holds it.
pub proof fn lemma_parse_ser_kf_float(b: Seq<u8>, pos: int, x: KeyframeFloat)
    requires
        0 <= pos,
        pos + 8 <= b.len(),
        b.subrange(pos, pos + 8) == ser_kf_float(x),
    ensures
        parse_kf_float(b, pos) == Some((x, pos + 8)),
{
    assert(b.subrange(pos + 0, pos + 4) =~= ser_i32(x.frame)) by {
        assert forall|m: int| 0 <= m < 4 implies b.subrange(pos + 0, pos + 4)[m]
            == ser_i32(x.frame)[m] by {
            assert(b.subrange(pos, pos + 8)[0 + m] == ser_kf_float(x)[0 + m]);
        }
    }
    lemma_parse_ser_i32(b, pos + 0, x.frame);
    assert(b.subrange(pos + 4, pos + 8) =~= ser_u32(x.value)) by {
        assert forall|m: int| 0 <= m < 4 implies b.subrange(pos + 4, pos + 8)[m]
            == ser_u32(x.value)[m] by {
            assert(b.subrange(pos, pos + 8)[4 + m] == ser_kf_float(x)[4 + m]);
        }
    }
    lemma_parse_ser_u32(b, pos + 4, x.value);
}

/// Wire bytes of one i16 element.
pub open spec fn ser_i16_elem(x: i16) -> Seq<u8> {
    ser_i16(x)
}

/// The i16 element starting at `pos`.
pub open spec fn parse_i16_elem(b: Seq<u8>, pos: int) -> Option<(i16, int)> {
    if pos + 2 <= b.len() {
        Some((parse_i16_at(b, pos), pos + 2))
    } else {
        None
    }
}

/// Parsing a serialized i16 element from a buffer that holds it.
pub proof fn lemma_parse_ser_i16_elem(b: Seq<u8>, pos: int, x: i16)
    requires
        0 <= pos,
        pos + 2 <= b.len(),
        b.subrange(pos, pos + 2) == ser_i16_elem(x),
    ensures
        parse_i16_elem(b, pos) == Some((x, pos + 2)),
{
    assert(b.subrange(pos + 0, pos + 2) =~= ser_i16(x)) by {
        assert forall|m: int| 0 <= m < 2 implies b.subrange(pos + 0, pos + 2)[m]
            == ser_i16(x)[m] by {
            assert(b.subrange(pos, pos + 2)[0 + m] == ser_i16_elem(x)[0 + m]);
        }
    }
    lemma_parse_ser_i16(b, pos + 0, x);
}

/// Wire bytes of one Vector3Short element.
pub open spec fn ser_vector3_short(x: Vector3Short) -> Seq<u8> {
    ser_i16(x.x) + ser_i16(x.y) + ser_i16(x.z)
}

/// The Vector3Short element starting at `pos`.
pub open spec fn parse_vector3_short(b: Seq<u8>, pos: int) -> Option<(Vector3Short, int)> {
    if pos + 6 <= b.len() {
        Some(
            (
                Vector3Short {
                    x: parse_i16_at(b, pos),
                    y: parse_i16_at(b, pos + 2),
                    z: parse_i16_at(b, pos + 4),
                },
                pos + 6,
            ),
        )
    } else {
        None
    }
}

/// Parsing a serialized Vector3Short element from a buffer that holds it.
pub proof fn lemma_parse_ser_vector3_short(b: Seq<u8>, pos: int, x: Vector3Short)
    requires
        0 <= pos,
        pos + 6 <= b.len(),
        b.subrange(pos, pos + 6) == ser_vector3_short(x),
    ensures
        parse_vector3_short(b, pos) == Some((x, pos + 6)),
{
    assert(b.subrange(pos + 0, pos + 2) =~= ser_i16(x.x)) by {
        assert forall|m: int| 0 <= m < 2 implies b.subrange(pos + 0, pos + 2)[m]
            == ser_i16(x.x)[m] by {
            assert(b.subrange(pos, pos + 6)[0 + m] == ser_vector3_short(x)[0 + m]);
        }
    }
    lemma_parse_ser_i16(b, pos + 0, x.x);
    assert(b.subrange(pos + 2, pos + 4) =~= ser_i16(x.y)) by {
        assert forall|m: int| 0 <= m < 2 implies b.subrange(pos + 2, pos + 4)[m]
            == ser_i16(x.y)[m] by {
            assert(b.subrange(pos, pos + 6)[2 + m] == ser_vector3_short(x)[2 + m]);
        }
    }
    lemma_parse_ser_i16(b, pos + 2, x.y);
    assert(b.subrange(pos + 4, pos + 6) =~= ser_i16(x.z)) by {
        assert forall|m: int| 0 <= m < 2 implies b.subrange(pos + 4, pos + 6)[m]
            == ser_i16(x.z)[m] by {
            assert(b.subrange(pos, pos + 6)[4 + m] == ser_vector3_short(x)[4 + m]);
        }
    }
    lemma_parse_ser_i16(b, pos + 4, x.z);
}

/// Wire bytes of one QuaternionShort element.
pub open spec fn ser_quaternion_short(x: QuaternionShort) -> Seq<u8> {
    ser_i16(x.x) + ser_i16(x.y) + ser_i16(x.z) + ser_i16(x.w)
}

/// The QuaternionShort element starting at `pos`.
pub open spec fn parse_quaternion_short(b: Seq<u8>, pos: int) -> Option<(QuaternionShort, int)> {
    if pos + 8 <= b.len() {
        Some(
            (
                QuaternionShort {
                    x: parse_i16_at(b, pos),
                    y: parse_i16_at(b, pos + 2),
                    z: parse_i16_at(b, pos + 4),
                    w: parse_i16_at(b, pos + 6),
                },
                pos + 8,
            ),
        )
    } else {
        None
    }
}

/// Parsing a serialized QuaternionShort element from a buffer that holds it.
pub proof fn lemma_parse_ser_quaternion_short(b: Seq<u8>, pos: int, x: QuaternionShort)
    requires
        0 <= pos,
        pos + 8 <= b.len(),
        b.subrange(pos, pos + 8) == ser_quaternion_short(x),
    ensures
        parse_quaternion_short(b, pos) == Some((x, pos + 8)),
{
    assert(b.subrange(pos + 0, pos + 2) =~= ser_i16(x.x)) by {
        assert forall|m: int| 0 <= m < 2 implies b.subrange(pos + 0, pos + 2)[m]
            == ser_i16(x.x)[m] by {
            assert(b.subrange(pos, pos + 8)[0 + m] == ser_quaternion_short(x)[0 + m]);
        }
    }
    lemma_parse_ser_i16(b, pos + 0, x.x);
    assert(b.subrange(pos + 2, pos + 4) =~= ser_i16(x.y)) by {
        assert forall|m: int| 0 <= m < 2 implies b.subrange(pos + 2, pos + 4)[m]
            == ser_i16(x.y)[m] by {
            assert(b.subrange(pos, pos + 8)[2 + m] == ser_quaternion_short(x)[2 + m]);
        }
    }
    lemma_parse_ser_i16(b, pos + 2, x.y);
    assert(b.subrange(pos + 4, pos + 6) =~= ser_i16(x.z)) by {
        assert forall|m: int| 0 <= m < 2 implies b.subrange(pos + 4, pos + 6)[m]
            == ser_i16(x.z)[m] by {
            assert(b.subrange(pos, pos + 8)[4 + m] == ser_quaternion_short(x)[4 + m]);
        }
    }
    lemma_parse_ser_i16(b, pos + 4, x.z);
    assert(b.subrange(pos + 6, pos + 8) =~= ser_i16(x.w)) by {
        assert forall|m: int| 0 <= m < 2 implies b.subrange(pos + 6, pos + 8)[m]
            == ser_i16(x.w)[m] by {
            assert(b.subrange(pos, pos + 8)[6 + m] == ser_quaternion_short(x)[6 + m]);
        }
    }
    lemma_parse_ser_i16(b, pos + 6, x.w);
}

/// Wire bytes of one RGB element.
pub open spec fn ser_rgb(x: RGB) -> Seq<u8> {
    ser_u8(x.r) + ser_u8(x.g) + ser_u8(x.b)
}

/// The RGB element starting at `pos`.
pub open spec fn parse_rgb(b: Seq<u8>, pos: int) -> Option<(RGB, int)> {
    if pos + 3 <= b.len() {
        Some((RGB { r: b[pos], g: b[pos + 1], b: b[pos + 2] }, pos + 3))
    } else {
        None
    }
}

/// Parsing a serialized RGB element from a buffer that holds it.
pub proof fn lemma_parse_ser_rgb(b: Seq<u8>, pos: int, x: RGB)
    requires
        0 <= pos,
        pos + 3 <= b.len(),
        b.subrange(pos, pos + 3) == ser_rgb(x),
    ensures
        parse_rgb(b, pos) == Some((x, pos + 3)),
{
    assert(b[pos] == b.subrange(pos, pos + 3)[0]);
    assert(b[pos + 1] == b.subrange(pos, pos + 3)[1]);
    assert(b[pos + 2] == b.subrange(pos, pos + 3)[2]);
}

/// Wire bytes of one CoordParent element.
pub open spec fn ser_coord_parent(x: CoordParent) -> Seq<u8> {
    ser_i16(x.parent.clump_index) + ser_u16(x.parent.coord_index) + ser_i16(x.child.clump_index) + ser_u16(x.child.coord_index)
}

/// The CoordParent element starting at `pos`.
pub open spec fn parse_coord_parent(b: Seq<u8>, pos: int) -> Option<(CoordParent, int)> {
    if pos + 8 <= b.len() {
        Some(
            (
                CoordParent {
                    parent: AnmCoord {
                        clump_index: parse_i16_at(b, pos),
                        coord_index: parse_u16_at(b, pos + 2),
                    },
                    child: AnmCoord {
                        clump_index: parse_i16_at(b, pos + 4),
                        coord_index: parse_u16_at(b, pos + 6),
                    },
                },
                pos + 8,
            ),
        )
    } else {
        None
    }
}

/// Parsing a serialized CoordParent element from a buffer that holds it.
pub proof fn lemma_parse_ser_coord_parent(b: Seq<u8>, pos: int, x: CoordParent)
    requires
        0 <= pos,
        pos + 8 <= b.len(),
        b.subrange(pos, pos + 8) == ser_coord_parent(x),
    ensures
        parse_coord_parent(b, pos) == Some((x, pos + 8)),
{
    assert(b.subrange(pos + 0, pos + 2) =~= ser_i16(x.parent.clump_index)) by {
        assert forall|m: int| 0 <= m < 2 implies b.subrange(pos + 0, pos + 2)[m]
            == ser_i16(x.parent.clump_index)[m] by {
            assert(b.subrange(pos, pos + 8)[0 + m] == ser_coord_parent(x)[0 + m]);
        }
    }
    lemma_parse_ser_i16(b, pos + 0, x.parent.clump_index);
    assert(b.subrange(pos + 2, pos + 4) =~= ser_u16(x.parent.coord_index)) by {
        assert forall|m: int| 0 <= m < 2 implies b.subrange(pos + 2, pos + 4)[m]
            == ser_u16(x.parent.coord_index)[m] by {
            assert(b.subrange(pos, pos + 8)[2 + m] == ser_coord_parent(x)[2 + m]);
        }
    }
    lemma_parse_ser_u16(b, pos + 2, x.parent.coord_index);
    assert(b.subrange(pos + 4, pos + 6) =~= ser_i16(x.child.clump_index)) by {
        assert forall|m: int| 0 <= m < 2 implies b.subrange(pos + 4, pos + 6)[m]
            == ser_i16(x.child.clump_index)[m] by {
            assert(b.subrange(pos, pos + 8)[4 + m] == ser_coord_parent(x)[4 + m]);
        }
    }
    lemma_parse_ser_i16(b, pos + 4, x.child.clump_index);
    assert(b.subrange(pos + 6, pos + 8) =~= ser_u16(x.child.coord_index)) by {
        assert forall|m: int| 0 <= m < 2 implies b.subrange(pos + 6, pos + 8)[m]
            == ser_u16(x.child.coord_index)[m] by {
            assert(b.subrange(pos, pos + 8)[6 + m] == ser_coord_parent(x)[6 + m]);
        }
    }
    lemma_parse_ser_u16(b, pos + 6, x.child.coord_index);
}

/// Wire bytes of one CurveHeader element.
pub open spec fn ser_curve_header(x: CurveHeader) -> Seq<u8> {
    ser_u16(x.curve_index) + ser_u16(x.curve_format) + ser_u16(x.frame_count) + ser_u16(x.curve_size)
}

/// The CurveHeader element starting at `pos`.
pub open spec fn parse_curve_header(b: Seq<u8>, pos: int) -> Option<(CurveHeader, int)> {
    if pos + 8 <= b.len() {
        Some(
            (
                CurveHeader {
                    curve_index: parse_u16_at(b, pos),
                    curve_format: parse_u16_at(b, pos + 2),
                    frame_count: parse_u16_at(b, pos + 4),
                    curve_size: parse_u16_at(b, pos + 6),
                },
                pos + 8,
            ),
        )
    } else {
        None
    }
}

/// Parsing a serialized CurveHeader element from a buffer that holds it.
pub proof fn lemma_parse_ser_curve_header(b: Seq<u8>, pos: int, x: CurveHeader)
    requires
        0 <= pos,
        pos + 8 <= b.len(),
        b.subrange(pos, pos + 8) == ser_curve_header(x),
    ensures
        parse_curve_header(b, pos) == Some((x, pos + 8)),
{
    assert(b.subrange(pos + 0, pos + 2) =~= ser_u16(x.curve_index)) by {
        assert forall|m: int| 0 <= m < 2 implies b.subrange(pos + 0, pos + 2)[m]
            == ser_u16(x.curve_index)[m] by {
            assert(b.subrange(pos, pos + 8)[0 + m] == ser_curve_header(x)[0 + m]);
        }
    }
    lemma_parse_ser_u16(b, pos + 0, x.curve_index);
    assert(b.subrange(pos + 2, pos + 4) =~= ser_u16(x.curve_format)) by {
        assert forall|m: int| 0 <= m < 2 implies b.subrange(pos + 2, pos + 4)[m]
            == ser_u16(x.curve_format)[m] by {
            assert(b.subrange(pos, pos + 8)[2 + m] == ser_curve_header(x)[2 + m]);
        }
    }
    lemma_parse_ser_u16(b, pos + 2, x.curve_format);
    assert(b.subrange(pos + 4, pos + 6) =~= ser_u16(x.frame_count)) by {
        assert forall|m: int| 0 <= m < 2 implies b.subrange(pos + 4, pos + 6)[m]
            == ser_u16(x.frame_count)[m] by {
            assert(b.subrange(pos, pos + 8)[4 + m] == ser_curve_header(x)[4 + m]);
        }
    }
    lemma_parse_ser_u16(b, pos + 4, x.frame_count);
    assert(b.subrange(pos + 6, pos + 8) =~= ser_u16(x.curve_size)) by {
        assert forall|m: int| 0 <= m < 2 implies b.subrange(pos + 6, pos + 8)[m]
            == ser_u16(x.curve_size)[m] by {
            assert(b.subrange(pos, pos + 8)[6 + m] == ser_curve_header(x)[6 + m]);
        }
    }
    lemma_parse_ser_u16(b, pos + 6, x.curve_size);
}

/// The element parser of `u32`, as a function value.
pub open spec fn u32_elem_parser() -> spec_fn(Seq<u8>, int) -> Option<(u32, int)> {
    |b: Seq<u8>, pos: int| parse_u32_elem(b, pos)
}

/// The element serializer of `u32`, as a function value.
pub open spec fn u32_elem_ser_fn() -> spec_fn(u32) -> Seq<u8> {
    |x: u32| ser_u32_elem(x)
}

/// Decode `n` consecutive `u32` elements.
pub(crate) fn decode_u32_elem_list(b: &Vec<u8>, pos: usize, n: usize) -> (r: Option<(Vec<u32>, usize)>)
    requires
        pos <= b@.len(),
    ensures
        match r {
            Some(p) => parse_n(b@, pos as int, n as int, u32_elem_parser()) == Some(
                (p.0@, p.1 as int),
            ) && pos <= p.1 <= b@.len(),
            None => parse_n(b@, pos as int, n as int, u32_elem_parser()) is None,
        },
{
    let mut out: Vec<u32> = Vec::new();
    let mut i: usize = 0;
    let mut cur: usize = pos;
    while i < n
        invariant
            pos <= cur <= b@.len(),
            i <= n,
            parse_n(b@, pos as int, n as int, u32_elem_parser()) == (match parse_n(
                b@,
                cur as int,
                (n - i) as int,
                u32_elem_parser(),
            ) {
                Some(q) => Some((out@ + q.0, q.1)),
                None => None::<(Seq<u32>, int)>,
            }),
        decreases n - i,
    {
        proof {
            vstd::std_specs::vec::axiom_spec_len(b);
        }
        if b.len() < 4 || cur > b.len() - 4 {
            proof {
                assert(parse_u32_elem(b@, cur as int) is None);
            }
            return None;
        }
        let x = read_u32(b, cur);
        proof {
            assert(parse_u32_elem(b@, cur as int) == Some((x, cur as int + 4)));
            let f = u32_elem_parser();
            let prev = out@;
            match parse_n(b@, cur as int + 4, (n - i) as int - 1, f) {
                Some(q) => {
                    assert(prev + (seq![x] + q.0) =~= prev.push(x) + q.0);
                },
                None => {},
            }
        }
        out.push(x);
        cur += 4;
        i += 1;
    }
    proof {
        assert(out@ + Seq::<u32>::empty() =~= out@);
    }
    Some((out, cur))
}

/// Append `n` consecutive `u32` elements.
pub(crate) fn encode_u32_elem_list(out: &mut Vec<u8>, v: &Vec<u32>)
    ensures
        final(out)@ == old(out)@ + ser_seq(v@, u32_elem_ser_fn()),
{
    let mut i: usize = 0;
    proof {
        assert(ser_seq(v@.take(0), u32_elem_ser_fn()) == Seq::<u8>::empty());
        assert(out@ =~= old(out)@ + ser_seq(v@.take(0), u32_elem_ser_fn()));
    }
    while i < v.len()
        invariant
            i <= v@.len(),
            out@ == old(out)@ + ser_seq(v@.take(i as int), u32_elem_ser_fn()),
        decreases v@.len() - i,
    {
        let ghost pre = out@;
        let x = v[i];
        push_u32(out, x);
        proof {
            lemma_ser_seq_snoc(v@.take(i as int), v@[i as int], u32_elem_ser_fn());
            assert(v@.take(i as int + 1) =~= v@.take(i as int).push(v@[i as int]));
            assert(out@ =~= old(out)@ + ser_seq(v@.take(i as int + 1), u32_elem_ser_fn()));
        }
        i += 1;
    }
    proof {
        assert(v@.take(v@.len() as int) =~= v@);
    }
}

/// The element parser of `Vector3`, as a function value.
pub open spec fn vector3_parser() -> spec_fn(Seq<u8>, int) -> Option<(Vector3, int)> {
    |b: Seq<u8>, pos: int| parse_vector3(b, pos)
}

/// The element serializer of `Vector3`, as a function value.
pub open spec fn vector3_ser_fn() -> spec_fn(Vector3) -> Seq<u8> {
    |x: Vector3| ser_vector3(x)
}

/// Decode `n` consecutive `Vector3` elements.
fn decode_vector3_list(b: &Vec<u8>, pos: usize, n: usize) -> (r: Option<(Vec<Vector3>, usize)>)
    requires
        pos <= b@.len(),
    ensures
        match r {
            Some(p) => parse_n(b@, pos as int, n as int, vector3_parser()) == Some(
                (p.0@, p.1 as int),
            ) && pos <= p.1 <= b@.len(),
            None => parse_n(b@, pos as int, n as int, vector3_parser()) is None,
        },
{
    let mut out: Vec<Vector3> = Vec::new();
    let mut i: usize = 0;
    let mut cur: usize = pos;
    while i < n
        invariant
            pos <= cur <= b@.len(),
            i <= n,
            parse_n(b@, pos as int, n as int, vector3_parser()) == (match parse_n(
                b@,
                cur as int,
                (n - i) as int,
                vector3_parser(),
            ) {
                Some(q) => Some((out@ + q.0, q.1)),
                None => None::<(Seq<Vector3>, int)>,
            }),
        decreases n - i,
    {
        proof {
            vstd::std_specs::vec::axiom_spec_len(b);
        }
        if b.len() < 12 || cur > b.len() - 12 {
            proof {
                assert(parse_vector3(b@, cur as int) is None);
            }
            return None;
        }
        let x = Vector3 { x: read_u32(b, cur), y: read_u32(b, cur + 4), z: read_u32(b, cur + 8) };
        proof {
            assert(parse_vector3(b@, cur as int) == Some((x, cur as int + 12)));
            let f = vector3_parser();
            let prev = out@;
            match parse_n(b@, cur as int + 12, (n - i) as int - 1, f) {
                Some(q) => {
                    assert(prev + (seq![x] + q.0) =~= prev.push(x) + q.0);
                },
                None => {},
            }
        }
        out.push(x);
        cur += 12;
        i += 1;
    }
    proof {
        assert(out@ + Seq::<Vector3>::empty() =~= out@);
    }
    Some((out, cur))
}

/// Append `n` consecutive `Vector3` elements.
fn encode_vector3_list(out: &mut Vec<u8>, v: &Vec<Vector3>)
    ensures
        final(out)@ == old(out)@ + ser_seq(v@, vector3_ser_fn()),
{
    let mut i: usize = 0;
    proof {
        assert(ser_seq(v@.take(0), vector3_ser_fn()) == Seq::<u8>::empty());
        assert(out@ =~= old(out)@ + ser_seq(v@.take(0), vector3_ser_fn()));
    }
    while i < v.len()
        invariant
            i <= v@.len(),
            out@ == old(out)@ + ser_seq(v@.take(i as int), vector3_ser_fn()),
        decreases v@.len() - i,
    {
        let ghost pre = out@;
        let x = v[i];
        push_u32(out, x.x);
        push_u32(out, x.y);
        push_u32(out, x.z);
        proof {
            lemma_ser_seq_snoc(v@.take(i as int), v@[i as int], vector3_ser_fn());
            assert(v@.take(i as int + 1) =~= v@.take(i as int).push(v@[i as int]));
            assert(out@ =~= old(out)@ + ser_seq(v@.take(i as int + 1), vector3_ser_fn()));
        }
        i += 1;
    }
    proof {
        assert(v@.take(v@.len() as int) =~= v@);
    }
}

/// The element parser of `KeyframeVector3`, as a function value.
pub open spec fn kf_vector3_parser() -> spec_fn(Seq<u8>, int) -> Option<(KeyframeVector3, int)> {
    |b: Seq<u8>, pos: int| parse_kf_vector3(b, pos)
}

/// The element serializer of `KeyframeVector3`, as a function value.
pub open spec fn kf_vector3_ser_fn() -> spec_fn(KeyframeVector3) -> Seq<u8> {
    |x: KeyframeVector3| ser_kf_vector3(x)
}

/// Decode `n` consecutive `KeyframeVector3` elements.
fn decode_kf_vector3_list(b: &Vec<u8>, pos: usize, n: usize) -> (r: Option<(Vec<KeyframeVector3>, usize)>)
    requires
        pos <= b@.len(),
    ensures
        match r {
            Some(p) => parse_n(b@, pos as int, n as int, kf_vector3_parser()) == Some(
                (p.0@, p.1 as int),
            ) && pos <= p.1 <= b@.len(),
            None => parse_n(b@, pos as int, n as int, kf_vector3_parser()) is None,
        },
{
    let mut out: Vec<KeyframeVector3> = Vec::new();
    let mut i: usize = 0;
    let mut cur: usize = pos;
    while i < n
        invariant
            pos <= cur <= b@.len(),
            i <= n,
            parse_n(b@, pos as int, n as int, kf_vector3_parser()) == (match parse_n(
                b@,
                cur as int,
                (n - i) as int,
                kf_vector3_parser(),
            ) {
                Some(q) => Some((out@ + q.0, q.1)),
                None => None::<(Seq<KeyframeVector3>, int)>,
            }),
        decreases n - i,
    {
        proof {
            vstd::std_specs::vec::axiom_spec_len(b);
        }
        if b.len() < 16 || cur > b.len() - 16 {
            proof {
                assert(parse_kf_vector3(b@, cur as int) is None);
            }
            return None;
        }
        let x = KeyframeVector3 {
            frame: read_i32(b, cur),
            value: Vector3 { x: read_u32(b, cur + 4), y: read_u32(b, cur + 8), z: read_u32(b, cur + 12) },
        };
        proof {
            assert(parse_kf_vector3(b@, cur as int) == Some((x, cur as int + 16)));
            let f = kf_vector3_parser();
            let prev = out@;
            match parse_n(b@, cur as int + 16, (n - i) as int - 1, f) {
                Some(q) => {
                    assert(prev + (seq![x] + q.0) =~= prev.push(x) + q.0);
                },
                None => {},
            }
        }
        out.push(x);
        cur += 16;
        i += 1;
    }
    proof {
        assert(out@ + Seq::<KeyframeVector3>::empty() =~= out@);
    }
    Some((out, cur))
}

/// Append `n` consecutive `KeyframeVector3` elements.
fn encode_kf_vector3_list(out: &mut Vec<u8>, v: &Vec<KeyframeVector3>)
    ensures
        final(out)@ == old(out)@ + ser_seq(v@, kf_vector3_ser_fn()),
{
    let mut i: usize = 0;
    proof {
        assert(ser_seq(v@.take(0), kf_vector3_ser_fn()) == Seq::<u8>::empty());
        assert(out@ =~= old(out)@ + ser_seq(v@.take(0), kf_vector3_ser_fn()));
    }
    while i < v.len()
        invariant
            i <= v@.len(),
            out@ == old(out)@ + ser_seq(v@.take(i as int), kf_vector3_ser_fn()),
        decreases v@.len() - i,
    {
        let ghost pre = out@;
        let x = v[i];
        push_i32(out, x.frame);
        push_u32(out, x.value.x);
        push_u32(out, x.value.y);
        push_u32(out, x.value.z);
        proof {
            lemma_ser_seq_snoc(v@.take(i as int), v@[i as int], kf_vector3_ser_fn());
            assert(v@.take(i as int + 1) =~= v@.take(i as int).push(v@[i as int]));
            assert(out@ =~= old(out)@ + ser_seq(v@.take(i as int + 1), kf_vector3_ser_fn()));
        }
        i += 1;
    }
    proof {
        assert(v@.take(v@.len() as int) =~= v@);
    }
}

/// The element parser of `KeyframeVector4`, as a function value.
pub open spec fn kf_vector4_parser() -> spec_fn(Seq<u8>, int) -> Option<(KeyframeVector4, int)> {
    |b: Seq<u8>, pos: int| parse_kf_vector4(b, pos)
}

/// The element serializer of `KeyframeVector4`, as a function value.
pub open spec fn kf_vector4_ser_fn() -> spec_fn(KeyframeVector4) -> Seq<u8> {
    |x: KeyframeVector4| ser_kf_vector4(x)
}

/// Decode `n` consecutive `KeyframeVector4` elements.
fn decode_kf_vector4_list(b: &Vec<u8>, pos: usize, n: usize) -> (r: Option<(Vec<KeyframeVector4>, usize)>)
    requires
        pos <= b@.len(),
    ensures
        match r {
            Some(p) => parse_n(b@, pos as int, n as int, kf_vector4_parser()) == Some(
                (p.0@, p.1 as int),
            ) && pos <= p.1 <= b@.len(),
            None => parse_n(b@, pos as int, n as int, kf_vector4_parser()) is None,
        },
{
    let mut out: Vec<KeyframeVector4> = Vec::new();
    let mut i: usize = 0;
    let mut cur: usize = pos;
    while i < n
        invariant
            pos <= cur <= b@.len(),
            i <= n,
            parse_n(b@, pos as int, n as int, kf_vector4_parser()) == (match parse_n(
                b@,
                cur as int,
                (n - i) as int,
                kf_vector4_parser(),
            ) {
                Some(q) => Some((out@ + q.0, q.1)),
                None => None::<(Seq<KeyframeVector4>, int)>,
            }),
        decreases n - i,
    {
        proof {
            vstd::std_specs::vec::axiom_spec_len(b);
        }
        if b.len() < 20 || cur > b.len() - 20 {
            proof {
                assert(parse_kf_vector4(b@, cur as int) is None);
            }
            return None;
        }
        let x = KeyframeVector4 {
            frame: read_i32(b, cur),
            value: Vector4 {
                x: read_u32(b, cur + 4),
                y: read_u32(b, cur + 8),
                z: read_u32(b, cur + 12),
                w: read_u32(b, cur + 16),
            },
        };
        proof {
            assert(parse_kf_vector4(b@, cur as int) == Some((x, cur as int + 20)));
            let f = kf_vector4_parser();
            let prev = out@;
            match parse_n(b@, cur as int + 20, (n - i) as int - 1, f) {
                Some(q) => {
                    assert(prev + (seq![x] + q.0) =~= prev.push(x) + q.0);
                },
                None => {},
            }
        }
        out.push(x);
        cur += 20;
        i += 1;
    }
    proof {
        assert(out@ + Seq::<KeyframeVector4>::empty() =~= out@);
    }
    Some((out, cur))
}

/// Append `n` consecutive `KeyframeVector4` elements.
fn encode_kf_vector4_list(out: &mut Vec<u8>, v: &Vec<KeyframeVector4>)
    ensures
        final(out)@ == old(out)@ + ser_seq(v@, kf_vector4_ser_fn()),
{
    let mut i: usize = 0;
    proof {
        assert(ser_seq(v@.take(0), kf_vector4_ser_fn()) == Seq::<u8>::empty());
        assert(out@ =~= old(out)@ + ser_seq(v@.take(0), kf_vector4_ser_fn()));
    }
    while i < v.len()
        invariant
            i <= v@.len(),
            out@ == old(out)@ + ser_seq(v@.take(i as int), kf_vector4_ser_fn()),
        decreases v@.len() - i,
    {
        let ghost pre = out@;
        let x = v[i];
        push_i32(out, x.frame);
        push_u32(out, x.value.x);
        push_u32(out, x.value.y);
        push_u32(out, x.value.z);
        push_u32(out, x.value.w);
        proof {
            lemma_ser_seq_snoc(v@.take(i as int), v@[i as int], kf_vector4_ser_fn());
            assert(v@.take(i as int + 1) =~= v@.take(i as int).push(v@[i as int]));
            assert(out@ =~= old(out)@ + ser_seq(v@.take(i as int + 1), kf_vector4_ser_fn()));
        }
        i += 1;
    }
    proof {
        assert(v@.take(v@.len() as int) =~= v@);
    }
}

/// The element parser of `KeyframeFloat`, as a function value.
pub open spec fn kf_float_parser() -> spec_fn(Seq<u8>, int) -> Option<(KeyframeFloat, int)> {
    |b: Seq<u8>, pos: int| parse_kf_float(b, pos)
}

/// The element serializer of `KeyframeFloat`, as a function value.
pub open spec fn kf_float_ser_fn() -> spec_fn(KeyframeFloat) -> Seq<u8> {
    |x: KeyframeFloat| ser_kf_float(x)
}

/// Decode `n` consecutive `KeyframeFloat` elements.
fn decode_kf_float_list(b: &Vec<u8>, pos: usize, n: usize) -> (r: Option<(Vec<KeyframeFloat>, usize)>)
    requires
        pos <= b@.len(),
    ensures
        match r {
            Some(p) => parse_n(b@, pos as int, n as int, kf_float_parser()) == Some(
                (p.0@, p.1 as int),
            ) && pos <= p.1 <= b@.len(),
            None => parse_n(b@, pos as int, n as int, kf_float_parser()) is None,
        },
{
    let mut out: Vec<KeyframeFloat> = Vec::new();
    let mut i: usize = 0;
    let mut cur: usize = pos;
    while i < n
        invariant
            pos <= cur <= b@.len(),
            i <= n,
            parse_n(b@, pos as int, n as int, kf_float_parser()) == (match parse_n(
                b@,
                cur as int,
                (n - i) as int,
                kf_float_parser(),
            ) {
                Some(q) => Some((out@ + q.0, q.1)),
                None => None::<(Seq<KeyframeFloat>, int)>,
            }),
        decreases n - i,
    {
        proof {
            vstd::std_specs::vec::axiom_spec_len(b);
        }
        if b.len() < 8 || cur > b.len() - 8 {
            proof {
                assert(parse_kf_float(b@, cur as int) is None);
            }
            return None;
        }
        let x = KeyframeFloat { frame: read_i32(b, cur), value: read_u32(b, cur + 4) };
        proof {
            assert(parse_kf_float(b@, cur as int) == Some((x, cur as int + 8)));
            let f = kf_float_parser();
            let prev = out@;
            match parse_n(b@, cur as int + 8, (n - i) as int - 1, f) {
                Some(q) => {
                    assert(prev + (seq![x] + q.0) =~= prev.push(x) + q.0);
                },
                None => {},
            }
        }
        out.push(x);
        cur += 8;
        i += 1;
    }
    proof {
        assert(out@ + Seq::<KeyframeFloat>::empty() =~= out@);
    }
    Some((out, cur))
}

/// Append `n` consecutive `KeyframeFloat` elements.
fn encode_kf_float_list(out: &mut Vec<u8>, v: &Vec<KeyframeFloat>)
    ensures
        final(out)@ == old(out)@ + ser_seq(v@, kf_float_ser_fn()),
{
    let mut i: usize = 0;
    proof {
        assert(ser_seq(v@.take(0), kf_float_ser_fn()) == Seq::<u8>::empty());
        assert(out@ =~= old(out)@ + ser_seq(v@.take(0), kf_float_ser_fn()));
    }
    while i < v.len()
        invariant
            i <= v@.len(),
            out@ == old(out)@ + ser_seq(v@.take(i as int), kf_float_ser_fn()),
        decreases v@.len() - i,
    {
        let ghost pre = out@;
        let x = v[i];
        push_i32(out, x.frame);
        push_u32(out, x.value);
        proof {
            lemma_ser_seq_snoc(v@.take(i as int), v@[i as int], kf_float_ser_fn());
            assert(v@.take(i as int + 1) =~= v@.take(i as int).push(v@[i as int]));
            assert(out@ =~= old(out)@ + ser_seq(v@.take(i as int + 1), kf_float_ser_fn()));
        }
        i += 1;
    }
    proof {
        assert(v@.take(v@.len() as int) =~= v@);
    }
}

/// The element parser of `i16`, as a function value.
pub open spec fn i16_elem_parser() -> spec_fn(Seq<u8>, int) -> Option<(i16, int)> {
    |b: Seq<u8>, pos: int| parse_i16_elem(b, pos)
}

/// The element serializer of `i16`, as a function value.
pub open spec fn i16_elem_ser_fn() -> spec_fn(i16) -> Seq<u8> {
    |x: i16| ser_i16_elem(x)
}

/// Decode `n` consecutive `i16` elements.
fn decode_i16_elem_list(b: &Vec<u8>, pos: usize, n: usize) -> (r: Option<(Vec<i16>, usize)>)
    requires
        pos <= b@.len(),
    ensures
        match r {
            Some(p) => parse_n(b@, pos as int, n as int, i16_elem_parser()) == Some(
                (p.0@, p.1 as int),
            ) && pos <= p.1 <= b@.len(),
            None => parse_n(b@, pos as int, n as int, i16_elem_parser()) is None,
        },
{
    let mut out: Vec<i16> = Vec::new();
    let mut i: usize = 0;
    let mut cur: usize = pos;
    while i < n
        invariant
            pos <= cur <= b@.len(),
            i <= n,
            parse_n(b@, pos as int, n as int, i16_elem_parser()) == (match parse_n(
                b@,
                cur as int,
                (n - i) as int,
                i16_elem_parser(),
            ) {
                Some(q) => Some((out@ + q.0, q.1)),
                None => None::<(Seq<i16>, int)>,
            }),
        decreases n - i,
    {
        proof {
            vstd::std_specs::vec::axiom_spec_len(b);
        }
        if b.len() < 2 || cur > b.len() - 2 {
            proof {
                assert(parse_i16_elem(b@, cur as int) is None);
            }
            return None;
        }
        let x = read_i16(b, cur);
        proof {
            assert(parse_i16_elem(b@, cur as int) == Some((x, cur as int + 2)));
            let f = i16_elem_parser();
            let prev = out@;
            match parse_n(b@, cur as int + 2, (n - i) as int - 1, f) {
                Some(q) => {
                    assert(prev + (seq![x] + q.0) =~= prev.push(x) + q.0);
                },
                None => {},
            }
        }
        out.push(x);
        cur += 2;
        i += 1;
    }
    proof {
        assert(out@ + Seq::<i16>::empty() =~= out@);
    }
    Some((out, cur))
}

/// Append `n` consecutive `i16` elements.
fn encode_i16_elem_list(out: &mut Vec<u8>, v: &Vec<i16>)
    ensures
        final(out)@ == old(out)@ + ser_seq(v@, i16_elem_ser_fn()),
{
    let mut i: usize = 0;
    proof {
        assert(ser_seq(v@.take(0), i16_elem_ser_fn()) == Seq::<u8>::empty());
        assert(out@ =~= old(out)@ + ser_seq(v@.take(0), i16_elem_ser_fn()));
    }
    while i < v.len()
        invariant
            i <= v@.len(),
            out@ == old(out)@ + ser_seq(v@.take(i as int), i16_elem_ser_fn()),
        decreases v@.len() - i,
    {
        let ghost pre = out@;
        let x = v[i];
        push_i16(out, x);
        proof {
            lemma_ser_seq_snoc(v@.take(i as int), v@[i as int], i16_elem_ser_fn());
            assert(v@.take(i as int + 1) =~= v@.take(i as int).push(v@[i as int]));
            assert(out@ =~= old(out)@ + ser_seq(v@.take(i as int + 1), i16_elem_ser_fn()));
        }
        i += 1;
    }
    proof {
        assert(v@.take(v@.len() as int) =~= v@);
    }
}

/// The element parser of `Vector3Short`, as a function value.
pub open spec fn vector3_short_parser() -> spec_fn(Seq<u8>, int) -> Option<(Vector3Short, int)> {
    |b: Seq<u8>, pos: int| parse_vector3_short(b, pos)
}

/// The element serializer of `Vector3Short`, as a function value.
pub open spec fn vector3_short_ser_fn() -> spec_fn(Vector3Short) -> Seq<u8> {
    |x: Vector3Short| ser_vector3_short(x)
}

/// Decode `n` consecutive `Vector3Short` elements.
fn decode_vector3_short_list(b: &Vec<u8>, pos: usize, n: usize) -> (r: Option<(Vec<Vector3Short>, usize)>)
    requires
        pos <= b@.len(),
    ensures
        match r {
            Some(p) => parse_n(b@, pos as int, n as int, vector3_short_parser()) == Some(
                (p.0@, p.1 as int),
            ) && pos <= p.1 <= b@.len(),
            None => parse_n(b@, pos as int, n as int, vector3_short_parser()) is None,
        },
{
    let mut out: Vec<Vector3Short> = Vec::new();
    let mut i: usize = 0;
    let mut cur: usize = pos;
    while i < n
        invariant
            pos <= cur <= b@.len(),
            i <= n,
            parse_n(b@, pos as int, n as int, vector3_short_parser()) == (match parse_n(
                b@,
                cur as int,
                (n - i) as int,
                vector3_short_parser(),
            ) {
                Some(q) => Some((out@ + q.0, q.1)),
                None => None::<(Seq<Vector3Short>, int)>,
            }),
        decreases n - i,
    {
        proof {
            vstd::std_specs::vec::axiom_spec_len(b);
        }
        if b.len() < 6 || cur > b.len() - 6 {
            proof {
                assert(parse_vector3_short(b@, cur as int) is None);
            }
            return None;
        }
        let x = Vector3Short { x: read_i16(b, cur), y: read_i16(b, cur + 2), z: read_i16(b, cur + 4) };
        proof {
            assert(parse_vector3_short(b@, cur as int) == Some((x, cur as int + 6)));
            let f = vector3_short_parser();
            let prev = out@;
            match parse_n(b@, cur as int + 6, (n - i) as int - 1, f) {
                Some(q) => {
                    assert(prev + (seq![x] + q.0) =~= prev.push(x) + q.0);
                },
                None => {},
            }
        }
        out.push(x);
        cur += 6;
        i += 1;
    }
    proof {
        assert(out@ + Seq::<Vector3Short>::empty() =~= out@);
    }
    Some((out, cur))
}

/// Append `n` consecutive `Vector3Short` elements.
fn encode_vector3_short_list(out: &mut Vec<u8>, v: &Vec<Vector3Short>)
    ensures
        final(out)@ == old(out)@ + ser_seq(v@, vector3_short_ser_fn()),
{
    let mut i: usize = 0;
    proof {
        assert(ser_seq(v@.take(0), vector3_short_ser_fn()) == Seq::<u8>::empty());
        assert(out@ =~= old(out)@ + ser_seq(v@.take(0), vector3_short_ser_fn()));
    }
    while i < v.len()
        invariant
            i <= v@.len(),
            out@ == old(out)@ + ser_seq(v@.take(i as int), vector3_short_ser_fn()),
        decreases v@.len() - i,
    {
        let ghost pre = out@;
        let x = v[i];
        push_i16(out, x.x);
        push_i16(out, x.y);
        push_i16(out, x.z);
        proof {
            lemma_ser_seq_snoc(v@.take(i as int), v@[i as int], vector3_short_ser_fn());
            assert(v@.take(i as int + 1) =~= v@.take(i as int).push(v@[i as int]));
            assert(out@ =~= old(out)@ + ser_seq(v@.take(i as int + 1), vector3_short_ser_fn()));
        }
        i += 1;
    }
    proof {
        assert(v@.take(v@.len() as int) =~= v@);
    }
}

/// The element parser of `QuaternionShort`, as a function value.
pub open spec fn quaternion_short_parser() -> spec_fn(Seq<u8>, int) -> Option<(QuaternionShort, int)> {
    |b: Seq<u8>, pos: int| parse_quaternion_short(b, pos)
}

/// The element serializer of `QuaternionShort`, as a function value.
pub open spec fn quaternion_short_ser_fn() -> spec_fn(QuaternionShort) -> Seq<u8> {
    |x: QuaternionShort| ser_quaternion_short(x)
}

/// Decode `n` consecutive `QuaternionShort` elements.
fn decode_quaternion_short_list(b: &Vec<u8>, pos: usize, n: usize) -> (r: Option<(Vec<QuaternionShort>, usize)>)
    requires
        pos <= b@.len(),
    ensures
        match r {
            Some(p) => parse_n(b@, pos as int, n as int, quaternion_short_parser()) == Some(
                (p.0@, p.1 as int),
            ) && pos <= p.1 <= b@.len(),
            None => parse_n(b@, pos as int, n as int, quaternion_short_parser()) is None,
        },
{
    let mut out: Vec<QuaternionShort> = Vec::new();
    let mut i: usize = 0;
    let mut cur: usize = pos;
    while i < n
        invariant
            pos <= cur <= b@.len(),
            i <= n,
            parse_n(b@, pos as int, n as int, quaternion_short_parser()) == (match parse_n(
                b@,
                cur as int,
                (n - i) as int,
                quaternion_short_parser(),
            ) {
                Some(q) => Some((out@ + q.0, q.1)),
                None => None::<(Seq<QuaternionShort>, int)>,
            }),
        decreases n - i,
    {
        proof {
            vstd::std_specs::vec::axiom_spec_len(b);
        }
        if b.len() < 8 || cur > b.len() - 8 {
            proof {
                assert(parse_quaternion_short(b@, cur as int) is None);
            }
            return None;
        }
        let x = QuaternionShort {
            x: read_i16(b, cur),
            y: read_i16(b, cur + 2),
            z: read_i16(b, cur + 4),
            w: read_i16(b, cur + 6),
        };
        proof {
            assert(parse_quaternion_short(b@, cur as int) == Some((x, cur as int + 8)));
            let f = quaternion_short_parser();
            let prev = out@;
            match parse_n(b@, cur as int + 8, (n - i) as int - 1, f) {
                Some(q) => {
                    assert(prev + (seq![x] + q.0) =~= prev.push(x) + q.0);
                },
                None => {},
            }
        }
        out.push(x);
        cur += 8;
        i += 1;
    }
    proof {
        assert(out@ + Seq::<QuaternionShort>::empty() =~= out@);
    }
    Some((out, cur))
}

/// Append `n` consecutive `QuaternionShort` elements.
fn encode_quaternion_short_list(out: &mut Vec<u8>, v: &Vec<QuaternionShort>)
    ensures
        final(out)@ == old(out)@ + ser_seq(v@, quaternion_short_ser_fn()),
{
    let mut i: usize = 0;
    proof {
        assert(ser_seq(v@.take(0), quaternion_short_ser_fn()) == Seq::<u8>::empty());
        assert(out@ =~= old(out)@ + ser_seq(v@.take(0), quaternion_short_ser_fn()));
    }
    while i < v.len()
        invariant
            i <= v@.len(),
            out@ == old(out)@ + ser_seq(v@.take(i as int), quaternion_short_ser_fn()),
        decreases v@.len() - i,
    {
        let ghost pre = out@;
        let x = v[i];
        push_i16(out, x.x);
        push_i16(out, x.y);
        push_i16(out, x.z);
        push_i16(out, x.w);
        proof {
            lemma_ser_seq_snoc(v@.take(i as int), v@[i as int], quaternion_short_ser_fn());
            assert(v@.take(i as int + 1) =~= v@.take(i as int).push(v@[i as int]));
            assert(out@ =~= old(out)@ + ser_seq(v@.take(i as int + 1), quaternion_short_ser_fn()));
        }
        i += 1;
    }
    proof {
        assert(v@.take(v@.len() as int) =~= v@);
    }
}

/// The element parser of `RGB`, as a function value.
pub open spec fn rgb_parser() -> spec_fn(Seq<u8>, int) -> Option<(RGB, int)> {
    |b: Seq<u8>, pos: int| parse_rgb(b, pos)
}

/// The element serializer of `RGB`, as a function value.
pub open spec fn rgb_ser_fn() -> spec_fn(RGB) -> Seq<u8> {
    |x: RGB| ser_rgb(x)
}

/// Decode `n` consecutive `RGB` elements.
fn decode_rgb_list(b: &Vec<u8>, pos: usize, n: usize) -> (r: Option<(Vec<RGB>, usize)>)
    requires
        pos <= b@.len(),
    ensures
        match r {
            Some(p) => parse_n(b@, pos as int, n as int, rgb_parser()) == Some(
                (p.0@, p.1 as int),
            ) && pos <= p.1 <= b@.len(),
            None => parse_n(b@, pos as int, n as int, rgb_parser()) is None,
        },
{
    let mut out: Vec<RGB> = Vec::new();
    let mut i: usize = 0;
    let mut cur: usize = pos;
    while i < n
        invariant
            pos <= cur <= b@.len(),
            i <= n,
            parse_n(b@, pos as int, n as int, rgb_parser()) == (match parse_n(
                b@,
                cur as int,
                (n - i) as int,
                rgb_parser(),
            ) {
                Some(q) => Some((out@ + q.0, q.1)),
                None => None::<(Seq<RGB>, int)>,
            }),
        decreases n - i,
    {
        proof {
            vstd::std_specs::vec::axiom_spec_len(b);
        }
        if b.len() < 3 || cur > b.len() - 3 {
            proof {
                assert(parse_rgb(b@, cur as int) is None);
            }
            return None;
        }
        let x = RGB { r: read_u8(b, cur), g: read_u8(b, cur + 1), b: read_u8(b, cur + 2) };
        proof {
            assert(parse_rgb(b@, cur as int) == Some((x, cur as int + 3)));
            let f = rgb_parser();
            let prev = out@;
            match parse_n(b@, cur as int + 3, (n - i) as int - 1, f) {
                Some(q) => {
                    assert(prev + (seq![x] + q.0) =~= prev.push(x) + q.0);
                },
                None => {},
            }
        }
        out.push(x);
        cur += 3;
        i += 1;
    }
    proof {
        assert(out@ + Seq::<RGB>::empty() =~= out@);
    }
    Some((out, cur))
}

/// Append `n` consecutive `RGB` elements.
fn encode_rgb_list(out: &mut Vec<u8>, v: &Vec<RGB>)
    ensures
        final(out)@ == old(out)@ + ser_seq(v@, rgb_ser_fn()),
{
    let mut i: usize = 0;
    proof {
        assert(ser_seq(v@.take(0), rgb_ser_fn()) == Seq::<u8>::empty());
        assert(out@ =~= old(out)@ + ser_seq(v@.take(0), rgb_ser_fn()));
    }
    while i < v.len()
        invariant
            i <= v@.len(),
            out@ == old(out)@ + ser_seq(v@.take(i as int), rgb_ser_fn()),
        decreases v@.len() - i,
    {
        let ghost pre = out@;
        let x = v[i];
        push_u8(out, x.r);
        push_u8(out, x.g);
        push_u8(out, x.b);
        proof {
            lemma_ser_seq_snoc(v@.take(i as int), v@[i as int], rgb_ser_fn());
            assert(v@.take(i as int + 1) =~= v@.take(i as int).push(v@[i as int]));
            assert(out@ =~= old(out)@ + ser_seq(v@.take(i as int + 1), rgb_ser_fn()));
        }
        i += 1;
    }
    proof {
        assert(v@.take(v@.len() as int) =~= v@);
    }
}

/// The element parser of `CoordParent`, as a function value.
pub open spec fn coord_parent_parser() -> spec_fn(Seq<u8>, int) -> Option<(CoordParent, int)> {
    |b: Seq<u8>, pos: int| parse_coord_parent(b, pos)
}

/// The element serializer of `CoordParent`, as a function value.
pub open spec fn coord_parent_ser_fn() -> spec_fn(CoordParent) -> Seq<u8> {
    |x: CoordParent| ser_coord_parent(x)
}

/// Decode `n` consecutive `CoordParent` elements.
pub(crate) fn decode_coord_parent_list(b: &Vec<u8>, pos: usize, n: usize) -> (r: Option<(Vec<CoordParent>, usize)>)
    requires
        pos <= b@.len(),
    ensures
        match r {
            Some(p) => parse_n(b@, pos as int, n as int, coord_parent_parser()) == Some(
                (p.0@, p.1 as int),
            ) && pos <= p.1 <= b@.len(),
            None => parse_n(b@, pos as int, n as int, coord_parent_parser()) is None,
        },
{
    let mut out: Vec<CoordParent> = Vec::new();
    let mut i: usize = 0;
    let mut cur: usize = pos;
    while i < n
        invariant
            pos <= cur <= b@.len(),
            i <= n,
            parse_n(b@, pos as int, n as int, coord_parent_parser()) == (match parse_n(
                b@,
                cur as int,
                (n - i) as int,
                coord_parent_parser(),
            ) {
                Some(q) => Some((out@ + q.0, q.1)),
                None => None::<(Seq<CoordParent>, int)>,
            }),
        decreases n - i,
    {
        proof {
            vstd::std_specs::vec::axiom_spec_len(b);
        }
        if b.len() < 8 || cur > b.len() - 8 {
            proof {
                assert(parse_coord_parent(b@, cur as int) is None);
            }
            return None;
        }
        let x = CoordParent {
            parent: AnmCoord { clump_index: read_i16(b, cur), coord_index: read_u16(b, cur + 2) },
            child: AnmCoord { clump_index: read_i16(b, cur + 4), coord_index: read_u16(b, cur + 6) },
        };
        proof {
            assert(parse_coord_parent(b@, cur as int) == Some((x, cur as int + 8)));
            let f = coord_parent_parser();
            let prev = out@;
            match parse_n(b@, cur as int + 8, (n - i) as int - 1, f) {
                Some(q) => {
                    assert(prev + (seq![x] + q.0) =~= prev.push(x) + q.0);
                },
                None => {},
            }
        }
        out.push(x);
        cur += 8;
        i += 1;
    }
    proof {
        assert(out@ + Seq::<CoordParent>::empty() =~= out@);
    }
    Some((out, cur))
}

/// Append `n` consecutive `CoordParent` elements.
pub(crate) fn encode_coord_parent_list(out: &mut Vec<u8>, v: &Vec<CoordParent>)
    ensures
        final(out)@ == old(out)@ + ser_seq(v@, coord_parent_ser_fn()),
{
    let mut i: usize = 0;
    proof {
        assert(ser_seq(v@.take(0), coord_parent_ser_fn()) == Seq::<u8>::empty());
        assert(out@ =~= old(out)@ + ser_seq(v@.take(0), coord_parent_ser_fn()));
    }
    while i < v.len()
        invariant
            i <= v@.len(),
            out@ == old(out)@ + ser_seq(v@.take(i as int), coord_parent_ser_fn()),
        decreases v@.len() - i,
    {
        let ghost pre = out@;
        let x = v[i];
        push_i16(out, x.parent.clump_index);
        push_u16(out, x.parent.coord_index);
        push_i16(out, x.child.clump_index);
        push_u16(out, x.child.coord_index);
        proof {
            lemma_ser_seq_snoc(v@.take(i as int), v@[i as int], coord_parent_ser_fn());
            assert(v@.take(i as int + 1) =~= v@.take(i as int).push(v@[i as int]));
            assert(out@ =~= old(out)@ + ser_seq(v@.take(i as int + 1), coord_parent_ser_fn()));
        }
        i += 1;
    }
    proof {
        assert(v@.take(v@.len() as int) =~= v@);
    }
}

/// The element parser of `CurveHeader`, as a function value.
pub open spec fn curve_header_parser() -> spec_fn(Seq<u8>, int) -> Option<(CurveHeader, int)> {
    |b: Seq<u8>, pos: int| parse_curve_header(b, pos)
}

/// The element serializer of `CurveHeader`, as a function value.
pub open spec fn curve_header_ser_fn() -> spec_fn(CurveHeader) -> Seq<u8> {
    |x: CurveHeader| ser_curve_header(x)
}

/// Decode `n` consecutive `CurveHeader` elements.
fn decode_curve_header_list(b: &Vec<u8>, pos: usize, n: usize) -> (r: Option<(Vec<CurveHeader>, usize)>)
    requires
        pos <= b@.len(),
    ensures
        match r {
            Some(p) => parse_n(b@, pos as int, n as int, curve_header_parser()) == Some(
                (p.0@, p.1 as int),
            ) && pos <= p.1 <= b@.len(),
            None => parse_n(b@, pos as int, n as int, curve_header_parser()) is None,
        },
{
    let mut out: Vec<CurveHeader> = Vec::new();
    let mut i: usize = 0;
    let mut cur: usize = pos;
    while i < n
        invariant
            pos <= cur <= b@.len(),
            i <= n,
            parse_n(b@, pos as int, n as int, curve_header_parser()) == (match parse_n(
                b@,
                cur as int,
                (n - i) as int,
                curve_header_parser(),
            ) {
                Some(q) => Some((out@ + q.0, q.1)),
                None => None::<(Seq<CurveHeader>, int)>,
            }),
        decreases n - i,
    {
        proof {
            vstd::std_specs::vec::axiom_spec_len(b);
        }
        if b.len() < 8 || cur > b.len() - 8 {
            proof {
                assert(parse_curve_header(b@, cur as int) is None);
            }
            return None;
        }
        let x = CurveHeader {
            curve_index: read_u16(b, cur),
            curve_format: read_u16(b, cur + 2),
            frame_count: read_u16(b, cur + 4),
            curve_size: read_u16(b, cur + 6),
        };
        proof {
            assert(parse_curve_header(b@, cur as int) == Some((x, cur as int + 8)));
            let f = curve_header_parser();
            let prev = out@;
            match parse_n(b@, cur as int + 8, (n - i) as int - 1, f) {
                Some(q) => {
                    assert(prev + (seq![x] + q.0) =~= prev.push(x) + q.0);
                },
                None => {},
            }
        }
        out.push(x);
        cur += 8;
        i += 1;
    }
    proof {
        assert(out@ + Seq::<CurveHeader>::empty() =~= out@);
    }
    Some((out, cur))
}

/// Append `n` consecutive `CurveHeader` elements.
fn encode_curve_header_list(out: &mut Vec<u8>, v: &Vec<CurveHeader>)
    ensures
        final(out)@ == old(out)@ + ser_seq(v@, curve_header_ser_fn()),
{
    let mut i: usize = 0;
    proof {
        assert(ser_seq(v@.take(0), curve_header_ser_fn()) == Seq::<u8>::empty());
        assert(out@ =~= old(out)@ + ser_seq(v@.take(0), curve_header_ser_fn()));
    }
    while i < v.len()
        invariant
            i <= v@.len(),
            out@ == old(out)@ + ser_seq(v@.take(i as int), curve_header_ser_fn()),
        decreases v@.len() - i,
    {
        let ghost pre = out@;
        let x = v[i];
        push_u16(out, x.curve_index);
        push_u16(out, x.curve_format);
        push_u16(out, x.frame_count);
        push_u16(out, x.curve_size);
        proof {
            lemma_ser_seq_snoc(v@.take(i as int), v@[i as int], curve_header_ser_fn());
            assert(v@.take(i as int + 1) =~= v@.take(i as int).push(v@[i as int]));
            assert(out@ =~= old(out)@ + ser_seq(v@.take(i as int + 1), curve_header_ser_fn()));
        }
        i += 1;
    }
    proof {
        assert(v@.take(v@.len() as int) =~= v@);
    }
}

/// Parsing a serialized KeyframeVector3 element from a buffer that holds it.
pub proof fn lemma_parse_ser_kf_vector3(b: Seq<u8>, pos: int, x: KeyframeVector3)
    requires
        0 <= pos,
        pos + 16 <= b.len(),
        b.subrange(pos, pos + 16) == ser_kf_vector3(x),
    ensures
        parse_kf_vector3(b, pos) == Some((x, pos + 16)),
{
    lemma_subrange_concat(b, pos, ser_i32(x.frame), ser_vector3(x.value));
    lemma_parse_ser_i32(b, pos, x.frame);
    lemma_parse_ser_vector3(b, pos + 4, x.value);
}

/// Parsing a serialized KeyframeVector4 element from a buffer that holds it.
pub proof fn lemma_parse_ser_kf_vector4(b: Seq<u8>, pos: int, x: KeyframeVector4)
    requires
        0 <= pos,
        pos + 20 <= b.len(),
        b.subrange(pos, pos + 20) == ser_kf_vector4(x),
    ensures
        parse_kf_vector4(b, pos) == Some((x, pos + 20)),
{
    lemma_subrange_concat(b, pos, ser_i32(x.frame), ser_vector4(x.value));
    lemma_parse_ser_i32(b, pos, x.frame);
    lemma_parse_ser_vector4(b, pos + 4, x.value);
}

/// Every `u32` element is admitted.
pub open spec fn u32_elem_ok() -> spec_fn(u32) -> bool {
    |x: u32| true
}

/// On every buffer, the `u32` element parser inverts its serializer.
pub proof fn lemma_hyp_u32_elem(b: Seq<u8>)
    ensures
        list_hyp(b, u32_elem_ser_fn(), u32_elem_parser(), u32_elem_ok()),
{
    assert forall|x: u32, q: int|
        u32_elem_ok()(x) && 0 <= q && q + u32_elem_ser_fn()(x).len() <= b.len() && #[trigger] b.subrange(
            q,
            q + u32_elem_ser_fn()(x).len() as int,
        ) == u32_elem_ser_fn()(x) implies u32_elem_parser()(b, q) == Some(
        (x, q + u32_elem_ser_fn()(x).len() as int),
    ) by {
        lemma_parse_ser_u32_elem(b, q, x);
    }
}

/// Every `Vector3` element is admitted.
pub open spec fn vector3_ok() -> spec_fn(Vector3) -> bool {
    |x: Vector3| true
}

/// On every buffer, the `Vector3` element parser inverts its serializer.
pub proof fn lemma_hyp_vector3(b: Seq<u8>)
    ensures
        list_hyp(b, vector3_ser_fn(), vector3_parser(), vector3_ok()),
{
    assert forall|x: Vector3, q: int|
        vector3_ok()(x) && 0 <= q && q + vector3_ser_fn()(x).len() <= b.len() && #[trigger] b.subrange(
            q,
            q + vector3_ser_fn()(x).len() as int,
        ) == vector3_ser_fn()(x) implies vector3_parser()(b, q) == Some(
        (x, q + vector3_ser_fn()(x).len() as int),
    ) by {
        lemma_parse_ser_vector3(b, q, x);
    }
}

/// Every `KeyframeVector3` element is admitted.
pub open spec fn kf_vector3_ok() -> spec_fn(KeyframeVector3) -> bool {
    |x: KeyframeVector3| true
}

/// On every buffer, the `KeyframeVector3` element parser inverts its serializer.
pub proof fn lemma_hyp_kf_vector3(b: Seq<u8>)
    ensures
        list_hyp(b, kf_vector3_ser_fn(), kf_vector3_parser(), kf_vector3_ok()),
{
    assert forall|x: KeyframeVector3, q: int|
        kf_vector3_ok()(x) && 0 <= q && q + kf_vector3_ser_fn()(x).len() <= b.len() && #[trigger] b.subrange(
            q,
            q + kf_vector3_ser_fn()(x).len() as int,
        ) == kf_vector3_ser_fn()(x) implies kf_vector3_parser()(b, q) == Some(
        (x, q + kf_vector3_ser_fn()(x).len() as int),
    ) by {
        lemma_parse_ser_kf_vector3(b, q, x);
    }
}

/// Every `KeyframeVector4` element is admitted.
pub open spec fn kf_vector4_ok() -> spec_fn(KeyframeVector4) -> bool {
    |x: KeyframeVector4| true
}

/// On every buffer, the `KeyframeVector4` element parser inverts its serializer.
pub proof fn lemma_hyp_kf_vector4(b: Seq<u8>)
    ensures
        list_hyp(b, kf_vector4_ser_fn(), kf_vector4_parser(), kf_vector4_ok()),
{
    assert forall|x: KeyframeVector4, q: int|
        kf_vector4_ok()(x) && 0 <= q && q + kf_vector4_ser_fn()(x).len() <= b.len() && #[trigger] b.subrange(
            q,
            q + kf_vector4_ser_fn()(x).len() as int,
        ) == kf_vector4_ser_fn()(x) implies kf_vector4_parser()(b, q) == Some(
        (x, q + kf_vector4_ser_fn()(x).len() as int),
    ) by {
        lemma_parse_ser_kf_vector4(b, q, x);
    }
}

/// Every `KeyframeFloat` element is admitted.
pub open spec fn kf_float_ok() -> spec_fn(KeyframeFloat) -> bool {
    |x: KeyframeFloat| true
}

/// On every buffer, the `KeyframeFloat` element parser inverts its serializer.
pub proof fn lemma_hyp_kf_float(b: Seq<u8>)
    ensures
        list_hyp(b, kf_float_ser_fn(), kf_float_parser(), kf_float_ok()),
{
    assert forall|x: KeyframeFloat, q: int|
        kf_float_ok()(x) && 0 <= q && q + kf_float_ser_fn()(x).len() <= b.len() && #[trigger] b.subrange(
            q,
            q + kf_float_ser_fn()(x).len() as int,
        ) == kf_float_ser_fn()(x) implies kf_float_parser()(b, q) == Some(
        (x, q + kf_float_ser_fn()(x).len() as int),
    ) by {
        lemma_parse_ser_kf_float(b, q, x);
    }
}

/// Every `i16` element is admitted.
pub open spec fn i16_elem_ok() -> spec_fn(i16) -> bool {
    |x: i16| true
}

/// On every buffer, the `i16` element parser inverts its serializer.
pub proof fn lemma_hyp_i16_elem(b: Seq<u8>)
    ensures
        list_hyp(b, i16_elem_ser_fn(), i16_elem_parser(), i16_elem_ok()),
{
    assert forall|x: i16, q: int|
        i16_elem_ok()(x) && 0 <= q && q + i16_elem_ser_fn()(x).len() <= b.len() && #[trigger] b.subrange(
            q,
            q + i16_elem_ser_fn()(x).len() as int,
        ) == i16_elem_ser_fn()(x) implies i16_elem_parser()(b, q) == Some(
        (x, q + i16_elem_ser_fn()(x).len() as int),
    ) by {
        lemma_parse_ser_i16_elem(b, q, x);
    }
}

/// Every `Vector3Short` element is admitted.
pub open spec fn vector3_short_ok() -> spec_fn(Vector3Short) -> bool {
    |x: Vector3Short| true
}

/// On every buffer, the `Vector3Short` element parser inverts its serializer.
pub proof fn lemma_hyp_vector3_short(b: Seq<u8>)
    ensures
        list_hyp(b, vector3_short_ser_fn(), vector3_short_parser(), vector3_short_ok()),
{
    assert forall|x: Vector3Short, q: int|
        vector3_short_ok()(x) && 0 <= q && q + vector3_short_ser_fn()(x).len() <= b.len() && #[trigger] b.subrange(
            q,
            q + vector3_short_ser_fn()(x).len() as int,
        ) == vector3_short_ser_fn()(x) implies vector3_short_parser()(b, q) == Some(
        (x, q + vector3_short_ser_fn()(x).len() as int),
    ) by {
        lemma_parse_ser_vector3_short(b, q, x);
    }
}

/// Every `QuaternionShort` element is admitted.
pub open spec fn quaternion_short_ok() -> spec_fn(QuaternionShort) -> bool {
    |x: QuaternionShort| true
}

/// On every buffer, the `QuaternionShort` element parser inverts its serializer.
pub proof fn lemma_hyp_quaternion_short(b: Seq<u8>)
    ensures
        list_hyp(b, quaternion_short_ser_fn(), quaternion_short_parser(), quaternion_short_ok()),
{
    assert forall|x: QuaternionShort, q: int|
        quaternion_short_ok()(x) && 0 <= q && q + quaternion_short_ser_fn()(x).len() <= b.len() && #[trigger] b.subrange(
            q,
            q + quaternion_short_ser_fn()(x).len() as int,
        ) == quaternion_short_ser_fn()(x) implies quaternion_short_parser()(b, q) == Some(
        (x, q + quaternion_short_ser_fn()(x).len() as int),
    ) by {
        lemma_parse_ser_quaternion_short(b, q, x);
    }
}

/// Every `RGB` element is admitted.
pub open spec fn rgb_ok() -> spec_fn(RGB) -> bool {
    |x: RGB| true
}

/// On every buffer, the `RGB` element parser inverts its serializer.
pub proof fn lemma_hyp_rgb(b: Seq<u8>)
    ensures
        list_hyp(b, rgb_ser_fn(), rgb_parser(), rgb_ok()),
{
    assert forall|x: RGB, q: int|
        rgb_ok()(x) && 0 <= q && q + rgb_ser_fn()(x).len() <= b.len() && #[trigger] b.subrange(
            q,
            q + rgb_ser_fn()(x).len() as int,
        ) == rgb_ser_fn()(x) implies rgb_parser()(b, q) == Some(
        (x, q + rgb_ser_fn()(x).len() as int),
    ) by {
        lemma_parse_ser_rgb(b, q, x);
    }
}

/// Every `CoordParent` element is admitted.
pub open spec fn coord_parent_ok() -> spec_fn(CoordParent) -> bool {
    |x: CoordParent| true
}

/// On every buffer, the `CoordParent` element parser inverts its serializer.
pub proof fn lemma_hyp_coord_parent(b: Seq<u8>)
    ensures
        list_hyp(b, coord_parent_ser_fn(), coord_parent_parser(), coord_parent_ok()),
{
    assert forall|x: CoordParent, q: int|
        coord_parent_ok()(x) && 0 <= q && q + coord_parent_ser_fn()(x).len() <= b.len() && #[trigger] b.subrange(
            q,
            q + coord_parent_ser_fn()(x).len() as int,
        ) == coord_parent_ser_fn()(x) implies coord_parent_parser()(b, q) == Some(
        (x, q + coord_parent_ser_fn()(x).len() as int),
    ) by {
        lemma_parse_ser_coord_parent(b, q, x);
    }
}

/// Every `CurveHeader` element is admitted.
pub open spec fn curve_header_ok() -> spec_fn(CurveHeader) -> bool {
    |x: CurveHeader| true
}

/// On every buffer, the `CurveHeader` element parser inverts its serializer.
pub proof fn lemma_hyp_curve_header(b: Seq<u8>)
    ensures
        list_hyp(b, curve_header_ser_fn(), curve_header_parser(), curve_header_ok()),
{
    assert forall|x: CurveHeader, q: int|
        curve_header_ok()(x) && 0 <= q && q + curve_header_ser_fn()(x).len() <= b.len() && #[trigger] b.subrange(
            q,
            q + curve_header_ser_fn()(x).len() as int,
        ) == curve_header_ser_fn()(x) implies curve_header_parser()(b, q) == Some(
        (x, q + curve_header_ser_fn()(x).len() as int),
    ) by {
        lemma_parse_ser_curve_header(b, q, x);
    }
}

/// Wire bytes of one curve payload: the elements in order, followed by
/// the shape's trailing padding (a 2-byte pad word after an odd count of
/// signed-16 records, and `count % 4` pad bytes after byte-RGB records).
/// An unrecognized payload is its raw bytes.
pub open spec fn ser_curve(c: CurveView) -> Seq<u8> {
    match c {
        CurveView::Vector3(v) => ser_seq(v, vector3_ser_fn()),
        CurveView::KeyframeVector3(v) => ser_seq(v, kf_vector3_ser_fn()),
        CurveView::KeyframeVector4(v) => ser_seq(v, kf_vector4_ser_fn()),
        CurveView::Float(v) => ser_seq(v, u32_elem_ser_fn()),
        CurveView::KeyframeFloat(v) => ser_seq(v, kf_float_ser_fn()),
        CurveView::Short(v) => ser_seq(v, i16_elem_ser_fn()) + (if v.len() % 2 == 1 {
            seq![0u8, 0u8]
        } else {
            Seq::empty()
        }),
        CurveView::Vector3Short(v) => ser_seq(v, vector3_short_ser_fn()) + (if v.len() % 2 == 1 {
            seq![0u8, 0u8]
        } else {
            Seq::empty()
        }),
        CurveView::QuaternionShort(v) => ser_seq(v, quaternion_short_ser_fn()),
        CurveView::RGB(v) => ser_seq(v, rgb_ser_fn()) + Seq::new((v.len() % 4) as nat, |i: int| 0u8),
        CurveView::Unknown(v) => v,
    }
}

/// Skip `k` pad bytes whose content the reader ignores.
pub open spec fn skip_pad(b: Seq<u8>, p: int, k: int) -> Option<int> {
    if p + k <= b.len() {
        Some(p + k)
    } else {
        None
    }
}

/// The curve payload starting at `pos`, its shape and element count
/// selected by the paired header; an unknown format code fails.
pub open spec fn parse_curve(b: Seq<u8>, pos: int, h: CurveHeader) -> Option<(CurveView, int)> {
    let n = h.frame_count as int;
    if h.curve_format == 0x05 || h.curve_format == 0x08 || h.curve_format == 0x15 {
        match parse_n(b, pos, n, vector3_parser()) {
            Some((v, p)) => Some((CurveView::Vector3(v), p)),
            None => None,
        }
    } else if h.curve_format == 0x06 {
        match parse_n(b, pos, n, kf_vector3_parser()) {
            Some((v, p)) => Some((CurveView::KeyframeVector3(v), p)),
            None => None,
        }
    } else if h.curve_format == 0x0A {
        match parse_n(b, pos, n, kf_vector4_parser()) {
            Some((v, p)) => Some((CurveView::KeyframeVector4(v), p)),
            None => None,
        }
    } else if h.curve_format == 0x0B || h.curve_format == 0x16 || h.curve_format == 0x18 {
        match parse_n(b, pos, n, u32_elem_parser()) {
            Some((v, p)) => Some((CurveView::Float(v), p)),
            None => None,
        }
    } else if h.curve_format == 0x0C {
        match parse_n(b, pos, n, kf_float_parser()) {
            Some((v, p)) => Some((CurveView::KeyframeFloat(v), p)),
            None => None,
        }
    } else if h.curve_format == 0x0F {
        match parse_n(b, pos, n, i16_elem_parser()) {
            Some((v, p)) => match skip_pad(b, p, if n % 2 == 1 { 2int } else { 0int }) {
                Some(p2) => Some((CurveView::Short(v), p2)),
                None => None,
            },
            None => None,
        }
    } else if h.curve_format == 0x10 {
        match parse_n(b, pos, n, vector3_short_parser()) {
            Some((v, p)) => match skip_pad(b, p, if n % 2 == 1 { 2int } else { 0int }) {
                Some(p2) => Some((CurveView::Vector3Short(v), p2)),
                None => None,
            },
            None => None,
        }
    } else if h.curve_format == 0x11 {
        match parse_n(b, pos, n, quaternion_short_parser()) {
            Some((v, p)) => Some((CurveView::QuaternionShort(v), p)),
            None => None,
        }
    } else if h.curve_format == 0x14 {
        match parse_n(b, pos, n, rgb_parser()) {
            Some((v, p)) => match skip_pad(b, p, n % 4) {
                Some(p2) => Some((CurveView::RGB(v), p2)),
                None => None,
            },
            None => None,
        }
    } else {
        None
    }
}

/// A header and a curve payload are consistently paired: the header's
/// element count is the payload's length and its format code selects the
/// payload's shape. An unrecognized payload is never well-formed: the
/// writer never produces one.
pub open spec fn wf_curve(h: CurveHeader, c: CurveView) -> bool {
    &&& h.frame_count == c.len()
    &&& match c {
        CurveView::Vector3(_) => h.curve_format == 0x05 || h.curve_format == 0x08
            || h.curve_format == 0x15,
        CurveView::KeyframeVector3(_) => h.curve_format == 0x06,
        CurveView::KeyframeVector4(_) => h.curve_format == 0x0A,
        CurveView::Float(_) => h.curve_format == 0x0B || h.curve_format == 0x16
            || h.curve_format == 0x18,
        CurveView::KeyframeFloat(_) => h.curve_format == 0x0C,
        CurveView::Short(_) => h.curve_format == 0x0F,
        CurveView::Vector3Short(_) => h.curve_format == 0x10,
        CurveView::QuaternionShort(_) => h.curve_format == 0x11,
        CurveView::RGB(_) => h.curve_format == 0x14,
        CurveView::Unknown(_) => false,
    }
}

/// Parsing a serialized curve back, under its consistent header.
pub proof fn lemma_parse_ser_curve(b: Seq<u8>, pos: int, h: CurveHeader, c: CurveView)
    requires
        0 <= pos,
        wf_curve(h, c),
        pos + ser_curve(c).len() <= b.len(),
        b.subrange(pos, pos + ser_curve(c).len() as int) == ser_curve(c),
    ensures
        parse_curve(b, pos, h) == Some((c, pos + ser_curve(c).len() as int)),
{
    match c {
        CurveView::Vector3(v) => {
            lemma_hyp_vector3(b);
            lemma_parse_n_ser_seq(b, pos, v, vector3_ser_fn(), vector3_parser(), vector3_ok());
        },
        CurveView::KeyframeVector3(v) => {
            lemma_hyp_kf_vector3(b);
            lemma_parse_n_ser_seq(
                b,
                pos,
                v,
                kf_vector3_ser_fn(),
                kf_vector3_parser(),
                kf_vector3_ok(),
            );
        },
        CurveView::KeyframeVector4(v) => {
            lemma_hyp_kf_vector4(b);
            lemma_parse_n_ser_seq(
                b,
                pos,
                v,
                kf_vector4_ser_fn(),
                kf_vector4_parser(),
                kf_vector4_ok(),
            );
        },
        CurveView::Float(v) => {
            lemma_hyp_u32_elem(b);
            lemma_parse_n_ser_seq(b, pos, v, u32_elem_ser_fn(), u32_elem_parser(), u32_elem_ok());
        },
        CurveView::KeyframeFloat(v) => {
            lemma_hyp_kf_float(b);
            lemma_parse_n_ser_seq(b, pos, v, kf_float_ser_fn(), kf_float_parser(), kf_float_ok());
        },
        CurveView::Short(v) => {
            let pad: Seq<u8> = if v.len() % 2 == 1 {
                seq![0u8, 0u8]
            } else {
                Seq::empty()
            };
            lemma_subrange_concat(b, pos, ser_seq(v, i16_elem_ser_fn()), pad);
            lemma_hyp_i16_elem(b);
            lemma_parse_n_ser_seq(b, pos, v, i16_elem_ser_fn(), i16_elem_parser(), i16_elem_ok());
        },
        CurveView::Vector3Short(v) => {
            let pad: Seq<u8> = if v.len() % 2 == 1 {
                seq![0u8, 0u8]
            } else {
                Seq::empty()
            };
            lemma_subrange_concat(b, pos, ser_seq(v, vector3_short_ser_fn()), pad);
            lemma_hyp_vector3_short(b);
            lemma_parse_n_ser_seq(
                b,
                pos,
                v,
                vector3_short_ser_fn(),
                vector3_short_parser(),
                vector3_short_ok(),
            );
        },
        CurveView::QuaternionShort(v) => {
            lemma_hyp_quaternion_short(b);
            lemma_parse_n_ser_seq(
                b,
                pos,
                v,
                quaternion_short_ser_fn(),
                quaternion_short_parser(),
                quaternion_short_ok(),
            );
        },
        CurveView::RGB(v) => {
            let pad = Seq::new((v.len() % 4) as nat, |i: int| 0u8);
            lemma_subrange_concat(b, pos, ser_seq(v, rgb_ser_fn()), pad);
            lemma_hyp_rgb(b);
            lemma_parse_n_ser_seq(b, pos, v, rgb_ser_fn(), rgb_parser(), rgb_ok());
        },
        CurveView::Unknown(_) => {},
    }
}

/// Append `k` zero pad bytes (`k` at most 3).
fn push_zero_pad(out: &mut Vec<u8>, k: usize)
    requires
        k <= 3,
    ensures
        final(out)@ == old(out)@ + Seq::new(k as nat, |i: int| 0u8),
{
    let mut t: usize = 0;
    while t < k
        invariant
            t <= k,
            out@ == old(out)@ + Seq::new(t as nat, |i: int| 0u8),
        decreases k - t,
    {
        out.push(0);
        proof {
            assert(out@ =~= old(out)@ + Seq::new((t + 1) as nat, |i: int| 0u8));
        }
        t += 1;
    }
}

/// Append raw bytes unchanged.
fn push_raw(out: &mut Vec<u8>, v: &Vec<u8>)
    ensures
        final(out)@ == old(out)@ + v@,
{
    let mut t: usize = 0;
    while t < v.len()
        invariant
            t <= v@.len(),
            out@ == old(out)@ + v@.take(t as int),
        decreases v@.len() - t,
    {
        out.push(v[t]);
        proof {
            assert(out@ =~= old(out)@ + v@.take(t as int + 1));
        }
        t += 1;
    }
    proof {
        assert(v@.take(v@.len() as int) =~= v@);
    }
}

/// Append one curve payload: its elements, then the shape's zero
/// padding.
fn encode_curve(out: &mut Vec<u8>, c: &Curve)
    ensures
        final(out)@ == old(out)@ + ser_curve(c@),
{
    match c {
        Curve::Vector3(v) => {
            encode_vector3_list(out, v);
        },
        Curve::KeyframeVector3(v) => {
            encode_kf_vector3_list(out, v);
        },
        Curve::KeyframeVector4(v) => {
            encode_kf_vector4_list(out, v);
        },
        Curve::Float(v) => {
            encode_u32_elem_list(out, v);
        },
        Curve::KeyframeFloat(v) => {
            encode_kf_float_list(out, v);
        },
        Curve::Short(v) => {
            let ghost pre = out@;
            encode_i16_elem_list(out, v);
            if v.len() % 2 == 1 {
                push_zero_pad(out, 2);
                proof {
                    assert(Seq::new(2nat, |i: int| 0u8) =~= seq![0u8, 0u8]);
                    assert(out@ =~= pre + ser_curve(c@));
                }
            } else {
                proof {
                    assert(out@ =~= pre + ser_curve(c@));
                }
            }
        },
        Curve::Vector3Short(v) => {
            let ghost pre = out@;
            encode_vector3_short_list(out, v);
            if v.len() % 2 == 1 {
                push_zero_pad(out, 2);
                proof {
                    assert(Seq::new(2nat, |i: int| 0u8) =~= seq![0u8, 0u8]);
                    assert(out@ =~= pre + ser_curve(c@));
                }
            } else {
                proof {
                    assert(out@ =~= pre + ser_curve(c@));
                }
            }
        },
        Curve::QuaternionShort(v) => {
            encode_quaternion_short_list(out, v);
        },
        Curve::RGB(v) => {
            let ghost pre = out@;
            encode_rgb_list(out, v);
            push_zero_pad(out, v.len() % 4);
            proof {
                assert(out@ =~= pre + ser_curve(c@));
            }
        },
        Curve::Unknown(v) => {
            push_raw(out, v);
        },
    }
}

/// Decode one curve payload under its header.
fn decode_curve(b: &Vec<u8>, pos: usize, h: &CurveHeader) -> (r: Option<(Curve, usize)>)
    requires
        pos <= b@.len(),
    ensures
        match r {
            Some(p) => parse_curve(b@, pos as int, *h) == Some((p.0@, p.1 as int)) && pos <= p.1
                <= b@.len(),
            None => parse_curve(b@, pos as int, *h) is None,
        },
{
    let n = h.frame_count as usize;
    let fmt = h.curve_format;
    if fmt == 0x05 || fmt == 0x08 || fmt == 0x15 {
        match decode_vector3_list(b, pos, n) {
            Some((v, p)) => Some((Curve::Vector3(v), p)),
            None => None,
        }
    } else if fmt == 0x06 {
        match decode_kf_vector3_list(b, pos, n) {
            Some((v, p)) => Some((Curve::KeyframeVector3(v), p)),
            None => None,
        }
    } else if fmt == 0x0A {
        match decode_kf_vector4_list(b, pos, n) {
            Some((v, p)) => Some((Curve::KeyframeVector4(v), p)),
            None => None,
        }
    } else if fmt == 0x0B || fmt == 0x16 || fmt == 0x18 {
        match decode_u32_elem_list(b, pos, n) {
            Some((v, p)) => Some((Curve::Float(v), p)),
            None => None,
        }
    } else if fmt == 0x0C {
        match decode_kf_float_list(b, pos, n) {
            Some((v, p)) => Some((Curve::KeyframeFloat(v), p)),
            None => None,
        }
    } else if fmt == 0x0F {
        match decode_i16_elem_list(b, pos, n) {
            Some((v, p)) => {
                let pad: usize = if n % 2 == 1 {
                    2
                } else {
                    0
                };
                if pad <= b.len() - p {
                    Some((Curve::Short(v), p + pad))
                } else {
                    None
                }
            },
            None => None,
        }
    } else if fmt == 0x10 {
        match decode_vector3_short_list(b, pos, n) {
            Some((v, p)) => {
                let pad: usize = if n % 2 == 1 {
                    2
                } else {
                    0
                };
                if pad <= b.len() - p {
                    Some((Curve::Vector3Short(v), p + pad))
                } else {
                    None
                }
            },
            None => None,
        }
    } else if fmt == 0x11 {
        match decode_quaternion_short_list(b, pos, n) {
            Some((v, p)) => Some((Curve::QuaternionShort(v), p)),
            None => None,
        }
    } else if fmt == 0x14 {
        match decode_rgb_list(b, pos, n) {
            Some((v, p)) => {
                let pad: usize = n % 4;
                if pad <= b.len() - p {
                    Some((Curve::RGB(v), p + pad))
                } else {
                    None
                }
            },
            None => None,
        }
    } else {
        None
    }
}

/// Wire bytes of one clip clump: index, the two counts, then the two
/// index lists.
pub open spec fn ser_clump(c: AnmClumpView) -> Seq<u8> {
    ser_u32(c.clump_index) + ser_u16(c.bone_material_count) + ser_u16(c.model_count) + ser_seq(
        c.bone_material_indices,
        u32_elem_ser_fn(),
    ) + ser_seq(c.model_indices, u32_elem_ser_fn())
}

/// The clip clump starting at `pos`.
pub open spec fn parse_clump(b: Seq<u8>, pos: int) -> Option<(AnmClumpView, int)> {
    if pos + 8 <= b.len() {
        let ci = parse_u32_at(b, pos);
        let bmc = parse_u16_at(b, pos + 4);
        let mc = parse_u16_at(b, pos + 6);
        match parse_n(b, pos + 8, bmc as int, u32_elem_parser()) {
            Some((bmi, p2)) => match parse_n(b, p2, mc as int, u32_elem_parser()) {
                Some((mi, p3)) => Some(
                    (
                        AnmClumpView {
                            clump_index: ci,
                            bone_material_count: bmc,
                            model_count: mc,
                            bone_material_indices: bmi,
                            model_indices: mi,
                        },
                        p3,
                    ),
                ),
                None => None,
            },
            None => None,
        }
    } else {
        None
    }
}

/// A clump's count fields match its list lengths.
pub open spec fn wf_clump(c: AnmClumpView) -> bool {
    &&& c.bone_material_count == c.bone_material_indices.len()
    &&& c.model_count == c.model_indices.len()
}

/// Parsing a serialized well-formed clump back.
pub proof fn lemma_parse_ser_clump(b: Seq<u8>, pos: int, c: AnmClumpView)
    requires
        0 <= pos,
        wf_clump(c),
        pos + ser_clump(c).len() <= b.len(),
        b.subrange(pos, pos + ser_clump(c).len() as int) == ser_clump(c),
    ensures
        parse_clump(b, pos) == Some((c, pos + ser_clump(c).len() as int)),
{
    let h = ser_u32(c.clump_index) + ser_u16(c.bone_material_count) + ser_u16(c.model_count);
    let l1 = ser_seq(c.bone_material_indices, u32_elem_ser_fn());
    let l2 = ser_seq(c.model_indices, u32_elem_ser_fn());
    assert(ser_clump(c) =~= h + (l1 + l2));
    lemma_subrange_concat(b, pos, h, l1 + l2);
    assert(h =~= ser_u32(c.clump_index) + (ser_u16(c.bone_material_count) + ser_u16(
        c.model_count,
    )));
    lemma_subrange_concat(b, pos, ser_u32(c.clump_index), ser_u16(c.bone_material_count) + ser_u16(
        c.model_count,
    ));
    lemma_subrange_concat(b, pos + 4, ser_u16(c.bone_material_count), ser_u16(c.model_count));
    lemma_parse_ser_u32(b, pos, c.clump_index);
    lemma_parse_ser_u16(b, pos + 4, c.bone_material_count);
    lemma_parse_ser_u16(b, pos + 6, c.model_count);
    lemma_subrange_concat(b, pos + 8, l1, l2);
    lemma_hyp_u32_elem(b);
    lemma_parse_n_ser_seq(
        b,
        pos + 8,
        c.bone_material_indices,
        u32_elem_ser_fn(),
        u32_elem_parser(),
        u32_elem_ok(),
    );
    lemma_parse_n_ser_seq(
        b,
        pos + 8 + l1.len() as int,
        c.model_indices,
        u32_elem_ser_fn(),
        u32_elem_parser(),
        u32_elem_ok(),
    );
}

/// The clump parser, as a function value.
pub open spec fn clump_parser() -> spec_fn(Seq<u8>, int) -> Option<(AnmClumpView, int)> {
    |b: Seq<u8>, pos: int| parse_clump(b, pos)
}

/// The clump serializer, as a function value.
pub open spec fn clump_ser_fn() -> spec_fn(AnmClumpView) -> Seq<u8> {
    |c: AnmClumpView| ser_clump(c)
}

/// Only well-formed clumps are admitted.
pub open spec fn clump_ok() -> spec_fn(AnmClumpView) -> bool {
    |c: AnmClumpView| wf_clump(c)
}

/// On every buffer, the clump parser inverts its serializer on
/// well-formed clumps.
pub proof fn lemma_hyp_clump(b: Seq<u8>)
    ensures
        list_hyp(b, clump_ser_fn(), clump_parser(), clump_ok()),
{
    assert forall|x: AnmClumpView, q: int|
        clump_ok()(x) && 0 <= q && q + clump_ser_fn()(x).len() <= b.len() && #[trigger] b.subrange(
            q,
            q + clump_ser_fn()(x).len() as int,
        ) == clump_ser_fn()(x) implies clump_parser()(b, q) == Some(
        (x, q + clump_ser_fn()(x).len() as int),
    ) by {
        lemma_parse_ser_clump(b, q, x);
    }
}

/// Decode one clip clump.
fn decode_clump(b: &Vec<u8>, pos: usize) -> (r: Option<(AnmClump, usize)>)
    requires
        pos <= b@.len(),
    ensures
        match r {
            Some(p) => parse_clump(b@, pos as int) == Some((p.0@, p.1 as int)) && pos <= p.1
                <= b@.len(),
            None => parse_clump(b@, pos as int) is None,
        },
{
    proof {
        vstd::std_specs::vec::axiom_spec_len(b);
    }
    if b.len() < 8 || pos > b.len() - 8 {
        return None;
    }
    let ci = read_u32(b, pos);
    let bmc = read_u16(b, pos + 4);
    let mc = read_u16(b, pos + 6);
    match decode_u32_elem_list(b, pos + 8, bmc as usize) {
        Some((bmi, p2)) => match decode_u32_elem_list(b, p2, mc as usize) {
            Some((mi, p3)) => Some(
                (
                    AnmClump {
                        clump_index: ci,
                        bone_material_count: bmc,
                        model_count: mc,
                        bone_material_indices: bmi,
                        model_indices: mi,
                    },
                    p3,
                ),
            ),
            None => None,
        },
        None => None,
    }
}

/// Append one clip clump.
fn encode_clump(out: &mut Vec<u8>, c: &AnmClump)
    ensures
        final(out)@ == old(out)@ + ser_clump(c@),
{
    let ghost pre = out@;
    push_u32(out, c.clump_index);
    push_u16(out, c.bone_material_count);
    push_u16(out, c.model_count);
    encode_u32_elem_list(out, &c.bone_material_indices);
    encode_u32_elem_list(out, &c.model_indices);
    proof {
        assert(out@ =~= pre + ser_clump(c@));
    }
}

/// Wire bytes of a curve list: each payload in order, padding included.
pub open spec fn ser_curves(cs: Seq<CurveView>) -> Seq<u8>
    decreases cs.len(),
{
    if cs.len() == 0 {
        Seq::empty()
    } else {
        ser_curve(cs.first()) + ser_curves(cs.drop_first())
    }
}

/// Serializing one more curve appends its bytes.
pub proof fn lemma_ser_curves_snoc(cs: Seq<CurveView>, c: CurveView)
    ensures
        ser_curves(cs.push(c)) == ser_curves(cs) + ser_curve(c),
    decreases cs.len(),
{
    if cs.len() == 0 {
        assert(cs.push(c).drop_first() =~= Seq::<CurveView>::empty());
        assert(ser_curves(Seq::<CurveView>::empty()) == Seq::<u8>::empty());
        assert(ser_curves(cs.push(c)) =~= ser_curves(cs) + ser_curve(c));
    } else {
        lemma_ser_curves_snoc(cs.drop_first(), c);
        assert(cs.push(c).drop_first() =~= cs.drop_first().push(c));
        assert(cs.push(c).first() == cs.first());
        assert(ser_curves(cs.push(c)) =~= ser_curves(cs) + ser_curve(c));
    }
}

/// The curve payloads starting at `pos`, one per header, each shaped by
/// its own header.
pub open spec fn parse_curves(b: Seq<u8>, pos: int, hs: Seq<CurveHeader>) -> Option<
    (Seq<CurveView>, int),
>
    decreases hs.len(),
{
    if hs.len() == 0 {
        Some((Seq::empty(), pos))
    } else {
        match parse_curve(b, pos, hs.first()) {
            Some((c, p2)) => match parse_curves(b, p2, hs.drop_first()) {
                Some((cs, p3)) => Some((seq![c] + cs, p3)),
                None => None,
            },
            None => None,
        }
    }
}

/// Parsing serialized curves back, under their pairwise-consistent
/// headers.
pub proof fn lemma_parse_ser_curves(b: Seq<u8>, pos: int, hs: Seq<CurveHeader>, cs: Seq<CurveView>)
    requires
        0 <= pos,
        hs.len() == cs.len(),
        forall|i: int| 0 <= i < cs.len() ==> wf_curve(#[trigger] hs[i], #[trigger] cs[i]),
        pos + ser_curves(cs).len() <= b.len(),
        b.subrange(pos, pos + ser_curves(cs).len() as int) == ser_curves(cs),
    ensures
        parse_curves(b, pos, hs) == Some((cs, pos + ser_curves(cs).len() as int)),
    decreases cs.len(),
{
    if cs.len() == 0 {
    } else {
        lemma_subrange_concat(b, pos, ser_curve(cs.first()), ser_curves(cs.drop_first()));
        assert(wf_curve(hs[0], cs[0]));
        lemma_parse_ser_curve(b, pos, hs.first(), cs.first());
        let p2 = pos + ser_curve(cs.first()).len() as int;
        assert forall|i: int| 0 <= i < cs.drop_first().len() implies wf_curve(
            #[trigger] hs.drop_first()[i],
            #[trigger] cs.drop_first()[i],
        ) by {
            assert(hs.drop_first()[i] == hs[i + 1]);
            assert(cs.drop_first()[i] == cs[i + 1]);
        }
        lemma_parse_ser_curves(b, p2, hs.drop_first(), cs.drop_first());
        assert(seq![cs.first()] + cs.drop_first() =~= cs);
    }
}

/// Decode the curve payloads of one entry, one per header.
fn decode_curves(b: &Vec<u8>, pos: usize, hs: &Vec<CurveHeader>) -> (r: Option<(Vec<Curve>, usize)>)
    requires
        pos <= b@.len(),
    ensures
        match r {
            Some(p) => parse_curves(b@, pos as int, hs@) == Some(
                (p.0@.map_values(|c: Curve| c@), p.1 as int),
            ) && pos <= p.1 <= b@.len(),
            None => parse_curves(b@, pos as int, hs@) is None,
        },
{
    let mut out: Vec<Curve> = Vec::new();
    let mut i: usize = 0;
    let mut cur: usize = pos;
    proof {
        assert(hs@.skip(0) =~= hs@);
        assert(out@.map_values(|c: Curve| c@) =~= Seq::<CurveView>::empty());
        match parse_curves(b@, pos as int, hs@) {
            Some(q) => {
                assert(Seq::<CurveView>::empty() + q.0 =~= q.0);
            },
            None => {},
        }
    }
    while i < hs.len()
        invariant
            pos <= cur <= b@.len(),
            i <= hs@.len(),
            parse_curves(b@, pos as int, hs@) == (match parse_curves(
                b@,
                cur as int,
                hs@.skip(i as int),
            ) {
                Some(q) => Some((out@.map_values(|c: Curve| c@) + q.0, q.1)),
                None => None::<(Seq<CurveView>, int)>,
            }),
        decreases hs@.len() - i,
    {
        proof {
            assert(hs@.skip(i as int).first() == hs@[i as int]);
            assert(hs@.skip(i as int).drop_first() =~= hs@.skip(i as int + 1));
        }
        match decode_curve(b, cur, &hs[i]) {
            Some((c, p2)) => {
                proof {
                    let prev = out@.map_values(|c: Curve| c@);
                    match parse_curves(b@, p2 as int, hs@.skip(i as int + 1)) {
                        Some(q) => {
                            assert(prev + (seq![c@] + q.0) =~= prev.push(c@) + q.0);
                        },
                        None => {},
                    }
                }
                out.push(c);
                proof {
                    assert(out@.map_values(|c: Curve| c@) =~= out@.map_values(
                        |c: Curve| c@,
                    ));
                }
                cur = p2;
            },
            None => {
                return None;
            },
        }
        i += 1;
    }
    proof {
        assert(hs@.skip(hs@.len() as int) =~= Seq::<CurveHeader>::empty());
        assert(out@.map_values(|c: Curve| c@) + Seq::<CurveView>::empty() =~= out@.map_values(
            |c: Curve| c@,
        ));
    }
    Some((out, cur))
}

/// Append the curve payloads of one entry.
fn encode_curves(out: &mut Vec<u8>, cs: &Vec<Curve>)
    ensures
        final(out)@ == old(out)@ + ser_curves(cs@.map_values(|c: Curve| c@)),
{
    let ghost goal = cs@.map_values(|c: Curve| c@);
    let mut i: usize = 0;
    proof {
        assert(ser_curves(goal.take(0)) == Seq::<u8>::empty());
        assert(out@ =~= old(out)@ + ser_curves(goal.take(0)));
    }
    while i < cs.len()
        invariant
            i <= cs@.len(),
            goal == cs@.map_values(|c: Curve| c@),
            out@ == old(out)@ + ser_curves(goal.take(i as int)),
        decreases cs@.len() - i,
    {
        encode_curve(out, &cs[i]);
        proof {
            lemma_ser_curves_snoc(goal.take(i as int), goal[i as int]);
            assert(goal.take(i as int + 1) =~= goal.take(i as int).push(goal[i as int]));
            assert(cs@[i as int]@ == goal[i as int]);
            assert(out@ =~= old(out)@ + ser_curves(goal.take(i as int + 1)));
        }
        i += 1;
    }
    proof {
        assert(goal.take(goal.len() as int) =~= goal);
    }
}

/// Wire bytes of one clip entry: coordinate, entry-kind code, curve
/// count, the curve headers, then the curve payloads.
pub open spec fn ser_entry(e: AnmEntryView) -> Seq<u8> {
    ser_i16(e.coord.clump_index) + ser_u16(e.coord.coord_index) + ser_u16(e.entry_format)
        + ser_u16(e.curve_count) + ser_seq(e.curve_headers, curve_header_ser_fn()) + ser_curves(
        e.curves,
    )
}

/// The clip entry starting at `pos`.
pub open spec fn parse_entry(b: Seq<u8>, pos: int) -> Option<(AnmEntryView, int)> {
    if pos + 8 <= b.len() {
        let coord = AnmCoord {
            clump_index: parse_i16_at(b, pos),
            coord_index: parse_u16_at(b, pos + 2),
        };
        let fmt = parse_u16_at(b, pos + 4);
        let cc = parse_u16_at(b, pos + 6);
        match parse_n(b, pos + 8, cc as int, curve_header_parser()) {
            Some((hs, p2)) => match parse_curves(b, p2, hs) {
                Some((cs, p3)) => Some(
                    (
                        AnmEntryView {
                            coord: coord,
                            entry_format: fmt,
                            curve_count: cc,
                            curve_headers: hs,
                            curves: cs,
                        },
                        p3,
                    ),
                ),
                None => None,
            },
            None => None,
        }
    } else {
        None
    }
}

/// An entry's curve count matches both lists, and each header is
/// consistent with its positionally paired payload.
pub open spec fn wf_entry(e: AnmEntryView) -> bool {
    &&& e.curve_count == e.curve_headers.len()
    &&& e.curve_headers.len() == e.curves.len()
    &&& forall|i: int|
        0 <= i < e.curves.len() ==> wf_curve(#[trigger] e.curve_headers[i], #[trigger] e.curves[i])
}

/// Parsing a serialized well-formed entry back.
pub proof fn lemma_parse_ser_entry(b: Seq<u8>, pos: int, e: AnmEntryView)
    requires
        0 <= pos,
        wf_entry(e),
        pos + ser_entry(e).len() <= b.len(),
        b.subrange(pos, pos + ser_entry(e).len() as int) == ser_entry(e),
    ensures
        parse_entry(b, pos) == Some((e, pos + ser_entry(e).len() as int)),
{
    let h1 = ser_i16(e.coord.clump_index);
    let h2 = ser_u16(e.coord.coord_index);
    let h3 = ser_u16(e.entry_format);
    let h4 = ser_u16(e.curve_count);
    let hl = ser_seq(e.curve_headers, curve_header_ser_fn());
    let cl = ser_curves(e.curves);
    assert(ser_entry(e) =~= h1 + (h2 + (h3 + (h4 + (hl + cl)))));
    lemma_subrange_concat(b, pos, h1, h2 + (h3 + (h4 + (hl + cl))));
    lemma_subrange_concat(b, pos + 2, h2, h3 + (h4 + (hl + cl)));
    lemma_subrange_concat(b, pos + 4, h3, h4 + (hl + cl));
    lemma_subrange_concat(b, pos + 6, h4, hl + cl);
    lemma_subrange_concat(b, pos + 8, hl, cl);
    lemma_parse_ser_i16(b, pos, e.coord.clump_index);
    lemma_parse_ser_u16(b, pos + 2, e.coord.coord_index);
    lemma_parse_ser_u16(b, pos + 4, e.entry_format);
    lemma_parse_ser_u16(b, pos + 6, e.curve_count);
    lemma_hyp_curve_header(b);
    lemma_parse_n_ser_seq(
        b,
        pos + 8,
        e.curve_headers,
        curve_header_ser_fn(),
        curve_header_parser(),
        curve_header_ok(),
    );
    lemma_parse_ser_curves(b, pos + 8 + hl.len() as int, e.curve_headers, e.curves);
}

/// The entry parser, as a function value.
pub open spec fn entry_parser() -> spec_fn(Seq<u8>, int) -> Option<(AnmEntryView, int)> {
    |b: Seq<u8>, pos: int| parse_entry(b, pos)
}

/// The entry serializer, as a function value.
pub open spec fn entry_ser_fn() -> spec_fn(AnmEntryView) -> Seq<u8> {
    |e: AnmEntryView| ser_entry(e)
}

/// Only well-formed entries are admitted.
pub open spec fn entry_ok() -> spec_fn(AnmEntryView) -> bool {
    |e: AnmEntryView| wf_entry(e)
}

/// On every buffer, the entry parser inverts its serializer on
/// well-formed entries.
pub proof fn lemma_hyp_entry(b: Seq<u8>)
    ensures
        list_hyp(b, entry_ser_fn(), entry_parser(), entry_ok()),
{
    assert forall|x: AnmEntryView, q: int|
        entry_ok()(x) && 0 <= q && q + entry_ser_fn()(x).len() <= b.len() && #[trigger] b.subrange(
            q,
            q + entry_ser_fn()(x).len() as int,
        ) == entry_ser_fn()(x) implies entry_parser()(b, q) == Some(
        (x, q + entry_ser_fn()(x).len() as int),
    ) by {
        lemma_parse_ser_entry(b, q, x);
    }
}

/// Decode one clip entry.
fn decode_entry(b: &Vec<u8>, pos: usize) -> (r: Option<(AnmEntry, usize)>)
    requires
        pos <= b@.len(),
    ensures
        match r {
            Some(p) => parse_entry(b@, pos as int) == Some((p.0@, p.1 as int)) && pos <= p.1
                <= b@.len(),
            None => parse_entry(b@, pos as int) is None,
        },
{
    proof {
        vstd::std_specs::vec::axiom_spec_len(b);
    }
    if b.len() < 8 || pos > b.len() - 8 {
        return None;
    }
    let coord = AnmCoord { clump_index: read_i16(b, pos), coord_index: read_u16(b, pos + 2) };
    let fmt = read_u16(b, pos + 4);
    let cc = read_u16(b, pos + 6);
    match decode_curve_header_list(b, pos + 8, cc as usize) {
        Some((hs, p2)) => match decode_curves(b, p2, &hs) {
            Some((cs, p3)) => {
                let e = AnmEntry {
                    coord: coord,
                    entry_format: fmt,
                    curve_count: cc,
                    curve_headers: hs,
                    curves: cs,
                };
                proof {
                    assert(e@ =~~= (match parse_entry(b@, pos as int) {
                        Some(p) => p.0,
                        None => e@,
                    }));
                }
                Some((e, p3))
            },
            None => None,
        },
        None => None,
    }
}

/// Append one clip entry.
fn encode_entry(out: &mut Vec<u8>, e: &AnmEntry)
    ensures
        final(out)@ == old(out)@ + ser_entry(e@),
{
    let ghost pre = out@;
    push_i16(out, e.coord.clump_index);
    push_u16(out, e.coord.coord_index);
    push_u16(out, e.entry_format);
    push_u16(out, e.curve_count);
    encode_curve_header_list(out, &e.curve_headers);
    encode_curves(out, &e.curves);
    proof {
        assert(out@ =~= pre + ser_entry(e@));
    }
}

/// Decode `n` consecutive clip clumps.
fn decode_clump_list(b: &Vec<u8>, pos: usize, n: usize) -> (r: Option<(Vec<AnmClump>, usize)>)
    requires
        pos <= b@.len(),
    ensures
        match r {
            Some(p) => parse_n(b@, pos as int, n as int, clump_parser()) == Some(
                (p.0@.map_values(|c: AnmClump| c@), p.1 as int),
            ) && pos <= p.1 <= b@.len(),
            None => parse_n(b@, pos as int, n as int, clump_parser()) is None,
        },
{
    let mut out: Vec<AnmClump> = Vec::new();
    let mut i: usize = 0;
    let mut cur: usize = pos;
    while i < n
        invariant
            pos <= cur <= b@.len(),
            i <= n,
            parse_n(b@, pos as int, n as int, clump_parser()) == (match parse_n(
                b@,
                cur as int,
                (n - i) as int,
                clump_parser(),
            ) {
                Some(q) => Some((out@.map_values(|c: AnmClump| c@) + q.0, q.1)),
                None => None::<(Seq<AnmClumpView>, int)>,
            }),
        decreases n - i,
    {
        match decode_clump(b, cur) {
            Some((c, p2)) => {
                proof {
                    let prev = out@.map_values(|c: AnmClump| c@);
                    match parse_n(b@, p2 as int, (n - i) as int - 1, clump_parser()) {
                        Some(q) => {
                            assert(prev + (seq![c@] + q.0) =~= prev.push(c@) + q.0);
                        },
                        None => {},
                    }
                }
                out.push(c);
                cur = p2;
            },
            None => {
                return None;
            },
        }
        i += 1;
    }
    proof {
        assert(out@.map_values(|c: AnmClump| c@) + Seq::<AnmClumpView>::empty()
            =~= out@.map_values(|c: AnmClump| c@));
    }
    Some((out, cur))
}

/// Decode `n` consecutive clip entries.
fn decode_entry_list(b: &Vec<u8>, pos: usize, n: usize) -> (r: Option<(Vec<AnmEntry>, usize)>)
    requires
        pos <= b@.len(),
    ensures
        match r {
            Some(p) => parse_n(b@, pos as int, n as int, entry_parser()) == Some(
                (p.0@.map_values(|e: AnmEntry| e@), p.1 as int),
            ) && pos <= p.1 <= b@.len(),
            None => parse_n(b@, pos as int, n as int, entry_parser()) is None,
        },
{
    let mut out: Vec<AnmEntry> = Vec::new();
    let mut i: usize = 0;
    let mut cur: usize = pos;
    while i < n
        invariant
            pos <= cur <= b@.len(),
            i <= n,
            parse_n(b@, pos as int, n as int, entry_parser()) == (match parse_n(
                b@,
                cur as int,
                (n - i) as int,
                entry_parser(),
            ) {
                Some(q) => Some((out@.map_values(|e: AnmEntry| e@) + q.0, q.1)),
                None => None::<(Seq<AnmEntryView>, int)>,
            }),
        decreases n - i,
    {
        match decode_entry(b, cur) {
            Some((e, p2)) => {
                proof {
                    let prev = out@.map_values(|e: AnmEntry| e@);
                    match parse_n(b@, p2 as int, (n - i) as int - 1, entry_parser()) {
                        Some(q) => {
                            assert(prev + (seq![e@] + q.0) =~= prev.push(e@) + q.0);
                        },
                        None => {},
                    }
                }
                out.push(e);
                cur = p2;
            },
            None => {
                return None;
            },
        }
        i += 1;
    }
    proof {
        assert(out@.map_values(|e: AnmEntry| e@) + Seq::<AnmEntryView>::empty()
            =~= out@.map_values(|e: AnmEntry| e@));
    }
    Some((out, cur))
}

/// Append `n` consecutive clip clumps.
fn encode_clump_list(out: &mut Vec<u8>, v: &Vec<AnmClump>)
    ensures
        final(out)@ == old(out)@ + ser_seq(v@.map_values(|c: AnmClump| c@), clump_ser_fn()),
{
    let ghost goal = v@.map_values(|c: AnmClump| c@);
    let mut i: usize = 0;
    proof {
        assert(ser_seq(goal.take(0), clump_ser_fn()) == Seq::<u8>::empty());
        assert(out@ =~= old(out)@ + ser_seq(goal.take(0), clump_ser_fn()));
    }
    while i < v.len()
        invariant
            i <= v@.len(),
            goal == v@.map_values(|c: AnmClump| c@),
            out@ == old(out)@ + ser_seq(goal.take(i as int), clump_ser_fn()),
        decreases v@.len() - i,
    {
        encode_clump(out, &v[i]);
        proof {
            lemma_ser_seq_snoc(goal.take(i as int), goal[i as int], clump_ser_fn());
            assert(goal.take(i as int + 1) =~= goal.take(i as int).push(goal[i as int]));
            assert(v@[i as int]@ == goal[i as int]);
            assert(out@ =~= old(out)@ + ser_seq(goal.take(i as int + 1), clump_ser_fn()));
        }
        i += 1;
    }
    proof {
        assert(goal.take(goal.len() as int) =~= goal);
    }
}

/// Append `n` consecutive clip entries.
fn encode_entry_list(out: &mut Vec<u8>, v: &Vec<AnmEntry>)
    ensures
        final(out)@ == old(out)@ + ser_seq(v@.map_values(|e: AnmEntry| e@), entry_ser_fn()),
{
    let ghost goal = v@.map_values(|e: AnmEntry| e@);
    let mut i: usize = 0;
    proof {
        assert(ser_seq(goal.take(0), entry_ser_fn()) == Seq::<u8>::empty());
        assert(out@ =~= old(out)@ + ser_seq(goal.take(0), entry_ser_fn()));
    }
    while i < v.len()
        invariant
            i <= v@.len(),
            goal == v@.map_values(|e: AnmEntry| e@),
            out@ == old(out)@ + ser_seq(goal.take(i as int), entry_ser_fn()),
        decreases v@.len() - i,
    {
        encode_entry(out, &v[i]);
        proof {
            lemma_ser_seq_snoc(goal.take(i as int), goal[i as int], entry_ser_fn());
            assert(goal.take(i as int + 1) =~= goal.take(i as int).push(goal[i as int]));
            assert(v@[i as int]@ == goal[i as int]);
            assert(out@ =~= old(out)@ + ser_seq(goal.take(i as int + 1), entry_ser_fn()));
        }
        i += 1;
    }
    proof {
        assert(goal.take(goal.len() as int) =~= goal);
    }
}

/// Wire bytes of a whole clip: the eight header fields, then the clump,
/// auxiliary-index, coordinate-parent and entry lists.
pub open spec fn ser_anm(a: NuccAnmView) -> Seq<u8> {
    ser_u32(a.anm_length) + ser_u32(a.frame_size) + ser_u16(a.entry_count) + ser_u16(a.looped)
        + ser_u16(a.clump_count) + ser_u16(a.other_entry_count) + ser_u16(a.other_index_count)
        + ser_u16(a.coord_count) + ser_seq(a.clumps, clump_ser_fn()) + ser_seq(
        a.other_entries_indices,
        u32_elem_ser_fn(),
    ) + ser_seq(a.coord_parents, coord_parent_ser_fn()) + ser_seq(a.entries, entry_ser_fn())
}

/// The whole clip starting at `pos`: header fields first, each
/// count-prefixed list read with its declared count.
pub open spec fn parse_anm(b: Seq<u8>, pos: int) -> Option<(NuccAnmView, int)> {
    if pos + 20 <= b.len() {
        let anm_length = parse_u32_at(b, pos);
        let frame_size = parse_u32_at(b, pos + 4);
        let entry_count = parse_u16_at(b, pos + 8);
        let looped = parse_u16_at(b, pos + 10);
        let clump_count = parse_u16_at(b, pos + 12);
        let other_entry_count = parse_u16_at(b, pos + 14);
        let other_index_count = parse_u16_at(b, pos + 16);
        let coord_count = parse_u16_at(b, pos + 18);
        match parse_n(b, pos + 20, clump_count as int, clump_parser()) {
            Some((clumps, p1)) => match parse_n(
                b,
                p1,
                other_entry_count + other_index_count,
                u32_elem_parser(),
            ) {
                Some((oei, p2)) => match parse_n(b, p2, coord_count as int, coord_parent_parser()) {
                    Some((cps, p3)) => match parse_n(b, p3, entry_count as int, entry_parser()) {
                        Some((es, p4)) => Some(
                            (
                                NuccAnmView {
                                    anm_length: anm_length,
                                    frame_size: frame_size,
                                    entry_count: entry_count,
                                    looped: looped,
                                    clump_count: clump_count,
                                    other_entry_count: other_entry_count,
                                    other_index_count: other_index_count,
                                    coord_count: coord_count,
                                    clumps: clumps,
                                    other_entries_indices: oei,
                                    coord_parents: cps,
                                    entries: es,
                                },
                                p4,
                            ),
                        ),
                        None => None,
                    },
                    None => None,
                },
                None => None,
            },
            None => None,
        }
    } else {
        None
    }
}

/// A clip's count fields match its list lengths, its clumps are
/// well-formed and its entries pair headers and payloads consistently.
pub open spec fn wf_anm(a: NuccAnmView) -> bool {
    &&& a.clump_count == a.clumps.len()
    &&& forall|i: int| 0 <= i < a.clumps.len() ==> wf_clump(#[trigger] a.clumps[i])
    &&& a.other_entry_count + a.other_index_count == a.other_entries_indices.len()
    &&& a.coord_count == a.coord_parents.len()
    &&& a.entry_count == a.entries.len()
    &&& forall|i: int| 0 <= i < a.entries.len() ==> wf_entry(#[trigger] a.entries[i])
}

/// Parsing a serialized well-formed clip back: the codec round trip.
#[verifier::rlimit(100)]
#[verifier::spinoff_prover]
pub proof fn lemma_parse_ser_anm(b: Seq<u8>, pos: int, a: NuccAnmView)
    requires
        0 <= pos,
        wf_anm(a),
        pos + ser_anm(a).len() <= b.len(),
        b.subrange(pos, pos + ser_anm(a).len() as int) == ser_anm(a),
    ensures
        parse_anm(b, pos) == Some((a, pos + ser_anm(a).len() as int)),
{
    let h1 = ser_u32(a.anm_length);
    let h2 = ser_u32(a.frame_size);
    let h3 = ser_u16(a.entry_count);
    let h4 = ser_u16(a.looped);
    let h5 = ser_u16(a.clump_count);
    let h6 = ser_u16(a.other_entry_count);
    let h7 = ser_u16(a.other_index_count);
    let h8 = ser_u16(a.coord_count);
    let l1 = ser_seq(a.clumps, clump_ser_fn());
    let l2 = ser_seq(a.other_entries_indices, u32_elem_ser_fn());
    let l3 = ser_seq(a.coord_parents, coord_parent_ser_fn());
    let l4 = ser_seq(a.entries, entry_ser_fn());
    assert(ser_anm(a) =~= h1 + (h2 + (h3 + (h4 + (h5 + (h6 + (h7 + (h8 + (l1 + (l2 + (l3
        + l4)))))))))));
    lemma_subrange_concat(b, pos, h1, h2 + (h3 + (h4 + (h5 + (h6 + (h7 + (h8 + (l1 + (l2 + (l3
        + l4))))))))));
    lemma_subrange_concat(b, pos + 4, h2, h3 + (h4 + (h5 + (h6 + (h7 + (h8 + (l1 + (l2 + (l3
        + l4)))))))));
    lemma_subrange_concat(b, pos + 8, h3, h4 + (h5 + (h6 + (h7 + (h8 + (l1 + (l2 + (l3 + l4))))))));
    lemma_subrange_concat(b, pos + 10, h4, h5 + (h6 + (h7 + (h8 + (l1 + (l2 + (l3 + l4)))))));
    lemma_subrange_concat(b, pos + 12, h5, h6 + (h7 + (h8 + (l1 + (l2 + (l3 + l4))))));
    lemma_subrange_concat(b, pos + 14, h6, h7 + (h8 + (l1 + (l2 + (l3 + l4)))));
    lemma_subrange_concat(b, pos + 16, h7, h8 + (l1 + (l2 + (l3 + l4))));
    lemma_subrange_concat(b, pos + 18, h8, l1 + (l2 + (l3 + l4)));
    lemma_subrange_concat(b, pos + 20, l1, l2 + (l3 + l4));
    lemma_subrange_concat(b, pos + 20 + l1.len() as int, l2, l3 + l4);
    lemma_subrange_concat(b, pos + 20 + l1.len() + l2.len(), l3, l4);
    lemma_parse_ser_u32(b, pos, a.anm_length);
    lemma_parse_ser_u32(b, pos + 4, a.frame_size);
    lemma_parse_ser_u16(b, pos + 8, a.entry_count);
    lemma_parse_ser_u16(b, pos + 10, a.looped);
    lemma_parse_ser_u16(b, pos + 12, a.clump_count);
    lemma_parse_ser_u16(b, pos + 14, a.other_entry_count);
    lemma_parse_ser_u16(b, pos + 16, a.other_index_count);
    lemma_parse_ser_u16(b, pos + 18, a.coord_count);
    lemma_hyp_clump(b);
    lemma_parse_n_ser_seq(b, pos + 20, a.clumps, clump_ser_fn(), clump_parser(), clump_ok());
    lemma_hyp_u32_elem(b);
    lemma_parse_n_ser_seq(
        b,
        pos + 20 + l1.len() as int,
        a.other_entries_indices,
        u32_elem_ser_fn(),
        u32_elem_parser(),
        u32_elem_ok(),
    );
    lemma_hyp_coord_parent(b);
    lemma_parse_n_ser_seq(
        b,
        pos + 20 + l1.len() + l2.len(),
        a.coord_parents,
        coord_parent_ser_fn(),
        coord_parent_parser(),
        coord_parent_ok(),
    );
    lemma_hyp_entry(b);
    lemma_parse_n_ser_seq(
        b,
        pos + 20 + l1.len() + l2.len() + l3.len(),
        a.entries,
        entry_ser_fn(),
        entry_parser(),
        entry_ok(),
    );
}

/// Encoding then parsing a well-formed clip yields it back, field for
/// field: the codec is a bijection over well-formed clips.
pub proof fn lemma_anm_roundtrip(a: NuccAnmView)
    requires
        wf_anm(a),
    ensures
        parse_anm(ser_anm(a), 0) == Some((a, ser_anm(a).len() as int)),
{
    let b = ser_anm(a);
    assert(b.subrange(0, b.len() as int) =~= b);
    lemma_parse_ser_anm(b, 0, a);
}

/// Decode a whole clip from the start of a buffer; trailing bytes after
/// the structure are ignored, exactly as the format's reader ignores
/// them.
pub fn decode_anm(b: &Vec<u8>) -> (r: Option<NuccAnm>)
    ensures
        match r {
            Some(a) => parse_anm(b@, 0) matches Some(q) && q.0 == a@,
            None => parse_anm(b@, 0) is None,
        },
{
    proof {
        vstd::std_specs::vec::axiom_spec_len(b);
    }
    if b.len() < 20 {
        return None;
    }
    let anm_length = read_u32(b, 0);
    let frame_size = read_u32(b, 4);
    let entry_count = read_u16(b, 8);
    let looped = read_u16(b, 10);
    let clump_count = read_u16(b, 12);
    let other_entry_count = read_u16(b, 14);
    let other_index_count = read_u16(b, 16);
    let coord_count = read_u16(b, 18);
    match decode_clump_list(b, 20, clump_count as usize) {
        Some((clumps, p1)) => match decode_u32_elem_list(
            b,
            p1,
            other_entry_count as usize + other_index_count as usize,
        ) {
            Some((oei, p2)) => match decode_coord_parent_list(b, p2, coord_count as usize) {
                Some((cps, p3)) => match decode_entry_list(b, p3, entry_count as usize) {
                    Some((es, p4)) => {
                        let a = NuccAnm {
                            anm_length: anm_length,
                            frame_size: frame_size,
                            entry_count: entry_count,
                            looped: looped,
                            clump_count: clump_count,
                            other_entry_count: other_entry_count,
                            other_index_count: other_index_count,
                            coord_count: coord_count,
                            clumps: clumps,
                            other_entries_indices: oei,
                            coord_parents: cps,
                            entries: es,
                        };
                        proof {
                            assert(parse_anm(b@, 0) == Some((a@, p4 as int)));
                        }
                        Some(a)
                    },
                    None => None,
                },
                None => None,
            },
            None => None,
        },
        None => None,
    }
}

/// Encode a whole clip to its wire bytes.
pub fn encode_anm(a: &NuccAnm) -> (r: Vec<u8>)
    ensures
        r@ == ser_anm(a@),
{
    let mut out: Vec<u8> = Vec::new();
    push_u32(&mut out, a.anm_length);
    push_u32(&mut out, a.frame_size);
    push_u16(&mut out, a.entry_count);
    push_u16(&mut out, a.looped);
    push_u16(&mut out, a.clump_count);
    push_u16(&mut out, a.other_entry_count);
    push_u16(&mut out, a.other_index_count);
    push_u16(&mut out, a.coord_count);
    encode_clump_list(&mut out, &a.clumps);
    encode_u32_elem_list(&mut out, &a.other_entries_indices);
    encode_coord_parent_list(&mut out, &a.coord_parents);
    encode_entry_list(&mut out, &a.entries);
    proof {
        assert(out@ =~= ser_anm(a@));
    }
    out
}

} // verus!
