//! Skeleton splitter: extracts the designated damage sub-skeleton out of
//! a fully built clip into an independent clip, and renumbers all
//! cross-references in both results.
//!
//! The split is expressed as two pure halves over the same damage-clump
//! choice: the extracted clip keeps only the damage clump's material,
//! rebased to zero; the reduced clip keeps the rest, with every index
//! behind the removed clump shifted down.

use vstd::prelude::*;
use vstd::multiset::Multiset;
use vstd::seq_lib::lemma_multiset_commutative;
use crate::anm::{
    AnmClump,
    AnmClumpView,
    AnmCoord,
    AnmEntry,
    AnmEntryView,
    CoordParent,
    NuccAnm,
    NuccAnmView,
};
use crate::anmstrm::{NuccAnmStrm, NuccAnmStrmView};
use crate::convert::{lemma_sort_entries_multiset, sort_entries, sort_entries_spec};

verus! {

/// Bone/material-slot count that marks the damage clump.
pub const DMG_SENTINEL: u16 = 97;

/// Index shift applied to clump chunk indices behind the removed damage
/// clump: the clump chunk itself plus its 98 owned slots.
pub const DMG_CLUMP_SHIFT: u32 = 99;

/// First position at or after `i` whose clump carries the damage
/// sentinel count; 0 where none does (a degenerate but defined
/// fallback).
pub open spec fn first_dmg_at(clumps: Seq<AnmClumpView>, i: int) -> int
    decreases clumps.len() - i,
{
    if i < 0 || i >= clumps.len() {
        0
    } else if clumps[i].bone_material_count == DMG_SENTINEL {
        i
    } else {
        first_dmg_at(clumps, i + 1)
    }
}

/// Position of the damage clump: the first clump whose bone/material
/// count equals the sentinel, or 0 where none matches.
pub open spec fn dmg_clump_pos(clumps: Seq<AnmClumpView>) -> int {
    first_dmg_at(clumps, 0)
}

/// A clump of the extracted clip, rebased by the damage clump's own
/// chunk index.
pub open spec fn rebase_clump(c: AnmClumpView, sub: u32) -> AnmClumpView {
    AnmClumpView {
        clump_index: (c.clump_index - sub) as u32,
        bone_material_count: c.bone_material_count,
        model_count: c.model_count,
        bone_material_indices: c.bone_material_indices.map_values(|x: u32| (x - sub) as u32),
        model_indices: c.model_indices.map_values(|x: u32| (x - sub) as u32),
    }
}

/// A clump of the reduced clip: where it sat behind the removed damage
/// clump, its chunk indices shift down by the removed clump's own slot
/// count plus one; otherwise it is unchanged.
pub open spec fn shift_clump(c: AnmClumpView, dmg_index: u32) -> AnmClumpView {
    if c.clump_index > dmg_index {
        AnmClumpView {
            clump_index: (c.clump_index - DMG_CLUMP_SHIFT) as u32,
            bone_material_count: c.bone_material_count,
            model_count: c.model_count,
            bone_material_indices: c.bone_material_indices.map_values(
                |x: u32| (x - DMG_CLUMP_SHIFT) as u32,
            ),
            model_indices: c.model_indices.map_values(|x: u32| (x - DMG_CLUMP_SHIFT) as u32),
        }
    } else {
        c
    }
}

/// The extracted clip's clumps: those sharing the damage clump's chunk
/// index, rebased.
pub open spec fn extracted_clumps(s: Seq<AnmClumpView>, dmg_index: u32) -> Seq<AnmClumpView>
    decreases s.len(),
{
    if s.len() == 0 {
        Seq::empty()
    } else {
        let rest = extracted_clumps(s.drop_first(), dmg_index);
        if s.first().clump_index == dmg_index {
            seq![rebase_clump(s.first(), dmg_index)] + rest
        } else {
            rest
        }
    }
}

/// The reduced clip's clumps: all others, shifted where they sat behind
/// the removed clump.
pub open spec fn reduced_clumps(s: Seq<AnmClumpView>, dmg_index: u32) -> Seq<AnmClumpView>
    decreases s.len(),
{
    if s.len() == 0 {
        Seq::empty()
    } else {
        let rest = reduced_clumps(s.drop_first(), dmg_index);
        if s.first().clump_index != dmg_index {
            seq![shift_clump(s.first(), dmg_index)] + rest
        } else {
            rest
        }
    }
}

/// A coordinate-parent relation of the extracted clip, rebased on both
/// sides by the damage clump's position.
pub open spec fn rebase_coord_parent(cp: CoordParent, dp: i16) -> CoordParent {
    CoordParent {
        parent: AnmCoord {
            clump_index: (cp.parent.clump_index - dp) as i16,
            coord_index: cp.parent.coord_index,
        },
        child: AnmCoord {
            clump_index: (cp.child.clump_index - dp) as i16,
            coord_index: cp.child.coord_index,
        },
    }
}

/// A coordinate-parent relation of the reduced clip: where its parent
/// clump sat behind the removed clump, both sides shift down by one.
pub open spec fn shift_coord_parent(cp: CoordParent, dp: i16) -> CoordParent {
    if cp.parent.clump_index > dp {
        CoordParent {
            parent: AnmCoord {
                clump_index: (cp.parent.clump_index - 1) as i16,
                coord_index: cp.parent.coord_index,
            },
            child: AnmCoord {
                clump_index: (cp.child.clump_index - 1) as i16,
                coord_index: cp.child.coord_index,
            },
        }
    } else {
        cp
    }
}

/// The extracted clip's coordinate-parent relations: those whose parent
/// clump is the damage clump, rebased.
pub open spec fn extracted_coord_parents(s: Seq<CoordParent>, dp: i16) -> Seq<CoordParent>
    decreases s.len(),
{
    if s.len() == 0 {
        Seq::empty()
    } else {
        let rest = extracted_coord_parents(s.drop_first(), dp);
        if s.first().parent.clump_index == dp {
            seq![rebase_coord_parent(s.first(), dp)] + rest
        } else {
            rest
        }
    }
}

/// The reduced clip's coordinate-parent relations: all others, shifted
/// where the parent clump sat behind the removed clump.
pub open spec fn reduced_coord_parents(s: Seq<CoordParent>, dp: i16) -> Seq<CoordParent>
    decreases s.len(),
{
    if s.len() == 0 {
        Seq::empty()
    } else {
        let rest = reduced_coord_parents(s.drop_first(), dp);
        if s.first().parent.clump_index != dp {
            seq![shift_coord_parent(s.first(), dp)] + rest
        } else {
            rest
        }
    }
}

/// A clip entry of the extracted clip, its coordinate's clump rebased by
/// the damage clump's position.
pub open spec fn rebase_entry(e: AnmEntryView, dp: i16) -> AnmEntryView {
    AnmEntryView {
        coord: AnmCoord {
            clump_index: (e.coord.clump_index - dp) as i16,
            coord_index: e.coord.coord_index,
        },
        entry_format: e.entry_format,
        curve_count: e.curve_count,
        curve_headers: e.curve_headers,
        curves: e.curves,
    }
}

/// A clip entry of the reduced clip: where its clump sat behind the
/// removed clump, the clump index shifts down by one.
pub open spec fn shift_entry(e: AnmEntryView, dp: i16) -> AnmEntryView {
    if e.coord.clump_index > dp {
        AnmEntryView {
            coord: AnmCoord {
                clump_index: (e.coord.clump_index - 1) as i16,
                coord_index: e.coord.coord_index,
            },
            entry_format: e.entry_format,
            curve_count: e.curve_count,
            curve_headers: e.curve_headers,
            curves: e.curves,
        }
    } else {
        e
    }
}

/// The extracted clip's entries, before their final sort: those on the
/// damage clump, rebased.
pub open spec fn extracted_entries(s: Seq<AnmEntryView>, dp: i16) -> Seq<AnmEntryView>
    decreases s.len(),
{
    if s.len() == 0 {
        Seq::empty()
    } else {
        let rest = extracted_entries(s.drop_first(), dp);
        if s.first().coord.clump_index == dp {
            seq![rebase_entry(s.first(), dp)] + rest
        } else {
            rest
        }
    }
}

/// The reduced clip's entries: all others, shifted where they sat behind
/// the removed clump.
pub open spec fn reduced_entries(s: Seq<AnmEntryView>, dp: i16) -> Seq<AnmEntryView>
    decreases s.len(),
{
    if s.len() == 0 {
        Seq::empty()
    } else {
        let rest = reduced_entries(s.drop_first(), dp);
        if s.first().coord.clump_index != dp {
            seq![shift_entry(s.first(), dp)] + rest
        } else {
            rest
        }
    }
}

/// Every index of a slot list is at least `b`.
pub open spec fn all_at_least(s: Seq<u32>, b: u32) -> bool {
    forall|k: int| 0 <= k < s.len() ==> #[trigger] s[k] >= b
}

/// The index rebasing of one clump never underflows.
pub open spec fn clump_rebase_ok(c: AnmClumpView, dmg_index: u32) -> bool {
    &&& (c.clump_index == dmg_index ==> all_at_least(c.bone_material_indices, dmg_index)
        && all_at_least(c.model_indices, dmg_index))
    &&& (c.clump_index > dmg_index ==> c.clump_index >= DMG_CLUMP_SHIFT && all_at_least(
        c.bone_material_indices,
        DMG_CLUMP_SHIFT,
    ) && all_at_least(c.model_indices, DMG_CLUMP_SHIFT))
}

/// The clump rebasing of one coordinate-parent relation never leaves the
/// i16 range.
pub open spec fn coord_shift_ok(cp: CoordParent, dp: i16) -> bool {
    &&& (cp.parent.clump_index == dp ==> cp.child.clump_index - dp >= i16::MIN)
    &&& (cp.parent.clump_index > dp ==> cp.child.clump_index > i16::MIN)
}

/// What the splitter asks of a clip: at least one clump, list lengths
/// that fit the u16 count fields, and index rebasing that never
/// underflows.
pub open spec fn dmg_split_ok(a: NuccAnmView) -> bool {
    let d = dmg_clump_pos(a.clumps);
    let dmg_index = a.clumps[d].clump_index;
    &&& 1 <= a.clumps.len() <= 0x7FFF
    &&& a.coord_parents.len() <= 0xFFFF
    &&& a.entries.len() <= 0xFFFF
    &&& forall|i: int|
        0 <= i < a.clumps.len() ==> clump_rebase_ok(#[trigger] a.clumps[i], dmg_index)
    &&& forall|i: int|
        0 <= i < a.coord_parents.len() ==> coord_shift_ok(#[trigger] a.coord_parents[i], d as i16)
}

/// The extracted (damage) clip: header fields from the source stream,
/// auxiliary entries zeroed, the damage clump's material rebased, entries
/// sorted stably by coordinate index, counts recomputed.
pub open spec fn extracted_anm_spec(a: NuccAnmView, strm: NuccAnmStrmView) -> NuccAnmView {
    let d = dmg_clump_pos(a.clumps);
    let dmg_index = a.clumps[d].clump_index;
    let cl = extracted_clumps(a.clumps, dmg_index);
    let cps = extracted_coord_parents(a.coord_parents, d as i16);
    let ents = sort_entries_spec(extracted_entries(a.entries, d as i16));
    NuccAnmView {
        anm_length: strm.anm_length,
        frame_size: strm.frame_size,
        entry_count: ents.len() as u16,
        looped: strm.is_looped,
        clump_count: cl.len() as u16,
        other_entry_count: 0,
        other_index_count: strm.other_index_count,
        coord_count: cps.len() as u16,
        clumps: cl,
        other_entries_indices: Seq::empty(),
        coord_parents: cps,
        entries: ents,
    }
}

/// The reduced clip: the original minus the damage clump's material,
/// indices behind the removed clump shifted down, counts recomputed.
pub open spec fn reduced_anm_spec(a: NuccAnmView) -> NuccAnmView {
    let d = dmg_clump_pos(a.clumps);
    let dmg_index = a.clumps[d].clump_index;
    let cl = reduced_clumps(a.clumps, dmg_index);
    let cps = reduced_coord_parents(a.coord_parents, d as i16);
    let ents = reduced_entries(a.entries, d as i16);
    NuccAnmView {
        anm_length: a.anm_length,
        frame_size: a.frame_size,
        entry_count: ents.len() as u16,
        looped: a.looped,
        clump_count: cl.len() as u16,
        other_entry_count: a.other_entry_count,
        other_index_count: a.other_index_count,
        coord_count: cps.len() as u16,
        clumps: cl,
        other_entries_indices: a.other_entries_indices,
        coord_parents: cps,
        entries: ents,
    }
}

/// Find the damage clump's position: the first clump whose bone/material
/// count equals the sentinel, or 0 where none matches.
fn find_dmg_pos(clumps: &Vec<AnmClump>) -> (p: usize)
    requires
        clumps@.len() >= 1,
    ensures
        p == dmg_clump_pos(clumps@.map_values(|c: AnmClump| c@)),
        p < clumps@.len(),
{
    let ghost cv = clumps@.map_values(|c: AnmClump| c@);
    let mut i: usize = 0;
    while i < clumps.len()
        invariant
            i <= cv.len(),
            cv == clumps@.map_values(|c: AnmClump| c@),
            cv.len() == clumps@.len(),
            dmg_clump_pos(cv) == first_dmg_at(cv, i as int),
        decreases cv.len() - i,
    {
        if clumps[i].bone_material_count == DMG_SENTINEL {
            proof {
                assert(cv[i as int] == clumps@[i as int]@);
            }
            return i;
        }
        proof {
            assert(cv[i as int] == clumps@[i as int]@);
        }
        i += 1;
    }
    0
}

/// Subtract `sub` from every index of a slot list.
fn sub_u32s(v: &Vec<u32>, sub: u32) -> (r: Vec<u32>)
    requires
        forall|k: int| 0 <= k < v@.len() ==> #[trigger] v@[k] >= sub,
    ensures
        r@ == v@.map_values(|x: u32| (x - sub) as u32),
{
    let ghost goal = v@.map_values(|x: u32| (x - sub) as u32);
    let mut out: Vec<u32> = Vec::new();
    let mut i: usize = 0;
    while i < v.len()
        invariant
            i <= v@.len(),
            goal == v@.map_values(|x: u32| (x - sub) as u32),
            forall|k: int| 0 <= k < v@.len() ==> #[trigger] v@[k] >= sub,
            out@ == goal.take(i as int),
        decreases v@.len() - i,
    {
        out.push(v[i] - sub);
        proof {
            assert(out@ =~= goal.take(i + 1));
        }
        i += 1;
    }
    proof {
        assert(out@ =~= goal);
    }
    out
}


/// Split the clump list in one pass: the damage clump's entries (by
/// chunk index) rebased into the extracted side, the rest shifted into
/// the reduced side.
fn split_clumps(clumps: Vec<AnmClump>, dmg_index: u32) -> (r: (Vec<AnmClump>, Vec<AnmClump>))
    requires
        forall|i: int|
            0 <= i < clumps@.len() ==> clump_rebase_ok(
                (#[trigger] clumps@[i])@,
                dmg_index,
            ),
    ensures
        r.0@.map_values(|c: AnmClump| c@) == extracted_clumps(
            clumps@.map_values(|c: AnmClump| c@),
            dmg_index,
        ),
        r.1@.map_values(|c: AnmClump| c@) == reduced_clumps(
            clumps@.map_values(|c: AnmClump| c@),
            dmg_index,
        ),
{
    let ghost cv = clumps@.map_values(|c: AnmClump| c@);
    let mut rest = clumps;
    let mut ext: Vec<AnmClump> = Vec::new();
    let mut red: Vec<AnmClump> = Vec::new();
    let ghost mut i: int = 0;
    proof {
        assert(cv.skip(0) =~= cv);
        assert(ext@.map_values(|c: AnmClump| c@) =~= Seq::<AnmClumpView>::empty());
        assert(Seq::<AnmClumpView>::empty() + extracted_clumps(cv, dmg_index) =~= extracted_clumps(
            cv,
            dmg_index,
        ));
        assert(Seq::<AnmClumpView>::empty() + reduced_clumps(cv, dmg_index) =~= reduced_clumps(
            cv,
            dmg_index,
        ));
    }
    while rest.len() > 0
        invariant
            0 <= i <= cv.len(),
            rest@.map_values(|c: AnmClump| c@) == cv.skip(i),
            rest@.len() == cv.len() - i,
            forall|k: int| 0 <= k < cv.len() ==> clump_rebase_ok(#[trigger] cv[k], dmg_index),
            extracted_clumps(cv, dmg_index) == ext@.map_values(|c: AnmClump| c@)
                + extracted_clumps(cv.skip(i), dmg_index),
            reduced_clumps(cv, dmg_index) == red@.map_values(|c: AnmClump| c@) + reduced_clumps(
                cv.skip(i),
                dmg_index,
            ),
        decreases rest@.len(),
    {
        let ghost restv = rest@.map_values(|c: AnmClump| c@);
        let c = rest.remove(0);
        proof {
            assert(restv[0] == rest@.map_values(|c: AnmClump| c@).insert(0, c@)[0]);
            assert(c@ == restv.first());
            assert(restv.first() == cv.skip(i)[0]);
            assert(cv.skip(i)[0] == cv[i]);
            assert(rest@.map_values(|c: AnmClump| c@) =~= cv.skip(i).drop_first());
            assert(cv.skip(i).drop_first() =~= cv.skip(i + 1));
            assert(clump_rebase_ok(cv[i], dmg_index));
        }
        let ghost extv = ext@.map_values(|c: AnmClump| c@);
        let ghost redv = red@.map_values(|c: AnmClump| c@);
        if c.clump_index == dmg_index {
            let nc = AnmClump {
                clump_index: c.clump_index - dmg_index,
                bone_material_count: c.bone_material_count,
                model_count: c.model_count,
                bone_material_indices: sub_u32s(&c.bone_material_indices, dmg_index),
                model_indices: sub_u32s(&c.model_indices, dmg_index),
            };
            proof {
                assert(nc@ =~~= rebase_clump(cv[i], dmg_index));
            }
            ext.push(nc);
            proof {
                assert(ext@.map_values(|c: AnmClump| c@) =~= extv.push(
                    rebase_clump(cv[i], dmg_index),
                ));
                assert(extv.push(rebase_clump(cv[i], dmg_index)) + extracted_clumps(
                    cv.skip(i + 1),
                    dmg_index,
                ) =~= extv + (seq![rebase_clump(cv[i], dmg_index)] + extracted_clumps(
                    cv.skip(i + 1),
                    dmg_index,
                )));
            }
        } else if c.clump_index > dmg_index {
            let nc = AnmClump {
                clump_index: c.clump_index - DMG_CLUMP_SHIFT,
                bone_material_count: c.bone_material_count,
                model_count: c.model_count,
                bone_material_indices: sub_u32s(&c.bone_material_indices, DMG_CLUMP_SHIFT),
                model_indices: sub_u32s(&c.model_indices, DMG_CLUMP_SHIFT),
            };
            proof {
                assert(nc@ =~~= shift_clump(cv[i], dmg_index));
            }
            red.push(nc);
            proof {
                assert(red@.map_values(|c: AnmClump| c@) =~= redv.push(
                    shift_clump(cv[i], dmg_index),
                ));
                assert(redv.push(shift_clump(cv[i], dmg_index)) + reduced_clumps(
                    cv.skip(i + 1),
                    dmg_index,
                ) =~= redv + (seq![shift_clump(cv[i], dmg_index)] + reduced_clumps(
                    cv.skip(i + 1),
                    dmg_index,
                )));
            }
        } else {
            proof {
                assert(c@ =~~= shift_clump(cv[i], dmg_index));
            }
            red.push(c);
            proof {
                assert(red@.map_values(|c: AnmClump| c@) =~= redv.push(
                    shift_clump(cv[i], dmg_index),
                ));
                assert(redv.push(shift_clump(cv[i], dmg_index)) + reduced_clumps(
                    cv.skip(i + 1),
                    dmg_index,
                ) =~= redv + (seq![shift_clump(cv[i], dmg_index)] + reduced_clumps(
                    cv.skip(i + 1),
                    dmg_index,
                )));
            }
        }
        proof {
            i = i + 1;
        }
    }
    proof {
        assert(cv.skip(i) =~= Seq::<AnmClumpView>::empty());
        assert(extracted_clumps(Seq::<AnmClumpView>::empty(), dmg_index)
            =~= Seq::<AnmClumpView>::empty());
        assert(reduced_clumps(Seq::<AnmClumpView>::empty(), dmg_index)
            =~= Seq::<AnmClumpView>::empty());
        assert(ext@.map_values(|c: AnmClump| c@) + Seq::<AnmClumpView>::empty()
            =~= ext@.map_values(|c: AnmClump| c@));
        assert(red@.map_values(|c: AnmClump| c@) + Seq::<AnmClumpView>::empty()
            =~= red@.map_values(|c: AnmClump| c@));
    }
    (ext, red)
}

/// Split the coordinate-parent list in one pass by parent clump.
fn split_coord_parents(cps: Vec<CoordParent>, dp: i16) -> (r: (
    Vec<CoordParent>,
    Vec<CoordParent>,
))
    requires
        forall|i: int| 0 <= i < cps@.len() ==> coord_shift_ok(#[trigger] cps@[i], dp),
        dp >= 0,
    ensures
        r.0@ == extracted_coord_parents(cps@, dp),
        r.1@ == reduced_coord_parents(cps@, dp),
{
    let ghost cv = cps@;
    let mut rest = cps;
    let mut ext: Vec<CoordParent> = Vec::new();
    let mut red: Vec<CoordParent> = Vec::new();
    let ghost mut i: int = 0;
    proof {
        assert(cv.skip(0) =~= cv);
        assert(Seq::<CoordParent>::empty() + extracted_coord_parents(cv, dp)
            =~= extracted_coord_parents(cv, dp));
        assert(Seq::<CoordParent>::empty() + reduced_coord_parents(cv, dp)
            =~= reduced_coord_parents(cv, dp));
    }
    while rest.len() > 0
        invariant
            0 <= i <= cv.len(),
            rest@ == cv.skip(i),
            forall|k: int| 0 <= k < cv.len() ==> coord_shift_ok(#[trigger] cv[k], dp),
            dp >= 0,
            extracted_coord_parents(cv, dp) == ext@ + extracted_coord_parents(cv.skip(i), dp),
            reduced_coord_parents(cv, dp) == red@ + reduced_coord_parents(cv.skip(i), dp),
        decreases rest@.len(),
    {
        let c = rest.remove(0);
        proof {
            assert(c == cv.skip(i)[0]);
            assert(cv.skip(i)[0] == cv[i]);
            assert(rest@ =~= cv.skip(i).drop_first());
            assert(cv.skip(i).drop_first() =~= cv.skip(i + 1));
            assert(coord_shift_ok(cv[i], dp));
        }
        let ghost extv = ext@;
        let ghost redv = red@;
        if c.parent.clump_index == dp {
            let nc = CoordParent {
                parent: AnmCoord {
                    clump_index: c.parent.clump_index - dp,
                    coord_index: c.parent.coord_index,
                },
                child: AnmCoord {
                    clump_index: c.child.clump_index - dp,
                    coord_index: c.child.coord_index,
                },
            };
            proof {
                assert(nc == rebase_coord_parent(cv[i], dp));
            }
            ext.push(nc);
            proof {
                assert(extv.push(rebase_coord_parent(cv[i], dp)) + extracted_coord_parents(
                    cv.skip(i + 1),
                    dp,
                ) =~= extv + (seq![rebase_coord_parent(cv[i], dp)] + extracted_coord_parents(
                    cv.skip(i + 1),
                    dp,
                )));
            }
        } else {
            let nc = if c.parent.clump_index > dp {
                CoordParent {
                    parent: AnmCoord {
                        clump_index: c.parent.clump_index - 1,
                        coord_index: c.parent.coord_index,
                    },
                    child: AnmCoord {
                        clump_index: c.child.clump_index - 1,
                        coord_index: c.child.coord_index,
                    },
                }
            } else {
                c
            };
            proof {
                assert(nc == shift_coord_parent(cv[i], dp));
            }
            red.push(nc);
            proof {
                assert(redv.push(shift_coord_parent(cv[i], dp)) + reduced_coord_parents(
                    cv.skip(i + 1),
                    dp,
                ) =~= redv + (seq![shift_coord_parent(cv[i], dp)] + reduced_coord_parents(
                    cv.skip(i + 1),
                    dp,
                )));
            }
        }
        proof {
            i = i + 1;
        }
    }
    proof {
        assert(cv.skip(i) =~= Seq::<CoordParent>::empty());
        assert(extracted_coord_parents(Seq::<CoordParent>::empty(), dp)
            =~= Seq::<CoordParent>::empty());
        assert(reduced_coord_parents(Seq::<CoordParent>::empty(), dp)
            =~= Seq::<CoordParent>::empty());
        assert(ext@ + Seq::<CoordParent>::empty() =~= ext@);
        assert(red@ + Seq::<CoordParent>::empty() =~= red@);
    }
    (ext, red)
}

/// Split the entry list in one pass by coordinate clump, moving each
/// entry to its side with its clump index rebased.
fn split_entries(entries: Vec<AnmEntry>, dp: i16) -> (r: (Vec<AnmEntry>, Vec<AnmEntry>))
    requires
        dp >= 0,
    ensures
        r.0@.map_values(|e: AnmEntry| e@) == extracted_entries(
            entries@.map_values(|e: AnmEntry| e@),
            dp,
        ),
        r.1@.map_values(|e: AnmEntry| e@) == reduced_entries(
            entries@.map_values(|e: AnmEntry| e@),
            dp,
        ),
{
    let ghost cv = entries@.map_values(|e: AnmEntry| e@);
    let mut rest = entries;
    let mut ext: Vec<AnmEntry> = Vec::new();
    let mut red: Vec<AnmEntry> = Vec::new();
    let ghost mut i: int = 0;
    proof {
        assert(cv.skip(0) =~= cv);
        assert(ext@.map_values(|e: AnmEntry| e@) =~= Seq::<AnmEntryView>::empty());
        assert(red@.map_values(|e: AnmEntry| e@) =~= Seq::<AnmEntryView>::empty());
        assert(Seq::<AnmEntryView>::empty() + extracted_entries(cv, dp) =~= extracted_entries(
            cv,
            dp,
        ));
        assert(Seq::<AnmEntryView>::empty() + reduced_entries(cv, dp) =~= reduced_entries(cv, dp));
    }
    while rest.len() > 0
        invariant
            0 <= i <= cv.len(),
            rest@.map_values(|e: AnmEntry| e@) == cv.skip(i),
            rest@.len() == cv.len() - i,
            dp >= 0,
            extracted_entries(cv, dp) == ext@.map_values(|e: AnmEntry| e@) + extracted_entries(
                cv.skip(i),
                dp,
            ),
            reduced_entries(cv, dp) == red@.map_values(|e: AnmEntry| e@) + reduced_entries(
                cv.skip(i),
                dp,
            ),
        decreases rest@.len(),
    {
        let ghost restv = rest@.map_values(|e: AnmEntry| e@);
        let mut e = rest.remove(0);
        proof {
            assert(restv[0] == e@);
            assert(e@ == cv.skip(i)[0]);
            assert(cv.skip(i)[0] == cv[i]);
            assert(rest@.map_values(|e: AnmEntry| e@) =~= cv.skip(i).drop_first());
            assert(cv.skip(i).drop_first() =~= cv.skip(i + 1));
        }
        let ghost extv = ext@.map_values(|e: AnmEntry| e@);
        let ghost redv = red@.map_values(|e: AnmEntry| e@);
        if e.coord.clump_index == dp {
            e.coord.clump_index = e.coord.clump_index - dp;
            proof {
                assert(e@ =~~= rebase_entry(cv[i], dp));
            }
            ext.push(e);
            proof {
                assert(ext@.map_values(|e: AnmEntry| e@) =~= extv.push(rebase_entry(cv[i], dp)));
                assert(extv.push(rebase_entry(cv[i], dp)) + extracted_entries(cv.skip(i + 1), dp)
                    =~= extv + (seq![rebase_entry(cv[i], dp)] + extracted_entries(
                    cv.skip(i + 1),
                    dp,
                )));
            }
        } else {
            if e.coord.clump_index > dp {
                e.coord.clump_index = e.coord.clump_index - 1;
            }
            proof {
                assert(e@ =~~= shift_entry(cv[i], dp));
            }
            red.push(e);
            proof {
                assert(red@.map_values(|e: AnmEntry| e@) =~= redv.push(shift_entry(cv[i], dp)));
                assert(redv.push(shift_entry(cv[i], dp)) + reduced_entries(cv.skip(i + 1), dp)
                    =~= redv + (seq![shift_entry(cv[i], dp)] + reduced_entries(
                    cv.skip(i + 1),
                    dp,
                )));
            }
        }
        proof {
            i = i + 1;
        }
    }
    proof {
        assert(cv.skip(i) =~= Seq::<AnmEntryView>::empty());
        assert(extracted_entries(Seq::<AnmEntryView>::empty(), dp)
            =~= Seq::<AnmEntryView>::empty());
        assert(reduced_entries(Seq::<AnmEntryView>::empty(), dp) =~= Seq::<AnmEntryView>::empty());
        assert(ext@.map_values(|e: AnmEntry| e@) + Seq::<AnmEntryView>::empty()
            =~= ext@.map_values(|e: AnmEntry| e@));
        assert(red@.map_values(|e: AnmEntry| e@) + Seq::<AnmEntryView>::empty()
            =~= red@.map_values(|e: AnmEntry| e@));
    }
    (ext, red)
}

/// Split one fully built clip into the reduced clip (first) and the
/// extracted damage clip (second). The damage clump is the first one
/// whose bone/material count equals the sentinel, falling back to clump
/// 0; the stream supplies the extracted clip's header fields.
pub fn build_dmg_anm(anm: NuccAnm, anmstrm: &NuccAnmStrm) -> (r: (NuccAnm, NuccAnm))
    requires
        dmg_split_ok(anm@),
    ensures
        r.0@ == reduced_anm_spec(anm@),
        r.1@ == extracted_anm_spec(anm@, anmstrm@),
{
    let ghost av = anm@;
    let NuccAnm {
        anm_length,
        frame_size,
        entry_count: _,
        looped,
        clump_count: _,
        other_entry_count,
        other_index_count,
        coord_count: _,
        clumps,
        other_entries_indices,
        coord_parents,
        entries,
    } = anm;
    let d = find_dmg_pos(&clumps);
    let dmg_index = clumps[d].clump_index;
    let dp = d as i16;
    proof {
        assert(av.clumps == clumps@.map_values(|c: AnmClump| c@));
        assert(av.clumps[d as int].clump_index == dmg_index);
        assert(d == dmg_clump_pos(av.clumps));
        assert forall|k: int| 0 <= k < clumps@.len() implies clump_rebase_ok(
            (#[trigger] clumps@[k])@,
            dmg_index,
        ) by {
            assert(av.clumps[k] == clumps@[k]@);
            assert(clump_rebase_ok(av.clumps[k], dmg_index));
        }
        assert forall|k: int| 0 <= k < coord_parents@.len() implies coord_shift_ok(
            #[trigger] coord_parents@[k],
            dp,
        ) by {
            assert(av.coord_parents[k] == coord_parents@[k]);
            assert(coord_shift_ok(av.coord_parents[k], dp));
        }
    }
    let (ext_clumps, red_clumps) = split_clumps(clumps, dmg_index);
    let (ext_coords, red_coords) = split_coord_parents(coord_parents, dp);
    let (ext_entries_raw, red_entries) = split_entries(entries, dp);
    let ext_entries = sort_entries(ext_entries_raw);
    let dmg = NuccAnm {
        anm_length: anmstrm.anm_length,
        frame_size: anmstrm.frame_size,
        entry_count: ext_entries.len() as u16,
        looped: anmstrm.is_looped,
        clump_count: ext_clumps.len() as u16,
        other_entry_count: 0,
        other_index_count: anmstrm.other_index_count,
        coord_count: ext_coords.len() as u16,
        clumps: ext_clumps,
        other_entries_indices: Vec::new(),
        coord_parents: ext_coords,
        entries: ext_entries,
    };
    let reduced = NuccAnm {
        anm_length,
        frame_size,
        entry_count: red_entries.len() as u16,
        looped,
        clump_count: red_clumps.len() as u16,
        other_entry_count,
        other_index_count,
        coord_count: red_coords.len() as u16,
        clumps: red_clumps,
        other_entries_indices,
        coord_parents: red_coords,
        entries: red_entries,
    };
    proof {
        assert(reduced@ =~~= reduced_anm_spec(av));
        assert(dmg@ =~~= extracted_anm_spec(av, anmstrm@));
    }
    (reduced, dmg)
}



/// Whether every index of a slot list is at least `b`.
fn all_ge(v: &Vec<u32>, b: u32) -> (r: bool)
    ensures
        r == all_at_least(v@, b),
{
    let mut i: usize = 0;
    while i < v.len()
        invariant
            i <= v@.len(),
            forall|k: int| 0 <= k < i ==> #[trigger] v@[k] >= b,
        decreases v@.len() - i,
    {
        if v[i] < b {
            return false;
        }
        i += 1;
    }
    true
}

/// Whether rebasing one clump's indices stays in range.
fn clump_rebase_ok_exec(c: &AnmClump, dmg_index: u32) -> (r: bool)
    ensures
        r == clump_rebase_ok(c@, dmg_index),
{
    if c.clump_index == dmg_index {
        all_ge(&c.bone_material_indices, dmg_index) && all_ge(&c.model_indices, dmg_index)
    } else if c.clump_index > dmg_index {
        c.clump_index >= DMG_CLUMP_SHIFT && all_ge(&c.bone_material_indices, DMG_CLUMP_SHIFT)
            && all_ge(&c.model_indices, DMG_CLUMP_SHIFT)
    } else {
        true
    }
}

/// Whether the splitter's demands hold of a clip: at least one clump,
/// list lengths within the u16 count fields, and index rebasing that
/// never leaves its integer range.
pub fn check_dmg_split(anm: &NuccAnm) -> (r: bool)
    ensures
        r == dmg_split_ok(anm@),
{
    if anm.clumps.len() == 0 || anm.clumps.len() > 0x7FFF {
        return false;
    }
    if anm.coord_parents.len() > 0xFFFF || anm.entries.len() > 0xFFFF {
        return false;
    }
    let d = find_dmg_pos(&anm.clumps);
    let dmg_index = anm.clumps[d].clump_index;
    let dp = d as i16;
    proof {
        assert(anm@.clumps == anm.clumps@.map_values(|c: AnmClump| c@));
        assert(d == dmg_clump_pos(anm@.clumps));
        assert(anm@.clumps[d as int].clump_index == dmg_index);
    }
    let mut i: usize = 0;
    while i < anm.clumps.len()
        invariant
            i <= anm.clumps@.len(),
            d < anm.clumps@.len(),
            dmg_index == anm@.clumps[d as int].clump_index,
            d == dmg_clump_pos(anm@.clumps),
            anm@.clumps == anm.clumps@.map_values(|c: AnmClump| c@),
            forall|k: int| 0 <= k < i ==> clump_rebase_ok(#[trigger] anm@.clumps[k], dmg_index),
        decreases anm.clumps@.len() - i,
    {
        proof {
            assert(anm@.clumps[i as int] == anm.clumps@[i as int]@);
        }
        if !clump_rebase_ok_exec(&anm.clumps[i], dmg_index) {
            return false;
        }
        i += 1;
    }
    let mut j: usize = 0;
    while j < anm.coord_parents.len()
        invariant
            j <= anm.coord_parents@.len(),
            d < anm.clumps@.len(),
            d <= 0x7FFF,
            dp == d as i16,
            dmg_index == anm@.clumps[d as int].clump_index,
            d == dmg_clump_pos(anm@.clumps),
            anm@.coord_parents == anm.coord_parents@,
            forall|k: int| 0 <= k < j ==> coord_shift_ok(#[trigger] anm@.coord_parents[k], dp),
        decreases anm.coord_parents@.len() - j,
    {
        let cp = &anm.coord_parents[j];
        let ok1 = if cp.parent.clump_index == dp {
            (cp.child.clump_index as i32) - (dp as i32) >= -32768
        } else {
            true
        };
        let ok2 = if cp.parent.clump_index > dp {
            cp.child.clump_index > i16::MIN
        } else {
            true
        };
        if !(ok1 && ok2) {
            return false;
        }
        j += 1;
    }
    true
}

/// Where one original clump lands after the split: rebased into the
/// extracted clip where it is the damage clump, shifted into the reduced
/// clip otherwise.
pub open spec fn clump_image(c: AnmClumpView, dmg_index: u32) -> AnmClumpView {
    if c.clump_index == dmg_index {
        rebase_clump(c, dmg_index)
    } else {
        shift_clump(c, dmg_index)
    }
}

/// Where one original coordinate-parent relation lands after the split.
pub open spec fn coord_parent_image(cp: CoordParent, dp: i16) -> CoordParent {
    if cp.parent.clump_index == dp {
        rebase_coord_parent(cp, dp)
    } else {
        shift_coord_parent(cp, dp)
    }
}

/// Where one original clip entry lands after the split.
pub open spec fn entry_image(e: AnmEntryView, dp: i16) -> AnmEntryView {
    if e.coord.clump_index == dp {
        rebase_entry(e, dp)
    } else {
        shift_entry(e, dp)
    }
}

proof fn lemma_split_clumps_partition(s: Seq<AnmClumpView>, dmg_index: u32)
    ensures
        extracted_clumps(s, dmg_index).to_multiset().add(
            reduced_clumps(s, dmg_index).to_multiset(),
        ) == s.map_values(|c: AnmClumpView| clump_image(c, dmg_index)).to_multiset(),
    decreases s.len(),
{
    broadcast use vstd::seq_lib::group_to_multiset_ensures;

    let f = |c: AnmClumpView| clump_image(c, dmg_index);
    if s.len() == 0 {
        assert(s.map_values(f) =~= Seq::<AnmClumpView>::empty());
        assert(extracted_clumps(s, dmg_index).to_multiset().add(
            reduced_clumps(s, dmg_index).to_multiset(),
        ) =~= s.map_values(f).to_multiset());
    } else {
        let rest = s.drop_first();
        lemma_split_clumps_partition(rest, dmg_index);
        let img = clump_image(s.first(), dmg_index);
        assert(s.map_values(f) =~= seq![img] + rest.map_values(f));
        lemma_multiset_commutative(seq![img], rest.map_values(f));
        assert(seq![img] =~= Seq::<AnmClumpView>::empty().push(img));
        if s.first().clump_index == dmg_index {
            lemma_multiset_commutative(
                seq![rebase_clump(s.first(), dmg_index)],
                extracted_clumps(rest, dmg_index),
            );
            assert(seq![rebase_clump(s.first(), dmg_index)]
                =~= Seq::<AnmClumpView>::empty().push(rebase_clump(s.first(), dmg_index)));
            assert(extracted_clumps(s, dmg_index).to_multiset().add(
                reduced_clumps(s, dmg_index).to_multiset(),
            ) =~= s.map_values(f).to_multiset());
        } else {
            lemma_multiset_commutative(
                seq![shift_clump(s.first(), dmg_index)],
                reduced_clumps(rest, dmg_index),
            );
            assert(seq![shift_clump(s.first(), dmg_index)]
                =~= Seq::<AnmClumpView>::empty().push(shift_clump(s.first(), dmg_index)));
            assert(extracted_clumps(s, dmg_index).to_multiset().add(
                reduced_clumps(s, dmg_index).to_multiset(),
            ) =~= s.map_values(f).to_multiset());
        }
    }
}

proof fn lemma_split_coord_parents_partition(s: Seq<CoordParent>, dp: i16)
    ensures
        extracted_coord_parents(s, dp).to_multiset().add(
            reduced_coord_parents(s, dp).to_multiset(),
        ) == s.map_values(|cp: CoordParent| coord_parent_image(cp, dp)).to_multiset(),
    decreases s.len(),
{
    broadcast use vstd::seq_lib::group_to_multiset_ensures;

    let f = |cp: CoordParent| coord_parent_image(cp, dp);
    if s.len() == 0 {
        assert(s.map_values(f) =~= Seq::<CoordParent>::empty());
        assert(extracted_coord_parents(s, dp).to_multiset().add(
            reduced_coord_parents(s, dp).to_multiset(),
        ) =~= s.map_values(f).to_multiset());
    } else {
        let rest = s.drop_first();
        lemma_split_coord_parents_partition(rest, dp);
        let img = coord_parent_image(s.first(), dp);
        assert(s.map_values(f) =~= seq![img] + rest.map_values(f));
        lemma_multiset_commutative(seq![img], rest.map_values(f));
        assert(seq![img] =~= Seq::<CoordParent>::empty().push(img));
        if s.first().parent.clump_index == dp {
            lemma_multiset_commutative(
                seq![rebase_coord_parent(s.first(), dp)],
                extracted_coord_parents(rest, dp),
            );
            assert(seq![rebase_coord_parent(s.first(), dp)]
                =~= Seq::<CoordParent>::empty().push(rebase_coord_parent(s.first(), dp)));
            assert(extracted_coord_parents(s, dp).to_multiset().add(
                reduced_coord_parents(s, dp).to_multiset(),
            ) =~= s.map_values(f).to_multiset());
        } else {
            lemma_multiset_commutative(
                seq![shift_coord_parent(s.first(), dp)],
                reduced_coord_parents(rest, dp),
            );
            assert(seq![shift_coord_parent(s.first(), dp)]
                =~= Seq::<CoordParent>::empty().push(shift_coord_parent(s.first(), dp)));
            assert(extracted_coord_parents(s, dp).to_multiset().add(
                reduced_coord_parents(s, dp).to_multiset(),
            ) =~= s.map_values(f).to_multiset());
        }
    }
}

proof fn lemma_split_entries_partition(s: Seq<AnmEntryView>, dp: i16)
    ensures
        extracted_entries(s, dp).to_multiset().add(reduced_entries(s, dp).to_multiset())
            == s.map_values(|e: AnmEntryView| entry_image(e, dp)).to_multiset(),
    decreases s.len(),
{
    broadcast use vstd::seq_lib::group_to_multiset_ensures;

    let f = |e: AnmEntryView| entry_image(e, dp);
    if s.len() == 0 {
        assert(s.map_values(f) =~= Seq::<AnmEntryView>::empty());
        assert(extracted_entries(s, dp).to_multiset().add(reduced_entries(s, dp).to_multiset())
            =~= s.map_values(f).to_multiset());
    } else {
        let rest = s.drop_first();
        lemma_split_entries_partition(rest, dp);
        let img = entry_image(s.first(), dp);
        assert(s.map_values(f) =~= seq![img] + rest.map_values(f));
        lemma_multiset_commutative(seq![img], rest.map_values(f));
        assert(seq![img] =~= Seq::<AnmEntryView>::empty().push(img));
        if s.first().coord.clump_index == dp {
            lemma_multiset_commutative(seq![rebase_entry(s.first(), dp)], extracted_entries(rest, dp));
            assert(seq![rebase_entry(s.first(), dp)] =~= Seq::<AnmEntryView>::empty().push(
                rebase_entry(s.first(), dp),
            ));
            assert(extracted_entries(s, dp).to_multiset().add(reduced_entries(s, dp).to_multiset())
                =~= s.map_values(f).to_multiset());
        } else {
            lemma_multiset_commutative(seq![shift_entry(s.first(), dp)], reduced_entries(rest, dp));
            assert(seq![shift_entry(s.first(), dp)] =~= Seq::<AnmEntryView>::empty().push(
                shift_entry(s.first(), dp),
            ));
            assert(extracted_entries(s, dp).to_multiset().add(reduced_entries(s, dp).to_multiset())
                =~= s.map_values(f).to_multiset());
        }
    }
}

/// The skeleton split is a partition. For every clump, coordinate-parent
/// relation and entry of the pre-split clip, its consistently rebased
/// image appears in exactly one of the reduced and the extracted clip:
/// counting multiplicity, the two clips' lists together hold exactly the
/// images of the original lists, none lost and none duplicated.
pub proof fn lemma_split_partition(a: NuccAnmView, strm: NuccAnmStrmView)
    requires
        a.clumps.len() >= 1,
    ensures
        extracted_anm_spec(a, strm).clumps.to_multiset().add(
            reduced_anm_spec(a).clumps.to_multiset(),
        ) == a.clumps.map_values(
            |c: AnmClumpView| clump_image(c, a.clumps[dmg_clump_pos(a.clumps)].clump_index),
        ).to_multiset(),
        extracted_anm_spec(a, strm).coord_parents.to_multiset().add(
            reduced_anm_spec(a).coord_parents.to_multiset(),
        ) == a.coord_parents.map_values(
            |cp: CoordParent| coord_parent_image(cp, dmg_clump_pos(a.clumps) as i16),
        ).to_multiset(),
        extracted_anm_spec(a, strm).entries.to_multiset().add(
            reduced_anm_spec(a).entries.to_multiset(),
        ) == a.entries.map_values(
            |e: AnmEntryView| entry_image(e, dmg_clump_pos(a.clumps) as i16),
        ).to_multiset(),
        extracted_anm_spec(a, strm).clumps.len() + reduced_anm_spec(a).clumps.len()
            == a.clumps.len(),
        extracted_anm_spec(a, strm).coord_parents.len() + reduced_anm_spec(a).coord_parents.len()
            == a.coord_parents.len(),
        extracted_anm_spec(a, strm).entries.len() + reduced_anm_spec(a).entries.len()
            == a.entries.len(),
{
    broadcast use vstd::seq_lib::group_to_multiset_ensures;

    let d = dmg_clump_pos(a.clumps);
    let dmg_index = a.clumps[d].clump_index;
    let dp = d as i16;
    lemma_split_clumps_partition(a.clumps, dmg_index);
    lemma_split_coord_parents_partition(a.coord_parents, dp);
    lemma_split_entries_partition(a.entries, dp);
    lemma_sort_entries_multiset(extracted_entries(a.entries, dp));
    assert(extracted_anm_spec(a, strm).entries.to_multiset() == extracted_entries(
        a.entries,
        dp,
    ).to_multiset());
    crate::convert::lemma_sort_entries_len(extracted_entries(a.entries, dp));
    vstd::multiset::axiom_len_add(
        extracted_anm_spec(a, strm).clumps.to_multiset(),
        reduced_anm_spec(a).clumps.to_multiset(),
    );
    vstd::multiset::axiom_len_add(
        extracted_anm_spec(a, strm).coord_parents.to_multiset(),
        reduced_anm_spec(a).coord_parents.to_multiset(),
    );
    vstd::multiset::axiom_len_add(
        extracted_anm_spec(a, strm).entries.to_multiset(),
        reduced_anm_spec(a).entries.to_multiset(),
    );
}

} // verus!
