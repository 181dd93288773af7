//! Frame aggregator: regroups per-frame snapshots into per-object time
//! series, keyed by the stable object slot index of the first frame.
//! A pure regrouping step: no numeric transformation, snapshot order
//! preserved.

use vstd::prelude::*;
use crate::anmstrm::{AnmStrmEntry, AnmStrmEntryView, Entry, NuccAnmStrmFrame, NuccAnmStrmFrameView};

verus! {

/// Mathematical model of a snapshot list.
pub open spec fn frames_view(v: Vec<NuccAnmStrmFrame>) -> Seq<NuccAnmStrmFrameView> {
    v@.map_values(|f: NuccAnmStrmFrame| f@)
}

/// The time series of one object slot: that slot's entry from every
/// snapshot that reaches it, in snapshot order, with morph-model and
/// unrecognized entries dropped.
pub open spec fn slot_series(frames: Seq<NuccAnmStrmFrameView>, slot: int) -> Seq<
    AnmStrmEntryView,
>
    decreases frames.len(),
{
    if frames.len() == 0 {
        Seq::empty()
    } else {
        let head = frames.first();
        let rest = slot_series(frames.drop_first(), slot);
        if 0 <= slot < head.entries.len() && head.entries[slot].entry_data.is_aggregated() {
            seq![head.entries[slot]] + rest
        } else {
            rest
        }
    }
}

/// The aggregated slot map from `slot` up to `n`: one pair per slot with
/// a non-empty series, in slot order.
pub open spec fn entries_map_from(
    frames: Seq<NuccAnmStrmFrameView>,
    slot: int,
    n: int,
) -> Seq<(u16, Seq<AnmStrmEntryView>)>
    decreases n - slot,
{
    if slot < 0 || slot >= n {
        Seq::empty()
    } else {
        let rest = entries_map_from(frames, slot + 1, n);
        if slot_series(frames, slot).len() > 0 {
            seq![(slot as u16, slot_series(frames, slot))] + rest
        } else {
            rest
        }
    }
}

/// Number of object slots: the first snapshot's entry count, or 0 with
/// no snapshots.
pub open spec fn slot_count(frames: Seq<NuccAnmStrmFrameView>) -> int {
    if frames.len() == 0 {
        0
    } else {
        frames.first().entries.len() as int
    }
}

/// The aggregated slot map of a snapshot list: for every slot of the
/// first snapshot whose series is non-empty, the pair of the slot index
/// and its series, in slot order.
pub open spec fn entries_map_spec(frames: Seq<NuccAnmStrmFrameView>) -> Seq<
    (u16, Seq<AnmStrmEntryView>),
> {
    entries_map_from(frames, 0, slot_count(frames))
}

/// No snapshot holds more entries than the first one; the count of the
/// first fits the u16 slot key.
pub open spec fn frames_shape_ok(frames: Seq<NuccAnmStrmFrameView>) -> bool {
    &&& forall|j: int|
        0 <= j < frames.len() ==> (#[trigger] frames[j].entries).len() <= slot_count(frames)
    &&& slot_count(frames) <= 0xFFFF
}

/// Every entry of a slot series was kept by the aggregator.
pub proof fn lemma_slot_series_aggregated(frames: Seq<NuccAnmStrmFrameView>, slot: int)
    ensures
        forall|i: int|
            0 <= i < slot_series(frames, slot).len() ==> (#[trigger] slot_series(
                frames,
                slot,
            )[i]).entry_data.is_aggregated(),
        slot_series(frames, slot).len() <= frames.len(),
    decreases frames.len(),
{
    if frames.len() == 0 {
    } else {
        lemma_slot_series_aggregated(frames.drop_first(), slot);
    }
}

/// Every pair of the aggregated map holds a non-empty series that is
/// exactly its slot's series.
pub proof fn lemma_entries_map_from_props(frames: Seq<NuccAnmStrmFrameView>, slot: int, n: int)
    requires
        n <= 0x10000,
    ensures
        forall|k: int|
            0 <= k < entries_map_from(frames, slot, n).len() ==> {
                let p = #[trigger] entries_map_from(frames, slot, n)[k];
                &&& p.1 == slot_series(frames, p.0 as int)
                &&& p.1.len() > 0
                &&& slot <= p.0 < n
            },
    decreases n - slot,
{
    if slot < 0 || slot >= n {
    } else {
        lemma_entries_map_from_props(frames, slot + 1, n);
        let rest = entries_map_from(frames, slot + 1, n);
        assert forall|k: int| 0 <= k < entries_map_from(frames, slot, n).len() implies {
            let p = #[trigger] entries_map_from(frames, slot, n)[k];
            &&& p.1 == slot_series(frames, p.0 as int)
            &&& p.1.len() > 0
            &&& slot <= p.0 < n
        } by {
            if slot_series(frames, slot).len() > 0 {
                if k == 0 {
                    assert(entries_map_from(frames, slot, n)[0] == (
                        slot as u16,
                        slot_series(frames, slot),
                    ));
                } else {
                    assert(entries_map_from(frames, slot, n)[k] == rest[k - 1]);
                }
            } else {
                assert(entries_map_from(frames, slot, n)[k] == rest[k]);
            }
        }
    }
}


/// The aggregated map holds at most one pair per slot.
pub proof fn lemma_entries_map_from_len(frames: Seq<NuccAnmStrmFrameView>, slot: int, n: int)
    ensures
        entries_map_from(frames, slot, n).len() <= (if n - slot >= 0 {
            n - slot
        } else {
            0
        }),
    decreases n - slot,
{
    if slot < 0 || slot >= n {
    } else {
        lemma_entries_map_from_len(frames, slot + 1, n);
    }
}

/// Copy one entry payload where the aggregator keeps its kind.
fn copy_entry_data(e: &Entry) -> (r: Option<Entry>)
    ensures
        match r {
            Some(x) => x@ == e@ && e@.is_aggregated(),
            None => !e@.is_aggregated(),
        },
{
    match e {
        Entry::Bone(b) => Some(Entry::Bone(*b)),
        Entry::Camera(b) => Some(Entry::Camera(*b)),
        Entry::Material(b) => Some(Entry::Material(*b)),
        Entry::LightDirc(b) => Some(Entry::LightDirc(*b)),
        Entry::LightPoint(b) => Some(Entry::LightPoint(*b)),
        Entry::Ambient(b) => Some(Entry::Ambient(*b)),
        _ => None,
    }
}

/// Collect one slot's series from every snapshot, in snapshot order.
fn collect_slot(frames: &Vec<NuccAnmStrmFrame>, slot: usize) -> (r: Vec<AnmStrmEntry>)
    ensures
        r@.map_values(|e: AnmStrmEntry| e@) == slot_series(frames_view(*frames), slot as int),
{
    let ghost fv = frames_view(*frames);
    let mut out: Vec<AnmStrmEntry> = Vec::new();
    let mut j: usize = 0;
    proof {
        assert(fv.skip(0) =~= fv);
        assert(out@.map_values(|e: AnmStrmEntry| e@) =~= Seq::<AnmStrmEntryView>::empty());
        assert(Seq::<AnmStrmEntryView>::empty() + slot_series(fv, slot as int) =~= slot_series(
            fv,
            slot as int,
        ));
    }
    while j < frames.len()
        invariant
            j <= fv.len(),
            fv == frames_view(*frames),
            fv.len() == frames@.len(),
            slot_series(fv, slot as int) == out@.map_values(|e: AnmStrmEntry| e@) + slot_series(
                fv.skip(j as int),
                slot as int,
            ),
        decreases fv.len() - j,
    {
        let frame = &frames[j];
        proof {
            assert(fv[j as int] == frames@[j as int]@);
            assert(fv.skip(j as int).first() == fv[j as int]);
            assert(fv.skip(j as int).drop_first() =~= fv.skip(j as int + 1));
        }
        let ghost outv = out@.map_values(|e: AnmStrmEntry| e@);
        if slot < frame.entries.len() {
            let ent = &frame.entries[slot];
            proof {
                assert(fv[j as int].entries[slot as int] == frame.entries@[slot as int]@);
            }
            match copy_entry_data(&ent.entry_data) {
                Some(data) => {
                    let copied = AnmStrmEntry {
                        coord: ent.coord,
                        entry_format: ent.entry_format,
                        entry_size: ent.entry_size,
                        entry_data: data,
                    };
                    proof {
                        assert(copied@ =~~= fv[j as int].entries[slot as int]);
                    }
                    out.push(copied);
                    proof {
                        assert(out@.map_values(|e: AnmStrmEntry| e@) =~= outv.push(
                            fv[j as int].entries[slot as int],
                        ));
                        assert(outv.push(fv[j as int].entries[slot as int]) + slot_series(
                            fv.skip(j as int + 1),
                            slot as int,
                        ) =~= outv + (seq![fv[j as int].entries[slot as int]] + slot_series(
                            fv.skip(j as int + 1),
                            slot as int,
                        )));
                    }
                },
                None => {},
            }
        }
        j += 1;
    }
    proof {
        assert(fv.skip(fv.len() as int) =~= Seq::<NuccAnmStrmFrameView>::empty());
        assert(out@.map_values(|e: AnmStrmEntry| e@) + Seq::<AnmStrmEntryView>::empty()
            =~= out@.map_values(|e: AnmStrmEntry| e@));
    }
    out
}

/// Build the per-slot series lists for every slot of the first snapshot,
/// empty series included.
pub fn build_entries_from_frames(frames: &Vec<NuccAnmStrmFrame>) -> (r: Vec<Vec<AnmStrmEntry>>)
    ensures
        r@.len() == slot_count(frames_view(*frames)),
        forall|s: int|
            0 <= s < r@.len() ==> (#[trigger] r@[s])@.map_values(|e: AnmStrmEntry| e@)
                == slot_series(frames_view(*frames), s),
{
    let entry_count = if frames.len() == 0 {
        0
    } else {
        frames[0].entries.len()
    };
    proof {
        if frames@.len() > 0 {
            assert(frames_view(*frames)[0] == frames@[0]@);
        }
    }
    let mut out: Vec<Vec<AnmStrmEntry>> = Vec::new();
    let mut s: usize = 0;
    while s < entry_count
        invariant
            s <= entry_count,
            entry_count == slot_count(frames_view(*frames)),
            out@.len() == s,
            forall|k: int|
                0 <= k < s ==> (#[trigger] out@[k])@.map_values(|e: AnmStrmEntry| e@)
                    == slot_series(frames_view(*frames), k),
        decreases entry_count - s,
    {
        let series = collect_slot(frames, s);
        out.push(series);
        s += 1;
    }
    out
}

/// Build the aggregated slot map: one pair per slot of the first
/// snapshot whose series is non-empty, in slot order, keyed by the slot
/// index.
pub fn build_anmstrm_entries_map(frames: &Vec<NuccAnmStrmFrame>) -> (r: Vec<
    (u16, Vec<AnmStrmEntry>),
>)
    requires
        slot_count(frames_view(*frames)) <= 0xFFFF,
    ensures
        r@.len() == entries_map_spec(frames_view(*frames)).len(),
        forall|k: int|
            0 <= k < r@.len() ==> {
                let p = #[trigger] r@[k];
                let q = entries_map_spec(frames_view(*frames))[k];
                p.0 == q.0 && p.1@.map_values(|e: AnmStrmEntry| e@) == q.1
            },
{
    let ghost fv = frames_view(*frames);
    let ghost n = slot_count(fv);
    let series_lists = build_entries_from_frames(frames);
    let mut out: Vec<(u16, Vec<AnmStrmEntry>)> = Vec::new();
    let mut s: usize = 0;
    proof {
        assert(out@.map_values(|p: (u16, Vec<AnmStrmEntry>)| (p.0, p.1@.map_values(
            |e: AnmStrmEntry| e@,
        ))) =~= Seq::<(u16, Seq<AnmStrmEntryView>)>::empty());
        assert(Seq::<(u16, Seq<AnmStrmEntryView>)>::empty() + entries_map_from(fv, 0, n)
            =~= entries_map_from(fv, 0, n));
    }
    let mut rest = series_lists;
    while rest.len() > 0
        invariant
            s + rest@.len() == n,
            s <= n <= 0xFFFF,
            n == slot_count(fv),
            fv == frames_view(*frames),
            forall|k: int|
                0 <= k < rest@.len() ==> (#[trigger] rest@[k])@.map_values(|e: AnmStrmEntry| e@)
                    == slot_series(fv, s + k),
            entries_map_from(fv, 0, n) == out@.map_values(
                |p: (u16, Vec<AnmStrmEntry>)| (p.0, p.1@.map_values(|e: AnmStrmEntry| e@)),
            ) + entries_map_from(fv, s as int, n),
        decreases rest@.len(),
    {
        let ghost outv = out@.map_values(
            |p: (u16, Vec<AnmStrmEntry>)| (p.0, p.1@.map_values(|e: AnmStrmEntry| e@)),
        );
        let ghost restv = rest@;
        let series = rest.remove(0);
        proof {
            assert(series == restv[0]);
            assert(series@.map_values(|e: AnmStrmEntry| e@) == slot_series(fv, s as int));
            assert forall|k: int| 0 <= k < rest@.len() implies (#[trigger] rest@[k])@.map_values(
                |e: AnmStrmEntry| e@,
            ) == slot_series(fv, s as int + 1 + k) by {
                assert(rest@[k] == restv[k + 1]);
            }
        }
        if series.len() > 0 {
            out.push((s as u16, series));
            proof {
                assert(out@.map_values(
                    |p: (u16, Vec<AnmStrmEntry>)| (p.0, p.1@.map_values(|e: AnmStrmEntry| e@)),
                ) =~= outv.push((s as u16, slot_series(fv, s as int))));
                assert(outv.push((s as u16, slot_series(fv, s as int))) + entries_map_from(
                    fv,
                    s as int + 1,
                    n,
                ) =~= outv + (seq![(s as u16, slot_series(fv, s as int))] + entries_map_from(
                    fv,
                    s as int + 1,
                    n,
                )));
            }
        } else {
            proof {
                assert(slot_series(fv, s as int).len() == 0);
            }
        }
        s += 1;
    }
    proof {
        assert(entries_map_from(fv, n, n) =~= Seq::<(u16, Seq<AnmStrmEntryView>)>::empty());
        assert(out@.map_values(
            |p: (u16, Vec<AnmStrmEntry>)| (p.0, p.1@.map_values(|e: AnmStrmEntry| e@)),
        ) + Seq::<(u16, Seq<AnmStrmEntryView>)>::empty() =~= out@.map_values(
            |p: (u16, Vec<AnmStrmEntry>)| (p.0, p.1@.map_values(|e: AnmStrmEntry| e@)),
        ));
    }
    out
}

} // verus!
