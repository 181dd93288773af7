//! The metadata-page edits that accompany producing the clips: chunk
//! descriptors and files of the stream-only assets are dropped, the
//! stream's own chunk type is rewritten to the clip's type tag, and the
//! damage page additionally renames its chunks with the damage suffix
//! and keeps only the shared material.

use vstd::prelude::*;
use crate::page::{Chunk, ChunkReference, ChunkReferenceView, ChunkView, Files, FilesView, Page, PageView};
use crate::strings::{spec_contains, spec_replace, str_contains, str_replace};

verus! {

/// A chunk descriptor the converted page keeps: not a stream-frame and
/// not a morph-model chunk.
pub open spec fn anm_keep_map(c: ChunkView) -> bool {
    &&& !spec_contains(c.types, "nuccChunkMorphModel"@)
    &&& !spec_contains(c.types, "nuccChunkAnmStrmFrame"@)
    &&& !spec_contains(c.name, "1cmn"@)
}

/// The stream chunk's type tag rewritten to the clip's.
pub open spec fn anm_retype(c: ChunkView) -> ChunkView {
    if spec_contains(c.types, "nuccChunkAnmStrm"@) {
        ChunkView { name: c.name, types: "nuccChunkAnm"@, path: c.path }
    } else {
        c
    }
}

/// The converted page's chunk descriptors.
pub open spec fn anm_maps_spec(s: Seq<ChunkView>) -> Seq<ChunkView>
    decreases s.len(),
{
    if s.len() == 0 {
        Seq::empty()
    } else {
        let rest = anm_maps_spec(s.drop_first());
        if anm_keep_map(s.first()) {
            seq![anm_retype(s.first())] + rest
        } else {
            rest
        }
    }
}

/// The converted page's chunk references: those not naming the shared
/// material.
pub open spec fn anm_refs_spec(s: Seq<ChunkReferenceView>) -> Seq<ChunkReferenceView>
    decreases s.len(),
{
    if s.len() == 0 {
        Seq::empty()
    } else {
        let rest = anm_refs_spec(s.drop_first());
        if !spec_contains(s.first().name, "1cmn"@) {
            seq![s.first()] + rest
        } else {
            rest
        }
    }
}

/// A chunk file the converted page keeps.
pub open spec fn anm_keep_file(f: FilesView) -> bool {
    &&& !spec_contains(f.file_name, ".morphmodel"@)
    &&& !spec_contains(f.file_name, ".anmstrmframe"@)
}

/// The stream file renamed to its clip name and type.
pub open spec fn anm_refile(f: FilesView) -> FilesView {
    if spec_contains(f.file_name, "anmstrm"@) {
        FilesView {
            file_name: spec_replace(f.file_name, "anmstrm"@, "anm"@),
            chunk: ChunkView { name: f.chunk.name, types: "nuccChunkAnm"@, path: f.chunk.path },
        }
    } else {
        f
    }
}

/// The converted page's chunk files.
pub open spec fn anm_files_spec(s: Seq<FilesView>) -> Seq<FilesView>
    decreases s.len(),
{
    if s.len() == 0 {
        Seq::empty()
    } else {
        let rest = anm_files_spec(s.drop_first());
        if anm_keep_file(s.first()) {
            seq![anm_refile(s.first())] + rest
        } else {
            rest
        }
    }
}

/// What the converted page holds: stream-frame and morph-model chunks
/// and files dropped, shared-material chunks and references dropped, the
/// stream chunk and file retyped and renamed to the clip's.
pub open spec fn build_anm_page_spec(p: PageView) -> PageView {
    PageView {
        chunk_maps: anm_maps_spec(p.chunk_maps),
        chunk_references: anm_refs_spec(p.chunk_references),
        files: anm_files_spec(p.files),
    }
}

/// A chunk descriptor the damage page keeps in its first pass: none of
/// the stream-only or scene-only chunk kinds.
pub open spec fn dmg_keep_map(c: ChunkView) -> bool {
    &&& !spec_contains(c.types, "nuccChunkMorphModel"@)
    &&& !spec_contains(c.types, "nuccChunkAnmStrmFrame"@)
    &&& !spec_contains(c.types, "nuccChunkCamera"@)
    &&& !spec_contains(c.types, "nuccChunkLightDirc"@)
    &&& !spec_contains(c.types, "nuccChunkLightPoint"@)
    &&& !spec_contains(c.types, "nuccChunkAmbient"@)
    &&& !spec_contains(c.types, "nuccChunkLayerSet"@)
}

/// The stream chunk retyped and renamed with the damage suffix.
pub open spec fn dmg_retype(c: ChunkView) -> ChunkView {
    if spec_contains(c.types, "nuccChunkAnmStrm"@) {
        ChunkView {
            name: c.name + "_dmg"@,
            types: "nuccChunkAnm"@,
            path: spec_replace(c.path, ".max"@, "_dmg.max"@),
        }
    } else {
        c
    }
}

/// A retyped chunk descriptor the damage page finally keeps: shared
/// material, or one of the chunk kinds the damage clip still needs.
pub open spec fn dmg_keep_map_after(c: ChunkView) -> bool {
    &&& !spec_contains(c.types, "nuccChunkAnmStrmFrame"@)
    &&& {
        ||| spec_contains(c.name, "1cmn"@)
        ||| spec_contains(c.types, "nuccChunkNull"@)
        ||| spec_contains(c.types, "nuccChunkAnm"@)
        ||| spec_contains(c.types, "nuccChunkIndex"@)
        ||| spec_contains(c.types, "nuccChunkPage"@)
    }
}

/// The damage page's chunk descriptors.
pub open spec fn dmg_maps_spec(s: Seq<ChunkView>) -> Seq<ChunkView>
    decreases s.len(),
{
    if s.len() == 0 {
        Seq::empty()
    } else {
        let rest = dmg_maps_spec(s.drop_first());
        if dmg_keep_map(s.first()) && dmg_keep_map_after(dmg_retype(s.first())) {
            seq![dmg_retype(s.first())] + rest
        } else {
            rest
        }
    }
}

/// The damage page's chunk references: only those naming the shared
/// material.
pub open spec fn dmg_refs_spec(s: Seq<ChunkReferenceView>) -> Seq<ChunkReferenceView>
    decreases s.len(),
{
    if s.len() == 0 {
        Seq::empty()
    } else {
        let rest = dmg_refs_spec(s.drop_first());
        if spec_contains(s.first().name, "1cmn"@) {
            seq![s.first()] + rest
        } else {
            rest
        }
    }
}

/// A chunk file the damage page keeps.
pub open spec fn dmg_keep_file(f: FilesView) -> bool {
    &&& !spec_contains(f.file_name, ".morphmodel"@)
    &&& !spec_contains(f.file_name, ".anmstrmframe"@)
    &&& !spec_contains(f.file_name, ".camera"@)
    &&& !spec_contains(f.file_name, ".lightdirc"@)
    &&& !spec_contains(f.file_name, ".lightpoint"@)
    &&& !spec_contains(f.file_name, ".ambient"@)
    &&& !spec_contains(f.file_name, ".layerset"@)
}

/// The stream file renamed to the damage clip's name and type.
pub open spec fn dmg_refile(f: FilesView) -> FilesView {
    if spec_contains(f.file_name, "anmstrm"@) {
        FilesView {
            file_name: spec_replace(f.file_name, ".anmstrm"@, "_dmg.anm"@),
            chunk: ChunkView {
                name: f.chunk.name + "_dmg"@,
                types: "nuccChunkAnm"@,
                path: spec_replace(f.chunk.path, ".max"@, "_dmg.max"@),
            },
        }
    } else {
        f
    }
}

/// The damage page's chunk files.
pub open spec fn dmg_files_spec(s: Seq<FilesView>) -> Seq<FilesView>
    decreases s.len(),
{
    if s.len() == 0 {
        Seq::empty()
    } else {
        let rest = dmg_files_spec(s.drop_first());
        if dmg_keep_file(s.first()) {
            seq![dmg_refile(s.first())] + rest
        } else {
            rest
        }
    }
}

/// What the damage page holds: only the chunk kinds the damage clip
/// needs plus the shared material, the stream chunk and file renamed
/// with the damage suffix, and only the shared-material references.
pub open spec fn build_dmg_page_spec(p: PageView) -> PageView {
    PageView {
        chunk_maps: dmg_maps_spec(p.chunk_maps),
        chunk_references: dmg_refs_spec(p.chunk_references),
        files: dmg_files_spec(p.files),
    }
}

/// Build the converted page from the source page.
pub fn build_anm_page(page: Page) -> (r: Page)
    ensures
        r@ == build_anm_page_spec(page@),
{
    let Page { chunk_maps, chunk_references, files } = page;
    let ghost mv = chunk_maps@.map_values(|c: Chunk| c@);
    let mut rest_m = chunk_maps;
    let mut out_m: Vec<Chunk> = Vec::new();
    let ghost mut i: int = 0;
    proof {
        assert(mv.skip(0) =~= mv);
        assert(out_m@.map_values(|c: Chunk| c@) =~= Seq::<ChunkView>::empty());
        assert(Seq::<ChunkView>::empty() + anm_maps_spec(mv) =~= anm_maps_spec(mv));
    }
    while rest_m.len() > 0
        invariant
            0 <= i <= mv.len(),
            rest_m@.map_values(|c: Chunk| c@) == mv.skip(i),
            rest_m@.len() == mv.len() - i,
            anm_maps_spec(mv) == out_m@.map_values(|c: Chunk| c@) + anm_maps_spec(mv.skip(i)),
        decreases rest_m@.len(),
    {
        let ghost restv = rest_m@.map_values(|c: Chunk| c@);
        let c = rest_m.remove(0);
        proof {
            assert(restv[0] == c@);
            assert(c@ == mv.skip(i)[0]);
            assert(mv.skip(i)[0] == mv[i]);
            assert(rest_m@.map_values(|c: Chunk| c@) =~= mv.skip(i).drop_first());
            assert(mv.skip(i).drop_first() =~= mv.skip(i + 1));
        }
        let ghost outv = out_m@.map_values(|c: Chunk| c@);
        let keep = !str_contains(c.types.as_str(), "nuccChunkMorphModel") && !str_contains(
            c.types.as_str(),
            "nuccChunkAnmStrmFrame",
        ) && !str_contains(c.name.as_str(), "1cmn");
        if keep {
            let nc = if str_contains(c.types.as_str(), "nuccChunkAnmStrm") {
                Chunk { name: c.name, types: String::from_str("nuccChunkAnm"), path: c.path }
            } else {
                c
            };
            proof {
                assert(nc@ =~~= anm_retype(mv[i]));
            }
            out_m.push(nc);
            proof {
                assert(out_m@.map_values(|c: Chunk| c@) =~= outv.push(anm_retype(mv[i])));
                assert(outv.push(anm_retype(mv[i])) + anm_maps_spec(mv.skip(i + 1)) =~= outv + (
                seq![anm_retype(mv[i])] + anm_maps_spec(mv.skip(i + 1))));
            }
        }
        proof {
            i = i + 1;
        }
    }
    proof {
        assert(mv.skip(i) =~= Seq::<ChunkView>::empty());
        assert(anm_maps_spec(Seq::<ChunkView>::empty()) =~= Seq::<ChunkView>::empty());
        assert(out_m@.map_values(|c: Chunk| c@) + Seq::<ChunkView>::empty() =~= out_m@.map_values(
            |c: Chunk| c@,
        ));
    }
    let ghost rv = chunk_references@.map_values(|c: ChunkReference| c@);
    let mut rest_r = chunk_references;
    let mut out_r: Vec<ChunkReference> = Vec::new();
    let ghost mut j: int = 0;
    proof {
        assert(rv.skip(0) =~= rv);
        assert(out_r@.map_values(|c: ChunkReference| c@) =~= Seq::<ChunkReferenceView>::empty());
        assert(Seq::<ChunkReferenceView>::empty() + anm_refs_spec(rv) =~= anm_refs_spec(rv));
    }
    while rest_r.len() > 0
        invariant
            0 <= j <= rv.len(),
            rest_r@.map_values(|c: ChunkReference| c@) == rv.skip(j),
            rest_r@.len() == rv.len() - j,
            anm_refs_spec(rv) == out_r@.map_values(|c: ChunkReference| c@) + anm_refs_spec(
                rv.skip(j),
            ),
        decreases rest_r@.len(),
    {
        let ghost restv = rest_r@.map_values(|c: ChunkReference| c@);
        let c = rest_r.remove(0);
        proof {
            assert(restv[0] == c@);
            assert(c@ == rv.skip(j)[0]);
            assert(rv.skip(j)[0] == rv[j]);
            assert(rest_r@.map_values(|c: ChunkReference| c@) =~= rv.skip(j).drop_first());
            assert(rv.skip(j).drop_first() =~= rv.skip(j + 1));
        }
        let ghost outv = out_r@.map_values(|c: ChunkReference| c@);
        if !str_contains(c.name.as_str(), "1cmn") {
            out_r.push(c);
            proof {
                assert(out_r@.map_values(|c: ChunkReference| c@) =~= outv.push(rv[j]));
                assert(outv.push(rv[j]) + anm_refs_spec(rv.skip(j + 1)) =~= outv + (seq![rv[j]]
                    + anm_refs_spec(rv.skip(j + 1))));
            }
        }
        proof {
            j = j + 1;
        }
    }
    proof {
        assert(rv.skip(j) =~= Seq::<ChunkReferenceView>::empty());
        assert(anm_refs_spec(Seq::<ChunkReferenceView>::empty())
            =~= Seq::<ChunkReferenceView>::empty());
        assert(out_r@.map_values(|c: ChunkReference| c@) + Seq::<ChunkReferenceView>::empty()
            =~= out_r@.map_values(|c: ChunkReference| c@));
    }
    let ghost fv = files@.map_values(|f: Files| f@);
    let mut rest_f = files;
    let mut out_f: Vec<Files> = Vec::new();
    let ghost mut k: int = 0;
    proof {
        assert(fv.skip(0) =~= fv);
        assert(out_f@.map_values(|f: Files| f@) =~= Seq::<FilesView>::empty());
        assert(Seq::<FilesView>::empty() + anm_files_spec(fv) =~= anm_files_spec(fv));
    }
    while rest_f.len() > 0
        invariant
            0 <= k <= fv.len(),
            rest_f@.map_values(|f: Files| f@) == fv.skip(k),
            rest_f@.len() == fv.len() - k,
            anm_files_spec(fv) == out_f@.map_values(|f: Files| f@) + anm_files_spec(fv.skip(k)),
        decreases rest_f@.len(),
    {
        let ghost restv = rest_f@.map_values(|f: Files| f@);
        let f = rest_f.remove(0);
        proof {
            assert(restv[0] == f@);
            assert(f@ == fv.skip(k)[0]);
            assert(fv.skip(k)[0] == fv[k]);
            assert(rest_f@.map_values(|f: Files| f@) =~= fv.skip(k).drop_first());
            assert(fv.skip(k).drop_first() =~= fv.skip(k + 1));
        }
        let ghost outv = out_f@.map_values(|f: Files| f@);
        let keep = !str_contains(f.file_name.as_str(), ".morphmodel") && !str_contains(
            f.file_name.as_str(),
            ".anmstrmframe",
        );
        if keep {
            let nf = if str_contains(f.file_name.as_str(), "anmstrm") {
                proof {
                    reveal_strlit("anmstrm");
                }
                Files {
                    file_name: str_replace(f.file_name.as_str(), "anmstrm", "anm"),
                    chunk: Chunk {
                        name: f.chunk.name,
                        types: String::from_str("nuccChunkAnm"),
                        path: f.chunk.path,
                    },
                }
            } else {
                f
            };
            proof {
                assert(nf@ =~~= anm_refile(fv[k]));
            }
            out_f.push(nf);
            proof {
                assert(out_f@.map_values(|f: Files| f@) =~= outv.push(anm_refile(fv[k])));
                assert(outv.push(anm_refile(fv[k])) + anm_files_spec(fv.skip(k + 1)) =~= outv + (
                seq![anm_refile(fv[k])] + anm_files_spec(fv.skip(k + 1))));
            }
        }
        proof {
            k = k + 1;
        }
    }
    proof {
        assert(fv.skip(k) =~= Seq::<FilesView>::empty());
        assert(anm_files_spec(Seq::<FilesView>::empty()) =~= Seq::<FilesView>::empty());
        assert(out_f@.map_values(|f: Files| f@) + Seq::<FilesView>::empty() =~= out_f@.map_values(
            |f: Files| f@,
        ));
    }
    let r = Page { chunk_maps: out_m, chunk_references: out_r, files: out_f };
    proof {
        assert(r@ =~~= build_anm_page_spec(
            PageView { chunk_maps: mv, chunk_references: rv, files: fv },
        ));
    }
    r
}

/// Build the damage page from the source page.
pub fn build_dmg_page(page: Page) -> (r: Page)
    ensures
        r@ == build_dmg_page_spec(page@),
{
    let Page { chunk_maps, chunk_references, files } = page;
    let ghost mv = chunk_maps@.map_values(|c: Chunk| c@);
    let mut rest_m = chunk_maps;
    let mut out_m: Vec<Chunk> = Vec::new();
    let ghost mut i: int = 0;
    proof {
        assert(mv.skip(0) =~= mv);
        assert(out_m@.map_values(|c: Chunk| c@) =~= Seq::<ChunkView>::empty());
        assert(Seq::<ChunkView>::empty() + dmg_maps_spec(mv) =~= dmg_maps_spec(mv));
    }
    while rest_m.len() > 0
        invariant
            0 <= i <= mv.len(),
            rest_m@.map_values(|c: Chunk| c@) == mv.skip(i),
            rest_m@.len() == mv.len() - i,
            dmg_maps_spec(mv) == out_m@.map_values(|c: Chunk| c@) + dmg_maps_spec(mv.skip(i)),
        decreases rest_m@.len(),
    {
        let ghost restv = rest_m@.map_values(|c: Chunk| c@);
        let c = rest_m.remove(0);
        proof {
            assert(restv[0] == c@);
            assert(c@ == mv.skip(i)[0]);
            assert(mv.skip(i)[0] == mv[i]);
            assert(rest_m@.map_values(|c: Chunk| c@) =~= mv.skip(i).drop_first());
            assert(mv.skip(i).drop_first() =~= mv.skip(i + 1));
        }
        let ghost outv = out_m@.map_values(|c: Chunk| c@);
        let keep = !str_contains(c.types.as_str(), "nuccChunkMorphModel") && !str_contains(
            c.types.as_str(),
            "nuccChunkAnmStrmFrame",
        ) && !str_contains(c.types.as_str(), "nuccChunkCamera") && !str_contains(
            c.types.as_str(),
            "nuccChunkLightDirc",
        ) && !str_contains(c.types.as_str(), "nuccChunkLightPoint") && !str_contains(
            c.types.as_str(),
            "nuccChunkAmbient",
        ) && !str_contains(c.types.as_str(), "nuccChunkLayerSet");
        if keep {
            let nc = if str_contains(c.types.as_str(), "nuccChunkAnmStrm") {
                proof {
                    reveal_strlit(".max");
                }
                Chunk {
                    name: c.name.concat("_dmg"),
                    types: String::from_str("nuccChunkAnm"),
                    path: str_replace(c.path.as_str(), ".max", "_dmg.max"),
                }
            } else {
                c
            };
            proof {
                assert(nc@ =~~= dmg_retype(mv[i]));
            }
            let keep2 = !str_contains(nc.types.as_str(), "nuccChunkAnmStrmFrame") && (str_contains(
                nc.name.as_str(),
                "1cmn",
            ) || str_contains(nc.types.as_str(), "nuccChunkNull") || str_contains(
                nc.types.as_str(),
                "nuccChunkAnm",
            ) || str_contains(nc.types.as_str(), "nuccChunkIndex") || str_contains(
                nc.types.as_str(),
                "nuccChunkPage",
            ));
            if keep2 {
                out_m.push(nc);
                proof {
                    assert(out_m@.map_values(|c: Chunk| c@) =~= outv.push(dmg_retype(mv[i])));
                    assert(outv.push(dmg_retype(mv[i])) + dmg_maps_spec(mv.skip(i + 1)) =~= outv
                        + (seq![dmg_retype(mv[i])] + dmg_maps_spec(mv.skip(i + 1))));
                }
            }
        }
        proof {
            i = i + 1;
        }
    }
    proof {
        assert(mv.skip(i) =~= Seq::<ChunkView>::empty());
        assert(dmg_maps_spec(Seq::<ChunkView>::empty()) =~= Seq::<ChunkView>::empty());
        assert(out_m@.map_values(|c: Chunk| c@) + Seq::<ChunkView>::empty() =~= out_m@.map_values(
            |c: Chunk| c@,
        ));
    }
    let ghost rv = chunk_references@.map_values(|c: ChunkReference| c@);
    let mut rest_r = chunk_references;
    let mut out_r: Vec<ChunkReference> = Vec::new();
    let ghost mut j: int = 0;
    proof {
        assert(rv.skip(0) =~= rv);
        assert(out_r@.map_values(|c: ChunkReference| c@) =~= Seq::<ChunkReferenceView>::empty());
        assert(Seq::<ChunkReferenceView>::empty() + dmg_refs_spec(rv) =~= dmg_refs_spec(rv));
    }
    while rest_r.len() > 0
        invariant
            0 <= j <= rv.len(),
            rest_r@.map_values(|c: ChunkReference| c@) == rv.skip(j),
            rest_r@.len() == rv.len() - j,
            dmg_refs_spec(rv) == out_r@.map_values(|c: ChunkReference| c@) + dmg_refs_spec(
                rv.skip(j),
            ),
        decreases rest_r@.len(),
    {
        let ghost restv = rest_r@.map_values(|c: ChunkReference| c@);
        let c = rest_r.remove(0);
        proof {
            assert(restv[0] == c@);
            assert(c@ == rv.skip(j)[0]);
            assert(rv.skip(j)[0] == rv[j]);
            assert(rest_r@.map_values(|c: ChunkReference| c@) =~= rv.skip(j).drop_first());
            assert(rv.skip(j).drop_first() =~= rv.skip(j + 1));
        }
        let ghost outv = out_r@.map_values(|c: ChunkReference| c@);
        if str_contains(c.name.as_str(), "1cmn") {
            out_r.push(c);
            proof {
                assert(out_r@.map_values(|c: ChunkReference| c@) =~= outv.push(rv[j]));
                assert(outv.push(rv[j]) + dmg_refs_spec(rv.skip(j + 1)) =~= outv + (seq![rv[j]]
                    + dmg_refs_spec(rv.skip(j + 1))));
            }
        }
        proof {
            j = j + 1;
        }
    }
    proof {
        assert(rv.skip(j) =~= Seq::<ChunkReferenceView>::empty());
        assert(dmg_refs_spec(Seq::<ChunkReferenceView>::empty())
            =~= Seq::<ChunkReferenceView>::empty());
        assert(out_r@.map_values(|c: ChunkReference| c@) + Seq::<ChunkReferenceView>::empty()
            =~= out_r@.map_values(|c: ChunkReference| c@));
    }
    let ghost fv = files@.map_values(|f: Files| f@);
    let mut rest_f = files;
    let mut out_f: Vec<Files> = Vec::new();
    let ghost mut k: int = 0;
    proof {
        assert(fv.skip(0) =~= fv);
        assert(out_f@.map_values(|f: Files| f@) =~= Seq::<FilesView>::empty());
        assert(Seq::<FilesView>::empty() + dmg_files_spec(fv) =~= dmg_files_spec(fv));
    }
    while rest_f.len() > 0
        invariant
            0 <= k <= fv.len(),
            rest_f@.map_values(|f: Files| f@) == fv.skip(k),
            rest_f@.len() == fv.len() - k,
            dmg_files_spec(fv) == out_f@.map_values(|f: Files| f@) + dmg_files_spec(fv.skip(k)),
        decreases rest_f@.len(),
    {
        let ghost restv = rest_f@.map_values(|f: Files| f@);
        let f = rest_f.remove(0);
        proof {
            assert(restv[0] == f@);
            assert(f@ == fv.skip(k)[0]);
            assert(fv.skip(k)[0] == fv[k]);
            assert(rest_f@.map_values(|f: Files| f@) =~= fv.skip(k).drop_first());
            assert(fv.skip(k).drop_first() =~= fv.skip(k + 1));
        }
        let ghost outv = out_f@.map_values(|f: Files| f@);
        let keep = !str_contains(f.file_name.as_str(), ".morphmodel") && !str_contains(
            f.file_name.as_str(),
            ".anmstrmframe",
        ) && !str_contains(f.file_name.as_str(), ".camera") && !str_contains(
            f.file_name.as_str(),
            ".lightdirc",
        ) && !str_contains(f.file_name.as_str(), ".lightpoint") && !str_contains(
            f.file_name.as_str(),
            ".ambient",
        ) && !str_contains(f.file_name.as_str(), ".layerset");
        if keep {
            let nf = if str_contains(f.file_name.as_str(), "anmstrm") {
                proof {
                    reveal_strlit(".anmstrm");
                    reveal_strlit(".max");
                }
                Files {
                    file_name: str_replace(f.file_name.as_str(), ".anmstrm", "_dmg.anm"),
                    chunk: Chunk {
                        name: f.chunk.name.concat("_dmg"),
                        types: String::from_str("nuccChunkAnm"),
                        path: str_replace(f.chunk.path.as_str(), ".max", "_dmg.max"),
                    },
                }
            } else {
                f
            };
            proof {
                assert(nf@ =~~= dmg_refile(fv[k]));
            }
            out_f.push(nf);
            proof {
                assert(out_f@.map_values(|f: Files| f@) =~= outv.push(dmg_refile(fv[k])));
                assert(outv.push(dmg_refile(fv[k])) + dmg_files_spec(fv.skip(k + 1)) =~= outv + (
                seq![dmg_refile(fv[k])] + dmg_files_spec(fv.skip(k + 1))));
            }
        }
        proof {
            k = k + 1;
        }
    }
    proof {
        assert(fv.skip(k) =~= Seq::<FilesView>::empty());
        assert(dmg_files_spec(Seq::<FilesView>::empty()) =~= Seq::<FilesView>::empty());
        assert(out_f@.map_values(|f: Files| f@) + Seq::<FilesView>::empty() =~= out_f@.map_values(
            |f: Files| f@,
        ));
    }
    let r = Page { chunk_maps: out_m, chunk_references: out_r, files: out_f };
    proof {
        assert(r@ =~~= build_dmg_page_spec(
            PageView { chunk_maps: mv, chunk_references: rv, files: fv },
        ));
    }
    r
}

} // verus!
