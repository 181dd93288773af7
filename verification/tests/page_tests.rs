use anmstrm2anm::build_page::{build_anm_page, build_dmg_page};
use anmstrm2anm::page::{replace_commas_in_strings, Chunk, ChunkReference, Files, Page};
use anmstrm2anm::strings::{str_contains, str_replace};

fn chunk(name: &str, types: &str, path: &str) -> Chunk {
    Chunk { name: name.to_string(), types: types.to_string(), path: path.to_string() }
}

fn sample_page() -> Page {
    Page {
        chunk_maps: vec![
            chunk("hero", "nuccChunkAnmStrm", "hero.max"),
            chunk("hero_f0", "nuccChunkAnmStrmFrame", "hero.max"),
            chunk("morph", "nuccChunkMorphModel", "hero.max"),
            chunk("1cmn_bone", "nuccChunkNull", "shared.max"),
            chunk("camera", "nuccChunkCamera", "hero.max"),
            chunk("page", "nuccChunkPage", "hero.max"),
        ],
        chunk_references: vec![
            ChunkReference { name: "1cmn_ref".to_string(), chunk: chunk("x", "nuccChunkNull", "p") },
            ChunkReference { name: "other_ref".to_string(), chunk: chunk("y", "nuccChunkNull", "p") },
        ],
        files: vec![
            Files { file_name: "hero.anmstrm".to_string(), chunk: chunk("hero", "nuccChunkAnmStrm", "hero.max") },
            Files { file_name: "hero_000.anmstrmframe".to_string(), chunk: chunk("f", "nuccChunkAnmStrmFrame", "p") },
            Files { file_name: "m.morphmodel".to_string(), chunk: chunk("m", "nuccChunkMorphModel", "p") },
            Files { file_name: "c.camera".to_string(), chunk: chunk("c", "nuccChunkCamera", "p") },
        ],
    }
}

#[test]
fn anm_page_filters_and_retypes() {
    let page = build_anm_page(sample_page());
    let types: Vec<&str> = page.chunk_maps.iter().map(|c| c.types.as_str()).collect();
    // Stream-frame and morph-model chunks are gone; the shared-material
    // chunk is gone; the stream chunk is retyped to the clip's tag.
    assert_eq!(types, vec!["nuccChunkAnm", "nuccChunkCamera", "nuccChunkPage"]);
    assert_eq!(page.chunk_maps[0].name, "hero");
    // References naming the shared material are dropped.
    assert_eq!(page.chunk_references.len(), 1);
    assert_eq!(page.chunk_references[0].name, "other_ref");
    // The stream file is renamed; frame and morph files are gone.
    let names: Vec<&str> = page.files.iter().map(|f| f.file_name.as_str()).collect();
    assert_eq!(names, vec!["hero.anm", "c.camera"]);
    assert_eq!(page.files[0].chunk.types, "nuccChunkAnm");
}

#[test]
fn dmg_page_keeps_shared_and_renames() {
    let page = build_dmg_page(sample_page());
    // Kept: the retyped stream chunk (now the damage clip) and the
    // chunks the damage clip still needs; the camera chunk is gone.
    let names: Vec<&str> = page.chunk_maps.iter().map(|c| c.name.as_str()).collect();
    assert_eq!(names, vec!["hero_dmg", "1cmn_bone", "page"]);
    assert_eq!(page.chunk_maps[0].types, "nuccChunkAnm");
    assert_eq!(page.chunk_maps[0].path, "hero_dmg.max");
    // Only the shared-material reference stays.
    assert_eq!(page.chunk_references.len(), 1);
    assert_eq!(page.chunk_references[0].name, "1cmn_ref");
    // The stream file becomes the damage clip file; scene files are gone.
    assert_eq!(page.files.len(), 1);
    assert_eq!(page.files[0].file_name, "hero_dmg.anm");
    assert_eq!(page.files[0].chunk.name, "hero_dmg");
    assert_eq!(page.files[0].chunk.path, "hero_dmg.max");
}

#[test]
fn commas_inside_quotes_are_stripped() {
    let cleaned = replace_commas_in_strings("{\"a,b\": 1, \"c\": \"d,e,f\"}");
    assert_eq!(cleaned, "{\"ab\": 1, \"c\": \"def\"}");
}

#[test]
fn unmatched_quote_leaves_tail_alone() {
    let cleaned = replace_commas_in_strings("x, \"a,b");
    assert_eq!(cleaned, "x, \"a,b");
}

#[test]
fn marker_triple_becomes_space() {
    let marker = format!("{}{}{}", '\u{ef}', '\u{bf}', '\u{bd}');
    let input = format!("a{}b", marker);
    assert_eq!(replace_commas_in_strings(&input), "a b");
}

#[test]
fn contains_and_replace_basics() {
    assert!(str_contains("hero.anmstrm", "anmstrm"));
    assert!(!str_contains("hero.anm", "anmstrm"));
    assert!(str_contains("abc", ""));
    assert_eq!(str_replace("a.max.max", ".max", "_dmg.max"), "a_dmg.max_dmg.max");
    assert_eq!(str_replace("hero.anmstrm", ".anmstrm", "_dmg.anm"), "hero_dmg.anm");
    assert_eq!(str_replace("aaa", "aa", "b"), "ba");
}
