use wake_word::assets::{
    pv_keyword_paths, pv_model_paths, resolve_keyword_paths, resolve_model_path, session_assets,
    AssetEntry, ResolveError,
};
use wake_word::keywords::Keywords;

fn entry(name: &str, path: &str) -> AssetEntry {
    AssetEntry { name: name.to_string(), path: path.to_string() }
}

#[test]
fn keyword_paths_follow_requested_order() {
    let listing = vec![
        entry("other_de_linux.ppn", "/kw/other_de_linux.ppn"),
        entry("position_de_linux.ppn", "/kw/position_de_linux.ppn"),
    ];
    let keywords = vec![Keywords::Position];
    let r = resolve_keyword_paths("de", "linux", &keywords, Some(&listing));
    assert_eq!(r, Ok(vec!["/kw/position_de_linux.ppn".to_string()]));
}

#[test]
fn missing_keyword_fails_without_partial_list() {
    let listing = vec![entry("other_de_linux.ppn", "/kw/other_de_linux.ppn")];
    let keywords = vec![Keywords::Position];
    let r = resolve_keyword_paths("de", "linux", &keywords, Some(&listing));
    match r {
        Err(ResolveError::KeywordAssetMissing { keyword, scan_empty }) => {
            assert_eq!(keyword, "position");
            assert!(!scan_empty);
        }
        other => panic!("expected a missing-keyword failure, got {:?}", other.is_ok()),
    }
}

#[test]
fn missing_keyword_in_empty_scan_is_distinguishable() {
    let listing: Vec<AssetEntry> = Vec::new();
    let keywords = vec![Keywords::Position];
    let r = resolve_keyword_paths("de", "linux", &keywords, Some(&listing));
    match r {
        Err(ResolveError::KeywordAssetMissing { keyword, scan_empty }) => {
            assert_eq!(keyword, "position");
            assert!(scan_empty);
        }
        other => panic!("expected a missing-keyword failure, got {:?}", other.is_ok()),
    }
}

#[test]
fn absent_directory_is_its_own_error() {
    let keywords = vec![Keywords::Position];
    let r = resolve_keyword_paths("de", "linux", &keywords, None);
    assert!(matches!(r, Err(ResolveError::AssetDirectoryNotFound)));
}

#[test]
fn file_for_other_language_or_platform_does_not_match() {
    let listing = vec![
        entry("position_fr_linux.ppn", "/kw/position_fr_linux.ppn"),
        entry("position_de_mac.ppn", "/kw/position_de_mac.ppn"),
    ];
    let keywords = vec![Keywords::Position];
    let r = resolve_keyword_paths("de", "linux", &keywords, Some(&listing));
    assert!(matches!(r, Err(ResolveError::KeywordAssetMissing { .. })));
}

#[test]
fn degenerate_name_no_longer_than_pattern_does_not_match() {
    // The file name is exactly the pattern, with no keyword in front.
    let listing = vec![entry("_de_linux.ppn", "/kw/_de_linux.ppn")];
    let m = pv_keyword_paths("de", "linux", &listing);
    assert!(m.entries.is_empty());
}

#[test]
fn last_matching_file_wins_on_equal_keywords() {
    let listing = vec![
        entry("position_de_linux.ppn", "/first/position_de_linux.ppn"),
        entry("position_de_linux.ppn", "/second/position_de_linux.ppn"),
    ];
    let keywords = vec![Keywords::Position];
    let r = resolve_keyword_paths("de", "linux", &keywords, Some(&listing));
    assert_eq!(r, Ok(vec!["/second/position_de_linux.ppn".to_string()]));
}

#[test]
fn model_path_present_for_language() {
    let listing = vec![
        entry("porcupine_params_de.pv", "/model/porcupine_params_de.pv"),
        entry("porcupine_params_fr.pv", "/model/porcupine_params_fr.pv"),
    ];
    let r = resolve_model_path("de", &listing);
    assert_eq!(r, Some("/model/porcupine_params_de.pv".to_string()));
}

#[test]
fn absent_language_model_is_no_model_not_an_error() {
    let listing = vec![entry("porcupine_params_fr.pv", "/model/porcupine_params_fr.pv")];
    let r = resolve_model_path("de", &listing);
    assert_eq!(r, None);
}

#[test]
fn model_language_is_after_last_separator_before_extension() {
    let listing = vec![entry("a_b_zh.pv", "/model/a_b_zh.pv")];
    let m = pv_model_paths(&listing);
    assert_eq!(m.get("zh"), Some(&"/model/a_b_zh.pv".to_string()));
    assert_eq!(m.get("b_zh"), None);
}

#[test]
fn resolving_twice_with_unchanged_listing_is_identical() {
    let listing = vec![
        entry("position_de_linux.ppn", "/kw/position_de_linux.ppn"),
        entry("other_de_linux.ppn", "/kw/other_de_linux.ppn"),
    ];
    let first = pv_keyword_paths("de", "linux", &listing);
    let second = pv_keyword_paths("de", "linux", &listing);
    assert_eq!(first.entries, second.entries);

    let models = vec![entry("porcupine_params_de.pv", "/model/porcupine_params_de.pv")];
    assert_eq!(pv_model_paths(&models).entries, pv_model_paths(&models).entries);

    let keywords = vec![Keywords::Position];
    let once = resolve_keyword_paths("de", "linux", &keywords, Some(&listing));
    let twice = resolve_keyword_paths("de", "linux", &keywords, Some(&listing));
    assert_eq!(once, twice);
}

#[test]
fn session_assets_bundles_keyword_and_model_paths() {
    let keyword_listing = vec![entry("position_de_linux.ppn", "/kw/position_de_linux.ppn")];
    let model_listing = vec![entry("porcupine_params_de.pv", "/model/porcupine_params_de.pv")];
    let keywords = vec![Keywords::Position];
    let r = session_assets("de", "linux", &keywords, Some(&keyword_listing), &model_listing);
    match r {
        Ok(assets) => {
            assert_eq!(assets.keyword_paths, vec!["/kw/position_de_linux.ppn".to_string()]);
            assert_eq!(assets.model_path, Some("/model/porcupine_params_de.pv".to_string()));
        }
        Err(_) => panic!("expected resolution to succeed"),
    }
}

#[test]
fn session_assets_without_model_falls_back_to_none() {
    let keyword_listing = vec![entry("position_en_linux.ppn", "/kw/position_en_linux.ppn")];
    let model_listing: Vec<AssetEntry> = Vec::new();
    let keywords = vec![Keywords::Position];
    let r = session_assets("en", "linux", &keywords, Some(&keyword_listing), &model_listing);
    match r {
        Ok(assets) => {
            assert_eq!(assets.keyword_paths, vec!["/kw/position_en_linux.ppn".to_string()]);
            assert_eq!(assets.model_path, None);
        }
        Err(_) => panic!("expected resolution to succeed"),
    }
}
