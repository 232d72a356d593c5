use voicebox_asr::engine::Args;
use voicebox_asr::error::ErrorKind;
use voicebox_asr::paths::{
    candidate_model_dirs, dedupe_paths, explicit_asset_outcome, format_candidate_dirs, path_parent,
    searched_asset_outcome,
    punct_model_candidate_dirs, resolve_asset_path, resolve_optional_asset_path,
};

fn strings(items: &[&str]) -> Vec<String> {
    items.iter().map(|s| s.to_string()).collect()
}

fn args_with(model: Option<&str>, tokens: Option<&str>, model_dir: Option<&str>, punct: Option<&str>) -> Args {
    Args {
        model: model.map(|s| s.to_string()),
        tokens: tokens.map(|s| s.to_string()),
        model_dir: model_dir.map(|s| s.to_string()),
        punct_model: punct.map(|s| s.to_string()),
        threads: 2,
        language: "zh".to_string(),
        provider: "cpu".to_string(),
        debug: false,
    }
}

#[test]
fn dedupe_keeps_first_of_each_path() {
    let out = dedupe_paths(strings(&["a", "b", "a", "c", "b"]));
    assert_eq!(out, strings(&["a", "b", "c"]));
}

#[test]
fn dedupe_compares_paths_by_components() {
    let out = dedupe_paths(strings(&["/x/y", "/x//y", "/x/y/", "/x/z", "x/y"]));
    assert_eq!(out, strings(&["/x/y", "/x/z", "x/y"]));
}

#[test]
fn dedupe_of_empty_is_empty() {
    assert!(dedupe_paths(Vec::new()).is_empty());
}

#[test]
fn dedupe_is_idempotent() {
    let once = dedupe_paths(strings(&["m", "n", "m/", "o", "n"]));
    let twice = dedupe_paths(once.clone());
    assert_eq!(once, twice);
}

#[test]
fn dedupe_leaves_distinct_paths_alone() {
    let input = strings(&["/a", "/b", "c", "/a/b"]);
    assert_eq!(dedupe_paths(input.clone()), input);
}

#[test]
fn format_joins_with_comma() {
    assert_eq!(format_candidate_dirs(&[]), "");
    assert_eq!(format_candidate_dirs(&strings(&["/only"])), "/only");
    assert_eq!(format_candidate_dirs(&strings(&["/a", "b/c", "d"])), "/a, b/c, d");
}

#[test]
fn parent_of_paths() {
    assert_eq!(path_parent("/opt/models/model.onnx"), Some("/opt/models".to_string()));
    assert_eq!(path_parent("model.onnx"), Some(String::new()));
    assert_eq!(path_parent(""), None);
    assert_eq!(path_parent("/"), None);
}

#[test]
fn model_dirs_follow_the_documented_order() {
    let args = args_with(Some("/m/model.int8.onnx"), Some("/t/tokens.txt"), Some("/dir"), None);
    let exe = "/usr/bin/voicebox-asr".to_string();
    let cwd = "/work".to_string();
    let dirs = candidate_model_dirs(&args, Some(&exe), Some(&cwd));
    assert_eq!(
        dirs,
        strings(&[
            "/dir",
            "/m",
            "/t",
            "/usr/bin/models/paraformer-zh-small-2024-03-09",
            "/work/models/paraformer-zh-small-2024-03-09",
        ])
    );
}

#[test]
fn model_dirs_drop_repeats_and_absent_entries() {
    let args = args_with(Some("/dir/model.int8.onnx"), Some("/dir/tokens.txt"), Some("/dir"), None);
    let dirs = candidate_model_dirs(&args, None, None);
    assert_eq!(dirs, strings(&["/dir"]));
    let bare = args_with(None, None, None, None);
    let cwd = "/w".to_string();
    assert_eq!(
        candidate_model_dirs(&bare, None, Some(&cwd)),
        strings(&["/w/models/paraformer-zh-small-2024-03-09"])
    );
}

#[test]
fn punctuation_dirs_follow_the_documented_order() {
    let args = args_with(
        Some("/opt/m/para/model.int8.onnx"),
        Some("/opt/t/para/tokens.txt"),
        Some("/opt/m/para"),
        Some("/p/punct/model.int8.onnx"),
    );
    let exe = "/usr/bin/voicebox-asr".to_string();
    let cwd = "/work".to_string();
    let dirs = punct_model_candidate_dirs(&args, Some(&exe), Some(&cwd));
    assert_eq!(
        dirs,
        strings(&[
            "/p/punct",
            "/opt/m/punct-ct-transformer-zh-en-vocab272727-2024-04-12-int8",
            "/opt/t/punct-ct-transformer-zh-en-vocab272727-2024-04-12-int8",
            "/usr/bin/models/punct-ct-transformer-zh-en-vocab272727-2024-04-12-int8",
            "/work/models/punct-ct-transformer-zh-en-vocab272727-2024-04-12-int8",
        ])
    );
}

#[test]
fn explicit_existing_path_is_used() {
    let explicit = "src/text.rs".to_string();
    let dirs = strings(&["src"]);
    assert_eq!(resolve_asset_path(Some(&explicit), "lib.rs", &dirs).unwrap(), "src/text.rs");
    assert_eq!(
        resolve_optional_asset_path(Some(&explicit), "lib.rs", &dirs).unwrap(),
        Some("src/text.rs".to_string())
    );
}

#[test]
fn explicit_missing_path_is_an_error() {
    let explicit = "no/such/model.int8.onnx".to_string();
    let err = resolve_asset_path(Some(&explicit), "model.int8.onnx", &strings(&["src"])).unwrap_err();
    assert_eq!(err.kind, ErrorKind::BadRequest);
    assert_eq!(err.to_string(), "model.int8.onnx not found: no/such/model.int8.onnx");
    let err = resolve_optional_asset_path(Some(&explicit), "model.int8.onnx", &[]).unwrap_err();
    assert_eq!(err.message, "model.int8.onnx not found: no/such/model.int8.onnx");
}

#[test]
fn search_takes_the_first_directory_holding_the_file() {
    let dirs = strings(&["no-such-dir", "src", "tests"]);
    assert_eq!(resolve_asset_path(None, "lib.rs", &dirs).unwrap(), "src/lib.rs");
    assert_eq!(
        resolve_optional_asset_path(None, "lib.rs", &dirs).unwrap(),
        Some("src/lib.rs".to_string())
    );
}

#[test]
fn search_without_a_hit_lists_the_directories() {
    let dirs = strings(&["no-such-dir", "other/missing"]);
    let err = resolve_asset_path(None, "tokens.txt", &dirs).unwrap_err();
    assert_eq!(err.status_code(), 400);
    assert_eq!(
        err.to_string(),
        "Could not locate tokens.txt. Searched: no-such-dir, other/missing"
    );
    assert_eq!(resolve_optional_asset_path(None, "tokens.txt", &dirs).unwrap(), None);
    let err = resolve_asset_path(None, "tokens.txt", &[]).unwrap_err();
    assert_eq!(err.to_string(), "Could not locate tokens.txt. Searched: ");
}

#[test]
fn explicit_outcome_follows_existence() {
    let path = "/models/model.int8.onnx".to_string();
    assert_eq!(explicit_asset_outcome(&path, "model.int8.onnx", true).unwrap(), path);
    let err = explicit_asset_outcome(&path, "model.int8.onnx", false).unwrap_err();
    assert_eq!(err.kind, ErrorKind::BadRequest);
    assert_eq!(err.message, "model.int8.onnx not found: /models/model.int8.onnx");
}

#[test]
fn searched_outcome_follows_the_search() {
    let dirs = strings(&["/a", "/b"]);
    assert_eq!(
        searched_asset_outcome(Some("/b/tokens.txt".to_string()), "tokens.txt", &dirs).unwrap(),
        "/b/tokens.txt"
    );
    let err = searched_asset_outcome(None, "tokens.txt", &dirs).unwrap_err();
    assert_eq!(err.message, "Could not locate tokens.txt. Searched: /a, /b");
}

#[test]
fn search_prefers_the_earlier_directory_holding_the_file() {
    let dirs = strings(&["missing-dir", "src", "./src"]);
    assert_eq!(resolve_asset_path(None, "lib.rs", &dirs).unwrap(), "src/lib.rs");
    let dirs = strings(&["./src", "src"]);
    assert_eq!(
        resolve_optional_asset_path(None, "lib.rs", &dirs).unwrap(),
        Some("./src/lib.rs".to_string())
    );
}
