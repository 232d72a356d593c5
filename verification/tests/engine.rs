use voicebox_asr::engine::{
    check_audio_samples, check_request_body, finish_punctuation, health_response, plan_punctuation,
    Args, EngineConfig, PunctuationStep,
};
use voicebox_asr::error::{AppError, ErrorKind};

fn args_for(model: Option<&str>, tokens: Option<&str>, punct: Option<&str>) -> Args {
    Args {
        model: model.map(|s| s.to_string()),
        tokens: tokens.map(|s| s.to_string()),
        model_dir: None,
        punct_model: punct.map(|s| s.to_string()),
        threads: 0,
        language: " AUTO ".to_string(),
        provider: "  cpu ".to_string(),
        debug: true,
    }
}

#[test]
fn load_resolves_explicit_files_and_settings() {
    let args = args_for(Some("src/lib.rs"), Some("src/text.rs"), None);
    let cwd = "no-such-dir".to_string();
    let config = EngineConfig::load(&args, None, Some(&cwd)).unwrap();
    assert_eq!(config.model_path, "src/lib.rs");
    assert_eq!(config.model_root, "src");
    assert_eq!(config.tokens_path, "src/text.rs");
    assert_eq!(config.punctuation_model_path, None);
    assert_eq!(config.default_language, "zh");
    assert_eq!(config.provider, "cpu");
    assert_eq!(config.threads, 1);
    assert!(config.debug);
}

#[test]
fn load_keeps_a_positive_thread_count() {
    let mut args = args_for(Some("src/lib.rs"), Some("src/text.rs"), Some("src/text.rs"));
    args.threads = 4;
    let config = EngineConfig::load(&args, None, None).unwrap();
    assert_eq!(config.threads, 4);
    assert_eq!(config.punctuation_model_path, Some("src/text.rs".to_string()));
}

#[test]
fn load_reports_a_missing_model() {
    let args = args_for(Some("missing/model.int8.onnx"), Some("src/text.rs"), None);
    let err = EngineConfig::load(&args, None, None).unwrap_err();
    assert_eq!(err.kind, ErrorKind::BadRequest);
    assert_eq!(err.message, "model.int8.onnx not found: missing/model.int8.onnx");
}

#[test]
fn load_reports_missing_tokens_searched_for() {
    let args = args_for(Some("src/lib.rs"), None, None);
    let cwd = "no-such-dir".to_string();
    let err = EngineConfig::load(&args, None, Some(&cwd)).unwrap_err();
    assert_eq!(
        err.message,
        "Could not locate tokens.txt. Searched: src, no-such-dir/models/paraformer-zh-small-2024-03-09"
    );
}

#[test]
fn load_reports_a_missing_punctuation_model() {
    let args = args_for(Some("src/lib.rs"), Some("src/text.rs"), Some("missing-punct.onnx"));
    let err = EngineConfig::load(&args, None, None).unwrap_err();
    assert_eq!(err.message, "model.int8.onnx not found: missing-punct.onnx");
}

#[test]
fn load_refuses_a_model_without_parent() {
    let args = args_for(Some("/"), Some("src/text.rs"), None);
    let err = EngineConfig::load(&args, None, None).unwrap_err();
    assert_eq!(err.kind, ErrorKind::Internal);
    assert_eq!(err.status_code(), 500);
    assert_eq!(err.message, "Resolved model path has no parent directory.");
}

#[test]
fn health_reports_the_configuration() {
    let config = EngineConfig {
        model_root: "/m".to_string(),
        model_path: "/m/model.int8.onnx".to_string(),
        tokens_path: "/m/tokens.txt".to_string(),
        punctuation_model_path: Some("/p/model.int8.onnx".to_string()),
        default_language: "zh".to_string(),
        provider: "cpu".to_string(),
        debug: false,
        threads: 2,
    };
    let health = health_response(&config, true);
    assert!(health.ok);
    assert!(health.ready);
    assert_eq!(health.model_family, "paraformer-zh-small");
    assert_eq!(health.model_root, "/m");
    assert_eq!(health.model_path, "/m/model.int8.onnx");
    assert_eq!(health.tokens_path, "/m/tokens.txt");
    assert!(health.punctuation_enabled);
    assert_eq!(health.punctuation_model_path, Some("/p/model.int8.onnx".to_string()));
    assert_eq!(health.default_language, "zh");
    assert_eq!(health.provider, "cpu");
    assert_eq!(health.threads, 2);
}

#[test]
fn punctuation_plan_for_blank_text() {
    match plan_punctuation("  \n ", true) {
        PunctuationStep::Done(t) => assert_eq!(t, ""),
        PunctuationStep::Punctuate(_) => panic!("blank text needs no punctuation"),
    }
}

#[test]
fn punctuation_plan_without_model() {
    match plan_punctuation(" 你好 世界 ", false) {
        PunctuationStep::Done(t) => assert_eq!(t, "你好 世界"),
        PunctuationStep::Punctuate(_) => panic!("no model is loaded"),
    }
}

#[test]
fn punctuation_plan_with_model() {
    match plan_punctuation("\t我们都是木头人 ", true) {
        PunctuationStep::Punctuate(t) => assert_eq!(t, "我们都是木头人"),
        PunctuationStep::Done(_) => panic!("the model should run"),
    }
}

#[test]
fn punctuation_result_is_trimmed_or_raw() {
    assert_eq!(finish_punctuation("raw", Some("  我们，都是。 ")), "我们，都是。");
    assert_eq!(finish_punctuation("raw text", None), "raw text");
}

#[test]
fn empty_body_is_refused() {
    let err = check_request_body(&[]).unwrap_err();
    assert_eq!(err.kind, ErrorKind::BadRequest);
    assert_eq!(err.message, "Request body is empty.");
    assert!(check_request_body(b"RIFF").is_ok());
}

#[test]
fn empty_audio_is_refused() {
    let err = check_audio_samples(0).unwrap_err();
    assert_eq!(err.message, "Audio payload is empty.");
    assert!(check_audio_samples(1).is_ok());
}

#[test]
fn error_constructors_set_status() {
    let bad = AppError::bad_request("oops".to_string());
    assert_eq!(bad.status_code(), 400);
    assert_eq!(bad.to_string(), "oops");
    let internal = AppError::internal("boom".to_string());
    assert_eq!(internal.kind, ErrorKind::Internal);
    assert_eq!(internal.status_code(), 500);
    assert_eq!(internal.to_string(), "boom");
}

#[test]
fn start_up_refuses_a_default_language_other_than_zh() {
    let mut args = args_for(Some("src/lib.rs"), Some("src/text.rs"), None);
    args.language = " EN ".to_string();
    let config = EngineConfig::load(&args, None, None).unwrap();
    assert_eq!(config.default_language, "en");
    let err = config.complete_load().unwrap_err();
    assert_eq!(err.kind, ErrorKind::BadRequest);
    assert_eq!(err.message, "当前 79M Paraformer 小模型仅支持中文，请使用 language=zh。");
}

#[test]
fn start_up_accepts_an_alias_of_chinese() {
    let mut args = args_for(Some("src/lib.rs"), Some("src/text.rs"), None);
    args.language = "cmn".to_string();
    let config = EngineConfig::load(&args, None, None).unwrap();
    assert!(config.complete_load().is_ok());
    assert_eq!(config.default_language, "zh");
}
