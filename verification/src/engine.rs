//! Start-up settings of the transcription engine, its health report, and the
//! decisions taken around the recogniser and the punctuation model.

use vstd::prelude::*;
use crate::error::{AppError, ErrorKind};
use crate::language::{
    ensure_supported_language, is_zh_alias, lemma_normalized_accepted, normalize_language,
    normalized_language, unsupported_language_message,
};
use crate::paths::{
    candidate_model_dirs, model_dir_candidates, opt_string, opt_string_ref, optional_asset_outcome,
    parent_of, path_parent, punct_dir_candidates,
    punct_model_candidate_dirs, required_asset_outcome, resolve_asset_path,
    resolve_optional_asset_path, DEFAULT_MODEL_FILE, DEFAULT_PUNCT_MODEL_FILE, DEFAULT_TOKENS_FILE,
};
use crate::text::{lowercase_of, texts_of, trim_text, trimmed};

verus! {

/// The command-line settings that locate the models and configure them.
#[derive(Debug)]
pub struct Args {
    pub model: Option<String>,
    pub tokens: Option<String>,
    pub model_dir: Option<String>,
    pub punct_model: Option<String>,
    pub threads: i32,
    pub language: String,
    pub provider: String,
    pub debug: bool,
}

/// What the engine was resolved to at start-up.
#[derive(Debug)]
pub struct EngineConfig {
    pub model_root: String,
    pub model_path: String,
    pub tokens_path: String,
    pub punctuation_model_path: Option<String>,
    pub default_language: String,
    pub provider: String,
    pub debug: bool,
    pub threads: i32,
}

/// The thread count used: the one asked for, but at least one.
pub open spec fn effective_threads(threads: i32) -> i32 {
    if threads < 1 {
        1
    } else {
        threads
    }
}

/// The thread count the engine runs with is the one asked for when it is at
/// least one, and one otherwise: it is never cut down.
pub proof fn lemma_effective_threads(threads: i32)
    ensures
        threads >= 1 ==> effective_threads(threads) == threads,
        threads < 1 ==> effective_threads(threads) == 1,
        effective_threads(threads) >= 1,
        effective_threads(threads) >= threads,
{
}

/// The message for a model path that has no parent directory.
pub open spec fn no_model_root_message() -> Seq<char> {
    "Resolved model path has no parent directory."@
}

/// How the model file resolves, among `dirs`.
pub open spec fn model_outcome(
    args: Args,
    dirs: Seq<Seq<char>>,
    res: Result<Seq<char>, (ErrorKind, Seq<char>)>,
) -> bool {
    required_asset_outcome(opt_string(args.model), DEFAULT_MODEL_FILE@, dirs, res)
}

/// How the token table resolves, among `dirs`.
pub open spec fn tokens_outcome(
    args: Args,
    dirs: Seq<Seq<char>>,
    res: Result<Seq<char>, (ErrorKind, Seq<char>)>,
) -> bool {
    required_asset_outcome(opt_string(args.tokens), DEFAULT_TOKENS_FILE@, dirs, res)
}

/// How the punctuation model resolves, among `dirs`.
pub open spec fn punct_outcome(
    args: Args,
    dirs: Seq<Seq<char>>,
    res: Result<Option<Seq<char>>, (ErrorKind, Seq<char>)>,
) -> bool {
    optional_asset_outcome(opt_string(args.punct_model), DEFAULT_PUNCT_MODEL_FILE@, dirs, res)
}

/// The error loading stops with, in this order: the model file's error; else
/// the token table's; else the punctuation model's; else, when the resolved
/// model path has no parent, the missing-root error.
pub open spec fn load_failure(
    args: Args,
    dirs: Seq<Seq<char>>,
    punct_dirs: Seq<Seq<char>>,
    e: (ErrorKind, Seq<char>),
) -> bool {
    ||| model_outcome(args, dirs, Err(e))
    ||| exists|m: Seq<char>|
        #[trigger] model_outcome(args, dirs, Ok(m)) && tokens_outcome(args, dirs, Err(e))
    ||| exists|m: Seq<char>, t: Seq<char>|
        #![trigger model_outcome(args, dirs, Ok(m)), tokens_outcome(args, dirs, Ok(t))]
        model_outcome(args, dirs, Ok(m)) && tokens_outcome(args, dirs, Ok(t)) && punct_outcome(
            args,
            punct_dirs,
            Err(e),
        )
    ||| exists|m: Seq<char>, t: Seq<char>, p: Option<Seq<char>>|
        #![trigger model_outcome(args, dirs, Ok(m)), tokens_outcome(args, dirs, Ok(t)), punct_outcome(args, punct_dirs, Ok(p))]
        model_outcome(args, dirs, Ok(m)) && tokens_outcome(args, dirs, Ok(t)) && punct_outcome(
            args,
            punct_dirs,
            Ok(p),
        ) && parent_of(m) is None && e == (ErrorKind::Internal, no_model_root_message())
}

fn borrow_text(o: &Option<String>) -> (r: Option<&String>)
    ensures
        opt_string_ref(r) == opt_string(*o),
{
    match o {
        Some(t) => Some(t),
        None => None,
    }
}

impl EngineConfig {
    /// Resolves the model, token and punctuation-model files, the model's
    /// directory, the default language, the provider and the thread count.
    /// The executable's path and the working directory are passed in.
    pub fn load(args: &Args, exe_path: Option<&String>, cwd: Option<&String>) -> (res: Result<
        EngineConfig,
        AppError,
    >)
        ensures
            ({
                let exe = opt_string_ref(exe_path);
                let here = opt_string_ref(cwd);
                let dirs = model_dir_candidates(*args, exe, here);
                let punct_dirs = punct_dir_candidates(*args, exe, here);
                match res {
                    Ok(cfg) => {
                        &&& model_outcome(*args, dirs, Ok(cfg.model_path@))
                        &&& tokens_outcome(*args, dirs, Ok(cfg.tokens_path@))
                        &&& punct_outcome(
                            *args,
                            punct_dirs,
                            Ok(opt_string(cfg.punctuation_model_path)),
                        )
                        &&& parent_of(cfg.model_path@) == Some(cfg.model_root@)
                        &&& cfg.default_language@ == normalized_language(
                            Some(args.language@),
                            "zh"@,
                        )
                        &&& cfg.provider@ == trimmed(args.provider@)
                        &&& cfg.debug == args.debug
                        &&& cfg.threads == effective_threads(args.threads)
                        &&& (args.threads >= 1 ==> cfg.threads == args.threads)
                        &&& (args.threads < 1 ==> cfg.threads == 1)
                    },
                    Err(e) => load_failure(*args, dirs, punct_dirs, e@),
                }
            }),
    {
        let candidate_dirs = candidate_model_dirs(args, exe_path, cwd);
        let model_path = match resolve_asset_path(
            borrow_text(&args.model),
            DEFAULT_MODEL_FILE,
            candidate_dirs.as_slice(),
        ) {
            Ok(p) => p,
            Err(e) => return Err(e),
        };
        let tokens_path = match resolve_asset_path(
            borrow_text(&args.tokens),
            DEFAULT_TOKENS_FILE,
            candidate_dirs.as_slice(),
        ) {
            Ok(p) => p,
            Err(e) => {
                assert(model_outcome(*args, texts_of(candidate_dirs@), Ok(model_path@)));
                return Err(e);
            },
        };
        let punct_candidate_dirs = punct_model_candidate_dirs(args, exe_path, cwd);
        let punctuation_model_path = match resolve_optional_asset_path(
            borrow_text(&args.punct_model),
            DEFAULT_PUNCT_MODEL_FILE,
            punct_candidate_dirs.as_slice(),
        ) {
            Ok(p) => p,
            Err(e) => {
                assert(model_outcome(*args, texts_of(candidate_dirs@), Ok(model_path@)));
                assert(tokens_outcome(*args, texts_of(candidate_dirs@), Ok(tokens_path@)));
                return Err(e);
            },
        };
        let model_root = match path_parent(model_path.as_str()) {
            Some(root) => root,
            None => {
                assert(model_outcome(*args, texts_of(candidate_dirs@), Ok(model_path@)));
                assert(tokens_outcome(*args, texts_of(candidate_dirs@), Ok(tokens_path@)));
                assert(punct_outcome(
                    *args,
                    texts_of(punct_candidate_dirs@),
                    Ok(opt_string(punctuation_model_path)),
                ));
                return Err(
                    AppError::internal(
                        String::from_str("Resolved model path has no parent directory."),
                    ),
                );
            },
        };
        let threads = if args.threads < 1 {
            1
        } else {
            args.threads
        };
        Ok(EngineConfig {
            model_root,
            model_path,
            tokens_path,
            punctuation_model_path,
            default_language: normalize_language(Some(args.language.as_str()), "zh"),
            provider: String::from_str(trim_text(args.provider.as_str())),
            debug: args.debug,
            threads,
        })
    }
}

impl EngineConfig {
    /// The last step of start-up, taken once the punctuation model is loaded:
    /// refuses a default language other than `zh`, the only one the model
    /// supports, with the bad-request error that names it.
    pub fn complete_load(&self) -> (res: Result<(), AppError>)
        ensures
            res is Ok <==> self.default_language@ == "zh"@,
            res matches Err(e) ==> e@ == (ErrorKind::BadRequest, unsupported_language_message()),
    {
        ensure_supported_language(self.default_language.as_str())
    }
}

/// Start-up, which `complete_load` finishes, keeps a loaded configuration
/// exactly when the configured language, trimmed and lower-cased, is blank or
/// an alias of Chinese; the language it then runs with is `zh`.
pub proof fn lemma_start_up_language(args: Args, config: EngineConfig)
    requires
        config.default_language@ == normalized_language(Some(args.language@), "zh"@),
    ensures
        ({
            let c = lowercase_of(trimmed(args.language@));
            config.default_language@ == "zh"@ <==> (c.len() == 0 || is_zh_alias(c))
        }),
{
    lemma_normalized_accepted(Some(args.language@), "zh"@);
}

/// The service's answer to a health check.
#[derive(Debug)]
pub struct HealthResponse {
    pub ok: bool,
    pub ready: bool,
    pub model_family: String,
    pub model_root: String,
    pub model_path: String,
    pub tokens_path: String,
    pub punctuation_enabled: bool,
    pub punctuation_model_path: Option<String>,
    pub default_language: String,
    pub provider: String,
    pub threads: i32,
}

fn copy_text(o: &Option<String>) -> (r: Option<String>)
    ensures
        opt_string(r) == opt_string(*o),
{
    match o {
        Some(t) => Some(t.clone()),
        None => None,
    }
}

/// Reports the engine as ready, with the paths and settings it runs with;
/// `punctuation_enabled` says whether a punctuation model was loaded.
pub fn health_response(config: &EngineConfig, punctuation_enabled: bool) -> (res: HealthResponse)
    ensures
        res.ok,
        res.ready,
        res.model_family@ == "paraformer-zh-small"@,
        res.model_root@ == config.model_root@,
        res.model_path@ == config.model_path@,
        res.tokens_path@ == config.tokens_path@,
        res.punctuation_enabled == punctuation_enabled,
        opt_string(res.punctuation_model_path) == opt_string(config.punctuation_model_path),
        res.default_language@ == config.default_language@,
        res.provider@ == config.provider@,
        res.threads == config.threads,
{
    HealthResponse {
        ok: true,
        ready: true,
        model_family: String::from_str("paraformer-zh-small"),
        model_root: config.model_root.clone(),
        model_path: config.model_path.clone(),
        tokens_path: config.tokens_path.clone(),
        punctuation_enabled,
        punctuation_model_path: copy_text(&config.punctuation_model_path),
        default_language: config.default_language.clone(),
        provider: config.provider.clone(),
        threads: config.threads,
    }
}

/// What restoring punctuation does next with a recognised text.
#[derive(Debug)]
pub enum PunctuationStep {
    /// The answer is this text; the punctuation model is not needed.
    Done(String),
    /// The punctuation model is to be run on this (trimmed) text.
    Punctuate(String),
}

/// Decides how punctuation is restored for `text`: a blank text gives the
/// empty text, and without a punctuation model the trimmed text is the
/// answer; otherwise the trimmed text goes to the model.
pub fn plan_punctuation(text: &str, has_punctuator: bool) -> (step: PunctuationStep)
    ensures
        ({
            let raw = trimmed(text@);
            match step {
                PunctuationStep::Done(t) => (raw.len() == 0 && t@.len() == 0) || (raw.len() > 0
                    && !has_punctuator && t@ == raw),
                PunctuationStep::Punctuate(t) => raw.len() > 0 && has_punctuator && t@ == raw,
            }
        }),
{
    let raw = trim_text(text);
    if raw.unicode_len() == 0 {
        return PunctuationStep::Done(String::new());
    }
    if !has_punctuator {
        return PunctuationStep::Done(String::from_str(raw));
    }
    PunctuationStep::Punctuate(String::from_str(raw))
}

/// The punctuated text, trimmed, when the model gave one; else the text it
/// was given.
pub fn finish_punctuation(raw: &str, punctuated: Option<&str>) -> (res: String)
    ensures
        match punctuated {
            Some(t) => res@ == trimmed(t@),
            None => res@ == raw@,
        },
{
    match punctuated {
        Some(t) => String::from_str(trim_text(t)),
        None => String::from_str(raw),
    }
}

/// Refuses a transcription request whose body is empty.
pub fn check_request_body(body: &[u8]) -> (res: Result<(), AppError>)
    ensures
        res is Ok <==> body@.len() > 0,
        res matches Err(e) ==> e@ == (ErrorKind::BadRequest, "Request body is empty."@),
{
    if body.len() == 0 {
        Err(AppError::bad_request(String::from_str("Request body is empty.")))
    } else {
        Ok(())
    }
}

/// Refuses decoded audio that holds no samples.
pub fn check_audio_samples(sample_count: usize) -> (res: Result<(), AppError>)
    ensures
        res is Ok <==> sample_count > 0,
        res matches Err(e) ==> e@ == (ErrorKind::BadRequest, "Audio payload is empty."@),
{
    if sample_count == 0 {
        Err(AppError::bad_request(String::from_str("Audio payload is empty.")))
    } else {
        Ok(())
    }
}

} // verus!
