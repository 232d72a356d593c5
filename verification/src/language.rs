//! Which language a transcription runs in.

use vstd::prelude::*;
use crate::error::{AppError, ErrorKind};
use crate::text::{
    ascii_lower_char, ascii_lowercase, is_ascii_text, is_white_space, lemma_trimmed_ascii,
    lemma_trimmed_edges, lowercase_of, lowercase_text, text_eq, trim_end_ws, trim_start_ws, trim_text,
    trimmed,
};

verus! {

/// The spellings that all name the one language the model supports.
pub open spec fn is_zh_alias(candidate: Seq<char>) -> bool {
    ||| candidate == "auto"@
    ||| candidate == "zh"@
    ||| candidate == "zh-cn"@
    ||| candidate == "cmn"@
    ||| candidate == "cmn-hans-cn"@
}

/// The language that a trimmed, lower-cased candidate stands for.
pub open spec fn canonical_language(candidate: Seq<char>, fallback: Seq<char>) -> Seq<char> {
    if candidate.len() == 0 {
        fallback
    } else if is_zh_alias(candidate) {
        "zh"@
    } else {
        candidate
    }
}

/// The view of an optional text.
pub open spec fn opt_text(o: Option<&str>) -> Option<Seq<char>> {
    match o {
        Some(t) => Some(t@),
        None => None,
    }
}

/// The language that `normalize_language` gives for `language` (or `fallback`).
pub open spec fn normalized_language(language: Option<Seq<char>>, fallback: Seq<char>) -> Seq<char> {
    let source = match language {
        Some(l) => l,
        None => fallback,
    };
    canonical_language(lowercase_of(trimmed(source)), fallback)
}

/// The text a language request is read from: the request, or the fallback.
pub open spec fn language_source(language: Option<Seq<char>>, fallback: Seq<char>) -> Seq<char> {
    match language {
        Some(l) => l,
        None => fallback,
    }
}

/// What `normalize_language` gives when the text it reads is ASCII.
pub open spec fn ascii_normalized_language(language: Option<Seq<char>>, fallback: Seq<char>) -> Seq<
    char,
> {
    canonical_language(ascii_lowercase(trimmed(language_source(language, fallback))), fallback)
}

/// The message a request for an unsupported language is refused with.
pub open spec fn unsupported_language_message() -> Seq<char> {
    "当前 79M Paraformer 小模型仅支持中文，请使用 language=zh。"@
}

/// Maps a trimmed, lower-cased language candidate to the language it names:
/// the empty text to `fallback`, every alias of Chinese to `zh`, anything else
/// to itself.
pub fn canonicalize_language(candidate: String, fallback: &str) -> (res: String)
    ensures
        res@ == canonical_language(candidate@, fallback@),
{
    let c = candidate.as_str();
    if c.unicode_len() == 0 {
        String::from_str(fallback)
    } else if text_eq(c, "auto") || text_eq(c, "zh") || text_eq(c, "zh-cn") || text_eq(c, "cmn")
        || text_eq(c, "cmn-hans-cn") {
        String::from_str("zh")
    } else {
        candidate
    }
}

/// Normalises a requested language: trims it, lower-cases it, and maps the
/// aliases of Chinese to `zh`; an absent or blank request gives `fallback`.
pub fn normalize_language(language: Option<&str>, fallback: &str) -> (res: String)
    ensures
        res@ == normalized_language(opt_text(language), fallback@),
        is_ascii_text(language_source(opt_text(language), fallback@)) ==> res@
            == ascii_normalized_language(opt_text(language), fallback@),
{
    let source = match language {
        Some(l) => l,
        None => fallback,
    };
    let trimmed_source = trim_text(source);
    proof {
        if is_ascii_text(source@) {
            lemma_trimmed_ascii(source@);
        }
    }
    let candidate = lowercase_text(trimmed_source);
    canonicalize_language(candidate, fallback)
}

/// Accepts `zh`, the only language the model supports, and refuses any other
/// with a bad-request error.
pub fn ensure_supported_language(language: &str) -> (res: Result<(), AppError>)
    ensures
        res is Ok <==> language@ == "zh"@,
        res matches Err(e) ==> e@ == (ErrorKind::BadRequest, unsupported_language_message()),
{
    if text_eq(language, "zh") {
        Ok(())
    } else {
        Err(AppError::bad_request(String::from_str("当前 79M Paraformer 小模型仅支持中文，请使用 language=zh。")))
    }
}

/// The language a transcription request runs in: the override (or the
/// default) normalised, and refused unless it is supported.
pub fn request_language(language_override: Option<&str>, default_language: &str) -> (res: Result<
    String,
    AppError,
>)
    ensures
        ({
            let lang = normalized_language(opt_text(language_override), default_language@);
            &&& res is Ok <==> lang == "zh"@
            &&& res matches Ok(l) ==> l@ == lang
            &&& res matches Err(e) ==> e@ == (ErrorKind::BadRequest, unsupported_language_message())
        }),
{
    let language = normalize_language(language_override, default_language);
    match ensure_supported_language(language.as_str()) {
        Ok(()) => Ok(language),
        Err(e) => Err(e),
    }
}

/// A normalised language is accepted exactly when the trimmed, lower-cased
/// request is an alias of Chinese, or is blank and the fallback is `zh`.
pub proof fn lemma_normalized_accepted(language: Option<Seq<char>>, fallback: Seq<char>)
    ensures
        ({
            let source = match language {
                Some(l) => l,
                None => fallback,
            };
            let candidate = lowercase_of(trimmed(source));
            normalized_language(language, fallback) == "zh"@ <==> (is_zh_alias(candidate) || (
            candidate.len() == 0 && fallback == "zh"@))
        }),
{
    reveal_strlit("auto");
    reveal_strlit("zh");
    reveal_strlit("zh-cn");
    reveal_strlit("cmn");
    reveal_strlit("cmn-hans-cn");
}

/// Canonicalising twice gives what canonicalising once gives, for every
/// non-blank candidate.
pub proof fn lemma_canonical_idempotent(candidate: Seq<char>, fallback: Seq<char>)
    requires
        candidate.len() > 0,
    ensures
        canonical_language(canonical_language(candidate, fallback), fallback) == canonical_language(
            candidate,
            fallback,
        ),
{
    reveal_strlit("zh");
}

/// Lower-casing a character changes neither whether it is white space nor
/// whether it is ASCII, and lower-casing it again changes nothing.
proof fn lemma_ascii_lower_char(c: char)
    ensures
        is_white_space(ascii_lower_char(c)) == is_white_space(c),
        (c as u32) < 128 ==> (ascii_lower_char(c) as u32) < 128,
        ascii_lower_char(ascii_lower_char(c)) == ascii_lower_char(c),
{
}

/// An ASCII text that is empty or has no white space at its ends, lower-cased:
/// still ASCII, still without white space at its ends, and a fixed point of
/// trimming and of lower-casing.
proof fn lemma_ascii_lowercase_of_trimmed(t: Seq<char>)
    requires
        is_ascii_text(t),
        t.len() == 0 || (!is_white_space(t[0]) && !is_white_space(t.last())),
    ensures
        ({
            let c = ascii_lowercase(t);
            &&& c.len() == t.len()
            &&& is_ascii_text(c)
            &&& trimmed(c) == c
            &&& ascii_lowercase(c) == c
        }),
{
    let c = ascii_lowercase(t);
    assert forall|i: int| 0 <= i < c.len() implies (#[trigger] c[i] as u32) < 128 by {
        lemma_ascii_lower_char(t[i]);
    }
    if c.len() > 0 {
        lemma_ascii_lower_char(t[0]);
        lemma_ascii_lower_char(t.last());
        assert(c[0] == ascii_lower_char(t[0]));
        assert(c.last() == ascii_lower_char(t.last()));
        assert(trim_start_ws(c) == c);
        assert(trim_end_ws(c) == c);
    }
    assert forall|i: int| 0 <= i < c.len() implies #[trigger] ascii_lowercase(c)[i] == c[i] by {
        lemma_ascii_lower_char(t[i]);
    }
    assert(ascii_lowercase(c) =~= c);
}

/// `zh` is its own trim and its own lower-case.
proof fn lemma_zh_fixed()
    ensures
        is_ascii_text("zh"@),
        trimmed("zh"@) == "zh"@,
        ascii_lowercase("zh"@) == "zh"@,
        is_zh_alias("zh"@),
        "zh"@.len() == 2,
{
    reveal_strlit("zh");
    lemma_ascii_lowercase_of_trimmed("zh"@);
}

/// With the fallback `zh` and an ASCII request (or none), the normalised
/// language is accepted exactly when no language was asked for, or the
/// trimmed, lower-cased request is blank or an alias of Chinese.
pub proof fn lemma_zh_fallback_accepted(language: Option<Seq<char>>)
    requires
        is_ascii_text(language_source(language, "zh"@)),
    ensures
        ascii_normalized_language(language, "zh"@) == "zh"@ <==> match language {
            None => true,
            Some(l) => {
                let c = ascii_lowercase(trimmed(l));
                c.len() == 0 || is_zh_alias(c)
            },
        },
{
    lemma_zh_fixed();
    reveal_strlit("auto");
    reveal_strlit("zh-cn");
    reveal_strlit("cmn");
    reveal_strlit("cmn-hans-cn");
}

/// With the fallback `zh` and an ASCII request (or none), the normalised
/// language is not blank, is its own trim and its own lower-case, and
/// normalising it again gives it back.
pub proof fn lemma_ascii_normalized_idempotent(language: Option<Seq<char>>)
    requires
        is_ascii_text(language_source(language, "zh"@)),
    ensures
        ({
            let r = ascii_normalized_language(language, "zh"@);
            &&& r.len() > 0
            &&& is_ascii_text(r)
            &&& trimmed(r) == r
            &&& ascii_lowercase(r) == r
            &&& ascii_normalized_language(Some(r), "zh"@) == r
        }),
{
    lemma_zh_fixed();
    let source = language_source(language, "zh"@);
    lemma_trimmed_ascii(source);
    lemma_trimmed_edges(source);
    lemma_ascii_lowercase_of_trimmed(trimmed(source));
    let c = ascii_lowercase(trimmed(source));
    let r = ascii_normalized_language(language, "zh"@);
    if c.len() == 0 || is_zh_alias(c) {
        assert(r == "zh"@);
    } else {
        assert(r == c);
        assert(ascii_lowercase(trimmed(r)) == r);
    }
}

/// A non-blank candidate becomes `zh` exactly when it is `auto`, `zh`,
/// `zh-cn`, `cmn` or `cmn-hans-cn`; every other non-blank candidate stays as
/// it is, and a blank one becomes the fallback.
pub proof fn lemma_canonical_language_literals(candidate: Seq<char>, fallback: Seq<char>)
    ensures
        candidate.len() == 0 ==> canonical_language(candidate, fallback) == fallback,
        candidate.len() > 0 ==> (canonical_language(candidate, fallback) == "zh"@ <==> (candidate
            == "auto"@ || candidate == "zh"@ || candidate == "zh-cn"@ || candidate == "cmn"@
            || candidate == "cmn-hans-cn"@)),
        candidate.len() > 0 && !(candidate == "auto"@ || candidate == "zh"@ || candidate == "zh-cn"@
            || candidate == "cmn"@ || candidate == "cmn-hans-cn"@) ==> canonical_language(
            candidate,
            fallback,
        ) == candidate,
{
}

} // verus!
