//! Where the model files are looked for, and how a file is found among
//! candidate directories.

use vstd::prelude::*;
use crate::engine::Args;
use crate::error::{AppError, ErrorKind};
use crate::text::{join_with, texts_of};

verus! {

/// The directory of the speech model, relative to a base directory.
pub const DEFAULT_MODEL_DIR: &'static str = "models/paraformer-zh-small-2024-03-09";

/// The file name of the speech model.
pub const DEFAULT_MODEL_FILE: &'static str = "model.int8.onnx";

/// The file name of the token table.
pub const DEFAULT_TOKENS_FILE: &'static str = "tokens.txt";

/// The directory name of the punctuation model.
pub const DEFAULT_PUNCT_MODEL_DIR_NAME: &'static str = "punct-ct-transformer-zh-en-vocab272727-2024-04-12-int8";

/// The directory of the punctuation model, relative to a base directory.
pub const DEFAULT_PUNCT_MODEL_DIR: &'static str = "models/punct-ct-transformer-zh-en-vocab272727-2024-04-12-int8";

/// The file name of the punctuation model.
pub const DEFAULT_PUNCT_MODEL_FILE: &'static str = "model.int8.onnx";

/// Whether `Path::new(a) == Path::new(b)`: the two texts name the same
/// sequence of path components.
pub uninterp spec fn same_path(a: Seq<char>, b: Seq<char>) -> bool;

/// What `Path::parent` gives for the path `path`.
pub uninterp spec fn parent_of(path: Seq<char>) -> Option<Seq<char>>;

/// What `Path::join` gives for `base` and `name`.
pub uninterp spec fn joined(base: Seq<char>, name: Seq<char>) -> Seq<char>;

/// The view of an optional owned text.
pub open spec fn opt_string(o: Option<String>) -> Option<Seq<char>> {
    match o {
        Some(t) => Some(t@),
        None => None,
    }
}

/// The view of an optional borrowed text.
pub open spec fn opt_string_ref(o: Option<&String>) -> Option<Seq<char>> {
    match o {
        Some(t) => Some(t@),
        None => None,
    }
}

/// Compares the two paths with `Path`'s `==` (component by component). `Path`
/// is `Eq`, so the result is reflexive, symmetric and transitive (equal paths
/// are equal to the same paths); which texts count as the same path beyond
/// that is left to the name `same_path`.
#[verifier::external_body]
fn paths_equal(a: &str, b: &str) -> (res: bool)
    ensures
        res == same_path(a@, b@),
        res == same_path(b@, a@),
        a@ == b@ ==> res,
        res ==> forall|c: Seq<char>| #[trigger] same_path(a@, c) == same_path(b@, c),
{
    std::path::Path::new(a) == std::path::Path::new(b)
}

/// Calls `Path::parent`; std documents `None` for the empty path, and the
/// rest of its behaviour is left to the name `parent_of`.
#[verifier::external_body]
fn parent_path(path: &str) -> (res: Option<String>)
    ensures
        opt_string(res) == parent_of(path@),
        path@.len() == 0 ==> res is None,
{
    match std::path::Path::new(path).parent() {
        Some(p) => Some(p.to_string_lossy().into_owned()),
        None => None,
    }
}

/// Calls `Path::join`; the result is left to the name `joined`.
#[verifier::external_body]
fn join_path(base: &str, name: &str) -> (res: String)
    ensures
        res@ == joined(base@, name@),
{
    std::path::Path::new(base).join(name).to_string_lossy().into_owned()
}

/// Calls `Path::exists`, which asks the file system; nothing is promised of
/// the answer, which can change from one call to the next.
#[verifier::external_body]
fn path_exists(path: &str) -> bool {
    std::path::Path::new(path).exists()
}

/// Whether some path of `kept` is the same path as `p`.
pub open spec fn has_same_path(kept: Seq<Seq<char>>, p: Seq<char>) -> bool {
    exists|j: int| 0 <= j < kept.len() && same_path(#[trigger] kept[j], p)
}

/// The paths of `s` in order, each left out when an earlier kept one is the
/// same path.
pub open spec fn dedup_paths(s: Seq<Seq<char>>) -> Seq<Seq<char>>
    decreases s.len(),
{
    if s.len() == 0 {
        Seq::empty()
    } else {
        let kept = dedup_paths(s.drop_last());
        if has_same_path(kept, s.last()) {
            kept
        } else {
            kept.push(s.last())
        }
    }
}

/// Keeps the first of each group of paths that name the same path, in order.
pub fn dedupe_paths(paths: Vec<String>) -> (unique: Vec<String>)
    ensures
        texts_of(unique@) == dedup_paths(texts_of(paths@)),
{
    let ghost all = texts_of(paths@);
    let mut unique: Vec<String> = Vec::new();
    let n = paths.len();
    let mut i: usize = 0;
    while i < n
        invariant
            n == paths@.len(),
            all == texts_of(paths@),
            i <= n,
            texts_of(unique@) == dedup_paths(all.take(i as int)),
        decreases n - i,
    {
        let path = &paths[i];
        let ghost kept = texts_of(unique@);
        let mut found = false;
        let mut j: usize = 0;
        while j < unique.len() && !found
            invariant
                kept == texts_of(unique@),
                j <= unique@.len(),
                found ==> has_same_path(kept, path@),
                !found ==> forall|k: int| 0 <= k < j ==> !same_path(#[trigger] kept[k], path@),
            decreases unique@.len() - j,
        {
            if paths_equal(unique[j].as_str(), path.as_str()) {
                found = true;
                assert(kept[j as int] == unique@[j as int]@);
            }
            j = j + 1;
        }
        assert(all.take(i + 1).drop_last() =~= all.take(i as int));
        assert(all.take(i + 1).last() == path@);
        if !found {
            unique.push(path.clone());
            assert(texts_of(unique@) =~= kept.push(path@));
        }
        i = i + 1;
    }
    assert(all.take(n as int) =~= all);
    unique
}

/// Any two paths that deduplication keeps are different paths.
pub proof fn lemma_dedup_distinct(s: Seq<Seq<char>>)
    ensures
        forall|j: int, k: int|
            0 <= j < k < dedup_paths(s).len() ==> !same_path(
                #[trigger] dedup_paths(s)[j],
                #[trigger] dedup_paths(s)[k],
            ),
    decreases s.len(),
{
    if s.len() > 0 {
        let prev = s.drop_last();
        lemma_dedup_distinct(prev);
        let kept = dedup_paths(prev);
        let d = dedup_paths(s);
        assert forall|j: int, k: int| 0 <= j < k < d.len() implies !same_path(
            #[trigger] d[j],
            #[trigger] d[k],
        ) by {
            assert(d[j] == kept[j]);
            if k < kept.len() {
                assert(d[k] == kept[k]);
            } else {
                assert(!has_same_path(kept, s.last()));
                assert(d[k] == s.last());
                assert(!same_path(kept[j], s.last()));
            }
        }
    }
}

/// Every input path is kept, or some kept path is the same path.
pub proof fn lemma_dedup_covers(s: Seq<Seq<char>>)
    ensures
        forall|i: int|
            0 <= i < s.len() ==> exists|j: int|
                0 <= j < dedup_paths(s).len() && (dedup_paths(s)[j] == #[trigger] s[i] || same_path(
                    dedup_paths(s)[j],
                    s[i],
                )),
    decreases s.len(),
{
    if s.len() > 0 {
        let prev = s.drop_last();
        lemma_dedup_covers(prev);
        let kept = dedup_paths(prev);
        let d = dedup_paths(s);
        assert forall|i: int| 0 <= i < s.len() implies exists|j: int|
            0 <= j < d.len() && (d[j] == #[trigger] s[i] || same_path(d[j], s[i])) by {
            if i < s.len() - 1 {
                assert(s[i] == prev[i]);
                let j = choose|j: int|
                    0 <= j < kept.len() && (kept[j] == prev[i] || same_path(kept[j], prev[i]));
                assert(d[j] == kept[j]);
            } else if has_same_path(kept, s.last()) {
                let j = choose|j: int| 0 <= j < kept.len() && same_path(#[trigger] kept[j], s.last());
                assert(d[j] == kept[j]);
            } else {
                assert(d[kept.len() as int] == s[i]);
            }
        }
    }
}

/// Deduplication keeps only input paths, and never more of them than given.
pub proof fn lemma_dedup_from_input(s: Seq<Seq<char>>)
    ensures
        dedup_paths(s).len() <= s.len(),
        forall|j: int|
            0 <= j < dedup_paths(s).len() ==> exists|i: int|
                0 <= i < s.len() && s[i] == #[trigger] dedup_paths(s)[j],
    decreases s.len(),
{
    if s.len() > 0 {
        let prev = s.drop_last();
        lemma_dedup_from_input(prev);
        let kept = dedup_paths(prev);
        let d = dedup_paths(s);
        assert forall|j: int| 0 <= j < d.len() implies exists|i: int|
            0 <= i < s.len() && s[i] == #[trigger] d[j] by {
            if j < kept.len() {
                assert(d[j] == kept[j]);
                let i = choose|i: int| 0 <= i < prev.len() && prev[i] == kept[j];
                assert(s[i] == prev[i]);
            } else {
                assert(s[s.len() - 1] == d[j]);
            }
        }
    }
}

/// A list in which no path is the same path as a later one is left as it is.
pub proof fn lemma_dedup_keeps_distinct(s: Seq<Seq<char>>)
    requires
        forall|j: int, k: int| 0 <= j < k < s.len() ==> !same_path(#[trigger] s[j], #[trigger] s[k]),
    ensures
        dedup_paths(s) == s,
    decreases s.len(),
{
    if s.len() > 0 {
        let prev = s.drop_last();
        assert forall|j: int, k: int| 0 <= j < k < prev.len() implies !same_path(
            #[trigger] prev[j],
            #[trigger] prev[k],
        ) by {
            assert(prev[j] == s[j] && prev[k] == s[k]);
        }
        lemma_dedup_keeps_distinct(prev);
        assert(!has_same_path(prev, s.last())) by {
            if has_same_path(prev, s.last()) {
                let j = choose|j: int| 0 <= j < prev.len() && same_path(#[trigger] prev[j], s.last());
                assert(prev[j] == s[j]);
                assert(!same_path(s[j], s[s.len() - 1]));
            }
        }
        assert(prev.push(s.last()) =~= s);
    }
}

/// Deduplicating a deduplicated list changes nothing.
pub proof fn lemma_dedup_idempotent(s: Seq<Seq<char>>)
    ensures
        dedup_paths(dedup_paths(s)) == dedup_paths(s),
{
    lemma_dedup_distinct(s);
    lemma_dedup_keeps_distinct(dedup_paths(s));
}

/// Whether some path of `s` before index `i` is the same path as `s[i]`.
pub open spec fn seen_before(s: Seq<Seq<char>>, i: int) -> bool {
    exists|j: int| 0 <= j < i && same_path(#[trigger] s[j], s[i])
}

/// The paths of `s` that no earlier path of `s` is the same path as, in order.
pub open spec fn first_occurrences(s: Seq<Seq<char>>) -> Seq<Seq<char>>
    decreases s.len(),
{
    if s.len() == 0 {
        Seq::empty()
    } else {
        let prev = first_occurrences(s.drop_last());
        if seen_before(s, s.len() - 1) {
            prev
        } else {
            prev.push(s.last())
        }
    }
}

/// Path equality is transitive among the paths of `s` (as `Path`, being `Eq`,
/// promises).
pub open spec fn same_path_transitive_on(s: Seq<Seq<char>>) -> bool {
    forall|i: int, j: int, k: int|
        #![trigger same_path(s[i], s[j]), same_path(s[j], s[k])]
        0 <= i < s.len() && 0 <= j < s.len() && 0 <= k < s.len() && same_path(s[i], s[j])
            && same_path(s[j], s[k]) ==> same_path(s[i], s[k])
}

/// Where path equality is transitive, deduplication keeps exactly the paths
/// that no earlier path equals, in their order.
pub proof fn lemma_dedup_first_occurrences(s: Seq<Seq<char>>)
    requires
        same_path_transitive_on(s),
    ensures
        dedup_paths(s) == first_occurrences(s),
    decreases s.len(),
{
    if s.len() > 0 {
        let n = s.len() as int;
        let prev = s.drop_last();
        let last = s.last();
        assert forall|i: int, j: int, k: int|
            #![trigger same_path(prev[i], prev[j]), same_path(prev[j], prev[k])]
            0 <= i < prev.len() && 0 <= j < prev.len() && 0 <= k < prev.len() && same_path(
                prev[i],
                prev[j],
            ) && same_path(prev[j], prev[k]) implies same_path(prev[i], prev[k]) by {
            assert(prev[i] == s[i] && prev[j] == s[j] && prev[k] == s[k]);
        }
        lemma_dedup_first_occurrences(prev);
        lemma_dedup_from_input(prev);
        lemma_dedup_covers(prev);
        let kept = dedup_paths(prev);
        assert(first_occurrences(prev) == first_occurrences(s.drop_last()));
        if has_same_path(kept, last) {
            let k = choose|k: int| 0 <= k < kept.len() && same_path(#[trigger] kept[k], last);
            let i = choose|i: int| 0 <= i < prev.len() && prev[i] == #[trigger] kept[k];
            assert(s[i] == prev[i]);
            assert(same_path(s[i], s[n - 1]));
            assert(seen_before(s, n - 1));
        } else {
            if seen_before(s, n - 1) {
                let j = choose|j: int| 0 <= j < n - 1 && same_path(#[trigger] s[j], s[n - 1]);
                assert(prev[j] == s[j]);
                let k = choose|k: int|
                    0 <= k < kept.len() && (kept[k] == prev[j] || same_path(kept[k], prev[j]));
                if kept[k] == prev[j] {
                    assert(same_path(kept[k], last));
                } else {
                    let i = choose|i: int| 0 <= i < prev.len() && prev[i] == #[trigger] kept[k];
                    assert(s[i] == prev[i]);
                    assert(same_path(s[i], s[j]));
                    assert(same_path(s[j], s[n - 1]));
                    assert(same_path(s[i], s[n - 1]));
                    assert(same_path(kept[k], last));
                }
                assert(has_same_path(kept, last));
            }
        }
    }
}

/// Lists the directories, separated by `", "`, for an error message.
pub fn format_candidate_dirs(dirs: &[String]) -> (res: String)
    ensures
        res@ == join_with(texts_of(dirs@), ", "@),
{
    let ghost all = texts_of(dirs@);
    let mut res = String::new();
    let n = dirs.len();
    let mut i: usize = 0;
    while i < n
        invariant
            n == dirs@.len(),
            all == texts_of(dirs@),
            i <= n,
            res@ == join_with(all.take(i as int), ", "@),
        decreases n - i,
    {
        assert(all.take(i + 1).drop_last() =~= all.take(i as int));
        if i > 0 {
            res.append(", ");
        }
        res.append(dirs[i].as_str());
        proof {
            if i == 0 {
                assert(res@ =~= all.take(1)[0]);
            }
        }
        i = i + 1;
    }
    assert(all.take(n as int) =~= all);
    res
}

/// The directory that holds `path`, as `Path::parent` gives it.
pub fn path_parent(path: &str) -> (res: Option<String>)
    ensures
        opt_string(res) == parent_of(path@),
        path@.len() == 0 ==> res is None,
{
    parent_path(path)
}

/// The message for an explicitly given file that does not exist.
pub open spec fn not_found_message(file_name: Seq<char>, path: Seq<char>) -> Seq<char> {
    file_name + " not found: "@ + path
}

/// The message for a file that no candidate directory holds.
pub open spec fn not_located_message(file_name: Seq<char>, dirs: Seq<Seq<char>>) -> Seq<char> {
    "Could not locate "@ + file_name + ". Searched: "@ + join_with(dirs, ", "@)
}

/// Some call of the file-system check (`path_exists`, which calls
/// `Path::exists`) was asked about a text with the view `path` and answered
/// `answer`.
pub closed spec fn reported_exists(path: Seq<char>, answer: bool) -> bool {
    exists|s: &str| s@ == path && #[trigger] call_ensures(path_exists, (s,), answer)
}

/// The search stopped at directory `k`: the check answered that `file_name`
/// joined to `dirs[k]` exists, and that it joined to each earlier directory
/// does not.
pub open spec fn first_found_at(dirs: Seq<Seq<char>>, file_name: Seq<char>, k: int) -> bool {
    &&& 0 <= k < dirs.len()
    &&& reported_exists(joined(dirs[k], file_name), true)
    &&& forall|j: int| 0 <= j < k ==> reported_exists(#[trigger] joined(dirs[j], file_name), false)
}

/// The check answered, for every directory of `dirs`, that `file_name` joined
/// to it does not exist.
pub open spec fn none_found(dirs: Seq<Seq<char>>, file_name: Seq<char>) -> bool {
    forall|j: int| 0 <= j < dirs.len() ==> reported_exists(#[trigger] joined(dirs[j], file_name), false)
}

/// What searching `dirs` for `file_name` gives: the file in the first
/// directory the check reported it in, or nothing when it was reported in none.
pub open spec fn search_result(dirs: Seq<Seq<char>>, file_name: Seq<char>, found: Option<Seq<char>>) -> bool {
    match found {
        Some(r) => exists|k: int| #[trigger] first_found_at(dirs, file_name, k) && r == joined(dirs[k], file_name),
        None => none_found(dirs, file_name),
    }
}

/// The view of the outcome of a resolution.
pub open spec fn outcome_of(res: Result<String, AppError>) -> Result<Seq<char>, (ErrorKind, Seq<char>)> {
    match res {
        Ok(p) => Ok(p@),
        Err(e) => Err(e@),
    }
}

/// The view of the outcome of an optional resolution.
pub open spec fn optional_outcome_of(res: Result<Option<String>, AppError>) -> Result<
    Option<Seq<char>>,
    (ErrorKind, Seq<char>),
> {
    match res {
        Ok(p) => Ok(opt_string(p)),
        Err(e) => Err(e@),
    }
}

/// What `resolve_asset_path` answers, given what the file system reported: the
/// explicit path when it was reported to exist, else its not-found error;
/// without one, the file in the first directory it was reported in, else the
/// error that lists the directories.
pub open spec fn required_asset_outcome(
    explicit: Option<Seq<char>>,
    file_name: Seq<char>,
    dirs: Seq<Seq<char>>,
    res: Result<Seq<char>, (ErrorKind, Seq<char>)>,
) -> bool {
    match explicit {
        Some(p) => match res {
            Ok(r) => r == p && reported_exists(p, true),
            Err(e) => e == (ErrorKind::BadRequest, not_found_message(file_name, p)) && reported_exists(
                p,
                false,
            ),
        },
        None => match res {
            Ok(r) => search_result(dirs, file_name, Some(r)),
            Err(e) => e == (ErrorKind::BadRequest, not_located_message(file_name, dirs))
                && search_result(dirs, file_name, None),
        },
    }
}

/// What `resolve_optional_asset_path` answers, given what the file system
/// reported: as `required_asset_outcome`, but nothing in place of an error
/// when the file was reported in no directory.
pub open spec fn optional_asset_outcome(
    explicit: Option<Seq<char>>,
    file_name: Seq<char>,
    dirs: Seq<Seq<char>>,
    res: Result<Option<Seq<char>>, (ErrorKind, Seq<char>)>,
) -> bool {
    match explicit {
        Some(p) => match res {
            Ok(r) => r == Some(p) && reported_exists(p, true),
            Err(e) => e == (ErrorKind::BadRequest, not_found_message(file_name, p)) && reported_exists(
                p,
                false,
            ),
        },
        None => match res {
            Ok(r) => search_result(dirs, file_name, r),
            Err(_) => false,
        },
    }
}

fn not_found_error(file_name: &str, path: &str) -> (e: AppError)
    ensures
        e@ == (ErrorKind::BadRequest, not_found_message(file_name@, path@)),
{
    let mut message = String::from_str(file_name);
    message.append(" not found: ");
    message.append(path);
    AppError::bad_request(message)
}

/// The answer for an explicitly given file, once the file system has said
/// whether it exists: the path itself, or an error naming it.
pub fn explicit_asset_outcome(path: &String, file_name: &str, exists: bool) -> (res: Result<
    String,
    AppError,
>)
    ensures
        exists ==> outcome_of(res) == Ok::<Seq<char>, (ErrorKind, Seq<char>)>(path@),
        !exists ==> outcome_of(res) == Err::<Seq<char>, (ErrorKind, Seq<char>)>(
            (ErrorKind::BadRequest, not_found_message(file_name@, path@)),
        ),
{
    if exists {
        Ok(path.clone())
    } else {
        Err(not_found_error(file_name, path.as_str()))
    }
}

/// The answer for a required file searched for in `candidate_dirs`, once the
/// search has found `found` (or nothing): that path, or an error listing the
/// directories searched.
pub fn searched_asset_outcome(found: Option<String>, file_name: &str, candidate_dirs: &[String]) -> (res:
    Result<String, AppError>)
    ensures
        match found {
            Some(p) => outcome_of(res) == Ok::<Seq<char>, (ErrorKind, Seq<char>)>(p@),
            None => outcome_of(res) == Err::<Seq<char>, (ErrorKind, Seq<char>)>(
                (ErrorKind::BadRequest, not_located_message(file_name@, texts_of(candidate_dirs@))),
            ),
        },
{
    match found {
        Some(p) => Ok(p),
        None => {
            let mut message = String::from_str("Could not locate ");
            message.append(file_name);
            message.append(". Searched: ");
            let listed = format_candidate_dirs(candidate_dirs);
            message.append(listed.as_str());
            Err(AppError::bad_request(message))
        },
    }
}

/// Looks for `file_name` in each candidate directory in turn and gives the
/// first joined path that the file system reports to exist.
fn first_existing(file_name: &str, candidate_dirs: &[String]) -> (res: Option<String>)
    ensures
        search_result(texts_of(candidate_dirs@), file_name@, opt_string(res)),
{
    let ghost dirs = texts_of(candidate_dirs@);
    let n = candidate_dirs.len();
    let mut i: usize = 0;
    while i < n
        invariant
            n == candidate_dirs@.len(),
            dirs == texts_of(candidate_dirs@),
            i <= n,
            forall|j: int| 0 <= j < i ==> reported_exists(#[trigger] joined(dirs[j], file_name@), false),
        decreases n - i,
    {
        let candidate = join_path(candidate_dirs[i].as_str(), file_name);
        let probe: &str = candidate.as_str();
        let answer = path_exists(probe);
        assert(candidate@ == joined(dirs[i as int], file_name@));
        assert(reported_exists(candidate@, answer));
        if answer {
            assert(first_found_at(dirs, file_name@, i as int));
            return Some(candidate);
        }
        i = i + 1;
    }
    None
}

/// Resolves a required file: the explicit path when it exists, else an error
/// naming it; without one, the first candidate directory that holds the file,
/// else an error listing the directories searched.
pub fn resolve_asset_path(
    explicit_path: Option<&String>,
    file_name: &str,
    candidate_dirs: &[String],
) -> (res: Result<String, AppError>)
    ensures
        required_asset_outcome(
            opt_string_ref(explicit_path),
            file_name@,
            texts_of(candidate_dirs@),
            outcome_of(res),
        ),
        explicit_path matches Some(p) ==> (res matches Ok(r) ==> r@ == p@),
        explicit_path matches Some(p) ==> (res matches Err(e) ==> e@ == (
            ErrorKind::BadRequest,
            not_found_message(file_name@, p@),
        )),
{
    if let Some(path) = explicit_path {
        let probe: &str = path.as_str();
        let exists = path_exists(probe);
        assert(reported_exists(path@, exists));
        return explicit_asset_outcome(path, file_name, exists);
    }
    let found = first_existing(file_name, candidate_dirs);
    searched_asset_outcome(found, file_name, candidate_dirs)
}

/// Resolves an optional file: the explicit path when it exists, else an error
/// naming it; without one, the first candidate directory that holds the file,
/// else nothing.
pub fn resolve_optional_asset_path(
    explicit_path: Option<&String>,
    file_name: &str,
    candidate_dirs: &[String],
) -> (res: Result<Option<String>, AppError>)
    ensures
        optional_asset_outcome(
            opt_string_ref(explicit_path),
            file_name@,
            texts_of(candidate_dirs@),
            optional_outcome_of(res),
        ),
        explicit_path matches Some(p) ==> (res matches Ok(r) ==> opt_string(r) == Some(p@)),
        explicit_path matches Some(p) ==> (res matches Err(e) ==> e@ == (
            ErrorKind::BadRequest,
            not_found_message(file_name@, p@),
        )),
        explicit_path is None ==> res is Ok,
{
    if let Some(path) = explicit_path {
        let probe: &str = path.as_str();
        let exists = path_exists(probe);
        assert(reported_exists(path@, exists));
        return match explicit_asset_outcome(path, file_name, exists) {
            Ok(p) => Ok(Some(p)),
            Err(e) => Err(e),
        };
    }
    Ok(first_existing(file_name, candidate_dirs))
}

/// The one-element list of `o`'s path, or the empty list.
pub open spec fn listed(o: Option<Seq<char>>) -> Seq<Seq<char>> {
    match o {
        Some(p) => seq![p],
        None => Seq::empty(),
    }
}

/// The parent of an optional path.
pub open spec fn parent_in(o: Option<Seq<char>>) -> Option<Seq<char>> {
    match o {
        Some(p) => parent_of(p),
        None => None,
    }
}

/// An optional path joined with `name`.
pub open spec fn joined_in(o: Option<Seq<char>>, name: Seq<char>) -> Option<Seq<char>> {
    match o {
        Some(p) => Some(joined(p, name)),
        None => None,
    }
}

/// The directories searched for the speech model and its tokens, in order:
/// the model directory given, the directories of the model and token files
/// given, then the default directory beside the executable and under the
/// working directory; without repeats.
pub open spec fn model_dir_candidates(
    args: Args,
    exe_path: Option<Seq<char>>,
    cwd: Option<Seq<char>>,
) -> Seq<Seq<char>> {
    dedup_paths(
        listed(opt_string(args.model_dir)) + listed(parent_in(opt_string(args.model))) + listed(
            parent_in(opt_string(args.tokens)),
        ) + listed(joined_in(parent_in(exe_path), DEFAULT_MODEL_DIR@)) + listed(
            joined_in(cwd, DEFAULT_MODEL_DIR@),
        ),
    )
}

/// The directories searched for the punctuation model, in order: the
/// directory of the punctuation model given; the punctuation directory beside
/// the model directory given, and beside the directories that hold the model
/// and token files' directories; then the default punctuation directory
/// beside the executable and under the working directory; without repeats.
pub open spec fn punct_dir_candidates(
    args: Args,
    exe_path: Option<Seq<char>>,
    cwd: Option<Seq<char>>,
) -> Seq<Seq<char>> {
    dedup_paths(
        listed(parent_in(opt_string(args.punct_model))) + listed(
            joined_in(parent_in(opt_string(args.model_dir)), DEFAULT_PUNCT_MODEL_DIR_NAME@),
        ) + listed(
            joined_in(parent_in(parent_in(opt_string(args.model))), DEFAULT_PUNCT_MODEL_DIR_NAME@),
        ) + listed(
            joined_in(parent_in(parent_in(opt_string(args.tokens))), DEFAULT_PUNCT_MODEL_DIR_NAME@),
        ) + listed(joined_in(parent_in(exe_path), DEFAULT_PUNCT_MODEL_DIR@)) + listed(
            joined_in(cwd, DEFAULT_PUNCT_MODEL_DIR@),
        ),
    )
}

fn borrow_text(o: &Option<String>) -> (r: Option<&String>)
    ensures
        opt_string_ref(r) == opt_string(*o),
{
    match o {
        Some(t) => Some(t),
        None => None,
    }
}

fn copy_text(o: Option<&String>) -> (r: Option<String>)
    ensures
        opt_string(r) == opt_string_ref(o),
{
    match o {
        Some(t) => Some(t.clone()),
        None => None,
    }
}

fn parent_if_any(o: Option<&String>) -> (r: Option<String>)
    ensures
        opt_string(r) == parent_in(opt_string_ref(o)),
{
    match o {
        Some(t) => parent_path(t.as_str()),
        None => None,
    }
}

fn parent_if_any_owned(o: Option<String>) -> (r: Option<String>)
    ensures
        opt_string(r) == parent_in(opt_string(o)),
{
    match o {
        Some(t) => parent_path(t.as_str()),
        None => None,
    }
}

fn join_if_any(o: Option<String>, name: &str) -> (r: Option<String>)
    ensures
        opt_string(r) == joined_in(opt_string(o), name@),
{
    match o {
        Some(t) => Some(join_path(t.as_str(), name)),
        None => None,
    }
}

fn push_if_any(list: &mut Vec<String>, o: Option<String>)
    ensures
        texts_of(final(list)@) == texts_of(old(list)@) + listed(opt_string(o)),
{
    match o {
        Some(t) => {
            list.push(t);
            assert(texts_of(list@) =~= texts_of(old(list)@) + listed(opt_string(Some(t))));
        },
        None => {
            assert(texts_of(list@) =~= texts_of(old(list)@) + listed(opt_string(None::<String>)));
        },
    }
}

/// The directories to search for the speech model and its tokens; the
/// executable's path and the working directory are passed in.
pub fn candidate_model_dirs(args: &Args, exe_path: Option<&String>, cwd: Option<&String>) -> (dirs:
    Vec<String>)
    ensures
        texts_of(dirs@) == model_dir_candidates(*args, opt_string_ref(exe_path), opt_string_ref(cwd)),
        args.model_dir matches Some(d) ==> dirs@.len() > 0 && dirs@[0]@ == d@,
{
    let exe_dir = parent_if_any(exe_path);
    let mut all: Vec<String> = Vec::new();
    push_if_any(&mut all, copy_text(borrow_text(&args.model_dir)));
    push_if_any(&mut all, parent_if_any(borrow_text(&args.model)));
    push_if_any(&mut all, parent_if_any(borrow_text(&args.tokens)));
    push_if_any(&mut all, join_if_any(exe_dir, DEFAULT_MODEL_DIR));
    push_if_any(&mut all, join_if_any(copy_text(cwd), DEFAULT_MODEL_DIR));
    let ghost listed_all = texts_of(all@);
    assert(listed_all =~= listed(opt_string(args.model_dir)) + listed(parent_in(opt_string(args.model)))
        + listed(parent_in(opt_string(args.tokens))) + listed(
        joined_in(parent_in(opt_string_ref(exe_path)), DEFAULT_MODEL_DIR@),
    ) + listed(joined_in(opt_string_ref(cwd), DEFAULT_MODEL_DIR@)));
    proof {
        lemma_model_dirs_start_with_model_dir(*args, opt_string_ref(exe_path), opt_string_ref(cwd));
    }
    let dirs = dedupe_paths(all);
    proof {
        if args.model_dir is Some {
            assert(texts_of(dirs@)[0] == dirs@[0]@);
        }
    }
    dirs
}

/// The directories to search for the punctuation model; the executable's
/// path and the working directory are passed in.
pub fn punct_model_candidate_dirs(args: &Args, exe_path: Option<&String>, cwd: Option<&String>) -> (dirs:
    Vec<String>)
    ensures
        texts_of(dirs@) == punct_dir_candidates(*args, opt_string_ref(exe_path), opt_string_ref(cwd)),
        ({
            let beside = joined_in(parent_in(opt_string(args.model_dir)), DEFAULT_PUNCT_MODEL_DIR_NAME@);
            &&& beside matches Some(b) ==> exists|j: int|
                0 <= j < dirs@.len() && (#[trigger] dirs@[j]@ == b || same_path(dirs@[j]@, b))
            &&& (args.punct_model is None && beside is Some) ==> dirs@.len() > 0 && Some(dirs@[0]@)
                == beside
        }),
{
    let exe_dir = parent_if_any(exe_path);
    let mut all: Vec<String> = Vec::new();
    push_if_any(&mut all, parent_if_any(borrow_text(&args.punct_model)));
    push_if_any(
        &mut all,
        join_if_any(parent_if_any(borrow_text(&args.model_dir)), DEFAULT_PUNCT_MODEL_DIR_NAME),
    );
    push_if_any(
        &mut all,
        join_if_any(
            parent_if_any_owned(parent_if_any(borrow_text(&args.model))),
            DEFAULT_PUNCT_MODEL_DIR_NAME,
        ),
    );
    push_if_any(
        &mut all,
        join_if_any(
            parent_if_any_owned(parent_if_any(borrow_text(&args.tokens))),
            DEFAULT_PUNCT_MODEL_DIR_NAME,
        ),
    );
    push_if_any(&mut all, join_if_any(exe_dir, DEFAULT_PUNCT_MODEL_DIR));
    push_if_any(&mut all, join_if_any(copy_text(cwd), DEFAULT_PUNCT_MODEL_DIR));
    let ghost listed_all = texts_of(all@);
    assert(listed_all =~= listed(parent_in(opt_string(args.punct_model))) + listed(
        joined_in(parent_in(opt_string(args.model_dir)), DEFAULT_PUNCT_MODEL_DIR_NAME@),
    ) + listed(
        joined_in(parent_in(parent_in(opt_string(args.model))), DEFAULT_PUNCT_MODEL_DIR_NAME@),
    ) + listed(
        joined_in(parent_in(parent_in(opt_string(args.tokens))), DEFAULT_PUNCT_MODEL_DIR_NAME@),
    ) + listed(joined_in(parent_in(opt_string_ref(exe_path)), DEFAULT_PUNCT_MODEL_DIR@)) + listed(
        joined_in(opt_string_ref(cwd), DEFAULT_PUNCT_MODEL_DIR@),
    ));
    proof {
        lemma_punct_dirs_include_beside_model_dir(*args, opt_string_ref(exe_path), opt_string_ref(cwd));
    }
    let dirs = dedupe_paths(all);
    proof {
        let ghost c = texts_of(dirs@);
        assert forall|j: int| 0 <= j < dirs@.len() implies #[trigger] dirs@[j]@ == c[j] by {}
    }
    dirs
}

/// Deduplication keeps what it kept of the list without its last path, in
/// front.
proof fn lemma_dedup_prefix(s: Seq<Seq<char>>)
    requires
        s.len() > 0,
    ensures
        dedup_paths(s.drop_last()).len() <= dedup_paths(s).len(),
        forall|j: int|
            0 <= j < dedup_paths(s.drop_last()).len() ==> #[trigger] dedup_paths(s)[j]
                == dedup_paths(s.drop_last())[j],
{
}

/// Deduplication always keeps the first path.
pub proof fn lemma_dedup_keeps_first(s: Seq<Seq<char>>)
    requires
        s.len() > 0,
    ensures
        dedup_paths(s).len() > 0,
        dedup_paths(s)[0] == s[0],
    decreases s.len(),
{
    if s.len() == 1 {
        assert(dedup_paths(s.drop_last()).len() == 0);
    } else {
        let prev = s.drop_last();
        lemma_dedup_keeps_first(prev);
        lemma_dedup_prefix(s);
        assert(dedup_paths(s)[0] == dedup_paths(prev)[0]);
    }
}

/// A model directory that is given is always searched, and first, whatever
/// else is given.
pub proof fn lemma_model_dirs_start_with_model_dir(
    args: Args,
    exe_path: Option<Seq<char>>,
    cwd: Option<Seq<char>>,
)
    ensures
        args.model_dir matches Some(d) ==> ({
            let c = model_dir_candidates(args, exe_path, cwd);
            c.len() > 0 && c[0] == d@
        }),
{
    if args.model_dir is Some {
        let s = listed(opt_string(args.model_dir)) + listed(parent_in(opt_string(args.model)))
            + listed(parent_in(opt_string(args.tokens))) + listed(
            joined_in(parent_in(exe_path), DEFAULT_MODEL_DIR@),
        ) + listed(joined_in(cwd, DEFAULT_MODEL_DIR@));
        assert(s[0] == args.model_dir.unwrap()@);
        lemma_dedup_keeps_first(s);
    }
}

/// When a model directory with a parent is given, the punctuation directory
/// beside it is searched: some searched directory is that path (or the same
/// path); and it is searched first when no punctuation model is given.
pub proof fn lemma_punct_dirs_include_beside_model_dir(
    args: Args,
    exe_path: Option<Seq<char>>,
    cwd: Option<Seq<char>>,
)
    ensures
        ({
            let c = punct_dir_candidates(args, exe_path, cwd);
            let beside = joined_in(parent_in(opt_string(args.model_dir)), DEFAULT_PUNCT_MODEL_DIR_NAME@);
            &&& match opt_string(args.model_dir) {
                Some(d) => match parent_of(d) {
                    Some(q) => exists|j: int|
                        0 <= j < c.len() && (#[trigger] c[j] == joined(q, DEFAULT_PUNCT_MODEL_DIR_NAME@)
                            || same_path(c[j], joined(q, DEFAULT_PUNCT_MODEL_DIR_NAME@))),
                    None => true,
                },
                None => true,
            }
            &&& beside matches Some(b) ==> exists|j: int|
                0 <= j < c.len() && (#[trigger] c[j] == b || same_path(c[j], b))
            &&& (args.punct_model is None && beside is Some) ==> c.len() > 0 && Some(c[0]) == beside
        }),
{
    let beside = joined_in(parent_in(opt_string(args.model_dir)), DEFAULT_PUNCT_MODEL_DIR_NAME@);
    let first = listed(parent_in(opt_string(args.punct_model)));
    let s = first + listed(beside) + listed(
        joined_in(parent_in(parent_in(opt_string(args.model))), DEFAULT_PUNCT_MODEL_DIR_NAME@),
    ) + listed(
        joined_in(parent_in(parent_in(opt_string(args.tokens))), DEFAULT_PUNCT_MODEL_DIR_NAME@),
    ) + listed(joined_in(parent_in(exe_path), DEFAULT_PUNCT_MODEL_DIR@)) + listed(
        joined_in(cwd, DEFAULT_PUNCT_MODEL_DIR@),
    );
    let c = punct_dir_candidates(args, exe_path, cwd);
    assert(c == dedup_paths(s));
    if beside is Some {
        let b = beside.unwrap();
        let i = first.len() as int;
        assert(s[i] == b);
        lemma_dedup_covers(s);
        let j = choose|j: int| 0 <= j < c.len() && (c[j] == #[trigger] s[i] || same_path(c[j], s[i]));
        assert(c[j] == b || same_path(c[j], b));
        if args.punct_model is None {
            assert(first.len() == 0);
            lemma_dedup_keeps_first(s);
        }
    }
}

/// With an explicit path, resolution never searches: it answers that path,
/// and only when the file system reported it to exist, or the error naming
/// it, and only when the file system reported it missing.
pub proof fn lemma_explicit_path_decides(
    p: Seq<char>,
    file_name: Seq<char>,
    dirs: Seq<Seq<char>>,
    res: Result<Seq<char>, (ErrorKind, Seq<char>)>,
)
    requires
        required_asset_outcome(Some(p), file_name, dirs, res),
    ensures
        res matches Ok(r) ==> r == p && reported_exists(p, true),
        res matches Err(e) ==> e == (ErrorKind::BadRequest, file_name + " not found: "@ + p)
            && reported_exists(p, false),
{
}

/// The same for an optional file.
pub proof fn lemma_optional_explicit_path_decides(
    p: Seq<char>,
    file_name: Seq<char>,
    dirs: Seq<Seq<char>>,
    res: Result<Option<Seq<char>>, (ErrorKind, Seq<char>)>,
)
    requires
        optional_asset_outcome(Some(p), file_name, dirs, res),
    ensures
        res matches Ok(r) ==> r == Some(p) && reported_exists(p, true),
        res matches Err(e) ==> e == (ErrorKind::BadRequest, file_name + " not found: "@ + p)
            && reported_exists(p, false),
{
}

} // verus!
