//! File tools: the search query and limits, and the evidence that decides
//! whether a file operation really happened.

use vstd::prelude::*;
use crate::error::{ErrorKind, ErrorView, ObError, err_of, res_view};
use crate::text::{
    chars_of, contains, contains_exec, eq_str, is_space, is_space_char, lowercase, owned, string_of,
    to_lower, views_of,
};

verus! {

/// Deepest folder level searched below the root.
pub const MAX_SEARCH_DEPTH: usize = 12;

/// Most results a search returns.
pub const MAX_SEARCH_RESULTS: usize = 500;

/// A file or folder found by a search.
pub struct FileMatch {
    pub path: String,
    pub name: String,
    pub size_bytes: u64,
    /// Last modification, as RFC 3339 text.
    pub modified_at: Option<String>,
    pub kind: String,
    pub matched_by: Vec<String>,
}

/// What is known of a path after an operation.
pub struct FileEvidence {
    pub path: String,
    pub exists: bool,
    pub size_bytes: Option<u64>,
    pub sha256: Option<String>,
}

/// The number of results a search may return: at least one, at most the limit.
pub fn search_limit(limit: usize) -> (r: usize)
    ensures
        r == (if limit < 1 {
            1
        } else if limit > MAX_SEARCH_RESULTS {
            MAX_SEARCH_RESULTS
        } else {
            limit
        }),
{
    if limit < 1 {
        1
    } else if limit > MAX_SEARCH_RESULTS {
        MAX_SEARCH_RESULTS
    } else {
        limit
    }
}

/// The words completed while reading `s` after the partial word `cur`
/// (`str::split_whitespace`).
pub open spec fn words_from(cur: Seq<char>, s: Seq<char>) -> Seq<Seq<char>>
    decreases s.len(),
{
    if s.len() == 0 {
        if cur.len() > 0 {
            seq![cur]
        } else {
            Seq::empty()
        }
    } else if is_space(s[0]) {
        (if cur.len() > 0 {
            seq![cur]
        } else {
            Seq::empty()
        }) + words_from(Seq::empty(), s.subrange(1, s.len() as int))
    } else {
        words_from(cur.push(s[0]), s.subrange(1, s.len() as int))
    }
}

/// The words of a text: its maximal runs of characters other than white space.
pub open spec fn words(s: Seq<char>) -> Seq<Seq<char>> {
    words_from(Seq::empty(), s)
}

/// The search terms of a query: its lowercase words.
pub fn search_terms(query: &str) -> (r: Vec<String>)
    ensures
        views_of(r@) == words(lowercase(query@)),
{
    let lower_s = to_lower(query);
    let s = chars_of(lower_s.as_str());
    let mut out: Vec<String> = Vec::new();
    let mut cur: Vec<char> = Vec::new();
    let mut i: usize = 0;
    assert(s@.subrange(0, s.len() as int) =~= s@);
    while i < s.len()
        invariant
            i <= s.len(),
            s@ == lowercase(query@),
            words(s@) == views_of(out@) + words_from(cur@, s@.subrange(i as int, s.len() as int)),
        decreases s.len() - i,
    {
        let ghost t = s@.subrange(i as int, s.len() as int);
        assert(t[0] == s@[i as int]);
        assert(t.subrange(1, t.len() as int) =~= s@.subrange(i + 1, s.len() as int));
        if is_space_char(s[i]) {
            let ghost before = views_of(out@);
            if cur.len() > 0 {
                out.push(string_of(&cur));
                assert(views_of(out@) =~= before.push(cur@));
                assert(before + (seq![cur@] + words_from(Seq::empty(), s@.subrange(i + 1, s.len() as int)))
                    =~= views_of(out@) + words_from(Seq::empty(), s@.subrange(i + 1, s.len() as int)));
            } else {
                assert(Seq::<Seq<char>>::empty() + words_from(Seq::empty(), s@.subrange(i + 1, s.len() as int))
                    =~= words_from(Seq::empty(), s@.subrange(i + 1, s.len() as int)));
            }
            cur = Vec::new();
        } else {
            cur.push(s[i]);
        }
        i = i + 1;
    }
    let ghost before = views_of(out@);
    if cur.len() > 0 {
        out.push(string_of(&cur));
        assert(views_of(out@) =~= before + seq![cur@]);
    } else {
        assert(views_of(out@) =~= before + Seq::<Seq<char>>::empty());
    }
    out
}

/// A file name matches when its lowercase form contains every term.
pub open spec fn name_matches_spec(name: Seq<char>, terms: Seq<Seq<char>>) -> bool {
    forall|i: int| 0 <= i < terms.len() ==> contains(lowercase(name), #[trigger] terms[i])
}

/// Whether a file name matches the search terms.
pub fn name_matches(name: &str, terms: &Vec<String>) -> (r: bool)
    ensures
        r == name_matches_spec(name@, views_of(terms@)),
{
    let lower_s = to_lower(name);
    let lower = chars_of(lower_s.as_str());
    let mut i: usize = 0;
    while i < terms.len()
        invariant
            i <= terms.len(),
            lower@ == lowercase(name@),
            forall|j: int| 0 <= j < i ==> contains(lower@, #[trigger] views_of(terms@)[j]),
        decreases terms.len() - i,
    {
        let t = chars_of(terms[i].as_str());
        if !contains_exec(&lower, &t) {
            assert(views_of(terms@)[i as int] == t@);
            return false;
        }
        i = i + 1;
    }
    true
}

/// A search result for a file or folder matched by its name.
pub fn file_match(path: String, name: String, size_bytes: u64, modified_at: Option<String>, is_dir: bool) -> (r: FileMatch)
    ensures
        r.path == path,
        r.name == name,
        r.size_bytes == size_bytes,
        r.modified_at == modified_at,
        r.kind@ == (if is_dir {
            "folder"@
        } else {
            "file"@
        }),
        views_of(r.matched_by@) == seq!["filename"@],
{
    let mut by: Vec<String> = Vec::new();
    by.push(owned("filename"));
    assert(views_of(by@) =~= seq!["filename"@]);
    FileMatch {
        path,
        name,
        size_bytes,
        modified_at,
        kind: if is_dir {
            owned("folder")
        } else {
            owned("file")
        },
        matched_by: by,
    }
}

/// What a search does with the next entry of the walk.
#[derive(Debug, PartialEq, Eq, Structural)]
pub enum SearchStep {
    /// The limit is reached: the walk ends.
    Stop,
    /// The name does not match: the entry is passed over.
    Skip,
    /// The name matches: the entry's details are read and it is recorded.
    Inspect,
}

/// The step for an entry named `name` once `found` results were recorded.
pub open spec fn search_step_spec(found: nat, cap: nat, name: Seq<char>, terms: Seq<Seq<char>>) -> SearchStep {
    if found >= cap {
        SearchStep::Stop
    } else if !name_matches_spec(name, terms) {
        SearchStep::Skip
    } else {
        SearchStep::Inspect
    }
}

/// Decides the step for the next entry of the walk.
pub fn search_step(found: usize, cap: usize, name: &str, terms: &Vec<String>) -> (r: SearchStep)
    ensures
        r == search_step_spec(found as nat, cap as nat, name@, views_of(terms@)),
{
    if found >= cap {
        SearchStep::Stop
    } else if !name_matches(name, terms) {
        SearchStep::Skip
    } else {
        SearchStep::Inspect
    }
}

/// Search results that keep the search's promise: no more than `cap` of
/// them, and every name matches every term.
pub open spec fn results_ok(results: Seq<FileMatch>, cap: nat, terms: Seq<Seq<char>>) -> bool {
    &&& results.len() <= cap
    &&& forall|i: int| 0 <= i < results.len() ==> name_matches_spec((#[trigger] results[i]).name@, terms)
}

/// Records an entry of the walk as a result, when there is room for it and
/// its name matches; otherwise leaves the results as they are. Results that
/// keep the search's promise keep it.
pub fn add_match(
    results: &mut Vec<FileMatch>,
    cap: usize,
    terms: &Vec<String>,
    path: String,
    name: String,
    size_bytes: u64,
    modified_at: Option<String>,
    is_dir: bool,
) -> (added: bool)
    ensures
        added == (old(results)@.len() < cap && name_matches_spec(name@, views_of(terms@))),
        !added ==> final(results)@ == old(results)@,
        added ==> {
            &&& final(results)@.len() == old(results)@.len() + 1
            &&& final(results)@.subrange(0, old(results)@.len() as int) == old(results)@
            &&& final(results)@.last().path == path
            &&& final(results)@.last().name == name
            &&& final(results)@.last().size_bytes == size_bytes
            &&& final(results)@.last().modified_at == modified_at
            &&& final(results)@.last().kind@ == (if is_dir { "folder"@ } else { "file"@ })
            &&& views_of(final(results)@.last().matched_by@) == seq!["filename"@]
        },
        results_ok(old(results)@, cap as nat, views_of(terms@)) ==> results_ok(final(results)@, cap as nat, views_of(terms@)),
{
    if results.len() < cap && name_matches(name.as_str(), terms) {
        let m = file_match(path, name, size_bytes, modified_at, is_dir);
        results.push(m);
        assert(results@.subrange(0, old(results)@.len() as int) =~= old(results)@);
        true
    } else {
        false
    }
}

/// The evidence for a path that does not exist.
pub fn absent(path: String) -> (r: FileEvidence)
    ensures
        r.path == path,
        !r.exists,
        r.size_bytes is None,
        r.sha256 is None,
{
    FileEvidence { path, exists: false, size_bytes: None, sha256: None }
}

/// The evidence for an existing path: files carry their size and digest,
/// folders neither.
pub fn present(path: String, is_file: bool, size_bytes: u64, sha256: Option<String>) -> (r: FileEvidence)
    ensures
        r.path == path,
        r.exists,
        r.size_bytes == (if is_file {
            Some(size_bytes)
        } else {
            None::<u64>
        }),
        r.sha256 == (if is_file {
            sha256
        } else {
            None::<String>
        }),
{
    if is_file {
        FileEvidence { path, exists: true, size_bytes: Some(size_bytes), sha256 }
    } else {
        FileEvidence { path, exists: true, size_bytes: None, sha256: None }
    }
}

/// A created path must exist, and a written file must have the written size.
pub fn verify_present(evidence: &FileEvidence, expected_size: Option<u64>) -> (r: Result<(), ObError>)
    ensures
        r is Ok <==> evidence.exists && (expected_size is None || evidence.size_bytes == expected_size),
        r is Err ==> res_view(r) == Err::<(), ErrorView>(err_of(ErrorKind::Internal, "Filesystem verification failed"@)),
{
    let size_ok = match expected_size {
        None => true,
        Some(n) => match evidence.size_bytes {
            Some(m) => m == n,
            None => false,
        },
    };
    if !evidence.exists || !size_ok {
        Err(ObError::Internal(owned("Filesystem verification failed")))
    } else {
        Ok(())
    }
}

/// A copy must carry the source's SHA-256 digest.
pub fn verify_copy(evidence: &FileEvidence, source_hash: &str) -> (r: Result<(), ObError>)
    ensures
        r is Ok <==> (evidence.sha256 matches Some(h) && h@ == source_hash@),
        r is Err ==> res_view(r) == Err::<(), ErrorView>(err_of(ErrorKind::Internal, "Copied file hash did not match source"@)),
{
    let ok = match &evidence.sha256 {
        Some(h) => {
            let a = chars_of(h.as_str());
            eq_str(&a, source_hash)
        },
        None => false,
    };
    if ok {
        Ok(())
    } else {
        Err(ObError::Internal(owned("Copied file hash did not match source")))
    }
}

/// A move must leave the source absent and the destination present.
pub fn verify_move(source_exists: bool, destination: &FileEvidence) -> (r: Result<(), ObError>)
    ensures
        r is Ok <==> !source_exists && destination.exists,
        r is Err ==> res_view(r) == Err::<(), ErrorView>(err_of(ErrorKind::Internal, "Move verification failed"@)),
{
    if source_exists || !destination.exists {
        Err(ObError::Internal(owned("Move verification failed")))
    } else {
        Ok(())
    }
}

/// A deleted path must no longer exist.
pub fn verify_delete(evidence: &FileEvidence) -> (r: Result<(), ObError>)
    ensures
        r is Ok <==> !evidence.exists,
        r is Err ==> res_view(r) == Err::<(), ErrorView>(err_of(ErrorKind::Internal, "Delete verification failed"@)),
{
    if evidence.exists {
        Err(ObError::Internal(owned("Delete verification failed")))
    } else {
        Ok(())
    }
}

/// The operations that refuse an existing destination.
#[derive(Clone, Copy, Debug, PartialEq, Eq, Structural)]
pub enum FileOperation {
    CreateDirectory,
    WriteText,
    Copy,
    Move,
}

/// The refusal text for an existing destination.
pub open spec fn destination_taken_text(op: FileOperation) -> Seq<char> {
    match op {
        FileOperation::CreateDirectory => "Destination already exists"@,
        FileOperation::WriteText | FileOperation::Copy => "Destination already exists; overwrite requires explicit approval"@,
        FileOperation::Move => "Destination already exists; choose rename, skip, or approve overwrite"@,
    }
}

/// The refusal of an operation whose destination already exists: nothing is
/// ever overwritten implicitly.
pub fn destination_taken(op: FileOperation) -> (e: ObError)
    ensures
        e@ == err_of(ErrorKind::Validation, destination_taken_text(op)),
{
    match op {
        FileOperation::CreateDirectory => ObError::Validation(owned("Destination already exists")),
        FileOperation::WriteText | FileOperation::Copy => ObError::Validation(owned("Destination already exists; overwrite requires explicit approval")),
        FileOperation::Move => ObError::Validation(owned("Destination already exists; choose rename, skip, or approve overwrite")),
    }
}

/// A non-empty run of characters none of which is white space.
pub open spec fn is_word(w: Seq<char>) -> bool {
    w.len() > 0 && forall|j: int| 0 <= j < w.len() ==> !is_space(#[trigger] w[j])
}

/// Search terms never hold white space and are never empty.
pub proof fn law_search_terms_are_words(s: Seq<char>)
    ensures
        forall|i: int| 0 <= i < words(s).len() ==> is_word(#[trigger] words(s)[i]),
{
    lemma_words_from(Seq::empty(), s);
}

proof fn lemma_words_from(cur: Seq<char>, s: Seq<char>)
    requires
        forall|j: int| 0 <= j < cur.len() ==> !is_space(#[trigger] cur[j]),
    ensures
        forall|i: int| 0 <= i < words_from(cur, s).len() ==> is_word(#[trigger] words_from(cur, s)[i]),
    decreases s.len(),
{
    if s.len() == 0 {
        if cur.len() > 0 {
            assert(words_from(cur, s) == seq![cur]);
            assert(is_word(cur));
        }
    } else if is_space(s[0]) {
        lemma_words_from(Seq::empty(), s.subrange(1, s.len() as int));
        let head: Seq<Seq<char>> = if cur.len() > 0 { seq![cur] } else { Seq::empty() };
        let rest = words_from(Seq::empty(), s.subrange(1, s.len() as int));
        assert(words_from(cur, s) == head + rest);
        assert forall|i: int| 0 <= i < words_from(cur, s).len() implies is_word(#[trigger] words_from(cur, s)[i]) by {
            if i < head.len() {
                assert(words_from(cur, s)[i] == cur);
            } else {
                assert(words_from(cur, s)[i] == rest[i - head.len()]);
            }
        }
    } else {
        let c2 = cur.push(s[0]);
        assert forall|j: int| 0 <= j < c2.len() implies !is_space(#[trigger] c2[j]) by {
            if j < cur.len() {
                assert(c2[j] == cur[j]);
            }
        }
        lemma_words_from(c2, s.subrange(1, s.len() as int));
        assert(words_from(cur, s) == words_from(c2, s.subrange(1, s.len() as int)));
    }
}

} // verus!
