//! Application launching through the safe application registry: a request
//! names an application, and only an executable registered for that name
//! may be started.

use vstd::prelude::*;
use crate::error::{ErrorKind, ErrorView, ObError, err_of};
use crate::text::{
    chars_of, concat, contains, contains_exec, lowercase, owned, same_chars, string_of, to_lower, trim_chars,
    trimmed,
};

verus! {

/// The evidence that a launch happened.
pub struct LaunchEvidence {
    pub requested: String,
    pub executable: String,
    pub process_detected: bool,
    pub process_name: Option<String>,
}

/// The safe application registry: spoken names and their executables.
pub open spec fn app_table() -> Seq<(Seq<char>, Seq<char>)> {
    seq![
        ("notepad"@, "notepad.exe"@),
        ("chrome"@, "chrome.exe"@),
        ("google chrome"@, "chrome.exe"@),
        ("edge"@, "msedge.exe"@),
        ("microsoft edge"@, "msedge.exe"@),
        ("vs code"@, "code.cmd"@),
        ("visual studio code"@, "code.cmd"@),
        ("calculator"@, "calc.exe"@),
        ("explorer"@, "explorer.exe"@),
        ("file explorer"@, "explorer.exe"@),
        ("spotify"@, "spotify.exe"@),
        ("powershell"@, "powershell.exe"@),
    ]
}

/// The registry as a list of name and executable pairs.
pub fn app_map() -> (r: Vec<(String, String)>)
    ensures
        r@.len() == app_table().len(),
        forall|i: int| 0 <= i < r@.len() ==> (#[trigger] r@[i]).0@ == app_table()[i].0 && r@[i].1@ == app_table()[i].1,
{
    let mut v: Vec<(String, String)> = Vec::new();
    v.push((owned("notepad"), owned("notepad.exe")));
    v.push((owned("chrome"), owned("chrome.exe")));
    v.push((owned("google chrome"), owned("chrome.exe")));
    v.push((owned("edge"), owned("msedge.exe")));
    v.push((owned("microsoft edge"), owned("msedge.exe")));
    v.push((owned("vs code"), owned("code.cmd")));
    v.push((owned("visual studio code"), owned("code.cmd")));
    v.push((owned("calculator"), owned("calc.exe")));
    v.push((owned("explorer"), owned("explorer.exe")));
    v.push((owned("file explorer"), owned("explorer.exe")));
    v.push((owned("spotify"), owned("spotify.exe")));
    v.push((owned("powershell"), owned("powershell.exe")));
    v
}

/// Punctuation that is cut from both ends of a request.
pub open spec fn is_punct(c: char) -> bool {
    c == '.' || c == ',' || c == '!' || c == '?'
}

/// The text without leading punctuation.
pub open spec fn strip_punct_start(s: Seq<char>) -> Seq<char>
    decreases s.len(),
{
    if s.len() > 0 && is_punct(s[0]) {
        strip_punct_start(s.subrange(1, s.len() as int))
    } else {
        s
    }
}

/// The text without trailing punctuation.
pub open spec fn strip_punct_end(s: Seq<char>) -> Seq<char>
    decreases s.len(),
{
    if s.len() > 0 && is_punct(s[s.len() - 1]) {
        strip_punct_end(s.subrange(0, s.len() - 1))
    } else {
        s
    }
}

/// A request without surrounding white space and punctuation, before case folding.
pub open spec fn bare_request(s: Seq<char>) -> Seq<char> {
    strip_punct_end(strip_punct_start(trimmed(s)))
}

proof fn lemma_strip_start(s: Seq<char>, k: int)
    requires
        0 <= k <= s.len(),
        forall|j: int| 0 <= j < k ==> is_punct(#[trigger] s[j]),
        k == s.len() || !is_punct(s[k]),
    ensures
        strip_punct_start(s) == s.subrange(k, s.len() as int),
    decreases k,
{
    if k == 0 {
        assert(s.subrange(0, s.len() as int) =~= s);
    } else {
        let t = s.subrange(1, s.len() as int);
        assert forall|j: int| 0 <= j < k - 1 implies is_punct(#[trigger] t[j]) by {
            assert(t[j] == s[j + 1]);
        }
        if k - 1 < t.len() {
            assert(t[k - 1] == s[k]);
        }
        lemma_strip_start(t, k - 1);
        assert(t.subrange(k - 1, t.len() as int) =~= s.subrange(k, s.len() as int));
    }
}

proof fn lemma_strip_end(s: Seq<char>, k: int)
    requires
        0 <= k <= s.len(),
        forall|j: int| k <= j < s.len() ==> is_punct(#[trigger] s[j]),
        k == 0 || !is_punct(s[k - 1]),
    ensures
        strip_punct_end(s) == s.subrange(0, k),
    decreases s.len() - k,
{
    if k == s.len() {
        assert(s.subrange(0, s.len() as int) =~= s);
    } else {
        let t = s.subrange(0, s.len() - 1);
        assert forall|j: int| k <= j < t.len() implies is_punct(#[trigger] t[j]) by {
            assert(t[j] == s[j]);
        }
        if k > 0 {
            assert(t[k - 1] == s[k - 1]);
        }
        lemma_strip_end(t, k);
        assert(t.subrange(0, k) =~= s.subrange(0, k));
    }
}

fn strip_punct(v: &Vec<char>) -> (r: Vec<char>)
    ensures
        r@ == strip_punct_end(strip_punct_start(v@)),
{
    let mut lo: usize = 0;
    while lo < v.len() && (v[lo] == '.' || v[lo] == ',' || v[lo] == '!' || v[lo] == '?')
        invariant
            lo <= v.len(),
            forall|j: int| 0 <= j < lo ==> is_punct(#[trigger] v@[j]),
        decreases v.len() - lo,
    {
        lo = lo + 1;
    }
    proof {
        lemma_strip_start(v@, lo as int);
    }
    let ghost t = v@.subrange(lo as int, v.len() as int);
    let mut hi: usize = v.len();
    while hi > lo && (v[hi - 1] == '.' || v[hi - 1] == ',' || v[hi - 1] == '!' || v[hi - 1] == '?')
        invariant
            lo <= hi <= v.len(),
            t == v@.subrange(lo as int, v.len() as int),
            forall|j: int| hi <= j < v.len() ==> is_punct(#[trigger] v@[j]),
        decreases hi,
    {
        hi = hi - 1;
    }
    proof {
        let k = hi - lo;
        assert forall|j: int| k <= j < t.len() implies is_punct(#[trigger] t[j]) by {
            assert(t[j] == v@[j + lo]);
        }
        if k > 0 {
            assert(t[k - 1] == v@[hi - 1]);
        }
        lemma_strip_end(t, k as int);
    }
    let mut out: Vec<char> = Vec::new();
    let mut i: usize = lo;
    while i < hi
        invariant
            lo <= i <= hi <= v.len(),
            out@ == v@.subrange(lo as int, i as int),
        decreases hi - i,
    {
        out.push(v[i]);
        assert(v@.subrange(lo as int, i + 1) =~= v@.subrange(lo as int, i as int).push(v@[i as int]));
        i = i + 1;
    }
    assert(out@ =~= t.subrange(0, (hi - lo) as int));
    out
}

/// The registry name a request is looked up under: trimmed, without
/// surrounding punctuation, in lowercase.
pub fn normalize_request(requested: &str) -> (r: String)
    ensures
        r@ == lowercase(bare_request(requested@)),
{
    let c = chars_of(requested);
    let t = trim_chars(&c);
    let p = strip_punct(&t);
    let s = string_of(&p);
    to_lower(s.as_str())
}

/// Registry positions that hold this name.
pub open spec fn named(name: Seq<char>) -> spec_fn(int) -> bool {
    |k: int| app_table()[k].0 == name
}

/// The executable registered for a name, if any.
pub open spec fn registered_executable(name: Seq<char>) -> Option<Seq<char>> {
    match crate::text::first_index(app_table().len() as int, named(name)) {
        Some(k) => Some(app_table()[k].1),
        None => None,
    }
}

/// The executable that a request launches, or the refusal of an
/// unregistered application.
pub open spec fn launch_target(requested: Seq<char>) -> Result<Seq<char>, ErrorView> {
    match registered_executable(lowercase(bare_request(requested))) {
        Some(e) => Ok(e),
        None => Err(
            err_of(
                ErrorKind::RequiresConfiguration,
                "'"@ + requested
                    + "' is not in the safe application registry. Add an explicit executable in Settings → Tools."@,
            ),
        ),
    }
}

/// Finds the executable for a request in the safe application registry.
pub fn resolve_app(requested: &str) -> (r: Result<String, ObError>)
    ensures
        match r {
            Ok(e) => launch_target(requested@) == Ok::<Seq<char>, ErrorView>(e@),
            Err(e) => launch_target(requested@) == Err::<Seq<char>, ErrorView>(e@),
        },
{
    let name_s = normalize_request(requested);
    let name = chars_of(name_s.as_str());
    let table = app_map();
    let ghost p = named(name@);
    let mut i: usize = 0;
    while i < table.len()
        invariant
            i <= table.len(),
            table@.len() == app_table().len(),
            forall|j: int| 0 <= j < table@.len() ==> (#[trigger] table@[j]).0@ == app_table()[j].0 && table@[j].1@ == app_table()[j].1,
            p == named(name@),
            name@ == lowercase(bare_request(requested@)),
            forall|j: int| 0 <= j < i ==> !#[trigger] p(j),
        decreases table.len() - i,
    {
        let key = chars_of(table[i].0.as_str());
        if same_chars(&key, &name) {
            proof {
                crate::text::lemma_first_index_is(app_table().len() as int, p, i as int);
            }
            return Ok(table[i].1.clone());
        }
        i = i + 1;
    }
    proof {
        crate::text::lemma_first_index_none(app_table().len() as int, p);
    }
    let a = concat("'", requested);
    Err(ObError::RequiresConfiguration(concat(
        a.as_str(),
        "' is not in the safe application registry. Add an explicit executable in Settings → Tools.",
    )))
}

/// Only executables from the registry are ever launched.
pub proof fn law_only_registered_executables(requested: Seq<char>)
    ensures
        launch_target(requested) matches Ok(e) ==> exists|k: int| 0 <= k < app_table().len() && app_table()[k].1 == e,
{
    let name = lowercase(bare_request(requested));
    let p = named(name);
    if let Some(k) = crate::text::first_index(app_table().len() as int, p) {
        assert(exists|w: int| 0 <= w < app_table().len() && #[trigger] p(w));
        let w = choose|w: int| 0 <= w < app_table().len() && #[trigger] p(w) && forall|j: int| 0 <= j < w ==> !#[trigger] p(j);
        assert(k == w);
        assert(0 <= k < app_table().len());
        assert(registered_executable(name) == Some(app_table()[k].1));
    }
}

/// No two registry entries share a name.
proof fn lemma_registry_names_distinct()
    ensures
        forall|i: int, j: int| 0 <= i < j < app_table().len() ==> #[trigger] app_table()[i].0 != #[trigger] app_table()[j].0,
{
    reveal_strlit("notepad");
    reveal_strlit("chrome");
    reveal_strlit("google chrome");
    reveal_strlit("edge");
    reveal_strlit("microsoft edge");
    reveal_strlit("vs code");
    reveal_strlit("visual studio code");
    reveal_strlit("calculator");
    reveal_strlit("explorer");
    reveal_strlit("file explorer");
    reveal_strlit("spotify");
    reveal_strlit("powershell");
    let t = app_table();
    assert forall|i: int, j: int| 0 <= i < j < t.len() implies #[trigger] t[i].0 != #[trigger] t[j].0 by {
        assert(t[i].0.len() != t[j].0.len() || t[i].0[0] != t[j].0[0]);
    }
}

/// The entry at position `k` is what its name resolves to.
proof fn lemma_registered_at(k: int)
    requires
        0 <= k < app_table().len(),
    ensures
        registered_executable(app_table()[k].0) == Some(app_table()[k].1),
{
    lemma_registry_names_distinct();
    let p = named(app_table()[k].0);
    assert forall|j: int| 0 <= j < k implies !#[trigger] p(j) by {
        assert(app_table()[j].0 != app_table()[k].0);
    }
    crate::text::lemma_first_index_is(app_table().len() as int, p, k);
}

/// The safe application registry is complete and closed: a request that
/// comes to one of notepad, chrome, google chrome, edge, microsoft edge,
/// vs code, visual studio code, calculator, explorer, file explorer,
/// spotify or powershell once trimmed, stripped of surrounding punctuation
/// and lowercased launches its executable; any other request is refused
/// with a message that quotes it and points to the Tools settings.
pub proof fn law_registry_resolves_every_name(requested: Seq<char>)
    ensures
        ({
            let n = lowercase(bare_request(requested));
            let r = launch_target(requested);
            &&& n == "notepad"@ ==> r == Ok::<Seq<char>, ErrorView>("notepad.exe"@)
            &&& n == "chrome"@ ==> r == Ok::<Seq<char>, ErrorView>("chrome.exe"@)
            &&& n == "google chrome"@ ==> r == Ok::<Seq<char>, ErrorView>("chrome.exe"@)
            &&& n == "edge"@ ==> r == Ok::<Seq<char>, ErrorView>("msedge.exe"@)
            &&& n == "microsoft edge"@ ==> r == Ok::<Seq<char>, ErrorView>("msedge.exe"@)
            &&& n == "vs code"@ ==> r == Ok::<Seq<char>, ErrorView>("code.cmd"@)
            &&& n == "visual studio code"@ ==> r == Ok::<Seq<char>, ErrorView>("code.cmd"@)
            &&& n == "calculator"@ ==> r == Ok::<Seq<char>, ErrorView>("calc.exe"@)
            &&& n == "explorer"@ ==> r == Ok::<Seq<char>, ErrorView>("explorer.exe"@)
            &&& n == "file explorer"@ ==> r == Ok::<Seq<char>, ErrorView>("explorer.exe"@)
            &&& n == "spotify"@ ==> r == Ok::<Seq<char>, ErrorView>("spotify.exe"@)
            &&& n == "powershell"@ ==> r == Ok::<Seq<char>, ErrorView>("powershell.exe"@)
            &&& (r is Err <==> !(n == "notepad"@ || n == "chrome"@ || n == "google chrome"@ || n == "edge"@
                || n == "microsoft edge"@ || n == "vs code"@ || n == "visual studio code"@ || n == "calculator"@
                || n == "explorer"@ || n == "file explorer"@ || n == "spotify"@ || n == "powershell"@))
            &&& (r is Err ==> r == Err::<Seq<char>, ErrorView>(err_of(
                ErrorKind::RequiresConfiguration,
                "'"@ + requested + "' is not in the safe application registry. Add an explicit executable in Settings → Tools."@,
            )))
        }),
{
    let n = lowercase(bare_request(requested));
    let t = app_table();
    if n == t[0].0 { lemma_registered_at(0); }
    if n == t[1].0 { lemma_registered_at(1); }
    if n == t[2].0 { lemma_registered_at(2); }
    if n == t[3].0 { lemma_registered_at(3); }
    if n == t[4].0 { lemma_registered_at(4); }
    if n == t[5].0 { lemma_registered_at(5); }
    if n == t[6].0 { lemma_registered_at(6); }
    if n == t[7].0 { lemma_registered_at(7); }
    if n == t[8].0 { lemma_registered_at(8); }
    if n == t[9].0 { lemma_registered_at(9); }
    if n == t[10].0 { lemma_registered_at(10); }
    if n == t[11].0 { lemma_registered_at(11); }
    if !(exists|j: int| 0 <= j < t.len() && #[trigger] t[j].0 == n) {
        crate::text::lemma_first_index_none(t.len() as int, named(n));
    }
}

proof fn lemma_strip_start_at(s: Seq<char>) -> (k: int)
    ensures
        0 <= k <= s.len(),
        forall|j: int| 0 <= j < k ==> is_punct(#[trigger] s[j]),
        k == s.len() || !is_punct(s[k]),
        strip_punct_start(s) == s.subrange(k, s.len() as int),
    decreases s.len(),
{
    if s.len() > 0 && is_punct(s[0]) {
        let t = s.subrange(1, s.len() as int);
        let m = lemma_strip_start_at(t);
        assert forall|j: int| 0 <= j < m + 1 implies is_punct(#[trigger] s[j]) by {
            if j > 0 {
                assert(s[j] == t[j - 1]);
            }
        }
        if m < t.len() {
            assert(s[m + 1] == t[m]);
        }
        assert(t.subrange(m, t.len() as int) =~= s.subrange(m + 1, s.len() as int));
        m + 1
    } else {
        assert(s.subrange(0, s.len() as int) =~= s);
        0
    }
}

proof fn lemma_strip_end_at(s: Seq<char>) -> (k: int)
    ensures
        0 <= k <= s.len(),
        forall|j: int| k <= j < s.len() ==> is_punct(#[trigger] s[j]),
        k == 0 || !is_punct(s[k - 1]),
        strip_punct_end(s) == s.subrange(0, k),
    decreases s.len(),
{
    if s.len() > 0 && is_punct(s[s.len() - 1]) {
        let t = s.subrange(0, s.len() - 1);
        let m = lemma_strip_end_at(t);
        assert forall|j: int| m <= j < s.len() implies is_punct(#[trigger] s[j]) by {
            if j < s.len() - 1 {
                assert(s[j] == t[j]);
            }
        }
        if m > 0 {
            assert(s[m - 1] == t[m - 1]);
        }
        assert(t.subrange(0, m) =~= s.subrange(0, m));
        m
    } else {
        assert(s.subrange(0, s.len() as int) =~= s);
        s.len() as int
    }
}

/// The name a request is looked up under is the trimmed request without
/// the full stops, commas, exclamation and question marks at either end:
/// a contiguous piece of it, everything cut from either end is one of
/// those four marks, and the piece neither begins nor ends with one.
pub proof fn law_request_loses_only_end_punctuation(requested: Seq<char>)
    ensures
        ({
            let t = trimmed(requested);
            let mark = |c: char| c == '.' || c == ',' || c == '!' || c == '?';
            exists|a: int, b: int| {
                &&& 0 <= a <= b <= t.len()
                &&& bare_request(requested) == t.subrange(a, b)
                &&& forall|j: int| 0 <= j < a ==> #[trigger] mark(t[j])
                &&& forall|j: int| b <= j < t.len() ==> #[trigger] mark(t[j])
                &&& a < b ==> !mark(t[a]) && !mark(t[b - 1])
            }
        }),
{
    let t = trimmed(requested);
    let mark = |c: char| c == '.' || c == ',' || c == '!' || c == '?';
    let a = lemma_strip_start_at(t);
    let u = t.subrange(a, t.len() as int);
    let m = lemma_strip_end_at(u);
    let b = a + m;
    assert(u.subrange(0, m) =~= t.subrange(a, b));
    assert forall|j: int| 0 <= j < a implies #[trigger] mark(t[j]) by {
        assert(is_punct(t[j]));
    }
    assert forall|j: int| b <= j < t.len() implies #[trigger] mark(t[j]) by {
        assert(u[j - a] == t[j]);
        assert(is_punct(u[j - a]));
    }
    if a < b {
        assert(u[0] == t[a]);
        assert(u[m - 1] == t[b - 1]);
    }
}

/// The text without every trailing repetition of `suffix`.
pub open spec fn strip_suffix_all(s: Seq<char>, suffix: Seq<char>) -> Seq<char>
    decreases s.len(),
{
    if suffix.len() > 0 && suffix.len() <= s.len() && s.subrange(s.len() - suffix.len(), s.len() as int) == suffix {
        strip_suffix_all(s.subrange(0, s.len() - suffix.len()), suffix)
    } else {
        s
    }
}

/// The characters without every trailing repetition of `suffix`.
pub fn strip_suffix_all_exec(s: &Vec<char>, suffix: &str) -> (r: Vec<char>)
    requires
        suffix@.len() > 0,
    ensures
        r@ == strip_suffix_all(s@, suffix@),
{
    let suf = chars_of(suffix);
    let mut end: usize = s.len();
    assert(s@.subrange(0, s.len() as int) =~= s@);
    while end >= suf.len() && crate::text::occurs_at_exec(s, &suf, end - suf.len())
        invariant
            suf@ == suffix@,
            suf@.len() > 0,
            end <= s.len(),
            strip_suffix_all(s@, suffix@) == strip_suffix_all(s@.subrange(0, end as int), suffix@),
        decreases end,
    {
        proof {
            let t = s@.subrange(0, end as int);
            assert(t.subrange(t.len() - suf@.len(), t.len() as int) =~= s@.subrange(end - suf@.len(), end as int));
            assert(t.subrange(0, t.len() - suf@.len()) =~= s@.subrange(0, end - suf@.len()));
        }
        end = end - suf.len();
    }
    proof {
        let t = s@.subrange(0, end as int);
        if suf@.len() <= t.len() {
            assert(t.subrange(t.len() - suf@.len(), t.len() as int) =~= s@.subrange(end - suf@.len(), end as int));
        }
    }
    let mut out: Vec<char> = Vec::new();
    let mut i: usize = 0;
    while i < end
        invariant
            end <= s.len(),
            i <= end,
            out@ == s@.subrange(0, i as int),
        decreases end - i,
    {
        out.push(s[i]);
        assert(s@.subrange(0, i + 1) =~= s@.subrange(0, i as int).push(s@[i as int]));
        i = i + 1;
    }
    assert(s@.subrange(0, s.len() as int) =~= s@);
    out
}

/// The name under which a launched executable is looked for among the
/// running processes: without `.exe` and then `.cmd` endings, in lowercase.
pub fn process_token(executable: &str) -> (r: String)
    ensures
        r@ == lowercase(strip_suffix_all(strip_suffix_all(executable@, ".exe"@), ".cmd"@)),
{
    proof {
        reveal_strlit(".exe");
        reveal_strlit(".cmd");
    }
    let c = chars_of(executable);
    let a = strip_suffix_all_exec(&c, ".exe");
    let b = strip_suffix_all_exec(&a, ".cmd");
    let s = string_of(&b);
    to_lower(s.as_str())
}

/// The first running process whose lowercase name contains `token`.
pub fn matching_process(names: &Vec<String>, token: &str) -> (r: Option<String>)
    ensures
        (match r {
            Some(n) => exists|k: int|
                0 <= k < names@.len() && names@[k] == n && contains(lowercase(n@), token@) && forall|j: int|
                    0 <= j < k ==> !contains(lowercase(#[trigger] names@[j]@), token@),
            None => forall|j: int| 0 <= j < names@.len() ==> !contains(lowercase(#[trigger] names@[j]@), token@),
        }),
{
    let t = chars_of(token);
    let mut i: usize = 0;
    while i < names.len()
        invariant
            i <= names.len(),
            t@ == token@,
            forall|j: int| 0 <= j < i ==> !contains(lowercase(#[trigger] names@[j]@), token@),
        decreases names.len() - i,
    {
        let lower = to_lower(names[i].as_str());
        let l = chars_of(lower.as_str());
        if contains_exec(&l, &t) {
            let found = names[i].clone();
            assert(0 <= i < names@.len() && names@[i as int] == found);
            return Some(found);
        }
        i = i + 1;
    }
    None
}

/// The evidence of a launch: what was requested, what ran, and the matching
/// process if one was seen.
pub fn launch_evidence(requested: &str, executable: String, found: Option<String>) -> (r: LaunchEvidence)
    ensures
        r.requested@ == requested@,
        r.executable@ == executable@,
        r.process_detected == found is Some,
        r.process_name == found,
{
    let detected = found.is_some();
    LaunchEvidence { requested: owned(requested), executable, process_detected: detected, process_name: found }
}

/// The evidence of opening a folder in Explorer.
pub fn folder_evidence(path: &str) -> (r: LaunchEvidence)
    ensures
        r.requested@ == path@,
        r.executable@ == "explorer.exe"@,
        r.process_detected,
        r.process_name matches Some(n) && n@ == "explorer.exe"@,
{
    LaunchEvidence {
        requested: owned(path),
        executable: owned("explorer.exe"),
        process_detected: true,
        process_name: Some(owned("explorer.exe")),
    }
}

/// The refusal to open something that is not a folder.
pub fn not_a_folder() -> (e: ObError)
    ensures
        e@ == err_of(ErrorKind::Validation, "Folder does not exist"@),
{
    ObError::Validation(owned("Folder does not exist"))
}

} // verus!
