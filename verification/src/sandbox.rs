//! Sandbox metadata sent to an MCP peer, and its translation for a Windows peer.
//!
//! Only locations change: the working directory, literal filesystem rules and
//! the literal prefix of absolute globs are translated to Windows; access
//! modes, special paths, network policy and rule options are kept as they are.
use vstd::prelude::*;
use crate::error::WslPathError;
use crate::path_uri::{
    lemma_windows_path_uri_is_windows, windows_uri_parts, uri_convention, PathConvention, PathUri,
};
use crate::text::{
    chars_of, last_index_of, lemma_last_index_of, push_chars, replace_char, replace_chars,
    string_of, trim_end_char,
};

verus! {

#[derive(Clone, Copy, Debug, PartialEq, Eq, Structural)]
pub enum FileSystemAccessMode {
    Read,
    Write,
    Deny,
}

#[derive(Clone, Copy, Debug, PartialEq, Eq, Structural)]
pub enum FileSystemSpecialPath {
    Root,
    CurrentWorkingDirectory,
    Tmpdir,
}

/// The location a sandbox rule applies to.
#[derive(Clone, Debug, PartialEq, Eq)]
pub enum FileSystemPath {
    Path { path: PathUri },
    GlobPattern { pattern: String },
    Special { value: FileSystemSpecialPath },
}

#[derive(Clone, Debug, PartialEq, Eq)]
pub struct FileSystemSandboxEntry {
    pub path: FileSystemPath,
    pub access: FileSystemAccessMode,
}

impl FileSystemSandboxEntry {
    pub fn new(path: FileSystemPath, access: FileSystemAccessMode) -> (r: Self)
        ensures
            r.path == path,
            r.access == access,
    {
        FileSystemSandboxEntry { path, access }
    }
}

#[derive(Clone, Debug, PartialEq, Eq)]
pub enum ManagedFileSystemPermissions {
    Restricted { entries: Vec<FileSystemSandboxEntry>, glob_scan_max_depth: Option<usize> },
    Unrestricted,
}

#[derive(Clone, Copy, Debug, PartialEq, Eq, Structural)]
pub enum NetworkSandboxPolicy {
    Restricted,
    Enabled,
}

#[derive(Clone, Debug, PartialEq, Eq)]
pub enum PermissionProfile {
    Managed { file_system: ManagedFileSystemPermissions, network: NetworkSandboxPolicy },
    Disabled,
}

/// The sandbox a tool server is told it runs under.
#[derive(Clone, Debug, PartialEq, Eq)]
pub struct SandboxState {
    pub permission_profile: PermissionProfile,
    pub codex_linux_sandbox_exe: Option<String>,
    pub sandbox_cwd: PathUri,
    pub use_legacy_landlock: bool,
}

// ---------------------------------------------------------------------------
// What each location asks of the translator
// ---------------------------------------------------------------------------
/// How a translated path is put back into the rule it came from.
pub enum JobKind {
    /// A URI: the answer must be an absolute Windows path.
    Uri,
    /// A glob without wildcards: the whole pattern was translated.
    GlobWhole,
    /// A glob whose literal prefix was translated; the wildcard part is kept.
    GlobPrefix { suffix: Seq<char> },
}

/// What one location needs: nothing, a translation of `native`, or a refusal.
pub enum PathJob {
    Keep,
    Translate { native: Seq<char>, kind: JobKind },
    Reject { pattern: Seq<char> },
}

pub open spec fn is_wildcard(c: char) -> bool {
    c == '*' || c == '?' || c == '[' || c == '{'
}

/// A control character (`char::is_control`: the Unicode category Cc).
pub open spec fn is_control(c: char) -> bool {
    c <= '\u{1f}' || ('\u{7f}' <= c && c <= '\u{9f}')
}

/// Characters that a Windows file name cannot hold literally.
pub open spec fn glob_unsafe(c: char) -> bool {
    is_control(c) || c == '<' || c == '>' || c == ':' || c == '"' || c == '|' || c == '\\'
}

pub open spec fn has_glob_unsafe(s: Seq<char>) -> bool {
    exists|i: int| 0 <= i < s.len() && glob_unsafe(#[trigger] s[i])
}

/// Index of the first wildcard at or after `i`, or `-1`.
pub open spec fn first_wildcard(s: Seq<char>, i: int) -> int
    decreases s.len() - i,
{
    if i < 0 || i >= s.len() {
        -1
    } else if is_wildcard(s[i]) {
        i
    } else {
        first_wildcard(s, i + 1)
    }
}

/// An absolute Posix glob (one leading `/`, not a `//` network path).
pub open spec fn translatable_glob(p: Seq<char>) -> bool {
    p.len() > 0 && p[0] == '/' && !(p.len() > 1 && p[1] == '/')
}

/// Where a glob is cut: the last `/` before its first wildcard.
pub open spec fn glob_cut(p: Seq<char>) -> int {
    let e = last_index_of(p.take(first_wildcard(p, 0)), '/');
    if e < 0 {
        0
    } else {
        e
    }
}

pub open spec fn glob_job(p: Seq<char>) -> PathJob {
    if !translatable_glob(p) {
        PathJob::Keep
    } else if first_wildcard(p, 0) < 0 {
        PathJob::Translate { native: p, kind: JobKind::GlobWhole }
    } else {
        let prefix = p.take(glob_cut(p));
        let suffix = p.skip(glob_cut(p));
        if has_glob_unsafe(suffix) {
            PathJob::Reject { pattern: p }
        } else {
            PathJob::Translate {
                native: if prefix.len() == 0 {
                    seq!['/']
                } else {
                    prefix
                },
                kind: JobKind::GlobPrefix { suffix },
            }
        }
    }
}

/// A URI is translated when it names a Posix location.
pub open spec fn uri_job(u: (Seq<char>, Seq<char>)) -> PathJob {
    if uri_convention(u.0, u.1) == PathConvention::Posix {
        PathJob::Translate { native: u.1, kind: JobKind::Uri }
    } else {
        PathJob::Keep
    }
}

pub open spec fn path_job(p: FileSystemPath) -> PathJob {
    match p {
        FileSystemPath::Path { path } => uri_job(path@),
        FileSystemPath::GlobPattern { pattern } => glob_job(pattern@),
        FileSystemPath::Special { .. } => PathJob::Keep,
    }
}

/// The filesystem rules of a profile that can name locations.
pub open spec fn restricted_entries(p: PermissionProfile) -> Seq<FileSystemSandboxEntry> {
    match p {
        PermissionProfile::Managed {
            file_system: ManagedFileSystemPermissions::Restricted { entries, .. },
            ..
        } => entries@,
        _ => Seq::empty(),
    }
}

/// The jobs of a sandbox state, in the order they are done: the working
/// directory, then each filesystem rule.
pub open spec fn sandbox_jobs(s: SandboxState) -> Seq<PathJob> {
    seq![uri_job(s.sandbox_cwd@)] + restricted_entries(s.permission_profile).map_values(
        |e: FileSystemSandboxEntry| path_job(e.path),
    )
}

// ---------------------------------------------------------------------------
// What the answers do
// ---------------------------------------------------------------------------
/// `map` may answer `r` when asked for `native`.
pub open spec fn answered<F: Fn(&str) -> Result<String, String>>(
    map: F,
    native: Seq<char>,
    r: Result<String, String>,
) -> bool {
    exists|a: &str| a@ == native && #[trigger] call_ensures(map, (a,), r)
}

/// An answer that can be used: a translation, and for a URI an absolute Windows one.
pub open spec fn accepted(kind: JobKind, r: Result<String, String>) -> bool {
    &&& r is Ok
    &&& kind is Uri ==> windows_uri_parts(r->Ok_0@) is Some
}

/// The error raised by an answer that cannot be used.
pub open spec fn failed_with(kind: JobKind, r: Result<String, String>, e: WslPathError) -> bool {
    match r {
        Err(message) => e == WslPathError::Translation { message },
        Ok(t) => {
            &&& kind is Uri
            &&& windows_uri_parts(t@) is None
            &&& e is NotAbsolute
            &&& e->path@ == t@
            &&& e->convention == PathConvention::Windows
        },
    }
}

/// The rule location `new` put back from the translation `t`.
pub open spec fn path_answer(new: FileSystemPath, kind: JobKind, t: Seq<char>) -> bool {
    match kind {
        JobKind::Uri => new is Path && windows_uri_parts(t) == Some(new->path@),
        JobKind::GlobWhole => new is GlobPattern && new->pattern@ == replace_char(t, '\\', '/'),
        JobKind::GlobPrefix { suffix } => new is GlobPattern && new->pattern@ == replace_char(
            trim_end_char(t, '\\'),
            '\\',
            '/',
        ) + suffix,
    }
}

pub open spec fn entry_mapped(
    old: FileSystemSandboxEntry,
    new: FileSystemSandboxEntry,
    job: PathJob,
    answer: Option<Result<String, String>>,
) -> bool {
    match job {
        PathJob::Translate { kind, .. } => new.access == old.access && path_answer(
            new.path,
            kind,
            answer->0->Ok_0@,
        ),
        _ => new == old,
    }
}

/// `new` is `old` with every location put back from its answer, and no Linux
/// sandbox executable.
pub open spec fn state_mapped(
    old: SandboxState,
    new: SandboxState,
    answers: Seq<Option<Result<String, String>>>,
) -> bool {
    let js = sandbox_jobs(old);
    &&& new.codex_linux_sandbox_exe is None
    &&& new.use_legacy_landlock == old.use_legacy_landlock
    &&& match js[0] {
        PathJob::Translate { .. } => windows_uri_parts(answers[0]->0->Ok_0@) == Some(
            new.sandbox_cwd@,
        ),
        _ => new.sandbox_cwd == old.sandbox_cwd,
    }
    &&& match old.permission_profile {
        PermissionProfile::Managed {
            file_system: ManagedFileSystemPermissions::Restricted { entries, glob_scan_max_depth },
            network,
        } => match new.permission_profile {
            PermissionProfile::Managed {
                file_system:
                    ManagedFileSystemPermissions::Restricted {
                        entries: new_entries,
                        glob_scan_max_depth: new_depth,
                    },
                network: new_network,
            } => {
                &&& new_depth == glob_scan_max_depth
                &&& new_network == network
                &&& new_entries@.len() == entries@.len()
                &&& forall|i: int|
                    0 <= i < entries@.len() ==> entry_mapped(
                        entries@[i],
                        #[trigger] new_entries@[i],
                        js[i + 1],
                        answers[i + 1],
                    )
            },
            _ => false,
        },
        _ => new.permission_profile == old.permission_profile,
    }
}

/// `map` may be asked for the native path of every location that needs a
/// translation, and is asked for nothing else.
pub open spec fn accepts_requests<F: Fn(&str) -> Result<String, String>>(
    map: F,
    old: SandboxState,
) -> bool {
    forall|j: int, a: &str|
        #![trigger sandbox_jobs(old)[j], call_requires(map, (a,))]
        0 <= j < sandbox_jobs(old).len() && sandbox_jobs(old)[j] is Translate && a@ == sandbox_jobs(
            old,
        )[j]->native ==> call_requires(map, (a,))
}

/// What translating `old` with `map` came to, given the answers `map` gave:
/// `answers[j]` is the answer to job `j`, asked only of the jobs that need a
/// translation, in order, until one answer cannot be used or a glob is refused.
pub open spec fn sandbox_mapping<F: Fn(&str) -> Result<String, String>>(
    old: SandboxState,
    map: F,
    answers: Seq<Option<Result<String, String>>>,
    r: Result<SandboxState, WslPathError>,
) -> bool {
    let js = sandbox_jobs(old);
    let n = answers.len() as int;
    &&& 0 < n <= js.len()
    &&& forall|j: int| 0 <= j < n ==> !(#[trigger] js[j] is Reject)
    &&& forall|j: int| 0 <= j < n ==> (js[j] is Translate <==> (#[trigger] answers[j]) is Some)
    &&& forall|j: int|
        0 <= j < n && #[trigger] js[j] is Translate ==> answered(map, js[j]->native, answers[j]->0)
    &&& forall|j: int|
        0 <= j < n - 1 && #[trigger] js[j] is Translate ==> accepted(js[j]->kind, answers[j]->0)
    &&& match r {
        Ok(new) => {
            &&& n == js.len()
            &&& js[n - 1] is Translate ==> accepted(js[n - 1]->kind, answers[n - 1]->0)
            &&& state_mapped(old, new, answers)
        },
        Err(e) => {
            ||| (js[n - 1] is Translate && !accepted(js[n - 1]->kind, answers[n - 1]->0)
                && failed_with(js[n - 1]->kind, answers[n - 1]->0, e))
            ||| {
                &&& js[n - 1] is Translate ==> accepted(js[n - 1]->kind, answers[n - 1]->0)
                &&& n < js.len()
                &&& js[n] is Reject
                &&& e is AmbiguousGlob
                &&& e->pattern@ == js[n]->pattern
            }
        },
    }
}

/// The network policy of a managed profile.
pub open spec fn network_of(p: PermissionProfile) -> Option<NetworkSandboxPolicy> {
    match p {
        PermissionProfile::Managed { network, .. } => Some(network),
        _ => None,
    }
}

/// A sandbox translated for a Windows peer keeps its permission authority:
/// the same rules in the same order with the same access modes, the same
/// special paths, the same network policy and legacy-landlock choice, and no
/// Linux sandbox executable.
pub proof fn lemma_translation_keeps_authority<F: Fn(&str) -> Result<String, String>>(
    old: SandboxState,
    map: F,
    answers: Seq<Option<Result<String, String>>>,
    new: SandboxState,
)
    requires
        sandbox_mapping(old, map, answers, Ok(new)),
    ensures
        new.codex_linux_sandbox_exe is None,
        new.use_legacy_landlock == old.use_legacy_landlock,
        network_of(new.permission_profile) == network_of(old.permission_profile),
        restricted_entries(new.permission_profile).len() == restricted_entries(
            old.permission_profile,
        ).len(),
        forall|i: int|
            0 <= i < restricted_entries(old.permission_profile).len() ==> #[trigger] restricted_entries(
                new.permission_profile,
            )[i].access == restricted_entries(old.permission_profile)[i].access,
        forall|i: int|
            0 <= i < restricted_entries(old.permission_profile).len() && #[trigger] restricted_entries(
                old.permission_profile,
            )[i].path is Special ==> restricted_entries(new.permission_profile)[i].path
                == restricted_entries(old.permission_profile)[i].path,
{
    let js = sandbox_jobs(old);
    let olds = restricted_entries(old.permission_profile);
    let news = restricted_entries(new.permission_profile);
    assert forall|i: int| 0 <= i < olds.len() implies #[trigger] news[i].access == olds[i].access
        && (olds[i].path is Special ==> news[i].path == olds[i].path) by {
        assert(js[i + 1] == path_job(olds[i].path));
    }
}

/// A sandbox translated for a Windows peer names only Windows locations in
/// its working directory and literal rules, so translating it again would ask
/// nothing for them.
pub proof fn lemma_translated_locations_are_windows<F: Fn(&str) -> Result<String, String>>(
    old: SandboxState,
    map: F,
    answers: Seq<Option<Result<String, String>>>,
    new: SandboxState,
)
    requires
        sandbox_mapping(old, map, answers, Ok(new)),
    ensures
        uri_convention(new.sandbox_cwd@.0, new.sandbox_cwd@.1) == PathConvention::Windows,
        forall|i: int|
            0 <= i < restricted_entries(new.permission_profile).len() && (#[trigger] restricted_entries(
                new.permission_profile,
            )[i]).path is Path ==> uri_convention(
                restricted_entries(new.permission_profile)[i].path->path@.0,
                restricted_entries(new.permission_profile)[i].path->path@.1,
            ) == PathConvention::Windows,
{
    let js = sandbox_jobs(old);
    if js[0] is Translate {
        lemma_windows_path_uri_is_windows(answers[0]->0->Ok_0@);
    }
    let olds = restricted_entries(old.permission_profile);
    let news = restricted_entries(new.permission_profile);
    assert forall|i: int| 0 <= i < news.len() && (#[trigger] news[i]).path is Path implies uri_convention(
        news[i].path->path@.0,
        news[i].path->path@.1,
    ) == PathConvention::Windows by {
        assert(js[i + 1] == path_job(olds[i].path));
        if js[i + 1] is Translate {
            lemma_windows_path_uri_is_windows(answers[i + 1]->0->Ok_0@);
        }
    }
}

proof fn lemma_first_wildcard_at(s: Seq<char>, i: int, k: int)
    requires
        0 <= i <= k < s.len(),
        is_wildcard(s[k]),
        forall|j: int| i <= j < k ==> !is_wildcard(s[j]),
    ensures
        first_wildcard(s, i) == k,
    decreases k - i,
{
    if i < k {
        lemma_first_wildcard_at(s, i + 1, k);
    }
}

proof fn lemma_no_wildcard(s: Seq<char>, i: int)
    requires
        0 <= i,
        forall|j: int| i <= j < s.len() ==> !is_wildcard(s[j]),
    ensures
        first_wildcard(s, i) == -1,
    decreases s.len() - i,
{
    if i < s.len() {
        lemma_no_wildcard(s, i + 1);
    }
}

/// A glob rule with an absolute Posix pattern is translated only up to the
/// last `/` before its first wildcard, where the wildcards are `*`, `?`, `[`
/// and `{`: the translator is asked for that literal prefix alone (the root
/// `/` when the cut is the leading `/`), and everything from that `/` on is
/// kept as written, so no wildcard ever reaches the translator. A pattern
/// whose kept part holds a character a Windows name cannot hold is refused.
pub proof fn lemma_glob_translates_literal_prefix(pattern: String, e: int, k: int)
    requires
        translatable_glob(pattern@),
        0 <= e < k < pattern@.len(),
        pattern@[e] == '/',
        forall|j: int| e < j < k ==> pattern@[j] != '/',
        forall|j: int|
            0 <= j < k ==> !(pattern@[j] == '*' || pattern@[j] == '?' || pattern@[j] == '['
                || pattern@[j] == '{'),
        pattern@[k] == '*' || pattern@[k] == '?' || pattern@[k] == '[' || pattern@[k] == '{',
    ensures
        path_job(FileSystemPath::GlobPattern { pattern }) == if has_glob_unsafe(
            pattern@.skip(e),
        ) {
            PathJob::Reject { pattern: pattern@ }
        } else {
            PathJob::Translate {
                native: if e == 0 {
                    seq!['/']
                } else {
                    pattern@.take(e)
                },
                kind: JobKind::GlobPrefix { suffix: pattern@.skip(e) },
            }
        },
{
    let p = pattern@;
    lemma_first_wildcard_at(p, 0, k);
    let s = p.take(k);
    lemma_last_index_of(s, '/');
    let l = last_index_of(s, '/');
    assert(s[e] == '/');
    if l < e {
        assert(s[e] != '/');
    }
    if l > e {
        assert(s[l] == p[l]);
    }
    assert(l == e);
    assert(glob_cut(p) == e);
    assert(p.take(e).len() == e);
}

/// A glob rule with an absolute Posix pattern that holds none of the
/// wildcards `*`, `?`, `[` and `{` is a literal path: the translator is asked
/// for the whole pattern.
pub proof fn lemma_literal_glob_translates_whole(pattern: String)
    requires
        translatable_glob(pattern@),
        forall|j: int|
            0 <= j < pattern@.len() ==> !(pattern@[j] == '*' || pattern@[j] == '?' || pattern@[j]
                == '[' || pattern@[j] == '{'),
    ensures
        path_job(FileSystemPath::GlobPattern { pattern }) == (PathJob::Translate {
            native: pattern@,
            kind: JobKind::GlobWhole,
        }),
{
    lemma_no_wildcard(pattern@, 0);
}

// ---------------------------------------------------------------------------
// Executable translation
// ---------------------------------------------------------------------------
/// How one location is handled, as executable data.
enum Plan {
    Keep,
    Uri { native: String },
    GlobWhole { native: String },
    GlobPrefix { native: String, suffix: Vec<char> },
    Reject { pattern: String },
}

spec fn plan_matches(plan: Plan, job: PathJob) -> bool {
    match plan {
        Plan::Keep => job is Keep,
        Plan::Uri { native } => job == PathJob::Translate { native: native@, kind: JobKind::Uri },
        Plan::GlobWhole { native } => job == PathJob::Translate {
            native: native@,
            kind: JobKind::GlobWhole,
        },
        Plan::GlobPrefix { native, suffix } => job == PathJob::Translate {
            native: native@,
            kind: JobKind::GlobPrefix { suffix: suffix@ },
        },
        Plan::Reject { pattern } => job == PathJob::Reject { pattern: pattern@ },
    }
}

fn is_wildcard_char(c: char) -> (r: bool)
    ensures
        r == is_wildcard(c),
{
    c == '*' || c == '?' || c == '[' || c == '{'
}

fn is_glob_unsafe_char(c: char) -> (r: bool)
    ensures
        r == glob_unsafe(c),
{
    c <= '\u{1f}' || ('\u{7f}' <= c && c <= '\u{9f}') || c == '<' || c == '>' || c == ':' || c
        == '"' || c == '|' || c == '\\'
}

fn find_wildcard(p: &[char]) -> (r: Option<usize>)
    ensures
        first_wildcard(p@, 0) == (match r {
            Some(i) => i as int,
            None => -1,
        }),
        r is Some ==> r->0 < p@.len(),
{
    let mut i: usize = 0;
    while i < p.len()
        invariant
            i <= p@.len(),
            first_wildcard(p@, 0) == first_wildcard(p@, i as int),
        decreases p@.len() - i,
    {
        if is_wildcard_char(p[i]) {
            return Some(i);
        }
        i = i + 1;
    }
    None
}

/// Index of the last `/` in `p[..to]`.
fn rfind_slash(p: &[char], to: usize) -> (r: Option<usize>)
    requires
        to <= p@.len(),
    ensures
        last_index_of(p@.take(to as int), '/') == (match r {
            Some(i) => i as int,
            None => -1,
        }),
{
    let mut j = to;
    while j > 0
        invariant
            j <= to <= p@.len(),
            last_index_of(p@.take(to as int), '/') == last_index_of(p@.take(j as int), '/'),
        decreases j,
    {
        assert(p@.take(j as int).drop_last() =~= p@.take(j - 1));
        if p[j - 1] == '/' {
            return Some(j - 1);
        }
        j = j - 1;
    }
    None
}

fn any_glob_unsafe(s: &[char], from: usize) -> (r: bool)
    requires
        from <= s@.len(),
    ensures
        r == has_glob_unsafe(s@.skip(from as int)),
{
    let mut i = from;
    while i < s.len()
        invariant
            from <= i <= s@.len(),
            forall|j: int| from <= j < i ==> !glob_unsafe(#[trigger] s@[j]),
        decreases s@.len() - i,
    {
        if is_glob_unsafe_char(s[i]) {
            assert(glob_unsafe(s@.skip(from as int)[i - from]));
            return true;
        }
        i = i + 1;
    }
    assert forall|k: int| 0 <= k < s@.skip(from as int).len() implies !glob_unsafe(
        #[trigger] s@.skip(from as int)[k],
    ) by {
        assert(s@.skip(from as int)[k] == s@[from + k]);
    }
    false
}

fn plan_glob(pattern: &String) -> (r: Plan)
    ensures
        plan_matches(r, glob_job(pattern@)),
{
    let p = chars_of(pattern.as_str());
    let n = p.len();
    if !(n > 0 && p[0] == '/' && !(n > 1 && p[1] == '/')) {
        return Plan::Keep;
    }
    match find_wildcard(&p) {
        None => Plan::GlobWhole { native: pattern.clone() },
        Some(w) => {
            let cut = match rfind_slash(&p, w) {
                Some(e) => e,
                None => 0,
            };
            proof {
                lemma_last_index_of(p@.take(w as int), '/');
            }
            assert(cut == glob_cut(p@));
            if any_glob_unsafe(&p, cut) {
                return Plan::Reject { pattern: pattern.clone() };
            }
            let native = if cut == 0 {
                let mut s = String::new();
                crate::text::push_char(&mut s, '/');
                assert(s@ =~= seq!['/']);
                s
            } else {
                let s = string_of(&p, 0, cut);
                assert(s@ =~= p@.take(cut as int));
                s
            };
            let mut suffix: Vec<char> = Vec::new();
            let mut i = cut;
            while i < n
                invariant
                    cut <= i <= n == p@.len(),
                    suffix@ == p@.subrange(cut as int, i as int),
                decreases n - i,
            {
                suffix.push(p[i]);
                assert(p@.subrange(cut as int, i + 1) =~= p@.subrange(cut as int, i as int).push(
                    p@[i as int],
                ));
                i = i + 1;
            }
            assert(suffix@ =~= p@.skip(cut as int));
            assert(cut == 0 ==> p@.take(cut as int).len() == 0);
            Plan::GlobPrefix { native, suffix }
        },
    }
}

fn plan_path(p: &FileSystemPath) -> (r: Plan)
    ensures
        plan_matches(r, path_job(*p)),
{
    match p {
        FileSystemPath::Path { path } => match path.to_posix_path() {
            Ok(native) => Plan::Uri { native },
            Err(_) => Plan::Keep,
        },
        FileSystemPath::GlobPattern { pattern } => plan_glob(pattern),
        FileSystemPath::Special { .. } => Plan::Keep,
    }
}

/// `t` with every trailing backslash removed.
fn trim_end_backslashes(t: &[char]) -> (r: usize)
    ensures
        r <= t@.len(),
        t@.take(r as int) == trim_end_char(t@, '\\'),
{
    let mut j = t.len();
    assert(t@.take(j as int) =~= t@);
    while j > 0 && t[j - 1] == '\\'
        invariant
            j <= t@.len(),
            trim_end_char(t@, '\\') == trim_end_char(t@.take(j as int), '\\'),
        decreases j,
    {
        assert(t@.take(j as int).drop_last() =~= t@.take(j - 1));
        j = j - 1;
    }
    j
}

/// The glob built from the translated prefix `t` and the kept wildcard part.
fn glob_from_prefix(t: &String, suffix: &Vec<char>) -> (r: String)
    ensures
        r@ == replace_char(trim_end_char(t@, '\\'), '\\', '/') + suffix@,
{
    let tc = chars_of(t.as_str());
    let end = trim_end_backslashes(&tc);
    let kept = string_of(&tc, 0, end);
    let kc = chars_of(kept.as_str());
    let replaced = replace_chars(&kc, '\\', '/');
    let mut out = string_of(&replaced, 0, replaced.len());
    assert(replaced@.subrange(0, replaced@.len() as int) =~= replaced@);
    push_chars(&mut out, suffix.as_slice(), 0, suffix.len());
    assert(suffix@.subrange(0, suffix@.len() as int) =~= suffix@);
    assert(tc@.subrange(0, end as int) =~= tc@.take(end as int));
    out
}

fn glob_from_whole(t: &String) -> (r: String)
    ensures
        r@ == replace_char(t@, '\\', '/'),
{
    let tc = chars_of(t.as_str());
    let replaced = replace_chars(&tc, '\\', '/');
    assert(replaced@.subrange(0, replaced@.len() as int) =~= replaced@);
    string_of(&replaced, 0, replaced.len())
}

/// The Windows URI of a translation `t`.
fn windows_uri_of(t: String) -> (r: Result<PathUri, WslPathError>)
    ensures
        match r {
            Ok(u) => windows_uri_parts(t@) == Some(u@),
            Err(e) => failed_with(JobKind::Uri, Ok(t), e),
        },
{
    match PathUri::from_native(t.as_str(), PathConvention::Windows) {
        Ok(u) => Ok(u),
        Err(_) => Err(WslPathError::NotAbsolute { path: t, convention: PathConvention::Windows }),
    }
}

/// Translates the sandbox metadata's locations with `map`, a translator from
/// Posix paths to Windows paths.
///
/// The working directory and every literal rule path that names a Posix
/// location are translated to Windows URIs; an absolute glob keeps its
/// wildcard part and has only its literal prefix translated, and a glob whose
/// wildcard part holds a character that a Windows file name cannot hold is
/// refused. The Linux sandbox executable is dropped: a Windows peer cannot
/// run it. Access modes, special paths and the network policy are kept. On any
/// failure no partly translated state is returned.
pub fn map_sandbox_paths<F: Fn(&str) -> Result<String, String>>(
    state: SandboxState,
    map: F,
) -> (r: Result<SandboxState, WslPathError>)
    requires
        accepts_requests(map, state),
    ensures
        exists|answers: Seq<Option<Result<String, String>>>| #[trigger]
            sandbox_mapping(state, map, answers, r),
{
    let ghost old = state;
    let ghost js = sandbox_jobs(state);
    let SandboxState {
        permission_profile,
        codex_linux_sandbox_exe: _,
        sandbox_cwd,
        use_legacy_landlock,
    } = state;
    let ghost mut answers: Seq<Option<Result<String, String>>> = Seq::empty();

    // The working directory.
    let new_cwd = match sandbox_cwd.to_posix_path() {
        Err(_) => {
            proof {
                answers = answers.push(None);
            }
            sandbox_cwd
        },
        Ok(native) => {
            let a = native.as_str();
            assert(js[0] is Translate && js[0]->native == a@);
            assert(call_requires(map, (a,)));
            let reply = map(a);
            proof {
                answers = answers.push(Some(reply));
                assert(answered(map, native@, reply));
            }
            match reply {
                Err(message) => {
                    let r = Err(WslPathError::Translation { message });
                    assert(sandbox_mapping(old, map, answers, r));
                    return r;
                },
                Ok(t) => match windows_uri_of(t) {
                    Ok(u) => u,
                    Err(e) => {
                        let r = Err(e);
                        assert(sandbox_mapping(old, map, answers, r));
                        return r;
                    },
                },
            }
        },
    };
    assert(answers.len() == 1);

    let new_profile = match permission_profile {
        PermissionProfile::Managed {
            file_system: ManagedFileSystemPermissions::Restricted { entries, glob_scan_max_depth },
            network,
        } => {
            let ghost old_entries = entries@;
            assert(js.len() == old_entries.len() + 1);
            assert forall|i: int| 0 <= i < old_entries.len() implies js[i + 1] == path_job(
                #[trigger] old_entries[i].path,
            ) by {}
            let mut entries = entries;
            let n = entries.len();
            let mut i: usize = 0;
            while i < n
                invariant
                    i <= n == entries@.len() == old_entries.len(),
                    js == sandbox_jobs(old),
                    old == state,
                    js.len() == n + 1,
                    forall|k: int| 0 <= k < n ==> js[k + 1] == path_job(#[trigger] old_entries[k].path),
                    accepts_requests(map, old),
                    answers.len() == i + 1,
                    forall|j: int| 0 <= j <= i ==> !(#[trigger] js[j] is Reject),
                    forall|j: int|
                        0 <= j <= i ==> (js[j] is Translate <==> (#[trigger] answers[j]) is Some),
                    forall|j: int|
                        0 <= j <= i && #[trigger] js[j] is Translate ==> answered(
                            map,
                            js[j]->native,
                            answers[j]->0,
                        ),
                    forall|j: int|
                        0 <= j <= i && #[trigger] js[j] is Translate ==> accepted(
                            js[j]->kind,
                            answers[j]->0,
                        ),
                    js[0] is Translate ==> windows_uri_parts(answers[0]->0->Ok_0@) == Some(new_cwd@),
                    js[0] is Keep ==> new_cwd == old.sandbox_cwd,
                    forall|k: int|
                        0 <= k < i ==> entry_mapped(
                            old_entries[k],
                            #[trigger] entries@[k],
                            js[k + 1],
                            answers[k + 1],
                        ),
                    forall|k: int| i <= k < n ==> #[trigger] entries@[k] == old_entries[k],
                decreases n - i,
            {
                let plan = plan_path(&entries[i].path);
                let access = entries[i].access;
                let ghost before = answers;
                match plan {
                    Plan::Keep => {
                        proof {
                            answers = answers.push(None);
                        }
                    },
                    Plan::Reject { pattern } => {
                        let r = Err(WslPathError::AmbiguousGlob { pattern });
                        assert(sandbox_mapping(old, map, answers, r));
                        return r;
                    },
                    Plan::Uri { native } => {
                        let a = native.as_str();
                        assert(js[i + 1] is Translate && js[i + 1]->native == a@);
                        assert(call_requires(map, (a,)));
                        let reply = map(a);
                        proof {
                            answers = answers.push(Some(reply));
                            assert(answered(map, native@, reply));
                        }
                        match reply {
                            Err(message) => {
                                let r = Err(WslPathError::Translation { message });
                                assert(sandbox_mapping(old, map, answers, r));
                                return r;
                            },
                            Ok(t) => match windows_uri_of(t) {
                                Ok(u) => {
                                    entries.set(
                                        i,
                                        FileSystemSandboxEntry {
                                            path: FileSystemPath::Path { path: u },
                                            access,
                                        },
                                    );
                                },
                                Err(e) => {
                                    let r = Err(e);
                                    assert(sandbox_mapping(old, map, answers, r));
                                    return r;
                                },
                            },
                        }
                    },
                    Plan::GlobWhole { native } => {
                        let a = native.as_str();
                        assert(js[i + 1] is Translate && js[i + 1]->native == a@);
                        assert(call_requires(map, (a,)));
                        let reply = map(a);
                        proof {
                            answers = answers.push(Some(reply));
                            assert(answered(map, native@, reply));
                        }
                        match reply {
                            Err(message) => {
                                let r = Err(WslPathError::Translation { message });
                                assert(sandbox_mapping(old, map, answers, r));
                                return r;
                            },
                            Ok(t) => {
                                let pattern = glob_from_whole(&t);
                                entries.set(
                                    i,
                                    FileSystemSandboxEntry {
                                        path: FileSystemPath::GlobPattern { pattern },
                                        access,
                                    },
                                );
                            },
                        }
                    },
                    Plan::GlobPrefix { native, suffix } => {
                        let a = native.as_str();
                        assert(js[i + 1] is Translate && js[i + 1]->native == a@);
                        assert(call_requires(map, (a,)));
                        let reply = map(a);
                        proof {
                            answers = answers.push(Some(reply));
                            assert(answered(map, native@, reply));
                        }
                        match reply {
                            Err(message) => {
                                let r = Err(WslPathError::Translation { message });
                                assert(sandbox_mapping(old, map, answers, r));
                                return r;
                            },
                            Ok(t) => {
                                let pattern = glob_from_prefix(&t, &suffix);
                                entries.set(
                                    i,
                                    FileSystemSandboxEntry {
                                        path: FileSystemPath::GlobPattern { pattern },
                                        access,
                                    },
                                );
                            },
                        }
                    },
                }
                i = i + 1;
            }
            PermissionProfile::Managed {
                file_system: ManagedFileSystemPermissions::Restricted {
                    entries,
                    glob_scan_max_depth,
                },
                network,
            }
        },
        other => {
            assert(js.len() == 1);
            other
        },
    };
    let r = Ok(
        SandboxState {
            permission_profile: new_profile,
            codex_linux_sandbox_exe: None,
            sandbox_cwd: new_cwd,
            use_legacy_landlock,
        },
    );
    assert(sandbox_mapping(old, map, answers, r));
    r
}

} // verus!
