//! Admit Windows Desktop's local WSL project roots before native absolute
//! paths are decoded. Project storage and responses continue to use Linux paths.
//!
//! A project root given as `\\wsl$\<distribution>\...` or
//! `\\wsl.localhost\<distribution>\...` (also in device-path form, or with
//! forward slashes) names a path inside a WSL distribution. When it names the
//! current distribution it is rewritten to the Linux path; when it names
//! another one the request is refused.
use vstd::prelude::*;
use crate::json::{invalid_params, JsonRpcError, JsonRpcRequest, JsonValue};
use crate::path_uri::{all_host_chars, host_char, native_uri_parts, windows_uri_parts, PathConvention};
use crate::text::{
    lemma_find_char_at, lower, chars_of, eq_ignore_ascii_case, eq_ignore_ascii_case_at, find_char, find_char_from,
    is_ascii_letter, push_chars, replace_char, replace_chars, str_eq,
};

verus! {

// ---------------------------------------------------------------------------
// Root paths
// ---------------------------------------------------------------------------
pub open spec fn unc_marker() -> Seq<char> {
    seq!['U', 'N', 'C']
}

/// The plain form of a Windows device path: `\\?\UNC\x` and `\\.\UNC\x` name
/// the share `\\x`, and `\\?\X:...` and `\\.\X:...` the drive path `X:...`.
pub open spec fn device_path_plain(p: Seq<char>) -> Option<Seq<char>> {
    if p.len() >= 4 && p[0] == '\\' && p[1] == '\\' && (p[2] == '?' || p[2] == '.') && p[3]
        == '\\' {
        if p.len() >= 8 && eq_ignore_ascii_case(p.subrange(4, 7), unc_marker()) && p[7] == '\\' {
            Some(seq!['\\', '\\'] + p.skip(8))
        } else if p.len() >= 6 && is_ascii_letter(p[4]) && p[5] == ':' {
            Some(p.skip(4))
        } else {
            None
        }
    } else {
        None
    }
}

/// `s` split at its first `/`: the part before it and the part after it
/// (all of `s` and nothing when there is no `/`).
pub open spec fn split_at_slash(s: Seq<char>) -> (Seq<char>, Seq<char>) {
    let k = find_char(s, '/', 0);
    if k < 0 {
        (s, Seq::empty())
    } else {
        (s.take(k), s.skip(k + 1))
    }
}

pub open spec fn is_wsl_host(h: Seq<char>) -> bool {
    eq_ignore_ascii_case(h, seq!['w', 's', 'l', '$']) || eq_ignore_ascii_case(
        h,
        seq!['w', 's', 'l', '.', 'l', 'o', 'c', 'a', 'l', 'h', 'o', 's', 't'],
    )
}

/// What a root path names: `Ok(Some(linux))` for a path in the current
/// distribution `d`, `Ok(None)` for any path that is not a WSL share, and
/// `Err(())` for a path in another distribution.
pub open spec fn wsl_root(path: Seq<char>, d: Seq<char>) -> Result<Option<Seq<char>>, ()> {
    let plain = match device_path_plain(path) {
        Some(p) => p,
        None => path,
    };
    let s = replace_char(plain, '\\', '/');
    if !(s.len() >= 2 && s[0] == '/' && s[1] == '/') {
        Ok(None)
    } else {
        let (host, tail) = split_at_slash(s.skip(2));
        if !is_wsl_host(host) {
            Ok(None)
        } else {
            let (requested, relative) = split_at_slash(tail);
            if !eq_ignore_ascii_case(requested, d) {
                Err(())
            } else {
                Ok(Some(seq!['/'] + relative))
            }
        }
    }
}

/// The message of the error that refuses another distribution's root.
pub open spec fn foreign_root_message(d: Seq<char>) -> Seq<char> {
    "project root must name the current WSL distribution ("@ + d + ")"@
}

/// A Linux root (one leading `/`, not a network path) is left as it is; in
/// particular a root already rewritten to its Linux path is not rewritten
/// again unless that path itself begins with `//`.
pub proof fn lemma_linux_root_is_kept(s: Seq<char>, d: Seq<char>)
    requires
        s.len() >= 1,
        s[0] == '/',
        !(s.len() >= 2 && (s[1] == '/' || s[1] == '\\')),
    ensures
        wsl_root(s, d) == Ok::<Option<Seq<char>>, ()>(None),
{
    let r = replace_char(s, '\\', '/');
    if s.len() >= 2 {
        assert(r[1] == s[1]);
    }
}

/// A root in the current distribution becomes an absolute Linux path.
pub proof fn lemma_wsl_root_is_absolute(path: Seq<char>, d: Seq<char>)
    requires
        wsl_root(path, d) is Ok,
        wsl_root(path, d)->Ok_0 is Some,
    ensures
        (wsl_root(path, d)->Ok_0->0).len() >= 1,
        (wsl_root(path, d)->Ok_0->0)[0] == '/',
{
}

/// The UNC path `\\host\tail`.
pub open spec fn unc_path(host: Seq<char>, tail: Seq<char>) -> Seq<char> {
    seq!['\\', '\\'] + host + seq!['\\'] + tail
}

/// `wsl$` and `wsl.localhost`, in any case, name the same roots.
pub proof fn lemma_wsl_aliases_agree(a: Seq<char>, b: Seq<char>, tail: Seq<char>, d: Seq<char>)
    requires
        is_wsl_host(a),
        is_wsl_host(b),
    ensures
        wsl_root(unc_path(a, tail), d) == wsl_root(unc_path(b, tail), d),
{
    lemma_wsl_host_path(a, tail, d);
    lemma_wsl_host_path(b, tail, d);
}

/// A root on a WSL share depends only on the part after the host: the
/// distribution named there, and the Linux path after it.
pub proof fn lemma_wsl_host_path(h: Seq<char>, tail: Seq<char>, d: Seq<char>)
    requires
        is_wsl_host(h),
    ensures
        ({
            let rt = replace_char(tail, '\\', '/');
            let (requested, relative) = split_at_slash(rt);
            wsl_root(unc_path(h, tail), d) == if !eq_ignore_ascii_case(requested, d) {
                Err::<Option<Seq<char>>, ()>(())
            } else {
                Ok(Some(seq!['/'] + relative))
            }
        }),
{
    let wsl = seq!['w', 's', 'l', '$'];
    let localhost = seq!['w', 's', 'l', '.', 'l', 'o', 'c', 'a', 'l', 'h', 'o', 's', 't'];
    assert forall|i: int| 0 <= i < h.len() implies h[i] != '/' && h[i] != '\\' by {
        if eq_ignore_ascii_case(h, wsl) {
            assert(lower(h[i]) == lower(wsl[i]));
        } else {
            assert(lower(h[i]) == lower(localhost[i]));
        }
    }
    assert(h.len() > 0);
    if eq_ignore_ascii_case(h, wsl) {
        assert(lower(h[0]) == lower(wsl[0]));
    } else {
        assert(lower(h[0]) == lower(localhost[0]));
    }
    let p = unc_path(h, tail);
    assert(p[2] == h[0]);
    assert(h[0] != '?' && h[0] != '.');
    assert(device_path_plain(p) is None);
    let rt = replace_char(tail, '\\', '/');
    let s = replace_char(p, '\\', '/');
    assert(s =~= seq!['/', '/'] + h + seq!['/'] + rt);
    let u = s.skip(2);
    assert(u =~= h + seq!['/'] + rt);
    assert forall|j: int| 0 <= j < h.len() implies u[j] != '/' by {
        assert(u[j] == h[j]);
    }
    lemma_find_char_at(u, '/', 0, h.len() as int);
    assert(u.take(h.len() as int) =~= h);
    assert(u.skip(h.len() as int + 1) =~= rt);
}

/// A Linux root `t` written as a WSL share, `\\<alias>\<d2>` followed by
/// `t` with backslashes, decodes back to `t` when `d2` names the current
/// distribution `d` (in any case) and `alias` is `wsl$` or `wsl.localhost`
/// (in any case).
pub proof fn lemma_wsl_alias_decodes_to_linux_root(
    alias: Seq<char>,
    d2: Seq<char>,
    t: Seq<char>,
    d: Seq<char>,
)
    requires
        is_wsl_host(alias),
        eq_ignore_ascii_case(d2, d),
        forall|i: int| 0 <= i < d2.len() ==> d2[i] != '/' && d2[i] != '\\',
        t.len() >= 1,
        t[0] == '/',
        forall|i: int| 0 <= i < t.len() ==> t[i] != '\\',
    ensures
        wsl_root(unc_path(alias, d2 + replace_char(t, '/', '\\')), d) == Ok::<
            Option<Seq<char>>,
            (),
        >(Some(t)),
{
    let tail = d2 + replace_char(t, '/', '\\');
    lemma_wsl_host_path(alias, tail, d);
    let rt = replace_char(tail, '\\', '/');
    assert(rt =~= d2 + t) by {
        assert forall|i: int| 0 <= i < rt.len() implies rt[i] == (d2 + t)[i] by {
            if i >= d2.len() {
                assert(tail[i] == replace_char(t, '/', '\\')[i - d2.len()]);
            }
        }
    }
    let k = d2.len() as int;
    assert forall|j: int| 0 <= j < k implies rt[j] != '/' by {
        assert(rt[j] == d2[j]);
    }
    assert(rt[k] == '/');
    lemma_find_char_at(rt, '/', 0, k);
    assert(rt.take(k) =~= d2);
    assert(seq!['/'] + rt.skip(k + 1) =~= t);
}

/// Both WSL share names, `wsl$` and `wsl.localhost` in any case, are URI
/// hosts: a path `\\<share>\<rest>` (as `wslpath -w` prints it) is an
/// absolute Windows path whose URI has the share as its host and `<rest>`,
/// with `/` for `\`, as its path.
pub proof fn lemma_wsl_share_paths_are_windows_uris(h: Seq<char>, tail: Seq<char>)
    requires
        is_wsl_host(h),
    ensures
        all_host_chars(h),
        windows_uri_parts(unc_path(h, tail)) == Some((h, seq!['/'] + replace_char(tail, '\\', '/'))),
        native_uri_parts(unc_path(h, tail), PathConvention::Windows) == Some(
            (h, seq!['/'] + replace_char(tail, '\\', '/')),
        ),
{
    let wsl = seq!['w', 's', 'l', '$'];
    let localhost = seq!['w', 's', 'l', '.', 'l', 'o', 'c', 'a', 'l', 'h', 'o', 's', 't'];
    assert forall|i: int| 0 <= i < h.len() implies host_char(#[trigger] h[i])
        && h[i] != '/' && h[i] != '\\' by {
        if eq_ignore_ascii_case(h, wsl) {
            assert(lower(h[i]) == lower(wsl[i]));
        } else {
            assert(lower(h[i]) == lower(localhost[i]));
        }
    }
    let rt = replace_char(tail, '\\', '/');
    let r = replace_char(unc_path(h, tail), '\\', '/');
    let k: int = h.len() as int + 2;
    assert(r =~= seq!['/', '/'] + h + seq!['/'] + rt);
    assert forall|j: int| 2 <= j < k implies r[j] != '/' by {
        assert(r[j] == h[j - 2]);
    }
    assert(h.len() > 0);
    lemma_find_char_at(r, '/', 2, k);
    assert(r.subrange(2, k) =~= h);
    assert(r.subrange(k, r.len() as int) =~= seq!['/'] + rt);
}

fn device_path_plain_of(p: &Vec<char>) -> (r: Option<Vec<char>>)
    ensures
        match device_path_plain(p@) {
            Some(x) => r is Some && r->0@ == x,
            None => r is None,
        },
{
    let n = p.len();
    if n >= 4 && p[0] == '\\' && p[1] == '\\' && (p[2] == '?' || p[2] == '.') && p[3] == '\\' {
        let unc = vec!['U', 'N', 'C'];
        assert(unc@ =~= unc_marker());
        if n >= 8 && eq_ignore_ascii_case_at(p.as_slice(), 4, 7, unc.as_slice()) && p[7] == '\\' {
            let mut out = vec!['\\', '\\'];
            let mut i: usize = 8;
            while i < n
                invariant
                    8 <= i <= n == p@.len(),
                    out@ == seq!['\\', '\\'] + p@.subrange(8, i as int),
                decreases n - i,
            {
                out.push(p[i]);
                assert(p@.subrange(8, i + 1) =~= p@.subrange(8, i as int).push(p@[i as int]));
                assert(seq!['\\', '\\'] + p@.subrange(8, i + 1) =~= (seq!['\\', '\\'] + p@.subrange(
                    8,
                    i as int,
                )).push(p@[i as int]));
                i = i + 1;
            }
            assert(p@.subrange(8, n as int) =~= p@.skip(8));
            Some(out)
        } else if n >= 6 && (('A' <= p[4] && p[4] <= 'Z') || ('a' <= p[4] && p[4] <= 'z')) && p[5]
            == ':' {
            let mut out: Vec<char> = Vec::new();
            let mut i: usize = 4;
            while i < n
                invariant
                    4 <= i <= n == p@.len(),
                    out@ == p@.subrange(4, i as int),
                decreases n - i,
            {
                out.push(p[i]);
                assert(p@.subrange(4, i + 1) =~= p@.subrange(4, i as int).push(p@[i as int]));
                i = i + 1;
            }
            assert(p@.subrange(4, n as int) =~= p@.skip(4));
            Some(out)
        } else {
            None
        }
    } else {
        None
    }
}

/// Where `s[from..]` splits at its first `/`: the end of the part before it
/// and the start of the part after it.
fn split_at_slash_from(s: &Vec<char>, from: usize) -> (r: (usize, usize))
    requires
        from <= s@.len(),
    ensures
        from <= r.0 <= r.1 <= s@.len(),
        split_at_slash(s@.skip(from as int)) == (s@.subrange(from as int, r.0 as int), s@.skip(
            r.1 as int,
        )),
{
    let ghost t = s@.skip(from as int);
    match find_char_from(s.as_slice(), '/', from) {
        Some(k) => {
            proof {
                crate::text::lemma_find_char(s@, '/', from as int);
                assert forall|j: int| 0 <= j < k - from implies t[j] != '/' by {
                    assert(t[j] == s@[from + j]);
                }
                crate::text::lemma_find_char_at(t, '/', 0, k - from);
                assert(t.take(k - from) =~= s@.subrange(from as int, k as int));
                assert(t.skip(k - from + 1) =~= s@.skip(k + 1));
            }
            let n = s.len();
            assert(k < n);
            (k, k + 1)
        },
        None => {
            proof {
                crate::text::lemma_find_char(s@, '/', from as int);
                crate::text::lemma_find_char(t, '/', 0);
                if find_char(t, '/', 0) >= 0 {
                    let j = find_char(t, '/', 0);
                    assert(t[j] == s@[from + j]);
                }
                assert(t =~= s@.subrange(from as int, s@.len() as int));
                assert(s@.skip(s@.len() as int) =~= Seq::<char>::empty());
            }
            (s.len(), s.len())
        },
    }
}

/// The Linux path of a root in the current distribution `distribution`,
/// `None` for a root that is not a WSL share, or an invalid-parameters error
/// for a root in another distribution.
pub fn local_wsl_path(path: &str, distribution: &str) -> (r: Result<Option<String>, JsonRpcError>)
    ensures
        match wsl_root(path@, distribution@) {
            Ok(None) => r == Ok::<Option<String>, JsonRpcError>(None),
            Ok(Some(linux)) => r is Ok && r->Ok_0 is Some && r->Ok_0->0@ == linux,
            Err(_) => r is Err && r->Err_0.code == crate::json::INVALID_PARAMS_ERROR_CODE
                && r->Err_0.message@ == foreign_root_message(distribution@) && r->Err_0.data
                is None,
        },
{
    let p = chars_of(path);
    let plain = match device_path_plain_of(&p) {
        Some(x) => x,
        None => p,
    };
    let s = replace_chars(plain.as_slice(), '\\', '/');
    let n = s.len();
    if !(n >= 2 && s[0] == '/' && s[1] == '/') {
        return Ok(None);
    }
    let (host_end, tail_start) = split_at_slash_from(&s, 2);
    let wsl = vec!['w', 's', 'l', '$'];
    let localhost = vec!['w', 's', 'l', '.', 'l', 'o', 'c', 'a', 'l', 'h', 'o', 's', 't'];
    assert(wsl@ =~= seq!['w', 's', 'l', '$']);
    assert(localhost@ =~= seq!['w', 's', 'l', '.', 'l', 'o', 'c', 'a', 'l', 'h', 'o', 's', 't']);
    if !eq_ignore_ascii_case_at(s.as_slice(), 2, host_end, wsl.as_slice())
        && !eq_ignore_ascii_case_at(s.as_slice(), 2, host_end, localhost.as_slice()) {
        return Ok(None);
    }
    let (requested_end, relative_start) = split_at_slash_from(&s, tail_start);
    let d = chars_of(distribution);
    if !eq_ignore_ascii_case_at(s.as_slice(), tail_start, requested_end, d.as_slice()) {
        let mut message = String::from_str("project root must name the current WSL distribution (");
        message.append(distribution);
        message.append(")");
        return Err(invalid_params(message));
    }
    let mut linux = String::new();
    crate::text::push_char(&mut linux, '/');
    push_chars(&mut linux, s.as_slice(), relative_start, n);
    assert(s@.subrange(relative_start as int, n as int) =~= s@.skip(relative_start as int));
    assert(linux@ =~= seq!['/'] + s@.skip(relative_start as int));
    Ok(Some(linux))
}

// ---------------------------------------------------------------------------
// Requests
// ---------------------------------------------------------------------------
/// The WSL distribution a host's distribution name names: an empty name
/// counts as none.
pub fn local_distribution(name: Option<&str>) -> (r: Option<&str>)
    ensures
        r == (if name is Some && name->0@.len() > 0 {
            name
        } else {
            None::<&str>
        }),
{
    match name {
        Some(n) => if n.is_empty() {
            None
        } else {
            Some(n)
        },
        None => None,
    }
}

/// The methods whose parameters carry project roots.
pub open spec fn is_project_method(m: Seq<char>) -> bool {
    m == "project/create"@ || m == "project/import"@ || m == "project/update"@
}

/// Index of the first member named `key` at or after `i`, or `-1`.
pub open spec fn member_index(fields: Seq<(String, JsonValue)>, key: Seq<char>, i: int) -> int
    decreases fields.len() - i,
{
    if i < 0 || i >= fields.len() {
        -1
    } else if fields[i].0@ == key {
        i
    } else {
        member_index(fields, key, i + 1)
    }
}

pub open spec fn roots_key() -> Seq<char> {
    seq!['r', 'o', 'o', 't', 's']
}

pub open spec fn path_key() -> Seq<char> {
    seq!['p', 'a', 't', 'h']
}

/// The project roots of request parameters: the array under the first
/// `roots` member of an object.
pub open spec fn roots_of(params: Option<JsonValue>) -> Option<Seq<JsonValue>> {
    match params {
        Some(JsonValue::Object(fields)) => {
            let m = member_index(fields@, roots_key(), 0);
            if m >= 0 && fields@[m].1 is Array {
                Some(fields@[m].1->Array_0@)
            } else {
                None
            }
        },
        _ => None,
    }
}

/// What a root names: a root without a string `path` member names nothing.
pub open spec fn root_target(root: JsonValue, d: Seq<char>) -> Result<Option<Seq<char>>, ()> {
    match root {
        JsonValue::Object(fields) => {
            let m = member_index(fields@, path_key(), 0);
            if m >= 0 && fields@[m].1 is String {
                wsl_root(fields@[m].1->String_0@, d)
            } else {
                Ok(None)
            }
        },
        _ => Ok(None),
    }
}

/// `new` is the root `old` with its `path` member set to the string `linux`.
pub open spec fn root_with_path(old: JsonValue, new: JsonValue, linux: Seq<char>) -> bool {
    match (old, new) {
        (JsonValue::Object(fields), JsonValue::Object(new_fields)) => {
            let m = member_index(fields@, path_key(), 0);
            &&& new_fields@.len() == fields@.len()
            &&& forall|k: int|
                0 <= k < fields@.len() && k != m ==> #[trigger] new_fields@[k] == fields@[k]
            &&& new_fields@[m].0 == fields@[m].0
            &&& new_fields@[m].1 is String
            &&& new_fields@[m].1->String_0@ == linux
        },
        _ => false,
    }
}

/// A root after normalization: rewritten to its Linux path where it names the
/// current distribution, otherwise unchanged.
pub open spec fn root_normalized(old: JsonValue, new: JsonValue, d: Seq<char>) -> bool {
    match root_target(old, d) {
        Ok(Some(linux)) => root_with_path(old, new, linux),
        _ => new == old,
    }
}

/// Index of the first root at or after `i` that names another distribution,
/// or `-1`.
pub open spec fn first_foreign_root(roots: Seq<JsonValue>, d: Seq<char>, i: int) -> int
    decreases roots.len() - i,
{
    if i < 0 || i >= roots.len() {
        -1
    } else if root_target(roots[i], d) is Err {
        i
    } else {
        first_foreign_root(roots, d, i + 1)
    }
}

/// `new` is `old` with the value of its first `roots` member replaced by the
/// array `roots`.
pub open spec fn params_with_roots(
    old: Option<JsonValue>,
    new: Option<JsonValue>,
    roots: Seq<JsonValue>,
) -> bool {
    match (old, new) {
        (Some(JsonValue::Object(fields)), Some(JsonValue::Object(new_fields))) => {
            let m = member_index(fields@, roots_key(), 0);
            &&& new_fields@.len() == fields@.len()
            &&& forall|k: int|
                0 <= k < fields@.len() && k != m ==> #[trigger] new_fields@[k] == fields@[k]
            &&& new_fields@[m].0 == fields@[m].0
            &&& new_fields@[m].1 is Array
            &&& new_fields@[m].1->Array_0@ == roots
        },
        _ => false,
    }
}

/// `new` holds the roots of `old` normalized up to, not including, index `upto`,
/// and the others as they were.
pub open spec fn roots_normalized_upto(
    old: Seq<JsonValue>,
    new: Seq<JsonValue>,
    d: Seq<char>,
    upto: int,
) -> bool {
    &&& new.len() == old.len()
    &&& forall|i: int| 0 <= i < upto ==> root_normalized(old[i], #[trigger] new[i], d)
    &&& forall|i: int| upto <= i < old.len() ==> #[trigger] new[i] == old[i]
}

fn member_index_of(fields: &Vec<(String, JsonValue)>, key: &str) -> (r: Option<usize>)
    ensures
        member_index(fields@, key@, 0) == (match r {
            Some(m) => m as int,
            None => -1,
        }),
        r is Some ==> r->0 < fields@.len(),
{
    let mut i: usize = 0;
    while i < fields.len()
        invariant
            i <= fields@.len(),
            member_index(fields@, key@, 0) == member_index(fields@, key@, i as int),
        decreases fields@.len() - i,
    {
        if str_eq(fields[i].0.as_str(), key) {
            return Some(i);
        }
        i = i + 1;
    }
    None
}

/// Normalizes one root, returning it with what was found.
fn normalize_root(root: JsonValue, distribution: &str) -> (r: (JsonValue, Result<(), JsonRpcError>))
    ensures
        match root_target(root, distribution@) {
            Err(_) => r.0 == root && r.1 is Err && r.1->Err_0.code
                == crate::json::INVALID_PARAMS_ERROR_CODE && r.1->Err_0.message@
                == foreign_root_message(distribution@) && r.1->Err_0.data is None,
            Ok(_) => r.1 is Ok && root_normalized(root, r.0, distribution@),
        },
{
    proof {
        reveal_strlit("path");
    }
    assert("path"@ =~= path_key());
    match root {
        JsonValue::Object(mut fields) => {
            let ghost old_fields = fields@;
            match member_index_of(&fields, "path") {
                None => (JsonValue::Object(fields), Ok(())),
                Some(m) => {
                    let outcome = match &fields[m].1 {
                        JsonValue::String(raw) => local_wsl_path(raw.as_str(), distribution),
                        _ => Ok(None),
                    };
                    match outcome {
                        Ok(None) => (JsonValue::Object(fields), Ok(())),
                        Err(e) => (JsonValue::Object(fields), Err(e)),
                        Ok(Some(linux)) => {
                            let (key, _) = fields.remove(m);
                            fields.insert(m, (key, JsonValue::String(linux)));
                            assert forall|k: int|
                                0 <= k < old_fields.len() && k != m implies #[trigger] fields@[k]
                                == old_fields[k] by {}
                            (JsonValue::Object(fields), Ok(()))
                        },
                    }
                },
            }
        },
        other => (other, Ok(())),
    }
}

/// Normalizes every root in order, stopping at the first one that names
/// another distribution.
fn normalize_roots(roots: &mut Vec<JsonValue>, distribution: &str) -> (r: Result<(), JsonRpcError>)
    ensures
        first_foreign_root(old(roots)@, distribution@, 0) < 0 ==> r is Ok && roots_normalized_upto(
            old(roots)@,
            final(roots)@,
            distribution@,
            old(roots)@.len() as int,
        ),
        first_foreign_root(old(roots)@, distribution@, 0) >= 0 ==> r is Err && r->Err_0.code
            == crate::json::INVALID_PARAMS_ERROR_CODE && r->Err_0.message@ == foreign_root_message(
            distribution@,
        ) && r->Err_0.data is None && roots_normalized_upto(
            old(roots)@,
            final(roots)@,
            distribution@,
            first_foreign_root(old(roots)@, distribution@, 0),
        ),
{
    let ghost old_roots = roots@;
    let n = roots.len();
    let mut i: usize = 0;
    while i < n
        invariant
            i <= n == roots@.len() == old_roots.len(),
            old_roots == old(roots)@,
            first_foreign_root(old_roots, distribution@, 0) == first_foreign_root(
                old_roots,
                distribution@,
                i as int,
            ),
            roots_normalized_upto(old_roots, roots@, distribution@, i as int),
        decreases n - i,
    {
        let mut root = JsonValue::Null;
        std::mem::swap(&mut root, &mut roots[i]);
        assert(root == old_roots[i as int]);
        let (new_root, result) = normalize_root(root, distribution);
        roots.set(i, new_root);
        match result {
            Err(e) => {
                return Err(e);
            },
            Ok(()) => {},
        }
        i = i + 1;
    }
    Ok(())
}

/// Rewrites the project roots of a `project/create`, `project/import` or
/// `project/update` request that name the current WSL distribution
/// `distribution` to their Linux paths, and refuses a root in another
/// distribution. Without a distribution, for other methods, and where the
/// roots are missing or malformed, the request is left to the typed decoder
/// unchanged.
pub fn normalize_project_roots(request: &mut JsonRpcRequest, distribution: Option<&str>) -> (r:
    Result<(), JsonRpcError>)
    ensures
        final(request).id == old(request).id,
        final(request).method == old(request).method,
        ({
            let roots = roots_of(old(request).params);
            if !is_project_method(old(request).method@) || distribution is None || roots is None {
                r is Ok && final(request).params == old(request).params
            } else {
                let d = distribution->0@;
                let bad = first_foreign_root(roots->0, d, 0);
                exists|new_roots: Seq<JsonValue>|
                    #[trigger] params_with_roots(old(request).params, final(request).params, new_roots)
                    && if bad < 0 {
                        r is Ok && roots_normalized_upto(roots->0, new_roots, d, roots->0.len() as int)
                    } else {
                        &&& r is Err
                        &&& r->Err_0.code == crate::json::INVALID_PARAMS_ERROR_CODE
                        &&& r->Err_0.message@ == foreign_root_message(d)
                        &&& r->Err_0.data is None
                        &&& roots_normalized_upto(roots->0, new_roots, d, bad)
                    }
            }
        }),
{
    proof {
        reveal_strlit("project/create");
        reveal_strlit("project/import");
        reveal_strlit("project/update");
        reveal_strlit("roots");
    }
    assert("roots"@ =~= roots_key());
    let method = request.method.as_str();
    if !str_eq(method, "project/create") && !str_eq(method, "project/import") && !str_eq(
        method,
        "project/update",
    ) {
        return Ok(());
    }
    let distribution = match distribution {
        Some(d) => d,
        None => {
            return Ok(());
        },
    };
    let params = request.params.take();
    let ghost old_params = params;
    match params {
        Some(JsonValue::Object(mut fields)) => {
            let ghost old_fields = fields@;
            match member_index_of(&fields, "roots") {
                None => {
                    request.params = Some(JsonValue::Object(fields));
                    Ok(())
                },
                Some(m) => {
                    let is_array = match &fields[m].1 {
                        JsonValue::Array(_) => true,
                        _ => false,
                    };
                    if !is_array {
                        request.params = Some(JsonValue::Object(fields));
                        return Ok(());
                    }
                    let (key, value) = fields.remove(m);
                    assert(old_fields[m as int] == (key, value));
                    match value {
                        JsonValue::Array(mut roots) => {
                            let result = normalize_roots(&mut roots, distribution);
                            let ghost new_roots = roots@;
                            fields.insert(m, (key, JsonValue::Array(roots)));
                            assert forall|k: int|
                                0 <= k < old_fields.len() && k != m implies #[trigger] fields@[k]
                                == old_fields[k] by {}
                            request.params = Some(JsonValue::Object(fields));
                            assert(params_with_roots(old_params, request.params, new_roots));
                            result
                        },
                        other => {
                            fields.insert(m, (key, other));
                            request.params = Some(JsonValue::Object(fields));
                            Ok(())
                        },
                    }
                },
            }
        },
        other => {
            request.params = other;
            Ok(())
        },
    }
}

} // verus!
