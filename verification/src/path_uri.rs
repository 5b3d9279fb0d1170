//! `file://` URIs for local paths, and the native path conventions they stand for.
//!
//! A [`PathUri`] is held decoded: the URI's host (empty for a local path) and
//! its percent-decoded path. The URI text is `file://`, the host, then the
//! UTF-8 bytes of the path with every byte outside a small safe set written as
//! `%XX`.
use vstd::prelude::*;
use vstd::utf8::*;
use crate::error::WslPathError;
use crate::text::{
    chars_of, find_char, find_char_from, is_ascii_letter, lemma_find_char, push_char, push_chars,
    replace_char, replace_chars, string_of, lemma_find_char_at,
};

verus! {

/// The two local path conventions on either side of the WSL boundary.
#[derive(Clone, Copy, Debug, PartialEq, Eq, Structural)]
pub enum PathConvention {
    Posix,
    Windows,
}

// ---------------------------------------------------------------------------
// Character classes and the percent encoding
// ---------------------------------------------------------------------------
/// Characters accepted in a URI host.
pub open spec fn host_char(c: char) -> bool {
    is_ascii_letter(c) || ('0' <= c && c <= '9') || c == '-' || c == '.' || c == '_' || c == '~'
        || c == '$'
}

pub open spec fn all_host_chars(s: Seq<char>) -> bool {
    forall|i: int| 0 <= i < s.len() ==> host_char(#[trigger] s[i])
}

/// Bytes written as themselves in a URI path; every other byte is `%XX`.
pub open spec fn uri_safe(b: u8) -> bool {
    (65 <= b <= 90) || (97 <= b <= 122) || (48 <= b <= 57) || b == 45 || b == 46 || b == 95 || b
        == 126 || b == 33 || b == 36 || b == 38 || b == 39 || b == 40 || b == 41 || b == 42 || b
        == 43 || b == 44 || b == 59 || b == 61 || b == 58 || b == 64 || b == 47
}

/// Characters a URI path may hold as themselves (printable ASCII but `%`, `?` and `#`).
pub open spec fn raw_uri_char(c: char) -> bool {
    '!' <= c && c <= '~' && c != '%' && c != '?' && c != '#'
}

/// The upper-case hexadecimal digit for `n < 16`.
pub open spec fn hex_digit(n: u8) -> char {
    if n < 10 {
        ((n + 48) as u8) as char
    } else {
        ((n + 55) as u8) as char
    }
}

/// The value of a hexadecimal digit of either case.
pub open spec fn hex_value(c: char) -> Option<u8> {
    if '0' <= c && c <= '9' {
        Some(((c as u32) - 48) as u8)
    } else if 'A' <= c && c <= 'F' {
        Some(((c as u32) - 55) as u8)
    } else if 'a' <= c && c <= 'f' {
        Some(((c as u32) - 87) as u8)
    } else {
        None
    }
}

pub open spec fn encode_byte(b: u8) -> Seq<char> {
    if uri_safe(b) {
        seq![b as char]
    } else {
        seq!['%', hex_digit(b / 16), hex_digit(b % 16)]
    }
}

/// The percent encoding of a byte string.
pub open spec fn percent_encode(b: Seq<u8>) -> Seq<char>
    decreases b.len(),
{
    if b.len() == 0 {
        Seq::empty()
    } else {
        encode_byte(b[0]) + percent_encode(b.skip(1))
    }
}

pub open spec fn prepend(out: Seq<u8>, r: Option<Seq<u8>>) -> Option<Seq<u8>> {
    match r {
        Some(x) => Some(out + x),
        None => None,
    }
}

/// The bytes a URI path stands for, or `None` where it is malformed.
pub open spec fn percent_decode(cs: Seq<char>) -> Option<Seq<u8>>
    decreases cs.len(),
{
    if cs.len() == 0 {
        Some(Seq::empty())
    } else if cs[0] == '%' {
        if cs.len() >= 3 && hex_value(cs[1]) is Some && hex_value(cs[2]) is Some {
            prepend(
                seq![(hex_value(cs[1])->0 * 16 + hex_value(cs[2])->0) as u8],
                percent_decode(cs.skip(3)),
            )
        } else {
            None
        }
    } else if raw_uri_char(cs[0]) {
        prepend(seq![cs[0] as u8], percent_decode(cs.skip(1)))
    } else {
        None
    }
}

pub open spec fn file_scheme() -> Seq<char> {
    seq!['f', 'i', 'l', 'e', ':', '/', '/']
}

/// The URI text of a host and a path.
pub open spec fn uri_text(host: Seq<char>, path: Seq<char>) -> Seq<char> {
    file_scheme() + host + percent_encode(encode_utf8(path))
}

/// The host and path a URI text stands for, or `None` where it is not a readable `file://` URI.
pub open spec fn parse_uri(t: Seq<char>) -> Option<(Seq<char>, Seq<char>)> {
    if t.len() >= 7 && t.take(7) == file_scheme() {
        let k = find_char(t, '/', 7);
        if k < 0 || !all_host_chars(t.subrange(7, k)) {
            None
        } else {
            match percent_decode(t.skip(k)) {
                Some(bytes) => if valid_utf8(bytes) {
                    Some((t.subrange(7, k), decode_utf8(bytes)))
                } else {
                    None
                },
                None => None,
            }
        }
    } else {
        None
    }
}

// ---------------------------------------------------------------------------
// Conventions
// ---------------------------------------------------------------------------
/// A URI path of the form `/X:` or `/X:/...`, which names a Windows drive.
pub open spec fn is_drive_path(p: Seq<char>) -> bool {
    &&& p.len() >= 3
    &&& p[0] == '/'
    &&& is_ascii_letter(p[1])
    &&& p[2] == ':'
    &&& (p.len() == 3 || p[3] == '/')
}

/// The convention a URI names: a URI with a host (a UNC share) or a drive path is Windows.
pub open spec fn uri_convention(host: Seq<char>, path: Seq<char>) -> PathConvention {
    if host.len() > 0 || is_drive_path(path) {
        PathConvention::Windows
    } else {
        PathConvention::Posix
    }
}

/// The convention in which a native path text is absolute, where it is in either.
pub open spec fn absolute_path_convention(s: Seq<char>) -> Option<PathConvention> {
    if (s.len() >= 2 && s[0] == '\\' && s[1] == '\\') || (s.len() >= 3 && is_ascii_letter(s[0])
        && s[1] == ':' && (s[2] == '\\' || s[2] == '/')) {
        Some(PathConvention::Windows)
    } else if s.len() >= 1 && s[0] == '/' {
        Some(PathConvention::Posix)
    } else {
        None
    }
}

/// The URI parts of an absolute Windows path: `X:\...` or a UNC path `\\host\share\...`
/// (either slash accepted).
pub open spec fn windows_uri_parts(s: Seq<char>) -> Option<(Seq<char>, Seq<char>)> {
    let r = replace_char(s, '\\', '/');
    if r.len() >= 2 && r[0] == '/' && r[1] == '/' {
        let k = find_char(r, '/', 2);
        if k <= 2 || !all_host_chars(r.subrange(2, k)) {
            None
        } else {
            Some((r.subrange(2, k), r.subrange(k, r.len() as int)))
        }
    } else if r.len() >= 3 && is_ascii_letter(r[0]) && r[1] == ':' && r[2] == '/' {
        Some((Seq::empty(), seq!['/'] + r))
    } else {
        None
    }
}

/// The URI parts of a native path that is absolute in `target`.
pub open spec fn native_uri_parts(s: Seq<char>, target: PathConvention) -> Option<
    (Seq<char>, Seq<char>),
> {
    match target {
        PathConvention::Posix => if s.len() >= 1 && s[0] == '/' {
            Some((Seq::empty(), s))
        } else {
            None
        },
        PathConvention::Windows => windows_uri_parts(s),
    }
}

/// Decoding the percent encoding of a byte string gives the bytes back.
pub proof fn lemma_percent_roundtrip(b: Seq<u8>)
    ensures
        percent_decode(percent_encode(b)) == Some(b),
    decreases b.len(),
{
    if b.len() > 0 {
        lemma_percent_roundtrip(b.skip(1));
        let x = b[0];
        let rest = percent_encode(b.skip(1));
        let all = encode_byte(x) + rest;
        assert(percent_encode(b) == all);
        if uri_safe(x) {
            assert(all[0] == x as char);
            assert(all.skip(1) =~= rest);
        } else {
            assert(all[0] == '%');
            assert(all[1] == hex_digit(x / 16));
            assert(all[2] == hex_digit(x % 16));
            assert(all.skip(3) =~= rest);
            assert(hex_value(hex_digit(x / 16)) == Some(x / 16));
            assert(hex_value(hex_digit(x % 16)) == Some(x % 16));
        }
        assert(seq![x] + b.skip(1) =~= b);
    }
}

/// Reading back the text of a URI gives the same host and path.
pub proof fn lemma_uri_text_roundtrip(host: Seq<char>, path: Seq<char>)
    requires
        all_host_chars(host),
        path.len() > 0,
        path[0] == '/',
    ensures
        parse_uri(uri_text(host, path)) == Some((host, path)),
{
    broadcast use encode_utf8_valid_utf8, encode_utf8_decode_utf8;

    let b = encode_utf8(path);
    assert((47u32 & 0x7F) as u8 == 47u8) by (bit_vector);
    assert(encode_scalar('/' as u32) =~= seq![47u8]);
    assert(b == encode_scalar(path[0] as u32) + encode_utf8(path.drop_first()));
    assert(b[0] == 47u8);
    let pe = percent_encode(b);
    assert(pe == encode_byte(b[0]) + percent_encode(b.skip(1)));
    assert(pe[0] == '/');
    let t = uri_text(host, path);
    let h = host.len() as int;
    assert(t.take(7) =~= file_scheme());
    assert forall|j: int| 7 <= j < 7 + h implies t[j] != '/' by {
        assert(t[j] == host[j - 7]);
        assert(host_char(host[j - 7]));
    }
    assert(t[7 + h] == '/');
    lemma_find_char_at(t, '/', 7, 7 + h);
    assert(t.subrange(7, 7 + h) =~= host);
    assert(t.skip(7 + h) =~= pe);
    lemma_percent_roundtrip(b);
}

/// The URI of an absolute Windows path names a Windows location.
pub proof fn lemma_windows_path_uri_is_windows(s: Seq<char>)
    requires
        windows_uri_parts(s) is Some,
    ensures
        uri_convention((windows_uri_parts(s)->0).0, (windows_uri_parts(s)->0).1)
            == PathConvention::Windows,
{
    let r = replace_char(s, '\\', '/');
    if !(r.len() >= 2 && r[0] == '/' && r[1] == '/') {
        let p = seq!['/'] + r;
        assert(p[1] == r[0] && p[2] == r[1] && p[3] == r[2]);
        assert(is_drive_path(p));
        assert(windows_uri_parts(s) == Some((Seq::<char>::empty(), p)));
    } else {
        let k = find_char(r, '/', 2);
        lemma_find_char(r, '/', 2);
        assert(r.subrange(2, k).len() > 0);
    }
}

/// The URI of an absolute Posix path that does not look like a drive path
/// names a Posix location, whose Posix path is the path itself.
pub proof fn lemma_posix_path_uri_roundtrip(s: Seq<char>)
    requires
        s.len() >= 1,
        s[0] == '/',
        !is_drive_path(s),
    ensures
        native_uri_parts(s, PathConvention::Posix) == Some((Seq::<char>::empty(), s)),
        uri_convention(Seq::<char>::empty(), s) == PathConvention::Posix,
{
}

/// A local path held as a `file://` URI.
#[derive(Clone, Debug, PartialEq, Eq)]
pub struct PathUri {
    host: String,
    path: String,
}

impl View for PathUri {
    /// The host and the decoded path.
    type V = (Seq<char>, Seq<char>);

    closed spec fn view(&self) -> (Seq<char>, Seq<char>) {
        (self.host@, self.path@)
    }
}

pub open spec fn valid_uri(v: (Seq<char>, Seq<char>)) -> bool {
    all_host_chars(v.0)
}

fn is_host_char(c: char) -> (r: bool)
    ensures
        r == host_char(c),
{
    ('A' <= c && c <= 'Z') || ('a' <= c && c <= 'z') || ('0' <= c && c <= '9') || c == '-' || c
        == '.' || c == '_' || c == '~' || c == '$'
}

fn all_host_chars_at(v: &[char], from: usize, to: usize) -> (r: bool)
    requires
        from <= to <= v@.len(),
    ensures
        r == all_host_chars(v@.subrange(from as int, to as int)),
{
    let mut i = from;
    while i < to
        invariant
            from <= i <= to <= v@.len(),
            forall|j: int| from <= j < i ==> host_char(#[trigger] v@[j]),
        decreases to - i,
    {
        if !is_host_char(v[i]) {
            assert(!host_char(v@.subrange(from as int, to as int)[i - from]));
            return false;
        }
        i = i + 1;
    }
    assert forall|j: int| 0 <= j < to - from implies host_char(
        #[trigger] v@.subrange(from as int, to as int)[j],
    ) by {
        assert(v@.subrange(from as int, to as int)[j] == v@[from + j]);
    }
    true
}

fn is_uri_safe(b: u8) -> (r: bool)
    ensures
        r == uri_safe(b),
{
    (65 <= b && b <= 90) || (97 <= b && b <= 122) || (48 <= b && b <= 57) || b == 45 || b == 46
        || b == 95 || b == 126 || b == 33 || b == 36 || b == 38 || b == 39 || b == 40 || b == 41
        || b == 42 || b == 43 || b == 44 || b == 59 || b == 61 || b == 58 || b == 64 || b == 47
}

fn hex_digit_of(n: u8) -> (c: char)
    requires
        n < 16,
    ensures
        c == hex_digit(n),
{
    if n < 10 {
        (n + 48) as char
    } else {
        (n + 55) as char
    }
}

fn hex_value_of(c: char) -> (r: Option<u8>)
    ensures
        r == hex_value(c),
        r is Some ==> r->0 < 16,
{
    if '0' <= c && c <= '9' {
        Some(((c as u32) - 48) as u8)
    } else if 'A' <= c && c <= 'F' {
        Some(((c as u32) - 55) as u8)
    } else if 'a' <= c && c <= 'f' {
        Some(((c as u32) - 87) as u8)
    } else {
        None
    }
}

/// Decodes UTF-8 bytes into a string (`String::from_utf8`).
///
/// Trusted: std documents that `from_utf8` fails exactly on bytes that are not
/// UTF-8 and otherwise yields the string those bytes encode.
#[verifier::external_body]
pub(crate) fn string_from_utf8(bytes: Vec<u8>) -> (r: Option<String>)
    ensures
        r is Some <==> valid_utf8(bytes@),
        r is Some ==> r->0@ == decode_utf8(bytes@),
{
    String::from_utf8(bytes).ok()
}

/// The native path convention in which `path` is absolute, if it is absolute in either.
pub fn infer_absolute_path_convention(path: &str) -> (r: Option<PathConvention>)
    ensures
        r == absolute_path_convention(path@),
{
    let s = chars_of(path);
    let n = s.len();
    if (n >= 2 && s[0] == '\\' && s[1] == '\\') || (n >= 3 && (('A' <= s[0] && s[0] <= 'Z') || (
    'a' <= s[0] && s[0] <= 'z')) && s[1] == ':' && (s[2] == '\\' || s[2] == '/')) {
        Some(PathConvention::Windows)
    } else if n >= 1 && s[0] == '/' {
        Some(PathConvention::Posix)
    } else {
        None
    }
}

impl PathUri {
    /// Reads a `file://` URI.
    pub fn parse(text: &str) -> (r: Result<PathUri, WslPathError>)
        ensures
            match parse_uri(text@) {
                Some(parts) => r is Ok && r->Ok_0@ == parts,
                None => r is Err,
            },
            r is Ok ==> valid_uri(r->Ok_0@),
    {
        let t = chars_of(text);
        let n = t.len();
        if !(n >= 7 && t[0] == 'f' && t[1] == 'i' && t[2] == 'l' && t[3] == 'e' && t[4] == ':'
            && t[5] == '/' && t[6] == '/') {
            proof {
                if t@.len() >= 7 && t@.take(7) == file_scheme() {
                    assert(t@.take(7)[0] == 'f' && t@.take(7)[1] == 'i' && t@.take(7)[2] == 'l'
                        && t@.take(7)[3] == 'e' && t@.take(7)[4] == ':' && t@.take(7)[5] == '/'
                        && t@.take(7)[6] == '/');
                }
            }
            return Err(WslPathError::InvalidUri { uri: String::from_str(text) });
        }
        assert(t@.take(7) =~= file_scheme());
        let k = match find_char_from(&t, '/', 7) {
            Some(k) => k,
            None => {
                return Err(WslPathError::InvalidUri { uri: String::from_str(text) });
            },
        };
        if !all_host_chars_at(&t, 7, k) {
            return Err(WslPathError::InvalidUri { uri: String::from_str(text) });
        }
        let ghost total = percent_decode(t@.skip(k as int));
        let mut bytes: Vec<u8> = Vec::new();
        let mut i = k;
        while i < n
            invariant
                k <= i <= n == t@.len(),
                t@ == text@,
                t@.len() >= 7 && t@.take(7) == file_scheme(),
                find_char(t@, '/', 7) == k as int,
                7 <= k,
                all_host_chars(t@.subrange(7, k as int)),
                total == percent_decode(t@.skip(k as int)),
                total == prepend(bytes@, percent_decode(t@.skip(i as int))),
            decreases n - i,
        {
            let ghost rest = t@.skip(i as int);
            assert(rest[0] == t@[i as int]);
            let c = t[i];
            if c == '%' {
                if n - i > 2 {
                    assert(rest[1] == t@[i + 1] && rest[2] == t@[i + 2]);
                    let hi = hex_value_of(t[i + 1]);
                    let lo = hex_value_of(t[i + 2]);
                    match (hi, lo) {
                        (Some(h), Some(l)) => {
                            let b: u8 = h * 16 + l;
                            assert(rest.skip(3) =~= t@.skip(i + 3));
                            proof {
                                let tail = percent_decode(t@.skip(i + 3));
                                if tail is Some {
                                    assert(bytes@ + (seq![b] + tail->0) =~= bytes@.push(b)
                                        + tail->0);
                                }
                            }
                            bytes.push(b);
                            i = i + 3;
                        },
                        _ => {
                            return Err(WslPathError::InvalidUri { uri: String::from_str(text) });
                        },
                    }
                } else {
                    return Err(WslPathError::InvalidUri { uri: String::from_str(text) });
                }
            } else if '!' <= c && c <= '~' && c != '?' && c != '#' {
                let b = c as u8;
                assert(rest.skip(1) =~= t@.skip(i + 1));
                proof {
                    let tail = percent_decode(t@.skip(i + 1));
                    if tail is Some {
                        assert(bytes@ + (seq![b] + tail->0) =~= bytes@.push(b) + tail->0);
                    }
                }
                bytes.push(b);
                i = i + 1;
            } else {
                return Err(WslPathError::InvalidUri { uri: String::from_str(text) });
            }
        }
        assert(t@.skip(n as int) =~= Seq::<char>::empty());
        assert(bytes@ + Seq::<u8>::empty() =~= bytes@);
        match string_from_utf8(bytes) {
            Some(path) => {
                let host = string_of(&t, 7, k);
                Ok(PathUri { host, path })
            },
            None => Err(WslPathError::InvalidUri { uri: String::from_str(text) }),
        }
    }

    /// The URI text.
    pub fn as_uri_string(&self) -> (r: String)
        ensures
            r@ == uri_text(self@.0, self@.1),
    {
        let mut out = String::from_str("file://");
        proof {
            reveal_strlit("file://");
        }
        assert("file://"@ =~= file_scheme());
        out.append(self.host.as_str());
        let bytes = self.path.as_str().as_bytes();
        let ghost b = bytes@;
        assert(b == encode_utf8(self.path@));
        assert(b.skip(0) =~= b);
        assert(out@ == file_scheme() + self.host@);
        assert(uri_text(self.host@, self.path@) =~= out@ + percent_encode(b.skip(0)));
        let mut i: usize = 0;
        while i < bytes.len()
            invariant
                i <= b.len(),
                b == bytes@,
                uri_text(self.host@, self.path@) == out@ + percent_encode(b.skip(i as int)),
            decreases b.len() - i,
        {
            let x = bytes[i];
            let ghost before = out@;
            assert(b.skip(i as int)[0] == x);
            assert(b.skip(i as int).skip(1) =~= b.skip(i + 1));
            if is_uri_safe(x) {
                push_char(&mut out, x as char);
            } else {
                push_char(&mut out, '%');
                push_char(&mut out, hex_digit_of(x / 16));
                push_char(&mut out, hex_digit_of(x % 16));
            }
            assert(out@ =~= before + encode_byte(x));
            assert(before + percent_encode(b.skip(i as int)) =~= out@ + percent_encode(
                b.skip(i + 1),
            ));
            i = i + 1;
        }
        assert(b.skip(i as int) =~= Seq::<u8>::empty());
        assert(out@ + Seq::<char>::empty() =~= out@);
        out
    }

    /// The host of the URI; empty for a local path.
    pub fn host(&self) -> (r: &str)
        ensures
            r@ == self@.0,
    {
        self.host.as_str()
    }

    /// The decoded path of the URI.
    pub fn path(&self) -> (r: &str)
        ensures
            r@ == self@.1,
    {
        self.path.as_str()
    }

    /// The convention this URI's location belongs to.
    pub fn infer_path_convention(&self) -> (r: PathConvention)
        ensures
            r == uri_convention(self@.0, self@.1),
    {
        let p = chars_of(self.path.as_str());
        let drive = p.len() >= 3 && p[0] == '/' && (('A' <= p[1] && p[1] <= 'Z') || ('a' <= p[1]
            && p[1] <= 'z')) && p[2] == ':' && (p.len() == 3 || p[3] == '/');
        if self.host.as_str().is_empty() && !drive {
            PathConvention::Posix
        } else {
            PathConvention::Windows
        }
    }

    /// The native Posix path this URI names.
    pub fn to_posix_path(&self) -> (r: Result<String, WslPathError>)
        ensures
            match r {
                Ok(s) => uri_convention(self@.0, self@.1) == PathConvention::Posix && s@
                    == self@.1,
                Err(_) => uri_convention(self@.0, self@.1) == PathConvention::Windows,
            },
    {
        match self.infer_path_convention() {
            PathConvention::Posix => Ok(self.path.clone()),
            PathConvention::Windows => Err(WslPathError::NotPosixUri),
        }
    }

    /// The URI of a native path that is absolute in `target`.
    pub fn from_native(native: &str, target: PathConvention) -> (r: Result<PathUri, WslPathError>)
        ensures
            match native_uri_parts(native@, target) {
                Some(parts) => r is Ok && r->Ok_0@ == parts,
                None => r is Err,
            },
            r is Ok ==> valid_uri(r->Ok_0@),
    {
        let s = chars_of(native);
        match target {
            PathConvention::Posix => {
                if s.len() >= 1 && s[0] == '/' {
                    Ok(PathUri { host: String::new(), path: String::from_str(native) })
                } else {
                    Err(WslPathError::NotAbsolute { path: String::from_str(native), convention: target })
                }
            },
            PathConvention::Windows => {
                let r = replace_chars(&s, '\\', '/');
                let n = r.len();
                if n >= 2 && r[0] == '/' && r[1] == '/' {
                    match find_char_from(&r, '/', 2) {
                        Some(k) => {
                            if k > 2 && all_host_chars_at(&r, 2, k) {
                                let host = string_of(&r, 2, k);
                                let path = string_of(&r, k, n);
                                return Ok(PathUri { host, path });
                            }
                        },
                        None => {},
                    }
                    Err(WslPathError::NotAbsolute { path: String::from_str(native), convention: target })
                } else if n >= 3 && (('A' <= r[0] && r[0] <= 'Z') || ('a' <= r[0] && r[0] <= 'z'))
                    && r[1] == ':' && r[2] == '/' {
                    let mut path = String::new();
                    push_char(&mut path, '/');
                    push_chars(&mut path, &r, 0, n);
                    assert(r@.subrange(0, n as int) =~= r@);
                    assert(seq!['/'] + r@ =~= Seq::<char>::empty().push('/') + r@);
                    Ok(PathUri { host: String::new(), path })
                } else {
                    Err(WslPathError::NotAbsolute { path: String::from_str(native), convention: target })
                }
            },
        }
    }

    /// This URI with one more path segment appended.
    pub fn join(&self, segment: &str) -> (r: Result<PathUri, WslPathError>)
        ensures
            match r {
                Ok(u) => {
                    &&& segment@.len() > 0
                    &&& !segment@.contains('/')
                    &&& u@.0 == self@.0
                    &&& u@.1 == if self@.1.len() > 0 && self@.1.last() == '/' {
                        self@.1 + segment@
                    } else {
                        self@.1.push('/') + segment@
                    }
                },
                Err(_) => segment@.len() == 0 || segment@.contains('/'),
            },
    {
        let seg = chars_of(segment);
        if seg.len() == 0 {
            return Err(WslPathError::InvalidSegment { segment: String::from_str(segment) });
        }
        match find_char_from(&seg, '/', 0) {
            Some(_) => {
                return Err(WslPathError::InvalidSegment { segment: String::from_str(segment) });
            },
            None => {},
        }
        proof {
            lemma_find_char(seg@, '/', 0);
        }
        let p = chars_of(self.path.as_str());
        let mut path = self.path.clone();
        if !(p.len() > 0 && p[p.len() - 1] == '/') {
            push_char(&mut path, '/');
        }
        path.append(segment);
        Ok(PathUri { host: self.host.clone(), path })
    }
}

} // verus!
