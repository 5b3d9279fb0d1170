//! Translate paths at the local WSL/Windows process boundary, without changing
//! sandbox access modes or interpreting paths belonging to remote executors.
//!
//! The translation itself is done by WSL's `wslpath`, which the caller runs;
//! this module decides which paths go to it and what is done with its answers.
use vstd::prelude::*;
use vstd::utf8::{decode_utf8, valid_utf8};
use crate::error::WslPathError;
use crate::path_uri::{
    absolute_path_convention, infer_absolute_path_convention, native_uri_parts,
    string_from_utf8, PathConvention, PathUri,
};
use crate::sandbox::{accepts_requests, answered, map_sandbox_paths, sandbox_mapping, SandboxState};
use crate::text::{chars_of, lower, lower_char, str_eq, string_of};

verus! {

/// The environment in which local MCP servers run.
pub const DEFAULT_MCP_SERVER_ENVIRONMENT_ID: &'static str = "local";

#[derive(Clone, Copy, Debug, PartialEq, Eq, Structural)]
pub enum ImageDetail {
    Auto,
    Low,
    High,
}

#[derive(Clone, Copy, Debug, PartialEq, Eq, Structural)]
pub struct TextElement {
    pub byte_start: usize,
    pub byte_end: usize,
}

/// One piece of user input to a turn.
#[derive(Clone, Debug, PartialEq, Eq)]
pub enum UserInput {
    Text { text: String, text_elements: Vec<TextElement> },
    Image { image_url: String },
    LocalImage { path: String, detail: Option<ImageDetail> },
}

/// How an MCP server is reached.
#[derive(Clone, Debug, PartialEq, Eq)]
pub enum McpServerTransportConfig {
    Stdio { command: String, args: Vec<String>, cwd: Option<String> },
    StreamableHttp { url: String },
}

// ---------------------------------------------------------------------------
// Specifications
// ---------------------------------------------------------------------------
/// The flag that asks `wslpath` for a path in `target`'s convention.
pub open spec fn wslpath_flag_text(target: PathConvention) -> Seq<char> {
    match target {
        PathConvention::Posix => seq!['-', 'u'],
        PathConvention::Windows => seq!['-', 'w'],
    }
}

/// `s` without its trailing carriage returns and line feeds.
pub open spec fn trim_line_end(s: Seq<char>) -> Seq<char>
    decreases s.len(),
{
    if s.len() > 0 && (s.last() == '\r' || s.last() == '\n') {
        trim_line_end(s.drop_last())
    } else {
        s
    }
}

/// An image path is sent to `wslpath` when running in WSL and the path is an
/// absolute Windows path.
pub open spec fn image_needs_translation(is_wsl: bool, path: Seq<char>) -> bool {
    is_wsl && absolute_path_convention(path) == Some(PathConvention::Windows)
}

/// In WSL, an image path goes to the translator exactly when Windows reads
/// it as absolute: a UNC path (two leading backslashes, such as
/// `\\wsl.localhost\...`, `\\wsl$\...` or a network share) or a drive path
/// `X:\...` or `X:/...`. Linux paths, relative paths, and every path outside
/// WSL are used as they are.
pub proof fn lemma_windows_image_paths_are_translated(is_wsl: bool, p: Seq<char>)
    ensures
        image_needs_translation(is_wsl, p) <==> is_wsl && ((p.len() >= 2 && p[0] == '\\' && p[1]
            == '\\') || (p.len() >= 3 && (('A' <= p[0] && p[0] <= 'Z') || ('a' <= p[0] && p[0]
            <= 'z')) && p[1] == ':' && (p[2] == '\\' || p[2] == '/'))),
{
}

/// The text that stands in for an image that could not be read.
pub open spec fn unreadable_image_text(path: Seq<char>, message: Seq<char>) -> Seq<char> {
    "Codex could not read the local image at `"@ + path + "`: "@ + message
}

/// A command whose name ends in `.exe` (in any case) given by an absolute path.
pub open spec fn is_windows_command(c: Seq<char>) -> bool {
    &&& c.len() >= 4
    &&& lower(c[c.len() - 4]) == '.'
    &&& lower(c[c.len() - 3]) == 'e'
    &&& lower(c[c.len() - 2]) == 'x'
    &&& lower(c[c.len() - 1]) == 'e'
    &&& (c[0] == '/' || absolute_path_convention(c) == Some(PathConvention::Windows))
}

/// A server started directly from a Windows executable.
pub open spec fn is_windows_stdio(transport: Option<&McpServerTransportConfig>) -> bool {
    match transport {
        Some(McpServerTransportConfig::Stdio { command, .. }) => is_windows_command(command@),
        _ => false,
    }
}

/// Sandbox metadata is translated only for a Windows executable run directly
/// by the local environment of a WSL host.
pub open spec fn sandbox_needs_translation(
    is_wsl: bool,
    transport: Option<&McpServerTransportConfig>,
    environment_id: Seq<char>,
) -> bool {
    is_wsl && environment_id == "local"@ && is_windows_stdio(transport)
}

// ---------------------------------------------------------------------------
// Executable functions
// ---------------------------------------------------------------------------
/// The `wslpath` flag for a translation into `target`.
pub fn wslpath_flag(target: PathConvention) -> (r: &'static str)
    ensures
        r@ == wslpath_flag_text(target),
{
    proof {
        reveal_strlit("-u");
        reveal_strlit("-w");
    }
    match target {
        PathConvention::Posix => "-u",
        PathConvention::Windows => "-w",
    }
}

/// Accepts what `wslpath` printed: UTF-8 text that, without its line end, is
/// an absolute path in `target`'s convention.
pub fn accept_translated_path(stdout: Vec<u8>, target: PathConvention) -> (r: Result<
    String,
    WslPathError,
>)
    ensures
        !valid_utf8(stdout@) ==> r == Err::<String, WslPathError>(WslPathError::NonUtf8Output),
        valid_utf8(stdout@) ==> match r {
            Ok(s) => s@ == trim_line_end(decode_utf8(stdout@)) && native_uri_parts(
                s@,
                target,
            ) is Some,
            Err(e) => native_uri_parts(trim_line_end(decode_utf8(stdout@)), target) is None
                && e is NotAbsolute && e->path@ == trim_line_end(decode_utf8(stdout@))
                && e->convention == target,
        },
{
    let text = match string_from_utf8(stdout) {
        Some(t) => t,
        None => {
            return Err(WslPathError::NonUtf8Output);
        },
    };
    let c = chars_of(text.as_str());
    let mut j = c.len();
    assert(c@.take(j as int) =~= c@);
    while j > 0 && (c[j - 1] == '\r' || c[j - 1] == '\n')
        invariant
            j <= c@.len(),
            trim_line_end(c@) == trim_line_end(c@.take(j as int)),
        decreases j,
    {
        assert(c@.take(j as int).drop_last() =~= c@.take(j - 1));
        j = j - 1;
    }
    let trimmed = string_of(&c, 0, j);
    assert(c@.subrange(0, j as int) =~= c@.take(j as int));
    match PathUri::from_native(trimmed.as_str(), target) {
        Ok(_) => Ok(trimmed),
        Err(_) => Err(WslPathError::NotAbsolute { path: trimmed, convention: target }),
    }
}

/// The local path of an image: an absolute Windows path is translated to
/// Posix with `translate` when running in WSL (`Ok(Some(..))`); any other
/// path is used as it is (`Ok(None)`).
pub fn local_image_path<F: Fn(&str) -> Result<String, String>>(
    path: &str,
    is_wsl: bool,
    translate: F,
) -> (r: Result<Option<String>, WslPathError>)
    requires
        image_needs_translation(is_wsl, path@) ==> call_requires(translate, (path,)),
    ensures
        !image_needs_translation(is_wsl, path@) ==> r == Ok::<Option<String>, WslPathError>(
            None,
        ),
        image_needs_translation(is_wsl, path@) ==> exists|reply: Result<String, String>|
            #[trigger] call_ensures(translate, (path,), reply) && r == match reply {
                Ok(t) => Ok::<Option<String>, WslPathError>(Some(t)),
                Err(message) => Err(WslPathError::Translation { message }),
            },
{
    if is_wsl && infer_absolute_path_convention(path) == Some(PathConvention::Windows) {
        let reply = translate(path);
        match reply {
            Ok(t) => Ok(Some(t)),
            Err(message) => Err(WslPathError::Translation { message }),
        }
    } else {
        Ok(None)
    }
}

/// A local image attachment whose Windows path is translated for WSL; an
/// image that cannot be translated becomes a text note saying so, and every
/// other input is kept.
pub fn local_image_input<F: Fn(&str) -> Result<String, String>>(
    input: UserInput,
    is_wsl: bool,
    translate: F,
) -> (r: UserInput)
    requires
        input is LocalImage && image_needs_translation(is_wsl, input->path@) ==> forall|a: &str|
            a@ == input->path@ ==> call_requires(translate, (a,)),
    ensures
        match input {
            UserInput::LocalImage { path, detail } => if !image_needs_translation(is_wsl, path@) {
                r == input
            } else {
                exists|reply: Result<String, String>|
                    #[trigger] answered(translate, path@, reply) && match reply {
                        Ok(t) => r == UserInput::LocalImage { path: t, detail },
                        Err(message) => r is Text && r->text@ == unreadable_image_text(
                            path@,
                            message@,
                        ) && r->text_elements@.len() == 0,
                    }
            },
            _ => r == input,
        },
{
    match input {
        UserInput::LocalImage { path, detail } => {
            let p = path.as_str();
            let result = local_image_path(p, is_wsl, translate);
            proof {
                if image_needs_translation(is_wsl, path@) {
                    let reply = choose|reply: Result<String, String>|
                        #[trigger] call_ensures(translate, (p,), reply) && result == match reply {
                            Ok(t) => Ok::<Option<String>, WslPathError>(Some(t)),
                            Err(message) => Err(WslPathError::Translation { message }),
                        };
                    assert(answered(translate, path@, reply));
                }
            }
            match result {
                Ok(None) => UserInput::LocalImage { path, detail },
                Ok(Some(mapped)) => UserInput::LocalImage { path: mapped, detail },
                Err(error) => {
                    let mut text = String::from_str("Codex could not read the local image at `");
                    text.append(path.as_str());
                    text.append("`: ");
                    let message = error.message();
                    text.append(message.as_str());
                    UserInput::Text { text, text_elements: Vec::new() }
                },
            }
        },
        other => other,
    }
}

/// Whether a server is started directly from a Windows executable.
pub fn windows_stdio_command(transport: Option<&McpServerTransportConfig>) -> (r: bool)
    ensures
        r == is_windows_stdio(transport),
{
    match transport {
        Some(McpServerTransportConfig::Stdio { command, .. }) => {
            let c = chars_of(command.as_str());
            let n = c.len();
            if n < 4 {
                return false;
            }
            let exe = lower_char(c[n - 4]) == '.' && lower_char(c[n - 3]) == 'e' && lower_char(
                c[n - 2],
            ) == 'x' && lower_char(c[n - 1]) == 'e';
            exe && (c[0] == '/' || infer_absolute_path_convention(command.as_str()) == Some(
                PathConvention::Windows,
            ))
        },
        _ => false,
    }
}

/// The sandbox metadata to send to an MCP server: translated to Windows with
/// `map` for a Windows executable run by the local environment of a WSL host,
/// otherwise unchanged.
pub fn sandbox_state<F: Fn(&str) -> Result<String, String>>(
    state: SandboxState,
    transport: Option<&McpServerTransportConfig>,
    environment_id: &str,
    is_wsl: bool,
    map: F,
) -> (r: Result<SandboxState, WslPathError>)
    requires
        sandbox_needs_translation(is_wsl, transport, environment_id@) ==> accepts_requests(
            map,
            state,
        ),
    ensures
        !sandbox_needs_translation(is_wsl, transport, environment_id@) ==> r == Ok::<
            SandboxState,
            WslPathError,
        >(state),
        sandbox_needs_translation(is_wsl, transport, environment_id@) ==> exists|
            answers: Seq<Option<Result<String, String>>>,
        | #[trigger] sandbox_mapping(state, map, answers, r),
{
    proof {
        reveal_strlit("local");
    }
    if !is_wsl || !str_eq(environment_id, DEFAULT_MCP_SERVER_ENVIRONMENT_ID)
        || !windows_stdio_command(transport) {
        return Ok(state);
    }
    map_sandbox_paths(state, map)
}

} // verus!
