//! Detection of local model runtimes: what the probes report is turned into
//! a status here. Running the probes is the caller's business.

use crate::order::texts;
use crate::text::{chars_of, find_break, first_break, opt_text, trim, trim_bounds};
use vstd::prelude::*;
use vstd::string::StrSliceExecFns;

verus! {

/// Whether a runtime is installed and running.
#[derive(Clone, Debug)]
pub struct LLMStatus {
    pub installed: bool,
    pub running: bool,
    pub version: Option<String>,
    pub path: Option<String>,
}

/// The status of each runtime that is looked for.
#[derive(Clone, Debug)]
pub struct LocalLLMDetection {
    pub ollama: LLMStatus,
    pub lm_studio: LLMStatus,
    pub vllm: LLMStatus,
}

/// What a command that ran has to show for it.
#[derive(Debug)]
pub struct CommandOutput {
    /// Whether the command reported success.
    pub success: bool,
    /// What it wrote to its standard output.
    pub stdout: String,
}

/// The text of `s` before its first line feed.
pub open spec fn before_line_feed(s: Seq<char>) -> Seq<char> {
    s.take(first_break(s, false))
}

/// The first line of `s`: the text before its first line feed, without the
/// carriage return that may stand before that line feed.
pub open spec fn first_line(s: Seq<char>) -> Seq<char> {
    let end = first_break(s, false);
    if 0 < end < s.len() && s[end - 1] == '\r' {
        s.take(end - 1)
    } else {
        s.take(end)
    }
}

/// The version that a tool's output names: nothing for empty output, else
/// the first line of the trimmed output, trimmed. A carriage return before
/// the line feed is white space and goes with the trimming.
pub open spec fn version_line(stdout: Seq<char>) -> Option<Seq<char>> {
    if stdout.len() == 0 {
        None
    } else {
        Some(trim(before_line_feed(trim(stdout))))
    }
}

/// The version or identifier that a tool printed.
pub fn parse_version_line(stdout: &str) -> (r: Option<String>)
    ensures
        opt_text(r) == version_line(stdout@),
{
    let v = chars_of(stdout);
    if v.len() == 0 {
        return None;
    }
    let (a, b) = trim_bounds(&v, 0, v.len());
    assert(v@.subrange(0, v.len() as int) =~= v@);
    let e = find_break(&v, a, b, false);
    let ghost body = v@.subrange(a as int, b as int);
    assert(v@.subrange(a as int, e as int) =~= body.take(e - a));
    let (c, d) = trim_bounds(&v, a, e);
    Some(stdout.substring_char(c, d).to_owned())
}

/// The path that a lookup of a command printed: nothing where the lookup
/// failed or printed only white space, else the first line of the trimmed
/// output.
pub open spec fn command_path(success: bool, stdout: Seq<char>) -> Option<Seq<char>> {
    if success && trim(stdout).len() > 0 {
        Some(first_line(trim(stdout)))
    } else {
        None
    }
}

/// Where a command is installed, from the output of the lookup.
pub fn command_exists(lookup: Option<&CommandOutput>) -> (r: Option<String>)
    ensures
        opt_text(r) == match lookup {
            Some(out) => command_path(out.success, out.stdout@),
            None => None,
        },
{
    match lookup {
        Some(out) => {
            if !out.success {
                return None;
            }
            let v = chars_of(out.stdout.as_str());
            let (a, b) = trim_bounds(&v, 0, v.len());
            assert(v@.subrange(0, v.len() as int) =~= v@);
            if a == b {
                return None;
            }
            let e = find_break(&v, a, b, false);
            let ghost body = v@.subrange(a as int, b as int);
            let end = if a < e && e < b && v[e - 1] == '\r' {
                e - 1
            } else {
                e
            };
            assert(v@.subrange(a as int, end as int) =~= body.take(end - a));
            Some(out.stdout.as_str().substring_char(a, end).to_owned())
        },
        None => None,
    }
}

/// The version that `--version` printed, where the command reported
/// success.
pub open spec fn reported_version(output: Option<CommandOutput>) -> Option<Seq<char>> {
    match output {
        Some(out) => if out.success {
            version_line(out.stdout@)
        } else {
            None
        },
        None => None,
    }
}

/// The status of a runtime that is found by its command: installed where the
/// command has a path, with the version that it reported.
pub open spec fn status_by_command(
    status: LLMStatus,
    path: Option<Seq<char>>,
    running: bool,
    version: Option<CommandOutput>,
) -> bool {
    &&& status.installed == (path is Some)
    &&& status.running == running
    &&& opt_text(status.path) == path
    &&& opt_text(status.version) == if path is Some {
        reported_version(version)
    } else {
        None
    }
}

/// The status of a runtime that is found by its command.
fn command_status(path: Option<String>, running: bool, version: Option<&CommandOutput>) -> (r:
    LLMStatus)
    ensures
        status_by_command(
            r,
            opt_text(path),
            running,
            match version {
                Some(out) => Some(*out),
                None => None,
            },
        ),
{
    let installed = path.is_some();
    let version = if installed {
        match version {
            Some(out) => if out.success {
                parse_version_line(out.stdout.as_str())
            } else {
                None
            },
            None => None,
        }
    } else {
        None
    };
    LLMStatus { installed, running, version, path }
}

/// The status of Ollama, given where its command is, whether its port
/// answers, and what `ollama --version` printed.
pub fn detect_ollama(path: Option<String>, running: bool, version: Option<&CommandOutput>) -> (r:
    LLMStatus)
    ensures
        status_by_command(
            r,
            opt_text(path),
            running,
            match version {
                Some(out) => Some(*out),
                None => None,
            },
        ),
{
    command_status(path, running, version)
}

/// The status of LM Studio, given where its command line tool is found in
/// its own directory, where it is found on the search path, whether its port
/// answers, and what `lms --version` printed. The tool's own directory comes
/// first.
pub fn detect_lm_studio(
    own_path: Option<String>,
    search_path: Option<String>,
    running: bool,
    version: Option<&CommandOutput>,
) -> (r: LLMStatus)
    ensures
        status_by_command(
            r,
            if own_path is Some {
                opt_text(own_path)
            } else {
                opt_text(search_path)
            },
            running,
            match version {
                Some(out) => Some(*out),
                None => None,
            },
        ),
{
    let path = match own_path {
        Some(p) => Some(p),
        None => search_path,
    };
    command_status(path, running, version)
}

/// The status of vLLM, given what asking Python for its version printed and
/// whether its port answers: installed where Python reported success, with
/// the trimmed output as the version unless that is empty.
pub fn detect_vllm(probe: Option<&CommandOutput>, running: bool) -> (r: LLMStatus)
    ensures
        r.running == running,
        r.path is None,
        r.installed == (probe matches Some(out) && out.success),
        opt_text(r.version) == match probe {
            Some(out) => if out.success && trim(out.stdout@).len() > 0 {
                Some(trim(out.stdout@))
            } else {
                None
            },
            None => None,
        },
{
    let (installed, version) = match probe {
        Some(out) => if out.success {
            let v = chars_of(out.stdout.as_str());
            let (a, b) = trim_bounds(&v, 0, v.len());
            assert(v@.subrange(0, v.len() as int) =~= v@);
            if a == b {
                (true, None)
            } else {
                (true, Some(out.stdout.as_str().substring_char(a, b).to_owned()))
            }
        } else {
            (false, None)
        },
        None => (false, None),
    };
    LLMStatus { installed, running, version, path: None }
}

/// The detection of all runtimes, from the status of each.
pub fn detect_local_llms(ollama: LLMStatus, lm_studio: LLMStatus, vllm: LLMStatus) -> (r:
    LocalLLMDetection)
    ensures
        r.ollama == ollama,
        r.lm_studio == lm_studio,
        r.vllm == vllm,
{
    LocalLLMDetection { ollama, lm_studio, vllm }
}

/// Where the command line tool of LM Studio is installed, as path
/// components below the user's home directory.
pub fn lms_path(windows: bool) -> (r: Vec<String>)
    ensures
        texts(r@) == seq![
            ".lmstudio"@,
            "bin"@,
            if windows {
                "lms.exe"@
            } else {
                "lms"@
            },
        ],
{
    let name = if windows {
        "lms.exe"
    } else {
        "lms"
    };
    let mut out: Vec<String> = Vec::new();
    out.push(".lmstudio".to_owned());
    out.push("bin".to_owned());
    out.push(name.to_owned());
    assert(texts(out@) =~= seq![".lmstudio"@, "bin"@, name@]);
    out
}

} // verus!
