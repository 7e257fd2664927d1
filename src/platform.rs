//! Facts about the platform the application runs on.
use vstd::prelude::*;
use vstd::string::*;
use crate::chars::{from_chars, seq_starts_with, to_chars, chars_occur_at};

verus! {

/// Operating systems the application knows.
#[derive(Clone, Copy, Debug, PartialEq, Eq)]
pub enum TargetOs {
    MacOs,
    Linux,
    Windows,
    Other,
}

/// Processor architectures the application knows.
#[derive(Clone, Copy, Debug, PartialEq, Eq)]
pub enum TargetArch {
    Aarch64,
    X86_64,
    Other,
}

/// MLX runs on Apple Silicon only.
pub fn is_mlx_available(os: TargetOs, arch: TargetArch) -> (r: bool)
    ensures
        r == (os == TargetOs::MacOs && arch == TargetArch::Aarch64),
{
    match (os, arch) {
        (TargetOs::MacOs, TargetArch::Aarch64) => true,
        _ => false,
    }
}

/// The target triple of the bundled helper binaries.
pub open spec fn target_triple(os: TargetOs, arch: TargetArch) -> Option<&'static str> {
    match (os, arch) {
        (TargetOs::MacOs, TargetArch::Aarch64) => Some("aarch64-apple-darwin"),
        (TargetOs::MacOs, TargetArch::X86_64) => Some("x86_64-apple-darwin"),
        (TargetOs::Linux, TargetArch::X86_64) => Some("x86_64-unknown-linux-gnu"),
        (TargetOs::Windows, TargetArch::X86_64) => Some("x86_64-pc-windows-msvc"),
        _ => None,
    }
}

/// The target triple for the platform, or an error on an unsupported one.
pub fn get_target_triple(os: TargetOs, arch: TargetArch) -> (r: Result<&'static str, String>)
    ensures
        r matches Ok(t) ==> target_triple(os, arch) == Some(t),
        r is Err <==> target_triple(os, arch) is None,
        r matches Err(e) ==> e@ == "Unsupported platform"@,
{
    match (os, arch) {
        (TargetOs::MacOs, TargetArch::Aarch64) => Ok("aarch64-apple-darwin"),
        (TargetOs::MacOs, TargetArch::X86_64) => Ok("x86_64-apple-darwin"),
        (TargetOs::Linux, TargetArch::X86_64) => Ok("x86_64-unknown-linux-gnu"),
        (TargetOs::Windows, TargetArch::X86_64) => Ok("x86_64-pc-windows-msvc"),
        _ => Err(String::from_str("Unsupported platform")),
    }
}

/// Longest path, in bytes, that Windows accepts without the long-path prefix.
pub const MAX_SHORT_PATH_BYTES: usize = 260;

/// A path in long-path form: off Windows, and on Windows for paths that
/// already carry the `\\?\` prefix, UNC paths (`\\`) and paths of at most
/// 260 bytes, the path stays as it is; longer Windows paths get the `\\?\`
/// prefix.
pub open spec fn long_path(os: TargetOs, path: Seq<char>, byte_len: nat) -> Seq<char> {
    if os != TargetOs::Windows || seq_starts_with(path, "\\\\?\\"@) || seq_starts_with(path, "\\\\"@) || byte_len
        <= MAX_SHORT_PATH_BYTES {
        path
    } else {
        "\\\\?\\"@ + path
    }
}

/// Converts a path to long-path form on `os` (see `long_path`).
pub fn to_long_path(path: &str, os: TargetOs) -> (r: String)
    ensures
        r@ == long_path(os, path@, (path.spec_bytes().len() as usize) as nat),
{
    proof {
        reveal_strlit("\\\\?\\");
        reveal_strlit("\\\\");
    }
    let chars = to_chars(path);
    let on_windows = match os {
        TargetOs::Windows => true,
        _ => false,
    };
    let long_prefix = to_chars("\\\\?\\");
    let unc_prefix = to_chars("\\\\");
    if !on_windows || chars_occur_at(&chars, &long_prefix, 0) || chars_occur_at(&chars, &unc_prefix, 0)
        || path.len() <= MAX_SHORT_PATH_BYTES {
        return from_chars(&chars);
    }
    let mut out = String::from_str("\\\\?\\");
    out.append(path);
    out
}

/// Script that installs whisper.cpp, per platform.
pub fn setup_hint(os: TargetOs) -> (r: &'static str)
    ensures
        r == if os == TargetOs::Windows {
            ".\\scripts\\setup-whisper.ps1"
        } else {
            "./scripts/setup-whisper.sh"
        },
{
    match os {
        TargetOs::Windows => ".\\scripts\\setup-whisper.ps1",
        _ => "./scripts/setup-whisper.sh",
    }
}

/// File name of the bundled whisper.cpp binary for a target triple.
pub fn whisper_binary_name(target_triple: &str, os: TargetOs) -> (r: String)
    ensures
        r@ == "whisper-"@ + target_triple@ + if os == TargetOs::Windows {
            ".exe"@
        } else {
            Seq::empty()
        },
{
    let mut name = String::from_str("whisper-");
    name.append(target_triple);
    match os {
        TargetOs::Windows => name.append(".exe"),
        _ => {
            proof {
                assert(name@ + Seq::<char>::empty() =~= name@);
            }
        },
    }
    name
}

/// Most threads handed to whisper.cpp.
pub const MAX_WHISPER_THREADS: usize = 8;

/// Threads used when the parallelism of the machine is unknown.
pub const DEFAULT_WHISPER_THREADS: usize = 4;

/// Threads for whisper.cpp: the available parallelism (or the default when
/// unknown), kept within 1..=8.
pub fn thread_count(available: Option<usize>) -> (r: usize)
    ensures
        r == ({
            let n = match available {
                Some(n) => n,
                None => DEFAULT_WHISPER_THREADS,
            };
            if n < 1 {
                1
            } else if n > MAX_WHISPER_THREADS {
                MAX_WHISPER_THREADS
            } else {
                n
            }
        }),
{
    let n = match available {
        Some(n) => n,
        None => DEFAULT_WHISPER_THREADS,
    };
    if n < 1 {
        1
    } else if n > MAX_WHISPER_THREADS {
        MAX_WHISPER_THREADS
    } else {
        n
    }
}

/// Longest service or user name (bytes) accepted for the credential store.
pub const MAX_KEYRING_PARAM_BYTES: usize = 256;

/// Checks credential-store parameters: both non-empty, and neither longer
/// than 256 bytes.
pub fn validate_params(service: &str, user: &str) -> (r: Result<(), String>)
    ensures
        ({
            let sl = (service.spec_bytes().len() as usize) as nat;
            let ul = (user.spec_bytes().len() as usize) as nat;
            &&& r is Ok <==> (sl > 0 && ul > 0 && sl <= MAX_KEYRING_PARAM_BYTES && ul
                <= MAX_KEYRING_PARAM_BYTES)
            &&& r matches Err(m) ==> (m@ == if sl == 0 || ul == 0 {
                "Service and user must not be empty"@
            } else {
                "Service and user must not exceed 256 characters"@
            })
        }),
{
    let sl = service.len();
    let ul = user.len();
    if sl == 0 || ul == 0 {
        return Err(String::from_str("Service and user must not be empty"));
    }
    if sl > MAX_KEYRING_PARAM_BYTES || ul > MAX_KEYRING_PARAM_BYTES {
        return Err(String::from_str("Service and user must not exceed 256 characters"));
    }
    Ok(())
}

/// File name of the hotkey agent's launchd property list.
pub const PLIST_NAME: &'static str = "de.hablara.hotkey-agent.plist";

/// The hotkey agent's property list below the user's home directory.
pub fn get_plist_path(home: &str) -> (r: String)
    ensures
        r@ == home@ + "/Library/LaunchAgents/"@ + PLIST_NAME@,
{
    let mut p = String::from_str(home);
    p.append("/Library/LaunchAgents/");
    p.append(PLIST_NAME);
    p
}

/// Relies on `dirs::home_dir`: the user's home directory, when it can be
/// determined. It depends on the environment, so nothing is stated of it.
#[verifier::external_body]
fn platform_home_dir() -> (r: Option<String>) {
    dirs::home_dir().map(|p| p.to_string_lossy().into_owned())
}

/// `rest` joined below `base` as a Unix path join does it: an absolute
/// `rest` replaces `base`, else one `/` separates them.
pub open spec fn join_path(base: Seq<char>, rest: Seq<char>) -> Seq<char> {
    if rest.len() > 0 && rest[0] == '/' {
        rest
    } else if base.len() > 0 && base.last() == '/' {
        base + rest
    } else {
        base + seq!['/'] + rest
    }
}

/// `path` with a leading `~` (alone or before `/`) replaced by `home`.
pub open spec fn expanded(path: Seq<char>, home: Seq<char>) -> Seq<char> {
    if seq_starts_with(path, "~/"@) {
        join_path(home, path.subrange(2, path.len() as int))
    } else if path == "~"@ {
        home
    } else {
        path
    }
}

fn join_path_exec(base: &[char], rest: &[char]) -> (r: Vec<char>)
    ensures
        r@ == join_path(base@, rest@),
{
    if rest.len() > 0 && rest[0] == '/' {
        return vstd::slice::slice_to_vec(rest);
    }
    let mut out = vstd::slice::slice_to_vec(base);
    if !(base.len() > 0 && base[base.len() - 1] == '/') {
        out.push('/');
    }
    let ghost before = out@;
    let mut i: usize = 0;
    while i < rest.len()
        invariant
            i <= rest@.len(),
            out@ == before + rest@.subrange(0, i as int),
        decreases rest@.len() - i,
    {
        out.push(rest[i]);
        i = i + 1;
        assert(out@ =~= before + rest@.subrange(0, i as int));
    }
    assert(rest@.subrange(0, i as int) =~= rest@);
    out
}

/// `path` with a leading `~` replaced by `home`.
pub fn expand_tilde_with(path: &str, home: &str) -> (r: String)
    ensures
        r@ == expanded(path@, home@),
{
    proof {
        reveal_strlit("~/");
        reveal_strlit("~");
    }
    let chars = to_chars(path);
    let tilde_slash = to_chars("~/");
    if chars_occur_at(&chars, &tilde_slash, 0) {
        let rest = vstd::slice::slice_subrange(chars.as_slice(), 2, chars.len());
        let home_chars = to_chars(home);
        let joined = join_path_exec(&home_chars, rest);
        return from_chars(&joined);
    }
    if chars.len() == 1 && chars[0] == '~' {
        assert(chars@ =~= "~"@);
        return String::from_str(home);
    }
    assert(chars@ != "~"@);
    String::from_str(path)
}

/// `path` with a leading `~` replaced by the user's home directory, or by
/// `.` when it is unknown.
pub fn expand_tilde(path: &str) -> (r: String)
    ensures
        exists|home: Seq<char>| r@ == expanded(path@, home),
{
    match platform_home_dir() {
        Some(h) => expand_tilde_with(path, h.as_str()),
        None => expand_tilde_with(path, "."),
    }
}

} // verus!
