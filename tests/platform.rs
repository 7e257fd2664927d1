use hablara::{
    expand_tilde, expand_tilde_with, get_plist_path, get_target_triple, is_mlx_available, setup_hint, thread_count, to_long_path,
    validate_params, whisper_binary_name, TargetArch, TargetOs,
};

#[test]
fn test_is_mlx_available_always_false() {
    assert!(!is_mlx_available(TargetOs::Linux, TargetArch::X86_64));
    assert!(!is_mlx_available(TargetOs::Linux, TargetArch::Aarch64));
    assert!(!is_mlx_available(TargetOs::Windows, TargetArch::X86_64));
}

#[test]
fn mlx_available_on_apple_silicon() {
    assert!(is_mlx_available(TargetOs::MacOs, TargetArch::Aarch64));
    assert!(!is_mlx_available(TargetOs::MacOs, TargetArch::X86_64));
}

#[test]
fn target_triples() {
    assert_eq!(get_target_triple(TargetOs::Linux, TargetArch::X86_64), Ok("x86_64-unknown-linux-gnu"));
    assert_eq!(get_target_triple(TargetOs::MacOs, TargetArch::Aarch64), Ok("aarch64-apple-darwin"));
    assert_eq!(get_target_triple(TargetOs::MacOs, TargetArch::X86_64), Ok("x86_64-apple-darwin"));
    assert_eq!(get_target_triple(TargetOs::Windows, TargetArch::X86_64), Ok("x86_64-pc-windows-msvc"));
    assert_eq!(
        get_target_triple(TargetOs::Linux, TargetArch::Aarch64),
        Err("Unsupported platform".to_string())
    );
}

#[test]
fn test_to_long_path_short_path() {
    let short = "/some/short/path";
    let result = to_long_path(short, TargetOs::Linux);
    assert_eq!(result, short);
}

#[test]
fn test_to_long_path_preserves_path_unchanged_on_non_windows() {
    let path = "/a/very/normal/path/to/some/file.txt";
    let result = to_long_path(path, TargetOs::Linux);
    assert_eq!(result, path);
}

#[test]
fn test_to_long_path_already_long_path_format() {
    let already_long = "\\\\?\\C:\\some\\path";
    let result = to_long_path(already_long, TargetOs::Windows);
    assert_eq!(result, already_long);
}

#[test]
fn test_to_long_path_unc_path() {
    let unc = "\\\\server\\share\\path";
    let result = to_long_path(unc, TargetOs::Windows);
    assert_eq!(result, unc);
}

#[test]
fn test_to_long_path_converts_long_path() {
    let long_component = "a".repeat(250);
    let long_path = format!("C:\\{}\\file.txt", long_component);
    let result = to_long_path(&long_path, TargetOs::Windows);
    assert!(result.starts_with("\\\\?\\"));
    assert_eq!(result, format!("\\\\?\\{}", long_path));
}

#[test]
fn long_path_limit_is_260_bytes() {
    let at_limit = "b".repeat(260);
    assert_eq!(to_long_path(&at_limit, TargetOs::Windows), at_limit);
    let over = "b".repeat(261);
    assert_eq!(to_long_path(&over, TargetOs::Windows), format!("\\\\?\\{}", over));
}

#[test]
fn whisper_binary_names() {
    assert_eq!(
        whisper_binary_name("x86_64-unknown-linux-gnu", TargetOs::Linux),
        "whisper-x86_64-unknown-linux-gnu"
    );
    assert_eq!(
        whisper_binary_name("x86_64-pc-windows-msvc", TargetOs::Windows),
        "whisper-x86_64-pc-windows-msvc.exe"
    );
    assert_eq!(setup_hint(TargetOs::Linux), "./scripts/setup-whisper.sh");
    assert_eq!(setup_hint(TargetOs::Windows), ".\\scripts\\setup-whisper.ps1");
}

#[test]
fn whisper_thread_count_is_clamped() {
    assert_eq!(thread_count(None), 4);
    assert_eq!(thread_count(Some(0)), 1);
    assert_eq!(thread_count(Some(6)), 6);
    assert_eq!(thread_count(Some(64)), 8);
}

#[test]
fn keyring_params_validation() {
    assert!(validate_params("hablara", "api-key").is_ok());
    assert_eq!(
        validate_params("", "user"),
        Err("Service and user must not be empty".to_string())
    );
    let long = "x".repeat(257);
    assert_eq!(
        validate_params("svc", &long),
        Err("Service and user must not exceed 256 characters".to_string())
    );
    assert!(validate_params(&"y".repeat(256), "u").is_ok());
}

#[test]
fn hotkey_plist_below_home() {
    assert_eq!(
        get_plist_path("/Users/ana"),
        "/Users/ana/Library/LaunchAgents/de.hablara.hotkey-agent.plist"
    );
}

#[test]
fn test_expand_tilde_home() {
    let result = expand_tilde("~");
    assert!(!result.contains("~"));
}

#[test]
fn test_expand_tilde_with_path() {
    let result = expand_tilde("~/some/path");
    assert!(!result.starts_with("~/"));
    assert!(result.contains("some"));
}

#[test]
fn test_expand_tilde_absolute_path() {
    let path = "/absolute/path";
    let result = expand_tilde(path);
    assert_eq!(result, path);
}

#[test]
fn expand_tilde_with_given_home() {
    assert_eq!(expand_tilde_with("~/a/b", "/home/u"), "/home/u/a/b");
    assert_eq!(expand_tilde_with("~/a", "/home/u/"), "/home/u/a");
    assert_eq!(expand_tilde_with("~", "/home/u"), "/home/u");
    assert_eq!(expand_tilde_with("~x", "/home/u"), "~x");
    assert_eq!(expand_tilde_with("~//etc", "/home/u"), "/etc");
}

#[test]
fn long_path_unchanged_off_windows() {
    let over = "c".repeat(300);
    assert_eq!(to_long_path(&over, TargetOs::Linux), over);
    assert_eq!(to_long_path(&over, TargetOs::MacOs), over);
}
