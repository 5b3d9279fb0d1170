use wsl_interop::error::WslPathError;
use wsl_interop::path_uri::{PathConvention, PathUri};
use wsl_interop::sandbox::{
    map_sandbox_paths, FileSystemAccessMode, FileSystemPath, FileSystemSandboxEntry,
    FileSystemSpecialPath, ManagedFileSystemPermissions, NetworkSandboxPolicy, PermissionProfile,
    SandboxState,
};
use wsl_interop::wsl_paths::{
    accept_translated_path, local_image_input, local_image_path, sandbox_state,
    windows_stdio_command, wslpath_flag, McpServerTransportConfig, UserInput,
};

fn state() -> Result<SandboxState, WslPathError> {
    Ok(SandboxState {
        permission_profile: PermissionProfile::Managed {
            file_system: ManagedFileSystemPermissions::Restricted {
                entries: vec![
                    FileSystemSandboxEntry::new(
                        FileSystemPath::Special {
                            value: FileSystemSpecialPath::Root,
                        },
                        FileSystemAccessMode::Read,
                    ),
                    FileSystemSandboxEntry::new(
                        FileSystemPath::Path {
                            path: PathUri::parse("file:///home/alice/repo")?,
                        },
                        FileSystemAccessMode::Write,
                    ),
                    FileSystemSandboxEntry::new(
                        FileSystemPath::Path {
                            path: PathUri::parse("file:///home/alice/repo/secret")?,
                        },
                        FileSystemAccessMode::Deny,
                    ),
                    FileSystemSandboxEntry::new(
                        FileSystemPath::GlobPattern {
                            pattern: "/home/alice/repo/**/.env".to_string(),
                        },
                        FileSystemAccessMode::Deny,
                    ),
                    FileSystemSandboxEntry::new(
                        FileSystemPath::GlobPattern {
                            pattern: "**/private".to_string(),
                        },
                        FileSystemAccessMode::Deny,
                    ),
                ],
                glob_scan_max_depth: Some(8),
            },
            network: NetworkSandboxPolicy::Restricted,
        },
        codex_linux_sandbox_exe: Some("/usr/bin/codex".to_string()),
        sandbox_cwd: PathUri::parse("file:///home/alice/repo")?,
        use_legacy_landlock: true,
    })
}

fn entries_mut(state: &mut SandboxState) -> &mut Vec<FileSystemSandboxEntry> {
    match &mut state.permission_profile {
        PermissionProfile::Managed {
            file_system: ManagedFileSystemPermissions::Restricted { entries, .. },
            ..
        } => entries,
        _ => panic!("sandbox profile changed"),
    }
}

fn stdio(command: &str) -> McpServerTransportConfig {
    McpServerTransportConfig::Stdio {
        command: command.to_string(),
        args: Vec::new(),
        cwd: None,
    }
}

#[test]
fn maps_workspace_and_denies_without_changing_permission_authority() -> Result<(), WslPathError> {
    let original = state()?;
    let mapped = map_sandbox_paths(original.clone(), |path| {
        Ok(format!(r"\\wsl.localhost\NixOS{}", path.replace('/', "\\")))
    })?;
    let mut expected = original;
    expected.codex_linux_sandbox_exe = None;
    expected.sandbox_cwd = PathUri::parse("file://wsl.localhost/NixOS/home/alice/repo")?;
    let cwd = expected.sandbox_cwd.clone();
    let entries = entries_mut(&mut expected);
    entries[1].path = FileSystemPath::Path { path: cwd.clone() };
    entries[2].path = FileSystemPath::Path {
        path: cwd.join("secret")?,
    };
    entries[3].path = FileSystemPath::GlobPattern {
        pattern: "//wsl.localhost/NixOS/home/alice/repo/**/.env".to_string(),
    };
    assert_eq!(mapped, expected);
    Ok(())
}

#[test]
fn real_wsl_translation_keeps_sandbox_glob_operators() -> Result<(), WslPathError> {
    let mut mapped = map_sandbox_paths(state()?, |path| {
        Ok(format!(r"\\wsl.localhost\NixOS{}", path.replace('/', "\\")))
    })?;
    let entries = entries_mut(&mut mapped);
    let FileSystemPath::GlobPattern { pattern } = &entries[3].path else {
        panic!("glob changed kind");
    };
    assert!(pattern.ends_with("/home/alice/repo/**/.env"));
    Ok(())
}

#[test]
fn ambiguous_glob_translation_fails_closed() -> Result<(), WslPathError> {
    let mut original = state()?;
    entries_mut(&mut original)[3].path = FileSystemPath::GlobPattern {
        pattern: "/home/alice/repo/**/literal\\*.env".to_string(),
    };
    let result = map_sandbox_paths(original, |path| {
        Ok(format!(r"C:\mapped{}", path.replace('/', "\\")))
    });
    assert!(result.is_err());
    Ok(())
}

#[test]
fn mapping_failure_does_not_emit_partial_sandbox_state() -> Result<(), WslPathError> {
    let result = map_sandbox_paths(state()?, |path| {
        if path.ends_with("secret") {
            return Err("cannot translate deny path".to_string());
        }
        Ok(format!(r"C:\mapped{}", path.replace('/', "\\")))
    });
    assert_eq!(
        result
            .expect_err("deny conversion must fail closed")
            .message(),
        "cannot translate deny path"
    );
    Ok(())
}

#[test]
fn already_windows_uris_remain_unchanged() -> Result<(), WslPathError> {
    let original = SandboxState {
        permission_profile: PermissionProfile::Disabled,
        sandbox_cwd: PathUri::parse("file:///C:/Alice%20Smith/repo")?,
        codex_linux_sandbox_exe: None,
        use_legacy_landlock: false,
    };
    assert_eq!(
        map_sandbox_paths(original.clone(), |_| Err("unexpected conversion".to_string()))?,
        original,
    );
    Ok(())
}

#[test]
fn native_and_remote_servers_keep_their_paths() -> Result<(), WslPathError> {
    let linux = stdio("/usr/bin/node");
    let windows = stdio("/mnt/c/runtime/node_repl.exe");
    let original = state()?;
    let refuse = |_: &str| Err("unexpected conversion".to_string());
    assert_eq!(
        sandbox_state(original.clone(), Some(&linux), "local", true, refuse)?,
        original
    );
    assert_eq!(
        sandbox_state(original.clone(), Some(&windows), "remote", true, refuse)?,
        original
    );
    assert_eq!(
        sandbox_state(original.clone(), None, "local", true, refuse)?,
        original
    );
    Ok(())
}

#[test]
fn detects_only_direct_windows_stdio_commands() {
    for (command, expected) in [
        ("/mnt/c/runtime/node_repl.exe", true),
        (r"C:\runtime\node_repl.EXE", true),
        ("/usr/bin/node", false),
        ("/bin/sh", false),
        ("relative.exe", false),
    ] {
        let server = stdio(command);
        assert_eq!(windows_stdio_command(Some(&server)), expected);
    }
}

#[test]
fn local_input_keeps_native_paths_and_other_user_input() {
    let image = UserInput::LocalImage {
        path: "relative/image.png".to_string(),
        detail: None,
    };
    let text = UserInput::Text {
        text: r"C:\not-an-attachment".to_string(),
        text_elements: Vec::new(),
    };
    let refuse = |_: &str| Err("unexpected conversion".to_string());
    assert_eq!(local_image_input(image.clone(), true, refuse), image);
    assert_eq!(local_image_input(text.clone(), true, refuse), text);
}

#[test]
fn translated_uri_preserves_unicode_and_reserved_characters() -> Result<(), WslPathError> {
    let original = SandboxState {
        permission_profile: PermissionProfile::Disabled,
        sandbox_cwd: PathUri::parse("file:///mnt/c/Alice%20Smith/%D8%B5%D9%88%D8%B1/%23%25")?,
        codex_linux_sandbox_exe: None,
        use_legacy_landlock: false,
    };
    let mapped = map_sandbox_paths(original, |path| {
        assert_eq!(path, "/mnt/c/Alice Smith/صور/#%");
        Ok(r"C:\Alice Smith\صور\#%".to_string())
    })?;
    assert_eq!(
        mapped.sandbox_cwd,
        PathUri::parse("file:///C:/Alice%20Smith/%D8%B5%D9%88%D8%B1/%23%25")?
    );
    Ok(())
}

#[test]
fn windows_image_path_is_translated_only_in_wsl() {
    let translate = |path: &str| {
        assert_eq!(path, r"C:\Users\alice\cat.png");
        Ok("/mnt/c/Users/alice/cat.png".to_string())
    };
    assert_eq!(
        local_image_path(r"C:\Users\alice\cat.png", true, translate),
        Ok(Some("/mnt/c/Users/alice/cat.png".to_string()))
    );
    assert_eq!(
        local_image_path(r"C:\Users\alice\cat.png", false, translate),
        Ok(None)
    );
    assert_eq!(local_image_path("/home/alice/cat.png", true, translate), Ok(None));

    let image = UserInput::LocalImage {
        path: r"C:\Users\alice\cat.png".to_string(),
        detail: None,
    };
    assert_eq!(
        local_image_input(image, true, translate),
        UserInput::LocalImage {
            path: "/mnt/c/Users/alice/cat.png".to_string(),
            detail: None,
        }
    );
}

#[test]
fn unreadable_image_becomes_a_note() {
    let image = UserInput::LocalImage {
        path: r"D:\x.png".to_string(),
        detail: None,
    };
    let result = local_image_input(image, true, |_| Err("no such drive".to_string()));
    assert_eq!(
        result,
        UserInput::Text {
            text: "Codex could not read the local image at `D:\\x.png`: no such drive".to_string(),
            text_elements: Vec::new(),
        }
    );
}

#[test]
fn translator_output_is_trimmed_and_checked() {
    assert_eq!(
        accept_translated_path(b"/mnt/c/Users\r\n".to_vec(), PathConvention::Posix),
        Ok("/mnt/c/Users".to_string())
    );
    assert_eq!(
        accept_translated_path(b"C:\\Users\n".to_vec(), PathConvention::Windows),
        Ok("C:\\Users".to_string())
    );
    assert_eq!(
        accept_translated_path(b"relative\n".to_vec(), PathConvention::Posix),
        Err(WslPathError::NotAbsolute {
            path: "relative".to_string(),
            convention: PathConvention::Posix,
        })
    );
    assert_eq!(
        accept_translated_path(vec![0xff, 0xfe], PathConvention::Posix),
        Err(WslPathError::NonUtf8Output)
    );
    assert_eq!(wslpath_flag(PathConvention::Posix), "-u");
    assert_eq!(wslpath_flag(PathConvention::Windows), "-w");
}

#[test]
fn windows_peer_gets_translated_sandbox_in_wsl_only() -> Result<(), WslPathError> {
    let windows = stdio("/mnt/c/runtime/node_repl.exe");
    let to_c = |path: &str| Ok(format!(r"C:\mapped{}", path.replace('/', "\\")));
    let mapped = sandbox_state(state()?, Some(&windows), "local", true, to_c)?;
    assert_eq!(mapped.codex_linux_sandbox_exe, None);
    assert_eq!(
        mapped.sandbox_cwd,
        PathUri::parse("file:///C:/mapped/home/alice/repo")?
    );
    assert_eq!(
        sandbox_state(state()?, Some(&windows), "local", false, to_c)?,
        state()?
    );
    Ok(())
}

#[test]
fn translated_sandbox_keeps_access_modes_and_special_paths() -> Result<(), WslPathError> {
    let mut mapped = map_sandbox_paths(state()?, |path| {
        Ok(format!(r"C:\mapped{}", path.replace('/', "\\")))
    })?;
    let mut original = state()?;
    let modes: Vec<_> = entries_mut(&mut original).iter().map(|e| e.access).collect();
    let mapped_modes: Vec<_> = entries_mut(&mut mapped).iter().map(|e| e.access).collect();
    assert_eq!(modes, mapped_modes);
    assert_eq!(entries_mut(&mut mapped)[0], entries_mut(&mut original)[0]);
    assert_eq!(entries_mut(&mut mapped)[4], entries_mut(&mut original)[4]);
    // A second translation has nothing left to ask.
    let again = map_sandbox_paths(mapped.clone(), |path| {
        if path.starts_with("C:") || path.contains('\\') {
            Err("already Windows".to_string())
        } else {
            Ok(format!(r"C:\mapped{}", path.replace('/', "\\")))
        }
    });
    assert!(again.is_ok());
    Ok(())
}

#[test]
fn wildcard_free_glob_and_bad_translations() -> Result<(), WslPathError> {
    let mut original = state()?;
    entries_mut(&mut original)[3].path = FileSystemPath::GlobPattern {
        pattern: "/home/alice/repo/.env".to_string(),
    };
    let mut mapped = map_sandbox_paths(original, |path| {
        Ok(format!(r"C:\mapped{}", path.replace('/', "\\")))
    })?;
    assert_eq!(
        entries_mut(&mut mapped)[3].path,
        FileSystemPath::GlobPattern {
            pattern: "C:/mapped/home/alice/repo/.env".to_string(),
        }
    );

    let bad = map_sandbox_paths(state()?, |_| Ok("relative".to_string()));
    assert_eq!(
        bad,
        Err(WslPathError::NotAbsolute {
            path: "relative".to_string(),
            convention: PathConvention::Windows,
        })
    );
    Ok(())
}

#[test]
fn glob_at_the_root_translates_the_root() -> Result<(), WslPathError> {
    let mut original = state()?;
    entries_mut(&mut original)[3].path = FileSystemPath::GlobPattern {
        pattern: "/*.log".to_string(),
    };
    let mut mapped = map_sandbox_paths(original, |path| {
        if path == "/" {
            Ok(r"\\wsl.localhost\NixOS\".to_string())
        } else {
            Ok(format!(r"\\wsl.localhost\NixOS{}", path.replace('/', "\\")))
        }
    })?;
    assert_eq!(
        entries_mut(&mut mapped)[3].path,
        FileSystemPath::GlobPattern {
            pattern: "//wsl.localhost/NixOS/*.log".to_string(),
        }
    );
    Ok(())
}

#[test]
fn ambiguous_glob_error_names_the_pattern_and_stops_translation() -> Result<(), WslPathError> {
    let mut original = state()?;
    entries_mut(&mut original)[3].path = FileSystemPath::GlobPattern {
        pattern: "/home/alice/repo/*|x".to_string(),
    };
    let calls = std::cell::Cell::new(0);
    let result = map_sandbox_paths(original, |path| {
        calls.set(calls.get() + 1);
        Ok(format!(r"C:\mapped{}", path.replace('/', "\\")))
    });
    assert_eq!(
        result,
        Err(WslPathError::AmbiguousGlob {
            pattern: "/home/alice/repo/*|x".to_string(),
        })
    );
    // The working directory and the two literal rules were asked for; the
    // refused glob was not.
    assert_eq!(calls.get(), 3);
    Ok(())
}
