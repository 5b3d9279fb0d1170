use wsl_interop::error::WslPathError;
use wsl_interop::path_uri::{infer_absolute_path_convention, PathConvention, PathUri};

#[test]
fn uri_text_roundtrips_through_parse() {
    for text in [
        "file:///home/alice/repo",
        "file://wsl.localhost/NixOS/home/alice/repo",
        "file:///C:/Alice%20Smith/%D8%B5%D9%88%D8%B1/%23%25",
        "file:///tmp/a%3Fb/c",
    ] {
        let uri = PathUri::parse(text).unwrap();
        assert_eq!(uri.as_uri_string(), text);
        assert_eq!(PathUri::parse(&uri.as_uri_string()).unwrap(), uri);
    }
}

#[test]
fn parse_decodes_and_rejects() {
    let uri = PathUri::parse("file:///mnt/c/Alice%20Smith/%d8%b5").unwrap();
    assert_eq!(uri.host(), "");
    assert_eq!(uri.path(), "/mnt/c/Alice Smith/ص");
    assert_eq!(uri.as_uri_string(), "file:///mnt/c/Alice%20Smith/%D8%B5");
    for bad in [
        "http:///home",
        "file://host",
        "file:///a b",
        "file:///a%2",
        "file:///a%zz",
        "file:///a?b",
        "file:///%FF",
        "file://bad host/x",
    ] {
        assert_eq!(
            PathUri::parse(bad),
            Err(WslPathError::InvalidUri {
                uri: bad.to_string()
            })
        );
    }
}

#[test]
fn conventions_of_uris_and_native_paths() {
    let posix = PathUri::parse("file:///home/alice").unwrap();
    let drive = PathUri::parse("file:///C:/Users").unwrap();
    let share = PathUri::parse("file://server/share/x").unwrap();
    assert_eq!(posix.infer_path_convention(), PathConvention::Posix);
    assert_eq!(drive.infer_path_convention(), PathConvention::Windows);
    assert_eq!(share.infer_path_convention(), PathConvention::Windows);
    assert_eq!(posix.to_posix_path(), Ok("/home/alice".to_string()));
    assert_eq!(drive.to_posix_path(), Err(WslPathError::NotPosixUri));

    assert_eq!(
        infer_absolute_path_convention(r"\\server\share"),
        Some(PathConvention::Windows)
    );
    assert_eq!(
        infer_absolute_path_convention("C:/x"),
        Some(PathConvention::Windows)
    );
    assert_eq!(infer_absolute_path_convention("/x"), Some(PathConvention::Posix));
    assert_eq!(infer_absolute_path_convention("C:x"), None);
    assert_eq!(infer_absolute_path_convention("x"), None);
}

#[test]
fn native_paths_become_uris() {
    assert_eq!(
        PathUri::from_native(r"\\wsl.localhost\NixOS\home", PathConvention::Windows).unwrap(),
        PathUri::parse("file://wsl.localhost/NixOS/home").unwrap()
    );
    assert_eq!(
        PathUri::from_native(r"C:\Alice Smith\#%", PathConvention::Windows).unwrap(),
        PathUri::parse("file:///C:/Alice%20Smith/%23%25").unwrap()
    );
    assert_eq!(
        PathUri::from_native("/home/alice", PathConvention::Posix).unwrap(),
        PathUri::parse("file:///home/alice").unwrap()
    );
    for (bad, convention) in [
        ("relative", PathConvention::Windows),
        (r"\\server", PathConvention::Windows),
        (r"C:relative", PathConvention::Windows),
        (r"C:\x", PathConvention::Posix),
    ] {
        assert_eq!(
            PathUri::from_native(bad, convention),
            Err(WslPathError::NotAbsolute {
                path: bad.to_string(),
                convention,
            })
        );
    }
}

#[test]
fn join_appends_one_segment() {
    let base = PathUri::parse("file:///home/alice").unwrap();
    assert_eq!(
        base.join("repo").unwrap(),
        PathUri::parse("file:///home/alice/repo").unwrap()
    );
    let root = PathUri::parse("file:///").unwrap();
    assert_eq!(root.join("etc").unwrap(), PathUri::parse("file:///etc").unwrap());
    assert_eq!(
        base.join("a/b"),
        Err(WslPathError::InvalidSegment {
            segment: "a/b".to_string()
        })
    );
    assert!(base.join("").is_err());
}

#[test]
fn error_messages() {
    assert_eq!(
        WslPathError::Translation {
            message: "boom".to_string()
        }
        .message(),
        "boom"
    );
    assert_eq!(
        WslPathError::NonUtf8Output.message(),
        "WSL returned a non-UTF-8 path"
    );
    assert_eq!(
        WslPathError::AmbiguousGlob {
            pattern: "/a/*\\b".to_string()
        }
        .message(),
        "cannot safely translate Windows sandbox glob /a/*\\b"
    );
}

#[test]
fn windows_paths_give_windows_uris_and_posix_paths_roundtrip() {
    for native in [r"C:\x", r"\\server\share", "d:/data"] {
        let uri = PathUri::from_native(native, PathConvention::Windows).unwrap();
        assert_eq!(uri.infer_path_convention(), PathConvention::Windows);
    }
    let uri = PathUri::from_native("/srv/app data", PathConvention::Posix).unwrap();
    assert_eq!(uri.infer_path_convention(), PathConvention::Posix);
    assert_eq!(uri.to_posix_path(), Ok("/srv/app data".to_string()));
    assert_eq!(uri.as_uri_string(), "file:///srv/app%20data");
}
