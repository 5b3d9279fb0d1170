use wsl_interop::json::{JsonRpcRequest, JsonValue, RequestId, INVALID_PARAMS_ERROR_CODE};
use wsl_interop::path_uri::{infer_absolute_path_convention, PathConvention};
use wsl_interop::project_paths::{local_distribution, local_wsl_path, normalize_project_roots};

fn s(text: &str) -> JsonValue {
    JsonValue::String(text.to_string())
}

fn obj(members: Vec<(&str, JsonValue)>) -> JsonValue {
    JsonValue::Object(
        members
            .into_iter()
            .map(|(k, v)| (k.to_string(), v))
            .collect(),
    )
}

fn request(method: &str, params: JsonValue) -> JsonRpcRequest {
    JsonRpcRequest {
        id: RequestId::Integer(1),
        method: method.to_string(),
        params: Some(params),
    }
}

fn project_params(first_root: &str, reference: &str) -> JsonValue {
    obj(vec![
        ("name", s("example")),
        ("projectId", s("existing")),
        ("idempotencyKey", s("example")),
        (
            "roots",
            JsonValue::Array(vec![
                obj(vec![("path", s(first_root))]),
                obj(vec![("path", s("/native/root"))]),
            ]),
        ),
        ("metadata", obj(vec![("reference", s(reference))])),
    ])
}

fn first_root_path(request: &JsonRpcRequest) -> String {
    let Some(JsonValue::Object(members)) = &request.params else {
        panic!("params changed kind");
    };
    let (_, JsonValue::Array(roots)) = members.iter().find(|(k, _)| k == "roots").unwrap() else {
        panic!("roots changed kind");
    };
    let JsonValue::Object(root) = &roots[0] else {
        panic!("root changed kind");
    };
    let (_, JsonValue::String(path)) = root.iter().find(|(k, _)| k == "path").unwrap() else {
        panic!("path changed kind");
    };
    path.clone()
}

#[test]
fn local_wsl_aliases_decode_as_native_project_roots() {
    for path in [
        r"\\wsl$\NixOS\home\darky\work\Example Project",
        r"\\WSL.LOCALHOST\nixos\home\darky\work\Example Project",
        r"\\?\UNC\wsl.localhost\NixOS\home\darky\work\Example Project",
        r"\\.\UNC\wsl$\NixOS\home\darky\work\Example Project",
        "//wsl.localhost/NixOS/home/darky/work/Example Project",
    ] {
        for method in ["project/create", "project/import", "project/update"] {
            let mut request = request(method, project_params(path, path));
            let expected = self::request(
                method,
                project_params("/home/darky/work/Example Project", path),
            );

            normalize_project_roots(&mut request, Some("NixOS")).unwrap();

            assert_eq!(request, expected);
            // The rewritten root decodes as a native absolute path.
            assert_eq!(
                infer_absolute_path_convention(&first_root_path(&request)),
                Some(PathConvention::Posix)
            );
        }
    }
}

#[test]
fn conversion_is_limited_to_project_roots_on_a_known_wsl_distribution() {
    for (method, distribution) in [
        ("project/create", None),
        ("thread/start", Some("NixOS")),
        ("config/value/write", Some("NixOS")),
    ] {
        let params = || {
            obj(vec![(
                "roots",
                JsonValue::Array(vec![obj(vec![("path", s(r"\\wsl$\NixOS\home\user"))])]),
            )])
        };
        let mut request = request(method, params());
        let expected = self::request(method, params());
        normalize_project_roots(&mut request, distribution).unwrap();
        assert_eq!(request, expected);
    }
}

#[test]
fn a_wsl_root_must_name_the_current_distribution() {
    for path in [
        r"\\wsl$\Ubuntu\home\user",
        "//wsl.localhost/Ubuntu/home/user",
        r"\\wsl$",
        "//wsl.localhost/",
    ] {
        let mut request = request(
            "project/create",
            obj(vec![(
                "roots",
                JsonValue::Array(vec![obj(vec![("path", s(path))])]),
            )]),
        );
        let error = normalize_project_roots(&mut request, Some("NixOS")).unwrap_err();
        assert_eq!(error.code, INVALID_PARAMS_ERROR_CODE);
    }
}

#[test]
fn native_paths_other_shares_and_malformed_fields_retain_normal_validation() {
    let cases: Vec<fn() -> JsonValue> = vec![
        || JsonValue::Array(vec![obj(vec![("path", s("/home/user/near0"))])]),
        || JsonValue::Array(vec![obj(vec![("path", s(r"\\server\share\project"))])]),
        || JsonValue::Array(vec![obj(vec![("path", s(r"C:\work\project"))])]),
        || JsonValue::Array(vec![obj(vec![("path", s("relative/project"))])]),
        || {
            JsonValue::Array(vec![
                obj(vec![("path", JsonValue::Number("42".to_string()))]),
                obj(vec![]),
            ])
        },
        || JsonValue::Null,
        || obj(vec![("path", s(r"\\wsl$\NixOS\home\user"))]),
    ];
    for roots in cases {
        let mut request = request("project/update", obj(vec![("roots", roots())]));
        let expected = self::request("project/update", obj(vec![("roots", roots())]));
        normalize_project_roots(&mut request, Some("NixOS")).unwrap();
        assert_eq!(request, expected);
    }
}

#[test]
fn foreign_distribution_error_names_the_current_one() {
    let error = local_wsl_path(r"\\wsl$\Ubuntu\home", "NixOS").unwrap_err();
    assert_eq!(error.code, -32602);
    assert_eq!(
        error.message,
        "project root must name the current WSL distribution (NixOS)"
    );
    assert!(error.data.is_none());
}

#[test]
fn wsl_aliases_name_the_same_linux_root() {
    let a = local_wsl_path(r"\\wsl$\NixOS\srv\app", "NixOS").unwrap();
    let b = local_wsl_path(r"\\Wsl.LocalHost\nixos\srv\app", "NixOS").unwrap();
    assert_eq!(a, Some("/srv/app".to_string()));
    assert_eq!(a, b);
    assert_eq!(
        local_wsl_path(r"\\wsl$\NixOS", "NixOS").unwrap(),
        Some("/".to_string())
    );
    assert_eq!(
        local_wsl_path(r"\\?\C:\work", "NixOS").unwrap(),
        None
    );
}

#[test]
fn a_rewritten_root_is_not_rewritten_again() {
    let linux = local_wsl_path(r"\\wsl.localhost\NixOS\home\user", "NixOS")
        .unwrap()
        .unwrap();
    assert_eq!(linux, "/home/user");
    assert_eq!(local_wsl_path(&linux, "NixOS").unwrap(), None);
}

#[test]
fn a_foreign_root_stops_at_that_root() {
    let params = |second: &str| {
        obj(vec![(
            "roots",
            JsonValue::Array(vec![
                obj(vec![("path", s(r"\\wsl$\NixOS\a"))]),
                obj(vec![("path", s(second))]),
                obj(vec![("path", s(r"\\wsl$\NixOS\c"))]),
            ]),
        )])
    };
    let mut request = request("project/create", params(r"\\wsl$\Other\b"));
    assert!(normalize_project_roots(&mut request, Some("NixOS")).is_err());
    let expected = obj(vec![(
        "roots",
        JsonValue::Array(vec![
            obj(vec![("path", s("/a"))]),
            obj(vec![("path", s(r"\\wsl$\Other\b"))]),
            obj(vec![("path", s(r"\\wsl$\NixOS\c"))]),
        ]),
    )]);
    assert_eq!(request.params, Some(expected));
}

#[test]
fn an_empty_distribution_name_is_no_distribution() {
    assert_eq!(local_distribution(Some("NixOS")), Some("NixOS"));
    assert_eq!(local_distribution(Some("")), None);
    assert_eq!(local_distribution(None), None);
}
