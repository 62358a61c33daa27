use yulink::update::{
    check, fetch, is_newer, judge, parse_version, release_from_api, release_from_manifest,
    remember, repo_coords, split_url, truncate, wide, Outcome, Release, UpdateStep,
};

#[test]
fn compares_versions_semantically() {
    assert!(is_newer("1.0.10", "1.0.9"));
    assert!(is_newer("v1.0.1", "1.0.0"));
    assert!(is_newer("1.1", "1.0.9"));
    assert!(is_newer("2.0.0", "1.99.99"));
    assert!(!is_newer("1.0.0", "1.0.0"));
    assert!(!is_newer("1.0.0", "1.0.1"));
    assert!(!is_newer("v1.0.0", "1.0.0"));
    assert!(is_newer("1.0.1", "1.0.1-beta.1"));
    assert!(!is_newer("1.0.1-beta.1", "1.0.1"));
    assert!(!is_newer("latest", "1.0.0"));
    assert!(!is_newer("1.0.0", ""));
}

#[test]
fn parses_repo_coordinates() {
    for remote in [
        "https://github.com/YgtqRun/YuLinkc.git",
        "https://github.com/YgtqRun/YuLinkc",
        "git@github.com:YgtqRun/YuLinkc.git",
        "https://github.com/YgtqRun/YuLinkc/",
    ] {
        assert_eq!(
            repo_coords(remote),
            Some(("YgtqRun".to_string(), "YuLinkc".to_string())),
            "remote = {remote}"
        );
    }
    assert_eq!(repo_coords(""), None);
    assert_eq!(repo_coords("https://gitee.com/foo/bar.git"), None);
}

#[test]
fn parses_manifest_and_api_payloads() {
    let manifest = release_from_manifest(
        r#"{"version":"1.2.3","notes":"修了 A","url":"https://example.com/tag"}"#,
        "https://github.com/o/r",
    )
    .unwrap();
    assert_eq!(manifest.version, "1.2.3");
    assert_eq!(manifest.notes, "修了 A");
    assert_eq!(manifest.url, "https://example.com/tag");

    let latest_json = release_from_manifest(
        r#"{"version":"1.2.3","notes":"x","pub_date":"2026-01-01","platforms":{}}"#,
        "https://github.com/o/r",
    )
    .unwrap();
    assert_eq!(latest_json.url, "https://github.com/o/r/releases/latest");

    let api = release_from_api(
        r#"{"tag_name":"v1.2.3","body":"正文","html_url":"https://github.com/o/r/releases/tag/v1.2.3"}"#,
    )
    .unwrap();
    assert_eq!(api.version, "v1.2.3");
    assert_eq!(api.notes, "正文");

    assert!(release_from_manifest("{}", "https://github.com/o/r").is_err());
    assert!(release_from_api("not json").is_err());
}

#[test]
fn splits_https_urls() {
    assert_eq!(
        split_url("https://github.com/o/r/releases/latest/download/version.json").unwrap(),
        (
            "github.com".to_string(),
            "/o/r/releases/latest/download/version.json".to_string()
        )
    );
    assert_eq!(
        split_url("https://api.github.com").unwrap(),
        ("api.github.com".to_string(), "/".to_string())
    );
    assert!(split_url("http://github.com/o/r").is_err());
}

#[test]
fn url_errors_name_the_address() {
    assert_eq!(
        split_url("http://github.com/o/r"),
        Err("只支持 https 地址: http://github.com/o/r".to_string())
    );
    assert_eq!(
        split_url("https:///path"),
        Err("地址缺少主机名: https:///path".to_string())
    );
}

#[test]
fn manifest_errors() {
    assert_eq!(
        release_from_manifest(r#"{"notes":"x"}"#, "https://github.com/o/r"),
        Err("缺少 version 字段".to_string())
    );
    assert_eq!(
        release_from_api(r#"{"tag_name":"v1"}"#),
        Err("缺少 html_url 字段".to_string())
    );
    assert_eq!(
        release_from_api(r#"{"html_url":"u"}"#),
        Err("缺少 tag_name 字段".to_string())
    );
    // the parse error's own text is kept
    let e = release_from_api("not json").unwrap_err();
    assert!(!e.is_empty());
    // a member that is not a string does not count
    assert_eq!(
        release_from_manifest(r#"{"version":1}"#, "b"),
        Err("缺少 version 字段".to_string())
    );
}

#[test]
fn versions_parse_into_numbers_and_tag() {
    assert_eq!(parse_version("v1.2.3"), Some((vec![1, 2, 3], None)));
    assert_eq!(
        parse_version(" V2.0-rc.1+build.7 "),
        Some((vec![2, 0], Some("rc.1".to_string())))
    );
    assert_eq!(parse_version("1.2x.3"), Some((vec![1, 2, 3], None)));
    assert_eq!(parse_version("1..2"), None);
    assert_eq!(parse_version("99999999999999999999"), None);
    assert_eq!(parse_version(""), None);
}

#[test]
fn newer_is_an_order() {
    let vs = ["1.0", "1.0.0-beta", "1.0.1", "v1.1", "2", "x"];
    for a in vs {
        assert!(!is_newer(a, a));
        for b in vs {
            assert!(!(is_newer(a, b) && is_newer(b, a)));
            for c in vs {
                if is_newer(a, b) && is_newer(b, c) {
                    assert!(is_newer(a, c));
                }
            }
        }
    }
}

#[test]
fn notes_are_trimmed_and_cut() {
    assert_eq!(truncate("  short  ", 10), "short");
    assert_eq!(truncate("abcdef", 3), "abc…");
    assert_eq!(truncate("一二三四", 4), "一二三四");
    let long: String = std::iter::repeat('a').take(400).collect();
    let release = Release { version: "9.9.9".into(), notes: long, url: "u".into() };
    match judge("1.0.0", release) {
        Outcome::Newer(r) => {
            assert_eq!(r.notes.chars().count(), 301);
            assert!(r.notes.ends_with('…'));
        }
        other => panic!("unexpected {other:?}"),
    }
    let same = Release { version: "1.0.0".into(), notes: "n".into(), url: "u".into() };
    assert_eq!(judge("1.0.0", same), Outcome::UpToDate { latest: "1.0.0".into() });
}

#[test]
fn fetch_tries_manifest_then_api() {
    let (mut run, step) = fetch("https://github.com/o/r.git", "1.0.0");
    match step {
        UpdateStep::Get { url } => assert_eq!(url, "https://github.com/o/r/releases/latest/download/version.json"),
        other => panic!("unexpected {other:?}"),
    }
    match run.on_response(Ok((404, String::new()))) {
        UpdateStep::Get { url } => assert_eq!(url, "https://api.github.com/repos/o/r/releases/latest"),
        other => panic!("unexpected {other:?}"),
    }
    match run.on_response(Ok((403, String::new()))) {
        UpdateStep::Done(o) => assert_eq!(o, Outcome::Failed("GitHub 返回 HTTP 403".into())),
        other => panic!("unexpected {other:?}"),
    }

    let (mut run, _) = fetch("https://github.com/o/r", "1.0.0");
    match run.on_response(Ok((200, r#"{"version":"1.0.1","notes":" n "}"#.to_string()))) {
        UpdateStep::Done(Outcome::Newer(r)) => {
            assert_eq!(r.version, "1.0.1");
            assert_eq!(r.notes, "n");
            assert_eq!(r.url, "https://github.com/o/r/releases/latest");
        }
        other => panic!("unexpected {other:?}"),
    }

    let (mut run, _) = fetch("https://github.com/o/r", "1.0.0");
    let _ = run.on_response(Err("offline".into()));
    match run.on_response(Ok((200, "oops".to_string()))) {
        UpdateStep::Done(Outcome::Failed(m)) => assert!(m.starts_with("解析 GitHub 响应失败: ")),
        other => panic!("unexpected {other:?}"),
    }

    let (_, step) = fetch("https://gitee.com/o/r", "1.0.0");
    match step {
        UpdateStep::Done(o) => assert_eq!(o, Outcome::Failed("未配置 GitHub 仓库地址，无法检查更新".into())),
        other => panic!("unexpected {other:?}"),
    }
}

#[test]
fn one_automatic_check_per_run() {
    let mut cache = None;
    let first = Outcome::UpToDate { latest: "1.0.0".into() };
    remember(&mut cache, &first);
    match check(&cache, "https://github.com/o/r", "1.0.0", false) {
        (_, UpdateStep::Done(o)) => assert_eq!(o, first),
        other => panic!("unexpected {:?}", other.1),
    }
    match check(&cache, "https://github.com/o/r", "1.0.0", true) {
        (_, UpdateStep::Get { url }) => assert!(url.ends_with("version.json")),
        other => panic!("unexpected {:?}", other.1),
    }
}

#[test]
fn wide_strings_end_with_nul() {
    assert_eq!(wide("GET"), vec![71, 69, 84, 0]);
    assert_eq!(wide(""), vec![0]);
    let w = wide("a😀");
    let expected: Vec<u16> = "a😀".encode_utf16().chain(std::iter::once(0)).collect();
    assert_eq!(w, expected);
}
