use easytex::config::Config;
use easytex::handlers::{
    admin_authorized, check_config_save, content_type_for, format_command_plan, is_watched_path,
    pdf_download_disposition, pdf_size_check, project_status_label, route_admin, route_api, synctex_num,
    synctex_value, AdminRoute, ApiRoute, FormatPlanError, HttpMethod,
};

#[test]
fn admin_tokens() {
    assert!(admin_authorized(None, None));
    assert!(admin_authorized(Some("t0k"), Some("Bearer t0k")));
    assert!(!admin_authorized(Some("t0k"), Some("Bearer t0")));
    assert!(!admin_authorized(Some("t0k"), Some("bearer t0k")));
    assert!(!admin_authorized(Some("t0k"), Some("t0k")));
    assert!(!admin_authorized(Some("t0k"), None));
}

#[test]
fn watched_paths() {
    assert!(is_watched_path("/p/main.tex"));
    assert!(is_watched_path("/p/fig/plot.PNG"));
    assert!(is_watched_path("/p/refs.bib"));
    assert!(!is_watched_path("/p/build/main.tex"));
    assert!(!is_watched_path("/p/notes.txt"));
    assert!(!is_watched_path("/p/Makefile"));
}

#[test]
fn content_types() {
    assert_eq!(content_type_for("assets/app.js"), "application/javascript");
    assert_eq!(content_type_for("a.mjs"), "application/javascript");
    assert_eq!(content_type_for("style.css"), "text/css");
    assert_eq!(content_type_for("logo.svg"), "image/svg+xml");
    assert_eq!(content_type_for("x.png"), "image/png");
    assert_eq!(content_type_for("index.html"), "text/html");
    assert_eq!(content_type_for("font.woff2"), "application/octet-stream");
    assert_eq!(content_type_for("js"), "application/javascript");
}

#[test]
fn formatter_command_lines() {
    let (p, args) = format_command_plan(None, "main.tex").unwrap();
    assert_eq!(p, "tex-fmt");
    assert_eq!(args, vec!["main.tex".to_string()]);
    let (p, args) = format_command_plan(Some("tex-fmt --keep {file}x {file}"), "a.tex").unwrap();
    assert_eq!(p, "tex-fmt");
    assert_eq!(args, vec!["--keep".to_string(), "a.texx".to_string(), "{file}".to_string()]);
    assert_eq!(format_command_plan(Some("   "), "a.tex").unwrap_err(), FormatPlanError::Empty);
    assert_eq!(format_command_plan(Some("rm -rf /"), "a.tex").unwrap_err(), FormatPlanError::NotPermitted);
}

#[test]
fn saving_project_settings() {
    let ok = Config { entrypoint: "main.tex".into(), format_command: Some("tex-fmt -n".into()) };
    assert!(check_config_save("entrypoint = \"main.tex\"", Some(ok)).is_ok());
    let e = check_config_save(&"x".repeat(10_001), None).unwrap_err();
    assert_eq!(e.status(), 413);
    assert_eq!(e.message(), "Config file too large (max 10000 bytes)");
    let e = check_config_save("entrypoint = ", None).unwrap_err();
    assert_eq!((e.status(), e.message()), (400, "Invalid TOML syntax".to_string()));
    let bad = Config { entrypoint: "x.txt".into(), format_command: None };
    let e = check_config_save("", Some(bad)).unwrap_err();
    assert_eq!(e.message(), "Invalid entrypoint: must be a .tex file");
    let evil = Config { entrypoint: "main.tex".into(), format_command: Some(" sh -c x".into()) };
    let e = check_config_save("", Some(evil)).unwrap_err();
    assert_eq!(e.code(), "bad_request");
    assert_eq!(e.message(), "Only the 'tex-fmt' formatting utility is permitted for security reasons");
    let blank = Config { entrypoint: "main.tex".into(), format_command: Some("  ".into()) };
    assert!(check_config_save("", Some(blank)).is_ok());
}

#[test]
fn synctex_output() {
    let out = "SyncTeX result begin\r\nInput: /p/./main.tex \r\nLine:12\nColumn:-1\nPage:3\n";
    assert_eq!(synctex_value(out, "Input:").as_deref(), Some("/p/./main.tex"));
    assert_eq!(synctex_num(out, "Line:", 1), 12);
    assert_eq!(synctex_num(out, "Column:", 1), 1);
    assert_eq!(synctex_num(out, "Page:", 1), 3);
    assert_eq!(synctex_num(out, "Missing:", 7), 7);
    assert_eq!(synctex_value("", "Input:"), None);
}

#[test]
fn status_labels() {
    assert_eq!(project_status_label(false, false, false), "idle");
    assert_eq!(project_status_label(true, true, true), "locked");
    assert_eq!(project_status_label(true, false, true), "building");
    assert_eq!(project_status_label(true, false, false), "idle");
}

#[test]
fn pdf_downloads() {
    assert_eq!(pdf_download_disposition("thesis", None), "attachment; filename=\"thesis.pdf\"");
    assert_eq!(
        pdf_download_disposition("thesis", Some("20260101-010203-000000000_S")),
        "attachment; filename=\"thesis-20260101-010203-000000000_S.pdf\""
    );
    assert_eq!(pdf_download_disposition("thesis", Some("../x_S")), "attachment; filename=\"thesis.pdf\"");
    assert!(pdf_size_check(10, 10).is_none());
    let e = pdf_size_check(11, 10).unwrap();
    assert_eq!(e.status(), 413);
    assert_eq!(e.message(), "PDF too large (11 bytes, max 10 bytes)");
}

#[test]
fn api_routing() {
    assert_eq!(route_api("build", HttpMethod::Post, None, false, true), ApiRoute::CsrfRejected);
    assert_eq!(route_api("build", HttpMethod::Post, Some("yes"), false, true), ApiRoute::CsrfRejected);
    assert_eq!(route_api("build", HttpMethod::Post, Some("true"), false, true), ApiRoute::Build);
    assert_eq!(route_api("run", HttpMethod::Post, Some("true"), true, true), ApiRoute::ReadOnly);
    assert_eq!(route_api("projects", HttpMethod::Get, None, false, false), ApiRoute::ListProjects);
    assert_eq!(route_api("capabilities", HttpMethod::Get, None, false, false), ApiRoute::Capabilities);
    assert_eq!(route_api("status", HttpMethod::Get, None, false, false), ApiRoute::BadProject);
    assert_eq!(route_api("status", HttpMethod::Get, None, true, true), ApiRoute::Status);
    assert_eq!(route_api("lint", HttpMethod::Get, None, true, true), ApiRoute::Lint);
    assert_eq!(route_api("format", HttpMethod::Get, None, true, true), ApiRoute::ReadOnly);
    assert_eq!(route_api("config", HttpMethod::Get, None, true, true), ApiRoute::GetConfig);
    assert_eq!(route_api("config", HttpMethod::Post, Some("true"), false, true), ApiRoute::SaveConfig);
    assert_eq!(route_api("config", HttpMethod::Other, None, true, true), ApiRoute::ReadOnly);
    assert_eq!(route_api("file", HttpMethod::Get, None, true, true), ApiRoute::ReadFile);
    assert_eq!(route_api("file", HttpMethod::Post, Some("true"), false, true), ApiRoute::SaveFile);
    assert_eq!(route_api("files", HttpMethod::Get, None, false, true), ApiRoute::ListFiles);
    assert_eq!(route_api("synctex", HttpMethod::Get, None, false, true), ApiRoute::Synctex);
    assert_eq!(route_api("preview", HttpMethod::Get, None, false, true), ApiRoute::Preview);
    assert_eq!(route_api("builds", HttpMethod::Get, None, false, true), ApiRoute::Builds);
    assert_eq!(route_api("js", HttpMethod::Get, None, false, true), ApiRoute::Gone);
    assert_eq!(route_api("nope", HttpMethod::Get, None, false, true), ApiRoute::NotFound);
    assert_eq!(route_api("clean", HttpMethod::Post, Some("true"), false, true), ApiRoute::Clean);
    assert_eq!(route_api("delete", HttpMethod::Post, Some("true"), false, true), ApiRoute::Delete);
    assert_eq!(route_api("create", HttpMethod::Post, Some("true"), false, true), ApiRoute::Create);
    assert_eq!(route_api("cancel", HttpMethod::Post, Some("true"), false, true), ApiRoute::Cancel);
}

#[test]
fn admin_routing() {
    assert_eq!(route_admin("kill", false, true), AdminRoute::Unauthorized);
    assert_eq!(route_admin("kill", true, false), AdminRoute::BadProject);
    assert_eq!(route_admin("kill", true, true), AdminRoute::Kill);
    assert_eq!(route_admin("restart", true, true), AdminRoute::NotFound);
}
