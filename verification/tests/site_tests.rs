use nexo_runtime::site::{default_project_type, get_mime_type, CreateSiteRequest, SiteFileRequest,
    SiteStore};

fn deploy_request(route: Option<&str>, files: Vec<(&str, &str)>) -> CreateSiteRequest {
    CreateSiteRequest {
        name: Some("my-site".to_string()),
        route: route.map(|r| r.to_string()),
        files: files
            .into_iter()
            .map(|(path, content)| SiteFileRequest {
                path: path.to_string(),
                content: content.to_string(),
            })
            .collect(),
        project_type: default_project_type(),
    }
}

#[test]
fn mime_types_resolve_from_extensions() {
    assert_eq!(get_mime_type("index.html"), "text/html; charset=utf-8");
    assert_eq!(get_mime_type("a/b/styles.css"), "text/css; charset=utf-8");
    assert_eq!(get_mime_type("app.js"), "application/javascript; charset=utf-8");
    assert_eq!(get_mime_type("data.json"), "application/json; charset=utf-8");
    assert_eq!(get_mime_type("logo.svg"), "image/svg+xml");
    assert_eq!(get_mime_type("photo.JPEG"), "image/jpeg");
    assert_eq!(get_mime_type("archive.tar.gz"), "application/octet-stream");
    assert_eq!(get_mime_type("noextension"), "application/octet-stream");
    assert_eq!(get_mime_type("notes.txt"), "text/plain; charset=utf-8");
    assert_eq!(get_mime_type("font.woff2"), "font/woff2");
}

#[test]
fn create_site_assigns_mime_types_and_defaults() {
    let mut store = SiteStore::new();
    let site = store
        .create(deploy_request(Some("/mysite"), vec![
            ("index.html", "<h1>hi</h1>"),
            ("app.js", "console.log(1)"),
        ]))
        .unwrap();
    assert_eq!(site.route, "/mysite");
    assert_eq!(site.name, "my-site");
    assert_eq!(site.files.len(), 2);
    assert_eq!(site.files[0].mime_type, "text/html; charset=utf-8");
    assert_eq!(site.files[1].mime_type, "application/javascript; charset=utf-8");
    assert_eq!(site.visits, 0);
    assert_eq!(site.id.len(), 36);
    assert_eq!(site.project_type, "html");
}

#[test]
fn create_site_derives_route_when_absent() {
    let mut store = SiteStore::new();
    let site = store.create(deploy_request(None, vec![])).unwrap();
    assert!(site.route.starts_with('/'));
    assert!(site.route.len() > 1);
}

#[test]
fn create_site_rejects_taken_route() {
    let mut store = SiteStore::new();
    store.create(deploy_request(Some("/a"), vec![])).unwrap();
    let err = store.create(deploy_request(Some("/a"), vec![])).unwrap_err();
    assert_eq!(err, "Route is already in use");
}

#[test]
fn get_by_route_matches_exact_then_prefix() {
    let mut store = SiteStore::new();
    let site = store
        .create(deploy_request(Some("/docs"), vec![("index.html", "x")]))
        .unwrap();
    assert_eq!(store.get_by_route("/docs").unwrap().id, site.id);
    assert_eq!(store.get_by_route("/docs/assets/app.js").unwrap().id, site.id);
    assert!(store.get_by_route("/other").is_none());
}

#[test]
fn get_file_serves_exact_path() {
    let mut store = SiteStore::new();
    let site = store
        .create(deploy_request(Some("/s"), vec![
            ("index.html", "home"),
            ("assets/app.js", "code"),
        ]))
        .unwrap();
    let f = store.get_file(&site.id, "assets/app.js").unwrap();
    assert_eq!(f.content, "code");
    let f = store.get_file(&site.id, "/assets/app.js").unwrap();
    assert_eq!(f.content, "code");
}

#[test]
fn get_file_falls_back_to_directory_index() {
    let mut store = SiteStore::new();
    let site = store
        .create(deploy_request(Some("/s"), vec![
            ("index.html", "home"),
            ("docs/index.html", "docs home"),
        ]))
        .unwrap();
    assert_eq!(store.get_file(&site.id, "").unwrap().content, "home");
    assert_eq!(store.get_file(&site.id, "docs").unwrap().content, "docs home");
    assert_eq!(store.get_file(&site.id, "docs/").unwrap().content, "docs home");
}

#[test]
fn get_file_spa_fallback_serves_root_index() {
    let mut store = SiteStore::new();
    let site = store
        .create(deploy_request(Some("/s"), vec![("index.html", "app shell")]))
        .unwrap();
    assert_eq!(store.get_file(&site.id, "some/client/route").unwrap().content, "app shell");
}

#[test]
fn get_file_unknown_site_or_file_is_none() {
    let mut store = SiteStore::new();
    let site = store.create(deploy_request(Some("/s"), vec![("a.txt", "x")])).unwrap();
    assert!(store.get_file("missing-site", "a.txt").is_none());
    assert!(store.get_file(&site.id, "b.txt").is_none());
}

#[test]
fn record_visit_counts() {
    let mut store = SiteStore::new();
    let site = store.create(deploy_request(Some("/s"), vec![])).unwrap();
    store.record_visit(&site.id);
    store.record_visit(&site.id);
    store.record_visit("missing");
    assert_eq!(store.get(&site.id).unwrap().visits, 2);
}

#[test]
fn delete_site_frees_route() {
    let mut store = SiteStore::new();
    let site = store.create(deploy_request(Some("/s"), vec![])).unwrap();
    store.delete(&site.id).unwrap();
    assert!(store.get(&site.id).is_none());
    assert!(store.create(deploy_request(Some("/s"), vec![])).is_ok());
    assert_eq!(store.delete(&site.id).unwrap_err(), "Site not found");
}

#[test]
fn list_sites_in_deployment_order() {
    let mut store = SiteStore::new();
    store.create(deploy_request(Some("/a"), vec![])).unwrap();
    store.create(deploy_request(Some("/b"), vec![])).unwrap();
    let all = store.list();
    assert_eq!(all.len(), 2);
    assert_eq!(all[0].route, "/a");
    assert_eq!(all[1].route, "/b");
}
