use spa_server::response::Response;
use spa_server::{begin, finish, index_html, log_filter, ReadOutcome, Shell, Step};

const DOCUMENT: &str = "<!doctype html><title>app</title><div id=\"root\"></div>";

fn shell() -> Shell {
    Shell::new(DOCUMENT.to_string()).unwrap()
}

fn reply_of(step: Step) -> Response {
    match step {
        Step::Reply(reply) => reply,
        Step::Read(file) => panic!("asked to read {:?}", file),
    }
}

fn get(shell: &Shell, path: &str, on_disk: &[(&str, &[u8])]) -> Response {
    match begin(shell, path.as_bytes()) {
        Step::Reply(reply) => reply,
        Step::Read(file) => {
            let joined: Vec<String> =
                file.names().iter().map(|name| String::from_utf8(name.clone()).unwrap()).collect();
            let wanted = joined.join("/");
            let outcome = match on_disk.iter().find(|(name, _)| *name == wanted) {
                Some((_, contents)) => ReadOutcome::Contents(contents.to_vec()),
                None => ReadOutcome::Missing,
            };
            finish(&file, outcome)
        }
    }
}

#[test]
fn get_root_returns_the_shell() {
    let shell = shell();
    let reply = reply_of(begin(&shell, b"/"));
    assert_eq!(reply.status, 200);
    assert_eq!(reply.content_type.as_deref(), Some("text/html; charset=utf-8"));
    assert!(!reply.body.is_empty());
    assert_eq!(reply.body, DOCUMENT.as_bytes());
    assert_eq!(reply, index_html(&shell));
}

#[test]
fn get_root_is_idempotent() {
    let shell = shell();
    let first = reply_of(begin(&shell, b"/"));
    for _ in 0..10 {
        assert_eq!(reply_of(begin(&shell, b"/")), first);
    }
}

#[test]
fn get_api_auth_returns_the_stub() {
    let shell = shell();
    for _ in 0..3 {
        let reply = reply_of(begin(&shell, b"/api/auth"));
        assert_eq!(reply.status, 200);
        assert_eq!(reply.content_type.as_deref(), Some("text/plain; charset=utf-8"));
        assert_eq!(reply.body, b"API: auth");
    }
}

#[test]
fn unmatched_paths_get_the_same_reply_as_root() {
    let shell = shell();
    let root = reply_of(begin(&shell, b"/"));
    let paths: [&[u8]; 9] = [
        b"/about",
        b"/users/7",
        b"/assets",
        b"/api",
        b"/api/auth/",
        b"/api/auth/extra",
        b"/index.html",
        b"",
        b"/../etc/passwd",
    ];
    for path in paths {
        let reply = reply_of(begin(&shell, path));
        assert_eq!(reply.status, 200);
        assert_eq!(reply, root);
    }
}

#[test]
fn existing_asset_is_read_and_served() {
    let shell = shell();
    let contents: &[u8] = b"console.log('hi');\n";
    let step = begin(&shell, b"/assets/js/app.js");
    let file = match step {
        Step::Read(file) => file,
        Step::Reply(reply) => panic!("answered at once: {:?}", reply),
    };
    assert_eq!(file.names(), &vec![b"js".to_vec(), b"app.js".to_vec()]);
    let reply = finish(&file, ReadOutcome::Contents(contents.to_vec()));
    assert_eq!(reply.status, 200);
    assert_eq!(reply.content_type.as_deref(), Some("text/javascript"));
    assert_eq!(reply.body, contents);
}

#[test]
fn missing_asset_is_not_found() {
    let shell = shell();
    let reply = get(&shell, "/assets/nope.css", &[("app.js", b"x")]);
    assert_eq!(reply.status, 404);
    assert!(reply.body.is_empty());
    assert_eq!(reply.content_type, None);
}

#[test]
fn traversal_is_denied_before_any_read() {
    let shell = shell();
    let paths: [&[u8]; 7] = [
        b"/assets/../../etc/passwd",
        b"/assets/..",
        b"/assets/js/../../secret",
        b"/assets/%2e%2e/%2e%2e/etc/passwd",
        b"/assets/..%2f..%2fetc%2fpasswd",
        b"/assets//../x",
        b"/assets/%2fetc/passwd",
    ];
    for path in paths {
        let reply = reply_of(begin(&shell, path));
        assert_eq!(reply, Response { status: 404, content_type: None, body: Vec::new() });
    }
}

#[test]
fn failed_asset_read_is_an_internal_error() {
    let shell = shell();
    let file = match begin(&shell, b"/assets/app.js") {
        Step::Read(file) => file,
        Step::Reply(reply) => panic!("answered at once: {:?}", reply),
    };
    let reply = finish(&file, ReadOutcome::Failed("read error".to_string()));
    assert_eq!(reply.status, 500);
    assert_eq!(reply.body, b"Unhandled internal error: read error");
}

#[test]
fn interleaved_requests_do_not_interfere() {
    let shell = shell();
    let disk: [(&str, &[u8]); 2] = [("app.js", b"let a = 1;"), ("site.css", b"body{}")];
    for _ in 0..20 {
        let css = get(&shell, "/assets/site.css", &disk);
        let root = get(&shell, "/", &disk);
        let api = get(&shell, "/api/auth", &disk);
        let js = get(&shell, "/assets/app.js", &disk);
        let page = get(&shell, "/dashboard", &disk);
        assert_eq!((root.status, root.body.as_slice()), (200, DOCUMENT.as_bytes()));
        assert_eq!((api.status, api.body.as_slice()), (200, &b"API: auth"[..]));
        assert_eq!((js.status, js.body.as_slice()), (200, &b"let a = 1;"[..]));
        assert_eq!((css.status, css.body.as_slice()), (200, &b"body{}"[..]));
        assert_eq!(js.content_type.as_deref(), Some("text/javascript"));
        assert_eq!(css.content_type.as_deref(), Some("text/css"));
        assert_eq!(page, root);
    }
}

#[test]
fn log_filter_prefers_the_configured_value() {
    assert_eq!(log_filter(Some("info".to_string())), "info");
    assert_eq!(log_filter(Some(String::new())), "");
}

#[test]
fn log_filter_has_a_default() {
    assert_eq!(
        log_filter(None),
        "axum_single_page_application_example=debug,tower_http=debug"
    );
}
