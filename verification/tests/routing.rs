use spa_server::{route, Route};

#[test]
fn root_path_selects_the_index() {
    assert_eq!(route(b"/"), Route::Index);
}

#[test]
fn api_auth_path_selects_the_endpoint() {
    assert_eq!(route(b"/api/auth"), Route::ApiAuth);
}

#[test]
fn asset_path_carries_what_follows_the_prefix() {
    assert_eq!(route(b"/assets/app.js"), Route::Asset(b"app.js".to_vec()));
    assert_eq!(route(b"/assets/css/site.css"), Route::Asset(b"css/site.css".to_vec()));
    assert_eq!(route(b"/assets/../x"), Route::Asset(b"../x".to_vec()));
}

#[test]
fn bare_assets_prefix_names_the_asset_root() {
    assert_eq!(route(b"/assets/"), Route::Asset(Vec::new()));
}

#[test]
fn assets_without_trailing_slash_falls_back() {
    assert_eq!(route(b"/assets"), Route::Fallback);
    assert_eq!(route(b"/assetsx/app.js"), Route::Fallback);
}

#[test]
fn other_paths_fall_back() {
    assert_eq!(route(b"/about"), Route::Fallback);
    assert_eq!(route(b"/users/42/settings"), Route::Fallback);
    assert_eq!(route(b"/api"), Route::Fallback);
    assert_eq!(route(b"/api/auth/"), Route::Fallback);
    assert_eq!(route(b"/api/authx"), Route::Fallback);
    assert_eq!(route(b"/API/AUTH"), Route::Fallback);
    assert_eq!(route(b""), Route::Fallback);
    assert_eq!(route(b"//"), Route::Fallback);
    assert_eq!(route(b"/index.html"), Route::Fallback);
}

#[test]
fn route_is_the_same_on_every_call() {
    for _ in 0..3 {
        assert_eq!(route(b"/assets/a"), Route::Asset(b"a".to_vec()));
        assert_eq!(route(b"/x"), Route::Fallback);
    }
}
