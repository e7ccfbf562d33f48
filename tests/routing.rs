use org_demo::router::{parse_u64, route_request, split_path, strip_query, Route};

fn is_user(r: &Route, id: u64) -> bool {
    matches!(r, Route::User(x) if *x == id)
}

#[test]
fn routes_fixed_paths() {
    assert!(matches!(route_request("GET", "/"), Route::Index));
    assert!(matches!(route_request("GET", "/api/orgs"), Route::Orgs));
    assert!(matches!(route_request("GET", "/api/orgs?x=1"), Route::Orgs));
    assert!(matches!(route_request("POST", "/api/create/org"), Route::CreateOrg));
    assert!(matches!(route_request("POST", "/api/create/user"), Route::CreateUser));
    assert!(matches!(route_request("POST", "/api/create/linode"), Route::CreateLinode));
    assert!(matches!(route_request("GET", "/favicon.ico"), Route::Favicon));
    assert!(matches!(route_request("GET", "/robots.txt"), Route::Robots));
}

#[test]
fn routes_need_the_right_method() {
    assert!(matches!(route_request("GET", "/api/create/org"), Route::Fallback));
    assert!(matches!(route_request("POST", "/api/orgs"), Route::Fallback));
    assert!(matches!(route_request("DELETE", "/"), Route::Fallback));
}

#[test]
fn routes_user_by_id() {
    assert!(is_user(&route_request("GET", "/api/user/999999"), 999999));
    assert!(is_user(&route_request("GET", "/api/user/+5"), 5));
    assert!(is_user(&route_request("GET", "/api/user/18446744073709551615"), u64::MAX));
    assert!(matches!(route_request("GET", "/api/user/18446744073709551616"), Route::Fallback));
    assert!(matches!(route_request("GET", "/api/user/abc"), Route::Fallback));
    assert!(matches!(route_request("GET", "/api/user/"), Route::Fallback));
    assert!(matches!(route_request("GET", "/api/user/1/2"), Route::Fallback));
}

#[test]
fn routes_existence_checks() {
    match route_request("GET", "/api/exists/org/Bean%20Group") {
        Route::OrgExists(name) => assert_eq!(name, "Bean Group"),
        _ => panic!("expected an organization check"),
    }
    match route_request("GET", "/api/exists/user/bean@burrito.org?q") {
        Route::UserExists(email) => assert_eq!(email, "bean@burrito.org"),
        _ => panic!("expected a user check"),
    }
    match route_request("GET", "/api/exists/linode/dee") {
        Route::LinodeExists(name) => assert_eq!(name, "dee"),
        _ => panic!("expected a device check"),
    }
    match route_request("GET", "/api/exists/org/") {
        Route::OrgExists(name) => assert_eq!(name, ""),
        _ => panic!("expected an organization check"),
    }
}

#[test]
fn unknown_paths_fall_back() {
    assert!(matches!(route_request("GET", "/static/app.js"), Route::Fallback));
    assert!(matches!(route_request("GET", "/nowhere"), Route::Fallback));
    assert!(matches!(route_request("GET", ""), Route::Fallback));
}

#[test]
fn parses_decimal_numbers() {
    assert_eq!(parse_u64("0"), Some(0));
    assert_eq!(parse_u64("0042"), Some(42));
    assert_eq!(parse_u64("+7"), Some(7));
    assert_eq!(parse_u64("+"), None);
    assert_eq!(parse_u64(""), None);
    assert_eq!(parse_u64("-1"), None);
    assert_eq!(parse_u64("1a"), None);
    assert_eq!(parse_u64(" 1"), None);
    assert_eq!(parse_u64("18446744073709551615"), Some(u64::MAX));
    assert_eq!(parse_u64("18446744073709551616"), None);
    assert_eq!(parse_u64("99999999999999999999x"), None);
}

#[test]
fn splits_and_strips() {
    assert_eq!(strip_query("/a/b?c=d?e"), "/a/b");
    assert_eq!(strip_query("/a"), "/a");
    assert_eq!(split_path("/api/user/3"), vec!["", "api", "user", "3"]);
    assert_eq!(split_path(""), vec![""]);
    assert_eq!(split_path("a//"), vec!["a", "", ""]);
}
