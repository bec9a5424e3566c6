use user_service::response::Status;
use user_service::route::Method;
use user_service::service::handle_request;
use user_service::store::UserStore;

const INDEX_PAGE: &str = "\n <!doctype html>\n <html>\n     <head>\n         <title>Rust Microservice</title>\n     </head>\n     <body>\n         <h3>Rust Microservice</h3>\n     </body>\n </html>\n ";

#[test]
fn get_index_returns_page() {
    let mut store = UserStore::new();
    let resp = handle_request(Method::Get, "/", &mut store);
    assert_eq!(resp.status.code(), 200);
    assert_eq!(resp.body, INDEX_PAGE);
    let resp = handle_request(Method::Get, "/index", &mut store);
    assert_eq!(resp.status.code(), 200);
    assert_eq!(resp.body, INDEX_PAGE);
    let resp = handle_request(Method::Get, "/index.html", &mut store);
    assert_eq!(resp.status.code(), 200);
    assert_eq!(resp.body, INDEX_PAGE);
}

#[test]
fn index_wrong_method_is_405() {
    let mut store = UserStore::new();
    let resp = handle_request(Method::Post, "/", &mut store);
    assert_eq!(resp.status, Status::MethodNotAllowed);
    assert_eq!(resp.status.code(), 405);
    assert_eq!(resp.body, "");
}

#[test]
fn post_user_on_empty_store_returns_zero() {
    let mut store = UserStore::new();
    let resp = handle_request(Method::Post, "/user/", &mut store);
    assert_eq!(resp.status.code(), 200);
    assert_eq!(resp.body, "0");
}

#[test]
fn get_created_user_is_200() {
    let mut store = UserStore::new();
    let resp = handle_request(Method::Post, "/user/", &mut store);
    assert_eq!(resp.body, "0");
    let resp = handle_request(Method::Get, "/user/0", &mut store);
    assert_eq!(resp.status.code(), 200);
    assert_eq!(resp.body, "{}");
}

#[test]
fn get_never_created_is_404() {
    let mut store = UserStore::new();
    let resp = handle_request(Method::Get, "/user/99", &mut store);
    assert_eq!(resp.status, Status::NotFound);
    assert_eq!(resp.status.code(), 404);
    assert_eq!(resp.body, "");
}

#[test]
fn post_with_id_is_400() {
    let mut store = UserStore::new();
    let resp = handle_request(Method::Post, "/user/5", &mut store);
    assert_eq!(resp.status, Status::BadRequest);
    assert_eq!(resp.status.code(), 400);
    assert_eq!(resp.body, "");
}

#[test]
fn delete_then_listing_drops_the_id() {
    let mut store = UserStore::new();
    handle_request(Method::Post, "/user/", &mut store);
    handle_request(Method::Post, "/user/", &mut store);
    let resp = handle_request(Method::Delete, "/user/0", &mut store);
    assert_eq!(resp.status.code(), 200);
    assert_eq!(resp.body, "");
    let resp = handle_request(Method::Get, "/users", &mut store);
    assert_eq!(resp.status.code(), 200);
    assert_eq!(resp.body, "1");
    assert!(!resp.body.contains('0'));
}

#[test]
fn unsupported_method_on_item_is_405() {
    let mut store = UserStore::new();
    handle_request(Method::Post, "/user/", &mut store);
    let resp = handle_request(Method::Other, "/user/0", &mut store);
    assert_eq!(resp.status, Status::MethodNotAllowed);
    assert_eq!(resp.status.code(), 405);
}

#[test]
fn item_without_id_is_400_for_non_post() {
    let mut store = UserStore::new();
    for m in [Method::Get, Method::Put, Method::Delete, Method::Other] {
        let resp = handle_request(m, "/user/", &mut store);
        assert_eq!(resp.status, Status::BadRequest);
        assert_eq!(resp.body, "");
    }
}

#[test]
fn unmatched_paths_are_404() {
    let mut store = UserStore::new();
    for p in ["/nope", "/user", "/user//", "/user/12x", "/users/extra", "/index.htm", ""] {
        let resp = handle_request(Method::Get, p, &mut store);
        assert_eq!(resp.status, Status::NotFound);
        assert_eq!(resp.body, "");
    }
}

#[test]
fn users_wrong_method_is_405() {
    let mut store = UserStore::new();
    let resp = handle_request(Method::Delete, "/users", &mut store);
    assert_eq!(resp.status, Status::MethodNotAllowed);
    let resp = handle_request(Method::Get, "/users/", &mut store);
    assert_eq!(resp.status.code(), 200);
}

#[test]
fn put_replaces_live_record() {
    let mut store = UserStore::new();
    handle_request(Method::Post, "/user/", &mut store);
    let resp = handle_request(Method::Put, "/user/0", &mut store);
    assert_eq!(resp.status.code(), 200);
    assert_eq!(resp.body, "");
    let resp = handle_request(Method::Get, "/user/0", &mut store);
    assert_eq!(resp.status.code(), 200);
    assert_eq!(resp.body, "{}");
}

#[test]
fn put_and_delete_on_dead_id_are_404() {
    let mut store = UserStore::new();
    let resp = handle_request(Method::Put, "/user/3", &mut store);
    assert_eq!(resp.status, Status::NotFound);
    let resp = handle_request(Method::Delete, "/user/3", &mut store);
    assert_eq!(resp.status, Status::NotFound);
    handle_request(Method::Post, "/user/", &mut store);
    handle_request(Method::Delete, "/user/0", &mut store);
    let resp = handle_request(Method::Delete, "/user/0", &mut store);
    assert_eq!(resp.status, Status::NotFound);
}

#[test]
fn deleted_id_is_reused_by_next_create() {
    let mut store = UserStore::new();
    handle_request(Method::Post, "/user/", &mut store);
    handle_request(Method::Post, "/user/", &mut store);
    handle_request(Method::Delete, "/user/0", &mut store);
    let resp = handle_request(Method::Post, "/user/", &mut store);
    assert_eq!(resp.body, "0");
}

#[test]
fn trailing_slash_addresses_same_item() {
    let mut store = UserStore::new();
    handle_request(Method::Post, "/user/", &mut store);
    let resp = handle_request(Method::Get, "/user/0/", &mut store);
    assert_eq!(resp.status.code(), 200);
}

#[test]
fn out_of_range_id_counts_as_no_id() {
    let mut store = UserStore::new();
    // digits too large for an identifier carry no id, so POST creates
    let resp = handle_request(Method::Post, "/user/99999999999999999999999999", &mut store);
    assert_eq!(resp.status.code(), 200);
    assert_eq!(resp.body, "0");
    // and GET with such digits is a bad request, not a 404
    let resp = handle_request(Method::Get, "/user/99999999999999999999999999", &mut store);
    assert_eq!(resp.status, Status::BadRequest);
}

#[test]
fn create_response_body_addresses_the_record() {
    let mut store = UserStore::new();
    for _ in 0..12 {
        handle_request(Method::Post, "/user/", &mut store);
    }
    handle_request(Method::Delete, "/user/7", &mut store);
    let resp = handle_request(Method::Post, "/user/", &mut store);
    assert_eq!(resp.body, "7");
    let path = format!("/user/{}", resp.body);
    let got = handle_request(Method::Get, &path, &mut store);
    assert_eq!(got.status.code(), 200);
    assert_eq!(got.body, "{}");
}

#[test]
fn listing_after_creates_and_deletes() {
    let mut store = UserStore::new();
    for _ in 0..5 {
        handle_request(Method::Post, "/user/", &mut store);
    }
    handle_request(Method::Delete, "/user/1", &mut store);
    handle_request(Method::Delete, "/user/3", &mut store);
    let resp = handle_request(Method::Get, "/users", &mut store);
    assert_eq!(resp.body, "0,2,4");
}
