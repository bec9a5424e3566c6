use user_service::record::UserRecord;
use user_service::response::Status;
use user_service::route::Route;
use user_service::route::classify;
use user_service::store::UserStore;
use user_service::text::join_ids;
use user_service::text::str_eq;
use user_service::text::usize_to_string;

#[test]
fn created_ids_are_pairwise_distinct() {
    let mut store = UserStore::new();
    let mut ids: Vec<usize> = Vec::new();
    for _ in 0..10 {
        ids.push(store.create());
    }
    for a in 0..ids.len() {
        for b in 0..ids.len() {
            if a != b {
                assert_ne!(ids[a], ids[b]);
            }
        }
    }
}

#[test]
fn create_then_get_is_live() {
    let mut store = UserStore::new();
    let id = store.create();
    assert!(store.get(id).is_some());
}

#[test]
fn create_delete_get_is_absent() {
    let mut store = UserStore::new();
    let id = store.create();
    assert!(store.delete(id));
    assert!(store.get(id).is_none());
}

#[test]
fn deleted_slot_is_reused() {
    let mut store = UserStore::new();
    let a = store.create();
    let b = store.create();
    assert_ne!(a, b);
    assert!(store.delete(a));
    let c = store.create();
    assert_eq!(c, a);
}

#[test]
fn operations_on_unknown_ids_report_absence() {
    let mut store = UserStore::new();
    assert!(store.get(7).is_none());
    assert!(!store.replace(7, UserRecord::new()));
    assert!(!store.delete(7));
    let id = store.create();
    assert!(store.delete(id));
    assert!(store.get(id).is_none());
    assert!(!store.replace(id, UserRecord::new()));
    assert!(!store.delete(id));
}

#[test]
fn replace_keeps_the_id_and_record_stays_visible() {
    let mut store = UserStore::new();
    let id = store.create();
    assert!(store.replace(id, UserRecord::new()));
    let got = store.get(id);
    assert!(got.is_some());
    assert!(store.list_ids().contains(&id));
}

#[test]
fn listing_has_creates_minus_deletes_elements() {
    let mut store = UserStore::new();
    let n: usize = 8;
    let m: usize = 3;
    let mut ids: Vec<usize> = Vec::new();
    for _ in 0..n {
        ids.push(store.create());
    }
    for id in ids.iter().take(m) {
        assert!(store.delete(*id));
    }
    assert_eq!(store.list_ids().len(), n - m);
}

#[test]
fn serialized_creates_never_duplicate_ids() {
    // the store is held behind one lock, so creates are serialized; a run of
    // interleaved creates and deletes still never has two live owners of one id
    let mut store = UserStore::new();
    let a = store.create();
    let b = store.create();
    store.delete(a);
    let c = store.create();
    let d = store.create();
    let live = store.list_ids();
    let mut seen: Vec<usize> = Vec::new();
    for id in [b, c, d] {
        assert!(live.contains(&id));
        assert!(!seen.contains(&id));
        seen.push(id);
    }
}

#[test]
fn record_renders_as_braces() {
    let rec = UserRecord::new();
    assert_eq!(rec.render(), "{}");
}

#[test]
fn decimal_rendering_exact_values() {
    assert_eq!(usize_to_string(0), "0");
    assert_eq!(usize_to_string(7), "7");
    assert_eq!(usize_to_string(10), "10");
    assert_eq!(usize_to_string(12345), "12345");
    assert_eq!(usize_to_string(usize::MAX), format!("{}", usize::MAX));
}

#[test]
fn join_renders_comma_separated() {
    assert_eq!(join_ids(&vec![]), "");
    assert_eq!(join_ids(&vec![0]), "0");
    assert_eq!(join_ids(&vec![1, 2, 30]), "1,2,30");
}

#[test]
fn str_eq_matches_string_equality() {
    assert!(str_eq("", ""));
    assert!(str_eq("/users", "/users"));
    assert!(!str_eq("/users", "/users/"));
    assert!(!str_eq("/user/", "/index"));
}

#[test]
fn classify_recognizes_each_route() {
    assert_eq!(classify("/"), Route::Index);
    assert_eq!(classify("/index"), Route::Index);
    assert_eq!(classify("/index.html"), Route::Index);
    assert_eq!(classify("/users"), Route::UserCollection);
    assert_eq!(classify("/users/"), Route::UserCollection);
    assert_eq!(classify("/user/"), Route::UserItem(None));
    assert_eq!(classify("/user/42"), Route::UserItem(Some(42)));
    assert_eq!(classify("/user/42/"), Route::UserItem(Some(42)));
    assert_eq!(classify("/user/0"), Route::UserItem(Some(0)));
    assert_eq!(classify("/user/99999999999999999999999999"), Route::UserItem(None));
    assert_eq!(classify("/user"), Route::NotFound);
    assert_eq!(classify("/user//"), Route::NotFound);
    assert_eq!(classify("/user/4x2"), Route::NotFound);
    assert_eq!(classify("/index.htm"), Route::NotFound);
    assert_eq!(classify("/USERS"), Route::NotFound);
    assert_eq!(classify(""), Route::NotFound);
}

#[test]
fn status_codes_are_the_http_codes() {
    assert_eq!(Status::Success.code(), 200);
    assert_eq!(Status::BadRequest.code(), 400);
    assert_eq!(Status::NotFound.code(), 404);
    assert_eq!(Status::MethodNotAllowed.code(), 405);
}
