use vstd::prelude::*;

use crate::record::UserRecord;
use crate::record::spec_render;
use crate::response::Response;
use crate::response::Status;
use crate::response::index_body;
use crate::response::index_page;
use crate::route::Method;
use crate::route::Route;
use crate::route::classify;
use crate::route::spec_classify;
use crate::store::UserStore;
use crate::store::create_step;
use crate::store::delete_step;
use crate::store::live_ids_of;
use crate::store::replace_step;
use crate::text::join_ids;
use crate::text::spec_dec;
use crate::text::spec_join_ids;
use crate::text::usize_to_string;

verus! {

/// The response body is empty.
pub open spec fn empty_body(resp: Response) -> bool {
    resp.body@ == Seq::<char>::empty()
}

/// The whole behaviour of one dispatched request: how the store after the
/// call and the response relate to the method, the path, and the store
/// before the call.
pub open spec fn handled(
    m: Method,
    p: Seq<char>,
    pre: UserStore,
    post: UserStore,
    resp: Response,
) -> bool {
    match spec_classify(p) {
        Route::Index => {
            &&& post == pre
            &&& if m is Get {
                resp.status is Success && resp.body@ == index_page()
            } else {
                resp.status is MethodNotAllowed && empty_body(resp)
            }
        },
        Route::UserCollection => {
            &&& post == pre
            &&& if m is Get {
                resp.status is Success && resp.body@ == spec_join_ids(live_ids_of(pre.slots@))
            } else {
                resp.status is MethodNotAllowed && empty_body(resp)
            }
        },
        Route::UserItem(opt) => match opt {
            None => {
                if m is Post {
                    &&& create_step(pre, post, pre.next_id())
                    &&& resp.status is Success
                    &&& resp.body@ == spec_dec(pre.next_id() as nat)
                } else {
                    // every non-create request without an identifier is a bad
                    // request, not a missing method
                    &&& post == pre
                    &&& resp.status is BadRequest
                    &&& empty_body(resp)
                }
            },
            Some(id) => match m {
                Method::Get => {
                    &&& post == pre
                    &&& if pre.is_live(id) {
                        resp.status is Success && resp.body@ == spec_render()
                    } else {
                        resp.status is NotFound && empty_body(resp)
                    }
                },
                Method::Put => {
                    &&& replace_step(pre, post, id, (UserRecord {  }), pre.is_live(id))
                    &&& if pre.is_live(id) {
                        resp.status is Success
                    } else {
                        resp.status is NotFound
                    }
                    &&& empty_body(resp)
                },
                Method::Delete => {
                    &&& delete_step(pre, post, id, pre.is_live(id))
                    &&& if pre.is_live(id) {
                        resp.status is Success
                    } else {
                        resp.status is NotFound
                    }
                    &&& empty_body(resp)
                },
                Method::Post => {
                    // creation must not name an identifier
                    &&& post == pre
                    &&& resp.status is BadRequest
                    &&& empty_body(resp)
                },
                _ => {
                    &&& post == pre
                    &&& resp.status is MethodNotAllowed
                    &&& empty_body(resp)
                },
            },
        },
        Route::NotFound => {
            &&& post == pre
            &&& resp.status is NotFound
            &&& empty_body(resp)
        },
    }
}

/// Dispatch one parsed request against the store and produce the response.
///
/// The caller holds the store exclusively for the whole call (the transport
/// layer keeps it behind one lock), so requests are fully serialized.
pub fn handle_request(method: Method, path: &str, store: &mut UserStore) -> (resp: Response)
    requires
        old(store).wf(),
    ensures
        final(store).wf(),
        handled(method, path@, *old(store), *final(store), resp),
{
    let route = classify(path);
    match route {
        Route::Index => {
            if matches!(method, Method::Get) {
                Response::success_with_body(index_body())
            } else {
                Response::with_status(Status::MethodNotAllowed)
            }
        },
        Route::UserCollection => {
            if matches!(method, Method::Get) {
                let ids = store.list_ids();
                Response::success_with_body(join_ids(&ids))
            } else {
                Response::with_status(Status::MethodNotAllowed)
            }
        },
        Route::UserItem(opt) => match (method, opt) {
            (Method::Post, None) => {
                let id = store.create();
                Response::success_with_body(usize_to_string(id))
            },
            (_, None) => Response::with_status(Status::BadRequest),
            (Method::Get, Some(id)) => match store.get(id) {
                Some(rec) => Response::success_with_body(rec.render()),
                None => Response::with_status(Status::NotFound),
            },
            (Method::Put, Some(id)) => {
                let replaced = store.replace(id, UserRecord::new());
                if replaced {
                    Response::with_status(Status::Success)
                } else {
                    Response::with_status(Status::NotFound)
                }
            },
            (Method::Delete, Some(id)) => {
                let removed = store.delete(id);
                if removed {
                    Response::with_status(Status::Success)
                } else {
                    Response::with_status(Status::NotFound)
                }
            },
            (Method::Post, Some(_)) => Response::with_status(Status::BadRequest),
            (_, Some(_)) => Response::with_status(Status::MethodNotAllowed),
        },
        Route::NotFound => Response::with_status(Status::NotFound),
    }
}

} // verus!
