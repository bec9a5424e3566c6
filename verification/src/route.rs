use vstd::prelude::*;
use vstd::string::*;

use crate::store::UserId;
use crate::text::spec_dec;
use crate::text::spec_digit_char;
use crate::text::str_eq;

verus! {

/// The HTTP methods the service distinguishes; everything else (HEAD, PATCH,
/// and so on) falls under `Other` and is never allowed.
#[derive(Clone, Copy, PartialEq, Eq, Structural, Debug)]
pub enum Method {
    Get,
    Post,
    Put,
    Delete,
    Other,
}

/// The classification of a request path: the static index page, the
/// collection of users, a single user item (with the identifier from the
/// path when present and in range), or no recognized route at all.
#[derive(Clone, Copy, PartialEq, Eq, Debug)]
pub enum Route {
    Index,
    UserCollection,
    UserItem(Option<UserId>),
    NotFound,
}

/// An ASCII decimal digit.
pub open spec fn spec_is_digit(c: char) -> bool {
    48 <= c as int <= 57
}

/// The numeric value of a decimal digit character.
pub open spec fn spec_digit_val(c: char) -> nat {
    (c as int - 48) as nat
}

/// Every character of the sequence is a decimal digit.
pub open spec fn all_digits(s: Seq<char>) -> bool {
    forall|i: int| 0 <= i < s.len() ==> spec_is_digit(#[trigger] s[i])
}

/// The value of a digit sequence read as a decimal numeral.
pub open spec fn spec_digits_val(s: Seq<char>) -> nat
    decreases s.len(),
{
    if s.len() == 0 {
        0
    } else {
        spec_digits_val(s.drop_last()) * 10 + spec_digit_val(s.last())
    }
}

/// Paths serving the static index page.
pub open spec fn spec_is_index_path(p: Seq<char>) -> bool {
    p == "/"@ || p == "/index"@ || p == "/index.html"@
}

/// Paths addressing the user collection.
pub open spec fn spec_is_users_path(p: Seq<char>) -> bool {
    p == "/users"@ || p == "/users/"@
}

/// What may follow the `/user/` prefix on an item route: nothing, a digit
/// run, or a digit run closed by one trailing slash.
pub open spec fn spec_item_rest(r: Seq<char>) -> bool {
    ||| r.len() == 0
    ||| (r.len() >= 1 && all_digits(r))
    ||| (r.len() >= 2 && r.last() == '/' && all_digits(r.drop_last()))
}

/// Paths addressing a single user item.
pub open spec fn spec_is_item_path(p: Seq<char>) -> bool {
    p.len() >= 6 && p.subrange(0, 6) == "/user/"@ && spec_item_rest(p.skip(6))
}

/// The digit run of an item-route tail, with any trailing slash removed.
pub open spec fn spec_item_digits(r: Seq<char>) -> Seq<char> {
    if r.len() >= 1 && r.last() == '/' {
        r.drop_last()
    } else {
        r
    }
}

/// The identifier carried by an item-route tail: present when digits are
/// there and their value fits an identifier, absent otherwise.
pub open spec fn spec_item_id(r: Seq<char>) -> Option<UserId> {
    let d = spec_item_digits(r);
    if d.len() == 0 {
        None
    } else if spec_digits_val(d) <= usize::MAX {
        Some(spec_digits_val(d) as UserId)
    } else {
        None
    }
}

/// The route for a path, by the fixed precedence: index page, user
/// collection, user item, then no route.
pub open spec fn spec_classify(p: Seq<char>) -> Route {
    if spec_is_index_path(p) {
        Route::Index
    } else if spec_is_users_path(p) {
        Route::UserCollection
    } else if spec_is_item_path(p) {
        Route::UserItem(spec_item_id(p.skip(6)))
    } else {
        Route::NotFound
    }
}

proof fn lemma_digits_val_take_step(s: Seq<char>, i: int)
    requires
        0 <= i < s.len(),
    ensures
        spec_digits_val(s.take(i + 1)) == spec_digits_val(s.take(i)) * 10 + spec_digit_val(s[i]),
{
    assert(s.take(i + 1).drop_last() =~= s.take(i));
    assert(s.take(i + 1).last() == s[i]);
}

/// Classify the tail of an item path (everything after `/user/`).
fn classify_item_rest(rest: &str) -> (r: Route)
    ensures
        r == if spec_item_rest(rest@) {
            Route::UserItem(spec_item_id(rest@))
        } else {
            Route::NotFound
        },
{
    let m = rest.unicode_len();
    if m == 0 {
        return Route::UserItem(None);
    }
    let lastc = rest.get_char(m - 1);
    let digits_end: usize = if lastc == '/' {
        if m == 1 {
            // a bare slash has no digits before it
            return Route::NotFound;
        }
        m - 1
    } else {
        m
    };
    let ghost digits = spec_item_digits(rest@);
    proof {
        assert(digits =~= rest@.take(digits_end as int));
    }
    let mut i: usize = 0;
    let mut val: usize = 0;
    let mut overflow: bool = false;
    while i < digits_end
        invariant
            m == rest@.len(),
            1 <= digits_end <= m,
            digits == rest@.take(digits_end as int),
            digits == spec_item_digits(rest@),
            lastc == rest@[m - 1],
            digits_end < m ==> lastc == '/',
            0 <= i <= digits_end,
            forall|k: int| 0 <= k < i ==> spec_is_digit(#[trigger] rest@[k]),
            !overflow ==> val == spec_digits_val(rest@.take(i as int)),
            overflow ==> spec_digits_val(rest@.take(i as int)) > usize::MAX,
        decreases digits_end - i,
    {
        let c = rest.get_char(i);
        let cu = c as u32;
        if cu < 48 || cu > 57 {
            proof {
                // a non-digit inside the run rules out every item form
                assert(!spec_is_digit(rest@[i as int]));
                assert(digits[i as int] == rest@[i as int]);
                assert(!all_digits(digits));
            }
            return Route::NotFound;
        }
        let d = (cu - 48) as usize;
        proof {
            lemma_digits_val_take_step(rest@, i as int);
            assert(spec_digit_val(rest@[i as int]) == d);
        }
        if !overflow {
            if val > (usize::MAX - d) / 10 {
                overflow = true;
                proof {
                    assert(val * 10 + d > usize::MAX) by (nonlinear_arith)
                        requires
                            val > (usize::MAX - d) / 10,
                            d <= 9,
                    ;
                }
            } else {
                proof {
                    assert(val * 10 + d <= usize::MAX) by (nonlinear_arith)
                        requires
                            val <= (usize::MAX - d) / 10,
                            d <= 9,
                    ;
                }
                val = val * 10 + d;
            }
        }
        i += 1;
    }
    proof {
        assert(all_digits(digits));
        assert(spec_item_rest(rest@));
        assert(digits.len() >= 1);
    }
    if overflow {
        Route::UserItem(None)
    } else {
        Route::UserItem(Some(val))
    }
}

/// A decimal rendering is a nonempty run of digits.
pub proof fn lemma_dec_all_digits(n: nat)
    ensures
        spec_dec(n).len() >= 1,
        all_digits(spec_dec(n)),
    decreases n,
{
    if n < 10 {
        assert(spec_is_digit(spec_digit_char(n)));
        assert(spec_dec(n) == seq![spec_digit_char(n)]);
        assert(forall|i: int| 0 <= i < 1 ==> spec_dec(n)[i] == spec_digit_char(n));
    } else {
        lemma_dec_all_digits(n / 10);
        let d = spec_dec(n / 10);
        let whole = spec_dec(n);
        assert(whole == d.push(spec_digit_char(n % 10)));
        assert(spec_is_digit(spec_digit_char(n % 10)));
        assert forall|i: int| 0 <= i < whole.len() implies spec_is_digit(#[trigger] whole[i]) by {
            if i < d.len() {
                assert(whole[i] == d[i]);
            } else {
                assert(whole[i] == spec_digit_char(n % 10));
            }
        }
    }
}

/// Reading a decimal rendering back as a numeral gives the number it
/// rendered: the identifier in a create response body, put back into an item
/// path, names the very record the response reported.
pub proof fn lemma_dec_round_trip(n: nat)
    ensures
        spec_digits_val(spec_dec(n)) == n,
    decreases n,
{
    if n < 10 {
        assert(spec_digits_val(Seq::<char>::empty()) == 0);
        assert(spec_dec(n) == seq![spec_digit_char(n)]);
        assert(spec_dec(n).drop_last() =~= Seq::<char>::empty());
        assert(spec_digit_val(spec_digit_char(n)) == n);
        assert(spec_digits_val(spec_dec(n)) == spec_digits_val(Seq::<char>::empty()) * 10
            + spec_digit_val(spec_digit_char(n)));
    } else {
        lemma_dec_round_trip(n / 10);
        let whole = spec_dec(n);
        assert(whole.drop_last() =~= spec_dec(n / 10));
        assert(whole.last() == spec_digit_char(n % 10));
        assert(spec_digit_val(spec_digit_char(n % 10)) == n % 10);
        vstd::arithmetic::div_mod::lemma_fundamental_div_mod(n as int, 10);
    }
}

/// The path written for an identifier classifies back to that identifier:
/// `/user/` followed by the identifier's decimal rendering is the item route
/// carrying it.
pub proof fn lemma_item_path_round_trip(id: UserId)
    ensures
        spec_classify("/user/"@ + spec_dec(id as nat)) == Route::UserItem(Some(id)),
{
    reveal_strlit("/user/");
    reveal_strlit("/");
    reveal_strlit("/index");
    reveal_strlit("/index.html");
    reveal_strlit("/users");
    reveal_strlit("/users/");
    lemma_dec_all_digits(id as nat);
    lemma_dec_round_trip(id as nat);
    let p = "/user/"@ + spec_dec(id as nat);
    assert(p.len() >= 7);
    assert(p[1] == 'u' && "/index"@[1] == 'i' && "/index.html"@[1] == 'i');
    assert(p[5] == '/' && "/users"@[5] == 's' && "/users/"@[5] == 's');
    assert(!spec_is_index_path(p) && !spec_is_users_path(p));
    assert(p.subrange(0, 6) =~= "/user/"@);
    let r = p.skip(6);
    assert(r =~= spec_dec(id as nat));
    assert(spec_is_digit(r.last()) && '/' as int == 47);
    assert(spec_item_digits(r) == r);
    assert(spec_item_rest(r));
    assert(spec_is_item_path(p));
    assert(spec_digits_val(r) == id as nat);
}

/// The bare create path is the item route carrying no identifier.
pub proof fn lemma_classify_create_path()
    ensures
        spec_classify("/user/"@) == Route::UserItem(None::<UserId>),
{
    reveal_strlit("/user/");
    reveal_strlit("/");
    reveal_strlit("/index");
    reveal_strlit("/index.html");
    reveal_strlit("/users");
    reveal_strlit("/users/");
    assert("/user/"@[1] == 'u' && "/index"@[1] == 'i');
    assert("/user/"@ != "/index"@);
    assert("/user/"@ != "/index.html"@);
    assert("/user/"@[5] == '/' && "/users"@[5] == 's');
    assert("/user/"@ != "/users"@);
    assert("/user/"@ != "/users/"@);
    assert("/user/"@ != "/"@);
    assert(!spec_is_index_path("/user/"@) && !spec_is_users_path("/user/"@));
    assert("/user/"@.subrange(0, 6) =~= "/user/"@);
    assert("/user/"@.skip(6) =~= Seq::<char>::empty());
}

/// Classify a request path into its route.
pub fn classify(path: &str) -> (r: Route)
    ensures
        r == spec_classify(path@),
{
    if str_eq(path, "/") || str_eq(path, "/index") || str_eq(path, "/index.html") {
        Route::Index
    } else if str_eq(path, "/users") || str_eq(path, "/users/") {
        Route::UserCollection
    } else {
        let n = path.unicode_len();
        if n >= 6 {
            let head = path.substring_char(0, 6);
            if str_eq(head, "/user/") {
                let rest = path.substring_char(6, n);
                proof {
                    assert(rest@ == path@.skip(6));
                }
                classify_item_rest(rest)
            } else {
                Route::NotFound
            }
        } else {
            proof {
                assert(!spec_is_item_path(path@));
            }
            Route::NotFound
        }
    }
}

} // verus!
