use vstd::prelude::*;
use vstd::string::*;

verus! {

/// The character for a single decimal digit value.
pub open spec fn spec_digit_char(d: nat) -> char {
    if d == 0 {
        '0'
    } else if d == 1 {
        '1'
    } else if d == 2 {
        '2'
    } else if d == 3 {
        '3'
    } else if d == 4 {
        '4'
    } else if d == 5 {
        '5'
    } else if d == 6 {
        '6'
    } else if d == 7 {
        '7'
    } else if d == 8 {
        '8'
    } else {
        '9'
    }
}

/// The decimal rendering of a natural number, most significant digit first,
/// with no leading zeros (zero itself renders as "0").
pub open spec fn spec_dec(n: nat) -> Seq<char>
    decreases n,
{
    if n < 10 {
        seq![spec_digit_char(n)]
    } else {
        spec_dec(n / 10).push(spec_digit_char(n % 10))
    }
}

/// A one-character string for a digit value.
fn digit_str(d: usize) -> (s: &'static str)
    requires
        d < 10,
    ensures
        s@ == seq![spec_digit_char(d as nat)],
{
    let s: &'static str = if d == 0 {
        "0"
    } else if d == 1 {
        "1"
    } else if d == 2 {
        "2"
    } else if d == 3 {
        "3"
    } else if d == 4 {
        "4"
    } else if d == 5 {
        "5"
    } else if d == 6 {
        "6"
    } else if d == 7 {
        "7"
    } else if d == 8 {
        "8"
    } else {
        "9"
    };
    proof {
        reveal_strlit("0");
        reveal_strlit("1");
        reveal_strlit("2");
        reveal_strlit("3");
        reveal_strlit("4");
        reveal_strlit("5");
        reveal_strlit("6");
        reveal_strlit("7");
        reveal_strlit("8");
        reveal_strlit("9");
        assert(s@ =~= seq![spec_digit_char(d as nat)]);
    }
    s
}

/// Render an identifier as decimal text.
pub fn usize_to_string(n: usize) -> (s: String)
    ensures
        s@ == spec_dec(n as nat),
    decreases n,
{
    if n < 10 {
        String::from_str(digit_str(n))
    } else {
        proof {
            assert(n / 10 < n) by (nonlinear_arith)
                requires
                    n >= 10,
            ;
        }
        let mut s = usize_to_string(n / 10);
        s.append(digit_str(n % 10));
        proof {
            assert(s@ =~= spec_dec(n as nat));
        }
        s
    }
}

/// The comma-joined decimal rendering of a sequence of identifiers.
pub open spec fn spec_join_ids(ids: Seq<usize>) -> Seq<char>
    decreases ids.len(),
{
    if ids.len() == 0 {
        Seq::empty()
    } else if ids.len() == 1 {
        spec_dec(ids[0] as nat)
    } else {
        spec_join_ids(ids.drop_last()) + seq![','] + spec_dec(ids.last() as nat)
    }
}

proof fn lemma_join_take_step(ids: Seq<usize>, i: int)
    requires
        0 <= i < ids.len(),
    ensures
        spec_join_ids(ids.take(i + 1)) == if i == 0 {
            spec_dec(ids[0] as nat)
        } else {
            spec_join_ids(ids.take(i)) + seq![','] + spec_dec(ids[i] as nat)
        },
{
    let t = ids.take(i + 1);
    assert(t.drop_last() =~= ids.take(i));
    assert(t.last() == ids[i]);
    if i == 0 {
        assert(spec_join_ids(t) == spec_dec(t[0] as nat));
    }
}

/// Join identifiers with commas, as the user listing body.
pub fn join_ids(ids: &Vec<usize>) -> (s: String)
    ensures
        s@ == spec_join_ids(ids@),
{
    let mut s = String::new();
    let mut i: usize = 0;
    while i < ids.len()
        invariant
            0 <= i <= ids@.len(),
            s@ == spec_join_ids(ids@.take(i as int)),
        decreases ids@.len() - i,
    {
        if i > 0 {
            s.append(",");
            proof {
                reveal_strlit(",");
                assert(","@ =~= seq![',']);
            }
        }
        let d = usize_to_string(ids[i]);
        s.append(d.as_str());
        proof {
            lemma_join_take_step(ids@, i as int);
            assert(s@ =~= spec_join_ids(ids@.take(i + 1 as int)));
        }
        i += 1;
    }
    proof {
        assert(ids@.take(ids@.len() as int) =~= ids@);
    }
    s
}

/// Character-for-character string equality, with the views' equality as its
/// meaning.
pub fn str_eq(a: &str, b: &str) -> (r: bool)
    ensures
        r == (a@ == b@),
{
    let n = a.unicode_len();
    if n != b.unicode_len() {
        return false;
    }
    let mut i: usize = 0;
    while i < n
        invariant
            n == a@.len(),
            n == b@.len(),
            0 <= i <= n,
            forall|k: int| 0 <= k < i ==> a@[k] == b@[k],
        decreases n - i,
    {
        let ca = a.get_char(i);
        let cb = b.get_char(i);
        if ca != cb {
            return false;
        }
        i += 1;
    }
    proof {
        assert(a@ =~= b@);
    }
    true
}

} // verus!
