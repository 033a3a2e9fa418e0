//! Helpers for the requests made to the brokerage's REST interface.
use vstd::prelude::*;

use crate::text::{chars_of, find_first, first_occurrence, occurs_at, string_of};

verus! {

/// The account number in a URL masked: after the first `accounts/`, every character up to
/// the next `/` (or the end) becomes `*`.
pub open spec fn obfuscated(url: Seq<char>) -> Seq<char> {
    if exists|i: int| first_occurrence(url, "accounts/"@, i) {
        let start = (choose|i: int| first_occurrence(url, "accounts/"@, i)) + 9;
        Seq::new(
            url.len(),
            |k: int|
                if k >= start && forall|j: int| start <= j <= k ==> url[j] != '/' {
                    '*'
                } else {
                    url[k]
                },
        )
    } else {
        url
    }
}

/// Masks the account number in `url`, for URLs that go into error messages.
pub fn obfuscate_account_url(url: &str) -> (r: String)
    ensures
        r@ == obfuscated(url@),
{
    let s = chars_of(url);
    let pat = chars_of("accounts/");
    proof {
        reveal_strlit("accounts/");
    }
    let i = match find_first(&s, &pat) {
        Some(i) => i,
        None => {
            assert forall|j: int| !first_occurrence(url@, "accounts/"@, j) by {
                assert(!occurs_at(s@, pat@, j));
            }
            return string_of(&s);
        },
    };
    assert(pat@.len() == 9);
    assert(first_occurrence(url@, "accounts/"@, i as int));
    let ghost start = i + 9;
    proof {
        let c = choose|c: int| first_occurrence(url@, "accounts/"@, c);
        assert(first_occurrence(url@, "accounts/"@, c));
        if c < i {
            assert(!occurs_at(s@, pat@, c));
        }
        if i < c {
            assert(!occurs_at(s@, pat@, i as int));
        }
    }
    let mut out: Vec<char> = Vec::new();
    let mut k: usize = 0;
    let mut separator_found = false;
    while k < s.len()
        invariant
            k <= s.len(),
            s@ == url@,
            start == i + 9,
            i + 9 <= s.len(),
            out.len() == k,
            separator_found <==> (k > start && exists|j: int| start <= j < k && s@[j] == '/'),
            forall|m: int|
                0 <= m < k ==> #[trigger] out@[m] == if m >= start && forall|j: int|
                    start <= j <= m ==> s@[j] != '/' {
                    '*'
                } else {
                    s@[m]
                },
        decreases s.len() - k,
    {
        let ch = s[k];
        let ghost before = out@;
        if k < i + 9 || separator_found {
            out.push(ch);
        } else if ch == '/' {
            separator_found = true;
            out.push(ch);
        } else {
            out.push('*');
        }
        assert forall|m: int|
            0 <= m < k + 1 implies #[trigger] out@[m] == if m >= start && forall|j: int|
                start <= j <= m ==> s@[j] != '/' {
                '*'
            } else {
                s@[m]
            } by {
            if m < k {
                assert(out@[m] == before[m]);
            }
        }
        k = k + 1;
    }
    assert(out@ =~= obfuscated(url@));
    string_of(&out)
}

} // verus!
