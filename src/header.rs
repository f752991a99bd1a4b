use vstd::prelude::*;

verus! {

/// The scheme that an authorization header names before its token.
pub open spec fn bearer_prefix() -> Seq<char> {
    "Bearer "@
}

/// Whether `h` starts with `p`.
pub open spec fn starts_with(h: Seq<char>, p: Seq<char>) -> bool {
    p.len() <= h.len() && h.take(p.len() as int) == p
}

/// The session token of an authorization header: what follows `Bearer `.
/// A missing header, or one of another scheme, gives none.
pub fn extract_token(header: Option<&str>) -> (r: Option<String>)
    ensures
        r is Some <==> (header matches Some(h) && starts_with(h@, bearer_prefix())),
        r matches Some(t) ==> t@ == header->Some_0@.skip(bearer_prefix().len() as int),
{
    let h = match header {
        Some(h) => h,
        None => {
            return None;
        },
    };
    let prefix = "Bearer ";
    proof {
        reveal_strlit("Bearer ");
    }
    let n = prefix.unicode_len();
    let len = h.unicode_len();
    if len < n {
        return None;
    }
    let mut i: usize = 0;
    while i < n
        invariant
            n == prefix@.len(),
            header == Some(h),
            prefix@ == bearer_prefix(),
            n <= len,
            len == h@.len(),
            i <= n,
            forall|k: int| 0 <= k < i ==> h@[k] == prefix@[k],
        decreases n - i,
    {
        if h.get_char(i) != prefix.get_char(i) {
            proof {
                assert(h@.take(n as int)[i as int] == h@[i as int]);
                assert(h@.take(n as int)[i as int] != bearer_prefix()[i as int]);
                assert(h@.take(n as int) != bearer_prefix());

            }
            return None;
        }
        i = i + 1;
    }
    proof {
        assert(h@.take(n as int) =~= prefix@);
    }
    let rest = h.substring_char(n, len);
    proof {
        assert(rest@ =~= h@.skip(n as int));
    }
    Some(String::from_str(rest))
}

} // verus!
