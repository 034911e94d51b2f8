//! Bearer tokens of the local services.

use vstd::prelude::*;

use crate::text;

verus! {

/// Status of a refused request.
pub const UNAUTHORIZED: u16 = 401;

/// Whether an `Authorization` header carries the expected token.
pub open spec fn authorized(header: Option<Seq<char>>, expected: Seq<char>) -> bool {
    header == Some("Bearer "@ + expected)
}

/// Checks the `Authorization` header of a request; none when it is missing
/// or is no text.
pub fn validate_bearer(header: Option<&str>, expected: &str) -> (r: Result<(), u16>)
    ensures
        match r {
            Ok(_) => authorized(text::str_opt(header), expected@),
            Err(status) => !authorized(text::str_opt(header), expected@) && status == UNAUTHORIZED,
        },
{
    let value: &str = match header {
        Some(v) => v,
        None => {
            return Err(UNAUTHORIZED);
        },
    };
    match text::after_prefix(value, "Bearer ") {
        Some(token) => {
            if text::same(token, expected) {
                Ok(())
            } else {
                proof {
                    if value@ == "Bearer "@ + expected@ {
                        let n = "Bearer "@.len() as int;
                        assert(value@.skip(n) =~= token@);
                        assert(value@.skip(n) =~= expected@);
                    }
                }
                Err(UNAUTHORIZED)
            }
        },
        None => {
            proof {
                if value@ == "Bearer "@ + expected@ {
                    assert(value@.subrange(0, "Bearer "@.len() as int) =~= "Bearer "@);
                }
            }
            Err(UNAUTHORIZED)
        },
    }
}

/// A request passes exactly when its header is `Bearer `, a single blank and
/// the token, letter for letter; without a header it never does.
pub proof fn law_bearer_letter_for_letter(header: Option<&str>, expected: &str, r: Result<(), u16>)
    requires
        call_ensures(validate_bearer, (header, expected), r),
    ensures
        header is None ==> r == Err::<(), u16>(401),
        header matches Some(h) ==> (r is Ok <==> h@.len() == 7 + expected@.len() && h@.take(7)
            == "Bearer "@ && h@.skip(7) == expected@),
        r matches Err(status) ==> status == 401,
        authorized(text::str_opt(header), expected@) <==> r is Ok,
{
    reveal_strlit("Bearer ");
    match header {
        Some(h) => {
            let want = "Bearer "@ + expected@;
            if h@ == want {
                assert(want.take(7) =~= "Bearer "@);
                assert(want.skip(7) =~= expected@);
            }
            if h@.len() == 7 + expected@.len() && h@.take(7) == "Bearer "@ && h@.skip(7)
                == expected@ {
                assert(h@ =~= h@.take(7) + h@.skip(7));
            }
        },
        None => {},
    }
}

} // verus!
