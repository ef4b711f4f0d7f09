//! GitHub reference parsing: a declarative GitHub source names its repository
//! as `owner/repo`, and an unparseable identifier is a malformed-reference
//! error, distinct from any network failure.
use vstd::prelude::*;

use crate::Error;

verus! {

/// `i` is the one and only `/` in `s`.
pub open spec fn single_slash(s: Seq<char>, i: int) -> bool {
    &&& 0 <= i < s.len()
    &&& s[i] == '/'
    &&& forall|j: int| 0 <= j < s.len() && s[j] == '/' ==> j == i
}

/// A well-formed reference: exactly one `/`, with a nonempty owner before it
/// and a nonempty repository name after it.
pub open spec fn well_formed_reference(s: Seq<char>) -> bool {
    exists|i: int| single_slash(s, i) && 0 < i < s.len() - 1
}

/// Split an `owner/repo` reference, rejecting every other shape.
pub fn parse_reference(reference: &str) -> (r: Result<(String, String), Error>)
    ensures
        r is Ok <==> well_formed_reference(reference@),
        r matches Ok(p) ==> exists|i: int|
            single_slash(reference@, i) && 0 < i < reference@.len() - 1 && p.0@
                == reference@.subrange(0, i) && p.1@ == reference@.subrange(
                i + 1,
                reference@.len() as int,
            ),
        r matches Err(e) ==> e matches Error::MalformedGitHubReference(t) && t@ == reference@,
{
    let len = reference.unicode_len();
    let mut slash: Option<usize> = None;
    let mut i: usize = 0;
    while i < len
        invariant
            len == reference@.len(),
            i <= len,
            slash is None ==> forall|j: int| 0 <= j < i ==> reference@[j] != '/',
            slash matches Some(k) ==> k < i && reference@[k as int] == '/' && forall|j: int|
                0 <= j < i && j != k ==> reference@[j] != '/',
        decreases len - i,
    {
        if reference.get_char(i) == '/' {
            match slash {
                Some(k) => {
                    proof {
                        assert forall|m: int| !single_slash(reference@, m) by {
                            if single_slash(reference@, m) {
                                assert(reference@[k as int] == '/');
                                assert(reference@[i as int] == '/');
                            }
                        }
                    }
                    return Err(Error::MalformedGitHubReference(reference.to_owned()));
                },
                None => {
                    slash = Some(i);
                },
            }
        }
        i = i + 1;
    }
    match slash {
        Some(k) => {
            if k == 0 || k == len - 1 {
                proof {
                    assert forall|m: int| !(single_slash(reference@, m) && 0 < m < reference@.len()
                        - 1) by {
                        if single_slash(reference@, m) {
                            assert(m == k as int);
                        }
                    }
                }
                Err(Error::MalformedGitHubReference(reference.to_owned()))
            } else {
                let owner = reference.substring_char(0, k).to_owned();
                let repo = reference.substring_char(k + 1, len).to_owned();
                proof {
                    assert(single_slash(reference@, k as int));
                }
                Ok((owner, repo))
            }
        },
        None => {
            proof {
                assert forall|m: int| !single_slash(reference@, m) by {
                    if single_slash(reference@, m) {
                        assert(reference@[m] == '/');
                    }
                }
            }
            Err(Error::MalformedGitHubReference(reference.to_owned()))
        },
    }
}

} // verus!
