//! Origin/Referer checks for cookie-authenticated mutating requests.
use vstd::prelude::*;
use crate::http::HttpStatus;
use crate::text::{
    chars_of, contains, find_chars, first_index, occurs_at, owned, string_from, views,
};

verus! {

/// Validates Origin/Referer for mutating requests.
pub struct CsrfGuard;

/// The HTTP method of a request, as far as CSRF checks care.
#[derive(Clone, Copy, Debug, PartialEq, Eq, Structural)]
pub enum RequestMethod {
    Get,
    Head,
    Options,
    Post,
    Put,
    Patch,
    Delete,
    Other,
}

/// Methods that change state and so need an allowed Origin or Referer.
pub open spec fn is_mutating(m: RequestMethod) -> bool {
    m == RequestMethod::Post || m == RequestMethod::Put || m == RequestMethod::Patch || m
        == RequestMethod::Delete
}

/// The part of a string before the first `#`.
pub open spec fn before_fragment(s: Seq<char>) -> Seq<char> {
    s.take(first_index(s, |c: char| c == '#') as int)
}

/// `i` is the first position of `p` in `s`.
pub open spec fn first_occurrence(s: Seq<char>, p: Seq<char>, i: int) -> bool {
    occurs_at(s, p, i) && forall|j: int| 0 <= j < i ==> !#[trigger] occurs_at(s, p, j)
}

/// The origin `scheme://authority` of a referer whose `://` starts at `i` of the
/// fragment-free part `w`.
pub open spec fn origin_at(w: Seq<char>, i: int) -> Seq<char> {
    let rest = w.skip(i + 3);
    w.take(i) + "://"@ + rest.take(first_index(rest, |c: char| c == '/') as int)
}

/// Whether the allow-list holds a value.
pub open spec fn allows(allowed: Seq<String>, v: Seq<char>) -> bool {
    views(allowed).contains(v)
}

/// The scheme and authority of a Referer URL; `None` when it has no `://`.
pub fn referer_origin(referer: &str) -> (r: Option<String>)
    ensures
        r is None <==> !contains(before_fragment(referer@), "://"@),
        r matches Some(o) ==> exists|i: int|
            first_occurrence(before_fragment(referer@), "://"@, i) && o@ == origin_at(
                before_fragment(referer@),
                i,
            ),
{
    let all = chars_of(referer);
    assert(all@.skip(0) =~= all@);
    let mut cut: usize = 0;
    while cut < all.len() && all[cut] != '#'
        invariant
            cut <= all@.len(),
            forall|j: int| 0 <= j < cut ==> all@[j] != '#',
            first_index(all@, |c: char| c == '#') == cut + first_index(all@.skip(cut as int), |c: char| c == '#'),
        decreases all@.len() - cut,
    {
        proof {
            assert(all@.skip(cut as int)[0] == all@[cut as int]);
            assert(all@.skip(cut as int).drop_first() =~= all@.skip(cut + 1));
        }
        cut = cut + 1;
    }
    proof {
        if cut < all@.len() {
            assert(all@.skip(cut as int)[0] == all@[cut as int]);
        }
    }
    let mut w: Vec<char> = Vec::new();
    let mut i: usize = 0;
    while i < cut
        invariant
            cut <= all@.len(),
            i <= cut,
            w@ == all@.take(i as int),
        decreases cut - i,
    {
        w.push(all[i]);
        i = i + 1;
        assert(w@ =~= all@.take(i as int));
    }
    assert(w@ == before_fragment(referer@));
    let sep = chars_of("://");
    proof {
        reveal_strlit("://");
    }
    match find_chars(w.as_slice(), sep.as_slice()) {
        None => None,
        Some(at) => {
            assert(occurs_at(w@, sep@, at as int));
            assert(sep@.len() == 3);
            let ghost rest_spec = w@.skip(at + 3);
            let mut k: usize = at + 3;
            while k < w.len() && w[k] != '/'
                invariant
                    at + 3 <= k <= w@.len(),
                    rest_spec == w@.skip(at + 3),
                    first_index(rest_spec, |c: char| c == '/') == (k - at - 3) + first_index(
                        w@.skip(k as int),
                        |c: char| c == '/',
                    ),
                decreases w@.len() - k,
            {
                proof {
                    assert(w@.skip(k as int)[0] == w@[k as int]);
                    assert(w@.skip(k as int).drop_first() =~= w@.skip(k + 1));
                }
                k = k + 1;
            }
            proof {
                assert(occurs_at(w@, sep@, at as int));
                assert(w@.skip(at + 3) =~= rest_spec);
                if k < w@.len() {
                    assert(w@.skip(k as int)[0] == w@[k as int]);
                }
                assert(first_occurrence(w@, "://"@, at as int));
            }
            let mut out: Vec<char> = Vec::new();
            let hi = at + 3;
            let mut j: usize = 0;
            while j < hi
                invariant
                    hi == at + 3,
                    hi <= w@.len(),
                    j <= hi,
                    out@ == w@.take(j as int),
                decreases hi - j,
            {
                out.push(w[j]);
                j = j + 1;
                assert(out@ =~= w@.take(j as int));
            }
            let mut m: usize = at + 3;
            while m < k
                invariant
                    at + 3 <= m <= k <= w@.len(),
                    out@ == w@.take(m as int),
                decreases k - m,
            {
                out.push(w[m]);
                m = m + 1;
                assert(out@ =~= w@.take(m as int));
            }
            proof {
                assert(w@.subrange(at as int, at + 3) =~= sep@);
                assert(out@ =~= origin_at(w@, at as int));
            }
            Some(string_from(out.as_slice()))
        },
    }
}

fn allowed_contains(allowed: &[String], v: &str) -> (r: bool)
    ensures
        r == allows(allowed@, v@),
{
    let target = owned(v);
    let mut i: usize = 0;
    while i < allowed.len()
        invariant
            i <= allowed@.len(),
            target@ == v@,
            forall|j: int| 0 <= j < i ==> allowed@[j]@ != v@,
        decreases allowed@.len() - i,
    {
        if allowed[i] == target {
            assert(views(allowed@)[i as int] == v@);
            return true;
        }
        i = i + 1;
    }
    assert forall|j: int| 0 <= j < views(allowed@).len() implies views(allowed@)[j] != v@ by {
        assert(views(allowed@)[j] == allowed@[j]@);
    }
    false
}

/// Whether a request passes the CSRF check: non-mutating methods always do; a mutating
/// request needs its Origin, or failing an Origin its Referer's origin, on the allow-list.
pub open spec fn csrf_ok(
    method: RequestMethod,
    origin: Option<Seq<char>>,
    referer_origin_of: Option<Seq<char>>,
    has_referer: bool,
    allowed: Seq<String>,
) -> bool {
    if !is_mutating(method) {
        true
    } else if origin is Some {
        allows(allowed, origin->0)
    } else if has_referer {
        referer_origin_of is Some && allows(allowed, referer_origin_of->0)
    } else {
        false
    }
}

/// Validates the Origin or Referer of a mutating request against the allow-list;
/// rejections are `Forbidden`.
pub fn validate_csrf_origin(
    method: RequestMethod,
    origin: Option<&str>,
    referer: Option<&str>,
    allowed: &[String],
) -> (r: Result<(), HttpStatus>)
    ensures
        r is Ok || r == Err::<(), HttpStatus>(HttpStatus::Forbidden),
        !is_mutating(method) ==> r is Ok,
        is_mutating(method) && origin is Some ==> (r is Ok <==> allows(allowed@, origin->0@)),
        is_mutating(method) && origin is None && referer is None ==> r is Err,
        is_mutating(method) && origin is None && referer is Some ==> (r is Ok <==> (contains(
            before_fragment(referer->0@),
            "://"@,
        ) && exists|i: int|
            first_occurrence(before_fragment(referer->0@), "://"@, i) && allows(
                allowed@,
                origin_at(before_fragment(referer->0@), i),
            ))),
{
    match method {
        RequestMethod::Post | RequestMethod::Put | RequestMethod::Patch
        | RequestMethod::Delete => {},
        _ => {
            return Ok(());
        },
    }
    if let Some(o) = origin {
        if allowed_contains(allowed, o) {
            return Ok(());
        }
        return Err(HttpStatus::Forbidden);
    }
    if let Some(rf) = referer {
        if let Some(o) = referer_origin(rf) {
            if allowed_contains(allowed, o.as_str()) {
                return Ok(());
            }
            proof {
                assert forall|i: int|
                    first_occurrence(before_fragment(rf@), "://"@, i) implies !allows(
                    allowed@,
                    origin_at(before_fragment(rf@), i),
                ) by {
                    let i0 = choose|i0: int|
                        first_occurrence(before_fragment(rf@), "://"@, i0) && o@ == origin_at(
                            before_fragment(rf@),
                            i0,
                        );
                    if i < i0 {
                        assert(!occurs_at(before_fragment(rf@), "://"@, i));
                    } else if i > i0 {
                        assert(!occurs_at(before_fragment(rf@), "://"@, i0));
                    }
                }
            }
            return Err(HttpStatus::Forbidden);
        }
        return Err(HttpStatus::Forbidden);
    }
    Err(HttpStatus::Forbidden)
}

} // verus!
