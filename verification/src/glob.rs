//! Host names against patterns with `*` and `?`.
use vstd::prelude::*;

verus! {

pub const STAR: u8 = 0x2a;

pub const ANY: u8 = 0x3f;

/// The ASCII lower case of a byte.
pub open spec fn lower_byte(b: u8) -> u8 {
    if 0x41 <= b <= 0x5a {
        (b + 32) as u8
    } else {
        b
    }
}

/// Whether a byte of a pattern stands for a byte of a name.
pub open spec fn fits(p: u8, n: u8) -> bool {
    p == ANY || lower_byte(p) == lower_byte(n)
}

/// Whether a name is an instance of a pattern: `?` stands for one byte, `*` for
/// any number of bytes, and letters of ASCII for themselves in either case.
pub open spec fn glob(p: Seq<u8>, n: Seq<u8>) -> bool
    decreases p.len() + n.len(),
{
    if p.len() == 0 {
        n.len() == 0
    } else if p[0] == STAR {
        glob(p.drop_first(), n) || (n.len() > 0 && glob(p, n.drop_first()))
    } else {
        n.len() > 0 && fits(p[0], n[0]) && glob(p.drop_first(), n.drop_first())
    }
}

/// Whether a pattern is stars only.
pub open spec fn stars_only(p: Seq<u8>) -> bool {
    forall|i: int| 0 <= i < p.len() ==> p[i] == STAR
}

/// How far a match can still be taken back.
pub open spec fn slack(n: Seq<u8>, star: Option<int>, retry: int) -> int {
    match star {
        Some(_) => n.len() - retry,
        None => n.len() as int + 1,
    }
}

/// Whether a position in a search is one.
pub open spec fn in_search(p: Seq<u8>, n: Seq<u8>, at: int, from: int, star: Option<int>, retry: int) -> bool {
    &&& 0 <= at <= p.len()
    &&& 0 <= from <= n.len()
    &&& star is Some ==> 0 <= star->0 < at && 0 <= retry <= from
}

/// A match from places in a pattern and a name on. A byte of the name that the
/// pattern's byte spells is taken first; a star is passed and remembered, with
/// the place in the name; where neither is possible, the last star takes one
/// more byte of the name.
pub open spec fn search(p: Seq<u8>, n: Seq<u8>, at: int, from: int, star: Option<int>, retry: int) -> bool
    decreases slack(n, star, retry), n.len() - from, p.len() - at,
{
    if !in_search(p, n, at, from, star, retry) {
        false
    } else if from == n.len() {
        stars_only(p.skip(at))
    } else if at < p.len() && fits(p[at], n[from]) {
        search(p, n, at + 1, from + 1, star, retry)
    } else if at < p.len() && p[at] == STAR {
        search(p, n, at + 1, from, Some(at), from)
    } else {
        match star {
            Some(previous) => search(p, n, previous + 1, retry + 1, star, retry + 1),
            None => false,
        }
    }
}

/// How many bytes of a pattern are no stars.
spec fn plain_bytes(p: Seq<u8>) -> nat
    decreases p.len(),
{
    if p.len() == 0 {
        0
    } else {
        plain_bytes(p.drop_first()) + (if p[0] == STAR {
            0nat
        } else {
            1nat
        })
    }
}

proof fn lemma_glob_needs_bytes(p: Seq<u8>, n: Seq<u8>)
    requires
        glob(p, n),
    ensures
        plain_bytes(p) <= n.len(),
    decreases p.len() + n.len(),
{
    if p.len() > 0 {
        if p[0] == STAR {
            if glob(p.drop_first(), n) {
                lemma_glob_needs_bytes(p.drop_first(), n);
            } else {
                lemma_glob_needs_bytes(p, n.drop_first());
            }
        } else {
            lemma_glob_needs_bytes(p.drop_first(), n.drop_first());
        }
    }
}

/// The end of a name is matched by stars only.
proof fn lemma_glob_at_end(p: Seq<u8>)
    ensures
        glob(p, Seq::empty()) == stars_only(p),
        plain_bytes(p) == 0 ==> stars_only(p),
    decreases p.len(),
{
    if p.len() > 0 {
        let rest = p.drop_first();
        lemma_glob_at_end(rest);
        if stars_only(rest) && p[0] == STAR {
            assert forall|i: int| 0 <= i < p.len() implies p[i] == STAR by {
                if i > 0 {
                    assert(p[i] == rest[i - 1]);
                }
            }
        }
        if stars_only(p) {
            assert forall|i: int| 0 <= i < rest.len() implies rest[i] == STAR by {
                assert(rest[i] == p[i + 1]);
            }
        }
    }
}

/// A stretch of a pattern without stars takes as many bytes.
proof fn lemma_stretch(p: Seq<u8>, n: Seq<u8>, a: int, b: int, k: int)
    requires
        0 <= a <= b <= p.len(),
        0 <= k <= n.len(),
        glob(p.skip(a), n.skip(k)),
        forall|i: int| a <= i < b ==> p[i] != STAR,
    ensures
        k + (b - a) <= n.len(),
        glob(p.skip(b), n.skip(k + (b - a))),
    decreases b - a,
{
    if a < b {
        assert(p.skip(a)[0] == p[a]);
        assert(p.skip(a).drop_first() =~= p.skip(a + 1));
        assert(n.skip(k).drop_first() =~= n.skip(k + 1));
        lemma_stretch(p, n, a + 1, b, k + 1);
    }
}

/// A stretch of a pattern without stars that fits can be passed.
proof fn lemma_passed(p: Seq<u8>, n: Seq<u8>, a: int, b: int, k: int)
    requires
        0 <= a <= b <= p.len(),
        0 <= k,
        k + (b - a) <= n.len(),
        forall|i: int| a <= i < b ==> p[i] != STAR,
        forall|i: int| a <= i < b ==> fits(#[trigger] p[i], n[k + (i - a)]),
    ensures
        glob(p.skip(a), n.skip(k)) == glob(p.skip(b), n.skip(k + (b - a))),
    decreases b - a,
{
    if a < b {
        assert(p.skip(a)[0] == p[a]);
        assert(n.skip(k)[0] == n[k]);
        assert(fits(p[a], n[k + (a - a)]));
        assert(p.skip(a).drop_first() =~= p.skip(a + 1));
        assert(n.skip(k).drop_first() =~= n.skip(k + 1));
        assert forall|i: int| a + 1 <= i < b implies fits(#[trigger] p[i], n[(k + 1) + (i - (a + 1))]) by {
            assert(fits(p[i], n[k + (i - a)]));
        }
        lemma_passed(p, n, a + 1, b, k + 1);
        assert((k + 1) + (b - (a + 1)) == k + (b - a));
    }
}

/// A star takes the bytes before a match.
proof fn lemma_star_takes(p: Seq<u8>, n: Seq<u8>, st: int, i: int, j: int)
    requires
        0 <= st < p.len(),
        p[st] == STAR,
        0 <= i <= j <= n.len(),
        glob(p.skip(st), n.skip(j)),
    ensures
        glob(p.skip(st), n.skip(i)),
    decreases j - i,
{
    if i < j {
        lemma_star_takes(p, n, st, i + 1, j);
        assert(n.skip(i).drop_first() =~= n.skip(i + 1));
        assert(p.skip(st)[0] == STAR);
    }
}

/// Where a star's match goes on.
proof fn lemma_star_stops(p: Seq<u8>, n: Seq<u8>, st: int, i: int) -> (k: int)
    requires
        0 <= st < p.len(),
        p[st] == STAR,
        0 <= i <= n.len(),
        glob(p.skip(st), n.skip(i)),
    ensures
        i <= k <= n.len(),
        glob(p.skip(st + 1), n.skip(k)),
    decreases n.len() - i,
{
    assert(p.skip(st)[0] == STAR);
    assert(p.skip(st).drop_first() =~= p.skip(st + 1));
    if glob(p.skip(st + 1), n.skip(i)) {
        i
    } else {
        assert(n.skip(i).drop_first() =~= n.skip(i + 1));
        lemma_star_stops(p, n, st, i + 1)
    }
}

proof fn lemma_plain_stretch(p: Seq<u8>, a: int, b: int)
    requires
        0 <= a <= b <= p.len(),
        forall|i: int| a <= i < b ==> p[i] != STAR,
    ensures
        plain_bytes(p.skip(a)) == (b - a) + plain_bytes(p.skip(b)),
    decreases b - a,
{
    if a < b {
        assert(p.skip(a)[0] == p[a]);
        assert(p.skip(a).drop_first() =~= p.skip(a + 1));
        lemma_plain_stretch(p, a + 1, b);
    }
}

/// What is left to match at a place of a search.
spec fn remaining(p: Seq<u8>, n: Seq<u8>, at: int, from: int, star: Option<int>, retry: int) -> bool {
    match star {
        Some(st) => glob(p.skip(st), n.skip(retry)),
        None => glob(p.skip(at), n.skip(from)),
    }
}

/// Whether the bytes since the last star fit those since its match.
spec fn in_step(p: Seq<u8>, n: Seq<u8>, at: int, from: int, star: Option<int>, retry: int) -> bool {
    match star {
        Some(st) => {
            &&& p[st] == STAR
            &&& at - (st + 1) == from - retry
            &&& forall|i: int| st + 1 <= i < at ==> p[i] != STAR
            &&& forall|i: int| st + 1 <= i < at ==> fits(#[trigger] p[i], n[retry + (i - (st + 1))])
        },
        None => true,
    }
}

/// In a name without stars the search finds a match wherever there is one.
proof fn lemma_search_is_glob(p: Seq<u8>, n: Seq<u8>, at: int, from: int, star: Option<int>, retry: int)
    requires
        in_search(p, n, at, from, star, retry),
        in_step(p, n, at, from, star, retry),
        !n.contains(STAR),
    ensures
        search(p, n, at, from, star, retry) == remaining(p, n, at, from, star, retry),
    decreases slack(n, star, retry), n.len() - from, p.len() - at,
{
    if star is Some {
        let st = star->0;
        lemma_passed(p, n, st + 1, at, retry);
        assert(retry + (at - (st + 1)) == from);
        assert(p.skip(st)[0] == STAR);
        assert(p.skip(st).drop_first() =~= p.skip(st + 1));
        if retry < n.len() {
            assert(n.skip(retry).drop_first() =~= n.skip(retry + 1));
        }
        assert(glob(p.skip(st + 1), n.skip(retry)) == glob(p.skip(at), n.skip(from)));
    }
    if from == n.len() {
        assert(n.skip(from) =~= Seq::<u8>::empty());
        lemma_glob_at_end(p.skip(at));
        if star is Some && !stars_only(p.skip(at)) && retry < n.len() {
            let st = star->0;
            if glob(p.skip(st), n.skip(retry + 1)) {
                let k = lemma_star_stops(p, n, st, retry + 1);
                lemma_glob_needs_bytes(p.skip(st + 1), n.skip(k));
                lemma_plain_stretch(p, st + 1, at);
                assert(false);
            }
        }
        if star is Some && retry == n.len() {
            assert(n.skip(retry).len() == 0);
        }
    } else if at < p.len() && fits(p[at], n[from]) {
        assert(n.contains(n[from]));
        assert(p[at] != STAR);
        assert(p.skip(at)[0] == p[at]);
        assert(n.skip(from)[0] == n[from]);
        assert(p.skip(at).drop_first() =~= p.skip(at + 1));
        assert(n.skip(from).drop_first() =~= n.skip(from + 1));
        if star is Some {
            let st = star->0;
            assert forall|i: int| st + 1 <= i < at + 1 implies fits(#[trigger] p[i], n[retry + (i - (st + 1))]) by {
                if i == at {
                    assert(retry + (i - (st + 1)) == from);
                }
            }
        }
        lemma_search_is_glob(p, n, at + 1, from + 1, star, retry);
    } else if at < p.len() && p[at] == STAR {
        lemma_search_is_glob(p, n, at + 1, from, Some(at), from);
        if star is Some {
            let st = star->0;
            if glob(p.skip(st), n.skip(retry)) {
                let k = lemma_star_stops(p, n, st, retry);
                lemma_stretch(p, n, st + 1, at, k);
                lemma_star_takes(p, n, at, from, k + (at - (st + 1)));
            }
        }
    } else {
        if at < p.len() {
            assert(p.skip(at)[0] == p[at]);
            assert(n.skip(from)[0] == n[from]);
        }
        assert(!glob(p.skip(at), n.skip(from)));
        if star is Some {
            let st = star->0;
            lemma_search_is_glob(p, n, st + 1, retry + 1, star, retry + 1);
        }
    }
}

/// In a name that holds no star, the search finds out whether the name is an
/// instance of the pattern.
pub proof fn law_search_finds_instances(pattern: Seq<u8>, name: Seq<u8>)
    requires
        !name.contains(STAR),
    ensures
        search(pattern, name, 0, 0, None, 0) == glob(pattern, name),
{
    lemma_search_is_glob(pattern, name, 0, 0, None, 0);
    assert(pattern.skip(0) =~= pattern);
    assert(name.skip(0) =~= name);
}

fn byte_fits(p: u8, n: u8) -> (r: bool)
    ensures
        r == fits(p, n),
{
    let a: u8 = if 0x41 <= p && p <= 0x5a {
        p + 32
    } else {
        p
    };
    let b: u8 = if 0x41 <= n && n <= 0x5a {
        n + 32
    } else {
        n
    };
    p == ANY || a == b
}

/// Whether a name is an instance of a pattern. In a name that holds a star
/// itself, a star of the pattern that meets it stands for it alone.
pub fn wildcard(pattern: &[u8], name: &[u8]) -> (r: bool)
    ensures
        r == search(pattern@, name@, 0, 0, None, 0),
        !name@.contains(STAR) ==> r == glob(pattern@, name@),
{
    proof {
        if !name@.contains(STAR) {
            law_search_finds_instances(pattern@, name@);
        }
    }
    let mut p: usize = 0;
    let mut n: usize = 0;
    let mut star: Option<usize> = None;
    let mut retry: usize = 0;
    let ghost mut place: Option<int> = None;
    while n < name.len()
        invariant
            place == (match star {
                Some(at) => Some(at as int),
                None => None,
            }),
            in_search(pattern@, name@, p as int, n as int, place, retry as int),
            !name@.contains(STAR) ==> search(pattern@, name@, 0, 0, None, 0) == glob(pattern@, name@),
            search(pattern@, name@, 0, 0, None, 0) == search(
                pattern@,
                name@,
                p as int,
                n as int,
                place,
                retry as int,
            ),
        decreases slack(name@, place, retry as int), name.len() - n, pattern.len() - p,
    {
        if p < pattern.len() && byte_fits(pattern[p], name[n]) {
            p = p + 1;
            n = n + 1;
        } else if p < pattern.len() && pattern[p] == STAR {
            star = Some(p);
            proof {
                place = Some(p as int);
            }
            p = p + 1;
            retry = n;
        } else {
            match star {
                Some(previous) => {
                    retry = retry + 1;
                    n = retry;
                    p = previous + 1;
                },
                None => {
                    return false;
                },
            }
        }
    }
    let ghost at = p as int;
    while p < pattern.len() && pattern[p] == STAR
        invariant
            at <= p <= pattern.len(),
            forall|i: int| at <= i < p ==> pattern@[i] == STAR,
        decreases pattern.len() - p,
    {
        p = p + 1;
    }
    proof {
        let rest = pattern@.skip(at);
        if p == pattern.len() {
            assert forall|i: int| 0 <= i < rest.len() implies rest[i] == STAR by {
                assert(rest[i] == pattern@[at + i]);
            }
        } else {
            assert(rest[p - at] == pattern@[p as int]);
        }
    }
    p == pattern.len()
}

} // verus!
