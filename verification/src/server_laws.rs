//! Laws of what is kept of servers: what an origin is, whose feedback is kept and whose
//! is forgotten.
use vstd::prelude::*;
use crate::protocols::ProtocolTable;
use crate::server_stats::{
    fresh_entries, keepable, lemma_oldest, lemma_stat_at, lemma_stat_of, looked_up, made_room, observed, oldest,
    origin_of, origin_text, parsed_uri, since, stale, stat_of, ticked, with_stat, without_stat, AuthorityView,
    ServerFeedback, StatView, StatsView, UriView,
};
use crate::span::Span;
use crate::text::{
    char_from, decimal_digits, law_decimal_round_trip, lower, lower_text, same_but_case,
};

verus! {

/// What is kept of a server goes by its scheme, its host without regard to case, and its
/// port: neither path nor query matters.
pub proof fn law_origins_go_by_scheme_host_and_port(a: UriView, b: UriView, protocols: ProtocolTable)
    requires
        a.scheme == b.scheme,
        a.authority == b.authority,
    ensures
        origin_of(a, protocols) == origin_of(b, protocols),
{
}

/// The same host in other letters, at the same port, is the same origin; at another port it
/// is another.
pub proof fn law_origins_tell_ports_apart(
    scheme: Seq<char>,
    a: AuthorityView,
    b: AuthorityView,
    p: u16,
    q: u16,
    protocols: ProtocolTable,
    path: Seq<char>,
)
    requires
        a.port == Some(p),
        b.port == Some(q),
        same_but_case(a.host, b.host),
        !a.host.contains('[') && !a.host.contains(']'),
        !b.host.contains('[') && !b.host.contains(']'),
        origin_of(UriView { scheme: Some(scheme), authority: Some(a), path, query: None }, protocols) is Some,
        origin_of(UriView { scheme: Some(scheme), authority: Some(b), path, query: None }, protocols) is Some,
    ensures
        origin_of(UriView { scheme: Some(scheme), authority: Some(a), path, query: None }, protocols) == origin_of(
            UriView { scheme: Some(scheme), authority: Some(b), path, query: None },
            protocols,
        ) <==> p == q,
{
    lemma_bare(a.host);
    lemma_bare(b.host);
    let host = lower_text(a.host);
    assert(host =~= lower_text(b.host)) by {
        assert forall|i: int| 0 <= i < a.host.len() implies lower_text(a.host)[i] == lower_text(b.host)[i] by {
            assert(lower(a.host[i]) == lower(b.host[i]));
        }
    }
    if origin_text(scheme, host, p) == origin_text(scheme, host, q) {
        let head = if char_from(host, ':', 0) is Some {
            scheme + "://["@ + host + "]:"@
        } else {
            scheme + "://"@ + host + ":"@
        };
        let whole = origin_text(scheme, host, p);
        assert(whole.skip(head.len() as int) =~= decimal_digits(p as nat));
        assert(whole.skip(head.len() as int) =~= decimal_digits(q as nat));
        law_decimal_round_trip(p as nat, u16::MAX as int);
        law_decimal_round_trip(q as nat, u16::MAX as int);
    }
}

proof fn lemma_bare(host: Seq<char>)
    requires
        !host.contains('['),
        !host.contains(']'),
    ensures
        crate::server_stats::bare_host(host) == host,
{
    if host.len() > 0 {
        assert(host.contains(host[0]));
        assert(host.contains(host.last()));
    }
}

/// A URI without a port has the origin of the same URI with its protocol's port.
pub proof fn law_a_missing_port_is_the_protocols(
    scheme: Seq<char>,
    bare: AuthorityView,
    full: AuthorityView,
    protocols: ProtocolTable,
    path: Seq<char>,
)
    requires
        bare.port is None,
        protocols.spec_parse(scheme) is Some,
        full.port == Some(protocols.spec_parse(scheme)->0.default_port),
        bare.host == full.host,
        char_from(bare.text, ':', 0) is None,
        char_from(bare.text, '@', 0) is None,
        char_from(full.text, '@', 0) is None,
        crate::text::byte_len(bare.text) <= 500,
        crate::text::byte_len(full.text) <= 500,
    ensures
        origin_of(UriView { scheme: Some(scheme), authority: Some(bare), path, query: None }, protocols) == origin_of(
            UriView { scheme: Some(scheme), authority: Some(full), path, query: None },
            protocols,
        ),
{
}

/// Credentials never become part of an origin: a URI that names a user has none.
pub proof fn law_origins_hold_no_credentials(uri: UriView, protocols: ProtocolTable)
    requires
        uri.authority is Some,
        exists|i: int| 0 <= i < uri.authority->0.text.len() && uri.authority->0.text[i] == '@',
    ensures
        origin_of(uri, protocols) is None,
{
    let text = uri.authority->0.text;
    let at = choose|i: int| 0 <= i < text.len() && text[i] == '@';
    lemma_char_found(text, '@', 0, at);
}

proof fn lemma_char_found(s: Seq<char>, c: char, from: int, at: int)
    requires
        0 <= from <= at < s.len(),
        s[at] == c,
    ensures
        char_from(s, c, from) is Some,
    decreases at - from,
{
    if s[from] != c {
        lemma_char_found(s, c, from + 1, at);
    }
}

/// Fresh entries are those that are not stale.
proof fn lemma_fresh_members(entries: Seq<StatView>, now: u64, n: int)
    requires
        0 <= n <= entries.len(),
    ensures
        ({
            let fresh = fresh_entries(entries, now, n);
            &&& forall|k: int| 0 <= k < n && !stale(#[trigger] entries[k], now) ==> fresh.contains(entries[k])
            &&& forall|k: int|
                0 <= k < fresh.len() ==> !stale(#[trigger] fresh[k], now) && exists|i: int|
                    0 <= i < n && entries[i] == fresh[k]
        }),
    decreases n,
{
    if n > 0 {
        lemma_fresh_members(entries, now, n - 1);
        let before = fresh_entries(entries, now, n - 1);
        let fresh = fresh_entries(entries, now, n);
        assert forall|k: int| 0 <= k < n && !stale(#[trigger] entries[k], now) implies fresh.contains(entries[k]) by {
            if k < n - 1 {
                let at = before.index_of(entries[k]);
                assert(fresh[at] == entries[k]);
            } else {
                assert(fresh[before.len() as int] == entries[k]);
            }
        }
        assert forall|k: int| 0 <= k < fresh.len() implies !stale(#[trigger] fresh[k], now) && exists|i: int|
            0 <= i < n && entries[i] == fresh[k] by {
            if k < before.len() {
                assert(fresh[k] == before[k]);
                let i = choose|i: int| 0 <= i < n - 1 && entries[i] == before[k];
                assert(0 <= i < n && entries[i] == fresh[k]);
            } else {
                assert(entries[n - 1] == fresh[k]);
            }
        }
    }
}

/// The oldest entry was used no later than any other.
proof fn lemma_oldest_used(entries: Seq<StatView>, n: int)
    requires
        0 < n <= entries.len(),
    ensures
        forall|k: int| 0 <= k < n ==> entries[oldest(entries, n)->0].used <= (#[trigger] entries[k]).used,
    decreases n,
{
    lemma_oldest(entries, n);
    if n > 1 {
        lemma_oldest_used(entries, n - 1);
        lemma_oldest(entries, n - 1);
    }
}

/// Making room forgets what is stale, and beyond that at most one server, the one that was
/// used longest ago, and only where all places are taken.
proof fn lemma_room(stats: StatsView, now: u64, e: StatView)
    requires
        stats.entries.contains(e),
        !stale(e, now),
    ensures
        ({
            let room = made_room(stats, now);
            let fresh = fresh_entries(stats.entries, now, stats.entries.len() as int);
            &&& fresh.len() < stats.capacity ==> room.entries.contains(e)
            &&& room.entries.contains(e) || forall|k: int|
                0 <= k < room.entries.len() ==> e.used <= (#[trigger] room.entries[k]).used
        }),
{
    let fresh = fresh_entries(stats.entries, now, stats.entries.len() as int);
    lemma_fresh_members(stats.entries, now, stats.entries.len() as int);
    let at = stats.entries.index_of(e);
    assert(stats.entries[at] == e);
    assert(fresh.contains(e));
    let place = fresh.index_of(e);
    if fresh.len() >= stats.capacity && fresh.len() > 0 {
        let n = fresh.len() as int;
        lemma_oldest(fresh, n);
        lemma_oldest_used(fresh, n);
        let gone = oldest(fresh, n)->0;
        let room = fresh.remove(gone);
        if place < gone {
            assert(room[place] == e);
        } else if place > gone {
            assert(room[place - 1] == e);
        } else {
            assert forall|k: int| 0 <= k < room.len() implies e.used <= (#[trigger] room[k]).used by {
                assert(room[k] == fresh[if k < gone {
                    k
                } else {
                    k + 1
                }]);
            }
        }
    }
}

/// What is left after room was made was there before, and is not stale.
proof fn lemma_room_kept(stats: StatsView, now: u64)
    ensures
        forall|k: int|
            0 <= k < made_room(stats, now).entries.len() ==> stats.entries.contains(
                #[trigger] made_room(stats, now).entries[k],
            ) && !stale(made_room(stats, now).entries[k], now),
{
    let fresh = fresh_entries(stats.entries, now, stats.entries.len() as int);
    lemma_fresh_members(stats.entries, now, stats.entries.len() as int);
    let room = made_room(stats, now).entries;
    assert forall|k: int| 0 <= k < room.len() implies stats.entries.contains(#[trigger] room[k]) && !stale(
        room[k],
        now,
    ) by {
        if fresh.len() >= stats.capacity && fresh.len() > 0 {
            let n = fresh.len() as int;
            lemma_oldest(fresh, n);
            let gone = oldest(fresh, n)->0;
            assert(room == fresh.remove(gone));
            let at = if k < gone {
                k
            } else {
                k + 1
            };
            assert(room[k] == fresh[at]);
        } else {
            assert(room[k] == fresh[k]);
        }
    }
}

/// Observing a server leaves all others as they are. Beyond those that are stale, at most
/// that server is forgotten that was used longest ago, and only for a server that is new
/// where no place is free.
pub proof fn law_observing_leaves_other_servers(
    stats: StatsView,
    origin: Seq<char>,
    bytes: u64,
    elapsed: Span,
    succeeded: bool,
    now: u64,
    timeout_ms: u64,
)
    ensures
        ({
            let uri = parsed_uri(origin);
            let after = observed(stats, origin, uri, bytes, elapsed, succeeded, now, timeout_ms).1;
            &&& forall|k: int|
                0 <= k < after.entries.len() && (#[trigger] after.entries[k]).origin != origin ==> stats.entries.contains(
                    after.entries[k],
                )
            &&& stat_of(stats.entries, origin, 0) is Some ==> forall|e: StatView|
                #[trigger] stats.entries.contains(e) && e.origin != origin ==> after.entries.contains(e)
            &&& forall|e: StatView| #[trigger]
                stats.entries.contains(e) && e.origin != origin && !stale(e, now) ==> after.entries.contains(e) || (
                stats.entries.len() >= stats.capacity && forall|k: int|
                    0 <= k < after.entries.len() && (#[trigger] after.entries[k]).origin != origin ==> e.used
                        <= after.entries[k].used)
        }),
{
    let uri = parsed_uri(origin);
    let after = observed(stats, origin, uri, bytes, elapsed, succeeded, now, timeout_ms).1;
    let next = ticked(stats);
    let (held, held_stats) = with_stat(next, origin, now, timeout_ms);
    lemma_stat_of(stats.entries, origin, 0);
    lemma_stat_of(held_stats.entries, origin, 0);
    lemma_room_kept(next, now);
    let room = made_room(next, now);
    let i = stat_of(held_stats.entries, origin, 0)->0;
    if stats.capacity == 0 || timeout_ms == 0 || !keepable(origin, uri) {
    } else if stat_of(stats.entries, origin, 0) is Some {
        assert(held_stats == next);
        assert forall|e: StatView| #[trigger] stats.entries.contains(e) && e.origin != origin implies after.entries.contains(
            e,
        ) by {
            let at = stats.entries.index_of(e);
            assert(after.entries[at] == e);
        }
    } else {
        if held {
            let last = room.entries.len() as int;
            assert(held_stats.entries[last].origin == origin);
            assert forall|k: int| 0 <= k < last implies (#[trigger] room.entries[k]).origin != origin by {
                let at = stats.entries.index_of(room.entries[k]);
                assert(stats.entries[at].origin != origin);
            }
            assert(i == last) by {
                if i < last {
                    assert(held_stats.entries[i] == room.entries[i]);
                }
            }
        }
        assert forall|e: StatView| #[trigger]
            stats.entries.contains(e) && e.origin != origin && !stale(e, now) implies after.entries.contains(e) || (
        stats.entries.len() >= stats.capacity && forall|k: int|
            0 <= k < after.entries.len() && (#[trigger] after.entries[k]).origin != origin ==> e.used
                <= after.entries[k].used) by {
            lemma_room(next, now, e);
            lemma_fresh_len(next.entries, now, next.entries.len() as int);
            if room.entries.contains(e) {
                let at = room.entries.index_of(e);
                if held {
                    assert(held_stats.entries[at] == e);
                    assert(after.entries[at] == e);
                } else {
                    assert(after.entries[at] == e);
                }
            } else {
                assert forall|k: int|
                    0 <= k < after.entries.len() && (#[trigger] after.entries[k]).origin != origin implies e.used
                    <= after.entries[k].used by {
                    if held && k < room.entries.len() {
                        assert(held_stats.entries[k] == room.entries[k]);
                        assert(after.entries[k] == room.entries[k]);
                    } else if held {
                        assert(held_stats.entries[k].origin == origin);
                        assert(after.entries[k].origin == origin);
                    } else {
                        assert(after.entries[k] == room.entries[k]);
                    }
                }
            }
        }
        assert forall|k: int|
            0 <= k < after.entries.len() && (#[trigger] after.entries[k]).origin != origin implies stats.entries.contains(
            after.entries[k],
        ) by {
            if held {
                if k < room.entries.len() {
                    assert(held_stats.entries[k] == room.entries[k]);
                    assert(after.entries[k] == room.entries[k]);
                }
            } else {
                assert(after.entries[k] == room.entries[k]);
            }
        }
    }
}

proof fn lemma_fresh_len(entries: Seq<StatView>, now: u64, n: int)
    requires
        0 <= n <= entries.len(),
    ensures
        fresh_entries(entries, now, n).len() <= n,
    decreases n,
{
    if n > 0 {
        lemma_fresh_len(entries, now, n - 1);
    }
}

/// Feedback is read only while it is young: what was last observed its timeout ago or
/// longer, or the reader's, is not given.
pub proof fn law_old_feedback_is_not_given(stats: StatsView, origin: Seq<char>, now: u64, timeout_ms: u64, at: int)
    requires
        stats.valid(),
        0 <= at < stats.entries.len(),
        stats.entries[at].origin == origin,
    ensures
        ({
            let entry = stats.entries[at];
            let (read, left) = looked_up(stats, origin, now, timeout_ms);
            let age = if now >= entry.updated_ms {
                now - entry.updated_ms
            } else {
                0
            };
            &&& age >= entry.timeout_ms || age >= timeout_ms ==> read == (ServerFeedback {
                bytes_per_second: 0,
                samples: 0,
                failures: 0,
            })
            &&& age < entry.timeout_ms && age < timeout_ms ==> read == entry.feedback && (exists|k: int|
                0 <= k < left.entries.len() && (#[trigger] left.entries[k]).origin == origin && left.entries[k].feedback
                    == entry.feedback && forall|j: int|
                    0 <= j < left.entries.len() && j != k && stats.entries[j].used <= stats.tick
                        ==> (#[trigger] left.entries[j]).used <= left.entries[k].used)
        }),
{
    let entry = stats.entries[at];
    assert forall|k: int| 0 <= k < at implies (#[trigger] stats.entries[k]).origin != origin by {
    }
    lemma_stat_at(stats.entries, origin, 0, at);
    if timeout_ms > 0 {
        if stale(entry, now) {
            let rest = without_stat(ticked(stats), at).entries;
            lemma_stat_of(rest, origin, 0);
            if let Some(i) = stat_of(rest, origin, 0) {
                let was = if i < at {
                    i
                } else {
                    i + 1
                };
                assert(rest[i] == stats.entries[was]);
                if was < at {
                    assert(stats.entries[was].origin != stats.entries[at].origin);
                } else {
                    assert(stats.entries[at].origin != stats.entries[was].origin);
                }
            }
        } else if since(now, entry.updated_ms) < timeout_ms {
            let left = looked_up(stats, origin, now, timeout_ms).1;
            assert(left.entries[at].origin == origin);
            assert forall|j: int|
                0 <= j < left.entries.len() && j != at && stats.entries[j].used <= stats.tick implies (
            #[trigger] left.entries[j]).used <= left.entries[at].used by {
                assert(left.entries[j] == stats.entries[j]);
            }
        }
    }
}

} // verus!
