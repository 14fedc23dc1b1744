//! What holds of the registry and its operations on every input.

use vstd::prelude::*;
use crate::cache::{
    as_map, distinct_keys, has_key, lemma_close_keeps_keys, lemma_has_key, lemma_has_key_iff,
    lemma_map_ignores_order, lemma_move_to_end_keeps_map, lemma_push_keeps_distinct,
    lemma_remove_keeps_distinct, position,
};
use crate::connection::{started, ConnectionView};
use crate::error::CacheErrorView;
use crate::key::{key_of, lemma_key_is_injective};
use crate::authority::{
    authority_end, authority_start, is_digit, lemma_first_stop, port_colon_at, stops,
    writes_port, Stop,
};
use crate::link::{
    first_token_at, has_token, lemma_first_token_exists, lemma_token_at, parse_link, parts_of,
    token_name, written_port, LinkError, UrlFieldsView, UrlPartsView,
};
use crate::machine::{
    advance, open_tunnel, opened, probed, settle, signalled, spawned, takes_out, Next,
};
use crate::status::ConnectionStatus;
use crate::step::{
    done, BatchView, Kind, NoticeView, ProbingView, SignallingView, SpawningView, StepView,
};
use crate::store::{blank, loaded, plan_for, stored, tunnels, EntryView, LoadPlan};

verus! {

/// A link that writes a port and has a `token` parameter yields that port
/// and the value of the first such parameter. The port is the one the URL
/// reports or, where the link writes the default port of its scheme and
/// the URL therefore reports none, that default.
pub proof fn law_link_with_port_and_token(fields: UrlFieldsView, link: Seq<char>, port: u16)
    requires
        fields.port == Some(port) || (fields.port.is_none() && writes_port(link)
            && fields.port_or_default == Some(port)),
        has_token(fields.query),
    ensures
        parts_of(Some(fields), link) is Ok,
        parts_of(Some(fields), link)->Ok_0.port == port,
        exists|i: int|
            first_token_at(fields.query, i) && parts_of(Some(fields), link)->Ok_0.token
                == fields.query[i].1,
{
    let i = choose|i: int| 0 <= i < fields.query.len() && (#[trigger] fields.query[i]).0 == token_name();
    lemma_first_token_exists(fields.query, i);
    let k = choose|k: int| first_token_at(fields.query, k);
    lemma_token_at(fields.query, k);
}

/// A link is refused exactly where it is no URL, writes no port or has no
/// `token` parameter, each for its own reason; a missing port is reported
/// before a missing token.
pub proof fn law_link_without_port_or_token(fields: UrlFieldsView, link: Seq<char>)
    ensures
        parts_of(None, link) == Err::<UrlPartsView, LinkError>(LinkError::Malformed),
        parts_of(Some(fields), link) == Err::<UrlPartsView, LinkError>(LinkError::NoPort)
            <==> written_port(fields, link).is_none(),
        written_port(fields, link).is_none() <==> fields.port.is_none() && !(writes_port(link)
            && fields.port_or_default.is_some()),
        parts_of(Some(fields), link) == Err::<UrlPartsView, LinkError>(LinkError::NoToken)
            <==> written_port(fields, link).is_some() && !has_token(fields.query),
        parts_of(Some(fields), link) is Ok <==> written_port(fields, link).is_some() && has_token(
            fields.query,
        ),
{
}

/// A port is written where the link has a colon at `k` such that: a first
/// colon stands at `colon` before it; after that colon and the slashes up
/// to `start` the authority runs to `end`, the first slash, question mark
/// or hash; and from `k` to `end` there are only digits, at least one.
pub proof fn law_written_port_is_found(
    link: Seq<char>,
    colon: int,
    start: int,
    end: int,
    k: int,
)
    requires
        0 <= colon < start <= k < end - 1,
        end <= link.len(),
        link[colon] == ':',
        forall|j: int| 0 <= j < colon ==> #[trigger] link[j] != ':',
        forall|j: int| colon < j < start ==> !stops(Stop::PastSlashes, #[trigger] link[j]),
        stops(Stop::PastSlashes, link[start]),
        forall|j: int| start <= j < end ==> !stops(Stop::AuthorityEnd, #[trigger] link[j]),
        end < link.len() ==> stops(Stop::AuthorityEnd, link[end]),
        link[k] == ':',
        forall|j: int| k < j < end ==> is_digit(#[trigger] link[j]),
    ensures
        authority_start(link) == start,
        authority_end(link) == end,
        port_colon_at(link, k),
        writes_port(link),
{
    lemma_first_stop(link, 0, Stop::Colon, colon);
    lemma_first_stop(link, colon + 1, Stop::PastSlashes, start);
    lemma_first_stop(link, start, Stop::AuthorityEnd, end);
    assert(is_digit(link[k + 1]));
    assert(port_colon_at(link, k));
}

/// In the registry read as a mapping, every tunnel stands under its own
/// key, and two tunnels to the same host and port never stand side by side.
pub proof fn law_keys_are_derived(cache: Seq<ConnectionView>, key: Seq<char>, i: int, j: int)
    requires
        distinct_keys(cache),
    ensures
        as_map(cache).dom().contains(key) ==> as_map(cache)[key].key() == key,
        0 <= i < j < cache.len() ==> !(cache[i].host == cache[j].host && cache[i].port
            == cache[j].port),
{
    lemma_has_key_iff(cache, key);
    if 0 <= i < j < cache.len() {
        assert(cache[i].key() != cache[j].key());
    }
}

/// A key is taken only by a tunnel to the same host and port: a tunnel to
/// a host and port that the registry does not hold is never a duplicate.
pub proof fn law_key_is_taken_by_same_tunnel(cache: Seq<ConnectionView>, host: Seq<char>, port: u16)
    ensures
        has_key(cache, key_of(host, port)) <==> exists|i: int|
            0 <= i < cache.len() && (#[trigger] cache[i]).host == host && cache[i].port == port,
{
    lemma_has_key_iff(cache, key_of(host, port));
    if has_key(cache, key_of(host, port)) {
        let i = choose|i: int| 0 <= i < cache.len() && (#[trigger] cache[i]).key() == key_of(host, port);
        lemma_key_is_injective(cache[i].host, cache[i].port, host, port);
    }
    if exists|i: int| 0 <= i < cache.len() && (#[trigger] cache[i]).host == host && cache[i].port == port {
        let i = choose|i: int| 0 <= i < cache.len() && (#[trigger] cache[i]).host == host && cache[i].port == port;
        assert(cache[i].key() == key_of(host, port));
    }
}

/// A step is sound where the probe it may ask for names a process.
pub open spec fn sound(step: StepView) -> bool {
    step matches StepView::Probe(p) ==> p.connection.pid.is_some()
}

/// Dealing with one tunnel keeps the keys of the registry distinct.
pub proof fn law_settle_keeps_keys_distinct(
    cache: Seq<ConnectionView>,
    c: ConnectionView,
    batch: BatchView,
    alive: bool,
)
    requires
        distinct_keys(cache),
    ensures
        distinct_keys(settle(cache, c, batch, alive).0),
        settle(cache, c, batch, alive).1 matches Next::Stop(step) ==> sound(step),
{
    if batch.kind == Kind::Disconnect && has_key(cache, c.key()) {
        lemma_has_key_iff(cache, c.key());
        lemma_close_keeps_keys(cache, position(cache, c.key()));
    }
    if batch.kind == Kind::Reconnect && c.live_pid(alive).is_some() && !has_key(cache, c.key()) {
        lemma_push_keeps_distinct(cache, c);
    }
}

/// Whatever an operation does and whatever the operating system answers,
/// no two tunnels of the registry ever share a key, and every probe that
/// is asked for names a process.
pub proof fn law_keys_stay_distinct(cache: Seq<ConnectionView>, batch: BatchView)
    requires
        distinct_keys(cache),
    ensures
        distinct_keys(advance(cache, batch).0),
        sound(advance(cache, batch).1),
    decreases batch.keys.len(),
{
    if batch.keys.len() > 0 && batch.kind != Kind::Create && has_key(cache, batch.keys[0]) {
        let i = position(cache, batch.keys[0]);
        lemma_has_key_iff(cache, batch.keys[0]);
        lemma_remove_keeps_distinct(cache, i);
        let held = if takes_out(batch.kind) {
            cache.remove(i)
        } else {
            cache
        };
        if cache[i].pid.is_none() {
            law_settle_keeps_keys_distinct(held, cache[i], batch.rest(), false);
            let (after, next) = settle(held, cache[i], batch.rest(), false);
            match next {
                Next::Continue(b) => {
                    law_keys_stay_distinct(after, b);
                },
                Next::Stop(_) => {},
            }
        }
    }
}

/// The same holds of each answer that takes an operation further.
pub proof fn law_answers_keep_keys_distinct(
    cache: Seq<ConnectionView>,
    probing: ProbingView,
    alive: bool,
    spawning: SpawningView,
    pid: Option<u32>,
    signalling: SignallingView,
    delivered: bool,
)
    requires
        distinct_keys(cache),
    ensures
        distinct_keys(probed(cache, probing, alive).0),
        sound(probed(cache, probing, alive).1),
        distinct_keys(spawned(cache, spawning, pid).0),
        sound(spawned(cache, spawning, pid).1),
        distinct_keys(signalled(cache, signalling, delivered).0),
        sound(signalled(cache, signalling, delivered).1),
{
    law_settle_keeps_keys_distinct(cache, probing.connection, probing.batch, alive);
    let (after, next) = settle(cache, probing.connection, probing.batch, alive);
    match next {
        Next::Continue(b) => {
            law_keys_stay_distinct(after, b);
        },
        Next::Stop(_) => {},
    }
    if let Some(p) = pid {
        if let Ok(c) = started(spawning.link, spawning.host, p) {
            if !has_key(cache, c.key()) {
                lemma_push_keeps_distinct(cache, c);
                law_keys_stay_distinct(
                    cache.push(c),
                    spawning.batch.noted(opened(spawning.batch.kind, c)),
                );
            }
        }
    }
    if delivered {
        law_keys_stay_distinct(
            cache,
            signalling.batch.noted(
                NoticeView::Disconnected {
                    host: signalling.host,
                    port: signalling.port,
                    pid: signalling.pid,
                },
            ),
        );
    }
}

/// Once a tunnel has been registered under a key, registering another
/// tunnel with the same key fails with `DuplicateKey`, before anything is
/// asked of the operating system; `new_connection` leaves the registry as
/// it is.
pub proof fn law_second_create_is_refused(
    cache: Seq<ConnectionView>,
    first: SpawningView,
    pid: u32,
    link: Seq<char>,
    host: Seq<char>,
)
    requires
        distinct_keys(cache),
        first.batch == BatchView::fresh(Kind::Create, Seq::empty()),
        spawned(cache, first, Some(pid)).1 matches StepView::Done(o) && o.result is Ok,
        parse_link(link) is Ok,
        started(first.link, first.host, pid) is Ok,
        key_of_link(host, link) == started(first.link, first.host, pid)->Ok_0.key(),
    ensures
        has_key(spawned(cache, first, Some(pid)).0, key_of_link(host, link)),
        open_tunnel(
            spawned(cache, first, Some(pid)).0,
            host,
            link,
            BatchView::fresh(Kind::Create, Seq::empty()),
        ) == done(Seq::empty(), Err(CacheErrorView::DuplicateKey(key_of_link(host, link)))),
{
    let c = started(first.link, first.host, pid)->Ok_0;
    assert(!has_key(cache, c.key()));
    lemma_push_keeps_distinct(cache, c);
}

/// The key of the tunnel that a readable link and a host describe.
pub open spec fn key_of_link(host: Seq<char>, link: Seq<char>) -> Seq<char> {
    key_of(host, parse_link(link)->Ok_0.port)
}

/// Ending a tunnel's process twice leaves no process tracked after either
/// time, and the second time no process is named for a signal, whatever
/// the operating system says; the tunnel shows as disconnected.
pub proof fn law_termination_is_idempotent(c: ConnectionView, alive: bool)
    ensures
        c.closed().pid.is_none(),
        c.closed().closed() == c.closed(),
        c.closed().live_pid(alive).is_none(),
        c.closed().status(alive) == ConnectionStatus::Disconnected,
{
}

/// An operation on a key that is not registered fails with `KeyNotFound`
/// and changes nothing.
pub proof fn law_absent_key_is_reported(cache: Seq<ConnectionView>, kind: Kind, key: Seq<char>)
    requires
        kind != Kind::Create,
        !has_key(cache, key),
    ensures
        advance(cache, BatchView::fresh(kind, seq![key])) == (
            cache,
            done(Seq::empty(), Err(CacheErrorView::KeyNotFound(key))),
        ),
{
}

/// Disconnecting a registered tunnel keeps it in the registry, at its
/// place and under its key, with no process tracked. A signal is asked for
/// exactly where a process was tracked and found alive.
pub proof fn law_disconnect_keeps_tunnel(cache: Seq<ConnectionView>, key: Seq<char>, alive: bool)
    requires
        distinct_keys(cache),
        has_key(cache, key),
    ensures
        ({
            let i = position(cache, key);
            let begun = advance(cache, BatchView::fresh(Kind::Disconnect, seq![key]));
            let closed = cache.update(i, cache[i].closed());
            let idle = BatchView::fresh(Kind::Disconnect, Seq::empty());
            let ended = done(seq![NoticeView::AlreadyClosed], Ok(()));
            &&& has_key(closed, key) && position(closed, key) == i
            &&& cache[i].pid.is_none() ==> begun == (closed, ended)
            &&& cache[i].pid.is_some() ==> {
                &&& begun == (
                    cache,
                    StepView::Probe(ProbingView { connection: cache[i], batch: idle }),
                )
                &&& !alive ==> probed(cache, ProbingView { connection: cache[i], batch: idle }, alive)
                    == (closed, ended)
                &&& alive ==> probed(cache, ProbingView { connection: cache[i], batch: idle }, alive)
                    == (
                    closed,
                    StepView::Signal(
                        SignallingView {
                            pid: cache[i].pid->Some_0,
                            host: cache[i].host,
                            port: cache[i].port,
                            batch: idle,
                        },
                    ),
                )
            }
        }),
{
    let i = position(cache, key);
    lemma_has_key_iff(cache, key);
    let closed = cache.update(i, cache[i].closed());
    let whole = BatchView::fresh(Kind::Disconnect, seq![key]);
    let idle = BatchView::fresh(Kind::Disconnect, Seq::empty());
    assert(whole.rest() == idle) by {
        assert(seq![key].skip(1) =~= Seq::<Seq<char>>::empty());
    }
    lemma_close_keeps_keys(cache, i);
    assert(closed[i].key() == key);
    lemma_has_key(closed, key, i);
    let noted = idle.noted(NoticeView::AlreadyClosed);
    assert(noted.notices =~= seq![NoticeView::AlreadyClosed]);
    assert(advance(closed, noted) == (closed, done(noted.notices, Ok(()))));
    if cache[i].pid.is_none() {
        assert(cache[i].live_pid(false).is_none());
        assert(settle(cache, cache[i], idle, false) == (closed, Next::Continue(noted)));
    }
}

/// Dropping a registered tunnel takes it out of the registry at once, and
/// dropping the same key again fails with `KeyNotFound`.
pub proof fn law_drop_forgets_tunnel(cache: Seq<ConnectionView>, key: Seq<char>)
    requires
        distinct_keys(cache),
        has_key(cache, key),
    ensures
        ({
            let i = position(cache, key);
            let begun = advance(cache, BatchView::fresh(Kind::Drop, seq![key]));
            let idle = BatchView::fresh(Kind::Drop, Seq::empty());
            &&& begun.0 == cache.remove(i)
            &&& !has_key(begun.0, key)
            &&& cache[i].pid.is_none() ==> begun.1 == done(seq![NoticeView::AlreadyClosed], Ok(()))
            &&& cache[i].pid.is_some() ==> begun.1 == StepView::Probe(
                ProbingView { connection: cache[i], batch: idle },
            )
            &&& advance(begun.0, BatchView::fresh(Kind::Drop, seq![key])) == (
                begun.0,
                done(Seq::empty(), Err(CacheErrorView::KeyNotFound(key))),
            )
        }),
{
    let i = position(cache, key);
    lemma_has_key_iff(cache, key);
    lemma_remove_keeps_distinct(cache, i);
    let whole = BatchView::fresh(Kind::Drop, seq![key]);
    let idle = BatchView::fresh(Kind::Drop, Seq::empty());
    assert(whole.rest() == idle) by {
        assert(seq![key].skip(1) =~= Seq::<Seq<char>>::empty());
    }
    let noted = idle.noted(NoticeView::AlreadyClosed);
    assert(noted.notices =~= seq![NoticeView::AlreadyClosed]);
    assert(advance(cache.remove(i), noted) == (cache.remove(i), done(noted.notices, Ok(()))));
}

/// Reconnecting a tunnel whose process is alive starts no process: the
/// tunnel goes back into the registry as it was. Read as a mapping, the
/// registry is the same as before.
pub proof fn law_reconnect_spares_live_tunnel(cache: Seq<ConnectionView>, key: Seq<char>)
    requires
        distinct_keys(cache),
        has_key(cache, key),
        cache[position(cache, key)].pid.is_some(),
    ensures
        ({
            let i = position(cache, key);
            let idle = BatchView::fresh(Kind::Reconnect, Seq::empty());
            let waiting = ProbingView { connection: cache[i], batch: idle };
            &&& advance(cache, BatchView::fresh(Kind::Reconnect, seq![key])) == (
                cache.remove(i),
                StepView::Probe(waiting),
            )
            &&& probed(cache.remove(i), waiting, true) == (
                cache.remove(i).push(cache[i]),
                done(Seq::empty(), Ok(())),
            )
            &&& as_map(cache.remove(i).push(cache[i])) == as_map(cache)
        }),
{
    let i = position(cache, key);
    lemma_has_key_iff(cache, key);
    lemma_remove_keeps_distinct(cache, i);
    lemma_move_to_end_keeps_map(cache, i);
    let whole = BatchView::fresh(Kind::Reconnect, seq![key]);
    let idle = BatchView::fresh(Kind::Reconnect, Seq::empty());
    assert(whole.rest() == idle) by {
        assert(seq![key].skip(1) =~= Seq::<Seq<char>>::empty());
    }
    assert(advance(cache.remove(i).push(cache[i]), idle) == (
        cache.remove(i).push(cache[i]),
        done(Seq::empty(), Ok(())),
    ));
}

/// Reconnecting a tunnel whose process is gone asks for a new process for
/// the stored host and link. Where the stored port is the port of the
/// link, the tunnel comes back under its old key with the new process.
pub proof fn law_reconnect_revives_dead_tunnel(
    cache: Seq<ConnectionView>,
    key: Seq<char>,
    pid: u32,
)
    requires
        distinct_keys(cache),
        has_key(cache, key),
        parse_link(cache[position(cache, key)].link) is Ok,
        parse_link(cache[position(cache, key)].link)->Ok_0.port == cache[position(cache, key)].port,
    ensures
        ({
            let i = position(cache, key);
            let idle = BatchView::fresh(Kind::Reconnect, Seq::empty());
            let waiting = ProbingView { connection: cache[i], batch: idle };
            let asking = SpawningView {
                host: cache[i].host,
                port: cache[i].port,
                link: cache[i].link,
                batch: idle,
            };
            let revived = ConnectionView {
                pid: Some(pid),
                token: parse_link(cache[i].link)->Ok_0.token,
                ..cache[i]
            };
            let begun = advance(cache, BatchView::fresh(Kind::Reconnect, seq![key]));
            &&& revived.key() == key
            &&& cache[i].pid.is_none() ==> begun == (cache.remove(i), StepView::Spawn(asking))
            &&& cache[i].pid.is_some() ==> begun == (cache.remove(i), StepView::Probe(waiting))
                && probed(cache.remove(i), waiting, false) == (
                cache.remove(i),
                StepView::Spawn(asking),
            )
            &&& spawned(cache.remove(i), asking, Some(pid)) == (
                cache.remove(i).push(revived),
                done(seq![NoticeView::Reconnected { key }], Ok(())),
            )
        }),
{
    let i = position(cache, key);
    lemma_has_key_iff(cache, key);
    lemma_remove_keeps_distinct(cache, i);
    let whole = BatchView::fresh(Kind::Reconnect, seq![key]);
    let idle = BatchView::fresh(Kind::Reconnect, Seq::empty());
    assert(whole.rest() == idle) by {
        assert(seq![key].skip(1) =~= Seq::<Seq<char>>::empty());
    }
    let revived = ConnectionView {
        pid: Some(pid),
        token: parse_link(cache[i].link)->Ok_0.token,
        ..cache[i]
    };
    let noted = idle.noted(NoticeView::Reconnected { key });
    assert(noted.notices =~= seq![NoticeView::Reconnected { key }]);
    assert(advance(cache.remove(i).push(revived), noted) == (
        cache.remove(i).push(revived),
        done(noted.notices, Ok(())),
    ));
}

/// The first failure ends an operation. Where a signal cannot be delivered
/// or a process cannot be started, the operation is over with that error:
/// the keys that were left are not touched, nothing more is asked of the
/// operating system, and the registry stays as it was at that moment.
pub proof fn law_first_failure_ends_operation(
    cache: Seq<ConnectionView>,
    signalling: SignallingView,
    spawning: SpawningView,
)
    ensures
        signalled(cache, signalling, false) == (
            cache,
            done(signalling.batch.notices, Err(CacheErrorView::Signal(signalling.pid))),
        ),
        spawned(cache, spawning, None) == (
            cache,
            done(spawning.batch.notices, Err(CacheErrorView::Spawn)),
        ),
{
}

/// A registry that is stored and loaded again is the same registry: the
/// same tunnels under the same keys, tracked processes and their absence
/// included.
pub proof fn law_store_round_trip(cache: Seq<ConnectionView>)
    requires
        distinct_keys(cache),
    ensures
        loaded(stored(cache)) == Ok::<Seq<ConnectionView>, CacheErrorView>(cache),
{
    assert(tunnels(stored(cache)) =~= cache);
}

/// The order in which stored entries come back does not matter: whatever
/// order the entries of a registry are read in, they load, and the loaded
/// registry is the same mapping from keys to tunnels.
pub proof fn law_store_round_trip_in_any_order(
    cache: Seq<ConnectionView>,
    entries: Seq<EntryView>,
)
    requires
        distinct_keys(cache),
        entries.to_multiset() == stored(cache).to_multiset(),
    ensures
        loaded(entries) == Ok::<Seq<ConnectionView>, CacheErrorView>(tunnels(entries)),
        distinct_keys(tunnels(entries)),
        tunnels(entries).len() == cache.len(),
        as_map(tunnels(entries)) == as_map(cache),
{
    broadcast use vstd::seq_lib::group_to_multiset_ensures;

    let kept = stored(cache);
    let read = tunnels(entries);
    assert(kept.no_duplicates()) by {
        assert forall|i: int, j: int| 0 <= i < kept.len() && 0 <= j < kept.len() && i != j implies kept[i]
            != kept[j] by {
            if i < j {
                assert(cache[i].key() != cache[j].key());
            } else {
                assert(cache[j].key() != cache[i].key());
            }
        }
    }
    kept.lemma_multiset_has_no_duplicates();
    entries.lemma_multiset_has_no_duplicates_conv();
    assert forall|e: EntryView| entries.contains(e) <==> kept.contains(e) by {
        assert(entries.to_multiset().count(e) == kept.to_multiset().count(e));
    }
    assert forall|i: int| 0 <= i < entries.len() implies (#[trigger] entries[i]).key
        == entries[i].connection.key() && cache.contains(entries[i].connection) by {
        assert(entries.contains(entries[i]));
        let a = choose|a: int| 0 <= a < kept.len() && kept[a] == entries[i];
        assert(cache[a] == entries[i].connection);
    }
    assert forall|i: int, j: int| 0 <= i < j < read.len() implies (#[trigger] read[i]).key() != (
    #[trigger] read[j]).key() by {
        assert(entries[i].key == read[i].key());
        assert(entries[j].key == read[j].key());
        assert(cache.contains(read[i]));
        assert(cache.contains(read[j]));
        let a = choose|a: int| 0 <= a < cache.len() && cache[a] == read[i];
        let b = choose|b: int| 0 <= b < cache.len() && cache[b] == read[j];
        if read[i].key() == read[j].key() {
            if a < b {
                assert(cache[a].key() != cache[b].key());
            } else if b < a {
                assert(cache[b].key() != cache[a].key());
            }
            assert(entries[i] == entries[j]);
        }
    }
    assert forall|c: ConnectionView| read.contains(c) <==> cache.contains(c) by {
        if read.contains(c) {
            let i = choose|i: int| 0 <= i < read.len() && read[i] == c;
            assert(cache.contains(entries[i].connection));
        }
        if cache.contains(c) {
            let a = choose|a: int| 0 <= a < cache.len() && cache[a] == c;
            assert(kept[a].connection == c);
            assert(kept.contains(kept[a]));
            assert(entries.contains(kept[a]));
            let i = choose|i: int| 0 <= i < entries.len() && entries[i] == kept[a];
            assert(read[i] == c);
        }
    }
    lemma_map_ignores_order(read, cache);
    assert(entries.to_multiset().len() == kept.to_multiset().len());
}

/// A file that is missing or blank stands for the empty registry, and the
/// empty registry, once written, loads as the empty registry.
pub proof fn law_bootstrap(text: Seq<char>)
    ensures
        plan_for(None) == LoadPlan::Bootstrap,
        blank(text) ==> plan_for(Some(text)) == LoadPlan::Bootstrap,
        !blank(text) ==> plan_for(Some(text)) == LoadPlan::Parse,
        loaded(stored(Seq::empty())) == Ok::<Seq<ConnectionView>, CacheErrorView>(Seq::empty()),
{
    law_store_round_trip(Seq::empty());
}

} // verus!
