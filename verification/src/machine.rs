//! The operations of the registry, step by step.
//!
//! An operation works through its keys until it needs the operating
//! system: to hear whether a process is alive, to start one, or to signal
//! one. It then hands out a [`Step`] and waits. The caller does what the
//! step asks and reports the answer to `after_probe`, `after_spawn` or
//! `after_signal`, which take the operation further. The first failure ends
//! the operation: keys not handled by then are left untouched.

use vstd::prelude::*;
use vstd::string::*;
use crate::cache::{
    distinct_keys, has_key, key_views, keys_of, lemma_close_keeps_keys, lemma_has_key_iff,
    lemma_remove_keeps_distinct, position, ConnectionCache,
};
use crate::connection::{started, Connection, ConnectionView};
use crate::error::{CacheError, CacheErrorView};
use crate::key::{format_key, key_of};
use crate::link::{parse_link, UrlParts};
use crate::step::{
    done, notice_views, Batch, BatchView, Kind, Notice, NoticeView, Outcome, Probing,
    ProbingView, Row, RowView, Signalling, SignallingView, Spawning, SpawningView, Step,
    StepView,
};

verus! {

/// What handling one tunnel leads to: the work goes on with what is left,
/// or the operation stops at a step.
pub enum Next {
    Continue(BatchView),
    Stop(StepView),
}

/// The view of what handling one tunnel led to.
pub open spec fn next_view(next: Result<Batch, Step>) -> Next {
    match next {
        Ok(batch) => Next::Continue(batch@),
        Err(step) => Next::Stop(step@),
    }
}

/// Whether an operation of this kind takes each tunnel out of the registry
/// before it deals with it.
pub open spec fn takes_out(kind: Kind) -> bool {
    kind == Kind::Drop || kind == Kind::Reconnect
}

/// The line of the listing for a tunnel, given the operating system's word
/// on its process.
pub open spec fn listed(c: ConnectionView, alive: bool) -> NoticeView {
    NoticeView::Listed(
        RowView { key: c.key(), pid: c.live_pid(alive), status: c.status(alive), link: c.link },
    )
}

/// The notice for a tunnel that got a process.
pub open spec fn opened(kind: Kind, c: ConnectionView) -> NoticeView {
    if kind == Kind::Create {
        NoticeView::Created { host: c.host, port: c.port }
    } else {
        NoticeView::Reconnected { key: c.key() }
    }
}

/// Opening a tunnel to `host` for `link`: the link must be readable and the
/// key new; then a forwarding process is asked for.
pub open spec fn open_tunnel(
    cache: Seq<ConnectionView>,
    host: Seq<char>,
    link: Seq<char>,
    batch: BatchView,
) -> StepView {
    match parse_link(link) {
        Err(e) => done(batch.notices, Err(CacheErrorView::InvalidLink(e))),
        Ok(parts) => if has_key(cache, key_of(host, parts.port)) {
            done(batch.notices, Err(CacheErrorView::DuplicateKey(key_of(host, parts.port))))
        } else {
            StepView::Spawn(SpawningView { host, port: parts.port, link, batch })
        },
    }
}

/// Ending the process of a tunnel: a live process is to be signalled, and
/// where there is none the tunnel counts as closed already.
pub open spec fn end_process(c: ConnectionView, batch: BatchView, alive: bool) -> Next {
    match c.live_pid(alive) {
        Some(pid) => Next::Stop(
            StepView::Signal(SignallingView { pid, host: c.host, port: c.port, batch }),
        ),
        None => Next::Continue(batch.noted(NoticeView::AlreadyClosed)),
    }
}

/// Dealing with one tunnel once it is known whether its process is alive.
/// `batch` is the work that follows.
pub open spec fn settle(
    cache: Seq<ConnectionView>,
    c: ConnectionView,
    batch: BatchView,
    alive: bool,
) -> (Seq<ConnectionView>, Next) {
    match batch.kind {
        Kind::Create => (cache, Next::Stop(done(batch.notices, Ok(())))),
        Kind::List => (cache, Next::Continue(batch.noted(listed(c, alive)))),
        Kind::Disconnect => if has_key(cache, c.key()) {
            let i = position(cache, c.key());
            (cache.update(i, cache[i].closed()), end_process(cache[i], batch, alive))
        } else {
            (cache, Next::Stop(done(batch.notices, Err(CacheErrorView::KeyNotFound(c.key())))))
        },
        Kind::Drop => (cache, end_process(c, batch, alive)),
        Kind::Reconnect => if c.live_pid(alive).is_some() {
            if has_key(cache, c.key()) {
                (cache, Next::Stop(done(batch.notices, Err(CacheErrorView::DuplicateKey(c.key())))))
            } else {
                (cache.push(c), Next::Continue(batch))
            }
        } else {
            (cache, Next::Stop(open_tunnel(cache, c.host, c.link, batch)))
        },
    }
}

/// Working through the keys that are left, up to the next step.
///
/// A key that is not registered ends the operation with `KeyNotFound`. A
/// tunnel with a tracked process leads to a probe of that process; one
/// without is dealt with at once, as if its process had been found dead.
/// Dropping and reconnecting take the tunnel out of the registry first.
pub open spec fn advance(cache: Seq<ConnectionView>, batch: BatchView) -> (
    Seq<ConnectionView>,
    StepView,
)
    decreases batch.keys.len(),
{
    if batch.keys.len() == 0 || batch.kind == Kind::Create {
        (cache, done(batch.notices, Ok(())))
    } else if !has_key(cache, batch.keys[0]) {
        (cache, done(batch.notices, Err(CacheErrorView::KeyNotFound(batch.keys[0]))))
    } else {
        let i = position(cache, batch.keys[0]);
        let held = if takes_out(batch.kind) {
            cache.remove(i)
        } else {
            cache
        };
        if cache[i].pid.is_some() {
            (held, StepView::Probe(ProbingView { connection: cache[i], batch: batch.rest() }))
        } else {
            let (after, next) = settle(held, cache[i], batch.rest(), false);
            match next {
                Next::Continue(b) => advance(after, b),
                Next::Stop(step) => (after, step),
            }
        }
    }
}

/// Going on after one tunnel has been dealt with.
pub open spec fn proceed(settled: (Seq<ConnectionView>, Next)) -> (Seq<ConnectionView>, StepView) {
    match settled.1 {
        Next::Continue(batch) => advance(settled.0, batch),
        Next::Stop(step) => (settled.0, step),
    }
}

/// An operation after the operating system has said whether the process
/// of the tunnel in question is alive.
pub open spec fn probed(cache: Seq<ConnectionView>, p: ProbingView, alive: bool) -> (
    Seq<ConnectionView>,
    StepView,
) {
    proceed(settle(cache, p.connection, p.batch, alive))
}

/// An operation after the attempt to start a forwarding process; `pid` is
/// the new process, or `None` where it could not be started.
pub open spec fn spawned(cache: Seq<ConnectionView>, s: SpawningView, pid: Option<u32>) -> (
    Seq<ConnectionView>,
    StepView,
) {
    match pid {
        None => (cache, done(s.batch.notices, Err(CacheErrorView::Spawn))),
        Some(p) => match started(s.link, s.host, p) {
            Err(e) => (cache, done(s.batch.notices, Err(CacheErrorView::InvalidLink(e)))),
            Ok(c) => if has_key(cache, c.key()) {
                (cache, done(s.batch.notices, Err(CacheErrorView::DuplicateKey(c.key()))))
            } else {
                advance(cache.push(c), s.batch.noted(opened(s.batch.kind, c)))
            },
        },
    }
}

/// An operation after the attempt to signal a process.
pub open spec fn signalled(cache: Seq<ConnectionView>, s: SignallingView, delivered: bool) -> (
    Seq<ConnectionView>,
    StepView,
) {
    if delivered {
        advance(
            cache,
            s.batch.noted(NoticeView::Disconnected { host: s.host, port: s.port, pid: s.pid }),
        )
    } else {
        (cache, done(s.batch.notices, Err(CacheErrorView::Signal(s.pid))))
    }
}

/// Handling one tunnel never adds to the keys that are left.
pub proof fn lemma_settle_keeps_keys(
    cache: Seq<ConnectionView>,
    c: ConnectionView,
    batch: BatchView,
    alive: bool,
)
    ensures
        settle(cache, c, batch, alive).1 matches Next::Continue(b) ==> b.keys == batch.keys
            && b.kind == batch.kind,
{
}

/// What listing a registry shows: a line for each tunnel, or the word that
/// there is none.
pub open spec fn listing(cache: Seq<ConnectionView>) -> StepView {
    if cache.len() == 0 {
        done(seq![NoticeView::NoSessions], Ok(()))
    } else {
        advance(cache, BatchView::fresh(Kind::List, keys_of(cache))).1
    }
}

/// Listing changes nothing in the registry.
pub proof fn lemma_listing_keeps_registry(cache: Seq<ConnectionView>, batch: BatchView)
    requires
        batch.kind == Kind::List,
    ensures
        advance(cache, batch).0 == cache,
    decreases batch.keys.len(),
{
    if batch.keys.len() > 0 && has_key(cache, batch.keys[0]) {
        let c = cache[position(cache, batch.keys[0])];
        if c.pid.is_none() {
            lemma_listing_keeps_registry(cache, batch.rest().noted(listed(c, false)));
        }
    }
}

/// An operation on one key fails with `KeyNotFound` exactly where the key
/// is not registered; it then changes nothing.
pub proof fn lemma_single_key(cache: Seq<ConnectionView>, kind: Kind, key: Seq<char>)
    requires
        kind != Kind::Create,
    ensures
        !has_key(cache, key) <==> advance(cache, BatchView::fresh(kind, seq![key])).1 == done(
            Seq::empty(),
            Err(CacheErrorView::KeyNotFound(key)),
        ),
        !has_key(cache, key) ==> advance(cache, BatchView::fresh(kind, seq![key])).0 == cache,
{
    let whole = BatchView::fresh(kind, seq![key]);
    assert(whole.rest().keys =~= Seq::<Seq<char>>::empty());
    if has_key(cache, key) {
        let i = position(cache, key);
        let held = if takes_out(kind) {
            cache.remove(i)
        } else {
            cache
        };
        if cache[i].pid.is_none() {
            let (after, next) = settle(held, cache[i], whole.rest(), false);
            match next {
                Next::Continue(b) => {
                    assert(b.keys == whole.rest().keys);
                    assert(advance(after, b).1 == done(b.notices, Ok(())));
                },
                Next::Stop(_) => {},
            }
        }
    }
}

/// Dropping a registered key takes its tunnel out of the registry at once;
/// disconnecting one leaves every tunnel at its place, under its key.
pub proof fn lemma_single_key_registered(cache: Seq<ConnectionView>, key: Seq<char>)
    requires
        distinct_keys(cache),
        has_key(cache, key),
    ensures
        advance(cache, BatchView::fresh(Kind::Drop, seq![key])).0 == cache.remove(
            position(cache, key),
        ),
        !has_key(cache.remove(position(cache, key)), key),
        keys_of(advance(cache, BatchView::fresh(Kind::Disconnect, seq![key])).0) == keys_of(cache),
        has_key(advance(cache, BatchView::fresh(Kind::Disconnect, seq![key])).0, key),
{
    let i = position(cache, key);
    lemma_has_key_iff(cache, key);
    lemma_remove_keeps_distinct(cache, i);
    lemma_close_keeps_keys(cache, i);
    let dropping = BatchView::fresh(Kind::Drop, seq![key]);
    let closing = BatchView::fresh(Kind::Disconnect, seq![key]);
    assert(dropping.rest().keys =~= Seq::<Seq<char>>::empty());
    assert(closing.rest().keys =~= Seq::<Seq<char>>::empty());
    if cache[i].pid.is_none() {
        let closed = cache.update(i, cache[i].closed());
        let noted = closing.rest().noted(NoticeView::AlreadyClosed);
        assert(advance(closed, noted) == (closed, done(noted.notices, Ok(()))));
        let gone = dropping.rest().noted(NoticeView::AlreadyClosed);
        assert(advance(cache.remove(i), gone) == (cache.remove(i), done(gone.notices, Ok(()))));
    }
}

/// Work of one kind on these keys, with nothing noted yet.
fn begin(kind: Kind, keys: Vec<String>) -> (batch: Batch)
    ensures
        batch@ == BatchView::fresh(kind, key_views(keys@)),
{
    let batch = Batch { kind, keys, notices: Vec::new() };
    assert(batch@.notices =~= Seq::<NoticeView>::empty());
    batch
}

/// The list that holds this key alone.
fn only(key: &str) -> (keys: Vec<String>)
    ensures
        key_views(keys@) == seq![key@],
{
    let mut keys: Vec<String> = Vec::new();
    keys.push(key.to_string());
    assert(key_views(keys@) =~= seq![key@]);
    keys
}

/// Adds a notice to the work that is left.
fn note(batch: Batch, notice: Notice) -> (noted: Batch)
    ensures
        noted@ == batch@.noted(notice@),
{
    let mut batch = batch;
    let ghost before = batch@;
    batch.notices.push(notice);
    assert(notice_views(batch.notices@) =~= before.notices.push(notice@));
    batch
}

/// Ends an operation.
fn finish(batch: Batch, result: Result<(), CacheError>) -> (step: Step)
    ensures
        step@ == done(
            batch@.notices,
            match result {
                Ok(_) => Ok(()),
                Err(e) => Err(e@),
            },
        ),
{
    Step::Done(Outcome { notices: batch.notices, result })
}

/// Asks for the signal that ends a tunnel's process, or counts the tunnel
/// as closed where there is none to send.
fn end_process_of(signal: Option<u32>, host: String, port: u16, batch: Batch) -> (next: Result<
    Batch,
    Step,
>)
    ensures
        next_view(next) == match signal {
            Some(pid) => Next::Stop(
                StepView::Signal(SignallingView { pid, host: host@, port, batch: batch@ }),
            ),
            None => Next::Continue(batch@.noted(NoticeView::AlreadyClosed)),
        },
{
    match signal {
        Some(pid) => Err(Step::Signal(Signalling { pid, host, port, batch })),
        None => Ok(note(batch, Notice::AlreadyClosed)),
    }
}

impl ConnectionCache {
    /// Checks that a tunnel to `host` for `link` can be registered, and asks
    /// for its forwarding process.
    fn open_tunnel(&self, host: String, link: String, batch: Batch) -> (step: Step)
        ensures
            step@ == open_tunnel(self@, host@, link@, batch@),
    {
        match UrlParts::parse(link.as_str()) {
            Err(e) => finish(batch, Err(CacheError::InvalidLink(e))),
            Ok(parts) => {
                let key = format_key(host.as_str(), parts.port);
                if self.contains_key(key.as_str()) {
                    finish(batch, Err(CacheError::DuplicateKey(key)))
                } else {
                    Step::Spawn(Spawning { host, port: parts.port, link, batch })
                }
            },
        }
    }

    /// Deals with one tunnel once it is known whether its process is alive.
    fn settle(&mut self, connection: Connection, batch: Batch, alive: bool) -> (next: Result<
        Batch,
        Step,
    >)
        ensures
            (final(self)@, next_view(next)) == settle(old(self)@, connection@, batch@, alive),
            distinct_keys(final(self)@),
    {
        self.recall_distinct();
        match batch.kind {
            Kind::Create => Err(finish(batch, Ok(()))),
            Kind::List => {
                let row = Row {
                    key: connection.key(),
                    pid: connection.get_pid(alive),
                    status: connection.status(alive),
                    link: connection.link,
                };
                Ok(note(batch, Notice::Listed(row)))
            },
            Kind::Disconnect => {
                let key = connection.key();
                match self.find(key.as_str()) {
                    Some(i) => {
                        let entry = self.copy_at(i);
                        let signal = self.kill_at(i, alive);
                        end_process_of(signal, entry.host, entry.port, batch)
                    },
                    None => Err(finish(batch, Err(CacheError::KeyNotFound(key)))),
                }
            },
            Kind::Drop => {
                let mut connection = connection;
                let signal = connection.kill_connection(alive);
                end_process_of(signal, connection.host, connection.port, batch)
            },
            Kind::Reconnect => {
                if connection.is_alive(alive) {
                    match self.insert(connection) {
                        Ok(_) => Ok(batch),
                        Err(e) => Err(finish(batch, Err(e))),
                    }
                } else {
                    Err(self.open_tunnel(connection.host, connection.link, batch))
                }
            },
        }
    }

    /// Works through the keys that are left of an operation, until the
    /// operating system is needed or the operation is over.
    pub fn advance(&mut self, batch: Batch) -> (step: Step)
        ensures
            (final(self)@, step@) == advance(old(self)@, batch@),
            distinct_keys(final(self)@),
    {
        let mut left = batch;
        self.recall_distinct();
        loop
            invariant
                advance(self@, left@) == advance(old(self)@, batch@),
                distinct_keys(self@),
            decreases left.keys.len(),
        {
            if left.keys.len() == 0 {
                return finish(left, Ok(()));
            }
            match left.kind {
                Kind::Create => { return finish(left, Ok(())); },
                _ => {},
            }
            let ghost before = left@;
            let key = left.keys.remove(0);
            assert(key@ == before.keys[0]);
            assert(left@ == before.rest()) by {
                assert(key_views(left.keys@) =~= before.keys.skip(1));
            }
            let place = self.find(key.as_str());
            let i = match place {
                Some(i) => i,
                None => { return finish(left, Err(CacheError::KeyNotFound(key))); },
            };
            let connection = match left.kind {
                Kind::Drop | Kind::Reconnect => self.take(i),
                _ => self.copy_at(i),
            };
            if connection.pid.is_some() {
                return Step::Probe(Probing { connection, batch: left });
            }
            let ghost rest = left@;
            proof {
                lemma_settle_keeps_keys(self@, connection@, rest, false);
            }
            match self.settle(connection, left, false) {
                Ok(b) => {
                    assert(b.keys@.len() == b@.keys.len() == rest.keys.len());
                    left = b;
                },
                Err(step) => { return step; },
            }
        }
    }

    /// Takes an operation further once the caller has asked the operating
    /// system about the process of `probing.connection`. `alive` is the
    /// answer; it has no weight where that tunnel tracks no process.
    pub fn after_probe(&mut self, probing: Probing, alive: bool) -> (step: Step)
        ensures
            (final(self)@, step@) == probed(old(self)@, probing@, alive),
            distinct_keys(final(self)@),
    {
        match self.settle(probing.connection, probing.batch, alive) {
            Ok(batch) => self.advance(batch),
            Err(step) => step,
        }
    }

    /// Takes an operation further once the caller has tried to start the
    /// forwarding process that `spawning` asks for. `pid` is the new
    /// process, or `None` where none could be started.
    pub fn after_spawn(&mut self, spawning: Spawning, pid: Option<u32>) -> (step: Step)
        ensures
            (final(self)@, step@) == spawned(old(self)@, spawning@, pid),
            distinct_keys(final(self)@),
    {
        self.recall_distinct();
        let pid = match pid {
            Some(pid) => pid,
            None => { return finish(spawning.batch, Err(CacheError::Spawn)); },
        };
        let connection = match Connection::new(spawning.link.as_str(), spawning.host.as_str(), pid) {
            Ok(connection) => connection,
            Err(e) => { return finish(spawning.batch, Err(CacheError::InvalidLink(e))); },
        };
        let notice = match spawning.batch.kind {
            Kind::Create => Notice::Created {
                host: connection.host.clone(),
                port: connection.port,
            },
            _ => Notice::Reconnected { key: connection.key() },
        };
        match self.insert(connection) {
            Ok(_) => self.advance(note(spawning.batch, notice)),
            Err(e) => finish(spawning.batch, Err(e)),
        }
    }

    /// Takes an operation further once the caller has tried to send the
    /// termination signal that `signalling` asks for. Where it could not be
    /// delivered the operation ends with that failure.
    pub fn after_signal(&mut self, signalling: Signalling, delivered: bool) -> (step: Step)
        ensures
            (final(self)@, step@) == signalled(old(self)@, signalling@, delivered),
            distinct_keys(final(self)@),
    {
        self.recall_distinct();
        if delivered {
            let notice = Notice::Disconnected {
                host: signalling.host,
                port: signalling.port,
                pid: signalling.pid,
            };
            self.advance(note(signalling.batch, notice))
        } else {
            finish(signalling.batch, Err(CacheError::Signal(signalling.pid)))
        }
    }

    /// Begins to register a tunnel to `host` for the notebook at `link`.
    ///
    /// The operation ends at once, and nothing is asked of the operating
    /// system, where the link cannot be read or a tunnel with the same key
    /// is registered already. Otherwise it asks for the forwarding process;
    /// the tunnel is registered by `after_spawn`.
    pub fn new_connection(&mut self, link: &str, host: &str) -> (step: Step)
        ensures
            final(self)@ == old(self)@,
            step@ == open_tunnel(
                old(self)@,
                host@,
                link@,
                BatchView::fresh(Kind::Create, Seq::empty()),
            ),
    {
        let keys: Vec<String> = Vec::new();
        assert(key_views(keys@) =~= Seq::<Seq<char>>::empty());
        self.open_tunnel(host.to_string(), link.to_string(), begin(Kind::Create, keys))
    }

    /// Begins to show every tunnel. The registry is left as it is.
    pub fn list(&mut self) -> (step: Step)
        ensures
            final(self)@ == old(self)@,
            step@ == listing(old(self)@),
    {
        if self.is_empty() {
            let batch = note(begin(Kind::List, Vec::new()), Notice::NoSessions);
            assert(batch@.notices =~= seq![NoticeView::NoSessions]);
            finish(batch, Ok(()))
        } else {
            proof {
                lemma_listing_keeps_registry(self@, BatchView::fresh(Kind::List, keys_of(self@)));
            }
            self.advance(begin(Kind::List, self.keys()))
        }
    }

    /// Begins to reconnect the tunnel with this key: a tunnel whose process
    /// is alive is left as it is, another gets a new process.
    pub fn reconnect(&mut self, key: &str) -> (step: Step)
        ensures
            (final(self)@, step@) == advance(
                old(self)@,
                BatchView::fresh(Kind::Reconnect, seq![key@]),
            ),
            !has_key(old(self)@, key@) <==> step@ == done(
                Seq::empty(),
                Err(CacheErrorView::KeyNotFound(key@)),
            ),
            !has_key(old(self)@, key@) ==> final(self)@ == old(self)@,
            distinct_keys(final(self)@),
    {
        proof {
            lemma_single_key(self@, Kind::Reconnect, key@);
        }
        self.advance(begin(Kind::Reconnect, only(key)))
    }

    /// Begins to reconnect every tunnel, in the order of the registry.
    pub fn reconnect_all(&mut self) -> (step: Step)
        ensures
            (final(self)@, step@) == advance(
                old(self)@,
                BatchView::fresh(Kind::Reconnect, keys_of(old(self)@)),
            ),
            distinct_keys(final(self)@),
    {
        self.advance(begin(Kind::Reconnect, self.keys()))
    }

    /// Begins to end the process of the tunnel with this key and to forget
    /// the tunnel.
    pub fn drop_connection(&mut self, key: &str) -> (step: Step)
        ensures
            (final(self)@, step@) == advance(old(self)@, BatchView::fresh(Kind::Drop, seq![key@])),
            !has_key(old(self)@, key@) <==> step@ == done(
                Seq::empty(),
                Err(CacheErrorView::KeyNotFound(key@)),
            ),
            !has_key(old(self)@, key@) ==> final(self)@ == old(self)@,
            has_key(old(self)@, key@) ==> final(self)@ == old(self)@.remove(
                position(old(self)@, key@),
            ) && !has_key(final(self)@, key@),
            distinct_keys(final(self)@),
    {
        self.recall_distinct();
        proof {
            lemma_single_key(self@, Kind::Drop, key@);
            if has_key(self@, key@) {
                lemma_single_key_registered(self@, key@);
            }
        }
        self.advance(begin(Kind::Drop, only(key)))
    }

    /// Begins to drop every tunnel, in the order of the registry.
    pub fn drop_all_connections(&mut self) -> (step: Step)
        ensures
            (final(self)@, step@) == advance(
                old(self)@,
                BatchView::fresh(Kind::Drop, keys_of(old(self)@)),
            ),
            distinct_keys(final(self)@),
    {
        self.advance(begin(Kind::Drop, self.keys()))
    }

    /// Begins to end the process of the tunnel with this key. The tunnel
    /// stays registered, with no process tracked.
    pub fn disconnect(&mut self, key: &str) -> (step: Step)
        ensures
            (final(self)@, step@) == advance(
                old(self)@,
                BatchView::fresh(Kind::Disconnect, seq![key@]),
            ),
            !has_key(old(self)@, key@) <==> step@ == done(
                Seq::empty(),
                Err(CacheErrorView::KeyNotFound(key@)),
            ),
            !has_key(old(self)@, key@) ==> final(self)@ == old(self)@,
            keys_of(final(self)@) == keys_of(old(self)@),
            distinct_keys(final(self)@),
    {
        self.recall_distinct();
        proof {
            lemma_single_key(self@, Kind::Disconnect, key@);
            if has_key(self@, key@) {
                lemma_single_key_registered(self@, key@);
            }
        }
        self.advance(begin(Kind::Disconnect, only(key)))
    }

    /// Begins to disconnect every tunnel, in the order of the registry.
    pub fn disconnect_all(&mut self) -> (step: Step)
        ensures
            (final(self)@, step@) == advance(
                old(self)@,
                BatchView::fresh(Kind::Disconnect, keys_of(old(self)@)),
            ),
            distinct_keys(final(self)@),
    {
        self.advance(begin(Kind::Disconnect, self.keys()))
    }
}

} // verus!
