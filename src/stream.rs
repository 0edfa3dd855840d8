use vstd::prelude::*;

use std::collections::VecDeque;

use crate::error::{from_code, Error};

verus! {

/// The outcome of one poll: a value now, or nothing yet.
#[derive(Debug, PartialEq, Eq)]
pub enum Async<T> {
    Ready(T),
    NotReady,
}

/// The queue after one delivery: an armed context appends, a disarmed one ignores.
pub open spec fn delivered<T>(items: Seq<Result<T, Error>>, armed: bool, data: Result<T, Error>) -> Seq<
    Result<T, Error>,
> {
    if armed {
        items.push(data)
    } else {
        items
    }
}

/// Sending end of the result channel: the cell whose address the native library
/// keeps as user data for every callback of one operation.
pub struct CallbackContext<T> {
    queue: VecDeque<Result<T, Error>>,
    armed: bool,
}

impl<T> CallbackContext<T> {
    /// Results delivered and not yet taken, oldest first.
    pub closed spec fn items(&self) -> Seq<Result<T, Error>> {
        self.queue@
    }

    /// Whether deliveries are still accepted.
    pub closed spec fn is_armed(&self) -> bool {
        self.armed
    }

    /// An empty, armed context.
    pub fn new() -> (r: Self)
        ensures
            r.items() == Seq::<Result<T, Error>>::empty(),
            r.is_armed(),
    {
        CallbackContext { queue: VecDeque::new(), armed: true }
    }

    /// Appends one result to the channel, unless the context was disarmed.
    pub fn deliver(&mut self, data: Result<T, Error>)
        ensures
            final(self).items() == delivered(old(self).items(), old(self).is_armed(), data),
            final(self).is_armed() == old(self).is_armed(),
    {
        if self.armed {
            self.queue.push_back(data);
        }
    }

    /// The step of a native callback: maps the error code, decodes the payload
    /// when the code is zero, and delivers the result. A disarmed context runs
    /// nothing and keeps nothing.
    pub fn run_callback<F>(&mut self, error_code: i32, f: F)
        where
            F: FnOnce() -> Result<T, Error>,
        requires
            old(self).is_armed() && error_code == 0 ==> f.requires(()),
        ensures
            final(self).is_armed() == old(self).is_armed(),
            !old(self).is_armed() ==> final(self).items() == old(self).items(),
            old(self).is_armed() && error_code != 0 ==> final(self).items() == old(self).items().push(
                Err(Error::NativeCallback(error_code)),
            ),
            old(self).is_armed() && error_code == 0 ==> exists|d: Result<T, Error>|
                #[trigger] f.ensures((), d) && final(self).items() == old(self).items().push(d),
    {
        if !self.armed {
            return;
        }
        let data = match from_code(error_code) {
            Ok(()) => f(),
            Err(e) => Err(e),
        };
        self.deliver(data);
    }

    /// Removes and returns the oldest delivered result.
    pub fn take(&mut self) -> (r: Option<Result<T, Error>>)
        ensures
            final(self).is_armed() == old(self).is_armed(),
            old(self).items().len() == 0 ==> r.is_none() && final(self).items() == old(self).items(),
            old(self).items().len() > 0 ==> r == Some(old(self).items()[0]) && final(self).items()
                == old(self).items().drop_first(),
    {
        self.queue.pop_front()
    }

    /// Stops accepting deliveries; what was delivered stays.
    pub fn disarm(&mut self)
        ensures
            !final(self).is_armed(),
            final(self).items() == old(self).items(),
    {
        self.armed = false;
    }
}

/// One poll of a stream in the state (`pending`, `terminated`), after the
/// reactor binding was driven with outcome `drive`: the pending results, the
/// termination flag and the poll's result that follow.
pub open spec fn step<T>(pending: Seq<Result<T, Error>>, terminated: bool, drive: Result<(), Error>) -> (
    Seq<Result<T, Error>>,
    bool,
    Result<Async<Option<T>>, Error>,
) {
    if terminated {
        (pending, true, Ok(Async::Ready(None)))
    } else if drive is Err {
        (pending, true, Err(drive->Err_0))
    } else if pending.len() == 0 {
        (pending, false, Ok(Async::NotReady))
    } else {
        (pending.drop_first(), false, output_of(pending[0]))
    }
}

/// What a poll hands out for one delivered result.
pub open spec fn output_of<T>(data: Result<T, Error>) -> Result<Async<Option<T>>, Error> {
    match data {
        Ok(t) => Ok(Async::Ready(Some(t))),
        Err(e) => Err(e),
    }
}

/// The queue after a run of deliveries `es`, in order, into a context that is
/// armed or not.
pub open spec fn deliver_all<T>(items: Seq<Result<T, Error>>, armed: bool, es: Seq<Result<T, Error>>) -> Seq<
    Result<T, Error>,
>
    decreases es.len(),
{
    if es.len() == 0 {
        items
    } else {
        delivered(deliver_all(items, armed, es.drop_last()), armed, es.last())
    }
}

/// The results of successive polls, one for each drive outcome in `drives`.
pub open spec fn drain<T>(pending: Seq<Result<T, Error>>, terminated: bool, drives: Seq<Result<(), Error>>) -> Seq<
    Result<Async<Option<T>>, Error>,
>
    decreases drives.len(),
{
    if drives.len() == 0 {
        Seq::empty()
    } else {
        let (p, t, out) = step(pending, terminated, drives[0]);
        seq![out] + drain(p, t, drives.drop_first())
    }
}

/// `n` successful drives of the reactor binding.
pub open spec fn quiet_drives(n: nat) -> Seq<Result<(), Error>> {
    Seq::new(n, |i: int| Ok(()))
}

proof fn lemma_deliver_all_appends<T>(items: Seq<Result<T, Error>>, es: Seq<Result<T, Error>>)
    ensures
        deliver_all(items, true, es) == items + es,
    decreases es.len(),
{
    if es.len() > 0 {
        lemma_deliver_all_appends(items, es.drop_last());
        assert(items + es == (items + es.drop_last()).push(es.last()));
    }
}

proof fn lemma_drain_in_order<T>(pending: Seq<Result<T, Error>>)
    ensures
        drain(pending, false, quiet_drives(pending.len())) == pending.map_values(
            |d: Result<T, Error>| output_of(d),
        ),
    decreases pending.len(),
{
    if pending.len() > 0 {
        lemma_drain_in_order(pending.drop_first());
        assert(quiet_drives(pending.len()).drop_first() == quiet_drives(pending.drop_first().len()));
        assert(pending.map_values(|d: Result<T, Error>| output_of(d)) == seq![output_of(pending[0])]
            + pending.drop_first().map_values(|d: Result<T, Error>| output_of(d)));
    } else {
        assert(pending.map_values(|d: Result<T, Error>| output_of(d)) == Seq::<
            Result<Async<Option<T>>, Error>,
        >::empty());
    }
}

/// Results delivered to a live stream come out of its polls in the order the
/// callbacks delivered them, after those already pending, each success as an
/// item and each error in its place.
pub proof fn lemma_delivery_order<T>(pending: Seq<Result<T, Error>>, es: Seq<Result<T, Error>>)
    ensures
        drain(deliver_all(pending, true, es), false, quiet_drives(pending.len() + es.len()))
            == pending.map_values(|d: Result<T, Error>| output_of(d)) + es.map_values(
            |d: Result<T, Error>| output_of(d),
        ),
{
    lemma_deliver_all_appends(pending, es);
    lemma_drain_in_order(pending + es);
    assert((pending + es).map_values(|d: Result<T, Error>| output_of(d)) == pending.map_values(
        |d: Result<T, Error>| output_of(d),
    ) + es.map_values(|d: Result<T, Error>| output_of(d)));
}

/// A disarmed context, as `close` leaves it, takes in no callback: whatever is
/// delivered to it afterwards, its queue stays as it was.
pub proof fn lemma_no_delivery_after_close<T>(items: Seq<Result<T, Error>>, es: Seq<Result<T, Error>>)
    ensures
        deliver_all(items, false, es) == items,
    decreases es.len(),
{
    if es.len() > 0 {
        lemma_no_delivery_after_close(items, es.drop_last());
    }
}

/// A terminated stream reports end-of-stream on every poll, whatever the
/// reactor binding does.
pub proof fn lemma_terminated_stays_ended<T>(pending: Seq<Result<T, Error>>, drives: Seq<Result<(), Error>>)
    ensures
        drain(pending, true, drives) == Seq::new(
            drives.len(),
            |i: int| Ok::<Async<Option<T>>, Error>(Async::Ready(None)),
        ),
    decreases drives.len(),
{
    if drives.len() > 0 {
        lemma_terminated_stays_ended(pending, drives.drop_first());
        assert(drain(pending, true, drives) =~= Seq::new(
            drives.len(),
            |i: int| Ok::<Async<Option<T>>, Error>(Async::Ready(None)),
        ));
    } else {
        assert(drain(pending, true, drives) =~= Seq::new(
            drives.len(),
            |i: int| Ok::<Async<Option<T>>, Error>(Async::Ready(None)),
        ));
    }
}

/// A typed stream over one in-flight native operation: the service bound to a
/// reactor, the boxed callback context whose address the operation holds, and
/// whether a fatal error has ended it.
#[must_use]
pub struct ServiceStream<T, S> {
    service: S,
    sender: Box<CallbackContext<T>>,
    terminated: bool,
}

impl<T, S> ServiceStream<T, S> {
    /// Results delivered and not yet polled, oldest first.
    pub closed spec fn pending(&self) -> Seq<Result<T, Error>> {
        self.sender.items()
    }

    /// Whether the stream has ended.
    pub closed spec fn is_terminated(&self) -> bool {
        self.terminated
    }

    /// Whether callbacks are still accepted.
    pub closed spec fn is_armed(&self) -> bool {
        self.sender.is_armed()
    }

    /// The reactor-bound service.
    pub closed spec fn service_of(&self) -> S {
        self.service
    }

    /// Starts an operation: makes a fresh callback context, hands it to `start`
    /// (which begins the native operation with the context's address as user
    /// data), then hands the native handle to `bind` (which registers it with a
    /// reactor). A start error comes back as `StartFailure` with its code, a
    /// failed binding as `Reactor`; either way the context is released.
    pub fn new<N, F, G>(start: F, bind: G) -> (r: Result<Self, Error>)
        where
            F: FnOnce(&CallbackContext<T>) -> Result<N, i32>,
            G: FnOnce(N) -> Option<S>,
        requires
            forall|c: &CallbackContext<T>| #[trigger] start.requires((c,)),
            forall|n: N| #[trigger] bind.requires((n,)),
        ensures
            exists|c: &CallbackContext<T>, started: Result<N, i32>|
                #[trigger] start.ensures((c,), started) && c.items().len() == 0 && c.is_armed() && match started {
                    Err(code) => r == Err::<Self, Error>(Error::StartFailure(code)),
                    Ok(n) => exists|bound: Option<S>|
                        #[trigger] bind.ensures((n,), bound) && match bound {
                            None => r == Err::<Self, Error>(Error::Reactor),
                            Some(s) => r matches Ok(st) && st.service_of() == s && st.pending().len() == 0
                                && st.is_armed() && !st.is_terminated(),
                        },
                },
    {
        let sender = Box::new(CallbackContext::new());
        let started = start(&sender);
        match started {
            Err(code) => Err(Error::StartFailure(code)),
            Ok(n) => match bind(n) {
                None => Err(Error::Reactor),
                Some(service) => Ok(ServiceStream { service, sender, terminated: false }),
            },
        }
    }

    /// Polls once, after the caller drove the reactor binding with outcome
    /// `drive`. A terminated stream reports end-of-stream; a failed drive
    /// terminates the stream with that error; otherwise the oldest delivered
    /// result comes out, or `NotReady` when there is none.
    pub fn poll(&mut self, drive: Result<(), Error>) -> (r: Result<Async<Option<T>>, Error>)
        ensures
            (final(self).pending(), final(self).is_terminated(), r) == step(
                old(self).pending(),
                old(self).is_terminated(),
                drive,
            ),
            final(self).is_armed() == old(self).is_armed(),
            final(self).service_of() == old(self).service_of(),
            old(self).is_terminated() ==> r == Ok::<Async<Option<T>>, Error>(Async::Ready(None))
                && final(self).is_terminated(),
            !old(self).is_terminated() && drive is Ok && old(self).pending().len() == 0 ==> r == Ok::<
                Async<Option<T>>,
                Error,
            >(Async::NotReady),
    {
        if self.terminated {
            return Ok(Async::Ready(None));
        }
        if let Err(e) = drive {
            self.terminated = true;
            return Err(e);
        }
        match self.sender.take() {
            None => Ok(Async::NotReady),
            Some(Ok(t)) => Ok(Async::Ready(Some(t))),
            Some(Err(e)) => Err(e),
        }
    }

    /// Whether the stream has ended, so that polls no longer drive the service.
    pub fn terminated(&self) -> (r: bool)
        ensures
            r == self.is_terminated(),
    {
        self.terminated
    }

    /// The reactor-bound service.
    pub fn service(&self) -> (r: &S)
        ensures
            *r == self.service_of(),
    {
        &self.service
    }

    /// Tears the stream down: disarms the callback context, then hands back the
    /// service and the context, to be released in that order, so that a
    /// callback that still arrives while the native operation is cancelled
    /// finds a live context and is ignored.
    pub fn close(self) -> (r: (S, Box<CallbackContext<T>>))
        ensures
            r.0 == self.service_of(),
            !r.1.is_armed(),
            r.1.items() == self.pending(),
    {
        let ServiceStream { service, mut sender, terminated: _ } = self;
        sender.disarm();
        (service, sender)
    }

    /// The callback context, for delivering a callback to this stream.
    pub fn context_mut(&mut self) -> (r: &mut CallbackContext<T>)
        ensures
            r.items() == old(self).pending(),
            r.is_armed() == old(self).is_armed(),
            final(self).pending() == final(r).items(),
            final(self).is_armed() == final(r).is_armed(),
            final(self).service_of() == old(self).service_of(),
            final(self).is_terminated() == old(self).is_terminated(),
    {
        &mut self.sender
    }
}

} // verus!
