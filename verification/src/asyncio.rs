//! Readiness-based reading and writing, and the one-shot poll that turns a
//! pending operation into a "would block" error.

use vstd::prelude::*;
use std::io;
use std::io::{IoSlice, IoSliceMut};
use std::task::{Context, Poll, Waker};

verus! {

#[verifier::external_type_specification]
#[verifier::external_body]
pub struct ExContext<'a>(Context<'a>);

#[verifier::external_type_specification]
#[verifier::external_body]
pub struct ExWaker(Waker);

#[verifier::external_type_specification]
#[verifier::reject_recursive_types(T)]
pub struct ExPoll<T>(Poll<T>);

#[verifier::external_type_specification]
#[verifier::external_body]
pub struct ExIoError(io::Error);

#[verifier::external_type_specification]
#[verifier::external_body]
pub struct ExIoSlice<'a>(IoSlice<'a>);

#[verifier::external_type_specification]
#[verifier::external_body]
pub struct ExIoSliceMut<'a>(IoSliceMut<'a>);

/// `Waker::noop`: a waker that does nothing when woken.
#[verifier::external_body]
fn noop_waker() -> &'static Waker {
    Waker::noop()
}

/// `Context::from_waker`: a context that wakes `waker`.
#[verifier::external_body]
fn context_from_waker<'a>(waker: &'a Waker) -> Context<'a> {
    Context::from_waker(waker)
}

/// Whether the kind of `e` is `io::ErrorKind::WouldBlock`: the operation
/// would have had to wait.
pub uninterp spec fn is_would_block(e: io::Error) -> bool;

/// `io::Error::from(io::ErrorKind::WouldBlock)`: std builds an error of the
/// kind it is given, so its kind is `WouldBlock`.
#[verifier::external_body]
fn would_block() -> (r: io::Error)
    ensures
        is_would_block(r),
{
    io::Error::from(io::ErrorKind::WouldBlock)
}

/// What a one-shot poll gives: the result of a ready poll as it is, a
/// "would block" error for a pending one.
pub open spec fn polled_once<T>(polled: Poll<io::Result<T>>, r: io::Result<T>) -> bool {
    match polled {
        Poll::Ready(result) => r == result,
        Poll::Pending => r is Err && is_would_block(r->Err_0),
    }
}

/// The outcome of polling an operation once: its result when it was ready,
/// a `WouldBlock` error when it was not.
pub fn poll_result<T>(polled: Poll<io::Result<T>>) -> (r: io::Result<T>)
    ensures
        polled_once(polled, r),
{
    match polled {
        Poll::Ready(result) => result,
        Poll::Pending => Err(would_block()),
    }
}

/// Polls `f` once with a context that is never woken, and turns a pending
/// poll into a `WouldBlock` error; a ready result, error or not, comes back
/// as it is. `f` is taken as `FnOnce`, so it is called no more than once, and
/// the result comes from that one call.
pub fn try_poll_fn<T, F: FnOnce(&mut Context<'_>) -> Poll<io::Result<T>>>(f: F) -> (r: io::Result<T>)
    requires
        forall|cx: &mut Context<'_>| call_requires(f, (cx,)),
    ensures
        exists|cx: &mut Context<'_>, polled: Poll<io::Result<T>>|
            call_ensures(f, (cx,), polled) && polled_once(polled, r),
{
    let waker = noop_waker();
    let mut cx = context_from_waker(waker);
    let polled = f(&mut cx);
    poll_result(polled)
}

/// Something that can be read from once it is ready.
pub trait AsyncRead {
    fn poll_read(&mut self, cx: &mut Context<'_>, buf: &mut [u8]) -> Poll<io::Result<usize>>;

    fn poll_read_vectored(
        &mut self,
        cx: &mut Context<'_>,
        bufs: &mut [IoSliceMut<'_>],
    ) -> Poll<io::Result<usize>>;
}

/// Reads that do not wait: each polls once with a context that is never
/// woken, and a pending read becomes a `WouldBlock` error.
pub trait AsyncReadExt: AsyncRead {
    /// Reads into `buf` if a packet is ready now: `poll_read` is called once,
    /// on this reader and `buf`, and its ready result comes back as it is; a
    /// pending poll gives an error.
    fn try_read(&mut self, buf: &mut [u8]) -> (r: io::Result<usize>)
        ensures
            exists|
                s: &mut Self,
                cx: &mut Context<'_>,
                b: &mut [u8],
                polled: Poll<io::Result<usize>>,
            |
                {
                    &&& call_ensures(Self::poll_read, (s, cx, b), polled)
                    &&& polled_once(polled, r)
                    &&& &*s == &*old(self)
                    &&& &*final(s) == &*final(self)
                    &&& b@ == old(buf)@
                    &&& final(b)@ == final(buf)@
                },
    {
        let waker = noop_waker();
        let mut cx = context_from_waker(waker);
        let poll = Self::poll_read;
        let polled = poll(self, &mut cx, buf);
        poll_result(polled)
    }

    /// Reads into `bufs` if a packet is ready now: `poll_read_vectored` is
    /// called once, on this reader and `bufs`, and its ready result comes back
    /// as it is; a pending poll gives an error.
    fn try_read_vectored(&mut self, bufs: &mut [IoSliceMut<'_>]) -> (r: io::Result<usize>)
        ensures
            exists|
                s: &mut Self,
                cx: &mut Context<'_>,
                b: &mut [IoSliceMut<'_>],
                polled: Poll<io::Result<usize>>,
            |
                {
                    &&& call_ensures(Self::poll_read_vectored, (s, cx, b), polled)
                    &&& polled_once(polled, r)
                    &&& &*s == &*old(self)
                    &&& &*final(s) == &*final(self)
                    &&& b@ == old(bufs)@
                    &&& final(b)@ == final(bufs)@
                },
    {
        let waker = noop_waker();
        let mut cx = context_from_waker(waker);
        let poll = Self::poll_read_vectored;
        let polled = poll(self, &mut cx, bufs);
        poll_result(polled)
    }
}

impl<T: AsyncRead + ?Sized> AsyncReadExt for T {
}

/// Something that can be written to once it is ready.
pub trait AsyncWrite {
    fn poll_write(&mut self, cx: &mut Context<'_>, buf: &[u8]) -> Poll<io::Result<()>>;

    fn poll_write_vectored(&mut self, cx: &mut Context<'_>, bufs: &[IoSlice<'_>]) -> Poll<
        io::Result<()>,
    >;
}

/// Writes that do not wait: each polls once with a context that is never
/// woken, and a pending write becomes a `WouldBlock` error.
pub trait AsyncWriteExt: AsyncWrite {
    /// Writes `buf` as one packet if the device is ready now: `poll_write` is
    /// called once, on this writer and `buf`, and its ready result comes back
    /// as it is; a pending poll gives an error.
    fn try_write(&mut self, buf: &[u8]) -> (r: io::Result<()>)
        ensures
            exists|s: &mut Self, cx: &mut Context<'_>, polled: Poll<io::Result<()>>|
                {
                    &&& call_ensures(Self::poll_write, (s, cx, buf), polled)
                    &&& polled_once(polled, r)
                    &&& &*s == &*old(self)
                    &&& &*final(s) == &*final(self)
                },
    {
        let waker = noop_waker();
        let mut cx = context_from_waker(waker);
        let poll = Self::poll_write;
        let polled = poll(self, &mut cx, buf);
        poll_result(polled)
    }

    /// Writes `bufs` as one packet if the device is ready now:
    /// `poll_write_vectored` is called once, on this writer and `bufs`, and its
    /// ready result comes back as it is; a pending poll gives an error.
    fn try_write_vectored(&mut self, bufs: &[IoSlice<'_>]) -> (r: io::Result<()>)
        ensures
            exists|s: &mut Self, cx: &mut Context<'_>, polled: Poll<io::Result<()>>|
                {
                    &&& call_ensures(Self::poll_write_vectored, (s, cx, bufs), polled)
                    &&& polled_once(polled, r)
                    &&& &*s == &*old(self)
                    &&& &*final(s) == &*final(self)
                },
    {
        let waker = noop_waker();
        let mut cx = context_from_waker(waker);
        let poll = Self::poll_write_vectored;
        let polled = poll(self, &mut cx, bufs);
        poll_result(polled)
    }
}

impl<T: AsyncWrite + ?Sized> AsyncWriteExt for T {
}

} // verus!
