use std::io;
use std::io::{IoSlice, IoSliceMut};
use std::task::{Context, Poll};
use tun_easytier::asyncio::poll_result;
use tun_easytier::{try_poll_fn, AsyncRead, AsyncReadExt, AsyncWrite, AsyncWriteExt};

struct Queue {
    packet: Option<Vec<u8>>,
    written: Vec<Vec<u8>>,
    ready_to_write: bool,
}

impl AsyncRead for Queue {
    fn poll_read(&mut self, _cx: &mut Context<'_>, buf: &mut [u8]) -> Poll<io::Result<usize>> {
        match self.packet.take() {
            Some(p) => Poll::Ready(Ok(tun_easytier::buffers::put(&p, buf))),
            None => Poll::Pending,
        }
    }

    fn poll_read_vectored(
        &mut self,
        cx: &mut Context<'_>,
        bufs: &mut [IoSliceMut<'_>],
    ) -> Poll<io::Result<usize>> {
        self.poll_read(cx, &mut bufs[0])
    }
}

impl AsyncWrite for Queue {
    fn poll_write(&mut self, _cx: &mut Context<'_>, buf: &[u8]) -> Poll<io::Result<()>> {
        if self.ready_to_write {
            self.written.push(buf.to_vec());
            Poll::Ready(Ok(()))
        } else {
            Poll::Pending
        }
    }

    fn poll_write_vectored(&mut self, cx: &mut Context<'_>, bufs: &[IoSlice<'_>]) -> Poll<io::Result<()>> {
        self.poll_write(cx, &bufs[0])
    }
}

#[test]
fn poll_result_passes_ready_results_through() {
    assert_eq!(poll_result::<u8>(Poll::Ready(Ok(3))).unwrap(), 3);
    let e = poll_result::<u8>(Poll::Ready(Err(io::Error::from(io::ErrorKind::BrokenPipe))));
    assert_eq!(e.unwrap_err().kind(), io::ErrorKind::BrokenPipe);
    let p = poll_result::<u8>(Poll::Pending);
    assert_eq!(p.unwrap_err().kind(), io::ErrorKind::WouldBlock);
}

#[test]
fn try_poll_fn_returns_a_ready_result() {
    let r = try_poll_fn(|_cx| Poll::Ready(Ok(42u32)));
    assert_eq!(r.unwrap(), 42);
    let r = try_poll_fn(|_cx| Poll::Ready(Err::<u32, _>(io::Error::from(io::ErrorKind::BrokenPipe))));
    assert_eq!(r.unwrap_err().kind(), io::ErrorKind::BrokenPipe);
}

#[test]
fn try_poll_fn_turns_pending_into_would_block() {
    let r = try_poll_fn(|_cx| Poll::<io::Result<u32>>::Pending);
    assert_eq!(r.unwrap_err().kind(), io::ErrorKind::WouldBlock);
}

#[test]
fn try_read_reads_a_ready_packet_or_would_block() {
    let mut q = Queue { packet: Some(vec![1, 2, 3]), written: vec![], ready_to_write: false };
    let mut buf = [0u8; 8];
    assert_eq!(q.try_read(&mut buf).unwrap(), 3);
    assert_eq!(&buf[..3], &[1, 2, 3]);
    assert_eq!(q.try_read(&mut buf).unwrap_err().kind(), io::ErrorKind::WouldBlock);
    let mut a = [0u8; 2];
    let mut slices = [IoSliceMut::new(&mut a)];
    assert_eq!(q.try_read_vectored(&mut slices).unwrap_err().kind(), io::ErrorKind::WouldBlock);
}

#[test]
fn try_write_writes_when_ready_or_would_block() {
    let mut q = Queue { packet: None, written: vec![], ready_to_write: false };
    assert_eq!(q.try_write(&[1]).unwrap_err().kind(), io::ErrorKind::WouldBlock);
    q.ready_to_write = true;
    q.try_write(&[1, 2]).unwrap();
    q.try_write_vectored(&[IoSlice::new(&[3])]).unwrap();
    assert_eq!(q.written, vec![vec![1, 2], vec![3]]);
}
