//! The framing state of a TUN device: whether every packet carries a
//! packet-information header, how packets are framed for the device and how
//! payloads are taken out of what the device delivers.

use vstd::prelude::*;
use crate::buffers::{
    buffer_views, concat, lemma_concat_index, lemma_concat_len, lemma_scatter_concat,
    lemma_total_len_same_lengths, put, put_spec, putv, scatter, total_len,
};
use crate::packet::{
    is_ipv6, packet_information, spec_is_ipv6, spec_packet_information, PacketError,
    ProtocolNumbers, PACKET_INFORMATION_LENGTH,
};

verus! {

/// Appends the bytes of `s` to `v`.
fn append_bytes(v: &mut Vec<u8>, s: &[u8])
    ensures
        final(v)@ == old(v)@ + s@,
{
    v.extend_from_slice(s);
    assert(v@ =~= old(v)@ + s@);
}

/// Appends the bytes of every buffer of `bufs`, in order, to `v`.
fn append_all(v: &mut Vec<u8>, bufs: &[Vec<u8>])
    ensures
        final(v)@ == old(v)@ + concat(buffer_views(bufs@)),
{
    let ghost views = buffer_views(bufs@);
    let n = bufs.len();
    let mut i: usize = 0;
    assert(views.take(0) =~= Seq::<Seq<u8>>::empty());
    assert(v@ =~= old(v)@ + concat(views.take(0)));
    while i < n
        invariant
            n == bufs@.len(),
            views == buffer_views(bufs@),
            i <= n,
            v@ == old(v)@ + concat(views.take(i as int)),
        decreases n - i,
    {
        append_bytes(v, bufs[i].as_slice());
        proof {
            assert(views.take(i + 1).drop_last() =~= views.take(i as int));
            assert(v@ =~= old(v)@ + concat(views.take(i + 1)));
        }
        i = i + 1;
    }
    assert(views.take(n as int) =~= views);
}

/// Buffers that are all empty hold no byte together.
proof fn lemma_total_len_all_empty(bufs: Seq<Seq<u8>>)
    requires
        forall|k: int| 0 <= k < bufs.len() ==> #[trigger] bufs[k].len() == 0,
    ensures
        total_len(bufs) == 0,
    decreases bufs.len(),
{
    if bufs.len() > 0 {
        lemma_total_len_all_empty(bufs.drop_last());
    }
}

/// The number of header bytes in front of every packet when packet
/// information is on or off.
pub open spec fn header_len(packet_information: bool) -> nat {
    if packet_information {
        PACKET_INFORMATION_LENGTH as nat
    } else {
        0
    }
}

/// The bytes the device is handed for one payload: the first `offset` bytes
/// of the header chosen by the payload's IP version, then the payload. With
/// no header the payload goes as it is, whatever it holds.
pub open spec fn spec_frame(offset: nat, protocols: ProtocolNumbers, payload: Seq<u8>) -> Result<
    Seq<u8>,
    PacketError,
> {
    if offset == 0 {
        Ok(payload)
    } else {
        match spec_is_ipv6(payload) {
            Ok(ipv6) => Ok(spec_packet_information(ipv6, protocols).take(offset as int) + payload),
            Err(e) => Err(e),
        }
    }
}

/// What framing a list of buffers gives: nothing to send when a header is
/// due and every buffer is empty; otherwise the frame of their concatenation.
pub open spec fn spec_frame_vectored(
    offset: nat,
    protocols: ProtocolNumbers,
    bufs: Seq<Seq<u8>>,
) -> Result<
    Option<Seq<u8>>,
    PacketError,
> {
    if offset == 0 {
        Ok(Some(concat(bufs)))
    } else if concat(bufs).len() == 0 {
        Ok(None)
    } else {
        match spec_frame(offset, protocols, concat(bufs)) {
            Ok(f) => Ok(Some(f)),
            Err(e) => Err(e),
        }
    }
}

/// The payload bytes of what the device delivered: what follows the header.
pub open spec fn payload_of(offset: nat, frame: Seq<u8>) -> Seq<u8> {
    if frame.len() <= offset {
        Seq::empty()
    } else {
        frame.skip(offset as int)
    }
}

/// How many payload bytes a read reports when the device delivered `frame`
/// and the caller's buffers hold `room` bytes: the bytes read, header
/// excluded, and none when no more than the header arrived.
pub open spec fn received_len(offset: nat, frame_len: nat, room: nat) -> nat {
    let amount = if frame_len <= offset + room { frame_len } else { offset + room };
    if amount <= offset {
        0
    } else {
        (amount - offset) as nat
    }
}

/// The framing parameters of one end of a device.
pub struct FramingView {
    pub offset: nat,
    pub mtu: u16,
}

/// Read-only end of a device: takes payloads out of delivered packets.
pub struct Reader {
    offset: usize,
    mtu: u16,
}

impl View for Reader {
    type V = FramingView;

    closed spec fn view(&self) -> FramingView {
        FramingView { offset: self.offset as nat, mtu: self.mtu }
    }
}

impl Reader {
    #[verifier::type_invariant]
    spec fn inv(self) -> bool {
        self.offset <= PACKET_INFORMATION_LENGTH
    }

    /// Records a new MTU.
    pub fn set_mtu(&mut self, value: u16)
        ensures
            final(self)@ == (FramingView { mtu: value, ..old(self)@ }),
    {
        proof {
            use_type_invariant(&*self);
        }
        self.mtu = value;
    }

    /// How many bytes to read from the device for one packet when the
    /// caller's buffers hold `room` bytes: the header, then the room, no more
    /// than fits in memory.
    pub fn frame_capacity(&self, room: usize) -> (r: usize)
        ensures
            r == if self@.offset + room <= usize::MAX {
                (self@.offset + room) as int
            } else {
                usize::MAX as int
            },
    {
        if room <= usize::MAX - self.offset {
            self.offset + room
        } else {
            usize::MAX
        }
    }

    /// Takes the payload out of `frame`, what the device delivered for one
    /// packet, into `buf`, and returns its length. The header bytes are
    /// dropped; a frame no longer than the header gives nothing.
    pub fn recv_frame(&self, frame: &[u8], buf: &mut [u8]) -> (r: usize)
        ensures
            r == received_len(self@.offset, frame@.len(), old(buf)@.len()),
            final(buf)@ == put_spec(payload_of(self@.offset, frame@), old(buf)@),
    {
        if self.offset == 0 {
            let r = put(frame, buf);
            assert(payload_of(0, frame@) =~= frame@);
            return r;
        }
        if frame.len() <= self.offset {
            assert(buf@ =~= put_spec(Seq::empty(), buf@));
            return 0;
        }
        let payload = vstd::slice::slice_subrange(frame, self.offset, frame.len());
        assert(payload@ =~= frame@.skip(self.offset as int));
        put(payload, buf)
    }

    /// Takes the payload out of `frame` and spreads it over `bufs` in order;
    /// returns its length.
    pub fn recv_frame_vectored(&self, frame: &[u8], bufs: &mut Vec<Vec<u8>>) -> (r: usize)
        ensures
            r == received_len(self@.offset, frame@.len(), total_len(buffer_views(old(bufs)@))),
            buffer_views(final(bufs)@) == scatter(
                payload_of(self@.offset, frame@),
                buffer_views(old(bufs)@),
            ),
    {
        if self.offset == 0 {
            let r = putv(frame, bufs);
            assert(payload_of(0, frame@) =~= frame@);
            return r;
        }
        if frame.len() <= self.offset {
            proof {
                let views = buffer_views(bufs@);
                assert forall|i: int| 0 <= i < views.len() implies #[trigger] scatter(
                    Seq::empty(),
                    views,
                )[i] == views[i] by {
                    assert(scatter(Seq::empty(), views)[i] =~= views[i]);
                }
                assert(scatter(Seq::empty(), views) =~= views);
            }
            return 0;
        }
        let payload = vstd::slice::slice_subrange(frame, self.offset, frame.len());
        assert(payload@ =~= frame@.skip(self.offset as int));
        putv(payload, bufs)
    }
}

/// The framing parameters of the writing end: those of `FramingView`, and
/// the protocol numbers its headers carry.
pub struct WriterView {
    pub offset: nat,
    pub mtu: u16,
    pub protocols: ProtocolNumbers,
}

/// Write-only end of a device: frames payloads for the device.
pub struct Writer {
    offset: usize,
    mtu: u16,
    protocols: ProtocolNumbers,
}

impl View for Writer {
    type V = WriterView;

    closed spec fn view(&self) -> WriterView {
        WriterView { offset: self.offset as nat, mtu: self.mtu, protocols: self.protocols }
    }
}

impl Writer {
    #[verifier::type_invariant]
    spec fn inv(self) -> bool {
        self.offset <= PACKET_INFORMATION_LENGTH
    }

    /// Records a new MTU.
    pub fn set_mtu(&mut self, value: u16)
        ensures
            final(self)@ == (WriterView { mtu: value, ..old(self)@ }),
    {
        proof {
            use_type_invariant(&*self);
        }
        self.mtu = value;
    }

    /// The bytes to hand the device for the payload `buf`: the header, when
    /// one is due, chosen by the payload's IP version, then the payload.
    pub fn frame(&self, buf: &[u8]) -> (r: Result<Vec<u8>, PacketError>)
        ensures
            match r {
                Ok(f) => spec_frame(self@.offset, self@.protocols, buf@) == Ok::<Seq<u8>, PacketError>(f@),
                Err(e) => spec_frame(self@.offset, self@.protocols, buf@) == Err::<Seq<u8>, PacketError>(e),
            },
    {
        proof {
            use_type_invariant(self);
        }
        let mut out: Vec<u8> = Vec::new();
        if self.offset == 0 {
            append_bytes(&mut out, buf);
            assert(out@ =~= buf@);
            return Ok(out);
        }
        let ipv6 = match is_ipv6(buf) {
            Ok(v) => v,
            Err(e) => return Err(e),
        };
        let header = packet_information(ipv6, self.protocols);
        let prefix = vstd::slice::slice_subrange(header.as_slice(), 0, self.offset);
        append_bytes(&mut out, prefix);
        append_bytes(&mut out, buf);
        assert(out@ =~= spec_packet_information(ipv6, self.protocols).take(self.offset as int) + buf@);
        Ok(out)
    }

    /// The bytes to hand the device for the payload spread over `bufs`, or
    /// nothing to send when a header is due and every buffer is empty. The
    /// header is chosen by the first byte of the first non-empty buffer.
    pub fn frame_vectored(&self, bufs: &[Vec<u8>]) -> (r: Result<Option<Vec<u8>>, PacketError>)
        ensures
            match r {
                Ok(Some(f)) => spec_frame_vectored(self@.offset, self@.protocols, buffer_views(bufs@)) == Ok::<
                    Option<Seq<u8>>,
                    PacketError,
                >(Some(f@)),
                Ok(None) => spec_frame_vectored(self@.offset, self@.protocols, buffer_views(bufs@)) == Ok::<
                    Option<Seq<u8>>,
                    PacketError,
                >(None),
                Err(e) => spec_frame_vectored(self@.offset, self@.protocols, buffer_views(bufs@)) == Err::<
                    Option<Seq<u8>>,
                    PacketError,
                >(e),
            },
    {
        proof {
            use_type_invariant(self);
        }
        let ghost views = buffer_views(bufs@);
        let mut out: Vec<u8> = Vec::new();
        if self.offset == 0 {
            append_all(&mut out, bufs);
            assert(out@ =~= concat(views));
            return Ok(Some(out));
        }
        let n = bufs.len();
        let mut i: usize = 0;
        while i < n && bufs[i].len() == 0
            invariant
                n == bufs@.len(),
                views == buffer_views(bufs@),
                i <= n,
                forall|k: int| 0 <= k < i ==> #[trigger] views[k].len() == 0,
            decreases n - i,
        {
            i = i + 1;
        }
        if i == n {
            proof {
                lemma_total_len_all_empty(views);
                lemma_concat_len(views);
            }
            return Ok(None);
        }
        proof {
            lemma_total_len_all_empty(views.take(i as int));
            lemma_concat_index(views, i as int, 0);
            lemma_concat_len(views);
        }
        let ipv6 = match is_ipv6(bufs[i].as_slice()) {
            Ok(v) => v,
            Err(e) => return Err(e),
        };
        let header = packet_information(ipv6, self.protocols);
        let prefix = vstd::slice::slice_subrange(header.as_slice(), 0, self.offset);
        append_bytes(&mut out, prefix);
        append_all(&mut out, bufs);
        assert(out@ =~= spec_packet_information(ipv6, self.protocols).take(self.offset as int) + concat(views));
        Ok(Some(out))
    }
}

/// The state of a device: its two ends, its MTU and whether packets carry
/// packet information.
pub struct TunView {
    pub reader: FramingView,
    pub writer: WriterView,
    pub mtu: u16,
    pub packet_information: bool,
}

impl TunView {
    /// Both ends agree with the device on the header length and the MTU.
    pub open spec fn wf(self) -> bool {
        &&& self.reader.offset == header_len(self.packet_information)
        &&& self.writer.offset == header_len(self.packet_information)
        &&& self.reader.mtu == self.mtu
        &&& self.writer.mtu == self.mtu
    }

    /// The state after the MTU has been set to `value` on the device and on
    /// both ends.
    pub open spec fn with_mtu(self, value: u16) -> TunView {
        TunView {
            reader: FramingView { mtu: value, ..self.reader },
            writer: WriterView { mtu: value, ..self.writer },
            mtu: value,
            ..self
        }
    }
}

/// A device's framing state, shared by its reading and writing ends.
pub struct Tun {
    reader: Reader,
    writer: Writer,
    mtu: u16,
    packet_information: bool,
}

impl View for Tun {
    type V = TunView;

    closed spec fn view(&self) -> TunView {
        TunView {
            reader: self.reader@,
            writer: self.writer@,
            mtu: self.mtu,
            packet_information: self.packet_information,
        }
    }
}

impl Tun {
    /// A device with the given MTU, whose packets carry a header of
    /// `PACKET_INFORMATION_LENGTH` bytes when `packet_information` is set,
    /// naming protocols by `protocols`.
    pub fn new(mtu: u16, packet_information: bool, protocols: ProtocolNumbers) -> (r: Tun)
        ensures
            r@.wf(),
            r@.mtu == mtu,
            r@.packet_information == packet_information,
            r@.writer.protocols == protocols,
    {
        let offset = if packet_information {
            PACKET_INFORMATION_LENGTH
        } else {
            0
        };
        Tun {
            reader: Reader { offset, mtu },
            writer: Writer { offset, mtu, protocols },
            mtu,
            packet_information,
        }
    }

    #[verifier::type_invariant]
    spec fn inv(self) -> bool {
        self@.wf()
    }

    /// Sets the MTU of the device and of both ends.
    pub fn set_mtu(&mut self, value: u16)
        ensures
            final(self)@ == old(self)@.with_mtu(value),
            final(self)@.wf(),
    {
        proof {
            use_type_invariant(&*self);
        }
        let reader = Reader { offset: self.reader.offset, mtu: value };
        let writer = Writer {
            offset: self.writer.offset,
            mtu: value,
            protocols: self.writer.protocols,
        };
        *self = Tun { reader, writer, mtu: value, packet_information: self.packet_information };
    }

    /// The reading end.
    pub fn reader(&self) -> (r: &Reader)
        ensures
            r@ == self@.reader,
    {
        &self.reader
    }

    /// The writing end.
    pub fn writer(&self) -> (r: &Writer)
        ensures
            r@ == self@.writer,
    {
        &self.writer
    }

    /// The MTU of the device.
    pub fn mtu(&self) -> (r: u16)
        ensures
            r == self@.mtu,
            self@.wf(),
    {
        proof {
            use_type_invariant(self);
        }
        self.mtu
    }

    /// Whether packets carry packet information; both ends agree with it on
    /// the header length.
    pub fn packet_information(&self) -> (r: bool)
        ensures
            r == self@.packet_information,
            self@.wf(),
    {
        proof {
            use_type_invariant(self);
        }
        self.packet_information
    }

    /// How many bytes to read from the device for one packet; see
    /// `Reader::frame_capacity`.
    pub fn frame_capacity(&self, room: usize) -> (r: usize)
        ensures
            r == if self@.reader.offset + room <= usize::MAX {
                (self@.reader.offset + room) as int
            } else {
                usize::MAX as int
            },
    {
        self.reader.frame_capacity(room)
    }

    /// Takes the payload out of a delivered packet; see `Reader::recv_frame`.
    pub fn recv_frame(&self, frame: &[u8], buf: &mut [u8]) -> (r: usize)
        ensures
            r == received_len(self@.reader.offset, frame@.len(), old(buf)@.len()),
            final(buf)@ == put_spec(payload_of(self@.reader.offset, frame@), old(buf)@),
    {
        self.reader.recv_frame(frame, buf)
    }

    /// Takes the payload out of a delivered packet into several buffers; see
    /// `Reader::recv_frame_vectored`.
    pub fn recv_frame_vectored(&self, frame: &[u8], bufs: &mut Vec<Vec<u8>>) -> (r: usize)
        ensures
            r == received_len(
                self@.reader.offset,
                frame@.len(),
                total_len(buffer_views(old(bufs)@)),
            ),
            buffer_views(final(bufs)@) == scatter(
                payload_of(self@.reader.offset, frame@),
                buffer_views(old(bufs)@),
            ),
    {
        self.reader.recv_frame_vectored(frame, bufs)
    }

    /// Frames a payload for the device; see `Writer::frame`.
    pub fn frame(&self, buf: &[u8]) -> (r: Result<Vec<u8>, PacketError>)
        ensures
            match r {
                Ok(f) => spec_frame(self@.writer.offset, self@.writer.protocols, buf@) == Ok::<Seq<u8>, PacketError>(f@),
                Err(e) => spec_frame(self@.writer.offset, self@.writer.protocols, buf@) == Err::<Seq<u8>, PacketError>(e),
            },
    {
        self.writer.frame(buf)
    }

    /// Frames a payload spread over several buffers; see
    /// `Writer::frame_vectored`.
    pub fn frame_vectored(&self, bufs: &[Vec<u8>]) -> (r: Result<Option<Vec<u8>>, PacketError>)
        ensures
            match r {
                Ok(Some(f)) => spec_frame_vectored(self@.writer.offset, self@.writer.protocols, buffer_views(bufs@))
                    == Ok::<Option<Seq<u8>>, PacketError>(Some(f@)),
                Ok(None) => spec_frame_vectored(self@.writer.offset, self@.writer.protocols, buffer_views(bufs@)) == Ok::<
                    Option<Seq<u8>>,
                    PacketError,
                >(None),
                Err(e) => spec_frame_vectored(self@.writer.offset, self@.writer.protocols, buffer_views(bufs@)) == Err::<
                    Option<Seq<u8>>,
                    PacketError,
                >(e),
            },
    {
        self.writer.frame_vectored(bufs)
    }
}

/// Setting the MTU keeps both ends in agreement with the device, changes
/// nothing but the MTU, and a later query gives back the value set.
pub proof fn lemma_set_mtu_keeps_wf(t: TunView, value: u16)
    requires
        t.wf(),
    ensures
        t.with_mtu(value).wf(),
        t.with_mtu(value).mtu == value,
        t.with_mtu(value).packet_information == t.packet_information,
        t.with_mtu(value).reader.offset == t.reader.offset,
        t.with_mtu(value).writer.offset == t.writer.offset,
        t.with_mtu(value).writer.protocols == t.writer.protocols,
{
}

/// What the payload of a frame is: the payload that was framed.
proof fn lemma_payload_of_frame(
    offset: nat,
    protocols: ProtocolNumbers,
    payload: Seq<u8>,
    frame: Seq<u8>,
)
    requires
        offset <= PACKET_INFORMATION_LENGTH,
        spec_frame(offset, protocols, payload) == Ok::<Seq<u8>, PacketError>(frame),
    ensures
        frame.len() == offset + payload.len(),
        payload_of(offset, frame) == payload,
{
    if offset == 0 {
        assert(payload_of(offset, frame) =~= payload);
    } else {
        let ipv6 = spec_is_ipv6(payload)->Ok_0;
        assert(spec_packet_information(ipv6, protocols).len() == PACKET_INFORMATION_LENGTH);
        assert(frame.skip(offset as int) =~= payload);
    }
}

/// Reading what the writing end framed for a payload, into a buffer with
/// room for it, gives back exactly that payload and leaves the rest of the
/// buffer as it was.
pub proof fn lemma_frame_round_trip(t: TunView, payload: Seq<u8>, frame: Seq<u8>, buf: Seq<u8>)
    requires
        t.wf(),
        spec_frame(t.writer.offset, t.writer.protocols, payload) == Ok::<Seq<u8>, PacketError>(frame),
        payload.len() <= buf.len(),
    ensures
        received_len(t.reader.offset, frame.len(), buf.len()) == payload.len(),
        put_spec(payload_of(t.reader.offset, frame), buf).take(payload.len() as int) == payload,
        put_spec(payload_of(t.reader.offset, frame), buf).skip(payload.len() as int) == buf.skip(
            payload.len() as int,
        ),
{
    lemma_payload_of_frame(t.writer.offset, t.writer.protocols, payload, frame);
    assert(put_spec(payload, buf).take(payload.len() as int) =~= payload);
    assert(put_spec(payload, buf).skip(payload.len() as int) =~= buf.skip(payload.len() as int));
}

/// Reading what the writing end framed for a payload spread over several
/// buffers, into buffers of the same lengths, gives back those buffers.
pub proof fn lemma_frame_vectored_round_trip(
    t: TunView,
    bufs: Seq<Seq<u8>>,
    frame: Seq<u8>,
    into: Seq<Seq<u8>>,
)
    requires
        t.wf(),
        spec_frame_vectored(t.writer.offset, t.writer.protocols, bufs) == Ok::<Option<Seq<u8>>, PacketError>(
            Some(frame),
        ),
        into.len() == bufs.len(),
        forall|i: int| 0 <= i < bufs.len() ==> #[trigger] into[i].len() == bufs[i].len(),
    ensures
        received_len(t.reader.offset, frame.len(), total_len(into)) == total_len(bufs),
        scatter(payload_of(t.reader.offset, frame), into) == bufs,
{
    lemma_concat_len(bufs);
    lemma_total_len_same_lengths(into, bufs);
    lemma_payload_of_frame(t.writer.offset, t.writer.protocols, concat(bufs), frame);
    lemma_scatter_concat(bufs, into);
}

/// Buffers that hold no byte together are all empty.
proof fn lemma_total_len_zero_all_empty(bufs: Seq<Seq<u8>>)
    requires
        total_len(bufs) == 0,
    ensures
        forall|k: int| 0 <= k < bufs.len() ==> #[trigger] bufs[k].len() == 0,
    decreases bufs.len(),
{
    if bufs.len() > 0 {
        lemma_total_len_zero_all_empty(bufs.drop_last());
        assert forall|k: int| 0 <= k < bufs.len() implies #[trigger] bufs[k].len() == 0 by {
            if k < bufs.len() - 1 {
                assert(bufs.drop_last()[k] == bufs[k]);
            }
        }
    }
}

/// Framing a payload without a header hands it on as it is. With a header
/// it succeeds exactly when the payload is not empty and its version nibble
/// is 4 or 6; the frame is then the first `offset` bytes of the big-endian
/// number of the payload's protocol (IPv6 for nibble 6, IPv4 for nibble 4),
/// followed by the payload, whatever the payload's length.
pub proof fn lemma_frame_header_names_version(
    offset: nat,
    protocols: ProtocolNumbers,
    payload: Seq<u8>,
)
    requires
        offset <= PACKET_INFORMATION_LENGTH,
    ensures
        offset == 0 ==> spec_frame(offset, protocols, payload) == Ok::<Seq<u8>, PacketError>(
            payload,
        ),
        offset > 0 ==> ((spec_frame(offset, protocols, payload) is Ok) <==> (payload.len() > 0 && (
        payload[0] / 16 == 4 || payload[0] / 16 == 6))),
        offset > 0 && payload.len() > 0 && payload[0] / 16 == 6 ==> spec_frame(
            offset,
            protocols,
            payload,
        ) == Ok::<Seq<u8>, PacketError>(
            crate::packet::be_bytes(protocols.ipv6).take(offset as int) + payload,
        ),
        offset > 0 && payload.len() > 0 && payload[0] / 16 == 4 ==> spec_frame(
            offset,
            protocols,
            payload,
        ) == Ok::<Seq<u8>, PacketError>(
            crate::packet::be_bytes(protocols.ipv4).take(offset as int) + payload,
        ),
{
    crate::packet::lemma_is_ipv6_reads_version_nibble(payload);
}

/// A payload spread over buffers is framed as their concatenation would be,
/// and nothing is sent only when a header is due and every buffer is empty:
/// as soon as one buffer holds a byte, a frame or an error comes back.
pub proof fn lemma_frame_vectored_sends_unless_all_empty(
    offset: nat,
    protocols: ProtocolNumbers,
    bufs: Seq<Seq<u8>>,
)
    ensures
        (spec_frame_vectored(offset, protocols, bufs) == Ok::<Option<Seq<u8>>, PacketError>(None))
            <==> (offset > 0 && forall|k: int| 0 <= k < bufs.len() ==> #[trigger] bufs[k].len()
            == 0),
        (offset == 0 || exists|k: int| 0 <= k < bufs.len() && #[trigger] bufs[k].len() > 0)
            ==> spec_frame_vectored(offset, protocols, bufs) == match spec_frame(
            offset,
            protocols,
            concat(bufs),
        ) {
            Ok(f) => Ok::<Option<Seq<u8>>, PacketError>(Some(f)),
            Err(e) => Err::<Option<Seq<u8>>, PacketError>(e),
        },
{
    lemma_concat_len(bufs);
    if concat(bufs).len() == 0 {
        lemma_total_len_zero_all_empty(bufs);
    }
    if forall|k: int| 0 <= k < bufs.len() ==> #[trigger] bufs[k].len() == 0 {
        lemma_total_len_all_empty(bufs);
    }
}

} // verus!
