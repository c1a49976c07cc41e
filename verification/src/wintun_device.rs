//! The decisions of a device driven through the Wintun driver: which
//! address of an adapter is reported, what a failed packet allocation means,
//! how large a send packet is, and the settings a new adapter gets.

use vstd::prelude::*;
use crate::buffers::{buffer_views, size, total_len};

verus! {

/// An IP address, by its octets.
#[derive(Debug, Clone, Copy, PartialEq, Eq)]
pub enum IpAddress {
    V4([u8; 4]),
    V6([u8; 16]),
}

/// Why a device query failed.
#[derive(Debug, Clone, Copy, PartialEq, Eq, Structural)]
pub enum DeviceError {
    /// The adapter has no address of the kind asked for.
    InvalidConfig,
    /// The driver has no such setting.
    NotImplemented,
}

/// The first IPv4 address of `addrs`, if there is one.
pub open spec fn spec_first_ipv4(addrs: Seq<IpAddress>) -> Option<IpAddress>
    decreases addrs.len(),
{
    if addrs.len() == 0 {
        None
    } else if addrs[0] is V4 {
        Some(addrs[0])
    } else {
        spec_first_ipv4(addrs.drop_first())
    }
}

/// The reported address is the first IPv4 entry of the list, wherever it
/// stands, the last included, and there is none exactly when no entry is
/// IPv4.
pub proof fn lemma_first_ipv4_is_first_v4_entry(addrs: Seq<IpAddress>)
    ensures
        spec_first_ipv4(addrs) is None <==> forall|j: int| 0 <= j < addrs.len() ==> !(
        #[trigger] addrs[j] is V4),
        forall|k: int|
            0 <= k < addrs.len() && #[trigger] addrs[k] is V4 && (forall|j: int|
                0 <= j < k ==> !(#[trigger] addrs[j] is V4)) ==> spec_first_ipv4(addrs) == Some(
                addrs[k],
            ),
    decreases addrs.len(),
{
    if addrs.len() > 0 {
        let rest = addrs.drop_first();
        lemma_first_ipv4_is_first_v4_entry(rest);
        assert forall|j: int| 0 <= j < rest.len() implies rest[j] == addrs[j + 1] by {}
        if spec_first_ipv4(addrs) is None {
            assert forall|j: int| 0 <= j < addrs.len() implies !(#[trigger] addrs[j] is V4) by {
                if j > 0 {
                    assert(rest[j - 1] == addrs[j]);
                }
            }
        }
        assert forall|k: int|
            0 <= k < addrs.len() && #[trigger] addrs[k] is V4 && (forall|j: int|
                0 <= j < k ==> !(#[trigger] addrs[j] is V4)) implies spec_first_ipv4(addrs) == Some(
            addrs[k],
        ) by {
            if k > 0 {
                assert(!(addrs[0] is V4));
                assert(rest[k - 1] == addrs[k]);
                assert forall|j: int| 0 <= j < k - 1 implies !(#[trigger] rest[j] is V4) by {
                    assert(rest[j] == addrs[j + 1]);
                }
            }
        }
    }
}

/// The first IPv4 address of `addrs`, or `InvalidConfig` when there is none.
pub fn first_ipv4(addrs: &[IpAddress]) -> (r: Result<IpAddress, DeviceError>)
    ensures
        match spec_first_ipv4(addrs@) {
            Some(a) => r == Ok::<IpAddress, DeviceError>(a),
            None => r == Err::<IpAddress, DeviceError>(DeviceError::InvalidConfig),
        },
{
    let n = addrs.len();
    let mut i: usize = 0;
    assert(addrs@.skip(0) =~= addrs@);
    while i < n
        invariant
            n == addrs@.len(),
            i <= n,
            spec_first_ipv4(addrs@) == spec_first_ipv4(addrs@.skip(i as int)),
        decreases n - i,
    {
        assert(addrs@.skip(i as int).drop_first() =~= addrs@.skip(i + 1));
        let a = addrs[i];
        match a {
            IpAddress::V4(_) => {
                return Ok(a);
            },
            IpAddress::V6(_) => {},
        }
        i = i + 1;
    }
    Err(DeviceError::InvalidConfig)
}

/// The octets of an IPv4 address; the driver can only be given IPv4
/// addresses.
pub fn ipv4_octets(value: IpAddress) -> (r: [u8; 4])
    requires
        value is V4,
    ensures
        value == IpAddress::V4(r),
{
    match value {
        IpAddress::V4(octets) => octets,
        IpAddress::V6(_) => {
            assert(false);
            [0, 0, 0, 0]
        },
    }
}

/// What the error of a failed packet allocation says: an I/O error with the
/// operating system's code, when it has one, or another kind of error.
#[derive(Debug, Clone, Copy, PartialEq, Eq, Structural)]
pub enum AllocFailure {
    Io(Option<i32>),
    Other,
}

/// What a send makes of a failed packet allocation.
#[derive(Debug, Clone, Copy, PartialEq, Eq, Structural)]
pub enum SendFailure {
    /// The ring is full: the packet is dropped and the send succeeds.
    Dropped,
    /// The session has ended: the send fails with a broken pipe.
    BrokenPipe,
    /// The I/O error is handed on as it is.
    Io,
    /// Any other error is handed on as an I/O error of kind "other".
    Other,
}

/// Win32 error code of a full buffer.
pub open spec fn error_buffer_overflow_value() -> u32 {
    111
}

/// Win32 error code of reaching the end of a file.
pub open spec fn error_handle_eof_value() -> u32 {
    38
}

/// Reads `windows_sys::Win32::Foundation::ERROR_BUFFER_OVERFLOW`, which
/// windows-sys defines as 111.
#[verifier::external_body]
fn error_buffer_overflow() -> (r: u32)
    ensures
        r == error_buffer_overflow_value(),
{
    windows_sys::Win32::Foundation::ERROR_BUFFER_OVERFLOW
}

/// Reads `windows_sys::Win32::Foundation::ERROR_HANDLE_EOF`, which
/// windows-sys defines as 38.
#[verifier::external_body]
fn error_handle_eof() -> (r: u32)
    ensures
        r == error_handle_eof_value(),
{
    windows_sys::Win32::Foundation::ERROR_HANDLE_EOF
}

/// What a send makes of a failed packet allocation.
pub open spec fn spec_send_failure(failure: AllocFailure) -> SendFailure {
    match failure {
        AllocFailure::Io(Some(code)) => if code == error_buffer_overflow_value() {
            SendFailure::Dropped
        } else if code == error_handle_eof_value() {
            SendFailure::BrokenPipe
        } else {
            SendFailure::Io
        },
        AllocFailure::Io(None) => SendFailure::Io,
        AllocFailure::Other => SendFailure::Other,
    }
}

/// Classifies a failed packet allocation: a full ring drops the packet, an
/// ended session is a broken pipe, other I/O errors pass through.
pub fn send_failure(failure: AllocFailure) -> (r: SendFailure)
    ensures
        r == spec_send_failure(failure),
{
    match failure {
        AllocFailure::Io(Some(code)) => {
            if code == error_buffer_overflow() as i32 {
                SendFailure::Dropped
            } else if code == error_handle_eof() as i32 {
                SendFailure::BrokenPipe
            } else {
                SendFailure::Io
            }
        },
        AllocFailure::Io(None) => SendFailure::Io,
        AllocFailure::Other => SendFailure::Other,
    }
}

/// The size asked of the driver for a packet of `len` bytes: the driver
/// takes a 16-bit size, so the length is cut to its low 16 bits.
pub fn packet_size(len: usize) -> (r: u16)
    ensures
        r == len % 0x1_0000,
{
    let r = len as u16;
    assert(r == len % 0x1_0000) by (bit_vector)
        requires
            r == len as u16,
    ;
    r
}

/// The ring capacity a session is started with: the configured one, or
/// `max`, the driver's largest.
pub fn ring_capacity(configured: Option<u32>, max: u32) -> (r: u32)
    ensures
        r == match configured {
            Some(c) => c,
            None => max,
        },
{
    match configured {
        Some(c) => c,
        None => max,
    }
}

/// How large a packet to allocate for sending `bufs` together: nothing to
/// send when they hold no byte, otherwise their total length.
pub fn send_size(bufs: &[Vec<u8>]) -> (r: Option<usize>)
    requires
        total_len(buffer_views(bufs@)) <= usize::MAX,
    ensures
        r == if total_len(buffer_views(bufs@)) == 0 {
            None::<usize>
        } else {
            Some(total_len(buffer_views(bufs@)) as usize)
        },
{
    let total = size(bufs);
    if total == 0 {
        None
    } else {
        Some(total)
    }
}

/// The name an adapter is opened or created under.
pub fn adapter_name(configured: Option<&str>) -> (r: &str)
    ensures
        match configured {
            Some(name) => r@ == name@,
            None => r@ == "wintun"@,
        },
{
    match configured {
        Some(name) => name,
        None => "wintun",
    }
}

/// The address and netmask an adapter is configured with: the configured
/// ones, or 10.1.0.2 and 255.255.255.0.
pub fn network_addresses(address: Option<IpAddress>, netmask: Option<IpAddress>) -> (r: (
    IpAddress,
    IpAddress,
))
    ensures
        r.0 == match address {
            Some(a) => a,
            None => IpAddress::V4([10, 1, 0, 2]),
        },
        r.1 == match netmask {
            Some(m) => m,
            None => IpAddress::V4([255, 255, 255, 0]),
        },
{
    let a = match address {
        Some(a) => a,
        None => IpAddress::V4([10, 1, 0, 2]),
    };
    let m = match netmask {
        Some(m) => m,
        None => IpAddress::V4([255, 255, 255, 0]),
    };
    (a, m)
}

/// What happened to the thread that hands received packets to an async
/// reader.
#[derive(Debug, Clone, PartialEq, Eq)]
pub enum ReaderEvent {
    /// The thread started; `has_wait_event` tells whether the driver gave an
    /// event to wait on for packets.
    Started { has_wait_event: bool },
    /// A wait ended; `read_ready` tells whether it was the packet event that
    /// ended it (rather than cancellation or a failure).
    Woken { read_ready: bool },
    /// A receive gave a packet's bytes, or nothing when no packet is queued.
    Received(Option<Vec<u8>>),
    /// A receive failed.
    ReceiveFailed,
    /// A packet was handed on; `accepted` is false when the reader is gone.
    Forwarded { accepted: bool },
}

/// What the thread does next.
#[derive(Debug, Clone, PartialEq, Eq)]
pub enum ReaderAction {
    /// End the thread.
    Stop,
    /// Wait for the packet event or cancellation.
    Wait,
    /// Take the next packet from the driver without waiting.
    Receive,
    /// Hand these bytes to the reader.
    Forward(Vec<u8>),
}

/// The next step of the thread after `event`: wait while there is an event
/// to wait on, drain the queue after each wake-up, hand on every packet, and
/// stop on cancellation, on a failed receive or when the reader is gone.
pub open spec fn spec_reader_step(event: ReaderEvent) -> ReaderAction {
    match event {
        ReaderEvent::Started { has_wait_event } => if has_wait_event {
            ReaderAction::Wait
        } else {
            ReaderAction::Stop
        },
        ReaderEvent::Woken { read_ready } => if read_ready {
            ReaderAction::Receive
        } else {
            ReaderAction::Stop
        },
        ReaderEvent::Received(Some(packet)) => ReaderAction::Forward(packet),
        ReaderEvent::Received(None) => ReaderAction::Wait,
        ReaderEvent::ReceiveFailed => ReaderAction::Stop,
        ReaderEvent::Forwarded { accepted } => if accepted {
            ReaderAction::Receive
        } else {
            ReaderAction::Stop
        },
    }
}

/// The next step of the thread that hands received packets to an async
/// reader.
pub fn reader_step(event: ReaderEvent) -> (a: ReaderAction)
    ensures
        a == spec_reader_step(event),
{
    match event {
        ReaderEvent::Started { has_wait_event } => if has_wait_event {
            ReaderAction::Wait
        } else {
            ReaderAction::Stop
        },
        ReaderEvent::Woken { read_ready } => if read_ready {
            ReaderAction::Receive
        } else {
            ReaderAction::Stop
        },
        ReaderEvent::Received(Some(packet)) => ReaderAction::Forward(packet),
        ReaderEvent::Received(None) => ReaderAction::Wait,
        ReaderEvent::ReceiveFailed => ReaderAction::Stop,
        ReaderEvent::Forwarded { accepted } => if accepted {
            ReaderAction::Receive
        } else {
            ReaderAction::Stop
        },
    }
}

/// The packets the driver gave, in order, over a run of the thread.
pub open spec fn received_packets(events: Seq<ReaderEvent>) -> Seq<Vec<u8>>
    decreases events.len(),
{
    if events.len() == 0 {
        Seq::empty()
    } else {
        let before = received_packets(events.drop_last());
        match events.last() {
            ReaderEvent::Received(Some(packet)) => before.push(packet),
            _ => before,
        }
    }
}

/// The packets the thread hands to the reader, in order, over a run.
pub open spec fn forwarded_packets(events: Seq<ReaderEvent>) -> Seq<Vec<u8>>
    decreases events.len(),
{
    if events.len() == 0 {
        Seq::empty()
    } else {
        let before = forwarded_packets(events.drop_last());
        match spec_reader_step(events.last()) {
            ReaderAction::Forward(packet) => before.push(packet),
            _ => before,
        }
    }
}

/// Over any run, the thread hands the reader every packet the driver gave,
/// as it was, in the order given, none dropped and none twice.
pub proof fn lemma_reader_forwards_every_packet_in_order(events: Seq<ReaderEvent>)
    ensures
        forwarded_packets(events) == received_packets(events),
    decreases events.len(),
{
    if events.len() > 0 {
        lemma_reader_forwards_every_packet_in_order(events.drop_last());
    }
}

/// Whether a new adapter gets its addresses set: unless configuration is
/// skipped, and only when the driver can tell the adapter's name (it cannot
/// on older systems, where the adapter's identity is not assigned).
pub fn configures_adapter(skip_config: bool, name_known: bool) -> (r: bool)
    ensures
        r == (!skip_config && name_known),
{
    !skip_config && name_known
}

/// The MTU of every Wintun adapter: the driver's MTU is fixed.
pub const WINTUN_MTU: u16 = 65535;

/// What a Wintun device remembers of itself: the name it was last given.
pub struct Device {
    name: String,
}

/// The state of a Wintun device.
pub struct DeviceView {
    pub name: Seq<char>,
}

impl View for Device {
    type V = DeviceView;

    closed spec fn view(&self) -> DeviceView {
        DeviceView { name: self.name@ }
    }
}

impl Device {
    /// A device whose adapter is named `name`.
    pub fn new(name: String) -> (r: Device)
        ensures
            r@ == (DeviceView { name: name@ }),
    {
        Device { name }
    }

    /// The adapter's name when the driver could tell it, otherwise the name
    /// the device was last given.
    pub fn tun_name(&self, adapter_name: Option<String>) -> (r: String)
        ensures
            r@ == match adapter_name {
                Some(n) => n@,
                None => self@.name,
            },
    {
        match adapter_name {
            Some(n) => n,
            None => self.name.clone(),
        }
    }

    /// Renames the device to `value` once the adapter has been asked to;
    /// `renamed` is the adapter's answer. The new name is remembered only when
    /// the adapter took it; its error is handed back as it is.
    pub fn set_tun_name<E>(&mut self, value: &str, renamed: Result<(), E>) -> (r: Result<(), E>)
        ensures
            r == renamed,
            renamed is Ok ==> final(self)@ == (DeviceView { name: value@ }),
            renamed is Err ==> final(self)@ == old(self)@,
    {
        match renamed {
            Ok(done) => {
                self.name = value.to_string();
                Ok(done)
            },
            Err(e) => Err(e),
        }
    }

    /// Enabling or disabling the device is left to the driver.
    pub fn enabled(&mut self, value: bool) -> (r: Result<(), DeviceError>)
        ensures
            r == Ok::<(), DeviceError>(()),
            final(self)@ == old(self)@,
    {
        Ok(())
    }

    /// The driver has no broadcast address.
    pub fn broadcast(&self) -> (r: Result<IpAddress, DeviceError>)
        ensures
            r == Err::<IpAddress, DeviceError>(DeviceError::NotImplemented),
    {
        Err(DeviceError::NotImplemented)
    }

    /// The MTU: always 65535, since the driver's MTU is fixed.
    pub fn mtu(&self) -> (r: Result<u16, DeviceError>)
        ensures
            r == Ok::<u16, DeviceError>(65535),
    {
        Ok(WINTUN_MTU)
    }

    /// Setting the MTU has no effect: the driver's MTU is fixed.
    pub fn set_mtu(&mut self, value: u16) -> (r: Result<(), DeviceError>)
        ensures
            r == Ok::<(), DeviceError>(()),
            final(self)@ == old(self)@,
    {
        Ok(())
    }

    /// The driver never puts packet information in front of packets.
    pub fn packet_information(&self) -> (r: bool)
        ensures
            r == false,
    {
        false
    }
}

} // verus!
