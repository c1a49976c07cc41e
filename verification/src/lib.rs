//! Packet framing, buffer scatter/gather and device state for TUN devices.

pub mod asyncio;
pub mod buffers;
pub mod packet;
pub mod split;
pub mod wintun_device;

pub use asyncio::{try_poll_fn, AsyncRead, AsyncReadExt, AsyncWrite, AsyncWriteExt};
pub use packet::{PacketError, ProtocolNumbers, PACKET_INFORMATION_LENGTH};
pub use split::{Reader, Tun, Writer};
