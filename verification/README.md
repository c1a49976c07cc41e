# tun_easytier

The logic of a TUN device library with its proofs, and the I/O around it.

- `src/packet.rs`: the IP version probe and the packet-information header.
- `src/buffers.rs`: copying between one packet and a list of buffers
  (`put`, `putv`, `gather`, `size`), with the law that gathering and then
  scattering into buffers of the same lengths gives the buffers back.
- `src/split.rs`: the framing state of a device (`Tun`, `Reader`, `Writer`):
  how a payload is framed for the device and how a payload is taken out of
  what the device delivers, with the round-trip laws.
- `src/asyncio.rs`: the `AsyncRead`/`AsyncWrite` traits and the one-shot poll
  that turns a pending operation into a "would block" error.
- `src/wintun_device.rs`: the decisions of the Wintun driver backend.
- `app/`: file descriptors, ioctls, the tokio and Wintun wrappers, and the
  future-returning reads and writes.
