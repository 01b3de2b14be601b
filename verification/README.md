# Taktwerk

An audio-over-IP node for AES67, ST 2110-30 and RAVENNA, with its logic proved
correct by [Verus](https://github.com/verus-lang/verus).

- `src/` is the library. It works on plain values and holds everything that
  decides or computes: RTP, SDP, SAP and PTP on the wire, the jitter buffer, PTP
  slave and master, RTSP, the NMOS interfaces, and the rules of the daemon.
- `app/` is the program `taktwerkd` around it: sockets, the audio device, mDNS,
  the HTTP server, and the filters that need floating point.
- `tests/` runs the library on concrete values.

## Modules

| Module | Contents |
|---|---|
| `profile`, `clock` | stream profiles and the media clock |
| `rtp`, `sdp`, `sap`, `ptime` | packets and descriptions |
| `ptp` | messages, best master clock, the integer part of the servo, the slave |
| `jitter` | the jitter buffer |
| `net` | sender, receiver, announcements, PTP slave and master on the network |
| `audio`, `endpoint` | the seam to the audio device, and the media loop |
| `discovery` | RAVENNA names and RTSP |
| `router` | NMOS IS-04 and IS-05: resources, routes, receiver and controller |
| `daemon` | configuration, state, monitor, clock, streams, matrix |
| `text`, `utf8`, `bytes`, `ipv4`, `json`, `order` | what the others are built from |

Public proof functions state what holds across functions: that what is written is
read back as it was, that exactly one of two masters is active, that the timeline
behind the jitter buffer never jumps, and the like.
