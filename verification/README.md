# draytek_vpn

A client for the SSL VPN of DrayTek routers: TLS, an HTTP `CONNECT`
handshake, SSTP framing, and a PPP session (LCP, PAP or MS-CHAP, IPCP) that
carries IPv4 between a TUN device and the router.

`src/` is the library, written in Verus and verified:

- `sstp`, `ppp`, `ppp_control`, `wire`: framing, with decode-after-encode laws;
- `fsm`, `lcp`, `ipcp`: the PPP option negotiation state machine, specified
  as a transition function over its model;
- `auth`: PAP and MS-CHAP v1/v2 payloads over SHA-1, MD4 and DES;
- `negotiate`, `data_plane`, `engine_common`, `keepalive`: the decisions of
  the negotiation and of the data phase, as event-to-action steps;
- `connection`: the `CONNECT` request and the reading of its reply;
- `helper`, `privilege`: the privileged helper's command line, checks and
  commands, and the command lines that the client builds for it;
- `types`, `config`, `logging`, `messages`, `routing`: profiles, saved
  settings and passwords, NetworkManager settings, the log buffer, routes;
- `status_view`, `icons`: the status texts and the profile editor's routes
  field, and pixels and Bresenham strokes of the tray icons;
- `nm_tray`: the NetworkManager tray indicator's decisions: what each VPN
  state reported means, which saved connections are ours, and the tray's
  tooltip, icon and menu;
- `text`, `words`, `addr`: decimal, hexadecimal, whitespace and IPv4 text.

`app/` is the program around it: the sockets, the TUN device, the helper's
process and file work, the TOML file and logging setup.
