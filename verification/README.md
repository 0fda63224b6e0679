# ech-tls-tunnel

A SIP003 plugin for shadowsocks that wraps each stream in a WebSocket over TLS,
with the handshake protected by ECH (Encrypted Client Hello).

The decisions of the plugin are a library, written and proved in Verus. The
sockets, the TLS stack and the requests to the certificate authority are a small
program around it.

## The library (`src/`)

| module | what it decides |
|---|---|
| `sip003`, `startup` | what the plugin's variables and option string say |
| `config` | which configuration the options make, and what is wrong with them |
| `clienthello` | whether a connection starts with an ECH or ACME ClientHello |
| `server` | which connections are let in, which requests become tunnels, how the server comes by its certificate |
| `stealth` | the fake nginx 404 |
| `tls_server`, `challenge` | which protocol a handshake settles on, and when a challenge certificate answers it |
| `acme` | when a certificate is due, and how an order proceeds |
| `ech` | the ECH key file, the ECHConfigList and its text |
| `client`, `tls_client`, `fingerprint` | how the client is set up, and which browser it looks like |
| `ws` | the byte stream over WebSocket messages |
| `net` | how sockets are set up |
| `text`, `wire`, `namemap` | strings, big-endian fields, maps by name |

Every verified function states in its `ensures` clause what it returns for every
input; where chance has a part in it, what holds of every outcome.
The public proof functions named `law_...` state what holds across functions:
that what is written is read back, that no byte of a stream is lost, that refused
requests look alike, and the like.

What comes from outside crates (`base64`, `bytes`, `instant-acme`, `rand`,
`rcgen`, `sha2`, `tungstenite`) is called through functions marked
`external_body`; their doc comments say what is taken for granted of each.

## The program (`app/`)

`app/` needs BoringSSL (`boring`, `boring-sys`, `tokio-boring`). Without a
subcommand it runs as a plugin; `ech-gen-keys --public-name <NAME> --out <DIR>`
makes an ECH key.
