//! The decisions of the client.

use vstd::prelude::*;

use crate::config;
use crate::config::{ClientCfg, ServerCfg};
use crate::server;
use crate::server::RequestHead;

verus! {

/// The address of the tunnel: `wss://`, the host name, the path.
pub open spec fn tunnel_url_text(cfg: config::ClientSettings) -> Seq<char> {
    "wss://"@ + cfg.sni + cfg.ws_path
}

/// The address that the WebSocket handshake asks for.
pub fn tunnel_url(cfg: &ClientCfg) -> (url: String)
    ensures
        url@ == tunnel_url_text(cfg@),
        url@ == "wss://"@ + cfg.sni@ + cfg.ws_path@,
{
    let mut url = "wss://".to_owned();
    url.append(cfg.sni.as_str());
    url.append(cfg.ws_path.as_str());
    url
}

/// The address is `wss://`, then every character of the host name as it is, then
/// every character of the path as it is.
pub proof fn law_url_is_host_and_path(cfg: ClientCfg)
    ensures
        ({
            let url = tunnel_url_text(cfg@);
            let n = cfg.sni@.len() as int;
            &&& url.len() == 6 + n + cfg.ws_path@.len()
            &&& url.take(6) == seq!['w', 's', 's', ':', '/', '/']
            &&& url.subrange(6, 6 + n) == cfg.sni@
            &&& url.skip(6 + n) == cfg.ws_path@
        }),
{
    reveal_strlit("wss://");
    let url = tunnel_url_text(cfg@);
    let n = cfg.sni@.len() as int;
    assert(url.take(6) =~= seq!['w', 's', 's', ':', '/', '/']);
    assert(url.subrange(6, 6 + n) =~= cfg.sni@);
    assert(url.skip(6 + n) =~= cfg.ws_path@);
}

/// The two sides meet: where both are configured with the same path, a GET of the
/// path in the client's address, with the headers of a WebSocket handshake, opens
/// a tunnel at the server, and one of any other path does not.
pub proof fn law_client_reaches_the_server(client: ClientCfg, cfg: ServerCfg, h: RequestHead)
    requires
        client.ws_path@ == cfg.ws_path@,
        h.method@ == "GET"@,
        server::asks_for_websocket(h),
        h.sec_websocket_key is Some,
    ensures
        server::opens_tunnel(h, cfg@.ws_path) <==> h.path@ == tunnel_url_text(client@).skip(
            6 + client.sni@.len() as int,
        ),
        h.path@ == tunnel_url_text(client@).skip(6 + client.sni@.len() as int) ==> server::reply_of(
            h,
            cfg@,
        ).status == 101,
{
    law_url_is_host_and_path(client);
}

} // verus!
