//! How sockets are set up, with or without TCP Fast Open.
//!
//! On Linux, Fast Open also has to be enabled in the kernel:
//!
//! ```text
//! sysctl -w net.ipv4.tcp_fastopen=3
//! ```

use vstd::prelude::*;

verus! {

/// The length of a listener's queue of Fast Open connections.
pub const TFO_QUEUE_LEN: i32 = 256;

/// The length of a listener's queue of connections.
pub const BACKLOG: i32 = 1024;

/// The platforms that differ in what they support.
#[derive(Debug, Clone, Copy, PartialEq, Eq, Structural)]
pub enum Platform {
    Linux,
    MacOs,
    Other,
}

/// How a listener is set up.
#[derive(Debug, Clone, Copy, PartialEq, Eq, Structural)]
pub struct ListenPlan {
    /// Whether the address is one of IPv6.
    pub ipv6: bool,
    pub reuse_address: bool,
    /// The Fast Open queue to set before binding.
    pub fast_open_queue: Option<i32>,
    /// Whether Fast Open was asked for and cannot be had.
    pub fast_open_ignored: bool,
    pub backlog: i32,
}

/// How a listener is set up.
pub open spec fn how_to_listen(ipv6: bool, fast_open: bool, platform: Platform) -> ListenPlan {
    ListenPlan {
        ipv6,
        reuse_address: true,
        fast_open_queue: if fast_open && platform == Platform::Linux {
            Some(TFO_QUEUE_LEN)
        } else {
            None
        },
        fast_open_ignored: fast_open && platform != Platform::Linux,
        backlog: BACKLOG,
    }
}

/// Decides how a listener is set up. Only Linux has Fast Open on listeners;
/// elsewhere the wish is ignored.
pub fn listen_plan(ipv6: bool, fast_open: bool, platform: Platform) -> (p: ListenPlan)
    ensures
        p == (ListenPlan {
            ipv6,
            reuse_address: true,
            fast_open_queue: if fast_open && platform == Platform::Linux {
                Some(TFO_QUEUE_LEN)
            } else {
                None
            },
            fast_open_ignored: fast_open && platform != Platform::Linux,
            backlog: BACKLOG,
        }),
        p == how_to_listen(ipv6, fast_open, platform),
{
    let linux = match platform {
        Platform::Linux => true,
        _ => false,
    };
    ListenPlan {
        ipv6,
        reuse_address: true,
        fast_open_queue: if fast_open && linux {
            Some(TFO_QUEUE_LEN)
        } else {
            None
        },
        fast_open_ignored: fast_open && !linux,
        backlog: BACKLOG,
    }
}

/// How a connection is opened.
#[derive(Debug, Clone, Copy, PartialEq, Eq, Structural)]
pub enum ConnectPlan {
    /// As usual.
    Plain,
    /// With the socket option that holds the SYN back until the first write.
    SocketOption,
    /// With `connectx`, which does the same on macOS; the socket option fails
    /// there.
    Connectx,
    /// Fast Open cannot be had, which is an error.
    Unsupported,
}

/// How a connection is opened.
pub open spec fn how_to_connect(fast_open: bool, platform: Platform) -> ConnectPlan {
    match (fast_open, platform) {
        (false, _) => ConnectPlan::Plain,
        (true, Platform::Linux) => ConnectPlan::SocketOption,
        (true, Platform::MacOs) => ConnectPlan::Connectx,
        (true, Platform::Other) => ConnectPlan::Unsupported,
    }
}

/// Decides how a connection is opened.
pub fn connect_plan(fast_open: bool, platform: Platform) -> (p: ConnectPlan)
    ensures
        p == if !fast_open {
            ConnectPlan::Plain
        } else {
            match platform {
                Platform::Linux => ConnectPlan::SocketOption,
                Platform::MacOs => ConnectPlan::Connectx,
                Platform::Other => ConnectPlan::Unsupported,
            }
        },
        p == how_to_connect(fast_open, platform),
{
    if !fast_open {
        return ConnectPlan::Plain;
    }
    match platform {
        Platform::Linux => ConnectPlan::SocketOption,
        Platform::MacOs => ConnectPlan::Connectx,
        Platform::Other => ConnectPlan::Unsupported,
    }
}

/// Whether a connect with this outcome has begun.
pub open spec fn has_begun(outcome: Result<(), Option<i32>>, in_progress: i32) -> bool {
    outcome is Ok || outcome == Err::<(), _>(Some(in_progress))
}

/// Whether a non-blocking connect has begun: it succeeded, or it failed with the
/// error that says that it is in progress. An error is given by its number, if
/// it has one.
pub fn connect_begun(outcome: Result<(), Option<i32>>, in_progress: i32) -> (r: bool)
    ensures
        r == match outcome {
            Ok(_) => true,
            Err(code) => code == Some(in_progress),
        },
        r == has_begun(outcome, in_progress),
{
    match outcome {
        Ok(()) => true,
        Err(Some(code)) => code == in_progress,
        Err(None) => false,
    }
}

// ---------------------------------------------------------------------------
// Laws
// ---------------------------------------------------------------------------

/// Every listener reuses its address and has a queue of 1024 connections. Fast Open
/// is on where it is wanted and Linux is there to give it, with a queue of 256, and
/// ignored where it is wanted and cannot be had; where it is not wanted the platform
/// makes no difference.
pub proof fn law_listeners(ipv6: bool, fast_open: bool, platform: Platform, other: Platform)
    ensures
        how_to_listen(ipv6, fast_open, platform).ipv6 == ipv6,
        how_to_listen(ipv6, fast_open, platform).reuse_address,
        how_to_listen(ipv6, fast_open, platform).backlog == 1024,
        how_to_listen(ipv6, false, platform) == how_to_listen(ipv6, false, other),
        how_to_listen(ipv6, false, platform).fast_open_queue is None,
        !how_to_listen(ipv6, false, platform).fast_open_ignored,
        how_to_listen(ipv6, true, Platform::Linux).fast_open_queue == Some(256i32),
        how_to_listen(ipv6, true, platform).fast_open_ignored <==> platform != Platform::Linux,
        how_to_listen(ipv6, true, platform).fast_open_queue is None <==> platform
            != Platform::Linux,
{
}

/// Without Fast Open connections are opened alike everywhere; with it each platform
/// has its own way, and no other platform is passed off as having one.
pub proof fn law_connections(fast_open: bool, platform: Platform)
    ensures
        how_to_connect(fast_open, platform) == ConnectPlan::Plain <==> !fast_open,
        how_to_connect(fast_open, platform) == ConnectPlan::SocketOption <==> fast_open && platform
            == Platform::Linux,
        how_to_connect(fast_open, platform) == ConnectPlan::Connectx <==> fast_open && platform
            == Platform::MacOs,
        how_to_connect(fast_open, platform) == ConnectPlan::Unsupported <==> fast_open && platform
            == Platform::Other,
{
}

/// A connect that failed has begun only if its error is the one that says so.
pub proof fn law_begun_connects(code: i32, in_progress: i32)
    ensures
        has_begun(Ok(()), in_progress),
        has_begun(Err(Some(code)), in_progress) <==> code == in_progress,
        !has_begun(Err(None), in_progress),
{
}

} // verus!
