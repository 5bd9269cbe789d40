//! The desktop launcher's gateway: where it listens, how it is started,
//! how long the launcher waits for it, and what the window shows once it is
//! up or has failed.  Spawning the process, probing the port and driving
//! the window are the launcher's work.
use vstd::prelude::*;
use crate::text::{concatenate, debug_literal, debug_quote, decimal, decimal_string};

verus! {

/// Address the gateway binds to.
pub const GATEWAY_HOST: &'static str = "127.0.0.1";

/// Port the gateway listens on.
pub const GATEWAY_PORT: u16 = 9573;

/// How long the launcher waits for the gateway, in seconds.
pub const GATEWAY_BOOT_TIMEOUT_SECS: u64 = 20;

/// Pause between two probes of the port, and the time limit of one probe,
/// in milliseconds.
pub const GATEWAY_PROBE_INTERVAL_MS: u64 = 250;

/// Program run when `ZEROCLAW_BIN` is unset.
pub const DEFAULT_GATEWAY_BIN: &'static str = "zeroclaw";

/// `host:port` of the gateway.
pub open spec fn socket_text_spec() -> Seq<char> {
    GATEWAY_HOST@ + ":"@ + decimal(GATEWAY_PORT as nat)
}

/// The gateway's URL, as the window opens it.
pub fn gateway_addr() -> (r: String)
    ensures
        r@ == "http://"@ + socket_text_spec(),
{
    let s = gateway_socket_text();
    concatenate("http://", s.as_str())
}

/// The gateway's socket address in text, `host:port`.
pub fn gateway_socket_text() -> (r: String)
    ensures
        r@ == socket_text_spec(),
{
    let port = decimal_string(GATEWAY_PORT as u64);
    let head = concatenate(GATEWAY_HOST, ":");
    concatenate(head.as_str(), port.as_str())
}

/// The program to run: the value of `ZEROCLAW_BIN` when it is set.
pub fn gateway_binary(env_bin: Option<&str>) -> (r: String)
    ensures
        match env_bin {
            Some(b) => r@ == b@,
            None => r@ == DEFAULT_GATEWAY_BIN@,
        },
{
    match env_bin {
        Some(b) => b.to_owned(),
        None => DEFAULT_GATEWAY_BIN.to_owned(),
    }
}

/// The arguments of the gateway program:
/// `gateway --host 127.0.0.1 --port 9573`.
pub fn gateway_args() -> (r: Vec<String>)
    ensures
        r@.len() == 5,
        r@[0]@ == "gateway"@,
        r@[1]@ == "--host"@,
        r@[2]@ == GATEWAY_HOST@,
        r@[3]@ == "--port"@,
        r@[4]@ == decimal(GATEWAY_PORT as nat),
{
    let mut v: Vec<String> = Vec::new();
    v.push("gateway".to_owned());
    v.push("--host".to_owned());
    v.push(GATEWAY_HOST.to_owned());
    v.push("--port".to_owned());
    v.push(decimal_string(GATEWAY_PORT as u64));
    v
}

/// Whether the launcher, `elapsed_nanos` after it started waiting, still
/// probes the gateway's port; once this is false it gives up.
pub fn still_booting(elapsed_nanos: u128) -> (r: bool)
    ensures
        r == (elapsed_nanos < GATEWAY_BOOT_TIMEOUT_SECS * 1_000_000_000),
{
    elapsed_nanos < (GATEWAY_BOOT_TIMEOUT_SECS as u128) * 1_000_000_000u128
}

/// The script that sends the window to the gateway once it is up.
pub fn redirect_script() -> (r: String)
    ensures
        r@ == "window.location.replace("@ + debug_literal("http://"@ + socket_text_spec()) + ");"@,
{
    let addr = gateway_addr();
    let quoted = debug_quote(addr.as_str());
    let head = concatenate("window.location.replace(", quoted.as_str());
    concatenate(head.as_str(), ");")
}

/// The page shown when the gateway could not be started, with the error's
/// text.
pub open spec fn failure_page_spec(error: Seq<char>) -> Seq<char> {
    "<h2>ZeroClaw Desktop</h2><p>Unable to start local gateway.</p><pre>"@ + error
        + "</pre><p>Run <code>zeroclaw gateway --host 127.0.0.1 --port 9573</code> and relaunch.</p>"@
}

/// The page shown when the gateway could not be started.
pub fn failure_page(error: &str) -> (r: String)
    ensures
        r@ == failure_page_spec(error@),
{
    let head = concatenate("<h2>ZeroClaw Desktop</h2><p>Unable to start local gateway.</p><pre>", error);
    concatenate(
        head.as_str(),
        "</pre><p>Run <code>zeroclaw gateway --host 127.0.0.1 --port 9573</code> and relaunch.</p>",
    )
}

/// The script that shows the failure page in the window.
pub fn failure_script(error: &str) -> (r: String)
    ensures
        r@ == "document.body.innerHTML = "@ + debug_literal(failure_page_spec(error@))
            + "; document.title = 'ZeroClaw Desktop';"@,
{
    let page = failure_page(error);
    let quoted = debug_quote(page.as_str());
    let head = concatenate("document.body.innerHTML = ", quoted.as_str());
    concatenate(head.as_str(), "; document.title = 'ZeroClaw Desktop';")
}

} // verus!
