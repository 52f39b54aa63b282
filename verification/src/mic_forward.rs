//! The command lines of the rsonance microphone forwarder.
use crate::config::MicForwardConfig;
use crate::text::{copy_text, decimal, decimal_text, string_views};
use vstd::prelude::*;

verus! {

/// The arguments of `rsonance receiver` on the server, which creates a
/// virtual microphone.
pub fn receiver_args(config: &MicForwardConfig) -> (args: Vec<String>)
    ensures
        string_views(args@) == seq![
            "receiver"@,
            "--host"@,
            "0.0.0.0"@,
            "--port"@,
            decimal(config.port as nat),
            "--fifo-path"@,
            "/tmp/stargaze_mic_pipe"@,
            "--microphone-name"@,
            "stargaze_virtual_microphone"@,
        ],
{
    let mut args: Vec<String> = Vec::new();
    args.push(copy_text("receiver"));
    args.push(copy_text("--host"));
    args.push(copy_text("0.0.0.0"));
    args.push(copy_text("--port"));
    args.push(decimal_text(config.port as u64));
    args.push(copy_text("--fifo-path"));
    args.push(copy_text("/tmp/stargaze_mic_pipe"));
    args.push(copy_text("--microphone-name"));
    args.push(copy_text("stargaze_virtual_microphone"));
    args
}

/// The arguments of `rsonance transmitter` on the client, which streams the
/// microphone to the server.
pub fn transmitter_args(config: &MicForwardConfig, server_address: &str) -> (args: Vec<String>)
    ensures
        string_views(args@) == seq![
            "transmitter"@,
            "--host"@,
            server_address@,
            "--port"@,
            decimal(config.port as nat),
        ],
{
    let mut args: Vec<String> = Vec::new();
    args.push(copy_text("transmitter"));
    args.push(copy_text("--host"));
    args.push(copy_text(server_address));
    args.push(copy_text("--port"));
    args.push(decimal_text(config.port as u64));
    args
}

} // verus!
