//! Actor synthesizer: renders the generated module from the resolved
//! attribute table and the feature record. The generated text is a
//! self-contained module holding the actor's state struct, its input (and,
//! in request/reply topology, output) message type, and a `start` entry
//! point that spawns the polling loop: drain inbound messages in arrival
//! order, check the stop signal (input-only topology), run the tick phase,
//! then sleep for the configured interval.

use vstd::prelude::*;
use crate::classify::{Features, Topology};
use crate::keyword::Keyword;
use crate::table::{AttributeTable, table_payload, lemma_table_payload_absent};
use crate::text::{bytes_of, push_bytes, push_str_bytes};

verus! {

/// Appends the payload of `kw` (empty when absent) to `out`.
fn push_payload(out: &mut Vec<u8>, t: &AttributeTable, kw: Keyword)
    ensures
        final(out)@ == old(out)@ + table_payload(t.model(), kw),
{
    match t.get(kw) {
        Some(p) => {
            push_bytes(out, p.as_slice());
        },
        None => {
            proof {
                lemma_table_payload_absent(t.model(), kw);
                assert(out@ =~= out@ + table_payload(t.model(), kw));
            }
        },
    }
}

/// The module head: module name, injected custom code, the state struct,
/// the input variant type with its optional derive attribute, and the
/// output variant type in request/reply topology.
pub open spec fn spec_module_head(m: Seq<(Keyword, Seq<u8>)>, f: Features) -> Seq<u8> {
    bytes_of("\nmod ") + table_payload(m, Keyword::Name) + bytes_of(" {\n") + table_payload(
        m,
        Keyword::CustomCode,
    ) + bytes_of("\n\npub struct Actor {\n    ") + table_payload(m, Keyword::Data) + bytes_of(
        "\n}\n\n",
    ) + (if f.has_derive {
        bytes_of("#[derive(") + table_payload(m, Keyword::InputDerive) + bytes_of(")]\n")
    } else {
        Seq::empty()
    }) + bytes_of("pub enum Input {\n    ") + table_payload(m, Keyword::Input) + bytes_of(
        "\n}\n\n",
    ) + (if f.topology == Topology::RequestReply {
        bytes_of("pub enum Output {\n    ") + table_payload(m, Keyword::Sends) + bytes_of(
            "\n}\n\n",
        )
    } else {
        Seq::empty()
    })
}

#[verifier::rlimit(100)]
fn render_module_head(out: &mut Vec<u8>, t: &AttributeTable, f: Features)
    ensures
        final(out)@ == old(out)@ + spec_module_head(t.model(), f),
{
    push_str_bytes(out, "\nmod ");
    push_payload(out, t, Keyword::Name);
    push_str_bytes(out, " {\n");
    push_payload(out, t, Keyword::CustomCode);
    push_str_bytes(out, "\n\npub struct Actor {\n    ");
    push_payload(out, t, Keyword::Data);
    push_str_bytes(out, "\n}\n\n");
    assert(out@ =~= old(out)@ + (bytes_of("\nmod ") + table_payload(t.model(), Keyword::Name)
        + bytes_of(" {\n") + table_payload(t.model(), Keyword::CustomCode) + bytes_of(
        "\n\npub struct Actor {\n    ",
    ) + table_payload(t.model(), Keyword::Data) + bytes_of("\n}\n\n")));
    if f.has_derive {
        push_str_bytes(out, "#[derive(");
        push_payload(out, t, Keyword::InputDerive);
        push_str_bytes(out, ")]\n");
    }
    assert(out@ =~= old(out)@ + (bytes_of("\nmod ") + table_payload(t.model(), Keyword::Name)
        + bytes_of(" {\n") + table_payload(t.model(), Keyword::CustomCode) + bytes_of(
        "\n\npub struct Actor {\n    ",
    ) + table_payload(t.model(), Keyword::Data) + bytes_of("\n}\n\n") + (if f.has_derive {
        bytes_of("#[derive(") + table_payload(t.model(), Keyword::InputDerive) + bytes_of(")]\n")
    } else {
        Seq::<u8>::empty()
    })));
    push_str_bytes(out, "pub enum Input {\n    ");
    push_payload(out, t, Keyword::Input);
    push_str_bytes(out, "\n}\n\n");
    if f.topology == Topology::RequestReply {
        push_str_bytes(out, "pub enum Output {\n    ");
        push_payload(out, t, Keyword::Sends);
        push_str_bytes(out, "\n}\n\n");
    }
    assert(out@ =~= old(out)@ + spec_module_head(t.model(), f));
}

/// The signature of the `start` entry point: with explicit `data` the
/// caller builds the state and `start` consumes it; otherwise `start`
/// takes nothing and the loop owns an empty default state. The handle type
/// names the capabilities the caller keeps.
pub open spec fn spec_start_sig(f: Features) -> Seq<u8> {
    bytes_of("impl Actor {\n    pub fn start(") + (if f.has_data {
        bytes_of("mut self")
    } else {
        Seq::empty()
    }) + (if f.topology == Topology::RequestReply {
        bytes_of(
            ") -> movie::RequestReplyHandle<\n        std::thread::JoinHandle<()>,\n        Input,\n        Output,\n    > {\n",
        )
    } else {
        bytes_of(") -> movie::Handle<\n        std::thread::JoinHandle<()>,\n        Input,\n    > {\n")
    })
}

fn render_start_sig(out: &mut Vec<u8>, f: Features)
    ensures
        final(out)@ == old(out)@ + spec_start_sig(f),
{
    push_str_bytes(out, "impl Actor {\n    pub fn start(");
    if f.has_data {
        push_str_bytes(out, "mut self");
    }
    if f.topology == Topology::RequestReply {
        push_str_bytes(
            out,
            ") -> movie::RequestReplyHandle<\n        std::thread::JoinHandle<()>,\n        Input,\n        Output,\n    > {\n",
        );
    } else {
        push_str_bytes(
            out,
            ") -> movie::Handle<\n        std::thread::JoinHandle<()>,\n        Input,\n    > {\n",
        );
    }
    assert(out@ =~= old(out)@ + spec_start_sig(f));
}

/// The setup of the spawned loop: the owner-to-actor queue, the stop queue
/// (input-only) or the actor-to-owner reply queue (request/reply), the
/// spawn call, and the one-time `on_init` body.
pub open spec fn spec_setup(m: Seq<(Keyword, Seq<u8>)>, f: Features) -> Seq<u8> {
    bytes_of("        let (tx_ota, rx_ota) = std::sync::mpsc::channel(); // owner-to-actor data\n")
        + (if f.topology == Topology::RequestReply {
        bytes_of(
            "        let (tx_ato, rx_ato) = std::sync::mpsc::channel(); // actor-to-owner replies\n",
        )
    } else {
        bytes_of(
            "        let (tx_kill, rx_kill) = std::sync::mpsc::channel(); // owner-to-actor stop requests\n",
        )
    }) + bytes_of("        let handle = ") + table_payload(m, Keyword::Spawner) + bytes_of(
        "(move || {\n",
    ) + (if f.has_data {
        Seq::empty()
    } else {
        bytes_of("            let mut _actor = Actor {};\n")
    }) + bytes_of("            {\n                ") + table_payload(m, Keyword::OnInit)
        + bytes_of("\n            };\n")
}

fn render_setup(out: &mut Vec<u8>, t: &AttributeTable, f: Features)
    ensures
        final(out)@ == old(out)@ + spec_setup(t.model(), f),
{
    push_str_bytes(
        out,
        "        let (tx_ota, rx_ota) = std::sync::mpsc::channel(); // owner-to-actor data\n",
    );
    if f.topology == Topology::RequestReply {
        push_str_bytes(
            out,
            "        let (tx_ato, rx_ato) = std::sync::mpsc::channel(); // actor-to-owner replies\n",
        );
    } else {
        push_str_bytes(
            out,
            "        let (tx_kill, rx_kill) = std::sync::mpsc::channel(); // owner-to-actor stop requests\n",
        );
    }
    push_str_bytes(out, "        let handle = ");
    push_payload(out, t, Keyword::Spawner);
    push_str_bytes(out, "(move || {\n");
    if !f.has_data {
        push_str_bytes(out, "            let mut _actor = Actor {};\n");
    }
    push_str_bytes(out, "            {\n                ");
    push_payload(out, t, Keyword::OnInit);
    push_str_bytes(out, "\n            };\n");
    assert(out@ =~= old(out)@ + spec_setup(t.model(), f));
}

/// The drain phase: every queued inbound message is dispatched through the
/// `on_message` arms in arrival order; in request/reply topology each
/// dispatch yields one reply, sent onward in the same order, and a closed
/// reply queue ends the actor.
pub open spec fn spec_drain(m: Seq<(Keyword, Seq<u8>)>, f: Features) -> Seq<u8> {
    if f.topology == Topology::RequestReply {
        bytes_of(
            "                while let Ok(message) = rx_ota.try_recv() {\n                    use Input::*;\n                    use Output::*;\n                    let reply = match message {\n                        ",
        ) + table_payload(m, Keyword::OnMessage) + bytes_of(
            "\n                    };\n                    tx_ato.send(reply).unwrap();\n                }\n",
        )
    } else {
        bytes_of(
            "                while let Ok(message) = rx_ota.try_recv() {\n                    use Input::*;\n                    match message {\n                        ",
        ) + table_payload(m, Keyword::OnMessage) + bytes_of(
            "\n                    };\n                }\n",
        )
    }
}

/// The stop-check phase, input-only topology: a queued stop signal runs the
/// `on_stop` body and ends the loop after this iteration.
pub open spec fn spec_stop_check(m: Seq<(Keyword, Seq<u8>)>, f: Features) -> Seq<u8> {
    if f.topology == Topology::RequestReply {
        Seq::empty()
    } else {
        bytes_of(
            "                if let Ok(_) = rx_kill.try_recv() {\n                    running = false;\n                    {\n                        ",
        ) + table_payload(m, Keyword::OnStop) + bytes_of(
            "\n                    };\n                }\n",
        )
    }
}

/// The tick phase: with a `Tick` input variant, one synthetic `Tick` is
/// dispatched through the same handler (yielding a reply in request/reply
/// topology); otherwise the separate `on_tick` body runs directly.
pub open spec fn spec_tick_phase(m: Seq<(Keyword, Seq<u8>)>, f: Features) -> Seq<u8> {
    if f.accepts_tick && f.topology == Topology::RequestReply {
        bytes_of(
            "                {\n                    use Input::*;\n                    use Output::*;\n                    let reply = match Tick {\n                        ",
        ) + table_payload(m, Keyword::OnMessage) + bytes_of(
            "\n                    };\n                    tx_ato.send(reply).unwrap();\n                };\n",
        )
    } else if f.accepts_tick {
        bytes_of(
            "                {\n                    use Input::*;\n                    match Tick {\n                        ",
        ) + table_payload(m, Keyword::OnMessage) + bytes_of(
            "\n                    };\n                };\n",
        )
    } else {
        bytes_of("                {\n                    ") + table_payload(m, Keyword::OnTick)
            + bytes_of("\n                };\n")
    }
}

/// The suspension closing each iteration: the loop's only scheduling point.
pub open spec fn spec_sleep(m: Seq<(Keyword, Seq<u8>)>) -> Seq<u8> {
    bytes_of(
        "                use std::thread::sleep;\n                use std::time::Duration;\n                sleep(Duration::from_millis(",
    ) + table_payload(m, Keyword::TickInterval) + bytes_of(
        "));\n            }\n        });\n",
    )
}

/// The whole polling loop.
pub open spec fn spec_loop(m: Seq<(Keyword, Seq<u8>)>, f: Features) -> Seq<u8> {
    bytes_of("            let mut running = true;\n            while running {\n") + spec_drain(
        m,
        f,
    ) + spec_stop_check(m, f) + spec_tick_phase(m, f) + spec_sleep(m)
}

#[verifier::rlimit(100)]
fn render_loop(out: &mut Vec<u8>, t: &AttributeTable, f: Features)
    ensures
        final(out)@ == old(out)@ + spec_loop(t.model(), f),
{
    push_str_bytes(out, "            let mut running = true;\n            while running {\n");
    if f.topology == Topology::RequestReply {
        push_str_bytes(
            out,
            "                while let Ok(message) = rx_ota.try_recv() {\n                    use Input::*;\n                    use Output::*;\n                    let reply = match message {\n                        ",
        );
        push_payload(out, t, Keyword::OnMessage);
        push_str_bytes(
            out,
            "\n                    };\n                    tx_ato.send(reply).unwrap();\n                }\n",
        );
    } else {
        push_str_bytes(
            out,
            "                while let Ok(message) = rx_ota.try_recv() {\n                    use Input::*;\n                    match message {\n                        ",
        );
        push_payload(out, t, Keyword::OnMessage);
        push_str_bytes(out, "\n                    };\n                }\n");
    }
    assert(out@ =~= old(out)@ + bytes_of(
        "            let mut running = true;\n            while running {\n",
    ) + spec_drain(t.model(), f));
    if !(f.topology == Topology::RequestReply) {
        push_str_bytes(
            out,
            "                if let Ok(_) = rx_kill.try_recv() {\n                    running = false;\n                    {\n                        ",
        );
        push_payload(out, t, Keyword::OnStop);
        push_str_bytes(out, "\n                    };\n                }\n");
    }
    assert(out@ =~= old(out)@ + bytes_of(
        "            let mut running = true;\n            while running {\n",
    ) + spec_drain(t.model(), f) + spec_stop_check(t.model(), f));
    if f.accepts_tick && f.topology == Topology::RequestReply {
        push_str_bytes(
            out,
            "                {\n                    use Input::*;\n                    use Output::*;\n                    let reply = match Tick {\n                        ",
        );
        push_payload(out, t, Keyword::OnMessage);
        push_str_bytes(
            out,
            "\n                    };\n                    tx_ato.send(reply).unwrap();\n                };\n",
        );
    } else if f.accepts_tick {
        push_str_bytes(
            out,
            "                {\n                    use Input::*;\n                    match Tick {\n                        ",
        );
        push_payload(out, t, Keyword::OnMessage);
        push_str_bytes(out, "\n                    };\n                };\n");
    } else {
        push_str_bytes(out, "                {\n                    ");
        push_payload(out, t, Keyword::OnTick);
        push_str_bytes(out, "\n                };\n");
    }
    assert(out@ =~= old(out)@ + bytes_of(
        "            let mut running = true;\n            while running {\n",
    ) + spec_drain(t.model(), f) + spec_stop_check(t.model(), f) + spec_tick_phase(t.model(), f));
    push_str_bytes(
        out,
        "                use std::thread::sleep;\n                use std::time::Duration;\n                sleep(Duration::from_millis(",
    );
    push_payload(out, t, Keyword::TickInterval);
    push_str_bytes(out, "));\n            }\n        });\n");
    assert(out@ =~= old(out)@ + spec_loop(t.model(), f));
}

/// The returned handle: the join capability, the inbound write end, and
/// the stop write end (input-only) or the reply read end (request/reply).
pub open spec fn spec_tail(f: Features) -> Seq<u8> {
    if f.topology == Topology::RequestReply {
        bytes_of(
            "        movie::RequestReplyHandle {\n            join_handle: handle,\n            tx: tx_ota,\n            rx: rx_ato,\n        }\n    }\n}\n\n}\n",
        )
    } else {
        bytes_of(
            "        movie::Handle {\n            join_handle: handle,\n            tx: tx_ota,\n            kill: tx_kill,\n        }\n    }\n}\n\n}\n",
        )
    }
}

fn render_tail(out: &mut Vec<u8>, f: Features)
    ensures
        final(out)@ == old(out)@ + spec_tail(f),
{
    if f.topology == Topology::RequestReply {
        push_str_bytes(
            out,
            "        movie::RequestReplyHandle {\n            join_handle: handle,\n            tx: tx_ota,\n            rx: rx_ato,\n        }\n    }\n}\n\n}\n",
        );
    } else {
        push_str_bytes(
            out,
            "        movie::Handle {\n            join_handle: handle,\n            tx: tx_ota,\n            kill: tx_kill,\n        }\n    }\n}\n\n}\n",
        );
    }
}

/// The whole generated module for a resolved table and its features.
pub open spec fn spec_render(m: Seq<(Keyword, Seq<u8>)>, f: Features) -> Seq<u8> {
    spec_module_head(m, f) + spec_start_sig(f) + spec_setup(m, f) + spec_loop(m, f) + spec_tail(f)
}

/// Renders the generated module.
pub fn render(t: &AttributeTable, f: Features) -> (r: Vec<u8>)
    ensures
        r@ == spec_render(t.model(), f),
{
    let mut out: Vec<u8> = Vec::new();
    render_module_head(&mut out, t, f);
    render_start_sig(&mut out, f);
    render_setup(&mut out, t, f);
    render_loop(&mut out, t, f);
    render_tail(&mut out, f);
    assert(out@ =~= spec_render(t.model(), f));
    out
}

} // verus!
