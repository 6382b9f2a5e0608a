//! The closed vocabulary of section keywords that a spec text may contain.

use vstd::prelude::*;
use crate::text::bytes_of;

verus! {

/// A section label of the actor spec language. `Name` is synthetic: it is not
/// written with a colon in the spec text but always occupies the very first
/// section, from offset zero up to the first labelled section.
#[derive(Clone, Copy, PartialEq, Eq, Structural, Debug)]
pub enum Keyword {
    Name,
    Input,
    Gets,
    Sends,
    OnMessage,
    Data,
    OnInit,
    OnTick,
    OnStop,
    TickInterval,
    TickRate,
    InputDerive,
    Spawner,
    CustomCode,
}

/// The spelling of a keyword as it appears in spec text.
pub open spec fn keyword_bytes(kw: Keyword) -> Seq<u8> {
    match kw {
        Keyword::Name => bytes_of("name"),
        Keyword::Input => bytes_of("input"),
        Keyword::Gets => bytes_of("gets"),
        Keyword::Sends => bytes_of("sends"),
        Keyword::OnMessage => bytes_of("on_message"),
        Keyword::Data => bytes_of("data"),
        Keyword::OnInit => bytes_of("on_init"),
        Keyword::OnTick => bytes_of("on_tick"),
        Keyword::OnStop => bytes_of("on_stop"),
        Keyword::TickInterval => bytes_of("tick_interval"),
        Keyword::TickRate => bytes_of("tick_rate"),
        Keyword::InputDerive => bytes_of("input_derive"),
        Keyword::Spawner => bytes_of("spawner"),
        Keyword::CustomCode => bytes_of("custom_code"),
    }
}

/// The spelling of a keyword, for building search patterns and diagnostics.
pub fn keyword_text(kw: Keyword) -> (s: &'static str)
    ensures
        bytes_of(s) == keyword_bytes(kw),
{
    match kw {
        Keyword::Name => "name",
        Keyword::Input => "input",
        Keyword::Gets => "gets",
        Keyword::Sends => "sends",
        Keyword::OnMessage => "on_message",
        Keyword::Data => "data",
        Keyword::OnInit => "on_init",
        Keyword::OnTick => "on_tick",
        Keyword::OnStop => "on_stop",
        Keyword::TickInterval => "tick_interval",
        Keyword::TickRate => "tick_rate",
        Keyword::InputDerive => "input_derive",
        Keyword::Spawner => "spawner",
        Keyword::CustomCode => "custom_code",
    }
}

/// The order in which the scanner looks for labelled sections.
pub open spec fn scan_order() -> Seq<Keyword> {
    seq![
        Keyword::Input,
        Keyword::Gets,
        Keyword::Sends,
        Keyword::OnMessage,
        Keyword::Data,
        Keyword::OnInit,
        Keyword::OnTick,
        Keyword::OnStop,
        Keyword::TickInterval,
        Keyword::TickRate,
        Keyword::InputDerive,
        Keyword::Spawner,
        Keyword::CustomCode,
    ]
}

/// The scan order as an executable list.
pub fn scan_order_list() -> (v: Vec<Keyword>)
    ensures
        v@ == scan_order(),
{
    let mut v: Vec<Keyword> = Vec::new();
    v.push(Keyword::Input);
    v.push(Keyword::Gets);
    v.push(Keyword::Sends);
    v.push(Keyword::OnMessage);
    v.push(Keyword::Data);
    v.push(Keyword::OnInit);
    v.push(Keyword::OnTick);
    v.push(Keyword::OnStop);
    v.push(Keyword::TickInterval);
    v.push(Keyword::TickRate);
    v.push(Keyword::InputDerive);
    v.push(Keyword::Spawner);
    v.push(Keyword::CustomCode);
    assert(v@ =~= scan_order());
    v
}

} // verus!
