//! Core logic of the EchoTrans selection translator: hotkey parsing, the
//! triple Ctrl+C detector, configuration rules and the save/load protocols,
//! the machine-translation line bookkeeping and the streaming (SSE) decoder.
pub mod std_sync;
pub mod text;
pub mod json;
pub mod hotkey;
pub mod config;
pub mod mt;
pub mod translator;
pub mod snip;

use vstd::prelude::*;

verus! {

/// The screenshot hotkey in force, replaced whenever the settings are saved.
pub struct HotkeyState(pub std::sync::Mutex<Option<hotkey::Hotkey>>);

} // verus!
