//! The in-process (CFFI) side of the modules: the init-info handle Waybar
//! passes at start, the start-up errors, and the settings of the graph
//! plugins.

use vstd::prelude::*;

verus! {

/// Why a plugin module could not start.
pub enum Error {
    /// Gtk could not be initialised; the message of its error.
    Gtk(String),
    /// Waybar passed no init-info record.
    InitInfoNull,
    /// The module configuration is not valid JSONC; the parser's message.
    Jsonc(String),
    /// A configuration key is not valid UTF-8: the decoding error and the key's bytes.
    KeyInvalid { e: String, key: Vec<u8> },
    /// A configuration value is not valid UTF-8: the decoding error and the key.
    ValueInvalid { e: String, key: String },
}

/// Metadata provided by Waybar when initialising a module: the address of the
/// init-info record it passed.
pub struct InitInfo(usize);

impl View for InitInfo {
    type V = usize;

    closed spec fn view(&self) -> usize {
        self.0
    }
}

impl InitInfo {
    /// Takes the address of the init-info record; a null address is refused.
    pub fn new(ptr: usize) -> (res: Result<InitInfo, Error>)
        ensures
            ptr == 0 ==> res matches Err(Error::InitInfoNull),
            ptr != 0 ==> (res matches Ok(info) && info@ == ptr),
    {
        if ptr == 0 {
            Err(Error::InitInfoNull)
        } else {
            Ok(InitInfo(ptr))
        }
    }

    /// The address of the init-info record; never null.
    pub fn address(&self) -> (res: usize)
        ensures
            res == self@,
    {
        self.0
    }
}

/// The settings of a graph plugin, with the defaults of absent options filled in.
pub struct GraphSettings {
    pub history: i32,
    pub interval: i32,
    pub temperature_item: String,
}

/// The settings from the configured options: 10 readings of history, 5 seconds
/// between readings and no named sensor unless configured.
pub fn graph_settings(history: Option<i32>, interval: Option<i32>, temperature_item: Option<String>) -> (res:
    GraphSettings)
    ensures
        res.history == match history {
            Some(h) => h,
            None => 10,
        },
        res.interval == match interval {
            Some(i) => i,
            None => 5,
        },
        res.temperature_item@ == match temperature_item {
            Some(t) => t@,
            None => Seq::<char>::empty(),
        },
{
    let history = match history {
        Some(h) => h,
        None => 10,
    };
    let interval = match interval {
        Some(i) => i,
        None => 5,
    };
    let temperature_item = match temperature_item {
        Some(t) => t,
        None => String::new(),
    };
    GraphSettings { history, interval, temperature_item }
}

impl GraphSettings {
    /// The number of readings the history holds: `history as usize`.
    pub fn history_len(&self) -> (res: usize)
        ensures
            res == self.history as usize,
    {
        self.history as usize
    }

    /// The seconds between readings: `interval as u64`.
    pub fn sleep_secs(&self) -> (res: u64)
        ensures
            res == self.interval as u64,
    {
        self.interval as u64
    }

    /// Whether the temperature plugin reads one named sensor rather than the
    /// average of all.
    pub fn uses_named_sensor(&self) -> (res: bool)
        ensures
            res == (self.temperature_item@.len() > 0),
    {
        !self.temperature_item.as_str().is_empty()
    }
}

} // verus!
