//! Viewing-side argument logic and the interactive selector.
//!
//! The structures mirror the command line: `connect` takes a target VM
//! name and at most one selection method (an explicit monitor, an
//! explicit window, or the interactive chooser). Rendering the menu,
//! prompting, and the remote probe call are the application's work; it
//! hands the user's choice back in, and everything that decides —
//! mutual exclusion, the menu's order, each label, and the selector
//! every choice maps to — is verified here.

use vstd::prelude::*;

verus! {

use crate::numerals::{all_dec_digits, all_hex_digits, dec_chars, dec_val, hex_val, parse_dec_u32,
    parse_hex_u32, u32_to_dec, u64_to_dec};
use crate::probe::{spec_monitor_label, spec_signed_dec, spec_window_label, Monitor, Probe, Window,
    WindowView};
use crate::selector::{spec_starts_with, str_starts_with, ProtocolError};
use vstd::string::StringExecFns;

/// Arguments of the `server` subcommand: the single positional
/// argument received over the call channel.
#[derive(Debug, PartialEq)]
pub struct ServerArgs {
    pub args: String,
}

/// Arguments of the `probe` subcommand (it takes none).
#[derive(Debug, PartialEq)]
pub struct ProbeArgs {}

/// Arguments of the `connect` subcommand.
#[derive(Debug, PartialEq)]
pub struct ConnectArgs {
    /// Name of the target VM whose screen will be captured.
    pub target_vmname: String,
    /// Multi-monitor-extension id of the monitor to capture.
    pub monitor: Option<u32>,
    /// Id of the window to capture.
    pub window: Option<u32>,
    /// Interactively choose a window or monitor on the target.
    pub choose: bool,
}

/// One line of the interactive menu.
#[derive(Debug)]
pub enum MenuChoice {
    Display,
    Monitor(Monitor),
    Window(Window),
}

pub ghost enum MenuChoiceView {
    Display,
    Monitor(Monitor),
    Window(WindowView),
}

impl View for MenuChoice {
    type V = MenuChoiceView;

    open spec fn view(&self) -> MenuChoiceView {
        match self {
            MenuChoice::Display => MenuChoiceView::Display,
            MenuChoice::Monitor(m) => MenuChoiceView::Monitor(*m),
            MenuChoice::Window(w) => MenuChoiceView::Window(w@),
        }
    }
}

/// Reads a numeric command-line id: decimal, or hexadecimal with a
/// `0x` prefix.
pub open spec fn spec_parse_u32(s: Seq<char>) -> Result<u32, ProtocolError> {
    if spec_starts_with(s, "0x"@) {
        let t = s.skip(2);
        if t.len() > 0 && all_hex_digits(t) && hex_val(t) <= u32::MAX {
            Ok(hex_val(t) as u32)
        } else {
            Err(ProtocolError::BadNumber)
        }
    } else {
        if s.len() > 0 && all_dec_digits(s) && dec_val(s) <= u32::MAX {
            Ok(dec_val(s) as u32)
        } else {
            Err(ProtocolError::BadNumber)
        }
    }
}

/// Reads a numeric command-line id: decimal, or hexadecimal with a
/// `0x` prefix; rejects anything else, including overflow.
pub fn parse_u32_from_str(s: &str) -> (r: Result<u32, ProtocolError>)
    ensures
        r == spec_parse_u32(s@),
{
    if str_starts_with(s, "0x") {
        proof {
            reveal_strlit("0x");
        }
        let len = s.unicode_len();
        let suffix = s.substring_char(2, len);
        proof {
            assert(suffix@ =~= s@.skip(2));
        }
        match parse_hex_u32(suffix) {
            Some(v) => Ok(v),
            None => Err(ProtocolError::BadNumber),
        }
    } else {
        match parse_dec_u32(s) {
            Some(v) => Ok(v),
            None => Err(ProtocolError::BadNumber),
        }
    }
}

// ---------------------------------------------------------------------------
// The interactive menu
// ---------------------------------------------------------------------------

/// The menu order: the whole display first, then every reported
/// window, then every reported monitor.
pub fn menu_items(probe: Probe) -> (r: Vec<MenuChoice>)
    ensures
        r@.len() == 1 + probe@.windows.len() + probe@.monitors.len(),
        r@[0]@ is Display,
        forall|i: int|
            0 <= i < probe@.windows.len() ==> ((#[trigger] r@[1 + i]@) matches
                MenuChoiceView::Window(w) && w == probe@.windows[i]),
        forall|j: int|
            0 <= j < probe@.monitors.len() ==> ((#[trigger] r@[1 + probe@.windows.len() + j]@)
                matches MenuChoiceView::Monitor(m) && m == probe@.monitors[j]),
{
    let ghost pv = probe@;
    let Probe { windows, monitors } = probe;
    let ghost worig = windows@;
    let mut windows = windows;
    let mut r: Vec<MenuChoice> = Vec::new();
    r.push(MenuChoice::Display);
    while windows.len() > 0
        invariant
            r@.len() == 1 + worig.len() - windows@.len(),
            windows@.len() <= worig.len(),
            windows@ == worig.skip(r@.len() - 1),
            r@[0]@ is Display,
            forall|i: int|
                0 <= i < r@.len() - 1 ==> ((#[trigger] r@[1 + i]@) matches
                    MenuChoiceView::Window(w) && w == worig[i]@),
        decreases windows.len(),
    {
        let ghost before = windows@;
        let w = windows.remove(0);
        proof {
            assert(before[0] == w);
            assert(before.drop_first() =~= windows@);
            assert(worig.skip(r@.len() - 1).drop_first() =~= worig.skip(r@.len() as int));
        }
        r.push(MenuChoice::Window(w));
    }
    let n = monitors.len();
    let mut j: usize = 0;
    while j < n
        invariant
            n == monitors@.len(),
            0 <= j <= n,
            r@.len() == 1 + worig.len() + j,
            r@[0]@ is Display,
            forall|i: int|
                0 <= i < worig.len() ==> ((#[trigger] r@[1 + i]@) matches
                    MenuChoiceView::Window(w) && w == worig[i]@),
            forall|k: int|
                0 <= k < j ==> ((#[trigger] r@[1 + worig.len() + k]@) matches
                    MenuChoiceView::Monitor(m) && m == monitors@[k]),
        decreases n - j,
    {
        r.push(MenuChoice::Monitor(monitors[j]));
        j += 1;
    }
    proof {
        assert(pv.windows.len() == worig.len());
        assert(forall|i: int| 0 <= i < worig.len() ==> pv.windows[i] == worig[i]@);
    }
    r
}

/// The text of one menu line.
pub open spec fn spec_choice_label(c: MenuChoiceView) -> Seq<char> {
    match c {
        MenuChoiceView::Display => "Whole display"@,
        MenuChoiceView::Monitor(m) => "Monitor "@ + spec_monitor_label(m),
        MenuChoiceView::Window(w) => "Window "@ + spec_window_label(w),
    }
}

impl MenuChoice {
    /// Prints the menu line for this choice.
    pub fn label(&self) -> (r: String)
        ensures
            r@ == spec_choice_label(self@),
    {
        match self {
            MenuChoice::Display => String::from_str("Whole display"),
            MenuChoice::Monitor(m) => {
                let mut s = String::from_str("Monitor ");
                let t = m.to_string();
                s.append(t.as_str());
                s
            },
            MenuChoice::Window(w) => {
                let mut s = String::from_str("Window ");
                let t = w.to_string();
                s.append(t.as_str());
                s
            },
        }
    }
}

/// The selector a menu choice stands for. A window id is printed from
/// the full 64-bit handle; the server-side reader rejects one that
/// does not fit the protocol's 32-bit ids.
pub open spec fn spec_selector_for_choice(c: MenuChoiceView) -> Seq<char> {
    match c {
        MenuChoiceView::Display => "display"@,
        MenuChoiceView::Monitor(m) => "monitor"@ + spec_signed_dec(m.id as int),
        MenuChoiceView::Window(w) => "window"@ + dec_chars(w.id as nat),
    }
}

/// Maps the user's menu choice to its selector.
pub fn selector_for_choice(c: &MenuChoice) -> (r: String)
    ensures
        r@ == spec_selector_for_choice(c@),
{
    match c {
        MenuChoice::Display => String::from_str("display"),
        MenuChoice::Monitor(m) => {
            let mut s = String::from_str("monitor");
            let id = m.id;
            let d = if id >= 0 {
                u32_to_dec(id as u32)
            } else {
                let mut t = String::from_str("-");
                let mag = u64_to_dec((-(id as i64)) as u64);
                t.append(mag.as_str());
                proof {
                    reveal_strlit("-");
                    assert(t@ =~= spec_signed_dec(id as int));
                }
                t
            };
            s.append(d.as_str());
            s
        },
        MenuChoice::Window(w) => {
            let mut s = String::from_str("window");
            let d = u64_to_dec(w.id);
            s.append(d.as_str());
            s
        },
    }
}

// ---------------------------------------------------------------------------
// Region selection
// ---------------------------------------------------------------------------

pub open spec fn view_of_chosen(c: Option<&MenuChoice>) -> Option<MenuChoiceView> {
    match c {
        Some(c) => Some(c@),
        None => None,
    }
}

/// What the `connect` arguments select. The three selection methods
/// are mutually exclusive; with none of them the whole display is
/// captured; the interactive method defers to the user's choice.
pub open spec fn spec_region_selection(
    monitor: Option<u32>,
    window: Option<u32>,
    choose: bool,
    chosen: Option<MenuChoiceView>,
) -> Result<Seq<char>, ProtocolError> {
    match (monitor, window, choose) {
        (None, None, false) => Ok("display"@),
        (Some(m), None, false) => Ok("monitor"@ + dec_chars(m as nat)),
        (None, Some(w), false) => Ok("window"@ + dec_chars(w as nat)),
        (None, None, true) => match chosen {
            Some(c) => Ok(spec_selector_for_choice(c)),
            None => Err(ProtocolError::MutuallyExclusive),
        },
        _ => Err(ProtocolError::MutuallyExclusive),
    }
}

impl ConnectArgs {
    /// Name of the target VM.
    pub fn target_vmname(&self) -> (r: &str)
        ensures
            r@ == self.target_vmname@,
    {
        self.target_vmname.as_str()
    }

    /// The selector these arguments ask for. In interactive mode the
    /// application must already have prompted and passes the choice in
    /// as `chosen`; every other mode ignores it. Supplying more than
    /// one selection method is rejected before any process is spawned.
    pub fn region_selection(&self, chosen: Option<&MenuChoice>) -> (r: Result<
        String,
        ProtocolError,
    >)
        requires
            (self.monitor is None && self.window is None && self.choose) ==> chosen is Some,
        ensures
            match spec_region_selection(self.monitor, self.window, self.choose, view_of_chosen(
                chosen,
            )) {
                Ok(sel) => r matches Ok(s) && s@ == sel,
                Err(e) => r == Err::<String, ProtocolError>(e),
            },
    {
        match (self.monitor, self.window, self.choose) {
            (None, None, false) => Ok(String::from_str("display")),
            (Some(m), None, false) => {
                let mut s = String::from_str("monitor");
                let d = u32_to_dec(m);
                s.append(d.as_str());
                Ok(s)
            },
            (None, Some(w), false) => {
                let mut s = String::from_str("window");
                let d = u32_to_dec(w);
                s.append(d.as_str());
                Ok(s)
            },
            (None, None, true) => match chosen {
                Some(c) => Ok(selector_for_choice(c)),
                None => Err(ProtocolError::MutuallyExclusive),
            },
            _ => Err(ProtocolError::MutuallyExclusive),
        }
    }

    /// The full remote-call name: the fixed call identifier with the
    /// selector appended after `+`.
    pub fn qrexec_program_ident(&self, chosen: Option<&MenuChoice>) -> (r: Result<
        String,
        ProtocolError,
    >)
        requires
            (self.monitor is None && self.window is None && self.choose) ==> chosen is Some,
        ensures
            match spec_region_selection(self.monitor, self.window, self.choose, view_of_chosen(
                chosen,
            )) {
                Ok(sel) => r matches Ok(s) && s@ == "qyoobs.VNC+"@ + sel,
                Err(e) => r == Err::<String, ProtocolError>(e),
            },
    {
        match self.region_selection(chosen) {
            Ok(sel) => {
                let mut s = String::from_str("qyoobs.VNC+");
                s.append(sel.as_str());
                Ok(s)
            },
            Err(e) => Err(e),
        }
    }
}

/// The remote-call name of the one-shot enumeration.
pub fn probe_program_ident() -> (r: String)
    ensures
        r@ == "qyoobs.VNC+probe"@,
{
    String::from_str("qyoobs.VNC+probe")
}

} // verus!
