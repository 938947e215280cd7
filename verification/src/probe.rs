//! Enumeration data model: the windows and monitors a probe reports.
//!
//! The windowing-system queries themselves (connection, tree walk,
//! attribute and name lookups, the multi-monitor extension) are foreign
//! calls made by the surrounding application; they hand this module one
//! plain record per candidate window. This module owns the admission
//! rule — viewable, not input-only, both dimensions above one device
//! unit — and the shape of the result.

use vstd::prelude::*;

verus! {

use crate::numerals::dec_chars;
use crate::numerals::u64_to_dec;
use vstd::string::StringExecFns;

/// Window class the windowing system gives to input-only windows.
pub const INPUT_ONLY: i32 = 2;

/// Map state of a window that is actually viewable.
pub const IS_VIEWABLE: i32 = 2;

/// One admitted top-level window.
#[derive(Debug, Clone)]
pub struct Window {
    /// Opaque windowing-system handle.
    pub id: u64,
    pub x: i32,
    pub y: i32,
    pub width: i32,
    pub height: i32,
    /// Plain window name, if the window has one.
    pub name: Option<String>,
    /// ICCCM window-manager name, if the window has one.
    pub wm_name: Option<String>,
}

/// One monitor reported by the multi-monitor extension.
#[derive(Debug, Clone, Copy, PartialEq, Eq, Structural)]
pub struct Monitor {
    pub id: i32,
    pub x: i16,
    pub y: i16,
    pub width: i16,
    pub height: i16,
}

/// One probe invocation's whole result.
#[derive(Debug, Clone)]
pub struct Probe {
    pub windows: Vec<Window>,
    pub monitors: Vec<Monitor>,
}

/// A candidate window exactly as the windowing-system queries report
/// it, before the admission rule has been applied.
#[derive(Debug, Clone)]
pub struct RawWindow {
    pub id: u64,
    pub x: i32,
    pub y: i32,
    pub width: i32,
    pub height: i32,
    /// Window class as reported (input-only or input-output).
    pub class: i32,
    /// Map state as reported (unmapped, unviewable or viewable).
    pub map_state: i32,
    pub name: Option<String>,
    pub wm_name: Option<String>,
}

pub ghost struct WindowView {
    pub id: u64,
    pub x: i32,
    pub y: i32,
    pub width: i32,
    pub height: i32,
    pub name: Option<Seq<char>>,
    pub wm_name: Option<Seq<char>>,
}

pub ghost struct ProbeView {
    pub windows: Seq<WindowView>,
    pub monitors: Seq<Monitor>,
}

pub open spec fn view_of_opt_string(s: Option<String>) -> Option<Seq<char>> {
    match s {
        Some(s) => Some(s@),
        None => None,
    }
}

impl View for Window {
    type V = WindowView;

    open spec fn view(&self) -> WindowView {
        WindowView {
            id: self.id,
            x: self.x,
            y: self.y,
            width: self.width,
            height: self.height,
            name: view_of_opt_string(self.name),
            wm_name: view_of_opt_string(self.wm_name),
        }
    }
}

impl View for Probe {
    type V = ProbeView;

    open spec fn view(&self) -> ProbeView {
        ProbeView { windows: self.windows@.map_values(|w: Window| w@), monitors: self.monitors@ }
    }
}

// ---------------------------------------------------------------------------
// The admission rule
// ---------------------------------------------------------------------------

/// Whether an enumeration includes a candidate window: it must be
/// viewable, not input-only, and more than one device unit in each
/// dimension (a known browser decoy window is exactly one unit).
pub open spec fn spec_admitted(r: RawWindow) -> bool {
    r.class != INPUT_ONLY && r.map_state == IS_VIEWABLE && r.width > 1 && r.height > 1
}

/// The record an admitted candidate contributes.
pub open spec fn spec_window_of(r: RawWindow) -> WindowView {
    WindowView {
        id: r.id,
        x: r.x,
        y: r.y,
        width: r.width,
        height: r.height,
        name: view_of_opt_string(r.name),
        wm_name: view_of_opt_string(r.wm_name),
    }
}

/// The admitted windows of a candidate list, in reported order.
pub open spec fn spec_filter_windows(raws: Seq<RawWindow>) -> Seq<WindowView>
    decreases raws.len(),
{
    if raws.len() == 0 {
        Seq::<WindowView>::empty()
    } else {
        (if spec_admitted(raws[0]) {
            seq![spec_window_of(raws[0])]
        } else {
            Seq::<WindowView>::empty()
        }) + spec_filter_windows(raws.drop_first())
    }
}

/// Applies the admission rule to one candidate.
pub fn window_from_raw(raw: RawWindow) -> (r: Option<Window>)
    ensures
        r is Some <==> spec_admitted(raw),
        r matches Some(w) ==> w@ == spec_window_of(raw),
{
    if raw.class != INPUT_ONLY && raw.map_state == IS_VIEWABLE && raw.width > 1 && raw.height > 1 {
        Some(
            Window {
                id: raw.id,
                x: raw.x,
                y: raw.y,
                width: raw.width,
                height: raw.height,
                name: raw.name,
                wm_name: raw.wm_name,
            },
        )
    } else {
        None
    }
}

/// Builds the result of one probe: the admitted windows, in order, and
/// the monitors exactly as reported.
pub fn build_probe(raws: Vec<RawWindow>, monitors: Vec<Monitor>) -> (p: Probe)
    ensures
        p@.windows == spec_filter_windows(raws@),
        p@.monitors == monitors@,
{
    let ghost orig = raws@;
    let mut raws = raws;
    let mut windows: Vec<Window> = Vec::new();
    proof {
        assert(windows@.map_values(|w: Window| w@) + spec_filter_windows(raws@)
            =~= spec_filter_windows(orig));
    }
    while raws.len() > 0
        invariant
            windows@.map_values(|w: Window| w@) + spec_filter_windows(raws@)
                == spec_filter_windows(orig),
        decreases raws.len(),
    {
        let ghost before = raws@;
        let raw = raws.remove(0);
        proof {
            assert(before[0] == raw);
            assert(before.drop_first() =~= raws@);
        }
        match window_from_raw(raw) {
            Some(w) => {
                windows.push(w);
            },
            None => {
            },
        }
        proof {
            assert(windows@.map_values(|w: Window| w@) + spec_filter_windows(raws@)
                =~= spec_filter_windows(orig));
        }
    }
    proof {
        assert(spec_filter_windows(raws@) =~= Seq::<WindowView>::empty());
        assert(windows@.map_values(|w: Window| w@) =~= spec_filter_windows(orig));
    }
    let p = Probe { windows, monitors };
    p
}

/// An enumeration result never contains a degenerate or non-viewable
/// window: every reported record stems from a candidate the admission
/// rule accepted, and in particular has both dimensions above one.
pub proof fn lemma_filtered_windows_admissible(raws: Seq<RawWindow>)
    ensures
        forall|i: int|
            0 <= i < spec_filter_windows(raws).len() ==> (#[trigger] spec_filter_windows(
                raws,
            )[i]).width > 1 && spec_filter_windows(raws)[i].height > 1,
        forall|i: int|
            0 <= i < spec_filter_windows(raws).len() ==> exists|j: int|
                0 <= j < raws.len() && spec_admitted(#[trigger] raws[j]) && #[trigger]
                    spec_filter_windows(raws)[i] == spec_window_of(raws[j]),
    decreases raws.len(),
{
    if raws.len() > 0 {
        lemma_filtered_windows_admissible(raws.drop_first());
        let rest = spec_filter_windows(raws.drop_first());
        assert forall|i: int| 0 <= i < spec_filter_windows(raws).len() implies exists|j: int|
            0 <= j < raws.len() && spec_admitted(#[trigger] raws[j]) && #[trigger]
                spec_filter_windows(raws)[i] == spec_window_of(raws[j]) by {
            if spec_admitted(raws[0]) {
                if i == 0 {
                    assert(spec_filter_windows(raws)[0] == spec_window_of(raws[0]));
                    assert(0 <= 0 < raws.len() && spec_admitted(raws[0]));
                } else {
                    assert(spec_filter_windows(raws)[i] == rest[i - 1]);
                    let j0 = choose|j0: int|
                        0 <= j0 < raws.drop_first().len() && spec_admitted(
                            raws.drop_first()[j0],
                        ) && rest[i - 1] == spec_window_of(raws.drop_first()[j0]);
                    assert(raws.drop_first()[j0] == raws[j0 + 1]);
                }
            } else {
                assert(spec_filter_windows(raws)[i] == rest[i]);
                let j0 = choose|j0: int|
                    0 <= j0 < raws.drop_first().len() && spec_admitted(raws.drop_first()[j0])
                        && rest[i] == spec_window_of(raws.drop_first()[j0]);
                assert(raws.drop_first()[j0] == raws[j0 + 1]);
            }
        }
    }
}

// ---------------------------------------------------------------------------
// Human-readable labels (the menu lines of the interactive selector)
// ---------------------------------------------------------------------------

/// Decimal numeral of a possibly negative value.
pub open spec fn spec_signed_dec(n: int) -> Seq<char> {
    if n < 0 {
        seq!['-'] + dec_chars((-n) as nat)
    } else {
        dec_chars(n as nat)
    }
}

/// Decimal numeral with an explicit sign, as coordinates are printed.
pub open spec fn spec_plus_dec(n: int) -> Seq<char> {
    if n < 0 {
        seq!['-'] + dec_chars((-n) as nat)
    } else {
        seq!['+'] + dec_chars(n as nat)
    }
}

fn i64_to_signed_dec(n: i64) -> (r: String)
    requires
        n > i64::MIN,
    ensures
        r@ == spec_signed_dec(n as int),
{
    if n < 0 {
        let mut s = String::from_str("-");
        let d = u64_to_dec((-n) as u64);
        s.append(d.as_str());
        proof {
            reveal_strlit("-");
            assert(s@ =~= spec_signed_dec(n as int));
        }
        s
    } else {
        u64_to_dec(n as u64)
    }
}

fn i64_to_plus_dec(n: i64) -> (r: String)
    requires
        n > i64::MIN,
    ensures
        r@ == spec_plus_dec(n as int),
{
    if n < 0 {
        i64_to_signed_dec(n)
    } else {
        let mut s = String::from_str("+");
        let d = u64_to_dec(n as u64);
        s.append(d.as_str());
        proof {
            reveal_strlit("+");
            assert(s@ =~= spec_plus_dec(n as int));
        }
        s
    }
}

/// The label of a window in the interactive menu.
pub open spec fn spec_window_label(w: WindowView) -> Seq<char> {
    match (w.name, w.wm_name) {
        (None, None) => dec_chars(w.id as nat) + ": Unknown window "@ + spec_signed_dec(
            w.width as int,
        ) + "x"@ + spec_signed_dec(w.height as int) + " "@ + spec_plus_dec(w.x as int)
            + spec_plus_dec(w.y as int),
        (None, Some(wm_name)) => dec_chars(w.id as nat) + ": "@ + wm_name,
        (Some(name), None) => dec_chars(w.id as nat) + ": "@ + name,
        (Some(name), Some(wm_name)) => dec_chars(w.id as nat) + ": "@ + name + " ("@ + wm_name
            + ")"@,
    }
}

/// The label of a monitor in the interactive menu.
pub open spec fn spec_monitor_label(m: Monitor) -> Seq<char> {
    spec_signed_dec(m.id as int) + ": "@ + spec_signed_dec(m.width as int) + "x"@ + spec_signed_dec(
        m.height as int,
    ) + " "@ + spec_plus_dec(m.x as int) + spec_plus_dec(m.y as int)
}

impl Window {
    /// Prints the menu label. A window with neither name is labelled
    /// by its geometry; coordinates always carry a sign.
    pub fn to_string(&self) -> (r: String)
        ensures
            r@ == spec_window_label(self@),
    {
        let mut s = u64_to_dec(self.id);
        match (&self.name, &self.wm_name) {
            (None, None) => {
                s.append(": Unknown window ");
                let w = i64_to_signed_dec(self.width as i64);
                s.append(w.as_str());
                s.append("x");
                let h = i64_to_signed_dec(self.height as i64);
                s.append(h.as_str());
                s.append(" ");
                let x = i64_to_plus_dec(self.x as i64);
                s.append(x.as_str());
                let y = i64_to_plus_dec(self.y as i64);
                s.append(y.as_str());
                proof {
                    assert(s@ =~= spec_window_label(self@));
                }
                s
            },
            (None, Some(wm_name)) => {
                s.append(": ");
                s.append(wm_name.as_str());
                proof {
                    assert(s@ =~= spec_window_label(self@));
                }
                s
            },
            (Some(name), None) => {
                s.append(": ");
                s.append(name.as_str());
                proof {
                    assert(s@ =~= spec_window_label(self@));
                }
                s
            },
            (Some(name), Some(wm_name)) => {
                s.append(": ");
                s.append(name.as_str());
                s.append(" (");
                s.append(wm_name.as_str());
                s.append(")");
                proof {
                    assert(s@ =~= spec_window_label(self@));
                }
                s
            },
        }
    }
}

impl Monitor {
    /// Prints the menu label; coordinates always carry a sign.
    pub fn to_string(&self) -> (r: String)
        ensures
            r@ == spec_monitor_label(*self),
    {
        let mut s = i64_to_signed_dec(self.id as i64);
        s.append(": ");
        let w = i64_to_signed_dec(self.width as i64);
        s.append(w.as_str());
        s.append("x");
        let h = i64_to_signed_dec(self.height as i64);
        s.append(h.as_str());
        s.append(" ");
        let x = i64_to_plus_dec(self.x as i64);
        s.append(x.as_str());
        let y = i64_to_plus_dec(self.y as i64);
        s.append(y.as_str());
        proof {
            assert(s@ =~= spec_monitor_label(*self));
        }
        s
    }
}

} // verus!
