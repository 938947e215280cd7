//! Captured-side session logic.
//!
//! The server receives one positional argument: either the reserved
//! probe token or a region selector. This module decides what that
//! argument asks for and which command line the capture backend gets;
//! the surrounding application spawns the backend, wires its stdio
//! through a socket pair, and relays bytes to the call channel.

use vstd::prelude::*;

verus! {

use crate::numerals::{dec_chars, u32_to_dec};
use crate::selector::{spec_decode, CaptureTarget, ProtocolError, decode, str_starts_with};
use vstd::string::StringExecFns;

/// What the server's single argument asks it to do.
#[derive(Clone, Copy, Debug, PartialEq, Eq)]
pub enum Action {
    /// Emit one enumeration result and exit.
    Probe,
    /// Capture the whole display.
    SendDisplay,
    /// Capture one window, by windowing-system id.
    SendWindow(u32),
    /// Capture one monitor, by multi-monitor-extension id.
    SendMonitor(u32),
}

/// The views of a vector of argument strings.
pub open spec fn views_of(v: Seq<String>) -> Seq<Seq<char>> {
    v.map_values(|s: String| s@)
}

/// What the server's argument denotes: the probe token, or whatever
/// the selector protocol reads.
pub open spec fn spec_parse_action(s: Seq<char>) -> Result<Action, ProtocolError> {
    if s == "probe"@ {
        Ok(Action::Probe)
    } else {
        match spec_decode(s) {
            Ok(CaptureTarget::WholeDisplay) => Ok(Action::SendDisplay),
            Ok(CaptureTarget::Monitor { id }) => Ok(Action::SendMonitor(id)),
            Ok(CaptureTarget::Window { id }) => Ok(Action::SendWindow(id)),
            Err(e) => Err(e),
        }
    }
}

/// The region-specific flags handed to the capture backend.
pub open spec fn spec_render(a: Action) -> Seq<Seq<char>> {
    match a {
        Action::Probe => Seq::<Seq<char>>::empty(),
        Action::SendDisplay => Seq::<Seq<char>>::empty(),
        Action::SendMonitor(id) => seq!["-clip"@, "xinerama"@ + dec_chars(id as nat)],
        Action::SendWindow(id) => seq!["-sid"@, dec_chars(id as nat)],
    }
}

/// The full backend command line: the fixed flags (view-only, stdio
/// mode, a 200 ds connection-wait timeout enforced by the backend
/// itself, verbose log) followed by the region flags.
pub open spec fn spec_backend_args(a: Action) -> Seq<Seq<char>> {
    seq!["-viewonly"@, "-inetd"@, "-wait"@, "200"@, "-v"@] + spec_render(a)
}

impl Action {
    /// Reads the server's positional argument.
    pub fn parse(input: String) -> (r: Result<Self, ProtocolError>)
        ensures
            r == spec_parse_action(input@),
    {
        let s = input.as_str();
        if str_starts_with(s, "probe") && s.unicode_len() == 5 {
            proof {
                reveal_strlit("probe");
                assert(s@ =~= "probe"@);
            }
            Ok(Action::Probe)
        } else {
            proof {
                reveal_strlit("probe");
                assert(s@ != "probe"@) by {
                    if s@ == "probe"@ {
                        assert(s@.take("probe"@.len() as int) =~= "probe"@);
                    }
                }
            }
            match decode(s) {
                Ok(CaptureTarget::WholeDisplay) => Ok(Action::SendDisplay),
                Ok(CaptureTarget::Monitor { id }) => Ok(Action::SendMonitor(id)),
                Ok(CaptureTarget::Window { id }) => Ok(Action::SendWindow(id)),
                Err(e) => Err(e),
            }
        }
    }

    /// Prints the region-specific backend flags.
    pub fn render(&self) -> (r: Vec<String>)
        ensures
            views_of(r@) == spec_render(*self),
    {
        match self {
            Action::Probe | Action::SendDisplay => {
                let r: Vec<String> = Vec::new();
                proof {
                    assert(views_of(r@) =~= spec_render(*self));
                }
                r
            },
            Action::SendMonitor(id) => {
                let mut r: Vec<String> = Vec::new();
                r.push(String::from_str("-clip"));
                let mut clip = String::from_str("xinerama");
                let d = u32_to_dec(*id);
                clip.append(d.as_str());
                r.push(clip);
                proof {
                    assert(views_of(r@) =~= spec_render(*self));
                }
                r
            },
            Action::SendWindow(id) => {
                let mut r: Vec<String> = Vec::new();
                r.push(String::from_str("-sid"));
                r.push(u32_to_dec(*id));
                proof {
                    assert(views_of(r@) =~= spec_render(*self));
                }
                r
            },
        }
    }
}

/// Prints the whole backend command line for an action.
pub fn backend_args(a: &Action) -> (r: Vec<String>)
    ensures
        views_of(r@) == spec_backend_args(*a),
{
    let mut r: Vec<String> = Vec::new();
    r.push(String::from_str("-viewonly"));
    r.push(String::from_str("-inetd"));
    r.push(String::from_str("-wait"));
    r.push(String::from_str("200"));
    r.push(String::from_str("-v"));
    proof {
        assert(forall|j: int| 0 <= j < 5 ==> r@[j]@ == spec_backend_args(*a)[j]);
    }
    let mut rest = a.render();
    let n = rest.len();
    let mut i: usize = 0;
    while i < n
        invariant
            n == spec_render(*a).len(),
            0 <= i <= n,
            views_of(rest@) == spec_render(*a),
            rest@.len() == n,
            r@.len() == 5 + i,
            forall|j: int| 0 <= j < 5 + i ==> r@[j]@ == spec_backend_args(*a)[j],
        decreases n - i,
    {
        let s = rest[i].clone();
        proof {
            assert(s@ == views_of(rest@)[i as int]);
            assert(s@ == spec_backend_args(*a)[5 + i as int]);
        }
        r.push(s);
        i += 1;
    }
    proof {
        assert(views_of(r@) =~= spec_backend_args(*a));
    }
    r
}

/// What one server invocation should do.
#[derive(Debug)]
pub enum ServerPlan {
    /// Enumerate windows and monitors, emit the result, exit.
    RunProbe,
    /// Launch the capture backend with this command line and relay its
    /// stdio over the call channel.
    LaunchBackend(Vec<String>),
}

/// Decides one server invocation from its single positional argument:
/// the probe token dispatches to the enumerator, a selector yields the
/// backend command line, anything else is rejected before any process
/// is spawned.
pub fn run(args: String) -> (r: Result<ServerPlan, ProtocolError>)
    ensures
        spec_parse_action(args@) == Ok::<Action, ProtocolError>(Action::Probe) ==> r matches Ok(
            ServerPlan::RunProbe,
        ),
        (spec_parse_action(args@) matches Ok(a) && a != Action::Probe) ==> (r matches Ok(
            ServerPlan::LaunchBackend(v),
        ) && views_of(v@) == spec_backend_args(spec_parse_action(args@)->Ok_0)),
        spec_parse_action(args@) matches Err(e) ==> r == Err::<ServerPlan, ProtocolError>(e),
{
    let action = match Action::parse(args) {
        Ok(a) => a,
        Err(e) => {
            return Err(e);
        },
    };
    match action {
        Action::Probe => Ok(ServerPlan::RunProbe),
        a => Ok(ServerPlan::LaunchBackend(backend_args(&a))),
    }
}

} // verus!
