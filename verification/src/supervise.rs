//! Lifecycle supervision: which signal goes to which process, and when.
//!
//! A session couples the lifetime of a spawned primary process to a set
//! of sibling process ids. This module is the decision core: given an
//! event (the primary exited, or the session's own scope is unwinding)
//! it produces the exact list of signals to send and, where the policy
//! asks for it, the session's own exit status. The surrounding
//! application delivers the signals; delivery is fire-and-forget and a
//! signal to an already-exited process is a harmless no-op, so sending
//! is idempotent by design and duplicates across events are tolerated.

use vstd::prelude::*;

verus! {

/// The session's exit status when the capture backend terminates on
/// its own: a fixed sentinel the invoking side can tell apart from
/// ordinary success or failure.
pub const BACKEND_EXIT_STATUS: i32 = 420;

/// A termination signal, graceful or forceful.
#[derive(Clone, Copy, Debug, PartialEq, Eq, Structural)]
pub enum SignalKind {
    /// Ask the process to terminate (it may ignore this).
    Terminate,
    /// Kill the process outright.
    ForceKill,
}

/// One signal to deliver to one process id.
#[derive(Clone, Copy, Debug, PartialEq, Eq, Structural)]
pub struct SignalAction {
    pub pid: u32,
    pub signal: SignalKind,
}

/// How one session tears its processes down.
#[derive(Clone, Debug)]
pub struct SupervisorPolicy {
    /// The watched (spawned and waited-on) process.
    pub primary: u32,
    /// Processes whose lifetime is coupled to the primary's.
    pub siblings: Vec<u32>,
    /// Whether teardown also kills the primary outright — used for the
    /// capture backend, which may ignore graceful termination while a
    /// client connection is stuck.
    pub forceful: bool,
    /// Exit the whole session with this status when the primary exits
    /// on its own (the backend-crashed sentinel), if set.
    pub exit_on_primary_exit: Option<i32>,
}

/// A graceful terminate for every sibling, in registration order.
pub open spec fn spec_terminate_siblings(sibs: Seq<u32>) -> Seq<SignalAction>
    decreases sibs.len(),
{
    if sibs.len() == 0 {
        Seq::<SignalAction>::empty()
    } else {
        seq![SignalAction { pid: sibs[0], signal: SignalKind::Terminate }]
            + spec_terminate_siblings(sibs.drop_first())
    }
}

/// What teardown of the session's own scope sends: a graceful
/// terminate to the primary and to every sibling, then — for a
/// backend primary — a forceful kill of the primary.
pub open spec fn spec_teardown_actions(p: SupervisorPolicy) -> Seq<SignalAction> {
    seq![SignalAction { pid: p.primary, signal: SignalKind::Terminate }]
        + spec_terminate_siblings(p.siblings@) + (if p.forceful {
        seq![SignalAction { pid: p.primary, signal: SignalKind::ForceKill }]
    } else {
        Seq::<SignalAction>::empty()
    })
}

/// How many graceful terminates a list of actions sends to one pid.
pub open spec fn spec_terminate_count(actions: Seq<SignalAction>, pid: u32) -> nat
    decreases actions.len(),
{
    if actions.len() == 0 {
        0
    } else {
        (if actions[0].pid == pid && actions[0].signal == SignalKind::Terminate {
            1nat
        } else {
            0nat
        }) + spec_terminate_count(actions.drop_first(), pid)
    }
}

/// How often a pid occurs in a sibling list.
pub open spec fn spec_occurrences(sibs: Seq<u32>, pid: u32) -> nat
    decreases sibs.len(),
{
    if sibs.len() == 0 {
        0
    } else {
        (if sibs[0] == pid {
            1nat
        } else {
            0nat
        }) + spec_occurrences(sibs.drop_first(), pid)
    }
}

impl SupervisorPolicy {
    /// Decides the reaction to the primary process having exited:
    /// every sibling gets a graceful terminate, and the session exits
    /// with the policy's status if one is configured.
    pub fn on_primary_exit(&self) -> (r: (Vec<SignalAction>, Option<i32>))
        ensures
            r.0@ == spec_terminate_siblings(self.siblings@),
            r.1 == self.exit_on_primary_exit,
    {
        let mut actions: Vec<SignalAction> = Vec::new();
        let n = self.siblings.len();
        let mut i: usize = 0;
        proof {
            assert(self.siblings@.skip(0) =~= self.siblings@);
            assert(actions@ + spec_terminate_siblings(self.siblings@) =~= spec_terminate_siblings(
                self.siblings@,
            ));
        }
        while i < n
            invariant
                n == self.siblings@.len(),
                0 <= i <= n,
                actions@ + spec_terminate_siblings(self.siblings@.skip(i as int))
                    == spec_terminate_siblings(self.siblings@),
            decreases n - i,
        {
            let ghost before = self.siblings@.skip(i as int);
            actions.push(SignalAction { pid: self.siblings[i], signal: SignalKind::Terminate });
            i += 1;
            proof {
                assert(before[0] == self.siblings@[i - 1]);
                assert(before.drop_first() =~= self.siblings@.skip(i as int));
                assert(actions@ + spec_terminate_siblings(self.siblings@.skip(i as int))
                    =~= spec_terminate_siblings(self.siblings@));
            }
        }
        proof {
            assert(self.siblings@.skip(n as int) =~= Seq::<u32>::empty());
            assert(actions@ =~= spec_terminate_siblings(self.siblings@));
        }
        (actions, self.exit_on_primary_exit)
    }

    /// Decides what the session's own teardown sends, whichever exit
    /// path is being taken.
    pub fn on_teardown(&self) -> (r: Vec<SignalAction>)
        ensures
            r@ == spec_teardown_actions(*self),
    {
        let mut actions: Vec<SignalAction> = Vec::new();
        actions.push(SignalAction { pid: self.primary, signal: SignalKind::Terminate });
        let (sib_actions, _) = self.on_primary_exit();
        let mut sib_actions = sib_actions;
        let n = sib_actions.len();
        let mut i: usize = 0;
        while i < n
            invariant
                n == spec_terminate_siblings(self.siblings@).len(),
                sib_actions@ == spec_terminate_siblings(self.siblings@),
                0 <= i <= n,
                actions@ =~= seq![
                    SignalAction { pid: self.primary, signal: SignalKind::Terminate },
                ] + spec_terminate_siblings(self.siblings@).take(i as int),
            decreases n - i,
        {
            let a = sib_actions[i];
            actions.push(a);
            i += 1;
            proof {
                assert(actions@ =~= seq![
                    SignalAction { pid: self.primary, signal: SignalKind::Terminate },
                ] + spec_terminate_siblings(self.siblings@).take(i as int));
            }
        }
        proof {
            assert(spec_terminate_siblings(self.siblings@).take(n as int) =~= spec_terminate_siblings(
                self.siblings@,
            ));
        }
        if self.forceful {
            actions.push(SignalAction { pid: self.primary, signal: SignalKind::ForceKill });
        }
        proof {
            assert(actions@ =~= spec_teardown_actions(*self));
        }
        actions
    }
}

proof fn lemma_terminate_count_matches_occurrences(sibs: Seq<u32>, pid: u32)
    ensures
        spec_terminate_count(spec_terminate_siblings(sibs), pid) == spec_occurrences(sibs, pid),
    decreases sibs.len(),
{
    if sibs.len() > 0 {
        lemma_terminate_count_matches_occurrences(sibs.drop_first(), pid);
        assert(spec_terminate_siblings(sibs).drop_first() =~= spec_terminate_siblings(
            sibs.drop_first(),
        ));
    }
}

proof fn lemma_occurrences_of_member_no_dup(sibs: Seq<u32>, pid: u32)
    requires
        sibs.no_duplicates(),
    ensures
        spec_occurrences(sibs, pid) == if sibs.contains(pid) {
            1nat
        } else {
            0nat
        },
    decreases sibs.len(),
{
    if sibs.len() > 0 {
        assert(sibs.drop_first().no_duplicates()) by {
            assert(forall|i: int, j: int|
                0 <= i < j < sibs.drop_first().len() ==> sibs.drop_first()[i] == sibs[i + 1]
                    && sibs.drop_first()[j] == sibs[j + 1]);
        }
        lemma_occurrences_of_member_no_dup(sibs.drop_first(), pid);
        if sibs[0] == pid {
            assert(!sibs.drop_first().contains(pid)) by {
                if sibs.drop_first().contains(pid) {
                    let k = choose|k: int|
                        0 <= k < sibs.drop_first().len() && sibs.drop_first()[k] == pid;
                    assert(sibs[k + 1] == pid);
                }
            }
        } else {
            assert(sibs.contains(pid) <==> sibs.drop_first().contains(pid)) by {
                if sibs.contains(pid) {
                    let k = choose|k: int| 0 <= k < sibs.len() && sibs[k] == pid;
                    assert(sibs.drop_first()[k - 1] == pid);
                }
                if sibs.drop_first().contains(pid) {
                    let k = choose|k: int|
                        0 <= k < sibs.drop_first().len() && sibs.drop_first()[k] == pid;
                    assert(sibs[k + 1] == pid);
                }
            }
        }
    }
}

/// When the primary dies, every registered sibling receives exactly
/// one graceful terminate from the reaction (further best-effort
/// duplicates may come from scope teardown; they are tolerated).
pub proof fn lemma_primary_exit_signals_each_sibling_once(p: SupervisorPolicy, pid: u32)
    requires
        p.siblings@.no_duplicates(),
        p.siblings@.contains(pid),
    ensures
        spec_terminate_count(spec_terminate_siblings(p.siblings@), pid) == 1,
{
    lemma_terminate_count_matches_occurrences(p.siblings@, pid);
    lemma_occurrences_of_member_no_dup(p.siblings@, pid);
}

/// A process never registered as a sibling is not signalled by the
/// primary-exit reaction.
pub proof fn lemma_primary_exit_signals_only_siblings(p: SupervisorPolicy, pid: u32)
    requires
        !p.siblings@.contains(pid),
    ensures
        spec_terminate_count(spec_terminate_siblings(p.siblings@), pid) == 0,
{
    lemma_terminate_count_matches_occurrences(p.siblings@, pid);
    assert(spec_occurrences(p.siblings@, pid) == 0) by {
        lemma_occurrences_absent(p.siblings@, pid);
    }
}

proof fn lemma_occurrences_absent(sibs: Seq<u32>, pid: u32)
    requires
        !sibs.contains(pid),
    ensures
        spec_occurrences(sibs, pid) == 0,
    decreases sibs.len(),
{
    if sibs.len() > 0 {
        assert(sibs[0] != pid);
        assert(!sibs.drop_first().contains(pid)) by {
            if sibs.drop_first().contains(pid) {
                let k = choose|k: int|
                    0 <= k < sibs.drop_first().len() && sibs.drop_first()[k] == pid;
                assert(sibs[k + 1] == pid);
            }
        }
        lemma_occurrences_absent(sibs.drop_first(), pid);
    }
}

} // verus!
