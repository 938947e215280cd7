//! Viewing-side session wiring: the exact command lines.
//!
//! The session itself — the rendezvous socket, the socket pair handed
//! to the remote-call process, the two relay loops and the supervisor
//! threads — is operating-system work done by the application. What is
//! decided here is every argument either spawned process receives.

use vstd::prelude::*;

verus! {

use crate::server::views_of;
use vstd::string::StringExecFns;

/// File name of the session's local rendezvous socket.
pub fn viewer_socket_name() -> (r: String)
    ensures
        r@ == "qyoobs-vnc.sock"@,
{
    String::from_str("qyoobs-vnc.sock")
}

/// The viewer's command line: shared session, no resize or clipboard
/// traffic towards the capture side, verbose logging only when asked
/// for (a quiet run passes an empty argument in that position), and
/// the rendezvous socket path as the connection target.
pub open spec fn spec_viewer_args(verbose: bool, socket_path: Seq<char>) -> Seq<Seq<char>> {
    seq![
        "-Shared"@,
        "-RemoteResize=0"@,
        "-SendPrimary=0"@,
        "-SendClipboard=0"@,
        (if verbose {
            "-Log=*:stderr:100"@
        } else {
            ""@
        }),
        socket_path,
    ]
}

/// Prints the viewer's command line.
pub fn viewer_args(verbose: bool, socket_path: &str) -> (r: Vec<String>)
    ensures
        views_of(r@) == spec_viewer_args(verbose, socket_path@),
{
    let mut r: Vec<String> = Vec::new();
    r.push(String::from_str("-Shared"));
    r.push(String::from_str("-RemoteResize=0"));
    r.push(String::from_str("-SendPrimary=0"));
    r.push(String::from_str("-SendClipboard=0"));
    if verbose {
        r.push(String::from_str("-Log=*:stderr:100"));
    } else {
        r.push(String::from_str(""));
    }
    r.push(String::from_str(socket_path));
    proof {
        assert(views_of(r@) =~= spec_viewer_args(verbose, socket_path@));
    }
    r
}

/// The remote-call client's command line: the target VM, then the
/// call identifier carrying the selector.
pub fn qrexec_args(target_vmname: &str, program_ident: &str) -> (r: Vec<String>)
    ensures
        views_of(r@) == seq![target_vmname@, program_ident@],
{
    let mut r: Vec<String> = Vec::new();
    r.push(String::from_str(target_vmname));
    r.push(String::from_str(program_ident));
    proof {
        assert(views_of(r@) =~= seq![target_vmname@, program_ident@]);
    }
    r
}

} // verus!
