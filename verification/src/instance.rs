//! The two player instances: which of them plays what is told by its role,
//! and each role has its own control channel and its own screen.

use vstd::prelude::*;
use vstd::string::StringExecFns;

verus! {

/// The pause between two looks for the control channel of a player that
/// was just launched, in milliseconds.
pub const READY_INTERVAL_MS: u64 = 100;

/// The role of a player instance. Two instances exist, one per role; the
/// outgoing one of a transition has one role, the incoming one the other.
#[derive(Clone, Copy, Debug, PartialEq, Eq, Structural)]
pub enum Role {
    A,
    B,
}

/// The path of the control channel of the instance in `role`.
pub open spec fn socket_of(role: Role) -> Seq<char> {
    match role {
        Role::A => "/tmp/mpv0.socket"@,
        Role::B => "/tmp/mpv1.socket"@,
    }
}

/// The argument that names the screen of the instance in `role`.
pub open spec fn screen_argument(role: Role) -> Seq<char> {
    match role {
        Role::A => "--fs-screen=1"@,
        Role::B => "--fs-screen=2"@,
    }
}

/// The arguments with which the player of `role` is launched: it starts
/// idle, without a terminal, quiet and in full screen, on its own screen,
/// and serves its own control channel.
pub open spec fn arguments_of(role: Role) -> Seq<Seq<char>> {
    seq![
        "--idle"@,
        "--no-terminal"@,
        "--quiet"@,
        "--fs"@,
        screen_argument(role),
        "--input-ipc-server="@ + socket_of(role),
    ]
}

impl Role {
    /// The number of the role: 0 or 1.
    pub open spec fn slot(self) -> nat {
        match self {
            Role::A => 0,
            Role::B => 1,
        }
    }

    /// The number of the role, as an index into a pair of instances.
    pub fn index(self) -> (slot: usize)
        ensures
            slot == self.slot(),
    {
        match self {
            Role::A => 0,
            Role::B => 1,
        }
    }

    /// The other role: the two swap after each transition.
    pub fn other(self) -> (role: Role)
        ensures
            role != self,
            role.slot() == 1 - self.slot(),
    {
        match self {
            Role::A => Role::B,
            Role::B => Role::A,
        }
    }

    /// The screen of the instance, counted from 1.
    pub fn screen(self) -> (screen: u64)
        ensures
            screen == self.slot() + 1,
    {
        match self {
            Role::A => 1,
            Role::B => 2,
        }
    }

    /// The path of the control channel of the instance. A file left at
    /// that path is removed before the player is launched, and the channel
    /// is ready once the file is there again.
    pub fn socket_path(self) -> (path: String)
        ensures
            path@ == socket_of(self),
    {
        match self {
            Role::A => String::from_str("/tmp/mpv0.socket"),
            Role::B => String::from_str("/tmp/mpv1.socket"),
        }
    }

    /// The arguments with which the player of this role is launched.
    pub fn launch_arguments(self) -> (arguments: Vec<String>)
        ensures
            arguments.deep_view() == arguments_of(self),
    {
        let mut arguments: Vec<String> = Vec::new();
        arguments.push(String::from_str("--idle"));
        arguments.push(String::from_str("--no-terminal"));
        arguments.push(String::from_str("--quiet"));
        arguments.push(String::from_str("--fs"));
        arguments.push(
            match self {
                Role::A => String::from_str("--fs-screen=1"),
                Role::B => String::from_str("--fs-screen=2"),
            },
        );
        let socket = self.socket_path();
        arguments.push(String::from_str("--input-ipc-server=").concat(socket.as_str()));
        arguments
    }
}

} // verus!
