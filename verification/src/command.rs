//! Viewer commands.
//!
//! A command is produced from one inbound viewer message and consumed exactly
//! once by the session loop. Click coordinates are carried as the number text
//! the viewer sent, validated against the protocol's number grammar; the
//! layer that talks to the real session turns them into machine numbers.

use vstd::prelude::*;
use crate::protocol;

verus! {

/// A viewport coordinate: the digits of one number, exactly as they stood in
/// the inbound message. The text always satisfies the protocol's number
/// grammar. No bounds validation against the viewport is done here:
/// out-of-range values are forwarded as they are.
#[derive(Debug, Clone, PartialEq, Eq)]
pub struct Coord {
    pub text: String,
}

impl View for Coord {
    type V = Seq<char>;

    open spec fn view(&self) -> Seq<char> {
        self.text@
    }
}

impl Coord {
    /// The carried text is a well-formed number.
    pub open spec fn wf(&self) -> bool {
        protocol::is_number_text(self@)
    }

    /// Validate `text` against the number grammar and wrap it.
    pub fn from_text(text: &str) -> (r: Option<Coord>)
        ensures
            match r {
                Some(c) => c@ == text@ && c.wf(),
                None => !protocol::is_number_text(text@),
            },
    {
        if protocol::check_number_text(text) {
            Some(Coord { text: text.to_owned() })
        } else {
            None
        }
    }

    /// The number text, to be handed to whatever resolves it into a machine
    /// number.
    pub fn text(&self) -> (r: &str)
        ensures
            r@ == self@,
    {
        self.text.as_str()
    }
}

/// One viewer-issued input command.
#[derive(Debug, Clone, PartialEq, Eq)]
pub enum Command {
    /// Load the given address in the session.
    Navigate { url: String },
    /// Press and release the pointer at the given viewport coordinates.
    Click { x: Coord, y: Coord },
    /// Forward one key identifier to the session.
    Key { key: String },
}

/// Mathematical image of a `Command`, over character sequences.
pub ghost enum CmdModel {
    Navigate { url: Seq<char> },
    Click { x: Seq<char>, y: Seq<char> },
    Key { key: Seq<char> },
}

impl Command {
    /// A command's coordinates always carry well-formed number text.
    pub open spec fn wf(&self) -> bool {
        match self {
            Command::Click { x, y } => x.wf() && y.wf(),
            _ => true,
        }
    }
}

impl View for Command {
    type V = CmdModel;

    open spec fn view(&self) -> CmdModel {
        match self {
            Command::Navigate { url } => CmdModel::Navigate { url: url@ },
            Command::Click { x, y } => CmdModel::Click { x: x@, y: y@ },
            Command::Key { key } => CmdModel::Key { key: key@ },
        }
    }
}

} // verus!
