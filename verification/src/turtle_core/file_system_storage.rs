//! The discipline of the state files: a state is loaded from the text of its
//! file where there is one, and begins at its default otherwise.  A state is
//! written as one field per line, in a fixed order.

use vstd::prelude::*;
use vstd::string::StringExecFns;
use crate::text::{number_chars, push_number};
use crate::turtle_core::control::StateFile;
use crate::TurtleIdentifier;

verus! {

/// The path of a state file of a turtle: the position lies under
/// `positions`, the progress of a job under `progress`, each under the
/// identifier of the turtle and with the ending of its kind.
pub open spec fn spec_state_path(file: StateFile, id: TurtleIdentifier) -> Seq<char> {
    match file {
        StateFile::Nav => "positions/"@ + number_chars(id as nat) + ".nav"@,
        StateFile::ModelBuilder => "progress/"@ + number_chars(id as nat) + ".modelbuilder"@,
        StateFile::ChunkDigger => "progress/"@ + number_chars(id as nat) + ".chunkdigger"@,
        StateFile::SillyBuilder => "progress/"@ + number_chars(id as nat) + ".turtle"@,
    }
}

/// The path of a state file of a turtle.
pub fn state_path(file: StateFile, id: TurtleIdentifier) -> (r: String)
    ensures
        r@ == spec_state_path(file, id),
{
    let mut path = match file {
        StateFile::Nav => String::from_str("positions/"),
        _ => String::from_str("progress/"),
    };
    push_number(id as u64, &mut path);
    match file {
        StateFile::Nav => path.append(".nav"),
        StateFile::ModelBuilder => path.append(".modelbuilder"),
        StateFile::ChunkDigger => path.append(".chunkdigger"),
        StateFile::SillyBuilder => path.append(".turtle"),
    }
    path
}

/// A state that is kept in a file.
pub trait FStore: Sized {
    /// The text that stands for this state.
    spec fn text(&self) -> Seq<u8>;

    /// The state that a text stands for, if it stands for one.
    spec fn parse(d: Seq<u8>) -> Option<Self>;

    /// The state of a turtle that has no file yet.
    spec fn initial() -> Self;

    /// The state of a turtle that has no file yet.
    fn default() -> (r: Self)
        ensures
            r == Self::initial(),
    ;

    /// Writes the state as text.
    fn save(&self) -> (r: Vec<u8>)
        ensures
            r@ == self.text(),
    ;

    /// Reads a state from text.
    fn load(d: &[u8]) -> (r: Option<Self>)
        ensures
            r == Self::parse(d@),
    ;

    /// A state that was written is read back as it was.
    proof fn lemma_reload(&self)
        ensures
            Self::parse(self.text()) == Some(*self),
    ;
}

/// What loading a state came to.
pub enum Loaded<T> {
    /// The file was there, and this is the state it holds.
    Read(T),
    /// There was no file: this is the default state, with the text to create
    /// the file with.
    Created(T, Vec<u8>),
    /// The file was there, and its text stands for no state.
    Unreadable,
}

/// The text to write a state with.
pub fn fstore_save<T: FStore>(t: &T) -> (r: Vec<u8>)
    ensures
        r@ == t.text(),
{
    t.save()
}

/// Loads a state from the text of its file, or begins with the default state
/// where there is no file.
pub fn fstore_load_or_init<T: FStore>(stored: Option<&[u8]>) -> (r: Loaded<T>)
    ensures
        match stored {
            Some(d) => match T::parse(d@) {
                Some(t) => r == Loaded::Read(t),
                None => r is Unreadable,
            },
            None => r is Created && r->Created_0 == T::initial() && r->Created_1@
                == T::initial().text(),
        },
{
    match stored {
        None => {
            let t = T::default();
            let text = fstore_save(&t);
            Loaded::Created(t, text)
        },
        Some(d) => match T::load(d) {
            Some(t) => Loaded::Read(t),
            None => Loaded::Unreadable,
        },
    }
}

} // verus!
