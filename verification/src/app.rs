//! An application record and what makes two records the same application.
use vstd::prelude::*;
use crate::score::Score;
use crate::text::{clone_strings, same_strings, texts};

verus! {

/// An application that can be launched.
#[derive(Debug)]
pub struct App {
    /// Display name of the application.
    pub name: String,
    /// The command that launches it, argument by argument.
    pub command: Vec<String>,
    /// The stored ranking score.
    pub score: Score,
    /// The identifier given to the record when it was made. It stays with the
    /// record while the list around it changes.
    pub uuid: String,
    /// Name of the icon, to be looked up in the icon theme.
    pub icon: String,
    /// Whether the application runs in a terminal.
    pub terminal: bool,
}

/// What a record holds, as plain values.
pub struct AppView {
    pub name: Seq<char>,
    pub command: Seq<Seq<char>>,
    pub score: Score,
    pub uuid: Seq<char>,
    pub icon: Seq<char>,
    pub terminal: bool,
}

/// What tells one application from another: name, command and icon. The
/// identifier and the score are no part of it, so a record that was read anew
/// is recognised as the application it describes.
pub struct Identity {
    pub name: Seq<char>,
    pub command: Seq<Seq<char>>,
    pub icon: Seq<char>,
}

impl AppView {
    pub open spec fn identity(self) -> Identity {
        Identity { name: self.name, command: self.command, icon: self.icon }
    }
}

impl View for App {
    type V = AppView;

    open spec fn view(&self) -> AppView {
        AppView {
            name: self.name@,
            command: texts(self.command@),
            score: self.score,
            uuid: self.uuid@,
            icon: self.icon@,
            terminal: self.terminal,
        }
    }
}

/// The views of a list of records, in order.
pub open spec fn views(apps: Seq<App>) -> Seq<AppView> {
    Seq::new(apps.len(), |i: int| apps[i]@)
}

/// The identities of a list of records, in order.
pub open spec fn identities(apps: Seq<AppView>) -> Seq<Identity> {
    Seq::new(apps.len(), |i: int| apps[i].identity())
}

/// A fresh identifier: 36 characters, whatever they are.
///
/// Calls `uuid::Uuid::new_v4` and writes the result with its `Display`, whose
/// hyphenated form has that length. The characters come from the system's
/// random source, so nothing more is said of them.
#[verifier::external_body]
fn fresh_uuid() -> (id: String)
    ensures
        id@.len() == 36,
{
    uuid::Uuid::new_v4().to_string()
}

impl App {
    /// Makes a record with a fresh identifier and a score of zero.
    pub fn new(name: String, icon: String, command: Vec<String>, terminal: bool) -> (app: App)
        ensures
            app@.name == name@,
            app@.icon == icon@,
            app@.command == texts(command@),
            app@.terminal == terminal,
            app@.score.bits == 0,
            app@.uuid.len() == 36,
    {
        App { name, icon, command, uuid: fresh_uuid(), score: Score::zero(), terminal }
    }

    /// Takes name, icon and command from the other record. Identifier, score
    /// and terminal flag stay.
    pub fn merge(&mut self, other: &App)
        ensures
            final(self)@.identity() == other@.identity(),
            final(self)@.uuid == old(self)@.uuid,
            final(self)@.score == old(self)@.score,
            final(self)@.terminal == old(self)@.terminal,
    {
        self.name = other.name.clone();
        self.icon = other.icon.clone();
        self.command = clone_strings(&other.command);
    }

    /// Whether both records describe the same application.
    pub fn same_identity(&self, other: &App) -> (r: bool)
        ensures
            r == (self@.identity() == other@.identity()),
    {
        self.name == other.name && same_strings(&self.command, &other.command) && self.icon
            == other.icon
    }

    /// The text that stands for the record where it is shown: its name.
    pub fn to_string(&self) -> (s: String)
        ensures
            s@ == self@.name,
    {
        self.name.clone()
    }
}

impl Clone for App {
    fn clone(&self) -> (r: Self)
        ensures
            r@ == self@,
    {
        App {
            name: self.name.clone(),
            command: clone_strings(&self.command),
            score: self.score,
            uuid: self.uuid.clone(),
            icon: self.icon.clone(),
            terminal: self.terminal,
        }
    }
}

impl Default for App {
    fn default() -> (r: Self)
        ensures
            r@.name.len() == 0,
            r@.command.len() == 0,
            r@.score.bits == 0,
            r@.uuid.len() == 0,
            r@.icon.len() == 0,
            !r@.terminal,
    {
        App {
            name: String::new(),
            command: Vec::new(),
            score: Score::zero(),
            uuid: String::new(),
            icon: String::new(),
            terminal: false,
        }
    }
}

impl PartialEq for App {
    fn eq(&self, other: &Self) -> (r: bool) {
        self.same_identity(other)
    }
}

impl vstd::std_specs::cmp::PartialEqSpecImpl for App {
    open spec fn obeys_eq_spec() -> bool {
        true
    }

    open spec fn eq_spec(&self, other: &Self) -> bool {
        self@.identity() == other@.identity()
    }
}

impl Eq for App {

}

} // verus!
