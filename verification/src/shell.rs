//! A registry of named commands and a dispatcher that runs them.

use crate::error::{fails_with, ErrorView, KituError};
use crate::text::{join, join_strings, string_views};
use vstd::hash_map::StringHashMap;
use vstd::prelude::*;

verus! {

/// The behaviour of a command.
pub trait CommandHandler: Send + Sync {
    /// What the command may answer: whether, run with `args`, it may return
    /// `outcome`. A handler that says nothing may answer anything.
    open spec fn answers(&self, args: Seq<Seq<char>>, outcome: Result<String, KituError>) -> bool {
        true
    }

    /// Runs the command with `args`.
    fn execute(&self, args: &[String]) -> (outcome: Result<String, KituError>)
        ensures
            self.answers(string_views(args@), outcome),
    ;
}

/// What a shell keeps of a handler once its type is hidden. Every handler
/// has it, with the handler's own behaviour.
trait HeldCommand: Send + Sync {
    /// What the handler may answer; see [`CommandHandler::answers`].
    spec fn held_answers(&self, args: Seq<Seq<char>>, outcome: Result<String, KituError>) -> bool;

    /// Runs the handler with `args`.
    fn held_execute(&self, args: &[String]) -> (outcome: Result<String, KituError>)
        ensures
            self.held_answers(string_views(args@), outcome),
    ;
}

impl<C: CommandHandler> HeldCommand for C {
    spec fn held_answers(&self, args: Seq<Seq<char>>, outcome: Result<String, KituError>) -> bool {
        self.answers(args, outcome)
    }

    fn held_execute(&self, args: &[String]) -> (outcome: Result<String, KituError>) {
        self.execute(args)
    }
}

/// A command in a shell, behind a handle that hides the handler's type.
pub struct RegisteredCommand {
    handler: Box<dyn HeldCommand>,
}

impl RegisteredCommand {
    /// The handle that holds `handler`.
    pub closed spec fn holding<C: CommandHandler + 'static>(handler: C) -> RegisteredCommand {
        RegisteredCommand { handler: Box::new(handler) }
    }

    /// What the held command may answer; see [`CommandHandler::answers`].
    pub closed spec fn answers(&self, args: Seq<Seq<char>>, outcome: Result<String, KituError>) -> bool {
        self.handler.held_answers(args, outcome)
    }
}

/// A handle answers as the handler that it holds.
pub proof fn lemma_held_command_answers<C: CommandHandler + 'static>(
    handler: C,
    args: Seq<Seq<char>>,
    outcome: Result<String, KituError>,
)
    ensures
        RegisteredCommand::holding(handler).answers(args, outcome) == handler.answers(
            args,
            outcome,
        ),
{
}

/// The failure reported for a command that is not registered.
pub open spec fn unknown_command() -> ErrorView {
    ErrorView::InvalidInput("unknown command"@)
}

/// The registered commands, by name.
pub struct Shell {
    commands: StringHashMap<RegisteredCommand>,
}

impl Default for Shell {
    /// The shell without commands.
    fn default() -> (shell: Shell)
        ensures
            shell.commands() == Map::<Seq<char>, RegisteredCommand>::empty(),
    {
        Shell { commands: StringHashMap::new() }
    }
}

impl Shell {
    /// The registered commands, by name.
    pub closed spec fn commands(&self) -> Map<Seq<char>, RegisteredCommand> {
        self.commands@
    }

    /// Registers `handler` under `name`, in place of any command that had the name.
    pub fn register_command<C: CommandHandler + 'static>(&mut self, name: &str, handler: C)
        ensures
            final(self).commands() == old(self).commands().insert(
                name@,
                RegisteredCommand::holding(handler),
            ),
    {
        self.commands.insert(name.to_owned(), RegisteredCommand { handler: Box::new(handler) });
    }

    /// Runs the command named `command` with `args` and returns what it
    /// answers. Fails with invalid input if no such command is registered.
    pub fn run(&self, command: &str, args: &[String]) -> (outcome: Result<String, KituError>)
        ensures
            !self.commands().contains_key(command@) ==> fails_with(outcome, unknown_command()),
            self.commands().contains_key(command@) ==> self.commands()[command@].answers(
                string_views(args@),
                outcome,
            ),
    {
        match self.commands.get(command) {
            Some(registered) => registered.handler.held_execute(args),
            None => Err(KituError::InvalidInput("unknown command")),
        }
    }
}

/// A command that answers with its arguments, joined by single spaces.
#[derive(Default)]
pub struct EchoCommand;

impl CommandHandler for EchoCommand {
    open spec fn answers(&self, args: Seq<Seq<char>>, outcome: Result<String, KituError>) -> bool {
        outcome matches Ok(text) && text@ == join(args, " "@)
    }

    fn execute(&self, args: &[String]) -> (outcome: Result<String, KituError>)
    {
        Ok(join_strings(args, " "))
    }
}

} // verus!
