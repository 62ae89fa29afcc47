use vstd::prelude::*;

use crate::config::{text_eq, ConfigError, ErrorQueue};
use crate::context::Context;
use crate::modules::directory::Directory;

pub mod directory;

verus! {

/// The colour of a piece of the prompt.
#[derive(Clone, Copy, Debug, PartialEq, Eq, Structural)]
pub enum Color {
    Black,
    Red,
    Green,
    Yellow,
    Blue,
    Purple,
    Cyan,
    White,
}

/// A piece of text of the prompt and its colour.
pub struct ModuleSegment {
    pub color: Color,
    pub text: String,
}

/// What a module produced, in order.
pub struct PreparedModule(pub Vec<ModuleSegment>);

/// What every module offers.
pub trait ModuleType {
    /// The module's name: how it is asked for, and its section of the
    /// configuration.
    spec fn spec_name(&self) -> Seq<char>;

    /// What the module shows, in words for people.
    spec fn spec_description(&self) -> Seq<char>;

    /// `output` is what the module gives for `context`, and the queue went
    /// from `before` to `after`.
    spec fn prepared(
        &self,
        context: Context,
        before: Seq<ConfigError>,
        output: PreparedModule,
        after: Seq<ConfigError>,
    ) -> bool;

    fn name(&self) -> (r: &str)
        ensures
            r@ == self.spec_name(),
    ;

    fn description(&self) -> (r: &str)
        ensures
            r@ == self.spec_description(),
    ;

    /// Always gives an output, whatever the context holds.
    fn prepare(&self, context: &Context, queue: &mut ErrorQueue) -> (r: PreparedModule)
        ensures
            self.prepared(*context, old(queue)@, r, final(queue)@),
    ;
}

/// Why a module could not be prepared.
pub enum DispatchError {
    /// No module is registered under this name.
    UnknownModule(String),
}

/// The modules known by name.
pub enum Module {
    Directory(Directory),
}

/// Whether a module is registered under `name`. Names match exactly,
/// case included.
pub open spec fn is_registered(name: Seq<char>) -> bool {
    name == "directory"@
}

/// The module registered under `name`, if any.
pub fn lookup(name: &str) -> (r: Option<Module>)
    ensures
        r is Some <==> is_registered(name@),
{
    if text_eq(name, "directory") {
        Some(Module::Directory(Directory))
    } else {
        None
    }
}

/// Prepares the module registered under `name` for `context`. An unknown
/// name is an error, and then no module runs and the queue is left as it
/// was; a known module always gives its output.
pub fn prepare(name: &str, context: &Context, queue: &mut ErrorQueue) -> (r: Result<
    PreparedModule,
    DispatchError,
>)
    ensures
        r is Ok <==> is_registered(name@),
        r matches Ok(output) ==> Directory.prepared(*context, old(queue)@, output, final(queue)@),
        r matches Err(DispatchError::UnknownModule(n)) ==> n@ == name@ && final(queue)@ == old(
            queue,
        )@,
{
    match lookup(name) {
        Some(Module::Directory(module)) => Ok(module.prepare(context, queue)),
        None => Err(DispatchError::UnknownModule(String::from_str(name))),
    }
}

} // verus!
