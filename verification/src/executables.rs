//! The uniform shape of the tool's built-in commands: a self-describing
//! definition record and the trait every built-in implements.

use vstd::prelude::*;

verus! {

/// One documented argument of a built-in command: the flag token and the
/// text shown for it in the help listing.
pub struct ArgDoc {
    pub flag: String,
    pub description: String,
}

/// Mathematical image of an [`ArgDoc`].
pub ghost struct ArgDocView {
    pub flag: Seq<char>,
    pub description: Seq<char>,
}

impl View for ArgDoc {
    type V = ArgDocView;

    open spec fn view(&self) -> ArgDocView {
        ArgDocView { flag: self.flag@, description: self.description@ }
    }
}

impl Clone for ArgDoc {
    fn clone(&self) -> (r: Self)
        ensures
            r@ == self@,
    {
        ArgDoc { flag: self.flag.clone(), description: self.description.clone() }
    }
}

/// Help-text description of one built-in command: its name, a summary, and
/// a map from flag token to flag description.
pub struct InternalExecutableDefinition {
    pub name: String,
    pub description: String,
    pub args: Vec<ArgDoc>,
}

/// Mathematical image of an [`InternalExecutableDefinition`].
pub ghost struct InternalExecutableDefinitionView {
    pub name: Seq<char>,
    pub description: Seq<char>,
    pub args: Seq<ArgDocView>,
}

impl View for InternalExecutableDefinition {
    type V = InternalExecutableDefinitionView;

    open spec fn view(&self) -> InternalExecutableDefinitionView {
        InternalExecutableDefinitionView {
            name: self.name@,
            description: self.description@,
            args: self.args@.map_values(|a: ArgDoc| a@),
        }
    }
}

impl Clone for InternalExecutableDefinition {
    fn clone(&self) -> (r: Self)
        ensures
            r@ == self@,
    {
        let r = InternalExecutableDefinition {
            name: self.name.clone(),
            description: self.description.clone(),
            args: self.args.clone(),
        };
        proof {
            assert(r@.args =~= self@.args);
        }
        r
    }
}

/// A command implemented by this tool's own binary rather than discovered by
/// scanning: it can describe itself for the help listing.
pub trait InternalExecutable {
    /// The definition this executable publishes.
    spec fn definition_view(&self) -> InternalExecutableDefinitionView;

    /// Hands out the definition record for help rendering.
    fn get_definition(&self) -> (d: &InternalExecutableDefinition)
        ensures
            d@ == self.definition_view(),
    ;
}

} // verus!
