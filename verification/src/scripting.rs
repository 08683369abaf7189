//! A host for named scripts. Scripts can be registered and looked up;
//! running them is a capability that has no behaviour yet.

use crate::error::{fails_with, ErrorView, KituError};
use vstd::hash_map::StringHashMap;
use vstd::prelude::*;

verus! {

/// A script: its name and its source text.
#[derive(Debug, Clone)]
pub struct Script {
    /// The name under which the script is looked up.
    pub name: String,
    /// The source text.
    pub source: String,
}

/// The failure reported when a script is not there.
pub open spec fn missing_script() -> ErrorView {
    ErrorView::InvalidInput("missing script"@)
}

/// The registered scripts, by name.
pub struct ScriptHost {
    scripts: StringHashMap<Script>,
}

impl View for ScriptHost {
    type V = Map<Seq<char>, Seq<char>>;

    /// The source of each registered script, by the script's name.
    closed spec fn view(&self) -> Map<Seq<char>, Seq<char>> {
        self.scripts@.map_values(|script: Script| script.source@)
    }
}

impl Default for ScriptHost {
    /// The host without scripts.
    fn default() -> (host: ScriptHost)
        ensures
            host@ == Map::<Seq<char>, Seq<char>>::empty(),
    {
        let host = ScriptHost { scripts: StringHashMap::new() };
        assert(host@ =~= Map::<Seq<char>, Seq<char>>::empty());
        host
    }
}

impl ScriptHost {
    /// Registers `source` under `name`, in place of any script that had the name.
    pub fn register_script(&mut self, name: &str, source: &str)
        ensures
            final(self)@ == old(self)@.insert(name@, source@),
    {
        let script = Script { name: name.to_owned(), source: source.to_owned() };
        self.scripts.insert(name.to_owned(), script);
        assert(self@ =~= old(self)@.insert(name@, source@));
    }

    /// Invokes the function `func` of the script named `script`. Fails with
    /// invalid input if no such script is registered; otherwise fails too,
    /// naming `func` as the capability that is not implemented.
    pub fn invoke(&self, script: &str, func: &str) -> (outcome: Result<(), KituError>)
        ensures
            !self@.contains_key(script@) ==> fails_with(outcome, missing_script()),
            self@.contains_key(script@) ==> fails_with(outcome, ErrorView::NotImplemented(func@)),
    {
        if !self.scripts.contains_key(script) {
            return Err(KituError::InvalidInput("missing script"));
        }
        Err(KituError::NotImplemented(func.to_owned()))
    }

    /// The number of registered scripts.
    pub fn len(&self) -> (n: usize)
        ensures
            n == self@.len(),
    {
        assert(self@.dom() =~= self.scripts@.dom());
        self.scripts.len()
    }
}

} // verus!
