//! Lists of systems, and the flakes that hold them.

use crate::eval::flake_path_expr;
use crate::eval::import_expr;
use crate::eval::nix_import_flake;
use crate::eval::EvalError;
use crate::eval::EvalFailure;
use crate::eval::EvalStep;
use crate::eval::ImportState;
use crate::eval::ProcessInvocationError;
use crate::eval::Step;
use crate::json::json_string;
use crate::json::json_string_list;
use crate::registry::first_located;
use crate::registry::first_named;
use crate::registry::lemma_first_located;
use crate::registry::lemma_first_named;
use crate::registry::locator_of;
use crate::registry::name_of;
use crate::registry::KnownRegistry;
use crate::strings::names_view;
use vstd::prelude::*;
use vstd::string::StringExecFns;

verus! {

/// The URL of a flake that holds a list of systems.
#[derive(Debug, Clone, PartialEq, Eq)]
pub struct SystemsListFlakeRef(pub String);

impl View for SystemsListFlakeRef {
    type V = Seq<char>;

    open spec fn view(&self) -> Seq<char> {
        self.0@
    }
}

/// A list of systems, in the order in which its source gave them.
#[derive(Debug, PartialEq, Eq)]
pub struct SystemsList(pub Vec<String>);

impl View for SystemsList {
    type V = Seq<Seq<char>>;

    open spec fn view(&self) -> Seq<Seq<char>> {
        names_view(self.0@)
    }
}

/// The URL that `text` stands for: that of the registry entry of this name,
/// and otherwise `text` itself.
pub open spec fn normalized(registry: Seq<(Seq<char>, Seq<char>)>, text: Seq<char>) -> Seq<char> {
    match locator_of(registry, text) {
        Some(locator) => locator,
        None => text,
    }
}

/// The systems that the registry alone gives for the flake at `url`: the one
/// whose name is registered with this URL, if there is one.
pub open spec fn known_systems(registry: Seq<(Seq<char>, Seq<char>)>, url: Seq<char>) -> Option<
    Seq<Seq<char>>,
> {
    match name_of(registry, url) {
        Some(name) => Some(seq![name]),
        None => None,
    }
}

/// A registered name whose URL no other name shares resolves, by the
/// registry alone, to the list of that one name.
pub proof fn lemma_registered_name_resolves(registry: Seq<(Seq<char>, Seq<char>)>, name: Seq<char>)
    requires
        locator_of(registry, name) is Some,
        forall|j: int|
            0 <= j < registry.len() && (#[trigger] registry[j]).1 == locator_of(
                registry,
                name,
            ).unwrap() ==> registry[j].0 == name,
    ensures
        known_systems(registry, normalized(registry, name)) == Some(seq![name]),
{
    let url = locator_of(registry, name).unwrap();
    lemma_first_named(registry, name, 0);
    lemma_first_located(registry, url, 0);
    let i = first_named(registry, name, 0).unwrap();
    assert(registry[i].1 == url);
    assert(first_located(registry, url, 0) is Some);
}

/// A registered name and the URL it is registered with stand for the same
/// flake, and so resolve to the same list, by the registry alone. This is
/// stated of URLs that are not themselves registered names.
pub proof fn lemma_name_and_url_agree(registry: Seq<(Seq<char>, Seq<char>)>, name: Seq<char>)
    requires
        locator_of(registry, name) is Some,
        locator_of(registry, locator_of(registry, name).unwrap()) is None,
    ensures
        normalized(registry, name) == normalized(registry, locator_of(registry, name).unwrap()),
        known_systems(registry, normalized(registry, name)) is Some,
        known_systems(registry, normalized(registry, name)) == known_systems(
            registry,
            normalized(registry, locator_of(registry, name).unwrap()),
        ),
{
    let url = locator_of(registry, name).unwrap();
    lemma_first_named(registry, name, 0);
    lemma_first_located(registry, url, 0);
    let i = first_named(registry, name, 0).unwrap();
    assert(registry[i].1 == url);
}

impl SystemsListFlakeRef {
    /// Reads a reference to a systems list: a name of the registry stands
    /// for the URL registered under it, anything else is taken as the URL.
    pub fn from_str(registry: &KnownRegistry, text: &str) -> (r: SystemsListFlakeRef)
        ensures
            r@ == normalized(registry@, text@),
    {
        match registry.lookup_by_name(text) {
            Some(url) => SystemsListFlakeRef(url),
            None => SystemsListFlakeRef(String::from_str(text)),
        }
    }
}

impl SystemsList {
    /// The list of the flake at `url` where the registry knows that URL:
    /// the one system whose name is registered with it. Nothing is
    /// evaluated.
    pub fn from_known_flake(registry: &KnownRegistry, url: &SystemsListFlakeRef) -> (r: Option<
        SystemsList,
    >)
        ensures
            match r {
                Some(list) => known_systems(registry@, url@) == Some(list@),
                None => known_systems(registry@, url@) is None,
            },
    {
        match registry.lookup_name_by_locator(url.0.as_str()) {
            Some(name) => {
                let mut systems: Vec<String> = Vec::new();
                systems.push(name);
                let list = SystemsList(systems);
                assert(list@ =~= seq![name@]);
                Some(list)
            },
            None => None,
        }
    }

    /// Begins to load the list of the flake at `url`. Where the registry
    /// knows the URL the list is there at once and nothing is to be run;
    /// otherwise the flake is to be imported, and the first evaluation is
    /// asked for.
    pub fn from_flake(registry: &KnownRegistry, url: &SystemsListFlakeRef) -> (r: Step<SystemsList>)
        ensures
            match known_systems(registry@, url@) {
                Some(systems) => r matches Step::Done(Ok(list)) && list@ == systems,
                None => r.asks_for(EvalStep::ResolvePath, flake_path_expr(url@)),
            },
    {
        match SystemsList::from_known_flake(registry, url) {
            Some(list) => Step::Done(Ok(list)),
            None => SystemsList::from_import(nix_import_flake(url.0.as_str())),
        }
    }

    /// Goes on loading a list from a flake that is being imported, with the
    /// outcome of the evaluation that `state` awaited. A failed run, or
    /// output that cannot be decoded, ends the work with that failure; the
    /// path that the first evaluation gave is imported by the second; what
    /// the second gave is the list, in its order.
    pub fn from_remote_flake(
        state: ImportState,
        outcome: Result<Vec<u8>, ProcessInvocationError>,
    ) -> (r: Step<SystemsList>)
        ensures
            match outcome {
                Err(e) => r == Step::<SystemsList>::Done(
                    Err(
                        EvalError {
                            step: state.step(),
                            expr: state.expr(),
                            failure: EvalFailure::Process(e),
                        },
                    ),
                ),
                Ok(stdout) => match state {
                    ImportState::ResolvingPath { expr } => match json_string(stdout@) {
                        Some(path) => r.asks_for(EvalStep::Import, import_expr(path)),
                        None => r.decode_failed(EvalStep::ResolvePath, expr),
                    },
                    ImportState::Importing { expr } => match json_string_list(stdout@) {
                        Some(systems) => r matches Step::Done(Ok(list)) && list@ == systems,
                        None => r.decode_failed(EvalStep::Import, expr),
                    },
                },
            },
    {
        SystemsList::from_import(state.advance(outcome))
    }

    /// The same step of an import, with the value that it may hold taken as
    /// a list of systems.
    pub fn from_import(step: Step<Vec<String>>) -> (r: Step<SystemsList>)
        ensures
            match step {
                Step::Run { args, state } => r == Step::<SystemsList>::Run { args, state },
                Step::Done(Ok(systems)) => r == Step::Done(Ok(SystemsList(systems))),
                Step::Done(Err(e)) => r == Step::<SystemsList>::Done(Err(e)),
            },
    {
        match step {
            Step::Run { args, state } => Step::Run { args, state },
            Step::Done(Ok(systems)) => Step::Done(Ok(SystemsList(systems))),
            Step::Done(Err(e)) => Step::Done(Err(e)),
        }
    }
}

} // verus!
