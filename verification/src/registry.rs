//! The registry of well-known systems lists: from a short name to the flake
//! that holds the list.

use crate::json::error_message;
use crate::json::json_string_map;
use crate::json::parse_string_map;
use crate::lex::same_text;
use crate::strings::pairs_view;
use vstd::prelude::*;

verus! {

/// The registry's source text was no JSON object of strings.
#[derive(Debug)]
pub struct RegistryInitError {
    /// What the decoder said.
    pub message: String,
}

/// The index of the first entry at or after `from` whose name is `name`.
pub open spec fn first_named(
    entries: Seq<(Seq<char>, Seq<char>)>,
    name: Seq<char>,
    from: int,
) -> Option<int>
    decreases entries.len() - from,
{
    if from < 0 || from >= entries.len() {
        None
    } else if entries[from].0 == name {
        Some(from)
    } else {
        first_named(entries, name, from + 1)
    }
}

/// The index of the first entry at or after `from` whose locator is
/// `locator`.
pub open spec fn first_located(
    entries: Seq<(Seq<char>, Seq<char>)>,
    locator: Seq<char>,
    from: int,
) -> Option<int>
    decreases entries.len() - from,
{
    if from < 0 || from >= entries.len() {
        None
    } else if entries[from].1 == locator {
        Some(from)
    } else {
        first_located(entries, locator, from + 1)
    }
}

/// The locator of the first entry named `name`.
pub open spec fn locator_of(entries: Seq<(Seq<char>, Seq<char>)>, name: Seq<char>) -> Option<
    Seq<char>,
> {
    match first_named(entries, name, 0) {
        Some(i) => Some(entries[i].1),
        None => None,
    }
}

/// The name of the first entry whose locator is `locator`.
pub open spec fn name_of(entries: Seq<(Seq<char>, Seq<char>)>, locator: Seq<char>) -> Option<
    Seq<char>,
> {
    match first_located(entries, locator, 0) {
        Some(i) => Some(entries[i].0),
        None => None,
    }
}

/// `first_named` finds an entry with the name and none before it; it finds
/// nothing only where no entry from `from` on has the name.
pub proof fn lemma_first_named(entries: Seq<(Seq<char>, Seq<char>)>, name: Seq<char>, from: int)
    requires
        0 <= from,
    ensures
        match first_named(entries, name, from) {
            Some(i) => from <= i < entries.len() && entries[i].0 == name && forall|j: int|
                from <= j < i ==> (#[trigger] entries[j]).0 != name,
            None => forall|j: int| from <= j < entries.len() ==> (#[trigger] entries[j]).0 != name,
        },
    decreases entries.len() - from,
{
    if from < entries.len() && entries[from].0 != name {
        lemma_first_named(entries, name, from + 1);
    }
}

/// `first_located` finds an entry with the locator and none before it; it
/// finds nothing only where no entry from `from` on has the locator.
pub proof fn lemma_first_located(
    entries: Seq<(Seq<char>, Seq<char>)>,
    locator: Seq<char>,
    from: int,
)
    requires
        0 <= from,
    ensures
        match first_located(entries, locator, from) {
            Some(i) => from <= i < entries.len() && entries[i].1 == locator && forall|j: int|
                from <= j < i ==> (#[trigger] entries[j]).1 != locator,
            None => forall|j: int|
                from <= j < entries.len() ==> (#[trigger] entries[j]).1 != locator,
        },
    decreases entries.len() - from,
{
    if from < entries.len() && entries[from].1 != locator {
        lemma_first_located(entries, locator, from + 1);
    }
}

/// The well-known systems lists: pairs of a name and a locator, in a fixed
/// order. It is made once and only read afterwards.
#[derive(Debug)]
pub struct KnownRegistry {
    entries: Vec<(String, String)>,
}

impl View for KnownRegistry {
    type V = Seq<(Seq<char>, Seq<char>)>;

    closed spec fn view(&self) -> Seq<(Seq<char>, Seq<char>)> {
        pairs_view(self.entries@)
    }
}

impl KnownRegistry {
    /// The registry of the given pairs of name and locator, in their order.
    pub fn new(entries: Vec<(String, String)>) -> (r: KnownRegistry)
        ensures
            r@ == pairs_view(entries@),
    {
        KnownRegistry { entries }
    }

    /// Reads the registry from a JSON object whose keys are the names and
    /// whose values are the locators. Text that is no such object is
    /// refused.
    pub fn from_json(text: &str) -> (r: Result<KnownRegistry, RegistryInitError>)
        ensures
            match r {
                Ok(registry) => json_string_map(text@) == Some(registry@),
                Err(_) => json_string_map(text@) is None,
            },
    {
        match parse_string_map(text) {
            Ok(entries) => Ok(KnownRegistry::new(entries)),
            Err(e) => Err(RegistryInitError { message: error_message(&e) }),
        }
    }

    /// The number of entries.
    pub fn len(&self) -> (n: usize)
        ensures
            n == self@.len(),
    {
        self.entries.len()
    }

    /// The locator registered under `name`.
    pub fn lookup_by_name(&self, name: &str) -> (r: Option<String>)
        ensures
            match r {
                Some(locator) => locator_of(self@, name@) == Some(locator@),
                None => locator_of(self@, name@) is None,
            },
    {
        let mut i: usize = 0;
        while i < self.entries.len()
            invariant
                i <= self.entries@.len(),
                self@.len() == self.entries@.len(),
                first_named(self@, name@, 0) == first_named(self@, name@, i as int),
            decreases self.entries@.len() - i,
        {
            assert(self@[i as int] == (self.entries@[i as int].0@, self.entries@[i as int].1@));
            if same_text(self.entries[i].0.as_str(), name) {
                return Some(self.entries[i].1.clone());
            }
            i = i + 1;
        }
        None
    }

    /// The name under which `locator` is registered: the first, should
    /// several names share it.
    pub fn lookup_name_by_locator(&self, locator: &str) -> (r: Option<String>)
        ensures
            match r {
                Some(name) => name_of(self@, locator@) == Some(name@),
                None => name_of(self@, locator@) is None,
            },
    {
        let mut i: usize = 0;
        while i < self.entries.len()
            invariant
                i <= self.entries@.len(),
                self@.len() == self.entries@.len(),
                first_located(self@, locator@, 0) == first_located(self@, locator@, i as int),
            decreases self.entries@.len() - i,
        {
            assert(self@[i as int] == (self.entries@[i as int].0@, self.entries@[i as int].1@));
            if same_text(self.entries[i].1.as_str(), locator) {
                return Some(self.entries[i].0.clone());
            }
            i = i + 1;
        }
        None
    }
}

} // verus!
