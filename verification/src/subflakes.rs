//! The subflakes of a project, keyed by name and always walked in the order
//! of their names.

use crate::lex::compare_keys;
use crate::lex::key_lt;
use crate::lex::lemma_key_lt_asymmetric;
use crate::lex::lemma_key_lt_total;
use crate::lex::lemma_key_lt_transitive;
use crate::lex::KeyOrder;
use crate::strings::names_view;
use vstd::prelude::*;
use vstd::string::StringExecFns;

verus! {

/// How one subflake is built. This library stores and returns the record; it
/// reads none of its fields.
#[derive(Clone, Debug, PartialEq, Eq)]
pub struct SubflakeConfig {
    /// Whether the subflake is left out of the build.
    pub skip: bool,
    /// The directory of the subflake, relative to the root of the project.
    pub dir: String,
}

/// What a `SubflakeConfig` holds, as plain values.
pub struct SubflakeConfigView {
    pub skip: bool,
    pub dir: Seq<char>,
}

impl View for SubflakeConfig {
    type V = SubflakeConfigView;

    open spec fn view(&self) -> SubflakeConfigView {
        SubflakeConfigView { skip: self.skip, dir: self.dir@ }
    }
}

impl SubflakeConfig {
    /// The configuration of a subflake that nothing was said about: it is
    /// built, and lives in the project's own directory.
    pub open spec fn spec_default() -> SubflakeConfigView {
        SubflakeConfigView { skip: false, dir: "."@ }
    }

    /// A copy of this record.
    pub fn duplicate(&self) -> (r: SubflakeConfig)
        ensures
            r@ == self@,
    {
        SubflakeConfig { skip: self.skip, dir: self.dir.clone() }
    }
}

impl Default for SubflakeConfig {
    fn default() -> (r: SubflakeConfig)
        ensures
            r@ == SubflakeConfig::spec_default(),
    {
        SubflakeConfig { skip: false, dir: String::from_str(".") }
    }
}

/// The name under which the project's top-level flake is kept.
pub open spec fn root_key() -> Seq<char> {
    "<root>"@
}

/// The keys of `entries` stand in strictly ascending order.
pub open spec fn is_ascending(entries: Seq<(Seq<char>, SubflakeConfigView)>) -> bool {
    forall|i: int, j: int|
        0 <= i < j < entries.len() ==> key_lt(#[trigger] entries[i].0, #[trigger] entries[j].0)
}

/// Some entry of `entries` has the key `key`.
pub open spec fn has_key(entries: Seq<(Seq<char>, SubflakeConfigView)>, key: Seq<char>) -> bool {
    exists|i: int| 0 <= i < entries.len() && (#[trigger] entries[i]).0 == key
}

/// The configuration that `entries` keeps under `key`.
pub open spec fn value_of(entries: Seq<(Seq<char>, SubflakeConfigView)>, key: Seq<char>) -> Option<
    SubflakeConfigView,
> {
    if has_key(entries, key) {
        Some(entries[choose|i: int| 0 <= i < entries.len() && (#[trigger] entries[i]).0 == key].1)
    } else {
        None
    }
}

/// The configuration that was written last under `key`, in a sequence of
/// writes.
pub open spec fn last_written(
    writes: Seq<(Seq<char>, SubflakeConfigView)>,
    key: Seq<char>,
) -> Option<SubflakeConfigView>
    decreases writes.len(),
{
    if writes.len() == 0 {
        None
    } else if writes.last().0 == key {
        Some(writes.last().1)
    } else {
        last_written(writes.drop_last(), key)
    }
}

/// The views of pairs of a name and a configuration, in the same order.
pub open spec fn entries_view(entries: Seq<(String, SubflakeConfig)>) -> Seq<
    (Seq<char>, SubflakeConfigView),
> {
    entries.map_values(|e: (String, SubflakeConfig)| (e.0@, e.1@))
}

/// The keys of `entries`, in the order of the entries.
pub open spec fn keys_of(entries: Seq<(Seq<char>, SubflakeConfigView)>) -> Seq<Seq<char>> {
    entries.map_values(|e: (Seq<char>, SubflakeConfigView)| e.0)
}

/// Where the keys stand in strictly ascending order, no key occurs twice.
pub proof fn lemma_ascending_keys_distinct(entries: Seq<(Seq<char>, SubflakeConfigView)>)
    requires
        is_ascending(entries),
    ensures
        forall|i: int, j: int|
            0 <= i < entries.len() && 0 <= j < entries.len() && i != j ==> (
            #[trigger] entries[i]).0 != (#[trigger] entries[j]).0,
{
    assert forall|i: int, j: int|
        0 <= i < entries.len() && 0 <= j < entries.len() && i != j implies (
    #[trigger] entries[i]).0 != (#[trigger] entries[j]).0 by {
        if i < j {
            lemma_key_lt_asymmetric(entries[i].0, entries[j].0);
        } else {
            lemma_key_lt_asymmetric(entries[j].0, entries[i].0);
        }
    }
}

/// In ascending entries, the key of an entry leads to that entry's value.
pub proof fn lemma_value_at(entries: Seq<(Seq<char>, SubflakeConfigView)>, i: int)
    requires
        is_ascending(entries),
        0 <= i < entries.len(),
    ensures
        has_key(entries, entries[i].0),
        value_of(entries, entries[i].0) == Some(entries[i].1),
{
    lemma_ascending_keys_distinct(entries);
    assert(entries[i].0 == entries[i].0);
}

/// Writing an entry into ascending entries, in place of the one with its
/// key or at a new place, changes what is kept under that key and nothing
/// else.
pub proof fn lemma_value_after_write(
    before: Seq<(Seq<char>, SubflakeConfigView)>,
    after: Seq<(Seq<char>, SubflakeConfigView)>,
    at: int,
    key: Seq<char>,
    value: SubflakeConfigView,
    other: Seq<char>,
)
    requires
        is_ascending(before),
        is_ascending(after),
        (0 <= at < before.len() && before[at].0 == key && after == before.update(at, (key, value)))
            || (0 <= at <= before.len() && !has_key(before, key) && after == before.insert(
            at,
            (key, value),
        )),
    ensures
        value_of(after, other) == if other == key {
            Some(value)
        } else {
            value_of(before, other)
        },
{
    let replaced = 0 <= at < before.len() && before[at].0 == key && after == before.update(
        at,
        (key, value),
    );
    assert(after[at] == (key, value));
    if other == key {
        lemma_value_at(after, at);
    } else if has_key(before, other) {
        let j = choose|j: int| 0 <= j < before.len() && (#[trigger] before[j]).0 == other;
        lemma_value_at(before, j);
        if replaced || j < at {
            assert(after[j] == before[j]);
            lemma_value_at(after, j);
        } else {
            assert(after[j + 1] == before[j]);
            lemma_value_at(after, j + 1);
        }
    } else if has_key(after, other) {
        let j = choose|j: int| 0 <= j < after.len() && (#[trigger] after[j]).0 == other;
        if replaced || j < at {
            assert(after[j] == before[j]);
        } else {
            assert(after[j] == before[j - 1]);
        }
    }
}

/// What is kept under each key settles the entries and their order: two
/// ascending sequences that keep the same under every key are equal, however
/// each of them was filled.
pub proof fn lemma_ascending_entries_determined(
    a: Seq<(Seq<char>, SubflakeConfigView)>,
    b: Seq<(Seq<char>, SubflakeConfigView)>,
)
    requires
        is_ascending(a),
        is_ascending(b),
        forall|key: Seq<char>| value_of(a, key) == value_of(b, key),
    ensures
        a == b,
    decreases a.len(),
{
    if a.len() == 0 {
        if b.len() > 0 {
            lemma_value_at(b, 0);
            assert(value_of(a, b[0].0) == value_of(b, b[0].0));
        }
        assert(a =~= b);
    } else {
        let m = a.len() - 1;
        lemma_value_at(a, m);
        assert(value_of(a, a[m].0) == value_of(b, a[m].0));
        let j = choose|j: int| 0 <= j < b.len() && (#[trigger] b[j]).0 == a[m].0;
        let n = b.len() - 1;
        lemma_value_at(b, n);
        assert(value_of(a, b[n].0) == value_of(b, b[n].0));
        let i = choose|i: int| 0 <= i < a.len() && (#[trigger] a[i]).0 == b[n].0;
        if j < n {
            if i < m {
                lemma_key_lt_transitive(a[m].0, b[n].0, a[m].0);
                lemma_key_lt_asymmetric(a[m].0, a[m].0);
            }
            lemma_key_lt_asymmetric(b[j].0, b[n].0);
        }
        assert(a[m] == b[n]);
        let a0 = a.drop_last();
        let b0 = b.drop_last();
        lemma_ascending_keys_distinct(a);
        lemma_ascending_keys_distinct(b);
        assert(is_ascending(a0)) by {
            assert forall|x: int, y: int| 0 <= x < y < a0.len() implies key_lt(
                #[trigger] a0[x].0,
                #[trigger] a0[y].0,
            ) by {
                assert(a0[x] == a[x] && a0[y] == a[y]);
            }
        }
        assert(is_ascending(b0)) by {
            assert forall|x: int, y: int| 0 <= x < y < b0.len() implies key_lt(
                #[trigger] b0[x].0,
                #[trigger] b0[y].0,
            ) by {
                assert(b0[x] == b[x] && b0[y] == b[y]);
            }
        }
        assert(!has_key(a0, a[m].0)) by {
            if has_key(a0, a[m].0) {
                let x = choose|x: int| 0 <= x < a0.len() && (#[trigger] a0[x]).0 == a[m].0;
                assert(a0[x] == a[x]);
            }
        }
        assert(!has_key(b0, b[n].0)) by {
            if has_key(b0, b[n].0) {
                let x = choose|x: int| 0 <= x < b0.len() && (#[trigger] b0[x]).0 == b[n].0;
                assert(b0[x] == b[x]);
            }
        }
        assert(a =~= a0.insert(m, a[m]));
        assert(b =~= b0.insert(n, b[n]));
        assert forall|key: Seq<char>| value_of(a0, key) == value_of(b0, key) by {
            lemma_value_after_write(a0, a, m, a[m].0, a[m].1, key);
            lemma_value_after_write(b0, b, n, b[n].0, b[n].1, key);
            assert(value_of(a, key) == value_of(b, key));
        }
        lemma_ascending_entries_determined(a0, b0);
        assert(a =~= b);
    }
}

/// The configurations of a project's subflakes by name. Its view is the
/// sequence of its entries in the order in which they are walked, which is
/// the ascending order of their names.
#[derive(Debug, PartialEq, Eq)]
pub struct SubflakesConfig {
    entries: Vec<(String, SubflakeConfig)>,
}

impl View for SubflakesConfig {
    type V = Seq<(Seq<char>, SubflakeConfigView)>;

    closed spec fn view(&self) -> Seq<(Seq<char>, SubflakeConfigView)> {
        self.entries@.map_values(|e: (String, SubflakeConfig)| (e.0@, e.1@))
    }
}

impl SubflakesConfig {
    /// What every value of this type meets: its entries stand in strictly
    /// ascending order of their keys.
    pub open spec fn well_formed(&self) -> bool {
        is_ascending(self@)
    }

    /// A configuration without subflakes.
    pub fn new() -> (r: SubflakesConfig)
        ensures
            r.well_formed(),
            r@ == Seq::<(Seq<char>, SubflakeConfigView)>::empty(),
    {
        let r = SubflakesConfig { entries: Vec::new() };
        assert(r@ =~= Seq::<(Seq<char>, SubflakeConfigView)>::empty());
        r
    }

    /// The number of subflakes.
    pub fn len(&self) -> (n: usize)
        ensures
            n == self@.len(),
    {
        self.entries.len()
    }

    /// The place of `key` among the entries: the index of the first entry
    /// whose key does not come before it, and whether that entry has it.
    fn position(&self, key: &str) -> (r: (usize, bool))
        requires
            self.well_formed(),
        ensures
            r.0 <= self@.len(),
            forall|j: int| 0 <= j < r.0 ==> key_lt((#[trigger] self@[j]).0, key@),
            r.1 ==> r.0 < self@.len() && self@[r.0 as int].0 == key@,
            !r.1 ==> forall|j: int| r.0 <= j < self@.len() ==> key_lt(key@, (#[trigger] self@[j]).0),
    {
        let mut p: usize = 0;
        while p < self.entries.len()
            invariant
                p <= self@.len(),
                self@.len() == self.entries@.len(),
                is_ascending(self@),
                forall|j: int| 0 <= j < p ==> key_lt((#[trigger] self@[j]).0, key@),
            decreases self@.len() - p,
        {
            let found = compare_keys(self.entries[p].0.as_str(), key);
            assert(self@[p as int].0 == self.entries@[p as int].0@);
            match found {
                KeyOrder::Less => {
                    p = p + 1;
                },
                KeyOrder::Equal => {
                    return (p, true);
                },
                KeyOrder::Greater => {
                    proof {
                        let s = self@;
                        lemma_key_lt_total(s[p as int].0, key@);
                        assert forall|j: int| p <= j < s.len() implies key_lt(
                            key@,
                            (#[trigger] s[j]).0,
                        ) by {
                            if j > p {
                                lemma_key_lt_transitive(key@, s[p as int].0, s[j].0);
                            }
                        }
                    }
                    return (p, false);
                },
            }
        }
        (p, false)
    }

    /// The configuration kept under `key`, if there is one.
    pub fn get(&self, key: &str) -> (r: Option<&SubflakeConfig>)
        requires
            self.well_formed(),
        ensures
            match r {
                Some(c) => value_of(self@, key@) == Some(c@),
                None => value_of(self@, key@) is None,
            },
    {
        let (p, hit) = self.position(key);
        if hit {
            assert(self@[p as int] == (key@, self.entries@[p as int].1@));
            proof {
                lemma_value_at(self@, p as int);
            }
            Some(&self.entries[p].1)
        } else {
            proof {
                let s = self@;
                assert forall|i: int| 0 <= i < s.len() implies (#[trigger] s[i]).0 != key@ by {
                    if i < p {
                        lemma_key_lt_asymmetric(s[i].0, key@);
                    } else {
                        lemma_key_lt_asymmetric(key@, s[i].0);
                    }
                }
            }
            None
        }
    }

    /// Keeps `value` under `key`. Where the key was there already, its entry
    /// keeps its place, takes the new value and the old one is returned;
    /// otherwise a new entry goes where the order of keys puts it.
    pub fn insert(&mut self, key: String, value: SubflakeConfig) -> (r: Option<SubflakeConfig>)
        requires
            old(self).well_formed(),
        ensures
            final(self).well_formed(),
            r is Some <==> has_key(old(self)@, key@),
            forall|other: Seq<char>| #[trigger]
                value_of(final(self)@, other) == if other == key@ {
                    Some(value@)
                } else {
                    value_of(old(self)@, other)
                },
            match r {
                Some(prev) => exists|i: int|
                    0 <= i < old(self)@.len() && #[trigger] old(self)@[i] == (key@, prev@)
                        && final(self)@ == old(self)@.update(i, (key@, value@)),
                None => exists|i: int|
                    0 <= i <= old(self)@.len() && final(self)@ == #[trigger] old(self)@.insert(
                        i,
                        (key@, value@),
                    ),
            },
    {
        let ghost before = self@;
        let (p, hit) = self.position(key.as_str());
        if hit {
            let previous = self.entries.remove(p);
            self.entries.insert(p, (key, value));
            proof {
                assert(before[p as int] == (key@, previous.1@));
                assert(self@ =~= before.update(p as int, (key@, value@)));
                assert forall|i: int, j: int| 0 <= i < j < self@.len() implies key_lt(
                    #[trigger] self@[i].0,
                    #[trigger] self@[j].0,
                ) by {
                    assert(self@[i].0 == before[i].0);
                    assert(self@[j].0 == before[j].0);
                }
            }
            assert forall|other: Seq<char>| #[trigger]
                value_of(self@, other) == if other == key@ {
                    Some(value@)
                } else {
                    value_of(before, other)
                } by {
                lemma_value_after_write(before, self@, p as int, key@, value@, other);
            }
            Some(previous.1)
        } else {
            self.entries.insert(p, (key, value));
            proof {
                assert(self@ =~= before.insert(p as int, (key@, value@)));
                assert forall|i: int, j: int| 0 <= i < j < self@.len() implies key_lt(
                    #[trigger] self@[i].0,
                    #[trigger] self@[j].0,
                ) by {
                    if j < p {
                        assert(self@[i] == before[i] && self@[j] == before[j]);
                    } else if j == p {
                        assert(self@[i] == before[i]);
                    } else if i < p {
                        assert(self@[i] == before[i] && self@[j] == before[j - 1]);
                        lemma_key_lt_transitive(before[i].0, key@, before[j - 1].0);
                    } else if i == p {
                        assert(self@[j] == before[j - 1]);
                    } else {
                        assert(self@[i] == before[i - 1] && self@[j] == before[j - 1]);
                    }
                }
                assert forall|i: int| 0 <= i < before.len() implies (#[trigger] before[i]).0
                    != key@ by {
                    if i < p {
                        lemma_key_lt_asymmetric(before[i].0, key@);
                    } else {
                        lemma_key_lt_asymmetric(key@, before[i].0);
                    }
                }
            }
            assert forall|other: Seq<char>| #[trigger]
                value_of(self@, other) == if other == key@ {
                    Some(value@)
                } else {
                    value_of(before, other)
                } by {
                lemma_value_after_write(before, self@, p as int, key@, value@, other);
            }
            None
        }
    }

    /// The configuration made by writing `entries` one after the other into
    /// an empty one: under each name stands what was written there last, and
    /// the order of the writes leaves no other trace.
    pub fn from_entries(entries: &[(String, SubflakeConfig)]) -> (r: SubflakesConfig)
        ensures
            r.well_formed(),
            forall|key: Seq<char>| #[trigger]
                value_of(r@, key) == last_written(entries_view(entries@), key),
    {
        let mut subflakes = SubflakesConfig::new();
        let mut i: usize = 0;
        assert(entries_view(entries@).take(0) =~= Seq::empty());
        assert forall|key: Seq<char>| #[trigger]
            value_of(subflakes@, key) == last_written(entries_view(entries@).take(0), key) by {
            assert(!has_key(subflakes@, key));
        }
        while i < entries.len()
            invariant
                i <= entries@.len(),
                subflakes.well_formed(),
                forall|key: Seq<char>| #[trigger]
                    value_of(subflakes@, key) == last_written(
                        entries_view(entries@).take(i as int),
                        key,
                    ),
            decreases entries@.len() - i,
        {
            let name = entries[i].0.clone();
            let config = entries[i].1.duplicate();
            proof {
                let writes = entries_view(entries@);
                assert(writes.take(i + 1).drop_last() =~= writes.take(i as int));
                assert(writes.take(i + 1).last() == (name@, config@));
            }
            subflakes.insert(name, config);
            i = i + 1;
        }
        assert(entries_view(entries@).take(entries@.len() as int) =~= entries_view(entries@));
        subflakes
    }

    /// The names of the subflakes in the order in which they are walked,
    /// which in a well-formed value is strictly ascending.
    pub fn keys(&self) -> (r: Vec<String>)
        ensures
            names_view(r@) == keys_of(self@),
    {
        let mut names: Vec<String> = Vec::new();
        let mut i: usize = 0;
        while i < self.entries.len()
            invariant
                i <= self.entries@.len(),
                self@.len() == self.entries@.len(),
                names@.len() == i,
                forall|j: int| 0 <= j < i ==> (#[trigger] names@[j])@ == self@[j].0,
            decreases self.entries@.len() - i,
        {
            names.push(self.entries[i].0.clone());
            i = i + 1;
        }
        assert(names_view(names@) =~= keys_of(self@));
        names
    }
}

impl Default for SubflakesConfig {
    /// A single entry, for the project's top-level flake.
    fn default() -> (r: SubflakesConfig)
        ensures
            r.well_formed(),
            r@ == seq![(root_key(), SubflakeConfig::spec_default())],
    {
        let mut entries: Vec<(String, SubflakeConfig)> = Vec::new();
        entries.push((String::from_str("<root>"), SubflakeConfig::default()));
        let r = SubflakesConfig { entries };
        assert(r@ =~= seq![(root_key(), SubflakeConfig::spec_default())]);
        r
    }
}

} // verus!
