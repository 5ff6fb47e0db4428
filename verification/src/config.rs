//! The configuration of the client: named profiles and the choice among
//! them.

use vstd::prelude::*;
use crate::text::{lemma_position, lemma_position_found, position};

verus! {

/// One profile. Every value is optional, so that a profile may be set up
/// in part.
#[derive(Debug, PartialEq, Eq)]
pub struct Profile {
    pub base_url: Option<String>,
    pub email: Option<String>,
    pub api_token: Option<String>,
}

fn clone_text(text: &Option<String>) -> (r: Option<String>)
    ensures
        r == *text,
{
    match text {
        Some(text) => Some(text.clone()),
        None => None,
    }
}

impl Clone for Profile {
    fn clone(&self) -> (r: Self)
        ensures
            r == *self,
    {
        Profile {
            base_url: clone_text(&self.base_url),
            email: clone_text(&self.email),
            api_token: clone_text(&self.api_token),
        }
    }
}

impl Default for Profile {
    fn default() -> (r: Self)
        ensures
            r.base_url is None,
            r.email is None,
            r.api_token is None,
    {
        Profile { base_url: None, email: None, api_token: None }
    }
}

/// The profile stored under `name`, if there is one.
pub open spec fn lookup(entries: Seq<(String, Profile)>, name: Seq<char>) -> Option<Profile> {
    match position(entries, name) {
        Some(i) => Some(entries[i].1),
        None => None,
    }
}

/// No two entries have the same name.
pub open spec fn distinct(entries: Seq<(String, Profile)>) -> bool {
    forall|i: int, j: int|
        0 <= i < j < entries.len() ==> (#[trigger] entries[i]).0@ != (#[trigger] entries[j]).0@
}

/// The profiles of a configuration, each under its name. No name occurs
/// twice: that is an invariant of the type. The profiles keep the order in
/// which their names first came in.
#[derive(Debug)]
pub struct Profiles {
    entries: Vec<(String, Profile)>,
}

impl View for Profiles {
    type V = Seq<(String, Profile)>;

    closed spec fn view(&self) -> Seq<(String, Profile)> {
        self.entries@
    }
}

impl Profiles {
    #[verifier::type_invariant]
    spec fn names_are_distinct(self) -> bool {
        distinct(self.entries@)
    }

    /// No profiles.
    pub fn new() -> (r: Self)
        ensures
            r@.len() == 0,
            distinct(r@),
    {
        Profiles { entries: Vec::new() }
    }

    /// The number of profiles, which is the number of names.
    pub fn len(&self) -> (r: usize)
        ensures
            r == self@.len(),
            distinct(self@),
    {
        proof {
            use_type_invariant(self);
        }
        self.entries.len()
    }

    /// Whether there is no profile.
    pub fn is_empty(&self) -> (r: bool)
        ensures
            r == (self@.len() == 0),
    {
        self.entries.len() == 0
    }

    fn find(&self, name: &str) -> (r: Option<usize>)
        ensures
            match r {
                Some(i) => position(self@, name@) == Some(i as int) && i < self@.len(),
                None => position(self@, name@) is None,
            },
    {
        crate::text::find_key(&self.entries, name)
    }

    /// The profile stored under `name`.
    pub fn get(&self, name: &str) -> (r: Option<&Profile>)
        ensures
            match r {
                Some(profile) => lookup(self@, name@) == Some(*profile),
                None => lookup(self@, name@) is None,
            },
    {
        match self.find(name) {
            Some(i) => Some(&self.entries[i].1),
            None => None,
        }
    }

    /// Whether a profile is stored under `name`.
    pub fn contains_key(&self, name: &str) -> (r: bool)
        ensures
            r == lookup(self@, name@) is Some,
    {
        self.find(name).is_some()
    }

    /// Stores `profile` under `name` and returns the profile that was
    /// stored there before, if there was one. Other names keep their
    /// profiles, and no name comes to stand twice.
    pub fn insert(&mut self, name: String, profile: Profile) -> (r: Option<Profile>)
        ensures
            r == lookup(old(self)@, name@),
            lookup(final(self)@, name@) == Some(profile),
            forall|other: Seq<char>|
                other != name@ ==> #[trigger] lookup(final(self)@, other) == lookup(
                    old(self)@,
                    other,
                ),
            final(self)@.len() == if r is Some {
                old(self)@.len()
            } else {
                old(self)@.len() + 1
            },
            distinct(old(self)@),
            distinct(final(self)@),
    {
        proof {
            use_type_invariant(&*self);
        }
        let ghost before = self@;
        let found = self.find(name.as_str());
        let mut taken = Profiles::new();
        core::mem::swap(self, &mut taken);
        let Profiles { entries } = taken;
        let mut entries = entries;
        let previous = match found {
            Some(i) => {
                let previous = entries.remove(i);
                entries.insert(i, (name, profile));
                proof {
                    let after = entries@;
                    assert(after =~= before.update(i as int, (name, profile)));
                    lemma_position(before, name@);
                    lemma_position_found(after, name@, i as int);
                    assert forall|other: Seq<char>| other != name@ implies #[trigger] lookup(
                        after,
                        other,
                    ) == lookup(before, other) by {
                        lemma_same_elsewhere(before, after, i as int, other);
                    }
                    assert forall|x: int, y: int| 0 <= x < y < after.len() implies (
                    #[trigger] after[x]).0@ != (#[trigger] after[y]).0@ by {
                        assert(after[x].0@ == before[x].0@);
                        assert(after[y].0@ == before[y].0@);
                    }
                }
                Some(previous.1)
            },
            None => {
                entries.push((name, profile));
                proof {
                    let after = entries@;
                    assert(after.drop_last() =~= before);
                    lemma_position(before, name@);
                    assert forall|other: Seq<char>| other != name@ implies #[trigger] lookup(
                        after,
                        other,
                    ) == lookup(before, other) by {
                        lemma_position(before, other);
                        assert(position(after, other) == position(before, other));
                        match position(before, other) {
                            Some(k) => {
                                assert(after[k] == before[k]);
                            },
                            None => {},
                        }
                    }
                    assert forall|x: int, y: int| 0 <= x < y < after.len() implies (
                    #[trigger] after[x]).0@ != (#[trigger] after[y]).0@ by {
                        assert(after[x] == before[x]);
                        if y < before.len() {
                            assert(after[y] == before[y]);
                        }
                    }
                }
                None
            },
        };
        *self = Profiles { entries };
        previous
    }
}

/// Replacing the entry at `i` by one of the same name leaves the lookup of
/// every other name as it was.
pub proof fn lemma_same_elsewhere(
    before: Seq<(String, Profile)>,
    after: Seq<(String, Profile)>,
    i: int,
    other: Seq<char>,
)
    requires
        0 <= i < before.len(),
        after.len() == before.len(),
        forall|j: int| 0 <= j < before.len() && j != i ==> after[j] == before[j],
        after[i].0@ == before[i].0@,
        before[i].0@ != other,
    ensures
        lookup(after, other) == lookup(before, other),
{
    lemma_position(before, other);
    lemma_position(after, other);
    match position(before, other) {
        Some(k) => {
            assert(k != i);
            assert(after[k] == before[k]);
            assert forall|j: int| 0 <= j < k implies (#[trigger] after[j]).0@ != other by {
                if j != i {
                    assert(after[j] == before[j]);
                }
            }
            lemma_position_found(after, other, k);
        },
        None => {
            match position(after, other) {
                Some(k) => {
                    if k != i {
                        assert(after[k] == before[k]);
                    }
                    assert(false);
                },
                None => {},
            }
        },
    }
}

impl Clone for Profiles {
    fn clone(&self) -> (r: Self)
        ensures
            r@ == self@,
    {
        proof {
            use_type_invariant(self);
        }
        let n = self.entries.len();
        let mut entries: Vec<(String, Profile)> = Vec::new();
        let mut i: usize = 0;
        while i < n
            invariant
                i <= n,
                n == self.entries@.len(),
                entries@ == self.entries@.take(i as int),
            decreases n - i,
        {
            entries.push((self.entries[i].0.clone(), self.entries[i].1.clone()));
            proof {
                assert(entries@ =~= self.entries@.take(i as int + 1));
            }
            i = i + 1;
        }
        proof {
            assert(self.entries@.take(n as int) =~= self.entries@);
        }
        Profiles { entries }
    }
}

impl Default for Profiles {
    fn default() -> (r: Self)
        ensures
            r@.len() == 0,
            distinct(r@),
    {
        Profiles::new()
    }
}

/// The configuration: the profiles and the name of the one to use where
/// none is asked for.
#[derive(Debug, Clone)]
pub struct Config {
    pub default_profile: Option<String>,
    pub profiles: Profiles,
}

impl Default for Config {
    fn default() -> (r: Self)
        ensures
            r.default_profile is None,
            r.profiles@.len() == 0,
    {
        Config { default_profile: None, profiles: Profiles::new() }
    }
}

/// The name and profile that a configuration resolves to: the requested
/// profile where one is requested; else the default profile where one is
/// named; else the first profile there is. Where a name is given and no
/// profile is stored under it, nothing.
pub open spec fn resolved(
    default_profile: Option<String>,
    entries: Seq<(String, Profile)>,
    requested: Option<Seq<char>>,
) -> Option<(Seq<char>, Profile)> {
    match requested {
        Some(name) => match lookup(entries, name) {
            Some(profile) => Some((name, profile)),
            None => None,
        },
        None => match default_profile {
            Some(name) => match lookup(entries, name@) {
                Some(profile) => Some((name@, profile)),
                None => None,
            },
            None => if entries.len() > 0 {
                Some((entries[0].0@, entries[0].1))
            } else {
                None
            },
        },
    }
}

/// The text that an optional name stands for.
pub open spec fn name_text(name: Option<&str>) -> Option<Seq<char>> {
    match name {
        Some(text) => Some(text@),
        None => None,
    }
}

impl Config {
    /// The profile stored under `name`.
    pub fn profile(&self, name: &str) -> (r: Option<&Profile>)
        ensures
            match r {
                Some(profile) => lookup(self.profiles@, name@) == Some(*profile),
                None => lookup(self.profiles@, name@) is None,
            },
    {
        self.profiles.get(name)
    }

    /// The requested profile, or the default one where none is requested,
    /// with its name.
    pub fn resolve_profile<'a>(&'a self, requested: Option<&'a str>) -> (r: Option<
        (&'a str, &'a Profile),
    >)
        ensures
            match r {
                Some((name, profile)) => resolved(
                    self.default_profile,
                    self.profiles@,
                    name_text(requested),
                ) == Some((name@, *profile)),
                None => resolved(self.default_profile, self.profiles@, name_text(requested))
                    is None,
            },
    {
        match requested {
            Some(name) => match self.profiles.get(name) {
                Some(profile) => Some((name, profile)),
                None => None,
            },
            None => match &self.default_profile {
                Some(name) => match self.profiles.get(name.as_str()) {
                    Some(profile) => Some((name.as_str(), profile)),
                    None => None,
                },
                None => self.profiles.first(),
            },
        }
    }
}

impl Profiles {
    /// The first profile, with its name.
    pub fn first<'a>(&'a self) -> (r: Option<(&'a str, &'a Profile)>)
        ensures
            match r {
                Some((name, profile)) => self@.len() > 0 && name@ == self@[0].0@ && *profile
                    == self@[0].1,
                None => self@.len() == 0,
            },
    {
        if self.entries.len() > 0 {
            Some((self.entries[0].0.as_str(), &self.entries[0].1))
        } else {
            None
        }
    }
}

} // verus!
