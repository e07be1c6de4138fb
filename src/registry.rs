//! The table of named exports, and the registry that shares one table between
//! sessions and lets a reload replace it as a whole.

use vstd::prelude::*;
use vstd::rwlock::{RwLock, RwLockPredicate};
use std::sync::Arc;
use crate::config::{Config, ExportConfig};
use crate::error::{ConfigError, HandshakeError};

verus! {

/// The map that a list of (name, export) pairs describes, a later pair for a
/// name replacing an earlier one.
pub open spec fn entries_map(s: Seq<(String, ExportConfig)>) -> Map<Seq<char>, ExportConfig>
    decreases s.len(),
{
    if s.len() == 0 {
        Map::empty()
    } else {
        entries_map(s.drop_last()).insert(s.last().0@, s.last().1)
    }
}

/// No two pairs share a name.
pub open spec fn names_unique(s: Seq<(String, ExportConfig)>) -> bool {
    forall|i: int, j: int|
        0 <= i < s.len() && 0 <= j < s.len() && i != j ==> #[trigger] s[i].0@ != #[trigger] s[j].0@
}

proof fn lemma_entries_map_keys(s: Seq<(String, ExportConfig)>, k: Seq<char>)
    ensures
        entries_map(s).contains_key(k) <==> exists|i: int| 0 <= i < s.len() && #[trigger] s[i].0@ == k,
        entries_map(s).dom().finite(),
    decreases s.len(),
{
    if s.len() > 0 {
        let t = s.drop_last();
        lemma_entries_map_keys(t, k);
        if entries_map(s).contains_key(k) && s.last().0@ != k {
            let i = choose|i: int| 0 <= i < t.len() && #[trigger] t[i].0@ == k;
            assert(s[i].0@ == k);
        }
        if exists|i: int| 0 <= i < s.len() && #[trigger] s[i].0@ == k {
            let i = choose|i: int| 0 <= i < s.len() && #[trigger] s[i].0@ == k;
            if i < s.len() - 1 {
                assert(t[i].0@ == k);
            }
        }
    }
}

proof fn lemma_entries_map_value(s: Seq<(String, ExportConfig)>, i: int)
    requires
        names_unique(s),
        0 <= i < s.len(),
    ensures
        entries_map(s).contains_key(s[i].0@),
        entries_map(s)[s[i].0@] == s[i].1,
    decreases s.len(),
{
    let t = s.drop_last();
    if i < s.len() - 1 {
        assert(t[i] == s[i]);
        lemma_entries_map_value(t, i);
        assert(s[i].0@ != s[s.len() - 1].0@);
    }
}

proof fn lemma_entries_map_len(s: Seq<(String, ExportConfig)>)
    requires
        names_unique(s),
    ensures
        entries_map(s).dom().len() == s.len(),
    decreases s.len(),
{
    if s.len() > 0 {
        let t = s.drop_last();
        let k = s.last().0@;
        lemma_entries_map_len(t);
        lemma_entries_map_keys(t, k);
        if entries_map(t).contains_key(k) {
            let i = choose|i: int| 0 <= i < t.len() && #[trigger] t[i].0@ == k;
            assert(s[i].0@ == s[s.len() - 1].0@);
        }
    }
}

proof fn lemma_entries_map_update(s: Seq<(String, ExportConfig)>, i: int, p: (String, ExportConfig))
    requires
        names_unique(s),
        0 <= i < s.len(),
        p.0@ == s[i].0@,
    ensures
        entries_map(s.update(i, p)) == entries_map(s).insert(p.0@, p.1),
    decreases s.len(),
{
    let u = s.update(i, p);
    let t = s.drop_last();
    if i == s.len() - 1 {
        assert(u.drop_last() =~= t);
        assert(entries_map(u) =~= entries_map(s).insert(p.0@, p.1));
    } else {
        assert(u.drop_last() =~= t.update(i, p));
        lemma_entries_map_update(t, i, p);
        assert(s[i].0@ != s[s.len() - 1].0@);
        assert(entries_map(u) =~= entries_map(s).insert(p.0@, p.1));
    }
}

/// Where `name` stands among the entries, if anywhere.
fn position_of(entries: &Vec<(String, ExportConfig)>, name: &String) -> (r: Option<usize>)
    ensures
        match r {
            Some(i) => i < entries@.len() && entries@[i as int].0@ == name@,
            None => forall|i: int| 0 <= i < entries@.len() ==> #[trigger] entries@[i].0@ != name@,
        },
{
    let mut i: usize = 0;
    while i < entries.len()
        invariant
            i <= entries@.len(),
            forall|j: int| 0 <= j < i ==> #[trigger] entries@[j].0@ != name@,
        decreases entries@.len() - i,
    {
        if entries[i].0 == *name {
            return Some(i);
        }
        i = i + 1;
    }
    None
}

/// A table of named exports: each name stands for one export at most.
pub struct ExportTable {
    entries: Vec<(String, ExportConfig)>,
}

impl View for ExportTable {
    type V = Map<Seq<char>, ExportConfig>;

    closed spec fn view(&self) -> Map<Seq<char>, ExportConfig> {
        entries_map(self.entries@)
    }
}

/// What a lookup of `name` in a table viewed as `m` yields.
pub open spec fn lookup(m: Map<Seq<char>, ExportConfig>, name: Seq<char>) -> Option<ExportConfig> {
    if m.contains_key(name) {
        Some(m[name])
    } else {
        None
    }
}

impl ExportTable {
    #[verifier::type_invariant]
    closed spec fn wf(&self) -> bool {
        names_unique(self.entries@)
    }

    /// A table without exports.
    pub fn new() -> (r: ExportTable)
        ensures
            r@ == Map::<Seq<char>, ExportConfig>::empty(),
    {
        ExportTable { entries: Vec::new() }
    }

    /// The number of exports in the table.
    pub fn len(&self) -> (r: usize)
        ensures
            r == self@.dom().len(),
    {
        proof {
            use_type_invariant(self);
            lemma_entries_map_len(self.entries@);
        }
        self.entries.len()
    }

    /// The export registered under `name`, or `None` when the table has no
    /// such name.
    pub fn get(&self, name: &str) -> (r: Option<ExportConfig>)
        ensures
            r == lookup(self@, name@),
    {
        proof {
            use_type_invariant(self);
        }
        let key = name.to_owned();
        match position_of(&self.entries, &key) {
            Some(i) => {
                proof {
                    lemma_entries_map_value(self.entries@, i as int);
                }
                Some(self.entries[i].1.clone())
            },
            None => {
                proof {
                    lemma_entries_map_keys(self.entries@, name@);
                }
                None
            },
        }
    }

    /// The export registered under `name`, or the unknown-export error that a
    /// client asking for a missing name receives.
    pub fn find(&self, name: &str) -> (r: Result<ExportConfig, HandshakeError>)
        ensures
            self@.contains_key(name@) ==> r == Ok::<ExportConfig, HandshakeError>(self@[name@]),
            !self@.contains_key(name@) ==> (match r {
                Err(HandshakeError::UnknownExport(n)) => n@ == name@,
                _ => false,
            }),
    {
        match self.get(name) {
            Some(c) => Ok(c),
            None => Err(HandshakeError::UnknownExport(name.to_owned())),
        }
    }

    /// Registers `cfg` under `name`, replacing what was registered there.
    pub fn insert(&mut self, name: String, cfg: ExportConfig)
        ensures
            final(self)@ == old(self)@.insert(name@, cfg),
    {
        proof {
            use_type_invariant(&*self);
        }
        let mut entries: Vec<(String, ExportConfig)> = Vec::new();
        std::mem::swap(&mut entries, &mut self.entries);
        let ghost s = entries@;
        match position_of(&entries, &name) {
            Some(i) => {
                proof {
                    lemma_entries_map_update(s, i as int, (name, cfg));
                }
                entries.set(i, (name, cfg));
                assert(names_unique(entries@));
            },
            None => {
                entries.push((name, cfg));
                assert(entries@.drop_last() =~= s);
                assert(names_unique(entries@));
            },
        }
        *self = ExportTable { entries };
    }

    /// The table that a list of (name, export) pairs describes; a later pair
    /// for a name replaces an earlier one.
    pub fn from_entries(pairs: Vec<(String, ExportConfig)>) -> (r: ExportTable)
        ensures
            r@ == entries_map(pairs@),
    {
        let mut table = ExportTable::new();
        let mut i: usize = 0;
        while i < pairs.len()
            invariant
                i <= pairs@.len(),
                table@ == entries_map(pairs@.subrange(0, i as int)),
            decreases pairs@.len() - i,
        {
            let name = pairs[i].0.clone();
            let cfg = pairs[i].1.clone();
            table.insert(name, cfg);
            assert(pairs@.subrange(0, i + 1).drop_last() =~= pairs@.subrange(0, i as int));
            i = i + 1;
        }
        assert(pairs@.subrange(0, i as int) =~= pairs@);
        table
    }

    /// Installs `other` in place of the whole table and says how many exports
    /// the table now holds.
    pub fn replace(&mut self, other: ExportTable) -> (r: usize)
        ensures
            final(self)@ == other@,
            r == other@.dom().len(),
    {
        let count = other.len();
        *self = other;
        count
    }

    /// Applies the outcome of reloading the configuration: a configuration
    /// that loaded replaces the whole table, and the number of its exports is
    /// returned; a failed load leaves the table as it was and hands its error back.
    pub fn reload(&mut self, loaded: Result<Config, ConfigError>) -> (r: Result<usize, ConfigError>)
        ensures
            final(self)@ == reloaded(old(self)@, loaded),
            match loaded {
                Ok(c) => r == Ok::<usize, ConfigError>(c.exports@.dom().len() as usize),
                Err(e) => r == Err::<usize, ConfigError>(e),
            },
    {
        match loaded {
            Ok(c) => Ok(self.replace(c.exports)),
            Err(e) => Err(e),
        }
    }
}

/// The table that a reload leaves, given the table before it and what the
/// configuration load gave.
pub open spec fn reloaded(
    before: Map<Seq<char>, ExportConfig>,
    loaded: Result<Config, ConfigError>,
) -> Map<Seq<char>, ExportConfig> {
    match loaded {
        Ok(c) => c.exports@,
        Err(_) => before,
    }
}

/// The lock predicate of the registry: any table may be stored, since a
/// table is well formed by its own type invariant.
pub struct AnyTable;

impl RwLockPredicate<ExportTable> for AnyTable {
    open spec fn inv(self, t: ExportTable) -> bool {
        true
    }
}

/// The export registry shared by all sessions and the reload task. Every
/// operation takes the lock once, for one read or one whole replacement, and
/// never across I/O: a lookup sees one table in full, the one before a
/// replacement or the one after it.
pub struct Exports {
    table: Arc<RwLock<ExportTable, AnyTable>>,
}

impl Clone for Exports {
    /// Another handle on the same registry.
    fn clone(&self) -> (r: Self) {
        Exports { table: Arc::clone(&self.table) }
    }
}

impl Exports {
    /// A registry that starts out holding `table`.
    pub fn from_table(table: ExportTable) -> (r: Exports) {
        Exports { table: Arc::new(RwLock::new(table, Ghost(AnyTable))) }
    }

    /// Looks `name` up in the table that the registry holds at the moment of
    /// the call, read under the lock in one step. Another thread may replace
    /// the table at any moment, so which table answers is not fixed here; the
    /// answer is `ExportTable::get` of that one table.
    pub fn get(&self, name: &str) -> (r: Option<ExportConfig>) {
        let handle = self.table.acquire_read();
        let r = handle.borrow().get(name);
        handle.release_read();
        r
    }

    /// Looks `name` up as `get` does: the export, or the unknown-export error
    /// carrying the requested name; never another error.
    pub fn find(&self, name: &str) -> (r: Result<ExportConfig, HandshakeError>)
        ensures
            match r {
                Ok(_) => true,
                Err(HandshakeError::UnknownExport(n)) => n@ == name@,
                Err(_) => false,
            },
    {
        let handle = self.table.acquire_read();
        let r = handle.borrow().find(name);
        handle.release_read();
        r
    }

    /// Installs `other` in place of the whole table, in one step that no
    /// lookup can observe halfway, and says how many exports it holds.
    pub fn update(&self, other: ExportTable) -> (r: usize)
        ensures
            r == other@.dom().len(),
    {
        let (mut current, handle) = self.table.acquire_write();
        let count = current.replace(other);
        handle.release_write(current);
        count
    }

    /// Applies the outcome of a configuration reload to the shared table, in
    /// one step: a loaded configuration replaces the table and its export
    /// count is returned; a failed load leaves the table untouched.
    pub fn reload(&self, loaded: Result<Config, ConfigError>) -> (r: Result<usize, ConfigError>)
        ensures
            match loaded {
                Ok(c) => r == Ok::<usize, ConfigError>(c.exports@.dom().len() as usize),
                Err(e) => r == Err::<usize, ConfigError>(e),
            },
    {
        let (mut current, handle) = self.table.acquire_write();
        let r = current.reload(loaded);
        handle.release_write(current);
        r
    }
}

/// A reload never leaves a mixture: afterwards the table is the old one in
/// full or the loaded configuration's in full, so every lookup answers from
/// one of the two tables for every name.
pub proof fn reload_never_mixes_tables(
    before: Map<Seq<char>, ExportConfig>,
    loaded: Result<Config, ConfigError>,
    name: Seq<char>,
)
    ensures
        reloaded(before, loaded) == before || (loaded is Ok && reloaded(before, loaded)
            == loaded->Ok_0.exports@),
        lookup(reloaded(before, loaded), name) == lookup(before, name) || (loaded is Ok && lookup(
            reloaded(before, loaded),
            name,
        ) == lookup(loaded->Ok_0.exports@, name)),
{
}

/// A reload whose configuration failed to load leaves the table, and so its
/// export count, as it was; a later reload with a configuration that loaded
/// still installs that configuration's table.
pub proof fn failed_reload_keeps_table(
    before: Map<Seq<char>, ExportConfig>,
    e: ConfigError,
    c: Config,
)
    ensures
        reloaded(before, Err(e)) == before,
        reloaded(before, Err(e)).dom().len() == before.dom().len(),
        reloaded(reloaded(before, Err(e)), Ok(c)) == c.exports@,
{
}

/// A name that the table lacks is looked up as absent, never as some other
/// entry.
pub proof fn unknown_name_is_absent(m: Map<Seq<char>, ExportConfig>, name: Seq<char>)
    requires
        !m.contains_key(name),
    ensures
        lookup(m, name) is None,
{
}

} // verus!
