//! The worlds of the server, under their names.

use crate::clock::local_time_text;
use crate::paths::{join_path, joined_path};
use crate::registry::{position, Registry};
use vstd::prelude::*;
use vstd::string::*;

verus! {

/// What is known of a world.
#[derive(Debug)]
pub struct World {
    pub name: String,
    /// The directory of the world, as text.
    pub path: String,
    pub size: u64,
    pub last_modified: String,
    pub seed: Option<i64>,
    pub difficulty: String,
    pub game_mode: String,
    pub spawn_x: i32,
    pub spawn_y: i32,
    pub spawn_z: i32,
    pub time: i64,
    pub weather: String,
    pub version: String,
}

/// Why a world could not be made.
#[derive(Debug, Clone, Copy, PartialEq, Eq, Structural)]
pub enum WorldError {
    /// Something stands where the directory of the world would be.
    AlreadyExists,
}

impl WorldError {
    /// The message of the error, as it is shown to a user.
    pub fn message(&self) -> (m: String)
        ensures
            m@ == "World already exists"@,
    {
        String::from_str("World already exists")
    }
}

/// The worlds that a sequence of borrowed worlds refers to.
pub open spec fn referred(worlds: Seq<&World>) -> Seq<World> {
    worlds.map_values(|w: &World| *w)
}

/// Whether `w` is the record of a world of which only name, directory, size,
/// time of modification and seed are known: normal difficulty, survival
/// mode, spawn at height 64 above the origin, time zero, clear weather,
/// version 1.20.
pub open spec fn is_default_record(
    w: World,
    name: Seq<char>,
    path: Seq<char>,
    size: u64,
    last_modified: Seq<char>,
    seed: Option<i64>,
) -> bool {
    &&& w.name@ == name
    &&& w.path@ == path
    &&& w.size == size
    &&& w.last_modified@ == last_modified
    &&& w.seed == seed
    &&& w.difficulty@ == "normal"@
    &&& w.game_mode@ == "survival"@
    &&& w.spawn_x == 0
    &&& w.spawn_y == 64
    &&& w.spawn_z == 0
    &&& w.time == 0
    &&& w.weather@ == "clear"@
    &&& w.version@ == "1.20"@
}

/// The part of `s` before its first underscore; all of `s` if it has none.
pub open spec fn before_underscore(s: Seq<char>) -> Seq<char> {
    if exists|i: int| is_first_underscore(s, i) {
        s.take(choose|i: int| is_first_underscore(s, i))
    } else {
        s
    }
}

/// `i` is the place of the first underscore of `s`.
pub open spec fn is_first_underscore(s: Seq<char>, i: int) -> bool {
    &&& 0 <= i < s.len()
    &&& s[i] == '_'
    &&& forall|j: int| 0 <= j < i ==> s[j] != '_'
}

/// The directory of the world `name` of the server in `server_path`: the
/// directory `worlds` of the server's directory, and in it `name`.
pub open spec fn world_path_of(server_path: Seq<char>, name: Seq<char>) -> Seq<char> {
    joined_path(joined_path(server_path, "worlds"@), name)
}

/// The file name of the backup of the world `name` made at the time that
/// `stamp` names.
pub open spec fn backup_file_name_of(name: Seq<char>, stamp: Seq<char>) -> Seq<char> {
    name + "_"@ + stamp + ".zip"@
}

impl World {
    /// The record of a world of which only name, directory, size, time of
    /// modification and seed are known.
    pub fn with_defaults(
        name: String,
        path: String,
        size: u64,
        last_modified: String,
        seed: Option<i64>,
    ) -> (w: World)
        ensures
            is_default_record(w, name@, path@, size, last_modified@, seed),
    {
        World {
            name,
            path,
            size,
            last_modified,
            seed,
            difficulty: String::from_str("normal"),
            game_mode: String::from_str("survival"),
            spawn_x: 0,
            spawn_y: 64,
            spawn_z: 0,
            time: 0,
            weather: String::from_str("clear"),
            version: String::from_str("1.20"),
        }
    }
}

/// The name of the world that the backup file with the stem `stem` holds:
/// the part of the stem before its first underscore.
pub fn world_name_of_backup(stem: &str) -> (name: String)
    ensures
        name@ == before_underscore(stem@),
{
    let n = stem.unicode_len();
    let mut i: usize = 0;
    while i < n
        invariant
            n == stem@.len(),
            i <= n,
            forall|j: int| 0 <= j < i ==> stem@[j] != '_',
        decreases n - i,
    {
        if stem.get_char(i) == '_' {
            proof {
                assert(is_first_underscore(stem@, i as int));
                assert forall|k: int| is_first_underscore(stem@, k) implies k == i by {}
            }
            return stem.substring_char(0, i).to_owned();
        }
        i = i + 1;
    }
    proof {
        assert forall|k: int| !is_first_underscore(stem@, k) by {}
    }
    stem.to_owned()
}

/// Whether the archive entry `name` is a directory: its name ends in a slash.
pub fn is_directory_entry(name: &str) -> (b: bool)
    ensures
        b == (name@.len() > 0 && name@.last() == '/'),
{
    let n = name.unicode_len();
    n > 0 && name.get_char(n - 1) == '/'
}

/// The file name of the backup of the world `name` made at the time that
/// `stamp` names.
pub fn backup_file_name(name: &str, stamp: &str) -> (file: String)
    ensures
        file@ == backup_file_name_of(name@, stamp@),
{
    let mut file = String::from_str(name).concat("_");
    file.append(stamp);
    file.append(".zip");
    file
}

/// The worlds under their names, and the directory of the server.
#[derive(Debug)]
pub struct WorldManager {
    worlds: Registry<World>,
    server_path: String,
}

impl WorldManager {
    /// The names under which the worlds are registered, in registry order.
    pub closed spec fn world_names(&self) -> Seq<Seq<char>> {
        self.worlds.keys()
    }

    /// The registered worlds, in registry order.
    pub closed spec fn worlds(&self) -> Seq<World> {
        self.worlds.values()
    }

    /// The directory of the server, as text.
    pub closed spec fn directory(&self) -> Seq<char> {
        self.server_path@
    }

    /// No name is registered twice, and every world stands under its own
    /// name.
    pub closed spec fn wf(&self) -> bool {
        &&& self.worlds.wf()
        &&& self.worlds.keys().len() == self.worlds.values().len()
        &&& forall|i: int|
            0 <= i < self.worlds.values().len() ==> #[trigger] self.worlds.keys()[i]
                == self.worlds.values()[i].name@
    }

    /// What well-formedness says in terms of the public model.
    pub proof fn lemma_wf(&self)
        requires
            self.wf(),
        ensures
            self.world_names().len() == self.worlds().len(),
            self.world_names().no_duplicates(),
            forall|i: int|
                0 <= i < self.worlds().len() ==> #[trigger] self.world_names()[i]
                    == self.worlds()[i].name@,
    {
        self.worlds.lemma_wf();
    }

    /// No worlds, for the server in the directory `server_path`.
    pub fn new(server_path: &str) -> (m: WorldManager)
        ensures
            m.wf(),
            m.world_names() == Seq::<Seq<char>>::empty(),
            m.worlds() == Seq::<World>::empty(),
            m.directory() == server_path@,
    {
        WorldManager { worlds: Registry::new(), server_path: server_path.to_owned() }
    }

    /// The directory of the server, as text.
    pub fn server_path(&self) -> (p: &String)
        ensures
            p@ == self.directory(),
    {
        &self.server_path
    }

    /// The directory of the world `name`: `worlds` joined onto the server's
    /// directory, and `name` joined onto that.
    pub fn world_path(&self, name: &str) -> (path: String)
        ensures
            path@ == world_path_of(self.directory(), name@),
    {
        let worlds = join_path(self.server_path.as_str(), "worlds");
        join_path(worlds.as_str(), name)
    }

    /// Registers `world` under its name. A world that is registered under
    /// that name is replaced and keeps its place; a new name goes to the end.
    pub fn add_world(&mut self, world: World)
        requires
            old(self).wf(),
        ensures
            final(self).wf(),
            final(self).directory() == old(self).directory(),
            match position(old(self).world_names(), world.name@) {
                Some(i) => {
                    &&& final(self).world_names() == old(self).world_names()
                    &&& final(self).worlds() == old(self).worlds().update(i, world)
                },
                None => {
                    &&& final(self).world_names() == old(self).world_names().push(world.name@)
                    &&& final(self).worlds() == old(self).worlds().push(world)
                },
            },
    {
        let key = world.name.clone();
        let _ = self.worlds.insert(key, world);
    }

    /// Registers a new, empty world `name` with the seed `seed` in the
    /// directory `path`. `already_exists` says whether something stood at
    /// `path` before the directory was made.
    ///
    /// If something stood there, this fails with `AlreadyExists` and nothing
    /// changes. Otherwise the world is registered under its name: its record
    /// is the default record, of size zero, modified at the local time of the
    /// wall clock, whatever text that is.
    pub fn create_world(&mut self, name: &str, seed: Option<i64>, path: String, already_exists: bool) -> (r:
        Result<(), WorldError>)
        requires
            old(self).wf(),
        ensures
            final(self).wf(),
            final(self).directory() == old(self).directory(),
            already_exists ==> {
                &&& r == Err::<(), WorldError>(WorldError::AlreadyExists)
                &&& final(self).world_names() == old(self).world_names()
                &&& final(self).worlds() == old(self).worlds()
            },
            !already_exists ==> r is Ok && match position(old(self).world_names(), name@) {
                Some(i) => {
                    &&& final(self).world_names() == old(self).world_names()
                    &&& final(self).worlds().len() == old(self).worlds().len()
                    &&& forall|k: int|
                        0 <= k < old(self).worlds().len() && k != i ==> final(self).worlds()[k]
                            == old(self).worlds()[k]
                    &&& is_default_record(
                        final(self).worlds()[i],
                        name@,
                        path@,
                        0,
                        final(self).worlds()[i].last_modified@,
                        seed,
                    )
                },
                None => {
                    &&& final(self).world_names() == old(self).world_names().push(name@)
                    &&& final(self).worlds().len() == old(self).worlds().len() + 1
                    &&& final(self).worlds().drop_last() == old(self).worlds()
                    &&& is_default_record(
                        final(self).worlds().last(),
                        name@,
                        path@,
                        0,
                        final(self).worlds().last().last_modified@,
                        seed,
                    )
                },
            },
    {
        if already_exists {
            return Err(WorldError::AlreadyExists);
        }
        proof {
            self.worlds.lemma_wf();
        }
        let world = World::with_defaults(name.to_owned(), path, 0, local_time_text(), seed);
        self.add_world(world);
        proof {
            if position(old(self).world_names(), name@) is None {
                assert(self.worlds().drop_last() =~= old(self).worlds());
            }
        }
        Ok(())
    }

    /// Takes the world under `name` out of the registry and hands back its
    /// record, whose directory is to be removed; the others keep their order.
    /// An unknown name changes nothing.
    pub fn delete_world(&mut self, name: &str) -> (removed: Option<World>)
        requires
            old(self).wf(),
        ensures
            final(self).wf(),
            final(self).directory() == old(self).directory(),
            match position(old(self).world_names(), name@) {
                Some(i) => {
                    &&& final(self).world_names() == old(self).world_names().remove(i)
                    &&& final(self).worlds() == old(self).worlds().remove(i)
                    &&& removed == Some(old(self).worlds()[i])
                },
                None => {
                    &&& final(self).world_names() == old(self).world_names()
                    &&& final(self).worlds() == old(self).worlds()
                    &&& removed is None
                },
            },
    {
        self.worlds.remove(name)
    }

    /// The world under `name`, if there is one.
    pub fn get_world(&self, name: &str) -> (r: Option<&World>)
        requires
            self.wf(),
        ensures
            match position(self.world_names(), name@) {
                Some(i) => r matches Some(w) && *w == self.worlds()[i],
                None => r is None,
            },
    {
        self.worlds.get(name)
    }

    /// All worlds, in registry order.
    pub fn get_all_worlds(&self) -> (out: Vec<&World>)
        requires
            self.wf(),
        ensures
            referred(out@) == self.worlds(),
    {
        let out = self.worlds.all();
        assert(referred(out@) =~= self.worlds());
        out
    }
}

} // verus!
