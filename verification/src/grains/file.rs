//! The file-access probe: what it decodes out of a raw record, and its
//! lifecycle from loading over attachment to the steady state in which it
//! takes in records while the synchronizer drains the kernel table.

use crate::grains::record::{
    parsed, PathSegmentView, RawFileAccess, RawFileAccessView, RecordLayout,
};
use crate::grains::sync::{cycle, decisions_view, deletions, Reconciled};
use crate::grains::table::{recorded, AccessTable};
use crate::grains::text::{join, joined, text_of, to_string, views};
use vstd::prelude::*;

verus! {

/// One decoded file-access event.
#[derive(Debug, PartialEq, Eq)]
pub struct FileAccess {
    /// The identifier that the event came with; carried through unchanged.
    pub id: u64,
    /// The command name of the accessing process.
    pub process: String,
    /// The full path, from the root down to the accessed file.
    pub path: String,
    /// The inode of the accessed file.
    pub ino: u64,
}

/// A decoded event as a mathematical value.
pub struct FileAccessView {
    pub id: u64,
    pub process: Seq<char>,
    pub path: Seq<char>,
    pub ino: u64,
}

impl View for FileAccess {
    type V = FileAccessView;

    open spec fn view(&self) -> FileAccessView {
        FileAccessView { id: self.id, process: self.process@, path: self.path@, ino: self.ino }
    }
}

impl Clone for FileAccess {
    fn clone(&self) -> (r: Self)
        ensures
            r@ == self@,
    {
        FileAccess {
            id: self.id,
            process: self.process.clone(),
            path: self.path.clone(),
            ino: self.ino,
        }
    }
}

/// Why a raw record was not decoded.
#[derive(Clone, Copy, Debug, PartialEq, Eq)]
pub enum DecodeError {
    /// The record has no path segment, so it names no file.
    NoPathSegments,
}

/// The separator between the components of a path.
pub open spec fn path_separator() -> Seq<char> {
    seq!['/']
}

/// The names of the segments of a path, from the root down: the segments
/// come leaf first, so this is their names in reverse order.
pub open spec fn path_names(path: Seq<PathSegmentView>) -> Seq<Seq<char>> {
    Seq::new(path.len(), |i: int| text_of(path[path.len() - 1 - i].name))
}

/// The event that a raw record with at least one path segment stands for.
pub open spec fn decoded(raw: RawFileAccessView) -> FileAccessView {
    FileAccessView {
        id: raw.id,
        process: text_of(raw.comm),
        path: joined(path_names(raw.path), path_separator()),
        ino: raw.path[0].ino,
    }
}

/// What a raw record holds when it is read defensively: all that can be
/// read of it, whether or not it names a file. `ino` is `None`, and `path`
/// is empty, where the record has no path segment; such a reading is no
/// event and never enters the table.
#[derive(Debug, PartialEq, Eq)]
pub struct Decoded {
    pub id: u64,
    pub process: String,
    pub path: String,
    pub ino: Option<u64>,
}

/// A defensive reading as a mathematical value.
pub struct DecodedView {
    pub id: u64,
    pub process: Seq<char>,
    pub path: Seq<char>,
    pub ino: Option<u64>,
}

impl View for Decoded {
    type V = DecodedView;

    open spec fn view(&self) -> DecodedView {
        DecodedView { id: self.id, process: self.process@, path: self.path@, ino: self.ino }
    }
}

/// The defensive reading of a raw record, with or without path segments.
pub open spec fn decoded_defensively(raw: RawFileAccessView) -> DecodedView {
    DecodedView {
        id: raw.id,
        process: text_of(raw.comm),
        path: joined(path_names(raw.path), path_separator()),
        ino: if raw.path.len() == 0 {
            None
        } else {
            Some(raw.path[0].ino)
        },
    }
}

/// Decoding depends on the content of the record and on nothing else: two
/// records with the same content decode to the same event, and are read
/// alike defensively.
pub proof fn lemma_decode_deterministic(a: RawFileAccess, b: RawFileAccess)
    requires
        a@ == b@,
    ensures
        decoded(a@) == decoded(b@),
        decoded_defensively(a@) == decoded_defensively(b@),
        (a@.path.len() == 0) == (b@.path.len() == 0),
{
}

/// A record without path segments reads defensively as an empty path and no
/// inode; one with segments reads as the event that it decodes to.
pub proof fn lemma_defensive_reading(raw: RawFileAccessView)
    ensures
        raw.path.len() == 0 ==> decoded_defensively(raw).path == Seq::<char>::empty()
            && decoded_defensively(raw).ino is None,
        raw.path.len() > 0 ==> {
            &&& decoded_defensively(raw).id == decoded(raw).id
            &&& decoded_defensively(raw).process == decoded(raw).process
            &&& decoded_defensively(raw).path == decoded(raw).path
            &&& decoded_defensively(raw).ino == Some(decoded(raw).ino)
        },
{
    if raw.path.len() == 0 {
        assert(path_names(raw.path) =~= Seq::<Seq<char>>::empty());
    }
}

impl FileAccess {
    /// Reads a raw record defensively, and never fails. The path is the
    /// segment names from the root down, joined by `/`; names and process
    /// name are read up to their first zero byte, with U+FFFD in place of
    /// what is no UTF-8. The inode is that of the first segment, the leaf. A
    /// record without segments reads as an empty path and no inode.
    pub fn decode(data: &RawFileAccess) -> (d: Decoded)
        ensures
            d@ == decoded_defensively(data@),
            data@.path.len() == 0 ==> d.path@ == Seq::<char>::empty() && d.ino is None,
            data@.path.len() > 0 ==> d.ino == Some(data@.path[0].ino),
    {
        let n = data.path.len();
        let ino = if n == 0 {
            None
        } else {
            Some(data.path[0].ino)
        };
        let mut names: Vec<String> = Vec::new();
        let mut i: usize = n;
        while i > 0
            invariant
                i <= n,
                n == data.path@.len(),
                names@.len() == n - i,
                forall|j: int|
                    0 <= j < names@.len() ==> (#[trigger] names@[j])@ == text_of(
                        data.path@[n - 1 - j].name@,
                    ),
            decreases i,
        {
            i -= 1;
            names.push(to_string(data.path[i].name.as_slice()));
        }
        proof {
            reveal_strlit("/");
            assert("/"@ =~= path_separator());
            assert(views(names@) =~= path_names(data@.path));
            lemma_defensive_reading(data@);
        }
        let path = join(&names, "/");
        let process = to_string(data.comm.as_slice());
        Decoded { id: data.id, process, path, ino }
    }

    /// Decodes a raw record into an event: its defensive reading, where that
    /// names a file. A record without segments is refused: its reading, with
    /// an empty path and no inode, is no event.
    pub fn from(data: RawFileAccess) -> (r: Result<FileAccess, DecodeError>)
        ensures
            r is Err <==> data@.path.len() == 0,
            r matches Ok(file) ==> file@ == decoded(data@),
            r matches Err(e) ==> e == DecodeError::NoPathSegments,
    {
        let read = FileAccess::decode(&data);
        proof {
            lemma_defensive_reading(data@);
        }
        match read.ino {
            Some(ino) => Ok(FileAccess { id: read.id, process: read.process, path: read.path, ino }),
            None => Err(DecodeError::NoPathSegments),
        }
    }
}

/// The action code that tells the kernel side to pass an inode over.
pub const ACTION_IGNORE: u8 = 0;

/// The action code that tells the kernel side to record accesses to an inode.
pub const ACTION_RECORD: u8 = 1;

/// The seconds that the synchronizer sleeps between two cycles.
pub const SYNC_INTERVAL_SECS: u64 = 5;

/// The name of the kernel table of touched inodes, which the synchronizer
/// drains.
pub open spec fn volumes_table() -> Seq<char> {
    "volumes"@
}

/// The name of the kernel table that says which inodes are recorded.
pub open spec fn actionlist_table() -> Seq<char> {
    "actionlist"@
}

/// `i` is the first place of `names` that holds `needle`.
pub open spec fn is_first_named(names: Seq<Seq<char>>, needle: Seq<char>, i: int) -> bool {
    &&& 0 <= i < names.len()
    &&& names[i] == needle
    &&& forall|j: int| 0 <= j < i ==> names[j] != needle
}

/// Some place of `names` holds `needle`.
pub open spec fn is_named(names: Seq<Seq<char>>, needle: Seq<char>) -> bool {
    exists|i: int| 0 <= i < names.len() && names[i] == needle
}

/// The place of the first table called `needle` among the tables of a loaded
/// module, given by their names in the module's order. The table has to be
/// there: where it may be missing, ask `position_by_name`.
pub fn find_map_by_name(names: &[String], needle: &str) -> (i: usize)
    requires
        is_named(views(names@), needle@),
    ensures
        is_first_named(views(names@), needle@, i as int),
{
    position_by_name(names, needle).unwrap()
}

/// The place of the first table called `needle` among the tables of a loaded
/// module, given by their names in the module's order; `None` where there is
/// no such table.
pub fn position_by_name(names: &[String], needle: &str) -> (r: Option<usize>)
    ensures
        match r {
            Some(i) => is_first_named(views(names@), needle@, i as int),
            None => !is_named(views(names@), needle@),
        },
{
    let wanted = needle.to_owned();
    let mut i: usize = 0;
    while i < names.len()
        invariant
            i <= names.len(),
            wanted@ == needle@,
            forall|j: int| 0 <= j < i ==> views(names@)[j] != needle@,
        decreases names.len() - i,
    {
        if names[i] == wanted {
            return Some(i);
        }
        i += 1;
    }
    None
}

/// Where a probe stands in its lifecycle.
#[derive(Clone, Copy, Debug, PartialEq, Eq, Structural)]
pub enum Stage {
    /// Made, and not yet given its kernel tables.
    Unloaded,
    /// Its tables are found and seeded, the synchronizer owns its table.
    Loaded,
    /// It has been given backends.
    Attached,
}

/// Why loading was refused. Each is fatal for the probe: it stays unloaded.
#[derive(Clone, Copy, Debug, PartialEq, Eq, Structural)]
pub enum LoadError {
    /// The probe was loaded before.
    AlreadyLoaded,
    /// The module has no table of touched inodes.
    NoVolumesTable,
    /// The module has no table of actions.
    NoActionlistTable,
    /// The inode of the filesystem root could not be had.
    NoRootInode,
}

/// Why attaching was refused.
#[derive(Clone, Copy, Debug, PartialEq, Eq, Structural)]
pub enum AttachError {
    /// The probe is not loaded, so it must not become attached.
    NotLoaded,
}

/// What the loader is to do to finish loading, in this order: write
/// `seed_action` for `seed_ino` into the table at place `actionlist`; then
/// take the table at place `volumes` out of the module's list, moving the
/// last table into its place, and hand it to a synchronizer of its own.
#[derive(Clone, Copy, Debug, PartialEq, Eq, Structural)]
pub struct LoadPlan {
    pub volumes: usize,
    pub actionlist: usize,
    pub seed_ino: u64,
    pub seed_action: u8,
}

/// What became of a raw record that was handed to the probe.
#[derive(Clone, Copy, Debug, PartialEq, Eq, Structural)]
pub enum Handled {
    /// It was decoded and is now the record of its inode.
    Stored,
    /// It was decoded; its inode had a record, which stays.
    AlreadyKnown,
    /// It was too short or had no path segment, and was dropped.
    Malformed,
}

/// The reason for which loading is refused, if any. A probe that is not
/// unloaded comes first, then a missing table of touched inodes, then a
/// missing table of actions, then a missing root inode.
pub open spec fn load_refusal(
    stage: Stage,
    names: Seq<Seq<char>>,
    root_ino: Option<u64>,
) -> Option<LoadError> {
    if stage != Stage::Unloaded {
        Some(LoadError::AlreadyLoaded)
    } else if !is_named(names, volumes_table()) {
        Some(LoadError::NoVolumesTable)
    } else if !is_named(names, actionlist_table()) {
        Some(LoadError::NoActionlistTable)
    } else if root_ino is None {
        Some(LoadError::NoRootInode)
    } else {
        None
    }
}

/// The table after a raw record, already taken apart, was handed in.
pub open spec fn table_after_event(
    table: Map<u64, FileAccessView>,
    data: RawFileAccessView,
) -> Map<u64, FileAccessView> {
    if data.path.len() == 0 {
        table
    } else {
        recorded(table, decoded(data))
    }
}

/// What a raw record, already taken apart, leads to.
pub open spec fn event_outcome(table: Map<u64, FileAccessView>, data: RawFileAccessView) -> Handled {
    if data.path.len() == 0 {
        Handled::Malformed
    } else if table.contains_key(decoded(data).ino) {
        Handled::AlreadyKnown
    } else {
        Handled::Stored
    }
}

/// The file-access probe. It owns the table of decoded accesses; `B` is the
/// kind of backend that it is given when attached.
pub struct Files<B> {
    files: AccessTable,
    backends: Vec<B>,
    stage: Stage,
}

impl<B> Files<B> {
    /// The table of decoded accesses.
    pub closed spec fn table(&self) -> Map<u64, FileAccessView> {
        self.files@
    }

    /// The backends that the probe holds, in the order given.
    pub closed spec fn held_backends(&self) -> Seq<B> {
        self.backends@
    }

    /// Where the probe stands.
    pub closed spec fn lifecycle(&self) -> Stage {
        self.stage
    }

    /// An unloaded probe with an empty table and no backend.
    pub fn new() -> (grain: Files<B>)
        ensures
            grain.lifecycle() == Stage::Unloaded,
            grain.table() == Map::<u64, FileAccessView>::empty(),
            grain.held_backends() == Seq::<B>::empty(),
    {
        Files { files: AccessTable::new(), backends: Vec::new(), stage: Stage::Unloaded }
    }

    /// Where the probe stands in its lifecycle.
    pub fn stage(&self) -> (s: Stage)
        ensures
            s == self.lifecycle(),
    {
        self.stage
    }

    /// The table of decoded accesses.
    pub fn files(&self) -> (t: &AccessTable)
        ensures
            t@ == self.table(),
    {
        &self.files
    }

    /// The backends that the probe holds.
    pub fn backends(&self) -> (b: &Vec<B>)
        ensures
            b@ == self.held_backends(),
    {
        &self.backends
    }

    /// Loads the probe. `tables` are the names of the module's kernel tables
    /// in the module's order, `root_ino` the inode of the filesystem root,
    /// if it could be had. An unloaded probe that finds both of its tables
    /// and has the root inode becomes loaded, and the answer says what the
    /// loader has to do; any other call is refused and changes nothing.
    pub fn loaded(&mut self, tables: &[String], root_ino: Option<u64>) -> (r: Result<
        LoadPlan,
        LoadError,
    >)
        ensures
            r is Err <==> load_refusal(old(self).lifecycle(), views(tables@), root_ino) is Some,
            r matches Err(e) ==> Some(e) == load_refusal(
                old(self).lifecycle(),
                views(tables@),
                root_ino,
            ) && *final(self) == *old(self),
            r matches Ok(plan) ==> {
                &&& is_first_named(views(tables@), volumes_table(), plan.volumes as int)
                &&& is_first_named(views(tables@), actionlist_table(), plan.actionlist as int)
                &&& plan.volumes != plan.actionlist
                &&& root_ino == Some(plan.seed_ino)
                &&& plan.seed_action == ACTION_RECORD
                &&& final(self).lifecycle() == Stage::Loaded
            },
            final(self).table() == old(self).table(),
            final(self).held_backends() == old(self).held_backends(),
    {
        if self.stage != Stage::Unloaded {
            return Err(LoadError::AlreadyLoaded);
        }
        let volumes = match position_by_name(tables, "volumes") {
            Some(i) => i,
            None => {
                return Err(LoadError::NoVolumesTable);
            },
        };
        let actionlist = match position_by_name(tables, "actionlist") {
            Some(i) => i,
            None => {
                return Err(LoadError::NoActionlistTable);
            },
        };
        let seed_ino = match root_ino {
            Some(ino) => ino,
            None => {
                return Err(LoadError::NoRootInode);
            },
        };
        proof {
            reveal_strlit("volumes");
            reveal_strlit("actionlist");
            assert("volumes"@.len() != "actionlist"@.len());
        }
        self.stage = Stage::Loaded;
        Ok(LoadPlan { volumes, actionlist, seed_ino, seed_action: ACTION_RECORD })
    }

    /// Takes in a raw record that is already taken apart: decodes it and
    /// offers it to the table, where the first record of an inode stays. A
    /// record without path segments is dropped. No event is handed back:
    /// what was seen is reported by the synchronizer alone.
    pub fn handle_event(&mut self, data: RawFileAccess) -> (h: Handled)
        ensures
            final(self).table() == table_after_event(old(self).table(), data@),
            h == event_outcome(old(self).table(), data@),
            final(self).lifecycle() == old(self).lifecycle(),
            final(self).held_backends() == old(self).held_backends(),
    {
        match FileAccess::from(data) {
            Ok(file) => {
                if self.files.insert(file) {
                    Handled::Stored
                } else {
                    Handled::AlreadyKnown
                }
            },
            Err(_) => Handled::Malformed,
        }
    }

    /// Takes in a raw record as the kernel side wrote it. A buffer shorter
    /// than one record of `layout` is dropped and nothing is read from it;
    /// else the record at its front is handled as `handle_event` does.
    pub fn handle_bytes(&mut self, raw: &[u8], layout: &RecordLayout) -> (h: Handled)
        ensures
            final(self).lifecycle() == old(self).lifecycle(),
            final(self).held_backends() == old(self).held_backends(),
            raw@.len() < layout.size() ==> h == Handled::Malformed && final(self).table() == old(
                self,
            ).table(),
            raw@.len() >= layout.size() ==> h == event_outcome(
                old(self).table(),
                parsed(raw@, *layout),
            ) && final(self).table() == table_after_event(
                old(self).table(),
                parsed(raw@, *layout),
            ),
    {
        match RawFileAccess::parse(raw, layout) {
            Some(data) => self.handle_event(data),
            None => Handled::Malformed,
        }
    }

    /// One synchronizer cycle over the keys read from the kernel table: for
    /// each key, in order, the key to delete and the record to report, if
    /// the table holds one. The probe is not changed.
    pub fn sync_cycle(&self, keys: &[u64]) -> (r: Vec<Reconciled>)
        ensures
            decisions_view(r@) == cycle(self.table(), keys@),
            deletions(decisions_view(r@)) == keys@,
    {
        self.files.sync_cycle(keys)
    }
}

impl<B: Clone> Files<B> {
    /// Attaches backends to a loaded probe: they are stored behind those it
    /// holds, in the order given, and the probe is attached. An unloaded
    /// probe refuses and stays as it is.
    pub fn attached(&mut self, backends: &[B]) -> (r: Result<(), AttachError>)
        ensures
            r is Err <==> old(self).lifecycle() == Stage::Unloaded,
            r is Err ==> *final(self) == *old(self),
            r is Ok ==> {
                &&& final(self).lifecycle() == Stage::Attached
                &&& final(self).held_backends().len() == old(self).held_backends().len()
                    + backends@.len()
                &&& forall|i: int|
                    0 <= i < old(self).held_backends().len() ==> final(self).held_backends()[i]
                        == old(self).held_backends()[i]
                &&& forall|i: int|
                    0 <= i < backends@.len() ==> cloned(
                        #[trigger] backends@[i],
                        final(self).held_backends()[old(self).held_backends().len() + i],
                    )
            },
            final(self).table() == old(self).table(),
    {
        if self.stage == Stage::Unloaded {
            return Err(AttachError::NotLoaded);
        }
        self.backends.extend_from_slice(backends);
        self.stage = Stage::Attached;
        Ok(())
    }
}

} // verus!
