//! The deployment controller: one record per module name, driven through
//! its lifecycle by reconciliation ticks over directory observations.

use vstd::prelude::*;
use crate::compiler::{
    spec_compilable, spec_compile_error_for, CompilationUnit, CompileError, Compiler, Executor,
    new_pair,
};
use crate::digest::{checksum_of, spec_checksum_of};
use crate::status::{spec_status_of_word, FunctionStatus};
use crate::text::str_eq_str;
use crate::watcher::{spec_is_wasm_file, spec_wasm_stem, DirectoryWatcher};

verus! {

/// Why a manager operation failed.
#[derive(Debug)]
pub enum FunctionManagerError {
    UnavailableModule(String),
    CompilationError(String, String),
}

/// The legacy name of the same failure space, kept for the older
/// module-map interface.
#[derive(Debug)]
pub enum ModuleManagerError {
    UnavailableModule(String),
    CompilationError(String, String),
}

/// One function record: the on-disk module it mirrors, its checksum as of
/// the last compile attempt, its stable state, and the artifact when
/// deployed.
pub struct FunctionRecord {
    pub name: String,
    pub checksum: String,
    pub status: FunctionStatus,
    pub file_path: String,
    pub compilation: Option<CompilationUnit>,
    pub last_error: Option<CompileError>,
}

impl FunctionRecord {
    /// A record at rest: its state is stable, the artifact is present
    /// exactly when deployed and carries the record's own checksum, and the
    /// file name is the record's name under the module extension.
    pub open spec fn wf(self) -> bool {
        &&& (self.status == FunctionStatus::Deployed || self.status
            == FunctionStatus::Undeployed)
        &&& (self.status == FunctionStatus::Deployed <==> self.compilation is Some)
        &&& (self.compilation matches Some(cu) ==> cu.checksum@ == self.checksum@)
        &&& self.file_path@ == self.name@ + ".wasm"@
    }

    /// What a clone preserves of a record.
    pub open spec fn clone_model(self, other: FunctionRecord) -> bool {
        &&& self.name@ == other.name@
        &&& self.checksum@ == other.checksum@
        &&& self.status == other.status
        &&& self.file_path@ == other.file_path@
        &&& (self.compilation is Some <==> other.compilation is Some)
        &&& (self.compilation matches Some(cu) ==> cu.checksum@
            == other.compilation.unwrap().checksum@)
        &&& (self.last_error is Some <==> other.last_error is Some)
        &&& (self.last_error matches Some(e) ==> e.matches_model(other.last_error.unwrap()))
    }
}

impl Clone for FunctionRecord {
    fn clone(&self) -> (r: Self)
        ensures
            r.clone_model(*self),
    {
        FunctionRecord {
            name: self.name.clone(),
            checksum: self.checksum.clone(),
            status: self.status,
            file_path: self.file_path.clone(),
            compilation: match &self.compilation {
                Some(cu) => Some(cu.clone()),
                None => None,
            },
            last_error: match &self.last_error {
                Some(e) => Some(e.clone()),
                None => None,
            },
        }
    }
}

/// A handle on one deployed function: the name and its own clone of the
/// artifact. The handle never points back into the manager; execution
/// borrows nothing from it.
pub struct ModuleHandle {
    pub name: String,
    pub compilation_unit: CompilationUnit,
}

/// One directory observation handed to a tick: a module file name, the
/// intent word the scanner derived for it, and the file's current bytes.
pub struct ObservedFile {
    pub path: String,
    pub next_status: String,
    pub bytes: Vec<u8>,
}

/// One compilation performed by a tick.
pub struct CompileEvent {
    pub name: String,
    pub checksum: String,
}

/// What a tick did: every compilation it ran, in observation order.
pub struct TickReport {
    pub compiled: Vec<CompileEvent>,
}

/// The module name an observation is about: the stem of its file name.
pub open spec fn spec_obs_name(o: ObservedFile) -> Seq<char> {
    spec_wasm_stem(o.path@)
}

/// The intent an observation carries.
pub open spec fn spec_obs_status(o: ObservedFile) -> FunctionStatus {
    spec_status_of_word(o.next_status@)
}

/// The checksum of an observation's bytes.
pub open spec fn spec_obs_checksum(o: ObservedFile) -> Seq<char> {
    spec_checksum_of(o.bytes@)
}

/// A well-formed observation batch: every path is a module file and no two
/// observations are about the same name, as holds of any directory listing.
pub open spec fn spec_obs_ok(obs: Seq<ObservedFile>) -> bool {
    &&& (forall|k: int| 0 <= k < obs.len() ==> spec_is_wasm_file(#[trigger] obs[k].path@))
    &&& (forall|k: int, l: int|
        0 <= k < l < obs.len() ==> spec_obs_name(#[trigger] obs[k]) != spec_obs_name(
            #[trigger] obs[l],
        ))
}

/// Whether some observation keeps the record named `n` alive: the name is
/// observed on disk and its intent is not an undeploy.
pub open spec fn spec_obs_keeps(obs: Seq<ObservedFile>, n: Seq<char>) -> bool {
    exists|k: int|
        0 <= k < obs.len() && spec_obs_name(#[trigger] obs[k]) == n && !spec_obs_status(
            obs[k],
        ).spec_wants_undeploy()
}

/// Whether a record exists under this name.
pub open spec fn spec_seq_has(s: Seq<FunctionRecord>, n: Seq<char>) -> bool {
    exists|i: int| 0 <= i < s.len() && (#[trigger] s[i]).name@ == n
}

/// The record under this name, when one exists.
pub open spec fn spec_seq_lookup(s: Seq<FunctionRecord>, n: Seq<char>) -> Option<FunctionRecord> {
    if spec_seq_has(s, n) {
        Some(s[choose|i: int| 0 <= i < s.len() && (#[trigger] s[i]).name@ == n])
    } else {
        None
    }
}

/// No two records share a name.
pub open spec fn spec_unique_names(s: Seq<FunctionRecord>) -> bool {
    forall|i: int, j: int|
        0 <= i < j < s.len() ==> (#[trigger] s[i]).name@ != (#[trigger] s[j]).name@
}

/// With unique names, the record at index `i` is what lookup by its name
/// finds.
pub proof fn lemma_lookup_at(s: Seq<FunctionRecord>, i: int)
    requires
        spec_unique_names(s),
        0 <= i < s.len(),
    ensures
        spec_seq_lookup(s, s[i].name@) == Some(s[i]),
{
    let n = s[i].name@;
    assert(spec_seq_has(s, n));
    let j = choose|j: int| 0 <= j < s.len() && (#[trigger] s[j]).name@ == n;
    if i != j {
        if i < j {
            assert(s[i].name@ != s[j].name@);
        } else {
            assert(s[j].name@ != s[i].name@);
        }
    }
}

/// How lookup changes when a record is pushed: the new name resolves to the
/// new record, every other name as before.
pub proof fn lemma_lookup_push(s: Seq<FunctionRecord>, m: FunctionRecord, n: Seq<char>)
    requires
        spec_unique_names(s),
        !spec_seq_has(s, m.name@),
    ensures
        spec_unique_names(s.push(m)),
        spec_seq_lookup(s.push(m), m.name@) == Some(m),
        m.name@ != n ==> spec_seq_lookup(s.push(m), n) == spec_seq_lookup(s, n),
{
    let t = s.push(m);
    assert forall|i: int, j: int| 0 <= i < j < t.len() implies (#[trigger] t[i]).name@ != (
    #[trigger] t[j]).name@ by {
        if j == s.len() as int {
            assert(t[i] == s[i]);
            if t[i].name@ == m.name@ {
                assert(spec_seq_has(s, m.name@));
            }
        } else {
            assert(t[i] == s[i] && t[j] == s[j]);
        }
    }
    assert(t[s.len() as int].name@ == m.name@);
    lemma_lookup_at(t, s.len() as int);
    if m.name@ != n {
        if spec_seq_has(s, n) {
            let i = choose|i: int| 0 <= i < s.len() && (#[trigger] s[i]).name@ == n;
            assert(t[i].name@ == n);
            lemma_lookup_at(s, i);
            lemma_lookup_at(t, i);
        } else {
            if spec_seq_has(t, n) {
                let j = choose|j: int| 0 <= j < t.len() && (#[trigger] t[j]).name@ == n;
                if j == s.len() as int {
                    assert(t[j] == m);
                } else {
                    assert(t[j] == s[j]);
                    assert(spec_seq_has(s, n));
                }
            }
        }
    }
}

/// How lookup changes when the record at `i` is removed: its name resolves
/// to nothing, every other name as before.
pub proof fn lemma_lookup_remove(s: Seq<FunctionRecord>, i: int, n: Seq<char>)
    requires
        spec_unique_names(s),
        0 <= i < s.len(),
    ensures
        spec_unique_names(s.remove(i)),
        s[i].name@ == n ==> spec_seq_lookup(s.remove(i), n) is None,
        s[i].name@ != n ==> spec_seq_lookup(s.remove(i), n) == spec_seq_lookup(s, n),
{
    let t = s.remove(i);
    assert forall|a: int, b: int| 0 <= a < b < t.len() implies (#[trigger] t[a]).name@ != (
    #[trigger] t[b]).name@ by {
        let a0 = if a < i { a } else { a + 1 };
        let b0 = if b < i { b } else { b + 1 };
        assert(t[a] == s[a0] && t[b] == s[b0]);
        assert(s[a0].name@ != s[b0].name@);
    }
    if s[i].name@ == n {
        if spec_seq_has(t, n) {
            let j = choose|j: int| 0 <= j < t.len() && (#[trigger] t[j]).name@ == n;
            let j0 = if j < i { j } else { j + 1 };
            assert(t[j] == s[j0]);
            assert(s[j0].name@ == s[i].name@ && j0 != i);
            if j0 < i {
                assert(s[j0].name@ != s[i].name@);
            } else {
                assert(s[i].name@ != s[j0].name@);
            }
        }
    } else {
        if spec_seq_has(s, n) {
            let j = choose|j: int| 0 <= j < s.len() && (#[trigger] s[j]).name@ == n;
            assert(j != i);
            let jt = if j < i { j } else { j - 1 };
            assert(t[jt] == s[j]);
            assert(spec_seq_has(t, n));
            lemma_lookup_at(s, j);
            lemma_lookup_at(t, jt);
        } else {
            if spec_seq_has(t, n) {
                let j = choose|j: int| 0 <= j < t.len() && (#[trigger] t[j]).name@ == n;
                let j0 = if j < i { j } else { j + 1 };
                assert(t[j] == s[j0]);
                assert(spec_seq_has(s, n));
            }
        }
    }
}

/// The deployment controller: the watched directory's scanner, one record
/// per module name, and the engine front ends shared by every compile and
/// execution.
pub struct FunctionManager {
    pub watcher: DirectoryWatcher,
    pub records: Vec<FunctionRecord>,
    pub compiler: Compiler,
    pub executor: Executor,
}

impl FunctionManager {
    /// The records, for specification purposes.
    pub open spec fn spec_records(self) -> Seq<FunctionRecord> {
        self.records@
    }

    /// A controller at rest: no duplicate names, every record well formed.
    pub open spec fn wf(self) -> bool {
        &&& spec_unique_names(self.spec_records())
        &&& (forall|i: int|
            0 <= i < self.spec_records().len() ==> (#[trigger] self.spec_records()[i]).wf())
    }

    /// Whether a record exists under this name.
    pub open spec fn spec_has(self, n: Seq<char>) -> bool {
        spec_seq_has(self.spec_records(), n)
    }

    /// The record under this name, when one exists.
    pub open spec fn spec_lookup(self, n: Seq<char>) -> Option<FunctionRecord> {
        spec_seq_lookup(self.spec_records(), n)
    }

    /// The record under this name.
    pub open spec fn spec_record(self, n: Seq<char>) -> FunctionRecord {
        self.spec_lookup(n).unwrap()
    }

    /// A controller over the directory at `path`, with no records yet;
    /// `None` when the engine cannot be created on this host.
    pub fn new(path: String) -> (r: Option<FunctionManager>)
        ensures
            r matches Some(m) ==> m.wf() && m.spec_records().len() == 0 && m.watcher.dir@
                == path@,
    {
        match new_pair() {
            Some((compiler, executor)) => Some(
                FunctionManager {
                    watcher: DirectoryWatcher::new(path),
                    records: Vec::new(),
                    compiler,
                    executor,
                },
            ),
            None => None,
        }
    }

    /// The index of the record named `name`, if any.
    fn find_index(&self, name: &str) -> (r: Option<usize>)
        requires
            self.wf(),
        ensures
            r matches Some(i) ==> 0 <= i < self.spec_records().len() && self.spec_records()[
                i as int
            ].name@ == name@ && self.spec_lookup(name@) == Some(self.spec_records()[i as int]),
            r is None ==> !self.spec_has(name@),
    {
        let mut i: usize = 0;
        while i < self.records.len()
            invariant
                self.wf(),
                i <= self.spec_records().len(),
                forall|j: int| 0 <= j < i ==> (#[trigger] self.spec_records()[j]).name@ != name@,
            decreases self.spec_records().len() - i,
        {
            if str_eq_str(self.records[i].name.as_str(), name) {
                proof {
                    lemma_lookup_at(self.spec_records(), i as int);
                }
                return Some(i);
            }
            i += 1;
        }
        None
    }

    /// A handle on a deployed function: present exactly when a record
    /// exists and is deployed, carrying the name and a clone of the record's
    /// artifact (hence the record's checksum).
    pub fn get_handle(&self, module_name: &String) -> (r: Option<ModuleHandle>)
        requires
            self.wf(),
        ensures
            r is Some <==> self.spec_has(module_name@) && self.spec_record(module_name@).status
                == FunctionStatus::Deployed,
            r matches Some(h) ==> h.name@ == module_name@ && h.compilation_unit.checksum@
                == self.spec_record(module_name@).checksum@,
    {
        match self.find_index(module_name.as_str()) {
            Some(i) => {
                let record = &self.records[i];
                match &record.compilation {
                    Some(cu) => {
                        if matches!(record.status, FunctionStatus::Deployed) {
                            Some(
                                ModuleHandle {
                                    name: module_name.clone(),
                                    compilation_unit: cu.clone(),
                                },
                            )
                        } else {
                            None
                        }
                    },
                    None => None,
                }
            },
            None => None,
        }
    }

    /// What each entry of `running_modules` satisfies: it is the clone of a
    /// record that exists under its name and is deployed.
    pub open spec fn spec_running_entry(self, m: FunctionRecord) -> bool {
        &&& self.spec_has(m.name@)
        &&& self.spec_record(m.name@).status == FunctionStatus::Deployed
        &&& m.clone_model(self.spec_record(m.name@))
    }

    /// Clones of all deployed records: exactly the records in state
    /// `Deployed`, one entry per deployed name.
    pub fn running_modules(&self) -> (r: Vec<FunctionRecord>)
        requires
            self.wf(),
        ensures
            forall|j: int| 0 <= j < r@.len() ==> self.spec_running_entry(#[trigger] r@[j]),
            forall|k: int|
                0 <= k < self.spec_records().len() && (#[trigger] self.spec_records()[k]).status
                    == FunctionStatus::Deployed ==> exists|j: int|
                    0 <= j < r@.len() && (#[trigger] r@[j]).name@
                        == self.spec_records()[k].name@,
    {
        let mut out: Vec<FunctionRecord> = Vec::new();
        let mut i: usize = 0;
        while i < self.records.len()
            invariant
                self.wf(),
                i <= self.spec_records().len(),
                forall|j: int| 0 <= j < out@.len() ==> self.spec_running_entry(
                    #[trigger] out@[j],
                ),

                forall|k: int|
                    0 <= k < i && (#[trigger] self.spec_records()[k]).status
                        == FunctionStatus::Deployed ==> exists|j: int|
                        0 <= j < out@.len() && (#[trigger] out@[j]).name@
                            == self.spec_records()[k].name@,
            decreases self.spec_records().len() - i,
        {
            let ghost prev_out = out@;
            if matches!(self.records[i].status, FunctionStatus::Deployed) {
                let m = self.records[i].clone();
                proof {
                    lemma_lookup_at(self.spec_records(), i as int);
                    assert(self.spec_record(m.name@) == self.spec_records()[i as int]);
                }
                out.push(m);
                proof {
                    assert(self.spec_running_entry(out@[out@.len() - 1]));
                }
            }
            proof {
                assert forall|k: int|
                    0 <= k < i + 1 && (#[trigger] self.spec_records()[k]).status
                        == FunctionStatus::Deployed implies exists|j: int|
                    0 <= j < out@.len() && (#[trigger] out@[j]).name@
                        == self.spec_records()[k].name@ by {
                    if k < i {
                        let j0 = choose|j0: int|
                            0 <= j0 < prev_out.len() && (#[trigger] prev_out[j0]).name@
                                == self.spec_records()[k].name@;
                        assert(out@[j0].name@ == self.spec_records()[k].name@);
                    } else {
                        assert(out@[out@.len() - 1].name@ == self.spec_records()[k].name@);
                    }
                }
            }
            i += 1;
        }
        out
    }

    /// Removes the record named `module_name`, dropping its artifact.
    /// Succeeds exactly when such a record existed; no other record moves.
    pub fn undeploy(&mut self, module_name: &String) -> (r: Result<
        FunctionStatus,
        FunctionManagerError,
    >)
        requires
            old(self).wf(),
        ensures
            final(self).wf(),
            final(self).watcher == old(self).watcher,
            final(self).compiler == old(self).compiler,
            final(self).executor == old(self).executor,
            !final(self).spec_has(module_name@),
            forall|n: Seq<char>|
                n != module_name@ ==> final(self).spec_lookup(n) == old(self).spec_lookup(n),
            r is Ok <==> old(self).spec_has(module_name@),
            r matches Ok(st) ==> st == FunctionStatus::Undeployed,
    {
        match self.find_index(module_name.as_str()) {
            Some(i) => {
                let ghost before = self.records@;
                let _removed = self.records.remove(i);
                proof {
                    assert forall|n: Seq<char>| true implies #[trigger] spec_seq_lookup(
                        self.records@,
                        n,
                    ) == (if n == module_name@ {
                        None
                    } else {
                        spec_seq_lookup(before, n)
                    }) by {
                        lemma_lookup_remove(before, i as int, n);
                    }
                }
                Ok(FunctionStatus::Undeployed)
            },
            None => Err(FunctionManagerError::UnavailableModule(module_name.clone())),
        }
    }

    /// Applies one observation: an undeploy intent destroys the record; a
    /// new name, a changed checksum or a redeploy intent compiles the bytes
    /// and installs the outcome; anything else leaves the record untouched.
    /// Returns the compile event when a compilation ran. No other record
    /// moves.
    pub fn load(&mut self, o: &ObservedFile) -> (r: Option<CompileEvent>)
        requires
            old(self).wf(),
            spec_is_wasm_file(o.path@),
        ensures
            final(self).wf(),
            final(self).watcher == old(self).watcher,
            final(self).compiler == old(self).compiler,
            final(self).executor == old(self).executor,
            forall|n: Seq<char>|
                n != spec_obs_name(*o) ==> final(self).spec_lookup(n) == old(self).spec_lookup(
                    n,
                ),
            spec_obs_status(*o).spec_wants_undeploy() ==> !final(self).spec_has(
                spec_obs_name(*o),
            ),
            !spec_obs_status(*o).spec_wants_undeploy() ==> final(self).spec_has(
                spec_obs_name(*o),
            ) && spec_stepped(
                old(self).spec_lookup(spec_obs_name(*o)),
                *o,
                final(self).spec_record(spec_obs_name(*o)),
            ),
            (r is Some) == (!spec_obs_status(*o).spec_wants_undeploy() && spec_needs_compile(
                old(self).spec_lookup(spec_obs_name(*o)),
                *o,
            )),
            r matches Some(ev) ==> ev.name@ == spec_obs_name(*o) && ev.checksum@
                == spec_obs_checksum(*o),
    {
        let name = obs_name(o);
        let next = crate::status::FunctionStatus::from_string(o.next_status.as_str());
        if next.wants_undeploy() {
            let _ = self.undeploy(&name);
            return None;
        }
        let checksum = checksum_of(&o.bytes);
        let ghost pre = *self;
        let idx_opt = self.find_index(name.as_str());
        if let Some(i) = idx_opt {
            let same = self.records[i].checksum == checksum;
            let redeploy = matches!(next, FunctionStatus::Redeploy);
            if same && !redeploy {
                proof {
                    assert(!spec_needs_compile(pre.spec_lookup(name@), *o));
                    assert(self.spec_record(name@) == pre.spec_lookup(name@).unwrap());
                }
                return None;
            }
        }
        let _ = self.deploy(o);
        Some(CompileEvent { name, checksum })
    }

    /// Compiles the observed bytes and installs the outcome under the
    /// observed name: a deployed record with a fresh artifact on success, an
    /// undeployed record remembering the exact error on failure. Succeeds
    /// exactly on compilable bytes; no other record moves.
    fn deploy(&mut self, o: &ObservedFile) -> (r: Result<(), FunctionManagerError>)
        requires
            old(self).wf(),
            spec_is_wasm_file(o.path@),
        ensures
            final(self).wf(),
            final(self).watcher == old(self).watcher,
            final(self).compiler == old(self).compiler,
            final(self).executor == old(self).executor,
            forall|n: Seq<char>|
                n != spec_obs_name(*o) ==> final(self).spec_lookup(n) == old(self).spec_lookup(
                    n,
                ),
            final(self).spec_has(spec_obs_name(*o)),
            spec_compiled_record(*o, final(self).spec_record(spec_obs_name(*o))),
            r is Ok <==> spec_compilable(o.bytes@),
            r matches Err(e) ==> (e matches FunctionManagerError::CompilationError(n, d) && n@
                == spec_obs_name(*o) && d@ == spec_error_detail(
                final(self).spec_record(spec_obs_name(*o)).last_error.unwrap(),
            )),
    {
        let name = obs_name(o);
        let checksum = checksum_of(&o.bytes);
        let idx_opt = self.find_index(name.as_str());
        let (record, outcome) = match self.compiler.compile(&o.bytes) {
            Ok(cu) => (
                FunctionRecord {
                    name: name.clone(),
                    checksum,
                    status: FunctionStatus::Deployed,
                    file_path: o.path.clone(),
                    compilation: Some(cu),
                    last_error: None,
                },
                Ok(()),
            ),
            Err(e) => {
                let detail = match &e {
                    CompileError::Parse(text) => text.clone(),
                    CompileError::MissingExport(export) => export.clone(),
                };
                (
                    FunctionRecord {
                        name: name.clone(),
                        checksum,
                        status: FunctionStatus::Undeployed,
                        file_path: o.path.clone(),
                        compilation: None,
                        last_error: Some(e),
                    },
                    Err(FunctionManagerError::CompilationError(name.clone(), detail)),
                )
            },
        };
        proof {
            crate::watcher::lemma_stem_extension(o.path@);
            assert(record.wf());
        }
        let ghost before = self.records@;
        match idx_opt {
            Some(i) => {
                let _old_record = self.records.remove(i);
                proof {
                    assert forall|n: Seq<char>| true implies #[trigger] spec_seq_lookup(
                        self.records@,
                        n,
                    ) == (if n == name@ {
                        None
                    } else {
                        spec_seq_lookup(before, n)
                    }) by {
                        lemma_lookup_remove(before, i as int, n);
                    }
                }
            },
            None => {},
        }
        let ghost mid = self.records@;
        self.records.push(record);
        proof {
            assert forall|n: Seq<char>| n != name@ implies #[trigger] spec_seq_lookup(
                self.records@,
                n,
            ) == spec_seq_lookup(mid, n) by {
                lemma_lookup_push(mid, record, n);
            }
            lemma_lookup_push(mid, record, name@);
            assert(self.spec_lookup(name@) == Some(record));
            assert forall|j: int| 0 <= j < self.records@.len() implies (
            #[trigger] self.records@[j]).wf() by {
                if j < mid.len() {
                    assert(self.records@[j] == mid[j]);
                }
            }
        }
        outcome
    }

    /// Destroys every record that no observation keeps alive: records whose
    /// file is gone from the directory, and records whose observation
    /// carries an undeploy intent. Kept records do not change.
    fn prune(&mut self, observed: &Vec<ObservedFile>)
        requires
            old(self).wf(),
            spec_obs_ok(observed@),
        ensures
            final(self).wf(),
            final(self).watcher == old(self).watcher,
            final(self).compiler == old(self).compiler,
            final(self).executor == old(self).executor,
            forall|n: Seq<char>|
                #[trigger] final(self).spec_lookup(n) == (if spec_obs_keeps(observed@, n) {
                    old(self).spec_lookup(n)
                } else {
                    None
                }),
    {
        let ghost orig = self.records@;
        let mut kept: Vec<FunctionRecord> = Vec::new();
        let ghost mut consumed: int = 0;
        while self.records.len() > 0
            invariant
                spec_obs_ok(observed@),
                orig == old(self).spec_records(),
                spec_unique_names(orig),
                forall|i: int| 0 <= i < orig.len() ==> (#[trigger] orig[i]).wf(),
                0 <= consumed <= orig.len(),
                self.records@ == orig.skip(consumed),
                kept@ == spec_keep_upto(orig, observed@, consumed),
                self.watcher == old(self).watcher,
                self.compiler == old(self).compiler,
                self.executor == old(self).executor,
            decreases self.records@.len(),
        {
            proof {
                assert(orig.skip(consumed).len() > 0);
                assert(consumed < orig.len());
            }
            let record = self.records.remove(0);
            proof {
                assert(orig.skip(consumed)[0] == orig[consumed]);
                assert(orig.skip(consumed).remove(0) =~= orig.skip(consumed + 1));
            }
            let keep = observed_keeps(observed, record.name.as_str());
            if keep {
                kept.push(record);
            }
            proof {
                consumed = consumed + 1;
            }
        }
        proof {
            assert(orig.skip(orig.len() as int) =~= Seq::<FunctionRecord>::empty());
            assert(consumed == orig.len());
        }
        self.records = kept;
        proof {
            lemma_keep_upto_lookup(orig, observed@, orig.len() as int);
            assert(orig.take(orig.len() as int) =~= orig);
            assert forall|j: int| 0 <= j < self.records@.len() implies (
            #[trigger] self.records@[j]).wf() by {
                assert(orig.contains(self.records@[j]));
                let i = choose|i: int| 0 <= i < orig.len() && orig[i] == self.records@[j];
                assert(orig[i].wf());
            }
        }
    }

    /// One reconciliation tick over a full directory observation: destroys
    /// records that are gone or asked to go, creates records for new files,
    /// compiles new or changed or redeploy-marked modules, and reports
    /// every compilation it ran, in observation order.
    pub fn tick(&mut self, observed: &Vec<ObservedFile>) -> (r: TickReport)
        requires
            old(self).wf(),
            spec_obs_ok(observed@),
        ensures
            final(self).wf(),
            final(self).watcher == old(self).watcher,
            final(self).compiler == old(self).compiler,
            final(self).executor == old(self).executor,
            spec_tick_rel(
                *old(self),
                *final(self),
                observed@,
                spec_event_views(r.compiled@),
            ),
    {
        let ghost pre = *self;
        self.prune(observed);
        proof {
            assert forall|j: int|
                0 <= j < observed@.len() && spec_obs_status(
                    #[trigger] observed@[j],
                ).spec_wants_undeploy() implies !self.spec_has(spec_obs_name(observed@[j])) by {
                let n = spec_obs_name(observed@[j]);
                assert(self.spec_lookup(n) == (if spec_obs_keeps(observed@, n) {
                    pre.spec_lookup(n)
                } else {
                    None
                }));
                if spec_obs_keeps(observed@, n) {
                    let w = choose|w: int|
                        0 <= w < observed@.len() && spec_obs_name(#[trigger] observed@[w]) == n
                            && !spec_obs_status(observed@[w]).spec_wants_undeploy();
                    if w < j {
                        assert(spec_obs_name(observed@[w]) != spec_obs_name(observed@[j]));
                    } else if j < w {
                        assert(spec_obs_name(observed@[j]) != spec_obs_name(observed@[w]));
                    }
                }
                if self.spec_has(n) {
                    assert(self.spec_lookup(n) is Some);
                }
            }
            assert forall|n: Seq<char>| #[trigger] self.spec_has(n) implies spec_obs_keeps(
                observed@,
                n,
            ) by {
                assert(self.spec_lookup(n) is Some);
                assert(self.spec_lookup(n) == (if spec_obs_keeps(observed@, n) {
                    pre.spec_lookup(n)
                } else {
                    None
                }));
            }
        }
        let mut report = TickReport { compiled: Vec::new() };
        let mut k: usize = 0;
        while k < observed.len()
            invariant
                self.wf(),
                spec_obs_ok(observed@),
                pre.wf(),
                k <= observed@.len(),
                self.watcher == pre.watcher,
                self.compiler == pre.compiler,
                self.executor == pre.executor,
                forall|j: int|
                    0 <= j < k ==> spec_tick_entry(pre, *self, #[trigger] observed@[j]),
                forall|j: int|
                    k <= j < observed@.len() && !spec_obs_status(
                        #[trigger] observed@[j],
                    ).spec_wants_undeploy() ==> self.spec_lookup(spec_obs_name(observed@[j]))
                        == pre.spec_lookup(spec_obs_name(observed@[j])),
                forall|j: int|
                    k <= j < observed@.len() && spec_obs_status(
                        #[trigger] observed@[j],
                    ).spec_wants_undeploy() ==> !self.spec_has(spec_obs_name(observed@[j])),
                forall|n: Seq<char>| #[trigger] self.spec_has(n) ==> spec_obs_keeps(
                    observed@,
                    n,
                ),
                spec_event_views(report.compiled@) == spec_compile_events(
                    pre.spec_records(),
                    observed@,
                    k as int,
                ),
            decreases observed@.len() - k,
        {
            let ghost self_before = *self;
            let ghost events_before = report.compiled@;
            let o = &observed[k];
            let ghost n_k = spec_obs_name(observed@[k as int]);
            let ev = self.load(o);
            proof {
                if !spec_obs_status(observed@[k as int]).spec_wants_undeploy() {
                    assert(self_before.spec_lookup(n_k) == pre.spec_lookup(n_k));
                }
            }
            match ev {
                Some(e) => report.compiled.push(e),
                None => {},
            }
            proof {
                // entries processed before stay stepped: load only moved n_k
                assert forall|j: int| 0 <= j < k + 1 implies spec_tick_entry(
                    pre,
                    *self,
                    #[trigger] observed@[j],
                ) by {
                    let n_j = spec_obs_name(observed@[j]);
                    if j < k {
                        assert(spec_tick_entry(pre, self_before, observed@[j]));
                        if n_j != n_k {
                            assert(self.spec_lookup(n_j) == self_before.spec_lookup(n_j));
                        } else {
                            assert(j < k <= observed@.len());
                        }
                    } else {
                        assert(spec_obs_name(observed@[k as int]) == n_j);
                    }
                }
                // events line up
                assert(spec_event_views(report.compiled@) == spec_compile_events(
                    pre.spec_records(),
                    observed@,
                    k + 1,
                )) by {
                    let o_k = observed@[k as int];
                    if !spec_obs_status(o_k).spec_wants_undeploy() && spec_needs_compile(
                        spec_seq_lookup(pre.spec_records(), n_k),
                        o_k,
                    ) {
                        assert(ev is Some);
                        assert(spec_event_views(report.compiled@) =~= spec_event_views(
                            events_before,
                        ).push((n_k, spec_obs_checksum(o_k))));
                    } else {
                        assert(ev is None);
                    }
                }
                // the unprocessed and domain invariants
                assert forall|j: int|
                    k + 1 <= j < observed@.len() && !spec_obs_status(
                        #[trigger] observed@[j],
                    ).spec_wants_undeploy() implies self.spec_lookup(spec_obs_name(observed@[j]))
                    == pre.spec_lookup(spec_obs_name(observed@[j])) by {
                    assert(spec_obs_name(observed@[j]) != n_k);
                }
                assert forall|j: int|
                    k + 1 <= j < observed@.len() && spec_obs_status(
                        #[trigger] observed@[j],
                    ).spec_wants_undeploy() implies !self.spec_has(spec_obs_name(observed@[j]))
                    by {
                    assert(spec_obs_name(observed@[j]) != n_k);
                    assert(self.spec_lookup(spec_obs_name(observed@[j]))
                        == self_before.spec_lookup(spec_obs_name(observed@[j])));
                }
                assert forall|n: Seq<char>| #[trigger] self.spec_has(n) implies spec_obs_keeps(
                    observed@,
                    n,
                ) by {
                    if n != n_k {
                        assert(self.spec_lookup(n) == self_before.spec_lookup(n));
                        assert(self_before.spec_has(n));
                    } else {
                        if !spec_obs_status(observed@[k as int]).spec_wants_undeploy() {
                            assert(spec_obs_keeps(observed@, n));
                        }
                    }
                }
            }
            k += 1;
        }
        report
    }
}

/// The module name an observation is about, as a string.
fn obs_name(o: &ObservedFile) -> (r: String)
    requires
        spec_is_wasm_file(o.path@),
    ensures
        r@ == spec_obs_name(*o),
{
    proof {
        reveal_strlit(".wasm");
    }
    let len = o.path.as_str().unicode_len();
    String::from_str(o.path.as_str().substring_char(0, len - 5))
}

/// Whether some observation keeps the record named `name` alive.
fn observed_keeps(observed: &Vec<ObservedFile>, name: &str) -> (r: bool)
    requires
        spec_obs_ok(observed@),
    ensures
        r == spec_obs_keeps(observed@, name@),
{
    let mut k: usize = 0;
    while k < observed.len()
        invariant
            spec_obs_ok(observed@),
            k <= observed@.len(),
            forall|j: int|
                0 <= j < k ==> !(spec_obs_name(#[trigger] observed@[j]) == name@
                    && !spec_obs_status(observed@[j]).spec_wants_undeploy()),
        decreases observed@.len() - k,
    {
        let o = &observed[k];
        let oname = obs_name(o);
        if str_eq_str(oname.as_str(), name) {
            let st = crate::status::FunctionStatus::from_string(o.next_status.as_str());
            if !st.wants_undeploy() {
                return true;
            }
        }
        k += 1;
    }
    false
}

/// Whether processing this observation must compile: there is no record
/// yet, the bytes changed, or a redeploy was asked for.
pub open spec fn spec_needs_compile(prev: Option<FunctionRecord>, o: ObservedFile) -> bool {
    ||| prev is None
    ||| prev.unwrap().checksum@ != spec_obs_checksum(o)
    ||| spec_obs_status(o) == FunctionStatus::Redeploy
}

/// What a compile of the observed bytes leaves as the record under the
/// observed name: deployed with a fresh artifact on success, undeployed
/// with the exact error on failure; the checksum is the bytes' in either
/// case.
pub open spec fn spec_compiled_record(o: ObservedFile, post: FunctionRecord) -> bool {
    &&& post.name@ == spec_obs_name(o)
    &&& post.file_path@ == o.path@
    &&& post.checksum@ == spec_obs_checksum(o)
    &&& if spec_compilable(o.bytes@) {
        &&& post.status == FunctionStatus::Deployed
        &&& post.compilation matches Some(cu) && cu.checksum@ == spec_obs_checksum(o)
        &&& post.last_error is None
    } else {
        &&& post.status == FunctionStatus::Undeployed
        &&& post.compilation is None
        &&& post.last_error matches Some(e) && spec_compile_error_for(o.bytes@, e)
    }
}

/// How the record under an observed name looks after the observation is
/// applied: untouched when nothing calls for a compile, the compile's
/// outcome otherwise.
pub open spec fn spec_stepped(
    prev: Option<FunctionRecord>,
    o: ObservedFile,
    post: FunctionRecord,
) -> bool {
    if !spec_needs_compile(prev, o) {
        post == prev.unwrap()
    } else {
        spec_compiled_record(o, post)
    }
}

/// The plain text a manager error carries for a rejected compile: the parse
/// error's rendering, or the missing export's name.
pub open spec fn spec_error_detail(e: CompileError) -> Seq<char> {
    match e {
        CompileError::Parse(text) => text@,
        CompileError::MissingExport(export) => export@,
    }
}

/// What one observation did to the controller across a tick.
pub open spec fn spec_tick_entry(
    pre: FunctionManager,
    post: FunctionManager,
    o: ObservedFile,
) -> bool {
    let n = spec_obs_name(o);
    if spec_obs_status(o).spec_wants_undeploy() {
        !post.spec_has(n)
    } else {
        post.spec_has(n) && spec_stepped(pre.spec_lookup(n), o, post.spec_record(n))
    }
}

/// The compilations a tick over `obs` runs against the pre-state `pre`,
/// in observation order, as (name, checksum) pairs.
pub open spec fn spec_compile_events(
    pre: Seq<FunctionRecord>,
    obs: Seq<ObservedFile>,
    upto: int,
) -> Seq<(Seq<char>, Seq<char>)>
    decreases upto,
{
    if upto <= 0 {
        Seq::empty()
    } else {
        let prev = spec_compile_events(pre, obs, upto - 1);
        let o = obs[upto - 1];
        if !spec_obs_status(o).spec_wants_undeploy() && spec_needs_compile(
            spec_seq_lookup(pre, spec_obs_name(o)),
            o,
        ) {
            prev.push((spec_obs_name(o), spec_obs_checksum(o)))
        } else {
            prev
        }
    }
}

/// The views of a report's compile events.
pub open spec fn spec_event_views(s: Seq<CompileEvent>) -> Seq<(Seq<char>, Seq<char>)> {
    s.map_values(|e: CompileEvent| (e.name@, e.checksum@))
}

/// Everything a tick guarantees: each observation applied, no record
/// without a live observation, and exactly the called-for compilations
/// reported.
pub open spec fn spec_tick_rel(
    pre: FunctionManager,
    post: FunctionManager,
    obs: Seq<ObservedFile>,
    events: Seq<(Seq<char>, Seq<char>)>,
) -> bool {
    &&& (forall|k: int| 0 <= k < obs.len() ==> spec_tick_entry(pre, post, #[trigger] obs[k]))
    &&& (forall|n: Seq<char>| #[trigger] post.spec_has(n) ==> spec_obs_keeps(obs, n))
    &&& events == spec_compile_events(pre.spec_records(), obs, obs.len() as int)
}

/// The records of `orig`, in order, that some observation keeps alive;
/// considering only the first `upto` records.
pub open spec fn spec_keep_upto(
    orig: Seq<FunctionRecord>,
    obs: Seq<ObservedFile>,
    upto: int,
) -> Seq<FunctionRecord>
    decreases upto,
{
    if upto <= 0 {
        Seq::empty()
    } else {
        let prev = spec_keep_upto(orig, obs, upto - 1);
        if spec_obs_keeps(obs, orig[upto - 1].name@) {
            prev.push(orig[upto - 1])
        } else {
            prev
        }
    }
}

/// Lookup in the kept records: a kept name resolves as in the unpruned
/// prefix, a dropped name to nothing; names stay unique and records come
/// from `orig`.
pub proof fn lemma_keep_upto_lookup(
    orig: Seq<FunctionRecord>,
    obs: Seq<ObservedFile>,
    upto: int,
)
    requires
        spec_unique_names(orig),
        0 <= upto <= orig.len(),
    ensures
        spec_unique_names(spec_keep_upto(orig, obs, upto)),
        forall|n: Seq<char>|
            #[trigger] spec_seq_lookup(spec_keep_upto(orig, obs, upto), n) == (
            if spec_obs_keeps(obs, n) {
                spec_seq_lookup(orig.take(upto), n)
            } else {
                None
            }),
        forall|i: int|
            0 <= i < spec_keep_upto(orig, obs, upto).len() ==> orig.contains(
                #[trigger] spec_keep_upto(orig, obs, upto)[i],
            ),
    decreases upto,
{
    if upto > 0 {
        lemma_keep_upto_lookup(orig, obs, upto - 1);
        let prev = spec_keep_upto(orig, obs, upto - 1);
        let cur = spec_keep_upto(orig, obs, upto);
        let m = orig[upto - 1];
        assert(orig.take(upto).drop_last() =~= orig.take(upto - 1));
        assert(orig.take(upto) =~= orig.take(upto - 1).push(m));
        assert(spec_unique_names(orig.take(upto - 1))) by {
            assert forall|a: int, b: int|
                0 <= a < b < orig.take(upto - 1).len() implies (#[trigger] orig.take(
                upto - 1,
            )[a]).name@ != (#[trigger] orig.take(upto - 1)[b]).name@ by {
                assert(orig[a].name@ != orig[b].name@);
            }
        }
        assert(!spec_seq_has(orig.take(upto - 1), m.name@)) by {
            if spec_seq_has(orig.take(upto - 1), m.name@) {
                let a = choose|a: int|
                    0 <= a < orig.take(upto - 1).len() && (#[trigger] orig.take(
                    upto - 1,
                )[a]).name@ == m.name@;
                assert(orig[a].name@ == orig[upto - 1].name@);
            }
        }
        if spec_obs_keeps(obs, m.name@) {
            assert(cur == prev.push(m));
            assert(!spec_seq_has(prev, m.name@)) by {
                if spec_seq_has(prev, m.name@) {
                    assert(spec_seq_lookup(prev, m.name@) is Some);
                }
            }
            assert forall|n: Seq<char>| true implies #[trigger] spec_seq_lookup(cur, n) == (
            if spec_obs_keeps(obs, n) {
                spec_seq_lookup(orig.take(upto), n)
            } else {
                None
            }) by {
                lemma_lookup_push(prev, m, n);
                lemma_lookup_push(orig.take(upto - 1), m, n);
            }
            assert forall|i: int| 0 <= i < cur.len() implies orig.contains(
                #[trigger] cur[i],
            ) by {
                if i < prev.len() {
                    assert(cur[i] == prev[i]);
                } else {
                    assert(cur[i] == m);
                    assert(orig[upto - 1] == m);
                }
            }
        } else {
            assert(cur == prev);
            assert forall|n: Seq<char>| true implies #[trigger] spec_seq_lookup(cur, n) == (
            if spec_obs_keeps(obs, n) {
                spec_seq_lookup(orig.take(upto), n)
            } else {
                None
            }) by {
                if spec_obs_keeps(obs, n) {
                    assert(n != m.name@);
                    lemma_lookup_push(orig.take(upto - 1), m, n);
                }
            }
        }
    }
}

/// Existence correspondence: once intents are consumed (every observation
/// carries a deploy-style intent, as after the side-files of the previous
/// tick were deleted), a record exists for exactly the module names
/// observed on disk.
pub proof fn lemma_existence_correspondence(
    pre: FunctionManager,
    post: FunctionManager,
    obs: Seq<ObservedFile>,
    events: Seq<(Seq<char>, Seq<char>)>,
)
    requires
        pre.wf(),
        spec_obs_ok(obs),
        spec_tick_rel(pre, post, obs, events),
        forall|k: int|
            0 <= k < obs.len() ==> !spec_obs_status(#[trigger] obs[k]).spec_wants_undeploy(),
    ensures
        forall|n: Seq<char>|
            #[trigger] post.spec_has(n) <==> exists|k: int|
                0 <= k < obs.len() && spec_obs_name(#[trigger] obs[k]) == n,
{
    assert forall|n: Seq<char>| true implies (#[trigger] post.spec_has(n) <==> exists|k: int|
        0 <= k < obs.len() && spec_obs_name(#[trigger] obs[k]) == n) by {
        if post.spec_has(n) {
            assert(spec_obs_keeps(obs, n));
        }
        if exists|k: int| 0 <= k < obs.len() && spec_obs_name(#[trigger] obs[k]) == n {
            let k = choose|k: int| 0 <= k < obs.len() && spec_obs_name(#[trigger] obs[k]) == n;
            assert(spec_tick_entry(pre, post, obs[k]));
        }
    }
}

/// Artifact freshness: a deployed record's artifact carries exactly the
/// record's checksum, which a tick sets from the module bytes at the most
/// recent compile.
pub proof fn lemma_artifact_freshness(m: FunctionManager, n: Seq<char>)
    requires
        m.wf(),
        m.spec_has(n),
        m.spec_record(n).status == FunctionStatus::Deployed,
    ensures
        m.spec_record(n).compilation matches Some(cu) && cu.checksum@
            == m.spec_record(n).checksum@,
{
    let i = choose|i: int|
        0 <= i < m.spec_records().len() && (#[trigger] m.spec_records()[i]).name@ == n;
    assert(m.spec_records()[i].wf());
}

/// No events arise when no observation calls for a compile.
proof fn lemma_no_compile_events(
    pre: Seq<FunctionRecord>,
    obs: Seq<ObservedFile>,
    upto: int,
)
    requires
        forall|k: int|
            0 <= k < upto ==> !(!spec_obs_status(#[trigger] obs[k]).spec_wants_undeploy()
                && spec_needs_compile(spec_seq_lookup(pre, spec_obs_name(obs[k])), obs[k])),
    ensures
        spec_compile_events(pre, obs, upto).len() == 0,
    decreases upto,
{
    if upto > 0 {
        lemma_no_compile_events(pre, obs, upto - 1);
    }
}

/// At-most-one compile: a second tick over the same observation, absent
/// redeploy intents, compiles nothing — each (name, checksum) pair was
/// compiled, or deliberately left alone, by the first tick already.
pub proof fn lemma_at_most_one_compile(
    pre: FunctionManager,
    mid: FunctionManager,
    post: FunctionManager,
    obs: Seq<ObservedFile>,
    events1: Seq<(Seq<char>, Seq<char>)>,
    events2: Seq<(Seq<char>, Seq<char>)>,
)
    requires
        pre.wf(),
        mid.wf(),
        spec_obs_ok(obs),
        spec_tick_rel(pre, mid, obs, events1),
        spec_tick_rel(mid, post, obs, events2),
        forall|k: int|
            0 <= k < obs.len() ==> spec_obs_status(#[trigger] obs[k])
                != FunctionStatus::Redeploy,
    ensures
        events2.len() == 0,
{
    assert forall|k: int|
        0 <= k < obs.len() implies !(!spec_obs_status(#[trigger] obs[k]).spec_wants_undeploy()
        && spec_needs_compile(
        spec_seq_lookup(mid.spec_records(), spec_obs_name(obs[k])),
        obs[k],
    )) by {
        let o = obs[k];
        let n = spec_obs_name(o);
        if !spec_obs_status(o).spec_wants_undeploy() {
            assert(spec_tick_entry(pre, mid, o));
            assert(mid.spec_has(n));
            let stepped = mid.spec_record(n);
            assert(spec_stepped(pre.spec_lookup(n), o, stepped));
            assert(stepped.checksum@ == spec_obs_checksum(o)) by {
                if !spec_needs_compile(pre.spec_lookup(n), o) {
                    assert(stepped == pre.spec_lookup(n).unwrap());
                }
            }
            assert(spec_seq_lookup(mid.spec_records(), n) == Some(stepped));
            assert(!spec_needs_compile(spec_seq_lookup(mid.spec_records(), n), o));
        }
    }
    lemma_no_compile_events(mid.spec_records(), obs, obs.len() as int);
}

} // verus!
