//! The supervised-process registry: named process specifications, their
//! cached run status, and the operations that start, stop, restart and
//! reconcile them in registration order.

use crate::os;
use vstd::prelude::*;
use vstd::rwlock::{RwLock, RwLockPredicate};

verus! {

/// Cached belief about a supervised process. `Running` means a spawn
/// succeeded and no exit has been observed since; it is reconciled against
/// the operating system by `update_status`.
#[derive(Debug, Clone, Copy, PartialEq, Eq, Structural)]
pub enum ProcessStatus {
    Running,
    Stopped,
}

impl ProcessStatus {
    /// The opposite status.
    pub fn not(self) -> (r: Self)
        ensures
            r == (match self {
                ProcessStatus::Running => ProcessStatus::Stopped,
                ProcessStatus::Stopped => ProcessStatus::Running,
            }),
    {
        match self {
            ProcessStatus::Running => ProcessStatus::Stopped,
            ProcessStatus::Stopped => ProcessStatus::Running,
        }
    }
}

/// Why a registry operation failed.
#[derive(Debug, PartialEq, Eq)]
pub enum AppError {
    /// The given id is not registered.
    NotFound(String),
    /// A process with the given id is already registered.
    DuplicateId(String),
    /// An OS-level spawn, kill or wait failed; carries the OS error text.
    SubProcess(String),
}

pub type AppRuntimeResult<T> = Result<T, AppError>;

/// One supervised entry: the immutable process specification (`id`,
/// `command`, `args`), the OS child handle while one is believed alive, and
/// the cached status.
pub struct AppProcess {
    pub id: String,
    pub command: String,
    pub process: Option<tokio::process::Child>,
    pub status: ProcessStatus,
    pub args: Vec<String>,
}

/// What a registry entry looks like in contracts: the specification fields
/// as sequences, plus the cached status. The OS handle itself is opaque and
/// does not appear.
pub struct EntryView {
    pub id: Seq<char>,
    pub command: Seq<char>,
    pub args: Seq<Seq<char>>,
    pub status: ProcessStatus,
}

impl View for AppProcess {
    type V = EntryView;

    open spec fn view(&self) -> EntryView {
        EntryView {
            id: self.id@,
            command: self.command@,
            args: self.args.deep_view(),
            status: self.status,
        }
    }
}

impl AppProcess {
    /// An entry holds an OS handle exactly while it is believed `Running`;
    /// the handle may belong to a process that has already exited, until
    /// the registry is reconciled.
    pub open spec fn wf(self) -> bool {
        self.status == ProcessStatus::Running <==> self.process is Some
    }

    /// A fresh, not-yet-started specification under the given id.
    pub fn new(id: &str, command: &str, args: Vec<String>) -> (r: Self)
        ensures
            r@ == (EntryView {
                id: id@,
                command: command@,
                args: args.deep_view(),
                status: ProcessStatus::Stopped,
            }),
            r.wf(),
            r.process is None,
    {
        AppProcess {
            id: id.to_owned(),
            command: command.to_owned(),
            process: None,
            status: ProcessStatus::Stopped,
            args,
        }
    }
}

/// `true` when some entry of `v` carries the id.
pub open spec fn spec_contains_id(v: Seq<EntryView>, id: Seq<char>) -> bool {
    exists|i: int| 0 <= i < v.len() && v[i].id == id
}

/// Two entry views describe the same process specification: only the
/// cached status may differ.
pub open spec fn same_spec(a: EntryView, b: EntryView) -> bool {
    a.id == b.id && a.command == b.command && a.args == b.args
}

/// How a specification looks right after registration: status `Stopped`,
/// no OS handle.
pub open spec fn registered_view(a: AppProcess) -> EntryView {
    EntryView { id: a.id@, command: a.command@, args: a.args.deep_view(), status: ProcessStatus::Stopped }
}

/// How a specification looks right after being registered and started in
/// one step: status `Running`.
pub open spec fn started_view(a: AppProcess) -> EntryView {
    EntryView { id: a.id@, command: a.command@, args: a.args.deep_view(), status: ProcessStatus::Running }
}

/// How an aborted batch registration leaves the registry: the first `k`
/// specifications are registered, and the one at `k` and everything after
/// it were not taken.
pub open spec fn add_batch_halted(
    pre: Seq<EntryView>,
    post: Seq<EntryView>,
    apps: Seq<AppProcess>,
    k: int,
) -> bool {
    &&& 0 <= k < apps.len()
    &&& post == pre + apps.subrange(0, k).map_values(|a: AppProcess| registered_view(a))
}

/// Likewise for an aborted register-and-start batch: the first `k`
/// specifications are registered and running.
pub open spec fn start_batch_halted(
    pre: Seq<EntryView>,
    post: Seq<EntryView>,
    apps: Seq<AppProcess>,
    k: int,
) -> bool {
    &&& 0 <= k < apps.len()
    &&& post == pre + apps.subrange(0, k).map_values(|a: AppProcess| started_view(a))
}

/// How an aborted batch walk leaves the entries: everything before the
/// failing position has been started and is `Running`, and the failing
/// entry and everything after it are exactly as they were.
pub open spec fn halted_walk(pre: Seq<EntryView>, post: Seq<EntryView>, k: int) -> bool {
    &&& 0 <= k < pre.len()
    &&& forall|j: int| 0 <= j < k ==> (#[trigger] post[j]).status == ProcessStatus::Running
    &&& forall|j: int| k <= j < pre.len() ==> #[trigger] post[j] == pre[j]
}

/// Entry views with the same specification and the same status are equal.
proof fn lemma_same_entry(a: EntryView, b: EntryView)
    requires
        same_spec(a, b),
        a.status == b.status,
    ensures
        a == b,
{
}

/// Taking an element out of a sequence and putting another back in the
/// same place is an update.
proof fn lemma_remove_insert_is_update<A>(s: Seq<A>, i: int, a: A)
    requires
        0 <= i < s.len(),
    ensures
        s.remove(i).insert(i, a) =~= s.update(i, a),
{
}

/// Spawns the entry's command, handing back the entry marked `Running` on
/// success and otherwise unchanged (in particular, its prior status) with
/// the spawn error.
fn spawn_into(h: AppProcess) -> (r: (AppProcess, AppRuntimeResult<()>))
    requires
        h.wf(),
    ensures
        r.0.wf(),
        same_spec(r.0@, h@),
        match r.1 {
            Ok(_) => r.0@.status == ProcessStatus::Running,
            Err(e) => e matches AppError::SubProcess(_) && r.0@.status == h@.status,
        },
{
    let AppProcess { id, command, process, status, args } = h;
    match os::spawn_child(&command, &args) {
        Ok(c) => (
            AppProcess { id, command, process: Some(c), status: ProcessStatus::Running, args },
            Ok(()),
        ),
        Err(m) => (
            AppProcess { id, command, process, status, args },
            Err(AppError::SubProcess(m)),
        ),
    }
}

/// Stops the entry: a `Running` entry's process is killed immediately and
/// the entry marked `Stopped`; a `Stopped` entry is handed back untouched
/// with success. A failed kill leaves the prior status in place.
fn stop_into(h: AppProcess) -> (r: (AppProcess, AppRuntimeResult<()>))
    requires
        h.wf(),
    ensures
        r.0.wf(),
        same_spec(r.0@, h@),
        h@.status == ProcessStatus::Stopped ==> r.0@ == h@ && r.1 is Ok,
        match r.1 {
            Ok(_) => r.0@.status == ProcessStatus::Stopped,
            Err(e) => e matches AppError::SubProcess(_) && r.0@.status == h@.status,
        },
{
    let AppProcess { id, command, process, status, args } = h;
    match status {
        ProcessStatus::Stopped => (AppProcess { id, command, process, status, args }, Ok(())),
        ProcessStatus::Running => {
            let mut c = process.unwrap();
            match os::kill_child(&mut c) {
                Ok(_) => (
                    AppProcess {
                        id,
                        command,
                        process: None,
                        status: ProcessStatus::Stopped,
                        args,
                    },
                    Ok(()),
                ),
                Err(m) => (
                    AppProcess {
                        id,
                        command,
                        process: Some(c),
                        status: ProcessStatus::Running,
                        args,
                    },
                    Err(AppError::SubProcess(m)),
                ),
            }
        },
    }
}

/// Restarts the entry: kills its process if one is believed running, then
/// respawns the same specification. Ends `Running` on success; any failure
/// leaves the prior status in place.
fn restart_into(h: AppProcess) -> (r: (AppProcess, AppRuntimeResult<()>))
    requires
        h.wf(),
    ensures
        r.0.wf(),
        same_spec(r.0@, h@),
        match r.1 {
            Ok(_) => r.0@.status == ProcessStatus::Running,
            Err(e) => e matches AppError::SubProcess(_) && r.0@.status == h@.status,
        },
{
    let AppProcess { id, command, process, status, args } = h;
    match status {
        ProcessStatus::Stopped => {
            match os::spawn_child(&command, &args) {
                Ok(c) => (
                    AppProcess {
                        id,
                        command,
                        process: Some(c),
                        status: ProcessStatus::Running,
                        args,
                    },
                    Ok(()),
                ),
                Err(m) => (
                    AppProcess { id, command, process, status, args },
                    Err(AppError::SubProcess(m)),
                ),
            }
        },
        ProcessStatus::Running => {
            let mut c = process.unwrap();
            match os::kill_child(&mut c) {
                Err(m) => (
                    AppProcess {
                        id,
                        command,
                        process: Some(c),
                        status: ProcessStatus::Running,
                        args,
                    },
                    Err(AppError::SubProcess(m)),
                ),
                Ok(_) => {
                    match os::spawn_child(&command, &args) {
                        Ok(c2) => (
                            AppProcess {
                                id,
                                command,
                                process: Some(c2),
                                status: ProcessStatus::Running,
                                args,
                            },
                            Ok(()),
                        ),
                        Err(m) => (
                            // The old handle stays in place: the entry still
                            // claims its prior status rather than silently
                            // claiming a successful restart.
                            AppProcess {
                                id,
                                command,
                                process: Some(c),
                                status: ProcessStatus::Running,
                                args,
                            },
                            Err(AppError::SubProcess(m)),
                        ),
                    }
                },
            }
        },
    }
}

/// Restarts the entry through a verification run: kills its process if one
/// is believed running, spawns the command once with the verification flag
/// appended to its arguments and waits for that run to exit, and only then
/// respawns the long-running instance with the original arguments. The
/// verification run's completion, not its exit status, gates the respawn.
/// Ends `Running` on success; any failure leaves the prior status in place.
fn ver_update_into(h: AppProcess) -> (r: (AppProcess, AppRuntimeResult<()>))
    requires
        h.wf(),
    ensures
        r.0.wf(),
        same_spec(r.0@, h@),
        match r.1 {
            Ok(_) => r.0@.status == ProcessStatus::Running,
            Err(e) => e matches AppError::SubProcess(_) && r.0@.status == h@.status,
        },
{
    let AppProcess { id, command, process, status, args } = h;
    let (process, status, kill_err) = match status {
        ProcessStatus::Stopped => (process, status, None),
        ProcessStatus::Running => {
            let mut c = process.unwrap();
            let e = match os::kill_child(&mut c) {
                Ok(_) => None,
                Err(m) => Some(m),
            };
            (Some(c), ProcessStatus::Running, e)
        },
    };
    if let Some(m) = kill_err {
        return (
            AppProcess { id, command, process, status, args },
            Err(AppError::SubProcess(m)),
        );
    }
    let mut ver_args = args.clone();
    ver_args.push("--update".to_owned());
    match os::spawn_child(&command, &ver_args) {
        Err(m) => (
            AppProcess { id, command, process, status, args },
            Err(AppError::SubProcess(m)),
        ),
        Ok(mut canary) => {
            match os::wait_child(&mut canary) {
                Err(m) => (
                    AppProcess { id, command, process, status, args },
                    Err(AppError::SubProcess(m)),
                ),
                Ok(_) => {
                    match os::spawn_child(&command, &args) {
                        Ok(c2) => (
                            AppProcess {
                                id,
                                command,
                                process: Some(c2),
                                status: ProcessStatus::Running,
                                args,
                            },
                            Ok(()),
                        ),
                        Err(m) => (
                            AppProcess { id, command, process, status, args },
                            Err(AppError::SubProcess(m)),
                        ),
                    }
                },
            }
        },
    }
}

/// Which transform an operation applies to an entry.
#[derive(Clone, Copy)]
enum Op {
    Start,
    Stop,
    Restart,
    VerUpdate,
}

/// The insertion-ordered collection of supervised entries. Ids are unique;
/// batch operations walk the entries in registration order.
///
/// The entries live in a vector whose order is registration order, with id
/// uniqueness as an invariant, rather than in a map keyed by id: an entry
/// holds a live OS handle, which the verifier can only treat as opaque, so
/// the contents of an id-keyed map could not be stated over plain values,
/// and operating on an entry in place would need a mutable borrow into the
/// collection, which verified code cannot return.
pub struct Registry {
    entries: Vec<AppProcess>,
}

impl View for Registry {
    type V = Seq<EntryView>;

    closed spec fn view(&self) -> Seq<EntryView> {
        self.entries@.map_values(|h: AppProcess| h@)
    }
}

impl Registry {
    /// Every held OS handle is consistent with its cached status.
    pub closed spec fn handles_ok(self) -> bool {
        forall|i: int| 0 <= i < self.entries@.len() ==> (#[trigger] self.entries@[i]).wf()
    }

    /// Registry invariant: handle consistency plus unique ids.
    pub open spec fn wf(self) -> bool {
        &&& self.handles_ok()
        &&& forall|i: int, j: int|
            0 <= i < j < self@.len() ==> (#[trigger] self@[i]).id != (#[trigger] self@[j]).id
    }

    /// An empty registry.
    pub fn new() -> (r: Self)
        ensures
            r.wf(),
            r@ == Seq::<EntryView>::empty(),
    {
        let r = Registry { entries: Vec::new() };
        proof {
            assert(r@ =~= Seq::<EntryView>::empty());
        }
        r
    }

    /// The position of the entry carrying `id`, if any.
    fn find_index(&self, id: &str) -> (r: Option<usize>)
        ensures
            match r {
                Some(i) => i < self@.len() && self@[i as int].id == id@,
                None => !spec_contains_id(self@, id@),
            },
    {
        let n = self.entries.len();
        let mut i: usize = 0;
        while i < n
            invariant
                i <= n,
                n == self@.len(),
                forall|j: int| 0 <= j < i ==> (#[trigger] self@[j]).id != id@,
            decreases n - i,
        {
            if os::str_eq(self.entries[i].id.as_str(), id) {
                return Some(i);
            }
            i = i + 1;
        }
        None
    }

    /// Registers a specification under its id with status `Stopped` and no
    /// OS handle; fails with `DuplicateId` when the id is already present,
    /// leaving the registry unchanged. Any handle or status carried by the
    /// argument is discarded: a registered entry always begins stopped.
    pub fn add_process(&mut self, app: AppProcess) -> (r: AppRuntimeResult<()>)
        requires
            old(self).wf(),
        ensures
            final(self).wf(),
            match r {
                Ok(_) => !spec_contains_id(old(self)@, app.id@) && final(self)@ == old(self)@.push(
                    EntryView {
                        id: app.id@,
                        command: app.command@,
                        args: app.args.deep_view(),
                        status: ProcessStatus::Stopped,
                    },
                ),
                Err(e) => {
                    &&& e matches AppError::DuplicateId(d) && d@ == app.id@
                    &&& spec_contains_id(old(self)@, app.id@)
                    &&& final(self)@ == old(self)@
                },
            },
    {
        match self.find_index(app.id.as_str()) {
            Some(_) => Err(AppError::DuplicateId(app.id)),
            None => {
                let AppProcess { id, command, args, .. } = app;
                let handle = AppProcess {
                    id,
                    command,
                    process: None,
                    status: ProcessStatus::Stopped,
                    args,
                };
                let ghost hv = handle@;
                self.entries.push(handle);
                proof {
                    assert(self@ =~= old(self)@.push(hv));
                    assert forall|i: int, j: int| 0 <= i < j < self@.len() implies (
                    #[trigger] self@[i]).id != (#[trigger] self@[j]).id by {
                        if j < old(self)@.len() {
                            assert(old(self)@[i].id != old(self)@[j].id);
                        } else {
                            assert(!spec_contains_id(old(self)@, hv.id));
                            assert(old(self)@[i].id != hv.id);
                        }
                    }
                }
                Ok(())
            },
        }
    }

    /// Registers the specification, then spawns it immediately. Either both
    /// steps succeed — the entry is appended `Running` — or the operation
    /// fails atomically and the registry is unchanged: a `DuplicateId` is
    /// detected before anything is spawned, and a spawn failure registers
    /// nothing.
    pub fn add_process_then_run(&mut self, app: AppProcess) -> (r: AppRuntimeResult<()>)
        requires
            old(self).wf(),
        ensures
            final(self).wf(),
            match r {
                Ok(_) => !spec_contains_id(old(self)@, app.id@) && final(self)@ == old(self)@.push(
                    EntryView {
                        id: app.id@,
                        command: app.command@,
                        args: app.args.deep_view(),
                        status: ProcessStatus::Running,
                    },
                ),
                Err(e) => {
                    &&& final(self)@ == old(self)@
                    &&& match e {
                        AppError::DuplicateId(d) => d@ == app.id@ && spec_contains_id(
                            old(self)@,
                            app.id@,
                        ),
                        AppError::SubProcess(_) => !spec_contains_id(old(self)@, app.id@),
                        AppError::NotFound(_) => false,
                    }
                },
            },
    {
        match self.find_index(app.id.as_str()) {
            Some(_) => Err(AppError::DuplicateId(app.id)),
            None => {
                let AppProcess { id, command, args, .. } = app;
                let fresh = AppProcess {
                    id,
                    command,
                    process: None,
                    status: ProcessStatus::Stopped,
                    args,
                };
                let (started, res) = spawn_into(fresh);
                match res {
                    Err(e) => Err(e),
                    Ok(_) => {
                        let ghost hv = started@;
                        self.entries.push(started);
                        proof {
                            assert(self@ =~= old(self)@.push(hv));
                            assert forall|i: int, j: int| 0 <= i < j < self@.len() implies (
                            #[trigger] self@[i]).id != (#[trigger] self@[j]).id by {
                                if j < old(self)@.len() {
                                    assert(old(self)@[i].id != old(self)@[j].id);
                                } else {
                                    assert(!spec_contains_id(old(self)@, hv.id));
                                    assert(old(self)@[i].id != hv.id);
                                }
                            }
                        }
                        Ok(())
                    },
                }
            },
        }
    }

    /// Registers each specification in order; stops at the first colliding
    /// id, keeping the entries registered so far.
    pub fn add_batch(&mut self, apps: Vec<AppProcess>) -> (r: AppRuntimeResult<()>)
        requires
            old(self).wf(),
        ensures
            final(self).wf(),
            old(self)@.len() <= final(self)@.len(),
            final(self)@.subrange(0, old(self)@.len() as int) == old(self)@,
            forall|j: int|
                old(self)@.len() <= j < final(self)@.len() ==> (#[trigger] final(self)@[j]).status
                    == ProcessStatus::Stopped,
            match r {
                Ok(_) => final(self)@ == old(self)@ + apps@.map_values(
                    |a: AppProcess| registered_view(a),
                ),
                Err(e) => e matches AppError::DuplicateId(d) && exists|k: int|
                    (#[trigger] add_batch_halted(old(self)@, final(self)@, apps@, k))
                        && apps@[k].id@ == d@ && spec_contains_id(final(self)@, d@),
            },
    {
        let ghost all = apps@;
        let mut pending = apps;
        let ghost done: int = 0;
        while pending.len() > 0
            invariant
                all == apps@,
                old(self).wf(),
                self.wf(),
                0 <= done <= all.len(),
                pending@ =~= all.subrange(done, all.len() as int),
                self@ =~= old(self)@ + all.subrange(0, done).map_values(
                    |a: AppProcess| registered_view(a),
                ),
            decreases pending.len(),
        {
            let a = pending.remove(0);
            match self.add_process(a) {
                Ok(_) => {},
                Err(e) => {
                    proof {
                        assert(a == all[done]);
                        assert(add_batch_halted(old(self)@, self@, all, done));
                        assert(self@.subrange(0, old(self)@.len() as int) =~= old(self)@);
                        let d = e->DuplicateId_0;
                        assert(all[done].id@ == d@);
                        assert(spec_contains_id(self@, d@));
                        assert(exists|k: int|
                            (#[trigger] add_batch_halted(old(self)@, self@, all, k))
                                && all[k].id@ == d@ && spec_contains_id(self@, d@));
                    }
                    return Err(e);
                },
            }
            proof {
                done = done + 1;
                assert(self@ =~= old(self)@ + all.subrange(0, done).map_values(
                    |x: AppProcess| registered_view(x),
                )) by {
                    assert(all.subrange(0, done) =~= all.subrange(0, done - 1).push(
                        all[done - 1],
                    ));
                    assert(all.subrange(0, done).map_values(|x: AppProcess| registered_view(x))
                        =~= all.subrange(0, done - 1).map_values(
                        |x: AppProcess| registered_view(x),
                    ).push(registered_view(all[done - 1])));
                }
            }
        }
        proof {
            assert(all.subrange(0, done) =~= all);
            assert(self@.subrange(0, old(self)@.len() as int) =~= old(self)@);
        }
        Ok(())
    }

    /// Registers and immediately starts each specification, in order (see
    /// `add_process_then_run`); stops at the first colliding id or spawn
    /// failure, keeping the entries registered and started so far.
    pub fn start_batch(&mut self, apps: Vec<AppProcess>) -> (r: AppRuntimeResult<()>)
        requires
            old(self).wf(),
        ensures
            final(self).wf(),
            old(self)@.len() <= final(self)@.len(),
            final(self)@.subrange(0, old(self)@.len() as int) == old(self)@,
            forall|j: int|
                old(self)@.len() <= j < final(self)@.len() ==> (#[trigger] final(self)@[j]).status
                    == ProcessStatus::Running,
            match r {
                Ok(_) => final(self)@ == old(self)@ + apps@.map_values(
                    |a: AppProcess| started_view(a),
                ),
                Err(e) => exists|k: int|
                    (#[trigger] start_batch_halted(old(self)@, final(self)@, apps@, k)) && (match e {
                        AppError::DuplicateId(d) => apps@[k].id@ == d@ && spec_contains_id(
                            final(self)@,
                            d@,
                        ),
                        AppError::SubProcess(_) => !spec_contains_id(final(self)@, apps@[k].id@),
                        AppError::NotFound(_) => false,
                    }),
            },
    {
        let ghost all = apps@;
        let mut pending = apps;
        let ghost done: int = 0;
        while pending.len() > 0
            invariant
                all == apps@,
                self.wf(),
                0 <= done <= all.len(),
                pending@ =~= all.subrange(done, all.len() as int),
                self@ =~= old(self)@ + all.subrange(0, done).map_values(
                    |a: AppProcess| started_view(a),
                ),
            decreases pending.len(),
        {
            let a = pending.remove(0);
            match self.add_process_then_run(a) {
                Ok(_) => {},
                Err(e) => {
                    proof {
                        assert(a == all[done]);
                        assert(start_batch_halted(old(self)@, self@, all, done));
                        assert(self@.subrange(0, old(self)@.len() as int) =~= old(self)@);
                        assert(exists|k: int|
                            (#[trigger] start_batch_halted(old(self)@, self@, all, k)) && (
                            match e {
                                AppError::DuplicateId(d) => all[k].id@ == d@ && spec_contains_id(
                                    self@,
                                    d@,
                                ),
                                AppError::SubProcess(_) => !spec_contains_id(
                                    self@,
                                    all[k].id@,
                                ),
                                AppError::NotFound(_) => false,
                            }));
                    }
                    return Err(e);
                },
            }
            proof {
                done = done + 1;
                assert(self@ =~= old(self)@ + all.subrange(0, done).map_values(
                    |x: AppProcess| started_view(x),
                )) by {
                    assert(all.subrange(0, done) =~= all.subrange(0, done - 1).push(
                        all[done - 1],
                    ));
                    assert(all.subrange(0, done).map_values(|x: AppProcess| started_view(x))
                        =~= all.subrange(0, done - 1).map_values(
                        |x: AppProcess| started_view(x),
                    ).push(started_view(all[done - 1])));
                }
            }
        }
        proof {
            assert(all.subrange(0, done) =~= all);
            assert(self@.subrange(0, old(self)@.len() as int) =~= old(self)@);
        }
        Ok(())
    }

    /// Spawns every registered entry, in registration order, marking each
    /// `Running` as it goes. The first spawn failure stops the walk:
    /// entries already started stay `Running`, the failing entry and the
    /// rest keep their prior state, and the first error is reported.
    pub fn start_all(&mut self) -> (r: AppRuntimeResult<()>)
        requires
            old(self).wf(),
        ensures
            final(self).wf(),
            final(self)@.len() == old(self)@.len(),
            forall|j: int|
                0 <= j < old(self)@.len() ==> same_spec(
                    #[trigger] final(self)@[j],
                    old(self)@[j],
                ),
            r is Ok ==> forall|j: int|
                0 <= j < final(self)@.len() ==> (#[trigger] final(self)@[j]).status
                    == ProcessStatus::Running,
            r matches Err(e) ==> e matches AppError::SubProcess(_) && exists|k: int|
                #[trigger] halted_walk(old(self)@, final(self)@, k),
    {
        self.walk_all(Op::Start)
    }

    /// Restarts every registered entry, in registration order: each one is
    /// stopped if believed running, then respawned from its specification.
    /// The first failure stops the walk as in `start_all`.
    pub fn restart_all(&mut self) -> (r: AppRuntimeResult<()>)
        requires
            old(self).wf(),
        ensures
            final(self).wf(),
            final(self)@.len() == old(self)@.len(),
            forall|j: int|
                0 <= j < old(self)@.len() ==> same_spec(
                    #[trigger] final(self)@[j],
                    old(self)@[j],
                ),
            r is Ok ==> forall|j: int|
                0 <= j < final(self)@.len() ==> (#[trigger] final(self)@[j]).status
                    == ProcessStatus::Running,
            r matches Err(e) ==> e matches AppError::SubProcess(_) && exists|k: int|
                #[trigger] halted_walk(old(self)@, final(self)@, k),
    {
        self.walk_all(Op::Restart)
    }

    /// Restarts every registered entry through a verification run, in
    /// registration order (see `version_update_process`). The first failure
    /// stops the walk as in `start_all`.
    pub fn version_update_all(&mut self) -> (r: AppRuntimeResult<()>)
        requires
            old(self).wf(),
        ensures
            final(self).wf(),
            final(self)@.len() == old(self)@.len(),
            forall|j: int|
                0 <= j < old(self)@.len() ==> same_spec(
                    #[trigger] final(self)@[j],
                    old(self)@[j],
                ),
            r is Ok ==> forall|j: int|
                0 <= j < final(self)@.len() ==> (#[trigger] final(self)@[j]).status
                    == ProcessStatus::Running,
            r matches Err(e) ==> e matches AppError::SubProcess(_) && exists|k: int|
                #[trigger] halted_walk(old(self)@, final(self)@, k),
    {
        self.walk_all(Op::VerUpdate)
    }

    /// Walks the entries in order, applying the operation; stops at the
    /// first failure.
    fn walk_all(&mut self, kind: Op) -> (r: AppRuntimeResult<()>)
        requires
            old(self).wf(),
            kind != Op::Stop,
        ensures
            final(self).wf(),
            final(self)@.len() == old(self)@.len(),
            forall|j: int|
                0 <= j < old(self)@.len() ==> same_spec(
                    #[trigger] final(self)@[j],
                    old(self)@[j],
                ),
            r is Ok ==> forall|j: int|
                0 <= j < final(self)@.len() ==> (#[trigger] final(self)@[j]).status
                    == ProcessStatus::Running,
            r matches Err(e) ==> e matches AppError::SubProcess(_) && exists|k: int|
                #[trigger] halted_walk(old(self)@, final(self)@, k),
    {
        let n = self.entries.len();
        let mut i: usize = 0;
        while i < n
            invariant
                i <= n,
                n == self@.len(),
                old(self)@.len() == n,
                kind != Op::Stop,
                self.wf(),
                forall|j: int|
                    0 <= j < n ==> same_spec(#[trigger] self@[j], old(self)@[j]),
                forall|j: int|
                    0 <= j < i ==> (#[trigger] self@[j]).status == ProcessStatus::Running,
                forall|j: int| i <= j < n ==> #[trigger] self@[j] == old(self)@[j],
            decreases n - i,
        {
            let ghost prev = self@;
            let ghost prev_entries = self.entries@;
            let h = self.entries.remove(i);
            let (h2, res) = match kind {
                Op::Start => spawn_into(h),
                Op::Stop => stop_into(h),
                Op::Restart => restart_into(h),
                Op::VerUpdate => ver_update_into(h),
            };
            let ghost hv = h2@;
            self.entries.insert(i, h2);
            proof {
                self.lemma_update_entry(prev, prev_entries, i as int, h2);
            }
            if let Err(e) = res {
                proof {
                    lemma_same_entry(hv, prev[i as int]);
                    assert(self@[i as int] == old(self)@[i as int]);
                    assert(halted_walk(old(self)@, self@, i as int));
                }
                return Err(e);
            }
            i = i + 1;
        }
        Ok(())
    }

    /// After the entry at `i` was taken out, transformed and put back, the
    /// registry is its old self with position `i` updated — every other
    /// position unchanged — and still well-formed whenever the transform
    /// kept the entry's specification and handle consistency.
    proof fn lemma_update_entry(
        &self,
        prev: Seq<EntryView>,
        prev_entries: Seq<AppProcess>,
        i: int,
        h2: AppProcess,
    )
        requires
            0 <= i < prev_entries.len(),
            prev =~= prev_entries.map_values(|h: AppProcess| h@),
            self.entries@ == prev_entries.remove(i).insert(i, h2),
            forall|k: int| 0 <= k < prev_entries.len() ==> (#[trigger] prev_entries[k]).wf(),
            h2.wf(),
            same_spec(h2@, prev[i]),
            forall|a: int, b: int|
                0 <= a < b < prev.len() ==> (#[trigger] prev[a]).id != (#[trigger] prev[b]).id,
        ensures
            self@ =~= prev.update(i, h2@),
            forall|j: int| 0 <= j < prev.len() && j != i ==> #[trigger] self@[j] == prev[j],
            self@[i] == h2@,
            self.wf(),
    {
        lemma_remove_insert_is_update(prev_entries, i, h2);
        assert(self.entries@ =~= prev_entries.update(i, h2));
        assert(self@ =~= prev.update(i, h2@));
        assert forall|j: int| 0 <= j < prev.len() && j != i implies #[trigger] self@[j]
            == prev[j] by {
            assert(self@[j] == prev.update(i, h2@)[j]);
        }
        assert forall|k: int| 0 <= k < self.entries@.len() implies (
        #[trigger] self.entries@[k]).wf() by {
            if k != i {
                assert(self.entries@[k] == prev_entries[k]);
            }
        }
        self.lemma_wf_after_update(prev, i);
    }

    /// Ids and handle consistency are untouched by an update that keeps the
    /// entry's specification.
    proof fn lemma_wf_after_update(&self, prev: Seq<EntryView>, i: int)
        requires
            0 <= i < prev.len(),
            self@.len() == prev.len(),
            self@ =~= prev.update(i, self@[i]),
            same_spec(self@[i], prev[i]),
            self.handles_ok(),
            forall|a: int, b: int|
                0 <= a < b < prev.len() ==> (#[trigger] prev[a]).id != (#[trigger] prev[b]).id,
        ensures
            self.wf(),
    {
        assert forall|a: int, b: int| 0 <= a < b < self@.len() implies (#[trigger] self@[a]).id != (
        #[trigger] self@[b]).id by {
            assert(prev[a].id != prev[b].id);
            assert(self@[a].id == prev[a].id);
            assert(self@[b].id == prev[b].id);
        }
    }

    /// Applies the operation to the entry carrying `id`, leaving every
    /// other entry untouched; the registry is unchanged on any failure.
    fn apply_one(&mut self, id: &str, kind: Op) -> (r: AppRuntimeResult<()>)
        requires
            old(self).wf(),
        ensures
            final(self).wf(),
            final(self)@.len() == old(self)@.len(),
            forall|j: int|
                0 <= j < old(self)@.len() ==> same_spec(
                    #[trigger] final(self)@[j],
                    old(self)@[j],
                ),
            forall|j: int|
                0 <= j < old(self)@.len() && (#[trigger] old(self)@[j]).id != id@ ==> final(self)@[j] == old(self)@[j],
            r is Err ==> final(self)@ == old(self)@,
            (kind == Op::Stop && spec_contains_id(old(self)@, id@) && (forall|j: int|
                0 <= j < old(self)@.len() && (#[trigger] old(self)@[j]).id == id@ ==> old(self)@[j].status == ProcessStatus::Stopped)) ==> r is Ok && final(self)@
                == old(self)@,
            match r {
                Ok(_) => spec_contains_id(old(self)@, id@) && forall|j: int|
                    0 <= j < old(self)@.len() && (#[trigger] old(self)@[j]).id == id@ ==> final(self)@[j].status == (match kind {
                        Op::Stop => ProcessStatus::Stopped,
                        _ => ProcessStatus::Running,
                    }),
                Err(e) => match e {
                    AppError::NotFound(n) => n@ == id@ && !spec_contains_id(old(self)@, id@),
                    AppError::SubProcess(_) => spec_contains_id(old(self)@, id@),
                    AppError::DuplicateId(_) => false,
                },
            },
    {
        match self.find_index(id) {
            None => Err(AppError::NotFound(id.to_owned())),
            Some(i) => {
                let ghost prev = self@;
                let ghost prev_entries = self.entries@;
                let h = self.entries.remove(i);
                let (h2, res) = match kind {
                    Op::Start => spawn_into(h),
                    Op::Stop => stop_into(h),
                    Op::Restart => restart_into(h),
                    Op::VerUpdate => ver_update_into(h),
                };
                let ghost hv = h2@;
                self.entries.insert(i, h2);
                proof {
                    self.lemma_update_entry(prev, prev_entries, i as int, h2);
                    assert forall|j: int|
                        0 <= j < prev.len() && (#[trigger] prev[j]).id == id@ implies j
                        == i as int by {
                        if j != i as int {
                            assert(prev[j].id != prev[i as int].id);
                        }
                    }
                }
                match res {
                    Ok(_) => {
                        proof {
                            if kind == Op::Stop && prev[i as int].status
                                == ProcessStatus::Stopped {
                                assert(hv == prev[i as int]);
                                assert(self@ =~= prev);
                            }
                        }
                        Ok(())
                    },
                    Err(e) => {
                        proof {
                            lemma_same_entry(hv, prev[i as int]);
                            assert(self@ =~= prev);
                        }
                        Err(e)
                    },
                }
            },
        }
    }

    /// Stops the entry carrying `id`: if believed running, its process is
    /// killed immediately — there is no termination grace period — and the
    /// entry is marked `Stopped`; stopping an already stopped entry is a
    /// no-op that succeeds. Fails with `NotFound` when the id is absent and
    /// with `SubProcess` when the kill fails, leaving the registry
    /// unchanged either way.
    pub fn stop_process(&mut self, id: &str) -> (r: AppRuntimeResult<()>)
        requires
            old(self).wf(),
        ensures
            final(self).wf(),
            final(self)@.len() == old(self)@.len(),
            forall|j: int|
                0 <= j < old(self)@.len() ==> same_spec(
                    #[trigger] final(self)@[j],
                    old(self)@[j],
                ),
            forall|j: int|
                0 <= j < old(self)@.len() && (#[trigger] old(self)@[j]).id != id@ ==> final(self)@[j] == old(self)@[j],
            r is Err ==> final(self)@ == old(self)@,
            (spec_contains_id(old(self)@, id@) && (forall|j: int|
                0 <= j < old(self)@.len() && (#[trigger] old(self)@[j]).id == id@ ==> old(self)@[j].status == ProcessStatus::Stopped)) ==> r is Ok && final(self)@
                == old(self)@,
            match r {
                Ok(_) => spec_contains_id(old(self)@, id@) && forall|j: int|
                    0 <= j < old(self)@.len() && (#[trigger] old(self)@[j]).id == id@ ==> final(self)@[j].status == ProcessStatus::Stopped,
                Err(e) => match e {
                    AppError::NotFound(n) => n@ == id@ && !spec_contains_id(old(self)@, id@),
                    AppError::SubProcess(_) => spec_contains_id(old(self)@, id@),
                    AppError::DuplicateId(_) => false,
                },
            },
    {
        self.apply_one(id, Op::Stop)
    }

    /// Restarts the entry carrying `id`: its process is stopped if believed
    /// running, then the specification is respawned; a stopped entry is
    /// respawned directly. Ends `Running` on success. Fails with `NotFound`
    /// when the id is absent and with `SubProcess` when a kill or spawn
    /// fails; any failure leaves the registry — in particular every entry's
    /// status — unchanged.
    pub fn restart_process(&mut self, id: &str) -> (r: AppRuntimeResult<()>)
        requires
            old(self).wf(),
        ensures
            final(self).wf(),
            final(self)@.len() == old(self)@.len(),
            forall|j: int|
                0 <= j < old(self)@.len() ==> same_spec(
                    #[trigger] final(self)@[j],
                    old(self)@[j],
                ),
            forall|j: int|
                0 <= j < old(self)@.len() && (#[trigger] old(self)@[j]).id != id@ ==> final(self)@[j] == old(self)@[j],
            r is Err ==> final(self)@ == old(self)@,
            match r {
                Ok(_) => spec_contains_id(old(self)@, id@) && forall|j: int|
                    0 <= j < old(self)@.len() && (#[trigger] old(self)@[j]).id == id@ ==> final(self)@[j].status == ProcessStatus::Running,
                Err(e) => match e {
                    AppError::NotFound(n) => n@ == id@ && !spec_contains_id(old(self)@, id@),
                    AppError::SubProcess(_) => spec_contains_id(old(self)@, id@),
                    AppError::DuplicateId(_) => false,
                },
            },
    {
        self.apply_one(id, Op::Restart)
    }

    /// Restarts the entry carrying `id` through a verification run: the
    /// current process is stopped if believed running, the command is run
    /// once synchronously with the verification flag appended to its
    /// arguments, and only after that run completes is the long-running
    /// instance respawned with the original arguments. Ends `Running` on
    /// success; any failure leaves the registry unchanged.
    pub fn version_update_process(&mut self, id: &str) -> (r: AppRuntimeResult<()>)
        requires
            old(self).wf(),
        ensures
            final(self).wf(),
            final(self)@.len() == old(self)@.len(),
            forall|j: int|
                0 <= j < old(self)@.len() ==> same_spec(
                    #[trigger] final(self)@[j],
                    old(self)@[j],
                ),
            forall|j: int|
                0 <= j < old(self)@.len() && (#[trigger] old(self)@[j]).id != id@ ==> final(self)@[j] == old(self)@[j],
            r is Err ==> final(self)@ == old(self)@,
            match r {
                Ok(_) => spec_contains_id(old(self)@, id@) && forall|j: int|
                    0 <= j < old(self)@.len() && (#[trigger] old(self)@[j]).id == id@ ==> final(self)@[j].status == ProcessStatus::Running,
                Err(e) => match e {
                    AppError::NotFound(n) => n@ == id@ && !spec_contains_id(old(self)@, id@),
                    AppError::SubProcess(_) => spec_contains_id(old(self)@, id@),
                    AppError::DuplicateId(_) => false,
                },
            },
    {
        self.apply_one(id, Op::VerUpdate)
    }

    /// Stops every entry, in registration order: each running process is
    /// killed immediately and its entry marked `Stopped`; already stopped
    /// entries are untouched. A failed kill leaves that entry's prior
    /// status in place, and the walk continues with the remaining entries
    /// rather than aborting — the first error is reported at the end.
    /// Stopping an already fully stopped registry is a no-op that succeeds.
    pub fn stop_all(&mut self) -> (r: AppRuntimeResult<()>)
        requires
            old(self).wf(),
        ensures
            final(self).wf(),
            final(self)@.len() == old(self)@.len(),
            forall|j: int|
                0 <= j < old(self)@.len() ==> same_spec(
                    #[trigger] final(self)@[j],
                    old(self)@[j],
                ),
            forall|j: int|
                0 <= j < old(self)@.len() ==> ((#[trigger] final(self)@[j]).status
                    == ProcessStatus::Stopped || final(self)@[j] == old(self)@[j]),
            forall|j: int|
                0 <= j < old(self)@.len() && (#[trigger] old(self)@[j]).status
                    == ProcessStatus::Stopped ==> final(self)@[j] == old(self)@[j],
            r is Ok ==> forall|j: int|
                0 <= j < final(self)@.len() ==> (#[trigger] final(self)@[j]).status
                    == ProcessStatus::Stopped,
            r matches Err(e) ==> e matches AppError::SubProcess(_),
            (forall|j: int|
                0 <= j < old(self)@.len() ==> (#[trigger] old(self)@[j]).status
                    == ProcessStatus::Stopped) ==> r is Ok && final(self)@ == old(self)@,
    {
        let n = self.entries.len();
        let mut first_err: Option<AppError> = None;
        let mut i: usize = 0;
        while i < n
            invariant
                i <= n,
                n == self@.len(),
                old(self)@.len() == n,
                self.wf(),
                forall|j: int|
                    0 <= j < n ==> same_spec(#[trigger] self@[j], old(self)@[j]),
                forall|j: int| i <= j < n ==> #[trigger] self@[j] == old(self)@[j],
                forall|j: int|
                    0 <= j < i ==> ((#[trigger] self@[j]).status == ProcessStatus::Stopped
                        || self@[j] == old(self)@[j]),
                forall|j: int|
                    0 <= j < i && (#[trigger] old(self)@[j]).status == ProcessStatus::Stopped
                        ==> self@[j] == old(self)@[j],
                first_err is None ==> forall|j: int|
                    0 <= j < i ==> (#[trigger] self@[j]).status == ProcessStatus::Stopped,
                first_err matches Some(e) ==> e matches AppError::SubProcess(_) && exists|j: int|
                    0 <= j < n && (#[trigger] old(self)@[j]).status == ProcessStatus::Running,
            decreases n - i,
        {
            let ghost prev = self@;
            let ghost prev_entries = self.entries@;
            let h = self.entries.remove(i);
            let (h2, res) = stop_into(h);
            let ghost hv = h2@;
            self.entries.insert(i, h2);
            proof {
                self.lemma_update_entry(prev, prev_entries, i as int, h2);
            }
            if let Err(e) = res {
                proof {
                    lemma_same_entry(hv, prev[i as int]);
                    assert(old(self)@[i as int].status == ProcessStatus::Running);
                }
                if first_err.is_none() {
                    first_err = Some(e);
                }
            }
            i = i + 1;
        }
        match first_err {
            None => Ok(()),
            Some(e) => Err(e),
        }
    }

    /// The cached status of the entry carrying `id`; `NotFound` when no
    /// entry does.
    pub fn check_status(&self, id: &str) -> (r: AppRuntimeResult<ProcessStatus>)
        requires
            self.wf(),
        ensures
            match r {
                Ok(st) => spec_contains_id(self@, id@) && forall|i: int|
                    0 <= i < self@.len() && (#[trigger] self@[i]).id == id@ ==> self@[i].status
                        == st,
                Err(e) => {
                    &&& e matches AppError::NotFound(n) && n@ == id@
                    &&& !spec_contains_id(self@, id@)
                },
            },
    {
        match self.find_index(id) {
            Some(i) => {
                let st = self.entries[i].status;
                proof {
                    assert forall|j: int|
                        0 <= j < self@.len() && (#[trigger] self@[j]).id == id@ implies self@[j].status
                        == st by {
                        if j != i {
                            assert(self@[j].id != self@[i as int].id);
                        }
                    }
                }
                Ok(st)
            },
            None => Err(AppError::NotFound(id.to_owned())),
        }
    }

    /// The registered specification under `id`: its command and its exact
    /// argument vector, in order. `None` when the id is absent. What is
    /// handed back is what every (re)start of the entry passes to the
    /// spawn.
    pub fn get_spec(&self, id: &str) -> (r: Option<(String, Vec<String>)>)
        requires
            self.wf(),
        ensures
            match r {
                Some(ca) => spec_contains_id(self@, id@) && forall|j: int|
                    0 <= j < self@.len() && (#[trigger] self@[j]).id == id@ ==> ca.0@
                        == self@[j].command && ca.1.deep_view() == self@[j].args,
                None => !spec_contains_id(self@, id@),
            },
    {
        match self.find_index(id) {
            None => None,
            Some(i) => {
                let command = self.entries[i].command.clone();
                let n = self.entries[i].args.len();
                let mut args: Vec<String> = Vec::new();
                let mut k: usize = 0;
                while k < n
                    invariant
                        k <= n,
                        i < self.entries@.len(),
                        n == self.entries@[i as int].args@.len(),
                        args@.len() == k,
                        forall|j: int|
                            0 <= j < k ==> #[trigger] args@[j] == self.entries@[i as int].args@[j],
                    decreases n - k,
                {
                    args.push(self.entries[i].args[k].clone());
                    k = k + 1;
                }
                proof {
                    assert(args@ =~= self.entries@[i as int].args@);
                    assert(args.deep_view() =~= self.entries@[i as int].args.deep_view());
                    assert forall|j: int|
                        0 <= j < self@.len() && (#[trigger] self@[j]).id == id@ implies command@
                        == self@[j].command && args.deep_view() == self@[j].args by {
                        if j != i {
                            assert(self@[j].id != self@[i as int].id);
                        }
                    }
                }
                Some((command, args))
            },
        }
    }

    /// Every id with its cached status, in registration order.
    pub fn list_status(&self) -> (r: Vec<(String, ProcessStatus)>)
        ensures
            r@.len() == self@.len(),
            forall|i: int|
                0 <= i < self@.len() ==> (#[trigger] r@[i]).0@ == self@[i].id && r@[i].1
                    == self@[i].status,
    {
        let n = self.entries.len();
        let mut r: Vec<(String, ProcessStatus)> = Vec::new();
        let mut i: usize = 0;
        while i < n
            invariant
                i <= n,
                n == self@.len(),
                r@.len() == i,
                forall|j: int|
                    0 <= j < i ==> (#[trigger] r@[j]).0@ == self@[j].id && r@[j].1
                        == self@[j].status,
            decreases n - i,
        {
            let id = self.entries[i].id.clone();
            let st = self.entries[i].status;
            r.push((id, st));
            i = i + 1;
        }
        r
    }

    /// Reconciles the cached statuses against the operating system: each
    /// `Running` entry is polled without blocking and reconciled with the
    /// outcome (see `reconcile`) — an observed exit marks it `Stopped` and
    /// releases its handle (`wf`: a stopped entry holds none). So every
    /// entry comes out either untouched or marked `Stopped`; entries that
    /// are already `Stopped` are never touched, nor is one whose poll
    /// fails.
    pub fn update_status(&mut self)
        requires
            old(self).wf(),
        ensures
            final(self).wf(),
            final(self)@.len() == old(self)@.len(),
            forall|j: int|
                0 <= j < old(self)@.len() ==> same_spec(
                    #[trigger] final(self)@[j],
                    old(self)@[j],
                ),
            forall|j: int|
                0 <= j < old(self)@.len() && (#[trigger] old(self)@[j]).status
                    == ProcessStatus::Stopped ==> final(self)@[j] == old(self)@[j],
            forall|j: int|
                0 <= j < old(self)@.len() ==> ((#[trigger] final(self)@[j]).status
                    == ProcessStatus::Stopped || final(self)@[j] == old(self)@[j]),
    {
        let n = self.entries.len();
        let mut i: usize = 0;
        while i < n
            invariant
                i <= n,
                n == self@.len(),
                old(self)@.len() == n,
                self.wf(),
                forall|j: int|
                    0 <= j < n ==> same_spec(#[trigger] self@[j], old(self)@[j]),
                forall|j: int| i <= j < n ==> #[trigger] self@[j] == old(self)@[j],
                forall|j: int|
                    0 <= j < i && (#[trigger] old(self)@[j]).status == ProcessStatus::Stopped
                        ==> self@[j] == old(self)@[j],
                forall|j: int|
                    0 <= j < i ==> ((#[trigger] self@[j]).status == ProcessStatus::Stopped
                        || self@[j] == old(self)@[j]),
            decreases n - i,
        {
            let ghost prev = self@;
            let ghost prev_entries = self.entries@;
            let h = self.entries.remove(i);
            let h2 = refresh_into(h);
            let ghost hv = h2@;
            self.entries.insert(i, h2);
            proof {
                self.lemma_update_entry(prev, prev_entries, i as int, h2);
                assert(h@ == prev[i as int]);
                assert(prev[i as int] == old(self)@[i as int]);
            }
            i = i + 1;
        }
    }

    /// Blocks until every tracked process has terminated naturally, then
    /// marks every entry `Stopped`. Intended for final shutdown; a failed
    /// wait is treated as an exit so that teardown always completes.
    pub fn wait_for_exit(&mut self)
        requires
            old(self).wf(),
        ensures
            final(self).wf(),
            final(self)@.len() == old(self)@.len(),
            forall|j: int|
                0 <= j < old(self)@.len() ==> same_spec(
                    #[trigger] final(self)@[j],
                    old(self)@[j],
                ),
            forall|j: int|
                0 <= j < final(self)@.len() ==> (#[trigger] final(self)@[j]).status
                    == ProcessStatus::Stopped,
    {
        let n = self.entries.len();
        let mut i: usize = 0;
        while i < n
            invariant
                i <= n,
                n == self@.len(),
                old(self)@.len() == n,
                self.wf(),
                forall|j: int|
                    0 <= j < n ==> same_spec(#[trigger] self@[j], old(self)@[j]),
                forall|j: int| i <= j < n ==> #[trigger] self@[j] == old(self)@[j],
                forall|j: int|
                    0 <= j < i ==> (#[trigger] self@[j]).status == ProcessStatus::Stopped,
            decreases n - i,
        {
            let ghost prev = self@;
            let ghost prev_entries = self.entries@;
            let h = self.entries.remove(i);
            let h2 = await_exit_into(h);
            let ghost hv = h2@;
            self.entries.insert(i, h2);
            proof {
                self.lemma_update_entry(prev, prev_entries, i as int, h2);
            }
            i = i + 1;
        }
    }
}

/// How one liveness-poll outcome reconciles an entry: an observed exit
/// marks the entry `Stopped` and releases its handle; a process seen still
/// alive leaves the entry exactly as it was.
pub fn reconcile(h: AppProcess, exited: bool) -> (r: AppProcess)
    requires
        h.wf(),
    ensures
        r.wf(),
        same_spec(r@, h@),
        exited ==> r@.status == ProcessStatus::Stopped && r.process is None,
        !exited ==> r == h,
{
    if exited {
        let AppProcess { id, command, args, .. } = h;
        AppProcess { id, command, process: None, status: ProcessStatus::Stopped, args }
    } else {
        h
    }
}

/// Polls the entry's process without blocking and reconciles the entry
/// with the outcome (see `reconcile`): it comes back either untouched or
/// marked `Stopped` with its handle released. A stopped entry holds no
/// process and is handed back unchanged, as is one whose poll fails.
fn refresh_into(h: AppProcess) -> (r: AppProcess)
    requires
        h.wf(),
    ensures
        r.wf(),
        same_spec(r@, h@),
        h@.status == ProcessStatus::Stopped ==> r@ == h@,
        r@.status == ProcessStatus::Stopped || r@ == h@,
{
    let AppProcess { id, command, process, status, args } = h;
    match status {
        ProcessStatus::Stopped => AppProcess { id, command, process, status, args },
        ProcessStatus::Running => {
            let mut c = process.unwrap();
            let exited = match os::poll_child_exited(&mut c) {
                Ok(b) => b,
                Err(_) => false,
            };
            reconcile(AppProcess { id, command, process: Some(c), status, args }, exited)
        },
    }
}

/// Law: immediately after a registration, the registered id reads back as
/// `Stopped`. `Registry::add_process` ensures that a fresh id appends an
/// entry with status `Stopped`; this lemma carries that to what
/// `Registry::check_status` then reports for the id.
pub proof fn lemma_register_reads_stopped(pre: Seq<EntryView>, e: EntryView)
    requires
        !spec_contains_id(pre, e.id),
        e.status == ProcessStatus::Stopped,
    ensures
        spec_contains_id(pre.push(e), e.id),
        forall|j: int|
            0 <= j < pre.push(e).len() && (#[trigger] pre.push(e)[j]).id == e.id ==> pre.push(
                e,
            )[j].status == ProcessStatus::Stopped,
{
    assert(pre.push(e)[pre.len() as int] == e);
}

/// Law: after a successful batch start, the status listing reports every
/// registered id as `Running`, in registration order. The hypotheses are
/// exactly what `Registry::start_all` ensures on success and what
/// `Registry::list_status` ensures of its listing.
pub proof fn lemma_started_listing_all_running(
    pre: Seq<EntryView>,
    post: Seq<EntryView>,
    listing: Seq<(String, ProcessStatus)>,
)
    requires
        post.len() == pre.len(),
        forall|j: int| 0 <= j < pre.len() ==> same_spec(#[trigger] post[j], pre[j]),
        forall|j: int|
            0 <= j < post.len() ==> (#[trigger] post[j]).status == ProcessStatus::Running,
        listing.len() == post.len(),
        forall|i: int|
            0 <= i < post.len() ==> (#[trigger] listing[i]).0@ == post[i].id && listing[i].1
                == post[i].status,
    ensures
        listing.len() == pre.len(),
        forall|i: int|
            0 <= i < pre.len() ==> (#[trigger] listing[i]).0@ == pre[i].id && listing[i].1
                == ProcessStatus::Running,
{
}

/// Law: after a successful batch stop, the status listing reports every
/// registered id as `Stopped`, in registration order; and a second stop of
/// an already fully stopped registry succeeds without changing anything —
/// that second half is the final `ensures` clause of `Registry::stop_all`
/// itself.
pub proof fn lemma_stopped_listing_all_stopped(
    pre: Seq<EntryView>,
    post: Seq<EntryView>,
    listing: Seq<(String, ProcessStatus)>,
)
    requires
        post.len() == pre.len(),
        forall|j: int| 0 <= j < pre.len() ==> same_spec(#[trigger] post[j], pre[j]),
        forall|j: int|
            0 <= j < post.len() ==> (#[trigger] post[j]).status == ProcessStatus::Stopped,
        listing.len() == post.len(),
        forall|i: int|
            0 <= i < post.len() ==> (#[trigger] listing[i]).0@ == post[i].id && listing[i].1
                == post[i].status,
    ensures
        listing.len() == pre.len(),
        forall|i: int|
            0 <= i < pre.len() ==> (#[trigger] listing[i]).0@ == pre[i].id && listing[i].1
                == ProcessStatus::Stopped,
{
}

/// Law: registrations with pairwise-distinct ids, none already present,
/// all succeed whatever order they are serialized in — and under the write
/// lock every concurrent execution is some serialization. At each step `k`
/// the next id is still absent from the registry as extended so far, so by
/// `Registry::add_process`'s contract that call returns `Ok` and appends
/// its entry; after all of them the registry holds exactly one entry per
/// id, in serialization order.
pub proof fn lemma_distinct_registers_all_succeed(
    pre: Seq<EntryView>,
    regs: Seq<EntryView>,
    k: int,
)
    requires
        0 <= k < regs.len(),
        forall|a: int, b: int|
            0 <= a < b < regs.len() ==> (#[trigger] regs[a]).id != (#[trigger] regs[b]).id,
        forall|a: int| 0 <= a < regs.len() ==> !spec_contains_id(pre, (#[trigger] regs[a]).id),
    ensures
        !spec_contains_id(pre + regs.subrange(0, k), regs[k].id),
        (pre + regs.subrange(0, k)).push(regs[k]) =~= pre + regs.subrange(0, k + 1),
{
    let cur = pre + regs.subrange(0, k);
    assert forall|i: int| 0 <= i < cur.len() implies (#[trigger] cur[i]).id != regs[k].id by {
        if i < pre.len() {
            assert(cur[i] == pre[i]);
        } else {
            assert(cur[i] == regs[i - pre.len()]);
            assert(regs[i - pre.len()].id != regs[k].id);
        }
    }
}

/// The lock discipline of the shared registry: every value that can be
/// stored in the lock is a well-formed registry.
pub struct RegistryPred {}

impl RwLockPredicate<Registry> for RegistryPred {
    open spec fn inv(self, v: Registry) -> bool {
        v.wf()
    }
}

/// The concurrency-safe supervisor handle: a registry behind a verified
/// reader/writer lock, shared by reference among callers.
///
/// Every mutating operation holds the writer lock for the entire
/// operation, OS calls included, so no two mutations interleave and none
/// overlaps a read: concurrent registrations cannot lose updates, and a
/// batch walk is atomic with respect to every other operation. Reads
/// (`check_status`, `list_status`) share the reader lock.
///
/// Each method performs the like-named `Registry` operation under the
/// lock; the exact contract — what is returned and how the entries change
/// — is stated on that operation.
///
/// The runtime does not stop its processes by itself when dropped: the
/// owner is required to call `shutdown` (or `stop_all`) on every exit
/// path, normal or not, as the final act of supervision.
pub struct AppRuntime {
    pub apps: RwLock<Registry, RegistryPred>,
}

impl AppRuntime {
    /// The lock carries the registry invariant.
    pub open spec fn wf(self) -> bool {
        self.apps.pred() == (RegistryPred {})
    }

    /// A supervisor over an empty registry.
    pub fn new() -> (r: Self)
        ensures
            r.wf(),
    {
        AppRuntime { apps: RwLock::new(Registry::new(), Ghost(RegistryPred {})) }
    }

    /// Registers a specification (see `Registry::add_process`) under the
    /// writer lock.
    pub fn add_process(&self, app: AppProcess) -> (r: AppRuntimeResult<()>)
        requires
            self.wf(),
        ensures
            r matches Err(e) ==> e matches AppError::DuplicateId(d) && d@ == app.id@,
    {
        let (mut reg, handle) = self.apps.acquire_write();
        let r = reg.add_process(app);
        handle.release_write(reg);
        r
    }

    /// Registers and immediately starts a specification, atomically (see
    /// `Registry::add_process_then_run`), under the writer lock.
    pub fn add_process_then_run(&self, app: AppProcess) -> (r: AppRuntimeResult<()>)
        requires
            self.wf(),
        ensures
            r matches Err(AppError::DuplicateId(d)) ==> d@ == app.id@,
            r matches Err(e) ==> !(e matches AppError::NotFound(_)),
    {
        let (mut reg, handle) = self.apps.acquire_write();
        let r = reg.add_process_then_run(app);
        handle.release_write(reg);
        r
    }

    /// Registers a batch of specifications in order (see
    /// `Registry::add_batch`) under one writer-lock acquisition.
    pub fn add_batch(&self, apps: Vec<AppProcess>) -> (r: AppRuntimeResult<()>)
        requires
            self.wf(),
        ensures
            r matches Err(e) ==> e matches AppError::DuplicateId(_),
    {
        let (mut reg, handle) = self.apps.acquire_write();
        let r = reg.add_batch(apps);
        handle.release_write(reg);
        r
    }

    /// Registers and starts a batch of specifications in order (see
    /// `Registry::start_batch`) under one writer-lock acquisition.
    pub fn start_batch(&self, apps: Vec<AppProcess>) -> (r: AppRuntimeResult<()>)
        requires
            self.wf(),
        ensures
            r matches Err(e) ==> !(e matches AppError::NotFound(_)),
    {
        let (mut reg, handle) = self.apps.acquire_write();
        let r = reg.start_batch(apps);
        handle.release_write(reg);
        r
    }

    /// Starts every entry in registration order (see
    /// `Registry::start_all`), holding the writer lock for the whole walk.
    pub fn start_all(&self) -> (r: AppRuntimeResult<()>)
        requires
            self.wf(),
        ensures
            r matches Err(e) ==> e matches AppError::SubProcess(_),
    {
        let (mut reg, handle) = self.apps.acquire_write();
        let r = reg.start_all();
        handle.release_write(reg);
        r
    }

    /// Restarts one entry (see `Registry::restart_process`) under the
    /// writer lock.
    pub fn restart_process(&self, id: &str) -> (r: AppRuntimeResult<()>)
        requires
            self.wf(),
        ensures
            r matches Err(AppError::NotFound(n)) ==> n@ == id@,
            r matches Err(e) ==> !(e matches AppError::DuplicateId(_)),
    {
        let (mut reg, handle) = self.apps.acquire_write();
        let r = reg.restart_process(id);
        handle.release_write(reg);
        r
    }

    /// Restarts every entry in registration order (see
    /// `Registry::restart_all`), holding the writer lock for the whole
    /// walk.
    pub fn restart_all(&self) -> (r: AppRuntimeResult<()>)
        requires
            self.wf(),
        ensures
            r matches Err(e) ==> e matches AppError::SubProcess(_),
    {
        let (mut reg, handle) = self.apps.acquire_write();
        let r = reg.restart_all();
        handle.release_write(reg);
        r
    }

    /// Restarts one entry through a verification run (see
    /// `Registry::version_update_process`) under the writer lock.
    pub fn version_update_process(&self, id: &str) -> (r: AppRuntimeResult<()>)
        requires
            self.wf(),
        ensures
            r matches Err(AppError::NotFound(n)) ==> n@ == id@,
            r matches Err(e) ==> !(e matches AppError::DuplicateId(_)),
    {
        let (mut reg, handle) = self.apps.acquire_write();
        let r = reg.version_update_process(id);
        handle.release_write(reg);
        r
    }

    /// Restarts every entry through a verification run, in registration
    /// order (see `Registry::version_update_all`), holding the writer lock
    /// for the whole walk.
    pub fn version_update_all(&self) -> (r: AppRuntimeResult<()>)
        requires
            self.wf(),
        ensures
            r matches Err(e) ==> e matches AppError::SubProcess(_),
    {
        let (mut reg, handle) = self.apps.acquire_write();
        let r = reg.version_update_all();
        handle.release_write(reg);
        r
    }

    /// Stops one entry (see `Registry::stop_process`) under the writer
    /// lock.
    pub fn stop_process(&self, id: &str) -> (r: AppRuntimeResult<()>)
        requires
            self.wf(),
        ensures
            r matches Err(AppError::NotFound(n)) ==> n@ == id@,
            r matches Err(e) ==> !(e matches AppError::DuplicateId(_)),
    {
        let (mut reg, handle) = self.apps.acquire_write();
        let r = reg.stop_process(id);
        handle.release_write(reg);
        r
    }

    /// Stops every entry in registration order, continuing past failures
    /// (see `Registry::stop_all`), holding the writer lock for the whole
    /// walk.
    pub fn stop_all(&self) -> (r: AppRuntimeResult<()>)
        requires
            self.wf(),
        ensures
            r matches Err(e) ==> e matches AppError::SubProcess(_),
    {
        let (mut reg, handle) = self.apps.acquire_write();
        let r = reg.stop_all();
        handle.release_write(reg);
        r
    }

    /// The cached status of one entry (see `Registry::check_status`),
    /// under the reader lock.
    pub fn check_status(&self, id: &str) -> (r: AppRuntimeResult<ProcessStatus>)
        requires
            self.wf(),
        ensures
            r matches Err(e) ==> e matches AppError::NotFound(n) && n@ == id@,
    {
        let handle = self.apps.acquire_read();
        let r = handle.borrow().check_status(id);
        handle.release_read();
        r
    }

    /// The registered command and argument vector under `id` (see
    /// `Registry::get_spec`), under the reader lock.
    pub fn get_spec(&self, id: &str) -> (r: Option<(String, Vec<String>)>)
        requires
            self.wf(),
    {
        let handle = self.apps.acquire_read();
        let r = handle.borrow().get_spec(id);
        handle.release_read();
        r
    }

    /// Every id with its cached status, in registration order (see
    /// `Registry::list_status`), under the reader lock.
    pub fn list_status(&self) -> (r: Vec<(String, ProcessStatus)>)
        requires
            self.wf(),
    {
        let handle = self.apps.acquire_read();
        let r = handle.borrow().list_status();
        handle.release_read();
        r
    }

    /// Reconciles every cached status against the operating system (see
    /// `Registry::update_status`) under the writer lock.
    pub fn update_status(&self)
        requires
            self.wf(),
    {
        let (mut reg, handle) = self.apps.acquire_write();
        reg.update_status();
        handle.release_write(reg);
    }

    /// Blocks until every tracked process has exited naturally, marking
    /// all entries `Stopped` (see `Registry::wait_for_exit`), holding the
    /// writer lock for the whole wait.
    pub fn wait_for_exit(&self)
        requires
            self.wf(),
    {
        let (mut reg, handle) = self.apps.acquire_write();
        reg.wait_for_exit();
        handle.release_write(reg);
    }

    /// Final teardown: stops every tracked process, continuing past
    /// failures. The owner must call this on every exit path — normal
    /// return, early return or error — as the runtime cannot stop its
    /// processes by itself when it goes out of scope.
    pub fn shutdown(&self) -> (r: AppRuntimeResult<()>)
        requires
            self.wf(),
        ensures
            r matches Err(e) ==> e matches AppError::SubProcess(_),
    {
        self.stop_all()
    }
}

impl Default for AppRuntime {
    /// A supervisor over an empty registry.
    fn default() -> (r: Self)
        ensures
            r.wf(),
    {
        AppRuntime::new()
    }
}

/// Blocks until the entry's process, if any, has exited, then marks the
/// entry `Stopped` and releases the handle. A failed wait is treated as an
/// exit.
fn await_exit_into(h: AppProcess) -> (r: AppProcess)
    requires
        h.wf(),
    ensures
        r.wf(),
        same_spec(r@, h@),
        r@.status == ProcessStatus::Stopped,
{
    let AppProcess { id, command, process, status: _, args } = h;
    match process {
        None => AppProcess { id, command, process: None, status: ProcessStatus::Stopped, args },
        Some(mut c) => {
            match os::wait_child(&mut c) {
                Ok(_) => {},
                Err(_) => {},
            }
            AppProcess { id, command, process: None, status: ProcessStatus::Stopped, args }
        },
    }
}

} // verus!


