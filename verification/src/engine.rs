//! The per-match coordination engine: the decision core of the orchestrator.
//!
//! The engine owns the event registry of one match together with the
//! finalized log outputs and the classified failures. The surrounding event
//! loop performs the kernel calls (poll, read, wait, kill) and feeds their
//! results in; every decision — how an event is reacted to, how an exit
//! status is classified, which siblings the failure cascade removes — is
//! made here.
//!
//! Exit-watch descriptors are tracked in ghost state: `spawned_exits` holds
//! every descriptor ever registered, `reaped_exits` those whose process has
//! been waited on or killed. Well-formedness ties them to the live table, so
//! that an empty registry means every spawned child was reaped.
use vstd::prelude::*;

use crate::buffer::LogBuffer;
use crate::error::EpollError;
use crate::process::{classified, classify, ExitStatus, FailureKind, ProcessType};
use crate::registry::{
    cascaded, exit_watches, CallbackMessage, Entry, EntryKind, EntryModel, EventRegistry,
};

verus! {

/// A finalized log: the bytes a child had written to its error stream when
/// the stream hung up, with the child's tag.
pub struct ProcessLog {
    pub tag: ProcessType,
    pub data: Vec<u8>,
}

impl View for ProcessLog {
    type V = (ProcessType, Seq<u8>);

    open spec fn view(&self) -> (ProcessType, Seq<u8>) {
        (self.tag, self.data@)
    }
}

/// A classified non-success exit, attributed to its participant.
#[derive(Clone, Copy, Debug, PartialEq, Eq, Structural)]
pub struct Failure {
    pub tag: ProcessType,
    pub kind: FailureKind,
}

/// The coordination engine of one match.
pub struct MatchEngine {
    registry: EventRegistry,
    outputs: Vec<ProcessLog>,
    failures: Vec<Failure>,
    spawned: Ghost<Set<u64>>,
    reaped: Ghost<Set<u64>>,
}

impl MatchEngine {
    /// The registered descriptor table.
    pub closed spec fn table(&self) -> Map<u64, EntryModel> {
        self.registry.table()
    }

    /// The finalized logs collected so far, in arrival order.
    pub closed spec fn outputs_view(&self) -> Seq<(ProcessType, Seq<u8>)> {
        self.outputs@.map_values(|p: ProcessLog| p@)
    }

    /// The classified failures recorded so far, in arrival order.
    pub closed spec fn failures_view(&self) -> Seq<Failure> {
        self.failures@
    }

    /// Every exit-watch descriptor that was ever registered.
    pub closed spec fn spawned_exits(&self) -> Set<u64> {
        self.spawned@
    }

    /// Every exit-watch descriptor whose process was reaped or killed.
    pub closed spec fn reaped_exits(&self) -> Set<u64> {
        self.reaped@
    }

    /// A spawned child is reaped or still watched; nothing else was spawned.
    pub closed spec fn wf(&self) -> bool {
        &&& self.registry.wf()
        &&& self.spawned@ =~= self.reaped@ + exit_watches(self.registry.table())
    }

    /// A fresh engine with nothing registered.
    pub fn new() -> (r: MatchEngine)
        ensures
            r.wf(),
            r.table() == Map::<u64, EntryModel>::empty(),
            r.outputs_view() == Seq::<(ProcessType, Seq<u8>)>::empty(),
            r.failures_view() == Seq::<Failure>::empty(),
            r.spawned_exits() == Set::<u64>::empty(),
            r.reaped_exits() == Set::<u64>::empty(),
    {
        let r = MatchEngine {
            registry: EventRegistry::new(),
            outputs: Vec::new(),
            failures: Vec::new(),
            spawned: Ghost(Set::empty()),
            reaped: Ghost(Set::empty()),
        };
        proof {
            assert(exit_watches(r.registry.table()) =~= Set::<u64>::empty());
            assert(r.spawned@ =~= r.reaped@ + exit_watches(r.registry.table()));
            assert(r.outputs_view() =~= Seq::<(ProcessType, Seq<u8>)>::empty());
        }
        r
    }

    /// Registers the exit watch of a spawned child under its process-exit
    /// descriptor. A descriptor already present is refused.
    pub fn register_exit_watch(&mut self, fd: u64, tag: ProcessType) -> (r: Result<
        (),
        EpollError,
    >)
        requires
            old(self).wf(),
        ensures
            final(self).wf(),
            final(self).outputs_view() == old(self).outputs_view(),
            final(self).failures_view() == old(self).failures_view(),
            final(self).reaped_exits() == old(self).reaped_exits(),
            match r {
                Ok(()) => !old(self).table().dom().contains(fd) && final(self).table() == old(
                    self,
                ).table().insert(fd, EntryModel::ExitWatch { tag }) && final(self).spawned_exits()
                    =~= old(self).spawned_exits().insert(fd),
                Err(e) => old(self).table().dom().contains(fd) && final(self).table() == old(
                    self,
                ).table() && final(self).spawned_exits() == old(self).spawned_exits()
                    && e is EpollRegisterError,
            },
    {
        let ghost prev = self.registry.table();
        match self.registry.register(fd, Entry::ExitWatch { tag }) {
            Ok(()) => {
                proof {
                    self.spawned@ = self.spawned@.insert(fd);
                    assert(exit_watches(self.registry.table()) =~= exit_watches(prev).insert(fd));
                    assert(self.spawned@ =~= self.reaped@ + exit_watches(self.registry.table()));
                }
                Ok(())
            },
            Err(e) => Err(e),
        }
    }

    /// Registers the log reader over a child's error stream, with the byte
    /// capacity its buffer is allowed to grow to.
    pub fn register_log_reader(&mut self, fd: u64, tag: ProcessType, cap: usize) -> (r: Result<
        (),
        EpollError,
    >)
        requires
            old(self).wf(),
        ensures
            final(self).wf(),
            final(self).outputs_view() == old(self).outputs_view(),
            final(self).failures_view() == old(self).failures_view(),
            final(self).spawned_exits() == old(self).spawned_exits(),
            final(self).reaped_exits() == old(self).reaped_exits(),
            match r {
                Ok(()) => !old(self).table().dom().contains(fd) && final(self).table() == old(
                    self,
                ).table().insert(
                    fd,
                    EntryModel::LogReader { tag, data: Seq::empty(), cap: cap as nat },
                ),
                Err(e) => old(self).table().dom().contains(fd) && final(self).table() == old(
                    self,
                ).table() && e is EpollRegisterError,
            },
    {
        let ghost prev = self.registry.table();
        let entry = Entry::LogReader { tag, buffer: LogBuffer::new(cap) };
        match self.registry.register(fd, entry) {
            Ok(()) => {
                proof {
                    assert(exit_watches(self.registry.table()) =~= exit_watches(prev));
                }
                Ok(())
            },
            Err(e) => Err(e),
        }
    }

    /// Whether no descriptors remain registered: the drain loop's exit
    /// condition.
    pub fn is_empty(&self) -> (r: bool)
        requires
            self.wf(),
        ensures
            r == (self.table().dom() == Set::<u64>::empty()),
    {
        self.registry.is_empty()
    }

    /// The reaction to a readiness event, as the registry decides it.
    pub fn dispatch(&self, fd: u64, readable: bool, hangup: bool) -> (r: CallbackMessage)
        requires
            self.wf(),
        ensures
            r == EventRegistry::reaction(self.table(), fd, readable, hangup),
    {
        self.registry.dispatch(fd, readable, hangup)
    }

    /// Feeds bytes read from a child's error stream into its log reader,
    /// bounded by the reader's capacity.
    pub fn append_log(&mut self, fd: u64, bytes: &[u8]) -> (r: bool)
        requires
            old(self).wf(),
        ensures
            final(self).wf(),
            final(self).outputs_view() == old(self).outputs_view(),
            final(self).failures_view() == old(self).failures_view(),
            final(self).spawned_exits() == old(self).spawned_exits(),
            final(self).reaped_exits() == old(self).reaped_exits(),
            if old(self).table().dom().contains(fd) && old(self).table()[fd] is LogReader {
                r && (final(self).table() =~= old(self).table().insert(
                    fd,
                    crate::registry::appended_model(old(self).table()[fd], bytes@),
                ))
            } else {
                !r && final(self).table() == old(self).table()
            },
    {
        let ghost prev = self.registry.table();
        let r = self.registry.append_log(fd, bytes);
        proof {
            assert(exit_watches(self.registry.table()) =~= exit_watches(prev));
        }
        r
    }

    /// Claims the finalized buffer of a hung-up log reader: the entry is
    /// unregistered and its bytes join the match outputs. A descriptor that
    /// is not a registered log reader is refused and nothing changes.
    pub fn finalize_log(&mut self, fd: u64) -> (r: Result<(), EpollError>)
        requires
            old(self).wf(),
        ensures
            final(self).wf(),
            final(self).failures_view() == old(self).failures_view(),
            final(self).spawned_exits() == old(self).spawned_exits(),
            final(self).reaped_exits() == old(self).reaped_exits(),
            match r {
                Ok(()) => {
                    &&& old(self).table().dom().contains(fd)
                    &&& old(self).table()[fd] is LogReader
                    &&& final(self).table() == old(self).table().remove(fd)
                    &&& final(self).outputs_view() == old(self).outputs_view().push(
                        (old(self).table()[fd]->LogReader_tag, old(self).table()[fd]->LogReader_data),
                    )
                },
                Err(_) => {
                    &&& !(old(self).table().dom().contains(fd) && old(self).table()[
                        fd
                    ] is LogReader)
                    &&& final(self).table() == old(self).table()
                    &&& final(self).outputs_view() == old(self).outputs_view()
                },
            },
    {
        let ghost prev = self.registry.table();
        let is_reader = match self.registry.kind(fd) {
            Some(EntryKind::LogReader) => true,
            _ => false,
        };
        if !is_reader {
            proof {
                reveal_strlit("descriptor is not a registered log reader");
            }
            return Err(
                EpollError::EpollFdError(
                    crate::text::str_to_bytes("descriptor is not a registered log reader"),
                ),
            );
        }
        match self.registry.unregister(fd) {
            Ok(entry) => {
                match entry {
                    Entry::LogReader { tag, buffer } => {
                        let data = buffer.into_bytes();
                        let ghost prev_outputs = self.outputs@;
                        self.outputs.push(ProcessLog { tag, data });
                        proof {
                            assert(exit_watches(self.registry.table()) =~= exit_watches(prev));
                            assert(self.outputs_view() =~= prev_outputs.map_values(
                                |p: ProcessLog| p@,
                            ).push((tag, data@)));
                        }
                        Ok(())
                    },
                    Entry::ExitWatch { .. } => vstd::pervasive::unreached(),
                }
            },
            Err(_) => vstd::pervasive::unreached(),
        }
    }

    /// Reaps a child whose exit watch fired: the watch is unregistered, the
    /// exit status classified, and on any non-success exit the failure is
    /// recorded and every remaining exit watch is swept out; the returned
    /// descriptors are the siblings whose processes the caller must kill.
    /// Log readers are never part of the sweep. A descriptor that is not a
    /// registered exit watch is refused and nothing changes.
    pub fn report_exit(&mut self, fd: u64, status: ExitStatus) -> (r: Result<Vec<u64>, EpollError>)
        requires
            old(self).wf(),
        ensures
            final(self).wf(),
            final(self).outputs_view() == old(self).outputs_view(),
            final(self).spawned_exits() == old(self).spawned_exits(),
            match r {
                Ok(kills) => {
                    &&& old(self).table().dom().contains(fd)
                    &&& old(self).table()[fd] is ExitWatch
                    &&& match classified(status) {
                        Option::None => {
                            &&& final(self).table() == old(self).table().remove(fd)
                            &&& final(self).failures_view() == old(self).failures_view()
                            &&& kills@ == Seq::<u64>::empty()
                            &&& final(self).reaped_exits() =~= old(self).reaped_exits().insert(fd)
                        },
                        Option::Some(kind) => {
                            &&& final(self).table() == cascaded(old(self).table())
                            &&& final(self).failures_view() == old(self).failures_view().push(
                                Failure { tag: old(self).table()[fd]->ExitWatch_tag, kind },
                            )
                            &&& kills@.no_duplicates()
                            &&& !kills@.contains(fd)
                            &&& forall|k: u64|
                                kills@.contains(k) <==> exit_watches(old(self).table()).remove(
                                    fd,
                                ).contains(k)
                            &&& final(self).reaped_exits() =~= old(self).reaped_exits()
                                + exit_watches(old(self).table())
                        },
                    }
                },
                Err(_) => {
                    &&& !(old(self).table().dom().contains(fd) && old(self).table()[
                        fd
                    ] is ExitWatch)
                    &&& final(self).table() == old(self).table()
                    &&& final(self).failures_view() == old(self).failures_view()
                    &&& final(self).reaped_exits() == old(self).reaped_exits()
                },
            },
    {
        let is_watch = match self.registry.kind(fd) {
            Some(EntryKind::ExitWatch) => true,
            _ => false,
        };
        if !is_watch {
            proof {
                reveal_strlit("descriptor is not a registered exit watch");
            }
            return Err(
                EpollError::EpollFdError(
                    crate::text::str_to_bytes("descriptor is not a registered exit watch"),
                ),
            );
        }
        let ghost prev = self.registry.table();
        let tag = match self.registry.unregister(fd) {
            Ok(Entry::ExitWatch { tag }) => tag,
            _ => vstd::pervasive::unreached(),
        };
        proof {
            self.reaped@ = self.reaped@.insert(fd);
            assert(exit_watches(self.registry.table()) =~= exit_watches(prev).remove(fd));
            assert(self.spawned@ =~= self.reaped@ + exit_watches(self.registry.table()));
        }
        match classify(status) {
            None => Ok(Vec::new()),
            Some(kind) => {
                self.failures.push(Failure { tag, kind });
                let kills = self.kill_sweep();
                proof {
                    assert(cascaded(self.registry.table()) =~= cascaded(prev));
                    assert(self.reaped@ =~= old(self).reaped@ + exit_watches(prev));
                }
                Ok(kills)
            },
        }
    }

    /// The failure cascade: unregisters every remaining exit watch and
    /// returns their descriptors for the caller to kill. Log readers stay,
    /// to drain naturally as the killed processes terminate. Sweeping twice
    /// is idempotent: the second sweep finds nothing and returns nothing.
    pub fn kill_sweep(&mut self) -> (kills: Vec<u64>)
        requires
            old(self).wf(),
        ensures
            final(self).wf(),
            final(self).outputs_view() == old(self).outputs_view(),
            final(self).failures_view() == old(self).failures_view(),
            final(self).spawned_exits() == old(self).spawned_exits(),
            final(self).table() == cascaded(old(self).table()),
            kills@.no_duplicates(),
            forall|k: u64| kills@.contains(k) <==> exit_watches(old(self).table()).contains(k),
            final(self).reaped_exits() =~= old(self).reaped_exits() + exit_watches(
                old(self).table(),
            ),
    {
        let snapshot = self.registry.process_entries();
        let ghost prev = self.registry.table();
        let mut kills: Vec<u64> = Vec::new();
        let mut i: usize = 0;
        while i < snapshot.len()
            invariant
                old(self).wf(),
                self.registry.wf(),
                0 <= i <= snapshot@.len(),
                self.outputs == old(self).outputs,
                self.failures == old(self).failures,
                self.spawned == old(self).spawned,
                self.reaped == old(self).reaped,
                prev == old(self).registry.table(),
                forall|p: int, q: int|
                    0 <= p < q < snapshot@.len() ==> snapshot@[p].0 != snapshot@[q].0,
                forall|p: int|
                    0 <= p < snapshot@.len() ==> prev.dom().contains(#[trigger] snapshot@[p].0)
                        && snapshot@[p].1 == crate::registry::kind_of(prev[snapshot@[p].0]),
                forall|k: u64|
                    prev.dom().contains(k) ==> exists|p: int|
                        0 <= p < snapshot@.len() && (#[trigger] snapshot@[p]).0 == k,
                kills@.no_duplicates(),
                forall|k: u64|
                    kills@.contains(k) <==> exists|j: int|
                        0 <= j < i && (#[trigger] snapshot@[j]).0 == k && snapshot@[j].1
                            == EntryKind::ExitWatch,
                self.registry.table() =~= prev.remove_keys(kills@.to_set()),
            decreases snapshot@.len() - i,
        {
            broadcast use vstd::seq_lib::group_seq_properties;

            let (fd, kind) = snapshot[i];
            if kind == EntryKind::ExitWatch {
                proof {
                    assert(!kills@.contains(fd));
                    assert(self.registry.table().dom().contains(fd));
                }
                let ghost before = kills@;
                match self.registry.unregister(fd) {
                    Ok(_) => (),
                    Err(_) => vstd::pervasive::unreached(),
                }
                kills.push(fd);
                proof {
                    assert forall|k: u64| kills@.contains(k) implies exists|j: int|
                        0 <= j < i + 1 && (#[trigger] snapshot@[j]).0 == k && snapshot@[j].1
                            == EntryKind::ExitWatch by {
                        if k == fd {
                            assert(snapshot@[i as int].0 == k && snapshot@[i as int].1
                                == EntryKind::ExitWatch);
                        } else {
                            assert(before.contains(k));
                        }
                    }
                    assert(kills@.to_set() =~= before.to_set().insert(fd));
                    assert(self.registry.table() =~= prev.remove_keys(kills@.to_set()));
                }
            } else {
                proof {
                    assert forall|k: u64| kills@.contains(k) implies exists|j: int|
                        0 <= j < i + 1 && (#[trigger] snapshot@[j]).0 == k && snapshot@[j].1
                            == EntryKind::ExitWatch by {}
                }
            }
            i = i + 1;
        }
        proof {
            broadcast use vstd::seq_lib::group_seq_properties;

            assert forall|k: u64| kills@.contains(k) <==> exit_watches(prev).contains(k) by {
                if kills@.contains(k) {
                    let j = choose|j: int|
                        0 <= j < snapshot@.len() && (#[trigger] snapshot@[j]).0 == k
                            && snapshot@[j].1 == EntryKind::ExitWatch;
                    assert(prev.dom().contains(k));
                } else {
                    if exit_watches(prev).contains(k) {
                        let p = choose|p: int|
                            0 <= p < snapshot@.len() && (#[trigger] snapshot@[p]).0 == k;
                        assert(snapshot@[p].1 == EntryKind::ExitWatch);
                        assert(kills@.contains(k));
                    }
                }
            }
            assert(self.registry.table() =~= cascaded(prev));
            self.reaped@ = self.reaped@ + exit_watches(prev);
            assert(self.spawned@ =~= self.reaped@ + exit_watches(self.registry.table()));
            assert(self.outputs_view() =~= old(self).outputs_view());
        }
        kills
    }

    /// Hands the collected logs and failures over, consuming the engine.
    /// The registry must have drained first: at that moment every spawned
    /// child has been reaped.
    pub fn into_parts(self) -> (r: (Vec<ProcessLog>, Vec<Failure>))
        requires
            self.wf(),
            self.table().dom() == Set::<u64>::empty(),
        ensures
            r.0@.map_values(|p: ProcessLog| p@) == self.outputs_view(),
            r.1@ == self.failures_view(),
    {
        (self.outputs, self.failures)
    }
}

/// Every registered log reader's buffer stays within its capacity.
pub proof fn lemma_engine_buffers_bounded(e: &MatchEngine)
    requires
        e.wf(),
    ensures
        forall|fd: u64|
            e.table().dom().contains(fd) ==> match #[trigger] e.table()[fd] {
                EntryModel::LogReader { data, cap, .. } => data.len() <= cap,
                EntryModel::ExitWatch { .. } => true,
            },
{
    crate::registry::lemma_registry_buffers_bounded(&e.registry);
}

/// Every child is reaped or its exit watch was never registered; in
/// particular, once the registry has drained empty, every spawned child has
/// been reaped.
pub proof fn lemma_children_reaped(e: &MatchEngine)
    requires
        e.wf(),
    ensures
        e.spawned_exits() =~= e.reaped_exits() + exit_watches(e.table()),
        e.table().dom() == Set::<u64>::empty() ==> e.spawned_exits() =~= e.reaped_exits(),
{
    if e.table().dom() == Set::<u64>::empty() {
        assert(exit_watches(e.table()) =~= Set::<u64>::empty());
    }
}

} // verus!
