//! The event registry: a table from descriptor numbers to registered entries,
//! mirroring the kernel event set the driver polls.
//!
//! Entries are tagged variants: an exit watch over a process-exit descriptor,
//! or a log reader over a child's error stream. The registry's model is a
//! map from descriptor to entry model; registration and unregistration keep
//! the table and the kernel set in step, and unregistration is total exactly
//! once per descriptor.
use vstd::prelude::*;

use crate::buffer::{bounded_append, LogBuffer};
use crate::error::EpollError;
use crate::process::ProcessType;
use crate::text::str_to_bytes;

verus! {

/// What an entry's reaction asks the orchestrator to do.
#[derive(Clone, Copy, Debug, PartialEq, Eq, Structural)]
pub enum CallbackMessage {
    /// Remove the entry; its finalized buffer is ready to be claimed.
    Unregister(u64),
    /// Remove the entry and reap its process.
    HandleExplicitly(u64),
    /// Nothing to do yet.
    Nop,
}

/// The two kinds of registered entry.
#[derive(Clone, Copy, Debug, PartialEq, Eq, Structural)]
pub enum EntryKind {
    ExitWatch,
    LogReader,
}

/// A unit registered in the event registry.
pub enum Entry {
    /// Watches a process-exit notification descriptor.
    ExitWatch { tag: ProcessType },
    /// Watches a child's error stream and buffers what it writes.
    LogReader { tag: ProcessType, buffer: LogBuffer },
}

/// The mathematical image of an entry.
pub enum EntryModel {
    ExitWatch { tag: ProcessType },
    LogReader { tag: ProcessType, data: Seq<u8>, cap: nat },
}

impl View for Entry {
    type V = EntryModel;

    open spec fn view(&self) -> EntryModel {
        match self {
            Entry::ExitWatch { tag } => EntryModel::ExitWatch { tag: *tag },
            Entry::LogReader { tag, buffer } => EntryModel::LogReader {
                tag: *tag,
                data: buffer.contents(),
                cap: buffer.cap(),
            },
        }
    }
}

impl Entry {
    /// A log reader's buffer is well formed; an exit watch carries nothing.
    pub open spec fn wf(&self) -> bool {
        match self {
            Entry::ExitWatch { .. } => true,
            Entry::LogReader { buffer, .. } => buffer.wf(),
        }
    }
}

/// The kind of an entry model.
pub open spec fn kind_of(m: EntryModel) -> EntryKind {
    match m {
        EntryModel::ExitWatch { .. } => EntryKind::ExitWatch,
        EntryModel::LogReader { .. } => EntryKind::LogReader,
    }
}

/// The descriptors in `m` whose entries are exit watches.
pub open spec fn exit_watches(m: Map<u64, EntryModel>) -> Set<u64> {
    m.dom().filter(|k: u64| m[k] is ExitWatch)
}

/// The table after a cascade kill: every exit watch is gone, every log
/// reader stays to drain naturally.
pub open spec fn cascaded(m: Map<u64, EntryModel>) -> Map<u64, EntryModel> {
    m.restrict(m.dom().filter(|k: u64| m[k] is LogReader))
}

/// The table an association list stands for; a later pair overrides an
/// earlier one with the same key.
pub open spec fn assoc_map(s: Seq<(u64, Entry)>) -> Map<u64, EntryModel>
    decreases s.len(),
{
    if s.len() == 0 {
        Map::empty()
    } else {
        assoc_map(s.drop_last()).insert(s.last().0, s.last().1@)
    }
}

/// Whether some pair in the list carries key `k`.
pub open spec fn has_key(s: Seq<(u64, Entry)>, k: u64) -> bool {
    exists|i: int| 0 <= i < s.len() && s[i].0 == k
}

/// Pairwise-distinct keys.
pub open spec fn keys_distinct(s: Seq<(u64, Entry)>) -> bool {
    forall|i: int, j: int| 0 <= i < j < s.len() ==> s[i].0 != s[j].0
}

proof fn lemma_assoc_dom(s: Seq<(u64, Entry)>)
    ensures
        forall|k: u64| #[trigger] assoc_map(s).dom().contains(k) <==> has_key(s, k),
    decreases s.len(),
{
    if s.len() > 0 {
        lemma_assoc_dom(s.drop_last());
        assert forall|k: u64| has_key(s, k) implies #[trigger] assoc_map(s).dom().contains(
            k,
        ) by {
            let i = choose|i: int| 0 <= i < s.len() && s[i].0 == k;
            if i < s.len() - 1 {
                assert(s.drop_last()[i] == s[i]);
                assert(has_key(s.drop_last(), k));
                assert(assoc_map(s.drop_last()).dom().contains(k));
            } else {
                assert(k == s.last().0);
            }
        }
        assert forall|k: u64| #[trigger] assoc_map(s).dom().contains(k) implies has_key(s, k) by {
            if k != s.last().0 {
                assert(assoc_map(s.drop_last()).dom().contains(k));
                assert(has_key(s.drop_last(), k));
                let i = choose|i: int| 0 <= i < s.drop_last().len() && s.drop_last()[i].0 == k;
                assert(s.drop_last()[i] == s[i]);
                assert(s[i].0 == k);
            } else {
                assert(s[s.len() - 1].0 == k);
            }
        }
    }
}

proof fn lemma_assoc_at(s: Seq<(u64, Entry)>, i: int)
    requires
        keys_distinct(s),
        0 <= i < s.len(),
    ensures
        assoc_map(s).dom().contains(s[i].0),
        assoc_map(s)[s[i].0] == s[i].1@,
    decreases s.len(),
{
    if i == s.len() - 1 {
    } else {
        assert(keys_distinct(s.drop_last()));
        assert(s.drop_last()[i] == s[i]);
        lemma_assoc_at(s.drop_last(), i);
        assert(s[i].0 != s.last().0);
    }
}

proof fn lemma_assoc_remove(s: Seq<(u64, Entry)>, i: int)
    requires
        keys_distinct(s),
        0 <= i < s.len(),
    ensures
        assoc_map(s.remove(i)) == assoc_map(s).remove(s[i].0),
    decreases s.len(),
{
    let k = s[i].0;
    s.remove_ensures(i);
    if i == s.len() - 1 {
        assert(s.remove(i) =~= s.drop_last());
        lemma_assoc_dom(s.drop_last());
        assert(!has_key(s.drop_last(), k)) by {
            if has_key(s.drop_last(), k) {
                let j = choose|j: int| 0 <= j < s.drop_last().len() && s.drop_last()[j].0 == k;
                assert(s[j].0 == k);
            }
        }
        assert(assoc_map(s.drop_last()).insert(k, s.last().1@).remove(k) =~= assoc_map(
            s.drop_last(),
        ));
    } else {
        let t = s.drop_last();
        assert(keys_distinct(t));
        assert(t[i] == s[i]);
        lemma_assoc_remove(t, i);
        assert(s.remove(i).drop_last() =~= t.remove(i));
        assert(s.remove(i).last() == s.last());
        assert(assoc_map(s.remove(i)) == assoc_map(t.remove(i)).insert(s.last().0, s.last().1@));
        assert(s.last().0 != k);
        assert(assoc_map(t).remove(k).insert(s.last().0, s.last().1@) =~= assoc_map(t).insert(
            s.last().0,
            s.last().1@,
        ).remove(k));
    }
}

proof fn lemma_remove_keeps_distinct(s: Seq<(u64, Entry)>, i: int)
    requires
        keys_distinct(s),
        0 <= i < s.len(),
    ensures
        keys_distinct(s.remove(i)),
        !has_key(s.remove(i), s[i].0),
{
    s.remove_ensures(i);
    assert forall|p: int, q: int| 0 <= p < q < s.remove(i).len() implies s.remove(i)[p].0
        != s.remove(i)[q].0 by {
        let sp = if p < i {
            p
        } else {
            p + 1
        };
        let sq = if q < i {
            q
        } else {
            q + 1
        };
        assert(s.remove(i)[p] == s[sp]);
        assert(s.remove(i)[q] == s[sq]);
    }
    assert forall|p: int| 0 <= p < s.remove(i).len() implies s.remove(i)[p].0 != s[i].0 by {
        let sp = if p < i {
            p
        } else {
            p + 1
        };
        assert(s.remove(i)[p] == s[sp]);
    }
}

/// The event registry: descriptor-to-entry table of one match.
pub struct EventRegistry {
    entries: Vec<(u64, Entry)>,
}

impl EventRegistry {
    /// The table the registry stands for.
    pub closed spec fn table(&self) -> Map<u64, EntryModel> {
        assoc_map(self.entries@)
    }

    /// Distinct descriptors, well-formed buffers.
    pub closed spec fn wf(&self) -> bool {
        keys_distinct(self.entries@) && forall|i: int|
            0 <= i < self.entries@.len() ==> (#[trigger] self.entries@[i].1).wf()
    }

    /// A new, empty registry.
    pub fn new() -> (r: EventRegistry)
        ensures
            r.wf(),
            r.table() == Map::<u64, EntryModel>::empty(),
    {
        EventRegistry { entries: Vec::new() }
    }

    /// Index of the pair carrying `fd`, if any.
    fn find(&self, fd: u64) -> (r: Option<usize>)
        ensures
            match r {
                Some(i) => i < self.entries@.len() && self.entries@[i as int].0 == fd,
                None => !has_key(self.entries@, fd),
            },
    {
        let mut i: usize = 0;
        while i < self.entries.len()
            invariant
                0 <= i <= self.entries@.len(),
                forall|j: int| 0 <= j < i ==> self.entries@[j].0 != fd,
            decreases self.entries@.len() - i,
        {
            if self.entries[i].0 == fd {
                return Some(i);
            }
            i = i + 1;
        }
        None
    }

    /// Whether no descriptors remain registered.
    pub fn is_empty(&self) -> (r: bool)
        requires
            self.wf(),
        ensures
            r == (self.table().dom() == Set::<u64>::empty()),
    {
        proof {
            lemma_assoc_dom(self.entries@);
            if self.entries@.len() == 0 {
                assert(self.table().dom() =~= Set::<u64>::empty());
            } else {
                assert(has_key(self.entries@, self.entries@.last().0));
                assert(self.table().dom().contains(self.entries@.last().0));
            }
        }
        self.entries.len() == 0
    }

    /// Adds an entry under its descriptor. A descriptor already present is
    /// refused and nothing changes.
    pub fn register(&mut self, fd: u64, entry: Entry) -> (r: Result<(), EpollError>)
        requires
            old(self).wf(),
            entry.wf(),
        ensures
            final(self).wf(),
            match r {
                Ok(()) => !old(self).table().dom().contains(fd) && final(self).table() == old(
                    self,
                ).table().insert(fd, entry@),
                Err(e) => old(self).table().dom().contains(fd) && final(self).table() == old(
                    self,
                ).table() && e is EpollRegisterError,
            },
    {
        proof {
            lemma_assoc_dom(self.entries@);
        }
        match self.find(fd) {
            Some(_) => {
                proof {
                    reveal_strlit("descriptor already registered");
                }
                Err(EpollError::EpollRegisterError(str_to_bytes("descriptor already registered")))
            },
            None => {
                let ghost prev = self.entries@;
                self.entries.push((fd, entry));
                proof {
                    assert(self.entries@.drop_last() =~= prev);
                    assert forall|p: int, q: int|
                        0 <= p < q < self.entries@.len() implies self.entries@[p].0
                        != self.entries@[q].0 by {
                        if q == self.entries@.len() - 1 {
                            assert(self.entries@[p] == prev[p]);
                        }
                    }
                }
                Ok(())
            },
        }
    }

    /// Removes and returns the entry under `fd`; a descriptor that is not
    /// registered is refused and nothing changes.
    pub fn unregister(&mut self, fd: u64) -> (r: Result<Entry, EpollError>)
        requires
            old(self).wf(),
        ensures
            final(self).wf(),
            match r {
                Ok(entry) => old(self).table().dom().contains(fd) && entry@ == old(self).table()[fd]
                    && entry.wf() && final(self).table() == old(self).table().remove(fd),
                Err(e) => !old(self).table().dom().contains(fd) && final(self).table() == old(
                    self,
                ).table() && e is EpollFdError,
            },
    {
        proof {
            lemma_assoc_dom(self.entries@);
        }
        match self.find(fd) {
            None => {
                proof {
                    reveal_strlit("descriptor is not registered");
                }
                Err(EpollError::EpollFdError(str_to_bytes("descriptor is not registered")))
            },
            Some(i) => {
                proof {
                    lemma_assoc_at(self.entries@, i as int);
                    lemma_assoc_remove(self.entries@, i as int);
                    lemma_remove_keeps_distinct(self.entries@, i as int);
                }
                let (_, entry) = self.entries.remove(i);
                Ok(entry)
            },
        }
    }

    /// The reaction to a readiness event on `fd`: an exit watch is handed to
    /// the orchestrator to reap; a log reader asks to be unregistered on
    /// hang-up and otherwise expects more events; an unknown descriptor is a
    /// late-fired event and a no-op.
    pub open spec fn reaction(
        m: Map<u64, EntryModel>,
        fd: u64,
        readable: bool,
        hangup: bool,
    ) -> CallbackMessage {
        if !m.dom().contains(fd) {
            CallbackMessage::Nop
        } else {
            match m[fd] {
                EntryModel::ExitWatch { .. } => CallbackMessage::HandleExplicitly(fd),
                EntryModel::LogReader { .. } => if hangup {
                    CallbackMessage::Unregister(fd)
                } else {
                    CallbackMessage::Nop
                },
            }
        }
    }

    /// Looks up the descriptor's entry and returns its reaction to the
    /// reported readiness flags.
    pub fn dispatch(&self, fd: u64, readable: bool, hangup: bool) -> (r: CallbackMessage)
        requires
            self.wf(),
        ensures
            r == Self::reaction(self.table(), fd, readable, hangup),
    {
        proof {
            lemma_assoc_dom(self.entries@);
        }
        match self.find(fd) {
            None => CallbackMessage::Nop,
            Some(i) => {
                proof {
                    lemma_assoc_at(self.entries@, i as int);
                }
                match &self.entries[i].1 {
                    Entry::ExitWatch { .. } => CallbackMessage::HandleExplicitly(fd),
                    Entry::LogReader { .. } => {
                        if hangup {
                            CallbackMessage::Unregister(fd)
                        } else {
                            CallbackMessage::Nop
                        }
                    },
                }
            },
        }
    }

    /// Feeds bytes read from `fd`'s error stream into its log reader's
    /// buffer, bounded by the buffer's capacity. Returns false, changing
    /// nothing, when `fd` is not a registered log reader.
    pub fn append_log(&mut self, fd: u64, bytes: &[u8]) -> (r: bool)
        requires
            old(self).wf(),
        ensures
            final(self).wf(),
            if old(self).table().dom().contains(fd) && old(self).table()[fd] is LogReader {
                r && (final(self).table() =~= old(self).table().insert(
                    fd,
                    appended_model(old(self).table()[fd], bytes@),
                ))
            } else {
                !r && final(self).table() == old(self).table()
            },
    {
        proof {
            lemma_assoc_dom(self.entries@);
        }
        match self.find(fd) {
            None => false,
            Some(i) => {
                proof {
                    lemma_assoc_at(self.entries@, i as int);
                    lemma_assoc_remove(self.entries@, i as int);
                    lemma_remove_keeps_distinct(self.entries@, i as int);
                }
                let (k, entry) = self.entries.remove(i);
                let ghost removed = self.entries@;
                match entry {
                    Entry::ExitWatch { tag } => {
                        self.entries.push((k, Entry::ExitWatch { tag }));
                        proof {
                            assert(self.entries@.drop_last() =~= removed);
                            self.lemma_push_distinct(removed, fd);
                            assert(final(self).table() =~= old(self).table());
                        }
                        false
                    },
                    Entry::LogReader { tag, buffer } => {
                        let mut buffer = buffer;
                        buffer.append(bytes);
                        self.entries.push((k, Entry::LogReader { tag, buffer }));
                        proof {
                            assert(self.entries@.drop_last() =~= removed);
                            self.lemma_push_distinct(removed, fd);
                        }
                        true
                    },
                }
            },
        }
    }

    proof fn lemma_push_distinct(&self, prev: Seq<(u64, Entry)>, fd: u64)
        requires
            keys_distinct(prev),
            !has_key(prev, fd),
            self.entries@.len() == prev.len() + 1,
            self.entries@.drop_last() == prev,
            self.entries@.last().0 == fd,
        ensures
            keys_distinct(self.entries@),
    {
        assert forall|p: int, q: int|
            0 <= p < q < self.entries@.len() implies self.entries@[p].0 != self.entries@[q].0 by {
            if q == self.entries@.len() - 1 {
                assert(self.entries@[p] == prev[p]);
                assert(!(prev[p].0 == fd));
            } else {
                assert(self.entries@[p] == prev[p]);
                assert(self.entries@[q] == prev[q]);
            }
        }
    }

    /// The kind of the entry registered under `fd`, if any.
    pub fn kind(&self, fd: u64) -> (r: Option<EntryKind>)
        requires
            self.wf(),
        ensures
            match r {
                Some(k) => self.table().dom().contains(fd) && k == kind_of(self.table()[fd]),
                None => !self.table().dom().contains(fd),
            },
    {
        proof {
            lemma_assoc_dom(self.entries@);
        }
        match self.find(fd) {
            None => None,
            Some(i) => {
                proof {
                    lemma_assoc_at(self.entries@, i as int);
                }
                match &self.entries[i].1 {
                    Entry::ExitWatch { .. } => Some(EntryKind::ExitWatch),
                    Entry::LogReader { .. } => Some(EntryKind::LogReader),
                }
            },
        }
    }

    /// A snapshot of the registered descriptors and their entry kinds, for
    /// the orchestrator's sibling-kill traversal.
    pub fn process_entries(&self) -> (r: Vec<(u64, EntryKind)>)
        requires
            self.wf(),
        ensures
            forall|i: int, j: int| 0 <= i < j < r@.len() ==> r@[i].0 != r@[j].0,
            forall|i: int|
                0 <= i < r@.len() ==> self.table().dom().contains(#[trigger] r@[i].0) && r@[i].1
                    == kind_of(self.table()[r@[i].0]),
            forall|k: u64|
                self.table().dom().contains(k) ==> exists|i: int|
                    0 <= i < r@.len() && (#[trigger] r@[i]).0 == k,
    {
        let mut r: Vec<(u64, EntryKind)> = Vec::new();
        let mut i: usize = 0;
        proof {
            lemma_assoc_dom(self.entries@);
        }
        while i < self.entries.len()
            invariant
                self.wf(),
                0 <= i <= self.entries@.len(),
                r@.len() == i,
                forall|j: int|
                    0 <= j < i ==> (#[trigger] r@[j]).0 == self.entries@[j].0 && r@[j].1 == kind_of(
                        self.entries@[j].1@,
                    ),
            decreases self.entries@.len() - i,
        {
            let fd = self.entries[i].0;
            let kind = match &self.entries[i].1 {
                Entry::ExitWatch { .. } => EntryKind::ExitWatch,
                Entry::LogReader { .. } => EntryKind::LogReader,
            };
            r.push((fd, kind));
            i = i + 1;
        }
        proof {
            assert forall|p: int, q: int| 0 <= p < q < r@.len() implies r@[p].0 != r@[q].0 by {
                assert(self.entries@[p].0 != self.entries@[q].0);
            }
            assert forall|p: int|
                0 <= p < r@.len() implies self.table().dom().contains(#[trigger] r@[p].0) && r@[p].1
                == kind_of(self.table()[r@[p].0]) by {
                lemma_assoc_at(self.entries@, p);
            }
            assert forall|k: u64| self.table().dom().contains(k) implies exists|i: int|
                0 <= i < r@.len() && (#[trigger] r@[i]).0 == k by {
                let j = choose|j: int| 0 <= j < self.entries@.len() && self.entries@[j].0 == k;
                assert(r@[j].0 == k);
            }
        }
        r
    }
}

/// A log-reader model after `bytes` have been appended within its capacity.
pub open spec fn appended_model(m: EntryModel, bytes: Seq<u8>) -> EntryModel {
    match m {
        EntryModel::LogReader { tag, data, cap } => EntryModel::LogReader {
            tag,
            data: bounded_append(data, bytes, cap),
            cap,
        },
        EntryModel::ExitWatch { tag } => EntryModel::ExitWatch { tag },
    }
}

/// Every registered log reader's buffer is within its capacity.
pub proof fn lemma_registry_buffers_bounded(r: &EventRegistry)
    requires
        r.wf(),
    ensures
        forall|fd: u64|
            r.table().dom().contains(fd) ==> match #[trigger] r.table()[fd] {
                EntryModel::LogReader { data, cap, .. } => data.len() <= cap,
                EntryModel::ExitWatch { .. } => true,
            },
{
    lemma_assoc_dom(r.entries@);
    assert forall|fd: u64| r.table().dom().contains(fd) implies match #[trigger] r.table()[fd] {
        EntryModel::LogReader { data, cap, .. } => data.len() <= cap,
        EntryModel::ExitWatch { .. } => true,
    } by {
        let i = choose|i: int| 0 <= i < r.entries@.len() && r.entries@[i].0 == fd;
        lemma_assoc_at(r.entries@, i);
        assert(r.entries@[i].1.wf());
        match r.entries@[i].1 {
            Entry::LogReader { buffer, .. } => {
                crate::buffer::lemma_buffer_bounded(&buffer);
            },
            Entry::ExitWatch { .. } => {},
        }
    }
}

/// Unregistration after a registration is total exactly once: the
/// registered entry is there to be taken, and taking it leaves nothing under
/// its descriptor for a second attempt.
pub proof fn lemma_unregister_total(m: Map<u64, EntryModel>, fd: u64, e: EntryModel)
    ensures
        m.insert(fd, e).dom().contains(fd),
        m.insert(fd, e)[fd] == e,
        !m.insert(fd, e).remove(fd).dom().contains(fd),
{
}

/// The cascade sweep is idempotent: it leaves no exit watch behind, so
/// sweeping a second time finds nothing to kill and changes nothing.
pub proof fn lemma_cascade_idempotent(m: Map<u64, EntryModel>)
    ensures
        exit_watches(cascaded(m)) == Set::<u64>::empty(),
        cascaded(cascaded(m)) == cascaded(m),
{
    assert(exit_watches(cascaded(m)) =~= Set::<u64>::empty());
    assert(cascaded(cascaded(m)) =~= cascaded(m));
}

} // verus!
