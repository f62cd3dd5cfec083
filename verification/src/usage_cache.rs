//! The last good read of a session store, keyed by the (modification time,
//! size) stamps of the database file and its write-ahead log. A read is
//! reused while both stamps are unchanged; when a fresh read fails (busy or
//! locked database) the last good events keep showing. A refresh asks
//! `fresh`, and otherwise reads, `settle`s the outcome and shows `shown`.

use vstd::prelude::*;

verus! {

/// (modification time, size) of one file; a missing file has both zero.
#[derive(Clone, Copy, PartialEq, Eq, Structural)]
pub struct FileStamp {
    /// Nanoseconds since the Unix epoch, negative before it.
    pub modified_ns: i128,
    pub len: u64,
}

/// The last good read and the stamps it was taken at.
pub struct UsageCache<E> {
    entry: Option<(FileStamp, FileStamp, Vec<E>)>,
}

impl<E> View for UsageCache<E> {
    type V = Option<(FileStamp, FileStamp, Seq<E>)>;

    closed spec fn view(&self) -> Option<(FileStamp, FileStamp, Seq<E>)> {
        match self.entry {
            Some((d, w, ev)) => Some((d, w, ev@)),
            None => None,
        }
    }
}

impl<E> UsageCache<E> {
    /// Nothing read yet.
    pub fn new() -> (c: UsageCache<E>)
        ensures
            c@ is None,
    {
        UsageCache { entry: None }
    }

    /// The cached events when they were read at exactly these stamps.
    pub fn fresh(&self, db: FileStamp, wal: FileStamp) -> (res: Option<&Vec<E>>)
        ensures
            match res {
                Some(ev) => reused(self@, db, wal) == Some(ev@),
                None => reused(self@, db, wal) is None,
            },
    {
        match &self.entry {
            Some((d, w, ev)) => {
                if *d == db && *w == wal {
                    Some(ev)
                } else {
                    None
                }
            },
            None => None,
        }
    }

    /// Remember a good read taken at these stamps.
    pub fn store(&mut self, db: FileStamp, wal: FileStamp, events: Vec<E>)
        ensures
            final(self)@ == Some((db, wal, events@)),
    {
        self.entry = Some((db, wal, events));
    }

    /// Record the outcome of a fresh read taken at these stamps: a good read
    /// is remembered; a failed one (busy or locked database) leaves the last
    /// good read in place, and the next refresh retries.
    pub fn settle(&mut self, db: FileStamp, wal: FileStamp, read: Result<Vec<E>, String>)
        ensures
            final(self)@ == settled(old(self)@, db, wal, read_view(read)),
    {
        match read {
            Ok(events) => self.store(db, wal, events),
            Err(_) => {},
        }
    }

    /// The events to show: the last good read, or nothing before any.
    pub fn shown(&self) -> (res: &[E])
        ensures
            res@ == shown_events(self@),
    {
        match &self.entry {
            Some((_, _, ev)) => ev.as_slice(),
            None => &[],
        }
    }
}

/// A read outcome by its view.
pub open spec fn read_view<E>(read: Result<Vec<E>, String>) -> Option<Seq<E>> {
    match read {
        Ok(ev) => Some(ev@),
        Err(_) => None,
    }
}

/// The cache after a read at these stamps with outcome `read` (`None` for a
/// failed read).
pub open spec fn settled<E>(
    c: Option<(FileStamp, FileStamp, Seq<E>)>,
    db: FileStamp,
    wal: FileStamp,
    read: Option<Seq<E>>,
) -> Option<(FileStamp, FileStamp, Seq<E>)> {
    match read {
        Some(ev) => Some((db, wal, ev)),
        None => c,
    }
}

/// The events a cache in state `c` shows.
pub open spec fn shown_events<E>(c: Option<(FileStamp, FileStamp, Seq<E>)>) -> Seq<E> {
    match c {
        Some((_, _, ev)) => ev,
        None => Seq::empty(),
    }
}

/// The events a cache in state `c` reuses for these stamps.
pub open spec fn reused<E>(c: Option<(FileStamp, FileStamp, Seq<E>)>, db: FileStamp, wal: FileStamp) -> Option<Seq<E>> {
    match c {
        Some((d, w, ev)) => if d == db && w == wal {
            Some(ev)
        } else {
            None
        },
        None => None,
    }
}

/// After a good read is stored, it is reused exactly while both stamps stay
/// unchanged.
pub proof fn lemma_stored_read_reused_iff_unchanged<E>(
    db: FileStamp,
    wal: FileStamp,
    events: Seq<E>,
    db_now: FileStamp,
    wal_now: FileStamp,
)
    ensures
        reused(Some((db, wal, events)), db_now, wal_now) == (if db == db_now && wal == wal_now {
            Some(events)
        } else {
            None
        }),
{
}

/// After a read is settled, the cache shows the new events when the read
/// was good and the last good events when it failed; a good read is then
/// reused exactly while both stamps stay unchanged, a failed one leaves what
/// is reused as it was.
pub proof fn lemma_settled_read_shown<E>(
    c: Option<(FileStamp, FileStamp, Seq<E>)>,
    db: FileStamp,
    wal: FileStamp,
    read: Option<Seq<E>>,
    db_now: FileStamp,
    wal_now: FileStamp,
)
    ensures
        shown_events(settled(c, db, wal, read)) == (match read {
            Some(ev) => ev,
            None => shown_events(c),
        }),
        reused(settled(c, db, wal, read), db_now, wal_now) == (match read {
            Some(ev) => if db == db_now && wal == wal_now {
                Some(ev)
            } else {
                None
            },
            None => reused(c, db_now, wal_now),
        }),
{
}

} // verus!
