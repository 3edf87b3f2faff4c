//! The sealed outbound queue: first in, first out, and bounded.
//!
//! What is here is which entries wait, in which order, and what a verdict from the service does to
//! the one in front. Putting an entry on disk before it is counted as held, and removing it after it
//! is gone, is for whoever owns the directory.

use vstd::prelude::*;
use vstd::string::*;

use crate::agent::error::{outcome_model, Error, Failure};
use crate::path::{byte_lists, copied_bytes, OsPath};

verus! {

/// Entries a spool holds at most where nothing says otherwise.
pub const DEFAULT_CAPACITY: usize = 1024;

/// A bounded queue of sealed records awaiting upstream.
#[derive(Debug)]
pub struct Spool {
    /// Where the entries are kept.
    dir: OsPath,
    /// Most entries that may wait.
    capacity: usize,
    /// The entries, oldest first.
    entries: Vec<Vec<u8>>,
}

impl View for Spool {
    type V = Seq<Seq<u8>>;

    open spec fn view(&self) -> Seq<Seq<u8>> {
        byte_lists(self.held())
    }
}

/// Whether a verdict is final, so that the entry it is about need not be kept: the service took it,
/// or will never take it.
pub open spec fn ends(verdict: Result<(), Failure>) -> bool {
    match verdict {
        Ok(_) => true,
        Err(failure) => failure is Rejected,
    }
}

/// Whether a verdict is final.
pub open spec fn is_final(verdict: Result<(), Error>) -> bool {
    ends(outcome_model(verdict))
}

/// Whether a replay that was given `verdicts`, one for each entry it sent from the front, ended with
/// `gone` of them gone. Each of those met a final verdict; the replay ends with the queue, or at the
/// first verdict that is not final, and then keeps that entry: quietly where the service said
/// *later*, and with the failure where the verdict is one.
pub open spec fn ended_after(
    gone: int,
    before: Seq<Seq<u8>>,
    verdicts: Seq<Result<(), Error>>,
    after: Seq<Seq<u8>>,
    outcome: Result<usize, Error>,
) -> bool {
    &&& 0 <= gone <= before.len()
    &&& after == before.skip(gone)
    &&& forall|i: int| 0 <= i < gone ==> is_final(#[trigger] verdicts[i])
    &&& match outcome {
        Ok(count) => {
            &&& count == gone
            &&& {
                ||| gone == before.len() && verdicts.len() == gone
                ||| gone < before.len() && verdicts.len() == gone + 1 && verdicts[gone] == Err::<
                    (),
                    Error,
                >(Error::Spooled)
            }
        },
        Err(error) => {
            &&& gone < before.len()
            &&& verdicts.len() == gone + 1
            &&& verdicts[gone] == Err::<(), Error>(error)
            &&& !(error@ is Rejected)
            &&& !(error@ is Spooled)
        },
    }
}

/// What a replay that was given `verdicts`, one for each entry it sent from the front, leaves of
/// `before` and returns.
pub open spec fn replayed(
    before: Seq<Seq<u8>>,
    verdicts: Seq<Result<(), Error>>,
    after: Seq<Seq<u8>>,
    outcome: Result<usize, Error>,
) -> bool {
    exists|gone: int| #[trigger] ended_after(gone, before, verdicts, after, outcome)
}

/// What appending one entry leaves: it stands last, or the queue is at its bound and stays as it is.
pub open spec fn appended(queue: Seq<Seq<u8>>, bound: nat, entry: Seq<u8>) -> Seq<Seq<u8>> {
    if queue.len() < bound {
        queue.push(entry)
    } else {
        queue
    }
}

/// What appending some entries leaves, one after the other.
pub open spec fn appended_all(queue: Seq<Seq<u8>>, bound: nat, entries: Seq<Seq<u8>>) -> Seq<
    Seq<u8>,
>
    decreases entries.len(),
{
    if entries.len() == 0 {
        queue
    } else {
        appended(appended_all(queue, bound, entries.drop_last()), bound, entries.last())
    }
}

/// Whether `verdicts` are what `send` may answer to the entries from the front of `held`, one call
/// for each verdict and each call on the entry in its place.
pub open spec fn sent<F: Fn(&Vec<u8>) -> Result<(), Error>>(
    send: F,
    held: Seq<Vec<u8>>,
    verdicts: Seq<Result<(), Error>>,
) -> bool {
    &&& verdicts.len() <= held.len()
    &&& forall|i: int|
        0 <= i < verdicts.len() ==> call_ensures(send, (&held[i],), #[trigger] verdicts[i])
}

/// What a replay of `before` through `send` leaves and returns.
pub open spec fn drained<F: Fn(&Vec<u8>) -> Result<(), Error>>(
    before: Spool,
    send: F,
    after: Spool,
    outcome: Result<usize, Error>,
) -> bool {
    exists|verdicts: Seq<Result<(), Error>>|
        {
            &&& #[trigger] replayed(before@, verdicts, after@, outcome)
            &&& sent(send, before.held(), verdicts)
        }
}

impl Spool {
    /// Most entries that may wait.
    pub closed spec fn bound(&self) -> nat {
        self.capacity as nat
    }

    /// Where the entries are kept.
    pub closed spec fn place(&self) -> Seq<u8> {
        self.dir@
    }

    /// The entries as they are held.
    pub closed spec fn held(&self) -> Seq<Vec<u8>> {
        self.entries@
    }

    /// Opens or creates a spool: `found` is what the directory holds, oldest first.
    pub fn open(dir: &OsPath, found: Vec<Vec<u8>>) -> (spool: Spool)
        ensures
            spool@ == byte_lists(found@),
            spool.held() == found@,
            spool.bound() == DEFAULT_CAPACITY,
            spool.place() == dir@,
    {
        Spool::open_with_capacity(dir, found, DEFAULT_CAPACITY)
    }

    /// Opens or creates a spool that holds at most `capacity` entries. What the directory already
    /// holds is kept, whatever the bound: the bound is on what is taken in.
    pub fn open_with_capacity(dir: &OsPath, found: Vec<Vec<u8>>, capacity: usize) -> (spool: Spool)
        ensures
            spool@ == byte_lists(found@),
            spool.held() == found@,
            spool.bound() == capacity,
            spool.place() == dir@,
    {
        Spool { dir: dir.copied(), capacity, entries: found }
    }

    /// Whether the spool is at its bound.
    pub fn is_full(&self) -> (full: bool)
        ensures
            full == (self@.len() >= self.bound()),
    {
        self.entries.len() >= self.capacity
    }

    /// Where the entries are kept.
    pub fn dir(&self) -> (dir: &OsPath)
        ensures
            dir@ == self.place(),
    {
        &self.dir
    }

    /// Appends a sealed record, or refuses it where the spool is at its bound.
    pub fn push(&mut self, sealed: &[u8]) -> (taken: Result<(), Error>)
        ensures
            final(self).bound() == old(self).bound(),
            final(self).place() == old(self).place(),
            final(self)@ == appended(old(self)@, old(self).bound(), sealed@),
            taken is Ok <==> old(self)@.len() < old(self).bound(),
            taken matches Err(error) ==> error@ is SpoolFull,
    {
        if self.entries.len() >= self.capacity {
            return Err(Error::SpoolFull);
        }
        self.entries.push(copied_bytes(sealed));
        assert(self@ =~= old(self)@.push(sealed@));
        Ok(())
    }

    /// Number of entries waiting.
    pub fn depth(&self) -> (depth: usize)
        ensures
            depth == self@.len(),
    {
        self.entries.len()
    }

    /// The entry that goes out next, which is the oldest.
    pub fn head(&self) -> (head: Option<&Vec<u8>>)
        ensures
            match head {
                Some(entry) => self@.len() > 0 && entry@ == self@[0] && *entry == self.held()[0],
                None => self@.len() == 0,
            },
    {
        if self.entries.len() == 0 {
            None
        } else {
            Some(&self.entries[0])
        }
    }

    /// Does to the entry in front what the service's verdict on it says: a final one removes it, and
    /// any other leaves it where it is. Says whether the entry is gone, or the failure where the
    /// verdict was neither an answer nor a *later*.
    pub fn settle(&mut self, verdict: Result<(), Error>) -> (gone: Result<bool, Error>)
        requires
            old(self)@.len() > 0,
        ensures
            final(self).bound() == old(self).bound(),
            final(self).place() == old(self).place(),
            is_final(verdict) ==> final(self)@ == old(self)@.skip(1) && final(self).held() == old(
                self,
            ).held().skip(1),
            !is_final(verdict) ==> final(self)@ == old(self)@ && final(self).held() == old(
                self,
            ).held(),
            match gone {
                Ok(gone) => gone == is_final(verdict) && (!gone ==> (verdict matches Err(error)
                    && error@ is Spooled)),
                Err(error) => verdict == Err::<(), Error>(error) && !(error@ is Rejected) && !(
                error@ is Spooled),
            },
    {
        match verdict {
            Ok(()) | Err(Error::Rejected(_)) => {
                let _gone = self.entries.remove(0);
                assert(self.entries@ =~= old(self).entries@.skip(1));
                assert(self@ =~= old(self)@.skip(1));
                Ok(true)
            },
            Err(Error::Spooled) => Ok(false),
            Err(error) => Err(error),
        }
    }

    /// Replays in order, removing each entry only once its verdict is final. Stops at the first
    /// entry the service will not take now, and leaves it and everything behind it in place.
    ///
    /// Returns how many entries are gone.
    pub fn drain<F>(&mut self, send: F) -> (gone: Result<usize, Error>) where
        F: Fn(&Vec<u8>) -> Result<(), Error>,

        requires
            forall|entry: &Vec<u8>| call_requires(send, (entry,)),
        ensures
            final(self).bound() == old(self).bound(),
            final(self).place() == old(self).place(),
            drained(*old(self), send, *final(self), gone),
    {
        let ghost before = self@;
        let ghost held = self.held();
        let ghost mut verdicts: Seq<Result<(), Error>> = seq![];
        let total: usize = self.entries.len();
        let mut count: usize = 0;
        assert(before.skip(0) =~= before);
        assert(held.skip(0) =~= held);
        while self.entries.len() > 0
            invariant
                forall|entry: &Vec<u8>| call_requires(send, (entry,)),
                self.bound() == old(self).bound(),
                self.place() == old(self).place(),
                before == byte_lists(held),
                before.len() == total,
                count <= total,
                verdicts.len() == count,
                self@ == before.skip(count as int),
                self.held() == held.skip(count as int),
                forall|i: int| 0 <= i < count ==> is_final(#[trigger] verdicts[i]),
                forall|i: int|
                    0 <= i < count ==> call_ensures(send, (&held[i],), #[trigger] verdicts[i]),
                before == old(self)@,
                held == old(self).held(),
            decreases self@.len(),
        {
            let verdict = send(&self.entries[0]);
            proof {
                verdicts = verdicts.push(verdict);
                assert(before.skip(count as int).skip(1) =~= before.skip(count + 1));
                assert(held.skip(count as int).skip(1) =~= held.skip(count + 1));
            }
            match self.settle(verdict) {
                Ok(true) => {
                    count += 1;
                },
                Ok(false) => {
                    let ghost told = Ok::<usize, Error>(count);
                    assert(ended_after(count as int, before, verdicts, self@, told));
                    assert(replayed(before, verdicts, self@, told));
                    assert(sent(send, held, verdicts));
                    return Ok(count);
                },
                Err(error) => {
                    let ghost told = Err::<usize, Error>(error);
                    assert(ended_after(count as int, before, verdicts, self@, told));
                    assert(replayed(before, verdicts, self@, told));
                    assert(sent(send, held, verdicts));
                    return Err(error);
                },
            }
        }
        let ghost told = Ok::<usize, Error>(count);
        assert(ended_after(count as int, before, verdicts, self@, told));
        assert(replayed(before, verdicts, self@, told));
        assert(sent(send, held, verdicts));
        Ok(count)
    }
}

/// Whatever a replay was told, nothing leaves the queue but from its front, nothing leaves it without
/// a final verdict of its own, and what stays keeps its order. A service that says *later* to the
/// first entry costs nothing.
pub proof fn law_a_replay_loses_only_what_was_settled(
    before: Seq<Seq<u8>>,
    verdicts: Seq<Result<(), Error>>,
    after: Seq<Seq<u8>>,
    outcome: Result<usize, Error>,
)
    requires
        replayed(before, verdicts, after, outcome),
    ensures
        after.len() <= before.len(),
        after == before.skip(before.len() - after.len()),
        forall|i: int| 0 <= i < before.len() - after.len() ==> is_final(#[trigger] verdicts[i]),
        outcome matches Ok(count) ==> count == before.len() - after.len(),
        verdicts.len() > 0 && !is_final(verdicts[0]) ==> after == before,
{
}

proof fn lemma_appended_all(bound: nat, entries: Seq<Seq<u8>>)
    requires
        entries.len() <= bound,
    ensures
        appended_all(seq![], bound, entries) == entries,
    decreases entries.len(),
{
    if entries.len() > 0 {
        lemma_appended_all(bound, entries.drop_last());
        assert(entries.drop_last().push(entries.last()) =~= entries);
    } else {
        assert(entries =~= seq![]);
    }
}

/// What was appended to an empty spool goes out as it went in: a replay to a service that takes
/// everything sends each entry once, in the order they were appended and with the bytes they were
/// appended with, counts all of them, and leaves nothing.
pub proof fn law_what_was_appended_goes_out_in_order<F: Fn(&Vec<u8>) -> Result<(), Error>>(
    before: Spool,
    entries: Seq<Seq<u8>>,
    send: F,
    after: Spool,
    outcome: Result<usize, Error>,
)
    requires
        entries.len() <= before.bound(),
        before@ == appended_all(seq![], before.bound(), entries),
        drained(before, send, after, outcome),
        forall|entry: &Vec<u8>, verdict: Result<(), Error>|
            #[trigger] call_ensures(send, (entry,), verdict) ==> verdict is Ok,
    ensures
        outcome matches Ok(count) && count == entries.len(),
        after@ == Seq::<Seq<u8>>::empty(),
        before.held().len() == entries.len(),
        forall|i: int| 0 <= i < entries.len() ==> (#[trigger] before.held()[i])@ == entries[i],
        exists|verdicts: Seq<Result<(), Error>>|
            verdicts.len() == entries.len() && #[trigger] sent(send, before.held(), verdicts),
{
    lemma_appended_all(before.bound(), entries);
    let verdicts = choose|verdicts: Seq<Result<(), Error>>|
        {
            &&& #[trigger] replayed(before@, verdicts, after@, outcome)
            &&& sent(send, before.held(), verdicts)
        };
    let gone = choose|gone: int|
        #[trigger] ended_after(gone, before@, verdicts, after@, outcome);
    if verdicts.len() == gone + 1 {
        assert(call_ensures(send, (&before.held()[gone],), verdicts[gone]));
    }
    assert(after@ =~= seq![]);
    assert forall|i: int| 0 <= i < entries.len() implies (#[trigger] before.held()[i])@
        == entries[i] by {
        assert(before@[i] == before.held()[i]@);
    }
    assert(sent(send, before.held(), verdicts));
}

} // verus!
