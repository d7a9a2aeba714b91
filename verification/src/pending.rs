//! What has been sent to the archive and not yet answered for.
//!
//! **Keyed on the external submission id and on nothing else.** Everything a row
//! also carries — the problem, the language, the timestamp — is used to *verify*
//! a match, never to make one: a row whose problem disagrees with the entry it
//! matched is a defect worth shouting about, not a match to accept quietly.
//!
//! The set lives in memory. A restart loses it, which the Server handles by
//! reclaiming the lease and requeueing the job.
//!
//! Instants are milliseconds on the Runner's monotonic clock.

use std::collections::BTreeMap;

use vstd::prelude::*;

use crate::uva::uhunt::Row;

verus! {

broadcast use vstd::std_specs::btree::group_btree_axioms, vstd::laws_cmp::group_laws_cmp;

/// One submission the archive owes us an answer for.
#[derive(Debug, Clone, PartialEq, Eq)]
pub struct Entry {
    pub job_id: String,
    pub lease_token: String,
    /// The public number, for the message a person reads.
    pub problem_number: i64,
    /// uHunt's internal id, for verifying a row belongs to this entry.
    pub pid: i64,
    pub language_id: i64,
    /// When the archive accepted it. The timeout runs from here, not from the
    /// claim: waiting starts when the submission exists.
    pub sent: u64,
    /// Whether the Server has been told the work is running.
    pub announced: bool,
    /// How many renewals in a row have not reached the Server. Any answer
    /// from it starts the count again.
    pub unreachable: u32,
    /// Which verdicts count as solved for **this** assignment, carried from the
    /// configuration so a later poll needs no second read of it.
    pub accepted: Vec<String>,
    /// What happened to this submission, in the order it happened.
    ///
    /// Appended to rather than summarised: when the verdict comes from somebody
    /// else's judge, the rows themselves are the only answer to a dispute about
    /// what that judge said.
    pub trail: Vec<String>,
}

/// The submissions the archive owes an answer for, by submission id.
#[derive(Debug)]
pub struct Pending {
    entries: BTreeMap<i64, Entry>,
}

impl View for Pending {
    type V = Map<i64, Entry>;

    closed spec fn view(&self) -> Map<i64, Entry> {
        self.entries@
    }
}

impl Default for Pending {
    fn default() -> (p: Self)
        ensures
            p@ == Map::<i64, Entry>::empty(),
    {
        Pending { entries: BTreeMap::new() }
    }
}

/// What a row turned out to be.
#[derive(Debug, PartialEq, Eq)]
pub enum Matched<'a> {
    /// Ours, and the row agrees with what we sent.
    Ours(&'a Entry),
    /// Ours by id, but the row describes a different problem.
    ///
    /// Not accepted as a match. The account is shared and ids are global, so the
    /// honest reading is that something is wrong with our own bookkeeping.
    Disagrees { expected: i64, found: i64 },
    /// Not ours. **Silence, not an error** — the account is shared, and the
    /// window necessarily holds our finished submissions and anybody else's.
    Stranger,
}

/// What a row is to a set of entries.
pub open spec fn match_of(entries: Map<i64, Entry>, sid: i64, pid: i64) -> Option<Option<(i64, i64)>> {
    if !entries.contains_key(sid) {
        None
    } else if entries[sid].pid != pid {
        Some(Some((entries[sid].pid, pid)))
    } else {
        Some(None)
    }
}

/// How many renewals in a row have not reached the Server, after one more
/// answer: any answer starts the count again.
pub open spec fn unreachable_count(reached: bool, before: u32) -> u32 {
    if reached {
        0
    } else if before == u32::MAX {
        before
    } else {
        (before + 1) as u32
    }
}

/// Whether an entry has waited at least `timeout` by `now`.
pub open spec fn late(entry: Entry, timeout: u64, now: u64) -> bool {
    (if now >= entry.sent {
        now - entry.sent
    } else {
        0
    }) >= timeout
}

/// The ids of a list of entries.
pub open spec fn ids_in(all: Seq<(i64, &Entry)>) -> Seq<i64> {
    all.map_values(|p: (i64, &Entry)| p.0)
}

/// A list of ids in increasing order.
pub open spec fn increasing(ids: Seq<i64>) -> bool {
    forall|i: int, j: int| 0 <= i < j < ids.len() ==> ids[i] < ids[j]
}

/// The entry under `sid`, to append to, when there is one.
///
/// Trusted: `BTreeMap::get_mut` hands out the value stored under the key, and
/// whatever is written through it is what the map holds under that key
/// afterwards; without the key it hands out nothing and changes nothing.
#[verifier::external_body]
fn entry_mut(entries: &mut BTreeMap<i64, Entry>, sid: i64) -> (found: Option<&mut Entry>)
    ensures
        match found {
            Some(e) => old(entries)@.contains_key(sid) && *e == old(entries)@[sid]
                && final(entries)@ == old(entries)@.insert(sid, *final(e)),
            None => !old(entries)@.contains_key(sid) && final(entries)@ == old(entries)@,
        },
{
    entries.get_mut(&sid)
}

impl Pending {
    pub fn is_empty(&self) -> (empty: bool)
        ensures
            empty == (self@.dom().len() == 0),
    {
        self.entries.is_empty()
    }

    pub fn len(&self) -> (n: usize)
        ensures
            self@.dom().finite(),
            n == self@.dom().len(),
    {
        self.entries.len()
    }

    /// Holds an entry under its submission id, replacing any held before.
    pub fn insert(&mut self, sid: i64, entry: Entry)
        ensures
            final(self)@ == old(self)@.insert(sid, entry),
            final(self)@.dom().finite(),
            final(self)@.dom().len() == old(self)@.dom().len() + if old(self)@.contains_key(sid) {
                0int
            } else {
                1int
            },
    {
        proof {
            assert(self.entries@.dom().finite());
        }
        self.entries.insert(sid, entry);
        proof {
            assert(final(self)@.dom() =~= old(self)@.dom().insert(sid));
        }
    }

    /// Stops holding a submission, handing back its entry if there was one.
    pub fn take(&mut self, sid: i64) -> (taken: Option<Entry>)
        ensures
            final(self)@ == old(self)@.remove(sid),
            final(self)@.dom().finite(),
            match taken {
                Some(e) => old(self)@.contains_key(sid) && e == old(self)@[sid],
                None => !old(self)@.contains_key(sid),
            },
    {
        self.entries.remove(&sid)
    }

    /// Every outstanding id, lowest first, for the cursor.
    pub fn sids(&self) -> (ids: Vec<i64>)
        ensures
            increasing(ids@),
            forall|sid: i64| #[trigger] ids@.contains(sid) <==> self@.contains_key(sid),
    {
        let all = self.iter();
        let mut ids: Vec<i64> = Vec::new();
        for i in 0..all.len()
            invariant
                ids@ == ids_in(all@).take(i as int),
        {
            ids.push(all[i].0);
            assert(ids@ =~= ids_in(all@).take(i + 1));
        }
        assert(ids_in(all@).take(all@.len() as int) =~= all@.map_values(
            |p: (i64, &Entry)| p.0,
        ));
        ids
    }

    /// Every entry with its id, lowest id first, for the lease renewal that
    /// has to reach all of them.
    pub fn iter(&self) -> (all: Vec<(i64, &Entry)>)
        ensures
            increasing(ids_in(all@)),
            forall|sid: i64|
                #[trigger] ids_in(all@).contains(sid)
                    <==> self@.contains_key(sid),
            forall|i: int| 0 <= i < all@.len() ==> *(#[trigger] all@[i]).1 == self@[all@[i].0],
    {
        proof {
            assert(vstd::laws_cmp::obeys_cmp::<i64>());
            assert(vstd::std_specs::btree::key_obeys_cmp_spec::<i64>());
        }
        let pairs = self.entries.iter();
        let ghost s = vstd::std_specs::iter::IteratorSpec::remaining(&pairs);
        proof {
            let keys = s.map_values(|kv: (&i64, &Entry)| *kv.0);
            assert(vstd::std_specs::btree::increasing_seq(keys));
        }
        let mut all: Vec<(i64, &Entry)> = Vec::new();
        for pair in it: pairs
            invariant
                it.seq() == s,
                all@.len() == it.index(),
                forall|k: int|
                    0 <= k < it.index() ==> (#[trigger] all@[k]).0 == *s[k].0 && all@[k].1 == s[k].1,
        {
            all.push((*pair.0, pair.1));
        }
        proof {
            let keys = s.map_values(|kv: (&i64, &Entry)| *kv.0);
            let mine = ids_in(all@);
            assert(all@.len() == s.len());
            assert(mine =~= keys);
            assert forall|a: int, b: int| 0 <= a < b < mine.len() implies mine[a] < mine[b] by {
                assert(vstd::std_specs::cmp::OrdSpec::cmp_spec(&keys[a], &keys[b]) is Less);
            }
            assert forall|sid: i64| #[trigger] mine.contains(sid) <==> self@.contains_key(sid) by {
                if mine.contains(sid) {
                    let k = choose|k: int| 0 <= k < mine.len() && mine[k] == sid;
                    assert(self.entries@.contains_key(*s[k].0));
                }
                if self@.contains_key(sid) {
                    assert(s.contains((&sid, &self.entries@[sid])));
                    let k = choose|k: int| 0 <= k < s.len() && s[k] == (&sid, &self.entries@[sid]);
                    assert(mine[k] == sid);
                }
            }
            assert forall|i: int| 0 <= i < all@.len() implies *(#[trigger] all@[i]).1
                == self@[all@[i].0] by {
                assert(self.entries@.contains_key(*s[i].0) && self.entries@[*s[i].0] == *s[i].1);
            }
        }
        all
    }

    /// One entry, to append to its trail as the archive says more about it.
    pub fn get_mut(&mut self, sid: i64) -> (found: Option<&mut Entry>)
        ensures
            match found {
                Some(e) => old(self)@.contains_key(sid) && *e == old(self)@[sid] && final(self)@
                    == old(self)@.insert(sid, *final(e)),
                None => !old(self)@.contains_key(sid) && final(self)@ == old(self)@,
            },
    {
        entry_mut(&mut self.entries, sid)
    }

    /// One renewal's answer, counted against the submission it was for: a
    /// Server that answered at all starts the count again, and one that could
    /// not be reached adds one. Answers how many in a row have not reached it
    /// now; nothing changes for a submission this set does not hold.
    pub fn renewal(&mut self, sid: i64, reached: bool) -> (consecutive: u32)
        ensures
            old(self)@.contains_key(sid) ==> {
                &&& consecutive == unreachable_count(reached, old(self)@[sid].unreachable)
                &&& final(self)@ == old(self)@.insert(
                    sid,
                    Entry { unreachable: consecutive, ..old(self)@[sid] },
                )
            },
            !old(self)@.contains_key(sid) ==> consecutive == 0 && final(self)@ == old(self)@,
    {
        match entry_mut(&mut self.entries, sid) {
            Some(entry) => {
                let consecutive = if reached {
                    0
                } else if entry.unreachable == u32::MAX {
                    u32::MAX
                } else {
                    entry.unreachable + 1
                };
                entry.unreachable = consecutive;
                consecutive
            },
            None => 0,
        }
    }

    /// What this row is to us.
    pub fn matched(&self, row: &Row) -> (m: Matched<'_>)
        ensures
            match m {
                Matched::Stranger => match_of(self@, row.sid, row.pid) is None,
                Matched::Disagrees { expected, found } => match_of(self@, row.sid, row.pid)
                    == Some(Some((expected, found))),
                Matched::Ours(entry) => match_of(self@, row.sid, row.pid) == Some(
                    None::<(i64, i64)>,
                ) && *entry == self@[row.sid],
            },
    {
        match self.entries.get(&row.sid) {
            None => Matched::Stranger,
            Some(entry) => if entry.pid != row.pid {
                Matched::Disagrees { expected: entry.pid, found: row.pid }
            } else {
                Matched::Ours(entry)
            },
        }
    }

    /// Everything that has waited longer than it may, lowest id first.
    ///
    /// Returned rather than acted on here, because reporting needs the network
    /// and this type holds no client — and because a test can then drive the
    /// clock without driving a Server.
    pub fn timed_out(&self, timeout: u64, now: u64) -> (late_ones: Vec<i64>)
        ensures
            increasing(late_ones@),
            forall|sid: i64| #[trigger]
                late_ones@.contains(sid) <==> (self@.contains_key(sid) && late(
                    self@[sid],
                    timeout,
                    now,
                )),
    {
        let all = self.iter();
        let mut late_ones: Vec<i64> = Vec::new();
        let ghost keys = ids_in(all@);
        for i in 0..all.len()
            invariant
                keys == ids_in(all@),
                increasing(keys),
                forall|sid: i64| #[trigger] keys.contains(sid) <==> self@.contains_key(sid),
                forall|k: int| 0 <= k < all@.len() ==> *(#[trigger] all@[k]).1 == self@[all@[k].0],
                forall|k: int| 0 <= k < late_ones@.len() ==> keys.contains(#[trigger] late_ones@[k]),
                i < keys.len() ==> forall|k: int|
                    0 <= k < late_ones@.len() ==> #[trigger] late_ones@[k] < keys[i as int],
                increasing(late_ones@),
                forall|k: int|
                    0 <= k < late_ones@.len() ==> late(self@[#[trigger] late_ones@[k]], timeout, now),
                forall|j: int|
                    0 <= j < i && late(self@[keys[j]], timeout, now) ==> late_ones@.contains(
                        #[trigger] keys[j],
                    ),
        {
            let (sid, entry) = all[i];
            assert(keys[i as int] == sid);
            assert(keys.contains(sid));
            let waited = if now >= entry.sent {
                now - entry.sent
            } else {
                0
            };
            let ghost before = late_ones@;
            if waited >= timeout {
                late_ones.push(sid);
                proof {
                    assert(late_ones@[late_ones@.len() - 1] == sid);
                    assert forall|j: int|
                        0 <= j < i + 1 && late(self@[keys[j]], timeout, now) implies late_ones@.contains(
                        #[trigger] keys[j],
                    ) by {
                        if j < i {
                            let k = choose|k: int| 0 <= k < before.len() && before[k] == keys[j];
                            assert(late_ones@[k] == keys[j]);
                        }
                    }
                }
            }
            proof {
                if i + 1 < keys.len() {
                    assert(keys[i as int] < keys[i + 1]);
                    assert forall|k: int| 0 <= k < late_ones@.len() implies #[trigger] late_ones@[k]
                        < keys[i + 1] by {
                        if k < before.len() {
                            assert(late_ones@[k] == before[k]);
                        }
                    }
                }
            }
        }
        proof {
            assert forall|sid: i64| #[trigger]
                late_ones@.contains(sid) <==> (self@.contains_key(sid) && late(
                    self@[sid],
                    timeout,
                    now,
                )) by {
                if late_ones@.contains(sid) {
                    let k = choose|k: int| 0 <= k < late_ones@.len() && late_ones@[k] == sid;
                    assert(keys.contains(late_ones@[k]));
                }
                if self@.contains_key(sid) && late(self@[sid], timeout, now) {
                    assert(keys.contains(sid));
                    let j = choose|j: int| 0 <= j < keys.len() && keys[j] == sid;
                    assert(late(self@[keys[j]], timeout, now));
                }
            }
        }
        late_ones
    }
}

/// **What is taken is what was put.** Holding an entry under an id and then
/// taking that id hands the entry back, and leaves every other entry as it
/// was — with nothing left under the id, whatever was held there before.
pub proof fn lemma_take_gives_back_what_insert_put(before: Map<i64, Entry>, sid: i64, entry: Entry)
    ensures
        before.insert(sid, entry).contains_key(sid),
        before.insert(sid, entry)[sid] == entry,
        before.insert(sid, entry).remove(sid) == before.remove(sid),
{
    assert(before.insert(sid, entry).remove(sid) =~= before.remove(sid));
}

} // verus!
