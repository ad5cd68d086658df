//! The blocking form of the station link: a queue of acknowledgements that
//! senders wait on, and the pause that keeps the line from being flooded.

use vstd::prelude::*;
use crate::code::{Code, CodeModel};
use crate::search::{
    first_index, lemma_first_index, lemma_first_index_is, lemma_first_index_none, lemma_swap_remove,
};

verus! {

/// Selects records by letter and number; an absent field matches anything.
#[derive(Debug, Clone, Copy, PartialEq, Eq)]
pub struct Rule {
    pub letter: Option<u8>,
    pub number: Option<u8>,
}

impl Default for Rule {
    fn default() -> (res: Self)
        ensures
            res == (Rule { letter: None, number: None }),
    {
        Rule { letter: None, number: None }
    }
}

impl Rule {
    /// Whether the rule selects a record with this letter and number.
    pub open spec fn selects(self, code: CodeModel) -> bool {
        &&& (self.letter matches Some(l) ==> l == code.letter)
        &&& (self.number matches Some(n) ==> n == code.number)
    }

    /// The same rule, but selecting this letter only.
    pub fn letter(self, letter: u8) -> (res: Self)
        ensures
            res == (Rule { letter: Some(letter), ..self }),
    {
        Rule { letter: Some(letter), number: self.number }
    }

    /// The same rule, but selecting this number only.
    pub fn number(self, number: u8) -> (res: Self)
        ensures
            res == (Rule { number: Some(number), ..self }),
    {
        Rule { letter: self.letter, number: Some(number) }
    }

    /// Whether the rule selects the record.
    pub fn matches(&self, code: &Code) -> (res: bool)
        ensures
            res == self.selects(code@),
    {
        if let Some(letter) = self.letter {
            if letter != code.letter {
                return false;
            }
        }
        if let Some(number) = self.number {
            if number != code.number {
                return false;
            }
        }
        true
    }
}

/// The test that an entry is this key.
pub open spec fn is_key(key: (u8, u8)) -> spec_fn((u8, u8)) -> bool {
    |entry: (u8, u8)| entry == key
}

/// The list without its entry at `i`, whose place the last entry takes.
pub open spec fn without(list: Seq<(u8, u8)>, i: int) -> Seq<(u8, u8)> {
    list.update(i, list.last()).drop_last()
}

/// The mathematical value of a message queue: the keys that senders wait
/// for, and the acknowledgements received and not yet claimed.
pub ghost struct QueueModel {
    pub waiting: Seq<(u8, u8)>,
    pub receive: Seq<(u8, u8)>,
}

impl QueueModel {
    /// The queue with nothing awaited and nothing received.
    pub open spec fn empty() -> Self {
        QueueModel { waiting: Seq::empty(), receive: Seq::empty() }
    }

    /// The queue after a try to claim the acknowledgement of `key`, and
    /// whether there was one: the first received for that key is claimed.
    pub open spec fn try_wait(self, key: (u8, u8)) -> (Self, bool) {
        match first_index(self.receive, is_key(key)) {
            Some(i) => (QueueModel { receive: without(self.receive, i), ..self }, true),
            None => (self, false),
        }
    }

    /// The queue after a sender asked for the acknowledgement of `key`, and
    /// whether it was there: one that was received is claimed, and
    /// otherwise the key is put down as awaited.
    pub open spec fn wait_for(self, key: (u8, u8)) -> (Self, bool) {
        let tried = self.try_wait(key);
        if tried.1 {
            tried
        } else {
            (QueueModel { waiting: self.waiting.push(key), ..self }, false)
        }
    }

    /// The queue after each of `keys` was tried in order, and the keys for
    /// which nothing was received.
    pub open spec fn claim_all(self, keys: Seq<(u8, u8)>) -> (Self, Seq<(u8, u8)>)
        decreases keys.len(),
    {
        if keys.len() == 0 {
            (self, Seq::empty())
        } else {
            let before = self.claim_all(keys.drop_last());
            let tried = before.0.try_wait(keys.last());
            if tried.1 {
                (tried.0, before.1)
            } else {
                (before.0, before.1.push(keys.last()))
            }
        }
    }

    /// The queue after senders asked for the acknowledgements of `keys`,
    /// and the keys that are still outstanding: each key is tried in
    /// order, and those for which nothing was received are put down as
    /// awaited.
    pub open spec fn wait_all(self, keys: Seq<(u8, u8)>) -> (Self, Seq<(u8, u8)>) {
        let claimed = self.claim_all(keys);
        (QueueModel { waiting: claimed.0.waiting + claimed.1, ..claimed.0 }, claimed.1)
    }

    /// The queue after the acknowledgement of `key` arrived, and whether a
    /// sender is to be woken: the acknowledgement is kept for whoever
    /// claims it, and the first sender that awaits the key is struck off.
    pub open spec fn send(self, key: (u8, u8)) -> (Self, bool) {
        let receive = self.receive.push(key);
        match first_index(self.waiting, is_key(key)) {
            Some(i) => (QueueModel { waiting: without(self.waiting, i), receive }, true),
            None => (QueueModel { receive, ..self }, false),
        }
    }
}

/// The position of the first entry of `list` that is `key`.
fn position_of(list: &Vec<(u8, u8)>, key: (u8, u8)) -> (res: Option<usize>)
    ensures
        match res {
            Some(i) => first_index(list@, is_key(key)) == Some(i as int) && i < list@.len(),
            None => first_index(list@, is_key(key)).is_none(),
        },
{
    let ghost pred = is_key(key);
    let mut i: usize = 0;
    while i < list.len()
        invariant
            i <= list.len(),
            pred == is_key(key),
            forall|j: int| 0 <= j < i ==> !pred(#[trigger] list@[j]),
        decreases list.len() - i,
    {
        if list[i].0 == key.0 && list[i].1 == key.1 {
            proof {
                lemma_first_index_is(list@, pred, i as int);
            }
            return Some(i);
        }
        i += 1;
    }
    proof {
        lemma_first_index_none(list@, pred);
    }
    None
}

/// The acknowledgements that senders wait on.
pub struct MessageQueue {
    waiting: Vec<(u8, u8)>,
    receive: Vec<(u8, u8)>,
}

impl View for MessageQueue {
    type V = QueueModel;

    closed spec fn view(&self) -> QueueModel {
        QueueModel { waiting: self.waiting@, receive: self.receive@ }
    }
}

impl MessageQueue {
    /// A queue with nothing awaited and nothing received.
    pub fn new() -> (res: Self)
        ensures
            res@ == QueueModel::empty(),
    {
        MessageQueue { waiting: Vec::new(), receive: Vec::new() }
    }

    /// Claims the acknowledgement of the record with this letter and
    /// number, if one was received. Returns whether there was one.
    pub fn try_wait(&mut self, letter: u8, number: u8) -> (res: bool)
        ensures
            (final(self)@, res) == old(self)@.try_wait((letter, number)),
    {
        match position_of(&self.receive, (letter, number)) {
            Some(i) => {
                self.receive.swap_remove(i);
                true
            },
            None => false,
        }
    }

    /// Asks for the acknowledgement of the record with this letter and
    /// number. One that was received is claimed; otherwise the key is put
    /// down as awaited, and the sender has to wait and ask again. Returns
    /// whether it was claimed.
    pub fn wait_for(&mut self, letter: u8, number: u8) -> (res: bool)
        ensures
            (final(self)@, res) == old(self)@.wait_for((letter, number)),
    {
        if self.try_wait(letter, number) {
            return true;
        }
        self.waiting.push((letter, number));
        false
    }

    /// Asks for the acknowledgements of all of `items`, in order. Returns
    /// those for which nothing was received; they are put down as awaited.
    pub fn wait_all(&mut self, items: Vec<(u8, u8)>) -> (res: Vec<(u8, u8)>)
        ensures
            (final(self)@, res@) == old(self)@.wait_all(items@),
    {
        let mut failed: Vec<(u8, u8)> = Vec::new();
        let mut i: usize = 0;
        while i < items.len()
            invariant
                i <= items.len(),
                (self@, failed@) == old(self)@.claim_all(items@.take(i as int)),
            decreases items.len() - i,
        {
            let ghost longer = items@.take(i + 1);
            assert(longer.drop_last() =~= items@.take(i as int));
            let key = items[i];
            if !self.try_wait(key.0, key.1) {
                failed.push(key);
            }
            i += 1;
        }
        assert(items@.take(i as int) =~= items@);
        let ghost claimed = self@;
        let mut j: usize = 0;
        while j < failed.len()
            invariant
                j <= failed.len(),
                self.receive@ == claimed.receive,
                self.waiting@ == claimed.waiting + failed@.take(j as int),
            decreases failed.len() - j,
        {
            self.waiting.push(failed[j]);
            j += 1;
        }
        assert(failed@.take(j as int) =~= failed@);
        failed
    }

    /// Takes in the acknowledgement of the record with this letter and
    /// number. It is kept for whoever claims it; the first sender that
    /// awaits it is struck off the list. Returns whether there was such a
    /// sender, who is then to be woken.
    pub fn send(&mut self, letter: u8, number: u8) -> (res: bool)
        ensures
            (final(self)@, res) == old(self)@.send((letter, number)),
    {
        self.receive.push((letter, number));
        match position_of(&self.waiting, (letter, number)) {
            Some(i) => {
                self.waiting.swap_remove(i);
                true
            },
            None => false,
        }
    }
}

/// The test that a command has this key.
pub open spec fn is_command(key: (u8, u8)) -> spec_fn(((u8, u8), int)) -> bool {
    |entry: ((u8, u8), int)| entry.0 == key
}

/// The keys of the commands that were issued, each with its place among
/// them.
pub open spec fn placed(issued: Seq<(u8, u8)>) -> Seq<((u8, u8), int)> {
    Seq::new(issued.len(), |i: int| (issued[i], i))
}

/// The places of the commands to issue again, for the keys that are
/// outstanding: each key, in order, picks the first command left with that
/// key, whose place among those left then goes to the last of them.
pub open spec fn places_to_retry(left: Seq<((u8, u8), int)>, failed: Seq<(u8, u8)>) -> Seq<int>
    decreases failed.len(),
{
    if failed.len() == 0 {
        Seq::empty()
    } else {
        match first_index(left, is_command(failed[0])) {
            Some(i) => seq![left[i].1] + places_to_retry(
                left.update(i, left.last()).drop_last(),
                failed.drop_first(),
            ),
            None => places_to_retry(left, failed.drop_first()),
        }
    }
}

impl MessageQueue {
    /// Settles one round of commands that were issued with the keys
    /// `issued`: asks for all their acknowledgements, as `wait_all` does,
    /// and returns the places in `issued` of the commands to issue again,
    /// one for each key that is outstanding.
    pub fn retry_all(&mut self, issued: &Vec<(u8, u8)>) -> (res: Vec<usize>)
        ensures
            final(self)@ == old(self)@.wait_all(issued@).0,
            res@.len() == places_to_retry(placed(issued@), old(self)@.wait_all(issued@).1).len(),
            forall|k: int|
                0 <= k < res@.len() ==> (#[trigger] res@[k]) as int == places_to_retry(
                    placed(issued@),
                    old(self)@.wait_all(issued@).1,
                )[k],
    {
        let mut keys: Vec<(u8, u8)> = Vec::new();
        let mut left: Vec<((u8, u8), usize)> = Vec::new();
        let mut i: usize = 0;
        while i < issued.len()
            invariant
                i <= issued.len(),
                keys@ == issued@.take(i as int),
                left@.len() == i,
                forall|j: int| 0 <= j < i ==> (#[trigger] left@[j]) == (issued@[j], j as usize),
            decreases issued.len() - i,
        {
            keys.push(issued[i]);
            left.push((issued[i], i));
            i += 1;
        }
        assert(keys@ =~= issued@);
        let failed = self.wait_all(keys);
        let ghost goal = places_to_retry(placed(issued@), failed@);
        let mut again: Vec<usize> = Vec::new();
        let mut k: usize = 0;
        assert(failed@.skip(0) =~= failed@);
        assert(view_left(left@) =~= placed(issued@));
        while k < failed.len()
            invariant
                k <= failed.len(),
                goal == places_to_retry(placed(issued@), failed@),
                forall|j: int| 0 <= j < again@.len() ==> (#[trigger] again@[j]) as int == goal[j],
                again@.len() <= goal.len(),
                goal.skip(again@.len() as int) == places_to_retry(
                    view_left(left@),
                    failed@.skip(k as int),
                ),
            decreases failed.len() - k,
        {
            let ghost rest = failed@.skip(k as int);
            let ghost before = view_left(left@);
            assert(rest.drop_first() =~= failed@.skip(k + 1));
            let key = failed[k];
            match command_position(&left, key) {
                Some(at) => {
                    let taken = left.swap_remove(at);
                    assert(view_left(left@) =~= before.update(at as int, before.last()).drop_last());
                    assert(goal.skip(again@.len() as int)[0] == taken.1 as int);
                    assert(goal.skip(again@.len() as int).skip(1) =~= goal.skip(again@.len() as int + 1));
                    again.push(taken.1);
                },
                None => {},
            }
            k += 1;
        }
        again
    }
}

/// The commands left, with their places as mathematical integers.
spec fn view_left(left: Seq<((u8, u8), usize)>) -> Seq<((u8, u8), int)> {
    Seq::new(left.len(), |i: int| (left[i].0, left[i].1 as int))
}

/// The position of the first command of `left` that has `key`.
fn command_position(left: &Vec<((u8, u8), usize)>, key: (u8, u8)) -> (res: Option<usize>)
    ensures
        match res {
            Some(i) => first_index(view_left(left@), is_command(key)) == Some(i as int) && i
                < left@.len(),
            None => first_index(view_left(left@), is_command(key)).is_none(),
        },
{
    let ghost pred = is_command(key);
    let ghost entries = view_left(left@);
    let mut i: usize = 0;
    while i < left.len()
        invariant
            i <= left.len(),
            pred == is_command(key),
            entries == view_left(left@),
            forall|j: int| 0 <= j < i ==> !pred(#[trigger] entries[j]),
        decreases left.len() - i,
    {
        if left[i].0.0 == key.0 && left[i].0.1 == key.1 {
            proof {
                lemma_first_index_is(entries, pred, i as int);
            }
            return Some(i);
        }
        i += 1;
    }
    proof {
        lemma_first_index_none(entries, pred);
    }
    None
}

/// An acknowledgement that arrived can be claimed: after `send` for a key,
/// `try_wait` for that key succeeds.
pub proof fn law_sent_can_be_claimed(q: QueueModel, key: (u8, u8))
    ensures
        q.send(key).0.try_wait(key).1,
        q.send(key).0.wait_for(key).1,
{
    let after = q.send(key).0;
    lemma_first_index(after.receive, is_key(key));
}

/// A claim takes exactly one acknowledgement: where `try_wait` succeeds,
/// the received list is shorter by one entry, and that entry was the key.
pub proof fn law_claim_takes_one(q: QueueModel, key: (u8, u8))
    requires
        q.try_wait(key).1,
    ensures
        q.try_wait(key).0.receive.len() == q.receive.len() - 1,
        q.try_wait(key).0.receive.to_multiset() == q.receive.to_multiset().remove(key),
        q.try_wait(key).0.waiting == q.waiting,
{
    let s = q.receive;
    lemma_first_index(s, is_key(key));
    lemma_swap_remove(s, first_index(s, is_key(key)).unwrap());
}

/// The keys for which `claim_all` finds nothing are among the keys it was
/// given, each no more often than it was given.
proof fn lemma_unclaimed_were_asked(q: QueueModel, keys: Seq<(u8, u8)>)
    ensures
        q.claim_all(keys).1.to_multiset().subset_of(keys.to_multiset()),
    decreases keys.len(),
{
    broadcast use vstd::multiset::group_multiset_axioms;

    let unclaimed = q.claim_all(keys).1;
    if keys.len() > 0 {
        let front = keys.drop_last();
        let before = q.claim_all(front).1;
        lemma_unclaimed_were_asked(q, front);
        assert(front.push(keys.last()) =~= keys);
        vstd::seq_lib::to_multiset_build(front, keys.last());
        vstd::seq_lib::to_multiset_build(before, keys.last());
        assert forall|v: (u8, u8)|
            unclaimed.to_multiset().count(v) <= keys.to_multiset().count(v) by {
            assert(before.to_multiset().count(v) <= front.to_multiset().count(v));
        }
    } else {
        assert forall|v: (u8, u8)|
            unclaimed.to_multiset().count(v) <= keys.to_multiset().count(v) by {
            vstd::seq_lib::to_multiset_contains(unclaimed, v);
        }
    }
}

/// The keys of the commands left.
spec fn keys_left(left: Seq<((u8, u8), int)>) -> Seq<(u8, u8)> {
    Seq::new(left.len(), |i: int| left[i].0)
}

/// Every command left has a place in `issued`, and the key at that place.
spec fn placed_in(left: Seq<((u8, u8), int)>, issued: Seq<(u8, u8)>) -> bool {
    forall|j: int|
        0 <= j < left.len() ==> 0 <= (#[trigger] left[j]).1 < issued.len() && issued[left[j].1]
            == left[j].0
}

/// Where every outstanding key is the key of a command left, each no more
/// often than there are such commands, every outstanding key picks a
/// command with that key.
proof fn lemma_every_key_picks(
    left: Seq<((u8, u8), int)>,
    failed: Seq<(u8, u8)>,
    issued: Seq<(u8, u8)>,
)
    requires
        placed_in(left, issued),
        failed.to_multiset().subset_of(keys_left(left).to_multiset()),
    ensures
        places_to_retry(left, failed).len() == failed.len(),
        forall|k: int|
            0 <= k < failed.len() ==> 0 <= (#[trigger] places_to_retry(left, failed)[k])
                < issued.len() && issued[places_to_retry(left, failed)[k]] == failed[k],
    decreases failed.len(),
{
    broadcast use vstd::multiset::group_multiset_axioms;

    if failed.len() > 0 {
        let key = failed[0];
        let keys = keys_left(left);
        let rest = failed.drop_first();
        assert(failed.to_multiset().count(key) > 0) by {
            vstd::seq_lib::to_multiset_contains(failed, key);
            assert(failed.contains(key));
        }
        assert(keys.contains(key)) by {
            vstd::seq_lib::to_multiset_contains(keys, key);
        }
        let hit = choose|j: int| 0 <= j < keys.len() && keys[j] == key;
        assert(is_command(key)(left[hit]));
        lemma_first_index(left, is_command(key));
        let i = first_index(left, is_command(key)).unwrap();
        let fewer = left.update(i, left.last()).drop_last();
        assert(keys_left(fewer) =~= keys.update(i, keys.last()).drop_last());
        lemma_swap_remove(keys, i);
        assert(rest =~= failed.remove(0));
        vstd::seq_lib::to_multiset_remove(failed, 0);
        assert(rest.to_multiset().subset_of(keys_left(fewer).to_multiset()));
        lemma_every_key_picks(fewer, rest, issued);
        let places = places_to_retry(left, failed);
        let later = places_to_retry(fewer, rest);
        assert(places =~= seq![left[i].1] + later);
        assert forall|k: int| 0 <= k < failed.len() implies 0 <= (#[trigger] places[k])
            < issued.len() && issued[places[k]] == failed[k] by {
            if k > 0 {
                assert(places[k] == later[k - 1]);
                assert(rest[k - 1] == failed[k]);
            }
        }
    }
}

/// Every outstanding command is issued again: a round returns one place
/// for each key that is outstanding, in the order of those keys, and the
/// command that was issued at that place has that key.
pub proof fn law_each_outstanding_command_is_retried(q: QueueModel, issued: Seq<(u8, u8)>)
    ensures
        ({
            let failed = q.wait_all(issued).1;
            let places = places_to_retry(placed(issued), failed);
            &&& places.len() == failed.len()
            &&& forall|k: int|
                0 <= k < failed.len() ==> 0 <= (#[trigger] places[k]) < issued.len()
                    && issued[places[k]] == failed[k]
        }),
{
    lemma_unclaimed_were_asked(q, issued);
    assert(keys_left(placed(issued)) =~= issued);
    lemma_every_key_picks(placed(issued), q.wait_all(issued).1, issued);
}

/// Where nothing was received for a key, asking for it claims nothing and
/// puts the key down as awaited.
pub proof fn law_unreceived_is_awaited(q: QueueModel, key: (u8, u8))
    requires
        forall|i: int| 0 <= i < q.receive.len() ==> (#[trigger] q.receive[i]) != key,
    ensures
        !q.try_wait(key).1,
        q.try_wait(key).0 == q,
        !q.wait_for(key).1,
        q.wait_for(key).0 == (QueueModel { waiting: q.waiting.push(key), ..q }),
{
    assert forall|j: int| 0 <= j < q.receive.len() implies !is_key(key)(#[trigger] q.receive[j]) by {}
    lemma_first_index_none(q.receive, is_key(key));
}

/// The size of the burst after which a sender pauses, in bytes.
pub const BURST_BYTES: usize = 64;

/// The length of the span over which a burst is counted, and of the pause,
/// in milliseconds.
pub const BURST_MILLIS: u64 = 150;

/// The bytes sent in the current span, and when the span began.
#[derive(Debug, Clone, Copy, PartialEq, Eq)]
pub struct SendWindow {
    pub count: usize,
    pub since: u64,
}

impl SendWindow {
    /// Whether `now` lies in the span that began at `since`.
    pub open spec fn in_span(self, now: u64) -> bool {
        now - self.since < BURST_MILLIS
    }

    /// Whether a sender has to pause before it writes `len` bytes at `now`:
    /// the span is still running and the bytes would fill the burst.
    pub open spec fn pauses(self, len: usize, now: u64) -> bool {
        self.in_span(now) && self.count + len >= BURST_BYTES
    }

    /// The window after `len` bytes were charged to it at `now`: they are
    /// added to a running span that they do not fill, and otherwise begin a
    /// span of their own.
    pub open spec fn charged(self, len: usize, now: u64) -> Self {
        if self.in_span(now) && self.count + len < BURST_BYTES {
            SendWindow { count: (self.count + len) as usize, since: self.since }
        } else {
            SendWindow { count: len, since: now }
        }
    }

    /// A window whose span begins at `now`, with nothing sent.
    pub fn new(now: u64) -> (res: Self)
        ensures
            res == (SendWindow { count: 0, since: now }),
    {
        SendWindow { count: 0, since: now }
    }

    /// Charges `len` bytes to the window at `now`. Returns whether the
    /// sender has to pause for 150 ms before it writes them.
    pub fn charge(&mut self, len: usize, now: u64) -> (res: bool)
        ensures
            res == old(self).pauses(len, now),
            *final(self) == old(self).charged(len, now),
    {
        if now < self.since || now - self.since < BURST_MILLIS {
            let total = self.count.saturating_add(len);
            if total >= BURST_BYTES {
                self.count = len;
                self.since = now;
                true
            } else {
                self.count = total;
                false
            }
        } else {
            self.count = len;
            self.since = now;
            false
        }
    }
}

} // verus!
