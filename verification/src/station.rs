//! The station's protocol: rules that select records, the command manager
//! with its retries, the router, and the commands the station understands.

use vstd::prelude::*;
use crate::code::{
    Code, CodeModel, ParamModel, ParamValue, ValueModel, LETTER_D, LETTER_M, LETTER_O,
    LETTER_R, LETTER_S, LETTER_T, LETTER_V,
};
use crate::clock::local_days_and_millis;
use crate::sensor::{CatalogueModel, Sensors};
use crate::search::{
    first_index, lemma_first_index, lemma_first_index_is, lemma_first_index_none, lemma_swap_remove,
};

verus! {

/// Selects records by letter and number; an absent field matches anything.
#[derive(Debug, Clone, Copy, PartialEq, Eq)]
pub struct Rule {
    pub letter: Option<u8>,
    pub number: Option<u8>,
}

impl Default for Rule {
    fn default() -> (res: Self)
        ensures
            res == (Rule { letter: None, number: None }),
    {
        Rule { letter: None, number: None }
    }
}

impl Rule {
    /// Whether the rule selects a record with this letter and number.
    pub open spec fn selects(self, code: CodeModel) -> bool {
        &&& (self.letter matches Some(l) ==> l == code.letter)
        &&& (self.number matches Some(n) ==> n == code.number)
    }

    /// The rule that selects the records with this letter and this number.
    pub fn new(letter: u8, number: u8) -> (res: Self)
        ensures
            res == (Rule { letter: Some(letter), number: Some(number) }),
    {
        Rule { letter: Some(letter), number: Some(number) }
    }

    /// The rule that selects the records with this letter.
    pub fn letter(letter: u8) -> (res: Self)
        ensures
            res == (Rule { letter: Some(letter), number: None }),
    {
        Rule { letter: Some(letter), number: None }
    }

    /// The rule that selects the records with this number.
    pub fn number(number: u8) -> (res: Self)
        ensures
            res == (Rule { letter: None, number: Some(number) }),
    {
        Rule { letter: None, number: Some(number) }
    }

    /// Whether the rule selects the record.
    pub fn matches(&self, code: &Code) -> (res: bool)
        ensures
            res == self.selects(code@),
    {
        if let Some(letter) = self.letter {
            if letter != code.letter {
                return false;
            }
        }
        if let Some(number) = self.number {
            if number != code.number {
                return false;
            }
        }
        true
    }
}

/// What a router does with a record that a rule selected.
#[derive(Debug, Clone, Copy, PartialEq, Eq)]
pub enum Handler {
    /// Hand it to the command manager as an acknowledgement.
    Ack,
    /// Hand it to the catalogue as a sensor record.
    Sensor,
    /// Hand it to the catalogue as an autos record.
    Autos,
}

/// The number of the acknowledgement record `O1`.
pub const ACK_NUMBER: u8 = 1;

/// The instant `span` after `now`, or the last instant of the clock where
/// that lies beyond it.
pub open spec fn deadline(now: u64, span: u64) -> u64 {
    if now + span > u64::MAX {
        u64::MAX
    } else {
        (now + span) as u64
    }
}

/// The instant `span` after `now`, or the last instant of the clock where
/// that lies beyond it.
pub fn deadline_after(now: u64, span: u64) -> (res: u64)
    ensures
        res == deadline(now, span),
{
    now.saturating_add(span)
}

/// What is owed to a notification sink: the key of a command that the
/// station acknowledged.
#[derive(Debug, Clone, Copy, PartialEq, Eq)]
pub struct Notice {
    pub sink: u64,
    pub key: (u8, u8),
}

/// A command in flight: the record to send again, when, at what interval,
/// and the sink to tell once it is acknowledged.
struct Waiting {
    key: (u8, u8),
    code: Code,
    due: u64,
    retry: u64,
    notify: u64,
}

/// The mathematical value of a command in flight.
pub ghost struct WaitingModel {
    pub key: (u8, u8),
    pub code: CodeModel,
    pub due: u64,
    pub retry: u64,
    pub notify: u64,
}

impl WaitingModel {
    /// The waiter after the clock reached `now`: one that is due gets its
    /// next deadline, another is left.
    pub open spec fn ticked(self, now: u64) -> Self {
        if self.due <= now {
            WaitingModel { due: deadline(now, self.retry), ..self }
        } else {
            self
        }
    }
}

impl View for Waiting {
    type V = WaitingModel;

    closed spec fn view(&self) -> WaitingModel {
        WaitingModel {
            key: self.key,
            code: self.code@,
            due: self.due,
            retry: self.retry,
            notify: self.notify,
        }
    }
}

/// The test that a waiter has this key.
pub open spec fn has_key(key: (u8, u8)) -> spec_fn(WaitingModel) -> bool {
    |w: WaitingModel| w.key == key
}

/// The records of the waiters that are due at `now`, in the waiters' order.
pub open spec fn due_codes(waiting: Seq<WaitingModel>, now: u64) -> Seq<CodeModel>
    decreases waiting.len(),
{
    if waiting.len() == 0 {
        Seq::empty()
    } else {
        let before = due_codes(waiting.drop_last(), now);
        if waiting.last().due <= now {
            before.push(waiting.last().code)
        } else {
            before
        }
    }
}

/// The least of the waiters' deadlines.
pub open spec fn least_due(waiting: Seq<WaitingModel>) -> Option<u64>
    decreases waiting.len(),
{
    if waiting.len() == 0 {
        None
    } else {
        match least_due(waiting.drop_last()) {
            None => Some(waiting.last().due),
            Some(d) => if waiting.last().due < d {
                Some(waiting.last().due)
            } else {
                Some(d)
            },
        }
    }
}

/// `least_due` is a deadline of some waiter and no waiter's deadline is
/// earlier; it is absent exactly when there is no waiter.
pub proof fn lemma_least_due(waiting: Seq<WaitingModel>)
    ensures
        match least_due(waiting) {
            None => waiting.len() == 0,
            Some(d) => (exists|i: int| 0 <= i < waiting.len() && (#[trigger] waiting[i]).due == d)
                && forall|i: int| 0 <= i < waiting.len() ==> d <= (#[trigger] waiting[i]).due,
        },
    decreases waiting.len(),
{
    if waiting.len() > 0 {
        let front = waiting.drop_last();
        lemma_least_due(front);
        let d = least_due(waiting).unwrap();
        if d != waiting.last().due {
            let i = choose|i: int| 0 <= i < front.len() && (#[trigger] front[i]).due == d;
            assert(waiting[i].due == d);
        }
        assert forall|i: int| 0 <= i < waiting.len() implies d <= (#[trigger] waiting[i]).due by {
            if i < front.len() {
                assert(front[i] == waiting[i]);
            }
        }
    }
}

/// The mathematical value of a command manager: the commands in flight, the
/// records not yet handed to the link, and the notices not yet delivered.
pub ghost struct ManagerModel {
    pub waiting: Seq<WaitingModel>,
    pub outbound: Seq<CodeModel>,
    pub notices: Seq<Notice>,
}

impl ManagerModel {
    /// The manager with nothing in flight and nothing to hand over.
    pub open spec fn empty() -> Self {
        ManagerModel { waiting: Seq::empty(), outbound: Seq::empty(), notices: Seq::empty() }
    }

    /// The manager after a command that needs no acknowledgement.
    pub open spec fn command(self, code: CodeModel) -> Self {
        ManagerModel { outbound: self.outbound.push(code), ..self }
    }

    /// The manager after a command that is sent again every `retry` until
    /// the station acknowledges it.
    pub open spec fn command_guaranteed(self, code: CodeModel, notify: u64, retry: u64, now: u64) -> Self {
        ManagerModel {
            waiting: self.waiting.push(
                WaitingModel { key: code.key(), code, due: deadline(now, retry), retry, notify },
            ),
            outbound: self.outbound.push(code),
            ..self
        }
    }

    /// The key that a record acknowledges: the letter of its first
    /// parameter and that parameter's integer, where it can number a record.
    pub open spec fn acked_key(code: CodeModel) -> Option<(u8, u8)> {
        match code.first() {
            Some(p) => match p.value.small_int() {
                Some(n) => Some((p.letter, n)),
                None => None,
            },
            None => None,
        }
    }

    /// The waiter that a record acknowledges: the first with the key that
    /// the record names.
    pub open spec fn acked_waiter(self, code: CodeModel) -> Option<int> {
        match Self::acked_key(code) {
            Some(key) => first_index(self.waiting, has_key(key)),
            None => None,
        }
    }

    /// The manager after a record is offered as an acknowledgement, and
    /// whether the record was taken: it is whenever it has a first
    /// parameter. The waiter it acknowledges leaves, its place goes to the
    /// last waiter, and its sink is owed a notice.
    pub open spec fn acknowledge(self, code: CodeModel) -> (Self, bool) {
        match self.acked_waiter(code) {
            Some(i) => (
                ManagerModel {
                    waiting: self.waiting.update(i, self.waiting.last()).drop_last(),
                    notices: self.notices.push(
                        Notice { sink: self.waiting[i].notify, key: self.waiting[i].key },
                    ),
                    ..self
                },
                true,
            ),
            None => (self, code.first().is_some()),
        }
    }

    /// The manager after the clock reached `now`: every waiter that is due
    /// has its record sent again and gets its next deadline.
    pub open spec fn tick(self, now: u64) -> Self {
        ManagerModel {
            waiting: Seq::new(self.waiting.len(), |i: int| self.waiting[i].ticked(now)),
            outbound: self.outbound + due_codes(self.waiting, now),
            ..self
        }
    }

    /// The earliest deadline among the commands in flight.
    pub open spec fn earliest_due(self) -> Option<u64> {
        least_due(self.waiting)
    }
}

/// Tracks the commands that wait for an acknowledgement, and collects what
/// is to be handed to the link and to the notification sinks.
pub struct CommandManager {
    waiting: Vec<Waiting>,
    outbound: Vec<Code>,
    notices: Vec<Notice>,
}

impl View for CommandManager {
    type V = ManagerModel;

    closed spec fn view(&self) -> ManagerModel {
        ManagerModel {
            waiting: Seq::new(self.waiting@.len(), |i: int| self.waiting@[i]@),
            outbound: Seq::new(self.outbound@.len(), |i: int| self.outbound@[i]@),
            notices: self.notices@,
        }
    }
}

impl CommandManager {
    /// A manager with nothing in flight.
    pub fn new() -> (res: Self)
        ensures
            res@ == ManagerModel::empty(),
    {
        let res = CommandManager { waiting: Vec::new(), outbound: Vec::new(), notices: Vec::new() };
        assert(res@.waiting =~= Seq::empty());
        assert(res@.outbound =~= Seq::empty());
        res
    }

    /// The registration of `acknowledge` with a router: the rule that
    /// selects the acknowledgement record `O1`.
    pub fn on_command() -> (res: (Rule, Handler))
        ensures
            res.0 == (Rule { letter: Some(LETTER_O), number: Some(ACK_NUMBER) }),
            res.1 == Handler::Ack,
    {
        (Rule::new(LETTER_O, ACK_NUMBER), Handler::Ack)
    }

    /// Takes a record as an acknowledgement.
    ///
    /// Where its first parameter names, by letter and integer, the key of a
    /// command in flight, the first such command leaves and a notice is
    /// owed to its sink. Returns whether the record has a first parameter.
    pub fn acknowledge(&mut self, code: &Code) -> (accepted: bool)
        ensures
            (final(self)@, accepted) == old(self)@.acknowledge(code@),
    {
        let first = match code.first() {
            Some(p) => p,
            None => {
                return false;
            },
        };
        let number = match first.value.as_u8() {
            Some(n) => n,
            None => {
                return true;
            },
        };
        let key = (first.letter, number);
        let ghost pred = has_key(key);
        let mut i: usize = 0;
        while i < self.waiting.len()
            invariant
                i <= self.waiting.len(),
                pred == has_key(key),
                ManagerModel::acked_key(code@) == Some(key),
                *self == *old(self),
                forall|j: int| 0 <= j < i ==> !pred(#[trigger] self@.waiting[j]),
            decreases self.waiting.len() - i,
        {
            if self.waiting[i].key.0 == key.0 && self.waiting[i].key.1 == key.1 {
                proof {
                    lemma_first_index_is(self@.waiting, pred, i as int);
                }
                let gone = self.waiting.swap_remove(i);
                self.notices.push(Notice { sink: gone.notify, key: gone.key });
                assert(self@.waiting =~= old(self)@.waiting.update(
                    i as int,
                    old(self)@.waiting.last(),
                ).drop_last());
                return true;
            }
            i += 1;
        }
        proof {
            lemma_first_index_none(self@.waiting, pred);
        }
        true
    }

    /// Hands a record to the link, without waiting for an acknowledgement.
    pub fn command(&mut self, code: Code)
        ensures
            final(self)@ == old(self)@.command(code@),
    {
        self.outbound.push(code);
        assert(self@.outbound =~= old(self)@.outbound.push(code@));
    }

    /// Hands a record to the link and keeps sending it again, every `retry`
    /// after `now`, until the station acknowledges its letter and number;
    /// the sink `notify` is then owed a notice.
    pub fn command_guarentee(&mut self, code: Code, notify: u64, retry: u64, now: u64)
        ensures
            final(self)@ == old(self)@.command_guaranteed(code@, notify, retry, now),
    {
        self.outbound.push(code.clone());
        let key = (code.letter, code.number);
        let due = deadline_after(now, retry);
        self.waiting.push(Waiting { key, code, due, retry, notify });
        assert(self@.outbound =~= old(self)@.outbound.push(code@));
        assert(self@.waiting =~= old(self)@.waiting.push(
            WaitingModel { key: code@.key(), code: code@, due: deadline(now, retry), retry, notify },
        ));
    }

    /// Sends again every command whose deadline has come, and gives each its
    /// next deadline, `retry` after `now`.
    pub fn update(&mut self, now: u64)
        ensures
            final(self)@ == old(self)@.tick(now),
    {
        let mut i: usize = 0;
        while i < self.waiting.len()
            invariant
                i <= self.waiting.len(),
                self.waiting@.len() == old(self).waiting@.len(),
                self.notices == old(self).notices,
                forall|j: int| 0 <= j < i ==> (#[trigger] self.waiting@[j])@ == old(self)@.waiting[j].ticked(now),
                forall|j: int| i <= j < self.waiting@.len() ==> (#[trigger] self.waiting@[j]) == old(self).waiting@[j],
                self@.outbound == old(self)@.outbound + due_codes(old(self)@.waiting.take(i as int), now),
            decreases self.waiting.len() - i,
        {
            let ghost before = self@.outbound;
            let ghost prefix = old(self)@.waiting.take(i as int);
            let ghost longer = old(self)@.waiting.take(i + 1);
            assert(longer.drop_last() =~= prefix);
            if self.waiting[i].due <= now {
                let again = self.waiting[i].code.clone();
                let due = deadline_after(now, self.waiting[i].retry);
                let mut held = Waiting { key: (0, 0), code: Code::new(0, 0), due: 0, retry: 0, notify: 0 };
                self.waiting.set_and_swap(i, &mut held);
                held.due = due;
                self.waiting.set(i, held);
                self.outbound.push(again);
                assert(before.push(again@) =~= old(self)@.outbound + due_codes(longer, now));
            }
            i += 1;
        }
        assert(old(self)@.waiting.take(i as int) =~= old(self)@.waiting);
        assert(self@.waiting =~= old(self)@.tick(now).waiting);
    }

    /// The earliest deadline among the commands in flight.
    pub fn earliest_due(&self) -> (res: Option<u64>)
        ensures
            res == self@.earliest_due(),
    {
        let mut least: Option<u64> = None;
        let mut i: usize = 0;
        while i < self.waiting.len()
            invariant
                i <= self.waiting.len(),
                least == least_due(self@.waiting.take(i as int)),
            decreases self.waiting.len() - i,
        {
            let ghost longer = self@.waiting.take(i + 1);
            assert(longer.drop_last() =~= self@.waiting.take(i as int));
            let due = self.waiting[i].due;
            least = match least {
                None => Some(due),
                Some(d) => if due < d {
                    Some(due)
                } else {
                    Some(d)
                },
            };
            i += 1;
        }
        assert(self@.waiting.take(i as int) =~= self@.waiting);
        least
    }

    /// The number of commands in flight.
    pub fn in_flight(&self) -> (res: usize)
        ensures
            res == self@.waiting.len(),
    {
        self.waiting.len()
    }

    /// Gives up the records collected for the link, in the order in which
    /// they were handed in.
    pub fn take_outbound(&mut self) -> (res: Vec<Code>)
        ensures
            res@.len() == old(self)@.outbound.len(),
            forall|i: int| 0 <= i < res@.len() ==> (#[trigger] res@[i])@ == old(self)@.outbound[i],
            final(self)@ == (ManagerModel { outbound: Seq::empty(), ..old(self)@ }),
    {
        let mut out: Vec<Code> = Vec::new();
        core::mem::swap(&mut self.outbound, &mut out);
        assert(self@.outbound =~= Seq::empty());
        out
    }

    /// Gives up the notices collected for the sinks, in the order in which
    /// the acknowledgements came.
    pub fn take_notices(&mut self) -> (res: Vec<Notice>)
        ensures
            res@ == old(self)@.notices,
            final(self)@ == (ManagerModel { notices: Seq::empty(), ..old(self)@ }),
    {
        let mut out: Vec<Notice> = Vec::new();
        core::mem::swap(&mut self.notices, &mut out);
        out
    }
}

/// An acknowledgement that names the key of a command in flight removes
/// exactly one waiter, the first with that key: every other waiter stays,
/// the sink of the one that left is owed one notice for the key, and
/// nothing is handed to the link.
pub proof fn law_ack_removes_one_waiter(m: ManagerModel, code: CodeModel, key: (u8, u8))
    requires
        ManagerModel::acked_key(code) == Some(key),
        exists|i: int| 0 <= i < m.waiting.len() && (#[trigger] m.waiting[i]).key == key,
    ensures
        m.acknowledge(code).1,
        m.acked_waiter(code).is_some(),
        ({
            let i = m.acked_waiter(code).unwrap();
            let after = m.acknowledge(code).0;
            &&& 0 <= i < m.waiting.len()
            &&& m.waiting[i].key == key
            &&& forall|j: int| 0 <= j < i ==> (#[trigger] m.waiting[j]).key != key
            &&& after.waiting.len() == m.waiting.len() - 1
            &&& after.waiting.to_multiset() == m.waiting.to_multiset().remove(m.waiting[i])
            &&& after.notices == m.notices.push(Notice { sink: m.waiting[i].notify, key })
            &&& after.outbound == m.outbound
        }),
{
    let s = m.waiting;
    lemma_first_index(s, has_key(key));
    let i = first_index(s, has_key(key)).unwrap();
    assert forall|j: int| 0 <= j < i implies (#[trigger] s[j]).key != key by {
        assert(!has_key(key)(s[j]));
    }
    lemma_swap_remove(s, i);
}

/// An acknowledgement that names no command in flight changes nothing; it
/// is still taken when it has a first parameter.
pub proof fn law_ack_without_waiter(m: ManagerModel, code: CodeModel)
    requires
        forall|i: int|
            0 <= i < m.waiting.len() ==> Some((#[trigger] m.waiting[i]).key) != ManagerModel::acked_key(
                code,
            ),
    ensures
        m.acknowledge(code).0 == m,
        m.acknowledge(code).1 == code.first().is_some(),
{
    match ManagerModel::acked_key(code) {
        Some(key) => {
            assert forall|j: int| 0 <= j < m.waiting.len() implies !has_key(key)(
                #[trigger] m.waiting[j],
            ) by {}
            lemma_first_index_none(m.waiting, has_key(key));
        },
        None => {},
    }
}

/// A guaranteed command is in flight from the moment it is issued, with its
/// first deadline one interval after that moment, and no deadline is then
/// earlier than the manager's earliest.
pub proof fn law_guaranteed_command_waits(
    m: ManagerModel,
    code: CodeModel,
    notify: u64,
    retry: u64,
    now: u64,
)
    ensures
        ({
            let after = m.command_guaranteed(code, notify, retry, now);
            &&& after.waiting.len() == m.waiting.len() + 1
            &&& after.waiting.last().key == code.key()
            &&& after.waiting.last().due == deadline(now, retry)
            &&& after.outbound.last() == code
            &&& after.earliest_due().is_some()
            &&& after.earliest_due().unwrap() <= deadline(now, retry)
        }),
{
    let after = m.command_guaranteed(code, notify, retry, now);
    lemma_least_due(after.waiting);
}

/// A tick sends nothing again before the earliest deadline, and leaves the
/// manager as it was.
pub proof fn law_tick_before_deadline(m: ManagerModel, now: u64)
    requires
        m.earliest_due() matches Some(d) ==> now < d,
    ensures
        m.tick(now) == m,
{
    lemma_least_due(m.waiting);
    lemma_due_codes_none(m.waiting, now);
    assert(m.tick(now).waiting =~= m.waiting);
}

/// A command is sent again no sooner than its interval allows: short of
/// the clock's end, a waiter that a tick at `first` found due is not due
/// again at any later tick before `first` plus its interval.
pub proof fn law_resends_are_an_interval_apart(m: ManagerModel, i: int, first: u64, second: u64)
    requires
        0 <= i < m.waiting.len(),
        m.waiting[i].due <= first,
        first <= second,
        second < first + m.waiting[i].retry <= u64::MAX,
    ensures
        m.tick(first).waiting[i].due > second,
        m.tick(first).tick(second).waiting[i] == m.tick(first).waiting[i],
{
}

/// Where no waiter is due, nothing is sent again.
proof fn lemma_due_codes_none(waiting: Seq<WaitingModel>, now: u64)
    requires
        forall|i: int| 0 <= i < waiting.len() ==> now < (#[trigger] waiting[i]).due,
    ensures
        due_codes(waiting, now) == Seq::<CodeModel>::empty(),
    decreases waiting.len(),
{
    if waiting.len() > 0 {
        let front = waiting.drop_last();
        assert forall|i: int| 0 <= i < front.len() implies now < (#[trigger] front[i]).due by {}
        lemma_due_codes_none(front, now);
    }
}

/// A tick keeps the commands in flight and their order: one that was due at
/// `now` is next due one interval after `now`, another is untouched, and
/// what goes to the link grows by the records of those that were due.
pub proof fn law_tick_moves_deadlines(m: ManagerModel, now: u64, i: int)
    requires
        0 <= i < m.waiting.len(),
    ensures
        m.tick(now).waiting.len() == m.waiting.len(),
        m.tick(now).waiting[i].key == m.waiting[i].key,
        m.tick(now).waiting[i].code == m.waiting[i].code,
        m.waiting[i].due <= now ==> m.tick(now).waiting[i].due == deadline(now, m.waiting[i].retry),
        m.waiting[i].due > now ==> m.tick(now).waiting[i] == m.waiting[i],
        m.tick(now).outbound.len() == m.outbound.len() + due_codes(m.waiting, now).len(),
{
}

/// The number of the command that asks for every sensor's description.
pub const ALL_SENSORS_NUMBER: u8 = 1;

/// The number of the command that sets the station's clock.
pub const SET_CLOCK_NUMBER: u8 = 10;

/// The number of the command that resets the station.
pub const RESET_NUMBER: u8 = 20;

/// The number of the command that asks which sensors the station publishes
/// on its own.
pub const REQUEST_AUTOS_NUMBER: u8 = 102;

/// The year in which the station's calendar begins.
pub const CLOCK_EPOCH_YEAR: i32 = 1984;

/// The day of that year on which the station's calendar begins.
pub const CLOCK_EPOCH_DAY: u32 = 1;

/// A record without parameters.
pub open spec fn bare_code(letter: u8, number: u8) -> CodeModel {
    CodeModel { letter, number, params: Seq::empty() }
}

/// The command `M1`: stream back every sensor's description.
pub fn request_all_sensors_code() -> (res: Code)
    ensures
        res@ == bare_code(LETTER_M, ALL_SENSORS_NUMBER),
{
    Code::new(LETTER_M, ALL_SENSORS_NUMBER)
}

/// The record that asks for one sensor: `S` with the sensor's key, and the
/// parameter `R = "V"` where only the value is wanted.
pub open spec fn sensor_request(sensor: u8, only_value: bool) -> CodeModel {
    CodeModel {
        letter: LETTER_S,
        number: sensor,
        params: if only_value {
            seq![ParamModel { letter: LETTER_R, value: ValueModel::Bytes(seq![LETTER_V]) }]
        } else {
            Seq::empty()
        },
    }
}

/// The command that asks the station for one sensor, in full or its value
/// only.
pub fn request_sensor_code(sensor: u8, only_value: bool) -> (res: Code)
    ensures
        res@ == sensor_request(sensor, only_value),
{
    let bare = Code::new(LETTER_S, sensor);
    if only_value {
        let text: Vec<u8> = vec![LETTER_V];
        assert(text@ =~= seq![LETTER_V]);
        let res = bare.with(LETTER_R, ParamValue::Bytes(text));
        res
    } else {
        bare
    }
}

/// The record that sets the station's clock: `M10` with the days since the
/// calendar's first day in `D` and the milliseconds since midnight in `T`.
pub open spec fn clock_code(days: i32, millis: i32) -> CodeModel {
    CodeModel {
        letter: LETTER_M,
        number: SET_CLOCK_NUMBER,
        params: seq![
            ParamModel { letter: LETTER_D, value: ValueModel::Int(days) },
            ParamModel { letter: LETTER_T, value: ValueModel::Int(millis) },
        ],
    }
}

/// The command that sets the station's clock to a given local date and time
/// of day.
pub fn set_clock_code_at(days: i32, millis: i32) -> (res: Code)
    ensures
        res@ == clock_code(days, millis),
{
    let res = Code::new(LETTER_M, SET_CLOCK_NUMBER).with(LETTER_D, ParamValue::Int(days)).with(
        LETTER_T,
        ParamValue::Int(millis),
    );
    assert(res@.params =~= clock_code(days, millis).params);
    res
}

/// The command that sets the station's clock to the local date and time at
/// which it is made.
pub fn set_clock_code() -> (res: Code)
    ensures
        exists|days: i32, millis: i32|
            0 <= millis <= crate::clock::DAY_MILLIS_MAX && res@ == #[trigger] clock_code(days, millis),
{
    let (days, millis) = local_days_and_millis(CLOCK_EPOCH_YEAR, CLOCK_EPOCH_DAY);
    set_clock_code_at(days as i32, millis as i32)
}

/// The command `M20`: reset the station.
pub fn reset_code() -> (res: Code)
    ensures
        res@ == bare_code(LETTER_M, RESET_NUMBER),
{
    Code::new(LETTER_M, RESET_NUMBER)
}

/// The command `M102`: report which sensors the station publishes on its
/// own.
pub fn request_autos_code() -> (res: Code)
    ensures
        res@ == bare_code(LETTER_M, REQUEST_AUTOS_NUMBER),
{
    Code::new(LETTER_M, REQUEST_AUTOS_NUMBER)
}

/// The manager after the commands of a start: the clock command for a
/// given date and time, sent once, and the requests for every sensor's
/// description and for the autos, each sent again every `retry` until it is
/// acknowledged, for the sink `notify`.
pub open spec fn after_boot(
    m: ManagerModel,
    days: i32,
    millis: i32,
    notify: u64,
    retry: u64,
    now: u64,
) -> ManagerModel {
    m.command(clock_code(days, millis)).command_guaranteed(
        bare_code(LETTER_M, ALL_SENSORS_NUMBER),
        notify,
        retry,
        now,
    ).command_guaranteed(bare_code(LETTER_M, REQUEST_AUTOS_NUMBER), notify, retry, now)
}

/// Issues the commands of a start: sets the station's clock, without
/// waiting for an acknowledgement, and asks for every sensor's description
/// and for the autos as guaranteed commands. Returns the number of notices
/// that the sink `notify` is owed before the start is complete.
pub fn boot(commands: &mut CommandManager, notify: u64, retry: u64, now: u64) -> (res: usize)
    ensures
        res == 2,
        exists|days: i32, millis: i32|
            0 <= millis <= crate::clock::DAY_MILLIS_MAX && final(commands)@ == #[trigger] after_boot(
                old(commands)@,
                days,
                millis,
                notify,
                retry,
                now,
            ),
{
    let clock = set_clock_code();
    let ghost (days, millis) = choose|days: i32, millis: i32|
        0 <= millis <= crate::clock::DAY_MILLIS_MAX && clock@ == #[trigger] clock_code(days, millis);
    commands.command(clock);
    commands.command_guarentee(request_all_sensors_code(), notify, retry, now);
    commands.command_guarentee(request_autos_code(), notify, retry, now);
    assert(commands@ == after_boot(old(commands)@, days, millis, notify, retry, now));
    2
}

/// What one handler makes of a record: the manager and the catalogue
/// afterwards, and whether it took the record.
pub open spec fn handle(
    handler: Handler,
    commands: ManagerModel,
    sensors: CatalogueModel,
    code: CodeModel,
    now: u64,
    spelled: Option<u32>,
) -> (ManagerModel, CatalogueModel, bool) {
    match handler {
        Handler::Ack => {
            let r = commands.acknowledge(code);
            (r.0, sensors, r.1)
        },
        Handler::Sensor => {
            let r = sensors.ingest_sensor(code, now, spelled);
            (commands, r.0, r.1)
        },
        Handler::Autos => {
            let r = sensors.ingest_autos(code);
            (commands, r.0, r.1)
        },
    }
}

/// What a table of rules and handlers makes of a record: each handler whose
/// rule selects the record gets it, in the table's order, until one takes
/// it.
pub open spec fn dispatch(
    table: Seq<(Rule, Handler)>,
    commands: ManagerModel,
    sensors: CatalogueModel,
    code: CodeModel,
    now: u64,
    spelled: Option<u32>,
) -> (ManagerModel, CatalogueModel, bool)
    decreases table.len(),
{
    if table.len() == 0 {
        (commands, sensors, false)
    } else if table[0].0.selects(code) {
        let r = handle(table[0].1, commands, sensors, code, now, spelled);
        if r.2 {
            r
        } else {
            dispatch(table.drop_first(), r.0, r.1, code, now, spelled)
        }
    } else {
        dispatch(table.drop_first(), commands, sensors, code, now, spelled)
    }
}

/// The router: rules with their handlers, in the order of registration.
pub struct CodeHandler {
    callbacks: Vec<(Rule, Handler)>,
}

impl View for CodeHandler {
    type V = Seq<(Rule, Handler)>;

    closed spec fn view(&self) -> Seq<(Rule, Handler)> {
        self.callbacks@
    }
}

impl CodeHandler {
    /// A router without handlers.
    pub fn new() -> (res: Self)
        ensures
            res@ == Seq::<(Rule, Handler)>::empty(),
    {
        CodeHandler { callbacks: Vec::new() }
    }

    /// Registers a handler behind a rule, after those registered before.
    pub fn callback(&mut self, entry: (Rule, Handler))
        ensures
            final(self)@ == old(self)@.push(entry),
    {
        self.callbacks.push(entry);
    }

    /// Routes a record that arrived at `now`: the handlers whose rules
    /// select it get it in the order of registration, until one takes it.
    /// `spelled` is the number that the text of the record's `V` parameter
    /// spells, where that is a byte string. Returns whether a handler took
    /// the record.
    pub fn code(
        &self,
        code: &Code,
        commands: &mut CommandManager,
        sensors: &mut Sensors,
        now: u64,
        spelled: Option<u32>,
    ) -> (accepted: bool)
        requires
            old(sensors).wf(),
        ensures
            final(sensors).wf(),
            (final(commands)@, final(sensors)@, accepted) == dispatch(
                self@,
                old(commands)@,
                old(sensors)@,
                code@,
                now,
                spelled,
            ),
    {
        let ghost goal = dispatch(self@, old(commands)@, old(sensors)@, code@, now, spelled);
        let mut i: usize = 0;
        assert(self@.skip(0) =~= self@);
        while i < self.callbacks.len()
            invariant
                i <= self.callbacks.len(),
                sensors.wf(),
                goal == dispatch(self@, old(commands)@, old(sensors)@, code@, now, spelled),
                goal == dispatch(self@.skip(i as int), commands@, sensors@, code@, now, spelled),
            decreases self.callbacks.len() - i,
        {
            let ghost rest = self@.skip(i as int);
            assert(rest.drop_first() =~= self@.skip(i + 1));
            let rule = self.callbacks[i].0;
            let handler = self.callbacks[i].1;
            if rule.matches(code) {
                let accepted = match handler {
                    Handler::Ack => commands.acknowledge(code),
                    Handler::Sensor => sensors.put(code, now, spelled),
                    Handler::Autos => sensors.ingest_autos(code),
                };
                if accepted {
                    return true;
                }
            }
            i += 1;
        }
        false
    }
}

/// A handler that does not take a record leaves the manager and the
/// catalogue as they were.
pub proof fn law_refusing_handler_is_transparent(
    handler: Handler,
    commands: ManagerModel,
    sensors: CatalogueModel,
    code: CodeModel,
    now: u64,
    spelled: Option<u32>,
)
    requires
        !handle(handler, commands, sensors, code, now, spelled).2,
    ensures
        handle(handler, commands, sensors, code, now, spelled).0 == commands,
        handle(handler, commands, sensors, code, now, spelled).1 == sensors,
{
}

/// A record that no handler takes is dropped: the manager and the catalogue
/// are as they were.
pub proof fn law_untaken_record_is_dropped(
    table: Seq<(Rule, Handler)>,
    commands: ManagerModel,
    sensors: CatalogueModel,
    code: CodeModel,
    now: u64,
    spelled: Option<u32>,
)
    requires
        !dispatch(table, commands, sensors, code, now, spelled).2,
    ensures
        dispatch(table, commands, sensors, code, now, spelled).0 == commands,
        dispatch(table, commands, sensors, code, now, spelled).1 == sensors,
    decreases table.len(),
{
    if table.len() > 0 {
        if table[0].0.selects(code) {
            law_refusing_handler_is_transparent(table[0].1, commands, sensors, code, now, spelled);
        }
        law_untaken_record_is_dropped(table.drop_first(), commands, sensors, code, now, spelled);
    }
}

/// The record goes to the first handler, in the order of registration,
/// whose rule selects it and which takes it: the outcome is that handler's
/// alone, and the handlers after it do not see the record.
pub proof fn law_first_taker_decides(
    table: Seq<(Rule, Handler)>,
    commands: ManagerModel,
    sensors: CatalogueModel,
    code: CodeModel,
    now: u64,
    spelled: Option<u32>,
    at: int,
)
    requires
        0 <= at < table.len(),
        table[at].0.selects(code),
        handle(table[at].1, commands, sensors, code, now, spelled).2,
        forall|j: int|
            0 <= j < at ==> !((#[trigger] table[j]).0.selects(code) && handle(
                table[j].1,
                commands,
                sensors,
                code,
                now,
                spelled,
            ).2),
    ensures
        dispatch(table, commands, sensors, code, now, spelled) == handle(
            table[at].1,
            commands,
            sensors,
            code,
            now,
            spelled,
        ),
    decreases at,
{
    if at > 0 {
        let rest = table.drop_first();
        if table[0].0.selects(code) {
            law_refusing_handler_is_transparent(table[0].1, commands, sensors, code, now, spelled);
        }
        assert forall|j: int| 0 <= j < at - 1 implies !((#[trigger] rest[j]).0.selects(code)
            && handle(rest[j].1, commands, sensors, code, now, spelled).2) by {}
        law_first_taker_decides(rest, commands, sensors, code, now, spelled, at - 1);
    }
}

} // verus!
