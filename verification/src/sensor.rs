//! The sensor catalogue: sensors keyed by the station's index, with a second
//! index from a sensor's name to its key.

use std::collections::BTreeMap;
use vstd::prelude::*;
use vstd::pervasive::VecAdditionalExecFns;
use vstd::string::StringExecFns;
use vstd::utf8::encode_utf8;
use crate::code::{
    Code, CodeModel, ParamModel, ParamValue, ValueModel, LETTER_D, LETTER_E, LETTER_M, LETTER_N,
    LETTER_S, LETTER_U, LETTER_V,
};
use crate::station::{Handler, Rule};
use crate::text::{text_model, text_of};

verus! {

/// The number of the record that reports which sensors the station
/// publishes on its own.
pub const AUTOS_NUMBER: u8 = 102;

/// One sensor and its latest reading.
///
/// `value` is the bit pattern of a 32-bit float; `last_update` is an instant
/// of the monotonic clock.
#[derive(Debug, PartialEq, Eq)]
pub struct Sensor {
    pub name: String,
    pub unit: String,
    pub id: u8,
    pub value: u32,
    pub last_update: u64,
    pub auto: bool,
}

/// The mathematical value of a [`Sensor`].
pub ghost struct SensorModel {
    pub name: Seq<char>,
    pub unit: Seq<char>,
    pub id: u8,
    pub value: u32,
    pub last_update: u64,
    pub auto: bool,
}

impl View for Sensor {
    type V = SensorModel;

    open spec fn view(&self) -> SensorModel {
        SensorModel {
            name: self.name@,
            unit: self.unit@,
            id: self.id,
            value: self.value,
            last_update: self.last_update,
            auto: self.auto,
        }
    }
}

impl Clone for Sensor {
    fn clone(&self) -> (res: Self)
        ensures
            res@ == self@,
    {
        Sensor {
            name: self.name.clone(),
            unit: self.unit.clone(),
            id: self.id,
            value: self.value,
            last_update: self.last_update,
            auto: self.auto,
        }
    }
}

/// The set of sensors that a 32-bit integer spells: its bit pattern, with
/// nothing above bit 31.
pub open spec fn bit_pattern(x: i32) -> u64 {
    if x >= 0 {
        x as u64
    } else {
        (x + 0x1_0000_0000) as u64
    }
}

/// Whether `n` numbers one of the 64 bits of the set.
pub open spec fn bit_in_range(n: i32) -> bool {
    0 <= n < 64
}

/// The set after one parameter of an autos record: `E` puts a sensor in, `D`
/// takes one out, `V` replaces the whole set, anything else leaves it.
pub open spec fn autos_step(bits: u64, p: ParamModel) -> u64 {
    match p.value {
        ValueModel::Int(n) => {
            if p.letter == LETTER_E && bit_in_range(n) {
                bits | (1u64 << (n as u64))
            } else if p.letter == LETTER_D && bit_in_range(n) {
                bits & !(1u64 << (n as u64))
            } else if p.letter == LETTER_V {
                bit_pattern(n)
            } else {
                bits
            }
        },
        _ => bits,
    }
}

/// The set after the parameters of an autos record, taken in order.
pub open spec fn autos_bits(bits: u64, params: Seq<ParamModel>) -> u64
    decreases params.len(),
{
    if params.len() == 0 {
        bits
    } else {
        autos_bits(autos_step(bits, params[0]), params.drop_first())
    }
}

/// Whether the set holds the sensor `id`.
pub open spec fn auto_flag(bits: u64, id: u8) -> bool {
    id < 64 && (bits >> (id as u64)) & 1 == 1
}

/// The mathematical value of a catalogue: the sensors by key, and the key
/// that each known name leads to.
pub ghost struct CatalogueModel {
    pub sensors: Map<u8, SensorModel>,
    pub names: Map<Seq<char>, u8>,
}

impl CatalogueModel {
    /// The catalogue without sensors.
    pub open spec fn empty() -> Self {
        CatalogueModel { sensors: Map::empty(), names: Map::empty() }
    }

    /// Every sensor is stored under its own key, and every name leads to a
    /// stored sensor.
    pub open spec fn wf(self) -> bool {
        &&& forall|id: u8|
            self.sensors.dom().contains(id) ==> (#[trigger] self.sensors[id]).id == id
        &&& forall|n: Seq<char>|
            self.names.dom().contains(n) ==> self.sensors.dom().contains(#[trigger] self.names[n])
    }

    /// The sensor that a name leads to.
    pub open spec fn get(self, name: Seq<char>) -> Option<SensorModel> {
        if self.names.dom().contains(name) && self.sensors.dom().contains(self.names[name]) {
            Some(self.sensors[self.names[name]])
        } else {
            None
        }
    }

    /// The text of a record's `V` parameter, where that parameter is a byte
    /// string.
    pub open spec fn value_text(code: CodeModel) -> Option<Seq<u8>> {
        match code.find(LETTER_V) {
            Some(p) => p.value.bytes(),
            None => None,
        }
    }

    /// The reading that a sensor record carries in its `V` parameter: a
    /// float as it stands, or a byte string by the number it spells, which
    /// the caller supplies as `spelled`.
    pub open spec fn reading(code: CodeModel, spelled: Option<u32>) -> Option<u32> {
        match code.find(LETTER_V) {
            Some(p) => match p.value {
                ValueModel::Float(bits) => Some(bits),
                ValueModel::Bytes(_) => spelled,
                ValueModel::Int(_) => None,
            },
            None => None,
        }
    }

    /// The text of the first parameter with this letter, if it is a byte
    /// string.
    pub open spec fn label(code: CodeModel, letter: u8) -> Option<Seq<char>> {
        match code.find(letter) {
            Some(p) => match p.value {
                ValueModel::Bytes(b) => Some(text_model(b)),
                _ => None,
            },
            None => None,
        }
    }

    /// The catalogue after a record is offered as a sensor record, and
    /// whether a reading was installed.
    pub open spec fn ingest_sensor(self, code: CodeModel, now: u64, spelled: Option<u32>) -> (
        Self,
        bool,
    ) {
        if code.letter != LETTER_S {
            (self, false)
        } else {
            match Self::reading(code, spelled) {
                None => (self, false),
                Some(bits) => {
                    let id = code.number;
                    if self.sensors.dom().contains(id) {
                        let next = SensorModel {
                            value: bits,
                            last_update: now,
                            ..self.sensors[id]
                        };
                        (CatalogueModel { sensors: self.sensors.insert(id, next), ..self }, true)
                    } else {
                        match (Self::label(code, LETTER_N), Self::label(code, LETTER_U)) {
                            (Some(name), Some(unit)) => {
                                let fresh = SensorModel {
                                    name,
                                    unit,
                                    id,
                                    value: bits,
                                    last_update: now,
                                    auto: false,
                                };
                                (
                                    CatalogueModel {
                                        sensors: self.sensors.insert(id, fresh),
                                        names: self.names.insert(name, id),
                                    },
                                    true,
                                )
                            },
                            _ => (self, false),
                        }
                    }
                },
            }
        }
    }

    /// The catalogue with every sensor's flag taken from the set `bits`.
    pub open spec fn with_autos(self, bits: u64) -> Self {
        CatalogueModel {
            sensors: Map::new(
                |id: u8| self.sensors.dom().contains(id),
                |id: u8| SensorModel { auto: auto_flag(bits, id), ..self.sensors[id] },
            ),
            ..self
        }
    }

    /// The catalogue after a record is offered as an autos record, and
    /// whether it was one.
    pub open spec fn ingest_autos(self, code: CodeModel) -> (Self, bool) {
        if code.letter == LETTER_M && code.number == AUTOS_NUMBER {
            (self.with_autos(autos_bits(0, code.params)), true)
        } else {
            (self, false)
        }
    }
}

/// One entry of the name index.
struct NameEntry {
    name: String,
    id: u8,
}

/// No name occurs in two entries.
spec fn names_unique(entries: Seq<NameEntry>) -> bool {
    forall|i: int, j: int|
        0 <= i < j < entries.len() ==> (#[trigger] entries[i]).name@ != (#[trigger] entries[j]).name@
}

/// Whether entry `i` bears the name `n`.
spec fn names_hit(entries: Seq<NameEntry>, n: Seq<char>, i: int) -> bool {
    0 <= i < entries.len() && entries[i].name@ == n
}

/// The index as a map from names to keys.
spec fn names_map(entries: Seq<NameEntry>) -> Map<Seq<char>, u8> {
    Map::new(
        |n: Seq<char>| exists|i: int| names_hit(entries, n, i),
        |n: Seq<char>| entries[choose|i: int| names_hit(entries, n, i)].id,
    )
}

/// In an index without repeated names, the entry at `i` is what its name
/// leads to.
proof fn lemma_names_map_at(entries: Seq<NameEntry>, i: int)
    requires
        names_unique(entries),
        0 <= i < entries.len(),
    ensures
        names_map(entries).dom().contains(entries[i].name@),
        names_map(entries)[entries[i].name@] == entries[i].id,
{
    assert(names_hit(entries, entries[i].name@, i));
}

/// The sensors by their mathematical values.
spec fn sensors_map(stored: Map<u8, Sensor>) -> Map<u8, SensorModel> {
    Map::new(|id: u8| stored.contains_key(id), |id: u8| stored[id]@)
}

/// The catalogue of sensors.
pub struct Sensors {
    sensors: BTreeMap<u8, Sensor>,
    names: Vec<NameEntry>,
}

impl View for Sensors {
    type V = CatalogueModel;

    closed spec fn view(&self) -> CatalogueModel {
        CatalogueModel { sensors: sensors_map(self.sensors@), names: names_map(self.names@) }
    }
}

impl Sensors {
    /// The invariant of the catalogue: a sensor is stored under its own
    /// key, no name is indexed twice, and every indexed name leads to a
    /// stored sensor.
    pub closed spec fn wf(&self) -> bool {
        &&& forall|id: u8|
            self.sensors@.contains_key(id) ==> (#[trigger] self.sensors@[id]).id == id
        &&& names_unique(self.names@)
        &&& forall|i: int|
            0 <= i < self.names@.len() ==> self.sensors@.contains_key(
                (#[trigger] self.names@[i]).id,
            )
    }

    /// A catalogue that meets its invariant has a well-formed model.
    pub proof fn law_model_is_well_formed(&self)
        requires
            self.wf(),
        ensures
            self@.wf(),
    {
        assert forall|n: Seq<char>| self@.names.dom().contains(n) implies self@.sensors.dom().contains(
            #[trigger] self@.names[n],
        ) by {
            let k = choose|k: int| names_hit(self.names@, n, k);
            assert(names_hit(self.names@, n, k));
        }
    }

    /// The catalogue without sensors.
    pub fn new() -> (res: Self)
        ensures
            res.wf(),
            res@ == CatalogueModel::empty(),
    {
        let res = Sensors { sensors: BTreeMap::new(), names: Vec::new() };
        assert(res@.sensors =~= Map::empty());
        assert(res@.names =~= Map::empty()) by {
            assert forall|n: Seq<char>| !res@.names.dom().contains(n) by {
                assert forall|k: int| !names_hit(res.names@, n, k) by {}
            }
        }
        res
    }

    /// The bytes of the `V` parameter of a record, where that parameter is a
    /// byte string: the text whose number `put` expects as `spelled`.
    pub fn value_text(code: &Code) -> (res: Option<&Vec<u8>>)
        ensures
            match res {
                Some(b) => CatalogueModel::value_text(code@) == Some(b@),
                None => CatalogueModel::value_text(code@).is_none(),
            },
    {
        match code.find(LETTER_V) {
            Some(p) => p.value.as_bytes(),
            None => None,
        }
    }

    /// The position in the index of the entry with this name.
    fn name_position(&self, name: &String) -> (res: Option<usize>)
        ensures
            match res {
                Some(i) => names_hit(self.names@, name@, i as int),
                None => forall|j: int| !names_hit(self.names@, name@, j),
            },
    {
        let mut i: usize = 0;
        while i < self.names.len()
            invariant
                i <= self.names.len(),
                forall|j: int| 0 <= j < i ==> !names_hit(self.names@, name@, j),
            decreases self.names.len() - i,
        {
            if self.names[i].name == *name {
                return Some(i);
            }
            i += 1;
        }
        None
    }

    /// Makes `name` lead to `id`, whatever it led to before.
    fn index_name(&mut self, name: String, id: u8)
        requires
            names_unique(old(self).names@),
        ensures
            names_unique(final(self).names@),
            final(self).sensors == old(self).sensors,
            names_map(final(self).names@) == names_map(old(self).names@).insert(name@, id),
            forall|i: int|
                0 <= i < final(self).names@.len() ==> (#[trigger] final(self).names@[i]).id == id || (
                exists|j: int|
                    0 <= j < old(self).names@.len() && old(self).names@[j].id == final(self).names@[i].id),
    {
        let ghost before = self.names@;
        let ghost text = name@;
        let at = self.name_position(&name);
        match at {
            Some(i) => {
                self.names.set(i, NameEntry { name, id });
            },
            None => {
                self.names.push(NameEntry { name, id });
            },
        }
        let ghost after = self.names@;
        let ghost spot: int = match at {
            Some(i) => i as int,
            None => before.len() as int,
        };
        assert(names_hit(after, text, spot));
        assert forall|i: int| 0 <= i < after.len() && i != spot implies #[trigger] after[i]
            == before[i] && after[i].name@ != text by {
            assert(!names_hit(before, text, i) || i == spot);
        }
        assert(names_unique(after)) by {
            assert forall|i: int, j: int| 0 <= i < j < after.len() implies (#[trigger] after[i]).name@
                != (#[trigger] after[j]).name@ by {}
        }
        assert(names_map(after) =~= names_map(before).insert(text, id)) by {
            assert forall|n: Seq<char>| #[trigger]
                names_map(after).dom().contains(n) == names_map(before).insert(
                    text,
                    id,
                ).dom().contains(n) by {
                if n != text {
                    if names_map(after).dom().contains(n) {
                        let k = choose|k: int| names_hit(after, n, k);
                        assert(names_hit(before, n, k));
                    }
                    if names_map(before).dom().contains(n) {
                        let k = choose|k: int| names_hit(before, n, k);
                        assert(names_hit(after, n, k));
                    }
                }
            }
            assert forall|n: Seq<char>| names_map(after).dom().contains(n) implies #[trigger]
                names_map(after)[n] == names_map(before).insert(text, id)[n] by {
                let k = choose|k: int| names_hit(after, n, k);
                lemma_names_map_at(after, k);
                if n == text {
                    lemma_names_map_at(after, spot);
                } else {
                    lemma_names_map_at(before, k);
                }
            }
        }
        assert forall|i: int| 0 <= i < after.len() implies (#[trigger] after[i]).id == id || (
        exists|j: int| 0 <= j < before.len() && before[j].id == after[i].id) by {}
    }

    /// Offers a record to the catalogue as a sensor record.
    ///
    /// A record with the letter `S` and a reading in its `V` parameter
    /// updates the sensor that its number names, or, with a name in `N` and
    /// a unit in `U`, creates it. The reading is a float, or a byte string
    /// that spells a number; `spelled` is the number that the text of `V`
    /// spells, for a `V` that is a byte string. Name and unit must be byte
    /// strings, which are read as text: a record whose `N` or `U` carries a
    /// number does not create a sensor. Returns whether a reading was
    /// installed; the catalogue is unchanged where none was.
    pub fn put(&mut self, code: &Code, now: u64, spelled: Option<u32>) -> (accepted: bool)
        requires
            old(self).wf(),
        ensures
            final(self).wf(),
            (final(self)@, accepted) == old(self)@.ingest_sensor(code@, now, spelled),
    {
        if code.letter != LETTER_S {
            return false;
        }
        let bits: u32 = match code.find(LETTER_V) {
            None => {
                return false;
            },
            Some(p) => match &p.value {
                ParamValue::Float(b) => *b,
                ParamValue::Bytes(_) => match spelled {
                    Some(b) => b,
                    None => {
                        return false;
                    },
                },
                ParamValue::Int(_) => {
                    return false;
                },
            },
        };
        let id = code.number;
        if self.sensors.contains_key(&id) {
            let cur = self.sensors.remove(&id).unwrap();
            let next = Sensor {
                name: cur.name,
                unit: cur.unit,
                id: cur.id,
                value: bits,
                last_update: now,
                auto: cur.auto,
            };
            let ghost installed = next@;
            self.sensors.insert(id, next);
            assert(self@.sensors =~= old(self)@.sensors.insert(id, installed));
            true
        } else {
            let name_bytes = match code.find(LETTER_N) {
                None => {
                    return false;
                },
                Some(p) => match &p.value {
                    ParamValue::Bytes(b) => b,
                    _ => {
                        return false;
                    },
                },
            };
            let unit_bytes = match code.find(LETTER_U) {
                None => {
                    return false;
                },
                Some(p) => match &p.value {
                    ParamValue::Bytes(b) => b,
                    _ => {
                        return false;
                    },
                },
            };
            let name = text_of(name_bytes.as_slice());
            let unit = text_of(unit_bytes.as_slice());
            let fresh = Sensor {
                name: name.clone(),
                unit,
                id,
                value: bits,
                last_update: now,
                auto: false,
            };
            let ghost installed = fresh@;
            self.sensors.insert(id, fresh);
            self.index_name(name, id);
            assert(self@.sensors =~= old(self)@.sensors.insert(id, installed));
            assert forall|i: int| 0 <= i < self.names@.len() implies self.sensors@.contains_key(
                (#[trigger] self.names@[i]).id,
            ) by {
                if self.names@[i].id != id {
                    let j = choose|j: int|
                        0 <= j < old(self).names@.len() && old(self).names@[j].id
                            == self.names@[i].id;
                    assert(old(self).sensors@.contains_key(old(self).names@[j].id));
                }
            }
            true
        }
    }

    /// The sensor that `name` leads to.
    pub fn get(&self, name: &str) -> (res: Option<&Sensor>)
        requires
            self.wf(),
        ensures
            match res {
                Some(s) => self@.get(name@) == Some(s@),
                None => self@.get(name@).is_none(),
            },
    {
        let owned = String::from_str(name);
        match self.name_position(&owned) {
            Some(i) => {
                proof {
                    lemma_names_map_at(self.names@, i as int);
                }
                let id = self.names[i].id;
                self.sensors.get(&id)
            },
            None => {
                assert(!self@.names.dom().contains(name@)) by {
                    assert forall|k: int| !names_hit(self.names@, name@, k) by {}
                }
                None
            },
        }
    }

    /// The sensor stored under the key `id`.
    pub fn by_id(&self, id: u8) -> (res: Option<&Sensor>)
        requires
            self.wf(),
        ensures
            match res {
                Some(s) => self@.sensors.dom().contains(id) && self@.sensors[id] == s@,
                None => !self@.sensors.dom().contains(id),
            },
    {
        self.sensors.get(&id)
    }

    /// The sensors, ordered by key.
    pub fn iter(&self) -> (res: Vec<&Sensor>)
        requires
            self.wf(),
        ensures
            forall|k: int|
                0 <= k < res@.len() ==> self@.sensors.dom().contains((#[trigger] res@[k]).id)
                    && self@.sensors[res@[k].id] == res@[k]@,
            forall|k: int, l: int|
                0 <= k < l < res@.len() ==> (#[trigger] res@[k]).id < (#[trigger] res@[l]).id,
            forall|id: u8|
                self@.sensors.dom().contains(id) ==> exists|k: int|
                    0 <= k < res@.len() && (#[trigger] res@[k]).id == id,
    {
        let mut found: Vec<&Sensor> = Vec::new();
        let mut i: usize = 0;
        while i < 256
            invariant
                i <= 256,
                self.wf(),
                forall|k: int|
                    0 <= k < found@.len() ==> (#[trigger] found@[k]).id < i
                        && self.sensors@.contains_key(found@[k].id) && self.sensors@[found@[k].id]
                        == *found@[k],
                forall|k: int, l: int|
                    0 <= k < l < found@.len() ==> (#[trigger] found@[k]).id < (
                    #[trigger] found@[l]).id,
                forall|id: u8|
                    id < i && self.sensors@.contains_key(id) ==> exists|k: int|
                        0 <= k < found@.len() && (#[trigger] found@[k]).id == id,
            decreases 256 - i,
        {
            let id: u8 = i as u8;
            match self.sensors.get(&id) {
                Some(s) => {
                    let ghost before = found@;
                    found.push(s);
                    assert forall|other: u8|
                        other < i + 1 && self.sensors@.contains_key(other) implies exists|k: int|
                        0 <= k < found@.len() && (#[trigger] found@[k]).id == other by {
                        if other < i {
                            let k = choose|k: int|
                                0 <= k < before.len() && (#[trigger] before[k]).id == other;
                            assert(found@[k].id == other);
                        } else {
                            assert(found@[before.len() as int].id == other);
                        }
                    }
                },
                None => {},
            }
            i += 1;
        }
        found
    }

    /// Offers a record to the catalogue as an autos record.
    ///
    /// The record `M102` spells a set of sensors, built from nothing by its
    /// parameters in order; afterwards a sensor's flag says whether the set
    /// holds it. Returns whether the record was one; the catalogue is
    /// unchanged where it was not.
    pub fn ingest_autos(&mut self, code: &Code) -> (accepted: bool)
        requires
            old(self).wf(),
        ensures
            final(self).wf(),
            (final(self)@, accepted) == old(self)@.ingest_autos(code@),
    {
        if code.letter != LETTER_M || code.number != AUTOS_NUMBER {
            return false;
        }
        let bits = autos_of(code);
        let mut i: usize = 0;
        while i < 256
            invariant
                i <= 256,
                self.names == old(self).names,
                forall|id: u8|
                    self.sensors@.contains_key(id) == old(self).sensors@.contains_key(id),
                forall|id: u8|
                    id < i && self.sensors@.contains_key(id) ==> (#[trigger] self.sensors@[id])@
                        == (SensorModel { auto: auto_flag(bits, id), ..old(self).sensors@[id]@ }),
                forall|id: u8|
                    id >= i && self.sensors@.contains_key(id) ==> (#[trigger] self.sensors@[id])
                        == old(self).sensors@[id],
            decreases 256 - i,
        {
            let id: u8 = i as u8;
            if self.sensors.contains_key(&id) {
                let cur = self.sensors.remove(&id).unwrap();
                let flag = id < 64 && (bits >> (id as u64)) & 1 == 1;
                let next = Sensor {
                    name: cur.name,
                    unit: cur.unit,
                    id: cur.id,
                    value: cur.value,
                    last_update: cur.last_update,
                    auto: flag,
                };
                self.sensors.insert(id, next);
            }
            i += 1;
        }
        assert(self@.sensors =~= old(self)@.with_autos(bits).sensors);
        true
    }

    /// The registration of `put` with a router: the rule that selects sensor
    /// records.
    pub fn sensor_callback() -> (res: (Rule, Handler))
        ensures
            res.0 == (Rule { letter: Some(LETTER_S), number: None }),
            res.1 == Handler::Sensor,
    {
        (Rule::letter(LETTER_S), Handler::Sensor)
    }

    /// The registration of `ingest_autos` with a router: the rule that
    /// selects autos records.
    pub fn autos_callback() -> (res: (Rule, Handler))
        ensures
            res.0 == (Rule { letter: Some(LETTER_M), number: Some(AUTOS_NUMBER) }),
            res.1 == Handler::Autos,
    {
        (Rule::new(LETTER_M, AUTOS_NUMBER), Handler::Autos)
    }
}

/// The set of sensors that an autos record spells.
pub fn autos_of(code: &Code) -> (bits: u64)
    ensures
        bits == autos_bits(0, code@.params),
{
    let mut bits: u64 = 0;
    let mut i: usize = 0;
    assert(code@.params.skip(0) =~= code@.params);
    while i < code.params.len()
        invariant
            i <= code.params.len(),
            autos_bits(0, code@.params) == autos_bits(bits, code@.params.skip(i as int)),
        decreases code.params.len() - i,
    {
        let p = &code.params[i];
        let ghost rest = code@.params.skip(i as int);
        assert(rest.drop_first() =~= code@.params.skip(i + 1));
        match &p.value {
            ParamValue::Int(n) => {
                let n: i32 = *n;
                if p.letter == LETTER_E && 0 <= n && n < 64 {
                    bits = bits | (1u64 << (n as u64));
                } else if p.letter == LETTER_D && 0 <= n && n < 64 {
                    bits = bits & !(1u64 << (n as u64));
                } else if p.letter == LETTER_V {
                    let wide: i64 = n as i64;
                    bits = if wide >= 0 {
                        wide as u64
                    } else {
                        (wide + 0x1_0000_0000) as u64
                    };
                }
            },
            _ => {},
        }
        i += 1;
    }
    bits
}

/// One record offered to a catalogue.
pub ghost enum CatalogueEvent {
    /// A record offered as a sensor record at an instant, with the number
    /// that the text of its `V` parameter spells.
    Sensor { code: CodeModel, now: u64, spelled: Option<u32> },
    /// A record offered as an autos record.
    Autos { code: CodeModel },
}

impl CatalogueModel {
    /// The catalogue after one event.
    pub open spec fn after(self, event: CatalogueEvent) -> Self {
        match event {
            CatalogueEvent::Sensor { code, now, spelled } => self.ingest_sensor(code, now, spelled).0,
            CatalogueEvent::Autos { code } => self.ingest_autos(code).0,
        }
    }

    /// The catalogue after a run of events, taken in order.
    pub open spec fn after_all(self, events: Seq<CatalogueEvent>) -> Self
        decreases events.len(),
    {
        if events.len() == 0 {
            self
        } else {
            self.after(events[0]).after_all(events.drop_first())
        }
    }
}

/// A well-formed catalogue stays well-formed under any event.
pub proof fn law_event_keeps_wf(cat: CatalogueModel, event: CatalogueEvent)
    requires
        cat.wf(),
    ensures
        cat.after(event).wf(),
{
}

/// A sensor that the catalogue knows stays in it under any event, with the
/// name and the unit it had.
pub proof fn law_event_keeps_identity(cat: CatalogueModel, event: CatalogueEvent, id: u8)
    requires
        cat.sensors.dom().contains(id),
    ensures
        cat.after(event).sensors.dom().contains(id),
        cat.after(event).sensors[id].name == cat.sensors[id].name,
        cat.after(event).sensors[id].unit == cat.sensors[id].unit,
{
}

/// Once a sensor is known, no run of events removes it or changes its name
/// or its unit.
pub proof fn law_identity_never_changes(cat: CatalogueModel, events: Seq<CatalogueEvent>, id: u8)
    requires
        cat.sensors.dom().contains(id),
    ensures
        cat.after_all(events).sensors.dom().contains(id),
        cat.after_all(events).sensors[id].name == cat.sensors[id].name,
        cat.after_all(events).sensors[id].unit == cat.sensors[id].unit,
    decreases events.len(),
{
    if events.len() > 0 {
        law_event_keeps_identity(cat, events[0], id);
        law_identity_never_changes(cat.after(events[0]), events.drop_first(), id);
    }
}

/// A sensor record that creates a sensor makes its name lead to it: after a
/// record `S` for an unknown key with a reading, a name and a unit, `get` on
/// that name finds a sensor with the record's number, reading, name and unit.
pub proof fn law_created_sensor_is_found(
    cat: CatalogueModel,
    code: CodeModel,
    now: u64,
    spelled: Option<u32>,
)
    requires
        code.letter == LETTER_S,
        !cat.sensors.dom().contains(code.number),
        CatalogueModel::reading(code, spelled).is_some(),
        CatalogueModel::label(code, LETTER_N).is_some(),
        CatalogueModel::label(code, LETTER_U).is_some(),
    ensures
        cat.ingest_sensor(code, now, spelled).1,
        cat.ingest_sensor(code, now, spelled).0.get(CatalogueModel::label(code, LETTER_N).unwrap())
            == Some(
            SensorModel {
                name: CatalogueModel::label(code, LETTER_N).unwrap(),
                unit: CatalogueModel::label(code, LETTER_U).unwrap(),
                id: code.number,
                value: CatalogueModel::reading(code, spelled).unwrap(),
                last_update: now,
                auto: false,
            },
        ),
{
}

/// A sensor is found under the name it was announced with: after a sensor
/// record for an unknown key, with a float in `V` and the UTF-8 bytes of
/// `name` and `unit` in `N` and `U`, the name leads to a sensor with that
/// key, name, unit and reading, last updated at the record's arrival and
/// not published by the station on its own.
pub proof fn law_announced_sensor_is_found(
    cat: CatalogueModel,
    code: CodeModel,
    now: u64,
    spelled: Option<u32>,
    name: Seq<char>,
    unit: Seq<char>,
    bits: u32,
)
    requires
        code.letter == LETTER_S,
        !cat.sensors.dom().contains(code.number),
        code.find(LETTER_V) matches Some(p) && p.value == ValueModel::Float(bits),
        code.find(LETTER_N) matches Some(p) && p.value == ValueModel::Bytes(encode_utf8(name)),
        code.find(LETTER_U) matches Some(p) && p.value == ValueModel::Bytes(encode_utf8(unit)),
    ensures
        cat.ingest_sensor(code, now, spelled).1,
        cat.ingest_sensor(code, now, spelled).0.get(name) == Some(
            SensorModel { name, unit, id: code.number, value: bits, last_update: now, auto: false },
        ),
        cat.ingest_sensor(code, now, spelled).0.sensors == cat.sensors.insert(
            code.number,
            SensorModel { name, unit, id: code.number, value: bits, last_update: now, auto: false },
        ),
{
    vstd::utf8::encode_utf8_valid_utf8(name);
    vstd::utf8::encode_utf8_decode_utf8(name);
    vstd::utf8::encode_utf8_valid_utf8(unit);
    vstd::utf8::encode_utf8_decode_utf8(unit);
}

/// A sensor record for a known sensor replaces its reading and the instant
/// of its last update, and nothing else in the catalogue.
pub proof fn law_known_sensor_is_updated(
    cat: CatalogueModel,
    code: CodeModel,
    now: u64,
    spelled: Option<u32>,
)
    requires
        code.letter == LETTER_S,
        cat.sensors.dom().contains(code.number),
        CatalogueModel::reading(code, spelled).is_some(),
    ensures
        cat.ingest_sensor(code, now, spelled).1,
        cat.ingest_sensor(code, now, spelled).0.names == cat.names,
        cat.ingest_sensor(code, now, spelled).0.sensors.dom() == cat.sensors.dom(),
        cat.ingest_sensor(code, now, spelled).0.sensors[code.number] == (SensorModel {
            value: CatalogueModel::reading(code, spelled).unwrap(),
            last_update: now,
            ..cat.sensors[code.number]
        }),
        forall|id: u8|
            id != code.number && cat.sensors.dom().contains(id) ==> cat.ingest_sensor(
                code,
                now,
                spelled,
            ).0.sensors[id] == cat.sensors[id],
{
}

/// The parameters `V = x`, `E = a`, `D = b`, in that order.
pub open spec fn overwrite_set_clear(x: i32, a: i32, b: i32) -> Seq<ParamModel> {
    seq![
        ParamModel { letter: LETTER_V, value: ValueModel::Int(x) },
        ParamModel { letter: LETTER_E, value: ValueModel::Int(a) },
        ParamModel { letter: LETTER_D, value: ValueModel::Int(b) },
    ]
}

/// An autos record that overwrites the set with `x`, then puts in bit `a`,
/// then takes out bit `b`, spells the set `(x | 1 << a) & !(1 << b)`,
/// whatever the set was before.
pub proof fn law_overwrite_set_clear_bits(start: u64, x: i32, a: i32, b: i32)
    requires
        bit_in_range(a),
        bit_in_range(b),
    ensures
        autos_bits(start, overwrite_set_clear(x, a, b)) == (bit_pattern(x) | (1u64 << (a as u64)))
            & !(1u64 << (b as u64)),
{
    let all = overwrite_set_clear(x, a, b);
    assert(all.drop_first().drop_first().drop_first().len() == 0);
    reveal_with_fuel(autos_bits, 4);
}

/// After the autos record `M102` with `V = x`, `E = a`, `D = b`, in that
/// order, the flag of every sensor with a key below 64 is bit `id` of
/// `(x | 1 << a) & !(1 << b)`; a sensor with a higher key is outside the set
/// and has its flag cleared.
pub proof fn law_autos_overwrite_set_clear(cat: CatalogueModel, x: i32, a: i32, b: i32, id: u8)
    requires
        bit_in_range(a),
        bit_in_range(b),
        cat.sensors.dom().contains(id),
    ensures
        ({
            let code = CodeModel {
                letter: LETTER_M,
                number: AUTOS_NUMBER,
                params: overwrite_set_clear(x, a, b),
            };
            let after = cat.ingest_autos(code).0;
            let bits = (bit_pattern(x) | (1u64 << (a as u64))) & !(1u64 << (b as u64));
            &&& after.sensors.dom().contains(id)
            &&& id < 64 ==> after.sensors[id].auto == ((bits >> (id as u64)) & 1 == 1)
            &&& id >= 64 ==> !after.sensors[id].auto
        }),
{
    law_overwrite_set_clear_bits(0, x, a, b);
}

} // verus!
