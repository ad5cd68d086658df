//! The publisher's part: asking the station for fresh values, and putting a
//! weather update together from the catalogue.

use vstd::prelude::*;
use crate::clock::local_timestamp;
use crate::sensor::{CatalogueModel, Sensor, SensorModel, Sensors};
use crate::station::{request_sensor_code, sensor_request, CommandManager, ManagerModel};

verus! {

/// The interval at which a request for a sensor's value is sent again, in
/// milliseconds.
pub const RETRY_MILLIS: u64 = 1_000;

/// The manager after a request for the value of every known sensor with a
/// key below `upto`, lowest key first: each is a guaranteed command with a
/// retry of one second, for the sink `notify`.
pub open spec fn after_value_requests(
    m: ManagerModel,
    cat: CatalogueModel,
    upto: nat,
    notify: u64,
    now: u64,
) -> ManagerModel
    decreases upto,
{
    if upto == 0 {
        m
    } else {
        let before = after_value_requests(m, cat, (upto - 1) as nat, notify, now);
        let id = (upto - 1) as u8;
        if cat.sensors.dom().contains(id) {
            before.command_guaranteed(sensor_request(id, true), notify, RETRY_MILLIS, now)
        } else {
            before
        }
    }
}

/// The number of known sensors with a key below `upto`.
pub open spec fn known_below(cat: CatalogueModel, upto: nat) -> nat
    decreases upto,
{
    if upto == 0 {
        0
    } else {
        known_below(cat, (upto - 1) as nat) + if cat.sensors.dom().contains((upto - 1) as u8) {
            1nat
        } else {
            0nat
        }
    }
}

/// Asks the station for the value of every known sensor, lowest key first,
/// as guaranteed commands whose notices go to the sink `notify`. Returns
/// the number of requests, which is the number of notices to wait for.
pub fn get_updates(sensors: &Sensors, commands: &mut CommandManager, notify: u64, now: u64) -> (res:
    usize)
    requires
        sensors.wf(),
    ensures
        res == known_below(sensors@, 256),
        final(commands)@ == after_value_requests(old(commands)@, sensors@, 256, notify, now),
{
    let mut count: usize = 0;
    let mut id: usize = 0;
    while id < 256
        invariant
            id <= 256,
            sensors.wf(),
            count <= id,
            count == known_below(sensors@, id as nat),
            commands@ == after_value_requests(old(commands)@, sensors@, id as nat, notify, now),
        decreases 256 - id,
    {
        if sensors.by_id(id as u8).is_some() {
            commands.command_guarentee(request_sensor_code(id as u8, true), notify, RETRY_MILLIS, now);
            count += 1;
        }
        id += 1;
    }
    count
}

/// Every known sensor gets one request and nothing else changes: the
/// requests add one command in flight and one record for the link for each
/// known sensor with a key below `upto`, behind those that were there, and
/// owe no notice yet.
pub proof fn law_one_request_per_sensor(
    m: ManagerModel,
    cat: CatalogueModel,
    upto: nat,
    notify: u64,
    now: u64,
)
    ensures
        ({
            let after = after_value_requests(m, cat, upto, notify, now);
            &&& after.waiting.len() == m.waiting.len() + known_below(cat, upto)
            &&& after.outbound.len() == m.outbound.len() + known_below(cat, upto)
            &&& after.waiting.take(m.waiting.len() as int) == m.waiting
            &&& after.outbound.take(m.outbound.len() as int) == m.outbound
            &&& after.notices == m.notices
        }),
    decreases upto,
{
    let after = after_value_requests(m, cat, upto, notify, now);
    if upto > 0 {
        law_one_request_per_sensor(m, cat, (upto - 1) as nat, notify, now);
        let before = after_value_requests(m, cat, (upto - 1) as nat, notify, now);
        assert(after.waiting.take(m.waiting.len() as int) =~= before.waiting.take(
            m.waiting.len() as int,
        ));
        assert(after.outbound.take(m.outbound.len() as int) =~= before.outbound.take(
            m.outbound.len() as int,
        ));
    } else {
        assert(after.waiting.take(m.waiting.len() as int) =~= m.waiting);
        assert(after.outbound.take(m.outbound.len() as int) =~= m.outbound);
    }
}

/// One entry of a field of an update: a unit and a value, the value being
/// the bit pattern of a 32-bit float.
#[derive(Debug, PartialEq, Eq)]
pub struct SensorValue {
    pub unit: String,
    pub value: u32,
}

/// The mathematical value of a [`SensorValue`].
pub ghost struct SensorValueModel {
    pub unit: Seq<char>,
    pub value: u32,
}

impl View for SensorValue {
    type V = SensorValueModel;

    open spec fn view(&self) -> SensorValueModel {
        SensorValueModel { unit: self.unit@, value: self.value }
    }
}

/// The mathematical value of a field of an update.
pub open spec fn values_of(field: Seq<SensorValue>) -> Seq<SensorValueModel> {
    Seq::new(field.len(), |i: int| field[i]@)
}

/// The field that a sensor fills: its unit and value where it is known,
/// and nothing where it is not.
pub open spec fn listing(found: Option<SensorModel>) -> Seq<SensorValueModel> {
    match found {
        Some(s) => seq![SensorValueModel { unit: s.unit, value: s.value }],
        None => Seq::empty(),
    }
}

/// The field for the dew point: the derived value in the temperature's
/// unit, where both the temperature and the humidity are known and the
/// value was derived.
pub open spec fn dew_listing(cat: CatalogueModel, dewpoint: Option<u32>) -> Seq<SensorValueModel> {
    match (cat.get("temperature"@), cat.get("humidity"@), dewpoint) {
        (Some(t), Some(_), Some(value)) => seq![SensorValueModel { unit: t.unit, value }],
        _ => Seq::empty(),
    }
}

/// The field that a sensor fills.
pub fn map_sensor(val: Option<&Sensor>) -> (res: Vec<SensorValue>)
    ensures
        values_of(res@) == listing(
            match val {
                Some(s) => Some(s@),
                None => None,
            },
        ),
{
    match val {
        Some(s) => vec![SensorValue { unit: s.unit.clone(), value: s.value }],
        None => Vec::new(),
    }
}

/// The readings from which the dew point is derived: the values of the
/// temperature and of the humidity, where both are known.
pub fn dew_point_inputs(sensors: &Sensors) -> (res: Option<(u32, u32)>)
    requires
        sensors.wf(),
    ensures
        res == match (sensors@.get("temperature"@), sensors@.get("humidity"@)) {
            (Some(t), Some(h)) => Some((t.value, h.value)),
            _ => None::<(u32, u32)>,
        },
{
    match sensors.get("temperature") {
        Some(t) => match sensors.get("humidity") {
            Some(h) => Some((t.value, h.value)),
            None => None,
        },
        None => None,
    }
}

/// A weather update: when and by whom, and one field for each quantity,
/// filled from the sensor of the matching name and empty where that sensor
/// is unknown.
#[derive(Debug, PartialEq, Eq)]
pub struct Update {
    pub time: String,
    pub id: String,
    pub winddir: Vec<SensorValue>,
    pub windspd: Vec<SensorValue>,
    pub windgustspd_2m: Vec<SensorValue>,
    pub windgustdir_2m: Vec<SensorValue>,
    pub windspd_avg2m: Vec<SensorValue>,
    pub winddir_avg2m: Vec<SensorValue>,
    pub windspd_avg10m: Vec<SensorValue>,
    pub winddir_avg10m: Vec<SensorValue>,
    pub windgustspd_10m: Vec<SensorValue>,
    pub windgustdir_10m: Vec<SensorValue>,
    pub humidity: Vec<SensorValue>,
    pub temp: Vec<SensorValue>,
    pub rain_1h: Vec<SensorValue>,
    pub dailyrain: Vec<SensorValue>,
    pub barom: Vec<SensorValue>,
    pub uv: Vec<SensorValue>,
    pub dewpoint: Vec<SensorValue>,
}

impl Update {
    /// Whether the update is the one that the catalogue gives at `time` for
    /// the station `id`, with the dew point `dewpoint`.
    pub open spec fn is_snapshot_of(
        &self,
        cat: CatalogueModel,
        time: Seq<char>,
        id: Seq<char>,
        dewpoint: Option<u32>,
    ) -> bool {
        &&& self.time@ == time
        &&& self.id@ == id
        &&& values_of(self.winddir@) == listing(cat.get("wind heading"@))
        &&& values_of(self.windspd@) == listing(cat.get("wind speed"@))
        &&& values_of(self.windgustspd_2m@) == listing(cat.get("gust 2m wind speed"@))
        &&& values_of(self.windgustdir_2m@) == listing(cat.get("gust 2m wind heading"@))
        &&& values_of(self.windspd_avg2m@) == listing(cat.get("avg 2m wind speed"@))
        &&& values_of(self.winddir_avg2m@) == listing(cat.get("avg 2m wind heading"@))
        &&& values_of(self.windspd_avg10m@) == listing(cat.get("avg 10m wind speed"@))
        &&& values_of(self.winddir_avg10m@) == listing(cat.get("avg 10m wind heading"@))
        &&& values_of(self.windgustspd_10m@) == listing(cat.get("gust 10m wind speed"@))
        &&& values_of(self.windgustdir_10m@) == listing(cat.get("gust 10m wind heading"@))
        &&& values_of(self.humidity@) == listing(cat.get("humidity"@))
        &&& values_of(self.temp@) == listing(cat.get("temperature"@))
        &&& values_of(self.rain_1h@) == listing(cat.get("rain hour"@))
        &&& values_of(self.dailyrain@) == listing(cat.get("rain day"@))
        &&& values_of(self.barom@) == listing(cat.get("pressure"@))
        &&& values_of(self.uv@) == listing(cat.get("uv"@))
        &&& values_of(self.dewpoint@) == dew_listing(cat, dewpoint)
    }

    /// Puts the update together from the catalogue. `dewpoint` is the dew
    /// point derived from the readings that `dew_point_inputs` gives.
    pub fn compose(sensors: &Sensors, time: String, id: String, dewpoint: Option<u32>) -> (res:
        Self)
        requires
            sensors.wf(),
        ensures
            res.is_snapshot_of(sensors@, time@, id@, dewpoint),
    {
        let temp = sensors.get("temperature");
        let dew: Vec<SensorValue> = match (temp, sensors.get("humidity"), dewpoint) {
            (Some(t), Some(_), Some(value)) => {
                let list = vec![SensorValue { unit: t.unit.clone(), value }];
                assert(values_of(list@) =~= seq![SensorValueModel { unit: t@.unit, value }]);
                list
            },
            _ => {
                let list: Vec<SensorValue> = Vec::new();
                assert(values_of(list@) =~= Seq::empty());
                list
            },
        };
        Update {
            time,
            id,
            winddir: map_sensor(sensors.get("wind heading")),
            windspd: map_sensor(sensors.get("wind speed")),
            windgustspd_2m: map_sensor(sensors.get("gust 2m wind speed")),
            windgustdir_2m: map_sensor(sensors.get("gust 2m wind heading")),
            windspd_avg2m: map_sensor(sensors.get("avg 2m wind speed")),
            winddir_avg2m: map_sensor(sensors.get("avg 2m wind heading")),
            windspd_avg10m: map_sensor(sensors.get("avg 10m wind speed")),
            winddir_avg10m: map_sensor(sensors.get("avg 10m wind heading")),
            windgustspd_10m: map_sensor(sensors.get("gust 10m wind speed")),
            windgustdir_10m: map_sensor(sensors.get("gust 10m wind heading")),
            humidity: map_sensor(sensors.get("humidity")),
            temp: map_sensor(temp),
            rain_1h: map_sensor(sensors.get("rain hour")),
            dailyrain: map_sensor(sensors.get("rain day")),
            barom: map_sensor(sensors.get("pressure")),
            uv: map_sensor(sensors.get("uv")),
            dewpoint: dew,
        }
    }

    /// Puts the update together from the catalogue, stamped with the local
    /// date and time at which it is made.
    pub fn snapshot(sensors: &Sensors, id: String, dewpoint: Option<u32>) -> (res: Self)
        requires
            sensors.wf(),
        ensures
            exists|time: Seq<char>| #[trigger] res.is_snapshot_of(sensors@, time, id@, dewpoint),
    {
        let time = local_timestamp();
        let res = Self::compose(sensors, time, id, dewpoint);
        assert(res.is_snapshot_of(sensors@, time@, id@, dewpoint));
        res
    }
}

} // verus!
