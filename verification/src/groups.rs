//! Named values, and the groups in which sensor values are published.
//!
//! Single-precision values are held as their IEEE-754 bit patterns. A value that
//! only floating-point arithmetic can give is held as the integers that go into it.

use crate::lds_reader::ScanPoint;
use crate::text::same_text;
use vstd::prelude::*;

verus! {

/// One published value.
#[derive(Debug, PartialEq, Eq)]
pub enum SensorValue {
    Bool(bool),
    U8(u8),
    U16(u16),
    U32(u32),
    U64(u64),
    I8(i8),
    I32(i32),
    /// A single-precision value, by its bit pattern.
    F32(u32),
    /// A double-precision value, by its bit pattern.
    F64(u64),
    /// Three single-precision values, by their bit patterns.
    Vector3([u32; 3]),
    Text(String),
    Bytes(Vec<u8>),
    /// This many wheel ticks, published as the distance in metres.
    WheelTicks(i32),
    /// This many thousandths of the unit, published as a single-precision value.
    Thousandths(u16),
    /// The mean of `packets` raw LDS speeds with this sum, published in RPM.
    MeanSpeed { raw_sum: u64, packets: usize },
    /// A lidar scan.
    PointCloud2D(Vec<ScanPoint>),
}

/// What a [`SensorValue`] holds.
pub enum SensorValueView {
    Bool(bool),
    U8(u8),
    U16(u16),
    U32(u32),
    U64(u64),
    I8(i8),
    I32(i32),
    F32(u32),
    F64(u64),
    Vector3(Seq<u32>),
    Text(Seq<char>),
    Bytes(Seq<u8>),
    WheelTicks(i32),
    Thousandths(u16),
    MeanSpeed { raw_sum: u64, packets: usize },
    PointCloud2D(Seq<ScanPoint>),
}

impl View for SensorValue {
    type V = SensorValueView;

    open spec fn view(&self) -> SensorValueView {
        match self {
            SensorValue::Bool(v) => SensorValueView::Bool(*v),
            SensorValue::U8(v) => SensorValueView::U8(*v),
            SensorValue::U16(v) => SensorValueView::U16(*v),
            SensorValue::U32(v) => SensorValueView::U32(*v),
            SensorValue::U64(v) => SensorValueView::U64(*v),
            SensorValue::I8(v) => SensorValueView::I8(*v),
            SensorValue::I32(v) => SensorValueView::I32(*v),
            SensorValue::F32(v) => SensorValueView::F32(*v),
            SensorValue::F64(v) => SensorValueView::F64(*v),
            SensorValue::Vector3(v) => SensorValueView::Vector3(v@),
            SensorValue::Text(v) => SensorValueView::Text(v@),
            SensorValue::Bytes(v) => SensorValueView::Bytes(v@),
            SensorValue::WheelTicks(v) => SensorValueView::WheelTicks(*v),
            SensorValue::Thousandths(v) => SensorValueView::Thousandths(*v),
            SensorValue::MeanSpeed { raw_sum, packets } => SensorValueView::MeanSpeed {
                raw_sum: *raw_sum,
                packets: *packets,
            },
            SensorValue::PointCloud2D(v) => SensorValueView::PointCloud2D(v@),
        }
    }
}

impl SensorValue {
    /// The same value once more.
    pub fn copy(&self) -> (value: Self)
        ensures
            value@ == self@,
    {
        match self {
            SensorValue::Bool(v) => SensorValue::Bool(*v),
            SensorValue::U8(v) => SensorValue::U8(*v),
            SensorValue::U16(v) => SensorValue::U16(*v),
            SensorValue::U32(v) => SensorValue::U32(*v),
            SensorValue::U64(v) => SensorValue::U64(*v),
            SensorValue::I8(v) => SensorValue::I8(*v),
            SensorValue::I32(v) => SensorValue::I32(*v),
            SensorValue::F32(v) => SensorValue::F32(*v),
            SensorValue::F64(v) => SensorValue::F64(*v),
            SensorValue::Vector3(v) => SensorValue::Vector3(*v),
            SensorValue::Text(v) => SensorValue::Text(v.clone()),
            SensorValue::Bytes(v) => {
                let w = v.clone();
                assert(w@ =~= v@);
                SensorValue::Bytes(w)
            },
            SensorValue::WheelTicks(v) => SensorValue::WheelTicks(*v),
            SensorValue::Thousandths(v) => SensorValue::Thousandths(*v),
            SensorValue::MeanSpeed { raw_sum, packets } => SensorValue::MeanSpeed {
                raw_sum: *raw_sum,
                packets: *packets,
            },
            SensorValue::PointCloud2D(v) => {
                let w = v.clone();
                assert(w@ =~= v@);
                SensorValue::PointCloud2D(w)
            },
        }
    }
}

/// A name with its value.
#[derive(Debug, PartialEq, Eq)]
pub struct NamedValue {
    pub name: String,
    pub value: SensorValue,
}

/// The value of `name` in a list: the first one.
spec fn lookup(entries: Seq<NamedValue>, name: Seq<char>) -> Option<SensorValueView>
    decreases entries.len(),
{
    if entries.len() == 0 {
        None
    } else if entries[0].name@ == name {
        Some(entries[0].value@)
    } else {
        lookup(entries.skip(1), name)
    }
}

proof fn lookup_pushed(entries: Seq<NamedValue>, more: NamedValue, name: Seq<char>)
    ensures
        lookup(entries.push(more), name) == (match lookup(entries, name) {
            Some(value) => Some(value),
            None => if more.name@ == name {
                Some(more.value@)
            } else {
                None
            },
        }),
    decreases entries.len(),
{
    let all = entries.push(more);
    if entries.len() == 0 {
        assert(all.skip(1) =~= Seq::<NamedValue>::empty());
        assert(lookup(all.skip(1), name) is None);
    } else {
        assert(all.skip(1) =~= entries.skip(1).push(more));
        lookup_pushed(entries.skip(1), more, name);
    }
}

proof fn lookup_updated(entries: Seq<NamedValue>, at: int, changed: NamedValue, name: Seq<char>)
    requires
        0 <= at < entries.len(),
        changed.name@ == entries[at].name@,
        forall|j: int| 0 <= j < at ==> (#[trigger] entries[j]).name@ != changed.name@,
    ensures
        lookup(entries.update(at, changed), name) == (if name == changed.name@ {
            Some(changed.value@)
        } else {
            lookup(entries, name)
        }),
    decreases entries.len(),
{
    let all = entries.update(at, changed);
    if at == 0 {
        assert(all.skip(1) =~= entries.skip(1));
    } else {
        assert(all.skip(1) =~= entries.skip(1).update(at - 1, changed));
        assert forall|j: int| 0 <= j < at - 1 implies (#[trigger] entries.skip(1)[j]).name@
            != changed.name@ by {
            assert(entries[j + 1].name@ != changed.name@);
        }
        lookup_updated(entries.skip(1), at - 1, changed, name);
        assert(entries[0].name@ != changed.name@);
    }
}

proof fn lookup_none(entries: Seq<NamedValue>, name: Seq<char>)
    requires
        forall|j: int| 0 <= j < entries.len() ==> (#[trigger] entries[j]).name@ != name,
    ensures
        lookup(entries, name) is None,
    decreases entries.len(),
{
    if entries.len() > 0 {
        assert forall|j: int| 0 <= j < entries.skip(1).len() implies (
        #[trigger] entries.skip(1)[j]).name@ != name by {
            assert(entries[j + 1].name@ != name);
        }
        lookup_none(entries.skip(1), name);
        assert(entries[0].name@ != name);
    }
}

proof fn lookup_at(entries: Seq<NamedValue>, at: int)
    requires
        0 <= at < entries.len(),
        forall|j: int| 0 <= j < at ==> (#[trigger] entries[j]).name@ != entries[at].name@,
    ensures
        lookup(entries, entries[at].name@) == Some(entries[at].value@),
{
    lookup_updated(entries, at, entries[at], entries[at].name@);
    assert(entries.update(at, entries[at]) =~= entries);
}

/// Values by name.
#[derive(Debug, PartialEq, Eq)]
pub struct NamedValues {
    entries: Vec<NamedValue>,
}

impl View for NamedValues {
    type V = Map<Seq<char>, SensorValueView>;

    closed spec fn view(&self) -> Map<Seq<char>, SensorValueView> {
        Map::new(
            |name: Seq<char>| lookup(self.entries@, name) is Some,
            |name: Seq<char>| lookup(self.entries@, name)->0,
        )
    }
}

impl NamedValues {
    pub fn new() -> (values: Self)
        ensures
            values@ == Map::<Seq<char>, SensorValueView>::empty(),
    {
        let values = NamedValues { entries: Vec::new() };
        assert(values@ =~= Map::<Seq<char>, SensorValueView>::empty());
        values
    }

    /// Where `name` stands.
    fn place(&self, name: &str) -> (at: Option<usize>)
        ensures
            match at {
                Some(i) => i < self.entries@.len() && self.entries@[i as int].name@ == name@ && (
                forall|j: int| 0 <= j < i ==> (#[trigger] self.entries@[j]).name@ != name@),
                None => forall|j: int|
                    0 <= j < self.entries@.len() ==> (#[trigger] self.entries@[j]).name@ != name@,
            },
    {
        let mut i: usize = 0;
        while i < self.entries.len()
            invariant
                i <= self.entries@.len(),
                forall|j: int| 0 <= j < i ==> (#[trigger] self.entries@[j]).name@ != name@,
            decreases self.entries@.len() - i,
        {
            if same_text(self.entries[i].name.as_str(), name) {
                return Some(i);
            }
            i += 1;
        }
        None
    }

    /// Gives `name` a value, in place of the one it had.
    pub fn set(&mut self, name: &str, value: SensorValue)
        ensures
            final(self)@ == old(self)@.insert(name@, value@),
    {
        let ghost before = self.entries@;
        let at = self.place(name);
        let entry = NamedValue { name: name.to_string(), value };
        match at {
            Some(i) => {
                self.entries[i] = entry;
                proof {
                    assert(self.entries@ =~= before.update(i as int, entry));
                    assert forall|k: Seq<char>| #[trigger]
                        lookup(self.entries@, k) == (if k == name@ {
                            Some(value@)
                        } else {
                            lookup(before, k)
                        }) by {
                        lookup_updated(before, i as int, entry, k);
                    }
                }
            },
            None => {
                self.entries.push(entry);
                proof {
                    lookup_none(before, name@);
                    assert forall|k: Seq<char>| #[trigger]
                        lookup(self.entries@, k) == (if k == name@ {
                            Some(value@)
                        } else {
                            lookup(before, k)
                        }) by {
                        lookup_pushed(before, entry, k);
                    }
                }
            },
        }
        assert(self@ =~= old(self)@.insert(name@, value@));
    }

    /// The value of `name`, if it has one.
    pub fn get(&self, name: &str) -> (value: Option<&SensorValue>)
        ensures
            match value {
                Some(v) => self@.contains_key(name@) && self@[name@] == v@,
                None => !self@.contains_key(name@),
            },
    {
        match self.place(name) {
            Some(i) => {
                proof {
                    lookup_at(self.entries@, i as int);
                }
                Some(&self.entries[i].value)
            },
            None => {
                proof {
                    lookup_none(self.entries@, name@);
                }
                None
            },
        }
    }

    /// Whether `name` has a value.
    pub fn contains_key(&self, name: &str) -> (yes: bool)
        ensures
            yes == self@.contains_key(name@),
    {
        self.get(name).is_some()
    }

    /// The names that have a value.
    pub fn names(&self) -> (names: Vec<String>)
        ensures
            forall|name: Seq<char>| #[trigger]
                self@.contains_key(name) <==> exists|i: int|
                    0 <= i < names@.len() && (#[trigger] names@[i])@ == name,
    {
        let mut names: Vec<String> = Vec::new();
        let mut i: usize = 0;
        while i < self.entries.len()
            invariant
                i <= self.entries@.len(),
                names@.len() == i,
                forall|j: int| 0 <= j < i ==> (#[trigger] names@[j])@ == self.entries@[j].name@,
            decreases self.entries@.len() - i,
        {
            names.push(self.entries[i].name.clone());
            i += 1;
        }
        proof {
            assert forall|name: Seq<char>| #[trigger]
                self@.contains_key(name) <==> exists|i: int|
                    0 <= i < names@.len() && (#[trigger] names@[i])@ == name by {
                if exists|i: int| 0 <= i < names@.len() && (#[trigger] names@[i])@ == name {
                    let i = choose|i: int| 0 <= i < names@.len() && (#[trigger] names@[i])@ == name;
                    lookup_hides_nothing(self.entries@, i);
                } else {
                    assert forall|j: int| 0 <= j < self.entries@.len() implies (
                    #[trigger] self.entries@[j]).name@ != name by {
                        assert(names@[j]@ == self.entries@[j].name@);
                    }
                    lookup_none(self.entries@, name);
                }
            }
        }
        names
    }

    /// The same values once more.
    pub fn copy(&self) -> (values: Self)
        ensures
            values@ == self@,
    {
        let mut entries: Vec<NamedValue> = Vec::new();
        let mut i: usize = 0;
        while i < self.entries.len()
            invariant
                i <= self.entries@.len(),
                entries@.len() == i,
                forall|j: int|
                    0 <= j < i ==> (#[trigger] entries@[j]).name@ == self.entries@[j].name@
                        && entries@[j].value@ == self.entries@[j].value@,
            decreases self.entries@.len() - i,
        {
            let entry = &self.entries[i];
            entries.push(NamedValue { name: entry.name.clone(), value: entry.value.copy() });
            i += 1;
        }
        let values = NamedValues { entries };
        proof {
            assert forall|name: Seq<char>| #[trigger]
                lookup(values.entries@, name) == lookup(self.entries@, name) by {
                lookup_alike(values.entries@, self.entries@, name);
            }
            assert(values@ =~= self@);
        }
        values
    }
}

proof fn lookup_alike(a: Seq<NamedValue>, b: Seq<NamedValue>, name: Seq<char>)
    requires
        a.len() == b.len(),
        forall|j: int|
            0 <= j < a.len() ==> (#[trigger] a[j]).name@ == b[j].name@ && a[j].value@ == b[j].value@,
    ensures
        lookup(a, name) == lookup(b, name),
    decreases a.len(),
{
    if a.len() > 0 {
        assert(a[0].name@ == b[0].name@);
        assert forall|j: int| 0 <= j < a.skip(1).len() implies (#[trigger] a.skip(1)[j]).name@
            == b.skip(1)[j].name@ && a.skip(1)[j].value@ == b.skip(1)[j].value@ by {
            assert(a[j + 1].name@ == b[j + 1].name@);
        }
        lookup_alike(a.skip(1), b.skip(1), name);
    }
}

proof fn lookup_hides_nothing(entries: Seq<NamedValue>, at: int)
    requires
        0 <= at < entries.len(),
    ensures
        lookup(entries, entries[at].name@) is Some,
    decreases entries.len(),
{
    if at > 0 {
        assert(entries.skip(1)[at - 1] == entries[at]);
        lookup_hides_nothing(entries.skip(1), at - 1);
    }
}

/// A group of sensor values that are published together.
#[derive(Debug, PartialEq, Eq)]
pub struct SensorGroupData {
    pub name: String,
    pub values: NamedValues,
    /// When the group was last touched, in nanoseconds.
    pub last_update: Option<u64>,
}

impl SensorGroupData {
    pub fn new(name: &str) -> (group: Self)
        ensures
            group.name@ == name@,
            group.values@ == Map::<Seq<char>, SensorValueView>::empty(),
            group.last_update is None,
    {
        SensorGroupData { name: name.to_string(), values: NamedValues::new(), last_update: None }
    }

    pub fn set(&mut self, name: &str, value: SensorValue)
        ensures
            final(self).values@ == old(self).values@.insert(name@, value@),
            final(self).name == old(self).name,
            final(self).last_update == old(self).last_update,
    {
        self.values.set(name, value);
    }

    /// Notes that the group was brought up to date at `now`.
    pub fn touch(&mut self, now: u64)
        ensures
            final(self).last_update == Some(now),
            final(self).name == old(self).name,
            final(self).values == old(self).values,
    {
        self.last_update = Some(now);
    }

    /// The group as it is now.
    pub fn snapshot(&self) -> (group: Self)
        ensures
            group.name@ == self.name@,
            group.values@ == self.values@,
            group.last_update == self.last_update,
    {
        SensorGroupData {
            name: self.name.clone(),
            values: self.values.copy(),
            last_update: self.last_update,
        }
    }
}

} // verus!
