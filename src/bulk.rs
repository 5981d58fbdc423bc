use vstd::prelude::*;
use vstd::string::StringExecFns;

use crate::device::{Device, DeviceView};
use crate::icon::Icon;

verus! {

/// A loosely typed property value, as the management service reports it.
pub enum PropValue {
    /// Any integer-like value (booleans included) that fits in a `u64`.
    Unsigned(u64),
    /// A text value.
    Text(String),
    /// A value of any other type.
    Other,
}

impl PropValue {
    pub open spec fn unsigned_spec(&self) -> Option<u64> {
        match self {
            PropValue::Unsigned(n) => Some(*n),
            _ => None,
        }
    }

    pub open spec fn text_spec(&self) -> Option<Seq<char>> {
        match self {
            PropValue::Text(s) => Some(s@),
            _ => None,
        }
    }

    /// The value as an unsigned integer, if it is one.
    pub fn as_unsigned_integer(&self) -> (r: Option<u64>)
        ensures
            r == self.unsigned_spec(),
    {
        match self {
            PropValue::Unsigned(n) => Some(*n),
            _ => None,
        }
    }

    /// The value as text, if it is text.
    pub fn as_text(&self) -> (r: Option<&String>)
        ensures
            r matches Some(s) ==> self.text_spec() == Some(s@),
            r is None ==> self.text_spec() is None,
    {
        match self {
            PropValue::Text(s) => Some(s),
            _ => None,
        }
    }

    /// The value read as a flag: an integer-like value is true when it is not zero.
    pub fn as_boolean_like(&self) -> (r: Option<bool>)
        ensures
            r == (match self.unsigned_spec() {
                Some(n) => Some(n != 0),
                None => None,
            }),
    {
        match self {
            PropValue::Unsigned(n) => Some(*n != 0),
            _ => None,
        }
    }
}

/// One named property of an interface.
pub struct Property {
    pub name: String,
    pub value: PropValue,
}

/// One interface of a managed object, with its properties.
pub struct Interface {
    pub name: String,
    pub properties: Vec<Property>,
}

/// One object of the management service's tree, with its interfaces.
pub struct ManagedObject {
    pub path: String,
    pub interfaces: Vec<Interface>,
}

/// The interface that describes a device.
pub const DEVICE_INTERFACE: &'static str = "org.bluez.Device1";

/// The interface that describes a battery.
pub const BATTERY_INTERFACE: &'static str = "org.bluez.Battery1";

/// The first interface of `s` with the given name.
pub open spec fn find_interface(s: Seq<Interface>, name: Seq<char>) -> Option<Interface>
    decreases s.len(),
{
    if s.len() == 0 {
        None
    } else if s[0].name@ == name {
        Some(s[0])
    } else {
        find_interface(s.drop_first(), name)
    }
}

/// The value of the first property of `s` with the given name.
pub open spec fn find_property(s: Seq<Property>, name: Seq<char>) -> Option<PropValue>
    decreases s.len(),
{
    if s.len() == 0 {
        None
    } else if s[0].name@ == name {
        Some(s[0].value)
    } else {
        find_property(s.drop_first(), name)
    }
}

/// The value of a property of an interface of `o`, if both are there.
pub open spec fn object_property(o: ManagedObject, iface: Seq<char>, prop: Seq<char>) -> Option<
    PropValue,
> {
    match find_interface(o.interfaces@, iface) {
        Some(i) => find_property(i.properties@, prop),
        None => None,
    }
}

/// Whether `o` is a device that reports itself connected: its `Connected` property is
/// an integer-like value other than zero.
pub open spec fn is_connected(o: ManagedObject) -> bool {
    match object_property(o, DEVICE_INTERFACE@, "Connected"@) {
        Some(v) => v.unsigned_spec() matches Some(n) && n != 0,
        None => false,
    }
}

/// The battery percentage of `o`, when it reports one.
pub open spec fn percentage(o: ManagedObject) -> Option<u64> {
    match object_property(o, BATTERY_INTERFACE@, "Percentage"@) {
        Some(v) => v.unsigned_spec(),
        None => None,
    }
}

/// A text property of the device interface of `o`.
pub open spec fn device_text(o: ManagedObject, prop: Seq<char>) -> Option<Seq<char>> {
    match object_property(o, DEVICE_INTERFACE@, prop) {
        Some(v) => v.text_spec(),
        None => None,
    }
}

/// The device record of `o`: present when `o` has the device interface, is connected,
/// and reports a name, an icon class and a battery percentage.
pub open spec fn decode_spec(o: ManagedObject) -> Option<DeviceView> {
    if find_interface(o.interfaces@, DEVICE_INTERFACE@) is Some && is_connected(o) && device_text(
        o,
        "Name"@,
    ) is Some && device_text(o, "Icon"@) is Some && percentage(o) is Some {
        Some(
            DeviceView {
                name: device_text(o, "Name"@)->0,
                icon: device_text(o, "Icon"@)->0,
                power: percentage(o)->0,
            },
        )
    } else {
        None
    }
}

/// The records of all objects of `s` that decode to one, in the order of `s`.
pub open spec fn bulk_spec(s: Seq<ManagedObject>) -> Seq<DeviceView>
    decreases s.len(),
{
    if s.len() == 0 {
        Seq::empty()
    } else {
        match decode_spec(s.last()) {
            Some(d) => bulk_spec(s.drop_last()).push(d),
            None => bulk_spec(s.drop_last()),
        }
    }
}

fn same_name(s: &String, name: &str) -> (r: bool)
    ensures
        r == (s@ == name@),
{
    *s == String::from_str(name)
}

/// The first interface of `o` with the given name.
pub fn interface<'a>(o: &'a ManagedObject, name: &str) -> (r: Option<&'a Interface>)
    ensures
        r matches Some(i) ==> find_interface(o.interfaces@, name@) == Some(*i),
        r is None ==> find_interface(o.interfaces@, name@) is None,
{
    let s = &o.interfaces;
    let mut i: usize = 0;
    assert(s@.skip(0) =~= s@);
    while i < s.len()
        invariant
            i <= s.len(),
            s@ == o.interfaces@,
            find_interface(s@, name@) == find_interface(s@.skip(i as int), name@),
        decreases s.len() - i,
    {
        proof {
            assert(s@.skip(i as int).drop_first() =~= s@.skip(i + 1));
        }
        if same_name(&s[i].name, name) {
            assert(s@.skip(i as int)[0] == s@[i as int]);
            assert(find_interface(s@.skip(i as int), name@) == Some(s@[i as int]));
            let found = &s[i];
            return Some(found);
        }
        i = i + 1;
    }
    None
}

/// The value of the first property of `i` with the given name.
pub fn property<'a>(i: &'a Interface, name: &str) -> (r: Option<&'a PropValue>)
    ensures
        r matches Some(v) ==> find_property(i.properties@, name@) == Some(*v),
        r is None ==> find_property(i.properties@, name@) is None,
{
    let s = &i.properties;
    let mut k: usize = 0;
    assert(s@.skip(0) =~= s@);
    while k < s.len()
        invariant
            k <= s.len(),
            s@ == i.properties@,
            find_property(s@, name@) == find_property(s@.skip(k as int), name@),
        decreases s.len() - k,
    {
        proof {
            assert(s@.skip(k as int).drop_first() =~= s@.skip(k + 1));
        }
        if same_name(&s[k].name, name) {
            assert(s@.skip(k as int)[0] == s@[k as int]);
            assert(find_property(s@.skip(k as int), name@) == Some(s@[k as int].value));
            return Some(&s[k].value);
        }
        k = k + 1;
    }
    None
}

/// Decodes one managed object into a device record. Objects that are not devices, are
/// not connected, or lack a name, an icon class or a battery percentage give `None`.
pub fn decode_object(o: &ManagedObject) -> (r: Option<Device>)
    ensures
        r matches Some(d) ==> decode_spec(*o) == Some(d@),
        r is None ==> decode_spec(*o) is None,
{
    let device = match interface(o, DEVICE_INTERFACE) {
        Some(i) => i,
        None => {
            return None;
        },
    };
    let connected = match property(device, "Connected") {
        Some(v) => match v.as_boolean_like() {
            Some(b) => b,
            None => false,
        },
        None => false,
    };
    let name = match property(device, "Name") {
        Some(v) => match v.as_text() {
            Some(t) => t.clone(),
            None => {
                return None;
            },
        },
        None => {
            return None;
        },
    };
    let icon = match property(device, "Icon") {
        Some(v) => match v.as_text() {
            Some(t) => Icon::new(t.as_str()),
            None => {
                return None;
            },
        },
        None => {
            return None;
        },
    };
    let power = match interface(o, BATTERY_INTERFACE) {
        Some(b) => match property(b, "Percentage") {
            Some(v) => match v.as_unsigned_integer() {
                Some(n) => n,
                None => {
                    return None;
                },
            },
            None => {
                return None;
            },
        },
        None => {
            return None;
        },
    };
    if connected {
        Some(Device { name, icon, power })
    } else {
        None
    }
}

/// The device records of all objects that decode to one, in the order of `objects`.
pub fn collect_bulk(objects: &Vec<ManagedObject>) -> (r: Vec<Device>)
    ensures
        r@.map_values(|d: Device| d@) == bulk_spec(objects@),
{
    let mut out: Vec<Device> = Vec::new();
    let mut i: usize = 0;
    while i < objects.len()
        invariant
            i <= objects.len(),
            out@.map_values(|d: Device| d@) == bulk_spec(objects@.take(i as int)),
        decreases objects.len() - i,
    {
        let ghost pre = out@;
        let r = decode_object(&objects[i]);
        proof {
            assert(objects@.take(i + 1).drop_last() =~= objects@.take(i as int));
            assert(objects@.take(i + 1).last() == objects@[i as int]);
        }
        match r {
            Some(d) => {
                out.push(d);
                assert(out@.map_values(|d: Device| d@) =~= pre.map_values(|d: Device| d@).push(
                    d@,
                ));
            },
            None => {},
        }
        i = i + 1;
    }
    assert(objects@.take(i as int) =~= objects@);
    out
}

/// An object without a battery percentage, or not connected (its `Connected` property
/// absent, zero or not an integer), gives no record: removing it from the input leaves
/// the result of the bulk retrieval unchanged.
pub proof fn bulk_drops_unpowered_or_disconnected(objs: Seq<ManagedObject>, i: int)
    requires
        0 <= i < objs.len(),
        percentage(objs[i]) is None || !is_connected(objs[i]),
    ensures
        decode_spec(objs[i]) is None,
        bulk_spec(objs) == bulk_spec(objs.remove(i)),
    decreases objs.len(),
{
    if i == objs.len() - 1 {
        assert(objs.remove(i) =~= objs.drop_last());
    } else {
        bulk_drops_unpowered_or_disconnected(objs.drop_last(), i);
        assert(objs.remove(i).drop_last() =~= objs.drop_last().remove(i));
        assert(objs.remove(i).last() == objs.last());
    }
}

} // verus!
