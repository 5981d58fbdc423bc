use vstd::prelude::*;
use vstd::string::StringExecFns;

use crate::device::{Device, DeviceView};
use crate::icon::Icon;
use crate::text::{ascii_upper, chars_of, push_char, upper_char};

verus! {

/// Where the objects of the first controller's devices live.
pub const DEVICE_PATH_PREFIX: &'static str = "/org/bluez/hci0/dev_";

/// One character of an address as it stands in an object path: upper case, with `_`
/// in place of `:`.
pub open spec fn path_char(c: char) -> char {
    if c == ':' {
        '_'
    } else {
        ascii_upper(c)
    }
}

/// The object path of the device with the given address.
pub open spec fn device_path_spec(address: Seq<char>) -> Seq<char> {
    DEVICE_PATH_PREFIX@ + address.map_values(|c: char| path_char(c))
}

/// The object path of the device with the given address, such as
/// `/org/bluez/hci0/dev_AA_BB_CC_DD_EE_FF` for `aa:bb:cc:dd:ee:ff`.
pub fn device_path(address: &str) -> (r: String)
    ensures
        r@ == device_path_spec(address@),
{
    let cs = chars_of(address);
    let mut s = String::from_str(DEVICE_PATH_PREFIX);
    let mut i: usize = 0;
    while i < cs.len()
        invariant
            i <= cs.len(),
            cs@ == address@,
            s@ == DEVICE_PATH_PREFIX@ + address@.take(i as int).map_values(|c: char| path_char(c)),
        decreases cs.len() - i,
    {
        let c = cs[i];
        let p = if c == ':' {
            '_'
        } else {
            upper_char(c)
        };
        push_char(&mut s, p);
        proof {
            assert(address@.take(i + 1).map_values(|c: char| path_char(c)) =~= address@.take(
                i as int,
            ).map_values(|c: char| path_char(c)).push(path_char(c)));
        }
        i = i + 1;
    }
    assert(address@.take(i as int) =~= address@);
    s
}

/// A property read that failed, with the reason given by the bus.
pub struct ReadError {
    pub message: String,
}

/// What was read of a connected device.
pub struct Details {
    pub power: u8,
    pub name: String,
    pub icon: String,
}

impl Details {
    pub open spec fn record(&self) -> DeviceView {
        DeviceView { name: self.name@, icon: self.icon@, power: self.power as u64 }
    }
}

/// What the reads for one requested address gave.
pub enum AddressReport {
    /// The `Connected` property could not be read.
    Unreadable(ReadError),
    /// The device is not connected.
    Disconnected,
    /// The device is connected; its details, or the first read of them that failed.
    Connected(Result<Details, ReadError>),
}

/// The outcome of a targeted retrieval over `s`: the records of the connected devices
/// in order, or the first failed read.
pub open spec fn targeted_spec(s: Seq<AddressReport>) -> Result<Seq<DeviceView>, ReadError>
    decreases s.len(),
{
    if s.len() == 0 {
        Ok(Seq::empty())
    } else {
        match s[0] {
            AddressReport::Unreadable(e) => Err(e),
            AddressReport::Disconnected => targeted_spec(s.drop_first()),
            AddressReport::Connected(Err(e)) => Err(e),
            AddressReport::Connected(Ok(d)) => match targeted_spec(s.drop_first()) {
                Ok(rest) => Ok(seq![d.record()] + rest),
                Err(e) => Err(e),
            },
        }
    }
}

/// Takes in the report for one address: a connected device's record joins `devices`, a
/// disconnected device is skipped, and a failed read is handed back.
pub fn accept_report(devices: &mut Vec<Device>, report: AddressReport) -> (r: Result<(), ReadError>)
    ensures
        match report {
            AddressReport::Unreadable(e) => r == Err::<(), ReadError>(e) && *final(devices) == *old(devices),
            AddressReport::Disconnected => r is Ok && *final(devices) == *old(devices),
            AddressReport::Connected(Err(e)) => r == Err::<(), ReadError>(e) && *final(devices) == *old(
                devices,
            ),
            AddressReport::Connected(Ok(d)) => r is Ok && final(devices)@.len() == old(devices)@.len() + 1
                && final(devices)@.drop_last() == old(devices)@ && final(devices)@.last()@ == d.record(),
        },
{
    match report {
        AddressReport::Unreadable(e) => Err(e),
        AddressReport::Disconnected => Ok(()),
        AddressReport::Connected(Err(e)) => Err(e),
        AddressReport::Connected(Ok(d)) => {
            let icon = Icon::new(d.icon.as_str());
            devices.push(Device { name: d.name, icon, power: d.power as u64 });
            assert(devices@.drop_last() =~= old(devices)@);
            Ok(())
        },
    }
}

/// `acc` followed by what `outcome` gives, or the error of `outcome`.
pub open spec fn after(acc: Seq<DeviceView>, outcome: Result<Seq<DeviceView>, ReadError>) -> Result<
    Seq<DeviceView>,
    ReadError,
> {
    match outcome {
        Ok(t) => Ok(acc + t),
        Err(e) => Err(e),
    }
}

/// Runs the targeted retrieval over the reports of all requested addresses, in order:
/// the records of the connected devices, or the first failed read.
pub fn collect_targeted(reports: Vec<AddressReport>) -> (r: Result<Vec<Device>, ReadError>)
    ensures
        match r {
            Ok(v) => targeted_spec(reports@) == Ok::<Seq<DeviceView>, ReadError>(
                v@.map_values(|d: Device| d@),
            ),
            Err(e) => targeted_spec(reports@) == Err::<Seq<DeviceView>, ReadError>(e),
        },
{
    let mut rest = reports;
    let mut out: Vec<Device> = Vec::new();
    assert(Seq::<DeviceView>::empty() + targeted_spec(reports@)->Ok_0 =~= targeted_spec(
        reports@,
    )->Ok_0);
    while rest.len() > 0
        invariant
            targeted_spec(reports@) == after(out@.map_values(|d: Device| d@), targeted_spec(rest@)),
        decreases rest.len(),
    {
        let ghost before = rest@;
        let ghost acc = out@.map_values(|d: Device| d@);
        let report = rest.remove(0);
        proof {
            assert(rest@ =~= before.drop_first());
        }
        match accept_report(&mut out, report) {
            Ok(()) => {
                proof {
                    if out@.len() > acc.len() {
                        let rec = out@.last()@;
                        assert(out@.map_values(|d: Device| d@) =~= acc.push(rec));
                        match targeted_spec(rest@) {
                            Ok(t) => {
                                assert(acc + (seq![rec] + t) =~= acc.push(rec) + t);
                            },
                            Err(_) => {},
                        }
                    } else {
                        assert(out@.map_values(|d: Device| d@) =~= acc);
                    }
                }
            },
            Err(e) => {
                return Err(e);
            },
        }
    }
    assert(out@.map_values(|d: Device| d@) + Seq::<DeviceView>::empty() =~= out@.map_values(
        |d: Device| d@,
    ));
    Ok(out)
}

/// A disconnected address is skipped without error: removing its report leaves the
/// outcome unchanged.
pub proof fn targeted_skips_disconnected(s: Seq<AddressReport>, i: int)
    requires
        0 <= i < s.len(),
        s[i] is Disconnected,
    ensures
        targeted_spec(s) == targeted_spec(s.remove(i)),
    decreases i,
{
    if i == 0 {
        assert(s.remove(0) =~= s.drop_first());
    } else {
        targeted_skips_disconnected(s.drop_first(), i - 1);
        assert(s.remove(i).drop_first() =~= s.drop_first().remove(i - 1));
        assert(s.remove(i)[0] == s[0]);
    }
}

/// A connected address whose details cannot be read ends the whole retrieval with that
/// error, whatever the reports after it hold, when every read before it succeeded.
pub proof fn targeted_fails_on_unreadable_details(s: Seq<AddressReport>, i: int, e: ReadError)
    requires
        0 <= i < s.len(),
        s[i] == AddressReport::Connected(Err(e)),
        forall|j: int|
            0 <= j < i ==> !(#[trigger] s[j] is Unreadable) && !(s[j] matches AddressReport::Connected(
                Err(_),
            )),
    ensures
        targeted_spec(s) == Err::<Seq<DeviceView>, ReadError>(e),
    decreases i,
{
    if i > 0 {
        assert forall|j: int| 0 <= j < i - 1 implies !(#[trigger] s.drop_first()[j] is Unreadable)
            && !(s.drop_first()[j] matches AddressReport::Connected(Err(_))) by {
            assert(s.drop_first()[j] == s[j + 1]);
        }
        targeted_fails_on_unreadable_details(s.drop_first(), i - 1, e);
        assert(!(s[0] is Unreadable));
    }
}

} // verus!
