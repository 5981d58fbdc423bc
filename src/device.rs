use vstd::prelude::*;
use vstd::std_specs::cmp::PartialOrdSpec;

use crate::icon::Icon;
use crate::text::chars_of;

verus! {

/// A connected peripheral that reports its battery level.
#[derive(Debug)]
pub struct Device {
    pub name: String,
    pub icon: Icon,
    pub power: u64,
}

/// What a [`Device`] holds, as plain values.
pub struct DeviceView {
    pub name: Seq<char>,
    pub icon: Seq<char>,
    pub power: u64,
}

impl View for Device {
    type V = DeviceView;

    open spec fn view(&self) -> DeviceView {
        DeviceView { name: self.name@, icon: self.icon@, power: self.power }
    }
}

/// Lexicographic order on texts, by code point; a proper prefix comes first.
pub open spec fn text_lt(a: Seq<char>, b: Seq<char>) -> bool
    decreases a.len(),
{
    if a.len() == 0 {
        b.len() > 0
    } else if b.len() == 0 {
        false
    } else if a[0] != b[0] {
        (a[0] as int) < (b[0] as int)
    } else {
        text_lt(a.drop_first(), b.drop_first())
    }
}

/// Devices are ordered by name, then by icon class, then by power.
pub open spec fn device_lt(a: DeviceView, b: DeviceView) -> bool {
    ||| text_lt(a.name, b.name)
    ||| a.name == b.name && text_lt(a.icon, b.icon)
    ||| a.name == b.name && a.icon == b.icon && a.power < b.power
}

pub open spec fn device_le(a: DeviceView, b: DeviceView) -> bool {
    device_lt(a, b) || a == b
}

/// `s` is in ascending order.
pub open spec fn is_sorted(s: Seq<Device>) -> bool {
    forall|i: int, j: int| 0 <= i < j < s.len() ==> device_le(#[trigger] s[i]@, #[trigger] s[j]@)
}

proof fn text_lt_irreflexive(a: Seq<char>)
    ensures
        !text_lt(a, a),
    decreases a.len(),
{
    if a.len() > 0 {
        text_lt_irreflexive(a.drop_first());
    }
}

proof fn text_lt_transitive(a: Seq<char>, b: Seq<char>, c: Seq<char>)
    requires
        text_lt(a, b),
        text_lt(b, c),
    ensures
        text_lt(a, c),
    decreases a.len(),
{
    if a.len() > 0 && b.len() > 0 && c.len() > 0 && a[0] == b[0] && b[0] == c[0] {
        text_lt_transitive(a.drop_first(), b.drop_first(), c.drop_first());
    }
}

proof fn text_lt_total(a: Seq<char>, b: Seq<char>)
    requires
        a != b,
    ensures
        text_lt(a, b) || text_lt(b, a),
    decreases a.len(),
{
    if a.len() > 0 && b.len() > 0 {
        if a[0] == b[0] {
            if a.drop_first() == b.drop_first() {
                assert(a =~= seq![a[0]] + a.drop_first());
                assert(b =~= seq![b[0]] + b.drop_first());
            } else {
                text_lt_total(a.drop_first(), b.drop_first());
            }
        } else {
            assert((a[0] as int) != (b[0] as int));
        }
    } else if a.len() == 0 && b.len() == 0 {
        assert(a =~= b);
    }
}

proof fn text_lt_skip(a: Seq<char>, b: Seq<char>, i: int)
    requires
        0 <= i < a.len(),
        i < b.len(),
        a[i] == b[i],
    ensures
        text_lt(a.skip(i), b.skip(i)) == text_lt(a.skip(i + 1), b.skip(i + 1)),
{
    assert(a.skip(i).drop_first() =~= a.skip(i + 1));
    assert(b.skip(i).drop_first() =~= b.skip(i + 1));
}

/// The order on devices is a strict total order: irreflexive, transitive, and any two
/// different devices are comparable.
pub proof fn device_order_is_total(a: DeviceView, b: DeviceView, c: DeviceView)
    ensures
        !device_lt(a, a),
        device_lt(a, b) && device_lt(b, c) ==> device_lt(a, c),
        a != b ==> device_lt(a, b) || device_lt(b, a),
        device_lt(a, b) ==> !device_lt(b, a),
{
    text_lt_irreflexive(a.name);
    text_lt_irreflexive(a.icon);
    if device_lt(a, b) && device_lt(b, c) {
        if text_lt(a.name, b.name) && text_lt(b.name, c.name) {
            text_lt_transitive(a.name, b.name, c.name);
        }
        if text_lt(a.icon, b.icon) && text_lt(b.icon, c.icon) {
            text_lt_transitive(a.icon, b.icon, c.icon);
        }
    }
    if a != b {
        if a.name != b.name {
            text_lt_total(a.name, b.name);
        } else if a.icon != b.icon {
            text_lt_total(a.icon, b.icon);
        }
    }
    if device_lt(a, b) && device_lt(b, a) {
        if text_lt(a.name, b.name) && text_lt(b.name, a.name) {
            text_lt_transitive(a.name, b.name, a.name);
            text_lt_irreflexive(a.name);
        }
        if text_lt(a.icon, b.icon) && text_lt(b.icon, a.icon) {
            text_lt_transitive(a.icon, b.icon, a.icon);
            text_lt_irreflexive(a.icon);
        }
    }
}

/// Compares two texts in the order of [`text_lt`].
pub fn compare_text(a: &str, b: &str) -> (r: core::cmp::Ordering)
    ensures
        (r == core::cmp::Ordering::Less) == text_lt(a@, b@),
        (r == core::cmp::Ordering::Equal) == (a@ == b@),
        (r == core::cmp::Ordering::Greater) == text_lt(b@, a@),
{
    let x = chars_of(a);
    let y = chars_of(b);
    let mut i: usize = 0;
    assert(a@.skip(0) =~= a@);
    assert(b@.skip(0) =~= b@);
    while i < x.len() && i < y.len() && x[i] == y[i]
        invariant
            x@ == a@,
            y@ == b@,
            i <= x.len(),
            i <= y.len(),
            x@.take(i as int) == y@.take(i as int),
            text_lt(a@, b@) == text_lt(a@.skip(i as int), b@.skip(i as int)),
            text_lt(b@, a@) == text_lt(b@.skip(i as int), a@.skip(i as int)),
        decreases x.len() - i,
    {
        proof {
            text_lt_skip(a@, b@, i as int);
            text_lt_skip(b@, a@, i as int);
            assert(x@.take(i + 1) =~= x@.take(i as int).push(x@[i as int]));
            assert(y@.take(i + 1) =~= y@.take(i as int).push(y@[i as int]));
        }
        i = i + 1;
    }
    proof {
        if i < x.len() && i < y.len() {
            assert(a@.skip(i as int)[0] == a@[i as int]);
            assert(b@.skip(i as int)[0] == b@[i as int]);
            assert(x@[i as int] != y@[i as int]);
        } else {
            if i == x.len() && i == y.len() {
                assert(a@ =~= x@.take(i as int));
                assert(b@ =~= y@.take(i as int));
            } else {
                assert(a@.len() != b@.len());
            }
        }
    }
    if i < x.len() && i < y.len() {
        if x[i] < y[i] {
            core::cmp::Ordering::Less
        } else {
            core::cmp::Ordering::Greater
        }
    } else if x.len() < y.len() {
        core::cmp::Ordering::Less
    } else if y.len() < x.len() {
        core::cmp::Ordering::Greater
    } else {
        core::cmp::Ordering::Equal
    }
}

impl Device {
    /// Compares two devices: by name, then icon class, then power.
    pub fn compare(&self, other: &Device) -> (r: core::cmp::Ordering)
        ensures
            (r == core::cmp::Ordering::Less) == device_lt(self@, other@),
            (r == core::cmp::Ordering::Equal) == (self@ == other@),
            (r == core::cmp::Ordering::Greater) == device_lt(other@, self@),
    {
        match compare_text(self.name.as_str(), other.name.as_str()) {
            core::cmp::Ordering::Equal => {
                match compare_text(self.icon.0.as_str(), other.icon.0.as_str()) {
                    core::cmp::Ordering::Equal => {
                        if self.power < other.power {
                            core::cmp::Ordering::Less
                        } else if self.power > other.power {
                            core::cmp::Ordering::Greater
                        } else {
                            core::cmp::Ordering::Equal
                        }
                    },
                    o => o,
                }
            },
            o => o,
        }
    }

    /// Whether `self` comes strictly before `other`.
    pub fn precedes(&self, other: &Device) -> (r: bool)
        ensures
            r == device_lt(self@, other@),
    {
        matches!(self.compare(other), core::cmp::Ordering::Less)
    }
}

/// The result of comparing `a` with `b` in the order of [`device_lt`].
pub open spec fn device_ordering(a: DeviceView, b: DeviceView) -> core::cmp::Ordering {
    if device_lt(a, b) {
        core::cmp::Ordering::Less
    } else if a == b {
        core::cmp::Ordering::Equal
    } else {
        core::cmp::Ordering::Greater
    }
}

impl PartialEq for Device {
    fn eq(&self, other: &Device) -> (r: bool) {
        matches!(self.compare(other), core::cmp::Ordering::Equal)
    }
}

impl vstd::std_specs::cmp::PartialEqSpecImpl for Device {
    open spec fn obeys_eq_spec() -> bool {
        true
    }

    open spec fn eq_spec(&self, other: &Device) -> bool {
        self@ == other@
    }
}

impl PartialOrd for Device {
    fn partial_cmp(&self, other: &Device) -> (r: Option<core::cmp::Ordering>) {
        Some(self.compare(other))
    }
}

impl vstd::std_specs::cmp::PartialOrdSpecImpl for Device {
    open spec fn obeys_partial_cmp_spec() -> bool {
        true
    }

    open spec fn partial_cmp_spec(&self, other: &Device) -> Option<core::cmp::Ordering> {
        Some(device_ordering(self@, other@))
    }
}

/// `a < b` compares names first; devices of the same name are compared by icon class,
/// and then by power.
pub proof fn device_order_follows_names(a: Device, b: Device)
    ensures
        a.name@ != b.name@ ==> (a.partial_cmp_spec(&b) == Some(core::cmp::Ordering::Less)
            <==> text_lt(a.name@, b.name@)),
        a.name@ == b.name@ && a.icon@ != b.icon@ ==> (a.partial_cmp_spec(&b) == Some(
            core::cmp::Ordering::Less,
        ) <==> text_lt(a.icon@, b.icon@)),
        a.name@ == b.name@ && a.icon@ == b.icon@ ==> (a.partial_cmp_spec(&b) == Some(
            core::cmp::Ordering::Less,
        ) <==> a.power < b.power),
{
    text_lt_irreflexive(a.name@);
    text_lt_irreflexive(a.icon@);
}

/// Sorts devices in ascending order.
pub fn sort_devices(v: Vec<Device>) -> (r: Vec<Device>)
    ensures
        r@.to_multiset() == v@.to_multiset(),
        is_sorted(r@),
{
    broadcast use vstd::seq_lib::group_to_multiset_ensures;

    let mut rest = v;
    let mut out: Vec<Device> = Vec::new();
    while rest.len() > 0
        invariant
            out@.to_multiset().add(rest@.to_multiset()) == v@.to_multiset(),
            is_sorted(out@),
        decreases rest.len(),
    {
        let ghost before = rest@;
        let d = rest.pop().unwrap();
        proof {
            assert(before =~= rest@.push(d));
        }
        let mut j: usize = 0;
        while j < out.len() && !d.precedes(&out[j])
            invariant
                j <= out.len(),
                forall|k: int| 0 <= k < j ==> !device_lt(d@, #[trigger] out@[k]@),
            decreases out.len() - j,
        {
            j = j + 1;
        }
        let ghost prev = out@;
        proof {
            assert forall|k: int| j <= k < prev.len() implies device_lt(d@, #[trigger] prev[k]@) by {
                device_order_is_total(d@, prev[j as int]@, prev[k]@);
            }
            assert forall|k: int| 0 <= k < j implies device_le(#[trigger] prev[k]@, d@) by {
                device_order_is_total(d@, prev[k]@, d@);
            }
        }
        out.insert(j, d);
        proof {
            assert(out@ == prev.insert(j as int, d));
            vstd::seq_lib::to_multiset_insert(prev, j as int, d);
            vstd::seq_lib::to_multiset_build(rest@, d);
            assert(out@.to_multiset().add(rest@.to_multiset()) =~= prev.to_multiset().add(
                before.to_multiset(),
            ));
            assert forall|a: int, b: int| 0 <= a < b < out@.len() implies device_le(
                #[trigger] out@[a]@,
                #[trigger] out@[b]@,
            ) by {
                if a < j && b > j {
                    device_order_is_total(prev[a]@, d@, prev[b - 1]@);
                }
            }
        }
    }
    out
}

} // verus!
