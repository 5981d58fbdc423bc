use vstd::prelude::*;
use vstd::string::StringExecFns;

use crate::device::{is_sorted, sort_devices, Device, DeviceView};
use crate::icon::{emoji_glyph, markup_glyph, Icon};
use crate::text::{decimal, push_char, push_decimal};

verus! {

/// How each device is written out.
#[derive(Clone, Copy, PartialEq, Eq, Structural, Debug)]
pub enum DeviceFormat {
    /// Glyph, name and power: `<glyph><name> (<power>%)`.
    Long,
    /// Name and power: `<name> <power>%`.
    Short,
    /// Glyph and power: `<glyph><power>%`.
    Narrow,
}

impl Default for DeviceFormat {
    fn default() -> (r: DeviceFormat)
        ensures
            r == DeviceFormat::Narrow,
    {
        DeviceFormat::Narrow
    }
}

/// The glyph shown for an icon class: the markup one or the plain one, and nothing for
/// a class outside the table.
pub open spec fn glyph(icon: Seq<char>, markup: bool) -> Seq<char> {
    let g = if markup {
        markup_glyph(icon)
    } else {
        emoji_glyph(icon)
    };
    match g {
        Some(t) => t,
        None => Seq::empty(),
    }
}

pub open spec fn long_text(d: DeviceView, markup: bool) -> Seq<char> {
    glyph(d.icon, markup) + d.name + " ("@ + decimal(d.power as nat) + "%)"@
}

pub open spec fn short_text(d: DeviceView) -> Seq<char> {
    d.name + " "@ + decimal(d.power as nat) + "%"@
}

pub open spec fn narrow_text(d: DeviceView, markup: bool) -> Seq<char> {
    glyph(d.icon, markup) + decimal(d.power as nat) + "%"@
}

/// The text of one device in the given format; the markup flag matters to the
/// long and narrow formats only.
pub open spec fn entry_text(d: DeviceView, fmt: DeviceFormat, markup: bool) -> Seq<char> {
    match fmt {
        DeviceFormat::Long => long_text(d, markup),
        DeviceFormat::Short => short_text(d),
        DeviceFormat::Narrow => narrow_text(d, markup),
    }
}

/// What stands between two entries: two spaces in the short format, one otherwise.
pub open spec fn separator(fmt: DeviceFormat) -> Seq<char> {
    match fmt {
        DeviceFormat::Short => "  "@,
        _ => " "@,
    }
}

/// The entries of `s`, with a separator between each adjacent pair.
pub open spec fn joined(s: Seq<Device>, fmt: DeviceFormat, markup: bool) -> Seq<char>
    decreases s.len(),
{
    if s.len() == 0 {
        Seq::empty()
    } else if s.len() == 1 {
        entry_text(s[0]@, fmt, markup)
    } else {
        joined(s.drop_last(), fmt, markup) + separator(fmt) + entry_text(s.last()@, fmt, markup)
    }
}

/// The full output for `s`: the joined entries and one newline, or nothing at all
/// when there is no device.
pub open spec fn output_text(s: Seq<Device>, fmt: DeviceFormat, markup: bool) -> Seq<char> {
    if s.len() == 0 {
        Seq::empty()
    } else {
        joined(s, fmt, markup) + "\n"@
    }
}

fn push_glyph(s: &mut String, icon: &Icon, markup: bool)
    ensures
        final(s)@ == old(s)@ + glyph(icon@, markup),
{
    if markup {
        match icon.material_symbols() {
            Some(g) => s.append(g.as_str()),
            None => {},
        }
    } else {
        match icon.emoji() {
            Some(g) => s.append(g),
            None => {},
        }
    }
}

impl Device {
    /// The long form: `<glyph><name> (<power>%)`.
    pub fn long(&self, i3: bool) -> (r: String)
        ensures
            r@ == long_text(self@, i3),
    {
        let mut s = String::new();
        push_glyph(&mut s, &self.icon, i3);
        s.append(self.name.as_str());
        s.append(" (");
        push_decimal(&mut s, self.power);
        s.append("%)");
        assert(s@ =~= long_text(self@, i3));
        s
    }

    /// The short form: `<name> <power>%`.
    pub fn short(&self) -> (r: String)
        ensures
            r@ == short_text(self@),
    {
        let mut s = String::new();
        s.append(self.name.as_str());
        s.append(" ");
        push_decimal(&mut s, self.power);
        s.append("%");
        assert(s@ =~= short_text(self@));
        s
    }

    /// The narrow form: `<glyph><power>%`.
    pub fn narrow(&self, i3: bool) -> (r: String)
        ensures
            r@ == narrow_text(self@, i3),
    {
        let mut s = String::new();
        push_glyph(&mut s, &self.icon, i3);
        push_decimal(&mut s, self.power);
        s.append("%");
        assert(s@ =~= narrow_text(self@, i3));
        s
    }

    /// This device in the given format.
    pub fn entry(&self, fmt: DeviceFormat, i3: bool) -> (r: String)
        ensures
            r@ == entry_text(self@, fmt, i3),
    {
        match fmt {
            DeviceFormat::Long => self.long(i3),
            DeviceFormat::Short => self.short(),
            DeviceFormat::Narrow => self.narrow(i3),
        }
    }
}

/// Writes the devices in the order given, separated as the format asks, and ends the
/// text with a newline; no device gives the empty text.
pub fn render(devices: &Vec<Device>, fmt: DeviceFormat, i3: bool) -> (r: String)
    ensures
        r@ == output_text(devices@, fmt, i3),
{
    let mut s = String::new();
    let mut i: usize = 0;
    while i < devices.len()
        invariant
            i <= devices.len(),
            s@ == joined(devices@.take(i as int), fmt, i3),
        decreases devices.len() - i,
    {
        let ghost pre = devices@.take(i as int);
        if i > 0 {
            match fmt {
                DeviceFormat::Short => s.append("  "),
                _ => s.append(" "),
            }
        }
        let e = devices[i].entry(fmt, i3);
        s.append(e.as_str());
        proof {
            let next = devices@.take(i + 1);
            assert(next.drop_last() =~= pre);
            assert(next.last() == devices@[i as int]);
            assert(s@ =~= joined(next, fmt, i3));
        }
        i = i + 1;
    }
    assert(devices@.take(i as int) =~= devices@);
    if devices.len() > 0 {
        push_char(&mut s, '\n');
        proof {
            reveal_strlit("\n");
            assert(s@ =~= output_text(devices@, fmt, i3));
        }
    }
    s
}

/// Sorts the devices and writes them out as [`render`] does.
pub fn report(devices: Vec<Device>, fmt: DeviceFormat, i3: bool) -> (r: String)
    ensures
        exists|s: Seq<Device>|
            #![auto]
            is_sorted(s) && s.to_multiset() == devices@.to_multiset() && r@ == output_text(
                s,
                fmt,
                i3,
            ),
{
    let sorted = sort_devices(devices);
    let r = render(&sorted, fmt, i3);
    assert(is_sorted(sorted@) && sorted@.to_multiset() == devices@.to_multiset() && r@
        == output_text(sorted@, fmt, i3));
    r
}

/// No device gives the empty text, and two devices give the first entry, the format's
/// separator, the second entry and one newline: in the short format, two spaces apart.
pub proof fn output_of_none_and_of_two(a: Device, b: Device, fmt: DeviceFormat, markup: bool)
    ensures
        output_text(Seq::empty(), fmt, markup) == Seq::<char>::empty(),
        output_text(seq![a, b], fmt, markup) == entry_text(a@, fmt, markup) + separator(fmt)
            + entry_text(b@, fmt, markup) + "\n"@,
        output_text(seq![a, b], DeviceFormat::Short, markup) == short_text(a@) + "  "@
            + short_text(b@) + "\n"@,
{
    let s = seq![a, b];
    assert(s.drop_last() =~= seq![a]);
    assert(s.last() == b);
    assert(seq![a][0] == a);
    assert forall|f: DeviceFormat| #[trigger] joined(s, f, markup) == entry_text(a@, f, markup)
        + separator(f) + entry_text(b@, f, markup) by {
        assert(joined(seq![a], f, markup) == entry_text(a@, f, markup));
    }
}

/// A class outside the icon table adds no character to an entry, in the plain and in
/// the markup encoding alike.
pub proof fn unknown_icon_adds_nothing(d: DeviceView, markup: bool)
    requires
        emoji_glyph(d.icon) is None,
    ensures
        markup_glyph(d.icon) is None,
        glyph(d.icon, markup) == Seq::<char>::empty(),
        long_text(d, markup) == d.name + " ("@ + decimal(d.power as nat) + "%)"@,
        narrow_text(d, markup) == decimal(d.power as nat) + "%"@,
{
    assert(long_text(d, markup) =~= d.name + " ("@ + decimal(d.power as nat) + "%)"@);
    assert(narrow_text(d, markup) =~= decimal(d.power as nat) + "%"@);
}

} // verus!
