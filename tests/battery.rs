use bluetooth_battery::bulk::{collect_bulk, decode_object, Interface, ManagedObject, PropValue, Property};
use bluetooth_battery::device::{compare_text, sort_devices, Device};
use bluetooth_battery::format::{render, report, DeviceFormat};
use bluetooth_battery::icon::Icon;
use bluetooth_battery::targeted::{
    accept_report, collect_targeted, device_path, AddressReport, Details, ReadError,
};
use std::cmp::Ordering;

fn dev(name: &str, icon: &str, power: u64) -> Device {
    Device { name: name.to_string(), icon: Icon::new(icon), power }
}

fn prop(name: &str, value: PropValue) -> Property {
    Property { name: name.to_string(), value }
}

fn object(connected: Option<PropValue>, percentage: Option<u64>) -> ManagedObject {
    let mut device_props = vec![
        prop("Name", PropValue::Text("Headset".to_string())),
        prop("Icon", PropValue::Text("audio-headset".to_string())),
    ];
    if let Some(c) = connected {
        device_props.push(prop("Connected", c));
    }
    let mut interfaces = vec![Interface { name: "org.bluez.Device1".to_string(), properties: device_props }];
    if let Some(p) = percentage {
        interfaces.push(Interface {
            name: "org.bluez.Battery1".to_string(),
            properties: vec![prop("Percentage", PropValue::Unsigned(p))],
        });
    }
    ManagedObject { path: "/org/bluez/hci0/dev_00_11".to_string(), interfaces }
}

fn details(name: &str, icon: &str, power: u8) -> AddressReport {
    AddressReport::Connected(Ok(Details { power, name: name.to_string(), icon: icon.to_string() }))
}

#[test]
fn formats_of_one_record() {
    let d = dev("Foo", "audio-headset", 42);
    assert_eq!(d.long(false), "🎧 Foo (42%)");
    assert_eq!(d.short(), "Foo 42%");
    assert_eq!(d.narrow(false), "🎧 42%");
}

#[test]
fn markup_formats_of_one_record() {
    let d = dev("Foo", "audio-headset", 42);
    let g = "<span font_desc='Material Symbols Outlined @opsz=20,FILL=1,GRAD=-25' rise='-3pt'>headphones</span> ";
    assert_eq!(d.long(true), format!("{g}Foo (42%)"));
    assert_eq!(d.narrow(true), format!("{g}42%"));
    assert_eq!(d.short(), "Foo 42%");
}

#[test]
fn unknown_icon_adds_no_glyph() {
    let d = dev("Foo", "computer", 7);
    assert_eq!(d.long(false), "Foo (7%)");
    assert_eq!(d.long(true), "Foo (7%)");
    assert_eq!(d.narrow(false), "7%");
    assert_eq!(d.narrow(true), "7%");
}

#[test]
fn power_in_decimal() {
    assert_eq!(dev("A", "x", 0).short(), "A 0%");
    assert_eq!(dev("A", "x", 100).short(), "A 100%");
    assert_eq!(dev("A", "x", 1234567890).short(), "A 1234567890%");
    assert_eq!(dev("A", "x", u64::MAX).short(), "A 18446744073709551615%");
}

#[test]
fn plain_glyph_table() {
    let cases = [
        ("audio-headset", "🎧 "),
        ("phone", "📱 "),
        ("pda", "📱 "),
        ("input-keyboard", "⌨️ "),
        ("input-mouse", "🖱️ "),
        ("input-gaming", "🎮 "),
        ("input-tablet", "🖍️  "),
        ("multimedia-player", "📻 "),
        ("printer", "🖨️  "),
        ("scanner", "🖨️  "),
    ];
    for (class, glyph) in cases {
        assert_eq!(Icon::new(class).emoji(), Some(glyph));
    }
    assert_eq!(Icon::new("").emoji(), None);
    assert_eq!(Icon::new("Phone").emoji(), None);
    assert_eq!(Icon::new("audio-headset ").emoji(), None);
}

#[test]
fn markup_glyph_table() {
    let open = "<span font_desc='Material Symbols Outlined @opsz=20,FILL=1,GRAD=-25' rise='-3pt'>";
    let cases = [
        ("audio-headset", "headphones"),
        ("phone", "smartphone"),
        ("pda", "smartphone"),
        ("input-keyboard", "keyboard"),
        ("input-mouse", "mouse"),
        ("input-gaming", "sports_esports"),
        ("input-tablet", "tablet_android"),
        ("multimedia-player", "media_bluetooth_on"),
        ("printer", "print"),
        ("scanner", "scanner"),
    ];
    for (class, symbol) in cases {
        assert_eq!(Icon::new(class).material_symbols(), Some(format!("{open}{symbol}</span> ")));
    }
    assert_eq!(Icon::new("camera-video").material_symbols(), None);
    assert_eq!(Icon::new("").material_symbols(), None);
}

#[test]
fn order_by_name_then_icon_then_power() {
    assert!(dev("Alpha", "phone", 99) < dev("Beta", "audio-headset", 1));
    assert!(dev("Beta", "audio-headset", 1) > dev("Alpha", "phone", 99));
    assert!(dev("Same", "audio-headset", 90) < dev("Same", "phone", 10));
    assert!(dev("Same", "phone", 10) < dev("Same", "phone", 11));
    assert!(dev("Same", "phone", 10) == dev("Same", "phone", 10));
    assert!(dev("Ab", "x", 5) < dev("Abc", "x", 1));
    assert!(dev("B", "x", 1) < dev("a", "x", 1));
    assert_eq!(dev("x", "y", 3).partial_cmp(&dev("x", "y", 3)), Some(Ordering::Equal));
}

#[test]
fn text_comparison() {
    assert_eq!(compare_text("", ""), Ordering::Equal);
    assert_eq!(compare_text("", "a"), Ordering::Less);
    assert_eq!(compare_text("b", "abc"), Ordering::Greater);
    assert_eq!(compare_text("é", "z"), Ordering::Greater);
    assert_eq!(compare_text("mouse", "mouse"), Ordering::Equal);
}

#[test]
fn sort_orders_records() {
    let v = vec![dev("Mouse", "input-mouse", 50), dev("Keys", "input-keyboard", 80), dev("Mouse", "input-mouse", 20)];
    let s = sort_devices(v);
    let names: Vec<(String, u64)> = s.iter().map(|d| (d.name.clone(), d.power)).collect();
    assert_eq!(
        names,
        vec![("Keys".to_string(), 80), ("Mouse".to_string(), 20), ("Mouse".to_string(), 50)]
    );
    assert!(sort_devices(vec![]).is_empty());
}

#[test]
fn join_in_short_format() {
    let v = vec![dev("A", "phone", 1), dev("B", "phone", 2)];
    assert_eq!(render(&v, DeviceFormat::Short, false), "A 1%  B 2%\n");
    assert_eq!(render(&v, DeviceFormat::Short, true), "A 1%  B 2%\n");
}

#[test]
fn join_in_long_and_narrow_formats() {
    let v = vec![dev("A", "phone", 1), dev("B", "unknown", 2)];
    assert_eq!(render(&v, DeviceFormat::Long, false), "📱 A (1%) B (2%)\n");
    assert_eq!(render(&v, DeviceFormat::Narrow, false), "📱 1% 2%\n");
}

#[test]
fn empty_output_has_no_newline() {
    assert_eq!(render(&vec![], DeviceFormat::Short, false), "");
    assert_eq!(render(&vec![], DeviceFormat::Narrow, true), "");
    assert_eq!(report(vec![], DeviceFormat::Long, false), "");
}

#[test]
fn single_record_ends_with_newline() {
    assert_eq!(render(&vec![dev("A", "x", 3)], DeviceFormat::Short, false), "A 3%\n");
}

#[test]
fn report_sorts_first() {
    let v = vec![dev("Zed", "x", 1), dev("Amy", "x", 2)];
    assert_eq!(report(v, DeviceFormat::Short, false), "Amy 2%  Zed 1%\n");
}

#[test]
fn default_format_is_narrow() {
    assert_eq!(DeviceFormat::default(), DeviceFormat::Narrow);
}

#[test]
fn property_value_accessors() {
    assert_eq!(PropValue::Unsigned(3).as_unsigned_integer(), Some(3));
    assert_eq!(PropValue::Unsigned(3).as_boolean_like(), Some(true));
    assert_eq!(PropValue::Unsigned(0).as_boolean_like(), Some(false));
    assert_eq!(PropValue::Text("x".to_string()).as_text(), Some(&"x".to_string()));
    assert_eq!(PropValue::Text("x".to_string()).as_unsigned_integer(), None);
    assert_eq!(PropValue::Other.as_boolean_like(), None);
    assert_eq!(PropValue::Other.as_text(), None);
}

#[test]
fn bulk_keeps_connected_devices_with_battery() {
    let o = object(Some(PropValue::Unsigned(1)), Some(64));
    let d = decode_object(&o).unwrap();
    assert_eq!(d.name, "Headset");
    assert_eq!(d.icon.0, "audio-headset");
    assert_eq!(d.power, 64);
}

#[test]
fn bulk_drops_incomplete_or_disconnected() {
    let objects = vec![
        object(Some(PropValue::Unsigned(1)), None),
        object(Some(PropValue::Unsigned(0)), Some(50)),
        object(None, Some(50)),
        object(Some(PropValue::Text("yes".to_string())), Some(50)),
        object(Some(PropValue::Unsigned(1)), Some(77)),
        ManagedObject { path: "/org/bluez/hci0".to_string(), interfaces: vec![] },
    ];
    let r = collect_bulk(&objects);
    assert_eq!(r.len(), 1);
    assert_eq!(r[0].power, 77);
}

#[test]
fn bulk_drops_missing_name_or_icon() {
    let mut o = object(Some(PropValue::Unsigned(1)), Some(10));
    o.interfaces[0].properties[0].value = PropValue::Unsigned(5);
    assert!(decode_object(&o).is_none());
    let mut o = object(Some(PropValue::Unsigned(1)), Some(10));
    o.interfaces[0].properties.remove(1);
    assert!(decode_object(&o).is_none());
    let mut o = object(Some(PropValue::Unsigned(1)), Some(10));
    o.interfaces[1].properties[0].value = PropValue::Other;
    assert!(decode_object(&o).is_none());
}

#[test]
fn targeted_skips_disconnected_address() {
    let r = collect_targeted(vec![AddressReport::Disconnected, details("Pad", "input-gaming", 30)]).ok().unwrap();
    assert_eq!(r.len(), 1);
    assert_eq!(r[0].name, "Pad");
    assert_eq!(r[0].power, 30);
    assert!(collect_targeted(vec![AddressReport::Disconnected]).ok().unwrap().is_empty());
}

#[test]
fn targeted_fails_on_unreadable_percentage() {
    let e = ReadError { message: "no such property".to_string() };
    let r = collect_targeted(vec![
        details("Pad", "input-gaming", 30),
        AddressReport::Connected(Err(e)),
        details("Mouse", "input-mouse", 60),
    ]);
    match r {
        Err(e) => assert_eq!(e.message, "no such property"),
        Ok(_) => panic!("expected an error"),
    }
    let r = collect_targeted(vec![AddressReport::Unreadable(ReadError { message: "gone".to_string() })]);
    assert!(r.is_err());
}

#[test]
fn accept_report_steps() {
    let mut v = Vec::new();
    assert!(accept_report(&mut v, AddressReport::Disconnected).is_ok());
    assert!(v.is_empty());
    assert!(accept_report(&mut v, details("Kb", "input-keyboard", 5)).is_ok());
    assert_eq!(v.len(), 1);
    assert_eq!(v[0].icon.0, "input-keyboard");
    let e = ReadError { message: "m".to_string() };
    assert!(accept_report(&mut v, AddressReport::Connected(Err(e))).is_err());
    assert_eq!(v.len(), 1);
}

#[test]
fn path_of_address() {
    assert_eq!(device_path("aa:bb:cc:dd:ee:0f"), "/org/bluez/hci0/dev_AA_BB_CC_DD_EE_0F");
    assert_eq!(device_path("00:1A:7d"), "/org/bluez/hci0/dev_00_1A_7D");
    assert_eq!(device_path(""), "/org/bluez/hci0/dev_");
}

#[test]
fn icon_parse_accepts_any_text() {
    let i: Icon = "whatever-class".parse().unwrap();
    assert_eq!(i.0, "whatever-class");
    let e: Icon = "".parse().unwrap();
    assert_eq!(e.emoji(), None);
}
