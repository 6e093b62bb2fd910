use tangara::firmware::{image_size, supports_manifest_version, Firmware, Image};
use tangara::device::{is_tangara_by_id_name, is_tangara_usb};
use tangara::info::{render_size, Info};
use tangara::manifest::{self, FirmwareImage, ManifestV0};
use tangara::settings::{
    Balance, Brightness, EnumSetting, FromLuaOutput, InputMethod, IntRangeSetting, LuaProperty,
    MaximumVolumeLimit, Setting, ToLuaExpr,
};
use tangara::theme::{Style, Theme};

#[test]
fn volume_limit_expressions() {
    assert_eq!(MaximumVolumeLimit::Line.to_lua_expr(), "1");
    assert_eq!(MaximumVolumeLimit::Cd.to_lua_expr(), "2");
    assert_eq!(MaximumVolumeLimit::Maximum.to_lua_expr(), "3");
    assert_eq!(MaximumVolumeLimit::from_lua_output("2"), Some(MaximumVolumeLimit::Cd));
    assert_eq!(MaximumVolumeLimit::from_lua_output("4"), None);
    assert_eq!(MaximumVolumeLimit::from_lua_output("22"), None);
    assert_eq!(MaximumVolumeLimit::items().len(), 3);
    assert_eq!(MaximumVolumeLimit::Cd.label(), "CD Level (+6 dB)");
}

#[test]
fn input_method_expressions() {
    assert_eq!(InputMethod::DPad.to_lua_expr(), "2");
    assert_eq!(InputMethod::from_lua_output("0"), Some(InputMethod::ButtonsOnly));
    assert_eq!(InputMethod::from_lua_output("1"), None);
    assert_eq!(InputMethod::default(), InputMethod::Touchwheel);
    assert_eq!(InputMethod::Touchwheel.label(), "Touchwheel");
}

#[test]
fn integer_settings() {
    assert_eq!(Balance(-42).to_lua_expr(), "-42");
    assert_eq!(Brightness(100).to_lua_expr(), "100");
    assert_eq!(Balance::from_lua_output("-42"), Some(Balance(-42)));
    assert_eq!(Balance::from_lua_output("+7"), Some(Balance(7)));
    assert_eq!(Balance::from_lua_output("nil"), None);
    assert_eq!(Brightness::from_lua_output("99999999999"), None);
    assert_eq!(Balance::min(), -100);
    assert_eq!(Balance::max(), 100);
    assert_eq!(Balance::notches()[1], (0, Some("Balanced")));
    assert_eq!(Brightness::max(), 100);
}

#[test]
fn property_expressions() {
    let p = Balance::property();
    assert_eq!(p.get_expr(), b"require('volume').left_bias:get()".to_vec());
    assert_eq!(p.set_expr(&Balance(-5)), b"require('volume').left_bias:set(-5)".to_vec());
    let q = MaximumVolumeLimit::property();
    assert_eq!(q.set_expr(&MaximumVolumeLimit::Maximum), b"require('volume').limit_db:set(3)".to_vec());
    let r: LuaProperty<Brightness> = LuaProperty::new("display", "brightness");
    assert_eq!(r.get_expr(), b"require('display').brightness:get()".to_vec());
}

#[test]
fn property_value_falls_back_to_default() {
    let p = InputMethod::property();
    assert_eq!(p.value_of("2"), InputMethod::DPad);
    assert_eq!(p.value_of("garbage"), InputMethod::Touchwheel);
    assert_eq!(Brightness::property().value_of("x"), Brightness(0));
    assert_eq!(Brightness::default_value(), Brightness(0));
}

#[test]
fn info_from_outputs() {
    let info = Info::from_outputs(
        "1.2.3".to_string(),
        "4".to_string(),
        "icu".to_string(),
        "7".to_string(),
        "123456",
    );
    assert_eq!(info.firmware.version, "1.2.3");
    assert_eq!(info.database.disk_size, Some(123456));
    let unknown = Info::from_outputs(String::new(), String::new(), String::new(), String::new(), "nil");
    assert_eq!(unknown.database.disk_size, None);
}

#[test]
fn theme_colors() {
    let light = Theme::one_light();
    assert_eq!(light.base05.red(), 0x3800);
    assert_eq!(light.base05.green(), 0x3a00);
    assert_eq!(light.base05.blue(), 0x4200);
    let dark = Theme::one_dark();
    assert_eq!(dark.base0e.red(), 0xc600);
    let s = Style::color(dark.base09).bold();
    assert!(s.bold);
    assert!(!Style::color(dark.base09).bold);
}

#[test]
fn firmware_rules() {
    assert!(supports_manifest_version(0));
    assert!(!supports_manifest_version(1));
    assert_eq!(image_size(1024), Some(1024));
    assert_eq!(image_size(32 * 1024 * 1024), None);
    let m = ManifestV0 {
        firmware: manifest::Firmware {
            version: "1.0.0".to_string(),
            images: vec![FirmwareImage { addr: 0x1000, name: "boot.bin".to_string() }],
        },
    };
    let fw = Firmware::new(
        "/tmp/fw.tra".to_string(),
        m,
        vec![Image { name: "boot.bin".to_string(), addr: 0x1000, data: vec![1, 2] }],
    );
    assert_eq!(fw.path(), "/tmp/fw.tra");
    assert_eq!(fw.version(), "1.0.0");
    assert_eq!(fw.images().len(), 1);
    assert_eq!(fw.images()[0].addr, 0x1000);
}

#[test]
fn size_rendering() {
    assert_eq!(render_size(0), "0 b");
    assert_eq!(render_size(1023), "1023 b");
    assert_eq!(render_size(1024), "1 KiB");
    assert_eq!(render_size(2047), "1 KiB");
    assert_eq!(render_size(5 * 1024 * 1024 + 17), "5 MiB");
    assert_eq!(render_size(3 * 1024 * 1024 * 1024), "3 GiB");
    assert_eq!(render_size(u64::MAX), "17179869183 GiB");
}

#[test]
fn tangara_identification() {
    assert!(is_tangara_usb(4617, 8212));
    assert!(!is_tangara_usb(4617, 8213));
    assert!(!is_tangara_usb(0x303a, 8212));
    assert!(is_tangara_by_id_name("usb-cool_tech_zone_Tangara_0123-if00"));
    assert!(!is_tangara_by_id_name("usb-cool_tech_zone_Tangar"));
    assert!(!is_tangara_by_id_name("usb-FTDI_FT232R_USB_UART-if00-port0"));
}
