//! Device settings that live behind Lua properties on the device, and the
//! Lua expressions that read and write them.

use core::marker::PhantomData;
use vstd::prelude::*;
use vstd::string::{StrSliceExecFns, StringSliceAdditionalSpecFns};
use vstd::utf8::encode_utf8;
use crate::console::append_bytes;
use crate::decimal::{decimal_string, i32_to_string, parse_i32, signed_decimal};

verus! {

/// A value written as a Lua expression.
pub trait ToLuaExpr {
    spec fn lua_expr(&self) -> Seq<char>;

    fn to_lua_expr(&self) -> (r: String)
        ensures
            r@ == self.lua_expr(),
    ;
}

/// A value read back from what the device printed.
pub trait FromLuaOutput: Sized {
    spec fn from_output(output: Seq<char>) -> Option<Self>;

    fn from_lua_output(output: &str) -> (r: Option<Self>)
        ensures
            r == Self::from_output(output@),
    ;
}

/// A setting: where it lives on the device, and its value when the device's
/// answer is not understood.
pub trait Setting: Sized + ToLuaExpr + FromLuaOutput {
    spec fn default_spec() -> Self;

    fn default_value() -> (r: Self)
        ensures
            r == Self::default_spec(),
    ;

    /// The module and the property name on the device.
    spec fn property_spec() -> (Seq<char>, Seq<char>);

    fn property() -> (r: LuaProperty<Self>)
        ensures
            r.module@ == Self::property_spec().0,
            r.property@ == Self::property_spec().1,
    ;
}

/// A setting with a fixed list of choices, each with a label.
pub trait EnumSetting: Setting {
    spec fn items_spec() -> Seq<Self>;

    spec fn label_spec(&self) -> Seq<char>;

    fn items() -> (r: Vec<Self>)
        ensures
            r@ == Self::items_spec(),
    ;

    fn label(&self) -> (r: &'static str)
        ensures
            r@ == self.label_spec(),
    ;
}

/// A setting that is an integer in a range, with labelled notches.
pub trait IntRangeSetting: Setting {
    spec fn min_spec() -> i32;

    spec fn max_spec() -> i32;

    /// The notch positions, in order.
    spec fn notch_values() -> Seq<i32>;

    spec fn int_value(&self) -> i32;

    fn min() -> (r: i32)
        ensures
            r == Self::min_spec(),
    ;

    fn max() -> (r: i32)
        ensures
            r == Self::max_spec(),
    ;

    /// The labelled positions on the range.
    fn notches() -> (r: Vec<(i32, Option<&'static str>)>)
        ensures
            r@.len() == Self::notch_values().len(),
            forall|i: int| 0 <= i < r@.len() ==> (#[trigger] r@[i]).0 == Self::notch_values()[i],
    ;

    fn from_int(v: i32) -> (r: Self)
        ensures
            r.int_value() == v,
    ;

    fn to_int(&self) -> (r: i32)
        ensures
            r == self.int_value(),
    ;
}

/// `require('<module>').<property>`
pub open spec fn property_path(module: Seq<u8>, property: Seq<u8>) -> Seq<u8> {
    encode_utf8("require('"@) + module + encode_utf8("')."@) + property
}

/// The expression that reads a property.
pub open spec fn get_expr_bytes(module: Seq<u8>, property: Seq<u8>) -> Seq<u8> {
    property_path(module, property) + encode_utf8(":get()"@)
}

/// The expression that writes `value` to a property.
pub open spec fn set_expr_bytes(module: Seq<u8>, property: Seq<u8>, value: Seq<u8>) -> Seq<u8> {
    property_path(module, property) + encode_utf8(":set("@) + value + encode_utf8(")"@)
}

/// A property `module.property` on the device that holds a `T`.
#[verifier::reject_recursive_types(T)]
pub struct LuaProperty<T> {
    pub module: &'static str,
    pub property: &'static str,
    pub marker: PhantomData<T>,
}

impl<T> LuaProperty<T> {
    pub fn new(module: &'static str, property: &'static str) -> (r: Self)
        ensures
            r.module == module,
            r.property == property,
    {
        LuaProperty { module, property, marker: PhantomData }
    }
}

impl<T: Setting> LuaProperty<T> {
    fn append_path(&self, out: &mut Vec<u8>)
        ensures
            final(out)@ == old(out)@ + property_path(
                self.module.spec_bytes(),
                self.property.spec_bytes(),
            ),
    {
        append_bytes(out, "require('".as_bytes());
        append_bytes(out, self.module.as_bytes());
        append_bytes(out, "').".as_bytes());
        append_bytes(out, self.property.as_bytes());
        assert(final(out)@ =~= old(out)@ + property_path(
            self.module.spec_bytes(),
            self.property.spec_bytes(),
        ));
    }

    /// The Lua expression that reads the property.
    pub fn get_expr(&self) -> (r: Vec<u8>)
        ensures
            r@ == get_expr_bytes(self.module.spec_bytes(), self.property.spec_bytes()),
    {
        let mut out: Vec<u8> = Vec::new();
        self.append_path(&mut out);
        append_bytes(&mut out, ":get()".as_bytes());
        assert(out@ =~= get_expr_bytes(self.module.spec_bytes(), self.property.spec_bytes()));
        out
    }

    /// The Lua expression that sets the property to `value`.
    pub fn set_expr(&self, value: &T) -> (r: Vec<u8>)
        ensures
            r@ == set_expr_bytes(
                self.module.spec_bytes(),
                self.property.spec_bytes(),
                encode_utf8(value.lua_expr()),
            ),
    {
        let mut out: Vec<u8> = Vec::new();
        self.append_path(&mut out);
        append_bytes(&mut out, ":set(".as_bytes());
        let v = value.to_lua_expr();
        append_bytes(&mut out, v.as_str().as_bytes());
        append_bytes(&mut out, ")".as_bytes());
        assert(out@ =~= set_expr_bytes(
            self.module.spec_bytes(),
            self.property.spec_bytes(),
            encode_utf8(value.lua_expr()),
        ));
        out
    }

    /// The property's value from what the read expression printed; the
    /// setting's default when that is not understood.
    pub fn value_of(&self, output: &str) -> (r: T)
        ensures
            r == (match T::from_output(output@) {
                Some(v) => v,
                None => T::default_spec(),
            }),
    {
        match T::from_lua_output(output) {
            Some(v) => v,
            None => T::default_value(),
        }
    }
}

/// The single character of `s`, if it has exactly one.
fn single_char(s: &str) -> (r: Option<char>)
    ensures
        r matches Some(c) ==> s@.len() == 1 && s@[0] == c,
        r is None ==> s@.len() != 1,
{
    if s.unicode_len() != 1 {
        return None;
    }
    Some(s.get_char(0))
}

#[derive(Clone, Copy, Debug, PartialEq, Eq, Structural)]
pub enum MaximumVolumeLimit {
    Line,
    Cd,
    Maximum,
}

impl ToLuaExpr for MaximumVolumeLimit {
    open spec fn lua_expr(&self) -> Seq<char> {
        match self {
            MaximumVolumeLimit::Line => seq!['1'],
            MaximumVolumeLimit::Cd => seq!['2'],
            MaximumVolumeLimit::Maximum => seq!['3'],
        }
    }

    fn to_lua_expr(&self) -> (r: String) {
        proof {
            reveal_strlit("1");
            reveal_strlit("2");
            reveal_strlit("3");
        }
        match self {
            MaximumVolumeLimit::Line => "1".to_owned(),
            MaximumVolumeLimit::Cd => "2".to_owned(),
            MaximumVolumeLimit::Maximum => "3".to_owned(),
        }
    }
}

impl FromLuaOutput for MaximumVolumeLimit {
    open spec fn from_output(output: Seq<char>) -> Option<Self> {
        if output.len() == 1 {
            match output[0] {
                '1' => Some(MaximumVolumeLimit::Line),
                '2' => Some(MaximumVolumeLimit::Cd),
                '3' => Some(MaximumVolumeLimit::Maximum),
                _ => None,
            }
        } else {
            None
        }
    }

    fn from_lua_output(output: &str) -> (r: Option<Self>) {
        match single_char(output) {
            Some('1') => Some(MaximumVolumeLimit::Line),
            Some('2') => Some(MaximumVolumeLimit::Cd),
            Some('3') => Some(MaximumVolumeLimit::Maximum),
            _ => None,
        }
    }
}

impl Setting for MaximumVolumeLimit {
    open spec fn default_spec() -> Self {
        MaximumVolumeLimit::Line
    }

    fn default_value() -> (r: Self) {
        MaximumVolumeLimit::Line
    }

    open spec fn property_spec() -> (Seq<char>, Seq<char>) {
        ("volume"@, "limit_db"@)
    }

    fn property() -> (r: LuaProperty<Self>) {
        LuaProperty::new("volume", "limit_db")
    }
}

impl EnumSetting for MaximumVolumeLimit {
    open spec fn items_spec() -> Seq<Self> {
        seq![MaximumVolumeLimit::Line, MaximumVolumeLimit::Cd, MaximumVolumeLimit::Maximum]
    }

    open spec fn label_spec(&self) -> Seq<char> {
        match self {
            MaximumVolumeLimit::Line => "Line Level (-10 dB)"@,
            MaximumVolumeLimit::Cd => "CD Level (+6 dB)"@,
            MaximumVolumeLimit::Maximum => "Maximum (+10 dB)"@,
        }
    }

    fn items() -> (r: Vec<Self>) {
        vec![MaximumVolumeLimit::Line, MaximumVolumeLimit::Cd, MaximumVolumeLimit::Maximum]
    }

    fn label(&self) -> (r: &'static str) {
        match self {
            MaximumVolumeLimit::Line => "Line Level (-10 dB)",
            MaximumVolumeLimit::Cd => "CD Level (+6 dB)",
            MaximumVolumeLimit::Maximum => "Maximum (+10 dB)",
        }
    }
}

impl Default for MaximumVolumeLimit {
    fn default() -> (r: Self)
        ensures
            r == MaximumVolumeLimit::Line,
    {
        MaximumVolumeLimit::Line
    }
}

#[derive(Clone, Copy, Debug, PartialEq, Eq, Structural)]
pub enum InputMethod {
    ButtonsOnly,
    DPad,
    Touchwheel,
}

impl ToLuaExpr for InputMethod {
    open spec fn lua_expr(&self) -> Seq<char> {
        match self {
            InputMethod::ButtonsOnly => seq!['0'],
            InputMethod::DPad => seq!['2'],
            InputMethod::Touchwheel => seq!['3'],
        }
    }

    fn to_lua_expr(&self) -> (r: String) {
        proof {
            reveal_strlit("0");
            reveal_strlit("2");
            reveal_strlit("3");
        }
        match self {
            InputMethod::ButtonsOnly => "0".to_owned(),
            InputMethod::DPad => "2".to_owned(),
            InputMethod::Touchwheel => "3".to_owned(),
        }
    }
}

impl FromLuaOutput for InputMethod {
    open spec fn from_output(output: Seq<char>) -> Option<Self> {
        if output.len() == 1 {
            match output[0] {
                '0' => Some(InputMethod::ButtonsOnly),
                '2' => Some(InputMethod::DPad),
                '3' => Some(InputMethod::Touchwheel),
                _ => None,
            }
        } else {
            None
        }
    }

    fn from_lua_output(output: &str) -> (r: Option<Self>) {
        match single_char(output) {
            Some('0') => Some(InputMethod::ButtonsOnly),
            Some('2') => Some(InputMethod::DPad),
            Some('3') => Some(InputMethod::Touchwheel),
            _ => None,
        }
    }
}

impl Setting for InputMethod {
    open spec fn default_spec() -> Self {
        InputMethod::Touchwheel
    }

    fn default_value() -> (r: Self) {
        InputMethod::Touchwheel
    }

    open spec fn property_spec() -> (Seq<char>, Seq<char>) {
        ("controls"@, "scheme"@)
    }

    fn property() -> (r: LuaProperty<Self>) {
        LuaProperty::new("controls", "scheme")
    }
}

impl EnumSetting for InputMethod {
    open spec fn items_spec() -> Seq<Self> {
        seq![InputMethod::ButtonsOnly, InputMethod::DPad, InputMethod::Touchwheel]
    }

    open spec fn label_spec(&self) -> Seq<char> {
        match self {
            InputMethod::ButtonsOnly => "Buttons Only"@,
            InputMethod::DPad => "D-Pad"@,
            InputMethod::Touchwheel => "Touchwheel"@,
        }
    }

    fn items() -> (r: Vec<Self>) {
        vec![InputMethod::ButtonsOnly, InputMethod::DPad, InputMethod::Touchwheel]
    }

    fn label(&self) -> (r: &'static str) {
        match self {
            InputMethod::ButtonsOnly => "Buttons Only",
            InputMethod::DPad => "D-Pad",
            InputMethod::Touchwheel => "Touchwheel",
        }
    }
}

impl Default for InputMethod {
    fn default() -> (r: Self)
        ensures
            r == InputMethod::Touchwheel,
    {
        InputMethod::Touchwheel
    }
}

/// The `i32` that decimal text denotes, if it denotes one.
pub open spec fn i32_of(output: Seq<char>) -> Option<i32> {
    match signed_decimal(output) {
        Some(v) => if i32::MIN <= v <= i32::MAX {
            Some(v as i32)
        } else {
            None
        },
        None => None,
    }
}

/// Left/right balance, from -100 (left) to 100 (right).
#[derive(Clone, Copy, Debug, PartialEq, Eq, Structural)]
pub struct Balance(pub i32);

impl ToLuaExpr for Balance {
    open spec fn lua_expr(&self) -> Seq<char> {
        decimal_string(self.0 as int)
    }

    fn to_lua_expr(&self) -> (r: String) {
        i32_to_string(self.0)
    }
}

impl FromLuaOutput for Balance {
    open spec fn from_output(output: Seq<char>) -> Option<Self> {
        match i32_of(output) {
            Some(v) => Some(Balance(v)),
            None => None,
        }
    }

    fn from_lua_output(output: &str) -> (r: Option<Self>) {
        match parse_i32(output) {
            Some(v) => Some(Balance(v)),
            None => None,
        }
    }
}

impl Setting for Balance {
    open spec fn default_spec() -> Self {
        Balance(0)
    }

    fn default_value() -> (r: Self) {
        Balance(0)
    }

    open spec fn property_spec() -> (Seq<char>, Seq<char>) {
        ("volume"@, "left_bias"@)
    }

    fn property() -> (r: LuaProperty<Self>) {
        LuaProperty::new("volume", "left_bias")
    }
}

impl IntRangeSetting for Balance {
    open spec fn min_spec() -> i32 {
        -100i32
    }

    open spec fn max_spec() -> i32 {
        100
    }

    open spec fn notch_values() -> Seq<i32> {
        seq![-100i32, 0i32, 100i32]
    }

    open spec fn int_value(&self) -> i32 {
        self.0
    }

    fn min() -> (r: i32) {
        -100
    }

    fn max() -> (r: i32) {
        100
    }

    fn notches() -> (r: Vec<(i32, Option<&'static str>)>) {
        vec![(-100, Some("Left")), (0, Some("Balanced")), (100, Some("Right"))]
    }

    fn from_int(v: i32) -> (r: Self) {
        Balance(v)
    }

    fn to_int(&self) -> (r: i32) {
        self.0
    }
}

impl Default for Balance {
    fn default() -> (r: Self)
        ensures
            r == Balance(0),
    {
        Balance(0)
    }
}

/// Display brightness, from 0 to 100.
#[derive(Clone, Copy, Debug, PartialEq, Eq, Structural)]
pub struct Brightness(pub i32);

impl ToLuaExpr for Brightness {
    open spec fn lua_expr(&self) -> Seq<char> {
        decimal_string(self.0 as int)
    }

    fn to_lua_expr(&self) -> (r: String) {
        i32_to_string(self.0)
    }
}

impl FromLuaOutput for Brightness {
    open spec fn from_output(output: Seq<char>) -> Option<Self> {
        match i32_of(output) {
            Some(v) => Some(Brightness(v)),
            None => None,
        }
    }

    fn from_lua_output(output: &str) -> (r: Option<Self>) {
        match parse_i32(output) {
            Some(v) => Some(Brightness(v)),
            None => None,
        }
    }
}

impl Setting for Brightness {
    open spec fn default_spec() -> Self {
        Brightness(0)
    }

    fn default_value() -> (r: Self) {
        Brightness(0)
    }

    open spec fn property_spec() -> (Seq<char>, Seq<char>) {
        ("display"@, "brightness"@)
    }

    fn property() -> (r: LuaProperty<Self>) {
        LuaProperty::new("display", "brightness")
    }
}

impl IntRangeSetting for Brightness {
    open spec fn min_spec() -> i32 {
        0
    }

    open spec fn max_spec() -> i32 {
        100
    }

    open spec fn notch_values() -> Seq<i32> {
        Seq::empty()
    }

    open spec fn int_value(&self) -> i32 {
        self.0
    }

    fn min() -> (r: i32) {
        0
    }

    fn max() -> (r: i32) {
        100
    }

    fn notches() -> (r: Vec<(i32, Option<&'static str>)>) {
        Vec::new()
    }

    fn from_int(v: i32) -> (r: Self) {
        Brightness(v)
    }

    fn to_int(&self) -> (r: i32) {
        self.0
    }
}

impl Default for Brightness {
    fn default() -> (r: Self)
        ensures
            r == Brightness(0),
    {
        Brightness(0)
    }
}

} // verus!
