//! Colors, and the theme palette that they may point into.

use crate::digest::{fingerprint, hash_text};
use crate::text::{chars_of, decimal_digits, usize_to_text};
use vstd::prelude::*;
use vstd::string::*;

verus! {

/// A theme: the palette of colors that documents refer to by slot.
pub struct Theme {
    pub color_map: Vec<String>,
}

impl DeepView for Theme {
    type V = Seq<Seq<char>>;

    open spec fn deep_view(&self) -> Seq<Seq<char>> {
        self.color_map.deep_view()
    }
}

impl Theme {
    /// A theme with the given palette.
    pub fn new(color_map: Vec<String>) -> (theme: Theme)
        ensures
            theme.deep_view() == color_map.deep_view(),
    {
        Theme { color_map }
    }

    pub fn get_color_map(&self) -> (map: &Vec<String>)
        ensures
            map.deep_view() == self.deep_view(),
    {
        &self.color_map
    }
}

/// The number that a hexadecimal digit stands for, in either case.
pub open spec fn hex_digit_value(c: char) -> Option<u8> {
    if '0' <= c <= '9' {
        Some((c as int - '0' as int) as u8)
    } else if 'a' <= c <= 'f' {
        Some((c as int - 'a' as int + 10) as u8)
    } else if 'A' <= c <= 'F' {
        Some((c as int - 'A' as int + 10) as u8)
    } else {
        None
    }
}

/// The byte that two hexadecimal digits write.
pub open spec fn hex_byte(high: char, low: char) -> Option<u8> {
    match (hex_digit_value(high), hex_digit_value(low)) {
        (Some(h), Some(l)) => Some((16 * h + l) as u8),
        _ => None,
    }
}

/// The channels of a color value: red, green and blue for six hexadecimal
/// digits, with alpha before them for eight. Any other text has none.
pub open spec fn channels_of(argb: Seq<char>) -> Option<(Option<u8>, u8, u8, u8)> {
    if argb.len() == 6 {
        match (hex_byte(argb[0], argb[1]), hex_byte(argb[2], argb[3]), hex_byte(argb[4], argb[5])) {
            (Some(red), Some(green), Some(blue)) => Some((None, red, green, blue)),
            _ => None,
        }
    } else if argb.len() == 8 {
        match (
            hex_byte(argb[0], argb[1]),
            hex_byte(argb[2], argb[3]),
            hex_byte(argb[4], argb[5]),
            hex_byte(argb[6], argb[7]),
        ) {
            (Some(alpha), Some(red), Some(green), Some(blue)) => Some(
                (Some(alpha), red, green, blue),
            ),
            _ => None,
        }
    } else {
        None
    }
}

fn hex_digit(c: char) -> (value: Option<u8>)
    ensures
        value == hex_digit_value(c),
{
    if '0' <= c && c <= '9' {
        Some(c as u8 - 48)
    } else if 'a' <= c && c <= 'f' {
        Some(c as u8 - 87)
    } else if 'A' <= c && c <= 'F' {
        Some(c as u8 - 55)
    } else {
        None
    }
}

fn hex_pair(high: char, low: char) -> (value: Option<u8>)
    ensures
        value == hex_byte(high, low),
{
    match (hex_digit(high), hex_digit(low)) {
        (Some(h), Some(l)) => Some(16 * h + l),
        _ => None,
    }
}

/// A color: the slot of the theme that it was taken from, if any, the color
/// value that it resolves to, and the tint to apply, as written.
pub struct Color {
    pub theme_index: Option<usize>,
    pub argb: String,
    pub tint: String,
}

/// A color as plain values.
pub struct ColorView {
    pub theme_index: Option<usize>,
    pub argb: Seq<char>,
    pub tint: Seq<char>,
}

impl DeepView for Color {
    type V = ColorView;

    open spec fn deep_view(&self) -> ColorView {
        ColorView { theme_index: self.theme_index, argb: self.argb@, tint: self.tint@ }
    }
}

impl ColorView {
    /// The color that says nothing.
    pub open spec fn empty() -> ColorView {
        ColorView { theme_index: None, argb: Seq::empty(), tint: Seq::empty() }
    }

    /// This color, given explicitly by value: the value is taken as it is,
    /// and no slot is kept.
    pub open spec fn with_argb(self, argb: Seq<char>) -> ColorView {
        ColorView { theme_index: None, argb, ..self }
    }

    /// This color, taken from a slot of the palette: it resolves to the
    /// color in that slot, and to nothing where the palette has no such slot.
    pub open spec fn with_theme_index(self, index: usize, color_map: Seq<Seq<char>>) -> ColorView {
        ColorView {
            theme_index: Some(index),
            argb: if index < color_map.len() {
                color_map[index as int]
            } else {
                Seq::empty()
            },
            ..self
        }
    }

    /// This color with another tint.
    pub open spec fn with_tint(self, tint: Seq<char>) -> ColorView {
        ColorView { tint, ..self }
    }

    /// The text whose fingerprint identifies this color.
    pub open spec fn hash_input(self) -> Seq<char> {
        (match self.theme_index {
            Some(index) => decimal_digits(index as nat),
            None => Seq::empty(),
        }) + self.argb + self.tint
    }
}

impl Default for Color {
    fn default() -> (color: Color)
        ensures
            color.deep_view() == ColorView::empty(),
    {
        Color { theme_index: None, argb: String::new(), tint: String::new() }
    }
}

impl Clone for Color {
    fn clone(&self) -> (color: Color)
        ensures
            color.deep_view() == self.deep_view(),
    {
        Color {
            theme_index: self.theme_index,
            argb: self.argb.clone(),
            tint: self.tint.clone(),
        }
    }
}

impl Color {
    pub fn get_argb(&self) -> (argb: &str)
        ensures
            argb@ == self.deep_view().argb,
    {
        self.argb.as_str()
    }

    /// The channels of the color value: alpha if it has one, red, green
    /// and blue.
    pub fn get_channels(&self) -> (channels: Option<(Option<u8>, u8, u8, u8)>)
        ensures
            channels == channels_of(self.deep_view().argb),
    {
        let chars = chars_of(self.argb.as_str());
        if chars.len() == 6 {
            match (
                hex_pair(chars[0], chars[1]),
                hex_pair(chars[2], chars[3]),
                hex_pair(chars[4], chars[5]),
            ) {
                (Some(red), Some(green), Some(blue)) => Some((None, red, green, blue)),
                _ => None,
            }
        } else if chars.len() == 8 {
            match (
                hex_pair(chars[0], chars[1]),
                hex_pair(chars[2], chars[3]),
                hex_pair(chars[4], chars[5]),
                hex_pair(chars[6], chars[7]),
            ) {
                (Some(alpha), Some(red), Some(green), Some(blue)) => Some(
                    (Some(alpha), red, green, blue),
                ),
                _ => None,
            }
        } else {
            None
        }
    }

    pub fn get_theme_index(&self) -> (index: Option<usize>)
        ensures
            index == self.deep_view().theme_index,
    {
        self.theme_index
    }

    pub fn get_tint(&self) -> (tint: &str)
        ensures
            tint@ == self.deep_view().tint,
    {
        self.tint.as_str()
    }

    /// Gives the color explicitly.
    pub fn set_argb(&mut self, value: &str)
        ensures
            final(self).deep_view() == old(self).deep_view().with_argb(value@),
    {
        self.theme_index = None;
        self.argb = value.to_owned();
    }

    /// Takes the color from a slot of the palette.
    pub fn set_theme_index(&mut self, index: usize, color_map: &Vec<String>)
        ensures
            final(self).deep_view() == old(self).deep_view().with_theme_index(
                index,
                color_map.deep_view(),
            ),
    {
        self.theme_index = Some(index);
        if index < color_map.len() {
            self.argb = color_map[index].clone();
        } else {
            self.argb = String::new();
        }
    }

    /// Records a slot of the palette together with the color that stands in it.
    pub fn set_theme_index_and_argb(&mut self, index: usize, argb: &str)
        ensures
            final(self).deep_view() == (ColorView {
                theme_index: Some(index),
                argb: argb@,
                ..old(self).deep_view()
            }),
    {
        self.theme_index = Some(index);
        self.argb = argb.to_owned();
    }

    pub fn set_tint(&mut self, value: &str)
        ensures
            final(self).deep_view() == old(self).deep_view().with_tint(value@),
    {
        self.tint = value.to_owned();
    }

    /// The fingerprint of the color: equal colors have equal fingerprints.
    pub fn get_hash_code(&self) -> (hash: String)
        ensures
            hash@ == fingerprint(self.deep_view().hash_input()),
    {
        let mut input = match self.theme_index {
            Some(index) => usize_to_text(index),
            None => String::new(),
        };
        input.append(self.argb.as_str());
        input.append(self.tint.as_str());
        hash_text(input.as_str())
    }
}

} // verus!
