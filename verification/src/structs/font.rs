//! Fonts.

use super::color::{Color, ColorView};
use crate::digest::{fingerprint, hash_text};
use crate::text::{decimal_digits, usize_to_text};
use vstd::prelude::*;
use vstd::string::*;

verus! {

/// A font: typeface, size, decorations and color.
pub struct Font {
    pub name: String,
    pub size: usize,
    pub bold: bool,
    pub italic: bool,
    pub superscript: bool,
    pub subscript: bool,
    pub underline: String,
    pub strikethrough: bool,
    pub color: Color,
    pub charset: usize,
    pub family: usize,
    pub scheme: String,
}

/// A font as plain values.
pub struct FontView {
    pub name: Seq<char>,
    pub size: usize,
    pub bold: bool,
    pub italic: bool,
    pub superscript: bool,
    pub subscript: bool,
    pub underline: Seq<char>,
    pub strikethrough: bool,
    pub color: ColorView,
    pub charset: usize,
    pub family: usize,
    pub scheme: Seq<char>,
}

impl DeepView for Font {
    type V = FontView;

    open spec fn deep_view(&self) -> FontView {
        FontView {
            name: self.name@,
            size: self.size,
            bold: self.bold,
            italic: self.italic,
            superscript: self.superscript,
            subscript: self.subscript,
            underline: self.underline@,
            strikethrough: self.strikethrough,
            color: self.color.deep_view(),
            charset: self.charset,
            family: self.family,
            scheme: self.scheme@,
        }
    }
}

/// How a switch is written in the text that identifies a font.
pub open spec fn flag(on: bool) -> Seq<char> {
    seq![if on { 't' } else { 'f' }]
}

impl FontView {
    /// The font that says nothing.
    pub open spec fn empty() -> FontView {
        FontView {
            name: Seq::empty(),
            size: 0,
            bold: false,
            italic: false,
            superscript: false,
            subscript: false,
            underline: Seq::empty(),
            strikethrough: false,
            color: ColorView::empty(),
            charset: 0,
            family: 0,
            scheme: Seq::empty(),
        }
    }

    /// The font of a new workbook: Calibri at size 11, in black, the first
    /// color of the theme.
    pub open spec fn standard() -> FontView {
        FontView {
            name: "Calibri"@,
            size: 11,
            color: ColorView { theme_index: Some(1), argb: "000000"@, tint: Seq::empty() },
            family: 2,
            scheme: "minor"@,
            ..FontView::empty()
        }
    }

    /// The text whose fingerprint identifies this font: every field in
    /// turn, the color by its own fingerprint.
    pub open spec fn hash_input(self) -> Seq<char> {
        self.name + decimal_digits(self.size as nat) + flag(self.bold) + flag(self.italic) + flag(
            self.superscript,
        ) + flag(self.subscript) + self.underline + flag(self.strikethrough) + decimal_digits(
            self.charset as nat,
        ) + decimal_digits(self.family as nat) + self.scheme + fingerprint(self.color.hash_input())
    }
}

impl Default for Font {
    fn default() -> (font: Font)
        ensures
            font.deep_view() == FontView::empty(),
    {
        Font {
            name: String::new(),
            size: 0,
            bold: false,
            italic: false,
            superscript: false,
            subscript: false,
            underline: String::new(),
            strikethrough: false,
            color: Color::default(),
            charset: 0,
            family: 0,
            scheme: String::new(),
        }
    }
}

impl Clone for Font {
    fn clone(&self) -> (font: Font)
        ensures
            font.deep_view() == self.deep_view(),
    {
        Font {
            name: self.name.clone(),
            size: self.size,
            bold: self.bold,
            italic: self.italic,
            superscript: self.superscript,
            subscript: self.subscript,
            underline: self.underline.clone(),
            strikethrough: self.strikethrough,
            color: self.color.clone(),
            charset: self.charset,
            family: self.family,
            scheme: self.scheme.clone(),
        }
    }
}

fn push_flag(text: &mut String, on: bool)
    ensures
        final(text)@ == old(text)@ + flag(on),
{
    text.push(if on { 't' } else { 'f' });
    assert(text@ =~= old(text)@ + flag(on));
}

impl Font {
    pub const CHARSET_ANSI: usize = 0;

    pub const CHARSET_DEFAULT: usize = 1;

    pub const CHARSET_SYMBOL: usize = 2;

    pub const CHARSET_SHIFTJIS: usize = 128;

    pub const CHARSET_HANGEUL: usize = 129;

    pub const CHARSET_HANGUL: usize = 129;

    pub const CHARSET_GB2312: usize = 134;

    pub const CHARSET_CHINESEBIG5: usize = 136;

    pub const CHARSET_OEM: usize = 255;

    pub const CHARSET_JOHAB: usize = 130;

    pub const CHARSET_HEBREW: usize = 177;

    pub const CHARSET_ARABIC: usize = 178;

    pub const CHARSET_GREEK: usize = 161;

    pub const CHARSET_TURKISH: usize = 162;

    pub const CHARSET_VIETNAMESE: usize = 163;

    pub const CHARSET_THAI: usize = 222;

    pub const CHARSET_EASTEUROPE: usize = 238;

    pub const CHARSET_RUSSIAN: usize = 204;

    pub const CHARSET_MAC: usize = 77;

    pub const CHARSET_BALTIC: usize = 186;

    pub fn get_name(&self) -> (name: &str)
        ensures
            name@ == self.deep_view().name,
    {
        self.name.as_str()
    }

    pub fn set_name(&mut self, value: &str)
        ensures
            final(self).deep_view() == (FontView { name: value@, ..old(self).deep_view() }),
    {
        self.name = value.to_owned();
    }

    pub fn get_size(&self) -> (size: &usize)
        ensures
            *size == self.deep_view().size,
    {
        &self.size
    }

    pub fn set_size(&mut self, value: usize)
        ensures
            final(self).deep_view() == (FontView { size: value, ..old(self).deep_view() }),
    {
        self.size = value;
    }

    pub fn get_italic(&self) -> (italic: &bool)
        ensures
            *italic == self.deep_view().italic,
    {
        &self.italic
    }

    pub fn set_italic(&mut self, value: bool)
        ensures
            final(self).deep_view() == (FontView { italic: value, ..old(self).deep_view() }),
    {
        self.italic = value;
    }

    pub fn get_color(&self) -> (color: &Color)
        ensures
            color.deep_view() == self.deep_view().color,
    {
        &self.color
    }

    /// Lends the color out for change: the font ends with whatever color
    /// the borrower leaves, and is otherwise as before.
    pub fn get_color_mut(&mut self) -> (color: &mut Color)
        ensures
            color.deep_view() == old(self).deep_view().color,
            final(self).deep_view() == (FontView {
                color: final(color).deep_view(),
                ..old(self).deep_view()
            }),
    {
        &mut self.color
    }

    /// Replaces the color. This cannot fail.
    pub fn set_color(&mut self, value: Color) -> (done: Result<(), &'static str>)
        ensures
            done is Ok,
            final(self).deep_view() == (FontView {
                color: value.deep_view(),
                ..old(self).deep_view()
            }),
    {
        self.color = value;
        Ok(())
    }

    pub fn get_strikethrough(&self) -> (strikethrough: &bool)
        ensures
            *strikethrough == self.deep_view().strikethrough,
    {
        &self.strikethrough
    }

    pub fn set_strikethrough(&mut self, value: bool)
        ensures
            final(self).deep_view() == (FontView {
                strikethrough: value,
                ..old(self).deep_view()
            }),
    {
        self.strikethrough = value;
    }

    pub fn get_charset(&self) -> (charset: &usize)
        ensures
            *charset == self.deep_view().charset,
    {
        &self.charset
    }

    pub fn set_charset(&mut self, value: usize)
        ensures
            final(self).deep_view() == (FontView { charset: value, ..old(self).deep_view() }),
    {
        self.charset = value;
    }

    pub fn get_family(&self) -> (family: &usize)
        ensures
            *family == self.deep_view().family,
    {
        &self.family
    }

    pub fn set_family(&mut self, value: usize)
        ensures
            final(self).deep_view() == (FontView { family: value, ..old(self).deep_view() }),
    {
        self.family = value;
    }

    pub fn get_scheme(&self) -> (scheme: &String)
        ensures
            scheme@ == self.deep_view().scheme,
    {
        &self.scheme
    }

    pub fn set_scheme(&mut self, value: &str)
        ensures
            final(self).deep_view() == (FontView { scheme: value@, ..old(self).deep_view() }),
    {
        self.scheme = value.to_owned();
    }

    /// The font of a new workbook.
    pub fn get_defalut_value() -> (font: Font)
        ensures
            font.deep_view() == FontView::standard(),
    {
        let mut def = Font::default();
        def.set_size(11);
        def.set_name("Calibri");
        def.color.set_theme_index_and_argb(1, "000000");
        def.set_family(2);
        def.set_scheme("minor");
        def
    }

    /// The fingerprint of the font: equal fonts have equal fingerprints.
    pub fn get_hash_code(&self) -> (hash: String)
        ensures
            hash@ == fingerprint(self.deep_view().hash_input()),
    {
        let mut input = self.name.clone();
        input.append(usize_to_text(self.size).as_str());
        push_flag(&mut input, self.bold);
        push_flag(&mut input, self.italic);
        push_flag(&mut input, self.superscript);
        push_flag(&mut input, self.subscript);
        input.append(self.underline.as_str());
        push_flag(&mut input, self.strikethrough);
        input.append(usize_to_text(self.charset).as_str());
        input.append(usize_to_text(self.family).as_str());
        input.append(self.scheme.as_str());
        input.append(self.color.get_hash_code().as_str());
        hash_text(input.as_str())
    }
}

} // verus!
