//! Colors as elements write them: by a slot of the theme, by value, with a
//! tint.

use crate::error::{deep_result, Fault};
use crate::structs::color::{Color, ColorView, Theme};
use crate::structs::worksheet::Worksheet;
use crate::text::{is_real, is_real_text, parse_usize, parse_usize_spec, text_eq};
use crate::xml::{
    fold_attributes, lemma_fold_attributes_fails, lemma_fold_attributes_next, AttributeView,
    Element,
};
use vstd::prelude::*;
use vstd::string::*;

verus! {

/// What one attribute makes of a color: `theme` takes the color from a slot
/// of the palette, `rgb` gives it by value, `tint` sets the tint, and any
/// other attribute leaves the color as it is.
pub open spec fn color_with_attribute(
    color: ColorView,
    attribute: AttributeView,
    color_map: Seq<Seq<char>>,
) -> Result<ColorView, Fault> {
    if attribute.key == "theme"@ {
        match parse_usize_spec(attribute.value) {
            Some(index) => Ok(color.with_theme_index(index, color_map)),
            None => Err(Fault::UnparsableValue),
        }
    } else if attribute.key == "rgb"@ {
        Ok(color.with_argb(attribute.value))
    } else if attribute.key == "tint"@ {
        if is_real_text(attribute.value) {
            Ok(color.with_tint(attribute.value))
        } else {
            Err(Fault::UnparsableValue)
        }
    } else {
        Ok(color)
    }
}

pub open spec fn color_step(color_map: Seq<Seq<char>>) -> spec_fn(
    ColorView,
    AttributeView,
) -> Result<ColorView, Fault> {
    |color: ColorView, attribute: AttributeView| color_with_attribute(color, attribute, color_map)
}

/// The color that attributes make of `color`, taken in order: a later
/// attribute has the last word.
pub open spec fn resolved_color(
    color: ColorView,
    attributes: Seq<AttributeView>,
    color_map: Seq<Seq<char>>,
) -> Result<ColorView, Fault> {
    fold_attributes(color, attributes, color_step(color_map))
}

/// A color given by value alone resolves to that value, whatever the
/// palette holds.
pub proof fn lemma_color_by_value(base: ColorView, value: Seq<char>, color_map: Seq<Seq<char>>)
    ensures
        resolved_color(base, seq![AttributeView { key: "rgb"@, value }], color_map) == Ok::<
            ColorView,
            Fault,
        >(base.with_argb(value)),
        base.with_argb(value).argb == value,
{
    let attributes = seq![AttributeView { key: "rgb"@, value }];
    reveal_strlit("rgb");
    reveal_strlit("theme");
    assert("rgb"@.len() == 3 && "theme"@.len() == 5);
    assert(attributes.drop_last() =~= Seq::empty());
    assert(attributes.last().key == "rgb"@);
    assert(color_with_attribute(base, attributes.last(), color_map) == Ok::<ColorView, Fault>(
        base.with_argb(value),
    ));
    assert(fold_attributes(base, attributes.drop_last(), color_step(color_map)) == Ok::<
        ColorView,
        Fault,
    >(base));
}

/// Resolves the color that an element describes, starting from `base`.
pub fn resolve_color(element: &Element, base: &Color, theme: &Theme) -> (resolved: Result<
    Color,
    Fault,
>)
    ensures
        deep_result(resolved) == resolved_color(
            base.deep_view(),
            element.deep_view().attributes,
            theme.deep_view(),
        ),
{
    let ghost all = element.deep_view().attributes;
    let ghost step = color_step(theme.deep_view());
    let mut color = base.clone();
    let mut i: usize = 0;
    while i < element.attributes.len()
        invariant
            i <= element.attributes.len(),
            all == element.attributes.deep_view(),
            step == color_step(theme.deep_view()),
            fold_attributes(base.deep_view(), all.take(i as int), step) == Ok::<ColorView, Fault>(
                color.deep_view(),
            ),
        decreases element.attributes.len() - i,
    {
        let attribute = &element.attributes[i];
        proof {
            lemma_fold_attributes_next(base.deep_view(), all, step, i as int);
            assert(all[i as int] == attribute.deep_view());
        }
        if text_eq(attribute.key.as_str(), "theme") {
            match parse_usize(attribute.value.as_str()) {
                Some(index) => {
                    color.set_theme_index(index, theme.get_color_map());
                },
                None => {
                    proof {
                        lemma_fold_attributes_fails(base.deep_view(), all, step, i as int + 1);
                    }
                    return Err(Fault::UnparsableValue);
                },
            }
        } else if text_eq(attribute.key.as_str(), "rgb") {
            color.set_argb(attribute.value.as_str());
        } else if text_eq(attribute.key.as_str(), "tint") {
            if is_real(attribute.value.as_str()) {
                color.set_tint(attribute.value.as_str());
            } else {
                proof {
                    lemma_fold_attributes_fails(base.deep_view(), all, step, i as int + 1);
                }
                return Err(Fault::UnparsableValue);
            }
        }
        i += 1;
    }
    assert(all.take(i as int) =~= all);
    Ok(color)
}

/// Reads the color of the tab from an element into the worksheet.
pub fn get_attribute_color(
    element: &Element,
    worksheet: &mut Worksheet,
    theme: &Theme,
) -> (done: Result<(), Fault>)
    ensures
        match resolved_color(
            old(worksheet).deep_view().tab_color,
            element.deep_view().attributes,
            theme.deep_view(),
        ) {
            Ok(color) => done is Ok && final(worksheet).deep_view() == old(
                worksheet,
            ).deep_view().with_tab_color(color),
            Err(fault) => done == Err::<(), Fault>(fault) && final(worksheet).deep_view() == old(
                worksheet,
            ).deep_view(),
        },
{
    match resolve_color(element, worksheet.get_tab_color(), theme) {
        Ok(color) => {
            worksheet.set_tab_color(color);
            Ok(())
        },
        Err(fault) => Err(fault),
    }
}

} // verus!
