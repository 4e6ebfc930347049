//! Conditional formatting: the rules of one block, and the thresholds and
//! colors of the picture that a rule draws.

use super::color::{resolve_color, resolved_color};
use crate::error::{deep_parsed, deep_result, fault_at, Fault, Table, XlsxError};
use crate::structs::color::{Color, ColorView, Theme};
use crate::structs::conditional::{Conditional, ConditionalView, Threshold, ThresholdView};
use crate::structs::style::{Style, StyleView};
use crate::text::{parse_usize, parse_usize_spec, text_eq};
use crate::xml::{
    attribute_value, fold_attributes, lemma_fold_attributes_fails, lemma_fold_attributes_next,
    AttributeView, Element, ElementView, XmlEvent, XmlEventView,
};
use vstd::prelude::*;
use vstd::string::*;

verus! {

/// What one attribute makes of a rule: `type` is the kind of condition,
/// `dxfId` the index of the style, `priority`, `percent`, `bottom` and `rank`
/// are numbers.
pub open spec fn rule_with_attribute(
    rule: ConditionalView,
    attribute: AttributeView,
    dxf: Seq<StyleView>,
) -> Result<ConditionalView, Fault> {
    if attribute.key == "type"@ {
        Ok(ConditionalView { condition_type: attribute.value, ..rule })
    } else if attribute.key == "dxfId"@ {
        match parse_usize_spec(attribute.value) {
            Some(index) => if index < dxf.len() {
                Ok(ConditionalView { style: Some(dxf[index as int]), ..rule })
            } else {
                Err(Fault::IndexOutOfRange { table: Table::DifferentialStyle, index })
            },
            None => Err(Fault::UnparsableValue),
        }
    } else if attribute.key == "priority"@ {
        match parse_usize_spec(attribute.value) {
            Some(priority) => Ok(ConditionalView { priority, ..rule }),
            None => Err(Fault::UnparsableValue),
        }
    } else if attribute.key == "percent"@ {
        match parse_usize_spec(attribute.value) {
            Some(percent) => Ok(ConditionalView { percent: Some(percent), ..rule }),
            None => Err(Fault::UnparsableValue),
        }
    } else if attribute.key == "bottom"@ {
        match parse_usize_spec(attribute.value) {
            Some(bottom) => Ok(ConditionalView { bottom: Some(bottom), ..rule }),
            None => Err(Fault::UnparsableValue),
        }
    } else if attribute.key == "rank"@ {
        match parse_usize_spec(attribute.value) {
            Some(rank) => Ok(ConditionalView { rank: Some(rank), ..rule }),
            None => Err(Fault::UnparsableValue),
        }
    } else {
        Ok(rule)
    }
}

pub open spec fn rule_step(dxf: Seq<StyleView>) -> spec_fn(
    ConditionalView,
    AttributeView,
) -> Result<ConditionalView, Fault> {
    |rule: ConditionalView, attribute: AttributeView| rule_with_attribute(rule, attribute, dxf)
}

/// The rule that attributes describe, starting from a fresh one.
pub open spec fn rule_of(attributes: Seq<AttributeView>, dxf: Seq<StyleView>) -> Result<
    ConditionalView,
    Fault,
> {
    fold_attributes(ConditionalView::empty(), attributes, rule_step(dxf))
}

/// Reads a rule from the element that starts it.
pub fn get_rule(element: &Element, dxf_vec: &Vec<Style>) -> (rule: Result<Conditional, Fault>)
    ensures
        deep_result(rule) == rule_of(element.deep_view().attributes, dxf_vec.deep_view()),
{
    let ghost all = element.deep_view().attributes;
    let ghost start = ConditionalView::empty();
    let ghost step = rule_step(dxf_vec.deep_view());
    let mut rule = Conditional::default();
    let mut i: usize = 0;
    while i < element.attributes.len()
        invariant
            i <= element.attributes.len(),
            all == element.attributes.deep_view(),
            start == ConditionalView::empty(),
            step == rule_step(dxf_vec.deep_view()),
            fold_attributes(start, all.take(i as int), step) == Ok::<ConditionalView, Fault>(
                rule.deep_view(),
            ),
        decreases element.attributes.len() - i,
    {
        let attribute = &element.attributes[i];
        let key = attribute.key.as_str();
        let value = attribute.value.as_str();
        proof {
            lemma_fold_attributes_next(start, all, step, i as int);
            lemma_fold_attributes_fails(start, all, step, i as int + 1);
            assert(all[i as int] == attribute.deep_view());
        }
        if text_eq(key, "type") {
            rule.condition_type = value.to_owned();
        } else if text_eq(key, "dxfId") {
            match parse_usize(value) {
                Some(index) => {
                    if index < dxf_vec.len() {
                        rule.style = Some(dxf_vec[index].clone());
                    } else {
                        return Err(
                            Fault::IndexOutOfRange { table: Table::DifferentialStyle, index },
                        );
                    }
                },
                None => {
                    return Err(Fault::UnparsableValue);
                },
            }
        } else if text_eq(key, "priority") {
            match parse_usize(value) {
                Some(priority) => {
                    rule.priority = priority;
                },
                None => {
                    return Err(Fault::UnparsableValue);
                },
            }
        } else if text_eq(key, "percent") {
            match parse_usize(value) {
                Some(percent) => {
                    rule.percent = Some(percent);
                },
                None => {
                    return Err(Fault::UnparsableValue);
                },
            }
        } else if text_eq(key, "bottom") {
            match parse_usize(value) {
                Some(bottom) => {
                    rule.bottom = Some(bottom);
                },
                None => {
                    return Err(Fault::UnparsableValue);
                },
            }
        } else if text_eq(key, "rank") {
            match parse_usize(value) {
                Some(rank) => {
                    rule.rank = Some(rank);
                },
                None => {
                    return Err(Fault::UnparsableValue);
                },
            }
        }
        i += 1;
    }
    assert(all.take(i as int) =~= all);
    Ok(rule)
}

/// The kind and the value of the threshold that attributes describe: the
/// kind is empty and the value is none where the attribute is not there.
pub open spec fn threshold_of(attributes: Seq<AttributeView>) -> (Seq<char>, Option<Seq<char>>) {
    (
        match attribute_value(attributes, "type"@) {
            Some(kind) => kind,
            None => Seq::empty(),
        },
        attribute_value(attributes, "value"@),
    )
}

fn get_threshold(element: &Element) -> (threshold: (String, Option<String>))
    ensures
        threshold.deep_view() == threshold_of(element.deep_view().attributes),
{
    let kind = match element.get_attribute("type") {
        Some(kind) => kind.to_owned(),
        None => String::new(),
    };
    let value = match element.get_attribute("value") {
        Some(value) => Some(value.to_owned()),
        None => None,
    };
    (kind, value)
}

/// Whether an element's name is that of a picture that a rule can draw.
pub open spec fn is_picture(name: Seq<char>) -> bool {
    name == "dataBar"@ || name == "colorScale"@ || name == "iconSet"@
}

/// The thresholds of a picture, each with its color, read from the events
/// at `pos` on, and the position after the end of the picture.
///
/// `seen` holds the thresholds read so far and `paired` those that have
/// their color. Each `cfvo` element is one more threshold. Each `color`
/// element goes with the threshold at the same place in order, the first
/// color with the first threshold; a color with no threshold to go with is
/// a fault. The end of the element named `kind` ends the picture, and the
/// document may not end before it.
pub open spec fn thresholds_from(
    events: Seq<XmlEventView>,
    pos: int,
    kind: Seq<char>,
    seen: Seq<(Seq<char>, Option<Seq<char>>)>,
    paired: Seq<ThresholdView>,
    color_map: Seq<Seq<char>>,
) -> Result<(Seq<ThresholdView>, int), XlsxError>
    decreases events.len() - pos,
{
    if pos < 0 || pos >= events.len() {
        Err(fault_at(Fault::UnexpectedEnd, events.len() as int))
    } else {
        match events[pos] {
            XmlEventView::Empty(element) => if element.name == "cfvo"@ {
                thresholds_from(
                    events,
                    pos + 1,
                    kind,
                    seen.push(threshold_of(element.attributes)),
                    paired,
                    color_map,
                )
            } else if element.name == "color"@ {
                match resolved_color(ColorView::empty(), element.attributes, color_map) {
                    Ok(color) => if paired.len() < seen.len() {
                        thresholds_from(
                            events,
                            pos + 1,
                            kind,
                            seen,
                            paired.push(
                                (
                                    seen[paired.len() as int].0,
                                    seen[paired.len() as int].1,
                                    Some(color),
                                ),
                            ),
                            color_map,
                        )
                    } else {
                        Err(fault_at(Fault::UnpairedColor, pos))
                    },
                    Err(fault) => Err(fault_at(fault, pos)),
                }
            } else {
                thresholds_from(events, pos + 1, kind, seen, paired, color_map)
            },
            XmlEventView::End(name) => if name == kind {
                Ok((paired, pos + 1))
            } else {
                thresholds_from(events, pos + 1, kind, seen, paired, color_map)
            },
            XmlEventView::Invalid => Err(fault_at(Fault::InvalidMarkup, pos)),
            _ => thresholds_from(events, pos + 1, kind, seen, paired, color_map),
        }
    }
}

/// A picture that is read ends after the place where it starts, and within
/// the events.
pub proof fn lemma_thresholds_advance(
    events: Seq<XmlEventView>,
    pos: int,
    kind: Seq<char>,
    seen: Seq<(Seq<char>, Option<Seq<char>>)>,
    paired: Seq<ThresholdView>,
    color_map: Seq<Seq<char>>,
)
    requires
        0 <= pos,
    ensures
        thresholds_from(events, pos, kind, seen, paired, color_map) matches Ok((_, next)) ==> pos
            < next <= events.len(),
    decreases events.len() - pos,
{
    if pos < events.len() {
        match events[pos] {
            XmlEventView::Empty(element) => {
                if element.name == "cfvo"@ {
                    lemma_thresholds_advance(
                        events,
                        pos + 1,
                        kind,
                        seen.push(threshold_of(element.attributes)),
                        paired,
                        color_map,
                    );
                } else if element.name == "color"@ {
                    match resolved_color(ColorView::empty(), element.attributes, color_map) {
                        Ok(color) => {
                            if paired.len() < seen.len() {
                                lemma_thresholds_advance(
                                    events,
                                    pos + 1,
                                    kind,
                                    seen,
                                    paired.push(
                                        (
                                            seen[paired.len() as int].0,
                                            seen[paired.len() as int].1,
                                            Some(color),
                                        ),
                                    ),
                                    color_map,
                                );
                            }
                        },
                        Err(_) => {},
                    }
                } else {
                    lemma_thresholds_advance(events, pos + 1, kind, seen, paired, color_map);
                }
            },
            XmlEventView::End(name) => {
                if name != kind {
                    lemma_thresholds_advance(events, pos + 1, kind, seen, paired, color_map);
                }
            },
            XmlEventView::Invalid => {},
            _ => {
                lemma_thresholds_advance(events, pos + 1, kind, seen, paired, color_map);
            },
        }
    }
}

/// Two thresholds, each followed at once by its color, make two pairs in
/// that order: the first threshold with the first color, the second with
/// the second.
pub proof fn lemma_thresholds_pair_in_order(
    events: Seq<XmlEventView>,
    pos: int,
    kind: Seq<char>,
    first: Seq<AttributeView>,
    first_color: Seq<AttributeView>,
    second: Seq<AttributeView>,
    second_color: Seq<AttributeView>,
    color_map: Seq<Seq<char>>,
)
    requires
        0 <= pos,
        pos + 5 <= events.len(),
        events[pos] == XmlEventView::Empty(ElementView { name: "cfvo"@, attributes: first }),
        events[pos + 1] == XmlEventView::Empty(
            ElementView { name: "color"@, attributes: first_color },
        ),
        events[pos + 2] == XmlEventView::Empty(ElementView { name: "cfvo"@, attributes: second }),
        events[pos + 3] == XmlEventView::Empty(
            ElementView { name: "color"@, attributes: second_color },
        ),
        events[pos + 4] == XmlEventView::End(kind),
        resolved_color(ColorView::empty(), first_color, color_map) is Ok,
        resolved_color(ColorView::empty(), second_color, color_map) is Ok,
    ensures
        thresholds_from(events, pos, kind, Seq::empty(), Seq::empty(), color_map) == Ok::<
            (Seq<ThresholdView>, int),
            XlsxError,
        >(
            (
                seq![
                    (
                        threshold_of(first).0,
                        threshold_of(first).1,
                        Some(resolved_color(ColorView::empty(), first_color, color_map)->Ok_0),
                    ),
                    (
                        threshold_of(second).0,
                        threshold_of(second).1,
                        Some(resolved_color(ColorView::empty(), second_color, color_map)->Ok_0),
                    ),
                ],
                pos + 5,
            ),
        ),
{
    reveal_strlit("cfvo");
    reveal_strlit("color");
    assert("cfvo"@.len() == 4 && "color"@.len() == 5);
    let one = threshold_of(first);
    let two = threshold_of(second);
    let x = resolved_color(ColorView::empty(), first_color, color_map)->Ok_0;
    let y = resolved_color(ColorView::empty(), second_color, color_map)->Ok_0;
    let none = Seq::<(Seq<char>, Option<Seq<char>>)>::empty();
    let blank = Seq::<ThresholdView>::empty();
    let seen1 = none.push(one);
    let paired1 = blank.push((one.0, one.1, Some(x)));
    let seen2 = seen1.push(two);
    let paired2 = paired1.push((two.0, two.1, Some(y)));
    assert(thresholds_from(events, pos + 4, kind, seen2, paired2, color_map) == Ok::<
        (Seq<ThresholdView>, int),
        XlsxError,
    >((paired2, pos + 5)));
    assert(thresholds_from(events, pos + 3, kind, seen2, paired1, color_map)
        == thresholds_from(events, pos + 4, kind, seen2, paired2, color_map));
    assert(thresholds_from(events, pos + 2, kind, seen1, paired1, color_map)
        == thresholds_from(events, pos + 3, kind, seen2, paired1, color_map));
    assert(thresholds_from(events, pos + 1, kind, seen1, blank, color_map) == thresholds_from(
        events,
        pos + 2,
        kind,
        seen1,
        paired1,
        color_map,
    ));
    assert(thresholds_from(events, pos, kind, none, blank, color_map) == thresholds_from(
        events,
        pos + 1,
        kind,
        seen1,
        blank,
        color_map,
    ));
    assert(paired2 =~= seq![(one.0, one.1, Some(x)), (two.0, two.1, Some(y))]);
}

/// Reads the thresholds and colors of one picture: the events from `start`
/// up to the end of the element named `kind`. Hands back the thresholds
/// that have a color, in order, and the position after the picture.
pub fn get_cfvo(
    events: &Vec<XmlEvent>,
    start: usize,
    kind: &str,
    theme: &Theme,
) -> (parsed: Result<(Vec<Threshold>, usize), XlsxError>)
    ensures
        deep_parsed(parsed) == thresholds_from(
            events.deep_view(),
            start as int,
            kind@,
            Seq::empty(),
            Seq::empty(),
            theme.deep_view(),
        ),
{
    let ghost all = events.deep_view();
    let ghost map = theme.deep_view();
    let ghost goal = thresholds_from(all, start as int, kind@, Seq::empty(), Seq::empty(), map);
    let mut seen: Vec<(String, Option<String>)> = Vec::new();
    let mut paired: Vec<Threshold> = Vec::new();
    let mut pos: usize = start;
    assert(seen.deep_view() =~= Seq::empty());
    assert(paired.deep_view() =~= Seq::empty());
    while pos < events.len()
        invariant
            start <= pos,
            all == events.deep_view(),
            map == theme.deep_view(),
            paired.len() <= seen.len(),
            goal == thresholds_from(all, start as int, kind@, Seq::empty(), Seq::empty(), map),
            goal == thresholds_from(
                all,
                pos as int,
                kind@,
                seen.deep_view(),
                paired.deep_view(),
                map,
            ),
        decreases events.len() - pos,
    {
        assert(all[pos as int] == events[pos as int].deep_view());
        match &events[pos] {
            XmlEvent::Empty(element) => {
                if text_eq(element.name.as_str(), "cfvo") {
                    let threshold = get_threshold(element);
                    let ghost before = seen.deep_view();
                    let ghost added = threshold.deep_view();
                    seen.push(threshold);
                    assert(seen.deep_view() =~= before.push(added));
                } else if text_eq(element.name.as_str(), "color") {
                    let color = match resolve_color(element, &Color::default(), theme) {
                        Ok(color) => color,
                        Err(fault) => {
                            return Err(XlsxError { fault, position: pos });
                        },
                    };
                    let k = paired.len();
                    if k >= seen.len() {
                        return Err(XlsxError { fault: Fault::UnpairedColor, position: pos });
                    }
                    let value = match &seen[k].1 {
                        Some(value) => Some(value.clone()),
                        None => None,
                    };
                    let threshold = (seen[k].0.clone(), value, Some(color));
                    let ghost before = paired.deep_view();
                    let ghost added = threshold.deep_view();
                    assert(seen.deep_view()[k as int] == seen[k as int].deep_view());
                    paired.push(threshold);
                    assert(paired.deep_view() =~= before.push(added));
                }
            },
            XmlEvent::End(name) => {
                if text_eq(name.as_str(), kind) {
                    return Ok((paired, pos + 1));
                }
            },
            XmlEvent::Invalid => {
                return Err(XlsxError { fault: Fault::InvalidMarkup, position: pos });
            },
            _ => {},
        }
        pos += 1;
    }
    Err(XlsxError { fault: Fault::UnexpectedEnd, position: events.len() })
}

/// The rules of a block of conditional formatting, in document order, read
/// from the events at `pos` on, and the position after the end of the block.
///
/// `current` is the rule being read and `done` holds the rules that are
/// complete. A `cfRule` element starts a fresh rule from its attributes;
/// one that closes itself is complete at once. Inside a rule, the start of
/// a picture names the kind of picture that the rule draws and brings its
/// thresholds. The end of a `cfRule` completes the rule being read. The end
/// of `conditionalFormatting` ends the block, and the document may not end
/// before it.
pub open spec fn rules_from(
    events: Seq<XmlEventView>,
    pos: int,
    current: ConditionalView,
    done: Seq<ConditionalView>,
    dxf: Seq<StyleView>,
    color_map: Seq<Seq<char>>,
) -> Result<(Seq<ConditionalView>, int), XlsxError>
    decreases events.len() - pos,
{
    if pos < 0 || pos >= events.len() {
        Err(fault_at(Fault::UnexpectedEnd, events.len() as int))
    } else {
        match events[pos] {
            XmlEventView::Empty(element) => if element.name == "cfRule"@ {
                match rule_of(element.attributes, dxf) {
                    Ok(rule) => rules_from(
                        events,
                        pos + 1,
                        ConditionalView::empty(),
                        done.push(rule),
                        dxf,
                        color_map,
                    ),
                    Err(fault) => Err(fault_at(fault, pos)),
                }
            } else {
                rules_from(events, pos + 1, current, done, dxf, color_map)
            },
            XmlEventView::Start(element) => if element.name == "cfRule"@ {
                match rule_of(element.attributes, dxf) {
                    Ok(rule) => rules_from(events, pos + 1, rule, done, dxf, color_map),
                    Err(fault) => Err(fault_at(fault, pos)),
                }
            } else if is_picture(element.name) {
                match thresholds_from(
                    events,
                    pos + 1,
                    element.name,
                    Seq::empty(),
                    Seq::empty(),
                    color_map,
                ) {
                    Ok((thresholds, next)) => {
                        proof {
                            lemma_thresholds_advance(
                                events,
                                pos + 1,
                                element.name,
                                Seq::empty(),
                                Seq::empty(),
                                color_map,
                            );
                        }
                        rules_from(
                            events,
                            next,
                            ConditionalView {
                                data_type: element.name,
                                cfvo_collection: thresholds,
                                ..current
                            },
                            done,
                            dxf,
                            color_map,
                        )
                    },
                    Err(error) => Err(error),
                }
            } else {
                rules_from(events, pos + 1, current, done, dxf, color_map)
            },
            XmlEventView::End(name) => if name == "conditionalFormatting"@ {
                Ok((done, pos + 1))
            } else if name == "cfRule"@ {
                rules_from(
                    events,
                    pos + 1,
                    ConditionalView::empty(),
                    done.push(current),
                    dxf,
                    color_map,
                )
            } else {
                rules_from(events, pos + 1, current, done, dxf, color_map)
            },
            XmlEventView::Invalid => Err(fault_at(Fault::InvalidMarkup, pos)),
            _ => rules_from(events, pos + 1, current, done, dxf, color_map),
        }
    }
}

/// A block that is read ends after the place where it starts, and within
/// the events.
pub proof fn lemma_rules_advance(
    events: Seq<XmlEventView>,
    pos: int,
    current: ConditionalView,
    done: Seq<ConditionalView>,
    dxf: Seq<StyleView>,
    color_map: Seq<Seq<char>>,
)
    requires
        0 <= pos,
    ensures
        rules_from(events, pos, current, done, dxf, color_map) matches Ok((_, next)) ==> pos < next
            <= events.len(),
    decreases events.len() - pos,
{
    if pos < events.len() {
        match events[pos] {
            XmlEventView::Empty(element) => {
                if element.name == "cfRule"@ {
                    match rule_of(element.attributes, dxf) {
                        Ok(rule) => {
                            lemma_rules_advance(
                                events,
                                pos + 1,
                                ConditionalView::empty(),
                                done.push(rule),
                                dxf,
                                color_map,
                            );
                        },
                        Err(_) => {},
                    }
                } else {
                    lemma_rules_advance(events, pos + 1, current, done, dxf, color_map);
                }
            },
            XmlEventView::Start(element) => {
                if element.name == "cfRule"@ {
                    match rule_of(element.attributes, dxf) {
                        Ok(rule) => {
                            lemma_rules_advance(events, pos + 1, rule, done, dxf, color_map);
                        },
                        Err(_) => {},
                    }
                } else if is_picture(element.name) {
                    lemma_thresholds_advance(
                        events,
                        pos + 1,
                        element.name,
                        Seq::empty(),
                        Seq::empty(),
                        color_map,
                    );
                    match thresholds_from(
                        events,
                        pos + 1,
                        element.name,
                        Seq::empty(),
                        Seq::empty(),
                        color_map,
                    ) {
                        Ok((thresholds, next)) => {
                            lemma_rules_advance(
                                events,
                                next,
                                ConditionalView {
                                    data_type: element.name,
                                    cfvo_collection: thresholds,
                                    ..current
                                },
                                done,
                                dxf,
                                color_map,
                            );
                        },
                        Err(_) => {},
                    }
                } else {
                    lemma_rules_advance(events, pos + 1, current, done, dxf, color_map);
                }
            },
            XmlEventView::End(name) => {
                if name == "conditionalFormatting"@ {
                } else if name == "cfRule"@ {
                    lemma_rules_advance(
                        events,
                        pos + 1,
                        ConditionalView::empty(),
                        done.push(current),
                        dxf,
                        color_map,
                    );
                } else {
                    lemma_rules_advance(events, pos + 1, current, done, dxf, color_map);
                }
            },
            XmlEventView::Invalid => {},
            _ => {
                lemma_rules_advance(events, pos + 1, current, done, dxf, color_map);
            },
        }
    }
}

/// Reads the rules of one block of conditional formatting: the events from
/// `start` up to the end of `conditionalFormatting`. Hands back the rules in
/// document order and the position after the block.
pub fn get_conditional_formatting(
    events: &Vec<XmlEvent>,
    start: usize,
    dxf_vec: &Vec<Style>,
    theme: &Theme,
) -> (parsed: Result<(Vec<Conditional>, usize), XlsxError>)
    ensures
        deep_parsed(parsed) == rules_from(
            events.deep_view(),
            start as int,
            ConditionalView::empty(),
            Seq::empty(),
            dxf_vec.deep_view(),
            theme.deep_view(),
        ),
{
    let ghost all = events.deep_view();
    let ghost map = theme.deep_view();
    let ghost dxf = dxf_vec.deep_view();
    let ghost goal = rules_from(
        all,
        start as int,
        ConditionalView::empty(),
        Seq::empty(),
        dxf,
        map,
    );
    let mut conditional_vec: Vec<Conditional> = Vec::new();
    let mut conditional = Conditional::default();
    let mut pos: usize = start;
    assert(conditional_vec.deep_view() =~= Seq::empty());
    while pos < events.len()
        invariant
            start <= pos,
            all == events.deep_view(),
            map == theme.deep_view(),
            dxf == dxf_vec.deep_view(),
            goal == rules_from(
                all,
                start as int,
                ConditionalView::empty(),
                Seq::empty(),
                dxf,
                map,
            ),
            goal == rules_from(
                all,
                pos as int,
                conditional.deep_view(),
                conditional_vec.deep_view(),
                dxf,
                map,
            ),
        decreases events.len() - pos,
    {
        assert(all[pos as int] == events[pos as int].deep_view());
        let mut next: usize = pos + 1;
        match &events[pos] {
            XmlEvent::Empty(element) => {
                if text_eq(element.name.as_str(), "cfRule") {
                    let rule = match get_rule(element, dxf_vec) {
                        Ok(rule) => rule,
                        Err(fault) => {
                            return Err(XlsxError { fault, position: pos });
                        },
                    };
                    let ghost before = conditional_vec.deep_view();
                    let ghost added = rule.deep_view();
                    conditional_vec.push(rule);
                    assert(conditional_vec.deep_view() =~= before.push(added));
                    conditional = Conditional::default();
                }
            },
            XmlEvent::Start(element) => {
                let name = element.name.as_str();
                if text_eq(name, "cfRule") {
                    conditional = match get_rule(element, dxf_vec) {
                        Ok(rule) => rule,
                        Err(fault) => {
                            return Err(XlsxError { fault, position: pos });
                        },
                    };
                } else if text_eq(name, "dataBar") || text_eq(name, "colorScale") || text_eq(
                    name,
                    "iconSet",
                ) {
                    proof {
                        lemma_thresholds_advance(
                            all,
                            pos + 1,
                            name@,
                            Seq::empty(),
                            Seq::empty(),
                            map,
                        );
                    }
                    let (thresholds, after) = get_cfvo(events, pos + 1, name, theme)?;
                    conditional.data_type = name.to_owned();
                    conditional.cfvo_collection = thresholds;
                    next = after;
                }
            },
            XmlEvent::End(name) => {
                if text_eq(name.as_str(), "conditionalFormatting") {
                    return Ok((conditional_vec, pos + 1));
                } else if text_eq(name.as_str(), "cfRule") {
                    let ghost before = conditional_vec.deep_view();
                    let ghost added = conditional.deep_view();
                    conditional_vec.push(conditional);
                    assert(conditional_vec.deep_view() =~= before.push(added));
                    conditional = Conditional::default();
                }
            },
            XmlEvent::Invalid => {
                return Err(XlsxError { fault: Fault::InvalidMarkup, position: pos });
            },
            _ => {},
        }
        pos = next;
    }
    Err(XlsxError { fault: Fault::UnexpectedEnd, position: events.len() })
}

} // verus!
