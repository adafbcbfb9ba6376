//! The SVG style of a shape, from the cut setting that its cut index names.

use crate::types::{CutSetting, CutSettingView};
use vstd::prelude::*;

verus! {

/// The stroke colours given to cut settings that name none, by cut index.
pub open spec fn palette(i: int) -> Seq<char> {
    if i == 0 {
        "#000000"@
    } else if i == 1 {
        "#FF0000"@
    } else if i == 2 {
        "#00AA00"@
    } else if i == 3 {
        "#0000FF"@
    } else if i == 4 {
        "#FF9900"@
    } else if i == 5 {
        "#9900FF"@
    } else if i == 6 {
        "#00AAAA"@
    } else {
        "#AAAA00"@
    }
}

/// The style of a shape whose cut index names no cut setting.
pub open spec fn default_style() -> Seq<char> {
    "stroke:#000000;stroke-width:0.050000mm;fill:none"@
}

/// The values of a list of cut settings.
pub open spec fn settings_view(settings: Seq<CutSetting>) -> Seq<CutSettingView> {
    settings.map_values(|c: CutSetting| c.deep_view())
}

/// The value of an optional table of cut settings.
pub open spec fn table_view(table: Option<&[CutSetting]>) -> Option<Seq<CutSettingView>> {
    match table {
        Some(t) => Some(settings_view(t@)),
        None => None,
    }
}

/// The position of the first cut setting with the given index.
pub open spec fn position_of(settings: Seq<CutSettingView>, index: i32) -> Option<int>
    decreases settings.len(),
{
    if settings.len() == 0 {
        None
    } else if settings[0].index == index {
        Some(0)
    } else {
        match position_of(settings.skip(1), index) {
            Some(p) => Some(p + 1),
            None => None,
        }
    }
}

/// What `position_of` returns is the first position with the index.
pub proof fn lemma_position_of(settings: Seq<CutSettingView>, index: i32)
    ensures
        match position_of(settings, index) {
            Some(p) => 0 <= p < settings.len() && settings[p].index == index && forall|q: int|
                0 <= q < p ==> settings[q].index != index,
            None => forall|q: int| 0 <= q < settings.len() ==> settings[q].index != index,
        },
    decreases settings.len(),
{
    if settings.len() > 0 && settings[0].index != index {
        lemma_position_of(settings.skip(1), index);
        match position_of(settings.skip(1), index) {
            Some(p) => {
                assert forall|q: int| 0 <= q < p + 1 implies settings[q].index != index by {
                    if q > 0 {
                        assert(settings.skip(1)[q - 1] == settings[q]);
                    }
                }
            },
            None => {
                assert forall|q: int| 0 <= q < settings.len() implies settings[q].index
                    != index by {
                    if q > 0 {
                        assert(settings.skip(1)[q - 1] == settings[q]);
                    }
                }
            },
        }
    }
}

/// The stroke colour of a cut setting: its own, or else the palette colour
/// of its index modulo eight, black for a negative index.
pub open spec fn stroke_color(setting: CutSettingView) -> Seq<char> {
    match setting.color {
        Some(c) => c,
        None => palette(
            if setting.index >= 0 {
                setting.index as int % 8
            } else {
                0
            },
        ),
    }
}

/// The stroke width of a cut setting: its own, or else a twentieth of a
/// millimetre.
pub open spec fn stroke_width(setting: CutSettingView) -> Seq<char> {
    match setting.stroke_width {
        Some(w) => w,
        None => "0.050000mm"@,
    }
}

/// The style that a cut setting gives.
pub open spec fn setting_style(setting: CutSettingView) -> Seq<char> {
    "stroke:"@ + stroke_color(setting) + ";stroke-width:"@ + stroke_width(setting) + ";fill:none"@
}

/// The style of a shape with cut index `cut_index` under the table
/// `settings`: that of the first cut setting with the index, the default
/// style where there is no table, an empty one, or none with the index.
pub open spec fn style_of(cut_index: i32, settings: Option<Seq<CutSettingView>>) -> Seq<char> {
    match settings {
        Some(s) => match position_of(s, cut_index) {
            Some(p) => setting_style(s[p]),
            None => default_style(),
        },
        None => default_style(),
    }
}

/// Without a table of cut settings every cut index gives the default
/// style.
pub proof fn style_without_settings(cut_index: i32)
    ensures
        style_of(cut_index, None) == default_style(),
{
}

/// A cut setting with a negative index that names no colour gives a black
/// stroke, not a palette colour counted from the end; where it names no
/// stroke width either, it gives the default style.
pub proof fn style_of_negative_index(cut_index: i32, settings: Seq<CutSettingView>)
    requires
        cut_index < 0,
        position_of(settings, cut_index) matches Some(p) && settings[p].color is None,
    ensures
        style_of(cut_index, Some(settings)) == "stroke:#000000;stroke-width:"@ + stroke_width(
            settings[position_of(settings, cut_index)->0],
        ) + ";fill:none"@,
        settings[position_of(settings, cut_index)->0].stroke_width is None ==> style_of(
            cut_index,
            Some(settings),
        ) == default_style(),
{
    lemma_position_of(settings, cut_index);
    reveal_strlit("stroke:");
    reveal_strlit("#000000");
    reveal_strlit("stroke:#000000;stroke-width:");
    reveal_strlit(";stroke-width:");
    reveal_strlit("0.050000mm");
    reveal_strlit(";fill:none");
    reveal_strlit("stroke:#000000;stroke-width:0.050000mm;fill:none");
    let p = position_of(settings, cut_index)->0;
    let width = stroke_width(settings[p]);
    assert("stroke:"@ + "#000000"@ + ";stroke-width:"@ =~= "stroke:#000000;stroke-width:"@);
    assert(setting_style(settings[p]) == "stroke:#000000;stroke-width:"@ + width + ";fill:none"@);
    if settings[p].stroke_width is None {
        assert(setting_style(settings[p]) =~= default_style());
    }
}

/// The palette colour with the number `i`.
fn palette_color(i: usize) -> (s: String)
    requires
        i < 8,
    ensures
        s@ == palette(i as int),
{
    if i == 0 {
        String::from_str("#000000")
    } else if i == 1 {
        String::from_str("#FF0000")
    } else if i == 2 {
        String::from_str("#00AA00")
    } else if i == 3 {
        String::from_str("#0000FF")
    } else if i == 4 {
        String::from_str("#FF9900")
    } else if i == 5 {
        String::from_str("#9900FF")
    } else if i == 6 {
        String::from_str("#00AAAA")
    } else {
        String::from_str("#AAAA00")
    }
}

/// Get the SVG style string for a given cut index.
pub fn get_cut_setting_style(cut_index: i32, cut_settings: Option<&[CutSetting]>) -> (style:
    String)
    ensures
        style@ == style_of(cut_index, table_view(cut_settings)),
{
    let settings = match cut_settings {
        Some(s) => s,
        None => {
            return String::from_str("stroke:#000000;stroke-width:0.050000mm;fill:none");
        },
    };
    let ghost views = settings_view(settings@);
    assert(views.skip(0) =~= views);
    let mut i: usize = 0;
    while i < settings.len()
        invariant
            i <= settings.len(),
            cut_settings == Some(settings),
            views == settings_view(settings@),
            position_of(views, cut_index) == match position_of(views.skip(i as int), cut_index) {
                Some(p) => Some(p + i),
                None => None,
            },
        decreases settings.len() - i,
    {
        let cs = &settings[i];
        proof {
            assert(views.skip(i as int)[0] == cs.deep_view());
            assert(views.skip(i as int).skip(1) =~= views.skip(i + 1));
        }
        if cs.index == cut_index {
            let color = match &cs.color {
                Some(c) => c.clone(),
                None => palette_color(
                    if cs.index >= 0 {
                        (cs.index as usize) % 8
                    } else {
                        0
                    },
                ),
            };
            let width = match &cs.stroke_width {
                Some(w) => w.clone(),
                None => String::from_str("0.050000mm"),
            };
            let mut style = String::from_str("stroke:");
            style.append(color.as_str());
            style.append(";stroke-width:");
            style.append(width.as_str());
            style.append(";fill:none");
            proof {
                assert(position_of(views.skip(i as int), cut_index) == Some(0int));
                assert(views[i as int] == cs.deep_view());
                assert(color@ == stroke_color(cs.deep_view()));
                assert(width@ == stroke_width(cs.deep_view()));
                assert(style@ == setting_style(cs.deep_view()));
            }
            return style;
        }
        i += 1;
    }
    assert(views.skip(settings.len() as int) =~= Seq::<CutSettingView>::empty());
    String::from_str("stroke:#000000;stroke-width:0.050000mm;fill:none")
}

} // verus!
