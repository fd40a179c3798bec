//! The rows of the font table: the fonts that are checked, and for each
//! whether it has a link list and the text that shows it.

use vstd::prelude::*;

use crate::fontlink::{
    fold_name, link_text, link_text_for, no_link_text, no_link_text_string, FontLinkTable,
};

verus! {

/// One row of the table.
pub struct FontItem {
    pub name: String,
    pub has_fontlink: bool,
    pub link_text: String,
}

/// The names of the fonts that the table lists, in order.
pub open spec fn system_font_list() -> Seq<Seq<char>> {
    seq![
        "Arial"@,
        "Batang"@,
        "BatangChe"@,
        "Dotum"@,
        "DotumChe"@,
        "Gulim"@,
        "GulimChe"@,
        "Gungsuh"@,
        "GungsuhChe"@,
        "Lucida Sans Unicode"@,
        "Malgun Gothic Bold"@,
        "Malgun Gothic"@,
        "Meiryo Bold"@,
        "Meiryo UI Bold"@,
        "Meiryo UI"@,
        "Meiryo"@,
        "Microsoft JhengHei Bold"@,
        "Microsoft JhengHei UI Bold"@,
        "Microsoft JhengHei UI Light"@,
        "Microsoft JhengHei UI"@,
        "Microsoft JhengHei"@,
        "Microsoft Sans Serif"@,
        "Microsoft YaHei Bold"@,
        "Microsoft YaHei UI Bold"@,
        "Microsoft YaHei UI"@,
        "Microsoft YaHei"@,
        "MingLiU"@,
        "MingLiU_HKSCS"@,
        "MingLiU_HKSCS-ExtB"@,
        "MingLiU-ExtB"@,
        "MS Gothic"@,
        "MS Mincho"@,
        "MS PGothic"@,
        "MS PMincho"@,
        "MS UI Gothic"@,
        "NSimSun"@,
        "PMingLiU"@,
        "PMingLiU-ExtB"@,
        "Segoe UI Semibold"@,
        "Segoe UI Semilight"@,
        "Segoe UI Bold"@,
        "Segoe UI Light"@,
        "Segoe UI"@,
        "SimSun"@,
        "SimSun-ExtB"@,
        "SimSun-ExtG"@,
        "SimSun-PUA"@,
        "Tahoma"@,
        "Times New Roman"@,
        "微軟正黑體"@,
        "微軟正黑體 Bold"@,
        "微软雅黑"@,
        "微软雅黑 Bold"@,
    ]
}

/// The names of the fonts that the table lists, in order.
pub fn system_font_names() -> (r: Vec<&'static str>)
    ensures
        r@.len() == system_font_list().len(),
        forall|i: int| 0 <= i < r@.len() ==> (#[trigger] r@[i])@ == system_font_list()[i],
{
    let r = vec![
        "Arial",
        "Batang",
        "BatangChe",
        "Dotum",
        "DotumChe",
        "Gulim",
        "GulimChe",
        "Gungsuh",
        "GungsuhChe",
        "Lucida Sans Unicode",
        "Malgun Gothic Bold",
        "Malgun Gothic",
        "Meiryo Bold",
        "Meiryo UI Bold",
        "Meiryo UI",
        "Meiryo",
        "Microsoft JhengHei Bold",
        "Microsoft JhengHei UI Bold",
        "Microsoft JhengHei UI Light",
        "Microsoft JhengHei UI",
        "Microsoft JhengHei",
        "Microsoft Sans Serif",
        "Microsoft YaHei Bold",
        "Microsoft YaHei UI Bold",
        "Microsoft YaHei UI",
        "Microsoft YaHei",
        "MingLiU",
        "MingLiU_HKSCS",
        "MingLiU_HKSCS-ExtB",
        "MingLiU-ExtB",
        "MS Gothic",
        "MS Mincho",
        "MS PGothic",
        "MS PMincho",
        "MS UI Gothic",
        "NSimSun",
        "PMingLiU",
        "PMingLiU-ExtB",
        "Segoe UI Semibold",
        "Segoe UI Semilight",
        "Segoe UI Bold",
        "Segoe UI Light",
        "Segoe UI",
        "SimSun",
        "SimSun-ExtB",
        "SimSun-ExtG",
        "SimSun-PUA",
        "Tahoma",
        "Times New Roman",
        "微軟正黑體",
        "微軟正黑體 Bold",
        "微软雅黑",
        "微软雅黑 Bold",
    ];
    assert(r@.map_values(|s: &str| s@) =~= system_font_list());
    r
}

/// The row of a font: its name, whether the table (keyed by folded names)
/// has a link list for it, and the text shown for that list or
/// `no_link_text()`.
pub open spec fn item_matches(item: FontItem, name: Seq<char>, links: Map<Seq<char>, Seq<char>>) -> bool {
    &&& item.name@ == name
    &&& item.has_fontlink == links.dom().contains(fold_name(name))
    &&& item.link_text@ == if links.dom().contains(fold_name(name)) {
        link_text(links[fold_name(name)])
    } else {
        no_link_text()
    }
}

/// One row per font, in the order of `names`.
pub fn build_font_items(names: &Vec<&str>, table: &FontLinkTable) -> (r: Vec<FontItem>)
    ensures
        r@.len() == names@.len(),
        forall|i: int|
            0 <= i < r@.len() ==> item_matches(#[trigger] r@[i], names@[i]@, table@),
{
    let mut items: Vec<FontItem> = Vec::new();
    let mut i: usize = 0;
    while i < names.len()
        invariant
            i <= names@.len(),
            items@.len() == i,
            forall|j: int| 0 <= j < i ==> item_matches(#[trigger] items@[j], names@[j]@, table@),
        decreases names@.len() - i,
    {
        let name = names[i];
        let has_fontlink = table.contains_key(name);
        let link_text = match table.get(name) {
            Some(links) => link_text_for(links.as_str()),
            None => no_link_text_string(),
        };
        items.push(FontItem { name: name.to_owned(), has_fontlink, link_text });
        i += 1;
    }
    items
}


/// The built-in font list, name by name, in order (`SimSun` at position
/// 43, before `SimSun-ExtB`, and after `NSimSun` at position 35).
pub proof fn lemma_system_font_list()
    ensures
        system_font_list() == seq![
        "Arial"@,
        "Batang"@,
        "BatangChe"@,
        "Dotum"@,
        "DotumChe"@,
        "Gulim"@,
        "GulimChe"@,
        "Gungsuh"@,
        "GungsuhChe"@,
        "Lucida Sans Unicode"@,
        "Malgun Gothic Bold"@,
        "Malgun Gothic"@,
        "Meiryo Bold"@,
        "Meiryo UI Bold"@,
        "Meiryo UI"@,
        "Meiryo"@,
        "Microsoft JhengHei Bold"@,
        "Microsoft JhengHei UI Bold"@,
        "Microsoft JhengHei UI Light"@,
        "Microsoft JhengHei UI"@,
        "Microsoft JhengHei"@,
        "Microsoft Sans Serif"@,
        "Microsoft YaHei Bold"@,
        "Microsoft YaHei UI Bold"@,
        "Microsoft YaHei UI"@,
        "Microsoft YaHei"@,
        "MingLiU"@,
        "MingLiU_HKSCS"@,
        "MingLiU_HKSCS-ExtB"@,
        "MingLiU-ExtB"@,
        "MS Gothic"@,
        "MS Mincho"@,
        "MS PGothic"@,
        "MS PMincho"@,
        "MS UI Gothic"@,
        "NSimSun"@,
        "PMingLiU"@,
        "PMingLiU-ExtB"@,
        "Segoe UI Semibold"@,
        "Segoe UI Semilight"@,
        "Segoe UI Bold"@,
        "Segoe UI Light"@,
        "Segoe UI"@,
        "SimSun"@,
        "SimSun-ExtB"@,
        "SimSun-ExtG"@,
        "SimSun-PUA"@,
        "Tahoma"@,
        "Times New Roman"@,
        "微軟正黑體"@,
        "微軟正黑體 Bold"@,
        "微软雅黑"@,
        "微软雅黑 Bold"@
        ],
        system_font_list().len() == 53,
        system_font_list()[35] == "NSimSun"@,
        system_font_list()[43] == "SimSun"@,
{
    assert(system_font_list() =~= seq![
        "Arial"@,
        "Batang"@,
        "BatangChe"@,
        "Dotum"@,
        "DotumChe"@,
        "Gulim"@,
        "GulimChe"@,
        "Gungsuh"@,
        "GungsuhChe"@,
        "Lucida Sans Unicode"@,
        "Malgun Gothic Bold"@,
        "Malgun Gothic"@,
        "Meiryo Bold"@,
        "Meiryo UI Bold"@,
        "Meiryo UI"@,
        "Meiryo"@,
        "Microsoft JhengHei Bold"@,
        "Microsoft JhengHei UI Bold"@,
        "Microsoft JhengHei UI Light"@,
        "Microsoft JhengHei UI"@,
        "Microsoft JhengHei"@,
        "Microsoft Sans Serif"@,
        "Microsoft YaHei Bold"@,
        "Microsoft YaHei UI Bold"@,
        "Microsoft YaHei UI"@,
        "Microsoft YaHei"@,
        "MingLiU"@,
        "MingLiU_HKSCS"@,
        "MingLiU_HKSCS-ExtB"@,
        "MingLiU-ExtB"@,
        "MS Gothic"@,
        "MS Mincho"@,
        "MS PGothic"@,
        "MS PMincho"@,
        "MS UI Gothic"@,
        "NSimSun"@,
        "PMingLiU"@,
        "PMingLiU-ExtB"@,
        "Segoe UI Semibold"@,
        "Segoe UI Semilight"@,
        "Segoe UI Bold"@,
        "Segoe UI Light"@,
        "Segoe UI"@,
        "SimSun"@,
        "SimSun-ExtB"@,
        "SimSun-ExtG"@,
        "SimSun-PUA"@,
        "Tahoma"@,
        "Times New Roman"@,
        "微軟正黑體"@,
        "微軟正黑體 Bold"@,
        "微软雅黑"@,
        "微软雅黑 Bold"@
    ]);
}

} // verus!
