use vstd::prelude::*;
use crate::text::str_eq;

verus! {

/// The kind of value that a directive carries.
#[derive(Clone, Copy, Debug, PartialEq, Eq, Structural)]
pub enum PccTag {
    Bool,
    Date,
    LstFile,
    Number,
    Text,
    PccFile,
}

/// The kind of each known directive; `None` for any other name.
pub open spec fn schema_kind(name: Seq<char>) -> Option<PccTag> {
    if name == "PRECAMPAIGN"@ {
        Some(PccTag::Text)
    } else if name == "BOOKTYPE"@ {
        Some(PccTag::Text)
    } else if name == "CAMPAIGN"@ {
        Some(PccTag::Text)
    } else if name == "COMPANIONLIST"@ {
        Some(PccTag::Text)
    } else if name == "COPYRIGHT"@ {
        Some(PccTag::Text)
    } else if name == "COVER"@ {
        Some(PccTag::Text)
    } else if name == "DESC"@ {
        Some(PccTag::Text)
    } else if name == "DYNAMIC"@ {
        Some(PccTag::Text)
    } else if name == "FORWARDREF"@ {
        Some(PccTag::Text)
    } else if name == "GAMEMODE"@ {
        Some(PccTag::Text)
    } else if name == "GENRE"@ {
        Some(PccTag::Text)
    } else if name == "HELP"@ {
        Some(PccTag::Text)
    } else if name == "HIDETYPE"@ {
        Some(PccTag::Text)
    } else if name == "INFOTEXT"@ {
        Some(PccTag::Bool)
    } else if name == "ISOGL"@ {
        Some(PccTag::Bool)
    } else if name == "ISLICENSED"@ {
        Some(PccTag::Bool)
    } else if name == "KEY"@ {
        Some(PccTag::Text)
    } else if name == "LOGO"@ {
        Some(PccTag::Text)
    } else if name == "PCC"@ {
        Some(PccTag::PccFile)
    } else if name == "PUBNAMELONG"@ {
        Some(PccTag::Text)
    } else if name == "PUBNAMESHORT"@ {
        Some(PccTag::Text)
    } else if name == "PUBNAMEWEB"@ {
        Some(PccTag::Text)
    } else if name == "RANK"@ {
        Some(PccTag::Number)
    } else if name == "SETTING"@ {
        Some(PccTag::Text)
    } else if name == "SHOWINMENU"@ {
        Some(PccTag::Text)
    } else if name == "SOURCEDATE"@ {
        Some(PccTag::Date)
    } else if name == "SOURCELONG"@ {
        Some(PccTag::Text)
    } else if name == "SOURCESHORT"@ {
        Some(PccTag::Text)
    } else if name == "SOURCEWEB"@ {
        Some(PccTag::Text)
    } else if name == "STATUS"@ {
        Some(PccTag::Text)
    } else if name == "TYPE"@ {
        Some(PccTag::Text)
    } else if name == "URL"@ {
        Some(PccTag::Text)
    } else if name == "ABILITY"@ {
        Some(PccTag::LstFile)
    } else if name == "ABILITYCATEGORY"@ {
        Some(PccTag::LstFile)
    } else if name == "ALIGNMENT"@ {
        Some(PccTag::LstFile)
    } else if name == "ARMORPROF"@ {
        Some(PccTag::LstFile)
    } else if name == "BIOSET"@ {
        Some(PccTag::LstFile)
    } else if name == "CLASS"@ {
        Some(PccTag::LstFile)
    } else if name == "COMPANIONMOD"@ {
        Some(PccTag::LstFile)
    } else if name == "DATATABLE"@ {
        Some(PccTag::LstFile)
    } else if name == "DATACONTROL"@ {
        Some(PccTag::LstFile)
    } else if name == "DEITY"@ {
        Some(PccTag::LstFile)
    } else if name == "DOMAIN"@ {
        Some(PccTag::LstFile)
    } else if name == "EQUIPMENT"@ {
        Some(PccTag::LstFile)
    } else if name == "EQUIPMOD"@ {
        Some(PccTag::LstFile)
    } else if name == "GLOBALMODIFIER"@ {
        Some(PccTag::LstFile)
    } else if name == "KIT"@ {
        Some(PccTag::LstFile)
    } else if name == "LANGUAGE"@ {
        Some(PccTag::LstFile)
    } else if name == "RACE"@ {
        Some(PccTag::LstFile)
    } else if name == "SAVE"@ {
        Some(PccTag::LstFile)
    } else if name == "SHIELDPROF"@ {
        Some(PccTag::LstFile)
    } else if name == "SIZE"@ {
        Some(PccTag::LstFile)
    } else if name == "SKILL"@ {
        Some(PccTag::LstFile)
    } else if name == "SPELL"@ {
        Some(PccTag::LstFile)
    } else if name == "STAT"@ {
        Some(PccTag::LstFile)
    } else if name == "TEMPLATE"@ {
        Some(PccTag::LstFile)
    } else if name == "VARIABLE"@ {
        Some(PccTag::LstFile)
    } else if name == "WEAPONPROF"@ {
        Some(PccTag::LstFile)
    } else {
        None
    }
}


/// Looks up the kind of directive `name` (names match exactly, case
/// included).
pub fn schema_lookup(name: &str) -> (r: Option<PccTag>)
    ensures
        r == schema_kind(name@),
{
    if str_eq(name, "PRECAMPAIGN") {
        Some(PccTag::Text)
    } else if str_eq(name, "BOOKTYPE") {
        Some(PccTag::Text)
    } else if str_eq(name, "CAMPAIGN") {
        Some(PccTag::Text)
    } else if str_eq(name, "COMPANIONLIST") {
        Some(PccTag::Text)
    } else if str_eq(name, "COPYRIGHT") {
        Some(PccTag::Text)
    } else if str_eq(name, "COVER") {
        Some(PccTag::Text)
    } else if str_eq(name, "DESC") {
        Some(PccTag::Text)
    } else if str_eq(name, "DYNAMIC") {
        Some(PccTag::Text)
    } else if str_eq(name, "FORWARDREF") {
        Some(PccTag::Text)
    } else if str_eq(name, "GAMEMODE") {
        Some(PccTag::Text)
    } else if str_eq(name, "GENRE") {
        Some(PccTag::Text)
    } else if str_eq(name, "HELP") {
        Some(PccTag::Text)
    } else if str_eq(name, "HIDETYPE") {
        Some(PccTag::Text)
    } else if str_eq(name, "INFOTEXT") {
        Some(PccTag::Bool)
    } else if str_eq(name, "ISOGL") {
        Some(PccTag::Bool)
    } else if str_eq(name, "ISLICENSED") {
        Some(PccTag::Bool)
    } else if str_eq(name, "KEY") {
        Some(PccTag::Text)
    } else if str_eq(name, "LOGO") {
        Some(PccTag::Text)
    } else if str_eq(name, "PCC") {
        Some(PccTag::PccFile)
    } else if str_eq(name, "PUBNAMELONG") {
        Some(PccTag::Text)
    } else if str_eq(name, "PUBNAMESHORT") {
        Some(PccTag::Text)
    } else if str_eq(name, "PUBNAMEWEB") {
        Some(PccTag::Text)
    } else if str_eq(name, "RANK") {
        Some(PccTag::Number)
    } else if str_eq(name, "SETTING") {
        Some(PccTag::Text)
    } else if str_eq(name, "SHOWINMENU") {
        Some(PccTag::Text)
    } else if str_eq(name, "SOURCEDATE") {
        Some(PccTag::Date)
    } else if str_eq(name, "SOURCELONG") {
        Some(PccTag::Text)
    } else if str_eq(name, "SOURCESHORT") {
        Some(PccTag::Text)
    } else if str_eq(name, "SOURCEWEB") {
        Some(PccTag::Text)
    } else if str_eq(name, "STATUS") {
        Some(PccTag::Text)
    } else if str_eq(name, "TYPE") {
        Some(PccTag::Text)
    } else if str_eq(name, "URL") {
        Some(PccTag::Text)
    } else if str_eq(name, "ABILITY") {
        Some(PccTag::LstFile)
    } else if str_eq(name, "ABILITYCATEGORY") {
        Some(PccTag::LstFile)
    } else if str_eq(name, "ALIGNMENT") {
        Some(PccTag::LstFile)
    } else if str_eq(name, "ARMORPROF") {
        Some(PccTag::LstFile)
    } else if str_eq(name, "BIOSET") {
        Some(PccTag::LstFile)
    } else if str_eq(name, "CLASS") {
        Some(PccTag::LstFile)
    } else if str_eq(name, "COMPANIONMOD") {
        Some(PccTag::LstFile)
    } else if str_eq(name, "DATATABLE") {
        Some(PccTag::LstFile)
    } else if str_eq(name, "DATACONTROL") {
        Some(PccTag::LstFile)
    } else if str_eq(name, "DEITY") {
        Some(PccTag::LstFile)
    } else if str_eq(name, "DOMAIN") {
        Some(PccTag::LstFile)
    } else if str_eq(name, "EQUIPMENT") {
        Some(PccTag::LstFile)
    } else if str_eq(name, "EQUIPMOD") {
        Some(PccTag::LstFile)
    } else if str_eq(name, "GLOBALMODIFIER") {
        Some(PccTag::LstFile)
    } else if str_eq(name, "KIT") {
        Some(PccTag::LstFile)
    } else if str_eq(name, "LANGUAGE") {
        Some(PccTag::LstFile)
    } else if str_eq(name, "RACE") {
        Some(PccTag::LstFile)
    } else if str_eq(name, "SAVE") {
        Some(PccTag::LstFile)
    } else if str_eq(name, "SHIELDPROF") {
        Some(PccTag::LstFile)
    } else if str_eq(name, "SIZE") {
        Some(PccTag::LstFile)
    } else if str_eq(name, "SKILL") {
        Some(PccTag::LstFile)
    } else if str_eq(name, "SPELL") {
        Some(PccTag::LstFile)
    } else if str_eq(name, "STAT") {
        Some(PccTag::LstFile)
    } else if str_eq(name, "TEMPLATE") {
        Some(PccTag::LstFile)
    } else if str_eq(name, "VARIABLE") {
        Some(PccTag::LstFile)
    } else if str_eq(name, "WEAPONPROF") {
        Some(PccTag::LstFile)
    } else {
        None
    }
}

} // verus!
