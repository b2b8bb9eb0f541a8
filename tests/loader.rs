use pcgtools::{
    locate_pcc, resolve_lst_path, schema_lookup, Pcc, PccAction, PccConfig, PccDatum, PccError,
    PccElem, PccList, PccTag,
};

fn fresh() -> Pcc {
    Pcc::new(&PccConfig::new("/data"))
}

fn text_of(pcc: &Pcc, tag: &str) -> Option<String> {
    match pcc.get(tag) {
        Some(PccDatum::Text(s)) => Some(s.clone()),
        _ => None,
    }
}

fn list_of<'a>(pcc: &'a Pcc, tag: &str) -> &'a PccList {
    match pcc.get(tag) {
        Some(PccDatum::List(l)) => l,
        _ => panic!("no record set for {}", tag),
    }
}

fn attribs_of(pcc: &Pcc, tag: &str, id: &str) -> Vec<(String, String)> {
    list_of(pcc, tag).get(id).expect("record").attribs().clone()
}

fn pair(k: &str, v: &str) -> (String, String) {
    (k.to_string(), v.to_string())
}

fn load_lines(pcc: &mut Pcc, basedir: &str, lines: &[&str]) -> Result<(), PccError> {
    for line in lines {
        pcc.read_pcc_line(basedir, line)?;
    }
    Ok(())
}

#[test]
fn schema_knows_its_directives() {
    assert_eq!(schema_lookup("DESC"), Some(PccTag::Text));
    assert_eq!(schema_lookup("ISOGL"), Some(PccTag::Bool));
    assert_eq!(schema_lookup("RANK"), Some(PccTag::Number));
    assert_eq!(schema_lookup("SOURCEDATE"), Some(PccTag::Date));
    assert_eq!(schema_lookup("PCC"), Some(PccTag::PccFile));
    assert_eq!(schema_lookup("WEAPONPROF"), Some(PccTag::LstFile));
    assert_eq!(schema_lookup("ABILITY"), Some(PccTag::LstFile));
}

#[test]
fn schema_rejects_other_names() {
    assert_eq!(schema_lookup("desc"), None);
    assert_eq!(schema_lookup(""), None);
    assert_eq!(schema_lookup("DESCX"), None);
    assert_eq!(schema_lookup("NOSUCHTAG"), None);
}

#[test]
fn unknown_directive_fails() {
    let mut pcc = fresh();
    match pcc.read_pcc_line("/data", "NOSUCHTAG:x") {
        Err(PccError::UnknownDirective(n)) => assert_eq!(n, "NOSUCHTAG"),
        _ => panic!("expected UnknownDirective"),
    }
    assert!(pcc.get("NOSUCHTAG").is_none());
}

#[test]
fn text_directive_twice_joins_with_newline() {
    let mut pcc = fresh();
    load_lines(&mut pcc, "/data", &["DESC:A", "DESC:B"]).unwrap();
    assert_eq!(text_of(&pcc, "DESC"), Some("A\nB".to_string()));
}

#[test]
fn text_value_keeps_later_colons_and_negation_is_stripped() {
    let mut pcc = fresh();
    load_lines(&mut pcc, "/data", &["URL:http://example.org", "!GENRE:Fantasy"]).unwrap();
    assert_eq!(text_of(&pcc, "URL"), Some("http://example.org".to_string()));
    assert_eq!(text_of(&pcc, "GENRE"), Some("Fantasy".to_string()));
    assert!(pcc.get("!GENRE").is_none());
}

#[test]
fn comments_and_empty_lines_are_skipped() {
    let mut pcc = fresh();
    assert!(matches!(pcc.read_pcc_line("/data", "# NOSUCHTAG"), Ok(PccAction::Done)));
    assert!(matches!(pcc.read_pcc_line("/data", ""), Ok(PccAction::Done)));
    pcc.read_lst_line("SPELL", "# comment").unwrap();
    assert!(pcc.get("SPELL").is_none());
    assert!(pcc.entries().is_empty());
}

#[test]
fn lst_path_absolute() {
    assert_eq!(resolve_lst_path("/x/y", "/data/src", "/data/").unwrap(), "/x/y");
}

#[test]
fn lst_path_under_data_dir() {
    assert_eq!(resolve_lst_path("@sub/f.lst", "/data/src", "/data/").unwrap(), "/data/sub/f.lst");
    assert_eq!(resolve_lst_path("*sub/f.lst", "/data/src", "/data/").unwrap(), "/data/sub/f.lst");
}

#[test]
fn lst_path_beside_descriptor() {
    assert_eq!(resolve_lst_path("f.lst", "/data/src", "/data/").unwrap(), "/data/src/f.lst");
}

#[test]
fn lst_path_empty_is_an_error() {
    assert!(matches!(resolve_lst_path("", "/data/src", "/data/"), Err(PccError::EmptyPathToken)));
}

#[test]
fn list_directive_hands_back_resolved_path() {
    let mut pcc = fresh();
    match pcc.read_pcc_line("/data/src", "ABILITY:@abilities.lst|INCLUDE:Foo").unwrap() {
        PccAction::ReadLst { tag, path, opts } => {
            assert_eq!(tag, "ABILITY");
            assert_eq!(path, "/data/abilities.lst");
            assert_eq!(opts, "INCLUDE:Foo");
        }
        _ => panic!("expected ReadLst"),
    }
    assert!(list_of(&pcc, "ABILITY").elems().is_empty());
    match pcc.read_pcc_line("/data/src", "SPELL:spells.lst").unwrap() {
        PccAction::ReadLst { path, opts, .. } => {
            assert_eq!(path, "/data/src/spells.lst");
            assert_eq!(opts, "");
        }
        _ => panic!("expected ReadLst"),
    }
}

#[test]
fn list_directive_with_empty_path_fails() {
    let mut pcc = fresh();
    assert!(matches!(pcc.read_pcc_line("/data", "ABILITY:"), Err(PccError::EmptyPathToken)));
    assert!(matches!(pcc.read_pcc_line("/data", "ABILITY:|opts"), Err(PccError::EmptyPathToken)));
    assert!(pcc.get("ABILITY").is_none());
}

#[test]
fn include_directive_hands_back_path() {
    let mut pcc = fresh();
    match pcc.read_pcc_line("/data", "PCC:@core/base.pcc").unwrap() {
        PccAction::ReadPcc { path } => assert_eq!(path, "core/base.pcc"),
        _ => panic!("expected ReadPcc"),
    }
    match pcc.read_pcc_line("/data", "PCC:other.pcc").unwrap() {
        PccAction::ReadPcc { path } => assert_eq!(path, "other.pcc"),
        _ => panic!("expected ReadPcc"),
    }
    assert!(matches!(pcc.read_pcc_line("/data", "PCC:@"), Err(PccError::EmptyPathToken)));
    assert!(matches!(pcc.read_pcc_line("/data", "PCC:"), Err(PccError::EmptyPathToken)));
}

#[test]
fn descriptor_paths_are_located() {
    let pcc = fresh();
    let (p, dir) = pcc.locate_pcc("sub\\camp.pcc", true).unwrap();
    assert_eq!(p, "/data/sub/camp.pcc");
    assert_eq!(dir, "/data/sub");
    let (p, dir) = locate_pcc("/abs/x.pcc", false, "/data/").unwrap();
    assert_eq!(p, "/abs/x.pcc");
    assert_eq!(dir, "/abs");
    assert!(matches!(locate_pcc("", true, "/data/"), Err(PccError::EmptyPathToken)));
    assert!(matches!(locate_pcc("/", false, "/data/"), Err(PccError::NoParentDir)));
}

#[test]
fn config_ends_in_slash() {
    assert_eq!(PccConfig::new("/data").datadir(), "/data/");
    assert_eq!(PccConfig::new("/data/").datadir(), "/data/");
    assert_eq!(PccConfig::new("").datadir(), "/");
    assert_eq!(fresh().config().datadir(), "/data/");
}

#[test]
fn alias_then_mod_merges_into_one_record() {
    let mut pcc = fresh();
    pcc.read_lst_line("EQUIPMENT", "Sword\tABB:SW").unwrap();
    pcc.read_lst_line("EQUIPMENT", "Axe\tCOST:4").unwrap();
    pcc.read_lst_line("EQUIPMENT", "SW.MOD\tDMG:1d8").unwrap();
    let list = list_of(&pcc, "EQUIPMENT");
    assert_eq!(list.elems().len(), 2);
    assert!(list.get("SW").is_none());
    assert_eq!(list.get("Sword").unwrap().ident(), "Sword");
    assert_eq!(attribs_of(&pcc, "EQUIPMENT", "Sword"), vec![pair("ABB", "SW"), pair("DMG", "1d8")]);
    assert_eq!(pcc.alias("SW").unwrap(), "Sword");
}

#[test]
fn key_renames_record() {
    let mut pcc = fresh();
    pcc.read_lst_line("EQUIPMENT", "Temp\tKEY:Real\tCOST:5").unwrap();
    let list = list_of(&pcc, "EQUIPMENT");
    assert!(list.get("Temp").is_none());
    assert_eq!(attribs_of(&pcc, "EQUIPMENT", "Real"), vec![pair("KEY", "Real"), pair("COST", "5")]);
}

#[test]
fn alias_before_key_points_at_old_ident() {
    let mut pcc = fresh();
    pcc.read_lst_line("CLASS", "Temp\tABB:T\tKEY:Real").unwrap();
    assert_eq!(pcc.alias("T").unwrap(), "Temp");
    assert!(list_of(&pcc, "CLASS").get("Real").is_some());
    pcc.read_lst_line("CLASS", "T.MOD\tHD:8").unwrap();
    assert_eq!(attribs_of(&pcc, "CLASS", "Temp"), vec![pair("HD", "8")]);
}

#[test]
fn remerging_duplicates_attributes() {
    let mut pcc = fresh();
    pcc.read_lst_line("SPELL", "Light\tLEVEL:0").unwrap();
    pcc.read_lst_line("SPELL", "Light.MOD\tSCHOOL:Evocation").unwrap();
    pcc.read_lst_line("SPELL", "Light.MOD\tSCHOOL:Evocation").unwrap();
    assert_eq!(
        attribs_of(&pcc, "SPELL", "Light"),
        vec![pair("LEVEL", "0"), pair("SCHOOL", "Evocation"), pair("SCHOOL", "Evocation")]
    );
}

#[test]
fn plain_ident_merges_too() {
    let mut pcc = fresh();
    pcc.read_lst_line("SKILL", "Climb\tSTAT:STR").unwrap();
    pcc.read_lst_line("SKILL", "Climb\tSTAT:STR").unwrap();
    assert_eq!(attribs_of(&pcc, "SKILL", "Climb"), vec![pair("STAT", "STR"), pair("STAT", "STR")]);
}

#[test]
fn tokens_without_colon_and_blank_tokens() {
    let mut pcc = fresh();
    pcc.read_lst_line("ABILITY", "Dodge\t\t  \tFLAG\tDESC:a:b").unwrap();
    assert_eq!(attribs_of(&pcc, "ABILITY", "Dodge"), vec![pair("FLAG", ""), pair("DESC", "a:b")]);
    pcc.read_lst_line("ABILITY", "Bare").unwrap();
    assert!(attribs_of(&pcc, "ABILITY", "Bare").is_empty());
}

#[test]
fn records_only_under_list_directives() {
    let mut pcc = fresh();
    match pcc.read_lst_line("DESC", "Sword\tCOST:1") {
        Err(PccError::NotAList(n)) => assert_eq!(n, "DESC"),
        _ => panic!("expected NotAList"),
    }
    assert!(pcc.get("DESC").is_none());
}

#[test]
fn malformed_line_aborts_load() {
    let mut pcc = fresh();
    let r = load_lines(&mut pcc, "/data", &["DESC:A", "NOTAG_NO_COLON", "GENRE:X"]);
    assert!(matches!(r, Err(PccError::MalformedLine)));
    assert_eq!(text_of(&pcc, "DESC"), Some("A".to_string()));
    assert!(pcc.get("GENRE").is_none());
}

#[test]
fn datum_as_mut_list() {
    let mut d = PccDatum::List(PccList::new("RACE"));
    let l = d.as_mut_list().unwrap();
    l.merge("Elf".to_string(), vec![pair("SIZE", "M")]);
    match &d {
        PccDatum::List(l) => {
            assert_eq!(l.ident(), "RACE");
            assert_eq!(l.get("Elf").unwrap().attribs(), &vec![pair("SIZE", "M")]);
        }
        _ => panic!("expected a list"),
    }
    let mut t = PccDatum::Text("x".to_string());
    assert!(t.as_mut_list().is_none());
}

#[test]
fn new_elem_is_empty() {
    let e = PccElem::new("Club");
    assert_eq!(e.ident(), "Club");
    assert!(e.attribs().is_empty());
}
