use vstd::prelude::*;
use crate::assoc::{
    assoc_map, find_key, is_first_key, keys_distinct, lemma_assoc_absent, lemma_assoc_found,
    lemma_assoc_push, lemma_assoc_update, pairs_view,
};
use crate::error::PccError;
use crate::schema::{schema_kind, schema_lookup, PccTag};
use crate::path::{lst_path, parent_of, pcc_path, resolve_lst_path};
use crate::store::{attrs_view, merge_record, Attr, PccList};
use crate::text::{
    blank, concat, is_blank, lemma_split_on_nonempty, owned, split_fields, split_on, split_once,
    split_once_at, str_eq, strings_view, strip_mod, strip_mod_suffix,
};

verus! {

broadcast use vstd::string::group_string_axioms;

/// What a dictionary entry holds, as a mathematical value.
pub enum DatumModel {
    Text(Seq<char>),
    List(Map<Seq<char>, Seq<Attr>>),
}

/// The value of a directive: accumulated text, or the records of its list
/// files.
pub enum PccDatum {
    Text(String),
    List(PccList),
}

impl View for PccDatum {
    type V = DatumModel;

    open spec fn view(&self) -> DatumModel {
        match self {
            PccDatum::Text(s) => DatumModel::Text(s@),
            PccDatum::List(l) => DatumModel::List(l@),
        }
    }
}

impl PccDatum {
    /// The record set, for a list value.
    pub fn as_mut_list(&mut self) -> (r: Option<&mut PccList>)
        ensures
            match *old(self) {
                PccDatum::List(l) => r matches Some(m) && *m == l && *final(self) == PccDatum::List(
                    *final(m),
                ),
                PccDatum::Text(_) => r is None && *final(self) == *old(self),
            },
    {
        match self {
            PccDatum::List(l) => Some(l),
            _ => None,
        }
    }
}

/// Settings of a load.
#[derive(Clone)]
pub struct PccConfig {
    datadir: String,
}

/// `dir` ending in a `/`: one is added where it is missing.
pub open spec fn with_trailing_slash(dir: Seq<char>) -> Seq<char> {
    if dir.len() > 0 && dir.last() == '/' {
        dir
    } else {
        dir + seq!['/']
    }
}

impl PccConfig {
    /// The data directory, which ends in a `/`.
    pub closed spec fn data_dir(&self) -> Seq<char> {
        self.datadir@
    }

    /// Settings for the data directory `datadir`, which is made to end in a
    /// `/`.
    pub fn new(datadir: &str) -> (r: PccConfig)
        ensures
            r.data_dir() == with_trailing_slash(datadir@),
    {
        let n = datadir.unicode_len();
        if n > 0 && datadir.get_char(n - 1) == '/' {
            PccConfig { datadir: owned(datadir) }
        } else {
            let d = concat(datadir, "/");
            proof {
                reveal_strlit("/");
                assert(d@ =~= datadir@ + seq!['/']);
            }
            PccConfig { datadir: d }
        }
    }

    /// The data directory.
    pub fn datadir(&self) -> (r: &String)
        ensures
            r@ == self.data_dir(),
    {
        &self.datadir
    }
}

/// The state of a load, as mathematical values: the dictionary, the aliases
/// and the data directory.
pub struct PccModel {
    pub dict: Map<Seq<char>, DatumModel>,
    pub aliases: Map<Seq<char>, Seq<char>>,
    pub data_dir: Seq<char>,
}

/// A load: the data dictionary, the alias table and the settings.
pub struct Pcc {
    config: PccConfig,
    dict: Vec<(String, PccDatum)>,
    aliases: Vec<(String, String)>,
}

/// An entry fits the schema: a list directive holds records, which belong
/// to it; a text directive holds text; no other name has an entry.
pub open spec fn entry_fits(tag: Seq<char>, d: PccDatum) -> bool {
    match schema_kind(tag) {
        Some(PccTag::LstFile) => d matches PccDatum::List(l) && l.wf() && l.tag() == tag,
        Some(PccTag::PccFile) => false,
        Some(_) => d is Text,
        None => false,
    }
}

/// A dictionary value fits the schema: a list directive holds a record
/// set, any other known directive but an include holds text.
pub open spec fn datum_fits(tag: Seq<char>, d: DatumModel) -> bool {
    match schema_kind(tag) {
        Some(PccTag::LstFile) => d is List,
        Some(PccTag::PccFile) => false,
        Some(_) => d is Text,
        None => false,
    }
}

/// The text that a text directive holds after `rhs` is read for it: the
/// value before, a newline and `rhs`; or `rhs` alone the first time.
pub open spec fn text_after(dict: Map<Seq<char>, DatumModel>, tag: Seq<char>, rhs: Seq<char>) -> Seq<char> {
    if dict.contains_key(tag) && dict[tag] is Text {
        dict[tag]->Text_0 + seq!['\n'] + rhs
    } else {
        rhs
    }
}

/// The model after value `rhs` is read for text directive `tag`.
pub open spec fn after_text(m: PccModel, tag: Seq<char>, rhs: Seq<char>) -> PccModel {
    PccModel { dict: m.dict.insert(tag, DatumModel::Text(text_after(m.dict, tag, rhs))), ..m }
}

/// The records held for `tag` (none if it has no entry yet).
pub open spec fn list_of(dict: Map<Seq<char>, DatumModel>, tag: Seq<char>) -> Map<Seq<char>, Seq<Attr>> {
    if dict.contains_key(tag) && dict[tag] is List {
        dict[tag]->List_0
    } else {
        Map::empty()
    }
}

/// The dictionary once `tag` has a record set: the one it had, or a new
/// empty one.
pub open spec fn with_list(dict: Map<Seq<char>, DatumModel>, tag: Seq<char>) -> Map<Seq<char>, DatumModel> {
    if dict.contains_key(tag) {
        dict
    } else {
        dict.insert(tag, DatumModel::List(Map::empty()))
    }
}

/// A comment or an empty line, which readers skip.
pub open spec fn is_skipped(line: Seq<char>) -> bool {
    line.len() == 0 || line[0] == '#'
}

/// One attribute token of a list line: `key:value` splits at its first `:`;
/// a token without one is a key with an empty value, unless it is blank, in
/// which case it is dropped.
pub open spec fn parse_attr(tok: Seq<char>) -> Option<Attr> {
    match split_once(tok, ':') {
        Some(p) => Some(p),
        None => if is_blank(tok) {
            None
        } else {
            Some((tok, Seq::<char>::empty()))
        },
    }
}

/// The attributes of a sequence of tokens, in order.
pub open spec fn parse_attrs(toks: Seq<Seq<char>>) -> Seq<Attr>
    decreases toks.len(),
{
    if toks.len() == 0 {
        Seq::empty()
    } else {
        let prev = parse_attrs(toks.drop_last());
        match parse_attr(toks.last()) {
            Some(a) => prev.push(a),
            None => prev,
        }
    }
}

/// The identifier token of a list line (the text before the first tab).
pub open spec fn line_ident(line: Seq<char>) -> Seq<char> {
    split_on(line, '\t')[0]
}

/// The attributes of a list line (those of the tokens after the first tab).
pub open spec fn line_attrs(line: Seq<char>) -> Seq<Attr> {
    parse_attrs(split_on(line, '\t').drop_first())
}

/// The identifier a token stands for: `.MOD` taken off, then an alias
/// replaced by what it stands for.
pub open spec fn resolve_ident(aliases: Map<Seq<char>, Seq<char>>, raw: Seq<char>) -> Seq<char> {
    let id = strip_mod(raw);
    if aliases.contains_key(id) {
        aliases[id]
    } else {
        id
    }
}

/// The identifier and the alias table after the attributes of a line are
/// gone through in order: `ABB` makes its value an alias of the identifier
/// as it stands, `KEY` replaces the identifier by its value.
pub open spec fn preprocess(
    attrs: Seq<Attr>,
    ident: Seq<char>,
    aliases: Map<Seq<char>, Seq<char>>,
) -> (Seq<char>, Map<Seq<char>, Seq<char>>)
    decreases attrs.len(),
{
    if attrs.len() == 0 {
        (ident, aliases)
    } else {
        let (id, al) = preprocess(attrs.drop_last(), ident, aliases);
        let (k, v) = attrs.last();
        if k == "ABB"@ {
            (id, al.insert(v, id))
        } else if k == "KEY"@ {
            (v, al)
        } else {
            (id, al)
        }
    }
}

/// The identifier under which a list line is stored, and the alias table
/// after it, given the alias table before it.
pub open spec fn line_outcome(aliases: Map<Seq<char>, Seq<char>>, line: Seq<char>) -> (
    Seq<char>,
    Map<Seq<char>, Seq<char>>,
) {
    preprocess(line_attrs(line), resolve_ident(aliases, line_ident(line)), aliases)
}

/// The model after list line `line` is read for directive `tag`.
pub open spec fn after_lst_line(m: PccModel, tag: Seq<char>, line: Seq<char>) -> PccModel {
    let (id, al) = line_outcome(m.aliases, line);
    PccModel {
        dict: m.dict.insert(
            tag,
            DatumModel::List(merge_record(list_of(m.dict, tag), id, line_attrs(line))),
        ),
        aliases: al,
        data_dir: m.data_dir,
    }
}

/// What a reader does after a descriptor line.
pub enum PccAction {
    /// Nothing more: the line was a comment, or its value was stored.
    Done,
    /// Read the descriptor file at `path`, under the data directory.
    ReadPcc { path: String },
    /// Read the list file at `path` into the records of directive `tag`;
    /// `opts` is the text after `|`, passed on uninterpreted.
    ReadLst { tag: String, path: String, opts: String },
}

/// The directive name of a line's left side, without a leading `!`.
pub open spec fn directive_name(lhs: Seq<char>) -> Seq<char> {
    if lhs.len() > 0 && lhs[0] == '!' {
        lhs.drop_first()
    } else {
        lhs
    }
}

/// The path that an include directive names, without a leading `@`.
pub open spec fn include_path(rhs: Seq<char>) -> Seq<char> {
    if rhs.len() > 0 && rhs[0] == '@' {
        rhs.drop_first()
    } else {
        rhs
    }
}

/// The path and the options of a list directive, split at the first `|`
/// (no options without one).
pub open spec fn lst_parts(rhs: Seq<char>) -> (Seq<char>, Seq<char>) {
    match split_once(rhs, '|') {
        Some(p) => p,
        None => (rhs, Seq::<char>::empty()),
    }
}

impl View for Pcc {
    type V = PccModel;

    closed spec fn view(&self) -> PccModel {
        PccModel {
            dict: assoc_map(pairs_view(self.dict@)),
            aliases: assoc_map(pairs_view(self.aliases@)),
            data_dir: self.config.data_dir(),
        }
    }
}

impl Pcc {
    /// Keys are unique in the dictionary and in the alias table, and every
    /// dictionary entry fits the schema.
    pub closed spec fn wf(&self) -> bool {
        &&& keys_distinct(pairs_view(self.dict@))
        &&& keys_distinct(pairs_view(self.aliases@))
        &&& forall|i: int|
            0 <= i < self.dict@.len() ==> entry_fits(#[trigger] self.dict@[i].0@, self.dict@[i].1)
    }

    /// Every entry of the dictionary has the kind of value that the schema
    /// gives its directive; names outside the schema, and includes, have no
    /// entry.
    pub proof fn lemma_dict_fits_schema(&self)
        requires
            self.wf(),
        ensures
            forall|k: Seq<char>| #[trigger]
                self@.dict.contains_key(k) ==> datum_fits(k, self@.dict[k]),
    {
        assert forall|k: Seq<char>| #[trigger]
            self@.dict.contains_key(k) implies datum_fits(k, self@.dict[k]) by {
            crate::assoc::lemma_assoc_contains(pairs_view(self.dict@), k);
            let i = choose|i: int|
                is_first_key(pairs_view(self.dict@), k, i) && assoc_map(pairs_view(self.dict@))[k]
                    == pairs_view(self.dict@)[i].1;
            assert(entry_fits(self.dict@[i].0@, self.dict@[i].1));
        }
    }

    /// A load with an empty dictionary and no aliases.
    pub fn new(config: &PccConfig) -> (r: Pcc)
        ensures
            r.wf(),
            r@.dict == Map::<Seq<char>, DatumModel>::empty(),
            r@.aliases == Map::<Seq<char>, Seq<char>>::empty(),
            r@.data_dir == config.data_dir(),
    {
        let r = Pcc {
            config: PccConfig { datadir: config.datadir.clone() },
            dict: Vec::new(),
            aliases: Vec::new(),
        };
        assert(pairs_view(r.dict@) =~= Seq::<(Seq<char>, DatumModel)>::empty());
        assert(pairs_view(r.aliases@) =~= Seq::<(Seq<char>, Seq<char>)>::empty());
        r
    }

    /// The settings of the load.
    pub fn config(&self) -> (r: &PccConfig)
        ensures
            r.data_dir() == self@.data_dir,
    {
        &self.config
    }

    /// The dictionary entries, each key once.
    pub fn entries(&self) -> (r: &Vec<(String, PccDatum)>)
        ensures
            assoc_map(pairs_view(r@)) == self@.dict,
            self.wf() ==> keys_distinct(pairs_view(r@)),
    {
        &self.dict
    }

    /// The alias table, each alias once.
    pub fn alias_entries(&self) -> (r: &Vec<(String, String)>)
        ensures
            assoc_map(pairs_view(r@)) == self@.aliases,
            self.wf() ==> keys_distinct(pairs_view(r@)),
    {
        &self.aliases
    }

    /// The value of directive `tag`, if it has one.
    pub fn get(&self, tag: &str) -> (r: Option<&PccDatum>)
        ensures
            match r {
                Some(d) => self@.dict.contains_key(tag@) && d@ == self@.dict[tag@],
                None => !self@.dict.contains_key(tag@),
            },
    {
        match find_key(&self.dict, tag) {
            Some(i) => {
                proof {
                    lemma_assoc_found(pairs_view(self.dict@), tag@, i as int);
                }
                Some(&self.dict[i].1)
            },
            None => {
                proof {
                    lemma_assoc_absent(pairs_view(self.dict@), tag@);
                }
                None
            },
        }
    }

    /// What alias `name` stands for, if it is one.
    pub fn alias(&self, name: &str) -> (r: Option<&String>)
        ensures
            match r {
                Some(s) => self@.aliases.contains_key(name@) && s@ == self@.aliases[name@],
                None => !self@.aliases.contains_key(name@),
            },
    {
        match find_key(&self.aliases, name) {
            Some(i) => {
                proof {
                    lemma_assoc_found(pairs_view(self.aliases@), name@, i as int);
                }
                Some(&self.aliases[i].1)
            },
            None => {
                proof {
                    lemma_assoc_absent(pairs_view(self.aliases@), name@);
                }
                None
            },
        }
    }

    /// Makes `name` an alias of `ident`.
    fn set_alias(&mut self, name: String, ident: String)
        requires
            old(self).wf(),
        ensures
            final(self).wf(),
            final(self)@ == (PccModel {
                aliases: old(self)@.aliases.insert(name@, ident@),
                ..old(self)@
            }),
    {
        let ghost before = pairs_view(self.aliases@);
        match find_key(&self.aliases, name.as_str()) {
            Some(i) => {
                proof {
                    lemma_assoc_update(before, i as int, ident@);
                }
                self.aliases.set(i, (name, ident));
                assert(pairs_view(self.aliases@) =~= before.update(i as int, (before[i as int].0, ident@)));
            },
            None => {
                proof {
                    lemma_assoc_push(before, name@, ident@);
                }
                self.aliases.push((name, ident));
                assert(pairs_view(self.aliases@) =~= before.push((name@, ident@)));
            },
        }
    }

    /// Position of the record set of list directive `tag`, made empty if
    /// `tag` has no entry yet.
    fn list_entry(&mut self, tag: &str) -> (i: usize)
        requires
            old(self).wf(),
            schema_kind(tag@) == Some(PccTag::LstFile),
        ensures
            final(self).wf(),
            final(self)@ == (PccModel { dict: with_list(old(self)@.dict, tag@), ..old(self)@ }),
            is_first_key(pairs_view(final(self).dict@), tag@, i as int),
    {
        let ghost before = pairs_view(self.dict@);
        match find_key(&self.dict, tag) {
            Some(i) => {
                proof {
                    lemma_assoc_found(before, tag@, i as int);
                }
                i
            },
            None => {
                proof {
                    lemma_assoc_absent(before, tag@);
                    lemma_assoc_push(before, tag@, DatumModel::List(Map::empty()));
                }
                let i = self.dict.len();
                self.dict.push((owned(tag), PccDatum::List(PccList::new(tag))));
                assert(pairs_view(self.dict@) =~= before.push(
                    (tag@, DatumModel::List(Map::empty())),
                ));
                assert(entry_fits(self.dict@[i as int].0@, self.dict@[i as int].1));
                i
            },
        }
    }

    /// Appends `rhs` to the text of directive `tag`, after a newline; or
    /// makes it the text, the first time.
    fn append_text(&mut self, tag: &str, rhs: &str)
        requires
            old(self).wf(),
            schema_kind(tag@) is Some,
            schema_kind(tag@) != Some(PccTag::LstFile),
            schema_kind(tag@) != Some(PccTag::PccFile),
        ensures
            final(self).wf(),
            final(self)@ == after_text(old(self)@, tag@, rhs@),
    {
        let ghost before = pairs_view(self.dict@);
        match find_key(&self.dict, tag) {
            Some(i) => {
                proof {
                    lemma_assoc_found(before, tag@, i as int);
                    assert(before[i as int].0 == self.dict@[i as int].0@);
                    assert(entry_fits(self.dict@[i as int].0@, self.dict@[i as int].1));
                }
                let ghost old_text = self.dict@[i as int].1->Text_0@;
                let entry = &mut self.dict[i];
                match &mut entry.1 {
                    PccDatum::Text(s) => {
                        s.append("\n");
                        s.append(rhs);
                        assert(s@ == old_text + "\n"@ + rhs@);
                    },
                    PccDatum::List(_) => {},
                }
                proof {
                    reveal_strlit("\n");
                    let t = text_after(assoc_map(before), tag@, rhs@);
                    assert("\n"@ =~= seq!['\n']);
                    assert(t == old_text + seq!['\n'] + rhs@);
                    assert(self.dict@.len() == before.len());
                    assert(self.dict@[i as int].0@ == tag@);
                    assert(self.dict@[i as int].1@ == DatumModel::Text(t));
                    lemma_assoc_update(before, i as int, DatumModel::Text(t));
                    assert(pairs_view(self.dict@) =~= before.update(
                        i as int,
                        (tag@, DatumModel::Text(t)),
                    ));
                }
            },
            None => {
                proof {
                    lemma_assoc_absent(before, tag@);
                    lemma_assoc_push(before, tag@, DatumModel::Text(rhs@));
                }
                self.dict.push((owned(tag), PccDatum::Text(owned(rhs))));
                assert(pairs_view(self.dict@) =~= before.push((tag@, DatumModel::Text(rhs@))));
            },
        }
    }

    /// Reads one line of a list file into the records of directive `tag`.
    /// Comments and empty lines change nothing. Otherwise the identifier
    /// (`.MOD` taken off, aliases resolved, `KEY` applied) gets the line's
    /// attributes appended, and `ABB` attributes add aliases.
    pub fn read_lst_line(&mut self, tag: &str, line: &str) -> (r: Result<(), PccError>)
        requires
            old(self).wf(),
        ensures
            final(self).wf(),
            r is Err <==> schema_kind(tag@) != Some(PccTag::LstFile),
            r matches Err(e) ==> e matches PccError::NotAList(n) && n@ == tag@,
            r is Err || is_skipped(line@) ==> final(self)@ == old(self)@,
            r is Ok && !is_skipped(line@) ==> final(self)@ == after_lst_line(
                old(self)@,
                tag@,
                line@,
            ),
    {
        match schema_lookup(tag) {
            Some(PccTag::LstFile) => {},
            _ => {
                return Err(PccError::NotAList(owned(tag)));
            },
        }
        if line.unicode_len() == 0 || line.get_char(0) == '#' {
            return Ok(());
        }
        let ghost m0 = self@;
        let toks = split_fields(line, '\t');
        proof {
            lemma_split_on_nonempty(line@, '\t');
        }
        let mut ident = strip_mod_suffix(toks[0].as_str());
        match self.alias(ident.as_str()) {
            Some(a) => {
                ident = a.clone();
            },
            None => {},
        }
        let ghost id0 = ident@;
        assert(id0 == resolve_ident(m0.aliases, line_ident(line@)));

        let ghost tv = strings_view(toks@);
        let mut attribs: Vec<(String, String)> = Vec::new();
        let mut j: usize = 1;
        proof {
            assert(attrs_view(attribs@) =~= Seq::<Attr>::empty());
            assert(tv.subrange(1, 1) =~= Seq::<Seq<char>>::empty());
        }
        while j < toks.len()
            invariant
                tv == strings_view(toks@),
                tv == split_on(line@, '\t'),
                1 <= j <= toks@.len(),
                attrs_view(attribs@) == parse_attrs(tv.subrange(1, j as int)),
            decreases toks@.len() - j,
        {
            let ghost prior = attribs@;
            proof {
                assert(tv.subrange(1, j + 1).drop_last() =~= tv.subrange(1, j as int));
                assert(tv.subrange(1, j + 1).last() == toks@[j as int]@);
            }
            match split_once_at(toks[j].as_str(), ':') {
                Some(p) => {
                    attribs.push(p);
                    assert(attrs_view(attribs@) =~= attrs_view(prior).push((p.0@, p.1@)));
                },
                None => {
                    if !blank(toks[j].as_str()) {
                        let t = toks[j].clone();
                        attribs.push((t, String::new()));
                        assert(attrs_view(attribs@) =~= attrs_view(prior).push(
                            (t@, Seq::<char>::empty()),
                        ));
                    }
                },
            }
            j += 1;
        }
        proof {
            assert(tv.subrange(1, tv.len() as int) =~= tv.drop_first());
        }
        let ghost av = attrs_view(attribs@);
        assert(av == line_attrs(line@));

        let mut k: usize = 0;
        while k < attribs.len()
            invariant
                self.wf(),
                av == attrs_view(attribs@),
                0 <= k <= attribs@.len(),
                self@.dict == m0.dict,
                self@.data_dir == m0.data_dir,
                (ident@, self@.aliases) == preprocess(av.subrange(0, k as int), id0, m0.aliases),
            decreases attribs@.len() - k,
        {
            proof {
                assert(av.subrange(0, k + 1).drop_last() =~= av.subrange(0, k as int));
                assert(av.subrange(0, k + 1).last() == av[k as int]);
            }
            if str_eq(attribs[k].0.as_str(), "ABB") {
                self.set_alias(attribs[k].1.clone(), ident.clone());
            } else if str_eq(attribs[k].0.as_str(), "KEY") {
                ident = attribs[k].1.clone();
            }
            k += 1;
        }
        assert(av.subrange(0, av.len() as int) =~= av);
        let ghost m1 = self@;
        let i = self.list_entry(tag);
        let ghost before = pairs_view(self.dict@);
        proof {
            assert(before[i as int].0 == self.dict@[i as int].0@);
            assert(entry_fits(self.dict@[i as int].0@, self.dict@[i as int].1));
            lemma_assoc_found(before, tag@, i as int);
        }
        let ghost old_list = self.dict@[i as int].1->List_0@;
        assert(old_list == list_of(m0.dict, tag@));
        let ghost merged = merge_record(old_list, ident@, av);
        let ghost id_final = ident@;
        assert(line_outcome(m0.aliases, line@) == (id_final, m1.aliases));
        match self.dict[i].1.as_mut_list() {
            Some(l) => {
                l.merge(ident, attribs);
            },
            None => {},
        }
        proof {
            assert(self.dict@[i as int].0@ == tag@);
            assert(self.dict@[i as int].1@ == DatumModel::List(merged));
            lemma_assoc_update(before, i as int, DatumModel::List(merged));
            assert(pairs_view(self.dict@) =~= before.update(
                i as int,
                (tag@, DatumModel::List(merged)),
            ));
            assert(entry_fits(self.dict@[i as int].0@, self.dict@[i as int].1));
            assert(self@.dict =~= m0.dict.insert(tag@, DatumModel::List(merged)));
            assert(self@.aliases == m1.aliases);
        }
        Ok(())
    }

    /// Reads one line of a descriptor file found in directory `basedir`.
    /// Comments and empty lines change nothing. Otherwise the line is
    /// `[!]NAME:value`, and the kind of directive `NAME` decides: a text
    /// value is appended to the dictionary; an include or a list file is
    /// handed back as the next thing to read, its path resolved (a list
    /// directive also gets its record set here).
    pub fn read_pcc_line(&mut self, basedir: &str, line: &str) -> (r: Result<PccAction, PccError>)
        requires
            old(self).wf(),
        ensures
            final(self).wf(),
            is_skipped(line@) ==> (r matches Ok(PccAction::Done)) && final(self)@ == old(self)@,
            !is_skipped(line@) && split_once(line@, ':') is None ==> (r matches Err(
                PccError::MalformedLine,
            )) && final(self)@ == old(self)@,
            !is_skipped(line@) && split_once(line@, ':') is Some ==> {
                let (lhs, rhs) = split_once(line@, ':')->0;
                let name = directive_name(lhs);
                match schema_kind(name) {
                    None => r matches Err(PccError::UnknownDirective(n)) && n@ == name
                        && final(self)@ == old(self)@,
                    Some(PccTag::PccFile) => final(self)@ == old(self)@ && if include_path(
                        rhs,
                    ).len() == 0 {
                        r matches Err(PccError::EmptyPathToken)
                    } else {
                        r matches Ok(PccAction::ReadPcc { path }) && path@ == include_path(rhs)
                    },
                    Some(PccTag::LstFile) => {
                        let (tok, opts) = lst_parts(rhs);
                        if tok.len() == 0 {
                            r matches Err(PccError::EmptyPathToken) && final(self)@ == old(self)@
                        } else {
                            &&& r matches Ok(PccAction::ReadLst { tag, path, opts: o }) && tag@
                                == name && path@ == lst_path(tok, basedir@, old(self)@.data_dir)
                                && o@ == opts
                            &&& final(self)@ == (PccModel {
                                dict: with_list(old(self)@.dict, name),
                                ..old(self)@
                            })
                        }
                    },
                    Some(_) => (r matches Ok(PccAction::Done)) && final(self)@ == after_text(
                        old(self)@,
                        name,
                        rhs,
                    ),
                }
            },
    {
        if line.unicode_len() == 0 || line.get_char(0) == '#' {
            return Ok(PccAction::Done);
        }
        let (lhs, rhs) = match split_once_at(line, ':') {
            Some(p) => p,
            None => {
                return Err(PccError::MalformedLine);
            },
        };
        let lhs_len = lhs.unicode_len();
        let name = if lhs_len > 0 && lhs.get_char(0) == '!' {
            let n = owned(lhs.as_str().substring_char(1, lhs_len));
            assert(n@ =~= lhs@.drop_first());
            n
        } else {
            lhs
        };
        let kind = match schema_lookup(name.as_str()) {
            Some(k) => k,
            None => {
                return Err(PccError::UnknownDirective(name));
            },
        };
        match kind {
            PccTag::PccFile => {
                let rhs_len = rhs.unicode_len();
                let path = if rhs_len > 0 && rhs.get_char(0) == '@' {
                    let p = owned(rhs.as_str().substring_char(1, rhs_len));
                    assert(p@ =~= rhs@.drop_first());
                    p
                } else {
                    rhs
                };
                if path.unicode_len() == 0 {
                    return Err(PccError::EmptyPathToken);
                }
                Ok(PccAction::ReadPcc { path })
            },
            PccTag::LstFile => {
                let (tok, opts) = match split_once_at(rhs.as_str(), '|') {
                    Some(p) => p,
                    None => (rhs, String::new()),
                };
                let path = match resolve_lst_path(tok.as_str(), basedir, self.config.datadir.as_str()) {
                    Ok(p) => p,
                    Err(e) => {
                        return Err(e);
                    },
                };
                self.list_entry(name.as_str());
                Ok(PccAction::ReadLst { tag: name, path, opts })
            },
            _ => {
                self.append_text(name.as_str(), rhs.as_str());
                Ok(PccAction::Done)
            },
        }
    }

    /// Resolves the path of a descriptor file and the directory that holds
    /// it (see `locate_pcc` of the path module), under this load's data
    /// directory.
    pub fn locate_pcc(&self, pccpath: &str, is_relative: bool) -> (r: Result<(String, String), PccError>)
        ensures
            match r {
                Ok((p, dir)) => {
                    &&& pccpath@.len() > 0
                    &&& p@ == pcc_path(pccpath@, is_relative, self@.data_dir)
                    &&& parent_of(p@) == Some(dir@)
                },
                Err(e) => {
                    ||| (pccpath@.len() == 0 && e == PccError::EmptyPathToken)
                    ||| (pccpath@.len() > 0 && parent_of(
                        pcc_path(pccpath@, is_relative, self@.data_dir),
                    ) is None && e == PccError::NoParentDir)
                },
            },
    {
        crate::path::locate_pcc(pccpath, is_relative, self.config.datadir.as_str())
    }
}

} // verus!
