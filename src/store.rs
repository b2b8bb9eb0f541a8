use vstd::prelude::*;
use crate::assoc::{assoc_map, keys_distinct, is_first_key, lemma_assoc_update, lemma_assoc_push};
use crate::text::str_eq;

verus! {

/// One attribute of a record: a key and a value.
pub type Attr = (Seq<char>, Seq<char>);

/// The views of a sequence of attributes.
pub open spec fn attrs_view(a: Seq<(String, String)>) -> Seq<Attr> {
    a.map_values(|p: (String, String)| (p.0@, p.1@))
}

/// What merging `attrs` under `id` makes of a record set: the attributes are
/// appended to those of an existing record, or make a new one.
pub open spec fn merge_record(
    m: Map<Seq<char>, Seq<Attr>>,
    id: Seq<char>,
    attrs: Seq<Attr>,
) -> Map<Seq<char>, Seq<Attr>> {
    if m.contains_key(id) {
        m.insert(id, m[id] + attrs)
    } else {
        m.insert(id, attrs)
    }
}

/// A record of a list file: its identifier and its attributes in the order
/// they were read.
pub struct PccElem {
    ident: String,
    attribs: Vec<(String, String)>,
}

impl View for PccElem {
    type V = (Seq<char>, Seq<Attr>);

    closed spec fn view(&self) -> (Seq<char>, Seq<Attr>) {
        (self.ident@, attrs_view(self.attribs@))
    }
}

impl PccElem {
    /// A record named `ident` with no attributes.
    pub fn new(ident: &str) -> (r: PccElem)
        ensures
            r@ == (ident@, Seq::<Attr>::empty()),
    {
        let r = PccElem { ident: crate::text::owned(ident), attribs: Vec::new() };
        assert(attrs_view(r.attribs@) =~= Seq::<Attr>::empty());
        r
    }

    /// The identifier of the record.
    pub fn ident(&self) -> (r: &String)
        ensures
            r@ == self@.0,
    {
        &self.ident
    }

    /// The attributes of the record, in order.
    pub fn attribs(&self) -> (r: &Vec<(String, String)>)
        ensures
            attrs_view(r@) == self@.1,
    {
        &self.attribs
    }
}

/// The records that list files have given one directive, by identifier.
pub struct PccList {
    ident: String,
    props: Vec<PccElem>,
}

/// The records of a list seen as identifier and attributes.
pub open spec fn elems_view(s: Seq<PccElem>) -> Seq<(Seq<char>, Seq<Attr>)> {
    s.map_values(|e: PccElem| e@)
}

impl View for PccList {
    type V = Map<Seq<char>, Seq<Attr>>;

    closed spec fn view(&self) -> Map<Seq<char>, Seq<Attr>> {
        assoc_map(elems_view(self.props@))
    }
}

impl PccList {
    /// No two records share an identifier.
    pub closed spec fn wf(&self) -> bool {
        keys_distinct(elems_view(self.props@))
    }

    /// The name of the directive that the records belong to.
    pub closed spec fn tag(&self) -> Seq<char> {
        self.ident@
    }

    /// An empty record set for directive `ident`.
    pub fn new(ident: &str) -> (r: PccList)
        ensures
            r.wf(),
            r@ == Map::<Seq<char>, Seq<Attr>>::empty(),
            r.tag() == ident@,
    {
        let r = PccList { ident: crate::text::owned(ident), props: Vec::new() };
        assert(elems_view(r.props@) =~= Seq::<(Seq<char>, Seq<Attr>)>::empty());
        r
    }

    /// The name of the directive that the records belong to.
    pub fn ident(&self) -> (r: &String)
        ensures
            r@ == self.tag(),
    {
        &self.ident
    }

    /// The records, each once.
    pub fn elems(&self) -> (r: &Vec<PccElem>)
        ensures
            assoc_map(elems_view(r@)) == self@,
            self.wf() ==> keys_distinct(elems_view(r@)),
    {
        &self.props
    }

    /// The record named `id`, if there is one.
    pub fn get(&self, id: &str) -> (r: Option<&PccElem>)
        requires
            self.wf(),
        ensures
            match r {
                Some(e) => self@.contains_key(id@) && e@ == (id@, self@[id@]),
                None => !self@.contains_key(id@),
            },
    {
        match self.find(id) {
            Some(i) => {
                proof {
                    crate::assoc::lemma_assoc_found(elems_view(self.props@), id@, i as int);
                }
                Some(&self.props[i])
            },
            None => {
                proof {
                    crate::assoc::lemma_assoc_absent(elems_view(self.props@), id@);
                }
                None
            },
        }
    }

    fn find(&self, id: &str) -> (r: Option<usize>)
        ensures
            match r {
                Some(i) => is_first_key(elems_view(self.props@), id@, i as int),
                None => forall|j: int|
                    0 <= j < self.props@.len() ==> #[trigger] self.props@[j]@.0 != id@,
            },
    {
        let mut i: usize = 0;
        while i < self.props.len()
            invariant
                i <= self.props@.len(),
                forall|j: int| 0 <= j < i ==> #[trigger] self.props@[j]@.0 != id@,
            decreases self.props@.len() - i,
        {
            if str_eq(self.props[i].ident.as_str(), id) {
                return Some(i);
            }
            i += 1;
        }
        None
    }

    /// Merges `attribs` into the record `ident`: appended to the attributes
    /// it has, or making a new record. Nothing is replaced or dropped.
    pub fn merge(&mut self, ident: String, attribs: Vec<(String, String)>)
        requires
            old(self).wf(),
        ensures
            final(self).wf(),
            final(self).tag() == old(self).tag(),
            final(self)@ == merge_record(old(self)@, ident@, attrs_view(attribs@)),
    {
        let mut attribs = attribs;
        let ghost added = attrs_view(attribs@);
        match self.find(ident.as_str()) {
            Some(i) => {
                let ghost before = elems_view(self.props@);
                proof {
                    crate::assoc::lemma_assoc_found(before, ident@, i as int);
                }
                let e = &mut self.props[i];
                let ghost old_attrs = e.attribs@;
                e.attribs.append(&mut attribs);
                proof {
                    assert(attrs_view(e.attribs@) =~= attrs_view(old_attrs) + added);
                }
                proof {
                    assert(elems_view(self.props@) =~= before.update(
                        i as int,
                        (ident@, before[i as int].1 + added),
                    ));
                    lemma_assoc_update(before, i as int, before[i as int].1 + added);
                }
            },
            None => {
                let ghost before = elems_view(self.props@);
                proof {
                    crate::assoc::lemma_assoc_absent(before, ident@);
                    lemma_assoc_push(before, ident@, added);
                }
                self.props.push(PccElem { ident, attribs });
                assert(elems_view(self.props@) =~= before.push((ident@, added)));
            },
        }
    }
}

} // verus!
