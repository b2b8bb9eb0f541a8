use vstd::prelude::*;
use crate::pcc::{after_lst_line, after_text, is_skipped, line_attrs, line_ident, line_outcome, list_of, preprocess, resolve_ident, DatumModel, PccModel};
use crate::store::Attr;
use crate::text::strip_mod;

verus! {

/// Some attribute of the sequence has key `KEY`.
pub open spec fn has_key_attr(attrs: Seq<Attr>) -> bool {
    exists|i: int| 0 <= i < attrs.len() && #[trigger] attrs[i].0 == "KEY"@
}

/// Without a `KEY` attribute the identifier stays, and every alias that
/// the attributes add points to it.
proof fn lemma_preprocess_without_key(
    attrs: Seq<Attr>,
    ident: Seq<char>,
    aliases: Map<Seq<char>, Seq<char>>,
    s: Seq<char>,
)
    requires
        !has_key_attr(attrs),
    ensures
        preprocess(attrs, ident, aliases).0 == ident,
        preprocess(attrs, ident, aliases).1.contains_key(s) ==> preprocess(attrs, ident, aliases).1[s]
            == ident || (aliases.contains_key(s) && preprocess(attrs, ident, aliases).1[s]
            == aliases[s]),
        !preprocess(attrs, ident, aliases).1.contains_key(s) ==> !aliases.contains_key(s),
    decreases attrs.len(),
{
    if attrs.len() > 0 {
        assert(!has_key_attr(attrs.drop_last())) by {
            if has_key_attr(attrs.drop_last()) {
                let i = choose|i: int|
                    0 <= i < attrs.drop_last().len() && #[trigger] attrs.drop_last()[i].0 == "KEY"@;
                assert(attrs[i].0 == "KEY"@);
            }
        }
        assert(attrs.last().0 != "KEY"@) by {
            if attrs.last().0 == "KEY"@ {
                assert(attrs[attrs.len() - 1].0 == "KEY"@);
            }
        }
        lemma_preprocess_without_key(attrs.drop_last(), ident, aliases, s);
    }
}

/// With a `KEY` attribute the identifier that comes out is the value of the
/// last one, whatever the identifier and the aliases were.
proof fn lemma_preprocess_with_key(
    attrs: Seq<Attr>,
    x: Seq<char>,
    ax: Map<Seq<char>, Seq<char>>,
    y: Seq<char>,
    ay: Map<Seq<char>, Seq<char>>,
)
    requires
        has_key_attr(attrs),
    ensures
        preprocess(attrs, x, ax).0 == preprocess(attrs, y, ay).0,
    decreases attrs.len(),
{
    if attrs.last().0 != "KEY"@ {
        assert(has_key_attr(attrs.drop_last())) by {
            let i = choose|i: int| 0 <= i < attrs.len() && #[trigger] attrs[i].0 == "KEY"@;
            assert(i != attrs.len() - 1);
            assert(attrs.drop_last()[i].0 == "KEY"@);
        }
        lemma_preprocess_with_key(attrs.drop_last(), x, ax, y, ay);
    } else {
        reveal_strlit("ABB");
        reveal_strlit("KEY");
        assert("ABB"@[0] != "KEY"@[0]);
    }
}

/// Reading a list line a second time stores it under the same identifier.
proof fn lemma_line_ident_stable(aliases: Map<Seq<char>, Seq<char>>, line: Seq<char>)
    ensures
        line_outcome(line_outcome(aliases, line).1, line).0 == line_outcome(aliases, line).0,
{
    let attrs = line_attrs(line);
    let id0 = resolve_ident(aliases, line_ident(line));
    let al1 = line_outcome(aliases, line).1;
    let id1 = resolve_ident(al1, line_ident(line));
    if has_key_attr(attrs) {
        lemma_preprocess_with_key(attrs, id1, al1, id0, aliases);
    } else {
        let s = strip_mod(line_ident(line));
        lemma_preprocess_without_key(attrs, id0, aliases, s);
        lemma_preprocess_without_key(attrs, id1, al1, s);
    }
}

/// Merging is not idempotent: reading the same list line twice appends its
/// attributes twice to the record it names, duplicates kept.
pub proof fn lemma_lst_line_twice(m: PccModel, tag: Seq<char>, line: Seq<char>)
    requires
        !is_skipped(line),
    ensures
        ({
            let id = line_outcome(m.aliases, line).0;
            let before = list_of(m.dict, tag);
            let base = if before.contains_key(id) {
                before[id]
            } else {
                Seq::<Attr>::empty()
            };
            let after = list_of(after_lst_line(after_lst_line(m, tag, line), tag, line).dict, tag);
            &&& line_outcome(after_lst_line(m, tag, line).aliases, line).0 == id
            &&& after.contains_key(id)
            &&& after[id] == base + line_attrs(line) + line_attrs(line)
        }),
{
    lemma_line_ident_stable(m.aliases, line);
    let id = line_outcome(m.aliases, line).0;
    let m1 = after_lst_line(m, tag, line);
    assert(list_of(m1.dict, tag).contains_key(id));
}

/// Two values read for the same text directive are both kept, in the order
/// read, joined by a newline.
pub proof fn lemma_text_twice(m: PccModel, tag: Seq<char>, a: Seq<char>, b: Seq<char>)
    requires
        !m.dict.contains_key(tag),
    ensures
        after_text(after_text(m, tag, a), tag, b).dict[tag] == DatumModel::Text(a + seq!['\n'] + b),
{
}

} // verus!
