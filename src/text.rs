use vstd::prelude::*;
use vstd::string::*;
use vstd::std_specs::iter::IteratorSpec;

verus! {

broadcast use vstd::string::group_string_axioms;

/// The characters of `s`, in order.
pub fn chars_of(s: &str) -> (r: Vec<char>)
    ensures
        r@ == s@,
{
    broadcast use vstd::string::next_postcondition;
    let mut it = s.chars();
    let mut r: Vec<char> = Vec::new();
    loop
        invariant
            it.remaining() == s@.subrange(r@.len() as int, s@.len() as int),
            r@ == s@.subrange(0, r@.len() as int),
            r@.len() <= s@.len(),
            it.decrease() is Some,
        ensures
            r@ == s@,
        decreases it.decrease()->0,
    {
        match it.next() {
            Some(c) => {
                r.push(c);
            },
            None => {
                assert(r@ =~= s@);
                break;
            },
        }
    }
    r
}

/// The views of a sequence of strings.
pub open spec fn strings_view(v: Seq<String>) -> Seq<Seq<char>> {
    v.map_values(|x: String| x@)
}

/// The fields of `s` separated by `sep`: always at least one field, and one
/// more than the number of separators.
pub open spec fn split_on(s: Seq<char>, sep: char) -> Seq<Seq<char>>
    decreases s.len(),
{
    if s.len() == 0 {
        seq![Seq::<char>::empty()]
    } else {
        let prev = split_on(s.drop_last(), sep);
        if s.last() == sep {
            prev.push(Seq::<char>::empty())
        } else {
            prev.update(prev.len() - 1, prev.last().push(s.last()))
        }
    }
}

/// Splitting gives at least one field.
pub proof fn lemma_split_on_nonempty(s: Seq<char>, sep: char)
    ensures
        split_on(s, sep).len() >= 1,
    decreases s.len(),
{
    if s.len() > 0 {
        lemma_split_on_nonempty(s.drop_last(), sep);
    }
}

/// `i` is the position of the first `c` in `s`.
pub open spec fn is_first(s: Seq<char>, c: char, i: int) -> bool {
    &&& 0 <= i < s.len()
    &&& s[i] == c
    &&& forall|j: int| 0 <= j < i ==> s[j] != c
}

/// The text before and after the first `c` in `s`, if `s` holds a `c`.
pub open spec fn split_once(s: Seq<char>, c: char) -> Option<(Seq<char>, Seq<char>)> {
    if exists|i: int| is_first(s, c, i) {
        let i = choose|i: int| is_first(s, c, i);
        Some((s.subrange(0, i), s.subrange(i + 1, s.len() as int)))
    } else {
        None
    }
}

/// The characters that Unicode gives the White_Space property.
pub open spec fn is_white(c: char) -> bool {
    ||| '\u{9}' <= c <= '\u{d}'
    ||| c == ' '
    ||| c == '\u{85}'
    ||| c == '\u{a0}'
    ||| c == '\u{1680}'
    ||| '\u{2000}' <= c <= '\u{200a}'
    ||| c == '\u{2028}'
    ||| c == '\u{2029}'
    ||| c == '\u{202f}'
    ||| c == '\u{205f}'
    ||| c == '\u{3000}'
}

/// `s` holds nothing but white space (or nothing at all).
pub open spec fn is_blank(s: Seq<char>) -> bool {
    forall|i: int| 0 <= i < s.len() ==> is_white(s[i])
}

/// The marker that ends the identifier of an update line.
pub open spec fn mod_suffix() -> Seq<char> {
    seq!['.', 'M', 'O', 'D']
}

/// `s` with a trailing `.MOD` taken off, if it has one.
pub open spec fn strip_mod(s: Seq<char>) -> Seq<char> {
    if s.len() >= 4 && s.subrange(s.len() - 4, s.len() as int) == mod_suffix() {
        s.subrange(0, s.len() - 4)
    } else {
        s
    }
}

/// `s` with every backslash turned into a forward slash.
pub open spec fn forward_slashes(s: Seq<char>) -> Seq<char> {
    s.map_values(|c: char| if c == '\\' { '/' } else { c })
}

/// A copy of `s` as an owned string.
pub fn owned(s: &str) -> (r: String)
    ensures
        r@ == s@,
{
    String::from_str(s)
}

/// The concatenation of `a` and `b`.
pub fn concat(a: &str, b: &str) -> (r: String)
    ensures
        r@ == a@ + b@,
{
    let mut r = String::from_str(a);
    r.append(b);
    r
}

/// Whether `c` is white space.
pub fn is_white_char(c: char) -> (r: bool)
    ensures
        r == is_white(c),
{
    ('\u{9}' <= c && c <= '\u{d}') || c == ' ' || c == '\u{85}' || c == '\u{a0}' || c == '\u{1680}'
        || ('\u{2000}' <= c && c <= '\u{200a}') || c == '\u{2028}' || c == '\u{2029}' || c
        == '\u{202f}' || c == '\u{205f}' || c == '\u{3000}'
}

/// Whether `s` holds nothing but white space.
pub fn blank(s: &str) -> (r: bool)
    ensures
        r == is_blank(s@),
{
    let cs = chars_of(s);
    let mut i: usize = 0;
    while i < cs.len()
        invariant
            cs@ == s@,
            i <= cs@.len(),
            forall|j: int| 0 <= j < i ==> is_white(cs@[j]),
        decreases cs@.len() - i,
    {
        if !is_white_char(cs[i]) {
            return false;
        }
        i += 1;
    }
    true
}

/// Whether `a` and `b` hold the same characters.
pub fn str_eq(a: &str, b: &str) -> (r: bool)
    ensures
        r == (a@ == b@),
{
    let ca = chars_of(a);
    let cb = chars_of(b);
    if ca.len() != cb.len() {
        return false;
    }
    let mut i: usize = 0;
    while i < ca.len()
        invariant
            ca@ == a@,
            cb@ == b@,
            ca@.len() == cb@.len(),
            i <= ca@.len(),
            forall|j: int| 0 <= j < i ==> ca@[j] == cb@[j],
        decreases ca@.len() - i,
    {
        if ca[i] != cb[i] {
            return false;
        }
        i += 1;
    }
    assert(a@ =~= b@);
    true
}

/// `s` split into its fields at each `sep`.
pub fn split_fields(s: &str, sep: char) -> (r: Vec<String>)
    ensures
        strings_view(r@) == split_on(s@, sep),
{
    let cs = chars_of(s);
    let mut fields: Vec<String> = Vec::new();
    let mut start: usize = 0;
    let mut i: usize = 0;
    proof {
        assert(strings_view(fields@) =~= Seq::<Seq<char>>::empty());
        assert(cs@.subrange(0, 0) =~= Seq::<char>::empty());
        assert(strings_view(fields@).push(cs@.subrange(0, 0)) =~= seq![Seq::<char>::empty()]);
    }
    while i < cs.len()
        invariant
            cs@ == s@,
            start <= i <= cs@.len(),
            split_on(cs@.subrange(0, i as int), sep) == strings_view(fields@).push(
                cs@.subrange(start as int, i as int),
            ),
        decreases cs@.len() - i,
    {
        let ghost prefix = cs@.subrange(0, i + 1);
        let ghost prev = split_on(cs@.subrange(0, i as int), sep);
        proof {
            assert(prefix.drop_last() =~= cs@.subrange(0, i as int));
            assert(prefix.last() == cs@[i as int]);
        }
        if cs[i] == sep {
            let f = String::from_str(s.substring_char(start, i));
            let ghost prior = fields@;
            fields.push(f);
            start = i + 1;
            proof {
                assert(split_on(prefix, sep) == prev.push(Seq::<char>::empty()));
                assert(strings_view(fields@) =~= strings_view(prior).push(f@));
                assert(cs@.subrange(start as int, i + 1) =~= Seq::<char>::empty());
                assert(split_on(prefix, sep) =~= strings_view(fields@).push(
                    cs@.subrange(start as int, i + 1),
                ));
            }
        } else {
            proof {
                assert(split_on(prefix, sep) == prev.update(
                    prev.len() - 1,
                    prev.last().push(cs@[i as int]),
                ));
                assert(cs@.subrange(start as int, i + 1) =~= cs@.subrange(
                    start as int,
                    i as int,
                ).push(cs@[i as int]));
                assert(split_on(prefix, sep) =~= strings_view(fields@).push(
                    cs@.subrange(start as int, i + 1),
                ));
            }
        }
        i += 1;
    }
    let f = String::from_str(s.substring_char(start, cs.len()));
    let ghost before = fields@;
    fields.push(f);
    proof {
        assert(cs@.subrange(0, cs@.len() as int) =~= cs@);
        assert(strings_view(fields@) =~= strings_view(before).push(f@));
    }
    fields
}

/// The text before and after the first `c` in `s`, if `s` holds a `c`.
pub fn split_once_at(s: &str, c: char) -> (r: Option<(String, String)>)
    ensures
        match r {
            Some(p) => split_once(s@, c) == Some((p.0@, p.1@)),
            None => split_once(s@, c) is None,
        },
{
    let cs = chars_of(s);
    let mut i: usize = 0;
    while i < cs.len()
        invariant
            cs@ == s@,
            i <= cs@.len(),
            forall|j: int| 0 <= j < i ==> cs@[j] != c,
        decreases cs@.len() - i,
    {
        if cs[i] == c {
            proof {
                assert(is_first(s@, c, i as int));
                let k = choose|k: int| is_first(s@, c, k);
                assert(k == i) by {
                    if k < i {
                        assert(s@[k] != c);
                    } else if k > i {
                        assert(s@[i as int] != c);
                    }
                }
            }
            let a = String::from_str(s.substring_char(0, i));
            let b = String::from_str(s.substring_char(i + 1, cs.len()));
            return Some((a, b));
        }
        i += 1;
    }
    proof {
        assert forall|k: int| !is_first(s@, c, k) by {
            if 0 <= k < s@.len() {
                assert(cs@[k] != c);
            }
        }
    }
    None
}

/// `s` with a trailing `.MOD` taken off, if it has one.
pub fn strip_mod_suffix(s: &str) -> (r: String)
    ensures
        r@ == strip_mod(s@),
{
    let cs = chars_of(s);
    let n = cs.len();
    if n >= 4 && cs[n - 4] == '.' && cs[n - 3] == 'M' && cs[n - 2] == 'O' && cs[n - 1] == 'D' {
        assert(s@.subrange(n - 4, n as int) =~= mod_suffix());
        String::from_str(s.substring_char(0, n - 4))
    } else {
        proof {
            if n >= 4 {
                assert(s@.subrange(n - 4, n as int)[0] == s@[n - 4]);
                assert(s@.subrange(n - 4, n as int)[1] == s@[n - 3]);
                assert(s@.subrange(n - 4, n as int)[2] == s@[n - 2]);
                assert(s@.subrange(n - 4, n as int)[3] == s@[n - 1]);
            }
        }
        String::from_str(s)
    }
}

/// Relies on `str::replace`: with a one-character pattern and a one-character
/// replacement, every occurrence of the pattern is swapped for the replacement
/// and nothing else changes.
#[verifier::external_body]
pub(crate) fn backslashes_to_slashes(s: &str) -> (r: String)
    ensures
        r@ == forward_slashes(s@),
{
    s.replace("\\", "/")
}

} // verus!
