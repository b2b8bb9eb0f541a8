use vstd::prelude::*;
use crate::error::PccError;
use crate::text::{concat, forward_slashes, owned, backslashes_to_slashes};

verus! {

broadcast use vstd::string::group_string_axioms;

/// Where a list file named by `token` lies, for a descriptor file in
/// `base_dir` and a data directory `data_dir`:
/// - a leading `/` makes the token an absolute path, taken as it is;
/// - a leading `@` or `*` makes it relative to the data directory (the
///   wildcard `*` is not expanded: it reads like `@`);
/// - anything else makes it relative to `base_dir`, joined with a `/`.
pub open spec fn lst_path(token: Seq<char>, base_dir: Seq<char>, data_dir: Seq<char>) -> Seq<char>
    recommends
        token.len() > 0,
{
    if token[0] == '/' {
        token
    } else if token[0] == '@' || token[0] == '*' {
        data_dir + token.drop_first()
    } else {
        base_dir + seq!['/'] + token
    }
}

/// The path of a descriptor file: under the data directory when relative,
/// with backslashes turned into forward slashes.
pub open spec fn pcc_path(token: Seq<char>, is_relative: bool, data_dir: Seq<char>) -> Seq<char> {
    forward_slashes(if is_relative { data_dir + token } else { token })
}

/// What `std::path::Path::parent` gives for a path, as text.
pub uninterp spec fn parent_of(p: Seq<char>) -> Option<Seq<char>>;

/// The view of an optional string.
pub open spec fn opt_view(o: Option<String>) -> Option<Seq<char>> {
    match o {
        Some(s) => Some(s@),
        None => None,
    }
}

/// Relies on `std::path::Path::parent`: the path without its last component,
/// or `None` for a path that ends in a root or a prefix, or that is empty.
/// A path made from a `&str` is valid UTF-8, so `to_str` gives it back whole.
#[verifier::external_body]
pub(crate) fn dir_from_path(full_path: &str) -> (r: Option<String>)
    ensures
        opt_view(r) == parent_of(full_path@),
        full_path@.len() == 0 ==> r is None,
{
    std::path::Path::new(full_path).parent().and_then(|p| p.to_str()).map(|s| s.to_string())
}

/// Resolves the path of a list file (see `lst_path`); an empty token is an
/// error.
pub fn resolve_lst_path(token: &str, base_dir: &str, data_dir: &str) -> (r: Result<String, PccError>)
    ensures
        match r {
            Ok(p) => token@.len() > 0 && p@ == lst_path(token@, base_dir@, data_dir@),
            Err(e) => token@.len() == 0 && e == PccError::EmptyPathToken,
        },
{
    if token.unicode_len() == 0 {
        return Err(PccError::EmptyPathToken);
    }
    let first = token.get_char(0);
    if first == '/' {
        Ok(owned(token))
    } else if first == '@' || first == '*' {
        let rest = token.substring_char(1, token.unicode_len());
        assert(rest@ =~= token@.drop_first());
        Ok(concat(data_dir, rest))
    } else {
        let dir = concat(base_dir, "/");
        proof {
            reveal_strlit("/");
            assert(dir@ =~= base_dir@ + seq!['/']);
        }
        Ok(concat(dir.as_str(), token))
    }
}

/// Resolves the path of a descriptor file (see `pcc_path`) and the directory
/// that holds it. An empty token is an error, and so is a path with no
/// parent directory.
pub fn locate_pcc(token: &str, is_relative: bool, data_dir: &str) -> (r: Result<(String, String), PccError>)
    ensures
        match r {
            Ok((p, dir)) => {
                &&& token@.len() > 0
                &&& p@ == pcc_path(token@, is_relative, data_dir@)
                &&& parent_of(p@) == Some(dir@)
            },
            Err(e) => {
                ||| (token@.len() == 0 && e == PccError::EmptyPathToken)
                ||| (token@.len() > 0 && parent_of(pcc_path(token@, is_relative, data_dir@)) is None
                    && e == PccError::NoParentDir)
            },
        },
{
    if token.unicode_len() == 0 {
        return Err(PccError::EmptyPathToken);
    }
    let joined = if is_relative {
        concat(data_dir, token)
    } else {
        owned(token)
    };
    let p = backslashes_to_slashes(joined.as_str());
    match dir_from_path(p.as_str()) {
        Some(dir) => Ok((p, dir)),
        None => Err(PccError::NoParentDir),
    }
}

} // verus!
