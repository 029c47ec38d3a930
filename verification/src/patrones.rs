//! Regular-expression searches, done by the `regex` crate.

use vstd::prelude::*;

verus! {

/// The groups of the leftmost match of `patron` in `texto`, as
/// `regex::Regex::captures` reports them: group 0 is the whole match, the
/// others follow in the order of their opening parenthesis, and a group that
/// took no part in the match is `None`. `None` as a whole when nothing
/// matches or `regex::Regex::new` rejects the pattern.
pub uninterp spec fn regex_capturas(patron: Seq<char>, texto: Seq<char>) -> Option<
    Seq<Option<Seq<char>>>,
>;

/// The groups of every successive non-overlapping match of `patron` in
/// `texto`, in the order in which `regex::Regex::captures_iter` yields them.
/// Empty when `regex::Regex::new` rejects the pattern.
pub uninterp spec fn regex_capturas_todas(patron: Seq<char>, texto: Seq<char>) -> Seq<
    Seq<Option<Seq<char>>>,
>;

/// Calls `regex::Regex::new` on `patron` and `regex::Regex::captures` on
/// `texto`, and copies each group out as text. Nothing is proved of the
/// search: the contract only gives its result the name `regex_capturas`.
#[verifier::external_body]
pub(crate) fn capturas(patron: &str, texto: &str) -> (r: Option<Vec<Option<String>>>)
    ensures
        r.deep_view() == regex_capturas(patron@, texto@),
{
    let re = regex::Regex::new(patron).ok()?;
    let grupos = re.captures(texto)?;
    Some(grupos.iter().map(|m| m.map(|g| g.as_str().to_string())).collect())
}

/// Calls `regex::Regex::new` on `patron` and `regex::Regex::captures_iter`
/// on `texto`, and copies the groups of each match out as text. Nothing is
/// proved of the search: the contract only gives its result the name
/// `regex_capturas_todas`.
#[verifier::external_body]
pub(crate) fn capturas_todas(patron: &str, texto: &str) -> (r: Vec<Vec<Option<String>>>)
    ensures
        r.deep_view() == regex_capturas_todas(patron@, texto@),
{
    match regex::Regex::new(patron) {
        Ok(re) => re
            .captures_iter(texto)
            .map(|c| c.iter().map(|m| m.map(|g| g.as_str().to_string())).collect())
            .collect(),
        Err(_) => Vec::new(),
    }
}

/// The text of group `i`, or the empty text where the group is missing or
/// took no part in the match.
pub open spec fn texto_grupo(grupos: Seq<Option<Seq<char>>>, i: int) -> Seq<char> {
    if 0 <= i < grupos.len() && grupos[i] is Some {
        grupos[i]->0
    } else {
        Seq::empty()
    }
}

/// The text of group `i` of a match, or the empty text where there is none.
pub fn grupo_o_vacio(grupos: &Vec<Option<String>>, i: usize) -> (r: &str)
    ensures
        r@ == texto_grupo(grupos.deep_view(), i as int),
{
    proof {
        reveal_strlit("");
        assert(""@ =~= Seq::<char>::empty());
        if i < grupos.len() {
            assert(grupos.deep_view()[i as int] == grupos@[i as int].deep_view());
        }
    }
    if i < grupos.len() {
        match &grupos[i] {
            Some(g) => g.as_str(),
            None => "",
        }
    } else {
        ""
    }
}

} // verus!
