//! Regular expressions through the `regex` crate.
//!
//! Each function takes the pattern as text, compiles it and applies it; its
//! result is named by a spec function of the pattern and the text (`None`
//! also when the pattern does not compile).

use vstd::prelude::*;

use crate::texto::contiene;

verus! {

/// What `Regex::new(patron)` and then `replace_all(texto, reemplazo)` give;
/// `None` when the pattern does not compile.
pub uninterp spec fn regex_reemplazo(patron: Seq<char>, texto: Seq<char>, reemplazo: Seq<char>) -> Option<
    Seq<char>,
>;

/// The text of the leftmost-first match of `patron` in `texto`
/// (`Regex::find`); `None` when there is none or the pattern does not
/// compile.
pub uninterp spec fn regex_busqueda(patron: Seq<char>, texto: Seq<char>) -> Option<Seq<char>>;

/// The groups of the leftmost-first match (`Regex::captures`), group 0
/// being the whole match; `None` when there is no match or the pattern
/// does not compile.
pub uninterp spec fn regex_grupos(patron: Seq<char>, texto: Seq<char>) -> Option<
    Seq<Option<Seq<char>>>,
>;

/// Whether `patron` matches somewhere in `texto` (`Regex::is_match`); false
/// when the pattern does not compile.
pub uninterp spec fn regex_coincide(patron: Seq<char>, texto: Seq<char>) -> bool;

/// `Regex::replace_all`: every match of `patron` replaced by `reemplazo`.
#[verifier::external_body]
pub(crate) fn reemplazar_todo(patron: &str, texto: &str, reemplazo: &str) -> (r: Option<String>)
    ensures
        r.deep_view() == regex_reemplazo(patron@, texto@, reemplazo@),
{
    regex::Regex::new(patron).ok().map(|re| re.replace_all(texto, reemplazo).into_owned())
}

/// `Regex::find`: the first match, as text. As the crate documents, a
/// match is a part of the text searched.
#[verifier::external_body]
pub(crate) fn primera_coincidencia(patron: &str, texto: &str) -> (r: Option<String>)
    ensures
        r.deep_view() == regex_busqueda(patron@, texto@),
        r matches Some(m) ==> contiene(texto@, m@),
{
    regex::Regex::new(patron).ok().and_then(|re| re.find(texto).map(|m| m.as_str().to_string()))
}

/// `Regex::captures`: the groups of the first match. As the crate
/// documents, group 0 is always present and is the whole match.
#[verifier::external_body]
pub(crate) fn capturas(patron: &str, texto: &str) -> (r: Option<Vec<Option<String>>>)
    ensures
        match r {
            Some(g) => {
                &&& regex_grupos(patron@, texto@) == Some(
                    g@.map_values(|x: Option<String>| x.deep_view()),
                )
                &&& g@.len() >= 1
                &&& g@[0] is Some
            },
            None => regex_grupos(patron@, texto@) is None,
        },
{
    regex::Regex::new(patron).ok().and_then(
        |re| re.captures(texto).map(|c| c.iter().map(|m| m.map(|m| m.as_str().to_string())).collect())
    )
}

/// `Regex::is_match`.
#[verifier::external_body]
pub(crate) fn coincide(patron: &str, texto: &str) -> (r: bool)
    ensures
        r == regex_coincide(patron@, texto@),
{
    match regex::Regex::new(patron) {
        Ok(re) => re.is_match(texto),
        Err(_) => false,
    }
}

} // verus!
