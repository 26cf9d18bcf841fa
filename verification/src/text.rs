use vstd::prelude::*;

verus! {

/// Whether two pieces of text hold the same characters.
pub fn same_text(a: &str, b: &str) -> (r: bool)
    ensures
        r == (a@ == b@),
{
    let x = String::from_str(a);
    let y = String::from_str(b);
    x == y
}

/// Whether an optional piece of text is present and equal to `b`.
pub fn optional_text_is(a: &Option<String>, b: &str) -> (r: bool)
    ensures
        r == (a matches Some(s) && s@ == b@),
{
    match a {
        Some(s) => same_text(s.as_str(), b),
        None => false,
    }
}

/// A copy of a piece of text.
pub fn copy_text(a: &String) -> (r: String)
    ensures
        r@ == a@,
{
    String::from_str(a.as_str())
}

/// A copy of an optional piece of text.
pub fn copy_optional_text(a: &Option<String>) -> (r: Option<String>)
    ensures
        r is Some <==> a is Some,
        r matches Some(s) ==> s@ == a->0@,
{
    match a {
        Some(s) => Some(copy_text(s)),
        None => None,
    }
}

} // verus!
