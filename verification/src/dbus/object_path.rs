//! D-Bus object paths.

use vstd::prelude::*;

verus! {

/// Whether a character may stand in an object path.
pub open spec fn is_path_char(c: char) -> bool {
    ||| '0' <= c && c <= '9'
    ||| 'a' <= c && c <= 'z'
    ||| 'A' <= c && c <= 'Z'
    ||| c == '_'
    ||| c == '/'
}

/// Whether a text is an object path: names of ASCII letters, digits and
/// underscores, each behind a slash, or a slash alone.
pub open spec fn is_object_path(s: Seq<char>) -> bool {
    &&& s.len() > 0
    &&& s[0] == '/'
    &&& s.len() > 1 ==> s.last() != '/'
    &&& forall|i: int| 0 <= i < s.len() ==> is_path_char(#[trigger] s[i])
    &&& forall|i: int, j: int|
        0 <= i < s.len() && j == i + 1 && j < s.len() && (#[trigger] s[i]) == '/' ==> (
        #[trigger] s[j]) != '/'
}

/// `zbus::zvariant::ObjectPath::try_from` on a text: nothing when it is an object
/// path, and what the error says when it is not.
#[verifier::external_body]
pub(crate) fn object_path_error(path: &str) -> (r: Option<String>)
    ensures
        r is None <==> is_object_path(path@),
        r is Some ==> r->0@ == "Invalid object path"@,
{
    match zbus::zvariant::ObjectPath::try_from(path) {
        Ok(_) => None,
        Err(err) => Some(err.to_string()),
    }
}

/// Whether a text is an object path.
pub fn is_valid_path(path: &str) -> (r: bool)
    ensures
        r == is_object_path(path@),
{
    object_path_error(path).is_none()
}

} // verus!
