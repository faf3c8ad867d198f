use vstd::prelude::*;

verus! {

/// The paths of a list of strings.
pub open spec fn paths_of(v: Seq<String>) -> Seq<Seq<char>> {
    v.map_values(|s: String| s@)
}

/// The lower-case hexadecimal digits.
pub open spec fn hex_digits() -> Seq<char> {
    seq!['0', '1', '2', '3', '4', '5', '6', '7', '8', '9', 'a', 'b', 'c', 'd', 'e', 'f']
}

/// How one character is written inside a JSON string: `"` and `\` behind a
/// backslash, the control characters with a short escape where JSON has one and
/// as `\u00xx` otherwise, and every other character as it is.
pub open spec fn escaped_char(c: char) -> Seq<char> {
    let u = c as u32;
    if c == '"' {
        seq!['\\', '"']
    } else if c == '\\' {
        seq!['\\', '\\']
    } else if u == 8 {
        seq!['\\', 'b']
    } else if u == 9 {
        seq!['\\', 't']
    } else if u == 10 {
        seq!['\\', 'n']
    } else if u == 12 {
        seq!['\\', 'f']
    } else if u == 13 {
        seq!['\\', 'r']
    } else if u < 32 {
        seq!['\\', 'u', '0', '0', hex_digits()[(u / 16) as int], hex_digits()[(u % 16) as int]]
    } else {
        seq![c]
    }
}

/// The characters of `s`, each escaped for a JSON string.
pub open spec fn escaped(s: Seq<char>) -> Seq<char>
    decreases s.len(),
{
    if s.len() == 0 {
        Seq::empty()
    } else {
        escaped(s.drop_last()) + escaped_char(s.last())
    }
}

/// `s` as a JSON string literal.
pub open spec fn json_string(s: Seq<char>) -> Seq<char> {
    "\""@ + escaped(s) + "\""@
}

/// The JSON string literals of `paths`, separated by commas.
pub open spec fn json_items(paths: Seq<Seq<char>>) -> Seq<char>
    decreases paths.len(),
{
    if paths.len() == 0 {
        Seq::empty()
    } else if paths.len() == 1 {
        json_string(paths[0])
    } else {
        json_items(paths.drop_last()) + ","@ + json_string(paths.last())
    }
}

/// `paths` as a compact JSON array of strings.
pub open spec fn json_of_paths(paths: Seq<Seq<char>>) -> Seq<char> {
    "["@ + json_items(paths) + "]"@
}

/// Relies on serde_json::to_string: a `Vec<String>` is written as a JSON array
/// without whitespace, its strings in order and separated by commas, each
/// escaped by serde_json's `ESCAPE` table (`"`, `\` and the bytes below 0x20).
/// Its errors come from the writer, from map keys or from a failing `Serialize`
/// impl; a list of strings written into memory has none of these, so it always
/// succeeds.
#[verifier::external_body]
pub(crate) fn json_array(v: &Vec<String>) -> (r: std::result::Result<String, String>)
    ensures
        r is Ok,
        r is Ok ==> r->Ok_0@ == json_of_paths(paths_of(v@)),
{
    serde_json::to_string(v).map_err(|e| e.to_string())
}

} // verus!
