//! Names of storage directories.

use vstd::prelude::*;

verus! {

/// Characters that may stand in a storage directory name as they are.
pub open spec fn is_name_char(c: char) -> bool {
    ||| 'a' <= c <= 'z'
    ||| 'A' <= c <= 'Z'
    ||| '0' <= c <= '9'
    ||| c == '_'
    ||| c == '-'
}

/// Length of the longest prefix of `s` made of name characters only.
pub open spec fn clean_prefix_len(s: Seq<char>) -> nat
    decreases s.len(),
{
    if s.len() == 0 || !is_name_char(s[0]) {
        0
    } else {
        1 + clean_prefix_len(s.skip(1))
    }
}

/// Length of the longest prefix of `s` that holds no name character.
pub open spec fn foreign_prefix_len(s: Seq<char>) -> nat
    decreases s.len(),
{
    if s.len() == 0 || is_name_char(s[0]) {
        0
    } else {
        1 + foreign_prefix_len(s.skip(1))
    }
}

/// `s` with its first run of foreign characters replaced by one hyphen.
///
/// Later runs are kept as they are; a text without foreign characters is
/// unchanged.
pub open spec fn sanitized(s: Seq<char>) -> Seq<char> {
    let start = clean_prefix_len(s) as int;
    if start >= s.len() {
        s
    } else {
        let run = foreign_prefix_len(s.skip(start)) as int;
        s.take(start) + seq!['-'] + s.skip(start + run)
    }
}

/// Calls `regex::Regex::new` on `pattern` and `regex::Regex::replace` on the
/// compiled expression.
///
/// The pattern is a negated character class under `+`. The claim is that the
/// leftmost match of such a pattern is the first maximal run of characters
/// outside the class, that `replace` substitutes that one match only, and that
/// it returns the text as it is where nothing matches. The replacement holds
/// no `$`, so it is inserted literally.
#[verifier::external_body]
fn replace_first_foreign_run(pattern: &str, text: &str, replacement: &str) -> (out: String)
    requires
        pattern@ == "[^a-zA-Z0-9_-]+"@,
        replacement@ == "-"@,
    ensures
        out@ == sanitized(text@),
{
    regex::Regex::new(pattern).unwrap().replace(text, replacement).to_string()
}

/// Turns an arbitrary text into a storage directory name by replacing its
/// first run of characters outside `[a-zA-Z0-9_-]` with a single hyphen.
pub fn sanitize(text: &str) -> (name: String)
    ensures
        name@ == sanitized(text@),
{
    replace_first_foreign_run("[^a-zA-Z0-9_-]+", text, "-")
}

} // verus!
