//! Title sanitization: strip shell/path-hostile characters, then apply
//! filesystem-safe name sanitization. The same function is used wherever
//! a title becomes part of a file name, so the expected-file lookup stays
//! consistent with what was requested from the external tool.

use vstd::prelude::*;

verus! {

/// Characters stripped from titles before filesystem sanitization.
pub open spec fn is_reserved_char(c: char) -> bool {
    c == '\\' || c == '/' || c == ':' || c == '*' || c == '?' || c == '"' || c == '<' || c == '>'
        || c == '|'
}

/// What `sanitize_filename::sanitize_with_options` returns for a name,
/// with the options fixed below; a function of the name alone.
pub uninterp spec fn fs_sanitized(s: Seq<char>) -> Seq<char>;

/// The sanitized form of a title: reserved characters removed, then the
/// filesystem-safe sanitization of the rest.
pub open spec fn sanitize_spec(s: Seq<char>) -> Seq<char> {
    fs_sanitized(s.filter(|c: char| !is_reserved_char(c)))
}

/// Relies on `sanitize_filename::sanitize_with_options`: with fixed
/// options (windows rules on, truncation on, empty replacement) the
/// result depends on the input name alone, and its illegal-character
/// pattern removes every one of the nine reserved characters.
#[verifier::external_body]
fn fs_sanitize(s: &str) -> (r: String)
    ensures
        r@ == fs_sanitized(s@),
        forall|i: int| 0 <= i < r@.len() ==> !is_reserved_char(#[trigger] r@[i]),
{
    sanitize_filename::sanitize_with_options(
        s,
        sanitize_filename::Options { windows: true, truncate: true, replacement: "" },
    )
}

/// Decides `is_reserved_char` executably.
pub fn reserved_char(c: char) -> (r: bool)
    ensures
        r == is_reserved_char(c),
{
    c == '\\' || c == '/' || c == ':' || c == '*' || c == '?' || c == '"' || c == '<' || c == '>'
        || c == '|'
}

/// Strips the reserved characters, then applies filesystem-safe
/// sanitization of the remaining text. The result never holds a
/// reserved character.
pub fn sanitize_text(input: &str) -> (r: String)
    ensures
        r@ == sanitize_spec(input@),
        forall|i: int| 0 <= i < r@.len() ==> !is_reserved_char(#[trigger] r@[i]),
{
    let len = input.unicode_len();
    let mut kept = String::new();
    let ghost pred = |c: char| !is_reserved_char(c);
    let mut i: usize = 0;
    while i < len
        invariant
            len == input@.len(),
            0 <= i <= len,
            kept@ == input@.take(i as int).filter(pred),
            pred == (|c: char| !is_reserved_char(c)),
        decreases len - i,
    {
        let c = input.get_char(i);
        proof {
            assert(input@.take(i + 1) =~= input@.take(i as int).push(input@[i as int]));
            crate::strutil::lemma_filter_push(input@.take(i as int), input@[i as int], pred);
        }
        if !reserved_char(c) {
            let piece = input.substring_char(i, i + 1);
            proof {
                assert(piece@ =~= seq![input@[i as int]]);
                assert(kept@.push(input@[i as int]) =~= kept@ + piece@);
            }
            kept.append(piece);
        }
        i = i + 1;
    }
    proof {
        assert(input@.take(len as int) =~= input@);
    }
    fs_sanitize(kept.as_str())
}

} // verus!
