//! Keyword extraction for the memory system: the whitespace-separated
//! words of a text longer than three bytes, in lowercase.

use vstd::prelude::*;
use crate::text::{byte_len, lowercase_of, str_byte_len, strings_view, to_lower};

verus! {

broadcast use vstd::seq_lib::group_seq_properties;

/// Whether a character has the Unicode `White_Space` property, by which
/// `str::split_whitespace` splits: tab to carriage return, space, next
/// line, no-break space, ogham space, the en quad to the hair space, the
/// line and paragraph separators, the narrow no-break space, the medium
/// mathematical space and the ideographic space.
pub open spec fn unicode_white_space(c: char) -> bool {
    let u = c as u32;
    ||| 0x09 <= u <= 0x0D
    ||| u == 0x20
    ||| u == 0x85
    ||| u == 0xA0
    ||| u == 0x1680
    ||| 0x2000 <= u <= 0x200A
    ||| u == 0x2028
    ||| u == 0x2029
    ||| u == 0x202F
    ||| u == 0x205F
    ||| u == 0x3000
}

/// The words of a text as `str::split_whitespace` gives them: the maximal
/// runs of characters that are not white space, in order.
pub open spec fn whitespace_words(s: Seq<char>) -> Seq<Seq<char>>
    decreases s.len(),
{
    if s.len() == 0 {
        Seq::empty()
    } else {
        let rest = whitespace_words(s.drop_first());
        if unicode_white_space(s[0]) {
            rest
        } else if s.len() > 1 && !unicode_white_space(s[1]) {
            rest.update(0, seq![s[0]] + rest[0])
        } else {
            seq![seq![s[0]]] + rest
        }
    }
}

/// Calls `str::split_whitespace` and collects the words: the maximal runs
/// of characters without the Unicode `White_Space` property, in order.
#[verifier::external_body]
pub(crate) fn split_words(s: &str) -> (r: Vec<String>)
    ensures
        strings_view(r@) == whitespace_words(s@),
{
    s.split_whitespace().map(String::from).collect()
}

/// Whether a word is kept as a keyword: longer than three bytes.
pub open spec fn is_keyword(w: Seq<char>) -> bool {
    byte_len(w) > 3
}

/// The keywords of a text: its words longer than three bytes, in order,
/// each in lowercase.
pub open spec fn keywords_of(s: Seq<char>) -> Seq<Seq<char>> {
    whitespace_words(s).filter(|w: Seq<char>| is_keyword(w)).map_values(|w: Seq<char>| lowercase_of(w))
}

/// The keywords of a text (a simple stand-in for real concept extraction).
pub fn extract_keywords(content: &str) -> (r: Vec<String>)
    ensures
        strings_view(r@) == keywords_of(content@),
{
    let words = split_words(content);
    let ghost ws = strings_view(words@);
    let ghost pred = |w: Seq<char>| is_keyword(w);
    let mut r: Vec<String> = Vec::new();
    let mut i: usize = 0;
    while i < words.len()
        invariant
            i <= words@.len(),
            ws == strings_view(words@),
            pred == (|w: Seq<char>| is_keyword(w)),
            strings_view(r@) == ws.subrange(0, i as int).filter(pred).map_values(
                |w: Seq<char>| lowercase_of(w),
            ),
        decreases words@.len() - i,
    {
        let ghost prev = ws.subrange(0, i as int).filter(pred);
        let ghost before = r@;
        proof {
            assert(ws.subrange(0, i + 1).drop_last() =~= ws.subrange(0, i as int));
            reveal(Seq::filter);
            assert(ws.subrange(0, i + 1).last() == ws[i as int]);
            assert(ws[i as int] == words@[i as int]@);
        }
        let w = words[i].as_str();
        if str_byte_len(w) > 3 {
            r.push(to_lower(w));
            proof {
                assert(ws.subrange(0, i + 1).filter(pred) == prev.push(ws[i as int]));
                assert(strings_view(r@) =~= strings_view(before).push(lowercase_of(ws[i as int])));
                assert(prev.push(ws[i as int]).map_values(|w: Seq<char>| lowercase_of(w))
                    =~= prev.map_values(|w: Seq<char>| lowercase_of(w)).push(lowercase_of(ws[i as int])));
            }
        } else {
            proof {
                assert(ws.subrange(0, i + 1).filter(pred) == prev);
            }
        }
        i = i + 1;
    }
    assert(ws.subrange(0, ws.len() as int) =~= ws);
    r
}

} // verus!
