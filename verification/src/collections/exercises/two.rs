//! Pig latin: the first consonant of each word moves to the end of the word
//! and gets "ay" added, so "first" becomes "irst-fay"; a word that starts with
//! a vowel gets "hay" added, so "apple" becomes "apple-hay".

use crate::text::join;
use crate::text::joined;
use crate::text::split_whitespace;
use crate::text::views;
use crate::text::words;
use crate::text::lemma_words_are_words;
use vstd::prelude::*;
use vstd::string::StrSliceExecFns;

verus! {

broadcast use vstd::string::group_string_axioms;

/// The five lowercase vowels.
pub open spec fn is_vowel(c: char) -> bool {
    c == 'a' || c == 'e' || c == 'i' || c == 'o' || c == 'u'
}

/// `word` with "-hay" added.
pub open spec fn with_hay(word: Seq<char>) -> Seq<char> {
    word + seq!['-', 'h', 'a', 'y']
}

/// `word` without its first character, then a hyphen, `c` and "ay".
pub open spec fn obfuscated(word: Seq<char>, c: char) -> Seq<char> {
    word.skip(1) + seq!['-', c, 'a', 'y']
}

/// The pig latin of one word, which has at least one character.
pub open spec fn pig_word(word: Seq<char>) -> Seq<char> {
    if is_vowel(word[0]) {
        with_hay(word)
    } else {
        obfuscated(word, word[0])
    }
}

/// The pig latin of a text: that of its words, with one blank between them.
pub open spec fn pig_latin(text: Seq<char>) -> Seq<char> {
    joined(words(text).map_values(|w: Seq<char>| pig_word(w)), seq![' '])
}

/// Turns a text into pig latin, word by word.
pub fn convert_to_piglatin(input: &str) -> (output: String)
    ensures
        output@ == pig_latin(input@),
{
    let input_words = split_whitespace(input);
    let ghost pig = |w: Seq<char>| pig_word(w);
    let mut result: Vec<String> = Vec::new();
    let mut i: usize = 0;
    proof {
        lemma_words_are_words(input@);
    }
    while i < input_words.len()
        invariant
            i <= input_words.len(),
            views(input_words@) == words(input@),
            pig == (|w: Seq<char>| pig_word(w)),
            forall|k: int| 0 <= k < words(input@).len() ==> (#[trigger] words(input@)[k]).len() > 0,
            views(result@) == words(input@).take(i as int).map_values(pig),
        decreases input_words.len() - i,
    {
        let word = input_words[i].as_str();
        assert(word@ == views(input_words@)[i as int]);
        assert(word@ == words(input@)[i as int]);
        let c = word.get_char(0);
        let mut modified_word = String::new();
        if c == 'a' || c == 'e' || c == 'i' || c == 'o' || c == 'u' {
            append_hay(word, &mut modified_word);
        } else {
            obfuscate(word, c, &mut modified_word);
        }
        assert(modified_word@ == pig_word(word@));
        proof {
            let upto = words(input@).take(i + 1);
            assert(upto.drop_last() == words(input@).take(i as int));
            assert(upto.map_values(pig) == words(input@).take(i as int).map_values(pig).push(
                pig_word(word@),
            ));
            assert(views(result@.push(modified_word)) == views(result@).push(modified_word@));
        }
        result.push(modified_word);
        i += 1;
    }
    proof {
        assert(words(input@).take(input_words@.len() as int) == words(input@));
        reveal_strlit(" ");
        assert(" "@ == seq![' ']);
    }
    join(&result, " ")
}

/// Appends `word` and "-hay" to `result`.
pub fn append_hay(word: &str, result: &mut String)
    ensures
        final(result)@ == old(result)@ + with_hay(word@),
{
    result.push_str(word);
    result.push_str("-hay");
    proof {
        reveal_strlit("-hay");
        assert("-hay"@ == seq!['-', 'h', 'a', 'y']);
        assert(result@ == old(result)@ + with_hay(word@));
    }
}

/// Appends to `result` what follows the first character of `word`, then a
/// hyphen, `c` and "ay".
pub fn obfuscate(word: &str, c: char, result: &mut String)
    requires
        word@.len() > 0,
    ensures
        final(result)@ == old(result)@ + obfuscated(word@, c),
{
    let n = word.unicode_len();
    result.push_str(word.substring_char(1, n));
    result.push('-');
    result.push(c);
    result.push_str("ay");
    proof {
        reveal_strlit("ay");
        assert("ay"@ == seq!['a', 'y']);
        assert(word@.subrange(1, n as int) == word@.skip(1));
        assert(result@ == old(result)@ + obfuscated(word@, c));
    }
}

} // verus!
