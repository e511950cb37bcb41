use vstd::prelude::*;
use crate::basic_types::lower;
use crate::pattern::{pattern_find_all, regex_find_all, texts_of};
use crate::text::str_to_chars;

verus! {

/// The capital form of an ASCII small letter; any other character as it is.
pub open spec fn upper(c: char) -> char {
    if 'a' <= c <= 'z' {
        ((c as u32) - 32) as char
    } else {
        c
    }
}

/// How the words of a name are written.
#[derive(PartialEq, Eq, Structural, Clone, Copy, Debug)]
pub enum WordCase {
    /// As they are.
    Kept,
    /// With a capital first letter.
    Capitalized,
    /// In small letters throughout.
    Lowered,
}

/// The character at `i` of a word, written as `case` asks.
pub open spec fn cased(c: char, i: int, case: WordCase) -> char {
    match case {
        WordCase::Kept => c,
        WordCase::Capitalized => if i == 0 {
            upper(c)
        } else {
            c
        },
        WordCase::Lowered => lower(c),
    }
}

/// A word written as `case` asks.
pub open spec fn cased_word(word: Seq<char>, case: WordCase) -> Seq<char> {
    Seq::new(word.len(), |i: int| cased(word[i], i, case))
}

/// The words from the `i`-th on, each written as `case` asks, with a space
/// between two of them.
pub open spec fn joined_words(words: Seq<Seq<char>>, i: int, case: WordCase) -> Seq<char>
    decreases words.len() - i,
{
    if i < 0 || i >= words.len() {
        Seq::<char>::empty()
    } else {
        (if i == 0 {
            Seq::<char>::empty()
        } else {
            " "@
        }) + cased_word(words[i], case) + joined_words(words, i + 1, case)
    }
}

/// Writes the words as `case` asks, with a space between two of them.
pub fn join_words(words: &Vec<String>, case: WordCase) -> (text: String)
    ensures
        text@ == joined_words(texts_of(words@), 0, case),
{
    let ghost all = texts_of(words@);
    let mut text = String::new();
    let mut i: usize = 0;
    while i < words.len()
        invariant
            i <= words.len(),
            all == texts_of(words@),
            joined_words(all, 0, case) == text@ + joined_words(all, i as int, case),
        decreases words.len() - i,
    {
        let ghost before = text@;
        if i > 0 {
            text.push(' ');
        }
        let ghost headed = text@;
        let letters = str_to_chars(words[i].as_str());
        let mut j: usize = 0;
        while j < letters.len()
            invariant
                j <= letters.len(),
                text@ == headed + cased_word(letters@, case).take(j as int),
            decreases letters.len() - j,
        {
            let c: char = letters[j];
            let out: char = match case {
                WordCase::Kept => c,
                WordCase::Capitalized => if j == 0 && 'a' <= c && c <= 'z' {
                    ((c as u32) - 32) as u8 as char
                } else {
                    c
                },
                WordCase::Lowered => if 'A' <= c && c <= 'Z' {
                    ((c as u32) + 32) as u8 as char
                } else {
                    c
                },
            };
            text.push(out);
            j += 1;
        }
        proof {
            let word = cased_word(all[i as int], case);
            let head = if i == 0 {
                Seq::<char>::empty()
            } else {
                " "@
            };
            reveal_strlit(" ");
            let rest = joined_words(all, i + 1, case);
        }
        i += 1;
    }
    text
}

/// The text of an optional string, or `default` where there is none.
pub open spec fn text_or(o: Option<String>, default: Seq<char>) -> Seq<char> {
    match o {
        Some(t) => t@,
        None => default,
    }
}

/// The regular expression for the words of a field's name: what stands
/// between underscores.
pub open spec fn field_word_pattern() -> Seq<char> {
    "([^_]+)"@
}

/// The regular expression for the words of a variant's name: a capital
/// letter and the small letters after it.
pub open spec fn variant_word_pattern() -> Seq<char> {
    "([A-Z][a-z]*)"@
}

/// What ends the token of a field by default: a colon, or nothing after an
/// existence flag.
pub open spec fn default_suffix(existence: bool) -> Seq<char> {
    if existence {
        Seq::<char>::empty()
    } else {
        ":"@
    }
}

/// The token of a field made of the words `words`: the prefix, `$` by
/// default; the words, capitalized; and the suffix.
pub open spec fn field_token_of(
    words: Seq<Seq<char>>,
    prefix: Option<String>,
    suffix: Option<String>,
    existence: bool,
) -> Seq<char> {
    text_or(prefix, "$"@) + joined_words(words, 0, WordCase::Capitalized) + text_or(
        suffix,
        default_suffix(existence),
    )
}

/// Makes the token of a field from the words of its name.
pub fn field_token_from_words(
    words: &Vec<String>,
    prefix: &Option<String>,
    suffix: &Option<String>,
    existence: bool,
) -> (token: String)
    ensures
        token@ == field_token_of(texts_of(words@), *prefix, *suffix, existence),
{
    let mut token = String::new();
    match prefix {
        Some(p) => token.append(p.as_str()),
        None => token.append("$"),
    }
    let name = join_words(words, WordCase::Capitalized);
    token.append(name.as_str());
    match suffix {
        Some(s) => token.append(s.as_str()),
        None => {
            if !existence {
                token.append(":");
            }
        },
    }
    token
}

/// The token of the field named `name`, where no token is given for it: the
/// words of the name are what stands between its underscores. `None` where
/// the words cannot be found.
pub fn field_token(
    name: &str,
    prefix: &Option<String>,
    suffix: &Option<String>,
    existence: bool,
) -> (r: Option<String>)
    ensures
        match r {
            Some(token) => regex_find_all(field_word_pattern(), name@) matches Some(words)
                && token@ == field_token_of(words, *prefix, *suffix, existence),
            None => regex_find_all(field_word_pattern(), name@) is None,
        },
{
    match pattern_find_all("([^_]+)", name) {
        Some(words) => Some(field_token_from_words(&words, prefix, suffix, existence)),
        None => None,
    }
}

/// The double quote around the token of a flag.
pub open spec fn flag_quote(flagset: bool) -> Seq<char> {
    if flagset {
        "\""@
    } else {
        Seq::<char>::empty()
    }
}

/// How the words of a variant's name are written: in small letters in a flag
/// set, as they are elsewhere.
pub open spec fn variant_case(flagset: bool) -> WordCase {
    if flagset {
        WordCase::Lowered
    } else {
        WordCase::Kept
    }
}

/// The token of a variant whose name is written `name`: the prefix, the
/// name and the suffix, within double quotes in a flag set.
pub open spec fn variant_token_of(
    name: Seq<char>,
    flagset: bool,
    prefix: Seq<char>,
    suffix: Seq<char>,
) -> Seq<char> {
    flag_quote(flagset) + prefix + name + suffix + flag_quote(flagset)
}

/// Makes the token of a variant from its name as it is to be written.
pub fn variant_token_from_name(name: &str, flagset: bool, prefix: &str, suffix: &str) -> (token:
    String)
    ensures
        token@ == variant_token_of(name@, flagset, prefix@, suffix@),
{
    let mut token = String::new();
    if flagset {
        token.append("\"");
    }
    token.append(prefix);
    token.append(name);
    token.append(suffix);
    if flagset {
        token.append("\"");
    }
    token
}

/// The token of the variant named `name`. Where a name is forced, that is
/// written; else the words of `name`, each a capital letter and the small
/// letters after it, with a space between two of them, in small letters in a
/// flag set. `None` where the words cannot be found.
pub fn variant_token(
    name: &str,
    forced: &Option<String>,
    flagset: bool,
    prefix: &str,
    suffix: &str,
) -> (r: Option<String>)
    ensures
        match *forced {
            Some(f) => r matches Some(token) && token@ == variant_token_of(
                f@,
                flagset,
                prefix@,
                suffix@,
            ),
            None => match r {
                Some(token) => regex_find_all(variant_word_pattern(), name@) matches Some(words)
                    && token@ == variant_token_of(
                    joined_words(words, 0, variant_case(flagset)),
                    flagset,
                    prefix@,
                    suffix@,
                ),
                None => regex_find_all(variant_word_pattern(), name@) is None,
            },
        },
{
    match forced {
        Some(f) => Some(variant_token_from_name(f.as_str(), flagset, prefix, suffix)),
        None => match pattern_find_all("([A-Z][a-z]*)", name) {
            Some(words) => {
                let written = join_words(
                    &words,
                    if flagset {
                        WordCase::Lowered
                    } else {
                        WordCase::Kept
                    },
                );
                Some(variant_token_from_name(written.as_str(), flagset, prefix, suffix))
            },
            None => None,
        },
    }
}

} // verus!
