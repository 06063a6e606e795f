//! Conversion of names to camel case.
//!
//! A name is split into words at characters that are neither letters nor
//! digits (such as `_` or `-`), between a lower-case letter and a following
//! upper-case one, and before an upper-case letter that is followed by a
//! lower-case one. The first word is written in lower case, every other word
//! starts with an upper-case letter and continues in lower case. A leading
//! or trailing `_` or `$` is kept. Letters are classified and mapped with
//! Unicode's case rules; for ASCII characters these are the familiar ones.

use vstd::prelude::*;

verus! {

/// Unicode's `Alphabetic` or `Numeric` property of a non-ASCII character.
pub uninterp spec fn unicode_is_alphanumeric(c: char) -> bool;

/// Unicode's `Lowercase` property of a non-ASCII character.
pub uninterp spec fn unicode_is_lowercase(c: char) -> bool;

/// Unicode's `Uppercase` property of a non-ASCII character.
pub uninterp spec fn unicode_is_uppercase(c: char) -> bool;

/// Unicode's lower-case mapping of a non-ASCII character (one or more
/// characters).
pub uninterp spec fn unicode_lowercase(c: char) -> Seq<char>;

/// Unicode's upper-case mapping of a non-ASCII character (one or more
/// characters).
pub uninterp spec fn unicode_uppercase(c: char) -> Seq<char>;

/// Whether `c` is an ASCII character.
pub open spec fn is_ascii_char(c: char) -> bool {
    (c as int) < 128
}

/// ASCII upper-casing: `'a'..='z'` map to `'A'..='Z'`, every other
/// character is left as it is.
pub open spec fn ascii_upper(c: char) -> char {
    if 'a' <= c && c <= 'z' {
        ((c as int) - 32) as char
    } else {
        c
    }
}

/// ASCII lower-casing: `'A'..='Z'` map to `'a'..='z'`, every other
/// character is left as it is.
pub open spec fn ascii_lower(c: char) -> char {
    if 'A' <= c && c <= 'Z' {
        ((c as int) + 32) as char
    } else {
        c
    }
}

/// Whether `c` is a letter or a digit.
pub open spec fn is_alphanumeric(c: char) -> bool {
    if is_ascii_char(c) {
        ('a' <= c && c <= 'z') || ('A' <= c && c <= 'Z') || ('0' <= c && c <= '9')
    } else {
        unicode_is_alphanumeric(c)
    }
}

/// Whether `c` is a lower-case letter.
pub open spec fn is_lowercase(c: char) -> bool {
    if is_ascii_char(c) {
        'a' <= c && c <= 'z'
    } else {
        unicode_is_lowercase(c)
    }
}

/// Whether `c` is an upper-case letter.
pub open spec fn is_uppercase(c: char) -> bool {
    if is_ascii_char(c) {
        'A' <= c && c <= 'Z'
    } else {
        unicode_is_uppercase(c)
    }
}

/// The lower-case form of `c`.
pub open spec fn lowercase(c: char) -> Seq<char> {
    if is_ascii_char(c) {
        seq![ascii_lower(c)]
    } else {
        unicode_lowercase(c)
    }
}

/// The upper-case form of `c`.
pub open spec fn uppercase(c: char) -> Seq<char> {
    if is_ascii_char(c) {
        seq![ascii_upper(c)]
    } else {
        unicode_uppercase(c)
    }
}

/// Where the first word of `s` may start: after a leading `_` or `$`.
pub open spec fn first_word_index(s: Seq<char>) -> int {
    if s.len() > 0 && (s[0] == '_' || s[0] == '$') {
        1
    } else {
        0
    }
}

/// A `_` or `$` at the very start or end of `s`, which is kept as it is.
pub open spec fn is_kept_mark(s: Seq<char>, k: int) -> bool {
    (k == 0 || k == s.len() - 1) && (s[k] == '_' || s[k] == '$')
}

/// Whether the letter or digit at `k` starts a word: it follows a separator
/// (a character, not kept, that is no letter or digit), it is upper case
/// after a lower-case letter, or it is an upper-case letter (not at the
/// first word's start) followed by a lower-case one.
pub open spec fn starts_word(s: Seq<char>, k: int) -> bool {
    ||| (k > 0 && !is_kept_mark(s, k - 1) && !is_alphanumeric(s[k - 1]))
    ||| (k > 0 && !is_kept_mark(s, k - 1) && is_alphanumeric(s[k - 1]) && is_lowercase(s[k - 1])
        && is_uppercase(s[k]))
    ||| (k + 1 < s.len() && k != first_word_index(s) && is_uppercase(s[k]) && is_lowercase(
        s[k + 1],
    ))
}

/// What the character at `k` becomes: a kept mark stays, a separator is
/// dropped, the first letter of a word other than the first is upper-cased,
/// and every other letter or digit is lower-cased.
pub open spec fn converted_char(s: Seq<char>, k: int) -> Seq<char> {
    if is_kept_mark(s, k) {
        seq![s[k]]
    } else if !is_alphanumeric(s[k]) {
        seq![]
    } else if starts_word(s, k) && k != first_word_index(s) {
        uppercase(s[k])
    } else {
        lowercase(s[k])
    }
}

/// The converted characters of the first `k` characters of `s`.
pub open spec fn camel_case_prefix(s: Seq<char>, k: int) -> Seq<char>
    decreases k,
{
    if k <= 0 {
        seq![]
    } else {
        camel_case_prefix(s, k - 1) + converted_char(s, k - 1)
    }
}

/// The camel case of `s`.
pub open spec fn camel_case(s: Seq<char>) -> Seq<char> {
    camel_case_prefix(s, s.len() as int)
}

/// `char::is_alphanumeric`: whether the character has Unicode's
/// `Alphabetic` or `Numeric` property; for ASCII, the letters and digits.
#[verifier::external_body]
fn char_is_alphanumeric(c: char) -> (r: bool)
    ensures
        r == is_alphanumeric(c),
        !is_ascii_char(c) ==> r == unicode_is_alphanumeric(c),
{
    c.is_alphanumeric()
}

/// `char::is_lowercase`: whether the character has Unicode's `Lowercase`
/// property; for ASCII, `'a'..='z'`.
#[verifier::external_body]
fn char_is_lowercase(c: char) -> (r: bool)
    ensures
        r == is_lowercase(c),
        !is_ascii_char(c) ==> r == unicode_is_lowercase(c),
{
    c.is_lowercase()
}

/// `char::is_uppercase`: whether the character has Unicode's `Uppercase`
/// property; for ASCII, `'A'..='Z'`.
#[verifier::external_body]
fn char_is_uppercase(c: char) -> (r: bool)
    ensures
        r == is_uppercase(c),
        !is_ascii_char(c) ==> r == unicode_is_uppercase(c),
{
    c.is_uppercase()
}

/// `char::to_lowercase`, collected into a string: Unicode's lower-case
/// mapping; for an ASCII character, its ASCII lower case.
#[verifier::external_body]
fn char_to_lowercase(c: char) -> (r: String)
    ensures
        r@ == lowercase(c),
        !is_ascii_char(c) ==> r@ == unicode_lowercase(c),
{
    c.to_lowercase().collect()
}

/// `char::to_uppercase`, collected into a string: Unicode's upper-case
/// mapping; for an ASCII character, its ASCII upper case.
#[verifier::external_body]
fn char_to_uppercase(c: char) -> (r: String)
    ensures
        r@ == uppercase(c),
        !is_ascii_char(c) ==> r@ == unicode_uppercase(c),
{
    c.to_uppercase().collect()
}

/// `String::push`: appends one character at the end of the string.
#[verifier::external_body]
fn string_push(s: &mut String, c: char)
    ensures
        final(s)@ == old(s)@.push(c),
{
    s.push(c)
}

/// Converts a method name to the camel-case name under which the
/// workspace exposes it.
pub fn to_camel_case(name: &str) -> (res: String)
    ensures
        res@ == camel_case(name@),
{
    let ghost s = name@;
    let n = name.unicode_len();
    let first_word: usize = if n > 0 && (name.get_char(0) == '_' || name.get_char(0) == '$') {
        1
    } else {
        0
    };
    let mut out = String::new();
    let mut i: usize = 0;
    while i < n
        invariant
            s == name@,
            n == s.len(),
            i <= n,
            first_word == first_word_index(s),
            out@ == camel_case_prefix(s, i as int),
        decreases n - i,
    {
        let c = name.get_char(i);
        let kept = (i == 0 || i + 1 == n) && (c == '_' || c == '$');
        if kept {
            string_push(&mut out, c);
        } else if char_is_alphanumeric(c) {
            let mut start = false;
            if i > 0 {
                let p = name.get_char(i - 1);
                let p_kept = i - 1 == 0 && (p == '_' || p == '$');
                if !p_kept {
                    if !char_is_alphanumeric(p) {
                        start = true;
                    } else if char_is_lowercase(p) && char_is_uppercase(c) {
                        start = true;
                    }
                }
            }
            if i + 1 < n && i != first_word && !start {
                let q = name.get_char(i + 1);
                if char_is_uppercase(c) && char_is_lowercase(q) {
                    start = true;
                }
            }
            assert(start == starts_word(s, i as int));
            if start && i != first_word {
                let u = char_to_uppercase(c);
                out.append(u.as_str());
            } else {
                let l = char_to_lowercase(c);
                out.append(l.as_str());
            }
        }
        assert(out@ == camel_case_prefix(s, i as int) + converted_char(s, i as int));
        i = i + 1;
    }
    out
}

/// Whether `c` may appear in a lower-case snake-case name.
pub open spec fn is_snake_char(c: char) -> bool {
    ('a' <= c && c <= 'z') || ('0' <= c && c <= '9') || c == '_'
}

/// A lower-case snake-case name with each `_` dropped and the character
/// after it upper-cased.
pub open spec fn snake_to_camel(s: Seq<char>) -> Seq<char>
    decreases s.len(),
{
    if s.len() == 0 {
        seq![]
    } else {
        let prefix = snake_to_camel(s.drop_last());
        let c = s.last();
        if c == '_' {
            prefix
        } else if s.len() >= 2 && s[s.len() - 2] == '_' {
            prefix.push(ascii_upper(c))
        } else {
            prefix.push(c)
        }
    }
}

proof fn lemma_snake_prefix(s: Seq<char>, k: int)
    requires
        forall|i: int| 0 <= i < s.len() ==> is_snake_char(#[trigger] s[i]),
        s.len() > 0 ==> s[0] != '_' && s[s.len() - 1] != '_',
        0 <= k <= s.len(),
    ensures
        camel_case_prefix(s, k) == snake_to_camel(s.take(k)),
    decreases k,
{
    if k == 0 {
        assert(s.take(0) =~= Seq::<char>::empty());
    } else {
        lemma_snake_prefix(s, k - 1);
        let t = s.take(k);
        assert(t.drop_last() =~= s.take(k - 1));
        let c = s[k - 1];
        assert(is_snake_char(c));
        assert(t.last() == c);
        assert(first_word_index(s) == 0);
        if k >= 2 {
            assert(t[t.len() - 2] == s[k - 2]);
            assert(is_snake_char(s[k - 2]));
        }
        if c != '_' {
            assert(is_ascii_char(c));
            assert(!is_uppercase(c));
            assert(ascii_lower(c) == c);
        }
    }
}

/// On a lower-case snake-case name (letters `a` to `z`, digits and `_`,
/// neither starting nor ending with `_`), the camel case drops every `_`
/// and upper-cases the character that follows it; all else is kept.
pub proof fn camel_case_of_snake_case_names(s: Seq<char>)
    requires
        forall|i: int| 0 <= i < s.len() ==> is_snake_char(#[trigger] s[i]),
        s.len() > 0 ==> s[0] != '_' && s[s.len() - 1] != '_',
    ensures
        camel_case(s) == snake_to_camel(s),
{
    lemma_snake_prefix(s, s.len() as int);
    assert(s.take(s.len() as int) =~= s);
}

} // verus!
