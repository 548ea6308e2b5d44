//! Text transformations: sarcasm case, owo speak, and the pipes of custom commands.

use vstd::prelude::*;
use crate::text::push_char;
use owoify_rs::Owoifiable;

verus! {

/// What `char::to_uppercase` yields first for `c`.
pub uninterp spec fn upper_of(c: char) -> char;

/// What `char::to_lowercase` yields first for `c`.
pub uninterp spec fn lower_of(c: char) -> char;

/// ASCII upper case: `a`..=`z` become `A`..=`Z`, every other character stays.
pub open spec fn ascii_upper(c: char) -> char {
    if 'a' <= c && c <= 'z' { ((c as u32) - 32) as char } else { c }
}

/// ASCII lower case: `A`..=`Z` become `a`..=`z`, every other character stays.
pub open spec fn ascii_lower(c: char) -> char {
    if 'A' <= c && c <= 'Z' { ((c as u32) + 32) as char } else { c }
}

/// The first character of `char::to_uppercase(c)` (the iterator always yields one).
/// The contract names the result `upper_of(c)`, one value per character, and states
/// what the documentation gives for ASCII: the ASCII upper case.
#[verifier::external_body]
pub(crate) fn uppercase_first(c: char) -> (r: char)
    ensures
        r == upper_of(c),
        (c as u32) < 128 ==> r == ascii_upper(c),
{
    c.to_uppercase().nth(0).unwrap_or(c)
}

/// The first character of `char::to_lowercase(c)` (the iterator always yields one).
/// The contract names the result `lower_of(c)`, one value per character, and states
/// what the documentation gives for ASCII: the ASCII lower case.
#[verifier::external_body]
pub(crate) fn lowercase_first(c: char) -> (r: char)
    ensures
        r == lower_of(c),
        (c as u32) < 128 ==> r == ascii_lower(c),
{
    c.to_lowercase().nth(0).unwrap_or(c)
}

/// An ASCII letter.
pub open spec fn ascii_letter(c: char) -> bool {
    ('a' <= c && c <= 'z') || ('A' <= c && c <= 'Z')
}

/// What `char::is_alphabetic` returns for `c`.
pub uninterp spec fn alphabetic(c: char) -> bool;

/// `char::is_alphabetic`. The contract names the result `alphabetic(c)`, one value
/// per character, and states what the documentation gives for ASCII: exactly the
/// letters `a`..=`z` and `A`..=`Z` are alphabetic.
#[verifier::external_body]
pub(crate) fn is_alphabetic(c: char) -> (b: bool)
    ensures
        b == alphabetic(c),
        (c as u32) < 128 ==> (b <==> ascii_letter(c)),
{
    c.is_alphabetic()
}

/// A letter: an ASCII letter, or a character outside ASCII that is alphabetic.
pub open spec fn is_letter(c: char) -> bool {
    if (c as u32) < 128 { ascii_letter(c) } else { alphabetic(c) }
}

/// A character in upper case: ASCII by its table, any other by `char::to_uppercase`.
pub open spec fn up(c: char) -> char {
    if (c as u32) < 128 { ascii_upper(c) } else { upper_of(c) }
}

/// A character in lower case: ASCII by its table, any other by `char::to_lowercase`.
pub open spec fn low(c: char) -> char {
    if (c as u32) < 128 { ascii_lower(c) } else { lower_of(c) }
}

/// How many letters come before position `i`.
pub open spec fn letters_before(s: Seq<char>, i: int) -> nat
    decreases i,
{
    if i <= 0 {
        0
    } else {
        letters_before(s, i - 1) + (if is_letter(s[i - 1]) { 1nat } else { 0nat })
    }
}

/// tExT lIkE tHiS: the letters alternate between lower and upper case, the first in
/// lower case; whatever is no letter stays as it is and does not count.
pub open spec fn sarcastic(s: Seq<char>) -> Seq<char> {
    Seq::new(
        s.len(),
        |i: int|
            if !is_letter(s[i]) {
                s[i]
            } else if letters_before(s, i) % 2 == 1 {
                up(s[i])
            } else {
                low(s[i])
            },
    )
}

fn letter(c: char) -> (b: bool)
    ensures
        b == is_letter(c),
{
    if (c as u32) < 128 {
        ('a' <= c && c <= 'z') || ('A' <= c && c <= 'Z')
    } else {
        is_alphabetic(c)
    }
}

fn to_up(c: char) -> (r: char)
    ensures
        r == up(c),
{
    if (c as u32) < 128 {
        if 'a' <= c && c <= 'z' { (((c as u32) - 32) as u8) as char } else { c }
    } else {
        uppercase_first(c)
    }
}

fn to_low(c: char) -> (r: char)
    ensures
        r == low(c),
{
    if (c as u32) < 128 {
        if 'A' <= c && c <= 'Z' { (((c as u32) + 32) as u8) as char } else { c }
    } else {
        lowercase_first(c)
    }
}

/// Alternates the case of the letters, starting in lower case.
pub fn sarcastify(to_sarc: &str) -> (sarcasted: String)
    ensures
        sarcasted@ == sarcastic(to_sarc@),
{
    let mut sarcasted = String::new();
    let mut odd: bool = false;
    let n = to_sarc.unicode_len();
    let mut i: usize = 0;
    while i < n
        invariant
            i <= n,
            n == to_sarc@.len(),
            odd == (letters_before(to_sarc@, i as int) % 2 == 1),
            sarcasted@ == sarcastic(to_sarc@).take(i as int),
        decreases n - i,
    {
        let cur = to_sarc.get_char(i);
        let to_push = if !letter(cur) {
            cur
        } else if odd {
            to_up(cur)
        } else {
            to_low(cur)
        };
        if letter(cur) {
            odd = !odd;
        }
        push_char(&mut sarcasted, to_push);
        assert(sarcastic(to_sarc@).take(i + 1) =~= sarcastic(to_sarc@).take(i as int).push(to_push));
        i = i + 1;
    }
    assert(sarcastic(to_sarc@).take(n as int) =~= sarcastic(to_sarc@));
    sarcasted
}

/// Every character is ASCII.
pub open spec fn all_ascii(s: Seq<char>) -> bool {
    forall|i: int| 0 <= i < s.len() ==> (#[trigger] s[i] as u32) < 128
}

/// The ASCII case table keeps ASCII text ASCII and letters letters, and applying it
/// twice is applying it once.
pub proof fn lemma_ascii_case(c: char)
    requires
        (c as u32) < 128,
    ensures
        (up(c) as u32) < 128,
        (low(c) as u32) < 128,
        is_letter(up(c)) == is_letter(c),
        is_letter(low(c)) == is_letter(c),
        up(up(c)) == up(c),
        up(low(c)) == up(c),
        low(up(c)) == low(c),
        low(low(c)) == low(c),
        !is_letter(c) ==> up(c) == c && low(c) == c,
{
}

proof fn lemma_letters_before_same(s: Seq<char>, t: Seq<char>, i: int)
    requires
        s.len() == t.len(),
        0 <= i <= s.len(),
        forall|j: int| 0 <= j < s.len() ==> is_letter(#[trigger] s[j]) == is_letter(t[j]),
    ensures
        letters_before(s, i) == letters_before(t, i),
    decreases i,
{
    if i > 0 {
        lemma_letters_before_same(s, t, i - 1);
        assert(is_letter(s[i - 1]) == is_letter(t[i - 1]));
    }
}

/// For ASCII text, sarcasm case depends only on the letters, not on their case, and
/// once applied it stays: applying it again, or to the text in upper or lower case
/// first, gives the same text.
pub proof fn lemma_sarcasm_settles(s: Seq<char>)
    requires
        all_ascii(s),
    ensures
        sarcastic(sarcastic(s)) == sarcastic(s),
        sarcastic(s.map_values(|c: char| ascii_upper(c))) == sarcastic(s),
        sarcastic(s.map_values(|c: char| ascii_lower(c))) == sarcastic(s),
{
    let t = sarcastic(s);
    let u = s.map_values(|c: char| ascii_upper(c));
    let l = s.map_values(|c: char| ascii_lower(c));
    assert forall|j: int| 0 <= j < s.len() implies is_letter(#[trigger] s[j]) == is_letter(t[j])
        && is_letter(s[j]) == is_letter(u[j]) && is_letter(s[j]) == is_letter(l[j]) by {
        lemma_ascii_case(s[j]);
        assert(u[j] == up(s[j]));
        assert(l[j] == low(s[j]));
    }
    assert forall|i: int| 0 <= i < s.len() implies #[trigger] sarcastic(t)[i] == t[i] && sarcastic(u)[i] == t[i]
        && sarcastic(l)[i] == t[i] by {
        lemma_ascii_case(s[i]);
        assert(u[i] == up(s[i]));
        assert(l[i] == low(s[i]));
        lemma_letters_before_same(s, t, i);
        lemma_letters_before_same(s, u, i);
        lemma_letters_before_same(s, l, i);
    }
    assert(sarcastic(t) =~= t);
    assert(sarcastic(u) =~= t);
    assert(sarcastic(l) =~= t);
}

/// `text` signed with the author's name: `@name: text`.
pub open spec fn signed_text(author: Seq<char>, text: Seq<char>) -> Seq<char> {
    seq!['@'] + author + ": "@ + text
}

/// Puts `@author: ` in front of the text, as the message-changing commands do.
pub fn sign_with_author(author: &str, text: &str) -> (r: String)
    ensures
        r@ == signed_text(author@, text@),
{
    let mut r = String::new();
    push_char(&mut r, '@');
    r.append(author);
    r.append(": ");
    r.append(text);
    assert(r@ =~= signed_text(author@, text@));
    r
}

/// The reply of `^sarcasm`: the author's signature and the text in sarcasm case.
pub fn sarcasm_reply(author: &str, text: &str) -> (r: String)
    ensures
        r@ == signed_text(author@, sarcastic(text@)),
{
    let s = sarcastify(text);
    sign_with_author(author, s.as_str())
}

/// An ASCII letter or digit.
pub open spec fn is_alnum(c: char) -> bool {
    ('a' <= c && c <= 'z') || ('A' <= c && c <= 'Z') || ('0' <= c && c <= '9')
}

/// The text that serenity's `MessageBuilder::push_bold_safe` puts between its `**`
/// for `s`: `s` with invite links and mentions of everyone defused, some invisible
/// characters replaced by spaces, and `**` replaced by a space.
pub uninterp spec fn bold_safe_inner(s: Seq<char>) -> Seq<char>;

/// `MessageBuilder::new().push_bold_safe(s).build()` of serenity: `s` in bold, made
/// safe. The contract says that the result is `**`, the name `bold_safe_inner(s)`
/// and `**`, and, as the source shows (every replacement involves a character that
/// is no ASCII letter or digit), that text of ASCII letters and digits stays as it is.
#[verifier::external_body]
pub(crate) fn bold_safe(s: &str) -> (r: String)
    ensures
        r@ == "**"@ + bold_safe_inner(s@) + "**"@,
        (forall|i: int| 0 <= i < s@.len() ==> is_alnum(#[trigger] s@[i])) ==> r@ == "**"@ + s@ + "**"@,
{
    serenity::utils::MessageBuilder::new().push_bold_safe(s).build()
}

/// How strongly text is owoified, from the lowest to the highest.
#[derive(Clone, Copy, PartialEq, Eq, Debug, Structural)]
pub enum OwoLevel {
    Owo,
    Uwu,
    Uvu,
}

/// The number of a level, from the lowest (0) to the highest (2).
pub open spec fn level_code(level: OwoLevel) -> int {
    match level {
        OwoLevel::Owo => 0,
        OwoLevel::Uwu => 1,
        OwoLevel::Uvu => 2,
    }
}

/// Whether owoify_rs can give `result` when it owoifies `text` at the level of number
/// `level`: the set of its possible results, as some of its replacements are drawn
/// at random.
pub uninterp spec fn owoify_gives(text: Seq<char>, level: int, result: Seq<char>) -> bool;

/// `Owoifiable::owoify` of owoify_rs on a `&str`. The crate picks some replacements
/// at random (a coin for "ove", random faces), so the contract does not say which
/// text comes out, only that it is one that owoify_rs can give for this text at
/// this level (`owoify_gives`).
#[verifier::external_body]
pub(crate) fn owoify(text: &str, level: OwoLevel) -> (r: String)
    ensures
        owoify_gives(text@, level_code(level), r@),
{
    let level = match level {
        OwoLevel::Owo => owoify_rs::OwoifyLevel::Owo,
        OwoLevel::Uwu => owoify_rs::OwoifyLevel::Uwu,
        OwoLevel::Uvu => owoify_rs::OwoifyLevel::Uvu,
    };
    text.owoify(level)
}

/// The reply of `^owo`: the author's signature and the text owoified at the uwu level.
pub fn owo_reply(author: &str, text: &str) -> (r: String)
    ensures
        exists|o: Seq<char>| #[trigger] owoify_gives(text@, 1, o) && r@ == signed_text(author@, o),
{
    let s = owoify(text, OwoLevel::Uwu);
    sign_with_author(author, s.as_str())
}

} // verus!
