//! Links to subreddits: a message that names `r/something` is answered with a link
//! to it.

use vstd::prelude::*;
use crate::message_change::ascii_lower;
use crate::custom::same_text;
use crate::text::{is_whitespace, whitespace, push_char};

verus! {

/// What `str::to_lowercase` returns for `s`.
pub uninterp spec fn lowercase_of(s: Seq<char>) -> Seq<char>;

/// `str::to_lowercase`. Its contract names the result `lowercase_of(s)`, one value
/// per text, and states what the documentation gives for ASCII text: each letter
/// in lower case, every other character unchanged.
#[verifier::external_body]
pub(crate) fn lowercase(s: &str) -> (r: String)
    ensures
        r@ == lowercase_of(s@),
        (forall|i: int| 0 <= i < s@.len() ==> (#[trigger] s@[i] as u32) < 128) ==> r@ == s@.map_values(
            |c: char| ascii_lower(c),
        ),
{
    s.to_lowercase()
}

/// Whether `n` occurs in `h` at position `i`.
pub open spec fn occurs_at(h: Seq<char>, n: Seq<char>, i: int) -> bool {
    0 <= i && i + n.len() <= h.len() && h.subrange(i, i + n.len()) == n
}

/// Whether `n` occurs in `h`.
pub open spec fn contains(h: Seq<char>, n: Seq<char>) -> bool {
    exists|i: int| #[trigger] occurs_at(h, n, i)
}

/// `str::contains` for a text pattern.
pub fn contains_text(h: &str, n: &str) -> (b: bool)
    ensures
        b == contains(h@, n@),
{
    let hl = h.unicode_len();
    let nl = n.unicode_len();
    if nl > hl {
        assert forall|i: int| !occurs_at(h@, n@, i) by {}
        return false;
    }
    let last = hl - nl;
    let mut i: usize = 0;
    loop
        invariant
            hl == h@.len(),
            nl == n@.len(),
            last == hl - nl,
            i <= last,
            forall|j: int| 0 <= j < i ==> !occurs_at(h@, n@, j),
        decreases last - i,
    {
        let part = h.substring_char(i, i + nl);
        if same_text(part, n) {
            assert(occurs_at(h@, n@, i as int));
            return true;
        }
        if i == last {
            assert forall|j: int| !occurs_at(h@, n@, j) by {
                if 0 <= j <= i {
                }
            }
            return false;
        }
        i = i + 1;
    }
}

/// How many bytes `char::len_utf8` gives a character in UTF-8.
pub open spec fn utf8_width(c: char) -> nat {
    if (c as u32) < 0x80 {
        1
    } else if (c as u32) < 0x800 {
        2
    } else if (c as u32) < 0x10000 {
        3
    } else {
        4
    }
}

/// The length in bytes of a text in UTF-8.
pub open spec fn byte_len(s: Seq<char>) -> nat
    decreases s.len(),
{
    if s.len() == 0 {
        0
    } else {
        byte_len(s.drop_last()) + utf8_width(s.last())
    }
}

proof fn lemma_byte_len_prefix(s: Seq<char>, j: int, k: int)
    requires
        0 <= j <= k <= s.len(),
    ensures
        byte_len(s.take(j)) <= byte_len(s.take(k)),
        j < k ==> byte_len(s.take(j)) < byte_len(s.take(k)),
    decreases k - j,
{
    if j < k {
        assert(s.take(k).drop_last() =~= s.take(k - 1));
        lemma_byte_len_prefix(s, j, k - 1);
    }
}

fn char_width(c: char) -> (w: usize)
    ensures
        w == utf8_width(c),
{
    if (c as u32) < 0x80 {
        1
    } else if (c as u32) < 0x800 {
        2
    } else if (c as u32) < 0x10000 {
        3
    } else {
        4
    }
}

/// The first position from `i` on where `r/` stands.
pub open spec fn find_rs(s: Seq<char>, i: int) -> Option<int>
    decreases s.len() - i,
{
    if i < 0 || i + 1 >= s.len() {
        None
    } else if s[i] == 'r' && s[i + 1] == '/' {
        Some(i)
    } else {
        find_rs(s, i + 1)
    }
}

/// The characters of `s` up to its first space.
pub open spec fn until_space(s: Seq<char>) -> Seq<char>
    decreases s.len(),
{
    if s.len() == 0 || s[0] == ' ' {
        Seq::empty()
    } else {
        seq![s[0]] + until_space(s.drop_first())
    }
}

/// Whether the message mentions reddit by its own link, in any case.
pub open spec fn links_reddit(content: Seq<char>) -> bool {
    contains(lowercase_of(content), "://reddit.com"@)
}

/// The byte offset at which `str::find` finds the first `r/`, if there is one.
pub open spec fn rs_offset(content: Seq<char>) -> Option<int> {
    match find_rs(content, 0) {
        Some(k) => Some(byte_len(content.take(k)) as int),
        None => None,
    }
}

/// The message is read with a byte offset where a character position is meant: the
/// character before the offset of `r/` does not exist when the text before it holds
/// too many bytes for its characters. Such a message makes the handler panic.
pub open spec fn subreddit_panics(content: Seq<char>) -> bool {
    !links_reddit(content) && match rs_offset(content) {
        Some(l) => l > 0 && l - 1 >= content.len(),
        None => false,
    }
}

/// The reply to a message: a link to the subreddit named after the first `r/`, when
/// that `r/` begins the message or follows whitespace, and the message holds no
/// link to reddit. The `r/` is found by its byte offset, and that offset is used as a
/// character position both to look at the character before it and to read the name,
/// which runs to the next space.
pub open spec fn subreddit_reply(content: Seq<char>) -> Option<Seq<char>> {
    if links_reddit(content) {
        None
    } else {
        match rs_offset(content) {
            None => None,
            Some(l) => if l == 0 || whitespace(content[l - 1]) {
                let rest = if l + 2 <= content.len() { content.skip(l + 2) } else { Seq::empty() };
                Some("<https://reddit.com/r/"@ + until_space(rest) + ">"@)
            } else {
                None
            },
        }
    }
}

/// The first position from `i` on where `r/` stands.
fn first_rs(s: &str, from: usize) -> (r: Option<usize>)
    requires
        from <= s@.len(),
    ensures
        match r {
            Some(k) => find_rs(s@, from as int) == Some(k as int) && k + 1 < s@.len(),
            None => find_rs(s@, from as int) is None,
        },
    decreases s@.len() - from,
{
    let n = s.unicode_len();
    if n < 2 || from >= n - 1 {
        return None;
    }
    if s.get_char(from) == 'r' && s.get_char(from + 1) == '/' {
        Some(from)
    } else {
        first_rs(s, from + 1)
    }
}

/// The bytes of the first `k` characters.
fn prefix_bytes(s: &str, k: usize, bound: usize) -> (l: usize)
    requires
        k <= s@.len(),
        byte_len(s@.take(k as int)) <= bound,
    ensures
        l == byte_len(s@.take(k as int)),
{
    let mut l: usize = 0;
    let mut i: usize = 0;
    while i < k
        invariant
            i <= k <= s@.len(),
            byte_len(s@.take(k as int)) <= bound,
            l == byte_len(s@.take(i as int)),
        decreases k - i,
    {
        proof {
            lemma_byte_len_prefix(s@, i + 1, k as int);
            assert(s@.take(i + 1).drop_last() =~= s@.take(i as int));
        }
        l = l + char_width(s.get_char(i));
        i = i + 1;
    }
    l
}

/// Whether the first `k` characters take more than `bound` bytes.
fn prefix_exceeds(s: &str, k: usize, bound: usize) -> (b: bool)
    requires
        k <= s@.len(),
    ensures
        b == (byte_len(s@.take(k as int)) > bound),
{
    let mut l: usize = 0;
    let mut i: usize = 0;
    while i < k
        invariant
            i <= k <= s@.len(),
            l == byte_len(s@.take(i as int)),
            l <= bound,
        decreases k - i,
    {
        proof {
            lemma_byte_len_prefix(s@, i + 1, k as int);
            assert(s@.take(i + 1).drop_last() =~= s@.take(i as int));
        }
        let w = char_width(s.get_char(i));
        if w > bound - l {
            return true;
        }
        l = l + w;
        i = i + 1;
    }
    false
}

/// The characters of `s` from `start` up to the next space.
fn name_from(s: &str, start: usize) -> (r: String)
    requires
        start <= s@.len(),
    ensures
        r@ == until_space(s@.skip(start as int)),
{
    let n = s.unicode_len();
    let mut r = String::new();
    let mut i: usize = start;
    while i < n && s.get_char(i) != ' '
        invariant
            start <= i <= n,
            n == s@.len(),
            until_space(s@.skip(start as int)) == r@ + until_space(s@.skip(i as int)),
        decreases n - i,
    {
        let c = s.get_char(i);
        assert(s@.skip(i as int).drop_first() =~= s@.skip(i + 1));
        assert(s@.skip(i as int)[0] == c);
        push_char(&mut r, c);
        i = i + 1;
    }
    assert(until_space(s@.skip(i as int)) =~= Seq::<char>::empty()) by {
        if i < n {
            assert(s@.skip(i as int)[0] == s@[i as int]);
        }
    }
    r
}

/// The handler of every message, for any message: `None` for a message that makes
/// the handler panic (see `subreddit_panics`), and otherwise the link to the
/// subreddit the message names, if it names one.
pub fn subreddit_check(content: &str) -> (r: Option<Option<String>>)
    ensures
        r is None <==> subreddit_panics(content@),
        match r {
            Some(Some(link)) => subreddit_reply(content@) == Some(link@),
            Some(None) => subreddit_reply(content@) is None,
            None => true,
        },
{
    let lower = lowercase(content);
    if !contains_text(lower.as_str(), "://reddit.com") {
        match first_rs(content, 0) {
            Some(k) => {
                if prefix_exceeds(content, k, content.unicode_len()) {
                    return None;
                }
            },
            None => {},
        }
    }
    Some(subreddit_link(content))
}

/// The handler of every message: the link to the subreddit the message names, if it
/// names one (see `subreddit_reply`).
pub fn subreddit_link(content: &str) -> (r: Option<String>)
    requires
        !subreddit_panics(content@),
    ensures
        match subreddit_reply(content@) {
            Some(m) => r matches Some(s) && s@ == m,
            None => r is None,
        },
{
    let lower = lowercase(content);
    if contains_text(lower.as_str(), "://reddit.com") {
        return None;
    }
    let n = content.unicode_len();
    let k = match first_rs(content, 0) {
        Some(k) => k,
        None => return None,
    };
    let l: usize = if k == 0 {
        0
    } else {
        proof {
            lemma_byte_len_prefix(content@, 0, k as int);
        }
        prefix_bytes(content, k, n)
    };
    proof {
        if k > 0 {
            lemma_byte_len_prefix(content@, 0, k as int);
        } else {
            assert(content@.take(0) =~= Seq::<char>::empty());
        }
    }
    if l == 0 || is_whitespace(content.get_char(l - 1)) {
        let name = if n >= 2 && l <= n - 2 { name_from(content, l + 2) } else { String::new() };
        let mut reply = "<https://reddit.com/r/".to_string();
        reply.append(name.as_str());
        reply.append(">");
        Some(reply)
    } else {
        None
    }
}

} // verus!
