//! xkcd comics and Wikipedia searches: which page to ask for, and the texts made of
//! the answer.

use vstd::prelude::*;
use crate::custom::same_text;
use crate::random::random_u32;
use crate::text::{parse_u32, parsed_in_range, push_u64, dec, trim, trimmed};

verus! {

/// What serde_json gives for the field `key` of the JSON text `body`: `None` where
/// `body` is no JSON, else the field as `Value::to_string` writes it (`null` where
/// the top-level value has no such field).
pub uninterp spec fn json_field_of(body: Seq<char>, key: Seq<char>) -> Option<Seq<char>>;

/// Parses `body` with `serde_json::from_str::<Value>` and writes its field `key` with
/// `Value::to_string`. The contract names the result `json_field_of(body, key)`, and
/// states what the source shows: whether the text parses does not depend on the
/// key, so either every field is read or none.
#[verifier::external_body]
pub(crate) fn json_field(body: &str, key: &str) -> (r: Option<String>)
    ensures
        match r {
            Some(t) => json_field_of(body@, key@) == Some(t@),
            None => json_field_of(body@, key@) is None,
        },
        r is Some ==> forall|k: Seq<char>| #[trigger] json_field_of(body@, k) is Some,
        r is None ==> forall|k: Seq<char>| #[trigger] json_field_of(body@, k) is None,
{
    match serde_json::from_str::<serde_json::Value>(body) {
        Ok(v) => Some(v[key].to_string()),
        Err(_) => None,
    }
}

/// What serde_json gives for the pages of a Wikipedia search answer `body`: `None`
/// where `body` is no JSON; `Some(None)` where `query.pages` is no JSON object; else
/// each page's key and its field `title` as `Value::to_string` writes it, in the
/// order the object is walked.
pub uninterp spec fn json_pages_of(body: Seq<char>) -> Option<Option<Seq<(Seq<char>, Seq<char>)>>>;

/// The pages as texts.
pub open spec fn pages_view(v: Seq<(String, String)>) -> Seq<(Seq<char>, Seq<char>)> {
    v.map_values(|p: (String, String)| (p.0@, p.1@))
}

/// Parses `body` with `serde_json::from_str::<Value>` and lists the entries of
/// `query.pages` with `Value::as_object`. The contract names the result
/// `json_pages_of(body)`; the object's order is a function of the text.
#[verifier::external_body]
pub(crate) fn json_pages(body: &str) -> (r: Option<Option<Vec<(String, String)>>>)
    ensures
        match r {
            None => json_pages_of(body@) is None,
            Some(None) => json_pages_of(body@) == Some(None::<Seq<(Seq<char>, Seq<char>)>>),
            Some(Some(v)) => json_pages_of(body@) == Some(Some(pages_view(v@))),
        },
{
    match serde_json::from_str::<serde_json::Value>(body) {
        Ok(v) => match v["query"]["pages"].as_object() {
            Some(m) => Some(Some(m.iter().map(|(k, p)| (k.clone(), p["title"].to_string())).collect())),
            None => Some(None),
        },
        Err(_) => None,
    }
}

/// What serde_json gives for the address of page `id` in a Wikipedia page answer
/// `body`: `None` where `body` is no JSON; else `query.pages.<id>.fullurl` when it is a
/// JSON string, `Some(None)` when it is not.
pub uninterp spec fn json_page_url_of(body: Seq<char>, id: Seq<char>) -> Option<Option<Seq<char>>>;

/// Parses `body` with `serde_json::from_str::<Value>` and reads
/// `query.pages.<id>.fullurl` with `Value::as_str`. The contract names the result
/// `json_page_url_of(body, id)`.
#[verifier::external_body]
pub(crate) fn json_page_url(body: &str, id: &str) -> (r: Option<Option<String>>)
    ensures
        match r {
            None => json_page_url_of(body@, id@) is None,
            Some(None) => json_page_url_of(body@, id@) == Some(None::<Seq<char>>),
            Some(Some(u)) => json_page_url_of(body@, id@) == Some(Some(u@)),
        },
{
    match serde_json::from_str::<serde_json::Value>(body) {
        Ok(v) => Some(v["query"]["pages"][id]["fullurl"].as_str().map(|u| u.to_string())),
        Err(_) => None,
    }
}

/// Why an answer of xkcd or Wikipedia cannot be used.
#[derive(Clone, Copy, PartialEq, Eq, Debug, Structural)]
pub enum AnswerError {
    /// The answer is no JSON.
    NotJson,
    /// A field is missing or not of the kind the bot reads (a number where a text is
    /// read, no address where one is read).
    Malformed,
}

/// A text that `rjq` can take: at least two characters, the first and the last
/// ASCII (each is then one byte, as the quotes of a JSON string are).
pub open spec fn quoted(s: Seq<char>) -> bool {
    s.len() >= 2 && (s[0] as u32) < 128 && (s[s.len() - 1] as u32) < 128
}

/// Whether `rjq` can take the text.
pub fn quoted_text(s: &str) -> (b: bool)
    ensures
        b == quoted(s@),
{
    let n = s.unicode_len();
    n >= 2 && (s.get_char(0) as u32) < 128 && (s.get_char(n - 1) as u32) < 128
}

/// Removes the first and the last character: the quotes around a JSON string.
pub fn rjq(s: &str) -> (r: String)
    requires
        quoted(s@),
    ensures
        r@ == s@.subrange(1, s@.len() - 1),
{
    let n = s.unicode_len();
    s.substring_char(1, n - 1).to_string()
}

/// What `^xkcd` shows.
pub enum XkcdPick {
    /// The comic of this number.
    Comic(u32),
    /// A reply in place of a comic.
    Reply(String),
}

/// The number `^xkcd` reads from its first word: the word as a `u32`, or 456789
/// where there is no such number.
pub open spec fn xkcd_number(first: Option<Seq<char>>) -> int {
    match first {
        Some(w) => match parsed_in_range(w, false, 0, u32::MAX as int) {
            Some(v) => v,
            None => 456789,
        },
        None => 456789,
    }
}

/// `^xkcd [number | random]`: `first` is the first word after the command, if there
/// is one, and `latest` the number of the latest comic. A number from 1 to `latest`
/// shows that comic; otherwise no word shows the latest comic, `random` a comic
/// drawn from 1 to `latest`, and anything else is answered with the syntax.
pub fn xkcd_pick(first: Option<&str>, latest: u32) -> (r: XkcdPick)
    requires
        first matches Some(w) && w@ == "random"@ ==> latest > 0,
    ensures
        ({
            let num = xkcd_number(match first { Some(w) => Some(w@), None => None });
            if 1 <= num <= latest {
                r == XkcdPick::Comic(num as u32)
            } else {
                match first {
                    None => r == XkcdPick::Comic(latest),
                    Some(w) => if w@ == "random"@ {
                        r matches XkcdPick::Comic(n) && 1 <= n <= latest
                    } else {
                        r matches XkcdPick::Reply(m) && m@
                            == "Please enter no arguments, 'random', or a number between 1 and "@ + dec(latest as nat) + "."@
                    },
                }
            }
        }),
{
    let num: u32 = match first {
        Some(w) => match parse_u32(w) {
            Some(v) => v,
            None => 456789,
        },
        None => 456789,
    };
    if num > latest || num == 0 {
        match first {
            None => XkcdPick::Comic(latest),
            Some(w) => {
                if same_text(w, "random") {
                    XkcdPick::Comic(random_u32(0, latest) + 1)
                } else {
                    let mut m = "Please enter no arguments, 'random', or a number between 1 and ".to_string();
                    push_u64(&mut m, latest as u64);
                    m.append(".");
                    XkcdPick::Reply(m)
                }
            },
        }
    } else {
        XkcdPick::Comic(num)
    }
}

/// The address of a comic's metadata.
pub fn xkcd_link(num: u32) -> (r: String)
    ensures
        r@ == "https://xkcd.com/"@ + dec(num as nat) + "/info.0.json"@,
{
    let mut r = "https://xkcd.com/".to_string();
    push_u64(&mut r, num as u64);
    r.append("/info.0.json");
    r
}

/// A comic as the bot posts it.
pub struct XkcdPost {
    /// The message: `**xkcd num: title**`.
    pub title: String,
    /// The embed's text: the date, month first.
    pub date: String,
    /// The address of the image.
    pub image: String,
    /// The embed's footer: the alt text.
    pub footer: String,
}

/// A comic's post, made of the fields of its metadata as JSON texts (strings with
/// their quotes, the number without).
pub fn xkcd_post(num: &str, safe_title: &str, month: &str, day: &str, year: &str, img: &str, alt: &str) -> (r: XkcdPost)
    requires
        quoted(safe_title@),
        quoted(month@),
        quoted(day@),
        quoted(year@),
        quoted(img@),
        quoted(alt@),
    ensures
        r.title@ == "**xkcd "@ + num@ + ": "@ + safe_title@.subrange(1, safe_title@.len() - 1) + "**"@,
        r.date@ == month@.subrange(1, month@.len() - 1) + "-"@ + day@.subrange(1, day@.len() - 1) + "-"@
            + year@.subrange(1, year@.len() - 1),
        r.image@ == img@.subrange(1, img@.len() - 1),
        r.footer@ == alt@.subrange(1, alt@.len() - 1),
{
    let mut title = "**xkcd ".to_string();
    title.append(num);
    title.append(": ");
    let t = rjq(safe_title);
    title.append(t.as_str());
    title.append("**");
    let mut date = rjq(month);
    date.append("-");
    let d = rjq(day);
    date.append(d.as_str());
    date.append("-");
    let y = rjq(year);
    date.append(y.as_str());
    XkcdPost { title, date, image: rjq(img), footer: rjq(alt) }
}

/// The address of a Wikipedia search for `choice`.
pub fn wiki_search_link(choice: &str) -> (r: String)
    ensures
        r@ == "https://en.wikipedia.org/w/api.php?action=query&origin=*&format=json&generator=search&gsrnamespace=0&gsrlimit=5&gsrsearch='"@
            + choice@ + "'"@,
{
    let mut r =
        "https://en.wikipedia.org/w/api.php?action=query&origin=*&format=json&generator=search&gsrnamespace=0&gsrlimit=5&gsrsearch='".to_string();
    r.append(choice);
    r.append("'");
    r
}

/// The address of the information on the page of this id.
pub fn wiki_page_link(id: &str) -> (r: String)
    ensures
        r@ == "https://en.wikipedia.org/w/api.php?action=query&prop=info&format=json&pageids="@ + id@ + "&inprop=url"@,
{
    let mut r = "https://en.wikipedia.org/w/api.php?action=query&prop=info&format=json&pageids=".to_string();
    r.append(id);
    r.append("&inprop=url");
    r
}

/// The answer when a search finds nothing.
pub fn wiki_no_results(choice: &str) -> (r: String)
    ensures
        r@ == "No Wikipedia results for *"@ + choice@ + "*."@,
{
    let mut r = "No Wikipedia results for *".to_string();
    r.append(choice);
    r.append("*.");
    r
}

/// The message above the results.
pub fn wiki_title(choice: &str) -> (r: String)
    ensures
        r@ == "**Wikipedia results for *"@ + choice@ + ":***"@,
{
    let mut r = "**Wikipedia results for *".to_string();
    r.append(choice);
    r.append(":***");
    r
}

/// The list of results: one line `i. **title**: address` per page, counted from 1.
pub open spec fn results_text(titles: Seq<Seq<char>>, urls: Seq<Seq<char>>) -> Seq<char>
    decreases titles.len(),
{
    if titles.len() == 0 {
        Seq::empty()
    } else {
        results_text(titles.drop_last(), urls) + dec(titles.len()) + ". **"@ + titles.last() + "**: "@
            + urls[titles.len() - 1] + "\n"@
    }
}

/// The titles of the pages without their JSON quotes.
pub open spec fn unquoted(titles: Seq<String>) -> Seq<Seq<char>> {
    titles.map_values(|t: String| t@.subrange(1, t@.len() - 1))
}

/// The list of results, made of the pages' titles as JSON strings and their
/// addresses.
pub fn wiki_results(titles: &Vec<String>, urls: &Vec<String>) -> (r: String)
    requires
        titles.len() == urls.len(),
        titles.len() < u64::MAX,
        forall|i: int| 0 <= i < titles.len() ==> quoted(#[trigger] titles[i]@),
    ensures
        r@ == results_text(unquoted(titles@), urls@.map_values(|u: String| u@)),
{
    let ghost ts = unquoted(titles@);
    let ghost us = urls@.map_values(|u: String| u@);
    let mut r = String::new();
    let mut i: usize = 0;
    while i < titles.len()
        invariant
            i <= titles.len(),
            titles.len() == urls.len(),
            titles.len() < u64::MAX,
            forall|j: int| 0 <= j < titles.len() ==> quoted(#[trigger] titles[j]@),
            ts == unquoted(titles@),
            us == urls@.map_values(|u: String| u@),
            r@ == results_text(ts.take(i as int), us),
        decreases titles.len() - i,
    {
        assert(ts.take(i + 1).drop_last() =~= ts.take(i as int));
        assert(ts[i as int] == titles[i as int]@.subrange(1, titles[i as int]@.len() - 1));
        push_u64(&mut r, (i + 1) as u64);
        r.append(". **");
        let t = rjq(titles[i].as_str());
        r.append(t.as_str());
        r.append("**: ");
        r.append(urls[i].as_str());
        r.append("\n");
        i = i + 1;
    }
    assert(ts.take(titles.len() as int) =~= ts);
    r
}

/// The number of the latest comic, read from the answer of xkcd's latest-comic
/// request: the field `num` as a `u32`.
pub open spec fn latest_of(body: Seq<char>) -> Result<u32, AnswerError> {
    match json_field_of(body, "num"@) {
        None => Err(AnswerError::NotJson),
        Some(t) => match parsed_in_range(trimmed(t), false, 0, u32::MAX as int) {
            Some(n) => Ok(n as u32),
            None => Err(AnswerError::Malformed),
        },
    }
}

/// Reads the number of the latest comic from xkcd's answer.
pub fn xkcd_latest(body: &str) -> (r: Result<u32, AnswerError>)
    ensures
        r == latest_of(body@),
{
    proof {
        reveal_strlit("num");
    }
    match json_field(body, "num") {
        None => Err(AnswerError::NotJson),
        Some(t) => {
            let tt = trim(t.as_str());
            match parse_u32(tt.as_str()) {
                Some(n) => Ok(n),
                None => Err(AnswerError::Malformed),
            }
        },
    }
}

/// A comic's post from xkcd's answer for it: its fields `num`, `safe_title`,
/// `month`, `day`, `year`, `img` and `alt`, each but the number a JSON string.
pub fn xkcd_post_from(body: &str) -> (r: Result<XkcdPost, AnswerError>)
    ensures
        json_field_of(body@, "num"@) is None ==> r == Err::<XkcdPost, AnswerError>(AnswerError::NotJson),
        match (json_field_of(body@, "num"@), json_field_of(body@, "safe_title"@), json_field_of(body@, "month"@),
            json_field_of(body@, "day"@), json_field_of(body@, "year"@), json_field_of(body@, "img"@),
            json_field_of(body@, "alt"@)) {
            (Some(num), Some(t), Some(m), Some(d), Some(y), Some(i), Some(a)) =>
                if quoted(t) && quoted(m) && quoted(d) && quoted(y) && quoted(i) && quoted(a) {
                    r matches Ok(p) && p.title@ == "**xkcd "@ + num + ": "@ + t.subrange(1, t.len() - 1) + "**"@
                        && p.date@ == m.subrange(1, m.len() - 1) + "-"@ + d.subrange(1, d.len() - 1) + "-"@
                            + y.subrange(1, y.len() - 1)
                        && p.image@ == i.subrange(1, i.len() - 1)
                        && p.footer@ == a.subrange(1, a.len() - 1)
                } else {
                    r == Err::<XkcdPost, AnswerError>(AnswerError::Malformed)
                },
            _ => json_field_of(body@, "num"@) is None,
        },
{
    let num = match json_field(body, "num") {
        Some(x) => x,
        None => return Err(AnswerError::NotJson),
    };
    let t = json_field(body, "safe_title");
    let m = json_field(body, "month");
    let d = json_field(body, "day");
    let y = json_field(body, "year");
    let i = json_field(body, "img");
    let a = json_field(body, "alt");
    match (t, m, d, y, i, a) {
        (Some(t), Some(m), Some(d), Some(y), Some(i), Some(a)) => {
            if quoted_text(t.as_str()) && quoted_text(m.as_str()) && quoted_text(d.as_str()) && quoted_text(y.as_str())
                && quoted_text(i.as_str()) && quoted_text(a.as_str()) {
                Ok(xkcd_post(num.as_str(), t.as_str(), m.as_str(), d.as_str(), y.as_str(), i.as_str(), a.as_str()))
            } else {
                Err(AnswerError::Malformed)
            }
        },
        _ => Err(AnswerError::Malformed),
    }
}

/// The pages of a Wikipedia search answer: their keys and titles (as JSON strings),
/// `None` when the answer has no pages.
pub open spec fn pages_of(body: Seq<char>) -> Result<Option<Seq<(Seq<char>, Seq<char>)>>, AnswerError> {
    match json_pages_of(body) {
        None => Err(AnswerError::NotJson),
        Some(None) => Ok(None),
        Some(Some(ps)) => if forall|k: int| 0 <= k < ps.len() ==> quoted(#[trigger] ps[k].1) {
            Ok(Some(ps))
        } else {
            Err(AnswerError::Malformed)
        },
    }
}

/// Reads the pages of a Wikipedia search answer.
pub fn wiki_pages(body: &str) -> (r: Result<Option<Vec<(String, String)>>, AnswerError>)
    ensures
        match r {
            Ok(Some(v)) => pages_of(body@) == Ok::<Option<Seq<(Seq<char>, Seq<char>)>>, AnswerError>(
                Some(pages_view(v@)),
            ),
            Ok(None) => pages_of(body@) == Ok::<Option<Seq<(Seq<char>, Seq<char>)>>, AnswerError>(None),
            Err(e) => pages_of(body@) == Err::<Option<Seq<(Seq<char>, Seq<char>)>>, AnswerError>(e),
        },
{
    match json_pages(body) {
        None => Err(AnswerError::NotJson),
        Some(None) => Ok(None),
        Some(Some(v)) => {
            let ghost ps = pages_view(v@);
            let mut k: usize = 0;
            while k < v.len()
                invariant
                    k <= v.len(),
                    ps == pages_view(v@),
                    json_pages_of(body@) == Some(Some(ps)),
                    forall|j: int| 0 <= j < k ==> quoted(#[trigger] ps[j].1),
                decreases v.len() - k,
            {
                assert(ps[k as int].1 == v[k as int].1@);
                if !quoted_text(v[k].1.as_str()) {
                    assert(!quoted(ps[k as int].1));
                    return Err(AnswerError::Malformed);
                }
                k = k + 1;
            }
            Ok(Some(v))
        },
    }
}

/// The address of a page from Wikipedia's answer for it.
pub open spec fn url_of(body: Seq<char>, id: Seq<char>) -> Result<Seq<char>, AnswerError> {
    match json_page_url_of(body, id) {
        None => Err(AnswerError::NotJson),
        Some(None) => Err(AnswerError::Malformed),
        Some(Some(u)) => Ok(u),
    }
}

/// Reads the address of page `id` from Wikipedia's answer for it.
pub fn wiki_url(body: &str, id: &str) -> (r: Result<String, AnswerError>)
    ensures
        match r {
            Ok(u) => url_of(body@, id@) == Ok::<Seq<char>, AnswerError>(u@),
            Err(e) => url_of(body@, id@) == Err::<Seq<char>, AnswerError>(e),
        },
{
    match json_page_url(body, id) {
        None => Err(AnswerError::NotJson),
        Some(None) => Err(AnswerError::Malformed),
        Some(Some(u)) => Ok(u),
    }
}

} // verus!
