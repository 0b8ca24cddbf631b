//! Text building and searching.
//!
//! Everything here speaks of a string as the sequence of its characters.

use vstd::prelude::*;
use vstd::string::*;
use vstd::utf8::{char_is_scalar, encode_scalar, encode_utf8};

verus! {

/// The character of a decimal digit.
pub open spec fn digit_char(d: nat) -> char {
    (('0' as nat) + d) as char
}

/// A number in decimal, without leading zeros.
pub open spec fn decimal_text(n: nat) -> Seq<char>
    decreases n,
{
    if n < 10 {
        seq![digit_char(n)]
    } else {
        decimal_text(n / 10).push(digit_char(n % 10))
    }
}

/// Whether `needle` occurs in `hay` at position `at`.
pub open spec fn occurs_at(hay: Seq<char>, needle: Seq<char>, at: int) -> bool {
    0 <= at && at + needle.len() <= hay.len() && hay.subrange(at, at + needle.len()) == needle
}

/// Whether `needle` occurs somewhere in `hay`.
pub open spec fn occurs_in(hay: Seq<char>, needle: Seq<char>) -> bool {
    exists|at: int| #[trigger] occurs_at(hay, needle, at)
}

/// Whether `text` begins with `prefix`.
pub open spec fn begins_with(text: Seq<char>, prefix: Seq<char>) -> bool {
    prefix.len() <= text.len() && text.take(prefix.len() as int) == prefix
}

/// The first `n` characters, or the whole text where it is shorter.
pub open spec fn at_most(text: Seq<char>, n: nat) -> Seq<char> {
    if text.len() <= n {
        text
    } else {
        text.take(n as int)
    }
}

/// The number of bytes that a character takes.
pub open spec fn byte_len(c: char) -> nat {
    if (c as u32) < 0x80 {
        1
    } else if (c as u32) < 0x800 {
        2
    } else if (c as u32) < 0x1_0000 {
        3
    } else {
        4
    }
}

/// The longest beginning that takes at most `n` bytes.
pub open spec fn leading(text: Seq<char>, n: nat) -> Seq<char>
    decreases text.len(),
{
    if text.len() == 0 || byte_len(text[0]) > n {
        Seq::empty()
    } else {
        seq![text[0]] + leading(text.skip(1), (n - byte_len(text[0])) as nat)
    }
}

/// The texts of a list, one after the other, with `sep` between them.
pub open spec fn joined(list: Seq<Seq<char>>, sep: Seq<char>) -> Seq<char>
    decreases list.len(),
{
    if list.len() == 0 {
        Seq::empty()
    } else if list.len() == 1 {
        list[0]
    } else {
        joined(list.drop_last(), sep) + sep + list.last()
    }
}

/// The views of a list of texts.
pub open spec fn texts(list: Seq<String>) -> Seq<Seq<char>> {
    Seq::new(list.len(), |i: int| list[i]@)
}

/// The one-character text of a decimal digit.
fn digit_text(d: u64) -> (res: &'static str)
    requires
        d < 10,
    ensures
        res@ == seq![digit_char(d as nat)],
{
    proof {
        reveal_strlit("0");
        reveal_strlit("1");
        reveal_strlit("2");
        reveal_strlit("3");
        reveal_strlit("4");
        reveal_strlit("5");
        reveal_strlit("6");
        reveal_strlit("7");
        reveal_strlit("8");
        reveal_strlit("9");
    }
    let res = match d {
        0 => "0",
        1 => "1",
        2 => "2",
        3 => "3",
        4 => "4",
        5 => "5",
        6 => "6",
        7 => "7",
        8 => "8",
        _ => "9",
    };
    assert(res@ =~= seq![digit_char(d as nat)]);
    res
}

/// Writes a number in decimal.
pub fn u128_text(n: u128) -> (res: String)
    ensures
        res@ == decimal_text(n as nat),
    decreases n,
{
    if n < 10 {
        digit_text(n as u64).to_owned()
    } else {
        let mut res = u128_text(n / 10);
        res.append(digit_text((n % 10) as u64));
        assert(res@ =~= decimal_text(n as nat));
        res
    }
}

/// Writes a number in decimal.
pub fn u64_text(n: u64) -> (res: String)
    ensures
        res@ == decimal_text(n as nat),
{
    u128_text(n as u128)
}

/// The last `width` digits of a number in decimal, with leading zeros.
pub open spec fn padded(n: nat, width: nat) -> Seq<char>
    decreases width,
{
    if width == 0 {
        Seq::empty()
    } else {
        padded(n / 10, (width - 1) as nat).push(digit_char(n % 10))
    }
}

/// Writes the last `width` digits of a number.
pub fn padded_text(n: u128, width: u32) -> (res: String)
    ensures
        res@ == padded(n as nat, width as nat),
    decreases width,
{
    if width == 0 {
        proof {
            reveal_strlit("");
        }
        let res = "".to_owned();
        assert(res@ =~= padded(n as nat, 0));
        res
    } else {
        let mut res = padded_text(n / 10, width - 1);
        res.append(digit_text((n % 10) as u64));
        assert(res@ =~= padded(n as nat, width as nat));
        res
    }
}

/// The characters of a text.
pub fn chars_of(text: &str) -> (res: Vec<char>)
    ensures
        res@ == text@,
{
    let mut res: Vec<char> = Vec::new();
    for c in it: text.chars()
        invariant
            res@ == text@.take(it.index() as int),
            it.seq() == text@,
    {
        res.push(c);
        assert(text@.take(it.index() + 1) =~= text@.take(it.index() as int).push(c));
    }
    assert(text@.take(text@.len() as int) =~= text@);
    res
}

/// Whether two texts hold the same characters.
pub fn same_text(a: &str, b: &str) -> (res: bool)
    ensures
        res == (a@ == b@),
{
    a.to_owned() == b.to_owned()
}

/// Whether `needle` occurs in `hay`.
pub fn contains(hay: &str, needle: &str) -> (res: bool)
    ensures
        res == occurs_in(hay@, needle@),
{
    let h = chars_of(hay);
    let n = chars_of(needle);
    if n.len() > h.len() {
        return false;
    }
    let last: usize = h.len() - n.len();
    let mut at: usize = 0;
    loop
        invariant
            h@ == hay@,
            n@ == needle@,
            last == h.len() - n.len(),
            at <= last,
            forall|k: int| 0 <= k < at ==> !#[trigger] occurs_at(hay@, needle@, k),
        decreases last - at,
    {
        let mut k: usize = 0;
        while k < n.len() && h[at + k] == n[k]
            invariant
                h@ == hay@,
                n@ == needle@,
                k <= n.len(),
                at + n.len() <= h.len(),
                hay@.subrange(at as int, at + k) == needle@.take(k as int),
            decreases n.len() - k,
        {
            k = k + 1;
            assert(hay@.subrange(at as int, at + k) =~= needle@.take(k as int));
        }
        if k == n.len() {
            assert(needle@.take(k as int) =~= needle@);
            assert(occurs_at(hay@, needle@, at as int));
            return true;
        }
        assert(!occurs_at(hay@, needle@, at as int)) by {
            assert(hay@.subrange(at as int, at + n.len())[k as int] == hay@[at + k]);
        }
        if at == last {
            return false;
        }
        at = at + 1;
    }
}

/// Whether `text` begins with `prefix`.
pub fn starts_with(text: &str, prefix: &str) -> (res: bool)
    ensures
        res == begins_with(text@, prefix@),
{
    let n: usize = prefix.unicode_len();
    if text.unicode_len() < n {
        return false;
    }
    let head = text.substring_char(0, n);
    assert(text@.subrange(0, n as int) =~= text@.take(n as int));
    same_text(head, prefix)
}

/// The first `n` characters, or the whole text where it is shorter.
pub fn shortened(text: &str, n: usize) -> (res: String)
    ensures
        res@ == at_most(text@, n as nat),
{
    if text.unicode_len() <= n {
        text.to_owned()
    } else {
        assert(text@.subrange(0, n as int) =~= text@.take(n as int));
        text.substring_char(0, n).to_owned()
    }
}

/// The longest beginning of a text that takes at most `n` bytes.
pub fn leading_text(text: &str, n: usize) -> (res: String)
    ensures
        res@ == leading(text@, n as nat),
{
    let chars = chars_of(text);
    let mut i: usize = 0;
    let mut left: usize = n;
    assert(text@.take(0) + leading(text@.skip(0), n as nat) =~= leading(text@, n as nat)) by {
        assert(text@.skip(0) =~= text@);
    }
    while i < chars.len()
        invariant_except_break
            leading(text@, n as nat) == text@.take(i as int) + leading(
                text@.skip(i as int),
                left as nat,
            ),
        invariant
            chars@ == text@,
            i <= chars@.len(),
        ensures
            leading(text@, n as nat) == text@.take(i as int),
        decreases chars@.len() - i,
    {
        let c = chars[i];
        let len: usize = if (c as u32) < 0x80 {
            1
        } else if (c as u32) < 0x800 {
            2
        } else if (c as u32) < 0x1_0000 {
            3
        } else {
            4
        };
        let ghost rest = text@.skip(i as int);
        assert(rest[0] == c);
        if len > left {
            assert(leading(text@, n as nat) =~= text@.take(i as int));
            break;
        }
        left = left - len;
        i = i + 1;
        assert(rest.skip(1) =~= text@.skip(i as int));
        assert(text@.take(i as int) + leading(text@.skip(i as int), left as nat) =~= text@.take(
            i - 1,
        ) + (seq![c] + leading(rest.skip(1), left as nat)));
    }
    text.substring_char(0, i).to_owned()
}

/// The texts of a list with a separator between them.
pub fn join(list: &Vec<String>, sep: &str) -> (res: String)
    ensures
        res@ == joined(texts(list@), sep@),
{
    let mut res = String::new();
    let mut i: usize = 0;
    let ghost all = texts(list@);
    while i < list.len()
        invariant
            all == texts(list@),
            i <= list.len(),
            res@ == joined(all.take(i as int), sep@),
        decreases list.len() - i,
    {
        let ghost head = all.take(i as int);
        let ghost more = all.take(i + 1);
        assert(more.drop_last() =~= head);
        assert(more.last() == list[i as int]@);
        if i > 0 {
            res.append(sep);
            res.append(list[i].as_str());
        } else {
            res.append(list[i].as_str());
            assert(res@ =~= list[0]@);
        }
        i = i + 1;
    }
    assert(all.take(i as int) =~= all);
    res
}

/// The position of the first line feed, or the length where there is none.
pub open spec fn line_feed_at(text: Seq<char>) -> nat
    decreases text.len(),
{
    if text.len() == 0 || text[0] == '\n' {
        0
    } else {
        1 + line_feed_at(text.skip(1))
    }
}

/// A terminated line without the carriage return in front of its line feed.
pub open spec fn without_return(line: Seq<char>) -> Seq<char> {
    if line.len() > 0 && line.last() == '\r' {
        line.drop_last()
    } else {
        line
    }
}

/// The lines of a text. A line ends at a line feed, with or without a carriage
/// return before it, or at the end of the text.
pub open spec fn lines(text: Seq<char>) -> Seq<Seq<char>>
    decreases text.len(),
{
    if text.len() == 0 {
        Seq::empty()
    } else {
        let end = line_feed_at(text);
        if end >= text.len() {
            seq![text]
        } else {
            seq![without_return(text.take(end as int))] + lines(text.skip(end as int + 1))
        }
    }
}

proof fn lemma_line_feed_at(text: Seq<char>, end: nat)
    requires
        end <= text.len(),
        end < text.len() ==> text[end as int] == '\n',
        forall|k: int| 0 <= k < end ==> text[k] != '\n',
    ensures
        line_feed_at(text) == end,
    decreases text.len(),
{
    if end > 0 {
        lemma_line_feed_at(text.skip(1), (end - 1) as nat);
    }
}

/// Splits a text into its lines.
pub fn lines_of(text: &str) -> (res: Vec<String>)
    ensures
        texts(res@) == lines(text@),
{
    let c = chars_of(text);
    let mut res: Vec<String> = Vec::new();
    let mut start: usize = 0;
    assert(text@.skip(0) =~= text@);
    assert(texts(res@) + lines(text@) =~= lines(text@));
    while start < c.len()
        invariant
            c@ == text@,
            start <= c.len(),
            texts(res@) + lines(text@.skip(start as int)) == lines(text@),
        decreases c.len() - start,
    {
        let mut end: usize = start;
        while end < c.len() && c[end] != '\n'
            invariant
                c@ == text@,
                start <= end <= c.len(),
                forall|k: int| start <= k < end ==> text@[k] != '\n',
            decreases c.len() - end,
        {
            end = end + 1;
        }
        let ghost rest = text@.skip(start as int);
        let ghost before = texts(res@);
        proof {
            lemma_line_feed_at(rest, (end - start) as nat);
        }
        if end == c.len() {
            assert(text@.subrange(start as int, end as int) =~= rest);
            res.push(text.substring_char(start, end).to_owned());
            start = end;
            assert(texts(res@) =~= before.push(rest));
            assert(lines(text@.skip(start as int)) =~= Seq::empty());
            assert(texts(res@) + lines(text@.skip(start as int)) =~= before + lines(rest));
        } else {
            let ghost line = rest.take(end - start);
            assert(text@.subrange(start as int, end as int) =~= line);
            let stop: usize = if end > start && c[end - 1] == '\r' {
                end - 1
            } else {
                end
            };
            assert(text@.subrange(start as int, stop as int) =~= without_return(line));
            res.push(text.substring_char(start, stop).to_owned());
            assert(rest.skip(end - start + 1) =~= text@.skip(end + 1));
            start = end + 1;
            assert(texts(res@) =~= before.push(without_return(line)));
            assert(texts(res@) + lines(text@.skip(start as int)) =~= before + lines(rest));
        }
    }
    assert(text@.skip(start as int) =~= Seq::empty());
    assert(texts(res@) + lines(text@.skip(start as int)) =~= texts(res@));
    res
}

/// Whether a character is white space in the sense of Unicode.
pub open spec fn is_white(c: char) -> bool {
    let n = c as nat;
    ||| 0x9 <= n <= 0xd
    ||| n == 0x20
    ||| n == 0x85
    ||| n == 0xa0
    ||| n == 0x1680
    ||| 0x2000 <= n <= 0x200a
    ||| n == 0x2028
    ||| n == 0x2029
    ||| n == 0x202f
    ||| n == 0x205f
    ||| n == 0x3000
}

/// A text without the white space that it begins with.
pub open spec fn trimmed_start(text: Seq<char>) -> Seq<char>
    decreases text.len(),
{
    if text.len() > 0 && is_white(text[0]) {
        trimmed_start(text.skip(1))
    } else {
        text
    }
}

/// A text without the white space that it ends with.
pub open spec fn trimmed_end(text: Seq<char>) -> Seq<char>
    decreases text.len(),
{
    if text.len() > 0 && is_white(text.last()) {
        trimmed_end(text.drop_last())
    } else {
        text
    }
}

/// A text without the white space at either end.
pub open spec fn trimmed(text: Seq<char>) -> Seq<char> {
    trimmed_end(trimmed_start(text))
}

fn white(c: char) -> (res: bool)
    ensures
        res == is_white(c),
{
    let n: u32 = c as u32;
    (0x9 <= n && n <= 0xd) || n == 0x20 || n == 0x85 || n == 0xa0 || n == 0x1680 || (0x2000 <= n && n
        <= 0x200a) || n == 0x2028 || n == 0x2029 || n == 0x202f || n == 0x205f || n == 0x3000
}

/// Removes the white space at both ends of a text.
pub fn trim(text: &str) -> (res: &str)
    ensures
        res@ == trimmed(text@),
{
    let c = chars_of(text);
    let mut start: usize = 0;
    assert(text@.skip(0) =~= text@);
    while start < c.len() && white(c[start])
        invariant
            c@ == text@,
            start <= c.len(),
            trimmed_start(text@.skip(start as int)) == trimmed_start(text@),
        decreases c.len() - start,
    {
        assert(text@.skip(start as int).skip(1) =~= text@.skip(start + 1));
        start = start + 1;
    }
    let mut end: usize = c.len();
    let ghost rest = text@.skip(start as int);
    assert(trimmed_start(text@) == rest);
    assert(text@.subrange(start as int, end as int) =~= rest);
    while end > start && white(c[end - 1])
        invariant
            c@ == text@,
            start <= end <= c.len(),
            trimmed_end(text@.subrange(start as int, end as int)) == trimmed_end(rest),
        decreases end,
    {
        assert(text@.subrange(start as int, end as int).drop_last() =~= text@.subrange(
            start as int,
            end - 1,
        ));
        end = end - 1;
    }
    text.substring_char(start, end)
}

/// The texts of a list in the order of their first occurrence, each once.
pub open spec fn unique(list: Seq<Seq<char>>) -> Seq<Seq<char>>
    decreases list.len(),
{
    if list.len() == 0 {
        Seq::empty()
    } else {
        let before = unique(list.drop_last());
        if before.contains(list.last()) {
            before
        } else {
            before.push(list.last())
        }
    }
}

/// Whether a text is in a list.
pub fn is_among(text: &str, list: &Vec<String>) -> (res: bool)
    ensures
        res == texts(list@).contains(text@),
{
    let mut i: usize = 0;
    while i < list.len()
        invariant
            i <= list@.len(),
            forall|j: int| 0 <= j < i ==> #[trigger] list@[j]@ != text@,
        decreases list@.len() - i,
    {
        if same_text(list[i].as_str(), text) {
            assert(texts(list@)[i as int] == text@);
            return true;
        }
        i = i + 1;
    }
    assert forall|j: int| 0 <= j < texts(list@).len() implies texts(list@)[j] != text@ by {
        assert(list@[j]@ != text@);
    }
    false
}

/// The texts of a list, each once.
pub fn unique_texts(list: &Vec<String>) -> (res: Vec<String>)
    ensures
        texts(res@) == unique(texts(list@)),
{
    let mut res: Vec<String> = Vec::new();
    let mut i: usize = 0;
    let ghost all = texts(list@);
    assert(texts(res@) =~= unique(all.take(0)));
    while i < list.len()
        invariant
            i <= list@.len(),
            all == texts(list@),
            texts(res@) == unique(all.take(i as int)),
        decreases list@.len() - i,
    {
        let ghost was = texts(res@);
        assert(all.take(i + 1).drop_last() =~= all.take(i as int));
        assert(all.take(i + 1).last() == list@[i as int]@);
        if !is_among(list[i].as_str(), &res) {
            res.push(list[i].clone());
            assert(texts(res@) =~= was.push(list@[i as int]@));
        }
        i = i + 1;
    }
    assert(all.take(i as int) =~= all);
    res
}

/// The text that `str::to_lowercase` gives.
pub uninterp spec fn lowercase(text: Seq<char>) -> Seq<char>;

/// The text that `str::to_uppercase` gives.
pub uninterp spec fn uppercase(text: Seq<char>) -> Seq<char>;

/// Calls `str::to_lowercase`. Its result, which follows the Unicode tables, is
/// taken to be a function of the text alone.
#[verifier::external_body]
pub(crate) fn to_lowercase(text: &str) -> (res: String)
    ensures
        res@ == lowercase(text@),
{
    text.to_lowercase()
}

/// Calls `str::to_uppercase`. Its result, which follows the Unicode tables, is
/// taken to be a function of the text alone.
#[verifier::external_body]
pub(crate) fn to_uppercase(text: &str) -> (res: String)
    ensures
        res@ == uppercase(text@),
{
    text.to_uppercase()
}

/// A text between quotation marks, escaped as the standard library's debug format
/// escapes it.
pub uninterp spec fn quoted(text: Seq<char>) -> Seq<char>;

/// Formats a text with `Debug`. What it escapes is taken to be a function of the
/// text alone.
#[verifier::external_body]
pub(crate) fn debug_text(text: &str) -> (res: String)
    ensures
        res@ == quoted(text@),
{
    format!("{:?}", text)
}

/// The texts of a list, each once: none occurs twice, and exactly those of the list occur.
pub proof fn law_unique_texts_are_the_same_once(list: Seq<Seq<char>>)
    ensures
        unique(list).no_duplicates(),
        forall|text: Seq<char>| #[trigger] unique(list).contains(text) <==> list.contains(text),
    decreases list.len(),
{
    if list.len() > 0 {
        let before = unique(list.drop_last());
        let last = list.last();
        law_unique_texts_are_the_same_once(list.drop_last());
        assert forall|text: Seq<char>| #[trigger] unique(list).contains(text) <==> list.contains(
            text,
        ) by {
            if list.contains(text) {
                let i = choose|i: int| 0 <= i < list.len() && list[i] == text;
                if i < list.len() - 1 {
                    assert(list.drop_last()[i] == text);
                    assert(before.contains(text));
                    let k = choose|k: int| 0 <= k < before.len() && before[k] == text;
                    assert(unique(list)[k] == text);
                } else if !before.contains(last) {
                    assert(unique(list)[before.len() as int] == text);
                }
            }
            if unique(list).contains(text) {
                let k = choose|k: int| 0 <= k < unique(list).len() && unique(list)[k] == text;
                if k < before.len() {
                    assert(before.contains(text));
                    let i = choose|i: int|
                        0 <= i < list.len() - 1 && list.drop_last()[i] == text;
                    assert(list[i] == text);
                } else {
                    assert(list[list.len() - 1] == text);
                }
            }
        }
    }
}

/// A text without the white space at its ends begins and ends with none, and is what is left of
/// the text between white space.
pub proof fn law_trimming_takes_white_space_alone(text: Seq<char>)
    ensures
        trimmed(text).len() > 0 ==> !is_white(trimmed(text)[0]) && !is_white(trimmed(text).last()),
        exists|a: Seq<char>, b: Seq<char>|
            text == a + trimmed(text) + b && (forall|i: int|
                0 <= i < a.len() ==> is_white(#[trigger] a[i])) && forall|i: int|
                0 <= i < b.len() ==> is_white(#[trigger] b[i]),
{
    let middle = trimmed_start(text);
    let a = lemma_trimmed_start(text);
    let b = lemma_trimmed_end(middle);
    assert(text =~= a + trimmed(text) + b);
    if trimmed(text).len() > 0 {
        assert(middle[0] == trimmed(text)[0]);
    }
}

proof fn lemma_trimmed_start(text: Seq<char>) -> (a: Seq<char>)
    ensures
        text == a + trimmed_start(text),
        forall|i: int| 0 <= i < a.len() ==> is_white(#[trigger] a[i]),
        trimmed_start(text).len() > 0 ==> !is_white(trimmed_start(text)[0]),
    decreases text.len(),
{
    if text.len() > 0 && is_white(text[0]) {
        let rest = lemma_trimmed_start(text.skip(1));
        let a = seq![text[0]] + rest;
        assert(text =~= seq![text[0]] + text.skip(1));
        assert(text =~= a + trimmed_start(text));
        a
    } else {
        assert(text =~= Seq::<char>::empty() + text);
        Seq::empty()
    }
}

proof fn lemma_trimmed_end(text: Seq<char>) -> (b: Seq<char>)
    ensures
        text == trimmed_end(text) + b,
        forall|i: int| 0 <= i < b.len() ==> is_white(#[trigger] b[i]),
        trimmed_end(text).len() > 0 ==> !is_white(trimmed_end(text).last()),
    decreases text.len(),
{
    if text.len() > 0 && is_white(text.last()) {
        let rest = lemma_trimmed_end(text.drop_last());
        let b = rest.push(text.last());
        assert(text =~= text.drop_last().push(text.last()));
        assert(text =~= trimmed_end(text) + b);
        b
    } else {
        assert(text =~= text + Seq::<char>::empty());
        Seq::empty()
    }
}

/// The number of bytes that a text takes.
pub open spec fn bytes_of(text: Seq<char>) -> nat
    decreases text.len(),
{
    if text.len() == 0 {
        0
    } else {
        byte_len(text[0]) + bytes_of(text.skip(1))
    }
}

/// What a text is cut down to is its longest beginning that takes at most so many bytes.
pub proof fn law_the_longest_beginning_is_taken(text: Seq<char>, n: nat)
    ensures
        leading(text, n).len() <= text.len(),
        leading(text, n) == text.take(leading(text, n).len() as int),
        bytes_of(leading(text, n)) <= n,
        leading(text, n).len() < text.len() ==> bytes_of(leading(text, n)) + byte_len(
            text[leading(text, n).len() as int],
        ) > n,
    decreases text.len(),
{
    if text.len() == 0 || byte_len(text[0]) > n {
        assert(text.take(0) =~= Seq::<char>::empty());
    } else {
        let rest = text.skip(1);
        let m = (n - byte_len(text[0])) as nat;
        law_the_longest_beginning_is_taken(rest, m);
        let l = leading(text, n);
        assert(l =~= text.take(l.len() as int));
        assert(l.skip(1) =~= leading(rest, m));
    }
}

/// The lines of a text hold no line feed.
pub proof fn law_lines_hold_no_line_feed(text: Seq<char>)
    ensures
        forall|i: int, k: int|
            0 <= i < lines(text).len() && 0 <= k < lines(text)[i].len()
                ==> #[trigger] lines(text)[i][k] != '\n',
    decreases text.len(),
{
    if text.len() > 0 {
        let end = line_feed_at(text);
        lemma_no_line_feed_before(text);
        if end < text.len() {
            let rest = text.skip(end as int + 1);
            law_lines_hold_no_line_feed(rest);
            assert forall|i: int, k: int|
                0 <= i < lines(text).len() && 0 <= k < lines(
                    text,
                )[i].len() implies #[trigger] lines(text)[i][k] != '\n' by {
                if i > 0 {
                    assert(lines(text)[i] == lines(rest)[i - 1]);
                    assert(lines(rest)[i - 1][k] != '\n');
                }
            }
        }
    }
}

proof fn lemma_no_line_feed_before(text: Seq<char>)
    ensures
        line_feed_at(text) <= text.len(),
        line_feed_at(text) < text.len() ==> text[line_feed_at(text) as int] == '\n',
        forall|k: int| 0 <= k < line_feed_at(text) ==> #[trigger] text[k] != '\n',
    decreases text.len(),
{
    if text.len() > 0 && text[0] != '\n' {
        let rest = text.skip(1);
        lemma_no_line_feed_before(rest);
        assert forall|k: int| 0 <= k < line_feed_at(text) implies #[trigger] text[k] != '\n' by {
            if k > 0 {
                assert(rest[k - 1] == text[k]);
            }
        }
    }
}

/// Texts are joined with the separator between each two of them, and nowhere else.
pub proof fn law_texts_are_joined_by_their_separator(
    list: Seq<Seq<char>>,
    text: Seq<char>,
    sep: Seq<char>,
)
    ensures
        joined(Seq::<Seq<char>>::empty(), sep).len() == 0,
        joined(seq![text], sep) == text,
        list.len() > 0 ==> joined(list.push(text), sep) == joined(list, sep) + sep + text,
{
    assert(list.push(text).drop_last() =~= list);
}

/// A text is cut down to its first characters where it has more, and only then.
pub proof fn law_a_text_is_cut_only_where_it_is_longer(text: Seq<char>, n: nat)
    ensures
        text.len() <= n ==> at_most(text, n) == text,
        text.len() > n ==> at_most(text, n) == text.take(n as int),
        at_most(text, n).len() <= n,
{
}

/// The bytes that a text takes are those of its encoding in UTF-8.
pub proof fn law_bytes_are_those_of_utf8(text: Seq<char>)
    ensures
        bytes_of(text) == encode_utf8(text).len(),
    decreases text.len(),
{
    if text.len() > 0 {
        assert(text.skip(1) =~= text.drop_first());
        law_bytes_are_those_of_utf8(text.skip(1));
        let c = text[0];
        char_is_scalar(c);
        assert(encode_scalar(c as u32).len() == byte_len(c));
    }
}

/// White space is the tab, the line feed and the three control characters after it, the space,
/// the next-line character, and the spaces and separators of Unicode.
pub proof fn law_what_white_space_is(c: char)
    ensures
        is_white(c) <==> {
            ||| '\t' <= c <= '\r'
            ||| c == ' '
            ||| c == '\u{85}'
            ||| c == '\u{a0}'
            ||| c == '\u{1680}'
            ||| '\u{2000}' <= c <= '\u{200a}'
            ||| c == '\u{2028}'
            ||| c == '\u{2029}'
            ||| c == '\u{202f}'
            ||| c == '\u{205f}'
            ||| c == '\u{3000}'
        },
{
}

/// A text begins with its first line: what stands before its first line feed, without a
/// carriage return at its end; the lines of the rest follow. A text without a line feed is one
/// line.
pub proof fn law_lines_are_parted_by_line_feeds(first: Seq<char>, rest: Seq<char>)
    requires
        forall|k: int| 0 <= k < first.len() ==> #[trigger] first[k] != '\n',
    ensures
        lines(first + seq!['\n'] + rest) == seq![without_return(first)] + lines(rest),
        first.len() > 0 ==> lines(first) == seq![first],
        lines(Seq::<char>::empty()).len() == 0,
        without_return(first.push('\r')) == first,
        first.len() > 0 && first.last() != '\r' ==> without_return(first) == first,
{
    let text = first + seq!['\n'] + rest;
    assert forall|k: int| 0 <= k < first.len() implies text[k] != '\n' by {
        assert(text[k] == first[k]);
    }
    lemma_line_feed_at(text, first.len());
    assert(text.take(first.len() as int) =~= first);
    assert(text.skip(first.len() as int + 1) =~= rest);
    lemma_line_feed_at(first, first.len());
    assert(first.push('\r').drop_last() =~= first);
}

/// A text occurs in another exactly where that is the text with something before and after it,
/// and another begins with it exactly where that is the text with something after it.
pub proof fn law_a_text_occurs_within_its_surroundings(
    before: Seq<char>,
    text: Seq<char>,
    after: Seq<char>,
    hay: Seq<char>,
)
    ensures
        occurs_in(before + text + after, text),
        begins_with(text + after, text),
        occurs_in(hay, text) ==> exists|a: Seq<char>, b: Seq<char>| hay == #[trigger] (a + text + b),
        begins_with(hay, text) ==> hay == text + hay.skip(text.len() as int),
{
    let whole = before + text + after;
    let at = before.len() as int;
    assert(whole.subrange(at, at + text.len()) =~= text);
    assert(occurs_at(whole, text, at));
    assert((text + after).take(text.len() as int) =~= text);
    if occurs_in(hay, text) {
        let at = choose|at: int| #[trigger] occurs_at(hay, text, at);
        let (a, b) = (hay.take(at), hay.skip(at + text.len()));
        assert(hay =~= (a + text) + b) by {
            assert(hay.subrange(at, at + text.len()) == text);
            assert forall|i: int| at <= i < at + text.len() implies hay[i] == text[i - at] by {
                assert(hay.subrange(at, at + text.len())[i - at] == hay[i]);
            }
        }
    }
    if begins_with(hay, text) {
        assert(hay =~= text + hay.skip(text.len() as int)) by {
            assert forall|i: int| 0 <= i < text.len() implies hay[i] == text[i] by {
                assert(hay.take(text.len() as int)[i] == hay[i]);
            }
        }
    }
}

} // verus!
