//! Character-level text helpers: comparison, byte ranges, trimming, words,
//! lines, and truncation of source excerpts.
use vstd::prelude::*;
use vstd::string::*;
use vstd::utf8::{decode_utf8, encode_utf8, is_continuation_byte};

verus! {

broadcast use vstd::string::group_string_axioms;

/// `c` has the Unicode `White_Space` property (what `char::is_whitespace` tests).
pub open spec fn is_white_space(c: char) -> bool {
    ||| ('\u{9}' <= c && c <= '\u{d}')
    ||| c == ' '
    ||| c == '\u{85}'
    ||| c == '\u{a0}'
    ||| c == '\u{1680}'
    ||| ('\u{2000}' <= c && c <= '\u{200a}')
    ||| c == '\u{2028}'
    ||| c == '\u{2029}'
    ||| c == '\u{202f}'
    ||| c == '\u{205f}'
    ||| c == '\u{3000}'
}

/// `s` without its trailing white space.
pub open spec fn trim_end_spec(s: Seq<char>) -> Seq<char>
    decreases s.len(),
{
    if s.len() > 0 && is_white_space(s.last()) {
        trim_end_spec(s.drop_last())
    } else {
        s
    }
}

/// `s` without its leading white space.
pub open spec fn trim_start_spec(s: Seq<char>) -> Seq<char>
    decreases s.len(),
{
    if s.len() > 0 && is_white_space(s[0]) {
        trim_start_spec(s.drop_first())
    } else {
        s
    }
}

/// `s` without leading and trailing white space.
pub open spec fn trim_spec(s: Seq<char>) -> Seq<char> {
    trim_start_spec(trim_end_spec(s))
}

/// `s` holds `p` starting at position `i`.
pub open spec fn occurs_at(s: Seq<char>, p: Seq<char>, i: int) -> bool {
    0 <= i && i + p.len() <= s.len() && s.subrange(i, i + p.len()) == p
}

/// `p` occurs somewhere in `s`.
pub open spec fn contains_spec(s: Seq<char>, p: Seq<char>) -> bool {
    exists|i: int| occurs_at(s, p, i)
}

/// Whether `s[from..]` begins with the characters `p`.
fn chars_at(s: &Vec<char>, from: usize, p: &Vec<char>) -> (r: bool)
    requires
        from + p@.len() <= s@.len(),
    ensures
        r == (s@.subrange(from as int, from + p@.len()) == p@),
{
    let mut i: usize = 0;
    assert(s@.len() == s.len());
    while i < p.len()
        invariant
            i <= p@.len(),
            from + p@.len() <= s@.len() <= usize::MAX,
            forall|j: int| 0 <= j < i ==> s@[from + j] == p@[j],
        decreases p@.len() - i,
    {
        if s[from + i] != p[i] {
            assert(s@.subrange(from as int, from + p@.len())[i as int] != p@[i as int]);
            return false;
        }
        i = i + 1;
    }
    assert(s@.subrange(from as int, from + p@.len()) =~= p@);
    true
}

/// Compares two strings by their characters (`str`'s `==`).
pub fn str_eq(a: &str, b: &str) -> (r: bool)
    ensures
        r == (a@ == b@),
{
    let x = chars_of(a);
    let y = chars_of(b);
    if x.len() != y.len() {
        return false;
    }
    let r = chars_at(&x, 0, &y);
    assert(x@.subrange(0, y@.len() as int) =~= x@);
    r
}

/// Whether `p` occurs in `s` (`str::contains` with a string pattern).
pub fn str_contains(s: &str, p: &str) -> (r: bool)
    ensures
        r == contains_spec(s@, p@),
{
    let x = chars_of(s);
    let y = chars_of(p);
    if y.len() > x.len() {
        assert forall|i: int| !occurs_at(s@, p@, i) by {}
        return false;
    }
    let last = x.len() - y.len();
    let mut i: usize = 0;
    loop
        invariant
            x@ == s@,
            y@ == p@,
            last + y@.len() == x@.len(),
            i <= last,
            forall|j: int| 0 <= j < i ==> !occurs_at(s@, p@, j),
        ensures
            forall|j: int| 0 <= j <= last ==> !occurs_at(s@, p@, j),
        decreases last - i,
    {
        if chars_at(&x, i, &y) {
            assert(occurs_at(s@, p@, i as int));
            return true;
        }
        if i == last {
            break;
        }
        i = i + 1;
    }
    assert forall|j: int| !occurs_at(s@, p@, j) by {
        if 0 <= j && j + p@.len() <= s@.len() {
            assert(j <= last);
        }
    }
    false
}

/// Whether `s` begins with `p` (`str::starts_with` with a string pattern).
pub fn str_starts_with(s: &str, p: &str) -> (r: bool)
    ensures
        r == (p@.len() <= s@.len() && s@.subrange(0, p@.len() as int) == p@),
{
    let x = chars_of(s);
    let y = chars_of(p);
    if y.len() > x.len() {
        return false;
    }
    chars_at(&x, 0, &y)
}

/// Whether `s` ends with `p` (`str::ends_with` with a string pattern).
pub fn str_ends_with(s: &str, p: &str) -> (r: bool)
    ensures
        r == (p@.len() <= s@.len() && s@.subrange(s@.len() - p@.len(), s@.len() as int) == p@),
{
    let x = chars_of(s);
    let y = chars_of(p);
    if y.len() > x.len() {
        return false;
    }
    chars_at(&x, x.len() - y.len(), &y)
}

/// The characters of `s`, in order (`str::chars` collected).
#[verifier::external_body]
pub(crate) fn chars_of(s: &str) -> (v: Vec<char>)
    ensures
        v@ == s@,
{
    s.chars().collect()
}

/// The string made of the characters of `v` (`String: FromIterator<&char>`).
#[verifier::external_body]
pub(crate) fn string_of_chars(v: &[char]) -> (s: String)
    ensures
        s@ == v@,
{
    v.iter().collect()
}

/// Offset `i` of the UTF-8 bytes `b` lies between two characters
/// (`str::is_char_boundary`): the start, the end, or a byte that begins a
/// character.
pub open spec fn char_boundary(b: Seq<u8>, i: int) -> bool {
    i == 0 || i == b.len() || (0 < i < b.len() && !is_continuation_byte(b[i]))
}

/// The text of `s` between two byte offsets of its UTF-8 encoding, when
/// both are character boundaries in order and within the text.
pub open spec fn byte_slice(s: Seq<char>, start: usize, end: usize) -> Option<Seq<char>> {
    let b = encode_utf8(s);
    if start <= end <= b.len() && char_boundary(b, start as int) && char_boundary(b, end as int) {
        Some(decode_utf8(b.subrange(start as int, end as int)))
    } else {
        None
    }
}

/// `str::get(start..end)`: the text between two byte offsets of `s`, and
/// `None` where indexing with that range would panic: offsets out of order,
/// past the end, or not on a character boundary.
#[verifier::external_body]
pub(crate) fn str_get(s: &str, start: usize, end: usize) -> (r: Option<String>)
    ensures
        match r {
            Some(x) => byte_slice(s@, start, end) == Some(x@),
            None => byte_slice(s@, start, end) is None,
        },
{
    s.get(start..end).map(String::from)
}

/// The text of `a` followed by the text of `b`.
pub fn concat(a: &str, b: &str) -> (r: String)
    ensures
        r@ == a@ + b@,
{
    let mut v = chars_of(a);
    let mut w = chars_of(b);
    v.append(&mut w);
    string_of_chars(v.as_slice())
}

/// The string `s` as an owned `String`.
pub fn owned(s: &str) -> (r: String)
    ensures
        r@ == s@,
{
    s.to_string()
}

/// Position just past the last non-white-space character of `v`.
fn trimmed_end(v: &Vec<char>) -> (end: usize)
    ensures
        end <= v@.len(),
        trim_end_spec(v@) == v@.subrange(0, end as int),
{
    let mut end = v.len();
    assert(v@.subrange(0, end as int) =~= v@);
    while end > 0 && is_ws(v[end - 1])
        invariant
            end <= v@.len(),
            trim_end_spec(v@) == trim_end_spec(v@.subrange(0, end as int)),
        decreases end,
    {
        assert(v@.subrange(0, end as int).drop_last() =~= v@.subrange(0, end - 1));
        end = end - 1;
    }
    end
}

/// Whether `c` is white space (`char::is_whitespace`).
pub fn is_ws(c: char) -> (r: bool)
    ensures
        r == is_white_space(c),
{
    ('\u{9}' <= c && c <= '\u{d}') || c == ' ' || c == '\u{85}' || c == '\u{a0}' || c
        == '\u{1680}' || ('\u{2000}' <= c && c <= '\u{200a}') || c == '\u{2028}' || c
        == '\u{2029}' || c == '\u{202f}' || c == '\u{205f}' || c == '\u{3000}'
}

/// The words of `s`: its maximal runs of characters other than white
/// space, in order (what `str::split_whitespace` yields).
pub open spec fn words(s: Seq<char>) -> Seq<Seq<char>>
    decreases s.len(),
{
    if s.len() == 0 {
        seq![]
    } else {
        let w = words(s.drop_last());
        let c = s.last();
        if is_white_space(c) {
            w
        } else if s.len() >= 2 && !is_white_space(s[s.len() - 2]) {
            w.update(w.len() - 1, w.last().push(c))
        } else {
            w.push(seq![c])
        }
    }
}

/// The words `ws` separated by single spaces (what `join(" ")` gives).
pub open spec fn joined(ws: Seq<Seq<char>>) -> Seq<char>
    decreases ws.len(),
{
    if ws.len() == 0 {
        seq![]
    } else if ws.len() == 1 {
        ws[0]
    } else {
        joined(ws.drop_last()) + seq![' '] + ws.last()
    }
}

/// A word: not empty, and free of white space.
pub open spec fn is_word(w: Seq<char>) -> bool {
    w.len() > 0 && forall|j: int| 0 <= j < w.len() ==> !is_white_space(#[trigger] w[j])
}

/// Every word found is a word, and a text ending in a character other than
/// white space has a last word that ends with that character.
pub proof fn lemma_words_are_words(s: Seq<char>)
    ensures
        forall|k: int| 0 <= k < words(s).len() ==> is_word(#[trigger] words(s)[k]),
        s.len() > 0 && !is_white_space(s.last()) ==> words(s).len() > 0 && words(s).last().last()
            == s.last(),
    decreases s.len(),
{
    if s.len() > 0 {
        let p = s.drop_last();
        lemma_words_are_words(p);
        let w = words(p);
        let c = s.last();
        if !is_white_space(c) && s.len() >= 2 && !is_white_space(s[s.len() - 2]) {
            assert(p.last() == s[s.len() - 2]);
            let nw = w.last().push(c);
            assert forall|k: int| 0 <= k < words(s).len() implies is_word(#[trigger] words(s)[k]) by {
                if k == w.len() - 1 {
                    assert(words(s)[k] == nw);
                    assert forall|j: int| 0 <= j < nw.len() implies !is_white_space(#[trigger] nw[j]) by {
                        if j < w.last().len() {
                            assert(is_word(w[w.len() - 1]));
                            assert(nw[j] == w.last()[j]);
                        }
                    }
                } else {
                    assert(words(s)[k] == w[k]);
                }
            }
        } else if !is_white_space(c) {
            assert forall|k: int| 0 <= k < words(s).len() implies is_word(#[trigger] words(s)[k]) by {
                if k < w.len() {
                    assert(words(s)[k] == w[k]);
                } else {
                    assert(words(s)[k] =~= seq![c]);
                }
            }
        }
    }
}

/// Splits `s` into its words (`str::split_whitespace`).
pub fn split_words(s: &str) -> (ws: Vec<String>)
    ensures
        ws@.map_values(|w: String| w@) == words(s@),
{
    let v = chars_of(s);
    let mut acc: Vec<Vec<char>> = Vec::new();
    let mut i: usize = 0;
    while i < v.len()
        invariant
            i <= v@.len(),
            acc@.map_values(|w: Vec<char>| w@) == words(v@.subrange(0, i as int)),
        decreases v@.len() - i,
    {
        let c = v[i];
        let ghost before = acc@.map_values(|w: Vec<char>| w@);
        let ghost p = v@.subrange(0, i as int);
        let ghost q = v@.subrange(0, i + 1);
        assert(q.drop_last() =~= p);
        assert(q.last() == c);
        if is_ws(c) {
        } else if i >= 1 && !is_ws(v[i - 1]) {
            proof {
                assert(q[q.len() - 2] == v@[i - 1]);
                assert(p.last() == v@[i - 1]);
                lemma_words_are_words(p);
            }
            let mut w = acc.pop().unwrap();
            w.push(c);
            acc.push(w);
            assert(acc@.map_values(|w: Vec<char>| w@) =~= before.update(
                before.len() - 1,
                before.last().push(c),
            ));
        } else {
            let mut w: Vec<char> = Vec::new();
            w.push(c);
            acc.push(w);
            assert(acc@.map_values(|w: Vec<char>| w@) =~= before.push(seq![c]));
        }
        i = i + 1;
    }
    assert(v@.subrange(0, v@.len() as int) =~= v@);
    let mut out: Vec<String> = Vec::new();
    let mut k: usize = 0;
    while k < acc.len()
        invariant
            k <= acc@.len(),
            out@.len() == k,
            forall|j: int| 0 <= j < k ==> (#[trigger] out@[j])@ == acc@[j]@,
        decreases acc@.len() - k,
    {
        out.push(string_of_chars(acc[k].as_slice()));
        k = k + 1;
    }
    assert(out@.map_values(|w: String| w@) =~= acc@.map_values(|w: Vec<char>| w@));
    out
}

/// The words `ws` separated by single spaces (`join(" ")`).
pub fn join_words(ws: &Vec<String>) -> (r: String)
    ensures
        r@ == joined(ws@.map_values(|w: String| w@)),
{
    let ghost all = ws@.map_values(|w: String| w@);
    let mut out: Vec<char> = Vec::new();
    let mut k: usize = 0;
    while k < ws.len()
        invariant
            k <= ws@.len(),
            all == ws@.map_values(|w: String| w@),
            out@ == joined(all.subrange(0, k as int)),
        decreases ws@.len() - k,
    {
        let ghost before = out@;
        let mut w = chars_of(ws[k].as_str());
        if k > 0 {
            out.push(' ');
        }
        out.append(&mut w);
        proof {
            let t = all.subrange(0, k + 1);
            assert(t.drop_last() =~= all.subrange(0, k as int));
            assert(t.last() == ws@[k as int]@);
            if k == 0 {
                assert(out@ =~= t[0]);
            } else {
                assert(out@ =~= joined(t.drop_last()) + seq![' '] + t.last());
            }
        }
        k = k + 1;
    }
    assert(all.subrange(0, ws@.len() as int) =~= all);
    string_of_chars(out.as_slice())
}

/// `s` holds the character `c`.
pub open spec fn has_char(s: Seq<char>, c: char) -> bool {
    exists|i: int| 0 <= i < s.len() && s[i] == c
}

/// Whether `s` holds the character `c`.
pub fn contains_char(s: &str, c: char) -> (r: bool)
    ensures
        r == has_char(s@, c),
{
    let v = chars_of(s);
    let mut i: usize = 0;
    while i < v.len()
        invariant
            i <= v@.len(),
            v@ == s@,
            forall|j: int| 0 <= j < i ==> v@[j] != c,
        decreases v@.len() - i,
    {
        if v[i] == c {
            return true;
        }
        i = i + 1;
    }
    false
}

/// The characters of `s` before its first newline (all of them if it has none).
pub open spec fn before_newline(s: Seq<char>) -> Seq<char>
    decreases s.len(),
{
    if s.len() == 0 || s[0] == '\n' {
        seq![]
    } else {
        seq![s[0]] + before_newline(s.drop_first())
    }
}

/// The first line of `s` (what `str::lines` yields first, or nothing for
/// an empty text): the text before the first newline, without the `\r` of
/// a `\r\n` ending.
pub open spec fn first_line_spec(s: Seq<char>) -> Seq<char> {
    let l = before_newline(s);
    if has_char(s, '\n') && l.len() > 0 && l.last() == '\r' {
        l.drop_last()
    } else {
        l
    }
}

proof fn lemma_before_newline(s: Seq<char>)
    ensures
        before_newline(s).len() <= s.len(),
        s.subrange(0, before_newline(s).len() as int) == before_newline(s),
        before_newline(s).len() < s.len() <==> has_char(s, '\n'),
        before_newline(s).len() < s.len() ==> s[before_newline(s).len() as int] == '\n',
        forall|j: int| 0 <= j < before_newline(s).len() ==> #[trigger] before_newline(s)[j] != '\n',
    decreases s.len(),
{
    if s.len() > 0 && s[0] != '\n' {
        let t = s.drop_first();
        lemma_before_newline(t);
        assert(s.subrange(0, before_newline(s).len() as int) =~= before_newline(s));
        assert forall|j: int| 0 <= j < before_newline(s).len() implies #[trigger] before_newline(s)[j] != '\n' by {
            if j > 0 {
                assert(before_newline(s)[j] == before_newline(t)[j - 1]);
            }
        }
        if has_char(t, '\n') {
            let i = choose|i: int| 0 <= i < t.len() && t[i] == '\n';
            assert(s[i + 1] == '\n');
        }
        if has_char(s, '\n') {
            let i = choose|i: int| 0 <= i < s.len() && s[i] == '\n';
            assert(t[i - 1] == '\n');
        }
    } else if s.len() > 0 {
        assert(s[0] == '\n');
    }
}

/// The first line of a text is the text up to its first line feed: a
/// prefix holding no line feed, the whole text when there is none, and
/// otherwise followed in the text by `\n` or `\r\n`.
pub proof fn lemma_first_line(s: Seq<char>)
    ensures
        ({
            let l = first_line_spec(s);
            &&& l.len() <= s.len()
            &&& s.subrange(0, l.len() as int) == l
            &&& forall|j: int| 0 <= j < l.len() ==> #[trigger] l[j] != '\n'
            &&& !has_char(s, '\n') ==> l == s
            &&& has_char(s, '\n') ==> (s[l.len() as int] == '\n' || (l.len() + 1 < s.len() && s[l.len() as int]
                == '\r' && s[l.len() as int + 1] == '\n'))
        }),
{
    lemma_before_newline(s);
    let b = before_newline(s);
    let l = first_line_spec(s);
    if has_char(s, '\n') && b.len() > 0 && b.last() == '\r' {
        assert(s.subrange(0, l.len() as int) =~= b.subrange(0, l.len() as int));
        assert(l =~= b.subrange(0, l.len() as int));
        assert(s[l.len() as int] == b[l.len() as int]);
        assert forall|j: int| 0 <= j < l.len() implies #[trigger] l[j] != '\n' by {
            assert(l[j] == b[j]);
        }
    }
    if !has_char(s, '\n') {
        assert(s.subrange(0, s.len() as int) =~= s);
    }
}

/// The first line of `text` (`str::lines`, first item, or `""`).
pub fn first_line(text: &str) -> (r: String)
    ensures
        r@ == first_line_spec(text@),
{
    let v = chars_of(text);
    let mut end: usize = 0;
    proof {
        lemma_before_newline(v@);
    }
    while end < v.len() && v[end] != '\n'
        invariant
            end <= before_newline(v@).len(),
            before_newline(v@).len() <= v@.len(),
            v@.subrange(0, before_newline(v@).len() as int) == before_newline(v@),
            before_newline(v@).len() < v@.len() ==> v@[before_newline(v@).len() as int] == '\n',
            forall|j: int| 0 <= j < before_newline(v@).len() ==> #[trigger] before_newline(v@)[j] != '\n',
        decreases v@.len() - end,
    {
        proof {
            if end as int == before_newline(v@).len() {
                assert(v@[end as int] == '\n');
            }
        }
        end = end + 1;
    }
    let newline = end < v.len();
    let keep = if newline && end > 0 && v[end - 1] == '\r' {
        end - 1
    } else {
        end
    };
    proof {
        if end < before_newline(v@).len() {
            assert(v@[end as int] == before_newline(v@)[end as int]);
        }
        assert(end == before_newline(v@).len());
    }
    string_of_chars(&v.as_slice()[0..keep])
}

/// `s` without its trailing white space (what `str::trim_end` returns).
pub fn trim_end(s: &str) -> (r: String)
    ensures
        r@ == trim_end_spec(s@),
{
    let v = chars_of(s);
    let end = trimmed_end(&v);
    string_of_chars(&v.as_slice()[0..end])
}

/// `s` without leading and trailing white space (what `str::trim` returns).
pub fn trim(s: &str) -> (r: String)
    ensures
        r@ == trim_spec(s@),
{
    let v = chars_of(s);
    let end = trimmed_end(&v);
    let mut start: usize = 0;
    let ghost t = v@.subrange(0, end as int);
    assert(t.subrange(0, t.len() as int) =~= t);
    while start < end && is_ws(v[start])
        invariant
            start <= end <= v@.len(),
            t == v@.subrange(0, end as int),
            trim_start_spec(t) == trim_start_spec(v@.subrange(start as int, end as int)),
        decreases end - start,
    {
        assert(v@.subrange(start as int, end as int).drop_first() =~= v@.subrange(
            start + 1,
            end as int,
        ));
        start = start + 1;
    }
    string_of_chars(&v.as_slice()[start..end])
}

/// Number of `'\n'` characters in `s`.
pub open spec fn newline_count(s: Seq<char>) -> nat
    decreases s.len(),
{
    if s.len() == 0 {
        0
    } else {
        newline_count(s.drop_last()) + if s.last() == '\n' {
            1nat
        } else {
            0nat
        }
    }
}

/// Number of lines of `s`, as `str::lines` yields them: lines end at `'\n'`,
/// and the last line needs no line ending.
pub open spec fn line_count_spec(s: Seq<char>) -> nat {
    newline_count(s) + if s.len() > 0 && s.last() != '\n' {
        1nat
    } else {
        0nat
    }
}

proof fn lemma_newline_count_add(a: Seq<char>, b: Seq<char>)
    ensures
        newline_count(a + b) == newline_count(a) + newline_count(b),
    decreases b.len(),
{
    if b.len() > 0 {
        lemma_newline_count_add(a, b.drop_last());
        assert((a + b).drop_last() =~= a + b.drop_last());
    } else {
        assert(a + b =~= a);
    }
}

/// Lines add up: a text that is empty or ends with a line feed, followed by
/// any text, has the lines of the first plus the lines of the second; a
/// line feed alone is one line, and text without line feeds is one line
/// (none when empty).
pub proof fn lemma_lines_add(a: Seq<char>, b: Seq<char>)
    ensures
        (a.len() == 0 || a.last() == '\n') ==> line_count_spec(a + b) == line_count_spec(a) + line_count_spec(b),
        line_count_spec(seq!['\n']) == 1,
        (forall|i: int| 0 <= i < b.len() ==> b[i] != '\n') ==> line_count_spec(b) == if b.len() == 0 {
            0nat
        } else {
            1nat
        },
{
    lemma_newline_count_add(a, b);
    if b.len() == 0 {
        assert(a + b =~= a);
    } else {
        assert((a + b).last() == b.last());
    }
    let nl = seq!['\n'];
    assert(nl.drop_last() =~= Seq::<char>::empty());
    assert(newline_count(nl.drop_last()) == 0);
    assert(newline_count(nl) == 1);
    lemma_no_newlines(b);
}

proof fn lemma_no_newlines(b: Seq<char>)
    ensures
        (forall|i: int| 0 <= i < b.len() ==> b[i] != '\n') ==> newline_count(b) == 0,
    decreases b.len(),
{
    if b.len() > 0 {
        lemma_no_newlines(b.drop_last());
        if forall|i: int| 0 <= i < b.len() ==> b[i] != '\n' {
            assert forall|i: int| 0 <= i < b.drop_last().len() implies b.drop_last()[i] != '\n' by {
                assert(b.drop_last()[i] == b[i]);
            }
            assert(b[b.len() - 1] != '\n');
        }
    }
}

/// Number of lines of `s` (what `s.lines().count()` returns).
pub fn line_count(s: &str) -> (n: usize)
    ensures
        n == line_count_spec(s@),
{
    let v = chars_of(s);
    let mut count: usize = 0;
    let mut i: usize = 0;
    while i < v.len()
        invariant
            i <= v@.len(),
            count == newline_count(v@.subrange(0, i as int)),
            count <= i,
        decreases v@.len() - i,
    {
        assert(v@.subrange(0, i + 1).drop_last() =~= v@.subrange(0, i as int));
        if v[i] == '\n' {
            count = count + 1;
        }
        i = i + 1;
    }
    assert(v@.subrange(0, i as int) =~= v@);
    if v.len() > 0 && v[v.len() - 1] != '\n' {
        assert(count < v@.len()) by {
            lemma_newline_count_bound(v@.drop_last());
            assert(v@.drop_last() =~= v@.subrange(0, v@.len() - 1));
        }
        count = count + 1;
    }
    count
}

proof fn lemma_newline_count_bound(s: Seq<char>)
    ensures
        newline_count(s) <= s.len(),
    decreases s.len(),
{
    if s.len() > 0 {
        lemma_newline_count_bound(s.drop_last());
    }
}

/// `s` cut to its first `max` characters when it is longer.
pub open spec fn truncated(s: Seq<char>, max: nat) -> Seq<char> {
    if s.len() > max {
        s.subrange(0, max as int)
    } else {
        s
    }
}

/// Excerpt of a source text: its first `max` characters.
pub fn truncate_content(s: &str, max: usize) -> (r: String)
    ensures
        r@ == truncated(s@, max as nat),
        r@.len() <= max,
{
    let v = chars_of(s);
    if v.len() > max {
        string_of_chars(&v.as_slice()[0..max])
    } else {
        owned(s)
    }
}

/// Whether `c` has the Unicode `Uppercase` property (`char::is_uppercase`).
pub uninterp spec fn is_uppercase_char(c: char) -> bool;

/// `char::is_uppercase`: whether `c` has the Unicode `Uppercase` property.
/// The contract names the result; nothing more is claimed.
#[verifier::external_body]
pub(crate) fn char_is_uppercase(c: char) -> (r: bool)
    ensures
        r == is_uppercase_char(c),
{
    c.is_uppercase()
}

/// A name written like a constant: not empty, and made of uppercase
/// letters, `_` and ASCII digits only.
pub open spec fn is_constant_name(s: Seq<char>) -> bool {
    s.len() > 0 && forall|j: int|
        0 <= j < s.len() ==> #[trigger] is_uppercase_char(s[j]) || s[j] == '_' || ('0' <= s[j]
            && s[j] <= '9')
}

/// Whether `s` is written like a constant name.
pub fn constant_name(s: &str) -> (r: bool)
    ensures
        r == is_constant_name(s@),
{
    let v = chars_of(s);
    if v.len() == 0 {
        return false;
    }
    let mut i: usize = 0;
    while i < v.len()
        invariant
            i <= v@.len(),
            v@ == s@,
            forall|j: int|
                0 <= j < i ==> #[trigger] is_uppercase_char(v@[j]) || v@[j] == '_' || ('0' <= v@[j]
                    && v@[j] <= '9'),
        decreases v@.len() - i,
    {
        let c = v[i];
        if !(char_is_uppercase(c) || c == '_' || ('0' <= c && c <= '9')) {
            return false;
        }
        i = i + 1;
    }
    true
}

} // verus!
