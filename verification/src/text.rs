//! Text operations that the form rules need: trimming, counting the pieces
//! that a separator cuts a text into, and comparing texts.

use vstd::prelude::*;

verus! {

/// Whether `c` has the Unicode property White_Space: the controls from tab
/// to carriage return, the space, next line, the no-break space, the Ogham
/// space mark, the spaces from en quad to hair space, the line and the
/// paragraph separator, the narrow no-break space, the medium mathematical
/// space and the ideographic space.
pub open spec fn is_white_space(c: char) -> bool {
    let code = c as u32;
    ||| 0x09 <= code <= 0x0d
    ||| code == 0x20
    ||| code == 0x85
    ||| code == 0xa0
    ||| code == 0x1680
    ||| 0x2000 <= code <= 0x200a
    ||| code == 0x2028
    ||| code == 0x2029
    ||| code == 0x202f
    ||| code == 0x205f
    ||| code == 0x3000
}

/// `char::is_whitespace`, which tells whether `c` has the Unicode property
/// White_Space: the result is so for the code points that have it, and for
/// no other.
#[verifier::external_body]
pub(crate) fn char_is_white_space(c: char) -> (white: bool)
    ensures
        white == is_white_space(c),
{
    c.is_whitespace()
}

/// `s` without its leading white space.
pub open spec fn trim_start(s: Seq<char>) -> Seq<char>
    decreases s.len(),
{
    if s.len() > 0 && is_white_space(s[0]) {
        trim_start(s.drop_first())
    } else {
        s
    }
}

/// `s` without its trailing white space.
pub open spec fn trim_end(s: Seq<char>) -> Seq<char>
    decreases s.len(),
{
    if s.len() > 0 && is_white_space(s.last()) {
        trim_end(s.drop_last())
    } else {
        s
    }
}

/// `s` without leading and trailing white space.
pub open spec fn trimmed(s: Seq<char>) -> Seq<char> {
    trim_end(trim_start(s))
}

/// The number of pieces that the separator `w` cuts `s` into: one more than
/// the occurrences of `w` found from the left without overlap. An empty
/// separator cuts before and after every character.
pub open spec fn piece_count(s: Seq<char>, w: Seq<char>) -> nat
    decreases s.len(),
{
    if w.len() == 0 {
        s.len() + 2
    } else if s.len() < w.len() {
        1
    } else if s.subrange(0, w.len() as int) == w {
        1 + piece_count(s.subrange(w.len() as int, s.len() as int), w)
    } else {
        piece_count(s.drop_first(), w)
    }
}

/// The part of `s` before its first `'.'`, or all of `s` if it has none.
pub open spec fn before_dot(s: Seq<char>) -> Seq<char>
    decreases s.len(),
{
    if s.len() == 0 || s[0] == '.' {
        Seq::empty()
    } else {
        seq![s[0]] + before_dot(s.drop_first())
    }
}

/// Whether the character at the place `i` is marked.
pub open spec fn is_marked(marks: Seq<bool>, i: int) -> bool {
    0 <= i < marks.len() && marks[i]
}

/// The first place from `from` on, and before `len`, that is not marked;
/// `len` if there is none.
pub open spec fn first_unmarked(marks: Seq<bool>, len: int, from: int) -> int
    decreases len - from,
{
    if from < len && is_marked(marks, from) {
        first_unmarked(marks, len, from + 1)
    } else {
        from
    }
}

/// The place behind the last place before `to`, and not before `start`,
/// that is not marked; `start` if there is none.
pub open spec fn end_of_unmarked(marks: Seq<bool>, start: int, to: int) -> int
    decreases to - start,
{
    if to > start && is_marked(marks, to - 1) {
        end_of_unmarked(marks, start, to - 1)
    } else {
        to
    }
}

/// `s` without the marked characters at its start and at its end.
pub open spec fn without_marked_ends(s: Seq<char>, marks: Seq<bool>) -> Seq<char> {
    let start = first_unmarked(marks, s.len() as int, 0);
    s.subrange(start, end_of_unmarked(marks, start, s.len() as int))
}

/// Where the marks tell the white space of a text, what is left of the
/// text from `from` on without its leading white space begins at the first
/// unmarked place.
pub proof fn lemma_first_unmarked(s: Seq<char>, marks: Seq<bool>, from: int)
    requires
        0 <= from <= s.len(),
        forall|i: int| 0 <= i < s.len() ==> is_marked(marks, i) == is_white_space(#[trigger] s[i]),
    ensures
        from <= first_unmarked(marks, s.len() as int, from) <= s.len(),
        trim_start(s.skip(from)) == s.skip(first_unmarked(marks, s.len() as int, from)),
    decreases s.len() - from,
{
    if from < s.len() {
        assert(s.skip(from)[0] == s[from]);
        if is_marked(marks, from) {
            lemma_first_unmarked(s, marks, from + 1);
            assert(s.skip(from).drop_first() =~= s.skip(from + 1));
        }
    }
}

/// Where the marks tell the white space of a text, what is left of the
/// part from `start` to `to` without its trailing white space ends behind
/// the last unmarked place.
pub proof fn lemma_end_of_unmarked(s: Seq<char>, marks: Seq<bool>, start: int, to: int)
    requires
        0 <= start <= to <= s.len(),
        forall|i: int| 0 <= i < s.len() ==> is_marked(marks, i) == is_white_space(#[trigger] s[i]),
    ensures
        start <= end_of_unmarked(marks, start, to) <= to,
        trim_end(s.subrange(start, to)) == s.subrange(start, end_of_unmarked(marks, start, to)),
    decreases to - start,
{
    if to > start {
        assert(s.subrange(start, to).last() == s[to - 1]);
        if is_marked(marks, to - 1) {
            lemma_end_of_unmarked(s, marks, start, to - 1);
            assert(s.subrange(start, to).drop_last() =~= s.subrange(start, to - 1));
        }
    }
}

/// Where the marks tell the white space of a text, the text without its
/// marked ends is the text trimmed.
pub proof fn lemma_trimmed_by_marks(s: Seq<char>, marks: Seq<bool>)
    requires
        marks.len() == s.len(),
        forall|i: int| 0 <= i < s.len() ==> marks[i] == is_white_space(#[trigger] s[i]),
    ensures
        without_marked_ends(s, marks) == trimmed(s),
{
    lemma_first_unmarked(s, marks, 0);
    let start = first_unmarked(marks, s.len() as int, 0);
    assert(s.skip(0) =~= s);
    lemma_end_of_unmarked(s, marks, start, s.len() as int);
    assert(s.skip(start) =~= s.subrange(start, s.len() as int));
}

/// Trimming the start leaves a suffix that does not begin with white space.
pub proof fn lemma_trim_start(s: Seq<char>)
    ensures
        trim_start(s).len() <= s.len(),
        trim_start(s) == s.skip(s.len() - trim_start(s).len()),
        trim_start(s).len() > 0 ==> !is_white_space(trim_start(s)[0]),
        forall|i: int| 0 <= i < s.len() - trim_start(s).len() ==> is_white_space(#[trigger] s[i]),
    decreases s.len(),
{
    if s.len() > 0 && is_white_space(s[0]) {
        let rest = s.drop_first();
        lemma_trim_start(rest);
        let k = rest.len() - trim_start(rest).len();
        assert(rest.skip(k) =~= s.skip(k + 1));
        assert forall|i: int| 0 <= i < s.len() - trim_start(s).len() implies is_white_space(
            #[trigger] s[i],
        ) by {
            if i > 0 {
                assert(s[i] == rest[i - 1]);
            }
        }
    } else {
        assert(s.skip(0) =~= s);
    }
}

/// Trimming the end leaves a prefix that does not end with white space.
pub proof fn lemma_trim_end(s: Seq<char>)
    ensures
        trim_end(s).len() <= s.len(),
        trim_end(s) == s.take(trim_end(s).len() as int),
        trim_end(s).len() > 0 ==> !is_white_space(trim_end(s).last()),
        forall|i: int| trim_end(s).len() <= i < s.len() ==> is_white_space(#[trigger] s[i]),
    decreases s.len(),
{
    if s.len() > 0 && is_white_space(s.last()) {
        let rest = s.drop_last();
        lemma_trim_end(rest);
        assert(rest.take(trim_end(rest).len() as int) =~= s.take(trim_end(rest).len() as int));
        assert forall|i: int| trim_end(s).len() <= i < s.len() implies is_white_space(
            #[trigger] s[i],
        ) by {
            if i < rest.len() {
                assert(s[i] == rest[i]);
            }
        }
    } else {
        assert(s.take(s.len() as int) =~= s);
    }
}

/// A text with no white space at either end is its own trimming.
pub proof fn lemma_trimmed_fixed(s: Seq<char>)
    requires
        s.len() > 0 ==> !is_white_space(s[0]) && !is_white_space(s.last()),
    ensures
        trimmed(s) == s,
{
}

/// Trimming twice is trimming once.
pub proof fn lemma_trimmed_idempotent(s: Seq<char>)
    ensures
        trimmed(trimmed(s)) == trimmed(s),
{
    let a = trim_start(s);
    lemma_trim_start(s);
    lemma_trim_end(a);
    let t = trim_end(a);
    if t.len() > 0 {
        assert(t[0] == a[0]);
    }
    lemma_trimmed_fixed(t);
}

/// Whether `a` comes before `b` in the order of texts: where they first
/// differ `a` has the character of the lesser code point, or `a` ends
/// there and `b` goes on. This is the order of `str`.
pub open spec fn text_before(a: Seq<char>, b: Seq<char>) -> bool
    decreases a.len(),
{
    if b.len() == 0 {
        false
    } else if a.len() == 0 {
        true
    } else if a[0] == b[0] {
        text_before(a.drop_first(), b.drop_first())
    } else {
        (a[0] as u32) < (b[0] as u32)
    }
}

/// No text comes before itself, and of two different texts exactly one
/// comes before the other.
pub proof fn lemma_text_order_total(a: Seq<char>, b: Seq<char>)
    ensures
        !text_before(a, a),
        !(text_before(a, b) && text_before(b, a)),
        a != b ==> text_before(a, b) || text_before(b, a),
    decreases a.len(),
{
    if a.len() > 0 {
        lemma_text_order_total(a.drop_first(), a.drop_first());
    }
    if a.len() > 0 && b.len() > 0 {
        lemma_text_order_total(a.drop_first(), b.drop_first());
        if a[0] == b[0] {
            if a.drop_first() == b.drop_first() {
                assert(a =~= seq![a[0]] + a.drop_first());
                assert(b =~= seq![b[0]] + b.drop_first());
            }
        } else {
            vstd::utf8::char_u32_cast(a[0], a[0] as u32);
            vstd::utf8::char_u32_cast(b[0], b[0] as u32);
        }
    } else if a.len() == 0 && b.len() == 0 {
        assert(a =~= b);
    }
}

/// What comes before a text comes before all that the text comes before.
pub proof fn lemma_text_order_transitive(a: Seq<char>, b: Seq<char>, c: Seq<char>)
    requires
        text_before(a, b),
        text_before(b, c),
    ensures
        text_before(a, c),
    decreases a.len(),
{
    if a.len() > 0 && a[0] == b[0] && b[0] == c[0] {
        lemma_text_order_transitive(a.drop_first(), b.drop_first(), c.drop_first());
    }
}

/// The characters of `s`.
pub fn chars_of(s: &str) -> (chars: Vec<char>)
    ensures
        chars@ == s@,
{
    let mut chars: Vec<char> = Vec::new();
    for c in it: s.chars()
        invariant
            chars@ == it.seq().take(it.index() as int),
            it.seq() == s@,
    {
        chars.push(c);
    }
    chars
}

/// Whether two texts hold the same characters.
pub fn same_text(a: &str, b: &str) -> (same: bool)
    ensures
        same == (a@ == b@),
{
    a.to_owned() == b.to_owned()
}

/// Whether `a` comes before `b` in the order of texts.
pub fn comes_before(a: &str, b: &str) -> (before: bool)
    ensures
        before == text_before(a@, b@),
{
    let x = chars_of(a);
    let y = chars_of(b);
    let mut i: usize = 0;
    proof {
        assert(a@.skip(0) =~= a@);
        assert(b@.skip(0) =~= b@);
    }
    while i < x.len() && i < y.len()
        invariant
            i <= x.len(),
            i <= y.len(),
            x@ == a@,
            y@ == b@,
            text_before(a@, b@) == text_before(a@.skip(i as int), b@.skip(i as int)),
        decreases x.len() - i,
    {
        let p: char = x[i];
        let q: char = y[i];
        proof {
            assert(a@.skip(i as int)[0] == p);
            assert(b@.skip(i as int)[0] == q);
            assert(a@.skip(i as int).drop_first() =~= a@.skip(i + 1));
            assert(b@.skip(i as int).drop_first() =~= b@.skip(i + 1));
        }
        if p != q {
            return (p as u32) < (q as u32);
        }
        i += 1;
    }
    i < y.len()
}

/// Which characters of a text are white space.
pub fn white_space_marks(chars: &Vec<char>) -> (marks: Vec<bool>)
    ensures
        marks.len() == chars.len(),
        forall|i: int| 0 <= i < chars.len() ==> marks[i] == is_white_space(#[trigger] chars[i]),
{
    let mut marks: Vec<bool> = Vec::new();
    let mut i: usize = 0;
    while i < chars.len()
        invariant
            i <= chars.len(),
            marks.len() == i,
            forall|j: int| 0 <= j < i ==> marks[j] == is_white_space(#[trigger] chars[j]),
        decreases chars.len() - i,
    {
        marks.push(char_is_white_space(chars[i]));
        i += 1;
    }
    marks
}

/// `s` without the marked characters at its start and at its end, where
/// `marks` tells of each character of `s` whether it is marked.
pub fn trim_marked(s: &str, marks: &Vec<bool>) -> (t: String)
    ensures
        t@ == without_marked_ends(s@, marks@),
{
    let n = s.unicode_len();
    let mut start: usize = 0;
    while start < n && start < marks.len() && marks[start]
        invariant
            start <= n,
            n == s@.len(),
            first_unmarked(marks@, n as int, 0) == first_unmarked(marks@, n as int, start as int),
        decreases n - start,
    {
        start += 1;
    }
    let mut end: usize = n;
    while end > start && end - 1 < marks.len() && marks[end - 1]
        invariant
            start <= end <= n,
            n == s@.len(),
            end_of_unmarked(marks@, start as int, n as int) == end_of_unmarked(
                marks@,
                start as int,
                end as int,
            ),
        decreases end - start,
    {
        end -= 1;
    }
    s.substring_char(start, end).to_owned()
}

/// `s` without leading and trailing white space.
pub fn trim(s: &str) -> (t: String)
    ensures
        t@ == trimmed(s@),
{
    let chars = chars_of(s);
    let marks = white_space_marks(&chars);
    proof {
        lemma_trimmed_by_marks(s@, marks@);
    }
    trim_marked(s, &marks)
}

/// The number of pieces that `w` cuts `s` into.
pub fn count_pieces(s: &str, w: &str) -> (pieces: u128)
    ensures
        pieces == piece_count(s@, w@),
{
    let text = chars_of(s);
    let word = chars_of(w);
    let n = text.len();
    let m = word.len();
    if m == 0 {
        return n as u128 + 2;
    }
    let mut found: u128 = 0;
    let mut i: usize = 0;
    proof {
        assert(text@.skip(0) =~= text@);
    }
    while n - i >= m
        invariant
            i <= n,
            n == text.len(),
            m == word.len(),
            m > 0,
            found <= i,
            found + piece_count(text@.skip(i as int), word@) == piece_count(text@, word@),
        decreases n - i,
    {
        let mut j: usize = 0;
        while j < m && text[i + j] == word[j]
            invariant
                j <= m,
                i + m <= n,
                n == text.len(),
                m == word.len(),
                forall|k: int| 0 <= k < j ==> text[i + k] == word[k],
            decreases m - j,
        {
            j += 1;
        }
        let rest = Ghost(text@.skip(i as int));
        if j == m {
            proof {
                assert(rest@.subrange(0, m as int) =~= word@);
                assert(rest@.subrange(m as int, rest@.len() as int) =~= text@.skip(i + m));
            }
            found += 1;
            i += m;
        } else {
            proof {
                assert(rest@.subrange(0, m as int)[j as int] != word@[j as int]);
                assert(rest@.drop_first() =~= text@.skip(i + 1));
            }
            i += 1;
        }
    }
    found + 1
}

/// The part of `s` before its first `'.'`, or all of `s` if it has none.
pub fn text_before_dot(s: &str) -> (head: String)
    ensures
        head@ == before_dot(s@),
{
    let chars = chars_of(s);
    let n = chars.len();
    let mut i: usize = 0;
    proof {
        assert(chars@.skip(0) =~= chars@);
        assert(chars@.take(0) + before_dot(chars@) =~= before_dot(chars@));
    }
    while i < n && chars[i] != '.'
        invariant
            i <= n,
            n == chars.len(),
            before_dot(chars@) == chars@.take(i as int) + before_dot(chars@.skip(i as int)),
        decreases n - i,
    {
        proof {
            let rest = chars@.skip(i as int);
            assert(rest.drop_first() =~= chars@.skip(i + 1));
            assert(chars@.take(i as int) + seq![rest[0]] =~= chars@.take(i + 1));
            assert(chars@.take(i as int) + (seq![rest[0]] + before_dot(rest.drop_first()))
                =~= (chars@.take(i as int) + seq![rest[0]]) + before_dot(rest.drop_first()));
        }
        i += 1;
    }
    proof {
        assert(before_dot(chars@.skip(i as int)) =~= Seq::<char>::empty());
        assert(chars@.take(i as int) + Seq::<char>::empty() =~= chars@.subrange(0, i as int));
    }
    s.substring_char(0, i).to_owned()
}

/// Counting the pieces of a text.
pub trait StringExt {
    /// The number of pieces that `word` cuts the text into, kept to 32 bits.
    fn count_words(&self, word: &str) -> u32;
}

impl StringExt for str {
    fn count_words(&self, word: &str) -> (pieces: u32)
        ensures
            pieces == piece_count(self@, word@) % 0x1_0000_0000,
    {
        (count_pieces(self, word) % 0x1_0000_0000) as u32
    }
}

} // verus!
