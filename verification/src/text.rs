//! Text helpers: comparison, trimming, and UTF-8.

use vstd::prelude::*;
use vstd::utf8::*;

verus! {

/// `String::push`, as its documentation has it: the character is appended to
/// the end of the string.
pub assume_specification[ std::string::String::push ](s: &mut std::string::String, c: char)
    ensures
        final(s)@ == old(s)@.push(c),
;

/// Whether a character has the Unicode property White_Space, as
/// `char::is_whitespace` decides it.
pub uninterp spec fn white_space(c: char) -> bool;

/// Calls `char::is_whitespace`, whose answer depends on the character alone and
/// goes by the name [`white_space`] here.
#[verifier::external_body]
fn is_white_space(c: char) -> (r: bool)
    ensures
        r == white_space(c),
{
    c.is_whitespace()
}

/// Calls `String::from_utf8` on a copy of the bytes: it succeeds exactly on
/// valid UTF-8, and the string then holds the characters the bytes encode.
#[verifier::external_body]
pub(crate) fn text_of_utf8(bytes: &[u8]) -> (r: Option<String>)
    ensures
        r is Some <==> valid_utf8(bytes@),
        r matches Some(s) ==> s@ == decode_utf8(bytes@),
{
    String::from_utf8(bytes.to_vec()).ok()
}

/// Are two byte strings equal?
pub fn same_bytes(a: &[u8], b: &[u8]) -> (r: bool)
    ensures
        r == (a@ == b@),
{
    if a.len() != b.len() {
        return false;
    }
    let mut i: usize = 0;
    while i < a.len()
        invariant
            i <= a.len(),
            a.len() == b.len(),
            forall|j: int| 0 <= j < i ==> a[j] == b[j],
        decreases a.len() - i,
    {
        if a[i] != b[i] {
            return false;
        }
        i = i + 1;
    }
    assert(a@ =~= b@);
    true
}

/// Are two strings equal?
pub fn same_text(a: &str, b: &str) -> (r: bool)
    ensures
        r == (a@ == b@),
{
    let r: bool = same_bytes(a.as_bytes(), b.as_bytes());
    proof {
        encode_utf8_decode_utf8(a@);
        encode_utf8_decode_utf8(b@);
    }
    r
}

/// How many marks are set at the front.
pub open spec fn leading(marks: Seq<bool>) -> nat
    decreases marks.len(),
{
    if marks.len() > 0 && marks[0] {
        1 + leading(marks.drop_first())
    } else {
        0
    }
}

/// How many marks are set at the back.
pub open spec fn trailing(marks: Seq<bool>) -> nat
    decreases marks.len(),
{
    if marks.len() > 0 && marks.last() {
        1 + trailing(marks.drop_last())
    } else {
        0
    }
}

/// A string without the marked characters at its two ends.
pub open spec fn without_marked_ends(s: Seq<char>, marks: Seq<bool>) -> Seq<char> {
    let front = leading(marks) as int;
    let rest = marks.skip(front);
    s.subrange(front, s.len() - trailing(rest))
}

/// Which characters of a string are white space.
pub open spec fn white(s: Seq<char>) -> Seq<bool> {
    s.map_values(|c: char| white_space(c))
}

/// A string without the white space at its two ends.
pub open spec fn trimmed(s: Seq<char>) -> Seq<char> {
    without_marked_ends(s, white(s))
}

proof fn lemma_marks_are_lengths(marks: Seq<bool>)
    ensures
        leading(marks) <= marks.len(),
        trailing(marks) <= marks.len(),
        leading(marks) < marks.len() ==> !marks[leading(marks) as int],
        trailing(marks) < marks.len() ==> !marks[marks.len() - trailing(marks) - 1],
    decreases marks.len(),
{
    if marks.len() > 0 {
        lemma_marks_are_lengths(marks.drop_first());
        lemma_marks_are_lengths(marks.drop_last());
    }
}

/// A string without the marked characters at its two ends.
pub fn trim_marked<'a>(s: &'a str, marks: &Vec<bool>) -> (r: &'a str)
    requires
        marks@.len() == s@.len(),
    ensures
        r@ == without_marked_ends(s@, marks@),
{
    let n: usize = marks.len();
    let mut i: usize = 0;
    proof {
        lemma_marks_are_lengths(marks@);
        assert(marks@.skip(0) =~= marks@);
    }
    while i < n && marks[i]
        invariant
            n == marks@.len(),
            i <= n,
            leading(marks@) == i + leading(marks@.skip(i as int)),
        decreases n - i,
    {
        assert(marks@.skip(i as int).drop_first() =~= marks@.skip(i + 1));
        i = i + 1;
    }
    let ghost rest = marks@.skip(i as int);
    assert(leading(rest) == 0);
    proof {
        lemma_marks_are_lengths(rest);
        assert(rest.take(rest.len() as int) =~= rest);
    }
    let mut j: usize = n;
    while j > i && marks[j - 1]
        invariant
            n == marks@.len(),
            i <= j <= n,
            rest == marks@.skip(i as int),
            trailing(rest) == (n - j) + trailing(rest.take(j - i)),
        decreases j - i,
    {
        assert(rest.take(j - i).drop_last() =~= rest.take(j - i - 1));
        j = j - 1;
    }
    assert(trailing(rest.take(j - i)) == 0);
    s.substring_char(i, j)
}

/// A string without the white space at its two ends, as `str::trim` gives it.
pub fn trim(s: &str) -> (r: &str)
    ensures
        r@ == trimmed(s@),
{
    let n: usize = s.unicode_len();
    let mut marks: Vec<bool> = Vec::new();
    let mut i: usize = 0;
    while i < n
        invariant
            n == s@.len(),
            i <= n,
            marks@ == white(s@).take(i as int),
        decreases n - i,
    {
        marks.push(is_white_space(s.get_char(i)));
        i = i + 1;
        assert(marks@ =~= white(s@).take(i as int));
    }
    assert(marks@ =~= white(s@));
    trim_marked(s, &marks)
}

/// A string that was trimmed has nothing left to trim.
pub proof fn trimming_twice_is_trimming_once(s: Seq<char>)
    ensures
        trimmed(trimmed(s)) == trimmed(s),
{
    let marks = white(s);
    lemma_marks_are_lengths(marks);
    let front = leading(marks) as int;
    lemma_marks_are_lengths(marks.skip(front));
    let t = trimmed(s);
    let again = white(t);
    if t.len() > 0 {
        assert(!again[0]) by {
            assert(t[0] == s[front]);
        }
        assert(!again.last()) by {
            assert(again.last() == marks[front + t.len() - 1]);
        }
        assert(leading(again) == 0);
        assert(again.skip(0) =~= again);
        assert(trailing(again) == 0);
        assert(t.subrange(0, t.len() as int) =~= t);
    } else {
        assert(trimmed(t) =~= t);
    }
}

/// Trimming cuts white space off the two ends and nothing else: what is left is a
/// stretch of the string that neither begins nor ends with white space, and every
/// character outside it is white space.
pub proof fn trimming_cuts_white_space_off_the_ends(s: Seq<char>)
    ensures
        ({
            let t = trimmed(s);
            &&& t.len() > 0 ==> !white_space(t[0]) && !white_space(t.last())
            &&& exists|from: int|
                0 <= from && from + t.len() <= s.len() && t == #[trigger] s.subrange(
                    from,
                    from + t.len(),
                ) && (forall|k: int|
                    0 <= k < s.len() && (k < from || k >= from + t.len()) ==> white_space(
                        #[trigger] s[k],
                    ))
        }),
{
    let marks = white(s);
    let front = leading(marks) as int;
    lemma_marks_are_lengths(marks);
    let rest = marks.skip(front);
    lemma_marks_are_lengths(rest);
    lemma_marked_ends(marks);
    lemma_marked_ends(rest);
    let t = trimmed(s);
    if t.len() > 0 {
        assert(t[0] == s[front] && !marks[front]);
        assert(t.last() == s[front + t.len() - 1]);
        assert(rest[rest.len() - trailing(rest) - 1] == marks[front + t.len() - 1]);
    }
    assert(t == s.subrange(front, front + t.len()));
    assert forall|k: int| 0 <= k < s.len() && (k < front || k >= front + t.len()) implies
        white_space(#[trigger] s[k]) by {
        assert(marks[k] == white_space(s[k]));
        if k >= front {
            assert(rest[k - front] == marks[k]);
        }
    }
}

proof fn lemma_marked_ends(marks: Seq<bool>)
    ensures
        forall|k: int| 0 <= k < leading(marks) && k < marks.len() ==> #[trigger] marks[k],
        forall|k: int|
            0 <= k < marks.len() && k >= marks.len() - trailing(marks) ==> #[trigger] marks[k],
    decreases marks.len(),
{
    if marks.len() > 0 {
        let tail = marks.drop_first();
        let head = marks.drop_last();
        lemma_marked_ends(tail);
        lemma_marked_ends(head);
        assert forall|k: int| 0 <= k < leading(marks) && k < marks.len() implies
            #[trigger] marks[k] by {
            if k > 0 {
                assert(tail[k - 1] == marks[k]);
            }
        }
        assert forall|k: int|
            0 <= k < marks.len() && k >= marks.len() - trailing(marks) implies
            #[trigger] marks[k] by {
            if k < marks.len() - 1 {
                assert(head[k] == marks[k]);
            }
        }
    }
}

} // verus!
