//! Text helpers over the characters of a string.

use vstd::prelude::*;
use vstd::string::StrSliceExecFns;

verus! {

/// Whether `part` occurs in `text` as a run of consecutive characters.
pub open spec fn contains_text(text: Seq<char>, part: Seq<char>) -> bool {
    exists|start: int| occurs_at(text, part, start)
}

/// Whether `part` stands in `text` from position `start` on.
pub open spec fn occurs_at(text: Seq<char>, part: Seq<char>, start: int) -> bool {
    &&& 0 <= start
    &&& start + part.len() <= text.len()
    &&& text.subrange(start, start + part.len()) == part
}

/// The characters of `text`, in order.
pub fn chars_of(text: &str) -> (chars: Vec<char>)
    ensures
        chars@ == text@,
{
    let count: usize = text.unicode_len();
    let mut chars: Vec<char> = Vec::new();
    let mut i: usize = 0;
    while i < count
        invariant
            count == text@.len(),
            i <= count,
            chars@ == text@.take(i as int),
        decreases count - i,
    {
        chars.push(text.get_char(i));
        i += 1;
        assert(chars@ =~= text@.take(i as int));
    }
    assert(text@.take(count as int) =~= text@);
    chars
}

/// Whether two texts hold the same characters.
pub fn same_text(a: &str, b: &str) -> (same: bool)
    ensures
        same == (a@ == b@),
{
    let left = chars_of(a);
    let right = chars_of(b);
    if left.len() != right.len() {
        return false;
    }
    let mut k: usize = 0;
    while k < left.len()
        invariant
            left@ == a@,
            right@ == b@,
            left@.len() == right@.len(),
            k <= left@.len(),
            forall|j: int| 0 <= j < k ==> left@[j] == right@[j],
        decreases left@.len() - k,
    {
        if left[k] != right[k] {
            assert(a@[k as int] != b@[k as int]);
            return false;
        }
        k += 1;
    }
    assert(a@ =~= b@);
    true
}

/// Whether `part` stands in `text` from position `start` on.
fn matches_at(text: &Vec<char>, part: &Vec<char>, start: usize) -> (found: bool)
    requires
        start + part@.len() <= text@.len(),
    ensures
        found == occurs_at(text@, part@, start as int),
{
    let width: usize = part.len();
    let length: usize = text.len();
    let mut k: usize = 0;
    while k < width
        invariant
            width == part@.len(),
            length == text@.len(),
            start + width <= length,
            k <= width,
            forall|j: int| 0 <= j < k ==> text@[start + j] == part@[j],
        decreases width - k,
    {
        if text[start + k] != part[k] {
            assert(text@.subrange(start as int, start + width)[k as int] != part@[k as int]);
            return false;
        }
        k += 1;
    }
    assert(text@.subrange(start as int, start + width) =~= part@);
    true
}

/// Whether `part` occurs in `text`; the empty text occurs in every text.
pub fn contains(text: &str, part: &str) -> (found: bool)
    ensures
        found == contains_text(text@, part@),
{
    let whole = chars_of(text);
    let piece = chars_of(part);
    if piece.len() > whole.len() {
        return false;
    }
    let last: usize = whole.len() - piece.len();
    let mut start: usize = 0;
    loop
        invariant
            whole@ == text@,
            piece@ == part@,
            last == whole@.len() - piece@.len(),
            start <= last,
            forall|s: int| 0 <= s < start ==> !occurs_at(text@, part@, s),
        decreases last - start,
    {
        if matches_at(&whole, &piece, start) {
            assert(occurs_at(text@, part@, start as int));
            return true;
        }
        if start == last {
            return false;
        }
        start += 1;
    }
}

} // verus!
