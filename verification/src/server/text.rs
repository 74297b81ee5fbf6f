//! Text as sequences of characters: where a marker occurs in a name, and the
//! words of a line.

use vstd::prelude::*;
use vstd::string::StrSliceExecFns;

verus! {

/// Whether `marker` stands in `text` from position `k` on.
pub open spec fn occurs_at(text: Seq<char>, marker: Seq<char>, k: int) -> bool {
    0 <= k && k + marker.len() <= text.len() && text.subrange(k, k + marker.len()) == marker
}

/// Whether `marker` stands somewhere in `text`.
pub open spec fn has_marker(text: Seq<char>, marker: Seq<char>) -> bool {
    exists|k: int| occurs_at(text, marker, k)
}

/// The characters of `s`, one by one.
pub fn chars_of(s: &str) -> (chars: Vec<char>)
    ensures
        chars@ == s@,
{
    let n = s.unicode_len();
    let mut chars: Vec<char> = Vec::new();
    let mut i: usize = 0;
    while i < n
        invariant
            n == s@.len(),
            i <= n,
            chars@ == s@.take(i as int),
        decreases n - i,
    {
        chars.push(s.get_char(i));
        i += 1;
        assert(chars@ =~= s@.take(i as int));
    }
    assert(s@.take(n as int) =~= s@);
    chars
}

/// Whether `marker` stands in `text` from position `k` on.
pub fn matches_at(text: &Vec<char>, marker: &Vec<char>, k: usize) -> (same: bool)
    requires
        k + marker.len() <= text.len(),
    ensures
        same == occurs_at(text@, marker@, k as int),
{
    let mut j: usize = 0;
    while j < marker.len()
        invariant
            j <= marker.len(),
            k + marker.len() <= text.len(),
            forall|d: int| 0 <= d < j ==> text@[k + d] == marker@[d],
        decreases marker.len() - j,
    {
        if text[k + j] != marker[j] {
            assert(text@.subrange(k as int, k + marker.len())[j as int] != marker@[j as int]);
            return false;
        }
        j += 1;
    }
    assert(text@.subrange(k as int, k + marker.len()) =~= marker@);
    true
}

/// Whether `marker` stands somewhere in `text`.
pub fn holds_marker(text: &str, marker: &str) -> (found: bool)
    ensures
        found == has_marker(text@, marker@),
{
    let hay = chars_of(text);
    let needle = chars_of(marker);
    if needle.len() > hay.len() {
        return false;
    }
    let last = hay.len() - needle.len();
    let mut k: usize = 0;
    loop
        invariant
            hay@ == text@,
            needle@ == marker@,
            last == hay.len() - needle.len(),
            k <= last,
            forall|j: int| 0 <= j < k ==> !occurs_at(hay@, needle@, j),
        decreases last - k,
    {
        if matches_at(&hay, &needle, k) {
            return true;
        }
        if k == last {
            return false;
        }
        k += 1;
    }
}

/// Whether `c` is white space, as Unicode has it.
pub open spec fn is_space(c: char) -> bool {
    let n = c as u32;
    ||| 0x09 <= n <= 0x0D
    ||| n == 0x20
    ||| n == 0x85
    ||| n == 0xA0
    ||| n == 0x1680
    ||| 0x2000 <= n <= 0x200A
    ||| n == 0x2028
    ||| n == 0x2029
    ||| n == 0x202F
    ||| n == 0x205F
    ||| n == 0x3000
}

/// How many characters of white space `s` begins with.
pub open spec fn space_len(s: Seq<char>) -> nat
    decreases s.len(),
{
    if s.len() > 0 && is_space(s[0]) {
        1 + space_len(s.drop_first())
    } else {
        0
    }
}

/// How many characters other than white space `s` begins with.
pub open spec fn word_len(s: Seq<char>) -> nat
    decreases s.len(),
{
    if s.len() > 0 && !is_space(s[0]) {
        1 + word_len(s.drop_first())
    } else {
        0
    }
}

/// The first word of `s`: what stands between the white space it begins
/// with and the next white space or the end. Empty where `s` has no word.
pub open spec fn first_word(s: Seq<char>) -> Seq<char> {
    let rest = s.skip(space_len(s) as int);
    rest.take(word_len(rest) as int)
}

/// What follows the first word of `s`.
pub open spec fn after_first_word(s: Seq<char>) -> Seq<char> {
    let rest = s.skip(space_len(s) as int);
    rest.skip(word_len(rest) as int)
}

/// A run of white space or of a word ends within the text.
pub proof fn lemma_run_lengths(s: Seq<char>)
    ensures
        space_len(s) <= s.len(),
        word_len(s) <= s.len(),
    decreases s.len(),
{
    if s.len() > 0 {
        lemma_run_lengths(s.drop_first());
    }
}

/// Whether `c` is white space.
pub fn is_space_char(c: char) -> (yes: bool)
    ensures
        yes == is_space(c),
{
    let n: u32 = c as u32;
    (0x09 <= n && n <= 0x0D) || n == 0x20 || n == 0x85 || n == 0xA0 || n == 0x1680 || (0x2000 <= n
        && n <= 0x200A) || n == 0x2028 || n == 0x2029 || n == 0x202F || n == 0x205F || n == 0x3000
}

/// The position after the white space that begins at `from`.
pub fn skip_spaces(chars: &Vec<char>, from: usize) -> (to: usize)
    requires
        from <= chars.len(),
    ensures
        from <= to <= chars.len(),
        to - from == space_len(chars@.skip(from as int)),
{
    let mut to: usize = from;
    while to < chars.len() && is_space_char(chars[to])
        invariant
            from <= to <= chars.len(),
            space_len(chars@.skip(from as int)) == (to - from) + space_len(chars@.skip(to as int)),
        decreases chars.len() - to,
    {
        assert(chars@.skip(to as int).drop_first() =~= chars@.skip(to + 1));
        to += 1;
    }
    to
}

/// The position after the word that begins at `from`.
pub fn skip_word(chars: &Vec<char>, from: usize) -> (to: usize)
    requires
        from <= chars.len(),
    ensures
        from <= to <= chars.len(),
        to - from == word_len(chars@.skip(from as int)),
{
    let mut to: usize = from;
    while to < chars.len() && !is_space_char(chars[to])
        invariant
            from <= to <= chars.len(),
            word_len(chars@.skip(from as int)) == (to - from) + word_len(chars@.skip(to as int)),
        decreases chars.len() - to,
    {
        assert(chars@.skip(to as int).drop_first() =~= chars@.skip(to + 1));
        to += 1;
    }
    to
}

} // verus!
