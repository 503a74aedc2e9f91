//! Character-level helpers shared by the filtering and formatting code.
//!
//! Text is modelled as `Seq<char>`; every executable function here is stated
//! against a spec function over that model.

use vstd::prelude::*;
use vstd::string::StringExecFns;

verus! {

/// Whether `c` has the Unicode `White_Space` property.
pub open spec fn is_space(c: char) -> bool {
    let n = c as u32;
    ||| 0x09 <= n <= 0x0D
    ||| n == 0x20
    ||| n == 0x85
    ||| n == 0xA0
    ||| n == 0x1680
    ||| 0x2000 <= n <= 0x200A
    ||| n == 0x2028
    ||| n == 0x2029
    ||| n == 0x202F
    ||| n == 0x205F
    ||| n == 0x3000
}

/// `s` without its leading white space.
pub open spec fn trim_start(s: Seq<char>) -> Seq<char>
    decreases s.len(),
{
    if s.len() > 0 && is_space(s[0]) {
        trim_start(s.drop_first())
    } else {
        s
    }
}

/// `s` without its trailing white space.
pub open spec fn trim_end(s: Seq<char>) -> Seq<char>
    decreases s.len(),
{
    if s.len() > 0 && is_space(s.last()) {
        trim_end(s.drop_last())
    } else {
        s
    }
}

/// `s` without leading and trailing white space.
pub open spec fn trim(s: Seq<char>) -> Seq<char> {
    trim_end(trim_start(s))
}

/// The pieces of `s` between occurrences of `sep`. There is always at least
/// one piece; an empty text has the single empty piece, and a separator at
/// either end gives an empty piece there.
pub open spec fn split_on(s: Seq<char>, sep: char) -> Seq<Seq<char>>
    decreases s.len(),
{
    if s.len() == 0 {
        seq![Seq::<char>::empty()]
    } else {
        let before = split_on(s.drop_last(), sep);
        if s.last() == sep {
            before.push(Seq::<char>::empty())
        } else {
            before.update(before.len() - 1, before.last().push(s.last()))
        }
    }
}

/// Whether `word` is one of the comma-separated entries of `list`, each
/// entry taken without surrounding white space. The comparison is exact,
/// so it distinguishes upper and lower case.
pub open spec fn list_names(list: Seq<char>, word: Seq<char>) -> bool {
    exists|j: int|
        0 <= j < split_on(list, ',').len() && trim(#[trigger] split_on(list, ',')[j]) == word
}

/// Whether `needle` occurs in `hay` as a contiguous run of characters.
pub open spec fn has_substring(hay: Seq<char>, needle: Seq<char>) -> bool {
    exists|k: int|
        0 <= k && k + needle.len() <= hay.len() && #[trigger] hay.subrange(
            k,
            k + needle.len(),
        ) == needle
}

/// The texts of a list of strings.
pub open spec fn texts_of(words: Seq<String>) -> Seq<Seq<char>> {
    Seq::new(words.len(), |i: int| words[i]@)
}

/// The words of `words` written one after another with a single space
/// between neighbours.
pub open spec fn join_spaced(words: Seq<Seq<char>>) -> Seq<char>
    decreases words.len(),
{
    if words.len() == 0 {
        Seq::<char>::empty()
    } else if words.len() == 1 {
        words[0]
    } else {
        join_spaced(words.drop_last()) + seq![' '] + words.last()
    }
}

/// The character that writes the digit `d`.
pub open spec fn digit_char(d: int) -> char {
    if d == 0 {
        '0'
    } else if d == 1 {
        '1'
    } else if d == 2 {
        '2'
    } else if d == 3 {
        '3'
    } else if d == 4 {
        '4'
    } else if d == 5 {
        '5'
    } else if d == 6 {
        '6'
    } else if d == 7 {
        '7'
    } else if d == 8 {
        '8'
    } else {
        '9'
    }
}

/// The decimal notation of `n`, without leading zeros.
pub open spec fn decimal(n: nat) -> Seq<char>
    decreases n,
{
    if n < 10 {
        seq![digit_char(n as int)]
    } else {
        decimal(n / 10).push(digit_char((n % 10) as int))
    }
}

/// Trimming at the front removes exactly the leading run of white space.
pub proof fn lemma_trim_start_range(s: Seq<char>, a: int)
    requires
        0 <= a <= s.len(),
        forall|i: int| 0 <= i < a ==> is_space(#[trigger] s[i]),
        a == s.len() || !is_space(s[a]),
    ensures
        trim_start(s) == s.subrange(a, s.len() as int),
    decreases a,
{
    if a == 0 {
        assert(s.subrange(0, s.len() as int) == s);
    } else {
        let t = s.drop_first();
        assert forall|i: int| 0 <= i < a - 1 implies is_space(#[trigger] t[i]) by {
            assert(t[i] == s[i + 1]);
        }
        lemma_trim_start_range(t, a - 1);
        assert(t.subrange(a - 1, t.len() as int) == s.subrange(a, s.len() as int));
    }
}

/// Trimming at the back removes exactly the trailing run of white space.
pub proof fn lemma_trim_end_range(s: Seq<char>, b: int)
    requires
        0 <= b <= s.len(),
        forall|i: int| b <= i < s.len() ==> is_space(#[trigger] s[i]),
        b == 0 || !is_space(s[b - 1]),
    ensures
        trim_end(s) == s.subrange(0, b),
    decreases s.len() - b,
{
    if b == s.len() {
        assert(s.subrange(0, b) == s);
    } else {
        let t = s.drop_last();
        lemma_trim_end_range(t, b);
        assert(t.subrange(0, b) == s.subrange(0, b));
    }
}

/// Whether `c` is white space.
pub fn is_whitespace(c: char) -> (b: bool)
    ensures
        b == is_space(c),
{
    let n: u32 = c as u32;
    (0x09 <= n && n <= 0x0D) || n == 0x20 || n == 0x85 || n == 0xA0 || n == 0x1680 || (0x2000 <= n
        && n <= 0x200A) || n == 0x2028 || n == 0x2029 || n == 0x202F || n == 0x205F || n == 0x3000
}

/// The characters of `s`, in order.
pub fn chars_of(s: &str) -> (v: Vec<char>)
    ensures
        v@ == s@,
{
    let mut v: Vec<char> = Vec::new();
    for c in it: s.chars()
        invariant
            v@ == it.seq().take(it.index() as int),
            it.seq() == s@,
    {
        v.push(c);
    }
    v
}

/// Whether the two sequences hold the same characters.
pub fn chars_equal(left: &Vec<char>, right: &Vec<char>) -> (b: bool)
    ensures
        b == (left@ == right@),
{
    if left.len() != right.len() {
        return false;
    }
    let mut i: usize = 0;
    while i < left.len()
        invariant
            left@.len() == right@.len(),
            0 <= i <= left@.len(),
            forall|j: int| 0 <= j < i ==> left@[j] == right@[j],
        decreases left@.len() - i,
    {
        if left[i] != right[i] {
            return false;
        }
        i += 1;
    }
    assert(left@ =~= right@);
    true
}

/// Whether the two texts hold the same characters.
pub fn text_equals(left: &str, right: &str) -> (b: bool)
    ensures
        b == (left@ == right@),
{
    let l = chars_of(left);
    let r = chars_of(right);
    chars_equal(&l, &r)
}

/// Whether the piece `text[start..end]`, trimmed, is exactly `word`.
pub fn trimmed_piece_is(text: &Vec<char>, start: usize, end: usize, word: &Vec<char>) -> (b: bool)
    requires
        start <= end <= text@.len(),
    ensures
        b == (trim(text@.subrange(start as int, end as int)) == word@),
{
    let ghost piece = text@.subrange(start as int, end as int);
    let mut a: usize = start;
    while a < end && is_whitespace(text[a])
        invariant
            start <= a <= end <= text@.len(),
            forall|i: int| start <= i < a ==> is_space(#[trigger] text@[i]),
        decreases end - a,
    {
        a += 1;
    }
    let mut b: usize = end;
    while b > a && is_whitespace(text[b - 1])
        invariant
            start <= a <= b <= end <= text@.len(),
            forall|i: int| b <= i < end ==> is_space(#[trigger] text@[i]),
        decreases b,
    {
        b -= 1;
    }
    proof {
        let front = piece.subrange(a - start, piece.len() as int);
        assert forall|i: int| 0 <= i < a - start implies is_space(#[trigger] piece[i]) by {
            assert(piece[i] == text@[start + i]);
        }
        lemma_trim_start_range(piece, a - start);
        assert forall|i: int| b - a <= i < front.len() implies is_space(#[trigger] front[i]) by {
            assert(front[i] == text@[a + i]);
        }
        lemma_trim_end_range(front, b - a);
        assert(front.subrange(0, b - a) == text@.subrange(a as int, b as int));
        assert(trim(piece) == text@.subrange(a as int, b as int));
    }
    if b - a != word.len() {
        return false;
    }
    let mut i: usize = 0;
    while i < word.len()
        invariant
            start <= a <= b <= end <= text@.len(),
            b - a == word@.len(),
            0 <= i <= word@.len(),
            trim(text@.subrange(start as int, end as int)) == text@.subrange(a as int, b as int),
            forall|j: int| 0 <= j < i ==> text@[a + j] == #[trigger] word@[j],
        decreases word@.len() - i,
    {
        if text[a + i] != word[i] {
            assert(text@.subrange(a as int, b as int)[i as int] != word@[i as int]);
            return false;
        }
        i += 1;
    }
    assert(text@.subrange(a as int, b as int) =~= word@);
    true
}

/// Whether `word` is one of the comma-separated entries of `list`, each
/// entry read without surrounding white space.
pub fn list_contains(list: &str, word: &str) -> (b: bool)
    ensures
        b == list_names(list@, word@),
{
    let text = chars_of(list);
    let target = chars_of(word);
    let mut found = false;
    let mut start: usize = 0;
    let mut i: usize = 0;
    let ghost mut done: Seq<Seq<char>> = Seq::empty();
    proof {
        assert(text@.take(0) == Seq::<char>::empty());
        assert(text@.subrange(0, 0) == Seq::<char>::empty());
        assert(seq![Seq::<char>::empty()] == done.push(Seq::<char>::empty()));
    }
    while i < text.len()
        invariant
            text@ == list@,
            target@ == word@,
            0 <= start <= i <= text@.len(),
            split_on(text@.take(i as int), ',') == done.push(
                text@.subrange(start as int, i as int),
            ),
            found == exists|j: int| 0 <= j < done.len() && trim(#[trigger] done[j]) == word@,
        decreases text@.len() - i,
    {
        let ghost prefix = text@.take(i as int);
        let ghost next = text@.take(i + 1);
        proof {
            assert(next.drop_last() == prefix);
            assert(next.last() == text@[i as int]);
        }
        if text[i] == ',' {
            let hit = trimmed_piece_is(&text, start, i, &target);
            proof {
                let piece = text@.subrange(start as int, i as int);
                let grown = done.push(piece);
                assert(split_on(next, ',') == grown.push(Seq::<char>::empty()));
                assert(text@.subrange(i + 1, i + 1) == Seq::<char>::empty());
                if hit {
                    assert(trim(grown[done.len() as int]) == word@);
                }
                if exists|j: int| 0 <= j < grown.len() && trim(#[trigger] grown[j]) == word@ {
                    let j = choose|j: int| 0 <= j < grown.len() && trim(#[trigger] grown[j])
                        == word@;
                    if j < done.len() {
                        assert(grown[j] == done[j]);
                    }
                }
                if found {
                    let j = choose|j: int| 0 <= j < done.len() && trim(#[trigger] done[j])
                        == word@;
                    assert(grown[j] == done[j]);
                }
                done = grown;
            }
            found = found || hit;
            start = i + 1;
        } else {
            proof {
                let before = done.push(text@.subrange(start as int, i as int));
                assert(before.last().push(text@[i as int]) == text@.subrange(
                    start as int,
                    i + 1,
                ));
                assert(before.update(before.len() - 1, text@.subrange(start as int, i + 1))
                    == done.push(text@.subrange(start as int, i + 1)));
            }
        }
        i += 1;
    }
    let hit = trimmed_piece_is(&text, start, i, &target);
    proof {
        assert(text@.take(i as int) == text@);
        let pieces = split_on(list@, ',');
        assert(pieces == done.push(text@.subrange(start as int, i as int)));
        if hit {
            assert(trim(pieces[done.len() as int]) == word@);
        }
        if found {
            let j = choose|j: int| 0 <= j < done.len() && trim(#[trigger] done[j]) == word@;
            assert(pieces[j] == done[j]);
        }
        if list_names(list@, word@) {
            let j = choose|j: int| 0 <= j < pieces.len() && trim(#[trigger] pieces[j]) == word@;
            if j < done.len() {
                assert(pieces[j] == done[j]);
            }
        }
    }
    found || hit
}

/// Whether `needle` occurs somewhere inside `hay`.
pub fn contains_text(hay: &str, needle: &str) -> (b: bool)
    ensures
        b == has_substring(hay@, needle@),
{
    let h = chars_of(hay);
    let n = chars_of(needle);
    if n.len() == 0 {
        assert(hay@.subrange(0int, 0int + needle@.len()) =~= needle@);
        return true;
    }
    if n.len() > h.len() {
        return false;
    }
    let last: usize = h.len() - n.len();
    let mut k: usize = 0;
    while k <= last
        invariant
            h@ == hay@,
            n@ == needle@,
            1 <= n@.len() <= h@.len() <= usize::MAX,
            last == h@.len() - n@.len(),
            0 <= k <= last + 1,
            forall|m: int| 0 <= m < k ==> #[trigger] h@.subrange(m, m + n@.len()) != n@,
        decreases last + 1 - k,
    {
        let mut i: usize = 0;
        let mut same = true;
        while i < n.len() && same
            invariant
                1 <= n@.len() <= h@.len() <= usize::MAX,
                last == h@.len() - n@.len(),
                0 <= k <= last,
                0 <= i <= n@.len(),
                same ==> forall|j: int| 0 <= j < i ==> h@[k + j] == #[trigger] n@[j],
                !same ==> h@.subrange(k as int, k + n@.len()) != n@,
            decreases n@.len() - i + (if same { 1int } else { 0int }),
        {
            if h[k + i] != n[i] {
                assert(h@.subrange(k as int, k + n@.len())[i as int] != n@[i as int]);
                same = false;
            } else {
                i += 1;
            }
        }
        if same {
            assert(h@.subrange(k as int, k + n@.len()) =~= n@);
            return true;
        }
        k += 1;
    }
    false
}

/// The words of `words` joined by single spaces.
pub fn join_words(words: &Vec<String>) -> (line: String)
    ensures
        line@ == join_spaced(texts_of(words@)),
{
    let ghost texts = texts_of(words@);
    let mut line = String::new();
    let mut i: usize = 0;
    while i < words.len()
        invariant
            0 <= i <= words@.len(),
            texts == texts_of(words@),
            line@ == join_spaced(texts.take(i as int)),
        decreases words@.len() - i,
    {
        proof {
            assert(texts.take(i + 1).drop_last() == texts.take(i as int));
            assert(texts.take(i + 1).last() == words@[i as int]@);
            reveal_strlit(" ");
        }
        if i > 0 {
            line.append(" ");
            assert(line@ == join_spaced(texts.take(i as int)) + seq![' ']);
        } else {
            assert(line@ + words@[i as int]@ == words@[i as int]@);
        }
        line.append(words[i].as_str());
        i += 1;
    }
    assert(texts.take(i as int) == texts);
    line
}

/// The text that writes the digit `d`.
fn digit_text(d: u64) -> (s: &'static str)
    requires
        d < 10,
    ensures
        s@ == seq![digit_char(d as int)],
{
    proof {
        reveal_strlit("0");
        reveal_strlit("1");
        reveal_strlit("2");
        reveal_strlit("3");
        reveal_strlit("4");
        reveal_strlit("5");
        reveal_strlit("6");
        reveal_strlit("7");
        reveal_strlit("8");
        reveal_strlit("9");
    }
    let s = if d == 0 {
        "0"
    } else if d == 1 {
        "1"
    } else if d == 2 {
        "2"
    } else if d == 3 {
        "3"
    } else if d == 4 {
        "4"
    } else if d == 5 {
        "5"
    } else if d == 6 {
        "6"
    } else if d == 7 {
        "7"
    } else if d == 8 {
        "8"
    } else {
        "9"
    };
    assert(s@ =~= seq![digit_char(d as int)]);
    s
}

/// Appends the decimal notation of `n` to `out`.
pub fn push_decimal(out: &mut String, n: u64)
    ensures
        final(out)@ == old(out)@ + decimal(n as nat),
    decreases n,
{
    if n >= 10 {
        push_decimal(out, n / 10);
    }
    out.append(digit_text(n % 10));
    proof {
        if n >= 10 {
            assert(old(out)@ + decimal((n / 10) as nat) + seq![digit_char((n % 10) as int)]
                =~= old(out)@ + decimal(n as nat));
        } else {
            assert(decimal(n as nat) == seq![digit_char(n as int)]);
        }
    }
}

} // verus!
