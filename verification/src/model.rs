//! The text of a model: numbers separated by white space.
//!
//! A model comes as two texts. One lists the corners of its triangles as
//! indices into the other, which lists its vertices, six numbers each.
use vstd::prelude::*;

verus! {

/// The character is white space: one of the twenty-five that separate
/// words.
pub open spec fn is_space(c: char) -> bool {
    let n = c as u32;
    ||| 0x09 <= n <= 0x0D
    ||| n == 0x20
    ||| n == 0x85
    ||| n == 0xA0
    ||| n == 0x1680
    ||| 0x2000 <= n <= 0x200A
    ||| n == 0x2028
    ||| n == 0x2029
    ||| n == 0x202F
    ||| n == 0x205F
    ||| n == 0x3000
}

/// The characters from `a` up to `b` are a word of `text`: none of them is
/// white space, and the word cannot be made longer at either end.
pub open spec fn is_word(text: Seq<char>, a: int, b: int) -> bool {
    &&& 0 <= a < b <= text.len()
    &&& forall|i: int| a <= i < b ==> !is_space(#[trigger] text[i])
    &&& a == 0 || is_space(text[a - 1])
    &&& b == text.len() || is_space(text[b])
}

/// `words` are the words of `text`, each by its start and its end, in the
/// order of the text, none left out.
pub open spec fn is_split(text: Seq<char>, words: Seq<(usize, usize)>) -> bool {
    &&& forall|k: int|
        0 <= k < words.len() ==> is_word(text, (#[trigger] words[k]).0 as int, words[k].1 as int)
    &&& forall|k: int| 0 <= k < words.len() - 1 ==> (#[trigger] words[k]).1 < words[k + 1].0
    &&& forall|i: int|
        0 <= i < text.len() && !is_space(#[trigger] text[i]) ==> exists|k: int|
            0 <= k < words.len() && (#[trigger] words[k]).0 <= i < words[k].1
}

/// The character is a decimal digit.
pub open spec fn is_digit(c: char) -> bool {
    '0' <= c <= '9'
}

/// The number that a decimal digit stands for; zero for any other
/// character.
pub open spec fn digit_value(c: char) -> nat {
    if is_digit(c) {
        (c as u32 - '0' as u32) as nat
    } else {
        0
    }
}

/// The number that a row of decimal digits writes.
pub open spec fn digits_value(digits: Seq<char>) -> nat
    decreases digits.len(),
{
    if digits.len() == 0 {
        0
    } else {
        digits_value(digits.drop_last()) * 10 + digit_value(digits.last())
    }
}

/// The word after its plus sign, if it starts with one.
pub open spec fn unsigned(word: Seq<char>) -> Seq<char> {
    if word.len() > 0 && word[0] == '+' {
        word.skip(1)
    } else {
        word
    }
}

/// Every character of the row is a decimal digit.
pub open spec fn all_digits(digits: Seq<char>) -> bool {
    forall|i: int| 0 <= i < digits.len() ==> is_digit(#[trigger] digits[i])
}

/// The index that a word writes: decimal digits, at least one, after an
/// optional plus sign, for a number of at most 65535. Any other word
/// writes no index.
pub open spec fn index_of(word: Seq<char>) -> Option<u16> {
    let digits = unsigned(word);
    if digits.len() > 0 && all_digits(digits) && digits_value(digits) <= u16::MAX {
        Some(digits_value(digits) as u16)
    } else {
        None
    }
}

/// The indices that the first `count` of the words write, in their order.
/// A word that writes none is passed over.
pub open spec fn indices_of(text: Seq<char>, words: Seq<(usize, usize)>, count: nat) -> Seq<u16>
    decreases count,
{
    if count == 0 {
        Seq::empty()
    } else {
        let before = indices_of(text, words, (count - 1) as nat);
        let word = words[count - 1];
        match index_of(text.subrange(word.0 as int, word.1 as int)) {
            Some(index) => before.push(index),
            None => before,
        }
    }
}

/// Whether the character is white space.
pub fn is_whitespace(c: char) -> (b: bool)
    ensures
        b == is_space(c),
{
    let n: u32 = c as u32;
    (0x09 <= n && n <= 0x0D) || n == 0x20 || n == 0x85 || n == 0xA0 || n == 0x1680 || (0x2000 <= n
        && n <= 0x200A) || n == 0x2028 || n == 0x2029 || n == 0x202F || n == 0x205F || n == 0x3000
}

/// The words of a text, each by the place of its first character and the
/// place after its last.
pub fn split_whitespace(text: &Vec<char>) -> (words: Vec<(usize, usize)>)
    ensures
        is_split(text@, words@),
{
    let mut words: Vec<(usize, usize)> = Vec::new();
    let mut i: usize = 0;
    while i < text.len()
        invariant
            i <= text.len(),
            i == 0 || is_space(text@[i - 1]) || i == text.len() || is_space(text@[i as int]),
            forall|k: int|
                0 <= k < words.len() ==> is_word(
                    text@,
                    (#[trigger] words[k]).0 as int,
                    words[k].1 as int,
                ),
            forall|k: int| 0 <= k < words.len() - 1 ==> (#[trigger] words[k]).1 < words[k + 1].0,
            forall|k: int| 0 <= k < words.len() ==> (#[trigger] words[k]).1 <= i,
            forall|j: int|
                0 <= j < i && !is_space(#[trigger] text@[j]) ==> exists|k: int|
                    0 <= k < words.len() && (#[trigger] words[k]).0 <= j < words[k].1,
        decreases text.len() - i,
    {
        if is_whitespace(text[i]) {
            i += 1;
        } else {
            let start = i;
            while i < text.len() && !is_whitespace(text[i])
                invariant
                    start <= i <= text.len(),
                    start < text.len(),
                    !is_space(text@[start as int]),
                    forall|j: int| start <= j < i ==> !is_space(#[trigger] text@[j]),
                decreases text.len() - i,
            {
                i += 1;
            }
            let ghost before = words@;
            words.push((start, i));
            assert(is_word(text@, start as int, i as int));
            assert forall|j: int| 0 <= j < i && !is_space(#[trigger] text@[j]) implies exists|
                k: int,
            |
                0 <= k < words.len() && (#[trigger] words[k]).0 <= j < words[k].1 by {
                if j < start {
                    let k = choose|k: int|
                        0 <= k < before.len() && (#[trigger] before[k]).0 <= j < before[k].1;
                    assert(words[k] == before[k]);
                } else {
                    assert(words[words.len() - 1].0 <= j < words[words.len() - 1].1);
                }
            }
            assert forall|k: int| 0 <= k < words.len() - 1 implies (#[trigger] words[k]).1
                < words[k + 1].0 by {
                if k == words.len() - 2 {
                    assert(words[k] == before[k]);
                    assert(is_word(text@, before[k].0 as int, before[k].1 as int));
                } else {
                    assert(words[k] == before[k] && words[k + 1] == before[k + 1]);
                }
            }
        }
    }
    words
}

/// The index that the characters of `text` from `start` up to `end` write,
/// if they write one.
pub fn parse_index(text: &Vec<char>, start: usize, end: usize) -> (r: Option<u16>)
    requires
        start <= end <= text.len(),
    ensures
        r == index_of(text@.subrange(start as int, end as int)),
{
    let ghost word = text@.subrange(start as int, end as int);
    let first = if start < end && text[start] == '+' {
        start + 1
    } else {
        start
    };
    let ghost digits = text@.subrange(first as int, end as int);
    assert(digits =~= unsigned(word));
    if first == end {
        return None;
    }
    let mut value: u32 = 0;
    let mut i: usize = first;
    while i < end
        invariant
            start <= first <= i <= end <= text.len(),
            word == text@.subrange(start as int, end as int),
            digits == text@.subrange(first as int, end as int),
            digits == unsigned(word),
            all_digits(digits.take(i - first)),
            value == digits_value(digits.take(i - first)),
            value <= u16::MAX,
        decreases end - i,
    {
        let c = text[i];
        if !('0' <= c && c <= '9') {
            assert(!is_digit(digits[i - first]));
            return None;
        }
        let digit: u32 = c as u32 - '0' as u32;
        let longer: u32 = value * 10 + digit;
        assert(digits.take(i - first + 1).drop_last() =~= digits.take(i - first));
        assert(digits.take(i - first + 1).last() == c);
        assert(longer == digits_value(digits.take(i - first + 1)));
        if longer > 65535 {
            proof {
                if all_digits(digits) {
                    lemma_digits_grow(digits, (i - first + 1) as nat);
                }
            }
            return None;
        }
        assert forall|j: int| 0 <= j < i - first + 1 implies is_digit(
            #[trigger] digits.take(i - first + 1)[j],
        ) by {
            if j < i - first {
                assert(digits.take(i - first + 1)[j] == digits.take(i - first)[j]);
            }
        }
        value = longer;
        i += 1;
    }
    assert(digits.take(end - first) =~= digits);
    Some(value as u16)
}

/// A row of digits writes no less than each of its beginnings.
pub proof fn lemma_digits_grow(digits: Seq<char>, n: nat)
    requires
        n <= digits.len(),
    ensures
        digits_value(digits.take(n as int)) <= digits_value(digits),
    decreases digits.len() - n,
{
    if n < digits.len() {
        lemma_digits_grow(digits, n + 1);
        let longer = digits.take(n as int + 1);
        assert(longer.drop_last() =~= digits.take(n as int));
        assert(digits_value(longer) == digits_value(longer.drop_last()) * 10 + digit_value(
            longer.last(),
        ));
    } else {
        assert(digits.take(n as int) =~= digits);
    }
}

/// `indices` are the indices that the words of `text` write, in the order
/// of the text.
pub open spec fn is_indices(text: Seq<char>, indices: Seq<u16>) -> bool {
    exists|words: Seq<(usize, usize)>|
        #[trigger] is_split(text, words) && indices == indices_of(text, words, words.len())
}

/// The indices that the words of a text write, in the order of the text.
/// Words that write no index are passed over.
pub fn parse_indices(text: &Vec<char>) -> (indices: Vec<u16>)
    ensures
        is_indices(text@, indices@),
{
    let words = split_whitespace(text);
    let mut indices: Vec<u16> = Vec::new();
    let mut k: usize = 0;
    while k < words.len()
        invariant
            k <= words.len(),
            is_split(text@, words@),
            indices@ == indices_of(text@, words@, k as nat),
        decreases words.len() - k,
    {
        let (start, end) = words[k];
        assert(is_word(text@, words@[k as int].0 as int, words@[k as int].1 as int));
        match parse_index(text, start, end) {
            Some(index) => {
                indices.push(index);
            },
            None => {},
        }
        k += 1;
    }
    indices
}

/// The place of the first of `names` that equals `name`: the id under
/// which a model of that name was loaded, if one was.
pub fn model_id(names: &Vec<String>, name: &String) -> (r: Option<usize>)
    ensures
        match r {
            Some(n) => n < names.len() && names[n as int]@ == name@ && forall|m: int|
                0 <= m < n ==> (#[trigger] names[m])@ != name@,
            None => forall|m: int| 0 <= m < names.len() ==> (#[trigger] names[m])@ != name@,
        },
{
    let mut n: usize = 0;
    while n < names.len()
        invariant
            n <= names.len(),
            forall|m: int| 0 <= m < n ==> (#[trigger] names[m])@ != name@,
        decreases names.len() - n,
    {
        if names[n] == *name {
            return Some(n);
        }
        n += 1;
    }
    None
}

} // verus!
