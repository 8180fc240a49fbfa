//! Working with text as a sequence of characters.

use vstd::prelude::*;

verus! {

/// The characters of `text`, in order.
pub fn chars_of(text: &str) -> (chars: Vec<char>)
    ensures
        chars@ == text@,
{
    let mut chars: Vec<char> = Vec::new();
    for c in it: text.chars()
        invariant
            chars@ == it.seq().take(it.index()),
            it.seq() == text@,
    {
        chars.push(c);
    }
    chars
}

/// Whether `pattern` stands in `text` from position `at` on.
pub open spec fn occurs_at(text: Seq<char>, pattern: Seq<char>, at: int) -> bool {
    &&& 0 <= at
    &&& at + pattern.len() <= text.len()
    &&& text.subrange(at, at + pattern.len()) == pattern
}

/// Whether `pattern` stands somewhere in `text`. The empty pattern stands in
/// every text.
pub open spec fn text_contains(text: Seq<char>, pattern: Seq<char>) -> bool {
    exists|at: int| occurs_at(text, pattern, at)
}

/// Compares `pattern` with the characters of `text` that start at `at`.
pub fn matches_at(text: &Vec<char>, pattern: &Vec<char>, at: usize) -> (same: bool)
    requires
        at + pattern.len() <= text.len(),
    ensures
        same == occurs_at(text@, pattern@, at as int),
{
    let mut k: usize = 0;
    while k < pattern.len()
        invariant
            k <= pattern.len(),
            at + pattern.len() <= text.len(),
            forall|j: int| 0 <= j < k ==> text@[at + j] == pattern@[j],
        decreases pattern.len() - k,
    {
        if text[at + k] != pattern[k] {
            assert(text@.subrange(at as int, at + pattern.len())[k as int] != pattern@[k as int]);
            return false;
        }
        k += 1;
    }
    assert(text@.subrange(at as int, at + pattern.len()) =~= pattern@);
    true
}

/// Searches `text` for `pattern`.
pub fn contains_chars(text: &Vec<char>, pattern: &Vec<char>) -> (found: bool)
    ensures
        found == text_contains(text@, pattern@),
{
    if pattern.len() > text.len() {
        return false;
    }
    let last: usize = text.len() - pattern.len();
    let mut at: usize = 0;
    loop
        invariant
            at <= last,
            last == text.len() - pattern.len(),
            forall|k: int| 0 <= k < at ==> !occurs_at(text@, pattern@, k),
        decreases last - at,
    {
        if matches_at(text, pattern, at) {
            return true;
        }
        if at == last {
            return false;
        }
        at += 1;
    }
}

/// Searches `text` for `pattern`.
pub fn contains(text: &str, pattern: &str) -> (found: bool)
    ensures
        found == text_contains(text@, pattern@),
{
    let text_chars: Vec<char> = chars_of(text);
    let pattern_chars: Vec<char> = chars_of(pattern);
    contains_chars(&text_chars, &pattern_chars)
}

/// `String::push` puts one character at the end of the text.
pub assume_specification[ String::push ](text: &mut String, c: char)
    ensures
        final(text)@ == old(text)@.push(c),
;

/// The characters of `chars` from `from` up to, and without, `to`, as a text.
pub fn string_of(chars: &Vec<char>, from: usize, to: usize) -> (text: String)
    requires
        from <= to <= chars.len(),
    ensures
        text@ == chars@.subrange(from as int, to as int),
{
    let mut text: String = String::new();
    let mut i: usize = from;
    while i < to
        invariant
            from <= i <= to <= chars.len(),
            text@ == chars@.subrange(from as int, i as int),
        decreases to - i,
    {
        text.push(chars[i]);
        assert(chars@.subrange(from as int, i as int).push(chars@[i as int]) =~= chars@.subrange(
            from as int,
            i + 1,
        ));
        i += 1;
    }
    text
}

/// The place of the first `c` in `text`, or the length of `text` where it
/// holds none.
pub open spec fn first_index(text: Seq<char>, c: char) -> int
    decreases text.len(),
{
    if text.len() == 0 {
        0
    } else if text[0] == c {
        0
    } else {
        1 + first_index(text.drop_first(), c)
    }
}

/// The pieces into which the separators `sep` cut `text`. A text without a
/// separator is one piece; a separator at the very end leaves an empty last
/// piece.
pub open spec fn split(text: Seq<char>, sep: char) -> Seq<Seq<char>>
    decreases text.len(),
{
    let cut = first_index(text, sep);
    if 0 <= cut < text.len() {
        seq![text.take(cut)] + split(text.skip(cut + 1), sep)
    } else {
        seq![text]
    }
}

/// `first_index` is the place before which no `c` stands and at which one
/// does, or the text ends.
pub proof fn lemma_first_index(text: Seq<char>, c: char, at: int)
    requires
        0 <= at <= text.len(),
        forall|j: int| 0 <= j < at ==> text[j] != c,
        at < text.len() ==> text[at] == c,
    ensures
        first_index(text, c) == at,
    decreases at,
{
    if at > 0 {
        lemma_first_index(text.drop_first(), c, at - 1);
    }
}

/// The lists of characters that `pieces` holds.
pub open spec fn views_of(pieces: Seq<Vec<char>>) -> Seq<Seq<char>> {
    pieces.map_values(|piece: Vec<char>| piece@)
}

/// Cuts `text` at every `sep`.
pub fn split_chars(text: &Vec<char>, sep: char) -> (pieces: Vec<Vec<char>>)
    ensures
        views_of(pieces@) == split(text@, sep),
{
    let mut pieces: Vec<Vec<char>> = Vec::new();
    let mut piece: Vec<char> = Vec::new();
    let mut start: usize = 0;
    let mut i: usize = 0;
    assert(text@.skip(0) =~= text@);
    assert(views_of(pieces@) + split(text@, sep) =~= split(text@, sep));
    while i < text.len()
        invariant
            start <= i <= text.len(),
            piece@ == text@.subrange(start as int, i as int),
            forall|j: int| start <= j < i ==> text@[j] != sep,
            split(text@, sep) == views_of(pieces@) + split(text@.skip(start as int), sep),
        decreases text.len() - i,
    {
        let c: char = text[i];
        if c == sep {
            proof {
                let rest = text@.skip(start as int);
                lemma_first_index(rest, sep, i - start);
                assert(rest.take(i - start) =~= piece@);
                assert(rest.skip(i - start + 1) =~= text@.skip(i + 1));
                assert(views_of(pieces@.push(piece)) + split(text@.skip(i + 1), sep) =~= views_of(
                    pieces@,
                ) + split(rest, sep));
            }
            pieces.push(piece);
            piece = Vec::new();
            start = i + 1;
            assert(text@.subrange(start as int, start as int) =~= piece@);
        } else {
            piece.push(c);
            assert(text@.subrange(start as int, i as int).push(c) =~= text@.subrange(
                start as int,
                i + 1,
            ));
        }
        i += 1;
    }
    proof {
        let rest = text@.skip(start as int);
        lemma_first_index(rest, sep, rest.len() as int);
        assert(rest =~= piece@);
        assert(views_of(pieces@.push(piece)) =~= views_of(pieces@) + split(rest, sep));
    }
    pieces.push(piece);
    pieces
}

/// Whether `c` is one of the ten ASCII digits.
pub open spec fn is_digit(c: char) -> bool {
    '0' <= c <= '9'
}

/// The number that the digit `c` stands for.
pub open spec fn digit_value(c: char) -> int {
    c as int - '0' as int
}

/// Whether the `len` characters of `text` from `from` on are all digits.
pub open spec fn digits_at(text: Seq<char>, from: int, len: int) -> bool {
    forall|i: int| from <= i < from + len ==> is_digit(#[trigger] text[i])
}

/// The decimal number written by the `len` characters of `text` from `from`
/// on.
pub open spec fn number_at(text: Seq<char>, from: int, len: int) -> int
    decreases len,
{
    if len <= 0 {
        0
    } else {
        number_at(text, from, len - 1) * 10 + digit_value(text[from + len - 1])
    }
}

/// The number that `value` writes in decimal digits, where it is made of
/// digits alone and the number fits 32 bits.
pub open spec fn unsigned_of(value: Seq<char>) -> Option<u32> {
    if value.len() > 0 && digits_at(value, 0, value.len() as int) && number_at(
        value,
        0,
        value.len() as int,
    ) <= u32::MAX {
        Some(number_at(value, 0, value.len() as int) as u32)
    } else {
        None
    }
}

/// More digits behind a number do not make it smaller.
proof fn lemma_number_grows(value: Seq<char>, shorter: int, longer: int)
    requires
        0 <= shorter <= longer <= value.len(),
        digits_at(value, 0, longer),
    ensures
        0 <= number_at(value, 0, shorter) <= number_at(value, 0, longer),
    decreases longer,
{
    if longer > 0 {
        assert(is_digit(value[longer - 1]));
        if shorter < longer {
            lemma_number_grows(value, shorter, longer - 1);
        } else {
            lemma_number_grows(value, shorter - 1, longer - 1);
        }
    }
}

/// Reads a number written in decimal digits.
pub fn read_unsigned(value: &Vec<char>) -> (number: Option<u32>)
    ensures
        number == unsigned_of(value@),
{
    if value.len() == 0 {
        return None;
    }
    let mut total: u64 = 0;
    let mut k: usize = 0;
    while k < value.len()
        invariant
            k <= value.len(),
            digits_at(value@, 0, k as int),
            total == number_at(value@, 0, k as int),
            total <= u32::MAX,
        decreases value.len() - k,
    {
        let c: char = value[k];
        if c < '0' || c > '9' {
            assert(!is_digit(value@[k as int]));
            return None;
        }
        total = total * 10 + (c as u64 - '0' as u64);
        k += 1;
        if total > 0xffff_ffff {
            proof {
                if digits_at(value@, 0, value.len() as int) {
                    lemma_number_grows(value@, k as int, value.len() as int);
                }
            }
            return None;
        }
    }
    Some(total as u32)
}

/// The digit that writes `d`, for `d` from 0 to 9.
pub open spec fn digit_char(d: int) -> char {
    if d == 0 {
        '0'
    } else if d == 1 {
        '1'
    } else if d == 2 {
        '2'
    } else if d == 3 {
        '3'
    } else if d == 4 {
        '4'
    } else if d == 5 {
        '5'
    } else if d == 6 {
        '6'
    } else if d == 7 {
        '7'
    } else if d == 8 {
        '8'
    } else {
        '9'
    }
}

/// `n` in decimal digits, without leading zeros.
pub open spec fn decimal_text(n: nat) -> Seq<char>
    decreases n,
{
    if n < 10 {
        seq![digit_char(n as int)]
    } else {
        decimal_text(n / 10).push(digit_char((n % 10) as int))
    }
}

/// `n` in decimal digits, with zeros in front up to `width` digits.
pub open spec fn padded_text(n: nat, width: nat) -> Seq<char>
    decreases width,
{
    if decimal_text(n).len() >= width {
        decimal_text(n)
    } else {
        seq!['0'] + padded_text(n, (width - 1) as nat)
    }
}

/// The digit for `d`.
fn digit_of(d: u64) -> (c: char)
    requires
        d < 10,
    ensures
        c == digit_char(d as int),
{
    if d == 0 {
        '0'
    } else if d == 1 {
        '1'
    } else if d == 2 {
        '2'
    } else if d == 3 {
        '3'
    } else if d == 4 {
        '4'
    } else if d == 5 {
        '5'
    } else if d == 6 {
        '6'
    } else if d == 7 {
        '7'
    } else if d == 8 {
        '8'
    } else {
        '9'
    }
}

/// Writes `n` in decimal digits behind `text` and tells how many digits
/// that took.
pub fn push_decimal(text: &mut String, n: u64) -> (digits: u32)
    ensures
        final(text)@ == old(text)@ + decimal_text(n as nat),
        digits == decimal_text(n as nat).len(),
        1 <= digits <= 20,
    decreases n,
{
    if n < 10 {
        text.push(digit_of(n));
        assert(text@ =~= old(text)@ + decimal_text(n as nat));
        1
    } else {
        let before: u32 = push_decimal(text, n / 10);
        text.push(digit_of(n % 10));
        assert(text@ =~= old(text)@ + decimal_text(n as nat));
        proof {
            lemma_decimal_length(n as nat);
        }
        before + 1
    }
}

/// A number below ten to the power of `k` has at most `k` digits.
proof fn lemma_decimal_length(n: nat)
    ensures
        n < 10 ==> decimal_text(n).len() == 1,
        n < 100 ==> decimal_text(n).len() <= 2,
        n < 1000 ==> decimal_text(n).len() <= 3,
        n < 10000 ==> decimal_text(n).len() <= 4,
        n < 100000 ==> decimal_text(n).len() <= 5,
        n < 1000000 ==> decimal_text(n).len() <= 6,
        n < 10000000 ==> decimal_text(n).len() <= 7,
        n < 100000000 ==> decimal_text(n).len() <= 8,
        n < 1000000000 ==> decimal_text(n).len() <= 9,
        n < 10000000000 ==> decimal_text(n).len() <= 10,
        n < 100000000000 ==> decimal_text(n).len() <= 11,
        n < 1000000000000 ==> decimal_text(n).len() <= 12,
        n < 10000000000000 ==> decimal_text(n).len() <= 13,
        n < 100000000000000 ==> decimal_text(n).len() <= 14,
        n < 1000000000000000 ==> decimal_text(n).len() <= 15,
        n < 10000000000000000 ==> decimal_text(n).len() <= 16,
        n < 100000000000000000 ==> decimal_text(n).len() <= 17,
        n < 1000000000000000000 ==> decimal_text(n).len() <= 18,
        n < 10000000000000000000 ==> decimal_text(n).len() <= 19,
        n < 100000000000000000000 ==> decimal_text(n).len() <= 20,
        decimal_text(n).len() >= 1,
    decreases n,
{
    if n >= 10 {
        lemma_decimal_length(n / 10);
    }
}

/// The number of digits of `n`.
fn count_digits(n: u64) -> (digits: u32)
    ensures
        digits == decimal_text(n as nat).len(),
        1 <= digits <= 20,
    decreases n,
{
    if n < 10 {
        1
    } else {
        proof {
            lemma_decimal_length(n as nat);
        }
        count_digits(n / 10) + 1
    }
}

/// Writes `n` behind `text`, with zeros in front up to `width` digits.
pub fn push_padded(text: &mut String, n: u64, width: u32)
    ensures
        final(text)@ == old(text)@ + padded_text(n as nat, width as nat),
{
    let digits: u32 = count_digits(n);
    let mut left: u32 = width;
    let ghost start = text@;
    while left > digits
        invariant
            digits == decimal_text(n as nat).len(),
            left <= width,
            text@ + padded_text(n as nat, left as nat) == start + padded_text(
                n as nat,
                width as nat,
            ),
        decreases left,
    {
        let ghost before = text@;
        text.push('0');
        proof {
            assert(padded_text(n as nat, left as nat) == seq!['0'] + padded_text(
                n as nat,
                (left - 1) as nat,
            ));
            assert(text@ + padded_text(n as nat, (left - 1) as nat) =~= before + padded_text(
                n as nat,
                left as nat,
            ));
        }
        left -= 1;
    }
    let _ = push_decimal(text, n);
}

/// Whether `c` is white space as Unicode defines it.
pub open spec fn is_whitespace(c: char) -> bool {
    ||| '\u{9}' <= c <= '\u{d}'
    ||| c == ' '
    ||| c == '\u{85}'
    ||| c == '\u{a0}'
    ||| c == '\u{1680}'
    ||| '\u{2000}' <= c <= '\u{200a}'
    ||| c == '\u{2028}'
    ||| c == '\u{2029}'
    ||| c == '\u{202f}'
    ||| c == '\u{205f}'
    ||| c == '\u{3000}'
}

/// `text` with a blank in the place of each white-space character.
pub open spec fn blanked(text: Seq<char>) -> Seq<char> {
    text.map_values(
        |c: char|
            if is_whitespace(c) {
                ' '
            } else {
                c
            },
    )
}

/// `pieces` without the empty ones.
pub open spec fn without_empty(pieces: Seq<Seq<char>>) -> Seq<Seq<char>>
    decreases pieces.len(),
{
    if pieces.len() == 0 {
        Seq::empty()
    } else if pieces.last().len() == 0 {
        without_empty(pieces.drop_last())
    } else {
        without_empty(pieces.drop_last()).push(pieces.last())
    }
}

/// The words of `text`: what stands between its white space.
pub open spec fn words_of(text: Seq<char>) -> Seq<Seq<char>> {
    without_empty(split(blanked(text), ' '))
}

/// The texts that `words` holds, each as its characters.
pub open spec fn texts_of(words: Seq<String>) -> Seq<Seq<char>> {
    words.map_values(|word: String| word@)
}

/// Tells whether `c` is white space.
pub fn whitespace(c: char) -> (white: bool)
    ensures
        white == is_whitespace(c),
{
    ('\u{9}' <= c && c <= '\u{d}') || c == ' ' || c == '\u{85}' || c == '\u{a0}' || c
        == '\u{1680}' || ('\u{2000}' <= c && c <= '\u{200a}') || c == '\u{2028}' || c
        == '\u{2029}' || c == '\u{202f}' || c == '\u{205f}' || c == '\u{3000}'
}

/// Cuts `text` into its words.
pub fn words(text: &str) -> (found: Vec<String>)
    ensures
        texts_of(found@) == words_of(text@),
{
    let chars: Vec<char> = chars_of(text);
    let mut plain: Vec<char> = Vec::new();
    let mut i: usize = 0;
    while i < chars.len()
        invariant
            i <= chars.len(),
            plain@ == blanked(chars@.take(i as int)),
        decreases chars.len() - i,
    {
        let c: char = chars[i];
        if whitespace(c) {
            plain.push(' ');
        } else {
            plain.push(c);
        }
        assert(plain@ =~= blanked(chars@.take(i + 1)));
        i += 1;
    }
    assert(chars@.take(chars.len() as int) =~= chars@);
    let pieces: Vec<Vec<char>> = split_chars(&plain, ' ');
    let ghost all = views_of(pieces@);
    let mut found: Vec<String> = Vec::new();
    let mut k: usize = 0;
    assert(texts_of(found@) =~= without_empty(all.take(0)));
    while k < pieces.len()
        invariant
            k <= pieces.len(),
            all == views_of(pieces@),
            texts_of(found@) == without_empty(all.take(k as int)),
        decreases pieces.len() - k,
    {
        let piece: &Vec<char> = &pieces[k];
        proof {
            assert(all.take(k + 1).drop_last() =~= all.take(k as int));
            assert(all.take(k + 1).last() == piece@);
        }
        if piece.len() > 0 {
            let word: String = string_of(piece, 0, piece.len());
            assert(piece@.subrange(0, piece@.len() as int) =~= piece@);
            let ghost before = texts_of(found@);
            found.push(word);
            assert(texts_of(found@) =~= before.push(piece@));
        }
        k += 1;
    }
    assert(all.take(all.len() as int) =~= all);
    found
}

/// Tells whether `text` is the word `word`.
pub fn same_text(text: &str, word: &str) -> (same: bool)
    ensures
        same == (text@ == word@),
{
    let text_chars: Vec<char> = chars_of(text);
    let word_chars: Vec<char> = chars_of(word);
    let same: bool = text_chars.len() == word_chars.len() && matches_at(
        &text_chars,
        &word_chars,
        0,
    );
    proof {
        if text_chars.len() == word_chars.len() {
            assert(text@.subrange(0, text@.len() as int) =~= text@);
        }
    }
    same
}

} // verus!
