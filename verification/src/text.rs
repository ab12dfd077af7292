//! Text helpers: decimal rendering of integers, lower-casing, and the
//! byte-indexed editing of a `String` that the search prompt relies on.

use vstd::prelude::*;
use vstd::utf8::*;

verus! {

/// The ASCII digit for `d` (`0 <= d < 10`).
pub open spec fn digit_char(d: nat) -> char {
    if d == 0 { '0' }
    else if d == 1 { '1' }
    else if d == 2 { '2' }
    else if d == 3 { '3' }
    else if d == 4 { '4' }
    else if d == 5 { '5' }
    else if d == 6 { '6' }
    else if d == 7 { '7' }
    else if d == 8 { '8' }
    else { '9' }
}

/// The decimal representation of `n`, most significant digit first, without
/// leading zeros (`0` is written as a single `'0'`).
pub open spec fn decimal(n: nat) -> Seq<char>
    decreases n,
{
    if n < 10 {
        seq![digit_char(n)]
    } else {
        decimal(n / 10).push(digit_char(n % 10))
    }
}

/// The digits of a decimal representation are ASCII, and there are at most
/// `n / 10 + 1` of them.
pub proof fn lemma_decimal_ascii(n: nat)
    ensures
        is_ascii_chars(decimal(n)),
        1 <= decimal(n).len() <= n / 10 + 1,
    decreases n,
{
    if n >= 10 {
        lemma_decimal_ascii(n / 10);
        let d = decimal(n);
        assert forall|i: int| 0 <= i < d.len() implies '\0' <= #[trigger] d[i] <= '\u{7f}' by {
            if i < d.len() - 1 {
                assert(d[i] == decimal(n / 10)[i]);
            }
        }
    }
}

/// The ASCII digit for `d`.
fn digit_of(d: u64) -> (c: char)
    requires
        d < 10,
    ensures
        c == digit_char(d as nat),
{
    if d == 0 { '0' }
    else if d == 1 { '1' }
    else if d == 2 { '2' }
    else if d == 3 { '3' }
    else if d == 4 { '4' }
    else if d == 5 { '5' }
    else if d == 6 { '6' }
    else if d == 7 { '7' }
    else if d == 8 { '8' }
    else { '9' }
}

/// Appends the decimal representation of `n` to the ASCII string `out`.
fn push_decimal(out: &mut String, n: u64)
    requires
        is_ascii_chars(old(out)@),
        old(out)@.len() + n / 10 + 1 <= isize::MAX,
    ensures
        final(out)@ == old(out)@ + decimal(n as nat),
        is_ascii_chars(final(out)@),
    decreases n,
{
    if n >= 10 {
        push_decimal(out, n / 10);
    }
    let c = digit_of(n % 10);
    let ghost before = out@;
    proof {
        lemma_decimal_ascii((n / 10) as nat);
        is_ascii_chars_encode_utf8(before);
        let after = before.push(c);
        assert forall|i: int| 0 <= i < after.len() implies '\0' <= #[trigger] after[i] <= '\u{7f}' by {
            if i < before.len() {
                assert(after[i] == before[i]);
            }
        }
        is_ascii_chars_encode_utf8(after);
        assert(before.insert(before.len() as int, c) =~= after);
        lemma_utf8_len_insert(before, before.len() as int, c);
    }
    string_push(out, c);
    assert(out@ =~= old(out)@ + decimal(n as nat));
}

/// Writes `n` in decimal, as `{}` formatting of an unsigned integer does.
pub fn usize_to_decimal(n: usize) -> (r: String)
    ensures
        r@ == decimal(n as nat),
{
    let mut r = String::new();
    push_decimal(&mut r, n as u64);
    assert(r@ =~= decimal(n as nat));
    r
}

/// Writes `n` in decimal, as `{}` formatting of an unsigned integer does.
pub fn u32_to_decimal(n: u32) -> (r: String)
    ensures
        r@ == decimal(n as nat),
{
    let mut r = String::new();
    push_decimal(&mut r, n as u64);
    assert(r@ =~= decimal(n as nat));
    r
}

/// What `str::to_lowercase` returns for a string: the lower-case equivalent
/// under the Unicode `Lowercase` property.
pub uninterp spec fn lowercase(s: Seq<char>) -> Seq<char>;

/// `c` with an ASCII capital letter turned into its small letter; every other
/// character is kept.
pub open spec fn lower_ascii_char(c: char) -> char {
    if 65 <= (c as u32) <= 90 {
        ((c as u32) + 32) as char
    } else {
        c
    }
}

/// `s` with every ASCII capital letter turned into its small letter.
pub open spec fn ascii_lowered(s: Seq<char>) -> Seq<char> {
    Seq::new(s.len(), |i: int| lower_ascii_char(s[i]))
}

/// Calls `str::to_lowercase`. The contract names its result; of an all-ASCII
/// string it states the result, which std documents as mapping `A`-`Z` to
/// `a`-`z` and keeping every other ASCII character (the Unicode `Lowercase`
/// mapping on that range). The case tables beyond ASCII are not written out.
#[verifier::external_body]
pub fn str_to_lowercase(s: &str) -> (r: String)
    ensures
        r@ == lowercase(s@),
        is_ascii_chars(s@) ==> r@ == ascii_lowered(s@),
{
    s.to_lowercase()
}

/// The number of bytes of the UTF-8 encoding of `s`.
pub open spec fn utf8_len(s: Seq<char>) -> nat {
    encode_utf8(s).len()
}

/// The index of the character that starts at byte offset `b` of the UTF-8
/// encoding of `s` (meaningful where `b` is a char boundary).
pub open spec fn char_index_at(s: Seq<char>, b: int) -> int
    decreases s.len(),
{
    if b <= 0 || s.len() == 0 {
        0
    } else {
        1 + char_index_at(s.drop_first(), b - encode_scalar(s[0] as u32).len())
    }
}

/// Calls `String::insert`, which inserts `c` at byte offset `idx`; it panics
/// unless `idx` lies on a char boundary (which excludes `idx` past the end),
/// and when the string would outgrow `isize::MAX` bytes, the most that an
/// allocation holds. Claims that the character lands before the character
/// that started at `idx`.
#[verifier::external_body]
pub fn string_insert(s: &mut String, idx: usize, c: char)
    requires
        is_char_boundary(encode_utf8(old(s)@), idx as int),
        utf8_len(old(s)@) + encode_scalar(c as u32).len() <= isize::MAX,
    ensures
        final(s)@ == old(s)@.insert(char_index_at(old(s)@, idx as int), c),
{
    s.insert(idx, c)
}

/// Calls `String::remove`, which removes and returns the character that
/// starts at byte offset `idx`; it panics unless `idx` is a char boundary
/// before the end of the string.
#[verifier::external_body]
pub fn string_remove(s: &mut String, idx: usize) -> (r: char)
    requires
        is_char_boundary(encode_utf8(old(s)@), idx as int),
        idx < utf8_len(old(s)@),
    ensures
        r == old(s)@[char_index_at(old(s)@, idx as int)],
        final(s)@ == old(s)@.remove(char_index_at(old(s)@, idx as int)),
{
    s.remove(idx)
}

/// Calls `String::push`, which appends `c`; it panics when the string would
/// outgrow `isize::MAX` bytes, the most that an allocation holds.
#[verifier::external_body]
pub fn string_push(s: &mut String, c: char)
    requires
        utf8_len(old(s)@) + encode_scalar(c as u32).len() <= isize::MAX,
    ensures
        final(s)@ == old(s)@.push(c),
{
    s.push(c)
}

/// The encoding of a concatenation is the concatenation of the encodings.
pub proof fn lemma_encode_concat(a: Seq<char>, b: Seq<char>)
    ensures
        encode_utf8(a + b) == encode_utf8(a) + encode_utf8(b),
    decreases a.len(),
{
    if a.len() == 0 {
        assert(a + b =~= b);
        assert(encode_utf8(a) =~= Seq::<u8>::empty());
        assert(encode_utf8(a) + encode_utf8(b) =~= encode_utf8(b));
    } else {
        assert((a + b).drop_first() =~= a.drop_first() + b);
        assert((a + b)[0] == a[0]);
        lemma_encode_concat(a.drop_first(), b);
        assert(encode_utf8(a + b) =~= encode_utf8(a) + encode_utf8(b));
    }
}

/// Every character takes one to four bytes.
pub proof fn lemma_scalar_nonempty(c: char)
    ensures
        1 <= encode_scalar(c as u32).len() <= 4,
{
}

/// The byte offset of the `k`-th character is a char boundary, and the
/// character found there is the `k`-th.
pub proof fn lemma_offset_is_boundary(s: Seq<char>, k: int)
    requires
        0 <= k <= s.len(),
    ensures
        is_char_boundary(encode_utf8(s), utf8_len(s.take(k)) as int),
        char_index_at(s, utf8_len(s.take(k)) as int) == k,
        utf8_len(s.take(k)) <= utf8_len(s),
    decreases s.len(),
{
    broadcast use encode_utf8_valid_utf8;
    lemma_encode_concat(s.take(k), s.skip(k));
    assert(s.take(k) + s.skip(k) =~= s);
    if k == 0 {
        assert(encode_utf8(s.take(0)) =~= Seq::<u8>::empty());
    } else {
        let rest = s.drop_first();
        assert(s.take(k).drop_first() =~= rest.take(k - 1));
        assert(s.take(k)[0] == s[0]);
        lemma_offset_is_boundary(rest, k - 1);
        lemma_scalar_nonempty(s[0]);
        encode_utf8_first_scalar(s);
        assert(pop_first_scalar(encode_utf8(s)) =~= encode_utf8(rest));
    }
}

/// A char boundary of the encoding of `s` is the byte offset of some
/// character index, and it names a character when it is before the end.
pub proof fn lemma_boundary_is_offset(s: Seq<char>, b: int)
    requires
        is_char_boundary(encode_utf8(s), b),
    ensures
        0 <= char_index_at(s, b) <= s.len(),
        utf8_len(s.take(char_index_at(s, b))) == b,
        b < utf8_len(s) ==> char_index_at(s, b) < s.len(),
    decreases s.len(),
{
    broadcast use encode_utf8_valid_utf8;
    if b == 0 {
        assert(encode_utf8(s.take(0)) =~= Seq::<u8>::empty());
    } else {
        assert(s.len() > 0);
        let rest = s.drop_first();
        encode_utf8_first_scalar(s);
        assert(pop_first_scalar(encode_utf8(s)) =~= encode_utf8(rest));
        lemma_scalar_nonempty(s[0]);
        let w = encode_scalar(s[0] as u32).len() as int;
        lemma_boundary_is_offset(rest, b - w);
        let ci = char_index_at(rest, b - w);
        assert(s.take(1 + ci).drop_first() =~= rest.take(ci));
        assert(s.take(1 + ci)[0] == s[0]);
        assert(s.take(s.len() as int) =~= s);
    }
}

} // verus!

verus! {

/// Inserting a character adds its encoding's length to the byte length.
pub proof fn lemma_utf8_len_insert(s: Seq<char>, k: int, c: char)
    requires
        0 <= k <= s.len(),
    ensures
        utf8_len(s.insert(k, c)) == utf8_len(s) + encode_scalar(c as u32).len(),
        utf8_len(s.insert(k, c)) > utf8_len(s),
{
    lemma_encode_concat(s.take(k), s.skip(k));
    assert(s.take(k) + s.skip(k) =~= s);
    assert(s.insert(k, c) =~= s.take(k) + (seq![c] + s.skip(k)));
    lemma_encode_concat(s.take(k), seq![c] + s.skip(k));
    lemma_encode_concat(seq![c], s.skip(k));
    assert(seq![c].drop_first() =~= Seq::<char>::empty());
    assert(encode_utf8(seq![c]) =~= encode_scalar(c as u32) + encode_utf8(Seq::<char>::empty()));
    lemma_scalar_nonempty(c);
}

/// A non-empty string has a non-empty encoding.
pub proof fn lemma_utf8_len_nonempty(s: Seq<char>)
    requires
        s.len() > 0,
    ensures
        utf8_len(s) > 0,
{
    lemma_scalar_nonempty(s[0]);
}

} // verus!

verus! {

/// Calls `char::len_utf8`: the number of bytes of the character's UTF-8
/// encoding.
#[verifier::external_body]
pub fn char_utf8_len(c: char) -> (r: usize)
    ensures
        r == encode_scalar(c as u32).len(),
{
    c.len_utf8()
}

/// Byte offsets grow with the number of characters before them.
pub proof fn lemma_offset_monotonic(s: Seq<char>, i: int, j: int)
    requires
        0 <= i <= j <= s.len(),
    ensures
        utf8_len(s.take(i)) <= utf8_len(s.take(j)),
        i < j ==> utf8_len(s.take(i)) < utf8_len(s.take(j)),
{
    lemma_encode_concat(s.take(i), s.subrange(i, j));
    assert(s.take(i) + s.subrange(i, j) =~= s.take(j));
    if i < j {
        lemma_utf8_len_nonempty(s.subrange(i, j));
    }
}

/// The byte offset after one more character.
pub proof fn lemma_offset_step(s: Seq<char>, k: int)
    requires
        0 <= k < s.len(),
    ensures
        utf8_len(s.take(k + 1)) == utf8_len(s.take(k)) + encode_scalar(s[k] as u32).len(),
{
    lemma_encode_concat(s.take(k), seq![s[k]]);
    assert(s.take(k + 1) =~= s.take(k) + seq![s[k]]);
    assert(seq![s[k]].drop_first() =~= Seq::<char>::empty());
    assert(encode_utf8(seq![s[k]]) =~= encode_scalar(s[k] as u32) + encode_utf8(Seq::<char>::empty()));
}

/// The char boundaries next to the boundary `b`: the start of the character
/// before it, if any, and the end of the character after it, if any.
pub fn boundary_neighbours(s: &str, b: usize) -> (r: (Option<usize>, Option<usize>))
    requires
        is_char_boundary(encode_utf8(s@), b as int),
        utf8_len(s@) <= usize::MAX,
    ensures
        r.0 == (if char_index_at(s@, b as int) > 0 {
            Some(utf8_len(s@.take(char_index_at(s@, b as int) - 1)) as usize)
        } else {
            None
        }),
        r.1 == (if char_index_at(s@, b as int) < s@.len() {
            Some(utf8_len(s@.take(char_index_at(s@, b as int) + 1)) as usize)
        } else {
            None
        }),
{
    let v = crate::matching::chars_of(s);
    let ghost k = char_index_at(s@, b as int);
    proof {
        lemma_boundary_is_offset(s@, b as int);
        lemma_offset_is_boundary(s@, s@.len() as int);
        assert(s@.take(s@.len() as int) =~= s@);
    }
    let mut off: usize = 0;
    let mut i: usize = 0;
    let mut prev: Option<usize> = None;
    assert(s@.take(0) =~= Seq::<char>::empty());
    assert(encode_utf8(Seq::<char>::empty()) =~= Seq::<u8>::empty());
    while off < b
        invariant
            v@ == s@,
            0 <= k <= s@.len(),
            k <= v.len(),
            utf8_len(s@.take(k)) == b,
            utf8_len(s@) <= usize::MAX,
            i <= k,
            off as int == utf8_len(s@.take(i as int)),
            prev == (if i > 0 { Some(utf8_len(s@.take(i - 1)) as usize) } else { None::<usize> }),
        decreases k - i,
    {
        assert(i < k);
        assert(s@.take(s@.len() as int) =~= s@);
        proof {
            lemma_offset_step(s@, i as int);
            lemma_offset_monotonic(s@, i + 1, s@.len() as int);
        }
        assert(v@[i as int] == s@[i as int]);
        let w = char_utf8_len(v[i]);
        assert(off + w <= utf8_len(s@));
        prev = Some(off);
        off = off + w;
        i = i + 1;
        proof {
            if i > k {
                lemma_offset_monotonic(s@, k, i as int);
            }
        }
    }
    proof {
        if i < k {
            lemma_offset_monotonic(s@, i as int, k);
        }
    }
    let next = if i < v.len() {
        proof {
            lemma_offset_step(s@, i as int);
            lemma_offset_monotonic(s@, i + 1, s@.len() as int);
        }
        Some(off + char_utf8_len(v[i]))
    } else {
        None
    };
    (prev, next)
}

} // verus!
