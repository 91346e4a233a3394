//! Byte-level views of strings and the facts about them that the rest of the
//! library relies on. Lengths and positions in this crate are byte counts of
//! the UTF-8 encoding, as in `str::len`.
use vstd::prelude::*;
use vstd::utf8::*;

verus! {

/// The UTF-8 bytes of a character sequence (the `spec_bytes` of a `str`).
pub open spec fn utf8(s: Seq<char>) -> Seq<u8> {
    encode_utf8(s)
}

/// The byte of `/`, the directory separator.
pub open spec fn separator_byte() -> u8 {
    47u8
}

/// `prefix` is a prefix of `s`.
pub open spec fn is_byte_prefix(prefix: Seq<u8>, s: Seq<u8>) -> bool {
    prefix.len() <= s.len() && s.subrange(0, prefix.len() as int) == prefix
}

/// Encoding distributes over concatenation.
pub proof fn lemma_utf8_concat(a: Seq<char>, b: Seq<char>)
    ensures
        utf8(a + b) == utf8(a) + utf8(b),
    decreases a.len(),
{
    if a.len() == 0 {
        assert(a + b =~= b);
        assert(utf8(a) =~= Seq::<u8>::empty());
        assert(utf8(a) + utf8(b) =~= utf8(b));
    } else {
        assert((a + b).drop_first() =~= a.drop_first() + b);
        lemma_utf8_concat(a.drop_first(), b);
        assert((a + b)[0] == a[0]);
        assert(utf8(a + b) =~= encode_scalar(a[0] as u32) + utf8(a.drop_first() + b));
        assert(utf8(a) =~= encode_scalar(a[0] as u32) + utf8(a.drop_first()));
        assert(utf8(a + b) =~= utf8(a) + utf8(b));
    }
}

/// Whether the bytes of `prefix` start the bytes of `s`.
pub fn starts_with_bytes(s: &[u8], prefix: &[u8]) -> (r: bool)
    ensures
        r == is_byte_prefix(prefix@, s@),
{
    if prefix.len() > s.len() {
        return false;
    }
    let mut i: usize = 0;
    while i < prefix.len()
        invariant
            prefix.len() <= s.len(),
            i <= prefix.len(),
            forall|j: int| 0 <= j < i ==> s@[j] == prefix@[j],
        decreases prefix.len() - i,
    {
        if s[i] != prefix[i] {
            assert(s@.subrange(0, prefix@.len() as int)[i as int] != prefix@[i as int]);
            return false;
        }
        i = i + 1;
    }
    assert(s@.subrange(0, prefix@.len() as int) =~= prefix@);
    true
}

} // verus!

verus! {

/// A single ASCII character encodes as its own byte.
pub proof fn lemma_utf8_ascii_char(c: char)
    requires
        (c as u32) <= 0x7f,
    ensures
        utf8(seq![c]) == seq![c as u8],
{
    let s = seq![c];
    assert(is_ascii_chars(s));
    is_ascii_chars_encode_utf8(s);
    assert(utf8(s) =~= seq![c as u8]);
}

/// Every place in the bytes of an ASCII text, up to its end, is a character
/// boundary, and there are as many bytes as characters.
pub proof fn lemma_ascii_char_boundary(s: Seq<char>, i: int)
    requires
        is_ascii_chars(s),
        0 <= i <= s.len(),
    ensures
        utf8(s).len() == s.len(),
        is_char_boundary(utf8(s), i),
{
    let q = s.take(i);
    is_ascii_chars_encode_utf8(s);
    assert(is_ascii_chars(q));
    is_ascii_chars_encode_utf8(q);
    assert(utf8(s).subrange(0, i) =~= utf8(q));
    lemma_prefix_is_char_boundary(s, q);
}

/// The end of an encoded prefix is a character boundary of the whole.
pub proof fn lemma_prefix_is_char_boundary(b: Seq<char>, q: Seq<char>)
    requires
        is_byte_prefix(utf8(q), utf8(b)),
    ensures
        is_char_boundary(utf8(b), utf8(q).len() as int),
    decreases q.len(),
{
    encode_utf8_valid_utf8(b);
    if q.len() == 0 {
        assert(utf8(q) =~= Seq::<u8>::empty());
    } else {
        encode_utf8_first_scalar(q);
        let w = encode_scalar(q[0] as u32).len() as int;
        assert(utf8(q) =~= encode_scalar(q[0] as u32) + utf8(q.drop_first()));
        assert(utf8(q).len() >= 1);
        assert(b.len() > 0) by {
            if b.len() == 0 {
                assert(utf8(b) =~= Seq::<u8>::empty());
            }
        }
        encode_utf8_first_scalar(b);
        assert(utf8(b) =~= encode_scalar(b[0] as u32) + utf8(b.drop_first()));
        // the first byte decides the width of the first scalar
        assert(utf8(b)[0] == utf8(q)[0]) by {
            assert(utf8(b).subrange(0, utf8(q).len() as int)[0] == utf8(q)[0]);
        }
        assert(length_of_first_scalar(utf8(b)) == length_of_first_scalar(utf8(q)));
        assert(w == encode_scalar(b[0] as u32).len());
        assert(pop_first_scalar(utf8(b)) =~= utf8(b.drop_first()));
        assert(is_byte_prefix(utf8(q.drop_first()), utf8(b.drop_first()))) by {
            let n = utf8(q).len() as int;
            assert(utf8(b.drop_first()).subrange(0, utf8(q.drop_first()).len() as int)
                =~= utf8(b).subrange(0, n).subrange(w, n));
            assert(utf8(q.drop_first()) =~= utf8(q).subrange(w, n));
        }
        lemma_prefix_is_char_boundary(b.drop_first(), q.drop_first());
        assert(utf8(q.drop_first()).len() == utf8(q).len() - w);
    }
}

/// The bytes of `s` from position `from` on, as a new string.
pub fn suffix_from(s: &str, from: usize) -> (r: String)
    requires
        from <= utf8(s@).len(),
        is_char_boundary(utf8(s@), from as int),
    ensures
        utf8(r@) == utf8(s@).subrange(from as int, utf8(s@).len() as int),
{
    let (_, tail) = s.split_at(from);
    tail.to_owned()
}

} // verus!

verus! {

/// Calls `String::insert`, which inserts `ch` at byte position `idx`. Its
/// documentation: it panics when `idx` is past the end or not on a character
/// boundary; otherwise the string becomes the bytes before `idx`, the
/// encoding of `ch`, then the bytes from `idx` on.
#[verifier::external_body]
pub(crate) fn string_insert(s: &mut String, idx: usize, ch: char)
    requires
        idx <= utf8(old(s)@).len(),
        is_char_boundary(utf8(old(s)@), idx as int),
    ensures
        utf8(final(s)@) == utf8(old(s)@).subrange(0, idx as int) + utf8(seq![ch]) + utf8(
            old(s)@,
        ).subrange(idx as int, utf8(old(s)@).len() as int),
{
    s.insert(idx, ch)
}

/// Calls `String::remove`, which removes and returns the character that
/// starts at byte position `idx`. Its documentation: it panics when `idx` is
/// not before the end or not on a character boundary; otherwise the old
/// bytes are the new bytes before `idx`, the encoding of the returned
/// character, then the new bytes from `idx` on.
#[verifier::external_body]
pub(crate) fn string_remove(s: &mut String, idx: usize) -> (ch: char)
    requires
        idx < utf8(old(s)@).len(),
        is_char_boundary(utf8(old(s)@), idx as int),
    ensures
        idx <= utf8(final(s)@).len(),
        utf8(old(s)@) == utf8(final(s)@).subrange(0, idx as int) + utf8(seq![ch]) + utf8(
            final(s)@,
        ).subrange(idx as int, utf8(final(s)@).len() as int),
{
    s.remove(idx)
}

/// A character whose encoding starts with an ASCII byte encodes as that
/// one byte.
pub proof fn lemma_utf8_leading_ascii(ch: char)
    ensures
        utf8(seq![ch]).len() >= 1,
        utf8(seq![ch])[0] < 0x80 ==> utf8(seq![ch]).len() == 1,
{
    encode_utf8_first_scalar(seq![ch]);
    assert(seq![ch].drop_first() =~= Seq::<char>::empty());
    assert(utf8(seq![ch]) =~= encode_scalar(ch as u32) + utf8(Seq::<char>::empty()));
    let v = ch as u32;
    if !has_width_1_encoding(v) {
        let b = encode_scalar(v)[0];
        if has_width_2_encoding(v) {
            let y = ((v >> 6) & 0x1F) as u8;
            assert(0xC0u8 | y >= 0xC0u8) by (bit_vector);
        } else if has_width_3_encoding(v) {
            let y = ((v >> 12) & 0x0F) as u8;
            assert(0xE0u8 | y >= 0xC0u8) by (bit_vector);
        } else {
            let y = ((v >> 18) & 0x7) as u8;
            assert(0xF0u8 | y >= 0xC0u8) by (bit_vector);
        }
    }
}

/// A character encodes as one to four bytes.
pub proof fn lemma_utf8_char_len(ch: char)
    ensures
        1 <= utf8(seq![ch]).len() <= 4,
{
    encode_utf8_first_scalar(seq![ch]);
    assert(seq![ch].drop_first() =~= Seq::<char>::empty());
    assert(utf8(seq![ch]) =~= encode_scalar(ch as u32) + utf8(Seq::<char>::empty()));
}

} // verus!

verus! {

/// Whether `a` and `b` hold the same bytes.
pub fn same_bytes(a: &[u8], b: &[u8]) -> (r: bool)
    ensures
        r == (a@ == b@),
{
    if a.len() != b.len() {
        return false;
    }
    let r = starts_with_bytes(a, b);
    proof {
        if r {
            assert(a@ =~= a@.subrange(0, b@.len() as int));
        } else {
            if a@ == b@ {
                assert(a@.subrange(0, b@.len() as int) =~= b@);
            }
        }
    }
    r
}

/// Whether two strings are equal.
pub fn str_eq(a: &str, b: &str) -> (r: bool)
    ensures
        r == (a@ == b@),
{
    let r = same_bytes(a.as_bytes(), b.as_bytes());
    proof {
        encode_utf8_decode_utf8(a@);
        encode_utf8_decode_utf8(b@);
    }
    r
}

} // verus!

verus! {

/// Calls `String::push`, which appends `ch` to the end of the string.
#[verifier::external_body]
pub(crate) fn string_push(s: &mut String, ch: char)
    ensures
        final(s)@ == old(s)@.push(ch),
{
    s.push(ch)
}

/// The lowercase form of `s` as `str::to_lowercase` gives it, by the
/// Unicode lowercase mapping, with a final capital sigma lowercased by its
/// place in the word (a function of the characters alone, whatever the
/// locale).
pub uninterp spec fn lowercase(s: Seq<char>) -> Seq<char>;

/// Calls `str::to_lowercase`.
#[verifier::external_body]
pub(crate) fn to_lowercase(s: &str) -> (r: String)
    ensures
        r@ == lowercase(s@),
{
    s.to_lowercase()
}

/// The decimal digit `d` as a character.
pub open spec fn digit_char(d: nat) -> char {
    (48 + d) as char
}

/// `n` written in decimal, as `format!("{}", n)` writes it.
pub open spec fn decimal(n: nat) -> Seq<char>
    decreases n,
{
    if n < 10 {
        seq![digit_char(n)]
    } else {
        decimal(n / 10).push(digit_char(n % 10))
    }
}

/// Appends `n` written in decimal.
pub fn push_decimal_u64(s: &mut String, n: u64)
    ensures
        final(s)@ == old(s)@ + decimal(n as nat),
    decreases n,
{
    if n >= 10 {
        push_decimal_u64(s, n / 10);
    }
    let d: u8 = (n % 10) as u8;
    let c = (48u8 + d) as char;
    assert(c == digit_char((n % 10) as nat));
    string_push(s, c);
    assert(final(s)@ =~= old(s)@ + decimal(n as nat));
}

/// Appends `n` written in decimal.
pub fn push_decimal(s: &mut String, n: usize)
    ensures
        final(s)@ == old(s)@ + decimal(n as nat),
{
    push_decimal_u64(s, n as u64);
}

/// `n` written in decimal, with a minus sign when negative, as
/// `i64::to_string` writes it.
pub open spec fn signed_decimal(n: int) -> Seq<char> {
    if n < 0 {
        seq!['-'] + decimal((-n) as nat)
    } else {
        decimal(n as nat)
    }
}

/// `n` written in decimal, with a minus sign when negative.
pub fn to_signed_decimal(n: i64) -> (r: String)
    ensures
        r@ == signed_decimal(n as int),
{
    let mut s = String::new();
    if n < 0 {
        string_push(&mut s, '-');
        let magnitude: u64 = (-(n + 1)) as u64 + 1;
        push_decimal_u64(&mut s, magnitude);
    } else {
        push_decimal_u64(&mut s, n as u64);
    }
    assert(s@ =~= signed_decimal(n as int));
    s
}

/// `n` written in decimal.
pub fn to_decimal(n: usize) -> (r: String)
    ensures
        r@ == decimal(n as nat),
{
    let mut s = String::new();
    push_decimal(&mut s, n);
    assert(s@ =~= decimal(n as nat));
    s
}

/// The characters of `s`.
pub fn chars_of(s: &str) -> (r: Vec<char>)
    ensures
        r@ == s@,
{
    let mut r: Vec<char> = Vec::new();
    for c in it: s.chars()
        invariant
            r@ == it.seq().take(it.index() as int),
    {
        r.push(c);
        assert(r@ =~= it.seq().take(it.index() + 1));
    }
    assert(r@ =~= s@);
    r
}

/// `needle` occurs in `hay` at place `i`.
pub open spec fn occurs_at(hay: Seq<char>, needle: Seq<char>, i: int) -> bool {
    0 <= i && i + needle.len() <= hay.len() && hay.subrange(i, i + needle.len()) == needle
}

/// `needle` occurs somewhere in `hay`.
pub open spec fn contains_text(hay: Seq<char>, needle: Seq<char>) -> bool {
    exists|i: int| #[trigger] occurs_at(hay, needle, i)
}

/// `s` with every occurrence of `pat` replaced by `by`, from left to right
/// and without overlaps, as `str::replace` does for a pattern that is not
/// empty.
pub open spec fn replaced(s: Seq<char>, pat: Seq<char>, by: Seq<char>) -> Seq<char>
    decreases s.len(),
{
    if s.len() == 0 {
        s
    } else if pat.len() > 0 && occurs_at(s, pat, 0) {
        by + replaced(s.skip(pat.len() as int), pat, by)
    } else {
        seq![s[0]] + replaced(s.drop_first(), pat, by)
    }
}

/// Whether `needle` occurs in `hay` at place `i`.
fn occurs_at_exec(hay: &Vec<char>, needle: &Vec<char>, i: usize) -> (r: bool)
    requires
        i <= hay@.len(),
    ensures
        r == occurs_at(hay@, needle@, i as int),
{
    if needle.len() > hay.len() - i {
        return false;
    }
    let n = hay.len();
    let mut j: usize = 0;
    while j < needle.len()
        invariant
            n == hay@.len(),
            i + needle@.len() <= n,
            j <= needle@.len(),
            forall|t: int| 0 <= t < j ==> hay@[i + t] == needle@[t],
        decreases needle@.len() - j,
    {
        if hay[i + j] != needle[j] {
            proof {
                assert(hay@.subrange(i as int, i + needle@.len())[j as int] == hay@[i + j]);
            }
            return false;
        }
        j = j + 1;
    }
    assert(hay@.subrange(i as int, i + needle@.len()) =~= needle@);
    true
}

/// `s` with every occurrence of `pat` replaced by `by` (`str::replace`).
pub fn replace_all(s: &str, pat: &str, by: &str) -> (r: String)
    requires
        pat@.len() > 0,
    ensures
        r@ == replaced(s@, pat@, by@),
{
    let h = chars_of(s);
    let p = chars_of(pat);
    let mut r = String::new();
    let mut i: usize = 0;
    let ghost whole = replaced(s@, pat@, by@);
    proof {
        assert(s@.skip(0) =~= s@);
    }
    while i < h.len()
        invariant
            h@ == s@,
            p@ == pat@,
            p@.len() > 0,
            i <= h@.len(),
            whole == replaced(s@, pat@, by@),
            r@ + replaced(s@.skip(i as int), pat@, by@) == whole,
        decreases h@.len() - i,
    {
        let ghost rest = s@.skip(i as int);
        proof {
            assert(rest.len() > 0);
            if occurs_at(s@, pat@, i as int) {
                assert(rest.subrange(0, pat@.len() as int) =~= s@.subrange(i as int, i + pat@.len()));
            }
            if occurs_at(rest, pat@, 0) {
                assert(rest.subrange(0, pat@.len() as int) =~= s@.subrange(i as int, i + pat@.len()));
            }
        }
        if occurs_at_exec(&h, &p, i) {
            let ghost before = r@;
            r.append(by);
            proof {
                assert(rest.skip(pat@.len() as int) =~= s@.skip(i + pat@.len()));
                assert(before + (by@ + replaced(rest.skip(pat@.len() as int), pat@, by@)) =~= r@
                    + replaced(s@.skip(i + pat@.len()), pat@, by@));
            }
            i = i + p.len();
        } else {
            let ghost before = r@;
            string_push(&mut r, h[i]);
            proof {
                assert(rest.drop_first() =~= s@.skip(i + 1));
                assert(rest[0] == s@[i as int]);
                assert(before + (seq![rest[0]] + replaced(rest.drop_first(), pat@, by@)) =~= r@
                    + replaced(s@.skip(i + 1), pat@, by@));
            }
            i = i + 1;
        }
    }
    proof {
        assert(s@.skip(i as int) =~= Seq::<char>::empty());
        assert(r@ + Seq::<char>::empty() =~= r@);
    }
    r
}

/// Whether `needle` occurs in `hay`, as `str::contains` tells.
pub fn contains(hay: &str, needle: &str) -> (r: bool)
    ensures
        r == contains_text(hay@, needle@),
{
    let h = chars_of(hay);
    let n = chars_of(needle);
    if n.len() > h.len() {
        proof {
            assert forall|i: int| !occurs_at(hay@, needle@, i) by {}
        }
        return false;
    }
    let last = h.len() - n.len();
    let mut i: usize = 0;
    while i <= last
        invariant
            h@ == hay@,
            n@ == needle@,
            n@.len() <= h@.len(),
            last == h@.len() - n@.len(),
            i <= last + 1,
            forall|k: int| 0 <= k < i ==> !occurs_at(hay@, needle@, k),
        decreases last + 1 - i,
    {
        let mut j: usize = 0;
        let mut same = true;
        while j < n.len()
            invariant
                h@ == hay@,
                n@ == needle@,
                n@.len() <= h@.len(),
                i <= last,
                last == h@.len() - n@.len(),
                j <= n@.len(),
                same == forall|t: int| 0 <= t < j ==> h@[i + t] == n@[t],
            decreases n@.len() - j,
        {
            let hl = h.len();
            assert(i + j < hl);
            if h[i + j] != n[j] {
                same = false;
            }
            j = j + 1;
        }
        if same {
            assert(hay@.subrange(i as int, i + needle@.len()) =~= needle@);
            assert(occurs_at(hay@, needle@, i as int));
            return true;
        }
        proof {
            if occurs_at(hay@, needle@, i as int) {
                let t = choose|t: int| 0 <= t < n@.len() && h@[i + t] != n@[t];
                assert(hay@.subrange(i as int, i + needle@.len())[t] == h@[i + t]);
            }
        }
        if i == last {
            proof {
                assert forall|k: int| !occurs_at(hay@, needle@, k) by {
                    if 0 <= k < i {
                    }
                }
            }
            return false;
        }
        i = i + 1;
    }
    false
}

} // verus!

verus! {

/// `c` is an ASCII decimal digit.
pub open spec fn is_digit(c: char) -> bool {
    '0' <= c <= '9'
}

/// The value of a string of decimal digits.
pub open spec fn digits_value(d: Seq<char>) -> nat
    decreases d.len(),
{
    if d.len() == 0 {
        0
    } else {
        digits_value(d.drop_last()) * 10 + (d.last() as nat - 48) as nat
    }
}

/// The number that `str::parse` reads from `s` for an unsigned integer type
/// wide enough for it: an optional `+`, then one or more decimal digits.
pub open spec fn parsed_decimal(s: Seq<char>) -> Option<nat> {
    let d = unsigned_digits(s);
    if d.len() > 0 && forall|i: int| 0 <= i < d.len() ==> is_digit(#[trigger] d[i]) {
        Some(digits_value(d))
    } else {
        None
    }
}

/// The digits that `parsed_decimal` reads: the text without a leading `+`.
pub open spec fn unsigned_digits(s: Seq<char>) -> Seq<char> {
    if s.len() > 0 && s[0] == '+' {
        s.drop_first()
    } else {
        s
    }
}

proof fn lemma_parsed_decimal(s: Seq<char>)
    ensures
        parsed_decimal(s) is Some <==> (unsigned_digits(s).len() > 0 && forall|i: int|
            0 <= i < unsigned_digits(s).len() ==> is_digit(#[trigger] unsigned_digits(s)[i])),
        parsed_decimal(s) is Some ==> parsed_decimal(s)->0 == digits_value(unsigned_digits(s)),
{
}

proof fn lemma_digits_value_grows(d: Seq<char>, i: int)
    requires
        0 <= i <= d.len(),
    ensures
        digits_value(d.take(i)) <= digits_value(d),
    decreases d.len() - i,
{
    if i < d.len() {
        lemma_digits_value_grows(d, i + 1);
        assert(d.take(i + 1).drop_last() =~= d.take(i));
        let a = digits_value(d.take(i));
        assert(a * 10 >= a) by (nonlinear_arith)
            requires a >= 0;
    } else {
        assert(d.take(i) =~= d);
    }
}

/// The number written in `s`, as `str::parse` reads it for an unsigned
/// integer of at most `max`: `None` when the text is not an optional `+`
/// followed by decimal digits, or the number is above `max`.
pub fn parse_decimal(s: &str, max: u64) -> (r: Option<u64>)
    ensures
        r == match parsed_decimal(s@) {
            Some(n) => if n <= max {
                Some(n as u64)
            } else {
                None::<u64>
            },
            None => None,
        },
{
    let chars = chars_of(s);
    let mut start: usize = 0;
    if chars.len() > 0 && chars[0] == '+' {
        start = 1;
    }
    let ghost d = unsigned_digits(s@);
    proof {
        lemma_parsed_decimal(s@);
    }
    assert(d =~= chars@.skip(start as int));
    if start >= chars.len() {
        return None;
    }
    let mut value: u64 = 0;
    let mut i: usize = start;
    while i < chars.len()
        invariant
            start <= i <= chars@.len(),
            start < chars@.len(),
            chars@ == s@,
            d == chars@.skip(start as int),
            d == unsigned_digits(s@),
            forall|j: int| 0 <= j < i - start ==> is_digit(#[trigger] d[j]),
            value == digits_value(d.take(i - start)),
            value <= max,
        decreases chars@.len() - i,
    {
        let c = chars[i];
        assert(c == d[i - start]);
        if !('0' <= c && c <= '9') {
            assert(!is_digit(d[i - start]));
            proof {
                lemma_parsed_decimal(s@);
            }
            return None;
        }
        let digit: u64 = (c as u32 - 48) as u64;
        assert(d.take(i - start + 1).drop_last() =~= d.take(i - start));
        let ghost next = digits_value(d.take(i - start + 1));
        assert(next == value * 10 + digit);
        if value > max / 10 {
            proof {
                assert(value * 10 + digit > max) by (nonlinear_arith)
                    requires value > max / 10, digit >= 0;
                lemma_digits_value_grows(d, i - start + 1);
                lemma_parsed_decimal(s@);
            }
            return None;
        }
        assert(value * 10 <= max) by (nonlinear_arith)
            requires value <= max / 10;
        let tens = value * 10;
        if digit > max - tens {
            proof {
                lemma_digits_value_grows(d, i - start + 1);
                lemma_parsed_decimal(s@);
            }
            return None;
        }
        value = tens + digit;
        i = i + 1;
    }
    assert(d.take(i - start) =~= d);
    proof {
        lemma_parsed_decimal(s@);
    }
    Some(value)
}

} // verus!

verus! {

proof fn lemma_decimal_digits(n: nat)
    ensures
        decimal(n).len() > 0,
        forall|i: int| 0 <= i < decimal(n).len() ==> is_digit(#[trigger] decimal(n)[i]),
        digits_value(decimal(n)) == n,
    decreases n,
{
    if n < 10 {
        assert(digit_char(n) as nat == 48 + n);
        assert(decimal(n).drop_last() =~= Seq::<char>::empty());
        assert(digits_value(Seq::<char>::empty()) == 0);
        assert(decimal(n).last() == digit_char(n));
    } else {
        lemma_decimal_digits(n / 10);
        let d = decimal(n);
        assert(d.drop_last() =~= decimal(n / 10));
        assert(digit_char(n % 10) as nat == 48 + n % 10);
        assert(d.last() == digit_char(n % 10));
        assert(digits_value(d) == digits_value(decimal(n / 10)) * 10 + n % 10);
        assert((n / 10) * 10 + n % 10 == n) by {
            vstd::arithmetic::div_mod::lemma_fundamental_div_mod(n as int, 10);
        }
        assert forall|i: int| 0 <= i < d.len() implies is_digit(#[trigger] d[i]) by {
            if i < d.len() - 1 {
                assert(d[i] == decimal(n / 10)[i]);
            }
        }
    }
}

/// What `format!("{}", n)` writes, `str::parse` reads back: writing a
/// number in decimal and reading it gives the number again.
pub proof fn law_decimal_round_trip(n: nat)
    ensures
        parsed_decimal(decimal(n)) == Some(n),
{
    lemma_decimal_digits(n);
    let d = decimal(n);
    assert(is_digit(d[0]));
    assert(unsigned_digits(d) == d);
}

} // verus!
