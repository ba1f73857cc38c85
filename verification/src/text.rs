//! Character and byte helpers shared by the protocol encoders: decimal and
//! hexadecimal rendering, zero padding, Unicode whitespace, line splitting.
use vstd::prelude::*;
use vstd::string::*;
use vstd::utf8::*;

verus! {

/// `std::string::String::push`: appends one character.
#[verifier::external_body]
pub(crate) fn push_char(s: &mut String, c: char)
    ensures
        final(s)@ == old(s)@.push(c),
{
    s.push(c)
}

/// The characters of a string slice, in order.
pub fn chars_of(s: &str) -> (v: Vec<char>)
    ensures
        v@ == s@,
{
    let mut v: Vec<char> = Vec::new();
    for c in it: s.chars()
        invariant
            v@ == it.seq().take(it.index() as int),
            it.seq() == s@,
    {
        v.push(c);
    }
    v
}

/// A string holding exactly the given characters.
pub fn string_from_chars(cs: &[char]) -> (s: String)
    ensures
        s@ == cs@,
{
    let mut s = String::new();
    let mut i: usize = 0;
    while i < cs.len()
        invariant
            i <= cs@.len(),
            s@ == cs@.take(i as int),
        decreases cs@.len() - i,
    {
        push_char(&mut s, cs[i]);
        i += 1;
        assert(s@ =~= cs@.take(i as int));
    }
    assert(cs@.take(cs@.len() as int) =~= cs@);
    s
}

/// Appends every byte of `src` to `dst`.
pub fn append_bytes(dst: &mut Vec<u8>, src: &[u8])
    ensures
        final(dst)@ == old(dst)@ + src@,
{
    let ghost start = dst@;
    let mut i: usize = 0;
    while i < src.len()
        invariant
            i <= src@.len(),
            dst@ == start + src@.take(i as int),
        decreases src@.len() - i,
    {
        dst.push(src[i]);
        i += 1;
        assert(dst@ =~= start + src@.take(i as int));
    }
    assert(src@.take(src@.len() as int) =~= src@);
}

/// Appends the UTF-8 encoding of `s` to `dst`.
pub fn append_utf8(dst: &mut Vec<u8>, s: &str)
    ensures
        final(dst)@ == old(dst)@ + encode_utf8(s@),
{
    append_bytes(dst, s.as_bytes());
}

/// Whether two string slices hold the same characters.
pub fn text_eq(a: &str, b: &str) -> (r: bool)
    ensures
        r == (a@ == b@),
{
    let x = a.to_owned();
    let y = b.to_owned();
    x == y
}

// ---------------------------------------------------------------------
// Digits
// ---------------------------------------------------------------------
/// The ASCII decimal digit for `d < 10`.
pub open spec fn digit_char(d: nat) -> char {
    (48 + d) as char
}

/// The hexadecimal digit for `d < 16`, upper or lower case.
pub open spec fn hex_char(d: nat, upper: bool) -> char {
    if d < 10 {
        (48 + d) as char
    } else if upper {
        (55 + d) as char
    } else {
        (87 + d) as char
    }
}

/// The decimal rendering of `n` without leading zeros ("0" for zero).
pub open spec fn decimal(n: nat) -> Seq<char>
    decreases n,
{
    if n < 10 {
        seq![digit_char(n)]
    } else {
        decimal(n / 10).push(digit_char(n % 10))
    }
}

/// The hexadecimal rendering of `n` without leading zeros.
pub open spec fn hex(n: nat, upper: bool) -> Seq<char>
    decreases n,
{
    if n < 16 {
        seq![hex_char(n, upper)]
    } else {
        hex(n / 16, upper).push(hex_char(n % 16, upper))
    }
}

/// The index of the first `c` at or after `i`, or the length.
pub open spec fn next_occurrence(s: Seq<char>, i: int, c: char) -> int
    decreases s.len() - i,
{
    if i < 0 || i >= s.len() {
        s.len() as int
    } else if s[i] == c {
        i
    } else {
        next_occurrence(s, i + 1, c)
    }
}

/// Whether `c` is one of `0-9`, `a-f`, `A-F`.
pub open spec fn is_ascii_hex_digit(c: char) -> bool {
    ('0' <= c <= '9') || ('a' <= c <= 'f') || ('A' <= c <= 'F')
}

/// `k` copies of `c`.
pub open spec fn repeat_char(c: char, k: nat) -> Seq<char> {
    Seq::new(k, |_i: int| c)
}

/// `s` with `c` prepended until it is at least `width` long.
pub open spec fn left_pad(s: Seq<char>, width: nat, c: char) -> Seq<char> {
    if s.len() >= width {
        s
    } else {
        repeat_char(c, (width - s.len()) as nat) + s
    }
}

/// `s` with `c` appended until it is at least `width` long.
pub open spec fn right_pad(s: Seq<char>, width: nat, c: char) -> Seq<char> {
    if s.len() >= width {
        s
    } else {
        s + repeat_char(c, (width - s.len()) as nat)
    }
}

/// The decimal rendering of `n`, zero-padded to at least `width` digits.
pub open spec fn zero_padded(n: nat, width: nat) -> Seq<char> {
    left_pad(decimal(n), width, '0')
}

/// The hexadecimal rendering of `n`, zero-padded to at least `width` digits.
pub open spec fn hex_padded(n: nat, width: nat, upper: bool) -> Seq<char> {
    left_pad(hex(n, upper), width, '0')
}

pub proof fn lemma_hex_nonempty(n: nat, upper: bool)
    ensures
        hex(n, upper).len() >= 1,
    decreases n,
{
    if n >= 16 {
        lemma_hex_nonempty(n / 16, upper);
    }
}

/// Appends the decimal rendering of `n`.
pub fn push_decimal(s: &mut String, n: u64)
    ensures
        final(s)@ == old(s)@ + decimal(n as nat),
    decreases n,
{
    if n >= 10 {
        push_decimal(s, n / 10);
    }
    let d: u64 = n % 10;
    push_char(s, (48u8 + d as u8) as char);
    assert(final(s)@ =~= old(s)@ + decimal(n as nat)) by {
        if n >= 10 {
            assert(decimal(n as nat) == decimal((n / 10) as nat).push(digit_char((n % 10) as nat)));
        }
    }
}

/// The number of decimal digits of `n`.
pub fn decimal_len(n: u64) -> (r: usize)
    ensures
        r == decimal(n as nat).len(),
    decreases n,
{
    proof {
        lemma_decimal_len_bound(n as nat);
    }
    if n >= 10 {
        decimal_len(n / 10) + 1
    } else {
        1
    }
}

/// `b` to the power `k`.
pub open spec fn pow_nat(b: nat, k: nat) -> nat
    decreases k,
{
    if k == 0 {
        1
    } else {
        b * pow_nat(b, (k - 1) as nat)
    }
}

pub proof fn lemma_decimal_len_le(n: nat, k: nat)
    requires
        n < pow_nat(10, k),
        k >= 1,
    ensures
        decimal(n).len() <= k,
    decreases n,
{
    if n >= 10 {
        assert(k >= 2) by {
            if k == 0 {
            } else if k == 1 {
                assert(pow_nat(10, 1) == 10 * pow_nat(10, 0));
            }
        }
        let p = pow_nat(10, (k - 1) as nat);
        assert(n / 10 < p) by (nonlinear_arith)
            requires
                n < 10 * p,
        ;
        lemma_decimal_len_le(n / 10, (k - 1) as nat);
    } else {
        if k == 0 {
        }
    }
}

pub proof fn lemma_decimal_len_bound(n: nat)
    ensures
        n < 0x10000000000000000 ==> decimal(n).len() <= 20,
{
    if n < 0x10000000000000000 {
        reveal_with_fuel(pow_nat, 21);
        assert(pow_nat(10, 20) == 100000000000000000000);
        lemma_decimal_len_le(n, 20);
    }
}

/// Appends `k` copies of `c`.
pub fn push_repeat(s: &mut String, c: char, k: usize)
    ensures
        final(s)@ == old(s)@ + repeat_char(c, k as nat),
{
    let ghost start = s@;
    let mut i: usize = 0;
    while i < k
        invariant
            i <= k,
            s@ == start + repeat_char(c, i as nat),
        decreases k - i,
    {
        push_char(s, c);
        i += 1;
        assert(s@ =~= start + repeat_char(c, i as nat));
    }
}

/// Appends the decimal rendering of `n` zero-padded to `width` digits.
pub fn push_zero_padded(s: &mut String, n: u64, width: usize)
    ensures
        final(s)@ == old(s)@ + zero_padded(n as nat, width as nat),
{
    let len = decimal_len(n);
    let ghost start = s@;
    if len < width {
        push_repeat(s, '0', width - len);
    }
    push_decimal(s, n);
    assert(s@ =~= start + zero_padded(n as nat, width as nat));
}

/// The hexadecimal digit character for `d < 16`.
pub fn hex_digit(d: u8, upper: bool) -> (c: char)
    requires
        d < 16,
    ensures
        c == hex_char(d as nat, upper),
{
    if d < 10 {
        (48u8 + d) as char
    } else if upper {
        (55u8 + d) as char
    } else {
        (87u8 + d) as char
    }
}

/// Appends the hexadecimal rendering of `n`.
pub fn push_hex(s: &mut String, n: u64, upper: bool)
    ensures
        final(s)@ == old(s)@ + hex(n as nat, upper),
    decreases n,
{
    if n >= 16 {
        push_hex(s, n / 16, upper);
    }
    let d = (n % 16) as u8;
    let c = hex_digit(d, upper);
    push_char(s, c);
    assert(final(s)@ =~= old(s)@ + hex(n as nat, upper)) by {
        if n >= 16 {
            assert(hex(n as nat, upper) == hex((n / 16) as nat, upper).push(
                hex_char((n % 16) as nat, upper),
            ));
        }
    }
}

/// The number of hexadecimal digits of `n`.
pub fn hex_len(n: u64, upper: bool) -> (r: usize)
    ensures
        r == hex(n as nat, upper).len(),
    decreases n,
{
    proof {
        lemma_hex_len_bound(n as nat, upper);
    }
    if n >= 16 {
        hex_len(n / 16, upper) + 1
    } else {
        1
    }
}

pub proof fn lemma_hex_len_le(n: nat, k: nat, upper: bool)
    requires
        n < pow_nat(16, k),
        k >= 1,
    ensures
        hex(n, upper).len() <= k,
    decreases n,
{
    if n >= 16 {
        assert(k >= 2) by {
            if k == 0 {
            } else if k == 1 {
                assert(pow_nat(16, 1) == 16 * pow_nat(16, 0));
            }
        }
        let p = pow_nat(16, (k - 1) as nat);
        assert(n / 16 < p) by (nonlinear_arith)
            requires
                n < 16 * p,
        ;
        lemma_hex_len_le(n / 16, (k - 1) as nat, upper);
    } else {
        if k == 0 {
        }
    }
}

pub proof fn lemma_hex_len_bound(n: nat, upper: bool)
    ensures
        n < 0x10000000000000000 ==> hex(n, upper).len() <= 16,
{
    if n < 0x10000000000000000 {
        reveal_with_fuel(pow_nat, 17);
        assert(pow_nat(16, 16) == 0x10000000000000000);
        lemma_hex_len_le(n, 16, upper);
    }
}

/// Appends the hexadecimal rendering of `n` zero-padded to `width` digits.
pub fn push_hex_padded(s: &mut String, n: u64, width: usize, upper: bool)
    ensures
        final(s)@ == old(s)@ + hex_padded(n as nat, width as nat, upper),
{
    let len = hex_len(n, upper);
    let ghost start = s@;
    if len < width {
        push_repeat(s, '0', width - len);
    }
    push_hex(s, n, upper);
    assert(s@ =~= start + hex_padded(n as nat, width as nat, upper));
}

// ---------------------------------------------------------------------
// Whitespace and lines
// ---------------------------------------------------------------------
/// Unicode `White_Space`, the set that `char::is_whitespace` tests.
pub open spec fn is_space(c: char) -> bool {
    let u = c as u32;
    ||| 9 <= u <= 13
    ||| u == 32
    ||| u == 0x85
    ||| u == 0xA0
    ||| u == 0x1680
    ||| 0x2000 <= u <= 0x200A
    ||| u == 0x2028
    ||| u == 0x2029
    ||| u == 0x202F
    ||| u == 0x205F
    ||| u == 0x3000
}

/// Tests `is_space`.
pub fn char_is_space(c: char) -> (r: bool)
    ensures
        r == is_space(c),
{
    let u = c as u32;
    (9 <= u && u <= 13) || u == 32 || u == 0x85 || u == 0xA0 || u == 0x1680 || (0x2000 <= u && u
        <= 0x200A) || u == 0x2028 || u == 0x2029 || u == 0x202F || u == 0x205F || u == 0x3000
}

/// Whether every character of `s` is white space.
pub open spec fn all_space(s: Seq<char>) -> bool {
    forall|i: int| 0 <= i < s.len() ==> is_space(#[trigger] s[i])
}

/// Whether `s` contains `needle` as a contiguous run.
pub open spec fn contains_seq(s: Seq<char>, needle: Seq<char>) -> bool {
    exists|i: int| 0 <= i <= s.len() - needle.len() && #[trigger] s.subrange(i, i + needle.len()) == needle
}

/// Whether `needle` occurs in `s` starting at `i`.
pub open spec fn occurs_at(s: Seq<char>, needle: Seq<char>, i: int) -> bool {
    0 <= i && i + needle.len() <= s.len() && s.subrange(i, i + needle.len()) == needle
}

/// Whether `needle` occurs at position `i` of `s`.
pub fn matches_at(s: &[char], needle: &[char], i: usize) -> (r: bool)
    ensures
        r == occurs_at(s@, needle@, i as int),
{
    if i > s.len() || needle.len() > s.len() - i {
        return false;
    }
    let mut j: usize = 0;
    while j < needle.len()
        invariant
            i + needle@.len() <= s@.len(),
            s@.len() == s.len(),
            needle@.len() == needle.len(),
            j <= needle@.len(),
            forall|k: int| 0 <= k < j ==> s@[i + k] == needle@[k],
        decreases needle@.len() - j,
    {
        if s[i + j] != needle[j] {
            assert(s@.subrange(i as int, i + needle@.len())[j as int] != needle@[j as int]);
            return false;
        }
        j += 1;
    }
    assert(s@.subrange(i as int, i + needle@.len()) =~= needle@);
    true
}

/// Whether `needle` occurs anywhere in `s`.
pub fn contains_chars(s: &[char], needle: &[char]) -> (r: bool)
    ensures
        r == contains_seq(s@, needle@),
{
    if needle.len() > s.len() {
        return false;
    }
    let last = s.len() - needle.len();
    let mut i: usize = 0;
    loop
        invariant
            needle@.len() <= s@.len(),
            last == s@.len() - needle@.len(),
            i <= last,
            forall|k: int| 0 <= k < i ==> !occurs_at(s@, needle@, k),
        ensures
            forall|k: int| 0 <= k <= last ==> !occurs_at(s@, needle@, k),
        decreases last - i,
    {
        if matches_at(s, needle, i) {
            assert(occurs_at(s@, needle@, i as int));
            return true;
        }
        if i == last {
            break;
        }
        i += 1;
    }
    assert forall|k: int| 0 <= k <= s@.len() - needle@.len() implies #[trigger] s@.subrange(
        k,
        k + needle@.len(),
    ) != needle@ by {
        assert(!occurs_at(s@, needle@, k));
    }
    false
}

/// The index of the first `'\n'` at or after `i`, or the length.
pub open spec fn next_newline(s: Seq<char>, i: int) -> int
    decreases s.len() - i,
{
    if i < 0 || i >= s.len() {
        s.len() as int
    } else if s[i] == '\n' {
        i
    } else {
        next_newline(s, i + 1)
    }
}

/// The lines of `s` from position `i` on, as `str::lines` yields them: split
/// at `'\n'`, a `'\r'` just before the `'\n'` dropped, no empty line after
/// a final `'\n'`.
pub open spec fn lines_from(s: Seq<char>, i: int) -> Seq<Seq<char>>
    decreases s.len() - i,
{
    if i < 0 || i >= s.len() {
        Seq::empty()
    } else {
        let j = next_newline(s, i);
        proof {
            lemma_next_newline(s, i);
        }
        let raw = s.subrange(i, j);
        let line = if j < s.len() && raw.len() > 0 && raw.last() == '\r' {
            raw.drop_last()
        } else {
            raw
        };
        if j < s.len() {
            seq![line] + lines_from(s, j + 1)
        } else {
            seq![line]
        }
    }
}

/// The lines of `s`.
pub open spec fn text_lines(s: Seq<char>) -> Seq<Seq<char>> {
    lines_from(s, 0)
}

pub proof fn lemma_next_newline(s: Seq<char>, i: int)
    requires
        0 <= i <= s.len(),
    ensures
        i <= next_newline(s, i) <= s.len(),
        next_newline(s, i) < s.len() ==> s[next_newline(s, i)] == '\n',
        forall|k: int| i <= k < next_newline(s, i) ==> s[k] != '\n',
    decreases s.len() - i,
{
    if i < s.len() && s[i] != '\n' {
        lemma_next_newline(s, i + 1);
    }
}

/// Finds the end of the line that starts at `i`.
pub fn find_newline(s: &[char], i: usize) -> (j: usize)
    requires
        i <= s@.len(),
    ensures
        j == next_newline(s@, i as int),
{
    let mut j = i;
    while j < s.len()
        invariant
            i <= j <= s@.len(),
            next_newline(s@, j as int) == next_newline(s@, i as int),
        decreases s@.len() - j,
    {
        if s[j] == '\n' {
            return j;
        }
        j += 1;
    }
    j
}

/// Splits text into lines as `str::lines` does.
pub fn split_lines(text: &[char]) -> (lines: Vec<Vec<char>>)
    ensures
        lines@.map_values(|l: Vec<char>| l@) == text_lines(text@),
{
    let mut lines: Vec<Vec<char>> = Vec::new();
    let len = text.len();
    let mut i: usize = 0;
    while i < len
        invariant
            len == text@.len(),
            i <= len,
            lines@.map_values(|l: Vec<char>| l@) + lines_from(text@, i as int) == text_lines(text@),
        decreases len - i,
    {
        let j = find_newline(text, i);
        proof {
            lemma_next_newline(text@, i as int);
        }
        let mut end = j;
        if j < len && j > i && text[j - 1] == '\r' {
            end = j - 1;
        }
        let line = subslice_vec(text, i, end);
        let ghost before = lines@.map_values(|l: Vec<char>| l@);
        lines.push(line);
        proof {
            let raw = text@.subrange(i as int, j as int);
            if j < len && j > i && text@[j - 1] == '\r' {
                assert(raw.drop_last() =~= text@.subrange(i as int, end as int));
            } else {
                assert(raw =~= text@.subrange(i as int, end as int));
            }
            assert(lines@.map_values(|l: Vec<char>| l@) =~= before.push(line@));
        }
        if j == len {
            proof {
                assert(before + lines_from(text@, i as int) =~= before.push(line@) + lines_from(
                    text@,
                    len as int,
                ));
            }
            i = len;
        } else {
            proof {
                assert(before + lines_from(text@, i as int) =~= before.push(line@) + lines_from(
                    text@,
                    j + 1,
                ));
            }
            i = j + 1;
        }
    }
    assert(lines@.map_values(|l: Vec<char>| l@) + Seq::<Seq<char>>::empty() =~= lines@.map_values(|l: Vec<char>| l@));
    lines
}

/// The characters `s[from..to]`.
pub fn subslice_vec(s: &[char], from: usize, to: usize) -> (v: Vec<char>)
    requires
        from <= to <= s@.len(),
    ensures
        v@ == s@.subrange(from as int, to as int),
{
    let mut v: Vec<char> = Vec::new();
    let mut k = from;
    while k < to
        invariant
            from <= k <= to,
            to <= s@.len(),
            v@ == s@.subrange(from as int, k as int),
        decreases to - k,
    {
        v.push(s[k]);
        k += 1;
        assert(v@ =~= s@.subrange(from as int, k as int));
    }
    v
}

/// The first index at or after `i` whose character is not white space, or
/// the length.
pub open spec fn skip_space(s: Seq<char>, i: int) -> int
    decreases s.len() - i,
{
    if i < 0 || i >= s.len() {
        s.len() as int
    } else if is_space(s[i]) {
        skip_space(s, i + 1)
    } else {
        i
    }
}

/// The first index at or after `i` whose character is white space, or the
/// length.
pub open spec fn word_end(s: Seq<char>, i: int) -> int
    decreases s.len() - i,
{
    if i < 0 || i >= s.len() {
        s.len() as int
    } else if is_space(s[i]) {
        i
    } else {
        word_end(s, i + 1)
    }
}

pub proof fn lemma_skip_space(s: Seq<char>, i: int)
    requires
        0 <= i <= s.len(),
    ensures
        i <= skip_space(s, i) <= s.len(),
        skip_space(s, i) < s.len() ==> !is_space(s[skip_space(s, i)]),
        forall|k: int| i <= k < skip_space(s, i) ==> is_space(s[k]),
    decreases s.len() - i,
{
    if i < s.len() && is_space(s[i]) {
        lemma_skip_space(s, i + 1);
    }
}

pub proof fn lemma_word_end(s: Seq<char>, i: int)
    requires
        0 <= i <= s.len(),
    ensures
        i <= word_end(s, i) <= s.len(),
        word_end(s, i) < s.len() ==> is_space(s[word_end(s, i)]),
        forall|k: int| i <= k < word_end(s, i) ==> !is_space(s[k]),
    decreases s.len() - i,
{
    if i < s.len() && !is_space(s[i]) {
        lemma_word_end(s, i + 1);
    }
}

/// Computes `skip_space`.
pub fn skip_space_from(s: &[char], i: usize) -> (j: usize)
    requires
        i <= s@.len(),
    ensures
        j == skip_space(s@, i as int),
{
    let mut j = i;
    while j < s.len()
        invariant
            i <= j <= s@.len(),
            skip_space(s@, j as int) == skip_space(s@, i as int),
        decreases s@.len() - j,
    {
        if !char_is_space(s[j]) {
            return j;
        }
        j += 1;
    }
    j
}

/// Computes `word_end`.
pub fn word_end_from(s: &[char], i: usize) -> (j: usize)
    requires
        i <= s@.len(),
    ensures
        j == word_end(s@, i as int),
{
    let mut j = i;
    while j < s.len()
        invariant
            i <= j <= s@.len(),
            word_end(s@, j as int) == word_end(s@, i as int),
        decreases s@.len() - j,
    {
        if char_is_space(s[j]) {
            return j;
        }
        j += 1;
    }
    j
}

/// The number of leading white-space characters.
pub open spec fn lead_space(s: Seq<char>) -> int {
    skip_space(s, 0)
}

/// The end of `s` once trailing white space is removed.
pub open spec fn trail_end(s: Seq<char>, j: int) -> int
    decreases j,
{
    if j <= 0 || j > s.len() {
        if j > s.len() { s.len() as int } else { 0 }
    } else if is_space(s[j - 1]) {
        trail_end(s, j - 1)
    } else {
        j
    }
}

/// `s` without leading and trailing white space, as `str::trim` gives it.
pub open spec fn trimmed(s: Seq<char>) -> Seq<char> {
    let a = lead_space(s);
    if a >= s.len() {
        Seq::empty()
    } else {
        s.subrange(a, trail_end(s, s.len() as int))
    }
}

pub proof fn lemma_trail_end(s: Seq<char>, j: int)
    requires
        0 <= j <= s.len(),
    ensures
        0 <= trail_end(s, j) <= j,
        trail_end(s, j) > 0 ==> !is_space(s[trail_end(s, j) - 1]),
        forall|k: int| trail_end(s, j) <= k < j ==> is_space(s[k]),
    decreases j,
{
    if j > 0 && is_space(s[j - 1]) {
        lemma_trail_end(s, j - 1);
    }
}

/// Computes `trimmed`.
pub fn trim_chars(s: &[char]) -> (t: Vec<char>)
    ensures
        t@ == trimmed(s@),
{
    let a = skip_space_from(s, 0);
    if a >= s.len() {
        return Vec::new();
    }
    let mut b = s.len();
    proof {
        lemma_skip_space(s@, 0);
    }
    while b > 0
        invariant
            b <= s@.len(),
            trail_end(s@, b as int) == trail_end(s@, s@.len() as int),
        ensures
            b == trail_end(s@, s@.len() as int),
        decreases b,
    {
        if !char_is_space(s[b - 1]) {
            break;
        }
        b -= 1;
    }
    proof {
        lemma_trail_end(s@, s@.len() as int);
        assert(a < b) by {
            if b <= a {
                assert(!is_space(s@[a as int]));
            }
        }
    }
    subslice_vec(s, a, b)
}

/// ASCII lower-casing of one character; other characters are unchanged.
pub open spec fn ascii_lower(c: char) -> char {
    if 'A' <= c <= 'Z' {
        ((c as u32) + 32) as char
    } else {
        c
    }
}

/// Whether `a` and `b` are equal ignoring ASCII case.
pub open spec fn eq_ignore_ascii_case(a: Seq<char>, b: Seq<char>) -> bool {
    a.len() == b.len() && forall|i: int| 0 <= i < a.len() ==> ascii_lower(#[trigger] a[i]) == ascii_lower(b[i])
}

/// Computes `ascii_lower`.
pub fn char_ascii_lower(c: char) -> (r: char)
    ensures
        r == ascii_lower(c),
{
    if 'A' <= c && c <= 'Z' {
        ((c as u8) + 32) as char
    } else {
        c
    }
}

/// Tests `eq_ignore_ascii_case`.
pub fn chars_eq_ignore_ascii_case(a: &[char], b: &[char]) -> (r: bool)
    ensures
        r == eq_ignore_ascii_case(a@, b@),
{
    if a.len() != b.len() {
        return false;
    }
    let mut i: usize = 0;
    while i < a.len()
        invariant
            a@.len() == b@.len(),
            i <= a@.len(),
            forall|k: int| 0 <= k < i ==> ascii_lower(#[trigger] a@[k]) == ascii_lower(b@[k]),
        decreases a@.len() - i,
    {
        if char_ascii_lower(a[i]) != char_ascii_lower(b[i]) {
            return false;
        }
        i += 1;
    }
    true
}

} // verus!
