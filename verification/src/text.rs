//! Text as sequences of characters: trimming, splitting, decimal numbers.

use vstd::prelude::*;

verus! {

/// `String::push`: the character is added at the end of the string.
pub assume_specification[ String::push ](s: &mut String, ch: char)
    ensures
        final(s)@ == old(s)@.push(ch),
;

/// The error of `std::str::from_utf8`.
#[verifier::external_type_specification]
#[verifier::external_body]
pub struct ExUtf8Error(std::str::Utf8Error);

/// `std::str::from_utf8`: the text whose UTF-8 bytes these are; it fails if
/// they are not UTF-8.
#[verifier::external_body]
pub(crate) fn utf8_text(bytes: &[u8]) -> (r: Result<&str, std::str::Utf8Error>)
    ensures
        match r {
            Ok(s) => vstd::utf8::valid_utf8(bytes@) && s@ == vstd::utf8::decode_utf8(bytes@),
            Err(_) => !vstd::utf8::valid_utf8(bytes@),
        },
{
    std::str::from_utf8(bytes)
}

/// A text in lower case, as Unicode has it.
pub uninterp spec fn lowercase(s: Seq<char>) -> Seq<char>;

/// `str::to_lowercase`: every character in lower case, by the rules of Unicode.
/// On a text of ASCII characters these are the rules of ASCII.
#[verifier::external_body]
pub(crate) fn to_lowercase(s: &str) -> (r: String)
    ensures
        r@ == lowercase(s@),
        vstd::utf8::is_ascii_chars(s@) ==> r@ == ascii_lowered(s@),
{
    s.to_lowercase()
}

/// A text in quotation marks, as the `Debug` form of a `str` gives it.
pub uninterp spec fn quoted(s: Seq<char>) -> Seq<char>;

/// The `Debug` form of a `str`: the text in quotation marks, with what cannot be
/// shown escaped. It depends on the text alone.
#[verifier::external_body]
pub(crate) fn quote(s: &str) -> (r: String)
    ensures
        r@ == quoted(s@),
{
    format!("{:?}", s)
}

/// The characters that can be trimmed off a text.
#[derive(Clone, Copy)]
pub enum CharClass {
    /// The characters with the Unicode property `White_Space`.
    Whitespace,
    /// The topic level separator.
    Slash,
}

impl CharClass {
    pub open spec fn spec_has(self, c: char) -> bool {
        match self {
            CharClass::Whitespace => is_whitespace(c),
            CharClass::Slash => c == '/',
        }
    }

    pub fn has(self, c: char) -> (b: bool)
        ensures
            b == self.spec_has(c),
    {
        match self {
            CharClass::Whitespace => {
                let n: u32 = c as u32;
                (0x9 <= n && n <= 0xd) || n == 0x20 || n == 0x85 || n == 0xa0 || n == 0x1680 || (
                0x2000 <= n && n <= 0x200a) || n == 0x2028 || n == 0x2029 || n == 0x202f || n
                    == 0x205f || n == 0x3000
            },
            CharClass::Slash => c == '/',
        }
    }
}

/// The Unicode property `White_Space`.
pub open spec fn is_whitespace(c: char) -> bool {
    let n = c as u32;
    ||| 0x9 <= n <= 0xd
    ||| n == 0x20
    ||| n == 0x85
    ||| n == 0xa0
    ||| n == 0x1680
    ||| 0x2000 <= n <= 0x200a
    ||| n == 0x2028
    ||| n == 0x2029
    ||| n == 0x202f
    ||| n == 0x205f
    ||| n == 0x3000
}

/// `s` without the leading characters of a class.
pub open spec fn trim_start(s: Seq<char>, class: CharClass) -> Seq<char>
    decreases s.len(),
{
    if s.len() > 0 && class.spec_has(s[0]) {
        trim_start(s.drop_first(), class)
    } else {
        s
    }
}

/// `s` without the trailing characters of a class.
pub open spec fn trim_end(s: Seq<char>, class: CharClass) -> Seq<char>
    decreases s.len(),
{
    if s.len() > 0 && class.spec_has(s.last()) {
        trim_end(s.drop_last(), class)
    } else {
        s
    }
}

/// `s` without the leading and the trailing characters of a class.
pub open spec fn trim_both(s: Seq<char>, class: CharClass) -> Seq<char> {
    trim_end(trim_start(s, class), class)
}

/// `s` without leading and trailing white space.
pub open spec fn trimmed(s: Seq<char>) -> Seq<char> {
    trim_both(s, CharClass::Whitespace)
}

/// `c` in lower case, if it is an ASCII letter; else `c`.
pub open spec fn ascii_lower(c: char) -> char {
    if 'A' <= c <= 'Z' {
        (c as u32 + 32) as char
    } else {
        c
    }
}

/// `s` with its ASCII letters in lower case.
pub open spec fn ascii_lowered(s: Seq<char>) -> Seq<char> {
    s.map_values(|c: char| ascii_lower(c))
}

/// The pieces of `s` between the occurrences of `sep`.
pub open spec fn split_on(s: Seq<char>, sep: char) -> Seq<Seq<char>>
    decreases s.len(),
{
    if s.len() == 0 {
        seq![Seq::<char>::empty()]
    } else {
        let before = split_on(s.drop_last(), sep);
        if s.last() == sep {
            before.push(Seq::<char>::empty())
        } else {
            before.update(before.len() - 1, before.last().push(s.last()))
        }
    }
}

/// The pieces, one after the other, with `sep` between each two.
pub open spec fn join_with(pieces: Seq<Seq<char>>, sep: Seq<char>) -> Seq<char>
    decreases pieces.len(),
{
    if pieces.len() == 0 {
        Seq::<char>::empty()
    } else if pieces.len() == 1 {
        pieces[0]
    } else {
        join_with(pieces.drop_last(), sep) + sep + pieces.last()
    }
}

/// The views of some strings.
pub open spec fn views(v: Seq<String>) -> Seq<Seq<char>> {
    v.map_values(|s: String| s@)
}

/// The decimal digit of a number under ten.
pub open spec fn digit(d: nat) -> char {
    (48 + d) as char
}

/// `n` in decimal digits, without leading zeros.
pub open spec fn decimal(n: nat) -> Seq<char>
    decreases n,
{
    if n < 10 {
        seq![digit(n)]
    } else {
        decimal(n / 10).push(digit(n % 10))
    }
}

/// `n` in decimal, with a minus sign if it is negative.
pub open spec fn signed_decimal(n: int) -> Seq<char> {
    if n < 0 {
        seq!['-'] + decimal((-n) as nat)
    } else {
        decimal(n as nat)
    }
}

/// The last `width` decimal digits of `n`, leading zeros written out.
pub open spec fn padded_decimal(n: nat, width: nat) -> Seq<char>
    decreases width,
{
    if width == 0 {
        Seq::<char>::empty()
    } else {
        padded_decimal(n / 10, (width - 1) as nat).push(digit(n % 10))
    }
}

pub open spec fn is_digit(c: char) -> bool {
    '0' <= c <= '9'
}

pub open spec fn all_digits(s: Seq<char>) -> bool {
    forall|i: int| 0 <= i < s.len() ==> is_digit(#[trigger] s[i])
}

/// The number that a sequence of decimal digits stands for.
pub open spec fn decimal_value(s: Seq<char>) -> nat
    decreases s.len(),
{
    if s.len() == 0 {
        0
    } else {
        10 * decimal_value(s.drop_last()) + (s.last() as nat - 48) as nat
    }
}

/// `s` read as an unsigned number of at most `max`: one digit or more, after a
/// plus sign or none.
pub open spec fn parsed_unsigned(s: Seq<char>, max: nat) -> Option<nat> {
    let digits = if s.len() > 0 && s[0] == '+' {
        s.drop_first()
    } else {
        s
    };
    if digits.len() > 0 && all_digits(digits) && decimal_value(digits) <= max {
        Some(decimal_value(digits))
    } else {
        None
    }
}

/// The characters of `s`.
pub fn chars_of(s: &str) -> (cs: Vec<char>)
    ensures
        cs@ == s@,
{
    let mut cs: Vec<char> = Vec::new();
    for c in it: s.chars()
        invariant
            cs@ == it.seq().take(it.index() as int),
            it.seq() == s@,
    {
        cs.push(c);
        proof {
            assert(it.seq().take(it.index() + 1) =~= it.seq().take(it.index() as int).push(c));
        }
    }
    proof {
        assert(s@.take(s@.len() as int) =~= s@);
    }
    cs
}

/// The characters of `cs` from `lo` up to `hi`, as a string.
pub fn string_of(cs: &Vec<char>, lo: usize, hi: usize) -> (s: String)
    requires
        lo <= hi <= cs@.len(),
    ensures
        s@ == cs@.subrange(lo as int, hi as int),
{
    let mut s = String::new();
    let mut i: usize = lo;
    proof {
        assert(s@ =~= cs@.subrange(lo as int, lo as int));
    }
    while i < hi
        invariant
            lo <= i <= hi <= cs@.len(),
            s@ == cs@.subrange(lo as int, i as int),
        decreases hi - i,
    {
        s.push(cs[i]);
        proof {
            assert(cs@.subrange(lo as int, i + 1) =~= cs@.subrange(lo as int, i as int).push(
                cs@[i as int],
            ));
        }
        i = i + 1;
    }
    s
}

/// Whether two texts are equal.
pub fn same_text(a: &str, b: &str) -> (r: bool)
    ensures
        r == (a@ == b@),
{
    let x = chars_of(a);
    let y = chars_of(b);
    same_chars(&x, &y)
}

/// Whether two sequences of characters are equal.
pub fn same_chars(x: &Vec<char>, y: &Vec<char>) -> (r: bool)
    ensures
        r == (x@ == y@),
{
    if x.len() != y.len() {
        return false;
    }
    let mut i: usize = 0;
    while i < x.len()
        invariant
            i <= x@.len(),
            x@.len() == y@.len(),
            forall|j: int| 0 <= j < i ==> x@[j] == y@[j],
        decreases x@.len() - i,
    {
        if x[i] != y[i] {
            return false;
        }
        i = i + 1;
    }
    proof {
        assert(x@ =~= y@);
    }
    true
}

/// The text `s` without the leading and the trailing characters of a class.
pub fn trim(s: &str, class: CharClass) -> (r: String)
    ensures
        r@ == trim_both(s@, class),
{
    let cs = chars_of(s);
    proof {
        assert(cs@.subrange(0, cs@.len() as int) =~= s@);
    }
    let (lo, hi) = trim_range(&cs, 0, cs.len(), class);
    string_of(&cs, lo, hi)
}

/// The text `s` without its trailing characters of a class.
pub fn trim_tail(s: &str, class: CharClass) -> (r: String)
    ensures
        r@ == trim_end(s@, class),
{
    let cs = chars_of(s);
    let mut hi: usize = cs.len();
    proof {
        assert(cs@.subrange(0, hi as int) =~= s@);
    }
    while hi > 0 && class.has(cs[hi - 1])
        invariant
            hi <= cs@.len(),
            trim_end(s@, class) == trim_end(cs@.subrange(0, hi as int), class),
        decreases hi,
    {
        proof {
            assert(cs@.subrange(0, hi as int).drop_last() =~= cs@.subrange(0, hi - 1));
        }
        hi = hi - 1;
    }
    string_of(&cs, 0, hi)
}

/// `c` in lower case, if it is an ASCII letter; else `c`.
fn lower_char(c: char) -> (r: char)
    ensures
        r == ascii_lower(c),
{
    if 'A' <= c && c <= 'Z' {
        let n: u8 = c as u8;
        (n + 32) as char
    } else {
        c
    }
}

/// The text `s` with its ASCII letters in lower case.
pub fn lower_ascii(s: &str) -> (r: String)
    ensures
        r@ == ascii_lowered(s@),
{
    let cs = chars_of(s);
    let mut r = String::new();
    let mut i: usize = 0;
    while i < cs.len()
        invariant
            i <= cs@.len(),
            r@ == ascii_lowered(cs@.take(i as int)),
        decreases cs@.len() - i,
    {
        let c: char = lower_char(cs[i]);
        r.push(c);
        i = i + 1;
        proof {
            assert(r@ =~= ascii_lowered(cs@.take(i as int)));
        }
    }
    proof {
        assert(cs@.take(i as int) =~= s@);
    }
    r
}

/// `split_on` gives at least one piece.
pub proof fn lemma_split_nonempty(s: Seq<char>, sep: char)
    ensures
        split_on(s, sep).len() >= 1,
    decreases s.len(),
{
    if s.len() > 0 {
        lemma_split_nonempty(s.drop_last(), sep);
    }
}

/// The pieces of the text `s` between the occurrences of `sep`.
pub fn split(s: &str, sep: char) -> (pieces: Vec<String>)
    ensures
        views(pieces@) == split_on(s@, sep),
        pieces@.len() >= 1,
{
    let cs = chars_of(s);
    let mut pieces: Vec<String> = Vec::new();
    let mut current = String::new();
    let mut i: usize = 0;
    proof {
        assert(cs@.take(0) =~= Seq::<char>::empty());
        assert(views(pieces@).push(current@) =~= split_on(cs@.take(0), sep));
    }
    while i < cs.len()
        invariant
            i <= cs@.len(),
            views(pieces@).push(current@) == split_on(cs@.take(i as int), sep),
        decreases cs@.len() - i,
    {
        let ghost before = split_on(cs@.take(i as int), sep);
        proof {
            assert(cs@.take(i + 1).drop_last() =~= cs@.take(i as int));
        }
        if cs[i] == sep {
            pieces.push(current);
            current = String::new();
            proof {
                assert(views(pieces@) =~= before);
                assert(current@ =~= Seq::<char>::empty());
            }
        } else {
            current.push(cs[i]);
            proof {
                assert(views(pieces@).push(current@) =~= before.update(
                    before.len() - 1,
                    before.last().push(cs@[i as int]),
                ));
            }
        }
        i = i + 1;
    }
    pieces.push(current);
    proof {
        assert(cs@.take(i as int) =~= s@);
        assert(views(pieces@) =~= split_on(s@, sep));
    }
    pieces
}

/// Joining the pieces of a text with the separator gives the text again, and no
/// piece holds the separator.
pub proof fn law_split_join(s: Seq<char>, sep: char)
    ensures
        join_with(split_on(s, sep), seq![sep]) == s,
        forall|i: int|
            0 <= i < split_on(s, sep).len() ==> !(#[trigger] split_on(s, sep)[i]).contains(sep),
    decreases s.len(),
{
    let pieces = split_on(s, sep);
    if s.len() == 0 {
        assert(join_with(pieces, seq![sep]) =~= s);
    } else {
        let before = split_on(s.drop_last(), sep);
        law_split_join(s.drop_last(), sep);
        lemma_split_nonempty(s.drop_last(), sep);
        if s.last() == sep {
            assert(pieces.drop_last() =~= before);
            assert(join_with(pieces, seq![sep]) =~= s.drop_last() + seq![sep]);
            assert(s =~= s.drop_last() + seq![sep]);
        } else {
            let last = before.last().push(s.last());
            assert(pieces.drop_last() =~= before.drop_last());
            assert(s =~= s.drop_last() + seq![s.last()]);
            if before.len() == 1 {
                assert(join_with(pieces, seq![sep]) =~= s);
            } else {
                assert(join_with(pieces, seq![sep]) =~= join_with(before, seq![sep]) + seq![
                    s.last(),
                ]);
            }
            assert forall|i: int| 0 <= i < pieces.len() implies !(#[trigger] pieces[i]).contains(
                sep,
            ) by {
                if i == pieces.len() - 1 {
                    if last.contains(sep) {
                        let j = choose|j: int| 0 <= j < last.len() && last[j] == sep;
                        assert(before.last()[j] == sep);
                        assert(before[before.len() - 1].contains(sep));
                    }
                } else {
                    assert(pieces[i] == before[i]);
                }
            }
        }
    }
}

/// The text of `n` in decimal.
pub fn decimal_text(n: u64) -> (s: String)
    ensures
        s@ == decimal(n as nat),
    decreases n,
{
    if n < 10 {
        let mut s = String::new();
        s.push(digit_of(n as u8));
        proof {
            assert(s@ =~= seq![digit(n as nat)]);
        }
        s
    } else {
        let mut s = decimal_text(n / 10);
        s.push(digit_of((n % 10) as u8));
        s
    }
}

fn digit_of(d: u8) -> (c: char)
    requires
        d < 10,
    ensures
        c == digit(d as nat),
{
    (48 + d) as char
}

/// The text of `n` in decimal, with a minus sign if it is negative.
pub fn signed_decimal_text(n: i64) -> (s: String)
    ensures
        s@ == signed_decimal(n as int),
{
    if n < 0 {
        let mut s = String::new();
        s.push('-');
        let size: u64 = (-(n + 1)) as u64 + 1;
        s.append(decimal_text(size).as_str());
        proof {
            assert(s@ =~= seq!['-'] + decimal((-(n as int)) as nat));
        }
        s
    } else {
        decimal_text(n as u64)
    }
}

/// The last `width` decimal digits of `n`.
pub fn padded_text(n: u64, width: usize) -> (s: String)
    ensures
        s@ == padded_decimal(n as nat, width as nat),
    decreases width,
{
    if width == 0 {
        String::new()
    } else {
        let mut s = padded_text(n / 10, width - 1);
        s.push(digit_of((n % 10) as u8));
        s
    }
}

/// `s` read as an unsigned decimal number of at most `max`, after a plus sign
/// or none.
pub fn parse_unsigned(s: &str, max: u64) -> (r: Option<u64>)
    ensures
        r == (match parsed_unsigned(s@, max as nat) {
            Some(n) => Some(n as u64),
            None => None,
        }),
        parsed_unsigned(s@, max as nat) matches Some(n) ==> n <= max,
{
    let cs = chars_of(s);
    let start: usize = if cs.len() > 0 && cs[0] == '+' {
        1
    } else {
        0
    };
    let ghost digits = if s@.len() > 0 && s@[0] == '+' {
        s@.drop_first()
    } else {
        s@
    };
    proof {
        assert(digits =~= cs@.subrange(start as int, cs@.len() as int));
    }
    if start == cs.len() {
        return None;
    }
    let mut value: u64 = 0;
    let mut i: usize = start;
    proof {
        assert(digits.take(0) =~= Seq::<char>::empty());
    }
    while i < cs.len()
        invariant
            start <= i <= cs@.len(),
            digits == cs@.subrange(start as int, cs@.len() as int),
            digits.len() > 0,
            parsed_unsigned(s@, max as nat) == (if digits.len() > 0 && all_digits(digits)
                && decimal_value(digits) <= max {
                Some(decimal_value(digits))
            } else {
                None
            }),
            all_digits(digits.take(i - start)),
            value == decimal_value(digits.take(i - start)),
            value <= max,
        decreases cs@.len() - i,
    {
        let c: char = cs[i];
        let ghost k = i - start;
        proof {
            assert(digits[k] == c);
            assert(digits.take(k + 1).drop_last() =~= digits.take(k));
        }
        if !('0' <= c && c <= '9') {
            return None;
        }
        let d: u64 = (c as u8 - 48) as u64;
        proof {
            assert(decimal_value(digits.take(k + 1)) == 10 * value + d);
            lemma_decimal_value_grows(digits, k + 1);
        }
        if value > (u64::MAX - d) / 10 {
            return None;
        }
        value = value * 10 + d;
        if value > max {
            return None;
        }
        i = i + 1;
    }
    proof {
        assert(digits.take(i - start) =~= digits);
    }
    Some(value)
}

/// A number is no smaller than what its leading digits stand for.
proof fn lemma_decimal_value_grows(s: Seq<char>, k: int)
    requires
        0 <= k <= s.len(),
    ensures
        all_digits(s) ==> decimal_value(s.take(k)) <= decimal_value(s),
    decreases s.len() - k,
{
    if k < s.len() {
        lemma_decimal_value_grows(s, k + 1);
        assert(s.take(k + 1).drop_last() =~= s.take(k));
        assert(all_digits(s) ==> is_digit(s[k]));
    } else {
        assert(s.take(k) =~= s);
    }
}

/// Where the characters of a class end and begin around `cs` from `lo` up to
/// `hi`: the range without them.
pub fn trim_range(cs: &Vec<char>, lo: usize, hi: usize, class: CharClass) -> (r: (usize, usize))
    requires
        lo <= hi <= cs@.len(),
    ensures
        lo <= r.0 <= r.1 <= hi,
        cs@.subrange(r.0 as int, r.1 as int) == trim_both(
            cs@.subrange(lo as int, hi as int),
            class,
        ),
{
    let ghost whole = cs@.subrange(lo as int, hi as int);
    let mut start: usize = lo;
    while start < hi && class.has(cs[start])
        invariant
            lo <= start <= hi <= cs@.len(),
            trim_start(whole, class) == trim_start(
                cs@.subrange(start as int, hi as int),
                class,
            ),
        decreases hi - start,
    {
        proof {
            assert(cs@.subrange(start as int, hi as int).drop_first() =~= cs@.subrange(
                start + 1,
                hi as int,
            ));
        }
        start = start + 1;
    }
    let ghost front = cs@.subrange(start as int, hi as int);
    let mut end: usize = hi;
    while end > start && class.has(cs[end - 1])
        invariant
            start <= end <= hi <= cs@.len(),
            trim_end(front, class) == trim_end(cs@.subrange(start as int, end as int), class),
        decreases end,
    {
        proof {
            assert(cs@.subrange(start as int, end as int).drop_last() =~= cs@.subrange(
                start as int,
                end - 1,
            ));
        }
        end = end - 1;
    }
    (start, end)
}

/// All pieces of a text but its last stay as they are, whatever follows.
proof fn lemma_split_extend(s: Seq<char>, k: int, sep: char, n: int)
    requires
        0 <= k <= s.len(),
        0 <= n < split_on(s.take(k), sep).len() - 1,
    ensures
        n < split_on(s, sep).len() - 1,
        split_on(s, sep)[n] == split_on(s.take(k), sep)[n],
    decreases s.len() - k,
{
    if k == s.len() {
        assert(s.take(k) =~= s);
    } else {
        lemma_split_nonempty(s.take(k), sep);
        assert(s.take(k + 1).drop_last() =~= s.take(k));
        lemma_split_extend(s, k + 1, sep, n);
    }
}

/// Where the piece number `n` of `cs` from `lo` up to `hi` begins and ends, if
/// there are so many pieces.
pub fn piece_range(cs: &Vec<char>, lo: usize, hi: usize, sep: char, n: usize) -> (r: Option<
    (usize, usize),
>)
    requires
        lo <= hi <= cs@.len(),
    ensures
        ({
            let pieces = split_on(cs@.subrange(lo as int, hi as int), sep);
            match r {
                Some((start, end)) => {
                    &&& n < pieces.len()
                    &&& lo <= start <= end <= hi
                    &&& cs@.subrange(start as int, end as int) == pieces[n as int]
                },
                None => n >= pieces.len(),
            }
        }),
{
    let ghost whole = cs@.subrange(lo as int, hi as int);
    let mut start: usize = lo;
    let mut seen: usize = 0;
    let mut i: usize = lo;
    proof {
        assert(whole.take(0) =~= Seq::<char>::empty());
        assert(cs@.subrange(lo as int, lo as int) =~= Seq::<char>::empty());
    }
    while i < hi
        invariant
            lo <= start <= i <= hi <= cs@.len(),
            seen <= n,
            seen <= i - lo,
            whole == cs@.subrange(lo as int, hi as int),
            split_on(whole.take(i - lo), sep).len() == seen + 1,
            split_on(whole.take(i - lo), sep).last() == cs@.subrange(start as int, i as int),
        decreases hi - i,
    {
        let ghost k = i - lo;
        proof {
            assert(whole.take(k + 1).drop_last() =~= whole.take(k));
            assert(whole.take(k + 1).last() == cs@[i as int]);
        }
        if cs[i] == sep {
            if seen == n {
                proof {
                    lemma_split_extend(whole, k + 1, sep, n as int);
                }
                return Some((start, i));
            }
            seen = seen + 1;
            start = i + 1;
            proof {
                assert(cs@.subrange(start as int, i + 1) =~= Seq::<char>::empty());
            }
        } else {
            proof {
                assert(cs@.subrange(start as int, i + 1) =~= cs@.subrange(
                    start as int,
                    i as int,
                ).push(cs@[i as int]));
            }
        }
        i = i + 1;
    }
    proof {
        assert(whole.take(i - lo) =~= whole);
    }
    if seen == n {
        Some((start, hi))
    } else {
        None
    }
}

/// The texts, one after the other, with `sep` between each two.
pub fn join(pieces: &Vec<String>, sep: &str) -> (s: String)
    ensures
        s@ == join_with(views(pieces@), sep@),
{
    let mut s = String::new();
    let ghost all = views(pieces@);
    let mut i: usize = 0;
    proof {
        assert(s@ =~= join_with(all.take(0), sep@));
    }
    while i < pieces.len()
        invariant
            i <= pieces@.len(),
            all == views(pieces@),
            s@ == join_with(all.take(i as int), sep@),
        decreases pieces@.len() - i,
    {
        proof {
            assert(all.take(i + 1).drop_last() =~= all.take(i as int));
            assert(all.take(i + 1).last() == pieces@[i as int]@);
            if i == 0 {
                assert(s@ + pieces@[0]@ =~= pieces@[0]@);
            }
        }
        if i > 0 {
            s.append(sep);
        }
        s.append(pieces[i].as_str());
        i = i + 1;
    }
    proof {
        assert(all.take(i as int) =~= all);
    }
    s
}

/// Trimming leaves a text that neither begins nor ends with a character of the
/// class.
pub proof fn lemma_trim_ends(s: Seq<char>, class: CharClass)
    ensures
        ({
            let t = trim_both(s, class);
            t.len() > 0 ==> !class.spec_has(t[0]) && !class.spec_has(t.last())
        }),
{
    let front = trim_start(s, class);
    lemma_trim_start_front(s, class);
    lemma_trim_end_back(front, class);
}

proof fn lemma_trim_start_front(s: Seq<char>, class: CharClass)
    ensures
        trim_start(s, class).len() > 0 ==> !class.spec_has(trim_start(s, class)[0]),
    decreases s.len(),
{
    if s.len() > 0 && class.spec_has(s[0]) {
        lemma_trim_start_front(s.drop_first(), class);
    }
}

proof fn lemma_trim_end_back(s: Seq<char>, class: CharClass)
    ensures
        trim_end(s, class).len() <= s.len(),
        trim_end(s, class).len() > 0 ==> !class.spec_has(trim_end(s, class).last()) && trim_end(
            s,
            class,
        )[0] == s[0],
    decreases s.len(),
{
    if s.len() > 0 && class.spec_has(s.last()) {
        lemma_trim_end_back(s.drop_last(), class);
    }
}

/// Trimming a trimmed text changes nothing.
pub proof fn law_trim_idempotent(s: Seq<char>, class: CharClass)
    ensures
        trim_both(trim_both(s, class), class) == trim_both(s, class),
{
    lemma_trim_ends(s, class);
}

/// Lower case and trimming, done again, change nothing.
pub proof fn lemma_lower_trim_idempotent(s: Seq<char>)
    ensures
        ascii_lowered(trimmed(ascii_lowered(trimmed(s)))) == ascii_lowered(trimmed(s)),
{
    let t = trimmed(s);
    let low = ascii_lowered(t);
    lemma_trim_ends(s, CharClass::Whitespace);
    if t.len() > 0 {
        assert(low[0] == ascii_lower(t[0]));
        assert(low.last() == ascii_lower(t.last()));
        assert(!is_whitespace(low[0]));
        assert(!is_whitespace(low.last()));
    }
    assert(trimmed(low) == low);
    assert(ascii_lowered(low) =~= low);
}

/// A number in decimal is read back as the number, has no leading zero, and ends
/// with its last digit, behind the rest of the number.
pub proof fn law_decimal_is_the_number(n: nat)
    ensures
        all_digits(decimal(n)),
        decimal(n).len() > 0,
        decimal_value(decimal(n)) == n,
        decimal(n).last() as nat == '0' as nat + n % 10,
        n >= 10 ==> decimal(n).drop_last() == decimal(n / 10),
        n < 10 ==> decimal(n).len() == 1,
        n > 0 ==> decimal(n)[0] != '0',
    decreases n,
{
    if n >= 10 {
        let front = decimal(n / 10);
        law_decimal_is_the_number(n / 10);
        assert(decimal(n).drop_last() =~= front);
        assert(decimal(n)[0] == front[0]);
        assert forall|i: int| 0 <= i < decimal(n).len() implies is_digit(
            #[trigger] decimal(n)[i],
        ) by {
            if i < front.len() {
                assert(decimal(n)[i] == front[i]);
            }
        }
    } else {
        assert(decimal(n).drop_last() =~= Seq::<char>::empty());
        assert(decimal_value(Seq::<char>::empty()) == 0);
    }
}

/// A digit more makes a number of ten times the value, and the digit.
pub proof fn law_value_of_a_digit_more(s: Seq<char>, c: char)
    requires
        is_digit(c),
    ensures
        decimal_value(s.push(c)) == 10 * decimal_value(s) + (c as nat - '0' as nat),
        decimal_value(seq![c]) == c as nat - '0' as nat,
{
    assert(s.push(c).drop_last() =~= s);
    assert(seq![c].drop_last() =~= Seq::<char>::empty());
    assert(decimal_value(Seq::<char>::empty()) == 0);
}

/// A number up to the greatest one is parsed from its decimal form, with or
/// without a plus sign; a greater one is not, and neither is a text that is empty
/// or holds anything but digits.
pub proof fn law_numbers_up_to_the_greatest_are_parsed(n: nat, max: nat, s: Seq<char>, i: int)
    ensures
        n <= max ==> parsed_unsigned(decimal(n), max) == Some(n),
        n <= max ==> parsed_unsigned(seq!['+'] + decimal(n), max) == Some(n),
        n > max ==> parsed_unsigned(decimal(n), max) is None,
        parsed_unsigned(Seq::<char>::empty(), max) is None,
        parsed_unsigned(seq!['+'], max) is None,
        0 <= i < s.len() && !('0' <= s[i] <= '9') && (i > 0 || s[0] != '+') ==> parsed_unsigned(
            s,
            max,
        ) is None,
        parsed_unsigned(s, max) matches Some(m) ==> m <= max,
{
    law_decimal_is_the_number(n);
    assert(is_digit(decimal(n)[0]));
    assert((seq!['+'] + decimal(n)).drop_first() =~= decimal(n));
    assert(seq!['+'].drop_first().len() == 0);
    if 0 <= i < s.len() && !('0' <= s[i] <= '9') && (i > 0 || s[0] != '+') {
        if s[0] == '+' {
            let digits = s.drop_first();
            assert(digits[i - 1] == s[i]);
            assert(!is_digit(digits[i - 1]));
        } else {
            assert(!is_digit(s[i]));
        }
    }
}

/// A number below zero is written as its opposite behind a minus sign, any other
/// in decimal alone.
pub proof fn law_minus_sign_is_for_numbers_below_zero(n: int)
    ensures
        n > 0 ==> signed_decimal(-n) == seq!['-'] + signed_decimal(n),
        n >= 0 ==> signed_decimal(n) == decimal(n as nat),
        n >= 0 ==> signed_decimal(n)[0] != '-',
{
    if n >= 0 {
        law_decimal_is_the_number(n as nat);
        assert(is_digit(decimal(n as nat)[0]));
    }
}

/// Trimming takes characters of the class off both ends, and nothing else.
pub proof fn law_trimming_takes_only_the_ends(s: Seq<char>, class: CharClass)
    ensures
        exists|from: int, to: int|
            0 <= from <= to <= s.len() && trim_both(s, class) == #[trigger] s.subrange(from, to)
                && (forall|i: int|
                0 <= i < from || to <= i < s.len() ==> class.spec_has(#[trigger] s[i])),
        trim_both(s, class).len() > 0 ==> !class.spec_has(trim_both(s, class)[0])
            && !class.spec_has(trim_both(s, class).last()),
{
    lemma_trim_ends(s, class);
    lemma_trim_start_suffix(s, class);
    let from = s.len() - trim_start(s, class).len();
    let rest = s.skip(from);
    lemma_trim_end_prefix(rest, class);
    let to = from + trim_end(rest, class).len();
    assert(trim_both(s, class) =~= s.subrange(from, to));
    assert forall|i: int| 0 <= i < from || to <= i < s.len() implies class.spec_has(
        #[trigger] s[i],
    ) by {
        if i >= to {
            assert(rest[i - from] == s[i]);
        }
    }
}

proof fn lemma_trim_start_suffix(s: Seq<char>, class: CharClass)
    ensures
        trim_start(s, class).len() <= s.len(),
        trim_start(s, class) == s.skip(s.len() - trim_start(s, class).len()),
        forall|i: int|
            0 <= i < s.len() - trim_start(s, class).len() ==> class.spec_has(#[trigger] s[i]),
    decreases s.len(),
{
    if s.len() > 0 && class.spec_has(s[0]) {
        let rest = s.drop_first();
        lemma_trim_start_suffix(rest, class);
        assert(trim_start(s, class) =~= s.skip(s.len() - trim_start(s, class).len()));
        assert forall|i: int| 0 <= i < s.len() - trim_start(s, class).len() implies class.spec_has(
            #[trigger] s[i],
        ) by {
            if i > 0 {
                assert(rest[i - 1] == s[i]);
            }
        }
    } else {
        assert(s.skip(0) =~= s);
    }
}

proof fn lemma_trim_end_prefix(s: Seq<char>, class: CharClass)
    ensures
        trim_end(s, class).len() <= s.len(),
        trim_end(s, class) == s.take(trim_end(s, class).len() as int),
        forall|i: int|
            trim_end(s, class).len() <= i < s.len() ==> class.spec_has(#[trigger] s[i]),
    decreases s.len(),
{
    if s.len() > 0 && class.spec_has(s.last()) {
        let rest = s.drop_last();
        lemma_trim_end_prefix(rest, class);
        assert(trim_end(s, class) =~= s.take(trim_end(s, class).len() as int));
        assert forall|i: int| trim_end(s, class).len() <= i < s.len() implies class.spec_has(
            #[trigger] s[i],
        ) by {
            if i < rest.len() {
                assert(rest[i] == s[i]);
            }
        }
    } else {
        assert(s.take(s.len() as int) =~= s);
    }
}

/// Of the characters of ASCII, those from tab to carriage return and the space
/// are whitespace, and no other one is.
pub proof fn law_ascii_whitespace(c: char)
    requires
        (c as u32) < 0x80,
    ensures
        CharClass::Whitespace.spec_has(c) <==> c == ' ' || '\t' <= c <= '\r',
        CharClass::Slash.spec_has(c) <==> c == '/',
{
}

/// Beyond ASCII, whitespace is the next line, the two spaces that do not break,
/// the spaces from the en quad to the hair space, the Ogham, the mathematical and
/// the ideographic space, and the two separators of lines and of paragraphs.
pub proof fn law_other_whitespace(c: char)
    requires
        (c as u32) >= 0x80,
    ensures
        CharClass::Whitespace.spec_has(c) <==> c == '\u{85}' || c == '\u{a0}' || c == '\u{202f}'
            || '\u{2000}' <= c <= '\u{200a}' || c == '\u{1680}' || c == '\u{205f}' || c
            == '\u{3000}' || c == '\u{2028}' || c == '\u{2029}',
{
}

/// Lowering changes the letters from A to Z, each to its own small letter, and
/// no other character.
pub proof fn law_only_capital_letters_are_lowered(s: Seq<char>, i: int)
    requires
        0 <= i < s.len(),
    ensures
        ascii_lowered(s).len() == s.len(),
        'A' <= s[i] <= 'Z' ==> ascii_lowered(s)[i] as int - 'a' as int == s[i] as int - 'A' as int,
        !('A' <= s[i] <= 'Z') ==> ascii_lowered(s)[i] == s[i],
        !('A' <= ascii_lowered(s)[i] <= 'Z'),
{
}

/// Trimming and lowering can change places.
pub proof fn lemma_trim_lowered(s: Seq<char>)
    ensures
        trimmed(ascii_lowered(s)) == ascii_lowered(trimmed(s)),
{
    lemma_trim_start_lowered(s);
    lemma_trim_end_lowered(trim_start(s, CharClass::Whitespace));
}

proof fn lemma_trim_start_lowered(s: Seq<char>)
    ensures
        trim_start(ascii_lowered(s), CharClass::Whitespace) == ascii_lowered(
            trim_start(s, CharClass::Whitespace),
        ),
    decreases s.len(),
{
    if s.len() > 0 {
        lemma_trim_start_lowered(s.drop_first());
        assert(ascii_lowered(s).drop_first() =~= ascii_lowered(s.drop_first()));
        assert(is_whitespace(ascii_lowered(s)[0]) == is_whitespace(s[0]));
    }
}

proof fn lemma_trim_end_lowered(s: Seq<char>)
    ensures
        trim_end(ascii_lowered(s), CharClass::Whitespace) == ascii_lowered(
            trim_end(s, CharClass::Whitespace),
        ),
    decreases s.len(),
{
    if s.len() > 0 {
        lemma_trim_end_lowered(s.drop_last());
        assert(ascii_lowered(s).drop_last() =~= ascii_lowered(s.drop_last()));
        assert(is_whitespace(ascii_lowered(s).last()) == is_whitespace(s.last()));
    }
}

/// What stands between the same texts is the same.
pub proof fn lemma_between(before: Seq<char>, a: Seq<char>, b: Seq<char>, after: Seq<char>)
    requires
        before + a + after == before + b + after,
    ensures
        a == b,
{
    let s = before + a + after;
    let t = before + b + after;
    assert(s.len() == t.len());
    assert(a =~= s.subrange(before.len() as int, s.len() - after.len()));
    assert(b =~= t.subrange(before.len() as int, t.len() - after.len()));
}

/// Different numbers are written differently.
pub proof fn law_numbers_are_written_differently(m: nat, n: nat)
    ensures
        decimal(m) == decimal(n) ==> m == n,
{
    law_decimal_is_the_number(m);
    law_decimal_is_the_number(n);
}

} // verus!
