//! Character-level text helpers: comparison, prefixes, digits and decimal
//! rendering of numbers.

use vstd::prelude::*;

verus! {

/// Whether two strings hold the same characters.
pub fn str_equal(a: &str, b: &str) -> (same: bool)
    ensures
        same == (a@ == b@),
{
    let n = a.unicode_len();
    if n != b.unicode_len() {
        return false;
    }
    let mut i: usize = 0;
    while i < n
        invariant
            n == a@.len(),
            n == b@.len(),
            i <= n,
            forall|j: int| 0 <= j < i ==> a@[j] == b@[j],
        decreases n - i,
    {
        if a.get_char(i) != b.get_char(i) {
            return false;
        }
        i = i + 1;
    }
    assert(a@ =~= b@);
    true
}

} // verus!

verus! {

/// The characters of `s`, in order.
pub fn chars_of(s: &str) -> (chars: Vec<char>)
    ensures
        chars@ == s@,
{
    let n = s.unicode_len();
    let mut chars: Vec<char> = Vec::new();
    let mut i: usize = 0;
    while i < n
        invariant
            n == s@.len(),
            i <= n,
            chars@ == s@.subrange(0, i as int),
        decreases n - i,
    {
        chars.push(s.get_char(i));
        i = i + 1;
        assert(chars@ =~= s@.subrange(0, i as int));
    }
    assert(chars@ =~= s@);
    chars
}

/// Whether `c` is one of the ASCII digits `0` to `9`.
pub open spec fn is_decimal_digit(c: char) -> bool {
    '0' <= c && c <= '9'
}

/// The digit character that writes `d` (for `d` below ten).
pub open spec fn digit_char(d: nat) -> char {
    ((d + 48) as u32) as char
}

/// The decimal numeral of `n`, without leading zeros.
pub open spec fn decimal(n: nat) -> Seq<char>
    decreases n,
{
    if n < 10 {
        seq![digit_char(n)]
    } else {
        decimal(n / 10).push(digit_char(n % 10))
    }
}

/// The decimal numeral of a signed number, with a leading `-` when negative.
pub open spec fn signed_decimal(v: int) -> Seq<char> {
    if v < 0 {
        seq!['-'] + decimal((-v) as nat)
    } else {
        decimal(v as nat)
    }
}

/// The one-character string that writes the digit `d`.
fn digit_text(d: u64) -> (text: &'static str)
    requires
        d < 10,
    ensures
        text@ == seq![digit_char(d as nat)],
{
    proof {
        reveal_strlit("0");
        reveal_strlit("1");
        reveal_strlit("2");
        reveal_strlit("3");
        reveal_strlit("4");
        reveal_strlit("5");
        reveal_strlit("6");
        reveal_strlit("7");
        reveal_strlit("8");
        reveal_strlit("9");
    }
    let text = match d {
        0 => "0",
        1 => "1",
        2 => "2",
        3 => "3",
        4 => "4",
        5 => "5",
        6 => "6",
        7 => "7",
        8 => "8",
        _ => "9",
    };
    assert(text@ =~= seq![digit_char(d as nat)]);
    text
}

/// Appends the decimal numeral of `n` to `out`.
pub fn push_decimal(out: &mut String, n: u64)
    ensures
        final(out)@ == old(out)@ + decimal(n as nat),
    decreases n,
{
    if n >= 10 {
        push_decimal(out, n / 10);
    }
    out.append(digit_text(n % 10));
    assert(final(out)@ =~= old(out)@ + decimal(n as nat));
}

/// The decimal numeral of an unsigned number.
pub fn u64_text(n: u64) -> (text: String)
    ensures
        text@ == decimal(n as nat),
{
    let mut text = String::new();
    push_decimal(&mut text, n);
    assert(text@ =~= decimal(n as nat));
    text
}

/// The decimal numeral of a signed number, as `i32::to_string` writes it.
pub fn i32_text(v: i32) -> (text: String)
    ensures
        text@ == signed_decimal(v as int),
{
    let mut text = String::new();
    if v < 0 {
        proof { reveal_strlit("-"); }
        text.append("-");
        let magnitude: u64 = (0i64 - (v as i64)) as u64;
        push_decimal(&mut text, magnitude);
    } else {
        push_decimal(&mut text, v as u64);
    }
    assert(text@ =~= signed_decimal(v as int));
    text
}

/// Whether `name` is `prefix` followed by one or more ASCII digits.
pub open spec fn is_numbered_name(name: Seq<char>, prefix: Seq<char>) -> bool {
    &&& name.len() > prefix.len()
    &&& name.subrange(0, prefix.len() as int) == prefix
    &&& forall|i: int| prefix.len() <= i < name.len() ==> is_decimal_digit(#[trigger] name[i])
}

/// Whether a device name is `prefix` followed by a non-empty run of ASCII
/// digits, such as `renderD128` for the prefix `renderD`.
pub fn numbered_name(name: &str, prefix: &str) -> (numbered: bool)
    ensures
        numbered == is_numbered_name(name@, prefix@),
{
    let n = name.unicode_len();
    let p = prefix.unicode_len();
    if n <= p {
        return false;
    }
    let mut i: usize = 0;
    while i < p
        invariant
            n == name@.len(),
            p == prefix@.len(),
            p < n,
            i <= p,
            forall|j: int| 0 <= j < i ==> name@[j] == prefix@[j],
        decreases p - i,
    {
        if name.get_char(i) != prefix.get_char(i) {
            assert(name@.subrange(0, p as int)[i as int] != prefix@[i as int]);
            return false;
        }
        i = i + 1;
    }
    assert(name@.subrange(0, p as int) =~= prefix@);
    while i < n
        invariant
            n == name@.len(),
            p == prefix@.len(),
            p <= i <= n,
            name@.subrange(0, p as int) == prefix@,
            forall|j: int| p <= j < i ==> is_decimal_digit(#[trigger] name@[j]),
        decreases n - i,
    {
        let c = name.get_char(i);
        if !('0' <= c && c <= '9') {
            return false;
        }
        i = i + 1;
    }
    true
}

} // verus!

verus! {

/// Unicode `White_Space`, the set that `char::is_whitespace`, `str::trim`
/// and `str::split_whitespace` go by.
pub open spec fn is_white_space(c: char) -> bool {
    let u = c as u32;
    ||| 0x09 <= u <= 0x0d
    ||| u == 0x20
    ||| u == 0x85
    ||| u == 0xa0
    ||| u == 0x1680
    ||| 0x2000 <= u <= 0x200a
    ||| u == 0x2028
    ||| u == 0x2029
    ||| u == 0x202f
    ||| u == 0x205f
    ||| u == 0x3000
}

/// Whether `c` is Unicode white space.
pub fn white_space(c: char) -> (ws: bool)
    ensures
        ws == is_white_space(c),
{
    let u = c as u32;
    (0x09 <= u && u <= 0x0d) || u == 0x20 || u == 0x85 || u == 0xa0 || u == 0x1680
        || (0x2000 <= u && u <= 0x200a) || u == 0x2028 || u == 0x2029 || u == 0x202f
        || u == 0x205f || u == 0x3000
}

/// `s` without its leading white space.
pub open spec fn trim_start(s: Seq<char>) -> Seq<char>
    decreases s.len(),
{
    if s.len() > 0 && is_white_space(s[0]) {
        trim_start(s.drop_first())
    } else {
        s
    }
}

/// `s` without its trailing white space.
pub open spec fn trim_end(s: Seq<char>) -> Seq<char>
    decreases s.len(),
{
    if s.len() > 0 && is_white_space(s.last()) {
        trim_end(s.drop_last())
    } else {
        s
    }
}

/// `s` without leading and trailing white space, as `str::trim` returns it.
pub open spec fn trim(s: Seq<char>) -> Seq<char> {
    trim_end(trim_start(s))
}

proof fn lemma_trim_start_skip(s: Seq<char>, i: int)
    requires
        0 <= i <= s.len(),
        forall|j: int| 0 <= j < i ==> is_white_space(#[trigger] s[j]),
    ensures
        trim_start(s) == trim_start(s.skip(i)),
    decreases i,
{
    if i > 0 {
        assert(s.drop_first().skip(i - 1) =~= s.skip(i));
        lemma_trim_start_skip(s.drop_first(), i - 1);
    } else {
        assert(s.skip(0) =~= s);
    }
}

proof fn lemma_trim_end_take(s: Seq<char>, k: int)
    requires
        0 <= k <= s.len(),
        forall|j: int| k <= j < s.len() ==> is_white_space(#[trigger] s[j]),
    ensures
        trim_end(s) == trim_end(s.take(k)),
    decreases s.len() - k,
{
    if k < s.len() {
        assert(s.drop_last().take(k) =~= s.take(k));
        lemma_trim_end_take(s.drop_last(), k);
    } else {
        assert(s.take(k) =~= s);
    }
}

/// `chars` without leading and trailing white space.
pub fn trimmed(chars: &Vec<char>) -> (t: Vec<char>)
    ensures
        t@ == trim(chars@),
{
    let n = chars.len();
    let mut start: usize = 0;
    while start < n && white_space(chars[start])
        invariant
            n == chars@.len(),
            start <= n,
            forall|j: int| 0 <= j < start ==> is_white_space(#[trigger] chars@[j]),
        decreases n - start,
    {
        start = start + 1;
    }
    proof {
        lemma_trim_start_skip(chars@, start as int);
    }
    let ghost rest = chars@.skip(start as int);
    assert(trim_start(rest) == rest);
    let mut end: usize = n;
    while end > start && white_space(chars[end - 1])
        invariant
            n == chars@.len(),
            start <= end <= n,
            rest == chars@.skip(start as int),
            forall|j: int| end <= j < n ==> is_white_space(#[trigger] chars@[j]),
        decreases end,
    {
        end = end - 1;
    }
    proof {
        assert forall|j: int| end - start <= j < rest.len() implies is_white_space(#[trigger] rest[j]) by {
            assert(rest[j] == chars@[j + start]);
        }
        lemma_trim_end_take(rest, (end - start) as int);
        let kept = rest.take((end - start) as int);
        if kept.len() > 0 {
            assert(kept.last() == chars@[end - 1]);
        }
        assert(trim_end(kept) == kept);
    }
    let mut t: Vec<char> = Vec::new();
    let mut i: usize = start;
    while i < end
        invariant
            n == chars@.len(),
            start <= i <= end <= n,
            t@ == chars@.subrange(start as int, i as int),
        decreases end - i,
    {
        t.push(chars[i]);
        i = i + 1;
        assert(t@ =~= chars@.subrange(start as int, i as int));
    }
    assert(t@ =~= rest.take((end - start) as int));
    t
}

} // verus!

verus! {

/// Whether every character of `t` is an ASCII decimal digit.
pub open spec fn all_decimal_digits(t: Seq<char>) -> bool {
    forall|i: int| 0 <= i < t.len() ==> is_decimal_digit(#[trigger] t[i])
}

/// The value of a decimal digit character.
pub open spec fn decimal_digit_value(c: char) -> int {
    c as int - 48
}

/// The number that a run of decimal digits writes.
pub open spec fn decimal_value(t: Seq<char>) -> int
    decreases t.len(),
{
    if t.len() == 0 {
        0
    } else {
        decimal_value(t.drop_last()) * 10 + decimal_digit_value(t.last())
    }
}

/// What `str::parse::<i32>` gives for `t`: an optional `+` or `-`, then one
/// or more decimal digits whose value, with its sign, fits in an `i32`.
pub open spec fn parsed_i32(t: Seq<char>) -> Option<i32> {
    let signed = t.len() > 0 && (t[0] == '+' || t[0] == '-');
    let body = if signed { t.drop_first() } else { t };
    let magnitude = decimal_value(body);
    let value = if signed && t[0] == '-' { -magnitude } else { magnitude };
    if body.len() > 0 && all_decimal_digits(body) && i32::MIN <= value <= i32::MAX {
        Some(value as i32)
    } else {
        None
    }
}

/// A longer run of decimal digits never writes a smaller number.
proof fn lemma_decimal_value_grows(t: Seq<char>, k: int)
    requires
        0 <= k <= t.len(),
        all_decimal_digits(t),
    ensures
        0 <= decimal_value(t.take(k)) <= decimal_value(t),
    decreases t.len() - k,
{
    if k < t.len() {
        lemma_decimal_value_grows(t, k + 1);
        assert(t.take(k + 1).drop_last() =~= t.take(k));
        assert(is_decimal_digit(t[k]));
    } else {
        assert(t.take(k) =~= t);
        lemma_decimal_value_nonnegative(t);
    }
}

proof fn lemma_decimal_value_nonnegative(t: Seq<char>)
    requires
        all_decimal_digits(t),
    ensures
        decimal_value(t) >= 0,
    decreases t.len(),
{
    if t.len() > 0 {
        assert(all_decimal_digits(t.drop_last()));
        lemma_decimal_value_nonnegative(t.drop_last());
        assert(is_decimal_digit(t[t.len() - 1]));
    }
}

/// Parses `t` as `str::parse::<i32>` does.
pub fn parse_i32(t: &Vec<char>) -> (value: Option<i32>)
    ensures
        value == parsed_i32(t@),
{
    let n = t.len();
    let signed = n > 0 && (t[0] == '+' || t[0] == '-');
    let negative = signed && t[0] == '-';
    let start: usize = if signed { 1 } else { 0 };
    let ghost body = if signed { t@.drop_first() } else { t@ };
    assert(body =~= t@.skip(start as int));
    if start >= n {
        return None;
    }
    let mut magnitude: i64 = 0;
    let mut i: usize = start;
    while i < n
        invariant
            n == t@.len(),
            start <= i <= n,
            body == t@.skip(start as int),
            signed == (n > 0 && (t@[0] == '+' || t@[0] == '-')),
            negative == (signed && t@[0] == '-'),
            body == if signed { t@.drop_first() } else { t@ },
            all_decimal_digits(body.take(i - start)),
            magnitude == decimal_value(body.take(i - start)),
            0 <= magnitude <= 2147483648,
        decreases n - i,
    {
        let c = t[i];
        if !('0' <= c && c <= '9') {
            assert(body[i - start] == c);
            return None;
        }
        let d = (c as u32 - 48) as i64;
        proof {
            let k = i - start;
            assert(body.take(k + 1).drop_last() =~= body.take(k));
            assert(body.take(k + 1).last() == c);
        }
        magnitude = magnitude * 10 + d;
        i = i + 1;
        assert(all_decimal_digits(body.take(i - start))) by {
            let k = i - start;
            assert forall|j: int| 0 <= j < k implies is_decimal_digit(#[trigger] body.take(k)[j]) by {
                if j < k - 1 {
                    assert(body.take(k)[j] == body.take(k - 1)[j]);
                }
            }
        }
        if magnitude > 2147483648 {
            proof {
                if all_decimal_digits(body) {
                    lemma_decimal_value_grows(body, (i - start) as int);
                }
            }
            return None;
        }
    }
    assert(body.take(n - start) =~= body);
    if negative {
        Some((0 - magnitude) as i32)
    } else if magnitude <= 2147483647 {
        Some(magnitude as i32)
    } else {
        None
    }
}

/// Whether `c` is an ASCII hexadecimal digit, in either case.
pub open spec fn is_hex_digit(c: char) -> bool {
    ('0' <= c && c <= '9') || ('a' <= c && c <= 'f') || ('A' <= c && c <= 'F')
}

/// The value of a hexadecimal digit character.
pub open spec fn hex_digit_value(c: char) -> int {
    if '0' <= c && c <= '9' {
        c as int - 48
    } else if 'a' <= c && c <= 'f' {
        c as int - 87
    } else {
        c as int - 55
    }
}

/// Whether every character of `t` is a hexadecimal digit.
pub open spec fn all_hex_digits(t: Seq<char>) -> bool {
    forall|i: int| 0 <= i < t.len() ==> is_hex_digit(#[trigger] t[i])
}

/// The number that a run of hexadecimal digits writes.
pub open spec fn hex_value(t: Seq<char>) -> int
    decreases t.len(),
{
    if t.len() == 0 {
        0
    } else {
        hex_value(t.drop_last()) * 16 + hex_digit_value(t.last())
    }
}

/// What `u16::from_str_radix(t, 16)` gives: an optional `+`, then one or
/// more hexadecimal digits whose value fits in a `u16`.
pub open spec fn parsed_hex_u16(t: Seq<char>) -> Option<u16> {
    let body = if t.len() > 0 && t[0] == '+' { t.drop_first() } else { t };
    if body.len() > 0 && all_hex_digits(body) && hex_value(body) <= u16::MAX {
        Some(hex_value(body) as u16)
    } else {
        None
    }
}

proof fn lemma_hex_value_grows(t: Seq<char>, k: int)
    requires
        0 <= k <= t.len(),
        all_hex_digits(t),
    ensures
        0 <= hex_value(t.take(k)) <= hex_value(t),
    decreases t.len() - k,
{
    if k < t.len() {
        lemma_hex_value_grows(t, k + 1);
        assert(t.take(k + 1).drop_last() =~= t.take(k));
        assert(is_hex_digit(t[k]));
    } else {
        assert(t.take(k) =~= t);
        lemma_hex_value_nonnegative(t);
    }
}

proof fn lemma_hex_value_nonnegative(t: Seq<char>)
    requires
        all_hex_digits(t),
    ensures
        hex_value(t) >= 0,
    decreases t.len(),
{
    if t.len() > 0 {
        assert(all_hex_digits(t.drop_last()));
        lemma_hex_value_nonnegative(t.drop_last());
        assert(is_hex_digit(t[t.len() - 1]));
    }
}

/// Parses `t` as `u16::from_str_radix(t, 16)` does.
pub fn parse_hex_u16(t: &Vec<char>) -> (value: Option<u16>)
    ensures
        value == parsed_hex_u16(t@),
{
    let n = t.len();
    let start: usize = if n > 0 && t[0] == '+' { 1 } else { 0 };
    let ghost body = if n > 0 && t@[0] == '+' { t@.drop_first() } else { t@ };
    assert(body =~= t@.skip(start as int));
    if start >= n {
        return None;
    }
    let mut acc: u32 = 0;
    let mut i: usize = start;
    while i < n
        invariant
            n == t@.len(),
            start <= i <= n,
            body == t@.skip(start as int),
            body == if n > 0 && t@[0] == '+' { t@.drop_first() } else { t@ },
            all_hex_digits(body.take(i - start)),
            acc == hex_value(body.take(i - start)),
            acc <= 65535,
        decreases n - i,
    {
        let c = t[i];
        let d: u32 = if '0' <= c && c <= '9' {
            c as u32 - 48
        } else if 'a' <= c && c <= 'f' {
            c as u32 - 87
        } else if 'A' <= c && c <= 'F' {
            c as u32 - 55
        } else {
            assert(body[i - start] == c);
            return None;
        };
        proof {
            let k = i - start;
            assert(body.take(k + 1).drop_last() =~= body.take(k));
            assert(body.take(k + 1).last() == c);
        }
        acc = acc * 16 + d;
        i = i + 1;
        assert(all_hex_digits(body.take(i - start))) by {
            let k = i - start;
            assert forall|j: int| 0 <= j < k implies is_hex_digit(#[trigger] body.take(k)[j]) by {
                if j < k - 1 {
                    assert(body.take(k)[j] == body.take(k - 1)[j]);
                }
            }
        }
        if acc > 65535 {
            proof {
                if all_hex_digits(body) {
                    lemma_hex_value_grows(body, (i - start) as int);
                }
            }
            return None;
        }
    }
    assert(body.take(n - start) =~= body);
    Some(acc as u16)
}

} // verus!

verus! {

/// The white-space separated words of `s`, where `current` is a word already
/// begun before `s`; this is what `str::split_whitespace` yields.
pub open spec fn words_after(s: Seq<char>, current: Seq<char>) -> Seq<Seq<char>>
    decreases s.len(),
{
    if s.len() == 0 {
        if current.len() > 0 { seq![current] } else { seq![] }
    } else if is_white_space(s[0]) {
        (if current.len() > 0 { seq![current] } else { seq![] }) + words_after(s.drop_first(), seq![])
    } else {
        words_after(s.drop_first(), current.push(s[0]))
    }
}

/// The white-space separated words of `s`.
pub open spec fn words(s: Seq<char>) -> Seq<Seq<char>> {
    words_after(s, seq![])
}

/// The words that parse as `i32`, parsed, in order.
pub open spec fn i32_values(ws: Seq<Seq<char>>) -> Seq<i32>
    decreases ws.len(),
{
    if ws.len() == 0 {
        seq![]
    } else {
        match parsed_i32(ws[0]) {
            Some(v) => seq![v] + i32_values(ws.drop_first()),
            None => i32_values(ws.drop_first()),
        }
    }
}

proof fn lemma_i32_values_concat(a: Seq<Seq<char>>, b: Seq<Seq<char>>)
    ensures
        i32_values(a + b) == i32_values(a) + i32_values(b),
    decreases a.len(),
{
    if a.len() == 0 {
        assert(a + b =~= b);
        assert(i32_values(a) + i32_values(b) =~= i32_values(b));
    } else {
        assert((a + b).drop_first() =~= a.drop_first() + b);
        lemma_i32_values_concat(a.drop_first(), b);
        match parsed_i32(a[0]) {
            Some(v) => {
                assert(seq![v] + (i32_values(a.drop_first()) + i32_values(b))
                    =~= (seq![v] + i32_values(a.drop_first())) + i32_values(b));
            },
            None => {},
        }
    }
}

/// The numbers among the white-space separated words of `text`, in order.
pub fn i32_words(text: &Vec<char>) -> (values: Vec<i32>)
    ensures
        values@ == i32_values(words(text@)),
{
    let n = text.len();
    let mut values: Vec<i32> = Vec::new();
    let mut current: Vec<char> = Vec::new();
    let mut i: usize = 0;
    assert(text@.skip(0) =~= text@);
    while i < n
        invariant
            n == text@.len(),
            i <= n,
            i32_values(words(text@)) == values@ + i32_values(words_after(text@.skip(i as int), current@)),
        decreases n - i,
    {
        let c = text[i];
        let ghost s = text@.skip(i as int);
        let ghost old_values = values@;
        let ghost old_current = current@;
        assert(s.drop_first() =~= text@.skip(i + 1));
        assert(s[0] == c);
        if white_space(c) {
            let ghost flushed: Seq<Seq<char>> = if current@.len() > 0 { seq![current@] } else { seq![] };
            let ghost rest = words_after(s.drop_first(), seq![]);
            assert(words_after(s, old_current) == flushed + rest);
            proof {
                reveal_with_fuel(i32_values, 2);
                lemma_i32_values_concat(flushed, rest);
                if current@.len() > 0 {
                    assert(flushed.drop_first() =~= Seq::<Seq<char>>::empty());
                    assert(flushed[0] == old_current);
                } else {
                    assert(i32_values(flushed) =~= Seq::<i32>::empty());
                }
            }
            if current.len() > 0 {
                match parse_i32(&current) {
                    Some(v) => {
                        values.push(v);
                        assert(i32_values(flushed) =~= seq![v]);
                        assert(values@ + i32_values(rest) =~= old_values + (i32_values(flushed) + i32_values(rest)));
                    },
                    None => {
                        assert(i32_values(flushed) =~= Seq::<i32>::empty());
                        assert(values@ + i32_values(rest) =~= old_values + (i32_values(flushed) + i32_values(rest)));
                    },
                }
            } else {
                assert(values@ + i32_values(rest) =~= old_values + (i32_values(flushed) + i32_values(rest)));
            }
            current = Vec::new();
            assert(current@ =~= Seq::<char>::empty());
        } else {
            assert(words_after(s, old_current) == words_after(s.drop_first(), old_current.push(c)));
            current.push(c);
        }
        i = i + 1;
    }
    let ghost old_values = values@;
    let ghost tail: Seq<Seq<char>> = if current@.len() > 0 { seq![current@] } else { seq![] };
    proof {
        reveal_with_fuel(i32_values, 2);
        assert(text@.skip(n as int) =~= Seq::<char>::empty());
        assert(words_after(text@.skip(n as int), current@) == tail);
        if current@.len() > 0 {
            assert(tail.drop_first() =~= Seq::<Seq<char>>::empty());
            assert(tail[0] == current@);
        } else {
            assert(i32_values(tail) =~= Seq::<i32>::empty());
        }
    }
    if current.len() > 0 {
        match parse_i32(&current) {
            Some(v) => {
                values.push(v);
                assert(i32_values(tail) =~= seq![v]);
            },
            None => {
                assert(i32_values(tail) =~= Seq::<i32>::empty());
            },
        }
    }
    assert(values@ =~= old_values + i32_values(tail));
    values
}

} // verus!

verus! {

proof fn lemma_decimal_digits(n: nat)
    ensures
        decimal(n).len() >= 1,
        all_decimal_digits(decimal(n)),
        decimal_value(decimal(n)) == n,
    decreases n,
{
    if n >= 10 {
        lemma_decimal_digits(n / 10);
        let s = decimal(n / 10);
        let c = digit_char(n % 10);
        assert(decimal(n) == s.push(c));
        assert(s.push(c).drop_last() =~= s);
        assert(c as int == n % 10 + 48);
        assert(decimal_value(s.push(c)) == decimal_value(s) * 10 + decimal_digit_value(c));
        assert((n / 10) * 10 + n % 10 == n);
        assert forall|i: int| 0 <= i < s.push(c).len() implies is_decimal_digit(#[trigger] s.push(c)[i]) by {
            if i < s.len() {
                assert(s.push(c)[i] == s[i]);
            }
        }
    } else {
        let c = digit_char(n);
        assert(c as int == n + 48);
        assert(seq![c].drop_last() =~= Seq::<char>::empty());
        assert(decimal_value(seq![c]) == decimal_value(Seq::<char>::empty()) * 10 + decimal_digit_value(c));
    }
}

proof fn lemma_signed_decimal_parses(v: i32)
    ensures
        parsed_i32(signed_decimal(v as int)) == Some(v),
        signed_decimal(v as int).len() >= 1,
        forall|i: int| 0 <= i < signed_decimal(v as int).len()
            ==> !is_white_space(#[trigger] signed_decimal(v as int)[i]),
{
    let t = signed_decimal(v as int);
    if v < 0 {
        let m = (-(v as int)) as nat;
        lemma_decimal_digits(m);
        assert(t.drop_first() =~= decimal(m));
        assert(t[0] == '-');
        assert forall|i: int| 0 <= i < t.len() implies !is_white_space(#[trigger] t[i]) by {
            if i > 0 {
                assert(t[i] == decimal(m)[i - 1]);
                assert(is_decimal_digit(decimal(m)[i - 1]));
            }
        }
    } else {
        lemma_decimal_digits(v as nat);
        assert(is_decimal_digit(t[0]));
        assert forall|i: int| 0 <= i < t.len() implies !is_white_space(#[trigger] t[i]) by {
            assert(is_decimal_digit(t[i]));
        }
    }
}

proof fn lemma_words_after_plain(a: Seq<char>, rest: Seq<char>, current: Seq<char>)
    requires
        forall|i: int| 0 <= i < a.len() ==> !is_white_space(#[trigger] a[i]),
    ensures
        words_after(a + rest, current) == words_after(rest, current + a),
    decreases a.len(),
{
    if a.len() == 0 {
        assert(a + rest =~= rest);
        assert(current + a =~= current);
    } else {
        assert((a + rest)[0] == a[0]);
        assert((a + rest).drop_first() =~= a.drop_first() + rest);
        assert(current.push(a[0]) + a.drop_first() =~= current + a);
        lemma_words_after_plain(a.drop_first(), rest, current.push(a[0]));
    }
}

/// Two numbers written as `i32::to_string` writes them, separated by a
/// space, are read back by the metadata reader as those two numbers.
pub proof fn lemma_metadata_round_trip(page: i32, pages: i32)
    ensures
        ({
            let values = i32_values(words(signed_decimal(page as int) + seq![' '] + signed_decimal(pages as int)));
            values.len() == 2 && values[0] == page && values[1] == pages
        }),
{
    let a = signed_decimal(page as int);
    let b = signed_decimal(pages as int);
    lemma_signed_decimal_parses(page);
    lemma_signed_decimal_parses(pages);
    let text = a + seq![' '] + b;
    assert(text =~= a + (seq![' '] + b));
    lemma_words_after_plain(a, seq![' '] + b, seq![]);
    assert(Seq::<char>::empty() + a =~= a);
    let rest = seq![' '] + b;
    assert(rest[0] == ' ');
    assert(rest.drop_first() =~= b);
    assert(words_after(rest, a) == seq![a] + words_after(b, seq![]));
    assert(b =~= b + Seq::<char>::empty());
    lemma_words_after_plain(b, Seq::<char>::empty(), seq![]);
    assert(Seq::<char>::empty() + b =~= b);
    assert(words_after(b, seq![]) == seq![b]);
    let ws = seq![a] + seq![b];
    assert(words(text) == ws);
    assert(ws[0] == a);
    assert(ws.drop_first() =~= seq![b]);
    assert(ws.drop_first().drop_first() =~= Seq::<Seq<char>>::empty());
    reveal_with_fuel(i32_values, 3);
}


/// The digit characters are the ASCII digits, in order.
pub proof fn lemma_digit_chars()
    ensures
        digit_char(0) == '0', digit_char(1) == '1', digit_char(2) == '2', digit_char(3) == '3',
        digit_char(4) == '4', digit_char(5) == '5', digit_char(6) == '6', digit_char(7) == '7',
        digit_char(8) == '8', digit_char(9) == '9',
{
}

} // verus!
