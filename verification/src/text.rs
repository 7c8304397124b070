//! Text building blocks: numbers, escaping and lines.
use vstd::prelude::*;
use vstd::string::*;
use vstd::utf8::*;

verus! {

/// `String::push` of std appends one character.
pub assume_specification[ String::push ](s: &mut String, c: char)
    ensures
        final(s)@ == old(s)@.push(c),
;

/// The text that a reference points to, if there is one.
pub open spec fn text_of_ref(value: Option<&str>) -> Option<Seq<char>> {
    match value {
        Some(s) => Some(s@),
        None => None,
    }
}

/// What may be a text, as a sequence of characters.
pub open spec fn chars_of_option(value: Option<String>) -> Option<Seq<char>> {
    match value {
        Some(s) => Some(s@),
        None => None,
    }
}

/// The decimal digit `d`.
pub open spec fn digit(d: int) -> char {
    (48 + d) as char
}

/// `n` in decimal, without leading zeros.
pub open spec fn decimal(n: nat) -> Seq<char>
    decreases n,
{
    if n < 10 {
        seq![digit(n as int)]
    } else {
        decimal(n / 10).push(digit((n % 10) as int))
    }
}

/// `i` in decimal, with a minus sign before negative numbers.
pub open spec fn signed_decimal(i: int) -> Seq<char> {
    if i < 0 {
        seq!['-'] + decimal((-i) as nat)
    } else {
        decimal(i as nat)
    }
}

/// `s` in groups of three from the right, with commas between the groups.
pub open spec fn grouped(s: Seq<char>) -> Seq<char>
    decreases s.len(),
{
    if s.len() <= 3 {
        s
    } else {
        grouped(s.take(s.len() - 3)).push(',') + s.skip(s.len() - 3)
    }
}

/// The absolute value in 64 bits, where that of the smallest number is itself.
pub open spec fn wrapping_abs(value: i64) -> i64 {
    if value == i64::MIN {
        value
    } else if value < 0 {
        (-value) as i64
    } else {
        value
    }
}

/// `value` with thousands separators.
pub open spec fn comma_text(value: i64) -> Seq<char> {
    let body = grouped(signed_decimal(wrapping_abs(value) as int));
    if value < 0 {
        seq!['-'] + body
    } else {
        body
    }
}

fn push_decimal(out: &mut String, n: u64)
    ensures
        final(out)@ == old(out)@ + decimal(n as nat),
    decreases n,
{
    if n >= 10 {
        push_decimal(out, n / 10);
    }
    let d: u8 = (n % 10) as u8;
    out.push((48u8 + d) as char);
    proof {
        assert(out@ =~= old(out)@ + decimal(n as nat));
    }
}

/// `n` in decimal.
pub fn u64_text(n: u64) -> (text: String)
    ensures
        text@ == decimal(n as nat),
{
    let mut out = String::new();
    push_decimal(&mut out, n);
    proof {
        assert(out@ =~= decimal(n as nat));
    }
    out
}

/// `n` in decimal.
pub fn usize_text(n: usize) -> (text: String)
    ensures
        text@ == decimal(n as nat),
{
    u64_text(n as u64)
}

/// `s` filled up with zeros on the left to `width` characters.
pub open spec fn zero_filled(s: Seq<char>, width: int) -> Seq<char>
    decreases width - s.len(),
{
    if s.len() >= width {
        s
    } else {
        zero_filled(seq!['0'] + s, width)
    }
}

/// `n` in decimal, filled up with zeros on the left to `width` digits.
pub fn filled_text(n: usize, width: usize) -> (text: String)
    ensures
        text@ == zero_filled(decimal(n as nat), width as int),
{
    let digits = usize_text(n);
    let mut out = digits.clone();
    let mut len: usize = chars_of(digits.as_str()).len();
    while len < width
        invariant
            len == out@.len(),
            zero_filled(out@, width as int) == zero_filled(digits@, width as int),
        decreases width - len,
    {
        let mut longer = "0".to_owned();
        longer.append(out.as_str());
        proof {
            reveal_strlit("0");
            assert(longer@ =~= seq!['0'] + out@);
        }
        out = longer;
        len += 1;
    }
    out
}

/// Different numbers have different texts.
pub proof fn law_each_number_has_its_own_text(a: nat, b: nat)
    requires
        a != b,
    ensures
        decimal(a) != decimal(b),
    decreases a,
{
    let x = decimal(a);
    let y = decimal(b);
    if x == y {
        assert(x.last() == digit((a % 10) as int));
        assert(y.last() == digit((b % 10) as int));
        if a >= 10 && b >= 10 {
            assert(x.drop_last() =~= decimal(a / 10));
            assert(y.drop_last() =~= decimal(b / 10));
            law_each_number_has_its_own_text(a / 10, b / 10);
        } else if a >= 10 {
            assert(decimal(a / 10).len() > 0);
        } else if b >= 10 {
            assert(decimal(b / 10).len() > 0);
        }
    }
}

/// `i` in decimal, with a minus sign before negative numbers.
pub fn i64_text(i: i64) -> (text: String)
    ensures
        text@ == signed_decimal(i as int),
{
    if i < 0 {
        let mut out = String::new();
        out.push('-');
        let magnitude: u64 = if i == i64::MIN {
            0x8000_0000_0000_0000
        } else {
            (-i) as u64
        };
        push_decimal(&mut out, magnitude);
        proof {
            assert(out@ =~= signed_decimal(i as int));
        }
        out
    } else {
        u64_text(i as u64)
    }
}

/// The characters of `s`.
pub fn chars_of(s: &str) -> (chars: Vec<char>)
    ensures
        chars@ == s@,
{
    let mut chars: Vec<char> = Vec::new();
    for c in it: s.chars()
        invariant
            chars@ == s@.take(it.index() as int),
            it.seq() == s@,
    {
        chars.push(c);
        proof {
            assert(s@.take(it.index() + 1) =~= s@.take(it.index() as int).push(c));
        }
    }
    proof {
        assert(s@.take(s@.len() as int) =~= s@);
    }
    chars
}

fn push_chars(out: &mut String, chars: &Vec<char>, from: usize, to: usize)
    requires
        from <= to <= chars@.len(),
    ensures
        final(out)@ == old(out)@ + chars@.subrange(from as int, to as int),
{
    let mut i: usize = from;
    proof {
        assert(out@ =~= old(out)@ + chars@.subrange(from as int, from as int));
    }
    while i < to
        invariant
            from <= i <= to <= chars@.len(),
            out@ == old(out)@ + chars@.subrange(from as int, i as int),
        decreases to - i,
    {
        out.push(chars[i]);
        i += 1;
        proof {
            assert(out@ =~= old(out)@ + chars@.subrange(from as int, i as int));
        }
    }
}

/// The text of the characters from `from` up to `to`.
pub fn text_of(chars: &Vec<char>, from: usize, to: usize) -> (text: String)
    requires
        from <= to <= chars@.len(),
    ensures
        text@ == chars@.subrange(from as int, to as int),
{
    let mut out = String::new();
    push_chars(&mut out, chars, from, to);
    proof {
        assert(out@ =~= chars@.subrange(from as int, to as int));
    }
    out
}

fn push_grouped(out: &mut String, chars: &Vec<char>, end: usize)
    requires
        end <= chars@.len(),
    ensures
        final(out)@ == old(out)@ + grouped(chars@.take(end as int)),
    decreases end,
{
    let ghost all = chars@.take(end as int);
    if end <= 3 {
        push_chars(out, chars, 0, end);
        proof {
            assert(chars@.subrange(0, end as int) =~= all);
        }
    } else {
        push_grouped(out, chars, end - 3);
        out.push(',');
        push_chars(out, chars, end - 3, end);
        proof {
            assert(all.take(all.len() - 3) =~= chars@.take(end - 3));
            assert(all.skip(all.len() - 3) =~= chars@.subrange(end - 3, end as int));
            assert(out@ =~= old(out)@ + grouped(all));
        }
    }
}

/// `value` with thousands separators.
///
/// The magnitude is taken in 64 bits, so the smallest number keeps its own sign beside the one
/// that is put before every negative number.
pub fn comma_int(value: i64) -> (text: String)
    ensures
        text@ == comma_text(value),
{
    let magnitude: i64 = if value == i64::MIN {
        value
    } else if value < 0 {
        -value
    } else {
        value
    };
    let digits_text = i64_text(magnitude);
    let digits = chars_of(digits_text.as_str());
    let mut out = String::new();
    if value < 0 {
        out.push('-');
    }
    push_grouped(&mut out, &digits, digits.len());
    proof {
        assert(digits@.take(digits@.len() as int) =~= digits@);
        assert(out@ =~= comma_text(value));
    }
    out
}

/// `value` with thousands separators.
pub fn full_tokens(value: i64) -> (text: String)
    ensures
        text@ == comma_text(value),
{
    comma_int(value)
}

/// The scale in which a token count is shown.
#[derive(Clone, Copy, Debug, PartialEq, Eq, Structural)]
pub enum TokenScale {
    Billions,
    Millions,
    Plain,
}

/// The scale for `value`: from a billion up in billions, from a million up in millions.
pub open spec fn scale_of(value: i64) -> TokenScale {
    if wrapping_abs(value) >= 1_000_000_000 {
        TokenScale::Billions
    } else if wrapping_abs(value) >= 1_000_000 {
        TokenScale::Millions
    } else {
        TokenScale::Plain
    }
}

/// The scale for `value`.
pub fn token_scale(value: i64) -> (scale: TokenScale)
    ensures
        scale == scale_of(value),
{
    let magnitude: i64 = if value == i64::MIN {
        value
    } else if value < 0 {
        -value
    } else {
        value
    };
    if magnitude >= 1_000_000_000 {
        TokenScale::Billions
    } else if magnitude >= 1_000_000 {
        TokenScale::Millions
    } else {
        TokenScale::Plain
    }
}

/// A token count in short form. `scaled` is the count in its scale (see [`token_scale`]) as a
/// decimal fraction.
pub open spec fn compact_text(value: i64, scaled: Seq<char>) -> Seq<char> {
    match scale_of(value) {
        TokenScale::Billions => scaled.push('B'),
        TokenScale::Millions => scaled.push('M'),
        TokenScale::Plain => comma_text(value),
    }
}

/// A token count in short form. `scaled` is the count in its scale (see [`token_scale`]) as a
/// decimal fraction; a plain count does not use it.
pub fn compact_tokens(value: i64, scaled: &str) -> (text: String)
    ensures
        text@ == compact_text(value, scaled@),
{
    match token_scale(value) {
        TokenScale::Billions => {
            let mut out = scaled.to_owned();
            out.push('B');
            out
        },
        TokenScale::Millions => {
            let mut out = scaled.to_owned();
            out.push('M');
            out
        },
        TokenScale::Plain => comma_int(value),
    }
}

/// What stands for `c` in HTML text and attributes.
pub open spec fn html_entity(c: char) -> Seq<char> {
    if c == '&' {
        "&amp;"@
    } else if c == '<' {
        "&lt;"@
    } else if c == '>' {
        "&gt;"@
    } else if c == '"' {
        "&quot;"@
    } else {
        seq![c]
    }
}

/// `s` with each character replaced by what stands for it in HTML.
pub open spec fn html_escaped(s: Seq<char>) -> Seq<char>
    decreases s.len(),
{
    if s.len() == 0 {
        Seq::empty()
    } else {
        html_escaped(s.drop_last()) + html_entity(s.last())
    }
}

/// `value` for use in HTML text and attributes.
pub fn html_escape(value: &str) -> (text: String)
    ensures
        text@ == html_escaped(value@),
{
    let mut out = String::new();
    for c in it: value.chars()
        invariant
            out@ == html_escaped(value@.take(it.index() as int)),
            it.seq() == value@,
    {
        let ghost before = out@;
        if c == '&' {
            out.append("&amp;");
        } else if c == '<' {
            out.append("&lt;");
        } else if c == '>' {
            out.append("&gt;");
        } else if c == '"' {
            out.append("&quot;");
        } else {
            out.push(c);
        }
        proof {
            assert(out@ =~= before + html_entity(c));
            assert(value@.take(it.index() + 1).drop_last() =~= value@.take(it.index() as int));
        }
    }
    proof {
        assert(value@.take(value@.len() as int) =~= value@);
    }
    out
}

/// Escaped text holds no markup: no angle bracket and no quotation mark.
pub proof fn law_escaped_text_holds_no_markup(s: Seq<char>)
    ensures
        !html_escaped(s).contains('<'),
        !html_escaped(s).contains('>'),
        !html_escaped(s).contains('"'),
    decreases s.len(),
{
    if s.len() > 0 {
        law_escaped_text_holds_no_markup(s.drop_last());
        reveal_strlit("&amp;");
        reveal_strlit("&lt;");
        reveal_strlit("&gt;");
        reveal_strlit("&quot;");
        let head = html_escaped(s.drop_last());
        let tail = html_entity(s.last());
        let all = head + tail;
        assert forall|i: int| 0 <= i < all.len() implies all[i] != '<' && all[i] != '>' && all[i]
            != '"' by {
            if i < head.len() {
                assert(head.contains(head[i]));
            } else {
                assert(all[i] == tail[i - head.len()]);
            }
        }
    }
}

/// Text without special characters is its own escaped form.
pub proof fn law_plain_text_is_not_changed(s: Seq<char>)
    requires
        !s.contains('&'),
        !s.contains('<'),
        !s.contains('>'),
        !s.contains('"'),
    ensures
        html_escaped(s) == s,
    decreases s.len(),
{
    if s.len() > 0 {
        let head = s.drop_last();
        assert forall|c: char| head.contains(c) implies s.contains(c) by {
            let i = choose|i: int| 0 <= i < head.len() && head[i] == c;
            assert(s[i] == c);
        }
        assert(s.contains(s.last()));
        law_plain_text_is_not_changed(head);
        assert(html_escaped(s) =~= s);
    }
}

/// `s` with every percent sign doubled.
pub open spec fn percents_doubled(s: Seq<char>) -> Seq<char>
    decreases s.len(),
{
    if s.len() == 0 {
        Seq::empty()
    } else if s.last() == '%' {
        percents_doubled(s.drop_last()) + seq!['%', '%']
    } else {
        percents_doubled(s.drop_last()).push(s.last())
    }
}

/// `value` for a program that reads `%` as the start of an escape.
pub fn double_percents(value: &str) -> (text: String)
    ensures
        text@ == percents_doubled(value@),
{
    let mut out = String::new();
    for c in it: value.chars()
        invariant
            out@ == percents_doubled(value@.take(it.index() as int)),
            it.seq() == value@,
    {
        let ghost before = out@;
        out.push(c);
        if c == '%' {
            out.push('%');
        }
        proof {
            if c == '%' {
                assert(out@ =~= before + seq!['%', '%']);
            }
            assert(value@.take(it.index() + 1).drop_last() =~= value@.take(it.index() as int));
        }
    }
    proof {
        assert(value@.take(value@.len() as int) =~= value@);
    }
    out
}

/// `s` without NUL characters.
pub open spec fn nuls_dropped(s: Seq<char>) -> Seq<char> {
    s.filter(|c: char| c != '\0')
}

/// `value` without NUL characters, as C strings need it.
pub fn without_nul(value: &str) -> (text: String)
    ensures
        text@ == nuls_dropped(value@),
        text@ == value@.filter(|c: char| c != '\0'),
        !text@.contains('\0'),
{
    let mut out = String::new();
    let ghost keep = |c: char| c != '\0';
    for c in it: value.chars()
        invariant
            keep == (|c: char| c != '\0'),
            out@ == value@.take(it.index() as int).filter(keep),
            it.seq() == value@,
    {
        if c != '\0' {
            out.push(c);
        }
        proof {
            reveal(Seq::filter);
            assert(value@.take(it.index() + 1).drop_last() =~= value@.take(it.index() as int));
        }
    }
    proof {
        assert(value@.take(value@.len() as int) =~= value@);
        assert forall|i: int| 0 <= i < out@.len() implies out@[i] != '\0' by {
            value@.lemma_filter_pred(keep, i);
        }
    }
    out
}

/// Whether two texts are the same.
pub fn same_text(a: &str, b: &str) -> (r: bool)
    ensures
        r == (a@ == b@),
{
    a.to_owned() == b.to_owned()
}

/// Whether `c` is a decimal digit.
pub open spec fn is_digit(c: char) -> bool {
    '0' <= c && c <= '9'
}

/// The number that a run of digits stands for, or nothing if there is another character.
pub open spec fn digits_value(s: Seq<char>) -> Option<nat>
    decreases s.len(),
{
    if s.len() == 0 {
        Some(0)
    } else if !is_digit(s.last()) {
        None
    } else {
        match digits_value(s.drop_last()) {
            Some(v) => Some((v * 10 + (s.last() as int - '0' as int)) as nat),
            None => None,
        }
    }
}

/// The number that `s` stands for: an optional sign and at least one digit, in the range of
/// `i64`.
pub open spec fn integer_value(s: Seq<char>) -> Option<i64> {
    let signed = s.len() > 0 && (s[0] == '-' || s[0] == '+');
    let digits = if signed {
        s.skip(1)
    } else {
        s
    };
    match digits_value(digits) {
        Some(v) => {
            let value: int = if signed && s[0] == '-' {
                -v
            } else {
                v as int
            };
            if digits.len() > 0 && i64::MIN <= value <= i64::MAX {
                Some(value as i64)
            } else {
                None
            }
        },
        None => None,
    }
}

proof fn lemma_digits_prefix(s: Seq<char>, n: int)
    requires
        0 <= n <= s.len(),
    ensures
        digits_value(s.take(n)) is None ==> digits_value(s) is None,
        (digits_value(s) is Some && digits_value(s.take(n)) is Some) ==> digits_value(s)->0
            >= digits_value(s.take(n))->0,
    decreases s.len() - n,
{
    if n < s.len() {
        lemma_digits_prefix(s, n + 1);
        assert(s.take(n + 1).drop_last() =~= s.take(n));
    } else {
        assert(s.take(n) =~= s);
    }
}

/// The number that the characters from `from` up to `to` stand for.
pub fn parse_integer(chars: &Vec<char>, from: usize, to: usize) -> (value: Option<i64>)
    requires
        from <= to <= chars@.len(),
    ensures
        value == integer_value(chars@.subrange(from as int, to as int)),
{
    let ghost s = chars@.subrange(from as int, to as int);
    let negative = from < to && chars[from] == '-';
    let signed = negative || (from < to && chars[from] == '+');
    let start: usize = if signed {
        from + 1
    } else {
        from
    };
    let ghost digits = if signed {
        s.skip(1)
    } else {
        s
    };
    proof {
        assert(digits =~= chars@.subrange(start as int, to as int));
        if from < to {
            assert(s[0] == chars@[from as int]);
        }
    }
    if start == to {
        return None;
    }
    let limit: u64 = 0x8000_0000_0000_0000;
    let mut acc: u64 = 0;
    let mut i: usize = start;
    proof {
        assert(digits.take(0) =~= Seq::empty());
    }
    while i < to
        invariant
            from <= start <= i <= to <= chars@.len(),
            digits == chars@.subrange(start as int, to as int),
            limit == 0x8000_0000_0000_0000,
            acc <= limit,
            digits_value(digits.take(i - start)) == Some(acc as nat),
            s == chars@.subrange(from as int, to as int),
            signed == (s.len() > 0 && (s[0] == '-' || s[0] == '+')),
            negative == (s.len() > 0 && s[0] == '-'),
            digits == (if signed {
                s.skip(1)
            } else {
                s
            }),
            start < to,
        decreases to - i,
    {
        let c = chars[i];
        let ghost prefix = digits.take(i - start + 1);
        proof {
            assert(prefix.drop_last() =~= digits.take(i - start));
            assert(prefix.last() == c);
            lemma_digits_prefix(digits, i - start + 1);
        }
        if c < '0' || c > '9' {
            return None;
        }
        let d: u64 = (c as u32 - 48u32) as u64;
        if acc > (limit - d) / 10 {
            proof {
                assert(acc * 10 + d > limit);
            }
            return None;
        }
        acc = acc * 10 + d;
        i += 1;
    }
    proof {
        assert(digits.take(to - start) =~= digits);
    }
    if negative {
        if acc == limit {
            Some(i64::MIN)
        } else {
            Some(-(acc as i64))
        }
    } else if acc == limit {
        None
    } else {
        Some(acc as i64)
    }
}

/// The index of the first `c` in `s`, or the length of `s` where there is none.
pub open spec fn first_index(s: Seq<char>, c: char) -> int
    decreases s.len(),
{
    if s.len() == 0 {
        0
    } else if s[0] == c {
        0
    } else {
        1 + first_index(s.skip(1), c)
    }
}

pub proof fn lemma_first_index(s: Seq<char>, c: char, i: int)
    requires
        0 <= i <= s.len(),
        forall|j: int| 0 <= j < i ==> s[j] != c,
        i < s.len() ==> s[i] == c,
    ensures
        first_index(s, c) == i,
    decreases s.len(),
{
    if i > 0 {
        assert(s[0] != c);
        assert forall|j: int| 0 <= j < i - 1 implies s.skip(1)[j] != c by {
            assert(s.skip(1)[j] == s[j + 1]);
        }
        lemma_first_index(s.skip(1), c, i - 1);
    }
}

/// A decimal fraction with thousands separators in its whole part. `rounded` is the fraction
/// as text; `whole` is used where that text has no decimal point.
pub open spec fn comma_decimal_text(rounded: Seq<char>, whole: i64) -> Seq<char> {
    let point = first_index(rounded, '.');
    if point == rounded.len() {
        comma_text(whole)
    } else {
        let value = match integer_value(rounded.take(point)) {
            Some(v) => v,
            None => 0,
        };
        comma_text(value).push('.') + rounded.skip(point + 1)
    }
}

/// A decimal fraction with thousands separators in its whole part. `rounded` is the fraction
/// as text; `whole`, the fraction as a whole number, is used where that text has no decimal
/// point.
pub fn comma_decimal(rounded: &str, whole: i64) -> (text: String)
    ensures
        text@ == comma_decimal_text(rounded@, whole),
{
    let chars = chars_of(rounded);
    let mut point: usize = 0;
    while point < chars.len() && chars[point] != '.'
        invariant
            point <= chars@.len(),
            forall|j: int| 0 <= j < point ==> chars@[j] != '.',
        decreases chars@.len() - point,
    {
        point += 1;
    }
    proof {
        lemma_first_index(chars@, '.', point as int);
    }
    if point == chars.len() {
        return comma_int(whole);
    }
    let value = match parse_integer(&chars, 0, point) {
        Some(v) => v,
        None => 0,
    };
    let mut out = comma_int(value);
    out.push('.');
    push_chars(&mut out, &chars, point + 1, chars.len());
    proof {
        assert(chars@.subrange(0, point as int) =~= chars@.take(point as int));
        assert(chars@.subrange(point + 1, chars@.len() as int) =~= chars@.skip(point + 1));
    }
    out
}

/// A line without the carriage return that ends it.
pub open spec fn without_return(s: Seq<char>) -> Seq<char> {
    if s.len() > 0 && s.last() == '\r' {
        s.drop_last()
    } else {
        s
    }
}

/// The lines of `s`. A line ends with a line feed, or with a carriage return and a line feed;
/// the end of the last line is optional.
pub open spec fn lines_of(s: Seq<char>) -> Seq<Seq<char>>
    decreases s.len(),
{
    let end = first_index(s, '\n');
    if s.len() == 0 {
        Seq::empty()
    } else if 0 <= end < s.len() {
        seq![without_return(s.take(end))] + lines_of(s.skip(end + 1))
    } else {
        seq![s]
    }
}

/// The lines of `content`.
pub fn split_lines(content: &str) -> (lines: Vec<String>)
    ensures
        lines@.map_values(|line: String| line@) == lines_of(content@),
        lines@.len() <= content@.len(),
{
    let chars = chars_of(content);
    let mut lines: Vec<String> = Vec::new();
    let ghost texts = |line: String| line@;
    let mut start: usize = 0;
    let mut i: usize = 0;
    proof {
        assert(chars@.skip(0) =~= chars@);
        assert(lines@.map_values(texts) + lines_of(chars@) =~= lines_of(chars@));
    }
    while i < chars.len()
        invariant
            chars@ == content@,
            start <= i <= chars@.len(),
            lines@.len() <= start,
            texts == (|line: String| line@),
            forall|j: int| start <= j < i ==> chars@[j] != '\n',
            lines@.map_values(texts) + lines_of(chars@.skip(start as int)) == lines_of(chars@),
        decreases chars@.len() - i,
    {
        if chars[i] == '\n' {
            let end: usize = if i > start && chars[i - 1] == '\r' {
                i - 1
            } else {
                i
            };
            let ghost rest = chars@.skip(start as int);
            let ghost before = lines@;
            proof {
                assert forall|j: int| 0 <= j < i - start implies rest[j] != '\n' by {
                    assert(rest[j] == chars@[start + j]);
                }
                lemma_first_index(rest, '\n', i - start);
                let line = rest.take(i - start);
                if i > start {
                    assert(line.last() == chars@[i - 1]);
                }
                assert(without_return(line) =~= chars@.subrange(start as int, end as int));
                assert(rest.skip(i - start + 1) =~= chars@.skip(i + 1));
            }
            lines.push(text_of(&chars, start, end));
            start = i + 1;
            proof {
                assert(lines@.map_values(texts) =~= before.map_values(texts).push(lines@.last()@));
                assert(lines@.map_values(texts) + lines_of(chars@.skip(start as int)) =~= before.map_values(texts) + lines_of(rest));
            }
        }
        i += 1;
    }
    if start < chars.len() {
        let ghost rest = chars@.skip(start as int);
        let ghost before = lines@;
        lines.push(text_of(&chars, start, chars.len()));
        proof {
            assert forall|j: int| 0 <= j < rest.len() implies rest[j] != '\n' by {
                assert(rest[j] == chars@[start + j]);
            }
            lemma_first_index(rest, '\n', rest.len() as int);
            assert(chars@.subrange(start as int, chars@.len() as int) =~= rest);
            assert(lines@.map_values(texts) =~= before.map_values(texts).push(rest));
            assert(lines@.map_values(texts) =~= before.map_values(texts) + lines_of(rest));
        }
    } else {
        proof {
            assert(lines@.map_values(texts) + lines_of(chars@.skip(start as int)) =~= lines@.map_values(texts));
        }
    }
    lines
}

/// `s` cut after `max` bytes for a log line, with an ellipsis where something was cut.
pub fn truncate_for_log(s: &str, max: usize) -> (text: String)
    requires
        s.spec_bytes().len() <= max || is_char_boundary(s.spec_bytes(), max as int),
    ensures
        s.spec_bytes().len() <= max ==> text@ == s@,
        s.spec_bytes().len() > max ==> exists|kept: Seq<char>|
            #[trigger] encode_utf8(kept) == s.spec_bytes().take(max as int) && text@ == kept
                + "…"@,
{
    if s.as_bytes().len() <= max {
        s.to_owned()
    } else {
        let (head, tail) = s.split_at(max);
        let mut out = head.to_owned();
        out.append("…");
        proof {
            assert(s.spec_bytes().subrange(0, max as int) =~= s.spec_bytes().take(max as int));
            assert(encode_utf8(head@) == s.spec_bytes().take(max as int));
        }
        out
    }
}

/// Whether `c` is white space in Unicode.
pub open spec fn is_white_space(c: char) -> bool {
    let code = c as u32;
    ||| 9 <= code <= 13
    ||| code == 0x20
    ||| code == 0x85
    ||| code == 0xA0
    ||| code == 0x1680
    ||| 0x2000 <= code <= 0x200A
    ||| code == 0x2028
    ||| code == 0x2029
    ||| code == 0x202F
    ||| code == 0x205F
    ||| code == 0x3000
}

/// Whether `s` holds nothing but white space.
pub open spec fn is_blank_text(s: Seq<char>) -> bool {
    forall|i: int| 0 <= i < s.len() ==> is_white_space(#[trigger] s[i])
}

fn white_space(c: char) -> (r: bool)
    ensures
        r == is_white_space(c),
{
    let code = c as u32;
    (9 <= code && code <= 13) || code == 0x20 || code == 0x85 || code == 0xA0 || code == 0x1680 || (
    0x2000 <= code && code <= 0x200A) || code == 0x2028 || code == 0x2029 || code == 0x202F || code
        == 0x205F || code == 0x3000
}

/// Whether `s` holds nothing but white space.
pub fn is_blank(s: &str) -> (r: bool)
    ensures
        r == is_blank_text(s@),
{
    let chars = chars_of(s);
    let mut i: usize = 0;
    while i < chars.len()
        invariant
            chars@ == s@,
            i <= chars@.len(),
            forall|j: int| 0 <= j < i ==> is_white_space(#[trigger] chars@[j]),
        decreases chars@.len() - i,
    {
        if !white_space(chars[i]) {
            return false;
        }
        i += 1;
    }
    true
}

/// Where white space at the start of a text ends.
pub open spec fn content_start(s: Seq<char>) -> int
    decreases s.len(),
{
    if s.len() > 0 && is_white_space(s[0]) {
        1 + content_start(s.skip(1))
    } else {
        0
    }
}

/// Where white space at the end of a text starts.
pub open spec fn content_end(s: Seq<char>) -> int
    decreases s.len(),
{
    if s.len() > 0 && is_white_space(s.last()) {
        content_end(s.drop_last())
    } else {
        s.len() as int
    }
}

/// A text without white space at its ends.
pub open spec fn trimmed(s: Seq<char>) -> Seq<char> {
    let rest = s.skip(content_start(s));
    rest.take(content_end(rest))
}

proof fn lemma_content_start(s: Seq<char>, n: int)
    requires
        0 <= n <= s.len(),
        forall|i: int| 0 <= i < n ==> is_white_space(#[trigger] s[i]),
        n < s.len() ==> !is_white_space(s[n]),
    ensures
        content_start(s) == n,
    decreases s.len(),
{
    if n > 0 {
        assert(is_white_space(s[0]));
        let rest = s.skip(1);
        assert forall|i: int| 0 <= i < n - 1 implies is_white_space(#[trigger] rest[i]) by {
            assert(rest[i] == s[i + 1]);
        }
        lemma_content_start(rest, n - 1);
    }
}

proof fn lemma_content_end(s: Seq<char>, n: int)
    requires
        0 <= n <= s.len(),
        forall|i: int| n <= i < s.len() ==> is_white_space(#[trigger] s[i]),
        n > 0 ==> !is_white_space(s[n - 1]),
    ensures
        content_end(s) == n,
    decreases s.len(),
{
    if n < s.len() {
        assert(is_white_space(s[s.len() - 1]));
        let rest = s.drop_last();
        assert forall|i: int| n <= i < rest.len() implies is_white_space(#[trigger] rest[i]) by {
            assert(rest[i] == s[i]);
        }
        lemma_content_end(rest, n);
    }
}

/// The integer in a text, with white space around it or not, where it fits in 32 bits.
pub open spec fn small_integer_value(s: Seq<char>) -> Option<i32> {
    match integer_value(trimmed(s)) {
        Some(v) => if i32::MIN <= v <= i32::MAX {
            Some(v as i32)
        } else {
            None
        },
        None => None,
    }
}

/// The integer in a text, with white space around it or not, where it fits in 32 bits.
pub fn parse_small_integer(content: &str) -> (value: Option<i32>)
    ensures
        value == small_integer_value(content@),
{
    let chars = chars_of(content);
    let mut from: usize = 0;
    while from < chars.len() && white_space(chars[from])
        invariant
            from <= chars@.len(),
            forall|i: int| 0 <= i < from ==> is_white_space(#[trigger] chars@[i]),
        decreases chars@.len() - from,
    {
        from += 1;
    }
    let mut to: usize = chars.len();
    while to > from && white_space(chars[to - 1])
        invariant
            from <= to <= chars@.len(),
            forall|i: int| to <= i < chars@.len() ==> is_white_space(#[trigger] chars@[i]),
        decreases to,
    {
        to -= 1;
    }
    proof {
        lemma_content_start(chars@, from as int);
        let rest = chars@.skip(from as int);
        assert forall|i: int| to - from <= i < rest.len() implies is_white_space(
            #[trigger] rest[i],
        ) by {
            assert(rest[i] == chars@[i + from]);
        }
        lemma_content_end(rest, to - from);
        assert(trimmed(chars@) =~= chars@.subrange(from as int, to as int));
    }
    match parse_integer(&chars, from, to) {
        Some(v) => if -2147483648 <= v && v <= 2147483647 {
            Some(v as i32)
        } else {
            None
        },
        None => None,
    }
}

/// Whether `part` stands in `s` at `i`.
pub open spec fn occurs_at(s: Seq<char>, part: Seq<char>, i: int) -> bool {
    0 <= i <= s.len() - part.len() && s.subrange(i, i + part.len()) == part
}

/// Whether `part` stands anywhere in `s`.
pub open spec fn contains_text(s: Seq<char>, part: Seq<char>) -> bool {
    exists|i: int| occurs_at(s, part, i)
}

/// Whether `part` stands anywhere in `s`.
pub fn has_part(s: &str, part: &str) -> (r: bool)
    ensures
        r == contains_text(s@, part@),
{
    let chars = chars_of(s);
    let wanted = chars_of(part);
    if wanted.len() > chars.len() {
        return false;
    }
    let mut i: usize = 0;
    while i <= chars.len() - wanted.len()
        invariant
            chars@ == s@,
            wanted@ == part@,
            wanted@.len() <= chars@.len(),
            i <= chars@.len() - wanted@.len() + 1,
            forall|k: int| 0 <= k < i ==> !occurs_at(s@, part@, k),
        decreases chars@.len() - i,
    {
        let mut j: usize = 0;
        while j < wanted.len() && chars[i + j] == wanted[j]
            invariant
                chars@ == s@,
                wanted@ == part@,
                i + wanted@.len() <= chars@.len() <= usize::MAX,
                j <= wanted@.len(),
                forall|k: int| 0 <= k < j ==> chars@[i + k] == wanted@[k],
            decreases wanted@.len() - j,
        {
            j += 1;
        }
        if j == wanted.len() {
            proof {
                assert(s@.subrange(i as int, i + part@.len()) =~= part@);
                assert(occurs_at(s@, part@, i as int));
            }
            return true;
        }
        proof {
            assert(s@.subrange(i as int, i + part@.len())[j as int] == chars@[i + j]);
        }
        if i == chars.len() - wanted.len() {
            return false;
        }
        i += 1;
    }
    false
}

/// A number is written in decimal digits that read back as it, without needless zeros before them.
pub proof fn law_numbers_read_back(n: nat)
    ensures
        digits_value(decimal(n)) == Some(n),
        decimal(n).len() >= 1,
        n > 0 ==> decimal(n)[0] != '0',
        forall|i: int| 0 <= i < decimal(n).len() ==> '0' <= #[trigger] decimal(n)[i] <= '9',
    decreases n,
{
    let s = decimal(n);
    if n >= 10 {
        law_numbers_read_back(n / 10);
        let head = decimal(n / 10);
        assert(s.drop_last() =~= head);
        assert forall|i: int| 0 <= i < s.len() implies '0' <= #[trigger] s[i] <= '9' by {
            if i < head.len() {
                assert(s[i] == head[i]);
            }
        }
        assert(s[0] == head[0]);
        assert(s.last() == digit((n % 10) as int));
    } else {
        assert(s.drop_last() =~= Seq::empty());
        assert(digits_value(s.drop_last()) == Some(0nat));
        assert(s.last() == digit(n as int));
    }
}

/// An integer reads back from its text: with a minus sign where it is negative, and also with a plus
/// sign where it is not. What does not fit in 64 bits is no integer.
pub proof fn law_integers_read_back(n: nat)
    ensures
        n <= i64::MAX ==> integer_value(decimal(n)) == Some(n as i64),
        n <= i64::MAX ==> integer_value(seq!['+'] + decimal(n)) == Some(n as i64),
        n <= i64::MAX + 1 ==> integer_value(seq!['-'] + decimal(n)) == Some((-n) as i64),
        n > i64::MAX ==> integer_value(decimal(n)) is None,
        n > i64::MAX ==> integer_value(seq!['+'] + decimal(n)) is None,
        n > i64::MAX + 1 ==> integer_value(seq!['-'] + decimal(n)) is None,
{
    law_numbers_read_back(n);
    assert('0' <= decimal(n)[0] <= '9');
    assert((seq!['+'] + decimal(n)).skip(1) =~= decimal(n));
    assert((seq!['-'] + decimal(n)).skip(1) =~= decimal(n));
}

/// A text with anything but digits in it, save for a sign before them, is no integer, and neither is
/// a sign alone or an empty text.
pub proof fn law_other_texts_are_no_integers(s: Seq<char>, i: int)
    ensures
        s.len() == 0 ==> integer_value(s) is None,
        s.len() == 1 && !('0' <= s[0] <= '9') ==> integer_value(s) is None,
        0 <= i < s.len() && !('0' <= s[i] <= '9') && (i > 0 || (s[i] != '+' && s[i] != '-'))
            ==> integer_value(s) is None,
{
    let signed = s.len() > 0 && (s[0] == '-' || s[0] == '+');
    let digits = if signed {
        s.skip(1)
    } else {
        s
    };
    let k = if signed {
        i - 1
    } else {
        i
    };
    if 0 <= i < s.len() && !('0' <= s[i] <= '9') && (i > 0 || !signed) {
        assert(digits[k] == s[i]);
        lemma_no_digits(digits, k);
    }
    if s.len() == 1 && !signed && !('0' <= s[0] <= '9') {
        lemma_no_digits(s, 0);
    }
}

proof fn lemma_no_digits(s: Seq<char>, i: int)
    requires
        0 <= i < s.len(),
        !('0' <= s[i] <= '9'),
    ensures
        digits_value(s) is None,
{
    assert(s.take(i + 1).last() == s[i]);
    lemma_digits_prefix(s, i + 1);
}

/// Each fourth character from the right of a number with separators is a comma, and no other; the
/// rest are the digits of the number.
#[verifier::rlimit(30)]
pub proof fn law_commas_stand_between_thousands(s: Seq<char>, i: int)
    requires
        !s.contains(','),
        0 <= i < grouped(s).len(),
    ensures
        grouped(s)[grouped(s).len() - 1 - i] == ',' <==> i % 4 == 3,
        i % 4 != 3 ==> i - i / 4 < s.len() && grouped(s)[grouped(s).len() - 1 - i] == s[s.len() - 1
            - (i - i / 4)],
        s.len() > 0 ==> grouped(s).len() == s.len() + (s.len() - 1) / 3,
    decreases s.len(),
{
    if s.len() > 3 {
        let front = s.take(s.len() - 3);
        let back = s.skip(s.len() - 3);
        let g = grouped(front);
        let all = grouped(s);
        assert(all =~= g.push(',') + back);
        assert(!front.contains(',')) by {
            if front.contains(',') {
                let k = choose|k: int| 0 <= k < front.len() && front[k] == ',';
                assert(s[k] == ',');
            }
        }
        lemma_grouped_is_filled(front);
        law_commas_stand_between_thousands(front, 0);
        if i < 3 {
            assert(all[all.len() - 1 - i] == back[2 - i]);
            assert(back[2 - i] == s[s.len() - 1 - i]);
            assert(s.contains(s[s.len() - 1 - i]));
        } else if i == 3 {
            assert(all[all.len() - 4] == ',');
        } else {
            law_commas_stand_between_thousands(front, i - 4);
            assert(all[all.len() - 1 - i] == g[g.len() - 1 - (i - 4)]);
        }
    } else {
        assert(s.contains(s[s.len() - 1 - i]));
    }
}

proof fn lemma_grouped_is_filled(s: Seq<char>)
    requires
        s.len() > 0,
    ensures
        grouped(s).len() > 0,
    decreases s.len(),
{
}

/// A count with separators is the text of its magnitude in groups, with a minus sign before it where
/// it is negative.
pub proof fn law_counts_are_shown_in_groups(value: i64)
    requires
        value > i64::MIN,
    ensures
        value >= 0 ==> comma_text(value) == grouped(decimal(value as nat)),
        value < 0 ==> comma_text(value) == seq!['-'] + grouped(decimal((-value) as nat)),
{
}

/// A count is shown in billions from a billion up, in millions from a million up, and else in full,
/// whatever its sign.
pub proof fn law_large_counts_are_shown_short(value: i64, scaled: Seq<char>)
    requires
        value > i64::MIN,
    ensures
        value >= 1_000_000_000 || value <= -1_000_000_000 ==> compact_text(value, scaled) == scaled
            + seq!['B'],
        1_000_000 <= value < 1_000_000_000 || -1_000_000_000 < value <= -1_000_000 ==> compact_text(
            value,
            scaled,
        ) == scaled + seq!['M'],
        -1_000_000 < value < 1_000_000 ==> compact_text(value, scaled) == comma_text(value),
{
    assert(scaled.push('B') =~= scaled + seq!['B']);
    assert(scaled.push('M') =~= scaled + seq!['M']);
}

/// Text is escaped character by character: that of two texts is that of both, one after the other,
/// and only the characters with a meaning in markup are replaced, each by its own name.
pub proof fn law_text_is_escaped_character_by_character(a: Seq<char>, b: Seq<char>, c: char)
    ensures
        html_escaped(a + b) == html_escaped(a) + html_escaped(b),
        html_escaped(seq!['&']) == "&amp;"@,
        html_escaped(seq!['<']) == "&lt;"@,
        html_escaped(seq!['>']) == "&gt;"@,
        html_escaped(seq!['"']) == "&quot;"@,
        c != '&' && c != '<' && c != '>' && c != '"' ==> html_escaped(seq![c]) == seq![c],
    decreases b.len(),
{
    lemma_escaped_char('&');
    lemma_escaped_char('<');
    lemma_escaped_char('>');
    lemma_escaped_char('"');
    lemma_escaped_char(c);
    if b.len() > 0 {
        law_text_is_escaped_character_by_character(a, b.drop_last(), c);
        assert((a + b).drop_last() =~= a + b.drop_last());
        assert(html_escaped(a + b) =~= html_escaped(a) + html_escaped(b));
    } else {
        assert(a + b =~= a);
        assert(html_escaped(a) + html_escaped(b) =~= html_escaped(a));
    }
}

proof fn lemma_escaped_char(c: char)
    ensures
        html_escaped(seq![c]) == html_entity(c),
{
    assert(seq![c].drop_last() =~= Seq::empty());
    assert(html_escaped(seq![c].drop_last()) =~= Seq::empty());
    assert(html_escaped(seq![c]) =~= html_entity(c));
}

/// Percent signs are doubled where they stand, and nothing else is changed.
pub proof fn law_only_percent_signs_are_doubled(a: Seq<char>, b: Seq<char>, c: char)
    ensures
        percents_doubled(a + b) == percents_doubled(a) + percents_doubled(b),
        percents_doubled(seq!['%']) == seq!['%', '%'],
        c != '%' ==> percents_doubled(seq![c]) == seq![c],
    decreases b.len(),
{
    assert(seq!['%'].drop_last() =~= Seq::<char>::empty());
    assert(seq![c].drop_last() =~= Seq::empty());
    assert(percents_doubled(Seq::empty()) =~= Seq::empty());
    assert(percents_doubled(seq!['%']) =~= seq!['%', '%']);
    if c != '%' {
        assert(percents_doubled(seq![c]) =~= seq![c]);
    }
    if b.len() > 0 {
        law_only_percent_signs_are_doubled(a, b.drop_last(), c);
        assert((a + b).drop_last() =~= a + b.drop_last());
        assert(percents_doubled(a + b) =~= percents_doubled(a) + percents_doubled(b));
    } else {
        assert(a + b =~= a);
        assert(percents_doubled(a) + percents_doubled(b) =~= percents_doubled(a));
    }
}

/// A decimal fraction is shown with separators in its whole part and with its decimals as they are.
#[verifier::rlimit(30)]
pub proof fn law_fractions_keep_their_decimals(whole: nat, decimals: Seq<char>, other: i64)
    requires
        whole <= i64::MAX,
    ensures
        comma_decimal_text(decimal(whole) + seq!['.'] + decimals, other) == comma_text(whole as i64)
            + seq!['.'] + decimals,
        !decimals.contains('.') ==> comma_decimal_text(decimals, other) == comma_text(other),
{
    law_numbers_read_back(whole);
    law_integers_read_back(whole);
    let head = decimal(whole);
    let s = head + seq!['.'] + decimals;
    assert forall|j: int| 0 <= j < head.len() implies s[j] != '.' by {
        assert(s[j] == head[j]);
    }
    lemma_first_index(s, '.', head.len() as int);
    assert(s.take(head.len() as int) =~= head);
    assert(s.skip(head.len() as int + 1) =~= decimals);
    assert(comma_text(whole as i64).push('.') + decimals =~= comma_text(whole as i64) + seq!['.']
        + decimals);
    if !decimals.contains('.') {
        assert forall|j: int| 0 <= j < decimals.len() implies decimals[j] != '.' by {
            assert(decimals.contains(decimals[j]));
        }
        lemma_first_index(decimals, '.', decimals.len() as int);
    }
}

/// Lines end at line feeds, which belong to no line, and neither does a carriage return before one.
/// What follows the last line feed is a line where there is anything.
#[verifier::rlimit(30)]
pub proof fn law_lines_end_at_line_feeds(line: Seq<char>, rest: Seq<char>)
    requires
        !line.contains('\n'),
    ensures
        lines_of(Seq::empty()) == Seq::<Seq<char>>::empty(),
        line.len() > 0 ==> lines_of(line) == seq![line],
        line.len() == 0 || line.last() != '\r' ==> lines_of(line + seq!['\n'] + rest) == seq![line]
            + lines_of(rest),
        lines_of(line + seq!['\r', '\n'] + rest) == seq![line] + lines_of(rest),
{
    assert forall|j: int| 0 <= j < line.len() implies line[j] != '\n' by {
        assert(line.contains(line[j]));
    }
    if line.len() > 0 {
        lemma_first_index(line, '\n', line.len() as int);
    }
    let a = line + seq!['\n'] + rest;
    lemma_first_index(a, '\n', line.len() as int);
    assert(a.take(line.len() as int) =~= line);
    assert(a.skip(line.len() as int + 1) =~= rest);
    let b = line + seq!['\r', '\n'] + rest;
    lemma_first_index(b, '\n', line.len() as int + 1);
    assert(b.take(line.len() as int + 1) =~= line.push('\r'));
    assert(line.push('\r').drop_last() =~= line);
    assert(b.skip(line.len() as int + 2) =~= rest);
}

/// A text is blank exactly where each of its characters is; spaces, tabs and line ends are, and
/// letters, digits and the marks of a document are not.
pub proof fn law_blank_text_holds_white_space_only(s: Seq<char>, i: int)
    requires
        0 <= i < s.len(),
    ensures
        is_blank_text(s) ==> s[i] == ' ' || '\t' <= s[i] <= '\r' || s[i] > '~',
        is_blank_text(Seq::empty()),
        (forall|j: int|
            0 <= j < s.len() ==> #[trigger] s[j] == ' ' || s[j] == '\t' || s[j] == '\n' || s[j]
                == '\r') ==> is_blank_text(s),
{
    if is_blank_text(s) {
        lemma_white_space(s[i]);
    }
}

proof fn lemma_white_space(c: char)
    ensures
        is_white_space(c) ==> c == ' ' || '\t' <= c <= '\r' || c > '~',
{
}

/// An integer is read with white space around it as without, where it fits in 32 bits.
pub proof fn law_white_space_around_an_integer_is_passed_over(
    before: Seq<char>,
    n: nat,
    after: Seq<char>,
)
    requires
        is_blank_text(before),
        is_blank_text(after),
    ensures
        n <= i32::MAX ==> small_integer_value(before + decimal(n) + after) == Some(n as i32),
        i32::MAX < n ==> small_integer_value(before + decimal(n) + after) is None,
        n <= i32::MAX + 1 ==> small_integer_value(before + (seq!['-'] + decimal(n)) + after) == Some(
            (-n) as i32,
        ),
        i32::MAX + 1 < n ==> small_integer_value(before + (seq!['-'] + decimal(n)) + after) is None,
{
    let d = decimal(n);
    law_integers_read_back(n);
    let e = seq!['-'] + d;
    assert(trimmed(before + e + after) == e) by {
        law_numbers_read_back(n);
        assert('0' <= d[d.len() - 1] <= '9');
        assert(e[e.len() - 1] == d[d.len() - 1]);
        lemma_white_space(e[0]);
        lemma_white_space(e[e.len() - 1]);
        lemma_trimmed(before, e, after);
    }
    assert(trimmed(before + d + after) == d) by {
        law_numbers_read_back(n);
        assert('0' <= d[0] <= '9' && '0' <= d[d.len() - 1] <= '9');
        lemma_white_space(d[0]);
        lemma_white_space(d[d.len() - 1]);
        lemma_trimmed(before, d, after);
    }
}

proof fn lemma_trimmed(before: Seq<char>, d: Seq<char>, after: Seq<char>)
    requires
        is_blank_text(before),
        is_blank_text(after),
        d.len() > 0,
        !is_white_space(d[0]),
        !is_white_space(d[d.len() - 1]),
    ensures
        trimmed(before + d + after) == d,
{
    let s = before + d + after;
    assert forall|i: int| 0 <= i < before.len() implies is_white_space(#[trigger] s[i]) by {
        assert(s[i] == before[i]);
    }
    assert(s[before.len() as int] == d[0]);
    lemma_content_start(s, before.len() as int);
    let rest = s.skip(before.len() as int);
    assert(rest =~= d + after);
    assert forall|i: int| d.len() <= i < rest.len() implies is_white_space(#[trigger] rest[i]) by {
        assert(rest[i] == after[i - d.len()]);
    }
    assert(rest[d.len() - 1] == d[d.len() - 1]);
    lemma_content_end(rest, d.len() as int);
    assert(trimmed(s) =~= d);
}

/// A text holds a part wherever that part stands in it.
pub proof fn law_a_text_holds_its_parts(before: Seq<char>, part: Seq<char>, after: Seq<char>)
    ensures
        contains_text(before + part + after, part),
{
    let s = before + part + after;
    assert(s.subrange(before.len() as int, (before.len() + part.len()) as int) =~= part);
    assert(occurs_at(s, part, before.len() as int));
}

/// Zeros fill a text up to its width from the left, and a text that is wide enough stays as it is.
#[verifier::rlimit(30)]
pub proof fn law_zeros_fill_up_from_the_left(s: Seq<char>, width: int)
    ensures
        s.len() >= width ==> zero_filled(s, width) == s,
        s.len() < width ==> zero_filled(s, width).len() == width,
        s.len() < width ==> zero_filled(s, width).skip(width - s.len()) == s,
        s.len() < width ==> forall|i: int|
            0 <= i < width - s.len() ==> #[trigger] zero_filled(s, width)[i] == '0',
    decreases width - s.len(),
{
    if s.len() < width {
        let longer = seq!['0'] + s;
        law_zeros_fill_up_from_the_left(longer, width);
        let z = zero_filled(s, width);
        assert(z.len() == width);
        if longer.len() < width {
            assert(z.skip(width - longer.len()) == longer);
            assert(z[width - longer.len()] == longer[0]) by {
                assert(z.skip(width - longer.len())[0] == longer[0]);
            }
            assert(z.skip(width - s.len()) =~= longer.skip(1)) by {
                assert(z.skip(width - s.len()) =~= z.skip(width - longer.len()).skip(1));
            }
        }
        assert(longer.skip(1) =~= s);
        assert(z.skip(width - s.len()) =~= s);
        assert forall|i: int| 0 <= i < width - s.len() implies #[trigger] z[i] == '0' by {}
    }
}

/// Only NUL characters are dropped, and all of them; the others stay in their order.
pub proof fn law_only_nuls_are_dropped(s: Seq<char>, c: char)
    ensures
        nuls_dropped(Seq::empty()) == Seq::<char>::empty(),
        nuls_dropped(s.push('\0')) == nuls_dropped(s),
        c != '\0' ==> nuls_dropped(s.push(c)) == nuls_dropped(s).push(c),
{
    reveal(Seq::filter);
    assert(s.push('\0').drop_last() =~= s);
    assert(s.push(c).drop_last() =~= s);
}

} // verus!
