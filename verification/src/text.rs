//! Text primitives.
//!
//! A string is modelled by its sequence of characters. Everything the rest of
//! the library says about prompts, table rows, identifiers and timestamps is
//! said over the functions of this module.
use vstd::prelude::*;
use vstd::string::*;

verus! {

/// `String::push` appends one character to the end of the string.
pub assume_specification[ String::push ](s: &mut String, ch: char)
    ensures
        final(s)@ == old(s)@.push(ch),
;

/// A character's code is a non-negative 32-bit number.
pub proof fn lemma_char_code(c: char)
    ensures
        0 <= c as int <= 0x10ffff,
        c as u32 as int == c as int,
{
}

/// The contents of a list of strings.
pub open spec fn views(list: Seq<String>) -> Seq<Seq<char>> {
    list.map_values(|s: String| s@)
}

/// The contents of an optional string.
pub open spec fn opt_view(value: Option<String>) -> Option<Seq<char>> {
    match value {
        Some(s) => Some(s@),
        None => None,
    }
}

/// The contents of an optional borrowed string.
pub open spec fn opt_str_view(value: Option<&str>) -> Option<Seq<char>> {
    match value {
        Some(s) => Some(s@),
        None => None,
    }
}

/// The characters of a string, in order.
pub fn chars_of(s: &str) -> (out: Vec<char>)
    ensures
        out@ == s@,
{
    let mut out: Vec<char> = Vec::new();
    for c in it: s.chars()
        invariant
            it.seq() == s@,
            out@ == s@.take(it.index()),
    {
        assert(s@.take(it.index() + 1) == s@.take(it.index()).push(s@[it.index()]));
        out.push(c);
    }
    assert(s@.take(s@.len() as int) == s@);
    out
}

/// The string that holds `chars[from..to]`.
pub fn string_of(chars: &Vec<char>, from: usize, to: usize) -> (out: String)
    requires
        from <= to <= chars@.len(),
    ensures
        out@ == chars@.subrange(from as int, to as int),
{
    let mut out: String = String::new();
    let mut i: usize = from;
    while i < to
        invariant
            from <= i <= to <= chars@.len(),
            out@ == chars@.subrange(from as int, i as int),
        decreases to - i,
    {
        out.push(chars[i]);
        i = i + 1;
        assert(chars@.subrange(from as int, i as int) == chars@.subrange(from as int, i - 1).push(
            chars@[i - 1],
        ));
    }
    out
}

/// Whether two strings hold the same characters.
pub fn same(a: &str, b: &str) -> (out: bool)
    ensures
        out == (a@ == b@),
{
    a.to_owned() == b.to_owned()
}

/// Whether an optional string holds exactly `b`.
pub fn opt_is(a: &Option<String>, b: &str) -> (out: bool)
    ensures
        out == (opt_view(*a) == Some(b@)),
{
    match a {
        Some(s) => same(s.as_str(), b),
        None => false,
    }
}

/// A copy of an optional string.
pub fn opt_clone(a: &Option<String>) -> (out: Option<String>)
    ensures
        out == *a,
{
    match a {
        Some(s) => Some(s.clone()),
        None => None,
    }
}

/// An owned copy of an optional borrowed string.
pub fn opt_owned(a: Option<&str>) -> (out: Option<String>)
    ensures
        opt_view(out) == opt_str_view(a),
{
    match a {
        Some(s) => Some(s.to_owned()),
        None => None,
    }
}

/// Appends a string to a list.
pub fn add_text(list: &mut Vec<String>, value: &str)
    ensures
        views(final(list)@) == views(old(list)@).push(value@),
{
    let ghost before = list@;
    list.push(value.to_owned());
    assert(views(list@) =~= views(before).push(value@));
}

/// The list of one string.
pub fn one_text(value: &str) -> (out: Vec<String>)
    ensures
        views(out@) == seq![value@],
{
    let mut out: Vec<String> = Vec::new();
    add_text(&mut out, value);
    assert(views(out@) =~= seq![value@]);
    out
}

/// Whether a list of strings has an item that reads `value`.
pub fn list_contains(list: &Vec<String>, value: &str) -> (out: bool)
    ensures
        out == views(list@).contains(value@),
{
    let mut i: usize = 0;
    while i < list.len()
        invariant
            i <= list@.len(),
            forall|k: int| 0 <= k < i ==> views(list@)[k] != value@,
        decreases list@.len() - i,
    {
        if same(list[i].as_str(), value) {
            assert(views(list@)[i as int] == value@);
            return true;
        }
        i = i + 1;
    }
    false
}

/// The position of the first item that equals `x`; the length where there is
/// none.
pub open spec fn index_of(list: Seq<Seq<char>>, x: Seq<char>) -> int
    decreases list.len(),
{
    if list.len() == 0 {
        0
    } else {
        let before = index_of(list.drop_last(), x);
        if before < list.len() - 1 {
            before
        } else if list.last() == x {
            list.len() - 1
        } else {
            list.len() as int
        }
    }
}

/// `index_of` gives the position of the first item that equals `x`.
pub proof fn lemma_index_of(list: Seq<Seq<char>>, x: Seq<char>)
    ensures
        0 <= index_of(list, x) <= list.len(),
        index_of(list, x) < list.len() ==> list[index_of(list, x)] == x,
        forall|i: int| 0 <= i < index_of(list, x) ==> #[trigger] list[i] != x,
        index_of(list, x) < list.len() <==> list.contains(x),
    decreases list.len(),
{
    if list.len() > 0 {
        lemma_index_of(list.drop_last(), x);
        assert forall|i: int| 0 <= i < index_of(list, x) implies #[trigger] list[i] != x by {
            assert(i < list.len() - 1 ==> list.drop_last()[i] == list[i]);
        }
    }
}

/// The first position of an item is all that determines `index_of`.
pub proof fn lemma_index_of_unique(list: Seq<Seq<char>>, x: Seq<char>, at: int)
    requires
        0 <= at <= list.len(),
        at < list.len() ==> list[at] == x,
        forall|i: int| 0 <= i < at ==> #[trigger] list[i] != x,
    ensures
        index_of(list, x) == at,
{
    lemma_index_of(list, x);
    let k = index_of(list, x);
    if k < at {
        assert(list[k] != x);
    }
}

/// The position of the first item that reads `x`; the length where there is
/// none.
pub fn find_in(list: &Vec<String>, x: &str) -> (out: usize)
    ensures
        out == index_of(views(list@), x@),
        out <= list@.len(),
{
    let mut i: usize = 0;
    while i < list.len()
        invariant
            i <= list@.len(),
            forall|k: int| 0 <= k < i ==> #[trigger] views(list@)[k] != x@,
        decreases list@.len() - i,
    {
        if same(list[i].as_str(), x) {
            proof {
                lemma_index_of_unique(views(list@), x@, i as int);
            }
            return i;
        }
        i = i + 1;
    }
    proof {
        lemma_index_of_unique(views(list@), x@, i as int);
    }
    i
}

// ---------------------------------------------------------------- numbers

/// The character of a decimal digit.
pub open spec fn digit_char(d: int) -> char {
    (48 + d) as char
}

/// A natural number in decimal, without leading zeros.
pub open spec fn decimal(n: nat) -> Seq<char>
    decreases n,
{
    if n < 10 {
        seq![digit_char(n as int)]
    } else {
        decimal(n / 10).push(digit_char((n % 10) as int))
    }
}

/// The character of a decimal digit.
pub fn digit(d: u64) -> (out: char)
    requires
        d < 10,
    ensures
        out == digit_char(d as int),
{
    (48u8 + d as u8) as char
}

/// A number in decimal, without leading zeros.
pub fn decimal_string(n: u64) -> (out: String)
    ensures
        out@ == decimal(n as nat),
    decreases n,
{
    if n < 10 {
        let mut out: String = String::new();
        out.push(digit(n));
        assert(out@ == seq![digit_char(n as int)]);
        out
    } else {
        let mut out: String = decimal_string(n / 10);
        out.push(digit(n % 10));
        out
    }
}

/// A signed integer in decimal.
pub open spec fn signed_decimal(n: int) -> Seq<char> {
    if n < 0 {
        seq!['-'] + decimal((-n) as nat)
    } else {
        decimal(n as nat)
    }
}

/// A signed integer in decimal.
pub fn signed_decimal_string(n: i64) -> (out: String)
    ensures
        out@ == signed_decimal(n as int),
{
    if n < 0 {
        let magnitude: u64 = if n == i64::MIN {
            9223372036854775808u64
        } else {
            (-n) as u64
        };
        let mut out: String = String::new();
        out.push('-');
        out.append(decimal_string(magnitude).as_str());
        assert(out@ == seq!['-'] + decimal(magnitude as nat));
        out
    } else {
        decimal_string(n as u64)
    }
}

/// Whether a character is an ASCII decimal digit.
pub open spec fn is_digit(c: char) -> bool {
    '0' <= c && c <= '9'
}

/// Whether every character is an ASCII decimal digit.
pub open spec fn all_digits(s: Seq<char>) -> bool {
    forall|i: int| 0 <= i < s.len() ==> is_digit(#[trigger] s[i])
}

/// The number that a run of decimal digits stands for.
pub open spec fn digits_value(s: Seq<char>) -> nat
    decreases s.len(),
{
    if s.len() == 0 {
        0
    } else {
        digits_value(s.drop_last()) * 10 + (s.last() as nat - 48) as nat
    }
}

/// A decimal number without leading zeros consists of digits and reads back as
/// the number it was written from.
pub proof fn lemma_decimal_round_trip(n: nat)
    ensures
        decimal(n).len() > 0,
        all_digits(decimal(n)),
        digits_value(decimal(n)) == n,
    decreases n,
{
    let s = decimal(n);
    if n < 10 {
        assert(s == seq![digit_char(n as int)]);
        assert(s.drop_last() == Seq::<char>::empty());
        assert(digits_value(s.drop_last()) == 0);
    } else {
        lemma_decimal_round_trip(n / 10);
        assert(s.drop_last() == decimal(n / 10));
        assert(s.last() == digit_char((n % 10) as int));
        assert forall|i: int| 0 <= i < s.len() implies is_digit(#[trigger] s[i]) by {
            if i < s.len() - 1 {
                assert(s[i] == decimal(n / 10)[i]);
            }
        }
    }
}

/// The character of a hexadecimal digit.
pub open spec fn hex_char(d: int, upper: bool) -> char {
    if d < 10 {
        (48 + d) as char
    } else if upper {
        (55 + d) as char
    } else {
        (87 + d) as char
    }
}

/// A natural number as exactly `width` hexadecimal digits, high digits first;
/// digits beyond the width are cut off.
pub open spec fn hex_fixed(n: nat, width: nat, upper: bool) -> Seq<char>
    decreases width,
{
    if width == 0 {
        Seq::empty()
    } else {
        hex_fixed(n / 16, (width - 1) as nat, upper).push(hex_char((n % 16) as int, upper))
    }
}

/// A number as exactly `width` hexadecimal digits.
pub fn hex_fixed_string(n: u64, width: usize, upper: bool) -> (out: String)
    ensures
        out@ == hex_fixed(n as nat, width as nat, upper),
    decreases width,
{
    if width == 0 {
        String::new()
    } else {
        let mut out: String = hex_fixed_string(n / 16, width - 1, upper);
        let d: u8 = (n % 16) as u8;
        if d < 10 {
            out.push((48u8 + d) as char);
        } else if upper {
            out.push((55u8 + d) as char);
        } else {
            out.push((87u8 + d) as char);
        }
        out
    }
}

// ---------------------------------------------------------------- padding

/// `n` copies of a character.
pub open spec fn repeat(c: char, n: int) -> Seq<char> {
    Seq::new(if n < 0 { 0 } else { n as nat }, |i: int| c)
}

/// The text, followed by spaces up to `width` characters.
pub open spec fn pad_end(s: Seq<char>, width: nat) -> Seq<char> {
    s + repeat(' ', width - s.len())
}

/// The text, preceded by `fill` up to `width` characters.
pub open spec fn pad_start(s: Seq<char>, width: nat, fill: char) -> Seq<char> {
    repeat(fill, width - s.len()) + s
}

/// A string of `n` copies of a character.
pub fn repeat_string(c: char, n: usize) -> (out: String)
    ensures
        out@ == repeat(c, n as int),
{
    let mut out: String = String::new();
    let mut i: usize = 0;
    while i < n
        invariant
            i <= n,
            out@ == repeat(c, i as int),
        decreases n - i,
    {
        out.push(c);
        i = i + 1;
        assert(repeat(c, i as int) == repeat(c, i - 1).push(c));
    }
    out
}

/// The text, followed by spaces up to `width` characters.
pub fn pad_end_string(s: &str, width: usize) -> (out: String)
    ensures
        out@ == pad_end(s@, width as nat),
{
    let len: usize = s.unicode_len();
    let mut out: String = s.to_owned();
    if len < width {
        out.append(repeat_string(' ', width - len).as_str());
    } else {
        assert(pad_end(s@, width as nat) == s@);
    }
    out
}

/// The text, preceded by `fill` up to `width` characters.
pub fn pad_start_string(s: &str, width: usize, fill: char) -> (out: String)
    ensures
        out@ == pad_start(s@, width as nat, fill),
{
    let len: usize = s.unicode_len();
    if len < width {
        let mut out: String = repeat_string(fill, width - len);
        out.append(s);
        out
    } else {
        assert(pad_start(s@, width as nat, fill) == s@);
        s.to_owned()
    }
}

// ------------------------------------------------------------- whitespace

/// Unicode white space.
pub open spec fn is_white(c: char) -> bool {
    ||| '\u{9}' <= c && c <= '\u{d}'
    ||| c == '\u{20}'
    ||| c == '\u{85}'
    ||| c == '\u{a0}'
    ||| c == '\u{1680}'
    ||| '\u{2000}' <= c && c <= '\u{200a}'
    ||| c == '\u{2028}'
    ||| c == '\u{2029}'
    ||| c == '\u{202f}'
    ||| c == '\u{205f}'
    ||| c == '\u{3000}'
}

/// Unicode white space.
pub fn white(c: char) -> (out: bool)
    ensures
        out == is_white(c),
{
    ('\u{9}' <= c && c <= '\u{d}') || c == '\u{20}' || c == '\u{85}' || c == '\u{a0}' || c
        == '\u{1680}' || ('\u{2000}' <= c && c <= '\u{200a}') || c == '\u{2028}' || c == '\u{2029}'
        || c == '\u{202f}' || c == '\u{205f}' || c == '\u{3000}'
}

/// The text without its leading white space.
pub open spec fn trim_start(s: Seq<char>) -> Seq<char>
    decreases s.len(),
{
    if s.len() > 0 && is_white(s[0]) {
        trim_start(s.skip(1))
    } else {
        s
    }
}

/// The text without its trailing white space.
pub open spec fn trim_end(s: Seq<char>) -> Seq<char>
    decreases s.len(),
{
    if s.len() > 0 && is_white(s.last()) {
        trim_end(s.drop_last())
    } else {
        s
    }
}

/// The text without white space at either end.
pub open spec fn trim(s: Seq<char>) -> Seq<char> {
    trim_end(trim_start(s))
}

/// The text without white space at either end.
pub fn trim_string(s: &str) -> (out: String)
    ensures
        out@ == trim(s@),
{
    let chars: Vec<char> = chars_of(s);
    let mut from: usize = 0;
    assert(chars@.skip(0) == chars@);
    while from < chars.len() && white(chars[from])
        invariant
            from <= chars@.len(),
            trim_start(chars@) == trim_start(chars@.skip(from as int)),
        decreases chars@.len() - from,
    {
        assert(chars@.skip(from as int).skip(1) == chars@.skip(from + 1));
        from = from + 1;
    }
    let mut to: usize = chars.len();
    assert(chars@.skip(from as int) == chars@.subrange(from as int, to as int));
    let ghost body = chars@.skip(from as int);
    assert(trim_start(chars@) == body);
    while from < to && white(chars[to - 1])
        invariant
            from <= to <= chars@.len(),
            trim_end(body) == trim_end(chars@.subrange(from as int, to as int)),
        decreases to - from,
    {
        assert(chars@.subrange(from as int, to as int).drop_last() == chars@.subrange(
            from as int,
            to - 1,
        ));
        to = to - 1;
    }
    assert(from < to ==> chars@.subrange(from as int, to as int).last() == chars@[to - 1]);
    string_of(&chars, from, to)
}

/// Whether trimming the text leaves nothing: every character is white space.
pub proof fn lemma_trim_empty(s: Seq<char>)
    ensures
        trim(s).len() == 0 <==> (forall|i: int| 0 <= i < s.len() ==> is_white(#[trigger] s[i])),
{
    lemma_trim_start_suffix(s);
    let t = trim_start(s);
    lemma_trim_end_prefix(t);
    if trim(s).len() == 0 {
        if t.len() > 0 {
            assert(t == s.skip(s.len() - t.len()));
            lemma_trim_end_keeps_black(t, 0);
        }
        assert forall|i: int| 0 <= i < s.len() implies is_white(#[trigger] s[i]) by {
            assert(t.len() == 0);
        }
    } else {
        assert(!is_white(t[0]));
        assert(t[0] == s[s.len() - t.len()]);
    }
}

proof fn lemma_trim_start_suffix(s: Seq<char>)
    ensures
        trim_start(s).len() <= s.len(),
        trim_start(s) == s.skip(s.len() - trim_start(s).len()),
        trim_start(s).len() > 0 ==> !is_white(trim_start(s)[0]),
        forall|i: int|
            0 <= i < s.len() - trim_start(s).len() ==> is_white(#[trigger] s[i]),
    decreases s.len(),
{
    if s.len() > 0 && is_white(s[0]) {
        lemma_trim_start_suffix(s.skip(1));
        let t = trim_start(s);
        assert(s.skip(1).skip(s.len() - 1 - t.len()) == s.skip(s.len() - t.len()));
        assert forall|i: int| 0 <= i < s.len() - t.len() implies is_white(#[trigger] s[i]) by {
            if i > 0 {
                assert(s.skip(1)[i - 1] == s[i]);
            }
        }
    } else {
        assert(s.skip(0) == s);
    }
}

proof fn lemma_trim_end_prefix(s: Seq<char>)
    ensures
        trim_end(s).len() <= s.len(),
        trim_end(s) == s.take(trim_end(s).len() as int),
    decreases s.len(),
{
    if s.len() > 0 && is_white(s.last()) {
        lemma_trim_end_prefix(s.drop_last());
        let t = trim_end(s);
        assert(s.drop_last().take(t.len() as int) == s.take(t.len() as int));
    } else {
        assert(s.take(s.len() as int) == s);
    }
}

proof fn lemma_trim_end_keeps_black(s: Seq<char>, i: int)
    requires
        0 <= i < s.len(),
        !is_white(s[i]),
    ensures
        trim_end(s).len() > i,
    decreases s.len(),
{
    if is_white(s.last()) {
        assert(i < s.len() - 1);
        assert(s.drop_last()[i] == s[i]);
        lemma_trim_end_keeps_black(s.drop_last(), i);
    }
}

/// Whether the text is empty or white space only.
pub open spec fn is_blank(s: Seq<char>) -> bool {
    forall|i: int| 0 <= i < s.len() ==> is_white(#[trigger] s[i])
}

/// Whether the text is empty or white space only.
pub fn blank(s: &str) -> (out: bool)
    ensures
        out == is_blank(s@),
        out == (trim(s@).len() == 0),
{
    proof {
        lemma_trim_empty(s@);
    }
    let chars: Vec<char> = chars_of(s);
    let mut i: usize = 0;
    while i < chars.len()
        invariant
            i <= chars@.len(),
            chars@ == s@,
            is_blank(s@) == (trim(s@).len() == 0),
            forall|k: int| 0 <= k < i ==> is_white(#[trigger] chars@[k]),
        decreases chars@.len() - i,
    {
        if !white(chars[i]) {
            return false;
        }
        i = i + 1;
    }
    true
}

// ---------------------------------------------------------------- search

/// `part` stands in `s` at position `at`.
pub open spec fn occurs_at(s: Seq<char>, part: Seq<char>, at: int) -> bool {
    &&& 0 <= at <= s.len() - part.len()
    &&& s.subrange(at, at + part.len()) == part
}

/// `part` stands somewhere in `s`.
pub open spec fn occurs(s: Seq<char>, part: Seq<char>) -> bool {
    exists|at: int| occurs_at(s, part, at)
}

/// Whether `part` stands in `s` at position `at`.
pub fn match_at(s: &Vec<char>, part: &Vec<char>, at: usize) -> (out: bool)
    ensures
        out == occurs_at(s@, part@, at as int),
{
    if part.len() > s.len() || at > s.len() - part.len() {
        return false;
    }
    let mut i: usize = 0;
    while i < part.len()
        invariant
            at + part@.len() <= s.len(),
            i <= part@.len(),
            forall|k: int| 0 <= k < i ==> s@[at + k] == part@[k],
        decreases part@.len() - i,
    {
        if s[at + i] != part[i] {
            assert(s@.subrange(at as int, at + part@.len())[i as int] != part@[i as int]);
            return false;
        }
        i = i + 1;
    }
    assert(s@.subrange(at as int, at + part@.len()) == part@);
    true
}

/// Whether `part` stands somewhere in `s`.
pub fn contains(s: &str, part: &str) -> (out: bool)
    ensures
        out == occurs(s@, part@),
{
    let hay: Vec<char> = chars_of(s);
    let needle: Vec<char> = chars_of(part);
    if needle.len() > hay.len() {
        return false;
    }
    let last: usize = hay.len() - needle.len();
    let mut at: usize = 0;
    loop
        invariant
            hay@ == s@,
            needle@ == part@,
            at <= last,
            last == hay@.len() - needle@.len(),
            forall|k: int| 0 <= k < at ==> !occurs_at(s@, part@, k),
        decreases last - at,
    {
        if match_at(&hay, &needle, at) {
            return true;
        }
        if at == last {
            return false;
        }
        at = at + 1;
    }
}

/// Whether the text begins with `prefix`.
pub fn starts_with(s: &str, prefix: &str) -> (out: bool)
    ensures
        out == prefix@.is_prefix_of(s@),
{
    let out: bool = match_at(&chars_of(s), &chars_of(prefix), 0);
    assert(prefix@.len() <= s@.len() ==> s@.subrange(0, prefix@.len() as int) == s@.subrange(
        0,
        (0 + prefix@.len()) as int,
    ));
    out
}

/// What follows `prefix` at the start of the text, if it is there.
pub open spec fn after_prefix(s: Seq<char>, prefix: Seq<char>) -> Option<Seq<char>> {
    if prefix.is_prefix_of(s) {
        Some(s.skip(prefix.len() as int))
    } else {
        None
    }
}

/// What stands before `suffix` at the end of the text, if it is there.
pub open spec fn before_suffix(s: Seq<char>, suffix: Seq<char>) -> Option<Seq<char>> {
    if suffix.is_suffix_of(s) {
        Some(s.take(s.len() - suffix.len()))
    } else {
        None
    }
}

/// What follows `prefix` at the start of the text, if it is there.
pub fn strip_prefix(s: &str, prefix: &str) -> (out: Option<String>)
    ensures
        opt_view(out) == after_prefix(s@, prefix@),
{
    if starts_with(s, prefix) {
        let chars: Vec<char> = chars_of(s);
        let out: String = string_of(&chars, prefix.unicode_len(), chars.len());
        assert(s@.skip(prefix@.len() as int) == s@.subrange(prefix@.len() as int, s@.len() as int));
        Some(out)
    } else {
        None
    }
}

/// What stands before `suffix` at the end of the text, if it is there.
pub fn strip_suffix(s: &str, suffix: &str) -> (out: Option<String>)
    ensures
        opt_view(out) == before_suffix(s@, suffix@),
{
    let chars: Vec<char> = chars_of(s);
    let tail: Vec<char> = chars_of(suffix);
    if tail.len() <= chars.len() {
        let at: usize = chars.len() - tail.len();
        if match_at(&chars, &tail, at) {
            assert(suffix@.is_suffix_of(s@));
            assert(s@.take(at as int) == s@.subrange(0, at as int));
            return Some(string_of(&chars, 0, at));
        }
        assert(s@.subrange(at as int, at + tail@.len()) == s@.subrange(at as int, s@.len() as int));
    }
    None
}

/// The part of the text behind the last `sep`; all of it where there is none.
pub open spec fn after_last(s: Seq<char>, sep: char) -> Seq<char>
    decreases s.len(),
{
    if s.len() == 0 || s.last() == sep {
        Seq::empty()
    } else {
        after_last(s.drop_last(), sep).push(s.last())
    }
}

/// The part of the text behind the last `sep`; all of it where there is none.
pub fn after_last_string(s: &str, sep: char) -> (out: String)
    ensures
        out@ == after_last(s@, sep),
{
    let chars: Vec<char> = chars_of(s);
    let mut from: usize = chars.len();
    assert(chars@.take(from as int) == chars@);
    assert(after_last(chars@, sep) == after_last(chars@.take(from as int), sep) + chars@.skip(
        from as int,
    ));
    while from > 0 && chars[from - 1] != sep
        invariant
            from <= chars@.len(),
            after_last(chars@, sep) == after_last(chars@.take(from as int), sep) + chars@.skip(
                from as int,
            ),
        decreases from,
    {
        let ghost head = chars@.take(from as int);
        assert(head.drop_last() == chars@.take(from - 1));
        assert(after_last(head, sep) == after_last(head.drop_last(), sep).push(head.last()));
        assert(after_last(head, sep) + chars@.skip(from as int) == after_last(
            head.drop_last(),
            sep,
        ) + chars@.skip(from - 1));
        from = from - 1;
    }
    assert(after_last(chars@.take(from as int), sep) == Seq::<char>::empty());
    assert(chars@.skip(from as int) == chars@.subrange(from as int, chars@.len() as int));
    string_of(&chars, from, chars.len())
}

// ------------------------------------------------------------------ lists

/// The texts, with `sep` between every two of them.
pub open spec fn join(list: Seq<Seq<char>>, sep: Seq<char>) -> Seq<char>
    decreases list.len(),
{
    if list.len() == 0 {
        Seq::empty()
    } else if list.len() == 1 {
        list[0]
    } else {
        join(list.drop_last(), sep) + sep + list.last()
    }
}

/// The texts, with `sep` between every two of them.
pub fn join_strings(list: &Vec<String>, sep: &str) -> (out: String)
    ensures
        out@ == join(views(list@), sep@),
{
    let mut out: String = String::new();
    let mut i: usize = 0;
    while i < list.len()
        invariant
            i <= list@.len(),
            out@ == join(views(list@).take(i as int), sep@),
        decreases list@.len() - i,
    {
        let ghost next = views(list@).take(i + 1);
        assert(next.drop_last() == views(list@).take(i as int));
        assert(next.last() == list@[i as int]@);
        if i > 0 {
            out.append(sep);
        }
        out.append(list[i].as_str());
        assert(i == 0 ==> join(next, sep@) == Seq::<char>::empty() + list@[0]@);
        i = i + 1;
    }
    assert(views(list@).take(i as int) == views(list@));
    out
}

/// The pieces of the text between the occurrences of `sep`.
pub open spec fn split(s: Seq<char>, sep: char) -> Seq<Seq<char>>
    decreases s.len(),
{
    if s.len() == 0 {
        seq![Seq::empty()]
    } else if s.last() == sep {
        split(s.drop_last(), sep).push(Seq::empty())
    } else {
        let front = split(s.drop_last(), sep);
        front.update(front.len() - 1, front.last().push(s.last()))
    }
}

/// The text has at least one piece.
pub proof fn lemma_split_nonempty(s: Seq<char>, sep: char)
    ensures
        split(s, sep).len() > 0,
    decreases s.len(),
{
    if s.len() > 0 {
        lemma_split_nonempty(s.drop_last(), sep);
    }
}

/// The pieces of the text between the occurrences of `sep`.
pub fn split_string(s: &str, sep: char) -> (out: Vec<String>)
    ensures
        views(out@) == split(s@, sep),
        out@.len() > 0,
{
    let chars: Vec<char> = chars_of(s);
    let mut out: Vec<String> = Vec::new();
    let mut piece: String = String::new();
    let mut i: usize = 0;
    assert(chars@.take(0) == Seq::<char>::empty());
    assert(views(out@).push(piece@) =~= split(chars@.take(0), sep));
    while i < chars.len()
        invariant
            i <= chars@.len(),
            views(out@).push(piece@) == split(chars@.take(i as int), sep),
        decreases chars@.len() - i,
    {
        let ghost before = chars@.take(i as int);
        let ghost after = chars@.take(i + 1);
        let ghost done = views(out@);
        assert(after.drop_last() == before);
        if chars[i] == sep {
            let finished: String = piece;
            let ghost old_out = out@;
            out.push(finished);
            piece = String::new();
            assert(views(out@) =~= done.push(finished@));
            assert(views(out@).push(piece@) =~= split(after, sep));
        } else {
            let ghost old_piece = piece@;
            piece.push(chars[i]);
            assert(done.push(piece@) =~= split(before, sep).update(
                split(before, sep).len() - 1,
                split(before, sep).last().push(chars@[i as int]),
            ));
        }
        i = i + 1;
    }
    assert(chars@.take(i as int) == chars@);
    let ghost done = views(out@);
    out.push(piece);
    assert(views(out@) =~= done.push(piece@));
    out
}

/// One line of a split text without the carriage return that ends it.
pub open spec fn without_cr(line: Seq<char>) -> Seq<char> {
    if line.len() > 0 && line.last() == '\r' {
        line.drop_last()
    } else {
        line
    }
}

/// The lines of the text: the pieces ended by a line feed, each without its
/// line feed and the carriage return before that, and what follows the last
/// line feed where that is not empty.
pub open spec fn lines(s: Seq<char>) -> Seq<Seq<char>> {
    let pieces = split(s, '\n');
    let ended = pieces.drop_last().map_values(|l: Seq<char>| without_cr(l));
    if pieces.last().len() == 0 {
        ended
    } else {
        ended.push(pieces.last())
    }
}

/// The position of the first space; the length where there is none.
pub open spec fn first_space(s: Seq<char>) -> int
    decreases s.len(),
{
    if s.len() == 0 || s[0] == ' ' {
        0
    } else {
        1 + first_space(s.skip(1))
    }
}

/// The position of the first space; the length where there is none.
pub fn find_space(chars: &Vec<char>) -> (out: usize)
    ensures
        out == first_space(chars@),
        out <= chars@.len(),
{
    let mut i: usize = 0;
    assert(chars@.skip(0) =~= chars@);
    while i < chars.len()
        invariant
            i <= chars@.len(),
            i + first_space(chars@.skip(i as int)) == first_space(chars@),
        decreases chars@.len() - i,
    {
        if chars[i] == ' ' {
            return i;
        }
        assert(chars@.skip(i as int).skip(1) =~= chars@.skip(i + 1));
        i = i + 1;
    }
    i
}

/// A template with a value in the place of each `§`.
pub open spec fn filled(template: Seq<char>, value: Seq<char>) -> Seq<char> {
    join(split(template, '§'), value)
}

/// A template with a value in the place of each `§`.
pub fn fill(template: &str, value: &str) -> (out: String)
    ensures
        out@ == filled(template@, value@),
{
    let parts: Vec<String> = split_string(template, '§');
    join_strings(&parts, value)
}

/// A letter of the English alphabet as a capital; any other character as it is.
pub open spec fn upper_char(c: char) -> char {
    if 'a' <= c && c <= 'z' {
        (c as u32 - 32) as char
    } else {
        c
    }
}

/// A text in capitals.
pub open spec fn upper(s: Seq<char>) -> Seq<char> {
    s.map_values(|c: char| upper_char(c))
}

/// A letter of the English alphabet as a capital; any other character as it is.
fn capital(c: char) -> (out: char)
    ensures
        out == upper_char(c),
{
    if 'a' <= c && c <= 'z' {
        let low: u8 = c as u8;
        (low - 32) as char
    } else {
        c
    }
}

/// A text in capitals.
pub fn upper_string(s: &str) -> (out: String)
    ensures
        out@ == upper(s@),
{
    let chars: Vec<char> = chars_of(s);
    let ghost all = upper(s@);
    let mut out: String = String::new();
    assert(out@ =~= all.take(0));
    let mut i: usize = 0;
    while i < chars.len()
        invariant
            i <= chars@.len(),
            chars@ == s@,
            all == upper(s@),
            out@ == all.take(i as int),
        decreases chars@.len() - i,
    {
        out.push(capital(chars[i]));
        assert(all.take(i + 1) =~= all.take(i as int).push(all[i as int]));
        i = i + 1;
    }
    assert(all.take(i as int) =~= all);
    out
}

/// A text without separators is one piece.
pub proof fn lemma_split_plain(s: Seq<char>, sep: char)
    requires
        !s.contains(sep),
    ensures
        split(s, sep) == seq![s],
    decreases s.len(),
{
    if s.len() > 0 {
        let front = s.drop_last();
        assert(s[s.len() - 1] == s.last());
        assert(!front.contains(sep)) by {
            if front.contains(sep) {
                let k = choose|k: int| 0 <= k < front.len() && front[k] == sep;
                assert(s[k] == sep);
            }
        }
        lemma_split_plain(front, sep);
        assert(split(s, sep) =~= seq![front.push(s.last())]);
        assert(front.push(s.last()) =~= s);
    } else {
        assert(s =~= Seq::empty());
    }
}

/// What follows a separator, and has none itself, is a piece of its own.
pub proof fn lemma_split_after(a: Seq<char>, b: Seq<char>, sep: char)
    requires
        !b.contains(sep),
    ensures
        split(a.push(sep) + b, sep) == split(a, sep).push(b),
    decreases b.len(),
{
    let whole = a.push(sep) + b;
    if b.len() == 0 {
        assert(whole.drop_last() =~= a);
        assert(b =~= Seq::empty());
    } else {
        let front = b.drop_last();
        assert(b[b.len() - 1] == b.last());
        assert(!front.contains(sep)) by {
            if front.contains(sep) {
                let k = choose|k: int| 0 <= k < front.len() && front[k] == sep;
                assert(b[k] == sep);
            }
        }
        lemma_split_after(a, front, sep);
        assert(whole.drop_last() =~= a.push(sep) + front);
        assert(whole.last() == b.last());
        assert(front.push(b.last()) =~= b);
        assert(split(whole, sep) =~= split(a, sep).push(b));
    }
}

/// The lines of the text.
pub fn line_strings(s: &str) -> (out: Vec<String>)
    ensures
        views(out@) == lines(s@),
{
    let pieces: Vec<String> = split_string(s, '\n');
    let n: usize = pieces.len() - 1;
    let ghost ended = views(pieces@).drop_last().map_values(|l: Seq<char>| without_cr(l));
    let mut out: Vec<String> = Vec::new();
    let mut i: usize = 0;
    while i < n
        invariant
            i <= n,
            n == pieces@.len() - 1,
            ended == views(pieces@).drop_last().map_values(|l: Seq<char>| without_cr(l)),
            views(out@) == ended.take(i as int),
        decreases n - i,
    {
        let chars: Vec<char> = chars_of(pieces[i].as_str());
        let len: usize = chars.len();
        let end: usize = if len > 0 && chars[len - 1] == '\r' {
            len - 1
        } else {
            len
        };
        let line: String = string_of(&chars, 0, end);
        assert(line@ == without_cr(pieces@[i as int]@));
        let ghost done = views(out@);
        out.push(line);
        assert(views(out@) =~= done.push(line@));
        assert(ended.take(i + 1) =~= ended.take(i as int).push(ended[i as int]));
        i = i + 1;
    }
    assert(ended.take(n as int) =~= ended);
    assert(views(pieces@).last() == pieces@[n as int]@);
    if pieces[n].as_str().is_empty() {
        assert(views(pieces@).last().len() == 0);
    } else {
        let ghost done = views(out@);
        out.push(pieces[n].clone());
        assert(views(out@) =~= done.push(pieces@[n as int]@));
    }
    out
}

/// The words of the text: the longest runs without white space.
pub open spec fn words(s: Seq<char>) -> Seq<Seq<char>>
    decreases s.len(),
{
    if s.len() == 0 {
        Seq::empty()
    } else if is_white(s.last()) {
        words(s.drop_last())
    } else if s.len() == 1 || is_white(s[s.len() - 2]) {
        words(s.drop_last()).push(seq![s.last()])
    } else {
        let front = words(s.drop_last());
        front.update(front.len() - 1, front.last().push(s.last()))
    }
}

proof fn lemma_words_open(s: Seq<char>)
    requires
        s.len() > 0,
        !is_white(s.last()),
    ensures
        words(s).len() > 0,
    decreases s.len(),
{
    if s.len() > 1 && !is_white(s[s.len() - 2]) {
        assert(s.drop_last().last() == s[s.len() - 2]);
        lemma_words_open(s.drop_last());
    }
}

/// The words of the text.
pub fn word_strings(s: &str) -> (out: Vec<String>)
    ensures
        views(out@) == words(s@),
{
    let chars: Vec<char> = chars_of(s);
    let mut out: Vec<String> = Vec::new();
    let mut word: String = String::new();
    let mut i: usize = 0;
    let mut open: bool = false;
    assert(views(out@) =~= words(chars@.take(0)));
    while i < chars.len()
        invariant
            i <= chars@.len(),
            open == (i > 0 && !is_white(chars@[i - 1])),
            open ==> views(out@).push(word@) == words(chars@.take(i as int)),
            !open ==> views(out@) == words(chars@.take(i as int)) && word@.len() == 0,
        decreases chars@.len() - i,
    {
        let ghost before = chars@.take(i as int);
        let ghost after = chars@.take(i + 1);
        let ghost done = views(out@);
        assert(after.drop_last() == before);
        assert(i > 0 ==> after[after.len() - 2] == chars@[i - 1]);
        if white(chars[i]) {
            if open {
                let finished: String = word;
                out.push(finished);
                word = String::new();
                assert(views(out@) =~= done.push(finished@));
            }
            open = false;
        } else {
            let ghost old_word = word@;
            word.push(chars[i]);
            if open {
                assert(done.push(word@) =~= words(before).update(
                    words(before).len() - 1,
                    words(before).last().push(chars@[i as int]),
                ));
            } else {
                assert(word@ =~= seq![chars@[i as int]]);
            }
            open = true;
        }
        i = i + 1;
    }
    assert(chars@.take(i as int) == chars@);
    if open {
        let ghost done = views(out@);
        out.push(word);
        assert(views(out@) =~= done.push(word@));
    }
    out
}

// ------------------------------------------------------------------ order

/// Strict order of texts by code point, the order in which their UTF-8 bytes
/// compare.
pub open spec fn text_lt(a: Seq<char>, b: Seq<char>) -> bool
    decreases a.len(),
{
    if b.len() == 0 {
        false
    } else if a.len() == 0 {
        true
    } else if a[0] != b[0] {
        a[0] < b[0]
    } else {
        text_lt(a.skip(1), b.skip(1))
    }
}

/// Order of texts by code point.
pub open spec fn text_le(a: Seq<char>, b: Seq<char>) -> bool {
    !text_lt(b, a)
}

/// Of two texts exactly one is smaller, or they are equal.
pub proof fn lemma_text_order_total(a: Seq<char>, b: Seq<char>)
    ensures
        text_lt(a, b) ==> !text_lt(b, a) && a != b,
        !text_lt(a, b) && !text_lt(b, a) ==> a == b,
    decreases a.len(),
{
    if a.len() == 0 || b.len() == 0 {
        assert(a.len() == 0 && b.len() == 0 ==> a =~= b);
    } else if a[0] == b[0] {
        lemma_text_order_total(a.skip(1), b.skip(1));
        if a.skip(1) == b.skip(1) {
            assert(a =~= seq![a[0]] + a.skip(1));
            assert(b =~= seq![b[0]] + b.skip(1));
        }
        if a == b {
            assert(a.skip(1) == b.skip(1));
        }
    }
}

/// The order of texts is transitive.
pub proof fn lemma_text_order_transitive(a: Seq<char>, b: Seq<char>, c: Seq<char>)
    ensures
        text_lt(a, b) && text_lt(b, c) ==> text_lt(a, c),
        text_le(a, b) && text_le(b, c) ==> text_le(a, c),
    decreases a.len() + b.len() + c.len(),
{
    if a.len() > 0 && b.len() > 0 && c.len() > 0 {
        if a[0] == b[0] && b[0] == c[0] {
            lemma_text_order_transitive(a.skip(1), b.skip(1), c.skip(1));
        }
    }
}

/// Whether `a` comes before `b` by code point.
pub fn text_less(a: &str, b: &str) -> (out: bool)
    ensures
        out == text_lt(a@, b@),
{
    let x: Vec<char> = chars_of(a);
    let y: Vec<char> = chars_of(b);
    let mut i: usize = 0;
    assert(x@.skip(0) == x@ && y@.skip(0) == y@);
    loop
        invariant
            x@ == a@,
            y@ == b@,
            i <= x@.len(),
            i <= y@.len(),
            text_lt(a@, b@) == text_lt(x@.skip(i as int), y@.skip(i as int)),
        decreases x@.len() - i,
    {
        if i == y.len() {
            return false;
        }
        if i == x.len() {
            return true;
        }
        if x[i] != y[i] {
            return x[i] < y[i];
        }
        assert(x@.skip(i as int).skip(1) == x@.skip(i + 1));
        assert(y@.skip(i as int).skip(1) == y@.skip(i + 1));
        i = i + 1;
    }
}

/// Texts are ordered by the first character in which they differ; a text that
/// starts another comes before it.
pub proof fn law_first_difference_orders(a: Seq<char>, b: Seq<char>, at: int)
    requires
        0 <= at <= a.len(),
        at < b.len(),
        a.take(at) == b.take(at),
        at < a.len() ==> a[at] != b[at],
    ensures
        text_lt(a, b) == (at == a.len() || a[at] < b[at]),
    decreases at,
{
    if at > 0 {
        assert(a.take(at)[0] == a[0] && b.take(at)[0] == b[0]);
        assert(a.skip(1).take(at - 1) =~= a.take(at).skip(1));
        assert(b.skip(1).take(at - 1) =~= b.take(at).skip(1));
        law_first_difference_orders(a.skip(1), b.skip(1), at - 1);
    }
}

// ------------------------------------------------------------------ what texts are made of

proof fn lemma_trim_start_of(a: Seq<char>, s: Seq<char>)
    requires
        is_blank(a),
        s.len() > 0 ==> !is_white(s[0]),
    ensures
        trim_start(a + s) == s,
    decreases a.len(),
{
    let all = a + s;
    if a.len() > 0 {
        assert(all[0] == a[0]);
        assert(is_white(a[0]));
        assert(all.skip(1) =~= a.skip(1) + s);
        assert forall|i: int| 0 <= i < a.skip(1).len() implies is_white(
            #[trigger] a.skip(1)[i],
        ) by {
            assert(a.skip(1)[i] == a[i + 1]);
        }
        lemma_trim_start_of(a.skip(1), s);
    } else {
        assert(all =~= s);
    }
}

proof fn lemma_trim_end_of(s: Seq<char>, b: Seq<char>)
    requires
        is_blank(b),
        s.len() > 0 ==> !is_white(s.last()),
    ensures
        trim_end(s + b) == s,
    decreases b.len(),
{
    let all = s + b;
    if b.len() > 0 {
        assert(all.last() == b.last());
        assert(is_white(b[b.len() - 1]));
        assert(all.drop_last() =~= s + b.drop_last());
        assert forall|i: int| 0 <= i < b.drop_last().len() implies is_white(
            #[trigger] b.drop_last()[i],
        ) by {
            assert(b.drop_last()[i] == b[i]);
        }
        lemma_trim_end_of(s, b.drop_last());
    } else {
        assert(all =~= s);
    }
}

/// Trimming takes the white space around a text away and nothing else: whatever white
/// space stands around a text that neither starts nor ends with any, the text is left.
pub proof fn law_trim_leaves_the_middle(a: Seq<char>, middle: Seq<char>, b: Seq<char>)
    requires
        is_blank(a),
        is_blank(b),
        middle.len() > 0 ==> !is_white(middle[0]) && !is_white(middle.last()),
    ensures
        trim(a + middle + b) == middle,
{
    if middle.len() > 0 {
        let rest = middle + b;
        assert(rest[0] == middle[0]);
        assert(a + middle + b =~= a + rest);
        lemma_trim_start_of(a, rest);
        lemma_trim_end_of(middle, b);
    } else {
        let all = a + middle + b;
        assert forall|i: int| 0 <= i < all.len() implies is_white(#[trigger] all[i]) by {
            if i < a.len() {
                assert(all[i] == a[i]);
            } else {
                assert(all[i] == b[i - a.len()]);
            }
        }
        lemma_trim_empty(all);
        assert(middle =~= Seq::empty());
        assert(trim(all) =~= Seq::empty());
    }
}

/// White space is what Unicode calls so: the tab, the line feeds, the carriage return and
/// the spaces, and no letter, digit or mark of ASCII.
pub proof fn law_white_space_is_no_mark(c: char)
    ensures
        '!' <= c && c <= '~' ==> !is_white(c),
        c == ' ' || c == '\t' || c == '\n' || c == '\r' ==> is_white(c),
{
}

proof fn lemma_split_concat(a: Seq<char>, b: Seq<char>, sep: char)
    ensures
        split(a.push(sep) + b, sep) == split(a, sep) + split(b, sep),
    decreases b.len(),
{
    let all = a.push(sep) + b;
    if b.len() == 0 {
        assert(all =~= a.push(sep));
        assert(all.drop_last() =~= a);
        assert(split(a, sep).push(Seq::empty()) =~= split(a, sep) + split(b, sep));
    } else {
        let front = b.drop_last();
        lemma_split_concat(a, front, sep);
        lemma_split_nonempty(front, sep);
        assert(all.drop_last() =~= a.push(sep) + front);
        assert(all.last() == b.last());
        let before = split(a, sep) + split(front, sep);
        assert(before.last() == split(front, sep).last());
        if b.last() == sep {
            assert(before.push(Seq::empty()) =~= split(a, sep) + split(b, sep));
        } else {
            assert(before.update(before.len() - 1, before.last().push(b.last())) =~= split(a, sep)
                + split(b, sep));
        }
    }
}

/// Pieces are what stands between separators: a text without one is one piece, and where a
/// separator stands between two texts, the pieces of the first come before those of the
/// second.
pub proof fn law_pieces_stand_between_separators(a: Seq<char>, b: Seq<char>, sep: char)
    ensures
        !a.contains(sep) ==> split(a, sep) == seq![a],
        split(a.push(sep) + b, sep) == split(a, sep) + split(b, sep),
        split(a, sep).len() > 0,
{
    lemma_split_concat(a, b, sep);
    lemma_split_nonempty(a, sep);
    if !a.contains(sep) {
        lemma_split_plain(a, sep);
    }
}

/// Lines are read from the front: a line ends at its line feed, without the carriage return
/// before that; what follows the last line feed is a line where it is not empty, and is
/// left as it is.
pub proof fn law_lines_end_at_line_feeds(line: Seq<char>, rest: Seq<char>)
    requires
        !line.contains('\n'),
    ensures
        lines(line.push('\n') + rest) == seq![
            if line.len() > 0 && line.last() == '\r' {
                line.drop_last()
            } else {
                line
            },
        ] + lines(rest),
        line.len() > 0 ==> lines(line) == seq![line],
        lines(Seq::<char>::empty()).len() == 0,
{
    let f = |l: Seq<char>| without_cr(l);
    lemma_split_concat(line, rest, '\n');
    lemma_split_plain(line, '\n');
    lemma_split_nonempty(rest, '\n');
    let tail = split(rest, '\n');
    let all = seq![line] + tail;
    assert(all.drop_last() =~= seq![line] + tail.drop_last());
    assert(all.last() == tail.last());
    assert(all.drop_last().map_values(f) =~= seq![without_cr(line)] + tail.drop_last().map_values(
        f,
    ));
    assert(lines(line.push('\n') + rest) =~= seq![without_cr(line)] + lines(rest));
    let one = seq![line];
    assert(one.drop_last().map_values(f) =~= Seq::empty());
    if line.len() > 0 {
        assert(lines(line) =~= seq![line]);
    }
    let none = Seq::<char>::empty();
    assert(split(none, '\n') =~= seq![none]);
    assert(seq![none].drop_last() =~= Seq::<Seq<char>>::empty());
}

/// Texts are joined with the separator between every two of them and nowhere else.
pub proof fn law_join_stands_between(list: Seq<Seq<char>>, sep: Seq<char>)
    ensures
        list.len() == 0 ==> join(list, sep).len() == 0,
        list.len() == 1 ==> join(list, sep) == list[0],
        list.len() > 1 ==> join(list, sep) == list[0] + sep + join(list.skip(1), sep),
    decreases list.len(),
{
    if list.len() == 2 {
        assert(list.skip(1) =~= seq![list[1]]);
        assert(list.drop_last() =~= seq![list[0]]);
        assert(list.last() == list[1]);
        assert(join(list.drop_last(), sep) == list[0]);
        assert(join(list.skip(1), sep) == list[1]);
        assert(join(list, sep) == list[0] + sep + list[1]);
    } else if list.len() > 2 {
        law_join_stands_between(list.drop_last(), sep);
        assert(list.drop_last().skip(1) =~= list.skip(1).drop_last());
        assert(list.skip(1).last() == list.last());
        assert(join(list, sep) =~= list[0] + sep + join(list.skip(1), sep));
    }
}

proof fn lemma_words_of_word(word: Seq<char>)
    requires
        word.len() > 0,
        forall|i: int| 0 <= i < word.len() ==> !is_white(#[trigger] word[i]),
    ensures
        words(word) == seq![word],
    decreases word.len(),
{
    let front = word.drop_last();
    assert(!is_white(word[word.len() - 1]));
    if word.len() > 1 {
        assert forall|i: int| 0 <= i < front.len() implies !is_white(#[trigger] front[i]) by {
            assert(front[i] == word[i]);
        }
        lemma_words_of_word(front);
        assert(!is_white(word[word.len() - 2]));
        assert(front.push(word.last()) =~= word);
        assert(words(word) =~= seq![word]);
    } else {
        assert(front =~= Seq::empty());
        assert(words(front) =~= Seq::empty());
        assert(words(word) == words(front).push(seq![word.last()]));
        assert(words(word) =~= seq![seq![word.last()]]);
        assert(seq![word.last()] =~= word);
    }
}

proof fn lemma_words_concat(a: Seq<char>, c: char, b: Seq<char>)
    requires
        is_white(c),
    ensures
        words(a.push(c) + b) == words(a) + words(b),
    decreases b.len(),
{
    let all = a.push(c) + b;
    if b.len() == 0 {
        assert(all =~= a.push(c));
        assert(all.drop_last() =~= a);
        assert(words(a) =~= words(a) + words(b));
    } else {
        let front = b.drop_last();
        lemma_words_concat(a, c, front);
        assert(all.drop_last() =~= a.push(c) + front);
        assert(all.last() == b.last());
        let before = words(a) + words(front);
        if !is_white(b.last()) {
            if b.len() == 1 {
                assert(all[all.len() - 2] == c);
                assert(front =~= Seq::empty());
                assert(words(b) =~= seq![seq![b.last()]]);
                assert(before.push(seq![b.last()]) =~= words(a) + words(b));
            } else {
                assert(all[all.len() - 2] == b[b.len() - 2]);
                if is_white(b[b.len() - 2]) {
                    assert(before.push(seq![b.last()]) =~= words(a) + words(b));
                } else {
                    lemma_words_open(front);
                    assert(before.last() == words(front).last());
                    assert(before.update(before.len() - 1, before.last().push(b.last()))
                        =~= words(a) + words(b));
                }
            }
        }
    }
}

/// Words are what stands between white space: a text without any is one word, and where
/// white space stands between two texts, the words of the first come before those of the
/// second. There are no words in nothing.
pub proof fn law_words_stand_between_spaces(a: Seq<char>, c: char, b: Seq<char>)
    requires
        is_white(c),
    ensures
        words(a.push(c) + b) == words(a) + words(b),
        a.len() == 0 ==> words(a).len() == 0,
        a.len() > 0 && (forall|i: int| 0 <= i < a.len() ==> !is_white(#[trigger] a[i])) ==> words(a)
            == seq![a],
{
    lemma_words_concat(a, c, b);
    if a.len() > 0 && (forall|i: int| 0 <= i < a.len() ==> !is_white(#[trigger] a[i])) {
        lemma_words_of_word(a);
    }
}

/// What stands behind the last separator has none itself, and is all of a text without one.
pub proof fn law_last_part_has_no_separator(a: Seq<char>, part: Seq<char>, sep: char)
    requires
        !part.contains(sep),
    ensures
        after_last(part, sep) == part,
        after_last(a.push(sep) + part, sep) == part,
    decreases part.len(),
{
    let all = a.push(sep) + part;
    if part.len() == 0 {
        assert(all =~= a.push(sep));
        assert(part =~= Seq::empty());
    } else {
        let front = part.drop_last();
        assert(part[part.len() - 1] == part.last());
        assert(!front.contains(sep)) by {
            if front.contains(sep) {
                let k = choose|k: int| 0 <= k < front.len() && front[k] == sep;
                assert(part[k] == sep);
            }
        }
        law_last_part_has_no_separator(a, front, sep);
        assert(all.drop_last() =~= a.push(sep) + front);
        assert(all.last() == part.last());
        assert(front.push(part.last()) =~= part);
    }
}

/// A number is written in decimal digits without leading zeros, and reads back.
pub proof fn law_decimal_is_shortest(n: nat)
    ensures
        digits_value(decimal(n)) == n,
        all_digits(decimal(n)),
        decimal(n).len() > 0,
        n > 0 ==> decimal(n)[0] != '0',
        n < 10 ==> decimal(n).len() == 1,
    decreases n,
{
    lemma_decimal_round_trip(n);
    if n >= 10 {
        law_decimal_is_shortest(n / 10);
        assert(decimal(n)[0] == decimal(n / 10)[0]);
    }
}

/// Capitals stand for the letters of the English alphabet; every other character stays, and
/// so does the length.
pub proof fn law_capitals_are_letters(s: Seq<char>, i: int)
    requires
        0 <= i < s.len(),
    ensures
        upper(s).len() == s.len(),
        'a' <= s[i] && s[i] <= 'z' ==> upper(s)[i] as u32 == s[i] as u32 - 32,
        !('a' <= s[i] && s[i] <= 'z') ==> upper(s)[i] == s[i],
{
    if 'a' <= s[i] && s[i] <= 'z' {
        lemma_char_code(upper(s)[i]);
    }
}

} // verus!
