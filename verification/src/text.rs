//! Characters and strings.

use vstd::prelude::*;

verus! {

/// The characters with the Unicode property White_Space.
pub open spec fn white_space(c: char) -> bool {
    ||| '\u{9}' <= c <= '\u{d}'
    ||| c == '\u{20}' || c == '\u{85}' || c == '\u{a0}' || c == '\u{1680}'
    ||| '\u{2000}' <= c <= '\u{200a}'
    ||| c == '\u{2028}' || c == '\u{2029}' || c == '\u{202f}' || c == '\u{205f}'
    ||| c == '\u{3000}'
}

/// Whether `c` is white space.
pub fn is_white_space(c: char) -> (r: bool)
    ensures
        r == white_space(c),
{
    ('\u{9}' <= c && c <= '\u{d}') || c == '\u{20}' || c == '\u{85}' || c == '\u{a0}' || c
        == '\u{1680}' || ('\u{2000}' <= c && c <= '\u{200a}') || c == '\u{2028}' || c == '\u{2029}'
        || c == '\u{202f}' || c == '\u{205f}' || c == '\u{3000}'
}

/// The UTF-8 bytes of a text.
pub open spec fn utf8(s: Seq<char>) -> Seq<u8> {
    vstd::utf8::encode_utf8(s)
}

/// Appends one character, as `String::push` does.
pub assume_specification[ String::push ](s: &mut String, c: char)
    ensures
        final(s)@ == old(s)@.push(c),
;

/// The characters of `s`.
pub fn chars_of(s: &str) -> (v: Vec<char>)
    ensures
        v@ == s@,
{
    let mut v: Vec<char> = Vec::new();
    for c in it: s.chars()
        invariant
            v@ == it.seq().take(it.index() as int),
            it.seq() == s@,
    {
        v.push(c);
        assert(v@ =~= it.seq().take(it.index() as int + 1));
    }
    assert(v@ =~= s@);
    v
}

/// `s` without its leading white space.
pub open spec fn skip_white(s: Seq<char>) -> Seq<char>
    decreases s.len(),
{
    if s.len() > 0 && white_space(s[0]) {
        skip_white(s.drop_first())
    } else {
        s
    }
}

/// `s` without its trailing white space.
pub open spec fn drop_white(s: Seq<char>) -> Seq<char>
    decreases s.len(),
{
    if s.len() > 0 && white_space(s.last()) {
        drop_white(s.drop_last())
    } else {
        s
    }
}

/// `s` without white space at either end.
pub open spec fn trimmed(s: Seq<char>) -> Seq<char> {
    drop_white(skip_white(s))
}

/// `s` without white space at either end.
pub fn trim<'a>(s: &'a str) -> (r: &'a str)
    ensures
        r@ == trimmed(s@),
{
    let v = chars_of(s);
    let n: usize = v.len();
    let mut i: usize = 0;
    assert(s@ =~= s@.subrange(0, n as int));
    while i < n && is_white_space(v[i])
        invariant
            i <= n,
            n == v@.len(),
            v@ == s@,
            skip_white(s@) == skip_white(s@.subrange(i as int, n as int)),
        decreases n - i,
    {
        assert(s@.subrange(i as int, n as int).drop_first() =~= s@.subrange(i as int + 1, n as int));
        i = i + 1;
    }
    let mut j: usize = n;
    while j > i && is_white_space(v[j - 1])
        invariant
            i <= j <= n,
            n == v@.len(),
            v@ == s@,
            drop_white(s@.subrange(i as int, n as int)) == drop_white(
                s@.subrange(i as int, j as int),
            ),
        decreases j,
    {
        assert(s@.subrange(i as int, j as int).drop_last() =~= s@.subrange(i as int, j as int - 1));
        j = j - 1;
    }
    s.substring_char(i, j)
}

/// Whether the two strings hold the same characters.
pub fn str_eq(a: &str, b: &str) -> (r: bool)
    ensures
        r == (a@ == b@),
{
    let x = chars_of(a);
    let y = chars_of(b);
    if x.len() != y.len() {
        return false;
    }
    let mut i: usize = 0;
    while i < x.len()
        invariant
            i <= x@.len(),
            x@.len() == y@.len(),
            x@ == a@,
            y@ == b@,
            forall|j: int| 0 <= j < i ==> x@[j] == y@[j],
        decreases x@.len() - i,
    {
        if x[i] != y[i] {
            return false;
        }
        i = i + 1;
    }
    assert(x@ =~= y@);
    true
}

/// What follows `prefix` in `s`, where `s` starts with it.
pub fn strip_prefix<'a>(s: &'a str, prefix: &str) -> (r: Option<&'a str>)
    ensures
        r matches Some(rest) ==> prefix@.is_prefix_of(s@) && rest@ == s@.skip(
            prefix@.len() as int,
        ),
        r is None <==> !prefix@.is_prefix_of(s@),
{
    let n: usize = s.unicode_len();
    let k: usize = prefix.unicode_len();
    if k > n {
        return None;
    }
    if str_eq(s.substring_char(0, k), prefix) {
        assert(s@.subrange(0, k as int) == prefix@);
        let rest = s.substring_char(k, n);
        assert(rest@ =~= s@.skip(k as int));
        Some(rest)
    } else {
        assert(s@.subrange(0, k as int) != prefix@);
        None
    }
}

/// What precedes `suffix` in `s`, where `s` ends with it.
pub fn strip_suffix<'a>(s: &'a str, suffix: &str) -> (r: Option<&'a str>)
    ensures
        r matches Some(rest) ==> suffix@.is_suffix_of(s@) && rest@ == s@.take(
            s@.len() - suffix@.len(),
        ),
        r is None <==> !suffix@.is_suffix_of(s@),
{
    let n: usize = s.unicode_len();
    let k: usize = suffix.unicode_len();
    if k > n {
        return None;
    }
    if str_eq(s.substring_char(n - k, n), suffix) {
        assert(s@.subrange(n - k, n as int) == suffix@);
        let rest = s.substring_char(0, n - k);
        assert(rest@ =~= s@.take(n - k));
        Some(rest)
    } else {
        assert(s@.subrange(n - k, n as int) != suffix@);
        None
    }
}

/// Whether `pattern` occurs in `s` at position `i`.
pub open spec fn occurs_at(s: Seq<char>, pattern: Seq<char>, i: int) -> bool {
    0 <= i && i + pattern.len() <= s.len() && s.subrange(i, i + pattern.len()) == pattern
}

/// Whether `pattern` occurs in `s`.
pub open spec fn occurs(s: Seq<char>, pattern: Seq<char>) -> bool {
    exists|i: int| occurs_at(s, pattern, i)
}

/// Whether `pattern` occurs in `s`.
pub fn contains(s: &str, pattern: &str) -> (r: bool)
    ensures
        r == occurs(s@, pattern@),
{
    let n: usize = s.unicode_len();
    let k: usize = pattern.unicode_len();
    if k > n {
        return false;
    }
    let mut i: usize = 0;
    while i <= n - k
        invariant
            n == s@.len(),
            k == pattern@.len(),
            k <= n,
            i <= n - k + 1,
            forall|j: int| 0 <= j < i ==> !occurs_at(s@, pattern@, j),
        decreases n - k + 1 - i,
    {
        if str_eq(s.substring_char(i, i + k), pattern) {
            assert(occurs_at(s@, pattern@, i as int));
            return true;
        }
        if i == n - k {
            return false;
        }
        i = i + 1;
    }
    false
}

/// The position of the first `c` in `s`.
pub fn find_char(s: &str, c: char) -> (r: Option<usize>)
    ensures
        r matches Some(i) ==> i < s@.len() && s@[i as int] == c && !s@.take(i as int).contains(c),
        r is None <==> !s@.contains(c),
{
    let v = chars_of(s);
    let mut i: usize = 0;
    while i < v.len()
        invariant
            i <= v@.len(),
            v@ == s@,
            forall|j: int| 0 <= j < i ==> v@[j] != c,
        decreases v@.len() - i,
    {
        if v[i] == c {
            return Some(i);
        }
        i = i + 1;
    }
    None
}

/// The character of the decimal digit `d`.
pub open spec fn digit(d: nat) -> char {
    (48 + d) as char
}

/// The decimal notation of `n`.
pub open spec fn decimal(n: nat) -> Seq<char>
    decreases n,
{
    if n < 10 {
        seq![digit(n)]
    } else {
        decimal(n / 10).push(digit(n % 10))
    }
}

/// Appends the decimal notation of `n`.
pub fn push_decimal(out: &mut String, n: u64)
    ensures
        final(out)@ == old(out)@ + decimal(n as nat),
    decreases n,
{
    if n >= 10 {
        push_decimal(out, n / 10);
    }
    let d: u8 = (n % 10) as u8;
    out.push((48 + d) as char);
    assert(out@ =~= old(out)@ + decimal(n as nat));
}

/// The decimal notation of `n`.
pub fn decimal_string(n: u64) -> (s: String)
    ensures
        s@ == decimal(n as nat),
{
    let mut s = String::new();
    push_decimal(&mut s, n);
    assert(s@ =~= decimal(n as nat));
    s
}

/// The views of a sequence of strings.
pub open spec fn views(v: Seq<String>) -> Seq<Seq<char>> {
    v.map_values(|s: String| s@)
}

/// The pieces with `sep` between each two neighbours.
pub open spec fn joined(pieces: Seq<Seq<char>>, sep: Seq<char>) -> Seq<char>
    decreases pieces.len(),
{
    if pieces.len() == 0 {
        Seq::empty()
    } else if pieces.len() == 1 {
        pieces[0]
    } else {
        joined(pieces.drop_last(), sep) + sep + pieces.last()
    }
}

/// The strings with `sep` between each two neighbours.
pub fn join(pieces: &Vec<String>, sep: &str) -> (s: String)
    ensures
        s@ == joined(views(pieces@), sep@),
{
    let mut s = String::new();
    let mut i: usize = 0;
    while i < pieces.len()
        invariant
            i <= pieces@.len(),
            s@ == joined(views(pieces@).take(i as int), sep@),
        decreases pieces@.len() - i,
    {
        let ghost before = s@;
        if i > 0 {
            s.append(sep);
        }
        s.append(pieces[i].as_str());
        i = i + 1;
        proof {
            let t = views(pieces@).take(i as int);
            assert(t.drop_last() =~= views(pieces@).take(i as int - 1));
            assert(t.last() == pieces@[i - 1]@);
            if i == 1 {
                assert(before =~= Seq::<char>::empty());
                assert(s@ =~= t[0]);
            } else {
                assert(s@ =~= joined(t.drop_last(), sep@) + sep@ + t.last());
            }
        }
    }
    assert(views(pieces@).take(i as int) =~= views(pieces@));
    s
}

/// Whether a character is a decimal digit.
pub open spec fn is_digit(c: char) -> bool {
    '0' <= c <= '9'
}

/// Whether a text is made of decimal digits.
pub open spec fn all_digits(s: Seq<char>) -> bool {
    forall|i: int| 0 <= i < s.len() ==> is_digit(#[trigger] s[i])
}

/// The number that digits write down.
pub open spec fn digits_value(s: Seq<char>) -> nat
    decreases s.len(),
{
    if s.len() == 0 {
        0
    } else {
        digits_value(s.drop_last()) * 10 + (s.last() as nat - 48) as nat
    }
}

/// The number that a text writes down: at least one digit, with or without a
/// plus sign in front.
pub open spec fn number(s: Seq<char>) -> Option<nat> {
    let digits = if s.len() > 0 && s[0] == '+' {
        s.drop_first()
    } else {
        s
    };
    if digits.len() > 0 && all_digits(digits) {
        Some(digits_value(digits))
    } else {
        None
    }
}

/// The number that a text writes down, if it is no larger than `max`.
pub open spec fn number_up_to(s: Seq<char>, max: nat) -> Option<nat> {
    match number(s) {
        Some(n) => if n <= max {
            Some(n)
        } else {
            None
        },
        None => None,
    }
}

/// The number of a setting, which may not exceed `max`; the default where it is
/// absent, no number or too large.
pub open spec fn setting(value: Option<&str>, max: nat, default: nat) -> nat {
    match value {
        None => default,
        Some(s) => match number_up_to(s@, max) {
            Some(n) => n,
            None => default,
        },
    }
}

/// Reads a number no larger than `max`.
pub fn parse_number(s: &str, max: u64) -> (r: Option<u64>)
    ensures
        r is None <==> number_up_to(s@, max as nat) is None,
        r matches Some(n) ==> number_up_to(s@, max as nat) == Some(n as nat),
{
    let cs = chars_of(s);
    let start: usize = if cs.len() > 0 && cs[0] == '+' {
        1
    } else {
        0
    };
    let ghost digits = s@.skip(start as int);
    assert(start == 1 ==> digits =~= s@.drop_first());
    assert(start == 0 ==> digits =~= s@);
    if start == cs.len() {
        return None;
    }
    let mut total: u64 = 0;
    let mut i: usize = start;
    let mut over: bool = false;
    assert(digits.take(0) =~= Seq::<char>::empty());
    while i < cs.len()
        invariant
            cs@ == s@,
            start <= i <= cs.len(),
            start <= 1,
            digits == s@.skip(start as int),
            digits == (if s@.len() > 0 && s@[0] == '+' {
                s@.drop_first()
            } else {
                s@
            }),
            forall|k: int| 0 <= k < i - start ==> is_digit(#[trigger] digits[k]),
            !over ==> total == digits_value(digits.take(i - start)) && total <= max,
            over ==> digits_value(digits.take(i - start)) > max,
        decreases cs.len() - i,
    {
        let c = cs[i];
        let ghost k = i - start;
        assert(digits[k] == c);
        if c < '0' || c > '9' {
            assert(!is_digit(digits[k]));
            return None;
        }
        assert(is_digit(digits[k]));
        let ghost longer = digits.take(k + 1);
        assert(longer.drop_last() =~= digits.take(k));
        assert(longer.last() == c);
        let d: u64 = (c as u32 - 48) as u64;
        if !over {
            let next: u128 = total as u128 * 10 + d as u128;
            if next > max as u128 {
                over = true;
            } else {
                total = next as u64;
            }
        }
        i = i + 1;
    }
    assert(digits.take(digits.len() as int) =~= digits);
    assert(all_digits(digits));
    if over {
        None
    } else {
        Some(total)
    }
}

/// The number of a setting, or the default.
pub fn u64_setting(value: Option<&str>, default: u64) -> (n: u64)
    ensures
        n == setting(value, u64::MAX as nat, default as nat),
{
    match value {
        None => default,
        Some(s) => match parse_number(s, u64::MAX) {
            Some(n) => n,
            None => default,
        },
    }
}

/// The number of a setting, or the default.
pub fn u32_setting(value: Option<&str>, default: u32) -> (n: u32)
    ensures
        n == setting(value, u32::MAX as nat, default as nat),
{
    match value {
        None => default,
        Some(s) => match parse_number(s, u32::MAX as u64) {
            Some(n) => n as u32,
            None => default,
        },
    }
}

/// The number of a setting, or the default.
pub fn usize_setting(value: Option<&str>, default: usize) -> (n: usize)
    ensures
        n == setting(value, usize::MAX as nat, default as nat),
{
    match value {
        None => default,
        Some(s) => match parse_number(s, usize::MAX as u64) {
            Some(n) => n as usize,
            None => default,
        },
    }
}

/// The decimal digits of a number read back as that number.
pub proof fn law_decimal_reads_back(n: nat)
    ensures
        number(decimal(n)) == Some(n),
{
    lemma_decimal_digits(n);
    let s = decimal(n);
    assert(is_digit(s[0]));
}

proof fn lemma_decimal_digits(n: nat)
    ensures
        decimal(n).len() > 0,
        all_digits(decimal(n)),
        digits_value(decimal(n)) == n,
    decreases n,
{
    if n < 10 {
        let s = decimal(n);
        assert(s.drop_last() =~= Seq::<char>::empty());
        assert(digits_value(Seq::<char>::empty()) == 0);
    } else {
        lemma_decimal_digits(n / 10);
        let s = decimal(n);
        assert(s.drop_last() =~= decimal(n / 10));
    }
}

/// The number of UTF-8 bytes of a text.
pub fn byte_len(s: &str) -> (n: usize)
    ensures
        n == utf8(s@).len(),
{
    s.as_bytes().len()
}

/// Whether the first `n` bytes of a text are whole characters.
pub open spec fn cuts_at(s: Seq<char>, n: nat) -> bool {
    vstd::utf8::is_char_boundary(utf8(s), n as int)
}

/// The characters that the first `n` bytes of a text are.
pub open spec fn first_bytes(s: Seq<char>, n: nat) -> Seq<char> {
    vstd::utf8::decode_utf8(utf8(s).take(n as int))
}

/// The first `n` bytes of a text as a text, where they are whole characters.
pub fn byte_prefix(s: &str, n: usize) -> (r: Option<&str>)
    ensures
        match r {
            Some(p) => cuts_at(s@, n as nat) && p@ == first_bytes(s@, n as nat),
            None => !cuts_at(s@, n as nat),
        },
{
    if !s.is_char_boundary(n) {
        return None;
    }
    let (head, _) = s.split_at(n);
    proof {
        vstd::utf8::encode_utf8_decode_utf8(head@);
        assert(utf8(head@) =~= utf8(s@).subrange(0, n as int));
        assert(utf8(s@).subrange(0, n as int) =~= utf8(s@).take(n as int));
    }
    Some(head)
}

/// The lower-case letter of an ASCII letter; any other character itself.
pub open spec fn ascii_lower(c: char) -> char {
    if 'A' <= c <= 'Z' {
        (c as int + 32) as char
    } else {
        c
    }
}

/// Whether two texts are the same up to the case of ASCII letters.
pub open spec fn same_but_for_case(a: Seq<char>, b: Seq<char>) -> bool {
    a.map_values(|c: char| ascii_lower(c)) == b.map_values(|c: char| ascii_lower(c))
}

fn to_ascii_lower(c: char) -> (l: char)
    ensures
        l == ascii_lower(c),
{
    if 'A' <= c && c <= 'Z' {
        (c as u8 + 32) as char
    } else {
        c
    }
}

/// Whether two texts are the same up to the case of ASCII letters.
pub fn eq_ignore_ascii_case(a: &str, b: &str) -> (r: bool)
    ensures
        r == same_but_for_case(a@, b@),
{
    let x = chars_of(a);
    let y = chars_of(b);
    let ghost lx = a@.map_values(|c: char| ascii_lower(c));
    let ghost ly = b@.map_values(|c: char| ascii_lower(c));
    if x.len() != y.len() {
        assert(lx.len() != ly.len());
        return false;
    }
    let mut i: usize = 0;
    while i < x.len()
        invariant
            i <= x@.len(),
            x@.len() == y@.len(),
            x@ == a@,
            y@ == b@,
            lx == a@.map_values(|c: char| ascii_lower(c)),
            ly == b@.map_values(|c: char| ascii_lower(c)),
            forall|j: int| 0 <= j < i ==> #[trigger] lx[j] == ly[j],
        decreases x@.len() - i,
    {
        if to_ascii_lower(x[i]) != to_ascii_lower(y[i]) {
            assert(lx[i as int] != ly[i as int]);
            return false;
        }
        i = i + 1;
    }
    assert(lx =~= ly);
    true
}

/// The decimal notation of an integer, with a minus sign in front of a negative
/// one.
pub open spec fn signed_decimal(n: int) -> Seq<char> {
    if n < 0 {
        "-"@ + decimal((-n) as nat)
    } else {
        decimal(n as nat)
    }
}

/// The decimal notation of an integer.
pub fn signed_decimal_string(n: i32) -> (s: String)
    ensures
        s@ == signed_decimal(n as int),
{
    if n < 0 {
        let mut s = "-".to_owned();
        push_decimal(&mut s, (-(n as i64)) as u64);
        s
    } else {
        decimal_string(n as u64)
    }
}

/// The control characters of Unicode, category Cc.
pub open spec fn control(c: char) -> bool {
    c <= '\u{1f}' || '\u{7f}' <= c <= '\u{9f}'
}

/// Whether `c` is a control character.
pub fn is_control(c: char) -> (r: bool)
    ensures
        r == control(c),
{
    c <= '\u{1f}' || ('\u{7f}' <= c && c <= '\u{9f}')
}

/// The white space of ASCII: space, tab, line feed, form feed and carriage
/// return.
pub open spec fn ascii_white_space(c: char) -> bool {
    c == ' ' || c == '\u{9}' || c == '\u{a}' || c == '\u{c}' || c == '\u{d}'
}

/// Whether `c` is white space of ASCII.
pub fn is_ascii_white_space(c: char) -> (r: bool)
    ensures
        r == ascii_white_space(c),
{
    c == ' ' || c == '\u{9}' || c == '\u{a}' || c == '\u{c}' || c == '\u{d}'
}

/// The upper-case letter of an ASCII letter; any other character itself.
pub open spec fn ascii_upper(c: char) -> char {
    if 'a' <= c <= 'z' {
        (c as int - 32) as char
    } else {
        c
    }
}

/// The upper-case letter of an ASCII letter; any other character itself.
pub fn to_ascii_upper(c: char) -> (u: char)
    ensures
        u == ascii_upper(c),
{
    if 'a' <= c && c <= 'z' {
        (c as u8 - 32) as char
    } else {
        c
    }
}

/// Trimming takes white space off both ends and nothing else, and leaves none
/// there.
pub proof fn law_trimming_takes_only_white_space(s: &str, r: &str)
    requires
        call_ensures(trim, (s,), r),
    ensures
        exists|i: int, j: int|
            {
                &&& 0 <= i <= j <= s@.len()
                &&& #[trigger] s@.subrange(i, j) == r@
                &&& forall|k: int|
                    (0 <= k < i || j <= k < s@.len()) ==> white_space(#[trigger] s@[k])
            },
        r@.len() > 0 ==> !white_space(r@[0]) && !white_space(r@.last()),
{
    lemma_skipped(s@);
    let rest = skip_white(s@);
    lemma_dropped(rest);
    let i = s@.len() - rest.len();
    let j = i + r@.len();
    assert(s@.subrange(i, j) =~= r@);
    assert forall|k: int| (0 <= k < i || j <= k < s@.len()) implies white_space(#[trigger] s@[k]) by {
        if j <= k {
            assert(rest[k - i] == s@[k]);
        }
    }
    if r@.len() > 0 {
        assert(r@[0] == rest[0]);
    }
}

proof fn lemma_skipped(s: Seq<char>)
    ensures
        skip_white(s).len() <= s.len(),
        skip_white(s) == s.skip(s.len() - skip_white(s).len()),
        forall|k: int|
            0 <= k < s.len() - skip_white(s).len() ==> white_space(#[trigger] s[k]),
        skip_white(s).len() > 0 ==> !white_space(skip_white(s)[0]),
    decreases s.len(),
{
    if s.len() > 0 && white_space(s[0]) {
        lemma_skipped(s.drop_first());
        let n = s.len() - skip_white(s).len();
        assert(s.skip(n) =~= s.drop_first().skip(n - 1));
        assert forall|k: int| 0 <= k < n implies white_space(#[trigger] s[k]) by {
            if k > 0 {
                assert(s.drop_first()[k - 1] == s[k]);
            }
        }
    } else {
        assert(s.skip(0) =~= s);
    }
}

proof fn lemma_dropped(s: Seq<char>)
    ensures
        drop_white(s).len() <= s.len(),
        drop_white(s) == s.take(drop_white(s).len() as int),
        forall|k: int| drop_white(s).len() <= k < s.len() ==> white_space(#[trigger] s[k]),
        drop_white(s).len() > 0 ==> !white_space(drop_white(s).last()),
    decreases s.len(),
{
    if s.len() > 0 && white_space(s.last()) {
        lemma_dropped(s.drop_last());
        let n = drop_white(s).len() as int;
        assert(s.take(n) =~= s.drop_last().take(n));
        assert forall|k: int| n <= k < s.len() implies white_space(#[trigger] s[k]) by {
            if k < s.len() - 1 {
                assert(s.drop_last()[k] == s[k]);
            }
        }
    } else {
        assert(s.take(s.len() as int) =~= s);
    }
}

/// The white space and the control characters of ASCII are those that they are.
pub proof fn law_characters_of_ascii(
    c: char,
    white: bool,
    control_character: bool,
    upper: char,
    ascii_white: bool,
)
    requires
        call_ensures(is_white_space, (c,), white),
        call_ensures(is_control, (c,), control_character),
        call_ensures(to_ascii_upper, (c,), upper),
        call_ensures(is_ascii_white_space, (c,), ascii_white),
    ensures
        (c as u32) < 128 ==> (white <==> (9 <= c as u32 <= 13 || c as u32 == 32)),
        control_character <==> (c as u32) < 32 || 127 <= c as u32 <= 159,
        ascii_white ==> white,
        ascii_white <==> white && (c as u32) < 128 && c as u32 != 11,
        97 <= c as u32 <= 122 ==> upper as u32 == c as u32 - 32,
        !(97 <= c as u32 <= 122) ==> upper == c,
{
}

/// Ten times a number and a digit is written as the number and the digit after it,
/// and a negative number as its opposite behind a minus sign.
pub proof fn law_digits_follow_each_other(
    n: u64,
    m: u64,
    of_n: String,
    of_m: String,
    positive: i32,
    negative: i32,
    of_positive: String,
    of_negative: String,
)
    requires
        call_ensures(decimal_string, (n,), of_n),
        call_ensures(decimal_string, (m,), of_m),
        n > 0,
        m / 10 == n,
        call_ensures(signed_decimal_string, (positive,), of_positive),
        call_ensures(signed_decimal_string, (negative,), of_negative),
        positive >= 0,
        negative == -positive,
    ensures
        of_m@.drop_last() == of_n@,
        of_m@.last() as u32 == 48 + m % 10,
        n < 10 ==> of_n@.len() == 1 && of_n@[0] as u32 == 48 + n,
        positive > 0 ==> of_negative@ == "-"@ + of_positive@,
        of_positive@ == decimal(positive as nat),
{
    assert(of_m@.drop_last() =~= of_n@);
}

/// One more piece is joined behind a separator; one alone stands by itself.
pub proof fn law_pieces_are_joined(
    pieces: &Vec<String>,
    more: &Vec<String>,
    piece: String,
    sep: &str,
    before: String,
    after: String,
)
    requires
        call_ensures(join, (pieces, sep), before),
        call_ensures(join, (more, sep), after),
        more@ == pieces@.push(piece),
    ensures
        pieces@.len() == 0 ==> before@.len() == 0 && after@ == piece@,
        pieces@.len() > 0 ==> after@ == before@ + sep@ + piece@,
{
    assert(views(more@).drop_last() =~= views(pieces@));
    assert(views(more@).last() == piece@);
}

/// A setting that writes a number down in decimal digits is that number, up to the
/// largest allowed; any other is the default.
pub proof fn law_settings_are_numbers(n: nat, given: &str, absent: u32, of_given: u32, default: u32)
    requires
        call_ensures(u32_setting, (None, default), absent),
        call_ensures(u32_setting, (Some(given), default), of_given),
    ensures
        absent == default,
        given@ == decimal(n) && n <= u32::MAX ==> of_given == n,
        given@ == decimal(n) && n > u32::MAX ==> of_given == default,
        given@.len() == 0 ==> of_given == default,
        forall|i: int|
            0 < i < given@.len() && !('0' <= #[trigger] given@[i] <= '9') ==> of_given == default,
{
    law_decimal_reads_back(n);
    assert forall|i: int| 0 < i < given@.len() && !('0' <= #[trigger] given@[i] <= '9') implies of_given
        == default by {
        let digits = if given@[0] == '+' {
            given@.drop_first()
        } else {
            given@
        };
        let k = if given@[0] == '+' {
            i - 1
        } else {
            i
        };
        assert(!is_digit(digits[k]));
    }
}

/// The same of the longer settings.
pub proof fn law_long_settings_are_numbers(
    n: nat,
    given: &str,
    absent: u64,
    of_given: u64,
    size: usize,
    default: u64,
    default_size: usize,
)
    requires
        call_ensures(u64_setting, (None, default), absent),
        call_ensures(u64_setting, (Some(given), default), of_given),
        call_ensures(usize_setting, (Some(given), default_size), size),
    ensures
        absent == default,
        given@ == decimal(n) && n <= u64::MAX ==> of_given == n,
        given@ == decimal(n) && n > u64::MAX ==> of_given == default,
        given@ == decimal(n) && n <= usize::MAX ==> size == n,
        given@ == decimal(n) && n > usize::MAX ==> size == default_size,
        given@.len() == 0 ==> of_given == default && size == default_size,
{
    law_decimal_reads_back(n);
}

/// Two texts are the same up to case exactly where they are equally long and at
/// each place hold the same character or the two cases of one letter.
pub proof fn law_only_the_case_may_differ(a: &str, b: &str, r: bool)
    requires
        call_ensures(eq_ignore_ascii_case, (a, b), r),
    ensures
        r <==> a@.len() == b@.len() && forall|i: int|
            0 <= i < a@.len() ==> {
                ||| #[trigger] a@[i] == b@[i]
                ||| 'A' <= a@[i] <= 'Z' && b@[i] as u32 == a@[i] as u32 + 32
                ||| 'A' <= b@[i] <= 'Z' && a@[i] as u32 == b@[i] as u32 + 32
            },
{
    let x = a@.map_values(|c: char| ascii_lower(c));
    let y = b@.map_values(|c: char| ascii_lower(c));
    if r {
        assert(x.len() == y.len());
        assert forall|i: int| 0 <= i < a@.len() implies {
            ||| #[trigger] a@[i] == b@[i]
            ||| 'A' <= a@[i] <= 'Z' && b@[i] as u32 == a@[i] as u32 + 32
            ||| 'A' <= b@[i] <= 'Z' && a@[i] as u32 == b@[i] as u32 + 32
        } by {
            assert(x[i] == y[i]);
        }
    } else if a@.len() == b@.len() && forall|i: int|
        0 <= i < a@.len() ==> {
            ||| #[trigger] a@[i] == b@[i]
            ||| 'A' <= a@[i] <= 'Z' && b@[i] as u32 == a@[i] as u32 + 32
            ||| 'A' <= b@[i] <= 'Z' && a@[i] as u32 == b@[i] as u32 + 32
        } {
        assert forall|i: int| 0 <= i < x.len() implies x[i] == y[i] by {
            assert(a@[i] == a@[i]);
        }
        assert(x =~= y);
    }
}

/// A text contains another exactly where it is made of something, the other, and
/// something more.
pub proof fn law_texts_contain_their_parts(s: &str, pattern: &str, r: bool)
    requires
        call_ensures(contains, (s, pattern), r),
    ensures
        forall|head: Seq<char>, tail: Seq<char>|
            s@ == #[trigger] (head + pattern@ + tail) ==> r,
        r ==> exists|head: Seq<char>, tail: Seq<char>|
            s@ == #[trigger] (head + pattern@ + tail),
{
    assert forall|head: Seq<char>, tail: Seq<char>|
        s@ == #[trigger] (head + pattern@ + tail) implies r by {
        let i = head.len() as int;
        assert(s@.subrange(i, i + pattern@.len()) =~= pattern@);
        assert(occurs_at(s@, pattern@, i));
    }
    if r {
        let i = choose|i: int| occurs_at(s@, pattern@, i);
        let head = s@.take(i);
        let tail = s@.skip(i + pattern@.len());
        assert(s@ =~= head + pattern@ + tail);
    }
}

} // verus!
