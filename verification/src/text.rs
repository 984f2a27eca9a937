//! Text as sequences of characters: lines, prefixes, searches, trimming
//! and decimal numbers, each as std's `str` methods document them.

use vstd::prelude::*;

verus! {

/// `s` begins with `prefix`.
pub open spec fn starts_with(s: Seq<char>, prefix: Seq<char>) -> bool {
    prefix.len() <= s.len() && s.take(prefix.len() as int) == prefix
}

/// `needle` occurs in `s` at index `i`.
pub open spec fn occurs_at(s: Seq<char>, needle: Seq<char>, i: int) -> bool {
    0 <= i && i + needle.len() <= s.len() && s.subrange(i, i + needle.len()) == needle
}

/// The first index at or after `from` at which `needle` occurs in `s`.
pub open spec fn find_from(s: Seq<char>, needle: Seq<char>, from: int) -> Option<int>
    decreases s.len() + 1 - from,
{
    if from < 0 || from + needle.len() > s.len() {
        None
    } else if occurs_at(s, needle, from) {
        Some(from)
    } else {
        find_from(s, needle, from + 1)
    }
}

/// The first index at which `needle` occurs in `s`, as `str::find` gives it
/// (counted in characters).
pub open spec fn find(s: Seq<char>, needle: Seq<char>) -> Option<int> {
    find_from(s, needle, 0)
}

/// The first index of `c` in `s`.
pub open spec fn index_of(s: Seq<char>, c: char) -> Option<int> {
    find(s, seq![c])
}

/// `line` without one `\r` at its end, if it has one.
pub open spec fn strip_cr(line: Seq<char>) -> Seq<char> {
    if line.len() > 0 && line.last() == '\r' {
        line.drop_last()
    } else {
        line
    }
}

/// The lines of `s`, as `str::lines` gives them: split at each `\n`, a
/// `\r` just before the `\n` dropped, and no line after a final `\n`.
pub open spec fn lines_of(s: Seq<char>) -> Seq<Seq<char>>
    decreases s.len(),
{
    if s.len() == 0 {
        Seq::empty()
    } else {
        match index_of(s, '\n') {
            None => seq![s],
            Some(i) => if 0 <= i < s.len() {
                seq![strip_cr(s.take(i))] + lines_of(s.skip(i + 1))
            } else {
                Seq::empty()
            },
        }
    }
}

/// The pieces of `s` between the occurrences of `c`, as `str::split`
/// with a character gives them.
pub open spec fn split_at_char(s: Seq<char>, c: char) -> Seq<Seq<char>>
    decreases s.len(),
{
    match index_of(s, c) {
        None => seq![s],
        Some(i) => if 0 <= i < s.len() {
            seq![s.take(i)] + split_at_char(s.skip(i + 1), c)
        } else {
            seq![s]
        },
    }
}

/// `s` with every `c` at its start taken off.
pub open spec fn trim_start_char(s: Seq<char>, c: char) -> Seq<char>
    decreases s.len(),
{
    if s.len() > 0 && s[0] == c {
        trim_start_char(s.drop_first(), c)
    } else {
        s
    }
}

/// `s` with every `c` at its end taken off.
pub open spec fn trim_end_char(s: Seq<char>, c: char) -> Seq<char>
    decreases s.len(),
{
    if s.len() > 0 && s.last() == c {
        trim_end_char(s.drop_last(), c)
    } else {
        s
    }
}

/// `s` with every `c` at either end taken off, as `str::trim_matches` with
/// a character gives it.
pub open spec fn trim_matches_char(s: Seq<char>, c: char) -> Seq<char> {
    trim_end_char(trim_start_char(s, c), c)
}

/// `c` has the Unicode White_Space property, which is what
/// `char::is_whitespace` tests.
pub open spec fn is_white_space(c: char) -> bool {
    let n = c as u32;
    ||| 0x09 <= n <= 0x0D
    ||| n == 0x20
    ||| n == 0x85
    ||| n == 0xA0
    ||| n == 0x1680
    ||| 0x2000 <= n <= 0x200A
    ||| n == 0x2028
    ||| n == 0x2029
    ||| n == 0x202F
    ||| n == 0x205F
    ||| n == 0x3000
}

/// `s` without the white space at its start.
pub open spec fn trim_start_ws(s: Seq<char>) -> Seq<char>
    decreases s.len(),
{
    if s.len() > 0 && is_white_space(s[0]) {
        trim_start_ws(s.drop_first())
    } else {
        s
    }
}

/// `s` without the white space at its end.
pub open spec fn trim_end_ws(s: Seq<char>) -> Seq<char>
    decreases s.len(),
{
    if s.len() > 0 && is_white_space(s.last()) {
        trim_end_ws(s.drop_last())
    } else {
        s
    }
}

/// `s` without the white space at either end, as `str::trim` gives it.
pub open spec fn trim_ws(s: Seq<char>) -> Seq<char> {
    trim_end_ws(trim_start_ws(s))
}

/// `c` is one of the ASCII digits.
pub open spec fn is_digit(c: char) -> bool {
    '0' <= c <= '9'
}

/// The number that the ASCII digits `s` write in base ten; `s` is all
/// digits.
pub open spec fn digits_value(s: Seq<char>) -> nat
    decreases s.len(),
{
    if s.len() == 0 {
        0
    } else {
        digits_value(s.drop_last()) * 10 + (s.last() as nat - '0' as nat) as nat
    }
}

/// Every character of `s` is an ASCII digit.
pub open spec fn all_digits(s: Seq<char>) -> bool {
    forall|i: int| 0 <= i < s.len() ==> is_digit(#[trigger] s[i])
}

/// `s` without one `+` at its start, if it has one.
pub open spec fn strip_plus(s: Seq<char>) -> Seq<char> {
    if s.len() > 0 && s[0] == '+' {
        s.drop_first()
    } else {
        s
    }
}

/// The number that `s` writes, as `str::parse::<u64>` reads it: an
/// optional `+`, then one or more ASCII digits, of a value that fits in a
/// `u64`.
pub open spec fn parse_u64(s: Seq<char>) -> Option<u64> {
    let digits = strip_plus(s);
    if digits.len() > 0 && all_digits(digits) && digits_value(digits) <= u64::MAX {
        Some(digits_value(digits) as u64)
    } else {
        None
    }
}

/// The decimal digits of `n`, with no leading zero.
pub open spec fn decimal(n: nat) -> Seq<char>
    decreases n,
{
    if n < 10 {
        seq![('0' as u32 + n) as char]
    } else {
        decimal(n / 10).push(('0' as u32 + n % 10) as char)
    }
}

/// `pieces` joined by `separator`, as `[..]::join` gives it.
pub open spec fn join(pieces: Seq<Seq<char>>, separator: Seq<char>) -> Seq<char>
    decreases pieces.len(),
{
    if pieces.len() == 0 {
        Seq::empty()
    } else if pieces.len() == 1 {
        pieces[0]
    } else {
        join(pieces.drop_last(), separator) + separator + pieces.last()
    }
}

/// Append `c` to `text`, through `String::push`.
#[verifier::external_body]
pub fn push_char(text: &mut String, c: char)
    ensures
        final(text)@ == old(text)@.push(c),
{
    text.push(c);
}

/// The characters of `s`, in order.
pub fn chars_of(s: &str) -> (chars: Vec<char>)
    ensures
        chars@ == s@,
{
    let mut chars: Vec<char> = Vec::new();
    for c in it: s.chars()
        invariant
            chars@ == it.seq().take(it.index() as int),
    {
        chars.push(c);
    }
    chars
}

/// Append `chars` to `text`.
pub fn push_chars(text: &mut String, chars: &[char])
    ensures
        final(text)@ == old(text)@ + chars@,
{
    let mut i: usize = 0;
    while i < chars.len()
        invariant
            0 <= i <= chars@.len(),
            text@ == old(text)@ + chars@.take(i as int),
        decreases chars@.len() - i,
    {
        push_char(text, chars[i]);
        assert(chars@.take(i + 1) =~= chars@.take(i as int).push(chars@[i as int]));
        i = i + 1;
    }
    assert(chars@.take(chars@.len() as int) =~= chars@);
}

/// A `String` of `chars`.
pub fn string_of(chars: &[char]) -> (text: String)
    ensures
        text@ == chars@,
{
    let mut text = String::new();
    push_chars(&mut text, chars);
    text
}

/// `s` begins with `prefix`.
pub fn has_prefix(s: &[char], prefix: &[char]) -> (r: bool)
    ensures
        r == starts_with(s@, prefix@),
{
    if prefix.len() > s.len() {
        return false;
    }
    let mut i: usize = 0;
    while i < prefix.len()
        invariant
            prefix@.len() <= s@.len(),
            0 <= i <= prefix@.len(),
            forall|j: int| 0 <= j < i ==> s@[j] == prefix@[j],
        decreases prefix@.len() - i,
    {
        if s[i] != prefix[i] {
            assert(s@.take(prefix@.len() as int)[i as int] != prefix@[i as int]);
            return false;
        }
        i = i + 1;
    }
    assert(s@.take(prefix@.len() as int) =~= prefix@);
    true
}

/// `needle` occurs in `s` at `i`.
fn matches_at(s: &[char], needle: &[char], i: usize) -> (r: bool)
    requires
        i + needle@.len() <= s@.len(),
    ensures
        r == occurs_at(s@, needle@, i as int),
{
    let n = s.len();
    let mut j: usize = 0;
    while j < needle.len()
        invariant
            n == s@.len(),
            i + needle@.len() <= n,
            0 <= j <= needle@.len(),
            forall|k: int| 0 <= k < j ==> s@[i + k] == needle@[k],
        decreases needle@.len() - j,
    {
        if s[i + j] != needle[j] {
            assert(s@.subrange(i as int, i + needle@.len())[j as int] != needle@[j as int]);
            return false;
        }
        j = j + 1;
    }
    assert(s@.subrange(i as int, i + needle@.len()) =~= needle@);
    true
}

/// The first index at or after `from` at which `needle` occurs in `s`.
pub fn find_chars_from(s: &[char], needle: &[char], from: usize) -> (found: Option<usize>)
    ensures
        found matches Some(i) ==> find_from(s@, needle@, from as int) == Some(i as int),
        found is None ==> find_from(s@, needle@, from as int) is None,
{
    let mut i = from;
    loop
        invariant
            from <= i,
            find_from(s@, needle@, from as int) == find_from(s@, needle@, i as int),
        decreases s@.len() + 1 - i,
    {
        if i > s.len() || needle.len() > s.len() - i {
            return None;
        }
        if needle.len() == 0 {
            assert(s@.subrange(i as int, i as int) =~= needle@);
            return Some(i);
        }
        if matches_at(s, needle, i) {
            return Some(i);
        }
        i = i + 1;
    }
}

/// The first index at which `needle` occurs in `s`.
pub fn find_chars(s: &[char], needle: &[char]) -> (found: Option<usize>)
    ensures
        found matches Some(i) ==> find(s@, needle@) == Some(i as int),
        found is None ==> find(s@, needle@) is None,
{
    find_chars_from(s, needle, 0)
}

/// The first index of `c` in `s`.
pub fn index_of_char(s: &[char], c: char) -> (found: Option<usize>)
    ensures
        found matches Some(i) ==> index_of(s@, c) == Some(i as int),
        found is None ==> index_of(s@, c) is None,
{
    let needle = [c];
    assert(needle@ =~= seq![c]);
    find_chars(s, &needle)
}

/// `find_from` finds only an occurrence, and none before it.
pub proof fn lemma_find_from(s: Seq<char>, needle: Seq<char>, from: int)
    requires
        0 <= from,
    ensures
        find_from(s, needle, from) matches Some(i) ==> from <= i && occurs_at(s, needle, i)
            && forall|j: int| from <= j < i ==> !occurs_at(s, needle, j),
        find_from(s, needle, from) is None ==> forall|j: int|
            from <= j ==> !occurs_at(s, needle, j),
    decreases s.len() + 1 - from,
{
    if from < 0 || from + needle.len() > s.len() {
    } else if occurs_at(s, needle, from) {
    } else {
        lemma_find_from(s, needle, from + 1);
    }
}

/// The lines of `s`, as `str::lines` gives them.
pub fn split_lines(s: &[char]) -> (lines: Vec<Vec<char>>)
    ensures
        lines@.len() == lines_of(s@).len(),
        forall|i: int| 0 <= i < lines@.len() ==> #[trigger] lines@[i]@ == lines_of(s@)[i],
{
    let mut lines: Vec<Vec<char>> = Vec::new();
    let mut start: usize = 0;
    let ghost done: Seq<Seq<char>> = Seq::empty();
    assert(s@.skip(0) =~= s@);
    while start < s.len()
        invariant
            0 <= start <= s@.len(),
            done + lines_of(s@.skip(start as int)) == lines_of(s@),
            lines@.len() == done.len(),
            forall|i: int| 0 <= i < lines@.len() ==> #[trigger] lines@[i]@ == done[i],
        decreases s@.len() - start,
    {
        let ghost rest = s@.skip(start as int);
        let mut end = start;
        while end < s.len() && s[end] != '\n'
            invariant
                start <= end <= s@.len(),
                forall|k: int| start <= k < end ==> s@[k] != '\n',
            decreases s@.len() - end,
        {
            end = end + 1;
        }
        proof {
            lemma_find_from(rest, seq!['\n'], 0);
            assert forall|k: int| 0 <= k < end - start implies !occurs_at(rest, seq!['\n'], k) by {
                assert(rest.subrange(k, k + 1)[0] == s@[start + k]);
            }
        }
        if end < s.len() {
            proof {
                assert(rest.subrange(end - start, end - start + 1) =~= seq!['\n']);
                assert(occurs_at(rest, seq!['\n'], end - start));
                assert(index_of(rest, '\n') == Some(end - start));
            }
            let mut line_end = end;
            if line_end > start && s[line_end - 1] == '\r' {
                line_end = line_end - 1;
            }
            let line = copy_range(s, start, line_end);
            proof {
                assert(line@ == strip_cr(rest.take(end - start)));
                assert(rest.skip(end - start + 1) =~= s@.skip(end + 1));
                assert(lines_of(rest) == seq![strip_cr(rest.take(end - start))] + lines_of(
                    s@.skip(end + 1),
                ));
                done = done.push(line@);
                assert(done + lines_of(s@.skip(end + 1)) =~= lines_of(s@));
            }
            lines.push(line);
            start = end + 1;
        } else {
            let line = copy_range(s, start, end);
            proof {
                assert(index_of(rest, '\n') is None);
                assert(line@ =~= rest);
                assert(lines_of(rest) == seq![rest]);
                done = done.push(line@);
                assert(s@.skip(end as int) =~= Seq::<char>::empty());
                assert(lines_of(s@.skip(end as int)) =~= Seq::<Seq<char>>::empty());
                assert(done + lines_of(s@.skip(end as int)) =~= lines_of(s@));
            }
            lines.push(line);
            start = end;
        }
    }
    proof {
        assert(s@.skip(start as int) =~= Seq::<char>::empty());
        assert(done =~= lines_of(s@));
    }
    lines
}

/// The characters of `s` from `from` up to `to`.
pub fn copy_range(s: &[char], from: usize, to: usize) -> (part: Vec<char>)
    requires
        from <= to <= s@.len(),
    ensures
        part@ == s@.subrange(from as int, to as int),
{
    let mut part: Vec<char> = Vec::new();
    let mut i = from;
    while i < to
        invariant
            from <= i <= to <= s@.len(),
            part@ == s@.subrange(from as int, i as int),
        decreases to - i,
    {
        part.push(s[i]);
        i = i + 1;
        assert(part@ =~= s@.subrange(from as int, i as int));
    }
    part
}

/// `a` and `b` hold the same characters.
pub fn same_chars(a: &[char], b: &[char]) -> (r: bool)
    ensures
        r == (a@ == b@),
{
    if a.len() != b.len() {
        return false;
    }
    let mut i: usize = 0;
    while i < a.len()
        invariant
            a@.len() == b@.len(),
            0 <= i <= a@.len(),
            forall|j: int| 0 <= j < i ==> a@[j] == b@[j],
        decreases a@.len() - i,
    {
        if a[i] != b[i] {
            return false;
        }
        i = i + 1;
    }
    assert(a@ =~= b@);
    true
}

/// `s` with every `c` at either end taken off.
pub fn trim_char(s: &[char], c: char) -> (trimmed: Vec<char>)
    ensures
        trimmed@ == trim_matches_char(s@, c),
{
    let n = s.len();
    let mut a: usize = 0;
    assert(s@.skip(0) =~= s@);
    while a < n && s[a] == c
        invariant
            n == s@.len(),
            0 <= a <= n,
            trim_start_char(s@, c) == trim_start_char(s@.skip(a as int), c),
        decreases n - a,
    {
        assert(s@.skip(a as int).drop_first() =~= s@.skip(a + 1));
        a = a + 1;
    }
    let ghost front = s@.skip(a as int);
    assert(trim_start_char(front, c) == front);
    let mut b: usize = n;
    assert(front =~= s@.subrange(a as int, b as int));
    while b > a && s[b - 1] == c
        invariant
            n == s@.len(),
            a <= b <= n,
            trim_end_char(front, c) == trim_end_char(s@.subrange(a as int, b as int), c),
        decreases b,
    {
        assert(s@.subrange(a as int, b as int).drop_last() =~= s@.subrange(a as int, b - 1));
        b = b - 1;
    }
    assert(trim_end_char(s@.subrange(a as int, b as int), c) == s@.subrange(a as int, b as int));
    copy_range(s, a, b)
}

/// `c` has the Unicode White_Space property.
pub fn white_space(c: char) -> (r: bool)
    ensures
        r == is_white_space(c),
{
    let n = c as u32;
    (0x09 <= n && n <= 0x0D) || n == 0x20 || n == 0x85 || n == 0xA0 || n == 0x1680 || (0x2000
        <= n && n <= 0x200A) || n == 0x2028 || n == 0x2029 || n == 0x202F || n == 0x205F || n
        == 0x3000
}

/// `s` without the white space at either end, as `str::trim` gives it.
pub fn trim(s: &[char]) -> (trimmed: Vec<char>)
    ensures
        trimmed@ == trim_ws(s@),
{
    let n = s.len();
    let mut a: usize = 0;
    assert(s@.skip(0) =~= s@);
    while a < n && white_space(s[a])
        invariant
            n == s@.len(),
            0 <= a <= n,
            trim_start_ws(s@) == trim_start_ws(s@.skip(a as int)),
        decreases n - a,
    {
        assert(s@.skip(a as int).drop_first() =~= s@.skip(a + 1));
        a = a + 1;
    }
    let ghost front = s@.skip(a as int);
    assert(trim_start_ws(front) == front);
    let mut b: usize = n;
    assert(front =~= s@.subrange(a as int, b as int));
    while b > a && white_space(s[b - 1])
        invariant
            n == s@.len(),
            a <= b <= n,
            trim_end_ws(front) == trim_end_ws(s@.subrange(a as int, b as int)),
        decreases b,
    {
        assert(s@.subrange(a as int, b as int).drop_last() =~= s@.subrange(a as int, b - 1));
        b = b - 1;
    }
    assert(trim_end_ws(s@.subrange(a as int, b as int)) == s@.subrange(a as int, b as int));
    copy_range(s, a, b)
}

/// The number that `s` writes, as `str::parse::<u64>` reads it.
pub fn parse_decimal(s: &[char]) -> (value: Option<u64>)
    ensures
        value == parse_u64(s@),
{
    let start: usize = if s.len() > 0 && s[0] == '+' {
        1
    } else {
        0
    };
    let ghost digits = strip_plus(s@);
    assert(digits =~= s@.skip(start as int));
    if start >= s.len() {
        return None;
    }
    let mut value: u64 = 0;
    let mut i = start;
    while i < s.len()
        invariant
            start <= i <= s@.len(),
            digits == s@.skip(start as int),
            digits == strip_plus(s@),
            value == digits_value(s@.subrange(start as int, i as int)),
            forall|k: int| start <= k < i ==> is_digit(#[trigger] s@[k]),
        decreases s@.len() - i,
    {
        let c = s[i];
        if !('0' <= c && c <= '9') {
            assert(!is_digit(digits[i - start]));
            assert(!all_digits(digits));
            return None;
        }
        let d = (c as u32 - '0' as u32) as u64;
        let ghost prefix = s@.subrange(start as int, i + 1);
        assert(prefix.drop_last() =~= s@.subrange(start as int, i as int));
        assert(digits_value(prefix) == value * 10 + d);
        if value > (u64::MAX - d) / 10 {
            proof {
                assert(value * 10 + d > u64::MAX) by (nonlinear_arith)
                    requires
                        value > (u64::MAX - d) / 10,
                        d < 10,
                ;
                if all_digits(digits) {
                    assert(digits.take(i - start + 1) =~= prefix);
                    lemma_digits_value_grows(digits, (i - start + 1) as int);
                }
            }
            return None;
        }
        value = value * 10 + d;
        i = i + 1;
    }
    assert(s@.subrange(start as int, i as int) =~= digits);
    Some(value)
}

/// A number's digits write at least as much as any of their prefixes.
proof fn lemma_digits_value_grows(s: Seq<char>, k: int)
    requires
        0 <= k <= s.len(),
        all_digits(s),
    ensures
        digits_value(s.take(k)) <= digits_value(s),
    decreases s.len() - k,
{
    if k < s.len() {
        lemma_digits_value_grows(s.drop_last(), if k < s.len() { k } else { k - 1 });
        assert(s.drop_last().take(k) =~= s.take(k));
    } else {
        assert(s.take(k) =~= s);
    }
}

/// The pieces of `s` between the occurrences of `c`.
pub fn split_char(s: &[char], c: char) -> (pieces: Vec<Vec<char>>)
    ensures
        pieces@.len() == split_at_char(s@, c).len(),
        forall|i: int| 0 <= i < pieces@.len() ==> #[trigger] pieces@[i]@ == split_at_char(s@, c)[i],
{
    let mut pieces: Vec<Vec<char>> = Vec::new();
    let mut start: usize = 0;
    let ghost done: Seq<Seq<char>> = Seq::empty();
    assert(s@.skip(0) =~= s@);
    loop
        invariant
            0 <= start <= s@.len(),
            done + split_at_char(s@.skip(start as int), c) == split_at_char(s@, c),
            pieces@.len() == done.len(),
            forall|i: int| 0 <= i < pieces@.len() ==> #[trigger] pieces@[i]@ == done[i],
        decreases s@.len() - start,
    {
        let ghost rest = s@.skip(start as int);
        let mut end = start;
        while end < s.len() && s[end] != c
            invariant
                start <= end <= s@.len(),
                forall|k: int| start <= k < end ==> s@[k] != c,
            decreases s@.len() - end,
        {
            end = end + 1;
        }
        proof {
            lemma_find_from(rest, seq![c], 0);
            assert forall|k: int| 0 <= k < end - start implies !occurs_at(rest, seq![c], k) by {
                assert(rest.subrange(k, k + 1)[0] == s@[start + k]);
            }
        }
        let piece = copy_range(s, start, end);
        if end < s.len() {
            proof {
                assert(rest.subrange(end - start, end - start + 1) =~= seq![c]);
                assert(occurs_at(rest, seq![c], end - start));
                assert(index_of(rest, c) == Some(end - start));
                assert(rest.skip(end - start + 1) =~= s@.skip(end + 1));
                assert(piece@ =~= rest.take(end - start));
                done = done.push(piece@);
                assert(done + split_at_char(s@.skip(end + 1), c) =~= split_at_char(s@, c));
            }
            pieces.push(piece);
            start = end + 1;
        } else {
            proof {
                assert(index_of(rest, c) is None);
                assert(piece@ =~= rest);
                done = done.push(piece@);
                assert(done =~= split_at_char(s@, c));
            }
            pieces.push(piece);
            return pieces;
        }
    }
}

/// A character found in `p` is found at the same place in `p + q`.
pub proof fn lemma_find_char_in_prefix(p: Seq<char>, q: Seq<char>, c: char, from: int)
    requires
        0 <= from,
        find_from(p, seq![c], from) is Some,
    ensures
        find_from(p + q, seq![c], from) == find_from(p, seq![c], from),
    decreases p.len() + 1 - from,
{
    let n = seq![c];
    assert(from + 1 <= p.len());
    if occurs_at(p, n, from) {
        assert((p + q).subrange(from, from + 1) =~= p.subrange(from, from + 1));
    } else {
        assert((p + q).subrange(from, from + 1) =~= p.subrange(from, from + 1));
        lemma_find_char_in_prefix(p, q, c, from + 1);
    }
}

/// No character of `s` is `c`.
pub open spec fn lacks(s: Seq<char>, c: char) -> bool {
    forall|i: int| 0 <= i < s.len() ==> s[i] != c
}

/// A character that `p` lacks is first found in `p + q` where `q` first
/// has it, shifted by the length of `p`.
pub proof fn lemma_find_char_after_prefix(p: Seq<char>, q: Seq<char>, c: char, from: int)
    requires
        0 <= from <= p.len(),
        lacks(p, c),
    ensures
        find_from(p + q, seq![c], from) == match find_from(q, seq![c], 0) {
            Some(i) => Some(i + p.len()),
            None => None,
        },
    decreases p.len() + q.len() + 1 - from,
{
    let n = seq![c];
    if from < p.len() {
        assert((p + q).subrange(from, from + 1)[0] == p[from]);
        assert(!occurs_at(p + q, n, from));
        lemma_find_char_after_prefix(p, q, c, from + 1);
    } else {
        lemma_find_char_shifted(p, q, c, 0);
    }
}

/// Searching `p + q` from an index past `p` searches `q`.
proof fn lemma_find_char_shifted(p: Seq<char>, q: Seq<char>, c: char, j: int)
    requires
        0 <= j,
    ensures
        find_from(p + q, seq![c], p.len() + j) == match find_from(q, seq![c], j) {
            Some(i) => Some(i + p.len()),
            None => None,
        },
    decreases q.len() + 1 - j,
{
    let n = seq![c];
    if j + 1 <= q.len() {
        assert((p + q).subrange(p.len() + j, p.len() + j + 1) =~= q.subrange(j, j + 1));
        if !occurs_at(q, n, j) {
            lemma_find_char_shifted(p, q, c, j + 1);
        }
    }
}

/// The lines of text made of `p`, which is empty or ends a line, and then
/// `q`, are those of `p` and then those of `q`.
pub proof fn lemma_lines_of_concat(p: Seq<char>, q: Seq<char>)
    requires
        p.len() == 0 || p.last() == '\n',
    ensures
        lines_of(p + q) == lines_of(p) + lines_of(q),
    decreases p.len(),
{
    if p.len() == 0 {
        assert(p + q =~= q);
        assert(lines_of(p) =~= Seq::<Seq<char>>::empty());
        assert(lines_of(p) + lines_of(q) =~= lines_of(q));
    } else {
        let n = seq!['\n'];
        assert(p.subrange(p.len() - 1, p.len() as int) =~= n);
        assert(occurs_at(p, n, p.len() - 1));
        lemma_find_from(p, n, 0);
        assert(find_from(p, n, 0) is Some);
        lemma_find_char_in_prefix(p, q, '\n', 0);
        let i = find_from(p, n, 0)->0;
        assert((p + q).take(i) =~= p.take(i));
        assert((p + q).skip(i + 1) =~= p.skip(i + 1) + q);
        let rest = p.skip(i + 1);
        assert(rest.len() == 0 || rest.last() == '\n');
        lemma_lines_of_concat(rest, q);
        assert(lines_of(p + q) == seq![strip_cr(p.take(i))] + lines_of(rest + q));
        assert(lines_of(p) == seq![strip_cr(p.take(i))] + lines_of(rest));
        assert(lines_of(p + q) =~= lines_of(p) + lines_of(q));
    }
}

/// A line without a newline, then either nothing or a newline and more
/// text: the first line is `line` (without a final `\r`), and the rest are
/// the lines of what follows the newline.
pub proof fn lemma_lines_of_first_line(line: Seq<char>, rest: Seq<char>)
    requires
        line.len() > 0,
        lacks(line, '\n'),
        rest.len() == 0 || rest[0] == '\n',
    ensures
        rest.len() > 0 ==> lines_of(line + rest) == seq![strip_cr(line)] + lines_of(rest.skip(1)),
        rest.len() == 0 ==> lines_of(line + rest) == seq![line],
{
    let n = seq!['\n'];
    lemma_find_char_after_prefix(line, rest, '\n', 0);
    if rest.len() == 0 {
        assert(line + rest =~= line);
        lemma_find_from(rest, n, 0);
        assert(find_from(rest, n, 0) is None);
    } else {
        assert(rest.subrange(0, 1) =~= n);
        assert(find_from(rest, n, 0) == Some(0int));
        assert((line + rest).take(line.len() as int) =~= line);
        assert((line + rest).skip(line.len() as int + 1) =~= rest.skip(1));
    }
}

} // verus!
