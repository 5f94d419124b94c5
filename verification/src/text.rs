//! Character-level text operations over `str`, with exact contracts over `Seq<char>`.

use vstd::prelude::*;

verus! {

/// `String::push` appends one character at the end of the string.
pub assume_specification[ String::push ](s: &mut String, c: char)
    ensures
        final(s)@ == old(s)@.push(c),
;

/// The characters with the Unicode `White_Space` property.
pub open spec fn is_white(c: char) -> bool {
    let n = c as u32;
    ||| 0x9 <= n <= 0xd
    ||| n == 0x20
    ||| n == 0x85
    ||| n == 0xa0
    ||| n == 0x1680
    ||| 0x2000 <= n <= 0x200a
    ||| n == 0x2028
    ||| n == 0x2029
    ||| n == 0x202f
    ||| n == 0x205f
    ||| n == 0x3000
}

/// Whether `c` has the Unicode `White_Space` property.
pub fn is_whitespace(c: char) -> (r: bool)
    ensures
        r == is_white(c),
{
    let n: u32 = c as u32;
    (0x9 <= n && n <= 0xd) || n == 0x20 || n == 0x85 || n == 0xa0 || n == 0x1680 || (0x2000 <= n && n
        <= 0x200a) || n == 0x2028 || n == 0x2029 || n == 0x202f || n == 0x205f || n == 0x3000
}

/// The characters of the Unicode category `Cc`.
pub open spec fn is_control_spec(c: char) -> bool {
    let n = c as u32;
    n <= 0x1f || 0x7f <= n <= 0x9f
}

/// Whether `c` is a control character.
pub fn is_control(c: char) -> (r: bool)
    ensures
        r == is_control_spec(c),
{
    let n: u32 = c as u32;
    n <= 0x1f || (0x7f <= n && n <= 0x9f)
}

/// The characters of `s`, in order.
pub fn chars_of(s: &str) -> (r: Vec<char>)
    ensures
        r@ == s@,
{
    let mut r: Vec<char> = Vec::new();
    for c in it: s.chars()
        invariant
            r@ == it.seq().take(it.index() as int),
            it.seq() == s@,
    {
        r.push(c);
        assert(r@ == it.seq().take(it.index() + 1));
    }
    assert(s@.take(s@.len() as int) == s@);
    r
}

/// The string with the characters `chars[from..to]`.
pub fn string_of(chars: &Vec<char>, from: usize, to: usize) -> (r: String)
    requires
        from <= to <= chars@.len(),
    ensures
        r@ == chars@.subrange(from as int, to as int),
{
    let mut r: String = String::new();
    let mut i: usize = from;
    while i < to
        invariant
            from <= i <= to <= chars@.len(),
            r@ == chars@.subrange(from as int, i as int),
        decreases to - i,
    {
        r.push(chars[i]);
        i = i + 1;
    }
    r
}

/// Whether two strings hold the same characters.
pub fn same(a: &str, b: &str) -> (r: bool)
    ensures
        r == (a@ == b@),
{
    let x: Vec<char> = chars_of(a);
    let y: Vec<char> = chars_of(b);
    if x.len() != y.len() {
        return false;
    }
    let mut i: usize = 0;
    while i < x.len()
        invariant
            x@.len() == y@.len(),
            i <= x@.len(),
            x@ == a@,
            y@ == b@,
            forall|k: int| 0 <= k < i ==> x@[k] == y@[k],
        decreases x@.len() - i,
    {
        if x[i] != y[i] {
            return false;
        }
        i = i + 1;
    }
    assert(a@ == b@);
    true
}

/// `s` without the white space at its start.
pub open spec fn trim_start_spec(s: Seq<char>) -> Seq<char>
    decreases s.len(),
{
    if s.len() > 0 && is_white(s[0]) {
        trim_start_spec(s.drop_first())
    } else {
        s
    }
}

/// `s` without the white space at its end.
pub open spec fn trim_end_spec(s: Seq<char>) -> Seq<char>
    decreases s.len(),
{
    if s.len() > 0 && is_white(s.last()) {
        trim_end_spec(s.drop_last())
    } else {
        s
    }
}

/// `s` without the white space at its two ends.
pub open spec fn trim_spec(s: Seq<char>) -> Seq<char> {
    trim_end_spec(trim_start_spec(s))
}

/// What trimming leaves is a contiguous part of `s`.
proof fn lemma_trim_start_is_suffix(s: Seq<char>)
    ensures
        trim_start_spec(s).len() <= s.len(),
        trim_start_spec(s) == s.subrange(s.len() - trim_start_spec(s).len(), s.len() as int),
    decreases s.len(),
{
    if s.len() > 0 && is_white(s[0]) {
        lemma_trim_start_is_suffix(s.drop_first());
    }
    assert(trim_start_spec(s) =~= s.subrange(s.len() - trim_start_spec(s).len(), s.len() as int));
}

proof fn lemma_trim_end_is_prefix(s: Seq<char>)
    ensures
        trim_end_spec(s).len() <= s.len(),
        trim_end_spec(s) == s.take(trim_end_spec(s).len() as int),
    decreases s.len(),
{
    if s.len() > 0 && is_white(s.last()) {
        lemma_trim_end_is_prefix(s.drop_last());
    }
    assert(trim_end_spec(s) =~= s.take(trim_end_spec(s).len() as int));
}

/// What remains after trimming has no white space at either end.
pub proof fn lemma_trim_ends(s: Seq<char>)
    ensures
        trim_spec(s).len() > 0 ==> !is_white(trim_spec(s)[0]) && !is_white(trim_spec(s).last()),
        trim_spec(s).len() <= s.len(),
{
    lemma_trim_start_first(s);
    let t = trim_start_spec(s);
    lemma_trim_start_is_suffix(s);
    lemma_trim_end_is_prefix(t);
    lemma_trim_end_last(t);
}

proof fn lemma_trim_start_first(s: Seq<char>)
    ensures
        trim_start_spec(s).len() > 0 ==> !is_white(trim_start_spec(s)[0]),
    decreases s.len(),
{
    if s.len() > 0 && is_white(s[0]) {
        lemma_trim_start_first(s.drop_first());
    }
}

proof fn lemma_trim_end_last(s: Seq<char>)
    ensures
        trim_end_spec(s).len() > 0 ==> !is_white(trim_end_spec(s).last()),
    decreases s.len(),
{
    if s.len() > 0 && is_white(s.last()) {
        lemma_trim_end_last(s.drop_last());
    }
}

/// Trimming a second time changes nothing.
pub proof fn lemma_trim_idempotent(s: Seq<char>)
    ensures
        trim_spec(trim_spec(s)) == trim_spec(s),
{
    lemma_trim_ends(s);
}

proof fn lemma_trim_start_behind(before: Seq<char>, s: Seq<char>)
    requires
        forall|i: int| 0 <= i < before.len() ==> is_white(#[trigger] before[i]),
    ensures
        trim_start_spec(before + s) == trim_start_spec(s),
    decreases before.len(),
{
    if before.len() > 0 {
        let rest = before.drop_first();
        assert forall|i: int| 0 <= i < rest.len() implies is_white(#[trigger] rest[i]) by {
            assert(rest[i] == before[i + 1]);
        }
        lemma_trim_start_behind(rest, s);
        assert(is_white(before[0]));
        assert((before + s)[0] == before[0]);
        assert((before + s).drop_first() =~= rest + s);
    } else {
        assert(before + s =~= s);
    }
}

proof fn lemma_trim_end_before(s: Seq<char>, after: Seq<char>)
    requires
        forall|i: int| 0 <= i < after.len() ==> is_white(#[trigger] after[i]),
    ensures
        trim_end_spec(s + after) == trim_end_spec(s),
    decreases after.len(),
{
    if after.len() > 0 {
        let rest = after.drop_last();
        assert forall|i: int| 0 <= i < rest.len() implies is_white(#[trigger] rest[i]) by {
            assert(rest[i] == after[i]);
        }
        lemma_trim_end_before(s, rest);
        assert(is_white(after[after.len() - 1]));
        assert((s + after).last() == after.last());
        assert((s + after).drop_last() =~= s + rest);
    } else {
        assert(s + after =~= s);
    }
}

proof fn lemma_trim_start_of_front(s: Seq<char>, after: Seq<char>)
    requires
        forall|i: int| 0 <= i < after.len() ==> is_white(#[trigger] after[i]),
    ensures
        trim_start_spec(s + after) == (if trim_start_spec(s).len() > 0 {
            trim_start_spec(s) + after
        } else {
            Seq::empty()
        }),
    decreases s.len(),
{
    if s.len() == 0 {
        let none = Seq::<char>::empty();
        lemma_trim_start_behind(after, none);
        assert(s + after =~= after + none);
        assert(trim_start_spec(none) =~= none);
    } else if is_white(s[0]) {
        lemma_trim_start_of_front(s.drop_first(), after);
        assert((s + after)[0] == s[0]);
        assert((s + after).drop_first() =~= s.drop_first() + after);
    } else {
        assert((s + after)[0] == s[0]);
    }
}

/// White space around a text goes with trimming.
pub proof fn lemma_trim_around(before: Seq<char>, s: Seq<char>, after: Seq<char>)
    requires
        forall|i: int| 0 <= i < before.len() ==> is_white(#[trigger] before[i]),
        forall|i: int| 0 <= i < after.len() ==> is_white(#[trigger] after[i]),
    ensures
        trim_spec(before + s + after) == trim_spec(s),
{
    assert(before + s + after =~= before + (s + after));
    lemma_trim_start_behind(before, s + after);
    lemma_trim_start_of_front(s, after);
    let t = trim_start_spec(s);
    if t.len() > 0 {
        lemma_trim_end_before(t, after);
    } else {
        assert(t =~= Seq::<char>::empty());
    }
}

/// `s` without the white space at its two ends.
pub fn trim<'a>(s: &'a str) -> (r: &'a str)
    ensures
        r@ == trim_spec(s@),
{
    let c: Vec<char> = chars_of(s);
    let mut from: usize = 0;
    assert(s@.skip(0) =~= s@);
    while from < c.len() && is_whitespace(c[from])
        invariant
            from <= c@.len(),
            c@ == s@,
            trim_start_spec(s@) == trim_start_spec(s@.skip(from as int)),
        decreases c@.len() - from,
    {
        assert(s@.skip(from as int).drop_first() =~= s@.skip(from + 1));
        from = from + 1;
    }
    let ghost t = s@.skip(from as int);
    assert(trim_start_spec(s@) == t);
    let mut to: usize = c.len();
    assert(t.take(t.len() as int) =~= t);
    while from < to && is_whitespace(c[to - 1])
        invariant
            from <= to <= c@.len(),
            c@ == s@,
            t == s@.skip(from as int),
            trim_end_spec(t) == trim_end_spec(t.take(to - from)),
        decreases to,
    {
        assert(t.take(to - from).drop_last() =~= t.take(to - from - 1));
        to = to - 1;
    }
    assert(trim_end_spec(t) == t.take(to - from));
    assert(t.take(to - from) =~= s@.subrange(from as int, to as int));
    s.substring_char(from, to)
}

/// Whether `s` begins with `p`.
pub fn starts_with(s: &str, p: &str) -> (r: bool)
    ensures
        r == p@.is_prefix_of(s@),
{
    let n: usize = p.unicode_len();
    if s.unicode_len() < n {
        false
    } else {
        same(s.substring_char(0, n), p)
    }
}

/// Whether `s` ends with `p`.
pub fn ends_with(s: &str, p: &str) -> (r: bool)
    ensures
        r == p@.is_suffix_of(s@),
{
    let n: usize = p.unicode_len();
    let m: usize = s.unicode_len();
    if m < n {
        false
    } else {
        same(s.substring_char(m - n, m), p)
    }
}

/// What follows `p` in `s`, where `s` begins with `p`.
pub fn strip_prefix<'a>(s: &'a str, p: &str) -> (r: Option<&'a str>)
    ensures
        match r {
            Some(t) => s@ == p@ + t@,
            None => !p@.is_prefix_of(s@),
        },
{
    if starts_with(s, p) {
        let t: &'a str = s.substring_char(p.unicode_len(), s.unicode_len());
        assert(s@ =~= p@ + t@);
        Some(t)
    } else {
        None
    }
}

/// What precedes `p` in `s`, where `s` ends with `p`.
pub fn strip_suffix<'a>(s: &'a str, p: &str) -> (r: Option<&'a str>)
    ensures
        match r {
            Some(t) => s@ == t@ + p@,
            None => !p@.is_suffix_of(s@),
        },
{
    if ends_with(s, p) {
        let t: &'a str = s.substring_char(0, s.unicode_len() - p.unicode_len());
        assert(s@ =~= t@ + p@);
        Some(t)
    } else {
        None
    }
}

/// The position of the first `c` in `s`.
pub fn find_char(s: &str, c: char) -> (r: Option<usize>)
    ensures
        match r {
            Some(i) => i < s@.len() && s@[i as int] == c && !s@.take(i as int).contains(c),
            None => !s@.contains(c),
        },
{
    let x: Vec<char> = chars_of(s);
    let mut i: usize = 0;
    while i < x.len()
        invariant
            i <= x@.len(),
            x@ == s@,
            forall|k: int| 0 <= k < i ==> x@[k] != c,
        decreases x@.len() - i,
    {
        if x[i] == c {
            return Some(i);
        }
        i = i + 1;
    }
    None
}

/// The two parts of `s` around the first `c`.
pub fn split_once<'a>(s: &'a str, c: char) -> (r: Option<(&'a str, &'a str)>)
    ensures
        match r {
            Some((a, b)) => s@ == a@ + seq![c] + b@ && !a@.contains(c),
            None => !s@.contains(c),
        },
{
    match find_char(s, c) {
        Some(i) => {
            let n: usize = s.unicode_len();
            let a: &'a str = s.substring_char(0, i);
            let b: &'a str = s.substring_char(i + 1, n);
            assert(s@ =~= a@ + seq![c] + b@);
            assert(a@ =~= s@.take(i as int));
            Some((a, b))
        },
        None => None,
    }
}

/// Whether `part` occurs in `s` as a contiguous part.
pub open spec fn occurs_in(part: Seq<char>, s: Seq<char>) -> bool {
    exists|i: int| #[trigger] occurs_at(part, s, i)
}

/// Whether `part` stands in `s` from position `i` on.
pub open spec fn occurs_at(part: Seq<char>, s: Seq<char>, i: int) -> bool {
    0 <= i && i + part.len() <= s.len() && s.subrange(i, i + part.len()) == part
}

/// Whether `part` occurs in `s`.
pub fn contains_str(s: &str, part: &str) -> (r: bool)
    ensures
        r == occurs_in(part@, s@),
{
    let n: usize = part.unicode_len();
    let m: usize = s.unicode_len();
    if m < n {
        return false;
    }
    let mut i: usize = 0;
    while i <= m - n
        invariant
            n == part@.len(),
            m == s@.len(),
            n <= m,
            i <= m - n + 1,
            forall|k: int| 0 <= k < i ==> !#[trigger] occurs_at(part@, s@, k),
        decreases m - n + 1 - i,
    {
        if same(s.substring_char(i, i + n), part) {
            assert(occurs_at(part@, s@, i as int));
            return true;
        }
        if i == m - n {
            assert(forall|k: int| !#[trigger] occurs_at(part@, s@, k));
            return false;
        }
        i = i + 1;
    }
    false
}

/// The character of a decimal digit.
pub open spec fn digit_char(d: nat) -> char
    recommends
        d < 10,
{
    ((0x30 + d) as u8) as char
}

/// `n` in decimal, without leading zeros.
pub open spec fn decimal(n: nat) -> Seq<char>
    decreases n,
{
    if n < 10 {
        seq![digit_char(n)]
    } else {
        decimal(n / 10).push(digit_char(n % 10))
    }
}

/// `n` in decimal, without leading zeros.
pub fn decimal_of(n: u128) -> (r: String)
    ensures
        r@ == decimal(n as nat),
    decreases n,
{
    let mut r: String = if n < 10 {
        String::new()
    } else {
        decimal_of(n / 10)
    };
    let d: u8 = 0x30 + (n % 10) as u8;
    r.push(d as char);
    assert(r@ =~= decimal(n as nat));
    r
}

/// The value of a decimal digit.
pub open spec fn digit_value(c: char) -> nat {
    (c as u32 - 0x30) as nat
}

pub open spec fn is_digit(c: char) -> bool {
    0x30 <= c as u32 <= 0x39
}

/// The number that a row of decimal digits writes.
pub open spec fn digits_value(s: Seq<char>) -> nat
    decreases s.len(),
{
    if s.len() == 0 {
        0
    } else {
        digits_value(s.drop_last()) * 10 + digit_value(s.last())
    }
}

/// The digits of a number text: all of it but one leading `+`.
pub open spec fn number_digits(s: Seq<char>) -> Seq<char> {
    if s.len() > 0 && s[0] == '+' {
        s.skip(1)
    } else {
        s
    }
}

/// The number that `s` writes: decimal digits, at least one, after at most one `+`.
pub open spec fn number_value(s: Seq<char>) -> Option<nat> {
    let d = number_digits(s);
    if d.len() > 0 && (forall|i: int| 0 <= i < d.len() ==> is_digit(#[trigger] d[i])) {
        Some(digits_value(d))
    } else {
        None
    }
}

/// The `u32` that `s` writes in decimal, `None` where it writes none.
pub fn parse_u32(s: &str) -> (r: Option<u32>)
    ensures
        match number_value(s@) {
            Some(n) => if n <= u32::MAX {
                r == Some(n as u32)
            } else {
                r is None
            },
            None => r is None,
        },
{
    let x: Vec<char> = chars_of(s);
    let from: usize = if x.len() > 0 && x[0] == '+' {
        1
    } else {
        0
    };
    let ghost d = number_digits(s@);
    assert(d =~= s@.skip(from as int));
    if from == x.len() {
        return None;
    }
    let mut i: usize = from;
    let mut v: u32 = 0;
    let mut fits: bool = true;
    assert(d.take(0) =~= Seq::<char>::empty());
    while i < x.len()
        invariant
            from <= i <= x@.len(),
            from <= 1,
            x@ == s@,
            d == s@.skip(from as int),
            d == number_digits(s@),
            forall|k: int| 0 <= k < i - from ==> is_digit(#[trigger] d[k]),
            fits ==> v == digits_value(d.take(i - from)),
            !fits ==> digits_value(d.take(i - from)) > u32::MAX,
        decreases x@.len() - i,
    {
        let c: char = x[i];
        let n: u32 = c as u32;
        if n < 0x30 || n > 0x39 {
            assert(!is_digit(d[i - from]));
            return None;
        }
        assert(d.take(i - from + 1).drop_last() =~= d.take(i - from));
        assert(d.take(i - from + 1).last() == c);
        let ghost sofar = digits_value(d.take(i - from));
        assert(digits_value(d.take(i - from + 1)) == sofar * 10 + (n - 0x30));
        if fits {
            let wide: u64 = (v as u64) * 10 + (n - 0x30) as u64;
            if wide <= 0xffff_ffff {
                v = wide as u32;
            } else {
                fits = false;
            }
        }
        i = i + 1;
    }
    assert(d.take(i - from) =~= d);
    if fits {
        Some(v)
    } else {
        None
    }
}

/// The strings of `parts` in a row, with `sep` between each two.
pub open spec fn join_spec(parts: Seq<Seq<char>>, sep: Seq<char>) -> Seq<char>
    decreases parts.len(),
{
    if parts.len() == 0 {
        Seq::empty()
    } else if parts.len() == 1 {
        parts[0]
    } else {
        join_spec(parts.drop_last(), sep) + sep + parts.last()
    }
}

/// The strings of `parts` in a row, with `sep` between each two.
pub fn join(parts: &Vec<String>, sep: &str) -> (r: String)
    ensures
        r@ == join_spec(parts.deep_view(), sep@),
{
    let mut r: String = String::new();
    let mut i: usize = 0;
    assert(parts.deep_view().take(0) =~= Seq::<Seq<char>>::empty());
    while i < parts.len()
        invariant
            i <= parts@.len(),
            r@ == join_spec(parts.deep_view().take(i as int), sep@),
        decreases parts@.len() - i,
    {
        let ghost before = parts.deep_view().take(i as int);
        let ghost after = parts.deep_view().take(i + 1);
        assert(after.drop_last() =~= before);
        assert(after.last() == parts@[i as int]@);
        if i > 0 {
            r.append(sep);
        }
        r.append(parts[i].as_str());
        assert(r@ =~= join_spec(after, sep@));
        i = i + 1;
    }
    assert(parts.deep_view().take(i as int) =~= parts.deep_view());
    r
}

/// A copy of a list of strings.
pub fn clone_strings(v: &Vec<String>) -> (r: Vec<String>)
    ensures
        r@ == v@,
{
    let mut r: Vec<String> = Vec::new();
    let mut i: usize = 0;
    while i < v.len()
        invariant
            i <= v@.len(),
            r@ == v@.take(i as int),
        decreases v@.len() - i,
    {
        r.push(v[i].clone());
        i = i + 1;
    }
    r
}

/// A copy of an optional string.
pub fn clone_option(o: &Option<String>) -> (r: Option<String>)
    ensures
        r == *o,
{
    match o {
        Some(s) => Some(s.clone()),
        None => None,
    }
}

/// What follows the last `c` in `s`; all of `s` where it holds none.
pub open spec fn after_last_spec(s: Seq<char>, c: char) -> Seq<char>
    decreases s.len(),
{
    if s.len() == 0 || s.last() == c {
        Seq::empty()
    } else {
        after_last_spec(s.drop_last(), c).push(s.last())
    }
}

/// What follows the last `c` in `s`; all of `s` where it holds none.
pub fn after_last<'a>(s: &'a str, c: char) -> (r: &'a str)
    ensures
        r@ == after_last_spec(s@, c),
{
    let x: Vec<char> = chars_of(s);
    let n: usize = x.len();
    let mut i: usize = n;
    assert(s@.take(n as int) =~= s@);
    while i > 0 && x[i - 1] != c
        invariant
            i <= n == x@.len(),
            x@ == s@,
            after_last_spec(s@, c) =~= after_last_spec(s@.take(i as int), c) + s@.skip(i as int),
        decreases i,
    {
        assert(s@.take(i as int).drop_last() =~= s@.take(i - 1));
        assert(s@.take(i as int).last() == s@[i - 1]);
        i = i - 1;
    }
    assert(after_last_spec(s@.take(i as int), c) =~= Seq::<char>::empty());
    s.substring_char(i, n)
}

/// The part of `s` before the first of the two characters.
pub open spec fn before_either_spec(s: Seq<char>, a: char, b: char) -> Seq<char>
    decreases s.len(),
{
    if s.len() == 0 || s[0] == a || s[0] == b {
        Seq::empty()
    } else {
        seq![s[0]] + before_either_spec(s.drop_first(), a, b)
    }
}

/// The part of `s` before the first of the two characters; all of `s` where it holds neither.
pub fn before_either<'a>(s: &'a str, a: char, b: char) -> (r: &'a str)
    ensures
        r@ == before_either_spec(s@, a, b),
{
    let x: Vec<char> = chars_of(s);
    let mut i: usize = 0;
    assert(s@.skip(0) =~= s@);
    while i < x.len() && x[i] != a && x[i] != b
        invariant
            i <= x@.len(),
            x@ == s@,
            before_either_spec(s@, a, b) =~= s@.take(i as int) + before_either_spec(
                s@.skip(i as int),
                a,
                b,
            ),
        decreases x@.len() - i,
    {
        assert(s@.skip(i as int).drop_first() =~= s@.skip(i + 1));
        assert(s@.skip(i as int)[0] == s@[i as int]);
        i = i + 1;
    }
    assert(before_either_spec(s@.skip(i as int), a, b) =~= Seq::<char>::empty());
    s.substring_char(0, i)
}

/// Reading back a number written in decimal gives the number.
pub proof fn lemma_decimal_value(n: nat)
    ensures
        digits_value(decimal(n)) == n,
        decimal(n).len() > 0,
        forall|i: int| 0 <= i < decimal(n).len() ==> is_digit(#[trigger] decimal(n)[i]),
    decreases n,
{
    let s = decimal(n);
    if n < 10 {
        assert(s.drop_last() =~= Seq::<char>::empty());
        assert(digits_value(s.drop_last()) == 0);
        assert(s.last() == digit_char(n));
    } else {
        lemma_decimal_value(n / 10);
        assert(s.drop_last() =~= decimal(n / 10));
        assert(s.last() == digit_char(n % 10));
    }
}

/// Two numbers with the same decimal text are the same.
pub proof fn lemma_decimal_injective(a: nat, b: nat)
    requires
        decimal(a) == decimal(b),
    ensures
        a == b,
{
    lemma_decimal_value(a);
    lemma_decimal_value(b);
}

/// A text is split at its first `c` in one way only.
pub proof fn lemma_first_split_unique(
    a: Seq<char>,
    x: Seq<char>,
    b: Seq<char>,
    y: Seq<char>,
    c: char,
)
    requires
        a + seq![c] + x == b + seq![c] + y,
        !a.contains(c),
        !b.contains(c),
    ensures
        a == b,
        x == y,
{
    let s = a + seq![c] + x;
    let t = b + seq![c] + y;
    assert(s == t);
    assert(s[a.len() as int] == c);
    assert(t[b.len() as int] == c);
    if a.len() < b.len() {
        assert(t[a.len() as int] == b[a.len() as int]);
        assert(b.contains(c));
    } else if b.len() < a.len() {
        assert(s[b.len() as int] == a[b.len() as int]);
        assert(a.contains(c));
    }
    assert(a =~= s.take(a.len() as int));
    assert(b =~= t.take(a.len() as int));
    assert(x =~= s.skip((a.len() + 1) as int));
    assert(y =~= t.skip((a.len() + 1) as int));
}

/// A text is split at its last `c` in one way only.
pub proof fn lemma_last_split_unique(
    a: Seq<char>,
    x: Seq<char>,
    b: Seq<char>,
    y: Seq<char>,
    c: char,
)
    requires
        a + seq![c] + x == b + seq![c] + y,
        !x.contains(c),
        !y.contains(c),
    ensures
        a == b,
        x == y,
{
    let s = a + seq![c] + x;
    let t = b + seq![c] + y;
    assert(s == t);
    assert(s[a.len() as int] == c);
    assert(t[b.len() as int] == c);
    let k = a.len() as int;
    let l = b.len() as int;
    assert(s.len() == k + 1 + x.len());
    assert(t.len() == l + 1 + y.len());
    if k < l {
        assert(s[l] == (a + seq![c] + x)[l]);
        assert(x[l - k - 1] == c);
    } else if l < k {
        assert(t[k] == (b + seq![c] + y)[k]);
        assert(y[k - l - 1] == c);
    }
    assert(a =~= s.take(a.len() as int));
    assert(b =~= t.take(a.len() as int));
    assert(x =~= s.skip((a.len() + 1) as int));
    assert(y =~= t.skip((a.len() + 1) as int));
}

/// Whether none of the parts holds `c`.
pub open spec fn free_of(parts: Seq<Seq<char>>, c: char) -> bool {
    forall|i: int| 0 <= i < parts.len() ==> !(#[trigger] parts[i]).contains(c)
}

/// Parts without the separator can be told from their joined text.
pub proof fn lemma_join_injective(a: Seq<Seq<char>>, b: Seq<Seq<char>>, c: char)
    requires
        a.len() > 0,
        b.len() > 0,
        free_of(a, c),
        free_of(b, c),
        join_spec(a, seq![c]) == join_spec(b, seq![c]),
    ensures
        a == b,
    decreases a.len(),
{
    let x = join_spec(a, seq![c]);
    if a.len() == 1 && b.len() == 1 {
        assert(a =~= b);
    } else if a.len() == 1 {
        let front = join_spec(b.drop_last(), seq![c]);
        assert(x == a[0]);
        assert(x[front.len() as int] == c);
    } else if b.len() == 1 {
        let front = join_spec(a.drop_last(), seq![c]);
        assert(x == b[0]);
        assert(x[front.len() as int] == c);
    } else {
        let p = join_spec(a.drop_last(), seq![c]);
        let q = join_spec(b.drop_last(), seq![c]);
        assert(a.last() == a[a.len() - 1]);
        assert(b.last() == b[b.len() - 1]);
        lemma_last_split_unique(p, a.last(), q, b.last(), c);
        assert(free_of(a.drop_last(), c)) by {
            assert forall|i: int| 0 <= i < a.len() - 1 implies !(
            #[trigger] a.drop_last()[i]).contains(c) by {
                assert(a.drop_last()[i] == a[i]);
            }
        }
        assert(free_of(b.drop_last(), c)) by {
            assert forall|i: int| 0 <= i < b.len() - 1 implies !(
            #[trigger] b.drop_last()[i]).contains(c) by {
                assert(b.drop_last()[i] == b[i]);
            }
        }
        lemma_join_injective(a.drop_last(), b.drop_last(), c);
        assert(a =~= a.drop_last().push(a.last()));
        assert(b =~= b.drop_last().push(b.last()));
    }
}

/// Whether `a` comes before `b` in the order of their characters.
pub open spec fn lex_lt(a: Seq<char>, b: Seq<char>) -> bool
    decreases a.len(),
{
    if b.len() == 0 {
        false
    } else if a.len() == 0 {
        true
    } else if a[0] != b[0] {
        (a[0] as u32) < (b[0] as u32)
    } else {
        lex_lt(a.drop_first(), b.drop_first())
    }
}

/// Whether `a` comes before `b` in the order of their characters.
pub fn comes_before(a: &str, b: &str) -> (r: bool)
    ensures
        r == lex_lt(a@, b@),
{
    let x: Vec<char> = chars_of(a);
    let y: Vec<char> = chars_of(b);
    let mut i: usize = 0;
    assert(a@.skip(0) =~= a@);
    assert(b@.skip(0) =~= b@);
    while i < x.len() && i < y.len()
        invariant
            i <= x@.len(),
            i <= y@.len(),
            x@ == a@,
            y@ == b@,
            lex_lt(a@, b@) == lex_lt(a@.skip(i as int), b@.skip(i as int)),
        decreases x@.len() - i,
    {
        if x[i] != y[i] {
            return (x[i] as u32) < (y[i] as u32);
        }
        assert(a@.skip(i as int).drop_first() =~= a@.skip(i + 1));
        assert(b@.skip(i as int).drop_first() =~= b@.skip(i + 1));
        i = i + 1;
    }
    i < y.len()
}

/// Different characters have different codes.
proof fn lemma_char_code(x: char, y: char)
    ensures
        x != y ==> x as u32 != y as u32,
{
}

/// Of two different texts exactly one comes before the other.
pub proof fn lemma_lex_total(a: Seq<char>, b: Seq<char>)
    ensures
        a == b ==> !lex_lt(a, b) && !lex_lt(b, a),
        a != b ==> (lex_lt(a, b) <==> !lex_lt(b, a)),
    decreases a.len(),
{
    if a.len() == 0 || b.len() == 0 {
        if a.len() == b.len() {
            assert(a =~= b);
        }
    } else if a[0] == b[0] {
        lemma_lex_total(a.drop_first(), b.drop_first());
        assert(a =~= seq![a[0]] + a.drop_first());
        assert(b =~= seq![b[0]] + b.drop_first());
    } else {
        lemma_char_code(a[0], b[0]);
    }
}

/// The order of texts is transitive.
pub proof fn lemma_lex_transitive(a: Seq<char>, b: Seq<char>, c: Seq<char>)
    requires
        lex_lt(a, b),
        lex_lt(b, c),
    ensures
        lex_lt(a, c),
    decreases a.len(),
{
    if a.len() > 0 && a[0] == b[0] && b[0] == c[0] {
        lemma_lex_transitive(a.drop_first(), b.drop_first(), c.drop_first());
    }
}

/// The position of the first `c` in `s`, the length of `s` where it holds none.
pub open spec fn first_index(s: Seq<char>, c: char) -> int
    decreases s.len(),
{
    if s.len() == 0 || s[0] == c {
        0
    } else {
        1 + first_index(s.drop_first(), c)
    }
}

/// The first `c` is where no earlier one is.
pub proof fn lemma_first_index(s: Seq<char>, c: char, i: int)
    requires
        0 <= i <= s.len(),
        forall|k: int| 0 <= k < i ==> s[k] != c,
        i < s.len() ==> s[i] == c,
    ensures
        first_index(s, c) == i,
    decreases s.len(),
{
    if s.len() > 0 && i > 0 {
        let t = s.drop_first();
        assert forall|k: int| 0 <= k < i - 1 implies t[k] != c by {
            assert(t[k] == s[k + 1]);
        }
        assert(s[0] != c);
        lemma_first_index(t, c, i - 1);
    }
}

/// A line without the carriage return before its end.
pub open spec fn chomp(line: Seq<char>) -> Seq<char> {
    if line.len() > 0 && line.last() == '\r' {
        line.drop_last()
    } else {
        line
    }
}

/// The lines of a text. A line ends in a line feed, or in a carriage return and a line feed; what
/// follows the last line feed is a line unless it is empty.
pub open spec fn lines_of(s: Seq<char>) -> Seq<Seq<char>>
    decreases s.len(),
{
    if s.len() == 0 {
        Seq::empty()
    } else {
        let i = first_index(s, '\n');
        if 0 <= i < s.len() {
            seq![chomp(s.take(i))] + lines_of(s.skip(i + 1))
        } else {
            seq![s]
        }
    }
}

/// The lines of a text.
pub fn lines(s: &str) -> (r: Vec<String>)
    ensures
        r.deep_view() == lines_of(s@),
{
    let x: Vec<char> = chars_of(s);
    let n: usize = x.len();
    let mut r: Vec<String> = Vec::new();
    let mut from: usize = 0;
    assert(x@.skip(0) =~= s@);
    assert(r.deep_view() =~= Seq::<Seq<char>>::empty());
    while from < n
        invariant
            from <= n == x@.len(),
            x@ == s@,
            lines_of(s@) =~= r.deep_view() + lines_of(x@.skip(from as int)),
        decreases n - from,
    {
        let ghost rest = x@.skip(from as int);
        let ghost before = r.deep_view();
        let mut i: usize = from;
        while i < n && x[i] != '\n'
            invariant
                from <= i <= n == x@.len(),
                rest == x@.skip(from as int),
                forall|k: int| 0 <= k < i - from ==> rest[k] != '\n',
            decreases n - i,
        {
            assert(rest[i - from] == x@[i as int]);
            i = i + 1;
        }
        proof {
            if i < n {
                assert(rest[i - from] == '\n');
            }
            lemma_first_index(rest, '\n', i - from);
        }
        if i < n {
            let to: usize = if i > from && x[i - 1] == '\r' {
                i - 1
            } else {
                i
            };
            let line: String = string_of(&x, from, to);
            assert(line@ =~= chomp(rest.take(i - from)));
            assert(rest.skip(i - from + 1) =~= x@.skip(i + 1));
            r.push(line);
            assert(r.deep_view() =~= before.push(line@));
            from = i + 1;
        } else {
            let line: String = string_of(&x, from, n);
            assert(line@ =~= rest);
            r.push(line);
            assert(r.deep_view() =~= before.push(line@));
            assert(x@.skip(n as int) =~= Seq::<char>::empty());
            from = n;
        }
    }
    assert(x@.skip(from as int) =~= Seq::<char>::empty());
    r
}

/// A letter or a digit of ASCII.
pub open spec fn is_alnum_spec(c: char) -> bool {
    let n = c as u32;
    0x30 <= n <= 0x39 || 0x41 <= n <= 0x5a || 0x61 <= n <= 0x7a
}

/// Whether `c` is a letter or a digit of ASCII.
pub fn is_alnum(c: char) -> (r: bool)
    ensures
        r == is_alnum_spec(c),
{
    let n: u32 = c as u32;
    (0x30 <= n && n <= 0x39) || (0x41 <= n && n <= 0x5a) || (0x61 <= n && n <= 0x7a)
}

/// The small letter of a capital ASCII letter; any other character itself.
pub open spec fn lower_spec(c: char) -> char {
    if 0x41 <= c as u32 <= 0x5a {
        (c as u8 + 0x20) as u8 as char
    } else {
        c
    }
}

/// The small letter of a capital ASCII letter; any other character itself.
fn lower(c: char) -> (r: char)
    ensures
        r == lower_spec(c),
{
    let n: u32 = c as u32;
    if 0x41 <= n && n <= 0x5a {
        (c as u8 + 0x20) as char
    } else {
        c
    }
}

/// `s` with its ASCII letters in lower case.
pub fn ascii_lowercase(s: &str) -> (r: String)
    ensures
        r@ == s@.map_values(|c: char| lower_spec(c)),
{
    let mut r: String = String::new();
    let x: Vec<char> = chars_of(s);
    let mut i: usize = 0;
    while i < x.len()
        invariant
            i <= x@.len(),
            x@ == s@,
            r@ == s@.take(i as int).map_values(|c: char| lower_spec(c)),
        decreases x@.len() - i,
    {
        r.push(lower(x[i]));
        i = i + 1;
        assert(r@ =~= s@.take(i as int).map_values(|c: char| lower_spec(c)));
    }
    assert(s@.take(i as int) =~= s@);
    r
}

/// `s` with every `from` replaced by `to`.
pub open spec fn replace_spec(s: Seq<char>, from: char, to: Seq<char>) -> Seq<char>
    decreases s.len(),
{
    if s.len() == 0 {
        Seq::empty()
    } else if s.last() == from {
        replace_spec(s.drop_last(), from, to) + to
    } else {
        replace_spec(s.drop_last(), from, to).push(s.last())
    }
}

/// `s` with every `from` replaced by `to`.
pub fn replace_char(s: &str, from: char, to: &str) -> (r: String)
    ensures
        r@ == replace_spec(s@, from, to@),
{
    let mut r: String = String::new();
    let x: Vec<char> = chars_of(s);
    let mut i: usize = 0;
    while i < x.len()
        invariant
            i <= x@.len(),
            x@ == s@,
            r@ == replace_spec(s@.take(i as int), from, to@),
        decreases x@.len() - i,
    {
        assert(s@.take(i + 1).drop_last() =~= s@.take(i as int));
        if x[i] == from {
            r.append(to);
        } else {
            r.push(x[i]);
        }
        i = i + 1;
    }
    assert(s@.take(i as int) =~= s@);
    r
}

/// `s` without the characters `c` at its start.
pub open spec fn trim_start_matches_spec(s: Seq<char>, c: char) -> Seq<char>
    decreases s.len(),
{
    if s.len() > 0 && s[0] == c {
        trim_start_matches_spec(s.drop_first(), c)
    } else {
        s
    }
}

/// `s` without the characters `c` at its end.
pub open spec fn trim_end_matches_spec(s: Seq<char>, c: char) -> Seq<char>
    decreases s.len(),
{
    if s.len() > 0 && s.last() == c {
        trim_end_matches_spec(s.drop_last(), c)
    } else {
        s
    }
}

/// `s` without the characters `c` at its start.
pub fn trim_start_matches<'a>(s: &'a str, c: char) -> (r: &'a str)
    ensures
        r@ == trim_start_matches_spec(s@, c),
{
    let x: Vec<char> = chars_of(s);
    let n: usize = x.len();
    let mut i: usize = 0;
    assert(s@.skip(0) =~= s@);
    while i < n && x[i] == c
        invariant
            i <= n == x@.len(),
            x@ == s@,
            trim_start_matches_spec(s@, c) == trim_start_matches_spec(s@.skip(i as int), c),
        decreases n - i,
    {
        assert(s@.skip(i as int).drop_first() =~= s@.skip(i + 1));
        i = i + 1;
    }
    assert(s@.skip(i as int) =~= s@.subrange(i as int, n as int));
    s.substring_char(i, n)
}

/// `s` without the characters `c` at its end.
pub fn trim_end_matches<'a>(s: &'a str, c: char) -> (r: &'a str)
    ensures
        r@ == trim_end_matches_spec(s@, c),
{
    let x: Vec<char> = chars_of(s);
    let mut n: usize = x.len();
    assert(s@.take(n as int) =~= s@);
    while n > 0 && x[n - 1] == c
        invariant
            n <= x@.len(),
            x@ == s@,
            trim_end_matches_spec(s@, c) == trim_end_matches_spec(s@.take(n as int), c),
        decreases n,
    {
        assert(s@.take(n as int).drop_last() =~= s@.take(n - 1));
        n = n - 1;
    }
    assert(s@.take(n as int) =~= s@.subrange(0, n as int));
    s.substring_char(0, n)
}

/// The first `n` characters of `s`.
pub open spec fn take_spec(s: Seq<char>, n: int) -> Seq<char> {
    if s.len() <= n {
        s
    } else {
        s.take(n)
    }
}

/// The first `n` characters of `s`; all of it where it is shorter.
pub fn take_chars<'a>(s: &'a str, n: usize) -> (r: &'a str)
    ensures
        r@ == take_spec(s@, n as int),
{
    let m: usize = s.unicode_len();
    if m <= n {
        s
    } else {
        s.substring_char(0, n)
    }
}

/// The character of a hexadecimal digit.
pub open spec fn hex_char(d: nat) -> char
    recommends
        d < 16,
{
    if d < 10 {
        ((0x30 + d) as u8) as char
    } else {
        ((0x57 + d) as u8) as char
    }
}

/// The last `width` hexadecimal digits of `n`.
pub open spec fn hex_spec(n: nat, width: nat) -> Seq<char>
    decreases width,
{
    if width == 0 {
        Seq::empty()
    } else {
        hex_spec(n / 16, (width - 1) as nat).push(hex_char(n % 16))
    }
}

/// The last `width` hexadecimal digits of `n`.
pub fn hex_of(n: u64, width: u32) -> (r: String)
    ensures
        r@ == hex_spec(n as nat, width as nat),
    decreases width,
{
    if width == 0 {
        return String::new();
    }
    let mut r: String = hex_of(n / 16, width - 1);
    let d: u8 = (n % 16) as u8;
    let c: u8 = if d < 10 {
        0x30 + d
    } else {
        0x57 + d
    };
    r.push(c as char);
    r
}

/// Decimal digits are ASCII, and a number below a power of ten has as many as its exponent.
pub proof fn lemma_decimal_len(n: nat, bound: nat, width: nat)
    requires
        n < bound,
        bound == vstd::arithmetic::power::pow(10, width),
        width >= 1,
    ensures
        decimal(n).len() <= width,
    decreases width,
{
    vstd::arithmetic::power::lemma_pow1(10);
    if n >= 10 {
        if width == 1 {
            assert(bound == 10);
        }
        let less = vstd::arithmetic::power::pow(10, (width - 1) as nat);
        vstd::arithmetic::power::lemma_pow_adds(10, 1, (width - 1) as nat);
        assert(bound == 10 * less);
        lemma_decimal_len(n / 10, less as nat, (width - 1) as nat);
    }
}

/// Hexadecimal text has the asked width and holds no letter behind `f`.
pub proof fn lemma_hex(n: nat, width: nat)
    ensures
        hex_spec(n, width).len() == width,
        forall|i: int|
            0 <= i < width ==> {
                let c = #[trigger] hex_spec(n, width)[i] as u32;
                0x30 <= c <= 0x39 || 0x61 <= c <= 0x66
            },
    decreases width,
{
    if width > 0 {
        lemma_hex(n / 16, (width - 1) as nat);
        let front = hex_spec(n / 16, (width - 1) as nat);
        assert forall|i: int| 0 <= i < width implies {
            let c = #[trigger] hex_spec(n, width)[i] as u32;
            0x30 <= c <= 0x39 || 0x61 <= c <= 0x66
        } by {
            if i < width - 1 {
                assert(hex_spec(n, width)[i] == front[i]);
            }
        }
    }
}

/// `s` without its last character.
pub fn without_last(s: &str) -> (r: String)
    ensures
        r@ == (if s@.len() == 0 {
            s@
        } else {
            s@.drop_last()
        }),
{
    let n: usize = s.unicode_len();
    if n == 0 {
        return String::new();
    }
    s.substring_char(0, n - 1).to_owned()
}

} // verus!
