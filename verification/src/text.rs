//! Text as sequences of characters: the small vocabulary of splitting,
//! trimming and number reading that the rest of the crate is written in.

use vstd::prelude::*;

verus! {

/// `String::push` of the standard library appends the character to the
/// string; nothing is proved of it here.
pub assume_specification[ String::push ](s: &mut String, c: char)
    ensures
        final(s)@ == old(s)@.push(c),
;

/// The views of a sequence of character vectors.
pub open spec fn views(v: Seq<Vec<char>>) -> Seq<Seq<char>> {
    Seq::new(v.len(), |i: int| v[i]@)
}

/// The views of a sequence of strings.
pub open spec fn texts(v: Seq<String>) -> Seq<Seq<char>> {
    Seq::new(v.len(), |i: int| v[i]@)
}

/// The characters of `s`, in order.
pub fn to_chars(s: &str) -> (v: Vec<char>)
    ensures
        v@ == s@,
{
    let mut v: Vec<char> = Vec::new();
    for c in it: s.chars()
        invariant
            v@ == s@.take(it.index() as int),
            it.seq() == s@,
    {
        v.push(c);
    }
    v
}

/// A string holding the characters `v[from..to]`.
pub fn from_chars(v: &Vec<char>, from: usize, to: usize) -> (s: String)
    requires
        from <= to <= v.len(),
    ensures
        s@ == v@.subrange(from as int, to as int),
{
    let mut s = String::new();
    let mut i: usize = from;
    while i < to
        invariant
            from <= i <= to <= v.len(),
            s@ == v@.subrange(from as int, i as int),
        decreases to - i,
    {
        s.push(v[i]);
        i += 1;
    }
    s
}

/// A string holding all of `v`.
pub fn to_string(v: &Vec<char>) -> (s: String)
    ensures
        s@ == v@,
{
    let s = from_chars(v, 0, v.len());
    assert(v@.subrange(0, v.len() as int) =~= v@);
    s
}

/// Whether two texts hold the same characters.
pub fn same_text(a: &str, b: &str) -> (r: bool)
    ensures
        r == (a@ == b@),
{
    let x = to_chars(a);
    let y = to_chars(b);
    assert(x@.subrange(0, x.len() as int) =~= x@);
    same_chars(&x, 0, x.len(), &y)
}

/// Whether `a[from..to]` holds exactly the characters of `b`.
pub fn same_chars(a: &Vec<char>, from: usize, to: usize, b: &Vec<char>) -> (r: bool)
    requires
        from <= to <= a.len(),
    ensures
        r == (a@.subrange(from as int, to as int) == b@),
{
    if to - from != b.len() {
        return false;
    }
    let mut i: usize = 0;
    while i < b.len()
        invariant
            from <= to <= a.len(),
            to - from == b.len(),
            i <= b.len(),
            forall|k: int| 0 <= k < i ==> a@[from + k] == b@[k],
        decreases b.len() - i,
    {
        if a[from + i] != b[i] {
            assert(a@.subrange(from as int, to as int)[i as int] != b@[i as int]);
            return false;
        }
        i += 1;
    }
    assert(a@.subrange(from as int, to as int) =~= b@);
    true
}

/// The pieces of `s` between occurrences of `sep`: one more piece than there
/// are separators, so the empty text has one empty piece.
pub open spec fn split_on(s: Seq<char>, sep: char) -> Seq<Seq<char>>
    decreases s.len(),
{
    if s.len() == 0 {
        seq![Seq::empty()]
    } else {
        let before = split_on(s.drop_last(), sep);
        if s.last() == sep {
            before.push(Seq::empty())
        } else {
            before.update(before.len() - 1, before.last().push(s.last()))
        }
    }
}

/// `pieces` joined by `sep`.
pub open spec fn join_with(pieces: Seq<Seq<char>>, sep: char) -> Seq<char>
    decreases pieces.len(),
{
    if pieces.len() == 0 {
        Seq::empty()
    } else if pieces.len() == 1 {
        pieces[0]
    } else {
        join_with(pieces.drop_last(), sep).push(sep) + pieces.last()
    }
}

/// Splitting yields at least one piece, no piece holds the separator, and
/// joining the pieces by the separator gives the text back.
pub proof fn lemma_split_on(s: Seq<char>, sep: char)
    ensures
        split_on(s, sep).len() >= 1,
        forall|i: int| 0 <= i < split_on(s, sep).len() ==> !(#[trigger] split_on(s, sep)[i]).contains(sep),
        join_with(split_on(s, sep), sep) == s,
    decreases s.len(),
{
    if s.len() == 0 {
        assert(join_with(split_on(s, sep), sep) =~= s);
    } else {
        let before = split_on(s.drop_last(), sep);
        lemma_split_on(s.drop_last(), sep);
        let now = split_on(s, sep);
        if s.last() == sep {
            assert(now.drop_last() =~= before);
            assert(join_with(now, sep) =~= s);
        } else {
            let grown = before.last().push(s.last());
            assert forall|i: int| 0 <= i < now.len() implies !(#[trigger] now[i]).contains(sep) by {
                if i == now.len() - 1 {
                    if grown.contains(sep) {
                        let k = choose|k: int| 0 <= k < grown.len() && grown[k] == sep;
                        assert(before.last()[k] == sep);
                        assert(before.last().contains(sep));
                    }
                } else {
                    assert(now[i] == before[i]);
                }
            }
            if before.len() == 1 {
                assert(s =~= s.drop_last().push(s.last()));
                assert(join_with(before, sep) == before[0]);
                assert(before.last() == before[0]);
                assert(now.len() == 1);
                assert(now[0] == grown);
                assert(join_with(now, sep) == now[0]);
            } else {
                assert(now.drop_last() =~= before.drop_last());
                let head = join_with(before.drop_last(), sep).push(sep);
                assert(join_with(before, sep) == head + before.last());
                assert(join_with(now, sep) == head + grown);
                assert(head + grown =~= (head + before.last()).push(s.last()));
                assert(s =~= s.drop_last().push(s.last()));
            }
        }
    }
}

/// `v` split at each occurrence of `sep`.
pub fn split(v: &Vec<char>, sep: char) -> (pieces: Vec<Vec<char>>)
    ensures
        views(pieces@) == split_on(v@, sep),
{
    let mut pieces: Vec<Vec<char>> = Vec::new();
    let mut piece: Vec<char> = Vec::new();
    let mut i: usize = 0;
    while i < v.len()
        invariant
            i <= v.len(),
            views(pieces@).push(piece@) == split_on(v@.take(i as int), sep),
        decreases v.len() - i,
    {
        let c = v[i];
        proof {
            assert(v@.take(i + 1).drop_last() =~= v@.take(i as int));
        }
        let ghost before = views(pieces@).push(piece@);
        if c == sep {
            pieces.push(piece);
            piece = Vec::new();
            assert(views(pieces@) =~= before);
        } else {
            piece.push(c);
            assert(views(pieces@).push(piece@) =~= before.update(
                before.len() - 1,
                before.last().push(c),
            ));
        }
        i += 1;
    }
    proof {
        assert(v@.take(v.len() as int) =~= v@);
    }
    let ghost before = views(pieces@).push(piece@);
    pieces.push(piece);
    assert(views(pieces@) =~= before);
    pieces
}

/// Index of the first character at or after `i` that is not `c`, scanning
/// backwards from `n`: the length of `s[..n]` without its trailing `c`s.
pub open spec fn trimmed_len(s: Seq<char>, c: char, n: int) -> int
    decreases n,
{
    if 0 < n <= s.len() && s[n - 1] == c {
        trimmed_len(s, c, n - 1)
    } else {
        n
    }
}

/// `s` without the run of `c` at its end.
pub open spec fn trim_end(s: Seq<char>, c: char) -> Seq<char> {
    s.take(trimmed_len(s, c, s.len() as int))
}

/// The length of `v` without the run of `c` at its end.
pub fn trim_end_len(v: &Vec<char>, c: char) -> (n: usize)
    ensures
        n == trimmed_len(v@, c, v.len() as int),
        n <= v.len(),
        trim_end(v@, c) == v@.take(n as int),
{
    let mut n: usize = v.len();
    while n > 0 && v[n - 1] == c
        invariant
            n <= v.len(),
            trimmed_len(v@, c, v.len() as int) == trimmed_len(v@, c, n as int),
        decreases n,
    {
        n -= 1;
    }
    n
}

/// Whether `c` is one of the ASCII digits.
pub open spec fn is_digit(c: char) -> bool {
    '0' <= c <= '9'
}

/// The number that the digit `c` stands for.
pub open spec fn digit_value(c: char) -> nat {
    (c as int - '0' as int) as nat
}

/// Whether every character of `s` is an ASCII digit.
pub open spec fn all_digits(s: Seq<char>) -> bool {
    forall|i: int| 0 <= i < s.len() ==> is_digit(#[trigger] s[i])
}

/// The number that a run of digits writes in base ten; 0 for the empty run.
pub open spec fn decimal_value(s: Seq<char>) -> nat
    decreases s.len(),
{
    if s.len() == 0 {
        0
    } else {
        decimal_value(s.drop_last()) * 10 + digit_value(s.last())
    }
}

/// The number that `s` writes as an unsigned integer: an optional plus sign,
/// then one or more ASCII digits. `None` for any other text.
pub open spec fn unsigned_value(s: Seq<char>) -> Option<nat> {
    let digits = if s.len() > 0 && s[0] == '+' {
        s.skip(1)
    } else {
        s
    };
    if digits.len() > 0 && all_digits(digits) {
        Some(decimal_value(digits))
    } else {
        None
    }
}

/// `unsigned_value`, where the number is at most `max`.
pub open spec fn unsigned_within(s: Seq<char>, max: nat) -> Option<nat> {
    match unsigned_value(s) {
        Some(n) => if n <= max {
            Some(n)
        } else {
            None
        },
        None => None,
    }
}

/// A run of digits is worth at least as much as any run it begins with.
pub proof fn lemma_decimal_value_grows(s: Seq<char>, k: int)
    requires
        0 <= k <= s.len(),
    ensures
        decimal_value(s.take(k)) <= decimal_value(s),
    decreases s.len(),
{
    if k == s.len() {
        assert(s.take(k) =~= s);
    } else {
        lemma_decimal_value_grows(s.drop_last(), k);
        assert(s.drop_last().take(k) =~= s.take(k));
    }
}

/// Whether `c` is an ASCII digit.
pub fn digit(c: char) -> (r: bool)
    ensures
        r == is_digit(c),
{
    '0' <= c && c <= '9'
}

/// Reads `v[from..to]` as an unsigned integer that fits a `usize`.
pub fn parse_usize(v: &Vec<char>, from: usize, to: usize) -> (r: Option<usize>)
    requires
        from <= to <= v.len(),
    ensures
        r matches Some(n) ==> unsigned_within(v@.subrange(from as int, to as int), usize::MAX as nat)
            == Some(n as nat),
        r is None ==> unsigned_within(v@.subrange(from as int, to as int), usize::MAX as nat)
            is None,
{
    let ghost s = v@.subrange(from as int, to as int);
    let start: usize = if from < to && v[from] == '+' {
        from + 1
    } else {
        from
    };
    let ghost digits = v@.subrange(start as int, to as int);
    proof {
        if from < to && v[from as int] == '+' {
            assert(s[0] == '+');
            assert(s.skip(1) =~= digits);
        } else {
            if s.len() > 0 {
                assert(s[0] == v[from as int]);
            }
            assert(s =~= digits);
        }
    }
    if start == to {
        return None;
    }
    let mut n: usize = 0;
    let mut i: usize = start;
    while i < to
        invariant
            from <= start <= i <= to <= v.len(),
            start < to,
            s == v@.subrange(from as int, to as int),
            digits == v@.subrange(start as int, to as int),
            digits == if s.len() > 0 && s[0] == '+' {
                s.skip(1)
            } else {
                s
            },
            all_digits(digits.take(i - start)),
            n == decimal_value(digits.take(i - start)),
        decreases to - i,
    {
        let c = v[i];
        let ghost upto = digits.take(i + 1 - start);
        proof {
            assert(digits[i - start] == c);
            assert(upto.drop_last() =~= digits.take(i - start));
            assert(upto.last() == c);
        }
        if !digit(c) {
            return None;
        }
        let d: usize = (c as u32 - '0' as u32) as usize;
        assert(d == digit_value(c));
        let tens = match n.checked_mul(10) {
            Some(t) => t,
            None => {
                proof {
                    lemma_decimal_value_grows(digits, i + 1 - start);
                }
                return None;
            },
        };
        let sum = match tens.checked_add(d) {
            Some(t) => t,
            None => {
                proof {
                    lemma_decimal_value_grows(digits, i + 1 - start);
                }
                return None;
            },
        };
        n = sum;
        proof {
            assert forall|k: int| 0 <= k < upto.len() implies is_digit(#[trigger] upto[k]) by {
                if k < i - start {
                    assert(digits.take(i - start)[k] == upto[k]);
                }
            }
        }
        i += 1;
    }
    proof {
        assert(digits.take(to - start) =~= digits);
    }
    Some(n)
}

/// The digit that writes `d`, for `d` below ten.
pub open spec fn digit_char(d: nat) -> char {
    (d + '0' as nat) as char
}

/// `n` written in base ten, without leading zeros.
pub open spec fn decimal(n: nat) -> Seq<char>
    decreases n,
{
    if n < 10 {
        seq![digit_char(n)]
    } else {
        decimal(n / 10).push(digit_char(n % 10))
    }
}

/// Reading what `decimal` wrote gives the number back.
pub proof fn lemma_decimal_round_trip(n: nat)
    ensures
        decimal(n).len() >= 1,
        all_digits(decimal(n)),
        decimal_value(decimal(n)) == n,
        unsigned_value(decimal(n)) == Some(n),
    decreases n,
{
    let d = decimal(n);
    if n < 10 {
        assert(d.drop_last() =~= Seq::<char>::empty());
        assert(decimal_value(d.drop_last()) == 0);
        assert(digit_value(d.last()) == n);
    } else {
        lemma_decimal_round_trip(n / 10);
        assert(d.drop_last() =~= decimal(n / 10));
        assert(digit_value(d.last()) == n % 10);
        assert forall|i: int| 0 <= i < d.len() implies is_digit(#[trigger] d[i]) by {
            if i < d.len() - 1 {
                assert(d[i] == decimal(n / 10)[i]);
            }
        }
    }
    assert(d[0] != '+');
}

/// Appends `n`, written in base ten, to `s`.
pub fn push_decimal(s: &mut String, n: usize)
    ensures
        final(s)@ == old(s)@ + decimal(n as nat),
    decreases n,
{
    if n >= 10 {
        push_decimal(s, n / 10);
    }
    let d: u8 = (n % 10) as u8;
    let c: char = ('0' as u8 + d) as char;
    assert(c == digit_char((n % 10) as nat));
    s.push(c);
    proof {
        if n < 10 {
            assert(final(s)@ =~= old(s)@ + decimal(n as nat));
        } else {
            assert(final(s)@ =~= old(s)@ + decimal(n as nat));
        }
    }
}

/// Appends `c` to `s`.
pub fn push_char(s: &mut String, c: char)
    ensures
        final(s)@ == old(s)@.push(c),
{
    s.push(c);
}

/// Appends the characters of `t` to `s`.
pub fn push_chars(s: &mut String, t: &Vec<char>)
    ensures
        final(s)@ == old(s)@ + t@,
{
    let mut i: usize = 0;
    while i < t.len()
        invariant
            i <= t.len(),
            s@ == old(s)@ + t@.take(i as int),
        decreases t.len() - i,
    {
        s.push(t[i]);
        assert(t@.take(i + 1) =~= t@.take(i as int).push(t@[i as int]));
        i += 1;
    }
    assert(t@.take(t.len() as int) =~= t@);
}

/// Appends the text `t` to `s`.
pub fn push_text(s: &mut String, t: &str)
    ensures
        final(s)@ == old(s)@ + t@,
{
    let v = to_chars(t);
    push_chars(s, &v);
}

/// Whether `c` is white space: the characters with Unicode's `White_Space`
/// property.
pub open spec fn is_whitespace(c: char) -> bool {
    let n = c as u32;
    ||| 0x09 <= n <= 0x0d
    ||| n == 0x20
    ||| n == 0x85
    ||| n == 0xa0
    ||| n == 0x1680
    ||| 0x2000 <= n <= 0x200a
    ||| n == 0x2028
    ||| n == 0x2029
    ||| n == 0x202f
    ||| n == 0x205f
    ||| n == 0x3000
}

/// Whether `c` is white space.
pub fn whitespace(c: char) -> (r: bool)
    ensures
        r == is_whitespace(c),
{
    let n: u32 = c as u32;
    (0x09 <= n && n <= 0x0d) || n == 0x20 || n == 0x85 || n == 0xa0 || n == 0x1680 || (0x2000 <= n
        && n <= 0x200a) || n == 0x2028 || n == 0x2029 || n == 0x202f || n == 0x205f || n == 0x3000
}

/// The first index at or after `i` whose character is not white space, or
/// the length of `s` if there is none.
pub open spec fn skip_whitespace(s: Seq<char>, i: int) -> int
    decreases s.len() - i,
{
    if 0 <= i < s.len() && is_whitespace(s[i]) {
        skip_whitespace(s, i + 1)
    } else {
        i
    }
}

/// The first index at or after `i` whose character is white space, or the
/// length of `s` if there is none.
pub open spec fn skip_word(s: Seq<char>, i: int) -> int
    decreases s.len() - i,
{
    if 0 <= i < s.len() && !is_whitespace(s[i]) {
        skip_word(s, i + 1)
    } else {
        i
    }
}

/// The first run of characters of `s` that are not white space; empty if
/// `s` holds nothing but white space.
pub open spec fn first_word(s: Seq<char>) -> Seq<char> {
    let start = skip_whitespace(s, 0);
    s.subrange(start, skip_word(s, start))
}

/// Where the first word of `v` begins and ends.
pub fn first_word_bounds(v: &Vec<char>) -> (r: (usize, usize))
    ensures
        r.0 <= r.1 <= v.len(),
        r.0 == skip_whitespace(v@, 0),
        r.1 == skip_word(v@, r.0 as int),
        first_word(v@) == v@.subrange(r.0 as int, r.1 as int),
{
    let mut start: usize = 0;
    while start < v.len() && whitespace(v[start])
        invariant
            start <= v.len(),
            skip_whitespace(v@, 0) == skip_whitespace(v@, start as int),
        decreases v.len() - start,
    {
        start += 1;
    }
    let mut end: usize = start;
    while end < v.len() && !whitespace(v[end])
        invariant
            start <= end <= v.len(),
            skip_word(v@, start as int) == skip_word(v@, end as int),
        decreases v.len() - end,
    {
        end += 1;
    }
    (start, end)
}

/// Whether `s` begins with `p`.
pub open spec fn starts_with(s: Seq<char>, p: Seq<char>) -> bool {
    p.len() <= s.len() && s.take(p.len() as int) == p
}

/// Whether `v` begins with `p`.
pub fn has_prefix(v: &Vec<char>, p: &Vec<char>) -> (r: bool)
    ensures
        r == starts_with(v@, p@),
{
    if p.len() > v.len() {
        return false;
    }
    let r = same_chars(v, 0, p.len(), p);
    assert(v@.take(p.len() as int) =~= v@.subrange(0, p.len() as int));
    r
}

/// Whether `c` occurs in `v`.
pub fn has_char(v: &Vec<char>, c: char) -> (r: bool)
    ensures
        r == v@.contains(c),
{
    let mut i: usize = 0;
    while i < v.len()
        invariant
            i <= v.len(),
            forall|k: int| 0 <= k < i ==> v@[k] != c,
        decreases v.len() - i,
    {
        if v[i] == c {
            return true;
        }
        i += 1;
    }
    false
}

/// The first index at or after `i` at which `c` stands in `s`, or the
/// length of `s` if there is none.
pub open spec fn index_of(s: Seq<char>, c: char, i: int) -> int
    decreases s.len() - i,
{
    if 0 <= i < s.len() && s[i] != c {
        index_of(s, c, i + 1)
    } else {
        i
    }
}

/// The first index at or after `from` at which `c` stands in `v`, or the
/// length of `v`.
pub fn find_char(v: &Vec<char>, c: char, from: usize) -> (r: usize)
    requires
        from <= v.len(),
    ensures
        from <= r <= v.len(),
        r == index_of(v@, c, from as int),
        forall|k: int| from <= k < r ==> v@[k] != c,
        r < v.len() ==> v@[r as int] == c,
{
    let mut i: usize = from;
    while i < v.len() && v[i] != c
        invariant
            from <= i <= v.len(),
            index_of(v@, c, from as int) == index_of(v@, c, i as int),
            forall|k: int| from <= k < i ==> v@[k] != c,
        decreases v.len() - i,
    {
        i += 1;
    }
    i
}

/// A string with the characters of `t`.
pub fn string_of(t: &str) -> (r: String)
    ensures
        r@ == t@,
{
    let mut r = String::new();
    push_text(&mut r, t);
    assert(r@ =~= t@);
    r
}

/// `n` blanks.
pub open spec fn blanks(n: nat) -> Seq<char> {
    Seq::new(n, |i: int| ' ')
}

/// The texts of `pieces`, with `sep` between them.
pub fn join(pieces: &Vec<String>, sep: char) -> (r: String)
    ensures
        r@ == join_with(texts(pieces@), sep),
{
    let mut r = String::new();
    let mut i: usize = 0;
    while i < pieces.len()
        invariant
            i <= pieces.len(),
            r@ == join_with(texts(pieces@).take(i as int), sep),
        decreases pieces.len() - i,
    {
        let ghost before = texts(pieces@).take(i as int);
        let ghost now = texts(pieces@).take(i + 1);
        if i > 0 {
            r.push(sep);
        }
        push_text(&mut r, pieces[i].as_str());
        proof {
            assert(now.drop_last() =~= before);
            assert(now.last() == pieces[i as int]@);
            if i == 0 {
                assert(r@ =~= now[0]);
            }
        }
        i += 1;
    }
    assert(texts(pieces@).take(pieces.len() as int) =~= texts(pieces@));
    r
}

/// The length of `s[..n]` without the white space at its end.
pub open spec fn trimmed_end(s: Seq<char>, n: int) -> int
    decreases n,
{
    if 0 < n <= s.len() && is_whitespace(s[n - 1]) {
        trimmed_end(s, n - 1)
    } else {
        n
    }
}

/// `s` without the white space at its two ends.
pub open spec fn trimmed(s: Seq<char>) -> Seq<char> {
    let end = trimmed_end(s, s.len() as int);
    let start = skip_whitespace(s.take(end), 0);
    s.subrange(start, end)
}

/// Where `v` without the white space at its two ends begins and ends.
pub fn trim_bounds(v: &Vec<char>) -> (r: (usize, usize))
    ensures
        r.0 <= r.1 <= v.len(),
        trimmed(v@) == v@.subrange(r.0 as int, r.1 as int),
{
    let mut end: usize = v.len();
    while end > 0 && whitespace(v[end - 1])
        invariant
            end <= v.len(),
            trimmed_end(v@, v.len() as int) == trimmed_end(v@, end as int),
        decreases end,
    {
        end -= 1;
    }
    let ghost kept = v@.take(end as int);
    let mut start: usize = 0;
    while start < end && whitespace(v[start])
        invariant
            start <= end <= v.len(),
            kept == v@.take(end as int),
            skip_whitespace(kept, 0) == skip_whitespace(kept, start as int),
        decreases end - start,
    {
        assert(kept[start as int] == v@[start as int]);
        start += 1;
    }
    proof {
        if start < end {
            assert(kept[start as int] == v@[start as int]);
        }
    }
    (start, end)
}

/// The first index at or after `i` at which the text `p` stands in `s`, or
/// the length of `s` if it stands nowhere from there on.
pub open spec fn find_text(s: Seq<char>, p: Seq<char>, i: int) -> int
    decreases s.len() - i,
{
    if i < 0 || i >= s.len() || i + p.len() > s.len() {
        s.len() as int
    } else if s.subrange(i, i + p.len()) == p {
        i
    } else {
        find_text(s, p, i + 1)
    }
}

/// The first index at or after `from` at which `p` stands in `v[..to]`, or
/// `to`.
pub fn find_sub(v: &Vec<char>, from: usize, to: usize, p: &Vec<char>) -> (r: usize)
    requires
        from <= to <= v.len(),
    ensures
        from <= r <= to,
        r == find_text(v@.take(to as int), p@, from as int),
{
    let ghost s = v@.take(to as int);
    let mut i: usize = from;
    while i < to && p.len() <= to - i
        invariant
            from <= i <= to <= v.len(),
            s == v@.take(to as int),
            find_text(s, p@, from as int) == find_text(s, p@, i as int),
        decreases to - i,
    {
        assert(s.subrange(i as int, i + p.len()) =~= v@.subrange(i as int, i + p.len()));
        if same_chars(v, i, i + p.len(), p) {
            return i;
        }
        i += 1;
    }
    to
}

} // verus!
