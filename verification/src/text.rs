//! Character, byte and decimal helpers shared by the rest of the crate.

use vstd::prelude::*;
use vstd::string::*;

verus! {

/// Appends one character to a string (`String::push`).
#[verifier::external_body]
pub(crate) fn push_char(s: &mut String, c: char)
    ensures
        final(s)@ == old(s)@.push(c),
{
    s.push(c);
}

/// The characters of a string slice, in order.
pub fn chars_of(s: &str) -> (res: Vec<char>)
    ensures
        res@ == s@,
{
    let n = s.unicode_len();
    let mut v: Vec<char> = Vec::new();
    let mut i: usize = 0;
    while i < n
        invariant
            n == s@.len(),
            i <= n,
            v@ == s@.subrange(0, i as int),
        decreases n - i,
    {
        v.push(s.get_char(i));
        i += 1;
    }
    v
}

/// A string made of the characters of `v[start..end]`.
pub fn string_from_chars(v: &[char], start: usize, end: usize) -> (res: String)
    requires
        start <= end <= v@.len(),
    ensures
        res@ == v@.subrange(start as int, end as int),
{
    let mut s = String::new();
    let mut i = start;
    while i < end
        invariant
            start <= i <= end,
            end <= v@.len(),
            s@ == v@.subrange(start as int, i as int),
        decreases end - i,
    {
        push_char(&mut s, v[i]);
        i += 1;
    }
    s
}

/// Copies a string.
pub fn copy_string(s: &str) -> (res: String)
    ensures
        res@ == s@,
{
    let v = chars_of(s);
    string_from_chars(v.as_slice(), 0, v.len())
}

pub open spec fn is_digit(b: u8) -> bool {
    48 <= b <= 57
}

pub open spec fn all_digits(s: Seq<u8>) -> bool {
    forall|i: int| 0 <= i < s.len() ==> #[trigger] is_digit(s[i])
}

/// The number that a sequence of decimal digits denotes.
pub open spec fn digits_value(s: Seq<u8>) -> nat
    decreases s.len(),
{
    if s.len() == 0 {
        0
    } else {
        digits_value(s.drop_last()) * 10 + (s.last() - 48) as nat
    }
}

/// The digits that `str::parse::<usize>` reads: an optional leading `+` is skipped.
pub open spec fn unsigned_digits(s: Seq<u8>) -> Seq<u8> {
    if s.len() > 0 && s[0] == 43u8 {
        s.drop_first()
    } else {
        s
    }
}

/// What `str::parse::<usize>` returns on a string with these UTF-8 bytes:
/// one or more decimal digits, optionally after a `+`, whose value fits in `usize`.
pub open spec fn spec_parse_usize(s: Seq<u8>) -> Option<usize> {
    let d = unsigned_digits(s);
    if d.len() > 0 && all_digits(d) && digits_value(d) <= usize::MAX {
        Some(digits_value(d) as usize)
    } else {
        None
    }
}

/// The shortest decimal rendering of `n`, as `format!("{}", n)` writes it.
pub open spec fn spec_decimal(n: nat) -> Seq<u8>
    decreases n,
{
    if n < 10 {
        seq![(n + 48) as u8]
    } else {
        spec_decimal(n / 10).push((n % 10 + 48) as u8)
    }
}

proof fn lemma_digits_prefix_le(s: Seq<u8>, k: int)
    requires
        all_digits(s),
        0 <= k <= s.len(),
    ensures
        digits_value(s.subrange(0, k)) <= digits_value(s),
    decreases s.len() - k,
{
    if k < s.len() {
        let t = s.drop_last();
        assert(all_digits(t)) by {
            assert forall|i: int| 0 <= i < t.len() implies #[trigger] is_digit(t[i]) by {
                assert(is_digit(s[i]));
            }
        }
        lemma_digits_prefix_le(t, k);
        assert(t.subrange(0, k) =~= s.subrange(0, k));
    } else {
        assert(s.subrange(0, k) =~= s);
    }
}

proof fn lemma_digits_push(s: Seq<u8>, b: u8)
    ensures
        digits_value(s.push(b)) == digits_value(s) * 10 + (b - 48) as nat,
{
    assert(s.push(b).drop_last() =~= s);
}

/// The decimal rendering is made of digits, is not empty, and denotes `n`.
pub proof fn lemma_decimal_value(n: nat)
    ensures
        spec_decimal(n).len() >= 1,
        all_digits(spec_decimal(n)),
        digits_value(spec_decimal(n)) == n,
    decreases n,
{
    if n < 10 {
        let s = seq![(n + 48) as u8];
        assert(s.drop_last() =~= Seq::<u8>::empty());
        assert(digits_value(Seq::<u8>::empty()) == 0);
        assert(digits_value(s) == digits_value(s.drop_last()) * 10 + (s.last() - 48) as nat);
        assert(spec_decimal(n) == s);
    } else {
        lemma_decimal_value(n / 10);
        let s = spec_decimal(n / 10);
        lemma_digits_push(s, (n % 10 + 48) as u8);
        assert((n / 10) * 10 + n % 10 == n) by (nonlinear_arith);
        assert(((n % 10 + 48) as u8 - 48) as nat == n % 10);
        assert forall|i: int| 0 <= i < s.push((n % 10 + 48) as u8).len() implies #[trigger] is_digit(
            s.push((n % 10 + 48) as u8)[i],
        ) by {
            if i < s.len() {
                assert(is_digit(s[i]));
            }
        }
    }
}

/// Reading back the decimal rendering of a `usize` gives the same number.
pub proof fn lemma_parse_decimal(n: usize)
    ensures
        spec_parse_usize(spec_decimal(n as nat)) == Some(n),
{
    lemma_decimal_value(n as nat);
    let s = spec_decimal(n as nat);
    assert(is_digit(s[0]));
    assert(unsigned_digits(s) == s);
}

/// Parses an unsigned decimal number as `str::parse::<usize>` does.
pub fn parse_usize(s: &[u8]) -> (res: Option<usize>)
    ensures
        res == spec_parse_usize(s@),
{
    let mut start: usize = 0;
    if s.len() > 0 && s[0] == 43u8 {
        start = 1;
    }
    let ghost d = unsigned_digits(s@);
    assert(d =~= s@.subrange(start as int, s@.len() as int));
    if start >= s.len() {
        return None;
    }
    let mut acc: usize = 0;
    let mut i: usize = start;
    while i < s.len()
        invariant
            start < s.len(),
            start <= i <= s.len(),
            d == unsigned_digits(s@),
            d =~= s@.subrange(start as int, s@.len() as int),
            all_digits(d.subrange(0, i - start)),
            acc as nat == digits_value(d.subrange(0, i - start)),
        decreases s.len() - i,
    {
        let b = s[i];
        if b < 48 || b > 57 {
            assert(!is_digit(d[i - start]));
            assert(!all_digits(d));
            return None;
        }
        let dv: usize = (b - 48) as usize;
        let ghost pre = d.subrange(0, i - start);
        assert(d.subrange(0, i + 1 - start) =~= pre.push(b));
        proof {
            lemma_digits_push(pre, b);
        }
        assert(all_digits(d.subrange(0, i + 1 - start))) by {
            assert forall|j: int| 0 <= j < i + 1 - start implies #[trigger] is_digit(
                d.subrange(0, i + 1 - start)[j],
            ) by {
                if j < i - start {
                    assert(is_digit(pre[j]));
                }
            }
        }
        if acc > (usize::MAX - dv) / 10 {
            assert(acc * 10 + dv > usize::MAX) by (nonlinear_arith)
                requires
                    acc > (usize::MAX - dv) / 10,
                    dv <= 9,
            ;
            proof {
                if all_digits(d) {
                    lemma_digits_prefix_le(d, i + 1 - start);
                    assert(digits_value(d.subrange(0, i + 1 - start)) == acc * 10 + dv);
                    assert(digits_value(d) > usize::MAX);
                }
            }
            return None;
        }
        assert(acc * 10 + dv <= usize::MAX) by (nonlinear_arith)
            requires
                acc <= (usize::MAX - dv) / 10,
                dv <= 9,
        ;
        acc = acc * 10 + dv;
        i += 1;
    }
    assert(d.subrange(0, i - start) =~= d);
    Some(acc)
}

/// Appends the decimal rendering of `n`.
pub fn write_decimal(n: usize, out: &mut Vec<u8>)
    ensures
        final(out)@ == old(out)@ + spec_decimal(n as nat),
    decreases n,
{
    if n >= 10 {
        write_decimal(n / 10, out);
    }
    out.push((n % 10) as u8 + 48);
    assert(n >= 10 ==> (n % 10) as nat == (n as nat) % 10 && (n / 10) as nat == (n as nat) / 10);
}

} // verus!

verus! {

/// Whether two strings hold the same characters.
pub fn str_eq(a: &str, b: &str) -> (res: bool)
    ensures
        res == (a@ == b@),
{
    let x = chars_of(a);
    let y = chars_of(b);
    if x.len() != y.len() {
        return false;
    }
    let mut i: usize = 0;
    while i < x.len()
        invariant
            x@ == a@,
            y@ == b@,
            x@.len() == y@.len(),
            i <= x@.len(),
            forall|j: int| 0 <= j < i ==> x@[j] == y@[j],
        decreases x.len() - i,
    {
        if x[i] != y[i] {
            return false;
        }
        i += 1;
    }
    assert(x@ =~= y@);
    true
}

} // verus!

verus! {

/// Whether `c` has the Unicode `White_Space` property (`char::is_whitespace`).
pub open spec fn is_white_space(c: char) -> bool {
    let u = c as u32;
    (9 <= u <= 13) || u == 32 || u == 0x85 || u == 0xA0 || u == 0x1680 || (0x2000 <= u <= 0x200A)
        || u == 0x2028 || u == 0x2029 || u == 0x202F || u == 0x205F || u == 0x3000
}

/// `char::is_whitespace`.
pub fn is_whitespace(c: char) -> (res: bool)
    ensures
        res == is_white_space(c),
{
    let u = c as u32;
    (9 <= u && u <= 13) || u == 32 || u == 0x85 || u == 0xA0 || u == 0x1680 || (0x2000 <= u && u
        <= 0x200A) || u == 0x2028 || u == 0x2029 || u == 0x202F || u == 0x205F || u == 0x3000
}

/// Index of the first `c` in `s` at or after `from`, or `s.len()` when there is none.
pub open spec fn find_char(s: Seq<char>, c: char, from: int) -> int
    decreases s.len() - from,
{
    if from >= s.len() {
        s.len() as int
    } else if s[from] == c {
        from
    } else {
        find_char(s, c, from + 1)
    }
}

/// `s.split_once(c)`: the text before and after the first `c`.
pub open spec fn spec_split_once(s: Seq<char>, c: char) -> Option<(Seq<char>, Seq<char>)> {
    let i = find_char(s, c, 0);
    if i < s.len() {
        Some((s.subrange(0, i), s.subrange(i + 1, s.len() as int)))
    } else {
        None
    }
}

/// `s.split(c)`: the pieces between occurrences of `c`, empty ones included.
pub open spec fn spec_split(s: Seq<char>, c: char) -> Seq<Seq<char>>
    decreases s.len(),
{
    let i = find_char(s, c, 0);
    if 0 <= i < s.len() {
        seq![s.subrange(0, i)] + spec_split(s.subrange(i + 1, s.len() as int), c)
    } else {
        seq![s]
    }
}

/// Index of the first character at or after `from` that is (`ws`) or is not (`!ws`)
/// white space, or `s.len()`.
pub open spec fn find_ws(s: Seq<char>, ws: bool, from: int) -> int
    decreases s.len() - from,
{
    if from >= s.len() {
        s.len() as int
    } else if is_white_space(s[from]) == ws {
        from
    } else {
        find_ws(s, ws, from + 1)
    }
}

/// `s.split_whitespace()`: the maximal runs of non-white-space characters.
pub open spec fn spec_split_whitespace(s: Seq<char>) -> Seq<Seq<char>>
    decreases s.len(),
{
    let start = find_ws(s, false, 0);
    let end = find_ws(s, true, start);
    if !(0 <= start < s.len()) {
        Seq::empty()
    } else if start < end <= s.len() {
        seq![s.subrange(start, end)] + spec_split_whitespace(s.subrange(end, s.len() as int))
    } else {
        seq![s.subrange(start, s.len() as int)]
    }
}

/// `s.trim()`: without leading and trailing white space.
pub open spec fn spec_trim(s: Seq<char>) -> Seq<char> {
    let start = find_ws(s, false, 0);
    let end = last_non_ws(s, s.len() as int);
    if 0 <= start < end <= s.len() {
        s.subrange(start, end)
    } else {
        Seq::empty()
    }
}

/// One past the last non-white-space character before `end`, or 0.
pub open spec fn last_non_ws(s: Seq<char>, end: int) -> int
    decreases end,
{
    if end <= 0 {
        0
    } else if !is_white_space(s[end - 1]) {
        end
    } else {
        last_non_ws(s, end - 1)
    }
}

pub open spec fn starts_with(s: Seq<char>, p: Seq<char>) -> bool {
    s.len() >= p.len() && s.subrange(0, p.len() as int) == p
}

pub open spec fn ends_with(s: Seq<char>, p: Seq<char>) -> bool {
    s.len() >= p.len() && s.subrange(s.len() - p.len(), s.len() as int) == p
}

proof fn lemma_find_char_bounds(s: Seq<char>, c: char, from: int)
    requires
        0 <= from <= s.len(),
    ensures
        from <= find_char(s, c, from) <= s.len(),
        find_char(s, c, from) < s.len() ==> s[find_char(s, c, from)] == c,
        forall|j: int| from <= j < find_char(s, c, from) ==> s[j] != c,
    decreases s.len() - from,
{
    if from < s.len() && s[from] != c {
        lemma_find_char_bounds(s, c, from + 1);
    }
}

proof fn lemma_find_ws_bounds(s: Seq<char>, ws: bool, from: int)
    requires
        0 <= from <= s.len(),
    ensures
        from <= find_ws(s, ws, from) <= s.len(),
        find_ws(s, ws, from) < s.len() ==> is_white_space(s[find_ws(s, ws, from)]) == ws,
        forall|j: int| from <= j < find_ws(s, ws, from) ==> is_white_space(s[j]) != ws,
    decreases s.len() - from,
{
    if from < s.len() && is_white_space(s[from]) != ws {
        lemma_find_ws_bounds(s, ws, from + 1);
    }
}

/// `find_char` on a suffix is `find_char` on the whole, shifted.
proof fn lemma_find_char_shift(s: Seq<char>, c: char, k: int, from: int)
    requires
        0 <= k <= from <= s.len(),
    ensures
        find_char(s.subrange(k, s.len() as int), c, from - k) == find_char(s, c, from) - k,
    decreases s.len() - from,
{
    if from < s.len() && s[from] != c {
        lemma_find_char_shift(s, c, k, from + 1);
    }
}

proof fn lemma_find_ws_shift(s: Seq<char>, ws: bool, k: int, from: int)
    requires
        0 <= k <= from <= s.len(),
    ensures
        find_ws(s.subrange(k, s.len() as int), ws, from - k) == find_ws(s, ws, from) - k,
    decreases s.len() - from,
{
    if from < s.len() && is_white_space(s[from]) != ws {
        lemma_find_ws_shift(s, ws, k, from + 1);
    }
}

/// Index of the first `c` in `v[from..]`, or `v.len()`.
pub fn find_char_in(v: &Vec<char>, c: char, from: usize) -> (res: usize)
    requires
        from <= v@.len(),
    ensures
        res as int == find_char(v@, c, from as int),
        from <= res <= v@.len(),
{
    let mut i = from;
    while i < v.len() && v[i] != c
        invariant
            from <= i <= v@.len(),
            find_char(v@, c, from as int) == find_char(v@, c, i as int),
        decreases v.len() - i,
    {
        i += 1;
    }
    i
}

/// Index of the first character in `v[from..]` whose white-space-ness is `ws`, or `v.len()`.
pub fn find_ws_in(v: &Vec<char>, ws: bool, from: usize) -> (res: usize)
    requires
        from <= v@.len(),
    ensures
        res as int == find_ws(v@, ws, from as int),
        from <= res <= v@.len(),
{
    let mut i = from;
    while i < v.len() && is_whitespace(v[i]) != ws
        invariant
            from <= i <= v@.len(),
            find_ws(v@, ws, from as int) == find_ws(v@, ws, i as int),
        decreases v.len() - i,
    {
        i += 1;
    }
    i
}

/// The views of a vector of strings.
pub open spec fn strings_view(v: Seq<String>) -> Seq<Seq<char>> {
    v.map_values(|s: String| s@)
}

/// `v[start..end].split(c)`, each piece as a string.
pub fn split_chars(v: &Vec<char>, start: usize, end: usize, c: char) -> (res: Vec<String>)
    requires
        start <= end <= v@.len(),
    ensures
        strings_view(res@) == spec_split(v@.subrange(start as int, end as int), c),
    decreases end - start,
{
    let ghost s = v@.subrange(start as int, end as int);
    let mut i = start;
    while i < end && v[i] != c
        invariant
            start <= i <= end <= v@.len(),
            s == v@.subrange(start as int, end as int),
            forall|j: int| start <= j < i ==> v@[j] != c,
        decreases end - i,
    {
        i += 1;
    }
    proof {
        lemma_find_char_bounds(s, c, 0);
        lemma_find_char_exact(s, c, i - start);
    }
    let piece = string_from_chars(v.as_slice(), start, i);
    let mut out: Vec<String> = Vec::new();
    out.push(piece);
    if i < end {
        let rest = split_chars(v, i + 1, end, c);
        assert(s.subrange(i - start + 1, s.len() as int) =~= v@.subrange(i + 1, end as int));
        let mut k: usize = 0;
        while k < rest.len()
            invariant
                k <= rest@.len(),
                out@.len() == k + 1,
                out@[0]@ == s.subrange(0, i - start),
                forall|j: int| 1 <= j <= k ==> #[trigger] out@[j]@ == rest@[j - 1]@,
            decreases rest.len() - k,
        {
            out.push(copy_string(rest[k].as_str()));
            k += 1;
        }
        assert(strings_view(out@) =~= seq![s.subrange(0, i - start)] + strings_view(rest@));
    } else {
        assert(s.subrange(0, i - start) =~= s);
        assert(strings_view(out@) =~= seq![s]);
    }
    out
}

/// `find_char` stops at the first `c`.
pub proof fn lemma_find_char_exact(s: Seq<char>, c: char, i: int)
    requires
        0 <= i <= s.len(),
        forall|j: int| 0 <= j < i ==> s[j] != c,
        i < s.len() ==> s[i] == c,
    ensures
        find_char(s, c, 0) == i,
{
    lemma_find_char_bounds(s, c, 0);
    let f = find_char(s, c, 0);
    if f < i {
        assert(s[f] == c);
    }
}

} // verus!

verus! {

/// Whether `v` begins with the characters of `p`.
pub fn starts_with_str(v: &Vec<char>, p: &str) -> (res: bool)
    ensures
        res == starts_with(v@, p@),
{
    let pc = chars_of(p);
    if pc.len() > v.len() {
        return false;
    }
    let mut i: usize = 0;
    while i < pc.len()
        invariant
            pc@ == p@,
            pc@.len() <= v@.len(),
            i <= pc@.len(),
            forall|j: int| 0 <= j < i ==> v@[j] == pc@[j],
        decreases pc.len() - i,
    {
        if v[i] != pc[i] {
            assert(v@.subrange(0, pc@.len() as int)[i as int] != pc@[i as int]);
            return false;
        }
        i += 1;
    }
    assert(v@.subrange(0, pc@.len() as int) =~= pc@);
    true
}

/// Whether `v` ends with the characters of `p`.
pub fn ends_with_str(v: &Vec<char>, p: &str) -> (res: bool)
    ensures
        res == ends_with(v@, p@),
{
    let pc = chars_of(p);
    if pc.len() > v.len() {
        return false;
    }
    let off = v.len() - pc.len();
    let mut i: usize = 0;
    while i < pc.len()
        invariant
            pc@ == p@,
            off + pc@.len() == v@.len(),
            v@.len() <= usize::MAX,
            i <= pc@.len(),
            forall|j: int| 0 <= j < i ==> v@[off + j] == pc@[j],
        decreases pc.len() - i,
    {
        if v[off + i] != pc[i] {
            assert(v@.subrange(off as int, v@.len() as int)[i as int] != pc@[i as int]);
            return false;
        }
        i += 1;
    }
    assert(v@.subrange(off as int, v@.len() as int) =~= pc@);
    true
}

/// `v[start..].split_whitespace()`, each piece as a string.
pub fn split_whitespace_chars(v: &Vec<char>, start: usize) -> (res: Vec<String>)
    requires
        start <= v@.len(),
    ensures
        strings_view(res@) == spec_split_whitespace(v@.subrange(start as int, v@.len() as int)),
    decreases v@.len() - start,
{
    let ghost s = v@.subrange(start as int, v@.len() as int);
    let st = find_ws_in(v, false, start);
    proof {
        lemma_find_ws_shift(v@, false, start as int, start as int);
        lemma_find_ws_bounds(v@, false, start as int);
    }
    if st >= v.len() {
        return Vec::new();
    }
    let en = find_ws_in(v, true, st);
    proof {
        lemma_find_ws_shift(v@, true, start as int, st as int);
        lemma_find_ws_bounds(v@, true, st as int);
        assert(en > st);
    }
    let piece = string_from_chars(v.as_slice(), st, en);
    let rest = split_whitespace_chars(v, en);
    assert(s.subrange(en - start, s.len() as int) =~= v@.subrange(en as int, v@.len() as int));
    assert(s.subrange(st - start, en - start) =~= v@.subrange(st as int, en as int));
    let mut out: Vec<String> = Vec::new();
    out.push(piece);
    let mut k: usize = 0;
    while k < rest.len()
        invariant
            k <= rest@.len(),
            out@.len() == k + 1,
            out@[0]@ == v@.subrange(st as int, en as int),
            forall|j: int| 1 <= j <= k ==> #[trigger] out@[j]@ == rest@[j - 1]@,
        decreases rest.len() - k,
    {
        out.push(copy_string(rest[k].as_str()));
        k += 1;
    }
    assert(strings_view(out@) =~= seq![v@.subrange(st as int, en as int)] + strings_view(rest@));
    out
}


/// `find_char` from `k` in `s` is `find_char` from 0 in `s[k..]`, shifted; and it is
/// a real first occurrence.
pub proof fn lemma_find_char_from(s: Seq<char>, c: char, k: int)
    requires
        0 <= k <= s.len(),
    ensures
        find_char(s.subrange(k, s.len() as int), c, 0) == find_char(s, c, k) - k,
        k <= find_char(s, c, k) <= s.len(),
{
    lemma_find_char_shift(s, c, k, k);
    lemma_find_char_bounds(s, c, k);
}


/// The pieces joined with the character `c` between them.
pub open spec fn spec_join_char(parts: Seq<Seq<char>>, c: char) -> Seq<char>
    decreases parts.len(),
{
    if parts.len() == 0 {
        Seq::empty()
    } else if parts.len() == 1 {
        parts[0]
    } else {
        parts[0] + seq![c] + spec_join_char(parts.drop_first(), c)
    }
}

/// Splitting at `c` the pieces joined with `c` gives them back, when no piece holds `c`.
pub proof fn lemma_split_join(parts: Seq<Seq<char>>, c: char)
    requires
        parts.len() >= 1,
        forall|i: int, j: int| 0 <= i < parts.len() && 0 <= j < parts[i].len() ==> #[trigger] parts[i][j] != c,
    ensures
        spec_split(spec_join_char(parts, c), c) == parts,
    decreases parts.len(),
{
    let s = spec_join_char(parts, c);
    let p0 = parts[0];
    if parts.len() == 1 {
        assert(s == p0);
        assert forall|j: int| 0 <= j < s.len() implies s[j] != c by {
            assert(parts[0][j] != c);
        }
        lemma_find_char_exact(s, c, s.len() as int);
        assert(spec_split(s, c) == seq![s]);
        assert(seq![s] =~= parts);
    } else {
        let tail = parts.drop_first();
        let rest = spec_join_char(tail, c);
        assert(s == p0 + seq![c] + rest);
        assert forall|j: int| 0 <= j < p0.len() implies s[j] != c by {
            assert(s[j] == p0[j]);
            assert(parts[0][j] != c);
        }
        assert(s[p0.len() as int] == c);
        lemma_find_char_exact(s, c, p0.len() as int);
        assert(s.subrange(0, p0.len() as int) =~= p0);
        assert(s.subrange(p0.len() as int + 1, s.len() as int) =~= rest);
        assert forall|i: int, j: int| 0 <= i < tail.len() && 0 <= j < tail[i].len() implies #[trigger] tail[i][j] != c by {
            assert(tail[i] == parts[i + 1]);
            assert(parts[i + 1][j] != c);
        }
        lemma_split_join(tail, c);
        assert(spec_split(s, c) == seq![p0] + tail);
        assert(seq![p0] + tail =~= parts);
    }
}

proof fn lemma_find_ws_exact(s: Seq<char>, ws: bool, from: int, i: int)
    requires
        0 <= from <= i <= s.len(),
        forall|j: int| from <= j < i ==> is_white_space(#[trigger] s[j]) != ws,
        i < s.len() ==> is_white_space(s[i]) == ws,
    ensures
        find_ws(s, ws, from) == i,
{
    lemma_find_ws_bounds(s, ws, from);
    let f = find_ws(s, ws, from);
    if f < i {
        assert(is_white_space(s[f]) != ws);
    }
}

/// The words of a command line joined by single spaces, with or without one space before.
proof fn lemma_split_whitespace_join(parts: Seq<Seq<char>>, lead: bool)
    requires
        parts.len() >= 1,
        forall|i: int| 0 <= i < parts.len() ==> #[trigger] parts[i].len() > 0,
        forall|i: int, j: int| 0 <= i < parts.len() && 0 <= j < parts[i].len() ==> !is_white_space(#[trigger] parts[i][j]),
    ensures
        spec_split_whitespace(if lead { seq![' '] + spec_join_char(parts, ' ') } else { spec_join_char(parts, ' ') }) == parts,
    decreases parts.len(),
{
    let j = spec_join_char(parts, ' ');
    let t = if lead { seq![' '] + j } else { j };
    let k: int = if lead { 1 } else { 0 };
    let p0 = parts[0];
    assert(is_white_space(' '));
    let tail = parts.drop_first();
    let end = k + p0.len();
    if parts.len() == 1 {
        assert(j == p0);
    } else {
        assert(j == p0 + seq![' '] + spec_join_char(tail, ' '));
    }
    assert forall|x: int| k <= x < end implies !is_white_space(#[trigger] t[x]) by {
        assert(t[x] == p0[x - k]);
        assert(!is_white_space(parts[0][x - k]));
    }
    assert(p0.len() > 0);
    assert(t[k] == p0[0]);
    if lead {
        assert(t[0] == ' ');
    }
    lemma_find_ws_exact(t, false, 0, k);
    if parts.len() > 1 {
        assert(t[end] == ' ');
    } else {
        assert(t.len() == end);
    }
    lemma_find_ws_exact(t, true, k, end);
    assert(t.subrange(k, end) =~= p0);
    if parts.len() == 1 {
        let r = t.subrange(end, t.len() as int);
        assert(r.len() == 0);
        assert(spec_split_whitespace(r) == Seq::<Seq<char>>::empty());
        assert(seq![p0] + Seq::<Seq<char>>::empty() =~= parts);
    } else {
        assert(t.subrange(end, t.len() as int) =~= seq![' '] + spec_join_char(tail, ' '));
        assert forall|i: int| 0 <= i < tail.len() implies #[trigger] tail[i].len() > 0 by {
            assert(tail[i] == parts[i + 1]);
        }
        assert forall|i: int, x: int| 0 <= i < tail.len() && 0 <= x < tail[i].len() implies !is_white_space(#[trigger] tail[i][x]) by {
            assert(tail[i] == parts[i + 1]);
            assert(!is_white_space(parts[i + 1][x]));
        }
        lemma_split_whitespace_join(tail, true);
        assert(seq![p0] + tail =~= parts);
    }
}

/// Splitting at white space the words joined by single spaces gives them back, when the
/// words are not empty and hold no white space.
pub proof fn lemma_split_whitespace_words(parts: Seq<Seq<char>>)
    requires
        parts.len() >= 1,
        forall|i: int| 0 <= i < parts.len() ==> #[trigger] parts[i].len() > 0,
        forall|i: int, j: int| 0 <= i < parts.len() && 0 <= j < parts[i].len() ==> !is_white_space(#[trigger] parts[i][j]),
    ensures
        spec_split_whitespace(spec_join_char(parts, ' ')) == parts,
{
    lemma_split_whitespace_join(parts, false);
}

/// `s.trim()`.
pub fn trim_str(s: &str) -> (res: String)
    ensures
        res@ == spec_trim(s@),
{
    let v = chars_of(s);
    let st = find_ws_in(&v, false, 0);
    let mut en = v.len();
    while en > 0 && is_whitespace(v[en - 1])
        invariant
            v@ == s@,
            en <= v@.len(),
            last_non_ws(v@, v@.len() as int) == last_non_ws(v@, en as int),
        decreases en,
    {
        en -= 1;
    }
    assert(last_non_ws(v@, en as int) == en as int);
    if st < en {
        string_from_chars(v.as_slice(), st, en)
    } else {
        String::new()
    }
}

/// `s.split_once(c)`.
pub fn split_once_str(s: &str, c: char) -> (res: Option<(String, String)>)
    ensures
        match spec_split_once(s@, c) {
            Some((a, b)) => res matches Some((x, y)) && x@ == a && y@ == b,
            None => res is None,
        },
{
    let v = chars_of(s);
    let i = find_char_in(&v, c, 0);
    if i < v.len() {
        Some((string_from_chars(v.as_slice(), 0, i), string_from_chars(v.as_slice(), i + 1, v.len())))
    } else {
        None
    }
}


/// `s` without its trailing `c` characters (`trim_end_matches(c)`).
pub open spec fn spec_trim_end_char(s: Seq<char>, c: char) -> Seq<char>
    decreases s.len(),
{
    if s.len() > 0 && s.last() == c {
        spec_trim_end_char(s.drop_last(), c)
    } else {
        s
    }
}

/// `s.trim_end_matches(c)`.
pub fn trim_end_char(s: &str, c: char) -> (res: String)
    ensures
        res@ == spec_trim_end_char(s@, c),
{
    let v = chars_of(s);
    let mut n = v.len();
    assert(v@.subrange(0, n as int) =~= v@);
    while n > 0 && v[n - 1] == c
        invariant
            v@ == s@,
            n <= v@.len(),
            spec_trim_end_char(v@, c) == spec_trim_end_char(v@.subrange(0, n as int), c),
        decreases n,
    {
        assert(v@.subrange(0, n as int).drop_last() =~= v@.subrange(0, n - 1));
        n -= 1;
    }
    string_from_chars(v.as_slice(), 0, n)
}

/// A copy of each string of a list.
pub fn copy_strings(v: &Vec<String>) -> (res: Vec<String>)
    ensures
        strings_view(res@) == strings_view(v@),
{
    let mut out: Vec<String> = Vec::new();
    let mut i: usize = 0;
    while i < v.len()
        invariant
            i <= v@.len(),
            out@.len() == i,
            forall|j: int| 0 <= j < i ==> #[trigger] out@[j]@ == v@[j]@,
        decreases v.len() - i,
    {
        out.push(copy_string(v[i].as_str()));
        i += 1;
    }
    assert(strings_view(out@) =~= strings_view(v@));
    out
}

/// A copy of an optional string.
pub fn copy_opt_string(s: &Option<String>) -> (res: Option<String>)
    ensures
        opt_view(res) == opt_view(*s),
{
    match s {
        Some(x) => Some(copy_string(x.as_str())),
        None => None,
    }
}

/// The view of an optional string.
pub open spec fn opt_view(s: Option<String>) -> Option<Seq<char>> {
    match s {
        Some(x) => Some(x@),
        None => None,
    }
}

} // verus!
