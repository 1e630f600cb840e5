//! Small verified text utilities.
use vstd::prelude::*;

verus! {

/// Whether two string slices hold the same characters.
pub fn str_eq(a: &str, b: &str) -> (r: bool)
    ensures
        r == (a@ == b@),
{
    let n = a.unicode_len();
    if n != b.unicode_len() {
        return false;
    }
    let mut i: usize = 0;
    while i < n
        invariant
            n == a@.len(),
            n == b@.len(),
            i <= n,
            forall|k: int| 0 <= k < i ==> a@[k] == b@[k],
        decreases n - i,
    {
        if a.get_char(i) != b.get_char(i) {
            return false;
        }
        i = i + 1;
    }
    assert(a@ =~= b@);
    true
}

/// The character of digit `d` (below 16), in lower case.
pub open spec fn digit_char(d: int) -> char {
    seq!['0', '1', '2', '3', '4', '5', '6', '7', '8', '9', 'a', 'b', 'c', 'd', 'e', 'f'][d]
}

/// The decimal digits of `n`, without leading zeros.
pub open spec fn decimal_digits(n: nat) -> Seq<char>
    decreases n,
{
    if n < 10 {
        seq![digit_char(n as int)]
    } else {
        decimal_digits(n / 10).push(digit_char((n % 10) as int))
    }
}

/// `x` written in decimal, as Rust's `Display` writes integers.
pub open spec fn decimal(x: int) -> Seq<char> {
    if x < 0 {
        seq!['-'] + decimal_digits((-x) as nat)
    } else {
        decimal_digits(x as nat)
    }
}

/// The lower-case hexadecimal digits of `n`, without leading zeros.
pub open spec fn hex_digits(n: nat) -> Seq<char>
    decreases n,
{
    if n < 16 {
        seq![digit_char(n as int)]
    } else {
        hex_digits(n / 16).push(digit_char((n % 16) as int))
    }
}

/// `n` in lower-case hexadecimal, padded with zeros to at least `width`
/// digits, as `format!("{:0width$x}", n)` writes it.
pub open spec fn hex_padded(n: nat, width: nat) -> Seq<char> {
    let d = hex_digits(n);
    if d.len() < width {
        Seq::new((width - d.len()) as nat, |i: int| '0') + d
    } else {
        d
    }
}

fn digit(d: u64) -> (c: char)
    requires
        d < 16,
    ensures
        c == digit_char(d as int),
{
    let table = ['0', '1', '2', '3', '4', '5', '6', '7', '8', '9', 'a', 'b', 'c', 'd', 'e', 'f'];
    let c = table[d as usize];
    assert(table@ =~= seq!['0', '1', '2', '3', '4', '5', '6', '7', '8', '9', 'a', 'b', 'c', 'd', 'e', 'f']);
    c
}

/// Append the decimal digits of `n`.
pub fn push_decimal_digits(out: &mut String, n: u64)
    ensures
        final(out)@ == old(out)@ + decimal_digits(n as nat),
    decreases n,
{
    if n >= 10 {
        push_decimal_digits(out, n / 10);
    }
    out.push(digit(n % 10));
    proof {
        if n < 10 {
            assert(final(out)@ =~= old(out)@ + decimal_digits(n as nat));
        } else {
            assert(final(out)@ =~= old(out)@ + decimal_digits(n as nat));
        }
    }
}

/// `x` in decimal.
pub fn decimal_string(x: i64) -> (s: String)
    ensures
        s@ == decimal(x as int),
{
    let mut s = String::new();
    if x < 0 {
        s.push('-');
        let m: u64 = ((-(x + 1)) as u64) + 1;
        push_decimal_digits(&mut s, m);
        assert(s@ =~= decimal(x as int));
    } else {
        push_decimal_digits(&mut s, x as u64);
        assert(s@ =~= decimal(x as int));
    }
    s
}

/// `x` in decimal.
pub fn decimal_string_unsigned(x: u64) -> (s: String)
    ensures
        s@ == decimal(x as int),
{
    let mut s = String::new();
    push_decimal_digits(&mut s, x);
    assert(s@ =~= decimal(x as int));
    s
}

fn push_hex_digits(out: &mut String, n: u64)
    ensures
        final(out)@ == old(out)@ + hex_digits(n as nat),
    decreases n,
{
    if n >= 16 {
        push_hex_digits(out, n / 16);
    }
    out.push(digit(n % 16));
    proof {
        assert(final(out)@ =~= old(out)@ + hex_digits(n as nat));
    }
}

/// `n` in lower-case hexadecimal, zero-padded to at least `width` digits.
pub fn hex_string(n: u64, width: usize) -> (s: String)
    ensures
        s@ == hex_padded(n as nat, width as nat),
{
    let mut d = String::new();
    push_hex_digits(&mut d, n);
    let len = d.as_str().unicode_len();
    let mut s = String::new();
    if len < width {
        let mut i: usize = 0;
        while i < width - len
            invariant
                i <= width - len,
                s@ =~= Seq::new(i as nat, |k: int| '0'),
            decreases width - len - i,
        {
            s.push('0');
            i = i + 1;
        }
    }
    s.append(d.as_str());
    s
}

/// The items of `items` joined by `", "`.
pub open spec fn comma_join(items: Seq<Seq<char>>) -> Seq<char>
    decreases items.len(),
{
    if items.len() == 0 {
        Seq::empty()
    } else if items.len() == 1 {
        items[0]
    } else {
        comma_join(items.drop_last()) + ", "@ + items.last()
    }
}

/// The strings of `items` joined by `", "`.
pub fn join_comma(items: &Vec<String>) -> (s: String)
    ensures
        s@ == comma_join(Seq::new(items@.len(), |k: int| items@[k]@)),
{
    let ghost all = Seq::new(items@.len(), |k: int| items@[k]@);
    let mut s = String::new();
    let mut i: usize = 0;
    while i < items.len()
        invariant
            i <= items@.len(),
            all == Seq::new(items@.len(), |k: int| items@[k]@),
            s@ == comma_join(all.take(i as int)),
        decreases items@.len() - i,
    {
        assert(all.take(i + 1).drop_last() =~= all.take(i as int));
        if i > 0 {
            s.append(", ");
        } else {
            assert(s@ =~= Seq::<char>::empty());
        }
        s.append(items[i].as_str());
        i = i + 1;
    }
    assert(all.take(i as int) =~= all);
    s
}

/// Whether `c` has the Unicode `White_Space` property (what
/// `char::is_whitespace` tests).
pub open spec fn is_white_space(c: char) -> bool {
    let n = c as u32;
    ||| 0x09 <= n <= 0x0d
    ||| n == 0x20
    ||| n == 0x85
    ||| n == 0xa0
    ||| n == 0x1680
    ||| 0x2000 <= n <= 0x200a
    ||| n == 0x2028
    ||| n == 0x2029
    ||| n == 0x202f
    ||| n == 0x205f
    ||| n == 0x3000
}

/// Whether `c` has the Unicode `White_Space` property.
pub fn white_space(c: char) -> (r: bool)
    ensures
        r == is_white_space(c),
{
    let n = c as u32;
    (0x09 <= n && n <= 0x0d) || n == 0x20 || n == 0x85 || n == 0xa0 || n == 0x1680 || (0x2000
        <= n && n <= 0x200a) || n == 0x2028 || n == 0x2029 || n == 0x202f || n == 0x205f || n
        == 0x3000
}

/// The characters of `s`.
pub fn chars_of(s: &str) -> (r: Vec<char>)
    ensures
        r@ == s@,
{
    let mut r: Vec<char> = Vec::new();
    for ch in it: s.chars()
        invariant
            r@ == it.seq().take(it.index() as int),
    {
        r.push(ch);
    }
    r
}

/// The string made of `cs[lo..hi]`.
pub fn string_of(cs: &Vec<char>, lo: usize, hi: usize) -> (r: String)
    requires
        lo <= hi <= cs@.len(),
    ensures
        r@ == cs@.subrange(lo as int, hi as int),
{
    let mut r = String::new();
    let mut i = lo;
    while i < hi
        invariant
            lo <= i <= hi <= cs@.len(),
            r@ == cs@.subrange(lo as int, i as int),
        decreases hi - i,
    {
        r.push(cs[i]);
        assert(cs@.subrange(lo as int, i + 1) =~= cs@.subrange(lo as int, i as int).push(cs@[i as int]));
        i = i + 1;
    }
    r
}

/// The number of white-space characters at the start of `s`.
pub open spec fn leading_ws(s: Seq<char>) -> nat
    decreases s.len(),
{
    if s.len() > 0 && is_white_space(s[0]) {
        1 + leading_ws(s.drop_first())
    } else {
        0
    }
}

/// The number of white-space characters at the end of `s`.
pub open spec fn trailing_ws(s: Seq<char>) -> nat
    decreases s.len(),
{
    if s.len() > 0 && is_white_space(s.last()) {
        1 + trailing_ws(s.drop_last())
    } else {
        0
    }
}

/// `s` without its leading white space (`str::trim_start`).
pub open spec fn trim_start_ws(s: Seq<char>) -> Seq<char> {
    s.skip(leading_ws(s) as int)
}

/// `s` without its trailing white space (`str::trim_end`).
pub open spec fn trim_end_ws(s: Seq<char>) -> Seq<char> {
    s.take(s.len() - trailing_ws(s))
}

/// `s` without leading and trailing white space (`str::trim`).
pub open spec fn trim_ws(s: Seq<char>) -> Seq<char> {
    trim_end_ws(trim_start_ws(s))
}

proof fn lemma_leading_ws_bound(s: Seq<char>)
    ensures
        leading_ws(s) <= s.len(),
    decreases s.len(),
{
    if s.len() > 0 && is_white_space(s[0]) {
        lemma_leading_ws_bound(s.drop_first());
    }
}

proof fn lemma_trailing_ws_bound(s: Seq<char>)
    ensures
        trailing_ws(s) <= s.len(),
    decreases s.len(),
{
    if s.len() > 0 && is_white_space(s.last()) {
        lemma_trailing_ws_bound(s.drop_last());
    }
}

/// Counting from `i`, the characters of `cs` before the first that is not
/// white space.
fn count_leading_ws(cs: &Vec<char>) -> (r: usize)
    ensures
        r as int == leading_ws(cs@),
{
    let mut i: usize = 0;
    proof {
        assert(cs@.skip(0) =~= cs@);
    }
    while i < cs.len() && white_space(cs[i])
        invariant
            i <= cs@.len(),
            leading_ws(cs@) == i + leading_ws(cs@.skip(i as int)),
        decreases cs@.len() - i,
    {
        assert(cs@.skip(i as int).drop_first() =~= cs@.skip(i + 1));
        i = i + 1;
    }
    i
}

/// The number of white-space characters at the end of `cs[..hi]`.
fn count_trailing_ws(cs: &Vec<char>, hi: usize) -> (r: usize)
    requires
        hi <= cs@.len(),
    ensures
        r as int == trailing_ws(cs@.take(hi as int)),
        r <= hi,
{
    let mut j: usize = hi;
    proof {
        lemma_trailing_ws_bound(cs@.take(hi as int));
    }
    while j > 0 && white_space(cs[j - 1])
        invariant
            j <= hi <= cs@.len(),
            trailing_ws(cs@.take(hi as int)) == (hi - j) + trailing_ws(cs@.take(j as int)),
        decreases j,
    {
        assert(cs@.take(j as int).drop_last() =~= cs@.take(j - 1));
        j = j - 1;
    }
    hi - j
}

/// `s` with leading and trailing white space removed.
pub fn trim(s: &str) -> (r: String)
    ensures
        r@ == trim_ws(s@),
{
    let cs = chars_of(s);
    let lo = count_leading_ws(&cs);
    proof {
        lemma_leading_ws_bound(cs@);
    }
    let rest: Vec<char> = {
        let t = string_of(&cs, lo, cs.len());
        chars_of(t.as_str())
    };
    let n = rest.len();
    let k = count_trailing_ws(&rest, n);
    proof {
        assert(rest@ =~= trim_start_ws(s@));
        assert(rest@.take(n as int) =~= rest@);
    }
    let r = string_of(&rest, 0, n - k);
    assert(r@ =~= trim_ws(s@));
    r
}

/// The first index at or after `i` where `pat` occurs in `s`.
pub open spec fn find_from(s: Seq<char>, pat: Seq<char>, i: int) -> Option<int>
    decreases s.len() + 1 - i,
{
    if i < 0 || i + pat.len() > s.len() {
        None
    } else if s.subrange(i, i + pat.len()) == pat {
        Some(i)
    } else {
        find_from(s, pat, i + 1)
    }
}

/// Whether `pat` occurs in `cs` at index `i`.
fn occurs_at(cs: &Vec<char>, pat: &Vec<char>, i: usize) -> (r: bool)
    requires
        i + pat@.len() <= cs@.len(),
    ensures
        r == (cs@.subrange(i as int, i + pat@.len()) == pat@),
{
    let n = cs.len();
    let mut k: usize = 0;
    while k < pat.len()
        invariant
            k <= pat@.len(),
            n == cs@.len(),
            i + pat@.len() <= cs@.len(),
            forall|m: int| 0 <= m < k ==> cs@[i + m] == pat@[m],
        decreases pat@.len() - k,
    {
        if cs[i + k] != pat[k] {
            assert(cs@.subrange(i as int, i + pat@.len())[k as int] != pat@[k as int]);
            return false;
        }
        k = k + 1;
    }
    assert(cs@.subrange(i as int, i + pat@.len()) =~= pat@);
    true
}

/// The first index at or after `from` where `pat` occurs in `cs`.
pub fn find_in(cs: &Vec<char>, pat: &Vec<char>, from: usize) -> (r: Option<usize>)
    ensures
        match r {
            Some(k) => find_from(cs@, pat@, from as int) == Some(k as int),
            None => find_from(cs@, pat@, from as int) is None,
        },
{
    let n = cs.len();
    let mut i = from;
    while i <= n && pat.len() <= n - i
        invariant
            from <= i,
            n == cs@.len(),
            find_from(cs@, pat@, from as int) == find_from(cs@, pat@, i as int),
        decreases cs@.len() + 1 - i,
    {
        if occurs_at(cs, pat, i) {
            return Some(i);
        }
        if i == n {
            assert(find_from(cs@, pat@, i + 1) is None);
            return None;
        }
        i = i + 1;
    }
    None
}

/// What `find_from` finds is an occurrence of `pat`, at or after `k`.
pub proof fn lemma_find_from(s: Seq<char>, pat: Seq<char>, k: int)
    ensures
        find_from(s, pat, k) matches Some(i) ==> k <= i && i + pat.len() <= s.len()
            && s.subrange(i, i + pat.len()) == pat,
    decreases s.len() + 1 - k,
{
    if !(k < 0 || k + pat.len() > s.len()) && s.subrange(k, k + pat.len()) != pat {
        lemma_find_from(s, pat, k + 1);
    }
}

/// `s` with every white-space character removed.
pub open spec fn without_ws(s: Seq<char>) -> Seq<char>
    decreases s.len(),
{
    if s.len() == 0 {
        Seq::empty()
    } else if is_white_space(s.last()) {
        without_ws(s.drop_last())
    } else {
        without_ws(s.drop_last()).push(s.last())
    }
}

/// `cs[lo..hi]` with every white-space character removed.
pub fn strip_ws(cs: &Vec<char>, lo: usize, hi: usize) -> (r: String)
    requires
        lo <= hi <= cs@.len(),
    ensures
        r@ == without_ws(cs@.subrange(lo as int, hi as int)),
{
    let mut r = String::new();
    let mut i = lo;
    while i < hi
        invariant
            lo <= i <= hi <= cs@.len(),
            r@ == without_ws(cs@.subrange(lo as int, i as int)),
        decreases hi - i,
    {
        assert(cs@.subrange(lo as int, i + 1).drop_last() =~= cs@.subrange(lo as int, i as int));
        if !white_space(cs[i]) {
            r.push(cs[i]);
        }
        i = i + 1;
    }
    r
}

/// Whether `c` is a lower-case hexadecimal digit.
pub open spec fn is_hex_char(c: char) -> bool {
    ('0' <= c <= '9') || ('a' <= c <= 'f')
}

/// `16` to the power `k`.
pub open spec fn pow16(k: nat) -> nat
    decreases k,
{
    if k == 0 {
        1
    } else {
        16 * pow16((k - 1) as nat)
    }
}

proof fn lemma_digit_char_hex(d: int)
    requires
        0 <= d < 16,
    ensures
        is_hex_char(digit_char(d)),
{
    let ds = seq!['0', '1', '2', '3', '4', '5', '6', '7', '8', '9', 'a', 'b', 'c', 'd', 'e', 'f'];
    assert(digit_char(d) == ds[d]);
    assert(forall|k: int| 0 <= k < 16 ==> is_hex_char(#[trigger] ds[k]));
}

proof fn lemma_hex_digits_shape(n: nat, k: nat)
    requires
        k >= 1,
        n < pow16(k),
    ensures
        hex_digits(n).len() <= k,
        forall|i: int| 0 <= i < hex_digits(n).len() ==> is_hex_char(#[trigger] hex_digits(n)[i]),
    decreases n,
{
    if n < 16 {
        lemma_digit_char_hex(n as int);
    } else {
        assert(k >= 2) by {
            if k == 1 {
                assert(pow16(1) == 16 * pow16(0));
            }
        }
        assert(pow16(k) == 16 * pow16((k - 1) as nat));
        lemma_hex_digits_shape(n / 16, (k - 1) as nat);
        lemma_digit_char_hex((n % 16) as int);
        let d = hex_digits(n / 16);
        assert forall|i: int| 0 <= i < hex_digits(n).len() implies is_hex_char(
            #[trigger] hex_digits(n)[i],
        ) by {
            if i < d.len() {
                assert(hex_digits(n)[i] == d[i]);
            }
        }
    }
}

/// A 64-bit number in zero-padded hexadecimal takes exactly 16 lower-case
/// hexadecimal digits.
pub proof fn lemma_hex16_shape(n: u64)
    ensures
        hex_padded(n as nat, 16).len() == 16,
        forall|i: int| 0 <= i < 16 ==> is_hex_char(#[trigger] hex_padded(n as nat, 16)[i]),
{
    assert(pow16(16) == 0x1_0000_0000_0000_0000) by {
        reveal_with_fuel(pow16, 17);
    }
    lemma_hex_digits_shape(n as nat, 16);
    let d = hex_digits(n as nat);
    let h = hex_padded(n as nat, 16);
    assert forall|i: int| 0 <= i < 16 implies is_hex_char(#[trigger] h[i]) by {
        if d.len() < 16 {
            let pad = (16 - d.len()) as int;
            if i >= pad {
                assert(h[i] == d[i - pad]);
            }
        }
    }
}

} // verus!
