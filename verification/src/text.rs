use vstd::prelude::*;

verus! {

// ---------------------------------------------------------------------------
// Text model: every string is viewed as its sequence of `char`s.
// ---------------------------------------------------------------------------

/// The decimal digit character for `d` (meaningful for `d < 10`).
pub open spec fn digit_char(d: nat) -> char {
    if d == 0 {
        '0'
    } else if d == 1 {
        '1'
    } else if d == 2 {
        '2'
    } else if d == 3 {
        '3'
    } else if d == 4 {
        '4'
    } else if d == 5 {
        '5'
    } else if d == 6 {
        '6'
    } else if d == 7 {
        '7'
    } else if d == 8 {
        '8'
    } else {
        '9'
    }
}

/// Decimal representation of `n`, most significant digit first, no padding.
pub open spec fn dec(n: nat) -> Seq<char>
    decreases n,
{
    if n < 10 {
        seq![digit_char(n)]
    } else {
        dec(n / 10).push(digit_char(n % 10))
    }
}

/// `s` left-padded with `'0'` up to width `w`.
pub open spec fn zero_pad(s: Seq<char>, w: nat) -> Seq<char> {
    if s.len() >= w {
        s
    } else {
        Seq::new((w - s.len()) as nat, |i: int| '0') + s
    }
}

/// What `{:0w}` prints for the signed integer `n`: the sign counts in the width
/// and the zeros go between the sign and the digits.
pub open spec fn signed_pad(n: int, w: nat) -> Seq<char> {
    if n < 0 {
        seq!['-'] + zero_pad(dec((-n) as nat), if w > 0 { (w - 1) as nat } else { 0 })
    } else {
        zero_pad(dec(n as nat), w)
    }
}

/// `String::push`: appends one character.
#[verifier::external_body]
pub(crate) fn push_char(s: &mut String, c: char)
    ensures
        final(s)@ == old(s)@.push(c),
{
    s.push(c);
}

/// `String::pop`: removes and returns the last character, if there is one.
#[verifier::external_body]
pub(crate) fn pop_char(s: &mut String) -> (r: Option<char>)
    ensures
        old(s)@.len() == 0 ==> r is None && final(s)@ == old(s)@,
        old(s)@.len() > 0 ==> r == Some(old(s)@.last()) && final(s)@ == old(s)@.drop_last(),
{
    s.pop()
}

/// The characters of `s`, in order.
pub fn chars_of(s: &str) -> (r: Vec<char>)
    ensures
        r@ == s@,
{
    let mut v: Vec<char> = Vec::new();
    for c in it: s.chars()
        invariant
            v@ == it.seq().take(it.index()),
    {
        v.push(c);
    }
    v
}

/// Appends the characters of `v` to `s`.
pub fn push_chars(s: &mut String, v: &[char])
    ensures
        final(s)@ == old(s)@ + v@,
{
    let mut i: usize = 0;
    while i < v.len()
        invariant
            i <= v@.len(),
            s@ == old(s)@ + v@.take(i as int),
        decreases v@.len() - i,
    {
        push_char(s, v[i]);
        i = i + 1;
        assert(v@.take(i as int) == v@.take((i - 1) as int).push(v@[i - 1]));
    }
    assert(v@.take(v@.len() as int) == v@);
}

/// A `String` holding exactly the characters of `v`.
pub fn string_of(v: &[char]) -> (r: String)
    ensures
        r@ == v@,
{
    let mut s = String::new();
    push_chars(&mut s, v);
    s
}

fn digit(d: u64) -> (c: char)
    requires
        d < 10,
    ensures
        c == digit_char(d as nat),
{
    if d == 0 {
        '0'
    } else if d == 1 {
        '1'
    } else if d == 2 {
        '2'
    } else if d == 3 {
        '3'
    } else if d == 4 {
        '4'
    } else if d == 5 {
        '5'
    } else if d == 6 {
        '6'
    } else if d == 7 {
        '7'
    } else if d == 8 {
        '8'
    } else {
        '9'
    }
}

/// Appends the decimal representation of `n`.
pub fn push_dec(s: &mut String, n: u64)
    ensures
        final(s)@ == old(s)@ + dec(n as nat),
    decreases n,
{
    if n >= 10 {
        push_dec(s, n / 10);
    }
    push_char(s, digit(n % 10));
}


/// Number of decimal digits of `n`.
pub fn dec_len(n: u64) -> (r: u64)
    ensures
        r as nat == dec(n as nat).len(),
        1 <= r <= n as nat + 1,
    decreases n,
{
    if n >= 10 {
        let k = dec_len(n / 10);
        k + 1
    } else {
        1
    }
}

/// Appends `'0'` `k` times.
pub fn push_zeros(s: &mut String, k: usize)
    ensures
        final(s)@ == old(s)@ + Seq::new(k as nat, |i: int| '0'),
{
    let mut i: usize = 0;
    while i < k
        invariant
            i <= k,
            s@ == old(s)@ + Seq::new(i as nat, |j: int| '0'),
        decreases k - i,
    {
        push_char(s, '0');
        i = i + 1;
        assert(Seq::new(i as nat, |j: int| '0') == Seq::new((i - 1) as nat, |j: int| '0').push('0'));
    }
}

/// Appends `n` in decimal, zero-padded to width `w` (what `{:0w}` prints for an unsigned `n`).
pub fn push_dec_pad(s: &mut String, n: u64, w: usize)
    ensures
        final(s)@ == old(s)@ + zero_pad(dec(n as nat), w as nat),
{
    let k = dec_len(n);
    if k < w as u64 {
        push_zeros(s, w - (k as usize));
    }
    push_dec(s, n);
    assert(final(s)@ =~= old(s)@ + zero_pad(dec(n as nat), w as nat));
}

/// Appends the signed integer `n` as `{:0w}` prints it.
pub fn push_signed_pad(s: &mut String, n: i64, w: usize)
    ensures
        final(s)@ == old(s)@ + signed_pad(n as int, w as nat),
{
    if n < 0 {
        let m: u64 = (0i128 - (n as i128)) as u64;
        push_char(s, '-');
        let w1: usize = if w > 0 { w - 1 } else { 0 };
        push_dec_pad(s, m, w1);
        assert(final(s)@ =~= old(s)@ + signed_pad(n as int, w as nat));
    } else {
        push_dec_pad(s, n as u64, w);
    }
}

/// Unicode `White_Space`: the characters `char::is_whitespace` accepts.
pub open spec fn white_space(c: char) -> bool {
    let u = c as u32;
    ||| 0x09 <= u <= 0x0D
    ||| u == 0x20
    ||| u == 0x85
    ||| u == 0xA0
    ||| u == 0x1680
    ||| 0x2000 <= u <= 0x200A
    ||| u == 0x2028
    ||| u == 0x2029
    ||| u == 0x202F
    ||| u == 0x205F
    ||| u == 0x3000
}

/// Whether `c` has the Unicode `White_Space` property, as `char::is_whitespace` says.
pub(crate) fn is_whitespace(c: char) -> (b: bool)
    ensures
        b == white_space(c),
{
    let u = c as u32;
    (0x09 <= u && u <= 0x0D) || u == 0x20 || u == 0x85 || u == 0xA0 || u == 0x1680 || (0x2000 <= u && u <= 0x200A)
        || u == 0x2028 || u == 0x2029 || u == 0x202F || u == 0x205F || u == 0x3000
}

/// `s` without its leading white space.
pub open spec fn trim_start(s: Seq<char>) -> Seq<char>
    decreases s.len(),
{
    if s.len() > 0 && white_space(s[0]) {
        trim_start(s.drop_first())
    } else {
        s
    }
}

/// `s` without its trailing white space.
pub open spec fn trim_end(s: Seq<char>) -> Seq<char>
    decreases s.len(),
{
    if s.len() > 0 && white_space(s.last()) {
        trim_end(s.drop_last())
    } else {
        s
    }
}

/// What `str::trim` returns: `s` without leading and trailing white space.
pub open spec fn trim(s: Seq<char>) -> Seq<char> {
    trim_end(trim_start(s))
}

/// The characters of `v` with leading and trailing white space removed (`str::trim`).
pub fn trim_chars(v: &[char]) -> (r: Vec<char>)
    ensures
        r@ == trim(v@),
{
    let n = v.len();
    let mut lo: usize = 0;
    assert(v@.subrange(0, n as int) == v@);
    while lo < n && is_whitespace(v[lo])
        invariant
            lo <= n == v@.len(),
            trim_start(v@) == trim_start(v@.subrange(lo as int, n as int)),
        decreases n - lo,
    {
        assert(v@.subrange(lo as int, n as int).drop_first() == v@.subrange(lo + 1, n as int));
        lo = lo + 1;
    }
    assert(trim_start(v@) == v@.subrange(lo as int, n as int));
    let mut hi: usize = n;
    while hi > lo && is_whitespace(v[hi - 1])
        invariant
            lo <= hi <= n == v@.len(),
            trim(v@) == trim_end(v@.subrange(lo as int, hi as int)),
        decreases hi - lo,
    {
        assert(v@.subrange(lo as int, hi as int).drop_last() == v@.subrange(lo as int, hi - 1));
        hi = hi - 1;
    }
    let mut r: Vec<char> = Vec::new();
    let mut i: usize = lo;
    while i < hi
        invariant
            lo <= i <= hi <= n == v@.len(),
            r@ == v@.subrange(lo as int, i as int),
        decreases hi - i,
    {
        r.push(v[i]);
        i = i + 1;
    }
    r
}

/// `str::trim` into a new `String`.
pub fn trim_string(s: &str) -> (r: String)
    ensures
        r@ == trim(s@),
{
    let v = chars_of(s);
    let t = trim_chars(v.as_slice());
    string_of(t.as_slice())
}


/// Number of characters of `s` before the first `c` (all of `s` when there is none).
pub open spec fn count_before(s: Seq<char>, c: char) -> nat
    decreases s.len(),
{
    if s.len() == 0 || s[0] == c {
        0
    } else {
        1 + count_before(s.drop_first(), c)
    }
}

/// Position of the first `c` in `s` (`str::find` with a `char`, counted in characters).
pub open spec fn find_char(s: Seq<char>, c: char) -> Option<nat> {
    if count_before(s, c) < s.len() {
        Some(count_before(s, c))
    } else {
        None
    }
}

/// `count_before` is pinned down by the position of the first occurrence.
pub proof fn lemma_count_before(s: Seq<char>, c: char, k: nat)
    requires
        k <= s.len(),
        forall|j: int| 0 <= j < k ==> s[j] != c,
        k < s.len() ==> s[k as int] == c,
    ensures
        count_before(s, c) == k,
    decreases k,
{
    if k > 0 {
        lemma_count_before(s.drop_first(), c, (k - 1) as nat);
    }
}

/// `count_before` never exceeds the length.
pub proof fn lemma_count_before_len(s: Seq<char>, c: char)
    ensures
        count_before(s, c) <= s.len(),
        forall|j: int| 0 <= j < count_before(s, c) ==> s[j] != c,
        count_before(s, c) < s.len() ==> s[count_before(s, c) as int] == c,
    decreases s.len(),
{
    if s.len() > 0 && s[0] != c {
        lemma_count_before_len(s.drop_first(), c);
        assert forall|j: int| 0 <= j < count_before(s, c) implies s[j] != c by {
            if j > 0 {
                assert(s[j] == s.drop_first()[j - 1]);
            }
        }
    }
}

/// Position of the first `c` in `v`, if any.
pub fn find_char_in(v: &[char], c: char) -> (r: Option<usize>)
    ensures
        r matches Some(k) ==> find_char(v@, c) == Some(k as nat),
        r is None ==> find_char(v@, c) is None,
{
    let mut i: usize = 0;
    while i < v.len()
        invariant
            i <= v@.len(),
            forall|j: int| 0 <= j < i ==> v@[j] != c,
        decreases v@.len() - i,
    {
        if v[i] == c {
            proof {
                lemma_count_before(v@, c, i as nat);
            }
            return Some(i);
        }
        i = i + 1;
    }
    proof {
        lemma_count_before(v@, c, i as nat);
    }
    None
}

/// `p` is a prefix of `s`.
pub open spec fn has_prefix(s: Seq<char>, p: Seq<char>) -> bool {
    p.len() <= s.len() && s.take(p.len() as int) == p
}

/// Whether `v` starts with the characters of `p` (`str::starts_with`).
pub fn starts_with(v: &[char], p: &str) -> (b: bool)
    ensures
        b == has_prefix(v@, p@),
{
    let pc = chars_of(p);
    if pc.len() > v.len() {
        return false;
    }
    let mut i: usize = 0;
    while i < pc.len()
        invariant
            i <= pc@.len() <= v@.len(),
            pc@ == p@,
            forall|j: int| 0 <= j < i ==> v@[j] == pc@[j],
        decreases pc@.len() - i,
    {
        if v[i] != pc[i] {
            assert(v@.take(pc@.len() as int)[i as int] != p@[i as int]);
            return false;
        }
        i = i + 1;
    }
    assert(v@.take(pc@.len() as int) =~= p@);
    true
}

/// The characters of `v` from position `from` on.
pub fn skip_chars(v: &[char], from: usize) -> (r: Vec<char>)
    requires
        from <= v@.len(),
    ensures
        r@ == v@.skip(from as int),
{
    slice_chars(v, from, v.len())
}

/// The characters of `v` in `[from, to)`.
pub fn slice_chars(v: &[char], from: usize, to: usize) -> (r: Vec<char>)
    requires
        from <= to <= v@.len(),
    ensures
        r@ == v@.subrange(from as int, to as int),
{
    let mut r: Vec<char> = Vec::new();
    let mut i: usize = from;
    while i < to
        invariant
            from <= i <= to <= v@.len(),
            r@ == v@.subrange(from as int, i as int),
        decreases to - i,
    {
        r.push(v[i]);
        i = i + 1;
    }
    r
}

/// `l` without one trailing carriage return.
pub open spec fn strip_cr(l: Seq<char>) -> Seq<char> {
    if l.len() > 0 && l.last() == '\r' {
        l.drop_last()
    } else {
        l
    }
}

/// What `str::lines` yields: the text split at `\n`, a `\r` right before a `\n` dropped,
/// and no empty line after a final `\n`.
pub open spec fn lines(s: Seq<char>) -> Seq<Seq<char>>
    decreases s.len(),
{
    if s.len() == 0 {
        seq![]
    } else {
        let k = count_before(s, '\n');
        if k >= s.len() {
            seq![s]
        } else {
            seq![strip_cr(s.take(k as int))] + lines(s.skip(k as int + 1))
        }
    }
}

/// The views of a vector of character vectors.
pub open spec fn views(v: Seq<Vec<char>>) -> Seq<Seq<char>> {
    v.map_values(|l: Vec<char>| l@)
}

/// The lines of `v`, as `str::lines` splits them.
pub fn split_lines(v: &[char]) -> (r: Vec<Vec<char>>)
    ensures
        views(r@) == lines(v@),
{
    let n = v.len();
    let mut out: Vec<Vec<char>> = Vec::new();
    let mut start: usize = 0;
    let mut i: usize = 0;
    assert(v@.skip(0) == v@);
    while i < n
        invariant
            start <= i <= n == v@.len(),
            forall|j: int| start <= j < i ==> v@[j] != '\n',
            views(out@) + lines(v@.skip(start as int)) == lines(v@),
        decreases n - i,
    {
        if v[i] == '\n' {
            let ghost rest = v@.skip(start as int);
            proof {
                lemma_count_before(rest, '\n', (i - start) as nat);
                assert(rest.skip(i - start + 1) == v@.skip(i + 1));
                assert(rest.take(i - start) == v@.subrange(start as int, i as int));
            }
            let mut line = slice_chars(v, start, i);
            if line.len() > 0 && line[line.len() - 1] == '\r' {
                line.pop();
            }
            let ghost before = out@;
            out.push(line);
            proof {
                assert(views(out@) == views(before).push(strip_cr(rest.take(i - start))));
                assert(views(out@) + lines(v@.skip(i + 1)) == views(before) + lines(rest));
            }
            start = i + 1;
        }
        i = i + 1;
    }
    if start < n {
        let ghost rest = v@.skip(start as int);
        proof {
            lemma_count_before(rest, '\n', (n - start) as nat);
        }
        let line = slice_chars(v, start, n);
        let ghost before = out@;
        out.push(line);
        proof {
            assert(views(out@) == views(before).push(rest));
            assert(lines(v@.skip(n as int)) == Seq::<Seq<char>>::empty());
        }
    } else {
        assert(v@.skip(start as int) == Seq::<char>::empty());
    }
    out
}

/// An ASCII decimal digit.
pub open spec fn is_digit(c: char) -> bool {
    '0' <= c <= '9'
}

/// The value of a string of decimal digits.
pub open spec fn digits_value(s: Seq<char>) -> nat
    decreases s.len(),
{
    if s.len() == 0 {
        0
    } else {
        digits_value(s.drop_last()) * 10 + ((s.last() as int - 48) as nat)
    }
}

/// The digits an unsigned `from_str` reads: one leading `+` is allowed before them.
pub open spec fn unsigned_digits(s: Seq<char>) -> Seq<char> {
    if s.len() > 1 && s[0] == '+' {
        s.drop_first()
    } else {
        s
    }
}

/// What `str::parse` gives for an unsigned integer type whose largest value is `max`.
pub open spec fn parse_uint(s: Seq<char>, max: nat) -> Option<nat> {
    let d = unsigned_digits(s);
    if d.len() > 0 && (forall|i: int| 0 <= i < d.len() ==> is_digit(#[trigger] d[i]))
        && digits_value(d) <= max {
        Some(digits_value(d))
    } else {
        None
    }
}

proof fn lemma_digits_value_grows(d: Seq<char>, k: int)
    requires
        0 <= k <= d.len(),
        forall|i: int| 0 <= i < d.len() ==> is_digit(#[trigger] d[i]),
    ensures
        digits_value(d.take(k)) <= digits_value(d),
    decreases d.len() - k,
{
    if k < d.len() {
        lemma_digits_value_grows(d, k + 1);
        assert(d.take(k + 1).drop_last() == d.take(k));
    } else {
        assert(d.take(k) == d);
    }
}

/// Parses `v` as an unsigned integer no larger than `max`, as `str::parse` does.
pub fn parse_uint_chars(v: &[char], max: u64) -> (r: Option<u64>)
    ensures
        r matches Some(x) ==> parse_uint(v@, max as nat) == Some(x as nat),
        r is None ==> parse_uint(v@, max as nat) is None,
{
    let start: usize = if v.len() > 1 && v[0] == '+' { 1 } else { 0 };
    let ghost d = unsigned_digits(v@);
    assert(d == v@.skip(start as int));
    if start >= v.len() {
        return None;
    }
    let mut value: u64 = 0;
    let mut i: usize = start;
    while i < v.len()
        invariant
            start <= i <= v@.len(),
            start < v@.len(),
            d == v@.skip(start as int),
            d == unsigned_digits(v@),
            value as nat == digits_value(d.take(i - start)),
            value <= max,
            forall|j: int| 0 <= j < i - start ==> is_digit(#[trigger] d[j]),
        decreases v@.len() - i,
    {
        let c = v[i];
        if !('0' <= c && c <= '9') {
            assert(!is_digit(d[i - start]));
            return None;
        }
        let dig: u64 = ((c as u32) - 48) as u64;
        let next: u128 = (value as u128) * 10 + (dig as u128);
        assert(d.take(i - start + 1).drop_last() == d.take(i - start));
        if next > max as u128 {
            proof {
                if forall|j: int| 0 <= j < d.len() ==> is_digit(#[trigger] d[j]) {
                    lemma_digits_value_grows(d, i - start + 1);
                }
            }
            return None;
        }
        value = next as u64;
        i = i + 1;
    }
    assert(d.take(i - start) == d);
    Some(value)
}


/// Splitting a concatenation at a line break: the lines of `x + y` are those of `x`
/// followed by those of `y` when `x` is empty or ends with `\n`.
pub proof fn lemma_lines_concat(x: Seq<char>, y: Seq<char>)
    requires
        x.len() == 0 || x.last() == '\n',
    ensures
        lines(x + y) == lines(x) + lines(y),
    decreases x.len(),
{
    if x.len() == 0 {
        assert(x + y =~= y);
        assert(lines(x) + lines(y) =~= lines(y));
    } else {
        let k = count_before(x, '\n');
        lemma_count_before_len(x, '\n');
        if k >= x.len() {
            assert(x[x.len() - 1] == '\n');
        }
        assert(k < x.len());
        let xy = x + y;
        assert forall|j: int| 0 <= j < k implies xy[j] != '\n' by {
            assert(xy[j] == x[j]);
        }
        assert(xy[k as int] == x[k as int]);
        lemma_count_before(xy, '\n', k);
        let rest = x.skip(k as int + 1);
        if rest.len() > 0 {
            assert(rest.last() == x.last());
        }
        lemma_lines_concat(rest, y);
        assert(xy.take(k as int) =~= x.take(k as int));
        assert(xy.skip(k as int + 1) =~= rest + y);
        assert(lines(xy) == seq![strip_cr(x.take(k as int))] + lines(rest + y));
        assert(lines(x) == seq![strip_cr(x.take(k as int))] + lines(rest));
        assert(lines(xy) =~= lines(x) + lines(y));
    }
}

/// A line without `\n`, ended by one, is one line.
pub proof fn lemma_lines_single(l: Seq<char>)
    requires
        forall|j: int| 0 <= j < l.len() ==> l[j] != '\n',
    ensures
        lines(l + seq!['\n']) == seq![strip_cr(l)],
{
    let x = l + seq!['\n'];
    assert forall|j: int| 0 <= j < l.len() implies x[j] != '\n' by {
        assert(x[j] == l[j]);
    }
    lemma_count_before(x, '\n', l.len());
    assert(x.take(l.len() as int) =~= l);
    assert(x.skip(l.len() as int + 1) =~= Seq::<char>::empty());
    assert(lines(x.skip(l.len() as int + 1)) == Seq::<Seq<char>>::empty());
    assert(lines(x) =~= seq![strip_cr(l)]);
}

/// The decimal representation is a non-empty string of digits.
pub proof fn lemma_dec_digits(n: nat)
    ensures
        dec(n).len() >= 1,
        forall|i: int| 0 <= i < dec(n).len() ==> is_digit(#[trigger] dec(n)[i]),
        digits_value(dec(n)) == n,
    decreases n,
{
    assert(digit_char(n % 10) as int == n % 10 + 48);
    if n < 10 {
        assert(dec(n) == seq![digit_char(n)]);
        assert(dec(n).drop_last() =~= Seq::<char>::empty());
        assert(digits_value(Seq::<char>::empty()) == 0);
        assert(dec(n).last() == digit_char(n));
    } else {
        lemma_dec_digits(n / 10);
        let s = dec(n / 10);
        assert((n / 10) * 10 + n % 10 == n);
        assert(dec(n) == s.push(digit_char(n % 10)));
        assert(dec(n).drop_last() =~= s);
        assert forall|i: int| 0 <= i < dec(n).len() implies is_digit(#[trigger] dec(n)[i]) by {
            if i < s.len() {
                assert(dec(n)[i] == s[i]);
            }
        }
    }
}

/// Leading zeros do not change the value of a string of digits.
pub proof fn lemma_digits_value_zeros(k: nat, s: Seq<char>)
    ensures
        digits_value(Seq::new(k, |i: int| '0') + s) == digits_value(s),
    decreases s.len(), k,
{
    let z = Seq::new(k, |i: int| '0');
    if s.len() == 0 {
        assert(z + s =~= z);
        if k > 0 {
            assert(z.drop_last() =~= Seq::new((k - 1) as nat, |i: int| '0'));
            lemma_digits_value_zeros((k - 1) as nat, s);
            assert(Seq::new((k - 1) as nat, |i: int| '0') + s =~= Seq::new((k - 1) as nat, |i: int| '0'));
        }
    } else {
        assert((z + s).drop_last() =~= z + s.drop_last());
        lemma_digits_value_zeros(k, s.drop_last());
    }
}

/// `parse_uint` reads back a zero-padded decimal that fits.
pub proof fn lemma_parse_dec(n: nat, w: nat, max: nat)
    requires
        n <= max,
    ensures
        parse_uint(zero_pad(dec(n), w), max) == Some(n),
{
    lemma_dec_digits(n);
    let d = dec(n);
    let p = zero_pad(d, w);
    if d.len() < w {
        let k = (w - d.len()) as nat;
        lemma_digits_value_zeros(k, d);
        assert forall|i: int| 0 <= i < p.len() implies is_digit(#[trigger] p[i]) by {
            if i >= k {
                assert(p[i] == d[i - k]);
            }
        }
    }
    assert(is_digit(p[0]));
    assert(unsigned_digits(p) == p);
}

/// Trimming leaves text that starts and ends with non-white-space alone.
pub proof fn lemma_trim_plain(s: Seq<char>)
    requires
        s.len() > 0,
        !white_space(s[0]),
        !white_space(s.last()),
    ensures
        trim(s) == s,
{
}


/// Trimming never lengthens a text, and shortens one that ends with white space.
pub proof fn lemma_trim_shortens(s: Seq<char>)
    ensures
        trim_start(s).len() <= s.len(),
        trim_end(s).len() <= s.len(),
        s.len() > 0 && white_space(s.last()) ==> trim_end(s).len() < s.len(),
    decreases s.len(),
{
    if s.len() > 0 {
        lemma_trim_shortens(s.drop_first());
        lemma_trim_shortens(s.drop_last());
    }
}

/// A text equal to its trimmed self does not end with white space.
pub proof fn lemma_trimmed_end(s: Seq<char>)
    requires
        trim(s) == s,
        s.len() > 0,
    ensures
        !white_space(s.last()),
{
    lemma_trim_shortens(s);
    lemma_trim_shortens(trim_start(s));
    if white_space(s.last()) {
        if trim_start(s).len() == s.len() {
            assert(trim_start(s) == s) by {
                if !(s.len() > 0 && white_space(s[0])) {
                } else {
                    lemma_trim_shortens(s.drop_first());
                }
            }
            assert(trim(s).len() < s.len());
        } else {
            assert(trim(s).len() < s.len());
        }
    }
}

/// `p` occurs in `s` (`str::contains`).
pub open spec fn contains(s: Seq<char>, p: Seq<char>) -> bool {
    exists|i: int| 0 <= i && i + p.len() <= s.len() && #[trigger] s.subrange(i, i + p.len()) == p
}

/// Whether `p` occurs in `s`.
pub fn contains_chars(s: &[char], p: &[char]) -> (r: bool)
    ensures
        r == contains(s@, p@),
{
    let n = s.len();
    let m = p.len();
    if m > n {
        return false;
    }
    let mut i: usize = 0;
    while i <= n - m
        invariant
            m <= n,
            n == s@.len(),
            m == p@.len(),
            i <= n - m + 1,
            forall|j: int| 0 <= j < i ==> #[trigger] s@.subrange(j, j + m) != p@,
        decreases n - m + 1 - i,
    {
        let mut k: usize = 0;
        while k < m && s[i + k] == p[k]
            invariant
                i <= n - m,
                k <= m,
                m <= n,
                n == s@.len(),
                m == p@.len(),
                forall|q: int| 0 <= q < k ==> s@[i + q] == p@[q],
            decreases m - k,
        {
            k = k + 1;
        }
        if k == m {
            assert(s@.subrange(i as int, i + m) =~= p@);
            return true;
        }
        assert(s@.subrange(i as int, i + m)[k as int] != p@[k as int]);
        i = i + 1;
    }
    proof {
        if contains(s@, p@) {
            let j = choose|j: int| 0 <= j && j + p@.len() <= s@.len() && #[trigger] s@.subrange(j, j + p@.len()) == p@;
            assert(s@.subrange(j, j + m) != p@);
        }
    }
    false
}


/// A zero-padded decimal is made of digits only.
pub proof fn lemma_zero_pad_digits(n: nat, w: nat)
    ensures
        forall|i: int| 0 <= i < zero_pad(dec(n), w).len() ==> is_digit(#[trigger] zero_pad(dec(n), w)[i]),
        zero_pad(dec(n), w).len() >= 1,
{
    lemma_dec_digits(n);
    let d = dec(n);
    if d.len() < w {
        let k = (w - d.len()) as nat;
        assert forall|i: int| 0 <= i < zero_pad(d, w).len() implies is_digit(#[trigger] zero_pad(d, w)[i]) by {
            if i >= k {
                assert(zero_pad(d, w)[i] == d[i - k]);
            }
        }
    }
}

} // verus!
