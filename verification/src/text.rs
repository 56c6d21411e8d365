//! Character-sequence helpers with exact specifications: equality, prefixes,
//! substrings, ASCII case folding, Unicode whitespace trimming and decimal
//! numerals.
use vstd::prelude::*;

verus! {

/// `c` lowered when it is an ASCII upper-case letter, unchanged otherwise.
pub open spec fn lower_ascii_char(c: char) -> char {
    if 'A' <= c && c <= 'Z' {
        ((c as u32) + 32) as char
    } else {
        c
    }
}

/// ASCII case folding of a whole sequence.
pub open spec fn lower_ascii(s: Seq<char>) -> Seq<char> {
    s.map_values(|c: char| lower_ascii_char(c))
}

/// `s` with `'A'..='Z'` lowered to `'a'..='z'` and every other character
/// kept, as `str::to_ascii_lowercase` gives it.
pub(crate) fn to_ascii_lowercase(s: &str) -> (r: String)
    ensures
        r@ == lower_ascii(s@),
{
    let mut out = String::new();
    let n = s.unicode_len();
    let mut i: usize = 0;
    while i < n
        invariant
            n == s@.len(),
            i <= n,
            out@ == lower_ascii(s@.take(i as int)),
        decreases n - i,
    {
        let c = s.get_char(i);
        let d = if 'A' <= c && c <= 'Z' {
            ((c as u8) + 32) as char
        } else {
            c
        };
        assert(d == lower_ascii_char(c));
        push_char(&mut out, d);
        assert(lower_ascii(s@.take(i + 1)) =~= lower_ascii(s@.take(i as int)).push(lower_ascii_char(c)));
        i = i + 1;
    }
    assert(s@.take(n as int) =~= s@);
    out
}

/// `String::push` from std: appends one character.
#[verifier::external_body]
pub(crate) fn push_char(s: &mut String, c: char)
    ensures
        final(s)@ == old(s)@.push(c),
{
    s.push(c)
}

/// The view of an optional string.
pub open spec fn opt_view(o: Option<String>) -> Option<Seq<char>> {
    match o {
        Some(s) => Some(s@),
        None => None,
    }
}

/// Exact character-wise equality of two strings.
pub fn str_equals(a: &str, b: &str) -> (r: bool)
    ensures
        r == (a@ == b@),
{
    let n = a.unicode_len();
    if n != b.unicode_len() {
        return false;
    }
    let mut i: usize = 0;
    while i < n
        invariant
            n == a@.len(),
            n == b@.len(),
            i <= n,
            forall|j: int| 0 <= j < i ==> a@[j] == b@[j],
        decreases n - i,
    {
        if a.get_char(i) != b.get_char(i) {
            return false;
        }
        i = i + 1;
    }
    assert(a@ =~= b@);
    true
}


/// Unicode `White_Space`, the property behind `char::is_whitespace`.
pub open spec fn is_ws(c: char) -> bool {
    let u = c as u32;
    (0x9 <= u && u <= 0xd) || u == 0x20 || u == 0x85 || u == 0xa0 || u == 0x1680
        || (0x2000 <= u && u <= 0x200a) || u == 0x2028 || u == 0x2029 || u == 0x202f
        || u == 0x205f || u == 0x3000
}

/// Whether `c` is Unicode white space.
pub fn is_whitespace(c: char) -> (r: bool)
    ensures
        r == is_ws(c),
{
    let u = c as u32;
    (0x9 <= u && u <= 0xd) || u == 0x20 || u == 0x85 || u == 0xa0 || u == 0x1680
        || (0x2000 <= u && u <= 0x200a) || u == 0x2028 || u == 0x2029 || u == 0x202f
        || u == 0x205f || u == 0x3000
}

/// `s` without leading and trailing white space.
pub open spec fn trim_seq(s: Seq<char>) -> Seq<char>
    decreases s.len(),
{
    if s.len() > 0 && is_ws(s[0]) {
        trim_seq(s.drop_first())
    } else if s.len() > 0 && is_ws(s.last()) {
        trim_seq(s.drop_last())
    } else {
        s
    }
}

/// What `trim_seq` leaves neither starts nor ends with white space.
pub proof fn lemma_trim_shape(s: Seq<char>)
    ensures
        trim_seq(s).len() > 0 ==> !is_ws(trim_seq(s)[0]) && !is_ws(trim_seq(s).last()),
        trim_seq(s).len() <= s.len(),
    decreases s.len(),
{
    if s.len() > 0 && is_ws(s[0]) {
        lemma_trim_shape(s.drop_first());
    } else if s.len() > 0 && is_ws(s.last()) {
        lemma_trim_shape(s.drop_last());
    }
}

/// Text that neither starts nor ends with white space is its own trim.
pub proof fn lemma_trim_of_trimmed(s: Seq<char>)
    requires
        s.len() > 0 ==> !is_ws(s[0]) && !is_ws(s.last()),
    ensures
        trim_seq(s) == s,
{
}

/// `str::trim`: the string without leading and trailing white space.
pub fn trim(s: &str) -> (r: &str)
    ensures
        r@ == trim_seq(s@),
{
    let n = s.unicode_len();
    let mut lo: usize = 0;
    assert(s@.subrange(0, n as int) =~= s@);
    while lo < n && is_whitespace(s.get_char(lo))
        invariant
            n == s@.len(),
            lo <= n,
            trim_seq(s@) == trim_seq(s@.subrange(lo as int, n as int)),
        decreases n - lo,
    {
        assert(s@.subrange(lo as int, n as int).drop_first() =~= s@.subrange(lo + 1, n as int));
        lo = lo + 1;
    }
    let mut hi: usize = n;
    while hi > lo && is_whitespace(s.get_char(hi - 1))
        invariant
            n == s@.len(),
            lo <= hi <= n,
            lo < n ==> !is_ws(s@[lo as int]),
            trim_seq(s@) == trim_seq(s@.subrange(lo as int, hi as int)),
        decreases hi - lo,
    {
        let ghost sub = s@.subrange(lo as int, hi as int);
        assert(sub[0] == s@[lo as int]);
        assert(sub.drop_last() =~= s@.subrange(lo as int, hi - 1));
        hi = hi - 1;
    }
    let ghost sub = s@.subrange(lo as int, hi as int);
    if lo < hi {
        assert(sub[0] == s@[lo as int]);
        assert(sub.last() == s@[hi - 1]);
    }
    s.substring_char(lo, hi)
}

/// Decimal digit character of `d`.
pub open spec fn digit_char(d: nat) -> char {
    ((('0' as u32) as nat) + d) as char
}

/// Decimal numeral of `n`, without sign or leading zeros.
pub open spec fn dec(n: nat) -> Seq<char>
    decreases n,
{
    if n < 10 {
        seq![digit_char(n)]
    } else {
        dec(n / 10).push(digit_char(n % 10))
    }
}

/// Appends the decimal numeral of `n` to `s`.
pub fn push_decimal(s: &mut String, n: u64)
    ensures
        final(s)@ == old(s)@ + dec(n as nat),
    decreases n,
{
    if n < 10 {
        push_char(s, ((n as u8) + 48) as char);
        assert(seq![digit_char(n as nat)] =~= Seq::<char>::empty().push(digit_char(n as nat)));
        assert(old(s)@ + dec(n as nat) =~= old(s)@.push(digit_char(n as nat)));
    } else {
        push_decimal(s, n / 10);
        push_char(s, (((n % 10) as u8) + 48) as char);
        assert(old(s)@ + dec(n as nat) =~= (old(s)@ + dec((n / 10) as nat)).push(
            digit_char((n % 10) as nat),
        ));
    }
}

/// The decimal numeral of `n`, as `n.to_string()` writes it.
pub fn decimal(n: u64) -> (r: String)
    ensures
        r@ == dec(n as nat),
{
    let mut s = String::new();
    push_decimal(&mut s, n);
    assert(s@ =~= dec(n as nat));
    s
}

/// Whether every character of `s` is an ASCII digit.
pub open spec fn all_digits(s: Seq<char>) -> bool {
    forall|i: int| 0 <= i < s.len() ==> '0' <= #[trigger] s[i] && s[i] <= '9'
}

/// Value of a digit string, most significant digit first.
pub open spec fn digits_value(s: Seq<char>) -> nat
    decreases s.len(),
{
    if s.len() == 0 {
        0
    } else {
        digits_value(s.drop_last()) * 10 + ((s.last() as u32) - ('0' as u32)) as nat
    }
}

/// What `str::parse::<u16>` accepts: an optional `+`, then one or more ASCII
/// digits whose value fits in 16 bits.
pub open spec fn parse_u16_spec(s: Seq<char>) -> Option<u16> {
    let body = if s.len() > 0 && s[0] == '+' {
        s.drop_first()
    } else {
        s
    };
    if body.len() > 0 && all_digits(body) && digits_value(body) <= 65535 {
        Some(digits_value(body) as u16)
    } else {
        None
    }
}

proof fn lemma_digits_value_prefix(s: Seq<char>, i: int)
    requires
        all_digits(s),
        0 <= i <= s.len(),
    ensures
        digits_value(s.take(i)) <= digits_value(s),
    decreases s.len(),
{
    if i < s.len() {
        assert(all_digits(s.drop_last()));
        lemma_digits_value_prefix(s.drop_last(), i);
        assert(s.drop_last().take(i) =~= s.take(i));
    } else {
        assert(s.take(i) =~= s);
    }
}

/// `str::parse::<u16>`, `None` where it returns an error.
pub fn parse_u16(s: &str) -> (r: Option<u16>)
    ensures
        r == parse_u16_spec(s@),
{
    let n = s.unicode_len();
    let start: usize = if n > 0 && s.get_char(0) == '+' { 1 } else { 0 };
    let ghost body = if s@.len() > 0 && s@[0] == '+' { s@.drop_first() } else { s@ };
    assert(body =~= s@.subrange(start as int, n as int));
    if start == n {
        return None;
    }
    let mut acc: u32 = 0;
    let mut i: usize = start;
    while i < n
        invariant
            n == s@.len(),
            start <= i <= n,
            body =~= s@.subrange(start as int, n as int),
            body == (if s@.len() > 0 && s@[0] == '+' { s@.drop_first() } else { s@ }),
            acc <= 65535,
            all_digits(body.take(i - start)),
            acc == digits_value(body.take(i - start)),
        decreases n - i,
    {
        let c = s.get_char(i);
        if c < '0' || c > '9' {
            assert(body[i - start] == c);
            assert(!all_digits(body));
            return None;
        }
        let d = (c as u32) - ('0' as u32);
        let ghost pre = body.take(i - start);
        let ghost next = body.take(i - start + 1);
        assert(next.drop_last() =~= pre);
        assert(next.last() == c);
        assert(all_digits(next));
        acc = acc * 10 + d;
        assert(acc == digits_value(next));
        i = i + 1;
        assert(next =~= body.take(i - start));
        if acc > 65535 {
            proof {
                if all_digits(body) {
                    lemma_digits_value_prefix(body, (i - start) as int);
                }
            }
            return None;
        }
    }
    assert(body.take(n - start) =~= body);
    Some(acc as u16)
}


/// What `str::parse::<u32>` accepts: an optional `+`, then one or more ASCII
/// digits whose value fits in 32 bits.
pub open spec fn parse_u32_spec(s: Seq<char>) -> Option<u32> {
    let body = if s.len() > 0 && s[0] == '+' {
        s.drop_first()
    } else {
        s
    };
    if body.len() > 0 && all_digits(body) && digits_value(body) <= 4294967295 {
        Some(digits_value(body) as u32)
    } else {
        None
    }
}

/// `str::parse::<u32>`, `None` where it returns an error.
pub fn parse_u32(s: &str) -> (r: Option<u32>)
    ensures
        r == parse_u32_spec(s@),
{
    let n = s.unicode_len();
    let start: usize = if n > 0 && s.get_char(0) == '+' { 1 } else { 0 };
    let ghost body = if s@.len() > 0 && s@[0] == '+' { s@.drop_first() } else { s@ };
    assert(body =~= s@.subrange(start as int, n as int));
    if start == n {
        return None;
    }
    let mut acc: u64 = 0;
    let mut i: usize = start;
    while i < n
        invariant
            n == s@.len(),
            start <= i <= n,
            body =~= s@.subrange(start as int, n as int),
            body == (if s@.len() > 0 && s@[0] == '+' { s@.drop_first() } else { s@ }),
            acc <= 4294967295,
            all_digits(body.take(i - start)),
            acc == digits_value(body.take(i - start)),
        decreases n - i,
    {
        let c = s.get_char(i);
        if c < '0' || c > '9' {
            assert(body[i - start] == c);
            assert(!all_digits(body));
            return None;
        }
        let d = ((c as u32) - ('0' as u32)) as u64;
        let ghost pre = body.take(i - start);
        let ghost next = body.take(i - start + 1);
        assert(next.drop_last() =~= pre);
        assert(next.last() == c);
        assert(all_digits(next));
        acc = acc * 10 + d;
        assert(acc == digits_value(next));
        i = i + 1;
        assert(next =~= body.take(i - start));
        if acc > 4294967295 {
            proof {
                if all_digits(body) {
                    lemma_digits_value_prefix(body, (i - start) as int);
                }
            }
            return None;
        }
    }
    assert(body.take(n - start) =~= body);
    Some(acc as u32)
}


/// How `{}` writes the signed integer `n`.
pub open spec fn sdec(n: int) -> Seq<char> {
    if n < 0 {
        "-"@ + dec((-n) as nat)
    } else {
        dec(n as nat)
    }
}

/// The decimal text of `n`, as `{}` writes it.
pub fn signed_decimal(n: i32) -> (r: String)
    ensures
        r@ == sdec(n as int),
{
    if n < 0 {
        let magnitude: i64 = -(n as i64);
        let mut s = String::from_str("-");
        s.append(decimal(magnitude as u64).as_str());
        proof {
            reveal_strlit("-");
        }
        s
    } else {
        decimal(n as u64)
    }
}

/// Whether `q` occurs in `s` as a contiguous run of characters.
pub open spec fn has_substring(s: Seq<char>, q: Seq<char>) -> bool {
    exists|i: int| 0 <= i && i + q.len() <= s.len() && #[trigger] s.subrange(i, i + q.len()) == q
}

/// Whether `s` begins with `p`.
pub fn starts_with(s: &str, p: &str) -> (r: bool)
    ensures
        r == p@.is_prefix_of(s@),
{
    let n = s.unicode_len();
    let m = p.unicode_len();
    if m > n {
        return false;
    }
    let mut i: usize = 0;
    while i < m
        invariant
            n == s@.len(),
            m == p@.len(),
            m <= n,
            i <= m,
            forall|j: int| 0 <= j < i ==> s@[j] == p@[j],
        decreases m - i,
    {
        if s.get_char(i) != p.get_char(i) {
            return false;
        }
        i = i + 1;
    }
    assert(p@ =~= s@.subrange(0, m as int));
    true
}

/// Whether `s` ends with `p`.
pub fn ends_with(s: &str, p: &str) -> (r: bool)
    ensures
        r == p@.is_suffix_of(s@),
{
    let n = s.unicode_len();
    let m = p.unicode_len();
    if m > n {
        return false;
    }
    let off = n - m;
    let mut i: usize = 0;
    while i < m
        invariant
            n == s@.len(),
            m == p@.len(),
            off == n - m,
            i <= m,
            forall|j: int| 0 <= j < i ==> s@[off + j] == p@[j],
        decreases m - i,
    {
        if s.get_char(off + i) != p.get_char(i) {
            assert(s@.subrange(off as int, n as int)[i as int] == s@[off + i]);
            return false;
        }
        i = i + 1;
    }
    assert(p@ =~= s@.subrange(off as int, n as int));
    true
}

/// Whether `q` occurs in `s`, as `str::contains` with a string pattern.
pub fn contains_str(s: &str, q: &str) -> (r: bool)
    ensures
        r == has_substring(s@, q@),
{
    let n = s.unicode_len();
    let m = q.unicode_len();
    if m > n {
        return false;
    }
    let mut i: usize = 0;
    loop
        invariant
            n == s@.len(),
            m == q@.len(),
            m <= n,
            i <= n - m,
            forall|k: int| 0 <= k < i ==> #[trigger] s@.subrange(k, k + q@.len()) != q@,
        decreases n - m - i,
    {
        let mut j: usize = 0;
        let mut same = true;
        while j < m
            invariant
                n == s@.len(),
                m == q@.len(),
                i + m <= n,
                j <= m,
                same ==> forall|t: int| 0 <= t < j ==> s@[i + t] == q@[t],
                !same ==> s@.subrange(i as int, i + q@.len()) != q@,
            decreases m - j,
        {
            if same && s.get_char(i + j) != q.get_char(j) {
                assert(s@.subrange(i as int, i + q@.len())[j as int] == s@[i + j]);
                same = false;
            }
            j = j + 1;
        }
        if same {
            assert(s@.subrange(i as int, i + m) =~= q@);
            return true;
        }
        if i == n - m {
            assert forall|k: int| 0 <= k && k + q@.len() <= s@.len() implies #[trigger] s@.subrange(
                k,
                k + q@.len(),
            ) != q@ by {}
            return false;
        }
        i = i + 1;
    }
}

/// Index of the last occurrence of `c` in `s`, or -1.
pub open spec fn last_index_of(s: Seq<char>, c: char) -> int
    decreases s.len(),
{
    if s.len() == 0 {
        -1
    } else if s.last() == c {
        s.len() - 1
    } else {
        last_index_of(s.drop_last(), c)
    }
}

pub proof fn lemma_last_index_of_props(s: Seq<char>, c: char)
    ensures
        -1 <= last_index_of(s, c) < s.len(),
        last_index_of(s, c) >= 0 ==> s[last_index_of(s, c)] == c,
        forall|j: int| last_index_of(s, c) < j < s.len() ==> s[j] != c,
    decreases s.len(),
{
    if s.len() > 0 && s.last() != c {
        lemma_last_index_of_props(s.drop_last(), c);
        assert forall|j: int| last_index_of(s, c) < j < s.len() implies s[j] != c by {
            if j < s.len() - 1 {
                assert(s[j] == s.drop_last()[j]);
            }
        }
    }
}

/// Position of the last `c` in `s`, as `str::rfind` with a character pattern
/// counts characters.
pub fn rfind_char(s: &str, c: char) -> (r: Option<usize>)
    ensures
        match r {
            Some(i) => i == last_index_of(s@, c),
            None => last_index_of(s@, c) == -1,
        },
        r matches Some(i) ==> i < s@.len() && s@[i as int] == c,
{
    proof {
        lemma_last_index_of_props(s@, c);
    }
    let n = s.unicode_len();
    let mut i: usize = n;
    assert(s@.take(n as int) =~= s@);
    while i > 0
        invariant
            n == s@.len(),
            i <= n,
            last_index_of(s@, c) == last_index_of(s@.take(i as int), c),
        decreases i,
    {
        if s.get_char(i - 1) == c {
            return Some(i - 1);
        }
        assert(s@.take(i as int).drop_last() =~= s@.take(i - 1));
        i = i - 1;
    }
    None
}

/// Unicode lower-case mapping of a string, as `str::to_lowercase` computes it.
pub uninterp spec fn unicode_lower(s: Seq<char>) -> Seq<char>;

/// `str::to_lowercase` from std: the Unicode lower-case mapping of every
/// character. Its result is a function of the text alone; nothing more of it is
/// stated here.
#[verifier::external_body]
pub(crate) fn to_lowercase(s: &str) -> (r: String)
    ensures
        r@ == unicode_lower(s@),
{
    s.to_lowercase()
}

/// Index of the first `c` in `s`, or -1.
pub open spec fn first_index_of(s: Seq<char>, c: char) -> int
    decreases s.len(),
{
    if s.len() == 0 {
        -1
    } else if s[0] == c {
        0
    } else if first_index_of(s.drop_first(), c) < 0 {
        -1
    } else {
        1 + first_index_of(s.drop_first(), c)
    }
}

pub proof fn lemma_first_index_of_props(s: Seq<char>, c: char)
    ensures
        -1 <= first_index_of(s, c) < s.len(),
        first_index_of(s, c) >= 0 ==> s[first_index_of(s, c)] == c,
        forall|j: int| 0 <= j < s.len() && (first_index_of(s, c) < 0 || j < first_index_of(s, c))
            ==> s[j] != c,
    decreases s.len(),
{
    if s.len() > 0 && s[0] != c {
        lemma_first_index_of_props(s.drop_first(), c);
        assert forall|j: int|
            0 <= j < s.len() && (first_index_of(s, c) < 0 || j < first_index_of(s, c)) implies s[j]
            != c by {
            if j > 0 {
                assert(s[j] == s.drop_first()[j - 1]);
            }
        }
    }
}

/// Position of the first `c` in `s`, as `str::find` with a character pattern
/// counts characters.
pub fn find_char(s: &str, c: char) -> (r: Option<usize>)
    ensures
        match r {
            Some(i) => i == first_index_of(s@, c),
            None => first_index_of(s@, c) == -1,
        },
        r matches Some(i) ==> i < s@.len() && s@[i as int] == c,
{
    proof {
        lemma_first_index_of_props(s@, c);
    }
    let n = s.unicode_len();
    let mut i: usize = 0;
    assert(s@.skip(0) =~= s@);
    while i < n
        invariant
            n == s@.len(),
            i <= n,
            first_index_of(s@, c) == if first_index_of(s@.skip(i as int), c) < 0 {
                -1
            } else {
                i + first_index_of(s@.skip(i as int), c)
            },
        decreases n - i,
    {
        if s.get_char(i) == c {
            assert(s@.skip(i as int)[0] == c);
            return Some(i);
        }
        assert(s@.skip(i as int).drop_first() =~= s@.skip(i + 1));
        i = i + 1;
    }
    assert(s@.skip(n as int) =~= Seq::<char>::empty());
    None
}

} // verus!
