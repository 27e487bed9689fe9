//! Strings as sequences of characters: trimming, comparing, splitting, and
//! whole numbers in decimal.
use vstd::prelude::*;

verus! {

/// Adds a character at the end of a string: `std::string::String::push`. The
/// string afterwards is the one before followed by that character.
pub assume_specification[ String::push ](s: &mut String, c: char)
    ensures
        final(s)@ == old(s)@.push(c),
;

/// Whether a character is white space: Unicode's `White_Space` property.
pub open spec fn is_white(c: char) -> bool {
    let n = c as u32;
    ||| 9 <= n <= 13
    ||| n == 32
    ||| n == 0x85
    ||| n == 0xa0
    ||| n == 0x1680
    ||| 0x2000 <= n <= 0x200a
    ||| n == 0x2028
    ||| n == 0x2029
    ||| n == 0x202f
    ||| n == 0x205f
    ||| n == 0x3000
}

/// A string without the white space at its two ends.
pub open spec fn trimmed(s: Seq<char>) -> Seq<char>
    decreases s.len(),
{
    if s.len() > 0 && is_white(s[0]) {
        trimmed(s.drop_first())
    } else if s.len() > 0 && is_white(s.last()) {
        trimmed(s.drop_last())
    } else {
        s
    }
}

/// Trimming cuts off white space and nothing else: where all before `lo` and all from
/// `hi` on is white space, and the characters at the two ends of what is between are
/// not, that is what is left.
pub proof fn law_trimming_cuts_white_space(s: Seq<char>, lo: int, hi: int)
    requires
        0 <= lo <= hi <= s.len(),
        forall|k: int| 0 <= k < lo || hi <= k < s.len() ==> is_white(#[trigger] s[k]),
        lo < hi ==> !is_white(s[lo]) && !is_white(s[hi - 1]),
    ensures
        trimmed(s) == s.subrange(lo, hi),
    decreases s.len(),
{
    if lo > 0 && s.len() > 0 {
        let t = s.drop_first();
        assert(is_white(s[0]));
        assert forall|k: int| 0 <= k < lo - 1 || hi - 1 <= k < t.len() implies is_white(
            #[trigger] t[k],
        ) by {
            assert(t[k] == s[k + 1]);
        }
        law_trimming_cuts_white_space(t, lo - 1, hi - 1);
        assert(t.subrange(lo - 1, hi - 1) =~= s.subrange(lo, hi));
    } else if hi < s.len() {
        assert(is_white(s[s.len() - 1]));
        if lo == hi {
            assert(is_white(s[0]));
            let t = s.drop_first();
            assert forall|k: int| 0 <= k < t.len() implies is_white(#[trigger] t[k]) by {
                assert(t[k] == s[k + 1]);
            }
            law_trimming_cuts_white_space(t, 0, 0);
            assert(t.subrange(0, 0) =~= s.subrange(lo, hi));
        } else {
            let t = s.drop_last();
            law_trimming_cuts_white_space(t, lo, hi);
            assert(t.subrange(lo, hi) =~= s.subrange(lo, hi));
        }
    } else {
        assert(s.subrange(lo, hi) =~= s);
    }
}

/// Of the ASCII characters the space, the tab and the line ends are white space, and
/// none that can be seen is.
pub proof fn law_blanks_and_line_ends_are_white(c: char)
    requires
        c as u32 <= 127,
    ensures
        is_white(c) <==> c as u32 == 32 || 9 <= c as u32 <= 13,
{
}

/// Whether a character is white space.
fn is_white_space(c: char) -> (r: bool)
    ensures
        r == is_white(c),
{
    let n: u32 = c as u32;
    (9 <= n && n <= 13) || n == 32 || n == 0x85 || n == 0xa0 || n == 0x1680 || (0x2000 <= n && n
        <= 0x200a) || n == 0x2028 || n == 0x2029 || n == 0x202f || n == 0x205f || n == 0x3000
}

/// Where the string without the white space at its two ends starts and ends.
fn trim_ends(v: &Vec<char>) -> (r: (usize, usize))
    ensures
        r.0 <= r.1 <= v@.len(),
        v@.subrange(r.0 as int, r.1 as int) == trimmed(v@),
{
    let mut lo: usize = 0;
    assert(v@.subrange(0, v@.len() as int) =~= v@);
    while lo < v.len() && is_white_space(v[lo])
        invariant
            lo <= v@.len(),
            trimmed(v@.subrange(lo as int, v@.len() as int)) == trimmed(v@),
        decreases v@.len() - lo,
    {
        assert(v@.subrange(lo as int, v@.len() as int).drop_first() =~= v@.subrange(
            lo + 1,
            v@.len() as int,
        ));
        lo = lo + 1;
    }
    let mut hi: usize = v.len();
    while hi > lo && is_white_space(v[hi - 1])
        invariant
            lo <= hi <= v@.len(),
            lo < hi ==> !is_white(v@[lo as int]),
            trimmed(v@.subrange(lo as int, hi as int)) == trimmed(v@),
        decreases hi,
    {
        assert(v@.subrange(lo as int, hi as int).drop_last() =~= v@.subrange(lo as int, hi - 1));
        hi = hi - 1;
    }
    (lo, hi)
}

/// The string in upper case, as `str::to_uppercase` gives it.
pub uninterp spec fn upper_of(s: Seq<char>) -> Seq<char>;

/// The upper-case form of an ASCII letter; any other character itself.
pub open spec fn ascii_upper(c: char) -> char {
    if 'a' <= c && c <= 'z' {
        (c as u8 - 32) as char
    } else {
        c
    }
}

/// Whether every character is ASCII.
pub open spec fn all_ascii(s: Seq<char>) -> bool {
    forall|i: int| 0 <= i < s.len() ==> (#[trigger] s[i]) as u32 <= 127
}

/// `str::to_uppercase`: the string in upper case by Unicode's rules, which turn
/// every character into one or more, and for an ASCII string each letter into
/// its upper-case form.
#[verifier::external_body]
fn std_to_uppercase(s: &str) -> (r: String)
    ensures
        r@ == upper_of(s@),
        r@.len() >= s@.len(),
        s@.len() == 0 ==> r@.len() == 0,
        all_ascii(s@) ==> r@ == s@.map_values(|c: char| ascii_upper(c)),
{
    s.to_uppercase()
}

/// The string without the white space at its two ends.
pub fn trim(s: &str) -> (r: String)
    ensures
        r@ == trimmed(s@),
{
    let v = chars_of(s);
    let (lo, hi) = trim_ends(&v);
    let mut r = String::new();
    let mut i: usize = lo;
    while i < hi
        invariant
            lo <= i <= hi <= v@.len(),
            r@ =~= v@.subrange(lo as int, i as int),
        decreases hi - i,
    {
        r.push(v[i]);
        i = i + 1;
    }
    r
}

/// Whether nothing is left of the string once it is trimmed.
pub fn is_blank(s: &str) -> (r: bool)
    ensures
        r == (trimmed(s@).len() == 0),
{
    let v = chars_of(s);
    let (lo, hi) = trim_ends(&v);
    lo == hi
}

/// The string in upper case.
pub fn upper(s: &str) -> (r: String)
    ensures
        r@ == upper_of(s@),
        r@.len() >= s@.len(),
        s@.len() == 0 ==> r@.len() == 0,
        all_ascii(s@) ==> r@ == s@.map_values(|c: char| ascii_upper(c)),
{
    std_to_uppercase(s)
}

/// The characters of a string.
pub fn chars_of(s: &str) -> (r: Vec<char>)
    ensures
        r@ == s@,
{
    let mut v: Vec<char> = Vec::new();
    for c in it: s.chars()
        invariant
            it.seq() == s@,
            v@ == s@.take(it.index()),
    {
        v.push(c);
        assert(s@.take(it.index() + 1) =~= s@.take(it.index()).push(c));
    }
    assert(s@.take(s@.len() as int) =~= s@);
    v
}

/// Whether two strings are the same.
pub fn same(a: &str, b: &str) -> (r: bool)
    ensures
        r == (a@ == b@),
{
    a.to_owned() == b.to_owned()
}

/// The lower-case form of an ASCII letter; any other character itself.
pub open spec fn ascii_lower(c: char) -> char {
    if 'A' <= c && c <= 'Z' {
        (c as u8 + 32) as char
    } else {
        c
    }
}

/// Whether two strings differ at most in the case of their ASCII letters.
pub open spec fn same_ignoring_case(a: Seq<char>, b: Seq<char>) -> bool {
    &&& a.len() == b.len()
    &&& forall|i: int|
        0 <= i < a.len() ==> ascii_lower(#[trigger] a[i]) == ascii_lower(b[i])
}

/// Where case is ignored two strings are the same just if they are as long and differ,
/// where they do, in that one has an ASCII capital and the other the same small letter,
/// which stands 32 places further.
pub proof fn law_only_case_is_ignored(a: Seq<char>, b: Seq<char>)
    ensures
        same_ignoring_case(a, b) <==> a.len() == b.len() && forall|i: int|
            #![trigger a[i]]
            #![trigger b[i]]
            0 <= i < a.len() ==> {
                ||| a[i] == b[i]
                ||| 'A' <= a[i] <= 'Z' && b[i] as int == a[i] as int + 32
                ||| 'A' <= b[i] <= 'Z' && a[i] as int == b[i] as int + 32
            },
{
    assert forall|x: char, y: char|
        #![trigger ascii_lower(x), ascii_lower(y)]
        ascii_lower(x) == ascii_lower(y) <==> {
            ||| x == y
            ||| 'A' <= x <= 'Z' && y as int == x as int + 32
            ||| 'A' <= y <= 'Z' && x as int == y as int + 32
        } by {
        lemma_lower(x);
        lemma_lower(y);
    }
    if same_ignoring_case(a, b) {
        assert forall|i: int| 0 <= i < a.len() implies {
            ||| #[trigger] a[i] == b[i]
            ||| 'A' <= a[i] <= 'Z' && b[i] as int == a[i] as int + 32
            ||| 'A' <= b[i] <= 'Z' && a[i] as int == b[i] as int + 32
        } by {
            assert(ascii_lower(a[i]) == ascii_lower(b[i]));
        }
    } else if a.len() == b.len() {
        let i = choose|i: int|
            0 <= i < a.len() && ascii_lower(#[trigger] a[i]) != ascii_lower(b[i]);
        assert(ascii_lower(a[i]) != ascii_lower(b[i]));
    }
}

proof fn lemma_lower(c: char)
    ensures
        'A' <= c <= 'Z' ==> ascii_lower(c) as int == c as int + 32,
        !('A' <= c <= 'Z') ==> ascii_lower(c) == c,
{
}

fn lower_char(c: char) -> (r: char)
    ensures
        r == ascii_lower(c),
{
    if 'A' <= c && c <= 'Z' {
        (c as u8 + 32) as char
    } else {
        c
    }
}

/// Whether two strings differ at most in the case of their ASCII letters.
pub fn eq_ignore_ascii_case(a: &str, b: &str) -> (r: bool)
    ensures
        r == same_ignoring_case(a@, b@),
{
    let va = chars_of(a);
    let vb = chars_of(b);
    if va.len() != vb.len() {
        return false;
    }
    let mut i: usize = 0;
    while i < va.len()
        invariant
            va@ == a@,
            vb@ == b@,
            va@.len() == vb@.len(),
            i <= va@.len(),
            forall|j: int| 0 <= j < i ==> ascii_lower(#[trigger] a@[j]) == ascii_lower(b@[j]),
        decreases va@.len() - i,
    {
        if lower_char(va[i]) != lower_char(vb[i]) {
            assert(ascii_lower(a@[i as int]) != ascii_lower(b@[i as int]));
            return false;
        }
        i = i + 1;
    }
    true
}

/// The order of strings: by the first character that differs, a prefix first.
pub open spec fn before(a: Seq<char>, b: Seq<char>) -> bool
    decreases a.len(),
{
    if b.len() == 0 {
        false
    } else if a.len() == 0 {
        true
    } else if a[0] != b[0] {
        a[0] < b[0]
    } else {
        before(a.drop_first(), b.drop_first())
    }
}

/// Whether `a` comes before `b`.
pub fn str_before(a: &str, b: &str) -> (r: bool)
    ensures
        r == before(a@, b@),
{
    let va = chars_of(a);
    let vb = chars_of(b);
    let mut i: usize = 0;
    assert(a@.skip(0) =~= a@);
    assert(b@.skip(0) =~= b@);
    while i < va.len() && i < vb.len() && va[i] == vb[i]
        invariant
            va@ == a@,
            vb@ == b@,
            i <= va@.len(),
            i <= vb@.len(),
            before(a@, b@) == before(a@.skip(i as int), b@.skip(i as int)),
        decreases va@.len() - i,
    {
        assert(a@.skip(i as int).drop_first() =~= a@.skip(i + 1));
        assert(b@.skip(i as int).drop_first() =~= b@.skip(i + 1));
        i = i + 1;
    }
    if i >= vb.len() {
        false
    } else if i >= va.len() {
        true
    } else {
        va[i] < vb[i]
    }
}

/// The order of strings is strict.
pub proof fn lemma_before_strict(a: Seq<char>, b: Seq<char>)
    ensures
        !before(a, a),
        before(a, b) ==> !before(b, a),
    decreases a.len(),
{
    if a.len() > 0 {
        lemma_before_strict(a.drop_first(), a.drop_first());
        if b.len() > 0 && a[0] == b[0] {
            lemma_before_strict(a.drop_first(), b.drop_first());
        }
    }
}

/// The order of strings is transitive.
pub proof fn lemma_before_transitive(a: Seq<char>, b: Seq<char>, c: Seq<char>)
    requires
        before(a, b),
        before(b, c),
    ensures
        before(a, c),
    decreases a.len(),
{
    if a.len() > 0 && b.len() > 0 && c.len() > 0 && a[0] == b[0] && b[0] == c[0] {
        lemma_before_transitive(a.drop_first(), b.drop_first(), c.drop_first());
    }
}

/// Of two different strings one comes before the other.
pub proof fn lemma_before_total(a: Seq<char>, b: Seq<char>)
    ensures
        before(a, b) || before(b, a) || a == b,
    decreases a.len(),
{
    if a.len() == 0 {
        if b.len() == 0 {
            assert(a =~= b);
        }
    } else if b.len() > 0 && a[0] == b[0] {
        lemma_before_total(a.drop_first(), b.drop_first());
        if a.drop_first() == b.drop_first() {
            assert(a =~= seq![a[0]] + a.drop_first());
            assert(b =~= seq![b[0]] + b.drop_first());
        }
    }
}

/// The character of a decimal digit.
pub open spec fn digit(d: int) -> char {
    (48 + d) as char
}

/// A number in decimal, without leading zeros.
pub open spec fn decimal(n: nat) -> Seq<char>
    decreases n,
{
    if n < 10 {
        seq![digit(n as int)]
    } else {
        decimal(n / 10).push(digit((n % 10) as int))
    }
}

/// A number in decimal with its sign when it is negative.
pub open spec fn decimal_int(n: int) -> Seq<char> {
    if n < 0 {
        seq!['-'] + decimal((-n) as nat)
    } else {
        decimal(n as nat)
    }
}

/// A number in decimal, at least `width` characters wide, filled with zeros
/// between the sign and the digits.
pub open spec fn zero_padded(n: int, width: int) -> Seq<char> {
    let digits = if n < 0 {
        decimal((-n) as nat)
    } else {
        decimal(n as nat)
    };
    let sign = if n < 0 {
        seq!['-']
    } else {
        Seq::<char>::empty()
    };
    sign + zeros(width - sign.len() - digits.len()) + digits
}

/// That many zeros.
pub open spec fn zeros(n: int) -> Seq<char> {
    Seq::new(
        if n > 0 {
            n as nat
        } else {
            0
        },
        |i: int| '0',
    )
}

fn digit_char(d: u64) -> (c: char)
    requires
        d < 10,
    ensures
        c == digit(d as int),
{
    (48u8 + d as u8) as char
}

/// A number in decimal.
pub fn fmt_u64(n: u64) -> (r: String)
    ensures
        r@ == decimal(n as nat),
    decreases n,
{
    if n < 10 {
        let mut s = String::new();
        s.push(digit_char(n));
        assert(s@ =~= decimal(n as nat));
        s
    } else {
        let mut s = fmt_u64(n / 10);
        s.push(digit_char(n % 10));
        s
    }
}

/// The magnitude of a number.
fn magnitude(n: i64) -> (r: u64)
    ensures
        r == if n < 0 { -n } else { n as int },
{
    if n == i64::MIN {
        9223372036854775808u64
    } else if n < 0 {
        (-n) as u64
    } else {
        n as u64
    }
}

/// A number in decimal, with its sign when it is negative.
pub fn fmt_i64(n: i64) -> (r: String)
    ensures
        r@ == decimal_int(n as int),
{
    let digits = fmt_u64(magnitude(n));
    if n < 0 {
        let mut s = String::new();
        s.push('-');
        s.append(digits.as_str());
        assert(s@ =~= decimal_int(n as int));
        s
    } else {
        digits
    }
}

/// A number in decimal, filled with zeros to `width` characters.
pub fn fmt_padded(n: i64, width: usize) -> (r: String)
    ensures
        r@ == zero_padded(n as int, width as int),
{
    let digits = fmt_u64(magnitude(n));
    let mut s = String::new();
    if n < 0 {
        s.push('-');
    }
    let ghost sign = s@;
    let used: usize = digits.as_str().unicode_len();
    let room: usize = if n < 0 && width > 0 {
        width - 1
    } else {
        width
    };
    let mut i: usize = used;
    assert(s@ =~= sign + zeros(0));
    while i < room
        invariant
            used <= i,
            i <= room || i == used,
            s@ == sign + zeros(i - used),
        decreases room - i,
    {
        s.push('0');
        assert(zeros(i + 1 - used) =~= zeros(i - used).push('0'));
        assert(s@ =~= sign + zeros(i + 1 - used));
        i = i + 1;
    }
    s.append(digits.as_str());
    assert(s@ =~= zero_padded(n as int, width as int)) by {
        assert(sign =~= if n < 0 {
            seq!['-']
        } else {
            Seq::<char>::empty()
        });
        assert(zeros(i - used) =~= zeros(width - sign.len() - used));
    }
    s
}

/// Whether a character is a decimal digit.
pub open spec fn is_digit(c: char) -> bool {
    '0' <= c && c <= '9'
}

/// The value of a decimal digit.
pub open spec fn digit_value(c: char) -> int {
    c as int - 48
}

/// Whether a string is made of decimal digits, at least one.
pub open spec fn all_digits(s: Seq<char>) -> bool {
    s.len() > 0 && forall|i: int| 0 <= i < s.len() ==> is_digit(#[trigger] s[i])
}

/// The number that a string of digits stands for.
pub open spec fn number(s: Seq<char>) -> int
    decreases s.len(),
{
    if s.len() == 0 {
        0
    } else {
        number(s.drop_last()) * 10 + digit_value(s.last())
    }
}

/// The whole number that a string stands for, if it is one within the bounds:
/// digits after an optional sign. The minus sign counts as a sign only where
/// negative numbers are within the bounds.
pub open spec fn parsed(s: Seq<char>, lo: int, hi: int) -> Option<int> {
    let negative = s.len() > 0 && s[0] == '-' && lo < 0;
    let digits = if s.len() > 0 && (s[0] == '+' || negative) {
        s.drop_first()
    } else {
        s
    };
    let value = if negative {
        -number(digits)
    } else {
        number(digits)
    };
    if all_digits(digits) && lo <= value && value <= hi {
        Some(value)
    } else {
        None
    }
}

proof fn lemma_number_nonneg(s: Seq<char>)
    requires
        forall|i: int| 0 <= i < s.len() ==> is_digit(#[trigger] s[i]),
    ensures
        number(s) >= 0,
    decreases s.len(),
{
    if s.len() > 0 {
        lemma_number_nonneg(s.drop_last());
    }
}

/// More digits make no smaller number.
proof fn lemma_number_prefix(s: Seq<char>, k: int)
    requires
        forall|i: int| 0 <= i < s.len() ==> is_digit(#[trigger] s[i]),
        0 <= k <= s.len(),
    ensures
        0 <= number(s.take(k)) <= number(s),
    decreases s.len() - k,
{
    if k == s.len() {
        assert(s.take(k) =~= s);
        lemma_number_nonneg(s);
    } else {
        lemma_number_prefix(s, k + 1);
        lemma_number_nonneg(s.take(k));
        assert(s.take(k + 1).drop_last() =~= s.take(k));
        assert(s.take(k + 1).last() == s[k]);
    }
}

/// The whole number within `lo..=hi` that a string stands for.
pub fn parse_int(s: &str, lo: i64, hi: i64) -> (r: Option<i64>)
    requires
        lo <= 0 <= hi,
    ensures
        match r {
            Some(v) => parsed(s@, lo as int, hi as int) == Some(v as int),
            None => parsed(s@, lo as int, hi as int) is None,
        },
{
    let v = chars_of(s);
    let negative = v.len() > 0 && v[0] == '-' && lo < 0;
    let start: usize = if v.len() > 0 && (v[0] == '+' || negative) {
        1
    } else {
        0
    };
    let ghost digits = s@.skip(start as int);
    assert(s@.skip(0) =~= s@);
    assert(s@.len() > 0 ==> s@.skip(1) =~= s@.drop_first());
    if start >= v.len() {
        return None;
    }
    let mut acc: i128 = 0;
    let mut i: usize = start;
    assert(digits.take(0) =~= Seq::<char>::empty());
    while i < v.len()
        invariant
            v@ == s@,
            digits == s@.skip(start as int),
            start <= i <= v@.len(),
            forall|j: int| 0 <= j < i - start ==> is_digit(#[trigger] digits[j]),
            0 <= acc <= 9223372036854775808,
            acc == number(digits.take(i - start)),
            negative == (s@.len() > 0 && s@[0] == '-' && lo < 0),
            digits == (if s@.len() > 0 && (s@[0] == '+' || negative) {
                s@.drop_first()
            } else {
                s@
            }),
            lo <= 0 <= hi,
        decreases v@.len() - i,
    {
        let c: char = v[i];
        assert(c == digits[i - start]);
        if !('0' <= c && c <= '9') {
            assert(!is_digit(digits[i - start]));
            return None;
        }
        assert(digits.take(i + 1 - start).drop_last() =~= digits.take(i - start));
        acc = acc * 10 + (c as u32 - 48) as i128;
        if acc > 9223372036854775808 {
            proof {
                if all_digits(digits) {
                    lemma_number_prefix(digits, i + 1 - start);
                }
            }
            return None;
        }
        i = i + 1;
    }
    assert(digits.take(i - start) =~= digits);
    let value: i128 = if negative {
        -acc
    } else {
        acc
    };
    if value < lo as i128 || value > hi as i128 {
        return None;
    }
    Some(value as i64)
}

/// A number in decimal is made of digits and stands for that number.
pub proof fn lemma_decimal_number(n: nat)
    ensures
        all_digits(decimal(n)),
        number(decimal(n)) == n,
    decreases n,
{
    reveal_with_fuel(number, 2);
    if n < 10 {
        assert(decimal(n).drop_last() =~= Seq::<char>::empty());
    } else {
        lemma_decimal_number(n / 10);
        assert(decimal(n).drop_last() =~= decimal(n / 10));
    }
}

/// Reading back a written number gives that number.
pub proof fn law_parse_undoes_decimal(n: int, lo: int, hi: int)
    requires
        lo <= n <= hi,
    ensures
        parsed(decimal_int(n), lo, hi) == Some(n),
{
    if n < 0 {
        lemma_decimal_number((-n) as nat);
        assert(decimal_int(n).drop_first() =~= decimal((-n) as nat));
    } else {
        lemma_decimal_number(n as nat);
        assert(is_digit(decimal(n as nat)[0]));
    }
}

/// Padding with zeros does not change the number that is read back.
pub proof fn law_parse_undoes_padding(n: int, width: int, lo: int, hi: int)
    requires
        lo <= 0 <= n <= hi,
    ensures
        parsed(zero_padded(n, width), lo, hi) == Some(n),
{
    let digits = decimal(n as nat);
    lemma_decimal_number(n as nat);
    let pad = zeros(width - digits.len());
    assert(zero_padded(n, width) =~= pad + digits);
    lemma_leading_zeros(pad.len() as int, digits);
    assert(pad =~= zeros(pad.len() as int));
    assert(is_digit(zero_padded(n, width)[0]));
}

proof fn lemma_leading_zeros(k: int, s: Seq<char>)
    requires
        0 <= k,
        all_digits(s),
    ensures
        all_digits(zeros(k) + s),
        number(zeros(k) + s) == number(s),
    decreases s.len(),
{
    let t = zeros(k) + s;
    if s.len() > 1 {
        lemma_leading_zeros(k, s.drop_last());
        assert(t.drop_last() =~= zeros(k) + s.drop_last());
    } else {
        reveal_with_fuel(number, 2);
        lemma_zeros_number(k);
        assert(t.drop_last() =~= zeros(k));
        assert(s.drop_last() =~= Seq::<char>::empty());
    }
}

proof fn lemma_zeros_number(k: int)
    requires
        0 <= k,
    ensures
        number(zeros(k)) == 0,
    decreases k,
{
    if k > 0 {
        lemma_zeros_number(k - 1);
        assert(zeros(k).drop_last() =~= zeros(k - 1));
    }
}

/// The pieces of a string between separators, one more than there are
/// separators.
pub open spec fn pieces(s: Seq<char>, sep: char) -> Seq<Seq<char>>
    decreases s.len(),
{
    if s.len() == 0 {
        seq![s]
    } else {
        let rest = pieces(s.drop_last(), sep);
        if s.last() == sep {
            rest.push(Seq::<char>::empty())
        } else {
            rest.update(rest.len() - 1, rest.last().push(s.last()))
        }
    }
}

/// The views of some strings.
pub open spec fn views(v: Seq<String>) -> Seq<Seq<char>> {
    v.map_values(|s: String| s@)
}

pub proof fn lemma_pieces_nonempty(s: Seq<char>, sep: char)
    ensures
        pieces(s, sep).len() > 0,
    decreases s.len(),
{
    if s.len() > 0 {
        lemma_pieces_nonempty(s.drop_last(), sep);
    }
}

/// The pieces of a string between separators.
pub fn split(s: &str, sep: char) -> (r: Vec<String>)
    ensures
        views(r@) == pieces(s@, sep),
{
    let v = chars_of(s);
    let mut done: Vec<String> = Vec::new();
    let mut cur = String::new();
    let mut i: usize = 0;
    assert(s@.take(0) =~= Seq::<char>::empty());
    assert(views(done@).push(cur@) =~= pieces(s@.take(0), sep));
    while i < v.len()
        invariant
            v@ == s@,
            i <= v@.len(),
            views(done@).push(cur@) == pieces(s@.take(i as int), sep),
        decreases v@.len() - i,
    {
        let c: char = v[i];
        let ghost before_done = done@;
        let ghost before_cur = cur@;
        assert(s@.take(i + 1).drop_last() =~= s@.take(i as int));
        if c == sep {
            done.push(cur);
            cur = String::new();
            assert(views(done@) =~= views(before_done).push(before_cur));
        } else {
            cur.push(c);
        }
        assert(views(done@).push(cur@) =~= pieces(s@.take(i + 1), sep));
        i = i + 1;
    }
    assert(s@.take(i as int) =~= s@);
    let ghost last_done = done@;
    let ghost last_cur = cur@;
    done.push(cur);
    assert(views(done@) =~= views(last_done).push(last_cur));
    done
}

/// A string without the separator is its only piece.
pub proof fn lemma_pieces_single(s: Seq<char>, sep: char)
    requires
        forall|i: int| 0 <= i < s.len() ==> s[i] != sep,
    ensures
        pieces(s, sep) == seq![s],
    decreases s.len(),
{
    if s.len() > 0 {
        lemma_pieces_single(s.drop_last(), sep);
        assert(s.drop_last().push(s.last()) =~= s);
        assert(pieces(s, sep) =~= seq![s]);
    }
}

/// What follows the last separator is the last piece.
pub proof fn lemma_pieces_append(a: Seq<char>, sep: char, b: Seq<char>)
    requires
        forall|i: int| 0 <= i < b.len() ==> b[i] != sep,
    ensures
        pieces(a + seq![sep] + b, sep) == pieces(a, sep).push(b),
    decreases b.len(),
{
    let s = a + seq![sep] + b;
    lemma_pieces_nonempty(a, sep);
    if b.len() == 0 {
        assert(s.drop_last() =~= a);
        assert(b =~= Seq::<char>::empty());
    } else {
        lemma_pieces_append(a, sep, b.drop_last());
        assert(s.drop_last() =~= a + seq![sep] + b.drop_last());
        assert(b.drop_last().push(b.last()) =~= b);
        assert(pieces(s, sep) =~= pieces(a, sep).push(b));
    }
}

/// A string with no white space at its ends is its own trimming.
pub proof fn lemma_trimmed_same(s: Seq<char>)
    requires
        s.len() > 0 ==> !is_white(s[0]) && !is_white(s.last()),
    ensures
        trimmed(s) == s,
{
}

/// Different numbers are written differently.
pub proof fn law_padding_injective(n: int, m: int, width: int)
    requires
        zero_padded(n, width) == zero_padded(m, width),
    ensures
        n == m,
{
    lemma_padded_shape(n, width);
    lemma_padded_shape(m, width);
}

proof fn lemma_padded_shape(n: int, width: int)
    ensures
        n >= 0 ==> all_digits(zero_padded(n, width)) && number(zero_padded(n, width)) == n,
        n < 0 ==> zero_padded(n, width).len() > 1 && zero_padded(n, width)[0] == '-' && number(
            zero_padded(n, width).drop_first(),
        ) == -n,
{
    let text = zero_padded(n, width);
    if n >= 0 {
        let digits = decimal(n as nat);
        lemma_decimal_number(n as nat);
        let pad = zeros(width - digits.len());
        assert(text =~= pad + digits);
        assert(pad =~= zeros(pad.len() as int));
        lemma_leading_zeros(pad.len() as int, digits);
    } else {
        let digits = decimal((-n) as nat);
        lemma_decimal_number((-n) as nat);
        let pad = zeros(width - 1 - digits.len());
        assert(text.drop_first() =~= pad + digits);
        assert(pad =~= zeros(pad.len() as int));
        lemma_leading_zeros(pad.len() as int, digits);
    }
}

/// A number of at most two digits takes two characters.
pub proof fn lemma_two_digits(n: int)
    requires
        0 <= n < 100,
    ensures
        zero_padded(n, 2).len() == 2,
{
    reveal_with_fuel(decimal, 3);
}

/// Whether a string begins with another.
pub open spec fn begins_with(s: Seq<char>, prefix: Seq<char>) -> bool {
    prefix.len() <= s.len() && s.take(prefix.len() as int) == prefix
}

/// The first characters of a string, as many as it has.
pub open spec fn first_chars(s: Seq<char>, n: int) -> Seq<char> {
    if n < s.len() {
        s.take(n)
    } else {
        s
    }
}

/// The first `n` characters of a string, or all if there are fewer.
pub fn cut(s: &str, n: usize) -> (r: String)
    ensures
        r@ == first_chars(s@, n as int),
{
    let v = chars_of(s);
    let mut r = String::new();
    let mut i: usize = 0;
    while i < v.len() && i < n
        invariant
            i <= v@.len(),
            i <= n,
            r@ =~= v@.take(i as int),
        decreases v@.len() - i,
    {
        r.push(v[i]);
        i = i + 1;
    }
    assert(r@ =~= first_chars(s@, n as int));
    r
}

/// Whether a string begins with the first `n` characters of another.
pub fn keeps_prefix(s: &str, other: &str, n: usize) -> (r: bool)
    ensures
        r == begins_with(s@, first_chars(other@, n as int)),
{
    let a = chars_of(s);
    let b = chars_of(other);
    let m: usize = if n < b.len() {
        n
    } else {
        b.len()
    };
    let ghost prefix = first_chars(other@, n as int);
    assert(prefix =~= b@.take(m as int));
    if m > a.len() {
        return false;
    }
    let mut i: usize = 0;
    while i < m
        invariant
            a@ == s@,
            i <= m <= a@.len(),
            m <= b@.len(),
            prefix == b@.take(m as int),
            prefix == first_chars(other@, n as int),
            forall|k: int| 0 <= k < i ==> a@[k] == b@[k],
        decreases m - i,
    {
        if a[i] != b[i] {
            assert(s@.take(m as int)[i as int] != prefix[i as int]);
            return false;
        }
        i = i + 1;
    }
    assert(s@.take(m as int) =~= prefix);
    true
}

/// Strings are ordered by the first character in which they differ, and a string
/// stands before a longer one that begins with it.
pub proof fn law_order_goes_by_the_first_difference(a: Seq<char>, b: Seq<char>, k: int)
    requires
        0 <= k <= a.len(),
        k <= b.len(),
        forall|i: int| 0 <= i < k ==> #[trigger] a[i] == b[i],
    ensures
        k < a.len() && k < b.len() && a[k] < b[k] ==> before(a, b) && !before(b, a),
        k == a.len() && k < b.len() ==> before(a, b) && !before(b, a),
        k == a.len() && k == b.len() ==> !before(a, b),
    decreases k,
{
    if k > 0 {
        let (s, t) = (a.drop_first(), b.drop_first());
        assert(a[0] == b[0]);
        assert forall|i: int| 0 <= i < k - 1 implies #[trigger] s[i] == t[i] by {
            assert(a[i + 1] == b[i + 1]);
        }
        law_order_goes_by_the_first_difference(s, t, k - 1);
    }
}

/// The pieces of a string with the separator between them are the string, and no
/// piece holds a separator.
pub proof fn law_pieces_make_up_the_string(s: Seq<char>, sep: char)
    ensures
        pieces(s, sep).len() > 0,
        joined_by(pieces(s, sep), sep) == s,
        forall|k: int| 0 <= k < pieces(s, sep).len() ==> !(#[trigger] pieces(s, sep)[k]).contains(sep),
    decreases s.len(),
{
    if s.len() > 0 {
        let t = s.drop_last();
        let p = pieces(t, sep);
        law_pieces_make_up_the_string(t, sep);
        assert(s == t.push(s.last()));
        let r = pieces(s, sep);
        if s.last() == sep {
            assert(r.drop_last() == p);
            assert(joined_by(r, sep) == joined_by(p, sep) + seq![sep] + Seq::<char>::empty());
            assert(joined_by(r, sep) == s);
            assert forall|k: int| 0 <= k < r.len() implies !(#[trigger] r[k]).contains(sep) by {
                if k < p.len() {
                    assert(r[k] == p[k]);
                }
            }
        } else {
            let q = p.last().push(s.last());
            assert(r.drop_last() == p.drop_last());
            assert(r.last() == q);
            if p.len() == 1 {
                assert(joined_by(r, sep) == q);
                assert(joined_by(p, sep) == p.last());
            } else {
                assert(joined_by(r, sep) == joined_by(p.drop_last(), sep) + seq![sep] + q);
                assert(joined_by(p, sep) == joined_by(p.drop_last(), sep) + seq![sep] + p.last());
            }
            assert(joined_by(r, sep) == s);
            assert forall|k: int| 0 <= k < r.len() implies !(#[trigger] r[k]).contains(sep) by {
                if k < p.len() - 1 {
                    assert(r[k] == p[k]);
                } else {
                    assert(!p[p.len() - 1].contains(sep));
                    if r[k].contains(sep) {
                        let i = choose|i: int| 0 <= i < r[k].len() && r[k][i] == sep;
                        assert(p[p.len() - 1][i] == sep);
                    }
                }
            }
        }
    } else {
        assert(pieces(s, sep) == seq![s]);
        assert(joined_by(pieces(s, sep), sep) == s);
        assert(!s.contains(sep));
    }
}

/// Some strings as one, with a separator between them.
pub open spec fn joined_by(v: Seq<Seq<char>>, sep: char) -> Seq<char>
    decreases v.len(),
{
    if v.len() == 0 {
        Seq::empty()
    } else if v.len() == 1 {
        v[0]
    } else {
        joined_by(v.drop_last(), sep) + seq![sep] + v.last()
    }
}

/// A number is read with or without a sign in front; blanks, other characters and
/// what goes beyond the bounds are not read as a number.
pub proof fn law_only_numbers_are_read(n: nat, s: Seq<char>, i: int, lo: int, hi: int)
    requires
        lo <= 0 <= hi,
        0 <= i < s.len(),
        !('0' <= s[i] <= '9'),
        i > 0 || (s[i] != '+' && s[i] != '-'),
    ensures
        n <= hi ==> parsed(seq!['+'] + decimal(n), lo, hi) == Some(n as int),
        n > hi ==> parsed(decimal(n), lo, hi) is None,
        parsed(s, lo, hi) is None,
        parsed(Seq::empty(), lo, hi) is None,
{
    lemma_decimal_number(n);
    let d = decimal(n);
    assert((seq!['+'] + d).drop_first() == d);
    assert(d.len() > 0 && is_digit(d[0]));
    let digits = if s.len() > 0 && (s[0] == '+' || (s[0] == '-' && lo < 0)) {
        s.drop_first()
    } else {
        s
    };
    if digits.len() < s.len() {
        assert(digits[i - 1] == s[i]);
    } else {
        assert(digits[i] == s[i]);
    }
}

/// Beyond ASCII white space are the next line and the no-break space, the Ogham space,
/// the eleven spaces from the en quad to the hair space, the two separators, the
/// narrow no-break and the mathematical space, and the ideographic one; the zero-width
/// space that follows the hair space is none.
pub proof fn law_unicode_spaces_are_white(c: char)
    requires
        c as u32 > 127,
    ensures
        is_white(c) <==> c == '\u{85}' || c == '\u{a0}' || c == '\u{1680}' || ('\u{2000}' <= c && c
            < '\u{200b}') || c == '\u{2028}' || c == '\u{2029}' || c == '\u{202f}' || c == '\u{205f}'
            || c == '\u{3000}',
{
}

} // verus!
