//! Character-level helpers over `str` and `String` used by the form rules.
use vstd::prelude::*;

verus! {

broadcast use vstd::string::group_string_axioms;

/// The characters that `char::is_whitespace` accepts (Unicode `White_Space`).
pub open spec fn is_ws(c: char) -> bool {
    let u = c as u32;
    (0x09 <= u <= 0x0d) || u == 0x20 || u == 0x85 || u == 0xa0 || u == 0x1680 || (0x2000 <= u
        <= 0x200a) || u == 0x2028 || u == 0x2029 || u == 0x202f || u == 0x205f || u == 0x3000
}

/// Text that holds nothing but whitespace (the empty text included).
pub open spec fn is_blank(s: Seq<char>) -> bool {
    forall|i: int| 0 <= i < s.len() ==> is_ws(#[trigger] s[i])
}

/// `s` without its leading whitespace.
pub open spec fn trim_start(s: Seq<char>) -> Seq<char>
    decreases s.len(),
{
    if s.len() > 0 && is_ws(s[0]) {
        trim_start(s.drop_first())
    } else {
        s
    }
}

/// `s` without its trailing whitespace.
pub open spec fn trim_end(s: Seq<char>) -> Seq<char>
    decreases s.len(),
{
    if s.len() > 0 && is_ws(s.last()) {
        trim_end(s.drop_last())
    } else {
        s
    }
}

/// What `str::trim` gives back: `s` without leading and trailing whitespace.
pub open spec fn trim_seq(s: Seq<char>) -> Seq<char> {
    trim_end(trim_start(s))
}

/// The code of a character after ASCII lower-casing, as
/// `char::to_ascii_lowercase` maps it.
pub open spec fn lower_code(c: char) -> int {
    if 'A' <= c <= 'Z' {
        (c as u32) + 32
    } else {
        c as u32 as int
    }
}

/// `s.to_ascii_lowercase()` holds the characters of `lit`.
pub open spec fn lower_equals(s: Seq<char>, lit: Seq<char>) -> bool {
    s.len() == lit.len() && forall|j: int| 0 <= j < s.len() ==> lower_code(#[trigger] s[j]) == lit[j] as u32 as int
}

/// An ASCII decimal digit.
pub open spec fn is_digit(c: char) -> bool {
    '0' <= c <= '9'
}

/// A text made of ASCII decimal digits only.
pub open spec fn all_digits(s: Seq<char>) -> bool {
    forall|i: int| 0 <= i < s.len() ==> is_digit(#[trigger] s[i])
}

/// The value of a run of decimal digits, most significant first.
pub open spec fn digits_value(s: Seq<char>) -> nat
    decreases s.len(),
{
    if s.len() == 0 {
        0
    } else {
        digits_value(s.drop_last()) * 10 + ((s.last() as u32) - ('0' as u32)) as nat
    }
}

/// The integer that a decimal text denotes under the grammar of `str::parse`
/// for integers: an optional sign (`-` only where `signed`) and at least one
/// digit. `None` where the text is not of that form; the range is not checked.
pub open spec fn decimal_value(s: Seq<char>, signed: bool) -> Option<int> {
    if s.len() == 0 {
        None
    } else if s[0] == '+' || (signed && s[0] == '-') {
        let rest = s.drop_first();
        if rest.len() > 0 && all_digits(rest) {
            if s[0] == '-' {
                Some(-(digits_value(rest) as int))
            } else {
                Some(digits_value(rest) as int)
            }
        } else {
            None
        }
    } else if all_digits(s) {
        Some(digits_value(s) as int)
    } else {
        None
    }
}

/// What `str::parse::<i64>` gives back, as an option.
pub open spec fn parse_i64_spec(s: Seq<char>) -> Option<i64> {
    match decimal_value(s, true) {
        Some(v) => if i64::MIN <= v <= i64::MAX {
            Some(v as i64)
        } else {
            None
        },
        None => None,
    }
}

/// What `str::parse::<u8>` gives back, as an option.
pub open spec fn parse_u8_spec(s: Seq<char>) -> Option<u8> {
    match decimal_value(s, false) {
        Some(v) => if 0 <= v <= 255 {
            Some(v as u8)
        } else {
            None
        },
        None => None,
    }
}

/// `needle` occurs in `s` at position `i`.
pub open spec fn occurs_at(s: Seq<char>, needle: Seq<char>, i: int) -> bool {
    0 <= i && i + needle.len() <= s.len() && s.subrange(i, i + needle.len()) == needle
}

/// `needle` occurs somewhere in `s`.
pub open spec fn contains_seq(s: Seq<char>, needle: Seq<char>) -> bool {
    exists|i: int| occurs_at(s, needle, i)
}

/// `s` begins with `prefix`.
pub open spec fn starts_with_seq(s: Seq<char>, prefix: Seq<char>) -> bool {
    prefix.len() <= s.len() && s.subrange(0, prefix.len() as int) == prefix
}

/// The number of times `c` occurs in `s`.
pub open spec fn count_char(s: Seq<char>, c: char) -> nat
    decreases s.len(),
{
    if s.len() == 0 {
        0
    } else {
        count_char(s.drop_last(), c) + if s.last() == c {
            1nat
        } else {
            0nat
        }
    }
}

/// Trimming the start drops exactly the leading run of whitespace.
pub proof fn lemma_trim_start_skip(s: Seq<char>, k: int)
    requires
        0 <= k <= s.len(),
        forall|j: int| 0 <= j < k ==> is_ws(#[trigger] s[j]),
        k == s.len() || !is_ws(s[k]),
    ensures
        trim_start(s) == s.skip(k),
    decreases k,
{
    if k == 0 {
        assert(s.skip(0) =~= s);
    } else {
        let t = s.drop_first();
        assert forall|j: int| 0 <= j < k - 1 implies is_ws(#[trigger] t[j]) by {
            assert(t[j] == s[j + 1]);
        }
        lemma_trim_start_skip(t, k - 1);
        assert(t.skip(k - 1) =~= s.skip(k));
    }
}

/// Trimming the end keeps exactly what comes before the trailing run of
/// whitespace.
pub proof fn lemma_trim_end_take(s: Seq<char>, k: int)
    requires
        0 <= k <= s.len(),
        forall|j: int| k <= j < s.len() ==> is_ws(#[trigger] s[j]),
        k == 0 || !is_ws(s[k - 1]),
    ensures
        trim_end(s) == s.take(k),
    decreases s.len() - k,
{
    if k == s.len() {
        assert(s.take(k) =~= s);
    } else {
        let t = s.drop_last();
        assert forall|j: int| k <= j < t.len() implies is_ws(#[trigger] t[j]) by {
            assert(t[j] == s[j]);
        }
        lemma_trim_end_take(t, k);
        assert(t.take(k) =~= s.take(k));
    }
}

/// A text is blank exactly when trimming it leaves nothing, so checking
/// `blank` and checking that the trimmed text is empty agree.
pub proof fn lemma_trim_blank(s: Seq<char>)
    ensures
        (trim_seq(s).len() == 0) == is_blank(s),
{
    if is_blank(s) {
        lemma_trim_start_skip(s, s.len() as int);
        assert(s.skip(s.len() as int).len() == 0);
    } else {
        let k = choose|k: int| 0 <= k < s.len() && !is_ws(#[trigger] s[k]);
        let first = first_non_ws(s, k);
        lemma_trim_start_skip(s, first);
        let t = s.skip(first);
        assert(!is_ws(t[0]));
        trim_end_nonempty(t);
    }
}

proof fn first_non_ws(s: Seq<char>, k: int) -> (f: int)
    requires
        0 <= k < s.len(),
        !is_ws(s[k]),
    ensures
        0 <= f <= k,
        !is_ws(s[f]),
        forall|j: int| 0 <= j < f ==> is_ws(#[trigger] s[j]),
    decreases k,
{
    if exists|j: int| 0 <= j < k && !is_ws(#[trigger] s[j]) {
        let j = choose|j: int| 0 <= j < k && !is_ws(#[trigger] s[j]);
        first_non_ws(s, j)
    } else {
        k
    }
}

proof fn trim_end_nonempty(t: Seq<char>)
    requires
        t.len() > 0,
        !is_ws(t[0]),
    ensures
        trim_end(t).len() > 0,
    decreases t.len(),
{
    if is_ws(t.last()) {
        assert(t.len() > 1);
        trim_end_nonempty(t.drop_last());
    }
}

/// The characters of `s`, in order.
pub fn chars_of(s: &str) -> (v: Vec<char>)
    ensures
        v@ == s@,
{
    let mut v: Vec<char> = Vec::new();
    for c in it: s.chars()
        invariant
            it.seq() == s@,
            v@ == it.seq().take(it.index() as int),
    {
        v.push(c);
    }
    v
}

/// Whether a character is whitespace.
pub fn ws(c: char) -> (r: bool)
    ensures
        r == is_ws(c),
{
    let u = c as u32;
    (u >= 0x09 && u <= 0x0d) || u == 0x20 || u == 0x85 || u == 0xa0 || u == 0x1680 || (u >= 0x2000
        && u <= 0x200a) || u == 0x2028 || u == 0x2029 || u == 0x202f || u == 0x205f || u == 0x3000
}

/// The bounds of the trimmed part of `v`.
fn trim_bounds(v: &Vec<char>) -> (r: (usize, usize))
    ensures
        r.0 <= r.1 <= v@.len(),
        v@.subrange(r.0 as int, r.1 as int) == trim_seq(v@),
{
    let n = v.len();
    let mut a: usize = 0;
    while a < n && ws(v[a])
        invariant
            0 <= a <= n,
            n == v@.len(),
            forall|j: int| 0 <= j < a ==> is_ws(#[trigger] v@[j]),
        decreases n - a,
    {
        a = a + 1;
    }
    proof {
        lemma_trim_start_skip(v@, a as int);
    }
    let mut b: usize = n;
    while b > a && ws(v[b - 1])
        invariant
            a <= b <= n,
            n == v@.len(),
            forall|j: int| b <= j < n ==> is_ws(#[trigger] v@[j]),
        decreases b,
    {
        b = b - 1;
    }
    proof {
        let t = v@.skip(a as int);
        let k = (b - a) as int;
        assert forall|j: int| k <= j < t.len() implies is_ws(#[trigger] t[j]) by {
            assert(t[j] == v@[j + a]);
        }
        if k > 0 {
            assert(t[k - 1] == v@[b - 1]);
        }
        lemma_trim_end_take(t, k);
        assert(t.take(k) =~= v@.subrange(a as int, b as int));
    }
    (a, b)
}

/// `str::trim`: `s` without leading and trailing whitespace.
pub fn trim(s: &str) -> (r: &str)
    ensures
        r@ == trim_seq(s@),
{
    let v = chars_of(s);
    let (a, b) = trim_bounds(&v);
    s.substring_char(a, b)
}

/// Whether `s` holds nothing but whitespace.
pub fn blank(s: &str) -> (r: bool)
    ensures
        r == is_blank(s@),
{
    let v = chars_of(s);
    let mut i: usize = 0;
    while i < v.len()
        invariant
            0 <= i <= v@.len(),
            v@ == s@,
            forall|j: int| 0 <= j < i ==> is_ws(#[trigger] v@[j]),
        decreases v@.len() - i,
    {
        if !ws(v[i]) {
            return false;
        }
        i = i + 1;
    }
    true
}

/// Whether two texts hold the same characters.
pub fn same_text(a: &str, b: &str) -> (r: bool)
    ensures
        r == (a@ == b@),
{
    let x = chars_of(a);
    let y = chars_of(b);
    if x.len() != y.len() {
        return false;
    }
    let mut i: usize = 0;
    while i < x.len()
        invariant
            0 <= i <= x@.len(),
            x@.len() == y@.len(),
            x@ == a@,
            y@ == b@,
            forall|j: int| 0 <= j < i ==> x@[j] == y@[j],
        decreases x@.len() - i,
    {
        if x[i] != y[i] {
            return false;
        }
        i = i + 1;
    }
    assert(x@ =~= y@);
    true
}

/// An owned copy of `s`.
pub fn owned(s: &str) -> (r: String)
    ensures
        r@ == s@,
{
    s.to_owned()
}

/// The trimmed text of an optional field, or `None` where it is absent or
/// blank — the normalisation that every optional form field goes through.
pub fn clean(value: &Option<String>) -> (r: Option<String>)
    ensures
        value is None ==> r is None,
        value matches Some(v) ==> (if trim_seq(v@).len() == 0 {
            r is None
        } else {
            r matches Some(t) && t@ == trim_seq(v@)
        }),
{
    match value {
        None => None,
        Some(v) => {
            let t = trim(v.as_str());
            if t.unicode_len() == 0 {
                None
            } else {
                Some(owned(t))
            }
        },
    }
}


/// Trimmed bounds of `v[lo..hi]`.
pub fn trim_bounds_in(v: &Vec<char>, lo: usize, hi: usize) -> (r: (usize, usize))
    requires
        lo <= hi <= v@.len(),
    ensures
        lo <= r.0 <= r.1 <= hi,
        v@.subrange(r.0 as int, r.1 as int) == trim_seq(v@.subrange(lo as int, hi as int)),
{
    let ghost w = v@.subrange(lo as int, hi as int);
    let mut a: usize = lo;
    while a < hi && ws(v[a])
        invariant
            lo <= a <= hi,
            hi <= v@.len(),
            w == v@.subrange(lo as int, hi as int),
            forall|j: int| lo <= j < a ==> is_ws(#[trigger] v@[j]),
        decreases hi - a,
    {
        a = a + 1;
    }
    proof {
        assert forall|j: int| 0 <= j < a - lo implies is_ws(#[trigger] w[j]) by {
            assert(w[j] == v@[j + lo]);
        }
        if a < hi {
            assert(w[a - lo] == v@[a as int]);
        }
        lemma_trim_start_skip(w, (a - lo) as int);
    }
    let mut b: usize = hi;
    while b > a && ws(v[b - 1])
        invariant
            a <= b <= hi,
            hi <= v@.len(),
            forall|j: int| b <= j < hi ==> is_ws(#[trigger] v@[j]),
        decreases b,
    {
        b = b - 1;
    }
    proof {
        let t = w.skip((a - lo) as int);
        let k = (b - a) as int;
        assert forall|j: int| k <= j < t.len() implies is_ws(#[trigger] t[j]) by {
            assert(t[j] == v@[j + a]);
        }
        if k > 0 {
            assert(t[k - 1] == v@[b - 1]);
        }
        lemma_trim_end_take(t, k);
        assert(t.take(k) =~= v@.subrange(a as int, b as int));
    }
    (a, b)
}

/// Whether `v[lo..hi]` lower-cased holds the characters of `lit`.
pub fn lower_matches(v: &Vec<char>, lo: usize, hi: usize, lit: &str) -> (r: bool)
    requires
        lo <= hi <= v@.len(),
    ensures
        r == lower_equals(v@.subrange(lo as int, hi as int), lit@),
{
    let l = chars_of(lit);
    let ghost w = v@.subrange(lo as int, hi as int);
    if hi - lo != l.len() {
        return false;
    }
    let mut i: usize = 0;
    while i < l.len()
        invariant
            0 <= i <= l@.len(),
            l@.len() == hi - lo,
            l@ == lit@,
            lo <= hi <= v@.len(),
            w == v@.subrange(lo as int, hi as int),
            forall|j: int| 0 <= j < i ==> lower_code(#[trigger] w[j]) == l@[j] as u32 as int,
        decreases l@.len() - i,
    {
        let c = v[lo + i];
        let code = if c >= 'A' && c <= 'Z' {
            (c as u32) + 32
        } else {
            c as u32
        };
        proof {
            assert(w[i as int] == c);
        }
        if code != (l[i] as u32) {
            return false;
        }
        i = i + 1;
    }
    true
}

/// Whether `v[lo..hi]` holds exactly the characters of `lit`.
pub fn range_equals(v: &Vec<char>, lo: usize, hi: usize, lit: &str) -> (r: bool)
    requires
        lo <= hi <= v@.len(),
    ensures
        r == (v@.subrange(lo as int, hi as int) == lit@),
{
    let l = chars_of(lit);
    if hi - lo != l.len() {
        return false;
    }
    let mut i: usize = 0;
    while i < l.len()
        invariant
            0 <= i <= l@.len(),
            l@.len() == hi - lo,
            l@ == lit@,
            lo <= hi <= v@.len(),
            forall|j: int| 0 <= j < i ==> v@[lo + j] == l@[j],
        decreases l@.len() - i,
    {
        if v[lo + i] != l[i] {
            proof {
                assert(v@.subrange(lo as int, hi as int)[i as int] != lit@[i as int]);
            }
            return false;
        }
        i = i + 1;
    }
    assert(v@.subrange(lo as int, hi as int) =~= lit@);
    true
}

/// Reading one more digit multiplies the value so far by ten and adds it.
pub proof fn lemma_digits_value_take(s: Seq<char>, k: int)
    requires
        0 <= k < s.len(),
    ensures
        digits_value(s.take(k + 1)) == digits_value(s.take(k)) * 10 + ((s[k] as u32) - ('0' as u32)) as nat,
{
    assert(s.take(k + 1).drop_last() =~= s.take(k));
}

/// A prefix of a run of digits never reads as more than the whole run.
pub proof fn lemma_digits_value_grows(s: Seq<char>, k: int)
    requires
        0 <= k <= s.len(),
        all_digits(s),
    ensures
        digits_value(s.take(k)) <= digits_value(s),
    decreases s.len() - k,
{
    if k == s.len() {
        assert(s.take(k) =~= s);
    } else {
        lemma_digits_value_take(s, k);
        lemma_digits_value_grows(s, k + 1);
    }
}

/// The outcome of reading a run of digits with a bound on the value.
pub enum DigitRun {
    NotDigits,
    TooLarge,
    Value(u128),
}

/// Reads `v[lo..hi]` as a non-empty run of decimal digits whose value may be
/// at most `cap`.
fn digit_run(v: &Vec<char>, lo: usize, hi: usize, cap: u128) -> (r: DigitRun)
    requires
        lo <= hi <= v@.len(),
        cap <= 0x1_0000_0000_0000_0000,
    ensures
        ({
            let w = v@.subrange(lo as int, hi as int);
            match r {
                DigitRun::NotDigits => !(w.len() > 0 && all_digits(w)),
                DigitRun::TooLarge => w.len() > 0 && all_digits(w) && digits_value(w) > cap,
                DigitRun::Value(x) => w.len() > 0 && all_digits(w) && x == digits_value(w) && x <= cap,
            }
        }),
{
    let ghost w = v@.subrange(lo as int, hi as int);
    if lo == hi {
        return DigitRun::NotDigits;
    }
    let mut acc: u128 = 0;
    let mut over = false;
    let mut i: usize = lo;
    while i < hi
        invariant
            lo <= i <= hi <= v@.len(),
            w == v@.subrange(lo as int, hi as int),
            cap <= 0x1_0000_0000_0000_0000,
            all_digits(w.take(i - lo)),
            !over ==> acc == digits_value(w.take(i - lo)) && acc <= cap,
            over ==> digits_value(w.take(i - lo)) > cap,
        decreases hi - i,
    {
        let c = v[i];
        if !(c >= '0' && c <= '9') {
            proof {
                assert(w[i - lo] == c);
            }
            return DigitRun::NotDigits;
        }
        proof {
            assert(w[i - lo] == c);
            lemma_digits_value_take(w, (i - lo) as int);
            assert forall|j: int| 0 <= j < i + 1 - lo implies is_digit(#[trigger] w.take(i + 1 - lo)[j]) by {
                if j < i - lo {
                    assert(w.take(i + 1 - lo)[j] == w.take(i - lo)[j]);
                }
            }
        }
        if !over {
            let d = ((c as u32) - ('0' as u32)) as u128;
            let next = acc * 10 + d;
            if next > cap {
                over = true;
            } else {
                acc = next;
            }
        }
        i = i + 1;
    }
    proof {
        assert(w.take(hi - lo) =~= w);
    }
    if over {
        DigitRun::TooLarge
    } else {
        DigitRun::Value(acc)
    }
}

/// `v[lo..hi].parse::<i64>()`, as an option.
pub fn parse_i64_in(v: &Vec<char>, lo: usize, hi: usize) -> (r: Option<i64>)
    requires
        lo <= hi <= v@.len(),
    ensures
        r == parse_i64_spec(v@.subrange(lo as int, hi as int)),
{
    let ghost w = v@.subrange(lo as int, hi as int);
    if lo == hi {
        return None;
    }
    let first = v[lo];
    proof {
        assert(w[0] == first);
    }
    if first == '+' || first == '-' {
        proof {
            assert(w.drop_first() =~= v@.subrange(lo + 1, hi as int));
        }
        let cap: u128 = if first == '-' { 0x8000_0000_0000_0000 } else { 0x7fff_ffff_ffff_ffff };
        match digit_run(v, lo + 1, hi, cap) {
            DigitRun::NotDigits => None,
            DigitRun::TooLarge => None,
            DigitRun::Value(x) => {
                if first == '-' {
                    if x == 0x8000_0000_0000_0000 {
                        Some(i64::MIN)
                    } else {
                        Some(-(x as i64))
                    }
                } else {
                    Some(x as i64)
                }
            },
        }
    } else {
        match digit_run(v, lo, hi, 0x7fff_ffff_ffff_ffff) {
            DigitRun::NotDigits => None,
            DigitRun::TooLarge => None,
            DigitRun::Value(x) => Some(x as i64),
        }
    }
}

/// `v[lo..hi].parse::<u8>()`, as an option.
pub fn parse_u8_in(v: &Vec<char>, lo: usize, hi: usize) -> (r: Option<u8>)
    requires
        lo <= hi <= v@.len(),
    ensures
        r == parse_u8_spec(v@.subrange(lo as int, hi as int)),
{
    let ghost w = v@.subrange(lo as int, hi as int);
    if lo == hi {
        return None;
    }
    let first = v[lo];
    proof {
        assert(w[0] == first);
    }
    if first == '+' {
        proof {
            assert(w.drop_first() =~= v@.subrange(lo + 1, hi as int));
        }
        match digit_run(v, lo + 1, hi, 255) {
            DigitRun::Value(x) => Some(x as u8),
            _ => None,
        }
    } else {
        match digit_run(v, lo, hi, 255) {
            DigitRun::Value(x) => Some(x as u8),
            _ => None,
        }
    }
}

/// `s.parse::<i64>()`, as an option.
pub fn parse_i64(s: &str) -> (r: Option<i64>)
    ensures
        r == parse_i64_spec(s@),
{
    let v = chars_of(s);
    proof {
        assert(v@.subrange(0, v@.len() as int) =~= v@);
    }
    parse_i64_in(&v, 0, v.len())
}


/// The pieces of `s` between occurrences of `sep`, as `str::split` yields
/// them: one piece for a text without `sep`, empty pieces kept.
pub open spec fn split_seq(s: Seq<char>, sep: char) -> Seq<Seq<char>>
    decreases s.len(),
{
    if s.len() == 0 {
        seq![Seq::<char>::empty()]
    } else {
        let p = split_seq(s.drop_last(), sep);
        if s.last() == sep {
            p.push(Seq::<char>::empty())
        } else {
            p.update(p.len() - 1, p.last().push(s.last()))
        }
    }
}

/// Each piece trimmed and read as a `u8`; `None` as soon as one piece is not.
pub open spec fn parse_pieces_u8(p: Seq<Seq<char>>) -> Option<Seq<u8>>
    decreases p.len(),
{
    if p.len() == 0 {
        Some(Seq::<u8>::empty())
    } else {
        match parse_pieces_u8(p.drop_last()) {
            None => None,
            Some(v) => match parse_u8_spec(trim_seq(p.last())) {
                None => None,
                Some(x) => Some(v.push(x)),
            },
        }
    }
}

/// A comma separated list of small numbers, as
/// `s.split(',').map(|p| p.trim().parse::<u8>()).collect()` reads it.
pub open spec fn comma_u8_list(s: Seq<char>) -> Option<Seq<u8>> {
    parse_pieces_u8(split_seq(s, ','))
}

/// Splitting a text always gives at least one piece.
pub proof fn lemma_split_nonempty(s: Seq<char>, sep: char)
    ensures
        split_seq(s, sep).len() >= 1,
    decreases s.len(),
{
    if s.len() > 0 {
        lemma_split_nonempty(s.drop_last(), sep);
    }
}

/// Reads `v[lo..hi]` as a comma separated list of `u8` values.
pub fn comma_u8_list_in(v: &Vec<char>, lo: usize, hi: usize) -> (r: Option<Vec<u8>>)
    requires
        lo <= hi <= v@.len(),
    ensures
        match comma_u8_list(v@.subrange(lo as int, hi as int)) {
            None => r is None,
            Some(xs) => r matches Some(out) && out@ == xs,
        },
{
    let ghost w = v@.subrange(lo as int, hi as int);
    let ghost mut done: Seq<Seq<char>> = Seq::empty();
    let mut out: Vec<u8> = Vec::new();
    let mut ok = true;
    let mut start: usize = lo;
    let mut i: usize = lo;
    proof {
        assert(w.take(0) =~= Seq::<char>::empty());
        assert(v@.subrange(lo as int, lo as int) =~= Seq::<char>::empty());
        assert(split_seq(w.take(0), ',') =~= done.push(v@.subrange(start as int, i as int)));
    }
    while i < hi
        invariant
            lo <= start <= i <= hi <= v@.len(),
            w == v@.subrange(lo as int, hi as int),
            split_seq(w.take(i - lo), ',') == done.push(v@.subrange(start as int, i as int)),
            ok ==> parse_pieces_u8(done) == Some(out@),
            !ok ==> parse_pieces_u8(done) is None,
        decreases hi - i,
    {
        let c = v[i];
        proof {
            assert(w[i - lo] == c);
            assert(w.take(i + 1 - lo).drop_last() =~= w.take(i - lo));
            assert(w.take(i + 1 - lo).last() == c);
        }
        if c == ',' {
            let ghost piece = v@.subrange(start as int, i as int);
            if ok {
                let (a, b) = trim_bounds_in(v, start, i);
                match parse_u8_in(v, a, b) {
                    Some(x) => {
                        out.push(x);
                    },
                    None => {
                        ok = false;
                    },
                }
            }
            proof {
                assert(done.push(piece).drop_last() =~= done);
                done = done.push(piece);
                assert(v@.subrange(i + 1, i + 1) =~= Seq::<char>::empty());
            }
            start = i + 1;
        } else {
            proof {
                let p = done.push(v@.subrange(start as int, i as int));
                assert(v@.subrange(start as int, i + 1) =~= v@.subrange(start as int, i as int).push(c));
                assert(p.update(p.len() - 1, p.last().push(c)) =~= done.push(v@.subrange(start as int, i + 1)));
            }
        }
        i = i + 1;
    }
    proof {
        assert(w.take(hi - lo) =~= w);
    }
    let ghost piece = v@.subrange(start as int, hi as int);
    if ok {
        let (a, b) = trim_bounds_in(v, start, hi);
        match parse_u8_in(v, a, b) {
            Some(x) => {
                out.push(x);
            },
            None => {
                ok = false;
            },
        }
    }
    proof {
        assert(done.push(piece).drop_last() =~= done);
    }
    if ok {
        Some(out)
    } else {
        None
    }
}

/// The character of a decimal digit.
pub open spec fn digit_char(d: nat) -> char {
    if d == 0 {
        '0'
    } else if d == 1 {
        '1'
    } else if d == 2 {
        '2'
    } else if d == 3 {
        '3'
    } else if d == 4 {
        '4'
    } else if d == 5 {
        '5'
    } else if d == 6 {
        '6'
    } else if d == 7 {
        '7'
    } else if d == 8 {
        '8'
    } else {
        '9'
    }
}

/// The decimal digits of `n`, most significant first, without leading zeros.
pub open spec fn digits_text(n: nat) -> Seq<char>
    decreases n,
{
    if n < 10 {
        seq![digit_char(n)]
    } else {
        digits_text(n / 10).push(digit_char(n % 10))
    }
}

/// What `i.to_string()` gives for an integer.
pub open spec fn decimal_text(i: int) -> Seq<char> {
    if i < 0 {
        seq!['-'] + digits_text((-i) as nat)
    } else {
        digits_text(i as nat)
    }
}

/// `n` zero characters.
pub open spec fn zeros(n: nat) -> Seq<char> {
    Seq::new(n, |_i: int| '0')
}

/// What `format!("{:0width$}", i)` gives: the decimal text of `i`, padded
/// with zeros after the sign up to `width` characters.
pub open spec fn zero_padded(i: int, width: nat) -> Seq<char> {
    let d = if i < 0 {
        digits_text((-i) as nat)
    } else {
        digits_text(i as nat)
    };
    let sign: Seq<char> = if i < 0 {
        seq!['-']
    } else {
        Seq::empty()
    };
    let pad: nat = if sign.len() + d.len() < width {
        (width - sign.len() - d.len()) as nat
    } else {
        0
    };
    sign + zeros(pad) + d
}

/// Appends one character to a string, by `String::push`; the contract
/// claims only that the character is added at the end.
#[verifier::external_body]
pub(crate) fn push_char(s: &mut String, c: char)
    ensures
        final(s)@ == old(s)@.push(c),
{
    s.push(c)
}

fn digit(d: u64) -> (c: char)
    requires
        d < 10,
    ensures
        c == digit_char(d as nat),
{
    if d == 0 {
        '0'
    } else if d == 1 {
        '1'
    } else if d == 2 {
        '2'
    } else if d == 3 {
        '3'
    } else if d == 4 {
        '4'
    } else if d == 5 {
        '5'
    } else if d == 6 {
        '6'
    } else if d == 7 {
        '7'
    } else if d == 8 {
        '8'
    } else {
        '9'
    }
}

/// Appends the decimal digits of `n`.
pub fn push_digits(s: &mut String, n: u64)
    ensures
        final(s)@ == old(s)@ + digits_text(n as nat),
    decreases n,
{
    if n >= 10 {
        push_digits(s, n / 10);
    }
    push_char(s, digit(n % 10));
    proof {
        if n >= 10 {
            assert(digits_text(n as nat) == digits_text((n / 10) as nat).push(digit_char((n % 10) as nat)));
        }
    }
    assert(final(s)@ =~= old(s)@ + digits_text(n as nat));
}

/// The decimal digits of a number are never empty.
pub proof fn lemma_digits_text_len(n: nat)
    ensures
        digits_text(n).len() >= 1,
    decreases n,
{
    if n >= 10 {
        lemma_digits_text_len(n / 10);
    }
}

/// `i.to_string()`.
pub fn int_text(i: i64) -> (r: String)
    ensures
        r@ == decimal_text(i as int),
{
    let mut s = String::new();
    if i < 0 {
        push_char(&mut s, '-');
        let m: u64 = if i == i64::MIN { 0x8000_0000_0000_0000 } else { (-i) as u64 };
        push_digits(&mut s, m);
    } else {
        push_digits(&mut s, i as u64);
    }
    assert(s@ =~= decimal_text(i as int));
    s
}

/// `format!("{:0width$}", i)`.
pub fn zero_padded_text(i: i64, width: usize) -> (r: String)
    ensures
        r@ == zero_padded(i as int, width as nat),
{
    let mut s = String::new();
    let m: u64 = if i == i64::MIN {
        0x8000_0000_0000_0000
    } else if i < 0 {
        (-i) as u64
    } else {
        i as u64
    };
    let mut d = String::new();
    push_digits(&mut d, m);
    let dv = chars_of(d.as_str());
    let sign_len: usize = if i < 0 { 1 } else { 0 };
    if i < 0 {
        push_char(&mut s, '-');
    }
    let pad: usize = if dv.len() < width && width - dv.len() > sign_len {
        width - dv.len() - sign_len
    } else {
        0
    };
    let mut k: usize = 0;
    while k < pad
        invariant
            0 <= k <= pad,
            s@ == (if i < 0 { seq!['-'] } else { Seq::<char>::empty() }) + zeros(k as nat),
        decreases pad - k,
    {
        push_char(&mut s, '0');
        k = k + 1;
        assert(s@ =~= (if i < 0 { seq!['-'] } else { Seq::<char>::empty() }) + zeros(k as nat));
    }
    let mut j: usize = 0;
    while j < dv.len()
        invariant
            0 <= j <= dv@.len(),
            s@ == (if i < 0 { seq!['-'] } else { Seq::<char>::empty() }) + zeros(pad as nat) + dv@.take(j as int),
        decreases dv@.len() - j,
    {
        push_char(&mut s, dv[j]);
        j = j + 1;
        assert(s@ =~= (if i < 0 { seq!['-'] } else { Seq::<char>::empty() }) + zeros(pad as nat) + dv@.take(j as int));
    }
    assert(dv@.take(dv@.len() as int) =~= dv@);
    s
}

/// Whether `v[lo..hi]` begins with `prefix`.
pub fn starts_with_in(v: &Vec<char>, lo: usize, hi: usize, prefix: &str) -> (r: bool)
    requires
        lo <= hi <= v@.len(),
    ensures
        r == starts_with_seq(v@.subrange(lo as int, hi as int), prefix@),
{
    let p = chars_of(prefix);
    if p.len() > hi - lo {
        return false;
    }
    let r = range_equals(v, lo, lo + p.len(), prefix);
    proof {
        assert(v@.subrange(lo as int, hi as int).subrange(0, p@.len() as int) =~= v@.subrange(lo as int, lo + p@.len()));
    }
    r
}

/// Whether `needle` occurs in `v[lo..hi]`.
pub fn contains_in(v: &Vec<char>, lo: usize, hi: usize, needle: &str) -> (r: bool)
    requires
        lo <= hi <= v@.len(),
    ensures
        r == contains_seq(v@.subrange(lo as int, hi as int), needle@),
{
    let ghost w = v@.subrange(lo as int, hi as int);
    let n = chars_of(needle);
    if n.len() > hi - lo {
        proof {
            assert forall|i: int| !occurs_at(w, needle@, i) by {}
        }
        return false;
    }
    if n.len() == 0 {
        proof {
            assert(w.subrange(0, 0) =~= needle@);
            assert(occurs_at(w, needle@, 0));
        }
        return true;
    }
    let last = hi - n.len();
    let mut i: usize = lo;
    while i <= last
        invariant
            lo <= i <= last + 1,
            last < hi,
            last + n@.len() == hi,
            hi <= v@.len(),
            n@ == needle@,
            w == v@.subrange(lo as int, hi as int),
            forall|j: int| 0 <= j < i - lo ==> !occurs_at(w, needle@, j),
        decreases last + 1 - i,
    {
        if range_equals(v, i, i + n.len(), needle) {
            proof {
                assert(w.subrange(i - lo, i - lo + n@.len()) =~= v@.subrange(i as int, i + n@.len()));
                assert(occurs_at(w, needle@, i - lo));
            }
            return true;
        }
        proof {
            assert(w.subrange(i - lo, i - lo + n@.len()) =~= v@.subrange(i as int, i + n@.len()));
        }
        i = i + 1;
    }
    proof {
        assert forall|j: int| !occurs_at(w, needle@, j) by {
            if 0 <= j && j + needle@.len() <= w.len() {
                assert(j < i - lo);
            }
        }
    }
    false
}


proof fn lemma_trim_start_shape(s: Seq<char>)
    ensures
        trim_start(s).len() == 0 || !is_ws(trim_start(s)[0]),
    decreases s.len(),
{
    if s.len() > 0 && is_ws(s[0]) {
        lemma_trim_start_shape(s.drop_first());
    }
}

proof fn lemma_trim_end_shape(s: Seq<char>)
    ensures
        trim_end(s).len() <= s.len(),
        trim_end(s) == s.take(trim_end(s).len() as int),
        trim_end(s).len() == 0 || !is_ws(trim_end(s).last()),
    decreases s.len(),
{
    if s.len() > 0 && is_ws(s.last()) {
        lemma_trim_end_shape(s.drop_last());
        let t = trim_end(s.drop_last());
        assert(s.drop_last().take(t.len() as int) =~= s.take(t.len() as int));
    } else {
        assert(s.take(s.len() as int) =~= s);
    }
}

/// A text that neither begins nor ends with whitespace is its own trim.
pub proof fn lemma_trim_fixed(s: Seq<char>)
    requires
        s.len() == 0 || (!is_ws(s[0]) && !is_ws(s.last())),
    ensures
        trim_seq(s) == s,
{
}

/// Trimming twice is trimming once.
pub proof fn lemma_trim_idempotent(s: Seq<char>)
    ensures
        trim_seq(trim_seq(s)) == trim_seq(s),
{
    let u = trim_start(s);
    lemma_trim_start_shape(s);
    lemma_trim_end_shape(u);
    let t = trim_end(u);
    if t.len() > 0 {
        assert(t[0] == u[0]);
    }
    lemma_trim_fixed(t);
}

proof fn lemma_digit_char(d: nat)
    requires
        d < 10,
    ensures
        is_digit(digit_char(d)),
        (digit_char(d) as u32) - ('0' as u32) == d,
{
}

/// The digits of `n` are decimal digits, the first one included, and they
/// read back as `n`.
pub proof fn lemma_digits_text_value(n: nat)
    ensures
        all_digits(digits_text(n)),
        digits_text(n).len() >= 1,
        digits_value(digits_text(n)) == n,
    decreases n,
{
    if n < 10 {
        lemma_digit_char(n);
        assert(seq![digit_char(n)].drop_last() =~= Seq::<char>::empty());
        assert(digits_value(Seq::<char>::empty()) == 0);
        assert(digits_value(seq![digit_char(n)]) == n);
    } else {
        lemma_digits_text_value(n / 10);
        lemma_digit_char(n % 10);
        let p = digits_text(n / 10);
        let t = p.push(digit_char(n % 10));
        assert(t.drop_last() =~= p);
        assert(t.last() == digit_char(n % 10));
        assert((n / 10) * 10 + n % 10 == n) by (nonlinear_arith);
        assert forall|i: int| 0 <= i < t.len() implies is_digit(#[trigger] t[i]) by {
            if i < p.len() {
                assert(t[i] == p[i]);
            }
        }
    }
}

/// The decimal text of an `i64` is its own trim and reads back as the same
/// number.
pub proof fn lemma_decimal_text_roundtrip(n: i64)
    ensures
        trim_seq(decimal_text(n as int)) == decimal_text(n as int),
        parse_i64_spec(decimal_text(n as int)) == Some(n),
{
    let m: nat = if n < 0 {
        (-(n as int)) as nat
    } else {
        n as nat
    };
    lemma_digits_text_value(m);
    let d = digits_text(m);
    let s = decimal_text(n as int);
    if n < 0 {
        assert(s.drop_first() =~= d);
        assert(s.last() == d.last());
        assert(is_digit(d[d.len() - 1]));
    } else {
        assert(is_digit(d[0]));
        assert(is_digit(d[d.len() - 1]));
    }
    lemma_trim_fixed(s);
}


/// `a` comes no later than `b` in the order of `str`: character by
/// character by code point, a proper prefix first.
pub open spec fn text_le(a: Seq<char>, b: Seq<char>) -> bool
    decreases a.len(),
{
    if a.len() == 0 {
        true
    } else if b.len() == 0 {
        false
    } else if a[0] != b[0] {
        (a[0] as u32) < (b[0] as u32)
    } else {
        text_le(a.drop_first(), b.drop_first())
    }
}

/// `a <= b` for texts.
pub fn text_le_exec(a: &str, b: &str) -> (r: bool)
    ensures
        r == text_le(a@, b@),
{
    let x = chars_of(a);
    let y = chars_of(b);
    let mut i: usize = 0;
    proof {
        assert(x@.skip(0) =~= x@);
        assert(y@.skip(0) =~= y@);
    }
    while i < x.len() && i < y.len()
        invariant
            0 <= i <= x@.len(),
            i <= y@.len(),
            x@ == a@,
            y@ == b@,
            text_le(a@, b@) == text_le(x@.skip(i as int), y@.skip(i as int)),
        decreases x@.len() - i,
    {
        proof {
            assert(x@.skip(i as int)[0] == x@[i as int]);
            assert(y@.skip(i as int)[0] == y@[i as int]);
        }
        if x[i] != y[i] {
            return (x[i] as u32) < (y[i] as u32);
        }
        proof {
            assert(x@.skip(i as int).drop_first() =~= x@.skip(i + 1));
            assert(y@.skip(i as int).drop_first() =~= y@.skip(i + 1));
        }
        i = i + 1;
    }
    x.len() <= y.len()
}


/// The pieces of `v[lo..hi]` between occurrences of `sep`, as index ranges.
pub fn split_ranges(v: &Vec<char>, lo: usize, hi: usize, sep: char) -> (r: Vec<(usize, usize)>)
    requires
        lo <= hi <= v@.len(),
    ensures
        r@.len() == split_seq(v@.subrange(lo as int, hi as int), sep).len(),
        forall|k: int| 0 <= k < r@.len() ==> {
            let (a, b) = #[trigger] r@[k];
            lo <= a <= b <= hi && v@.subrange(a as int, b as int) == split_seq(v@.subrange(lo as int, hi as int), sep)[k]
        },
{
    let ghost w = v@.subrange(lo as int, hi as int);
    let mut out: Vec<(usize, usize)> = Vec::new();
    let mut start: usize = lo;
    let mut i: usize = lo;
    proof {
        assert(w.take(0) =~= Seq::<char>::empty());
        assert(v@.subrange(lo as int, lo as int) =~= Seq::<char>::empty());
    }
    while i < hi
        invariant
            lo <= start <= i <= hi <= v@.len(),
            w == v@.subrange(lo as int, hi as int),
            split_seq(w.take(i - lo), sep).len() == out@.len() + 1,
            split_seq(w.take(i - lo), sep).last() == v@.subrange(start as int, i as int),
            forall|k: int| 0 <= k < out@.len() ==> {
                let (a, b) = #[trigger] out@[k];
                lo <= a <= b <= start && v@.subrange(a as int, b as int) == split_seq(w.take(i - lo), sep)[k]
            },
        decreases hi - i,
    {
        let c = v[i];
        let ghost before = split_seq(w.take(i - lo), sep);
        proof {
            assert(w[i - lo] == c);
            assert(w.take(i + 1 - lo).drop_last() =~= w.take(i - lo));
            assert(w.take(i + 1 - lo).last() == c);
        }
        if c == sep {
            out.push((start, i));
            start = i + 1;
            proof {
                assert(v@.subrange(start as int, i + 1) =~= Seq::<char>::empty());
                let after = split_seq(w.take(i + 1 - lo), sep);
                assert(after == before.push(Seq::<char>::empty()));
                assert forall|k: int| 0 <= k < out@.len() implies {
                    let (a, b) = #[trigger] out@[k];
                    lo <= a <= b <= start && v@.subrange(a as int, b as int) == after[k]
                } by {
                    if k < out@.len() - 1 {
                        assert(after[k] == before[k]);
                    } else {
                        assert(after[k] == before.last());
                    }
                }
            }
        } else {
            proof {
                let after = split_seq(w.take(i + 1 - lo), sep);
                assert(v@.subrange(start as int, i + 1) =~= v@.subrange(start as int, i as int).push(c));
                assert(after == before.update(before.len() - 1, before.last().push(c)));
                assert forall|k: int| 0 <= k < out@.len() implies {
                    let (a, b) = #[trigger] out@[k];
                    lo <= a <= b <= start && v@.subrange(a as int, b as int) == after[k]
                } by {
                    assert(after[k] == before[k]);
                }
            }
        }
        i = i + 1;
    }
    out.push((start, hi));
    proof {
        assert(w.take(hi - lo) =~= w);
        let sp = split_seq(w, sep);
        assert forall|k: int| 0 <= k < out@.len() implies {
            let (a, b) = #[trigger] out@[k];
            lo <= a <= b <= hi && v@.subrange(a as int, b as int) == sp[k]
        } by {
            if k == out@.len() - 1 {
                assert(sp[k] == sp.last());
            }
        }
    }
    out
}

/// Whether `c` occurs in `v[lo..hi]`.
pub fn has_char_in(v: &Vec<char>, lo: usize, hi: usize, c: char) -> (r: bool)
    requires
        lo <= hi <= v@.len(),
    ensures
        r == v@.subrange(lo as int, hi as int).contains(c),
{
    let ghost w = v@.subrange(lo as int, hi as int);
    let mut i: usize = lo;
    while i < hi
        invariant
            lo <= i <= hi <= v@.len(),
            w == v@.subrange(lo as int, hi as int),
            forall|j: int| 0 <= j < i - lo ==> w[j] != c,
        decreases hi - i,
    {
        if v[i] == c {
            assert(w[i - lo] == c);
            return true;
        }
        i = i + 1;
    }
    false
}

} // verus!
