//! Character-level helpers on strings, with their specifications.
//!
//! Strings are modelled by their character sequences (`s@: Seq<char>`).
use vstd::prelude::*;
use vstd::string::StrSliceExecFns;
use vstd::string::StringExecFns;

verus! {

broadcast use vstd::seq_lib::group_seq_properties;

/// The characters of `s`, in order.
pub fn chars_of(s: &str) -> (v: Vec<char>)
    ensures
        v@ == s@,
{
    let n = s.unicode_len();
    let mut v: Vec<char> = Vec::new();
    let mut i: usize = 0;
    while i < n
        invariant
            n == s@.len(),
            i <= n,
            v@ == s@.take(i as int),
        decreases n - i,
    {
        let c = s.get_char(i);
        v.push(c);
        i = i + 1;
        assert(v@ =~= s@.take(i as int));
    }
    assert(v@ =~= s@);
    v
}

/// Whether `a` and `b` hold the same characters.
pub fn chars_eq(a: &Vec<char>, b: &Vec<char>) -> (r: bool)
    ensures
        r == (a@ == b@),
{
    if a.len() != b.len() {
        return false;
    }
    let mut i: usize = 0;
    while i < a.len()
        invariant
            i <= a.len(),
            a.len() == b.len(),
            forall|k: int| 0 <= k < i ==> a@[k] == b@[k],
        decreases a.len() - i,
    {
        if a[i] != b[i] {
            return false;
        }
        i = i + 1;
    }
    assert(a@ =~= b@);
    true
}

/// Whether `a` and `b` are the same string.
pub fn str_eq(a: &str, b: &str) -> (r: bool)
    ensures
        r == (a@ == b@),
{
    chars_eq(&chars_of(a), &chars_of(b))
}

// ---------------------------------------------------------------------------
// Character classes
// ---------------------------------------------------------------------------

/// Unicode `White_Space` property, the class that `char::is_whitespace` tests.
pub open spec fn is_whitespace_spec(c: char) -> bool {
    let u = c as u32;
    ||| 0x09 <= u <= 0x0D
    ||| u == 0x20
    ||| u == 0x85
    ||| u == 0xA0
    ||| u == 0x1680
    ||| 0x2000 <= u <= 0x200A
    ||| u == 0x2028
    ||| u == 0x2029
    ||| u == 0x202F
    ||| u == 0x205F
    ||| u == 0x3000
}

/// Whether `c` is Unicode white space.
pub fn is_whitespace(c: char) -> (b: bool)
    ensures
        b == is_whitespace_spec(c),
{
    let u = c as u32;
    (0x09 <= u && u <= 0x0D) || u == 0x20 || u == 0x85 || u == 0xA0 || u == 0x1680 || (0x2000
        <= u && u <= 0x200A) || u == 0x2028 || u == 0x2029 || u == 0x202F || u == 0x205F || u
        == 0x3000
}

/// ASCII letters and digits, the class that `char::is_ascii_alphanumeric` tests.
pub open spec fn is_ascii_alphanumeric_spec(c: char) -> bool {
    ||| 'a' <= c <= 'z'
    ||| 'A' <= c <= 'Z'
    ||| '0' <= c <= '9'
}

/// Whether `c` is an ASCII letter or digit.
pub fn is_ascii_alphanumeric(c: char) -> (b: bool)
    ensures
        b == is_ascii_alphanumeric_spec(c),
{
    ('a' <= c && c <= 'z') || ('A' <= c && c <= 'Z') || ('0' <= c && c <= '9')
}

/// The general category `Cc` (control codes), the class that `char::is_control` tests.
pub open spec fn is_control_spec(c: char) -> bool {
    let u = c as u32;
    u <= 0x1F || (0x7F <= u && u <= 0x9F)
}

/// Whether `c` is a control character.
pub fn is_control(c: char) -> (b: bool)
    ensures
        b == is_control_spec(c),
{
    let u = c as u32;
    u <= 0x1F || (0x7F <= u && u <= 0x9F)
}

// ---------------------------------------------------------------------------
// Trimming
// ---------------------------------------------------------------------------

/// `s` without its leading white space.
pub open spec fn trim_start_ws(s: Seq<char>) -> Seq<char>
    decreases s.len(),
{
    if s.len() > 0 && is_whitespace_spec(s[0]) {
        trim_start_ws(s.drop_first())
    } else {
        s
    }
}

/// `s` without its trailing white space.
pub open spec fn trim_end_ws(s: Seq<char>) -> Seq<char>
    decreases s.len(),
{
    if s.len() > 0 && is_whitespace_spec(s.last()) {
        trim_end_ws(s.drop_last())
    } else {
        s
    }
}

/// `s` without leading and trailing white space (what `str::trim` gives).
pub open spec fn trim_ws(s: Seq<char>) -> Seq<char> {
    trim_end_ws(trim_start_ws(s))
}

/// `s` with every leading repetition of the non-empty pattern `p` removed
/// (what `str::trim_start_matches` gives).
pub open spec fn trim_start_matches(s: Seq<char>, p: Seq<char>) -> Seq<char>
    decreases s.len(),
{
    if p.len() > 0 && p.is_prefix_of(s) {
        trim_start_matches(s.skip(p.len() as int), p)
    } else {
        s
    }
}

/// `s` with every trailing repetition of the non-empty pattern `p` removed
/// (what `str::trim_end_matches` gives).
pub open spec fn trim_end_matches(s: Seq<char>, p: Seq<char>) -> Seq<char>
    decreases s.len(),
{
    if p.len() > 0 && p.is_suffix_of(s) {
        trim_end_matches(s.take(s.len() - p.len()), p)
    } else {
        s
    }
}

/// The characters `s[from..to]`.
pub fn subrange(s: &Vec<char>, from: usize, to: usize) -> (v: Vec<char>)
    requires
        from <= to <= s.len(),
    ensures
        v@ == s@.subrange(from as int, to as int),
{
    let mut v: Vec<char> = Vec::new();
    let mut i = from;
    while i < to
        invariant
            from <= i <= to <= s.len(),
            v@ == s@.subrange(from as int, i as int),
        decreases to - i,
    {
        v.push(s[i]);
        i = i + 1;
        assert(v@ =~= s@.subrange(from as int, i as int));
    }
    v
}

/// Whether `p` occurs in `s` at position `at`.
pub fn occurs_at(s: &Vec<char>, at: usize, p: &Vec<char>) -> (b: bool)
    requires
        at <= s.len(),
    ensures
        b == p@.is_prefix_of(s@.skip(at as int)),
{
    if s.len() - at < p.len() {
        return false;
    }
    let mut i: usize = 0;
    while i < p.len()
        invariant
            at + p.len() <= s.len(),
            i <= p.len(),
            forall|k: int| 0 <= k < i ==> p@[k] == s@[at + k],
        decreases p.len() - i,
    {
        if p[i] != s[at + i] {
            assert(s@.skip(at as int)[i as int] == s@[at + i]);
            return false;
        }
        i = i + 1;
    }
    assert(p@ =~= s@.skip(at as int).subrange(0, p@.len() as int));
    true
}

/// `s` without leading and trailing white space.
pub fn trim(s: &Vec<char>) -> (v: Vec<char>)
    ensures
        v@ == trim_ws(s@),
{
    let mut lo: usize = 0;
    while lo < s.len() && is_whitespace(s[lo])
        invariant
            lo <= s.len(),
            trim_start_ws(s@) == trim_start_ws(s@.skip(lo as int)),
        decreases s.len() - lo,
    {
        assert(s@.skip(lo as int).drop_first() =~= s@.skip(lo + 1));
        lo = lo + 1;
    }
    let mut hi: usize = s.len();
    while hi > lo && is_whitespace(s[hi - 1])
        invariant
            lo <= hi <= s.len(),
            trim_start_ws(s@) == s@.skip(lo as int),
            trim_ws(s@) == trim_end_ws(s@.subrange(lo as int, hi as int)),
        decreases hi - lo,
    {
        assert(s@.subrange(lo as int, hi as int).drop_last() =~= s@.subrange(
            lo as int,
            hi - 1,
        ));
        hi = hi - 1;
    }
    subrange(s, lo, hi)
}

/// `s` with every leading repetition of `p` removed.
pub fn strip_leading(s: &Vec<char>, p: &Vec<char>) -> (v: Vec<char>)
    ensures
        v@ == trim_start_matches(s@, p@),
{
    if p.len() == 0 {
        return subrange(s, 0, s.len());
    }
    let mut at: usize = 0;
    while at < s.len() && occurs_at(s, at, p)
        invariant
            at <= s.len(),
            p@.len() > 0,
            trim_start_matches(s@, p@) == trim_start_matches(s@.skip(at as int), p@),
        decreases s.len() - at,
    {
        assert(s@.skip(at as int).skip(p@.len() as int) =~= s@.skip(at + p@.len()));
        at = at + p.len();
    }
    if at == s.len() {
        assert(!p@.is_prefix_of(s@.skip(at as int)));
    }
    subrange(s, at, s.len())
}

/// `s` with every trailing repetition of `p` removed.
pub fn strip_trailing(s: &Vec<char>, p: &Vec<char>) -> (v: Vec<char>)
    ensures
        v@ == trim_end_matches(s@, p@),
{
    if p.len() == 0 {
        return subrange(s, 0, s.len());
    }
    let mut end: usize = s.len();
    while end >= p.len() && occurs_at(s, end - p.len(), p)
        invariant
            end <= s.len(),
            p@.len() > 0,
            trim_end_matches(s@, p@) == trim_end_matches(s@.take(end as int), p@),
        decreases end,
    {
        assert(p@.is_suffix_of(s@.take(end as int))) by {
            assert(s@.take(end as int).subrange(end - p@.len(), end as int) =~= s@.skip(
                end - p@.len(),
            ).subrange(0, p@.len() as int));
        }
        assert(s@.take(end as int).take(end - p@.len()) =~= s@.take(end - p@.len()));
        end = end - p.len();
    }
    proof {
        if end >= p@.len() {
            if p@.is_suffix_of(s@.take(end as int)) {
                assert(s@.take(end as int).subrange(end - p@.len(), end as int) =~= s@.skip(
                    end - p@.len(),
                ).subrange(0, p@.len() as int));
            }
        }
    }
    subrange(s, 0, end)
}

// ---------------------------------------------------------------------------
// Building strings
// ---------------------------------------------------------------------------

/// Appends `c` to `s` (std's `String::push`).
///
/// Trusted: the contract restates std's documentation of `String::push`.
#[verifier::external_body]
pub(crate) fn push_char(s: &mut String, c: char)
    ensures
        final(s)@ == old(s)@.push(c),
{
    s.push(c)
}

/// Removes the last character of `s`, if any (std's `String::pop`).
///
/// Trusted: the contract restates std's documentation of `String::pop`: the
/// last character is removed and returned, or `None` for an empty string.
#[verifier::external_body]
pub(crate) fn pop_char(s: &mut String) -> (c: Option<char>)
    ensures
        old(s)@.len() > 0 ==> c == Some(old(s)@.last()) && final(s)@ == old(s)@.drop_last(),
        old(s)@.len() == 0 ==> c is None && final(s)@ == old(s)@,
{
    s.pop()
}

/// A `String` holding the characters of `v`.
pub fn string_from_chars(v: &Vec<char>) -> (s: String)
    ensures
        s@ == v@,
{
    let mut s = String::new();
    let mut i: usize = 0;
    while i < v.len()
        invariant
            i <= v.len(),
            s@ == v@.take(i as int),
        decreases v.len() - i,
    {
        push_char(&mut s, v[i]);
        i = i + 1;
        assert(s@ =~= v@.take(i as int));
    }
    assert(v@.take(v@.len() as int) =~= v@);
    s
}

/// The character views of a sequence of strings.
pub open spec fn views(v: Seq<String>) -> Seq<Seq<char>> {
    v.map_values(|s: String| s@)
}

/// The pieces of `parts` joined by `sep` (what `[String]::join` gives).
pub open spec fn join_spec(parts: Seq<Seq<char>>, sep: Seq<char>) -> Seq<char>
    decreases parts.len(),
{
    if parts.len() == 0 {
        Seq::empty()
    } else if parts.len() == 1 {
        parts[0]
    } else {
        join_spec(parts.drop_last(), sep) + sep + parts.last()
    }
}

/// The strings of `parts` joined by `sep`.
pub fn join(parts: &Vec<String>, sep: &str) -> (s: String)
    ensures
        s@ == join_spec(views(parts@), sep@),
{
    let mut s = String::new();
    let mut i: usize = 0;
    while i < parts.len()
        invariant
            i <= parts.len(),
            s@ == join_spec(views(parts@.take(i as int)), sep@),
        decreases parts.len() - i,
    {
        let ghost before = views(parts@.take(i as int));
        let ghost after = views(parts@.take(i + 1));
        assert(after.drop_last() =~= before);
        assert(after.last() == parts@[i as int]@);
        if i > 0 {
            s.append(sep);
        } else {
            assert(before =~= Seq::<Seq<char>>::empty());
        }
        s.append(parts[i].as_str());
        i = i + 1;
    }
    assert(parts@.take(parts@.len() as int) =~= parts@);
    s
}

/// The decimal digit for `d < 10`.
pub open spec fn digit_char(d: nat) -> char {
    if d == 0 { '0' }
    else if d == 1 { '1' }
    else if d == 2 { '2' }
    else if d == 3 { '3' }
    else if d == 4 { '4' }
    else if d == 5 { '5' }
    else if d == 6 { '6' }
    else if d == 7 { '7' }
    else if d == 8 { '8' }
    else { '9' }
}

/// The decimal notation of `n`, without leading zeros.
pub open spec fn decimal(n: nat) -> Seq<char>
    decreases n,
{
    if n < 10 {
        seq![digit_char(n)]
    } else {
        decimal(n / 10).push(digit_char(n % 10))
    }
}

fn digit(d: u64) -> (c: char)
    requires
        d < 10,
    ensures
        c == digit_char(d as nat),
{
    if d == 0 { '0' }
    else if d == 1 { '1' }
    else if d == 2 { '2' }
    else if d == 3 { '3' }
    else if d == 4 { '4' }
    else if d == 5 { '5' }
    else if d == 6 { '6' }
    else if d == 7 { '7' }
    else if d == 8 { '8' }
    else { '9' }
}

/// The decimal notation of `n` (what `u64::to_string` gives).
pub fn decimal_string(n: u64) -> (s: String)
    ensures
        s@ == decimal(n as nat),
{
    let mut rest = n;
    let mut acc: Vec<char> = Vec::new();
    while rest >= 10
        invariant
            decimal(n as nat) == decimal(rest as nat) + acc@,
        decreases rest,
    {
        let d = digit(rest % 10);
        let ghost before = acc@;
        acc.insert(0, d);
        assert(decimal(rest as nat) == decimal((rest / 10) as nat).push(d));
        assert(decimal((rest / 10) as nat).push(d) + before =~= decimal((rest / 10) as nat)
            + acc@);
        rest = rest / 10;
    }
    let d = digit(rest);
    let ghost before = acc@;
    acc.insert(0, d);
    assert(decimal(rest as nat) + before =~= acc@);
    string_from_chars(&acc)
}

/// The number written by a sequence of decimal digits.
pub open spec fn digits_value(s: Seq<char>) -> int
    decreases s.len(),
{
    if s.len() == 0 {
        0
    } else {
        digits_value(s.drop_last()) * 10 + ((s.last() as int) - ('0' as int))
    }
}

proof fn lemma_digit_char(d: nat)
    requires
        d < 10,
    ensures
        '0' <= digit_char(d) <= '9',
        (digit_char(d) as int) - ('0' as int) == d,
        d != 0 ==> digit_char(d) != '0',
{
    if d == 0 {} else if d == 1 {} else if d == 2 {} else if d == 3 {} else if d == 4 {}
    else if d == 5 {} else if d == 6 {} else if d == 7 {} else if d == 8 {} else {}
}

/// `decimal(n)` writes `n`: it is made of the digits `0`..`9`, has no leading
/// zero, and the number it writes is `n`.
#[verifier::rlimit(30)]
pub proof fn lemma_decimal_writes(n: nat)
    ensures
        decimal(n).len() > 0,
        forall|i: int| 0 <= i < decimal(n).len() ==> '0' <= #[trigger] decimal(n)[i] <= '9',
        decimal(n).len() > 1 ==> decimal(n)[0] != '0',
        digits_value(decimal(n)) == n,
    decreases n,
{
    if n >= 10 {
        lemma_decimal_writes(n / 10);
        lemma_digit_char(n % 10);
        let d = decimal(n);
        assert(d == decimal(n / 10).push(digit_char(n % 10)));
        assert(d.drop_last() =~= decimal(n / 10));
        assert(d[0] == decimal(n / 10)[0]);
        if decimal(n / 10).len() == 1 {
            assert(n / 10 < 10) by {
                if n / 10 >= 10 {
                    assert(decimal(n / 10) == decimal(n / 100).push(digit_char((n / 10) % 10)));
                    assert(decimal(n / 10).len() > 1) by {
                        lemma_decimal_writes(n / 100);
                    }
                }
            }
            assert(decimal(n / 10) == seq![digit_char(n / 10)]);
            lemma_digit_char(n / 10);
        }
        assert(d.last() == digit_char(n % 10));
        assert((d.last() as int) - ('0' as int) == n % 10);
        assert(n == (n / 10) * 10 + n % 10);
        assert(digits_value(d) == digits_value(d.drop_last()) * 10 + ((d.last() as int) - (
        '0' as int)));
        assert(digits_value(d.drop_last()) == n / 10);
        assert forall|i: int| 0 <= i < d.len() implies '0' <= #[trigger] d[i] <= '9' by {
            if i < d.len() - 1 {
                assert(d[i] == decimal(n / 10)[i]);
            }
        }
    } else {
        lemma_digit_char(n);
        let d = decimal(n);
        assert(d.drop_last() =~= Seq::<char>::empty());
        assert(digits_value(d) == digits_value(d.drop_last()) * 10 + ((d.last() as int) - (
        '0' as int)));
    }
}

/// Joining two non-empty lists of pieces one after the other gives the two
/// joined texts with one separator between them; a single piece is itself.
pub proof fn lemma_join_concat(a: Seq<Seq<char>>, b: Seq<Seq<char>>, sep: Seq<char>)
    requires
        a.len() > 0,
        b.len() > 0,
    ensures
        join_spec(a + b, sep) == join_spec(a, sep) + sep + join_spec(b, sep),
        join_spec(seq![a[0]], sep) == a[0],
    decreases b.len(),
{
    if b.len() == 1 {
        assert((a + b).drop_last() =~= a);
        assert((a + b).last() == b[0]);
    } else {
        lemma_join_concat(a, b.drop_last(), sep);
        assert((a + b).drop_last() =~= a + b.drop_last());
        assert((a + b).last() == b.last());
    }
}

/// The sum of the pieces' lengths.
pub open spec fn total_len(parts: Seq<Seq<char>>) -> int
    decreases parts.len(),
{
    if parts.len() == 0 {
        0
    } else {
        total_len(parts.drop_last()) + parts.last().len()
    }
}

/// The length of a joined text: every piece, and a separator between each
/// two pieces.
pub proof fn lemma_join_len(parts: Seq<Seq<char>>, sep: Seq<char>)
    requires
        parts.len() > 0,
    ensures
        join_spec(parts, sep).len() == total_len(parts) + (parts.len() - 1) * sep.len(),
    decreases parts.len(),
{
    if parts.len() > 1 {
        lemma_join_len(parts.drop_last(), sep);
        assert(total_len(parts) == total_len(parts.drop_last()) + parts.last().len());
        assert(join_spec(parts, sep) == join_spec(parts.drop_last(), sep) + sep + parts.last());
        assert((parts.len() - 1) * sep.len() == (parts.len() - 2) * sep.len() + sep.len())
            by (nonlinear_arith);
    } else {
        assert(parts.drop_last().len() == 0);
        assert(total_len(parts.drop_last()) == 0);
        assert(total_len(parts) == parts.last().len());
        assert(join_spec(parts, sep) == parts[0]);
    }
}

} // verus!
