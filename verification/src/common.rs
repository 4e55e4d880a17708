//! Shared value types: object identifiers, errors, and plain directory
//! entries.

pub mod fs;

use vstd::prelude::*;

verus! {

/// PostgreSQL object identifier: an unsigned 32-bit integer, used both as a
/// database directory name and as a relation identifier.
#[derive(Debug, PartialEq, Eq, Structural, Clone, Copy)]
pub struct PgOid(pub u32);

impl From<u32> for PgOid {
    fn from(value: u32) -> (r: Self) {
        PgOid(value)
    }
}

impl vstd::std_specs::convert::FromSpecImpl<u32> for PgOid {
    open spec fn obeys_from_spec() -> bool {
        true
    }

    open spec fn from_spec(value: u32) -> Self {
        PgOid(value)
    }
}

/// True when `c` is an ASCII decimal digit.
pub open spec fn is_digit_char(c: char) -> bool {
    '0' <= c && c <= '9'
}

/// Numeric value of one ASCII decimal digit.
pub open spec fn digit_value(c: char) -> nat {
    ((c as int) - ('0' as int)) as nat
}

/// Numeric value of a sequence of ASCII decimal digits, most significant
/// first. The empty sequence has value 0.
pub open spec fn digits_value(s: Seq<char>) -> nat
    decreases s.len(),
{
    if s.len() == 0 {
        0
    } else {
        digits_value(s.drop_last()) * 10 + digit_value(s.last())
    }
}

/// What a decimal object-identifier parser accepts: one or more ASCII digits
/// whose value fits an unsigned 32-bit integer, and nothing else. Leading
/// zeros carry no meaning beyond their digits.
pub open spec fn spec_parse_oid(s: Seq<char>) -> Option<PgOid> {
    if s.len() > 0 && (forall|i: int| 0 <= i < s.len() ==> is_digit_char(s[i]))
        && digits_value(s) <= u32::MAX {
        Some(PgOid(digits_value(s) as u32))
    } else {
        None
    }
}

proof fn lemma_digits_value_step(s: Seq<char>, i: int)
    requires
        0 <= i < s.len(),
    ensures
        digits_value(s.take(i + 1)) == digits_value(s.take(i)) * 10 + digit_value(s[i]),
{
    assert(s.take(i + 1).drop_last() =~= s.take(i));
    assert(s.take(i + 1).last() == s[i]);
}

/// Appending digits never decreases the value of the prefix read so far.
proof fn lemma_digits_value_prefix_monotone(s: Seq<char>, i: int)
    requires
        0 <= i <= s.len(),
    ensures
        digits_value(s.take(i)) <= digits_value(s),
    decreases s.len() - i,
{
    if i < s.len() {
        lemma_digits_value_step(s, i);
        lemma_digits_value_prefix_monotone(s, i + 1);
    } else {
        assert(s.take(i) =~= s);
    }
}

/// Reads the decimal value of the characters of `s`, as long as every
/// character is a digit and the value does not exceed `cap`. The accumulator
/// is clamped at `cap + 1`, which is enough to decide both conditions.
pub(crate) fn scan_decimal_capped(s: &str, from: usize, to: usize, cap: u64) -> (r: Option<u64>)
    requires
        from <= to <= s@.len(),
        cap <= 0xFFFF_FFFFu64,
    ensures
        match r {
            Some(v) => {
                &&& forall|i: int| from <= i < to ==> is_digit_char(s@[i])
                &&& digits_value(s@.subrange(from as int, to as int)) == v
                &&& v <= cap
            },
            None => !(forall|i: int| from <= i < to ==> is_digit_char(s@[i]))
                || digits_value(s@.subrange(from as int, to as int)) > cap,
        },
{
    let ghost digits = s@.subrange(from as int, to as int);
    let mut i: usize = from;
    let mut v: u64 = 0;
    while i < to
        invariant
            from <= i <= to <= s@.len(),
            cap <= 0xFFFF_FFFFu64,
            forall|j: int| from <= j < i ==> is_digit_char(s@[j]),
            v == if digits_value(digits.take(i - from)) <= cap {
                digits_value(digits.take(i - from)) as u64
            } else {
                (cap + 1) as u64
            },
            digits == s@.subrange(from as int, to as int),
        decreases to - i,
    {
        let c = s.get_char(i);
        proof {
            assert(digits[i - from] == s@[i as int]);
        }
        if !('0' <= c && c <= '9') {
            return None;
        }
        let d: u64 = (c as u32 as u64) - 0x30;
        proof {
            lemma_digits_value_step(digits, i - from);
            lemma_digits_value_prefix_monotone(digits, i + 1 - from);
        }
        if v > cap {
            v = cap + 1;
        } else {
            v = v * 10 + d;
            if v > cap {
                v = cap + 1;
            }
        }
        i = i + 1;
    }
    proof {
        assert(digits.take(to - from) =~= digits);
    }
    if v > cap {
        None
    } else {
        Some(v)
    }
}

impl PgOid {
    /// Parses decimal text as an object identifier. Returns `None` for empty
    /// text, any non-digit character, or a value above the 32-bit range.
    pub fn try_parse(s: &str) -> (r: Option<PgOid>)
        ensures
            r == spec_parse_oid(s@),
    {
        let n = s.unicode_len();
        if n == 0 {
            return None;
        }
        proof {
            assert(s@.subrange(0, n as int) =~= s@);
        }
        match scan_decimal_capped(s, 0, n, 0xFFFF_FFFF) {
            Some(v) => Some(PgOid(v as u32)),
            None => None,
        }
    }
}

/// An error carried as data: a descriptive message.
#[derive(Debug)]
pub struct Error(pub String);

impl View for Error {
    type V = Seq<char>;

    open spec fn view(&self) -> Seq<char> {
        self.0@
    }
}

impl Error {
    /// Builds an error from a message.
    pub fn new(message: &str) -> (r: Error)
        ensures
            r@ == message@,
    {
        Error(String::from_str(message))
    }

    /// The error's message.
    pub fn message(&self) -> (r: &str)
        ensures
            r@ == self@,
    {
        self.0.as_str()
    }
}

impl Clone for Error {
    fn clone(&self) -> (r: Self)
        ensures
            r@ == self@,
    {
        Error(self.0.clone())
    }
}

impl PartialEq for Error {
    fn eq(&self, other: &Self) -> (r: bool) {
        self.0 == other.0
    }
}

impl vstd::std_specs::cmp::PartialEqSpecImpl for Error {
    open spec fn obeys_eq_spec() -> bool {
        true
    }

    open spec fn eq_spec(&self, other: &Self) -> bool {
        self@ == other@
    }
}

/// The ASCII character for one decimal digit.
pub open spec fn digit_char(d: nat) -> char {
    if d == 0 {
        '0'
    } else if d == 1 {
        '1'
    } else if d == 2 {
        '2'
    } else if d == 3 {
        '3'
    } else if d == 4 {
        '4'
    } else if d == 5 {
        '5'
    } else if d == 6 {
        '6'
    } else if d == 7 {
        '7'
    } else if d == 8 {
        '8'
    } else {
        '9'
    }
}

/// The decimal rendering of a number: its digits, most significant first,
/// with no leading zeros (zero itself renders as one digit).
pub open spec fn spec_dec_digits(n: nat) -> Seq<char>
    decreases n,
{
    if n < 10 {
        seq![digit_char(n)]
    } else {
        spec_dec_digits(n / 10).push(digit_char(n % 10))
    }
}

proof fn lemma_digit_char_value(d: nat)
    requires
        d < 10,
    ensures
        is_digit_char(digit_char(d)),
        digit_value(digit_char(d)) == d,
{
}

/// The decimal rendering reads back as the number it came from, is never
/// empty, and consists of digits alone.
pub proof fn lemma_dec_digits_value(n: nat)
    ensures
        digits_value(spec_dec_digits(n)) == n,
        spec_dec_digits(n).len() >= 1,
        forall|i: int|
            0 <= i < spec_dec_digits(n).len() ==> is_digit_char(spec_dec_digits(n)[i]),
    decreases n,
{
    let s = spec_dec_digits(n);
    assert(s.len() >= 1);
    assert(digits_value(s) == digits_value(s.drop_last()) * 10 + digit_value(s.last()));
    if n < 10 {
        lemma_digit_char_value(n);
        assert(s.drop_last() =~= Seq::<char>::empty());
        assert(digits_value(s.drop_last()) == 0);
        assert(s.last() == digit_char(n));
    } else {
        lemma_digit_char_value(n % 10);
        lemma_dec_digits_value(n / 10);
        assert(s.drop_last() =~= spec_dec_digits(n / 10));
        assert(digits_value(s.drop_last()) == n / 10);
        assert(s.last() == digit_char(n % 10));
        assert(digit_value(s.last()) == n % 10);
        assert(n / 10 * 10 + n % 10 == n);
    }
}

/// Powers of ten.
pub open spec fn pow10(k: nat) -> nat
    decreases k,
{
    if k == 0 {
        1
    } else {
        10 * pow10((k - 1) as nat)
    }
}

/// A number below the `k`-th power of ten renders in at most `k` digits.
pub proof fn lemma_dec_digits_len(n: nat, k: nat)
    requires
        k >= 1,
        n < pow10(k),
    ensures
        spec_dec_digits(n).len() <= k,
    decreases k,
{
    if n < 10 {
    } else {
        assert(n < 10 * pow10((k - 1) as nat));
        assert(n / 10 < pow10((k - 1) as nat)) by (nonlinear_arith)
            requires
                n < 10 * pow10((k - 1) as nat),
        ;
        lemma_dec_digits_len(n / 10, (k - 1) as nat);
    }
}

fn digit_str(d: u32) -> (r: &'static str)
    requires
        d < 10,
    ensures
        r@ =~= seq![digit_char(d as nat)],
{
    proof {
        reveal_strlit("0");
        reveal_strlit("1");
        reveal_strlit("2");
        reveal_strlit("3");
        reveal_strlit("4");
        reveal_strlit("5");
        reveal_strlit("6");
        reveal_strlit("7");
        reveal_strlit("8");
        reveal_strlit("9");
    }
    match d {
        0 => "0",
        1 => "1",
        2 => "2",
        3 => "3",
        4 => "4",
        5 => "5",
        6 => "6",
        7 => "7",
        8 => "8",
        _ => "9",
    }
}

/// Appends the decimal rendering of `n` to `out`.
pub(crate) fn push_decimal(n: u32, out: &mut String)
    ensures
        final(out)@ == old(out)@ + spec_dec_digits(n as nat),
    decreases n,
{
    if n < 10 {
        out.append(digit_str(n));
        proof {
            assert(final(out)@ =~= old(out)@ + spec_dec_digits(n as nat));
        }
    } else {
        push_decimal(n / 10, out);
        out.append(digit_str(n % 10));
        proof {
            assert(spec_dec_digits(n as nat) =~= spec_dec_digits(n as nat / 10).push(
                digit_char(n as nat % 10),
            ));
            assert(final(out)@ =~= old(out)@ + spec_dec_digits(n as nat));
        }
    }
}

/// Renders a number in decimal.
pub fn u32_to_decimal(n: u32) -> (r: String)
    ensures
        r@ == spec_dec_digits(n as nat),
{
    let mut out = String::new();
    push_decimal(n, &mut out);
    proof {
        assert(out@ =~= spec_dec_digits(n as nat));
    }
    out
}

/// Compares two pieces of text character by character.
pub fn str_eq(a: &str, b: &str) -> (r: bool)
    ensures
        r == (a@ == b@),
{
    let a_len = a.unicode_len();
    let b_len = b.unicode_len();
    if a_len != b_len {
        return false;
    }
    let mut i: usize = 0;
    while i < a_len
        invariant
            a_len == a@.len(),
            b_len == b@.len(),
            a_len == b_len,
            0 <= i <= a_len,
            forall|j: int| 0 <= j < i ==> a@[j] == b@[j],
        decreases a_len - i,
    {
        if a.get_char(i) != b.get_char(i) {
            return false;
        }
        i = i + 1;
    }
    proof {
        assert(a@ =~= b@);
    }
    true
}

/// Lexicographic order on text, by character value: the strict part. A
/// proper prefix comes before every extension of it.
pub open spec fn seq_char_lt(a: Seq<char>, b: Seq<char>) -> bool
    decreases a.len() + b.len(),
{
    if b.len() == 0 {
        false
    } else if a.len() == 0 {
        true
    } else if a[0] != b[0] {
        (a[0] as int) < (b[0] as int)
    } else {
        seq_char_lt(a.drop_first(), b.drop_first())
    }
}

/// Two texts not ordered either way are equal.
pub proof fn lemma_seq_char_lt_trichotomy(a: Seq<char>, b: Seq<char>)
    requires
        !seq_char_lt(a, b),
        !seq_char_lt(b, a),
    ensures
        a == b,
    decreases a.len() + b.len(),
{
    if a.len() == 0 && b.len() == 0 {
        assert(a =~= b);
    } else if a.len() > 0 && b.len() > 0 {
        if a[0] != b[0] {
            assert((a[0] as int) == (b[0] as int));
            assert(false);
        }
        lemma_seq_char_lt_trichotomy(a.drop_first(), b.drop_first());
        assert(a.drop_first() == b.drop_first());
        assert(a.drop_first().len() == a.len() - 1);
        assert(b.drop_first().len() == b.len() - 1);
        assert(a.len() == b.len());
        assert(a[0] == b[0]);
        assert forall|i: int| 0 <= i < a.len() implies a[i] == b[i] by {
            if i > 0 {
                assert(0 <= i - 1 < a.drop_first().len());
                assert(a.drop_first()[i - 1] == a[i]);
                assert(0 <= i - 1 < b.drop_first().len());
                assert(b.drop_first()[i - 1] == b[i]);
            }
        }
        assert(a =~= b);
    }
}

/// The order never holds both ways.
pub proof fn lemma_seq_char_lt_asymmetric(a: Seq<char>, b: Seq<char>)
    requires
        seq_char_lt(a, b),
    ensures
        !seq_char_lt(b, a),
    decreases a.len() + b.len(),
{
    if a.len() > 0 && b.len() > 0 && a[0] == b[0] {
        lemma_seq_char_lt_asymmetric(a.drop_first(), b.drop_first());
    }
}

/// The order is transitive.
pub proof fn lemma_seq_char_lt_transitive(a: Seq<char>, b: Seq<char>, c: Seq<char>)
    requires
        seq_char_lt(a, b),
        seq_char_lt(b, c),
    ensures
        seq_char_lt(a, c),
    decreases a.len() + b.len() + c.len(),
{
    if b.len() > 0 && c.len() > 0 && a.len() > 0 {
        if a[0] == b[0] && b[0] == c[0] {
            lemma_seq_char_lt_transitive(a.drop_first(), b.drop_first(), c.drop_first());
        }
    }
}

proof fn lemma_seq_char_lt_skip(a: Seq<char>, b: Seq<char>, i: int)
    requires
        0 <= i <= a.len(),
        i <= b.len(),
        forall|j: int| 0 <= j < i ==> a[j] == b[j],
    ensures
        seq_char_lt(a, b) == seq_char_lt(a.skip(i), b.skip(i)),
    decreases i,
{
    if i > 0 {
        assert(a.len() > 0 && b.len() > 0 && a[0] == b[0]);
        assert(a.drop_first().skip(i - 1) =~= a.skip(i));
        assert(b.drop_first().skip(i - 1) =~= b.skip(i));
        lemma_seq_char_lt_skip(a.drop_first(), b.drop_first(), i - 1);
    } else {
        assert(a.skip(0) =~= a);
        assert(b.skip(0) =~= b);
    }
}

/// Decides the lexicographic order on two pieces of text.
pub fn str_lt(a: &str, b: &str) -> (r: bool)
    ensures
        r == seq_char_lt(a@, b@),
{
    let a_len = a.unicode_len();
    let b_len = b.unicode_len();
    let mut i: usize = 0;
    loop
        invariant
            a_len == a@.len(),
            b_len == b@.len(),
            0 <= i <= a_len,
            i <= b_len,
            forall|j: int| 0 <= j < i ==> a@[j] == b@[j],
        decreases a_len - i,
    {
        if i >= a_len || i >= b_len {
            proof {
                lemma_seq_char_lt_skip(a@, b@, i as int);
            }
            return a_len < b_len;
        }
        let ca = a.get_char(i);
        let cb = b.get_char(i);
        if ca != cb {
            proof {
                lemma_seq_char_lt_skip(a@, b@, i as int);
                assert(a@.skip(i as int)[0] == ca);
                assert(b@.skip(i as int)[0] == cb);
            }
            return (ca as u32) < (cb as u32);
        }
        i = i + 1;
    }
}

/// Combinators for a fallible, optional result: falling back to a second
/// computation only when the first succeeded with nothing.
pub trait ResultOption<T>: Sized {
    /// The fallible, optional result the combinators inspect.
    spec fn result_view(self) -> Result<Option<T>, Error>;

    /// Keeps a present value or an error; computes the fallback otherwise.
    fn or_if_empty<O: FnOnce() -> Result<Option<T>, Error>>(self, op: O) -> (r: Result<
        Option<T>,
        Error,
    >)
        requires
            call_requires(op, ()),
        ensures
            or_if_empty_post(self.result_view(), r, op),
    ;

    /// Unwraps a present value, keeps an error, and computes the rest from
    /// the fallback.
    fn otherwise<O: FnOnce() -> Result<T, Error>>(self, op: O) -> (r: Result<T, Error>)
        requires
            call_requires(op, ()),
        ensures
            otherwise_post(self.result_view(), r, op),
    ;
}

/// What `or_if_empty` returns: the fallback's result after `Ok(None)`, the
/// original result in every other case.
pub open spec fn or_if_empty_post<T, O: FnOnce() -> Result<Option<T>, Error>>(
    this: Result<Option<T>, Error>,
    r: Result<Option<T>, Error>,
    op: O,
) -> bool {
    match this {
        Ok(None) => call_ensures(op, (), r),
        _ => r == this,
    }
}

/// What `otherwise` returns: the present value unwrapped, an error kept,
/// and the fallback's result after `Ok(None)`.
pub open spec fn otherwise_post<T, O: FnOnce() -> Result<T, Error>>(
    this: Result<Option<T>, Error>,
    r: Result<T, Error>,
    op: O,
) -> bool {
    match this {
        Ok(None) => call_ensures(op, (), r),
        Ok(Some(v)) => r == Ok::<T, Error>(v),
        Err(e) => r matches Err(e2) && e2 == e,
    }
}

impl<T> ResultOption<T> for Result<Option<T>, Error> {
    open spec fn result_view(self) -> Result<Option<T>, Error> {
        self
    }

    fn or_if_empty<O: FnOnce() -> Result<Option<T>, Error>>(self, op: O) -> (r: Result<
        Option<T>,
        Error,
    >) {
        match self {
            Ok(None) => op(),
            _ => self,
        }
    }

    fn otherwise<O: FnOnce() -> Result<T, Error>>(self, op: O) -> (r: Result<T, Error>) {
        match self {
            Ok(None) => op(),
            Ok(Some(v)) => Ok(v),
            Err(err) => Err(err),
        }
    }
}

/// Renders an error as text.
pub fn stringify(err: Error) -> (r: String)
    ensures
        r@ == err@,
{
    let Error(message) = err;
    message
}

} // verus!
