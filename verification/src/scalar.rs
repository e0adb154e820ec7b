//! Scalar values: how the text of a widget becomes a typed value and back.

use vstd::prelude::*;
use vstd::string::*;
use crate::value::{Value, ValueView};

verus! {

/// A minimal string wrapper that creates a password form input.
#[derive(Clone, Debug, PartialEq, Eq)]
pub struct Password(String);

impl View for Password {
    type V = Seq<char>;

    closed spec fn view(&self) -> Seq<char> {
        self.0@
    }
}

impl Password {
    /// Wraps the text as it is. This cannot fail.
    pub fn from_str(s: &str) -> (r: Result<Password, std::convert::Infallible>)
        ensures
            r matches Ok(p) && p@ == s@,
    {
        return Ok(Password(s.to_owned()));
    }

    /// The wrapped text.
    pub fn as_str(&self) -> (r: &str)
        ensures
            r@ == self@,
    {
        self.0.as_str()
    }
}

impl std::str::FromStr for Password {
    type Err = std::convert::Infallible;

    /// Wraps the text as it is, as `Password::from_str` does. This cannot
    /// fail.
    fn from_str(s: &str) -> (r: Result<Self, Self::Err>)
        ensures
            r matches Ok(p) && p@ == s@,
    {
        Password::from_str(s)
    }
}

/// A minimal string wrapper that creates a textarea form input.
#[derive(Clone, Debug, PartialEq, Eq)]
pub struct BigString(String);

impl View for BigString {
    type V = Seq<char>;

    closed spec fn view(&self) -> Seq<char> {
        self.0@
    }
}

impl BigString {
    /// Wraps the text as it is. This cannot fail.
    pub fn from_str(s: &str) -> (r: Result<BigString, std::convert::Infallible>)
        ensures
            r matches Ok(b) && b@ == s@,
    {
        return Ok(BigString(s.to_owned()));
    }

    /// The wrapped text.
    pub fn as_str(&self) -> (r: &str)
        ensures
            r@ == self@,
    {
        self.0.as_str()
    }
}

impl std::str::FromStr for BigString {
    type Err = std::convert::Infallible;

    /// Wraps the text as it is, as `BigString::from_str` does. This cannot
    /// fail.
    fn from_str(s: &str) -> (r: Result<Self, Self::Err>)
        ensures
            r matches Ok(b) && b@ == s@,
    {
        BigString::from_str(s)
    }
}

/// The integer types a text widget can hold.
#[derive(Clone, Copy, PartialEq, Eq, Structural, Debug)]
pub enum IntKind {
    U8,
    U16,
    U32,
    U64,
    I8,
    I16,
    I32,
    I64,
}

impl IntKind {
    /// The least value of the type.
    pub open spec fn min_spec(self) -> int {
        match self {
            IntKind::U8 | IntKind::U16 | IntKind::U32 | IntKind::U64 => 0,
            IntKind::I8 => -0x80,
            IntKind::I16 => -0x8000,
            IntKind::I32 => -0x8000_0000,
            IntKind::I64 => -0x8000_0000_0000_0000,
        }
    }

    /// The greatest value of the type.
    pub open spec fn max_spec(self) -> int {
        match self {
            IntKind::U8 => 0xff,
            IntKind::U16 => 0xffff,
            IntKind::U32 => 0xffff_ffff,
            IntKind::U64 => 0xffff_ffff_ffff_ffff,
            IntKind::I8 => 0x7f,
            IntKind::I16 => 0x7fff,
            IntKind::I32 => 0x7fff_ffff,
            IntKind::I64 => 0x7fff_ffff_ffff_ffff,
        }
    }

    /// Whether `v` is a value of the type.
    pub open spec fn holds(self, v: int) -> bool {
        self.min_spec() <= v <= self.max_spec()
    }

    pub fn min(self) -> (r: i128)
        ensures
            r == self.min_spec(),
    {
        match self {
            IntKind::U8 | IntKind::U16 | IntKind::U32 | IntKind::U64 => 0,
            IntKind::I8 => -0x80,
            IntKind::I16 => -0x8000,
            IntKind::I32 => -0x8000_0000,
            IntKind::I64 => -0x8000_0000_0000_0000,
        }
    }

    pub fn max(self) -> (r: i128)
        ensures
            r == self.max_spec(),
    {
        match self {
            IntKind::U8 => 0xff,
            IntKind::U16 => 0xffff,
            IntKind::U32 => 0xffff_ffff,
            IntKind::U64 => 0xffff_ffff_ffff_ffff,
            IntKind::I8 => 0x7f,
            IntKind::I16 => 0x7fff,
            IntKind::I32 => 0x7fff_ffff,
            IntKind::I64 => 0x7fff_ffff_ffff_ffff,
        }
    }
}

/// Why a text is not an integer of the type asked for.
#[derive(Clone, Copy, PartialEq, Eq, Structural, Debug)]
pub enum IntError {
    /// The text is empty.
    Empty,
    /// A character is not a digit, or the text is a sign alone.
    InvalidDigit,
    /// The number is above the type's greatest value.
    PosOverflow,
    /// The number is below the type's least value.
    NegOverflow,
}

impl IntError {
    /// The description shown to the user.
    pub open spec fn message_spec(self) -> Seq<char> {
        match self {
            IntError::Empty => "cannot parse integer from empty string"@,
            IntError::InvalidDigit => "invalid digit found in string"@,
            IntError::PosOverflow => "number too large to fit in target type"@,
            IntError::NegOverflow => "number too small to fit in target type"@,
        }
    }

    /// The description shown to the user.
    pub fn message(&self) -> (r: &'static str)
        ensures
            r@ == self.message_spec(),
    {
        match self {
            IntError::Empty => "cannot parse integer from empty string",
            IntError::InvalidDigit => "invalid digit found in string",
            IntError::PosOverflow => "number too large to fit in target type",
            IntError::NegOverflow => "number too small to fit in target type",
        }
    }

    /// Every description says something: an error never clears an error slot.
    pub proof fn lemma_message_not_empty(self)
        ensures
            self.message_spec().len() > 0,
    {
        reveal_strlit("cannot parse integer from empty string");
        reveal_strlit("invalid digit found in string");
        reveal_strlit("number too large to fit in target type");
        reveal_strlit("number too small to fit in target type");
    }
}

/// Whether `c` is one of `0` to `9`.
pub open spec fn is_digit(c: char) -> bool {
    '0' <= c <= '9'
}

/// The number that the digit `c` stands for.
pub open spec fn digit_value(c: char) -> int {
    c as int - '0' as int
}

/// Reads the first `n` characters of `body` as decimal digits, from the left.
/// With `negative` the digits count downwards from zero. The first character
/// that is no digit, or that takes the number out of `min..=max`, decides the
/// error.
pub open spec fn scan_digits(body: Seq<char>, negative: bool, min: int, max: int, n: nat) -> Result<
    int,
    IntError,
>
    decreases n,
{
    if n == 0 || n > body.len() {
        Ok(0)
    } else {
        match scan_digits(body, negative, min, max, (n - 1) as nat) {
            Err(e) => Err(e),
            Ok(before) => {
                let c = body[n - 1];
                let v = if negative {
                    before * 10 - digit_value(c)
                } else {
                    before * 10 + digit_value(c)
                };
                if !is_digit(c) {
                    Err(IntError::InvalidDigit)
                } else if v > max {
                    Err(IntError::PosOverflow)
                } else if v < min {
                    Err(IntError::NegOverflow)
                } else {
                    Ok(v)
                }
            },
        }
    }
}

/// The integer in `min..=max` that `text` denotes in decimal: an optional
/// `+`, or `-` where `min` is negative, then at least one digit and nothing
/// else.
pub open spec fn int_of_text(text: Seq<char>, min: int, max: int) -> Result<int, IntError> {
    if text.len() == 0 {
        Err(IntError::Empty)
    } else if text.len() == 1 && (text[0] == '+' || text[0] == '-') {
        Err(IntError::InvalidDigit)
    } else {
        let negative = text[0] == '-' && min < 0;
        let body = if text[0] == '+' || negative {
            text.subrange(1, text.len() as int)
        } else {
            text
        };
        scan_digits(body, negative, min, max, body.len())
    }
}

/// An error found in a prefix is the error of every longer prefix.
pub proof fn lemma_scan_error_stays(body: Seq<char>, negative: bool, min: int, max: int, k: nat, n: nat)
    requires
        k <= n <= body.len(),
        scan_digits(body, negative, min, max, k) is Err,
    ensures
        scan_digits(body, negative, min, max, n) == scan_digits(body, negative, min, max, k),
    decreases n,
{
    if k < n {
        lemma_scan_error_stays(body, negative, min, max, k, (n - 1) as nat);
    }
}

/// Parses `text` as a decimal integer of the given type.
pub fn parse_int(text: &str, kind: IntKind) -> (r: Result<i128, IntError>)
    ensures
        match r {
            Ok(v) => int_of_text(text@, kind.min_spec(), kind.max_spec()) == Ok::<int, IntError>(v as int),
            Err(e) => int_of_text(text@, kind.min_spec(), kind.max_spec()) == Err::<int, IntError>(e),
        },
{
    let n = text.unicode_len();
    if n == 0 {
        return Err(IntError::Empty);
    }
    let first = text.get_char(0);
    if n == 1 && (first == '+' || first == '-') {
        return Err(IntError::InvalidDigit);
    }
    let min = kind.min();
    let max = kind.max();
    let negative = first == '-' && min < 0;
    let start: usize = if first == '+' || negative { 1 } else { 0 };
    let ghost body = text@.subrange(start as int, n as int);
    assert(body =~= if text@[0] == '+' || negative {
        text@.subrange(1, text@.len() as int)
    } else {
        text@
    });
    let mut value: i128 = 0;
    let mut i: usize = start;
    while i < n
        invariant
            start <= i <= n,
            n == text@.len(),
            body == text@.subrange(start as int, n as int),
            min == kind.min_spec(),
            max == kind.max_spec(),
            min <= value <= max,
            scan_digits(body, negative, min as int, max as int, (i - start) as nat) == Ok::<
                int,
                IntError,
            >(value as int),
            int_of_text(text@, min as int, max as int) == scan_digits(
                body,
                negative,
                min as int,
                max as int,
                body.len(),
            ),
        decreases n - i,
    {
        let c = text.get_char(i);
        assert(body[i - start] == c);
        proof {
            if scan_digits(body, negative, min as int, max as int, (i - start + 1) as nat) is Err {
                lemma_scan_error_stays(
                    body,
                    negative,
                    min as int,
                    max as int,
                    (i - start + 1) as nat,
                    body.len(),
                );
            }
        }
        if c < '0' || c > '9' {
            return Err(IntError::InvalidDigit);
        }
        let d: i128 = (c as u32 - '0' as u32) as i128;
        let next: i128 = if negative { value * 10 - d } else { value * 10 + d };
        if next > max {
            return Err(IntError::PosOverflow);
        }
        if next < min {
            return Err(IntError::NegOverflow);
        }
        value = next;
        i = i + 1;
    }
    Ok(value)
}

/// The character that stands for the digit `d`.
pub open spec fn digit_char(d: int) -> char {
    ((d + 48) as u8) as char
}

/// The decimal digits of `n`, most significant first, without leading zeros.
pub open spec fn digits_of(n: nat) -> Seq<char>
    decreases n,
{
    if n < 10 {
        seq![digit_char(n as int)]
    } else {
        digits_of(n / 10).push(digit_char((n % 10) as int))
    }
}

/// The decimal text of `v`: its digits, after a `-` where `v` is negative.
pub open spec fn text_of_int(v: int) -> Seq<char> {
    if v < 0 {
        seq!['-'] + digits_of((-v) as nat)
    } else {
        digits_of(v as nat)
    }
}

fn digit_str(d: u8) -> (r: &'static str)
    requires
        d < 10,
    ensures
        r@ == seq![digit_char(d as int)],
{
    proof {
        reveal_strlit("0");
        reveal_strlit("1");
        reveal_strlit("2");
        reveal_strlit("3");
        reveal_strlit("4");
        reveal_strlit("5");
        reveal_strlit("6");
        reveal_strlit("7");
        reveal_strlit("8");
        reveal_strlit("9");
    }
    let r = match d {
        0 => "0",
        1 => "1",
        2 => "2",
        3 => "3",
        4 => "4",
        5 => "5",
        6 => "6",
        7 => "7",
        8 => "8",
        _ => "9",
    };
    assert(r@ =~= seq![digit_char(d as int)]);
    r
}

fn push_digits(out: &mut String, n: u128)
    ensures
        final(out)@ == old(out)@ + digits_of(n as nat),
    decreases n,
{
    if n >= 10 {
        push_digits(out, n / 10);
    }
    out.append(digit_str((n % 10) as u8));
    assert(out@ =~= old(out)@ + digits_of(n as nat));
}

/// Writes `v` in decimal.
pub fn format_int(v: i128) -> (r: String)
    ensures
        r@ == text_of_int(v as int),
{
    let mut out = String::new();
    if v < 0 {
        proof {
            reveal_strlit("-");
        }
        out.append("-");
        assert(out@ =~= seq!['-']);
        let magnitude: u128 = (-(v + 1)) as u128 + 1;
        push_digits(&mut out, magnitude);
    } else {
        push_digits(&mut out, v as u128);
        assert(out@ =~= digits_of(v as nat));
    }
    out
}

/// Only the characters read decide the result.
pub proof fn lemma_scan_prefix(a: Seq<char>, b: Seq<char>, negative: bool, min: int, max: int, n: nat)
    requires
        n <= a.len(),
        n <= b.len(),
        forall|i: int| 0 <= i < n ==> a[i] == b[i],
    ensures
        scan_digits(a, negative, min, max, n) == scan_digits(b, negative, min, max, n),
    decreases n,
{
    if n > 0 {
        lemma_scan_prefix(a, b, negative, min, max, (n - 1) as nat);
    }
}

/// The digits of a number are digits, and there is at least one.
pub proof fn lemma_digits_of(n: nat)
    ensures
        digits_of(n).len() >= 1,
        forall|i: int| 0 <= i < digits_of(n).len() ==> is_digit(#[trigger] digits_of(n)[i]),
    decreases n,
{
    if n >= 10 {
        lemma_digits_of(n / 10);
    }
}

/// Reading the digits of `n` gives `n` back, or `-n` when counting downwards.
pub proof fn lemma_scan_digits_of(n: nat, negative: bool, min: int, max: int)
    requires
        min <= 0 <= max,
        if negative {
            min <= -n
        } else {
            n <= max
        },
    ensures
        scan_digits(digits_of(n), negative, min, max, digits_of(n).len()) == Ok::<int, IntError>(
            if negative {
                -n
            } else {
                n as int
            },
        ),
    decreases n,
{
    let text = digits_of(n);
    let last = digit_char((n % 10) as int);
    assert(is_digit(last) && digit_value(last) == n % 10);
    if n >= 10 {
        let head = digits_of(n / 10);
        lemma_scan_digits_of(n / 10, negative, min, max);
        lemma_scan_prefix(text, head, negative, min, max, head.len());
        assert(text.len() == head.len() + 1);
        assert(text[text.len() - 1] == last);
    } else {
        assert(text.len() == 1);
        assert(text[0] == last);
        assert(scan_digits(text, negative, min, max, 0) == Ok::<int, IntError>(0));
    }
}

/// Round trip: the decimal text of a value of the type parses to that value.
pub proof fn lemma_int_round_trip(v: int, min: int, max: int)
    requires
        min <= 0 <= max,
        min <= v <= max,
    ensures
        int_of_text(text_of_int(v), min, max) == Ok::<int, IntError>(v),
{
    let text = text_of_int(v);
    if v < 0 {
        let digits = digits_of((-v) as nat);
        lemma_digits_of((-v) as nat);
        lemma_scan_digits_of((-v) as nat, true, min, max);
        assert(text.subrange(1, text.len() as int) =~= digits);
    } else {
        lemma_digits_of(v as nat);
        lemma_scan_digits_of(v as nat, false, min, max);
        assert(is_digit(text[0]));
    }
}

/// The types that a single text widget can hold.
#[derive(Clone, Copy, PartialEq, Eq, Structural, Debug)]
pub enum ScalarKind {
    /// A `String`: any text, as it is.
    Text,
    /// A `Password`: any text, entered in a password widget.
    Password,
    /// A `BigString`: any text, meant for long entries.
    BigString,
    /// An integer, written in decimal.
    Int(IntKind),
}

impl ScalarKind {
    /// Whether `v` is a value of this type.
    pub open spec fn holds(self, v: ValueView) -> bool {
        match self {
            ScalarKind::Text => v is Text,
            ScalarKind::Password => v is Password,
            ScalarKind::BigString => v is BigString,
            ScalarKind::Int(kind) => v matches ValueView::Int(k, n) && k == kind && kind.holds(n),
        }
    }
}

/// The value of the given type that `text` stands for, or why there is none.
pub open spec fn scalar_of_text(kind: ScalarKind, text: Seq<char>) -> Result<ValueView, IntError> {
    match kind {
        ScalarKind::Text => Ok(ValueView::Text(text)),
        ScalarKind::Password => Ok(ValueView::Password(text)),
        ScalarKind::BigString => Ok(ValueView::BigString(text)),
        ScalarKind::Int(k) => match int_of_text(text, k.min_spec(), k.max_spec()) {
            Ok(n) => Ok(ValueView::Int(k, n)),
            Err(e) => Err(e),
        },
    }
}

/// Whether `v` is a value that a single text widget can hold.
pub open spec fn is_scalar(v: ValueView) -> bool {
    v is Text || v is Password || v is BigString || v is Int
}

/// The text that stands for a scalar value.
pub open spec fn text_of_scalar(v: ValueView) -> Seq<char> {
    match v {
        ValueView::Text(s) => s,
        ValueView::Password(s) => s,
        ValueView::BigString(s) => s,
        ValueView::Int(_, n) => text_of_int(n),
        _ => Seq::empty(),
    }
}

/// Parses the text of a widget as a value of the given type.
pub fn parse_scalar(kind: ScalarKind, text: &str) -> (r: Result<Value, IntError>)
    ensures
        match r {
            Ok(v) => scalar_of_text(kind, text@) == Ok::<ValueView, IntError>(v@),
            Err(e) => scalar_of_text(kind, text@) == Err::<ValueView, IntError>(e),
        },
{
    match kind {
        ScalarKind::Text => Ok(Value::Text(text.to_owned())),
        ScalarKind::Password => match Password::from_str(text) {
            Ok(p) => Ok(Value::Password(p)),
        },
        ScalarKind::BigString => match BigString::from_str(text) {
            Ok(b) => Ok(Value::BigString(b)),
        },
        ScalarKind::Int(k) => match parse_int(text, k) {
            Err(e) => Err(e),
            Ok(n) => Ok(
                match k {
                    IntKind::U8 => Value::U8(n as u8),
                    IntKind::U16 => Value::U16(n as u16),
                    IntKind::U32 => Value::U32(n as u32),
                    IntKind::U64 => Value::U64(n as u64),
                    IntKind::I8 => Value::I8(n as i8),
                    IntKind::I16 => Value::I16(n as i16),
                    IntKind::I32 => Value::I32(n as i32),
                    IntKind::I64 => Value::I64(n as i64),
                },
            ),
        },
    }
}

/// Writes a scalar value as the text that a widget would hold. Values that
/// are no scalars have no such text.
pub fn format_scalar(value: &Value) -> (r: Option<String>)
    ensures
        r is Some <==> is_scalar(value@),
        r matches Some(s) ==> s@ == text_of_scalar(value@),
{
    match value {
        Value::Text(s) => {
            Some(s.clone())
        },
        Value::Password(p) => {
            Some(p.as_str().to_owned())
        },
        Value::BigString(b) => {
            Some(b.as_str().to_owned())
        },
        Value::U8(n) => {
            Some(format_int(*n as i128))
        },
        Value::U16(n) => {
            Some(format_int(*n as i128))
        },
        Value::U32(n) => {
            Some(format_int(*n as i128))
        },
        Value::U64(n) => {
            Some(format_int(*n as i128))
        },
        Value::I8(n) => {
            Some(format_int(*n as i128))
        },
        Value::I16(n) => {
            Some(format_int(*n as i128))
        },
        Value::I32(n) => {
            Some(format_int(*n as i128))
        },
        Value::I64(n) => {
            Some(format_int(*n as i128))
        },
        _ => None,
    }
}

/// Round trip: the text of a scalar value parses to that value.
pub proof fn lemma_scalar_round_trip(kind: ScalarKind, v: ValueView)
    requires
        kind.holds(v),
    ensures
        scalar_of_text(kind, text_of_scalar(v)) == Ok::<ValueView, IntError>(v),
{
    match kind {
        ScalarKind::Int(k) => {
            lemma_int_round_trip(v->Int_1, k.min_spec(), k.max_spec());
        },
        _ => {},
    }
}

} // verus!
