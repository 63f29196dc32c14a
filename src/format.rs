//! Text primitives: digits, single-byte tokens, offsets and colour.
use vstd::prelude::*;
use vstd::string::StringExecFns;

verus! {

/// The character for a digit `d` (below 16) in positional notation.
pub open spec fn digit_char(d: nat, upper: bool) -> char {
    if d < 10 {
        (d + 48) as char
    } else if upper {
        (d + 55) as char
    } else {
        (d + 87) as char
    }
}

/// The last `n` digits of `v` in base `base`, most significant first,
/// padded with zeros on the left.
pub open spec fn digits(v: nat, base: nat, n: nat, upper: bool) -> Seq<char>
    decreases n,
{
    if n == 0 {
        Seq::empty()
    } else {
        digits(v / base, base, (n - 1) as nat, upper).push(digit_char(v % base, upper))
    }
}

/// The decimal notation of `v`, without leading zeros.
pub open spec fn decimal(v: nat) -> Seq<char>
    decreases v,
{
    if v < 10 {
        seq![digit_char(v, false)]
    } else {
        decimal(v / 10).push(digit_char(v % 10, false))
    }
}

/// The number of hexadecimal digits that `v` needs.
pub open spec fn hex_len(v: nat) -> nat
    decreases v,
{
    if v < 16 {
        1
    } else {
        1 + hex_len(v / 16)
    }
}

/// An offset: `0x` and the hexadecimal digits of `v`, at least eight.
pub open spec fn offset_text(v: nat) -> Seq<char> {
    let n = if hex_len(v) < 8 { 8 } else { hex_len(v) };
    seq!['0', 'x'] + digits(v, 16, n, false)
}

pub proof fn lemma_digits_len(v: nat, base: nat, n: nat, upper: bool)
    requires
        base >= 2,
    ensures
        digits(v, base, n, upper).len() == n,
    decreases n,
{
    if n > 0 {
        lemma_digits_len(v / base, base, (n - 1) as nat, upper);
    }
}

proof fn lemma_hex_len_le(v: nat)
    requires
        v >= 1,
    ensures
        hex_len(v) <= v,
    decreases v,
{
    if v >= 16 {
        lemma_hex_len_le(v / 16);
    }
}

/// Relies on `String::push`: the character is appended at the end.
#[verifier::external_body]
pub(crate) fn push_char(s: &mut String, c: char)
    ensures
        final(s)@ == old(s)@.push(c),
{
    s.push(c)
}

/// Relies on `String::push_str`: the text is appended at the end.
#[verifier::external_body]
pub(crate) fn push_str(s: &mut String, t: &str)
    ensures
        final(s)@ == old(s)@ + t@,
{
    s.push_str(t)
}

fn digit(d: u64, upper: bool) -> (c: char)
    requires
        d < 16,
    ensures
        c == digit_char(d as nat, upper),
{
    let d = d as u8;
    if d < 10 {
        (d + 48) as char
    } else if upper {
        (d + 55) as char
    } else {
        (d + 87) as char
    }
}

/// Appends the last `n` digits of `v` in base `base`.
pub fn push_digits(s: &mut String, v: u64, base: u64, n: u64, upper: bool)
    requires
        2 <= base <= 16,
    ensures
        final(s)@ == old(s)@ + digits(v as nat, base as nat, n as nat, upper),
    decreases n,
{
    if n > 0 {
        push_digits(s, v / base, base, n - 1, upper);
        push_char(s, digit(v % base, upper));
        assert(s@ =~= old(s)@ + digits(v as nat, base as nat, n as nat, upper));
    }
}

/// Appends the decimal notation of `v`.
pub fn push_decimal(s: &mut String, v: u64)
    ensures
        final(s)@ == old(s)@ + decimal(v as nat),
    decreases v,
{
    if v >= 10 {
        push_decimal(s, v / 10);
    }
    push_char(s, digit(v % 10, false));
    assert(s@ =~= old(s)@ + decimal(v as nat));
}

/// The offset column for position `b`: `0x` and at least eight
/// hexadecimal digits.
pub fn offset(b: u64) -> (r: String)
    ensures
        r@ == offset_text(b as nat),
{
    let mut n: u64 = 1;
    let mut t: u64 = b;
    proof {
        if b >= 1 {
            lemma_hex_len_le(b as nat);
        }
    }
    while t >= 16
        invariant
            n + hex_len(t as nat) == 1 + hex_len(b as nat),
            b >= 1 ==> hex_len(b as nat) <= b,
            t <= b,
        decreases t,
    {
        assert(hex_len(t as nat) == 1 + hex_len((t / 16) as nat));
        t = t / 16;
        n = n + 1;
    }
    let width: u64 = if n < 8 { 8 } else { n };
    let mut s = String::new();
    push_char(&mut s, '0');
    push_char(&mut s, 'x');
    push_digits(&mut s, b, 16, width, false);
    assert(s@ =~= offset_text(b as nat));
    s
}

/// The numeric notation in which a byte is written.
#[derive(Clone, Copy, Debug, PartialEq, Eq, Structural)]
pub enum Format {
    Octal,
    LowerHex,
    UpperHex,
    Pointer,
    Binary,
    LowerExp,
    UpperExp,
    Unknown,
}

/// The power of ten below a byte value: the exponent of its scientific
/// notation.
pub open spec fn exponent(v: nat) -> nat {
    if v >= 100 {
        2
    } else if v >= 10 {
        1
    } else {
        0
    }
}

/// Scientific notation with a two-digit fraction: `1.71e2` for 171.
pub open spec fn exp_text(v: nat, upper: bool) -> Seq<char> {
    let e = exponent(v);
    let m = if e == 2 {
        v
    } else if e == 1 {
        v * 10
    } else {
        v * 100
    };
    seq![
        digit_char(m / 100, false),
        '.',
        digit_char((m / 10) % 10, false),
        digit_char(m % 10, false),
        if upper { 'E' } else { 'e' },
        digit_char(e, false),
    ]
}

/// The prefix that marks a notation, where it has one.
pub open spec fn prefix_of(f: Format) -> Seq<char> {
    match f {
        Format::Octal => seq!['0', 'o'],
        Format::LowerHex => seq!['0', 'x'],
        Format::UpperHex => seq!['0', 'X'],
        Format::Pointer => seq!['0', 'x'],
        Format::Binary => seq!['0', 'b'],
        _ => Seq::empty(),
    }
}

/// A byte written in a notation, without prefix.
pub open spec fn body_of(f: Format, b: u8) -> Seq<char> {
    match f {
        Format::Octal => digits(b as nat, 8, 3, false),
        Format::LowerHex => digits(b as nat, 16, 2, false),
        Format::UpperHex => digits(b as nat, 16, 2, true),
        Format::Pointer => digits(b as nat, 16, 16, false),
        Format::Binary => digits(b as nat, 2, 8, false),
        Format::LowerExp => exp_text(b as nat, false),
        Format::UpperExp => exp_text(b as nat, true),
        Format::Unknown => seq!['?', '?'],
    }
}

/// The token for byte `b` in notation `f`.
pub open spec fn token(f: Format, b: u8, prefix: bool) -> Seq<char> {
    if prefix {
        prefix_of(f) + body_of(f, b)
    } else {
        body_of(f, b)
    }
}

/// The width of every token of a notation.
pub open spec fn token_width(f: Format, prefix: bool) -> nat {
    let body: nat = match f {
        Format::Octal => 3,
        Format::LowerHex => 2,
        Format::UpperHex => 2,
        Format::Pointer => 16,
        Format::Binary => 8,
        Format::LowerExp => 6,
        Format::UpperExp => 6,
        Format::Unknown => 2,
    };
    if prefix {
        prefix_of(f).len() + body
    } else {
        body
    }
}

/// Every token of a notation has the notation's width.
pub proof fn lemma_token_width(f: Format, b: u8, prefix: bool)
    ensures
        token(f, b, prefix).len() == token_width(f, prefix),
{
    lemma_digits_len(b as nat, 8, 3, false);
    lemma_digits_len(b as nat, 16, 2, false);
    lemma_digits_len(b as nat, 16, 2, true);
    lemma_digits_len(b as nat, 16, 16, false);
    lemma_digits_len(b as nat, 2, 8, false);
}

/// Within one notation, and one choice of prefix, all 256 byte values give
/// tokens of the same length, so columns of tokens stay aligned.
pub proof fn lemma_constant_width(f: Format, a: u8, b: u8, prefix: bool)
    ensures
        token(f, a, prefix).len() == token(f, b, prefix).len(),
{
    lemma_token_width(f, a, prefix);
    lemma_token_width(f, b, prefix);
}

fn push_exp(s: &mut String, v: u8, upper: bool)
    ensures
        final(s)@ == old(s)@ + exp_text(v as nat, upper),
{
    let e: u64 = if v >= 100 {
        2
    } else if v >= 10 {
        1
    } else {
        0
    };
    let m: u64 = if e == 2 {
        v as u64
    } else if e == 1 {
        v as u64 * 10
    } else {
        v as u64 * 100
    };
    push_char(s, digit(m / 100, false));
    push_char(s, '.');
    push_char(s, digit((m / 10) % 10, false));
    push_char(s, digit(m % 10, false));
    push_char(s, if upper { 'E' } else { 'e' });
    push_char(s, digit(e, false));
    assert(s@ =~= old(s)@ + exp_text(v as nat, upper));
}

impl Format {
    /// Writes byte `data` in this notation, led by the notation's prefix
    /// when `prefix` is set.
    pub fn format(&self, data: u8, prefix: bool) -> (r: String)
        ensures
            r@ == token(*self, data, prefix),
    {
        let mut s = String::new();
        if prefix {
            match self {
                Format::Octal => {
                    push_char(&mut s, '0');
                    push_char(&mut s, 'o');
                },
                Format::LowerHex | Format::Pointer => {
                    push_char(&mut s, '0');
                    push_char(&mut s, 'x');
                },
                Format::UpperHex => {
                    push_char(&mut s, '0');
                    push_char(&mut s, 'X');
                },
                Format::Binary => {
                    push_char(&mut s, '0');
                    push_char(&mut s, 'b');
                },
                _ => {},
            }
        }
        let ghost head = s@;
        assert(head =~= if prefix { prefix_of(*self) } else { Seq::empty() });
        let v = data as u64;
        match self {
            Format::Octal => push_digits(&mut s, v, 8, 3, false),
            Format::LowerHex => push_digits(&mut s, v, 16, 2, false),
            Format::UpperHex => push_digits(&mut s, v, 16, 2, true),
            Format::Pointer => push_digits(&mut s, v, 16, 16, false),
            Format::Binary => push_digits(&mut s, v, 2, 8, false),
            Format::LowerExp => push_exp(&mut s, data, false),
            Format::UpperExp => push_exp(&mut s, data, true),
            Format::Unknown => {
                push_char(&mut s, '?');
                push_char(&mut s, '?');
            },
        }
        assert(s@ =~= token(*self, data, prefix));
        s
    }
}

/// The palette index of a byte: its own value, but for 0, which takes the
/// distinguished colour 0x16.
pub open spec fn color_of(b: u8) -> u8 {
    if b == 0 {
        0x16
    } else {
        b
    }
}

/// The palette colour in which byte `b` is shown.
pub fn byte_to_color(b: u8) -> (r: u8)
    ensures
        r == color_of(b),
{
    if b == 0 {
        0x16
    } else {
        b
    }
}

/// `text` in the foreground colour `color` of the 256-colour palette:
/// the escape `ESC [ 38;5;<color> m`, the text, and the reset `ESC [ 0m`.
pub open spec fn painted(color: u8, text: Seq<char>) -> Seq<char> {
    seq!['\x1b', '[', '3', '8', ';', '5', ';'] + decimal(color as nat) + seq!['m'] + text + seq![
        '\x1b',
        '[',
        '0',
        'm',
    ]
}

/// Relies on ansi_term's `Style::fg(Colour::Fixed(n)).paint(text)` and its
/// `Display`: a style with a foreground only writes the prefix
/// `ESC[38;5;<n>m`, the text, then the reset suffix `ESC[0m`.
#[verifier::external_body]
fn paint(color: u8, text: &str) -> (r: String)
    ensures
        r@ == painted(color, text@),
{
    ansi_term::Style::new().fg(ansi_term::Colour::Fixed(color)).paint(text).to_string()
}

/// Appends `text`, painted in the colour of byte `b` when `colorize` is set.
pub fn push_styled(s: &mut String, text: &str, b: u8, colorize: bool)
    ensures
        final(s)@ == old(s)@ + (if colorize {
            painted(color_of(b), text@)
        } else {
            text@
        }),
{
    if colorize {
        let p = paint(byte_to_color(b), text);
        s.append(p.as_str());
    } else {
        s.append(text);
    }
}

/// The gutter character of a byte: itself when printable ASCII, else `.`.
pub open spec fn ascii_char(b: u8) -> char {
    if 32 <= b && b <= 126 {
        b as char
    } else {
        '.'
    }
}

/// The gutter character of a byte.
pub fn to_ascii(b: u8) -> (c: char)
    ensures
        c == ascii_char(b),
{
    if 32 <= b && b <= 126 {
        b as char
    } else {
        '.'
    }
}

} // verus!
