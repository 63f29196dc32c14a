//! Source-code byte arrays in several languages, and the waveform layout.
use vstd::prelude::*;
use vstd::string::StringExecFns;
use vstd::string::StrSliceExecFns;
use crate::format::{Format, token, decimal, push_char, push_decimal};
use crate::page::{Page, total, lemma_total_prefix};

verus! {

/// The language in which an array is written, chosen by a one-letter tag.
#[derive(Clone, Copy, Debug, PartialEq, Eq, Structural)]
pub enum ArraySyntax {
    Rust,
    C,
    Go,
    Python,
    Kotlin,
    Java,
    Swift,
    FSharp,
    Unknown,
}

/// The syntax that a tag selects: `r`, `c`, `g`, `p`, `k`, `j`, `s`, `f`;
/// any other tag selects none.
pub open spec fn syntax_of(tag: Seq<char>) -> ArraySyntax {
    if tag.len() != 1 {
        ArraySyntax::Unknown
    } else if tag[0] == 'r' {
        ArraySyntax::Rust
    } else if tag[0] == 'c' {
        ArraySyntax::C
    } else if tag[0] == 'g' {
        ArraySyntax::Go
    } else if tag[0] == 'p' {
        ArraySyntax::Python
    } else if tag[0] == 'k' {
        ArraySyntax::Kotlin
    } else if tag[0] == 'j' {
        ArraySyntax::Java
    } else if tag[0] == 's' {
        ArraySyntax::Swift
    } else if tag[0] == 'f' {
        ArraySyntax::FSharp
    } else {
        ArraySyntax::Unknown
    }
}

impl ArraySyntax {
    /// The syntax that `tag` selects.
    pub fn from_tag(tag: &str) -> (r: ArraySyntax)
        ensures
            r == syntax_of(tag@),
    {
        if tag.unicode_len() != 1 {
            return ArraySyntax::Unknown;
        }
        match tag.get_char(0) {
            'r' => ArraySyntax::Rust,
            'c' => ArraySyntax::C,
            'g' => ArraySyntax::Go,
            'p' => ArraySyntax::Python,
            'k' => ArraySyntax::Kotlin,
            'j' => ArraySyntax::Java,
            's' => ArraySyntax::Swift,
            'f' => ArraySyntax::FSharp,
            _ => ArraySyntax::Unknown,
        }
    }
}

/// The line that opens an array of `n` bytes.
pub open spec fn open_text(syn: ArraySyntax, n: nat) -> Seq<char> {
    match syn {
        ArraySyntax::Rust => "let ARRAY: [u8; "@ + decimal(n) + "] = ["@,
        ArraySyntax::C => "unsigned char ARRAY["@ + decimal(n) + "] = {"@,
        ArraySyntax::Go => "a := ["@ + decimal(n) + "]byte{"@,
        ArraySyntax::Python => "a = ["@,
        ArraySyntax::Kotlin => "val a = byteArrayOf("@,
        ArraySyntax::Java => "byte[] a = new byte[]{"@,
        ArraySyntax::Swift => "let a: [UInt8] = ["@,
        ArraySyntax::FSharp => "let a = [|"@,
        ArraySyntax::Unknown => "unknown array format"@,
    }
}

/// The line that closes an array.
pub open spec fn close_text(syn: ArraySyntax) -> Seq<char> {
    match syn {
        ArraySyntax::Rust => "];"@,
        ArraySyntax::C => "};"@,
        ArraySyntax::Go => "}"@,
        ArraySyntax::Python => "]"@,
        ArraySyntax::Kotlin => ")"@,
        ArraySyntax::Java => "};"@,
        ArraySyntax::Swift => "]"@,
        ArraySyntax::FSharp => "|]"@,
        ArraySyntax::Unknown => "unknown array format"@,
    }
}

/// An element: the byte in lower-case hex with `0x`, then its separator.
/// The last byte of the array has none, except in Go, whose closing brace
/// asks for one.
pub open spec fn elem_text(b: u8, last: bool, syn: ArraySyntax) -> Seq<char> {
    let t = token(Format::LowerHex, b, true);
    if last && syn != ArraySyntax::Go {
        if syn == ArraySyntax::FSharp {
            t + "uy"@
        } else {
            t
        }
    } else if syn == ArraySyntax::FSharp {
        t + "uy; "@
    } else {
        t + ", "@
    }
}

/// The elements of a row whose first byte is byte `start` of an array of
/// `n` bytes.
pub open spec fn elems_text(row: Seq<u8>, start: nat, n: nat, syn: ArraySyntax) -> Seq<char>
    decreases row.len(),
{
    if row.len() == 0 {
        Seq::empty()
    } else {
        elems_text(row.drop_last(), start, n, syn) + elem_text(
            row.last(),
            start + row.len() == n,
            syn,
        )
    }
}

/// The body lines of an array: each row indented by four spaces.
pub open spec fn array_rows_text(rows: Seq<Seq<u8>>, n: nat, syn: ArraySyntax) -> Seq<char>
    decreases rows.len(),
{
    if rows.len() == 0 {
        Seq::empty()
    } else {
        array_rows_text(rows.drop_last(), n, syn) + "    "@ + elems_text(
            rows.last(),
            total(rows.drop_last()),
            n,
            syn,
        ) + seq!['\n']
    }
}

/// A whole array declaration of `n` bytes in rows `rows`.
pub open spec fn array_text(syn: ArraySyntax, rows: Seq<Seq<u8>>, n: nat) -> Seq<char> {
    open_text(syn, n) + seq!['\n'] + array_rows_text(rows, n, syn) + close_text(syn) + seq!['\n']
}

fn push_open(s: &mut String, syn: ArraySyntax, n: u64)
    ensures
        final(s)@ == old(s)@ + open_text(syn, n as nat),
{
    match syn {
        ArraySyntax::Rust => {
            s.append("let ARRAY: [u8; ");
            push_decimal(s, n);
            s.append("] = [");
        },
        ArraySyntax::C => {
            s.append("unsigned char ARRAY[");
            push_decimal(s, n);
            s.append("] = {");
        },
        ArraySyntax::Go => {
            s.append("a := [");
            push_decimal(s, n);
            s.append("]byte{");
        },
        ArraySyntax::Python => s.append("a = ["),
        ArraySyntax::Kotlin => s.append("val a = byteArrayOf("),
        ArraySyntax::Java => s.append("byte[] a = new byte[]{"),
        ArraySyntax::Swift => s.append("let a: [UInt8] = ["),
        ArraySyntax::FSharp => s.append("let a = [|"),
        ArraySyntax::Unknown => s.append("unknown array format"),
    }
    assert(s@ =~= old(s)@ + open_text(syn, n as nat));
}

fn push_close(s: &mut String, syn: ArraySyntax)
    ensures
        final(s)@ == old(s)@ + close_text(syn),
{
    match syn {
        ArraySyntax::Rust => s.append("];"),
        ArraySyntax::C => s.append("};"),
        ArraySyntax::Go => s.append("}"),
        ArraySyntax::Python => s.append("]"),
        ArraySyntax::Kotlin => s.append(")"),
        ArraySyntax::Java => s.append("};"),
        ArraySyntax::Swift => s.append("]"),
        ArraySyntax::FSharp => s.append("|]"),
        ArraySyntax::Unknown => s.append("unknown array format"),
    }
}

fn push_elem(s: &mut String, b: u8, last: bool, syn: ArraySyntax)
    ensures
        final(s)@ == old(s)@ + elem_text(b, last, syn),
{
    let t = Format::LowerHex.format(b, true);
    s.append(t.as_str());
    if last && syn != ArraySyntax::Go {
        if syn == ArraySyntax::FSharp {
            s.append("uy");
        }
    } else if syn == ArraySyntax::FSharp {
        s.append("uy; ");
    } else {
        s.append(", ");
    }
    assert(s@ =~= old(s)@ + elem_text(b, last, syn));
}

/// Renders `page` as a byte-array declaration in the syntax that
/// `array_format` selects. An unknown tag gives the text
/// `unknown array format` in place of both the opening and the closing line.
pub fn output_array(array_format: &str, page: &Page) -> (r: String)
    requires
        page.wf(),
    ensures
        r@ == array_text(syntax_of(array_format@), page.rows(), page.bytes as nat),
{
    let syn = ArraySyntax::from_tag(array_format);
    let ghost rows = page.rows();
    let ghost n = page.bytes as nat;
    let mut out = String::new();
    push_open(&mut out, syn, page.bytes);
    push_char(&mut out, '\n');
    let ghost top = out@;
    let mut count: u64 = 0;
    let mut i: usize = 0;
    while i < page.body.len()
        invariant
            page.wf(),
            rows == page.rows(),
            n == page.bytes,
            i <= page.body@.len(),
            count == total(rows.take(i as int)),
            out@ == top + array_rows_text(rows.take(i as int), n, syn),
        decreases page.body@.len() - i,
    {
        let line = &page.body[i];
        let ghost row = rows[i as int];
        assert(line.hex_body@ == row);
        assert(rows.take(i + 1).drop_last() =~= rows.take(i as int));
        proof {
            lemma_total_prefix(rows, i + 1);
        }
        let ghost start = out@;
        let ghost base = count as nat;
        out.append("    ");
        let ghost head = out@;
        let mut j: usize = 0;
        while j < line.hex_body.len()
            invariant
                j <= row.len(),
                line.hex_body@ == row,
                count == base + j,
                base + row.len() <= total(rows),
                total(rows) == n,
                n == page.bytes,
                out@ == head + elems_text(row.take(j as int), base, n, syn),
            decreases row.len() - j,
        {
            let b = line.hex_body[j];
            assert(row.take(j + 1).drop_last() =~= row.take(j as int));
            count = count + 1;
            push_elem(&mut out, b, count == page.bytes, syn);
            j = j + 1;
        }
        assert(row.take(j as int) =~= row);
        push_char(&mut out, '\n');
        assert(out@ =~= start + "    "@ + elems_text(row, base, n, syn) + seq!['\n']);
        i = i + 1;
    }
    assert(rows.take(i as int) =~= rows);
    push_close(&mut out, syn);
    push_char(&mut out, '\n');
    assert(out@ =~= array_text(syn, rows, n));
    out
}

/// A tag that selects no syntax is no error: the array is framed by the
/// line `unknown array format` at both ends, its bytes written as usual.
pub proof fn lemma_unknown_tag(tag: Seq<char>, rows: Seq<Seq<u8>>, n: nat)
    requires
        syntax_of(tag) == ArraySyntax::Unknown,
    ensures
        array_text(syntax_of(tag), rows, n) == "unknown array format"@ + seq!['\n']
            + array_rows_text(rows, n, ArraySyntax::Unknown) + "unknown array format"@ + seq![
            '\n',
        ],
{
}

/// The waveform values laid out: each followed by a comma, a line break
/// after every tenth.
pub open spec fn wave_values_text(values: Seq<Seq<char>>) -> Seq<char>
    decreases values.len(),
{
    if values.len() == 0 {
        Seq::empty()
    } else {
        wave_values_text(values.drop_last()) + values.last() + seq![','] + if (values.len() - 1)
            % 10 == 9 {
            seq!['\n']
        } else {
            Seq::empty()
        }
    }
}

/// The waveform text: its laid-out values and a closing line break.
pub open spec fn wave_text(values: Seq<Seq<char>>) -> Seq<char> {
    wave_values_text(values) + seq!['\n']
}

/// Lays out the formatted values of a waveform.
pub fn function_text(values: &Vec<String>) -> (r: String)
    ensures
        r@ == wave_text(values@.map_values(|v: String| v@)),
{
    let ghost vs = values@.map_values(|v: String| v@);
    let mut out = String::new();
    let mut i: usize = 0;
    while i < values.len()
        invariant
            i <= values@.len(),
            vs == values@.map_values(|v: String| v@),
            out@ == wave_values_text(vs.take(i as int)),
        decreases values@.len() - i,
    {
        assert(vs.take(i + 1).drop_last() =~= vs.take(i as int));
        out.append(values[i].as_str());
        push_char(&mut out, ',');
        if i % 10 == 9 {
            push_char(&mut out, '\n');
        }
        i = i + 1;
        assert(out@ =~= wave_values_text(vs.take(i as int)));
    }
    assert(vs.take(i as int) =~= vs);
    push_char(&mut out, '\n');
    out
}

} // verus!
