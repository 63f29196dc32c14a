//! The hex-dump view: offset column, byte tokens and ASCII gutter.
use vstd::prelude::*;
use vstd::string::StringExecFns;
use crate::format::{
    Format, token, painted, color_of, offset_text, ascii_char, decimal, offset, push_char,
    push_styled, push_decimal, to_ascii,
};
use crate::page::{Page, total, lemma_total_prefix};

verus! {

/// `text`, painted in the colour of byte `b` when `colorize` is set.
pub open spec fn styled(text: Seq<char>, b: u8, colorize: bool) -> Seq<char> {
    if colorize {
        painted(color_of(b), text)
    } else {
        text
    }
}

/// A byte's token in the dump, followed by one space.
pub open spec fn byte_text(b: u8, f: Format, colorize: bool, prefix: bool) -> Seq<char> {
    styled(token(f, b, prefix), b, colorize) + seq![' ']
}

/// The tokens of a row.
pub open spec fn tokens_text(row: Seq<u8>, f: Format, colorize: bool, prefix: bool) -> Seq<char>
    decreases row.len(),
{
    if row.len() == 0 {
        Seq::empty()
    } else {
        tokens_text(row.drop_last(), f, colorize, prefix) + byte_text(row.last(), f, colorize, prefix)
    }
}

/// The ASCII gutter of a row.
pub open spec fn gutter_text(row: Seq<u8>, colorize: bool) -> Seq<char>
    decreases row.len(),
{
    if row.len() == 0 {
        Seq::empty()
    } else {
        gutter_text(row.drop_last(), colorize) + styled(seq![ascii_char(row.last())], row.last(), colorize)
    }
}

/// `n` spaces.
pub open spec fn spaces(n: nat) -> Seq<char> {
    Seq::new(n, |i: int| ' ')
}

/// The padding after the tokens of a row of `len` bytes: five spaces for
/// each missing byte, so that the gutters line up.
pub open spec fn padding(len: nat, width: nat) -> nat {
    if len < width {
        5 * (width - len) as nat
    } else {
        0
    }
}

/// One line of the dump: the row's offset, its tokens, padding, gutter.
pub open spec fn row_text(
    row: Seq<u8>,
    off: nat,
    width: nat,
    f: Format,
    colorize: bool,
    prefix: bool,
) -> Seq<char> {
    offset_text(off) + seq![':', ' '] + tokens_text(row, f, colorize, prefix) + spaces(
        padding(row.len(), width),
    ) + gutter_text(row, colorize) + seq!['\n']
}

/// The lines of the dump for `rows`, each row at the offset where it starts.
pub open spec fn rows_text(
    rows: Seq<Seq<u8>>,
    width: nat,
    f: Format,
    colorize: bool,
    prefix: bool,
) -> Seq<char>
    decreases rows.len(),
{
    if rows.len() == 0 {
        Seq::empty()
    } else {
        rows_text(rows.drop_last(), width, f, colorize, prefix) + row_text(
            rows.last(),
            total(rows.drop_last()),
            width,
            f,
            colorize,
            prefix,
        )
    }
}

/// The whole dump: its lines, then the summary line with the byte count.
pub open spec fn dump_text(
    rows: Seq<Seq<u8>>,
    bytes: nat,
    width: nat,
    f: Format,
    colorize: bool,
    prefix: bool,
) -> Seq<char> {
    rows_text(rows, width, f, colorize, prefix) + "   bytes: "@ + decimal(bytes) + seq!['\n']
}

/// Appends the offset column for position `b`, followed by `: `.
pub fn print_offset(w: &mut String, b: u64)
    ensures
        final(w)@ == old(w)@ + offset_text(b as nat) + seq![':', ' '],
{
    let o = offset(b);
    w.append(o.as_str());
    push_char(w, ':');
    push_char(w, ' ');
    assert(w@ =~= old(w)@ + offset_text(b as nat) + seq![':', ' ']);
}

/// Appends the token of byte `b`, coloured when `colorize` is set, and a space.
pub fn print_byte(w: &mut String, b: u8, format: Format, colorize: bool, prefix: bool)
    ensures
        final(w)@ == old(w)@ + byte_text(b, format, colorize, prefix),
{
    let t = format.format(b, prefix);
    push_styled(w, t.as_str(), b, colorize);
    push_char(w, ' ');
    assert(w@ =~= old(w)@ + byte_text(b, format, colorize, prefix));
}

/// Appends the gutter character of byte `b`, coloured when `colorize` is set.
pub fn append_ascii(target: &mut String, b: u8, colorize: bool)
    ensures
        final(target)@ == old(target)@ + styled(seq![ascii_char(b)], b, colorize),
{
    let mut t = String::new();
    push_char(&mut t, to_ascii(b));
    assert(t@ =~= seq![ascii_char(b)]);
    push_styled(target, t.as_str(), b, colorize);
}

/// Renders `page` as a hex dump for rows of `column_width` bytes: one line
/// per row with its offset, tokens and gutter, then the byte count.
pub fn hex_dump(page: &Page, column_width: u64, format: Format, colorize: bool, prefix: bool) -> (r:
    String)
    requires
        page.wf(),
        column_width <= u64::MAX / 5,
    ensures
        r@ == dump_text(page.rows(), page.bytes as nat, column_width as nat, format, colorize, prefix),
{
    let ghost rows = page.rows();
    let ghost wd = column_width as nat;
    let mut out = String::new();
    let mut offset_counter: u64 = 0;
    let mut i: usize = 0;
    while i < page.body.len()
        invariant
            page.wf(),
            column_width <= u64::MAX / 5,
            wd == column_width,
            rows == page.rows(),
            i <= page.body@.len(),
            offset_counter == total(rows.take(i as int)),
            out@ == rows_text(rows.take(i as int), wd, format, colorize, prefix),
        decreases page.body@.len() - i,
    {
        let line = &page.body[i];
        let ghost row = rows[i as int];
        assert(line.hex_body@ == row);
        let ghost next = rows.take(i + 1);
        assert(next.drop_last() =~= rows.take(i as int));
        proof {
            lemma_total_prefix(rows, i + 1);
        }
        let ghost start = out@;
        print_offset(&mut out, offset_counter);
        let ghost head = out@;
        let mut gutter = String::new();
        let mut j: usize = 0;
        while j < line.hex_body.len()
            invariant
                j <= row.len(),
                line.hex_body@ == row,
                offset_counter == total(rows.take(i as int)) + j,
                total(rows.take(i as int)) + row.len() <= total(rows),
                total(rows) == page.bytes,
                out@ == head + tokens_text(row.take(j as int), format, colorize, prefix),
                gutter@ == gutter_text(row.take(j as int), colorize),
            decreases row.len() - j,
        {
            let b = line.hex_body[j];
            assert(row.take(j + 1).drop_last() =~= row.take(j as int));
            offset_counter = offset_counter + 1;
            print_byte(&mut out, b, format, colorize, prefix);
            append_ascii(&mut gutter, b, colorize);
            j = j + 1;
        }
        assert(row.take(j as int) =~= row);
        let ghost mid = out@;
        let n: u64 = line.hex_body.len() as u64;
        if n < column_width {
            let pad: u64 = 5 * (column_width - n);
            let mut k: u64 = 0;
            while k < pad
                invariant
                    k <= pad,
                    out@ == mid + spaces(k as nat),
                decreases pad - k,
            {
                push_char(&mut out, ' ');
                k = k + 1;
                assert(out@ =~= mid + spaces(k as nat));
            }
            assert(pad == padding(row.len(), wd));
        } else {
            assert(out@ =~= mid + spaces(0));
        }
        assert(out@ == mid + spaces(padding(row.len(), wd)));
        assert(mid == start + offset_text(total(rows.take(i as int))) + seq![':', ' '] + tokens_text(row, format, colorize, prefix));
        out.append(gutter.as_str());
        push_char(&mut out, '\n');
        assert(out@ =~= start + row_text(row, total(rows.take(i as int)), wd, format, colorize, prefix));
        i = i + 1;
    }
    assert(rows.take(i as int) =~= rows);
    out.append("   bytes: ");
    push_decimal(&mut out, page.bytes);
    push_char(&mut out, '\n');
    assert(out@ =~= dump_text(rows, page.bytes as nat, wd, format, colorize, prefix));
    out
}

} // verus!
