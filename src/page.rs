//! Splitting a byte stream into fixed-width rows.
use vstd::prelude::*;

verus! {

/// One row of output: the bytes it shows and how many there are.
#[derive(Clone, Debug, Default)]
pub struct Line {
    pub offset: u64,
    pub hex_body: Vec<u8>,
    pub ascii: Vec<u8>,
    pub bytes: u64,
}

impl Line {
    /// A row's byte counter matches the bytes it holds.
    pub open spec fn wf(&self) -> bool {
        self.bytes == self.hex_body@.len()
    }

    /// An empty row.
    pub fn new() -> (r: Line)
        ensures
            r.offset == 0,
            r.hex_body@ == Seq::<u8>::empty(),
            r.ascii@ == Seq::<u8>::empty(),
            r.bytes == 0,
            r.wf(),
    {
        Line { offset: 0x0, hex_body: Vec::new(), ascii: Vec::new(), bytes: 0x0 }
    }
}

/// The sum of the lengths of `rows`.
pub open spec fn total(rows: Seq<Seq<u8>>) -> nat
    decreases rows.len(),
{
    if rows.len() == 0 {
        0
    } else {
        total(rows.drop_last()) + rows.last().len()
    }
}

/// The total of a prefix of rows is at most the total of all of them.
pub proof fn lemma_total_prefix(rows: Seq<Seq<u8>>, i: int)
    requires
        0 <= i <= rows.len(),
    ensures
        total(rows.take(i)) <= total(rows),
    decreases rows.len(),
{
    if i < rows.len() {
        assert(rows.drop_last().take(i) =~= rows.take(i));
        lemma_total_prefix(rows.drop_last(), i);
    } else {
        assert(rows.take(i) =~= rows);
    }
}

/// A page: its rows, in order, and the number of bytes they hold.
#[derive(Clone, Debug, Default)]
pub struct Page {
    pub offset: u64,
    pub body: Vec<Line>,
    pub bytes: u64,
}

impl Page {
    /// The bytes of each row.
    pub open spec fn rows(&self) -> Seq<Seq<u8>> {
        self.body@.map_values(|l: Line| l.hex_body@)
    }

    /// Every row counts its bytes, and the page counts them all.
    pub open spec fn wf(&self) -> bool {
        &&& forall|i: int| 0 <= i < self.body@.len() ==> (#[trigger] self.body@[i]).wf()
        &&& self.bytes == total(self.rows())
    }

    /// A page with no rows.
    pub fn new() -> (r: Page)
        ensures
            r.offset == 0,
            r.body@ == Seq::<Line>::empty(),
            r.bytes == 0,
            r.wf(),
    {
        let r = Page { offset: 0x0, body: Vec::new(), bytes: 0x0 };
        assert(r.rows() =~= Seq::<Seq<u8>>::empty());
        r
    }
}

/// The bytes that are read: all of `input`, or its first `limit` bytes when
/// `limit` is nonzero and smaller.
pub open spec fn consumed(input: Seq<u8>, limit: nat) -> Seq<u8> {
    if limit > 0 && limit < input.len() {
        input.take(limit as int)
    } else {
        input
    }
}

/// The row width in effect: a width of 0 seals every byte in a row of its own.
pub open spec fn effective_width(w: nat) -> nat {
    if w == 0 {
        1
    } else {
        w
    }
}

/// Row `k` of `s` cut in rows of `w` bytes; the last row holds what remains.
pub open spec fn chunk(s: Seq<u8>, w: nat, k: nat) -> Seq<u8> {
    s.subrange(
        (k * w) as int,
        if k * w + w <= s.len() {
            (k * w + w) as int
        } else {
            s.len() as int
        },
    )
}

/// `s` cut in full rows of `w` bytes, followed by one row with the rest,
/// which is empty when `w` divides the length.
pub open spec fn chunks(s: Seq<u8>, w: nat) -> Seq<Seq<u8>> {
    Seq::new(s.len() / w + 1, |k: int| chunk(s, w, k as nat))
}

/// The rows of the page made of `input`, truncated at `limit`, in rows of
/// `width` bytes.
pub open spec fn paginate(input: Seq<u8>, limit: nat, width: nat) -> Seq<Seq<u8>> {
    chunks(consumed(input, limit), effective_width(width))
}

/// Reads `buf` into a page of rows of `column_width` bytes, stopping after
/// `buf_len` bytes when `buf_len` is nonzero. The last row holds the bytes
/// that fill no whole row, and is there even when it is empty.
pub fn buf_to_array(buf: &[u8], buf_len: u64, column_width: u64) -> (page: Page)
    ensures
        page.wf(),
        page.rows() == paginate(buf@, buf_len as nat, column_width as nat),
        page.bytes == consumed(buf@, buf_len as nat).len(),
        buf_len > 0 ==> page.bytes <= buf_len,
        buf_len == 0 ==> page.bytes == buf@.len(),
{
    let w: u64 = if column_width == 0 {
        1
    } else {
        column_width
    };
    let n: usize = if buf_len > 0 && (buf_len as u128) < (buf.len() as u128) {
        buf_len as usize
    } else {
        buf.len()
    };
    let ghost s = consumed(buf@, buf_len as nat);
    assert(s.len() == n);
    let mut page: Page = Page::new();
    let mut line: Line = Line::new();
    let mut column_count: u64 = 0;
    let mut i: usize = 0;
    while i < n
        invariant
            n == s.len(),
            s.len() <= buf@.len(),
            forall|j: int| 0 <= j < s.len() ==> s[j] == buf@[j],
            w == effective_width(column_width as nat),
            i <= n,
            forall|j: int| 0 <= j < page.body@.len() ==> (#[trigger] page.body@[j]).wf(),
            line.wf(),
            page.bytes == i,
            column_count == line.hex_body@.len(),
            column_count < w,
            total(page.rows()) + column_count == i,
            page.body@.len() * w + column_count == i,
            line.hex_body@ == s.subrange(page.body@.len() * w, i as int),
            forall|j: int|
                0 <= j < page.body@.len() ==> (#[trigger] page.body@[j]).hex_body@ == s.subrange(
                    j * w,
                    j * w + w,
                ),
        decreases n - i,
    {
        let b: u8 = buf[i];
        line.bytes = line.bytes + 1;
        page.bytes = page.bytes + 1;
        line.hex_body.push(b);
        column_count = column_count + 1;
        assert(line.hex_body@ =~= s.subrange(page.body@.len() * w, i + 1));
        if column_count >= w {
            let ghost old_rows = page.rows();
            let ghost k = page.body@.len();
            page.body.push(line);
            line = Line::new();
            column_count = 0;
            assert(page.rows() =~= old_rows.push(s.subrange(k * w, k * w + w)));
            assert(page.rows().drop_last() =~= old_rows);
            assert((k + 1) * w == k * w + w) by (nonlinear_arith);
        }
        i = i + 1;
    }
    let ghost old_rows = page.rows();
    let ghost k = page.body@.len();
    page.body.push(line);
    assert(page.rows() =~= old_rows.push(s.subrange(k * w, n as int)));
    assert(page.rows().drop_last() =~= old_rows);
    proof {
        vstd::arithmetic::div_mod::lemma_fundamental_div_mod_converse(
            n as int,
            w as int,
            k as int,
            column_count as int,
        );
        assert forall|j: int| 0 <= j < k + 1 implies page.rows()[j] == chunk(s, w as nat, j as nat) by {
            if j < k {
                assert(j * w + w <= k * w) by (nonlinear_arith)
                    requires
                        j < k,
                        w > 0,
                ;
            }
        }
        assert(page.rows() =~= chunks(s, w as nat));
    }
    page
}

/// An empty input gives a page of exactly one row, which is empty.
pub proof fn lemma_empty_input(limit: nat, width: nat)
    ensures
        paginate(Seq::empty(), limit, width) == seq![Seq::<u8>::empty()],
        total(paginate(Seq::empty(), limit, width)) == 0,
{
    let w = effective_width(width);
    let rows = paginate(Seq::empty(), limit, width);
    assert(0nat / w == 0) by (nonlinear_arith)
        requires
            w > 0,
    ;
    assert(rows.len() == 1);
    assert(rows[0] =~= Seq::<u8>::empty());
    assert(rows =~= seq![Seq::<u8>::empty()]);
    assert(rows.drop_last() =~= Seq::<Seq<u8>>::empty());
    assert(total(rows.drop_last()) == 0);
    assert(total(rows) == total(rows.drop_last()) + rows.last().len());
}

/// When the width divides the length of an input that is read whole, the
/// last row is empty.
pub proof fn lemma_exact_multiple(input: Seq<u8>, limit: nat, width: nat)
    requires
        width > 0,
        input.len() % width == 0,
        limit == 0 || input.len() <= limit,
    ensures
        paginate(input, limit, width).last().len() == 0,
{
    let k = input.len() / width;
    vstd::arithmetic::div_mod::lemma_fundamental_div_mod(input.len() as int, width as int);
    assert(k * width == input.len());
}

} // verus!
