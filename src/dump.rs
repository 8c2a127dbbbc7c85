use vstd::prelude::*;
use vstd::string::*;

use crate::machine::{Chip8, RAM_SIZE};

verus! {

/// The upper-case hexadecimal digit of `d`, for `d` below 16.
pub open spec fn hex_char(d: int) -> char {
    seq!['0', '1', '2', '3', '4', '5', '6', '7', '8', '9', 'A', 'B', 'C', 'D', 'E', 'F'][d]
}

/// `n` in upper-case hexadecimal, padded with zeros to at least `width` digits.
pub open spec fn hex(n: nat, width: nat) -> Seq<char>
    decreases n + width,
{
    if n == 0 && width == 0 {
        seq![]
    } else {
        hex(n / 16, if width > 0 { (width - 1) as nat } else { 0 }) + seq![hex_char((n % 16) as int)]
    }
}

/// The header's column labels `00 01 02 ...`, one for each of `k` columns.
pub open spec fn columns(k: nat) -> Seq<char>
    decreases k,
{
    if k == 0 {
        seq![]
    } else {
        columns((k - 1) as nat) + hex((k - 1) as nat, 2) + seq![' ']
    }
}

/// The header line of a dump with `per_row` bytes per row.
pub open spec fn header_text(per_row: nat) -> Seq<char> {
    "Offset(h) "@ + columns(per_row)
}

/// The `k` bytes of `ram` from `start` on, two digits and a space each.
pub open spec fn cells(ram: Seq<u8>, start: nat, k: nat) -> Seq<char>
    decreases k,
{
    if k == 0 {
        seq![]
    } else {
        cells(ram, start, (k - 1) as nat) + hex(ram[start + k - 1] as nat, 2) + seq![' ']
    }
}

/// One row of a dump: the offset in eight digits, two spaces, the bytes.
pub open spec fn row_text(ram: Seq<u8>, start: nat, count: nat) -> Seq<char> {
    hex(start, 8) + "  "@ + cells(ram, start, count) + "\n"@
}

/// The first `k` full rows of `per_row` bytes.
pub open spec fn full_rows(ram: Seq<u8>, per_row: nat, k: nat) -> Seq<char>
    decreases k,
{
    if k == 0 {
        seq![]
    } else {
        full_rows(ram, per_row, (k - 1) as nat) + row_text(ram, ((k - 1) * per_row) as nat, per_row)
    }
}

/// A hex dump of memory: the header, a blank line, every full row and, when
/// the row length does not divide the memory size, a last shorter row.
pub open spec fn ram_text(ram: Seq<u8>, per_row: nat) -> Seq<char> {
    let rows = RAM_SIZE as nat / per_row;
    let rest = RAM_SIZE as nat % per_row;
    header_text(per_row) + "\n\n"@ + full_rows(ram, per_row, rows) + if rest != 0 {
        row_text(ram, rows * per_row, rest)
    } else {
        seq![]
    }
}

/// The digit of `d` as a one-character string.
fn hex_digit_str(d: usize) -> (r: &'static str)
    requires
        d < 16,
    ensures
        r@ == seq![hex_char(d as int)],
{
    if d == 0 {
        proof { reveal_strlit("0"); }
        "0"
    } else if d == 1 {
        proof { reveal_strlit("1"); }
        "1"
    } else if d == 2 {
        proof { reveal_strlit("2"); }
        "2"
    } else if d == 3 {
        proof { reveal_strlit("3"); }
        "3"
    } else if d == 4 {
        proof { reveal_strlit("4"); }
        "4"
    } else if d == 5 {
        proof { reveal_strlit("5"); }
        "5"
    } else if d == 6 {
        proof { reveal_strlit("6"); }
        "6"
    } else if d == 7 {
        proof { reveal_strlit("7"); }
        "7"
    } else if d == 8 {
        proof { reveal_strlit("8"); }
        "8"
    } else if d == 9 {
        proof { reveal_strlit("9"); }
        "9"
    } else if d == 10 {
        proof { reveal_strlit("A"); }
        "A"
    } else if d == 11 {
        proof { reveal_strlit("B"); }
        "B"
    } else if d == 12 {
        proof { reveal_strlit("C"); }
        "C"
    } else if d == 13 {
        proof { reveal_strlit("D"); }
        "D"
    } else if d == 14 {
        proof { reveal_strlit("E"); }
        "E"
    } else {
        proof { reveal_strlit("F"); }
        "F"
    }
}

/// Appends `n` in hexadecimal, zero-padded to `width` digits.
fn push_hex(out: &mut String, n: usize, width: usize)
    ensures
        final(out)@ == old(out)@ + hex(n as nat, width as nat),
    decreases n + width,
{
    if n == 0 && width == 0 {
        assert(old(out)@ + hex(0, 0) =~= old(out)@);
        return;
    }
    let w: usize = if width > 0 { width - 1 } else { 0 };
    push_hex(out, n / 16, w);
    out.append(hex_digit_str(n % 16));
    assert(final(out)@ =~= old(out)@ + hex(n as nat, width as nat));
}

/// Appends the row of `count` bytes of `ram` starting at `start`.
fn push_row(out: &mut String, ram: &[u8; 4096], start: usize, count: usize)
    requires
        start + count <= RAM_SIZE,
    ensures
        final(out)@ == old(out)@ + row_text(ram@, start as nat, count as nat),
{
    push_hex(out, start, 8);
    out.append("  ");
    let ghost base = out@;
    let mut j: usize = 0;
    while j < count
        invariant
            j <= count,
            start + count <= RAM_SIZE,
            out@ == base + cells(ram@, start as nat, j as nat),
        decreases count - j,
    {
        push_hex(out, ram[start + j] as usize, 2);
        out.append(" ");
        proof { reveal_strlit(" "); }
        assert(out@ =~= base + cells(ram@, start as nat, (j + 1) as nat));
        j = j + 1;
    }
    out.append("\n");
    assert(final(out)@ =~= old(out)@ + row_text(ram@, start as nat, count as nat));
}

impl Chip8 {
    /// The header line of a memory dump: `Offset(h) ` and a two-digit label
    /// for each of the `bytes_per_row` columns.
    pub fn header_to_text(bytes_per_row: usize) -> (r: String)
        ensures
            r@ == header_text(bytes_per_row as nat),
    {
        let mut out = String::from_str("Offset(h) ");
        let mut i: usize = 0;
        while i < bytes_per_row
            invariant
                i <= bytes_per_row,
                out@ == "Offset(h) "@ + columns(i as nat),
            decreases bytes_per_row - i,
        {
            push_hex(&mut out, i, 2);
            out.append(" ");
            proof { reveal_strlit(" "); }
            assert(out@ =~= "Offset(h) "@ + columns((i + 1) as nat));
            i = i + 1;
        }
        out
    }

    /// A hex dump of the whole memory with `bytes_per_row` bytes per row,
    /// each row led by its offset.
    pub fn ram_to_text(&self, bytes_per_row: usize) -> (r: String)
        requires
            self@.wf(),
            bytes_per_row > 0,
        ensures
            r@ == ram_text(self@.ram, bytes_per_row as nat),
    {
        let ram = self.ram();
        let total = self.total_ram();
        let rows = total / bytes_per_row;
        let rest = total % bytes_per_row;
        let mut out = Chip8::header_to_text(bytes_per_row);
        out.append("\n\n");
        let ghost head = out@;
        assert(rows * bytes_per_row + rest == RAM_SIZE) by (nonlinear_arith)
            requires
                rows == RAM_SIZE as int / bytes_per_row as int,
                rest == RAM_SIZE as int % bytes_per_row as int,
                bytes_per_row > 0,
        ;
        let mut r: usize = 0;
        let mut offset: usize = 0;
        while r < rows
            invariant
                r <= rows,
                offset == r * bytes_per_row,
                rows * bytes_per_row + rest == RAM_SIZE,
                ram@ == self@.ram,
                out@ == head + full_rows(ram@, bytes_per_row as nat, r as nat),
            decreases rows - r,
        {
            assert(offset + bytes_per_row <= RAM_SIZE) by (nonlinear_arith)
                requires
                    offset == r * bytes_per_row,
                    r < rows,
                    rows * bytes_per_row + rest == RAM_SIZE,
                    rest >= 0,
            ;
            push_row(&mut out, ram, offset, bytes_per_row);
            assert(out@ =~= head + full_rows(ram@, bytes_per_row as nat, (r + 1) as nat));
            assert((r + 1) * bytes_per_row == r * bytes_per_row + bytes_per_row)
                by (nonlinear_arith);
            r = r + 1;
            offset = offset + bytes_per_row;
        }
        if rest != 0 {
            push_row(&mut out, ram, offset, rest);
        }
        assert(out@ =~= ram_text(self@.ram, bytes_per_row as nat));
        out
    }
}

} // verus!
