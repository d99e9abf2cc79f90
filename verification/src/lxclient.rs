//! What the benchmark client writes out: the measured times as lines of comma-separated values.

use vstd::prelude::*;

verus! {

/// The decimal digit for `d`
pub open spec fn digit(d: nat) -> u8 {
    (48 + d) as u8
}

/// The digits of `n` in decimal notation, the most significant first
pub open spec fn decimal(n: nat) -> Seq<u8>
    decreases n,
{
    if n < 10 {
        seq![digit(n)]
    } else {
        decimal(n / 10).push(digit(n % 10))
    }
}

/// The digits of `n` without those of zero
spec fn leading(n: nat) -> Seq<u8> {
    if n == 0 {
        Seq::empty()
    } else {
        decimal(n)
    }
}

/// The fields `parts` with a comma between every two of them
pub open spec fn joined(parts: Seq<Seq<u8>>) -> Seq<u8>
    decreases parts.len(),
{
    if parts.len() == 0 {
        Seq::empty()
    } else if parts.len() == 1 {
        parts[0]
    } else {
        joined(parts.drop_last()) + seq![44u8] + parts.last()
    }
}

/// The name of a column between double quotes
pub open spec fn quoted(name: Seq<u8>) -> Seq<u8> {
    seq![34u8] + name + seq![34u8]
}

/// The first line: the names of the columns
pub open spec fn header(data: Seq<(Vec<u8>, Vec<u64>)>) -> Seq<u8> {
    joined(Seq::new(data.len(), |c: int| quoted(data[c].0@)))
}

/// The line for the row `r`: the value that each column has in that row
pub open spec fn row(data: Seq<(Vec<u8>, Vec<u64>)>, r: int) -> Seq<u8> {
    joined(Seq::new(data.len(), |c: int| decimal(data[c].1@[r] as nat)))
}

/// Appends the decimal notation of `n` to `out`
fn push_decimal(out: &mut Vec<u8>, n: u64)
    ensures
        final(out)@ == old(out)@ + decimal(n as nat),
{
    let mut rev: Vec<u8> = Vec::new();
    rev.push(48 + (n % 10) as u8);
    let mut rest: u64 = n / 10;
    assert(decimal(n as nat) =~= leading(rest as nat) + rev@.reverse());
    while rest > 0
        invariant
            rev@.len() > 0,
            decimal(n as nat) == leading(rest as nat) + rev@.reverse(),
        decreases rest,
    {
        let ghost before = rev@;
        rev.push(48 + (rest % 10) as u8);
        assert(leading(rest as nat) =~= leading((rest / 10) as nat).push(digit((rest % 10) as nat)));
        assert(rev@.reverse() =~= seq![digit((rest % 10) as nat)] + before.reverse());
        rest = rest / 10;
        assert(decimal(n as nat) =~= leading(rest as nat) + rev@.reverse());
    }
    let mut k: usize = rev.len();
    while k > 0
        invariant
            0 <= k <= rev@.len(),
            out@ == old(out)@ + rev@.reverse().take(rev@.len() - k),
        decreases k,
    {
        k -= 1;
        out.push(rev[k]);
        assert(out@ =~= old(out)@ + rev@.reverse().take(rev@.len() - k));
    }
    assert(rev@.reverse().take(rev@.len() as int) =~= rev@.reverse());
}

/// Appends the bytes of `field` to `line`
fn push_bytes(line: &mut Vec<u8>, field: &Vec<u8>)
    ensures
        final(line)@ == old(line)@ + field@,
{
    let mut k: usize = 0;
    while k < field.len()
        invariant
            0 <= k <= field.len(),
            line@ == old(line)@ + field@.take(k as int),
        decreases field.len() - k,
    {
        line.push(field[k]);
        k += 1;
        assert(line@ =~= old(line)@ + field@.take(k as int));
    }
    assert(field@.take(field.len() as int) =~= field@);
}

/// A line of one more field is the line of the fields before it, a comma unless there are
/// none, and the field
proof fn lemma_joined_push(parts: Seq<Seq<u8>>, field: Seq<u8>)
    ensures
        joined(parts.push(field)) == if parts.len() == 0 {
            field
        } else {
            joined(parts) + seq![44u8] + field
        },
{
    assert(parts.push(field).drop_last() =~= parts);
}

/// Returns the lines that show `data` as comma-separated values: the names of the columns,
/// each between double quotes, and then one line for each row of the first column, with the
/// values in decimal notation; no line at all where there is no column
///
/// No column may have fewer rows than the first one.
pub fn csv_lines(data: &Vec<(Vec<u8>, Vec<u64>)>) -> (lines: Vec<Vec<u8>>)
    requires
        forall|c: int| 0 <= c < data@.len() ==> (#[trigger] data@[c]).1@.len() >= data@[0].1@.len(),
    ensures
        data@.len() == 0 ==> lines@.len() == 0,
        data@.len() > 0 ==> lines@.len() == 1 + data@[0].1@.len(),
        data@.len() > 0 ==> lines@[0]@ == header(data@),
        forall|r: int|
            0 <= r < lines@.len() - 1 ==> (#[trigger] lines@[r + 1])@ == row(data@, r),
{
    let mut lines: Vec<Vec<u8>> = Vec::new();
    if data.len() == 0 {
        return lines;
    }
    let mut line: Vec<u8> = Vec::new();
    let mut c: usize = 0;
    let ghost names = Seq::new(data@.len(), |c: int| quoted(data@[c].0@));
    while c < data.len()
        invariant
            0 <= c <= data.len(),
            names == Seq::new(data@.len(), |c: int| quoted(data@[c].0@)),
            line@ == joined(names.take(c as int)),
        decreases data.len() - c,
    {
        proof {
            lemma_joined_push(names.take(c as int), names[c as int]);
            assert(names.take(c as int).push(names[c as int]) =~= names.take(c + 1));
        }
        if c > 0 {
            line.push(44);
        }
        line.push(34);
        push_bytes(&mut line, &data[c].0);
        line.push(34);
        c += 1;
        assert(line@ =~= joined(names.take(c as int)));
    }
    assert(names.take(data.len() as int) =~= names);
    lines.push(line);
    let n_row = data[0].1.len();
    let mut r: usize = 0;
    while r < n_row
        invariant
            0 <= r <= n_row,
            data@.len() > 0,
            n_row == data@[0].1@.len(),
            forall|c: int| 0 <= c < data@.len() ==> (#[trigger] data@[c]).1@.len() >= n_row,
            lines@.len() == 1 + r,
            lines@[0]@ == header(data@),
            forall|q: int| 0 <= q < r ==> (#[trigger] lines@[q + 1])@ == row(data@, q),
        decreases n_row - r,
    {
        let ghost cells = Seq::new(data@.len(), |c: int| decimal(data@[c].1@[r as int] as nat));
        let mut line: Vec<u8> = Vec::new();
        let mut c: usize = 0;
        while c < data.len()
            invariant
                0 <= c <= data.len(),
                0 <= r < n_row,
                forall|c: int| 0 <= c < data@.len() ==> (#[trigger] data@[c]).1@.len() >= n_row,
                cells == Seq::new(data@.len(), |c: int| decimal(data@[c].1@[r as int] as nat)),
                line@ == joined(cells.take(c as int)),
            decreases data.len() - c,
        {
            proof {
                lemma_joined_push(cells.take(c as int), cells[c as int]);
                assert(cells.take(c as int).push(cells[c as int]) =~= cells.take(c + 1));
            }
            if c > 0 {
                line.push(44);
            }
            push_decimal(&mut line, data[c].1[r]);
            c += 1;
            assert(line@ =~= joined(cells.take(c as int)));
        }
        assert(cells.take(data.len() as int) =~= cells);
        let ghost done = lines@;
        lines.push(line);
        assert forall|q: int| 0 <= q < r + 1 implies (#[trigger] lines@[q + 1])@ == row(
            data@,
            q,
        ) by {
            if q < r {
                assert(lines@[q + 1] == done[q + 1]);
            }
        }
        r += 1;
    }
    lines
}

} // verus!
