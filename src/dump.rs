use vstd::prelude::*;
use vstd::string::StringSliceAdditionalSpecFns;

verus! {

/// ASCII code of the lower-case hexadecimal digit for `n` (`n < 16`).
pub open spec fn hex_digit(n: u8) -> u8 {
    if n < 10 {
        (48 + n) as u8
    } else {
        (87 + n) as u8
    }
}

/// Two lower-case hex digits of a byte.
pub open spec fn hex2(b: u8) -> Seq<u8> {
    seq![hex_digit(b / 16), hex_digit(b % 16)]
}

/// Printable ASCII: space through tilde.
pub open spec fn is_printable(b: u8) -> bool {
    32 <= b && b <= 0x7e
}

/// Decimal digits of `n`, most significant first, without padding.
pub open spec fn decimal(n: nat) -> Seq<u8>
    decreases n,
{
    if n < 10 {
        seq![(48 + n) as u8]
    } else {
        decimal(n / 10).push((48 + n % 10) as u8)
    }
}

/// `n` spaces.
pub open spec fn spaces(n: nat) -> Seq<u8> {
    Seq::new(n, |i: int| 32u8)
}

/// Decimal digits of `n` right-aligned in a field of `width` columns.
pub open spec fn decimal_padded(n: nat, width: nat) -> Seq<u8> {
    let d = decimal(n);
    if d.len() >= width {
        d
    } else {
        spaces((width - d.len()) as nat) + d
    }
}

/// Column `i` (0..16) of the hex half of a dump line.
pub open spec fn hex_column(b: Seq<u8>, i: int) -> Seq<u8> {
    let sep: Seq<u8> = if i == 8 { seq![32u8] } else { seq![] };
    if i < b.len() {
        sep + hex2(b[i]).push(32u8)
    } else {
        sep + seq![32u8, 32u8, 32u8]
    }
}

/// The first `n` columns of the hex half of a dump line.
pub open spec fn hex_columns(b: Seq<u8>, n: nat) -> Seq<u8>
    decreases n,
{
    if n == 0 {
        seq![]
    } else {
        hex_columns(b, (n - 1) as nat) + hex_column(b, n - 1)
    }
}

/// Column `i` of the character gutter: the byte if printable, `.` if not, blank past the end.
pub open spec fn gutter_char(b: Seq<u8>, i: int) -> u8 {
    if i < b.len() {
        if is_printable(b[i]) {
            b[i]
        } else {
            46u8
        }
    } else {
        32u8
    }
}

/// One dump line for a block of at most 16 bytes: sixteen hex columns split after the
/// eighth, then the character gutter between bars.
pub open spec fn block_line(b: Seq<u8>) -> Seq<u8> {
    hex_columns(b, 16) + seq![124u8] + Seq::new(16, |i: int| gutter_char(b, i)) + seq![124u8]
}

/// The `k`-th block of 16 bytes of `data` (the last one may be shorter).
pub open spec fn block_of(data: Seq<u8>, k: int) -> Seq<u8> {
    let end = if 16 * k + 16 <= data.len() { 16 * k + 16 } else { data.len() as int };
    data.subrange(16 * k, end)
}

/// Number of dump lines for `n` bytes: one per started block of 16.
pub open spec fn block_count(n: nat) -> nat {
    (n + 15) / 16
}

/// Escaped rendering of one byte inside a byte-string literal.
pub open spec fn escape_byte(b: u8) -> Seq<u8> {
    if b == 9 {
        seq![92u8, 116u8]
    } else if b == 10 {
        seq![92u8, 110u8]
    } else if b == 92 {
        seq![92u8, 92u8]
    } else if b == 34 {
        seq![92u8, 34u8]
    } else if is_printable(b) {
        seq![b]
    } else {
        seq![92u8, 120u8] + hex2(b)
    }
}

/// Escaped renderings of all bytes of `s`, in order.
pub open spec fn escape_all(s: Seq<u8>) -> Seq<u8>
    decreases s.len(),
{
    if s.len() == 0 {
        seq![]
    } else {
        escape_all(s.drop_last()) + escape_byte(s.last())
    }
}

/// `b"` + escaped bytes + `"`.
pub open spec fn raw_string_text(s: Seq<u8>) -> Seq<u8> {
    seq![98u8, 34u8] + escape_all(s) + seq![34u8]
}

/// Inline dump of byte `i` of a run: two hex digits and a space, with `| ` after every
/// sixteenth byte.
pub open spec fn inline_byte(s: Seq<u8>, i: int) -> Seq<u8> {
    if i % 16 == 15 {
        hex2(s[i]) + seq![32u8, 124u8, 32u8]
    } else {
        hex2(s[i]).push(32u8)
    }
}

pub open spec fn inline_bytes(s: Seq<u8>, n: nat) -> Seq<u8>
    decreases n,
{
    if n == 0 {
        seq![]
    } else {
        inline_bytes(s, (n - 1) as nat) + inline_byte(s, n - 1)
    }
}

/// `"<n> bytes: "` followed by every byte in hex.
pub open spec fn inline_dump_text(s: Seq<u8>) -> Seq<u8> {
    decimal(s.len()) + seq![32u8, 98u8, 121u8, 116u8, 101u8, 115u8, 58u8, 32u8] + inline_bytes(
        s,
        s.len(),
    )
}

fn hex_digit_of(n: u8) -> (r: u8)
    requires
        n < 16,
    ensures
        r == hex_digit(n),
{
    if n < 10 {
        48 + n
    } else {
        87 + n
    }
}

fn push_hex2(out: &mut Vec<u8>, b: u8)
    ensures
        final(out)@ == old(out)@ + hex2(b),
{
    out.push(hex_digit_of(b / 16));
    out.push(hex_digit_of(b % 16));
    assert(final(out)@ =~= old(out)@ + hex2(b));
}

/// Appends the decimal digits of `n` to `out`.
pub fn push_decimal(out: &mut Vec<u8>, n: u64)
    ensures
        final(out)@ == old(out)@ + decimal(n as nat),
    decreases n,
{
    if n < 10 {
        out.push(48 + n as u8);
        assert(final(out)@ =~= old(out)@ + decimal(n as nat));
    } else {
        push_decimal(out, n / 10);
        out.push(48 + (n % 10) as u8);
        assert(final(out)@ =~= old(out)@ + decimal(n as nat));
    }
}

/// Appends `n` in decimal, right-aligned in a field of `width` columns.
pub fn push_decimal_padded(out: &mut Vec<u8>, n: u64, width: usize)
    ensures
        final(out)@ == old(out)@ + decimal_padded(n as nat, width as nat),
{
    let mut digits: Vec<u8> = Vec::new();
    push_decimal(&mut digits, n);
    assert(digits@ =~= decimal(n as nat));
    if digits.len() < width {
        let pad = width - digits.len();
        let mut i: usize = 0;
        while i < pad
            invariant
                i <= pad,
                out@ == old(out)@ + spaces(i as nat),
            decreases pad - i,
        {
            out.push(32u8);
            i = i + 1;
            assert(out@ =~= old(out)@ + spaces(i as nat));
        }
    }
    out.append(&mut digits);
    assert(out@ =~= old(out)@ + decimal_padded(n as nat, width as nat));
}

/// Formats a block of at most 16 bytes as one dump line: hex columns split after the
/// eighth, then the printable characters (`.` for the rest) between bars.
pub fn hex_dump_block(block: &[u8]) -> (r: Vec<u8>)
    requires
        block@.len() <= 16,
    ensures
        r@ == block_line(block@),
{
    let mut out: Vec<u8> = Vec::new();
    let mut i: usize = 0;
    while i < 16
        invariant
            i <= 16,
            block@.len() <= 16,
            out@ == hex_columns(block@, i as nat),
        decreases 16 - i,
    {
        let ghost before = out@;
        if i == 8 {
            out.push(32u8);
        }
        if i < block.len() {
            push_hex2(&mut out, block[i]);
            out.push(32u8);
        } else {
            out.push(32u8);
            out.push(32u8);
            out.push(32u8);
        }
        assert(out@ =~= before + hex_column(block@, i as int));
        i = i + 1;
    }
    out.push(124u8);
    let ghost head = out@;
    let mut j: usize = 0;
    while j < 16
        invariant
            j <= 16,
            block@.len() <= 16,
            out@ == head + Seq::new(j as nat, |k: int| gutter_char(block@, k)),
        decreases 16 - j,
    {
        let c: u8 = if j < block.len() {
            let v = block[j];
            if 32 <= v && v <= 0x7e {
                v
            } else {
                46u8
            }
        } else {
            32u8
        };
        out.push(c);
        j = j + 1;
        assert(out@ =~= head + Seq::new(j as nat, |k: int| gutter_char(block@, k)));
    }
    out.push(124u8);
    assert(out@ =~= block_line(block@));
    out
}

/// Splits `data` into blocks of 16 bytes and formats each as one dump line.
pub fn hex_dump_lines(data: &[u8]) -> (r: Vec<Vec<u8>>)
    ensures
        r@.len() == block_count(data@.len()),
        forall|k: int| 0 <= k < r@.len() ==> #[trigger] r@[k]@ == block_line(block_of(data@, k)),
{
    let n = data.len();
    let count: usize = n / 16 + if n % 16 != 0 { 1 } else { 0 };
    assert(count == block_count(n as nat)) by (nonlinear_arith)
        requires
            count == n / 16 + if n % 16 != 0 { 1int } else { 0int },
    ;
    let mut lines: Vec<Vec<u8>> = Vec::new();
    let mut k: usize = 0;
    while k < count
        invariant
            k <= count,
            n == data@.len(),
            count == block_count(n as nat),
            lines@.len() == k,
            forall|j: int| 0 <= j < lines@.len() ==> #[trigger] lines@[j]@ == block_line(block_of(data@, j)),
        decreases count - k,
    {
        assert(16 * k < n) by (nonlinear_arith)
            requires
                k < count,
                count == (n + 15) / 16,
        ;
        let start = 16 * k;
        let end = if n - start >= 16 {
            start + 16
        } else {
            n
        };
        let mut block: Vec<u8> = Vec::new();
        let mut i: usize = start;
        while i < end
            invariant
                start <= i <= end,
                end <= data@.len(),
                block@ == data@.subrange(start as int, i as int),
            decreases end - i,
        {
            block.push(data[i]);
            i = i + 1;
            assert(block@ =~= data@.subrange(start as int, i as int));
        }
        let line = hex_dump_block(block.as_slice());
        proof {
            assert(block_of(data@, k as int) =~= block@);
        }
        lines.push(line);
        k = k + 1;
    }
    lines
}

/// Renders bytes as an escaped byte-string literal: printable ASCII as itself,
/// `\t \n \\ \"` escaped, every other byte as `\xHH`.
pub fn raw_string(s: &[u8]) -> (r: Vec<u8>)
    ensures
        r@ == raw_string_text(s@),
{
    let mut out: Vec<u8> = Vec::new();
    out.push(98u8);
    out.push(34u8);
    let mut i: usize = 0;
    while i < s.len()
        invariant
            i <= s@.len(),
            out@ == seq![98u8, 34u8] + escape_all(s@.subrange(0, i as int)),
        decreases s@.len() - i,
    {
        let b = s[i];
        let ghost before = out@;
        if b == 9 {
            out.push(92u8);
            out.push(116u8);
        } else if b == 10 {
            out.push(92u8);
            out.push(110u8);
        } else if b == 92 {
            out.push(92u8);
            out.push(92u8);
        } else if b == 34 {
            out.push(92u8);
            out.push(34u8);
        } else if 32 <= b && b <= 0x7e {
            out.push(b);
        } else {
            out.push(92u8);
            out.push(120u8);
            push_hex2(&mut out, b);
        }
        assert(out@ =~= before + escape_byte(b));
        assert(s@.subrange(0, i + 1).drop_last() =~= s@.subrange(0, i as int));
        i = i + 1;
    }
    out.push(34u8);
    assert(s@.subrange(0, s@.len() as int) =~= s@);
    assert(out@ =~= raw_string_text(s@));
    out
}

/// Dumps bytes on one line: the count, then each byte in hex with `| ` after every
/// sixteenth.
pub fn hex_dump_inline(s: &[u8]) -> (r: Vec<u8>)
    ensures
        r@ == inline_dump_text(s@),
{
    let mut out: Vec<u8> = Vec::new();
    push_decimal(&mut out, s.len() as u64);
    out.push(32u8);
    out.push(98u8);
    out.push(121u8);
    out.push(116u8);
    out.push(101u8);
    out.push(115u8);
    out.push(58u8);
    out.push(32u8);
    let ghost head = out@;
    assert(head =~= decimal(s@.len()) + seq![32u8, 98u8, 121u8, 116u8, 101u8, 115u8, 58u8, 32u8]);
    let mut i: usize = 0;
    while i < s.len()
        invariant
            i <= s@.len(),
            out@ == head + inline_bytes(s@, i as nat),
        decreases s@.len() - i,
    {
        let ghost before = out@;
        push_hex2(&mut out, s[i]);
        out.push(32u8);
        if i % 16 == 15 {
            out.push(124u8);
            out.push(32u8);
        }
        assert(out@ =~= before + inline_byte(s@, i as int));
        i = i + 1;
    }
    assert(out@ =~= inline_dump_text(s@));
    out
}

/// Lower-case hexadecimal digits of `n`, most significant first, without leading zeros.
pub open spec fn lower_hex(n: nat) -> Seq<u8>
    decreases n,
{
    if n < 16 {
        seq![hex_digit(n as u8)]
    } else {
        lower_hex(n / 16).push(hex_digit((n % 16) as u8))
    }
}

/// The first `n` items in lower-case hex, separated by commas.
pub open spec fn hex_list(items: Seq<u64>, n: nat) -> Seq<u8>
    decreases n,
{
    if n == 0 {
        seq![]
    } else if n == 1 {
        lower_hex(items[0] as nat)
    } else {
        hex_list(items, (n - 1) as nat).push(44u8) + lower_hex(items[n - 1] as nat)
    }
}

/// An address as `{:p}` prints it: `0x` and lower-case hex digits.
pub open spec fn address_text(addr: nat) -> Seq<u8> {
    seq![48u8, 120u8] + lower_hex(addr)
}

/// Header line of a labelled dump: `<label> Dump <address>+<length>`.
pub open spec fn dump_header(label: Seq<u8>, base: nat, len: nat) -> Seq<u8> {
    label + seq![32u8, 68u8, 117u8, 109u8, 112u8, 32u8] + address_text(base) + seq![43u8]
        + decimal(len)
}

/// Line of a labelled dump for block `k`: `<label> <address of the block>: <block line>`.
pub open spec fn dump_line(label: Seq<u8>, base: nat, data: Seq<u8>, k: int) -> Seq<u8> {
    label + seq![32u8] + address_text((base + 16 * k) as nat) + seq![58u8, 32u8] + block_line(
        block_of(data, k),
    )
}

fn push_lower_hex(out: &mut Vec<u8>, n: u64)
    ensures
        final(out)@ == old(out)@ + lower_hex(n as nat),
    decreases n,
{
    if n < 16 {
        out.push(hex_digit_of(n as u8));
    } else {
        push_lower_hex(out, n / 16);
        out.push(hex_digit_of((n % 16) as u8));
    }
    assert(final(out)@ =~= old(out)@ + lower_hex(n as nat));
}

/// Formats items as `[a,b,c]`, each in lower-case hex.
pub fn print_iter(items: &[u64]) -> (r: Vec<u8>)
    ensures
        r@ == seq![91u8] + hex_list(items@, items@.len()) + seq![93u8],
{
    let mut out: Vec<u8> = Vec::new();
    out.push(91u8);
    let mut i: usize = 0;
    while i < items.len()
        invariant
            i <= items@.len(),
            out@ == seq![91u8] + hex_list(items@, i as nat),
        decreases items@.len() - i,
    {
        if i > 0 {
            out.push(44u8);
        }
        push_lower_hex(&mut out, items[i]);
        assert(out@ =~= seq![91u8] + hex_list(items@, (i + 1) as nat));
        i = i + 1;
    }
    out.push(93u8);
    assert(out@ =~= seq![91u8] + hex_list(items@, items@.len()) + seq![93u8]);
    out
}

/// A labelled dump of `data`, which lies at address `base`: a header with the address
/// and the length, then one line per block of 16 bytes, each led by its address.
pub fn hex_dump(label: &str, base: usize, data: &[u8]) -> (r: Vec<Vec<u8>>)
    requires
        base + data@.len() <= usize::MAX,
    ensures
        r@.len() == block_count(data@.len()) + 1,
        r@[0]@ == dump_header(label.spec_bytes(), base as nat, data@.len()),
        forall|k: int| 0 <= k < block_count(data@.len()) ==> #[trigger] r@[k + 1]@ == dump_line(
            label.spec_bytes(),
            base as nat,
            data@,
            k,
        ),
{
    let name = label.as_bytes();
    let blocks = hex_dump_lines(data);
    let mut head: Vec<u8> = Vec::new();
    push_bytes(&mut head, name);
    head.push(32u8);
    head.push(68u8);
    head.push(117u8);
    head.push(109u8);
    head.push(112u8);
    head.push(32u8);
    head.push(48u8);
    head.push(120u8);
    push_lower_hex(&mut head, base as u64);
    head.push(43u8);
    push_decimal(&mut head, data.len() as u64);
    assert(head@ =~= dump_header(label.spec_bytes(), base as nat, data@.len()));
    let mut lines: Vec<Vec<u8>> = Vec::new();
    lines.push(head);
    let mut k: usize = 0;
    while k < blocks.len()
        invariant
            k <= blocks@.len(),
            blocks@.len() == block_count(data@.len()),
            base + data@.len() <= usize::MAX,
            name@ == label.spec_bytes(),
            forall|j: int| 0 <= j < blocks@.len() ==> #[trigger] blocks@[j]@ == block_line(block_of(data@, j)),
            lines@.len() == k + 1,
            lines@[0]@ == dump_header(label.spec_bytes(), base as nat, data@.len()),
            forall|j: int| 0 <= j < k ==> #[trigger] lines@[j + 1]@ == dump_line(label.spec_bytes(), base as nat, data@, j),
        decreases blocks@.len() - k,
    {
        let mut line: Vec<u8> = Vec::new();
        push_bytes(&mut line, name);
        line.push(32u8);
        let n = data.len();
        assert(16 * k < n) by (nonlinear_arith)
            requires
                n == data@.len(),
                k < blocks@.len(),
                blocks@.len() == (data@.len() + 15) / 16,
        ;
        let addr: usize = base + 16 * k;
        line.push(48u8);
        line.push(120u8);
        push_lower_hex(&mut line, addr as u64);
        line.push(58u8);
        line.push(32u8);
        push_bytes(&mut line, blocks[k].as_slice());
        assert(line@ =~= dump_line(label.spec_bytes(), base as nat, data@, k as int));
        lines.push(line);
        k = k + 1;
    }
    lines
}

fn push_bytes(out: &mut Vec<u8>, s: &[u8])
    ensures
        final(out)@ == old(out)@ + s@,
{
    let mut i: usize = 0;
    while i < s.len()
        invariant
            i <= s@.len(),
            out@ == old(out)@ + s@.subrange(0, i as int),
        decreases s@.len() - i,
    {
        out.push(s[i]);
        i = i + 1;
        assert(out@ =~= old(out)@ + s@.subrange(0, i as int));
    }
    assert(s@.subrange(0, s@.len() as int) =~= s@);
}

} // verus!
