//! Numbers as sequences of base-256 digits, least or most significant first.

use vstd::prelude::*;

verus! {

/// `256` to the power `n`: the number of values that `n` bytes can hold.
pub open spec fn radix(n: nat) -> nat
    decreases n,
{
    if n == 0 {
        1
    } else {
        256 * radix((n - 1) as nat)
    }
}

/// The `n` low base-256 digits of `v`, least significant first.
pub open spec fn le_bytes(v: nat, n: nat) -> Seq<u8>
    decreases n,
{
    if n == 0 {
        Seq::empty()
    } else {
        seq![(v % 256) as u8] + le_bytes(v / 256, (n - 1) as nat)
    }
}

/// The `n` low base-256 digits of `v`, most significant first.
pub open spec fn be_bytes(v: nat, n: nat) -> Seq<u8>
    decreases n,
{
    if n == 0 {
        Seq::empty()
    } else {
        be_bytes(v / 256, (n - 1) as nat).push((v % 256) as u8)
    }
}

/// The number whose base-256 digits are `s`, least significant first.
pub open spec fn le_value(s: Seq<u8>) -> nat
    decreases s.len(),
{
    if s.len() == 0 {
        0
    } else {
        s[0] as nat + 256 * le_value(s.drop_first())
    }
}

/// The number whose base-256 digits are `s`, most significant first.
pub open spec fn be_value(s: Seq<u8>) -> nat
    decreases s.len(),
{
    if s.len() == 0 {
        0
    } else {
        256 * be_value(s.drop_last()) + s.last() as nat
    }
}

/// `buf` with the bytes from position `at` on replaced by `data`.
pub open spec fn overwrite(buf: Seq<u8>, at: int, data: Seq<u8>) -> Seq<u8> {
    buf.subrange(0, at) + data + buf.subrange(at + data.len(), buf.len() as int)
}

/// The values of `radix` at the widths of the machine integers.
pub proof fn lemma_radix_values()
    ensures
        radix(0) == 1,
        radix(1) == 0x100,
        radix(2) == 0x1_0000,
        radix(4) == 0x1_0000_0000,
        radix(8) == 0x1_0000_0000_0000_0000,
        radix(16) == 0x1_0000_0000_0000_0000_0000_0000_0000_0000,
{
    reveal_with_fuel(radix, 17);
}

/// `radix` grows with the number of digits.
pub proof fn lemma_radix_monotonic(i: nat, j: nat)
    requires
        i <= j,
    ensures
        0 < radix(i) <= radix(j),
    decreases j,
{
    if j == 0 {
    } else if i == j {
        lemma_radix_monotonic((i - 1) as nat, (j - 1) as nat);
    } else {
        lemma_radix_monotonic(i, (j - 1) as nat);
    }
}

/// An encoding has exactly as many bytes as were asked for.
pub proof fn lemma_bytes_len(v: nat, n: nat)
    ensures
        le_bytes(v, n).len() == n,
        be_bytes(v, n).len() == n,
    decreases n,
{
    if n > 0 {
        lemma_bytes_len(v / 256, (n - 1) as nat);
    }
}

/// What `n` digits denote is below `radix(n)`.
pub proof fn lemma_value_bound(s: Seq<u8>)
    ensures
        le_value(s) < radix(s.len()),
        be_value(s) < radix(s.len()),
    decreases s.len(),
{
    if s.len() > 0 {
        lemma_value_bound(s.drop_first());
        lemma_value_bound(s.drop_last());
    }
}

/// Reading back the little-endian digits of a number that fits gives the number.
pub proof fn lemma_le_value_of_bytes(v: nat, n: nat)
    requires
        v < radix(n),
    ensures
        le_value(le_bytes(v, n)) == v,
    decreases n,
{
    if n > 0 {
        let rest = le_bytes(v / 256, (n - 1) as nat);
        lemma_le_value_of_bytes(v / 256, (n - 1) as nat);
        assert(le_bytes(v, n).drop_first() =~= rest);
    }
}

/// Reading back the big-endian digits of a number that fits gives the number.
pub proof fn lemma_be_value_of_bytes(v: nat, n: nat)
    requires
        v < radix(n),
    ensures
        be_value(be_bytes(v, n)) == v,
    decreases n,
{
    if n > 0 {
        let rest = be_bytes(v / 256, (n - 1) as nat);
        lemma_be_value_of_bytes(v / 256, (n - 1) as nat);
        assert(be_bytes(v, n).drop_last() =~= rest);
    }
}

/// Writing out the number that little-endian digits denote gives the digits.
pub proof fn lemma_le_bytes_of_value(s: Seq<u8>)
    ensures
        le_bytes(le_value(s), s.len()) == s,
    decreases s.len(),
{
    if s.len() > 0 {
        lemma_le_bytes_of_value(s.drop_first());
        let v = le_value(s);
        assert(v / 256 == le_value(s.drop_first()));
        assert(v % 256 == s[0]);
        assert(le_bytes(v, s.len()) =~= s);
    } else {
        assert(le_bytes(le_value(s), s.len()) =~= s);
    }
}

/// Writing out the number that big-endian digits denote gives the digits.
pub proof fn lemma_be_bytes_of_value(s: Seq<u8>)
    ensures
        be_bytes(be_value(s), s.len()) == s,
    decreases s.len(),
{
    if s.len() > 0 {
        lemma_be_bytes_of_value(s.drop_last());
        let v = be_value(s);
        assert(v / 256 == be_value(s.drop_last()));
        assert(v % 256 == s.last());
        assert(be_bytes(v, s.len()) =~= s);
    } else {
        assert(be_bytes(be_value(s), s.len()) =~= s);
    }
}

/// The big-endian digits of a number are its little-endian digits reversed.
pub proof fn lemma_be_bytes_reverse_le(v: nat, n: nat)
    ensures
        be_bytes(v, n) == le_bytes(v, n).reverse(),
    decreases n,
{
    lemma_bytes_len(v, n);
    if n > 0 {
        lemma_be_bytes_reverse_le(v / 256, (n - 1) as nat);
        lemma_bytes_len(v / 256, (n - 1) as nat);
    }
    assert(be_bytes(v, n) =~= le_bytes(v, n).reverse());
}

/// Writes the `width` low bytes of `value` to `dest[at..at + width]`, least
/// significant byte first, and leaves the rest of `dest` as it was.
pub fn write_le(dest: &mut [u8], at: usize, value: u128, width: usize)
    requires
        at + width <= old(dest)@.len(),
    ensures
        final(dest)@ == overwrite(old(dest)@, at as int, le_bytes(value as nat, width as nat)),
{
    let ghost prior = dest@;
    // The length of a slice fits in a `usize`.
    assert(prior.len() == dest.len());
    let ghost digits = le_bytes(value as nat, width as nat);
    let mut rest = value;
    let mut i: usize = 0;
    while i < width
        invariant
            i <= width,
            at + width <= prior.len() <= usize::MAX,
            dest@.len() == prior.len(),
            forall|j: int| 0 <= j < at || at + i <= j < prior.len() ==> dest@[j] == prior[j],
            digits == dest@.subrange(at as int, at + i) + le_bytes(rest as nat, (width - i) as nat),
        decreases width - i,
    {
        let ghost before = dest@;
        dest[at + i] = (rest % 256) as u8;
        proof {
            let tail = le_bytes((rest / 256) as nat, (width - i - 1) as nat);
            assert(dest@.subrange(at as int, at + i + 1) + tail =~= before.subrange(
                at as int,
                at + i,
            ) + le_bytes(rest as nat, (width - i) as nat));
        }
        rest = rest / 256;
        i += 1;
    }
    proof {
        lemma_bytes_len(value as nat, width as nat);
        assert(dest@ =~= overwrite(prior, at as int, digits));
    }
}

/// Writes the `width` low bytes of `value` to `dest[at..at + width]`, most
/// significant byte first, and leaves the rest of `dest` as it was.
pub fn write_be(dest: &mut [u8], at: usize, value: u128, width: usize)
    requires
        at + width <= old(dest)@.len(),
    ensures
        final(dest)@ == overwrite(old(dest)@, at as int, be_bytes(value as nat, width as nat)),
{
    let ghost prior = dest@;
    // The length of a slice fits in a `usize`.
    assert(prior.len() == dest.len());
    let ghost digits = be_bytes(value as nat, width as nat);
    let mut rest = value;
    let mut i: usize = width;
    while i > 0
        invariant
            i <= width,
            at + width <= prior.len() <= usize::MAX,
            dest@.len() == prior.len(),
            forall|j: int| 0 <= j < at + i || at + width <= j < prior.len() ==> dest@[j] == prior[j],
            digits == be_bytes(rest as nat, i as nat) + dest@.subrange(at + i, at + width),
        decreases i,
    {
        let ghost before = dest@;
        i -= 1;
        dest[at + i] = (rest % 256) as u8;
        proof {
            let head = be_bytes((rest / 256) as nat, i as nat);
            assert(head + dest@.subrange(at + i, at + width) =~= be_bytes(
                rest as nat,
                (i + 1) as nat,
            ) + before.subrange(at + i + 1, at + width));
        }
        rest = rest / 256;
    }
    proof {
        lemma_bytes_len(value as nat, width as nat);
        assert(dest@ =~= overwrite(prior, at as int, digits));
    }
}

/// Reads `src[at..at + width]` as a number, least significant byte first.
pub fn read_le(src: &[u8], at: usize, width: usize) -> (value: u128)
    requires
        at + width <= src@.len(),
        width <= 16,
    ensures
        value == le_value(src@.subrange(at as int, at + width)),
{
    // The length of a slice fits in a `usize`.
    assert(src@.len() == src.len());
    let mut value: u128 = 0;
    let mut i: usize = width;
    while i > 0
        invariant
            i <= width <= 16,
            at + width <= src@.len() <= usize::MAX,
            value == le_value(src@.subrange(at + i, at + width)),
        decreases i,
    {
        proof {
            let seen = src@.subrange(at + i, at + width);
            lemma_value_bound(seen);
            lemma_radix_monotonic(seen.len(), 15);
            lemma_radix_values();
            assert(radix(16) == 256 * radix(15));
            assert(src@.subrange(at + i - 1, at + width).drop_first() =~= seen);
        }
        i -= 1;
        value = value * 256 + src[at + i] as u128;
    }
    value
}

/// Reads `src[at..at + width]` as a number, most significant byte first.
pub fn read_be(src: &[u8], at: usize, width: usize) -> (value: u128)
    requires
        at + width <= src@.len(),
        width <= 16,
    ensures
        value == be_value(src@.subrange(at as int, at + width)),
{
    // The length of a slice fits in a `usize`.
    assert(src@.len() == src.len());
    let mut value: u128 = 0;
    let mut i: usize = 0;
    while i < width
        invariant
            i <= width <= 16,
            at + width <= src@.len() <= usize::MAX,
            value == be_value(src@.subrange(at as int, at + i)),
        decreases width - i,
    {
        proof {
            let seen = src@.subrange(at as int, at + i);
            lemma_value_bound(seen);
            lemma_radix_monotonic(seen.len(), 15);
            lemma_radix_values();
            assert(radix(16) == 256 * radix(15));
            assert(src@.subrange(at as int, at + i + 1).drop_last() =~= seen);
        }
        value = value * 256 + src[at + i] as u128;
        i += 1;
    }
    value
}

/// Copies `data` to `dest[at..at + data.len()]` and leaves the rest of `dest`
/// as it was.
pub fn write_bytes(dest: &mut [u8], at: usize, data: &[u8])
    requires
        at + data@.len() <= old(dest)@.len(),
    ensures
        final(dest)@ == overwrite(old(dest)@, at as int, data@),
{
    let ghost prior = dest@;
    // The length of a slice fits in a `usize`.
    assert(prior.len() == dest.len());
    let mut i: usize = 0;
    while i < data.len()
        invariant
            i <= data@.len(),
            at + data@.len() <= prior.len() <= usize::MAX,
            dest@.len() == prior.len(),
            forall|j: int| 0 <= j < at || at + i <= j < prior.len() ==> dest@[j] == prior[j],
            forall|j: int| 0 <= j < i ==> dest@[at + j] == data@[j],
        decreases data@.len() - i,
    {
        dest[at + i] = data[i];
        i += 1;
    }
    proof {
        assert(dest@ =~= overwrite(prior, at as int, data@));
    }
}

/// Copies `src[at..at + len]` into a vector of its own.
pub fn read_bytes(src: &[u8], at: usize, len: usize) -> (data: Vec<u8>)
    requires
        at + len <= src@.len(),
    ensures
        data@ == src@.subrange(at as int, at + len),
{
    // The length of a slice fits in a `usize`.
    assert(src@.len() == src.len());
    let mut data: Vec<u8> = Vec::new();
    let mut i: usize = 0;
    while i < len
        invariant
            i <= len,
            at + len <= src@.len() <= usize::MAX,
            data@ == src@.subrange(at as int, at + i),
        decreases len - i,
    {
        data.push(src[at + i]);
        proof {
            assert(data@ =~= src@.subrange(at as int, at + i + 1));
        }
        i += 1;
    }
    data
}

} // verus!
