//! Properties that relate writes and reads of the slot, proved over the
//! contracts of `SlotState` and `report_into`.
use vstd::prelude::*;
use vstd::utf8::*;

use crate::error::ErrorKind;
use crate::render::{decimal, digits_of, report_line};
use crate::slot::{next_pid, report_outcome, write_result};
use crate::text::{all_digits, digits_value, is_white_space, pid_of, scalars, trim};

verus! {

/// The scalars of ASCII bytes are the bytes themselves.
proof fn lemma_ascii_scalars(b: Seq<u8>)
    requires
        forall|i: int| 0 <= i < b.len() ==> b[i] < 0x80,
    ensures
        valid_utf8(b),
        scalars(b) == b.map_values(|x: u8| x as u32),
    decreases b.len(),
{
    if b.len() > 0 {
        let b0 = b[0];
        assert((b0 & 0x7f) as u32 == b0 as u32) by (bit_vector)
            requires
                b0 < 0x80,
        ;
        assert(pop_first_scalar(b) == b.drop_first());
        lemma_ascii_scalars(b.drop_first());
        assert(((b0 as u32) as char) as u32 == b0 as u32);
        assert(scalars(b) == seq![b0 as u32] + scalars(b.drop_first()));
        assert(b.map_values(|x: u8| x as u32) == seq![b0 as u32] + b.drop_first().map_values(
            |x: u8| x as u32,
        ));
    } else {
        assert(scalars(b) == Seq::<u32>::empty());
    }
}

/// The decimal digits of `m` are ASCII digits that read back as `m`.
proof fn lemma_digits_read_back(m: nat)
    ensures
        digits_of(m).len() >= 1,
        forall|i: int| 0 <= i < digits_of(m).len() ==> 0x30 <= #[trigger] digits_of(m)[i] <= 0x39,
        digits_value(digits_of(m).map_values(|x: u8| x as u32)) == m,
    decreases m,
{
    let s = digits_of(m).map_values(|x: u8| x as u32);
    if m >= 10 {
        lemma_digits_read_back(m / 10);
        assert(s.drop_last() == digits_of(m / 10).map_values(|x: u8| x as u32));
        assert(s.last() == (m % 10 + 0x30));
        assert(m == (m / 10) * 10 + m % 10) by (nonlinear_arith);
        assert(digits_value(s) == digits_value(s.drop_last()) * 10 + (s.last() - 0x30) as nat);
    } else {
        assert(s.len() == 1);
        assert(s.last() == m + 0x30);
        assert(s.drop_last() == Seq::<u32>::empty());
        assert(digits_value(s) == digits_value(s.drop_last()) * 10 + (s.last() - 0x30) as nat);
    }
}

/// Text without white space at its ends trims to itself.
proof fn lemma_trim_unchanged(s: Seq<u32>)
    requires
        s.len() > 0,
        !is_white_space(s[0]),
        !is_white_space(s.last()),
    ensures
        trim(s) == s,
{
}

/// The decimal text of any `i32` spells that `i32`.
pub proof fn lemma_decimal_spells_pid(n: i32)
    ensures
        pid_of(decimal(n as int)) == Ok::<i32, ErrorKind>(n),
{
    let text = decimal(n as int);
    let m: nat = if n < 0 {
        (-n) as nat
    } else {
        n as nat
    };
    lemma_digits_read_back(m);
    let d = digits_of(m);
    assert(forall|i: int| 0 <= i < text.len() ==> text[i] < 0x80) by {
        if n < 0 {
            assert forall|i: int| 0 <= i < text.len() implies text[i] < 0x80 by {
                if i > 0 {
                    assert(text[i] == d[i - 1]);
                }
            }
        }
    }
    lemma_ascii_scalars(text);
    let s = text.map_values(|x: u8| x as u32);
    let ds = d.map_values(|x: u8| x as u32);
    assert(s.last() == ds.last());
    lemma_trim_unchanged(s);
    if n < 0 {
        assert(s.drop_first() == ds);
    } else {
        assert(s == ds);
    }
    assert(all_digits(ds));
}

/// Writing the decimal text of `n` into any slot stores `n` and consumes the
/// whole text; the report on a process `n` then holds `pid = [n]`.
pub proof fn lemma_written_pid_is_reported(
    current: Option<i32>,
    n: i32,
    name: Seq<char>,
    state: i32,
)
    ensures
        next_pid(current, decimal(n as int)) == Some(n),
        write_result(decimal(n as int)) == Ok::<usize, ErrorKind>(decimal(n as int).len() as usize),
        ({
            let line = report_line(name, n as int, state as int);
            let field = seq![0x70u8, 0x69, 0x64, 0x20, 0x3d, 0x20, 0x5b] + decimal(n as int)
                + seq![0x5du8];
            exists|k: int|
                0 <= k && k + field.len() <= line.len() && #[trigger] line.subrange(
                    k,
                    k + field.len(),
                ) == field
        }),
{
    lemma_decimal_spells_pid(n);
    let line = report_line(name, n as int, state as int);
    let field = seq![0x70u8, 0x69, 0x64, 0x20, 0x3d, 0x20, 0x5b] + decimal(n as int) + seq![
        0x5du8,
    ];
    let k: int = 13 + encode_utf8(name).len() as int;
    assert(line.subrange(k, k + field.len()) == field);
}

/// A write of bytes that are not UTF-8 fails with `InvalidEncoding` and
/// leaves the slot as it was.
pub proof fn lemma_invalid_encoding_refused(current: Option<i32>, bytes: Seq<u8>)
    requires
        !valid_utf8(bytes),
    ensures
        write_result(bytes) == Err::<usize, ErrorKind>(ErrorKind::InvalidEncoding),
        next_pid(current, bytes) == current,
{
}

/// Any refused write leaves the slot as it was.
pub proof fn lemma_refused_write_keeps_slot(current: Option<i32>, bytes: Seq<u8>)
    requires
        write_result(bytes) is Err,
    ensures
        next_pid(current, bytes) == current,
{
}

/// A report on an identifier that no live process has fails with `NotFound`
/// and writes nothing.
pub proof fn lemma_unknown_pid_not_found(
    current: Option<i32>,
    bytes: Seq<u8>,
    before: Seq<u8>,
    r: Result<usize, ErrorKind>,
    after: Seq<u8>,
)
    requires
        next_pid(current, bytes) is Some,
        report_outcome(next_pid(current, bytes)->Some_0, None, before, r, after),
    ensures
        r == Err::<usize, ErrorKind>(ErrorKind::NotFound),
        after == before,
{
}

/// A report that does not fit the buffer fills it exactly, without error,
/// with the start of the report line.
pub proof fn lemma_short_buffer_truncates(
    pid: i32,
    name: Seq<char>,
    state: i32,
    before: Seq<u8>,
    r: Result<usize, ErrorKind>,
    after: Seq<u8>,
)
    requires
        report_outcome(pid, Some((name, state)), before, r, after),
        before.len() < report_line(name, pid as int, state as int).len(),
    ensures
        r == Ok::<usize, ErrorKind>(before.len() as usize),
        after == report_line(name, pid as int, state as int).subrange(0, before.len() as int),
{
    assert(before.subrange(before.len() as int, before.len() as int) == Seq::<u8>::empty());
    assert(after == report_line(name, pid as int, state as int).subrange(
        0,
        before.len() as int,
    ) + Seq::<u8>::empty());
}

/// The slot's content after `writes` are applied in order to a slot holding
/// `start`.
pub open spec fn after_writes(start: Option<i32>, writes: Seq<Seq<u8>>) -> Option<i32>
    decreases writes.len(),
{
    if writes.len() == 0 {
        start
    } else {
        next_pid(after_writes(start, writes.drop_last()), writes.last())
    }
}

/// Writes serialised in any order leave the slot holding what it held before
/// them or exactly one identifier that one of them spelled, never a mix.
pub proof fn lemma_writes_store_one_value(start: Option<i32>, writes: Seq<Seq<u8>>)
    ensures
        after_writes(start, writes) == start || exists|i: int|
            0 <= i < writes.len() && pid_of(#[trigger] writes[i]) == Ok::<i32, ErrorKind>(
                after_writes(start, writes)->Some_0,
            ) && after_writes(start, writes) is Some,
    decreases writes.len(),
{
    if writes.len() > 0 {
        let prefix = writes.drop_last();
        lemma_writes_store_one_value(start, prefix);
        if pid_of(writes.last()) is Ok {
            assert(writes[writes.len() - 1] == writes.last());
        } else if after_writes(start, prefix) != start {
            let i = choose|i: int|
                0 <= i < prefix.len() && pid_of(#[trigger] prefix[i]) == Ok::<i32, ErrorKind>(
                    after_writes(start, prefix)->Some_0,
                ) && after_writes(start, prefix) is Some;
            assert(writes[i] == prefix[i]);
        }
    }
}

} // verus!
