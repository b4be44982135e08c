//! The report line that a read of the slot produces, and its copy into a
//! caller's buffer.
use vstd::prelude::*;
use vstd::string::*;
use vstd::utf8::encode_utf8;

verus! {

/// The ASCII decimal digits of `n`, most significant first.
pub open spec fn digits_of(n: nat) -> Seq<u8>
    decreases n,
{
    if n < 10 {
        seq![(n + 0x30) as u8]
    } else {
        digits_of(n / 10).push((n % 10 + 0x30) as u8)
    }
}

/// `v` in decimal, with a leading `-` when it is negative.
pub open spec fn decimal(v: int) -> Seq<u8> {
    if v < 0 {
        seq![0x2du8] + digits_of((-v) as nat)
    } else {
        digits_of(v as nat)
    }
}

/// `command = [`
pub open spec fn command_label() -> Seq<u8> {
    seq![0x63u8, 0x6f, 0x6d, 0x6d, 0x61, 0x6e, 0x64, 0x20, 0x3d, 0x20, 0x5b]
}

/// `] pid = [`
pub open spec fn pid_label() -> Seq<u8> {
    seq![0x5du8, 0x20, 0x70, 0x69, 0x64, 0x20, 0x3d, 0x20, 0x5b]
}

/// `] state = [`
pub open spec fn state_label() -> Seq<u8> {
    seq![0x5du8, 0x20, 0x73, 0x74, 0x61, 0x74, 0x65, 0x20, 0x3d, 0x20, 0x5b]
}

/// `]` and a newline.
pub open spec fn line_end() -> Seq<u8> {
    seq![0x5du8, 0x0a]
}

/// The report on a process, in UTF-8:
/// `command = [<name>] pid = [<pid>] state = [<state>]` and a newline.
pub open spec fn report_line(name: Seq<char>, pid: int, state: int) -> Seq<u8> {
    command_label() + encode_utf8(name) + pid_label() + decimal(pid) + state_label() + decimal(
        state,
    ) + line_end()
}

fn push_bytes(out: &mut Vec<u8>, src: &[u8])
    ensures
        final(out)@ == old(out)@ + src@,
{
    let mut i: usize = 0;
    while i < src.len()
        invariant
            i <= src@.len(),
            out@ == old(out)@ + src@.subrange(0, i as int),
        decreases src@.len() - i,
    {
        assert(src@.subrange(0, i + 1) == src@.subrange(0, i as int).push(src@[i as int]));
        out.push(src[i]);
        i = i + 1;
    }
    assert(src@.subrange(0, i as int) == src@);
}

fn push_digits(out: &mut Vec<u8>, n: u32)
    ensures
        final(out)@ == old(out)@ + digits_of(n as nat),
    decreases n,
{
    if n >= 10 {
        push_digits(out, n / 10);
    }
    out.push((n % 10 + 0x30) as u8);
    proof {
        if n >= 10 {
            assert(out@ == old(out)@ + digits_of((n / 10) as nat).push((n % 10 + 0x30) as u8));
        } else {
            assert(out@ == old(out)@ + seq![(n + 0x30) as u8]);
        }
    }
}

fn push_decimal(out: &mut Vec<u8>, v: i32)
    ensures
        final(out)@ == old(out)@ + decimal(v as int),
{
    if v < 0 {
        out.push(0x2d);
        let magnitude: u32 = (-(v as i64)) as u32;
        push_digits(out, magnitude);
        assert(out@ == old(out)@ + (seq![0x2du8] + digits_of((-v) as nat)));
    } else {
        push_digits(out, v as u32);
    }
}

/// Renders the report on the process `pid`, whose command name is `name` and
/// whose scheduling state is `state`.
pub fn render_report(name: &str, pid: i32, state: i32) -> (r: Vec<u8>)
    ensures
        r@ == report_line(name@, pid as int, state as int),
{
    let mut out: Vec<u8> = Vec::new();
    let command: [u8; 11] = [0x63u8, 0x6f, 0x6d, 0x6d, 0x61, 0x6e, 0x64, 0x20, 0x3d, 0x20, 0x5b];
    let pid_part: [u8; 9] = [0x5du8, 0x20, 0x70, 0x69, 0x64, 0x20, 0x3d, 0x20, 0x5b];
    let state_part: [u8; 11] = [0x5du8, 0x20, 0x73, 0x74, 0x61, 0x74, 0x65, 0x20, 0x3d, 0x20, 0x5b];
    assert(command@ == command_label());
    assert(pid_part@ == pid_label());
    assert(state_part@ == state_label());
    push_bytes(&mut out, &command);
    push_bytes(&mut out, name.as_bytes());
    push_bytes(&mut out, &pid_part);
    push_decimal(&mut out, pid);
    push_bytes(&mut out, &state_part);
    push_decimal(&mut out, state);
    out.push(0x5d);
    out.push(0x0a);
    assert(out@ == report_line(name@, pid as int, state as int));
    out
}

/// Copies as much of `text` as fits into `buffer`, from its start, and
/// returns how many bytes were copied; the rest of `buffer` is left as it was.
pub fn copy_truncated(text: &[u8], buffer: &mut [u8]) -> (n: usize)
    ensures
        n == if text@.len() < old(buffer)@.len() { text@.len() } else { old(buffer)@.len() },
        final(buffer)@.len() == old(buffer)@.len(),
        final(buffer)@ == text@.subrange(0, n as int) + old(buffer)@.subrange(
            n as int,
            old(buffer)@.len() as int,
        ),
{
    let n: usize = if text.len() < buffer.len() {
        text.len()
    } else {
        buffer.len()
    };
    let mut i: usize = 0;
    while i < n
        invariant
            i <= n <= text@.len(),
            n <= buffer@.len() == old(buffer)@.len(),
            forall|k: int| 0 <= k < i ==> buffer@[k] == text@[k],
            forall|k: int| i <= k < buffer@.len() ==> buffer@[k] == old(buffer)@[k],
        decreases n - i,
    {
        buffer[i] = text[i];
        i = i + 1;
    }
    assert(buffer@ == text@.subrange(0, n as int) + old(buffer)@.subrange(
        n as int,
        old(buffer)@.len() as int,
    ));
    n
}

} // verus!
