use proc_pid::{
    copy_truncated, decode_scalars, parse_pid, render_report, report_into, ErrorKind, PidSlot,
    ProcessInfo, ProcessTable, SlotState,
};

struct FakeTable {
    live: Vec<(i32, String, i32)>,
}

impl FakeTable {
    fn with(entries: &[(i32, &str, i32)]) -> FakeTable {
        FakeTable {
            live: entries
                .iter()
                .map(|(p, n, s)| (*p, n.to_string(), *s))
                .collect(),
        }
    }
}

impl ProcessTable for FakeTable {
    fn lookup(&self, pid: i32) -> Option<ProcessInfo> {
        self.live
            .iter()
            .find(|(p, _, _)| *p == pid)
            .map(|(_, n, s)| ProcessInfo { command_name: n.clone(), state: *s })
    }
}

fn read_all(slot: &SlotState, table: &FakeTable) -> Result<String, ErrorKind> {
    let mut buf = [0u8; 256];
    let n = slot.snapshot(table, &mut buf)?;
    Ok(String::from_utf8(buf[..n].to_vec()).unwrap())
}

#[test]
fn written_pid_is_reported() {
    let table = FakeTable::with(&[(1234, "bash", 1)]);
    let mut slot = SlotState::new();
    assert_eq!(slot.set(b"1234"), Ok(4));
    assert_eq!(
        read_all(&slot, &table),
        Ok("command = [bash] pid = [1234] state = [1]\n".to_string())
    );
}

#[test]
fn extreme_pids_round_trip() {
    for n in [i32::MIN, -1, 0, 1, 7, 10, 99, 100, i32::MAX] {
        let text = format!("{}", n);
        let table = FakeTable::with(&[(n, "init", 0)]);
        let mut slot = SlotState::new();
        assert_eq!(slot.set(text.as_bytes()), Ok(text.len()));
        assert_eq!(slot.stored(), Some(n));
        let line = read_all(&slot, &table).unwrap();
        assert!(line.contains(&format!("pid = [{}]", n)));
    }
}

#[test]
fn non_utf8_is_invalid_encoding() {
    let mut slot = SlotState::new();
    assert_eq!(slot.set(b"7"), Ok(1));
    assert_eq!(slot.set(&[0xff, 0x34]), Err(ErrorKind::InvalidEncoding));
    assert_eq!(slot.set(&[0x34, 0xc0, 0x80]), Err(ErrorKind::InvalidEncoding));
    assert_eq!(slot.set(&[0xed, 0xa0, 0x80]), Err(ErrorKind::InvalidEncoding));
    assert_eq!(slot.set(&[0x31, 0xe2, 0x80]), Err(ErrorKind::InvalidEncoding));
    assert_eq!(slot.stored(), Some(7));
}

#[test]
fn non_numbers_are_invalid_format() {
    let mut slot = SlotState::new();
    assert_eq!(slot.set(b"abc"), Err(ErrorKind::InvalidFormat));
    assert_eq!(slot.stored(), None);
    assert_eq!(slot.set(b"5"), Ok(1));
    for text in ["abc", "", "  ", "-", "+", "4 2", "12a", "0x10", "--1", "+-1"] {
        assert_eq!(slot.set(text.as_bytes()), Err(ErrorKind::InvalidFormat));
    }
    assert_eq!(slot.stored(), Some(5));
}

#[test]
fn out_of_range_is_invalid_format() {
    assert_eq!(parse_pid(b"2147483647"), Ok(i32::MAX));
    assert_eq!(parse_pid(b"2147483648"), Err(ErrorKind::InvalidFormat));
    assert_eq!(parse_pid(b"-2147483648"), Ok(i32::MIN));
    assert_eq!(parse_pid(b"-2147483649"), Err(ErrorKind::InvalidFormat));
    assert_eq!(parse_pid(b"99999999999999999999"), Err(ErrorKind::InvalidFormat));
    assert_eq!(parse_pid(b"0000000000000000000042"), Ok(42));
}

#[test]
fn whitespace_is_trimmed() {
    let mut slot = SlotState::new();
    assert_eq!(slot.set(b"  42  "), Ok(6));
    assert_eq!(slot.stored(), Some(42));
    assert_eq!(parse_pid(b"\t+8\n"), Ok(8));
    assert_eq!(parse_pid("\u{3000}-3\u{a0}\u{2029}".as_bytes()), Ok(-3));
    assert_eq!(parse_pid("\u{200b}1".as_bytes()), Err(ErrorKind::InvalidFormat));
    assert_eq!(parse_pid("\u{663}".as_bytes()), Err(ErrorKind::InvalidFormat));
}

#[test]
fn empty_slot_reports_nothing() {
    let table = FakeTable::with(&[(1, "init", 1)]);
    let slot = SlotState::new();
    let mut buf = [9u8; 8];
    assert_eq!(slot.snapshot(&table, &mut buf), Ok(0));
    assert_eq!(buf, [9u8; 8]);
}

#[test]
fn dead_pid_is_not_found() {
    let table = FakeTable::with(&[(1, "init", 1)]);
    let mut slot = SlotState::new();
    assert_eq!(slot.set(b"4242"), Ok(4));
    let mut buf = [9u8; 64];
    assert_eq!(slot.snapshot(&table, &mut buf), Err(ErrorKind::NotFound));
    assert_eq!(buf, [9u8; 64]);
}

#[test]
fn short_buffer_truncates() {
    let table = FakeTable::with(&[(12, "sshd", 2)]);
    let mut slot = SlotState::new();
    assert_eq!(slot.set(b"12"), Ok(2));
    let mut buf = [0u8; 10];
    assert_eq!(slot.snapshot(&table, &mut buf), Ok(10));
    assert_eq!(&buf, b"command = ");
    let mut empty: [u8; 0] = [];
    assert_eq!(slot.snapshot(&table, &mut empty), Ok(0));
}

#[test]
fn last_write_wins() {
    let table = FakeTable::with(&[(3, "a", 1), (4, "b", 2)]);
    let mut slot = SlotState::new();
    assert_eq!(slot.set(b"3"), Ok(1));
    assert_eq!(slot.set(b"4"), Ok(1));
    assert_eq!(slot.set(b"x"), Err(ErrorKind::InvalidFormat));
    assert_eq!(
        read_all(&slot, &table),
        Ok("command = [b] pid = [4] state = [2]\n".to_string())
    );
}

#[test]
fn shared_slot_holds_one_written_value() {
    let table = FakeTable::with(&[(10, "x", 0), (20, "y", 1)]);
    let slot = PidSlot::new();
    let mut buf = [0u8; 64];
    assert_eq!(slot.snapshot(&table, &mut buf), Ok(0));
    assert_eq!(slot.set(b"10"), Ok(2));
    assert_eq!(slot.set(b" 20\n"), Ok(4));
    assert_eq!(slot.set(&[0xff]), Err(ErrorKind::InvalidEncoding));
    assert_eq!(slot.stored(), Some(20));
    let n = slot.snapshot(&table, &mut buf).unwrap();
    assert_eq!(&buf[..n], b"command = [y] pid = [20] state = [1]\n");
    assert_eq!(slot.set(b"30"), Ok(2));
    assert_eq!(slot.snapshot(&table, &mut buf), Err(ErrorKind::NotFound));
}

#[test]
fn report_formats_fields() {
    assert_eq!(
        render_report("ñandú", -5, 1026),
        "command = [ñandú] pid = [-5] state = [1026]\n".as_bytes().to_vec()
    );
    assert_eq!(
        render_report("", 0, -2147483648),
        b"command = [] pid = [0] state = [-2147483648]\n".to_vec()
    );
}

#[test]
fn report_into_missing_process() {
    let mut buf = [1u8; 4];
    assert_eq!(report_into(5, None, &mut buf), Err(ErrorKind::NotFound));
    assert_eq!(buf, [1u8; 4]);
    let info = ProcessInfo { command_name: "sh".to_string(), state: 0 };
    assert_eq!(report_into(5, Some(info), &mut buf), Ok(4));
    assert_eq!(&buf, b"comm");
}

#[test]
fn copy_truncated_keeps_tail() {
    let mut buf = [7u8; 5];
    assert_eq!(copy_truncated(b"ab", &mut buf), 2);
    assert_eq!(buf, [b'a', b'b', 7, 7, 7]);
    assert_eq!(copy_truncated(b"abcdefgh", &mut buf), 5);
    assert_eq!(&buf, b"abcde");
}

#[test]
fn decode_scalars_values() {
    assert_eq!(decode_scalars("aé€😀".as_bytes()), Some(vec![0x61, 0xe9, 0x20ac, 0x1f600]));
    assert_eq!(decode_scalars(b""), Some(vec![]));
    assert_eq!(decode_scalars(&[0xf4, 0x90, 0x80, 0x80]), None);
    assert_eq!(decode_scalars(&[0xe0, 0x80, 0x80]), None);
    assert_eq!(decode_scalars(&[0x80]), None);
    assert_eq!(parse_pid("😀".as_bytes()), Err(ErrorKind::InvalidFormat));
}
