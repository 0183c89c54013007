use klog::filter::{enabled, FilterEntry};
use klog::level::{Colour, Level};
use klog::logging::{getstream, start_memory_sink, LogSystem, LoggingFormatter, Sinks};
use klog::memory::{self, FixedString, LOG_DATA_LEN, SCROLLBACK_LINES};
use klog::ring::RingBuf;
use klog::serial;

fn entry(name: &str, level: u16) -> FilterEntry {
    FilterEntry { name: name.as_bytes().to_vec(), level }
}

fn console(sys: &mut LogSystem) -> String {
    String::from_utf8(sys.take_console_output().unwrap()).unwrap()
}

#[test]
fn filter_uses_threshold_of_matching_entry() {
    let table = vec![entry("kernel::mm", 3), entry("kernel::irq", 1)];
    assert!(enabled(Level::LevelError, "kernel::mm", &table));
    assert!(enabled(Level::LevelWarning, "kernel::mm", &table));
    assert!(!enabled(Level::LevelNotice, "kernel::mm", &table));
    assert!(!enabled(Level::LevelTrace, "kernel::mm", &table));
    assert!(enabled(Level::LevelPanic, "kernel::irq", &table));
    assert!(!enabled(Level::LevelError, "kernel::irq", &table));
}

#[test]
fn filter_without_entry_emits_everything() {
    let table = vec![entry("kernel::mm", 0)];
    assert!(enabled(Level::LevelTrace, "kernel::vfs", &table));
    assert!(enabled(Level::LevelTrace, "kernel::m", &table));
    assert!(enabled(Level::LevelDebug, "anything", &[]));
}

#[test]
fn filter_first_matching_entry_wins() {
    let table = vec![entry("a", 2), entry("a", 8)];
    assert!(!enabled(Level::LevelWarning, "a", &table));
    assert!(enabled(Level::LevelError, "a", &table));
}

#[test]
fn logging_module_is_always_enabled() {
    let table = vec![entry("kernel::unwind", 0)];
    for level in [Level::LevelPanic, Level::LevelInfo, Level::LevelTrace] {
        assert!(enabled(level, "kernel::unwind", &table));
    }
    assert!(!enabled(Level::LevelPanic, "kernel::unwinding", &[entry("kernel::unwinding", 0)]));
}

#[test]
fn serial_sink_writes_coloured_header_text_and_reset() {
    let mut s = serial::Sink::new();
    s.start(42, Level::LevelError, 3, "mod");
    s.write("hello");
    s.end();
    let out = String::from_utf8(s.take_output()).unwrap();
    assert_eq!(out, "\x1b[31m    42 e 3[mod] - hello\x1b[0m\n");
    assert!(s.take_output().is_empty());
}

#[test]
fn serial_sink_colour_codes() {
    let mut s = serial::Sink::new();
    for c in [Colour::Default, Colour::Red, Colour::Green, Colour::Yellow, Colour::Blue, Colour::Purple, Colour::Grey] {
        s.set_colour(c);
    }
    let out = String::from_utf8(s.take_output()).unwrap();
    assert_eq!(out, "\x1b[0m\x1b[31m\x1b[32m\x1b[33m\x1b[34m\x1b[35m\x1b[1;30m");
}

#[test]
fn fixed_string_truncates_at_capacity() {
    let mut f = FixedString::new();
    f.push_str(&[b'x'; 100]);
    f.push_str(&[b'y'; 100]);
    assert_eq!(f.as_bytes().len(), LOG_DATA_LEN);
    assert_eq!(f.as_bytes()[99], b'x');
    assert_eq!(f.as_bytes()[100], b'y');
    f.push_str(b"z");
    assert_eq!(f.as_bytes().len(), 160);
    assert_eq!(f.as_bytes()[159], b'y');
}

#[test]
fn ring_buffer_keeps_newest_entries() {
    let mut r: RingBuf<u32> = RingBuf::new(3);
    for i in 0..3u32 {
        assert_eq!(r.push_back(i), None);
    }
    assert_eq!(r.push_back(3), Some(0));
    assert_eq!(r.push_back(4), Some(1));
    assert_eq!(r.len(), 3);
    assert_eq!(*r.get(0), 2);
    assert_eq!(*r.get(1), 3);
    assert_eq!(*r.get(2), 4);
    assert_eq!(r.back(), Some(&4));
    *r.back_mut() = 40;
    assert_eq!(*r.get(2), 40);
    assert_eq!(r.capacity(), 3);
}

#[test]
fn ring_buffer_overflow_holds_capacity_entries() {
    let cap = 5usize;
    let mut r: RingBuf<usize> = RingBuf::new(cap);
    let n = 23usize;
    for i in 0..n {
        r.push_back(i);
    }
    assert_eq!(r.len(), cap);
    assert_eq!(*r.get(0), n - cap);
    assert_eq!(*r.get(cap - 1), n - 1);
}

#[test]
fn memory_sink_records_and_evicts_oldest() {
    let mut m = memory::Sink::new();
    m.write("dropped, no record yet");
    assert_eq!(m.line_count(), 0);
    for i in 0..(SCROLLBACK_LINES as u64 + 2) {
        m.start(i, Level::LevelInfo, "src");
        m.write("line");
        m.end();
    }
    assert_eq!(m.line_count(), SCROLLBACK_LINES);
    assert_eq!(m.line(0).time, 2);
    let last = m.line(SCROLLBACK_LINES - 1);
    assert_eq!(last.time, SCROLLBACK_LINES as u64 + 1);
    assert_eq!(last.level, Level::LevelInfo);
    assert_eq!(last.source, "src");
    assert_eq!(last.data.as_bytes(), b"line");
}

#[test]
fn transaction_writes_one_record_and_restores_interrupts() {
    let mut sys = LogSystem::new(2);
    let mut f = LoggingFormatter::new(sys.lock_sinks(0).unwrap(), Level::LevelWarning, "kernel::mm", 7, 1);
    assert_eq!(sys.holder(), Some(0));
    assert!(!sys.interrupts_enabled(0));
    assert!(sys.interrupts_enabled(1));
    f.write_str("a=");
    f.write_str("1");
    f.finish(&mut sys);
    assert_eq!(sys.holder(), None);
    assert!(sys.interrupts_enabled(0));
    assert_eq!(console(&mut sys), "\x1b[33m     7 w 1[kernel::mm] - a=1\x1b[0m\n");
}

#[test]
fn second_context_waits_while_lock_is_held() {
    let mut sys = LogSystem::new(2);
    let mut a = LoggingFormatter::new(sys.lock_sinks(0).unwrap(), Level::LevelInfo, "A", 1, 10);
    a.write_str("one");
    assert!(sys.lock_sinks(1).is_none());
    assert!(sys.take_console_output().is_none());
    assert!(!start_memory_sink(&mut sys, 1));
    a.write_str(" two");
    a.finish(&mut sys);
    let mut b = LoggingFormatter::new(sys.lock_sinks(1).unwrap(), Level::LevelInfo, "B", 2, 20);
    b.write_str("three");
    b.finish(&mut sys);
    assert_eq!(
        console(&mut sys),
        "\x1b[0m     1 i 10[A] - one two\x1b[0m\n\x1b[0m     2 i 20[B] - three\x1b[0m\n"
    );
    assert!(sys.interrupts_enabled(0));
    assert!(sys.interrupts_enabled(1));
}

#[test]
fn memory_sink_is_attached_once_and_receives_records() {
    let mut sys = LogSystem::new(1);
    assert!(sys.sinks().unwrap().memory().is_none());
    assert!(start_memory_sink(&mut sys, 0));
    assert!(sys.interrupts_enabled(0));
    let mut f = LoggingFormatter::new(sys.lock_sinks(0).unwrap(), Level::LevelLog, "m", 5, 0);
    f.write_str("kept");
    f.finish(&mut sys);
    assert!(start_memory_sink(&mut sys, 0));
    let sinks: &Sinks = sys.sinks().unwrap();
    let mem = sinks.memory().unwrap();
    assert_eq!(mem.line_count(), 1);
    assert_eq!(mem.line(0).time, 5);
    assert_eq!(mem.line(0).data.as_bytes(), b"kept");
}

#[test]
fn getstream_opens_enabled_records() {
    let table = vec![entry("quiet", 1)];
    let mut sys = LogSystem::new(1);
    assert!(!enabled(Level::LevelDebug, "quiet", &table));
    assert!(enabled(Level::LevelPanic, "quiet", &table));
    let locked = sys.lock_sinks(0).unwrap();
    assert_eq!(sys.holder(), Some(0));
    let f = getstream(locked, Level::LevelPanic, "quiet", &table, 0, 0);
    f.finish(&mut sys);
    assert_eq!(console(&mut sys), "\x1b[35m     0 k 0[quiet] - \x1b[0m\n");
}

#[test]
fn lock_then_timestamp_then_start() {
    let mut sys = LogSystem::new(1);
    let locked = sys.lock_sinks(0).unwrap();
    assert!(!sys.interrupts_enabled(0));
    assert!(sys.take_console_output().is_none());
    let f = LoggingFormatter::new(locked, Level::LevelTrace, "t", 123456789, 4);
    f.finish(&mut sys);
    assert!(sys.interrupts_enabled(0));
    assert_eq!(console(&mut sys), "\x1b[1;30m123456789 t 4[t] - \x1b[0m\n");
}

#[test]
fn interrupts_stay_off_if_they_were_off() {
    let mut sys = LogSystem::new(1);
    let held = sys.hold_interrupts(0);
    let f = LoggingFormatter::new(sys.lock_sinks(0).unwrap(), Level::LevelInfo, "x", 0, 0);
    f.finish(&mut sys);
    assert!(!sys.interrupts_enabled(0));
    sys.release_interrupts(held);
    assert!(sys.interrupts_enabled(0));
}
