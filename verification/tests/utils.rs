use logio::utils::{convert_log, format_line, log_time, new_input_bufs, with_logger, LogType};
use logio::{LogBuffer, Name, NewInternalLog, ThreadChannel};

fn shape_of(text: &str) -> String {
    text.chars().map(|c| if c.is_ascii_digit() { '0' } else { c }).collect()
}

#[test]
fn logger() {
    let log = "test log".to_string();
    let mut queue = NewInternalLog::Empty;
    let shown = with_logger(&mut queue, Some("main"), format!("{log}"), LogType::Error);
    assert_eq!(shape_of(&shown), "[00/00/00 00:00:00]:[thread:main:ERR]: test log");
    assert_eq!(queue.take(), Some(format!("{shown}\n")));
}

#[test]
fn prefix_names_thread_and_gravity() {
    assert_eq!(LogType::Warn.prefix(Some("main")), "[thread:main:WARN]:");
    assert_eq!(LogType::Info.prefix(Some("worker 1")), "[thread:worker 1:INFO]:");
    assert_eq!(LogType::Error.prefix(Some("")), "[thread::ERR]:");
}

#[test]
fn prefix_of_a_thread_without_a_name() {
    assert_eq!(LogType::Warn.prefix(None), "[thread:unamed:WARN]:");
    assert_eq!(LogType::Info.prefix(None), "[thread:unamed:INFO]:");
    assert_eq!(LogType::Error.prefix(None), "[thread:unamed:ERR]:");
}

#[test]
fn log_time_has_the_shape_of_a_date() {
    assert_eq!(shape_of(&log_time()), "[00/00/00 00:00:00]:");
}

#[test]
fn format_line_puts_the_parts_in_order() {
    assert_eq!(
        format_line("[01/02/24 03:04:05]:", "[thread:main:INFO]:", "hello"),
        "[01/02/24 03:04:05]:[thread:main:INFO]: hello"
    );
    assert_eq!(format_line("", "", ""), " ");
}

#[test]
fn convert_log_gives_each_line_its_prefix() {
    let text = convert_log(LogType::Info, Some("t"), "one\ntwo\r\nthree\n");
    let lines: Vec<&str> = text.split('\n').collect();
    assert_eq!(lines.len(), 3);
    assert_eq!(shape_of(lines[0]), "[00/00/00 00:00:00]:[thread:t:INFO]: one");
    assert_eq!(shape_of(lines[1]), "[00/00/00 00:00:00]:[thread:t:INFO]: two");
    assert_eq!(shape_of(lines[2]), "[00/00/00 00:00:00]:[thread:t:INFO]: three");
}

#[test]
fn convert_log_of_nothing_is_nothing() {
    assert_eq!(convert_log(LogType::Warn, None, ""), "");
}

#[test]
fn convert_log_keeps_an_empty_line() {
    let text = convert_log(LogType::Warn, None, "\n");
    assert_eq!(shape_of(&text), "[00/00/00 00:00:00]:[thread:unamed:WARN]: ");
}

#[test]
fn with_logger_puts_messages_one_behind_the_other() {
    let mut queue = NewInternalLog::Empty;
    let first = with_logger(&mut queue, Some("a"), "one".to_string(), LogType::Info);
    let second = with_logger(&mut queue, Some("b"), "two\nthree".to_string(), LogType::Warn);
    let third = with_logger(&mut queue, None, "four".to_string(), LogType::Error);
    let pending = queue.take().expect("three messages are pending");
    assert_eq!(pending, format!("{first}\n{second}\n{third}\n"));
    assert_eq!(pending.matches("one").count(), 1);
    assert_eq!(pending.matches("two").count(), 1);
    assert_eq!(pending.matches("three").count(), 1);
    assert_eq!(pending.matches("four").count(), 1);
    assert_eq!(pending.lines().count(), 4);
}

#[test]
fn new_input_bufs_clears_before_it_registers() {
    let bufs = vec![LogBuffer::new(Name("A"), 1u8), LogBuffer::new(Name("B"), 2u8)];
    let messages = new_input_bufs(bufs);
    assert_eq!(messages.len(), 2);
    assert!(matches!(messages[0], ThreadChannel::Clear));
    match &messages[1] {
        ThreadChannel::NewBufs(bufs) => {
            assert_eq!(bufs.len(), 2);
            assert_eq!(bufs[0].name, Name("A"));
            assert_eq!(bufs[0].buf, 1);
            assert_eq!(bufs[1].name, Name("B"));
            assert_eq!(bufs[1].buf, 2);
        }
        ThreadChannel::Clear => panic!("the second message registers the streams"),
    }
}
