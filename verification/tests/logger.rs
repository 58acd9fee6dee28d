use rm2::logger::{LogBuffers, LogStep, Logger};
use rm2::proto::{Log, LogKind, LOG_BUFFER_SIZE};
use std::io::{Error, ErrorKind};

fn chunk(text: &[u8]) -> Vec<u8> {
    let mut buffer = vec![0; LOG_BUFFER_SIZE];
    buffer[..text.len()].copy_from_slice(text);
    buffer
}

fn feed(logger: &Logger, buffers: &mut LogBuffers, kind: LogKind, text: &[u8]) -> Option<Vec<u8>> {
    match logger.work(buffers, kind, &chunk(text), Ok(text.len())) {
        LogStep::Emit(log) => {
            assert_eq!(log.process, logger.proc_id);
            assert_eq!(log.kind, kind);
            Some(log.data)
        }
        LogStep::Wait => None,
        LogStep::Stop(_, _) => panic!("no read failed"),
    }
}

#[test]
fn line_is_emitted_with_its_line_feed() {
    let logger = Logger::new(7);
    let mut buffers = LogBuffers::new();
    assert_eq!(
        feed(&logger, &mut buffers, LogKind::Stdout, b"hello\nwor"),
        Some(b"hello\n".to_vec())
    );
    assert_eq!(buffers.stdout, b"wor".to_vec());
    assert_eq!(feed(&logger, &mut buffers, LogKind::Stdout, b"ld"), None);
    assert_eq!(
        feed(&logger, &mut buffers, LogKind::Stdout, b"\n"),
        Some(b"world\n".to_vec())
    );
    assert_eq!(buffers.stdout, Vec::<u8>::new());
}

#[test]
fn carriage_return_stays_in_the_line() {
    let logger = Logger::new(1);
    let mut buffer = b"a\r\nb\rc\n".to_vec();
    assert_eq!(
        logger.process_buffer(&mut buffer, LogKind::Stderr),
        Some(Log { process: 1, kind: LogKind::Stderr, data: b"a\r\n".to_vec() })
    );
    assert_eq!(
        logger.process_buffer(&mut buffer, LogKind::Stderr),
        Some(Log { process: 1, kind: LogKind::Stderr, data: b"b\rc\n".to_vec() })
    );
    assert_eq!(logger.process_buffer(&mut buffer, LogKind::Stderr), None);
}

#[test]
fn carriage_return_alone_ends_nothing() {
    let logger = Logger::new(1);
    let mut buffer = b"progress 10%\r".to_vec();
    assert_eq!(logger.process_buffer(&mut buffer, LogKind::Stdout), None);
    assert_eq!(buffer, b"progress 10%\r".to_vec());
}

#[test]
fn empty_buffer_holds_no_line() {
    let mut buffer = Vec::new();
    assert_eq!(Logger::new(0).process_buffer(&mut buffer, LogKind::Stdout), None);
    assert!(buffer.is_empty());
}

#[test]
fn one_line_per_read() {
    let logger = Logger::new(3);
    let mut buffers = LogBuffers::new();
    assert_eq!(
        feed(&logger, &mut buffers, LogKind::Stdout, b"1\n2\n3\n"),
        Some(b"1\n".to_vec())
    );
    assert_eq!(buffers.stdout, b"2\n3\n".to_vec());
    assert_eq!(feed(&logger, &mut buffers, LogKind::Stdout, b"4"), Some(b"2\n".to_vec()));
    assert_eq!(buffers.stdout, b"3\n4".to_vec());
}

#[test]
fn empty_read_changes_nothing() {
    let logger = Logger::new(3);
    let mut buffers = LogBuffers::new();
    feed(&logger, &mut buffers, LogKind::Stdout, b"1\n2\n");
    assert_eq!(feed(&logger, &mut buffers, LogKind::Stdout, b""), None);
    assert_eq!(buffers.stdout, b"2\n".to_vec());
}

#[test]
fn only_the_filled_part_of_a_chunk_counts() {
    let logger = Logger::new(3);
    let mut buffers = LogBuffers::new();
    let step = logger.work(&mut buffers, LogKind::Stdout, &b"ab\ncd\n".to_vec(), Ok(2));
    assert!(matches!(step, LogStep::Wait));
    assert_eq!(buffers.stdout, b"ab".to_vec());
}

#[test]
fn streams_do_not_mix() {
    let logger = Logger::new(3);
    let mut buffers = LogBuffers::new();
    assert_eq!(feed(&logger, &mut buffers, LogKind::Stdout, b"out"), None);
    assert_eq!(feed(&logger, &mut buffers, LogKind::Stderr, b"err\n"), Some(b"err\n".to_vec()));
    assert_eq!(feed(&logger, &mut buffers, LogKind::Stdout, b"put\n"), Some(b"output\n".to_vec()));
    assert_eq!(buffers, LogBuffers::new());
}

#[test]
fn read_error_ends_the_logger() {
    let logger = Logger::new(9);
    let mut buffers = LogBuffers::new();
    feed(&logger, &mut buffers, LogKind::Stderr, b"rest");
    let error = Error::new(ErrorKind::BrokenPipe, "gone");
    match logger.work(&mut buffers, LogKind::Stdout, &chunk(b""), Err(error)) {
        LogStep::Stop(id, e) => {
            assert_eq!(id, 9);
            assert_eq!(e.kind(), ErrorKind::BrokenPipe);
        }
        _ => panic!("the read failed"),
    }
    assert_eq!(buffers.stderr, b"rest".to_vec());
}

#[test]
fn no_byte_is_lost() {
    let logger = Logger::new(0);
    let mut buffers = LogBuffers::new();
    let reads: [&[u8]; 6] = [b"a", b"\nbb\n\n", b"c", b"\r", b"\n", b"d\ne"];
    let mut received = Vec::new();
    let mut published = Vec::new();
    for read in reads {
        received.extend_from_slice(read);
        if let Some(data) = feed(&logger, &mut buffers, LogKind::Stdout, read) {
            published.extend_from_slice(&data);
        }
    }
    assert_eq!(published, b"a\nbb\n\nc\r\nd\n".to_vec()[..published.len()].to_vec());
    published.extend_from_slice(&buffers.stdout);
    assert_eq!(published, received);
}
