use std::io::{ErrorKind, Read};

use readn::{Event, ReadError, ReadN, Step};

/// A source that hands over at most `max_chunk` bytes per request.
struct ChunkedSource {
    data: Vec<u8>,
    pos: usize,
    max_chunk: usize,
}

impl ChunkedSource {
    fn new(data: &[u8], max_chunk: usize) -> ChunkedSource {
        ChunkedSource { data: data.to_vec(), pos: 0, max_chunk }
    }
}

impl Read for ChunkedSource {
    fn read(&mut self, buf: &mut [u8]) -> std::io::Result<usize> {
        let k = buf.len().min(self.max_chunk).min(self.data.len() - self.pos);
        buf[..k].copy_from_slice(&self.data[self.pos..self.pos + k]);
        self.pos += k;
        Ok(k)
    }
}

enum Got {
    Bytes(Vec<u8>),
    EndOfStream { wanted: usize, received: usize },
    Source(ErrorKind),
}

fn drive(core: &mut ReadN, source: &mut dyn Read, n: usize) -> Got {
    let mut step = core.read(n);
    loop {
        match step {
            Step::Need(k) => {
                assert!(k > 0);
                let mut chunk = vec![0u8; k];
                let event = match source.read(&mut chunk) {
                    Ok(got) => Event::Received(chunk[..got].to_vec()),
                    Err(e) if e.kind() == ErrorKind::Interrupted => Event::Interrupted,
                    Err(e) => Event::Failed(e),
                };
                step = core.advance(event);
            }
            Step::Done(v) => return Got::Bytes(v),
            Step::Failed(ReadError::EndOfStream { wanted, received }) => {
                return Got::EndOfStream { wanted, received }
            }
            Step::Failed(ReadError::Source(e)) => return Got::Source(e.kind()),
        }
    }
}

fn bytes(g: Got) -> Vec<u8> {
    match g {
        Got::Bytes(v) => v,
        Got::EndOfStream { wanted, received } => {
            panic!("end of stream after {} of {} bytes", received, wanted)
        }
        Got::Source(k) => panic!("source failed: {:?}", k),
    }
}

#[test]
fn scenario_three_two_then_end_of_stream() {
    let mut source = ChunkedSource::new(&[0x01, 0x02, 0x03, 0x04, 0x05], 64);
    let mut core = ReadN::new();
    assert_eq!(bytes(drive(&mut core, &mut source, 3)), vec![0x01, 0x02, 0x03]);
    assert_eq!(bytes(drive(&mut core, &mut source, 2)), vec![0x04, 0x05]);
    assert!(matches!(
        drive(&mut core, &mut source, 1),
        Got::EndOfStream { wanted: 1, received: 0 }
    ));
}

#[test]
fn scenario_async_with_another_task() {
    let rt = tokio::runtime::Builder::new_current_thread().build().unwrap();
    let results = rt.block_on(async {
        let other = tokio::task::spawn(async {
            let mut total: u64 = 0;
            for i in 0..100u64 {
                total += i;
                tokio::task::yield_now().await;
            }
            total
        });
        let data: Vec<u8> = vec![0x01, 0x02, 0x03, 0x04, 0x05];
        let mut source: &[u8] = &data;
        let mut core = ReadN::new();
        let mut results = Vec::new();
        for n in [3usize, 2, 1] {
            let mut step = core.read(n);
            let outcome = loop {
                match step {
                    Step::Need(k) => {
                        let mut chunk = vec![0u8; k];
                        tokio::task::yield_now().await;
                        let event = match tokio::io::AsyncReadExt::read(&mut source, &mut chunk).await {
                            Ok(got) => Event::Received(chunk[..got].to_vec()),
                            Err(e) => Event::Failed(e),
                        };
                        step = core.advance(event);
                    }
                    Step::Done(v) => break Some(v),
                    Step::Failed(_) => break None,
                }
            };
            results.push(outcome);
        }
        assert_eq!(other.await.unwrap(), 4950);
        results
    });
    assert_eq!(
        results,
        vec![Some(vec![0x01, 0x02, 0x03]), Some(vec![0x04, 0x05]), None]
    );
}

#[test]
fn read_zero_is_empty_and_asks_nothing() {
    let mut core = ReadN::new();
    match core.read(0) {
        Step::Done(v) => assert!(v.is_empty()),
        _ => panic!("a read of no bytes is complete at once"),
    }
    assert!(!core.is_pending());
    let mut source = ChunkedSource::new(&[7, 8], 64);
    assert_eq!(bytes(drive(&mut core, &mut source, 0)), Vec::<u8>::new());
    assert_eq!(source.pos, 0);
}

#[test]
fn reads_first_n_bytes_from_one_byte_chunks() {
    let data: Vec<u8> = (10..20).collect();
    let mut source = ChunkedSource::new(&data, 1);
    let mut core = ReadN::new();
    assert_eq!(bytes(drive(&mut core, &mut source, 4)), vec![10, 11, 12, 13]);
    assert_eq!(source.pos, 4);
}

#[test]
fn short_source_ends_in_end_of_stream() {
    let mut source = ChunkedSource::new(&[1, 2], 64);
    let mut core = ReadN::new();
    assert!(matches!(
        drive(&mut core, &mut source, 5),
        Got::EndOfStream { wanted: 5, received: 2 }
    ));
    assert!(!core.is_pending());
}

#[test]
fn consecutive_reads_are_contiguous() {
    let data: Vec<u8> = (0..12).collect();
    let mut source = ChunkedSource::new(&data, 5);
    let mut core = ReadN::new();
    assert_eq!(bytes(drive(&mut core, &mut source, 7)), (0..7).collect::<Vec<u8>>());
    assert_eq!(bytes(drive(&mut core, &mut source, 4)), (7..11).collect::<Vec<u8>>());
    assert_eq!(source.pos, 11);
}

#[test]
fn smaller_read_after_larger_has_no_stale_bytes() {
    let mut source = ChunkedSource::new(&[1, 2, 3, 4, 5, 9, 8], 64);
    let mut core = ReadN::new();
    assert_eq!(bytes(drive(&mut core, &mut source, 5)), vec![1, 2, 3, 4, 5]);
    assert_eq!(bytes(drive(&mut core, &mut source, 2)), vec![9, 8]);
}

#[test]
fn partial_answers_are_kept_in_order() {
    let mut core = ReadN::new();
    assert!(matches!(core.read(4), Step::Need(4)));
    assert!(matches!(core.advance(Event::Received(vec![7, 8])), Step::Need(2)));
    assert!(core.is_pending());
    assert!(matches!(core.advance(Event::Received(vec![9])), Step::Need(1)));
    match core.advance(Event::Received(vec![10])) {
        Step::Done(v) => assert_eq!(v, vec![7, 8, 9, 10]),
        _ => panic!("the read is complete"),
    }
    assert!(!core.is_pending());
}

#[test]
fn interrupted_request_is_asked_again() {
    let mut core = ReadN::new();
    assert!(matches!(core.read(3), Step::Need(3)));
    assert!(matches!(core.advance(Event::Received(vec![1])), Step::Need(2)));
    assert!(matches!(core.advance(Event::Interrupted), Step::Need(2)));
    match core.advance(Event::Received(vec![2, 3])) {
        Step::Done(v) => assert_eq!(v, vec![1, 2, 3]),
        _ => panic!("the read is complete"),
    }
}

#[test]
fn source_failure_is_passed_on() {
    let mut core = ReadN::new();
    assert!(matches!(core.read(3), Step::Need(3)));
    let e = std::io::Error::new(ErrorKind::ConnectionReset, "gone");
    match core.advance(Event::Failed(e)) {
        Step::Failed(ReadError::Source(e)) => assert_eq!(e.kind(), ErrorKind::ConnectionReset),
        _ => panic!("the source's error is handed on"),
    }
    assert!(!core.is_pending());
}

#[test]
fn end_of_stream_reports_what_was_received() {
    let mut core = ReadN::new();
    assert!(matches!(core.read(6), Step::Need(6)));
    assert!(matches!(core.advance(Event::Received(vec![1, 2, 3, 4])), Step::Need(2)));
    assert!(matches!(
        core.advance(Event::Received(vec![])),
        Step::Failed(ReadError::EndOfStream { wanted: 6, received: 4 })
    ));
}

#[test]
fn new_reader_has_no_read_under_way() {
    let core = ReadN::new();
    assert!(!core.is_pending());
}
