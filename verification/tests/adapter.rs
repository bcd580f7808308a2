use fusenbd::adapter::{Access, AttrChanges, AttrReply, EntryReply, Operation, Reply, SeekFs, Step};
use fusenbd::attr::{FileAttr, Timespec, TTL_SEC};
use fusenbd::errors::{FsError, IoErrorKind};
use fusenbd::stream::{Outcome, Request};
use std::collections::VecDeque;
use std::io::{Cursor, Error, ErrorKind, Read, Result, Seek, SeekFrom, Write};

/// A device of fixed length that moves at most `chunk` bytes in one call and
/// fails the calls that `faults` says.
struct Disk {
    bytes: Vec<u8>,
    pos: u64,
    chunk: usize,
    faults: VecDeque<Option<ErrorKind>>,
}

impl Disk {
    fn new(bytes: Vec<u8>) -> Disk {
        Disk { bytes, pos: 0, chunk: usize::MAX, faults: VecDeque::new() }
    }

    fn counting(len: usize) -> Disk {
        Disk::new((0..len).map(|i| (i % 251) as u8).collect())
    }

    fn fault(&mut self) -> Result<()> {
        match self.faults.pop_front() {
            Some(Some(kind)) => Err(Error::from(kind)),
            _ => Ok(()),
        }
    }

    fn room(&self, asked: usize) -> usize {
        let len = self.bytes.len() as u64;
        let left = if self.pos < len { (len - self.pos) as usize } else { 0 };
        asked.min(left).min(self.chunk)
    }
}

impl Read for Disk {
    fn read(&mut self, buf: &mut [u8]) -> Result<usize> {
        self.fault()?;
        let n = self.room(buf.len());
        if n == 0 {
            return Ok(0);
        }
        let at = self.pos as usize;
        buf[..n].copy_from_slice(&self.bytes[at..at + n]);
        self.pos += n as u64;
        Ok(n)
    }
}

impl Write for Disk {
    fn write(&mut self, buf: &[u8]) -> Result<usize> {
        self.fault()?;
        let n = self.room(buf.len());
        if n == 0 {
            return Ok(0);
        }
        let at = self.pos as usize;
        self.bytes[at..at + n].copy_from_slice(&buf[..n]);
        self.pos += n as u64;
        Ok(n)
    }

    fn flush(&mut self) -> Result<()> {
        self.fault()
    }
}

impl Seek for Disk {
    fn seek(&mut self, to: SeekFrom) -> Result<u64> {
        self.fault()?;
        match to {
            SeekFrom::Start(pos) => self.pos = pos,
            SeekFrom::End(back) => self.pos = (self.bytes.len() as i64 + back) as u64,
            SeekFrom::Current(by) => self.pos = (self.pos as i64 + by) as u64,
        }
        Ok(self.pos)
    }
}

fn kind_of(error: &Error) -> IoErrorKind {
    match error.kind() {
        ErrorKind::NotFound => IoErrorKind::NotFound,
        ErrorKind::PermissionDenied => IoErrorKind::PermissionDenied,
        ErrorKind::ConnectionRefused => IoErrorKind::ConnectionRefused,
        ErrorKind::ConnectionReset => IoErrorKind::ConnectionReset,
        ErrorKind::ConnectionAborted => IoErrorKind::ConnectionAborted,
        ErrorKind::NotConnected => IoErrorKind::NotConnected,
        ErrorKind::AddrInUse => IoErrorKind::AddrInUse,
        ErrorKind::AddrNotAvailable => IoErrorKind::AddrNotAvailable,
        ErrorKind::BrokenPipe => IoErrorKind::BrokenPipe,
        ErrorKind::AlreadyExists => IoErrorKind::AlreadyExists,
        ErrorKind::WouldBlock => IoErrorKind::WouldBlock,
        ErrorKind::InvalidInput => IoErrorKind::InvalidInput,
        ErrorKind::InvalidData => IoErrorKind::InvalidData,
        ErrorKind::TimedOut => IoErrorKind::TimedOut,
        ErrorKind::WriteZero => IoErrorKind::WriteZero,
        ErrorKind::Interrupted => IoErrorKind::Interrupted,
        ErrorKind::UnexpectedEof => IoErrorKind::UnexpectedEof,
        _ => IoErrorKind::Other,
    }
}

fn perform<S: Read + Write + Seek>(stream: &mut S, request: Request, data: &[u8]) -> Outcome {
    let answer = match request {
        Request::SeekEnd => stream.seek(SeekFrom::End(0)).map(Outcome::Seeked),
        Request::Seek(pos) => stream.seek(SeekFrom::Start(pos)).map(Outcome::Seeked),
        Request::Read(n) => {
            let mut buf = vec![0u8; n];
            stream.read(&mut buf).map(|k| {
                buf.truncate(k);
                Outcome::Data(buf)
            })
        }
        Request::Write { from, len } => stream.write(&data[from..from + len]).map(Outcome::Wrote),
        Request::Flush => stream.flush().map(|_| Outcome::Flushed),
    };
    match answer {
        Ok(outcome) => outcome,
        Err(error) => Outcome::Failed(kind_of(&error)),
    }
}

/// Runs an operation against a stream and returns its reply with the requests
/// that it made.
fn drive<S: Read + Write + Seek>(stream: &mut S, start: Step, data: &[u8]) -> (Reply, Vec<Request>) {
    let mut asked = Vec::new();
    let mut step = start;
    loop {
        match step {
            Step::Reply(reply) => return (reply, asked),
            Step::Ask(op) => {
                let request = op.request();
                asked.push(request);
                step = op.resume(perform(stream, request, data));
            }
        }
    }
}

fn mount<S: Read + Write + Seek>(stream: &mut S, access: Access) -> SeekFs {
    let measured = perform(stream, SeekFs::measure(), &[]);
    SeekFs::new(measured, 1024, access).unwrap()
}

fn no_changes() -> AttrChanges {
    AttrChanges {
        mode: None,
        uid: None,
        gid: None,
        size: None,
        atime: None,
        mtime: None,
        fh: None,
        crtime: None,
        chgtime: None,
        bkuptime: None,
        flags: None,
    }
}

fn ttl() -> Timespec {
    Timespec { sec: TTL_SEC, nsec: 0 }
}

#[test]
fn adapter_measures_the_stream_once() {
    let mut disk = Disk::counting(10000);
    let fs = mount(&mut disk, Access::ReadWrite);
    let reply = fs.getattr(1);
    assert_eq!(reply, AttrReply { ttl: ttl(), attr: FileAttr::new(10000, 1024) });
    assert_eq!(reply.attr.size, 10000);
    assert_eq!(reply.attr.blocks, 10);
}

#[test]
fn adapter_measures_by_a_seek_to_the_end() {
    assert_eq!(SeekFs::measure(), Request::SeekEnd);
    let mut disk = Disk::counting(777);
    assert_eq!(perform(&mut disk, SeekFs::measure(), &[]), Outcome::Seeked(777));
}

#[test]
fn adapter_is_not_built_when_the_seek_fails() {
    let made = SeekFs::new(Outcome::Failed(IoErrorKind::NotConnected), 1024, Access::ReadWrite);
    assert_eq!(made, Err(FsError::NotConnected));
    let made = SeekFs::new(Outcome::Failed(IoErrorKind::Other), 1024, Access::ReadOnly);
    assert_eq!(made, Err(FsError::InvalidArgument));
    let mut disk = Disk::counting(100);
    disk.faults = VecDeque::from(vec![Some(ErrorKind::ConnectionReset)]);
    let measured = perform(&mut disk, SeekFs::measure(), &[]);
    assert_eq!(SeekFs::new(measured, 1024, Access::ReadOnly), Err(FsError::ConnectionAborted));
}

#[test]
fn adapter_is_not_built_from_an_answer_that_is_no_seek() {
    let refused = Err(FsError::InvalidArgument);
    assert_eq!(SeekFs::new(Outcome::Flushed, 1024, Access::ReadWrite), refused);
    assert_eq!(SeekFs::new(Outcome::Wrote(3), 1024, Access::ReadWrite), refused);
    assert_eq!(SeekFs::new(Outcome::Data(vec![1]), 1024, Access::ReadOnly), refused);
}

#[test]
fn adapter_of_an_empty_stream() {
    let fs = SeekFs::new(Outcome::Seeked(0), 1024, Access::ReadWrite).unwrap();
    assert_eq!(fs.getattr(1).attr.size, 0);
    assert_eq!(fs.getattr(1).attr.blocks, 0);
    let mut disk = Disk::counting(0);
    let (reply, _) = drive(&mut disk, fs.read(1, 0, 0, 16), &[]);
    assert_eq!(reply, Reply::Data(vec![]));
    let (reply, _) = drive(&mut disk, fs.write(1, 0, 0, b"abc", 0), b"abc");
    assert_eq!(reply, Reply::Written(0));
}

#[test]
fn lookup_resolves_every_name_to_the_one_file() {
    let fs = SeekFs::new(Outcome::Seeked(4096), 1024, Access::ReadOnly).unwrap();
    let expected = EntryReply { ttl: ttl(), attr: FileAttr::new(4096, 1024), generation: 0 };
    assert_eq!(fs.lookup(1, b"disk.img"), expected);
    assert_eq!(fs.lookup(77, b""), expected);
    assert_eq!(fs.lookup(1, b"no/such/name").attr.ino, 1);
}

#[test]
fn getattr_ignores_the_inode() {
    let fs = SeekFs::new(Outcome::Seeked(4096), 1024, Access::ReadOnly).unwrap();
    assert_eq!(fs.getattr(1), fs.getattr(12345));
    assert_eq!(fs.getattr(0).attr.size, 4096);
}

#[test]
fn setattr_replies_the_record_unchanged() {
    let fs = SeekFs::new(Outcome::Seeked(10000), 1024, Access::ReadWrite).unwrap();
    let before = fs.getattr(1);
    let mut changes = no_changes();
    changes.size = Some(0);
    changes.mode = Some(0o777);
    changes.uid = Some(1000);
    changes.mtime = Some(Timespec { sec: 1, nsec: 2 });
    let reply = fs.setattr(1, &changes);
    assert_eq!(reply, before);
    assert_eq!(reply.attr.size, 10000);
    assert_eq!(reply.attr.perm, 0o644);
    assert_eq!(fs.getattr(1), before);
}

#[test]
fn setattr_is_accepted_on_a_read_only_file() {
    let fs = SeekFs::new(Outcome::Seeked(10000), 1024, Access::ReadOnly).unwrap();
    let mut changes = no_changes();
    changes.size = Some(5);
    assert_eq!(fs.setattr(1, &changes), fs.getattr(1));
}

#[test]
fn read_returns_the_bytes_at_the_offset() {
    let mut disk = Disk::counting(100);
    let fs = mount(&mut disk, Access::ReadOnly);
    let (reply, asked) = drive(&mut disk, fs.read(1, 0, 10, 20), &[]);
    assert_eq!(reply, Reply::Data((10u8..30).collect()));
    assert_eq!(asked, vec![Request::Seek(10), Request::Read(20)]);
}

#[test]
fn read_near_the_end_is_short() {
    let mut disk = Disk::counting(100);
    let fs = mount(&mut disk, Access::ReadOnly);
    let (reply, asked) = drive(&mut disk, fs.read(1, 0, 90, 20), &[]);
    assert_eq!(reply, Reply::Data((90u8..100).collect()));
    assert_eq!(asked, vec![Request::Seek(90), Request::Read(20), Request::Read(10)]);
}

#[test]
fn read_at_the_end_is_empty() {
    let mut disk = Disk::counting(100);
    let fs = mount(&mut disk, Access::ReadOnly);
    let (reply, _) = drive(&mut disk, fs.read(1, 0, 100, 5), &[]);
    assert_eq!(reply, Reply::Data(vec![]));
}

#[test]
fn read_of_the_whole_stream() {
    let mut disk = Disk::counting(100);
    let fs = mount(&mut disk, Access::ReadOnly);
    let (reply, _) = drive(&mut disk, fs.read(1, 0, 0, 100), &[]);
    assert_eq!(reply, Reply::Data((0u8..100).collect()));
}

#[test]
fn read_of_no_bytes_only_seeks() {
    let mut disk = Disk::counting(100);
    let fs = mount(&mut disk, Access::ReadOnly);
    let (reply, asked) = drive(&mut disk, fs.read(1, 0, 40, 0), &[]);
    assert_eq!(reply, Reply::Data(vec![]));
    assert_eq!(asked, vec![Request::Seek(40)]);
}

#[test]
fn read_puts_short_reads_together() {
    let mut disk = Disk::counting(100);
    disk.chunk = 3;
    let fs = mount(&mut disk, Access::ReadOnly);
    let (reply, asked) = drive(&mut disk, fs.read(1, 0, 5, 8), &[]);
    assert_eq!(reply, Reply::Data((5u8..13).collect()));
    assert_eq!(
        asked,
        vec![Request::Seek(5), Request::Read(8), Request::Read(5), Request::Read(2)]
    );
}

#[test]
fn read_goes_on_after_interruptions() {
    let mut disk = Disk::counting(100);
    disk.chunk = 4;
    let fs = mount(&mut disk, Access::ReadOnly);
    disk.faults = VecDeque::from(vec![
        None,
        Some(ErrorKind::Interrupted),
        None,
        Some(ErrorKind::Interrupted),
        Some(ErrorKind::Interrupted),
        None,
    ]);
    let (reply, asked) = drive(&mut disk, fs.read(1, 0, 0, 6), &[]);
    assert_eq!(reply, Reply::Data(vec![0, 1, 2, 3, 4, 5]));
    assert_eq!(
        asked,
        vec![
            Request::Seek(0),
            Request::Read(6),
            Request::Read(6),
            Request::Read(2),
            Request::Read(2),
            Request::Read(2),
        ]
    );
}

#[test]
fn read_at_a_negative_offset_is_refused() {
    let mut disk = Disk::counting(100);
    let fs = mount(&mut disk, Access::ReadWrite);
    let (reply, asked) = drive(&mut disk, fs.read(1, 0, -1, 10), &[]);
    assert_eq!(reply, Reply::Error(FsError::InvalidArgument));
    assert_eq!(asked, vec![]);
    assert_eq!(fs.read(1, 0, i64::MIN, 0), Step::Reply(Reply::Error(FsError::InvalidArgument)));
}

#[test]
fn write_at_a_negative_offset_is_refused() {
    let mut disk = Disk::counting(100);
    let fs = mount(&mut disk, Access::ReadWrite);
    let (reply, asked) = drive(&mut disk, fs.write(1, 0, -5, b"abc", 0), b"abc");
    assert_eq!(reply, Reply::Error(FsError::InvalidArgument));
    assert_eq!(asked, vec![]);
    assert_eq!(disk.bytes, Disk::counting(100).bytes);
}

#[test]
fn read_only_file_refuses_every_write() {
    let mut disk = Disk::counting(100);
    let fs = mount(&mut disk, Access::ReadOnly);
    let denied = Step::Reply(Reply::Error(FsError::AccessDenied));
    assert_eq!(fs.write(1, 0, 0, b"abc", 0), denied);
    assert_eq!(fs.write(1, 0, 50, b"", 0), denied);
    assert_eq!(fs.write(1, 0, -1, b"abc", 0), denied);
    assert_eq!(fs.write(1, 0, 1000, b"abc", 0), denied);
    let (reply, asked) = drive(&mut disk, fs.write(1, 0, 10, b"abc", 0), b"abc");
    assert_eq!(reply, Reply::Error(FsError::AccessDenied));
    assert_eq!(asked, vec![]);
    assert_eq!(disk.bytes, Disk::counting(100).bytes);
}

#[test]
fn write_then_read_returns_what_was_written() {
    let mut disk = Disk::counting(100);
    let fs = mount(&mut disk, Access::ReadWrite);
    let data = b"Hello, world\n";
    let (reply, asked) = drive(&mut disk, fs.write(1, 0, 20, data, 0), data);
    assert_eq!(reply, Reply::Written(13));
    assert_eq!(asked, vec![Request::Seek(20), Request::Write { from: 0, len: 13 }]);
    let (reply, _) = drive(&mut disk, fs.read(1, 0, 20, 13), &[]);
    assert_eq!(reply, Reply::Data(data.to_vec()));
}

#[test]
fn write_leaves_the_rest_of_the_stream() {
    let mut disk = Disk::counting(10);
    let fs = mount(&mut disk, Access::ReadWrite);
    let (reply, _) = drive(&mut disk, fs.write(1, 0, 3, &[200, 201], 0), &[200, 201]);
    assert_eq!(reply, Reply::Written(2));
    assert_eq!(disk.bytes, vec![0, 1, 2, 200, 201, 5, 6, 7, 8, 9]);
}

#[test]
fn write_hands_over_the_rest_after_a_short_write() {
    let mut disk = Disk::counting(100);
    disk.chunk = 4;
    let fs = mount(&mut disk, Access::ReadWrite);
    let data: Vec<u8> = (100u8..110).collect();
    let (reply, asked) = drive(&mut disk, fs.write(1, 0, 50, &data, 0), &data);
    assert_eq!(reply, Reply::Written(10));
    assert_eq!(
        asked,
        vec![
            Request::Seek(50),
            Request::Write { from: 0, len: 10 },
            Request::Write { from: 4, len: 6 },
            Request::Write { from: 8, len: 2 },
        ]
    );
    assert_eq!(&disk.bytes[50..60], &data[..]);
    disk.chunk = usize::MAX;
    let (reply, _) = drive(&mut disk, fs.read(1, 0, 50, 10), &[]);
    assert_eq!(reply, Reply::Data(data));
}

#[test]
fn write_goes_on_after_interruptions() {
    let mut disk = Disk::counting(100);
    let fs = mount(&mut disk, Access::ReadWrite);
    disk.faults = VecDeque::from(vec![None, Some(ErrorKind::Interrupted), None]);
    let (reply, asked) = drive(&mut disk, fs.write(1, 0, 0, b"xyz", 0), b"xyz");
    assert_eq!(reply, Reply::Written(3));
    assert_eq!(
        asked,
        vec![
            Request::Seek(0),
            Request::Write { from: 0, len: 3 },
            Request::Write { from: 0, len: 3 },
        ]
    );
    assert_eq!(&disk.bytes[..3], b"xyz");
}

#[test]
fn write_of_no_bytes_only_seeks() {
    let mut disk = Disk::counting(100);
    let fs = mount(&mut disk, Access::ReadWrite);
    let (reply, asked) = drive(&mut disk, fs.write(1, 0, 7, b"", 0), b"");
    assert_eq!(reply, Reply::Written(0));
    assert_eq!(asked, vec![Request::Seek(7)]);
}

#[test]
fn write_over_the_end_stops_at_the_end() {
    let mut disk = Disk::counting(4);
    let fs = mount(&mut disk, Access::ReadWrite);
    let data = [1u8, 2, 3, 4];
    let (reply, asked) = drive(&mut disk, fs.write(1, 0, 2, &data, 0), &data);
    assert_eq!(reply, Reply::Written(2));
    assert_eq!(
        asked,
        vec![
            Request::Seek(2),
            Request::Write { from: 0, len: 4 },
            Request::Write { from: 2, len: 2 },
        ]
    );
    assert_eq!(disk.bytes, vec![0, 1, 1, 2]);
    let (reply, _) = drive(&mut disk, fs.read(1, 0, 2, 4), &[]);
    assert_eq!(reply, Reply::Data(vec![1, 2]));
}

#[test]
fn write_at_the_end_writes_nothing() {
    let mut disk = Disk::counting(4);
    let fs = mount(&mut disk, Access::ReadWrite);
    let (reply, _) = drive(&mut disk, fs.write(1, 0, 4, b"abc", 0), b"abc");
    assert_eq!(reply, Reply::Written(0));
    assert_eq!(disk.bytes, vec![0, 1, 2, 3]);
}

#[test]
fn reported_size_stays_after_reads_and_writes() {
    let mut disk = Disk::counting(4);
    let fs = mount(&mut disk, Access::ReadWrite);
    let before = fs.getattr(1);
    assert_eq!(before.attr.size, 4);
    let data = [9u8; 64];
    drive(&mut disk, fs.write(1, 0, 2, &data, 0), &data);
    drive(&mut disk, fs.write(1, 0, 1000, &data, 0), &data);
    drive(&mut disk, fs.read(1, 0, 0, 64), &[]);
    drive(&mut disk, fs.flush(1, 0, 0), &[]);
    assert_eq!(fs.getattr(1), before);
    assert_eq!(fs.lookup(1, b"x").attr, before.attr);
}

#[test]
fn reported_size_stays_when_the_stream_grows() {
    let mut stream = Cursor::new(vec![0u8; 8]);
    let fs = mount(&mut stream, Access::ReadWrite);
    let data = [7u8; 32];
    let (reply, _) = drive(&mut stream, fs.write(1, 0, 4, &data, 0), &data);
    assert_eq!(reply, Reply::Written(32));
    assert_eq!(stream.get_ref().len(), 36);
    assert_eq!(fs.getattr(1).attr.size, 8);
    assert_eq!(fs.getattr(1).attr.blocks, 1);
}

#[test]
fn hello_world_in_a_cursor() {
    let mut stream = Cursor::new(vec![0u8; 65536]);
    let fs = mount(&mut stream, Access::ReadWrite);
    assert_eq!(fs.getattr(1).attr.size, 65536);
    assert_eq!(fs.getattr(1).attr.blocks, 64);
    let data = b"Hello, world\n";
    let (reply, _) = drive(&mut stream, fs.write(1, 0, 0, data, 0), data);
    assert_eq!(reply, Reply::Written(13));
    let (reply, _) = drive(&mut stream, fs.read(1, 0, 0, 16), &[]);
    assert_eq!(reply, Reply::Data(b"Hello, world\n\0\0\0".to_vec()));
    let (reply, _) = drive(&mut stream, fs.read(1, 0, 65530, 4096), &[]);
    assert_eq!(reply, Reply::Data(vec![0u8; 6]));
}

#[test]
fn connection_reset_while_reading_is_connection_aborted() {
    let mut disk = Disk::counting(100);
    let fs = mount(&mut disk, Access::ReadOnly);
    disk.faults = VecDeque::from(vec![None, Some(ErrorKind::ConnectionReset)]);
    let (reply, asked) = drive(&mut disk, fs.read(1, 0, 0, 10), &[]);
    assert_eq!(reply, Reply::Error(FsError::ConnectionAborted));
    assert_eq!(asked, vec![Request::Seek(0), Request::Read(10)]);
}

#[test]
fn not_found_while_reading_is_entry_not_found() {
    let mut disk = Disk::counting(100);
    let fs = mount(&mut disk, Access::ReadOnly);
    disk.faults = VecDeque::from(vec![None, Some(ErrorKind::NotFound)]);
    let (reply, _) = drive(&mut disk, fs.read(1, 0, 0, 10), &[]);
    assert_eq!(reply, Reply::Error(FsError::EntryNotFound));
}

#[test]
fn failure_after_a_short_read_drops_the_bytes() {
    let mut disk = Disk::counting(100);
    disk.chunk = 4;
    let fs = mount(&mut disk, Access::ReadOnly);
    disk.faults = VecDeque::from(vec![None, None, Some(ErrorKind::TimedOut)]);
    let (reply, asked) = drive(&mut disk, fs.read(1, 0, 0, 10), &[]);
    assert_eq!(reply, Reply::Error(FsError::TimedOut));
    assert_eq!(asked, vec![Request::Seek(0), Request::Read(10), Request::Read(6)]);
}

#[test]
fn failed_seek_ends_the_read() {
    let mut disk = Disk::counting(100);
    let fs = mount(&mut disk, Access::ReadOnly);
    disk.faults = VecDeque::from(vec![Some(ErrorKind::BrokenPipe)]);
    let (reply, asked) = drive(&mut disk, fs.read(1, 0, 0, 10), &[]);
    assert_eq!(reply, Reply::Error(FsError::BrokenPipe));
    assert_eq!(asked, vec![Request::Seek(0)]);
}

#[test]
fn interrupted_seek_is_not_repeated() {
    let mut disk = Disk::counting(100);
    let fs = mount(&mut disk, Access::ReadWrite);
    disk.faults = VecDeque::from(vec![Some(ErrorKind::Interrupted)]);
    let (reply, asked) = drive(&mut disk, fs.read(1, 0, 0, 10), &[]);
    assert_eq!(reply, Reply::Error(FsError::InvalidArgument));
    assert_eq!(asked, vec![Request::Seek(0)]);
    disk.faults = VecDeque::from(vec![Some(ErrorKind::Interrupted)]);
    let (reply, asked) = drive(&mut disk, fs.write(1, 0, 0, b"a", 0), b"a");
    assert_eq!(reply, Reply::Error(FsError::InvalidArgument));
    assert_eq!(asked, vec![Request::Seek(0)]);
}

#[test]
fn failed_write_is_mapped() {
    let mut disk = Disk::counting(100);
    let fs = mount(&mut disk, Access::ReadWrite);
    disk.faults = VecDeque::from(vec![None, Some(ErrorKind::PermissionDenied)]);
    let (reply, _) = drive(&mut disk, fs.write(1, 0, 0, b"abc", 0), b"abc");
    assert_eq!(reply, Reply::Error(FsError::AccessDenied));
    disk.faults = VecDeque::from(vec![Some(ErrorKind::NotConnected)]);
    let (reply, _) = drive(&mut disk, fs.write(1, 0, 0, b"abc", 0), b"abc");
    assert_eq!(reply, Reply::Error(FsError::NotConnected));
}

#[test]
fn flush_asks_the_stream_to_flush() {
    let mut disk = Disk::counting(100);
    let fs = mount(&mut disk, Access::ReadWrite);
    let (reply, asked) = drive(&mut disk, fs.flush(1, 0, 0), &[]);
    assert_eq!(reply, Reply::Flushed);
    assert_eq!(asked, vec![Request::Flush]);
}

#[test]
fn failed_flush_is_mapped() {
    let mut disk = Disk::counting(100);
    let fs = mount(&mut disk, Access::ReadWrite);
    disk.faults = VecDeque::from(vec![Some(ErrorKind::ConnectionRefused)]);
    let (reply, _) = drive(&mut disk, fs.flush(1, 0, 0), &[]);
    assert_eq!(reply, Reply::Error(FsError::ConnectionAborted));
    disk.faults = VecDeque::from(vec![Some(ErrorKind::Interrupted)]);
    let (reply, asked) = drive(&mut disk, fs.flush(1, 0, 0), &[]);
    assert_eq!(reply, Reply::Error(FsError::InvalidArgument));
    assert_eq!(asked, vec![Request::Flush]);
}

#[test]
fn every_failure_category_reaches_the_reply() {
    let cases = [
        (ErrorKind::NotFound, FsError::EntryNotFound),
        (ErrorKind::PermissionDenied, FsError::AccessDenied),
        (ErrorKind::ConnectionRefused, FsError::ConnectionAborted),
        (ErrorKind::ConnectionReset, FsError::ConnectionAborted),
        (ErrorKind::ConnectionAborted, FsError::ConnectionAborted),
        (ErrorKind::NotConnected, FsError::NotConnected),
        (ErrorKind::AddrInUse, FsError::AddressInUse),
        (ErrorKind::AddrNotAvailable, FsError::AddressUnavailable),
        (ErrorKind::BrokenPipe, FsError::BrokenPipe),
        (ErrorKind::AlreadyExists, FsError::AlreadyExists),
        (ErrorKind::WouldBlock, FsError::WouldBlock),
        (ErrorKind::InvalidInput, FsError::InvalidArgument),
        (ErrorKind::InvalidData, FsError::InvalidArgument),
        (ErrorKind::TimedOut, FsError::TimedOut),
        (ErrorKind::WriteZero, FsError::InvalidArgument),
        (ErrorKind::UnexpectedEof, FsError::InvalidArgument),
        (ErrorKind::Other, FsError::InvalidArgument),
    ];
    for (kind, code) in cases.iter() {
        let mut disk = Disk::counting(100);
        let fs = mount(&mut disk, Access::ReadWrite);
        disk.faults = VecDeque::from(vec![None, Some(*kind)]);
        let (reply, _) = drive(&mut disk, fs.read(1, 0, 0, 10), &[]);
        assert_eq!(reply, Reply::Error(*code));
    }
}

#[test]
fn answer_of_another_kind_is_invalid_argument() {
    let fs = SeekFs::new(Outcome::Seeked(100), 1024, Access::ReadWrite).unwrap();
    let refused = Step::Reply(Reply::Error(FsError::InvalidArgument));
    match fs.read(1, 0, 0, 4) {
        Step::Ask(op) => assert_eq!(op.resume(Outcome::Flushed), refused),
        _ => panic!("the read does not ask"),
    }
    match fs.flush(1, 0, 0) {
        Step::Ask(op) => assert_eq!(op.resume(Outcome::Seeked(0)), refused),
        _ => panic!("the flush does not ask"),
    }
    match fs.write(1, 0, 0, b"ab", 0) {
        Step::Ask(op) => assert_eq!(op.resume(Outcome::Data(vec![1])), refused),
        _ => panic!("the write does not ask"),
    }
}

#[test]
fn answer_with_too_many_bytes_is_invalid_argument() {
    let fs = SeekFs::new(Outcome::Seeked(100), 1024, Access::ReadWrite).unwrap();
    let refused = Step::Reply(Reply::Error(FsError::InvalidArgument));
    let reading = match fs.read(1, 0, 0, 2) {
        Step::Ask(op) => op.resume(Outcome::Seeked(0)),
        _ => panic!("the read does not ask"),
    };
    match reading {
        Step::Ask(op) => {
            assert_eq!(op.request(), Request::Read(2));
            assert_eq!(op.resume(Outcome::Data(vec![1, 2, 3])), refused);
        }
        _ => panic!("the read does not ask"),
    }
    let writing = match fs.write(1, 0, 0, b"ab", 0) {
        Step::Ask(op) => op.resume(Outcome::Seeked(0)),
        _ => panic!("the write does not ask"),
    };
    match writing {
        Step::Ask(op) => assert_eq!(op.resume(Outcome::Wrote(3)), refused),
        _ => panic!("the write does not ask"),
    }
}

#[test]
fn seek_goes_to_the_offset_asked_for() {
    let fs = SeekFs::new(Outcome::Seeked(100), 1024, Access::ReadWrite).unwrap();
    assert_eq!(
        fs.read(1, 0, i64::MAX, 1),
        Step::Ask(Operation::SeekToRead { pos: i64::MAX as u64, size: 1 })
    );
    assert_eq!(
        fs.write(1, 0, 12, b"abc", 0),
        Step::Ask(Operation::SeekToWrite { pos: 12, len: 3 })
    );
    assert_eq!(fs.flush(1, 0, 0), Step::Ask(Operation::Flush));
}

#[test]
fn position_that_the_seek_reports_is_not_used() {
    let fs = SeekFs::new(Outcome::Seeked(100), 1024, Access::ReadOnly).unwrap();
    let step = match fs.read(1, 0, 30, 4) {
        Step::Ask(op) => op.resume(Outcome::Seeked(0)),
        _ => panic!("the read does not ask"),
    };
    match step {
        Step::Ask(op) => assert_eq!(op.request(), Request::Read(4)),
        _ => panic!("the read does not ask"),
    }
}
