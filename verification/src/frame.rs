//! Framing of the message stream. Messages travel as self-delimiting JSON
//! values concatenated on a TCP stream: an object, an array, or a string.
//! The reader buffers the bytes it has and cuts off one frame as soon as a
//! complete value is there; decoding the frame into a message happens
//! outside the library. The boundary scanner only balances brackets and
//! honors string literals with their escapes; whether the inside is sound
//! JSON is the decoder's business.

use vstd::prelude::*;

verus! {

/// Whitespace that may precede a value.
pub open spec fn is_ws(b: u8) -> bool {
    b == 0x20 || b == 0x09 || b == 0x0d || b == 0x0a
}

/// The scanner's state after some prefix of the stream.
#[derive(Clone, Copy, Debug, PartialEq, Eq, Structural)]
pub enum ScanState {
    /// Before the first byte of the value; whitespace passes.
    Start,
    /// Inside a value with `depth` open brackets, outside any string.
    Open { depth: u64 },
    /// Inside a string literal; `depth` brackets are open around it
    /// (zero for a top-level string frame).
    InString { depth: u64 },
    /// Right after a backslash inside a string literal.
    InEscape { depth: u64 },
    /// One complete value has ended.
    Done,
    /// The bytes cannot open a framed value: the frame is poisoned.
    Bad,
}

/// One byte moves the scanner.
pub open spec fn scan_step(st: ScanState, b: u8) -> ScanState {
    match st {
        ScanState::Start => {
            if is_ws(b) {
                ScanState::Start
            } else if b == 0x7b || b == 0x5b {  // '{' '['
                ScanState::Open { depth: 1 }
            } else if b == 0x22 {  // '"'
                ScanState::InString { depth: 0 }
            } else {
                ScanState::Bad
            }
        },
        ScanState::Open { depth } => {
            if b == 0x7b || b == 0x5b {
                ScanState::Open { depth: (depth + 1) as u64 }
            } else if b == 0x7d || b == 0x5d {  // '}' ']'
                if depth == 1 {
                    ScanState::Done
                } else {
                    ScanState::Open { depth: (depth - 1) as u64 }
                }
            } else if b == 0x22 {
                ScanState::InString { depth }
            } else {
                ScanState::Open { depth }
            }
        },
        ScanState::InString { depth } => {
            if b == 0x22 {
                if depth == 0 {
                    ScanState::Done
                } else {
                    ScanState::Open { depth }
                }
            } else if b == 0x5c {  // '\'
                ScanState::InEscape { depth }
            } else {
                ScanState::InString { depth }
            }
        },
        ScanState::InEscape { depth } => ScanState::InString { depth },
        ScanState::Done => ScanState::Done,
        ScanState::Bad => ScanState::Bad,
    }
}

/// The scanner's state after the first `n` bytes of `s`.
pub open spec fn scan_bytes(s: Seq<u8>, n: int) -> ScanState
    decreases n,
{
    if n <= 0 {
        ScanState::Start
    } else {
        scan_step(scan_bytes(s, n - 1), s[n - 1])
    }
}

/// Once a frame is complete it stays complete: later bytes belong to the
/// next frame.
pub proof fn lemma_done_stays(s: Seq<u8>, m: int, n: int)
    requires
        0 <= m <= n <= s.len(),
        scan_bytes(s, m) is Done,
    ensures
        scan_bytes(s, n) is Done,
    decreases n - m,
{
    if m < n {
        lemma_done_stays(s, m, n - 1);
    }
}

/// A poisoned frame stays poisoned until the buffer is abandoned.
pub proof fn lemma_bad_stays(s: Seq<u8>, m: int, n: int)
    requires
        0 <= m <= n <= s.len(),
        scan_bytes(s, m) is Bad,
    ensures
        scan_bytes(s, n) is Bad,
    decreases n - m,
{
    if m < n {
        lemma_bad_stays(s, m, n - 1);
    }
}

/// The scanner is insensitive to bytes after the prefix it has read.
pub proof fn lemma_scan_prefix(s1: Seq<u8>, s2: Seq<u8>, n: int)
    requires
        0 <= n <= s1.len(),
        n <= s2.len(),
        s1.take(n) == s2.take(n),
    ensures
        scan_bytes(s1, n) == scan_bytes(s2, n),
    decreases n,
{
    if n > 0 {
        assert(s1.take(n).drop_last() =~= s1.take(n - 1));
        assert(s2.take(n).drop_last() =~= s2.take(n - 1));
        lemma_scan_prefix(s1, s2, n - 1);
        assert(s1[n - 1] == s1.take(n)[n - 1]);
        assert(s2[n - 1] == s2.take(n)[n - 1]);
    }
}

/// What a scan of the whole buffer found.
pub enum FrameScan {
    /// The first `n` bytes are one complete value.
    Complete(usize),
    /// No complete value yet; read more bytes.
    Incomplete,
    /// The buffer cannot start a value.
    Bad,
}

/// Scans the buffer for the end of the first value. `Complete(n)` names
/// the shortest complete prefix.
pub fn scan_frame(data: &Vec<u8>) -> (r: FrameScan)
    ensures
        match r {
            FrameScan::Complete(n) => {
                &&& 0 < n <= data@.len()
                &&& scan_bytes(data@, n as int) is Done
                &&& !(scan_bytes(data@, n as int - 1) is Done)
            },
            FrameScan::Incomplete => {
                &&& !(scan_bytes(data@, data@.len() as int) is Done)
                &&& !(scan_bytes(data@, data@.len() as int) is Bad)
            },
            FrameScan::Bad => scan_bytes(data@, data@.len() as int) is Bad,
        },
{
    let n = data.len();
    let mut st = ScanState::Start;
    let mut i: usize = 0;
    while i < n
        invariant
            n == data@.len(),
            i <= n,
            st == scan_bytes(data@, i as int),
            !(st is Done),
            !(st is Bad),
            match st {
                ScanState::Open { depth } => 1 <= depth <= i,
                ScanState::InString { depth } => depth <= i,
                ScanState::InEscape { depth } => depth <= i,
                _ => true,
            },
        ensures
            i <= n,
            st == scan_bytes(data@, i as int),
            st is Done ==> i > 0 && !(scan_bytes(data@, i as int - 1) is Done),
            st is Bad ==> i == n || st is Bad,
            !(st is Done) && !(st is Bad) ==> i == n,
            st is Bad ==> scan_bytes(data@, i as int) is Bad && i <= n,
        decreases n - i,
    {
        let b = data[i];
        let next = match st {
            ScanState::Start => {
                if b == 0x20 || b == 0x09 || b == 0x0d || b == 0x0a {
                    ScanState::Start
                } else if b == 0x7b || b == 0x5b {
                    ScanState::Open { depth: 1 }
                } else if b == 0x22 {
                    ScanState::InString { depth: 0 }
                } else {
                    ScanState::Bad
                }
            },
            ScanState::Open { depth } => {
                if b == 0x7b || b == 0x5b {
                    ScanState::Open { depth: depth + 1 }
                } else if b == 0x7d || b == 0x5d {
                    if depth == 1 {
                        ScanState::Done
                    } else {
                        ScanState::Open { depth: depth - 1 }
                    }
                } else if b == 0x22 {
                    ScanState::InString { depth }
                } else {
                    ScanState::Open { depth }
                }
            },
            ScanState::InString { depth } => {
                if b == 0x22 {
                    if depth == 0 {
                        ScanState::Done
                    } else {
                        ScanState::Open { depth }
                    }
                } else if b == 0x5c {
                    ScanState::InEscape { depth }
                } else {
                    ScanState::InString { depth }
                }
            },
            ScanState::InEscape { depth } => ScanState::InString { depth },
            ScanState::Done => ScanState::Done,
            ScanState::Bad => ScanState::Bad,
        };
        i = i + 1;
        proof {
            assert(next == scan_step(scan_bytes(data@, i as int - 1), data@[i as int - 1]));
        }
        st = next;
        match st {
            ScanState::Done => {
                return FrameScan::Complete(i);
            },
            ScanState::Bad => {
                proof {
                    lemma_bad_stays(data@, i as int, n as int);
                }
                return FrameScan::Bad;
            },
            _ => {},
        }
    }
    FrameScan::Incomplete
}

/// Buffers the bytes read from a connection and hands out one message
/// frame at a time. The read side feeds raw chunks in; the decoder takes
/// complete frames out.
pub struct FrameBuffer {
    pub data: Vec<u8>,
}

/// What taking a frame yielded.
pub enum TakeResult {
    /// One complete value, removed from the buffer.
    Frame(Vec<u8>),
    /// No complete value buffered; read more bytes first.
    Incomplete,
    /// The stream cannot be framed any more (a value starts with an
    /// impossible byte); the connection must be dropped.
    Poisoned,
}

impl FrameBuffer {
    pub fn new() -> (r: FrameBuffer)
        ensures
            r.data@.len() == 0,
    {
        FrameBuffer { data: Vec::new() }
    }

    /// Appends a chunk read from the stream.
    pub fn push_bytes(&mut self, chunk: &[u8])
        ensures
            final(self).data@ == old(self).data@ + chunk@,
    {
        let mut i: usize = 0;
        while i < chunk.len()
            invariant
                i <= chunk@.len(),
                self.data@ == old(self).data@ + chunk@.take(i as int),
            decreases chunk.len() - i,
        {
            self.data.push(chunk[i]);
            proof {
                assert(chunk@.take(i + 1) == chunk@.take(i as int).push(chunk@[i as int]));
                assert(self.data@ =~= old(self).data@ + chunk@.take(i + 1));
            }
            i += 1;
        }
        proof {
            assert(chunk@.take(chunk@.len() as int) =~= chunk@);
        }
    }

    /// Cuts the first complete value off the buffer, if one is there.
    pub fn take_frame(&mut self) -> (r: TakeResult)
        ensures
            match r {
                TakeResult::Frame(frame) => {
                    &&& 0 < frame@.len() <= old(self).data@.len()
                    &&& frame@ == old(self).data@.take(frame@.len() as int)
                    &&& final(self).data@ == old(self).data@.skip(frame@.len() as int)
                    &&& scan_bytes(frame@, frame@.len() as int) is Done
                    &&& !(scan_bytes(frame@, frame@.len() as int - 1) is Done)
                },
                TakeResult::Incomplete => {
                    &&& *final(self) == *old(self)
                    &&& !(scan_bytes(old(self).data@, old(self).data@.len() as int) is Done)
                    &&& !(scan_bytes(old(self).data@, old(self).data@.len() as int) is Bad)
                },
                TakeResult::Poisoned => {
                    &&& *final(self) == *old(self)
                    &&& scan_bytes(old(self).data@, old(self).data@.len() as int) is Bad
                },
            },
    {
        match scan_frame(&self.data) {
            FrameScan::Incomplete => TakeResult::Incomplete,
            FrameScan::Bad => TakeResult::Poisoned,
            FrameScan::Complete(end) => {
                let mut rest = self.data.split_off(end);
                core::mem::swap(&mut self.data, &mut rest);
                proof {
                    assert(rest@ =~= old(self).data@.take(end as int));
                    assert(self.data@ =~= old(self).data@.skip(end as int));
                    assert(rest@.take(end as int) =~= old(self).data@.take(end as int));
                    lemma_scan_prefix(rest@, old(self).data@, end as int);
                    assert(rest@.take(end as int - 1) =~= old(self).data@.take(end as int - 1));
                    lemma_scan_prefix(rest@, old(self).data@, end as int - 1);
                }
                TakeResult::Frame(rest)
            },
        }
    }
}

/// How the read buffer grows: when a read filled it whole, it doubles, so
/// fewer reads are needed for large messages; otherwise it keeps its size.
pub fn next_read_len(current: usize, bytes_read: usize) -> (r: usize)
    requires
        current > 0,
    ensures
        bytes_read == current && current <= usize::MAX / 2 ==> r == 2 * current,
        !(bytes_read == current && current <= usize::MAX / 2) ==> r == current,
{
    if bytes_read == current && current <= usize::MAX / 2 {
        2 * current
    } else {
        current
    }
}

} // verus!
