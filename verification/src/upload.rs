//! The order-facing API surface: upload accounting, order status
//! answers, file listings, and the framing of the live log streams.
//!
//! The HTTP endpoints themselves read the database and the sockets; each
//! decision they make — what an order query answers, which files count
//! as newly produced, how a log chunk is framed — is a function here.

use vstd::prelude::*;

use crate::manager::OrderRow;
use crate::status::{OrderInfoFull, OrderInfoResult};

verus! {

/// Which log stream of an order a client asked to follow.
#[derive(Clone, Copy, Debug, PartialEq, Eq, Structural)]
pub enum StreamKind {
    Stdout,
    Stderr,
}

/// The query string of a file-download request.
#[derive(Clone, Debug, PartialEq)]
pub struct FetchFileUrl {
    pub path: String,
    /// Present when the client asked for an attachment download.
    pub download: Option<String>,
}

/// One file in an order's working directory.
#[derive(Clone, Debug, PartialEq)]
pub struct OrderFile {
    /// Path relative to the order's root.
    pub path: String,
    pub size_bytes: u64,
}

/// The files of an order's working directory.
#[derive(Clone, Debug, PartialEq)]
pub struct OrderFileList(pub Vec<OrderFile>);

/// The name of the log file a stream of `kind` reads, inside the
/// order's working directory.
pub fn stream_file_name(kind: StreamKind) -> (name: String)
    ensures
        kind == StreamKind::Stdout ==> name@ == "make-stdout.txt"@,
        kind == StreamKind::Stderr ==> name@ == "make-stderr.txt"@,
{
    match kind {
        StreamKind::Stdout => String::from_str("make-stdout.txt"),
        StreamKind::Stderr => String::from_str("make-stderr.txt"),
    }
}

/// `list` holds a path whose characters are `path`.
pub open spec fn list_has_path(list: Seq<String>, path: Seq<char>) -> bool {
    exists|i: int| 0 <= i < list.len() && (#[trigger] list[i])@ == path
}

/// Whether a file found in the working directory at job end is newly
/// produced: it is new exactly when it is not among the originally
/// uploaded paths.
pub fn is_new_file(src_file_list: &Vec<String>, path: &String) -> (is_new: bool)
    ensures
        is_new == !list_has_path(src_file_list@, path@),
{
    let n: usize = src_file_list.len();
    let mut i: usize = 0;
    while i < n
        invariant
            n == src_file_list@.len(),
            0 <= i <= n,
            forall|k: int| 0 <= k < i ==> (#[trigger] src_file_list@[k])@ != path@,
        decreases n - i,
    {
        if src_file_list[i].eq(path) {
            return false;
        }
        i = i + 1;
    }
    true
}

/// Upload size in thousandths of a megabyte, for a byte count.
pub fn millimb_from_bytes(bytes: u64) -> (millimb: u64)
    ensures
        millimb == bytes * 1000 / 0x100000,
{
    let wide: u128 = bytes as u128 * 1000;
    proof {
        assert(wide / 0x100000 <= bytes) by (nonlinear_arith)
            requires
                wide == bytes * 1000,
        ;
    }
    (wide / 0x100000) as u64
}

/// Answer a status request about an order the caller may access.
///
/// A live order is running; a finished one is completed with its durable
/// terminal record; a row that is neither live nor holds a record is
/// inconsistent and gets no answer.  (A caller the order does not belong
/// to is turned away before this decision.)
pub fn order_info_result(live: bool, row: OrderRow) -> (result: Option<OrderInfoResult>)
    requires
        row.created_at_unix_time >= 0,
    ensures
        live ==> result == Some(OrderInfoResult::Running),
        !live ==> (match row.status_json {
            Some(record) => result == Some(
                OrderInfoResult::Completed(
                    (OrderInfoFull {
                        record,
                        is_on_disk: row.is_on_disk,
                        created_at_unix_time: row.created_at_unix_time as u64,
                    }),
                ),
            ),
            None => result is None,
        }),
{
    if live {
        Some(OrderInfoResult::Running)
    } else {
        match row.status_json {
            Some(record) => Some(
                OrderInfoResult::Completed(
                    OrderInfoFull {
                        record,
                        is_on_disk: row.is_on_disk,
                        created_at_unix_time: row.created_at_unix_time as u64,
                    },
                ),
            ),
            None => None,
        }
    }
}

/// Byte `i` of the big-endian encoding of `x`.
pub open spec fn be_byte(x: u64, i: int) -> u8 {
    ((x >> ((8 * (7 - i)) as u64)) & 0xff) as u8
}

/// The eight bytes of `x`, most significant first.
pub open spec fn u64_be_bytes(x: u64) -> Seq<u8> {
    Seq::new(8, |i: int| be_byte(x, i))
}

fn extract_byte(x: u64, i: usize) -> (b: u8)
    requires
        i < 8,
    ensures
        b == be_byte(x, i as int),
{
    let shift: u64 = (8 * (7 - i)) as u64;
    let wide: u64 = (x >> shift) & 0xff;
    proof {
        assert((x >> shift) & 0xff < 256) by (bit_vector);
    }
    wide as u8
}

/// Frame one chunk of a live log stream: the chunk's sequence number as
/// eight big-endian bytes, then the chunk's data.
pub fn frame_chunk(chunk_id: u64, data: &[u8]) -> (frame: Vec<u8>)
    ensures
        frame@ == u64_be_bytes(chunk_id) + data@,
{
    let mut frame: Vec<u8> = Vec::new();
    let mut i: usize = 0;
    while i < 8
        invariant
            0 <= i <= 8,
            frame@.len() == i,
            forall|k: int| 0 <= k < i ==> frame@[k] == be_byte(chunk_id, k),
        decreases 8 - i,
    {
        frame.push(extract_byte(chunk_id, i));
        i = i + 1;
    }
    let n: usize = data.len();
    let mut j: usize = 0;
    while j < n
        invariant
            n == data@.len(),
            0 <= j <= n,
            frame@.len() == 8 + j,
            forall|k: int| 0 <= k < 8 ==> frame@[k] == be_byte(chunk_id, k),
            forall|k: int| 0 <= k < j ==> frame@[8 + k] == data@[k],
        decreases n - j,
    {
        frame.push(data[j]);
        j = j + 1;
    }
    proof {
        assert(frame@ =~= u64_be_bytes(chunk_id) + data@);
    }
    frame
}

} // verus!
