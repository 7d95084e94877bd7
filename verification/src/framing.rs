//! Cutting the byte stream of a TCP connection into newline-terminated
//! messages, one fixed-size read at a time.

use vstd::prelude::*;

verus! {

/// The byte that ends a message.
pub const NEWLINE: u8 = 10;

/// `idx` is the position of the first newline of `chunk`.
pub open spec fn is_first_newline(chunk: Seq<u8>, idx: int) -> bool {
    &&& 0 <= idx < chunk.len()
    &&& chunk[idx] == NEWLINE
    &&& forall|j: int| 0 <= j < idx ==> chunk[j] != NEWLINE
}

/// `chunk` holds no newline.
pub open spec fn has_no_newline(chunk: Seq<u8>) -> bool {
    forall|j: int| 0 <= j < chunk.len() ==> chunk[j] != NEWLINE
}

/// The position of the first newline of `chunk`, if there is one.
fn first_newline(chunk: &[u8]) -> (pos: Option<usize>)
    ensures
        pos matches Some(idx) ==> is_first_newline(chunk@, idx as int),
        pos is None ==> has_no_newline(chunk@),
{
    let mut i: usize = 0;
    while i < chunk.len()
        invariant
            i <= chunk@.len(),
            forall|j: int| 0 <= j < i ==> chunk@[j] != NEWLINE,
        decreases chunk@.len() - i,
    {
        if chunk[i] == NEWLINE {
            return Some(i);
        }
        i = i + 1;
    }
    None
}

/// Appends all of `bytes` to `buffer`.
fn append_bytes(buffer: &mut Vec<u8>, bytes: &[u8])
    ensures
        final(buffer)@ == old(buffer)@ + bytes@,
{
    let mut i: usize = 0;
    while i < bytes.len()
        invariant
            i <= bytes@.len(),
            buffer@ == old(buffer)@ + bytes@.subrange(0, i as int),
        decreases bytes@.len() - i,
    {
        buffer.push(bytes[i]);
        assert(bytes@.subrange(0, i + 1) == bytes@.subrange(0, i as int).push(bytes@[i as int]));
        i = i + 1;
    }
    assert(bytes@.subrange(0, bytes@.len() as int) == bytes@);
}

/// Takes one read of a connection into the pending bytes of that
/// connection. Without a newline in `chunk`, the whole chunk is kept and
/// no message is complete. Otherwise the message is the pending bytes
/// followed by the chunk from its second byte up to (not including) its
/// first newline, and the chunk from that newline on becomes the pending
/// bytes. A chunk whose first byte is a newline is not accepted.
pub fn handle_chunk(buffer: &mut Vec<u8>, chunk: &[u8]) -> (message: Option<Vec<u8>>)
    requires
        chunk@.len() == 0 || chunk@[0] != NEWLINE,
    ensures
        has_no_newline(chunk@) ==> message is None && final(buffer)@ == old(buffer)@ + chunk@,
        forall|idx: int|
            is_first_newline(chunk@, idx) ==> {
                &&& message matches Some(m)
                &&& m@ == old(buffer)@ + chunk@.subrange(1, idx)
                &&& final(buffer)@ == chunk@.subrange(idx, chunk@.len() as int)
            },
{
    match first_newline(chunk) {
        Some(idx) => {
            let head = &chunk[1..idx];
            append_bytes(buffer, head);
            let mut message: Vec<u8> = Vec::new();
            std::mem::swap(&mut message, buffer);
            let rest = &chunk[idx..chunk.len()];
            append_bytes(buffer, rest);
            assert forall|k: int| is_first_newline(chunk@, k) implies k == idx as int by {
                if k < idx as int {
                    assert(chunk@[k] != NEWLINE);
                } else if k > idx as int {
                    assert(chunk@[idx as int] != NEWLINE);
                }
            }
            Some(message)
        },
        None => {
            append_bytes(buffer, chunk);
            None
        },
    }
}

} // verus!
