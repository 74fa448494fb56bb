//! Wire format: command frames, reply checks and the decoding of integer
//! payloads.

use vstd::prelude::*;
use vstd::utf8::{decode_utf8, valid_utf8};

verus! {

/// Start-of-text marker that opens every frame.
pub const STX: u8 = 2;

/// Carriage return that closes every frame.
pub const CR: u8 = 13;

/// Offset of the byte that tells a failure reply from a successful one.
pub const RESULT_IDX: u8 = 3;

/// The discriminator byte of a failure reply: `?`.
pub const FAILED_REPLY: u8 = 63;

/// The minus sign that may open an integer payload.
pub const MINUS: u8 = 45;

/// The ASCII code of the digit `0`.
pub const ZERO: u8 = 48;

pub open spec fn is_digit(b: u8) -> bool {
    ZERO <= b <= 57
}

/// The three bytes that open a command for one device.
pub open spec fn prefix_of(device_type: u8, device_id: u8) -> Seq<u8>
    recommends
        device_id <= 9,
{
    seq![STX, device_type, (device_id + ZERO) as u8]
}

/// Builds the frame prefix `STX, type tag, index digit` of a device.
pub fn make_prefix(device_type: u8, device_id: u8) -> (r: [u8; 3])
    requires
        device_id <= 9,
    ensures
        r@ == prefix_of(device_type, device_id),
{
    let r = [STX, device_type, device_id + ZERO];
    assert(r@ =~= prefix_of(device_type, device_id));
    r
}


/// What `decode_device_identity` reads back from a prefix.
pub open spec fn identity_of(p: Seq<u8>) -> Option<(u8, u8)> {
    if p.len() == 3 && p[0] == STX && is_digit(p[2]) {
        Some((p[1], (p[2] - ZERO) as u8))
    } else {
        None
    }
}

/// Reads the device type tag and the device index back from a frame prefix;
/// `None` where the prefix is not `STX`, a tag and a decimal digit.
pub fn decode_device_identity(prefix: [u8; 3]) -> (r: Option<(u8, u8)>)
    ensures
        r == identity_of(prefix@),
{
    let d = prefix[2];
    if prefix[0] == STX && ZERO <= d && d <= 57 {
        Some((prefix[1], d - ZERO))
    } else {
        None
    }
}

/// Encoding a device's identity as a prefix and decoding it again gives back
/// the same type tag and index, for every tag and every single-digit index.
pub proof fn lemma_identity_round_trip(device_type: u8, device_id: u8)
    requires
        device_id <= 9,
    ensures
        identity_of(prefix_of(device_type, device_id)) == Some((device_type, device_id)),
{
}

/// The ASCII digit of a number below ten.
pub fn int_to_byte(number: u8) -> (r: u8)
    requires
        number <= 9,
    ensures
        r == number + ZERO,
        is_digit(r),
{
    number + ZERO
}

/// The decimal digits of `n`, most significant first, without leading zeros.
pub open spec fn decimal(n: nat) -> Seq<u8>
    decreases n,
{
    if n < 10 {
        seq![(n + ZERO) as u8]
    } else {
        decimal(n / 10).push((n % 10 + ZERO) as u8)
    }
}

/// The ASCII text of a signed integer: an optional `-`, then its digits.
pub open spec fn int_text(i: int) -> Seq<u8> {
    if i < 0 {
        seq![MINUS] + decimal((-i) as nat)
    } else {
        decimal(i as nat)
    }
}

fn push_decimal(out: &mut Vec<u8>, n: usize)
    ensures
        final(out)@ == old(out)@ + decimal(n as nat),
    decreases n,
{
    if n < 10 {
        out.push(n as u8 + ZERO);
        assert(final(out)@ =~= old(out)@ + decimal(n as nat));
    } else {
        push_decimal(out, n / 10);
        out.push((n % 10) as u8 + ZERO);
        assert(final(out)@ =~= old(out)@ + decimal(n as nat));
    }
}

/// The ASCII text of a signed integer, as it stands in a command payload.
pub fn num_to_bytes(number: isize) -> (r: Vec<u8>)
    ensures
        r@ == int_text(number as int),
{
    let mut out: Vec<u8> = Vec::new();
    if number < 0 {
        out.push(MINUS);
        let magnitude: usize = (-(number + 1)) as usize + 1;
        push_decimal(&mut out, magnitude);
        assert(out@ =~= int_text(number as int));
    } else {
        push_decimal(&mut out, number as usize);
        assert(out@ =~= int_text(number as int));
    }
    out
}

/// The value of the digit bytes of `s` read as one decimal number; every
/// other byte is skipped.
pub open spec fn magnitude(s: Seq<u8>) -> nat
    decreases s.len(),
{
    if s.len() == 0 {
        0
    } else if is_digit(s.last()) {
        magnitude(s.drop_last()) * 10 + (s.last() - ZERO) as nat
    } else {
        magnitude(s.drop_last())
    }
}

/// An integer payload: negative where its first byte is `-`.
pub open spec fn int_value(s: Seq<u8>) -> int {
    if s.len() > 0 && s[0] == MINUS {
        -magnitude(s)
    } else {
        magnitude(s) as int
    }
}

proof fn lemma_magnitude_grows(s: Seq<u8>, i: int, j: int)
    requires
        0 <= i <= j <= s.len(),
    ensures
        magnitude(s.take(i)) <= magnitude(s.take(j)),
    decreases j - i,
{
    if i < j {
        lemma_magnitude_grows(s, i, j - 1);
        assert(s.take(j).drop_last() =~= s.take(j - 1));
    }
}

/// Parses a signed decimal payload: a leading `-` makes it negative, the
/// digit bytes make up its magnitude, and every other byte (a terminator)
/// is ignored. `None` where the value does not fit an `isize`.
pub fn parse_int(bytes: &[u8]) -> (r: Option<isize>)
    ensures
        magnitude(bytes@) <= isize::MAX ==> r == Some(int_value(bytes@) as isize),
        magnitude(bytes@) > isize::MAX ==> r is None,
{
    let mut acc: isize = 0;
    let mut i: usize = 0;
    while i < bytes.len()
        invariant
            0 <= i <= bytes@.len(),
            acc as int == magnitude(bytes@.take(i as int)),
        decreases bytes@.len() - i,
    {
        let b = bytes[i];
        assert(bytes@.take(i + 1).drop_last() =~= bytes@.take(i as int));
        if ZERO <= b && b <= 57 {
            let d = (b - ZERO) as isize;
            match acc.checked_mul(10) {
                Some(t) => match t.checked_add(d) {
                    Some(v) => {
                        acc = v;
                    },
                    None => {
                        proof {
                            lemma_magnitude_grows(bytes@, i + 1, bytes@.len() as int);
                            assert(bytes@.take(bytes@.len() as int) =~= bytes@);
                        }
                        return None;
                    },
                },
                None => {
                    proof {
                        lemma_magnitude_grows(bytes@, i + 1, bytes@.len() as int);
                        assert(bytes@.take(bytes@.len() as int) =~= bytes@);
                    }
                    return None;
                },
            }
        }
        i += 1;
    }
    assert(bytes@.take(bytes@.len() as int) =~= bytes@);
    if bytes.len() > 0 && bytes[0] == MINUS {
        Some(-acc)
    } else {
        Some(acc)
    }
}

/// Reads a signed decimal payload as `parse_int` does, for a payload whose
/// value fits an `isize`.
pub fn ascii_to_int(bytes: &[u8]) -> (r: isize)
    requires
        magnitude(bytes@) <= isize::MAX,
    ensures
        r == int_value(bytes@),
{
    match parse_int(bytes) {
        Some(v) => v,
        None => 0,
    }
}

/// A failure report of the controller: the text of the whole reply.
#[derive(Debug, Clone)]
pub struct Error {
    pub message: String,
}

/// Why one request to the controller did not succeed.
#[derive(Debug, Clone)]
pub enum ClientError {
    /// The connection failed before the reply came.
    Transport,
    /// The controller answered with a failure reply.
    Rejected(Error),
    /// The reply could not be decoded: too short, an unknown status digit,
    /// an integer out of range, or failure text that is not UTF-8.
    Malformed,
    /// The motor ended its enable sequence faulted.
    Faulted,
}

/// Whether a reply is a failure report.
pub open spec fn is_failure(reply: Seq<u8>) -> bool {
    reply.len() > RESULT_IDX && reply[RESULT_IDX as int] == FAILED_REPLY
}

/// Relies on `std::str::from_utf8`: it accepts exactly the valid UTF-8
/// byte strings and then holds the characters they encode.
#[verifier::external_body]
fn utf8_text(bytes: &[u8]) -> (r: Option<String>)
    ensures
        r is Some <==> valid_utf8(bytes@),
        r matches Some(t) ==> t@ == decode_utf8(bytes@),
{
    match std::str::from_utf8(bytes) {
        Ok(t) => Some(t.to_string()),
        Err(_) => None,
    }
}

/// Whether a reply reports success: it holds a discriminator byte, and that
/// byte is not `?`.
pub open spec fn reply_ok(reply: Seq<u8>) -> bool {
    reply.len() > RESULT_IDX && !is_failure(reply)
}

/// The error that a reply which is not a success stands for: `Rejected` with
/// the reply's whole text where it is a failure report in UTF-8, `Malformed`
/// otherwise.
pub open spec fn reports_failure(reply: Seq<u8>, e: ClientError) -> bool {
    if is_failure(reply) && valid_utf8(reply) {
        e matches ClientError::Rejected(x) && x.message@ == decode_utf8(reply)
    } else {
        e is Malformed
    }
}

/// Checks the discriminator byte of a reply. A failure reply becomes
/// `Rejected`, carrying the reply's whole text; a reply too short to hold
/// the discriminator, or a failure reply that is not UTF-8, is `Malformed`.
pub fn check_reply(reply: &[u8]) -> (r: Result<(), ClientError>)
    ensures
        r is Ok <==> reply_ok(reply@),
        r matches Err(e) ==> reports_failure(reply@, e),
{
    if reply.len() <= RESULT_IDX as usize {
        return Err(ClientError::Malformed);
    }
    if reply[RESULT_IDX as usize] != FAILED_REPLY {
        return Ok(());
    }
    match utf8_text(reply) {
        Some(message) => Err(ClientError::Rejected(Error { message })),
        None => Err(ClientError::Malformed),
    }
}

/// Finds where the first complete frame in `buf` ends: the index just past
/// its carriage return, or `None` while no carriage return has arrived.
pub fn frame_end(buf: &[u8]) -> (r: Option<usize>)
    ensures
        r matches Some(n) ==> 0 < n <= buf@.len() && buf@[n - 1] == CR
            && forall|j: int| 0 <= j < n - 1 ==> buf@[j] != CR,
        r is None ==> forall|j: int| 0 <= j < buf@.len() ==> buf@[j] != CR,
{
    let mut i: usize = 0;
    while i < buf.len()
        invariant
            0 <= i <= buf@.len(),
            forall|j: int| 0 <= j < i ==> buf@[j] != CR,
        decreases buf@.len() - i,
    {
        if buf[i] == CR {
            return Some(i + 1);
        }
        i += 1;
    }
    None
}

/// Takes the first complete frame off the front of the bytes read so far:
/// everything up to and including the first carriage return. Leaves `buf`
/// as it was and returns `None` while no carriage return has arrived.
pub fn take_frame(buf: &mut Vec<u8>) -> (r: Option<Vec<u8>>)
    ensures
        r is None <==> forall|j: int| 0 <= j < old(buf)@.len() ==> old(buf)@[j] != CR,
        r is None ==> final(buf)@ == old(buf)@,
        r matches Some(f) ==> f@.len() > 0 && f@.last() == CR
            && (forall|j: int| 0 <= j < f@.len() - 1 ==> f@[j] != CR)
            && old(buf)@ == f@ + final(buf)@,
{
    match frame_end(buf.as_slice()) {
        None => None,
        Some(n) => {
            let mut rest = buf.split_off(n);
            std::mem::swap(buf, &mut rest);
            assert(old(buf)@ =~= rest@ + buf@);
            Some(rest)
        },
    }
}

} // verus!
