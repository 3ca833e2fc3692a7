use vstd::prelude::*;
use vstd::string::StringExecFns;
use vstd::utf8::{encode_utf8, is_scalar};

use crate::codes::SqlReturn;

verus! {

/// The vendor name that prefixes every diagnostic message of this driver.
pub const VENDOR_IDENTIFIER: &'static str = "MongoDB";

/// A five-character SQL state code.
#[derive(Debug, Clone, Copy, PartialEq, Eq, Structural)]
pub enum SQLState {
    /// Optional feature not implemented.
    HYC00,
}

impl SQLState {
    /// The five characters of the code.
    pub open spec fn spec_code(self) -> Seq<char> {
        match self {
            SQLState::HYC00 => "HYC00"@,
        }
    }

    pub fn as_str(&self) -> (r: &'static str)
        ensures
            r@ == self.spec_code(),
    {
        match self {
            SQLState::HYC00 => "HYC00",
        }
    }
}

/// A diagnostic record kept on a handle.
#[derive(Debug)]
pub enum ODBCError {
    /// The entry point with this name is not implemented.
    Unimplemented(String),
}

/// The message text of the notice that the entry point `name` is not implemented.
pub open spec fn unimplemented_message(name: Seq<char>) -> Seq<char> {
    "["@ + VENDOR_IDENTIFIER@ + "][API] The feature "@ + name + " is not implemented"@
}

impl ODBCError {
    pub open spec fn spec_sql_state(&self) -> SQLState {
        match self {
            ODBCError::Unimplemented(_) => SQLState::HYC00,
        }
    }

    pub open spec fn spec_message(&self) -> Seq<char> {
        match self {
            ODBCError::Unimplemented(name) => unimplemented_message(name@),
        }
    }

    pub open spec fn spec_native_err_code(&self) -> i32 {
        match self {
            ODBCError::Unimplemented(_) => 0,
        }
    }

    pub fn get_sql_state(&self) -> (r: SQLState)
        ensures
            r == self.spec_sql_state(),
    {
        match self {
            ODBCError::Unimplemented(_) => SQLState::HYC00,
        }
    }

    pub fn get_error_message(&self) -> (r: String)
        ensures
            r@ == self.spec_message(),
    {
        match self {
            ODBCError::Unimplemented(name) => {
                let mut msg = String::from_str("[");
                msg.append(VENDOR_IDENTIFIER);
                msg.append("][API] The feature ");
                msg.append(name.as_str());
                msg.append(" is not implemented");
                msg
            },
        }
    }

    pub fn get_native_err_code(&self) -> (r: i32)
        ensures
            r == self.spec_native_err_code(),
    {
        match self {
            ODBCError::Unimplemented(_) => 0,
        }
    }

    /// The record as copied out in the wide (UTF-16) encoding, with a
    /// message buffer of `buffer_length` units: the SQL state, the native
    /// code, and as much of the message as fits with its terminator. A
    /// surrogate pair is kept or left out whole, so what is copied is the
    /// encoding of a prefix of the message's characters.
    pub fn get_diag_rec(&self, buffer_length: i16) -> (r: DiagRec<u16>)
        requires
            buffer_length >= 0,
        ensures
            ({
                let units = utf16_encode(self.spec_message());
                let n = wide_copy_len(units, buffer_length as int);
                &&& r.status == copy_status(units.len() as int, buffer_length as int)
                &&& r.text_length as int == n
                &&& r.message@ == copied_text(units, n, buffer_length as int, 0u16)
                &&& r.sql_state@ == utf16_encode(self.spec_sql_state().spec_code()).push(0u16)
                &&& r.native_error == self.spec_native_err_code()
            }),
            r.status == SqlReturn::Success <==> buffer_length > utf16_encode(
                self.spec_message(),
            ).len(),
            r.status == SqlReturn::SuccessWithInfo <==> buffer_length <= utf16_encode(
                self.spec_message(),
            ).len(),
            r.message@.len() <= buffer_length,
            0 <= r.text_length <= buffer_length,
            !splits_pair(utf16_encode(self.spec_message()), r.text_length as int),
            buffer_length > 0 ==> exists|k: int|
                0 <= k <= self.spec_message().len() && r.message@ == #[trigger] utf16_encode(
                    self.spec_message().take(k),
                ).push(0u16),
    {
        let msg = self.get_error_message();
        let units = to_wide(msg.as_str());
        let copy = copy_message_wide(units.as_slice(), buffer_length as usize);
        proof {
            let chars = self.spec_message();
            lemma_wide_copy_keeps_characters(chars, buffer_length as int);
            if buffer_length > 0 {
                let k = choose|k: int|
                    0 <= k <= chars.len() && #[trigger] utf16_encode(chars.take(k))
                        == utf16_encode(chars).take(wide_copy_len(utf16_encode(chars), buffer_length as int));
                assert(copy.text@ == utf16_encode(chars.take(k)).push(0u16));
            }
        }
        let mut sql_state = to_wide(self.get_sql_state().as_str());
        sql_state.push(0u16);
        DiagRec {
            status: copy.status,
            sql_state,
            native_error: self.get_native_err_code(),
            message: copy.text,
            text_length: copy.text_length as i16,
        }
    }

    /// The record as copied out in the narrow (UTF-8) encoding, with a
    /// message buffer of `buffer_length` bytes.
    pub fn get_diag_rec_narrow(&self, buffer_length: i16) -> (r: DiagRec<u8>)
        requires
            buffer_length >= 0,
        ensures
            ({
                let units = encode_utf8(self.spec_message());
                let n = narrow_copy_len(units.len() as int, buffer_length as int);
                &&& r.status == copy_status(units.len() as int, buffer_length as int)
                &&& r.text_length as int == n
                &&& r.message@ == copied_text(units, n, buffer_length as int, 0u8)
                &&& r.sql_state@ == encode_utf8(self.spec_sql_state().spec_code()).push(0u8)
                &&& r.native_error == self.spec_native_err_code()
            }),
    {
        let msg = self.get_error_message();
        let units = to_narrow(msg.as_str());
        let copy = copy_message_narrow(units.as_slice(), buffer_length as usize);
        let mut sql_state = to_narrow(self.get_sql_state().as_str());
        sql_state.push(0u8);
        DiagRec {
            status: copy.status,
            sql_state,
            native_error: self.get_native_err_code(),
            message: copy.text,
            text_length: copy.text_length as i16,
        }
    }
}

/// The UTF-16 code units of one character: one unit inside the basic
/// multilingual plane, a high and a low surrogate above it.
pub open spec fn utf16_char(c: char) -> Seq<u16> {
    let v = c as u32;
    if v < 0x10000 {
        seq![v as u16]
    } else {
        seq![(0xD800 + (v - 0x10000) / 0x400) as u16, (0xDC00 + (v - 0x10000) % 0x400) as u16]
    }
}

/// The UTF-16 encoding of a character sequence.
pub open spec fn utf16_encode(s: Seq<char>) -> Seq<u16>
    decreases s.len(),
{
    if s.len() == 0 {
        Seq::empty()
    } else {
        utf16_char(s[0]) + utf16_encode(s.drop_first())
    }
}

/// Relies on `str::encode_utf16`: the UTF-16 code units of the string, in order.
#[verifier::external_body]
fn encode_wide(s: &str) -> (r: Vec<u16>)
    ensures
        r@ == utf16_encode(s@),
{
    s.encode_utf16().collect()
}

/// The wide (UTF-16) form of a string.
pub fn to_wide(s: &str) -> (r: Vec<u16>)
    ensures
        r@ == utf16_encode(s@),
{
    encode_wide(s)
}

/// The narrow (UTF-8) form of a string.
pub fn to_narrow(s: &str) -> (r: Vec<u8>)
    ensures
        r@ == encode_utf8(s@),
{
    vstd::slice::slice_to_vec(s.as_bytes())
}

pub open spec fn is_high_surrogate(u: u16) -> bool {
    0xD800 <= u < 0xDC00
}

pub open spec fn is_low_surrogate(u: u16) -> bool {
    0xDC00 <= u < 0xE000
}

/// Cutting `units` after its first `n` units would part a high surrogate
/// from the low surrogate that follows it.
pub open spec fn splits_pair(units: Seq<u16>, n: int) -> bool {
    0 < n < units.len() && is_high_surrogate(units[n - 1]) && is_low_surrogate(units[n])
}

/// How many code units of a narrow message go into a buffer of `capacity`
/// units, one of which is kept for the terminator.
pub open spec fn narrow_copy_len(len: int, capacity: int) -> int {
    if capacity <= 0 {
        0
    } else if capacity > len {
        len
    } else {
        capacity - 1
    }
}

/// How many code units of a wide message go into a buffer of `capacity`
/// units, one of which is kept for the terminator, where a surrogate pair is
/// never cut in two: when the cut would fall inside one, its high half stays
/// out as well.
pub open spec fn wide_copy_len(units: Seq<u16>, capacity: int) -> int {
    if capacity <= 0 {
        0
    } else if capacity > units.len() {
        units.len() as int
    } else if capacity >= 2 && is_high_surrogate(units[capacity - 2]) {
        capacity - 2
    } else {
        capacity - 1
    }
}

/// What lands in the caller's buffer: the first `n` units and a terminator,
/// or nothing at all where the buffer has no room.
pub open spec fn copied_text<T>(units: Seq<T>, n: int, capacity: int, nul: T) -> Seq<T> {
    if capacity <= 0 {
        Seq::empty()
    } else {
        units.take(n).push(nul)
    }
}

/// The whole message fits, terminator included, exactly when the buffer is
/// longer than the message.
pub open spec fn copy_status(len: int, capacity: int) -> SqlReturn {
    if capacity > len {
        SqlReturn::Success
    } else {
        SqlReturn::SuccessWithInfo
    }
}

/// A message as copied into a caller's buffer.
#[derive(Debug)]
pub struct MessageCopy<T> {
    /// The units written to the buffer, terminator included.
    pub text: Vec<T>,
    /// The number of message units written, terminator excluded.
    pub text_length: usize,
    pub status: SqlReturn,
}

/// A diagnostic record as copied out to a caller, in code units of type `T`.
#[derive(Debug)]
pub struct DiagRec<T> {
    pub status: SqlReturn,
    /// The SQL state code and a terminator; empty unless a record was found.
    pub sql_state: Vec<T>,
    pub native_error: i32,
    /// The units written to the message buffer, terminator included.
    pub message: Vec<T>,
    /// The number of message units written, terminator excluded.
    pub text_length: i16,
}

fn copy_prefix<T: Copy>(units: &[T], n: usize, nul: T) -> (r: Vec<T>)
    requires
        n <= units@.len(),
    ensures
        r@ == units@.take(n as int).push(nul),
{
    let mut out: Vec<T> = Vec::new();
    let mut i: usize = 0;
    while i < n
        invariant
            n <= units@.len(),
            i <= n,
            out@ == units@.take(i as int),
        decreases n - i,
    {
        out.push(units[i]);
        i = i + 1;
        proof {
            assert(out@ =~= units@.take(i as int));
        }
    }
    out.push(nul);
    out
}

/// Copies a narrow message into a buffer of `capacity` units.
pub fn copy_message_narrow(units: &[u8], capacity: usize) -> (r: MessageCopy<u8>)
    ensures
        r.text_length == narrow_copy_len(units@.len() as int, capacity as int),
        r.text@ == copied_text(units@, r.text_length as int, capacity as int, 0u8),
        r.text@.len() <= capacity,
        r.status == copy_status(units@.len() as int, capacity as int),
{
    let len = units.len();
    let n: usize = if capacity == 0 {
        0
    } else if capacity > len {
        len
    } else {
        capacity - 1
    };
    let text = if capacity == 0 {
        Vec::new()
    } else {
        copy_prefix(units, n, 0u8)
    };
    let status = if capacity > len {
        SqlReturn::Success
    } else {
        SqlReturn::SuccessWithInfo
    };
    MessageCopy { text, text_length: n, status }
}

/// Copies a wide message into a buffer of `capacity` units, keeping each
/// surrogate pair whole.
pub fn copy_message_wide(units: &[u16], capacity: usize) -> (r: MessageCopy<u16>)
    ensures
        r.text_length == wide_copy_len(units@, capacity as int),
        r.text@ == copied_text(units@, r.text_length as int, capacity as int, 0u16),
        r.text@.len() <= capacity,
        r.status == copy_status(units@.len() as int, capacity as int),
        !splits_pair(units@, r.text_length as int),
{
    let len = units.len();
    let n: usize = if capacity == 0 {
        0
    } else if capacity > len {
        len
    } else if capacity >= 2 && 0xD800 <= units[capacity - 2] && units[capacity - 2] < 0xDC00 {
        capacity - 2
    } else {
        capacity - 1
    };
    let text = if capacity == 0 {
        Vec::new()
    } else {
        copy_prefix(units, n, 0u16)
    };
    let status = if capacity > len {
        SqlReturn::Success
    } else {
        SqlReturn::SuccessWithInfo
    };
    MessageCopy { text, text_length: n, status }
}

/// A cut of the UTF-16 encoding of `s` that parts no surrogate pair falls
/// between two characters: what stays is the encoding of a prefix of `s`.
pub proof fn lemma_cut_between_characters(s: Seq<char>, n: int)
    requires
        0 <= n <= utf16_encode(s).len(),
        !splits_pair(utf16_encode(s), n),
    ensures
        exists|k: int| 0 <= k <= s.len() && #[trigger] utf16_encode(s.take(k)) == utf16_encode(s).take(n),
    decreases s.len(),
{
    if n == 0 {
        assert(s.take(0) =~= Seq::<char>::empty());
        assert(utf16_encode(s.take(0)) =~= utf16_encode(s).take(0));
    } else {
        let c = s[0];
        let rest = s.drop_first();
        let u = utf16_char(c);
        let v = c as u32;
        assert(is_scalar(v)) by {
            vstd::utf8::char_is_scalar(c);
        }
        assert(utf16_encode(s) == u + utf16_encode(rest));
        let m = n - u.len();
        if u.len() == 2 {
            assert(is_high_surrogate(u[0]) && is_low_surrogate(u[1]));
            assert(n != 1);
        }
        assert(m >= 0);
        assert(!splits_pair(utf16_encode(rest), m)) by {
            if 0 < m < utf16_encode(rest).len() {
                assert(utf16_encode(s)[n - 1] == utf16_encode(rest)[m - 1]);
                assert(utf16_encode(s)[n] == utf16_encode(rest)[m]);
            }
        }
        lemma_cut_between_characters(rest, m);
        let k = choose|k: int| 0 <= k <= rest.len() && #[trigger] utf16_encode(rest.take(k)) == utf16_encode(rest).take(m);
        let p = s.take(k + 1);
        assert(p[0] == c);
        assert(p.drop_first() =~= rest.take(k));
        assert(utf16_encode(p) == u + utf16_encode(rest.take(k)));
        assert(utf16_encode(p) =~= utf16_encode(s).take(n));
    }
}

/// The units that `copy_message_wide` copies from the UTF-16 encoding of a
/// message are the encoding of a prefix of the message: no character is cut.
pub proof fn lemma_wide_copy_keeps_characters(s: Seq<char>, capacity: int)
    ensures
        exists|k: int| 0 <= k <= s.len() && #[trigger] utf16_encode(s.take(k)) == utf16_encode(s).take(
            wide_copy_len(utf16_encode(s), capacity),
        ),
{
    let units = utf16_encode(s);
    let n = wide_copy_len(units, capacity);
    assert(0 <= n <= units.len());
    if splits_pair(units, n) {
        assert(capacity > 0 && capacity <= units.len());
        if capacity >= 2 && is_high_surrogate(units[capacity - 2]) {
            assert(!is_low_surrogate(units[n]));
        }
    }
    lemma_cut_between_characters(s, n);
}

} // verus!
