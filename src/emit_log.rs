use vstd::prelude::*;
use vstd::string::StrSliceExecFns;
use vstd::utf8::encode_utf8;
use crate::codec::{le32, le64, lemma_utf8_length_bound, push_bytes, push_u32, push_u64};
use crate::error::ProgramError;
use crate::identity::Identity;

verus! {

/// Discriminator of an encoded `MyEvent`.
pub const MY_EVENT_DISCRIMINATOR: u64 = 0x945a028bf3c5b860;

/// Discriminator of an encoded `MySecondEvent`.
pub const MY_SECOND_EVENT_DISCRIMINATOR: u64 = 0xa4099c42a9a5d730;

/// An event carrying a number.
#[derive(Debug, Clone, Copy, PartialEq, Eq, Structural)]
pub struct MyEvent {
    pub value: u64,
}

/// An event carrying a number and a message.
#[derive(Debug)]
pub struct MySecondEvent {
    pub value: u64,
    pub message: String,
}

/// The encoded bytes of a `MyEvent` carrying `value`.
pub open spec fn encode_my_event(value: u64) -> Seq<u8> {
    le64(MY_EVENT_DISCRIMINATOR) + le64(value)
}

/// The encoded bytes of a `MySecondEvent` carrying `value` and `message`.
pub open spec fn encode_my_second_event(value: u64, message: Seq<char>) -> Seq<u8> {
    le64(MY_SECOND_EVENT_DISCRIMINATOR) + le64(value) + le32(encode_utf8(message).len() as u32)
        + encode_utf8(message)
}

impl MyEvent {
    /// The event's bytes: discriminator, then the value.
    pub fn encode(&self) -> (r: Vec<u8>)
        ensures
            r@ == encode_my_event(self.value),
    {
        let mut r: Vec<u8> = Vec::new();
        push_u64(&mut r, MY_EVENT_DISCRIMINATOR);
        push_u64(&mut r, self.value);
        r
    }
}

impl MySecondEvent {
    /// The event's bytes: discriminator, value, the message's length and its
    /// UTF-8 bytes. Fails where the message's length does not fit its prefix.
    pub fn encode(&self) -> (r: Result<Vec<u8>, ProgramError>)
        ensures
            encode_utf8(self.message@).len() <= u32::MAX ==> (r matches Ok(bytes) && bytes@
                == encode_my_second_event(self.value, self.message@)),
            encode_utf8(self.message@).len() > u32::MAX ==> r == Err::<Vec<u8>, ProgramError>(
                ProgramError::LengthOverflow,
            ),
    {
        let text = self.message.as_str().as_bytes_vec();
        if text.len() > u32::MAX as usize {
            return Err(ProgramError::LengthOverflow);
        }
        let mut r: Vec<u8> = Vec::new();
        push_u64(&mut r, MY_SECOND_EVENT_DISCRIMINATOR);
        push_u64(&mut r, self.value);
        push_u32(&mut r, text.len() as u32);
        push_bytes(&mut r, text.as_slice());
        Ok(r)
    }
}

/// The accounts of `initialize`: none.
pub struct Initialize {}

/// Emits the program's two events, in order, as the bytes that are logged.
pub fn initialize(_program_id: &Identity, _ctx: &Initialize) -> (r: Vec<Vec<u8>>)
    ensures
        r@.len() == 2,
        r@[0]@ == encode_my_event(12),
        r@[1]@ == encode_my_second_event(3, "hello world"@),
{
    let mut events: Vec<Vec<u8>> = Vec::new();
    events.push(MyEvent { value: 12 }.encode());
    let second = MySecondEvent { value: 3, message: String::from_str("hello world") };
    proof {
        reveal_strlit("hello world");
        lemma_utf8_length_bound(second.message@);
    }
    match second.encode() {
        Ok(bytes) => events.push(bytes),
        Err(_) => {},
    }
    events
}

} // verus!
