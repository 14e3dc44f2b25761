//! Messages: one delivered event or piece of application data, tagged with
//! the type it was made from.
//!
//! A message stores its payload in a closed union. Each type that can travel
//! in a message says how it is stored ([`Content::pack`]) and how it is read
//! back ([`Content::unpack`]); reading back as another type finds nothing.

use vstd::prelude::*;
use crate::event::Event;

verus! {

/// Application data that none of the built-in payloads fits: a kind chosen
/// by the application and the bytes it encoded.
pub struct Custom {
    pub kind: u64,
    pub data: Vec<u8>,
}

/// What a message holds.
pub enum Payload {
    Empty,
    Flag(bool),
    Number(i64),
    Text(String),
    Input(Event),
    Custom(Custom),
}

/// A type whose values can travel in a message: the unit value, `bool`,
/// `i64`, `String`, [`Event`] and [`Custom`]. Application data of any other
/// type travels as [`Custom`].
pub trait Content: Sized {
    /// The payload that stores `self`.
    spec fn pack(self) -> Payload;

    /// The value stored in `payload`, if it was made from this type.
    spec fn unpack(payload: Payload) -> Option<Self>;

    /// Reading back what was stored gives the value that was stored.
    proof fn lemma_unpack_pack(self)
        ensures
            Self::unpack(self.pack()) == Some(self),
    ;

    /// Whatever is read back was stored exactly so.
    proof fn lemma_pack_unpack(payload: Payload)
        ensures
            Self::unpack(payload) matches Some(value) ==> value.pack() == payload,
    ;

    /// Stores `self`.
    fn wrap(self) -> (payload: Payload)
        ensures
            payload == self.pack(),
    ;

    /// Looks at the value stored in `payload`, if it was made from this
    /// type.
    fn peek(payload: &Payload) -> (found: Option<&Self>)
        ensures
            found == borrowed(&Self::unpack(*payload)),
    ;

    /// Takes the value out of `payload` if it was made from this type, and
    /// hands the payload back if not.
    fn take(payload: Payload) -> (taken: Result<Self, Payload>)
        ensures
            taken == (match Self::unpack(payload) {
                Some(value) => Ok::<Self, Payload>(value),
                None => Err::<Self, Payload>(payload),
            }),
    ;
}

/// An optional value seen through a reference.
pub open spec fn borrowed<T>(found: &Option<T>) -> Option<&T> {
    match found {
        Some(value) => Some(value),
        None => None,
    }
}

impl Content for () {
    open spec fn pack(self) -> Payload {
        Payload::Empty
    }

    open spec fn unpack(payload: Payload) -> Option<Self> {
        match payload {
            Payload::Empty => Some(()),
            _ => None,
        }
    }

    proof fn lemma_unpack_pack(self) {
    }

    proof fn lemma_pack_unpack(payload: Payload) {
    }

    fn wrap(self) -> (payload: Payload) {
        Payload::Empty
    }

    fn peek(payload: &Payload) -> (found: Option<&Self>) {
        match payload {
            Payload::Empty => Some(&()),
            _ => None,
        }
    }

    fn take(payload: Payload) -> (taken: Result<Self, Payload>) {
        match payload {
            Payload::Empty => Ok(()),
            other => Err(other),
        }
    }
}

impl Content for bool {
    open spec fn pack(self) -> Payload {
        Payload::Flag(self)
    }

    open spec fn unpack(payload: Payload) -> Option<Self> {
        match payload {
            Payload::Flag(value) => Some(value),
            _ => None,
        }
    }

    proof fn lemma_unpack_pack(self) {
    }

    proof fn lemma_pack_unpack(payload: Payload) {
    }

    fn wrap(self) -> (payload: Payload) {
        Payload::Flag(self)
    }

    fn peek(payload: &Payload) -> (found: Option<&Self>) {
        match payload {
            Payload::Flag(value) => Some(value),
            _ => None,
        }
    }

    fn take(payload: Payload) -> (taken: Result<Self, Payload>) {
        match payload {
            Payload::Flag(value) => Ok(value),
            other => Err(other),
        }
    }
}

impl Content for i64 {
    open spec fn pack(self) -> Payload {
        Payload::Number(self)
    }

    open spec fn unpack(payload: Payload) -> Option<Self> {
        match payload {
            Payload::Number(value) => Some(value),
            _ => None,
        }
    }

    proof fn lemma_unpack_pack(self) {
    }

    proof fn lemma_pack_unpack(payload: Payload) {
    }

    fn wrap(self) -> (payload: Payload) {
        Payload::Number(self)
    }

    fn peek(payload: &Payload) -> (found: Option<&Self>) {
        match payload {
            Payload::Number(value) => Some(value),
            _ => None,
        }
    }

    fn take(payload: Payload) -> (taken: Result<Self, Payload>) {
        match payload {
            Payload::Number(value) => Ok(value),
            other => Err(other),
        }
    }
}

impl Content for String {
    open spec fn pack(self) -> Payload {
        Payload::Text(self)
    }

    open spec fn unpack(payload: Payload) -> Option<Self> {
        match payload {
            Payload::Text(value) => Some(value),
            _ => None,
        }
    }

    proof fn lemma_unpack_pack(self) {
    }

    proof fn lemma_pack_unpack(payload: Payload) {
    }

    fn wrap(self) -> (payload: Payload) {
        Payload::Text(self)
    }

    fn peek(payload: &Payload) -> (found: Option<&Self>) {
        match payload {
            Payload::Text(value) => Some(value),
            _ => None,
        }
    }

    fn take(payload: Payload) -> (taken: Result<Self, Payload>) {
        match payload {
            Payload::Text(value) => Ok(value),
            other => Err(other),
        }
    }
}

impl Content for Event {
    open spec fn pack(self) -> Payload {
        Payload::Input(self)
    }

    open spec fn unpack(payload: Payload) -> Option<Self> {
        match payload {
            Payload::Input(value) => Some(value),
            _ => None,
        }
    }

    proof fn lemma_unpack_pack(self) {
    }

    proof fn lemma_pack_unpack(payload: Payload) {
    }

    fn wrap(self) -> (payload: Payload) {
        Payload::Input(self)
    }

    fn peek(payload: &Payload) -> (found: Option<&Self>) {
        match payload {
            Payload::Input(value) => Some(value),
            _ => None,
        }
    }

    fn take(payload: Payload) -> (taken: Result<Self, Payload>) {
        match payload {
            Payload::Input(value) => Ok(value),
            other => Err(other),
        }
    }
}

impl Content for Custom {
    open spec fn pack(self) -> Payload {
        Payload::Custom(self)
    }

    open spec fn unpack(payload: Payload) -> Option<Self> {
        match payload {
            Payload::Custom(value) => Some(value),
            _ => None,
        }
    }

    proof fn lemma_unpack_pack(self) {
    }

    proof fn lemma_pack_unpack(payload: Payload) {
    }

    fn wrap(self) -> (payload: Payload) {
        Payload::Custom(self)
    }

    fn peek(payload: &Payload) -> (found: Option<&Self>) {
        match payload {
            Payload::Custom(value) => Some(value),
            _ => None,
        }
    }

    fn take(payload: Payload) -> (taken: Result<Self, Payload>) {
        match payload {
            Payload::Custom(value) => Ok(value),
            other => Err(other),
        }
    }
}

/// One delivered event or piece of application data.
pub struct Message {
    value: Payload,
}

impl View for Message {
    type V = Payload;

    closed spec fn view(&self) -> Payload {
        self.value
    }
}

impl Message {
    /// Wraps `value`.
    pub fn new<T: Content>(value: T) -> (message: Message)
        ensures
            message@ == value.pack(),
    {
        Message { value: value.wrap() }
    }

    /// The message that says nothing: it wraps the unit value.
    pub fn empty() -> (message: Message)
        ensures
            message@ == Payload::Empty,
    {
        Message::new(())
    }

    /// The payload, if it was made from a `T`.
    pub fn as_ref<T: Content>(&self) -> (found: Option<&T>)
        ensures
            found == borrowed(&T::unpack(self@)),
    {
        T::peek(&self.value)
    }

    /// Takes the payload out if it was made from a `T`, and hands the
    /// message back unchanged if not.
    pub fn downcast<T: Content>(self) -> (taken: Result<Box<T>, Message>)
        ensures
            match taken {
                Ok(value) => T::unpack(self@) == Some(*value),
                Err(message) => T::unpack(self@) is None && message == self,
            },
    {
        match T::take(self.value) {
            Ok(value) => Ok(Box::new(value)),
            Err(value) => Err(Message { value }),
        }
    }

    /// Whether the payload was made from a `T`.
    pub fn is<T: Content>(&self) -> (yes: bool)
        ensures
            yes == T::unpack(self@).is_some(),
    {
        T::peek(&self.value).is_some()
    }
}

/// A message made from a value reads back as that value under its own
/// type, by reference or by value.
pub proof fn lemma_message_round_trip<T: Content>(value: T, message: Message)
    requires
        message@ == value.pack(),
    ensures
        T::unpack(message@) == Some(value),
        borrowed(&T::unpack(message@)) == Some(&value),
{
    value.lemma_unpack_pack();
}

/// Two values of one type that make the same message are the same value.
pub proof fn lemma_pack_injective<T: Content>(first: T, second: T)
    requires
        first.pack() == second.pack(),
    ensures
        first == second,
{
    first.lemma_unpack_pack();
    second.lemma_unpack_pack();
}

/// Every payload reads back under exactly one of the built-in types.
pub proof fn lemma_one_reader(payload: Payload)
    ensures
        (if <() as Content>::unpack(payload) is Some {
            1int
        } else {
            0int
        }) + (if <bool as Content>::unpack(payload) is Some {
            1int
        } else {
            0int
        }) + (if <i64 as Content>::unpack(payload) is Some {
            1int
        } else {
            0int
        }) + (if <String as Content>::unpack(payload) is Some {
            1int
        } else {
            0int
        }) + (if <Event as Content>::unpack(payload) is Some {
            1int
        } else {
            0int
        }) + (if <Custom as Content>::unpack(payload) is Some {
            1int
        } else {
            0int
        }) == 1,
{
}

} // verus!
