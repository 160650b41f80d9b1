//! The sixteen-key pad and the keys of a host keyboard that stand for it.

use vstd::prelude::*;

verus! {

/// A key of the host keyboard: the sixteen that are bound to the pad, and
/// `Other` for every key that is not.
#[derive(Clone, Copy, Debug, PartialEq, Eq, Structural)]
pub enum HostKey {
    Key1,
    Key2,
    Key3,
    Key4,
    Q,
    W,
    E,
    R,
    A,
    S,
    D,
    F,
    Z,
    X,
    C,
    V,
    Other,
}

/// The pad key that a host key stands for. The left block of a QWERTY
/// keyboard is laid over the pad's rows `123C`, `456D`, `789E`, `A0BF`.
pub open spec fn pad_key(key: HostKey) -> Option<u8> {
    match key {
        HostKey::Key1 => Some(0x1u8),
        HostKey::Key2 => Some(0x2u8),
        HostKey::Key3 => Some(0x3u8),
        HostKey::Key4 => Some(0xCu8),
        HostKey::Q => Some(0x4u8),
        HostKey::W => Some(0x5u8),
        HostKey::E => Some(0x6u8),
        HostKey::R => Some(0xDu8),
        HostKey::A => Some(0x7u8),
        HostKey::S => Some(0x8u8),
        HostKey::D => Some(0x9u8),
        HostKey::F => Some(0xEu8),
        HostKey::Z => Some(0xAu8),
        HostKey::X => Some(0x0u8),
        HostKey::C => Some(0xBu8),
        HostKey::V => Some(0xFu8),
        HostKey::Other => None,
    }
}

/// The pad key that `key` stands for, if it is bound.
pub fn pad_key_of(key: HostKey) -> (k: Option<u8>)
    ensures
        k == pad_key(key),
{
    match key {
        HostKey::Key1 => Some(0x1),
        HostKey::Key2 => Some(0x2),
        HostKey::Key3 => Some(0x3),
        HostKey::Key4 => Some(0xC),
        HostKey::Q => Some(0x4),
        HostKey::W => Some(0x5),
        HostKey::E => Some(0x6),
        HostKey::R => Some(0xD),
        HostKey::A => Some(0x7),
        HostKey::S => Some(0x8),
        HostKey::D => Some(0x9),
        HostKey::F => Some(0xE),
        HostKey::Z => Some(0xA),
        HostKey::X => Some(0x0),
        HostKey::C => Some(0xB),
        HostKey::V => Some(0xF),
        HostKey::Other => None,
    }
}

/// Every bound host key stands for a pad key below 16, and no two stand for
/// the same one.
pub proof fn lemma_pad_keys_distinct(a: HostKey, b: HostKey)
    ensures
        pad_key(a) matches Some(k) ==> k < 16,
        pad_key(a) is Some && pad_key(a) == pad_key(b) ==> a == b,
        pad_key(a) is None <==> a == HostKey::Other,
{
}

} // verus!
