use crate::text::{
    chars_of, decimal, lemma_decimal_parses, parse_signed, parse_signed_chars, parse_unsigned,
    parse_unsigned_chars,
};
use crate::value::DataConvertError;
use vstd::prelude::*;
use vstd::std_specs::convert::FromSpecImpl;

verus! {

/// An ECS entity (`legion::Entity`), carried through unchanged.
#[verifier::external_type_specification]
#[verifier::external_body]
pub struct ExEntity(legion::Entity);

/// `Clone` of `legion::Entity`: it may hand back another entity (the one that
/// legion's per-thread clone mapping holds for it), so nothing is claimed of
/// the result.
pub assume_specification[ <legion::Entity as Clone>::clone ](e: &legion::Entity) -> legion::Entity;

/// A key: an index, a number, a text, a large number or an entity.
#[derive(Debug, Clone, PartialEq, Eq, Hash)]
pub enum Key {
    Index(usize),
    Number(i32),
    Text(String),
    U64(u64),
    Entity(legion::Entity),
}

/// `Ok(v)` when `parsed` holds a value, else a wrong-type error.
pub open spec fn parsed_or_wrong_type<T>(parsed: Option<T>) -> Result<T, DataConvertError> {
    match parsed {
        Some(v) => Ok(v),
        None => Err(DataConvertError::WrongType),
    }
}

/// Two keys that stand for the same value: equal indices, numbers, texts or
/// large numbers; any two entities (a cloned entity may be another one).
pub open spec fn same_key(a: Key, b: Key) -> bool {
    match (a, b) {
        (Key::Index(x), Key::Index(y)) => x == y,
        (Key::Number(x), Key::Number(y)) => x == y,
        (Key::Text(x), Key::Text(y)) => x@ == y@,
        (Key::U64(x), Key::U64(y)) => x == y,
        (Key::Entity(_), Key::Entity(_)) => true,
        _ => false,
    }
}

impl Key {
    /// The key as a `usize`: indices as they are, numbers cast, texts parsed,
    /// large numbers when they fit.
    pub fn to_usize(&self) -> (r: Result<usize, DataConvertError>)
        ensures
            r == (match *self {
                Key::Index(v) => Ok(v),
                Key::Number(v) => Ok(v as usize),
                Key::Text(t) => match parse_unsigned(t@, usize::MAX as nat) {
                    Some(x) => Ok(x as usize),
                    None => Err(DataConvertError::WrongType),
                },
                Key::U64(v) => if v <= usize::MAX {
                    Ok(v as usize)
                } else {
                    Err(DataConvertError::WrongType)
                },
                Key::Entity(_) => Err(DataConvertError::WrongType),
            }),
    {
        match self {
            Key::Index(v) => Ok(*v),
            Key::Number(v) => Ok(*v as usize),
            Key::Text(t) => {
                let c = chars_of(t.as_str());
                match parse_unsigned_chars(c.as_slice(), usize::MAX as u64) {
                    Some(x) => Ok(x as usize),
                    None => Err(DataConvertError::WrongType),
                }
            },
            Key::U64(v) => {
                if *v <= usize::MAX as u64 {
                    Ok(*v as usize)
                } else {
                    Err(DataConvertError::WrongType)
                }
            },
            Key::Entity(_) => Err(DataConvertError::WrongType),
        }
    }

    /// The key as an `i32`: indices cast, numbers as they are, texts parsed,
    /// large numbers when they fit.
    pub fn to_i32(&self) -> (r: Result<i32, DataConvertError>)
        ensures
            r == (match *self {
                Key::Index(v) => Ok(v as i32),
                Key::Number(v) => Ok(v),
                Key::Text(t) => match parse_signed(t@, i32::MIN as int, i32::MAX as int) {
                    Some(x) => Ok(x as i32),
                    None => Err(DataConvertError::WrongType),
                },
                Key::U64(v) => if v <= i32::MAX {
                    Ok(v as i32)
                } else {
                    Err(DataConvertError::WrongType)
                },
                Key::Entity(_) => Err(DataConvertError::WrongType),
            }),
    {
        match self {
            Key::Index(v) => Ok(*v as i32),
            Key::Number(v) => Ok(*v),
            Key::Text(t) => {
                let c = chars_of(t.as_str());
                match parse_signed_chars(c.as_slice(), i32::MIN as i64, i32::MAX as i64) {
                    Some(x) => Ok(x as i32),
                    None => Err(DataConvertError::WrongType),
                }
            },
            Key::U64(v) => {
                if *v <= i32::MAX as u64 {
                    Ok(*v as i32)
                } else {
                    Err(DataConvertError::WrongType)
                }
            },
            Key::Entity(_) => Err(DataConvertError::WrongType),
        }
    }

    /// The key as a `u32`: indices cast, non-negative numbers, texts parsed,
    /// large numbers when they fit.
    pub fn to_u32(&self) -> (r: Result<u32, DataConvertError>)
        ensures
            r == (match *self {
                Key::Index(v) => Ok(v as u32),
                Key::Number(v) => if v >= 0 {
                    Ok(v as u32)
                } else {
                    Err(DataConvertError::Negative)
                },
                Key::Text(t) => match parse_unsigned(t@, u32::MAX as nat) {
                    Some(x) => Ok(x as u32),
                    None => Err(DataConvertError::WrongType),
                },
                Key::U64(v) => if v <= u32::MAX {
                    Ok(v as u32)
                } else {
                    Err(DataConvertError::WrongType)
                },
                Key::Entity(_) => Err(DataConvertError::WrongType),
            }),
    {
        match self {
            Key::Index(v) => Ok(*v as u32),
            Key::Number(v) => {
                if *v >= 0 {
                    Ok(*v as u32)
                } else {
                    Err(DataConvertError::Negative)
                }
            },
            Key::Text(t) => {
                let c = chars_of(t.as_str());
                match parse_unsigned_chars(c.as_slice(), u32::MAX as u64) {
                    Some(x) => Ok(x as u32),
                    None => Err(DataConvertError::WrongType),
                }
            },
            Key::U64(v) => {
                if *v <= u32::MAX as u64 {
                    Ok(*v as u32)
                } else {
                    Err(DataConvertError::WrongType)
                }
            },
            Key::Entity(_) => Err(DataConvertError::WrongType),
        }
    }

    /// The key as a `u64`: indices cast, non-negative numbers, texts parsed,
    /// large numbers as they are.
    pub fn to_u64(&self) -> (r: Result<u64, DataConvertError>)
        ensures
            r == (match *self {
                Key::Index(v) => Ok(v as u64),
                Key::Number(v) => if v >= 0 {
                    Ok(v as u64)
                } else {
                    Err(DataConvertError::Negative)
                },
                Key::Text(t) => match parse_unsigned(t@, u64::MAX as nat) {
                    Some(x) => Ok(x as u64),
                    None => Err(DataConvertError::WrongType),
                },
                Key::U64(v) => Ok(v),
                Key::Entity(_) => Err(DataConvertError::WrongType),
            }),
    {
        match self {
            Key::Index(v) => Ok(*v as u64),
            Key::Number(v) => {
                if *v >= 0 {
                    Ok(*v as u64)
                } else {
                    Err(DataConvertError::Negative)
                }
            },
            Key::Text(t) => {
                let c = chars_of(t.as_str());
                match parse_unsigned_chars(c.as_slice(), u64::MAX) {
                    Some(x) => Ok(x),
                    None => Err(DataConvertError::WrongType),
                }
            },
            Key::U64(v) => Ok(*v),
            Key::Entity(_) => Err(DataConvertError::WrongType),
        }
    }

    /// The entity of an entity key.
    pub fn to_entity(self) -> (r: Result<legion::Entity, DataConvertError>)
        ensures
            r == (match self {
                Key::Entity(e) => Ok(e),
                _ => Err(DataConvertError::WrongType),
            }),
    {
        match self {
            Key::Entity(e) => Ok(e),
            _ => Err(DataConvertError::WrongType),
        }
    }

    /// A copy of the key. Indices, numbers, texts and large numbers are copied
    /// as they are; an entity is cloned the way legion clones entities, which
    /// may give another entity.
    pub fn duplicate(&self) -> (r: Key)
        ensures
            same_key(*self, r),
    {
        match self {
            Key::Index(v) => Key::Index(*v),
            Key::Number(v) => Key::Number(*v),
            Key::Text(v) => Key::Text(crate::text::owned(v.as_str())),
            Key::U64(v) => Key::U64(*v),
            Key::Entity(e) => Key::Entity(e.clone()),
        }
    }

    /// A text key holding a copy of `v`.
    pub fn text(v: &str) -> (k: Key)
        ensures
            k matches Key::Text(t) && t@ == v@,
    {
        Key::Text(crate::text::owned(v))
    }
}

impl From<usize> for Key {
    fn from(v: usize) -> Key {
        Key::Index(v)
    }
}

impl FromSpecImpl<usize> for Key {
    open spec fn obeys_from_spec() -> bool {
        true
    }

    open spec fn from_spec(v: usize) -> Key {
        Key::Index(v)
    }
}

impl From<i32> for Key {
    fn from(v: i32) -> Key {
        Key::Number(v)
    }
}

impl FromSpecImpl<i32> for Key {
    open spec fn obeys_from_spec() -> bool {
        true
    }

    open spec fn from_spec(v: i32) -> Key {
        Key::Number(v)
    }
}

impl From<u32> for Key {
    fn from(v: u32) -> Key {
        Key::U64(v as u64)
    }
}

impl FromSpecImpl<u32> for Key {
    open spec fn obeys_from_spec() -> bool {
        true
    }

    open spec fn from_spec(v: u32) -> Key {
        Key::U64(v as u64)
    }
}

impl From<u64> for Key {
    fn from(v: u64) -> Key {
        Key::U64(v)
    }
}

impl FromSpecImpl<u64> for Key {
    open spec fn obeys_from_spec() -> bool {
        true
    }

    open spec fn from_spec(v: u64) -> Key {
        Key::U64(v)
    }
}

impl From<String> for Key {
    fn from(v: String) -> Key {
        Key::Text(v)
    }
}

impl FromSpecImpl<String> for Key {
    open spec fn obeys_from_spec() -> bool {
        true
    }

    open spec fn from_spec(v: String) -> Key {
        Key::Text(v)
    }
}

impl From<legion::Entity> for Key {
    fn from(v: legion::Entity) -> Key {
        Key::Entity(v)
    }
}

impl FromSpecImpl<legion::Entity> for Key {
    open spec fn obeys_from_spec() -> bool {
        true
    }

    open spec fn from_spec(v: legion::Entity) -> Key {
        Key::Entity(v)
    }
}

/// A text key holding a number written in decimal converts back to that
/// number, wherever the number fits the target type.
pub proof fn lemma_text_key_round_trip(n: nat)
    ensures
        parse_unsigned(decimal(n), u64::MAX as nat) == (if n <= u64::MAX {
            Some(n)
        } else {
            None
        }),
        parse_unsigned(decimal(n), u32::MAX as nat) == (if n <= u32::MAX {
            Some(n)
        } else {
            None
        }),
        parse_unsigned(decimal(n), usize::MAX as nat) == (if n <= usize::MAX {
            Some(n)
        } else {
            None
        }),
{
    lemma_decimal_parses(n);
}

} // verus!
