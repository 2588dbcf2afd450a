//! The semantic field enumerations of an identifier and the mappings
//! between them and their small integer codes.
//!
//! Each enumeration is closed and bound to fixed codes. Translating a code
//! into a variant is total only through an explicit fallback: an unknown
//! universe or kind code degrades to `Invalid`, an unknown instance code to
//! `All`.

use vstd::prelude::*;

verus! {

/// Top-level namespace an account belongs to.
#[derive(Clone, Copy, PartialEq, Eq, Structural, Debug)]
pub enum Universe {
    Invalid,
    Public,
    Beta,
    Internal,
    Dev,
}

/// Category of entity the identifier names.
#[derive(Clone, Copy, PartialEq, Eq, Structural, Debug)]
pub enum Type {
    Invalid,
    Individual,
    Multiseat,
    GameServer,
    AnonGameServer,
    Pending,
    ContentServer,
    Clan,
    Chat,
    P2PSuperSeeder,
    AnonUser,
}

/// Sub-classification of a session or client. The underlying field in the
/// packed form is 20 bits wide, but only these four values carry names.
#[derive(Clone, Copy, PartialEq, Eq, Structural, Debug)]
pub enum Instance {
    All,
    Desktop,
    Console,
    Web,
}

/// The fixed integer code bound to a universe.
pub open spec fn universe_code(u: Universe) -> u32 {
    match u {
        Universe::Invalid => 0,
        Universe::Public => 1,
        Universe::Beta => 2,
        Universe::Internal => 3,
        Universe::Dev => 4,
    }
}

/// The fixed integer code bound to an account kind.
pub open spec fn type_code(t: Type) -> u32 {
    match t {
        Type::Invalid => 0,
        Type::Individual => 1,
        Type::Multiseat => 2,
        Type::GameServer => 3,
        Type::AnonGameServer => 4,
        Type::Pending => 5,
        Type::ContentServer => 6,
        Type::Clan => 7,
        Type::Chat => 8,
        Type::P2PSuperSeeder => 9,
        Type::AnonUser => 10,
    }
}

/// The fixed integer code bound to an instance.
pub open spec fn instance_code(i: Instance) -> u32 {
    match i {
        Instance::All => 0,
        Instance::Desktop => 1,
        Instance::Console => 2,
        Instance::Web => 4,
    }
}

/// The universe bound to `code`, with the codec's fallback: an
/// unrecognized code degrades to `Invalid`.
pub open spec fn universe_or_invalid(code: u32) -> Universe {
    match code {
        0 => Universe::Invalid,
        1 => Universe::Public,
        2 => Universe::Beta,
        3 => Universe::Internal,
        4 => Universe::Dev,
        _ => Universe::Invalid,
    }
}

/// The account kind bound to `code`, with the codec's fallback: an
/// unrecognized code degrades to `Invalid`.
pub open spec fn type_or_invalid(code: u32) -> Type {
    match code {
        0 => Type::Invalid,
        1 => Type::Individual,
        2 => Type::Multiseat,
        3 => Type::GameServer,
        4 => Type::AnonGameServer,
        5 => Type::Pending,
        6 => Type::ContentServer,
        7 => Type::Clan,
        8 => Type::Chat,
        9 => Type::P2PSuperSeeder,
        10 => Type::AnonUser,
        _ => Type::Invalid,
    }
}

/// The instance bound to `code`, with the codec's fallback: an
/// unrecognized code degrades to `All`.
pub open spec fn instance_or_all(code: u32) -> Instance {
    match code {
        0 => Instance::All,
        1 => Instance::Desktop,
        2 => Instance::Console,
        4 => Instance::Web,
        _ => Instance::All,
    }
}

impl Universe {
    /// The fixed integer code of this universe.
    pub fn code(&self) -> (r: u32)
        ensures
            r == universe_code(*self),
    {
        match self {
            Universe::Invalid => 0,
            Universe::Public => 1,
            Universe::Beta => 2,
            Universe::Internal => 3,
            Universe::Dev => 4,
        }
    }

    /// The universe bound to `value`; `None` for an unrecognized code.
    pub fn from_u32(value: u32) -> (r: Option<Universe>)
        ensures
            r is Some <==> value <= 4,
            r matches Some(u) ==> u == universe_or_invalid(value),
    {
        match value {
            0 => Some(Universe::Invalid),
            1 => Some(Universe::Public),
            2 => Some(Universe::Beta),
            3 => Some(Universe::Internal),
            4 => Some(Universe::Dev),
            _ => None,
        }
    }
}

impl Type {
    /// The account kind bound to `value`; `None` for an unrecognized code.
    pub fn from_u32(value: u32) -> (r: Option<Type>)
        ensures
            r is Some <==> value <= 10,
            r matches Some(t) ==> t == type_or_invalid(value),
    {
        match value {
            0 => Some(Type::Invalid),
            1 => Some(Type::Individual),
            2 => Some(Type::Multiseat),
            3 => Some(Type::GameServer),
            4 => Some(Type::AnonGameServer),
            5 => Some(Type::Pending),
            6 => Some(Type::ContentServer),
            7 => Some(Type::Clan),
            8 => Some(Type::Chat),
            9 => Some(Type::P2PSuperSeeder),
            10 => Some(Type::AnonUser),
            _ => None,
        }
    }
}

impl Instance {
    /// The fixed integer code of this instance.
    pub fn code(&self) -> (r: u32)
        ensures
            r == instance_code(*self),
    {
        match self {
            Instance::All => 0,
            Instance::Desktop => 1,
            Instance::Console => 2,
            Instance::Web => 4,
        }
    }

    /// The instance bound to `value`; `None` for an unrecognized code.
    pub fn from_u32(value: u32) -> (r: Option<Instance>)
        ensures
            r is Some <==> (value == 0 || value == 1 || value == 2 || value == 4),
            r matches Some(i) ==> i == instance_or_all(value),
    {
        match value {
            0 => Some(Instance::All),
            1 => Some(Instance::Desktop),
            2 => Some(Instance::Console),
            4 => Some(Instance::Web),
            _ => None,
        }
    }
}

} // verus!
