use python_packaging::location::AbstractResourceLocation;
use vstd::prelude::*;


verus! {

/// Where resources may be placed, without the concrete path.
#[derive(Debug, Clone, Copy, PartialEq, Eq, Structural)]
pub enum AbstractLocation {
    InMemory,
    RelativePath,
}

/// Where one resource is placed: in memory, or below a filesystem prefix.
#[derive(Debug, Clone, PartialEq, Eq)]
pub enum ConcreteLocation {
    InMemory,
    RelativePath(String),
}

/// The prefix of a concrete location; `None` for memory.
pub open spec fn prefix_of(l: ConcreteLocation) -> Option<Seq<char>> {
    match l {
        ConcreteLocation::InMemory => None,
        ConcreteLocation::RelativePath(p) => Some(p@),
    }
}

/// The kind of a concrete location.
pub open spec fn abstract_of(l: ConcreteLocation) -> AbstractLocation {
    match l {
        ConcreteLocation::InMemory => AbstractLocation::InMemory,
        ConcreteLocation::RelativePath(_) => AbstractLocation::RelativePath,
    }
}

/// The token naming in-memory placement.
pub open spec fn in_memory_token() -> Seq<char> {
    seq!['i', 'n', '-', 'm', 'e', 'm', 'o', 'r', 'y']
}

/// The token naming placement at a filesystem-relative path.
pub open spec fn relative_path_token() -> Seq<char> {
    seq![
        'f', 'i', 'l', 'e', 's', 'y', 's', 't', 'e', 'm', '-', 'r', 'e', 'l', 'a', 't', 'i', 'v',
        'e',
    ]
}

/// The message for a token that names no location: the token, then ` is not a valid resource
/// location`.
pub open spec fn invalid_location_message(token: Seq<char>) -> Seq<char> {
    token + seq![' ', 'i', 's', ' ', 'n', 'o', 't', ' ', 'a', ' ', 'v', 'a', 'l', 'i', 'd', ' ', 'r', 'e', 's', 'o', 'u', 'r', 'c', 'e', ' ', 'l', 'o', 'c', 'a', 't', 'i', 'o', 'n']
}

/// The token that names `l`.
pub open spec fn token_of(l: AbstractLocation) -> Seq<char> {
    match l {
        AbstractLocation::InMemory => in_memory_token(),
        AbstractLocation::RelativePath => relative_path_token(),
    }
}

/// The location a token names, if any.
pub open spec fn parse_spec(token: Seq<char>) -> Option<AbstractLocation> {
    if token == in_memory_token() {
        Some(AbstractLocation::InMemory)
    } else if token == relative_path_token() {
        Some(AbstractLocation::RelativePath)
    } else {
        None
    }
}

/// Relies on `AbstractResourceLocation::try_from(&str)`: it accepts exactly `in-memory` and
/// `filesystem-relative`, and otherwise gives `"{token} is not a valid resource location"`.
#[verifier::external_body]
pub fn parse_location(token: &str) -> (r: Result<AbstractLocation, String>)
    ensures
        match parse_spec(token@) {
            Some(l) => r == Ok::<AbstractLocation, String>(l),
            None => r matches Err(m) && m@ == invalid_location_message(token@),
        },
{
    match AbstractResourceLocation::try_from(token) {
        Ok(AbstractResourceLocation::InMemory) => Ok(AbstractLocation::InMemory),
        Ok(AbstractResourceLocation::RelativePath) => Ok(AbstractLocation::RelativePath),
        Err(e) => Err(e),
    }
}

/// The token that names `l`.
pub fn location_token(l: AbstractLocation) -> (r: String)
    ensures
        r@ == token_of(l),
{
    let r = match l {
        AbstractLocation::InMemory => "in-memory".to_owned(),
        AbstractLocation::RelativePath => "filesystem-relative".to_owned(),
    };
    proof {
        reveal_strlit("in-memory");
        reveal_strlit("filesystem-relative");
    }
    r
}

/// The kind of a concrete location.
pub fn abstract_location(l: &ConcreteLocation) -> (r: AbstractLocation)
    ensures
        r == abstract_of(*l),
{
    match l {
        ConcreteLocation::InMemory => AbstractLocation::InMemory,
        ConcreteLocation::RelativePath(_) => AbstractLocation::RelativePath,
    }
}

} // verus!
