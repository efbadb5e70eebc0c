//! Graph API versions such as `24.0`.
use crate::numeric::{
    decimal, encode_integer, lemma_decimal, lemma_parse_decimal, parse_bounded, parse_unsigned,
};
use crate::text::{join, lemma_split_join, split_at_char, split_on, free_of};
use vstd::prelude::*;
use vstd::string::*;

verus! {

/// The largest value of a version component.
pub const COMPONENT_MAX: u64 = 65535;

/// A Graph API version, `major.minor`.
#[derive(Clone, Copy, Debug, PartialEq, Eq, Structural, PartialOrd, Ord, Hash)]
pub struct GraphApiVersion {
    pub major: u16,
    pub minor: u16,
}

/// The reasons a version text is refused.
#[derive(Clone, Debug, PartialEq, Eq)]
pub enum Error {
    InvalidGraphApiVersion(String),
}

/// The text of a version: its two components in decimal around a dot.
pub open spec fn version_text(major: u16, minor: u16) -> Seq<char> {
    decimal(major as nat).push('.') + decimal(minor as nat)
}

/// The version that a text denotes: exactly two dot-separated components,
/// each an unsigned integer that fits in 16 bits.
pub open spec fn version_of(s: Seq<char>) -> Option<GraphApiVersion> {
    let parts = split_on(s, '.');
    if parts.len() == 2 && parse_unsigned(parts[0], COMPONENT_MAX as nat) is Some
        && parse_unsigned(parts[1], COMPONENT_MAX as nat) is Some {
        Some(
            GraphApiVersion {
                major: parse_unsigned(parts[0], COMPONENT_MAX as nat)->0 as u16,
                minor: parse_unsigned(parts[1], COMPONENT_MAX as nat)->0 as u16,
            },
        )
    } else {
        None
    }
}

/// Decimal text is free of dots.
pub proof fn lemma_decimal_free_of_dot(n: nat)
    ensures
        free_of(decimal(n), '.'),
{
    lemma_decimal(n);
    assert forall|i: int| 0 <= i < decimal(n).len() implies #[trigger] decimal(n)[i] != '.' by {
        assert(crate::numeric::is_digit(decimal(n)[i]));
    }
}

/// The text of a version splits at its dot into the two components.
pub proof fn lemma_version_text_split(v: GraphApiVersion)
    ensures
        split_on(version_text(v.major, v.minor), '.') == seq![
            decimal(v.major as nat),
            decimal(v.minor as nat),
        ],
{
    let parts = seq![decimal(v.major as nat), decimal(v.minor as nat)];
    lemma_decimal_free_of_dot(v.major as nat);
    lemma_decimal_free_of_dot(v.minor as nat);
    assert(parts.drop_last() =~= seq![decimal(v.major as nat)]);
    assert(join(seq![decimal(v.major as nat)], '.') == decimal(v.major as nat));
    assert(join(parts, '.') =~= version_text(v.major, v.minor));
    lemma_split_join(parts, '.');
}

/// Reading the text of a version gives back that version.
pub proof fn lemma_version_round_trip(v: GraphApiVersion)
    ensures
        version_of(version_text(v.major, v.minor)) == Some(v),
{
    lemma_version_text_split(v);
    lemma_parse_decimal(v.major as nat, COMPONENT_MAX as nat);
    lemma_parse_decimal(v.minor as nat, COMPONENT_MAX as nat);
}

impl GraphApiVersion {
    pub fn new(major: u16, minor: u16) -> (r: Self)
        ensures
            r.major == major,
            r.minor == minor,
    {
        GraphApiVersion { major, minor }
    }

    /// Reads a version written as `major.minor`.
    pub fn from_str(s: &str) -> (r: Result<Self, Error>)
        ensures
            match r {
                Ok(v) => version_of(s@) == Some(v),
                Err(Error::InvalidGraphApiVersion(t)) => version_of(s@) is None && t@ == s@,
            },
    {
        let parts = split_at_char(s, '.');
        proof {
            assert(parts@.len() == split_on(s@, '.').len());
        }
        if parts.len() == 2 {
            assert(parts[0]@ == split_on(s@, '.')[0]);
            assert(parts[1]@ == split_on(s@, '.')[1]);
            let major = parse_bounded(parts[0].as_str(), COMPONENT_MAX);
            let minor = parse_bounded(parts[1].as_str(), COMPONENT_MAX);
            match (major, minor) {
                (Some(a), Some(b)) => {
                    return Ok(GraphApiVersion { major: a as u16, minor: b as u16 });
                },
                _ => {},
            }
        }
        Err(Error::InvalidGraphApiVersion(String::from_str(s)))
    }

    /// The text of this version, `major.minor`.
    pub fn to_text(&self) -> (r: String)
        ensures
            r@ == version_text(self.major, self.minor),
    {
        let mut s = encode_integer(self.major as u64);
        s.append(".");
        let minor = encode_integer(self.minor as u64);
        s.append(minor.as_str());
        proof {
            reveal_strlit(".");
        }
        assert(s@ =~= version_text(self.major, self.minor));
        s
    }
}

} // verus!
