//! Matching observed records against queries by their kind.

use crate::tls::record::{ALERT, APPLICATION_DATA, CHANGE_CIPHER_SPEC, HANDSHAKE, HEARTBEAT};
use vstd::prelude::*;

verus! {

/// The kind of a record, for matching: its content type and, for a handshake
/// message, its handshake type where it is known.
#[derive(Clone, Copy, Debug, PartialEq, Eq, Hash, Structural)]
pub enum TlsQueryMatcher {
    ChangeCipherSpec,
    Alert,
    Handshake(Option<u8>),
    ApplicationData,
    Heartbeat,
}

/// What the payload of a record was parsed as.
#[derive(Clone, Copy, Debug, PartialEq, Eq, Structural)]
pub enum PayloadKind {
    /// A handshake message of the given handshake type.
    Handshake(u8),
    /// A handshake message of TLS 1.2 that is encrypted.
    EncryptedHandshake,
    /// Anything else.
    Other,
}

/// No kind can be extracted from a record.
#[derive(Clone, Copy, Debug, PartialEq, Eq, Structural)]
pub enum QueryError {
    Extraction,
}

/// A query without a handshake type matches every handshake message; a
/// query with one matches only the messages of that type.
pub open spec fn handshake_type_matches(own: Option<u8>, query: Option<u8>) -> bool {
    query is None || own == query
}

impl TlsQueryMatcher {
    /// The matcher matches the query: both are of one content type, and for
    /// handshake messages the handshake types match.
    pub open spec fn matches_spec(self, query: TlsQueryMatcher) -> bool {
        match query {
            TlsQueryMatcher::Handshake(queried) => self matches TlsQueryMatcher::Handshake(own)
                && handshake_type_matches(own, queried),
            _ => self == query,
        }
    }

    /// How specific the matcher is: 2 for a handshake message of a known
    /// type, 1 for any handshake message, 0 for any other kind.
    pub open spec fn specificity_spec(self) -> u32 {
        match self {
            TlsQueryMatcher::Handshake(Some(_)) => 2,
            TlsQueryMatcher::Handshake(None) => 1,
            _ => 0,
        }
    }

    /// The kind of a record of the given content type whose payload was
    /// parsed as `parsed`, or not parsed at all.
    pub open spec fn of_record(content_type: u8, parsed: Option<PayloadKind>) -> Result<
        TlsQueryMatcher,
        QueryError,
    > {
        if content_type == HANDSHAKE {
            match parsed {
                Some(PayloadKind::Handshake(typ)) => Ok(TlsQueryMatcher::Handshake(Some(typ))),
                Some(PayloadKind::EncryptedHandshake) => Ok(TlsQueryMatcher::Handshake(None)),
                Some(PayloadKind::Other) => Err(QueryError::Extraction),
                None => Ok(TlsQueryMatcher::Handshake(None)),
            }
        } else if content_type == APPLICATION_DATA {
            Ok(TlsQueryMatcher::ApplicationData)
        } else if content_type == HEARTBEAT {
            Ok(TlsQueryMatcher::Heartbeat)
        } else if content_type == ALERT {
            Ok(TlsQueryMatcher::Alert)
        } else if content_type == CHANGE_CIPHER_SPEC {
            Ok(TlsQueryMatcher::ChangeCipherSpec)
        } else {
            Err(QueryError::Extraction)
        }
    }

    /// Does the matcher match the query?
    pub fn matches(&self, query: &TlsQueryMatcher) -> (b: bool)
        ensures
            b == self.matches_spec(*query),
    {
        match query {
            TlsQueryMatcher::Handshake(queried) => match self {
                TlsQueryMatcher::Handshake(own) => match queried {
                    None => true,
                    Some(asked) => match own {
                        None => false,
                        Some(typ) => *typ == *asked,
                    },
                },
                _ => false,
            },
            TlsQueryMatcher::ChangeCipherSpec => match self {
                TlsQueryMatcher::ChangeCipherSpec => true,
                _ => false,
            },
            TlsQueryMatcher::Alert => match self {
                TlsQueryMatcher::Alert => true,
                _ => false,
            },
            TlsQueryMatcher::Heartbeat => match self {
                TlsQueryMatcher::Heartbeat => true,
                _ => false,
            },
            TlsQueryMatcher::ApplicationData => match self {
                TlsQueryMatcher::ApplicationData => true,
                _ => false,
            },
        }
    }

    /// How specific the matcher is.
    pub fn specificity(&self) -> (n: u32)
        ensures
            n == self.specificity_spec(),
    {
        match self {
            TlsQueryMatcher::Handshake(handshake_type) => 1 + match handshake_type {
                None => 0,
                Some(_) => 1,
            },
            _ => 0,
        }
    }

    /// The kind of a record of the given content type whose payload was
    /// parsed as `parsed`, or not parsed at all.
    pub fn try_from(content_type: u8, parsed: Option<PayloadKind>) -> (r: Result<
        TlsQueryMatcher,
        QueryError,
    >)
        ensures
            r == Self::of_record(content_type, parsed),
    {
        if content_type == HANDSHAKE {
            match parsed {
                Some(PayloadKind::Handshake(typ)) => Ok(TlsQueryMatcher::Handshake(Some(typ))),
                Some(PayloadKind::EncryptedHandshake) => Ok(TlsQueryMatcher::Handshake(None)),
                Some(PayloadKind::Other) => Err(QueryError::Extraction),
                None => Ok(TlsQueryMatcher::Handshake(None)),
            }
        } else if content_type == APPLICATION_DATA {
            Ok(TlsQueryMatcher::ApplicationData)
        } else if content_type == HEARTBEAT {
            Ok(TlsQueryMatcher::Heartbeat)
        } else if content_type == ALERT {
            Ok(TlsQueryMatcher::Alert)
        } else if content_type == CHANGE_CIPHER_SPEC {
            Ok(TlsQueryMatcher::ChangeCipherSpec)
        } else {
            Err(QueryError::Extraction)
        }
    }
}

/// A matcher matches itself, and a query matches only what is at least as
/// specific as itself.
pub proof fn lemma_matching(matcher: TlsQueryMatcher, query: TlsQueryMatcher)
    ensures
        matcher.matches_spec(matcher),
        matcher.matches_spec(query) ==> matcher.specificity_spec() >= query.specificity_spec(),
{
}

} // verus!
