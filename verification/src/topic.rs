//! Topic names and topic filters with their grammar, validated at
//! construction time.
//!
//! Topics are handled as UTF-8 bytes. The characters the grammar speaks of —
//! `#` (35), `+` (43), `/` (47) and NUL (0) — are ASCII, and no UTF-8
//! continuation byte collides with them, so the byte-level rules coincide
//! with the character-level ones.

use vstd::prelude::*;

use crate::errors::ValidationError;

verus! {

/// A topic name is non-empty and contains no wildcard and no NUL byte.
pub open spec fn valid_topic_name(s: Seq<u8>) -> bool {
    &&& s.len() >= 1
    &&& forall|i: int| 0 <= i < s.len() ==> s[i] != 35 && s[i] != 43 && s[i] != 0
}

/// A topic filter is non-empty, contains no NUL byte, any `#` stands alone
/// in the final level, and any `+` occupies a whole level.
///
/// Kept opaque: the neighbour conditions would otherwise let the solver
/// walk the quantifier from index to index without end.
#[verifier::opaque]
pub open spec fn valid_topic_filter(s: Seq<u8>) -> bool {
    &&& s.len() >= 1
    &&& forall|i: int| 0 <= i < s.len() ==> s[i] != 0
    &&& forall|i: int|
        0 <= i < s.len() && #[trigger] s[i] == 35 ==> i == s.len() - 1 && (i == 0 || s[i - 1]
            == 47)
    &&& forall|i: int|
        0 <= i < s.len() && #[trigger] s[i] == 43 ==> (i == 0 || s[i - 1] == 47) && (i == s.len()
            - 1 || s[i + 1] == 47)
}

/// Decides `valid_topic_name` for a byte string.
pub fn check_topic_name(bytes: &Vec<u8>) -> (r: bool)
    ensures
        r == valid_topic_name(bytes@),
{
    if bytes.len() == 0 {
        return false;
    }
    let mut i: usize = 0;
    while i < bytes.len()
        invariant
            i <= bytes@.len(),
            forall|j: int| 0 <= j < i ==> bytes@[j] != 35 && bytes@[j] != 43 && bytes@[j] != 0,
        decreases bytes@.len() - i,
    {
        let b = bytes[i];
        if b == 35 || b == 43 || b == 0 {
            assert(!valid_topic_name(bytes@));
            return false;
        }
        i += 1;
    }
    true
}

/// Decides `valid_topic_filter` for a byte string.
pub fn check_topic_filter(bytes: &Vec<u8>) -> (r: bool)
    ensures
        r == valid_topic_filter(bytes@),
{
    let n = bytes.len();
    if n == 0 {
        proof {
            reveal(valid_topic_filter);
        }
        return false;
    }
    let mut i: usize = 0;
    while i < n
        invariant
            n == bytes@.len(),
            i <= n,
            forall|j: int| 0 <= j < i ==> bytes@[j] != 0,
            forall|j: int|
                0 <= j < i && #[trigger] bytes@[j] == 35 ==> j == n - 1 && (j == 0 || bytes@[j - 1]
                    == 47),
            forall|j: int|
                0 <= j < i && #[trigger] bytes@[j] == 43 ==> (j == 0 || bytes@[j - 1] == 47) && (j
                    == n - 1 || bytes@[j + 1] == 47),
        decreases n - i,
    {
        let b = bytes[i];
        if b == 0 {
            proof {
                reveal(valid_topic_filter);
                assert(!valid_topic_filter(bytes@));
            }
            return false;
        }
        if b == 35 {
            let level_ok = i == 0 || bytes[i - 1] == 47;
            if !(i == n - 1 && level_ok) {
                proof {
                    reveal(valid_topic_filter);
                    assert(!valid_topic_filter(bytes@));
                }
                return false;
            }
        }
        if b == 43 {
            let before_ok = i == 0 || bytes[i - 1] == 47;
            let after_ok = i == n - 1 || bytes[i + 1] == 47;
            if !(before_ok && after_ok) {
                proof {
                    reveal(valid_topic_filter);
                    assert(!valid_topic_filter(bytes@));
                }
                return false;
            }
        }
        i += 1;
    }
    proof {
        reveal(valid_topic_filter);
    }
    true
}

/// A concrete publish destination: no wildcards, validated at construction.
#[derive(Debug, PartialEq, Eq)]
pub struct TopicName {
    bytes: Vec<u8>,
}

impl Clone for TopicName {
    /// A clone carries the same bytes.
    fn clone(&self) -> (r: Self)
        ensures
            r@ == self@,
    {
        proof {
            use_type_invariant(self);
        }
        let bytes = self.bytes.clone();
        proof {
            assert(bytes@ =~= self.bytes@);
        }
        TopicName { bytes }
    }
}

impl View for TopicName {
    type V = Seq<u8>;

    closed spec fn view(&self) -> Seq<u8> {
        self.bytes@
    }
}

impl TopicName {
    #[verifier::type_invariant]
    spec fn inv(self) -> bool {
        valid_topic_name(self.bytes@)
    }

    /// Validates the topic-name grammar and wraps the bytes; exactly the
    /// byte strings outside the grammar are rejected.
    pub fn new(bytes: Vec<u8>) -> (r: Result<TopicName, ValidationError>)
        ensures
            match r {
                Ok(t) => valid_topic_name(bytes@) && t@ == bytes@,
                Err(e) => !valid_topic_name(bytes@) && e == ValidationError::InvalidTopic,
            },
    {
        if check_topic_name(&bytes) {
            Ok(TopicName { bytes })
        } else {
            Err(ValidationError::InvalidTopic)
        }
    }

    /// The bytes of the name, always grammatical.
    pub fn as_bytes(&self) -> (r: &Vec<u8>)
        ensures
            r@ == self@,
            valid_topic_name(self@),
    {
        proof {
            use_type_invariant(self);
        }
        &self.bytes
    }
}

/// A subscription pattern, possibly with wildcards, validated at
/// construction.
#[derive(Debug, PartialEq, Eq)]
pub struct TopicFilter {
    bytes: Vec<u8>,
}

impl Clone for TopicFilter {
    /// A clone carries the same bytes.
    fn clone(&self) -> (r: Self)
        ensures
            r@ == self@,
    {
        proof {
            use_type_invariant(self);
        }
        let bytes = self.bytes.clone();
        proof {
            assert(bytes@ =~= self.bytes@);
        }
        TopicFilter { bytes }
    }
}

impl View for TopicFilter {
    type V = Seq<u8>;

    closed spec fn view(&self) -> Seq<u8> {
        self.bytes@
    }
}

impl TopicFilter {
    #[verifier::type_invariant]
    spec fn inv(self) -> bool {
        valid_topic_filter(self.bytes@)
    }

    /// Validates the topic-filter grammar and wraps the bytes; exactly the
    /// byte strings outside the grammar are rejected.
    pub fn new(bytes: Vec<u8>) -> (r: Result<TopicFilter, ValidationError>)
        ensures
            match r {
                Ok(t) => valid_topic_filter(bytes@) && t@ == bytes@,
                Err(e) => !valid_topic_filter(bytes@) && e == ValidationError::InvalidTopic,
            },
    {
        if check_topic_filter(&bytes) {
            Ok(TopicFilter { bytes })
        } else {
            Err(ValidationError::InvalidTopic)
        }
    }

    /// The bytes of the filter, always grammatical.
    pub fn as_bytes(&self) -> (r: &Vec<u8>)
        ensures
            r@ == self@,
            valid_topic_filter(self@),
    {
        proof {
            use_type_invariant(self);
        }
        &self.bytes
    }
}

} // verus!
