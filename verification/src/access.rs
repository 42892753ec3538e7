//! Central access error context and narrow rate-limit classification.

use vstd::prelude::*;
use vstd::string::StringExecFns;

use crate::native::NativePath;
use crate::text;
use crate::text::{chars_of, slice_contains, slice_lower};

verus! {

/// The operation that failed.
#[derive(Debug, Clone, Copy, PartialEq, Eq, Structural)]
pub enum AccessOperation {
    DirectoryTraversal,
    MountMetadata,
    MountOpen,
    MountRead,
    CacheMetadataPoll,
    CacheOpen,
    CacheRead,
}

/// A failed access: what was attempted, on which path, with what result.
#[derive(Debug)]
pub struct AccessError {
    pub operation: AccessOperation,
    pub path: NativePath,
    /// The system's message.
    pub source: String,
    pub rate_limited: bool,
}

/// The name of an operation.
pub open spec fn operation_name(operation: AccessOperation) -> Seq<char> {
    match operation {
        AccessOperation::DirectoryTraversal => "DirectoryTraversal"@,
        AccessOperation::MountMetadata => "MountMetadata"@,
        AccessOperation::MountOpen => "MountOpen"@,
        AccessOperation::MountRead => "MountRead"@,
        AccessOperation::CacheMetadataPoll => "CacheMetadataPoll"@,
        AccessOperation::CacheOpen => "CacheOpen"@,
        AccessOperation::CacheRead => "CacheRead"@,
    }
}

/// A message, in any mixture of cases, that speaks of a rate limit or a quota.
pub open spec fn speaks_of_limit(message: Seq<char>) -> bool {
    let m = text::lower_all(message);
    ||| text::contains_text(m, "http 403"@)
    ||| text::contains_text(m, "http 429"@)
    ||| text::contains_text(m, "quota exceeded"@)
    ||| text::contains_text(m, "user-rate-limit exceeded"@)
    ||| text::contains_text(m, "user rate limit exceeded"@)
    ||| text::contains_text(m, "rate-limit exceeded"@)
    ||| text::contains_text(m, "rate limit exceeded"@)
}

/// A failure that a remote's rate limit explains.
pub open spec fn is_rate_limited(message: Seq<char>, code: Option<i32>) -> bool {
    code == Some(403i32) || code == Some(429i32) || speaks_of_limit(message)
}

fn holds(m: &[char], phrase: &str) -> (r: bool)
    ensures
        r == text::contains_text(m@, phrase@),
{
    let p = chars_of(phrase);
    slice_contains(m, p.as_slice())
}

/// Classify a failed access by the system's message and error code.
pub fn classify(
    operation: AccessOperation,
    path: NativePath,
    message: String,
    code: Option<i32>,
) -> (r: AccessError)
    ensures
        r.operation == operation,
        r.path@ == path@,
        r.source@ == message@,
        r.rate_limited == is_rate_limited(message@, code),
{
    let all = chars_of(message.as_str());
    let low = slice_lower(all.as_slice());
    let m = low.as_slice();
    let by_code = match code {
        Some(c) => c == 403 || c == 429,
        None => false,
    };
    let rate_limited = by_code || holds(m, "http 403") || holds(m, "http 429") || holds(
        m,
        "quota exceeded",
    ) || holds(m, "user-rate-limit exceeded") || holds(m, "user rate limit exceeded") || holds(
        m,
        "rate-limit exceeded",
    ) || holds(m, "rate limit exceeded");
    AccessError { operation, path, source: message, rate_limited }
}

impl AccessError {
    /// The failure in words, given its path as displayed.
    pub fn describe(&self, shown: &str) -> (r: String)
        ensures
            r@ == operation_name(self.operation) + " "@ + shown@ + ": "@ + self.source@,
    {
        let mut r = match self.operation {
            AccessOperation::DirectoryTraversal => "DirectoryTraversal".to_string(),
            AccessOperation::MountMetadata => "MountMetadata".to_string(),
            AccessOperation::MountOpen => "MountOpen".to_string(),
            AccessOperation::MountRead => "MountRead".to_string(),
            AccessOperation::CacheMetadataPoll => "CacheMetadataPoll".to_string(),
            AccessOperation::CacheOpen => "CacheOpen".to_string(),
            AccessOperation::CacheRead => "CacheRead".to_string(),
        };
        r.append(" ");
        r.append(shown);
        r.append(": ");
        r.append(self.source.as_str());
        r
    }
}

/// The classification ignores the case of a message and the operation that failed.
pub proof fn law_case_is_ignored(one: Seq<char>, other: Seq<char>, code: Option<i32>)
    requires
        text::lower_all(one) == text::lower_all(other),
    ensures
        is_rate_limited(one, code) == is_rate_limited(other, code),
{
}

/// The words by which a remote says that its limit is reached.
pub open spec fn limit_phrase(w: Seq<char>) -> bool {
    ||| text::same_but_case(w, "http 403"@)
    ||| text::same_but_case(w, "http 429"@)
    ||| text::same_but_case(w, "quota exceeded"@)
    ||| text::same_but_case(w, "rate-limit exceeded"@)
    ||| text::same_but_case(w, "rate limit exceeded"@)
}

/// A failure is a rate limit's exactly when its code is 403 or 429, or when its message
/// holds, anywhere and in any mixture of cases, one of the words for it. Any other code
/// decides nothing.
pub proof fn law_rate_limits(message: Seq<char>, code: Option<i32>)
    ensures
        is_rate_limited(message, code) <==> {
            ||| code == Some(403i32)
            ||| code == Some(429i32)
            ||| exists|i: int, j: int|
                0 <= i <= j <= message.len() && limit_phrase(#[trigger] message.subrange(i, j))
        },
{
    reveal_strlit("http 403");
    reveal_strlit("http 429");
    reveal_strlit("quota exceeded");
    reveal_strlit("user-rate-limit exceeded");
    reveal_strlit("user rate limit exceeded");
    reveal_strlit("rate-limit exceeded");
    reveal_strlit("rate limit exceeded");
    let m = text::lower_all(message);
    lemma_phrase(message, "http 403"@);
    lemma_phrase(message, "http 429"@);
    lemma_phrase(message, "quota exceeded"@);
    lemma_phrase(message, "rate-limit exceeded"@);
    lemma_phrase(message, "rate limit exceeded"@);
    assert("user-rate-limit exceeded"@.skip(5) =~= "rate-limit exceeded"@);
    assert("user rate limit exceeded"@.skip(5) =~= "rate limit exceeded"@);
    lemma_longer(m, "user-rate-limit exceeded"@, "rate-limit exceeded"@);
    lemma_longer(m, "user rate limit exceeded"@, "rate limit exceeded"@);
}

proof fn lemma_longer(m: Seq<char>, long: Seq<char>, short: Seq<char>)
    requires
        long.skip(5) == short,
        long.len() == short.len() + 5,
    ensures
        text::contains_text(m, long) ==> text::contains_text(m, short),
{
    text::law_occurrence(m, long, 0);
    text::law_occurrence(m, short, 0);
    if text::contains_text(m, long) {
        let (a, b) = choose|a: Seq<char>, b: Seq<char>| m == #[trigger] (a + long + b);
        assert(m == (a + long.take(5)) + short + b);
    }
}

proof fn lemma_phrase(message: Seq<char>, phrase: Seq<char>)
    requires
        phrase.len() > 0,
        forall|i: int| 0 <= i < phrase.len() ==> !('A' <= #[trigger] phrase[i] <= 'Z'),
    ensures
        text::contains_text(text::lower_all(message), phrase) <==> exists|i: int, j: int|
            0 <= i <= j <= message.len() && text::same_but_case(
                #[trigger] message.subrange(i, j),
                phrase,
            ),
{
    let m = text::lower_all(message);
    text::law_occurrence(m, phrase, 0);
    assert(m.len() == message.len());
    assert(text::lower_all(phrase) =~= phrase);
    if text::contains_text(m, phrase) {
        let (a, b) = choose|a: Seq<char>, b: Seq<char>| m == #[trigger] (a + phrase + b);
        let i = a.len() as int;
        let j = i + phrase.len();
        let w = message.subrange(i, j);
        assert(text::lower_all(w) =~= phrase) by {
            assert forall|k: int| 0 <= k < phrase.len() implies text::lower_all(w)[k]
                == phrase[k] by {
                assert(m[i + k] == phrase[k]);
            }
        }
        text::law_case_of_letters(w, phrase);
        assert(text::same_but_case(message.subrange(i, j), phrase));
    }
    if exists|i: int, j: int|
        0 <= i <= j <= message.len() && text::same_but_case(
            #[trigger] message.subrange(i, j),
            phrase,
        ) {
        let (i, j) = choose|i: int, j: int|
            0 <= i <= j <= message.len() && text::same_but_case(
                #[trigger] message.subrange(i, j),
                phrase,
            );
        let w = message.subrange(i, j);
        text::law_case_of_letters(w, phrase);
        assert(text::lower_all(w) == phrase);
        assert forall|k: int| 0 <= k < phrase.len() implies m[i + k] == #[trigger] phrase[k] by {
            assert(text::lower_all(w)[k] == text::lower(w[k]));
        }
        assert(m =~= m.take(i) + phrase + m.skip(j));
    }
}

/// No two operations have the same name.
pub proof fn law_operation_names_differ(a: AccessOperation, b: AccessOperation)
    ensures
        operation_name(a) == operation_name(b) <==> a == b,
{
    reveal_strlit("DirectoryTraversal");
    reveal_strlit("MountMetadata");
    reveal_strlit("MountOpen");
    reveal_strlit("MountRead");
    reveal_strlit("CacheMetadataPoll");
    reveal_strlit("CacheOpen");
    reveal_strlit("CacheRead");
    assert("DirectoryTraversal"@.len() == 18);
    assert("MountMetadata"@.len() == 13);
    assert("CacheMetadataPoll"@.len() == 17);
    assert("MountOpen"@[5] == 'O' && "MountRead"@[5] == 'R');
    assert("CacheOpen"@[5] == 'O' && "CacheRead"@[5] == 'R');
    assert("CacheOpen"@[0] == 'C' && "CacheRead"@[0] == 'C');
    assert("MountOpen"@[0] == 'M' && "MountRead"@[0] == 'M');
}

} // verus!
