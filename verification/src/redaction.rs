//! Keeping secrets out of messages.
use crate::text;
use crate::text::{replaced, texts};
use vstd::prelude::*;

verus! {

/// A message with every occurrence of a secret masked.
pub open spec fn masked(message: Seq<char>, secret: Seq<char>) -> Seq<char> {
    if secret.len() == 0 {
        message
    } else {
        replaced(message, secret, "****"@)
    }
}

/// A message with every occurrence of each of several secrets masked, one secret after the other.
pub open spec fn masked_all(message: Seq<char>, secrets: Seq<Seq<char>>) -> Seq<char>
    decreases secrets.len(),
{
    if secrets.len() == 0 {
        message
    } else {
        masked(masked_all(message, secrets.drop_last()), secrets.last())
    }
}

/// Whether a text occurs in another.
pub open spec fn occurs(part: Seq<char>, whole: Seq<char>) -> bool {
    exists|i: int| occurs_at(part, whole, i)
}

/// Whether a text occurs in another at an index.
pub open spec fn occurs_at(part: Seq<char>, whole: Seq<char>, i: int) -> bool {
    &&& 0 <= i
    &&& i + part.len() <= whole.len()
    &&& forall|k: int| 0 <= k < part.len() ==> #[trigger] part[k] == whole[i + k]
}

/// The message with every occurrence of the secret masked.
pub fn redact_value(message: &str, secret: &str) -> (out: String)
    ensures
        out@ == masked(message@, secret@),
{
    if secret.is_empty() {
        message.to_string()
    } else {
        text::replace(message, secret, "****")
    }
}

/// The message with every occurrence of each value masked.
pub fn redact(values: &[String], message: &str) -> (out: String)
    ensures
        out@ == masked_all(message@, texts(values@)),
{
    let mut out = message.to_string();
    let ghost all = texts(values@);
    let mut i: usize = 0;
    assert(all.take(0) =~= seq![]);
    while i < values.len()
        invariant
            i <= values.len(),
            all == texts(values@),
            out@ == masked_all(message@, all.take(i as int)),
        decreases values.len() - i,
    {
        assert(all.take(i + 1).drop_last() =~= all.take(i as int));
        out = redact_value(out.as_str(), values[i].as_str());
        i += 1;
    }
    assert(all.take(i as int) =~= all);
    out
}

/// Whether two texts have no character in common.
pub open spec fn disjoint(a: Seq<char>, b: Seq<char>) -> bool {
    forall|i: int, j: int|
        0 <= i < a.len() && 0 <= j < b.len() ==> #[trigger] a[i] != #[trigger] b[j]
}

proof fn lemma_prefix_survives(s: Seq<char>, pattern: Seq<char>, with: Seq<char>, part: Seq<char>)
    requires
        pattern.len() > 0,
        with.len() > 0,
        disjoint(part, with),
        occurs_at(part, replaced(s, pattern, with), 0),
    ensures
        occurs_at(part, s, 0),
    decreases s.len(),
{
    if part.len() > 0 && s.len() > 0 {
        if pattern.is_prefix_of(s) {
            let rest = replaced(s.skip(pattern.len() as int), pattern, with);
            assert((with + rest)[0] == with[0]);
            assert(part[0] == replaced(s, pattern, with)[0int + 0]);
        } else {
            let rest = replaced(s.skip(1), pattern, with);
            let tail = part.skip(1);
            assert(replaced(s, pattern, with) == seq![s[0]] + rest);
            assert forall|k: int| 0 <= k < tail.len() implies #[trigger] tail[k] == rest[0 + k] by {
                assert(part[k + 1] == replaced(s, pattern, with)[0 + (k + 1)]);
            }
            assert(disjoint(tail, with)) by {
                assert forall|i: int, j: int|
                    0 <= i < tail.len() && 0 <= j < with.len() implies #[trigger] tail[i]
                    != #[trigger] with[j] by {
                    assert(part[i + 1] != with[j]);
                }
            }
            lemma_prefix_survives(s.skip(1), pattern, with, tail);
            assert forall|k: int| 0 <= k < part.len() implies #[trigger] part[k] == s[0 + k] by {
                if k == 0 {
                    assert(part[0] == replaced(s, pattern, with)[0int + 0]);
                } else {
                    assert(tail[k - 1] == s.skip(1)[0 + (k - 1)]);
                }
            }
        }
    }
}

proof fn lemma_no_new_occurrence(
    s: Seq<char>,
    pattern: Seq<char>,
    with: Seq<char>,
    part: Seq<char>,
    at: int,
)
    requires
        pattern.len() > 0,
        with.len() > 0,
        part.len() > 0,
        disjoint(part, with),
        occurs_at(part, replaced(s, pattern, with), at),
    ensures
        occurs(part, s),
        part != pattern,
    decreases s.len(),
{
    let whole = replaced(s, pattern, with);
    assert(part[0] == whole[at + 0]);
    if pattern.is_prefix_of(s) {
        let n = pattern.len() as int;
        let rest = replaced(s.skip(n), pattern, with);
        assert(whole == with + rest);
        if at < with.len() {
            assert(whole[at] == with[at]);
            assert(part[0] != with[at]);
        }
        let below = at - with.len();
        assert forall|k: int| 0 <= k < part.len() implies #[trigger] part[k] == rest[below + k] by {
            assert(part[k] == whole[at + k]);
        }
        lemma_no_new_occurrence(s.skip(n), pattern, with, part, below);
        let i = choose|i: int| occurs_at(part, s.skip(n), i);
        assert forall|k: int| 0 <= k < part.len() implies #[trigger] part[k] == s[(i + n) + k] by {
            assert(part[k] == s.skip(n)[i + k]);
        }
        assert(occurs_at(part, s, i + n));
    } else {
        let rest = replaced(s.skip(1), pattern, with);
        assert(whole == seq![s[0]] + rest);
        if at == 0 {
            lemma_prefix_survives(s, pattern, with, part);
            if part == pattern {
                assert(part =~= s.subrange(0, part.len() as int)) by {
                    assert forall|k: int| 0 <= k < part.len() implies #[trigger] part[k]
                        == s.subrange(0, part.len() as int)[k] by {
                        assert(part[k] == s[0 + k]);
                    }
                }
            }
        } else {
            let below = at - 1;
            assert forall|k: int| 0 <= k < part.len() implies #[trigger] part[k] == rest[below
                + k] by {
                assert(part[k] == whole[at + k]);
            }
            lemma_no_new_occurrence(s.skip(1), pattern, with, part, below);
            let i = choose|i: int| occurs_at(part, s.skip(1), i);
            assert forall|k: int| 0 <= k < part.len() implies #[trigger] part[k] == s[(i + 1)
                + k] by {
                assert(part[k] == s.skip(1)[i + k]);
            }
            assert(occurs_at(part, s, i + 1));
        }
    }
}

proof fn lemma_mask_disjoint(secret: Seq<char>)
    requires
        !secret.contains('*'),
    ensures
        disjoint(secret, "****"@),
        "****"@.len() == 4,
{
    reveal_strlit("****");
    assert forall|i: int, j: int|
        0 <= i < secret.len() && 0 <= j < "****"@.len() implies #[trigger] secret[i]
        != #[trigger] "****"@[j] by {
        assert("****"@[j] == '*');
        assert(secret.contains(secret[i]));
    }
}

/// A masked message does not hold the secret, whose characters are none of the mask's.
pub proof fn masking_removes_the_secret(message: Seq<char>, secret: Seq<char>)
    requires
        secret.len() > 0,
        !secret.contains('*'),
    ensures
        !occurs(secret, masked(message, secret)),
{
    lemma_mask_disjoint(secret);
    if occurs(secret, masked(message, secret)) {
        let at = choose|i: int| occurs_at(secret, masked(message, secret), i);
        lemma_no_new_occurrence(message, secret, "****"@, secret, at);
    }
}

/// Masking another secret does not bring back one that the message does not hold.
pub proof fn masking_reveals_nothing(message: Seq<char>, other: Seq<char>, secret: Seq<char>)
    requires
        secret.len() > 0,
        !secret.contains('*'),
        !occurs(secret, message),
    ensures
        !occurs(secret, masked(message, other)),
{
    lemma_mask_disjoint(secret);
    if other.len() > 0 && occurs(secret, masked(message, other)) {
        let at = choose|i: int| occurs_at(secret, masked(message, other), i);
        lemma_no_new_occurrence(message, other, "****"@, secret, at);
    }
}

/// A redacted message holds none of the secrets whose characters are none of the mask's.
pub proof fn redaction_removes_every_secret(
    message: Seq<char>,
    secrets: Seq<Seq<char>>,
    secret: Seq<char>,
)
    requires
        secrets.contains(secret),
        secret.len() > 0,
        !secret.contains('*'),
    ensures
        !occurs(secret, masked_all(message, secrets)),
    decreases secrets.len(),
{
    let front = secrets.drop_last();
    if secrets.last() == secret {
        masking_removes_the_secret(masked_all(message, front), secret);
    } else {
        let i = choose|i: int| 0 <= i < secrets.len() && secrets[i] == secret;
        assert(front[i] == secret);
        redaction_removes_every_secret(message, front, secret);
        masking_reveals_nothing(masked_all(message, front), secrets.last(), secret);
    }
}

} // verus!
