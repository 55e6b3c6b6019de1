//! The upgrades: two flags for each, with nothing between them.

use crate::error::Error;
use crate::flags::{encode_flags, encode_flags_spec, flag_failure, lemma_flags_round_trip};
use crate::pairs::pair_up;
use crate::record::{
    first_failure, lemma_all_succeed, lemma_next_field, lemma_no_failure, none_fails,
};
use crate::text::{chars_of, plain};
use vstd::prelude::*;

verus! {

/// The state of an upgrade.
#[derive(Clone, Copy, Debug, PartialEq, Eq)]
pub struct Upgrade {
    pub unlocked: bool,
    pub bought: bool,
}

/// The upgrades that the first `pairs` pairs of characters of `s` write,
/// where none of the characters fails.
pub open spec fn upgrades_of(s: Seq<char>, pairs: nat) -> Seq<Upgrade> {
    Seq::new(pairs, |j: int| Upgrade { unlocked: s[2 * j] == '1', bought: s[2 * j + 1] == '1' })
}

/// What decoding `s` as upgrades gives: the failure of the first
/// character in a pair that is no flag; else, where a character is left
/// over behind the pairs, a failure for want of data; else the upgrades.
#[verifier::opaque]
pub open spec fn decode_upgrades_spec(s: Seq<char>) -> Result<Seq<Upgrade>, Error> {
    let pairs = s.len() / 2;
    match first_failure(|i: int| flag_failure(s, i), 0, 2 * pairs as int) {
        Some(e) => Err(e),
        None => if s.len() % 2 == 1 {
            Err(Error::InsufficientData)
        } else {
            Ok(upgrades_of(s, pairs))
        },
    }
}

/// The flags of the upgrades in a row: for each whether it is unlocked
/// and whether it is bought.
pub open spec fn upgrade_flags(upgrades: Seq<Upgrade>) -> Seq<bool> {
    Seq::new(
        2 * upgrades.len(),
        |i: int|
            if i % 2 == 0 {
                upgrades[i / 2].unlocked
            } else {
                upgrades[i / 2].bought
            },
    )
}

/// The text of the upgrades: two characters for each.
#[verifier::opaque]
pub open spec fn encode_upgrades_spec(upgrades: Seq<Upgrade>) -> Seq<char> {
    encode_flags_spec(upgrade_flags(upgrades))
}

/// Decodes the upgrades from their flags, two characters at a time, until
/// the text is used up. A character in a pair that is no flag ends the
/// decoding at once; a character that is left over behind the last pair
/// makes it fail for want of data.
pub fn decode_upgrades(text: &str) -> (r: Result<Vec<Upgrade>, Error>)
    ensures
        match decode_upgrades_spec(text@) {
            Ok(upgrades) => r matches Ok(v) && v@ == upgrades,
            Err(e) => r matches Err(f) && f == e,
        },
{
    proof {
        reveal(decode_upgrades_spec);
    }
    let chars = chars_of(text);
    let n: usize = chars.len();
    let pairs = pair_up(chars);
    let ghost failure = |i: int| flag_failure(text@, i);
    let mut upgrades: Vec<Upgrade> = Vec::new();
    let mut j: usize = 0;
    while j < pairs.len()
        invariant
            j <= pairs.len(),
            n == text@.len(),
            pairs@.len() == n / 2,
            forall|k: int|
                0 <= k < pairs@.len() ==> (#[trigger] pairs@[k]).0 == text@[2 * k] && pairs@[k].1
                    == text@[2 * k + 1],
            failure == (|i: int| flag_failure(text@, i)),
            none_fails(failure, 2 * j),
            upgrades@ == upgrades_of(text@, j as nat),
        decreases pairs.len() - j,
    {
        let (first, second) = pairs[j];
        proof {
            reveal(decode_upgrades_spec);
            lemma_next_field(failure, 2 * (n / 2), 2 * j);
        }
        let unlocked = if first == '1' {
            true
        } else if first == '0' {
            false
        } else {
            return Err(Error::Bool);
        };
        proof {
            lemma_next_field(failure, 2 * (n / 2), 2 * j + 1);
        }
        let bought = if second == '1' {
            true
        } else if second == '0' {
            false
        } else {
            return Err(Error::Bool);
        };
        upgrades.push(Upgrade { unlocked, bought });
        proof {
            assert(upgrades@ =~= upgrades_of(text@, (j + 1) as nat));
        }
        j += 1;
    }
    proof {
        lemma_no_failure(failure, 2 * (n / 2));
    }
    if n % 2 == 1 {
        Err(Error::InsufficientData)
    } else {
        Ok(upgrades)
    }
}

/// Encodes the upgrades: two flags for each, with nothing between them.
pub fn encode_upgrades(upgrades: &Vec<Upgrade>) -> (text: String)
    ensures
        text@ == encode_upgrades_spec(upgrades@),
{
    proof {
        reveal(encode_upgrades_spec);
    }
    let mut flags: Vec<bool> = Vec::new();
    let mut j: usize = 0;
    while j < upgrades.len()
        invariant
            j <= upgrades.len(),
            flags.len() == 2 * j,
            flags@ == upgrade_flags(upgrades@.take(j as int)),
        decreases upgrades.len() - j,
    {
        let ghost before = flags@;
        flags.push(upgrades[j].unlocked);
        flags.push(upgrades[j].bought);
        proof {
            let goal = upgrade_flags(upgrades@.take(j + 1));
            assert forall|i: int| 0 <= i < flags@.len() implies flags@[i] == goal[i] by {
                if i < 2 * j {
                    assert(flags@[i] == before[i]);
                    assert(upgrades@.take(j as int)[i / 2] == upgrades@.take(j + 1)[i / 2]);
                }
            }
            assert(flags@ =~= goal);
        }
        j += 1;
    }
    proof {
        assert(upgrades@.take(j as int) =~= upgrades@);
    }
    encode_flags(&flags)
}

/// Decoding the text of upgrades gives the upgrades, and the text is plain.
pub proof fn lemma_upgrades_round_trip(upgrades: Seq<Upgrade>)
    ensures
        decode_upgrades_spec(encode_upgrades_spec(upgrades)) == Ok::<Seq<Upgrade>, Error>(
            upgrades,
        ),
        plain(encode_upgrades_spec(upgrades)),
{
    reveal(decode_upgrades_spec);
    reveal(encode_upgrades_spec);
    let flags = upgrade_flags(upgrades);
    let text = encode_flags_spec(flags);
    let n = upgrades.len();
    lemma_flags_round_trip(flags, flags.len());
    assert((2 * n) / 2 == n && (2 * n) % 2 == 0);
    assert forall|j: int| 0 <= j < n implies upgrades_of(text, n)[j] == upgrades[j] by {
        assert((2 * j) / 2 == j && (2 * j + 1) / 2 == j);
        assert((2 * j) % 2 == 0 && (2 * j + 1) % 2 == 1);
    }
    assert(upgrades_of(text, n) =~= upgrades);
}

/// A text of upgrades that decodes, cut off in the middle of a pair, fails
/// for want of data.
pub proof fn lemma_upgrades_truncated(text: Seq<char>, k: int)
    requires
        decode_upgrades_spec(text) is Ok,
        0 <= k < text.len(),
        k % 2 == 1,
    ensures
        decode_upgrades_spec(text.take(k)) == Err::<Seq<Upgrade>, Error>(Error::InsufficientData),
{
    reveal(decode_upgrades_spec);
    let failure = |i: int| flag_failure(text, i);
    lemma_all_succeed(failure, 0, 2 * (text.len() as int / 2));
    let cut = text.take(k);
    let after = |i: int| flag_failure(cut, i);
    assert forall|j: int| 0 <= j < k - 1 implies (#[trigger] after(j)) is None by {
        assert(failure(j) is None);
    }
    lemma_no_failure(after, k - 1);
    assert(2 * (cut.len() / 2) == k - 1);
}

} // verus!
