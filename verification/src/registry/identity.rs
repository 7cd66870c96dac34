//! The identities of loaded renders.

use std::collections::HashSet;
use vstd::prelude::*;
use vstd::set_lib::lemma_len_subset;

verus! {

/// Names one loaded render of a registry. The value is the 128 bits of a UUID.
#[derive(Clone, Copy, Debug, PartialEq, Eq, Hash, Structural)]
pub struct RenderId {
    pub value: u128,
}

/// The text of the UUID whose 128 bits are `value`: 32 lower-case hexadecimal
/// digits, the highest first, in groups of 8, 4, 4, 4 and 12 with `-` between
/// the groups.
pub open spec fn hyphenated(value: u128) -> Seq<char> {
    Seq::new(
        36,
        |i: int|
            if i == 8 || i == 13 || i == 18 || i == 23 {
                '-'
            } else {
                hex_digit(nibble(value, (31 - digit_index(i)) as u128))
            },
    )
}

/// How many digits stand before place `i` of the text of a UUID.
pub open spec fn digit_index(i: int) -> int {
    if i < 8 {
        i
    } else if i < 13 {
        i - 1
    } else if i < 18 {
        i - 2
    } else if i < 23 {
        i - 3
    } else {
        i - 4
    }
}

/// The four bits of `value` that stand `4 * n` bits above the lowest.
pub open spec fn nibble(value: u128, n: u128) -> u128 {
    (value >> (4 * n) as u128) & 0xf
}

/// The lower-case hexadecimal digit for `n`.
pub open spec fn hex_digit(n: u128) -> char {
    if n < 10 {
        (('0' as u8) + n) as char
    } else {
        (('a' as u8) + n - 10) as char
    }
}

/// Whether `value` has the version and variant bits of a random UUID: the
/// version is 4, and the two highest bits of the variant are 1 and 0.
pub open spec fn is_random_uuid(value: u128) -> bool {
    nibble(value, 19) == 4 && nibble(value, 15) >> 2 == 2
}

/// Any 128 bits have the marks of a random UUID once the version and variant
/// bits are set over them, which is how `Uuid::new_v4` makes a UUID from
/// random bits.
pub proof fn lemma_marked_bits_are_a_random_uuid(bits: u128)
    ensures
        is_random_uuid(bits & 0xFFFFFFFFFFFF4FFFBFFFFFFFFFFFFFFF | 0x40008000000000000000),
{
    assert((((bits & 0xFFFFFFFFFFFF4FFFBFFFFFFFFFFFFFFF | 0x40008000000000000000) >> 76u128) & 0xf)
        == 4) by (bit_vector);
    assert(((((bits & 0xFFFFFFFFFFFF4FFFBFFFFFFFFFFFFFFF | 0x40008000000000000000) >> 60u128)
        & 0xf) >> 2) == 2) by (bit_vector);
}

/// A random UUID, as `Uuid::new_v4` of the `uuid` crate returns it, as 128
/// bits. Nothing is claimed of the value but the version and variant bits that
/// every such UUID has. The call panics where the operating system hands out
/// no random bytes.
#[verifier::external_body]
fn random_uuid() -> (value: u128)
    ensures
        is_random_uuid(value),
{
    uuid::Uuid::new_v4().as_u128()
}

/// The text of a UUID, as `Uuid::from_u128` and the `Display` of `Uuid` in the
/// `uuid` crate give it: the hyphenated lower-case form.
#[verifier::external_body]
fn uuid_text(value: u128) -> (text: String)
    ensures
        text@ == hyphenated(value),
{
    uuid::Uuid::from_u128(value).to_string()
}

/// The value `k` steps after `first`, where the step after the highest value
/// leads to zero.
pub open spec fn step_from(first: u128, k: nat) -> u128 {
    if first + k <= u128::MAX {
        (first + k) as u128
    } else {
        (first + k - u128::MAX - 1) as u128
    }
}

/// Whether `free` is the first value, going up from `first`, that is not in
/// `taken`.
pub open spec fn is_first_free(taken: Set<u128>, first: u128, free: u128) -> bool {
    exists|k: nat|
        {
            &&& #[trigger] step_from(first, k) == free
            &&& !taken.contains(free)
            &&& forall|j: nat| j < k ==> taken.contains(#[trigger] step_from(first, j))
        }
}

/// The values up to `n` steps after `first`.
spec fn steps(first: u128, n: nat) -> Set<u128>
    decreases n,
{
    if n == 0 {
        Set::empty()
    } else {
        steps(first, (n - 1) as nat).insert(step_from(first, (n - 1) as nat))
    }
}

proof fn lemma_steps(first: u128, n: nat)
    requires
        n <= u128::MAX,
    ensures
        steps(first, n).finite(),
        steps(first, n).len() == n,
        forall|v: u128|
            steps(first, n).contains(v) <==> exists|j: nat| j < n && #[trigger] step_from(first, j) == v,
    decreases n,
{
    if n > 0 {
        let m = (n - 1) as nat;
        lemma_steps(first, m);
        let last = step_from(first, m);
        assert(!steps(first, m).contains(last)) by {
            if steps(first, m).contains(last) {
                let j = choose|j: nat| j < m && #[trigger] step_from(first, j) == last;
                assert(false);
            }
        }
        assert forall|v: u128| steps(first, n).contains(v) implies exists|j: nat|
            j < n && #[trigger] step_from(first, j) == v by {
            if v == last {
                assert(step_from(first, m) == v);
            } else {
                let j = choose|j: nat| j < m && #[trigger] step_from(first, j) == v;
                assert(j < n && step_from(first, j) == v);
            }
        }
        assert forall|v: u128| (exists|j: nat| j < n && #[trigger] step_from(first, j) == v) implies steps(
            first,
            n,
        ).contains(v) by {
            let j = choose|j: nat| j < n && #[trigger] step_from(first, j) == v;
            if j < m {
                assert(steps(first, m).contains(v));
            }
        }
    }
}

/// Fewer values lie on the way from `first` than `taken` holds, if all of
/// them are in `taken`.
proof fn lemma_steps_fit(taken: Set<u128>, first: u128, n: nat)
    requires
        taken.finite(),
        n <= u128::MAX,
        forall|j: nat| j < n ==> taken.contains(#[trigger] step_from(first, j)),
    ensures
        n <= taken.len(),
{
    lemma_steps(first, n);
    assert(steps(first, n).subset_of(taken)) by {
        assert forall|v: u128| steps(first, n).contains(v) implies taken.contains(v) by {
            let j = choose|j: nat| j < n && #[trigger] step_from(first, j) == v;
        }
    }
    lemma_len_subset(steps(first, n), taken);
}

/// The first value, going up from `first`, that is not in `taken`.
pub(crate) fn first_free(taken: &HashSet<u128>, first: u128) -> (free: u128)
    requires
        taken@.finite(),
    ensures
        is_first_free(taken@, first, free),
{
    let mut free = first;
    let ghost mut k: nat = 0;
    let count = taken.len();
    while taken.contains(&free)
        invariant
            free == step_from(first, k),
            k <= taken@.len() == count,
            taken@.finite(),
            forall|j: nat| j < k ==> taken@.contains(#[trigger] step_from(first, j)),
        decreases taken@.len() - k,
    {
        proof {
            lemma_steps_fit(taken@, first, k + 1);
        }
        free = if free == u128::MAX {
            0
        } else {
            free + 1
        };
        proof {
            k = k + 1;
        }
    }
    assert(step_from(first, k) == free);
    free
}

impl RenderId {
    pub fn from_u128(value: u128) -> (id: RenderId)
        ensures
            id.value == value,
    {
        RenderId { value }
    }

    pub fn as_u128(&self) -> (value: u128)
        ensures
            value == self.value,
    {
        self.value
    }

    /// A random identity.
    pub fn random() -> (id: RenderId)
        ensures
            is_random_uuid(id.value),
    {
        RenderId { value: random_uuid() }
    }

    /// The identity as the text of a UUID.
    pub fn text(&self) -> (text: String)
        ensures
            text@ == hyphenated(self.value),
    {
        uuid_text(self.value)
    }
}

} // verus!
