//! Boundaries for multipart forms: four pseudo-random numbers of 64 bits,
//! each as sixteen lower-case hexadecimal digits, joined by hyphens.
//!
//! The numbers only have to be unlikely to occur in the content of a form;
//! they are no secret.

use std::collections::hash_map::RandomState;
use std::hash::BuildHasher;
use vstd::prelude::*;
use vstd::string::{StrSliceExecFns, StringExecFns};

verus! {

/// The state that follows `state` in the generator.
pub open spec fn next_state(state: u64) -> u64 {
    let a = state ^ (state >> 12);
    let b = a ^ (a << 25);
    b ^ (b >> 27)
}

/// The number that the generator gives out when it reaches `state`.
pub open spec fn output(state: u64) -> u64 {
    vstd::wrapping::u64_specs::wrapping_mul(state, 0x2545_f491_4f6c_dd1d)
}

/// The generator never reaches zero unless it starts there.
pub proof fn lemma_next_state_is_not_zero(state: u64)
    requires
        state != 0,
    ensures
        next_state(state) != 0,
{
    let a = state ^ (state >> 12);
    let b = a ^ (a << 25);
    assert(a != 0) by (bit_vector)
        requires
            state != 0,
            a == state ^ (state >> 12),
    ;
    assert(b != 0) by (bit_vector)
        requires
            a != 0,
            b == a ^ (a << 25),
    ;
    assert(b ^ (b >> 27) != 0) by (bit_vector)
        requires
            b != 0,
    ;
}

/// Moves the generator one state on and gives out the number of the state
/// reached. From a state other than zero it never reaches zero.
pub fn random(state: &mut u64) -> (number: u64)
    ensures
        *final(state) == next_state(*old(state)),
        number == output(next_state(*old(state))),
        *old(state) != 0 ==> *final(state) != 0,
{
    proof {
        if *state != 0 {
            lemma_next_state_is_not_zero(*state);
        }
    }
    let mut n: u64 = *state;
    n = n ^ (n >> 12);
    n = n ^ (n << 25);
    n = n ^ (n >> 27);
    *state = n;
    n.wrapping_mul(0x2545_f491_4f6c_dd1d)
}

/// The lower-case hexadecimal digit for a value below sixteen.
pub open spec fn hex_lower(nibble: u64) -> char {
    if nibble < 10 {
        (0x30 + nibble) as u8 as char
    } else {
        (0x57 + nibble) as u8 as char
    }
}

/// The sixteen hexadecimal digits of a number, the highest first.
pub open spec fn hex16(number: u64) -> Seq<char> {
    Seq::new(16, |i: int| hex_lower((number >> ((60 - 4 * i) as u64)) & 0xf))
}

/// The boundary made of four numbers.
pub open spec fn boundary_of(a: u64, b: u64, c: u64, d: u64) -> Seq<char> {
    hex16(a) + seq!['-'] + hex16(b) + seq!['-'] + hex16(c) + seq!['-'] + hex16(d)
}

/// Whether the text has the shape of a boundary.
pub open spec fn is_boundary(text: Seq<char>) -> bool {
    exists|a: u64, b: u64, c: u64, d: u64| text == boundary_of(a, b, c, d)
}

fn hex_digit(nibble: u64) -> (digit: &'static str)
    requires
        nibble < 16,
    ensures
        digit@ == seq![hex_lower(nibble)],
{
    proof {
        reveal_strlit("0123456789abcdef");
    }
    let digits = "0123456789abcdef";
    let at = nibble as usize;
    let digit = digits.substring_ascii(at, at + 1);
    assert(digit@ =~= seq![hex_lower(nibble)]);
    digit
}

/// Appends the sixteen hexadecimal digits of a number to a text.
fn push_hex16(text: &mut String, number: u64)
    ensures
        final(text)@ == old(text)@ + hex16(number),
{
    let ghost before = text@;
    let mut i: u64 = 0;
    while i < 16
        invariant
            i <= 16,
            text@ == before + hex16(number).take(i as int),
        decreases 16 - i,
    {
        let shift: u64 = 60 - 4 * i;
        let nibble: u64 = (number >> shift) & 0xf;
        assert(nibble < 16) by (bit_vector)
            requires
                nibble == (number >> shift) & 0xf,
        ;
        text.append(hex_digit(nibble));
        proof {
            assert(hex16(number).take(i as int + 1) =~= hex16(number).take(i as int).push(hex_lower(nibble)));
        }
        i = i + 1;
    }
    assert(hex16(number).take(16) =~= hex16(number));
}

/// Makes a boundary from the next four numbers of the generator.
pub fn gen_boundary(state: &mut u64) -> (boundary: String)
    ensures
        *final(state) == next_state(next_state(next_state(next_state(*old(state))))),
        boundary@ == boundary_of(
            output(next_state(*old(state))),
            output(next_state(next_state(*old(state)))),
            output(next_state(next_state(next_state(*old(state))))),
            output(next_state(next_state(next_state(next_state(*old(state)))))),
        ),
        is_boundary(boundary@),
{
    let a = random(state);
    let b = random(state);
    let c = random(state);
    let d = random(state);
    let mut boundary = String::new();
    proof {
        reveal_strlit("-");
    }
    push_hex16(&mut boundary, a);
    boundary.append("-");
    push_hex16(&mut boundary, b);
    boundary.append("-");
    push_hex16(&mut boundary, c);
    boundary.append("-");
    push_hex16(&mut boundary, d);
    boundary
}

/// `RandomState::new`: hashing keys that differ from call to call.
#[verifier::external_body]
fn fresh_keys() -> (keys: RandomState) {
    RandomState::new()
}

/// `BuildHasher::hash_one`: the hash of a number under the given keys.
/// Nothing is known of it but that it is some number.
#[verifier::external_body]
fn hash_under(keys: &RandomState, counter: usize) -> (hash: u64) {
    keys.hash_one(counter)
}

/// A state to start the generator from. It is never zero, from which the
/// generator would not move.
pub fn seed() -> (state: u64)
    ensures
        state != 0,
{
    let keys = fresh_keys();
    let mut out: u64 = 0;
    let mut counter: usize = 0;
    while out == 0 && counter < usize::MAX
        invariant
            counter <= usize::MAX,
        decreases usize::MAX - counter,
    {
        counter = counter + 1;
        out = hash_under(&keys, counter);
    }
    if out == 0 {
        1
    } else {
        out
    }
}

} // verus!
