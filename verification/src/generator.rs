//! The password generator: a fixed pool of the printable ASCII characters and
//! passwords drawn from it at random.

use crate::error::VaultError;
use rand::Rng;
use vstd::prelude::*;

verus! {

/// The number of characters in the pool.
pub const POOL_SIZE: usize = 94;

/// The characters with the codes `first` to `last`, in rising order.
pub open spec fn char_run(first: u8, last: u8) -> Seq<char> {
    Seq::new((last - first + 1) as nat, |i: int| ((first + i) as u8) as char)
}

/// The pool, in its fixed order: the upper-case letters, the lower-case
/// letters, the digits, then the four runs of punctuation between them.
pub open spec fn pool() -> Seq<char> {
    char_run(0x41, 0x5A) + char_run(0x61, 0x7A) + char_run(0x30, 0x39) + char_run(0x21, 0x2F)
        + char_run(0x3A, 0x40) + char_run(0x5B, 0x60) + char_run(0x7B, 0x7E)
}

/// A printable ASCII character other than the space: `!` to `~`.
pub open spec fn is_pool_char(c: char) -> bool {
    '!' <= c <= '~'
}

/// Where in the pool a pool character stands.
pub open spec fn pool_position(c: char) -> int {
    let code = (c as u32) as int;
    if 0x41 <= code <= 0x5A {
        code - 0x41
    } else if 0x61 <= code <= 0x7A {
        26 + code - 0x61
    } else if 0x30 <= code <= 0x39 {
        52 + code - 0x30
    } else if 0x21 <= code <= 0x2F {
        62 + code - 0x21
    } else if 0x3A <= code <= 0x40 {
        77 + code - 0x3A
    } else if 0x5B <= code <= 0x60 {
        84 + code - 0x5B
    } else {
        90 + code - 0x7B
    }
}

/// The pool holds each printable, non-space ASCII character exactly once,
/// and nothing else.
pub proof fn lemma_pool_is_printable_ascii()
    ensures
        pool().len() == POOL_SIZE,
        pool().no_duplicates(),
        forall|c: char| pool().contains(c) <==> is_pool_char(c),
{
    let p = pool();
    assert(p.len() == 94);
    assert forall|i: int| 0 <= i < 94 implies is_pool_char(#[trigger] p[i]) && pool_position(p[i])
        == i by {}
    assert forall|i: int, j: int| 0 <= i < 94 && 0 <= j < 94 && i != j implies p[i] != p[j] by {
        assert(pool_position(p[i]) == i);
        assert(pool_position(p[j]) == j);
    }
    assert forall|c: char| is_pool_char(c) implies p.contains(c) by {
        let code = (c as u32) as u8;
        assert(code as char == c);
        assert(p[pool_position(c)] == code as char);
    }
}

/// The generator owned by the running thread, from `rand`.
#[verifier::external_type_specification]
#[verifier::external_body]
pub struct ExThreadRng(rand::rngs::ThreadRng);

/// `rand::thread_rng` hands out the thread's generator, seeded by the
/// system on first use; it panics only where the system cannot seed it.
/// Nothing is claimed of the generator it returns.
pub assume_specification[ rand::thread_rng ]() -> (rng: rand::rngs::ThreadRng);

/// `String::push` appends one character to the end of the string.
pub assume_specification[ String::push ](text: &mut String, ch: char)
    ensures
        final(text)@ == old(text)@.push(ch),
;

/// Draws a number below `bound` with `Rng::gen_range` on `0..bound`. The
/// range must not be empty, else `gen_range` panics. Beyond that it panics
/// only where the generator is due for new seed and the system gives none,
/// which no argument decides. Which number comes out is left open: only
/// that it lies in the range is claimed.
#[verifier::external_body]
fn random_below(rng: &mut rand::rngs::ThreadRng, bound: usize) -> (index: usize)
    requires
        bound > 0,
    ensures
        index < bound,
{
    rng.gen_range(0..bound)
}

/// Appends the characters with the codes `first` to `last` to `pool`.
fn push_run(pool: &mut Vec<char>, first: u8, last: u8)
    requires
        first <= last,
    ensures
        final(pool)@ == old(pool)@ + char_run(first, last),
{
    let mut code: u8 = first;
    while code < last
        invariant
            first <= code <= last,
            pool@ == old(pool)@ + char_run(first, last).take(code - first),
        decreases last - code,
    {
        pool.push(code as char);
        code = code + 1;
    }
    pool.push(last as char);
}

/// Assembles the pool.
pub fn chars_pool() -> (chars: Vec<char>)
    ensures
        chars@ == pool(),
{
    let mut chars: Vec<char> = Vec::new();
    push_run(&mut chars, 0x41, 0x5A);
    push_run(&mut chars, 0x61, 0x7A);
    push_run(&mut chars, 0x30, 0x39);
    push_run(&mut chars, 0x21, 0x2F);
    push_run(&mut chars, 0x3A, 0x40);
    push_run(&mut chars, 0x5B, 0x60);
    push_run(&mut chars, 0x7B, 0x7E);
    chars
}

/// The characters that the draws `indices` pick from the pool, in order.
pub open spec fn picked(indices: Seq<usize>) -> Seq<char> {
    indices.map_values(|index: usize| pool()[index as int])
}

/// Spells the password that a run of draws selects: its `i`-th character is
/// the pool character at `indices[i]`. A draw outside the pool selects
/// nothing, and then there is no password.
pub fn password_from_indices(indices: &Vec<usize>) -> (password: Option<String>)
    ensures
        match password {
            Some(text) => {
                &&& forall|i: int| 0 <= i < indices@.len() ==> indices@[i] < POOL_SIZE
                &&& text@ == picked(indices@)
            },
            None => exists|i: int| 0 <= i < indices@.len() && indices@[i] >= POOL_SIZE,
        },
{
    let chars = chars_pool();
    let mut text = String::new();
    let mut done: usize = 0;
    while done < indices.len()
        invariant
            done <= indices@.len(),
            chars@ == pool(),
            forall|i: int| 0 <= i < done ==> indices@[i] < POOL_SIZE,
            text@ == picked(indices@.take(done as int)),
        decreases indices@.len() - done,
    {
        let index = indices[done];
        if index >= POOL_SIZE {
            return None;
        }
        text.push(chars[index]);
        assert(indices@.take(done + 1) == indices@.take(done as int).push(index));
        done = done + 1;
    }
    assert(indices@.take(done as int) == indices@);
    Some(text)
}

/// Draws `length` positions in the pool with the thread's random generator.
fn draw_indices(length: u8) -> (indices: Vec<usize>)
    ensures
        indices@.len() == length,
        forall|i: int| 0 <= i < indices@.len() ==> indices@[i] < POOL_SIZE,
{
    let mut rng = rand::thread_rng();
    let mut indices: Vec<usize> = Vec::new();
    let mut drawn: u8 = 0;
    while drawn < length
        invariant
            drawn <= length,
            indices@.len() == drawn,
            forall|i: int| 0 <= i < indices@.len() ==> indices@[i] < POOL_SIZE,
        decreases length - drawn,
    {
        let index = random_below(&mut rng, POOL_SIZE);
        indices.push(index);
        drawn = drawn + 1;
    }
    indices
}

/// Generates a password of `length` characters, each drawn from the pool
/// with the thread's random generator. Which characters come out is open;
/// their number and their membership of the pool are not. A length of 0
/// gives the empty password.
pub fn generate_password(length: u8) -> (password: String)
    ensures
        password@.len() == length,
        forall|i: int|
            0 <= i < password@.len() ==> pool().contains(#[trigger] password@[i])
                && is_pool_char(password@[i]),
{
    let indices = draw_indices(length);
    let password = password_from_indices(&indices).unwrap();
    proof {
        lemma_pool_is_printable_ascii();
    }
    assert forall|i: int| 0 <= i < password@.len() implies pool().contains(
        #[trigger] password@[i],
    ) by {
        assert(password@[i] == pool()[indices@[i] as int]);
    }
    password
}

/// Whether `c` is one of the ten decimal digits.
pub open spec fn is_digit(c: char) -> bool {
    '0' <= c <= '9'
}

/// The number that a run of decimal digits writes, the first digit counting
/// most.
pub open spec fn decimal_value(digits: Seq<char>) -> nat
    decreases digits.len(),
{
    if digits.len() == 0 {
        0
    } else {
        decimal_value(digits.drop_last()) * 10 + (digits.last() as u32 - '0' as u32) as nat
    }
}

/// The text without the plus sign that may lead it.
pub open spec fn unsigned_part(text: Seq<char>) -> Seq<char> {
    if text.len() > 0 && text[0] == '+' {
        text.skip(1)
    } else {
        text
    }
}

/// The length that `text` asks for: an optional plus sign, then one or more
/// decimal digits that write a number up to 255. Any other text asks for
/// none.
pub open spec fn length_of_text(text: Seq<char>) -> Option<u8> {
    let digits = unsigned_part(text);
    if digits.len() > 0 && (forall|i: int| 0 <= i < digits.len() ==> is_digit(#[trigger] digits[i]))
        && decimal_value(digits) <= u8::MAX {
        Some(decimal_value(digits) as u8)
    } else {
        None
    }
}

/// A run of digits writes at least what any of its prefixes writes.
proof fn lemma_decimal_value_grows(digits: Seq<char>, shorter: int)
    requires
        0 <= shorter <= digits.len(),
        forall|i: int| 0 <= i < digits.len() ==> is_digit(#[trigger] digits[i]),
    ensures
        decimal_value(digits.take(shorter)) <= decimal_value(digits),
    decreases digits.len(),
{
    if shorter == digits.len() {
        assert(digits.take(shorter) == digits);
    } else {
        let front = digits.drop_last();
        lemma_decimal_value_grows(front, shorter);
        assert(front.take(shorter) == digits.take(shorter));
    }
}

/// Reads a password length from the text that the user typed. The text must
/// be a whole number from 0 to 255, written in decimal digits with at most
/// a leading plus sign; anything else is refused with `InvalidLength`, and
/// no default takes its place.
pub fn parse_length(text: &str) -> (length: Result<u8, VaultError>)
    ensures
        length == match length_of_text(text@) {
            Some(n) => Ok::<u8, VaultError>(n),
            None => Err::<u8, VaultError>(VaultError::InvalidLength),
        },
{
    let total = text.unicode_len();
    let start: usize = if total > 0 && text.get_char(0) == '+' {
        1
    } else {
        0
    };
    let ghost digits = unsigned_part(text@);
    assert(digits == text@.skip(start as int));
    if start == total {
        return Err(VaultError::InvalidLength);
    }
    let mut value: u32 = 0;
    let mut at: usize = start;
    while at < total
        invariant
            start <= at <= total,
            total == text@.len(),
            digits == unsigned_part(text@),
            digits == text@.skip(start as int),
            forall|i: int| 0 <= i < at - start ==> is_digit(#[trigger] digits[i]),
            value == decimal_value(digits.take(at - start)),
            value <= u8::MAX,
        decreases total - at,
    {
        let c = text.get_char(at);
        assert(c == digits[at - start]);
        if c < '0' || c > '9' {
            return Err(VaultError::InvalidLength);
        }
        let digit = c as u32 - '0' as u32;
        let next = value * 10 + digit;
        proof {
            let longer = digits.take(at - start + 1);
            assert(longer.drop_last() == digits.take(at - start));
            assert(longer.last() == c);
            assert(next == decimal_value(longer));
            if next > u8::MAX {
                if forall|i: int| 0 <= i < digits.len() ==> is_digit(#[trigger] digits[i]) {
                    lemma_decimal_value_grows(digits, at - start + 1);
                }
            }
        }
        if next > 255 {
            return Err(VaultError::InvalidLength);
        }
        value = next;
        at = at + 1;
    }
    assert(digits.take(at - start) == digits);
    Ok(value as u8)
}

} // verus!
