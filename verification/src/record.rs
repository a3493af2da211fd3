//! The registration record: the text that subscribes an event descriptor to
//! a cgroup's out-of-memory controller when it is written to the cgroup's
//! event-control file.
//!
//! The record is the number of the event descriptor, one space, and the
//! number of the descriptor on which the OOM-control file is open, both in
//! decimal and with nothing after them.

use crate::descriptor::is_descriptor;
use vstd::prelude::*;

verus! {

/// The byte of the space that parts the two numbers.
pub const SEPARATOR: u8 = 32;

/// The byte of the minus sign.
pub const MINUS: u8 = 45;

/// The byte of the digit zero.
pub const ZERO: u8 = 48;

/// The byte that stands for the decimal digit `d`.
pub open spec fn digit(d: int) -> u8
    recommends
        0 <= d <= 9,
{
    (ZERO + d) as u8
}

/// Whether `b` is the byte of a decimal digit.
pub open spec fn is_digit(b: u8) -> bool {
    ZERO <= b <= ZERO + 9
}

/// The decimal notation of `n`, most significant digit first, with no
/// leading zero but for zero itself.
pub open spec fn decimal(n: nat) -> Seq<u8>
    decreases n,
{
    if n < 10 {
        seq![digit(n as int)]
    } else {
        decimal(n / 10).push(digit((n % 10) as int))
    }
}

/// The number that a sequence of digit bytes denotes.
pub open spec fn decimal_value(digits: Seq<u8>) -> nat
    decreases digits.len(),
{
    if digits.len() == 0 {
        0
    } else {
        (decimal_value(digits.drop_last()) * 10 + (digits.last() - ZERO)) as nat
    }
}

/// The decimal notation of `v`, with a minus sign before a negative number.
pub open spec fn signed_decimal(v: int) -> Seq<u8> {
    if v < 0 {
        seq![MINUS] + decimal((-v) as nat)
    } else {
        decimal(v as nat)
    }
}

/// The record for the event descriptor `event` and the OOM-control
/// descriptor `control`.
pub open spec fn record(event: int, control: int) -> Seq<u8> {
    signed_decimal(event) + seq![SEPARATOR] + signed_decimal(control)
}

/// Whether `s` is one or more decimal digits.
pub open spec fn is_number(s: Seq<u8>) -> bool {
    s.len() >= 1 && forall|i: int| 0 <= i < s.len() ==> is_digit(#[trigger] s[i])
}

/// Whether `s` has the shape of a record: one or more digits, one space, one
/// or more digits, and nothing else.
pub open spec fn is_record(s: Seq<u8>) -> bool {
    exists|at: int|
        0 <= at < s.len() && #[trigger] s[at] == SEPARATOR && is_number(s.subrange(0, at))
            && is_number(s.subrange(at + 1, s.len() as int))
}

/// The decimal notation of a number is one or more digits.
pub proof fn lemma_decimal_is_number(n: nat)
    ensures
        is_number(decimal(n)),
    decreases n,
{
    if n >= 10 {
        lemma_decimal_is_number(n / 10);
    }
}

/// The decimal notation of a number denotes that number.
pub proof fn lemma_decimal_denotes(n: nat)
    ensures
        decimal_value(decimal(n)) == n,
    decreases n,
{
    if n < 10 {
        let digits = decimal(n);
        assert(digits.drop_last().len() == 0);
        assert(decimal_value(digits.drop_last()) == 0);
    } else {
        let digits = decimal(n);
        assert(digits.drop_last() == decimal(n / 10));
        lemma_decimal_denotes(n / 10);
    }
}

/// The record of two descriptors has the shape of a record, with the
/// numbers of the two descriptors on either side of the space.
pub proof fn lemma_record_shape(event: int, control: int)
    requires
        is_descriptor(event),
        is_descriptor(control),
    ensures
        is_record(record(event, control)),
        record(event, control) == decimal(event as nat) + seq![SEPARATOR] + decimal(
            control as nat,
        ),
{
    let left = decimal(event as nat);
    let right = decimal(control as nat);
    let whole = record(event, control);
    let at = left.len() as int;
    lemma_decimal_is_number(event as nat);
    lemma_decimal_is_number(control as nat);
    assert(whole[at] == SEPARATOR);
    assert(whole.subrange(0, at) == left);
    assert(whole.subrange(at + 1, whole.len() as int) == right);
}

/// A record can be read back: records of descriptors that are equal name
/// the same event descriptor and the same control descriptor.
pub proof fn lemma_record_reads_back(event: int, control: int, other_event: int, other_control: int)
    requires
        is_descriptor(event),
        is_descriptor(control),
        is_descriptor(other_event),
        is_descriptor(other_control),
        record(event, control) == record(other_event, other_control),
    ensures
        event == other_event,
        control == other_control,
{
    let whole = record(event, control);
    let left = decimal(event as nat);
    let right = decimal(control as nat);
    let other_left = decimal(other_event as nat);
    let other_right = decimal(other_control as nat);
    lemma_record_shape(event, control);
    lemma_record_shape(other_event, other_control);
    lemma_decimal_is_number(event as nat);
    lemma_decimal_is_number(other_event as nat);
    assert(whole == left + seq![SEPARATOR] + right);
    assert(whole == other_left + seq![SEPARATOR] + other_right);
    if left.len() < other_left.len() {
        assert(whole[left.len() as int] == SEPARATOR);
        assert(whole[left.len() as int] == other_left[left.len() as int]);
        assert(is_digit(other_left[left.len() as int]));
    }
    if other_left.len() < left.len() {
        assert(whole[other_left.len() as int] == SEPARATOR);
        assert(whole[other_left.len() as int] == left[other_left.len() as int]);
        assert(is_digit(left[other_left.len() as int]));
    }
    let at = left.len() as int;
    assert(whole.subrange(0, at) == left);
    assert(whole.subrange(0, at) == other_left);
    assert(whole.subrange(at + 1, whole.len() as int) == right);
    assert(whole.subrange(at + 1, whole.len() as int) == other_right);
    lemma_decimal_denotes(event as nat);
    lemma_decimal_denotes(other_event as nat);
    lemma_decimal_denotes(control as nat);
    lemma_decimal_denotes(other_control as nat);
}

/// Appends the decimal notation of `n` to `out`.
fn push_decimal(out: &mut Vec<u8>, n: u32)
    ensures
        final(out)@ == old(out)@ + decimal(n as nat),
    decreases n,
{
    if n >= 10 {
        push_decimal(out, n / 10);
    }
    let low: u8 = (n % 10) as u8;
    out.push(ZERO + low);
    proof {
        if n >= 10 {
            assert(final(out)@ == old(out)@ + decimal((n / 10) as nat).push(digit((n % 10) as int)));
        }
    }
}

/// Appends the decimal notation of `v` to `out`, with a minus sign before a
/// negative number.
fn push_signed_decimal(out: &mut Vec<u8>, v: i32)
    ensures
        final(out)@ == old(out)@ + signed_decimal(v as int),
{
    if v < 0 {
        out.push(MINUS);
        let magnitude: i64 = -(v as i64);
        push_decimal(out, magnitude as u32);
        assert(final(out)@ == old(out)@ + (seq![MINUS] + decimal((-v) as nat)));
    } else {
        push_decimal(out, v as u32);
    }
}

/// Formats the record that registers the event descriptor `event_fd` for
/// the cgroup whose OOM-control file is open on `control_fd`.
pub fn registration_record(event_fd: i32, control_fd: i32) -> (payload: Vec<u8>)
    ensures
        payload@ == record(event_fd as int, control_fd as int),
{
    let mut payload: Vec<u8> = Vec::new();
    push_signed_decimal(&mut payload, event_fd);
    payload.push(SEPARATOR);
    push_signed_decimal(&mut payload, control_fd);
    assert(payload@ == record(event_fd as int, control_fd as int));
    payload
}

} // verus!
