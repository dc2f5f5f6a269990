//! Subject ids.
//!
//! An id is the prefix `sqlite:` and a ULID: 26 characters of Crockford's
//! base 32 that start with the time of creation. So ids sort in the order in
//! which they were made, and they hold nothing that a file name, a shell or a
//! URL would need escaped.

use crate::subject::SubjectId;
use crate::text::has_prefix;
use crate::text::{lemma_less_behind_prefix, lemma_less_irreflexive, lemma_less_then_any, text_less};
use ulid::Ulid;
use vstd::prelude::*;

verus! {

/// Prefix that every id of this backend carries.
pub const ID_PREFIX: &'static str = "sqlite:";

/// The digit of Crockford's base 32 with the value `d`: the ten digits, then
/// the upper-case letters without I, L, O and U.
pub open spec fn crockford_digit(d: int) -> char {
    let code = if d < 10 {
        0x30 + d
    } else if d < 18 {
        0x41 + (d - 10)
    } else if d < 20 {
        0x4A + (d - 18)
    } else if d < 22 {
        0x4D + (d - 20)
    } else if d < 27 {
        0x50 + (d - 22)
    } else {
        0x56 + (d - 27)
    };
    code as char
}

/// `value` in Crockford's base 32, with `digits` digits.
pub open spec fn crockford(value: int, digits: nat) -> Seq<char>
    decreases digits,
{
    if digits == 0 {
        Seq::empty()
    } else {
        crockford(value / 32, (digits - 1) as nat).push(crockford_digit(value % 32))
    }
}

/// The text of a ULID: its 128 bits as 26 digits.
pub open spec fn ulid_text(value: u128) -> Seq<char> {
    crockford(value as int, 26)
}

/// The time at which a ULID was made, in milliseconds since 1970-01-01: its
/// upper 48 bits.
pub open spec fn ulid_millis(value: u128) -> int {
    value as int / 0x1_0000_0000_0000_0000_0000
}

/// The text of the subject id with the given ULID.
pub open spec fn subject_id_text(ulid: u128) -> Seq<char> {
    ID_PREFIX@ + ulid_text(ulid)
}

/// Whether an id is one of this backend.
pub open spec fn is_own_id(id: Seq<char>) -> bool {
    ID_PREFIX@.is_prefix_of(id)
}

/// Whether a ULID is one that the generator can draw.
pub closed spec fn is_drawn(ulid: u128) -> bool {
    call_ensures(fresh_ulid, (), ulid)
}

/// What a generator gives.
fn drawn_from(generator: impl Fn() -> u128) -> (r: u128)
    requires
        call_requires(generator, ()),
    ensures
        call_ensures(generator, (), r),
{
    generator()
}

/// Draws a ULID from the generator.
pub fn draw_ulid() -> (r: u128)
    ensures
        is_drawn(r),
{
    drawn_from(fresh_ulid)
}

/// A fresh subject id of the form `sqlite:<ULID>`, with a ULID as the generator
/// drew it.
pub fn new_subject_id() -> (r: SubjectId)
    ensures
        exists|ulid: u128| r@ == #[trigger] subject_id_text(ulid) && is_drawn(ulid),
        is_own_id(r@),
        r@.len() == ID_PREFIX@.len() + 26,
{
    let ulid: u128 = draw_ulid();
    proof {
        lemma_crockford_len(ulid as int, 26);
    }
    subject_id_of(ulid)
}

/// The subject id with the given ULID.
pub fn subject_id_of(ulid: u128) -> (r: SubjectId)
    ensures
        r@ == subject_id_text(ulid),
        is_own_id(r@),
{
    let text = ID_PREFIX.to_owned().concat(ulid_to_text(ulid).as_str());
    SubjectId::new(text.as_str())
}

/// Whether `id` is one of this backend.
pub fn is_sqlite_id(id: &SubjectId) -> (r: bool)
    ensures
        r == is_own_id(id@),
{
    has_prefix(id.as_str(), ID_PREFIX)
}

/// What follows the prefix in `id`; nothing if the prefix is missing, which
/// callers answer as an invalid request.
pub fn strip_prefix(id: &SubjectId) -> (r: Option<&str>)
    ensures
        r is Some <==> is_own_id(id@),
        r matches Some(rest) ==> id@ == ID_PREFIX@ + rest@,
{
    let text = id.as_str();
    if has_prefix(text, ID_PREFIX) {
        let rest = text.substring_char(ID_PREFIX.unicode_len(), text.unicode_len());
        assert(id@ == ID_PREFIX@ + rest@);
        Some(rest)
    } else {
        None
    }
}

/// `ulid::Ulid::new`, as the number that a ULID is: 48 bits of the current time
/// and 80 random bits. Nothing is claimed of it.
#[verifier::external_body]
fn fresh_ulid() -> (r: u128) {
    Ulid::new().0
}

/// `ulid::Ulid::to_string`: the 128 bits as 26 digits of Crockford's base 32,
/// the most significant first.
#[verifier::external_body]
fn ulid_to_text(value: u128) -> (r: String)
    ensures
        r@ == ulid_text(value),
{
    Ulid(value).to_string()
}

/// 32 to the power of `digits`.
spec fn power_of_32(digits: nat) -> int
    decreases digits,
{
    if digits == 0 {
        1
    } else {
        32 * power_of_32((digits - 1) as nat)
    }
}

proof fn lemma_crockford_len(value: int, digits: nat)
    ensures
        crockford(value, digits).len() == digits,
    decreases digits,
{
    if digits > 0 {
        lemma_crockford_len(value / 32, (digits - 1) as nat);
    }
}

proof fn lemma_crockford_order(a: int, b: int, digits: nat)
    requires
        0 <= a < b < power_of_32(digits),
    ensures
        text_less(crockford(a, digits), crockford(b, digits)),
    decreases digits,
{
    let fewer = (digits - 1) as nat;
    lemma_crockford_len(a / 32, fewer);
    lemma_crockford_len(b / 32, fewer);
    if a / 32 < b / 32 {
        lemma_crockford_order(a / 32, b / 32, fewer);
        lemma_less_then_any(
            crockford(a / 32, fewer),
            crockford(b / 32, fewer),
            crockford_digit(a % 32),
            crockford_digit(b % 32),
        );
    } else {
        let front = crockford(a / 32, fewer);
        let x = crockford_digit(a % 32);
        let y = crockford_digit(b % 32);
        assert(front.push(x) == front + seq![x]);
        assert(front.push(y) == front + seq![y]);
        assert(text_less(seq![x], seq![y]));
        lemma_less_behind_prefix(front, seq![x], seq![y]);
    }
}

/// Ids sort in the order of their ULIDs, so two ULIDs never share an id.
pub proof fn law_ids_sort_like_ulids(a: u128, b: u128)
    ensures
        a < b ==> text_less(subject_id_text(a), subject_id_text(b)),
        a != b ==> subject_id_text(a) != subject_id_text(b),
{
    reveal_with_fuel(power_of_32, 27);
    let (low, high) = if a < b {
        (a, b)
    } else {
        (b, a)
    };
    if low < high {
        lemma_crockford_order(low as int, high as int, 26);
        lemma_less_behind_prefix(ID_PREFIX@, ulid_text(low), ulid_text(high));
        lemma_less_irreflexive(subject_id_text(low));
    }
}

/// Ids made in different milliseconds sort in the order in which they were
/// made.
pub proof fn law_ids_sort_by_creation_time(a: u128, b: u128)
    requires
        ulid_millis(a) < ulid_millis(b),
    ensures
        text_less(subject_id_text(a), subject_id_text(b)),
{
    law_ids_sort_like_ulids(a, b);
}

/// Behind its prefix an id consists of 26 digits and upper-case letters.
pub proof fn law_ids_need_no_escaping(ulid: u128)
    ensures
        subject_id_text(ulid).len() == ID_PREFIX@.len() + 26,
        forall|i: int|
            ID_PREFIX@.len() <= i < subject_id_text(ulid).len() ==> is_crockford(
                #[trigger] subject_id_text(ulid)[i],
            ),
{
    lemma_crockford_len(ulid as int, 26);
    assert forall|i: int| ID_PREFIX@.len() <= i < subject_id_text(ulid).len() implies is_crockford(
        #[trigger] subject_id_text(ulid)[i],
    ) by {
        lemma_crockford_digits(ulid as int, 26, i - ID_PREFIX@.len());
    }
}

/// Whether `c` is a digit or an upper-case letter other than I, L, O and U.
pub open spec fn is_crockford(c: char) -> bool {
    ('0' <= c <= '9' || 'A' <= c <= 'Z') && c != 'I' && c != 'L' && c != 'O' && c != 'U'
}

proof fn lemma_crockford_digits(value: int, digits: nat, i: int)
    requires
        0 <= value,
        0 <= i < crockford(value, digits).len(),
    ensures
        is_crockford(crockford(value, digits)[i]),
    decreases digits,
{
    if digits > 0 {
        let fewer = (digits - 1) as nat;
        if i < crockford(value / 32, fewer).len() {
            lemma_crockford_digits(value / 32, fewer, i);
        }
    }
}

} // verus!
