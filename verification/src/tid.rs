//! TIDs: timestamp identifiers of the AT Protocol.
//!
//! A TID is a 64-bit number, a microsecond timestamp above a ten-bit clock identifier, written as
//! thirteen characters of a base-32 alphabet that sorts as the numbers do.

use vstd::prelude::*;
use vstd::string::*;
use vstd::utf8::*;
use crate::clock::{micros, micros_at, micros_of_rfc3339, now, read_micros, rfc3339_of_micros, write_micros, MICROS_SPAN};
use crate::ids::random_uuid;
use crate::text::{characters, option_str, option_text, sorts_before, text_less, lemma_bytes_less_push, lemma_text_order};

verus! {

/// The base-32 alphabet of TIDs, in ascending order.
pub const BASE32_SORT: &'static str = "234567abcdefghijklmnopqrstuvwxyz";

/// The character for a number below thirty-two.
pub open spec fn digit_char(d: int) -> char {
    if d < 6 {
        (d + '2' as int) as char
    } else {
        (d - 6 + 'a' as int) as char
    }
}

/// Whether a character belongs to the alphabet.
pub open spec fn is_digit_char(c: char) -> bool {
    '2' <= c <= '7' || 'a' <= c <= 'z'
}

/// The number that a character of the alphabet stands for.
pub open spec fn digit_of(c: char) -> int {
    if c <= '7' {
        c as int - '2' as int
    } else {
        c as int - 'a' as int + 6
    }
}

/// A number in base 32, to exactly `n` places.
pub open spec fn sort_text(v: nat, n: nat) -> Seq<char>
    decreases n,
{
    if n == 0 {
        Seq::empty()
    } else {
        sort_text(v / 32, (n - 1) as nat).push(digit_char((v % 32) as int))
    }
}

/// The number that a run of base-32 characters denotes.
pub open spec fn sort_value(s: Seq<char>) -> int
    decreases s.len(),
{
    if s.len() == 0 {
        0
    } else {
        sort_value(s.drop_last()) * 32 + digit_of(s.last())
    }
}

/// The TID of a number.
pub open spec fn tid_of(v: u64) -> Seq<char> {
    sort_text(v as nat, 13)
}

/// Whether a text has the form of a TID: thirteen characters of the alphabet.
pub open spec fn is_tid_text(s: Seq<char>) -> bool {
    s.len() == 13 && forall|i: int| 0 <= i < s.len() ==> is_digit_char(#[trigger] s[i])
}

/// The number that a TID stands for. Thirteen characters hold 65 bits, of which the first is lost.
pub open spec fn number_of(s: Seq<char>) -> Option<u64> {
    if is_tid_text(s) {
        Some((sort_value(s) % 0x1_0000_0000_0000_0000) as u64)
    } else {
        None
    }
}

/// The number made of a timestamp, of which 54 bits are kept, and a ten-bit clock identifier.
pub open spec fn stamp(us: u64, clock_id: u16) -> u64 {
    ((us % 0x40_0000_0000_0000) * 1024 + clock_id % 1024) as u64
}

/// The timestamp in a TID's number.
pub open spec fn stamped_micros(v: u64) -> i64 {
    (v / 1024) as i64
}

proof fn lemma_alphabet(d: int)
    requires
        0 <= d < 32,
    ensures
        BASE32_SORT@.len() == 32,
        BASE32_SORT@[d] == digit_char(d),
        BASE32_SORT.is_ascii(),
{
    reveal_strlit("234567abcdefghijklmnopqrstuvwxyz");
}

fn sort_string(v: u64, n: u64) -> (r: String)
    requires
        n <= 13,
    ensures
        r@ == sort_text(v as nat, n as nat),
    decreases n,
{
    if n == 0 {
        String::new()
    } else {
        let mut s = sort_string(v / 32, n - 1);
        let d: usize = (v % 32) as usize;
        let ghost front = s@;
        proof {
            lemma_alphabet(d as int);
        }
        s.append(BASE32_SORT.substring_ascii(d, d + 1));
        assert(s@ =~= front.push(digit_char(d as int)));
        s
    }
}

/// Writes a number as a TID.
pub fn encode_base32_sort(val: u64) -> (r: String)
    ensures
        r@ == tid_of(val),
{
    sort_string(val, 13)
}

/// Reads a TID back as its number; a text of another form has none.
pub fn decode_base32_sort(tid: &str) -> (r: Option<u64>)
    ensures
        r == number_of(tid@),
{
    let chars = characters(tid);
    if chars.len() != 13 {
        return None;
    }
    let mut val: u64 = 0;
    let mut i: usize = 0;
    assert(tid@.take(0) =~= Seq::<char>::empty());
    while i < 13
        invariant
            i <= 13,
            chars@ == tid@,
            chars@.len() == 13,
            forall|j: int| 0 <= j < i ==> is_digit_char(#[trigger] tid@[j]),
            val == sort_value(tid@.take(i as int)) % 0x1_0000_0000_0000_0000,
        decreases 13 - i,
    {
        let c = chars[i];
        assert(c == tid@[i as int]);
        let d: u64 = if '2' <= c && c <= '7' {
            c as u64 - 50
        } else if 'a' <= c && c <= 'z' {
            c as u64 - 91
        } else {
            return None;
        };
        proof {
            assert(tid@.take(i + 1).drop_last() =~= tid@.take(i as int));
            assert(d == digit_of(c));
            lemma_shift(sort_value(tid@.take(i as int)), d as int);
        }
        val = ((val as u128 * 32 + d as u128) % 0x1_0000_0000_0000_0000) as u64;
        i = i + 1;
    }
    assert(tid@.take(13) =~= tid@);
    Some(val)
}

/// Appending a digit to a number commutes with keeping 64 bits.
proof fn lemma_shift(a: int, d: int)
    ensures
        ((a % 0x1_0000_0000_0000_0000) * 32 + d) % 0x1_0000_0000_0000_0000 == (a * 32 + d)
            % 0x1_0000_0000_0000_0000,
{
    let m: int = 0x1_0000_0000_0000_0000;
    let q = a / m;
    let x = (a % m) * 32 + d;
    assert(a * 32 + d == m * (q * 32) + x) by (nonlinear_arith)
        requires
            a == m * q + a % m,
            x == (a % m) * 32 + d,
    ;
    vstd::arithmetic::div_mod::lemma_mod_multiples_vanish(q * 32, x, m);
}

/// Packs a timestamp and a clock identifier into a TID's number.
fn pack(us: u64, clock_id: u16) -> (r: u64)
    ensures
        r == stamp(us, clock_id),
{
    let c: u64 = (clock_id & 0x3ff) as u64;
    let r: u64 = (us << 10) | c;
    assert((clock_id & 0x3ff) == clock_id % 1024) by (bit_vector);
    assert(((us << 10) | c) == (us % 0x40_0000_0000_0000) * 1024 + c) by (bit_vector)
        requires
            c < 1024,
    ;
    r
}

/// The TID for a clock reading and the first bytes of a random draw.
pub fn tid_at(secs: u64, nanos: u32, low: u8, high: u8) -> (r: String)
    ensures
        r@ == tid_of(stamp(micros_at(secs, nanos), (low + high * 256) as u16)),
{
    let clock_id: u16 = low as u16 + (high as u16) * 256;
    encode_base32_sort(pack(micros(secs, nanos), clock_id))
}

/// Whether a text is the TID of some moment.
pub open spec fn is_minted(s: Seq<char>) -> bool {
    exists|us: u64, clock_id: u16| s == #[trigger] tid_of(stamp(us, clock_id))
}

/// Mints a TID from the clock, with a random clock identifier.
pub fn generate_tid() -> (r: String)
    ensures
        is_minted(r@),
{
    let (secs, nanos) = now();
    let random = random_uuid();
    tid_at(secs, nanos, random[0], random[1])
}

/// The TID that follows `prev`, when the clock offers `tid`: the clock's answer where it is ahead,
/// and otherwise the next number behind `prev`. A `prev` that is no TID has no next number.
pub open spec fn following(tid: Seq<char>, prev: Option<Seq<char>>) -> Seq<char> {
    match prev {
        None => tid,
        Some(p) => if text_less(p, tid) {
            tid
        } else {
            match number_of(p) {
                Some(v) => tid_of(if v == u64::MAX { v } else { (v + 1) as u64 }),
                None => tid,
            }
        },
    }
}

/// Whether a text is a TID that another can follow: its spare bit is clear, and it is not the last.
pub open spec fn can_be_followed(prev: Seq<char>) -> bool {
    is_tid_text(prev) && digit_of(prev[0]) < 16 && number_of(prev) != Some(u64::MAX)
}

/// Picks the TID that follows `prev`, given the one that the clock offers.
pub fn tid_after(tid: String, prev: Option<&str>) -> (r: String)
    ensures
        r@ == following(tid@, option_str(prev)),
{
    match prev {
        None => tid,
        Some(p) => {
            if sorts_before(p, tid.as_str()) {
                return tid;
            }
            match decode_base32_sort(p) {
                Some(val) => encode_base32_sort(val.saturating_add(1)),
                None => tid,
            }
        },
    }
}

/// Mints a TID that sorts after `prev`, even where the clock has not moved on or has stepped back. There
/// are exceptions: nothing follows the TID of the greatest number, or one whose spare bit is set, and
/// what is no TID may sort behind all of them.
pub fn next_tid_after(prev: Option<&str>) -> (r: String)
    ensures
        prev matches Some(p) ==> can_be_followed(p@) ==> text_less(p@, r@),
        exists|tid: Seq<char>| is_minted(tid) && r@ == #[trigger] following(
            tid,
            option_str(prev),
        ),
{
    let tid = generate_tid();
    proof {
        if let Some(p) = prev {
            if can_be_followed(p@) {
                law_next_sorts_after(tid@, p@);
            }
        }
    }
    tid_after(tid, prev)
}

/// The moment in a TID, as an RFC 3339 text with microseconds. The clock identifier is lost: the text
/// leads back to the TID of that moment with clock identifier zero, and that TID to the same text.
pub fn tid_to_iso8601(tid: &str) -> (r: Option<String>)
    ensures
        option_text(r) == (match number_of(tid@) {
            Some(v) => rfc3339_of_micros(stamped_micros(v)),
            None => None,
        }),
        r is Some <==> number_of(tid@) is Some,
        r matches Some(iso) ==> {
            &&& iso@.len() > 0
            &&& iso@.last() == 'Z'
            &&& tid_of_iso8601(iso@) == Some(
                tid_of(stamp(stamped_micros(number_of(tid@)->0) as u64, 0)),
            )
            &&& number_of(tid_of_iso8601(iso@)->0) is Some
            &&& rfc3339_of_micros(stamped_micros(number_of(tid_of_iso8601(iso@)->0)->0)) == Some(
                iso@,
            )
        },
{
    match decode_base32_sort(tid) {
        Some(val) => {
            let us: i64 = (val / 1024) as i64;
            proof {
                law_micros_round_trip(us, 0);
            }
            write_micros(us)
        },
        None => None,
    }
}

/// The TID, with clock identifier zero, of the moment that a text denotes.
pub open spec fn tid_of_iso8601(iso: Seq<char>) -> Option<Seq<char>> {
    match micros_of_rfc3339(iso) {
        Some(us) => Some(tid_of(stamp(us as u64, 0))),
        None => None,
    }
}

/// The TID of a moment written as a date and time, with clock identifier zero.
pub fn tid_from_iso8601(iso: &str) -> (r: Option<String>)
    ensures
        option_text(r) == tid_of_iso8601(iso@),
{
    match read_micros(iso) {
        Some(us) => Some(tid_from_unix_microseconds(us)),
        None => None,
    }
}

/// The microseconds in a TID. The clock identifier is lost.
pub fn tid_to_unix_microseconds(tid: &str) -> (r: Option<i64>)
    ensures
        r == (match number_of(tid@) {
            Some(v) => Some(stamped_micros(v)),
            None => None,
        }),
{
    match decode_base32_sort(tid) {
        Some(val) => Some((val / 1024) as i64),
        None => None,
    }
}

/// The TID of a count of microseconds, with clock identifier zero.
pub fn tid_from_unix_microseconds(us: i64) -> (r: String)
    ensures
        r@ == tid_of(stamp(us as u64, 0)),
{
    encode_base32_sort(pack(us as u64, 0))
}

/// The whole number in a TID, clock identifier included.
pub fn tid_to_number(tid: &str) -> (r: Option<u64>)
    ensures
        r == number_of(tid@),
{
    decode_base32_sort(tid)
}

/// The TID of a number.
pub fn tid_from_number(val: u64) -> (r: String)
    ensures
        r@ == tid_of(val),
{
    encode_base32_sort(val)
}

/// The number of texts with `n` base-32 characters.
spec fn places(n: nat) -> nat
    decreases n,
{
    if n == 0 {
        1
    } else {
        32 * places((n - 1) as nat)
    }
}

proof fn lemma_thirteen_places()
    ensures
        places(13) == 0x2_0000_0000_0000_0000,
{
    reveal_with_fuel(places, 14);
}

/// The text of a number has the asked length, the alphabet's characters, and the number's value.
proof fn lemma_sort_text(v: nat, n: nat)
    requires
        v < places(n),
    ensures
        sort_text(v, n).len() == n,
        forall|i: int| 0 <= i < n ==> is_digit_char(#[trigger] sort_text(v, n)[i]),
        sort_value(sort_text(v, n)) == v,
    decreases n,
{
    if n > 0 {
        let m = (n - 1) as nat;
        lemma_sort_text(v / 32, m);
        let front = sort_text(v / 32, m);
        let whole = sort_text(v, n);
        assert(whole.drop_last() =~= front);
        assert(whole.last() == digit_char((v % 32) as int));
        assert forall|i: int| 0 <= i < n implies is_digit_char(#[trigger] whole[i]) by {
            if i < m {
                assert(whole[i] == front[i]);
            }
        }
    }
}

/// The text of the value of a text is that text.
proof fn lemma_sort_value(s: Seq<char>)
    requires
        forall|i: int| 0 <= i < s.len() ==> is_digit_char(#[trigger] s[i]),
    ensures
        0 <= sort_value(s) < places(s.len()),
        sort_text(sort_value(s) as nat, s.len()) == s,
    decreases s.len(),
{
    if s.len() > 0 {
        let front = s.drop_last();
        assert forall|i: int| 0 <= i < front.len() implies is_digit_char(#[trigger] front[i]) by {
            assert(front[i] == s[i]);
        }
        lemma_sort_value(front);
        assert(is_digit_char(s[s.len() - 1]));
        let v = sort_value(s);
        assert(v / 32 == sort_value(front) && v % 32 == digit_of(s.last()));
        assert(digit_char(digit_of(s.last())) == s.last());
        assert(sort_text(v as nat, s.len()) =~= front.push(s.last()));
        assert(front.push(s.last()) =~= s);
    } else {
        assert(s =~= Seq::<char>::empty());
    }
}

/// The bytes of texts of one length sort as their numbers do.
proof fn lemma_sort_text_order(a: nat, b: nat, n: nat)
    requires
        a < b < places(n),
    ensures
        text_less(sort_text(a, n), sort_text(b, n)),
    decreases n,
{
    if n > 0 {
        let m = (n - 1) as nat;
        let x = sort_text(a / 32, m);
        let y = sort_text(b / 32, m);
        lemma_ascii(a, n);
        lemma_ascii(b, n);
        lemma_ascii(a / 32, m);
        lemma_ascii(b / 32, m);
        let p = digit_char((a % 32) as int) as u8;
        let q = digit_char((b % 32) as int) as u8;
        assert(encode_utf8(sort_text(a, n)) =~= encode_utf8(x).push(p));
        assert(encode_utf8(sort_text(b, n)) =~= encode_utf8(y).push(q));
        if a / 32 < b / 32 {
            lemma_sort_text_order(a / 32, b / 32, m);
        } else {
            assert(a / 32 == b / 32 && a % 32 < b % 32);
        }
        lemma_bytes_less_push(encode_utf8(x), encode_utf8(y), p, q);
    }
}

/// A base-32 text is ASCII: its bytes are its characters.
proof fn lemma_ascii(v: nat, n: nat)
    requires
        v < places(n),
    ensures
        encode_utf8(sort_text(v, n)).len() == n,
        sort_text(v, n).len() == n,
        forall|i: int|
            0 <= i < n ==> #[trigger] encode_utf8(sort_text(v, n))[i] == sort_text(v, n)[i] as u8,
{
    lemma_sort_text(v, n);
    let s = sort_text(v, n);
    assert(is_ascii_chars(s)) by {
        assert forall|i: int| 0 <= i < s.len() implies '\0' <= #[trigger] s[i] <= '\u{7f}' by {
            assert(is_digit_char(s[i]));
        }
    }
    is_ascii_chars_encode_utf8(s);
}

/// Every number survives being written as a TID and read back.
pub proof fn law_number_round_trip(v: u64)
    ensures
        is_tid_text(tid_of(v)),
        number_of(tid_of(v)) == Some(v),
{
    lemma_thirteen_places();
    lemma_sort_text(v as nat, 13);
}

/// Every TID whose first character stands for less than sixteen survives being read and written
/// back. Thirteen characters hold one bit more than a number does; in the others that bit is set.
pub proof fn law_text_round_trip(tid: Seq<char>)
    requires
        is_tid_text(tid),
        digit_of(tid[0]) < 16,
    ensures
        number_of(tid) is Some,
        tid_of(number_of(tid)->0) == tid,
{
    lemma_sort_value(tid);
    lemma_leading_digit(tid);
}

proof fn lemma_leading_digit(s: Seq<char>)
    requires
        is_tid_text(s),
        digit_of(s[0]) < 16,
    ensures
        sort_value(s) < 0x1_0000_0000_0000_0000,
{
    assert forall|i: int| 0 <= i < 13 implies 0 <= digit_of(#[trigger] s[i]) < 32 by {
        assert(is_digit_char(s[i]));
    }
    lemma_value_bound(s, 13);
    lemma_thirteen_places();
    assert(s.take(13) =~= s);
}

/// The first `n` characters of a text whose first stands for less than sixteen.
proof fn lemma_value_bound(s: Seq<char>, n: nat)
    requires
        0 < n <= s.len(),
        digit_of(s[0]) < 16,
        forall|i: int| 0 <= i < s.len() ==> 0 <= digit_of(#[trigger] s[i]) < 32,
    ensures
        sort_value(s.take(n as int)) * 2 + 2 <= places(n),
    decreases n,
{
    let front = s.take(n as int);
    assert(front.drop_last() =~= s.take(n - 1));
    assert(front.last() == s[n - 1]);
    assert(sort_value(front) == sort_value(s.take(n - 1)) * 32 + digit_of(s[n - 1]));
    assert(places(n) == 32 * places((n - 1) as nat));
    if n == 1 {
        assert(sort_value(s.take(0)) == 0);
        assert(places(0) == 1);
    } else {
        lemma_value_bound(s, (n - 1) as nat);
    }
}

/// TIDs sort as their numbers do.
pub proof fn law_tids_sort_as_numbers(a: u64, b: u64)
    ensures
        text_less(tid_of(a), tid_of(b)) <==> a < b,
{
    lemma_thirteen_places();
    if a < b {
        lemma_sort_text_order(a as nat, b as nat, 13);
    } else if b < a {
        lemma_sort_text_order(b as nat, a as nat, 13);
        lemma_text_order(tid_of(b), tid_of(a), tid_of(b));
    } else {
        lemma_text_order(tid_of(a), tid_of(a), tid_of(a));
    }
}

/// What follows a TID sorts strictly behind it, whatever the clock offers. Two kinds of `prev` are
/// outside: one that is the last TID of all, or whose spare bit is set, has no next number, and one
/// that is no TID may sort behind everything that the clock can offer.
pub proof fn law_next_sorts_after(tid: Seq<char>, prev: Seq<char>)
    requires
        can_be_followed(prev),
    ensures
        text_less(prev, following(tid, Some(prev))),
{
    law_text_round_trip(prev);
    let v = number_of(prev)->0;
    if !text_less(prev, tid) {
        law_tids_sort_as_numbers(v, (v + 1) as u64);
    }
}

/// Revisions that each follow the one before it are strictly increasing, however the clock moves
/// between them: no revision sorts at or below an earlier one.
pub proof fn law_revisions_strictly_increase(revs: Seq<Seq<char>>, offers: Seq<u64>, i: int, j: int)
    requires
        0 <= i < j < revs.len(),
        offers.len() == revs.len(),
        revs[0] == tid_of(offers[0]),
        forall|k: int|
            0 < k < revs.len() ==> #[trigger] revs[k] == following(
                tid_of(offers[k]),
                Some(revs[k - 1]),
            ),
        forall|k: int| 0 <= k < revs.len() ==> number_of(#[trigger] revs[k]) != Some(u64::MAX),
    ensures
        text_less(revs[i], revs[j]),
    decreases j - i,
{
    lemma_revision_is_tid(revs, offers, j - 1);
    assert(revs[j] == following(tid_of(offers[j]), Some(revs[j - 1])));
    law_next_sorts_after(tid_of(offers[j]), revs[j - 1]);
    if i < j - 1 {
        law_revisions_strictly_increase(revs, offers, i, j - 1);
        lemma_text_order(revs[i], revs[j - 1], revs[j]);
    }
}

proof fn lemma_revision_is_tid(revs: Seq<Seq<char>>, offers: Seq<u64>, k: int)
    requires
        0 <= k < revs.len(),
        offers.len() == revs.len(),
        revs[0] == tid_of(offers[0]),
        forall|k: int|
            0 < k < revs.len() ==> #[trigger] revs[k] == following(
                tid_of(offers[k]),
                Some(revs[k - 1]),
            ),
    ensures
        is_tid_text(revs[k]),
        digit_of(revs[k][0]) < 16,
    decreases k,
{
    if k > 0 {
        lemma_revision_is_tid(revs, offers, k - 1);
        let prev = revs[k - 1];
        let v = number_of(prev)->0;
        law_tid_leads_low(if v == u64::MAX { v } else { (v + 1) as u64 });
    }
    law_tid_leads_low(offers[k]);
}

/// The TID of a number has its spare bit clear.
pub proof fn law_tid_leads_low(v: u64)
    ensures
        is_tid_text(tid_of(v)),
        digit_of(tid_of(v)[0]) < 16,
{
    law_number_round_trip(v);
    let s = tid_of(v);
    assert forall|i: int| 0 <= i < 13 implies 0 <= digit_of(#[trigger] s[i]) < 32 by {
        assert(is_digit_char(s[i]));
    }
    lemma_value_floor(s, 13);
    lemma_thirteen_places();
    lemma_sort_text(v as nat, 13);
    assert(s.take(13) =~= s);
}

/// The first `n` characters of a text whose first stands for sixteen or more.
proof fn lemma_value_floor(s: Seq<char>, n: nat)
    requires
        0 < n <= s.len(),
        forall|i: int| 0 <= i < s.len() ==> 0 <= digit_of(#[trigger] s[i]) < 32,
    ensures
        digit_of(s[0]) >= 16 ==> sort_value(s.take(n as int)) * 2 >= places(n),
    decreases n,
{
    let front = s.take(n as int);
    assert(front.drop_last() =~= s.take(n - 1));
    assert(front.last() == s[n - 1]);
    assert(sort_value(front) == sort_value(s.take(n - 1)) * 32 + digit_of(s[n - 1]));
    assert(places(n) == 32 * places((n - 1) as nat));
    if n == 1 {
        assert(sort_value(s.take(0)) == 0);
        assert(places(0) == 1);
    } else {
        lemma_value_floor(s, (n - 1) as nat);
    }
}

/// A minted TID has the form of a TID, in characters as in bytes, with its spare bit clear.
pub proof fn law_minted_is_tid(tid: Seq<char>)
    requires
        is_minted(tid),
    ensures
        is_tid_text(tid),
        digit_of(tid[0]) < 16,
        encode_utf8(tid).len() == 13,
{
    let (us, clock_id) = choose|us: u64, clock_id: u16| tid == #[trigger] tid_of(stamp(us, clock_id));
    law_tid_leads_low(stamp(us, clock_id));
    lemma_thirteen_places();
    lemma_ascii(stamp(us, clock_id) as nat, 13);
}

/// A timestamp that fits survives being written as a TID and read back, whatever the clock
/// identifier beside it.
pub proof fn law_micros_round_trip(us: i64, clock_id: u16)
    requires
        0 <= us < MICROS_SPAN,
    ensures
        number_of(tid_of(stamp(us as u64, clock_id))) is Some,
        stamped_micros(number_of(tid_of(stamp(us as u64, clock_id)))->0) == us,
{
    law_number_round_trip(stamp(us as u64, clock_id));
}

/// TIDs of a later microsecond sort later, whatever their clock identifiers.
pub proof fn law_later_sorts_later(earlier: i64, later: i64, c1: u16, c2: u16)
    requires
        0 <= earlier < later < MICROS_SPAN,
    ensures
        text_less(tid_of(stamp(earlier as u64, c1)), tid_of(stamp(later as u64, c2))),
{
    law_tids_sort_as_numbers(stamp(earlier as u64, c1), stamp(later as u64, c2));
}

/// The TID made of a timestamp alone sorts behind none of the TIDs of that moment.
pub proof fn law_bare_timestamp_sorts_first(us: i64, clock_id: u16)
    requires
        0 <= us < MICROS_SPAN,
    ensures
        !text_less(tid_of(stamp(us as u64, clock_id)), tid_of(stamp(us as u64, 0))),
{
    law_tids_sort_as_numbers(stamp(us as u64, clock_id), stamp(us as u64, 0));
}

/// The number of a TID holds both halves: the timestamp, as far as there is room, above the clock
/// identifier.
pub proof fn law_stamp_holds_both_halves(us: u64, clock_id: u16)
    ensures
        stamp(us, clock_id) / 1024 == us % 0x40_0000_0000_0000,
        stamp(us, clock_id) % 1024 == clock_id % 1024,
        stamped_micros(stamp(us, clock_id)) == us % 0x40_0000_0000_0000,
{
}

/// What the clock offers is taken where there is nothing to follow, where it sorts behind what there is,
/// and where what there is is no TID. Otherwise the number behind it is taken, and the last number
/// stays what it is.
pub proof fn law_clock_is_taken_where_it_is_ahead(tid: Seq<char>, prev: Seq<char>, v: u64)
    ensures
        following(tid, None) == tid,
        text_less(prev, tid) ==> following(tid, Some(prev)) == tid,
        !is_tid_text(prev) ==> following(tid, Some(prev)) == tid,
        !text_less(tid_of(v), tid) && v < u64::MAX ==> following(tid, Some(tid_of(v))) == tid_of(
            (v + 1) as u64,
        ),
        !text_less(tid_of(u64::MAX), tid) ==> following(tid, Some(tid_of(u64::MAX))) == tid_of(
            u64::MAX,
        ),
{
    law_number_round_trip(v);
    law_number_round_trip(u64::MAX);
}

/// A text that denotes a moment leads to the TID of that moment, with clock identifier zero, from which
/// the moment can be read again; any other leads to none.
pub proof fn law_dates_lead_to_their_tids(iso: Seq<char>)
    ensures
        tid_of_iso8601(iso) is Some <==> micros_of_rfc3339(iso) is Some,
        micros_of_rfc3339(iso) matches Some(us) ==> (0 <= us < MICROS_SPAN ==> {
            let v = number_of(tid_of_iso8601(iso)->0);
            &&& v is Some
            &&& stamped_micros(v->0) == us
            &&& v->0 % 1024 == 0
        }),
{
    if let Some(us) = micros_of_rfc3339(iso) {
        if 0 <= us < MICROS_SPAN {
            law_micros_round_trip(us, 0);
            law_number_round_trip(stamp(us as u64, 0));
        }
    }
}

/// What a TID is read from is thirteen characters of the alphabet, and nothing else.
pub proof fn law_only_tids_are_read(s: Seq<char>, i: int)
    ensures
        s.len() != 13 ==> number_of(s) is None,
        0 <= i < s.len() && !('2' <= s[i] <= '7') && !('a' <= s[i] <= 'z') ==> number_of(s) is None,
        number_of(s) is Some <==> is_tid_text(s),
{
    if 0 <= i < s.len() && is_tid_text(s) {
        assert(is_digit_char(s[i]));
    }
}

} // verus!
