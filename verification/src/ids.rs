//! Identifiers the ledger derives: simulation account IDs of users and
//! execution IDs of fills entered without one.

use crate::auth::is_hyphenated_uuid;
use crate::text::{concat, push_char};
use uuid::Uuid;
use vstd::prelude::*;
use vstd::string::*;
use vstd::utf8::{encode_utf8, is_ascii_chars, is_ascii_chars_encode_utf8};

verus! {

pub open spec fn is_hex_digit(c: char) -> bool {
    ('0' <= c && c <= '9') || ('a' <= c && c <= 'f') || ('A' <= c && c <= 'F')
}

/// A lower-case hexadecimal digit.
pub open spec fn is_lower_hex_digit(c: char) -> bool {
    ('0' <= c && c <= '9') || ('a' <= c && c <= 'f')
}

/// Every character of `s` is a lower-case hexadecimal digit.
pub open spec fn all_lower_hex(s: Seq<char>) -> bool {
    forall|k: int| 0 <= k < s.len() ==> is_lower_hex_digit(#[trigger] s[k])
}

/// The hexadecimal digits of a text, in order.
pub open spec fn hex_digits(s: Seq<char>) -> Seq<char>
    decreases s.len(),
{
    if s.len() == 0 {
        Seq::empty()
    } else {
        let init = hex_digits(s.drop_last());
        if is_hex_digit(s.last()) {
            init.push(s.last())
        } else {
            init
        }
    }
}

/// At most the first `n` elements.
pub open spec fn first_n(s: Seq<char>, n: int) -> Seq<char> {
    if s.len() <= n {
        s
    } else {
        s.take(n)
    }
}

/// The simulation account of a user: `SIM` and the first 13 hexadecimal
/// digits of the user ID.
pub open spec fn account_id_for(user_id: Seq<char>) -> Seq<char> {
    "SIM"@ + first_n(hex_digits(user_id), 13)
}

proof fn lemma_hex_digits_step(s: Seq<char>, i: int)
    requires
        0 <= i < s.len(),
    ensures
        hex_digits(s.take(i + 1)) == (if is_hex_digit(s[i]) {
            hex_digits(s.take(i)).push(s[i])
        } else {
            hex_digits(s.take(i))
        }),
{
    assert(s.take(i + 1).drop_last() =~= s.take(i));
}

proof fn lemma_hex_digits_are_ascii(s: Seq<char>)
    ensures
        forall|k: int| 0 <= k < hex_digits(s).len() ==> is_hex_digit(#[trigger] hex_digits(s)[k]),
    decreases s.len(),
{
    if s.len() > 0 {
        lemma_hex_digits_are_ascii(s.drop_last());
        let init = hex_digits(s.drop_last());
        assert forall|k: int| 0 <= k < hex_digits(s).len() implies is_hex_digit(
            #[trigger] hex_digits(s)[k],
        ) by {
            if k < init.len() {
                assert(hex_digits(s)[k] == init[k]);
            }
        }
    }
}

/// Derives the stable, private simulation account ID of an authenticated user.
pub fn user_account_id(user_id: &str) -> (r: String)
    ensures
        r@ == account_id_for(user_id@),
{
    let n = user_id.unicode_len();
    let mut suffix = String::new();
    let mut i: usize = 0;
    while i < n
        invariant
            n == user_id@.len(),
            i <= n,
            suffix@ == first_n(hex_digits(user_id@.take(i as int)), 13),
        decreases n - i,
    {
        let c = user_id.get_char(i);
        proof {
            lemma_hex_digits_step(user_id@, i as int);
        }
        if ('0' <= c && c <= '9') || ('a' <= c && c <= 'f') || ('A' <= c && c <= 'F') {
            if suffix.as_str().unicode_len() < 13 {
                push_char(&mut suffix, c);
            }
        }
        proof {
            let h = hex_digits(user_id@.take(i as int));
            if is_hex_digit(c) && h.len() < 13 {
                assert(first_n(h.push(c), 13) =~= first_n(h, 13).push(c));
            } else if is_hex_digit(c) {
                assert(first_n(h.push(c), 13) =~= first_n(h, 13));
            }
        }
        i = i + 1;
    }
    assert(user_id@.take(n as int) =~= user_id@);
    concat("SIM", suffix.as_str())
}

/// A simulation account ID is ASCII and at most 16 characters, so at most
/// 16 bytes: it fits the account ID column whatever the user ID.
pub proof fn lemma_account_id_fits(user_id: Seq<char>)
    ensures
        account_id_for(user_id).len() <= 16,
        is_ascii_chars(account_id_for(user_id)),
        encode_utf8(account_id_for(user_id)).len() == account_id_for(user_id).len(),
{
    reveal_strlit("SIM");
    lemma_hex_digits_are_ascii(user_id);
    let h = first_n(hex_digits(user_id), 13);
    assert forall|k: int| 0 <= k < h.len() implies is_hex_digit(#[trigger] h[k]) by {
        assert(h[k] == hex_digits(user_id)[k]);
    }
    let a = account_id_for(user_id);
    assert forall|k: int| 0 <= k < a.len() implies '\0' <= #[trigger] a[k] <= '\u{7f}' by {
        if k >= 3 {
            assert(a[k] == h[k - 3]);
        }
    }
    is_ascii_chars_encode_utf8(a);
}

/// Upper-case hexadecimal digit of `d < 16`.
pub open spec fn upper_hex_char(d: int) -> char {
    if d < 10 {
        ((d + 48) as u32) as char
    } else {
        ((d + 55) as u32) as char
    }
}

/// The last `k` hexadecimal digits of `n`, upper case, zero-padded.
pub open spec fn upper_hex(n: nat, k: nat) -> Seq<char>
    decreases k,
{
    if k == 0 {
        Seq::empty()
    } else {
        upper_hex(n / 16, (k - 1) as nat).push(upper_hex_char((n % 16) as int))
    }
}

fn hex_digit_char(d: u64) -> (c: char)
    requires
        d < 16,
    ensures
        c == upper_hex_char(d as int),
{
    let c = match d {
        0 => '0',
        1 => '1',
        2 => '2',
        3 => '3',
        4 => '4',
        5 => '5',
        6 => '6',
        7 => '7',
        8 => '8',
        9 => '9',
        10 => 'A',
        11 => 'B',
        12 => 'C',
        13 => 'D',
        14 => 'E',
        _ => 'F',
    };
    c
}

fn write_upper_hex(out: &mut String, n: u64, k: u32)
    ensures
        final(out)@ == old(out)@ + upper_hex(n as nat, k as nat),
    decreases k,
{
    if k > 0 {
        write_upper_hex(out, n / 16, k - 1);
        let c = hex_digit_char(n % 16);
        push_char(out, c);
        assert(old(out)@ + upper_hex(n as nat, k as nat) =~= old(out)@ + upper_hex(
            (n / 16) as nat,
            (k - 1) as nat,
        ) + seq![c]);
    }
}

/// The execution ID of a fill entered at the command line: `EX` and the 16
/// upper-case hexadecimal digits of the timestamp in nanoseconds (two's
/// complement for a negative one).
pub fn cli_exec_id(timestamp_nanos: i64) -> (r: String)
    ensures
        r@ == "EX"@ + upper_hex((timestamp_nanos as u64) as nat, 16),
        r@.len() == 18,
        encode_utf8(r@).len() == 18,
{
    let mut r = String::from_str("EX");
    write_upper_hex(&mut r, timestamp_nanos as u64, 16);
    proof {
        reveal_strlit("EX");
        let h = upper_hex((timestamp_nanos as u64) as nat, 16);
        lemma_upper_hex_len((timestamp_nanos as u64) as nat, 16);
        lemma_upper_hex_ascii((timestamp_nanos as u64) as nat, 16);
        assert forall|k: int| 0 <= k < r@.len() implies '\0' <= #[trigger] r@[k] <= '\u{7f}' by {
            if k >= 2 {
                assert(r@[k] == h[k - 2]);
            }
        }
        is_ascii_chars_encode_utf8(r@);
    }
    r
}

proof fn lemma_upper_hex_ascii(n: nat, k: nat)
    ensures
        is_ascii_chars(upper_hex(n, k)),
    decreases k,
{
    if k > 0 {
        lemma_upper_hex_ascii(n / 16, (k - 1) as nat);
        let init = upper_hex(n / 16, (k - 1) as nat);
        let h = upper_hex(n, k);
        assert forall|i: int| 0 <= i < h.len() implies '\0' <= #[trigger] h[i] <= '\u{7f}' by {
            if i < init.len() {
                assert(h[i] == init[i]);
            }
        }
    }
}

proof fn lemma_upper_hex_len(n: nat, k: nat)
    ensures
        upper_hex(n, k).len() == k,
    decreases k,
{
    if k > 0 {
        lemma_upper_hex_len(n / 16, (k - 1) as nat);
    }
}

/// `Uuid::new_v4().simple().to_string()`: a random UUID written as 32
/// lower-case hexadecimal digits without hyphens, as the `Simple` format of
/// `uuid` is documented.
#[verifier::external_body]
fn random_uuid_simple() -> (r: String)
    ensures
        r@.len() == 32,
        all_lower_hex(r@),
{
    Uuid::new_v4().simple().to_string()
}

/// The execution ID of a fill entered through the web API without one: `WEB`
/// and the first 21 digits of a random UUID, 24 bytes in all, within the
/// execution ID limit.
pub fn web_exec_id() -> (r: String)
    ensures
        r@.len() == 24,
        is_ascii_chars(r@),
        encode_utf8(r@).len() == 24,
        r@.take(3) == "WEB"@,
        all_lower_hex(r@.skip(3)),
{
    let compact = random_uuid_simple();
    let head = compact.as_str().substring_char(0, 21);
    let r = concat("WEB", head);
    proof {
        reveal_strlit("WEB");
        assert(r@.take(3) =~= "WEB"@);
        assert(r@.skip(3) =~= head@);
        assert forall|k: int| 0 <= k < r@.len() implies '\0' <= #[trigger] r@[k] <= '\u{7f}' by {
            if k >= 3 {
                assert(r@[k] == compact@[k - 3]);
                assert(is_lower_hex_digit(compact@[k - 3]));
            }
        }
        is_ascii_chars_encode_utf8(r@);
    }
    r
}

/// `0`-`9`, `a`-`f` or `A`-`F`: what `char::is_ascii_hexdigit` accepts.
pub open spec fn ascii_hexdigit(c: char) -> bool {
    ('0' <= c && c <= '9') || ('a' <= c && c <= 'f') || ('A' <= c && c <= 'F')
}

proof fn lemma_hex_digits_concat(a: Seq<char>, b: Seq<char>)
    ensures
        hex_digits(a + b) == hex_digits(a) + hex_digits(b),
    decreases b.len(),
{
    if b.len() == 0 {
        assert(a + b =~= a);
        assert(hex_digits(a) + hex_digits(b) =~= hex_digits(a));
    } else {
        lemma_hex_digits_concat(a, b.drop_last());
        assert((a + b).drop_last() =~= a + b.drop_last());
        assert((a + b).last() == b.last());
        if is_hex_digit(b.last()) {
            assert(hex_digits(a) + hex_digits(b.drop_last()).push(b.last()) =~= (hex_digits(a)
                + hex_digits(b.drop_last())).push(b.last()));
        }
    }
}

proof fn lemma_hex_digits_of_digits(s: Seq<char>)
    requires
        forall|k: int| 0 <= k < s.len() ==> ascii_hexdigit(#[trigger] s[k]),
    ensures
        hex_digits(s) == s,
    decreases s.len(),
{
    if s.len() > 0 {
        lemma_hex_digits_of_digits(s.drop_last());
        assert(s.drop_last().push(s.last()) =~= s);
    }
}

/// A user ID made of hexadecimal digits only (`char::is_ascii_hexdigit`,
/// either case) gives `SIM` and its first 13 characters, all of them when
/// it is shorter.
pub proof fn lemma_account_id_of_hex_text(user_id: Seq<char>)
    requires
        forall|k: int|
            0 <= k < user_id.len() ==> ('0' <= #[trigger] user_id[k] && user_id[k] <= '9') || (
            'a' <= user_id[k] && user_id[k] <= 'f') || ('A' <= user_id[k] && user_id[k] <= 'F'),
    ensures
        account_id_for(user_id) == "SIM"@ + (if user_id.len() <= 13 {
            user_id
        } else {
            user_id.take(13)
        }),
{
    lemma_hex_digits_of_digits(user_id);
}

/// A character that is not a hexadecimal digit never changes the account
/// ID, wherever it stands in the user ID; one that is, is kept in its
/// place among the digits.
pub proof fn lemma_account_id_ignores_other_characters(a: Seq<char>, c: char, b: Seq<char>)
    ensures
        !(('0' <= c && c <= '9') || ('a' <= c && c <= 'f') || ('A' <= c && c <= 'F'))
            ==> account_id_for(a + seq![c] + b) == account_id_for(a + b),
        ('0' <= c && c <= '9') || ('a' <= c && c <= 'f') || ('A' <= c && c <= 'F') ==> hex_digits(
            a + seq![c] + b,
        ) == hex_digits(a) + seq![c] + hex_digits(b),
{
    lemma_hex_digits_concat(a + seq![c], b);
    lemma_hex_digits_concat(a, seq![c]);
    lemma_hex_digits_concat(a, b);
    assert(seq![c].drop_last() =~= Seq::<char>::empty());
    assert(seq![c].last() == c);
    reveal_with_fuel(hex_digits, 2);
    assert(hex_digits(seq![c]) == (if is_hex_digit(c) {
        Seq::<char>::empty().push(c)
    } else {
        Seq::<char>::empty()
    }));
    assert(Seq::<char>::empty().push(c) =~= seq![c]);
    assert(hex_digits(a) + Seq::<char>::empty() =~= hex_digits(a));
}

/// The account ID of a user whose ID is a hyphenated UUID (as the web API
/// gives them) is `SIM` and the first 13 digits of the UUID: its first
/// group of eight, its second group of four, and the first digit of the
/// third.
pub proof fn lemma_account_id_of_uuid(user_id: Seq<char>)
    requires
        is_hyphenated_uuid(user_id),
    ensures
        account_id_for(user_id) == "SIM"@ + user_id.take(8) + user_id.subrange(9, 13)
            + user_id.subrange(14, 15),
{
    let u = user_id;
    let p1 = u.subrange(0, 8);
    let p2 = u.subrange(9, 13);
    let p3 = u.subrange(14, 18);
    let p4 = u.subrange(19, 23);
    let p5 = u.subrange(24, 36);
    let h = seq!['-'];
    assert(u =~= p1 + h + p2 + h + p3 + h + p4 + h + p5);
    assert forall|i: int| 0 <= i < 36 && i != 8 && i != 13 && i != 18 && i != 23 implies ascii_hexdigit(
        #[trigger] u[i],
    ) by {
        assert(is_lower_hex_digit(u[i]));
    }
    assert forall|k: int| 0 <= k < p1.len() implies ascii_hexdigit(#[trigger] p1[k]) by {
        assert(p1[k] == u[k]);
    }
    assert forall|k: int| 0 <= k < p2.len() implies ascii_hexdigit(#[trigger] p2[k]) by {
        assert(p2[k] == u[9 + k]);
    }
    assert forall|k: int| 0 <= k < p3.len() implies ascii_hexdigit(#[trigger] p3[k]) by {
        assert(p3[k] == u[14 + k]);
    }
    assert forall|k: int| 0 <= k < p4.len() implies ascii_hexdigit(#[trigger] p4[k]) by {
        assert(p4[k] == u[19 + k]);
    }
    assert forall|k: int| 0 <= k < p5.len() implies ascii_hexdigit(#[trigger] p5[k]) by {
        assert(p5[k] == u[24 + k]);
    }
    lemma_hex_digits_of_digits(p1);
    lemma_hex_digits_of_digits(p2);
    lemma_hex_digits_of_digits(p3);
    lemma_hex_digits_of_digits(p4);
    lemma_hex_digits_of_digits(p5);
    assert(hex_digits(h) =~= Seq::<char>::empty()) by {
        assert(h.drop_last() =~= Seq::<char>::empty());
        assert(h.last() == '-');
        reveal_with_fuel(hex_digits, 2);
    }
    lemma_hex_digits_concat(p1, h);
    lemma_hex_digits_concat(p1 + h, p2);
    lemma_hex_digits_concat(p1 + h + p2, h);
    lemma_hex_digits_concat(p1 + h + p2 + h, p3);
    lemma_hex_digits_concat(p1 + h + p2 + h + p3, h);
    lemma_hex_digits_concat(p1 + h + p2 + h + p3 + h, p4);
    lemma_hex_digits_concat(p1 + h + p2 + h + p3 + h + p4, h);
    lemma_hex_digits_concat(p1 + h + p2 + h + p3 + h + p4 + h, p5);
    let all = p1 + p2 + p3 + p4 + p5;
    assert(hex_digits(u) =~= all);
    assert(all.take(13) =~= u.take(8) + u.subrange(9, 13) + u.subrange(14, 15));
}

} // verus!
