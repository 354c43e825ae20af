//! The text form of a listen address.
//!
//! An IPv4 socket address is written as four decimal octets separated by
//! dots, a colon, and a decimal port: `127.0.0.1:8080`. An IPv6 socket address
//! is written as the address in square brackets, a colon, and the port:
//! `[::1]:8080`. Between the brackets stand up to eight groups of one to four
//! hexadecimal digits, separated by colons; one `::` may stand for the groups
//! of zeros that are left out; the last two groups may be written as four
//! dotted decimal octets; and `%` with a decimal scope may follow.

use vstd::prelude::*;
use vstd::string::StringSliceAdditionalSpecFns;

verus! {

/// An IPv4 socket address.
#[derive(Clone, Copy, Debug, PartialEq, Eq, Structural)]
pub struct ListenAddrV4 {
    pub octet0: u8,
    pub octet1: u8,
    pub octet2: u8,
    pub octet3: u8,
    pub port: u16,
}

/// `b` is an ASCII decimal digit.
pub open spec fn is_digit(b: u8) -> bool {
    48 <= b <= 57
}

/// Every byte of `s` is a decimal digit.
pub open spec fn all_digits(s: Seq<u8>) -> bool {
    forall|i: int| 0 <= i < s.len() ==> is_digit(#[trigger] s[i])
}

/// The number that the digits of `s` write in base ten.
pub open spec fn decimal_value(s: Seq<u8>) -> nat
    decreases s.len(),
{
    if s.len() == 0 {
        0
    } else {
        10 * decimal_value(s.drop_last()) + (s.last() - 48) as nat
    }
}

/// `s` writes the octet `v`: one to three digits, no zero in front of another
/// digit, and a value that fits.
pub open spec fn is_octet_text(s: Seq<u8>, v: u8) -> bool {
    &&& 1 <= s.len() <= 3
    &&& all_digits(s)
    &&& (s.len() > 1 ==> s[0] != 48)
    &&& decimal_value(s) == v
}

/// `s` writes the port `v`: at least one digit, zeros in front allowed, and a
/// value that fits.
pub open spec fn is_port_text(s: Seq<u8>, v: u16) -> bool {
    &&& 1 <= s.len()
    &&& all_digits(s)
    &&& decimal_value(s) == v
}

/// `s` writes `a` with its three dots at `i0`, `i1`, `i2` and its colon at `i3`.
pub open spec fn splits_as(s: Seq<u8>, i0: int, i1: int, i2: int, i3: int, a: ListenAddrV4) -> bool {
    &&& 0 <= i0 < i1 < i2 < i3 < s.len()
    &&& s[i0] == 46
    &&& s[i1] == 46
    &&& s[i2] == 46
    &&& s[i3] == 58
    &&& is_octet_text(s.subrange(0, i0), a.octet0)
    &&& is_octet_text(s.subrange(i0 + 1, i1), a.octet1)
    &&& is_octet_text(s.subrange(i1 + 1, i2), a.octet2)
    &&& is_octet_text(s.subrange(i2 + 1, i3), a.octet3)
    &&& is_port_text(s.subrange(i3 + 1, s.len() as int), a.port)
}

/// The bytes `s` are the text form of the IPv4 socket address `a`.
pub open spec fn is_v4_text(s: Seq<u8>, a: ListenAddrV4) -> bool {
    exists|i0: int, i1: int, i2: int, i3: int| #[trigger] splits_as(s, i0, i1, i2, i3, a)
}

/// Where the run of digits that starts at `from` ends.
pub open spec fn digits_end(s: Seq<u8>, from: int) -> int
    decreases s.len() - from,
{
    if 0 <= from < s.len() && is_digit(s[from]) {
        digits_end(s, from + 1)
    } else {
        from
    }
}

/// The octet that is written at `from`, if one is.
pub open spec fn octet_at(s: Seq<u8>, from: int) -> Option<u8> {
    let t = s.subrange(from, digits_end(s, from));
    if 1 <= t.len() <= 3 && (t.len() > 1 ==> t[0] != 48) && decimal_value(t) <= 255 {
        Some(decimal_value(t) as u8)
    } else {
        None
    }
}

/// The decimal number that is written at `from`, zeros in front allowed, if
/// one is and it is not above `limit`.
pub open spec fn number_at(s: Seq<u8>, from: int, limit: nat) -> Option<nat> {
    let t = s.subrange(from, digits_end(s, from));
    if 1 <= t.len() && decimal_value(t) <= limit {
        Some(decimal_value(t))
    } else {
        None
    }
}

proof fn lemma_digits_end(s: Seq<u8>, from: int, end: int)
    requires
        0 <= from <= end <= s.len(),
        all_digits(s.subrange(from, end)),
        end < s.len() ==> !is_digit(s[end]),
    ensures
        digits_end(s, from) == end,
    decreases end - from,
{
    if from < end {
        assert(s.subrange(from, end)[0] == s[from]);
        assert forall|i: int| 0 <= i < end - (from + 1) implies is_digit(
            #[trigger] s.subrange(from + 1, end)[i],
        ) by {
            assert(s.subrange(from, end)[i + 1] == s[from + 1 + i]);
        }
        lemma_digits_end(s, from + 1, end);
    }
}

/// The separators of a text form stand where its runs of digits end.
proof fn lemma_split_points(s: Seq<u8>, i0: int, i1: int, i2: int, i3: int, a: ListenAddrV4)
    requires
        splits_as(s, i0, i1, i2, i3, a),
    ensures
        i0 == digits_end(s, 0),
        i1 == digits_end(s, i0 + 1),
        i2 == digits_end(s, i1 + 1),
        i3 == digits_end(s, i2 + 1),
        s.len() == digits_end(s, i3 + 1),
{
    lemma_digits_end(s, 0, i0);
    lemma_digits_end(s, i0 + 1, i1);
    lemma_digits_end(s, i1 + 1, i2);
    lemma_digits_end(s, i2 + 1, i3);
    lemma_digits_end(s, i3 + 1, s.len() as int);
}

/// A text has at most one reading: bytes that write `a` write no other address.
pub proof fn lemma_v4_text_unique(s: Seq<u8>, a: ListenAddrV4, b: ListenAddrV4)
    requires
        is_v4_text(s, a),
        is_v4_text(s, b),
    ensures
        a == b,
{
    let (i0, i1, i2, i3) = choose|i0: int, i1: int, i2: int, i3: int| #[trigger]
        splits_as(s, i0, i1, i2, i3, a);
    let (j0, j1, j2, j3) = choose|j0: int, j1: int, j2: int, j3: int| #[trigger]
        splits_as(s, j0, j1, j2, j3, b);
    lemma_split_points(s, i0, i1, i2, i3, a);
    lemma_split_points(s, j0, j1, j2, j3, b);
}

/// Reads the run of digits that starts at `from`: where it ends, and its value
/// unless that is above `limit`.
fn read_decimal(b: &[u8], from: usize, limit: u64) -> (r: (usize, Option<u64>))
    requires
        from <= b@.len(),
        limit <= 4294967295,
    ensures
        r.0 as int == digits_end(b@, from as int),
        from <= r.0 <= b@.len(),
        all_digits(b@.subrange(from as int, r.0 as int)),
        match r.1 {
            Some(v) => v == decimal_value(b@.subrange(from as int, r.0 as int)) && v <= limit,
            None => decimal_value(b@.subrange(from as int, r.0 as int)) > limit,
        },
{
    let mut i: usize = from;
    let mut value: u64 = 0;
    let mut fits: bool = true;
    while i < b.len() && b[i] >= 48 && b[i] <= 57
        invariant
            from <= i <= b@.len(),
            limit <= 4294967295,
            all_digits(b@.subrange(from as int, i as int)),
            digits_end(b@, from as int) == digits_end(b@, i as int),
            fits ==> value == decimal_value(b@.subrange(from as int, i as int)) && value <= limit,
            !fits ==> decimal_value(b@.subrange(from as int, i as int)) > limit,
        decreases b@.len() - i,
    {
        let digit: u64 = (b[i] - 48) as u64;
        proof {
            let prev = b@.subrange(from as int, i as int);
            let next = b@.subrange(from as int, i + 1);
            assert(next.drop_last() =~= prev);
            assert(next.last() == b@[i as int]);
            assert forall|k: int| 0 <= k < next.len() implies is_digit(#[trigger] next[k]) by {
                if k < prev.len() {
                    assert(next[k] == prev[k]);
                }
            }
        }
        if fits {
            let grown: u64 = value * 10 + digit;
            if grown > limit {
                fits = false;
            } else {
                value = grown;
            }
        }
        i += 1;
    }
    if fits {
        (i, Some(value))
    } else {
        (i, None)
    }
}

/// Reads the octet whose digits start at `from`.
fn read_octet(b: &[u8], from: usize) -> (r: (usize, Option<u8>))
    requires
        from <= b@.len(),
    ensures
        r.0 as int == digits_end(b@, from as int),
        from <= r.0 <= b@.len(),
        r.1 == octet_at(b@, from as int),
        match r.1 {
            Some(v) => is_octet_text(b@.subrange(from as int, r.0 as int), v),
            None => forall|v: u8| !is_octet_text(b@.subrange(from as int, r.0 as int), v),
        },
{
    let (end, value) = read_decimal(b, from, 255);
    let width: usize = end - from;
    if width < 1 || width > 3 {
        return (end, None);
    }
    assert(b@.subrange(from as int, end as int)[0] == b@[from as int]);
    if width > 1 && b[from] == 48 {
        return (end, None);
    }
    match value {
        Some(v) => (end, Some(v as u8)),
        None => (end, None),
    }
}

/// Reads the number whose digits start at `from`, unless it is above `limit`.
fn read_number(b: &[u8], from: usize, limit: u64) -> (r: (usize, Option<u64>))
    requires
        from <= b@.len(),
        limit <= 4294967295,
    ensures
        r.0 as int == digits_end(b@, from as int),
        from <= r.0 <= b@.len(),
        all_digits(b@.subrange(from as int, r.0 as int)),
        match r.1 {
            Some(v) => number_at(b@, from as int, limit as nat) == Some(v as nat) && v <= limit,
            None => number_at(b@, from as int, limit as nat) is None,
        },
{
    let (end, value) = read_decimal(b, from, limit);
    if end == from {
        return (end, None);
    }
    (end, value)
}

/// Reads the port whose digits start at `from`.
fn read_port(b: &[u8], from: usize) -> (r: (usize, Option<u16>))
    requires
        from <= b@.len(),
    ensures
        r.0 as int == digits_end(b@, from as int),
        from <= r.0 <= b@.len(),
        match r.1 {
            Some(v) => {
                &&& is_port_text(b@.subrange(from as int, r.0 as int), v)
                &&& number_at(b@, from as int, 65535) == Some(v as nat)
            },
            None => {
                &&& forall|v: u16| !is_port_text(b@.subrange(from as int, r.0 as int), v)
                &&& number_at(b@, from as int, 65535) is None
            },
        },
{
    let (end, value) = read_number(b, from, 65535);
    match value {
        Some(v) => (end, Some(v as u16)),
        None => (end, None),
    }
}

/// `s` writes `a` with each separator where the run of digits before it ends.
pub open spec fn splits_at_digit_ends(s: Seq<u8>, a: ListenAddrV4) -> bool {
    let i0 = digits_end(s, 0);
    let i1 = digits_end(s, i0 + 1);
    let i2 = digits_end(s, i1 + 1);
    let i3 = digits_end(s, i2 + 1);
    splits_as(s, i0, i1, i2, i3, a)
}

/// Reads an IPv4 socket address field by field, each field ending where its
/// digits end.
fn read_v4_fields(b: &[u8]) -> (r: Option<ListenAddrV4>)
    ensures
        match r {
            Some(a) => splits_at_digit_ends(b@, a),
            None => forall|a: ListenAddrV4| !#[trigger] splits_at_digit_ends(b@, a),
        },
{
    let n: usize = b.len();
    let (e0, o0) = read_octet(b, 0);
    if e0 >= n || b[e0] != 46 {
        return None;
    }
    let (e1, o1) = read_octet(b, e0 + 1);
    if e1 >= n || b[e1] != 46 {
        return None;
    }
    let (e2, o2) = read_octet(b, e1 + 1);
    if e2 >= n || b[e2] != 46 {
        return None;
    }
    let (e3, o3) = read_octet(b, e2 + 1);
    if e3 >= n || b[e3] != 58 {
        return None;
    }
    let (e4, port) = read_port(b, e3 + 1);
    if e4 != n {
        proof {
            // A port that ran to the end of the text would end the digits there.
            assert forall|a: ListenAddrV4| !#[trigger] splits_at_digit_ends(b@, a) by {
                if splits_at_digit_ends(b@, a) {
                    lemma_split_points(b@, e0 as int, e1 as int, e2 as int, e3 as int, a);
                }
            }
        }
        return None;
    }
    match (o0, o1, o2, o3, port) {
        (Some(v0), Some(v1), Some(v2), Some(v3), Some(p)) => Some(
            ListenAddrV4 { octet0: v0, octet1: v1, octet2: v2, octet3: v3, port: p },
        ),
        _ => None,
    }
}

/// Reads an IPv4 socket address that fills `b`.
fn read_v4_socket(b: &[u8]) -> (r: Option<ListenAddrV4>)
    ensures
        match r {
            Some(a) => is_v4_text(b@, a),
            None => forall|a: ListenAddrV4| !is_v4_text(b@, a),
        },
{
    let r = read_v4_fields(b);
    proof {
        assert forall|a: ListenAddrV4| is_v4_text(b@, a) implies splits_at_digit_ends(b@, a) by {
            let (i0, i1, i2, i3) = choose|i0: int, i1: int, i2: int, i3: int| #[trigger]
                splits_as(b@, i0, i1, i2, i3, a);
            lemma_split_points(b@, i0, i1, i2, i3, a);
        }
    }
    r
}

/// An IPv6 socket address: eight groups of sixteen bits, a port and a scope.
#[derive(Clone, Copy, Debug, PartialEq, Eq, Structural)]
pub struct ListenAddrV6 {
    pub group0: u16,
    pub group1: u16,
    pub group2: u16,
    pub group3: u16,
    pub group4: u16,
    pub group5: u16,
    pub group6: u16,
    pub group7: u16,
    pub port: u16,
    pub scope_id: u32,
}

/// A socket address to listen on.
#[derive(Clone, Copy, Debug, PartialEq, Eq, Structural)]
pub enum ListenAddr {
    V4(ListenAddrV4),
    V6(ListenAddrV6),
}

impl ListenAddrV6 {
    /// The eight groups, first to last.
    pub open spec fn groups(self) -> Seq<u16> {
        seq![
            self.group0,
            self.group1,
            self.group2,
            self.group3,
            self.group4,
            self.group5,
            self.group6,
            self.group7,
        ]
    }
}

/// `b` is an ASCII hexadecimal digit, in either case.
pub open spec fn is_hex_digit(b: u8) -> bool {
    is_digit(b) || 97 <= b <= 102 || 65 <= b <= 70
}

/// The value of the hexadecimal digit `b`.
pub open spec fn hex_digit_value(b: u8) -> nat {
    if is_digit(b) {
        (b - 48) as nat
    } else if 97 <= b <= 102 {
        (b - 87) as nat
    } else {
        (b - 55) as nat
    }
}

/// The number that the digits of `s` write in base sixteen.
pub open spec fn hex_value(s: Seq<u8>) -> nat
    decreases s.len(),
{
    if s.len() == 0 {
        0
    } else {
        16 * hex_value(s.drop_last()) + hex_digit_value(s.last())
    }
}

/// Where the run of hexadecimal digits that starts at `from` ends.
pub open spec fn hex_end(s: Seq<u8>, from: int) -> int
    decreases s.len() - from,
{
    if 0 <= from < s.len() && is_hex_digit(s[from]) {
        hex_end(s, from + 1)
    } else {
        from
    }
}

/// The group that is written at `from`, if one is: a run of one to four
/// hexadecimal digits.
pub open spec fn hex_group_at(s: Seq<u8>, from: int) -> Option<u16> {
    let t = s.subrange(from, hex_end(s, from));
    if 1 <= t.len() <= 4 {
        Some(hex_value(t) as u16)
    } else {
        None
    }
}

/// The two groups that four dotted octets at `from` write, and where they
/// end, if four are written there.
pub open spec fn v4_at(s: Seq<u8>, from: int) -> Option<(u16, u16, int)> {
    let e0 = digits_end(s, from);
    let e1 = digits_end(s, e0 + 1);
    let e2 = digits_end(s, e1 + 1);
    let e3 = digits_end(s, e2 + 1);
    if octet_at(s, from) is Some && e0 < s.len() && s[e0] == 46 && octet_at(s, e0 + 1) is Some
        && e1 < s.len() && s[e1] == 46 && octet_at(s, e1 + 1) is Some && e2 < s.len() && s[e2]
        == 46 && octet_at(s, e2 + 1) is Some {
        Some(
            (
                (octet_at(s, from)->0 * 256 + octet_at(s, e0 + 1)->0) as u16,
                (octet_at(s, e1 + 1)->0 * 256 + octet_at(s, e2 + 1)->0) as u16,
                e3,
            ),
        )
    } else {
        None
    }
}

/// A list of groups read from a text: their values, where the list ends, and
/// whether its last two groups were written as dotted octets.
pub struct Groups {
    pub values: Seq<u16>,
    pub end: int,
    pub dotted: bool,
}

/// The list of at most `room` groups that is written at `from`. The groups
/// are separated by single colons; where `first` is false the list goes on
/// from an earlier group, so a colon comes first. Where two groups are still
/// wanted and four dotted octets are written, they are the last two groups.
/// The list ends before the first colon that no group follows.
pub open spec fn groups_at(s: Seq<u8>, from: int, first: bool, room: nat) -> Groups
    decreases room,
{
    let start = if first { from } else { from + 1 };
    if room == 0 || !(first || (0 <= from < s.len() && s[from] == 58)) {
        Groups { values: Seq::empty(), end: from, dotted: false }
    } else if room >= 2 && v4_at(s, start) is Some {
        let (high, low, end) = v4_at(s, start)->0;
        Groups { values: seq![high, low], end, dotted: true }
    } else if hex_group_at(s, start) is Some {
        let rest = groups_at(s, hex_end(s, start), false, (room - 1) as nat);
        Groups {
            values: seq![hex_group_at(s, start)->0] + rest.values,
            end: rest.end,
            dotted: rest.dotted,
        }
    } else {
        Groups { values: Seq::empty(), end: from, dotted: false }
    }
}

/// `n` groups of zeros.
pub open spec fn zero_groups(n: nat) -> Seq<u16> {
    Seq::new(n, |i: int| 0u16)
}

/// The eight groups of the IPv6 address that is written at `from`, and where
/// it ends, if one is written there: either eight groups, or fewer than eight
/// with one `::` among them, before them or after them, which stands for the
/// groups of zeros that are missing. Dotted octets may only end the address.
pub open spec fn v6_at(s: Seq<u8>, from: int) -> Option<(Seq<u16>, int)> {
    let head = groups_at(s, from, true, 8);
    if head.values.len() == 8 {
        Some((head.values, head.end))
    } else if !head.dotted && head.values.len() < 8 && 0 <= head.end && head.end + 1 < s.len()
        && s[head.end] == 58 && s[head.end + 1] == 58 {
        let tail = groups_at(s, head.end + 2, true, (7 - head.values.len()) as nat);
        let zeros = zero_groups((8 - head.values.len() - tail.values.len()) as nat);
        Some((head.values + zeros + tail.values, tail.end))
    } else {
        None
    }
}

/// The groups, the port and the scope of the IPv6 socket address that `s`
/// writes, if it writes one: `[`, the address, `%` and a scope where there is
/// one, `]`, `:`, and the port up to the end of the text. Without a scope the
/// scope is zero.
pub open spec fn v6_socket_of(s: Seq<u8>) -> Option<(Seq<u16>, u16, u32)> {
    if s.len() >= 1 && s[0] == 91 && v6_at(s, 1) is Some {
        let (groups, end) = v6_at(s, 1)->0;
        let scoped = 0 <= end < s.len() && s[end] == 37 && number_at(s, end + 1, 4294967295)
            is Some;
        let scope = if scoped { number_at(s, end + 1, 4294967295)->0 } else { 0 };
        let close = if scoped { digits_end(s, end + 1) } else { end };
        if 0 <= close && close + 1 < s.len() && s[close] == 93 && s[close + 1] == 58 && number_at(
            s,
            close + 2,
            65535,
        ) is Some && digits_end(s, close + 2) == s.len() {
            Some((groups, number_at(s, close + 2, 65535)->0 as u16, scope as u32))
        } else {
            None
        }
    } else {
        None
    }
}

/// The bytes `s` are the text form of the IPv6 socket address `a`.
pub open spec fn is_v6_text(s: Seq<u8>, a: ListenAddrV6) -> bool {
    v6_socket_of(s) == Some((a.groups(), a.port, a.scope_id))
}

/// The bytes `s` are the text form of the address `a`.
pub open spec fn is_listen_addr_text(s: Seq<u8>, a: ListenAddr) -> bool {
    match a {
        ListenAddr::V4(v4) => is_v4_text(s, v4),
        ListenAddr::V6(v6) => is_v6_text(s, v6),
    }
}

/// The bytes `s` are the text form of some address.
pub open spec fn is_listen_addr(s: Seq<u8>) -> bool {
    exists|a: ListenAddr| is_listen_addr_text(s, a)
}

proof fn lemma_run_ends_inside(s: Seq<u8>, from: int)
    requires
        0 <= from <= s.len(),
    ensures
        from <= digits_end(s, from) <= s.len(),
        from <= hex_end(s, from) <= s.len(),
    decreases s.len() - from,
{
    if from < s.len() {
        lemma_run_ends_inside(s, from + 1);
    }
}

proof fn lemma_groups_fit(s: Seq<u8>, from: int, first: bool, room: nat)
    requires
        0 <= from <= s.len(),
    ensures
        groups_at(s, from, first, room).values.len() <= room,
        from <= groups_at(s, from, first, room).end <= s.len(),
    decreases room,
{
    let start = if first { from } else { from + 1 };
    if room == 0 || !(first || (0 <= from < s.len() && s[from] == 58)) {
    } else if room >= 2 && v4_at(s, start) is Some {
        lemma_run_ends_inside(s, start);
        let e0 = digits_end(s, start);
        lemma_run_ends_inside(s, e0 + 1);
        let e1 = digits_end(s, e0 + 1);
        lemma_run_ends_inside(s, e1 + 1);
        let e2 = digits_end(s, e1 + 1);
        lemma_run_ends_inside(s, e2 + 1);
    } else if hex_group_at(s, start) is Some {
        lemma_run_ends_inside(s, start);
        lemma_groups_fit(s, hex_end(s, start), false, (room - 1) as nat);
    }
}

/// An IPv6 address that is read has eight groups and ends inside the text:
/// the groups before and after a `::` leave at least one group for it.
pub proof fn lemma_v6_has_eight_groups(s: Seq<u8>, from: int)
    requires
        0 <= from <= s.len(),
    ensures
        v6_at(s, from) matches Some((groups, end)) ==> groups.len() == 8 && from <= end
            <= s.len(),
{
    lemma_groups_fit(s, from, true, 8);
    let head = groups_at(s, from, true, 8);
    if head.values.len() < 8 && head.end + 1 < s.len() {
        lemma_groups_fit(s, head.end + 2, true, (7 - head.values.len()) as nat);
    }
}

/// An IPv4 text starts with a digit.
proof fn lemma_v4_text_starts_with_digit(s: Seq<u8>, a: ListenAddrV4)
    requires
        is_v4_text(s, a),
    ensures
        s.len() > 0,
        is_digit(s[0]),
{
    let (i0, i1, i2, i3) = choose|i0: int, i1: int, i2: int, i3: int| #[trigger]
        splits_as(s, i0, i1, i2, i3, a);
    assert(s.subrange(0, i0)[0] == s[0]);
}

/// A text has at most one reading: bytes that write `a` write no other address.
pub proof fn lemma_listen_addr_text_unique(s: Seq<u8>, a: ListenAddr, b: ListenAddr)
    requires
        is_listen_addr_text(s, a),
        is_listen_addr_text(s, b),
    ensures
        a == b,
{
    match (a, b) {
        (ListenAddr::V4(x), ListenAddr::V4(y)) => {
            lemma_v4_text_unique(s, x, y);
        },
        (ListenAddr::V6(x), ListenAddr::V6(y)) => {
            assert(x.groups() == y.groups());
            assert(x.groups()[0] == y.groups()[0]);
            assert(x.groups()[1] == y.groups()[1]);
            assert(x.groups()[2] == y.groups()[2]);
            assert(x.groups()[3] == y.groups()[3]);
            assert(x.groups()[4] == y.groups()[4]);
            assert(x.groups()[5] == y.groups()[5]);
            assert(x.groups()[6] == y.groups()[6]);
            assert(x.groups()[7] == y.groups()[7]);
        },
        (ListenAddr::V4(x), ListenAddr::V6(y)) => {
            lemma_v4_text_starts_with_digit(s, x);
        },
        (ListenAddr::V6(x), ListenAddr::V4(y)) => {
            lemma_v4_text_starts_with_digit(s, y);
        },
    }
}

/// The value of a hexadecimal digit, if `c` is one.
fn hex_digit(c: u8) -> (r: Option<u32>)
    ensures
        r is Some == is_hex_digit(c),
        r matches Some(v) ==> v == hex_digit_value(c) && v < 16,
{
    if c >= 48 && c <= 57 {
        Some((c - 48) as u32)
    } else if c >= 97 && c <= 102 {
        Some((c - 87) as u32)
    } else if c >= 65 && c <= 70 {
        Some((c - 55) as u32)
    } else {
        None
    }
}

/// Reads the group whose digits start at `from`.
fn read_hex_group(b: &[u8], from: usize) -> (r: (usize, Option<u16>))
    requires
        from <= b@.len(),
    ensures
        r.0 as int == hex_end(b@, from as int),
        from <= r.0 <= b@.len(),
        r.1 == hex_group_at(b@, from as int),
{
    let mut i: usize = from;
    let mut value: u32 = 0;
    loop
        invariant
            from <= i <= b@.len(),
            hex_end(b@, from as int) == hex_end(b@, i as int),
            i - from <= 4 ==> value == hex_value(b@.subrange(from as int, i as int)),
            i - from == 0 ==> value == 0,
            i - from == 1 ==> value < 16,
            i - from == 2 ==> value < 256,
            i - from == 3 ==> value < 4096,
            value < 65536,
        ensures
            i >= b@.len() || !is_hex_digit(b@[i as int]),
        decreases b@.len() - i,
    {
        if i >= b.len() {
            break;
        }
        let digit: u32 = match hex_digit(b[i]) {
            Some(d) => d,
            None => {
                break;
            },
        };
        proof {
            let prev = b@.subrange(from as int, i as int);
            let next = b@.subrange(from as int, i + 1);
            assert(next.drop_last() =~= prev);
            assert(next.last() == b@[i as int]);
        }
        if i - from < 4 {
            value = value * 16 + digit;
        }
        i += 1;
    }
    let width: usize = i - from;
    if width >= 1 && width <= 4 {
        (i, Some(value as u16))
    } else {
        (i, None)
    }
}

/// Reads four dotted octets at `from` as two groups.
fn read_dotted(b: &[u8], from: usize) -> (r: Option<(u16, u16, usize)>)
    requires
        from <= b@.len(),
    ensures
        match r {
            Some((high, low, end)) => v4_at(b@, from as int) == Some((high, low, end as int))
                && from <= end <= b@.len(),
            None => v4_at(b@, from as int) is None,
        },
{
    let n: usize = b.len();
    let (e0, o0) = read_octet(b, from);
    if o0.is_none() || e0 >= n || b[e0] != 46 {
        return None;
    }
    let (e1, o1) = read_octet(b, e0 + 1);
    if o1.is_none() || e1 >= n || b[e1] != 46 {
        return None;
    }
    let (e2, o2) = read_octet(b, e1 + 1);
    if o2.is_none() || e2 >= n || b[e2] != 46 {
        return None;
    }
    let (e3, o3) = read_octet(b, e2 + 1);
    match (o0, o1, o2, o3) {
        (Some(v0), Some(v1), Some(v2), Some(v3)) => {
            let high: u16 = (v0 as u16) * 256 + (v1 as u16);
            let low: u16 = (v2 as u16) * 256 + (v3 as u16);
            Some((high, low, e3))
        },
        _ => None,
    }
}

/// Reads the list of at most `room` groups at `from` and adds them to `acc`.
fn read_groups(b: &[u8], from: usize, first: bool, room: usize, acc: Vec<u16>) -> (r: (
    Vec<u16>,
    usize,
    bool,
))
    requires
        from <= b@.len(),
        room <= 8,
    ensures
        r.0@ == acc@ + groups_at(b@, from as int, first, room as nat).values,
        r.1 as int == groups_at(b@, from as int, first, room as nat).end,
        r.2 == groups_at(b@, from as int, first, room as nat).dotted,
        from <= r.1 <= b@.len(),
        groups_at(b@, from as int, first, room as nat).values.len() <= room,
    decreases room,
{
    let mut acc = acc;
    if room == 0 || !(first || (from < b.len() && b[from] == 58)) {
        assert(acc@ + Seq::<u16>::empty() =~= acc@);
        return (acc, from, false);
    }
    let start: usize = if first { from } else { from + 1 };
    if room >= 2 {
        match read_dotted(b, start) {
            Some((high, low, end)) => {
                let ghost before = acc@;
                acc.push(high);
                acc.push(low);
                assert(acc@ =~= before + seq![high, low]);
                return (acc, end, true);
            },
            None => {},
        }
    }
    let (end, group) = read_hex_group(b, start);
    match group {
        Some(v) => {
            let ghost before = acc@;
            acc.push(v);
            let r = read_groups(b, end, false, room - 1, acc);
            proof {
                let rest = groups_at(b@, end as int, false, (room - 1) as nat);
                assert(r.0@ =~= before + (seq![v] + rest.values));
            }
            r
        },
        None => {
            assert(acc@ + Seq::<u16>::empty() =~= acc@);
            (acc, from, false)
        },
    }
}

/// Reads the IPv6 address at `from`.
fn read_v6(b: &[u8], from: usize) -> (r: Option<(Vec<u16>, usize)>)
    requires
        from <= b@.len(),
    ensures
        match r {
            Some((groups, end)) => {
                &&& v6_at(b@, from as int) == Some((groups@, end as int))
                &&& groups@.len() == 8
                &&& from <= end <= b@.len()
            },
            None => v6_at(b@, from as int) is None,
        },
{
    let (head, end, dotted) = read_groups(b, from, true, 8, Vec::new());
    let ghost head_values = head@;
    assert(head_values =~= groups_at(b@, from as int, true, 8).values);
    if head.len() == 8 {
        return Some((head, end));
    }
    if dotted || end >= b.len() || b.len() - end < 2 || b[end] != 58 || b[end + 1] != 58 {
        return None;
    }
    let head_len: usize = head.len();
    let (tail, tail_end, _) = read_groups(b, end + 2, true, 7 - head_len, Vec::new());
    assert(tail@ =~= groups_at(b@, end + 2, true, (7 - head_len) as nat).values);
    let mut groups = head;
    let mut k: usize = head_len + tail.len();
    while k < 8
        invariant
            head_len + tail@.len() <= k <= 8,
            groups@ =~= head_values + zero_groups((k - head_len - tail@.len()) as nat),
            head_values.len() == head_len,
        decreases 8 - k,
    {
        groups.push(0);
        k += 1;
    }
    let ghost padded = groups@;
    let mut j: usize = 0;
    while j < tail.len()
        invariant
            j <= tail@.len(),
            groups@ =~= padded + tail@.subrange(0, j as int),
        decreases tail@.len() - j,
    {
        groups.push(tail[j]);
        j += 1;
    }
    assert(tail@.subrange(0, tail@.len() as int) =~= tail@);
    Some((groups, tail_end))
}

/// Reads an IPv6 socket address that fills `b`.
fn read_v6_socket(b: &[u8]) -> (r: Option<ListenAddrV6>)
    ensures
        match r {
            Some(a) => is_v6_text(b@, a),
            None => v6_socket_of(b@) is None,
        },
{
    let n: usize = b.len();
    if n < 1 || b[0] != 91 {
        return None;
    }
    let (groups, end) = match read_v6(b, 1) {
        Some(found) => found,
        None => {
            return None;
        },
    };
    let mut scope: u32 = 0;
    let mut close: usize = end;
    if end < n && b[end] == 37 {
        let (scope_end, value) = read_number(b, end + 1, 4294967295);
        match value {
            Some(v) => {
                scope = v as u32;
                close = scope_end;
            },
            None => {},
        }
    }
    if close >= n || n - close < 2 || b[close] != 93 || b[close + 1] != 58 {
        return None;
    }
    let (port_end, port) = read_port(b, close + 2);
    if port_end != n {
        return None;
    }
    match port {
        Some(p) => {
            let a = ListenAddrV6 {
                group0: groups[0],
                group1: groups[1],
                group2: groups[2],
                group3: groups[3],
                group4: groups[4],
                group5: groups[5],
                group6: groups[6],
                group7: groups[7],
                port: p,
                scope_id: scope,
            };
            assert(a.groups() =~= groups@);
            Some(a)
        },
        None => None,
    }
}

/// Parses the text form of a listen address. Returns the address that `text`
/// writes, and `None` exactly when it writes none.
pub fn parse_listen_addr(text: &str) -> (r: Option<ListenAddr>)
    ensures
        match r {
            Some(a) => is_listen_addr_text(text.spec_bytes(), a),
            None => !is_listen_addr(text.spec_bytes()),
        },
{
    let b = text.as_bytes();
    if b.len() > 0 && b[0] == 91 {
        let r = read_v6_socket(b);
        proof {
            assert forall|a: ListenAddrV4| !is_v4_text(b@, a) by {
                if is_v4_text(b@, a) {
                    lemma_v4_text_starts_with_digit(b@, a);
                }
            }
        }
        match r {
            Some(a) => Some(ListenAddr::V6(a)),
            None => None,
        }
    } else {
        match read_v4_socket(b) {
            Some(a) => Some(ListenAddr::V4(a)),
            None => None,
        }
    }
}
} // verus!
