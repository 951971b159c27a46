use vstd::prelude::*;
use vstd::string::StrSliceExecFns;
use crate::error::RingError;

verus! {

/// `c` is a decimal digit (48 and 57 are the code points of '0' and '9').
pub open spec fn is_digit_char(c: char) -> bool {
    48 <= c as u32 && c as u32 <= 57
}

/// The numeric value of a decimal digit character.
pub open spec fn digit_of(c: char) -> int {
    c as u32 - 48
}

/// Every character of `s` is a decimal digit.
pub open spec fn all_digits(s: Seq<char>) -> bool {
    forall|i: int| 0 <= i < s.len() ==> is_digit_char(s[i])
}

/// The value of `s` read as a decimal numeral.
pub open spec fn dec_value(s: Seq<char>) -> int
    decreases s.len(),
{
    if s.len() == 0 {
        0
    } else {
        dec_value(s.drop_last()) * 10 + digit_of(s.last())
    }
}

/// `s` is the text of one dotted-quad component: one to three digits, no
/// superfluous leading zero, value at most 255.
pub open spec fn is_octet_text(s: Seq<char>) -> bool {
    &&& 1 <= s.len() <= 3
    &&& all_digits(s)
    &&& (s.len() > 1 ==> s[0] as u32 != 48)
    &&& dec_value(s) <= 255
}

/// The index of the first '.' of `s` at or after `from`, or `s.len()` if
/// there is none.
pub open spec fn dot_after(s: Seq<char>, from: int) -> int
    decreases s.len() - from,
{
    if from >= s.len() {
        s.len() as int
    } else if s[from] == '.' {
        from
    } else {
        dot_after(s, from + 1)
    }
}

/// `s` is a dotted-quad IPv4 literal: exactly three dots, each of the
/// four pieces between them a valid octet text.
pub open spec fn is_ipv4_literal(s: Seq<char>) -> bool {
    let i = dot_after(s, 0);
    let j = dot_after(s, i + 1);
    let k = dot_after(s, j + 1);
    &&& k < s.len()
    &&& dot_after(s, k + 1) == s.len()
    &&& is_octet_text(s.subrange(0, i))
    &&& is_octet_text(s.subrange(i + 1, j))
    &&& is_octet_text(s.subrange(j + 1, k))
    &&& is_octet_text(s.subrange(k + 1, s.len() as int))
}

/// The four octet values of a dotted-quad IPv4 literal.
pub open spec fn ipv4_octets(s: Seq<char>) -> Seq<int> {
    let i = dot_after(s, 0);
    let j = dot_after(s, i + 1);
    let k = dot_after(s, j + 1);
    seq![
        dec_value(s.subrange(0, i)),
        dec_value(s.subrange(i + 1, j)),
        dec_value(s.subrange(j + 1, k)),
        dec_value(s.subrange(k + 1, s.len() as int)),
    ]
}

/// An IPv4 address as its four dotted-quad octets.
#[derive(Clone, Copy, Debug, PartialEq, Eq)]
pub struct Ipv4 {
    pub octets: [u8; 4],
}

/// A resolved destination: its IPv4 address and the text the user
/// supplied, kept for display.
#[derive(Clone, Debug)]
pub struct Address {
    pub ip: Ipv4,
    pub raw: String,
}

/// Immutable per-run parameters, created once at startup and shared
/// read-only by every probe task.
#[derive(Clone, Debug)]
pub struct Config {
    pub count: u16,
    pub packet_size: usize,
    pub ttl: u32,
    pub timeout: u64,
    pub interval: u64,
    pub id: u16,
    pub sequence: u16,
    pub destination: Address,
}

/// Scans `s` for the first '.' at or after `from`.
fn find_dot(s: &str, from: usize) -> (r: usize)
    requires
        from <= s@.len(),
    ensures
        r == dot_after(s@, from as int),
        from <= r <= s@.len(),
{
    let n = s.unicode_len();
    let mut i: usize = from;
    while i < n
        invariant
            from <= i <= n,
            n == s@.len(),
            dot_after(s@, from as int) == dot_after(s@, i as int),
        decreases n - i,
    {
        if s.get_char(i) == '.' {
            return i;
        }
        i = i + 1;
    }
    n
}

/// Validates the characters of `s` from `from` (inclusive) to `to`
/// (exclusive) as one dotted-quad octet and returns its value.
fn check_octet(s: &str, from: usize, to: usize) -> (r: Option<u8>)
    requires
        from <= to <= s@.len(),
    ensures
        r is Some <==> is_octet_text(s@.subrange(from as int, to as int)),
        (r matches Some(v) ==> v as int == dec_value(s@.subrange(from as int, to as int))),
{
    let ghost seg = s@.subrange(from as int, to as int);
    let len = to - from;
    if len == 0 || len > 3 {
        return None;
    }
    if len > 1 && s.get_char(from) as u32 == 48 {
        return None;
    }
    let mut val: u32 = 0;
    let mut i: usize = from;
    while i < to
        invariant
            from <= i <= to,
            to <= s@.len(),
            1 <= to - from <= 3,
            seg == s@.subrange(from as int, to as int),
            forall|k: int| 0 <= k < i - from ==> is_digit_char(seg[k]),
            val == dec_value(seg.subrange(0, i - from)),
            i - from == 0 ==> val == 0,
            i - from == 1 ==> val <= 9,
            i - from == 2 ==> val <= 99,
            i - from == 3 ==> val <= 999,
        decreases to - i,
    {
        let c = s.get_char(i);
        let d = c as u32;
        if d < 48 || d > 57 {
            proof {
                assert(seg[i - from] == c);
                assert(!is_digit_char(seg[i - from]));
            }
            return None;
        }
        proof {
            assert(seg.subrange(0, i + 1 - from).drop_last() =~= seg.subrange(0, i - from));
            assert(seg.subrange(0, i + 1 - from).last() == seg[i - from]);
            assert(seg[i - from] == c);
        }
        val = val * 10 + (d - 48);
        i = i + 1;
    }
    proof {
        assert(seg.subrange(0, (to - from) as int) =~= seg);
    }
    if val > 255 {
        return None;
    }
    Some(val as u8)
}

impl Address {
    /// Reads `host` as a dotted-quad IPv4 literal and pairs it with its
    /// original text.  Text that is no such literal — a hostname, say —
    /// is rejected as invalid configuration; resolving it is the
    /// caller's business.
    pub fn parse(host: &str) -> (r: Result<Address, RingError>)
        ensures
            is_ipv4_literal(host@) ==> (r matches Ok(a) && a.raw@ == host@
                && a.ip.octets@.map_values(|o: u8| o as int) =~= ipv4_octets(host@)),
            !is_ipv4_literal(host@) ==> (r matches Err(e) && e is InvalidConfig),
    {
        let n = host.unicode_len();
        let i = find_dot(host, 0);
        if i == n {
            return Err(RingError::InvalidConfig(host.to_owned()));
        }
        let j = find_dot(host, i + 1);
        if j == n {
            return Err(RingError::InvalidConfig(host.to_owned()));
        }
        let k = find_dot(host, j + 1);
        if k == n {
            return Err(RingError::InvalidConfig(host.to_owned()));
        }
        let l = find_dot(host, k + 1);
        if l != n {
            return Err(RingError::InvalidConfig(host.to_owned()));
        }
        let o0 = match check_octet(host, 0, i) {
            Some(v) => v,
            None => {
                return Err(RingError::InvalidConfig(host.to_owned()));
            },
        };
        let o1 = match check_octet(host, i + 1, j) {
            Some(v) => v,
            None => {
                return Err(RingError::InvalidConfig(host.to_owned()));
            },
        };
        let o2 = match check_octet(host, j + 1, k) {
            Some(v) => v,
            None => {
                return Err(RingError::InvalidConfig(host.to_owned()));
            },
        };
        let o3 = match check_octet(host, k + 1, n) {
            Some(v) => v,
            None => {
                return Err(RingError::InvalidConfig(host.to_owned()));
            },
        };
        Ok(Address { ip: Ipv4 { octets: [o0, o1, o2, o3] }, raw: host.to_owned() })
    }
}

/// Relies on rand::random: draws a value of the requested type from the
/// thread-local generator.  Nothing can be promised of the value drawn.
pub assume_specification<T>[ rand::random::<T> ]() -> (r: T)
    where
        rand::distributions::Standard: rand::distributions::Distribution<T>,
;

impl Config {
    /// Builds the configuration of one run.  The 16-bit identifier is
    /// drawn at random to disambiguate concurrent pingers sharing the
    /// host, and the base sequence number starts at 1.
    pub fn new(
        count: u16,
        packet_size: usize,
        ttl: u32,
        timeout: u64,
        interval: u64,
        destination: Address,
    ) -> (r: Config)
        ensures
            r.count == count,
            r.packet_size == packet_size,
            r.ttl == ttl,
            r.timeout == timeout,
            r.interval == interval,
            r.sequence == 1,
            r.destination == destination,
    {
        Config {
            count,
            packet_size,
            ttl,
            timeout,
            interval,
            id: rand::random::<u16>(),
            sequence: 1,
            destination,
        }
    }
}

} // verus!
