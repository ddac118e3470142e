use vstd::prelude::*;
use crate::ids::{decimal_chars, parse_i64_at, push_char};
use crate::text::{all_digits, chars_of, decimal, digits_up_to, digits_value, is_digit, is_digit_char, lemma_digits_value_nonneg, parse_i64};

verus! {

// ---------------------------------------------------------------------------------------
// steam3 text ids ("U:1:22202") to 64-bit ids, by the project's own composition
// ---------------------------------------------------------------------------------------

/// The groups of the first match of `(\w):([0-9]{1}):([0-9]+)` in a string: the account
/// type letter, the universe digit and the account number.
pub uninterp spec fn steamid3_groups(s: Seq<char>) -> Option<(Seq<char>, Seq<char>, Seq<char>)>;

/// `regex::Regex::captures` with the pattern `(\w):([0-9]{1}):([0-9]+)`: the three groups of
/// the first match, if there is one. The pattern makes the first group one character,
/// the second one ASCII digit and the third one or more ASCII digits.
#[verifier::external_body]
fn steamid3_captures(id: &str) -> (c: Option<(String, String, String)>)
    ensures
        match c {
            Some((a, u, n)) => {
                &&& steamid3_groups(id@) == Some((a@, u@, n@))
                &&& a@.len() == 1
                &&& u@.len() == 1 && is_digit(u@[0])
                &&& n@.len() >= 1 && all_digits(n@)
            },
            None => steamid3_groups(id@) is None,
        },
{
    let pattern = regex::Regex::new(r"(\w):([0-9]{1}):([0-9]+)").unwrap();
    let caps = pattern.captures(id)?;
    Some((
        caps.get(1)?.as_str().to_string(),
        caps.get(2)?.as_str().to_string(),
        caps.get(3)?.as_str().to_string(),
    ))
}

/// The 64-bit id of an account: universe in the top byte, the account type (1 for `U`,
/// 2 for `M`) below it, instance 1, and the account number in the low bits; `None` for
/// any other account type.
pub open spec fn steamid64_of(account: Seq<char>, universe: i64, id: i64) -> Option<i64> {
    if account == seq!['U'] {
        Some((universe << 56u64) | (1i64 << 52u64) | (1i64 << 32u64) | id)
    } else if account == seq!['M'] {
        Some((universe << 56u64) | (2i64 << 52u64) | (1i64 << 32u64) | id)
    } else {
        None
    }
}

/// The 64-bit id from the parts of a steam3 id; the universe and account number must
/// parse as `i64`.
pub fn steamid64_from_parts(account: &str, universe: &str, id: &str) -> (r: Option<i64>)
    requires
        parse_i64(universe@) is Some,
        parse_i64(id@) is Some,
    ensures
        r == steamid64_of(account@, parse_i64(universe@)->0, parse_i64(id@)->0),
{
    let a = chars_of(account);
    let account_type: i64 = if a.len() == 1 && a[0] == 'U' {
        assert(a@ =~= seq!['U']);
        1
    } else if a.len() == 1 && a[0] == 'M' {
        assert(a@ =~= seq!['M']);
        2
    } else {
        assert(a@ != seq!['U']);
        assert(a@ != seq!['M']);
        return None;
    };
    let u_chars = chars_of(universe);
    let i_chars = chars_of(id);
    assert(u_chars@.subrange(0, u_chars@.len() as int) =~= u_chars@);
    assert(i_chars@.subrange(0, i_chars@.len() as int) =~= i_chars@);
    let universe_value = match parse_i64_at(&u_chars, 0, u_chars.len()) {
        Some(v) => v,
        None => return None,
    };
    let id_value = match parse_i64_at(&i_chars, 0, i_chars.len()) {
        Some(v) => v,
        None => return None,
    };
    let instance: i64 = 1;
    Some((universe_value << 56u64) | (account_type << 52u64) | (instance << 32u64) | id_value)
}

/// Whether `from_steamid3` can read `id_str`: the pattern matches and the account number
/// fits an `i64`.
pub open spec fn steamid3_readable(id_str: Seq<char>) -> bool {
    steamid3_groups(id_str) matches Some((a, u, n)) && parse_i64(n) is Some
}

/// The 64-bit id of a steam3 id such as "U:1:22202", found anywhere in the text; `None`
/// when the account type is neither `U` nor `M`.
pub fn from_steamid3(id_str: &str) -> (r: Option<i64>)
    requires
        steamid3_readable(id_str@),
    ensures
        ({
            let (a, u, n) = steamid3_groups(id_str@)->0;
            r == steamid64_of(a, parse_i64(u)->0, parse_i64(n)->0)
        }),
{
    let caps = steamid3_captures(id_str);
    match caps {
        Some((a, u, n)) => {
            proof { lemma_single_digit_parses(u@); }
            steamid64_from_parts(a.as_str(), u.as_str(), n.as_str())
        },
        None => None,
    }
}

/// `from_steamid3` where it can read the text; `None` where the pattern does not match or
/// the account number does not fit an `i64`.
pub fn from_steamid3_checked(id_str: &str) -> (r: Option<Option<i64>>)
    ensures
        match r {
            Some(v) => steamid3_readable(id_str@) && ({
                let (a, u, n) = steamid3_groups(id_str@)->0;
                v == steamid64_of(a, parse_i64(u)->0, parse_i64(n)->0)
            }),
            None => !steamid3_readable(id_str@),
        },
{
    match steamid3_captures(id_str) {
        Some((_a, _u, n)) => {
            let n_chars = chars_of(n.as_str());
            assert(n_chars@.subrange(0, n_chars@.len() as int) =~= n_chars@);
            match parse_i64_at(&n_chars, 0, n_chars.len()) {
                Some(_) => Some(from_steamid3(id_str)),
                None => None,
            }
        },
        None => None,
    }
}

proof fn lemma_single_digit_parses(u: Seq<char>)
    requires
        u.len() == 1,
        is_digit(u[0]),
    ensures
        parse_i64(u) is Some,
{
    assert(u.drop_last() =~= Seq::<char>::empty());
    assert(all_digits(u));
    assert(u[0] != '+' && u[0] != '-');
    assert(digits_value(u) == digits_value(u.drop_last()) * 10 + u[0] as int - '0' as int);
    assert(digits_value(u) <= 9);
}

// ---------------------------------------------------------------------------------------
// bracketed steam3 ids ("[U:1:22202]") through the steamid-ng crate
// ---------------------------------------------------------------------------------------

pub open spec fn steam3_type_char(c: char) -> bool {
    c == 'A' || c == 'G' || c == 'M' || c == 'P' || c == 'C' || c == 'g' || c == 'c' || c == 'L'
        || c == 'T' || c == 'I' || c == 'U' || c == 'a' || c == 'i'
}

/// The index of the first `c` in `s`, or `s.len()` if there is none.
pub open spec fn find_char(s: Seq<char>, c: char) -> int
    decreases s.len(),
{
    if s.len() == 0 {
        0
    } else if s[0] == c {
        0
    } else {
        1 + find_char(s.drop_first(), c)
    }
}

/// The account digits and the optional instance digits of a string that matches
/// `^\[([AGMPCgcLTIUai]):([0-4]):([0-9]{1,10})(:([0-9]+))?\]$`, the pattern that
/// `SteamID::from_steam3` reads; `None` for a string that does not match.
pub open spec fn steam3_fields(s: Seq<char>) -> Option<(Seq<char>, Option<Seq<char>>)> {
    if s.len() >= 7 && s[0] == '[' && steam3_type_char(s[1]) && s[2] == ':' && '0' <= s[3]
        && s[3] <= '4' && s[4] == ':' && s[s.len() - 1] == ']' {
        let body = s.subrange(5, s.len() - 1);
        let k = find_char(body, ':');
        let account = body.take(k);
        if !(all_digits(account) && 1 <= account.len() <= 10) {
            None
        } else if k == body.len() {
            Some((account, None))
        } else {
            let instance = body.skip(k + 1);
            if instance.len() >= 1 && all_digits(instance) {
                Some((account, Some(instance)))
            } else {
                None
            }
        }
    } else {
        None
    }
}

/// `SteamID::from_steam3` returns rather than panics: the account number of a matching
/// string fits a `u32` and its instance number, if any, a `u64`.
pub open spec fn steam3_converts(s: Seq<char>) -> bool {
    steam3_fields(s) matches Some((account, instance)) ==> {
        &&& digits_value(account) <= u32::MAX
        &&& instance matches Some(i) ==> digits_value(i) <= u64::MAX
    }
}

/// The account type number of a steam3 letter, as `char_to_account_type` gives it:
/// `U` individual, `M` multiseat, `G` game server, `A` anonymous game server, `P` pending,
/// `C` content server, `g` clan, `T`, `c` and `L` chat, `a` anonymous user, any other
/// letter invalid (0).
pub open spec fn steam3_account_type(c: char) -> int {
    if c == 'U' {
        1
    } else if c == 'M' {
        2
    } else if c == 'G' {
        3
    } else if c == 'A' {
        4
    } else if c == 'P' {
        5
    } else if c == 'C' {
        6
    } else if c == 'g' {
        7
    } else if c == 'T' || c == 'c' || c == 'L' {
        8
    } else if c == 'a' {
        10
    } else {
        0
    }
}

/// `Instance::from_u64`: the known instance numbers (all 0, desktop 1, console 2, web 4,
/// invalid 666 and the clan, lobby and matchmaking-lobby flags) stand for themselves, any
/// other number is invalid (666).
pub open spec fn instance_number(n: int) -> int {
    if n == 0 || n == 1 || n == 2 || n == 4 || n == 666 || n == 0x80000 || n == 0x40000 || n
        == 0x20000 {
        n
    } else {
        666
    }
}

/// The instance `SteamID::from_steam3` sets: the clan flag for `c` and the lobby flag for
/// `L`; else desktop for `U` with no instance given; else all for `T`, `g` or no instance
/// given; else the instance given.
pub open spec fn steam3_instance(c: char, given: Option<Seq<char>>) -> int {
    if c == 'c' {
        0x80000
    } else if c == 'L' {
        0x40000
    } else if given is None && c == 'U' {
        1
    } else if c == 'T' || c == 'g' || given is None {
        0
    } else {
        instance_number(digits_value(given->0))
    }
}

/// The 64-bit id that `SteamID::from_steam3` gives for a string, if it gives one:
/// `account | instance << 32 | type << 52 | universe << 56`, the fields not overlapping.
pub open spec fn steam3_id64(s: Seq<char>) -> Option<u64> {
    match steam3_fields(s) {
        Some((account, given)) => Some(
            (digits_value(account) + steam3_instance(s[1], given) * 0x1_0000_0000
                + steam3_account_type(s[1]) * 0x10_0000_0000_0000 + (s[3] as int - '0' as int)
                * 0x100_0000_0000_0000) as u64,
        ),
        None => None,
    }
}

/// The 64-bit id of an individual account written `[U:universe:account]`: the account
/// number in the low 32 bits, instance 1 (desktop) above it, account type 1 (individual)
/// at bit 52 and the universe in the top byte.
pub open spec fn individual_id64(universe: int, account: int) -> int {
    account + 0x1_0000_0000 + 0x10_0000_0000_0000 + universe * 0x100_0000_0000_0000
}

/// `u64::from(SteamID::from_steam3(s))`: the crate's source gives an id exactly for the
/// strings that match its pattern (`steam3_fields`), composed as `steam3_id64` states, and
/// panics on a match whose account or instance number does not fit, which `requires`
/// leaves out.
#[verifier::external_body]
fn steam3_to_id64(s: &str) -> (r: Option<u64>)
    requires
        steam3_converts(s@),
    ensures
        r == steam3_id64(s@),
{
    match steamid_ng::SteamID::from_steam3(s) {
        Ok(id) => Some(u64::from(id)),
        Err(_) => None,
    }
}

/// The parts of a 64-bit id: the account number in the low 32 bits, the universe in the
/// top byte, and the whole of an individual account's id with no instance given.
pub proof fn lemma_steam3_id64_parts(s: Seq<char>)
    requires
        steam3_converts(s),
        steam3_fields(s) is Some,
    ensures
        ({
            let (account, given) = steam3_fields(s)->0;
            let id = steam3_id64(s)->0;
            &&& id % 0x1_0000_0000 == digits_value(account)
            &&& id / 0x100_0000_0000_0000 == s[3] as int - '0' as int
            &&& (given is None && s[1] == 'U') ==> id == individual_id64(s[3] as int - '0' as int, digits_value(account))
        }),
{
    let (account, given) = steam3_fields(s)->0;
    lemma_digits_value_nonneg(account);
    let a = digits_value(account);
    let i = steam3_instance(s[1], given);
    let t = steam3_account_type(s[1]);
    let u = s[3] as int - '0' as int;
    assert(0 <= i <= 0x80000);
    assert(0 <= t <= 10);
    assert(0 <= u <= 4);
    assert(0 <= a <= 0xffff_ffff);
    let x = i + t * 0x10_0000 + u * 0x100_0000;
    assert(a + i * 0x1_0000_0000 + t * 0x10_0000_0000_0000 + u * 0x100_0000_0000_0000 == a + x * 0x1_0000_0000)
        by (nonlinear_arith)
        requires
            x == i + t * 0x10_0000 + u * 0x100_0000;
    assert(0 <= x <= 0x80000 + 10 * 0x10_0000 + 4 * 0x100_0000);
    let v = a + x * 0x1_0000_0000;
    assert(0 <= v <= 0xffff_ffff + (0x80000 + 10 * 0x10_0000 + 4 * 0x100_0000) * 0x1_0000_0000) by (nonlinear_arith)
        requires
            0 <= a <= 0xffff_ffff,
            0 <= x <= 0x80000 + 10 * 0x10_0000 + 4 * 0x100_0000,
            v == a + x * 0x1_0000_0000;
    assert(v % 0x1_0000_0000 == a) by (nonlinear_arith)
        requires
            0 <= a <= 0xffff_ffff,
            0 <= x,
            v == a + x * 0x1_0000_0000;
    let low = a + i * 0x1_0000_0000 + t * 0x10_0000_0000_0000;
    assert(0 <= low < 0x100_0000_0000_0000) by (nonlinear_arith)
        requires
            0 <= a <= 0xffff_ffff,
            0 <= i <= 0x80000,
            0 <= t <= 10,
            low == a + i * 0x1_0000_0000 + t * 0x10_0000_0000_0000;
    assert((low + u * 0x100_0000_0000_0000) / 0x100_0000_0000_0000 == u) by (nonlinear_arith)
        requires
            0 <= low < 0x100_0000_0000_0000,
            0 <= u;
}

proof fn lemma_find_char(s: Seq<char>, c: char, i: int)
    requires
        0 <= i <= s.len(),
        forall|j: int| 0 <= j < i ==> s[j] != c,
        i == s.len() || s[i] == c,
    ensures
        find_char(s, c) == i,
    decreases i,
{
    if i > 0 {
        assert forall|j: int| 0 <= j < i - 1 implies s.drop_first()[j] != c by {
            assert(s.drop_first()[j] == s[j + 1]);
        }
        lemma_find_char(s.drop_first(), c, i - 1);
    }
}

/// Whether `SteamID::from_steam3` can be called on `s`.
pub fn steam3_convertible(s: &str) -> (b: bool)
    ensures
        b == steam3_converts(s@),
{
    let c = chars_of(s);
    let n = c.len();
    if !(n >= 7 && c[0] == '[' && (c[1] == 'A' || c[1] == 'G' || c[1] == 'M' || c[1] == 'P'
        || c[1] == 'C' || c[1] == 'g' || c[1] == 'c' || c[1] == 'L' || c[1] == 'T' || c[1]
        == 'I' || c[1] == 'U' || c[1] == 'a' || c[1] == 'i') && c[2] == ':' && '0' <= c[3]
        && c[3] <= '4' && c[4] == ':' && c[n - 1] == ']') {
        return true;
    }
    let ghost body = c@.subrange(5, n - 1);
    let mut k: usize = 5;
    while k < n - 1 && c[k] != ':'
        invariant
            5 <= k <= n - 1,
            n == c@.len(),
            body == c@.subrange(5, n - 1),
            forall|j: int| 0 <= j < k - 5 ==> body[j] != ':',
        decreases n - 1 - k,
    {
        k = k + 1;
    }
    proof {
        lemma_find_char(body, ':', k - 5);
        assert(body.take(k - 5) =~= c@.subrange(5, k as int));
    }
    if !(all_digits_between(&c, 5, k) && 1 <= k - 5 && k - 5 <= 10) {
        return true;
    }
    proof { lemma_digits_value_nonneg(c@.subrange(5, k as int)); }
    let account_fits = match digits_up_to(&c, 5, k, 4294967295) {
        Some(_) => true,
        None => false,
    };
    if k == n - 1 {
        return account_fits;
    }
    assert(body.skip(k - 5 + 1) =~= c@.subrange(k + 1, n - 1));
    if !(k + 1 < n - 1 && all_digits_between(&c, k + 1, n - 1)) {
        return true;
    }
    let instance_fits = match digits_up_to(&c, k + 1, n - 1, 18446744073709551615) {
        Some(_) => true,
        None => false,
    };
    account_fits && instance_fits
}

fn all_digits_between(chars: &Vec<char>, start: usize, end: usize) -> (b: bool)
    requires
        start <= end <= chars@.len(),
    ensures
        b == all_digits(chars@.subrange(start as int, end as int)),
{
    crate::ids::all_digits_in(chars, start, end)
}

/// The 64-bit id of a bracketed steam3 id, as `SteamID::from_steam3` reads it.
pub fn steam3_id(s: &str) -> (r: Option<u64>)
    requires
        steam3_converts(s@),
    ensures
        r == steam3_id64(s@),
        r is Some <==> steam3_fields(s@) is Some,
        r matches Some(id) ==> id % 0x1_0000_0000 == digits_value((steam3_fields(s@)->0).0),
        r matches Some(id) ==> id / 0x100_0000_0000_0000 == s@[3] as int - '0' as int,
        steam3_fields(s@) matches Some((account, None)) ==> (s@[1] == 'U' ==> r == Some(
            individual_id64(s@[3] as int - '0' as int, digits_value(account)) as u64,
        )),
{
    proof {
        if steam3_fields(s@) is Some {
            lemma_steam3_id64_parts(s@);
        }
    }
    steam3_to_id64(s)
}

/// The account number of a bracketed steam3 id: the low 32 bits of its 64-bit id.
pub fn steam3_account_id(s: &str) -> (r: Option<u32>)
    requires
        steam3_converts(s@),
    ensures
        match steam3_id64(s@) {
            Some(id) => r == Some((id % 0x1_0000_0000) as u32),
            None => r is None,
        },
        r == match steam3_fields(s@) {
            Some((account, _)) => Some(digits_value(account) as u32),
            None => None::<u32>,
        },
{
    proof {
        if steam3_fields(s@) is Some {
            lemma_steam3_id64_parts(s@);
        }
    }
    match steam3_to_id64(s) {
        Some(id) => Some((id % 0x1_0000_0000) as u32),
        None => None,
    }
}

/// Appends the decimal digits of `n`.
pub fn push_u64(s: &mut String, n: u64)
    ensures
        final(s)@ == old(s)@ + decimal(n as nat),
{
    let digits = decimal_chars(n);
    let ghost base = s@;
    let mut i: usize = 0;
    while i < digits.len()
        invariant
            0 <= i <= digits@.len(),
            s@ == base + digits@.take(i as int),
        decreases digits@.len() - i,
    {
        push_char(s, digits[i]);
        assert(digits@.take(i + 1) =~= digits@.take(i as int).push(digits@[i as int]));
        i = i + 1;
    }
    assert(digits@.take(digits@.len() as int) =~= digits@);
}

/// The 64-bit id of a bracketed steam3 id, written in decimal, as the RGL lookups and
/// the team-id table take it.
pub fn steam3_id_text(s: &str) -> (r: Option<String>)
    requires
        steam3_converts(s@),
    ensures
        match steam3_id64(s@) {
            Some(id) => r matches Some(t) && t@ == decimal(id as nat),
            None => r is None,
        },
        r is Some <==> steam3_fields(s@) is Some,
{
    match steam3_to_id64(s) {
        Some(id) => {
            let mut t = String::new();
            push_u64(&mut t, id);
            assert(t@ =~= decimal(id as nat));
            Some(t)
        },
        None => None,
    }
}

} // verus!
