//! The structured account identifier and its codec: validation of the two
//! textual forms, parsing into the structured form, and rendering back into
//! the legacy form.

use crate::digits::all_dec_digits;
use crate::digits::dec_chars;
use crate::digits::dec_value;
use crate::digits::parse_dec_u32;
use crate::digits::parse_dec_u64_17;
use crate::digits::parse_u32_seq;
use crate::digits::u32_to_dec;
use crate::fields::instance_code;
use crate::fields::instance_or_all;
use crate::fields::type_or_invalid;
use crate::fields::universe_code;
use crate::fields::universe_or_invalid;
use crate::fields::Instance;
use crate::fields::Type;
use crate::fields::Universe;
use vstd::prelude::*;

verus! {

/// The structured account identifier: a universe, an account kind, an
/// instance, and the 32-bit account number.
#[derive(Clone, Copy, PartialEq, Eq, Structural, Debug)]
pub struct SteamID {
    pub universe: Universe,
    pub type_: Type,
    pub instance: Instance,
    pub account_id: u32,
}

/// The index of the first `':'` in `s` at or after `from`, or the length
/// of `s` where there is none.
pub open spec fn find_colon(s: Seq<char>, from: int) -> int
    decreases s.len() - from,
{
    if from < 0 || from >= s.len() {
        s.len() as int
    } else if s[from] == ':' {
        from
    } else {
        find_colon(s, from + 1)
    }
}

/// Whether `s` opens with `STEAM_0` or `STEAM_1`.
pub open spec fn has_steam_prefix(s: Seq<char>) -> bool {
    &&& s.len() >= 7
    &&& s[0] == 'S'
    &&& s[1] == 'T'
    &&& s[2] == 'E'
    &&& s[3] == 'A'
    &&& s[4] == 'M'
    &&& s[5] == '_'
    &&& (s[6] == '0' || s[6] == '1')
}

/// Whether `s` is structurally a legacy-form identifier: splitting on
/// `':'` yields exactly three parts and the first part is literally
/// `STEAM_0` or `STEAM_1` — that is, the first colon stands right after
/// the seven-character prefix and exactly one more colon follows.
pub open spec fn legacy_form_valid(s: Seq<char>) -> bool {
    &&& s.len() >= 8
    &&& has_steam_prefix(s)
    &&& s[7] == ':'
    &&& find_colon(s, 8) < s.len()
    &&& find_colon(s, find_colon(s, 8) + 1) == s.len()
}

/// The low 32 bits of a packed 64-bit identifier.
pub open spec fn low32(v: u64) -> u64 {
    v & 0xFFFF_FFFFu64
}

/// Whether `s` is structurally a numeric-form identifier: exactly
/// seventeen decimal digits naming a 64-bit value whose low 32 bits are
/// nonzero. Seventeen digits always fit in 64 bits.
pub open spec fn numeric_form_valid(s: Seq<char>) -> bool {
    &&& s.len() == 17
    &&& all_dec_digits(s)
    &&& low32(dec_value(s) as u64) != 0
}

/// The identifier packed into the 64-bit value `v`: the universe code in
/// bits 56 to 63, the kind code in bits 52 to 55, the instance code in
/// bits 32 to 51, and the account number in the low 32 bits. Unrecognized
/// codes degrade to each field's default.
pub open spec fn id_from_u64(v: u64) -> SteamID {
    SteamID {
        universe: universe_or_invalid((v >> 56) as u32),
        type_: type_or_invalid(((v >> 52) & 0xF) as u32),
        instance: instance_or_all(((v >> 32) & 0xFFFFF) as u32),
        account_id: (v & 0xFFFF_FFFF) as u32,
    }
}

/// The universe a legacy universe numeral names: `0` is `Public` by
/// historical convention, known codes map exactly, and an unrecognized
/// code degrades to `Public` (not to `Invalid` as in the packed form).
pub open spec fn legacy_universe(u: u32) -> Universe {
    if u == 0 {
        Universe::Public
    } else if u <= 4 {
        universe_or_invalid(u)
    } else {
        Universe::Public
    }
}

/// The identifier a structurally valid legacy-form string names, if both
/// its numeral segments parse as 32-bit numbers: always an individual
/// desktop account.
pub open spec fn legacy_parse(s: Seq<char>) -> Option<SteamID> {
    let c2 = find_colon(s, 8);
    let useg = s.subrange(8, c2);
    let nseg = s.subrange(c2 + 1, s.len() as int);
    if parse_u32_seq(useg) is Some && parse_u32_seq(nseg) is Some {
        Some(
            SteamID {
                universe: legacy_universe(parse_u32_seq(useg)->0),
                type_: Type::Individual,
                instance: Instance::Desktop,
                account_id: parse_u32_seq(nseg)->0,
            },
        )
    } else {
        None
    }
}

/// What parsing yields on any input: the numeric form is tried first,
/// then the legacy form; anything else is rejected.
pub open spec fn parse_spec(s: Seq<char>) -> Option<SteamID> {
    if numeric_form_valid(s) {
        Some(id_from_u64(dec_value(s) as u64))
    } else if legacy_form_valid(s) {
        legacy_parse(s)
    } else {
        None
    }
}

/// The legacy numeral of a universe: its code, except that `Public` is
/// normalized back to `0` on output.
pub open spec fn legacy_universe_numeral(u: Universe) -> u32 {
    if universe_code(u) == 1 {
        0
    } else {
        universe_code(u)
    }
}

/// The legacy text rendered from an identifier, defined only for
/// individual accounts: `STEAM_{universe}:{instance}:{accountNumber/2}`.
/// Halving the account number drops its low parity bit.
pub open spec fn render_legacy_spec(id: SteamID) -> Option<Seq<char>> {
    if id.type_ != Type::Individual {
        None
    } else {
        Some(
            seq!['S', 'T', 'E', 'A', 'M', '_'] + dec_chars(legacy_universe_numeral(id.universe) as int)
                + seq![':'] + dec_chars(instance_code(id.instance) as int) + seq![':'] + dec_chars(
                (id.account_id / 2) as int,
            ),
        )
    }
}

/// Where no colon stands in `s[from .. j)` and `j` is the length of `s`
/// or the place of a colon, the first colon search from `from` ends at `j`.
pub proof fn lemma_find_colon_at(s: Seq<char>, from: int, j: int)
    requires
        0 <= from <= j <= s.len(),
        forall|k: int| from <= k < j ==> s[k] != ':',
        j == s.len() || s[j] == ':',
    ensures
        find_colon(s, from) == j,
    decreases j - from,
{
    if from < j {
        lemma_find_colon_at(s, from + 1, j);
    }
}

impl SteamID {
    /// Attempts to parse an identifier from a string of either textual
    /// form, trying the numeric form first and the legacy form second.
    /// Returns `None` where the input fits neither form, and also where a
    /// numeral segment of a structurally valid legacy form fails to parse
    /// as a 32-bit number.
    pub fn new(input: &str) -> (r: Option<Self>)
        ensures
            r == parse_spec(input@),
    {
        if let Some(id64) = SteamID::validate_steam64(input) {
            proof {
                assert(dec_value(input@) as u64 == id64);
            }
            let universe = match Universe::from_u32((id64 >> 56) as u32) {
                Some(u) => u,
                None => Universe::Invalid,
            };
            let type_ = match Type::from_u32(((id64 >> 52) & 0xF) as u32) {
                Some(t) => t,
                None => Type::Invalid,
            };
            let instance = match Instance::from_u32(((id64 >> 32) & 0xFFFFF) as u32) {
                Some(x) => x,
                None => Instance::All,
            };
            let account_id = (id64 & 0xFFFF_FFFF) as u32;
            Some(SteamID { universe, type_, instance, account_id })
        } else if let Some(_id2) = SteamID::validate_steam2(input) {
            let n = input.unicode_len();
            let c2 = find_colon_from(input, 8);
            let u_opt = parse_dec_u32(input, 8, c2);
            let a_opt = parse_dec_u32(input, c2 + 1, n);
            match (u_opt, a_opt) {
                (Some(u), Some(a)) => {
                    let universe = if u == 0 {
                        Universe::Public
                    } else {
                        match Universe::from_u32(u) {
                            Some(x) => x,
                            None => Universe::Public,
                        }
                    };
                    Some(
                        SteamID {
                            universe,
                            type_: Type::Individual,
                            instance: Instance::Desktop,
                            account_id: a,
                        },
                    )
                },
                _ => None,
            }
        } else {
            None
        }
    }

    /// Tries to render the identifier in the legacy textual form. Defined
    /// only for individual accounts: any other kind yields `None`. The
    /// third numeral is half the account number; its low parity bit is
    /// dropped, as the legacy form has always done.
    pub fn render_as_steam2(&self) -> (r: Option<String>)
        ensures
            r is Some <==> render_legacy_spec(*self) is Some,
            r matches Some(t) ==> Some(t@) == render_legacy_spec(*self),
    {
        if self.type_ != Type::Individual {
            return None;
        }
        let mut universe: u32 = self.universe.code();
        if universe == 1 {
            universe = 0;
        }
        let mut out = String::from_str("STEAM_");
        let u_str = u32_to_dec(universe);
        out.append(u_str.as_str());
        out.append(":");
        let i_str = u32_to_dec(self.instance.code());
        out.append(i_str.as_str());
        out.append(":");
        let a_str = u32_to_dec(self.account_id / 2);
        out.append(a_str.as_str());
        proof {
            reveal_strlit("STEAM_");
            reveal_strlit(":");
            assert(out@ =~= render_legacy_spec(*self)->0);
        }
        Some(out)
    }

    /// Validates a numeric-form identifier and returns its packed 64-bit
    /// value: the input must be exactly seventeen decimal digits and the
    /// low 32 bits of the value must be nonzero.
    pub fn validate_steam64(input: &str) -> (r: Option<u64>)
        ensures
            r is Some <==> numeric_form_valid(input@),
            r matches Some(v) ==> v as int == dec_value(input@),
    {
        let n = input.unicode_len();
        if n != 17 {
            return None;
        }
        match parse_dec_u64_17(input) {
            None => None,
            Some(id) => {
                proof {
                    assert(dec_value(input@) as u64 == id);
                }
                if id & 0xFFFF_FFFF != 0 {
                    Some(id)
                } else {
                    None
                }
            },
        }
    }

    /// Validates a legacy-form identifier and returns it untouched: the
    /// input must split on `':'` into exactly three parts with a first
    /// part of literally `STEAM_0` or `STEAM_1`. The numeral segments are
    /// not examined here.
    pub fn validate_steam2<'a>(input: &'a str) -> (r: Option<&'a str>)
        ensures
            r is Some <==> legacy_form_valid(input@),
            r matches Some(t) ==> t@ == input@,
    {
        let n = input.unicode_len();
        if n < 8 {
            return None;
        }
        if input.get_char(0) != 'S' || input.get_char(1) != 'T' || input.get_char(2) != 'E'
            || input.get_char(3) != 'A' || input.get_char(4) != 'M' || input.get_char(5) != '_' {
            return None;
        }
        let six = input.get_char(6);
        if six != '0' && six != '1' {
            return None;
        }
        if input.get_char(7) != ':' {
            return None;
        }
        let c2 = find_colon_from(input, 8);
        if c2 == n {
            return None;
        }
        let c3 = find_colon_from(input, c2 + 1);
        if c3 != n {
            return None;
        }
        Some(input)
    }
}

/// The index of the first `':'` in `input` at or after `from`, or the
/// length of `input` where there is none.
fn find_colon_from(input: &str, from: usize) -> (r: usize)
    requires
        from <= input@.len(),
    ensures
        r as int == find_colon(input@, from as int),
        from <= r <= input@.len(),
{
    let n = input.unicode_len();
    let mut i: usize = from;
    while i < n
        invariant
            from <= i <= n,
            n == input@.len(),
            forall|k: int| from <= k < i ==> input@[k] != ':',
        decreases n - i,
    {
        if input.get_char(i) == ':' {
            proof {
                lemma_find_colon_at(input@, from as int, i as int);
            }
            return i;
        }
        i += 1;
    }
    proof {
        lemma_find_colon_at(input@, from as int, n as int);
    }
    n
}

} // verus!
