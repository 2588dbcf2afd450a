//! Laws of the codec that relate several of its operations.

use crate::codec::find_colon;
use crate::codec::legacy_form_valid;
use crate::codec::lemma_find_colon_at;
use crate::codec::low32;
use crate::codec::numeric_form_valid;
use crate::codec::parse_spec;
use crate::codec::render_legacy_spec;
use crate::codec::SteamID;
use crate::digits::all_dec_digits;
use crate::digits::dec_chars;
use crate::digits::dec_value;
use crate::digits::digit_val;
use crate::digits::is_dec_digit;
use crate::digits::lemma_dec_chars_digits;
use crate::digits::lemma_dec_chars_value;
use crate::digits::parse_u32_seq;
use crate::fields::Type;
use crate::fields::Universe;
use vstd::prelude::*;

verus! {

/// On any seventeen-digit numeric-form string whose packed value has
/// nonzero low 32 bits, parsing succeeds and the account number of the
/// identifier is exactly those low 32 bits.
pub proof fn lemma_numeric_parse_preserves_account(s: Seq<char>)
    requires
        s.len() == 17,
        all_dec_digits(s),
        low32(dec_value(s) as u64) != 0,
    ensures
        parse_spec(s) is Some,
        parse_spec(s)->0.account_id as u64 == low32(dec_value(s) as u64),
{
    let v = dec_value(s) as u64;
    assert((v & 0xFFFF_FFFFu64) <= 0xFFFF_FFFFu64) by (bit_vector);
}

/// Parsing a legacy-form string and rendering the identifier back does
/// not reproduce an odd account number: the rendered text carries only
/// its half, with the low parity bit dropped. Where the universe is
/// `Public`, the rendered text is itself a valid legacy form and parses
/// to an identifier whose account number is that half — a known,
/// intentional asymmetry of the legacy scheme.
pub proof fn lemma_legacy_round_trip_asymmetry(s: Seq<char>)
    requires
        legacy_form_valid(s),
        parse_spec(s) is Some,
        parse_spec(s)->0.account_id % 2 == 1,
    ensures
        ({
            let id = parse_spec(s)->0;
            let n = id.account_id;
            &&& render_legacy_spec(id) is Some
            &&& ({
                let r = render_legacy_spec(id)->0;
                let tail = dec_chars((n / 2) as int);
                &&& r.subrange(r.len() - tail.len(), r.len() as int) == tail
                &&& dec_value(tail) == n / 2
                &&& n / 2 != n
            })
            &&& (id.universe == Universe::Public ==> (parse_spec(render_legacy_spec(id)->0)
                matches Some(id2) && id2.account_id == n / 2))
        }),
{
    assert(!is_dec_digit(':'));
    assert(!numeric_form_valid(s));
    let id = parse_spec(s)->0;
    let n = id.account_id;
    assert(id.type_ == Type::Individual);
    let r = render_legacy_spec(id)->0;
    let tail = dec_chars((n / 2) as int);
    lemma_dec_chars_digits((n / 2) as int);
    lemma_dec_chars_value((n / 2) as int);
    assert(tail.len() <= r.len());
    assert(r.subrange(r.len() - tail.len(), r.len() as int) =~= tail);
    if id.universe == Universe::Public {
        let head = seq!['S', 'T', 'E', 'A', 'M', '_', '0', ':', '1', ':'];
        assert(dec_chars(0) =~= seq!['0']);
        assert(dec_chars(1) =~= seq!['1']);
        assert(r =~= head + tail);
        assert(!is_dec_digit(r[7]));
        assert(!numeric_form_valid(r));
        assert forall|k: int| 8 <= k < 9 implies r[k] != ':' by {}
        lemma_find_colon_at(r, 8, 9);
        assert forall|k: int| 10 <= k < r.len() implies r[k] != ':' by {
            assert(r[k] == tail[k - 10]);
            assert(is_dec_digit(tail[k - 10]));
        }
        lemma_find_colon_at(r, 10, r.len() as int);
        assert(legacy_form_valid(r));
        let useg = r.subrange(8, find_colon(r, 8));
        assert(useg =~= seq!['1']);
        assert(useg.drop_last() =~= Seq::<char>::empty());
        assert(dec_value(useg) == dec_value(useg.drop_last()) * 10 + digit_val(useg.last()));
        assert(useg.last() == '1');
        assert(digit_val('1') == 1);
        assert(dec_value(useg) == 1);
        assert(parse_u32_seq(useg) == Some(1u32));
        let nseg = r.subrange(find_colon(r, 8) + 1, r.len() as int);
        assert(nseg =~= tail);
        assert(parse_u32_seq(nseg) == Some((n / 2) as u32));
    }
}

} // verus!
