//! The persistence document: one JSON object holding the full profile list.
//!
//! The store is durable as `{"profiles": [...]}`, each profile an object
//! with its six fields in declaration order, strings quoted with `"` and
//! `\` escaped, absent options as `null`, and the expiry as a plain decimal
//! number of seconds. Encoding is canonical: pretty-printed with two-space
//! indention and a fixed field layout. Decoding accepts exactly the
//! canonical form and is proved to invert encoding, so a persisted store
//! reloads to an identical profile collection.

use vstd::prelude::*;

use crate::config::{config_wf, profile_wf, Config, ConfigError, ConfigProfile, ProfileData};

verus! {

/// Relies on std's `String::push`: appends exactly one character.
#[verifier::external_body]
pub(crate) fn push_char(s: &mut String, c: char)
    ensures
        final(s)@ == old(s)@ + seq![c],
{
    s.push(c);
}

// ---------------------------------------------------------------------------
// Canonical encoding, as a mathematical function of the profile data.
// ---------------------------------------------------------------------------
/// How one character appears inside a quoted string.
pub open spec fn spec_escape_char(c: char) -> Seq<char> {
    if c == '"' {
        seq!['\\', '"']
    } else if c == '\\' {
        seq!['\\', '\\']
    } else {
        seq![c]
    }
}

/// The body of a quoted string: every character escaped as needed.
pub open spec fn spec_escape(s: Seq<char>) -> Seq<char>
    decreases s.len(),
{
    if s.len() == 0 {
        Seq::empty()
    } else {
        spec_escape_char(s[0]) + spec_escape(s.skip(1))
    }
}

/// A quoted JSON string.
pub open spec fn spec_quote(s: Seq<char>) -> Seq<char> {
    seq!['"'] + spec_escape(s) + seq!['"']
}

/// The numeral for one decimal digit.
pub open spec fn spec_digit_char(d: u64) -> char {
    if d == 0 {
        '0'
    } else if d == 1 {
        '1'
    } else if d == 2 {
        '2'
    } else if d == 3 {
        '3'
    } else if d == 4 {
        '4'
    } else if d == 5 {
        '5'
    } else if d == 6 {
        '6'
    } else if d == 7 {
        '7'
    } else if d == 8 {
        '8'
    } else {
        '9'
    }
}

/// The value of one numeral, if it is one.
pub open spec fn spec_digit_val(c: char) -> Option<u64> {
    if c == '0' {
        Some(0u64)
    } else if c == '1' {
        Some(1u64)
    } else if c == '2' {
        Some(2u64)
    } else if c == '3' {
        Some(3u64)
    } else if c == '4' {
        Some(4u64)
    } else if c == '5' {
        Some(5u64)
    } else if c == '6' {
        Some(6u64)
    } else if c == '7' {
        Some(7u64)
    } else if c == '8' {
        Some(8u64)
    } else if c == '9' {
        Some(9u64)
    } else {
        None
    }
}

/// The decimal numeral of `n`, most significant digit first.
pub open spec fn spec_digits(n: u64) -> Seq<char>
    decreases n,
{
    if n < 10 {
        seq![spec_digit_char(n)]
    } else {
        spec_digits(n / 10) + seq![spec_digit_char(n % 10)]
    }
}

/// An optional string field: `null` or a quoted string.
pub open spec fn spec_optstr_json(o: Option<Seq<char>>) -> Seq<char> {
    match o {
        None => "null"@,
        Some(s) => spec_quote(s),
    }
}

/// An optional numeric field: `null` or a decimal numeral.
pub open spec fn spec_optnum_json(o: Option<u64>) -> Seq<char> {
    match o {
        None => "null"@,
        Some(n) => spec_digits(n),
    }
}

/// One profile as a JSON object.
pub open spec fn spec_profile_json(p: ProfileData) -> Seq<char> {
    "    {\n      \"name\": "@ + spec_quote(p.name) + ",\n      \"vendor_id\": "@ + spec_optstr_json(p.vendor_id)
        + ",\n      \"access_token\": "@ + spec_optstr_json(p.access_token) + ",\n      \"refresh_token\": "@
        + spec_optstr_json(p.refresh_token) + ",\n      \"token_type\": "@ + spec_quote(p.token_type)
        + ",\n      \"expires_at\": "@ + spec_optnum_json(p.expires_at) + "\n    }"@
}

/// The profile list, comma separated, one profile per block.
pub open spec fn spec_profiles_json(ps: Seq<ProfileData>) -> Seq<char>
    decreases ps.len(),
{
    if ps.len() == 0 {
        Seq::empty()
    } else if ps.len() == 1 {
        spec_profile_json(ps[0])
    } else {
        spec_profile_json(ps[0]) + ",\n"@ + spec_profiles_json(ps.skip(1))
    }
}

/// The whole persisted document, pretty-printed with two-space indention.
pub open spec fn spec_config_json(ps: Seq<ProfileData>) -> Seq<char> {
    if ps.len() == 0 {
        "{\n  \"profiles\": []\n}"@
    } else {
        "{\n  \"profiles\": [\n"@ + spec_profiles_json(ps) + "\n  ]\n}"@
    }
}

// ---------------------------------------------------------------------------
// Canonical parsing, as a mathematical function of the document. Each piece
// returns the parsed value and the unconsumed suffix.
// ---------------------------------------------------------------------------
/// Strip an exact literal prefix.
pub open spec fn sp_lit(s: Seq<char>, lit: Seq<char>) -> Option<Seq<char>> {
    if lit.len() <= s.len() && s.take(lit.len() as int) == lit {
        Some(s.skip(lit.len() as int))
    } else {
        None
    }
}

/// The body of a quoted string, up to and including the closing quote.
pub open spec fn sp_strbody(s: Seq<char>) -> Option<(Seq<char>, Seq<char>)>
    decreases s.len(),
{
    if s.len() == 0 {
        None
    } else if s[0] == '"' {
        Some((Seq::empty(), s.skip(1)))
    } else if s[0] == '\\' {
        if s.len() >= 2 && (s[1] == '"' || s[1] == '\\') {
            match sp_strbody(s.skip(2)) {
                Some((t, r)) => Some((seq![s[1]] + t, r)),
                None => None,
            }
        } else {
            None
        }
    } else {
        match sp_strbody(s.skip(1)) {
            Some((t, r)) => Some((seq![s[0]] + t, r)),
            None => None,
        }
    }
}

/// A quoted string.
pub open spec fn sp_string(s: Seq<char>) -> Option<(Seq<char>, Seq<char>)> {
    if s.len() >= 1 && s[0] == '"' {
        sp_strbody(s.skip(1))
    } else {
        None
    }
}

/// Digits consumed left to right into an accumulator; fails on overflow.
pub open spec fn sp_num_rec(s: Seq<char>, acc: u64) -> Option<(u64, Seq<char>)>
    decreases s.len(),
{
    if s.len() > 0 && spec_digit_val(s[0]) is Some {
        let d = spec_digit_val(s[0]).unwrap();
        if acc * 10 + d <= u64::MAX {
            sp_num_rec(s.skip(1), (acc * 10 + d) as u64)
        } else {
            None
        }
    } else {
        Some((acc, s))
    }
}

/// A decimal number: at least one digit.
pub open spec fn sp_num(s: Seq<char>) -> Option<(u64, Seq<char>)> {
    if s.len() > 0 && spec_digit_val(s[0]) is Some {
        sp_num_rec(s, 0)
    } else {
        None
    }
}

/// `null` or a quoted string.
pub open spec fn sp_optstr(s: Seq<char>) -> Option<(Option<Seq<char>>, Seq<char>)> {
    if s.len() == 0 {
        None
    } else if s[0] == 'n' {
        match sp_lit(s, "null"@) {
            Some(r) => Some((None, r)),
            None => None,
        }
    } else {
        match sp_string(s) {
            Some((v, r)) => Some((Some(v), r)),
            None => None,
        }
    }
}

/// `null` or a decimal number.
pub open spec fn sp_optnum(s: Seq<char>) -> Option<(Option<u64>, Seq<char>)> {
    if s.len() == 0 {
        None
    } else if s[0] == 'n' {
        match sp_lit(s, "null"@) {
            Some(r) => Some((None, r)),
            None => None,
        }
    } else {
        match sp_num(s) {
            Some((v, r)) => Some((Some(v), r)),
            None => None,
        }
    }
}

/// One profile object.
pub open spec fn sp_profile(s: Seq<char>) -> Option<(ProfileData, Seq<char>)> {
    match sp_lit(s, "    {\n      \"name\": "@) {
        None => None,
        Some(s1) => match sp_string(s1) {
            None => None,
            Some((name, s2)) => match sp_lit(s2, ",\n      \"vendor_id\": "@) {
                None => None,
                Some(s3) => match sp_optstr(s3) {
                    None => None,
                    Some((vendor_id, s4)) => match sp_lit(s4, ",\n      \"access_token\": "@) {
                        None => None,
                        Some(s5) => match sp_optstr(s5) {
                            None => None,
                            Some((access_token, s6)) => match sp_lit(s6, ",\n      \"refresh_token\": "@) {
                                None => None,
                                Some(s7) => match sp_optstr(s7) {
                                    None => None,
                                    Some((refresh_token, s8)) => match sp_lit(
                                        s8,
                                        ",\n      \"token_type\": "@,
                                    ) {
                                        None => None,
                                        Some(s9) => match sp_string(s9) {
                                            None => None,
                                            Some((token_type, s10)) => match sp_lit(
                                                s10,
                                                ",\n      \"expires_at\": "@,
                                            ) {
                                                None => None,
                                                Some(s11) => match sp_optnum(s11) {
                                                    None => None,
                                                    Some((expires_at, s12)) => match sp_lit(
                                                        s12,
                                                        "\n    }"@,
                                                    ) {
                                                        None => None,
                                                        Some(s13) => Some(
                                                            (
                                                                ProfileData {
                                                                    name,
                                                                    vendor_id,
                                                                    access_token,
                                                                    refresh_token,
                                                                    token_type,
                                                                    expires_at,
                                                                },
                                                                s13,
                                                            ),
                                                        ),
                                                    },
                                                },
                                            },
                                        },
                                    },
                                },
                            },
                        },
                    },
                },
            },
        },
    }
}

/// A nonempty profile list: one profile, then either a separator and more
/// profiles, or nothing more of the list.
pub open spec fn sp_profiles(s: Seq<char>) -> Option<(Seq<ProfileData>, Seq<char>)>
    decreases s.len(),
{
    match sp_profile(s) {
        None => None,
        Some((p, r)) => if r.len() < s.len() {
            if r.len() > 0 && r[0] == ',' {
                match sp_lit(r, ",\n"@) {
                    None => None,
                    Some(r2) => if r2.len() < s.len() {
                        match sp_profiles(r2) {
                            Some((ps, r3)) => Some((seq![p] + ps, r3)),
                            None => None,
                        }
                    } else {
                        None
                    },
                }
            } else {
                Some((seq![p], r))
            }
        } else {
            None
        },
    }
}

/// The whole document; succeeds only when every character is consumed.
pub open spec fn sp_config(s: Seq<char>) -> Option<Seq<ProfileData>> {
    if s == "{\n  \"profiles\": []\n}"@ {
        Some(Seq::empty())
    } else {
        match sp_lit(s, "{\n  \"profiles\": [\n"@) {
            None => None,
            Some(s1) => match sp_profiles(s1) {
                None => None,
                Some((ps, s2)) => match sp_lit(s2, "\n  ]\n}"@) {
                    Some(s3) => if s3.len() == 0 {
                        Some(ps)
                    } else {
                        None
                    },
                    None => None,
                },
            },
        }
    }
}

// ---------------------------------------------------------------------------
// Round trip: parsing inverts encoding, piece by piece.
// ---------------------------------------------------------------------------
/// Stripping a literal off a document that starts with it leaves the rest.
proof fn lemma_lit_roundtrip(lit: Seq<char>, rest: Seq<char>)
    ensures
        sp_lit(lit + rest, lit) == Some(rest),
{
    assert((lit + rest).take(lit.len() as int) =~= lit);
    assert((lit + rest).skip(lit.len() as int) =~= rest);
}

/// The string body parser undoes escaping.
proof fn lemma_strbody_roundtrip(s: Seq<char>, rest: Seq<char>)
    ensures
        sp_strbody(spec_escape(s) + seq!['"'] + rest) == Some((s, rest)),
    decreases s.len(),
{
    let doc = spec_escape(s) + seq!['"'] + rest;
    if s.len() == 0 {
        assert(doc =~= seq!['"'] + rest);
        assert(doc.skip(1) =~= rest);
    } else {
        let c = s[0];
        let t = s.skip(1);
        lemma_strbody_roundtrip(t, rest);
        if c == '"' || c == '\\' {
            assert(doc =~= seq!['\\', c] + (spec_escape(t) + seq!['"'] + rest));
            assert(doc[0] == '\\');
            assert(doc[1] == c);
            assert(doc.skip(2) =~= spec_escape(t) + seq!['"'] + rest);
            assert(seq![c] + t =~= s);
        } else {
            assert(doc =~= seq![c] + (spec_escape(t) + seq!['"'] + rest));
            assert(doc[0] == c);
            assert(doc.skip(1) =~= spec_escape(t) + seq!['"'] + rest);
            assert(seq![c] + t =~= s);
        }
    }
}

/// The string parser undoes quoting.
proof fn lemma_string_roundtrip(s: Seq<char>, rest: Seq<char>)
    ensures
        sp_string(spec_quote(s) + rest) == Some((s, rest)),
{
    let doc = spec_quote(s) + rest;
    assert(doc[0] == '"');
    assert(doc.skip(1) =~= spec_escape(s) + seq!['"'] + rest);
    lemma_strbody_roundtrip(s, rest);
}

/// The accumulator value after reading the numeral of `n` on top of `acc`.
pub open spec fn spec_shift10(acc: int, n: int) -> int
    decreases n,
{
    if n < 10 {
        acc * 10 + n
    } else {
        spec_shift10(acc, n / 10) * 10 + n % 10
    }
}

proof fn lemma_shift10_nonneg(acc: int, n: int)
    requires
        acc >= 0,
        n >= 0,
    ensures
        spec_shift10(acc, n) >= acc,
        spec_shift10(acc, n) >= 0,
    decreases n,
{
    if n >= 10 {
        lemma_shift10_nonneg(acc, n / 10);
    }
}

/// Reading the numeral of `n` extends the accumulator by exactly `n`'s
/// digits.
proof fn lemma_num_rec_roundtrip(acc: u64, n: u64, rest: Seq<char>)
    requires
        spec_shift10(acc as int, n as int) <= u64::MAX,
    ensures
        sp_num_rec(spec_digits(n) + rest, acc) == sp_num_rec(
            rest,
            spec_shift10(acc as int, n as int) as u64,
        ),
    decreases n,
{
    let doc = spec_digits(n) + rest;
    if n < 10 {
        assert(spec_digit_val(spec_digit_char(n)) == Some(n));
        assert(doc[0] == spec_digit_char(n));
        assert(doc.skip(1) =~= rest);
    } else {
        let hi = n / 10;
        let lo = n % 10;
        let c = spec_digit_char(lo);
        lemma_shift10_nonneg(acc as int, hi as int);
        assert(spec_shift10(acc as int, n as int) == spec_shift10(acc as int, hi as int) * 10
            + lo);
        assert(spec_shift10(acc as int, hi as int) <= spec_shift10(acc as int, hi as int) * 10
            + lo) by {
            lemma_shift10_nonneg(acc as int, hi as int);
        }
        assert(doc =~= spec_digits(hi) + (seq![c] + rest));
        lemma_num_rec_roundtrip(acc, hi, seq![c] + rest);
        let mid = spec_shift10(acc as int, hi as int) as u64;
        assert(spec_digit_val(c) == Some(lo));
        assert((seq![c] + rest)[0] == c);
        assert((seq![c] + rest).skip(1) =~= rest);
        assert(mid * 10 + lo == spec_shift10(acc as int, n as int));
    }
}

/// Reading a numeral from zero yields the encoded value.
proof fn lemma_shift10_zero(n: int)
    requires
        n >= 0,
    ensures
        spec_shift10(0, n) == n,
    decreases n,
{
    if n >= 10 {
        lemma_shift10_zero(n / 10);
    }
}

/// Every character of a numeral is a digit, and it is nonempty.
proof fn lemma_digits_are_digits(n: u64)
    ensures
        spec_digits(n).len() >= 1,
        forall|i: int|
            0 <= i < spec_digits(n).len() ==> spec_digit_val(#[trigger] spec_digits(n)[i]) is Some,
    decreases n,
{
    if n < 10 {
        assert(spec_digit_val(spec_digits(n)[0]) == Some(n));
    } else {
        lemma_digits_are_digits(n / 10);
        assert forall|i: int| 0 <= i < spec_digits(n).len() implies spec_digit_val(
            #[trigger] spec_digits(n)[i],
        ) is Some by {
            if i < spec_digits(n / 10).len() {
                assert(spec_digits(n)[i] == spec_digits(n / 10)[i]);
            } else {
                assert(spec_digits(n)[i] == spec_digit_char(n % 10));
            }
        }
    }
}

/// The number parser undoes decimal encoding, when no digit follows.
proof fn lemma_num_roundtrip(n: u64, rest: Seq<char>)
    requires
        rest.len() == 0 || spec_digit_val(rest[0]) is None,
    ensures
        sp_num(spec_digits(n) + rest) == Some((n, rest)),
{
    let doc = spec_digits(n) + rest;
    lemma_digits_are_digits(n);
    assert(doc[0] == spec_digits(n)[0]);
    lemma_shift10_zero(n as int);
    lemma_num_rec_roundtrip(0, n, rest);
}

/// The optional-string parser undoes its encoding.
proof fn lemma_optstr_roundtrip(o: Option<Seq<char>>, rest: Seq<char>)
    ensures
        sp_optstr(spec_optstr_json(o) + rest) == Some((o, rest)),
{
    reveal_strlit("null");
    let doc = spec_optstr_json(o) + rest;
    match o {
        None => {
            assert(doc[0] == 'n');
            lemma_lit_roundtrip("null"@, rest);
        },
        Some(s) => {
            assert(doc[0] == '"');
            lemma_string_roundtrip(s, rest);
        },
    }
}

/// The optional-number parser undoes its encoding, when no digit follows.
proof fn lemma_optnum_roundtrip(o: Option<u64>, rest: Seq<char>)
    requires
        rest.len() == 0 || spec_digit_val(rest[0]) is None,
    ensures
        sp_optnum(spec_optnum_json(o) + rest) == Some((o, rest)),
{
    reveal_strlit("null");
    let doc = spec_optnum_json(o) + rest;
    match o {
        None => {
            assert(doc[0] == 'n');
            lemma_lit_roundtrip("null"@, rest);
        },
        Some(n) => {
            lemma_digits_are_digits(n);
            assert(doc[0] == spec_digits(n)[0]);
            assert(spec_digit_val(doc[0]) is Some);
            assert(doc[0] != 'n');
            lemma_num_roundtrip(n, rest);
        },
    }
}

/// Sequence concatenation reassociates.
proof fn seq_assoc(x: Seq<char>, y: Seq<char>, z: Seq<char>)
    ensures
        (x + y) + z == x + (y + z),
{
    assert((x + y) + z =~= x + (y + z));
}

/// The profile parser undoes profile encoding.
proof fn lemma_profile_roundtrip(p: ProfileData, rest: Seq<char>)
    ensures
        sp_profile(spec_profile_json(p) + rest) == Some((p, rest)),
{
    reveal_strlit("\n    }");
    let t12 = "\n    }"@ + rest;
    let t11 = spec_optnum_json(p.expires_at) + t12;
    let t10 = ",\n      \"expires_at\": "@ + t11;
    let t9 = spec_quote(p.token_type) + t10;
    let t8 = ",\n      \"token_type\": "@ + t9;
    let t7 = spec_optstr_json(p.refresh_token) + t8;
    let t6 = ",\n      \"refresh_token\": "@ + t7;
    let t5 = spec_optstr_json(p.access_token) + t6;
    let t4 = ",\n      \"access_token\": "@ + t5;
    let t3 = spec_optstr_json(p.vendor_id) + t4;
    let t2 = ",\n      \"vendor_id\": "@ + t3;
    let t1 = spec_quote(p.name) + t2;
    let doc = "    {\n      \"name\": "@ + t1;
    let e1 = "    {\n      \"name\": "@ + spec_quote(p.name);
    let e2 = e1 + ",\n      \"vendor_id\": "@;
    let e3 = e2 + spec_optstr_json(p.vendor_id);
    let e4 = e3 + ",\n      \"access_token\": "@;
    let e5 = e4 + spec_optstr_json(p.access_token);
    let e6 = e5 + ",\n      \"refresh_token\": "@;
    let e7 = e6 + spec_optstr_json(p.refresh_token);
    let e8 = e7 + ",\n      \"token_type\": "@;
    let e9 = e8 + spec_quote(p.token_type);
    let e10 = e9 + ",\n      \"expires_at\": "@;
    let e11 = e10 + spec_optnum_json(p.expires_at);
    let e12 = e11 + "\n    }"@;
    assert(spec_profile_json(p) == e12);
    seq_assoc(e11, "\n    }"@, rest);
    seq_assoc(e10, spec_optnum_json(p.expires_at), t12);
    seq_assoc(e9, ",\n      \"expires_at\": "@, t11);
    seq_assoc(e8, spec_quote(p.token_type), t10);
    seq_assoc(e7, ",\n      \"token_type\": "@, t9);
    seq_assoc(e6, spec_optstr_json(p.refresh_token), t8);
    seq_assoc(e5, ",\n      \"refresh_token\": "@, t7);
    seq_assoc(e4, spec_optstr_json(p.access_token), t6);
    seq_assoc(e3, ",\n      \"access_token\": "@, t5);
    seq_assoc(e2, spec_optstr_json(p.vendor_id), t4);
    seq_assoc(e1, ",\n      \"vendor_id\": "@, t3);
    seq_assoc("    {\n      \"name\": "@, spec_quote(p.name), t2);
    assert(spec_profile_json(p) + rest == doc);
    lemma_lit_roundtrip("    {\n      \"name\": "@, t1);
    lemma_string_roundtrip(p.name, t2);
    lemma_lit_roundtrip(",\n      \"vendor_id\": "@, t3);
    lemma_optstr_roundtrip(p.vendor_id, t4);
    lemma_lit_roundtrip(",\n      \"access_token\": "@, t5);
    lemma_optstr_roundtrip(p.access_token, t6);
    lemma_lit_roundtrip(",\n      \"refresh_token\": "@, t7);
    lemma_optstr_roundtrip(p.refresh_token, t8);
    lemma_lit_roundtrip(",\n      \"token_type\": "@, t9);
    lemma_string_roundtrip(p.token_type, t10);
    lemma_lit_roundtrip(",\n      \"expires_at\": "@, t11);
    assert(t12[0] == '\n');
    assert(spec_digit_val('\n') is None);
    lemma_optnum_roundtrip(p.expires_at, t12);
    lemma_lit_roundtrip("\n    }"@, rest);
}

/// The list parser undoes list encoding, for any continuation that cannot
/// be mistaken for a separator.
proof fn lemma_profiles_roundtrip(ps: Seq<ProfileData>, rest: Seq<char>)
    requires
        ps.len() >= 1,
        rest.len() >= 1,
        rest[0] != ',',
    ensures
        sp_profiles(spec_profiles_json(ps) + rest) == Some((ps, rest)),
    decreases ps.len(),
{
    reveal_strlit("    {\n      \"name\": ");
    reveal_strlit(",\n");
    let doc = spec_profiles_json(ps) + rest;
    let p = ps[0];
    if ps.len() == 1 {
        lemma_profile_roundtrip(p, rest);
        assert(rest.len() < doc.len());
        assert(seq![p] =~= ps);
    } else {
        let tail = ",\n"@ + (spec_profiles_json(ps.skip(1)) + rest);
        assert(doc =~= spec_profile_json(p) + tail);
        lemma_profile_roundtrip(p, tail);
        assert(tail.len() < doc.len());
        assert(tail[0] == ',');
        lemma_lit_roundtrip(",\n"@, spec_profiles_json(ps.skip(1)) + rest);
        assert((spec_profiles_json(ps.skip(1)) + rest).len() < doc.len());
        lemma_profiles_roundtrip(ps.skip(1), rest);
        assert(seq![p] + ps.skip(1) =~= ps);
    }
}

/// Decoding inverts encoding: a persisted store document reloads to the
/// identical profile collection, field for field, expiry included.
pub proof fn lemma_config_roundtrip(ps: Seq<ProfileData>)
    ensures
        sp_config(spec_config_json(ps)) == Some(ps),
{
    reveal_strlit("{\n  \"profiles\": []\n}");
    reveal_strlit("{\n  \"profiles\": [\n");
    reveal_strlit("\n  ]\n}");
    if ps.len() == 0 {
        assert(ps =~= Seq::<ProfileData>::empty());
    } else {
        let open = "{\n  \"profiles\": [\n"@;
        let close = "\n  ]\n}"@;
        let tail = spec_profiles_json(ps) + close;
        let s = spec_config_json(ps);
        assert(s =~= open + tail);
        assert(s[17] == '\n');
        assert(("{\n  \"profiles\": []\n}"@)[17] == ']');
        assert(s != "{\n  \"profiles\": []\n}"@);
        lemma_lit_roundtrip(open, tail);
        assert(close[0] == '\n');
        lemma_profiles_roundtrip(ps, close);
        lemma_lit_roundtrip(close, Seq::empty());
        assert(close =~= close + Seq::<char>::empty());
    }
}

// ---------------------------------------------------------------------------
// Executable encoding.
// ---------------------------------------------------------------------------
/// Append a literal to the output document.
fn emit_lit(out: &mut Vec<char>, lit: &str)
    ensures
        final(out)@ == old(out)@ + lit@,
{
    let n = lit.unicode_len();
    let mut i: usize = 0;
    while i < n
        invariant
            n == lit@.len(),
            i <= n,
            out@ == old(out)@ + lit@.take(i as int),
        decreases n - i,
    {
        out.push(lit.get_char(i));
        proof {
            assert(old(out)@ + lit@.take(i as int) + seq![lit@[i as int]] =~= old(out)@
                + lit@.take(i + 1));
        }
        i += 1;
    }
    proof {
        assert(lit@.take(n as int) =~= lit@);
    }
}

/// Escaping distributes over extending the string by one character.
proof fn lemma_escape_snoc(s: Seq<char>, c: char)
    ensures
        spec_escape(s.push(c)) == spec_escape(s) + spec_escape_char(c),
    decreases s.len(),
{
    if s.len() == 0 {
        assert(s.push(c)[0] == c);
        assert(s.push(c).skip(1) =~= Seq::<char>::empty());
        assert(spec_escape(Seq::<char>::empty()) == Seq::<char>::empty());
        assert(spec_escape(s.push(c)) =~= spec_escape_char(c));
    } else {
        assert(s.push(c)[0] == s[0]);
        assert(s.push(c).skip(1) =~= s.skip(1).push(c));
        lemma_escape_snoc(s.skip(1), c);
        seq_assoc(spec_escape_char(s[0]), spec_escape(s.skip(1)), spec_escape_char(c));
    }
}

/// Append a quoted, escaped string to the output document.
fn emit_quoted(out: &mut Vec<char>, s: &String)
    ensures
        final(out)@ == old(out)@ + spec_quote(s@),
{
    out.push('"');
    let n = s.as_str().unicode_len();
    let mut i: usize = 0;
    while i < n
        invariant
            n == s@.len(),
            i <= n,
            out@ == old(out)@ + seq!['"'] + spec_escape(s@.take(i as int)),
        decreases n - i,
    {
        let c = s.as_str().get_char(i);
        let ghost pre = out@;
        if c == '"' || c == '\\' {
            out.push('\\');
            out.push(c);
            proof {
                assert(pre + seq!['\\'] + seq![c] =~= pre + spec_escape_char(s@[i as int]));
            }
        } else {
            out.push(c);
            proof {
                assert(pre + seq![c] =~= pre + spec_escape_char(s@[i as int]));
            }
        }
        proof {
            assert(s@.take(i + 1) =~= s@.take(i as int).push(s@[i as int]));
            lemma_escape_snoc(s@.take(i as int), s@[i as int]);
            seq_assoc(old(out)@ + seq!['"'], spec_escape(s@.take(i as int)), spec_escape_char(s@[i as int]));
        }
        i += 1;
    }
    out.push('"');
    proof {
        assert(s@.take(n as int) =~= s@);
        assert(old(out)@ + seq!['"'] + spec_escape(s@) + seq!['"'] =~= old(out)@ + spec_quote(s@));
    }
}

/// The numeral character for one digit.
fn digit_char(d: u64) -> (c: char)
    requires
        d < 10,
    ensures
        c == spec_digit_char(d),
{
    if d == 0 {
        '0'
    } else if d == 1 {
        '1'
    } else if d == 2 {
        '2'
    } else if d == 3 {
        '3'
    } else if d == 4 {
        '4'
    } else if d == 5 {
        '5'
    } else if d == 6 {
        '6'
    } else if d == 7 {
        '7'
    } else if d == 8 {
        '8'
    } else {
        '9'
    }
}

/// Append the decimal numeral of `n`, most significant digit first.
fn emit_num(out: &mut Vec<char>, n: u64)
    ensures
        final(out)@ == old(out)@ + spec_digits(n),
    decreases n,
{
    if n < 10 {
        out.push(digit_char(n));
    } else {
        emit_num(out, n / 10);
        out.push(digit_char(n % 10));
        proof {
            seq_assoc(old(out)@, spec_digits(n / 10), seq![spec_digit_char(n % 10)]);
        }
    }
}

/// Append an optional string field.
fn emit_optstr(out: &mut Vec<char>, o: &Option<String>)
    ensures
        final(out)@ == old(out)@ + spec_optstr_json(match o {
            Some(s) => Some(s@),
            None => None,
        }),
{
    match o {
        None => emit_lit(out, "null"),
        Some(s) => emit_quoted(out, s),
    }
}

/// Append an optional numeric field.
fn emit_optnum(out: &mut Vec<char>, o: &Option<u64>)
    ensures
        final(out)@ == old(out)@ + spec_optnum_json(*o),
{
    match o {
        None => emit_lit(out, "null"),
        Some(n) => emit_num(out, *n),
    }
}

/// Append one profile object.
fn encode_profile_into(out: &mut Vec<char>, p: &ConfigProfile)
    ensures
        final(out)@ == old(out)@ + spec_profile_json(p@),
{
    let ghost o = out@;
    let ghost v = p@;
    emit_lit(out, "    {\n      \"name\": ");
    emit_quoted(out, &p.name);
    proof {
        seq_assoc(o, "    {\n      \"name\": "@, spec_quote(v.name));
    }
    let ghost e1 = "    {\n      \"name\": "@ + spec_quote(v.name);
    emit_lit(out, ",\n      \"vendor_id\": ");
    proof {
        seq_assoc(o, e1, ",\n      \"vendor_id\": "@);
    }
    let ghost e2 = e1 + ",\n      \"vendor_id\": "@;
    emit_optstr(out, &p.vendor_id);
    proof {
        seq_assoc(o, e2, spec_optstr_json(v.vendor_id));
    }
    let ghost e3 = e2 + spec_optstr_json(v.vendor_id);
    emit_lit(out, ",\n      \"access_token\": ");
    proof {
        seq_assoc(o, e3, ",\n      \"access_token\": "@);
    }
    let ghost e4 = e3 + ",\n      \"access_token\": "@;
    emit_optstr(out, &p.access_token);
    proof {
        seq_assoc(o, e4, spec_optstr_json(v.access_token));
    }
    let ghost e5 = e4 + spec_optstr_json(v.access_token);
    emit_lit(out, ",\n      \"refresh_token\": ");
    proof {
        seq_assoc(o, e5, ",\n      \"refresh_token\": "@);
    }
    let ghost e6 = e5 + ",\n      \"refresh_token\": "@;
    emit_optstr(out, &p.refresh_token);
    proof {
        seq_assoc(o, e6, spec_optstr_json(v.refresh_token));
    }
    let ghost e7 = e6 + spec_optstr_json(v.refresh_token);
    emit_lit(out, ",\n      \"token_type\": ");
    proof {
        seq_assoc(o, e7, ",\n      \"token_type\": "@);
    }
    let ghost e8 = e7 + ",\n      \"token_type\": "@;
    emit_quoted(out, &p.token_type);
    proof {
        seq_assoc(o, e8, spec_quote(v.token_type));
    }
    let ghost e9 = e8 + spec_quote(v.token_type);
    emit_lit(out, ",\n      \"expires_at\": ");
    proof {
        seq_assoc(o, e9, ",\n      \"expires_at\": "@);
    }
    let ghost e10 = e9 + ",\n      \"expires_at\": "@;
    emit_optnum(out, &p.expires_at);
    proof {
        seq_assoc(o, e10, spec_optnum_json(v.expires_at));
    }
    let ghost e11 = e10 + spec_optnum_json(v.expires_at);
    emit_lit(out, "\n    }");
    proof {
        seq_assoc(o, e11, "\n    }"@);
    }
}

/// Append the profiles from position `i` on, comma separated.
fn encode_profiles_from(out: &mut Vec<char>, c: &Config, i: usize)
    requires
        i <= c@.len(),
    ensures
        final(out)@ == old(out)@ + spec_profiles_json(c@.skip(i as int)),
    decreases c@.len() - i,
{
    let n = c.len();
    if i < n {
        encode_profile_into(out, c.profile_at(i));
        if i + 1 < n {
            emit_lit(out, ",\n");
            encode_profiles_from(out, c, i + 1);
            proof {
                let s = c@.skip(i as int);
                assert(s[0] == c@[i as int]);
                assert(s.skip(1) =~= c@.skip(i + 1));
                seq_assoc(old(out)@, spec_profile_json(c@[i as int]), ",\n"@);
                seq_assoc(
                    old(out)@,
                    spec_profile_json(c@[i as int]) + ",\n"@,
                    spec_profiles_json(c@.skip(i + 1)),
                );
                seq_assoc(spec_profile_json(c@[i as int]), ",\n"@, spec_profiles_json(c@.skip(i + 1)));
            }
        } else {
            proof {
                let s = c@.skip(i as int);
                assert(s.len() == 1);
                assert(s[0] == c@[i as int]);
            }
        }
    } else {
        proof {
            assert(c@.skip(i as int) =~= Seq::<ProfileData>::empty());
            assert(out@ =~= out@ + Seq::<char>::empty());
        }
    }
}

/// The canonical pretty-printed document for the whole store.
pub fn encode_config(c: &Config) -> (out: Vec<char>)
    ensures
        out@ == spec_config_json(c@),
{
    let mut out: Vec<char> = Vec::new();
    if c.len() == 0 {
        emit_lit(&mut out, "{\n  \"profiles\": []\n}");
        proof {
            assert(Seq::<char>::empty() + "{\n  \"profiles\": []\n}"@ =~= "{\n  \"profiles\": []\n}"@);
        }
    } else {
        emit_lit(&mut out, "{\n  \"profiles\": [\n");
        proof {
            assert(Seq::<char>::empty() + "{\n  \"profiles\": [\n"@ =~= "{\n  \"profiles\": [\n"@);
        }
        encode_profiles_from(&mut out, c, 0);
        proof {
            assert(c@.skip(0) =~= c@);
        }
        emit_lit(&mut out, "\n  ]\n}");
    }
    out
}

// ---------------------------------------------------------------------------
// Executable parsing. Each piece mirrors its specification exactly, on a
// cursor into the document.
// ---------------------------------------------------------------------------
/// Match an exact literal at the cursor.
#[verifier::loop_isolation(false)]
pub(crate) fn parse_lit(doc: &Vec<char>, i: usize, lit: &str) -> (r: Option<usize>)
    requires
        i <= doc@.len(),
    ensures
        match r {
            Some(j) => i <= j <= doc@.len() && sp_lit(doc@.skip(i as int), lit@) == Some(
                doc@.skip(j as int),
            ),
            None => sp_lit(doc@.skip(i as int), lit@) is None,
        },
{
    let n = lit.unicode_len();
    if doc.len() - i < n {
        return None;
    }
    let mut k: usize = 0;
    while k < n
        invariant
            n == lit@.len(),
            i + n <= doc@.len(),
            k <= n,
            forall|m: int| 0 <= m < k ==> doc@[i + m] == lit@[m],
        decreases n - k,
    {
        if doc[i + k] != lit.get_char(k) {
            proof {
                let s = doc@.skip(i as int);
                assert(s.take(n as int)[k as int] == doc@[i + k]);
            }
            return None;
        }
        k += 1;
    }
    proof {
        let s = doc@.skip(i as int);
        assert(s.take(n as int) =~= lit@);
        assert(s.skip(n as int) =~= doc@.skip((i + n) as int));
    }
    Some(i + n)
}

/// Parse a string body up to and including the closing quote.
fn parse_strbody(doc: &Vec<char>, i: usize) -> (r: Option<(String, usize)>)
    requires
        i <= doc@.len(),
    ensures
        match r {
            Some((s, j)) => i <= j <= doc@.len() && sp_strbody(doc@.skip(i as int)) == Some(
                (s@, doc@.skip(j as int)),
            ),
            None => sp_strbody(doc@.skip(i as int)) is None,
        },
    decreases doc@.len() - i,
{
    if i >= doc.len() {
        return None;
    }
    let c = doc[i];
    proof {
        assert(doc@.skip(i as int)[0] == c);
    }
    if c == '"' {
        proof {
            assert(doc@.skip(i as int).skip(1) =~= doc@.skip(i + 1));
        }
        return Some((String::new(), i + 1));
    }
    if c == '\\' {
        if i + 1 >= doc.len() {
            return None;
        }
        let e = doc[i + 1];
        proof {
            assert(doc@.skip(i as int)[1] == e);
        }
        if e == '"' || e == '\\' {
            proof {
                assert(doc@.skip(i as int).skip(2) =~= doc@.skip(i + 2));
            }
            match parse_strbody(doc, i + 2) {
                Some((tail, j)) => {
                    let mut s = String::new();
                    push_char(&mut s, e);
                    s.append(tail.as_str());
                    proof {
                        assert(Seq::<char>::empty() + seq![e] =~= seq![e]);
                    }
                    Some((s, j))
                },
                None => None,
            }
        } else {
            None
        }
    } else {
        proof {
            assert(doc@.skip(i as int).skip(1) =~= doc@.skip(i + 1));
        }
        match parse_strbody(doc, i + 1) {
            Some((tail, j)) => {
                let mut s = String::new();
                push_char(&mut s, c);
                s.append(tail.as_str());
                proof {
                    assert(Seq::<char>::empty() + seq![c] =~= seq![c]);
                }
                Some((s, j))
            },
            None => None,
        }
    }
}

/// Parse a quoted string.
pub(crate) fn parse_string(doc: &Vec<char>, i: usize) -> (r: Option<(String, usize)>)
    requires
        i <= doc@.len(),
    ensures
        match r {
            Some((s, j)) => i <= j <= doc@.len() && sp_string(doc@.skip(i as int)) == Some(
                (s@, doc@.skip(j as int)),
            ),
            None => sp_string(doc@.skip(i as int)) is None,
        },
{
    if i >= doc.len() {
        return None;
    }
    let c = doc[i];
    proof {
        assert(doc@.skip(i as int)[0] == c);
    }
    if c != '"' {
        return None;
    }
    proof {
        assert(doc@.skip(i as int).skip(1) =~= doc@.skip(i + 1));
    }
    parse_strbody(doc, i + 1)
}

/// The value of one numeral character, if it is one.
fn digit_val(c: char) -> (r: Option<u64>)
    ensures
        r == spec_digit_val(c),
{
    if c == '0' {
        Some(0u64)
    } else if c == '1' {
        Some(1u64)
    } else if c == '2' {
        Some(2u64)
    } else if c == '3' {
        Some(3u64)
    } else if c == '4' {
        Some(4u64)
    } else if c == '5' {
        Some(5u64)
    } else if c == '6' {
        Some(6u64)
    } else if c == '7' {
        Some(7u64)
    } else if c == '8' {
        Some(8u64)
    } else if c == '9' {
        Some(9u64)
    } else {
        None
    }
}

/// Consume digits into the accumulator; fail on overflow.
fn parse_num_rec(doc: &Vec<char>, i: usize, acc: u64) -> (r: Option<(u64, usize)>)
    requires
        i <= doc@.len(),
    ensures
        match r {
            Some((v, j)) => i <= j <= doc@.len() && sp_num_rec(doc@.skip(i as int), acc) == Some(
                (v, doc@.skip(j as int)),
            ),
            None => sp_num_rec(doc@.skip(i as int), acc) is None,
        },
    decreases doc@.len() - i,
{
    if i >= doc.len() {
        return Some((acc, i));
    }
    let c = doc[i];
    proof {
        assert(doc@.skip(i as int)[0] == c);
    }
    match digit_val(c) {
        None => Some((acc, i)),
        Some(d) => {
            match acc.checked_mul(10) {
                None => None,
                Some(m) => match m.checked_add(d) {
                    None => None,
                    Some(acc2) => {
                        proof {
                            assert(doc@.skip(i as int).skip(1) =~= doc@.skip(i + 1));
                        }
                        parse_num_rec(doc, i + 1, acc2)
                    },
                },
            }
        },
    }
}

/// Parse a decimal number: at least one digit.
pub(crate) fn parse_num(doc: &Vec<char>, i: usize) -> (r: Option<(u64, usize)>)
    requires
        i <= doc@.len(),
    ensures
        match r {
            Some((v, j)) => i <= j <= doc@.len() && sp_num(doc@.skip(i as int)) == Some(
                (v, doc@.skip(j as int)),
            ),
            None => sp_num(doc@.skip(i as int)) is None,
        },
{
    if i >= doc.len() {
        return None;
    }
    let c = doc[i];
    proof {
        assert(doc@.skip(i as int)[0] == c);
    }
    match digit_val(c) {
        None => None,
        Some(_) => parse_num_rec(doc, i, 0),
    }
}

/// Parse `null` or a quoted string.
fn parse_optstr(doc: &Vec<char>, i: usize) -> (r: Option<(Option<String>, usize)>)
    requires
        i <= doc@.len(),
    ensures
        match r {
            Some((o, j)) => i <= j <= doc@.len() && sp_optstr(doc@.skip(i as int)) == Some(
                (
                    match o {
                        Some(s) => Some(s@),
                        None => None,
                    },
                    doc@.skip(j as int),
                ),
            ),
            None => sp_optstr(doc@.skip(i as int)) is None,
        },
{
    if i >= doc.len() {
        return None;
    }
    let c = doc[i];
    proof {
        assert(doc@.skip(i as int)[0] == c);
    }
    if c == 'n' {
        match parse_lit(doc, i, "null") {
            Some(j) => Some((None, j)),
            None => None,
        }
    } else {
        match parse_string(doc, i) {
            Some((s, j)) => Some((Some(s), j)),
            None => None,
        }
    }
}

/// Parse `null` or a decimal number.
fn parse_optnum(doc: &Vec<char>, i: usize) -> (r: Option<(Option<u64>, usize)>)
    requires
        i <= doc@.len(),
    ensures
        match r {
            Some((o, j)) => i <= j <= doc@.len() && sp_optnum(doc@.skip(i as int)) == Some(
                (o, doc@.skip(j as int)),
            ),
            None => sp_optnum(doc@.skip(i as int)) is None,
        },
{
    if i >= doc.len() {
        return None;
    }
    let c = doc[i];
    proof {
        assert(doc@.skip(i as int)[0] == c);
    }
    if c == 'n' {
        match parse_lit(doc, i, "null") {
            Some(j) => Some((None, j)),
            None => None,
        }
    } else {
        match parse_num(doc, i) {
            Some((v, j)) => Some((Some(v), j)),
            None => None,
        }
    }
}

/// Parse one profile object.
fn parse_profile(doc: &Vec<char>, i: usize) -> (r: Option<(ConfigProfile, usize)>)
    requires
        i <= doc@.len(),
    ensures
        match r {
            Some((p, j)) => i <= j <= doc@.len() && sp_profile(doc@.skip(i as int)) == Some(
                (p@, doc@.skip(j as int)),
            ),
            None => sp_profile(doc@.skip(i as int)) is None,
        },
{
    let s1 = match parse_lit(doc, i, "    {\n      \"name\": ") {
        Some(j) => j,
        None => {
            return None;
        },
    };
    let (name, s2) = match parse_string(doc, s1) {
        Some(v) => v,
        None => {
            return None;
        },
    };
    let s3 = match parse_lit(doc, s2, ",\n      \"vendor_id\": ") {
        Some(j) => j,
        None => {
            return None;
        },
    };
    let (vendor_id, s4) = match parse_optstr(doc, s3) {
        Some(v) => v,
        None => {
            return None;
        },
    };
    let s5 = match parse_lit(doc, s4, ",\n      \"access_token\": ") {
        Some(j) => j,
        None => {
            return None;
        },
    };
    let (access_token, s6) = match parse_optstr(doc, s5) {
        Some(v) => v,
        None => {
            return None;
        },
    };
    let s7 = match parse_lit(doc, s6, ",\n      \"refresh_token\": ") {
        Some(j) => j,
        None => {
            return None;
        },
    };
    let (refresh_token, s8) = match parse_optstr(doc, s7) {
        Some(v) => v,
        None => {
            return None;
        },
    };
    let s9 = match parse_lit(doc, s8, ",\n      \"token_type\": ") {
        Some(j) => j,
        None => {
            return None;
        },
    };
    let (token_type, s10) = match parse_string(doc, s9) {
        Some(v) => v,
        None => {
            return None;
        },
    };
    let s11 = match parse_lit(doc, s10, ",\n      \"expires_at\": ") {
        Some(j) => j,
        None => {
            return None;
        },
    };
    let (expires_at, s12) = match parse_optnum(doc, s11) {
        Some(v) => v,
        None => {
            return None;
        },
    };
    let s13 = match parse_lit(doc, s12, "\n    }") {
        Some(j) => j,
        None => {
            return None;
        },
    };
    Some(
        (
            ConfigProfile {
                name,
                vendor_id,
                access_token,
                refresh_token,
                token_type,
                expires_at,
            },
            s13,
        ),
    )
}

/// Parse a nonempty profile list: one profile, then either a separator and
/// more profiles, or nothing more of the list.
fn parse_profiles(doc: &Vec<char>, i: usize) -> (r: Option<(Vec<ConfigProfile>, usize)>)
    requires
        i <= doc@.len(),
    ensures
        match r {
            Some((ps, j)) => i <= j <= doc@.len() && sp_profiles(doc@.skip(i as int)) == Some(
                (ps@.map_values(|p: ConfigProfile| p@), doc@.skip(j as int)),
            ),
            None => sp_profiles(doc@.skip(i as int)) is None,
        },
    decreases doc@.len() - i,
{
    match parse_profile(doc, i) {
        None => None,
        Some((p, j)) => {
            if j <= i {
                return None;
            }
            if j < doc.len() && doc[j] == ',' {
                proof {
                    assert(doc@.skip(j as int)[0] == ',');
                }
                match parse_lit(doc, j, ",\n") {
                    None => None,
                    Some(j2) => {
                        match parse_profiles(doc, j2) {
                            Some((tail, j3)) => {
                                let mut ps = tail;
                                ps.insert(0, p);
                                proof {
                                    assert(ps@.map_values(|q: ConfigProfile| q@) =~= seq![p@]
                                        + ps@.skip(1).map_values(|q: ConfigProfile| q@));
                                }
                                Some((ps, j3))
                            },
                            None => None,
                        }
                    },
                }
            } else {
                proof {
                    if j < doc@.len() {
                        assert(doc@.skip(j as int)[0] == doc@[j as int]);
                    }
                }
                let mut ps: Vec<ConfigProfile> = Vec::new();
                ps.push(p);
                proof {
                    assert(ps@.map_values(|q: ConfigProfile| q@) =~= seq![p@]);
                }
                Some((ps, j))
            }
        },
    }
}

/// Parse a whole document; succeeds only when every character is consumed.
fn parse_config(doc: &Vec<char>) -> (r: Option<Vec<ConfigProfile>>)
    ensures
        match r {
            Some(ps) => sp_config(doc@) == Some(ps@.map_values(|p: ConfigProfile| p@)),
            None => sp_config(doc@) is None,
        },
{
    proof {
        assert(doc@.skip(0) =~= doc@);
    }
    match parse_lit(doc, 0, "{\n  \"profiles\": []\n}") {
        Some(j) => {
            if j == doc.len() {
                proof {
                    assert(doc@.skip(j as int).len() == 0);
                    assert(doc@ =~= "{\n  \"profiles\": []\n}"@);
                }
                let ps: Vec<ConfigProfile> = Vec::new();
                proof {
                    assert(ps@.map_values(|p: ConfigProfile| p@) =~= Seq::<ProfileData>::empty());
                }
                return Some(ps);
            }
            // The empty form with trailing text matches neither document
            // shape: it is too long for the empty form and breaks from the
            // nonempty opening at the bracket.
            proof {
                reveal_strlit("{\n  \"profiles\": []\n}");
                reveal_strlit("{\n  \"profiles\": [\n");
                assert(("{\n  \"profiles\": []\n}"@).len() == 20);
                assert(doc@.skip(j as int).len() == doc@.skip(20).len());
                assert(j == 20);
                assert(doc@.len() > 20);
                assert(doc@ != "{\n  \"profiles\": []\n}"@);
                assert(doc@.take(20)[17] == ']');
                if sp_lit(doc@, "{\n  \"profiles\": [\n"@) is Some {
                    assert(doc@.take(18)[17] == '\n');
                    assert(false);
                }
            }
            return None;
        },
        None => {},
    }
    let s1 = match parse_lit(doc, 0, "{\n  \"profiles\": [\n") {
        Some(j) => j,
        None => {
            return None;
        },
    };
    proof {
        reveal_strlit("{\n  \"profiles\": []\n}");
        reveal_strlit("{\n  \"profiles\": [\n");
        assert(doc@.take(18)[17] == '\n');
        if doc@ == "{\n  \"profiles\": []\n}"@ {
            assert(doc@[17] == ']');
            assert(false);
        }
    }
    let (ps, s2) = match parse_profiles(doc, s1) {
        Some(v) => v,
        None => {
            return None;
        },
    };
    let s3 = match parse_lit(doc, s2, "\n  ]\n}") {
        Some(j) => j,
        None => {
            return None;
        },
    };
    if s3 != doc.len() {
        return None;
    }
    Some(ps)
}

/// Decode a persisted document back into a store. A document that does not
/// parse, or whose profiles break the store invariant (a partially set
/// credential, or two profiles of one name), is refused as `Malformed`.
#[verifier::loop_isolation(false)]
pub fn decode_config(doc: &Vec<char>) -> (r: Result<Config, ConfigError>)
    ensures
        match r {
            Ok(c) => sp_config(doc@) == Some(c@) && config_wf(c@),
            Err(e) => {
                &&& e == ConfigError::Malformed
                &&& match sp_config(doc@) {
                    Some(ps) => !config_wf(ps),
                    None => true,
                }
            },
        },
{
    let ps = match parse_config(doc) {
        Some(ps) => ps,
        None => {
            return Err(ConfigError::Malformed);
        },
    };
    let ghost view = ps@.map_values(|p: ConfigProfile| p@);
    let n = ps.len();
    let mut i: usize = 0;
    while i < n
        invariant
            n == ps@.len(),
            i <= n,
            view == ps@.map_values(|p: ConfigProfile| p@),
            forall|a: int| 0 <= a < i ==> profile_wf(#[trigger] view[a]),
            forall|a: int, b: int| 0 <= a < i && a < b < n ==> view[a].name != view[b].name,
        decreases n - i,
    {
        let p = &ps[i];
        if p.access_token.is_some() != p.refresh_token.is_some() || p.access_token.is_some()
            != p.expires_at.is_some() {
            proof {
                assert(!profile_wf(view[i as int]));
            }
            return Err(ConfigError::Malformed);
        }
        let mut k: usize = i + 1;
        while k < n
            invariant
                n == ps@.len(),
                i < k || k == i + 1,
                i < n,
                i + 1 <= k <= n,
                view == ps@.map_values(|p: ConfigProfile| p@),
                forall|b: int| i < b < k ==> view[i as int].name != view[b].name,
            decreases n - k,
        {
            if crate::config::str_eq(ps[i].name.as_str(), ps[k].name.as_str()) {
                proof {
                    assert(view[i as int].name == view[k as int].name);
                }
                return Err(ConfigError::Malformed);
            }
            k += 1;
        }
        i += 1;
    }
    proof {
        assert forall|a: int, b: int|
            0 <= a < view.len() && 0 <= b < view.len() && a != b implies view[a].name
            != view[b].name by {
            if a < b {
            } else {
            }
        }
    }
    Ok(Config::from_profiles(ps))
}

} // verus!
