//! The JSON wire format for movie records.
//!
//! A record travels as one JSON object with its six fields in a fixed
//! order; quotes and backslashes in text are escaped, control characters
//! are written as `\u00..`, and everything else stands for itself. The
//! encoder and the parser below are exact inverses (see
//! `lemma_movie_json_roundtrip`).
use crate::movie::MovieRecord;
use crate::movie::MovieView;
use crate::text::chars_to_string;
use crate::text::str_chars;
use vstd::prelude::*;

verus! {

/// The sixteen hexadecimal digits, lower case.
pub open spec fn hex_digit(n: int) -> char {
    if n == 0 {
        '0'
    } else if n == 1 {
        '1'
    } else if n == 2 {
        '2'
    } else if n == 3 {
        '3'
    } else if n == 4 {
        '4'
    } else if n == 5 {
        '5'
    } else if n == 6 {
        '6'
    } else if n == 7 {
        '7'
    } else if n == 8 {
        '8'
    } else if n == 9 {
        '9'
    } else if n == 10 {
        'a'
    } else if n == 11 {
        'b'
    } else if n == 12 {
        'c'
    } else if n == 13 {
        'd'
    } else if n == 14 {
        'e'
    } else {
        'f'
    }
}

/// How one character stands inside a JSON string: quote and backslash
/// escaped, control characters as `\u00..`, all else as itself.
pub open spec fn escape_char(c: char) -> Seq<char> {
    if c == '"' {
        seq!['\\', '"']
    } else if c == '\\' {
        seq!['\\', '\\']
    } else if (c as u32) < 32 {
        seq!['\\', 'u', '0', '0', hex_digit(((c as u32) / 16) as int), hex_digit(
            ((c as u32) % 16) as int,
        )]
    } else {
        seq![c]
    }
}

/// A whole text, character for character.
pub open spec fn escape_string(s: Seq<char>) -> Seq<char>
    decreases s.len(),
{
    if s.len() == 0 {
        Seq::<char>::empty()
    } else {
        escape_char(s[0]) + escape_string(s.skip(1))
    }
}

/// Escaping distributes over concatenation.
pub proof fn lemma_escape_append(a: Seq<char>, b: Seq<char>)
    ensures
        escape_string(a + b) == escape_string(a) + escape_string(b),
    decreases a.len(),
{
    if a.len() == 0 {
        assert(a + b =~= b);
        assert(escape_string(a) + escape_string(b) =~= escape_string(b));
    } else {
        assert((a + b)[0] == a[0]);
        assert((a + b).skip(1) =~= a.skip(1) + b);
        lemma_escape_append(a.skip(1), b);
        assert(escape_char(a[0]) + (escape_string(a.skip(1)) + escape_string(b)) =~= (escape_char(
            a[0],
        ) + escape_string(a.skip(1))) + escape_string(b));
    }
}

/// Escaping one character alone is its escape sequence.
pub proof fn lemma_escape_one(c: char)
    ensures
        escape_string(seq![c]) == escape_char(c),
{
    assert(seq![c].skip(1) =~= Seq::<char>::empty());
    assert(escape_char(c) + escape_string(seq![c].skip(1)) =~= escape_char(c));
}

/// The decimal digits of `n`, most significant first.
pub open spec fn dec_nat(n: nat) -> Seq<char>
    decreases n,
{
    if n < 10 {
        seq![hex_digit(n as int)]
    } else {
        dec_nat(n / 10) + seq![hex_digit((n % 10) as int)]
    }
}

/// A signed decimal: a minus sign before the digits of the magnitude.
pub open spec fn dec_int(n: int) -> Seq<char> {
    if n < 0 {
        seq!['-'] + dec_nat((-n) as nat)
    } else {
        dec_nat(n as nat)
    }
}

/// The object opener and the `id` key.
pub open spec fn key_id() -> Seq<char> {
    seq!['{', '"', 'i', 'd', '"', ':']
}

/// Comma, the `title` key, and its opening quote.
pub open spec fn key_title() -> Seq<char> {
    seq![',', '"', 't', 'i', 't', 'l', 'e', '"', ':', '"']
}

/// Closing quote, comma, and the `release_year` key.
pub open spec fn key_release_year() -> Seq<char> {
    seq!['"', ',', '"', 'r', 'e', 'l', 'e', 'a', 's', 'e', '_', 'y', 'e', 'a', 'r', '"', ':']
}

/// Comma, the `file_path` key, and its opening quote.
pub open spec fn key_file_path() -> Seq<char> {
    seq![',', '"', 'f', 'i', 'l', 'e', '_', 'p', 'a', 't', 'h', '"', ':', '"']
}

/// Closing quote, comma, the `poster_path` key, and its opening quote.
pub open spec fn key_poster_path() -> Seq<char> {
    seq!['"', ',', '"', 'p', 'o', 's', 't', 'e', 'r', '_', 'p', 'a', 't', 'h', '"', ':', '"']
}

/// Closing quote, comma, the `backdrop_path` key, and its opening quote.
pub open spec fn key_backdrop_path() -> Seq<char> {
    seq!['"', ',', '"', 'b', 'a', 'c', 'k', 'd', 'r', 'o', 'p', '_', 'p', 'a', 't', 'h', '"', ':',
        '"']
}

/// Closing quote and the object closer.
pub open spec fn key_end() -> Seq<char> {
    seq!['"', '}']
}

/// The wire text of one record: its six fields in fixed order.
pub open spec fn movie_json(m: MovieView) -> Seq<char> {
    key_id() + dec_int(m.id) + key_title() + escape_string(m.title) + key_release_year() + dec_int(
        m.release_year,
    ) + key_file_path() + escape_string(m.file_path) + key_poster_path() + escape_string(
        m.poster_path,
    ) + key_backdrop_path() + escape_string(m.backdrop_path) + key_end()
}

/// The records of a catalog joined by commas, without the brackets.
pub open spec fn movies_items(ms: Seq<MovieView>) -> Seq<char>
    decreases ms.len(),
{
    if ms.len() == 0 {
        Seq::<char>::empty()
    } else if ms.len() == 1 {
        movie_json(ms[0])
    } else {
        movie_json(ms[0]) + seq![','] + movies_items(ms.skip(1))
    }
}

/// The wire text of a whole catalog: a JSON array of its records in order.
pub open spec fn movies_json(ms: Seq<MovieView>) -> Seq<char> {
    seq!['['] + movies_items(ms) + seq![']']
}

/// The character for one digit value.
fn digit_char(d: u32) -> (c: char)
    requires
        d < 16,
    ensures
        c == hex_digit(d as int),
{
    match d {
        0 => '0',
        1 => '1',
        2 => '2',
        3 => '3',
        4 => '4',
        5 => '5',
        6 => '6',
        7 => '7',
        8 => '8',
        9 => '9',
        10 => 'a',
        11 => 'b',
        12 => 'c',
        13 => 'd',
        14 => 'e',
        _ => 'f',
    }
}

/// Appends the characters of a literal.
#[verifier::loop_isolation(false)]
fn append_lit(out: &mut Vec<char>, lit: &str)
    ensures
        final(out)@ == old(out)@ + lit@,
{
    let v = str_chars(lit);
    let n = v.len();
    let mut i: usize = 0;
    while i < n
        invariant
            0 <= i <= n == v.len(),
            v@ == lit@,
            out@ =~= old(out)@ + lit@.take(i as int),
        decreases n - i,
    {
        out.push(v[i]);
        i += 1;
    }
    proof {
        assert(lit@.take(n as int) =~= lit@);
    }
}

/// Appends the decimal digits of `n`.
fn append_dec_u64(out: &mut Vec<char>, n: u64)
    ensures
        final(out)@ == old(out)@ + dec_nat(n as nat),
    decreases n,
{
    if n < 10 {
        out.push(digit_char(n as u32));
    } else {
        append_dec_u64(out, n / 10);
        out.push(digit_char((n % 10) as u32));
        proof {
            assert(out@ =~= old(out)@ + dec_nat(n as nat));
        }
    }
}

/// Appends a signed decimal.
fn append_dec_i32(out: &mut Vec<char>, n: i32)
    ensures
        final(out)@ == old(out)@ + dec_int(n as int),
{
    if n < 0 {
        out.push('-');
        let mag: u64 = (-(n as i64)) as u64;
        proof {
            assert(mag as nat == (-(n as int)) as nat);
        }
        append_dec_u64(out, mag);
        proof {
            assert(out@ =~= old(out)@ + dec_int(n as int));
        }
    } else {
        append_dec_u64(out, n as u64);
    }
}

/// Appends the escaped form of a text.
#[verifier::loop_isolation(false)]
fn append_escaped(out: &mut Vec<char>, s: &str)
    ensures
        final(out)@ == old(out)@ + escape_string(s@),
{
    let v = str_chars(s);
    let n = v.len();
    let mut i: usize = 0;
    while i < n
        invariant
            0 <= i <= n == v.len(),
            v@ == s@,
            out@ =~= old(out)@ + escape_string(s@.take(i as int)),
        decreases n - i,
    {
        let c = v[i];
        let u = c as u32;
        if c == '"' {
            out.push('\\');
            out.push('"');
        } else if c == '\\' {
            out.push('\\');
            out.push('\\');
        } else if u < 32 {
            out.push('\\');
            out.push('u');
            out.push('0');
            out.push('0');
            out.push(digit_char(u / 16));
            out.push(digit_char(u % 16));
        } else {
            out.push(c);
        }
        proof {
            assert(s@.take(i + 1) =~= s@.take(i as int) + seq![s@[i as int]]);
            lemma_escape_append(s@.take(i as int), seq![s@[i as int]]);
            lemma_escape_one(s@[i as int]);
            assert(out@ =~= old(out)@ + escape_string(s@.take(i + 1)));
        }
        i += 1;
    }
    proof {
        assert(s@.take(n as int) =~= s@);
    }
}

/// Appends the wire text of one record.
fn append_movie(out: &mut Vec<char>, m: &MovieRecord)
    ensures
        final(out)@ == old(out)@ + movie_json(m@),
{
    append_lit(out, "{\"id\":");
    append_dec_i32(out, m.id);
    append_lit(out, ",\"title\":\"");
    append_escaped(out, m.title.as_str());
    append_lit(out, "\",\"release_year\":");
    append_dec_i32(out, m.release_year);
    append_lit(out, ",\"file_path\":\"");
    append_escaped(out, m.file_path.as_str());
    append_lit(out, "\",\"poster_path\":\"");
    append_escaped(out, m.poster_path.as_str());
    append_lit(out, "\",\"backdrop_path\":\"");
    append_escaped(out, m.backdrop_path.as_str());
    append_lit(out, "\"}");
    proof {
        reveal_strlit("{\"id\":");
        reveal_strlit(",\"title\":\"");
        reveal_strlit("\",\"release_year\":");
        reveal_strlit(",\"file_path\":\"");
        reveal_strlit("\",\"poster_path\":\"");
        reveal_strlit("\",\"backdrop_path\":\"");
        reveal_strlit("\"}");
        assert("{\"id\":"@ =~= key_id());
        assert(",\"title\":\""@ =~= key_title());
        assert("\",\"release_year\":"@ =~= key_release_year());
        assert(",\"file_path\":\""@ =~= key_file_path());
        assert("\",\"poster_path\":\""@ =~= key_poster_path());
        assert("\",\"backdrop_path\":\""@ =~= key_backdrop_path());
        assert("\"}"@ =~= key_end());
        assert(out@ =~= old(out)@ + movie_json(m@));
    }
}

/// The wire text of one record.
pub fn encode_movie(m: &MovieRecord) -> (s: String)
    ensures
        s@ == movie_json(m@),
{
    let mut out: Vec<char> = Vec::new();
    append_movie(&mut out, m);
    chars_to_string(&out)
}

/// Joining one more record onto a non-empty catalog's items.
#[verifier::rlimit(100)]
#[verifier::spinoff_prover]
proof fn lemma_items_snoc(ms: Seq<MovieView>, i: int)
    requires
        1 <= i < ms.len(),
    ensures
        movies_items(ms.take(i + 1)) == movies_items(ms.take(i)) + seq![','] + movie_json(ms[i]),
    decreases i,
{
    if i == 1 {
        let t = ms.take(2);
        assert(t.skip(1) =~= seq![ms[1]]);
        assert(movies_items(seq![ms[1]]) == movie_json(ms[1]));
        assert(ms.take(1) =~= seq![ms[0]]);
        assert(movies_items(ms.take(2)) =~= movies_items(ms.take(1)) + seq![','] + movie_json(
            ms[1],
        ));
    } else {
        let r = ms.skip(1);
        lemma_items_snoc(r, i - 1);
        assert(ms.take(i + 1).skip(1) =~= r.take(i));
        assert(ms.take(i).skip(1) =~= r.take(i - 1));
        assert(ms.take(i + 1)[0] == ms[0]);
        assert(ms.take(i)[0] == ms[0]);
        assert(r[i - 1] == ms[i]);
        assert(movie_json(ms[0]) + seq![','] + (movies_items(r.take(i - 1)) + seq![',']
            + movie_json(ms[i])) =~= (movie_json(ms[0]) + seq![','] + movies_items(r.take(i - 1)))
            + seq![','] + movie_json(ms[i]));
    }
}

/// The wire text of a whole catalog, in catalog order.
#[verifier::loop_isolation(false)]
pub fn encode_movies(ms: &Vec<MovieRecord>) -> (s: String)
    ensures
        s@ == movies_json(ms.deep_view()),
{
    let mut out: Vec<char> = Vec::new();
    out.push('[');
    let n = ms.len();
    let ghost dv = ms.deep_view();
    proof {
        assert(dv.len() == n);
    }
    let mut i: usize = 0;
    while i < n
        invariant
            0 <= i <= n == ms.len(),
            dv == ms.deep_view(),
            dv.len() == n,
            out@ =~= seq!['['] + movies_items(dv.take(i as int)),
        decreases n - i,
    {
        if i > 0 {
            out.push(',');
            append_movie(&mut out, &ms[i]);
            proof {
                assert(dv[i as int] == ms@[i as int]@);
                lemma_items_snoc(dv, i as int);
                assert(out@ =~= seq!['['] + movies_items(dv.take(i + 1)));
            }
        } else {
            append_movie(&mut out, &ms[i]);
            proof {
                assert(dv[0] == ms@[0]@);
                assert(dv.take(1) =~= seq![dv[0]]);
                assert(movies_items(dv.take(1)) == movie_json(dv[0]));
                assert(out@ =~= seq!['['] + movies_items(dv.take(1)));
            }
        }
        i += 1;
    }
    out.push(']');
    proof {
        assert(dv.take(n as int) =~= dv);
        assert(out@ =~= movies_json(ms.deep_view()));
    }
    chars_to_string(&out)
}

/// A hexadecimal digit as the escapes write them: `0`-`9`, `a`-`f`.
pub open spec fn is_hex_char(c: char) -> bool {
    (48 <= c as u32 && c as u32 <= 57) || (97 <= c as u32 && c as u32 <= 102)
}

/// Value of one hexadecimal digit.
pub open spec fn hex_val(c: char) -> int {
    if 48 <= c as u32 && c as u32 <= 57 {
        c as u32 - 48
    } else {
        c as u32 - 87
    }
}

/// `hex_digit` writes digits that read back to their value.
pub proof fn lemma_hex_digit_val(n: int)
    requires
        0 <= n < 16,
    ensures
        is_hex_char(hex_digit(n)),
        hex_val(hex_digit(n)) == n,
{
}

/// Prepends a decoded character onto a parse result.
pub open spec fn sp_prepend(c: char, r: Option<(Seq<char>, Seq<char>)>) -> Option<
    (Seq<char>, Seq<char>),
> {
    match r {
        Some(p) => Some((seq![c] + p.0, p.1)),
        None => None,
    }
}

/// Parses a JSON string body up to, but not including, its closing quote:
/// the decoded text, and the rest beginning with that quote.
pub open spec fn sp_string_body(s: Seq<char>) -> Option<(Seq<char>, Seq<char>)>
    decreases s.len(),
{
    if s.len() == 0 {
        None
    } else if s[0] == '"' {
        Some((Seq::<char>::empty(), s))
    } else if s[0] == '\\' {
        if s.len() >= 2 && s[1] == '"' {
            sp_prepend('"', sp_string_body(s.skip(2)))
        } else if s.len() >= 2 && s[1] == '\\' {
            sp_prepend('\\', sp_string_body(s.skip(2)))
        } else if s.len() >= 6 && s[1] == 'u' && s[2] == '0' && s[3] == '0' && is_hex_char(s[4])
            && is_hex_char(s[5]) {
            sp_prepend(
                ((hex_val(s[4]) * 16 + hex_val(s[5])) as u32) as char,
                sp_string_body(s.skip(6)),
            )
        } else {
            None
        }
    } else if (s[0] as u32) < 32 {
        None
    } else {
        sp_prepend(s[0], sp_string_body(s.skip(1)))
    }
}

/// Numeric value of a run of decimal digits.
pub open spec fn digits_val(ds: Seq<char>) -> int
    decreases ds.len(),
{
    if ds.len() == 0 {
        0
    } else {
        digits_val(ds.drop_last()) * 10 + (ds.last() as u32 - 48)
    }
}

/// Parses an optionally signed decimal: its value and the rest.
pub open spec fn sp_int(s: Seq<char>) -> Option<(int, Seq<char>)> {
    if s.len() >= 1 && s[0] == '-' {
        let t = s.skip(1);
        let d = crate::matcher::digit_run(t);
        if d >= 1 {
            Some((-digits_val(t.take(d)), t.skip(d)))
        } else {
            None
        }
    } else {
        let d = crate::matcher::digit_run(s);
        if d >= 1 {
            Some((digits_val(s.take(d)), s.skip(d)))
        } else {
            None
        }
    }
}

/// Consumes an exact literal from the front.
pub open spec fn sp_lit(s: Seq<char>, lit: Seq<char>) -> Option<Seq<char>> {
    if s.len() >= lit.len() && s.take(lit.len() as int) == lit {
        Some(s.skip(lit.len() as int))
    } else {
        None
    }
}

/// Parses the wire text of one record: its content and the rest. This is
/// the object form `movie_json` writes: the six fields in fixed order.
pub open spec fn sp_movie(s: Seq<char>) -> Option<(MovieView, Seq<char>)> {
    match sp_lit(s, key_id()) {
        None => None,
        Some(s1) => match sp_int(s1) {
            None => None,
            Some((id, s2)) => match sp_lit(s2, key_title()) {
                None => None,
                Some(s3) => match sp_string_body(s3) {
                    None => None,
                    Some((title, s4)) => match sp_lit(s4, key_release_year()) {
                        None => None,
                        Some(s5) => match sp_int(s5) {
                            None => None,
                            Some((release_year, s6)) => match sp_lit(s6, key_file_path()) {
                                None => None,
                                Some(s7) => match sp_string_body(s7) {
                                    None => None,
                                    Some((file_path, s8)) => match sp_lit(s8, key_poster_path()) {
                                        None => None,
                                        Some(s9) => match sp_string_body(s9) {
                                            None => None,
                                            Some((poster_path, s10)) => match sp_lit(
                                                s10,
                                                key_backdrop_path(),
                                            ) {
                                                None => None,
                                                Some(s11) => match sp_string_body(s11) {
                                                    None => None,
                                                    Some((backdrop_path, s12)) => match sp_lit(
                                                        s12,
                                                        key_end(),
                                                    ) {
                                                        None => None,
                                                        Some(s13) => Some(
                                                            (
                                                                MovieView {
                                                                    id,
                                                                    title,
                                                                    release_year,
                                                                    file_path,
                                                                    poster_path,
                                                                    backdrop_path,
                                                                },
                                                                s13,
                                                            ),
                                                        ),
                                                    },
                                                },
                                            },
                                        },
                                    },
                                },
                            },
                        },
                    },
                },
            },
        },
    }
}

/// A literal at the front is consumed exactly.
pub proof fn lemma_sp_lit(lit: Seq<char>, rest: Seq<char>)
    ensures
        sp_lit(lit + rest, lit) == Some(rest),
{
    assert((lit + rest).take(lit.len() as int) =~= lit);
    assert((lit + rest).skip(lit.len() as int) =~= rest);
}

/// The digits `dec_nat` writes: at least one, all decimal, reading back to
/// the number.
pub proof fn lemma_dec_nat_digits(n: nat)
    ensures
        ({
            let ds = dec_nat(n);
            &&& ds.len() >= 1
            &&& forall|i: int| 0 <= i < ds.len() ==> crate::matcher::is_digit_char(ds[i])
            &&& digits_val(ds) == n
        }),
    decreases n,
{
    let ds = dec_nat(n);
    if n < 10 {
        assert(ds == seq![hex_digit(n as int)]);
        assert(hex_digit(n as int) as u32 == 48 + n);
        assert(ds.drop_last() =~= Seq::<char>::empty());
        assert(ds.last() == hex_digit(n as int));
        assert(digits_val(Seq::<char>::empty()) == 0);
        assert(digits_val(ds) == n);
        assert(ds[0] == hex_digit(n as int));
        assert(crate::matcher::is_digit_char(ds[0]));
    } else {
        lemma_dec_nat_digits(n / 10);
        let hd = dec_nat(n / 10);
        assert(ds == hd + seq![hex_digit((n % 10) as int)]);
        assert(ds.drop_last() =~= hd);
        assert(ds.last() == hex_digit((n % 10) as int));
        assert(hex_digit((n % 10) as int) as u32 == 48 + n % 10);
        assert(digits_val(ds) == digits_val(hd) * 10 + n % 10);
        assert(forall|i: int| 0 <= i < hd.len() ==> ds[i] == hd[i]);
        assert(hex_digit((n % 10) as int) as u32 == 48 + n % 10);
        assert(crate::matcher::is_digit_char(ds[ds.len() - 1]));
        assert(forall|i: int| 0 <= i < ds.len() ==> crate::matcher::is_digit_char(ds[i]));
    }
}

/// An integer written by `dec_int` parses back, stopping at the first
/// character after its digits.
pub proof fn lemma_sp_int_roundtrip(n: int, rest: Seq<char>)
    requires
        rest.len() >= 1,
        !crate::matcher::is_digit_char(rest[0]),
    ensures
        sp_int(dec_int(n) + rest) == Some((n, rest)),
{
    if n < 0 {
        let ds = dec_nat((-n) as nat);
        lemma_dec_nat_digits((-n) as nat);
        let s = dec_int(n) + rest;
        assert(s[0] == '-');
        let t = s.skip(1);
        assert(t =~= ds + rest);
        assert(forall|j: int| 0 <= j < ds.len() ==> t[j] == ds[j]);
        assert(t[ds.len() as int] == rest[0]);
        crate::matcher::lemma_digit_run_is(t, ds.len() as int);
        assert(t.take(ds.len() as int) =~= ds);
        assert(t.skip(ds.len() as int) =~= rest);
    } else {
        let ds = dec_nat(n as nat);
        lemma_dec_nat_digits(n as nat);
        let s = dec_int(n) + rest;
        assert(s =~= ds + rest);
        assert(s[0] == ds[0]);
        assert(crate::matcher::is_digit_char(s[0]));
        assert(s[0] != '-');
        assert(forall|j: int| 0 <= j < ds.len() ==> s[j] == ds[j]);
        assert(s[ds.len() as int] == rest[0]);
        crate::matcher::lemma_digit_run_is(s, ds.len() as int);
        assert(s.take(ds.len() as int) =~= ds);
        assert(s.skip(ds.len() as int) =~= rest);
    }
}

/// A text written by `escape_string` parses back, stopping at the closing
/// quote that follows it.
pub proof fn lemma_sp_string_roundtrip(x: Seq<char>, rest: Seq<char>)
    requires
        rest.len() >= 1,
        rest[0] == '"',
    ensures
        sp_string_body(escape_string(x) + rest) == Some((x, rest)),
    decreases x.len(),
{
    if x.len() == 0 {
        assert(escape_string(x) + rest =~= rest);
    } else {
        let c = x[0];
        let tail = escape_string(x.skip(1)) + rest;
        lemma_sp_string_roundtrip(x.skip(1), rest);
        let s = escape_string(x) + rest;
        assert(s =~= escape_char(c) + tail);
        if c == '"' {
            assert(s[0] == '\\' && s[1] == '"');
            assert(s.skip(2) =~= tail);
            assert(seq!['"'] + x.skip(1) =~= x);
        } else if c == '\\' {
            assert(s[0] == '\\' && s[1] == '\\');
            assert(s.skip(2) =~= tail);
            assert(seq!['\\'] + x.skip(1) =~= x);
        } else if (c as u32) < 32 {
            let u = c as u32;
            lemma_hex_digit_val((u / 16) as int);
            lemma_hex_digit_val((u % 16) as int);
            assert(s[0] == '\\' && s[1] == 'u' && s[2] == '0' && s[3] == '0');
            assert(s[4] == hex_digit((u / 16) as int) && s[5] == hex_digit((u % 16) as int));
            assert(hex_val(s[4]) * 16 + hex_val(s[5]) == u);
            vstd::utf8::char_u32_cast(c, u);
            assert(((hex_val(s[4]) * 16 + hex_val(s[5])) as u32) as char == c);
            assert(s.skip(6) =~= tail);
            assert(seq![c] + x.skip(1) =~= x);
        } else {
            assert(s[0] == c);
            assert(s.skip(1) =~= tail);
            assert(seq![c] + x.skip(1) =~= x);
        }
    }
}

/// Round trip: the wire text of a record, followed by anything, parses
/// back to exactly that record with the trailing text untouched.
#[verifier::rlimit(100)]
#[verifier::spinoff_prover]
pub proof fn lemma_movie_json_roundtrip(m: MovieView, rest: Seq<char>)
    ensures
        sp_movie(movie_json(m) + rest) == Some((m, rest)),
{
    let r12 = key_end() + rest;
    let r11 = escape_string(m.backdrop_path) + r12;
    let r10 = key_backdrop_path() + r11;
    let r9 = escape_string(m.poster_path) + r10;
    let r8 = key_poster_path() + r9;
    let r7 = escape_string(m.file_path) + r8;
    let r6 = key_file_path() + r7;
    let r5 = dec_int(m.release_year) + r6;
    let r4 = key_release_year() + r5;
    let r3 = escape_string(m.title) + r4;
    let r2 = key_title() + r3;
    let r1 = dec_int(m.id) + r2;
    let s = movie_json(m) + rest;
    assert(s =~= key_id() + r1);
    lemma_sp_lit(key_id(), r1);
    assert(r2[0] == ',');
    lemma_sp_int_roundtrip(m.id, r2);
    lemma_sp_lit(key_title(), r3);
    assert(r4[0] == '"');
    lemma_sp_string_roundtrip(m.title, r4);
    lemma_sp_lit(key_release_year(), r5);
    assert(r6[0] == ',');
    lemma_sp_int_roundtrip(m.release_year, r6);
    lemma_sp_lit(key_file_path(), r7);
    assert(r8[0] == '"');
    lemma_sp_string_roundtrip(m.file_path, r8);
    lemma_sp_lit(key_poster_path(), r9);
    assert(r10[0] == '"');
    lemma_sp_string_roundtrip(m.poster_path, r10);
    lemma_sp_lit(key_backdrop_path(), r11);
    assert(r12[0] == '"');
    lemma_sp_string_roundtrip(m.backdrop_path, r12);
    lemma_sp_lit(key_end(), rest);
}

} // verus!
