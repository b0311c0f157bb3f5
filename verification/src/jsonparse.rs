//! An executable parser for the movie wire format.
//!
//! Each function mirrors one of the wire format's parsing specifications
//! exactly, so `parse_movie` inverts `encode_movie` (see
//! `lemma_movie_json_roundtrip`); the only inputs it turns away beyond
//! those are numbers too large for the record's fields.
use crate::jsonwire::digits_val;
use crate::jsonwire::hex_val;
use crate::jsonwire::is_hex_char;
use crate::jsonwire::key_backdrop_path;
use crate::jsonwire::key_end;
use crate::jsonwire::key_file_path;
use crate::jsonwire::key_id;
use crate::jsonwire::key_poster_path;
use crate::jsonwire::key_release_year;
use crate::jsonwire::key_title;
use crate::jsonwire::sp_int;
use crate::jsonwire::sp_lit;
use crate::jsonwire::sp_movie;
use crate::jsonwire::sp_string_body;
use crate::matcher::is_digit_char;
use crate::matcher::lemma_digit_run_is;
use crate::movie::MovieRecord;
use crate::text::chars_to_string;
use crate::text::str_chars;
use vstd::prelude::*;

verus! {

/// Consumes the exact literal at position `i`.
#[verifier::loop_isolation(false)]
fn parse_lit(chars: &Vec<char>, i: usize, lit: &str) -> (r: Option<usize>)
    requires
        i <= chars@.len(),
    ensures
        ({
            let s = chars@.skip(i as int);
            match r {
                Some(j) => i <= j <= chars@.len() && sp_lit(s, lit@) == Some(
                    chars@.skip(j as int),
                ),
                None => sp_lit(s, lit@) is None,
            }
        }),
{
    let ghost s = chars@.skip(i as int);
    let lv = str_chars(lit);
    let m = lv.len();
    let n = chars.len();
    if n - i < m {
        return None;
    }
    let mut k: usize = 0;
    while k < m
        invariant
            0 <= k <= m == lv.len(),
            lv@ == lit@,
            i + m <= n == chars.len(),
            forall|j: int| 0 <= j < k ==> s[j] == lit@[j],
        decreases m - k,
    {
        if chars[i + k] != lv[k] {
            proof {
                assert(s[k as int] == chars@[i + k]);
                if s.take(m as int) == lit@ {
                    assert(s.take(m as int)[k as int] == lit@[k as int]);
                    assert(false);
                }
            }
            return None;
        }
        proof {
            assert(s[k as int] == chars@[i + k]);
        }
        k += 1;
    }
    proof {
        assert(s.take(m as int) =~= lit@);
        assert(s.skip(m as int) =~= chars@.skip(i + m));
    }
    Some(i + m)
}

/// The value of one hexadecimal digit.
fn hex_val_of(c: char) -> (v: u32)
    requires
        is_hex_char(c),
    ensures
        v == hex_val(c),
        v < 16,
{
    let u = c as u32;
    if u <= 57 {
        u - 48
    } else {
        u - 87
    }
}

/// Decodes a string body at position `i` up to its closing quote, exactly
/// as the wire format's string specification reads it.
fn parse_string_body(chars: &Vec<char>, i: usize) -> (r: Option<(Vec<char>, usize)>)
    requires
        i <= chars@.len(),
    ensures
        ({
            let s = chars@.skip(i as int);
            match r {
                Some(p) => i <= p.1 <= chars@.len() && sp_string_body(s) == Some(
                    (p.0@, chars@.skip(p.1 as int)),
                ),
                None => sp_string_body(s) is None,
            }
        }),
    decreases chars@.len() - i,
{
    let ghost s = chars@.skip(i as int);
    let n = chars.len();
    if i >= n {
        return None;
    }
    let c = chars[i];
    proof {
        assert(s[0] == chars@[i as int]);
    }
    if c == '"' {
        return Some((Vec::new(), i));
    }
    if c == '\\' {
        if i + 1 >= n {
            return None;
        }
        let e = chars[i + 1];
        proof {
            assert(s[1] == chars@[i + 1]);
        }
        if e == '"' || e == '\\' {
            proof {
                assert(s.skip(2) =~= chars@.skip(i + 2));
            }
            match parse_string_body(chars, i + 2) {
                Some((mut v, j)) => {
                    let decoded = if e == '"' {
                        '"'
                    } else {
                        '\\'
                    };
                    v.insert(0, decoded);
                    proof {
                        assert(v@ =~= seq![decoded] + v@.skip(1));
                    }
                    return Some((v, j));
                },
                None => {
                    return None;
                },
            }
        }
        if e == 'u' {
            if n - i < 6 {
                return None;
            }
            let h4 = chars[i + 4];
            let h5 = chars[i + 5];
            let u4 = h4 as u32;
            let u5 = h5 as u32;
            let hex4 = (48 <= u4 && u4 <= 57) || (97 <= u4 && u4 <= 102);
            let hex5 = (48 <= u5 && u5 <= 57) || (97 <= u5 && u5 <= 102);
            proof {
                assert(s[2] == chars@[i + 2]);
                assert(s[3] == chars@[i + 3]);
                assert(s[4] == chars@[i + 4]);
                assert(s[5] == chars@[i + 5]);
            }
            if chars[i + 2] != '0' || chars[i + 3] != '0' || !hex4 || !hex5 {
                return None;
            }
            let value = hex_val_of(h4) * 16 + hex_val_of(h5);
            let decoded = (value as u8) as char;
            proof {
                assert(decoded as u32 == value);
                vstd::utf8::char_u32_cast(decoded, value);
                assert((value as char) == decoded);
                assert(s.skip(6) =~= chars@.skip(i + 6));
            }
            match parse_string_body(chars, i + 6) {
                Some((mut v, j)) => {
                    v.insert(0, decoded);
                    proof {
                        assert(v@ =~= seq![decoded] + v@.skip(1));
                    }
                    return Some((v, j));
                },
                None => {
                    return None;
                },
            }
        }
        return None;
    }
    if (c as u32) < 32 {
        return None;
    }
    proof {
        assert(s.skip(1) =~= chars@.skip(i + 1));
    }
    match parse_string_body(chars, i + 1) {
        Some((mut v, j)) => {
            v.insert(0, c);
            proof {
                assert(v@ =~= seq![c] + v@.skip(1));
            }
            Some((v, j))
        },
        None => None,
    }
}

/// The value of a digit string is never negative.
proof fn lemma_digits_nonneg(s: Seq<char>)
    requires
        forall|i: int| 0 <= i < s.len() ==> is_digit_char(s[i]),
    ensures
        digits_val(s) >= 0,
    decreases s.len(),
{
    if s.len() > 0 {
        assert(forall|i: int| 0 <= i < s.drop_last().len() ==> s.drop_last()[i] == s[i]);
        lemma_digits_nonneg(s.drop_last());
    }
}

/// More digits never shrink the value.
proof fn lemma_digits_mono(s: Seq<char>, i: int)
    requires
        0 <= i <= s.len(),
        forall|j: int| 0 <= j < s.len() ==> is_digit_char(s[j]),
    ensures
        digits_val(s) >= digits_val(s.take(i)),
    decreases s.len() - i,
{
    if i == s.len() {
        assert(s.take(i) =~= s);
    } else {
        assert(forall|j: int| 0 <= j < s.take(i).len() ==> s.take(i)[j] == s[j]);
        lemma_digits_nonneg(s.take(i));
        assert(s.take(i + 1).drop_last() =~= s.take(i));
        assert(s.take(i + 1).last() == s[i]);
        lemma_digits_mono(s, i + 1);
    }
}

/// Reads an optionally signed decimal at position `i`; a number that does
/// not fit a 32-bit field is turned away.
#[verifier::loop_isolation(false)]
fn parse_int(chars: &Vec<char>, i: usize) -> (r: Option<(i32, usize)>)
    requires
        i <= chars@.len(),
    ensures
        ({
            let s = chars@.skip(i as int);
            match r {
                Some(p) => i <= p.1 <= chars@.len() && sp_int(s) == Some(
                    (p.0 as int, chars@.skip(p.1 as int)),
                ),
                None => match sp_int(s) {
                    Some(q) => q.0 < -2147483648 || q.0 > 2147483647,
                    None => true,
                },
            }
        }),
{
    let ghost s = chars@.skip(i as int);
    let n = chars.len();
    let neg = i < n && chars[i] == '-';
    let start = if neg {
        i + 1
    } else {
        i
    };
    let ghost t = chars@.skip(start as int);
    proof {
        if i < n {
            assert(s[0] == chars@[i as int]);
        }
        assert(forall|j: int| 0 <= j < t.len() ==> t[j] == chars@[start + j]);
        if neg {
            assert(t =~= s.skip(1));
        }
    }
    let mut k: usize = start;
    let mut acc: u64 = 0;
    let mut sat = false;
    while k < n
        invariant
            start <= k <= n == chars.len(),
            t == chars@.skip(start as int),
            t.len() == n - start,
            forall|j: int| 0 <= j < k - start ==> is_digit_char(t[j]),
            !sat ==> acc as int == digits_val(t.take(k - start)) && acc <= 2147483648,
            sat ==> digits_val(t.take(k - start)) > 2147483648,
        decreases n - k,
    {
        let c = chars[k];
        let u = c as u32;
        if u < 48 || u > 57 {
            break ;
        }
        proof {
            assert(t[k - start] == chars@[k as int]);
            assert(t.take(k - start + 1).drop_last() =~= t.take(k - start));
            assert(t.take(k - start + 1).last() == t[k - start]);
            lemma_digits_nonneg(t.take(k - start));
        }
        if sat {
            proof {
                assert(digits_val(t.take(k - start + 1)) == digits_val(t.take(k - start)) * 10 + (
                t[k - start] as u32 - 48));
            }
        } else {
            let d: u64 = (u - 48) as u64;
            let next: u64 = acc * 10 + d;
            if next > 2147483648 {
                sat = true;
            } else {
                acc = next;
            }
            proof {
                assert(digits_val(t.take(k - start + 1)) == digits_val(t.take(k - start)) * 10 + (
                t[k - start] as u32 - 48));
            }
        }
        k += 1;
    }
    let d = k - start;
    proof {
        assert(k == n || !is_digit_char(t[k - start]));
        lemma_digit_run_is(t, d as int);
    }
    if d == 0 {
        return None;
    }
    let ghost run = t.take(d as int);
    let ghost rest = t.skip(d as int);
    proof {
        assert(rest =~= chars@.skip(k as int));
    }
    if sat {
        proof {
            if !neg {
                assert(sp_int(s) == Some((digits_val(run), rest)));
            }
        }
        return None;
    }
    if neg {
        let v: i32 = (-(acc as i64)) as i32;
        proof {
            assert(v as int == -(acc as int));
            assert(sp_int(s) == Some((-digits_val(run), rest)));
        }
        Some((v, k))
    } else {
        if acc > 2147483647 {
            return None;
        }
        let v: i32 = acc as i32;
        proof {
            assert(sp_int(s) == Some((digits_val(run), rest)));
        }
        Some((v, k))
    }
}

/// Whether a number fits the record's 32-bit fields.
pub open spec fn fits_i32(n: int) -> bool {
    -2147483648 <= n <= 2147483647
}

/// Parses the wire text of one record, exactly as the wire format's
/// specification reads it; beyond that, only a number too large for the
/// record's fields is turned away.
#[verifier::rlimit(100)]
#[verifier::spinoff_prover]
pub fn parse_movie(text: &str) -> (r: Option<MovieRecord>)
    ensures
        match r {
            Some(rec) => sp_movie(text@) == Some((rec@, Seq::<char>::empty())),
            None => match sp_movie(text@) {
                Some(p) => p.1.len() != 0 || !fits_i32(p.0.id) || !fits_i32(p.0.release_year),
                None => true,
            },
        },
{
    proof {
        reveal_strlit("{\"id\":");
        reveal_strlit(",\"title\":\"");
        reveal_strlit("\",\"release_year\":");
        reveal_strlit(",\"file_path\":\"");
        reveal_strlit("\",\"poster_path\":\"");
        reveal_strlit("\",\"backdrop_path\":\"");
        reveal_strlit("\"}");
        assert("{\"id\":"@ =~= key_id());
        assert(",\"title\":\""@ =~= key_title());
        assert("\",\"release_year\":"@ =~= key_release_year());
        assert(",\"file_path\":\""@ =~= key_file_path());
        assert("\",\"poster_path\":\""@ =~= key_poster_path());
        assert("\",\"backdrop_path\":\""@ =~= key_backdrop_path());
        assert("\"}"@ =~= key_end());
    }
    let chars = str_chars(text);
    proof {
        assert(chars@.skip(0) =~= text@);
    }
    let n = chars.len();
    let s1 = match parse_lit(&chars, 0, "{\"id\":") {
        Some(j) => j,
        None => {
            return None;
        },
    };
    let (id, s2) = match parse_int(&chars, s1) {
        Some(p) => p,
        None => {
            return None;
        },
    };
    let s3 = match parse_lit(&chars, s2, ",\"title\":\"") {
        Some(j) => j,
        None => {
            return None;
        },
    };
    let (title, s4) = match parse_string_body(&chars, s3) {
        Some(p) => p,
        None => {
            return None;
        },
    };
    let s5 = match parse_lit(&chars, s4, "\",\"release_year\":") {
        Some(j) => j,
        None => {
            return None;
        },
    };
    let (release_year, s6) = match parse_int(&chars, s5) {
        Some(p) => p,
        None => {
            return None;
        },
    };
    let s7 = match parse_lit(&chars, s6, ",\"file_path\":\"") {
        Some(j) => j,
        None => {
            return None;
        },
    };
    let (file_path, s8) = match parse_string_body(&chars, s7) {
        Some(p) => p,
        None => {
            return None;
        },
    };
    let s9 = match parse_lit(&chars, s8, "\",\"poster_path\":\"") {
        Some(j) => j,
        None => {
            return None;
        },
    };
    let (poster_path, s10) = match parse_string_body(&chars, s9) {
        Some(p) => p,
        None => {
            return None;
        },
    };
    let s11 = match parse_lit(&chars, s10, "\",\"backdrop_path\":\"") {
        Some(j) => j,
        None => {
            return None;
        },
    };
    let (backdrop_path, s12) = match parse_string_body(&chars, s11) {
        Some(p) => p,
        None => {
            return None;
        },
    };
    let s13 = match parse_lit(&chars, s12, "\"}") {
        Some(j) => j,
        None => {
            return None;
        },
    };
    if s13 != n {
        return None;
    }
    let rec = MovieRecord {
        id,
        title: chars_to_string(&title),
        release_year,
        file_path: chars_to_string(&file_path),
        poster_path: chars_to_string(&poster_path),
        backdrop_path: chars_to_string(&backdrop_path),
    };
    proof {
        assert(chars@.skip(s13 as int) =~= Seq::<char>::empty());
    }
    Some(rec)
}

} // verus!
