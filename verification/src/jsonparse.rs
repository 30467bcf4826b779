//! Parsing the JSON rendering of a metadata record back into the record.
//!
//! The grammar accepted is exactly the one the JSON formatter emits: the
//! four fields in order, the stage size as a two-element array, string
//! escapes as the formatter writes them.  The round-trip law at the bottom
//! states that parsing a rendering recovers the record.
use vstd::prelude::*;
use crate::format::{json_of, json_escape, json_escape_char, hex_char};
use crate::metadata::MetadataView;
use crate::text::dec_rep;

verus! {

/// Whether a character is an ASCII decimal digit.
pub open spec fn is_digit(c: char) -> bool {
    48 <= (c as u32) && (c as u32) <= 57
}

/// The value of an ASCII decimal digit character.
pub open spec fn digit_val(c: char) -> nat {
    ((c as u32) - 48) as nat
}

/// The number a digit string denotes.
pub open spec fn dec_val(s: Seq<char>) -> nat
    decreases s.len(),
{
    if s.len() == 0 {
        0
    } else {
        dec_val(s.drop_last()) * 10 + digit_val(s.last())
    }
}

/// Whether every character is a decimal digit.
pub open spec fn all_digits(s: Seq<char>) -> bool {
    forall|i: int| 0 <= i < s.len() ==> is_digit(s[i])
}

/// Rendering a number and reading the digits back is the identity.
pub proof fn lemma_dec_rep_val(n: nat)
    ensures
        dec_rep(n).len() >= 1,
        all_digits(dec_rep(n)),
        dec_val(dec_rep(n)) == n,
    decreases n,
{
    if n < 10 {
        assert(dec_rep(n) == seq![crate::text::digit_char(n)]);
        assert(dec_rep(n).drop_last() =~= Seq::<char>::empty());
        assert(dec_rep(n).last() == crate::text::digit_char(n));
        assert(dec_val(dec_rep(n).drop_last()) == 0);
        assert(digit_val(crate::text::digit_char(n)) == n);
    } else {
        lemma_dec_rep_val(n / 10);
        let s = dec_rep(n / 10);
        let d = crate::text::digit_char(n % 10);
        assert(dec_rep(n) == s.push(d));
        assert(s.push(d).drop_last() =~= s);
        assert(s.push(d).last() == d);
        assert forall|i: int| 0 <= i < dec_rep(n).len() implies is_digit(dec_rep(n)[i]) by {
            if i < s.len() {
                assert(s.push(d)[i] == s[i]);
            }
        }
    }
}

/// Remove an expected literal from the front of the input.
pub open spec fn strip_prefix(s: Seq<char>, p: Seq<char>) -> Option<Seq<char>> {
    if p.len() <= s.len() && s.take(p.len() as int) == p {
        Some(s.skip(p.len() as int))
    } else {
        None
    }
}

pub proof fn lemma_strip_prefix(p: Seq<char>, rest: Seq<char>)
    ensures
        strip_prefix(p + rest, p) == Some(rest),
{
    assert((p + rest).take(p.len() as int) =~= p);
    assert((p + rest).skip(p.len() as int) =~= rest);
}

/// The length of the longest digit prefix of the input.
pub open spec fn digit_prefix_len(s: Seq<char>) -> nat
    decreases s.len(),
{
    if s.len() > 0 && is_digit(s[0]) {
        1 + digit_prefix_len(s.skip(1))
    } else {
        0
    }
}

/// A scan that saw digits up to `j` and a non-digit (or the end) at `j`
/// pins the digit prefix length down.
pub proof fn lemma_digit_prefix_len_from(s: Seq<char>, j: int)
    requires
        0 <= j <= s.len(),
        forall|i: int| 0 <= i < j ==> is_digit(s[i]),
        j == s.len() || !is_digit(s[j]),
    ensures
        digit_prefix_len(s) == j,
    decreases j,
{
    if j == 0 {
    } else {
        assert(is_digit(s[0]));
        assert forall|i: int| 0 <= i < j - 1 implies is_digit(s.skip(1)[i]) by {
            assert(s.skip(1)[i] == s[i + 1]);
        }
        if j - 1 < s.skip(1).len() {
            assert(s.skip(1)[j - 1] == s[j]);
        }
        lemma_digit_prefix_len_from(s.skip(1), j - 1);
    }
}

/// Read a number from the front of the input: its longest digit prefix.
pub open spec fn parse_number(s: Seq<char>) -> Option<(nat, Seq<char>)> {
    let k = digit_prefix_len(s);
    if k == 0 {
        None
    } else {
        Some((dec_val(s.take(k as int)), s.skip(k as int)))
    }
}

pub proof fn lemma_parse_number(n: nat, rest: Seq<char>)
    requires
        rest.len() > 0 ==> !is_digit(rest[0]),
    ensures
        parse_number(dec_rep(n) + rest) == Some((n, rest)),
{
    lemma_dec_rep_val(n);
    let d = dec_rep(n);
    let s = d + rest;
    assert forall|i: int| 0 <= i < d.len() implies is_digit(s[i]) by {
        assert(s[i] == d[i]);
    }
    if d.len() < s.len() {
        assert(s[d.len() as int] == rest[0]);
    }
    lemma_digit_prefix_len_from(s, d.len() as int);
    assert(s.take(d.len() as int) =~= d);
    assert(s.skip(d.len() as int) =~= rest);
}

/// The character a short escape stands for.
pub open spec fn unescaped_short(e: char) -> char {
    if e == '"' {
        '"'
    } else if e == '\\' {
        '\\'
    } else if e == 'b' {
        '\u{8}'
    } else if e == 't' {
        '\t'
    } else if e == 'n' {
        '\n'
    } else if e == 'f' {
        '\u{c}'
    } else {
        '\r'
    }
}

/// Whether a character is a lower-case hexadecimal digit.
pub open spec fn is_hex_lower(c: char) -> bool {
    is_digit(c) || (97 <= (c as u32) && (c as u32) <= 102)
}

/// The value of a lower-case hexadecimal digit character.
pub open spec fn hex_val(c: char) -> nat {
    if is_digit(c) {
        digit_val(c)
    } else {
        ((c as u32) - 87) as nat
    }
}

pub proof fn lemma_hex_char_val(v: nat)
    requires
        v < 16,
    ensures
        is_hex_lower(hex_char(v)),
        hex_val(hex_char(v)) == v,
{
}

/// The control character with the given code point.
pub open spec fn control_char(x: nat) -> char {
    if x == 0 {
        '\u{0}'
    } else if x == 1 {
        '\u{1}'
    } else if x == 2 {
        '\u{2}'
    } else if x == 3 {
        '\u{3}'
    } else if x == 4 {
        '\u{4}'
    } else if x == 5 {
        '\u{5}'
    } else if x == 6 {
        '\u{6}'
    } else if x == 7 {
        '\u{7}'
    } else if x == 8 {
        '\u{8}'
    } else if x == 9 {
        '\u{9}'
    } else if x == 10 {
        '\u{a}'
    } else if x == 11 {
        '\u{b}'
    } else if x == 12 {
        '\u{c}'
    } else if x == 13 {
        '\u{d}'
    } else if x == 14 {
        '\u{e}'
    } else if x == 15 {
        '\u{f}'
    } else if x == 16 {
        '\u{10}'
    } else if x == 17 {
        '\u{11}'
    } else if x == 18 {
        '\u{12}'
    } else if x == 19 {
        '\u{13}'
    } else if x == 20 {
        '\u{14}'
    } else if x == 21 {
        '\u{15}'
    } else if x == 22 {
        '\u{16}'
    } else if x == 23 {
        '\u{17}'
    } else if x == 24 {
        '\u{18}'
    } else if x == 25 {
        '\u{19}'
    } else if x == 26 {
        '\u{1a}'
    } else if x == 27 {
        '\u{1b}'
    } else if x == 28 {
        '\u{1c}'
    } else if x == 29 {
        '\u{1d}'
    } else if x == 30 {
        '\u{1e}'
    } else {
        '\u{1f}'
    }
}

pub proof fn lemma_control_char_inverse(c: char)
    requires
        (c as u32) < 32,
    ensures
        control_char((c as u32) as nat) == c,
{
    let x = c as u32;
    vstd::utf8::char_u32_cast(c, x);
    if x == 0 {
        vstd::utf8::char_u32_cast('\u{0}', 0);
    } else if x == 1 {
        vstd::utf8::char_u32_cast('\u{1}', 1);
    } else if x == 2 {
        vstd::utf8::char_u32_cast('\u{2}', 2);
    } else if x == 3 {
        vstd::utf8::char_u32_cast('\u{3}', 3);
    } else if x == 4 {
        vstd::utf8::char_u32_cast('\u{4}', 4);
    } else if x == 5 {
        vstd::utf8::char_u32_cast('\u{5}', 5);
    } else if x == 6 {
        vstd::utf8::char_u32_cast('\u{6}', 6);
    } else if x == 7 {
        vstd::utf8::char_u32_cast('\u{7}', 7);
    } else if x == 8 {
        vstd::utf8::char_u32_cast('\u{8}', 8);
    } else if x == 9 {
        vstd::utf8::char_u32_cast('\u{9}', 9);
    } else if x == 10 {
        vstd::utf8::char_u32_cast('\u{a}', 10);
    } else if x == 11 {
        vstd::utf8::char_u32_cast('\u{b}', 11);
    } else if x == 12 {
        vstd::utf8::char_u32_cast('\u{c}', 12);
    } else if x == 13 {
        vstd::utf8::char_u32_cast('\u{d}', 13);
    } else if x == 14 {
        vstd::utf8::char_u32_cast('\u{e}', 14);
    } else if x == 15 {
        vstd::utf8::char_u32_cast('\u{f}', 15);
    } else if x == 16 {
        vstd::utf8::char_u32_cast('\u{10}', 16);
    } else if x == 17 {
        vstd::utf8::char_u32_cast('\u{11}', 17);
    } else if x == 18 {
        vstd::utf8::char_u32_cast('\u{12}', 18);
    } else if x == 19 {
        vstd::utf8::char_u32_cast('\u{13}', 19);
    } else if x == 20 {
        vstd::utf8::char_u32_cast('\u{14}', 20);
    } else if x == 21 {
        vstd::utf8::char_u32_cast('\u{15}', 21);
    } else if x == 22 {
        vstd::utf8::char_u32_cast('\u{16}', 22);
    } else if x == 23 {
        vstd::utf8::char_u32_cast('\u{17}', 23);
    } else if x == 24 {
        vstd::utf8::char_u32_cast('\u{18}', 24);
    } else if x == 25 {
        vstd::utf8::char_u32_cast('\u{19}', 25);
    } else if x == 26 {
        vstd::utf8::char_u32_cast('\u{1a}', 26);
    } else if x == 27 {
        vstd::utf8::char_u32_cast('\u{1b}', 27);
    } else if x == 28 {
        vstd::utf8::char_u32_cast('\u{1c}', 28);
    } else if x == 29 {
        vstd::utf8::char_u32_cast('\u{1d}', 29);
    } else if x == 30 {
        vstd::utf8::char_u32_cast('\u{1e}', 30);
    } else if x == 31 {
        vstd::utf8::char_u32_cast('\u{1f}', 31);
    } else {
    }
}

/// Read a JSON string body from the front of the input, up to and
/// including the closing quote, undoing the formatter's escapes.
pub open spec fn parse_jstring(s: Seq<char>) -> Option<(Seq<char>, Seq<char>)>
    decreases s.len(),
{
    if s.len() == 0 {
        None
    } else if s[0] == '"' {
        Some((Seq::empty(), s.skip(1)))
    } else if s[0] == '\\' {
        if s.len() >= 2 && (s[1] == '"' || s[1] == '\\' || s[1] == 'b' || s[1] == 't' || s[1] == 'n'
            || s[1] == 'f' || s[1] == 'r') {
            match parse_jstring(s.skip(2)) {
                Some(tr) => Some((seq![unescaped_short(s[1])] + tr.0, tr.1)),
                None => None,
            }
        } else if s.len() >= 6 && s[1] == 'u' && s[2] == '0' && s[3] == '0' && is_hex_lower(s[4])
            && is_hex_lower(s[5]) && hex_val(s[4]) * 16 + hex_val(s[5]) < 32 {
            match parse_jstring(s.skip(6)) {
                Some(tr) => Some((seq![control_char(hex_val(s[4]) * 16 + hex_val(s[5]))] + tr.0, tr.1)),
                None => None,
            }
        } else {
            None
        }
    } else if c_is_control(s[0]) {
        None
    } else {
        match parse_jstring(s.skip(1)) {
            Some(tr) => Some((seq![s[0]] + tr.0, tr.1)),
            None => None,
        }
    }
}

/// Whether a character is an unescaped control character.
pub open spec fn c_is_control(c: char) -> bool {
    (c as u32) < 32
}

/// Escaping distributes over concatenation.
pub proof fn lemma_escape_append(a: Seq<char>, b: Seq<char>)
    ensures
        json_escape(a + b) == json_escape(a) + json_escape(b),
    decreases b.len(),
{
    if b.len() == 0 {
        assert(a + b =~= a);
        assert(json_escape(a) + json_escape(b) =~= json_escape(a));
    } else {
        assert((a + b).drop_last() =~= a + b.drop_last());
        assert((a + b).last() == b.last());
        lemma_escape_append(a, b.drop_last());
        assert(json_escape(a + b) =~= json_escape(a) + json_escape(b));
    }
}

/// Reading an escaped string back past its closing quote recovers the
/// original characters and leaves the rest untouched.
#[verifier::rlimit(50)]
pub proof fn lemma_parse_jstring(name: Seq<char>, rest: Seq<char>)
    ensures
        parse_jstring(json_escape(name) + seq!['"'] + rest) == Some((name, rest)),
    decreases name.len(),
{
    if name.len() == 0 {
        let s = json_escape(name) + seq!['"'] + rest;
        assert(s =~= seq!['"'] + rest);
        assert(s[0] == '"');
        assert(s.skip(1) =~= rest);
    } else {
        let c = name[0];
        let tail = name.skip(1);
        assert(name =~= seq![c] + tail);
        lemma_escape_append(seq![c], tail);
        assert(seq![c].drop_last() =~= Seq::<char>::empty());
        assert(seq![c].last() == c);
        assert(json_escape(Seq::<char>::empty()) + json_escape_char(c) =~= json_escape_char(c));
        assert(json_escape(seq![c]) == json_escape_char(c));
        lemma_parse_jstring(tail, rest);
        let s = json_escape(name) + seq!['"'] + rest;
        let s_tail = json_escape(tail) + seq!['"'] + rest;
        assert(s =~= json_escape_char(c) + s_tail);
        let ec = json_escape_char(c);
        if c == '"' || c == '\\' || c == '\u{8}' || c == '\t' || c == '\n' || c == '\u{c}' || c
            == '\r' {
            assert(s[0] == '\\');
            assert(s.skip(2) =~= s_tail);
            assert(seq![unescaped_short(s[1])] + tail =~= name);
        } else if c_is_control(c) {
            let x = (c as u32) as nat;
            assert(ec == seq!['\\', 'u', '0', '0', hex_char(x / 16), hex_char(x % 16)]);
            lemma_hex_char_val(x / 16);
            lemma_hex_char_val(x % 16);
            assert(hex_val(s[4]) * 16 + hex_val(s[5]) == x);
            lemma_control_char_inverse(c);
            assert(s.skip(6) =~= s_tail);
            assert(seq![control_char(x)] + tail =~= name);
        } else {
            assert(ec == seq![c]);
            assert(s[0] == c);
            assert(s.skip(1) =~= s_tail);
            assert(seq![s[0]] + tail =~= name);
        }
    }
}

/// The literal that opens the object and the file_name string.
pub open spec fn lit_open() -> Seq<char> {
    "{\"file_name\":\""@
}

/// The literal between the file name's closing quote and the stage size.
pub open spec fn lit_size() -> Seq<char> {
    ",\"stage_size\":["@
}

/// The separator between the two stage extents.
pub open spec fn lit_comma() -> Seq<char> {
    ","@
}

/// The literal between the stage size and the frame count.
pub open spec fn lit_frames() -> Seq<char> {
    "],\"no_of_frames\":"@
}

/// The literal between the frame count and the frame rate.
pub open spec fn lit_rate() -> Seq<char> {
    ",\"frame_rate\":"@
}

/// The closing brace.
pub open spec fn lit_close() -> Seq<char> {
    "}"@
}

/// Read the four numeric fields and the closing brace that follow the file
/// name, and build the record.
pub open spec fn parse_fields(s2: Seq<char>, name: Seq<char>) -> Option<MetadataView> {
    match strip_prefix(s2, lit_size()) {
        None => None,
        Some(s3) => match parse_number(s3) {
            None => None,
            Some(w_s4) => match strip_prefix(w_s4.1, lit_comma()) {
                None => None,
                Some(s5) => match parse_number(s5) {
                    None => None,
                    Some(h_s6) => match strip_prefix(h_s6.1, lit_frames()) {
                        None => None,
                        Some(s7) => match parse_number(s7) {
                            None => None,
                            Some(f_s8) => match strip_prefix(f_s8.1, lit_rate()) {
                                None => None,
                                Some(s9) => match parse_number(s9) {
                                    None => None,
                                    Some(r_s10) => match strip_prefix(r_s10.1, lit_close()) {
                                        None => None,
                                        Some(s11) => if s11.len() == 0 && w_s4.0 <= 0xFFFFFFFF
                                            && h_s6.0 <= 0xFFFFFFFF && f_s8.0 <= 0xFFFFFFFF
                                            && r_s10.0 <= 0xFFFFFFFF {
                                            Some(
                                                MetadataView {
                                                    file_name: name,
                                                    stage_width: w_s4.0 as u32,
                                                    stage_height: h_s6.0 as u32,
                                                    no_of_frames: f_s8.0 as u32,
                                                    frame_rate: r_s10.0 as u32,
                                                },
                                            )
                                        } else {
                                            None
                                        },
                                    },
                                },
                            },
                        },
                    },
                },
            },
        },
    }
}

/// Read a whole metadata rendering: the exact object the JSON formatter
/// emits, and nothing after it.
pub open spec fn parse_json_spec(s: Seq<char>) -> Option<MetadataView> {
    match strip_prefix(s, lit_open()) {
        None => None,
        Some(s1) => match parse_jstring(s1) {
            None => None,
            Some(name_s2) => parse_fields(name_s2.1, name_s2.0),
        },
    }
}

/// What follows the file name's closing quote in a rendering.
pub open spec fn fields_tail(m: MetadataView) -> Seq<char> {
    lit_size() + dec_rep(m.stage_width as nat) + lit_comma() + dec_rep(m.stage_height as nat)
        + lit_frames() + dec_rep(m.no_of_frames as nat) + lit_rate() + dec_rep(m.frame_rate as nat)
        + lit_close()
}

/// Reading the numeric fields back from a rendering's tail recovers them.
#[verifier::rlimit(100)]
pub proof fn lemma_fields_tail(m: MetadataView)
    ensures
        parse_fields(fields_tail(m), m.file_name) == Some(m),
{
    reveal_strlit(",");
    reveal_strlit("],\"no_of_frames\":");
    reveal_strlit(",\"frame_rate\":");
    reveal_strlit("}");
    let dw = dec_rep(m.stage_width as nat);
    let dh = dec_rep(m.stage_height as nat);
    let df = dec_rep(m.no_of_frames as nat);
    let dr = dec_rep(m.frame_rate as nat);
    let t2 = lit_comma() + dh + lit_frames() + df + lit_rate() + dr + lit_close();
    let t3 = lit_frames() + df + lit_rate() + dr + lit_close();
    let t4 = lit_rate() + dr + lit_close();
    assert(fields_tail(m) =~= lit_size() + (dw + t2));
    lemma_strip_prefix(lit_size(), dw + t2);
    assert(t2[0] == ',');
    lemma_parse_number(m.stage_width as nat, t2);
    assert(t2 =~= lit_comma() + (dh + t3));
    lemma_strip_prefix(lit_comma(), dh + t3);
    assert(t3[0] == ']');
    lemma_parse_number(m.stage_height as nat, t3);
    assert(t3 =~= lit_frames() + (df + t4));
    lemma_strip_prefix(lit_frames(), df + t4);
    assert(t4[0] == ',');
    lemma_parse_number(m.no_of_frames as nat, t4);
    assert(t4 =~= lit_rate() + (dr + lit_close()));
    lemma_strip_prefix(lit_rate(), dr + lit_close());
    assert(lit_close()[0] == '}');
    lemma_parse_number(m.frame_rate as nat, lit_close());
    assert(lit_close() =~= lit_close() + Seq::<char>::empty());
    lemma_strip_prefix(lit_close(), Seq::<char>::empty());
}

/// The JSON rendering of a record parses back to that record, field for
/// field.
#[verifier::rlimit(100)]
pub proof fn lemma_json_round_trip(m: MetadataView)
    ensures
        parse_json_spec(json_of(m)) == Some(m),
{
    reveal_strlit("\",\"stage_size\":[");
    reveal_strlit(",\"stage_size\":[");
    assert("\",\"stage_size\":["@ =~= seq!['"'] + lit_size());
    let body = json_escape(m.file_name) + seq!['"'] + fields_tail(m);
    assert(json_of(m) =~= lit_open() + body);
    lemma_strip_prefix(lit_open(), body);
    lemma_parse_jstring(m.file_name, fields_tail(m));
    lemma_fields_tail(m);
}


fn digit_val_exec(c: char) -> (r: u8)
    requires
        is_digit(c),
    ensures
        r == digit_val(c),
{
    ((c as u32) - 48) as u8
}

fn is_digit_exec(c: char) -> (r: bool)
    ensures
        r == is_digit(c),
{
    let u = c as u32;
    48 <= u && u <= 57
}

fn is_hex_exec(c: char) -> (r: bool)
    ensures
        r == is_hex_lower(c),
{
    let u = c as u32;
    (48 <= u && u <= 57) || (97 <= u && u <= 102)
}

fn hex_val_exec(c: char) -> (r: u8)
    requires
        is_hex_lower(c),
    ensures
        r == hex_val(c),
{
    let u = c as u32;
    if u <= 57 {
        (u - 48) as u8
    } else {
        (u - 87) as u8
    }
}

fn unescape_short_exec(e: char) -> (r: char)
    ensures
        r == unescaped_short(e),
{
    if e == '"' {
        '"'
    } else if e == '\\' {
        '\\'
    } else if e == 'b' {
        '\u{8}'
    } else if e == 't' {
        '\t'
    } else if e == 'n' {
        '\n'
    } else if e == 'f' {
        '\u{c}'
    } else {
        '\r'
    }
}

fn control_char_exec(x: u8) -> (r: char)
    requires
        x < 32,
    ensures
        r == control_char(x as nat),
{
    match x {
        0 => '\u{0}',
        1 => '\u{1}',
        2 => '\u{2}',
        3 => '\u{3}',
        4 => '\u{4}',
        5 => '\u{5}',
        6 => '\u{6}',
        7 => '\u{7}',
        8 => '\u{8}',
        9 => '\u{9}',
        10 => '\u{a}',
        11 => '\u{b}',
        12 => '\u{c}',
        13 => '\u{d}',
        14 => '\u{e}',
        15 => '\u{f}',
        16 => '\u{10}',
        17 => '\u{11}',
        18 => '\u{12}',
        19 => '\u{13}',
        20 => '\u{14}',
        21 => '\u{15}',
        22 => '\u{16}',
        23 => '\u{17}',
        24 => '\u{18}',
        25 => '\u{19}',
        26 => '\u{1a}',
        27 => '\u{1b}',
        28 => '\u{1c}',
        29 => '\u{1d}',
        30 => '\u{1e}',
        _ => '\u{1f}',
    }
}

/// Match a literal at a position in the buffer and step past it.
fn expect_lit(v: &Vec<char>, pos: usize, lit: &str) -> (r: Option<usize>)
    requires
        pos <= v@.len(),
    ensures
        match r {
            Some(p) => pos <= p <= v@.len() && strip_prefix(v@.skip(pos as int), lit@) == Some(
                v@.skip(p as int),
            ),
            None => strip_prefix(v@.skip(pos as int), lit@) is None,
        },
{
    let n = lit.unicode_len();
    let vn = v.len();
    if vn - pos < n {
        return None;
    }
    let mut i: usize = 0;
    while i < n
        invariant
            i <= n,
            n == lit@.len(),
            vn == v@.len(),
            pos + n <= vn,
            forall|j: int| 0 <= j < i ==> v@[pos + j] == lit@[j],
        decreases n - i,
    {
        if v[pos + i] != lit.get_char(i) {
            proof {
                let s = v@.skip(pos as int);
                assert(s.take(n as int)[i as int] != lit@[i as int]);
            }
            return None;
        }
        i = i + 1;
    }
    proof {
        let s = v@.skip(pos as int);
        assert(s.take(n as int) =~= lit@);
        assert(s.skip(n as int) =~= v@.skip(pos + n));
    }
    Some(pos + n)
}

/// Read a run of digits at a position; the returned value is exact when it
/// fits 32 bits and saturates above them otherwise.
fn number_exec(v: &Vec<char>, pos: usize) -> (r: Option<(u64, usize)>)
    requires
        pos <= v@.len(),
    ensures
        match r {
            Some(vp) => {
                &&& pos <= vp.1 <= v@.len()
                &&& parse_number(v@.skip(pos as int)) matches Some(nr) && nr.1 == v@.skip(
                    vp.1 as int,
                ) && (nr.0 <= 0xFFFFFFFF ==> vp.0 == nr.0) && (nr.0 > 0xFFFFFFFF ==> vp.0
                    > 0xFFFFFFFF)
            },
            None => parse_number(v@.skip(pos as int)) is None,
        },
{
    let ghost s = v@.skip(pos as int);
    let n = v.len();
    if pos == n || !is_digit_exec(v[pos]) {
        proof {
            if s.len() > 0 {
                assert(s[0] == v@[pos as int]);
            }
        }
        return None;
    }
    let mut j: usize = 0;
    let mut acc: u64 = 0;
    while pos + j < n && is_digit_exec(v[pos + j])
        invariant
            pos + j <= n,
            n == v@.len(),
            s == v@.skip(pos as int),
            forall|i: int| 0 <= i < j ==> is_digit(s[i]),
            acc <= 0x100000000,
            dec_val(s.take(j as int)) <= 0xFFFFFFFF ==> acc == dec_val(s.take(j as int)),
            dec_val(s.take(j as int)) > 0xFFFFFFFF ==> acc == 0x100000000,
        decreases n - pos - j,
    {
        let d = digit_val_exec(v[pos + j]);
        proof {
            assert(s[j as int] == v@[pos + j]);
            assert(s.take(j as int + 1).drop_last() =~= s.take(j as int));
            assert(s.take(j as int + 1).last() == s[j as int]);
        }
        let cand: u64 = acc * 10 + (d as u64);
        acc = if cand > 0xFFFFFFFF {
            0x100000000
        } else {
            cand
        };
        j = j + 1;
    }
    proof {
        if (j as int) < s.len() {
            assert(s[j as int] == v@[pos + j]);
        }
        lemma_digit_prefix_len_from(s, j as int);
        assert(s.skip(j as int) =~= v@.skip(pos + j));
        assert(dec_val(s.take(j as int)) > 0xFFFFFFFF ==> acc == 0x100000000 > 0xFFFFFFFF);
    }
    Some((acc, pos + j))
}

/// Read an escaped string body at a position, up to and including the
/// closing quote.
fn jstring_exec(v: &Vec<char>, pos: usize) -> (r: Option<(Vec<char>, usize)>)
    requires
        pos <= v@.len(),
    ensures
        match r {
            Some(tp) => pos <= tp.1 <= v@.len() && parse_jstring(v@.skip(pos as int)) == Some(
                (tp.0@, v@.skip(tp.1 as int)),
            ),
            None => parse_jstring(v@.skip(pos as int)) is None,
        },
    decreases v@.len() - pos,
{
    let ghost s = v@.skip(pos as int);
    if pos == v.len() {
        return None;
    }
    let c0 = v[pos];
    proof {
        assert(s[0] == v@[pos as int]);
    }
    if c0 == '"' {
        proof {
            assert(s.skip(1) =~= v@.skip(pos as int + 1));
        }
        return Some((Vec::new(), pos + 1));
    }
    if c0 == '\\' {
        if pos + 1 >= v.len() {
            return None;
        }
        let e = v[pos + 1];
        proof {
            assert(s.len() >= 2);
            assert(s[1] == v@[pos as int + 1]);
        }
        if e == '"' || e == '\\' || e == 'b' || e == 't' || e == 'n' || e == 'f' || e == 'r' {
            proof {
                assert(s.skip(2) =~= v@.skip(pos as int + 2));
            }
            match jstring_exec(v, pos + 2) {
                Some(tp) => {
                    let mut out: Vec<char> = Vec::new();
                    out.push(unescape_short_exec(e));
                    crate::text::append_chars(&mut out, &tp.0);
                    proof {
                        assert(out@ =~= seq![unescaped_short(s[1])] + tp.0@);
                    }
                    Some((out, tp.1))
                },
                None => None,
            }
        } else if e == 'u' && v.len() - pos > 5 {
            let h0 = v[pos + 2];
            let h1 = v[pos + 3];
            let h2 = v[pos + 4];
            let h3 = v[pos + 5];
            proof {
                assert(s.len() >= 6);
                assert(s[2] == v@[pos as int + 2]);
                assert(s[3] == v@[pos as int + 3]);
                assert(s[4] == v@[pos as int + 4]);
                assert(s[5] == v@[pos as int + 5]);
            }
            if h0 == '0' && h1 == '0' && is_hex_exec(h2) && is_hex_exec(h3) {
                let x: u8 = hex_val_exec(h2) * 16 + hex_val_exec(h3);
                if x < 32 {
                    proof {
                        assert(s.skip(6) =~= v@.skip(pos as int + 6));
                    }
                    match jstring_exec(v, pos + 6) {
                        Some(tp) => {
                            let mut out: Vec<char> = Vec::new();
                            out.push(control_char_exec(x));
                            crate::text::append_chars(&mut out, &tp.0);
                            proof {
                                assert(out@ =~= seq![
                                    control_char(hex_val(s[4]) * 16 + hex_val(s[5])),
                                ] + tp.0@);
                            }
                            Some((out, tp.1))
                        },
                        None => None,
                    }
                } else {
                    None
                }
            } else {
                None
            }
        } else {
            None
        }
    } else if (c0 as u32) < 32 {
        None
    } else {
        proof {
            assert(s.skip(1) =~= v@.skip(pos as int + 1));
        }
        match jstring_exec(v, pos + 1) {
            Some(tp) => {
                let mut out: Vec<char> = Vec::new();
                out.push(c0);
                crate::text::append_chars(&mut out, &tp.0);
                proof {
                    assert(out@ =~= seq![s[0]] + tp.0@);
                }
                Some((out, tp.1))
            },
            None => None,
        }
    }
}

/// Parse the JSON rendering of a metadata record.
///
/// The record is returned exactly when the input is, character for
/// character, a rendering the JSON formatter could have produced.
pub fn parse_json(s: &str) -> (r: Option<crate::metadata::Metadata>)
    ensures
        match r {
            Some(m) => parse_json_spec(s@) == Some(m@),
            None => parse_json_spec(s@) is None,
        },
{
    let v = crate::text::str_to_chars(s);
    let p1 = match expect_lit(&v, 0, "{\"file_name\":\"") {
        Some(p) => p,
        None => {
            proof {
                assert(v@.skip(0) =~= s@);
            }
            return None;
        },
    };
    proof {
        assert(v@.skip(0) =~= s@);
    }
    let name_p2 = match jstring_exec(&v, p1) {
        Some(tp) => tp,
        None => {
            return None;
        },
    };
    let p3 = match expect_lit(&v, name_p2.1, ",\"stage_size\":[") {
        Some(p) => p,
        None => {
            return None;
        },
    };
    let w_p4 = match number_exec(&v, p3) {
        Some(vp) => vp,
        None => {
            return None;
        },
    };
    let p5 = match expect_lit(&v, w_p4.1, ",") {
        Some(p) => p,
        None => {
            return None;
        },
    };
    let h_p6 = match number_exec(&v, p5) {
        Some(vp) => vp,
        None => {
            return None;
        },
    };
    let p7 = match expect_lit(&v, h_p6.1, "],\"no_of_frames\":") {
        Some(p) => p,
        None => {
            return None;
        },
    };
    let f_p8 = match number_exec(&v, p7) {
        Some(vp) => vp,
        None => {
            return None;
        },
    };
    let p9 = match expect_lit(&v, f_p8.1, ",\"frame_rate\":") {
        Some(p) => p,
        None => {
            return None;
        },
    };
    let r_p10 = match number_exec(&v, p9) {
        Some(vp) => vp,
        None => {
            return None;
        },
    };
    let p11 = match expect_lit(&v, r_p10.1, "}") {
        Some(p) => p,
        None => {
            return None;
        },
    };
    if p11 != v.len() || w_p4.0 > 0xFFFFFFFF || h_p6.0 > 0xFFFFFFFF || f_p8.0 > 0xFFFFFFFF
        || r_p10.0 > 0xFFFFFFFF {
        proof {
            assert(p11 == v@.len() ==> v@.skip(p11 as int).len() == 0);
        }
        return None;
    }
    proof {
        assert(v@.skip(p11 as int).len() == 0);
    }
    let name = crate::text::chars_to_string(&name_p2.0);
    Some(
        crate::metadata::Metadata::new(
            name,
            (w_p4.0 as u32, h_p6.0 as u32),
            f_p8.0 as u32,
            r_p10.0 as u32,
        ),
    )
}

} // verus!
