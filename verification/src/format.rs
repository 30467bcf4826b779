//! Rendering a metadata record as JSON, YAML, or a plain text layout.
//!
//! Each renderer is specified exactly, character for character, by a spec
//! function; an unrecognized selector falls back to the text layout by
//! design rather than failing.
use vstd::prelude::*;
use crate::metadata::{Metadata, MetadataView};
use crate::text::{dec_rep, u32_to_dec, append_str, append_chars};

verus! {

/// The ASCII character for a single hexadecimal digit.
pub open spec fn hex_char(d: nat) -> char {
    if d < 10 {
        crate::text::digit_char(d)
    } else if d == 10 {
        'a'
    } else if d == 11 {
        'b'
    } else if d == 12 {
        'c'
    } else if d == 13 {
        'd'
    } else if d == 14 {
        'e'
    } else {
        'f'
    }
}

/// How one character is written inside a JSON string literal: quote and
/// backslash get a backslash escape, control characters get their short
/// escape or a `\u00..` form, and everything else stands as itself.
pub open spec fn json_escape_char(c: char) -> Seq<char> {
    if c == '"' {
        seq!['\\', '"']
    } else if c == '\\' {
        seq!['\\', '\\']
    } else if c == '\u{8}' {
        seq!['\\', 'b']
    } else if c == '\t' {
        seq!['\\', 't']
    } else if c == '\n' {
        seq!['\\', 'n']
    } else if c == '\u{c}' {
        seq!['\\', 'f']
    } else if c == '\r' {
        seq!['\\', 'r']
    } else if (c as u32) < 32 {
        seq!['\\', 'u', '0', '0', hex_char(((c as u32) / 16) as nat), hex_char(
            ((c as u32) % 16) as nat,
        )]
    } else {
        seq![c]
    }
}

/// A whole character sequence written inside a JSON string literal.
pub open spec fn json_escape(s: Seq<char>) -> Seq<char>
    decreases s.len(),
{
    if s.len() == 0 {
        Seq::empty()
    } else {
        json_escape(s.drop_last()) + json_escape_char(s.last())
    }
}

/// The compact JSON rendering: an object with the fields in the order
/// file_name, stage_size (a two-element array), no_of_frames, frame_rate.
pub open spec fn json_of(m: MetadataView) -> Seq<char> {
    "{\"file_name\":\""@ + json_escape(m.file_name) + "\",\"stage_size\":["@ + dec_rep(
        m.stage_width as nat,
    ) + ","@ + dec_rep(m.stage_height as nat) + "],\"no_of_frames\":"@ + dec_rep(
        m.no_of_frames as nat,
    ) + ",\"frame_rate\":"@ + dec_rep(m.frame_rate as nat) + "}"@
}

/// The block-style YAML rendering with the same field set; the stage size is
/// a two-element sequence.
pub open spec fn yaml_of(m: MetadataView) -> Seq<char> {
    "file_name: "@ + m.file_name + "\nstage_size:\n- "@ + dec_rep(m.stage_width as nat) + "\n- "@
        + dec_rep(m.stage_height as nat) + "\nno_of_frames: "@ + dec_rep(m.no_of_frames as nat)
        + "\nframe_rate: "@ + dec_rep(m.frame_rate as nat) + "\n"@
}

/// The fixed four-line human-readable layout.
pub open spec fn text_of(m: MetadataView) -> Seq<char> {
    "File: "@ + m.file_name + "\nStage Size: ("@ + dec_rep(m.stage_width as nat) + ", "@ + dec_rep(
        m.stage_height as nat,
    ) + ")\nNumber of Frames: "@ + dec_rep(m.no_of_frames as nat) + "\nFrame Rate: "@ + dec_rep(
        m.frame_rate as nat,
    )
}

/// What the formatter returns for every record and selector: JSON for
/// "json", YAML for "yaml", and the text layout for anything else.
pub open spec fn format_spec(m: MetadataView, fmt: Seq<char>) -> Seq<char> {
    if fmt == "json"@ {
        json_of(m)
    } else if fmt == "yaml"@ {
        yaml_of(m)
    } else {
        text_of(m)
    }
}

fn hex_to_char(d: u8) -> (c: char)
    requires
        d < 16,
    ensures
        c == hex_char(d as nat),
{
    match d {
        0 => '0',
        1 => '1',
        2 => '2',
        3 => '3',
        4 => '4',
        5 => '5',
        6 => '6',
        7 => '7',
        8 => '8',
        9 => '9',
        10 => 'a',
        11 => 'b',
        12 => 'c',
        13 => 'd',
        14 => 'e',
        _ => 'f',
    }
}

fn push_escaped_char(out: &mut Vec<char>, c: char)
    ensures
        final(out)@ == old(out)@ + json_escape_char(c),
{
    if c == '"' {
        out.push('\\');
        out.push('"');
    } else if c == '\\' {
        out.push('\\');
        out.push('\\');
    } else if c == '\u{8}' {
        out.push('\\');
        out.push('b');
    } else if c == '\t' {
        out.push('\\');
        out.push('t');
    } else if c == '\n' {
        out.push('\\');
        out.push('n');
    } else if c == '\u{c}' {
        out.push('\\');
        out.push('f');
    } else if c == '\r' {
        out.push('\\');
        out.push('r');
    } else if (c as u32) < 32 {
        let code: u8 = (c as u32) as u8;
        out.push('\\');
        out.push('u');
        out.push('0');
        out.push('0');
        out.push(hex_to_char(code / 16));
        out.push(hex_to_char(code % 16));
    } else {
        out.push(c);
    }
    proof {
        assert(final(out)@ =~= old(out)@ + json_escape_char(c));
    }
}

/// Escape a string for inclusion in a JSON string literal.
pub fn escape_json(s: &str) -> (r: Vec<char>)
    ensures
        r@ == json_escape(s@),
{
    let n = s.unicode_len();
    let mut out: Vec<char> = Vec::new();
    let mut i: usize = 0;
    while i < n
        invariant
            i <= n,
            n == s@.len(),
            out@ == json_escape(s@.take(i as int)),
        decreases n - i,
    {
        let c = s.get_char(i);
        push_escaped_char(&mut out, c);
        i = i + 1;
        proof {
            assert(s@.take(i as int).drop_last() =~= s@.take(i as int - 1));
            assert(s@.take(i as int).last() == s@[i as int - 1]);
        }
    }
    proof {
        assert(s@.take(n as int) =~= s@);
    }
    out
}

/// Render a record as compact JSON.
pub fn format_json(m: &Metadata) -> (r: Vec<char>)
    ensures
        r@ == json_of(m@),
{
    let mut out: Vec<char> = Vec::new();
    append_str(&mut out, "{\"file_name\":\"");
    let esc = escape_json(m.file_name.as_str());
    append_chars(&mut out, &esc);
    append_str(&mut out, "\",\"stage_size\":[");
    let w = u32_to_dec(m.stage_size.0);
    append_chars(&mut out, &w);
    append_str(&mut out, ",");
    let h = u32_to_dec(m.stage_size.1);
    append_chars(&mut out, &h);
    append_str(&mut out, "],\"no_of_frames\":");
    let f = u32_to_dec(m.no_of_frames);
    append_chars(&mut out, &f);
    append_str(&mut out, ",\"frame_rate\":");
    let fr = u32_to_dec(m.frame_rate);
    append_chars(&mut out, &fr);
    append_str(&mut out, "}");
    proof {
        assert(out@ =~= json_of(m@));
    }
    out
}

/// Render a record as block-style YAML.
pub fn format_yaml(m: &Metadata) -> (r: Vec<char>)
    ensures
        r@ == yaml_of(m@),
{
    let mut out: Vec<char> = Vec::new();
    append_str(&mut out, "file_name: ");
    append_str(&mut out, m.file_name.as_str());
    append_str(&mut out, "\nstage_size:\n- ");
    let w = u32_to_dec(m.stage_size.0);
    append_chars(&mut out, &w);
    append_str(&mut out, "\n- ");
    let h = u32_to_dec(m.stage_size.1);
    append_chars(&mut out, &h);
    append_str(&mut out, "\nno_of_frames: ");
    let f = u32_to_dec(m.no_of_frames);
    append_chars(&mut out, &f);
    append_str(&mut out, "\nframe_rate: ");
    let fr = u32_to_dec(m.frame_rate);
    append_chars(&mut out, &fr);
    append_str(&mut out, "\n");
    proof {
        assert(out@ =~= yaml_of(m@));
    }
    out
}

/// Render a record in the fixed text layout.
pub fn format_text(m: &Metadata) -> (r: Vec<char>)
    ensures
        r@ == text_of(m@),
{
    let mut out: Vec<char> = Vec::new();
    append_str(&mut out, "File: ");
    append_str(&mut out, m.file_name.as_str());
    append_str(&mut out, "\nStage Size: (");
    let w = u32_to_dec(m.stage_size.0);
    append_chars(&mut out, &w);
    append_str(&mut out, ", ");
    let h = u32_to_dec(m.stage_size.1);
    append_chars(&mut out, &h);
    append_str(&mut out, ")\nNumber of Frames: ");
    let f = u32_to_dec(m.no_of_frames);
    append_chars(&mut out, &f);
    append_str(&mut out, "\nFrame Rate: ");
    let fr = u32_to_dec(m.frame_rate);
    append_chars(&mut out, &fr);
    proof {
        assert(out@ =~= text_of(m@));
    }
    out
}

/// Render a record in the encoding picked by the selector: "json", "yaml",
/// or the text layout for anything else.
pub fn format_metadata(m: &Metadata, fmt: &str) -> (r: Vec<char>)
    ensures
        r@ == format_spec(m@, fmt@),
{
    if crate::text::str_eq(fmt, "json") {
        format_json(m)
    } else if crate::text::str_eq(fmt, "yaml") {
        format_yaml(m)
    } else {
        format_text(m)
    }
}

/// The formatter is deterministic and pure: two renderings of the same
/// record with the same selector are the same string.
pub proof fn lemma_format_deterministic(m: MetadataView, fmt: Seq<char>, r1: Seq<char>, r2: Seq<
    char,
>)
    requires
        r1 == format_spec(m, fmt),
        r2 == format_spec(m, fmt),
    ensures
        r1 == r2,
{
}

/// An unrecognized selector falls back to the text layout, never an error.
pub proof fn lemma_unknown_format_is_text(m: MetadataView, fmt: Seq<char>)
    requires
        fmt != "json"@,
        fmt != "yaml"@,
    ensures
        format_spec(m, fmt) == text_of(m),
{
}

} // verus!
