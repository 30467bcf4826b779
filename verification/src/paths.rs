//! Path rules for batch processing: which files are selected, and where a
//! file's rendered metadata is written.
//!
//! A path's file part is everything after the last `/`.  Its extension is
//! everything after the last `.` of the file part, except that a file part
//! whose only `.` is its first character has none (a hidden file).  The
//! output path replaces the extension with `swf.<format>`, appending it when
//! there is none.
use vstd::prelude::*;

verus! {

/// Index of the last occurrence of a character, or -1 when it does not occur.
pub open spec fn last_index_of(s: Seq<char>, c: char) -> int
    decreases s.len(),
{
    if s.len() == 0 {
        -1
    } else if s.last() == c {
        s.len() - 1
    } else {
        last_index_of(s.drop_last(), c)
    }
}

pub proof fn lemma_last_index_of(s: Seq<char>, c: char)
    ensures
        -1 <= last_index_of(s, c) < s.len(),
        last_index_of(s, c) == -1 ==> forall|j: int| 0 <= j < s.len() ==> s[j] != c,
        last_index_of(s, c) >= 0 ==> {
            &&& last_index_of(s, c) < s.len()
            &&& s[last_index_of(s, c)] == c
            &&& forall|j: int| last_index_of(s, c) < j < s.len() ==> s[j] != c
        },
    decreases s.len(),
{
    if s.len() > 0 && s.last() != c {
        lemma_last_index_of(s.drop_last(), c);
        assert forall|j: int| last_index_of(s, c) < j < s.len() implies s[j] != c by {
            if j < s.len() - 1 {
                assert(s.drop_last()[j] == s[j]);
            }
        }
        if last_index_of(s, c) == -1 {
            assert forall|j: int| 0 <= j < s.len() implies s[j] != c by {
                if j < s.len() - 1 {
                    assert(s.drop_last()[j] == s[j]);
                }
            }
        }
    }
}

/// A witness pins the last index down: if `s[i] == c` and nothing after `i`
/// is `c`, then `i` is the last index of `c`.
pub proof fn lemma_last_index_of_witness(s: Seq<char>, c: char, i: int)
    requires
        0 <= i < s.len(),
        s[i] == c,
        forall|j: int| i < j < s.len() ==> s[j] != c,
    ensures
        last_index_of(s, c) == i,
    decreases s.len(),
{
    if i == s.len() - 1 {
    } else {
        assert(s.last() != c);
        assert(s.drop_last()[i] == c);
        assert forall|j: int| i < j < s.drop_last().len() implies s.drop_last()[j] != c by {
            assert(s.drop_last()[j] == s[j]);
        }
        lemma_last_index_of_witness(s.drop_last(), c, i);
    }
}

/// Index where a path's file part begins: just after the last `/`.
pub open spec fn file_part_start(p: Seq<char>) -> int {
    last_index_of(p, '/') + 1
}

/// Index of the `.` that begins the extension, or -1 when the path has no
/// extension.
pub open spec fn ext_dot(p: Seq<char>) -> int {
    if last_index_of(p, '.') > file_part_start(p) {
        last_index_of(p, '.')
    } else {
        -1
    }
}

/// Whether the path has an extension.
pub open spec fn has_extension(p: Seq<char>) -> bool {
    ext_dot(p) >= 0
}

/// The path's extension (empty when there is none).
pub open spec fn extension_of(p: Seq<char>) -> Seq<char> {
    if has_extension(p) {
        p.skip(ext_dot(p) + 1)
    } else {
        Seq::empty()
    }
}

/// Whether one character matches another ASCII letter ignoring case.
pub open spec fn eq_ignore_case(c: char, lower: char, upper: char) -> bool {
    c == lower || c == upper
}

/// Whether the path is selected for batch processing: its extension is
/// `swf` in any mix of upper and lower case.
pub open spec fn is_swf_name(p: Seq<char>) -> bool {
    &&& has_extension(p)
    &&& extension_of(p).len() == 3
    &&& eq_ignore_case(extension_of(p)[0], 's', 'S')
    &&& eq_ignore_case(extension_of(p)[1], 'w', 'W')
    &&& eq_ignore_case(extension_of(p)[2], 'f', 'F')
}

/// The sibling output path: the extension is replaced by `swf.<format>`
/// (appended when the path has none).
pub open spec fn output_path_spec(p: Seq<char>, fmt: Seq<char>) -> Seq<char> {
    if has_extension(p) {
        p.take(ext_dot(p)) + ".swf."@ + fmt
    } else {
        p + ".swf."@ + fmt
    }
}

/// Find the last occurrence of a character in a buffer.
fn find_last(v: &Vec<char>, c: char) -> (r: Option<usize>)
    ensures
        match r {
            Some(i) => i == last_index_of(v@, c) && i < v@.len() && v@[i as int] == c,
            None => last_index_of(v@, c) == -1,
        },
{
    let mut i: usize = v.len();
    while i > 0
        invariant
            i <= v@.len(),
            forall|j: int| i <= j < v@.len() ==> v@[j] != c,
        decreases i,
    {
        i = i - 1;
        if v[i] == c {
            proof {
                lemma_last_index_of_witness(v@, c, i as int);
            }
            return Some(i);
        }
    }
    proof {
        lemma_last_index_of(v@, c);
        if last_index_of(v@, c) >= 0 {
            assert(v@[last_index_of(v@, c)] == c);
        }
    }
    None
}

/// Decide whether a path names an SWF file: the extension matches `swf`
/// case-insensitively.
pub fn is_swf_path(p: &str) -> (r: bool)
    ensures
        r == is_swf_name(p@),
{
    let chars = crate::text::str_to_chars(p);
    let n = chars.len();
    let slash: Option<usize> = find_last(&chars, '/');
    let start: usize = match slash {
        Some(i) => i + 1,
        None => 0,
    };
    let dot: Option<usize> = find_last(&chars, '.');
    match dot {
        Some(d) if d > start => {
            if chars.len() - d - 1 != 3 {
                return false;
            }
            let c1 = chars[d + 1];
            let c2 = chars[d + 2];
            let c3 = chars[d + 3];
            proof {
                assert(extension_of(p@) =~= p@.skip(d + 1));
            }
            (c1 == 's' || c1 == 'S') && (c2 == 'w' || c2 == 'W') && (c3 == 'f' || c3 == 'F')
        },
        _ => false,
    }
}

/// Derive the output path for a file and a format selector: the extension
/// is replaced by `swf.<format>`, or that suffix is appended when the path
/// has no extension.
pub fn output_path_for(p: &str, fmt: &str) -> (r: Vec<char>)
    ensures
        r@ == output_path_spec(p@, fmt@),
{
    let chars = crate::text::str_to_chars(p);
    let n = chars.len();
    let slash: Option<usize> = find_last(&chars, '/');
    let start: usize = match slash {
        Some(i) => i + 1,
        None => 0,
    };
    let dot: Option<usize> = find_last(&chars, '.');
    let mut out: Vec<char> = Vec::new();
    match dot {
        Some(d) if d > start => {
            let mut i: usize = 0;
            while i < d
                invariant
                    i <= d,
                    d < chars@.len(),
                    chars@ == p@,
                    out@ == p@.take(i as int),
                decreases d - i,
            {
                out.push(chars[i]);
                i = i + 1;
                proof {
                    assert(out@ =~= p@.take(i as int));
                }
            }
        },
        _ => {
            crate::text::append_chars(&mut out, &chars);
            proof {
                assert(out@ =~= p@);
            }
        },
    }
    crate::text::append_str(&mut out, ".swf.");
    crate::text::append_str(&mut out, fmt);
    out
}

/// Selection is case-insensitive in the extension: for a well-formed stem,
/// a path `stem.<c1><c2><c3>` is selected exactly when the three characters
/// spell `swf` in any case.
pub proof fn lemma_swf_match_case_insensitive(stem: Seq<char>, c1: char, c2: char, c3: char)
    requires
        stem.len() > 0,
        stem.last() != '/',
        c1 != '.' && c1 != '/',
        c2 != '.' && c2 != '/',
        c3 != '.' && c3 != '/',
    ensures
        is_swf_name(stem + seq!['.', c1, c2, c3]) == (eq_ignore_case(c1, 's', 'S')
            && eq_ignore_case(c2, 'w', 'W') && eq_ignore_case(c3, 'f', 'F')),
{
    let p = stem + seq!['.', c1, c2, c3];
    let d = stem.len() as int;
    assert(p[d] == '.');
    assert forall|j: int| d < j < p.len() implies p[j] != '.' by {}
    lemma_last_index_of_witness(p, '.', d);
    lemma_last_index_of(p, '/');
    let sl = last_index_of(p, '/');
    if sl >= 0 {
        assert(p[sl] == '/');
        assert(p[d - 1] == stem.last());
        assert(sl < d - 1) by {
            if sl >= d - 1 {
                assert(p[sl] == '/' && (sl == d - 1 || sl > d));
            }
        }
    }
    assert(ext_dot(p) == d);
    assert(extension_of(p) =~= seq![c1, c2, c3]);
}

} // verus!
