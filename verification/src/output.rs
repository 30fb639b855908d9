//! The output resolver: decides, per input file, where the processed
//! record is written, and the path-text helpers that decision rests
//! on. Paths are modelled as plain text with `/` as the separator.

use vstd::prelude::*;

use crate::text::chars_to_string;

verus! {

/// Where one processed file goes.
pub enum OutputDecision {
    /// Input and requested output coincide: the caller must obtain one
    /// explicit confirmation before anything in the batch is written.
    OverwriteInPlace,
    /// Write into this directory, under the input's base name.
    WriteIntoDirectory(String),
    /// The requested output is an existing non-directory distinct from
    /// the input: the caller must abort this file with an error.
    Invalid,
}

/// The index of the last occurrence of `c` in `s`, or -1.
pub open spec fn last_index(s: Seq<char>, c: char) -> int
    decreases s.len(),
{
    if s.len() == 0 {
        -1
    } else if s.last() == c {
        s.len() - 1
    } else {
        last_index(s.drop_last(), c)
    }
}

pub proof fn lemma_last_index(s: Seq<char>, c: char)
    ensures
        -1 <= last_index(s, c) < s.len(),
        last_index(s, c) >= 0 ==> s[last_index(s, c)] == c,
        forall|j: int| last_index(s, c) < j < s.len() ==> s[j] != c,
    decreases s.len(),
{
    if s.len() != 0 && s.last() != c {
        lemma_last_index(s.drop_last(), c);
        assert(forall|j: int| 0 <= j < s.len() - 1 ==> s.drop_last()[j] == s[j]);
    }
}

/// Find the last occurrence of `c`, if any.
pub fn find_last(s: &str, c: char) -> (r: Option<usize>)
    ensures
        match r {
            Some(i) => last_index(s@, c) == i,
            None => last_index(s@, c) == -1,
        },
{
    proof {
        lemma_last_index(s@, c);
    }
    let len = s.unicode_len();
    let mut i: usize = len;
    while i > 0
        invariant
            i <= len,
            len == s@.len(),
            forall|j: int| i <= j < len ==> s@[j] != c,
        decreases i,
    {
        i -= 1;
        if s.get_char(i) == c {
            proof {
                lemma_last_index(s@, c);
                let li = last_index(s@, c);
                if li > i {
                    assert(s@[li] != c);
                } else if li < i {
                    assert(s@[i as int] != c);
                }
            }
            return Some(i);
        }
    }
    None
}

/// The part of the path after its last separator: the file's name.
pub open spec fn base_name(s: Seq<char>) -> Seq<char> {
    s.skip(last_index(s, '/') + 1)
}

/// The part of the path before its last separator, empty if there is
/// none.
pub open spec fn dir_name(s: Seq<char>) -> Seq<char> {
    if last_index(s, '/') >= 0 {
        s.take(last_index(s, '/'))
    } else {
        Seq::empty()
    }
}

/// A directory and a file name joined with the separator.
pub open spec fn joined(dir: Seq<char>, name: Seq<char>) -> Seq<char> {
    if dir.len() == 0 {
        name
    } else if dir.last() == '/' {
        dir + name
    } else {
        dir + seq!['/'] + name
    }
}

/// The file name of a path.
pub fn path_base_name(s: &str) -> (r: String)
    ensures
        r@ == base_name(s@),
{
    proof {
        lemma_last_index(s@, '/');
    }
    let len = s.unicode_len();
    let from: usize = match find_last(s, '/') {
        Some(i) => i + 1,
        None => 0,
    };
    let mut out: Vec<char> = Vec::new();
    let mut i: usize = from;
    while i < len
        invariant
            from <= i <= len,
            len == s@.len(),
            out@.len() == i - from,
            forall|j: int| 0 <= j < out@.len() ==> out@[j] == s@[from + j],
        decreases len - i,
    {
        out.push(s.get_char(i));
        i += 1;
    }
    let r = chars_to_string(&out);
    assert(r@ =~= base_name(s@));
    r
}

/// The directory part of a path.
pub fn path_dir_name(s: &str) -> (r: String)
    ensures
        r@ == dir_name(s@),
{
    proof {
        lemma_last_index(s@, '/');
    }
    let to: usize = match find_last(s, '/') {
        Some(i) => i,
        None => 0,
    };
    let mut out: Vec<char> = Vec::new();
    let mut i: usize = 0;
    while i < to
        invariant
            i <= to <= s@.len(),
            out@.len() == i,
            forall|j: int| 0 <= j < i ==> out@[j] == s@[j],
        decreases to - i,
    {
        out.push(s.get_char(i));
        i += 1;
    }
    let r = chars_to_string(&out);
    assert(r@ =~= dir_name(s@));
    r
}

/// Join a directory and a file name.
pub fn path_join(dir: &str, name: &str) -> (r: String)
    ensures
        r@ == joined(dir@, name@),
{
    let len = dir.unicode_len();
    if len == 0 {
        let mut r = String::new();
        r.append(name);
        return r;
    }
    let mut r = String::new();
    r.append(dir);
    if dir.get_char(len - 1) != '/' {
        r.append("/");
        proof {
            reveal_strlit("/");
            assert("/"@ =~= seq!['/']);
        }
    }
    r.append(name);
    assert(r@ =~= joined(dir@, name@));
    r
}

/// The decimal digit character for a value below ten.
pub open spec fn digit_char(d: int) -> char {
    ((48 + d) as u8) as char
}

/// The decimal rendering of a number.
pub open spec fn dec_seq(n: int) -> Seq<char>
    decreases n,
{
    if n < 10 {
        seq![digit_char(if n < 0 {
            0
        } else {
            n
        })]
    } else {
        dec_seq(n / 10).push(digit_char(n % 10))
    }
}

fn dec_digits(n: u64) -> (r: Vec<char>)
    ensures
        r@ == dec_seq(n as int),
    decreases n,
{
    if n < 10 {
        let mut v: Vec<char> = Vec::new();
        v.push(((48 + n as u8)) as char);
        assert(v@ =~= dec_seq(n as int));
        v
    } else {
        let mut v = dec_digits(n / 10);
        v.push((48 + (n % 10) as u8) as char);
        assert(v@ =~= dec_seq(n as int));
        v
    }
}

/// Render a number in decimal.
pub fn dec_u64(n: u64) -> (r: String)
    ensures
        r@ == dec_seq(n as int),
{
    let digits = dec_digits(n);
    chars_to_string(&digits)
}

/// Whether the path's file name carries an extension: a dot after the
/// name's first character.
pub open spec fn has_extension(s: Seq<char>) -> bool {
    last_index(s, '.') > last_index(s, '/') + 1
}

/// The path with its extension replaced, or appended where it has
/// none.
pub open spec fn replaced_extension(s: Seq<char>, ext: Seq<char>) -> Seq<char> {
    (if has_extension(s) {
        s.take(last_index(s, '.'))
    } else {
        s
    }) + seq!['.'] + ext
}

/// Replace the path's extension, or append one where it has none.
pub fn with_extension(path: &str, ext: &str) -> (r: String)
    ensures
        r@ == replaced_extension(path@, ext@),
{
    proof {
        lemma_last_index(path@, '.');
        lemma_last_index(path@, '/');
    }
    let len = path.unicode_len();
    let dot = find_last(path, '.');
    let slash = find_last(path, '/');
    let keep_to: usize = match (dot, slash) {
        (Some(d), Some(sl)) => if d > sl && d - sl > 1 {
            d
        } else {
            len
        },
        (Some(d), None) => if d > 0 {
            d
        } else {
            len
        },
        _ => len,
    };
    let mut r = String::new();
    let head = path.substring_char(0, keep_to);
    r.append(head);
    r.append(".");
    r.append(ext);
    proof {
        reveal_strlit(".");
        assert("."@ =~= seq!['.']);
        assert(r@ =~= replaced_extension(path@, ext@));
    }
    r
}

/// The path, given the default extension where it has none.
pub fn export_with_extension(path: &str, ext: &str) -> (r: String)
    ensures
        has_extension(path@) ==> r@ == path@,
        !has_extension(path@) ==> r@ == path@ + seq!['.'] + ext@,
{
    proof {
        lemma_last_index(path@, '.');
        lemma_last_index(path@, '/');
    }
    let len = path.unicode_len();
    let dot = find_last(path, '.');
    let slash = find_last(path, '/');
    let has: bool = match (dot, slash) {
        (Some(d), Some(sl)) => d > sl && d - sl > 1,
        (Some(d), None) => d > 0,
        _ => false,
    };
    if has {
        path.to_owned()
    } else {
        let mut r = String::new();
        r.append(path);
        r.append(".");
        r.append(ext);
        proof {
            reveal_strlit(".");
            assert("."@ =~= seq!['.']);
            assert(r@ =~= path@ + seq!['.'] + ext@);
        }
        r
    }
}

/// Whether the path names a record file: its extension reads `dcm` in
/// any ASCII case.
pub open spec fn spec_is_record_file(s: Seq<char>) -> bool {
    has_extension(s) && crate::text::lower_seq(s.skip(last_index(s, '.') + 1)) == "dcm"@
}

/// Whether the path names a record file, by its extension.
pub fn is_record_file(path: &str) -> (r: bool)
    ensures
        r == spec_is_record_file(path@),
{
    proof {
        lemma_last_index(path@, '.');
        lemma_last_index(path@, '/');
        reveal_strlit("dcm");
        assert(crate::text::lower_seq("dcm"@) =~= "dcm"@);
    }
    let len = path.unicode_len();
    let dot = find_last(path, '.');
    let slash = find_last(path, '/');
    match (dot, slash) {
        (Some(d), Some(sl)) => {
            if d > sl && d - sl > 1 {
                let ext = path.substring_char(d + 1, len);
                crate::text::eq_ignore_case(ext, "dcm")
            } else {
                false
            }
        },
        (Some(d), None) => {
            if d > 0 {
                let ext = path.substring_char(d + 1, len);
                crate::text::eq_ignore_case(ext, "dcm")
            } else {
                false
            }
        },
        _ => false,
    }
}

/// The file name without its extension.
pub open spec fn stem_of(s: Seq<char>) -> Seq<char> {
    if has_extension(s) {
        s.subrange(last_index(s, '/') + 1, last_index(s, '.'))
    } else {
        base_name(s)
    }
}

/// Where an export goes when its first choice of path already exists:
/// the same directory, under the stem with the timestamp appended,
/// with the same kind of extension.
pub fn export_timestamped(path: &str, timestamp: u64, ext: &str) -> (r: String)
    ensures
        r@ == joined(
            dir_name(path@),
            stem_of(path@) + seq!['_'] + dec_seq(timestamp as int) + seq!['.'] + ext@,
        ),
{
    proof {
        lemma_last_index(path@, '.');
        lemma_last_index(path@, '/');
    }
    let len = path.unicode_len();
    let slash = find_last(path, '/');
    let dot = find_last(path, '.');
    let from: usize = match slash {
        Some(sl) => sl + 1,
        None => 0,
    };
    let to: usize = match (dot, slash) {
        (Some(d), Some(sl)) => if d > sl && d - sl > 1 {
            d
        } else {
            len
        },
        (Some(d), None) => if d > 0 {
            d
        } else {
            len
        },
        _ => len,
    };
    let dir = path_dir_name(path);
    let mut name = String::new();
    let stem = path.substring_char(from, to);
    name.append(stem);
    name.append("_");
    let ts = dec_u64(timestamp);
    name.append(ts.as_str());
    name.append(".");
    name.append(ext);
    proof {
        reveal_strlit("_");
        reveal_strlit(".");
        assert("_"@ =~= seq!['_']);
        assert("."@ =~= seq!['.']);
        assert(stem@ =~= stem_of(path@));
        assert(name@ =~= stem_of(path@) + seq!['_'] + dec_seq(timestamp as int) + seq!['.']
            + ext@);
    }
    path_join(dir.as_str(), name.as_str())
}

/// Decide where one input file's processed record goes, per the
/// requested output.
///
/// An unset request, or one equal to the input path itself, resolves
/// to overwriting in place, which needs a one-time confirmation. A
/// requested directory receives the file under its own name. Any
/// other existing path is invalid.
pub fn resolve_output(input: &str, requested: &Option<String>, requested_is_dir: bool) -> (d:
    OutputDecision)
    ensures
        match requested {
            None => d is OverwriteInPlace,
            Some(o) => if o@ == input@ {
                d is OverwriteInPlace
            } else if requested_is_dir {
                d matches OutputDecision::WriteIntoDirectory(p) && p@ == o@
            } else {
                d is Invalid
            },
        },
{
    match requested {
        None => OutputDecision::OverwriteInPlace,
        Some(o) => {
            if crate::text::str_eq(o.as_str(), input) {
                OutputDecision::OverwriteInPlace
            } else if requested_is_dir {
                OutputDecision::WriteIntoDirectory(o.clone())
            } else {
                OutputDecision::Invalid
            }
        },
    }
}

/// The single path a processed input may be written to when a
/// directory was requested: the directory joined with the input's
/// base name.
pub fn final_output_path(dir: &str, input: &str) -> (r: String)
    ensures
        r@ == joined(dir@, base_name(input@)),
{
    let name = path_base_name(input);
    path_join(dir, name.as_str())
}

/// The one path this input may be written to, if any: its own path
/// when overwriting in place, the requested directory joined with its
/// base name, and no path at all when the request is invalid.
pub fn resolve_destination(input: &str, requested: &Option<String>, requested_is_dir: bool) -> (r:
    Option<String>)
    ensures
        match requested {
            None => r matches Some(p) && p@ == input@,
            Some(o) => if o@ == input@ {
                r matches Some(p) && p@ == input@
            } else if requested_is_dir {
                r matches Some(p) && p@ == joined(o@, base_name(input@))
            } else {
                r is None
            },
        },
{
    match resolve_output(input, requested, requested_is_dir) {
        OutputDecision::OverwriteInPlace => Some(input.to_owned()),
        OutputDecision::WriteIntoDirectory(dir) => Some(final_output_path(dir.as_str(), input)),
        OutputDecision::Invalid => None,
    }
}

} // verus!
