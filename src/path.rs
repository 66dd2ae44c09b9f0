use vstd::prelude::*;

verus! {

/// The path `base` with the relative segment `seg` appended, with `sep` as the
/// only separator: an empty base gives the segment alone, and `sep` is
/// inserted unless the base already ends with it. On Unix this is what
/// `Path::join` does for a relative segment; Windows' other separator and
/// drive prefixes are not treated apart.
pub open spec fn join(base: Seq<char>, seg: Seq<char>, sep: char) -> Seq<char> {
    if base.len() == 0 {
        seg
    } else if base.last() == sep {
        base + seg
    } else {
        base.push(sep) + seg
    }
}

/// Joining two segments one after the other is joining them, separated, at once.
pub proof fn lemma_join_join(base: Seq<char>, x: Seq<char>, y: Seq<char>, sep: char)
    requires
        x.len() > 0,
        x.last() != sep,
    ensures
        join(join(base, x, sep), y, sep) == join(base, x.push(sep) + y, sep),
{
    if base.len() == 0 {
    } else if base.last() == sep {
        assert((base + x).last() == x.last());
        assert((base + x).push(sep) + y =~= base + (x.push(sep) + y));
    } else {
        assert((base.push(sep) + x).last() == x.last());
        assert((base.push(sep) + x).push(sep) + y =~= base.push(sep) + (x.push(sep) + y));
    }
}

/// Relies on `std::path::MAIN_SEPARATOR`: the platform's primary path
/// separator, `/` on Unix and `\` on Windows.
#[verifier::external_body]
pub(crate) fn main_separator() -> (r: char)
    ensures
        r == '/' || r == '\\',
{
    std::path::MAIN_SEPARATOR
}

/// Relies on `String::push`: the character is appended at the end.
#[verifier::external_body]
fn push_char(s: &mut String, c: char)
    ensures
        final(s)@ == old(s)@.push(c),
{
    s.push(c)
}

/// Returns `base` joined with the relative segment `seg` using separator `sep`.
pub fn join_segment(base: &str, seg: &str, sep: char) -> (r: String)
    ensures
        r@ == join(base@, seg@, sep),
{
    let n = base.unicode_len();
    let mut r = base.to_string();
    if n > 0 && base.get_char(n - 1) != sep {
        push_char(&mut r, sep);
    }
    r.append(seg);
    r
}

} // verus!
