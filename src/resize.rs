//! Reading a target size written as `WxH`.
use vstd::prelude::*;
use crate::text::{chars_of, find_from, occurs_at, first_occurrence_from, lemma_first_occurrence_found,
    parse_unsigned, parse_unsigned_spec};

verus! {

/// Why a size could not be read.
#[derive(Clone, Copy, Debug, PartialEq, Eq, Structural)]
pub enum ResizeError {
    /// There is no `x` between width and height.
    MissingSeparator,
    /// The text before the first `x` is not a 32-bit unsigned number.
    InvalidWidth,
    /// The text after the first `x` is not a 32-bit unsigned number.
    InvalidHeight,
}

/// The size that `text` writes as width, `x`, height; the first `x` splits.
pub open spec fn resize_spec(text: Seq<char>) -> Result<(u32, u32), ResizeError> {
    match first_occurrence_from(text, seq!['x'], 0) {
        None => Err(ResizeError::MissingSeparator),
        Some(p) => match parse_unsigned_spec(text.subrange(0, p), u32::MAX as nat) {
            None => Err(ResizeError::InvalidWidth),
            Some(w) => match parse_unsigned_spec(text.subrange(p + 1, text.len() as int), u32::MAX as nat) {
                None => Err(ResizeError::InvalidHeight),
                Some(h) => Ok((w as u32, h as u32)),
            },
        },
    }
}

fn slice_chars(v: &Vec<char>, from: usize, to: usize) -> (r: Vec<char>)
    requires
        from <= to <= v@.len(),
    ensures
        r@ == v@.subrange(from as int, to as int),
{
    let mut out: Vec<char> = Vec::new();
    let mut i: usize = from;
    while i < to
        invariant
            from <= i <= to,
            to <= v@.len(),
            out@ == v@.subrange(from as int, i as int),
        decreases to - i,
    {
        out.push(v[i]);
        i = i + 1;
        assert(out@ =~= v@.subrange(from as int, i as int));
    }
    out
}

/// Reads a size written as `WxH`, such as `100x200`.
pub fn parse_resize_var(env: &str) -> (r: Result<(u32, u32), ResizeError>)
    ensures
        r == resize_spec(env@),
{
    let text = chars_of(env);
    let mut sep: Vec<char> = Vec::new();
    sep.push('x');
    assert(sep@ =~= seq!['x']);
    match find_from(&text, &sep, 0) {
        None => Err(ResizeError::MissingSeparator),
        Some(p) => {
            proof {
                lemma_first_occurrence_found(text@, sep@, 0);
                let ps = first_occurrence_from(text@, sep@, 0)->0;
                assert(occurs_at(text@, sep@, ps));
                assert(p as int == ps);
                assert(p + 1 <= text@.len());
            }
            let n = text.len();
            let width = slice_chars(&text, 0, p);
            let height = slice_chars(&text, p + 1, n);
            match parse_unsigned(&width, 4294967295) {
                None => Err(ResizeError::InvalidWidth),
                Some(w) => match parse_unsigned(&height, 4294967295) {
                    None => Err(ResizeError::InvalidHeight),
                    Some(h) => Ok((w as u32, h as u32)),
                },
            }
        },
    }
}

} // verus!
