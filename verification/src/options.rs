//! Encoder option strings.
//!
//! The command line hands the encoder its tuning as a comma-separated list
//! of `key=value` pairs.  Parsing follows the usual terminator-style
//! splitting: a trailing comma closes the last pair instead of opening an
//! empty one, and an empty string holds no pairs at all.  Every segment
//! between commas must contain exactly one `=`; anything else makes the
//! whole string malformed, which the caller treats as a fatal usage error.
//! Keys and values are byte strings; turning them into the engine's own
//! dictionary form is the unverified front end's business.

use vstd::prelude::*;

verus! {

use vstd::slice::{slice_index_get, slice_subrange, slice_to_vec};

/// ASCII comma, the separator between options.
pub const OPT_SEPARATOR: u8 = 44;

/// ASCII equals sign, the separator between a key and its value.
pub const KEY_VALUE_SEPARATOR: u8 = 61;

/// The position of the first occurrence of `b` in `s`, or `s.len()` when
/// `s` does not contain `b`.
pub open spec fn find_byte_spec(s: Seq<u8>, b: u8) -> int
    decreases s.len(),
{
    if s.len() == 0 {
        0
    } else if s[0] == b {
        0
    } else {
        1 + find_byte_spec(s.skip(1), b)
    }
}

pub proof fn lemma_find_byte(s: Seq<u8>, b: u8)
    ensures
        0 <= find_byte_spec(s, b) <= s.len(),
        forall|i: int| 0 <= i < find_byte_spec(s, b) ==> s[i] != b,
        find_byte_spec(s, b) < s.len() ==> s[find_byte_spec(s, b)] == b,
    decreases s.len(),
{
    if s.len() > 0 && s[0] != b {
        lemma_find_byte(s.skip(1), b);
        assert forall|i: int| 0 <= i < find_byte_spec(s, b) implies s[i] != b by {
            if i > 0 {
                assert(s.skip(1)[i - 1] == s[i]);
            }
        }
        if find_byte_spec(s, b) < s.len() {
            assert(s.skip(1)[find_byte_spec(s, b) - 1] == s[find_byte_spec(s, b)]);
        }
    }
}

/// Finds the first occurrence of `b` in `s`, or reports `s.len()`.
fn find_byte(s: &[u8], b: u8) -> (j: usize)
    ensures
        j as int == find_byte_spec(s@, b),
{
    let n = s.len();
    let mut i: usize = 0;
    while i < n
        invariant
            n == s@.len(),
            0 <= i <= n,
            forall|k: int| 0 <= k < i as int ==> s@[k] != b,
        decreases n - i,
    {
        if *slice_index_get(s, i) == b {
            proof {
                lemma_find_byte(s@, b);
            }
            return i;
        }
        i = i + 1;
    }
    proof {
        lemma_find_byte(s@, b);
    }
    n
}

/// What one comma-delimited segment parses to: its key and value, when the
/// segment contains exactly one `=`; nothing otherwise.
pub open spec fn parse_segment_spec(seg: Seq<u8>) -> Option<(Seq<u8>, Seq<u8>)> {
    let j = find_byte_spec(seg, KEY_VALUE_SEPARATOR);
    if j == seg.len() {
        None
    } else {
        let value = seg.skip(j + 1);
        if find_byte_spec(value, KEY_VALUE_SEPARATOR) == value.len() {
            Some((seg.take(j), value))
        } else {
            None
        }
    }
}

/// What a whole option string parses to: the key/value pairs of its
/// comma-delimited segments in order, or nothing as soon as one segment is
/// malformed.
pub open spec fn parse_opts_spec(s: Seq<u8>) -> Option<Seq<(Seq<u8>, Seq<u8>)>>
    decreases s.len(),
    via parse_opts_spec_decreases
{
    if s.len() == 0 {
        Some(Seq::empty())
    } else {
        let j = find_byte_spec(s, OPT_SEPARATOR);
        match parse_segment_spec(s.take(j)) {
            None => None,
            Some(kv) => if j == s.len() {
                Some(seq![kv])
            } else {
                match parse_opts_spec(s.skip(j + 1)) {
                    None => None,
                    Some(rest) => Some(seq![kv] + rest),
                }
            },
        }
    }
}

#[via_fn]
proof fn parse_opts_spec_decreases(s: Seq<u8>) {
    lemma_find_byte(s, OPT_SEPARATOR);
}

/// The pairs a parsed option list holds, as mathematical byte strings.
pub open spec fn pairs_view(v: Seq<(Vec<u8>, Vec<u8>)>) -> Seq<(Seq<u8>, Seq<u8>)> {
    Seq::new(v.len(), |i: int| (v[i].0@, v[i].1@))
}

fn parse_segment(seg: &[u8]) -> (r: Option<(Vec<u8>, Vec<u8>)>)
    ensures
        r is Some <==> parse_segment_spec(seg@) is Some,
        r matches Some(kv) ==> parse_segment_spec(seg@) == Some((kv.0@, kv.1@)),
{
    proof {
        lemma_find_byte(seg@, KEY_VALUE_SEPARATOR);
    }
    let j = find_byte(seg, KEY_VALUE_SEPARATOR);
    if j == seg.len() {
        return None;
    }
    let value_slice = slice_subrange(seg, j + 1, seg.len());
    let j2 = find_byte(value_slice, KEY_VALUE_SEPARATOR);
    if j2 != value_slice.len() {
        return None;
    }
    let key = slice_to_vec(slice_subrange(seg, 0, j));
    let value = slice_to_vec(value_slice);
    Some((key, value))
}

/// Parses a comma-separated `key=value` option string into its pairs, or
/// reports the string malformed: some segment does not contain exactly one
/// `=`.
pub fn parse_opts(s: &[u8]) -> (r: Option<Vec<(Vec<u8>, Vec<u8>)>>)
    ensures
        r is Some <==> parse_opts_spec(s@) is Some,
        r matches Some(v) ==> parse_opts_spec(s@) == Some(pairs_view(v@)),
    decreases s@.len(),
{
    if s.len() == 0 {
        let empty: Vec<(Vec<u8>, Vec<u8>)> = Vec::new();
        proof {
            assert(pairs_view(empty@) =~= Seq::<(Seq<u8>, Seq<u8>)>::empty());
        }
        return Some(empty);
    }
    proof {
        lemma_find_byte(s@, OPT_SEPARATOR);
    }
    let j = find_byte(s, OPT_SEPARATOR);
    let seg = slice_subrange(s, 0, j);
    match parse_segment(seg) {
        Option::None => Option::None,
        Option::Some(kv) => {
            if j == s.len() {
                let mut result: Vec<(Vec<u8>, Vec<u8>)> = Vec::new();
                let ghost kv_view = (kv.0@, kv.1@);
                result.push(kv);
                proof {
                    assert(pairs_view(result@) =~= seq![kv_view]);
                }
                Option::Some(result)
            } else {
                let rest = slice_subrange(s, j + 1, s.len());
                match parse_opts(rest) {
                    Option::None => Option::None,
                    Option::Some(mut tail) => {
                        let ghost kv_view = (kv.0@, kv.1@);
                        let ghost tail_view = tail@;
                        tail.insert(0, kv);
                        proof {
                            assert(pairs_view(tail@) =~= seq![kv_view] + pairs_view(tail_view));
                        }
                        Option::Some(tail)
                    },
                }
            }
        },
    }
}

} // verus!
