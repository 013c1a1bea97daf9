//! The metadata block: a plain `key: value` mapping, one pair per line.
//! Keys and values are trimmed; blank lines are skipped; a non-blank line
//! without a colon is a syntax error. The serializer writes the fixed
//! three-field mapping used by the document codec.

use crate::text::{spec_find_char, spec_lines, spec_trim, str_eq};
use vstd::prelude::*;

verus! {

/// The key-value pair denoted by one metadata line: the text before the
/// first colon and the text after it, both trimmed. A line without a colon
/// denotes nothing.
pub open spec fn spec_parse_line(line: Seq<char>) -> Option<(Seq<char>, Seq<char>)> {
    match spec_find_char(line, ':', 0) {
        None => None,
        Some(i) => if 0 <= i < line.len() {
            Some(
                (
                    spec_trim(line.subrange(0, i)),
                    spec_trim(line.subrange(i + 1, line.len() as int)),
                ),
            )
        } else {
            None
        },
    }
}

/// The mapping denoted by a sequence of lines: blank lines are skipped, and
/// every other line must denote a pair.
pub open spec fn spec_parse_lines(lines: Seq<Seq<char>>) -> Option<Seq<(Seq<char>, Seq<char>)>>
    decreases lines.len(),
{
    if lines.len() == 0 {
        Some(Seq::empty())
    } else {
        let rest = spec_parse_lines(lines.drop_first());
        if spec_trim(lines[0]).len() == 0 {
            rest
        } else {
            match spec_parse_line(lines[0]) {
                None => None,
                Some(kv) => match rest {
                    None => None,
                    Some(r) => Some(seq![kv] + r),
                },
            }
        }
    }
}

/// The mapping denoted by a metadata block.
pub open spec fn spec_parse_block(s: Seq<char>) -> Option<Seq<(Seq<char>, Seq<char>)>> {
    spec_parse_lines(spec_lines(s))
}

/// The value of the first pair with the given key.
pub open spec fn spec_lookup(pairs: Seq<(Seq<char>, Seq<char>)>, key: Seq<char>) -> Option<
    Seq<char>,
>
    decreases pairs.len(),
{
    if pairs.len() == 0 {
        None
    } else if pairs[0].0 == key {
        Some(pairs[0].1)
    } else {
        spec_lookup(pairs.drop_first(), key)
    }
}

/// Parses one metadata line into its key-value pair.
pub fn parse_line(line: &str) -> (r: Option<(String, String)>)
    ensures
        match r {
            Some(kv) => spec_parse_line(line@) == Some((kv.0@, kv.1@)),
            None => spec_parse_line(line@) is None,
        },
{
    match crate::text::find_char(line, ':', 0) {
        None => None,
        Some(i) => {
            proof {
                crate::text::lemma_find_char_found(line@, ':', 0);
            }
            let n = line.unicode_len();
            let key_part = line.substring_char(0, i);
            let val_part = line.substring_char(i + 1, n);
            let key = crate::text::trim(key_part);
            let val = crate::text::trim(val_part);
            Some((key, val))
        },
    }
}

/// Parses a metadata block into its mapping, line by line.
pub fn parse_block(s: &str) -> (r: Option<Vec<(String, String)>>)
    ensures
        match r {
            Some(v) => spec_parse_block(s@) == Some(v.deep_view()),
            None => spec_parse_block(s@) is None,
        },
{
    let lines = crate::text::split_lines(s);
    let ghost all = lines.deep_view();
    let mut out: Vec<(String, String)> = Vec::new();
    let mut i: usize = 0;
    proof {
        assert(all.subrange(0, all.len() as int) =~= all);
        assert(out.deep_view() =~= Seq::<(Seq<char>, Seq<char>)>::empty());
    }
    while i < lines.len()
        invariant
            0 <= i <= lines.len(),
            all == lines.deep_view(),
            all == spec_lines(s@),
            all.len() == lines.len(),
            ({
                let tail = spec_parse_lines(all.subrange(i as int, all.len() as int));
                spec_parse_lines(all) == match tail {
                    None => None::<Seq<(Seq<char>, Seq<char>)>>,
                    Some(r) => Some(out.deep_view() + r),
                }
            }),
        decreases lines.len() - i,
    {
        let ghost rest = all.subrange(i as int, all.len() as int);
        proof {
            assert(rest[0] == all[i as int]);
            assert(rest.drop_first() =~= all.subrange(i + 1, all.len() as int));
        }
        let line = &lines[i];
        proof {
            assert(all[i as int] == lines@[i as int].deep_view());
            assert(all[i as int] == lines@[i as int]@);
        }
        let trimmed = crate::text::trim(line.as_str());
        if trimmed.as_str().is_empty() {
            // a blank line carries no pair
        } else {
            match parse_line(line.as_str()) {
                None => {
                    proof {
                        assert(rest.len() > 0);
                        assert(spec_trim(rest[0]).len() != 0);
                        assert(spec_parse_line(rest[0]) is None);
                        assert(spec_parse_lines(rest) is None);
                    }
                    return None;
                },
                Some(kv) => {
                    let ghost old_dv = out.deep_view();
                    let ghost kv_view = (kv.0@, kv.1@);
                    out.push(kv);
                    proof {
                        assert(out.deep_view() =~= old_dv + seq![kv_view]);
                        let tail = spec_parse_lines(all.subrange(i + 1, all.len() as int));
                        if tail is Some {
                            assert((old_dv + seq![kv_view]) + tail->Some_0 =~= old_dv + (
                            seq![kv_view] + tail->Some_0));
                        }
                    }
                },
            }
        }
        i = i + 1;
    }
    proof {
        assert(all.subrange(all.len() as int, all.len() as int) =~= Seq::<Seq<char>>::empty());
        assert(out.deep_view() + Seq::<(Seq<char>, Seq<char>)>::empty() =~= out.deep_view());
    }
    Some(out)
}

/// Finds the value of the first pair with the given key.
pub fn lookup(pairs: &Vec<(String, String)>, key: &str) -> (r: Option<String>)
    ensures
        match r {
            Some(v) => spec_lookup(pairs.deep_view(), key@) == Some(v@),
            None => spec_lookup(pairs.deep_view(), key@) is None,
        },
{
    let ghost all = pairs.deep_view();
    let mut i: usize = 0;
    proof {
        assert(all.subrange(0, all.len() as int) =~= all);
    }
    while i < pairs.len()
        invariant
            0 <= i <= pairs.len(),
            all == pairs.deep_view(),
            all.len() == pairs.len(),
            spec_lookup(all, key@) == spec_lookup(
                all.subrange(i as int, all.len() as int),
                key@,
            ),
        decreases pairs.len() - i,
    {
        let ghost rest = all.subrange(i as int, all.len() as int);
        proof {
            assert(rest[0] == all[i as int]);
            assert(rest.drop_first() =~= all.subrange(i + 1, all.len() as int));
        }
        proof {
            assert(all[i as int] == pairs@[i as int].deep_view());
            assert(all[i as int] == (pairs@[i as int].0@, pairs@[i as int].1@));
        }
        if str_eq(pairs[i].0.as_str(), key) {
            return Some(pairs[i].1.clone());
        }
        i = i + 1;
    }
    proof {
        assert(all.subrange(all.len() as int, all.len() as int) =~= Seq::<
            (Seq<char>, Seq<char>),
        >::empty());
    }
    None
}

} // verus!
