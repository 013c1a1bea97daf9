//! The slug deriver: turns a display title into a canonical,
//! filesystem-safe token by lowercasing it, replacing each space with a
//! hyphen and removing commas.

use vstd::prelude::*;

verus! {

/// The Unicode lowercasing of a character sequence, as `str::to_lowercase`
/// computes it.
pub uninterp spec fn lower_of(s: Seq<char>) -> Seq<char>;

/// Relies on `str::to_lowercase`: the lowercased text depends on the input
/// characters alone.
#[verifier::external_body]
fn lowercase(s: &str) -> (r: String)
    ensures
        r@ == lower_of(s@),
{
    s.to_lowercase()
}

/// The cleanup applied after lowercasing: each space becomes a hyphen and
/// each comma disappears; every other character is kept.
pub open spec fn spec_slug_chars(s: Seq<char>) -> Seq<char>
    decreases s.len(),
{
    if s.len() == 0 {
        Seq::empty()
    } else {
        let rest = spec_slug_chars(s.drop_first());
        if s[0] == ',' {
            rest
        } else if s[0] == ' ' {
            seq!['-'] + rest
        } else {
            seq![s[0]] + rest
        }
    }
}

/// The canonical slug of a title.
pub open spec fn spec_slugify(title: Seq<char>) -> Seq<char> {
    spec_slug_chars(lower_of(title))
}

/// Derives the canonical slug of a title. Pure and total: every title has a
/// slug.
pub fn slugify(title: &str) -> (r: String)
    ensures
        r@ == spec_slugify(title@),
{
    let low = lowercase(title);
    let ls = low.as_str();
    let n = ls.unicode_len();
    let mut out = String::new();
    let mut i: usize = 0;
    proof {
        assert(ls@.subrange(0, n as int) =~= ls@);
    }
    while i < n
        invariant
            0 <= i <= n,
            n == ls@.len(),
            ls@ == lower_of(title@),
            spec_slug_chars(ls@) == out@ + spec_slug_chars(ls@.subrange(i as int, n as int)),
        decreases n - i,
    {
        let ghost pre = ls@.subrange(i as int, n as int);
        let c = ls.get_char(i);
        proof {
            assert(pre[0] == c);
            assert(pre.drop_first() =~= ls@.subrange(i + 1, n as int));
        }
        if c == ',' {
            // dropped from the slug
        } else if c == ' ' {
            proof {
                reveal_strlit("-");
            }
            out.append("-");
        } else {
            let one = ls.substring_char(i, i + 1);
            proof {
                assert(one@ =~= seq![c]);
            }
            out.append(one);
        }
        i = i + 1;
    }
    proof {
        assert(ls@.subrange(n as int, n as int) =~= Seq::<char>::empty());
        assert(out@ =~= spec_slug_chars(ls@));
    }
    out
}

} // verus!
