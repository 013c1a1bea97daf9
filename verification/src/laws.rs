//! The library's laws: properties that relate several functions, stated over
//! the same spec-level models the functions' contracts use, and proved here
//! once and for all.

use crate::article::{spec_decode, spec_encode, ArticleView, DecodeErr};
use crate::date::{
    lemma_date_roundtrip, lemma_format_date_chars, spec_format_date, spec_midnight_unique,
};
use crate::meta::{spec_lookup, spec_parse_line, spec_parse_lines};
use crate::text::{
    delim_at, is_clean, is_space, lemma_find_char_exact, lemma_find_delim_exact,
    lemma_lines_cons, lemma_lines_single, lemma_no_delim_concat, lemma_trim_clean,
    lemma_trim_end_at, lemma_trim_start_at, no_delim, spec_lines, spec_trim,
};
use vstd::prelude::*;

verus! {

/// A field value the codec writes verbatim and reads back unchanged: free of
/// the delimiter and of newlines, with no surrounding whitespace.
pub open spec fn codec_safe_field(s: Seq<char>) -> bool {
    &&& no_delim(s)
    &&& forall|i: int| 0 <= i < s.len() ==> s[i] != '\n'
    &&& is_clean(s)
}

/// An article the codec round-trips in the given reference zone: its title
/// is non-empty, its title and author are safe field values, its date
/// exists, and local midnight of its date is a single instant in the zone.
pub open spec fn codec_safe(v: ArticleView, zone: Seq<char>) -> bool {
    &&& codec_safe_field(v.title)
    &&& v.title.len() > 0
    &&& codec_safe_field(v.author)
    &&& v.date.wf()
    &&& spec_midnight_unique(zone, v.date.y, v.date.m, v.date.d)
}

/// A sequence without hyphens contains no delimiter.
proof fn lemma_no_hyphen_no_delim(s: Seq<char>)
    requires
        forall|i: int| 0 <= i < s.len() ==> s[i] != '-',
    ensures
        no_delim(s),
{
}

/// Trimming strips one whitespace character wrapped around a sequence that
/// is clean and keeps the sequence.
proof fn lemma_trim_wrapped(pre: Seq<char>, m: Seq<char>, post: Seq<char>)
    requires
        pre.len() <= 1 && post.len() <= 1,
        forall|i: int| 0 <= i < pre.len() ==> is_space(pre[i]),
        forall|i: int| 0 <= i < post.len() ==> is_space(post[i]),
        is_clean(m),
    ensures
        spec_trim(pre + m + post) == m,
{
    let s = pre + m + post;
    if m.len() == 0 {
        lemma_trim_start_at(s, s.len() as int);
        lemma_trim_end_at(s.subrange(s.len() as int, s.len() as int), 0);
        assert(spec_trim(s) =~= m);
    } else {
        lemma_trim_start_at(s, pre.len() as int);
        let t = s.subrange(pre.len() as int, s.len() as int);
        assert(t =~= m + post);
        lemma_trim_end_at(t, m.len() as int);
        assert(t.subrange(0, m.len() as int) =~= m);
    }
}

/// One metadata line `<key>: <value>` parses back into its key and value,
/// provided the key is lower-case alphabetic and the value is clean.
proof fn lemma_parse_kv_line(key: Seq<char>, val: Seq<char>)
    requires
        key.len() > 0,
        forall|i: int| 0 <= i < key.len() ==> 'a' <= #[trigger] key[i] <= 'z',
        is_clean(val),
    ensures
        spec_parse_line(key + seq![':', ' '] + val) == Some((key, val)),
{
    let line = key + seq![':', ' '] + val;
    let ci = key.len() as int;
    assert(line[ci] == ':');
    assert(forall|i: int| 0 <= i < ci ==> line[i] == key[i]);
    lemma_find_char_exact(line, ':', 0, ci);
    assert(line.subrange(0, ci) =~= key);
    assert(is_clean(key));
    lemma_trim_clean(key);
    let after = line.subrange(ci + 1, line.len() as int);
    assert(after =~= seq![' '] + val + Seq::<char>::empty());
    lemma_trim_wrapped(seq![' '], val, Seq::<char>::empty());
    assert(spec_trim(after) == val);
}

/// Trimming from the right keeps a non-whitespace head character.
proof fn lemma_trim_end_keeps_head(s: Seq<char>)
    requires
        s.len() > 0,
        !is_space(s[0]),
    ensures
        crate::text::trim_end(s).len() > 0,
    decreases s.len(),
{
    if is_space(s[s.len() - 1]) {
        let t = s.drop_last();
        assert(t[0] == s[0]);
        lemma_trim_end_keeps_head(t);
    }
}

/// A leading whitespace character does not change what trimming leaves.
proof fn lemma_trim_cons_space(x: char, c: Seq<char>)
    requires
        is_space(x),
    ensures
        spec_trim(seq![x] + c) == spec_trim(c),
{
    assert((seq![x] + c).drop_first() =~= c);
}

/// A sequence with a non-whitespace head trims to something non-empty.
proof fn lemma_trim_nonempty(s: Seq<char>)
    requires
        s.len() > 0,
        !is_space(s[0]),
    ensures
        spec_trim(s).len() > 0,
{
    lemma_trim_start_at(s, 0);
    assert(crate::text::trim_start(s) =~= s);
    lemma_trim_end_keeps_head(s);
}

/// Encoding a codec-safe article and decoding the result yields an equal
/// article: the same title, author and date, and the same content up to the
/// whitespace trimming the decoder applies to every body.
#[verifier::rlimit(100)]
pub proof fn lemma_codec_roundtrip(v: ArticleView, default_author: Seq<char>, zone: Seq<char>)
    requires
        codec_safe(v, zone),
    ensures
        spec_decode(spec_encode(v), default_author, zone) == Ok::<ArticleView, DecodeErr>(
            ArticleView {
                title: v.title,
                author: v.author,
                date: v.date,
                content: spec_trim(v.content),
            },
        ),
        is_clean(v.content) ==> spec_decode(spec_encode(v), default_author, zone) == Ok::<
            ArticleView,
            DecodeErr,
        >(v),
{
    reveal_strlit("---\ntitle: ");
    reveal_strlit("\nauthor: ");
    reveal_strlit("\ndate: ");
    reveal_strlit("\n---\n");
    reveal_strlit("title");
    reveal_strlit("author");
    reveal_strlit("date");
    let t = v.title;
    let a = v.author;
    let c = spec_trim(v.content);
    let d = spec_format_date(v.date);
    lemma_format_date_chars(v.date);
    let enc = spec_encode(v);
    let colsp = seq![':', ' '];
    let nl = seq!['\n'];
    let hyp = seq!['-', '-', '-'];
    let l1 = "title"@ + colsp + t;
    let l2 = "author"@ + colsp + a;
    let l3 = "date"@ + colsp + d;
    let core = l1 + nl + (l2 + nl + l3);
    let mid = nl + core + nl;
    assert(enc =~= hyp + mid + hyp + (nl + c));
    let k = 3 + mid.len() as int;

    // the opening delimiter is found at position zero
    assert(delim_at(enc, 0));
    lemma_find_delim_exact(enc, 0, 0);

    // no delimiter occurs anywhere in the middle segment
    assert(forall|i: int| 0 <= i < "title"@.len() + 2 ==> ("title"@ + colsp)[i] != '-');
    lemma_no_hyphen_no_delim("title"@ + colsp);
    lemma_no_delim_concat("title"@ + colsp, t);
    lemma_no_delim_concat(l1, nl);
    assert(forall|i: int| 0 <= i < "author"@.len() + 2 ==> ("author"@ + colsp)[i] != '-');
    lemma_no_hyphen_no_delim("author"@ + colsp);
    lemma_no_delim_concat("author"@ + colsp, a);
    lemma_no_delim_concat(l2, nl);
    assert(forall|i: int| 0 <= i < "date"@.len() + 2 ==> ("date"@ + colsp)[i] != '-');
    lemma_no_hyphen_no_delim("date"@ + colsp);
    lemma_no_delim_concat("date"@ + colsp, d);
    assert((l2 + nl + l3)[0] != '-');
    lemma_no_delim_concat(l2 + nl, l3);
    assert(((l2 + nl) + l3)[0] != '-');
    lemma_no_delim_concat(l1 + nl, (l2 + nl) + l3);
    assert(core =~= (l1 + nl) + ((l2 + nl) + l3));
    assert(no_delim(core));
    lemma_no_delim_concat(nl, core);
    lemma_no_delim_concat(nl + core, nl);
    assert(no_delim(mid));

    // hence the closing delimiter is the first one after the opening
    assert(delim_at(enc, k)) by {
        assert(enc[k] == '-' && enc[k + 1] == '-' && enc[k + 2] == '-');
    }
    assert(enc[k - 1] == '\n');
    assert forall|i: int| 3 <= i < k implies !delim_at(enc, i) by {
        if i + 3 <= k {
            assert(enc[i] == mid[i - 3]);
            assert(enc[i + 1] == mid[i - 2]);
            assert(enc[i + 2] == mid[i - 1]);
            assert(!delim_at(mid, i - 3));
        } else {
            assert(enc[k - 1] == '\n');
        }
    }
    lemma_find_delim_exact(enc, 3, k);

    // the middle segment trims to the three metadata lines
    assert(enc.subrange(3, k) =~= mid);
    assert(l1[0] == 't' && !is_space(l1[0]));
    assert(core[0] == 't');
    assert(core[core.len() - 1] == d[d.len() - 1]);
    assert(is_clean(core));
    lemma_trim_wrapped(nl, core, nl);
    assert(mid =~= nl + core + nl);
    assert(spec_trim(enc.subrange(3, k)) == core);

    // the body segment trims to the trimmed content
    assert(enc.subrange(k + 3, enc.len() as int) =~= seq!['\n'] + c);
    lemma_trim_cons_space('\n', c);
    crate::text::lemma_trim_idempotent(v.content);
    assert(spec_trim(enc.subrange(k + 3, enc.len() as int)) == spec_trim(v.content));

    // the metadata block splits into exactly the three lines
    assert(forall|i: int| 0 <= i < l1.len() ==> l1[i] != '\n');
    assert(forall|i: int| 0 <= i < l2.len() ==> l2[i] != '\n');
    assert(forall|i: int| 0 <= i < l3.len() ==> l3[i] != '\n');
    lemma_lines_cons(l1, (l2 + nl) + l3);
    assert(core =~= (l1 + seq!['\n']) + ((l2 + nl) + l3));
    lemma_lines_cons(l2, l3);
    lemma_lines_single(l3);
    let lines = spec_lines(core);
    assert(lines =~= seq![l1, l2, l3]);

    // each line parses into its key-value pair
    assert(forall|i: int| 0 <= i < "title"@.len() ==> 'a' <= #[trigger] "title"@[i] <= 'z');
    assert(forall|i: int| 0 <= i < "author"@.len() ==> 'a' <= #[trigger] "author"@[i] <= 'z');
    assert(forall|i: int| 0 <= i < "date"@.len() ==> 'a' <= #[trigger] "date"@[i] <= 'z');
    lemma_parse_kv_line("title"@, t);
    lemma_parse_kv_line("author"@, a);
    lemma_parse_kv_line("date"@, d);
    assert(spec_parse_line(l1) == Some(("title"@, t)));
    assert(spec_parse_line(l2) == Some(("author"@, a)));
    assert(spec_parse_line(l3) == Some(("date"@, d)));
    lemma_trim_nonempty(l1);
    lemma_trim_nonempty(l2);
    lemma_trim_nonempty(l3);
    assert(lines.drop_first() =~= seq![l2, l3]);
    assert(seq![l2, l3].drop_first() =~= seq![l3]);
    assert(seq![l3].drop_first() =~= Seq::<Seq<char>>::empty());
    let kv1 = ("title"@, t);
    let kv2 = ("author"@, a);
    let kv3 = ("date"@, d);
    let pairs = spec_parse_lines(lines)->Some_0;
    assert(spec_parse_lines(Seq::<Seq<char>>::empty()) == Some(
        Seq::<(Seq<char>, Seq<char>)>::empty(),
    ));
    assert(l3[0] == 'd');
    assert(spec_parse_lines(seq![l3]) == Some(seq![kv3] + Seq::<(Seq<char>, Seq<char>)>::empty()));
    assert(l2[0] == 'a');
    assert(spec_parse_lines(seq![l2, l3]) == Some(
        seq![kv2] + (seq![kv3] + Seq::<(Seq<char>, Seq<char>)>::empty()),
    ));
    assert(spec_parse_lines(lines) == Some(
        seq![kv1] + (seq![kv2] + (seq![kv3] + Seq::<(Seq<char>, Seq<char>)>::empty())),
    ));
    assert(pairs =~= seq![kv1, kv2, kv3]);

    // the three keys look up to the three values
    assert("title"@.len() != "author"@.len());
    assert("title"@ != "author"@);
    assert("title"@ != "date"@);
    assert("author"@ != "date"@);
    assert(pairs.drop_first() =~= seq![kv2, kv3]);
    assert(seq![kv2, kv3].drop_first() =~= seq![kv3]);
    assert(spec_lookup(seq![kv3], "date"@) == Some(d));
    assert(spec_lookup(seq![kv2, kv3], "date"@) == Some(d));
    assert(spec_lookup(seq![kv2, kv3], "author"@) == Some(a));
    assert(spec_lookup(pairs, "title"@) == Some(t));
    assert(spec_lookup(pairs, "author"@) == Some(a));
    assert(spec_lookup(pairs, "date"@) == Some(d));

    // the date string normalizes back to the same date
    lemma_date_roundtrip(v.date);

    let decoded = spec_decode(enc, default_author, zone);
    assert(decoded is Ok);
    assert(decoded->Ok_0 =~= ArticleView {
        title: v.title,
        author: v.author,
        date: v.date,
        content: spec_trim(v.content),
    });
    if is_clean(v.content) {
        lemma_trim_clean(v.content);
        assert(decoded->Ok_0 =~= v);
    }
}

/// For a document that splits at two delimiter occurrences and whose
/// metadata block parses, decoding fails with `MissingField("title")` exactly
/// when the mapping has no `title` key or an empty value for it; and when it
/// has a title but no
/// `author` key, any successfully decoded article carries the configured
/// default author.
pub proof fn lemma_title_required_author_defaulted(
    s: Seq<char>,
    default_author: Seq<char>,
    zone: Seq<char>,
)
    requires
        (crate::text::spec_find_delim(s, 0) is Some),
        (crate::text::spec_find_delim(s, crate::text::spec_find_delim(s, 0)->Some_0 + 3)
            is Some),
    ensures
        ({
            let i = crate::text::spec_find_delim(s, 0)->Some_0;
            let j = crate::text::spec_find_delim(s, i + 3)->Some_0;
            let metadata = spec_trim(s.subrange(i + 3, j));
            match crate::meta::spec_parse_block(metadata) {
                None => spec_decode(s, default_author, zone) == Err::<ArticleView, DecodeErr>(
                    DecodeErr::MetaParse,
                ),
                Some(pairs) => {
                    &&& ((spec_lookup(pairs, "title"@) is None || spec_lookup(
                        pairs,
                        "title"@,
                    )->Some_0.len() == 0) <==> spec_decode(s, default_author, zone) == Err::<
                        ArticleView,
                        DecodeErr,
                    >(DecodeErr::MissingTitle))
                    &&& (spec_lookup(pairs, "author"@) is None && spec_decode(
                        s,
                        default_author,
                        zone,
                    ) is Ok ==> spec_decode(s, default_author, zone)->Ok_0.author
                        == default_author)
                },
            }
        }),
{
}

/// A document in which the delimiter never occurs twice in order — once at
/// some position and again at least three characters later — fails to decode
/// with `MalformedDocument`, whatever the configuration.
pub proof fn lemma_decode_malformed(s: Seq<char>, default_author: Seq<char>, zone: Seq<char>)
    requires
        forall|i: int, j: int| !(#[trigger] delim_at(s, i) && #[trigger] delim_at(s, j) && i + 3
            <= j),
    ensures
        spec_decode(s, default_author, zone) == Err::<ArticleView, DecodeErr>(DecodeErr::Malformed),
{
    match crate::text::spec_find_delim(s, 0) {
        None => {},
        Some(i) => {
            crate::text::lemma_find_delim_found(s, 0);
            match crate::text::spec_find_delim(s, i + 3) {
                None => {},
                Some(j) => {
                    crate::text::lemma_find_delim_found(s, i + 3);
                    assert(delim_at(s, i) && delim_at(s, j) && i + 3 <= j);
                    assert(false);
                },
            }
        },
    }
}

} // verus!
