//! The directory loader's decision core: given the files of a source
//! directory — already read into memory — decode every eligible one, in
//! order, all-or-nothing: the first failure aborts the whole load and no
//! partial list survives.

use crate::article::{err_matches, spec_decode, Article, ArticleConfig, ArticleView, DecodeErr};
use vstd::prelude::*;

verus! {

/// A directory entry handed to the loader: a file's name and its text.
pub struct SourceDoc {
    pub name: String,
    pub content: String,
}

impl View for SourceDoc {
    type V = (Seq<char>, Seq<char>);

    open spec fn view(&self) -> (Seq<char>, Seq<char>) {
        (self.name@, self.content@)
    }
}

/// The ghost value of a document list.
pub open spec fn docs_view(docs: Seq<SourceDoc>) -> Seq<(Seq<char>, Seq<char>)> {
    Seq::new(docs.len(), |i: int| docs[i]@)
}

/// A file name that marks a source document: it ends in `.md`.
pub open spec fn spec_is_source_name(name: Seq<char>) -> bool {
    name.len() >= 3 && name[name.len() - 3] == '.' && name[name.len() - 2] == 'm' && name[name.len()
        - 1] == 'd'
}

/// Whether a file name marks a source document.
pub fn is_source_name(name: &str) -> (r: bool)
    ensures
        r == spec_is_source_name(name@),
{
    let n = name.unicode_len();
    if n < 3 {
        return false;
    }
    name.get_char(n - 3) == '.' && name.get_char(n - 2) == 'm' && name.get_char(n - 1) == 'd'
}

/// The all-or-nothing load: the articles decoded from every eligible
/// document in order, or the first document's failure.
pub open spec fn spec_load(
    docs: Seq<(Seq<char>, Seq<char>)>,
    default_author: Seq<char>,
    zone: Seq<char>,
) -> Result<Seq<ArticleView>, DecodeErr>
    decreases docs.len(),
{
    if docs.len() == 0 {
        Ok(Seq::empty())
    } else if !spec_is_source_name(docs[0].0) {
        spec_load(docs.drop_first(), default_author, zone)
    } else {
        match spec_decode(docs[0].1, default_author, zone) {
            Err(k) => Err(k),
            Ok(v) => match spec_load(docs.drop_first(), default_author, zone) {
                Err(k) => Err(k),
                Ok(rest) => Ok(seq![v] + rest),
            },
        }
    }
}

/// Decodes every eligible document of a directory listing into an article,
/// keeping the listing's order. The first decode failure aborts the load and
/// is the result: no partial list is returned.
pub fn from_documents(docs: &Vec<SourceDoc>, config: &ArticleConfig) -> (r: Result<
    Vec<Article>,
    crate::errors::ArticleError,
>)
    requires
        config.wf(),
    ensures
        (match spec_load(docs_view(docs@), config.default_author@, config.timezone.name@) {
            Ok(vs) => r matches Ok(arts) && arts@.len() == vs.len() && (forall|i: int|
                0 <= i < vs.len() ==> (#[trigger] arts@[i])@ == vs[i] && arts@[i].wf()),
            Err(k) => r matches Err(e) && err_matches(e, k),
        }),
{
    let ghost all = docs_view(docs@);
    let mut out: Vec<Article> = Vec::new();
    let mut i: usize = 0;
    proof {
        assert(all.subrange(0, all.len() as int) =~= all);
    }
    while i < docs.len()
        invariant
            0 <= i <= docs.len(),
            all == docs_view(docs@),
            all.len() == docs.len(),
            config.wf(),
            forall|k: int| 0 <= k < out@.len() ==> (#[trigger] out@[k]).wf(),
            ({
                let tail = spec_load(
                    all.subrange(i as int, all.len() as int),
                    config.default_author@,
                    config.timezone.name@,
                );
                let whole = spec_load(all, config.default_author@, config.timezone.name@);
                match tail {
                    Err(k) => whole == Err::<Seq<ArticleView>, DecodeErr>(k),
                    Ok(rest) => whole == Ok::<Seq<ArticleView>, DecodeErr>(
                        Seq::new(out@.len(), |k: int| out@[k]@) + rest,
                    ),
                }
            }),
        decreases docs.len() - i,
    {
        let ghost rest = all.subrange(i as int, all.len() as int);
        proof {
            assert(rest[0] == all[i as int]);
            assert(all[i as int] == docs@[i as int]@);
            assert(rest.drop_first() =~= all.subrange(i + 1, all.len() as int));
        }
        let doc = &docs[i];
        if is_source_name(doc.name.as_str()) {
            match Article::decode(doc.content.as_str(), config) {
                Err(e) => {
                    return Err(e);
                },
                Ok(a) => {
                    let ghost before = Seq::new(out@.len(), |k: int| out@[k]@);
                    let ghost av = a@;
                    out.push(a);
                    proof {
                        assert(Seq::new(out@.len(), |k: int| out@[k]@) =~= before + seq![av]);
                        let tail2 = spec_load(
                            all.subrange(i + 1, all.len() as int),
                            config.default_author@,
                            config.timezone.name@,
                        );
                        if tail2 is Ok {
                            assert((before + seq![av]) + tail2->Ok_0 =~= before + (seq![av]
                                + tail2->Ok_0));
                        }
                    }
                },
            }
        }
        i = i + 1;
    }
    proof {
        assert(all.subrange(all.len() as int, all.len() as int) =~= Seq::<
            (Seq<char>, Seq<char>),
        >::empty());
        assert(Seq::new(out@.len(), |k: int| out@[k]@) + Seq::<ArticleView>::empty() =~= Seq::new(
            out@.len(),
            |k: int| out@[k]@,
        ));
    }
    Ok(out)
}

/// The all-or-nothing policy: if any eligible document of the listing fails
/// to decode, the whole load fails — no articles are returned.
pub proof fn lemma_load_all_or_nothing(
    docs: Seq<(Seq<char>, Seq<char>)>,
    default_author: Seq<char>,
    zone: Seq<char>,
    i: int,
)
    requires
        0 <= i < docs.len(),
        spec_is_source_name(docs[i].0),
        (spec_decode(docs[i].1, default_author, zone) is Err),
    ensures
        (spec_load(docs, default_author, zone) is Err),
    decreases docs.len(),
{
    if i > 0 {
        let rest = docs.drop_first();
        assert(rest[i - 1] == docs[i]);
        lemma_load_all_or_nothing(rest, default_author, zone, i - 1);
    }
}

} // verus!
