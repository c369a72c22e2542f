use vstd::prelude::*;
use vstd::std_specs::convert::FromSpecImpl;
use vstd::std_specs::iter::IteratorSpec;

verus! {

/// What is to be embedded: one text or several.
#[derive(Debug)]
pub enum EmbedInput {
    Single(String),
    Multiple(Vec<String>),
}

/// The values of a sequence of texts, in order.
pub open spec fn text_views(texts: Seq<String>) -> Seq<Seq<char>> {
    texts.map_values(|t: String| t@)
}

/// The values of a sequence of batches, in order.
pub open spec fn batch_views(batches: Seq<Vec<String>>) -> Seq<Seq<Seq<char>>> {
    batches.map_values(|b: Vec<String>| text_views(b@))
}

impl Clone for EmbedInput {
    fn clone(&self) -> (r: Self)
        ensures
            r.texts() == self.texts(),
            r is Single <==> self is Single,
    {
        match self {
            EmbedInput::Single(text) => EmbedInput::Single(text.clone()),
            EmbedInput::Multiple(texts) => {
                let copy = texts.clone();
                assert(text_views(copy@) =~= text_views(texts@));
                EmbedInput::Multiple(copy)
            },
        }
    }
}

impl EmbedInput {
    /// The texts of this input, in order.
    pub open spec fn texts(self) -> Seq<Seq<char>> {
        match self {
            EmbedInput::Single(text) => seq![text@],
            EmbedInput::Multiple(texts) => text_views(texts@),
        }
    }

    /// The texts of this input, in order.
    pub fn into_vec(self) -> (r: Vec<String>)
        ensures
            text_views(r@) == self.texts(),
    {
        match self {
            EmbedInput::Single(text) => {
                let mut r: Vec<String> = Vec::new();
                r.push(text);
                assert(text_views(r@) =~= seq![text@]);
                r
            },
            EmbedInput::Multiple(texts) => texts,
        }
    }
}

impl From<String> for EmbedInput {
    fn from(value: String) -> (r: Self) {
        EmbedInput::Single(value)
    }
}

impl FromSpecImpl<String> for EmbedInput {
    open spec fn obeys_from_spec() -> bool {
        true
    }

    open spec fn from_spec(value: String) -> Self {
        EmbedInput::Single(value)
    }
}

/// How many requests it takes to send `len` texts with at most `size` in each.
pub open spec fn batch_count(len: int, size: int) -> int {
    (len + size - 1) / size
}

/// The texts that go into request number `k`, counted from 0, when at most
/// `size` go into each: the next `size` texts, or those that are left.
pub open spec fn batch_at(texts: Seq<Seq<char>>, size: int, k: int) -> Seq<Seq<char>> {
    texts.subrange(
        k * size,
        if (k + 1) * size <= texts.len() {
            (k + 1) * size
        } else {
            texts.len() as int
        },
    )
}

proof fn lemma_next_batch(k: int, size: int)
    ensures
        (k + 1) * size == k * size + size,
{
    assert((k + 1) * size == k * size + size) by (nonlinear_arith);
}

proof fn lemma_batch_count(len: int, size: int, k: int)
    requires
        size > 0,
        len >= 0,
        k >= 0,
        k * size >= len,
        k > 0 ==> (k - 1) * size < len,
    ensures
        k == batch_count(len, size),
{
    if k == 0 {
        assert((len + size - 1) / size == 0) by (nonlinear_arith)
            requires
                len == 0,
                size > 0,
        ;
    } else {
        lemma_next_batch(k - 1, size);
        assert((len + size - 1) / size == k) by (nonlinear_arith)
            requires
                size > 0,
                k * size <= len + size - 1,
                len + size - 1 < k * size + size,
        ;
    }
}

impl EmbedInput {
    /// Splits the input into the batches in which it is sent when at most
    /// `chunk_size` texts go into one request: a single text is a batch of
    /// its own; several texts are cut, in order, into batches of `chunk_size`,
    /// the last one holding what is left.
    pub fn chunks(&self, chunk_size: usize) -> (r: Vec<Vec<String>>)
        requires
            self is Multiple ==> chunk_size > 0,
        ensures
            match *self {
                EmbedInput::Single(text) => batch_views(r@) == seq![seq![text@]],
                EmbedInput::Multiple(texts) => {
                    &&& r@.len() == batch_count(texts@.len() as int, chunk_size as int)
                    &&& forall|k: int|
                        0 <= k < r@.len() ==> #[trigger] batch_views(r@)[k] == batch_at(
                            text_views(texts@),
                            chunk_size as int,
                            k,
                        )
                },
            },
    {
        let mut out: Vec<Vec<String>> = Vec::new();
        match self {
            EmbedInput::Single(text) => {
                let mut only: Vec<String> = Vec::new();
                only.push(text.clone());
                assert(text_views(only@) =~= seq![text@]);
                out.push(only);
                assert(batch_views(out@)[0] == text_views(only@));
                assert(batch_views(out@) =~= seq![seq![text@]]);
            },
            EmbedInput::Multiple(texts) => {
                let n: usize = texts.len();
                let mut start: usize = 0;
                while start < n
                    invariant
                        chunk_size > 0,
                        n == texts@.len(),
                        start <= n,
                        start == if out@.len() * chunk_size <= n {
                            out@.len() * chunk_size
                        } else {
                            n as int
                        },
                        out@.len() > 0 ==> (out@.len() - 1) * chunk_size < n,
                        forall|k: int|
                            0 <= k < out@.len() ==> #[trigger] batch_views(out@)[k] == batch_at(
                                text_views(texts@),
                                chunk_size as int,
                                k,
                            ),
                    decreases n - start,
                {
                    let end: usize = if chunk_size >= n - start {
                        n
                    } else {
                        start + chunk_size
                    };
                    let mut batch: Vec<String> = Vec::new();
                    let mut i: usize = start;
                    while i < end
                        invariant
                            start <= i <= end <= n,
                            n == texts@.len(),
                            text_views(batch@) == text_views(texts@).subrange(
                                start as int,
                                i as int,
                            ),
                        decreases end - i,
                    {
                        let ghost before = text_views(batch@);
                        batch.push(texts[i].clone());
                        assert(text_views(batch@) =~= before.push(texts@[i as int]@));
                        assert(text_views(texts@).subrange(start as int, i + 1) =~= text_views(
                            texts@,
                        ).subrange(start as int, i as int).push(texts@[i as int]@));
                        i = i + 1;
                    }
                    let ghost k = out@.len() as int;
                    let ghost done = batch_views(out@);
                    proof {
                        lemma_next_batch(k, chunk_size as int);
                        assert(start == k * chunk_size);
                        assert(text_views(batch@) == batch_at(
                            text_views(texts@),
                            chunk_size as int,
                            k,
                        ));
                    }
                    out.push(batch);
                    proof {
                        assert(batch_views(out@) =~= done.push(text_views(batch@)));
                        lemma_next_batch(k, chunk_size as int);
                    }
                    start = end;
                }
                proof {
                    lemma_batch_count(n as int, chunk_size as int, out@.len() as int);
                }
            },
        }
        out
    }
}

impl IntoIterator for EmbedInput {
    type Item = String;

    type IntoIter = std::vec::IntoIter<String>;

    /// Hands out the texts of this input, in order.
    fn into_iter(self) -> (r: std::vec::IntoIter<String>)
        ensures
            text_views(r.remaining()) == self.texts(),
    {
        let texts = self.into_vec();
        proof {
            vstd::std_specs::vec::axiom_spec_into_iter(texts);
        }
        texts.into_iter()
    }
}

impl<'a> From<&'a str> for EmbedInput {
    fn from(value: &'a str) -> (r: Self)
        ensures
            r.texts() == seq![value@],
    {
        EmbedInput::Single(value.to_owned())
    }
}

impl<'a> FromSpecImpl<&'a str> for EmbedInput {
    open spec fn obeys_from_spec() -> bool {
        false
    }

    open spec fn from_spec(value: &'a str) -> Self {
        arbitrary()
    }
}

impl From<Vec<String>> for EmbedInput {
    fn from(value: Vec<String>) -> (r: Self) {
        EmbedInput::Multiple(value)
    }
}

impl FromSpecImpl<Vec<String>> for EmbedInput {
    open spec fn obeys_from_spec() -> bool {
        true
    }

    open spec fn from_spec(value: Vec<String>) -> Self {
        EmbedInput::Multiple(value)
    }
}

} // verus!
