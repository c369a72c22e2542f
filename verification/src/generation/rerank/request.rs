use vstd::prelude::*;

verus! {

/// A request to order documents by their relevance to a query.
#[derive(Debug)]
pub struct RerankRequest {
    pub model: String,
    pub query: String,
    pub documents: Vec<String>,
    pub top_n: Option<usize>,
}

/// Mathematical value of a [`RerankRequest`].
pub struct RerankRequestView {
    pub model: Seq<char>,
    pub query: Seq<char>,
    pub documents: Seq<Seq<char>>,
    pub top_n: Option<usize>,
}

/// The values of a sequence of documents, in order.
pub open spec fn document_views(documents: Seq<String>) -> Seq<Seq<char>> {
    documents.map_values(|d: String| d@)
}

impl View for RerankRequest {
    type V = RerankRequestView;

    open spec fn view(&self) -> RerankRequestView {
        RerankRequestView {
            model: self.model@,
            query: self.query@,
            documents: document_views(self.documents@),
            top_n: self.top_n,
        }
    }
}

impl Clone for RerankRequest {
    fn clone(&self) -> (r: Self)
        ensures
            r@ == self@,
    {
        let documents = self.documents.clone();
        assert(document_views(documents@) =~= document_views(self.documents@));
        RerankRequest {
            model: self.model.clone(),
            query: self.query.clone(),
            documents,
            top_n: self.top_n,
        }
    }
}

impl RerankRequest {
    /// A request to rank `documents` against `query`, with no limit on how
    /// many are returned.
    pub fn new(model: &str, query: &str, documents: Vec<String>) -> (r: Self)
        ensures
            r@ == (RerankRequestView {
                model: model@,
                query: query@,
                documents: document_views(documents@),
                top_n: None,
            }),
    {
        RerankRequest { model: model.to_owned(), query: query.to_owned(), top_n: None, documents }
    }

    /// A request to rate the one document `documents` against `query`.
    pub fn new_single(model: &str, query: &str, documents: &str) -> (r: Self)
        ensures
            r@ == (RerankRequestView {
                model: model@,
                query: query@,
                documents: seq![documents@],
                top_n: None,
            }),
    {
        let mut list: Vec<String> = Vec::new();
        list.push(documents.to_owned());
        assert(document_views(list@) =~= seq![documents@]);
        RerankRequest { model: model.to_owned(), query: query.to_owned(), top_n: None, documents: list }
    }

    /// Limits the answer to the `n` most relevant documents.
    pub fn top_n(self, n: usize) -> (r: Self)
        ensures
            r@ == (RerankRequestView { top_n: Some(n), ..self@ }),
    {
        let mut this = self;
        this.top_n = Some(n);
        this
    }
}

} // verus!
