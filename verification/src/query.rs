//! The options of a listing of crates.
use vstd::prelude::*;

verus! {

/// Used to specify the sort behaviour of a listing of crates.
#[derive(Debug, Clone, PartialEq, Eq, Structural)]
pub enum Sort {
    /// Sort alphabetically.
    Alphabetical,
    /// Sort by relevance (meaningless if used without a query).
    Relevance,
    /// Sort by downloads.
    Downloads,
    /// Sort by recent downloads.
    RecentDownloads,
    /// Sort by recent updates.
    RecentUpdates,
    /// Sort by new.
    NewlyAdded,
}

/// Options for a listing of crates: pagination, sorting and a query.
#[derive(Clone, Debug)]
pub struct CratesQuery {
    /// Sort order.
    pub(crate) sort: Sort,
    /// Number of items per page.
    pub(crate) per_page: u64,
    /// The page to fetch.
    pub(crate) page: u64,
    /// Filter by owner user id.
    pub(crate) user_id: Option<u64>,
    /// Crates.io category name.
    pub(crate) category: Option<String>,
    /// Search query string.
    pub(crate) search: Option<String>,
}

/// What a [`CratesQuery`] asks for.
pub struct QueryView {
    pub sort: Sort,
    pub per_page: u64,
    pub page: u64,
    pub user_id: Option<u64>,
    pub category: Option<String>,
    pub search: Option<String>,
}

/// The query that nothing was set on: the first thirty crates, the most recently
/// updated first.
pub open spec fn default_query() -> QueryView {
    QueryView {
        sort: Sort::RecentUpdates,
        per_page: 30,
        page: 1,
        user_id: None,
        category: None,
        search: None,
    }
}

/// A query that nothing was set on asks for the first page of thirty crates, the
/// most recently updated first, without a filter.
pub proof fn law_default_query()
    ensures
        default_query().sort == Sort::RecentUpdates,
        default_query().per_page == 30,
        default_query().page == 1,
        default_query().user_id is None,
        default_query().category is None,
        default_query().search is None,
{
}

impl View for CratesQuery {
    type V = QueryView;

    closed spec fn view(&self) -> QueryView {
        QueryView {
            sort: self.sort,
            per_page: self.per_page,
            page: self.page,
            user_id: self.user_id,
            category: self.category,
            search: self.search,
        }
    }
}

impl CratesQuery {
    /// Construct a new [`CratesQueryBuilder`].
    pub fn builder() -> (builder: CratesQueryBuilder)
        ensures
            builder@ == default_query(),
    {
        CratesQueryBuilder::new()
    }

    /// Get a reference to the sort.
    pub fn sort(&self) -> (sort: &Sort)
        ensures
            *sort == self@.sort,
    {
        &self.sort
    }

    /// Set the sort.
    pub fn set_sort(&mut self, sort: Sort)
        ensures
            final(self)@ == (QueryView { sort, ..old(self)@ }),
    {
        self.sort = sort;
    }

    /// Get the page size.
    pub fn page_size(&self) -> (per_page: u64)
        ensures
            per_page == self@.per_page,
    {
        self.per_page
    }

    /// Set the page size.
    pub fn set_page_size(&mut self, per_page: u64)
        ensures
            final(self)@ == (QueryView { per_page, ..old(self)@ }),
    {
        self.per_page = per_page;
    }

    /// Get the page.
    pub fn page(&self) -> (page: u64)
        ensures
            page == self@.page,
    {
        self.page
    }

    /// Set the page.
    pub fn set_page(&mut self, page: u64)
        ensures
            final(self)@ == (QueryView { page, ..old(self)@ }),
    {
        self.page = page;
    }

    /// Get the user id filter.
    pub fn user_id(&self) -> (user_id: Option<u64>)
        ensures
            user_id == self@.user_id,
    {
        self.user_id
    }

    /// Set the user id filter.
    pub fn set_user_id(&mut self, user_id: Option<u64>)
        ensures
            final(self)@ == (QueryView { user_id, ..old(self)@ }),
    {
        self.user_id = user_id;
    }

    /// Get the category filter.
    pub fn category(&self) -> (category: Option<&String>)
        ensures
            match category {
                Some(name) => self@.category == Some(*name),
                None => self@.category is None,
            },
    {
        self.category.as_ref()
    }

    /// Set the category filter.
    pub fn set_category(&mut self, category: Option<String>)
        ensures
            final(self)@ == (QueryView { category, ..old(self)@ }),
    {
        self.category = category;
    }

    /// Get the search query.
    pub fn search(&self) -> (search: Option<&String>)
        ensures
            match search {
                Some(text) => self@.search == Some(*text),
                None => self@.search is None,
            },
    {
        self.search.as_ref()
    }

    /// Set the search query.
    pub fn set_search(&mut self, search: Option<String>)
        ensures
            final(self)@ == (QueryView { search, ..old(self)@ }),
    {
        self.search = search;
    }
}

impl Default for CratesQuery {
    fn default() -> (query: Self)
        ensures
            query@ == default_query(),
    {
        CratesQuery {
            sort: Sort::RecentUpdates,
            per_page: 30,
            page: 1,
            user_id: None,
            category: None,
            search: None,
        }
    }
}

/// Builder for [`CratesQuery`].
///
/// Construct one via [`CratesQuery::builder`], configure it with the
/// chainable setters, and call [`build`](Self::build) to obtain the final
/// [`CratesQuery`].
pub struct CratesQueryBuilder {
    query: CratesQuery,
}

impl View for CratesQueryBuilder {
    type V = QueryView;

    closed spec fn view(&self) -> QueryView {
        self.query@
    }
}

impl CratesQueryBuilder {
    /// Construct a new builder.
    #[must_use]
    pub fn new() -> (builder: Self)
        ensures
            builder@ == default_query(),
    {
        CratesQueryBuilder { query: CratesQuery::default() }
    }

    /// Set the sorting method.
    #[must_use]
    pub fn sort(self, sort: Sort) -> (builder: Self)
        ensures
            builder@ == (QueryView { sort, ..self@ }),
    {
        let mut query = self.query;
        query.sort = sort;
        CratesQueryBuilder { query }
    }

    /// Set the page size.
    #[must_use]
    pub fn page_size(self, size: u64) -> (builder: Self)
        ensures
            builder@ == (QueryView { per_page: size, ..self@ }),
    {
        let mut query = self.query;
        query.per_page = size;
        CratesQueryBuilder { query }
    }

    /// Filter by a user id.
    #[must_use]
    pub fn user_id(self, user_id: u64) -> (builder: Self)
        ensures
            builder@ == (QueryView { user_id: Some(user_id), ..self@ }),
    {
        let mut query = self.query;
        query.user_id = Some(user_id);
        CratesQueryBuilder { query }
    }

    /// Filter by a crates.io category name.
    #[must_use]
    pub fn category<T: Into<String>>(self, category: T) -> (builder: Self)
        ensures
            builder@.category matches Some(name) && call_ensures(T::into, (category,), name),
            builder@ == (QueryView { category: builder@.category, ..self@ }),
    {
        let mut query = self.query;
        query.category = Some(category.into());
        CratesQueryBuilder { query }
    }

    /// Filter by a search term.
    #[must_use]
    pub fn search<T: Into<String>>(self, search: T) -> (builder: Self)
        ensures
            builder@.search matches Some(text) && call_ensures(T::into, (search,), text),
            builder@ == (QueryView { search: builder@.search, ..self@ }),
    {
        let mut query = self.query;
        query.search = Some(search.into());
        CratesQueryBuilder { query }
    }

    /// Finalise the builder.
    #[must_use]
    pub fn build(self) -> (query: CratesQuery)
        ensures
            query@ == self@,
    {
        self.query
    }
}

impl Default for CratesQueryBuilder {
    fn default() -> (builder: Self)
        ensures
            builder@ == default_query(),
    {
        CratesQueryBuilder::new()
    }
}

} // verus!
