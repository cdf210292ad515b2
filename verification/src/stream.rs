//! The stream of crates that match a query.
use std::collections::VecDeque;
use vstd::prelude::*;

use crate::async_client::{Client, ClientView};
use crate::error::Error;
use crate::query::{CratesQuery, QueryView};
use crate::types::{Crate, CratesPage};

verus! {

/// A stream of crates matching a [`CratesQuery`], without the connection: the
/// pages that it asks for are fetched elsewhere and brought to it.
///
/// Crate enumeration is not available via the sparse registry index, so no page
/// is ever fetched for it and it yields no item.
pub struct CrateStream {
    client: Client,
    filter: CratesQuery,
    closed: bool,
    items: VecDeque<Crate>,
}

/// The state of a [`CrateStream`].
#[verifier::ext_equal]
pub struct CrateStreamView {
    /// The client that the stream belongs to.
    pub client: ClientView,
    /// What the stream is asked for.
    pub filter: QueryView,
    /// Whether the stream has ended.
    pub closed: bool,
    /// The crates that were fetched and not yet handed out.
    pub items: Seq<Crate>,
}

/// What became of the page that is being fetched.
pub enum PageFetch {
    /// No page is being fetched.
    Idle,
    /// The page is not there yet.
    Pending,
    /// The page is there, or the fetch failed.
    Ready(Result<CratesPage, Error>),
}

/// What the stream answers when it is polled.
pub enum StreamPoll {
    /// Nothing yet.
    Pending,
    /// The stream has ended.
    End,
    /// The next crate.
    Item(Crate),
    /// The error that ends the stream.
    Failed(Error),
}

/// Whether the stream needs a page to answer.
pub open spec fn needs_page(state: CrateStreamView) -> bool {
    !state.closed && state.items.len() == 0
}

/// What the stream answers, and its state afterwards.
pub open spec fn poll_of(state: CrateStreamView, page: PageFetch) -> (StreamPoll, CrateStreamView) {
    if state.closed {
        (StreamPoll::End, state)
    } else if state.items.len() > 0 {
        (
            StreamPoll::Item(state.items[0]),
            CrateStreamView { items: state.items.drop_first(), ..state },
        )
    } else {
        match page {
            PageFetch::Idle => (StreamPoll::End, CrateStreamView { closed: true, ..state }),
            PageFetch::Pending => (StreamPoll::Pending, state),
            PageFetch::Ready(Err(error)) => (
                StreamPoll::Failed(error),
                CrateStreamView { closed: true, ..state },
            ),
            PageFetch::Ready(Ok(page)) => if page.crates@.len() == 0 {
                (StreamPoll::End, CrateStreamView { closed: true, ..state })
            } else {
                (
                    StreamPoll::Item(page.crates@[0]),
                    CrateStreamView { items: page.crates@.drop_first(), ..state },
                )
            },
        }
    }
}

impl View for CrateStream {
    type V = CrateStreamView;

    closed spec fn view(&self) -> CrateStreamView {
        CrateStreamView {
            client: self.client@,
            filter: self.filter@,
            closed: self.closed,
            items: self.items@,
        }
    }
}

impl CrateStream {
    /// A stream from which nothing was taken yet.
    pub fn new(client: Client, filter: CratesQuery) -> (stream: Self)
        ensures
            stream@ == (CrateStreamView {
                client: client@,
                filter: filter@,
                closed: false,
                items: Seq::empty(),
            }),
    {
        CrateStream { client, filter, closed: false, items: VecDeque::new() }
    }

    /// Whether the stream needs a page to answer: only then is the outcome of a
    /// fetch looked at.
    pub fn wants_page(&self) -> (yes: bool)
        ensures
            yes == needs_page(self@),
    {
        !self.closed && self.items.len() == 0
    }

    /// Poll the stream, with what became of the page that is being fetched.
    pub fn poll_next(&mut self, page: PageFetch) -> (answer: StreamPoll)
        ensures
            (answer, final(self)@) == poll_of(old(self)@, page),
    {
        if self.closed {
            return StreamPoll::End;
        }
        if let Some(item) = self.items.pop_front() {
            assert(self.items@ =~= old(self).items@.drop_first());
            return StreamPoll::Item(item);
        }
        match page {
            PageFetch::Idle => {
                self.closed = true;
                StreamPoll::End
            },
            PageFetch::Pending => StreamPoll::Pending,
            PageFetch::Ready(Err(error)) => {
                self.closed = true;
                StreamPoll::Failed(error)
            },
            PageFetch::Ready(Ok(page)) => {
                let mut crates = page.crates;
                let ghost all = crates@;
                if crates.len() == 0 {
                    self.closed = true;
                    return StreamPoll::End;
                }
                while crates.len() > 1
                    invariant
                        1 <= crates@.len() <= all.len(),
                        crates@ == all.take(crates@.len() as int),
                        self.items@ == all.skip(crates@.len() as int),
                        self.client == old(self).client,
                        self.filter == old(self).filter,
                        !self.closed,
                    decreases crates@.len(),
                {
                    let ghost count = crates@.len();
                    if let Some(item) = crates.pop() {
                        self.items.push_front(item);
                        assert(self.items@ =~= all.skip(count - 1));
                    }
                }
                let first = crates.remove(0);
                assert(self.items@ =~= all.drop_first());
                StreamPoll::Item(first)
            },
        }
    }
}

/// What the stream answers: the end once it has ended; the next of the crates at
/// hand, whatever was fetched; and without one at hand what the fetch brought.
/// The first crate of a page is the answer and the others are kept; an empty
/// page, an error and the lack of a fetch end the stream; and a page that is not
/// there yet changes nothing. The client and the query stay as they are.
pub proof fn law_poll(
    state: CrateStreamView,
    page: PageFetch,
    answer: StreamPoll,
    after: CrateStreamView,
)
    requires
        (answer, after) == poll_of(state, page),
    ensures
        after.client == state.client && after.filter == state.filter,
        state.closed ==> answer is End && after == state,
        !state.closed && state.items.len() > 0 ==> !after.closed && (answer matches StreamPoll::Item(
            item,
        ) && seq![item] + after.items == state.items),
        !state.closed && state.items.len() == 0 ==> match page {
            PageFetch::Idle => answer is End && after.closed && after.items.len() == 0,
            PageFetch::Pending => answer is Pending && after == state,
            PageFetch::Ready(Err(error)) => answer == StreamPoll::Failed(error) && after.closed
                && after.items.len() == 0,
            PageFetch::Ready(Ok(page)) => {
                &&& page.crates@.len() == 0 ==> answer is End && after.closed && after.items.len()
                    == 0
                &&& page.crates@.len() > 0 ==> !after.closed && (answer matches StreamPoll::Item(
                    item,
                ) && seq![item] + after.items == page.crates@)
            },
        },
        needs_page(state) == (!state.closed && state.items.len() == 0),
{
    if !state.closed && state.items.len() > 0 {
        assert(seq![state.items[0]] + state.items.drop_first() =~= state.items);
    } else if let PageFetch::Ready(Ok(page)) = page {
        if page.crates@.len() > 0 {
            assert(seq![page.crates@[0]] + page.crates@.drop_first() =~= page.crates@);
        }
    }
}

/// A stream that has ended stays so, whatever is brought to it.
pub proof fn law_ended_stream_stays_ended(state: CrateStreamView, page: PageFetch)
    requires
        state.closed,
    ensures
        poll_of(state, page) == (StreamPoll::End, state),
{
}

/// A stream that nothing is fetched for ends without an item: its first answer
/// is the end.
pub proof fn law_stream_without_pages_is_empty(state: CrateStreamView)
    requires
        needs_page(state),
    ensures
        poll_of(state, PageFetch::Idle) == (
            StreamPoll::End,
            (CrateStreamView { closed: true, ..state }),
        ),
{
}

/// The state of a stream that was polled `count` times with no page at hand.
pub open spec fn polled(state: CrateStreamView, count: nat) -> CrateStreamView
    decreases count,
{
    if count == 0 {
        state
    } else {
        poll_of(polled(state, (count - 1) as nat), PageFetch::Idle).1
    }
}

/// The crates of a page are handed out one after the other in the order of the
/// page, and the stream wants a page again once all are.
pub proof fn law_page_is_handed_out_in_order(state: CrateStreamView, page: CratesPage, k: nat)
    requires
        needs_page(state),
        k < page.crates@.len(),
    ensures
        ({
            let (first, after) = poll_of(state, PageFetch::Ready(Ok(page)));
            &&& first == StreamPoll::Item(page.crates@[0])
            &&& k > 0 ==> poll_of(polled(after, (k - 1) as nat), PageFetch::Idle).0
                == StreamPoll::Item(page.crates@[k as int])
            &&& needs_page(polled(after, (page.crates@.len() - 1) as nat))
        }),
{
    let after = poll_of(state, PageFetch::Ready(Ok(page))).1;
    lemma_polled(after, (page.crates@.len() - 1) as nat);
    if k > 0 {
        lemma_polled(after, (k - 1) as nat);
    }
}

proof fn lemma_polled(state: CrateStreamView, count: nat)
    requires
        !state.closed,
        count <= state.items.len(),
    ensures
        polled(state, count) == (CrateStreamView { items: state.items.skip(count as int), ..state }),
    decreases count,
{
    if count > 0 {
        let earlier = (count - 1) as nat;
        lemma_polled(state, earlier);
        assert(state.items.skip(earlier as int).drop_first() =~= state.items.skip(count as int));
    } else {
        assert(state.items.skip(0) =~= state.items);
    }
}

} // verus!
