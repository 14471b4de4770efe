//! Cursor-paginated retrieval as a state machine: the caller performs each
//! page request and hands the response back; the machine decides what to ask
//! next and what has been gathered.

use crate::params::{
    normalize_path, normalized_path, page_params, param_views, processed, text_of, Page, PageView,
    Param, ParamBag, ParamBagView,
};
use vstd::prelude::*;

verus! {

/// Why a retrieval was given up.
#[derive(Debug)]
pub enum FetchError {
    /// A page request failed; the text is the transport's account of it.
    Transport(String),
}

impl FetchError {
    /// What the error says.
    pub fn message(&self) -> (r: String)
        ensures
            r@ == self->Transport_0@,
    {
        match self {
            FetchError::Transport(reason) => reason.clone(),
        }
    }
}

/// One request of the paged listing: the path to list and the cursor of the
/// page wanted, absent for the first page.
#[derive(Debug)]
pub struct PageRequest {
    pub path: String,
    pub next_token: Option<String>,
}

impl View for PageRequest {
    type V = (Seq<char>, Option<Seq<char>>);

    open spec fn view(&self) -> (Seq<char>, Option<Seq<char>>) {
        (self.path@, text_of(self.next_token))
    }
}

/// A retrieval in progress.
#[derive(Debug)]
pub enum FetchState {
    /// Nothing has been asked yet.
    Empty { prefix: String },
    /// At least one page has arrived and the last one named a further page.
    HasCursor { prefix: String, params: Vec<Param>, cursor: String },
    /// The last page arrived; nothing is left to ask.
    Done { prefix: String, params: Vec<Param> },
}

/// A `FetchState` as mathematical values.
pub enum FetchStateView {
    Empty { prefix: Seq<char> },
    HasCursor { prefix: Seq<char>, params: Seq<(Seq<char>, Seq<char>)>, cursor: Seq<char> },
    Done { prefix: Seq<char>, params: Seq<(Seq<char>, Seq<char>)> },
}

impl FetchStateView {
    /// The bag that the state stands for.
    pub open spec fn bag(self) -> ParamBagView {
        match self {
            FetchStateView::Empty { prefix } => ParamBagView {
                prefix,
                params: Seq::empty(),
                next: None,
            },
            FetchStateView::HasCursor { prefix, params, cursor } => ParamBagView {
                prefix,
                params,
                next: Some(cursor),
            },
            FetchStateView::Done { prefix, params } => ParamBagView { prefix, params, next: None },
        }
    }

    /// The state that a bag is in once a page has been taken into it.
    pub open spec fn after_page(bag: ParamBagView) -> FetchStateView {
        match bag.next {
            Some(cursor) => FetchStateView::HasCursor {
                prefix: bag.prefix,
                params: bag.params,
                cursor,
            },
            None => FetchStateView::Done { prefix: bag.prefix, params: bag.params },
        }
    }

    /// The request to make in this state: the prefix with the cursor held,
    /// or none when the retrieval is done.
    pub open spec fn request(self) -> Option<(Seq<char>, Option<Seq<char>>)> {
        match self {
            FetchStateView::Done { .. } => None,
            _ => Some((self.bag().prefix, self.bag().next)),
        }
    }

    /// The state after the page `page` has arrived. A finished retrieval
    /// stays as it is.
    pub open spec fn received(self, page: PageView) -> FetchStateView {
        match self {
            FetchStateView::Done { .. } => self,
            _ => Self::after_page(processed(self.bag(), page)),
        }
    }
}

impl View for FetchState {
    type V = FetchStateView;

    open spec fn view(&self) -> FetchStateView {
        match *self {
            FetchState::Empty { prefix } => FetchStateView::Empty { prefix: prefix@ },
            FetchState::HasCursor { prefix, params, cursor } => FetchStateView::HasCursor {
                prefix: prefix@,
                params: param_views(params@),
                cursor: cursor@,
            },
            FetchState::Done { prefix, params } => FetchStateView::Done {
                prefix: prefix@,
                params: param_views(params@),
            },
        }
    }
}

impl FetchState {
    /// The start of a retrieval under `path`, which is rooted first.
    pub fn new(path: &str) -> (r: FetchState)
        ensures
            r@ == (FetchStateView::Empty { prefix: normalized_path(path@) }),
            r@.bag().is_rooted(),
    {
        FetchState::Empty { prefix: normalize_path(path) }
    }

    /// Whether the last page has arrived.
    pub fn is_done(&self) -> (r: bool)
        ensures
            r == (self@ is Done),
    {
        match self {
            FetchState::Done { .. } => true,
            _ => false,
        }
    }

    /// The page request to make next, if any.
    pub fn request(&self) -> (r: Option<PageRequest>)
        ensures
            match r {
                Some(request) => self@.request() == Some(request@),
                None => self@.request() is None,
            },
    {
        match self {
            FetchState::Empty { prefix } => Some(
                PageRequest { path: prefix.clone(), next_token: None },
            ),
            FetchState::HasCursor { prefix, params: _, cursor } => Some(
                PageRequest { path: prefix.clone(), next_token: Some(cursor.clone()) },
            ),
            FetchState::Done { .. } => None,
        }
    }

    /// The bag that the state stands for.
    pub fn into_bag(self) -> (r: ParamBag)
        ensures
            r@ == self@.bag(),
    {
        match self {
            FetchState::Empty { prefix } => {
                let r = ParamBag { prefix, params: Vec::new(), next: None };
                assert(r@.params =~= Seq::empty());
                r
            },
            FetchState::HasCursor { prefix, params, cursor } => ParamBag {
                prefix,
                params,
                next: Some(cursor),
            },
            FetchState::Done { prefix, params } => ParamBag { prefix, params, next: None },
        }
    }

    /// Takes the response to the last request. A failure ends the retrieval
    /// with an error and nothing of what was gathered; a page is taken into
    /// the bag, and the retrieval is done when the page names no further one.
    pub fn receive(self, response: Result<Page, String>) -> (r: Result<FetchState, FetchError>)
        ensures
            match response {
                Ok(page) => r is Ok && r->Ok_0@ == self@.received(page@),
                Err(reason) => r is Err && r->Err_0 == FetchError::Transport(reason),
            },
            r is Ok && self@.bag().is_rooted() ==> r->Ok_0@.bag().is_rooted(),
    {
        match response {
            Err(reason) => Err(FetchError::Transport(reason)),
            Ok(page) => {
                if self.is_done() {
                    Ok(self)
                } else {
                    let bag = self.into_bag().process(&page);
                    match bag.next {
                        Some(cursor) => Ok(
                            FetchState::HasCursor {
                                prefix: bag.prefix,
                                params: bag.params,
                                cursor,
                            },
                        ),
                        None => Ok(FetchState::Done { prefix: bag.prefix, params: bag.params }),
                    }
                }
            },
        }
    }
}

/// The parameters that the pages `pages` contribute, page after page.
pub open spec fn all_page_params(pages: Seq<PageView>) -> Seq<(Seq<char>, Seq<char>)>
    decreases pages.len(),
{
    if pages.len() == 0 {
        Seq::empty()
    } else {
        page_params(pages[0].entries) + all_page_params(pages.drop_first())
    }
}

impl FetchStateView {
    /// The state after the pages `pages` have arrived one after the other.
    pub open spec fn received_all(self, pages: Seq<PageView>) -> FetchStateView
        decreases pages.len(),
    {
        if pages.len() == 0 {
            self
        } else {
            self.received(pages[0]).received_all(pages.drop_first())
        }
    }
}

/// Against a source whose page names no further page, a retrieval is over
/// after that one page: the state is done, asks for nothing more, and holds
/// what it held before followed by the page's parameters.
pub proof fn fetch_ends_after_page_without_cursor(state: FetchStateView, page: PageView)
    requires
        !(state is Done),
        page.next_token is None,
    ensures
        state.received(page) == (FetchStateView::Done {
            prefix: state.bag().prefix,
            params: state.bag().params + page_params(page.entries),
        }),
        state.received(page).request() is None,
{
}

/// A page that names a further page keeps the retrieval going: the next
/// request asks for that page under the same prefix.
pub proof fn fetch_follows_cursor(state: FetchStateView, page: PageView)
    requires
        !(state is Done),
        page.next_token is Some,
    ensures
        state.received(page).request() == Some((state.bag().prefix, page.next_token)),
        state.received(page).bag().params == state.bag().params + page_params(page.entries),
{
}

/// The prefix of a retrieval stays as it was at the start, whatever
/// arrives, and so stays rooted.
pub proof fn fetch_keeps_prefix(state: FetchStateView, pages: Seq<PageView>)
    ensures
        state.received_all(pages).bag().prefix == state.bag().prefix,
        state.bag().is_rooted() ==> state.received_all(pages).bag().is_rooted(),
    decreases pages.len(),
{
    if pages.len() > 0 {
        fetch_keeps_prefix(state.received(pages[0]), pages.drop_first());
    }
}

/// Nothing that arrives after the last page changes what was gathered.
pub proof fn fetch_done_is_final(state: FetchStateView, pages: Seq<PageView>)
    requires
        state is Done,
    ensures
        state.received_all(pages) == state,
    decreases pages.len(),
{
    if pages.len() > 0 {
        fetch_done_is_final(state, pages.drop_first());
    }
}

/// A run of pages of which only the last names no further page ends done,
/// with every page's parameters behind those held at the start, in the
/// order of arrival.
pub proof fn fetch_accumulates_in_arrival_order(state: FetchStateView, pages: Seq<PageView>)
    requires
        !(state is Done),
        pages.len() > 0,
        forall|i: int| 0 <= i < pages.len() - 1 ==> (#[trigger] pages[i]).next_token is Some,
        pages.last().next_token is None,
    ensures
        state.received_all(pages) == (FetchStateView::Done {
            prefix: state.bag().prefix,
            params: state.bag().params + all_page_params(pages),
        }),
    decreases pages.len(),
{
    let rest = pages.drop_first();
    let next = state.received(pages[0]);
    if pages.len() == 1 {
        assert(rest.len() == 0);
        assert(all_page_params(rest) =~= Seq::empty());
        assert(all_page_params(pages) =~= page_params(pages[0].entries));
        assert(next.received_all(rest) == next);
    } else {
        assert(pages[0].next_token is Some);
        assert forall|i: int| 0 <= i < rest.len() - 1 implies (#[trigger] rest[i]).next_token
            is Some by {
            assert(rest[i] == pages[i + 1]);
        }
        assert(rest.last() == pages.last());
        fetch_accumulates_in_arrival_order(next, rest);
        assert(next.bag().params + all_page_params(rest) =~= state.bag().params + all_page_params(
            pages,
        ));
    }
}

} // verus!
