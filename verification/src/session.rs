//! One query for the catalog, from the look into the cache to the answer.
//!
//! The session decides; its caller acts. Each outcome of an action comes
//! back as an event, and the session answers with the next action.

use vstd::prelude::*;
use crate::builder::{
    BuilderModel, CatalogBuilder, abandoned, accepted, complete, names_of, started,
};
use crate::model::{Catalog, FilterModel, filter_models};
use crate::text::texts;

verus! {

/// What happened outside.
#[derive(Clone, Debug, PartialEq, Eq)]
pub enum Event {
    /// The cache was read: the stored catalog, if there is one.
    CacheRead(Option<String>),
    /// The engine gave its filter listing.
    Listing(String),
    /// The engine gave the detail report of the filter at an index.
    Detail(usize, String),
    /// The detail report of the filter at an index could not be had.
    DetailFailed(usize),
    /// The catalog was serialized.
    Encoded(String),
}

/// What is to be done outside.
#[derive(Clone, Debug, PartialEq, Eq)]
pub enum Action {
    /// Nothing: the session waits for further events.
    Wait,
    /// Ask the engine for its filter listing.
    FetchListing,
    /// Ask the engine for the detail report of each named filter; the
    /// report for the name at an index comes back under that index.
    FetchDetails(Vec<String>),
    /// Serialize the catalog.
    Encode(Catalog),
    /// Write the text to the cache, then answer the query with it.
    StoreAndReturn(String),
    /// Answer the query with the text.
    Return(String),
}

/// Where a query stands.
#[derive(Debug)]
pub enum Session {
    /// The cache is being read.
    AwaitCache,
    /// The cache was empty; the listing is being fetched.
    AwaitListing,
    /// The listing was read; detail reports are coming in.
    AwaitDetails(CatalogBuilder),
    /// The catalog is built and is being serialized.
    AwaitEncoding,
    /// The query is answered.
    Done,
}

/// What an `Event` holds.
pub enum EventModel {
    CacheRead(Option<Seq<char>>),
    Listing(Seq<char>),
    Detail(int, Seq<char>),
    DetailFailed(int),
    Encoded(Seq<char>),
}

/// What an `Action` holds.
pub enum ActionModel {
    Wait,
    FetchListing,
    FetchDetails(Seq<Seq<char>>),
    Encode(Seq<FilterModel>),
    StoreAndReturn(Seq<char>),
    Return(Seq<char>),
}

/// What a `Session` holds.
pub enum SessionModel {
    AwaitCache,
    AwaitListing,
    AwaitDetails(BuilderModel),
    AwaitEncoding,
    Done,
}

impl View for Event {
    type V = EventModel;

    open spec fn view(&self) -> EventModel {
        match self {
            Event::CacheRead(Some(text)) => EventModel::CacheRead(Some(text@)),
            Event::CacheRead(None) => EventModel::CacheRead(None),
            Event::Listing(text) => EventModel::Listing(text@),
            Event::Detail(index, text) => EventModel::Detail(*index as int, text@),
            Event::DetailFailed(index) => EventModel::DetailFailed(*index as int),
            Event::Encoded(text) => EventModel::Encoded(text@),
        }
    }
}

impl View for Action {
    type V = ActionModel;

    open spec fn view(&self) -> ActionModel {
        match self {
            Action::Wait => ActionModel::Wait,
            Action::FetchListing => ActionModel::FetchListing,
            Action::FetchDetails(names) => ActionModel::FetchDetails(texts(names@)),
            Action::Encode(catalog) => ActionModel::Encode(filter_models(catalog@)),
            Action::StoreAndReturn(text) => ActionModel::StoreAndReturn(text@),
            Action::Return(text) => ActionModel::Return(text@),
        }
    }
}

impl View for Session {
    type V = SessionModel;

    open spec fn view(&self) -> SessionModel {
        match self {
            Session::AwaitCache => SessionModel::AwaitCache,
            Session::AwaitListing => SessionModel::AwaitListing,
            Session::AwaitDetails(builder) => SessionModel::AwaitDetails(builder@),
            Session::AwaitEncoding => SessionModel::AwaitEncoding,
            Session::Done => SessionModel::Done,
        }
    }
}

/// Where the session stands with the given builder, and what follows: with
/// every filter settled the catalog goes to be serialized; otherwise the
/// session waits for more reports.
pub open spec fn settled_or_waiting(b: BuilderModel) -> (SessionModel, ActionModel) {
    if complete(b) {
        (SessionModel::AwaitEncoding, ActionModel::Encode(b.filters))
    } else {
        (SessionModel::AwaitDetails(b), ActionModel::Wait)
    }
}

/// The session after an event, and the action it asks for.
///
/// A stored catalog answers the query as it is, and the session is done. An
/// empty cache starts the build: the listing is fetched, then the detail
/// reports of the listed filters; when the last of them is settled the
/// catalog is serialized, and the serialized text is stored and returned.
/// An event that the session does not wait for changes nothing.
pub open spec fn next(s: SessionModel, e: EventModel) -> (SessionModel, ActionModel) {
    match (s, e) {
        (SessionModel::AwaitCache, EventModel::CacheRead(Some(text))) => (
            SessionModel::Done,
            ActionModel::Return(text),
        ),
        (SessionModel::AwaitCache, EventModel::CacheRead(None)) => (
            SessionModel::AwaitListing,
            ActionModel::FetchListing,
        ),
        (SessionModel::AwaitListing, EventModel::Listing(text)) => if complete(started(text)) {
            settled_or_waiting(started(text))
        } else {
            (
                SessionModel::AwaitDetails(started(text)),
                ActionModel::FetchDetails(names_of(started(text).filters)),
            )
        },
        (SessionModel::AwaitDetails(b), EventModel::Detail(index, text)) => settled_or_waiting(
            accepted(b, index, text),
        ),
        (SessionModel::AwaitDetails(b), EventModel::DetailFailed(index)) => settled_or_waiting(
            abandoned(b, index),
        ),
        (SessionModel::AwaitEncoding, EventModel::Encoded(text)) => (
            SessionModel::Done,
            ActionModel::StoreAndReturn(text),
        ),
        _ => (s, ActionModel::Wait),
    }
}

/// Hands the catalog out if the builder is complete, and waits otherwise.
fn settle(builder: CatalogBuilder) -> (r: (Session, Action))
    ensures
        (r.0@, r.1@) == settled_or_waiting(builder@),
{
    match builder.finish() {
        Ok(catalog) => (Session::AwaitEncoding, Action::Encode(catalog)),
        Err(builder) => (Session::AwaitDetails(builder), Action::Wait),
    }
}

impl Session {
    /// A new query. Its first action is to read the cache; the outcome is
    /// the first event.
    pub fn start() -> (s: Session)
        ensures
            s@ == SessionModel::AwaitCache,
    {
        Session::AwaitCache
    }

    /// Whether the query is answered.
    pub fn is_done(&self) -> (r: bool)
        ensures
            r == (self@ == SessionModel::Done),
    {
        match self {
            Session::Done => true,
            _ => false,
        }
    }

    /// Takes in an event and says what to do next.
    pub fn step(self, event: Event) -> (r: (Session, Action))
        ensures
            (r.0@, r.1@) == next(self@, event@),
    {
        match self {
            Session::AwaitCache => match event {
                Event::CacheRead(Some(text)) => (Session::Done, Action::Return(text)),
                Event::CacheRead(None) => (Session::AwaitListing, Action::FetchListing),
                _ => (Session::AwaitCache, Action::Wait),
            },
            Session::AwaitListing => match event {
                Event::Listing(text) => {
                    let builder = CatalogBuilder::begin(text.as_str());
                    if builder.is_complete() {
                        settle(builder)
                    } else {
                        let names = builder.names();
                        (Session::AwaitDetails(builder), Action::FetchDetails(names))
                    }
                },
                _ => (Session::AwaitListing, Action::Wait),
            },
            Session::AwaitDetails(builder) => match event {
                Event::Detail(index, text) => {
                    let mut builder = builder;
                    builder.accept(index, text.as_str());
                    settle(builder)
                },
                Event::DetailFailed(index) => {
                    let mut builder = builder;
                    builder.abandon(index);
                    settle(builder)
                },
                _ => (Session::AwaitDetails(builder), Action::Wait),
            },
            Session::AwaitEncoding => match event {
                Event::Encoded(text) => (Session::Done, Action::StoreAndReturn(text)),
                _ => (Session::AwaitEncoding, Action::Wait),
            },
            Session::Done => (Session::Done, Action::Wait),
        }
    }
}

} // verus!
