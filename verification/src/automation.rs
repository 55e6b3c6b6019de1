//! What the automation of the game decides without touching the browser:
//! how elements are located, and what to make of an attempt that failed.

use crate::primitive::{decimal_digits, encode_usize};
use vstd::prelude::*;
use vstd::string::StringExecFns;

verus! {

/// How a locator finds its element.
#[derive(Clone, Copy, Debug, PartialEq, Eq)]
pub enum LocatorStrategy {
    CSSSelector,
    LinkText,
}

/// The kinds of building in the store, in the order of the store.
#[derive(Clone, Copy, Debug, PartialEq, Eq)]
pub enum Building {
    Cursor,
    Grandmas,
    Farms,
    Mines,
    Factory,
    Bank,
    Temple,
    WizardTower,
    Shipment,
    AlchemyLab,
    Portal,
    TimeMachine,
    AntimatterCondenser,
    Prism,
    Chancemaker,
    FractalEngine,
    JavascriptConsole,
    Idleverse,
    CortexBaker,
    You,
}

impl Building {
    /// The place of the building in the store, the first being 0.
    pub open spec fn index_spec(self) -> nat {
        match self {
            Building::Cursor => 0,
            Building::Grandmas => 1,
            Building::Farms => 2,
            Building::Mines => 3,
            Building::Factory => 4,
            Building::Bank => 5,
            Building::Temple => 6,
            Building::WizardTower => 7,
            Building::Shipment => 8,
            Building::AlchemyLab => 9,
            Building::Portal => 10,
            Building::TimeMachine => 11,
            Building::AntimatterCondenser => 12,
            Building::Prism => 13,
            Building::Chancemaker => 14,
            Building::FractalEngine => 15,
            Building::JavascriptConsole => 16,
            Building::Idleverse => 17,
            Building::CortexBaker => 18,
            Building::You => 19,
        }
    }

    /// The place of the building in the store, the first being 0.
    pub fn index(self) -> (i: usize)
        ensures
            i == self.index_spec(),
    {
        match self {
            Building::Cursor => 0,
            Building::Grandmas => 1,
            Building::Farms => 2,
            Building::Mines => 3,
            Building::Factory => 4,
            Building::Bank => 5,
            Building::Temple => 6,
            Building::WizardTower => 7,
            Building::Shipment => 8,
            Building::AlchemyLab => 9,
            Building::Portal => 10,
            Building::TimeMachine => 11,
            Building::AntimatterCondenser => 12,
            Building::Prism => 13,
            Building::Chancemaker => 14,
            Building::FractalEngine => 15,
            Building::JavascriptConsole => 16,
            Building::Idleverse => 17,
            Building::CortexBaker => 18,
            Building::You => 19,
        }
    }
}

/// The identifier of the element that sells `building` in the store:
/// `product` and the place of the building.
pub fn store_building(building: Building) -> (id: String)
    ensures
        id@ == "product"@ + decimal_digits(building.index_spec()),
{
    let mut id = String::from_str("product");
    let place = encode_usize(building.index());
    id.append(place.as_str());
    id
}

/// What to do after an attempt on the page.
#[derive(Clone, Copy, Debug, PartialEq, Eq)]
pub enum Attempt<U, E> {
    /// The attempt is done, with this result.
    Done(U),
    /// The page was not ready: wait and try again.
    Again,
    /// The attempt failed for good, with this error.
    Failed(E),
}

/// An automation client around a driver of the browser.
pub struct Client<T>(T);

impl<T> Client<T> {
    /// The driver inside the client.
    pub closed spec fn inner(&self) -> T {
        self.0
    }

    /// A client around `inner`.
    pub fn new(inner: T) -> (client: Self)
        ensures
            client.inner() == inner,
    {
        Self(inner)
    }

    /// The driver inside the client.
    pub fn driver(&self) -> (driver: &T)
        ensures
            *driver == self.inner(),
    {
        &self.0
    }

    /// What to make of one attempt, where `not_found` tells whether its
    /// error, if it ended in one, says that an element was not found or
    /// went stale. A result ends the attempts; no result yet, or such an
    /// error, calls for another attempt; any other error ends them.
    pub fn retry_finish<U, E>(&self, output: Result<Option<U>, E>, not_found: bool) -> (next:
        Attempt<U, E>)
        ensures
            next == (match output {
                Ok(Some(v)) => Attempt::Done(v),
                Ok(None) => Attempt::Again,
                Err(e) => if not_found {
                    Attempt::Again
                } else {
                    Attempt::Failed(e)
                },
            }),
    {
        match output {
            Ok(Some(v)) => Attempt::Done(v),
            Ok(None) => Attempt::Again,
            Err(e) => if not_found {
                Attempt::Again
            } else {
                Attempt::Failed(e)
            },
        }
    }

    /// Whether a click that may be skipped took place: it did where the
    /// attempt went through, it did not where `not_found` tells that the
    /// element was not found or went stale, and any other error stands.
    pub fn click_maybe<E>(&self, output: Result<(), E>, not_found: bool) -> (clicked: Result<
        bool,
        E,
    >)
        ensures
            clicked == (match output {
                Ok(_) => Ok(true),
                Err(e) => if not_found {
                    Ok(false)
                } else {
                    Err(e)
                },
            }),
    {
        match output {
            Ok(_) => Ok(true),
            Err(e) => if not_found {
                Ok(false)
            } else {
                Err(e)
            },
        }
    }
}

} // verus!
