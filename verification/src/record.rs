//! The record of a carrier.

use vstd::prelude::*;
use crate::normalize::{ends_in_note, strip_note, stripped};
use crate::subscribers::{Subscribers, SubscribersView};

verus! {

/// A carrier: a mobile network operator of a country, with the number of
/// its subscribers. A record is made once, from a row, and never changed.
#[derive(Debug, PartialEq, Eq)]
pub struct CarrierRecord {
    operator: String,
    country: String,
    region: String,
    subscribers: Subscribers,
    mccmnc: u32,
}

/// What a [`CarrierRecord`] holds.
pub struct RecordView {
    /// The name of the operator; it ends in no note.
    pub operator: Seq<char>,
    /// The name of the country; it ends in no note.
    pub country: Seq<char>,
    /// The region of the country, as the caller named it.
    pub region: Seq<char>,
    /// The number of subscribers.
    pub subscribers: SubscribersView,
    /// The network code, or `0` where none is known.
    pub mccmnc: u32,
}

impl View for CarrierRecord {
    type V = RecordView;

    closed spec fn view(&self) -> RecordView {
        RecordView {
            operator: self.operator@,
            country: self.country@,
            region: self.region@,
            subscribers: self.subscribers@,
            mccmnc: self.mccmnc,
        }
    }
}

impl CarrierRecord {
    /// Makes the record of a carrier. The notes at the end of the operator's
    /// name and of the country's are cut off, so that neither ends in a
    /// bracketed annotation or an escaped line break; the region is kept as
    /// it is.
    pub fn new(
        operator: &str,
        country: &str,
        region: &str,
        subscribers: Subscribers,
        mccmnc: u32,
    ) -> (record: CarrierRecord)
        ensures
            record@ == (RecordView {
                operator: stripped(operator@),
                country: stripped(country@),
                region: region@,
                subscribers: subscribers@,
                mccmnc,
            }),
            !ends_in_note(record@.operator),
            !ends_in_note(record@.country),
    {
        CarrierRecord {
            operator: strip_note(operator),
            country: strip_note(country),
            region: region.to_owned(),
            subscribers,
            mccmnc,
        }
    }

    /// The name of the operator.
    pub fn operator(&self) -> (operator: &str)
        ensures
            operator@ == self@.operator,
    {
        self.operator.as_str()
    }

    /// The name of the country.
    pub fn country(&self) -> (country: &str)
        ensures
            country@ == self@.country,
    {
        self.country.as_str()
    }

    /// The region of the country.
    pub fn region(&self) -> (region: &str)
        ensures
            region@ == self@.region,
    {
        self.region.as_str()
    }

    /// The number of subscribers.
    pub fn subscribers(&self) -> (subscribers: &Subscribers)
        ensures
            subscribers@ == self@.subscribers,
    {
        &self.subscribers
    }

    /// The network code, or `0` where none is known.
    pub fn mccmnc(&self) -> (mccmnc: u32)
        ensures
            mccmnc == self@.mccmnc,
    {
        self.mccmnc
    }
}

} // verus!
