//! One page of a list that the server holds, and the marker for an answer
//! without content.

use vstd::prelude::*;
use vstd::std_specs::convert::FromSpecImpl;
use crate::error::Error;
use crate::json::{Json, JsonValue};
use crate::response::Decode;

verus! {

/// The marker for an endpoint whose success carries nothing to read.
#[derive(Debug, Clone, Copy, PartialEq, Eq)]
pub struct Empty;

impl View for Empty {
    type V = ();

    open spec fn view(&self) -> () {
        ()
    }
}

impl Decode for Empty {
    /// Any body will do: it is not looked at.
    open spec fn spec_from_json(json: JsonValue) -> Option<()> {
        Some(())
    }

    /// So will no body at all.
    open spec fn spec_from_nothing() -> Option<()> {
        Some(())
    }

    fn from_json(json: &Json) -> (r: Option<Empty>) {
        Some(Empty)
    }

    fn from_nothing() -> (r: Option<Empty>) {
        Some(Empty)
    }
}

impl From<Empty> for Result<(), Error> {
    fn from(marker: Empty) -> (r: Result<(), Error>) {
        Ok(())
    }
}

impl FromSpecImpl<Empty> for Result<(), Error> {
    open spec fn obeys_from_spec() -> bool {
        true
    }

    open spec fn from_spec(marker: Empty) -> Result<(), Error> {
        Ok(())
    }
}

/// One page of a list: the items of this page in the server's order, and the
/// number of items that the whole list holds on the server.
#[derive(Debug, PartialEq, Eq)]
pub struct Pager<T> {
    pub total: u64,
    pub data: Vec<T>,
}

/// The mathematical value of a [`Pager`]: its items by their values.
pub struct PagerView<V> {
    pub total: u64,
    pub data: Seq<V>,
}

impl<T: View> View for Pager<T> {
    type V = PagerView<T::V>;

    open spec fn view(&self) -> PagerView<T::V> {
        PagerView { total: self.total, data: Seq::new(self.data@.len(), |i: int| self.data@[i]@) }
    }
}

/// Whether every item of `items` reads as a `T`.
pub open spec fn all_decode<T: Decode>(items: Seq<JsonValue>) -> bool {
    forall|i: int| 0 <= i < items.len() ==> (#[trigger] T::spec_from_json(items[i])) is Some
}

impl<T: Decode> Decode for Pager<T> {
    /// The envelope of a list: an object whose member `total` is a
    /// non-negative integer and whose member `data` is an array of which
    /// every item reads as a `T`. The page holds these items, all of them, in
    /// their order.
    open spec fn spec_from_json(json: JsonValue) -> Option<PagerView<T::V>> {
        match (json.natural("total"@), json.get("data"@)) {
            (Some(total), Some(JsonValue::Array(items))) => if all_decode::<T>(items) {
                Some(
                    PagerView {
                        total,
                        data: Seq::new(items.len(), |i: int| T::spec_from_json(items[i]).unwrap()),
                    },
                )
            } else {
                None
            },
            _ => None,
        }
    }

    open spec fn spec_from_nothing() -> Option<PagerView<T::V>> {
        None
    }

    fn from_json(json: &Json) -> (r: Option<Pager<T>>) {
        let total = match json.natural("total") {
            Some(n) => n,
            None => {
                return None;
            },
        };
        match json.get("data") {
            Some(Json::Array(items)) => {
                let ghost all = json@.get("data"@).unwrap()->Array_0;
                let mut data: Vec<T> = Vec::new();
                let mut i: usize = 0;
                while i < items.len()
                    invariant
                        i <= items@.len(),
                        json@.get("data"@) == Some(JsonValue::Array(all)),
                        all.len() == items@.len(),
                        forall|j: int| 0 <= j < items@.len() ==> all[j] == items@[j]@,
                        data@.len() == i,
                        forall|j: int|
                            0 <= j < i ==> T::spec_from_json(all[j]) == Some(#[trigger] data@[j]@),
                    decreases items@.len() - i,
                {
                    match T::from_json(&items[i]) {
                        Some(item) => {
                            data.push(item);
                        },
                        None => {
                            assert(T::spec_from_json(all[i as int]) is None);
                            return None;
                        },
                    }
                    i += 1;
                }
                let page = Pager { total, data };
                proof {
                    assert(all_decode::<T>(all)) by {
                        assert forall|j: int| 0 <= j < all.len() implies (#[trigger] T::spec_from_json(
                            all[j],
                        )) is Some by {
                            assert(T::spec_from_json(all[j]) == Some(data@[j]@));
                        }
                    }
                    assert(page@.data =~= Self::spec_from_json(json@).unwrap().data);
                }
                Some(page)
            },
            _ => None,
        }
    }

    fn from_nothing() -> (r: Option<Pager<T>>) {
        None
    }
}

/// A page holds as many items as the envelope's `data` array, whatever their
/// number: what the server kept to the requested count, the page keeps to.
pub proof fn lemma_page_holds_every_item<T: Decode>(json: JsonValue)
    requires
        Pager::<T>::spec_from_json(json) is Some,
    ensures
        json.get("data"@) matches Some(JsonValue::Array(items)) && Pager::<T>::spec_from_json(
            json,
        ).unwrap().data.len() == items.len(),
        json.natural("total"@) == Some(Pager::<T>::spec_from_json(json).unwrap().total),
{
}

} // verus!
