//! A list that always has a first element.
//!
//! [`NonEmptyVec`] keeps its first element apart from the rest, so a value
//! without a first element cannot be built. Its mathematical value is a
//! [`NonEmptySeq`]; every contract below is stated over that model.

use vstd::prelude::*;

verus! {

/// The only way building a [`NonEmptyVec`] can fail: the input had no element.
#[derive(Debug, Clone, Copy, PartialEq, Eq)]
pub struct EmptyInputError;

/// The mathematical value of a [`NonEmptyVec`]: a first element and the
/// elements after it, in order.
pub struct NonEmptySeq<T> {
    pub head: T,
    pub tail: Seq<T>,
}

impl<T> NonEmptySeq<T> {
    /// The value with first element `head`, followed by `tail`.
    pub open spec fn of(head: T, tail: Seq<T>) -> Self {
        NonEmptySeq { head, tail }
    }

    /// Splits `items` into its first element and the rest; an empty `items`
    /// has no such split.
    pub open spec fn try_from(items: Seq<T>) -> Result<Self, EmptyInputError> {
        if items.len() == 0 {
            Err(EmptyInputError)
        } else {
            Ok(NonEmptySeq { head: items.first(), tail: items.drop_first() })
        }
    }

    /// All elements in order: the head, then the tail.
    pub open spec fn into_seq(self) -> Seq<T> {
        seq![self.head] + self.tail
    }
}

/// A list with at least one element.
#[derive(Debug, PartialEq, Eq)]
pub struct NonEmptyVec<T> {
    head: T,
    tail: Vec<T>,
}

impl<T> View for NonEmptyVec<T> {
    type V = NonEmptySeq<T>;

    closed spec fn view(&self) -> NonEmptySeq<T> {
        NonEmptySeq { head: self.head, tail: self.tail@ }
    }
}

impl<T: DeepView> DeepView for NonEmptyVec<T> {
    type V = NonEmptySeq<T::V>;

    open spec fn deep_view(&self) -> NonEmptySeq<T::V> {
        NonEmptySeq {
            head: self@.head.deep_view(),
            tail: Seq::new(self@.tail.len(), |i: int| self@.tail[i].deep_view()),
        }
    }
}

impl<T: Clone> Clone for NonEmptyVec<T> {
    /// A list of the same length whose elements are clones of this list's
    /// elements, each in its place.
    fn clone(&self) -> (copy: Self)
        ensures
            cloned(self@.head, copy@.head),
            copy@.tail.len() == self@.tail.len(),
            forall|i: int|
                0 <= i < self@.tail.len() ==> cloned(#[trigger] self@.tail[i], copy@.tail[i]),
    {
        NonEmptyVec { head: self.head.clone(), tail: self.tail.clone() }
    }
}

impl<T> NonEmptyVec<T> {
    /// Builds the list from a first element and the elements after it.
    /// There is nothing to check: the first element is an argument.
    pub fn of(head: T, tail: Vec<T>) -> (list: Self)
        ensures
            list@ == NonEmptySeq::of(head, tail@),
    {
        NonEmptyVec { head, tail }
    }

    /// Builds the list from `items`, whose first element becomes the head
    /// and whose other elements become the tail, in their order. Fails
    /// exactly when `items` is empty.
    pub fn try_from_vec(items: Vec<T>) -> (parsed: Result<Self, EmptyInputError>)
        ensures
            items@.len() == 0 ==> parsed == Err::<Self, _>(EmptyInputError),
            items@.len() > 0 ==> parsed is Ok,
            parsed matches Ok(list) ==> NonEmptySeq::try_from(items@) == Ok::<_, EmptyInputError>(list@),
            parsed matches Ok(list) ==> list@.into_seq() == items@,
    {
        let mut items = items;
        if items.len() == 0 {
            Err(EmptyInputError)
        } else {
            let ghost all = items@;
            let head = items.remove(0);
            let list = NonEmptyVec { head, tail: items };
            proof {
                lemma_try_from_round_trip(all);
            }
            Ok(list)
        }
    }

    /// The first element. There is always one.
    pub fn head(&self) -> (first: &T)
        ensures
            *first == self@.head,
    {
        &self.head
    }

    /// The elements after the first, in order.
    pub fn tail(&self) -> (rest: &[T])
        ensures
            rest@ == self@.tail,
    {
        self.tail.as_slice()
    }

    /// Gives up the guarantee: all elements as an ordinary vector, the head
    /// first.
    pub fn into_vec(self) -> (items: Vec<T>)
        ensures
            items@ == self@.into_seq(),
            items@.len() == 1 + self@.tail.len(),
    {
        proof {
            lemma_never_empty(self@);
        }
        let NonEmptyVec { head, tail } = self;
        let mut items = tail;
        items.insert(0, head);
        items
    }
}

/// The first element of `vec`. It cannot fail: a [`NonEmptyVec`] has one.
pub fn head<T>(vec: NonEmptyVec<T>) -> (first: T)
    ensures
        first == vec@.head,
{
    vec.head
}

/// Checks that `vec` has an element and keeps nothing of what it learned:
/// the caller is left with a plain vector. Fails with the message
/// `"Slice was empty"` exactly when `vec` is empty.
pub fn validate_non_empty<T>(vec: Vec<T>) -> (checked: Result<(), String>)
    ensures
        checked is Err <==> vec@.len() == 0,
        checked matches Err(message) ==> message@ == "Slice was empty"@,
{
    if vec.is_empty() {
        Err("Slice was empty".to_string())
    } else {
        Ok(())
    }
}

/// Checks that `vec` has an element and keeps what it learned in the type
/// of the result: the first element of `vec` becomes the head, the others
/// the tail. Fails with the message `"Vec was empty"` exactly when `vec` is
/// empty.
pub fn parse_non_empty<T>(vec: Vec<T>) -> (parsed: Result<NonEmptyVec<T>, String>)
    ensures
        parsed is Err <==> vec@.len() == 0,
        parsed matches Err(message) ==> message@ == "Vec was empty"@,
        parsed matches Ok(list) ==> NonEmptySeq::try_from(vec@) == Ok::<_, EmptyInputError>(list@),
        parsed matches Ok(list) ==> list@.into_seq() == vec@,
{
    match NonEmptyVec::try_from_vec(vec) {
        Ok(list) => Ok(list),
        Err(_) => Err("Vec was empty".to_string()),
    }
}

/// Every value has an element: its elements are one more than its tail,
/// the head comes first among them, and the tail follows.
pub proof fn lemma_never_empty<T>(list: NonEmptySeq<T>)
    ensures
        list.into_seq().len() == 1 + list.tail.len(),
        list.into_seq().first() == list.head,
        list.into_seq().drop_first() == list.tail,
{
}

/// A sequence with an element splits into its first element and the rest,
/// and flattening that split gives the sequence back.
pub proof fn lemma_try_from_round_trip<T>(items: Seq<T>)
    requires
        items.len() > 0,
    ensures
        NonEmptySeq::try_from(items) is Ok,
        NonEmptySeq::try_from(items)->Ok_0.head == items[0],
        NonEmptySeq::try_from(items)->Ok_0.tail == items.skip(1),
        NonEmptySeq::try_from(items)->Ok_0.into_seq() == items,
{
}

/// The empty sequence has no split, whatever the element type.
pub proof fn lemma_try_from_empty<T>(items: Seq<T>)
    requires
        items.len() == 0,
    ensures
        NonEmptySeq::try_from(items) == Err::<NonEmptySeq<T>, _>(EmptyInputError),
{
}

/// A value built from a head and a tail has that head, and its elements are
/// the head followed by the tail.
pub proof fn lemma_of_head_and_elements<T>(head: T, tail: Seq<T>)
    ensures
        NonEmptySeq::of(head, tail).head == head,
        NonEmptySeq::of(head, tail).tail == tail,
        NonEmptySeq::of(head, tail).into_seq() == seq![head] + tail,
{
}

/// Flattening a value and splitting the result again gives the value back.
pub proof fn lemma_rebuild_is_identity<T>(list: NonEmptySeq<T>)
    ensures
        NonEmptySeq::try_from(list.into_seq()) == Ok::<_, EmptyInputError>(list),
{
    lemma_never_empty(list);
}

} // verus!
