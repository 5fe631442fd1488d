//! A three-stage data pipeline: keep some items, transform each of them,
//! and fold the results into one value.

use crate::text::{contains, debug_text, occurs_in, uppercase};
use std::fmt::Debug;
use std::marker::PhantomData;
use vstd::prelude::*;
use vstd::string::StringExecFns;

verus! {

/// Why a pipeline produced nothing.
#[derive(Debug)]
pub enum PipelineError {
    /// The transformer had no result for one of the items.
    TransformError(String),
    /// The aggregator had no result for the transformed items.
    AggregatorError(String),
}

/// Decides which items stay in the pipeline.
pub trait Filter<T: Debug> {
    /// `item` stays.
    spec fn accepts(&self, item: T) -> bool;

    fn filter(&self, item: &T) -> (keep: bool)
        ensures
            keep == self.accepts(*item),
    ;
}

/// Turns an item into a result, or into nothing.
pub trait Transformer<T, U> {
    /// `out` is a result that this transformer may give for `item`.
    spec fn maps(&self, item: T, out: Option<U>) -> bool;

    fn transform(&self, item: &T) -> (out: Option<U>)
        ensures
            self.maps(*item, out),
    ;
}

/// Folds a list of items into one value, or into nothing.
pub trait Aggregator<U, V> {
    /// The aggregation of `data` can be computed.
    spec fn defined_on(&self, data: Seq<U>) -> bool;

    /// `out` is a result that this aggregator may give for `data`.
    spec fn folds(&self, data: Seq<U>, out: Option<V>) -> bool;

    fn aggregate(&self, data: &[U]) -> (out: Option<V>)
        requires
            self.defined_on(data@),
        ensures
            self.folds(data@, out),
    ;
}

/// Collects the items into a vector of their clones.
#[derive(Debug)]
pub struct CollectVecAggregator<T: Clone> {
    _marker: PhantomData<T>,
}

impl<T: Clone> CollectVecAggregator<T> {
    pub fn new() -> Self {
        Self { _marker: PhantomData }
    }
}

impl<T: Clone> Aggregator<T, Vec<T>> for CollectVecAggregator<T> {
    open spec fn defined_on(&self, data: Seq<T>) -> bool {
        true
    }

    /// The result holds a clone of each item, in order.
    open spec fn folds(&self, data: Seq<T>, out: Option<Vec<T>>) -> bool {
        &&& out matches Some(copies)
        &&& copies@.len() == data.len()
        &&& forall|i: int| 0 <= i < data.len() ==> cloned(data[i], #[trigger] copies@[i])
    }

    fn aggregate(&self, data: &[T]) -> (out: Option<Vec<T>>) {
        let mut copies: Vec<T> = Vec::with_capacity(data.len());
        let mut i: usize = 0;
        while i < data.len()
            invariant
                i <= data.len(),
                copies@.len() == i,
                forall|j: int| 0 <= j < i ==> cloned(data@[j], #[trigger] copies@[j]),
            decreases data.len() - i,
        {
            copies.push(data[i].clone());
            i += 1;
        }
        Some(copies)
    }
}

/// Puts a string in upper case; has no result for the empty string.
#[derive(Debug)]
pub struct StringToUpperTransformer {}

impl StringToUpperTransformer {
    pub fn new() -> Self {
        Self {  }
    }
}

impl<'a> Transformer<&'a str, String> for StringToUpperTransformer {
    open spec fn maps(&self, item: &'a str, out: Option<String>) -> bool {
        if item@.len() == 0 {
            out is None
        } else {
            out matches Some(raised) && raised@ == uppercase(item@)
        }
    }

    fn transform(&self, item: &&'a str) -> (out: Option<String>) {
        if item.is_empty() {
            None
        } else {
            Some(item.to_uppercase())
        }
    }
}

/// Keeps the strings in which a pattern occurs.
#[derive(Debug)]
pub struct StringContainsFilter<'a> {
    pattern: &'a str,
}

impl<'a> StringContainsFilter<'a> {
    /// The text that a string has to contain.
    pub closed spec fn pattern(&self) -> Seq<char> {
        self.pattern@
    }

    pub fn new(pattern: &'a str) -> (filter: Self)
        ensures
            filter.pattern() == pattern@,
    {
        Self { pattern }
    }
}

impl<'a> Filter<&'a str> for StringContainsFilter<'a> {
    open spec fn accepts(&self, item: &'a str) -> bool {
        occurs_in(self.pattern(), item@)
    }

    fn filter(&self, item: &&'a str) -> (keep: bool) {
        contains(*item, self.pattern)
    }
}

/// Keeps the even numbers.
#[derive(Debug)]
pub struct EvenNumberFilter {}

impl EvenNumberFilter {
    pub fn new() -> Self {
        Self {  }
    }
}

impl Filter<u32> for EvenNumberFilter {
    open spec fn accepts(&self, item: u32) -> bool {
        item % 2 == 0
    }

    fn filter(&self, item: &u32) -> (keep: bool) {
        let n: u32 = *item;
        assert((n & 1 == 0) == (n % 2 == 0)) by (bit_vector);
        (n & 0b0001) == 0
    }
}

/// Twice `n`, or the largest `u32` where that does not fit.
pub open spec fn doubled(n: u32) -> u32 {
    if 2 * n > u32::MAX {
        u32::MAX
    } else {
        (2 * n) as u32
    }
}

/// `u32::saturating_mul`: the product, or the largest `u32` where the
/// product does not fit.
pub assume_specification[ u32::saturating_mul ](left: u32, right: u32) -> (product: u32)
    ensures
        left * right <= u32::MAX ==> product == left * right,
        left * right > u32::MAX ==> product == u32::MAX,
;

/// Doubles a number, stopping at the largest `u32`.
#[derive(Debug)]
pub struct MultiplyByTwoTransformer {}

impl MultiplyByTwoTransformer {
    pub fn new() -> Self {
        Self {  }
    }
}

impl Transformer<u32, u32> for MultiplyByTwoTransformer {
    open spec fn maps(&self, item: u32, out: Option<u32>) -> bool {
        out == Some(doubled(item))
    }

    fn transform(&self, item: &u32) -> (out: Option<u32>) {
        Some(item.saturating_mul(2))
    }
}

/// The sum of `data`.
pub open spec fn total(data: Seq<u32>) -> int
    decreases data.len(),
{
    if data.len() == 0 {
        0
    } else {
        total(data.drop_last()) + data.last()
    }
}

/// The sum of the first items is at most the sum of all.
pub proof fn lemma_total_of_prefix(data: Seq<u32>, n: int)
    requires
        0 <= n <= data.len(),
    ensures
        0 <= total(data.take(n)) <= total(data),
    decreases data.len() - n,
{
    if n == data.len() {
        assert(data.take(n) == data);
        lemma_total_nonnegative(data);
    } else {
        lemma_total_of_prefix(data, n + 1);
        assert(data.take(n + 1).drop_last() == data.take(n));
        lemma_total_nonnegative(data.take(n));
    }
}

proof fn lemma_total_nonnegative(data: Seq<u32>)
    ensures
        0 <= total(data),
    decreases data.len(),
{
    if data.len() > 0 {
        lemma_total_nonnegative(data.drop_last());
    }
}

/// Adds the numbers up; has no result for an empty list.
#[derive(Debug)]
pub struct SumAggregator {}

impl SumAggregator {
    pub fn new() -> Self {
        Self {  }
    }
}

impl Aggregator<u32, u32> for SumAggregator {
    /// The sum has to fit in a `u32`.
    open spec fn defined_on(&self, data: Seq<u32>) -> bool {
        total(data) <= u32::MAX
    }

    open spec fn folds(&self, data: Seq<u32>, out: Option<u32>) -> bool {
        if data.len() == 0 {
            out is None
        } else {
            out matches Some(sum) && sum == total(data)
        }
    }

    fn aggregate(&self, data: &[u32]) -> (out: Option<u32>) {
        if data.is_empty() {
            None
        } else {
            let mut sum_aggregation: u32 = 0;
            let mut i: usize = 0;
            proof {
                assert(data@.take(0) =~= Seq::<u32>::empty());
            }
            while i < data.len()
                invariant
                    i <= data.len(),
                    total(data@) <= u32::MAX,
                    sum_aggregation == total(data@.take(i as int)),
                decreases data.len() - i,
            {
                proof {
                    lemma_total_of_prefix(data@, i + 1);
                    assert(data@.take(i + 1).drop_last() =~= data@.take(i as int));
                }
                sum_aggregation += data[i];
                i += 1;
            }
            proof {
                assert(data@.take(i as int) =~= data@);
            }
            Some(sum_aggregation)
        }
    }
}

/// The items a pipeline starts from.
pub struct DataSource<'a, T: Debug> {
    data: &'a [T],
}

impl<'a, T: Debug> DataSource<'a, T> {
    /// The items held.
    pub closed spec fn items(&self) -> Seq<T> {
        self.data@
    }

    pub fn new(data: &'a [T]) -> (source: Self)
        ensures
            source.items() == data@,
    {
        Self { data }
    }

    pub fn get_data(&self) -> (data: &[T])
        ensures
            data@ == self.items(),
    {
        self.data
    }
}

/// `results` holds a result of `transformer` for each of `items`, in order.
pub open spec fn maps_all<T, U, P: Transformer<T, U>>(
    transformer: &P,
    items: Seq<T>,
    results: Seq<U>,
) -> bool {
    &&& results.len() == items.len()
    &&& forall|i: int|
        0 <= i < items.len() ==> transformer.maps(#[trigger] items[i], Some(results[i]))
}

/// The message for an item that the transformer had no result for: it
/// shows the item and the transformer.
fn transform_failure<T: Debug, P: Debug>(entry: &T, transformer: &P) -> (message: String)
    ensures
        is_transform_failure(message@),
{
    let shown = debug_text(entry);
    let by = debug_text(transformer);
    let message = String::from_str("Could not transform ").concat(shown.as_str()).concat(
        " using ",
    ).concat(by.as_str());
    proof {
        assert(message@ == transform_failure_text(shown@, by@));
    }
    message
}

/// The text that tells that the transformer shown as `by` had no result for
/// the item shown as `shown`.
pub open spec fn transform_failure_text(shown: Seq<char>, by: Seq<char>) -> Seq<char> {
    "Could not transform "@ + shown + " using "@ + by
}

/// `text` tells of some item that some transformer had no result for it.
pub open spec fn is_transform_failure(text: Seq<char>) -> bool {
    exists|shown: Seq<char>, by: Seq<char>| text == #[trigger] transform_failure_text(shown, by)
}

/// The message for a list that the aggregator had no result for: it shows
/// the list and the aggregator.
fn aggregate_failure<U: Debug, A: Debug>(data: &[U], aggregator: &A) -> (message: String)
    ensures
        is_aggregate_failure(message@),
{
    let shown = debug_text(data);
    let by = debug_text(aggregator);
    let message = String::from_str("Couldn't aggregate data ").concat(shown.as_str()).concat(
        " using ",
    ).concat(by.as_str());
    proof {
        assert(message@ == aggregate_failure_text(shown@, by@));
    }
    message
}

/// The text that tells that the aggregator shown as `by` had no result for
/// the list shown as `shown`.
pub open spec fn aggregate_failure_text(shown: Seq<char>, by: Seq<char>) -> Seq<char> {
    "Couldn't aggregate data "@ + shown + " using "@ + by
}

/// `text` tells of some list that some aggregator had no result for it.
pub open spec fn is_aggregate_failure(text: Seq<char>) -> bool {
    exists|shown: Seq<char>, by: Seq<char>| text == #[trigger] aggregate_failure_text(shown, by)
}

/// A filter, a transformer and an aggregator, applied in that order.
pub struct DataProcessor<T, F, U, V, A, P> where
    T: Debug,
    U: Debug,
    F: Filter<T> + Debug,
    P: Transformer<T, U> + Debug,
    A: Aggregator<U, V> + Debug,
 {
    filter: F,
    transformer: P,
    aggregator: A,
    _phantom: PhantomData<(T, U, V)>,
}

impl<T, F, U, V, A, P> DataProcessor<T, F, U, V, A, P> where
    T: Debug,
    U: Debug,
    F: Filter<T> + Debug,
    P: Transformer<T, U> + Debug,
    A: Aggregator<U, V> + Debug,
 {
    /// The first stage.
    pub closed spec fn sieve(&self) -> F {
        self.filter
    }

    /// The second stage.
    pub closed spec fn transformer(&self) -> P {
        self.transformer
    }

    /// The third stage.
    pub closed spec fn aggregator(&self) -> A {
        self.aggregator
    }

    pub fn new(filter: F, transformer: P, aggregator: A) -> (processor: Self)
        ensures
            processor.sieve() == filter,
            processor.transformer() == transformer,
            processor.aggregator() == aggregator,
    {
        Self { filter, transformer, aggregator, _phantom: PhantomData }
    }

    /// The items of `data` that the filter accepts, in order.
    pub open spec fn kept(&self, data: Seq<T>) -> Seq<T> {
        data.filter(|item: T| self.sieve().accepts(item))
    }

    /// The first stage: the accepted items, in their order.
    pub fn filter<'a>(&self, data: &'a [T]) -> (filtered: Vec<&'a T>)
        ensures
            filtered@.len() == self.kept(data@).len(),
            forall|i: int| 0 <= i < filtered@.len() ==> *filtered@[i] == self.kept(data@)[i],
    {
        let ghost accepts = |item: T| self.sieve().accepts(item);
        let mut filtered_data: Vec<&T> = Vec::with_capacity(data.len());
        let mut i: usize = 0;
        proof {
            reveal(Seq::filter);
            assert(data@.take(0) =~= Seq::<T>::empty());
        }
        while i < data.len()
            invariant
                i <= data.len(),
                accepts == |item: T| self.sieve().accepts(item),
                filtered_data@.len() == data@.take(i as int).filter(accepts).len(),
                forall|j: int|
                    0 <= j < filtered_data@.len() ==> *filtered_data@[j] == data@.take(
                        i as int,
                    ).filter(accepts)[j],
            decreases data.len() - i,
        {
            proof {
                reveal(Seq::filter);
                assert(data@.take(i + 1).drop_last() =~= data@.take(i as int));
                assert(data@.take(i + 1).last() == data@[i as int]);
            }
            if self.filter.filter(&data[i]) {
                filtered_data.push(&data[i]);
            }
            i += 1;
        }
        proof {
            assert(data@.take(i as int) =~= data@);
        }
        filtered_data
    }

    /// The second stage: a result for every item, or an error as soon as the
    /// transformer has none for an item.
    pub fn transform(&self, data: &[&T]) -> (outcome: Result<Vec<U>, PipelineError>)
        ensures
            match outcome {
                Ok(results) => {
                    &&& results@.len() == data@.len()
                    &&& forall|i: int|
                        0 <= i < data@.len() ==> self.transformer().maps(
                            *#[trigger] data@[i],
                            Some(results@[i]),
                        )
                },
                Err(error) => {
                    &&& error matches PipelineError::TransformError(message)
                    &&& is_transform_failure(message@)
                    &&& exists|i: int|
                        0 <= i < data@.len() && self.transformer().maps(
                            *#[trigger] data@[i],
                            None,
                        )
                },
            },
    {
        let mut transformed_data: Vec<U> = Vec::with_capacity(data.len());
        let mut i: usize = 0;
        while i < data.len()
            invariant
                i <= data.len(),
                transformed_data@.len() == i,
                forall|j: int|
                    0 <= j < i ==> self.transformer().maps(
                        *#[trigger] data@[j],
                        Some(transformed_data@[j]),
                    ),
            decreases data.len() - i,
        {
            match self.transformer.transform(data[i]) {
                Some(transformed_entry) => {
                    transformed_data.push(transformed_entry);
                },
                None => {
                    proof {
                        assert(self.transformer().maps(*data@[i as int], None));
                    }
                    return Err(
                        PipelineError::TransformError(
                            transform_failure(data[i], &self.transformer),
                        ),
                    );
                },
            }
            i += 1;
        }
        Ok(transformed_data)
    }

    /// The third stage: the aggregator's result, or an error where it has
    /// none.
    pub fn aggregate(&self, data: &[U]) -> (outcome: Result<V, PipelineError>)
        requires
            self.aggregator().defined_on(data@),
        ensures
            match outcome {
                Ok(value) => self.aggregator().folds(data@, Some(value)),
                Err(error) => {
                    &&& error matches PipelineError::AggregatorError(message)
                    &&& is_aggregate_failure(message@)
                    &&& self.aggregator().folds(data@, None)
                },
            },
    {
        if let Some(output) = self.aggregator.aggregate(data) {
            Ok(output)
        } else {
            Err(PipelineError::AggregatorError(aggregate_failure(data, &self.aggregator)))
        }
    }

    /// Whatever the transformer gives for the kept items of `data`, the
    /// aggregator can work on it.
    pub open spec fn runs_on(&self, data: Seq<T>) -> bool {
        forall|results: Seq<U>| #[trigger]
            maps_all(&self.transformer(), self.kept(data), results)
                ==> self.aggregator().defined_on(results)
    }

    /// Runs the three stages on the items of `source`.
    pub fn process_data(&self, source: &DataSource<T>) -> (outcome: Result<V, PipelineError>)
        requires
            self.runs_on(source.items()),
        ensures
            match outcome {
                Ok(value) => exists|results: Seq<U>|
                    {
                        &&& #[trigger] maps_all(
                            &self.transformer(),
                            self.kept(source.items()),
                            results,
                        )
                        &&& self.aggregator().folds(results, Some(value))
                    },
                Err(PipelineError::TransformError(message)) => {
                    &&& is_transform_failure(message@)
                    &&& exists|i: int|
                        0 <= i < self.kept(source.items()).len() && self.transformer().maps(
                            #[trigger] self.kept(source.items())[i],
                            None,
                        )
                },
                Err(PipelineError::AggregatorError(message)) => {
                    &&& is_aggregate_failure(message@)
                    &&& exists|results: Seq<U>|
                        {
                            &&& #[trigger] maps_all(
                                &self.transformer(),
                                self.kept(source.items()),
                                results,
                            )
                            &&& self.aggregator().folds(results, None)
                        }
                },
            },
    {
        let data = source.get_data();
        let filtered_data = self.filter(data);
        match self.transform(filtered_data.as_slice()) {
            Err(error) => {
                proof {
                    let i = choose|i: int|
                        0 <= i < filtered_data@.len() && self.transformer().maps(
                            *#[trigger] filtered_data@[i],
                            None,
                        );
                    assert(self.transformer().maps(self.kept(source.items())[i], None));
                }
                Err(error)
            },
            Ok(transformed_data) => {
                proof {
                    assert forall|i: int| 0 <= i < self.kept(source.items()).len() implies self.transformer().maps(
                        #[trigger] self.kept(source.items())[i],
                        Some(transformed_data@[i]),
                    ) by {
                        assert(self.transformer().maps(*filtered_data@[i], Some(transformed_data@[i])));
                    }
                    assert(maps_all(
                        &self.transformer(),
                        self.kept(source.items()),
                        transformed_data@,
                    ));
                }
                self.aggregate(transformed_data.as_slice())
            },
        }
    }
}

} // verus!
