//! What is made of the answers of a node to storage queries.

use vstd::prelude::*;

verus! {

/// A value that every block has, and that a node did not have after all.
#[derive(Clone, Copy, Debug, PartialEq, Eq, Structural)]
pub enum MissingValue {
    Timestamp,
    Consumption,
}

impl MissingValue {
    /// What is said of the missing value.
    pub fn message(&self) -> (text: &'static str)
        ensures
            self is Timestamp ==> text@ == "Failed to query timestamp"@,
            self is Consumption ==> text@ == "Failed to query consumption"@,
    {
        match self {
            MissingValue::Timestamp => "Failed to query timestamp",
            MissingValue::Consumption => "Failed to query consumption",
        }
    }
}

/// Why a query gave no value: it failed, or the node has no such value.
#[derive(Debug)]
pub enum QueryError<E> {
    Failed(E),
    Missing(MissingValue),
}

/// A query that must find a value: its own error where it failed, `missing` where it found
/// nothing.
pub open spec fn found<V, E>(fetched: Result<Option<V>, E>, missing: MissingValue) -> Result<
    V,
    QueryError<E>,
> {
    match fetched {
        Ok(Some(value)) => Ok(value),
        Ok(None) => Err(QueryError::Missing(missing)),
        Err(error) => Err(QueryError::Failed(error)),
    }
}

/// The value that a query must have found.
pub fn require<V, E>(fetched: Result<Option<V>, E>, missing: MissingValue) -> (value: Result<
    V,
    QueryError<E>,
>)
    ensures
        value == found(fetched, missing),
        fetched matches Ok(Some(answer)) ==> value == Ok::<V, QueryError<E>>(answer),
        fetched matches Ok(None) ==> value == Err::<V, _>(QueryError::<E>::Missing(missing)),
        fetched matches Err(error) ==> value == Err::<V, _>(QueryError::Failed(error)),
{
    match fetched {
        Ok(Some(value)) => Ok(value),
        Ok(None) => Err(QueryError::Missing(missing)),
        Err(error) => Err(QueryError::Failed(error)),
    }
}

/// The timestamp of a block, in milliseconds, out of the answer of its node.
pub fn timestamp_at<E>(fetched: Result<Option<u64>, E>) -> (timestamp: Result<u64, QueryError<E>>)
    ensures
        timestamp == found(fetched, MissingValue::Timestamp),
        fetched matches Ok(Some(time)) ==> timestamp == Ok::<u64, QueryError<E>>(time),
        fetched matches Ok(None) ==> timestamp == Err::<u64, _>(
            QueryError::<E>::Missing(MissingValue::Timestamp),
        ),
        fetched matches Err(error) ==> timestamp == Err::<u64, _>(QueryError::Failed(error)),
{
    require(fetched, MissingValue::Timestamp)
}

/// The number of validators that a node told of, which is none where it has none or failed.
pub open spec fn known_validators<V, E>(validators: Result<Option<Vec<V>>, E>) -> nat {
    match validators {
        Ok(Some(accounts)) => accounts@.len(),
        _ => 0,
    }
}

/// The number of authorities of a block: that of the validators its node knows of, and none
/// where there are no validators or they could not be asked for.
pub fn authorities_num<V, E>(validators: &Result<Option<Vec<V>>, E>) -> (number: usize)
    ensures
        number == known_validators(*validators),
        *validators matches Ok(Some(accounts)) ==> number == accounts@.len(),
        *validators matches Ok(None) ==> number == 0,
        *validators is Err ==> number == 0,
{
    match validators {
        Ok(Some(accounts)) => accounts.len(),
        Ok(None) => 0,
        Err(_) => 0,
    }
}

/// A query loses and invents nothing: it gives a value exactly where the node had one, and then
/// that one; the error of a query that failed comes through as it was; and the two ways to give
/// no value are told apart.
pub proof fn lemma_answers_come_through<V, E>(
    fetched: Result<Option<V>, E>,
    missing: MissingValue,
)
    ensures
        forall|value: V|
            (found(fetched, missing) == Ok::<V, QueryError<E>>(value)) <==> fetched == Ok::<
                Option<V>,
                E,
            >(Some(value)),
        forall|error: E|
            (found(fetched, missing) == Err::<V, _>(QueryError::Failed(error))) <==> fetched
                == Err::<Option<V>, E>(error),
        forall|what: MissingValue|
            (found(fetched, missing) == Err::<V, _>(QueryError::<E>::Missing(what))) <==> (fetched
                == Ok::<Option<V>, E>(None) && what == missing),
{
}

/// Every validator that a node tells of counts once, whichever it is: one account more is one
/// authority more, and there are none without accounts, without an answer or after a failure.
pub proof fn lemma_every_validator_counts<V, E>(fewer: Vec<V>, more: Vec<V>, account: V, error: E)
    requires
        more@ == fewer@.push(account),
    ensures
        known_validators(Ok::<Option<Vec<V>>, E>(Some(more))) == known_validators(
            Ok::<Option<Vec<V>>, E>(Some(fewer)),
        ) + 1,
        fewer@.len() == 0 ==> known_validators(Ok::<Option<Vec<V>>, E>(Some(fewer))) == 0,
        known_validators(Ok::<Option<Vec<V>>, E>(None)) == 0,
        known_validators(Err::<Option<Vec<V>>, E>(error)) == 0,
{
}

} // verus!
