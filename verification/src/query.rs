//! Interpreting what the external GPU query tool produced: the error
//! taxonomy, the error messages, and the decision from a raw process outcome
//! to a parsed metric value or a query error.
use vstd::prelude::*;
use vstd::string::*;

use crate::num::{represents, trim_str, trimmed, wf_number, Decimal};

verus! {

/// The metric a query asks the external GPU tool for.
#[derive(Clone, Copy, PartialEq, Eq, Structural, Debug)]
pub enum Metric {
    Temperature,
    Utilization,
    Name,
}

/// The word a parse-failure message calls the metric.
pub open spec fn metric_label(m: Metric) -> Seq<char> {
    match m {
        Metric::Temperature => "temperature"@,
        Metric::Utilization => "load"@,
        Metric::Name => "model"@,
    }
}

/// What running the external query tool produced, as plain values: either the
/// process could not be spawned, or it finished with an exit status, its
/// standard output (decoded as text, or the message of the decoding failure)
/// and its standard error.
pub enum QueryOutcome {
    SpawnError { cause: String },
    Finished { success: bool, status: String, stdout: Result<String, String>, stderr: String },
}

/// Why a metric query failed, each kind carrying its underlying cause.
#[derive(Debug)]
pub enum QueryError {
    /// The query tool could not be started.
    SpawnFailed { metric: Metric, cause: String },
    /// The query tool exited with a non-zero status.
    NonZeroExit { metric: Metric, status: String, stderr: String },
    /// The query tool's output was not valid text.
    DecodeFailed { metric: Metric, cause: String },
    /// The query tool's output did not read as a number.
    ParseFailed { metric: Metric },
}

/// The message a query error is logged and displayed with.
pub open spec fn message_of(e: QueryError) -> Seq<char> {
    match e {
        QueryError::SpawnFailed { metric, cause } => "Failed to execute command: "@ + cause@,
        QueryError::NonZeroExit { metric, status, stderr } => "Command failed with status: "@
            + status@ + ", stderr: "@ + stderr@,
        QueryError::DecodeFailed { metric, cause } => "Failed to parse output: "@ + cause@,
        QueryError::ParseFailed { metric } => "Failed to parse "@ + metric_label(metric)
            + ": invalid number"@,
    }
}

/// The argument pair the query tool is invoked with for each metric: the
/// metric selector, and the plain single-value output format (without units
/// for the numeric metrics).
pub fn query_args(m: Metric) -> (r: (&'static str, &'static str))
    ensures
        r.0@ == match m {
            Metric::Temperature => "--query-gpu=temperature.gpu"@,
            Metric::Utilization => "--query-gpu=utilization.gpu"@,
            Metric::Name => "--query-gpu=name"@,
        },
        r.1@ == match m {
            Metric::Temperature => "--format=csv,noheader,nounits"@,
            Metric::Utilization => "--format=csv,noheader,nounits"@,
            Metric::Name => "--format=csv,noheader"@,
        },
{
    match m {
        Metric::Temperature => ("--query-gpu=temperature.gpu", "--format=csv,noheader,nounits"),
        Metric::Utilization => ("--query-gpu=utilization.gpu", "--format=csv,noheader,nounits"),
        Metric::Name => ("--query-gpu=name", "--format=csv,noheader"),
    }
}

/// The word a parse-failure message calls the metric.
fn metric_label_str(m: Metric) -> (r: &'static str)
    ensures
        r@ == metric_label(m),
{
    match m {
        Metric::Temperature => "temperature",
        Metric::Utilization => "load",
        Metric::Name => "model",
    }
}

impl QueryError {
    /// The metric whose query failed.
    pub fn metric(&self) -> (m: Metric)
        ensures
            m == self.source_metric(),
    {
        match self {
            QueryError::SpawnFailed { metric, .. } => *metric,
            QueryError::NonZeroExit { metric, .. } => *metric,
            QueryError::DecodeFailed { metric, .. } => *metric,
            QueryError::ParseFailed { metric } => *metric,
        }
    }

    /// The metric whose query failed.
    pub open spec fn source_metric(self) -> Metric {
        match self {
            QueryError::SpawnFailed { metric, .. } => metric,
            QueryError::NonZeroExit { metric, .. } => metric,
            QueryError::DecodeFailed { metric, .. } => metric,
            QueryError::ParseFailed { metric } => metric,
        }
    }

    /// Render the error's message.
    pub fn message(&self) -> (r: String)
        ensures
            r@ == message_of(*self),
    {
        match self {
            QueryError::SpawnFailed { metric: _, cause } => {
                let mut out = String::from_str("Failed to execute command: ");
                out.append(cause.as_str());
                proof {
                    assert(out@ =~= message_of(*self));
                }
                out
            },
            QueryError::NonZeroExit { metric: _, status, stderr } => {
                let mut out = String::from_str("Command failed with status: ");
                out.append(status.as_str());
                out.append(", stderr: ");
                out.append(stderr.as_str());
                proof {
                    assert(out@ =~= message_of(*self));
                }
                out
            },
            QueryError::DecodeFailed { metric: _, cause } => {
                let mut out = String::from_str("Failed to parse output: ");
                out.append(cause.as_str());
                proof {
                    assert(out@ =~= message_of(*self));
                }
                out
            },
            QueryError::ParseFailed { metric } => {
                let mut out = String::from_str("Failed to parse ");
                out.append(metric_label_str(*metric));
                out.append(": invalid number");
                proof {
                    assert(out@ =~= message_of(*self));
                }
                out
            },
        }
    }
}

/// Interpret the outcome of a numeric metric query (temperature or load):
/// each failure kind maps to its error, and a finished, decoded output is
/// trimmed and parsed as a decimal number.
pub fn interpret_number_query(metric: Metric, outcome: QueryOutcome) -> (r: Result<
    Decimal,
    QueryError,
>)
    ensures
        match outcome {
            QueryOutcome::SpawnError { cause } => r == Err::<Decimal, QueryError>(
                (QueryError::SpawnFailed { metric, cause }),
            ),
            QueryOutcome::Finished { success, status, stdout, stderr } => if !success {
                r == Err::<Decimal, QueryError>(
                    (QueryError::NonZeroExit { metric, status, stderr }),
                )
            } else {
                match stdout {
                    Err(cause) => r == Err::<Decimal, QueryError>(
                        (QueryError::DecodeFailed { metric, cause }),
                    ),
                    Ok(text) => {
                        &&& (r is Ok <==> wf_number(trimmed(text@)))
                        &&& (r matches Ok(d) ==> d.wf() && represents(d, trimmed(text@)))
                        &&& (r is Err ==> r == Err::<Decimal, QueryError>(
                            (QueryError::ParseFailed { metric }),
                        ))
                    },
                }
            },
        },
{
    match outcome {
        QueryOutcome::SpawnError { cause } => Err(QueryError::SpawnFailed { metric, cause }),
        QueryOutcome::Finished { success, status, stdout, stderr } => {
            if !success {
                Err(QueryError::NonZeroExit { metric, status, stderr })
            } else {
                match stdout {
                    Err(cause) => Err(QueryError::DecodeFailed { metric, cause }),
                    Ok(text) => match Decimal::parse(text.as_str()) {
                        Some(d) => Ok(d),
                        None => Err(QueryError::ParseFailed { metric }),
                    },
                }
            }
        },
    }
}

/// Interpret the outcome of the model-name query: each failure kind maps to
/// its error, and a finished, decoded output is returned trimmed.
pub fn interpret_name_query(outcome: QueryOutcome) -> (r: Result<String, QueryError>)
    ensures
        match outcome {
            QueryOutcome::SpawnError { cause } => r == Err::<String, QueryError>(
                (QueryError::SpawnFailed { metric: Metric::Name, cause }),
            ),
            QueryOutcome::Finished { success, status, stdout, stderr } => if !success {
                r == Err::<String, QueryError>(
                    (QueryError::NonZeroExit { metric: Metric::Name, status, stderr }),
                )
            } else {
                match stdout {
                    Err(cause) => r == Err::<String, QueryError>(
                        (QueryError::DecodeFailed { metric: Metric::Name, cause }),
                    ),
                    Ok(text) => r matches Ok(m) && m@ == trimmed(text@),
                }
            },
        },
{
    match outcome {
        QueryOutcome::SpawnError { cause } => Err(
            QueryError::SpawnFailed { metric: Metric::Name, cause },
        ),
        QueryOutcome::Finished { success, status, stdout, stderr } => {
            if !success {
                Err(QueryError::NonZeroExit { metric: Metric::Name, status, stderr })
            } else {
                match stdout {
                    Err(cause) => Err(QueryError::DecodeFailed { metric: Metric::Name, cause }),
                    Ok(text) => Ok(String::from_str(trim_str(text.as_str()))),
                }
            }
        },
    }
}

} // verus!
