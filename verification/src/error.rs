//! Why a piece of config-drive data is refused.

use crate::text;
use vstd::prelude::*;

verus! {

/// The reasons for which config-drive data is refused.
#[derive(Debug)]
pub enum Error {
    /// A network configuration entry of the named type describes no interface.
    UnsupportedConfigType(String),
    /// A static subnet comes without an address.
    MissingAddress,
    /// A text is no IP address, with the reason that was given.
    InvalidIpAddr(String),
    /// A text, or an address with its netmask, is no IP network, with the reason that was given.
    InvalidIpNetwork(String),
    /// A text is no MAC address, with the reason that was given.
    InvalidMacAddr(String),
    /// More than one nameserver entry.
    TooManyNameservers,
    /// A text is no JSON document, with the reason that was given.
    InvalidJson(String),
    /// A text is no YAML document, with the reason that was given.
    InvalidYaml(String),
    /// A YAML document has no JSON counterpart, with the reason that was given.
    YamlWithoutJson(String),
    /// A network data version other than 1 and 2.
    UnsupportedVersion(u64),
    /// The metadata has an empty instance ID.
    EmptyInstanceId,
    /// The metadata has an empty hostname.
    EmptyHostname,
    /// A text is no SSH public key, with the reason that was given.
    InvalidPublicKey(String),
    /// No block device carries the config-drive label.
    ConfigDeviceNotFound,
}

/// What an [`Error`] says, with its texts as sequences of characters.
pub enum ErrorModel {
    UnsupportedConfigType(Seq<char>),
    MissingAddress,
    InvalidIpAddr(Seq<char>),
    InvalidIpNetwork(Seq<char>),
    InvalidMacAddr(Seq<char>),
    TooManyNameservers,
    InvalidJson(Seq<char>),
    InvalidYaml(Seq<char>),
    YamlWithoutJson(Seq<char>),
    UnsupportedVersion(u64),
    EmptyInstanceId,
    EmptyHostname,
    InvalidPublicKey(Seq<char>),
    ConfigDeviceNotFound,
}

impl View for Error {
    type V = ErrorModel;

    open spec fn view(&self) -> ErrorModel {
        match *self {
            Error::UnsupportedConfigType(s) => ErrorModel::UnsupportedConfigType(s@),
            Error::MissingAddress => ErrorModel::MissingAddress,
            Error::InvalidIpAddr(s) => ErrorModel::InvalidIpAddr(s@),
            Error::InvalidIpNetwork(s) => ErrorModel::InvalidIpNetwork(s@),
            Error::InvalidMacAddr(s) => ErrorModel::InvalidMacAddr(s@),
            Error::TooManyNameservers => ErrorModel::TooManyNameservers,
            Error::InvalidJson(s) => ErrorModel::InvalidJson(s@),
            Error::InvalidYaml(s) => ErrorModel::InvalidYaml(s@),
            Error::YamlWithoutJson(s) => ErrorModel::YamlWithoutJson(s@),
            Error::UnsupportedVersion(v) => ErrorModel::UnsupportedVersion(v),
            Error::EmptyInstanceId => ErrorModel::EmptyInstanceId,
            Error::EmptyHostname => ErrorModel::EmptyHostname,
            Error::InvalidPublicKey(s) => ErrorModel::InvalidPublicKey(s@),
            Error::ConfigDeviceNotFound => ErrorModel::ConfigDeviceNotFound,
        }
    }
}

impl ErrorModel {
    /// The sentence that tells a user what is wrong.
    pub open spec fn message(self) -> Seq<char> {
        match self {
            ErrorModel::UnsupportedConfigType(s) => {
                "cannot convert config to interface: unsupported config type \""@ + s + "\""@
            },
            ErrorModel::MissingAddress => {
                "cannot convert static subnet to interface: missing address"@
            },
            ErrorModel::InvalidIpAddr(s) => s,
            ErrorModel::InvalidIpNetwork(s) => s,
            ErrorModel::InvalidMacAddr(s) => s,
            ErrorModel::TooManyNameservers => "too many nameservers, only one supported"@,
            ErrorModel::InvalidJson(_) => "failed to parse JSON network data"@,
            ErrorModel::InvalidYaml(_) => "failed to parse YAML network data"@,
            ErrorModel::YamlWithoutJson(_) => "failed to convert YAML to JSON for processing"@,
            ErrorModel::UnsupportedVersion(v) => {
                "unsupported network data version: "@ + text::decimal(v as nat)
            },
            ErrorModel::EmptyInstanceId => "empty instance ID"@,
            ErrorModel::EmptyHostname => "empty local hostname"@,
            ErrorModel::InvalidPublicKey(s) => s,
            ErrorModel::ConfigDeviceNotFound => "could not find config device"@,
        }
    }

    /// What lies behind the message, where another parser gave a reason of its own.
    pub open spec fn cause(self) -> Option<Seq<char>> {
        match self {
            ErrorModel::InvalidJson(s) => Some(s),
            ErrorModel::InvalidYaml(s) => Some(s),
            ErrorModel::YamlWithoutJson(s) => Some(s),
            _ => None,
        }
    }
}

impl Error {
    /// The sentence that tells a user what is wrong.
    pub fn message(&self) -> (result: String)
        ensures
            result@ == self@.message(),
    {
        match self {
            Error::UnsupportedConfigType(s) => {
                let mut result =
                    "cannot convert config to interface: unsupported config type \"".to_owned();
                result.append(s.as_str());
                result.append("\"");
                result
            },
            Error::MissingAddress => {
                "cannot convert static subnet to interface: missing address".to_owned()
            },
            Error::InvalidIpAddr(s) => s.clone(),
            Error::InvalidIpNetwork(s) => s.clone(),
            Error::InvalidMacAddr(s) => s.clone(),
            Error::TooManyNameservers => "too many nameservers, only one supported".to_owned(),
            Error::InvalidJson(_) => "failed to parse JSON network data".to_owned(),
            Error::InvalidYaml(_) => "failed to parse YAML network data".to_owned(),
            Error::YamlWithoutJson(_) => {
                "failed to convert YAML to JSON for processing".to_owned()
            },
            Error::UnsupportedVersion(v) => {
                let mut result = "unsupported network data version: ".to_owned();
                result.append(text::decimal_text(*v).as_str());
                result
            },
            Error::EmptyInstanceId => "empty instance ID".to_owned(),
            Error::EmptyHostname => "empty local hostname".to_owned(),
            Error::InvalidPublicKey(s) => s.clone(),
            Error::ConfigDeviceNotFound => "could not find config device".to_owned(),
        }
    }

    /// What lies behind the message, where another parser gave a reason of its own.
    pub fn cause(&self) -> (result: Option<String>)
        ensures
            result.deep_view() == self@.cause(),
    {
        match self {
            Error::InvalidJson(s) => Some(s.clone()),
            Error::InvalidYaml(s) => Some(s.clone()),
            Error::YamlWithoutJson(s) => Some(s.clone()),
            _ => None,
        }
    }
}

/// What a result says: the contents of its value, or the reason for its refusal.
pub open spec fn outcome<T: DeepView>(result: Result<T, Error>) -> Result<T::V, ErrorModel> {
    match result {
        Ok(value) => Ok(value.deep_view()),
        Err(error) => Err(error@),
    }
}

/// All values of a sequence of results, or the first refusal among them.
pub open spec fn collected<T>(results: Seq<Result<T, ErrorModel>>) -> Result<Seq<T>, ErrorModel>
    decreases results.len(),
{
    if results.len() == 0 {
        Ok(Seq::empty())
    } else {
        match (collected(results.drop_last()), results.last()) {
            (Ok(values), Ok(value)) => Ok(values.push(value)),
            (Ok(_), Err(error)) => Err(error),
            (Err(error), _) => Err(error),
        }
    }
}

/// Results are collected to all their values in order if none of them is a refusal, and
/// to the first refusal otherwise.
pub proof fn collected_meaning<T>(results: Seq<Result<T, ErrorModel>>)
    ensures
        match collected(results) {
            Ok(values) => {
                &&& values.len() == results.len()
                &&& forall|i: int|
                    0 <= i < results.len() ==> #[trigger] results[i] == Ok::<T, ErrorModel>(
                        values[i],
                    )
            },
            Err(error) => exists|i: int|
                {
                    &&& 0 <= i < results.len()
                    &&& #[trigger] results[i] == Err::<T, ErrorModel>(error)
                    &&& forall|j: int| 0 <= j < i ==> #[trigger] results[j] is Ok
                },
        },
    decreases results.len(),
{
    if results.len() > 0 {
        let before = results.drop_last();
        collected_meaning(before);
        assert forall|j: int| 0 <= j < before.len() implies #[trigger] results[j] == before[j] by {}
        match collected(before) {
            Ok(values) => {
                match results.last() {
                    Ok(value) => {
                        let all = values.push(value);
                        assert forall|i: int| 0 <= i < results.len() implies #[trigger] results[i]
                            == Ok::<T, ErrorModel>(all[i]) by {
                            if i < before.len() {
                                assert(before[i] == Ok::<T, ErrorModel>(values[i]));
                            }
                        }
                    },
                    Err(error) => {
                        let i = results.len() - 1;
                        assert(results[i] == Err::<T, ErrorModel>(error));
                        assert forall|j: int| 0 <= j < i implies #[trigger] results[j] is Ok by {
                            assert(before[j] == Ok::<T, ErrorModel>(values[j]));
                        }
                    },
                }
            },
            Err(error) => {
                let i = choose|i: int|
                    {
                        &&& 0 <= i < before.len()
                        &&& #[trigger] before[i] == Err::<T, ErrorModel>(error)
                        &&& forall|j: int| 0 <= j < i ==> #[trigger] before[j] is Ok
                    };
                assert(results[i] == Err::<T, ErrorModel>(error));
                assert forall|j: int| 0 <= j < i implies #[trigger] results[j] is Ok by {
                    assert(before[j] is Ok);
                }
            },
        }
    }
}

/// The next result decides how the collection of what came before it goes on.
pub(crate) proof fn collected_step<T>(results: Seq<Result<T, ErrorModel>>, i: int)
    requires
        0 <= i < results.len(),
    ensures
        collected(results.take(i + 1)) == (match (collected(results.take(i)), results[i]) {
            (Ok(values), Ok(value)) => Ok::<Seq<T>, ErrorModel>(values.push(value)),
            (Ok(_), Err(error)) => Err(error),
            (Err(error), _) => Err(error),
        }),
{
    assert(results.take(i + 1).drop_last() =~= results.take(i));
}

/// A refusal among the first results is the refusal of them all.
pub(crate) proof fn collected_refusal<T>(results: Seq<Result<T, ErrorModel>>, n: int)
    requires
        0 <= n <= results.len(),
        collected(results.take(n)) is Err,
    ensures
        collected(results) == collected(results.take(n)),
    decreases results.len() - n,
{
    if n < results.len() {
        collected_step(results, n);
        collected_refusal(results, n + 1);
    } else {
        assert(results.take(n) =~= results);
    }
}

} // verus!
