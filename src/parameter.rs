//! Parameters: named values of a remote key/value store, the set of them a
//! batch load returns, and the requests that write one back.

use crate::ordering::{
    lemma_stable_order_unique, stable_sort_by_name, stably_sorted, Named,
};
use crate::secure_string::SecureString;
use vstd::prelude::*;
use vstd::string::StringExecFns;

verus! {

/// Why a parameter operation failed.
#[derive(Debug, Clone, PartialEq, Eq)]
pub enum ParameterDataError {
    ParameterMetaDataLoadError,
    ParameterDataLoadError,
    InvalidParameter(String),
    UnsupportedParameterType(String),
    UnknownParameterType,
    ParameterDataWriteError(String),
}

impl ParameterDataError {
    /// The stable code of the error, as reported to callers.
    pub open spec fn spec_code(self) -> Seq<char> {
        match self {
            ParameterDataError::ParameterMetaDataLoadError => "ParameterMetaDataLoadError"@,
            ParameterDataError::ParameterDataLoadError => "ParameterDataLoadError"@,
            ParameterDataError::InvalidParameter(_) => "InvalidParameter"@,
            ParameterDataError::UnsupportedParameterType(_) => "UnsupportedParameterType"@,
            ParameterDataError::UnknownParameterType => "UnknownParameterType"@,
            ParameterDataError::ParameterDataWriteError(_) => "ParameterDataWriteError"@,
        }
    }

    /// The human-readable message of the error.
    pub open spec fn spec_message(self) -> Seq<char> {
        match self {
            ParameterDataError::ParameterMetaDataLoadError => "failed to load parameter metadata"@,
            ParameterDataError::ParameterDataLoadError => "failed to load parameter data"@,
            ParameterDataError::InvalidParameter(detail) => "invalid parameter: "@ + detail@,
            ParameterDataError::UnsupportedParameterType(tag) => "unsupported parameter type: "@
                + tag@,
            ParameterDataError::UnknownParameterType => "unknown parameter type"@,
            ParameterDataError::ParameterDataWriteError(reason) => "failed to write parameter data: "@
                + reason@,
        }
    }

    /// The message reported to callers: the remote diagnostic alone for a
    /// failed write, the human-readable message otherwise.
    pub open spec fn spec_reported_message(self) -> Seq<char> {
        match self {
            ParameterDataError::ParameterDataWriteError(reason) => reason@,
            _ => self.spec_message(),
        }
    }

    pub fn code(&self) -> (r: &'static str)
        ensures
            r@ == self.spec_code(),
    {
        match self {
            ParameterDataError::ParameterMetaDataLoadError => "ParameterMetaDataLoadError",
            ParameterDataError::ParameterDataLoadError => "ParameterDataLoadError",
            ParameterDataError::InvalidParameter(_) => "InvalidParameter",
            ParameterDataError::UnsupportedParameterType(_) => "UnsupportedParameterType",
            ParameterDataError::UnknownParameterType => "UnknownParameterType",
            ParameterDataError::ParameterDataWriteError(_) => "ParameterDataWriteError",
        }
    }

    pub fn message(&self) -> (r: String)
        ensures
            r@ == self.spec_message(),
    {
        match self {
            ParameterDataError::ParameterMetaDataLoadError => "failed to load parameter metadata".to_owned(),
            ParameterDataError::ParameterDataLoadError => "failed to load parameter data".to_owned(),
            ParameterDataError::InvalidParameter(detail) => "invalid parameter: ".to_owned().concat(
                detail.as_str(),
            ),
            ParameterDataError::UnsupportedParameterType(tag) => "unsupported parameter type: ".to_owned().concat(tag.as_str()),
            ParameterDataError::UnknownParameterType => "unknown parameter type".to_owned(),
            ParameterDataError::ParameterDataWriteError(reason) => "failed to write parameter data: ".to_owned().concat(reason.as_str()),
        }
    }

    pub fn reported_message(&self) -> (r: String)
        ensures
            r@ == self.spec_reported_message(),
    {
        match self {
            ParameterDataError::ParameterDataWriteError(reason) => reason.clone(),
            _ => self.message(),
        }
    }
}

/// The value of a parameter.
#[derive(Debug, Clone, PartialEq, Eq)]
pub enum ParameterValue {
    String(String),
    StringList(Vec<String>),
    SecureString(SecureString),
}

/// A named parameter; `version`, `last_modified_date` (milliseconds since the
/// Unix epoch) and `identifier` are set only on parameters read from the store.
#[derive(Debug, Clone, PartialEq, Eq)]
pub struct Parameter {
    pub name: String,
    pub value: ParameterValue,
    pub version: Option<i64>,
    pub last_modified_date: Option<i64>,
    pub identifier: Option<String>,
}

impl Parameter {
    pub fn new(
        name: String,
        value: ParameterValue,
        version: Option<i64>,
        last_modified_date: Option<i64>,
        identifier: Option<String>,
    ) -> (r: Self)
        ensures
            r == (Parameter { name, value, version, last_modified_date, identifier }),
    {
        Parameter { name, value, version, last_modified_date, identifier }
    }
}

/// A parameter built locally from a name and a value carries no store metadata.
impl From<(String, ParameterValue)> for Parameter {
    fn from(pair: (String, ParameterValue)) -> (r: Parameter) {
        let (name, value) = pair;
        Parameter { name, value, version: None, last_modified_date: None, identifier: None }
    }
}

impl vstd::std_specs::convert::FromSpecImpl<(String, ParameterValue)> for Parameter {
    open spec fn obeys_from_spec() -> bool {
        true
    }

    open spec fn from_spec(pair: (String, ParameterValue)) -> Parameter {
        Parameter {
            name: pair.0,
            value: pair.1,
            version: None,
            last_modified_date: None,
            identifier: None,
        }
    }
}

impl Named for Parameter {
    open spec fn key(&self) -> Seq<char> {
        self.name@
    }

    fn name_text(&self) -> (r: &str) {
        self.name.as_str()
    }
}

/// A bag of parameters; names are not required to be unique.
#[derive(Debug, Clone, PartialEq, Eq)]
pub struct ParameterSet {
    values: Vec<Parameter>,
}

impl View for ParameterSet {
    type V = Seq<Parameter>;

    closed spec fn view(&self) -> Seq<Parameter> {
        self.values@
    }
}

impl ParameterSet {
    pub fn new() -> (r: Self)
        ensures
            r@ == Seq::<Parameter>::empty(),
    {
        ParameterSet { values: Vec::new() }
    }

    pub fn add_parameter(&mut self, parameter: Parameter)
        ensures
            final(self)@ == old(self)@.push(parameter),
    {
        self.values.push(parameter);
    }

    pub fn add_all_parameters(&mut self, parameters: Vec<Parameter>)
        ensures
            final(self)@ == old(self)@ + parameters@,
    {
        let mut parameters = parameters;
        self.values.append(&mut parameters);
    }

    pub fn values(&self) -> (r: &Vec<Parameter>)
        ensures
            r@ == self@,
    {
        &self.values
    }

    /// Orders the parameters by ascending name; parameters of equal name
    /// keep their relative order.
    pub fn sort_parameters_asc(&mut self)
        ensures
            stably_sorted(old(self)@, final(self)@),
    {
        let mut values = Vec::new();
        std::mem::swap(&mut self.values, &mut values);
        self.values = stable_sort_by_name(values);
    }
}

impl Default for ParameterSet {
    fn default() -> (r: Self)
        ensures
            r@ == Seq::<Parameter>::empty(),
    {
        ParameterSet::new()
    }
}

/// Sorting a parameter set a second time leaves it as the first sort left it.
pub proof fn lemma_sorting_parameters_twice(
    before: ParameterSet,
    once: ParameterSet,
    twice: ParameterSet,
)
    requires
        stably_sorted(before@, once@),
        stably_sorted(once@, twice@),
    ensures
        twice@ == once@,
{
    lemma_stable_order_unique(twice@, once@);
}

/// The names of the parameters available under a profile.
#[derive(Debug, Clone, PartialEq, Eq)]
pub struct GetAvailableParametersResponse {
    pub names: Vec<String>,
}

impl GetAvailableParametersResponse {
    pub fn new(names: Vec<String>) -> (r: Self)
        ensures
            r.names == names,
    {
        GetAvailableParametersResponse { names }
    }
}

/// The value of a write request: one text, or a list of texts.
#[derive(Debug, Clone, PartialEq, Eq)]
pub enum Value {
    Single(String),
    Multiple(Vec<String>),
}

/// A request to create or overwrite a parameter.
#[derive(Debug, Clone, PartialEq, Eq)]
pub struct SetParameterRequest {
    pub name: String,
    pub value: Value,
    pub secure: Option<bool>,
}

impl SetParameterRequest {
    pub fn new(name: String, value: Value, secure: Option<bool>) -> (r: Self)
        ensures
            r == (SetParameterRequest { name, value, secure }),
    {
        SetParameterRequest { name, value, secure }
    }

    /// Whether the request asks for the value to be stored as a secret.
    pub open spec fn spec_is_secure(self) -> bool {
        self.secure == Some(true)
    }

    /// The parameter a request writes: a single text becomes a secure string
    /// when the request is marked secure and a plain string otherwise; a list
    /// becomes a string list whatever the mark. No store metadata is set.
    pub fn into_parameter(self) -> (r: Parameter)
        ensures
            r.name == self.name,
            r.version is None,
            r.last_modified_date is None,
            r.identifier is None,
            match self.value {
                Value::Single(text) => if self.spec_is_secure() {
                    r.value is SecureString && r.value->SecureString_0@ == text@
                } else {
                    r.value == ParameterValue::String(text)
                },
                Value::Multiple(texts) => r.value == ParameterValue::StringList(texts),
            },
    {
        let secure = match self.secure {
            Some(flag) => flag,
            None => false,
        };
        let value = match self.value {
            Value::Single(text) => if secure {
                ParameterValue::SecureString(SecureString::from_text(text.as_str()))
            } else {
                ParameterValue::String(text)
            },
            Value::Multiple(texts) => ParameterValue::StringList(texts),
        };
        Parameter::from((self.name, value))
    }
}

/// A request built from a name and a value is not marked secure.
impl From<(String, Value)> for SetParameterRequest {
    fn from(pair: (String, Value)) -> (r: SetParameterRequest) {
        let (name, value) = pair;
        SetParameterRequest::new(name, value, None)
    }
}

impl vstd::std_specs::convert::FromSpecImpl<(String, Value)> for SetParameterRequest {
    open spec fn obeys_from_spec() -> bool {
        true
    }

    open spec fn from_spec(pair: (String, Value)) -> SetParameterRequest {
        SetParameterRequest { name: pair.0, value: pair.1, secure: None }
    }
}

} // verus!
