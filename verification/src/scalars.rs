//! The scalar codec: conversion between wire values and arbitrary-precision
//! decimals.

use crate::decimal::decimal_of_text;
use crate::decimal::is_read;
use crate::decimal::lemma_plain;
use crate::decimal::lemma_text_round_trip;
use crate::decimal::Decimal;
use crate::decimal::DecimalModel;
use crate::decimal::DecimalParts;
use vstd::prelude::*;
use vstd::string::StringExecFns;

verus! {

/// The types of wire value that cannot stand for a decimal.
#[derive(Debug, Clone, Copy, PartialEq, Eq, Structural)]
pub enum WireKind {
    Null,
    Boolean,
    Binary,
    Enum,
    List,
    Object,
}

/// A value as it arrives on the wire.
#[derive(Debug, PartialEq, Eq)]
pub enum WireValue {
    /// A string.
    String(String),
    /// A number, as the parts of the decimal that writes out exactly the
    /// double nearest to it, or `None` where that double is not finite.
    Number(Option<DecimalParts>),
    /// A value of any other type.
    Other(WireKind),
}

/// The mathematical value of a [`WireValue`].
pub enum WireValueModel {
    String(Seq<char>),
    Number(Option<DecimalModel>),
    Other(WireKind),
}

impl View for WireValue {
    type V = WireValueModel;

    open spec fn view(&self) -> WireValueModel {
        match self {
            WireValue::String(text) => WireValueModel::String(text@),
            WireValue::Number(converted) => WireValueModel::Number(
                match converted {
                    Some(parts) => Some(parts@),
                    None => None,
                },
            ),
            WireValue::Other(kind) => WireValueModel::Other(*kind),
        }
    }
}

/// Why a wire value was rejected.
#[derive(Debug, Clone, Copy, PartialEq, Eq, Structural)]
pub enum ValidationError {
    /// The string or number does not stand for a decimal.
    InvalidDecimal,
    /// The value has a type that no decimal is read from.
    UnexpectedType(WireKind),
}

impl WireKind {
    /// The name under which messages speak of the type.
    pub open spec fn name_spec(self) -> Seq<char> {
        match self {
            WireKind::Null => "null"@,
            WireKind::Boolean => "boolean"@,
            WireKind::Binary => "binary"@,
            WireKind::Enum => "enum"@,
            WireKind::List => "list"@,
            WireKind::Object => "object"@,
        }
    }

    /// The name under which messages speak of the type.
    pub fn name(&self) -> (r: &'static str)
        ensures
            r@ == self.name_spec(),
    {
        match self {
            WireKind::Null => "null",
            WireKind::Boolean => "boolean",
            WireKind::Binary => "binary",
            WireKind::Enum => "enum",
            WireKind::List => "list",
            WireKind::Object => "object",
        }
    }
}

impl ValidationError {
    /// The text of the message.
    pub open spec fn message_spec(self) -> Seq<char> {
        match self {
            ValidationError::InvalidDecimal => "Invalid BigDecimal value"@,
            ValidationError::UnexpectedType(kind) => "Expected input type \"BigDecimal\", found "@
                + kind.name_spec() + "."@,
        }
    }

    /// A message for the caller, which names the offending type.
    pub fn message(&self) -> (r: String)
        ensures
            r@ == self.message_spec(),
    {
        match self {
            ValidationError::InvalidDecimal => String::from_str("Invalid BigDecimal value"),
            ValidationError::UnexpectedType(kind) => {
                let mut text = String::from_str("Expected input type \"BigDecimal\", found ");
                text.append(kind.name());
                text.append(".");
                text
            },
        }
    }
}

/// The decimal that a wire value stands for, or the reason why it stands
/// for none.
pub open spec fn parse_spec(value: WireValueModel) -> Result<DecimalModel, ValidationError> {
    match value {
        WireValueModel::String(text) => match decimal_of_text(text) {
            Some(d) => Ok(d),
            None => Err(ValidationError::InvalidDecimal),
        },
        WireValueModel::Number(converted) => match converted {
            Some(parts) => if parts.normalizable() {
                Ok(parts.normalized())
            } else {
                Err(ValidationError::InvalidDecimal)
            },
            None => Err(ValidationError::InvalidDecimal),
        },
        WireValueModel::Other(kind) => Err(ValidationError::UnexpectedType(kind)),
    }
}

/// The decimal scalar of the schema.
#[derive(Debug, PartialEq, Eq)]
pub struct GraphQLBigDecimal(pub Decimal);

impl View for GraphQLBigDecimal {
    type V = DecimalModel;

    open spec fn view(&self) -> DecimalModel {
        self.0@
    }
}

impl GraphQLBigDecimal {
    /// Reads a decimal from a wire value: a string is parsed, and gives a
    /// decimal wherever it is read as one, whatever its scale; a number is
    /// taken as converted; every other type is rejected.
    pub fn parse(value: WireValue) -> (r: Result<GraphQLBigDecimal, ValidationError>)
        ensures
            match r {
                Ok(d) => parse_spec(value@) == Ok::<DecimalModel, ValidationError>(d@),
                Err(e) => parse_spec(value@) == Err::<DecimalModel, ValidationError>(e),
            },
            value@ matches WireValueModel::String(text) ==> (r is Ok <==> is_read(text)),
    {
        match value {
            WireValue::String(text) => match Decimal::from_text(text.as_str()) {
                Some(d) => Ok(GraphQLBigDecimal(d)),
                None => Err(ValidationError::InvalidDecimal),
            },
            WireValue::Number(converted) => Self::from_converted(converted),
            WireValue::Other(kind) => Err(ValidationError::UnexpectedType(kind)),
        }
    }

    /// Takes over what the conversion of a wire number gave.
    pub fn from_converted(converted: Option<DecimalParts>) -> (r: Result<
        GraphQLBigDecimal,
        ValidationError,
    >)
        ensures
            match r {
                Ok(d) => converted matches Some(parts) && parts@.normalizable() && d@
                    == parts@.normalized(),
                Err(e) => e == ValidationError::InvalidDecimal && !(converted matches Some(parts)
                    && parts@.normalizable()),
            },
    {
        match converted {
            Some(parts) => match Decimal::from_parts(parts) {
                Some(d) => Ok(GraphQLBigDecimal(d)),
                None => Err(ValidationError::InvalidDecimal),
            },
            None => Err(ValidationError::InvalidDecimal),
        }
    }

    /// Writes the decimal as a wire value: always a string, in canonical
    /// form.
    pub fn to_value(&self) -> (value: WireValue)
        ensures
            value@ == WireValueModel::String(self@.text()),
    {
        WireValue::String(self.0.to_text())
    }
}

/// A decimal that is written to the wire and read back is the same number:
/// the decimal with its scale written out, which is the very same decimal
/// where its scale is not negative, as it is for every decimal that has
/// been read from a canonical string.
pub proof fn lemma_codec_round_trip(d: DecimalModel)
    requires
        d.wf(),
    ensures
        parse_spec(WireValueModel::String(d.text())) == Ok::<DecimalModel, ValidationError>(
            d.plain(),
        ),
        d.plain().text() == d.text(),
        d.scale >= 0 ==> parse_spec(WireValueModel::String(d.text())) == Ok::<
            DecimalModel,
            ValidationError,
        >(d),
{
    lemma_text_round_trip(d);
    lemma_plain(d);
}

} // verus!
