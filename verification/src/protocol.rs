//! Protocol templates: named sequences of byte fields that the UI stores,
//! fills in and replays verbatim.  The core never parses or validates them;
//! they are plain data, with one conversion pair between the stored shape
//! and the import/export shape.

use vstd::prelude::*;

use vstd::string::StringExecFns;

verus! {

/// One field of a protocol template.
pub struct ProtocolField {
    pub id: String,
    pub name: String,
    /// Fixed byte length, when the field has one.
    pub length: Option<i32>,
    /// A variable field is filled in by the user at send time.
    pub is_variable: bool,
    /// How a variable field's value is typed in: `"text"` or `"hex"`.
    pub value_type: String,
    /// How a fixed field's value is displayed: `"dec"` or `"hex"`.
    pub value_format: Option<String>,
    pub value: String,
    pub description: Option<String>,
}

impl Default for ProtocolField {
    /// An empty fixed field, typed in as hex.
    fn default() -> (r: ProtocolField)
        ensures
            r.id@ == Seq::<char>::empty(),
            r.name@ == Seq::<char>::empty(),
            r.length is None,
            !r.is_variable,
            r.value_type@ == "hex"@,
            r.value_format is None,
            r.value@ == Seq::<char>::empty(),
            r.description is None,
    {
        ProtocolField {
            id: String::new(),
            name: String::new(),
            length: None,
            is_variable: false,
            value_type: String::from_str("hex"),
            value_format: None,
            value: String::new(),
            description: None,
        }
    }
}

/// A stored protocol template.
pub struct Protocol {
    pub id: String,
    pub name: String,
    pub description: Option<String>,
    pub fields: Vec<ProtocolField>,
    pub created_at: String,
    pub updated_at: String,
}

/// A request to store a new template.
pub struct CreateProtocolRequest {
    pub name: String,
    pub description: Option<String>,
    pub fields: Vec<ProtocolField>,
}

/// A request to replace a stored template.
pub struct UpdateProtocolRequest {
    pub id: String,
    pub name: String,
    pub description: Option<String>,
    pub fields: Vec<ProtocolField>,
}

/// A template as it travels through import and export files: no stored
/// identifier, fields in their export shape.
pub struct ProtocolImport {
    pub name: String,
    pub description: Option<String>,
    pub fields: Vec<ProtocolFieldExport>,
}

/// A field in its import/export shape: the value's typing is kept only for
/// the kind of field it belongs to, and the enabled flag travels along.
pub struct ProtocolFieldExport {
    pub id: String,
    pub name: String,
    pub length: Option<i32>,
    pub is_variable: bool,
    /// Only for variable fields: `"text"` or `"hex"`.
    pub value_type: Option<String>,
    /// Only for fixed fields: `"dec"`, `"hex"` or `"bin"`.
    pub value_format: Option<String>,
    pub value: String,
    pub description: Option<String>,
    pub enabled: bool,
}

impl ProtocolFieldExport {
    /// The export shape of a stored field: the value typing goes with a
    /// variable field, the value format with a fixed one, and an exported
    /// field is always enabled.
    pub fn from(field: ProtocolField) -> (r: ProtocolFieldExport)
        ensures
            r.id == field.id,
            r.name == field.name,
            r.length == field.length,
            r.is_variable == field.is_variable,
            r.value_type == (if field.is_variable {
                Some(field.value_type)
            } else {
                None::<String>
            }),
            r.value_format == (if !field.is_variable {
                field.value_format
            } else {
                None::<String>
            }),
            r.value == field.value,
            r.description == field.description,
            r.enabled,
    {
        let is_variable = field.is_variable;
        ProtocolFieldExport {
            id: field.id,
            name: field.name,
            length: field.length,
            is_variable,
            value_type: if is_variable {
                Some(field.value_type)
            } else {
                None
            },
            value_format: if !is_variable {
                field.value_format
            } else {
                None
            },
            value: field.value,
            description: field.description,
            enabled: true,
        }
    }
}

impl ProtocolField {
    /// The stored shape of an imported field; a missing value typing falls
    /// back to `"text"` for variable fields and `"hex"` for fixed ones.
    pub fn from(field: ProtocolFieldExport) -> (r: ProtocolField)
        ensures
            r.id == field.id,
            r.name == field.name,
            r.length == field.length,
            r.is_variable == field.is_variable,
            field.value_type matches Some(v) ==> r.value_type == v,
            field.value_type is None && field.is_variable ==> r.value_type@ == "text"@,
            field.value_type is None && !field.is_variable ==> r.value_type@ == "hex"@,
            r.value_format == field.value_format,
            r.value == field.value,
            r.description == field.description,
    {
        let is_variable = field.is_variable;
        let value_type = match field.value_type {
            Some(v) => v,
            None => if is_variable {
                String::from_str("text")
            } else {
                String::from_str("hex")
            },
        };
        ProtocolField {
            id: field.id,
            name: field.name,
            length: field.length,
            is_variable,
            value_type,
            value_format: field.value_format,
            value: field.value,
            description: field.description,
        }
    }
}

} // verus!
