//! The declaration processor: given an annotated type's name and the
//! conversion capability chosen for it, emit the source text of the
//! corresponding conversion implementations.
//!
//! The emitted decode conversion rebuilds a value of the type from a
//! dynamic value; the emitted encode conversion renders a value of the type
//! as a dynamic value. Both are thin forwarding implementations over the
//! serde_json value type.

use vstd::prelude::*;

use vstd::string::StringExecFns;

verus! {

/// Which conversions a record type asks to have generated.
#[derive(Clone, Copy, Debug, PartialEq, Eq, Structural)]
pub enum Capability {
    /// Only the conversion from a dynamic value to the type.
    Decode,
    /// Only the conversion from the type to a dynamic value.
    Encode,
    /// Both conversions.
    Both,
}

/// The capability requests the decode conversion.
pub open spec fn emits_decode(c: Capability) -> bool {
    c is Decode || c is Both
}

/// The capability requests the encode conversion.
pub open spec fn emits_encode(c: Capability) -> bool {
    c is Encode || c is Both
}

/// The source text of the decode conversion bound to the type `name`: a
/// `TryFrom` of the dynamic value type that forwards to the deserializer.
pub open spec fn spec_decode_impl(name: Seq<char>) -> Seq<char> {
    "impl std::convert::TryFrom<serde_json::Value> for "@ + name + "\nwhere\n    "@ + name
        + ": serde::de::DeserializeOwned,\n{\n    type Error = serde_json::Error;\n\n    fn try_from(value: serde_json::Value) -> Result<Self, Self::Error> {\n        serde_json::from_value(value)\n    }\n}\n"@
}

/// The source text of the encode conversion bound to the type `name`: a
/// `TryFrom` of the type, for the dynamic value type, that forwards to the
/// serializer.
pub open spec fn spec_encode_impl(name: Seq<char>) -> Seq<char> {
    "impl std::convert::TryFrom<"@ + name + "> for serde_json::Value\nwhere\n    "@ + name
        + ": serde::Serialize,\n{\n    type Error = serde_json::Error;\n\n    fn try_from(value: "@
        + name
        + ") -> Result<Self, Self::Error> {\n        serde_json::to_value(value)\n    }\n}\n"@
}

/// The declarations emitted for one annotated type: exactly the conversions
/// that the capability requests, the decode conversion first.
pub open spec fn spec_emitted(name: Seq<char>, c: Capability) -> Seq<char> {
    match c {
        Capability::Decode => spec_decode_impl(name),
        Capability::Encode => spec_encode_impl(name),
        Capability::Both => spec_decode_impl(name) + spec_encode_impl(name),
    }
}

/// Renders the decode conversion for the type `name`.
pub fn generate_try_from_value(name: &str) -> (r: String)
    ensures
        r@ == spec_decode_impl(name@),
{
    let mut s = String::from_str("impl std::convert::TryFrom<serde_json::Value> for ");
    s.append(name);
    s.append("\nwhere\n    ");
    s.append(name);
    s.append(
        ": serde::de::DeserializeOwned,\n{\n    type Error = serde_json::Error;\n\n    fn try_from(value: serde_json::Value) -> Result<Self, Self::Error> {\n        serde_json::from_value(value)\n    }\n}\n",
    );
    s
}

/// Renders the encode conversion for the type `name`.
pub fn generate_try_from_struct(name: &str) -> (r: String)
    ensures
        r@ == spec_encode_impl(name@),
{
    let mut s = String::from_str("impl std::convert::TryFrom<");
    s.append(name);
    s.append("> for serde_json::Value\nwhere\n    ");
    s.append(name);
    s.append(": serde::Serialize,\n{\n    type Error = serde_json::Error;\n\n    fn try_from(value: ");
    s.append(name);
    s.append(") -> Result<Self, Self::Error> {\n        serde_json::to_value(value)\n    }\n}\n");
    s
}

/// Emits both conversions for the type `name`: decode, then encode.
pub fn derive_try_from(name: &str) -> (r: String)
    ensures
        r@ == spec_emitted(name@, Capability::Both),
{
    let decode_impl = generate_try_from_value(name);
    let encode_impl = generate_try_from_struct(name);
    decode_impl.concat(encode_impl.as_str())
}

/// Emits the encode conversion alone for the type `name`.
pub fn derive_try_from_se(name: &str) -> (r: String)
    ensures
        r@ == spec_emitted(name@, Capability::Encode),
{
    generate_try_from_struct(name)
}

/// Emits the decode conversion alone for the type `name`.
pub fn derive_try_from_de(name: &str) -> (r: String)
    ensures
        r@ == spec_emitted(name@, Capability::Decode),
{
    generate_try_from_value(name)
}

/// Emits, for the type `name`, exactly the conversions that `capability`
/// requests.
pub fn derive_source(name: &str, capability: Capability) -> (r: String)
    ensures
        r@ == spec_emitted(name@, capability),
{
    match capability {
        Capability::Decode => derive_try_from_de(name),
        Capability::Encode => derive_try_from_se(name),
        Capability::Both => derive_try_from(name),
    }
}

/// Law: a type whose capability is decode-only gets the decode conversion
/// and no encode conversion — what is emitted for it is the decode
/// implementation alone.
pub proof fn lemma_decode_only_capability(name: Seq<char>)
    ensures
        emits_decode(Capability::Decode),
        !emits_encode(Capability::Decode),
        spec_emitted(name, Capability::Decode) == spec_decode_impl(name),
{
}

} // verus!
