//! The formats in which events can be serialized.

use vstd::prelude::*;

use crate::text::{lowercase_text, to_lowercase};

verus! {

/// A serialization format.
#[derive(Debug, Clone, Copy, PartialEq, Eq, Hash, Structural)]
pub enum SerializationFormat {
    /// JSON: readable, widely supported.
    Json,
    /// MessagePack: compact binary.
    MessagePack,
    /// Bincode: fastest, Rust only.
    Bincode,
}

impl Default for SerializationFormat {
    /// JSON.
    fn default() -> (f: Self)
        ensures
            f == SerializationFormat::Json,
    {
        SerializationFormat::Json
    }
}

/// The format a lowercase name denotes: `json`, `messagepack` or
/// `msgpack`, or `bincode`.
pub open spec fn format_named(name: Seq<char>) -> Option<SerializationFormat> {
    if name == "json"@ {
        Some(SerializationFormat::Json)
    } else if name == "messagepack"@ || name == "msgpack"@ {
        Some(SerializationFormat::MessagePack)
    } else if name == "bincode"@ {
        Some(SerializationFormat::Bincode)
    } else {
        None
    }
}

/// The file extension of a format.
pub open spec fn extension_of(f: SerializationFormat) -> Seq<char> {
    match f {
        SerializationFormat::Json => "json"@,
        SerializationFormat::MessagePack => "msgpack"@,
        SerializationFormat::Bincode => "bincode"@,
    }
}

/// A format's file extension is a name that denotes the format.
pub proof fn lemma_extension_names_format(f: SerializationFormat)
    ensures
        format_named(extension_of(f)) == Some(f),
{
    reveal_strlit("json");
    reveal_strlit("msgpack");
    reveal_strlit("messagepack");
    reveal_strlit("bincode");
    assert("bincode"@[0] != "msgpack"@[0]);
    assert("msgpack"@.len() != "json"@.len());
    assert("bincode"@.len() != "json"@.len());
    assert("bincode"@.len() != "messagepack"@.len());
}

fn str_eq(a: &str, b: &str) -> (r: bool)
    ensures
        r == (a@ == b@),
{
    a.to_owned() == b.to_owned()
}

impl SerializationFormat {
    /// The file extension for the format.
    pub fn file_extension(&self) -> (s: &'static str)
        ensures
            s@ == extension_of(*self),
    {
        match self {
            SerializationFormat::Json => "json",
            SerializationFormat::MessagePack => "msgpack",
            SerializationFormat::Bincode => "bincode",
        }
    }

    /// The MIME type of the format.
    pub fn mime_type(&self) -> (s: &'static str)
        ensures
            s@ == match *self {
                SerializationFormat::Json => "application/json"@,
                SerializationFormat::MessagePack => "application/msgpack"@,
                SerializationFormat::Bincode => "application/octet-stream"@,
            },
    {
        match self {
            SerializationFormat::Json => "application/json",
            SerializationFormat::MessagePack => "application/msgpack",
            SerializationFormat::Bincode => "application/octet-stream",
        }
    }

    /// The display name of the format.
    pub fn name(&self) -> (s: &'static str)
        ensures
            s@ == match *self {
                SerializationFormat::Json => "JSON"@,
                SerializationFormat::MessagePack => "MessagePack"@,
                SerializationFormat::Bincode => "Bincode"@,
            },
    {
        match self {
            SerializationFormat::Json => "JSON",
            SerializationFormat::MessagePack => "MessagePack",
            SerializationFormat::Bincode => "Bincode",
        }
    }

    /// The format a lowercase name denotes, as [`format_named`] says.
    pub fn from_lowercase_name(name: &str) -> (f: Option<SerializationFormat>)
        ensures
            f == format_named(name@),
    {
        if str_eq(name, "json") {
            Some(SerializationFormat::Json)
        } else if str_eq(name, "messagepack") || str_eq(name, "msgpack") {
            Some(SerializationFormat::MessagePack)
        } else if str_eq(name, "bincode") {
            Some(SerializationFormat::Bincode)
        } else {
            None
        }
    }

    /// Parses a format name in any case; an unknown name gives the message
    /// `Unknown serialization format: ` followed by the name.
    pub fn parse(s: &str) -> (r: Result<SerializationFormat, String>)
        ensures
            match format_named(lowercase_text(s@)) {
                Some(f) => r == Ok::<SerializationFormat, String>(f),
                None => r matches Err(m) && m@ == "Unknown serialization format: "@ + s@,
            },
    {
        let lower = to_lowercase(s);
        match SerializationFormat::from_lowercase_name(lower.as_str()) {
            Some(f) => Ok(f),
            None => Err("Unknown serialization format: ".to_owned().concat(s)),
        }
    }
}

impl std::str::FromStr for SerializationFormat {
    type Err = String;

    fn from_str(s: &str) -> Result<SerializationFormat, String> {
        SerializationFormat::parse(s)
    }
}

} // verus!
