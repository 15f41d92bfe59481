//! The closed set of target runtime identifiers, with a strict canonical
//! parser and a lenient alias resolver.
//!
//! The strict parser (`Engine::from_str`) fails explicitly on unrecognized
//! input, for callers that construct a single engine from a literal string
//! and want a hard error on typos. The lenient resolver (`resolve_alias`)
//! returns nothing on unrecognized input, for callers ingesting an
//! externally maintained feed that must tolerate unknown identifiers.

use vstd::prelude::*;

use crate::errors::AliasParseError;
use crate::text::str_eq;

verus! {

/// How many engines the closed set holds.
pub const ENGINE_COUNT: usize = 15;

/// Canonical identifier for a target JavaScript runtime or browser.
#[derive(Clone, Copy, PartialEq, Eq, Structural, Debug)]
pub enum Engine {
    Chrome,
    Deno,
    Edge,
    Firefox,
    Hermes,
    Ie,
    Ios,
    Node,
    Opera,
    Rhino,
    Safari,
    Samsung,
    Electron,
    OperaMobile,
    Android,
}

/// The engine a raw name denotes: each canonical lowercase name maps to its
/// engine, and the known aliases (`and_chr`, `and_ff`, `ie_mob`, `ios_saf`,
/// `op_mob`) route mobile variants to the same canonical engine.
pub open spec fn spec_engine_of(name: Seq<char>) -> Option<Engine> {
    if name == "chrome"@ || name == "and_chr"@ {
        Some(Engine::Chrome)
    } else if name == "deno"@ {
        Some(Engine::Deno)
    } else if name == "edge"@ {
        Some(Engine::Edge)
    } else if name == "firefox"@ || name == "and_ff"@ {
        Some(Engine::Firefox)
    } else if name == "hermes"@ {
        Some(Engine::Hermes)
    } else if name == "ie"@ || name == "ie_mob"@ {
        Some(Engine::Ie)
    } else if name == "ios"@ || name == "ios_saf"@ {
        Some(Engine::Ios)
    } else if name == "node"@ {
        Some(Engine::Node)
    } else if name == "opera"@ || name == "op_mob"@ {
        Some(Engine::Opera)
    } else if name == "rhino"@ {
        Some(Engine::Rhino)
    } else if name == "safari"@ {
        Some(Engine::Safari)
    } else if name == "samsung"@ {
        Some(Engine::Samsung)
    } else if name == "electron"@ {
        Some(Engine::Electron)
    } else if name == "opera_mobile"@ {
        Some(Engine::OperaMobile)
    } else if name == "android"@ {
        Some(Engine::Android)
    } else {
        None
    }
}

/// Position of an engine in the closed set, used to index the floor table.
pub open spec fn spec_engine_index(e: Engine) -> int {
    match e {
        Engine::Chrome => 0,
        Engine::Deno => 1,
        Engine::Edge => 2,
        Engine::Firefox => 3,
        Engine::Hermes => 4,
        Engine::Ie => 5,
        Engine::Ios => 6,
        Engine::Node => 7,
        Engine::Opera => 8,
        Engine::Rhino => 9,
        Engine::Safari => 10,
        Engine::Samsung => 11,
        Engine::Electron => 12,
        Engine::OperaMobile => 13,
        Engine::Android => 14,
    }
}

/// The engine at a given position in the closed set.
pub open spec fn spec_engine_at(i: int) -> Engine {
    if i == 0 {
        Engine::Chrome
    } else if i == 1 {
        Engine::Deno
    } else if i == 2 {
        Engine::Edge
    } else if i == 3 {
        Engine::Firefox
    } else if i == 4 {
        Engine::Hermes
    } else if i == 5 {
        Engine::Ie
    } else if i == 6 {
        Engine::Ios
    } else if i == 7 {
        Engine::Node
    } else if i == 8 {
        Engine::Opera
    } else if i == 9 {
        Engine::Rhino
    } else if i == 10 {
        Engine::Safari
    } else if i == 11 {
        Engine::Samsung
    } else if i == 12 {
        Engine::Electron
    } else if i == 13 {
        Engine::OperaMobile
    } else {
        Engine::Android
    }
}

/// Indexing is a bijection between the closed set and `0..ENGINE_COUNT`.
pub proof fn lemma_engine_index_at(e: Engine)
    ensures
        0 <= spec_engine_index(e) < ENGINE_COUNT,
        spec_engine_at(spec_engine_index(e)) == e,
{
}

impl Engine {
    /// Position of this engine in the closed set.
    pub fn index(&self) -> (i: usize)
        ensures
            i == spec_engine_index(*self),
            i < ENGINE_COUNT,
    {
        match self {
            Engine::Chrome => 0,
            Engine::Deno => 1,
            Engine::Edge => 2,
            Engine::Firefox => 3,
            Engine::Hermes => 4,
            Engine::Ie => 5,
            Engine::Ios => 6,
            Engine::Node => 7,
            Engine::Opera => 8,
            Engine::Rhino => 9,
            Engine::Safari => 10,
            Engine::Samsung => 11,
            Engine::Electron => 12,
            Engine::OperaMobile => 13,
            Engine::Android => 14,
        }
    }

    /// The engine at a given position of the closed set.
    pub fn at_index(i: usize) -> (r: Engine)
        requires
            i < ENGINE_COUNT,
        ensures
            r == spec_engine_at(i as int),
            spec_engine_index(r) == i,
    {
        if i == 0 {
            Engine::Chrome
        } else if i == 1 {
            Engine::Deno
        } else if i == 2 {
            Engine::Edge
        } else if i == 3 {
            Engine::Firefox
        } else if i == 4 {
            Engine::Hermes
        } else if i == 5 {
            Engine::Ie
        } else if i == 6 {
            Engine::Ios
        } else if i == 7 {
            Engine::Node
        } else if i == 8 {
            Engine::Opera
        } else if i == 9 {
            Engine::Rhino
        } else if i == 10 {
            Engine::Safari
        } else if i == 11 {
            Engine::Samsung
        } else if i == 12 {
            Engine::Electron
        } else if i == 13 {
            Engine::OperaMobile
        } else {
            Engine::Android
        }
    }

    /// Strict canonical-name parser: fails explicitly on any name outside
    /// the closed set and its known aliases.
    pub fn from_str(name: &str) -> (r: Result<Engine, AliasParseError>)
        ensures
            match r {
                Ok(e) => spec_engine_of(name@) == Some(e),
                Err(_) => spec_engine_of(name@) is None,
            },
    {
        if str_eq(name, "chrome") || str_eq(name, "and_chr") {
            Ok(Engine::Chrome)
        } else if str_eq(name, "deno") {
            Ok(Engine::Deno)
        } else if str_eq(name, "edge") {
            Ok(Engine::Edge)
        } else if str_eq(name, "firefox") || str_eq(name, "and_ff") {
            Ok(Engine::Firefox)
        } else if str_eq(name, "hermes") {
            Ok(Engine::Hermes)
        } else if str_eq(name, "ie") || str_eq(name, "ie_mob") {
            Ok(Engine::Ie)
        } else if str_eq(name, "ios") || str_eq(name, "ios_saf") {
            Ok(Engine::Ios)
        } else if str_eq(name, "node") {
            Ok(Engine::Node)
        } else if str_eq(name, "opera") || str_eq(name, "op_mob") {
            Ok(Engine::Opera)
        } else if str_eq(name, "rhino") {
            Ok(Engine::Rhino)
        } else if str_eq(name, "safari") {
            Ok(Engine::Safari)
        } else if str_eq(name, "samsung") {
            Ok(Engine::Samsung)
        } else if str_eq(name, "electron") {
            Ok(Engine::Electron)
        } else if str_eq(name, "opera_mobile") {
            Ok(Engine::OperaMobile)
        } else if str_eq(name, "android") {
            Ok(Engine::Android)
        } else {
            Err(AliasParseError)
        }
    }

    /// Lenient resolver used inside bulk parsing: unknown names resolve to
    /// nothing and never fail the caller.
    pub fn resolve_alias(name: &str) -> (r: Option<Engine>)
        ensures
            r == spec_engine_of(name@),
    {
        match Engine::from_str(name) {
            Ok(e) => Some(e),
            Err(_) => None,
        }
    }
}

} // verus!
